//! Parameters extracted from a path and parameters of a query string.

use crate::keyed::{
    distinct_keys, has_key, key_index, lemma_first_key, lemma_has_key, lemma_map_entries, lookup,
    map_entries, put, KeyedList, StringMap,
};
use crate::text::{
    extend, find, find_char, lemma_find_none, lemma_find_unique, lemma_split_more,
    lemma_split_one, pieces, slice, split, split_on, to_chars, to_string,
};
use std::str::FromStr;
use vstd::prelude::*;

verus! {

/// `str::parse`, which reads a value of `T` out of the text as `T`'s
/// `FromStr` decides; a text that `T` rejects gives `None`.
#[verifier::external_body]
fn parse_text<T: FromStr>(text: &str) -> (r: Option<T>) {
    text.parse().ok()
}

/// Parameters extracted from the segments of a path, in the order in which
/// they were first bound.
#[derive(Debug)]
pub struct RouteParams {
    params: StringMap,
}

impl View for RouteParams {
    type V = Seq<(Seq<char>, Seq<char>)>;

    closed spec fn view(&self) -> Seq<(Seq<char>, Seq<char>)> {
        self.params@
    }
}

impl Clone for RouteParams {
    fn clone(&self) -> (r: Self)
        ensures
            r@ == self@,
    {
        RouteParams { params: self.params.clone() }
    }
}

impl Default for RouteParams {
    fn default() -> (r: Self)
        ensures
            r@ == Seq::<(Seq<char>, Seq<char>)>::empty(),
    {
        RouteParams { params: StringMap::new() }
    }
}

impl RouteParams {
    /// No parameter is bound twice.
    pub open spec fn wf(&self) -> bool {
        distinct_keys(self@)
    }

    /// No parameters.
    pub fn new() -> (r: Self)
        ensures
            r@ == Seq::<(Seq<char>, Seq<char>)>::empty(),
            r.wf(),
    {
        RouteParams { params: StringMap::new() }
    }

    /// The parameters of `params`.
    pub fn from_map(params: StringMap) -> (r: Self)
        ensures
            r@ == params@,
    {
        RouteParams { params }
    }

    /// The value bound to `key`.
    pub fn get(&self, key: &str) -> (r: Option<&String>)
        ensures
            r.is_some() == has_key(self@, key@),
            r matches Some(v) ==> lookup(self@, key@) == Some(v@),
            r is None ==> lookup(self@, key@) is None,
    {
        self.params.get(key)
    }

    /// The value bound to `key`, read as a `T`. There is none where `key`
    /// is not bound or `T` rejects the text.
    pub fn get_as<T: FromStr>(&self, key: &str) -> (r: Option<T>)
        ensures
            !has_key(self@, key@) ==> r is None,
    {
        match self.params.get(key) {
            Some(text) => parse_text(text.as_str()),
            None => None,
        }
    }

    /// Binds `key` to `value`. A key already bound keeps its place.
    pub fn insert(&mut self, key: String, value: String)
        ensures
            old(self).wf() ==> final(self).wf(),
            final(self)@ == put(old(self)@, key@, value@),
    {
        self.params.insert(key, value);
    }

    /// Binds `key` to `value`; the same as `insert`.
    pub fn set(&mut self, key: String, value: String)
        ensures
            old(self).wf() ==> final(self).wf(),
            final(self)@ == put(old(self)@, key@, value@),
    {
        self.params.insert(key, value);
    }

    /// Whether `key` is bound.
    pub fn contains(&self, key: &str) -> (r: bool)
        ensures
            r == has_key(self@, key@),
    {
        self.params.contains_key(key)
    }

    /// All parameters.
    pub fn all(&self) -> (r: &StringMap)
        ensures
            r@ == self@,
    {
        &self.params
    }

    /// All parameters, to change them in place.
    pub fn all_mut(&mut self) -> (r: &mut StringMap)
        ensures
            r@ == old(self)@,
            final(self)@ == final(r)@,
    {
        &mut self.params
    }

    /// The parameters as pairs of key and value, in order.
    pub fn iter(&self) -> (r: Vec<(String, String)>)
        ensures
            r@.len() == self@.len(),
            forall|i: int| 0 <= i < r@.len() ==> (#[trigger] r@[i]).0@ == self@[i].0 && r@[i].1@ == self@[i].1,
    {
        let mut r: Vec<(String, String)> = Vec::new();
        let mut i: usize = 0;
        while i < self.params.len()
            invariant
                i <= self@.len(),
                r@.len() == i,
                forall|k: int| 0 <= k < i ==> (#[trigger] r@[k]).0@ == self@[k].0 && r@[k].1@ == self@[k].1,
            decreases self@.len() - i,
        {
            let key = self.params.key_at(i).clone();
            let value = self.params.value_at(i).clone();
            r.push((key, value));
            i += 1;
        }
        r
    }

    /// Whether no parameter is bound.
    pub fn is_empty(&self) -> (r: bool)
        ensures
            r == (self@.len() == 0),
    {
        self.params.is_empty()
    }

    /// Number of parameters.
    pub fn len(&self) -> (n: usize)
        ensures
            n == self@.len(),
    {
        self.params.len()
    }
}

/// The upper-case hexadecimal digit of a value below 16.
pub open spec fn hex_digit_char(value: int) -> char {
    if value < 10 {
        ('0' as u8 + value) as char
    } else {
        ('A' as u8 + value - 10) as char
    }
}

/// The character needs no escape in a URI component: an ASCII letter or
/// digit, or one of `-`, `_`, `.` and `~`.
pub open spec fn is_unreserved(c: char) -> bool {
    ('A' <= c <= 'Z') || ('a' <= c <= 'z') || ('0' <= c <= '9') || c == '-' || c == '_' || c == '.'
        || c == '~'
}

/// How a character is written in a URI component: unreserved characters
/// as they are, any other as `%` and the two hexadecimal digits of the low
/// byte of its code point.
pub open spec fn encode_char(c: char) -> Seq<char> {
    if is_unreserved(c) {
        seq![c]
    } else {
        let low = (c as u32 % 256) as int;
        seq!['%', hex_digit_char(low / 16), hex_digit_char(low % 16)]
    }
}

/// A text written as a URI component.
pub open spec fn encode(s: Seq<char>) -> Seq<char>
    decreases s.len(),
{
    if s.len() == 0 {
        Seq::empty()
    } else {
        encode(s.drop_last()) + encode_char(s.last())
    }
}

/// The value of a hexadecimal digit.
pub open spec fn hex_digit_value(c: char) -> Option<int> {
    if '0' <= c <= '9' {
        Some(c as u32 - '0' as u32)
    } else if 'a' <= c <= 'f' {
        Some(c as u32 - 'a' as u32 + 10)
    } else if 'A' <= c <= 'F' {
        Some(c as u32 - 'A' as u32 + 10)
    } else {
        None
    }
}

/// The value of one or two hexadecimal digits.
pub open spec fn hex_digits_value(digits: Seq<char>) -> Option<int> {
    if digits.len() == 1 {
        hex_digit_value(digits[0])
    } else if digits.len() == 2 {
        match (hex_digit_value(digits[0]), hex_digit_value(digits[1])) {
            (Some(high), Some(low)) => Some(16 * high + low),
            _ => None,
        }
    } else {
        None
    }
}

/// The byte that a text of at most two characters stands for in base 16:
/// one or two hexadecimal digits, where a `+` may stand before a single
/// digit. Anything else stands for no byte.
pub open spec fn hex_byte(text: Seq<char>) -> Option<int> {
    if text.len() == 2 && text[0] == '+' {
        hex_digit_value(text[1])
    } else {
        hex_digits_value(text)
    }
}

/// The text that a URI component stands for: `%` followed by a byte in
/// base 16 stands for the character of that byte, `+` for a space, and any
/// other character for itself. A `%` that no byte follows stays, with the
/// up to two characters after it.
pub open spec fn decode(s: Seq<char>) -> Seq<char>
    decreases s.len(),
{
    if s.len() == 0 {
        Seq::empty()
    } else if s[0] == '%' {
        let end = if s.len() >= 3 {
            3
        } else {
            s.len() as int
        };
        let hex = s.subrange(1, end);
        match hex_byte(hex) {
            Some(byte) => seq![(byte as u8) as char] + decode(s.skip(end)),
            None => seq!['%'] + hex + decode(s.skip(end)),
        }
    } else if s[0] == '+' {
        seq![' '] + decode(s.skip(1))
    } else {
        seq![s[0]] + decode(s.skip(1))
    }
}

/// Every character of `s` has a code point below 256.
pub open spec fn is_byte_text(s: Seq<char>) -> bool {
    forall|i: int| 0 <= i < s.len() ==> ((#[trigger] s[i]) as u32) < 256
}

/// The character can occur in a text written as a URI component.
pub open spec fn is_component_char(c: char) -> bool {
    is_unreserved(c) || c == '%'
}

proof fn lemma_hex_digit(value: int)
    requires
        0 <= value < 16,
    ensures
        hex_digit_value(hex_digit_char(value)) == Some(value),
        is_unreserved(hex_digit_char(value)),
{
    let c = hex_digit_char(value);
    if value < 10 {
        assert(c as u32 == 48 + value);
    } else {
        assert(c as u32 == 55 + value);
    }
}

proof fn lemma_decode_encoded_char(c: char, rest: Seq<char>)
    requires
        (c as u32) < 256,
    ensures
        decode(encode_char(c) + rest) == seq![c] + decode(rest),
{
    let text = encode_char(c) + rest;
    if is_unreserved(c) {
        assert(text[0] == c);
        assert(text.skip(1) =~= rest);
    } else {
        let low = (c as u32 % 256) as int;
        let high_digit = hex_digit_char(low / 16);
        let low_digit = hex_digit_char(low % 16);
        lemma_hex_digit(low / 16);
        lemma_hex_digit(low % 16);
        assert(text[0] == '%');
        assert(text.len() >= 3);
        let hex = text.subrange(1, 3);
        assert(hex =~= seq![high_digit, low_digit]);
        assert(hex[0] != '+');
        assert(hex_byte(hex) == Some(low));
        assert(text.skip(3) =~= rest);
        assert(low == c as u32);
        assert((low as u8) as char == c);
    }
}

proof fn lemma_decode_encoded(s: Seq<char>, rest: Seq<char>)
    requires
        is_byte_text(s),
    ensures
        decode(encode(s) + rest) == s + decode(rest),
    decreases s.len(),
{
    if s.len() == 0 {
        assert(encode(s) + rest =~= rest);
        assert(s + decode(rest) =~= decode(rest));
    } else {
        let front = s.drop_last();
        let c = s.last();
        assert(encode(s) + rest =~= encode(front) + (encode_char(c) + rest));
        lemma_decode_encoded(front, encode_char(c) + rest);
        lemma_decode_encoded_char(c, rest);
        assert(front + (seq![c] + decode(rest)) =~= s + decode(rest));
    }
}

/// Reading what was written gives the text back, for a text of characters
/// below 256: of a character above, only the low byte is written.
pub proof fn law_decode_encode(s: Seq<char>)
    requires
        is_byte_text(s),
    ensures
        decode(encode(s)) == s,
{
    lemma_decode_encoded(s, Seq::empty());
    assert(encode(s) + Seq::<char>::empty() =~= encode(s));
    assert(decode(Seq::<char>::empty()) =~= Seq::<char>::empty());
    assert(s + Seq::<char>::empty() =~= s);
}

/// A written URI component holds unreserved characters and `%` only.
pub proof fn law_encoded_chars(s: Seq<char>)
    ensures
        forall|i: int| 0 <= i < encode(s).len() ==> is_component_char(#[trigger] encode(s)[i]),
    decreases s.len(),
{
    if s.len() > 0 {
        law_encoded_chars(s.drop_last());
        let c = s.last();
        let low = (c as u32 % 256) as int;
        lemma_hex_digit(low / 16);
        lemma_hex_digit(low % 16);
        let front = encode(s.drop_last());
        assert forall|i: int| 0 <= i < encode(s).len() implies is_component_char(
            #[trigger] encode(s)[i],
        ) by {
            if i < front.len() {
                assert(encode(s)[i] == front[i]);
            } else {
                assert(encode(s)[i] == encode_char(c)[i - front.len()]);
            }
        }
    }
}

fn hex_digit_of(value: u8) -> (c: char)
    requires
        value < 16,
    ensures
        c == hex_digit_char(value as int),
{
    if value < 10 {
        (48u8 + value) as char
    } else {
        (55u8 + value) as char
    }
}

fn unreserved(c: char) -> (r: bool)
    ensures
        r == is_unreserved(c),
{
    ('A' <= c && c <= 'Z') || ('a' <= c && c <= 'z') || ('0' <= c && c <= '9') || c == '-' || c
        == '_' || c == '.' || c == '~'
}

fn encode_chars(s: &Vec<char>) -> (r: Vec<char>)
    ensures
        r@ == encode(s@),
{
    let mut r: Vec<char> = Vec::new();
    let mut i: usize = 0;
    assert(s@.take(0) =~= Seq::<char>::empty());
    while i < s.len()
        invariant
            i <= s.len(),
            r@ == encode(s@.take(i as int)),
        decreases s.len() - i,
    {
        let c = s[i];
        proof {
            assert(s@.take(i + 1).drop_last() == s@.take(i as int));
            assert(s@.take(i + 1).last() == c);
        }
        let ghost before = r@;
        if unreserved(c) {
            r.push(c);
            assert(r@ =~= before + encode_char(c));
        } else {
            let low: u8 = ((c as u32) % 256) as u8;
            r.push('%');
            r.push(hex_digit_of(low / 16));
            r.push(hex_digit_of(low % 16));
            assert(r@ =~= before + encode_char(c));
        }
        i += 1;
    }
    assert(s@.take(s.len() as int) == s@);
    r
}

/// Writes a text as a URI component.
pub fn encode_uri_component(s: &str) -> (r: String)
    ensures
        r@ == encode(s@),
{
    to_string(&encode_chars(&to_chars(s)))
}

fn digit_value(c: char) -> (r: Option<u8>)
    ensures
        match hex_digit_value(c) {
            Some(v) => r == Some(v as u8) && 0 <= v < 16,
            None => r is None,
        },
{
    if '0' <= c && c <= '9' {
        Some(((c as u32) - 48) as u8)
    } else if 'a' <= c && c <= 'f' {
        Some(((c as u32) - 97 + 10) as u8)
    } else if 'A' <= c && c <= 'F' {
        Some(((c as u32) - 65 + 10) as u8)
    } else {
        None
    }
}

fn byte_of(s: &Vec<char>, from: usize, to: usize) -> (r: Option<u8>)
    requires
        from <= to <= s.len(),
        to - from <= 2,
    ensures
        match hex_byte(s@.subrange(from as int, to as int)) {
            Some(v) => r == Some(v as u8) && 0 <= v < 256,
            None => r is None,
        },
{
    let ghost text = s@.subrange(from as int, to as int);
    if to - from == 1 {
        assert(text[0] == s@[from as int]);
        digit_value(s[from])
    } else if to - from == 2 {
        assert(text[0] == s@[from as int]);
        assert(text[1] == s@[from + 1]);
        if s[from] == '+' {
            digit_value(s[from + 1])
        } else {
            match (digit_value(s[from]), digit_value(s[from + 1])) {
                (Some(high), Some(low)) => Some(16 * high + low),
                _ => None,
            }
        }
    } else {
        None
    }
}

fn decode_chars(s: &Vec<char>) -> (r: Vec<char>)
    ensures
        r@ == decode(s@),
{
    let mut r: Vec<char> = Vec::new();
    let mut i: usize = 0;
    assert(s@.skip(0) == s@);
    while i < s.len()
        invariant
            i <= s.len(),
            decode(s@) == r@ + decode(s@.skip(i as int)),
        decreases s.len() - i,
    {
        let ghost rest = s@.skip(i as int);
        let ghost before = r@;
        let c = s[i];
        assert(rest[0] == c);
        if c == '%' {
            let end: usize = if s.len() - i >= 3 {
                i + 3
            } else {
                s.len()
            };
            let ghost hex = rest.subrange(1, end - i);
            assert(hex =~= s@.subrange(i + 1, end as int));
            assert(rest.skip(end - i) =~= s@.skip(end as int));
            match byte_of(s, i + 1, end) {
                Some(byte) => {
                    r.push(byte as char);
                    assert(before + (seq![(byte as u8) as char] + decode(s@.skip(end as int)))
                        =~= before.push(byte as char) + decode(s@.skip(end as int)));
                },
                None => {
                    r.push('%');
                    let tail = slice(s, i + 1, end);
                    extend(&mut r, &tail);
                    assert(before + (seq!['%'] + hex + decode(s@.skip(end as int))) =~= (
                    before.push('%') + hex) + decode(s@.skip(end as int)));
                },
            }
            i = end;
        } else {
            assert(rest.skip(1) =~= s@.skip(i + 1));
            if c == '+' {
                r.push(' ');
                assert(before + (seq![' '] + decode(s@.skip(i + 1))) =~= before.push(' ') + decode(
                    s@.skip(i + 1),
                ));
            } else {
                r.push(c);
                assert(before + (seq![c] + decode(s@.skip(i + 1))) =~= before.push(c) + decode(
                    s@.skip(i + 1),
                ));
            }
            i += 1;
        }
    }
    assert(s@.skip(s.len() as int) =~= Seq::<char>::empty());
    assert(r@ + Seq::<char>::empty() =~= r@);
    r
}

/// Reads the text that a URI component stands for.
pub fn decode_uri_component(s: &str) -> (r: String)
    ensures
        r@ == decode(s@),
{
    to_string(&decode_chars(&to_chars(s)))
}

/// The texts of a sequence of strings.
pub open spec fn texts(values: Seq<String>) -> Seq<Seq<char>> {
    values.map_values(|s: String| s@)
}

/// `m` with `value` added to the values of `key`: after the values that
/// the key has, or as the only value of a new key at the end.
pub open spec fn add_value(
    m: Seq<(Seq<char>, Seq<Seq<char>>)>,
    key: Seq<char>,
    value: Seq<char>,
) -> Seq<(Seq<char>, Seq<Seq<char>>)> {
    if has_key(m, key) {
        m.update(key_index(m, key), (key, m[key_index(m, key)].1.push(value)))
    } else {
        m.push((key, seq![value]))
    }
}

/// The parameters that the pieces of a query string stand for. A piece
/// `key=value` adds the decoded value to the decoded key; a piece without
/// `=` adds nothing.
pub open spec fn query_entries(parts: Seq<Seq<char>>) -> Seq<(Seq<char>, Seq<Seq<char>>)>
    decreases parts.len(),
{
    if parts.len() == 0 {
        Seq::empty()
    } else {
        let before = query_entries(parts.drop_last());
        let part = parts.last();
        match find(part, '=') {
            Some(eq) => add_value(before, decode(part.take(eq)), decode(part.skip(eq + 1))),
            None => before,
        }
    }
}

/// The parameters that a query string stands for.
pub open spec fn parse_query(query: Seq<char>) -> Seq<(Seq<char>, Seq<Seq<char>>)> {
    query_entries(split(query, '&'))
}

/// The pairs `key=value` of one key, written as URI components.
pub open spec fn entry_pairs(key: Seq<char>, values: Seq<Seq<char>>) -> Seq<Seq<char>> {
    values.map_values(|v: Seq<char>| encode(key) + seq!['='] + encode(v))
}

/// The pairs `key=value` of all keys, in order.
pub open spec fn all_pairs(m: Seq<(Seq<char>, Seq<Seq<char>>)>) -> Seq<Seq<char>>
    decreases m.len(),
{
    if m.len() == 0 {
        Seq::empty()
    } else {
        all_pairs(m.drop_last()) + entry_pairs(m.last().0, m.last().1)
    }
}

/// The parts with `sep` between them.
pub open spec fn join(parts: Seq<Seq<char>>, sep: char) -> Seq<char>
    decreases parts.len(),
{
    if parts.len() == 0 {
        Seq::empty()
    } else if parts.len() == 1 {
        parts[0]
    } else {
        join(parts.drop_last(), sep) + seq![sep] + parts.last()
    }
}

/// The query string of the parameters.
pub open spec fn query_text(m: Seq<(Seq<char>, Seq<Seq<char>>)>) -> Seq<char> {
    join(all_pairs(m), '&')
}

/// No two entries share a key, and every key has a value.
pub open spec fn has_values(m: Seq<(Seq<char>, Seq<Seq<char>>)>) -> bool {
    &&& distinct_keys(m)
    &&& forall|i: int| 0 <= i < m.len() ==> (#[trigger] m[i]).1.len() > 0
}

/// Adding a value keeps the keys distinct and leaves no key without one.
pub proof fn law_add_value(m: Seq<(Seq<char>, Seq<Seq<char>>)>, key: Seq<char>, value: Seq<char>)
    requires
        has_values(m),
    ensures
        has_values(add_value(m, key, value)),
{
    let after = add_value(m, key, value);
    if has_key(m, key) {
        lemma_has_key(m, key);
        let at = key_index(m, key);
        assert forall|i: int, j: int| 0 <= i < j < after.len() implies (#[trigger] after[i]).0 != (
        #[trigger] after[j]).0 by {
            assert(after[i].0 == m[i].0);
            assert(after[j].0 == m[j].0);
        }
        assert forall|i: int| 0 <= i < after.len() implies (#[trigger] after[i]).1.len() > 0 by {
            if i != at {
                assert(after[i] == m[i]);
            }
        }
    } else {
        assert forall|i: int, j: int| 0 <= i < j < after.len() implies (#[trigger] after[i]).0 != (
        #[trigger] after[j]).0 by {
            assert(after[i] == m[i]);
            if j < m.len() {
                assert(after[j] == m[j]);
            }
        }
        assert forall|i: int| 0 <= i < after.len() implies (#[trigger] after[i]).1.len() > 0 by {
            if i < m.len() {
                assert(after[i] == m[i]);
            }
        }
    }
}

proof fn lemma_entries_have_values(parts: Seq<Seq<char>>)
    ensures
        has_values(query_entries(parts)),
    decreases parts.len(),
{
    if parts.len() > 0 {
        lemma_entries_have_values(parts.drop_last());
        let part = parts.last();
        match find(part, '=') {
            Some(eq) => {
                law_add_value(
                    query_entries(parts.drop_last()),
                    decode(part.take(eq)),
                    decode(part.skip(eq + 1)),
                );
            },
            None => {},
        }
    }
}

/// What a query string stands for has distinct keys, each with a value.
pub proof fn law_parsed_query(query: Seq<char>)
    ensures
        has_values(parse_query(query)),
{
    lemma_entries_have_values(split(query, '&'));
}

/// The parameters can be read back from their query string: no two
/// entries share a key, every key has a value, and every character of the
/// keys and values has a code point below 256.
pub open spec fn is_plain_query(m: Seq<(Seq<char>, Seq<Seq<char>>)>) -> bool {
    &&& has_values(m)
    &&& forall|i: int| 0 <= i < m.len() ==> is_byte_text((#[trigger] m[i]).0)
    &&& forall|i: int, j: int|
        0 <= i < m.len() && 0 <= j < m[i].1.len() ==> is_byte_text(#[trigger] m[i].1[j])
}

proof fn lemma_split_join(parts: Seq<Seq<char>>, sep: char)
    requires
        parts.len() > 0,
        forall|i: int| 0 <= i < parts.len() ==> !(#[trigger] parts[i]).contains(sep),
    ensures
        split(join(parts, sep), sep) == parts,
    decreases parts.len(),
{
    if parts.len() == 1 {
        lemma_split_one(parts[0], sep);
        assert(parts =~= seq![parts[0]]);
    } else {
        let front = parts.drop_last();
        assert forall|i: int| 0 <= i < front.len() implies !(#[trigger] front[i]).contains(sep) by {
            assert(front[i] == parts[i]);
        }
        lemma_split_join(front, sep);
        lemma_split_more(join(front, sep), parts.last(), sep);
        assert(front.push(parts.last()) =~= parts);
    }
}

proof fn lemma_pair(key: Seq<char>, value: Seq<char>)
    requires
        is_byte_text(key),
        is_byte_text(value),
    ensures
        ({
            let pair = encode(key) + seq!['='] + encode(value);
            &&& find(pair, '=') == Some(encode(key).len() as int)
            &&& decode(pair.take(encode(key).len() as int)) == key
            &&& decode(pair.skip(encode(key).len() as int + 1)) == value
            &&& !pair.contains('&')
        }),
{
    let pair = encode(key) + seq!['='] + encode(value);
    let eq = encode(key).len() as int;
    law_encoded_chars(key);
    law_encoded_chars(value);
    law_decode_encode(key);
    law_decode_encode(value);
    assert forall|k: int| 0 <= k < pair.len() implies pair[k] != '&' && (k < eq ==> pair[k]
        != '=') by {
        if k < eq {
            assert(pair[k] == encode(key)[k]);
            assert(is_component_char(encode(key)[k]));
        } else if k > eq {
            assert(pair[k] == encode(value)[k - eq - 1]);
            assert(is_component_char(encode(value)[k - eq - 1]));
        }
    }
    assert(pair[eq] == '=');
    lemma_find_unique(pair, '=', eq);
    assert(pair.take(eq) =~= encode(key));
    assert(pair.skip(eq + 1) =~= encode(value));
}

proof fn lemma_entries_push(parts: Seq<Seq<char>>, key: Seq<char>, value: Seq<char>)
    requires
        is_byte_text(key),
        is_byte_text(value),
    ensures
        query_entries(parts.push(encode(key) + seq!['='] + encode(value))) == add_value(
            query_entries(parts),
            key,
            value,
        ),
{
    let pair = encode(key) + seq!['='] + encode(value);
    lemma_pair(key, value);
    assert(parts.push(pair).drop_last() =~= parts);
    assert(parts.push(pair).last() == pair);
}

proof fn lemma_entries_values(
    parts: Seq<Seq<char>>,
    key: Seq<char>,
    values: Seq<Seq<char>>,
    count: int,
)
    requires
        0 < count <= values.len(),
        is_byte_text(key),
        forall|j: int| 0 <= j < values.len() ==> is_byte_text(#[trigger] values[j]),
        !has_key(query_entries(parts), key),
    ensures
        query_entries(parts + entry_pairs(key, values).take(count)) == query_entries(parts).push(
            (key, values.take(count)),
        ),
    decreases count,
{
    let known = query_entries(parts);
    let pairs = entry_pairs(key, values);
    let value = values[count - 1];
    assert(pairs[count - 1] == encode(key) + seq!['='] + encode(value));
    assert(parts + pairs.take(count) =~= (parts + pairs.take(count - 1)).push(pairs[count - 1]));
    lemma_entries_push(parts + pairs.take(count - 1), key, value);
    if count == 1 {
        assert(parts + pairs.take(0) =~= parts);
        assert(values.take(1) =~= seq![value]);
    } else {
        lemma_entries_values(parts, key, values, count - 1);
        let before = known.push((key, values.take(count - 1)));
        assert(before[known.len() as int].0 == key);
        assert forall|k: int| 0 <= k < known.len() implies (#[trigger] before[k]).0 != key by {
            assert(before[k] == known[k]);
        }
        lemma_first_key(before, key, known.len() as int);
        assert(values.take(count - 1).push(value) =~= values.take(count));
        assert(before.update(known.len() as int, (key, values.take(count))) =~= known.push(
            (key, values.take(count)),
        ));
    }
}

proof fn lemma_entries_all(m: Seq<(Seq<char>, Seq<Seq<char>>)>)
    requires
        is_plain_query(m),
    ensures
        query_entries(all_pairs(m)) == m,
        forall|i: int| 0 <= i < all_pairs(m).len() ==> !(#[trigger] all_pairs(m)[i]).contains('&'),
        m.len() > 0 ==> all_pairs(m).len() > 0,
    decreases m.len(),
{
    if m.len() > 0 {
        let front = m.drop_last();
        let key = m.last().0;
        let values = m.last().1;
        assert forall|i: int| 0 <= i < front.len() implies front[i] == m[i] by {}
        assert(is_plain_query(front));
        lemma_entries_all(front);
        assert(!has_key(front, key)) by {
            if has_key(front, key) {
                let i = choose|i: int| 0 <= i < front.len() && (#[trigger] front[i]).0 == key;
                assert(m[i].0 == m[m.len() - 1].0);
            }
        }
        assert forall|j: int| 0 <= j < values.len() implies is_byte_text(#[trigger] values[j]) by {
            assert(values[j] == m[m.len() - 1].1[j]);
        }
        let pairs = entry_pairs(key, values);
        assert(pairs.take(values.len() as int) =~= pairs);
        assert(values.take(values.len() as int) =~= values);
        lemma_entries_values(all_pairs(front), key, values, values.len() as int);
        assert(front.push((key, values)) =~= m);
        assert forall|i: int| 0 <= i < all_pairs(m).len() implies !(#[trigger] all_pairs(
            m,
        )[i]).contains('&') by {
            if i >= all_pairs(front).len() {
                let j = i - all_pairs(front).len();
                assert(all_pairs(m)[i] == pairs[j]);
                lemma_pair(key, values[j]);
            } else {
                assert(all_pairs(m)[i] == all_pairs(front)[i]);
            }
        }
    }
}

/// Reading the query string that was written gives the parameters back,
/// where no two entries share a key, every key has a value, and every
/// character has a code point below 256.
pub proof fn law_query_round_trip(m: Seq<(Seq<char>, Seq<Seq<char>>)>)
    requires
        is_plain_query(m),
    ensures
        parse_query(query_text(m)) == m,
{
    lemma_entries_all(m);
    if m.len() > 0 {
        lemma_split_join(all_pairs(m), '&');
    } else {
        let none = Seq::<char>::empty();
        assert(all_pairs(m) =~= Seq::<Seq<char>>::empty());
        assert(split(none, '&') =~= seq![none]);
        lemma_find_none(none, '=');
        assert(seq![none].drop_last() =~= Seq::<Seq<char>>::empty());
        assert(m =~= Seq::<(Seq<char>, Seq<Seq<char>>)>::empty());
    }
}

/// The parameters of a query string. A key can have several values.
#[derive(Debug, Clone)]
pub struct QueryParams {
    params: KeyedList<Vec<String>>,
}

impl View for QueryParams {
    type V = Seq<(Seq<char>, Seq<Seq<char>>)>;

    closed spec fn view(&self) -> Seq<(Seq<char>, Seq<Seq<char>>)> {
        map_entries(self.params@, |v: Vec<String>| texts(v@))
    }
}

impl Default for QueryParams {
    fn default() -> (r: Self)
        ensures
            r@ == Seq::<(Seq<char>, Seq<Seq<char>>)>::empty(),
            r.wf(),
    {
        QueryParams::new()
    }
}

impl QueryParams {
    /// No key occurs twice, and every key has at least one value. Every
    /// way of making or changing the parameters keeps this.
    pub open spec fn wf(&self) -> bool {
        has_values(self@)
    }

    /// No parameters.
    pub fn new() -> (r: Self)
        ensures
            r@ == Seq::<(Seq<char>, Seq<Seq<char>>)>::empty(),
            r.wf(),
    {
        let r = QueryParams { params: KeyedList::new() };
        assert(r@ =~= Seq::<(Seq<char>, Seq<Seq<char>>)>::empty());
        r
    }

    /// The parameters of a query string: its pieces between `&`, each
    /// `key=value` decoded and added in order.
    pub fn from_query_string(query: &str) -> (r: Self)
        ensures
            r@ == parse_query(query@),
            r.wf(),
    {
        proof {
            law_parsed_query(query@);
        }
        let chars = to_chars(query);
        let parts = split_on(&chars, '&');
        let ghost all = pieces(parts@);
        let mut r = QueryParams::new();
        let mut i: usize = 0;
        assert(all.take(0) =~= Seq::<Seq<char>>::empty());
        while i < parts.len()
            invariant
                i <= parts.len(),
                all == pieces(parts@),
                r@ == query_entries(all.take(i as int)),
            decreases parts.len() - i,
        {
            let part = &parts[i];
            proof {
                assert(all.take(i + 1).drop_last() == all.take(i as int));
                assert(all.take(i + 1).last() == part@);
            }
            match find_char(part, '=') {
                Some(eq) => {
                    let key = decode_chars(&slice(part, 0, eq));
                    let value = decode_chars(&slice(part, eq + 1, part.len()));
                    assert(part@.subrange(0, eq as int) == part@.take(eq as int));
                    assert(part@.subrange(eq + 1, part.len() as int) == part@.skip(eq + 1));
                    r.insert(to_string(&key), to_string(&value));
                },
                None => {},
            }
            i += 1;
        }
        assert(all.take(parts.len() as int) == all);
        r
    }

    /// The first value of `key`.
    pub fn get(&self, key: &str) -> (r: Option<&String>)
        ensures
            match lookup(self@, key@) {
                Some(values) => if values.len() > 0 {
                    r matches Some(v) && v@ == values[0]
                } else {
                    r is None
                },
                None => r is None,
            },
    {
        proof {
            lemma_map_entries(self.params@, |v: Vec<String>| texts(v@), key@);
        }
        match self.params.get(key) {
            Some(values) => {
                if values.len() > 0 {
                    Some(&values[0])
                } else {
                    None
                }
            },
            None => None,
        }
    }

    /// All values of `key`.
    pub fn get_all(&self, key: &str) -> (r: Option<&Vec<String>>)
        ensures
            match lookup(self@, key@) {
                Some(values) => r matches Some(v) && texts(v@) == values,
                None => r is None,
            },
    {
        proof {
            lemma_map_entries(self.params@, |v: Vec<String>| texts(v@), key@);
        }
        self.params.get(key)
    }

    /// The first value of `key`, read as a `T`. There is none where `key`
    /// has no value or `T` rejects the text.
    pub fn get_as<T: FromStr>(&self, key: &str) -> (r: Option<T>)
        ensures
            match lookup(self@, key@) {
                Some(values) => values.len() == 0 ==> r is None,
                None => r is None,
            },
    {
        proof {
            lemma_map_entries(self.params@, |v: Vec<String>| texts(v@), key@);
        }
        match self.get(key) {
            Some(text) => parse_text(text.as_str()),
            None => None,
        }
    }

    /// Adds `value` to the values of `key`.
    pub fn insert(&mut self, key: String, value: String)
        ensures
            final(self)@ == add_value(old(self)@, key@, value@),
            old(self).wf() ==> final(self).wf(),
    {
        let ghost f = |v: Vec<String>| texts(v@);
        proof {
            if self.wf() {
                law_add_value(self@, key@, value@);
            }
            lemma_map_entries(self.params@, f, key@);
            if has_key(self.params@, key@) {
                lemma_has_key(self.params@, key@);
            }
        }
        match self.params.position(key.as_str()) {
            Some(i) => {
                let mut values: Vec<String> = Vec::new();
                let held = self.params.value_at(i);
                let mut k: usize = 0;
                while k < held.len()
                    invariant
                        k <= held.len(),
                        texts(values@) == texts(held@).take(k as int),
                    decreases held.len() - k,
                {
                    let ghost before = texts(values@);
                    values.push(held[k].clone());
                    assert(texts(values@) =~= before.push(held@[k as int]@));
                    assert(texts(held@).take(k + 1) =~= texts(held@).take(k as int).push(
                        held@[k as int]@,
                    ));
                    k += 1;
                }
                assert(texts(held@).take(held.len() as int) == texts(held@));
                let ghost before = texts(values@);
                let ghost added = value@;
                values.push(value);
                assert(texts(values@) =~= before.push(added));
                let ghost stored = values;
                self.params.insert(key, values);
                assert(self@ =~= add_value(old(self)@, key@, added));
            },
            None => {
                let mut values: Vec<String> = Vec::new();
                let ghost added = value@;
                values.push(value);
                assert(texts(values@) =~= seq![added]);
                self.params.insert(key, values);
                assert(self@ =~= add_value(old(self)@, key@, added));
            },
        }
    }

    /// Whether `key` has a value.
    pub fn contains(&self, key: &str) -> (r: bool)
        ensures
            r == has_key(self@, key@),
    {
        proof {
            lemma_map_entries(self.params@, |v: Vec<String>| texts(v@), key@);
        }
        self.params.contains_key(key)
    }

    /// The query string of the parameters: the pairs `key=value`, written
    /// as URI components, with `&` between them.
    pub fn to_query_string(&self) -> (r: String)
        ensures
            r@ == query_text(self@),
    {
        let ghost m = self@;
        let mut out: Vec<char> = Vec::new();
        let mut first = true;
        let mut i: usize = 0;
        assert(m.take(0) =~= Seq::<(Seq<char>, Seq<Seq<char>>)>::empty());
        while i < self.params.len()
            invariant
                i <= self.params@.len(),
                m == self@,
                m.len() == self.params@.len(),
                first == (all_pairs(m.take(i as int)).len() == 0),
                out@ == join(all_pairs(m.take(i as int)), '&'),
            decreases self.params@.len() - i,
        {
            let key = encode_chars(&to_chars(self.params.key_at(i).as_str()));
            let values = self.params.value_at(i);
            let ghost done = all_pairs(m.take(i as int));
            let ghost vals = m[i as int].1;
            proof {
                assert(m.take(i + 1).drop_last() == m.take(i as int));
                assert(m.take(i + 1).last() == m[i as int]);
                assert(vals == texts(values@));
                assert(key@ == encode(m[i as int].0));
                assert(entry_pairs(m[i as int].0, vals.take(0)) =~= Seq::<Seq<char>>::empty());
                assert(done + Seq::<Seq<char>>::empty() =~= done);
            }
            let mut k: usize = 0;
            while k < values.len()
                invariant
                    k <= values.len(),
                    i < m.len(),
                    vals == texts(values@),
                    vals == m[i as int].1,
                    key@ == encode(m[i as int].0),
                    done == all_pairs(m.take(i as int)),
                    first == ((done + entry_pairs(m[i as int].0, vals.take(k as int))).len() == 0),
                    out@ == join(done + entry_pairs(m[i as int].0, vals.take(k as int)), '&'),
                decreases values.len() - k,
            {
                let ghost parts = done + entry_pairs(m[i as int].0, vals.take(k as int));
                let value = encode_chars(&to_chars(values[k].as_str()));
                let ghost pair = key@ + seq!['='] + value@;
                let ghost before = out@;
                proof {
                    assert(vals[k as int] == values@[k as int]@);
                    assert(entry_pairs(m[i as int].0, vals.take(k + 1)) =~= entry_pairs(
                        m[i as int].0,
                        vals.take(k as int),
                    ).push(pair));
                    assert(done + entry_pairs(m[i as int].0, vals.take(k + 1)) =~= parts.push(pair));
                    assert(parts.push(pair).drop_last() =~= parts);
                }
                if !first {
                    out.push('&');
                }
                extend(&mut out, &key);
                out.push('=');
                extend(&mut out, &value);
                proof {
                    if parts.len() == 0 {
                        assert(out@ =~= pair);
                    } else {
                        assert(out@ =~= before + seq!['&'] + pair);
                    }
                }
                first = false;
                k += 1;
            }
            proof {
                assert(vals.take(values.len() as int) == vals);
            }
            i += 1;
        }
        assert(m.take(m.len() as int) == m);
        to_string(&out)
    }

    /// Whether there is no parameter.
    pub fn is_empty(&self) -> (r: bool)
        ensures
            r == (self@.len() == 0),
    {
        self.params.is_empty()
    }

    /// Number of keys.
    pub fn len(&self) -> (n: usize)
        ensures
            n == self@.len(),
    {
        self.params.len()
    }
}

} // verus!
