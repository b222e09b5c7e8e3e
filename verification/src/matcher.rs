//! Route patterns: compiling a pattern into segments, ranking patterns by
//! how specific they are, and matching a path against a pattern.

use crate::keyed::{lemma_put, put, StringMap};
use crate::route::is_param_piece;
use crate::text::{
    find, find_char, path_segments, pieces, same, segments, slice, split, split_on, to_chars,
    to_string,
};
use vstd::prelude::*;

verus! {

/// A condition on the value of a parameter.
#[derive(Debug, PartialEq)]
pub enum Constraint {
    /// A pattern kept as written; every value passes.
    Pattern(String),
    /// Decimal digits only.
    Numeric,
    /// Five groups of hexadecimal digits, of 8, 4, 4, 4 and 12 digits.
    Uuid,
}

/// A `Constraint` with its text as characters.
pub enum ConstraintView {
    Pattern(Seq<char>),
    Numeric,
    Uuid,
}

impl View for Constraint {
    type V = ConstraintView;

    open spec fn view(&self) -> ConstraintView {
        match self {
            Constraint::Pattern(text) => ConstraintView::Pattern(text@),
            Constraint::Numeric => ConstraintView::Numeric,
            Constraint::Uuid => ConstraintView::Uuid,
        }
    }
}

impl Clone for Constraint {
    fn clone(&self) -> (r: Self)
        ensures
            r@ == self@,
    {
        match self {
            Constraint::Pattern(text) => Constraint::Pattern(text.clone()),
            Constraint::Numeric => Constraint::Numeric,
            Constraint::Uuid => Constraint::Uuid,
        }
    }
}

/// One segment of a route pattern.
#[derive(Debug, PartialEq)]
pub enum Segment {
    /// Text that the path segment must equal.
    Static(String),
    /// A parameter that captures the path segment.
    Param { name: String, constraint: Option<Constraint> },
    /// A segment that may be missing from the path.
    Optional(Box<Segment>),
    /// Matches the rest of the path.
    Wildcard,
}

/// A `Segment` with its texts as characters.
pub enum SegmentView {
    Static(Seq<char>),
    Param { name: Seq<char>, constraint: Option<ConstraintView> },
    Optional(Box<SegmentView>),
    Wildcard,
}

/// The view of a segment.
pub open spec fn segment_view(segment: Segment) -> SegmentView
    decreases segment,
{
    match segment {
        Segment::Static(text) => SegmentView::Static(text@),
        Segment::Param { name, constraint } => SegmentView::Param {
            name: name@,
            constraint: match constraint {
                Some(c) => Some(c@),
                None => None,
            },
        },
        Segment::Optional(inner) => SegmentView::Optional(Box::new(segment_view(*inner))),
        Segment::Wildcard => SegmentView::Wildcard,
    }
}

impl View for Segment {
    type V = SegmentView;

    open spec fn view(&self) -> SegmentView {
        segment_view(*self)
    }
}

impl Clone for Segment {
    fn clone(&self) -> (r: Self)
        ensures
            r@ == self@,
        decreases self,
    {
        match self {
            Segment::Static(text) => Segment::Static(text.clone()),
            Segment::Param { name, constraint } => {
                let constraint = match constraint {
                    Some(c) => Some(c.clone()),
                    None => None,
                };
                Segment::Param { name: name.clone(), constraint }
            },
            Segment::Optional(inner) => {
                let copy: Segment = (**inner).clone();
                Segment::Optional(Box::new(copy))
            },
            Segment::Wildcard => Segment::Wildcard,
        }
    }
}

/// The views of a sequence of segments.
pub open spec fn segment_views(segments: Seq<Segment>) -> Seq<SegmentView> {
    segments.map_values(|s: Segment| s@)
}

/// `c` is one of `0` to `9`.
pub open spec fn is_digit(c: char) -> bool {
    '0' <= c <= '9'
}

/// `c` is a digit or one of `a` to `f`, in either case.
pub open spec fn is_hex_digit(c: char) -> bool {
    is_digit(c) || 'a' <= c <= 'f' || 'A' <= c <= 'F'
}

/// Every character of `s` is a decimal digit.
pub open spec fn all_digits(s: Seq<char>) -> bool {
    forall|i: int| 0 <= i < s.len() ==> is_digit(#[trigger] s[i])
}

/// Every character of `s` is a hexadecimal digit.
pub open spec fn all_hex_digits(s: Seq<char>) -> bool {
    forall|i: int| 0 <= i < s.len() ==> is_hex_digit(#[trigger] s[i])
}

/// `value` is written as a UUID: groups of 8, 4, 4, 4 and 12 hexadecimal
/// digits, separated by hyphens.
pub open spec fn is_uuid(value: Seq<char>) -> bool {
    let parts = split(value, '-');
    &&& parts.len() == 5
    &&& parts[0].len() == 8
    &&& parts[1].len() == 4
    &&& parts[2].len() == 4
    &&& parts[3].len() == 4
    &&& parts[4].len() == 12
    &&& forall|i: int| 0 <= i < 5 ==> all_hex_digits(#[trigger] parts[i])
}

/// The value passes the constraint.
pub open spec fn satisfies(constraint: ConstraintView, value: Seq<char>) -> bool {
    match constraint {
        ConstraintView::Numeric => all_digits(value),
        ConstraintView::Uuid => is_uuid(value),
        ConstraintView::Pattern(_) => true,
    }
}

/// The constraint that a text between `<` and `>` stands for.
pub open spec fn parse_constraint(text: Seq<char>) -> ConstraintView {
    if text == "\\d+"@ {
        ConstraintView::Numeric
    } else if text == "uuid"@ {
        ConstraintView::Uuid
    } else {
        ConstraintView::Pattern(text)
    }
}

/// The text of a constraint: what stands between the `<` at `open` and the
/// last character of the parameter.
pub open spec fn constraint_text(param: Seq<char>, open: int) -> Seq<char> {
    if open + 1 <= param.len() - 1 {
        param.subrange(open + 1, param.len() - 1)
    } else {
        Seq::empty()
    }
}

/// The segment that a piece of a pattern stands for: `*` is the wildcard,
/// `:name` a parameter, `:name<constraint>` a constrained parameter, and
/// anything else static text.
pub open spec fn parse_segment(piece: Seq<char>) -> SegmentView {
    if piece == "*"@ {
        SegmentView::Wildcard
    } else if is_param_piece(piece) {
        let param = piece.drop_first();
        match find(param, '<') {
            Some(open) => SegmentView::Param {
                name: param.take(open),
                constraint: Some(parse_constraint(constraint_text(param, open))),
            },
            None => SegmentView::Param { name: param, constraint: None },
        }
    } else {
        SegmentView::Static(piece)
    }
}

/// The segments of a pattern text.
pub open spec fn compile(pattern: Seq<char>) -> Seq<SegmentView> {
    segments(pattern).map_values(|piece: Seq<char>| parse_segment(piece))
}

/// Number of parameter segments.
pub open spec fn count_params(segments: Seq<SegmentView>) -> nat
    decreases segments.len(),
{
    if segments.len() == 0 {
        0
    } else {
        count_params(segments.drop_last()) + if segments.last() is Param {
            1nat
        } else {
            0nat
        }
    }
}

/// Number of optional segments.
pub open spec fn count_optionals(segments: Seq<SegmentView>) -> nat
    decreases segments.len(),
{
    if segments.len() == 0 {
        0
    } else {
        count_optionals(segments.drop_last()) + if segments.last() is Optional {
            1nat
        } else {
            0nat
        }
    }
}

/// Some segment is the wildcard.
pub open spec fn has_wildcard(segments: Seq<SegmentView>) -> bool {
    exists|i: int| 0 <= i < segments.len() && #[trigger] segments[i] is Wildcard
}

/// The priority of a pattern: 100, less 10 for each parameter and 5 for
/// each optional segment, which may be negative; a pattern with a wildcard
/// has priority 0.
pub open spec fn priority_of(segments: Seq<SegmentView>) -> int {
    if has_wildcard(segments) {
        0
    } else {
        100 - 10 * count_params(segments) - 5 * count_optionals(segments)
    }
}

/// The parameter that a segment binds when it takes `value`: its name,
/// provided the value passes its constraint.
pub open spec fn binding(segment: SegmentView, value: Seq<char>) -> Option<Seq<char>> {
    match segment {
        SegmentView::Param { name, constraint } => match constraint {
            Some(c) => if satisfies(c, value) {
                Some(name)
            } else {
                None
            },
            None => Some(name),
        },
        _ => None,
    }
}

/// Matches `pattern[pi..]` against `path[si..]`, with `params` bound so far.
///
/// Static text must equal the path segment. A parameter needs a path
/// segment that passes its constraint and binds it. An optional parameter
/// binds the path segment if there is one that passes, and otherwise
/// consumes nothing. A wildcard accepts whatever is left. At the end of
/// the pattern the path must be used up.
pub open spec fn match_from(
    pattern: Seq<SegmentView>,
    path: Seq<Seq<char>>,
    pi: int,
    si: int,
    params: Seq<(Seq<char>, Seq<char>)>,
) -> Option<Seq<(Seq<char>, Seq<char>)>>
    decreases pattern.len() - pi,
{
    if pi < 0 || pi >= pattern.len() {
        if si == path.len() {
            Some(params)
        } else {
            None
        }
    } else {
        match pattern[pi] {
            SegmentView::Static(expected) => if 0 <= si < path.len() && path[si] == expected {
                match_from(pattern, path, pi + 1, si + 1, params)
            } else {
                None
            },
            SegmentView::Param { name, constraint } => if 0 <= si < path.len() {
                match binding(pattern[pi], path[si]) {
                    Some(name) => match_from(
                        pattern,
                        path,
                        pi + 1,
                        si + 1,
                        put(params, name, path[si]),
                    ),
                    None => None,
                }
            } else {
                None
            },
            SegmentView::Optional(inner) => if 0 <= si < path.len() && binding(*inner, path[si])
                is Some {
                match_from(
                    pattern,
                    path,
                    pi + 1,
                    si + 1,
                    put(params, binding(*inner, path[si])->0, path[si]),
                )
            } else {
                match_from(pattern, path, pi + 1, si, params)
            },
            SegmentView::Wildcard => Some(params),
        }
    }
}

/// The parameters that `pattern` extracts from the segments `path`, or
/// `None` where the pattern does not match.
pub open spec fn match_segments(pattern: Seq<SegmentView>, path: Seq<Seq<char>>) -> Option<
    Seq<(Seq<char>, Seq<char>)>,
> {
    match_from(pattern, path, 0, 0, Seq::empty())
}

/// A pattern of static segments matches exactly the paths that have the
/// same segments.
pub proof fn law_static_match(pattern: Seq<SegmentView>, path: Seq<Seq<char>>)
    requires
        forall|i: int| 0 <= i < pattern.len() ==> #[trigger] pattern[i] is Static,
    ensures
        match_segments(pattern, path) is Some <==> (pattern.len() == path.len() && forall|i: int|
            0 <= i < pattern.len() ==> #[trigger] pattern[i] == SegmentView::Static(path[i])),
{
    lemma_static_match_from(pattern, path, 0, Seq::empty());
}

proof fn lemma_static_match_from(
    pattern: Seq<SegmentView>,
    path: Seq<Seq<char>>,
    at: int,
    params: Seq<(Seq<char>, Seq<char>)>,
)
    requires
        0 <= at <= pattern.len(),
        forall|i: int| 0 <= i < pattern.len() ==> #[trigger] pattern[i] is Static,
    ensures
        match_from(pattern, path, at, at, params) is Some <==> (pattern.len() == path.len()
            && forall|i: int|
            at <= i < pattern.len() ==> #[trigger] pattern[i] == SegmentView::Static(path[i])),
    decreases pattern.len() - at,
{
    if at < pattern.len() {
        assert(pattern[at] is Static);
        lemma_static_match_from(pattern, path, at + 1, params);
        if at < path.len() && pattern[at] == SegmentView::Static(path[at]) {
        } else {
            assert(match_from(pattern, path, at, at, params) is None);
        }
    }
}

/// The piece stands for static text: it is neither the wildcard nor a parameter.
pub open spec fn is_static_piece(piece: Seq<char>) -> bool {
    piece != "*"@ && !is_param_piece(piece)
}

/// A pattern text whose pieces are all static matches exactly the paths
/// that have the same segments as the pattern.
pub proof fn law_static_pattern(pattern: Seq<char>, path: Seq<char>)
    requires
        forall|i: int|
            0 <= i < segments(pattern).len() ==> is_static_piece(#[trigger] segments(pattern)[i]),
    ensures
        match_segments(compile(pattern), segments(path)) is Some <==> segments(path) == segments(
            pattern,
        ),
{
    let compiled = compile(pattern);
    let wanted = segments(pattern);
    let given = segments(path);
    assert forall|i: int| 0 <= i < compiled.len() implies #[trigger] compiled[i]
        == SegmentView::Static(wanted[i]) by {
        assert(is_static_piece(wanted[i]));
    }
    law_static_match(compiled, given);
    if given == wanted {
        assert forall|i: int| 0 <= i < compiled.len() implies #[trigger] compiled[i]
            == SegmentView::Static(given[i]) by {}
    }
    if match_segments(compiled, given) is Some {
        assert forall|i: int| 0 <= i < wanted.len() implies wanted[i] == given[i] by {
            assert(compiled[i] == SegmentView::Static(given[i]));
        }
        assert(given =~= wanted);
    }
}

/// A pattern with `k` parameters, and neither a wildcard nor an optional
/// segment, has priority `100 - 10k`.
pub proof fn law_priority(pattern: Seq<SegmentView>)
    requires
        !has_wildcard(pattern),
        count_optionals(pattern) == 0,
    ensures
        priority_of(pattern) == 100 - 10 * count_params(pattern),
{
}

/// A pattern text with `k` parameters and no wildcard compiles to a
/// pattern of priority `100 - 10k`: a compiled pattern has no optional
/// segment.
pub proof fn law_compiled_priority(pattern: Seq<char>)
    requires
        !has_wildcard(compile(pattern)),
    ensures
        count_optionals(compile(pattern)) == 0,
        priority_of(compile(pattern)) == 100 - 10 * count_params(compile(pattern)),
{
    lemma_no_optionals(compile(pattern));
}

proof fn lemma_counts(segments: Seq<SegmentView>)
    ensures
        count_params(segments) + count_optionals(segments) <= segments.len(),
    decreases segments.len(),
{
    if segments.len() > 0 {
        lemma_counts(segments.drop_last());
    }
}

proof fn lemma_no_optionals(segments: Seq<SegmentView>)
    requires
        forall|i: int| 0 <= i < segments.len() ==> !(#[trigger] segments[i] is Optional),
    ensures
        count_optionals(segments) == 0,
    decreases segments.len(),
{
    if segments.len() > 0 {
        assert(!(segments[segments.len() - 1] is Optional));
        lemma_no_optionals(segments.drop_last());
    }
}

fn digit(c: char) -> (r: bool)
    ensures
        r == is_digit(c),
{
    '0' <= c && c <= '9'
}

fn hex_digit(c: char) -> (r: bool)
    ensures
        r == is_hex_digit(c),
{
    digit(c) || ('a' <= c && c <= 'f') || ('A' <= c && c <= 'F')
}

fn only_digits(s: &Vec<char>) -> (r: bool)
    ensures
        r == all_digits(s@),
{
    let mut i: usize = 0;
    while i < s.len()
        invariant
            i <= s.len(),
            forall|k: int| 0 <= k < i ==> is_digit(#[trigger] s@[k]),
        decreases s.len() - i,
    {
        if !digit(s[i]) {
            return false;
        }
        i += 1;
    }
    true
}

fn only_hex_digits(s: &Vec<char>) -> (r: bool)
    ensures
        r == all_hex_digits(s@),
{
    let mut i: usize = 0;
    while i < s.len()
        invariant
            i <= s.len(),
            forall|k: int| 0 <= k < i ==> is_hex_digit(#[trigger] s@[k]),
        decreases s.len() - i,
    {
        if !hex_digit(s[i]) {
            return false;
        }
        i += 1;
    }
    true
}

fn written_as_uuid(value: &Vec<char>) -> (r: bool)
    ensures
        r == is_uuid(value@),
{
    let parts = split_on(value, '-');
    if parts.len() != 5 {
        return false;
    }
    assert(forall|i: int| 0 <= i < 5 ==> (#[trigger] pieces(parts@)[i]) == parts@[i]@);
    if !(parts[0].len() == 8 && parts[1].len() == 4 && parts[2].len() == 4 && parts[3].len() == 4
        && parts[4].len() == 12) {
        return false;
    }
    let mut i: usize = 0;
    while i < 5
        invariant
            i <= 5,
            parts@.len() == 5,
            pieces(parts@) == split(value@, '-'),
            pieces(parts@)[0].len() == 8,
            pieces(parts@)[1].len() == 4,
            pieces(parts@)[2].len() == 4,
            pieces(parts@)[3].len() == 4,
            pieces(parts@)[4].len() == 12,
            forall|k: int| 0 <= k < i ==> all_hex_digits(#[trigger] pieces(parts@)[k]),
        decreases 5 - i,
    {
        if !only_hex_digits(&parts[i]) {
            assert(!all_hex_digits(pieces(parts@)[i as int]));
            return false;
        }
        i += 1;
    }
    true
}

impl Constraint {
    /// The constraint that `text` stands for.
    pub fn parse(text: &str) -> (r: Self)
        ensures
            r@ == parse_constraint(text@),
    {
        let chars = to_chars(text);
        if same(&chars, &to_chars("\\d+")) {
            Constraint::Numeric
        } else if same(&chars, &to_chars("uuid")) {
            Constraint::Uuid
        } else {
            Constraint::Pattern(to_string(&chars))
        }
    }

    /// Whether `value` passes the constraint.
    pub fn validate(&self, value: &str) -> (r: bool)
        ensures
            r == satisfies(self@, value@),
    {
        let chars = to_chars(value);
        self.validate_chars(&chars)
    }

    fn validate_chars(&self, value: &Vec<char>) -> (r: bool)
        ensures
            r == satisfies(self@, value@),
    {
        match self {
            Constraint::Numeric => only_digits(value),
            Constraint::Uuid => written_as_uuid(value),
            Constraint::Pattern(_) => true,
        }
    }
}

impl Segment {
    /// The segment that `piece` stands for.
    pub fn parse(piece: &str) -> (r: Self)
        ensures
            r@ == parse_segment(piece@),
    {
        let chars = to_chars(piece);
        Segment::parse_chars(&chars)
    }

    fn parse_chars(chars: &Vec<char>) -> (r: Self)
        ensures
            r@ == parse_segment(chars@),
    {
        if same(chars, &to_chars("*")) {
            return Segment::Wildcard;
        }
        if chars.len() > 0 && chars[0] == ':' {
            let param = slice(chars, 1, chars.len());
            assert(param@ == chars@.drop_first());
            match find_char(&param, '<') {
                Some(open) => {
                    let name = crate::text::to_string_range(&param, 0, open);
                    let text = if open + 1 <= param.len() - 1 {
                        crate::text::to_string_range(&param, open + 1, param.len() - 1)
                    } else {
                        String::new()
                    };
                    let constraint = Constraint::parse(text.as_str());
                    Segment::Param { name, constraint: Some(constraint) }
                },
                None => Segment::Param { name: to_string(&param), constraint: None },
            }
        } else {
            Segment::Static(to_string(chars))
        }
    }

    /// What the segment binds when it takes `value`.
    fn bound_name(&self, value: &Vec<char>) -> (r: Option<String>)
        ensures
            match binding(self@, value@) {
                Some(name) => r matches Some(n) && n@ == name,
                None => r is None,
            },
    {
        match self {
            Segment::Param { name, constraint } => {
                let passes = match constraint {
                    Some(c) => c.validate_chars(value),
                    None => true,
                };
                if passes {
                    Some(name.clone())
                } else {
                    None
                }
            },
            _ => None,
        }
    }
}

/// A route pattern: its segments and its priority among other patterns.
#[derive(Debug, PartialEq)]
pub struct RoutePattern {
    /// The segments, in order.
    pub segments: Vec<Segment>,
    /// The higher, the more specific the pattern.
    pub priority: i128,
}

impl View for RoutePattern {
    type V = Seq<SegmentView>;

    open spec fn view(&self) -> Seq<SegmentView> {
        segment_views(self.segments@)
    }
}

impl RoutePattern {
    /// The priority is the one of the segments.
    pub open spec fn wf(&self) -> bool {
        self.priority == priority_of(self@)
    }

    /// Compiles a pattern text: its non-empty pieces between slashes, each
    /// read as a segment, with the priority of the whole.
    pub fn from_path(path: &str) -> (r: Self)
        ensures
            r@ == compile(path@),
            r.wf(),
    {
        let chars = to_chars(path);
        let parts = path_segments(&chars);
        let mut segments: Vec<Segment> = Vec::new();
        let mut i: usize = 0;
        while i < parts.len()
            invariant
                i <= parts.len(),
                pieces(parts@) == crate::text::segments(path@),
                segments@.len() == i,
                forall|k: int| 0 <= k < i ==> (#[trigger] segments@[k])@ == parse_segment(parts@[k]@),
            decreases parts.len() - i,
        {
            segments.push(Segment::parse_chars(&parts[i]));
            i += 1;
        }
        assert(segment_views(segments@) =~= compile(path@));
        let priority = RoutePattern::calculate_priority(&segments);
        RoutePattern { segments, priority }
    }

    /// The priority of a sequence of segments.
    pub fn calculate_priority(segments: &Vec<Segment>) -> (r: i128)
        ensures
            r == priority_of(segment_views(segments@)),
    {
        let ghost all = segment_views(segments@);
        let mut priority: i128 = 100;
        let mut i: usize = 0;
        assert(all.take(0) =~= Seq::<SegmentView>::empty());
        while i < segments.len()
            invariant
                i <= segments.len(),
                all == segment_views(segments@),
                !has_wildcard(all.take(i as int)),
                priority == priority_of(all.take(i as int)),
            decreases segments.len() - i,
        {
            let ghost next = all.take(i + 1);
            assert(next.drop_last() == all.take(i as int));
            assert(next.last() == segments@[i as int]@);
            proof {
                lemma_counts(all.take(i as int));
            }
            match &segments[i] {
                Segment::Static(_) => {},
                Segment::Param { .. } => {
                    priority = priority - 10;
                },
                Segment::Optional(_) => {
                    priority = priority - 5;
                },
                Segment::Wildcard => {
                    assert(all[i as int] is Wildcard);
                    return 0;
                },
            }
            proof {
                if has_wildcard(next) {
                    let w = choose|w: int| 0 <= w < next.len() && #[trigger] next[w] is Wildcard;
                    if w < i {
                        assert(all.take(i as int)[w] is Wildcard);
                    }
                }
            }
            i += 1;
        }
        assert(all.take(segments.len() as int) == all);
        priority
    }

    /// Matches `path` against the pattern and returns the parameters it
    /// extracts.
    pub fn matches(&self, path: &str) -> (r: Option<StringMap>)
        ensures
            match match_segments(self@, segments(path@)) {
                Some(params) => r matches Some(found) && found@ == params && found.wf(),
                None => r is None,
            },
    {
        let chars = to_chars(path);
        let parts = path_segments(&chars);
        self.match_segments(&parts)
    }

    /// Matches the segments of a path against the pattern.
    pub fn match_segments(&self, path_segments: &Vec<Vec<char>>) -> (r: Option<StringMap>)
        ensures
            match self::match_segments(self@, pieces(path_segments@)) {
                Some(params) => r matches Some(found) && found@ == params && found.wf(),
                None => r is None,
            },
    {
        let ghost pattern = self@;
        let ghost path = pieces(path_segments@);
        let mut params = StringMap::new();
        let mut path_idx: usize = 0;
        let mut pattern_idx: usize = 0;
        while pattern_idx < self.segments.len()
            invariant
                pattern_idx <= self.segments.len(),
                path_idx <= path_segments.len(),
                pattern == self@,
                path == pieces(path_segments@),
                params.wf(),
                self::match_segments(pattern, path) == match_from(
                    pattern,
                    path,
                    pattern_idx as int,
                    path_idx as int,
                    params@,
                ),
            decreases self.segments.len() - pattern_idx,
        {
            let segment = &self.segments[pattern_idx];
            assert(pattern[pattern_idx as int] == segment@);
            match segment {
                Segment::Static(expected) => {
                    if path_idx >= path_segments.len() {
                        return None;
                    }
                    let text = to_chars(expected.as_str());
                    if !same(&path_segments[path_idx], &text) {
                        return None;
                    }
                    path_idx += 1;
                },
                Segment::Param { .. } => {
                    if path_idx >= path_segments.len() {
                        return None;
                    }
                    let value = &path_segments[path_idx];
                    match segment.bound_name(value) {
                        Some(name) => {
                            proof {
                                lemma_put(params@, name@, value@);
                            }
                            params.insert(name, to_string(value));
                            path_idx += 1;
                        },
                        None => {
                            return None;
                        },
                    }
                },
                Segment::Optional(inner) => {
                    if path_idx < path_segments.len() {
                        let value = &path_segments[path_idx];
                        match inner.bound_name(value) {
                            Some(name) => {
                                params.insert(name, to_string(value));
                                path_idx += 1;
                            },
                            None => {},
                        }
                    }
                },
                Segment::Wildcard => {
                    return Some(params);
                },
            }
            pattern_idx += 1;
        }
        if path_idx == path_segments.len() {
            Some(params)
        } else {
            None
        }
    }
}

/// The pattern at `i` matches the path.
pub open spec fn matches_at(patterns: Seq<RoutePattern>, path: Seq<Seq<char>>, i: int) -> bool {
    0 <= i < patterns.len() && self::match_segments(patterns[i]@, path) is Some
}

/// The pattern at `i` is the one to prefer among those that match the
/// path: none that matches has a higher priority, and none of the same
/// priority was registered before it.
pub open spec fn is_best_match(patterns: Seq<RoutePattern>, path: Seq<Seq<char>>, i: int) -> bool {
    &&& matches_at(patterns, path, i)
    &&& forall|j: int| #[trigger]
        matches_at(patterns, path, j) ==> patterns[j].priority < patterns[i].priority || (
        patterns[j].priority == patterns[i].priority && i <= j)
}

/// Chooses among `patterns`, given in the order of their registration, the
/// one that matches `path` with the highest priority; of several with
/// that priority, the one registered first. Returns its position and the
/// parameters it extracts.
pub fn best_match(patterns: &Vec<RoutePattern>, path: &str) -> (r: Option<(usize, StringMap)>)
    ensures
        match r {
            Some((i, params)) => is_best_match(patterns@, segments(path@), i as int) && Some(
                params@,
            ) == self::match_segments(patterns@[i as int]@, segments(path@)) && params.wf(),
            None => forall|j: int| !matches_at(patterns@, segments(path@), j),
        },
{
    let chars = to_chars(path);
    let parts = path_segments(&chars);
    let ghost given = segments(path@);
    let mut best: Option<(usize, StringMap)> = None;
    let mut i: usize = 0;
    while i < patterns.len()
        invariant
            i <= patterns.len(),
            given == segments(path@),
            given == pieces(parts@),
            match best {
                Some((b, params)) => b < i && matches_at(patterns@, given, b as int) && Some(
                    params@,
                ) == self::match_segments(patterns@[b as int]@, given) && params.wf()
                    && forall|j: int|
                    0 <= j < i && #[trigger] matches_at(patterns@, given, j) ==> patterns@[j].priority
                        < patterns@[b as int].priority || (patterns@[j].priority
                        == patterns@[b as int].priority && b <= j),
                None => forall|j: int| 0 <= j < i ==> !matches_at(patterns@, given, j),
            },
        decreases patterns.len() - i,
    {
        match patterns[i].match_segments(&parts) {
            Some(params) => {
                let better = match &best {
                    Some((b, _)) => patterns[*b].priority < patterns[i].priority,
                    None => true,
                };
                if better {
                    best = Some((i, params));
                }
            },
            None => {},
        }
        i += 1;
    }
    best
}

/// The forms in which the path of a route can be given.
#[derive(Debug, PartialEq)]
pub enum RoutePath {
    /// A fixed path.
    Static(&'static str),
    /// A path with parameters, as text.
    Dynamic(String),
    /// A compiled pattern.
    Pattern(RoutePattern),
}

} // verus!
