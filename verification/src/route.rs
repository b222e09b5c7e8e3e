//! Route declarations: path validation, route configuration, the route
//! tree node, flat pattern matching and the registry of named routes.

use crate::guards::{execution_order, is_execution_order, Guards};
use crate::keyed::{has_key, lookup, put, KeyedList, StringMap};
use crate::params::RouteParams;
use crate::text::{
    contains_double_slash, find, find_char, has_double_slash, path_segments, pieces, replace_all,
    replaced, same, segments, slice, split, split_on, to_chars, to_string, trim_start,
    trimmed_start,
};
use crate::RouteMatch;
use std::sync::Arc;
use vstd::prelude::*;
use vstd::string::StringExecFns;

verus! {

/// What `char::is_alphanumeric` answers for `c`: whether Unicode classes
/// the character as alphabetic or numeric.
pub uninterp spec fn is_alphanumeric(c: char) -> bool;

/// `char::is_alphanumeric` is a function of the character alone.
pub assume_specification[ char::is_alphanumeric ](c: char) -> (r: bool)
    ensures
        r == is_alphanumeric(c),
;

/// What is wrong with a route path.
pub enum PathFault {
    /// Two slashes in a row.
    ConsecutiveSlashes,
    /// A parameter segment with no name: nothing stands between the colon
    /// and the end of the segment or the start of its constraint.
    EmptyParameter,
    /// A parameter name with a character that is neither alphanumeric nor `_`.
    InvalidParameter(Seq<char>),
    /// A parameter name used by an earlier segment.
    DuplicateParameter(Seq<char>),
}

/// The piece declares a parameter.
pub open spec fn is_param_piece(piece: Seq<char>) -> bool {
    piece.len() > 0 && piece[0] == ':'
}

/// Where the constraint suffix of a parameter starts: at the first `<`, as
/// in `:name<constraint>`. A `{` opens a suffix as well, so `:name{constraint}`
/// declares the same name. Without a suffix this is the length of `param`.
pub open spec fn constraint_start(param: Seq<char>) -> int {
    match (find(param, '<'), find(param, '{')) {
        (Some(angle), Some(brace)) => if angle < brace {
            angle
        } else {
            brace
        },
        (Some(angle), None) => angle,
        (None, Some(brace)) => brace,
        (None, None) => param.len() as int,
    }
}

/// The parameter name a piece declares: what follows the colon, up to the
/// start of the constraint suffix if there is one.
pub open spec fn param_name(piece: Seq<char>) -> Seq<char> {
    let param = piece.drop_first();
    param.take(constraint_start(param))
}

/// Every character of `name` is alphanumeric or an underscore.
pub open spec fn valid_param_name(name: Seq<char>) -> bool {
    forall|i: int| 0 <= i < name.len() ==> is_alphanumeric(#[trigger] name[i]) || name[i] == '_'
}

/// An earlier piece than `k` declares the parameter `name`.
pub open spec fn declared_before(pieces: Seq<Seq<char>>, k: int, name: Seq<char>) -> bool {
    exists|j: int|
        0 <= j < k && j < pieces.len() && is_param_piece(#[trigger] pieces[j]) && param_name(
            pieces[j],
        ) == name
}

/// The fault of piece `k`, given the pieces before it.
pub open spec fn piece_fault(pieces: Seq<Seq<char>>, k: int) -> Option<PathFault> {
    let piece = pieces[k];
    let name = param_name(piece);
    if !is_param_piece(piece) {
        None
    } else if name.len() == 0 {
        Some(PathFault::EmptyParameter)
    } else if !valid_param_name(name) {
        Some(PathFault::InvalidParameter(name))
    } else if declared_before(pieces, k, name) {
        Some(PathFault::DuplicateParameter(name))
    } else {
        None
    }
}

/// The fault of the first faulty piece at or after `from`.
pub open spec fn first_fault(pieces: Seq<Seq<char>>, from: int) -> Option<PathFault>
    decreases pieces.len() - from,
{
    if from < 0 || from >= pieces.len() {
        None
    } else {
        match piece_fault(pieces, from) {
            Some(f) => Some(f),
            None => first_fault(pieces, from + 1),
        }
    }
}

/// The first fault of a route path, if it has one. The empty path is valid.
pub open spec fn path_fault(path: Seq<char>) -> Option<PathFault> {
    if path.len() == 0 {
        None
    } else if has_double_slash(path) {
        Some(PathFault::ConsecutiveSlashes)
    } else {
        first_fault(split(path, '/'), 0)
    }
}

/// Piece `k` is faulty: it declares a parameter whose name is empty, holds
/// a character that is neither alphanumeric nor `_`, or is the name of a
/// parameter that an earlier piece declares.
pub open spec fn faulty_piece(pieces: Seq<Seq<char>>, k: int) -> bool {
    let name = param_name(pieces[k]);
    is_param_piece(pieces[k]) && (name.len() == 0 || !valid_param_name(name) || declared_before(
        pieces,
        k,
        name,
    ))
}

proof fn lemma_first_fault(pieces: Seq<Seq<char>>, from: int)
    requires
        0 <= from,
    ensures
        first_fault(pieces, from) is Some <==> exists|k: int|
            from <= k < pieces.len() && faulty_piece(pieces, k),
    decreases pieces.len() - from,
{
    if from < pieces.len() {
        lemma_first_fault(pieces, from + 1);
        assert(piece_fault(pieces, from) is Some <==> faulty_piece(pieces, from));
        if first_fault(pieces, from) is Some {
            if piece_fault(pieces, from) is Some {
                assert(faulty_piece(pieces, from));
            } else {
                let k = choose|k: int| from + 1 <= k < pieces.len() && faulty_piece(pieces, k);
                assert(from <= k < pieces.len() && faulty_piece(pieces, k));
            }
        }
        if exists|k: int| from <= k < pieces.len() && faulty_piece(pieces, k) {
            let k = choose|k: int| from <= k < pieces.len() && faulty_piece(pieces, k);
            if k != from {
                assert(from + 1 <= k < pieces.len() && faulty_piece(pieces, k));
            }
        }
    }
}

/// A route path is faulty exactly if it is not empty and either holds two
/// slashes in a row or has, among its pieces between slashes, a faulty one.
pub proof fn law_path_fault(path: Seq<char>)
    ensures
        path_fault(path) is Some <==> path.len() > 0 && (has_double_slash(path) || exists|k: int|
            0 <= k < split(path, '/').len() && faulty_piece(split(path, '/'), k)),
{
    lemma_first_fault(split(path, '/'), 0);
}

/// The message reported for a fault.
pub open spec fn fault_message(fault: PathFault) -> Seq<char> {
    match fault {
        PathFault::ConsecutiveSlashes => "Route path cannot contain consecutive slashes"@,
        PathFault::EmptyParameter => "Route parameter name cannot be empty"@,
        PathFault::InvalidParameter(name) => "Route parameter '"@ + name
            + "' must contain only alphanumeric characters and underscores"@,
        PathFault::DuplicateParameter(name) => "Duplicate route parameter: '"@ + name + "'"@,
    }
}

fn check_param_name(name: &Vec<char>) -> (r: bool)
    ensures
        r == valid_param_name(name@),
{
    let mut i: usize = 0;
    while i < name.len()
        invariant
            i <= name.len(),
            forall|k: int| 0 <= k < i ==> is_alphanumeric(#[trigger] name@[k]) || name@[k] == '_',
        decreases name.len() - i,
    {
        let c = name[i];
        if !(c.is_alphanumeric() || c == '_') {
            return false;
        }
        i += 1;
    }
    true
}

fn name_of_piece(piece: &Vec<char>) -> (r: Vec<char>)
    requires
        is_param_piece(piece@),
    ensures
        r@ == param_name(piece@),
{
    let param = slice(piece, 1, piece.len());
    assert(piece@.subrange(1, piece.len() as int) == piece@.drop_first());
    let end: usize = match (find_char(&param, '<'), find_char(&param, '{')) {
        (Some(angle), Some(brace)) => if angle < brace {
            angle
        } else {
            brace
        },
        (Some(angle), None) => angle,
        (None, Some(brace)) => brace,
        (None, None) => param.len(),
    };
    assert(param@.subrange(0, end as int) == param@.take(end as int));
    slice(&param, 0, end)
}

fn seen_before(seen: &Vec<Vec<char>>, name: &Vec<char>) -> (r: bool)
    ensures
        r == pieces(seen@).contains(name@),
{
    let mut i: usize = 0;
    while i < seen.len()
        invariant
            i <= seen.len(),
            forall|k: int| 0 <= k < i ==> pieces(seen@)[k] != name@,
        decreases seen.len() - i,
    {
        if same(&seen[i], name) {
            assert(pieces(seen@)[i as int] == name@);
            return true;
        }
        i += 1;
    }
    false
}

fn message_with_name(before: &str, name: &Vec<char>, after: &str) -> (r: String)
    ensures
        r@ == before@ + name@ + after@,
{
    let mut r = String::from_str(before);
    let n = to_string(name);
    r.append(n.as_str());
    r.append(after);
    r
}

/// Checks a route path: no two slashes in a row, and every parameter
/// segment, `:name` or `:name<constraint>`, has a name that is not empty, is
/// made of alphanumeric characters and underscores, and was not declared by
/// an earlier segment. The name ends where the constraint starts, so
/// `/users/:id<uuid>` is valid and `/:<uuid>` has an empty name. A
/// constraint in braces, `:name{constraint}`, is read in the same way. The
/// constraint itself is not looked at. The error message is that of the
/// first fault.
pub fn validate_route_path(path: &str) -> (r: Result<(), String>)
    ensures
        match path_fault(path@) {
            None => r is Ok,
            Some(fault) => r matches Err(message) && message@ == fault_message(fault),
        },
{
    let chars = to_chars(path);
    if chars.len() == 0 {
        return Ok(());
    }
    if contains_double_slash(&chars) {
        return Err(String::from_str("Route path cannot contain consecutive slashes"));
    }
    let parts = split_on(&chars, '/');
    let ghost all = pieces(parts@);
    let mut seen: Vec<Vec<char>> = Vec::new();
    let mut k: usize = 0;
    while k < parts.len()
        invariant
            k <= parts.len(),
            all == pieces(parts@),
            all == split(path@, '/'),
            path@.len() > 0,
            !has_double_slash(path@),
            first_fault(all, 0) == first_fault(all, k as int),
            forall|name: Seq<char>| pieces(seen@).contains(name) <==> declared_before(all, k as int, name),
        decreases parts.len() - k,
    {
        let piece = &parts[k];
        assert(all[k as int] == piece@);
        if piece.len() > 0 && piece[0] == ':' {
            let name = name_of_piece(piece);
            if name.len() == 0 {
                return Err(String::from_str("Route parameter name cannot be empty"));
            }
            if !check_param_name(&name) {
                return Err(
                    message_with_name(
                        "Route parameter '",
                        &name,
                        "' must contain only alphanumeric characters and underscores",
                    ),
                );
            }
            if seen_before(&seen, &name) {
                return Err(message_with_name("Duplicate route parameter: '", &name, "'"));
            }
            let ghost before = pieces(seen@);
            seen.push(name);
            proof {
                let added = param_name(piece@);
                assert(pieces(seen@) =~= before.push(added));
                assert forall|n: Seq<char>| pieces(seen@).contains(n) <==> declared_before(
                    all,
                    k + 1,
                    n,
                ) by {
                    if pieces(seen@).contains(n) {
                        if before.contains(n) {
                            assert(declared_before(all, k as int, n));
                        } else {
                            let w = choose|w: int| 0 <= w < pieces(seen@).len() && pieces(seen@)[w] == n;
                            assert(w == before.len());
                            assert(is_param_piece(all[k as int]));
                        }
                    }
                    if declared_before(all, k + 1, n) {
                        let j = choose|j: int|
                            0 <= j < k + 1 && j < all.len() && is_param_piece(#[trigger] all[j])
                                && param_name(all[j]) == n;
                        if j < k {
                            assert(declared_before(all, k as int, n));
                            assert(before.contains(n));
                            let w = choose|w: int| 0 <= w < before.len() && before[w] == n;
                            assert(pieces(seen@)[w] == n);
                        } else {
                            assert(pieces(seen@)[before.len() as int] == n);
                        }
                    }
                }
            }
        } else {
            proof {
                assert forall|n: Seq<char>| pieces(seen@).contains(n) <==> declared_before(
                    all,
                    k + 1,
                    n,
                ) by {
                    if declared_before(all, k + 1, n) {
                        let j = choose|j: int|
                            0 <= j < k + 1 && j < all.len() && is_param_piece(#[trigger] all[j])
                                && param_name(all[j]) == n;
                        assert(j != k);
                        assert(declared_before(all, k as int, n));
                    }
                    if pieces(seen@).contains(n) {
                        assert(declared_before(all, k as int, n));
                        let j = choose|j: int|
                            0 <= j < k && j < all.len() && is_param_piece(#[trigger] all[j])
                                && param_name(all[j]) == n;
                        assert(declared_before(all, k + 1, n));
                    }
                }
            }
        }
        k += 1;
    }
    Ok(())
}

/// The declarative part of a route.
#[derive(Debug)]
pub struct RouteConfig {
    /// Path pattern, such as `/users/:id`.
    pub path: String,
    /// Name under which the route can be navigated to.
    pub name: Option<String>,
    /// Child configurations.
    pub children: Vec<RouteConfig>,
    /// Free-form metadata.
    pub meta: StringMap,
}

/// Two configurations say the same: their paths, names and metadata have
/// the same characters, and their children say the same, one by one.
pub open spec fn same_config(a: RouteConfig, b: RouteConfig) -> bool
    decreases a,
{
    &&& a.path@ == b.path@
    &&& a.meta@ == b.meta@
    &&& match (a.name, b.name) {
        (Some(x), Some(y)) => x@ == y@,
        (None, None) => true,
        _ => false,
    }
    &&& a.children@.len() == b.children@.len()
    &&& forall|i: int|
        0 <= i < a.children@.len() ==> same_config(#[trigger] a.children@[i], b.children@[i])
}

impl Clone for RouteConfig {
    /// A configuration that says the same, children included.
    fn clone(&self) -> (r: Self)
        ensures
            same_config(*self, r),
        decreases self,
    {
        let mut children: Vec<RouteConfig> = Vec::new();
        let mut i: usize = 0;
        while i < self.children.len()
            invariant
                i <= self.children.len(),
                children@.len() == i,
                forall|k: int|
                    0 <= k < i ==> same_config(#[trigger] self.children@[k], children@[k]),
            decreases self.children.len() - i,
        {
            children.push(self.children[i].clone());
            i += 1;
        }
        let name = match &self.name {
            Some(name) => Some(name.clone()),
            None => None,
        };
        RouteConfig { path: self.path.clone(), name, children, meta: self.meta.clone() }
    }
}

impl RouteConfig {
    /// Whether the route has children, and so lays out an outlet for them.
    pub fn is_layout(&self) -> (r: bool)
        ensures
            r == (self.children@.len() > 0),
    {
        self.children.len() > 0
    }

    /// A configuration for a valid path.
    pub fn new(path: &str) -> (r: Self)
        requires
            path_fault(path@) is None,
        ensures
            r.path@ == path@,
            r.name is None,
            r.children@.len() == 0,
            r.meta@.len() == 0,
            r.meta.wf(),
    {
        RouteConfig {
            path: String::from_str(path),
            name: None,
            children: Vec::new(),
            meta: StringMap::new(),
        }
    }

    /// A configuration for `path`, or the message of the path's first fault.
    pub fn try_new(path: &str) -> (r: Result<Self, String>)
        ensures
            match path_fault(path@) {
                None => r matches Ok(c) && c.path@ == path@ && c.name is None && c.children@.len()
                    == 0 && c.meta@.len() == 0 && c.meta.wf(),
                Some(fault) => r matches Err(message) && message@ == fault_message(fault),
            },
    {
        match validate_route_path(path) {
            Ok(()) => Ok(RouteConfig::new(path)),
            Err(message) => Err(message),
        }
    }

    /// The configuration with its name set.
    pub fn name(self, name: &str) -> (r: Self)
        ensures
            r.name matches Some(n) && n@ == name@,
            r.path == self.path,
            r.children == self.children,
            r.meta == self.meta,
    {
        let mut c = self;
        c.name = Some(String::from_str(name));
        c
    }

    /// The configuration with its children replaced.
    pub fn children(self, children: Vec<RouteConfig>) -> (r: Self)
        ensures
            r.children == children,
            r.path == self.path,
            r.name == self.name,
            r.meta == self.meta,
    {
        let mut c = self;
        c.children = children;
        c
    }

    /// The configuration with one more child.
    pub fn child(self, child: RouteConfig) -> (r: Self)
        ensures
            r.children@ == self.children@.push(child),
            r.path == self.path,
            r.name == self.name,
            r.meta == self.meta,
    {
        let mut c = self;
        c.children.push(child);
        c
    }

    /// The configuration with `value` stored under `key` in its metadata.
    pub fn meta(self, key: &str, value: &str) -> (r: Self)
        ensures
            self.meta.wf() ==> r.meta.wf(),
            r.meta@ == put(self.meta@, key@, value@),
            r.path == self.path,
            r.name == self.name,
            r.children == self.children,
    {
        let mut c = self;
        c.meta.insert(String::from_str(key), String::from_str(value));
        c
    }
}

/// A node of the route tree. `B` is whatever the host uses to build the
/// view of a route; the router only stores it and hands it back. Guards
/// and middleware are known by their priorities; what they do belongs to
/// the host.
#[derive(Debug)]
pub struct Route<B> {
    /// The declarative part.
    pub config: RouteConfig,
    /// Builds the view; a route without one only lays out its children.
    pub builder: Option<B>,
    /// Children rendered in the default outlet.
    pub children: Vec<Arc<Route<B>>>,
    /// Children rendered in named outlets, by outlet name.
    pub named_children: KeyedList<Vec<Arc<Route<B>>>>,
    /// The priorities of the guards, in the order of their registration.
    pub guards: Vec<i32>,
    /// The priorities of the middleware, in the order of their registration.
    pub middleware: Vec<i32>,
    /// Whether the route has lifecycle hooks.
    pub lifecycle: bool,
}

/// `Arc::clone` returns another handle to the same value.
#[verifier::external_body]
pub(crate) fn share<T>(handle: &Arc<T>) -> (r: Arc<T>)
    ensures
        r == *handle,
{
    Arc::clone(handle)
}

impl<B> Route<B> {
    /// Each named outlet is declared once, and each metadata key is stored once.
    pub open spec fn wf(&self) -> bool {
        self.named_children.wf() && self.config.meta.wf()
    }

    /// The two routes differ at most in their declarative part.
    pub open spec fn same_tree(&self, other: &Self) -> bool {
        &&& self.builder == other.builder
        &&& self.children == other.children
        &&& self.named_children == other.named_children
        &&& self.same_hooks(other)
    }

    /// The two routes have the same guards, middleware and lifecycle hooks.
    pub open spec fn same_hooks(&self, other: &Self) -> bool {
        &&& self.guards == other.guards
        &&& self.middleware == other.middleware
        &&& self.lifecycle == other.lifecycle
    }

    /// A route for a valid path, with the builder of its view.
    pub fn new(path: &str, builder: B) -> (r: Self)
        requires
            path_fault(path@) is None,
        ensures
            r.wf(),
            r.config.path@ == path@,
            r.config.name is None,
            r.config.meta@.len() == 0,
            r.builder == Some(builder),
            r.children@.len() == 0,
            r.named_children@.len() == 0,
            r.guards@.len() == 0,
            r.middleware@.len() == 0,
            !r.lifecycle,
    {
        Route {
            config: RouteConfig::new(path),
            builder: Some(builder),
            children: Vec::new(),
            named_children: KeyedList::new(),
            guards: Vec::new(),
            middleware: Vec::new(),
            lifecycle: false,
        }
    }

    /// A route for `path` with the builder of its view, or the message of
    /// the path's first fault.
    pub fn try_new(path: &str, builder: B) -> (r: Result<Self, String>)
        ensures
            match path_fault(path@) {
                None => r matches Ok(route) && route.wf() && route.config.path@ == path@
                    && route.config.name is None && route.config.meta@.len() == 0 && route.builder
                    == Some(builder) && route.children@.len() == 0 && route.named_children@.len()
                    == 0 && route.guards@.len() == 0 && route.middleware@.len() == 0
                    && !route.lifecycle,
                Some(fault) => r matches Err(message) && message@ == fault_message(fault),
            },
    {
        match validate_route_path(path) {
            Ok(()) => Ok(Route::new(path, builder)),
            Err(message) => Err(message),
        }
    }

    /// The route with its default-outlet children replaced.
    pub fn children(self, children: Vec<Arc<Route<B>>>) -> (r: Self)
        ensures
            r == (Route { children, ..self }),
    {
        let mut route = self;
        route.children = children;
        route
    }

    /// The route with one more default-outlet child.
    pub fn child(self, child: Arc<Route<B>>) -> (r: Self)
        ensures
            r.children@ == self.children@.push(child),
            r.config == self.config,
            r.builder == self.builder,
            r.named_children == self.named_children,
            r.same_hooks(&self),
    {
        let mut route = self;
        route.children.push(child);
        route
    }

    /// The route with its name set.
    pub fn name(self, name: &str) -> (r: Self)
        ensures
            r.config.name matches Some(n) && n@ == name@,
            r.config.path == self.config.path,
            r.config.children == self.config.children,
            r.config.meta == self.config.meta,
            r.same_tree(&self),
    {
        let mut route = self;
        route.config.name = Some(String::from_str(name));
        route
    }

    /// The route with `value` stored under `key` in its metadata.
    pub fn meta(self, key: &str, value: &str) -> (r: Self)
        ensures
            self.wf() ==> r.wf(),
            r.config.meta@ == put(self.config.meta@, key@, value@),
            r.config.path == self.config.path,
            r.config.name == self.config.name,
            r.config.children == self.config.children,
            r.same_tree(&self),
    {
        let mut route = self;
        route.config.meta.insert(String::from_str(key), String::from_str(value));
        route
    }

    /// The route with `children` as the children of the outlet `name`.
    pub fn named_outlet(self, name: &str, children: Vec<Arc<Route<B>>>) -> (r: Self)
        ensures
            self.wf() ==> r.wf(),
            r.named_children@ == put(self.named_children@, name@, children),
            r.config == self.config,
            r.builder == self.builder,
            r.children == self.children,
            r.same_hooks(&self),
    {
        let mut route = self;
        route.named_children.insert(String::from_str(name), children);
        route
    }

    /// The route with one more guard, of priority `priority`.
    pub fn guard(self, priority: i32) -> (r: Self)
        ensures
            r.guards@ == self.guards@.push(priority),
            r.config == self.config,
            r.builder == self.builder,
            r.children == self.children,
            r.named_children == self.named_children,
            r.middleware == self.middleware,
            r.lifecycle == self.lifecycle,
    {
        let mut route = self;
        route.guards.push(priority);
        route
    }

    /// The route with more guards, of the priorities `priorities`.
    pub fn guards(self, priorities: Vec<i32>) -> (r: Self)
        ensures
            r.guards@ == self.guards@ + priorities@,
            r.config == self.config,
            r.builder == self.builder,
            r.children == self.children,
            r.named_children == self.named_children,
            r.middleware == self.middleware,
            r.lifecycle == self.lifecycle,
    {
        let mut route = self;
        let mut more = priorities;
        route.guards.append(&mut more);
        route
    }

    /// The route with one more middleware, of priority `priority`.
    pub fn middleware(self, priority: i32) -> (r: Self)
        ensures
            r.middleware@ == self.middleware@.push(priority),
            r.config == self.config,
            r.builder == self.builder,
            r.children == self.children,
            r.named_children == self.named_children,
            r.guards == self.guards,
            r.lifecycle == self.lifecycle,
    {
        let mut route = self;
        route.middleware.push(priority);
        route
    }

    /// The route with more middleware, of the priorities `priorities`.
    pub fn middlewares(self, priorities: Vec<i32>) -> (r: Self)
        ensures
            r.middleware@ == self.middleware@ + priorities@,
            r.config == self.config,
            r.builder == self.builder,
            r.children == self.children,
            r.named_children == self.named_children,
            r.guards == self.guards,
            r.lifecycle == self.lifecycle,
    {
        let mut route = self;
        let mut more = priorities;
        route.middleware.append(&mut more);
        route
    }

    /// The route with lifecycle hooks.
    pub fn lifecycle(self) -> (r: Self)
        ensures
            r == (Route { lifecycle: true, ..self }),
    {
        let mut route = self;
        route.lifecycle = true;
        route
    }

    /// The guards of the route as a set to run.
    pub fn guard_set(&self) -> (r: Guards)
        ensures
            r@ == self.guards@,
    {
        let mut priorities: Vec<i32> = Vec::new();
        let mut i: usize = 0;
        while i < self.guards.len()
            invariant
                i <= self.guards.len(),
                priorities@ == self.guards@.take(i as int),
            decreases self.guards.len() - i,
        {
            priorities.push(self.guards[i]);
            i += 1;
        }
        assert(self.guards@.take(self.guards.len() as int) == self.guards@);
        Guards::new(priorities)
    }

    /// The middleware of the route in the order in which they run.
    pub fn middleware_order(&self) -> (order: Vec<usize>)
        ensures
            is_execution_order(self.middleware@, order@),
    {
        execution_order(&self.middleware)
    }

    /// The children of the outlet `name`.
    pub fn get_named_children(&self, name: &str) -> (r: Option<&Vec<Arc<Route<B>>>>)
        ensures
            r.is_some() == has_key(self.named_children@, name@),
            r matches Some(v) ==> lookup(self.named_children@, name@) == Some(*v),
            r is None ==> lookup(self.named_children@, name@) is None,
    {
        self.named_children.get(name)
    }

    /// Whether the outlet `name` is declared.
    pub fn has_named_outlet(&self, name: &str) -> (r: bool)
        ensures
            r == has_key(self.named_children@, name@),
    {
        self.named_children.contains_key(name)
    }

    /// The names of the declared outlets, in the order of their declaration.
    pub fn named_outlet_names(&self) -> (r: Vec<String>)
        ensures
            r@.len() == self.named_children@.len(),
            forall|i: int| 0 <= i < r@.len() ==> (#[trigger] r@[i])@ == self.named_children@[i].0,
    {
        let mut r: Vec<String> = Vec::new();
        let mut i: usize = 0;
        while i < self.named_children.len()
            invariant
                i <= self.named_children@.len(),
                r@.len() == i,
                forall|k: int| 0 <= k < i ==> (#[trigger] r@[k])@ == self.named_children@[k].0,
            decreases self.named_children@.len() - i,
        {
            r.push(self.named_children.key_at(i).clone());
            i += 1;
        }
        r
    }

    /// The children of the default outlet.
    pub fn get_children(&self) -> (r: &Vec<Arc<Route<B>>>)
        ensures
            *r == self.children,
    {
        &self.children
    }

    /// Matches `path` against the path pattern of the route.
    pub fn matches(&self, path: &str) -> (r: Option<RouteMatch>)
        ensures
            match flat_match(self.config.path@, path@) {
                Some(params) => r matches Some(m) && m.path@ == path@ && m.params@ == params
                    && m.query@.len() == 0 && m.wf(),
                None => r is None,
            },
    {
        match_path(self.config.path.as_str(), path)
    }

    /// The first child whose path is `segment`, leading slashes aside.
    pub fn find_child(&self, segment: &str) -> (r: Option<&Arc<Route<B>>>)
        ensures
            match r {
                Some(child) => exists|i: int|
                    is_first_named(self.children@, segment@, i) && *child == self.children@[i],
                None => forall|i: int|
                    0 <= i < self.children@.len() ==> !has_path(
                        (#[trigger] self.children@[i]).config.path@,
                        segment@,
                    ),
            },
    {
        let wanted = to_chars(segment);
        let mut i: usize = 0;
        while i < self.children.len()
            invariant
                i <= self.children.len(),
                wanted@ == segment@,
                forall|k: int|
                    0 <= k < i ==> !has_path((#[trigger] self.children@[k]).config.path@, segment@),
            decreases self.children.len() - i,
        {
            let path = to_chars(self.children[i].config.path.as_str());
            if same(&path, &wanted) || same(&trimmed_start(&path, '/'), &wanted) {
                assert(is_first_named(self.children@, segment@, i as int));
                return Some(&self.children[i]);
            }
            i += 1;
        }
        None
    }
}

/// A route with this path answers to `segment`.
pub open spec fn has_path(path: Seq<char>, segment: Seq<char>) -> bool {
    path == segment || trim_start(path, '/') == segment
}

/// `i` is the first of `children` whose path answers to `segment`.
pub open spec fn is_first_named<B>(children: Seq<Arc<Route<B>>>, segment: Seq<char>, i: int) -> bool {
    &&& 0 <= i < children.len()
    &&& has_path(children[i].config.path@, segment)
    &&& forall|k: int| 0 <= k < i ==> !has_path((#[trigger] children[k]).config.path@, segment)
}

/// The pattern ends in a wildcard.
pub open spec fn ends_in_wildcard(pattern: Seq<Seq<char>>) -> bool {
    pattern.len() > 0 && pattern.last() == "*"@
}

/// The path has the number of segments that the pattern asks for: as many
/// as the pattern, or at least as many as stand before a final wildcard.
pub open spec fn lengths_agree(pattern: Seq<Seq<char>>, path: Seq<Seq<char>>) -> bool {
    if ends_in_wildcard(pattern) {
        path.len() >= pattern.len() - 1
    } else {
        pattern.len() == path.len()
    }
}

/// Matches `pattern[i..]` against `path[i..]` position by position, with
/// `params` bound so far: a wildcard accepts the rest, `:name` binds the
/// path segment at its position, and any other piece must equal it.
pub open spec fn flat_match_from(
    pattern: Seq<Seq<char>>,
    path: Seq<Seq<char>>,
    i: int,
    params: Seq<(Seq<char>, Seq<char>)>,
) -> Option<Seq<(Seq<char>, Seq<char>)>>
    decreases pattern.len() - i,
{
    if i < 0 || i >= pattern.len() {
        Some(params)
    } else if pattern[i] == "*"@ {
        Some(params)
    } else if is_param_piece(pattern[i]) {
        flat_match_from(
            pattern,
            path,
            i + 1,
            if i < path.len() {
                put(params, pattern[i].drop_first(), path[i])
            } else {
                params
            },
        )
    } else if i < path.len() && pattern[i] == path[i] {
        flat_match_from(pattern, path, i + 1, params)
    } else {
        None
    }
}

/// The parameters that the pattern text extracts from the path text, or
/// `None` where they do not match.
pub open spec fn flat_match(pattern: Seq<char>, path: Seq<char>) -> Option<
    Seq<(Seq<char>, Seq<char>)>,
> {
    if lengths_agree(segments(pattern), segments(path)) {
        flat_match_from(segments(pattern), segments(path), 0, Seq::empty())
    } else {
        None
    }
}

/// The piece is neither the wildcard nor a parameter.
pub open spec fn is_plain_piece(piece: Seq<char>) -> bool {
    piece != "*"@ && !is_param_piece(piece)
}

/// A pattern text whose pieces are all plain matches exactly the paths
/// that have the same segments as the pattern, and extracts nothing.
pub proof fn law_static_flat_match(pattern: Seq<char>, path: Seq<char>)
    requires
        forall|i: int|
            0 <= i < segments(pattern).len() ==> is_plain_piece(#[trigger] segments(pattern)[i]),
    ensures
        flat_match(pattern, path) is Some <==> segments(path) == segments(pattern),
        flat_match(pattern, path) is Some ==> flat_match(pattern, path) == Some(
            Seq::<(Seq<char>, Seq<char>)>::empty(),
        ),
{
    let wanted = segments(pattern);
    let given = segments(path);
    if wanted.len() > 0 {
        assert(is_plain_piece(wanted[wanted.len() - 1]));
    }
    assert(!ends_in_wildcard(wanted));
    if wanted.len() == given.len() {
        lemma_plain_flat_match(wanted, given, 0, Seq::empty());
        if flat_match(pattern, path) is Some {
            assert(given =~= wanted);
        }
    }
}

proof fn lemma_plain_flat_match(
    pattern: Seq<Seq<char>>,
    path: Seq<Seq<char>>,
    at: int,
    params: Seq<(Seq<char>, Seq<char>)>,
)
    requires
        0 <= at <= pattern.len(),
        pattern.len() == path.len(),
        forall|i: int| 0 <= i < pattern.len() ==> is_plain_piece(#[trigger] pattern[i]),
    ensures
        flat_match_from(pattern, path, at, params) is Some <==> (forall|i: int|
            at <= i < pattern.len() ==> #[trigger] pattern[i] == path[i]),
        flat_match_from(pattern, path, at, params) is Some ==> flat_match_from(
            pattern,
            path,
            at,
            params,
        ) == Some(params),
    decreases pattern.len() - at,
{
    if at < pattern.len() {
        assert(is_plain_piece(pattern[at]));
        lemma_plain_flat_match(pattern, path, at + 1, params);
        if pattern[at] != path[at] {
            assert(flat_match_from(pattern, path, at, params) is None);
        }
    }
}

/// Matches a path against a path pattern with static segments, `:name`
/// parameters and the wildcard `*`.
pub fn match_path(pattern: &str, path: &str) -> (r: Option<RouteMatch>)
    ensures
        match flat_match(pattern@, path@) {
            Some(params) => r matches Some(m) && m.path@ == path@ && m.params@ == params
                && m.query@.len() == 0 && m.wf(),
            None => r is None,
        },
{
    let pattern_chars = to_chars(pattern);
    let pattern_segments = path_segments(&pattern_chars);
    let path_chars = to_chars(path);
    let path_segs = path_segments(&path_chars);
    let star = to_chars("*");
    let ghost ps = pieces(pattern_segments@);
    let ghost xs = pieces(path_segs@);
    if pattern_segments.len() > 0 && same(&pattern_segments[pattern_segments.len() - 1], &star) {
        if path_segs.len() < pattern_segments.len() - 1 {
            return None;
        }
    } else if pattern_segments.len() != path_segs.len() {
        return None;
    }
    let mut route_match = RouteMatch::new(String::from_str(path));
    let mut i: usize = 0;
    assert(route_match.params@ =~= Seq::<(Seq<char>, Seq<char>)>::empty());
    while i < pattern_segments.len()
        invariant
            i <= pattern_segments.len(),
            star@ == "*"@,
            ps == pieces(pattern_segments@),
            xs == pieces(path_segs@),
            ps == segments(pattern@),
            xs == segments(path@),
            lengths_agree(ps, xs),
            route_match.wf(),
            route_match.path@ == path@,
            route_match.query@.len() == 0,
            flat_match(pattern@, path@) == flat_match_from(ps, xs, i as int, route_match.params@),
        decreases pattern_segments.len() - i,
    {
        let piece = &pattern_segments[i];
        assert(ps[i as int] == piece@);
        if same(piece, &star) {
            return Some(route_match);
        }
        if piece.len() > 0 && piece[0] == ':' {
            if i < path_segs.len() {
                let name = crate::text::to_string_range(piece, 1, piece.len());
                assert(name@ == piece@.drop_first());
                route_match.params.insert(name, to_string(&path_segs[i]));
            }
        } else if !(i < path_segs.len() && same(piece, &path_segs[i])) {
            return None;
        }
        i += 1;
    }
    Some(route_match)
}

/// `pattern` with each `:key` replaced by the value of `key`, one
/// parameter after the other in their order.
pub open spec fn substitute(pattern: Seq<char>, params: Seq<(Seq<char>, Seq<char>)>) -> Seq<char>
    decreases params.len(),
{
    if params.len() == 0 {
        pattern
    } else {
        replace_all(
            substitute(pattern, params.drop_last()),
            seq![':'] + params.last().0,
            params.last().1,
        )
    }
}

/// Replaces the `:key` placeholders of a path pattern by the values of `params`.
pub fn substitute_params(pattern: &str, params: &RouteParams) -> (r: String)
    ensures
        r@ == substitute(pattern@, params@),
{
    let mut result = to_chars(pattern);
    let entries = params.all();
    let mut i: usize = 0;
    assert(params@.take(0) =~= Seq::<(Seq<char>, Seq<char>)>::empty());
    while i < entries.len()
        invariant
            i <= entries@.len(),
            entries@ == params@,
            result@ == substitute(pattern@, params@.take(i as int)),
        decreases entries@.len() - i,
    {
        let mut placeholder: Vec<char> = Vec::new();
        placeholder.push(':');
        crate::text::extend(&mut placeholder, &to_chars(entries.key_at(i).as_str()));
        let value = to_chars(entries.value_at(i).as_str());
        proof {
            let next = params@.take(i + 1);
            assert(next.drop_last() == params@.take(i as int));
            assert(next.last() == params@[i as int]);
            assert(placeholder@ =~= seq![':'] + params@[i as int].0);
        }
        result = replaced(&result, &placeholder, &value);
        i += 1;
    }
    assert(params@.take(params@.len() as int) == params@);
    to_string(&result)
}

/// The registry of named routes: route names and their path patterns.
#[derive(Debug)]
pub struct NamedRouteRegistry {
    routes: StringMap,
}

impl View for NamedRouteRegistry {
    type V = Seq<(Seq<char>, Seq<char>)>;

    closed spec fn view(&self) -> Seq<(Seq<char>, Seq<char>)> {
        self.routes@
    }
}

impl Clone for NamedRouteRegistry {
    fn clone(&self) -> (r: Self)
        ensures
            r@ == self@,
    {
        NamedRouteRegistry { routes: self.routes.clone() }
    }
}

impl Default for NamedRouteRegistry {
    fn default() -> (r: Self)
        ensures
            r@.len() == 0,
            r.wf(),
    {
        NamedRouteRegistry::new()
    }
}

impl NamedRouteRegistry {
    /// Each name is registered once.
    pub open spec fn wf(&self) -> bool {
        crate::keyed::distinct_keys(self@)
    }

    /// An empty registry.
    pub fn new() -> (r: Self)
        ensures
            r@ == Seq::<(Seq<char>, Seq<char>)>::empty(),
            r.wf(),
    {
        NamedRouteRegistry { routes: StringMap::new() }
    }

    /// Registers `path` under `name`. A name registered before now stands
    /// for the new path.
    pub fn register(&mut self, name: &str, path: &str)
        ensures
            old(self).wf() ==> final(self).wf(),
            final(self)@ == put(old(self)@, name@, path@),
    {
        self.routes.insert(String::from_str(name), String::from_str(path));
    }

    /// The path pattern registered under `name`.
    pub fn get(&self, name: &str) -> (r: Option<&str>)
        ensures
            r.is_some() == has_key(self@, name@),
            r matches Some(path) ==> lookup(self@, name@) == Some(path@),
            r is None ==> lookup(self@, name@) is None,
    {
        match self.routes.get(name) {
            Some(path) => Some(path.as_str()),
            None => None,
        }
    }

    /// Whether `name` is registered.
    pub fn contains(&self, name: &str) -> (r: bool)
        ensures
            r == has_key(self@, name@),
    {
        self.routes.contains_key(name)
    }

    /// The URL of the route `name` for the parameters `params`: its path
    /// pattern with the placeholders replaced. An unknown name has none.
    pub fn url_for(&self, name: &str, params: &RouteParams) -> (r: Option<String>)
        ensures
            match lookup(self@, name@) {
                Some(pattern) => r matches Some(url) && url@ == substitute(pattern, params@),
                None => r is None,
            },
    {
        match self.get(name) {
            Some(pattern) => Some(substitute_params(pattern, params)),
            None => None,
        }
    }

    /// Forgets every registered route.
    pub fn clear(&mut self)
        ensures
            final(self)@ == Seq::<(Seq<char>, Seq<char>)>::empty(),
            final(self).wf(),
    {
        self.routes.clear();
    }

    /// Number of registered routes.
    pub fn len(&self) -> (n: usize)
        ensures
            n == self@.len(),
    {
        self.routes.len()
    }

    /// Whether no route is registered.
    pub fn is_empty(&self) -> (r: bool)
        ensures
            r == (self@.len() == 0),
    {
        self.routes.is_empty()
    }
}

/// A destination of a navigation: a path and the parameters to pass.
#[derive(Debug)]
pub struct RouteDescriptor {
    /// The path, or the name of a named route.
    pub path: String,
    /// The parameters to pass to the route.
    pub params: RouteParams,
}

/// What can be navigated to.
pub trait IntoRoute {
    /// The destination that the value stands for.
    fn into_route(self) -> RouteDescriptor;
}

impl IntoRoute for String {
    fn into_route(self) -> (r: RouteDescriptor)
        ensures
            r.path == self,
            r.params@.len() == 0,
    {
        RouteDescriptor { path: self, params: RouteParams::new() }
    }
}

impl IntoRoute for &str {
    fn into_route(self) -> (r: RouteDescriptor)
        ensures
            r.path@ == self@,
            r.params@.len() == 0,
    {
        RouteDescriptor { path: self.to_owned(), params: RouteParams::new() }
    }
}

/// A path to navigate to, with parameters and, if wanted, the builder of
/// its view.
#[derive(Debug)]
pub struct PageRoute<B> {
    path: String,
    params: RouteParams,
    builder: Option<B>,
}

impl<B> PageRoute<B> {
    /// The path of the page route.
    pub closed spec fn page_path(&self) -> Seq<char> {
        self.path@
    }

    /// The parameters of the page route.
    pub closed spec fn page_params(&self) -> Seq<(Seq<char>, Seq<char>)> {
        self.params@
    }

    /// The builder of the page route.
    pub closed spec fn page_builder(&self) -> Option<B> {
        self.builder
    }

    /// A page route for `path`, without a builder.
    pub fn new(path: &str) -> (r: Self)
        ensures
            r.page_path() == path@,
            r.page_params().len() == 0,
            r.page_builder() is None,
    {
        PageRoute { path: path.to_owned(), params: RouteParams::new(), builder: None }
    }

    /// A page route for `path` with the builder of its view.
    pub fn builder(path: &str, builder: B) -> (r: Self)
        ensures
            r.page_path() == path@,
            r.page_params().len() == 0,
            r.page_builder() == Some(builder),
    {
        PageRoute { path: path.to_owned(), params: RouteParams::new(), builder: Some(builder) }
    }

    /// The page route with its builder set.
    pub fn with_builder(self, builder: B) -> (r: Self)
        ensures
            r.page_path() == self.page_path(),
            r.page_params() == self.page_params(),
            r.page_builder() == Some(builder),
    {
        PageRoute { path: self.path, params: self.params, builder: Some(builder) }
    }

    /// The page route with the parameter `key` set to `value`.
    pub fn with_param(self, key: &str, value: &str) -> (r: Self)
        ensures
            r.page_path() == self.page_path(),
            r.page_builder() == self.page_builder(),
            r.page_params() == put(self.page_params(), key@, value@),
    {
        let mut route = self;
        route.params.insert(key.to_owned(), value.to_owned());
        route
    }

    /// The page route with its parameters replaced.
    pub fn with_params(self, params: StringMap) -> (r: Self)
        ensures
            r.page_path() == self.page_path(),
            r.page_builder() == self.page_builder(),
            r.page_params() == params@,
    {
        PageRoute { path: self.path, params: RouteParams::from_map(params), builder: self.builder }
    }

    /// The destination and the builder of the page route.
    pub fn into_parts(self) -> (r: (RouteDescriptor, Option<B>))
        ensures
            r.0.path@ == self.page_path(),
            r.0.params@ == self.page_params(),
            r.1 == self.page_builder(),
    {
        (RouteDescriptor { path: self.path, params: self.params }, self.builder)
    }
}

impl<B> IntoRoute for PageRoute<B> {
    fn into_route(self) -> (r: RouteDescriptor)
        ensures
            r.path@ == self.page_path(),
            r.params@ == self.page_params(),
    {
        RouteDescriptor { path: self.path, params: self.params }
    }
}

/// A named route to navigate to, with parameters.
#[derive(Debug)]
pub struct NamedRoute {
    name: String,
    params: RouteParams,
}

impl NamedRoute {
    /// The name of the route.
    pub closed spec fn route_name(&self) -> Seq<char> {
        self.name@
    }

    /// The parameters to pass.
    pub closed spec fn route_params(&self) -> Seq<(Seq<char>, Seq<char>)> {
        self.params@
    }

    /// The named route `name`, without parameters.
    pub fn new(name: &str) -> (r: Self)
        ensures
            r.route_name() == name@,
            r.route_params().len() == 0,
    {
        NamedRoute { name: name.to_owned(), params: RouteParams::new() }
    }

    /// The named route with the parameter `key` set to `value`.
    pub fn with_param(self, key: &str, value: &str) -> (r: Self)
        ensures
            r.route_name() == self.route_name(),
            r.route_params() == put(self.route_params(), key@, value@),
    {
        let mut route = self;
        route.params.insert(key.to_owned(), value.to_owned());
        route
    }

    /// The named route with its parameters replaced.
    pub fn with_params(self, params: StringMap) -> (r: Self)
        ensures
            r.route_name() == self.route_name(),
            r.route_params() == params@,
    {
        NamedRoute { name: self.name, params: RouteParams::from_map(params) }
    }
}

impl IntoRoute for NamedRoute {
    fn into_route(self) -> (r: RouteDescriptor)
        ensures
            r.path@ == self.route_name(),
            r.params@ == self.route_params(),
    {
        RouteDescriptor { path: self.name, params: self.params }
    }
}

} // verus!
