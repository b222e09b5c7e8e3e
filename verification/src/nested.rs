//! Nested route resolution: which child of a parent route fills an outlet,
//! and which route of the tree owns the outlet for a path.

use crate::keyed::{lookup, put};
use crate::params::RouteParams;
use crate::route::{is_param_piece, share, Route};
use crate::text::{
    extend, path_segments, same, segments, slice, starts_with, to_chars, to_string, trim,
    trim_end, trim_start, trimmed, trimmed_end, trimmed_start,
};
use std::sync::Arc;
use vstd::prelude::*;

verus! {

/// The outlet name as characters.
pub open spec fn outlet_view(outlet: Option<&str>) -> Option<Seq<char>> {
    match outlet {
        Some(name) => Some(name@),
        None => None,
    }
}

/// The routes that may fill an outlet of `parent`: those declared for the
/// named outlet, or the default children. A named outlet that was never
/// declared has none.
pub open spec fn outlet_children<B>(parent: Route<B>, outlet: Option<Seq<char>>) -> Option<
    Seq<Arc<Route<B>>>,
> {
    match outlet {
        Some(name) => match lookup(parent.named_children@, name) {
            Some(children) => Some(children@),
            None => None,
        },
        None => Some(parent.children@),
    }
}

/// What is left of `current` below `parent_path`, once slashes are trimmed;
/// `None` where `current` does not begin with the parent's path. The
/// beginning is taken character by character, not segment by segment: of
/// `/dashboard/x` the parent `/dash` leaves `board/x`.
pub open spec fn remaining_path(parent_path: Seq<char>, current: Seq<char>) -> Option<Seq<char>> {
    let parent = trim_end(parent_path, '/');
    let prefix = trim_start(parent, '/');
    let cur = trim_start(current, '/');
    if !prefix.is_prefix_of(cur) {
        None
    } else if parent.len() == 0 {
        Some(cur)
    } else {
        Some(trim_start(cur.skip(prefix.len() as int), '/'))
    }
}

/// The path of an index route: empty or `index`, leading slashes aside.
pub open spec fn is_index_path(path: Seq<char>) -> bool {
    let p = trim_start(path, '/');
    p.len() == 0 || p == "index"@
}

/// `i` is the first index route among `children`.
pub open spec fn is_first_index<B>(children: Seq<Arc<Route<B>>>, i: int) -> bool {
    &&& 0 <= i < children.len()
    &&& is_index_path(children[i].config.path@)
    &&& forall|k: int| 0 <= k < i ==> !is_index_path((#[trigger] children[k]).config.path@)
}

/// The first index route among `children`.
pub open spec fn index_route<B>(children: Seq<Arc<Route<B>>>) -> Option<int> {
    if exists|i: int| is_first_index(children, i) {
        Some(choose|i: int| is_first_index(children, i))
    } else {
        None
    }
}

/// A child with this path takes the segment: its path is the segment
/// itself, or it declares a parameter.
pub open spec fn takes_segment(child_path: Seq<char>, segment: Seq<char>) -> bool {
    let p = trim_start(child_path, '/');
    p == segment || is_param_piece(p)
}

/// `i` is the first of `children` that takes `segment`.
pub open spec fn is_first_taking<B>(children: Seq<Arc<Route<B>>>, segment: Seq<char>, i: int) -> bool {
    &&& 0 <= i < children.len()
    &&& takes_segment(children[i].config.path@, segment)
    &&& forall|k: int| 0 <= k < i ==> !takes_segment((#[trigger] children[k]).config.path@, segment)
}

/// The first of `children` that takes `segment`.
pub open spec fn taking_route<B>(children: Seq<Arc<Route<B>>>, segment: Seq<char>) -> Option<int> {
    if exists|i: int| is_first_taking(children, segment, i) {
        Some(choose|i: int| is_first_taking(children, segment, i))
    } else {
        None
    }
}

/// The parent's parameters once a child with this path took `segment`: a
/// parameter child binds its name to the segment, any other child binds
/// nothing.
pub open spec fn bind_segment(
    params: Seq<(Seq<char>, Seq<char>)>,
    child_path: Seq<char>,
    segment: Seq<char>,
) -> Seq<(Seq<char>, Seq<char>)> {
    let p = trim_start(child_path, '/');
    if is_param_piece(p) {
        put(params, trim_start(p, ':'), segment)
    } else {
        params
    }
}

/// The child of `parent` that fills the outlet for the path `current`, as
/// its position among the outlet's children, with the merged parameters.
pub open spec fn resolve_child<B>(
    parent: Route<B>,
    current: Seq<char>,
    params: Seq<(Seq<char>, Seq<char>)>,
    outlet: Option<Seq<char>>,
) -> Option<(int, Seq<(Seq<char>, Seq<char>)>)> {
    match outlet_children(parent, outlet) {
        None => None,
        Some(children) => if children.len() == 0 {
            None
        } else {
            match remaining_path(parent.config.path@, current) {
                None => None,
                Some(rest) => {
                    let segs = segments(rest);
                    if segs.len() == 0 {
                        match index_route(children) {
                            Some(i) => Some((i, params)),
                            None => None,
                        }
                    } else {
                        match taking_route(children, segs[0]) {
                            Some(i) => Some(
                                (i, bind_segment(params, children[i].config.path@, segs[0])),
                            ),
                            None => None,
                        }
                    }
                },
            }
        },
    }
}

proof fn lemma_index_route<B>(children: Seq<Arc<Route<B>>>, i: int)
    requires
        is_first_index(children, i),
    ensures
        index_route(children) == Some(i),
{
    let j = choose|j: int| is_first_index(children, j);
    if j < i {
        assert(!is_index_path(children[j].config.path@));
    } else if i < j {
        assert(!is_index_path(children[i].config.path@));
    }
}

proof fn lemma_no_index_route<B>(children: Seq<Arc<Route<B>>>)
    requires
        forall|k: int| 0 <= k < children.len() ==> !is_index_path((#[trigger] children[k]).config.path@),
    ensures
        index_route(children) is None,
{
    if exists|i: int| is_first_index(children, i) {
        let j = choose|j: int| is_first_index(children, j);
        assert(!is_index_path(children[j].config.path@));
    }
}

proof fn lemma_taking_route<B>(children: Seq<Arc<Route<B>>>, segment: Seq<char>, i: int)
    requires
        is_first_taking(children, segment, i),
    ensures
        taking_route(children, segment) == Some(i),
{
    let j = choose|j: int| is_first_taking(children, segment, j);
    if j < i {
        assert(!takes_segment(children[j].config.path@, segment));
    } else if i < j {
        assert(!takes_segment(children[i].config.path@, segment));
    }
}

proof fn lemma_no_taking_route<B>(children: Seq<Arc<Route<B>>>, segment: Seq<char>)
    requires
        forall|k: int|
            0 <= k < children.len() ==> !takes_segment((#[trigger] children[k]).config.path@, segment),
    ensures
        taking_route(children, segment) is None,
{
    if exists|i: int| is_first_taking(children, segment, i) {
        let j = choose|j: int| is_first_taking(children, segment, j);
        assert(!takes_segment(children[j].config.path@, segment));
    }
}

/// The first child whose path is empty or `index`, with `params` unchanged.
pub fn find_index_route<B>(children: &Vec<Arc<Route<B>>>, params: RouteParams) -> (r: Option<
    (Arc<Route<B>>, RouteParams),
>)
    ensures
        match index_route(children@) {
            Some(i) => r matches Some((child, found)) && child == children@[i] && found == params,
            None => r is None,
        },
{
    let index_word = to_chars("index");
    let mut i: usize = 0;
    while i < children.len()
        invariant
            i <= children.len(),
            index_word@ == "index"@,
            forall|k: int| 0 <= k < i ==> !is_index_path((#[trigger] children@[k]).config.path@),
        decreases children.len() - i,
    {
        let path = to_chars(children[i].config.path.as_str());
        let p = trimmed_start(&path, '/');
        if p.len() == 0 || same(&p, &index_word) {
            proof {
                lemma_index_route(children@, i as int);
            }
            return Some((share(&children[i]), params));
        }
        i += 1;
    }
    proof {
        lemma_no_index_route(children@);
    }
    None
}

/// Resolves which child of `parent_route` fills an outlet for the path
/// `current_path`.
///
/// The candidates are the children declared for the named outlet, or the
/// default children. The parent's path must be a prefix of the current
/// path. Where nothing is left of the path, the first index child is
/// chosen and the parameters are the parent's. Otherwise the first child
/// that takes the first remaining segment is chosen; a parameter child
/// binds its name to that segment in a copy of the parent's parameters.
pub fn resolve_child_route<B>(
    parent_route: &Arc<Route<B>>,
    current_path: &str,
    parent_params: &RouteParams,
    outlet_name: Option<&str>,
) -> (r: Option<(Arc<Route<B>>, RouteParams)>)
    ensures
        match resolve_child(**parent_route, current_path@, parent_params@, outlet_view(outlet_name)) {
            Some((i, merged)) => r matches Some((child, params)) && child == outlet_children(
                **parent_route,
                outlet_view(outlet_name),
            ).unwrap()[i] && params@ == merged,
            None => r is None,
        },
{
    let children: &Vec<Arc<Route<B>>> = match outlet_name {
        Some(name) => match parent_route.get_named_children(name) {
            Some(named) => named,
            None => {
                return None;
            },
        },
        None => parent_route.get_children(),
    };
    assert(outlet_children(**parent_route, outlet_view(outlet_name)) == Some(children@));
    if children.len() == 0 {
        return None;
    }
    let parent_path = to_chars(parent_route.config.path.as_str());
    let parent = trimmed_end(&parent_path, '/');
    let prefix = trimmed_start(&parent, '/');
    let current = to_chars(current_path);
    let cur = trimmed_start(&current, '/');
    if !starts_with(&cur, &prefix) {
        return None;
    }
    let remaining = if parent.len() == 0 {
        cur
    } else {
        let tail = slice(&cur, prefix.len(), cur.len());
        assert(tail@ == cur@.skip(prefix.len() as int));
        trimmed_start(&tail, '/')
    };
    assert(remaining_path(parent_route.config.path@, current_path@) == Some(remaining@));
    let segs = path_segments(&remaining);
    if segs.len() == 0 {
        let found = find_index_route(children, parent_params.clone());
        return found;
    }
    let first = &segs[0];
    assert(first@ == crate::text::pieces(segs@)[0]);
    let mut i: usize = 0;
    while i < children.len()
        invariant
            i <= children.len(),
            children@.len() > 0,
            outlet_children(**parent_route, outlet_view(outlet_name)) == Some(children@),
            remaining_path(parent_route.config.path@, current_path@) == Some(remaining@),
            segments(remaining@).len() > 0,
            first@ == segments(remaining@)[0],
            forall|k: int|
                0 <= k < i ==> !takes_segment((#[trigger] children@[k]).config.path@, first@),
        decreases children.len() - i,
    {
        let path = to_chars(children[i].config.path.as_str());
        let p = trimmed_start(&path, '/');
        let is_param = p.len() > 0 && p[0] == ':';
        if same(&p, first) || is_param {
            proof {
                lemma_taking_route(children@, first@, i as int);
            }
            let mut combined = parent_params.clone();
            if is_param {
                let name = trimmed_start(&p, ':');
                combined.insert(to_string(&name), to_string(first));
            }
            return Some((share(&children[i]), combined));
        }
        i += 1;
    }
    proof {
        lemma_no_taking_route(children@, first@);
    }
    None
}

/// The full path of a child below a parent: the parent without trailing
/// slashes, a slash, and the child without surrounding slashes. An empty
/// child leaves the parent alone; an empty parent leaves `/child`.
pub open spec fn child_path(parent_path: Seq<char>, child_path: Seq<char>) -> Seq<char> {
    let parent = trim_end(parent_path, '/');
    let child = trim(child_path, '/');
    if child.len() == 0 {
        parent
    } else {
        parent + seq!['/'] + child
    }
}

/// Joins the path of a parent and of a child into the child's full path.
pub fn build_child_path(parent_path: &str, child_path: &str) -> (r: String)
    ensures
        r@ == self::child_path(parent_path@, child_path@),
{
    let parent_chars = to_chars(parent_path);
    let mut full = trimmed_end(&parent_chars, '/');
    let child_chars = to_chars(child_path);
    let child = trimmed(&child_chars, '/');
    if child.len() > 0 {
        full.push('/');
        extend(&mut full, &child);
    }
    to_string(&full)
}

/// The path of a route below the accumulated path of its ancestors.
pub open spec fn join_paths(accumulated: Seq<char>, segment: Seq<char>) -> Seq<char> {
    if accumulated.len() == 0 {
        segment
    } else if segment.len() == 0 {
        accumulated
    } else {
        accumulated + seq!['/'] + segment
    }
}

/// The path of a child of the route whose full path is `full`.
pub open spec fn child_full_path(full: Seq<char>, segment: Seq<char>) -> Seq<char> {
    if full.len() == 0 {
        segment
    } else {
        full + seq!['/'] + segment
    }
}

/// `current` lies in the subtree of the route whose full path is `full`:
/// it is that path, or continues it after a slash. Below the root lies
/// every path but the empty one.
pub open spec fn is_under(current: Seq<char>, full: Seq<char>) -> bool {
    if full.len() == 0 {
        current.len() > 0
    } else {
        full.is_prefix_of(current) && (current.len() == full.len() || current[full.len() as int]
            == '/')
    }
}

/// `current` is the path `child_full` or lies below it.
pub open spec fn reaches(current: Seq<char>, child_full: Seq<char>) -> bool {
    current == child_full || (child_full + seq!['/']).is_prefix_of(current)
}

/// Some child of `route`, whose full path is `full`, is on the way to `current`.
pub open spec fn owns_child<B>(route: Route<B>, current: Seq<char>, full: Seq<char>) -> bool {
    exists|i: int|
        0 <= i < route.children@.len() && reaches(
            current,
            child_full_path(full, trim((#[trigger] route.children@[i]).config.path@, '/')),
        )
}

/// The owner of the outlet for `current` within the subtree of `route`,
/// whose ancestors' paths add up to `accumulated`.
///
/// A route without children owns nothing. A route under which `current`
/// lies hands the question to its children first, so the deepest owner
/// wins; it owns the outlet itself where one of its children is on the way
/// to `current`, or where it is a top-level route and `current` is its
/// own path.
pub open spec fn owner_at<B>(route: Arc<Route<B>>, current: Seq<char>, accumulated: Seq<char>) -> Option<
    Arc<Route<B>>,
>
    decreases route, 0nat,
{
    let full = join_paths(accumulated, trim(route.config.path@, '/'));
    if route.children@.len() == 0 || !is_under(current, full) {
        None
    } else {
        match owner_in(route.children, 0, current, full) {
            Some(deeper) => Some(deeper),
            None => if owns_child(*route, current, full) || (current == full && accumulated.len()
                == 0) {
                Some(route)
            } else {
                None
            },
        }
    }
}

/// The first owner found in the subtrees of `routes[from..]`, in order.
pub open spec fn owner_in<B>(
    routes: Vec<Arc<Route<B>>>,
    from: int,
    current: Seq<char>,
    accumulated: Seq<char>,
) -> Option<Arc<Route<B>>>
    decreases routes, routes@.len() - from,
{
    if from < 0 || from >= routes@.len() {
        None
    } else {
        match owner_at(routes@[from], current, accumulated) {
            Some(owner) => Some(owner),
            None => owner_in(routes, from + 1, current, accumulated),
        }
    }
}

/// The route that owns the outlet for `current_path`: the deepest route
/// with children on the way to the path, searched depth first in order of
/// registration.
pub open spec fn outlet_owner<B>(routes: Vec<Arc<Route<B>>>, current_path: Seq<char>) -> Option<
    Arc<Route<B>>,
> {
    owner_in(routes, 0, trim(current_path, '/'), Seq::<char>::empty())
}

/// The owner of an outlet has children.
pub proof fn law_owner_has_children<B>(routes: Vec<Arc<Route<B>>>, current_path: Seq<char>)
    ensures
        outlet_owner(routes, current_path) matches Some(owner) ==> owner.children@.len() > 0,
{
    lemma_owner_in(&routes, 0, trim(current_path, '/'), Seq::<char>::empty());
}

proof fn lemma_owner_in<B>(
    routes: &Vec<Arc<Route<B>>>,
    from: int,
    current: Seq<char>,
    accumulated: Seq<char>,
)
    ensures
        owner_in(*routes, from, current, accumulated) matches Some(owner) ==> owner.children@.len()
            > 0,
    decreases *routes, routes@.len() - from,
{
    if 0 <= from < routes@.len() {
        lemma_owner_at(&routes@[from], current, accumulated);
        lemma_owner_in(routes, from + 1, current, accumulated);
    }
}

proof fn lemma_owner_at<B>(route: &Arc<Route<B>>, current: Seq<char>, accumulated: Seq<char>)
    ensures
        owner_at(*route, current, accumulated) matches Some(owner) ==> owner.children@.len() > 0,
    decreases *route, 0nat,
{
    let full = join_paths(accumulated, trim(route.config.path@, '/'));
    if route.children@.len() > 0 && is_under(current, full) {
        lemma_owner_in(&route.children, 0, current, full);
    }
}

fn has_child_towards<B>(route: &Arc<Route<B>>, current: &Vec<char>, full: &Vec<char>) -> (r: bool)
    ensures
        r == owns_child(**route, current@, full@),
{
    let mut i: usize = 0;
    while i < route.children.len()
        invariant
            i <= route.children.len(),
            forall|k: int|
                0 <= k < i ==> !reaches(
                    current@,
                    child_full_path(full@, trim((#[trigger] route.children@[k]).config.path@, '/')),
                ),
        decreases route.children.len() - i,
    {
        let path = to_chars(route.children[i].config.path.as_str());
        let segment = trimmed(&path, '/');
        let mut child_full: Vec<char> = Vec::new();
        if full.len() == 0 {
            extend(&mut child_full, &segment);
        } else {
            extend(&mut child_full, full);
            child_full.push('/');
            extend(&mut child_full, &segment);
        }
        assert(child_full@ =~= child_full_path(full@, trim(route.children@[i as int].config.path@, '/')));
        if same(current, &child_full) {
            return true;
        }
        let mut with_slash = slice(&child_full, 0, child_full.len());
        with_slash.push('/');
        assert(with_slash@ =~= child_full@ + seq!['/']);
        if starts_with(current, &with_slash) {
            return true;
        }
        i += 1;
    }
    false
}

fn lies_under(current: &Vec<char>, full: &Vec<char>) -> (r: bool)
    ensures
        r == is_under(current@, full@),
{
    if full.len() == 0 {
        current.len() > 0
    } else {
        starts_with(current, full) && (current.len() == full.len() || current[full.len()] == '/')
    }
}

fn find_parent_route_internal<'a, B>(
    routes: &'a Vec<Arc<Route<B>>>,
    current: &Vec<char>,
    accumulated: &Vec<char>,
) -> (r: Option<&'a Arc<Route<B>>>)
    ensures
        match owner_in(*routes, 0, current@, accumulated@) {
            Some(owner) => r matches Some(found) && *found == owner,
            None => r is None,
        },
    decreases routes,
{
    let mut i: usize = 0;
    while i < routes.len()
        invariant
            i <= routes.len(),
            owner_in(*routes, 0, current@, accumulated@) == owner_in(
                *routes,
                i as int,
                current@,
                accumulated@,
            ),
        decreases routes.len() - i,
    {
        let route = &routes[i];
        proof {
            reveal_with_fuel(owner_in, 2);
            reveal_with_fuel(owner_at, 2);
        }
        if route.children.len() > 0 {
            let path = to_chars(route.config.path.as_str());
            let segment = trimmed(&path, '/');
            let mut full: Vec<char> = Vec::new();
            if accumulated.len() == 0 {
                extend(&mut full, &segment);
            } else if segment.len() == 0 {
                extend(&mut full, accumulated);
            } else {
                extend(&mut full, accumulated);
                full.push('/');
                extend(&mut full, &segment);
            }
            assert(full@ =~= join_paths(accumulated@, trim(route.config.path@, '/')));
            if lies_under(current, &full) {
                let deeper = find_parent_route_internal(&route.children, current, &full);
                if deeper.is_some() {
                    return deeper;
                }
                if has_child_towards(route, current, &full) {
                    return Some(route);
                }
                if accumulated.len() == 0 && same(current, &full) {
                    return Some(route);
                }
            }
        }
        i += 1;
    }
    None
}

/// Finds the route that owns the outlet for `current_path`.
pub fn find_parent_route_for_path<'a, B>(routes: &'a Vec<Arc<Route<B>>>, current_path: &str) -> (r:
    Option<&'a Arc<Route<B>>>)
    ensures
        match outlet_owner(*routes, current_path@) {
            Some(owner) => r matches Some(found) && *found == owner,
            None => r is None,
        },
{
    let path = to_chars(current_path);
    let current = trimmed(&path, '/');
    let root: Vec<char> = Vec::new();
    find_parent_route_internal(routes, &current, &root)
}

} // verus!
