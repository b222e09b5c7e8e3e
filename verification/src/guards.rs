//! Route guards: what a guard answers, the answers of the built-in guards,
//! and the run of a set of guards in order of priority.
//!
//! A guard's check may wait on the host, so it is the host that performs
//! it. What is decided here is which member is checked next and what the
//! set answers: members are checked one at a time, by descending
//! priority, and the first answer that is not `Allow` ends the run.

use crate::keyed::{has_key, lookup};
use crate::RouteMatch;
use vstd::prelude::*;
use vstd::string::StringExecFns;

verus! {

/// The answer of a guard.
#[derive(Debug, PartialEq)]
#[allow(inconsistent_fields)]
pub enum GuardResult {
    /// The navigation may proceed.
    Allow,
    /// The navigation is refused.
    Deny { reason: String },
    /// The navigation is refused and another path is to be taken.
    Redirect { to: String, reason: Option<String> },
}

/// A `GuardResult` with its texts as characters.
#[allow(inconsistent_fields)]
pub enum GuardOutcome {
    Allow,
    Deny { reason: Seq<char> },
    Redirect { to: Seq<char>, reason: Option<Seq<char>> },
}

impl View for GuardResult {
    type V = GuardOutcome;

    open spec fn view(&self) -> GuardOutcome {
        match self {
            GuardResult::Allow => GuardOutcome::Allow,
            GuardResult::Deny { reason } => GuardOutcome::Deny { reason: reason@ },
            GuardResult::Redirect { to, reason } => GuardOutcome::Redirect {
                to: to@,
                reason: match reason {
                    Some(r) => Some(r@),
                    None => None,
                },
            },
        }
    }
}

impl Clone for GuardResult {
    fn clone(&self) -> (r: Self)
        ensures
            r@ == self@,
    {
        match self {
            GuardResult::Allow => GuardResult::Allow,
            GuardResult::Deny { reason } => GuardResult::Deny { reason: reason.clone() },
            GuardResult::Redirect { to, reason } => {
                let reason = match reason {
                    Some(r) => Some(r.clone()),
                    None => None,
                };
                GuardResult::Redirect { to: to.clone(), reason }
            },
        }
    }
}

impl GuardResult {
    /// The answer that lets the navigation proceed.
    pub fn allow() -> (r: Self)
        ensures
            r@ == GuardOutcome::Allow,
    {
        GuardResult::Allow
    }

    /// The answer that refuses the navigation for `reason`.
    pub fn deny(reason: &str) -> (r: Self)
        ensures
            r@ == (GuardOutcome::Deny { reason: reason@ }),
    {
        GuardResult::Deny { reason: reason.to_owned() }
    }

    /// The answer that sends the navigation to `to`.
    pub fn redirect(to: &str) -> (r: Self)
        ensures
            r@ == (GuardOutcome::Redirect { to: to@, reason: None }),
    {
        GuardResult::Redirect { to: to.to_owned(), reason: None }
    }

    /// The answer that sends the navigation to `to` for `reason`.
    pub fn redirect_with_reason(to: &str, reason: &str) -> (r: Self)
        ensures
            r@ == (GuardOutcome::Redirect { to: to@, reason: Some(reason@) }),
    {
        GuardResult::Redirect { to: to.to_owned(), reason: Some(reason.to_owned()) }
    }

    /// Whether the answer is `Allow`.
    pub fn is_allow(&self) -> (r: bool)
        ensures
            r == (self@ is Allow),
    {
        match self {
            GuardResult::Allow => true,
            _ => false,
        }
    }

    /// Whether the answer is `Deny`.
    pub fn is_deny(&self) -> (r: bool)
        ensures
            r == (self@ is Deny),
    {
        match self {
            GuardResult::Deny { .. } => true,
            _ => false,
        }
    }

    /// Whether the answer is `Redirect`.
    pub fn is_redirect(&self) -> (r: bool)
        ensures
            r == (self@ is Redirect),
    {
        match self {
            GuardResult::Redirect { .. } => true,
            _ => false,
        }
    }

    /// The path a `Redirect` sends to.
    pub fn redirect_path(&self) -> (r: Option<&str>)
        ensures
            match self@ {
                GuardOutcome::Redirect { to, .. } => r matches Some(path) && path@ == to,
                _ => r is None,
            },
    {
        match self {
            GuardResult::Redirect { to, .. } => Some(to.as_str()),
            _ => None,
        }
    }
}

/// What a guard is told about the navigation it checks.
#[derive(Debug, Clone)]
pub struct GuardContext {
    /// The path that is left.
    pub from: Option<String>,
    /// The path that is entered.
    pub to: String,
    /// The match of the path that is entered.
    pub to_match: RouteMatch,
}

impl GuardContext {
    /// A context for a navigation from `from` to `to`.
    pub fn new(from: Option<String>, to: String, to_match: RouteMatch) -> (r: Self)
        ensures
            r.from == from,
            r.to == to,
            r.to_match == to_match,
    {
        GuardContext { from, to, to_match }
    }

    /// The route parameter `key` of the path that is entered.
    pub fn param(&self, key: &str) -> (r: Option<&String>)
        ensures
            r.is_some() == has_key(self.to_match.params@, key@),
            r matches Some(v) ==> lookup(self.to_match.params@, key@) == Some(v@),
    {
        self.to_match.params.get(key)
    }

    /// The query parameter `key` of the path that is entered.
    pub fn query(&self, key: &str) -> (r: Option<&String>)
        ensures
            r.is_some() == has_key(self.to_match.query@, key@),
            r matches Some(v) ==> lookup(self.to_match.query@, key@) == Some(v@),
    {
        self.to_match.query.get(key)
    }
}

/// What the router needs to know of a guard to place it in a run. The
/// check itself belongs to the host.
pub trait RouteGuard {
    /// The name of the guard; `RouteGuard` unless the guard gives its own.
    fn name(&self) -> (r: &str)
        default_ensures
            r@ == "RouteGuard"@,
    {
        "RouteGuard"
    }

    /// The priority of the guard; the higher is checked first. It is 0
    /// unless the guard gives its own.
    fn priority(&self) -> (r: i32)
        default_ensures
            r == 0,
    {
        0
    }
}

/// A guard made of a function that performs its check.
pub struct FnGuard<F> {
    f: F,
}

impl<F> FnGuard<F> {
    /// The function that performs the check.
    pub fn function(&self) -> (r: &F)
        ensures
            *r == self.check_fn(),
    {
        &self.f
    }

    /// The function that performs the check.
    pub closed spec fn check_fn(&self) -> F {
        self.f
    }
}

impl<F> RouteGuard for FnGuard<F> {

}

/// A guard whose check is performed by `f`.
pub fn guard_fn<F>(f: F) -> (r: FnGuard<F>)
    ensures
        r.check_fn() == f,
{
    FnGuard { f }
}

fn prefixed(prefix: &str, text: &str) -> (r: String)
    ensures
        r@ == prefix@ + text@,
{
    let mut r = String::from_str(prefix);
    r.append(text);
    r
}

fn joined(before: &str, middle: &str, after: &str) -> (r: String)
    ensures
        r@ == before@ + middle@ + after@,
{
    let mut r = String::from_str(before);
    r.append(middle);
    r.append(after);
    r
}

/// Lets a navigation pass if the user is authenticated and sends it to a
/// login path otherwise. It is checked before the other built-in guards.
#[derive(Debug, Clone)]
pub struct AuthGuard {
    redirect_path: String,
}

impl AuthGuard {
    /// A guard that sends unauthenticated users to `redirect_path`.
    pub fn new(redirect_path: &str) -> (r: Self)
        ensures
            r.redirect_to() == redirect_path@,
    {
        AuthGuard { redirect_path: redirect_path.to_owned() }
    }

    /// The path that unauthenticated users are sent to.
    pub closed spec fn redirect_to(&self) -> Seq<char> {
        self.redirect_path@
    }

    /// The answer of the guard, given whether the user is authenticated.
    pub fn check(&self, is_authenticated: bool) -> (r: GuardResult)
        ensures
            r@ == if is_authenticated {
                GuardOutcome::Allow
            } else {
                GuardOutcome::Redirect {
                    to: self.redirect_to(),
                    reason: Some("Authentication required"@),
                }
            },
    {
        if is_authenticated {
            GuardResult::allow()
        } else {
            GuardResult::redirect_with_reason(
                self.redirect_path.as_str(),
                "Authentication required",
            )
        }
    }
}

impl RouteGuard for AuthGuard {
    fn name(&self) -> (r: &str)
        ensures
            r@ == "AuthGuard"@,
    {
        "AuthGuard"
    }

    fn priority(&self) -> (r: i32)
        ensures
            r == 100,
    {
        100
    }
}

/// Lets a navigation pass if the user has a required role.
#[derive(Debug, Clone)]
pub struct RoleGuard {
    required_role: String,
    redirect_path: Option<String>,
}

impl RoleGuard {
    /// A guard that requires `required_role` and sends other users to
    /// `redirect_path`, if one is given.
    pub fn new(required_role: &str, redirect_path: Option<&str>) -> (r: Self)
        ensures
            r.required() == required_role@,
            r.redirect_to() == match redirect_path {
                Some(p) => Some(p@),
                None => None,
            },
    {
        let redirect_path = match redirect_path {
            Some(p) => Some(p.to_owned()),
            None => None,
        };
        RoleGuard { required_role: required_role.to_owned(), redirect_path }
    }

    /// The role that the guard requires.
    pub closed spec fn required(&self) -> Seq<char> {
        self.required_role@
    }

    /// The path that users without the role are sent to.
    pub closed spec fn redirect_to(&self) -> Option<Seq<char>> {
        match self.redirect_path {
            Some(p) => Some(p@),
            None => None,
        }
    }

    /// Whether `role` is the required role.
    pub fn has_required_role(&self, role: Option<&String>) -> (r: bool)
        ensures
            r == (role matches Some(held) && held@ == self.required()),
    {
        match role {
            Some(held) => *held == self.required_role,
            None => false,
        }
    }

    /// The answer of the guard, given the role of the user.
    pub fn check(&self, role: Option<&String>) -> (r: GuardResult)
        ensures
            r@ == if role matches Some(held) && held@ == self.required() {
                GuardOutcome::Allow
            } else {
                match self.redirect_to() {
                    Some(to) => GuardOutcome::Redirect {
                        to,
                        reason: Some("Requires '"@ + self.required() + "' role"@),
                    },
                    None => GuardOutcome::Deny {
                        reason: "Missing required role: "@ + self.required(),
                    },
                }
            },
    {
        if self.has_required_role(role) {
            GuardResult::allow()
        } else {
            match &self.redirect_path {
                Some(to) => {
                    let reason = joined("Requires '", self.required_role.as_str(), "' role");
                    GuardResult::Redirect { to: to.clone(), reason: Some(reason) }
                },
                None => {
                    let reason = prefixed("Missing required role: ", self.required_role.as_str());
                    GuardResult::Deny { reason }
                },
            }
        }
    }
}

impl RouteGuard for RoleGuard {
    fn name(&self) -> (r: &str)
        ensures
            r@ == "RoleGuard"@,
    {
        "RoleGuard"
    }

    fn priority(&self) -> (r: i32)
        ensures
            r == 90,
    {
        90
    }
}

/// Lets a navigation pass if the user has a permission.
#[derive(Debug, Clone)]
pub struct PermissionGuard {
    permission: String,
    redirect_path: Option<String>,
}

impl PermissionGuard {
    /// A guard that requires `permission`.
    pub fn new(permission: &str) -> (r: Self)
        ensures
            r.required() == permission@,
            r.redirect_to() is None,
    {
        PermissionGuard { permission: permission.to_owned(), redirect_path: None }
    }

    /// The guard, sending users without the permission to `path`.
    pub fn with_redirect(self, path: &str) -> (r: Self)
        ensures
            r.required() == self.required(),
            r.redirect_to() == Some(path@),
    {
        PermissionGuard { permission: self.permission, redirect_path: Some(path.to_owned()) }
    }

    /// The permission that the guard requires.
    pub closed spec fn required(&self) -> Seq<char> {
        self.permission@
    }

    /// The path that users without the permission are sent to.
    pub closed spec fn redirect_to(&self) -> Option<Seq<char>> {
        match self.redirect_path {
            Some(p) => Some(p@),
            None => None,
        }
    }

    /// The permission that the host has to look up before `check`.
    pub fn permission(&self) -> (r: &str)
        ensures
            r@ == self.required(),
    {
        self.permission.as_str()
    }

    /// The answer of the guard, given whether the user has the permission.
    pub fn check(&self, has_permission: bool) -> (r: GuardResult)
        ensures
            r@ == if has_permission {
                GuardOutcome::Allow
            } else {
                match self.redirect_to() {
                    Some(to) => GuardOutcome::Redirect {
                        to,
                        reason: Some("Missing permission: "@ + self.required()),
                    },
                    None => GuardOutcome::Deny {
                        reason: "Missing permission: "@ + self.required(),
                    },
                }
            },
    {
        if has_permission {
            GuardResult::allow()
        } else {
            let reason = prefixed("Missing permission: ", self.permission.as_str());
            match &self.redirect_path {
                Some(to) => GuardResult::Redirect { to: to.clone(), reason: Some(reason) },
                None => GuardResult::Deny { reason },
            }
        }
    }
}

impl RouteGuard for PermissionGuard {
    fn name(&self) -> (r: &str)
        ensures
            r@ == "PermissionGuard"@,
    {
        "PermissionGuard"
    }

    fn priority(&self) -> (r: i32)
        ensures
            r == 80,
    {
        80
    }
}

/// The answer of a guard that lets pass what another guard refuses.
pub open spec fn inverted(outcome: GuardOutcome) -> GuardOutcome {
    match outcome {
        GuardOutcome::Allow => GuardOutcome::Deny {
            reason: "Inverted: guard allowed but NOT expected"@,
        },
        GuardOutcome::Deny { .. } => GuardOutcome::Allow,
        GuardOutcome::Redirect { to, reason } => GuardOutcome::Redirect { to, reason },
    }
}

/// Inverts the answer of another guard: `Allow` becomes `Deny`, `Deny`
/// becomes `Allow`, and a `Redirect` stays as it is.
#[derive(Debug, Clone)]
pub struct NotGuard {
    priority: i32,
}

impl NotGuard {
    /// The inversion of a guard of priority `priority`.
    pub fn new(priority: i32) -> (r: Self)
        ensures
            r.inner_priority() == priority,
    {
        NotGuard { priority }
    }

    /// The priority of the inverted guard.
    pub closed spec fn inner_priority(&self) -> i32 {
        self.priority
    }

    /// The answer of the guard, given the answer of the inverted guard.
    pub fn check(&self, inner: GuardResult) -> (r: GuardResult)
        ensures
            r@ == inverted(inner@),
    {
        match inner {
            GuardResult::Allow => GuardResult::deny("Inverted: guard allowed but NOT expected"),
            GuardResult::Deny { .. } => GuardResult::Allow,
            GuardResult::Redirect { to, reason } => GuardResult::Redirect { to, reason },
        }
    }
}

impl RouteGuard for NotGuard {
    fn name(&self) -> (r: &str)
        ensures
            r@ == "NotGuard"@,
    {
        "NotGuard"
    }

    fn priority(&self) -> (r: i32)
        ensures
            r == self.inner_priority(),
    {
        self.priority
    }
}

/// The member `x` is checked before the member `y`: it has the higher
/// priority, or the same priority and was registered first.
pub open spec fn runs_before(priorities: Seq<i32>, x: usize, y: usize) -> bool {
    priorities[x as int] > priorities[y as int] || (priorities[x as int] == priorities[y as int]
        && x < y)
}

/// `order` lists every member once, each before the members it is
/// checked before.
pub open spec fn is_execution_order(priorities: Seq<i32>, order: Seq<usize>) -> bool {
    &&& order.len() == priorities.len()
    &&& forall|a: int| 0 <= a < order.len() ==> (#[trigger] order[a]) < priorities.len()
    &&& forall|j: usize| j < priorities.len() ==> #[trigger] order.contains(j)
    &&& forall|a: int, b: int|
        0 <= a < b < order.len() ==> runs_before(priorities, #[trigger] order[a], #[trigger] order[b])
}

/// There is one order of execution only.
pub proof fn law_execution_order_unique(priorities: Seq<i32>, a: Seq<usize>, b: Seq<usize>)
    requires
        is_execution_order(priorities, a),
        is_execution_order(priorities, b),
    ensures
        a == b,
{
    if a.len() > 0 {
        lemma_same_prefix(priorities, a, b, a.len() - 1);
    }
    assert(a =~= b);
}

proof fn lemma_same_prefix(priorities: Seq<i32>, a: Seq<usize>, b: Seq<usize>, i: int)
    requires
        is_execution_order(priorities, a),
        is_execution_order(priorities, b),
        0 <= i < a.len(),
    ensures
        forall|k: int| 0 <= k <= i ==> a[k] == b[k],
    decreases i,
{
    if i > 0 {
        lemma_same_prefix(priorities, a, b, i - 1);
    }
    let x = a[i];
    let y = b[i];
    if x != y {
        assert(b.contains(x));
        let j = choose|j: int| 0 <= j < b.len() && b[j] == x;
        if j < i {
            assert(a[j] == x);
            assert(runs_before(priorities, a[j], a[i]));
        } else {
            assert(runs_before(priorities, b[i], b[j]));
        }
        assert(a.contains(y));
        let k = choose|k: int| 0 <= k < a.len() && a[k] == y;
        if k < i {
            assert(b[k] == y);
            assert(runs_before(priorities, b[k], b[i]));
        } else {
            assert(runs_before(priorities, a[i], a[k]));
        }
    }
}

/// The members in the order in which they are checked: by descending
/// priority, members of equal priority in the order of their registration.
pub fn execution_order(priorities: &Vec<i32>) -> (order: Vec<usize>)
    ensures
        is_execution_order(priorities@, order@),
{
    let mut order: Vec<usize> = Vec::new();
    let mut i: usize = 0;
    while i < priorities.len()
        invariant
            i <= priorities.len(),
            order@.len() == i,
            forall|a: int| 0 <= a < order@.len() ==> (#[trigger] order@[a]) < i,
            forall|j: usize| j < i ==> #[trigger] order@.contains(j),
            forall|a: int, b: int|
                0 <= a < b < order@.len() ==> runs_before(
                    priorities@,
                    #[trigger] order@[a],
                    #[trigger] order@[b],
                ),
        decreases priorities.len() - i,
    {
        let mut p: usize = 0;
        while p < order.len() && priorities[order[p]] >= priorities[i]
            invariant
                p <= order@.len(),
                i < priorities.len(),
                forall|a: int| 0 <= a < order@.len() ==> (#[trigger] order@[a]) < i,
                forall|a: int| 0 <= a < p ==> priorities@[(#[trigger] order@[a]) as int] >= priorities@[i as int],
            decreases order@.len() - p,
        {
            p += 1;
        }
        let ghost old_order = order@;
        order.insert(p, i);
        proof {
            let new_order = order@;
            assert forall|a: int| 0 <= a < new_order.len() implies (#[trigger] new_order[a]) < i
                + 1 by {
                if a < p {
                    assert(new_order[a] == old_order[a]);
                } else if a > p {
                    assert(new_order[a] == old_order[a - 1]);
                }
            }
            assert forall|j: usize| j < i + 1 implies #[trigger] new_order.contains(j) by {
                if j == i {
                    assert(new_order[p as int] == j);
                } else {
                    assert(old_order.contains(j));
                    let w = choose|w: int| 0 <= w < old_order.len() && old_order[w] == j;
                    if w < p {
                        assert(new_order[w] == j);
                    } else {
                        assert(new_order[w + 1] == j);
                    }
                }
            }
            assert forall|a: int, b: int| 0 <= a < b < new_order.len() implies runs_before(
                priorities@,
                #[trigger] new_order[a],
                #[trigger] new_order[b],
            ) by {
                let x = if a < p {
                    a
                } else {
                    a - 1
                };
                let y = if b < p {
                    b
                } else {
                    b - 1
                };
                if a == p {
                    assert(new_order[b] == old_order[y]);
                    if p < y {
                        assert(runs_before(priorities@, old_order[p as int], old_order[y]));
                    }
                } else if b == p {
                    assert(new_order[a] == old_order[x]);
                    assert(old_order[x] < i);
                } else {
                    assert(new_order[a] == old_order[x]);
                    assert(new_order[b] == old_order[y]);
                    assert(runs_before(priorities@, old_order[x], old_order[y]));
                }
            }
        }
        i += 1;
    }
    order
}

/// The highest of the priorities, or 0 if there is none.
pub open spec fn highest(priorities: Seq<i32>) -> int
    decreases priorities.len(),
{
    if priorities.len() == 0 {
        0
    } else if priorities.len() == 1 {
        priorities[0] as int
    } else {
        let rest = highest(priorities.drop_last());
        if priorities.last() > rest {
            priorities.last() as int
        } else {
            rest
        }
    }
}

/// The members that a run from `position` checks, and its answer, where
/// `answers` tells what each member answers when it is checked.
///
/// Members are checked in order. The first answer that is not `Allow` is
/// the answer of the run, and no later member is checked. A run that
/// checks every member without such an answer allows.
pub open spec fn run_from(
    order: Seq<usize>,
    answers: spec_fn(usize) -> GuardOutcome,
    position: int,
) -> (Seq<usize>, GuardOutcome)
    decreases order.len() - position,
{
    if position < 0 || position >= order.len() {
        (Seq::empty(), GuardOutcome::Allow)
    } else {
        let member = order[position];
        if answers(member) is Allow {
            let rest = run_from(order, answers, position + 1);
            (seq![member] + rest.0, rest.1)
        } else {
            (seq![member], answers(member))
        }
    }
}

/// A run ends with the first answer that is not `Allow`: the members up to
/// that one are checked, and none after it.
pub proof fn law_short_circuit(order: Seq<usize>, answers: spec_fn(usize) -> GuardOutcome, k: int)
    requires
        0 <= k < order.len(),
        !(answers(order[k]) is Allow),
        forall|j: int| 0 <= j < k ==> answers(#[trigger] order[j]) is Allow,
    ensures
        run_from(order, answers, 0) == (order.take(k + 1), answers(order[k])),
{
    lemma_run_until(order, answers, 0, k);
    assert(order.subrange(0, k + 1) == order.take(k + 1));
}

proof fn lemma_run_until(
    order: Seq<usize>,
    answers: spec_fn(usize) -> GuardOutcome,
    from: int,
    k: int,
)
    requires
        0 <= from <= k < order.len(),
        !(answers(order[k]) is Allow),
        forall|j: int| from <= j < k ==> answers(#[trigger] order[j]) is Allow,
    ensures
        run_from(order, answers, from) == (order.subrange(from, k + 1), answers(order[k])),
    decreases k - from,
{
    if from < k {
        lemma_run_until(order, answers, from + 1, k);
        assert(answers(order[from]) is Allow);
        assert(seq![order[from]] + order.subrange(from + 1, k + 1) =~= order.subrange(from, k + 1));
    } else {
        assert(seq![order[k]] =~= order.subrange(k, k + 1));
    }
}

/// A run in which every member allows checks every member and allows.
pub proof fn law_all_allow(order: Seq<usize>, answers: spec_fn(usize) -> GuardOutcome)
    requires
        forall|j: int| 0 <= j < order.len() ==> answers(#[trigger] order[j]) is Allow,
    ensures
        run_from(order, answers, 0) == (order, GuardOutcome::Allow),
{
    lemma_run_all(order, answers, 0);
    assert(order.subrange(0, order.len() as int) == order);
}

proof fn lemma_run_all(order: Seq<usize>, answers: spec_fn(usize) -> GuardOutcome, from: int)
    requires
        0 <= from <= order.len(),
        forall|j: int| from <= j < order.len() ==> answers(#[trigger] order[j]) is Allow,
    ensures
        run_from(order, answers, from) == (
            order.subrange(from, order.len() as int),
            GuardOutcome::Allow,
        ),
    decreases order.len() - from,
{
    if from < order.len() {
        lemma_run_all(order, answers, from + 1);
        assert(answers(order[from]) is Allow);
        assert(seq![order[from]] + order.subrange(from + 1, order.len() as int) =~= order.subrange(
            from,
            order.len() as int,
        ));
    } else {
        assert(order.subrange(from, order.len() as int) =~= Seq::<usize>::empty());
    }
}

/// What the host does next in a run of guards.
#[derive(Debug, PartialEq)]
pub enum GuardStep {
    /// Check the member with this number and report its answer.
    Check(usize),
    /// The run is over with this answer.
    Done(GuardResult),
}

/// A `GuardStep` with its texts as characters.
pub enum StepView {
    Check(usize),
    Done(GuardOutcome),
}

impl View for GuardStep {
    type V = StepView;

    open spec fn view(&self) -> StepView {
        match self {
            GuardStep::Check(member) => StepView::Check(*member),
            GuardStep::Done(result) => StepView::Done(result@),
        }
    }
}

/// A run of a set of guards.
#[derive(Debug)]
pub struct GuardRun {
    order: Vec<usize>,
    position: usize,
    outcome: Option<GuardResult>,
}

impl GuardRun {
    /// The members in the order in which the run checks them.
    pub closed spec fn order(&self) -> Seq<usize> {
        self.order@
    }

    /// The position in the order of the member that is being checked.
    pub closed spec fn position(&self) -> int {
        self.position as int
    }

    /// The answer of the run, once it is over.
    pub closed spec fn outcome(&self) -> Option<GuardOutcome> {
        match self.outcome {
            Some(result) => Some(result@),
            None => None,
        }
    }

    /// While the run is not over, a member is being checked.
    pub open spec fn wf(&self) -> bool {
        self.outcome() is None ==> 0 <= self.position() < self.order().len()
    }

    /// Whether the run is over.
    pub fn is_done(&self) -> (r: bool)
        ensures
            r == self.outcome().is_some(),
    {
        self.outcome.is_some()
    }

    /// Takes the answer of the member that is being checked and says what
    /// comes next. `Allow` moves on to the next member, or ends the run
    /// with `Allow` after the last one; any other answer ends the run with
    /// that answer. A run that is over stays as it is and repeats its answer.
    pub fn resume(&mut self, answer: GuardResult) -> (step: GuardStep)
        requires
            old(self).wf(),
        ensures
            final(self).wf(),
            final(self).order() == old(self).order(),
            match old(self).outcome() {
                Some(outcome) => final(self).outcome() == Some(outcome) && final(self).position()
                    == old(self).position() && step@ == StepView::Done(outcome),
                None => if !(answer@ is Allow) {
                    final(self).outcome() == Some(answer@) && step@ == StepView::Done(answer@)
                } else if old(self).position() + 1 < old(self).order().len() {
                    final(self).outcome() is None && final(self).position() == old(self).position()
                        + 1 && step@ == StepView::Check(
                        old(self).order()[old(self).position() + 1],
                    )
                } else {
                    final(self).outcome() == Some(GuardOutcome::Allow) && step@ == StepView::Done(
                        GuardOutcome::Allow,
                    )
                },
            },
    {
        match &self.outcome {
            Some(outcome) => {
                return GuardStep::Done(outcome.clone());
            },
            None => {},
        }
        if !answer.is_allow() {
            self.outcome = Some(answer.clone());
            return GuardStep::Done(answer);
        }
        if self.position < self.order.len() - 1 {
            self.position += 1;
            GuardStep::Check(self.order[self.position])
        } else {
            self.outcome = Some(GuardResult::Allow);
            GuardStep::Done(GuardResult::Allow)
        }
    }
}

/// A set of guards that allows what all of its members allow. The members
/// are known by their number, in the order of their registration, and by
/// their priority.
#[derive(Debug, Clone)]
pub struct Guards {
    priorities: Vec<i32>,
}

impl View for Guards {
    type V = Seq<i32>;

    closed spec fn view(&self) -> Seq<i32> {
        self.priorities@
    }
}

impl Guards {
    /// A set of guards with these priorities.
    pub fn new(priorities: Vec<i32>) -> (r: Self)
        ensures
            r@ == priorities@,
    {
        Guards { priorities }
    }

    /// A set of guards with these priorities.
    pub fn from_guards(priorities: Vec<i32>) -> (r: Self)
        ensures
            r@ == priorities@,
    {
        Guards { priorities }
    }

    /// A builder of a set of guards.
    pub fn builder() -> (r: GuardBuilder)
        ensures
            r@ == Seq::<i32>::empty(),
    {
        GuardBuilder::new()
    }

    /// Number of members.
    pub fn len(&self) -> (n: usize)
        ensures
            n == self@.len(),
    {
        self.priorities.len()
    }

    /// The members in the order in which they are checked.
    pub fn order(&self) -> (order: Vec<usize>)
        ensures
            is_execution_order(self@, order@),
    {
        execution_order(&self.priorities)
    }

    /// Starts a run: the member to check first, or the answer `Allow` of a
    /// set without members.
    pub fn start(&self) -> (r: (GuardRun, GuardStep))
        ensures
            r.0.wf(),
            is_execution_order(self@, r.0.order()),
            r.0.position() == 0,
            if self@.len() == 0 {
                r.0.outcome() == Some(GuardOutcome::Allow) && r.1@ == StepView::Done(
                    GuardOutcome::Allow,
                )
            } else {
                r.0.outcome() is None && r.1@ == StepView::Check(r.0.order()[0])
            },
    {
        let order = self.order();
        if order.len() == 0 {
            let run = GuardRun { order, position: 0, outcome: Some(GuardResult::Allow) };
            (run, GuardStep::Done(GuardResult::Allow))
        } else {
            let first = order[0];
            let run = GuardRun { order, position: 0, outcome: None };
            (run, GuardStep::Check(first))
        }
    }

    /// Runs the set against members whose answers are known beforehand:
    /// `answers[i]` is what the member `i` answers when it is checked.
    /// Returns the members that were checked, in order, and the answer of
    /// the set.
    pub fn check(&self, answers: &Vec<GuardResult>) -> (r: (Vec<usize>, GuardResult))
        requires
            answers@.len() == self@.len(),
        ensures
            exists|order: Seq<usize>|
                is_execution_order(self@, order) && (r.0@, r.1@) == run_from(
                    order,
                    |member: usize| answers@[member as int]@,
                    0,
                ),
    {
        let ghost told = |member: usize| answers@[member as int]@;
        let mut checked: Vec<usize> = Vec::new();
        let (mut run, mut step) = self.start();
        let ghost order = run.order();
        loop
            invariant
                run.wf(),
                run.order() == order,
                is_execution_order(self@, order),
                answers@.len() == self@.len(),
                told == (|member: usize| answers@[member as int]@),
                match step@ {
                    StepView::Check(member) => run.outcome() is None && member == order[run.position()]
                        && run_from(order, told, 0) == (
                        checked@ + run_from(order, told, run.position()).0,
                        run_from(order, told, run.position()).1,
                    ),
                    StepView::Done(outcome) => run_from(order, told, 0) == (checked@, outcome),
                },
            decreases
                    (if step@ is Done {
                        0
                    } else {
                        order.len() - run.position()
                    }),
        {
            match step {
                GuardStep::Done(outcome) => {
                    return (checked, outcome);
                },
                GuardStep::Check(member) => {
                    let ghost before = checked@;
                    let ghost at = run.position();
                    assert(member < answers@.len());
                    checked.push(member);
                    let answer = answers[member].clone();
                    assert(answer@ == told(member));
                    step = run.resume(answer);
                    proof {
                        let here = run_from(order, told, at);
                        let rest = run_from(order, told, at + 1);
                        if told(member) is Allow {
                            assert(before + (seq![member] + rest.0) =~= before.push(member) + rest.0);
                            if at + 1 >= order.len() {
                                assert(before.push(member) + rest.0 =~= before.push(member));
                            }
                        } else {
                            assert(before + seq![member] =~= before.push(member));
                        }
                    }
                },
            }
        }
    }
}

impl RouteGuard for Guards {
    fn name(&self) -> (r: &str)
        ensures
            r@ == "Guards"@,
    {
        "Guards"
    }

    /// The priority of the set: the highest of its members, or 0.
    fn priority(&self) -> (r: i32)
        ensures
            r == highest(self@),
    {
        if self.priorities.len() == 0 {
            return 0;
        }
        let mut best: i32 = self.priorities[0];
        let mut i: usize = 1;
        assert(self@.take(1).drop_last() =~= Seq::<i32>::empty());
        while i < self.priorities.len()
            invariant
                1 <= i <= self.priorities.len(),
                best == highest(self@.take(i as int)),
            decreases self.priorities.len() - i,
        {
            assert(self@.take(i + 1).drop_last() == self@.take(i as int));
            if self.priorities[i] > best {
                best = self.priorities[i];
            }
            i += 1;
        }
        assert(self@.take(self@.len() as int) == self@);
        best
    }
}

/// Builds a set of guards member by member.
#[derive(Debug, Clone)]
pub struct GuardBuilder {
    priorities: Vec<i32>,
}

impl View for GuardBuilder {
    type V = Seq<i32>;

    closed spec fn view(&self) -> Seq<i32> {
        self.priorities@
    }
}

impl Default for GuardBuilder {
    fn default() -> (r: Self)
        ensures
            r@ == Seq::<i32>::empty(),
    {
        GuardBuilder::new()
    }
}

impl GuardBuilder {
    /// A builder without members.
    pub fn new() -> (r: Self)
        ensures
            r@ == Seq::<i32>::empty(),
    {
        GuardBuilder { priorities: Vec::new() }
    }

    /// The builder with one more member, of priority `priority`.
    pub fn guard(self, priority: i32) -> (r: Self)
        ensures
            r@ == self@.push(priority),
    {
        let mut b = self;
        b.priorities.push(priority);
        b
    }

    /// The set of the members added so far.
    pub fn build(self) -> (r: Guards)
        ensures
            r@ == self@,
    {
        Guards::new(self.priorities)
    }
}

} // verus!
