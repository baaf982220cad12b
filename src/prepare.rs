//! The decisions of namespace preparation. The preparer authenticates when a
//! digest is configured, deletes the subtree at the prefix (a missing subtree
//! is fine), then creates each intermediate node from the root down (an
//! existing node is fine). Any other failure aborts.
use vstd::prelude::*;
use crate::error::ServiceError;
use crate::option::BenchOption;
use crate::path::{ancestors, intermediate_paths, views};

verus! {

/// Where preparation stands.
#[derive(Clone, Copy, Debug, PartialEq, Eq, Structural)]
pub enum PrepareStage {
    Authenticating,
    Deleting,
    /// Creating the intermediate node with this index.
    Creating(usize),
    Aborted(ServiceError),
}

/// What preparation asks of the service next.
#[derive(Clone, Copy, Debug, PartialEq, Eq, Structural)]
pub enum PrepareAction {
    /// Apply the configured digest to the session.
    Authenticate,
    /// Delete the whole subtree at the prefix.
    DeleteTree,
    /// Create the intermediate node with this index, empty and persistent.
    CreateNode(usize),
    /// Preparation succeeded.
    Done,
    /// Preparation failed with this error.
    Abort(ServiceError),
}

/// The stage preparation starts in.
pub open spec fn first_stage(has_digest: bool) -> PrepareStage {
    if has_digest {
        PrepareStage::Authenticating
    } else {
        PrepareStage::Deleting
    }
}

/// The action asked for in `stage`, with `n` intermediate nodes.
pub open spec fn stage_action(stage: PrepareStage, n: nat) -> PrepareAction {
    match stage {
        PrepareStage::Authenticating => PrepareAction::Authenticate,
        PrepareStage::Deleting => PrepareAction::DeleteTree,
        PrepareStage::Creating(k) => if k < n {
            PrepareAction::CreateNode(k)
        } else {
            PrepareAction::Done
        },
        PrepareStage::Aborted(e) => PrepareAction::Abort(e),
    }
}

/// The stage after the action of `stage` had result `r`.
pub open spec fn stage_after(stage: PrepareStage, n: nat, r: Result<(), ServiceError>) -> PrepareStage {
    match stage {
        PrepareStage::Authenticating => match r {
            Ok(_) => PrepareStage::Deleting,
            Err(e) => PrepareStage::Aborted(e),
        },
        PrepareStage::Deleting => match r {
            Ok(_) => PrepareStage::Creating(0),
            Err(ServiceError::NoNode) => PrepareStage::Creating(0),
            Err(e) => PrepareStage::Aborted(e),
        },
        PrepareStage::Creating(k) => if k >= n {
            stage
        } else {
            match r {
                Ok(_) => PrepareStage::Creating((k + 1) as usize),
                Err(ServiceError::NodeExists) => PrepareStage::Creating((k + 1) as usize),
                Err(e) => PrepareStage::Aborted(e),
            }
        },
        PrepareStage::Aborted(_) => stage,
    }
}

/// The actions asked for from `stage` on, given the results of each.
pub open spec fn run_actions(stage: PrepareStage, n: nat, results: Seq<Result<(), ServiceError>>) -> Seq<
    PrepareAction,
>
    decreases results.len(),
{
    if results.len() == 0 {
        seq![stage_action(stage, n)]
    } else {
        seq![stage_action(stage, n)] + run_actions(
            stage_after(stage, n, results[0]),
            n,
            results.drop_first(),
        )
    }
}

/// How many steps remain before preparation is done, when nothing fails.
pub open spec fn remaining(stage: PrepareStage, n: nat) -> nat {
    match stage {
        PrepareStage::Authenticating => n + 2,
        PrepareStage::Deleting => n + 1,
        PrepareStage::Creating(k) => if k < n {
            (n - k) as nat
        } else {
            0
        },
        PrepareStage::Aborted(_) => 0,
    }
}

/// The actions of a preparation from `stage` on when nothing fails.
pub open spec fn planned(stage: PrepareStage, n: nat) -> Seq<PrepareAction>
    decreases remaining(stage, n),
{
    match stage {
        PrepareStage::Authenticating => seq![PrepareAction::Authenticate] + planned(
            PrepareStage::Deleting,
            n,
        ),
        PrepareStage::Deleting => seq![PrepareAction::DeleteTree] + planned(
            PrepareStage::Creating(0),
            n,
        ),
        PrepareStage::Creating(k) => if k < n && k < usize::MAX {
            seq![PrepareAction::CreateNode(k)] + planned(PrepareStage::Creating((k + 1) as usize), n)
        } else {
            seq![PrepareAction::Done]
        },
        PrepareStage::Aborted(e) => seq![PrepareAction::Abort(e)],
    }
}

/// Whether `r` is a result that preparation accepts for action `a`: a missing
/// subtree on delete and an existing node on create count as success.
pub open spec fn tolerated(a: PrepareAction, r: Result<(), ServiceError>) -> bool {
    match a {
        PrepareAction::DeleteTree => r is Ok || r == Err::<(), ServiceError>(ServiceError::NoNode),
        PrepareAction::CreateNode(_) => r is Ok || r == Err::<(), ServiceError>(
            ServiceError::NodeExists,
        ),
        _ => r is Ok,
    }
}

/// What a preparer holds.
pub struct PreparerView {
    pub digest: Option<Seq<char>>,
    pub prefix: Seq<char>,
    pub paths: Seq<Seq<char>>,
    pub stage: PrepareStage,
}

/// Namespace preparation for one configuration.
pub struct Preparer {
    digest: Option<String>,
    prefix: String,
    paths: Vec<String>,
    stage: PrepareStage,
}

impl View for Preparer {
    type V = PreparerView;

    closed spec fn view(&self) -> PreparerView {
        PreparerView {
            digest: match self.digest {
                Some(d) => Some(d@),
                None => None,
            },
            prefix: self.prefix@,
            paths: views(self.paths@),
            stage: self.stage,
        }
    }
}

impl Preparer {
    /// The preparer for `opt`: it deletes the subtree at the prefix and
    /// creates the ancestors of the item template's last segment.
    pub fn new(opt: &BenchOption) -> (r: Preparer)
        ensures
            r@.digest == opt@.digest,
            r@.prefix == opt@.prefix,
            r@.paths == ancestors(opt@.node_path_template),
            r@.stage == first_stage(opt@.digest is Some),
    {
        let digest = match opt.digest() {
            Some(d) => Some(String::from_str(d)),
            None => None,
        };
        let stage = if digest.is_some() {
            PrepareStage::Authenticating
        } else {
            PrepareStage::Deleting
        };
        Preparer {
            digest,
            prefix: String::from_str(opt.prefix()),
            paths: intermediate_paths(opt.node_path_template()),
            stage,
        }
    }

    /// What to ask of the service next.
    pub fn action(&self) -> (r: PrepareAction)
        ensures
            r == stage_action(self@.stage, self@.paths.len()),
    {
        match self.stage {
            PrepareStage::Authenticating => PrepareAction::Authenticate,
            PrepareStage::Deleting => PrepareAction::DeleteTree,
            PrepareStage::Creating(k) => if k < self.paths.len() {
                PrepareAction::CreateNode(k)
            } else {
                PrepareAction::Done
            },
            PrepareStage::Aborted(e) => PrepareAction::Abort(e),
        }
    }

    /// Records the result of the action last asked for.
    pub fn record(&mut self, r: Result<(), ServiceError>)
        ensures
            final(self)@ == (PreparerView {
                stage: stage_after(old(self)@.stage, old(self)@.paths.len(), r),
                ..old(self)@
            }),
    {
        let n = self.paths.len();
        self.stage = match self.stage {
            PrepareStage::Authenticating => match r {
                Ok(_) => PrepareStage::Deleting,
                Err(e) => PrepareStage::Aborted(e),
            },
            PrepareStage::Deleting => match r {
                Ok(_) => PrepareStage::Creating(0),
                Err(ServiceError::NoNode) => PrepareStage::Creating(0),
                Err(e) => PrepareStage::Aborted(e),
            },
            PrepareStage::Creating(k) => if k >= n {
                PrepareStage::Creating(k)
            } else {
                match r {
                    Ok(_) => PrepareStage::Creating(k + 1),
                    Err(ServiceError::NodeExists) => PrepareStage::Creating(k + 1),
                    Err(e) => PrepareStage::Aborted(e),
                }
            },
            PrepareStage::Aborted(e) => PrepareStage::Aborted(e),
        };
    }

    /// The digest to authenticate with, if one is configured.
    pub fn digest(&self) -> (r: Option<&str>)
        ensures
            r matches Some(d) ==> self@.digest == Some(d@),
            r is None ==> self@.digest is None,
    {
        match &self.digest {
            Some(d) => Some(d.as_str()),
            None => None,
        }
    }

    /// The root of the subtree that preparation deletes.
    pub fn prefix(&self) -> (r: &str)
        ensures
            r@ == self@.prefix,
    {
        self.prefix.as_str()
    }

    /// The intermediate node with index `k`, if there is one.
    pub fn path(&self, k: usize) -> (r: Option<&str>)
        ensures
            r is Some <==> k < self@.paths.len(),
            r matches Some(p) ==> p@ == self@.paths[k as int],
    {
        if k < self.paths.len() {
            Some(self.paths[k].as_str())
        } else {
            None
        }
    }
}

proof fn lemma_tolerant_run(stage: PrepareStage, n: nat, results: Seq<Result<(), ServiceError>>)
    requires
        !(stage is Aborted),
        stage matches PrepareStage::Creating(k) ==> k <= n,
        n < usize::MAX,
        results.len() + 1 == planned(stage, n).len(),
        forall|i: int|
            0 <= i < results.len() ==> tolerated(#[trigger] planned(stage, n)[i], results[i]),
    ensures
        run_actions(stage, n, results) == planned(stage, n),
    decreases remaining(stage, n),
{
    let p = planned(stage, n);
    if results.len() == 0 {
        match stage {
            PrepareStage::Creating(k) => {
                if k < n {
                    assert(p.len() >= 1 + planned(PrepareStage::Creating((k + 1) as usize), n).len());
                }
            },
            _ => {},
        }
        assert(run_actions(stage, n, results) =~= p);
    } else {
        assert(tolerated(p[0], results[0]));
        let next = stage_after(stage, n, results[0]);
        let rest = results.drop_first();
        let q = planned(next, n);
        match stage {
            PrepareStage::Creating(k) => {
                if k >= n {
                    assert(p.len() == 1);
                }
            },
            _ => {},
        }
        assert(p == seq![stage_action(stage, n)] + q);
        assert forall|i: int| 0 <= i < rest.len() implies tolerated(#[trigger] q[i], rest[i]) by {
            assert(q[i] == p[i + 1]);
            assert(rest[i] == results[i + 1]);
        }
        lemma_tolerant_run(next, n, rest);
        assert(run_actions(stage, n, results) =~= p);
    }
}

/// Whether `q` is the node `p` or lies below it.
pub open spec fn in_subtree(q: Seq<char>, p: Seq<char>) -> bool {
    q == p || (p.len() < q.len() && q.take(p.len() as int) == p && q[p.len() as int] == '/')
}

/// A namespace, as the set of its node paths, without the subtree at `p`.
pub open spec fn without_subtree(ns: Set<Seq<char>>, p: Seq<char>) -> Set<Seq<char>> {
    ns.filter(|q: Seq<char>| !in_subtree(q, p))
}

/// The paths `paths[k..]`, as a set.
pub open spec fn paths_from(paths: Seq<Seq<char>>, k: int) -> Set<Seq<char>> {
    Set::new(|q: Seq<char>| exists|j: int| k <= j < paths.len() && paths[j] == q)
}

/// The namespace after action `a`, for a service that does what it is asked.
pub open spec fn apply_action(
    ns: Set<Seq<char>>,
    a: PrepareAction,
    prefix: Seq<char>,
    paths: Seq<Seq<char>>,
) -> Set<Seq<char>> {
    match a {
        PrepareAction::DeleteTree => without_subtree(ns, prefix),
        PrepareAction::CreateNode(k) => if k < paths.len() {
            ns.insert(paths[k as int])
        } else {
            ns
        },
        _ => ns,
    }
}

/// The namespace after the given actions, in order.
pub open spec fn apply_actions(
    ns: Set<Seq<char>>,
    actions: Seq<PrepareAction>,
    prefix: Seq<char>,
    paths: Seq<Seq<char>>,
) -> Set<Seq<char>>
    decreases actions.len(),
{
    if actions.len() == 0 {
        ns
    } else {
        apply_actions(
            apply_action(ns, actions[0], prefix, paths),
            actions.drop_first(),
            prefix,
            paths,
        )
    }
}

/// The namespace a successful preparation leaves: the subtree at the prefix
/// gone, every intermediate node present.
pub open spec fn prepared_namespace(
    ns: Set<Seq<char>>,
    prefix: Seq<char>,
    paths: Seq<Seq<char>>,
) -> Set<Seq<char>> {
    without_subtree(ns, prefix).union(paths_from(paths, 0))
}

proof fn lemma_apply_planned(
    ns: Set<Seq<char>>,
    stage: PrepareStage,
    prefix: Seq<char>,
    paths: Seq<Seq<char>>,
)
    requires
        !(stage is Aborted),
        stage matches PrepareStage::Creating(k) ==> k <= paths.len(),
        paths.len() < usize::MAX,
    ensures
        apply_actions(ns, planned(stage, paths.len()), prefix, paths) == match stage {
            PrepareStage::Creating(k) => ns.union(paths_from(paths, k as int)),
            _ => prepared_namespace(ns, prefix, paths),
        },
    decreases remaining(stage, paths.len()),
{
    let n = paths.len();
    let p = planned(stage, n);
    match stage {
        PrepareStage::Authenticating => {
            let q = planned(PrepareStage::Deleting, n);
            assert(p.drop_first() =~= q);
            lemma_apply_planned(ns, PrepareStage::Deleting, prefix, paths);
        },
        PrepareStage::Deleting => {
            let q = planned(PrepareStage::Creating(0), n);
            assert(p.drop_first() =~= q);
            lemma_apply_planned(without_subtree(ns, prefix), PrepareStage::Creating(0), prefix, paths);
        },
        PrepareStage::Creating(k) => {
            if k < n {
                let q = planned(PrepareStage::Creating((k + 1) as usize), n);
                assert(p.drop_first() =~= q);
                let ns2 = ns.insert(paths[k as int]);
                lemma_apply_planned(ns2, PrepareStage::Creating((k + 1) as usize), prefix, paths);
                assert(ns2.union(paths_from(paths, k + 1)) =~= ns.union(paths_from(paths, k as int)))
                    by {
                    assert forall|x: Seq<char>| #[trigger] paths_from(paths, k as int).contains(x)
                        implies ns2.union(paths_from(paths, k + 1)).contains(x) by {
                        let j = choose|j: int| k <= j < paths.len() && paths[j] == x;
                        if j > k {
                            assert(paths_from(paths, k + 1).contains(x));
                        }
                    }
                    assert(paths_from(paths, k as int).contains(paths[k as int]));
                    assert forall|x: Seq<char>| #[trigger] paths_from(paths, k + 1).contains(x)
                        implies paths_from(paths, k as int).contains(x) by {
                        let j = choose|j: int| k + 1 <= j < paths.len() && paths[j] == x;
                        assert(k <= j);
                    }
                }
            } else {
                assert(paths_from(paths, k as int) =~= Set::empty());
                assert(ns.union(paths_from(paths, k as int)) =~= ns);
                assert(apply_actions(ns, p, prefix, paths) == apply_actions(
                    ns,
                    p.drop_first(),
                    prefix,
                    paths,
                ));
            }
        },
        _ => {},
    }
}

proof fn lemma_prepared_twice(ns: Set<Seq<char>>, prefix: Seq<char>, paths: Seq<Seq<char>>)
    ensures
        prepared_namespace(prepared_namespace(ns, prefix, paths), prefix, paths)
            == prepared_namespace(ns, prefix, paths),
{
    let once = prepared_namespace(ns, prefix, paths);
    assert(prepared_namespace(once, prefix, paths) =~= once);
}

/// Preparation can be repeated: from a fresh preparer, any two runs in which
/// the service reports success, a missing subtree on delete or an existing
/// node on create, ask for the same actions and both end in `Done`. Those
/// actions take any namespace `ns` to the prepared one, and preparing that
/// again leaves it as it is. So running it again right after a run succeeds
/// and leaves the same namespace.
pub proof fn lemma_idempotent_preparation(
    p: PreparerView,
    first: Seq<Result<(), ServiceError>>,
    second: Seq<Result<(), ServiceError>>,
    ns: Set<Seq<char>>,
)
    requires
        p.stage == first_stage(p.digest is Some),
        p.paths.len() < usize::MAX,
        first.len() + 1 == planned(p.stage, p.paths.len()).len(),
        second.len() + 1 == planned(p.stage, p.paths.len()).len(),
        forall|i: int|
            0 <= i < first.len() ==> tolerated(
                #[trigger] planned(p.stage, p.paths.len())[i],
                first[i],
            ),
        forall|i: int|
            0 <= i < second.len() ==> tolerated(
                #[trigger] planned(p.stage, p.paths.len())[i],
                second[i],
            ),
    ensures
        run_actions(p.stage, p.paths.len(), first) == run_actions(
            p.stage,
            p.paths.len(),
            second,
        ),
        run_actions(p.stage, p.paths.len(), first).last() == PrepareAction::Done,
        apply_actions(ns, run_actions(p.stage, p.paths.len(), first), p.prefix, p.paths)
            == prepared_namespace(ns, p.prefix, p.paths),
        prepared_namespace(prepared_namespace(ns, p.prefix, p.paths), p.prefix, p.paths)
            == prepared_namespace(ns, p.prefix, p.paths),
{
    lemma_apply_planned(ns, p.stage, p.prefix, p.paths);
    lemma_prepared_twice(ns, p.prefix, p.paths);
    lemma_tolerant_run(p.stage, p.paths.len(), first);
    lemma_tolerant_run(p.stage, p.paths.len(), second);
    lemma_planned_ends_done(p.stage, p.paths.len());
}

proof fn lemma_planned_ends_done(stage: PrepareStage, n: nat)
    requires
        !(stage is Aborted),
        n < usize::MAX,
    ensures
        planned(stage, n).last() == PrepareAction::Done,
    decreases remaining(stage, n),
{
    match stage {
        PrepareStage::Authenticating => lemma_planned_ends_done(PrepareStage::Deleting, n),
        PrepareStage::Deleting => lemma_planned_ends_done(PrepareStage::Creating(0), n),
        PrepareStage::Creating(k) => {
            if k < n {
                lemma_planned_ends_done(PrepareStage::Creating((k + 1) as usize), n);
            }
        },
        _ => {},
    }
}

} // verus!
