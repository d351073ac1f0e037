use vstd::prelude::*;

use crate::candidate::{CandidateModel, SpawnCandidate};
use crate::locator::{copy_bytes, Attempt, AttemptModel};

verus! {

/// Where resolution stands: the plan, the attempt currently being tried,
/// whether its artifact has been confirmed, the host-resolved path of that
/// artifact (for attempts that demand resolution), and whether a spawn has
/// succeeded.
#[verifier::ext_equal]
pub struct ResolverModel {
    pub plan: Seq<AttemptModel>,
    pub idx: int,
    pub confirmed: bool,
    pub resolved_path: Option<Seq<u8>>,
    pub resolved: bool,
}

pub open spec fn resolver_wf(m: ResolverModel) -> bool {
    &&& 0 <= m.idx <= m.plan.len()
    &&& (m.resolved ==> m.idx < m.plan.len())
    &&& (m.confirmed ==> m.idx < m.plan.len())
}

/// A resolver that has tried nothing yet.
pub open spec fn fresh_resolver(plan: Seq<AttemptModel>) -> ResolverModel {
    ResolverModel { plan, idx: 0, confirmed: false, resolved_path: None, resolved: false }
}

/// What the driver must do next. Probing and spawning are interleaved: a
/// located artifact may still fail to spawn, and the search must then fall
/// through to the next strategy.
#[derive(Clone, Copy, PartialEq, Eq, Structural, Debug)]
pub enum Action {
    /// Check whether the artifact of the attempt at this position exists.
    Probe(usize),
    /// Resolve the artifact of the attempt at this position to its canonical
    /// absolute path — or report that it is missing or unresolvable.
    Resolve(usize),
    /// Try to spawn the candidate of the attempt at this position, as
    /// `to_spawn` hands it out.
    Spawn(usize),
    /// Resolution succeeded with the attempt at this position.
    Done(usize),
    /// Every strategy is exhausted: resolution failed.
    GiveUp,
}

pub open spec fn next_action_of(m: ResolverModel) -> Action {
    if m.resolved {
        Action::Done(m.idx as usize)
    } else if m.idx >= m.plan.len() {
        Action::GiveUp
    } else if m.plan[m.idx].check is Some && !m.confirmed {
        if m.plan[m.idx].resolve {
            Action::Resolve(m.idx as usize)
        } else {
            Action::Probe(m.idx as usize)
        }
    } else {
        Action::Spawn(m.idx as usize)
    }
}

/// How the answer to a probe advances resolution: a present artifact is
/// confirmed, a missing one sends the search to the next strategy.
pub open spec fn artifact_step(m: ResolverModel, present: bool) -> ResolverModel {
    if present {
        ResolverModel { confirmed: true, ..m }
    } else {
        ResolverModel { idx: m.idx + 1, confirmed: false, resolved_path: None, ..m }
    }
}

/// How the answer to a resolution request advances the search: a resolved
/// path confirms the artifact and is kept for the spawn; a missing or
/// unresolvable artifact sends the search to the next strategy.
pub open spec fn resolve_step(m: ResolverModel, r: Option<Seq<u8>>) -> ResolverModel {
    match r {
        Some(p) => ResolverModel { confirmed: true, resolved_path: Some(p), ..m },
        None => ResolverModel { idx: m.idx + 1, confirmed: false, resolved_path: None, ..m },
    }
}

/// How a spawn outcome advances resolution: success resolves with the current
/// strategy, failure is swallowed and the search moves on.
pub open spec fn spawn_step(m: ResolverModel, ok: bool) -> ResolverModel {
    if ok {
        ResolverModel { resolved: true, ..m }
    } else {
        ResolverModel { idx: m.idx + 1, confirmed: false, resolved_path: None, ..m }
    }
}

/// The candidate the pending spawn must run: the attempt's own candidate,
/// with the host-resolved path appended as the final argument where the
/// attempt demanded resolution.
pub open spec fn candidate_to_spawn(m: ResolverModel) -> CandidateModel {
    let a = m.plan[m.idx];
    match m.resolved_path {
        Some(p) => if a.resolve {
            CandidateModel { program: a.candidate.program, args: a.candidate.args.push(p) }
        } else {
            a.candidate
        },
        None => a.candidate,
    }
}

/// Drives the resolution search. The host asks for the next action, performs
/// the one existence check, path resolution or spawn it names, and reports
/// the outcome; the resolver decides everything else. Strategies are tried
/// strictly in plan order, and no strategy is touched once an earlier one has
/// resolved.
pub struct Resolver {
    plan: Vec<Attempt>,
    idx: usize,
    confirmed: bool,
    resolved_path: Option<Vec<u8>>,
    resolved: bool,
}

impl View for Resolver {
    type V = ResolverModel;

    closed spec fn view(&self) -> ResolverModel {
        ResolverModel {
            plan: self.plan.deep_view(),
            idx: self.idx as int,
            confirmed: self.confirmed,
            resolved_path: match self.resolved_path {
                Some(p) => Some(p@),
                None => None,
            },
            resolved: self.resolved,
        }
    }
}

impl Resolver {
    pub fn new(plan: Vec<Attempt>) -> (r: Resolver)
        ensures
            r@ == fresh_resolver(plan.deep_view()),
            resolver_wf(r@),
    {
        Resolver { plan, idx: 0, confirmed: false, resolved_path: None, resolved: false }
    }

    /// The attempt at a position, for the host to probe, resolve or report
    /// on.
    pub fn attempt(&self, i: usize) -> (a: &Attempt)
        requires
            i < self@.plan.len(),
        ensures
            a.deep_view() == self@.plan[i as int],
    {
        &self.plan[i]
    }

    pub fn next_action(&self) -> (act: Action)
        requires
            resolver_wf(self@),
        ensures
            act == next_action_of(self@),
    {
        if self.resolved {
            Action::Done(self.idx)
        } else if self.idx >= self.plan.len() {
            Action::GiveUp
        } else {
            let a = &self.plan[self.idx];
            let has_check = match &a.check {
                Some(_) => true,
                None => false,
            };
            proof {
                assert(has_check == self@.plan[self.idx as int].check is Some);
                assert(a.resolve == self@.plan[self.idx as int].resolve);
            }
            if has_check && !self.confirmed {
                if a.resolve {
                    Action::Resolve(self.idx)
                } else {
                    Action::Probe(self.idx)
                }
            } else {
                Action::Spawn(self.idx)
            }
        }
    }

    /// The host reports whether the artifact named by the pending probe
    /// exists.
    pub fn note_artifact(&mut self, present: bool)
        requires
            resolver_wf(old(self)@),
            next_action_of(old(self)@) matches Action::Probe(_),
        ensures
            final(self)@ == artifact_step(old(self)@, present),
            resolver_wf(final(self)@),
    {
        let n = self.plan.len();
        proof {
            assert(old(self)@.idx < old(self)@.plan.len());
            assert(self.plan.deep_view().len() == n as int);
        }
        if present {
            self.confirmed = true;
        } else {
            self.idx = self.idx + 1;
            self.confirmed = false;
            self.resolved_path = None;
        }
    }

    /// The host reports the pending resolution request's outcome: the
    /// artifact's canonical absolute path, or nothing when the artifact is
    /// missing or could not be resolved.
    pub fn note_resolved(&mut self, resolved: Option<Vec<u8>>)
        requires
            resolver_wf(old(self)@),
            next_action_of(old(self)@) matches Action::Resolve(_),
        ensures
            final(self)@ == resolve_step(
                old(self)@,
                match resolved {
                    Some(p) => Some(p@),
                    None => None,
                },
            ),
            resolver_wf(final(self)@),
    {
        let n = self.plan.len();
        proof {
            assert(old(self)@.idx < old(self)@.plan.len());
            assert(self.plan.deep_view().len() == n as int);
        }
        match resolved {
            Some(p) => {
                self.confirmed = true;
                self.resolved_path = Some(p);
            },
            None => {
                self.idx = self.idx + 1;
                self.confirmed = false;
                self.resolved_path = None;
            },
        }
    }

    /// The candidate the host must spawn for the pending spawn action: the
    /// attempt's candidate, carrying the host-resolved artifact path as its
    /// final argument where the attempt demanded resolution.
    pub fn to_spawn(&self) -> (c: SpawnCandidate)
        requires
            resolver_wf(self@),
            next_action_of(self@) matches Action::Spawn(_),
        ensures
            c@ == candidate_to_spawn(self@),
    {
        let a = &self.plan[self.idx];
        let program = copy_bytes(&a.candidate.program);
        let mut args: Vec<Vec<u8>> = Vec::new();
        let mut i: usize = 0;
        while i < a.candidate.args.len()
            invariant
                i <= a.candidate.args.len(),
                args.deep_view() == a.candidate.args.deep_view().take(i as int),
            decreases a.candidate.args.len() - i,
        {
            let elem = copy_bytes(&a.candidate.args[i]);
            let ghost pre = args.deep_view();
            let ghost all = a.candidate.args.deep_view();
            proof {
                assert(elem.deep_view() =~= all[i as int]);
            }
            args.push(elem);
            proof {
                assert(args.deep_view() =~~= pre.push(all[i as int]));
                assert(all.take(i as int).push(all[i as int]) =~= all.take(i as int + 1));
            }
            i = i + 1;
        }
        proof {
            assert(a.candidate.args.deep_view().take(a.candidate.args@.len() as int) =~~= a
                .candidate
                .args
                .deep_view());
        }
        match &self.resolved_path {
            Some(p) => {
                if a.resolve {
                    args.push(copy_bytes(p));
                }
            },
            None => {},
        }
        let c = SpawnCandidate { program, args };
        proof {
            assert(c@ =~~= candidate_to_spawn(self@));
        }
        c
    }

    /// The host reports whether the spawn it was told to try succeeded.
    pub fn note_spawn(&mut self, ok: bool)
        requires
            resolver_wf(old(self)@),
            next_action_of(old(self)@) matches Action::Spawn(_),
        ensures
            final(self)@ == spawn_step(old(self)@, ok),
            resolver_wf(final(self)@),
    {
        let n = self.plan.len();
        proof {
            assert(old(self)@.idx < old(self)@.plan.len());
            assert(self.plan.deep_view().len() == n as int);
        }
        if ok {
            self.resolved = true;
        } else {
            self.idx = self.idx + 1;
            self.confirmed = false;
            self.resolved_path = None;
        }
    }
}

/// Whether a strategy would win, by the outcome tables: its artifact exists
/// — and, where demanded, resolves — (when it has one to check) and its
/// candidate spawns.
pub open spec fn attempt_succeeds(a: AttemptModel, present: bool, spawns: bool) -> bool {
    (a.check is Some ==> present) && spawns
}

/// The first strategy at or after position `i` that would win.
pub open spec fn first_success(
    plan: Seq<AttemptModel>,
    present: Seq<bool>,
    spawns: Seq<bool>,
    i: int,
) -> Option<int>
    decreases plan.len() - i,
{
    if i < 0 || i >= plan.len() {
        None
    } else if attempt_succeeds(plan[i], present[i], spawns[i]) {
        Some(i)
    } else {
        first_success(plan, present, spawns, i + 1)
    }
}

/// The resolver driven to its end by a host that answers every probe,
/// resolution request and spawn from fixed outcome tables: `present[i]` says
/// whether attempt i's artifact exists (and resolves, where demanded),
/// `paths[i]` what it resolves to, `spawns[i]` whether its spawn succeeds.
pub open spec fn run_resolution(
    m: ResolverModel,
    present: Seq<bool>,
    paths: Seq<Seq<u8>>,
    spawns: Seq<bool>,
) -> ResolverModel
    decreases m.plan.len() - m.idx, (if m.confirmed { 0int } else { 1int }),
{
    if !resolver_wf(m) || m.resolved || m.idx >= m.plan.len() {
        m
    } else if m.plan[m.idx].check is Some && !m.confirmed {
        if m.plan[m.idx].resolve {
            run_resolution(
                resolve_step(
                    m,
                    if present[m.idx] {
                        Some(paths[m.idx])
                    } else {
                        None
                    },
                ),
                present,
                paths,
                spawns,
            )
        } else {
            run_resolution(artifact_step(m, present[m.idx]), present, paths, spawns)
        }
    } else if spawns[m.idx] {
        spawn_step(m, true)
    } else {
        run_resolution(spawn_step(m, false), present, paths, spawns)
    }
}

/// Law: a failed spawn does not abort resolution — the search moves to the
/// next strategy in the order, with nothing resolved and the plan unchanged,
/// so a later strategy that succeeds is still reached.
pub proof fn lemma_spawn_failure_continues(m: ResolverModel)
    requires
        resolver_wf(m),
        next_action_of(m) matches Action::Spawn(_),
    ensures
        spawn_step(m, false).idx == m.idx + 1,
        !spawn_step(m, false).resolved,
        spawn_step(m, false).plan == m.plan,
        resolver_wf(spawn_step(m, false)),
{
}

/// Law: for an attempt whose artifact the host resolves, a successful
/// resolution leads straight to a spawn whose candidate is the attempt's
/// program with the resolved path as its final argument — the interpreter
/// receives the resolved path, not the checked one.
pub proof fn lemma_resolved_path_is_spawned(m: ResolverModel, p: Seq<u8>)
    requires
        resolver_wf(m),
        next_action_of(m) matches Action::Resolve(_),
    ensures
        ({
            let confirmed = resolve_step(m, Some(p));
            &&& next_action_of(confirmed) matches Action::Spawn(_)
            &&& candidate_to_spawn(confirmed).program == m.plan[m.idx].candidate.program
            &&& candidate_to_spawn(confirmed).args == m.plan[m.idx].candidate.args.push(p)
        }),
{
}

/// Law: resolution resolves exactly on the first strategy, in priority order,
/// whose artifact is present and whose spawn succeeds; the resolver never
/// moves past it, so no later strategy is so much as probed. When no strategy
/// wins, the search ends unresolved only after walking the entire plan.
pub proof fn lemma_resolution_finds_first_success(
    m: ResolverModel,
    present: Seq<bool>,
    paths: Seq<Seq<u8>>,
    spawns: Seq<bool>,
)
    requires
        resolver_wf(m),
        !m.resolved,
        !m.confirmed,
        present.len() == m.plan.len(),
        paths.len() == m.plan.len(),
        spawns.len() == m.plan.len(),
    ensures
        ({
            let end = run_resolution(m, present, paths, spawns);
            &&& end.plan == m.plan
            &&& match first_success(m.plan, present, spawns, m.idx) {
                Some(n) => end.resolved && end.idx == n,
                None => !end.resolved && end.idx == m.plan.len(),
            }
        }),
    decreases m.plan.len() - m.idx,
{
    if m.idx >= m.plan.len() {
    } else {
        let a = m.plan[m.idx];
        if a.check is Some {
            let confirmed = if a.resolve {
                resolve_step(m, Some(paths[m.idx]))
            } else {
                artifact_step(m, true)
            };
            let advanced = if a.resolve {
                resolve_step(m, None)
            } else {
                artifact_step(m, false)
            };
            if present[m.idx] {
                assert(run_resolution(m, present, paths, spawns) == run_resolution(
                    confirmed,
                    present,
                    paths,
                    spawns,
                ));
                if spawns[m.idx] {
                    assert(run_resolution(confirmed, present, paths, spawns) == spawn_step(
                        confirmed,
                        true,
                    ));
                } else {
                    let next = spawn_step(confirmed, false);
                    lemma_resolution_finds_first_success(next, present, paths, spawns);
                }
            } else {
                assert(run_resolution(m, present, paths, spawns) == run_resolution(
                    advanced,
                    present,
                    paths,
                    spawns,
                ));
                lemma_resolution_finds_first_success(advanced, present, paths, spawns);
            }
        } else {
            if spawns[m.idx] {
            } else {
                let next = spawn_step(m, false);
                lemma_resolution_finds_first_success(next, present, paths, spawns);
            }
        }
    }
}

pub proof fn lemma_first_success_reaches(
    plan: Seq<AttemptModel>,
    present: Seq<bool>,
    spawns: Seq<bool>,
    j: int,
    n: int,
)
    requires
        0 <= j <= n < plan.len(),
        attempt_succeeds(plan[n], present[n], spawns[n]),
        forall|i: int|
            j <= i < n ==> !#[trigger] attempt_succeeds(plan[i], present[i], spawns[i]),
    ensures
        first_success(plan, present, spawns, j) == Some(n),
    decreases n - j,
{
    if j < n {
        lemma_first_success_reaches(plan, present, spawns, j + 1, n);
    }
}

/// Law: when exactly one strategy would both find its artifact and spawn it
/// successfully, resolution — started fresh — resolves with precisely that
/// strategy, and never advances beyond it.
pub proof fn lemma_unique_success_is_chosen(
    plan: Seq<AttemptModel>,
    present: Seq<bool>,
    paths: Seq<Seq<u8>>,
    spawns: Seq<bool>,
    n: int,
)
    requires
        present.len() == plan.len(),
        paths.len() == plan.len(),
        spawns.len() == plan.len(),
        0 <= n < plan.len(),
        attempt_succeeds(plan[n], present[n], spawns[n]),
        forall|i: int|
            0 <= i < plan.len() && i != n ==> !#[trigger] attempt_succeeds(
                plan[i],
                present[i],
                spawns[i],
            ),
    ensures
        ({
            let end = run_resolution(fresh_resolver(plan), present, paths, spawns);
            &&& end.resolved
            &&& end.idx == n
            &&& end.plan == plan
        }),
{
    lemma_first_success_reaches(plan, present, spawns, 0, n);
    lemma_resolution_finds_first_success(fresh_resolver(plan), present, paths, spawns);
}

} // verus!
