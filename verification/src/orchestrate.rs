//! The deployment orchestrator's decision core.
//!
//! A run walks a fixed pipeline of stages; the surrounding binary performs
//! each stage's remote work and reports back whether it succeeded.  One
//! container's failure never aborts the others' work, but the run ends
//! failed, reporting every failure, since the final proxy push needs every
//! instance resolved.

use vstd::prelude::*;

use crate::errors::DeployError;

verus! {

/// The stages of one deployment run, in pipeline order; `Failed` is
/// reachable from every live stage, and `Done` and `Failed` are terminal.
#[derive(Debug, PartialEq, Eq, Clone, Copy)]
pub enum RunState {
    Idle,
    EnsuringApplication,
    BuildingImages,
    PushingImages,
    ReconcilingInstances,
    EnsuringIngress,
    ComposingProxyConfig,
    PushingProxyConfig,
    Done,
    Failed,
}

/// What the surrounding binary reports about the stage it just ran.
#[derive(Debug, PartialEq, Eq, Clone, Copy)]
pub enum RunEvent {
    /// Begin the run (meaningful only when idle).
    Start,
    /// The current stage finished; move to the next one.
    StageOk,
    /// The current stage failed; the run is over.
    StageFailed,
}

impl RunState {
    /// A terminal state absorbs every event.
    pub open spec fn is_terminal(self) -> bool {
        self is Done || self is Failed
    }

    /// The stage that follows `self` when its work succeeds.
    pub open spec fn next_on_ok(self) -> RunState {
        match self {
            RunState::Idle => RunState::Idle,
            RunState::EnsuringApplication => RunState::BuildingImages,
            RunState::BuildingImages => RunState::PushingImages,
            RunState::PushingImages => RunState::ReconcilingInstances,
            RunState::ReconcilingInstances => RunState::EnsuringIngress,
            RunState::EnsuringIngress => RunState::ComposingProxyConfig,
            RunState::ComposingProxyConfig => RunState::PushingProxyConfig,
            RunState::PushingProxyConfig => RunState::Done,
            RunState::Done => RunState::Done,
            RunState::Failed => RunState::Failed,
        }
    }

    /// The full transition relation of a run.
    pub open spec fn next_state(self, ev: RunEvent) -> RunState {
        if self.is_terminal() {
            self
        } else {
            match ev {
                RunEvent::Start => if self is Idle {
                    RunState::EnsuringApplication
                } else {
                    self
                },
                RunEvent::StageOk => self.next_on_ok(),
                RunEvent::StageFailed => RunState::Failed,
            }
        }
    }

    /// Advances the run by one reported event: the pipeline moves in
    /// declaration order on success, fails from any live stage, and never
    /// leaves a terminal state.
    pub fn advance(self, ev: RunEvent) -> (r: RunState)
        ensures
            r == self.next_state(ev),
    {
        if self.is_finished() {
            return self;
        }
        match ev {
            RunEvent::Start => {
                if let RunState::Idle = self {
                    RunState::EnsuringApplication
                } else {
                    self
                }
            },
            RunEvent::StageOk => {
                match self {
                    RunState::Idle => RunState::Idle,
                    RunState::EnsuringApplication => RunState::BuildingImages,
                    RunState::BuildingImages => RunState::PushingImages,
                    RunState::PushingImages => RunState::ReconcilingInstances,
                    RunState::ReconcilingInstances => RunState::EnsuringIngress,
                    RunState::EnsuringIngress => RunState::ComposingProxyConfig,
                    RunState::ComposingProxyConfig => RunState::PushingProxyConfig,
                    RunState::PushingProxyConfig => RunState::Done,
                    RunState::Done => RunState::Done,
                    RunState::Failed => RunState::Failed,
                }
            },
            RunEvent::StageFailed => RunState::Failed,
        }
    }

    /// Whether the run is over.
    pub fn is_finished(self) -> (r: bool)
        ensures
            r == self.is_terminal(),
    {
        match self {
            RunState::Done => true,
            RunState::Failed => true,
            _ => false,
        }
    }
}

/// A run that only ever succeeds its stages walks the whole pipeline:
/// from idle, a start and seven stage completions end in `Done`, and
/// nowhere earlier.
pub proof fn lemma_pipeline_order()
    ensures
        RunState::Idle.next_state(RunEvent::Start) == RunState::EnsuringApplication,
        RunState::EnsuringApplication.next_state(RunEvent::StageOk) == RunState::BuildingImages,
        RunState::BuildingImages.next_state(RunEvent::StageOk) == RunState::PushingImages,
        RunState::PushingImages.next_state(RunEvent::StageOk) == RunState::ReconcilingInstances,
        RunState::ReconcilingInstances.next_state(RunEvent::StageOk) == RunState::EnsuringIngress,
        RunState::EnsuringIngress.next_state(RunEvent::StageOk) == RunState::ComposingProxyConfig,
        RunState::ComposingProxyConfig.next_state(RunEvent::StageOk)
            == RunState::PushingProxyConfig,
        RunState::PushingProxyConfig.next_state(RunEvent::StageOk) == RunState::Done,
        forall|s: RunState| !s.is_terminal() ==> s.next_state(RunEvent::StageFailed)
            == RunState::Failed,
        forall|s: RunState, ev: RunEvent| s.is_terminal() ==> #[trigger] s.next_state(ev) == s,
{
}

/// The successes of a batch of per-container outcomes, in batch order.
pub open spec fn oks_of<T>(rs: Seq<Result<T, DeployError>>) -> Seq<T>
    decreases rs,
{
    if rs.len() == 0 {
        Seq::empty()
    } else {
        (match rs[0] {
            Ok(t) => seq![t],
            Err(_) => Seq::empty(),
        }) + oks_of(rs.drop_first())
    }
}

/// The failures of a batch of per-container outcomes, in batch order.
pub open spec fn errs_of<T>(rs: Seq<Result<T, DeployError>>) -> Seq<DeployError>
    decreases rs,
{
    if rs.len() == 0 {
        Seq::empty()
    } else {
        (match rs[0] {
            Ok(_) => Seq::empty(),
            Err(e) => seq![e],
        }) + errs_of(rs.drop_first())
    }
}

pub proof fn lemma_oks_of_push<T>(rs: Seq<Result<T, DeployError>>, r: Result<T, DeployError>)
    ensures
        oks_of(rs.push(r)) == oks_of(rs) + (match r {
            Ok(t) => seq![t],
            Err(_) => Seq::<T>::empty(),
        }),
        errs_of(rs.push(r)) == errs_of(rs) + (match r {
            Ok(_) => Seq::<DeployError>::empty(),
            Err(e) => seq![e],
        }),
    decreases rs.len(),
{
    let s = rs.push(r);
    let otl = match r {
        Ok(t) => seq![t],
        Err(_) => Seq::<T>::empty(),
    };
    let etl = match r {
        Ok(_) => Seq::<DeployError>::empty(),
        Err(e) => seq![e],
    };
    if rs.len() == 0 {
        assert(s[0] == r);
        assert(s.drop_first() =~= Seq::<Result<T, DeployError>>::empty());
        assert(oks_of(s.drop_first()) =~= Seq::<T>::empty());
        assert(errs_of(s.drop_first()) =~= Seq::<DeployError>::empty());
        assert(oks_of(rs) =~= Seq::<T>::empty());
        assert(errs_of(rs) =~= Seq::<DeployError>::empty());
        assert(oks_of(s) =~= oks_of(rs) + otl);
        assert(errs_of(s) =~= errs_of(rs) + etl);
    } else {
        assert(s.drop_first() =~= rs.drop_first().push(r));
        lemma_oks_of_push(rs.drop_first(), r);
        assert(s[0] == rs[0]);
        let ohd = match rs[0] {
            Ok(t) => seq![t],
            Err(_) => Seq::<T>::empty(),
        };
        let ehd = match rs[0] {
            Ok(_) => Seq::<DeployError>::empty(),
            Err(e) => seq![e],
        };
        assert(oks_of(s) == ohd + oks_of(s.drop_first()));
        assert(oks_of(s.drop_first()) == oks_of(rs.drop_first()) + otl);
        assert(oks_of(rs) == ohd + oks_of(rs.drop_first()));
        assert(ohd + (oks_of(rs.drop_first()) + otl) =~= (ohd + oks_of(rs.drop_first())) + otl);
        assert(errs_of(s) == ehd + errs_of(s.drop_first()));
        assert(errs_of(s.drop_first()) == errs_of(rs.drop_first()) + etl);
        assert(errs_of(rs) == ehd + errs_of(rs.drop_first()));
        assert(ehd + (errs_of(rs.drop_first()) + etl) =~= (ehd + errs_of(rs.drop_first())) + etl);
    }
}

/// Joins a batch of mutually independent per-container outcomes: all of
/// them succeeded exactly when the run may push the proxy configuration,
/// and otherwise every failure is reported, none swallowed.
pub fn collect_batch<T>(results: Vec<Result<T, DeployError>>) -> (r: Result<
    Vec<T>,
    Vec<DeployError>,
>)
    ensures
        match r {
            Ok(ts) => errs_of(results@).len() == 0 && ts@ == oks_of(results@) && ts@.len()
                == results@.len(),
            Err(es) => es@.len() > 0 && es@ == errs_of(results@),
        },
{
    let ghost all = results@;
    let mut rest = results;
    let mut oks: Vec<T> = Vec::new();
    let mut errs: Vec<DeployError> = Vec::new();
    let ghost mut done: Seq<Result<T, DeployError>> = Seq::empty();
    proof {
        assert(oks@ =~= oks_of(done));
        assert(errs@ =~= errs_of(done));
        assert(done + rest@ =~= all);
    }
    while rest.len() > 0
        invariant
            done + rest@ == all,
            done.len() + rest@.len() == all.len(),
            oks@ == oks_of(done),
            errs@ == errs_of(done),
            oks@.len() + errs@.len() == done.len(),
        decreases rest.len(),
    {
        let r = rest.remove(0);
        let ghost rg = r;
        proof {
            assert(all[done.len() as int] == rg);
            lemma_oks_of_push(done, rg);
        }
        match r {
            Ok(t) => {
                oks.push(t);
            },
            Err(e) => {
                errs.push(e);
            },
        }
        proof {
            assert(done.push(rg) + rest@ =~= all);
            assert(oks_of(done) + (match rg {
                Ok(t) => seq![t],
                Err(_) => Seq::<T>::empty(),
            }) =~= oks_of(done.push(rg)));
            assert(errs_of(done) + (match rg {
                Ok(_) => Seq::<DeployError>::empty(),
                Err(e) => seq![e],
            }) =~= errs_of(done.push(rg)));
            done = done.push(rg);
        }
    }
    proof {
        assert(rest@ =~= Seq::<Result<T, DeployError>>::empty());
        assert(done =~= all);
    }
    if errs.len() == 0 {
        Ok(oks)
    } else {
        Err(errs)
    }
}

/// The verdict of one bounded readiness poll.
#[derive(Debug, PartialEq, Eq, Clone, Copy)]
pub enum WaitVerdict {
    /// The instance reported ready.
    Ready,
    /// Not ready yet; poll again with this much budget left.
    Retry(u32),
    /// The budget ran out before the instance was ready: a distinct
    /// timeout outcome, never an endless wait.
    TimedOut,
}

/// One step of a bounded readiness wait: ready wins, an exhausted budget
/// times out, and otherwise the remaining budget strictly shrinks.
pub fn wait_step(ready: bool, remaining: u32) -> (r: WaitVerdict)
    ensures
        ready ==> r == WaitVerdict::Ready,
        !ready && remaining == 0 ==> r == WaitVerdict::TimedOut,
        !ready && remaining > 0 ==> r == WaitVerdict::Retry((remaining - 1) as u32),
{
    if ready {
        WaitVerdict::Ready
    } else if remaining == 0 {
        WaitVerdict::TimedOut
    } else {
        WaitVerdict::Retry(remaining - 1)
    }
}


/// The one-line announcement a run opens with: the first ids, and `more`
/// where over three challenges are selected.
pub open spec fn announcement_model(action: Seq<char>, ids: Seq<Seq<char>>) -> Seq<char>
    recommends
        ids.len() > 0,
{
    if ids.len() == 1 {
        action + ids[0]
    } else if ids.len() == 2 {
        action + ids[0] + " and "@ + ids[1]
    } else {
        action + ids[0] + ", "@ + ids[1] + " and "@ + (if ids.len() > 3 {
            "more"@
        } else {
            ids[2]
        })
    }
}

/// Builds the run's opening announcement.
pub fn announcement(action: &str, ids: &Vec<String>) -> (r: String)
    requires
        ids@.len() > 0,
    ensures
        r@ == announcement_model(action@, crate::seq_view(ids@)),
{
    let ghost iv = crate::seq_view(ids@);
    let mut out: Vec<char> = Vec::new();
    crate::text::push_chars(&mut out, action);
    crate::text::push_chars(&mut out, ids[0].as_str());
    if ids.len() == 2 {
        crate::text::push_chars(&mut out, " and ");
        crate::text::push_chars(&mut out, ids[1].as_str());
    } else if ids.len() > 2 {
        crate::text::push_chars(&mut out, ", ");
        crate::text::push_chars(&mut out, ids[1].as_str());
        crate::text::push_chars(&mut out, " and ");
        if ids.len() > 3 {
            crate::text::push_chars(&mut out, "more");
        } else {
            crate::text::push_chars(&mut out, ids[2].as_str());
        }
    }
    proof {
        assert(iv[0] == ids@[0]@);
        if ids@.len() >= 2 {
            assert(iv[1] == ids@[1]@);
        }
        if ids@.len() == 3 {
            assert(iv[2] == ids@[2]@);
        }
        assert(out@ =~= announcement_model(action@, iv));
    }
    crate::text::string_from_chars(&out)
}

} // verus!
