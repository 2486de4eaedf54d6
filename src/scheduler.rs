//! The run loop's scheduler: at most one multi-tick command in flight,
//! polled once per tick; the next instruction waits until it completes.
use vstd::prelude::*;
use crate::command::{apply_spec, replay_spec, Command, CommandResult};
use crate::dispatch::{
    live_unchanged, start_live_spec, start_spec, text_after_spec, update_spec, CommandStartResult, ExecutingCommand, StartableCommand, Started,
    UpdatableCommand,
};
use crate::live::LiveState;
use crate::state::{CommittedState, CommittedView, SE_SLOTS};
use crate::tweener::advance_spec;
use crate::types::ValidationError;

verus! {

/// What happens to a run, seen from outside: an instruction is decoded and
/// executed, or a tick passes.
#[derive(Debug, Clone, Copy, PartialEq, Eq, Structural)]
pub enum Event {
    Execute(Command),
    Tick(u32),
}

/// The committed state after a live run through `events`: an executed command
/// applies its canonical mutation, a tick changes nothing.
pub open spec fn live_committed(s: CommittedView, events: Seq<Event>) -> Result<
    CommittedView,
    ValidationError,
>
    decreases events.len(),
{
    if events.len() == 0 {
        Ok(s)
    } else {
        match live_committed(s, events.drop_last()) {
            Err(e) => Err(e),
            Ok(t) => match events.last() {
                Event::Execute(c) => apply_spec(t, c),
                Event::Tick(_) => Ok(t),
            },
        }
    }
}

/// The commands executed in `events`, in order.
pub open spec fn executed(events: Seq<Event>) -> Seq<Command>
    decreases events.len(),
{
    if events.len() == 0 {
        Seq::empty()
    } else {
        match events.last() {
            Event::Execute(c) => executed(events.drop_last()).push(c),
            Event::Tick(_) => executed(events.drop_last()),
        }
    }
}

/// Replaying only the canonical mutations of the executed commands gives the
/// committed state of the live run, whatever ticks passed in between.
pub proof fn law_fast_forward_matches_live(s: CommittedView, events: Seq<Event>)
    ensures
        live_committed(s, events) == replay_spec(s, executed(events)),
    decreases events.len(),
{
    if events.len() > 0 {
        law_fast_forward_matches_live(s, events.drop_last());
        match events.last() {
            Event::Execute(c) => {
                let p = executed(events.drop_last());
                assert(p.push(c).drop_last() == p);
            },
            Event::Tick(_) => {},
        }
    }
}

/// Ticks of work a running command has left.
pub open spec fn work_left(e: Option<ExecutingCommand>) -> nat {
    match e {
        Some(ExecutingCommand::WAIT { remaining }) => remaining as nat,
        Some(ExecutingCommand::MSGSET { shown, text_len }) => if text_len >= shown {
            (text_len - shown) as nat
        } else {
            0
        },
        None => 0,
    }
}

/// Owns both states and the command in flight.
#[derive(Debug)]
pub struct Scheduler {
    pub committed: CommittedState,
    pub live: LiveState,
    /// The multi-tick command being polled, if any.
    pub executing: Option<ExecutingCommand>,
    /// Set once the run has ended, by EXIT or by an error.
    pub exited: bool,
}

impl Scheduler {
    pub open spec fn wf(&self) -> bool {
        self.committed.wf() && self.live.wf()
    }

    /// A run starting from `committed`, as after a load: presentation state is
    /// rebuilt from it with no animation in flight.
    pub fn from_committed(committed: CommittedState) -> (r: Scheduler)
        requires
            committed.wf(),
        ensures
            r.wf(),
            r.committed@ == committed@,
            r.executing is None,
            !r.exited,
    {
        let live = LiveState::from_committed(&committed);
        Scheduler { committed, live, executing: None, exited: false }
    }

    /// A run from a fresh state.
    pub fn new() -> (r: Scheduler)
        ensures
            r.wf(),
            r.executing is None,
            !r.exited,
    {
        Scheduler::from_committed(CommittedState::new())
    }

    /// Whether a multi-tick command blocks the next instruction.
    pub fn is_busy(&self) -> (r: bool)
        ensures
            r == self.executing is Some,
    {
        self.executing.is_some()
    }

    /// Runs one decoded instruction: its canonical mutation, then its
    /// presentational start. The mutation comes first, so a start that
    /// fails validation leaves it applied; any error ends the run.
    pub fn execute(&mut self, c: Command) -> (r: Result<Started, ValidationError>)
        requires
            old(self).wf(),
            old(self).executing is None,
        ensures
            final(self).wf(),
            match apply_spec(old(self).committed@, c) {
                Err(e) => {
                    &&& r is Err && r->Err_0 == e
                    &&& final(self).committed@ == old(self).committed@
                    &&& live_unchanged(old(self).live, final(self).live)
                    &&& final(self).exited
                    &&& final(self).executing is None
                },
                Ok(t) => {
                    &&& final(self).committed@ == t
                    &&& match start_spec(c) {
                        Err(e) => {
                            &&& r is Err && r->Err_0 == e
                            &&& live_unchanged(old(self).live, final(self).live)
                            &&& final(self).exited
                            &&& final(self).executing is None
                        },
                        Ok(res) => {
                            &&& r matches Ok(st) && st.result == res
                            &&& start_live_spec(
                                c,
                                t,
                                old(self).live,
                                final(self).live,
                                r->Ok_0.warnings@,
                            )
                            &&& final(self).executing == match res {
                                CommandStartResult::Yield(e) => Some(e),
                                _ => None::<ExecutingCommand>,
                            }
                            &&& final(self).exited == (old(self).exited || res
                                is Exit)
                        },
                    }
                },
            },
    {
        if let Err(e) = self.committed.apply(&c) {
            self.exited = true;
            return Err(e);
        }
        match c.start(&self.committed, &mut self.live) {
            Err(e) => {
                self.exited = true;
                Err(e)
            },
            Ok(st) => {
                match st.result {
                    CommandStartResult::Yield(e) => {
                        self.executing = Some(e);
                    },
                    CommandStartResult::Exit => {
                        self.exited = true;
                    },
                    CommandStartResult::Continue(_) => {},
                }
                Ok(st)
            },
        }
    }

    /// One tick: every tweener advances by `delta`, then the command in
    /// flight is polled once. Its result comes back on the tick it completes.
    pub fn tick(&mut self, delta: u32) -> (r: Option<CommandResult>)
        requires
            old(self).wf(),
        ensures
            final(self).wf(),
            final(self).committed@ == old(self).committed@,
            final(self).exited == old(self).exited,
            final(self).live.layer_tweeners@.len() == old(self).live.layer_tweeners@.len(),
            forall|i: int|
                0 <= i < old(self).live.layer_tweeners@.len() ==> (
                #[trigger] final(self).live.layer_tweeners@[i])@ == advance_spec(
                    old(self).live.layer_tweeners@[i]@,
                    delta as nat,
                ),
            forall|i: int|
                0 <= i < SE_SLOTS ==> (#[trigger] final(self).live.se_volume@[i])@ == advance_spec(
                    old(self).live.se_volume@[i]@,
                    delta as nat,
                ),
            forall|i: int|
                0 <= i < SE_SLOTS ==> (#[trigger] final(self).live.se_pan@[i])@ == advance_spec(
                    old(self).live.se_pan@[i]@,
                    delta as nat,
                ),
            final(self).live.text_shown == match old(self).executing {
                Some(e) => text_after_spec(e, old(self).live.text_shown),
                None => old(self).live.text_shown,
            },
            match old(self).executing {
                None => r is None && final(self).executing is None,
                Some(e) => {
                    &&& r == update_spec(e).1
                    &&& final(self).executing == if r is Some {
                        None
                    } else {
                        Some(update_spec(e).0)
                    }
                },
            },
    {
        self.live.advance(delta);
        match self.executing {
            None => None,
            Some(e) => {
                let mut e = e;
                let r = e.update(&mut self.live);
                if r.is_some() {
                    self.executing = None;
                } else {
                    self.executing = Some(e);
                }
                r
            },
        }
    }

    /// Runs `log` live, polling each multi-tick command one tick at a time
    /// until it completes. Returns how many commands ran: all of them, or
    /// fewer if one exited. The committed state is then the one that
    /// replaying those commands gives.
    pub fn run_log(&mut self, log: &Vec<Command>) -> (r: Result<usize, ValidationError>)
        requires
            old(self).wf(),
            old(self).executing is None,
        ensures
            final(self).wf(),
            final(self).executing is None,
            r matches Ok(n) ==> n <= log@.len() && replay_spec(
                old(self).committed@,
                log@.take(n as int),
            ) == Ok::<CommittedView, ValidationError>(final(self).committed@) && (n < log@.len()
                ==> final(self).exited),
            r is Err ==> final(self).exited,
            r is Ok && r->Ok_0 < log@.len() ==> r->Ok_0 > 0 && log@[r->Ok_0 - 1] is EXIT,
            (forall|k: int|
                0 <= k < log@.len() ==> !(#[trigger] log@[k] is EXIT) && start_spec(log@[k])
                    is Ok) && replay_spec(old(self).committed@, log@) is Ok ==> r is Ok && r->Ok_0
                == log@.len(),
    {
        let mut k: usize = 0;
        while k < log.len()
            invariant
                self.wf(),
                self.executing is None,
                k <= log@.len(),
                replay_spec(old(self).committed@, log@.take(k as int)) == Ok::<
                    CommittedView,
                    ValidationError,
                >(self.committed@),
            decreases log@.len() - k,
        {
            assert(log@.take(k as int + 1).drop_last() == log@.take(k as int));
            let st = self.execute(log[k]);
            k = k + 1;
            let exit = match st {
                Err(e) => {
                    return Err(e);
                },
                Ok(st) => matches!(st.result, CommandStartResult::Exit),
            };
            while self.executing.is_some()
                invariant
                    self.wf(),
                    replay_spec(old(self).committed@, log@.take(k as int)) == Ok::<
                        CommittedView,
                        ValidationError,
                    >(self.committed@),
                    exit ==> self.exited,
                    match self.executing {
                        Some(ExecutingCommand::MSGSET { shown, text_len }) => shown < text_len,
                        Some(ExecutingCommand::WAIT { remaining }) => remaining >= 1,
                        None => true,
                    },
                decreases work_left(self.executing),
            {
                self.tick(1);
            }
            if exit {
                return Ok(k);
            }
        }
        Ok(k)
    }
}

} // verus!
