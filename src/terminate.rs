//! Decisions of a shutdown request: ask the process to stop, and force it
//! once the deadline has passed. The caller performs each action and reports
//! what it observed; the decisions never wait on anything themselves.

use vstd::prelude::*;

verus! {

#[derive(Debug, PartialEq, Eq)]
pub enum TerminationError {
    /// The forced kill could not be carried out.
    KillFailed(String),
}

/// The exit code, where the process reported one, or why it could not be
/// stopped.
pub type TerminationResult = Result<Option<i32>, TerminationError>;

#[derive(Debug, PartialEq, Eq)]
pub enum Phase {
    /// A graceful stop was requested; the process is forced at `deadline`.
    Graceful { deadline: u64 },
    /// A forced kill was requested.
    Forcing,
    /// The request is resolved.
    Finished(TerminationResult),
}

/// What the caller observed since the last decision.
#[derive(Debug, PartialEq, Eq)]
pub enum TermEvent {
    /// The process has exited.
    Exited(Option<i32>),
    /// The clock reads this time (in the unit of the deadline).
    Tick(u64),
    /// The forced kill was carried out (with the exit code it reaped), or failed.
    KillDone(Result<Option<i32>, String>),
}

/// What the caller is to do next.
#[derive(Debug, PartialEq, Eq)]
pub enum TermAction {
    SendGraceful,
    /// Wait for an exit, or for the clock to reach this time.
    WaitUntil(u64),
    ForceKill,
    Resolve(TerminationResult),
}

/// `a + b`, or the largest `u64` where that overflows.
pub open spec fn saturating_sum(a: u64, b: u64) -> u64 {
    if a + b > u64::MAX {
        u64::MAX
    } else {
        (a + b) as u64
    }
}

/// The first decision of a request made at `now`, with `grace` to stop on its
/// own: an exited process resolves at once, with its exit code.
pub open spec fn begin_spec(exited: Option<Option<i32>>, now: u64, grace: u64) -> (Phase, TermAction) {
    match exited {
        Some(c) => (Phase::Finished(Ok(c)), TermAction::Resolve(Ok(c))),
        None => (Phase::Graceful { deadline: saturating_sum(now, grace) }, TermAction::SendGraceful),
    }
}

/// The decision that follows `event` in `phase`.
pub open spec fn next_spec(phase: Phase, event: TermEvent) -> (Phase, TermAction) {
    match phase {
        Phase::Finished(res) => (Phase::Finished(res), TermAction::Resolve(res)),
        Phase::Graceful { deadline } => match event {
            TermEvent::Exited(c) => (Phase::Finished(Ok(c)), TermAction::Resolve(Ok(c))),
            TermEvent::Tick(now) => if now >= deadline {
                (Phase::Forcing, TermAction::ForceKill)
            } else {
                (Phase::Graceful { deadline }, TermAction::WaitUntil(deadline))
            },
            TermEvent::KillDone(_) => (Phase::Graceful { deadline }, TermAction::WaitUntil(deadline)),
        },
        Phase::Forcing => match event {
            TermEvent::Exited(c) => (Phase::Finished(Ok(c)), TermAction::Resolve(Ok(c))),
            TermEvent::Tick(_) => (Phase::Forcing, TermAction::ForceKill),
            TermEvent::KillDone(Ok(c)) => (Phase::Finished(Ok(c)), TermAction::Resolve(Ok(c))),
            TermEvent::KillDone(Err(d)) => (
                Phase::Finished(Err(TerminationError::KillFailed(d))),
                TermAction::Resolve(Err(TerminationError::KillFailed(d))),
            ),
        },
    }
}

/// Starts a shutdown request at `now`. `exited` is the exit already observed,
/// if the process has exited.
pub fn begin_terminate(exited: Option<Option<i32>>, now: u64, grace: u64) -> (r: (Phase, TermAction))
    ensures
        r == begin_spec(exited, now, grace),
{
    match exited {
        Some(c) => (Phase::Finished(Ok(c)), TermAction::Resolve(Ok(c))),
        None => (Phase::Graceful { deadline: now.saturating_add(grace) }, TermAction::SendGraceful),
    }
}

/// The next decision, after the caller observed `event`.
pub fn on_event(phase: Phase, event: TermEvent) -> (r: (Phase, TermAction))
    ensures
        r == next_spec(phase, event),
{
    match phase {
        Phase::Finished(res) => {
            let again = copy_result(&res);
            (Phase::Finished(res), TermAction::Resolve(again))
        },
        Phase::Graceful { deadline } => match event {
            TermEvent::Exited(c) => (Phase::Finished(Ok(c)), TermAction::Resolve(Ok(c))),
            TermEvent::Tick(now) => if now >= deadline {
                (Phase::Forcing, TermAction::ForceKill)
            } else {
                (Phase::Graceful { deadline }, TermAction::WaitUntil(deadline))
            },
            TermEvent::KillDone(_) => (Phase::Graceful { deadline }, TermAction::WaitUntil(deadline)),
        },
        Phase::Forcing => match event {
            TermEvent::Exited(c) => (Phase::Finished(Ok(c)), TermAction::Resolve(Ok(c))),
            TermEvent::Tick(_) => (Phase::Forcing, TermAction::ForceKill),
            TermEvent::KillDone(Ok(c)) => (Phase::Finished(Ok(c)), TermAction::Resolve(Ok(c))),
            TermEvent::KillDone(Err(d)) => {
                let again = copy_text(&d);
                (
                    Phase::Finished(Err(TerminationError::KillFailed(d))),
                    TermAction::Resolve(Err(TerminationError::KillFailed(again))),
                )
            },
        },
    }
}

fn copy_text(s: &String) -> (r: String)
    ensures
        r == *s,
{
    let r = s.clone();
    proof {
        assert(r@ == s@);
    }
    r
}

fn copy_result(res: &TerminationResult) -> (r: TerminationResult)
    ensures
        r == *res,
{
    match res {
        Ok(c) => Ok(*c),
        Err(TerminationError::KillFailed(d)) => Err(TerminationError::KillFailed(copy_text(d))),
    }
}

/// Asking to stop a process that has already exited succeeds with its exit
/// code, and asking again, whatever is observed meanwhile, gives that same
/// success. A resolved request stays resolved with the same result.
pub proof fn lemma_terminate_exited_idempotent(
    code: Option<i32>,
    now: u64,
    grace: u64,
    event: TermEvent,
    res: TerminationResult,
)
    ensures
        next_spec(Phase::Finished(res), event) == (Phase::Finished(res), TermAction::Resolve(res)),
        begin_spec(Some(code), now, grace).1 == TermAction::Resolve(Ok(code)),
        next_spec(begin_spec(Some(code), now, grace).0, event)
            == (Phase::Finished(Ok(code)), TermAction::Resolve(Ok(code))),
{
}

/// A process that ignores the graceful request is forced at the first clock
/// reading at or after `now + grace`, never before, and the request resolves
/// as soon as the forced kill reports back, whether it succeeded or failed.
pub proof fn lemma_forced_by_deadline(now: u64, grace: u64, early: u64, late: u64, kill: Result<Option<i32>, String>)
    requires
        now + grace <= u64::MAX,
        early < now + grace,
        late >= now + grace,
    ensures
        ({
            let (p1, a1) = begin_spec(None, now, grace);
            let (p_early, a_early) = next_spec(p1, TermEvent::Tick(early));
            let (p2, a2) = next_spec(p1, TermEvent::Tick(late));
            let (p3, a3) = next_spec(p2, TermEvent::KillDone(kill));
            &&& a1 == TermAction::SendGraceful
            &&& a_early == TermAction::WaitUntil((now + grace) as u64)
            &&& p_early == p1
            &&& a2 == TermAction::ForceKill
            &&& p3 is Finished
            &&& a3 is Resolve
            &&& match kill {
                Ok(c) => a3 == TermAction::Resolve(Ok(c)),
                Err(d) => a3 == TermAction::Resolve(Err(TerminationError::KillFailed(d))),
            }
        }),
{
}

} // verus!
