//! The swarm's verified decisions: binding a session's router to the
//! session's own identity without touching routing state shared with
//! other sessions, and the supervisor's reaction to each event it can
//! wake up on.

use vstd::prelude::*;

use crate::router::Router;

verus! {

/// What a session supervisor wakes up on: the process-wide shutdown
/// notification, the session's next update, or a transport read error.
pub enum SupervisorEvent {
    Shutdown,
    UpdateReceived,
    TransportError,
}

/// What the supervisor does next: stop pulling updates and exit, start
/// an independent dispatch of the update without waiting for it, or log
/// the error and keep the session alive.
pub enum SupervisorAction {
    Stop,
    DispatchUpdate,
    ContinueAfterError,
}

/// One supervisor step: shutdown stops the loop, an update is dispatched,
/// and a transport read error is never fatal to the session.
pub fn supervisor_step(event: &SupervisorEvent) -> (r: SupervisorAction)
    ensures
        r == match event {
            SupervisorEvent::Shutdown => SupervisorAction::Stop,
            SupervisorEvent::UpdateReceived => SupervisorAction::DispatchUpdate,
            SupervisorEvent::TransportError => SupervisorAction::ContinueAfterError,
        },
{
    match event {
        SupervisorEvent::Shutdown => SupervisorAction::Stop,
        SupervisorEvent::UpdateReceived => SupervisorAction::DispatchUpdate,
        SupervisorEvent::TransportError => SupervisorAction::ContinueAfterError,
    }
}

/// The router one session runs with: always an independent copy, so a
/// router shared across sessions is never mutated on one session's
/// behalf; when the session's identity exposes a public handle, every
/// command of the copy is recompiled to accept it.
pub fn session_router(router: &Router, bot_username: Option<&str>) -> (r: Router)
    ensures
        r.commands@.len() == router.commands@.len(),
        match bot_username {
            Some(u) => forall|i: int|
                0 <= i < router.commands@.len() ==> (#[trigger] router.commands@[i]).reinited(
                    u@,
                    &r.commands@[i],
                ),
            None => forall|i: int|
                0 <= i < router.commands@.len() ==> (#[trigger] r.commands@[i]).eqv(
                    &router.commands@[i],
                ),
        },
        forall|i: int|
            0 <= i < router.commands@.len() ==> ((#[trigger] router.commands@[i]).wf()
                ==> r.commands@[i].wf()),
{
    let mut copy = router.clone();
    let ghost fresh = copy;
    match bot_username {
        Some(u) => {
            copy.reinit_command_regexes(u);
            proof {
                assert forall|i: int| 0 <= i < router.commands@.len() implies (
                #[trigger] router.commands@[i]).reinited(u@, &copy.commands@[i]) by {
                    assert(fresh.commands@[i].eqv(&router.commands@[i]));
                    assert(fresh.commands@[i].reinited(u@, &copy.commands@[i]));
                }
            }
            copy
        },
        None => copy,
    }
}

} // verus!
