use vstd::prelude::*;

verus! {

/// The sampler's control state: it keeps polling while the remote
/// session answers its liveness probe, and terminates for good once the
/// probe fails. There is no pause, reconnect or retry state.
#[derive(PartialEq, Eq, Structural, Clone, Copy, Debug)]
pub enum PollState {
    Running,
    Terminated,
}

/// One liveness decision: a running sampler stays running exactly when
/// the probe succeeded; a terminated one never resumes.
pub fn next_state(state: PollState, alive: bool) -> (r: PollState)
    ensures
        r == (if state is Running && alive {
            PollState::Running
        } else {
            PollState::Terminated
        }),
{
    match state {
        PollState::Running => {
            if alive {
                PollState::Running
            } else {
                PollState::Terminated
            }
        },
        PollState::Terminated => PollState::Terminated,
    }
}

} // verus!
