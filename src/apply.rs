use vstd::prelude::*;
use crate::registry::Registry;
use crate::state::State;

verus! {

/// One step of the apply path for a committed command at `index`: applies it
/// to the state machine and resolves the registry slot of `index`. Returns the
/// handle of the caller to answer, when the slot was bound to `id`, with the
/// response.
pub fn apply_command<S: State, H>(
    state: &mut S,
    registry: &mut Registry<H>,
    index: u64,
    id: u64,
    cmd: S::Command,
) -> (r: Option<(H, S::Response)>)
    requires
        old(state).inv(),
    ensures
        final(state).inv(),
        final(state).model() == S::outcome(old(state).model(), id, cmd).0,
        final(registry)@ == old(registry)@.remove(index),
        r is Some <==> old(registry)@.contains_key(index) && old(registry)@[index].0 == id,
        r matches Some(p) ==> p.0 == old(registry)@[index].1 && S::answer_of(&p.1) == S::outcome(
            old(state).model(),
            id,
            cmd,
        ).1,
{
    let ret = state.apply(id, cmd);
    match registry.complete(index, id) {
        Some(handle) => Some((handle, ret)),
        None => None,
    }
}

/// Replaces the whole state machine with one restored from a snapshot. No
/// registry slot is consulted.
pub fn install_snapshot<S: State>(state: &mut S, restored: S)
    requires
        restored.inv(),
    ensures
        final(state).inv(),
        *final(state) == restored,
{
    *state = restored;
}

} // verus!
