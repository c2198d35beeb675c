use vstd::prelude::*;
use crate::kv::{apply_spec, Kv, KvState};
use crate::msg::Op;

verus! {

/// A deterministic state machine that committed commands are applied to, one
/// at a time and in commit order. `outcome` is the step function: the next
/// state and the answer are fixed by the identifier, the command and the
/// state before, so replicas that apply the same commands agree.
pub trait State: Sized {
    type Command;
    type Response;
    /// The abstract state.
    type Model;
    /// The abstract form of a response.
    type Answer;

    /// The invariant the machine keeps between commands.
    spec fn inv(&self) -> bool;

    /// The abstract state of this machine.
    spec fn model(&self) -> Self::Model;

    /// The abstract form of `r`.
    spec fn answer_of(r: &Self::Response) -> Self::Answer;

    /// The next state and the answer of applying `cmd`, tagged with `id`, in
    /// state `m`.
    spec fn outcome(m: Self::Model, id: u64, cmd: Self::Command) -> (Self::Model, Self::Answer);

    /// Applies `cmd`, tagged with the caller's identifier `id`.
    fn apply(&mut self, id: u64, cmd: Self::Command) -> (r: Self::Response)
        requires
            old(self).inv(),
        ensures
            final(self).inv(),
            (final(self).model(), Self::answer_of(&r)) == Self::outcome(old(self).model(), id, cmd),
    ;
}

impl State for Kv {
    type Command = Op;
    type Response = String;
    type Model = KvState;
    type Answer = Seq<char>;

    open spec fn inv(&self) -> bool {
        self.wf()
    }

    open spec fn model(&self) -> KvState {
        self@
    }

    open spec fn answer_of(r: &String) -> Seq<char> {
        r@
    }

    open spec fn outcome(m: KvState, id: u64, cmd: Op) -> (KvState, Seq<char>) {
        apply_spec(m, id, cmd)
    }

    fn apply(&mut self, id: u64, cmd: Op) -> (r: String)
        ensures
            (final(self)@, r@) == apply_spec(old(self)@, id, cmd),
    {
        Kv::apply(self, id, cmd)
    }
}

} // verus!
