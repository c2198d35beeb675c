use vstd::prelude::*;
use crate::kv::{
    apply_spec, keys_unique, lookup, response_at, run, store_of, valid, window_push, KvState, WINDOW,
};
use crate::msg::Op;

verus! {

/// Whether `op` is one of the mutating operations.
pub open spec fn mutating(op: Op) -> bool {
    op is Put || op is Append
}

/// The window after recording each of `ids`, in order.
pub open spec fn push_all(w: Seq<u64>, ids: Seq<u64>) -> Seq<u64>
    decreases ids.len(),
{
    if ids.len() == 0 {
        w
    } else {
        window_push(push_all(w, ids.drop_last()), ids.last())
    }
}

/// Two replicas whose machines have equal views and that apply the same
/// committed commands in the same order (`Kv::apply_all`, whose contract is
/// stated over `run` and `response_at`) end in equal states and give equal
/// responses to every command. The views are all that `Kv::apply` reads, so
/// replicas never diverge.
pub proof fn lemma_determinism(s1: KvState, s2: KvState, cmds: Seq<(u64, Op)>)
    requires
        s1 == s2,
    ensures
        run(s1, cmds) == run(s2, cmds),
        forall|j: int| 0 <= j < cmds.len() ==> #[trigger] response_at(s1, cmds, j) == response_at(s2, cmds, j),
{
}

/// Applying the same mutating operation with the same identifier twice in a
/// row leaves the store as applying it once does.
pub proof fn lemma_repeat_is_noop(s: KvState, id: u64, op: Op)
    requires
        valid(s),
        mutating(op),
    ensures
        apply_spec(apply_spec(s, id, op).0, id, op).0.store == apply_spec(s, id, op).0.store,
        apply_spec(apply_spec(s, id, op).0, id, op).1 == apply_spec(s, id, op).1,
{
    let w = apply_spec(s, id, op).0.window;
    assert(w == window_push(s.window, id));
    assert(w[w.len() - 1] == id);
}

/// A `Get` leaves the state as it was and answers the stored value, whatever
/// its identifier and whether that identifier was seen before.
pub proof fn lemma_get_is_pure(s: KvState, id: u64, key: String)
    ensures
        apply_spec(s, id, Op::Get { key }).0 == s,
        apply_spec(s, id, Op::Get { key }).1 == lookup(s.store, key@),
{
}

/// After recording identifiers from a window within its bound, the window is
/// the last entries of the old window followed by the new identifiers.
proof fn lemma_push_all_suffix(w: Seq<u64>, ids: Seq<u64>)
    requires
        w.len() <= WINDOW,
    ensures
        push_all(w, ids) == (w + ids).subrange(
            (w.len() + ids.len()) - push_all(w, ids).len(),
            (w.len() + ids.len()) as int,
        ),
        push_all(w, ids).len() == if w.len() + ids.len() <= WINDOW {
            (w.len() + ids.len()) as int
        } else {
            WINDOW as int
        },
    decreases ids.len(),
{
    if ids.len() == 0 {
        assert((w + ids) =~= w);
        assert(w.subrange(0, w.len() as int) =~= w);
    } else {
        let prev = ids.drop_last();
        lemma_push_all_suffix(w, prev);
        let p = push_all(w, prev);
        let n = (w.len() + ids.len()) as int;
        assert((w + prev) =~= (w + ids).take(n - 1));
        assert((w + ids)[n - 1] == ids.last());
        if p.len() >= WINDOW {
            assert(p.drop_first().push(ids.last()) =~= (w + ids).subrange(n - WINDOW, n));
        } else {
            assert(p.push(ids.last()) =~= (w + ids).subrange(n - p.len() - 1, n));
        }
    }
}

/// Once `x` has been followed by as many other identifiers as the window
/// holds, `x` is no longer in the window.
pub proof fn lemma_window_evicts(w: Seq<u64>, x: u64, others: Seq<u64>)
    requires
        w.len() <= WINDOW,
        others.len() == WINDOW,
        forall|i: int| 0 <= i < others.len() ==> others[i] != x,
    ensures
        !push_all(window_push(w, x), others).contains(x),
{
    let w1 = window_push(w, x);
    lemma_push_all_suffix(w1, others);
    let r = push_all(w1, others);
    assert(r =~= others) by {
        assert(r == (w1 + others).subrange(w1.len() as int, (w1.len() + others.len()) as int));
    }
}

/// The ids of `cmds`, in order.
pub open spec fn ids_of(cmds: Seq<(u64, Op)>) -> Seq<u64> {
    cmds.map_values(|c: (u64, Op)| c.0)
}

proof fn lemma_run_window(s: KvState, cmds: Seq<(u64, Op)>)
    requires
        forall|i: int| 0 <= i < cmds.len() ==> mutating(#[trigger] cmds[i].1),
    ensures
        run(s, cmds).window == push_all(s.window, ids_of(cmds)),
    decreases cmds.len(),
{
    if cmds.len() > 0 {
        lemma_run_window(s, cmds.drop_last());
        assert(ids_of(cmds).drop_last() =~= ids_of(cmds.drop_last()));
        assert(mutating(cmds[cmds.len() - 1].1));
    }
}

/// An identifier applied with a mutating operation and then followed by as
/// many mutating operations under other identifiers as the window holds is
/// forgotten: a `Put` under it again takes effect.
pub proof fn lemma_evicted_id_applies(
    s: KvState,
    x: u64,
    first: Op,
    cmds: Seq<(u64, Op)>,
    key: String,
    value: String,
)
    requires
        valid(s),
        mutating(first),
        cmds.len() == WINDOW,
        forall|i: int| 0 <= i < cmds.len() ==> mutating(#[trigger] cmds[i].1),
        forall|i: int| 0 <= i < cmds.len() ==> #[trigger] cmds[i].0 != x,
    ensures
        ({
            let t = run(apply_spec(s, x, first).0, cmds);
            apply_spec(t, x, Op::Put { key, value }).0.store == t.store.insert(key@, value@)
        }),
{
    let s1 = apply_spec(s, x, first).0;
    lemma_run_window(s1, cmds);
    let ids = ids_of(cmds);
    assert forall|i: int| 0 <= i < ids.len() implies ids[i] != x by {
        assert(cmds[i].0 != x);
    }
    lemma_window_evicts(s.window, x, ids);
}

/// Snapshot round trip. The premises are what `Kv::entries` and `Kv::window`
/// ensure of the parts taken from a machine with view `s`; the state
/// `Kv::from_parts` rebuilds from them is `restored`, as its contract states.
/// Then `from_parts` succeeds on those parts, the rebuilt view equals `s`, and
/// the same commands applied afterwards with `Kv::apply_all` to either machine
/// end in equal states with equal responses.
pub proof fn lemma_snapshot_round_trip(
    s: KvState,
    entries: Seq<(String, String)>,
    window: Seq<u64>,
    cmds: Seq<(u64, Op)>,
)
    requires
        valid(s),
        keys_unique(entries),
        store_of(entries) == s.store,
        window == s.window,
    ensures
        keys_unique(entries) && window.len() <= WINDOW,
        ({
            let restored = KvState { store: store_of(entries), window };
            &&& restored == s
            &&& run(restored, cmds) == run(s, cmds)
            &&& forall|j: int|
                0 <= j < cmds.len() ==> #[trigger] response_at(restored, cmds, j) == response_at(
                    s,
                    cmds,
                    j,
                )
        }),
{
}

} // verus!
