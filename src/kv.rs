use vstd::prelude::*;
use vstd::string::StringExecFns;
use std::collections::VecDeque;
use crate::msg::Op;

verus! {

broadcast use vstd::std_specs::vecdeque::group_vec_dequeue_axioms;

/// How many of the most recent mutating identifiers the duplicate window holds.
pub const WINDOW: usize = 100;

/// The abstract state of the key-value machine: the mapping and the window of
/// recently seen identifiers, oldest first.
pub struct KvState {
    pub store: Map<Seq<char>, Seq<char>>,
    pub window: Seq<u64>,
}

/// The value of `k`, or the empty string when it is absent.
pub open spec fn lookup(m: Map<Seq<char>, Seq<char>>, k: Seq<char>) -> Seq<char> {
    if m.contains_key(k) {
        m[k]
    } else {
        Seq::empty()
    }
}

/// The window after `id` is recorded: the oldest entry leaves once it is full.
pub open spec fn window_push(w: Seq<u64>, id: u64) -> Seq<u64> {
    if w.len() >= WINDOW {
        w.drop_first().push(id)
    } else {
        w.push(id)
    }
}

/// A state that the machine can be in: the window never exceeds its bound.
pub open spec fn valid(s: KvState) -> bool {
    s.window.len() <= WINDOW
}

/// Applying `op` tagged with `id` to `s`: the next state and the response.
pub open spec fn apply_spec(s: KvState, id: u64, op: Op) -> (KvState, Seq<char>) {
    match op {
        Op::Get { key } => (s, lookup(s.store, key@)),
        Op::Put { key, value } => {
            let store = if s.window.contains(id) {
                s.store
            } else {
                s.store.insert(key@, value@)
            };
            (KvState { store, window: window_push(s.window, id) }, Seq::empty())
        },
        Op::Append { key, value } => {
            let store = if s.window.contains(id) {
                s.store
            } else {
                s.store.insert(key@, lookup(s.store, key@) + value@)
            };
            (KvState { store, window: window_push(s.window, id) }, Seq::empty())
        },
    }
}

/// The state after applying `cmds`, in order, to `s`.
pub open spec fn run(s: KvState, cmds: Seq<(u64, Op)>) -> KvState
    decreases cmds.len(),
{
    if cmds.len() == 0 {
        s
    } else {
        apply_spec(run(s, cmds.drop_last()), cmds.last().0, cmds.last().1).0
    }
}

/// The response to the command at position `j` of `cmds`, applied in order
/// from `s`.
pub open spec fn response_at(s: KvState, cmds: Seq<(u64, Op)>, j: int) -> Seq<char> {
    apply_spec(run(s, cmds.take(j)), cmds[j].0, cmds[j].1).1
}

/// The empty state: no keys, nothing seen.
pub open spec fn initial() -> KvState {
    KvState { store: Map::empty(), window: Seq::empty() }
}

pub open spec fn key_at(e: Seq<(String, String)>, k: Seq<char>, i: int) -> bool {
    0 <= i < e.len() && e[i].0@ == k
}

pub open spec fn keys_unique(e: Seq<(String, String)>) -> bool {
    forall|i: int, j: int|
        0 <= i < e.len() && 0 <= j < e.len() && #[trigger] e[i].0@ == #[trigger] e[j].0@ ==> i
            == j
}

/// The mapping that a list of entries with distinct keys stands for.
pub open spec fn store_of(e: Seq<(String, String)>) -> Map<Seq<char>, Seq<char>> {
    Map::new(
        |k: Seq<char>| exists|i: int| key_at(e, k, i),
        |k: Seq<char>| e[choose|i: int| key_at(e, k, i)].1@,
    )
}

proof fn lemma_store_at(e: Seq<(String, String)>, i: int)
    requires
        keys_unique(e),
        0 <= i < e.len(),
    ensures
        store_of(e).contains_key(e[i].0@),
        store_of(e)[e[i].0@] == e[i].1@,
{
    assert(key_at(e, e[i].0@, i));
    let j = choose|j: int| key_at(e, e[i].0@, j);
    assert(e[j].0@ == e[i].0@);
}

proof fn lemma_store_update(e: Seq<(String, String)>, i: int, k: String, v: String)
    requires
        keys_unique(e),
        0 <= i < e.len(),
        e[i].0@ == k@,
    ensures
        keys_unique(e.update(i, (k, v))),
        store_of(e.update(i, (k, v))) == store_of(e).insert(k@, v@),
{
    let f = e.update(i, (k, v));
    assert(keys_unique(f)) by {
        assert forall|a: int, b: int|
            0 <= a < f.len() && 0 <= b < f.len() && #[trigger] f[a].0@ == #[trigger] f[b].0@ implies a
            == b by {
            assert(f[a].0@ == e[a].0@);
            assert(f[b].0@ == e[b].0@);
        }
    }
    assert forall|key: Seq<char>| #[trigger] store_of(f).contains_key(key) implies store_of(e).insert(
        k@,
        v@,
    ).contains_key(key) by {
        let j = choose|j: int| key_at(f, key, j);
        if j != i {
            assert(key_at(e, key, j));
        }
    }
    assert forall|key: Seq<char>| #[trigger] store_of(e).insert(k@, v@).contains_key(key) implies store_of(
        f,
    ).contains_key(key) && store_of(f)[key] == store_of(e).insert(k@, v@)[key] by {
        if key == k@ {
            lemma_store_at(f, i);
        } else {
            let j = choose|j: int| key_at(e, key, j);
            assert(key_at(f, key, j));
            lemma_store_at(f, j);
            lemma_store_at(e, j);
        }
    }
    assert(store_of(f) =~= store_of(e).insert(k@, v@));
}

proof fn lemma_store_push(e: Seq<(String, String)>, k: String, v: String)
    requires
        keys_unique(e),
        !store_of(e).contains_key(k@),
    ensures
        keys_unique(e.push((k, v))),
        store_of(e.push((k, v))) == store_of(e).insert(k@, v@),
{
    let f = e.push((k, v));
    assert(keys_unique(f)) by {
        assert forall|a: int, b: int|
            0 <= a < f.len() && 0 <= b < f.len() && #[trigger] f[a].0@ == #[trigger] f[b].0@ implies a
            == b by {
            if a < e.len() && b < e.len() {
                assert(f[a] == e[a]);
                assert(f[b] == e[b]);
            } else if a < e.len() && b == e.len() {
                assert(f[a] == e[a]);
                assert(f[b].0@ == k@);
                assert(key_at(e, k@, a));
            } else if b < e.len() && a == e.len() {
                assert(f[b] == e[b]);
                assert(f[a].0@ == k@);
                assert(key_at(e, k@, b));
            }
        }
    }
    assert forall|key: Seq<char>| #[trigger] store_of(f).contains_key(key) implies store_of(e).insert(
        k@,
        v@,
    ).contains_key(key) by {
        let j = choose|j: int| key_at(f, key, j);
        if j < e.len() {
            assert(key_at(e, key, j));
        }
    }
    assert forall|key: Seq<char>| #[trigger] store_of(e).insert(k@, v@).contains_key(key) implies store_of(
        f,
    ).contains_key(key) && store_of(f)[key] == store_of(e).insert(k@, v@)[key] by {
        if key == k@ {
            lemma_store_at(f, e.len() as int);
        } else {
            let j = choose|j: int| key_at(e, key, j);
            assert(key_at(f, key, j));
            lemma_store_at(f, j);
            lemma_store_at(e, j);
        }
    }
    assert(store_of(f) =~= store_of(e).insert(k@, v@));
}

pub open spec fn same_views(a: Seq<(String, String)>, b: Seq<(String, String)>) -> bool {
    a.len() == b.len() && forall|i: int|
        0 <= i < a.len() ==> #[trigger] a[i].0@ == b[i].0@ && a[i].1@ == b[i].1@
}

proof fn lemma_same_views(a: Seq<(String, String)>, b: Seq<(String, String)>)
    requires
        same_views(a, b),
        keys_unique(a),
    ensures
        keys_unique(b),
        store_of(a) == store_of(b),
{
    assert(keys_unique(b)) by {
        assert forall|i: int, j: int|
            0 <= i < b.len() && 0 <= j < b.len() && #[trigger] b[i].0@ == #[trigger] b[j].0@ implies i
            == j by {
            assert(a[i].0@ == b[i].0@);
            assert(a[j].0@ == b[j].0@);
        }
    }
    assert forall|key: Seq<char>| #[trigger] store_of(a).contains_key(key) implies store_of(
        b,
    ).contains_key(key) && store_of(a)[key] == store_of(b)[key] by {
        let j = choose|j: int| key_at(a, key, j);
        assert(a[j].0@ == b[j].0@);
        assert(key_at(b, key, j));
        lemma_store_at(a, j);
        lemma_store_at(b, j);
    }
    assert forall|key: Seq<char>| #[trigger] store_of(b).contains_key(key) implies store_of(
        a,
    ).contains_key(key) by {
        let j = choose|j: int| key_at(b, key, j);
        assert(a[j].0@ == b[j].0@);
        assert(key_at(a, key, j));
    }
    assert(store_of(a) =~= store_of(b));
}

/// The built-in key-value state machine with bounded duplicate suppression.
pub struct Kv {
    kv: Vec<(String, String)>,
    ids: VecDeque<u64>,
}

impl View for Kv {
    type V = KvState;

    closed spec fn view(&self) -> KvState {
        KvState { store: store_of(self.kv@), window: self.ids@ }
    }
}

impl Kv {
    /// Well-formed: keys are distinct and the window respects its bound.
    pub closed spec fn wf(&self) -> bool {
        keys_unique(self.kv@) && self.ids@.len() <= WINDOW
    }

    /// An empty store with an empty window.
    pub fn new() -> (r: Kv)
        ensures
            r.wf(),
            r@ == initial(),
    {
        let r = Kv { kv: Vec::new(), ids: VecDeque::new() };
        assert(store_of(r.kv@) =~= Map::empty());
        r
    }

    /// Every state that the machine holds is valid.
    pub proof fn lemma_valid(&self)
        requires
            self.wf(),
        ensures
            valid(self@),
    {
    }

    /// The position of `key` in the entry list, if it is present.
    fn find(&self, key: &String) -> (r: Option<usize>)
        requires
            self.wf(),
        ensures
            match r {
                Some(i) => i < self.kv@.len() && self.kv@[i as int].0@ == key@,
                None => !self@.store.contains_key(key@),
            },
    {
        let mut i: usize = 0;
        while i < self.kv.len()
            invariant
                i <= self.kv@.len(),
                forall|j: int| 0 <= j < i ==> self.kv@[j].0@ != key@,
            decreases self.kv@.len() - i,
        {
            if self.kv[i].0 == *key {
                return Some(i);
            }
            i += 1;
        }
        assert(!self@.store.contains_key(key@)) by {
            if self@.store.contains_key(key@) {
                let j = choose|j: int| key_at(self.kv@, key@, j);
                assert(self.kv@[j].0@ == key@);
            }
        }
        None
    }

    /// The current value of `key`, or the empty string when it is absent.
    pub fn get(&self, key: &String) -> (r: String)
        requires
            self.wf(),
        ensures
            r@ == lookup(self@.store, key@),
    {
        match self.find(key) {
            Some(i) => {
                proof {
                    lemma_store_at(self.kv@, i as int);
                }
                self.kv[i].1.clone()
            },
            None => String::new(),
        }
    }

    /// Records `id` in the window and tells whether it was absent before.
    pub fn test_dup_id(&mut self, id: u64) -> (unique: bool)
        requires
            old(self).wf(),
        ensures
            final(self).wf(),
            unique == !old(self)@.window.contains(id),
            final(self)@.window == window_push(old(self)@.window, id),
            final(self)@.store == old(self)@.store,
    {
        let mut unique = true;
        let mut i: usize = 0;
        while i < self.ids.len()
            invariant
                i <= self.ids@.len(),
                unique == (forall|j: int| 0 <= j < i ==> self.ids@[j] != id),
            decreases self.ids@.len() - i,
        {
            if self.ids[i] == id {
                unique = false;
            }
            i += 1;
        }
        let ghost w = self.ids@;
        if self.ids.len() >= WINDOW {
            let _ = self.ids.pop_front();
            assert(w.subrange(1, w.len() as int) =~= w.drop_first());
        }
        self.ids.push_back(id);
        unique
    }

    /// Sets `key` to `value`.
    fn put(&mut self, key: String, value: String)
        requires
            old(self).wf(),
        ensures
            final(self).wf(),
            final(self)@ == (KvState {
                store: old(self)@.store.insert(key@, value@),
                window: old(self)@.window,
            }),
    {
        match self.find(&key) {
            Some(i) => {
                proof {
                    lemma_store_update(self.kv@, i as int, key, value);
                }
                self.kv.set(i, (key, value));
            },
            None => {
                proof {
                    lemma_store_push(self.kv@, key, value);
                }
                self.kv.push((key, value));
            },
        }
    }

    /// The entries of the store, each key once, for a snapshot.
    pub fn entries(&self) -> (r: Vec<(String, String)>)
        requires
            self.wf(),
        ensures
            keys_unique(r@),
            store_of(r@) == self@.store,
    {
        let mut r: Vec<(String, String)> = Vec::new();
        let mut i: usize = 0;
        while i < self.kv.len()
            invariant
                i <= self.kv@.len(),
                same_views(r@, self.kv@.take(i as int)),
            decreases self.kv@.len() - i,
        {
            let k = self.kv[i].0.clone();
            let v = self.kv[i].1.clone();
            let ghost r0 = r@;
            r.push((k, v));
            proof {
                let t = self.kv@.take(i + 1);
                assert forall|j: int| 0 <= j < r@.len() implies #[trigger] r@[j].0@ == t[j].0@
                    && r@[j].1@ == t[j].1@ by {
                    if j < i {
                        assert(r@[j] == r0[j]);
                        assert(t[j] == self.kv@.take(i as int)[j]);
                    }
                }
            }
            i += 1;
        }
        assert(self.kv@.take(i as int) =~= self.kv@);
        proof {
            lemma_same_views(self.kv@, r@);
        }
        r
    }

    /// The identifiers of the window, oldest first, for a snapshot.
    pub fn window(&self) -> (r: Vec<u64>)
        ensures
            r@ == self@.window,
    {
        let mut r: Vec<u64> = Vec::new();
        let mut i: usize = 0;
        while i < self.ids.len()
            invariant
                i <= self.ids@.len(),
                r@ == self.ids@.take(i as int),
            decreases self.ids@.len() - i,
        {
            r.push(self.ids[i]);
            i += 1;
            assert(r@ =~= self.ids@.take(i as int));
        }
        assert(self.ids@.take(i as int) =~= self.ids@);
        r
    }

    /// Rebuilds a state machine from a snapshot's entries and window. Fails
    /// when two entries share a key or the window holds more than its bound.
    pub fn from_parts(entries: Vec<(String, String)>, window: Vec<u64>) -> (r: Option<Kv>)
        ensures
            r is Some <==> keys_unique(entries@) && window@.len() <= WINDOW,
            r matches Some(k) ==> k.wf() && k@ == (KvState {
                store: store_of(entries@),
                window: window@,
            }),
    {
        if window.len() > WINDOW {
            return None;
        }
        let mut i: usize = 0;
        while i < entries.len()
            invariant
                i <= entries@.len(),
                forall|a: int, b: int|
                    0 <= a < i && 0 <= b < entries@.len() && #[trigger] entries@[a].0@
                        == #[trigger] entries@[b].0@ ==> a == b,
            decreases entries@.len() - i,
        {
            let mut j: usize = 0;
            while j < entries.len()
                invariant
                    i < entries@.len(),
                    j <= entries@.len(),
                    forall|b: int|
                        0 <= b < j && #[trigger] entries@[b].0@ == entries@[i as int].0@ ==> b == i,
                decreases entries@.len() - j,
            {
                if j != i && entries[j].0 == entries[i].0 {
                    return None;
                }
                j += 1;
            }
            i += 1;
        }
        let mut ids: VecDeque<u64> = VecDeque::new();
        let mut k: usize = 0;
        while k < window.len()
            invariant
                k <= window@.len(),
                ids@ == window@.take(k as int),
            decreases window@.len() - k,
        {
            ids.push_back(window[k]);
            k += 1;
            assert(ids@ =~= window@.take(k as int));
        }
        assert(window@.take(k as int) =~= window@);
        Some(Kv { kv: entries, ids })
    }

    /// Applies `cmd`, tagged with `id`, and returns its response. `Get` reads
    /// and changes nothing; `Put` and `Append` change the store only when `id`
    /// is not in the window, and record `id` in the window either way.
    pub fn apply(&mut self, id: u64, cmd: Op) -> (r: String)
        requires
            old(self).wf(),
        ensures
            final(self).wf(),
            (final(self)@, r@) == apply_spec(old(self)@, id, cmd),
    {
        match cmd {
            Op::Get { key } => self.get(&key),
            Op::Put { key, value } => {
                if self.test_dup_id(id) {
                    self.put(key, value);
                }
                String::new()
            },
            Op::Append { key, value } => {
                if self.test_dup_id(id) {
                    let mut v = self.get(&key);
                    v.append(value.as_str());
                    self.put(key, v);
                }
                String::new()
            },
        }
    }

    /// Applies `cmds` in order, as the apply path does with a log tail, and
    /// returns the response to each.
    pub fn apply_all(&mut self, cmds: Vec<(u64, Op)>) -> (r: Vec<String>)
        requires
            old(self).wf(),
        ensures
            final(self).wf(),
            final(self)@ == run(old(self)@, cmds@),
            r@.len() == cmds@.len(),
            forall|j: int|
                0 <= j < cmds@.len() ==> #[trigger] r@[j]@ == response_at(old(self)@, cmds@, j),
    {
        let ghost s0 = self@;
        let ghost all = cmds@;
        let n: usize = cmds.len();
        let mut rest = cmds;
        let mut out: Vec<String> = Vec::new();
        let mut k: usize = 0;
        while rest.len() > 0
            invariant
                self.wf(),
                k <= all.len(),
                all.len() == n,
                rest@ == all.subrange(k as int, all.len() as int),
                self@ == run(s0, all.take(k as int)),
                out@.len() == k,
                forall|j: int| 0 <= j < k ==> #[trigger] out@[j]@ == response_at(s0, all, j),
            decreases rest@.len(),
        {
            let (id, cmd) = rest.remove(0);
            let answer = self.apply(id, cmd);
            proof {
                assert(all.take(k + 1).drop_last() =~= all.take(k as int));
                assert(all[k as int] == (id, cmd));
            }
            out.push(answer);
            k += 1;
            proof {
                assert(rest@ =~= all.subrange(k as int, all.len() as int));
            }
        }
        assert(all.take(k as int) =~= all);
        out
    }
}

impl Default for Kv {
    fn default() -> (r: Kv)
        ensures
            r.wf(),
            r@ == initial(),
    {
        Kv::new()
    }
}

} // verus!
