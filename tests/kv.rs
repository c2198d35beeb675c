use kvraft::kv::WINDOW;
use kvraft::{Kv, Op, State};

fn put(key: &str, value: &str) -> Op {
    Op::Put { key: key.to_string(), value: value.to_string() }
}

fn append(key: &str, value: &str) -> Op {
    Op::Append { key: key.to_string(), value: value.to_string() }
}

fn get(key: &str) -> Op {
    Op::Get { key: key.to_string() }
}

fn read(kv: &Kv, key: &str) -> String {
    kv.get(&key.to_string())
}

fn sorted_entries(kv: &Kv) -> Vec<(String, String)> {
    let mut e = kv.entries();
    e.sort();
    e
}

#[test]
fn end_to_end_put_append_get() {
    let mut kv = Kv::new();
    assert_eq!(kv.apply(1, put("a", "1")), "");
    assert_eq!(kv.apply(2, append("a", "2")), "");
    assert_eq!(kv.apply(3, get("a")), "12");
    assert_eq!(kv.apply(1, put("a", "9")), "");
    assert_eq!(kv.apply(4, get("a")), "12");
}

#[test]
fn get_of_absent_key_is_empty() {
    let mut kv = Kv::new();
    assert_eq!(kv.apply(7, get("missing")), "");
    assert_eq!(kv.window(), Vec::<u64>::new());
}

#[test]
fn append_creates_missing_key() {
    let mut kv = Kv::new();
    kv.apply(1, append("k", "xy"));
    assert_eq!(read(&kv, "k"), "xy");
}

#[test]
fn put_overwrites() {
    let mut kv = Kv::new();
    kv.apply(1, put("k", "old"));
    kv.apply(2, put("k", "new"));
    assert_eq!(read(&kv, "k"), "new");
    assert_eq!(kv.entries().len(), 1);
}

#[test]
fn repeated_put_is_applied_once() {
    let mut once = Kv::new();
    once.apply(5, put("k", "v"));
    let mut twice = Kv::new();
    twice.apply(5, put("k", "v"));
    twice.apply(5, put("k", "v"));
    assert_eq!(sorted_entries(&once), sorted_entries(&twice));
}

#[test]
fn repeated_append_is_applied_once() {
    let mut kv = Kv::new();
    kv.apply(5, append("k", "v"));
    kv.apply(5, append("k", "v"));
    assert_eq!(read(&kv, "k"), "v");
}

#[test]
fn window_evicts_after_one_hundred_others() {
    let mut kv = Kv::new();
    kv.apply(1000, put("x", "first"));
    for i in 0..100u64 {
        kv.apply(i, put("other", "v"));
    }
    assert!(!kv.window().contains(&1000));
    kv.apply(1000, put("x", "second"));
    assert_eq!(read(&kv, "x"), "second");
}

#[test]
fn window_still_protects_after_ninety_nine_others() {
    let mut kv = Kv::new();
    kv.apply(1000, put("x", "first"));
    for i in 0..99u64 {
        kv.apply(i, put("other", "v"));
    }
    kv.apply(1000, put("x", "second"));
    assert_eq!(read(&kv, "x"), "first");
}

#[test]
fn window_never_exceeds_bound() {
    let mut kv = Kv::new();
    for i in 0..250u64 {
        kv.apply(i, append("k", "."));
    }
    assert_eq!(kv.window().len(), WINDOW);
    assert_eq!(kv.window()[0], 150);
    assert_eq!(kv.window()[WINDOW - 1], 249);
}

#[test]
fn window_keeps_full_identifiers() {
    let mut kv = Kv::new();
    kv.apply(1, put("k", "a"));
    kv.apply(1 + (1u64 << 32), put("k", "b"));
    assert_eq!(read(&kv, "k"), "b");
}

#[test]
fn get_ignores_and_leaves_window() {
    let mut kv = Kv::new();
    kv.apply(9, put("k", "v"));
    let before = kv.window();
    assert_eq!(kv.apply(9, get("k")), "v");
    assert_eq!(kv.apply(9, get("k")), "v");
    assert_eq!(kv.window(), before);
    assert_eq!(read(&kv, "k"), "v");
    kv.apply(10, get("k"));
    kv.apply(10, put("k", "w"));
    assert_eq!(read(&kv, "k"), "w");
}

#[test]
fn equal_sequences_give_equal_states() {
    let cmds = vec![
        (1u64, put("a", "1")),
        (2, append("b", "x")),
        (1, put("a", "2")),
        (3, append("a", "z")),
        (4, get("a")),
    ];
    let mut r1 = Kv::new();
    let mut r2 = Kv::new();
    let mut out1 = Vec::new();
    let mut out2 = Vec::new();
    for (id, op) in cmds.iter() {
        out1.push(r1.apply(*id, op.clone()));
        out2.push(r2.apply(*id, op.clone()));
    }
    assert_eq!(out1, out2);
    assert_eq!(out1[4], "1z");
    assert_eq!(sorted_entries(&r1), sorted_entries(&r2));
    assert_eq!(r1.window(), r2.window());
}

#[test]
fn snapshot_round_trip() {
    let mut s = Kv::new();
    s.apply(1, put("a", "1"));
    s.apply(2, put("b", "2"));
    s.apply(3, append("a", "3"));
    let mut restored = Kv::from_parts(s.entries(), s.window()).unwrap();
    assert_eq!(sorted_entries(&restored), sorted_entries(&s));
    assert_eq!(restored.window(), s.window());
    for (id, op) in [(3u64, append("a", "x")), (4, append("a", "y")), (5, get("a"))] {
        assert_eq!(s.apply(id, op.clone()), restored.apply(id, op));
    }
    assert_eq!(read(&restored, "a"), "13y");
    assert_eq!(sorted_entries(&restored), sorted_entries(&s));
}

#[test]
fn from_parts_rejects_duplicate_keys() {
    let e = vec![("k".to_string(), "1".to_string()), ("k".to_string(), "2".to_string())];
    assert!(Kv::from_parts(e, vec![]).is_none());
}

#[test]
fn from_parts_rejects_oversized_window() {
    let ids: Vec<u64> = (0..101).collect();
    assert!(Kv::from_parts(vec![], ids).is_none());
    let ids: Vec<u64> = (0..100).collect();
    assert!(Kv::from_parts(vec![], ids).is_some());
}

#[test]
fn apply_through_state_trait() {
    let mut kv = Kv::default();
    assert_eq!(State::apply(&mut kv, 1, put("a", "1")), "");
    assert_eq!(State::apply(&mut kv, 2, append("a", "2")), "");
    assert_eq!(State::apply(&mut kv, 3, get("a")), "12");
}

#[test]
fn apply_all_answers_each_command() {
    let mut kv = Kv::new();
    let out = kv.apply_all(vec![(1, put("a", "1")), (2, append("a", "2")), (3, get("a")), (1, put("a", "9")), (4, get("a"))]);
    assert_eq!(out, vec!["", "", "12", "", "12"]);
    assert_eq!(read(&kv, "a"), "12");
    assert_eq!(kv.window(), vec![1, 2, 1]);
}

#[test]
fn restored_machine_replays_log_tail_identically() {
    let mut s = Kv::new();
    s.apply_all(vec![(1, put("a", "1")), (2, put("b", "2"))]);
    let mut restored = Kv::from_parts(s.entries(), s.window()).unwrap();
    let tail = vec![(2, put("b", "x")), (3, append("b", "y")), (4, get("b"))];
    let r1 = s.apply_all(tail.clone());
    let r2 = restored.apply_all(tail);
    assert_eq!(r1, r2);
    assert_eq!(r2[2], "2y");
    assert_eq!(sorted_entries(&s), sorted_entries(&restored));
    assert_eq!(s.window(), restored.window());
}
