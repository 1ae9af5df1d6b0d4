use gossip_node::cache::Cache;
use gossip_node::ids::{next_unique, IdGenerator};
use gossip_node::membership::{same_bytes, Membership};

#[test]
fn next_unique_takes_larger_draw() {
    assert_eq!(next_unique(Some(5), 9), Some(9));
    assert_eq!(next_unique(None, 42), Some(42));
}

#[test]
fn next_unique_steps_past_stale_draw() {
    assert_eq!(next_unique(Some(5), 3), Some(6));
    assert_eq!(next_unique(Some(5), 5), Some(6));
    assert_eq!(next_unique(None, -4), Some(0));
}

#[test]
fn next_unique_exhausted() {
    assert_eq!(next_unique(Some(u64::MAX), 7), None);
}

#[test]
fn generator_values_strictly_increase() {
    let mut g = IdGenerator::new(1, 1);
    let mut prev: Option<u64> = None;
    for _ in 0..10000 {
        let v = g.generate().unwrap();
        if let Some(p) = prev {
            assert!(v > p);
        }
        prev = Some(v);
    }
}

#[test]
fn cache_miss_and_hit() {
    let mut c = Cache::new();
    assert_eq!(c.get("k"), None);
    c.set("k".to_string(), "v".to_string());
    assert_eq!(c.get("k"), Some(&"v".to_string()));
}

#[test]
fn membership_basics() {
    let mut m = Membership::new();
    let p = vec![1u8, 2];
    assert!(!m.contains(&p));
    m.joined(p.clone());
    assert!(m.contains(&p));
    assert!(!m.left(&p, true));
    assert!(m.contains(&p));
    assert!(m.left(&p, false));
    assert!(!m.contains(&p));
}

#[test]
fn bytes_equality() {
    assert!(same_bytes(&vec![1, 2], &vec![1, 2]));
    assert!(!same_bytes(&vec![1, 2], &vec![1, 3]));
    assert!(!same_bytes(&vec![1], &vec![1, 3]));
}
