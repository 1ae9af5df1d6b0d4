use gossip_node::dispatch::{reply_to, Dispatcher, Effect, NodeConfig};

fn node() -> Dispatcher {
    Dispatcher::new("12D3KooWLocalPeer".to_string(), &NodeConfig::new())
}

#[test]
fn config_defaults() {
    let c = NodeConfig::new();
    assert_eq!(c.channel_capacity, 100);
    assert_eq!(c.machine_id, 1);
    assert_eq!(c.node_id, 1);
}

#[test]
fn empty_line_is_discarded() {
    let mut d = node();
    assert_eq!(d.dispatch(""), Effect::Discard);
}

#[test]
fn leading_space_is_discarded() {
    let mut d = node();
    assert_eq!(d.dispatch(" swarm hello"), Effect::Discard);
    assert_eq!(d.dispatch(" "), Effect::Discard);
}

#[test]
fn unknown_verb_is_ignored() {
    let mut d = node();
    assert_eq!(d.dispatch("hello world"), Effect::Ignore);
    assert_eq!(d.dispatch("swarmy x"), Effect::Ignore);
}

#[test]
fn swarm_publishes_rest() {
    let mut d = node();
    assert_eq!(d.dispatch("swarm hello world"), Effect::Publish("hello world".to_string()));
}

#[test]
fn swarm_keeps_empty_tokens() {
    let mut d = node();
    assert_eq!(d.dispatch("swarm a  b "), Effect::Publish("a  b ".to_string()));
}

#[test]
fn swarm_alone_publishes_nothing() {
    let mut d = node();
    assert_eq!(d.dispatch("swarm"), Effect::Publish(String::new()));
}

#[test]
fn cache_get_on_empty_cache_misses() {
    let mut d = node();
    assert_eq!(d.dispatch("cache_get 42 hostname"), Effect::Miss);
}

#[test]
fn cache_get_after_set_replies() {
    let mut d = node();
    d.cache_set("hostname".to_string(), "node-a".to_string());
    assert_eq!(
        d.dispatch("cache_get 42 hostname"),
        Effect::Reply("cache_return 42 node-a".to_string())
    );
    assert_eq!(d.dispatch("cache_get 7 other"), Effect::Miss);
}

#[test]
fn cache_set_replaces_value() {
    let mut d = node();
    d.cache_set("k".to_string(), "one".to_string());
    d.cache_set("k".to_string(), "two".to_string());
    assert_eq!(d.dispatch("cache_get r k"), Effect::Reply("cache_return r two".to_string()));
}

#[test]
fn cache_get_without_key_is_ignored() {
    let mut d = node();
    assert_eq!(d.dispatch("cache_get 42"), Effect::Ignore);
    assert_eq!(d.dispatch("cache_get"), Effect::Ignore);
}

#[test]
fn id_twice_reports_same_peer() {
    let mut d = node();
    let a = d.dispatch("id");
    let b = d.dispatch("id");
    assert_eq!(a, Effect::ReportId("12D3KooWLocalPeer".to_string()));
    assert_eq!(a, b);
}

#[test]
fn random_twice_strictly_increases() {
    let mut d = node();
    let a = match d.dispatch("random") {
        Effect::ReportRandom(v) => v,
        other => panic!("unexpected {:?}", other),
    };
    let b = match d.dispatch("random") {
        Effect::ReportRandom(v) => v,
        other => panic!("unexpected {:?}", other),
    };
    assert!(a < b);
}

#[test]
fn reply_format() {
    let r = reply_to(&"9".to_string(), &"v a".to_string());
    assert_eq!(r, "cache_return 9 v a");
}

#[test]
fn membership_expiry_follows_discovery() {
    let mut d = node();
    let p = vec![1u8, 2, 3];
    d.peer_joined(p.clone());
    assert!(d.is_member(&p));
    assert!(!d.peer_left(&p, true));
    assert!(d.is_member(&p));
    assert!(d.peer_left(&p, false));
    assert!(!d.is_member(&p));
}

#[test]
fn membership_join_twice_then_leave() {
    let mut d = node();
    let p = vec![9u8];
    let q = vec![8u8];
    d.peer_joined(p.clone());
    d.peer_joined(p.clone());
    d.peer_joined(q.clone());
    assert!(d.peer_left(&p, false));
    assert!(!d.is_member(&p));
    assert!(d.is_member(&q));
}
