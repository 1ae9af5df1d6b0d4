//! The dispatcher: the single consumer of the command bus. Each line becomes
//! one effect, which the surrounding runtime carries out (publish, reply on
//! the bus, print); discovery events update the membership view.

use crate::cache::Cache;
use crate::command::{
    cache_get_line, cache_return_verb, command_spec, has_no_space, lemma_cache_get_line,
    lemma_malformed_iff_blank_verb, lemma_swarm_payload_is_rest, parse_command, swarm_verb,
    Command, CommandSpec,
};
use crate::ids::{next_unique_spec, IdGenerator};
use crate::membership::Membership;
use vstd::prelude::*;

verus! {

/// Settings fixed at startup and handed to each component.
pub struct NodeConfig {
    /// Capacity of the command bus.
    pub channel_capacity: usize,
    /// Machine tag carried by unique identifiers.
    pub machine_id: i32,
    /// Node tag carried by unique identifiers.
    pub node_id: i32,
}

impl NodeConfig {
    /// The settings a node starts with: a bus of 100 messages, tags 1 and 1.
    pub fn new() -> (r: NodeConfig)
        ensures
            r.channel_capacity == 100,
            r.machine_id == 1,
            r.node_id == 1,
    {
        NodeConfig { channel_capacity: 100, machine_id: 1, node_id: 1 }
    }
}

/// What the runtime must do for one command line.
#[derive(Debug, PartialEq, Eq)]
pub enum Effect {
    /// The line is malformed: log it and drop it.
    Discard,
    /// The verb is not one this node knows: nothing happens.
    Ignore,
    /// Publish these bytes on the gossip topic.
    Publish(String),
    /// Send this line back into the command bus.
    Reply(String),
    /// The requested key is not cached: log the miss, send nothing.
    Miss,
    /// Report the local peer identity.
    ReportId(String),
    /// Report this fresh unique identifier.
    ReportRandom(u64),
    /// Every identifier above the last one has been handed out.
    IdsExhausted,
}

pub ghost enum EffectSpec {
    Discard,
    Ignore,
    Publish(Seq<char>),
    Reply(Seq<char>),
    Miss,
    ReportId(Seq<char>),
    ReportRandom(u64),
    IdsExhausted,
}

impl View for Effect {
    type V = EffectSpec;

    open spec fn view(&self) -> EffectSpec {
        match self {
            Effect::Discard => EffectSpec::Discard,
            Effect::Ignore => EffectSpec::Ignore,
            Effect::Publish(p) => EffectSpec::Publish(p@),
            Effect::Reply(m) => EffectSpec::Reply(m@),
            Effect::Miss => EffectSpec::Miss,
            Effect::ReportId(p) => EffectSpec::ReportId(p@),
            Effect::ReportRandom(v) => EffectSpec::ReportRandom(*v),
            Effect::IdsExhausted => EffectSpec::IdsExhausted,
        }
    }
}

/// The state the dispatcher owns.
pub ghost struct NodeState {
    pub cache: Map<Seq<char>, Seq<char>>,
    pub local_peer: Seq<char>,
    pub last_id: Option<u64>,
    pub members: Set<Seq<u8>>,
}

/// The line `cache_return requestId value`.
pub open spec fn reply_line(request_id: Seq<char>, value: Seq<char>) -> Seq<char> {
    cache_return_verb() + seq![' '] + request_id + seq![' '] + value
}

/// One command handled in state `st`, where `drawn` is what the identifier
/// source drew (read by `random` alone): the next state and the effect.
pub open spec fn step(st: NodeState, cmd: CommandSpec, drawn: i64) -> (NodeState, EffectSpec) {
    match cmd {
        CommandSpec::Malformed => (st, EffectSpec::Discard),
        CommandSpec::Unrecognized => (st, EffectSpec::Ignore),
        CommandSpec::Swarm(payload) => (st, EffectSpec::Publish(payload)),
        CommandSpec::CacheGet(request_id, key) => if st.cache.contains_key(key) {
            (st, EffectSpec::Reply(reply_line(request_id, st.cache[key])))
        } else {
            (st, EffectSpec::Miss)
        },
        CommandSpec::Id => (st, EffectSpec::ReportId(st.local_peer)),
        CommandSpec::Random => match next_unique_spec(st.last_id, drawn) {
            Some(v) => (NodeState { last_id: Some(v), ..st }, EffectSpec::ReportRandom(v)),
            None => (st, EffectSpec::IdsExhausted),
        },
    }
}

/// The core of a node: cache, identity, identifier source and membership.
pub struct Dispatcher {
    cache: Cache,
    local_peer: String,
    ids: IdGenerator,
    members: Membership,
}

impl View for Dispatcher {
    type V = NodeState;

    closed spec fn view(&self) -> NodeState {
        NodeState {
            cache: self.cache@,
            local_peer: self.local_peer@,
            last_id: self.ids.last(),
            members: self.members@,
        }
    }
}

impl Dispatcher {
    /// A dispatcher for the node `local_peer`, with an empty cache and an
    /// empty membership view.
    pub fn new(local_peer: String, config: &NodeConfig) -> (r: Dispatcher)
        ensures
            r@.cache == Map::<Seq<char>, Seq<char>>::empty(),
            r@.local_peer == local_peer@,
            r@.last_id is None,
            r@.members == Set::<Seq<u8>>::empty(),
    {
        Dispatcher {
            cache: Cache::new(),
            local_peer,
            ids: IdGenerator::new(config.machine_id, config.node_id),
            members: Membership::new(),
        }
    }

    /// Handles one line from the command bus. Only `random` consults the
    /// identifier source; every other line has exactly one outcome.
    pub fn dispatch(&mut self, line: &str) -> (r: Effect)
        ensures
            command_spec(line@) != CommandSpec::Random ==> (final(self)@, r@)
                == step(old(self)@, command_spec(line@), 0),
            exists|drawn: i64|
                (final(self)@, r@) == step(old(self)@, command_spec(line@), drawn),
    {
        let cmd = parse_command(line);
        let ghost mut witness: i64 = 0;
        let r = match cmd {
            Command::Malformed => Effect::Discard,
            Command::Unrecognized => Effect::Ignore,
            Command::Swarm { payload } => Effect::Publish(payload),
            Command::CacheGet { request_id, key } => match self.cache.get(key.as_str()) {
                Some(value) => Effect::Reply(reply_to(&request_id, value)),
                None => Effect::Miss,
            },
            Command::Id => Effect::ReportId(self.local_peer.clone()),
            Command::Random => {
                let r = self.ids.generate();
                let ghost drawn = choose|d: i64| r == next_unique_spec(old(self).ids.last(), d);
                assert(r == next_unique_spec(old(self)@.last_id, drawn));
                proof {
                    witness = drawn;
                }
                match r {
                    Some(v) => Effect::ReportRandom(v),
                    None => Effect::IdsExhausted,
                }
            },
        };
        assert((self@, r@) == step(old(self)@, command_spec(line@), witness));
        r
    }

    /// Stores `value` under `key` in the cache.
    pub fn cache_set(&mut self, key: String, value: String)
        ensures
            final(self)@ == (NodeState { cache: old(self)@.cache.insert(key@, value@), ..old(self)@ }),
    {
        self.cache.set(key, value);
    }

    /// A peer was discovered: it joins the membership view.
    pub fn peer_joined(&mut self, peer: Vec<u8>)
        ensures
            final(self)@ == (NodeState { members: old(self)@.members.insert(peer@), ..old(self)@ }),
    {
        self.members.joined(peer);
    }

    /// A peer expired. It leaves the view only where discovery no longer
    /// reports it; the result says whether it must leave the gossip topic's
    /// partial view too.
    pub fn peer_left(&mut self, peer: &Vec<u8>, still_reachable: bool) -> (dropped: bool)
        ensures
            dropped == !still_reachable,
            still_reachable ==> final(self)@ == old(self)@,
            !still_reachable ==> final(self)@ == (NodeState {
                members: old(self)@.members.remove(peer@),
                ..old(self)@
            }),
            still_reachable && old(self)@.members.contains(peer@) ==> final(self)@.members.contains(
                peer@,
            ),
            !still_reachable ==> !final(self)@.members.contains(peer@),
    {
        self.members.left(peer, still_reachable)
    }

    pub fn is_member(&self, peer: &Vec<u8>) -> (r: bool)
        ensures
            r == self@.members.contains(peer@),
    {
        self.members.contains(peer)
    }
}

/// Builds the reply `cache_return requestId value`.
pub fn reply_to(request_id: &String, value: &String) -> (r: String)
    ensures
        r@ == reply_line(request_id@, value@),
{
    let mut reply = String::from_str("cache_return");
    reply.append(" ");
    reply.append(request_id.as_str());
    reply.append(" ");
    reply.append(value.as_str());
    proof {
        reveal_strlit("cache_return");
        reveal_strlit(" ");
    }
    assert("cache_return"@ =~= cache_return_verb());
    assert(" "@ =~= seq![' ']);
    reply
}


/// A line that is empty or whose first token is empty is discarded, and no
/// handler runs: the state is left as it was.
pub proof fn lemma_blank_lines_discarded(st: NodeState, line: Seq<char>, drawn: i64)
    requires
        line.len() == 0 || line[0] == ' ',
    ensures
        step(st, command_spec(line), drawn) == (st, EffectSpec::Discard),
{
    lemma_malformed_iff_blank_verb(line);
}

/// Once `key` is set to `value`, `cache_get requestId key` is answered with
/// exactly one reply, `cache_return requestId value`; a key never set gets
/// no reply, only a miss.
pub proof fn lemma_cache_get_after_set(
    st: NodeState,
    request_id: Seq<char>,
    key: Seq<char>,
    value: Seq<char>,
    drawn: i64,
)
    requires
        has_no_space(request_id),
        has_no_space(key),
    ensures
        ({
            let after_set = NodeState { cache: st.cache.insert(key, value), ..st };
            step(after_set, command_spec(cache_get_line(request_id, key)), drawn)
                == (after_set, EffectSpec::Reply(reply_line(request_id, value)))
        }),
        !st.cache.contains_key(key) ==> step(
            st,
            command_spec(cache_get_line(request_id, key)),
            drawn,
        ) == (st, EffectSpec::Miss),
{
    lemma_cache_get_line(request_id, key);
}

/// `swarm <rest>` publishes `<rest>` unchanged and touches no state.
pub proof fn lemma_swarm_publishes_rest(st: NodeState, rest: Seq<char>, drawn: i64)
    ensures
        step(st, command_spec(swarm_verb() + seq![' '] + rest), drawn) == (
            st,
            EffectSpec::Publish(rest),
        ),
{
    lemma_swarm_payload_is_rest(rest);
}

/// Two `id` commands in succession report the same identity.
pub proof fn lemma_id_reported_identically(st: NodeState, line: Seq<char>, d1: i64, d2: i64)
    requires
        command_spec(line) == CommandSpec::Id,
    ensures
        ({
            let (st1, e1) = step(st, command_spec(line), d1);
            let (st2, e2) = step(st1, command_spec(line), d2);
            e1 == e2 && e1 == EffectSpec::ReportId(st.local_peer) && st2 == st
        }),
{
}

} // verus!
