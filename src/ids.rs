//! Unique 64-bit identifiers, drawn from a snowflake generator and kept
//! strictly increasing within one process.

use snowflake::SnowflakeIdGenerator;
use vstd::prelude::*;

verus! {

#[verifier::external_type_specification]
#[verifier::external_body]
pub struct ExSnowflakeIdGenerator(SnowflakeIdGenerator);

/// Relies on `SnowflakeIdGenerator::new` (rs-snowflake): builds a generator
/// tagged with the given machine and node numbers, counting from the Unix
/// epoch. It reads the clock, so nothing is stated of the result; like the
/// crate, it panics if the clock reads earlier than the Unix epoch.
#[verifier::external_body]
fn snowflake_source(machine_id: i32, node_id: i32) -> (r: SnowflakeIdGenerator) {
    SnowflakeIdGenerator::new(machine_id, node_id)
}

/// Relies on `SnowflakeIdGenerator::generate` (rs-snowflake): composes the
/// last timestamp, the two tags and a sequence number. The value depends on
/// the wall clock (a clock set back makes it repeat), so nothing is stated
/// of it; once every 4096 draws it reads the clock again and waits for the
/// next millisecond, panicking if the clock reads earlier than the Unix
/// epoch.
#[verifier::external_body]
fn snowflake_draw(source: &mut SnowflakeIdGenerator) -> (r: i64) {
    source.generate()
}

/// The identifier handed out after `last` when the generator drew `drawn`:
/// the drawn value (negative ones read as 0) where it exceeds `last`, else
/// the successor of `last`; `None` once `last` is the largest `u64`.
pub open spec fn next_unique_spec(last: Option<u64>, drawn: i64) -> Option<u64> {
    let candidate: u64 = if drawn < 0 { 0 } else { drawn as u64 };
    match last {
        None => Some(candidate),
        Some(l) => if candidate > l {
            Some(candidate)
        } else if l < u64::MAX {
            Some((l + 1) as u64)
        } else {
            None
        },
    }
}

/// Picks the identifier that follows `last`, given a fresh draw.
pub fn next_unique(last: Option<u64>, drawn: i64) -> (r: Option<u64>)
    ensures
        r == next_unique_spec(last, drawn),
{
    let candidate: u64 = if drawn < 0 {
        0
    } else {
        drawn as u64
    };
    match last {
        None => Some(candidate),
        Some(l) => if candidate > l {
            Some(candidate)
        } else if l < u64::MAX {
            Some(l + 1)
        } else {
            None
        },
    }
}

/// The identifiers handed out, one per draw, until the space runs out.
pub open spec fn issued(last: Option<u64>, draws: Seq<i64>) -> Seq<u64>
    decreases draws.len(),
{
    if draws.len() == 0 {
        Seq::<u64>::empty()
    } else {
        match next_unique_spec(last, draws[0]) {
            Some(v) => seq![v] + issued(Some(v), draws.drop_first()),
            None => Seq::<u64>::empty(),
        }
    }
}

/// Whatever the generator draws, the identifiers handed out one after
/// another are strictly increasing, hence pairwise distinct, and all lie
/// above the last one handed out before.
pub proof fn lemma_issued_strictly_increasing(last: Option<u64>, draws: Seq<i64>)
    ensures
        forall|i: int, j: int|
            0 <= i < j < issued(last, draws).len() ==> issued(last, draws)[i] < issued(
                last,
                draws,
            )[j],
        forall|i: int|
            0 <= i < issued(last, draws).len() && last is Some ==> issued(last, draws)[i]
                > last->Some_0,
    decreases draws.len(),
{
    if draws.len() > 0 {
        match next_unique_spec(last, draws[0]) {
            Some(v) => {
                let rest = draws.drop_first();
                lemma_issued_strictly_increasing(Some(v), rest);
                let out = issued(last, draws);
                let tail = issued(Some(v), rest);
                assert(out == seq![v] + tail);
                assert forall|i: int| 0 < i < out.len() implies out[i] > v by {
                    assert(out[i] == tail[i - 1]);
                }
            },
            None => {},
        }
    }
}

/// A source of unique identifiers for one node.
pub struct IdGenerator {
    source: SnowflakeIdGenerator,
    last: Option<u64>,
}

impl IdGenerator {
    /// The last identifier handed out, if any.
    pub closed spec fn last(&self) -> Option<u64> {
        self.last
    }

    /// A generator whose identifiers carry the given machine and node tags.
    pub fn new(machine_id: i32, node_id: i32) -> (r: IdGenerator)
        ensures
            r.last() is None,
    {
        IdGenerator { source: snowflake_source(machine_id, node_id), last: None }
    }

    /// Hands out the next identifier: strictly above every earlier one.
    /// `None` only once the last identifier is the largest `u64`.
    pub fn generate(&mut self) -> (r: Option<u64>)
        ensures
            r is None <==> old(self).last() == Some(u64::MAX),
            r is Some ==> final(self).last() == r,
            r is None ==> final(self).last() == old(self).last(),
            r is Some && old(self).last() is Some ==> r->Some_0 > old(self).last()->Some_0,
            exists|drawn: i64| r == next_unique_spec(old(self).last(), drawn),
    {
        let drawn = snowflake_draw(&mut self.source);
        let r = next_unique(self.last, drawn);
        if r.is_some() {
            self.last = r;
        }
        r
    }
}

} // verus!
