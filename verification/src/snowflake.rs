//! Time-ordered, collision-free 64-bit identifiers.
//!
//! An identifier packs three fields: a millisecond timestamp in the high
//! bits, a fixed per-process node discriminator in the middle bits, and a
//! per-millisecond sequence number in the low bits. A generator hands out
//! identifiers in strictly increasing raw order, so no two identifiers it
//! ever issues are equal, and the embedded timestamps never decrease.

use vstd::prelude::*;

verus! {

/// Largest millisecond timestamp that fits the identifier's high field.
pub const TIMESTAMP_MAX: u64 = 0x3FF_FFFF_FFFF;

/// Largest node discriminator that fits the middle field.
pub const NODE_MAX: u64 = 0x3FF;

/// Largest per-millisecond sequence number that fits the low field.
pub const SEQUENCE_MAX: u64 = 0xFFF;

/// Weight of one timestamp step in the raw value.
pub const TIMESTAMP_UNIT: u64 = 0x40_0000;

/// Weight of one node step in the raw value.
pub const NODE_UNIT: u64 = 0x1000;

/// How a raw identifier is assembled from its three fields.
pub open spec fn pack_spec(ts: u64, node: u64, seq: u64) -> u64
    recommends
        ts <= TIMESTAMP_MAX,
        node <= NODE_MAX,
        seq <= SEQUENCE_MAX,
{
    (ts * TIMESTAMP_UNIT + node * NODE_UNIT + seq) as u64
}

/// The millisecond timestamp embedded in a raw identifier.
pub open spec fn timestamp_of(raw: u64) -> u64 {
    raw / TIMESTAMP_UNIT
}

/// The node discriminator embedded in a raw identifier.
pub open spec fn node_of(raw: u64) -> u64 {
    (raw / NODE_UNIT) % 0x400
}

/// The sequence number embedded in a raw identifier.
pub open spec fn sequence_of(raw: u64) -> u64 {
    raw % NODE_UNIT
}

/// Decomposing a packed identifier recovers the three fields exactly.
pub proof fn lemma_pack_fields(ts: u64, node: u64, seq: u64)
    by (bit_vector)
    requires
        ts <= TIMESTAMP_MAX,
        node <= NODE_MAX,
        seq <= SEQUENCE_MAX,
    ensures
        timestamp_of(pack_spec(ts, node, seq)) == ts,
        node_of(pack_spec(ts, node, seq)) == node,
        sequence_of(pack_spec(ts, node, seq)) == seq,
{
}

/// Packing respects the lexicographic order of (timestamp, sequence):
/// a later timestamp, or an equal timestamp with a later sequence number,
/// gives a strictly larger raw identifier.
pub proof fn lemma_pack_increases(ts1: u64, seq1: u64, ts2: u64, seq2: u64, node: u64)
    by (bit_vector)
    requires
        ts1 <= TIMESTAMP_MAX,
        ts2 <= TIMESTAMP_MAX,
        seq1 <= SEQUENCE_MAX,
        seq2 <= SEQUENCE_MAX,
        node <= NODE_MAX,
        ts1 < ts2 || (ts1 == ts2 && seq1 < seq2),
    ensures
        pack_spec(ts1, node, seq1) < pack_spec(ts2, node, seq2),
{
}

/// A smaller raw identifier never embeds a larger timestamp.
pub proof fn lemma_timestamp_monotone(a: u64, b: u64)
    by (bit_vector)
    requires
        a <= b,
    ensures
        timestamp_of(a) <= timestamp_of(b),
{
}

/// One issued identifier. Immutable; outlives the device it names.
#[derive(Clone, Copy, PartialEq, Eq, Structural, Debug)]
pub struct Snowflake {
    pub raw: u64,
}

impl Snowflake {
    /// The identifier as a plain 64-bit value.
    pub fn id(&self) -> (r: u64)
        ensures
            r == self.raw,
    {
        self.raw
    }

    /// The creation instant embedded in the identifier, in milliseconds
    /// since the Unix epoch; inverts the packing.
    pub fn created_at_millis(&self) -> (r: u64)
        ensures
            r == timestamp_of(self.raw),
    {
        self.raw / TIMESTAMP_UNIT
    }

    /// The node discriminator embedded in the identifier.
    pub fn node_part(&self) -> (r: u64)
        ensures
            r == node_of(self.raw),
    {
        (self.raw / NODE_UNIT) % 0x400
    }

    /// The sequence number embedded in the identifier.
    pub fn sequence_part(&self) -> (r: u64)
        ensures
            r == sequence_of(self.raw),
    {
        self.raw % NODE_UNIT
    }
}

/// Relies on chrono's `Utc::now` and `DateTime::timestamp_millis`: the
/// current wall-clock time as whole milliseconds since the Unix epoch.
/// Nothing is promised of the value.
#[verifier::external_body]
fn current_millis() -> (r: i64) {
    chrono::Utc::now().timestamp_millis()
}

/// All elements of the sequence are in strictly increasing order.
pub open spec fn strictly_increasing(s: Seq<u64>) -> bool {
    forall|i: int, j: int| 0 <= i < j < s.len() ==> s[i] < s[j]
}

/// Produces identifiers on demand. The mutable timestamp/sequence pair is
/// this struct's private state; a process shares one generator among its
/// request handlers and serializes calls to it.
pub struct IdGenerator {
    node: u64,
    last_ts: u64,
    seq: u64,
    primed: bool,
    history: Ghost<Seq<u64>>,
}

impl IdGenerator {
    /// The fixed node discriminator this generator stamps into every
    /// identifier.
    pub closed spec fn node_id(self) -> u64 {
        self.node
    }

    /// The millisecond timestamp of the most recent issue.
    pub closed spec fn last_millis(self) -> u64 {
        self.last_ts
    }

    /// The sequence number of the most recent issue.
    pub closed spec fn seq_no(self) -> u64 {
        self.seq
    }

    /// Whether the generator has issued at least one identifier.
    pub closed spec fn has_issued(self) -> bool {
        self.primed
    }

    /// Every raw identifier this generator has issued, in issuance order.
    pub closed spec fn issued(self) -> Seq<u64> {
        self.history@
    }

    /// The generator's invariant: field bounds hold, and the history is
    /// strictly increasing with the cursor naming its last element.
    pub closed spec fn wf(self) -> bool {
        &&& self.node <= NODE_MAX
        &&& self.last_ts <= TIMESTAMP_MAX
        &&& self.seq <= SEQUENCE_MAX
        &&& strictly_increasing(self.history@)
        &&& (!self.primed ==> self.history@.len() == 0)
        &&& (self.primed ==> self.history@.len() > 0 && self.history@.last() == pack_spec(
            self.last_ts,
            self.node,
            self.seq,
        ))
    }

    /// A fresh generator for the given node discriminator; nothing issued
    /// yet.
    pub fn new(node: u64) -> (g: IdGenerator)
        requires
            node <= NODE_MAX,
        ensures
            g.wf(),
            g.node_id() == node,
            g.issued() == Seq::<u64>::empty(),
            !g.has_issued(),
    {
        IdGenerator { node, last_ts: 0, seq: 0, primed: false, history: Ghost(Seq::empty()) }
    }

    /// One issuing step against a clock reading of `now` milliseconds.
    ///
    /// A reading older than the last issue is treated as the last issue's
    /// millisecond, so uniqueness survives a clock that stands still or
    /// steps back. Within one millisecond the sequence number counts up;
    /// when it is exhausted, nothing is issued and the caller must retry
    /// with a later reading.
    pub fn next_id(&mut self, now: u64) -> (r: Option<Snowflake>)
        requires
            old(self).wf(),
            now <= TIMESTAMP_MAX,
        ensures
            final(self).wf(),
            final(self).node_id() == old(self).node_id(),
            ({
                let eff = if now > old(self).last_millis() {
                    now
                } else {
                    old(self).last_millis()
                };
                match r {
                    Option::Some(id) => {
                        &&& final(self).issued() == old(self).issued().push(id.raw)
                        &&& final(self).has_issued()
                        &&& final(self).last_millis() == eff
                        &&& id.raw == pack_spec(eff, old(self).node_id(), final(self).seq_no())
                        &&& if !old(self).has_issued() || eff > old(self).last_millis() {
                            final(self).seq_no() == 0
                        } else {
                            final(self).seq_no() == old(self).seq_no() + 1
                        }
                    },
                    Option::None => {
                        &&& *final(self) == *old(self)
                        &&& old(self).has_issued()
                        &&& eff == old(self).last_millis()
                        &&& old(self).seq_no() == SEQUENCE_MAX
                    },
                }
            }),
    {
        let eff: u64 = if now > self.last_ts {
            now
        } else {
            self.last_ts
        };
        if !self.primed || eff > self.last_ts {
            proof {
                if self.primed {
                    lemma_pack_increases(self.last_ts, self.seq, eff, 0, self.node);
                }
            }
            let raw: u64 = eff * TIMESTAMP_UNIT + self.node * NODE_UNIT;
            self.last_ts = eff;
            self.seq = 0;
            self.primed = true;
            proof {
                self.history@ = self.history@.push(raw);
            }
            Some(Snowflake { raw })
        } else if self.seq < SEQUENCE_MAX {
            proof {
                lemma_pack_increases(self.last_ts, self.seq, eff, (self.seq + 1) as u64, self.node);
            }
            let raw: u64 = eff * TIMESTAMP_UNIT + self.node * NODE_UNIT + (self.seq + 1);
            self.seq = self.seq + 1;
            proof {
                self.history@ = self.history@.push(raw);
            }
            Some(Snowflake { raw })
        } else {
            None
        }
    }

    /// Whether the identifier space is fully spent: the last
    /// representable millisecond with its sequence range used up.
    /// `generate` excludes this state; a caller that cannot rule it out
    /// otherwise probes it with this.
    pub fn is_exhausted(&self) -> (r: bool)
        ensures
            r == (self.has_issued() && self.last_millis() == TIMESTAMP_MAX && self.seq_no()
                == SEQUENCE_MAX),
    {
        self.primed && self.last_ts == TIMESTAMP_MAX && self.seq == SEQUENCE_MAX
    }

    /// Issues the next identifier, reading the process clock and spinning
    /// while the current millisecond has no sequence room. Uniqueness takes
    /// priority over latency: within one crowded millisecond the call waits
    /// for the clock to advance rather than repeat a value. Should the
    /// clock stand still through every read, the generator steps to the
    /// next logical millisecond instead, which keeps the issued values
    /// strictly increasing.
    ///
    /// The one excluded state is full exhaustion of the identifier space:
    /// the last representable millisecond with its sequence range used up.
    pub fn generate(&mut self) -> (id: Snowflake)
        requires
            old(self).wf(),
            old(self).has_issued() ==> !(old(self).last_millis() == TIMESTAMP_MAX && old(
                self,
            ).seq_no() == SEQUENCE_MAX),
        ensures
            final(self).wf(),
            final(self).node_id() == old(self).node_id(),
            final(self).issued() == old(self).issued().push(id.raw),
            final(self).has_issued(),
    {
        let mut tries: u64 = 0;
        while tries < 1000000
            invariant
                *self == *old(self),
                old(self).wf(),
            decreases 1000000 - tries,
        {
            let m = current_millis();
            let now: u64 = if m < 0 {
                0
            } else if m as u64 > TIMESTAMP_MAX {
                TIMESTAMP_MAX
            } else {
                m as u64
            };
            match self.next_id(now) {
                Some(id) => {
                    return id;
                },
                None => {},
            }
            tries = tries + 1;
        }
        let bumped: u64 = if self.last_ts < TIMESTAMP_MAX {
            self.last_ts + 1
        } else {
            self.last_ts
        };
        match self.next_id(bumped) {
            Some(id) => id,
            None => {
                proof {
                    assert(false);
                }
                Snowflake { raw: 0 }
            },
        }
    }

    /// Identifiers issued by one generator are pairwise distinct, and
    /// their embedded timestamps never decrease in issuance order.
    pub proof fn lemma_issued_ids_unique(self)
        requires
            self.wf(),
        ensures
            forall|i: int, j: int|
                0 <= i < j < self.issued().len() ==> self.issued()[i] != self.issued()[j],
            forall|i: int, j: int|
                0 <= i < j < self.issued().len() ==> timestamp_of(self.issued()[i])
                    <= timestamp_of(self.issued()[j]),
    {
        assert forall|i: int, j: int| 0 <= i < j < self.issued().len() implies timestamp_of(
            self.issued()[i],
        ) <= timestamp_of(self.issued()[j]) by {
            lemma_timestamp_monotone(self.issued()[i], self.issued()[j]);
        }
    }
}

} // verus!
