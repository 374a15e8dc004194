use vstd::prelude::*;

verus! {

/// One snapshot of prices and network power across regions.
///
/// The six prices are carried as the IEEE-754 bit patterns of the observed
/// values. A `timestamp` of zero stands for "no snapshot" and is never stored.
#[derive(Clone, Copy, Debug, PartialEq, Eq, Structural)]
pub struct PricePerRegion {
    pub europe: u64,
    pub asia: u64,
    pub north_america: u64,
    pub other: u64,
    pub global: u64,
    pub fil_price: u64,
    /// Network power in TiB.
    pub power: u128,
    /// Epoch time in seconds; the key of the snapshot.
    pub timestamp: u64,
}

/// The all-zero record that reads return when there is no data.
pub open spec fn empty_snapshot() -> PricePerRegion {
    PricePerRegion {
        europe: 0,
        asia: 0,
        north_america: 0,
        other: 0,
        global: 0,
        fil_price: 0,
        power: 0,
        timestamp: 0,
    }
}

impl PricePerRegion {
    /// The all-zero record.
    pub fn empty() -> (r: PricePerRegion)
        ensures
            r == empty_snapshot(),
    {
        PricePerRegion {
            europe: 0,
            asia: 0,
            north_america: 0,
            other: 0,
            global: 0,
            fil_price: 0,
            power: 0,
            timestamp: 0,
        }
    }
}

/// Stored timestamps are distinct and never zero.
pub open spec fn timestamps_valid(s: Seq<PricePerRegion>) -> bool {
    &&& forall|i: int| 0 <= i < s.len() ==> #[trigger] s[i].timestamp != 0
    &&& forall|i: int, j: int|
        0 <= i < s.len() && 0 <= j < s.len() && i != j ==> s[i].timestamp != s[j].timestamp
}

pub open spec fn has_timestamp(s: Seq<PricePerRegion>, t: u64) -> bool {
    exists|i: int| 0 <= i < s.len() && s[i].timestamp == t
}

pub open spec fn index_of_timestamp(s: Seq<PricePerRegion>, t: u64) -> int {
    choose|i: int| 0 <= i < s.len() && s[i].timestamp == t
}

/// Update of a stored snapshot: the timestamp stays, every other field is replaced.
pub open spec fn merge_whole_replace(stored: PricePerRegion, incoming: PricePerRegion) -> PricePerRegion {
    PricePerRegion {
        europe: incoming.europe,
        asia: incoming.asia,
        north_america: incoming.north_america,
        other: incoming.other,
        global: incoming.global,
        fil_price: incoming.fil_price,
        power: incoming.power,
        timestamp: stored.timestamp,
    }
}

/// Upsert of one snapshot by timestamp; one with timestamp zero is not stored.
pub open spec fn upsert_snapshot(s: Seq<PricePerRegion>, p: PricePerRegion) -> Seq<PricePerRegion> {
    if p.timestamp == 0 {
        s
    } else if has_timestamp(s, p.timestamp) {
        let i = index_of_timestamp(s, p.timestamp);
        s.update(i, merge_whole_replace(s[i], p))
    } else {
        s.push(p)
    }
}

/// Removal of the snapshot with the given timestamp, if there is one.
pub open spec fn delete_snapshot(s: Seq<PricePerRegion>, t: u64) -> Seq<PricePerRegion> {
    if has_timestamp(s, t) {
        s.remove(index_of_timestamp(s, t))
    } else {
        s
    }
}

/// Removal of each listed timestamp in turn.
pub open spec fn delete_snapshots(s: Seq<PricePerRegion>, ts: Seq<u64>) -> Seq<PricePerRegion>
    decreases ts.len(),
{
    if ts.len() == 0 {
        s
    } else {
        delete_snapshot(delete_snapshots(s, ts.drop_last()), ts.last())
    }
}

/// The snapshot stored under `t`, or the empty record.
pub open spec fn snapshot_at(s: Seq<PricePerRegion>, t: u64) -> PricePerRegion {
    if has_timestamp(s, t) {
        s[index_of_timestamp(s, t)]
    } else {
        empty_snapshot()
    }
}

/// With distinct timestamps, the index of a present timestamp is the one that holds it.
pub proof fn lemma_index_of_timestamp(s: Seq<PricePerRegion>, i: int)
    requires
        timestamps_valid(s),
        0 <= i < s.len(),
    ensures
        has_timestamp(s, s[i].timestamp),
        index_of_timestamp(s, s[i].timestamp) == i,
{
    assert(s[i].timestamp == s[i].timestamp);
}

/// Position of the snapshot with the given timestamp.
fn find_snapshot(v: &Vec<PricePerRegion>, t: u64) -> (r: Option<usize>)
    requires
        timestamps_valid(v@),
    ensures
        match r {
            Some(i) => i < v@.len() && has_timestamp(v@, t) && index_of_timestamp(v@, t) == i,
            None => !has_timestamp(v@, t),
        },
{
    let mut i: usize = 0;
    while i < v.len()
        invariant
            i <= v@.len(),
            timestamps_valid(v@),
            forall|j: int| 0 <= j < i ==> v@[j].timestamp != t,
        decreases v@.len() - i,
    {
        if v[i].timestamp == t {
            proof {
                lemma_index_of_timestamp(v@, i as int);
            }
            return Some(i);
        }
        i += 1;
    }
    None
}

/// Upserts one snapshot by timestamp, replacing all other fields of a stored one.
pub fn upsert(v: &mut Vec<PricePerRegion>, p: PricePerRegion)
    requires
        timestamps_valid(old(v)@),
    ensures
        timestamps_valid(final(v)@),
        final(v)@ == upsert_snapshot(old(v)@, p),
{
    if p.timestamp == 0 {
        return;
    }
    match find_snapshot(v, p.timestamp) {
        Some(i) => {
            let merged = PricePerRegion {
                europe: p.europe,
                asia: p.asia,
                north_america: p.north_america,
                other: p.other,
                global: p.global,
                fil_price: p.fil_price,
                power: p.power,
                timestamp: v[i].timestamp,
            };
            v.set(i, merged);
        },
        None => {
            v.push(p);
        },
    }
}

/// Removes the snapshot with the given timestamp, if any.
fn delete_one(v: &mut Vec<PricePerRegion>, t: u64)
    requires
        timestamps_valid(old(v)@),
    ensures
        timestamps_valid(final(v)@),
        final(v)@ == delete_snapshot(old(v)@, t),
{
    match find_snapshot(v, t) {
        Some(i) => {
            v.remove(i);
        },
        None => {},
    }
}

/// Removes each listed timestamp in turn; timestamps that are not stored are skipped.
pub fn delete_all(v: &mut Vec<PricePerRegion>, ts: &Vec<u64>)
    requires
        timestamps_valid(old(v)@),
    ensures
        timestamps_valid(final(v)@),
        final(v)@ == delete_snapshots(old(v)@, ts@),
{
    let ghost s0 = v@;
    let mut k: usize = 0;
    while k < ts.len()
        invariant
            k <= ts@.len(),
            timestamps_valid(v@),
            v@ == delete_snapshots(s0, ts@.take(k as int)),
        decreases ts@.len() - k,
    {
        delete_one(v, ts[k]);
        assert(ts@.take(k as int + 1).drop_last() =~= ts@.take(k as int));
        k += 1;
    }
    assert(ts@.take(k as int) =~= ts@);
}

/// Whether the timestamps of `v` are distinct and non-zero.
pub fn timestamps_ok(v: &Vec<PricePerRegion>) -> (r: bool)
    ensures
        r == timestamps_valid(v@),
{
    let mut i: usize = 0;
    while i < v.len()
        invariant
            i <= v@.len(),
            forall|a: int| 0 <= a < i ==> #[trigger] v@[a].timestamp != 0,
            forall|a: int, b: int|
                0 <= a < i && 0 <= b < i && a != b ==> v@[a].timestamp != v@[b].timestamp,
        decreases v@.len() - i,
    {
        if v[i].timestamp == 0 {
            return false;
        }
        let mut j: usize = 0;
        while j < i
            invariant
                j <= i,
                i < v@.len(),
                v@[i as int].timestamp != 0,
                forall|a: int| 0 <= a < i ==> #[trigger] v@[a].timestamp != 0,
                forall|a: int, b: int|
                    0 <= a < i && 0 <= b < i && a != b ==> v@[a].timestamp != v@[b].timestamp,
                forall|b: int| 0 <= b < j ==> v@[b].timestamp != v@[i as int].timestamp,
            decreases i - j,
        {
            if v[j].timestamp == v[i].timestamp {
                return false;
            }
            j += 1;
        }
        i += 1;
    }
    true
}

/// The snapshot stored under `t`, or the empty record.
pub fn get_at(v: &Vec<PricePerRegion>, t: u64) -> (r: PricePerRegion)
    requires
        timestamps_valid(v@),
    ensures
        r == snapshot_at(v@, t),
{
    match find_snapshot(v, t) {
        Some(i) => v[i],
        None => PricePerRegion::empty(),
    }
}

} // verus!
