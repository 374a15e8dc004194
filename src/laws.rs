use vstd::prelude::*;

use crate::market::FilMarketView;
use crate::price::{
    has_timestamp, index_of_timestamp, lemma_index_of_timestamp, merge_whole_replace,
    snapshot_at, timestamps_valid, upsert_snapshot, PricePerRegion,
};
use crate::provider::{
    delete_provider, delete_providers, has_id, ids_unique, index_of_id, lemma_index_of_id,
    merge_preserving_region, record_of, upsert_provider, upsert_providers, StorageProviderView,
};

verus! {

/// What one provider upsert does to each id.
proof fn lemma_upsert_provider_step(s: Seq<StorageProviderView>, p: StorageProviderView)
    requires
        ids_unique(s),
    ensures
        ids_unique(upsert_provider(s, p)),
        forall|id: Seq<char>| #[trigger]
            has_id(upsert_provider(s, p), id) == (has_id(s, id) || id == p.id),
        has_id(s, p.id) ==> record_of(upsert_provider(s, p), p.id) == merge_preserving_region(
            record_of(s, p.id),
            p,
        ),
        !has_id(s, p.id) ==> record_of(upsert_provider(s, p), p.id) == p,
        forall|id: Seq<char>|
            id != p.id && has_id(s, id) ==> #[trigger] record_of(upsert_provider(s, p), id)
                == record_of(s, id),
{
    let r = upsert_provider(s, p);
    if has_id(s, p.id) {
        let i = index_of_id(s, p.id);
        assert(r[i].id == p.id);
        lemma_index_of_id(r, i);
        assert forall|id: Seq<char>| #[trigger] has_id(r, id) == (has_id(s, id) || id == p.id) by {
            if has_id(s, id) {
                let j = index_of_id(s, id);
                assert(r[j].id == id);
            }
            if has_id(r, id) {
                let j = index_of_id(r, id);
                assert(s[j].id == id);
            }
        }
        assert forall|id: Seq<char>| id != p.id && has_id(s, id) implies #[trigger] record_of(
            r,
            id,
        ) == record_of(s, id) by {
            let j = index_of_id(s, id);
            lemma_index_of_id(r, j);
        }
    } else {
        let n = s.len() as int;
        assert(ids_unique(r));
        lemma_index_of_id(r, n);
        assert forall|id: Seq<char>| #[trigger] has_id(r, id) == (has_id(s, id) || id == p.id) by {
            if has_id(s, id) {
                let j = index_of_id(s, id);
                assert(r[j].id == id);
            }
            if has_id(r, id) && id != p.id {
                let j = index_of_id(r, id);
                assert(s[j].id == id);
            }
        }
        assert forall|id: Seq<char>| id != p.id && has_id(s, id) implies #[trigger] record_of(
            r,
            id,
        ) == record_of(s, id) by {
            let j = index_of_id(s, id);
            lemma_index_of_id(r, j);
        }
    }
}

/// The region of a listing is the one it was first written with.
///
/// An id already stored keeps its region through any batch of upserts, whatever
/// region the batch gives it; an id that a batch introduces takes the region of
/// its first occurrence in the batch. The batch stores exactly the ids that were
/// stored or that it names, each once.
pub proof fn law_region_is_first_written(
    s: Seq<StorageProviderView>,
    ps: Seq<StorageProviderView>,
    id: Seq<char>,
)
    requires
        ids_unique(s),
    ensures
        ids_unique(upsert_providers(s, ps)),
        has_id(upsert_providers(s, ps), id) == (has_id(s, id) || exists|k: int|
            0 <= k < ps.len() && #[trigger] ps[k].id == id),
        has_id(s, id) ==> record_of(upsert_providers(s, ps), id).region == record_of(s, id).region,
        forall|k: int|
            0 <= k < ps.len() && #[trigger] ps[k].id == id && !has_id(s, id) && (forall|j: int|
                0 <= j < k ==> ps[j].id != id) ==> record_of(upsert_providers(s, ps), id).region
                == ps[k].region,
    decreases ps.len(),
{
    if ps.len() > 0 {
        let q = ps.drop_last();
        let p = ps.last();
        let m = upsert_providers(s, q);
        let r = upsert_providers(s, ps);
        law_region_is_first_written(s, q, id);
        lemma_upsert_provider_step(m, p);
        assert(r == upsert_provider(m, p));
        let in_q = exists|k: int| 0 <= k < q.len() && #[trigger] q[k].id == id;
        let in_ps = exists|k: int| 0 <= k < ps.len() && #[trigger] ps[k].id == id;
        assert(in_ps == (in_q || p.id == id)) by {
            if in_q {
                let k = choose|k: int| 0 <= k < q.len() && #[trigger] q[k].id == id;
                assert(ps[k].id == id);
            }
            if p.id == id {
                assert(ps[ps.len() - 1].id == id);
            }
            if in_ps {
                let k = choose|k: int| 0 <= k < ps.len() && #[trigger] ps[k].id == id;
                if k < q.len() {
                    assert(q[k].id == id);
                }
            }
        }
        assert forall|k: int|
            0 <= k < ps.len() && #[trigger] ps[k].id == id && !has_id(s, id) && (forall|j: int|
                0 <= j < k ==> ps[j].id != id) implies record_of(r, id).region == ps[k].region by {
            if k < q.len() {
                assert(q[k].id == id);
                assert forall|j: int| 0 <= j < k implies q[j].id != id by {
                    assert(ps[j].id != id);
                }
            } else {
                assert forall|j: int| 0 <= j < q.len() implies #[trigger] q[j].id != id by {
                    assert(ps[j].id != id);
                }
            }
        }
    }
}

/// The power and price of a listing are those of its last occurrence in a batch.
pub proof fn law_last_write_sets_power_and_price(
    s: Seq<StorageProviderView>,
    ps: Seq<StorageProviderView>,
    id: Seq<char>,
)
    requires
        ids_unique(s),
    ensures
        forall|k: int|
            0 <= k < ps.len() && #[trigger] ps[k].id == id && (forall|j: int|
                k < j < ps.len() ==> ps[j].id != id) ==> has_id(upsert_providers(s, ps), id)
                && record_of(upsert_providers(s, ps), id).power == ps[k].power && record_of(
                upsert_providers(s, ps),
                id,
            ).price == ps[k].price,
    decreases ps.len(),
{
    if ps.len() > 0 {
        let q = ps.drop_last();
        let p = ps.last();
        let m = upsert_providers(s, q);
        let r = upsert_providers(s, ps);
        law_region_is_first_written(s, q, id);
        law_last_write_sets_power_and_price(s, q, id);
        lemma_upsert_provider_step(m, p);
        assert(r == upsert_provider(m, p));
        assert forall|k: int|
            0 <= k < ps.len() && #[trigger] ps[k].id == id && (forall|j: int|
                k < j < ps.len() ==> ps[j].id != id) implies has_id(r, id) && record_of(r, id).power
            == ps[k].power && record_of(r, id).price == ps[k].price by {
            if k < q.len() {
                assert(p.id != id) by {
                    assert(ps[ps.len() - 1].id != id);
                }
                assert(q[k].id == id);
                assert forall|j: int| k < j < q.len() implies q[j].id != id by {
                    assert(ps[j].id != id);
                }
            }
        }
    }
}

/// What one delete does to each id.
proof fn lemma_delete_provider_step(s: Seq<StorageProviderView>, x: Seq<char>)
    requires
        ids_unique(s),
    ensures
        ids_unique(delete_provider(s, x)),
        forall|id: Seq<char>| #[trigger]
            has_id(delete_provider(s, x), id) == (has_id(s, id) && id != x),
{
    let r = delete_provider(s, x);
    if has_id(s, x) {
        let i = index_of_id(s, x);
        assert(s[i].id == x);
        assert(ids_unique(r)) by {
            assert forall|a: int, b: int|
                0 <= a < r.len() && 0 <= b < r.len() && a != b implies r[a].id != r[b].id by {
                let sa = if a < i { a } else { a + 1 };
                let sb = if b < i { b } else { b + 1 };
                assert(r[a] == s[sa]);
                assert(r[b] == s[sb]);
            }
        }
        assert forall|id: Seq<char>| #[trigger] has_id(r, id) == (has_id(s, id) && id != x) by {
            if has_id(r, id) {
                let j = index_of_id(r, id);
                let sj = if j < i { j } else { j + 1 };
                assert(r[j] == s[sj]);
                assert(s[sj].id == id);
            }
            if has_id(s, id) && id != x {
                let j = index_of_id(s, id);
                assert(j != i);
                let rj = if j < i { j } else { j - 1 };
                assert(r[rj] == s[j]);
                assert(r[rj].id == id);
            }
        }
    }
}

/// After a batch of deletes none of the listed ids is stored, every other stored
/// id still is, and ids stay unique.
pub proof fn law_deleted_ids_are_gone(s: Seq<StorageProviderView>, ids: Seq<Seq<char>>)
    requires
        ids_unique(s),
    ensures
        ids_unique(delete_providers(s, ids)),
        forall|id: Seq<char>| #[trigger]
            has_id(delete_providers(s, ids), id) == (has_id(s, id) && !ids.contains(id)),
    decreases ids.len(),
{
    if ids.len() > 0 {
        let q = ids.drop_last();
        law_deleted_ids_are_gone(s, q);
        lemma_delete_provider_step(delete_providers(s, q), ids.last());
        assert forall|id: Seq<char>| #[trigger] ids.contains(id) == (q.contains(id) || id
            == ids.last()) by {
            if ids.contains(id) {
                let k = choose|k: int| 0 <= k < ids.len() && ids[k] == id;
                if k < q.len() {
                    assert(q[k] == id);
                }
            }
            if q.contains(id) {
                let k = choose|k: int| 0 <= k < q.len() && q[k] == id;
                assert(ids[k] == id);
            }
            if id == ids.last() {
                assert(ids[ids.len() - 1] == id);
            }
        }
    }
}

/// Deleting ids that are not stored leaves the listings exactly as they were.
pub proof fn law_delete_missing_is_noop(s: Seq<StorageProviderView>, ids: Seq<Seq<char>>)
    requires
        forall|k: int| 0 <= k < ids.len() ==> !has_id(s, #[trigger] ids[k]),
    ensures
        delete_providers(s, ids) == s,
    decreases ids.len(),
{
    if ids.len() > 0 {
        let q = ids.drop_last();
        assert forall|k: int| 0 <= k < q.len() implies !has_id(s, #[trigger] q[k]) by {
            assert(q[k] == ids[k]);
        }
        law_delete_missing_is_noop(s, q);
        assert(!has_id(s, ids[ids.len() - 1]));
    }
}

/// The latest snapshot read back after writing one with a non-zero timestamp is
/// exactly that snapshot, whatever timestamps, larger or smaller, were stored before.
pub proof fn law_latest_is_last_written(v: FilMarketView, p: PricePerRegion)
    requires
        v.wf(),
        p.timestamp != 0,
    ensures
        (FilMarketView {
            price_per_region: upsert_snapshot(v.price_per_region, p),
            latest_timestamp: p.timestamp,
            ..v
        }).wf(),
        (FilMarketView {
            price_per_region: upsert_snapshot(v.price_per_region, p),
            latest_timestamp: p.timestamp,
            ..v
        }).latest() == p,
{
    let s = v.price_per_region;
    let r = upsert_snapshot(s, p);
    if has_timestamp(s, p.timestamp) {
        let i = index_of_timestamp(s, p.timestamp);
        assert(r[i] == merge_whole_replace(s[i], p));
        assert(timestamps_valid(r));
        lemma_index_of_timestamp(r, i);
    } else {
        let n = s.len() as int;
        assert(timestamps_valid(r));
        lemma_index_of_timestamp(r, n);
    }
    assert(snapshot_at(r, p.timestamp) == p);
}

} // verus!
