use vstd::prelude::*;

verus! {

/// One storage provider's listing.
///
/// `power` and `price` are carried as the IEEE-754 bit patterns of the
/// advertised values: the registry stores and returns them, never computes on them.
#[derive(Clone, Debug)]
pub struct StorageProvider {
    pub id: String,
    /// North America 1, Europe 2, Asia 3, Other 4.
    pub region: u8,
    pub power: u64,
    pub price: u64,
}

/// The mathematical value of a [`StorageProvider`].
pub struct StorageProviderView {
    pub id: Seq<char>,
    pub region: u8,
    pub power: u64,
    pub price: u64,
}

impl View for StorageProvider {
    type V = StorageProviderView;

    open spec fn view(&self) -> StorageProviderView {
        StorageProviderView { id: self.id@, region: self.region, power: self.power, price: self.price }
    }
}

pub open spec fn providers_view(v: Seq<StorageProvider>) -> Seq<StorageProviderView> {
    v.map_values(|p: StorageProvider| p@)
}

/// No two records share an id.
pub open spec fn ids_unique(s: Seq<StorageProviderView>) -> bool {
    forall|i: int, j: int|
        0 <= i < s.len() && 0 <= j < s.len() && i != j ==> s[i].id != s[j].id
}

pub open spec fn has_id(s: Seq<StorageProviderView>, id: Seq<char>) -> bool {
    exists|i: int| 0 <= i < s.len() && s[i].id == id
}

pub open spec fn index_of_id(s: Seq<StorageProviderView>, id: Seq<char>) -> int {
    choose|i: int| 0 <= i < s.len() && s[i].id == id
}

/// The stored record with the given id (meaningful when `has_id(s, id)`).
pub open spec fn record_of(s: Seq<StorageProviderView>, id: Seq<char>) -> StorageProviderView {
    s[index_of_id(s, id)]
}

/// Update of a stored record: id and region stay, power and price are replaced.
pub open spec fn merge_preserving_region(
    stored: StorageProviderView,
    incoming: StorageProviderView,
) -> StorageProviderView {
    StorageProviderView {
        id: stored.id,
        region: stored.region,
        power: incoming.power,
        price: incoming.price,
    }
}

/// Upsert of one record: merged into the record with its id, or appended.
pub open spec fn upsert_provider(
    s: Seq<StorageProviderView>,
    p: StorageProviderView,
) -> Seq<StorageProviderView> {
    if has_id(s, p.id) {
        s.update(index_of_id(s, p.id), merge_preserving_region(record_of(s, p.id), p))
    } else {
        s.push(p)
    }
}

/// Upsert of a batch, one record at a time in order.
pub open spec fn upsert_providers(
    s: Seq<StorageProviderView>,
    ps: Seq<StorageProviderView>,
) -> Seq<StorageProviderView>
    decreases ps.len(),
{
    if ps.len() == 0 {
        s
    } else {
        upsert_provider(upsert_providers(s, ps.drop_last()), ps.last())
    }
}

/// Removal of the record with the given id, if there is one; the others keep their order.
pub open spec fn delete_provider(
    s: Seq<StorageProviderView>,
    id: Seq<char>,
) -> Seq<StorageProviderView> {
    if has_id(s, id) {
        s.remove(index_of_id(s, id))
    } else {
        s
    }
}

/// Removal of each listed id in turn.
pub open spec fn delete_providers(
    s: Seq<StorageProviderView>,
    ids: Seq<Seq<char>>,
) -> Seq<StorageProviderView>
    decreases ids.len(),
{
    if ids.len() == 0 {
        s
    } else {
        delete_provider(delete_providers(s, ids.drop_last()), ids.last())
    }
}

pub open spec fn strings_view(v: Seq<String>) -> Seq<Seq<char>> {
    v.map_values(|s: String| s@)
}

/// With unique ids, the index of a present id is the one that holds it.
pub proof fn lemma_index_of_id(s: Seq<StorageProviderView>, i: int)
    requires
        ids_unique(s),
        0 <= i < s.len(),
    ensures
        has_id(s, s[i].id),
        index_of_id(s, s[i].id) == i,
{
    assert(s[i].id == s[i].id);
}

impl StorageProvider {
    /// A field-for-field copy.
    pub fn copy(&self) -> (r: StorageProvider)
        ensures
            r@ == self@,
    {
        StorageProvider { id: self.id.clone(), region: self.region, power: self.power, price: self.price }
    }
}

/// Position of the record with the given id.
fn find_provider(v: &Vec<StorageProvider>, id: &String) -> (r: Option<usize>)
    requires
        ids_unique(providers_view(v@)),
    ensures
        match r {
            Some(i) => i < v@.len() && has_id(providers_view(v@), id@) && index_of_id(
                providers_view(v@),
                id@,
            ) == i,
            None => !has_id(providers_view(v@), id@),
        },
{
    let ghost s = providers_view(v@);
    let mut i: usize = 0;
    while i < v.len()
        invariant
            i <= v@.len(),
            s == providers_view(v@),
            ids_unique(s),
            forall|j: int| 0 <= j < i ==> s[j].id != id@,
        decreases v@.len() - i,
    {
        if v[i].id == *id {
            proof {
                lemma_index_of_id(s, i as int);
            }
            return Some(i);
        }
        i += 1;
    }
    None
}

/// Upserts one record, keeping the stored region of a known id.
fn upsert_one(v: &mut Vec<StorageProvider>, sp: &StorageProvider)
    requires
        ids_unique(providers_view(old(v)@)),
    ensures
        ids_unique(providers_view(final(v)@)),
        providers_view(final(v)@) == upsert_provider(providers_view(old(v)@), sp@),
{
    let ghost s = providers_view(v@);
    match find_provider(v, &sp.id) {
        Some(i) => {
            let merged = StorageProvider {
                id: v[i].id.clone(),
                region: v[i].region,
                power: sp.power,
                price: sp.price,
            };
            v.set(i, merged);
            assert(providers_view(v@) =~= upsert_provider(s, sp@));
        },
        None => {
            v.push(sp.copy());
            assert(providers_view(v@) =~= upsert_provider(s, sp@));
        },
    }
}

/// Upserts each record of `sps` in order.
pub fn upsert_all(v: &mut Vec<StorageProvider>, sps: &Vec<StorageProvider>)
    requires
        ids_unique(providers_view(old(v)@)),
    ensures
        ids_unique(providers_view(final(v)@)),
        providers_view(final(v)@) == upsert_providers(
            providers_view(old(v)@),
            providers_view(sps@),
        ),
{
    let ghost s0 = providers_view(v@);
    let ghost ps = providers_view(sps@);
    let mut k: usize = 0;
    while k < sps.len()
        invariant
            k <= sps@.len(),
            ps == providers_view(sps@),
            ids_unique(providers_view(v@)),
            providers_view(v@) == upsert_providers(s0, ps.take(k as int)),
        decreases sps@.len() - k,
    {
        upsert_one(v, &sps[k]);
        assert(ps.take(k as int + 1).drop_last() =~= ps.take(k as int));
        k += 1;
    }
    assert(ps.take(k as int) =~= ps);
}

/// Removes the record with the given id, if any.
fn delete_one(v: &mut Vec<StorageProvider>, id: &String)
    requires
        ids_unique(providers_view(old(v)@)),
    ensures
        ids_unique(providers_view(final(v)@)),
        providers_view(final(v)@) == delete_provider(providers_view(old(v)@), id@),
{
    let ghost s = providers_view(v@);
    match find_provider(v, id) {
        Some(i) => {
            v.remove(i);
            assert(providers_view(v@) =~= delete_provider(s, id@));
        },
        None => {},
    }
}

/// Removes each listed id in turn; ids that are not stored are skipped.
pub fn delete_all(v: &mut Vec<StorageProvider>, ids: &Vec<String>)
    requires
        ids_unique(providers_view(old(v)@)),
    ensures
        ids_unique(providers_view(final(v)@)),
        providers_view(final(v)@) == delete_providers(
            providers_view(old(v)@),
            strings_view(ids@),
        ),
{
    let ghost s0 = providers_view(v@);
    let ghost xs = strings_view(ids@);
    let mut k: usize = 0;
    while k < ids.len()
        invariant
            k <= ids@.len(),
            xs == strings_view(ids@),
            ids_unique(providers_view(v@)),
            providers_view(v@) == delete_providers(s0, xs.take(k as int)),
        decreases ids@.len() - k,
    {
        delete_one(v, &ids[k]);
        assert(xs.take(k as int + 1).drop_last() =~= xs.take(k as int));
        k += 1;
    }
    assert(xs.take(k as int) =~= xs);
}

/// Whether no two records of `v` share an id.
pub fn ids_distinct(v: &Vec<StorageProvider>) -> (r: bool)
    ensures
        r == ids_unique(providers_view(v@)),
{
    let ghost s = providers_view(v@);
    let mut i: usize = 0;
    while i < v.len()
        invariant
            i <= v@.len(),
            s == providers_view(v@),
            forall|a: int, b: int| 0 <= a < i && 0 <= b < i && a != b ==> s[a].id != s[b].id,
        decreases v@.len() - i,
    {
        let mut j: usize = 0;
        while j < i
            invariant
                j <= i,
                i < v@.len(),
                s == providers_view(v@),
                forall|a: int, b: int| 0 <= a < i && 0 <= b < i && a != b ==> s[a].id != s[b].id,
                forall|b: int| 0 <= b < j ==> s[b].id != s[i as int].id,
            decreases i - j,
        {
            if v[j].id == v[i].id {
                assert(s[j as int].id == s[i as int].id);
                return false;
            }
            j += 1;
        }
        i += 1;
    }
    true
}

/// A copy of every record, in stored order.
pub fn copy_all(v: &Vec<StorageProvider>) -> (r: Vec<StorageProvider>)
    ensures
        providers_view(r@) == providers_view(v@),
{
    let mut r: Vec<StorageProvider> = Vec::new();
    let mut k: usize = 0;
    while k < v.len()
        invariant
            k <= v@.len(),
            r@.len() == k,
            forall|j: int| 0 <= j < k ==> #[trigger] r@[j]@ == v@[j]@,
        decreases v@.len() - k,
    {
        let c = v[k].copy();
        r.push(c);
        k += 1;
    }
    assert(providers_view(r@) =~= providers_view(v@));
    r
}

} // verus!
