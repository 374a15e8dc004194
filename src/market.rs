use vstd::prelude::*;

use crate::access::is_owner;
use crate::active::ActivePerRegion;
use crate::price::{
    delete_snapshots, get_at, snapshot_at, timestamps_ok, timestamps_valid, upsert, upsert_snapshot,
    PricePerRegion,
};
use crate::provider::{
    copy_all, delete_providers, ids_distinct, ids_unique, providers_view, strings_view, upsert_all,
    upsert_providers, StorageProvider, StorageProviderView,
};

verus! {

/// The registry: provider listings, price snapshots, active counts and the owner.
///
/// Every mutation names its caller; a caller other than the owner changes nothing
/// and the call still returns normally. Reads are open to all.
pub struct FilMarket {
    storage_providers: Vec<StorageProvider>,
    price_per_region: Vec<PricePerRegion>,
    active_per_region: ActivePerRegion,
    latest_timestamp: u64,
    owner: String,
}

/// The mathematical value of a [`FilMarket`].
pub struct FilMarketView {
    /// Listings in order of first insertion.
    pub storage_providers: Seq<StorageProviderView>,
    /// Snapshots in order of first insertion.
    pub price_per_region: Seq<PricePerRegion>,
    pub active_per_region: ActivePerRegion,
    /// Timestamp of the last snapshot written, whether or not it is still stored.
    pub latest_timestamp: u64,
    pub owner: Seq<char>,
}

impl View for FilMarket {
    type V = FilMarketView;

    closed spec fn view(&self) -> FilMarketView {
        FilMarketView {
            storage_providers: providers_view(self.storage_providers@),
            price_per_region: self.price_per_region@,
            active_per_region: self.active_per_region,
            latest_timestamp: self.latest_timestamp,
            owner: self.owner@,
        }
    }
}

impl FilMarketView {
    /// Listing ids are unique; snapshot timestamps are unique and non-zero.
    pub open spec fn wf(self) -> bool {
        ids_unique(self.storage_providers) && timestamps_valid(self.price_per_region)
    }

    /// The snapshot that reads report as the latest.
    pub open spec fn latest(self) -> PricePerRegion {
        snapshot_at(self.price_per_region, self.latest_timestamp)
    }
}

impl FilMarket {
    pub open spec fn wf(&self) -> bool {
        self@.wf()
    }

    /// An empty registry owned by `owner`, the identity that creates it.
    pub fn new(owner: String) -> (r: FilMarket)
        ensures
            r.wf(),
            r@.storage_providers == Seq::<StorageProviderView>::empty(),
            r@.price_per_region == Seq::<PricePerRegion>::empty(),
            r@.active_per_region == (ActivePerRegion { europe: 0, asia: 0, north_america: 0, other: 0 }),
            r@.latest_timestamp == 0,
            r@.owner == owner@,
    {
        let r = FilMarket {
            storage_providers: Vec::new(),
            price_per_region: Vec::new(),
            active_per_region: ActivePerRegion::zero(),
            latest_timestamp: 0,
            owner,
        };
        assert(r@.storage_providers =~= Seq::<StorageProviderView>::empty());
        r
    }

    /// A registry rebuilt from its parts, as a host that persists them between
    /// calls hands them back; `None` when two listings share an id or two
    /// snapshots a timestamp, or a snapshot has timestamp zero.
    pub fn restore(
        owner: String,
        storage_providers: Vec<StorageProvider>,
        price_per_region: Vec<PricePerRegion>,
        active_per_region: ActivePerRegion,
        latest_timestamp: u64,
    ) -> (r: Option<FilMarket>)
        ensures
            ({
                let v = FilMarketView {
                    storage_providers: providers_view(storage_providers@),
                    price_per_region: price_per_region@,
                    active_per_region,
                    latest_timestamp,
                    owner: owner@,
                };
                match r {
                    Some(m) => v.wf() && m@ == v,
                    None => !v.wf(),
                }
            }),
    {
        if !ids_distinct(&storage_providers) || !timestamps_ok(&price_per_region) {
            return None;
        }
        Some(
            FilMarket {
                storage_providers,
                price_per_region,
                active_per_region,
                latest_timestamp,
                owner,
            },
        )
    }

    /// Timestamp of the last snapshot written.
    pub fn latest_timestamp(&self) -> (r: u64)
        ensures
            r == self@.latest_timestamp,
    {
        self.latest_timestamp
    }

    /// The identity allowed to mutate the registry.
    pub fn owner(&self) -> (r: &String)
        ensures
            r@ == self@.owner,
    {
        &self.owner
    }

    /// Adds or updates listings, in order: a new id is stored as given; a known id
    /// keeps its region and takes the new power and price.
    pub fn update_storage_providers(
        &mut self,
        caller: &String,
        storage_providers: Vec<StorageProvider>,
    )
        requires
            old(self).wf(),
        ensures
            final(self).wf(),
            final(self)@ == (if caller@ == old(self)@.owner {
                FilMarketView {
                    storage_providers: upsert_providers(
                        old(self)@.storage_providers,
                        providers_view(storage_providers@),
                    ),
                    ..old(self)@
                }
            } else {
                old(self)@
            }),
    {
        if !is_owner(caller, &self.owner) {
            return;
        }
        upsert_all(&mut self.storage_providers, &storage_providers);
    }

    /// Removes the listings with the given ids; unknown ids are skipped.
    pub fn delete_storage_providers(&mut self, caller: &String, storage_providers: Vec<String>)
        requires
            old(self).wf(),
        ensures
            final(self).wf(),
            final(self)@ == (if caller@ == old(self)@.owner {
                FilMarketView {
                    storage_providers: delete_providers(
                        old(self)@.storage_providers,
                        strings_view(storage_providers@),
                    ),
                    ..old(self)@
                }
            } else {
                old(self)@
            }),
    {
        if !is_owner(caller, &self.owner) {
            return;
        }
        crate::provider::delete_all(&mut self.storage_providers, &storage_providers);
    }

    /// Every listing, in order of first insertion.
    pub fn get_storage_providers(&self) -> (r: Vec<StorageProvider>)
        ensures
            providers_view(r@) == self@.storage_providers,
    {
        copy_all(&self.storage_providers)
    }

    /// Replaces the four active counts.
    pub fn set_active_per_region(&mut self, caller: &String, active_per_region: ActivePerRegion)
        requires
            old(self).wf(),
        ensures
            final(self).wf(),
            final(self)@ == (if caller@ == old(self)@.owner {
                FilMarketView { active_per_region, ..old(self)@ }
            } else {
                old(self)@
            }),
    {
        if !is_owner(caller, &self.owner) {
            return;
        }
        self.active_per_region = active_per_region;
    }

    /// The four active counts.
    pub fn get_active_per_region(&self) -> (r: ActivePerRegion)
        ensures
            r == self@.active_per_region,
    {
        self.active_per_region
    }

    /// Stores a snapshot under its timestamp, replacing all fields of one stored
    /// there, and makes its timestamp the latest, whether or not it is the largest.
    pub fn set_price_per_region(&mut self, caller: &String, price_per_region: PricePerRegion)
        requires
            old(self).wf(),
        ensures
            final(self).wf(),
            final(self)@ == (if caller@ == old(self)@.owner {
                FilMarketView {
                    price_per_region: upsert_snapshot(old(self)@.price_per_region, price_per_region),
                    latest_timestamp: price_per_region.timestamp,
                    ..old(self)@
                }
            } else {
                old(self)@
            }),
    {
        if !is_owner(caller, &self.owner) {
            return;
        }
        upsert(&mut self.price_per_region, price_per_region);
        self.latest_timestamp = price_per_region.timestamp;
    }

    /// Every snapshot, in order of first insertion.
    pub fn get_price_per_region_list(&self) -> (r: Vec<PricePerRegion>)
        ensures
            r@ == self@.price_per_region,
    {
        self.price_per_region.clone()
    }

    /// The snapshot stored under the latest timestamp, or the all-zero record
    /// when none is stored there.
    pub fn get_latest_price_per_region(&self) -> (r: PricePerRegion)
        requires
            self.wf(),
        ensures
            r == self@.latest(),
    {
        get_at(&self.price_per_region, self.latest_timestamp)
    }

    /// Removes the snapshots with the given timestamps; unknown ones are skipped.
    /// The latest timestamp is left as it was.
    pub fn delete_price_per_region(&mut self, caller: &String, timestamps: Vec<u64>)
        requires
            old(self).wf(),
        ensures
            final(self).wf(),
            final(self)@ == (if caller@ == old(self)@.owner {
                FilMarketView {
                    price_per_region: delete_snapshots(old(self)@.price_per_region, timestamps@),
                    ..old(self)@
                }
            } else {
                old(self)@
            }),
    {
        if !is_owner(caller, &self.owner) {
            return;
        }
        crate::price::delete_all(&mut self.price_per_region, &timestamps);
    }
}

} // verus!
