use fil_market::{is_owner, ActivePerRegion, FilMarket, PricePerRegion, StorageProvider};

const NORTH_AMERICA: u8 = 1;
const EUROPE: u8 = 2;
const ASIA: u8 = 3;
const OTHER: u8 = 4;

fn carol() -> String {
    "carol_near".to_string()
}

fn sp(id: &str, region: u8, power: f64, price: f64) -> StorageProvider {
    StorageProvider { id: id.to_string(), region, power: power.to_bits(), price: price.to_bits() }
}

fn snapshot(timestamp: u64, europe: f64, power: u128) -> PricePerRegion {
    PricePerRegion {
        europe: europe.to_bits(),
        asia: 0.5f64.to_bits(),
        north_america: 0.25f64.to_bits(),
        other: 0.125f64.to_bits(),
        global: 1.5f64.to_bits(),
        fil_price: 64.245f64.to_bits(),
        power,
        timestamp,
    }
}

#[test]
fn set_then_get_remove_storage_providers() {
    let mut contract = FilMarket::new(carol());
    let sp_list = vec![
        sp("id1", EUROPE, 24.64, 0.46),
        sp("id2", ASIA, 5693.0, 0.6778),
        sp("id3", NORTH_AMERICA, 54.64, 0.43),
        sp("id4", OTHER, 454.64, 0.143),
    ];

    contract.update_storage_providers(&carol(), sp_list);
    contract.delete_storage_providers(&carol(), vec!["id4".to_string()]);
    let result = contract.get_storage_providers();

    assert_eq!(3, result.len());
    assert_eq!("id1".to_string(), result[0].id);
    assert_eq!("id2".to_string(), result[1].id);
    assert_eq!("id3".to_string(), result[2].id);
}

#[test]
fn set_then_get_active_per_region() {
    let mut contract = FilMarket::new(carol());
    let active_per_region = ActivePerRegion { europe: 3, asia: 24, north_america: 12, other: 45 };

    contract.set_active_per_region(&carol(), active_per_region);
    let result = contract.get_active_per_region();

    assert_eq!(3, result.europe);
    assert_eq!(24, result.asia);
    assert_eq!(12, result.north_america);
    assert_eq!(45, result.other);
}

#[test]
fn set_then_get_price_per_region() {
    let mut contract = FilMarket::new(carol());
    let price_per_region = PricePerRegion {
        europe: 0.00013f64.to_bits(),
        asia: 0.0004f64.to_bits(),
        north_america: 0.0002f64.to_bits(),
        other: 0.00005f64.to_bits(),
        global: 0.00034f64.to_bits(),
        fil_price: 64.245f64.to_bits(),
        power: 1024,
        timestamp: 1,
    };

    contract.set_price_per_region(&carol(), price_per_region);
    let result = contract.get_price_per_region_list();

    assert_eq!(0.00013, f64::from_bits(result[0].europe));
    assert_eq!(0.0004, f64::from_bits(result[0].asia));
    assert_eq!(0.0002, f64::from_bits(result[0].north_america));
    assert_eq!(0.00005, f64::from_bits(result[0].other));
    assert_eq!(0.00034, f64::from_bits(result[0].global));
    assert_eq!(64.245, f64::from_bits(result[0].fil_price));
    assert_eq!(1024, result[0].power);
    assert_eq!(1, result[0].timestamp);
}

#[test]
fn new_registry_is_empty() {
    let contract = FilMarket::new("alice".to_string());
    assert_eq!(contract.owner(), "alice");
    assert!(contract.get_storage_providers().is_empty());
    assert!(contract.get_price_per_region_list().is_empty());
    assert_eq!(contract.get_active_per_region(), ActivePerRegion::default());
    assert_eq!(contract.get_latest_price_per_region(), PricePerRegion::empty());
}

#[test]
fn access_guard_compares_identities() {
    assert!(is_owner(&"alice".to_string(), &"alice".to_string()));
    assert!(!is_owner(&"bob".to_string(), &"alice".to_string()));
    assert!(!is_owner(&"".to_string(), &"alice".to_string()));
}

#[test]
fn region_stays_as_first_written() {
    let mut m = FilMarket::new("a".to_string());
    m.update_storage_providers(&"a".to_string(), vec![sp("p1", EUROPE, 10.0, 1.0)]);
    m.update_storage_providers(&"a".to_string(), vec![sp("p1", ASIA, 11.0, 2.0)]);
    m.update_storage_providers(
        &"a".to_string(),
        vec![sp("p2", OTHER, 1.0, 1.0), sp("p2", NORTH_AMERICA, 2.0, 2.0), sp("p1", OTHER, 12.0, 3.0)],
    );
    let list = m.get_storage_providers();
    assert_eq!(list.len(), 2);
    assert_eq!(list[0].id, "p1");
    assert_eq!(list[0].region, EUROPE);
    assert_eq!(list[1].id, "p2");
    assert_eq!(list[1].region, OTHER);
}

#[test]
fn repeated_upsert_keeps_last_power_and_price() {
    let mut m = FilMarket::new("a".to_string());
    m.update_storage_providers(&"a".to_string(), vec![sp("p1", EUROPE, 10.0, 1.0)]);
    m.update_storage_providers(&"a".to_string(), vec![sp("p1", EUROPE, 20.0, 2.5)]);
    m.update_storage_providers(&"a".to_string(), vec![sp("p1", ASIA, 30.0, 3.5), sp("p1", ASIA, 40.0, 4.5)]);
    let list = m.get_storage_providers();
    assert_eq!(list.len(), 1);
    assert_eq!(f64::from_bits(list[0].power), 40.0);
    assert_eq!(f64::from_bits(list[0].price), 4.5);
    assert_eq!(list[0].region, EUROPE);
}

#[test]
fn deleted_provider_is_gone_and_missing_delete_is_noop() {
    let mut m = FilMarket::new("a".to_string());
    m.update_storage_providers(
        &"a".to_string(),
        vec![sp("x", EUROPE, 1.0, 1.0), sp("y", ASIA, 2.0, 2.0), sp("z", OTHER, 3.0, 3.0)],
    );
    m.delete_storage_providers(&"a".to_string(), vec!["x".to_string()]);
    let list = m.get_storage_providers();
    assert!(list.iter().all(|p| p.id != "x"));
    let ids: Vec<String> = list.iter().map(|p| p.id.clone()).collect();
    assert_eq!(ids, vec!["y".to_string(), "z".to_string()]);

    m.delete_storage_providers(&"a".to_string(), vec!["nope".to_string(), "x".to_string()]);
    let again: Vec<String> = m.get_storage_providers().iter().map(|p| p.id.clone()).collect();
    assert_eq!(again, ids);
}

#[test]
fn latest_snapshot_is_last_written_even_if_older() {
    let mut m = FilMarket::new("a".to_string());
    m.set_price_per_region(&"a".to_string(), snapshot(10, 1.0, 100));
    let s = snapshot(4, 2.0, 200);
    m.set_price_per_region(&"a".to_string(), s);
    assert_eq!(m.get_latest_price_per_region(), s);
    assert_eq!(m.get_price_per_region_list().len(), 2);
}

#[test]
fn snapshot_upsert_replaces_all_fields() {
    let mut m = FilMarket::new("a".to_string());
    m.set_price_per_region(&"a".to_string(), snapshot(7, 1.0, 100));
    m.set_price_per_region(&"a".to_string(), snapshot(9, 3.0, 300));
    m.set_price_per_region(&"a".to_string(), snapshot(7, 2.0, 200));
    let list = m.get_price_per_region_list();
    assert_eq!(list.len(), 2);
    assert_eq!(list[0], snapshot(7, 2.0, 200));
    assert_eq!(list[1], snapshot(9, 3.0, 300));
    assert_eq!(m.get_latest_price_per_region(), snapshot(7, 2.0, 200));
}

#[test]
fn deleting_latest_snapshot_leaves_empty_latest() {
    let mut m = FilMarket::new("a".to_string());
    m.set_price_per_region(&"a".to_string(), snapshot(3, 1.0, 100));
    m.set_price_per_region(&"a".to_string(), snapshot(5, 2.0, 200));
    m.delete_price_per_region(&"a".to_string(), vec![5, 42]);
    assert_eq!(m.get_price_per_region_list(), vec![snapshot(3, 1.0, 100)]);
    assert_eq!(m.get_latest_price_per_region(), PricePerRegion::empty());
}

#[test]
fn zero_timestamp_snapshot_is_not_stored() {
    let mut m = FilMarket::new("a".to_string());
    m.set_price_per_region(&"a".to_string(), snapshot(3, 1.0, 100));
    m.set_price_per_region(&"a".to_string(), snapshot(0, 2.0, 200));
    assert_eq!(m.get_price_per_region_list(), vec![snapshot(3, 1.0, 100)]);
    assert_eq!(m.get_latest_price_per_region(), PricePerRegion::empty());
}

#[test]
fn non_owner_changes_nothing() {
    let mut m = FilMarket::new("a".to_string());
    m.update_storage_providers(&"a".to_string(), vec![sp("p1", EUROPE, 10.0, 1.0)]);
    m.set_price_per_region(&"a".to_string(), snapshot(5, 1.0, 100));
    m.set_active_per_region(&"a".to_string(), ActivePerRegion { europe: 1, asia: 2, north_america: 3, other: 4 });

    let bob = "b".to_string();
    m.update_storage_providers(&bob, vec![sp("p1", ASIA, 99.0, 9.0), sp("p9", ASIA, 1.0, 1.0)]);
    m.delete_storage_providers(&bob, vec!["p1".to_string()]);
    m.set_price_per_region(&bob, snapshot(6, 9.0, 900));
    m.delete_price_per_region(&bob, vec![5]);
    m.set_active_per_region(&bob, ActivePerRegion { europe: 9, asia: 9, north_america: 9, other: 9 });

    let list = m.get_storage_providers();
    assert_eq!(list.len(), 1);
    assert_eq!(list[0].id, "p1");
    assert_eq!(list[0].region, EUROPE);
    assert_eq!(f64::from_bits(list[0].power), 10.0);
    assert_eq!(m.get_price_per_region_list(), vec![snapshot(5, 1.0, 100)]);
    assert_eq!(m.get_latest_price_per_region(), snapshot(5, 1.0, 100));
    assert_eq!(m.get_active_per_region(), ActivePerRegion { europe: 1, asia: 2, north_america: 3, other: 4 });
}

#[test]
fn end_to_end_upsert_then_delete() {
    let a = "A".to_string();
    let mut m = FilMarket::new(a.clone());
    m.update_storage_providers(&a, vec![sp("p1", EUROPE, 10.0, 1.0), sp("p2", ASIA, 20.0, 2.0)]);
    m.delete_storage_providers(&a, vec!["p2".to_string()]);
    let list = m.get_storage_providers();
    assert_eq!(list.len(), 1);
    assert_eq!(list[0].id, "p1");
    assert_eq!(list[0].region, EUROPE);
    assert_eq!(f64::from_bits(list[0].power), 10.0);
    assert_eq!(f64::from_bits(list[0].price), 1.0);
}

#[test]
fn end_to_end_latest_pointer_follows_last_write() {
    let a = "A".to_string();
    let mut m = FilMarket::new(a.clone());
    m.set_price_per_region(&a, snapshot(5, 1.0, 100));
    m.set_price_per_region(&a, snapshot(3, 2.0, 200));
    assert_eq!(m.get_latest_price_per_region().timestamp, 3);
}

#[test]
fn provider_copy_keeps_fields() {
    let p = sp("q", OTHER, 7.5, 0.25);
    let c = p.copy();
    assert_eq!(c.id, "q");
    assert_eq!(c.region, OTHER);
    assert_eq!(c.power, p.power);
    assert_eq!(c.price, p.price);
}

#[test]
fn restore_accepts_valid_parts() {
    let m = FilMarket::restore(
        "a".to_string(),
        vec![sp("p1", EUROPE, 1.0, 2.0), sp("p2", ASIA, 3.0, 4.0)],
        vec![snapshot(2, 1.0, 10), snapshot(1, 2.0, 20)],
        ActivePerRegion { europe: 1, asia: 0, north_america: 0, other: 2 },
        1,
    )
    .expect("valid parts");
    assert_eq!(m.owner(), "a");
    assert_eq!(m.latest_timestamp(), 1);
    assert_eq!(m.get_storage_providers().len(), 2);
    assert_eq!(m.get_latest_price_per_region(), snapshot(1, 2.0, 20));
    assert_eq!(m.get_active_per_region().other, 2);
}

#[test]
fn restore_rejects_invalid_parts() {
    let dup_ids = FilMarket::restore(
        "a".to_string(),
        vec![sp("p1", EUROPE, 1.0, 2.0), sp("p1", ASIA, 3.0, 4.0)],
        vec![],
        ActivePerRegion::default(),
        0,
    );
    assert!(dup_ids.is_none());
    let dup_ts = FilMarket::restore(
        "a".to_string(),
        vec![],
        vec![snapshot(2, 1.0, 10), snapshot(2, 2.0, 20)],
        ActivePerRegion::default(),
        2,
    );
    assert!(dup_ts.is_none());
    let zero_ts = FilMarket::restore("a".to_string(), vec![], vec![snapshot(0, 1.0, 10)], ActivePerRegion::default(), 0);
    assert!(zero_ts.is_none());
}

#[test]
fn latest_timestamp_follows_writes_and_survives_delete() {
    let mut m = FilMarket::new("a".to_string());
    assert_eq!(m.latest_timestamp(), 0);
    m.set_price_per_region(&"a".to_string(), snapshot(8, 1.0, 1));
    m.delete_price_per_region(&"a".to_string(), vec![8]);
    assert_eq!(m.latest_timestamp(), 8);
}
