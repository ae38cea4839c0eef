use lazaro_core::config::Settings;
use lazaro_core::profile::{Profile, ProfileStore};

#[test]
fn activate_switches_profile() {
    let mut store = ProfileStore::default();
    let a = Profile::new("office", "Office", Settings::default());
    let mut gaming = Settings::default();
    gaming.micro.interval_seconds = 300;
    let b = Profile::new("gaming", "Gaming", gaming);

    store.upsert(a);
    store.upsert(b);

    assert!(store.activate("gaming"));
    let active = store.active().expect("active profile must exist");
    assert_eq!(active.id, "gaming");
    assert_eq!(active.settings.micro.interval_seconds, 300);
}

#[test]
fn first_upsert_becomes_active() {
    let mut store = ProfileStore::default();
    assert!(store.active().is_none());

    store.upsert(Profile::new("office", "Office", Settings::default()));
    assert_eq!(store.active().expect("active").id, "office");

    // Later inserts leave the selection alone, even with a lower key.
    store.upsert(Profile::new("art", "Art", Settings::default()));
    assert_eq!(store.active().expect("active").id, "office");
}

#[test]
fn upsert_replaces_same_id() {
    let mut store = ProfileStore::default();
    store.upsert(Profile::new("office", "Office", Settings::default()));

    let mut tweaked = Settings::default();
    tweaked.rest.interval_seconds = 1800;
    store.upsert(Profile::new("office", "Office v2", tweaked));

    let listed = store.list();
    assert_eq!(listed.len(), 1);
    assert_eq!(listed[0].name, "Office v2");
    assert_eq!(listed[0].settings.rest.interval_seconds, 1800);
}

#[test]
fn list_is_sorted_by_id() {
    let mut store = ProfileStore::default();
    store.upsert(Profile::new("office", "Office", Settings::default()));
    store.upsert(Profile::new("art", "Art", Settings::default()));
    store.upsert(Profile::new("gaming", "Gaming", Settings::default()));

    let ids: Vec<&str> = store.list().iter().map(|p| p.id.as_str()).collect();
    assert_eq!(ids, vec!["art", "gaming", "office"]);
}

#[test]
fn remove_active_reassigns_lowest_key() {
    let mut store = ProfileStore::default();
    store.upsert(Profile::new("office", "Office", Settings::default()));
    store.upsert(Profile::new("gaming", "Gaming", Settings::default()));
    store.upsert(Profile::new("art", "Art", Settings::default()));
    assert!(store.activate("art"));

    let removed = store.remove("art").expect("removed profile");
    assert_eq!(removed.id, "art");
    assert_eq!(store.active().expect("active").id, "gaming");
}

#[test]
fn remove_last_profile_clears_selection() {
    let mut store = ProfileStore::default();
    store.upsert(Profile::new("solo", "Solo", Settings::default()));
    assert!(store.remove("solo").is_some());
    assert!(store.active().is_none());
    assert!(store.list().is_empty());
}

#[test]
fn remove_inactive_keeps_selection() {
    let mut store = ProfileStore::default();
    store.upsert(Profile::new("office", "Office", Settings::default()));
    store.upsert(Profile::new("gaming", "Gaming", Settings::default()));
    assert!(store.activate("office"));

    assert!(store.remove("gaming").is_some());
    assert_eq!(store.active().expect("active").id, "office");
}

#[test]
fn remove_missing_id_returns_none() {
    let mut store = ProfileStore::default();
    store.upsert(Profile::new("office", "Office", Settings::default()));
    assert!(store.remove("lab").is_none());
    assert_eq!(store.list().len(), 1);
}

#[test]
fn activate_missing_id_fails_without_side_effects() {
    let mut store = ProfileStore::default();
    store.upsert(Profile::new("office", "Office", Settings::default()));

    assert!(!store.activate("lab"));
    assert_eq!(store.active().expect("active").id, "office");
}
