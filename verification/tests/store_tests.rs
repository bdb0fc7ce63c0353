use xiv_overlay::layout_config::LayoutConfig;
use xiv_overlay::store::{get_layout_by_name, ScannedFile, Store};

fn sample(name: &str, url: &str, active: bool) -> LayoutConfig {
    LayoutConfig {
        name: name.to_string(),
        url: url.to_string(),
        x: 10,
        y: 20,
        width: 300,
        height: 200,
        clickthrough: false,
        decorated: true,
        active,
    }
}

#[test]
fn file_name_is_lowercased_and_hyphenated() {
    let r = sample("Foo Bar", "http://localhost/", false);
    assert_eq!(r.get_file_name(), "foo-bar.yaml");
}

#[test]
fn file_name_of_empty_name_is_bare_extension() {
    let r = LayoutConfig::default();
    assert_eq!(r.get_file_name(), ".yaml");
}

#[test]
fn save_then_find_round_trips() {
    let mut store = Store::new();
    let r = sample("My Overlay", "http://localhost/telemetry", true);
    store.save(&r);
    let found = store.find_by_name(&"My Overlay".to_string());
    assert_eq!(found, Some(r));
}

#[test]
fn save_overwrites_record_under_same_name() {
    let mut store = Store::new();
    let mut r = sample("Solo", "http://a/", false);
    store.save(&r);
    r.set_url("http://b/".to_string());
    store.save(&r);
    let all = store.list_all();
    assert_eq!(all.len(), 1);
    assert_eq!(all[0].url(), "http://b/");
}

#[test]
fn listing_skips_malformed_files_and_keeps_valid_ones() {
    let good_a = sample("Alpha", "http://a/", false);
    let good_b = sample("Beta", "http://b/", true);
    let files = vec![
        ScannedFile { file_name: "alpha.yaml".to_string(), record: Some(good_a.clone()) },
        ScannedFile { file_name: "broken.yaml".to_string(), record: None },
        ScannedFile { file_name: "beta.yaml".to_string(), record: Some(good_b.clone()) },
    ];
    let (store, skipped) = Store::from_listing(&files);
    let all = store.list_all();
    assert_eq!(all, vec![good_a, good_b]);
    assert_eq!(skipped.len(), 1);
    assert_eq!(skipped[0].0, "broken.yaml");
    assert_eq!(
        skipped[0].message(),
        "Could not parse the configuration file broken.yaml"
    );
}

#[test]
fn empty_directory_lists_nothing() {
    let (store, skipped) = Store::from_listing(&Vec::new());
    assert!(store.list_all().is_empty());
    assert!(skipped.is_empty());
}

#[test]
fn delete_removes_the_file_and_reports_a_missing_one() {
    let mut store = Store::new();
    let r = sample("Gone Soon", "http://x/", false);
    store.save(&r);
    assert!(store.delete(&"gone-soon.yaml".to_string()));
    assert!(store.list_all().is_empty());
    assert!(!store.delete(&"gone-soon.yaml".to_string()));
}

#[test]
fn get_layout_by_name_hits_and_misses() {
    let mut store = Store::new();
    let r = sample("Known", "http://k/", false);
    store.save(&r);
    assert_eq!(get_layout_by_name(&store, "Known"), Ok(r));
    assert_eq!(
        get_layout_by_name(&store, "Unknown"),
        Err("Could not find the overlay !".to_string())
    );
}

#[test]
fn find_by_name_miss_is_none() {
    let store = Store::new();
    assert_eq!(store.find_by_name(&"nobody".to_string()), None);
}

#[test]
fn record_accessors_mirror_fields() {
    let mut r = LayoutConfig::default();
    assert_eq!(r.name(), "");
    assert_eq!(r.url(), "");
    assert_eq!(r.x(), 0);
    assert_eq!(r.y(), 0);
    assert_eq!(r.width(), 0);
    assert_eq!(r.height(), 0);
    assert!(!r.is_decoraded());
    assert!(!r.is_clickthrough());
    assert!(!r.is_active());
    r.set_name("N".to_string());
    r.set_url("U".to_string());
    r.set_x(1);
    r.set_y(2);
    r.set_width(3);
    r.set_height(4);
    r.set_is_decorated(true);
    r.set_is_clickthrough(true);
    r.set_active(true);
    assert_eq!(r.name(), "N");
    assert_eq!(r.url(), "U");
    assert_eq!(r.x(), 1);
    assert_eq!(r.y(), 2);
    assert_eq!(r.width(), 3);
    assert_eq!(r.height(), 4);
    assert!(r.is_decoraded());
    assert!(r.is_clickthrough());
    assert!(r.is_active());
}
