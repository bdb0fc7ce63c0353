use xiv_overlay::app::{App, AppAction, CollaboratorReport, Effect, FormState};
use xiv_overlay::layout_config::LayoutConfig;
use xiv_overlay::store::{ScannedFile, Store};

fn sample(name: &str, active: bool) -> LayoutConfig {
    LayoutConfig {
        name: name.to_string(),
        url: "http://localhost/overlay".to_string(),
        x: 5,
        y: 6,
        width: 640,
        height: 480,
        clickthrough: true,
        decorated: false,
        active,
    }
}

fn form_of(r: &LayoutConfig) -> FormState {
    FormState {
        name: r.name.clone(),
        url: r.url.clone(),
        x: r.x,
        y: r.y,
        width: r.width,
        height: r.height,
        clickthrough: r.clickthrough,
        decorated: r.decorated,
    }
}

fn all_ok() -> CollaboratorReport {
    CollaboratorReport { window_created: true, write_ok: true }
}

#[test]
fn close_is_idempotent_and_tolerates_unknown_names() {
    let mut app = App::new(Store::new());
    let r = sample("Never Opened", false);
    let fx = app.close_overlay(&r);
    assert!(fx.is_empty());
    let fx2 = app.open_overlay(&r, true);
    assert!(fx2.is_empty());
    let fx3 = app.close_overlay(&r);
    assert_eq!(fx3.len(), 1);
    assert!(matches!(&fx3[0], Effect::CloseWindow { name } if name == "Never Opened"));
    let fx4 = app.close_overlay(&r);
    assert!(fx4.is_empty());
    assert!(!app.state.is_open(&"Never Opened".to_string()));
}

#[test]
fn toggle_on_then_off_clears_table_and_persists_inactive() {
    let mut app = App::new(Store::new());
    let r = sample("Telemetry", false);
    app.dispatch(AppAction::ToggleOverlay(true, r.clone()), &all_ok());
    assert!(app.state.is_open(&"Telemetry".to_string()));
    app.dispatch(AppAction::ToggleOverlay(false, r.clone()), &all_ok());
    assert!(!app.state.is_open(&"Telemetry".to_string()));
    let stored = app.store.find_by_name(&"Telemetry".to_string()).unwrap();
    assert!(!stored.is_active());
}

#[test]
fn toggle_persists_active_state_on_the_way_up() {
    let mut app = App::new(Store::new());
    let r = sample("Upward", false);
    let fx = app.toggle_overlay(true, &r, true, true);
    assert!(fx.is_empty());
    let stored = app.store.find_by_name(&"Upward".to_string()).unwrap();
    assert!(stored.is_active());
}

#[test]
fn toggle_reports_window_that_did_not_come_up() {
    let mut app = App::new(Store::new());
    let r = sample("No Display", false);
    let fx = app.toggle_overlay(true, &r, false, true);
    assert_eq!(fx.len(), 1);
    assert!(matches!(
        &fx[0],
        Effect::ShowError { message } if message == "Could not create the overlay window !"
    ));
    assert!(!app.state.is_open(&"No Display".to_string()));
}

#[test]
fn failed_write_changes_nothing_and_reports() {
    let mut app = App::new(Store::new());
    let r = sample("Fragile", false);
    let fx = app.save_overlay(&r, &form_of(&r), false, true);
    assert_eq!(fx.len(), 1);
    assert!(matches!(
        &fx[0],
        Effect::ShowError { message } if message == "Could not save the overlay !"
    ));
    assert!(app.store.list_all().is_empty());
}

#[test]
fn save_without_rename_keeps_single_file_and_reselects() {
    let mut app = App::new(Store::new());
    let r = sample("Stable", false);
    app.store.save(&r);
    let mut form = form_of(&r);
    form.url = "http://localhost/other".to_string();
    let fx = app.dispatch(AppAction::SaveOverlay(r.clone(), form), &all_ok());
    assert_eq!(fx.len(), 1);
    let expected = LayoutConfig { url: "http://localhost/other".to_string(), ..r };
    assert!(matches!(&fx[0], Effect::ShowDetails { record } if *record == expected));
    let all = app.store.list_all();
    assert_eq!(all, vec![expected]);
}

#[test]
fn rename_moves_file_and_window_to_the_new_name() {
    let mut app = App::new(Store::new());
    let r = sample("Old Name", true);
    app.store.save(&r);
    let fx_open = app.open_overlay(&r, true);
    assert!(fx_open.is_empty());
    let mut form = form_of(&r);
    form.name = "New Name".to_string();
    let fx = app.save_overlay(&r, &form, true, true);
    assert_eq!(fx.len(), 3);
    assert!(matches!(&fx[0], Effect::CloseWindow { name } if name == "Old Name"));
    assert!(matches!(&fx[1], Effect::RemoveFile { file_name } if file_name == "old-name.yaml"));
    let renamed = LayoutConfig { name: "New Name".to_string(), ..r };
    assert!(matches!(&fx[2], Effect::ShowDetails { record } if *record == renamed));
    assert_eq!(app.store.find_by_name(&"Old Name".to_string()), None);
    assert_eq!(app.store.find_by_name(&"New Name".to_string()), Some(renamed));
    assert!(!app.state.is_open(&"Old Name".to_string()));
    assert!(app.state.is_open(&"New Name".to_string()));
}

#[test]
fn startup_resumes_exactly_the_active_records() {
    let shown = sample("Shown", true);
    let hidden = sample("Hidden", false);
    let files = vec![
        ScannedFile { file_name: "shown.yaml".to_string(), record: Some(shown.clone()) },
        ScannedFile { file_name: "hidden.yaml".to_string(), record: Some(hidden) },
    ];
    let (store, skipped) = Store::from_listing(&files);
    assert!(skipped.is_empty());
    let mut app = App::new(store);
    let to_resume = app.active_overlays();
    assert_eq!(to_resume, vec![shown.clone()]);
    for record in &to_resume {
        let fx = app.open_overlay(record, true);
        assert!(fx.is_empty());
    }
    assert!(app.state.is_open(&"Shown".to_string()));
    assert!(shown.is_clickthrough());
    assert!(!shown.is_decoraded());
    assert_eq!((shown.x(), shown.y(), shown.width(), shown.height()), (5, 6, 640, 480));
}

#[test]
fn startup_on_empty_directory_opens_nothing() {
    let (store, skipped) = Store::from_listing(&Vec::new());
    assert!(skipped.is_empty());
    let app = App::new(store);
    assert!(app.active_overlays().is_empty());
}

#[test]
fn delete_closes_the_window_before_removing_the_file() {
    let mut app = App::new(Store::new());
    let r = sample("Doomed", true);
    app.store.save(&r);
    app.open_overlay(&r, true);
    let fx = app.dispatch(AppAction::DeleteOverlay(r.clone()), &all_ok());
    assert_eq!(fx.len(), 2);
    assert!(matches!(&fx[0], Effect::CloseWindow { name } if name == "Doomed"));
    assert!(matches!(&fx[1], Effect::RemoveFile { file_name } if file_name == "doomed.yaml"));
    assert!(!app.state.is_open(&"Doomed".to_string()));
    assert_eq!(app.store.find_by_name(&"Doomed".to_string()), None);
}

#[test]
fn delete_after_file_already_gone_keeps_window_closed() {
    let mut app = App::new(Store::new());
    let r = sample("Half Gone", true);
    app.open_overlay(&r, true);
    let fx = app.delete_overlay(&r);
    assert_eq!(fx.len(), 2);
    assert!(matches!(&fx[1], Effect::RemoveFile { file_name } if file_name == "half-gone.yaml"));
    assert!(!app.state.is_open(&"Half Gone".to_string()));
    let fx2 = app.delete_overlay(&r);
    assert_eq!(fx2.len(), 1);
    assert!(matches!(&fx2[0], Effect::RemoveFile { file_name } if file_name == "half-gone.yaml"));
    assert!(!app.state.is_open(&"Half Gone".to_string()));
}

#[test]
fn double_open_leaves_the_first_registration_alone() {
    let mut app = App::new(Store::new());
    let r = sample("Once", false);
    assert!(app.open_overlay(&r, true).is_empty());
    assert!(app.open_overlay(&r, true).is_empty());
    let fx = app.close_overlay(&r);
    assert_eq!(fx.len(), 1);
    let fx2 = app.close_overlay(&r);
    assert!(fx2.is_empty());
}

#[test]
fn list_select_and_new_feed_the_ui() {
    let mut app = App::new(Store::new());
    let r = sample("Listed", false);
    app.store.save(&r);
    let fx = app.dispatch(AppAction::LoadOverlaysList, &all_ok());
    assert_eq!(fx.len(), 1);
    assert!(matches!(&fx[0], Effect::RefreshList { records } if *records == vec![r.clone()]));
    let fx2 = app.dispatch(AppAction::SelectOverlay(r.clone()), &all_ok());
    assert!(matches!(&fx2[0], Effect::ShowDetails { record } if *record == r));
    let fx3 = app.dispatch(AppAction::NewOverlay, &all_ok());
    assert!(matches!(&fx3[0], Effect::ShowDetails { record } if *record == LayoutConfig::default()));
}

#[test]
fn close_all_signals_every_window() {
    let mut app = App::new(Store::new());
    let a = sample("First", true);
    let b = sample("Second", true);
    app.open_overlay(&a, true);
    app.open_overlay(&b, true);
    let fx = app.close_all();
    assert_eq!(fx.len(), 2);
    assert!(matches!(&fx[0], Effect::CloseWindow { name } if name == "First"));
    assert!(matches!(&fx[1], Effect::CloseWindow { name } if name == "Second"));
    assert!(!app.state.is_open(&"First".to_string()));
    assert!(!app.state.is_open(&"Second".to_string()));
}
