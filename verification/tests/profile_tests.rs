use mirror_windows::models::{CoordinateMode, DispatchMode, LayoutMode, ProfileDraft, ProfileRecord, SessionConfig};
use mirror_windows::profile_store::{save_profile, sort_profiles, ProfileError};

fn config(primary: &str) -> SessionConfig {
    SessionConfig {
        primary_window_id: primary.to_string(),
        target_window_ids: vec!["0xB".to_string()],
        monitor_id: None,
        layout_mode: LayoutMode::Stack,
        coordinate_mode: CoordinateMode::NormalizedClient,
        dispatch_mode: DispatchMode::WindowMessage,
        sync_mouse_move: false,
        sync_wheel: true,
        sync_keyboard: false,
        game_mode: true,
    }
}

fn record(id: &str, name: &str, updated_at_ms: u128) -> ProfileRecord {
    ProfileRecord {
        id: id.to_string(),
        name: name.to_string(),
        config: config("0xA"),
        created_at_ms: 1,
        updated_at_ms,
    }
}

#[test]
fn a_blank_profile_name_is_refused() {
    let draft = ProfileDraft { id: None, name: " \t ".to_string(), config: config("0xA") };
    assert_eq!(save_profile(vec![], draft, 10), Err(ProfileError::EmptyName));
    assert_eq!(ProfileError::EmptyName.message(), "Profile name cannot be empty.");
}

#[test]
fn a_draft_without_id_becomes_a_new_profile_named_by_time() {
    let draft = ProfileDraft { id: None, name: "  Raid team ".to_string(), config: config("0xA") };
    let saved = save_profile(vec![record("p1", "old", 3)], draft, 1700000000123).unwrap();
    assert_eq!(saved.len(), 2);
    assert_eq!(saved[0].id, "profile-1700000000123");
    assert_eq!(saved[0].name, "Raid team");
    assert_eq!(saved[0].created_at_ms, 1700000000123);
    assert_eq!(saved[0].updated_at_ms, 1700000000123);
    assert!(saved[0].config.game_mode);
    assert_eq!(saved[1].id, "p1");
}

#[test]
fn a_draft_with_a_known_id_updates_that_profile() {
    let profiles = vec![record("p1", "one", 3), record("p2", "two", 8)];
    let draft = ProfileDraft { id: Some("p1".to_string()), name: "renamed".to_string(), config: config("0xC") };
    let saved = save_profile(profiles, draft, 20).unwrap();
    assert_eq!(saved.len(), 2);
    assert_eq!(saved[0].id, "p1");
    assert_eq!(saved[0].name, "renamed");
    assert_eq!(saved[0].config.primary_window_id, "0xC");
    assert_eq!(saved[0].created_at_ms, 1);
    assert_eq!(saved[0].updated_at_ms, 20);
    assert_eq!(saved[1].id, "p2");
}

#[test]
fn a_draft_with_an_unknown_id_is_added_under_that_id() {
    let draft = ProfileDraft { id: Some("mine".to_string()), name: "x".to_string(), config: config("0xA") };
    let saved = save_profile(vec![record("p1", "one", 30)], draft, 20).unwrap();
    assert_eq!(saved.len(), 2);
    assert_eq!(saved[0].id, "p1");
    assert_eq!(saved[1].id, "mine");
    assert_eq!(saved[1].created_at_ms, 20);
}

#[test]
fn profiles_sort_most_recent_first_keeping_ties_in_order() {
    let sorted = sort_profiles(vec![record("a", "a", 1), record("b", "b", 5), record("c", "c", 1), record("d", "d", 9)]);
    let ids: Vec<&str> = sorted.iter().map(|p| p.id.as_str()).collect();
    assert_eq!(ids, vec!["d", "b", "a", "c"]);
}

#[test]
fn sorting_a_saved_list_again_leaves_it_unchanged() {
    let profiles = vec![record("p1", "one", 3), record("p2", "two", 8), record("p3", "three", 8)];
    let draft = ProfileDraft { id: Some("p1".to_string()), name: "renamed".to_string(), config: config("0xC") };
    let saved = save_profile(profiles, draft, 8).unwrap();
    let ids: Vec<&str> = saved.iter().map(|p| p.id.as_str()).collect();
    assert_eq!(ids, vec!["p1", "p2", "p3"]);
    assert_eq!(sort_profiles(saved.clone()), saved);
}
