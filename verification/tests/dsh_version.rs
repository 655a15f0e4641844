use dsh_launcher::dsh::version::{
    clear_pending, is_pointer_name, is_version_installed, list_installed_versions,
    promote_to_current, prune_old_versions, read_current_pointer, read_known_good_pointer,
    rollback_to_known_good, set_pending, switch, write_current_pointer, write_known_good_pointer,
    DshDir,
};
use dsh_launcher::state::AppState;

fn setup_dsh_dir() -> DshDir {
    DshDir::new("/tmp/launcher/dsh")
}

#[test]
fn pointers_are_absent_until_written_and_replace_their_previous_value() {
    let mut dsh_dir = setup_dsh_dir();
    assert_eq!(read_current_pointer(&dsh_dir), None);
    assert_eq!(read_known_good_pointer(&dsh_dir), None);

    write_current_pointer(&mut dsh_dir, "0.1.0");
    write_current_pointer(&mut dsh_dir, "0.2.0");
    write_known_good_pointer(&mut dsh_dir, "0.1.0");
    assert_eq!(read_current_pointer(&dsh_dir).as_deref(), Some("0.2.0"));
    assert_eq!(read_known_good_pointer(&dsh_dir).as_deref(), Some("0.1.0"));
}

#[test]
fn switch_requires_an_installed_version_and_updates_the_pointer() {
    let mut dsh_dir = setup_dsh_dir();
    assert!(switch(&mut dsh_dir, "9.9.9").unwrap_err().message().contains("version dir not found"));

    dsh_dir.create_dir("0.1.0");
    switch(&mut dsh_dir, "0.1.0").unwrap();
    assert_eq!(read_current_pointer(&dsh_dir).as_deref(), Some("0.1.0"));
}

#[test]
fn switch_error_names_the_missing_directory() {
    let mut dsh_dir = setup_dsh_dir();
    assert_eq!(
        switch(&mut dsh_dir, "9.9.9").unwrap_err().message(),
        "dsh version error: cannot switch: version dir not found: /tmp/launcher/dsh/9.9.9"
    );
    assert_eq!(read_current_pointer(&dsh_dir), None);
}

#[test]
fn promote_updates_state_and_preserves_the_previous_current_as_known_good() {
    let mut dsh_dir = setup_dsh_dir();
    dsh_dir.create_dir("0.1.0");
    dsh_dir.create_dir("0.2.0");
    let mut state = AppState::new();

    promote_to_current(&mut state, &mut dsh_dir, "0.1.0", 1_700_000_000_000_000_000).unwrap();
    state.dsh.pending = Some("0.2.0".to_string());
    promote_to_current(&mut state, &mut dsh_dir, "0.2.0", 1_700_000_000_000_000_000).unwrap();

    assert_eq!(state.dsh.current.as_deref(), Some("0.2.0"));
    assert_eq!(state.dsh.known_good.as_deref(), Some("0.1.0"));
    assert!(state.dsh.pending.is_none());
    assert_eq!(state.dsh.installed.len(), 2);
    assert_eq!(read_known_good_pointer(&dsh_dir).as_deref(), Some("0.1.0"));
}

#[test]
fn promote_same_version_does_not_make_it_its_own_known_good() {
    let mut dsh_dir = setup_dsh_dir();
    dsh_dir.create_dir("0.1.0");
    let mut state = AppState::new();

    promote_to_current(&mut state, &mut dsh_dir, "0.1.0", 1_700_000_000_000_000_000).unwrap();
    promote_to_current(&mut state, &mut dsh_dir, "0.1.0", 1_700_000_000_000_000_000).unwrap();
    assert!(state.dsh.known_good.is_none());
    assert_eq!(state.dsh.installed.len(), 1);
}

#[test]
fn promote_rejects_a_missing_version_directory() {
    let mut dsh_dir = setup_dsh_dir();
    let error = promote_to_current(&mut AppState::new(), &mut dsh_dir, "9.9.9", 1_700_000_000_000_000_000).unwrap_err();
    assert!(error.message().contains("version dir not found"));
}

#[test]
fn rollback_restores_known_good_marks_failure_and_clears_pending() {
    let mut dsh_dir = setup_dsh_dir();
    dsh_dir.create_dir("0.1.0");
    dsh_dir.create_dir("0.2.0");
    let mut state = AppState::new();
    promote_to_current(&mut state, &mut dsh_dir, "0.1.0", 1_700_000_000_000_000_000).unwrap();
    promote_to_current(&mut state, &mut dsh_dir, "0.2.0", 1_700_000_000_000_000_000).unwrap();
    set_pending(&mut state, "0.2.0");

    assert_eq!(rollback_to_known_good(&mut state, &mut dsh_dir, 1_700_000_000_000_000_000).unwrap(), "0.1.0");
    assert_eq!(state.dsh.current.as_deref(), Some("0.1.0"));
    assert!(state.dsh.known_good.is_none());
    assert!(state.dsh.pending.is_none());
    assert_eq!(
        state
            .dsh
            .installed
            .iter()
            .find(|item| item.version == "0.2.0")
            .map(|item| item.status.as_str()),
        Some("broken")
    );
    assert_eq!(read_current_pointer(&dsh_dir).as_deref(), Some("0.1.0"));
}

#[test]
fn rollback_requires_an_existing_known_good_directory() {
    let mut dsh_dir = setup_dsh_dir();
    let mut state = AppState::new();
    assert!(rollback_to_known_good(&mut state, &mut dsh_dir, 1_700_000_000_000_000_000)
        .unwrap_err()
        .message()
        .contains("no known_good"));

    state.dsh.known_good = Some("0.1.0".to_string());
    assert!(rollback_to_known_good(&mut state, &mut dsh_dir, 1_700_000_000_000_000_000)
        .unwrap_err()
        .message()
        .contains("known_good dir not found"));
}

#[test]
fn pending_helpers_update_only_the_pending_field() {
    let mut state = AppState::new();
    set_pending(&mut state, "0.3.0");
    assert_eq!(state.dsh.pending.as_deref(), Some("0.3.0"));
    clear_pending(&mut state);
    assert!(state.dsh.pending.is_none());
}

#[test]
fn prune_keeps_current_known_good_pending_and_requested_recent_versions() {
    let mut dsh_dir = setup_dsh_dir();
    for version in ["0.1.0", "0.2.0", "0.3.0", "0.4.0", "0.5.0"] {
        dsh_dir.create_dir(version);
    }
    let mut state = AppState::new();
    state.dsh.current = Some("0.5.0".to_string());
    state.dsh.known_good = Some("0.4.0".to_string());
    state.dsh.pending = Some("0.1.0".to_string());

    let pruned = prune_old_versions(&state, &mut dsh_dir, 1);
    assert_eq!(pruned, vec!["0.2.0"]);
    for version in ["0.1.0", "0.3.0", "0.4.0", "0.5.0"] {
        assert!(dsh_dir.has_entry(version));
    }
    assert!(!dsh_dir.has_entry("0.2.0"));
}

#[test]
fn prune_with_no_extra_keeps_only_protected_versions() {
    let mut dsh_dir = setup_dsh_dir();
    for version in ["0.3.0", "0.1.0", "current", "0.2.0"] {
        dsh_dir.create_dir(version);
    }
    let mut state = AppState::new();
    state.dsh.current = Some("0.3.0".to_string());
    let pruned = prune_old_versions(&state, &mut dsh_dir, 0);
    assert_eq!(pruned, vec!["0.1.0", "0.2.0"]);
    assert!(dsh_dir.has_entry("current"));
    assert!(dsh_dir.has_entry("0.3.0"));
}

#[test]
fn version_inventory_is_sorted_ignores_pointers_and_handles_missing_directories() {
    let mut dsh_dir = setup_dsh_dir();
    for version in ["0.3.0", "0.1.0", "0.2.0"] {
        dsh_dir.create_dir(version);
    }
    write_current_pointer(&mut dsh_dir, "0.1.0");
    dsh_dir.create_dir("current");
    dsh_dir.create_dir("known-good.json");
    assert_eq!(list_installed_versions(&dsh_dir), vec!["0.1.0", "0.2.0", "0.3.0"]);
    assert!(is_version_installed(&dsh_dir, "0.1.0"));
    assert!(!is_version_installed(&dsh_dir, "9.9.9"));
    let mut missing = DshDir::new("/tmp/launcher/dsh/missing");
    assert!(list_installed_versions(&missing).is_empty());
    assert!(prune_old_versions(&AppState::new(), &mut missing, 0).is_empty());
}

#[test]
fn pointer_names_are_recognised() {
    for name in ["current", "known-good", "current.json", "known-good.json"] {
        assert!(is_pointer_name(name));
    }
    assert!(!is_pointer_name("0.1.0"));
    assert!(!is_pointer_name("current.tmp"));
}

#[test]
fn creating_a_directory_twice_keeps_one_entry() {
    let mut dsh_dir = setup_dsh_dir();
    dsh_dir.create_dir("0.1.0");
    dsh_dir.create_dir("0.1.0");
    assert_eq!(dsh_dir.entries().len(), 1);
    assert_eq!(dsh_dir.path(), "/tmp/launcher/dsh");
}
