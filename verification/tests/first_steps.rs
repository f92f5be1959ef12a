use guepardos_welcome::first_steps::{fix_path, set_completed, state_path, tasks, FirstStepsState};

fn state(ids: &[&str]) -> FirstStepsState {
    FirstStepsState { completed: ids.iter().map(|s| s.to_string()).collect() }
}

#[test]
fn marking_adds_at_the_end() {
    let mut s = state(&["internet"]);
    set_completed(&mut s, "updates", true);
    assert_eq!(s.completed, vec!["internet", "updates"]);
}

#[test]
fn marking_twice_keeps_one_entry() {
    let mut s = state(&["internet"]);
    set_completed(&mut s, "internet", true);
    set_completed(&mut s, "internet", true);
    assert_eq!(s.completed, vec!["internet"]);
}

#[test]
fn unmarking_removes_every_occurrence() {
    let mut s = state(&["apps", "internet", "apps", "reboot"]);
    set_completed(&mut s, "apps", false);
    assert_eq!(s.completed, vec!["internet", "reboot"]);
}

#[test]
fn unmarking_an_absent_task_changes_nothing() {
    let mut s = state(&["internet", "reboot"]);
    set_completed(&mut s, "apps", false);
    assert_eq!(s.completed, vec!["internet", "reboot"]);
}

#[test]
fn mark_then_unmark_gives_back_the_list() {
    let mut s = state(&["display", "backups"]);
    set_completed(&mut s, "wallpaper", true);
    set_completed(&mut s, "wallpaper", false);
    assert_eq!(s.completed, vec!["display", "backups"]);
}

#[test]
fn other_tasks_keep_their_state() {
    let mut s = state(&["display", "backups"]);
    set_completed(&mut s, "display", false);
    assert!(s.completed.contains(&"backups".to_string()));
    set_completed(&mut s, "apps", true);
    assert!(s.completed.contains(&"backups".to_string()));
    assert!(!s.completed.contains(&"display".to_string()));
}

#[test]
fn new_state_is_empty() {
    assert!(FirstStepsState::new().completed.is_empty());
}

#[test]
fn state_file_replaces_json_extension() {
    assert_eq!(state_path("/etc/guepardos/settings.json", "/home/ana"), "/etc/guepardos/settings-first-steps.json");
}

#[test]
fn state_file_extends_other_names() {
    assert_eq!(state_path("/etc/guepardos/settings", "/home/ana"), "/etc/guepardos/settings-first-steps.json");
    assert_eq!(state_path(".json", "/h"), "-first-steps.json");
}

#[test]
fn state_file_expands_home() {
    assert_eq!(state_path("~/.config/welcome.json", "/home/ana"), "/home/ana/.config/welcome-first-steps.json");
}

#[test]
fn fix_path_only_expands_leading_tilde_paths() {
    assert_eq!(fix_path("~/a~b", "/home/x"), "/home/x/a/home/xb");
    assert_eq!(fix_path("/a/~b", "/home/x"), "/a/~b");
    assert_eq!(fix_path("", "/home/x"), "");
}

#[test]
fn checklist_has_seven_tasks() {
    let t = tasks();
    assert_eq!(t.len(), 7);
    assert_eq!(t[0], ("internet", "Conectarse a Internet"));
    assert_eq!(t[6], ("reboot", "Reiniciar después de actualizar, si es necesario"));
}
