use prismatic::catalog::{AppCatalog, first_existing_candidate, join_path, offered_actions, offers_action, DesktopAction, ListedAction, SystemAppCatalog};
use prismatic::text::{decimal_text, split_text, text_contains, text_eq_ignore_ascii_case, trimmed_text};

#[test]
fn splitting_keeps_empty_pieces() {
    assert_eq!(split_text("a::b:", ':'), ["a", "", "b", ""]);
    assert_eq!(split_text("", ':'), [""]);
    assert_eq!(split_text("GNOME", ':'), ["GNOME"]);
}

#[test]
fn trimming_removes_unicode_white_space_at_both_ends() {
    assert_eq!(trimmed_text("\t a b \u{3000}\n"), "a b");
    assert_eq!(trimmed_text("   "), "");
    assert_eq!(trimmed_text("x"), "x");
}

#[test]
fn numbers_render_in_decimal() {
    assert_eq!(decimal_text(0), "0");
    assert_eq!(decimal_text(7), "7");
    assert_eq!(decimal_text(1000), "1000");
    assert_eq!(decimal_text(u64::MAX), "18446744073709551615");
}

#[test]
fn substring_and_case_checks() {
    assert!(text_contains("abc", ""));
    assert!(text_contains("xxError:yy", "Error:"));
    assert!(!text_contains("Err", "Error:"));
    assert!(text_eq_ignore_ascii_case("GNOME-Classic", "gnome-classic"));
    assert!(!text_eq_ignore_ascii_case("gnome", "gnomes"));
}

#[test]
fn paths_join_with_one_separator() {
    assert_eq!(join_path("/usr/share/applications", "a.desktop"), "/usr/share/applications/a.desktop");
    assert_eq!(join_path("/usr/share/applications/", "a.desktop"), "/usr/share/applications/a.desktop");
    assert_eq!(join_path("", "a.desktop"), "a.desktop");
}

#[test]
fn catalogs_search_the_xdg_directories_in_order() {
    let catalog = SystemAppCatalog::from_environment(
        Some("/data".into()),
        Some("/home/u".into()),
        None,
    );
    assert_eq!(
        catalog.application_directories(),
        &vec![
            "/data/applications".to_string(),
            "/usr/local/share/applications".to_string(),
            "/usr/share/applications".to_string(),
        ]
    );
    let homeless = SystemAppCatalog::from_environment(None, None, Some("/a:".into()));
    assert_eq!(homeless.application_directories(), &vec!["/a/applications".to_string()]);
    assert_eq!(homeless.desktop_file("../a.desktop"), None);
    assert_eq!(homeless.desktop_file("a"), None);
    assert!(!homeless.is_installed("../a.desktop"));
    assert!(!SystemAppCatalog::from_application_directories(vec![]).is_installed("a.desktop"));
}

#[test]
fn only_labelled_actions_are_offered() {
    let listed = vec![
        ListedAction { id: "Private".into(), label: Some("New Private Window".into()) },
        ListedAction { id: "Hidden".into(), label: None },
        ListedAction { id: "".into(), label: Some("No id".into()) },
        ListedAction { id: "Blank".into(), label: Some("  ".into()) },
    ];
    let actions = offered_actions(listed);
    assert_eq!(
        actions,
        vec![DesktopAction { id: "Private".into(), name: "New Private Window".into() }]
    );
    assert!(offers_action(&actions, "Private"));
    assert!(!offers_action(&actions, "Hidden"));
}

#[test]
fn the_first_existing_candidate_wins() {
    let candidates = vec![
        "/home/u/.local/share/applications/a.desktop".to_string(),
        "/usr/local/share/applications/a.desktop".to_string(),
        "/usr/share/applications/a.desktop".to_string(),
    ];
    assert_eq!(
        first_existing_candidate(&candidates, &vec![true]),
        Some("/home/u/.local/share/applications/a.desktop".to_string())
    );
    assert_eq!(
        first_existing_candidate(&candidates, &vec![false, false, true]),
        Some("/usr/share/applications/a.desktop".to_string())
    );
    assert_eq!(
        first_existing_candidate(&candidates, &vec![false, true, true]),
        Some("/usr/local/share/applications/a.desktop".to_string())
    );
    assert_eq!(first_existing_candidate(&candidates, &vec![false, false, false]), None);
    assert_eq!(first_existing_candidate(&candidates, &vec![]), None);
}
