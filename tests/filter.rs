use gxsync::filter::{folder_set, in_scope, in_scope_lowered, parse_folder_list, split_commas};

fn set(items: &[&str]) -> Option<Vec<String>> {
    Some(items.iter().map(|s| s.to_string()).collect())
}

#[test]
fn exclude_wins_over_include() {
    assert!(!in_scope("Inbox", &set(&["inbox"]), &set(&["inbox"])));
}

#[test]
fn exclude_only_keeps_everything_else() {
    let none: Option<Vec<String>> = None;
    assert!(!in_scope("spam", &none, &set(&["spam"])));
    assert!(!in_scope("Spam", &none, &set(&["spam"])));
    assert!(in_scope("Inbox", &none, &set(&["spam"])));
    assert!(in_scope("Archive", &none, &set(&["spam"])));
}

#[test]
fn include_restricts_to_members() {
    let none: Option<Vec<String>> = None;
    assert!(in_scope("INBOX", &set(&["inbox", "sent items"]), &none));
    assert!(in_scope("Sent Items", &set(&["inbox", "sent items"]), &none));
    assert!(!in_scope("Drafts", &set(&["inbox", "sent items"]), &none));
    assert!(in_scope("Drafts", &none, &none));
}

#[test]
fn lowered_rule_compares_exactly() {
    let none: Option<Vec<String>> = None;
    assert!(!in_scope_lowered(&"Inbox".to_string(), &set(&["inbox"]), &none));
    assert!(in_scope_lowered(&"inbox".to_string(), &set(&["inbox"]), &none));
}

#[test]
fn split_keeps_empty_pieces() {
    assert_eq!(split_commas("a,,b,"), vec!["a", "", "b", ""]);
    assert_eq!(split_commas(""), vec![""]);
    assert_eq!(split_commas("Inbox"), vec!["Inbox"]);
}

#[test]
fn folder_list_is_trimmed_and_lowercased() {
    assert_eq!(parse_folder_list(" Inbox , Sent Items,ARCHIVE "), vec!["inbox", "sent items", "archive"]);
    assert_eq!(folder_set(&Some("Spam".to_string())), Some(vec!["spam".to_string()]));
    assert_eq!(folder_set(&None), None);
}
