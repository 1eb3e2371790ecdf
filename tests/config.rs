use gxsync::cli::CliArgs;
use gxsync::config::{default_profile, AccountConfig, GxsyncConfig, NormalizedAccountConfig};
use gxsync::error::GxsyncError;

fn account(mailbox: &str) -> AccountConfig {
    AccountConfig {
        mailbox: mailbox.to_string(),
        target: None,
        days: None,
        include_folders: None,
        exclude_folders: None,
        auth_profile: default_profile(),
    }
}

#[test]
fn defaults_are_resolved() {
    let n = NormalizedAccountConfig::from(account("bob@example.com"));
    assert_eq!(n.mailbox, "bob@example.com");
    assert_eq!(n.target, "~/Mail/bob@example.com");
    assert_eq!(n.days, 30);
    assert_eq!(n.auth_profile, "default");
    assert!(n.include_folders.is_none());
}

#[test]
fn given_fields_are_kept() {
    let mut a = account("bob@example.com");
    a.target = Some("/srv/mail/bob".to_string());
    a.days = Some(7);
    a.exclude_folders = Some("Spam".to_string());
    a.auth_profile = "work".to_string();
    let n = NormalizedAccountConfig::from(a);
    assert_eq!(n.target, "/srv/mail/bob");
    assert_eq!(n.days, 7);
    assert_eq!(n.exclude_folders.as_deref(), Some("Spam"));
    assert_eq!(n.auth_profile, "work");
}

#[test]
fn configured_accounts_keep_their_order() {
    let cfg = GxsyncConfig { accounts: vec![account("a@x"), account("b@x"), account("c@x")] };
    let all = cfg.normalized();
    let names: Vec<&str> = all.iter().map(|n| n.mailbox.as_str()).collect();
    assert_eq!(names, vec!["a@x", "b@x", "c@x"]);
    assert_eq!(all[2].target, "~/Mail/c@x");
}

#[test]
fn command_line_mailbox_gives_one_account() {
    let args = CliArgs {
        mailbox: Some("alice@example.com".to_string()),
        target: None,
        days: Some(7),
        include_folders: None,
        exclude_folders: Some("Spam".to_string()),
        dry_run: false,
    };
    let n = args.single_account().unwrap();
    assert_eq!(n.mailbox, "alice@example.com");
    assert_eq!(n.target, "~/Mail/alice@example.com");
    assert_eq!(n.days, 7);
    assert_eq!(n.auth_profile, "default");
    let none = CliArgs { mailbox: None, ..args };
    assert!(none.single_account().is_none());
}

#[test]
fn error_kind_and_detail() {
    let e = GxsyncError::Other("boom".to_string());
    assert_eq!(e.kind(), "Other error");
    assert_eq!(e.detail(), "boom");
    assert_eq!(GxsyncError::Auth(String::new()).kind(), "Authentication error");
}
