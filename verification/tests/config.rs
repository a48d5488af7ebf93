use acli_rust::config::{mask_token, Config, Defaults, Profile};

fn prof(name: &str, url: &str, token: &str) -> Profile {
    Profile {
        name: name.to_string(),
        atlassian_url: url.to_string(),
        email: "a@b.c".to_string(),
        api_token: token.to_string(),
        defaults: None,
    }
}

fn name_of(r: Result<Profile, String>) -> String {
    match r {
        Ok(p) => p.name,
        Err(e) => format!("error: {}", e),
    }
}

#[test]
fn profiles_are_chosen_by_name_default_or_uniqueness() {
    let mut cfg = Config::empty();
    assert_eq!(name_of(cfg.get_profile(None)), "error: No profiles configured, run 'acli config setup' to create one");
    cfg.apply_setup("work", "https://w.atlassian.net/", "a@b.c", "tok");
    assert_eq!(name_of(cfg.get_profile(None)), "work");
    assert_eq!(name_of(cfg.get_profile(Some("work"))), "work");
    assert_eq!(name_of(cfg.get_profile(Some("home"))), "error: Profile \"home\" not found");
    let r = cfg.apply_setup("home", "https://h", "", "t2");
    assert!(!r.existed);
    assert!(!r.is_default);
    assert_eq!(name_of(cfg.get_profile(None)), "work");
    cfg.default_profile = None;
    assert_eq!(
        name_of(cfg.get_profile(None)),
        "error: Multiple profiles configured, specify one with -p or set a default with 'acli config set-default <name>'"
    );
}

#[test]
fn setup_trims_url_and_keeps_masked_token() {
    let mut cfg = Config::empty();
    let r = cfg.apply_setup("w", "https://w.atlassian.net//", "a@b.c", "abcdefghijkl");
    assert!(!r.existed);
    assert!(r.is_default);
    let p = cfg.get_profile(Some("w")).ok().unwrap();
    assert_eq!(p.atlassian_url, "https://w.atlassian.net");
    // typing back the masked token keeps the stored one
    let r = cfg.apply_setup("w", "https://w2", "a@b.c", "abcd****ijkl");
    assert!(r.existed);
    let p = cfg.get_profile(Some("w")).ok().unwrap();
    assert_eq!(p.api_token, "abcdefghijkl");
    assert_eq!(p.atlassian_url, "https://w2");
    let r = cfg.apply_setup("w", "https://w2", "a@b.c", "other");
    assert!(r.existed);
    assert_eq!(cfg.get_profile(Some("w")).ok().unwrap().api_token, "other");
}

#[test]
fn delete_and_set_default() {
    let mut cfg = Config::empty();
    cfg.apply_setup("a", "https://a", "e", "t");
    cfg.apply_setup("b", "https://b", "e", "t");
    assert!(cfg.set_default("b").is_ok());
    assert_eq!(name_of(cfg.get_profile(None)), "b");
    match cfg.set_default("zzz") {
        Ok(_) => panic!("no such profile"),
        Err(e) => assert_eq!(e, "Profile \"zzz\" not found"),
    }
    assert!(cfg.remove_profile("b").is_ok());
    assert_eq!(cfg.default_profile.as_deref(), Some("a"));
    assert_eq!(name_of(cfg.get_profile(Some("b"))), "error: Profile \"b\" not found");
    match cfg.remove_profile("b") {
        Ok(_) => panic!("already removed"),
        Err(e) => assert_eq!(e, "Profile \"b\" not found"),
    }
    assert!(cfg.remove_profile("a").is_ok());
    assert_eq!(cfg.default_profile, None);
}

#[test]
fn tokens_are_masked() {
    assert_eq!(mask_token(""), "");
    assert_eq!(mask_token("12345678"), "****");
    assert_eq!(mask_token("123456789"), "1234****6789");
}

#[test]
fn profiles_keep_their_defaults_on_update() {
    let mut cfg = Config::empty();
    cfg.apply_setup("w", "https://w", "e", "t");
    cfg.profiles[0].1.defaults = Some(Defaults {
        project: Some("ACLI".to_string()),
        workspace: None,
        bb_project: None,
        escalation_schedules: None,
    });
    cfg.apply_setup("w", "https://w", "e", "t");
    let p = cfg.get_profile(Some("w")).ok().unwrap();
    assert_eq!(p.defaults.unwrap().project.as_deref(), Some("ACLI"));
    let _ = prof("x", "y", "z");
}
