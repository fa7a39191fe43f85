use syscore::text::{subscription_target, trim};

#[test]
fn subscription_frames() {
    assert_eq!(subscription_target("subscribe:job-1"), Some("job-1".to_string()));
    assert_eq!(subscription_target("subscribe:  job-2 \n"), Some("job-2".to_string()));
    assert_eq!(subscription_target("subscribe:"), Some(String::new()));
    assert_eq!(subscription_target("unsubscribe:job"), None);
    assert_eq!(subscription_target("ping"), None);
}

#[test]
fn trim_matches_std() {
    for s in ["", "   ", " a b ", "\t\u{3000}x\u{2029}", "\u{85}y\u{a0}", "z"] {
        assert_eq!(trim(s), s.trim());
    }
}
