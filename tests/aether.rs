use syscore::aether::{
    is_authorized, is_valid_version, latest_release, newest_first, requested_version, text_less,
    version_record, wants_latest, AetherVersion, DownloadQuery, UploadForm, BAD_REQUEST,
};

fn release(version: &str, date: &str) -> AetherVersion {
    AetherVersion {
        version: version.to_string(),
        description: String::new(),
        changelog: String::new(),
        release_date: date.to_string(),
        filename: "app.dmg".to_string(),
        size: 1,
    }
}

#[test]
fn version_strings() {
    assert!(is_valid_version("1.2.3"));
    assert!(!is_valid_version("../etc"));
    assert!(!is_valid_version("a/b"));
    assert!(!is_valid_version("a\\b"));
    assert!(is_valid_version(""));
}

#[test]
fn download_defaults_to_latest() {
    assert_eq!(requested_version(&DownloadQuery { v: None }), "latest");
    assert_eq!(requested_version(&DownloadQuery { v: Some("2.0".to_string()) }), "2.0");
    assert!(wants_latest("latest"));
    assert!(!wants_latest("2.0"));
}

#[test]
fn bearer_authorization() {
    assert!(is_authorized(Some("Bearer k3y"), "k3y"));
    assert!(!is_authorized(Some("Bearer other"), "k3y"));
    assert!(!is_authorized(Some("k3y"), "k3y"));
    assert!(!is_authorized(None, "k3y"));
}

#[test]
fn dates_compare_as_text() {
    assert!(text_less("2024-01-01", "2024-02-01"));
    assert!(!text_less("2024-02-01", "2024-01-01"));
    assert!(text_less("2024", "2024-01"));
    assert!(!text_less("same", "same"));
}

#[test]
fn latest_is_the_newest_date() {
    let v = vec![release("1", "2024-01-01"), release("3", "2024-03-01"), release("2", "2024-03-01")];
    assert_eq!(latest_release(&v), Some(1));
    assert_eq!(latest_release(&vec![]), None);
}

#[test]
fn sorted_newest_first_and_stable() {
    let v = vec![
        release("1", "2024-01-01"),
        release("3a", "2024-03-01"),
        release("2", "2024-02-01"),
        release("3b", "2024-03-01"),
    ];
    let order: Vec<String> = newest_first(v).into_iter().map(|r| r.version).collect();
    assert_eq!(order, vec!["3a", "3b", "2", "1"]);
}

#[test]
fn upload_form_requires_fields() {
    let form = UploadForm::new();
    assert!(matches!(form.finish(), Err((c, m)) if c == BAD_REQUEST && m == "Missing version"));

    let mut form = UploadForm::new();
    form.accept_text("version", "1.0".to_string());
    assert!(matches!(form.finish(), Err((_, m)) if m == "Missing file"));

    let mut form = UploadForm::new();
    form.accept_text("version", "1.0".to_string());
    form.accept_file(None, vec![1]);
    assert!(matches!(form.finish(), Err((_, m)) if m == "Missing filename"));

    let mut form = UploadForm::new();
    form.accept_text("version", "../1".to_string());
    form.accept_file(Some("a.dmg".to_string()), vec![1]);
    assert!(matches!(form.finish(), Err((_, m)) if m == "Invalid version string"));
}

#[test]
fn complete_upload_is_recorded() {
    let mut form = UploadForm::new();
    form.accept_text("version", "1.0".to_string());
    form.accept_text("changelog", "fixes".to_string());
    form.accept_text("other", "ignored".to_string());
    form.accept_file(Some("a.dmg".to_string()), vec![1, 2, 3]);
    let plan = form.finish().ok().unwrap();
    assert_eq!(plan.description, "");
    assert_eq!(plan.changelog, "fixes");
    let rec = version_record(&plan, "2024-05-01T00:00:00Z".to_string());
    assert_eq!(rec.version, "1.0");
    assert_eq!(rec.filename, "a.dmg");
    assert_eq!(rec.size, 3);
}
