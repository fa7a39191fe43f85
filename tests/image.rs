use syscore::image::{build_failure, nested_context_dir, resolve_build_dir, tar_args, BuildProgress};
use syscore::language::Language;

#[test]
fn primary_build_dir_wins() {
    assert_eq!(resolve_build_dir(Language::Python, true, true), Ok("docker/python".to_string()));
}

#[test]
fn nested_build_dir_is_the_fallback() {
    assert_eq!(resolve_build_dir(Language::Cpp, false, true), Ok("syscore/docker/cpp".to_string()));
    assert_eq!(nested_context_dir(Language::Python), "syscore/docker/python");
}

#[test]
fn missing_build_dir_is_an_error() {
    assert_eq!(
        resolve_build_dir(Language::Python, false, false),
        Err("Build directory for Python not found at docker/python or syscore/docker/python".to_string())
    );
}

#[test]
fn tar_packs_the_directory() {
    assert_eq!(
        tar_args("docker/cpp"),
        vec!["-czf", "-", "--disable-copyfile", "--exclude=.DS_Store", "--no-xattrs", "-C", "docker/cpp", "."]
    );
}

#[test]
fn build_progress_fails_fast() {
    let ok = BuildProgress::Info { stream: Some("Step 1/3".to_string()), error: None };
    assert_eq!(build_failure(&ok), None);
    let bad = BuildProgress::Info { stream: None, error: Some("exit 1".to_string()) };
    assert_eq!(build_failure(&bad), Some("Build failed: exit 1".to_string()));
    let broken = BuildProgress::StreamError { message: "eof".to_string() };
    assert_eq!(build_failure(&broken), Some("Build stream error: eof".to_string()));
}
