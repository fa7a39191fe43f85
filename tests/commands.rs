use syscore::container::{build_command, container_name, container_spec, MEMORY_LIMIT_BYTES, NANO_CPUS};
use syscore::language::Language;
use syscore::profiler::{shell_escape, CppProfiler, PythonProfiler};

#[test]
fn python_command_runs_the_runner() {
    assert_eq!(
        PythonProfiler::wrap_command("print(1)"),
        vec!["python3".to_string(), "/runner.py".to_string(), "print(1)".to_string()]
    );
}

#[test]
fn cpp_command_compiles_and_runs() {
    let cmd = CppProfiler::wrap_command("int main(){}");
    assert_eq!(cmd[0], "sh");
    assert_eq!(cmd[1], "-c");
    assert_eq!(cmd[2], "echo 'int main(){}' > main.cpp && g++ main.cpp -o app && ./app");
}

#[test]
fn single_quotes_are_escaped() {
    assert_eq!(shell_escape("it's"), "it'\\''s");
    assert_eq!(shell_escape(""), "");
    let cmd = CppProfiler::wrap_command("char c = 'x';");
    assert_eq!(cmd[2], "echo 'char c = '\\''x'\\'';' > main.cpp && g++ main.cpp -o app && ./app");
}

#[test]
fn build_command_dispatches_on_language() {
    assert_eq!(build_command(Language::Python, "x"), PythonProfiler::wrap_command("x"));
    assert_eq!(build_command(Language::Cpp, "x"), CppProfiler::wrap_command("x"));
}

#[test]
fn every_container_carries_the_resource_limits() {
    for lang in [Language::Python, Language::Cpp] {
        let spec = container_spec(lang, "code");
        assert_eq!(spec.memory_bytes, 256 * 1024 * 1024);
        assert_eq!(spec.memory_bytes, MEMORY_LIMIT_BYTES);
        assert_eq!(spec.nano_cpus, 1_000_000_000);
        assert_eq!(spec.nano_cpus, NANO_CPUS);
        assert_eq!(spec.network_mode, "none");
        assert!(!spec.auto_remove);
        assert!(spec.attach_stdout && spec.attach_stderr && !spec.tty);
        assert_eq!(spec.image, lang.image_name());
    }
}

#[test]
fn images_and_names() {
    assert_eq!(Language::Python.image_name(), "okernel/python-runner");
    assert_eq!(Language::Cpp.image_name(), "okernel/cpp-runner");
    assert_eq!(Language::Python.context_dir(), "docker/python");
    assert_eq!(Language::Cpp.context_dir(), "docker/cpp");
    assert_eq!(Language::Cpp.label(), "Cpp");
    assert_eq!(container_name("abc"), "okernel-job-abc");
}
