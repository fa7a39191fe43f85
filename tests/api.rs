use syscore::api::{
    execute_response, fs_operation, health_banner, parse_language, unsupported_language, vm_malloc,
    vm_reset, vm_write, FSOperationRequest, VMMallocRequest, VMState, VMWriteRequest,
};
use syscore::fs::MockFileSystem;
use syscore::job::JobError;
use syscore::language::Language;
use syscore::memory::{Memory, HEAP_BASE};

fn vm() -> VMState {
    VMState { memory: Memory::new(), fs: MockFileSystem::new() }
}

fn fs_request(op: &str, name: Option<&str>) -> FSOperationRequest {
    FSOperationRequest {
        op: op.to_string(),
        path: "/".to_string(),
        name: name.map(|n| n.to_string()),
        content: None,
    }
}

#[test]
fn languages_by_name() {
    assert_eq!(parse_language("python"), Some(Language::Python));
    assert_eq!(parse_language("cpp"), Some(Language::Cpp));
    assert_eq!(parse_language("c++"), Some(Language::Cpp));
    assert_eq!(parse_language("Python"), None);
    assert_eq!(parse_language("rust"), None);
}

#[test]
fn responses() {
    let r = execute_response(Ok("abc".to_string()));
    assert_eq!((r.status.as_str(), r.output.as_str()), ("success", "abc"));
    let r = execute_response(Err(JobError::Create("x".to_string())));
    assert_eq!((r.status.as_str(), r.output.as_str()), ("error", "Failed to create container: x"));
    let r = unsupported_language();
    assert_eq!((r.status.as_str(), r.output.as_str()), ("error", "Unsupported language"));
    assert_eq!(health_banner("1.2"), "SysCore Backend: ONLINE (Build: 1.2)");
}

#[test]
fn fs_operations() {
    let r = fs_operation(&fs_request("ls", None));
    assert!(r.success);
    assert_eq!(r.files, Some(vec!["README.txt".to_string(), "secret.c".to_string()]));
    let r = fs_operation(&fs_request("create", Some("new.txt")));
    assert!(r.success && r.error.is_none());
    let r = fs_operation(&fs_request("create", None));
    assert!(!r.success);
    assert_eq!(r.error.as_deref(), Some("Name missing"));
    let r = fs_operation(&fs_request("rm", None));
    assert_eq!(r.error.as_deref(), Some("Unknown op"));
}

#[test]
fn vm_malloc_grows_or_fails() {
    let r = vm_malloc(VMMallocRequest { state: vm(), size: 16 }).ok().unwrap();
    assert_eq!(r.memory.heap_ptr, HEAP_BASE + 16);
    let err = vm_malloc(VMMallocRequest { state: vm(), size: 0xFFFFF }).err().unwrap();
    assert_eq!(err, "Out of Memory (Heap Collision)");
}

#[test]
fn vm_write_string_or_number() {
    let s = vm_write(VMWriteRequest { state: vm(), address: 100, data: "hi".to_string(), is_string: true });
    assert_eq!(s.memory.read_string(100), "hi");
    let s = vm_write(VMWriteRequest { state: vm(), address: 8, data: "-2".to_string(), is_string: false });
    assert_eq!(s.memory.read32(8), -2);
    let s = vm_write(VMWriteRequest { state: vm(), address: 8, data: "x".to_string(), is_string: false });
    assert_eq!(s.memory.read32(8), 0);
}

#[test]
fn vm_reset_clears() {
    let mut state = vm();
    state.memory.write8(3, 9);
    state.memory.heap_ptr = HEAP_BASE + 40;
    let state = vm_reset(state);
    assert_eq!(state.memory.read8(3), 0);
    assert_eq!(state.memory.heap_ptr, HEAP_BASE);
}

#[test]
fn vm_write_numbers_follow_decimal_syntax() {
    let write = |data: &str| {
        vm_write(VMWriteRequest { state: vm(), address: 0, data: data.to_string(), is_string: false })
            .memory
            .read32(0)
    };
    assert_eq!(write("+7"), 7);
    assert_eq!(write("2147483647"), i32::MAX);
    assert_eq!(write("-2147483648"), i32::MIN);
    assert_eq!(write("2147483648"), 0);
    assert_eq!(write(" 7"), 0);
    assert_eq!(write("-"), 0);
    assert_eq!(write(""), 0);
}
