//! What the HTTP surface decides: which language a request names, what a
//! job's outcome looks like to the caller, and the VM and filesystem
//! operations of the teaching models.
use vstd::prelude::*;
use crate::language::Language;
use crate::job::{JobError, error_message_of};
use crate::memory::{Memory, STACK_TOP, with_c_string, le_byte};
use crate::fs::{MockFileSystem, user_files, names_of};
use crate::text::same_text;
use vstd::utf8::encode_utf8;

verus! {

/// A request to run `code` written in `language`.
pub struct ExecuteRequest {
    pub language: String,
    pub code: String,
}

/// The reply: `status` is `success` with the job id as `output`, or `error`
/// with the reason.
pub struct ExecuteResponse {
    pub status: String,
    pub output: String,
}

/// The language a request names: `python`, or `cpp` / `c++`.
pub open spec fn language_named(name: Seq<char>) -> Option<Language> {
    if name == "python"@ {
        Some(Language::Python)
    } else if name == "cpp"@ || name == "c++"@ {
        Some(Language::Cpp)
    } else {
        None
    }
}

/// The language named `name`, if it is supported.
pub fn parse_language(name: &str) -> (r: Option<Language>)
    ensures
        r == language_named(name@),
{
    if same_text(name, "python") {
        Some(Language::Python)
    } else if same_text(name, "cpp") || same_text(name, "c++") {
        Some(Language::Cpp)
    } else {
        None
    }
}

/// The reply to a request whose language is not supported.
pub fn unsupported_language() -> (r: ExecuteResponse)
    ensures
        r.status@ == "error"@,
        r.output@ == "Unsupported language"@,
{
    ExecuteResponse { status: "error".to_string(), output: "Unsupported language".to_string() }
}

/// The reply for a finished job.
pub fn execute_response(result: Result<String, JobError>) -> (r: ExecuteResponse)
    ensures
        match result {
            Ok(id) => r.status@ == "success"@ && r.output@ == id@,
            Err(e) => r.status@ == "error"@ && r.output@ == error_message_of(e@),
        },
{
    match result {
        Ok(id) => ExecuteResponse { status: "success".to_string(), output: id },
        Err(e) => ExecuteResponse { status: "error".to_string(), output: e.message() },
    }
}

/// The text of the health endpoint.
pub fn health_banner(build: &str) -> (r: String)
    ensures
        r@ == "SysCore Backend: ONLINE (Build: "@ + build@ + ")"@,
{
    let mut s = "SysCore Backend: ONLINE (Build: ".to_string();
    s.append(build);
    s.append(")");
    s
}

/// A VM: its memory and its filesystem.
pub struct VMState {
    pub memory: Memory,
    pub fs: MockFileSystem,
}

/// Reserve `size` bytes of heap in `state`.
pub struct VMMallocRequest {
    pub state: VMState,
    pub size: usize,
}

/// Write `data` at `address` in `state`: as a string, or as an `i32`.
pub struct VMWriteRequest {
    pub state: VMState,
    pub address: usize,
    pub data: String,
    pub is_string: bool,
}

/// A filesystem operation: `ls`, or `create` with a `name`.
pub struct FSOperationRequest {
    pub op: String,
    pub path: String,
    pub name: Option<String>,
    pub content: Option<String>,
}

/// The outcome of a filesystem operation.
pub struct FSOperationResponse {
    pub success: bool,
    pub files: Option<Vec<String>>,
    pub content: Option<String>,
    pub error: Option<String>,
}

/// Every char of `s` is an ASCII digit.
pub open spec fn all_digits(s: Seq<char>) -> bool {
    forall|i: int| 0 <= i < s.len() ==> '0' <= #[trigger] s[i] <= '9'
}

/// The number the decimal digits `s` spell.
pub open spec fn digits_value(s: Seq<char>) -> int
    decreases s.len(),
{
    if s.len() == 0 {
        0
    } else {
        digits_value(s.drop_last()) * 10 + (s.last() as int - '0' as int)
    }
}

/// The `i32` that `s` spells in decimal: an optional `+` or `-`, then one
/// or more digits and nothing else, within range.
pub open spec fn parsed_i32(s: Seq<char>) -> Option<i32> {
    let neg = s.len() > 0 && s[0] == '-';
    let digits = if s.len() > 0 && (s[0] == '-' || s[0] == '+') {
        s.drop_first()
    } else {
        s
    };
    let v = if neg {
        -digits_value(digits)
    } else {
        digits_value(digits)
    };
    if digits.len() > 0 && all_digits(digits) && i32::MIN <= v <= i32::MAX {
        Some(v as i32)
    } else {
        None
    }
}

/// Relies on `str::parse::<i32>` (`i32::from_str`): an optional sign
/// followed by digits only, `None` where that fails or overflows.
#[verifier::external_body]
fn parse_i32(s: &str) -> (r: Option<i32>)
    ensures
        r == parsed_i32(s@),
{
    s.parse::<i32>().ok()
}

/// Reserves heap in the request's VM: the VM with the heap grown, or the
/// out-of-memory error.
pub fn vm_malloc(req: VMMallocRequest) -> (r: Result<VMState, String>)
    requires
        req.state.memory.heap_ptr + req.size <= usize::MAX,
    ensures
        req.state.memory.heap_ptr + req.size < STACK_TOP ==> r is Ok && r->Ok_0.memory.heap_ptr
            == req.state.memory.heap_ptr + req.size && r->Ok_0.memory.buffer@
            == req.state.memory.buffer@ && r->Ok_0.fs == req.state.fs,
        req.state.memory.heap_ptr + req.size >= STACK_TOP ==> r is Err && r->Err_0@
            == "Out of Memory (Heap Collision)"@,
{
    let mut state = req.state;
    match state.memory.malloc(req.size) {
        Ok(_) => Ok(state),
        Err(e) => Err(e),
    }
}

/// Writes the request's data into its VM's memory: the string and a zero
/// byte, or the little-endian `i32` it spells; data that is not a number
/// leaves the memory as it was.
pub fn vm_write(req: VMWriteRequest) -> (r: VMState)
    requires
        req.state.memory.wf(),
        req.address + encode_utf8(req.data@).len() <= usize::MAX,
    ensures
        r.fs == req.state.fs,
        r.memory.heap_ptr == req.state.memory.heap_ptr,
        req.is_string ==> r.memory.buffer@ == with_c_string(
            req.state.memory.buffer@,
            req.address as int,
            encode_utf8(req.data@),
        ),
        !req.is_string ==> match parsed_i32(req.data@) {
            Some(v) => r.memory.buffer@ == (if req.address <= crate::memory::SIZE - 4 {
                req.state.memory.buffer@.update(req.address as int, le_byte(v, 0u32)).update(
                    req.address + 1,
                    le_byte(v, 8u32),
                ).update(req.address + 2, le_byte(v, 16u32)).update(
                    req.address + 3,
                    le_byte(v, 24u32),
                )
            } else {
                req.state.memory.buffer@
            }),
            None => r.memory.buffer@ == req.state.memory.buffer@,
        },
{
    let mut state = req.state;
    if req.is_string {
        state.memory.write_string(req.address, req.data.as_str());
    } else {
        match parse_i32(req.data.as_str()) {
            Some(val) => state.memory.write32(req.address, val),
            None => {},
        }
    }
    state
}

/// Clears the VM's memory.
pub fn vm_reset(state: VMState) -> (r: VMState)
    ensures
        r.fs == state.fs,
        r.memory.buffer@ == Seq::new(state.memory.buffer@.len(), |i: int| 0u8),
        r.memory.heap_ptr == crate::memory::HEAP_BASE,
{
    let mut state = state;
    state.memory.reset();
    state
}

/// Runs a filesystem operation on a fresh filesystem: `ls` lists the user
/// directory, `create` adds an empty file named by the request.
pub fn fs_operation(req: &FSOperationRequest) -> (r: FSOperationResponse)
    ensures
        req.op@ == "ls"@ ==> r.success && r.files is Some && r.files->0@.map_values(|f: String| f@)
            == seq!["README.txt"@, "secret.c"@] && r.error is None && r.content is None,
        req.op@ == "create"@ ==> (match req.name {
            Some(_) => r.success && r.files is None && r.error is None,
            None => !r.success && r.error is Some && r.error->0@ == "Name missing"@,
        }),
        req.op@ != "ls"@ && req.op@ != "create"@ ==> !r.success && r.error is Some
            && r.error->0@ == "Unknown op"@,
{
    let mut fs = MockFileSystem::new();
    proof {
        reveal_strlit("ls");
        reveal_strlit("create");
        assert("ls"@.len() != "create"@.len());
    }
    if same_text(req.op.as_str(), "ls") {
        FSOperationResponse {
            success: true,
            files: Some(fs.list_files()),
            content: None,
            error: None,
        }
    } else if same_text(req.op.as_str(), "create") {
        match &req.name {
            Some(name) => {
                fs.create_file(name.clone());
                FSOperationResponse { success: true, files: None, content: None, error: None }
            },
            None => FSOperationResponse {
                success: false,
                files: None,
                content: None,
                error: Some("Name missing".to_string()),
            },
        }
    } else {
        FSOperationResponse {
            success: false,
            files: None,
            content: None,
            error: Some("Unknown op".to_string()),
        }
    }
}

} // verus!
