//! What a job's container is created with: image, command and the resource
//! policy every container of this service carries.
use vstd::prelude::*;
use crate::language::{Language, image_of};
use crate::profiler::{PythonProfiler, CppProfiler, cpp_script};

verus! {

/// Memory cap of every container: 256 MiB.
pub const MEMORY_LIMIT_BYTES: i64 = 268435456;

/// CPU cap of every container, in billionths of a CPU: one full core.
pub const NANO_CPUS: i64 = 1000000000;

/// Everything the runtime needs to create a job's container.
pub struct ContainerSpec {
    pub image: String,
    pub cmd: Vec<String>,
    pub memory_bytes: i64,
    pub nano_cpus: i64,
    pub network_mode: String,
    pub auto_remove: bool,
    pub attach_stdout: bool,
    pub attach_stderr: bool,
    pub tty: bool,
}

pub open spec fn strings_view(v: Seq<String>) -> Seq<Seq<char>> {
    v.map_values(|s: String| s@)
}

/// The argument list that runs `code` written in `lang`.
pub open spec fn command_of(lang: Language, code: Seq<char>) -> Seq<Seq<char>> {
    match lang {
        Language::Python => seq!["python3"@, "/runner.py"@, code],
        Language::Cpp => seq!["sh"@, "-c"@, cpp_script(code)],
    }
}

/// The resource policy: memory and CPU capped, no network, removal left to
/// the service so that logs can be read first.
pub open spec fn limits_enforced(s: ContainerSpec) -> bool {
    &&& s.memory_bytes == MEMORY_LIMIT_BYTES
    &&& s.nano_cpus == NANO_CPUS
    &&& s.network_mode@ == "none"@
    &&& !s.auto_remove
}

/// The container that runs `code` written in `lang`.
pub open spec fn spec_for(s: ContainerSpec, lang: Language, code: Seq<char>) -> bool {
    &&& limits_enforced(s)
    &&& s.image@ == image_of(lang)
    &&& strings_view(s.cmd@) == command_of(lang, code)
    &&& s.attach_stdout
    &&& s.attach_stderr
    &&& !s.tty
}

/// Builds the command line for `code` by the rule of its language.
pub fn build_command(lang: Language, code: &str) -> (r: Vec<String>)
    ensures
        strings_view(r@) == command_of(lang, code@),
{
    let r = match lang {
        Language::Python => PythonProfiler::wrap_command(code),
        Language::Cpp => CppProfiler::wrap_command(code),
    };
    assert(strings_view(r@) =~= command_of(lang, code@));
    r
}

/// The container for a job running `code` written in `lang`.
pub fn container_spec(lang: Language, code: &str) -> (r: ContainerSpec)
    ensures
        spec_for(r, lang, code@),
{
    ContainerSpec {
        image: lang.image_name().to_string(),
        cmd: build_command(lang, code),
        memory_bytes: MEMORY_LIMIT_BYTES,
        nano_cpus: NANO_CPUS,
        network_mode: "none".to_string(),
        auto_remove: false,
        attach_stdout: true,
        attach_stderr: true,
        tty: false,
    }
}

pub open spec fn container_name_of(job_id: Seq<char>) -> Seq<char> {
    "okernel-job-"@ + job_id
}

/// The name given to the container of job `job_id`.
pub fn container_name(job_id: &str) -> (r: String)
    ensures
        r@ == container_name_of(job_id@),
{
    let mut name = "okernel-job-".to_string();
    name.append(job_id);
    name
}

} // verus!
