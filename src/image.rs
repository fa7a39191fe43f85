//! Image provisioning: where an image's build context is found, how it is
//! packed, and how the runtime's build progress is read.
use vstd::prelude::*;
use crate::language::{Language, context_dir_of, label_of};

verus! {

/// Prefix of the fallback build-context location, for a service started
/// from the repository root instead of its own directory.
pub open spec fn nested_dir_of(lang: Language) -> Seq<char> {
    "syscore/"@ + context_dir_of(lang)
}

pub open spec fn missing_context_message(lang: Language) -> Seq<char> {
    "Build directory for "@ + label_of(lang) + " not found at "@ + context_dir_of(lang)
        + " or "@ + nested_dir_of(lang)
}

/// The fallback build-context directory for `lang`.
pub fn nested_context_dir(lang: Language) -> (r: String)
    ensures
        r@ == nested_dir_of(lang),
{
    let mut s = "syscore/".to_string();
    s.append(lang.context_dir());
    s
}

/// Picks the build context: the primary directory where it exists, else the
/// nested one, else an error naming both.
pub fn resolve_build_dir(lang: Language, primary_exists: bool, nested_exists: bool) -> (r: Result<
    String,
    String,
>)
    ensures
        primary_exists ==> r is Ok && r->Ok_0@ == context_dir_of(lang),
        !primary_exists && nested_exists ==> r is Ok && r->Ok_0@ == nested_dir_of(lang),
        !primary_exists && !nested_exists ==> r is Err && r->Err_0@ == missing_context_message(
            lang,
        ),
{
    if primary_exists {
        Ok(lang.context_dir().to_string())
    } else if nested_exists {
        Ok(nested_context_dir(lang))
    } else {
        let mut s = "Build directory for ".to_string();
        s.append(lang.label());
        s.append(" not found at ");
        s.append(lang.context_dir());
        s.append(" or ");
        let n = nested_context_dir(lang);
        s.append(n.as_str());
        Err(s)
    }
}

pub open spec fn tar_args_of(dir: Seq<char>) -> Seq<Seq<char>> {
    seq![
        "-czf"@,
        "-"@,
        "--disable-copyfile"@,
        "--exclude=.DS_Store"@,
        "--no-xattrs"@,
        "-C"@,
        dir,
        "."@,
    ]
}

/// Arguments of `tar` that pack directory `dir` as a gzipped stream on
/// standard output.
pub fn tar_args(dir: &str) -> (r: Vec<String>)
    ensures
        r@.map_values(|s: String| s@) == tar_args_of(dir@),
{
    let mut v: Vec<String> = Vec::new();
    v.push("-czf".to_string());
    v.push("-".to_string());
    v.push("--disable-copyfile".to_string());
    v.push("--exclude=.DS_Store".to_string());
    v.push("--no-xattrs".to_string());
    v.push("-C".to_string());
    v.push(dir.to_string());
    v.push(".".to_string());
    assert(v@.map_values(|s: String| s@) =~= tar_args_of(dir@));
    v
}

/// One item of the runtime's build progress stream.
pub enum BuildProgress {
    /// A progress record; `error` is set where a build step failed.
    Info { stream: Option<String>, error: Option<String> },
    /// The stream itself failed.
    StreamError { message: String },
}

/// What a build-progress item means for the build: `None` to read on, or
/// the failure that ends it.
pub fn build_failure(p: &BuildProgress) -> (r: Option<String>)
    ensures
        match p {
            BuildProgress::Info { error: None, .. } => r is None,
            BuildProgress::Info { error: Some(e), .. } => r is Some && r->0@ == "Build failed: "@
                + e@,
            BuildProgress::StreamError { message } => r is Some && r->0@ == "Build stream error: "@
                + message@,
        },
{
    match p {
        BuildProgress::Info { error, .. } => match error {
            Some(e) => {
                let mut s = "Build failed: ".to_string();
                s.append(e.as_str());
                Some(s)
            },
            None => None,
        },
        BuildProgress::StreamError { message } => {
            let mut s = "Build stream error: ".to_string();
            s.append(message.as_str());
            Some(s)
        },
    }
}

} // verus!
