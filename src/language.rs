use vstd::prelude::*;

verus! {

/// The languages a job can be written in.
#[derive(Clone, Copy, Debug, PartialEq, Eq, Hash, Structural)]
pub enum Language {
    Python,
    Cpp,
}

/// Name of the runtime image that runs code of `lang`.
pub open spec fn image_of(lang: Language) -> Seq<char> {
    match lang {
        Language::Python => "okernel/python-runner"@,
        Language::Cpp => "okernel/cpp-runner"@,
    }
}

/// Directory (relative to the service's working directory) holding the
/// build context of the image for `lang`.
pub open spec fn context_dir_of(lang: Language) -> Seq<char> {
    match lang {
        Language::Python => "docker/python"@,
        Language::Cpp => "docker/cpp"@,
    }
}

pub open spec fn label_of(lang: Language) -> Seq<char> {
    match lang {
        Language::Python => "Python"@,
        Language::Cpp => "Cpp"@,
    }
}

impl Language {
    /// The runtime image for this language.
    pub fn image_name(&self) -> (r: &'static str)
        ensures
            r@ == image_of(*self),
    {
        match self {
            Language::Python => "okernel/python-runner",
            Language::Cpp => "okernel/cpp-runner",
        }
    }

    /// The language's name as messages show it.
    pub fn label(&self) -> (r: &'static str)
        ensures
            r@ == label_of(*self),
    {
        match self {
            Language::Python => "Python",
            Language::Cpp => "Cpp",
        }
    }

    /// The build-context directory for this language's image.
    pub fn context_dir(&self) -> (r: &'static str)
        ensures
            r@ == context_dir_of(*self),
    {
        match self {
            Language::Python => "docker/python",
            Language::Cpp => "docker/cpp",
        }
    }
}

} // verus!
