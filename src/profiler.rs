use vstd::prelude::*;

verus! {

/// Command construction for Python jobs: the snippet is handed verbatim to
/// the runner script baked into the image.
pub struct PythonProfiler;

/// Command construction for C++ jobs: a shell script writes the snippet to a
/// file, compiles it and runs the program.
pub struct CppProfiler;

/// Quotes `s` for inclusion between single quotes in a POSIX shell word:
/// every `'` becomes `'\''`, every other character stays.
pub open spec fn shell_single_quoted(s: Seq<char>) -> Seq<char>
    decreases s.len(),
{
    if s.len() == 0 {
        Seq::empty()
    } else {
        let last = s.last();
        shell_single_quoted(s.drop_last()) + if last == '\'' {
            seq!['\'', '\\', '\'', '\'']
        } else {
            seq![last]
        }
    }
}

/// The shell script that compiles and runs `code` as a C++ program.
pub open spec fn cpp_script(code: Seq<char>) -> Seq<char> {
    "echo '"@ + shell_single_quoted(code) + "' > main.cpp && g++ main.cpp -o app && ./app"@
}

/// Escapes `s` as `shell_single_quoted` describes.
pub fn shell_escape(s: &str) -> (r: String)
    ensures
        r@ == shell_single_quoted(s@),
{
    let n = s.unicode_len();
    let mut out = String::new();
    let mut i: usize = 0;
    while i < n
        invariant
            n == s@.len(),
            i <= n,
            out@ == shell_single_quoted(s@.subrange(0, i as int)),
        decreases n - i,
    {
        let c = s.get_char(i);
        assert(s@.subrange(0, i as int + 1).drop_last() =~= s@.subrange(0, i as int));
        assert(s@.subrange(0, i as int + 1).last() == c);
        if c == '\'' {
            proof {
                reveal_strlit("'\\''");
            }
            out.append("'\\''");
        } else {
            out.append(s.substring_char(i, i + 1));
        }
        assert(out@ =~= shell_single_quoted(s@.subrange(0, i as int + 1)));
        i = i + 1;
    }
    assert(s@.subrange(0, n as int) =~= s@);
    out
}

impl PythonProfiler {
    /// `python3 /runner.py <code>`.
    pub fn wrap_command(code: &str) -> (r: Vec<String>)
        ensures
            r@.len() == 3,
            r@[0]@ == "python3"@,
            r@[1]@ == "/runner.py"@,
            r@[2]@ == code@,
    {
        let mut v: Vec<String> = Vec::new();
        v.push("python3".to_string());
        v.push("/runner.py".to_string());
        v.push(code.to_string());
        v
    }
}

impl CppProfiler {
    /// `sh -c <script>` where the script echoes the quoted snippet into
    /// `main.cpp`, compiles it with `g++` and runs the result.
    pub fn wrap_command(code: &str) -> (r: Vec<String>)
        ensures
            r@.len() == 3,
            r@[0]@ == "sh"@,
            r@[1]@ == "-c"@,
            r@[2]@ == cpp_script(code@),
    {
        let mut script = "echo '".to_string();
        let quoted = shell_escape(code);
        script.append(quoted.as_str());
        script.append("' > main.cpp && g++ main.cpp -o app && ./app");
        let mut v: Vec<String> = Vec::new();
        v.push("sh".to_string());
        v.push("-c".to_string());
        v.push(script);
        v
    }
}

} // verus!
