//! Release artifacts of the desktop client: version records, which version
//! a download means, who may publish, and what an upload must carry.
use vstd::prelude::*;
use vstd::multiset::Multiset;
use crate::text::{same_text, strip_prefix, has_char, contains_double_dot, has_double_dot};

verus! {

pub const BAD_REQUEST: u16 = 400;

pub const UNAUTHORIZED: u16 = 401;

/// A published version's metadata.
pub struct AetherVersion {
    pub version: String,
    pub description: String,
    pub changelog: String,
    pub release_date: String,
    pub filename: String,
    pub size: u64,
}

/// A download request: a version, or the latest where none is given.
pub struct DownloadQuery {
    pub v: Option<String>,
}

/// A version string that names one directory: no `..`, `/` or `\`.
pub open spec fn version_ok(v: Seq<char>) -> bool {
    !has_double_dot(v) && !v.contains('/') && !v.contains('\\')
}

/// Whether `v` can name a version directory.
pub fn is_valid_version(v: &str) -> (r: bool)
    ensures
        r == version_ok(v@),
{
    !contains_double_dot(v) && !has_char(v, '/') && !has_char(v, '\\')
}

/// The version a download asks for; `latest` where none is given.
pub fn requested_version(q: &DownloadQuery) -> (r: String)
    ensures
        match q.v {
            Some(v) => r@ == v@,
            None => r@ == "latest"@,
        },
{
    match &q.v {
        Some(v) => v.clone(),
        None => "latest".to_string(),
    }
}

/// Whether a download asks for the latest version.
pub fn wants_latest(version: &str) -> (r: bool)
    ensures
        r == (version@ == "latest"@),
{
    same_text(version, "latest")
}

/// The `Authorization` header carries `Bearer <expected>`.
pub open spec fn bearer_ok(header: Option<Seq<char>>, expected: Seq<char>) -> bool {
    match header {
        Some(h) => h == "Bearer "@ + expected,
        None => false,
    }
}

/// Whether the request may publish.
pub fn is_authorized(header: Option<&str>, expected: &str) -> (r: bool)
    ensures
        r == bearer_ok(
            match header {
                Some(h) => Some(h@),
                None => None,
            },
            expected@,
        ),
{
    proof {
        reveal_strlit("Bearer ");
    }
    match header {
        Some(h) => match strip_prefix(h, "Bearer ") {
            Some(token) => {
                let r = same_text(token, expected);
                proof {
                    if r {
                        assert(h@ =~= "Bearer "@ + expected@);
                    } else {
                        if h@ == "Bearer "@ + expected@ {
                            assert(token@ =~= expected@);
                        }
                    }
                }
                r
            },
            None => {
                proof {
                    if h@ == "Bearer "@ + expected@ {
                        assert(h@.subrange(0, 7) =~= "Bearer "@);
                    }
                }
                false
            },
        },
        None => false,
    }
}

/// `a` comes before `b` in code point order (the byte order of their UTF-8
/// encodings).
pub open spec fn text_lt(a: Seq<char>, b: Seq<char>) -> bool
    decreases a.len(),
{
    if b.len() == 0 {
        false
    } else if a.len() == 0 {
        true
    } else if a[0] != b[0] {
        (a[0] as u32) < (b[0] as u32)
    } else {
        text_lt(a.drop_first(), b.drop_first())
    }
}

/// Whether `a` comes before `b`.
pub fn text_less(a: &str, b: &str) -> (r: bool)
    ensures
        r == text_lt(a@, b@),
{
    let n = a.unicode_len();
    let m = b.unicode_len();
    let mut i: usize = 0;
    assert(a@.subrange(0, n as int) =~= a@);
    assert(b@.subrange(0, m as int) =~= b@);
    while i < n && i < m
        invariant
            n == a@.len(),
            m == b@.len(),
            i <= n,
            i <= m,
            text_lt(a@, b@) == text_lt(a@.subrange(i as int, n as int), b@.subrange(i as int, m as int)),
        decreases n - i,
    {
        let x = a.get_char(i);
        let y = b.get_char(i);
        let ghost sa = a@.subrange(i as int, n as int);
        let ghost sb = b@.subrange(i as int, m as int);
        assert(sa[0] == x && sb[0] == y);
        if x != y {
            return (x as u32) < (y as u32);
        }
        assert(sa.drop_first() =~= a@.subrange(i + 1, n as int));
        assert(sb.drop_first() =~= b@.subrange(i + 1, m as int));
        i = i + 1;
    }
    i < m
}

/// `v` is ordered newest first: no release date is earlier than a later
/// entry's.
pub open spec fn newest_first_order(v: Seq<AetherVersion>) -> bool {
    forall|i: int, j: int|
        0 <= i < j < v.len() ==> !text_lt(#[trigger] v[i].release_date@, #[trigger] v[j].release_date@)
}

/// Index of the latest release: the first of those with the greatest date.
pub open spec fn is_latest_at(v: Seq<AetherVersion>, k: int) -> bool {
    &&& 0 <= k < v.len()
    &&& forall|j: int| 0 <= j < v.len() ==> !text_lt(v[k].release_date@, #[trigger] v[j].release_date@)
    &&& forall|j: int| 0 <= j < k ==> #[trigger] text_lt(v[j].release_date@, v[k].release_date@)
}

pub proof fn lemma_text_lt_irreflexive(a: Seq<char>)
    ensures
        !text_lt(a, a),
    decreases a.len(),
{
    if a.len() > 0 {
        lemma_text_lt_irreflexive(a.drop_first());
    }
}

pub proof fn lemma_text_lt_trichotomy(a: Seq<char>, b: Seq<char>)
    ensures
        text_lt(a, b) || text_lt(b, a) || a == b,
    decreases a.len(),
{
    if a.len() > 0 && b.len() > 0 && a[0] == b[0] {
        lemma_text_lt_trichotomy(a.drop_first(), b.drop_first());
        if a.drop_first() == b.drop_first() {
            assert(a =~= seq![a[0]] + a.drop_first());
            assert(b =~= seq![b[0]] + b.drop_first());
        }
    }
    if a.len() > 0 && b.len() > 0 && a[0] != b[0] {
        vstd::utf8::char_u32_cast(a[0], a[0] as u32);
        vstd::utf8::char_u32_cast(b[0], b[0] as u32);
        assert((a[0] as u32) != (b[0] as u32));
    }
    if a.len() == 0 && b.len() == 0 {
        assert(a =~= b);
    }
}

pub proof fn lemma_text_lt_transitive(a: Seq<char>, b: Seq<char>, c: Seq<char>)
    requires
        text_lt(a, b),
        text_lt(b, c),
    ensures
        text_lt(a, c),
    decreases a.len(),
{
    if a.len() > 0 && b.len() > 0 && c.len() > 0 && a[0] == b[0] && b[0] == c[0] {
        lemma_text_lt_transitive(a.drop_first(), b.drop_first(), c.drop_first());
    }
}

/// The latest release among `versions`, if any.
pub fn latest_release(versions: &Vec<AetherVersion>) -> (r: Option<usize>)
    ensures
        match r {
            Some(k) => is_latest_at(versions@, k as int),
            None => versions@.len() == 0,
        },
{
    if versions.len() == 0 {
        return None;
    }
    let mut best: usize = 0;
    let mut i: usize = 1;
    proof {
        lemma_text_lt_irreflexive(versions@[0].release_date@);
    }
    while i < versions.len()
        invariant
            1 <= i <= versions@.len(),
            best < i,
            forall|j: int| 0 <= j < i ==> !text_lt(versions@[best as int].release_date@, #[trigger] versions@[j].release_date@),
            forall|j: int| 0 <= j < best ==> #[trigger] text_lt(versions@[j].release_date@, versions@[best as int].release_date@),
        decreases versions@.len() - i,
    {
        if text_less(versions[best].release_date.as_str(), versions[i].release_date.as_str()) {
            let ghost ob = best as int;
            proof {
                let nb = versions@[i as int].release_date@;
                assert forall|j: int| 0 <= j < i + 1 implies !text_lt(nb, #[trigger] versions@[j].release_date@) by {
                    let d = versions@[j].release_date@;
                    if j < i {
                        lemma_text_lt_trichotomy(versions@[ob].release_date@, d);
                        if text_lt(nb, d) {
                            lemma_text_lt_transitive(versions@[ob].release_date@, nb, d);
                        }
                    } else {
                        lemma_text_lt_irreflexive(nb);
                    }
                }
                assert forall|j: int| 0 <= j < i implies #[trigger] text_lt(versions@[j].release_date@, nb) by {
                    let d = versions@[j].release_date@;
                    let bd = versions@[ob].release_date@;
                    lemma_text_lt_trichotomy(d, bd);
                    if text_lt(d, bd) {
                        lemma_text_lt_transitive(d, bd, nb);
                    } else if d == bd {
                    } else {
                        assert(text_lt(bd, d));
                        assert(false);
                    }
                }
            }
            best = i;
        }
        i = i + 1;
    }
    Some(best)
}

/// `!(a < b)` and `a < c` give `!(c < b)`.
pub proof fn lemma_text_lt_step(a: Seq<char>, b: Seq<char>, c: Seq<char>)
    requires
        !text_lt(a, b),
        text_lt(a, c),
    ensures
        !text_lt(c, b),
{
    lemma_text_lt_trichotomy(a, b);
    if text_lt(c, b) {
        if a == b {
            lemma_text_lt_transitive(a, c, b);
            lemma_text_lt_irreflexive(a);
        } else {
            lemma_text_lt_transitive(b, a, c);
            lemma_text_lt_transitive(b, c, b);
            lemma_text_lt_irreflexive(b);
        }
    }
}

/// `versions` ordered newest first.
pub fn newest_first(versions: Vec<AetherVersion>) -> (r: Vec<AetherVersion>)
    ensures
        newest_first_order(r@),
        r@.to_multiset() == versions@.to_multiset(),
{
    broadcast use vstd::seq_lib::group_to_multiset_ensures, vstd::multiset::group_multiset_axioms;

    let ghost orig = versions@;
    let mut rest = versions;
    let mut out: Vec<AetherVersion> = Vec::new();
    proof {
        assert(out@.to_multiset() =~= Multiset::empty());
        assert(out@.to_multiset().add(rest@.to_multiset()) =~= orig.to_multiset());
    }
    while rest.len() > 0
        invariant
            newest_first_order(out@),
            out@.to_multiset().add(rest@.to_multiset()) == orig.to_multiset(),
        decreases rest@.len(),
    {
        let ghost rest0 = rest@;
        let v = rest.remove(0);
        let mut pos: usize = 0;
        while pos < out.len() && !text_less(out[pos].release_date.as_str(), v.release_date.as_str())
            invariant
                pos <= out@.len(),
                forall|j: int| 0 <= j < pos ==> !text_lt(#[trigger] out@[j].release_date@, v.release_date@),
            decreases out@.len() - pos,
        {
            pos = pos + 1;
        }
        let ghost o = out@;
        let ghost vd = v.release_date@;
        out.insert(pos, v);
        proof {
            let w = out@;
            assert(w =~= o.insert(pos as int, v));
            assert forall|i: int, j: int| 0 <= i < j < w.len() implies !text_lt(
                #[trigger] w[i].release_date@,
                #[trigger] w[j].release_date@,
            ) by {
                if j < pos {
                    assert(w[i] == o[i] && w[j] == o[j]);
                } else if j == pos {
                    assert(w[i] == o[i]);
                } else if i < pos {
                    assert(w[i] == o[i] && w[j] == o[j - 1]);
                } else if i == pos {
                    let top = o[pos as int].release_date@;
                    let other = o[j - 1].release_date@;
                    assert(text_lt(top, vd));
                    if j - 1 == pos {
                        lemma_text_lt_irreflexive(top);
                        lemma_text_lt_step(top, other, vd);
                    } else {
                        assert(!text_lt(top, other));
                        lemma_text_lt_step(top, other, vd);
                    }
                } else {
                    assert(w[i] == o[i - 1] && w[j] == o[j - 1]);
                }
            }
            assert(rest0.remove(0) == rest@);
            assert(rest0[0] == v);
            assert(rest0.contains(v));
            vstd::seq_lib::to_multiset_remove(rest0, 0);
            vstd::seq_lib::to_multiset_insert(o, pos as int, v);
            vstd::seq_lib::to_multiset_contains(rest0, v);
            assert(rest0.to_multiset().count(v) > 0);
            assert(out@.to_multiset().add(rest@.to_multiset()) =~= orig.to_multiset());
        }
    }
    proof {
        assert(rest@.to_multiset() =~= Multiset::empty());
        assert(out@.to_multiset() =~= orig.to_multiset());
    }
    out
}

/// What an upload has carried so far.
pub struct UploadForm {
    pub version: Option<String>,
    pub description: Option<String>,
    pub changelog: Option<String>,
    pub filename: Option<String>,
    pub file: Option<Vec<u8>>,
}

/// A complete, valid upload.
pub struct UploadPlan {
    pub version: String,
    pub description: String,
    pub changelog: String,
    pub filename: String,
    pub file: Vec<u8>,
}

impl UploadForm {
    /// Nothing received yet.
    pub fn new() -> (r: UploadForm)
        ensures
            r.version is None && r.description is None && r.changelog is None && r.filename is None
                && r.file is None,
    {
        UploadForm { version: None, description: None, changelog: None, filename: None, file: None }
    }

    /// Takes a text field: `version`, `description` and `changelog` are kept,
    /// other names are ignored.
    pub fn accept_text(&mut self, name: &str, value: String)
        ensures
            final(self).filename == old(self).filename,
            final(self).file == old(self).file,
            final(self).version == (if name@ == "version"@ { Some(value) } else { old(self).version }),
            final(self).description == (if name@ == "description"@ { Some(value) } else { old(self).description }),
            final(self).changelog == (if name@ == "changelog"@ { Some(value) } else { old(self).changelog }),
    {
        proof {
            reveal_strlit("version");
            reveal_strlit("description");
            reveal_strlit("changelog");
            assert("version"@.len() != "description"@.len());
            assert("version"@.len() != "changelog"@.len());
            assert("description"@.len() != "changelog"@.len());
        }
        if same_text(name, "version") {
            self.version = Some(value);
        } else if same_text(name, "description") {
            self.description = Some(value);
        } else if same_text(name, "changelog") {
            self.changelog = Some(value);
        }
    }

    /// Takes the file field.
    pub fn accept_file(&mut self, filename: Option<String>, bytes: Vec<u8>)
        ensures
            final(self).version == old(self).version,
            final(self).description == old(self).description,
            final(self).changelog == old(self).changelog,
            final(self).filename == filename,
            final(self).file == Some(bytes),
    {
        self.filename = filename;
        self.file = Some(bytes);
    }

    /// The upload, or the status and message that refuse it: a version, a
    /// file and its name are required, and the version must be valid.
    /// Description and changelog default to empty.
    pub fn finish(self) -> (r: Result<UploadPlan, (u16, String)>)
        ensures
            self.version is None ==> (r matches Err((c, m)) && c == BAD_REQUEST && m@
                == "Missing version"@),
            self.version is Some && self.file is None ==> (r matches Err((c, m)) && c == BAD_REQUEST
                && m@ == "Missing file"@),
            self.version is Some && self.file is Some && self.filename is None ==> (r matches Err(
                (c, m),
            ) && c == BAD_REQUEST && m@ == "Missing filename"@),
            self.version is Some && self.file is Some && self.filename is Some && !version_ok(
                self.version->0@,
            ) ==> (r matches Err((c, m)) && c == BAD_REQUEST && m@ == "Invalid version string"@),
            self.version is Some && self.file is Some && self.filename is Some && version_ok(
                self.version->0@,
            ) ==> (r matches Ok(p) && p.version == self.version->0 && p.file == self.file->0
                && p.filename == self.filename->0 && p.description@ == (match self.description {
                Some(d) => d@,
                None => Seq::<char>::empty(),
            }) && p.changelog@ == (match self.changelog {
                Some(c) => c@,
                None => Seq::<char>::empty(),
            })),
    {
        let version = match self.version {
            Some(v) => v,
            None => return Err((BAD_REQUEST, "Missing version".to_string())),
        };
        let file = match self.file {
            Some(f) => f,
            None => return Err((BAD_REQUEST, "Missing file".to_string())),
        };
        let filename = match self.filename {
            Some(f) => f,
            None => return Err((BAD_REQUEST, "Missing filename".to_string())),
        };
        let description = match self.description {
            Some(d) => d,
            None => String::new(),
        };
        let changelog = match self.changelog {
            Some(c) => c,
            None => String::new(),
        };
        if !is_valid_version(version.as_str()) {
            return Err((BAD_REQUEST, "Invalid version string".to_string()));
        }
        Ok(UploadPlan { version, description, changelog, filename, file })
    }
}

/// The metadata recorded for a published upload.
pub fn version_record(plan: &UploadPlan, release_date: String) -> (r: AetherVersion)
    requires
        plan.file@.len() <= u64::MAX,
    ensures
        r.version@ == plan.version@,
        r.description@ == plan.description@,
        r.changelog@ == plan.changelog@,
        r.release_date == release_date,
        r.filename@ == plan.filename@,
        r.size == plan.file@.len(),
{
    AetherVersion {
        version: plan.version.clone(),
        description: plan.description.clone(),
        changelog: plan.changelog.clone(),
        release_date,
        filename: plan.filename.clone(),
        size: plan.file.len() as u64,
    }
}

} // verus!
