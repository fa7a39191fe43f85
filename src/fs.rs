//! An in-memory mock filesystem: a fixed tree whose user directory
//! (`/home/user`) can be listed and gain empty files.
use vstd::prelude::*;

verus! {

/// Kind of a node.
#[derive(Clone, Copy, Debug, PartialEq, Eq, Structural)]
pub enum NodeType {
    File,
    Dir,
}

/// A file or directory. Names are unique among a directory's children.
pub struct FileNode {
    pub name: String,
    pub node_type: NodeType,
    pub content: Option<String>,
    pub children: Option<Vec<FileNode>>,
}

/// The whole filesystem.
pub struct MockFileSystem {
    pub root: FileNode,
}

/// The children of `n`; none for a file.
pub open spec fn entries(n: FileNode) -> Seq<FileNode> {
    match n.children {
        Some(v) => v@,
        None => Seq::empty(),
    }
}

pub open spec fn names_of(cs: Seq<FileNode>) -> Seq<Seq<char>> {
    cs.map_values(|c: FileNode| c.name@)
}

/// No two of `cs` share a name.
pub open spec fn names_unique(cs: Seq<FileNode>) -> bool {
    forall|i: int, j: int| 0 <= i < j < cs.len() ==> #[trigger] cs[i].name@ != #[trigger] cs[j].name@
}

/// Names are unique in the root, in each directory directly under it, and
/// in `/home/user`: every directory the operations reach.
pub open spec fn fs_wf(fs: MockFileSystem) -> bool {
    &&& names_unique(entries(fs.root))
    &&& forall|i: int|
        0 <= i < entries(fs.root).len() ==> names_unique(entries(#[trigger] entries(fs.root)[i]))
    &&& (user_files(fs) matches Some(cs) ==> names_unique(cs))
}

/// `n` is a directory named `name` with no content.
pub open spec fn is_dir_named(n: FileNode, name: Seq<char>) -> bool {
    n.name@ == name && n.node_type == NodeType::Dir && n.content is None && n.children is Some
}

/// `n` is a regular file named `name` holding `content`.
pub open spec fn is_file_named(n: FileNode, name: Seq<char>, content: Option<Seq<char>>) -> bool {
    &&& n.name@ == name
    &&& n.node_type == NodeType::File
    &&& n.children is None
    &&& match content {
        Some(c) => n.content is Some && n.content->0@ == c,
        None => n.content is None,
    }
}

/// Lists whose names agree position by position are equally free of
/// repeated names.
pub proof fn lemma_names_unique_same(a: Seq<FileNode>, b: Seq<FileNode>)
    requires
        a.len() == b.len(),
        forall|j: int| 0 <= j < a.len() ==> a[j].name@ == b[j].name@,
        names_unique(a),
    ensures
        names_unique(b),
{
    assert forall|i: int, j: int| 0 <= i < j < b.len() implies #[trigger] b[i].name@
        != #[trigger] b[j].name@ by {
        assert(a[i].name@ == b[i].name@ && a[j].name@ == b[j].name@);
    }
}

/// First index at or after `i` of a child named `name`.
pub open spec fn find_name(cs: Seq<FileNode>, name: Seq<char>, i: int) -> Option<int>
    decreases cs.len() - i,
{
    if i < 0 || i >= cs.len() {
        None
    } else if cs[i].name@ == name {
        Some(i)
    } else {
        find_name(cs, name, i + 1)
    }
}

pub proof fn lemma_find_name(cs: Seq<FileNode>, name: Seq<char>, i: int)
    requires
        0 <= i,
    ensures
        match find_name(cs, name, i) {
            Some(k) => i <= k < cs.len() && cs[k].name@ == name,
            None => forall|j: int| i <= j < cs.len() ==> cs[j].name@ != name,
        },
    decreases cs.len() - i,
{
    if i < cs.len() && cs[i].name@ != name {
        lemma_find_name(cs, name, i + 1);
    }
}

/// Where `/home/user` is: the index of `home` among the root's children and
/// of `user` among home's, where both exist as directories with children.
pub open spec fn user_path(fs: MockFileSystem) -> Option<(int, int)> {
    let rc = entries(fs.root);
    match find_name(rc, "home"@, 0) {
        Some(hi) => match find_name(entries(rc[hi]), "user"@, 0) {
            Some(ui) => if entries(rc[hi])[ui].children is Some {
                Some((hi, ui))
            } else {
                None
            },
            None => None,
        },
        None => None,
    }
}

pub proof fn lemma_user_path_bounds(fs: MockFileSystem)
    ensures
        user_path(fs) matches Some((hi, ui)) ==> {
            &&& fs.root.children is Some
            &&& 0 <= hi < entries(fs.root).len()
            &&& entries(fs.root)[hi].children is Some
            &&& 0 <= ui < entries(entries(fs.root)[hi]).len()
            &&& user_node(fs).children is Some
        },
{
    lemma_find_name(entries(fs.root), "home"@, 0);
    if let Some(hi) = find_name(entries(fs.root), "home"@, 0) {
        lemma_find_name(entries(entries(fs.root)[hi]), "user"@, 0);
    }
}

/// The user directory's node.
pub open spec fn user_node(fs: MockFileSystem) -> FileNode
    recommends
        user_path(fs) is Some,
{
    let (hi, ui) = user_path(fs)->0;
    entries(entries(fs.root)[hi])[ui]
}

/// The user directory's files, where it exists.
pub open spec fn user_files(fs: MockFileSystem) -> Option<Seq<FileNode>> {
    match user_path(fs) {
        Some(_) => Some(entries(user_node(fs))),
        None => None,
    }
}

/// `n` is an empty regular file named `name`.
pub open spec fn is_empty_file(n: FileNode, name: Seq<char>) -> bool {
    &&& n.name@ == name
    &&& n.node_type == NodeType::File
    &&& n.content is Some
    &&& n.content->0@ == Seq::<char>::empty()
    &&& n.children is None
}

/// `after` is `before` with an empty file `name`: in place of the child of
/// that name where there is one, else appended.
pub open spec fn file_upserted(before: Seq<FileNode>, after: Seq<FileNode>, name: Seq<char>) -> bool {
    match find_name(before, name, 0) {
        Some(k) => {
            &&& after.len() == before.len()
            &&& forall|j: int| 0 <= j < before.len() && j != k ==> after[j] == before[j]
            &&& is_empty_file(after[k], name)
        },
        None => {
            &&& after.len() == before.len() + 1
            &&& forall|j: int| 0 <= j < before.len() ==> after[j] == before[j]
            &&& is_empty_file(after[before.len() as int], name)
        },
    }
}

/// Same name, kind and content.
pub open spec fn same_header(a: FileNode, b: FileNode) -> bool {
    a.name == b.name && a.node_type == b.node_type && a.content == b.content
}

/// Everything outside the user directory's list of files is as it was.
pub open spec fn same_outside_user_dir(before: MockFileSystem, after: MockFileSystem, hi: int, ui: int) -> bool {
    let rb = entries(before.root);
    let ra = entries(after.root);
    let hb = entries(rb[hi]);
    let ha = entries(ra[hi]);
    &&& same_header(after.root, before.root)
    &&& after.root.children is Some
    &&& ra.len() == rb.len()
    &&& forall|j: int| 0 <= j < rb.len() && j != hi ==> ra[j] == rb[j]
    &&& same_header(ra[hi], rb[hi])
    &&& ra[hi].children is Some
    &&& ha.len() == hb.len()
    &&& forall|j: int| 0 <= j < hb.len() && j != ui ==> ha[j] == hb[j]
    &&& same_header(ha[ui], hb[ui])
}

fn dir(name: &str, children: Vec<FileNode>) -> (r: FileNode)
    ensures
        r.name@ == name@,
        r.node_type == NodeType::Dir,
        r.content is None,
        r.children == Some(children),
{
    FileNode { name: name.to_string(), node_type: NodeType::Dir, content: None, children: Some(children) }
}

fn file(name: &str, content: Option<&str>) -> (r: FileNode)
    ensures
        r.name@ == name@,
        r.node_type == NodeType::File,
        r.children is None,
        match content {
            Some(c) => r.content is Some && r.content->0@ == c@,
            None => r.content is None,
        },
{
    let content = match content {
        Some(c) => Some(c.to_string()),
        None => None,
    };
    FileNode { name: name.to_string(), node_type: NodeType::File, content, children: None }
}

/// Index of the child named `name`.
fn find_child(cs: &Vec<FileNode>, name: &str) -> (r: Option<usize>)
    ensures
        match r {
            Some(k) => find_name(cs@, name@, 0) == Some(k as int) && k < cs@.len(),
            None => find_name(cs@, name@, 0) is None,
        },
{
    proof {
        lemma_find_name(cs@, name@, 0);
    }
    let key = name.to_string();
    let mut i: usize = 0;
    while i < cs.len()
        invariant
            i <= cs@.len(),
            key@ == name@,
            find_name(cs@, name@, 0) == find_name(cs@, name@, i as int),
        decreases cs@.len() - i,
    {
        if cs[i].name == key {
            return Some(i);
        }
        i = i + 1;
    }
    None
}

impl MockFileSystem {
    /// The starting tree: `/home/user` with `README.txt` and `secret.c`, and
    /// `/bin` with `ls` and `sh`.
    pub fn new() -> (r: MockFileSystem)
        ensures
            fs_wf(r),
            is_dir_named(r.root, "root"@),
            entries(r.root).len() == 2,
            is_dir_named(entries(r.root)[0], "home"@),
            is_dir_named(entries(r.root)[1], "bin"@),
            entries(entries(r.root)[0]).len() == 1,
            is_dir_named(entries(entries(r.root)[0])[0], "user"@),
            entries(entries(r.root)[1]).len() == 2,
            is_file_named(entries(entries(r.root)[1])[0], "ls"@, None),
            is_file_named(entries(entries(r.root)[1])[1], "sh"@, None),
            user_files(r) is Some,
            user_files(r)->0.len() == 2,
            is_file_named(user_files(r)->0[0], "README.txt"@, Some("Welcome to SysCore!"@)),
            is_file_named(user_files(r)->0[1], "secret.c"@, Some("void main() { ... }"@)),
    {
        let mut user_children: Vec<FileNode> = Vec::new();
        user_children.push(file("README.txt", Some("Welcome to SysCore!")));
        user_children.push(file("secret.c", Some("void main() { ... }")));
        let mut home_children: Vec<FileNode> = Vec::new();
        home_children.push(dir("user", user_children));
        let mut bin_children: Vec<FileNode> = Vec::new();
        bin_children.push(file("ls", None));
        bin_children.push(file("sh", None));
        let mut root_children: Vec<FileNode> = Vec::new();
        root_children.push(dir("home", home_children));
        root_children.push(dir("bin", bin_children));
        let r = MockFileSystem { root: dir("root", root_children) };
        proof {
            reveal_strlit("home");
            reveal_strlit("bin");
            reveal_strlit("user");
            let rc = entries(r.root);
            assert(find_name(rc, "home"@, 0) == Some(0int));
            assert(find_name(entries(rc[0]), "user"@, 0) == Some(0int));
            reveal_strlit("ls");
            reveal_strlit("sh");
            reveal_strlit("README.txt");
            reveal_strlit("secret.c");
            assert("home"@.len() != "bin"@.len());
            assert("ls"@ != "sh"@) by {
                assert("ls"@[0] != "sh"@[0]);
            }
            assert("README.txt"@.len() != "secret.c"@.len());
            let hc = entries(rc[0]);
            assert(names_unique(hc));
            assert(names_unique(entries(rc[1])));
            assert(names_unique(user_files(r)->0));
            assert forall|i: int| 0 <= i < rc.len() implies names_unique(entries(#[trigger] rc[i])) by {
                assert(i == 0 || i == 1);
            }
        }
        r
    }

    /// Where `/home/user` is, if it exists.
    fn locate_user(&self) -> (r: Option<(usize, usize)>)
        ensures
            match r {
                Some((hi, ui)) => user_path(*self) == Some((hi as int, ui as int)),
                None => user_path(*self) is None,
            },
    {
        match &self.root.children {
            Some(rc) => match find_child(rc, "home") {
                Some(hi) => match &rc[hi].children {
                    Some(hc) => match find_child(hc, "user") {
                        Some(ui) => {
                            proof {
                                lemma_find_name(hc@, "user"@, 0);
                            }
                            if hc[ui].children.is_some() {
                                Some((hi, ui))
                            } else {
                                None
                            }
                        },
                        None => None,
                    },
                    None => {
                        assert(entries(rc@[hi as int]) =~= Seq::<FileNode>::empty());
                        None
                    },
                },
                None => None,
            },
            None => {
                assert(entries(self.root) =~= Seq::<FileNode>::empty());
                None
            },
        }
    }

    /// The names of the files in `/home/user`, in order; none where the
    /// directory does not exist.
    pub fn list_files(&self) -> (r: Vec<String>)
        ensures
            r@.map_values(|s: String| s@) == (match user_files(*self) {
                Some(cs) => names_of(cs),
                None => Seq::empty(),
            }),
            fs_wf(*self) ==> r@.map_values(|s: String| s@).no_duplicates(),
    {
        let mut out: Vec<String> = Vec::new();
        match self.locate_user() {
            Some((hi, ui)) => {
                proof {
                    lemma_user_path_bounds(*self);
                }
                match &self.root.children {
                    Some(rc) => match &rc[hi].children {
                        Some(hc) => match &hc[ui].children {
                            Some(uc) => {
                                let mut i: usize = 0;
                                while i < uc.len()
                                    invariant
                                        i <= uc@.len(),
                                        user_files(*self) == Some(uc@),
                                        out@.map_values(|s: String| s@) == names_of(
                                            uc@.subrange(0, i as int),
                                        ),
                                    decreases uc@.len() - i,
                                {
                                    assert(uc@.subrange(0, i as int + 1) =~= uc@.subrange(0, i as int).push(
                                        uc@[i as int],
                                    ));
                                    let ghost prev = out@;
                                    let nm = uc[i].name.clone();
                                    out.push(nm);
                                    assert(out@.map_values(|s: String| s@) =~= prev.map_values(
                                        |s: String| s@,
                                    ).push(nm@));
                                    assert(names_of(uc@.subrange(0, i as int + 1)) =~= names_of(
                                        uc@.subrange(0, i as int),
                                    ).push(uc@[i as int].name@));
                                    assert(out@.map_values(|s: String| s@) =~= names_of(
                                        uc@.subrange(0, i as int + 1),
                                    ));
                                    i = i + 1;
                                }
                                assert(uc@.subrange(0, uc@.len() as int) =~= uc@);
                            },
                            None => {},
                        },
                        None => {},
                    },
                    None => {},
                }
            },
            None => {
                assert(out@.map_values(|s: String| s@) =~= Seq::<Seq<char>>::empty());
            },
        }
        proof {
            if fs_wf(*self) {
                if let Some(cs) = user_files(*self) {
                    let ns = out@.map_values(|s: String| s@);
                    assert forall|i: int, j: int| 0 <= i < ns.len() && 0 <= j < ns.len() && i != j
                        implies ns[i] != ns[j] by {
                        if i < j {
                            assert(cs[i].name@ != cs[j].name@);
                        } else {
                            assert(cs[j].name@ != cs[i].name@);
                        }
                    }
                }
            }
        }
        out
    }

    /// Puts an empty file `name` in `/home/user`, replacing any child of that
    /// name; does nothing where the directory does not exist.
    pub fn create_file(&mut self, name: String)
        ensures
            user_path(*old(self)) is None ==> *final(self) == *old(self),
            fs_wf(*old(self)) ==> fs_wf(*final(self)),
            user_path(*old(self)) matches Some((hi, ui)) ==> {
                &&& user_path(*final(self)) == user_path(*old(self))
                &&& same_outside_user_dir(*old(self), *final(self), hi, ui)
                &&& file_upserted(user_files(*old(self))->0, user_files(*final(self))->0, name@)
            },
    {
        let (hi, ui) = match self.locate_user() {
            Some(p) => p,
            None => return,
        };
        let ghost before = *self;
        proof {
            lemma_user_path_bounds(*self);
        }
        let mut rc = match self.root.children.take() {
            Some(rc) => rc,
            None => return,
        };
        let mut home = rc.remove(hi);
        let mut hc = match home.children.take() {
            Some(hc) => hc,
            None => return,
        };
        let mut user = hc.remove(ui);
        let mut uc = match user.children.take() {
            Some(uc) => uc,
            None => return,
        };
        let ghost old_uc = uc@;
        let node = FileNode {
            name: name.clone(),
            node_type: NodeType::File,
            content: Some(String::new()),
            children: None,
        };
        match find_child(&uc, name.as_str()) {
            Some(k) => {
                proof {
                    lemma_find_name(uc@, name@, 0);
                }
                uc.set(k, node);
            },
            None => {
                uc.push(node);
            },
        }
        assert(file_upserted(old_uc, uc@, name@));
        user.children = Some(uc);
        hc.insert(ui, user);
        home.children = Some(hc);
        rc.insert(hi, home);
        self.root.children = Some(rc);
        proof {
            let rb = entries(before.root);
            let ra = entries(self.root);
            lemma_find_name(rb, "home"@, 0);
            lemma_find_name(ra, "home"@, 0);
            assert(find_name(ra, "home"@, 0) == find_name(rb, "home"@, 0)) by {
                assert forall|j: int| 0 <= j < ra.len() implies (ra[j].name@ == "home"@) == (
                rb[j].name@ == "home"@) by {
                    if j != hi {
                        assert(ra[j] == rb[j]);
                    }
                }
                lemma_find_name_same(ra, rb, "home"@, 0);
            }
            let hb = entries(rb[hi as int]);
            let ha = entries(ra[hi as int]);
            assert(find_name(ha, "user"@, 0) == find_name(hb, "user"@, 0)) by {
                assert forall|j: int| 0 <= j < ha.len() implies (ha[j].name@ == "user"@) == (
                hb[j].name@ == "user"@) by {
                    if j != ui {
                        assert(ha[j] == hb[j]);
                    }
                }
                lemma_find_name_same(ha, hb, "user"@, 0);
            }
            if fs_wf(before) {
                assert forall|j: int| 0 <= j < rb.len() implies rb[j].name@ == ra[j].name@ by {
                    if j != hi {
                        assert(ra[j] == rb[j]);
                    }
                }
                lemma_names_unique_same(rb, ra);
                assert forall|j: int| 0 <= j < hb.len() implies hb[j].name@ == ha[j].name@ by {
                    if j != ui {
                        assert(ha[j] == hb[j]);
                    }
                }
                assert(names_unique(entries(rb[hi as int])));
                lemma_names_unique_same(hb, ha);
                assert forall|i: int| 0 <= i < ra.len() implies names_unique(
                    entries(#[trigger] ra[i]),
                ) by {
                    if i != hi {
                        assert(ra[i] == rb[i]);
                        assert(names_unique(entries(rb[i])));
                    }
                }
                let nu = user_files(*self)->0;
                assert(names_unique(old_uc));
                lemma_find_name(old_uc, name@, 0);
                match find_name(old_uc, name@, 0) {
                    Some(k) => {
                        assert forall|j: int| 0 <= j < old_uc.len() implies old_uc[j].name@
                            == nu[j].name@ by {
                            if j != k {
                                assert(nu[j] == old_uc[j]);
                            }
                        }
                        lemma_names_unique_same(old_uc, nu);
                    },
                    None => {
                        assert forall|i: int, j: int| 0 <= i < j < nu.len() implies #[trigger] nu[i].name@
                            != #[trigger] nu[j].name@ by {
                            if j < old_uc.len() {
                                assert(nu[i] == old_uc[i] && nu[j] == old_uc[j]);
                            } else {
                                assert(nu[i] == old_uc[i]);
                            }
                        }
                    },
                }
            }
        }
    }
}

/// Two lists whose names agree position by position find a name at the
/// same place.
pub proof fn lemma_find_name_same(a: Seq<FileNode>, b: Seq<FileNode>, name: Seq<char>, i: int)
    requires
        a.len() == b.len(),
        forall|j: int| 0 <= j < a.len() ==> (a[j].name@ == name) == (b[j].name@ == name),
    ensures
        find_name(a, name, i) == find_name(b, name, i),
    decreases a.len() - i,
{
    if 0 <= i < a.len() {
        lemma_find_name_same(a, b, name, i + 1);
    }
}

} // verus!
