//! The upload tree.
//!
//! Uploaded media live in a directory tree: each directory holds files
//! and child directories, each file remembers the name it is stored
//! under on disk.  The bookkeeping here validates paths, walks and grows
//! the tree, and adds and removes entries; reading and writing the bytes
//! on disk, and the store behind the tree, stay outside.

use vstd::prelude::*;

use vstd::string::StrSliceExecFns;

use crate::strutil;

verus! {

/// One uploaded file: its display name, the name it is stored under on
/// disk, its full path, size and upload date.
pub struct File {
    pub name: String,
    /// Actual filename on disk.
    pub file_server: String,
    /// File path through the built file tree.
    pub path: String,
    pub size: usize,
    pub date: String,
}

/// A directory of files and child directories.
pub struct Directory {
    pub name: String,
    pub path: String,
    pub files: Vec<File>,
    pub children: Vec<Directory>,
}

/// A flat listing entry: a path, a size, a date and whether it names a
/// directory or a file.
pub struct ListViewItem {
    pub id: String,
    pub size: usize,
    pub date: String,
    pub directory: bool,
}

/// The whole tree flattened to listing entries.
pub struct ListView {
    pub entries: Vec<ListViewItem>,
}

/// The tree as nested names: `children` is present exactly for a
/// directory.
pub struct TreeView {
    pub content: String,
    pub children: Option<Vec<TreeView>>,
}

/// Paths of files and directories to delete; a path ending in `/` names
/// a directory.
pub struct DeleteFilesRequest {
    pub ids: Vec<String>,
}

/// A word character of the path grammar: a letter, digit or underscore.
pub open spec fn is_word_char(c: char) -> bool {
    ('a' <= c && c <= 'z') || ('A' <= c && c <= 'Z') || ('0' <= c && c <= '9') || c == '_'
}

/// A character a file path may hold after the leading slash.
pub open spec fn is_file_path_char(c: char) -> bool {
    is_word_char(c) || c == '/' || c == '-' || c == '.' || c == ' '
}

/// A character a directory path may hold after the leading slash.
pub open spec fn is_dir_path_char(c: char) -> bool {
    is_word_char(c) || c == '/' || c == '-' || c == ' '
}

/// A legal file path: a leading slash, then path characters, ending in a
/// word character.
pub open spec fn valid_file_path(s: Seq<char>) -> bool {
    s.len() >= 3 && s[0] == '/' && (forall|i: int|
        1 <= i < s.len() ==> is_file_path_char(#[trigger] s[i])) && is_word_char(s.last())
}

/// A legal directory path: as a file path, but without dots.
pub open spec fn valid_dir_path(s: Seq<char>) -> bool {
    s.len() >= 3 && s[0] == '/' && (forall|i: int|
        1 <= i < s.len() ==> is_dir_path_char(#[trigger] s[i])) && is_word_char(s.last())
}

fn word_char(c: char) -> (r: bool)
    ensures
        r == is_word_char(c),
{
    ('a' <= c && c <= 'z') || ('A' <= c && c <= 'Z') || ('0' <= c && c <= '9') || c == '_'
}

/// Check a file path against the path grammar.
pub fn check_file_path(s: &str) -> (r: bool)
    ensures
        r == valid_file_path(s@),
{
    let n = s.unicode_len();
    if n < 3 {
        return false;
    }
    if s.get_char(0) != '/' {
        return false;
    }
    if !word_char(s.get_char(n - 1)) {
        return false;
    }
    let mut i: usize = 1;
    while i < n
        invariant
            n == s@.len(),
            1 <= i <= n,
            forall|j: int| 1 <= j < i ==> is_file_path_char(#[trigger] s@[j]),
        decreases n - i,
    {
        let c = s.get_char(i);
        if !(word_char(c) || c == '/' || c == '-' || c == '.' || c == ' ') {
            return false;
        }
        i = i + 1;
    }
    true
}

/// Check a directory path against the path grammar.
pub fn check_dir_path(s: &str) -> (r: bool)
    ensures
        r == valid_dir_path(s@),
{
    let n = s.unicode_len();
    if n < 3 {
        return false;
    }
    if s.get_char(0) != '/' {
        return false;
    }
    if !word_char(s.get_char(n - 1)) {
        return false;
    }
    let mut i: usize = 1;
    while i < n
        invariant
            n == s@.len(),
            1 <= i <= n,
            forall|j: int| 1 <= j < i ==> is_dir_path_char(#[trigger] s@[j]),
        decreases n - i,
    {
        let c = s.get_char(i);
        if !(word_char(c) || c == '/' || c == '-' || c == ' ') {
            return false;
        }
        i = i + 1;
    }
    true
}

/// The split so far: finished segments, and the segment still being
/// collected.
pub open spec fn spec_split_state(s: Seq<char>) -> (Seq<Seq<char>>, Seq<char>)
    decreases s.len(),
{
    if s.len() == 0 {
        (Seq::<Seq<char>>::empty(), Seq::<char>::empty())
    } else {
        let st = spec_split_state(s.drop_last());
        if s.last() == '/' {
            if st.1.len() > 0 {
                (st.0.push(st.1), Seq::<char>::empty())
            } else {
                st
            }
        } else {
            (st.0, st.1.push(s.last()))
        }
    }
}

/// The non-empty segments of the path, split on slashes.
pub open spec fn spec_split(s: Seq<char>) -> Seq<Seq<char>> {
    let st = spec_split_state(s);
    if st.1.len() > 0 {
        st.0.push(st.1)
    } else {
        st.0
    }
}

/// A path ending in something other than a slash splits into at least
/// one segment, whose last one ends in that character.
pub proof fn lemma_split_last(s: Seq<char>)
    requires
        s.len() > 0,
        s.last() != '/',
    ensures
        spec_split(s).len() > 0,
{
}

/// The non-empty segments of a path, split on slashes.
pub fn split_path(s: &str) -> (r: Vec<String>)
    ensures
        r@.map_values(|x: String| x@) == spec_split(s@),
{
    let n = s.unicode_len();
    let mut r: Vec<String> = Vec::new();
    let mut cur = String::new();
    let mut i: usize = 0;
    while i < n
        invariant
            n == s@.len(),
            i <= n,
            r@.map_values(|x: String| x@) == spec_split_state(s@.take(i as int)).0,
            cur@ == spec_split_state(s@.take(i as int)).1,
        decreases n - i,
    {
        let c = s.get_char(i);
        let ghost pre = r@.map_values(|x: String| x@);
        if c == '/' {
            if cur.as_str().unicode_len() > 0 {
                r.push(cur);
                cur = String::new();
                proof {
                    assert(r@.map_values(|x: String| x@) =~= pre.push(
                        spec_split_state(s@.take(i as int)).1,
                    ));
                }
            }
        } else {
            strutil::push_char(&mut cur, c);
        }
        proof {
            assert(s@.take(i + 1).drop_last() =~= s@.take(i as int));
            assert(s@.take(i + 1).last() == c);
        }
        i = i + 1;
    }
    proof {
        assert(s@.take(n as int) =~= s@);
    }
    if cur.as_str().unicode_len() > 0 {
        r.push(cur);
        proof {
            assert(r@.map_values(|x: String| x@) =~= spec_split(s@));
        }
    }
    r
}

/// First-match lookup of a file by name.
pub open spec fn spec_find_file(files: Seq<File>, name: Seq<char>) -> Option<File>
    decreases files.len(),
{
    if files.len() == 0 {
        None::<File>
    } else if files[0].name@ == name {
        Some(files[0])
    } else {
        spec_find_file(files.drop_first(), name)
    }
}

/// First-match lookup of a child directory by name.
pub open spec fn spec_find_child(children: Seq<Directory>, name: Seq<char>) -> Option<Directory>
    decreases children.len(),
{
    if children.len() == 0 {
        None::<Directory>
    } else if children[0].name@ == name {
        Some(children[0])
    } else {
        spec_find_child(children.drop_first(), name)
    }
}

/// Walk the tree along the segments from position `k` on.
pub open spec fn spec_traverse(d: Directory, path: Seq<Seq<char>>, k: int) -> Option<Directory>
    decreases path.len() - k,
{
    if k >= path.len() {
        Some(d)
    } else {
        match spec_find_child(d.children@, path[k]) {
            None => None,
            Some(c) => spec_traverse(c, path, k + 1),
        }
    }
}

fn find_file_index(files: &Vec<File>, name: &String) -> (r: Option<usize>)
    ensures
        match r {
            Some(i) => i < files@.len() && files@[i as int].name@ == name@ && (forall|j: int|
                0 <= j < i ==> files@[j].name@ != name@) && spec_find_file(files@, name@) == Some(
                files@[i as int],
            ),
            None => spec_find_file(files@, name@) is None,
        },
{
    let mut i: usize = 0;
    while i < files.len()
        invariant
            i <= files@.len(),
            forall|j: int| 0 <= j < i ==> files@[j].name@ != name@,
        decreases files@.len() - i,
    {
        if files[i].name == *name {
            proof {
                lemma_find_file_at(files@, name@, i as int);
            }
            return Some(i);
        }
        i = i + 1;
    }
    proof {
        lemma_find_file_none(files@, name@);
    }
    None
}

proof fn lemma_find_file_at(files: Seq<File>, name: Seq<char>, i: int)
    requires
        0 <= i < files.len(),
        files[i].name@ == name,
        forall|j: int| 0 <= j < i ==> files[j].name@ != name,
    ensures
        spec_find_file(files, name) == Some(files[i]),
    decreases i,
{
    if i > 0 {
        assert(forall|j: int|
            0 <= j < files.drop_first().len() ==> #[trigger] files.drop_first()[j] == files[j + 1]);
        lemma_find_file_at(files.drop_first(), name, i - 1);
    }
}

proof fn lemma_find_file_none(files: Seq<File>, name: Seq<char>)
    requires
        forall|j: int| 0 <= j < files.len() ==> files[j].name@ != name,
    ensures
        spec_find_file(files, name) is None,
    decreases files.len(),
{
    if files.len() > 0 {
        assert(forall|j: int|
            0 <= j < files.drop_first().len() ==> #[trigger] files.drop_first()[j] == files[j + 1]);
        lemma_find_file_none(files.drop_first(), name);
    }
}

fn find_child_index(children: &Vec<Directory>, name: &String) -> (r: Option<usize>)
    ensures
        match r {
            Some(i) => i < children@.len() && children@[i as int].name@ == name@ && (forall|
                j: int,
            | 0 <= j < i ==> children@[j].name@ != name@) && spec_find_child(children@, name@)
                == Some(children@[i as int]),
            None => spec_find_child(children@, name@) is None,
        },
{
    let mut i: usize = 0;
    while i < children.len()
        invariant
            i <= children@.len(),
            forall|j: int| 0 <= j < i ==> children@[j].name@ != name@,
        decreases children@.len() - i,
    {
        if children[i].name == *name {
            proof {
                lemma_find_child_at(children@, name@, i as int);
            }
            return Some(i);
        }
        i = i + 1;
    }
    proof {
        lemma_find_child_none(children@, name@);
    }
    None
}

proof fn lemma_find_child_at(children: Seq<Directory>, name: Seq<char>, i: int)
    requires
        0 <= i < children.len(),
        children[i].name@ == name,
        forall|j: int| 0 <= j < i ==> children[j].name@ != name,
    ensures
        spec_find_child(children, name) == Some(children[i]),
    decreases i,
{
    if i > 0 {
        assert(forall|j: int|
            0 <= j < children.drop_first().len() ==> #[trigger] children.drop_first()[j]
                == children[j + 1]);
        lemma_find_child_at(children.drop_first(), name, i - 1);
    }
}

proof fn lemma_find_child_none(children: Seq<Directory>, name: Seq<char>)
    requires
        forall|j: int| 0 <= j < children.len() ==> children[j].name@ != name,
    ensures
        spec_find_child(children, name) is None,
    decreases children.len(),
{
    if children.len() > 0 {
        assert(forall|j: int|
            0 <= j < children.drop_first().len() ==> #[trigger] children.drop_first()[j]
                == children[j + 1]);
        lemma_find_child_none(children.drop_first(), name);
    }
}

/// A missed child lookup means no child bears the name.
proof fn lemma_find_child_none_names(children: Seq<Directory>, name: Seq<char>)
    requires
        spec_find_child(children, name) is None,
    ensures
        forall|j: int| 0 <= j < children.len() ==> children[j].name@ != name,
    decreases children.len(),
{
    if children.len() > 0 {
        assert(forall|j: int|
            0 <= j < children.drop_first().len() ==> #[trigger] children.drop_first()[j]
                == children[j + 1]);
        lemma_find_child_none_names(children.drop_first(), name);
        assert forall|j: int| 0 <= j < children.len() implies children[j].name@ != name by {
            if j > 0 {
                assert(children.drop_first()[j - 1] == children[j]);
            }
        }
    }
}

impl Directory {
    /// A fresh root directory.
    pub fn new_root() -> (r: Directory)
        ensures
            r.files@.len() == 0,
            r.children@.len() == 0,
            r.path@ == "/"@,
    {
        Directory {
            name: String::new(),
            path: "/".to_owned(),
            files: Vec::new(),
            children: Vec::new(),
        }
    }

    /// Walk to the directory the segments name, from position `k`.
    pub fn traverse_to_dir(&self, path: &Vec<String>, k: usize) -> (r: Option<&Directory>)
        requires
            k <= path@.len(),
        ensures
            match r {
                Some(d) => spec_traverse(*self, path@.map_values(|s: String| s@), k as int)
                    == Some(*d),
                None => spec_traverse(*self, path@.map_values(|s: String| s@), k as int) is None,
            },
        decreases path@.len() - k,
    {
        if k == path.len() {
            return Some(self);
        }
        match find_child_index(&self.children, &path[k]) {
            None => {
                proof {
                    assert(path@.map_values(|s: String| s@)[k as int] == path@[k as int]@);
                }
                None
            },
            Some(i) => {
                proof {
                    assert(path@.map_values(|s: String| s@)[k as int] == path@[k as int]@);
                }
                self.children[i].traverse_to_dir(path, k + 1)
            },
        }
    }
}

/// A file lookup along the whole segment path: the last segment names
/// the file, the ones before it the directories.
pub open spec fn spec_get_file(d: Directory, segs: Seq<Seq<char>>, k: int) -> Option<File>
    decreases segs.len() - k,
{
    if k >= segs.len() {
        None::<File>
    } else if k == segs.len() - 1 {
        spec_find_file(d.files@, segs[k])
    } else {
        match spec_find_child(d.children@, segs[k]) {
            None => None,
            Some(c) => spec_get_file(c, segs, k + 1),
        }
    }
}

fn add_file_rec(d: &mut Directory, path: &Vec<String>, k: usize, file: File) -> (r: Result<
    (),
    String,
>)
    requires
        k < path@.len(),
        file.name@ == path@[path@.len() - 1]@,
    ensures
        final(d).name == old(d).name,
        r is Ok <==> spec_get_file(*old(d), path@.map_values(|s: String| s@), k as int) is None,
        r is Ok ==> spec_get_file(*final(d), path@.map_values(|s: String| s@), k as int) == Some(
            file,
        ),
    decreases path@.len() - k,
{
    let ghost segs = path@.map_values(|s: String| s@);
    proof {
        assert(segs[k as int] == path@[k as int]@);
    }
    if k == path.len() - 1 {
        match find_file_index(&d.files, &path[k]) {
            Some(_) => Err("File already exists".to_owned()),
            None => {
                let ghost oldfiles = d.files@;
                d.files.push(file);
                proof {
                    lemma_find_file_push(oldfiles, d.files@[d.files@.len() - 1], segs[k as int]);
                }
                Ok(())
            },
        }
    } else {
        let i: usize = match find_child_index(&d.children, &path[k]) {
            Some(i) => i,
            None => {
                let fresh = Directory {
                    name: path[k].clone(),
                    path: String::new(),
                    files: Vec::new(),
                    children: Vec::new(),
                };
                let ghost oldc = d.children@;
                d.children.push(fresh);
                let n = d.children.len() - 1;
                proof {
                    lemma_find_child_none_names(oldc, segs[k as int]);
                    lemma_find_child_push_absent(
                        oldc,
                        d.children@[d.children@.len() - 1],
                        segs[k as int],
                    );
                    assert(spec_get_file(*old(d), segs, k as int) is None);
                }
                n
            },
        };
        let ghost pre = *d;
        let res = add_file_rec(&mut d.children[i], path, k + 1, file);
        proof {
            lemma_find_child_update(pre.children@, i as int, d.children@[i as int], segs[k as int]);
        }
        res
    }
}

/// Finding a pushed file by its name when it was absent.
proof fn lemma_find_file_push(files: Seq<File>, f: File, name: Seq<char>)
    requires
        spec_find_file(files, name) is None,
        f.name@ == name,
    ensures
        spec_find_file(files.push(f), name) == Some(f),
    decreases files.len(),
{
    if files.len() == 0 {
        assert(files.push(f)[0] == f);
    } else {
        assert(files.push(f)[0] == files[0]);
        assert(files.push(f).drop_first() =~= files.drop_first().push(f));
        lemma_find_file_push(files.drop_first(), f, name);
    }
}

/// Finding a pushed child by its name when it was absent.
proof fn lemma_find_child_push_absent(children: Seq<Directory>, c: Directory, name: Seq<char>)
    requires
        spec_find_child(children, name) is None,
        c.name@ == name,
    ensures
        spec_find_child(children.push(c), name) == Some(c),
    decreases children.len(),
{
    if children.len() == 0 {
        assert(children.push(c)[0] == c);
    } else {
        assert(children.push(c)[0] == children[0]);
        assert(children.push(c).drop_first() =~= children.drop_first().push(c));
        lemma_find_child_push_absent(children.drop_first(), c, name);
    }
}

/// Replacing the first child of a name with a directory of the same name
/// moves the name's lookup to the replacement.
proof fn lemma_find_child_update(children: Seq<Directory>, i: int, c: Directory, name: Seq<char>)
    requires
        0 <= i < children.len(),
        children[i].name@ == name,
        forall|j: int| 0 <= j < i ==> children[j].name@ != name,
        c.name@ == name,
    ensures
        spec_find_child(children.update(i, c), name) == Some(c),
    decreases i,
{
    let t = children.update(i, c);
    if i == 0 {
        assert(t[0] == c);
    } else {
        assert(t[0] == children[0]);
        assert(t.drop_first() =~= children.drop_first().update(i - 1, c));
        assert(forall|j: int|
            0 <= j < children.drop_first().len() ==> #[trigger] children.drop_first()[j]
                == children[j + 1]);
        lemma_find_child_update(children.drop_first(), i - 1, c, name);
    }
}

fn delete_file_rec(d: &mut Directory, path: &Vec<String>, k: usize) -> (r: Result<File, String>)
    requires
        k < path@.len(),
    ensures
        final(d).name == old(d).name,
        r matches Ok(f) ==> spec_get_file(*old(d), path@.map_values(|s: String| s@), k as int)
            == Some(f),
        r is Err <==> spec_get_file(*old(d), path@.map_values(|s: String| s@), k as int) is None,
    decreases path@.len() - k,
{
    let ghost segs = path@.map_values(|s: String| s@);
    proof {
        assert(segs[k as int] == path@[k as int]@);
    }
    if k == path.len() - 1 {
        match find_file_index(&d.files, &path[k]) {
            Some(i) => {
                let f = d.files.remove(i);
                Ok(f)
            },
            None => Err("File does not exist".to_owned()),
        }
    } else {
        let i: usize = match find_child_index(&d.children, &path[k]) {
            Some(i) => i,
            None => {
                return Err("Directory does not exist".to_owned());
            },
        };
        let ghost pre = *d;
        let res = delete_file_rec(&mut d.children[i], path, k + 1);
        proof {
            lemma_find_child_update(pre.children@, i as int, d.children@[i as int], segs[k as int]);
        }
        res
    }
}

fn create_dirs_rec(d: &mut Directory, path: &Vec<String>, k: usize)
    requires
        k <= path@.len(),
    ensures
        final(d).name == old(d).name,
        spec_traverse(*final(d), path@.map_values(|s: String| s@), k as int) is Some,
    decreases path@.len() - k,
{
    let ghost segs = path@.map_values(|s: String| s@);
    if k == path.len() {
        return ;
    }
    proof {
        assert(segs[k as int] == path@[k as int]@);
    }
    let i: usize = match find_child_index(&d.children, &path[k]) {
        Some(i) => i,
        None => {
            let fresh = Directory {
                name: path[k].clone(),
                path: String::new(),
                files: Vec::new(),
                children: Vec::new(),
            };
            let ghost oldc = d.children@;
            d.children.push(fresh);
            let n = d.children.len() - 1;
            proof {
                lemma_find_child_none_names(oldc, segs[k as int]);
                lemma_find_child_push_absent(
                    oldc,
                    d.children@[d.children@.len() - 1],
                    segs[k as int],
                );
            }
            n
        },
    };
    let ghost pre = *d;
    create_dirs_rec(&mut d.children[i], path, k + 1);
    proof {
        lemma_find_child_update(pre.children@, i as int, d.children@[i as int], segs[k as int]);
    }
}

fn delete_dir_rec(d: &mut Directory, path: &Vec<String>, k: usize) -> (r: Result<
    Directory,
    String,
>)
    requires
        k < path@.len(),
    ensures
        r matches Ok(dir) ==> spec_traverse(*old(d), path@.map_values(|s: String| s@), k as int)
            == Some(dir),
        r is Err <==> spec_traverse(*old(d), path@.map_values(|s: String| s@), k as int) is None,
    decreases path@.len() - k,
{
    let ghost segs = path@.map_values(|s: String| s@);
    proof {
        assert(segs[k as int] == path@[k as int]@);
    }
    match find_child_index(&d.children, &path[k]) {
        None => Err("Directory does not exist".to_owned()),
        Some(i) => {
            let ghost pre = *d;
            if k == path.len() - 1 {
                let dir = d.children.remove(i);
                proof {
                    assert(spec_traverse(pre.children@[i as int], segs, k + 1) == Some(
                        pre.children@[i as int],
                    ));
                    assert(spec_traverse(pre, segs, k as int) == Some(dir));
                }
                Ok(dir)
            } else {
                let res = delete_dir_rec(&mut d.children[i], path, k + 1);
                proof {
                    assert(spec_traverse(pre, segs, k as int) == spec_traverse(
                        pre.children@[i as int],
                        segs,
                        k + 1,
                    ));
                }
                res
            }
        },
    }
}

fn get_file_rec(d: &Directory, path: &Vec<String>, k: usize) -> (r: Option<String>)
    requires
        k < path@.len(),
    ensures
        match r {
            Some(n) => spec_get_file(*d, path@.map_values(|s: String| s@), k as int) matches Some(
                f,
            ) && f.file_server@ == n@,
            None => spec_get_file(*d, path@.map_values(|s: String| s@), k as int) is None,
        },
    decreases path@.len() - k,
{
    let ghost segs = path@.map_values(|s: String| s@);
    proof {
        assert(segs[k as int] == path@[k as int]@);
    }
    if k == path.len() - 1 {
        match find_file_index(&d.files, &path[k]) {
            Some(i) => Some(d.files[i].file_server.clone()),
            None => None,
        }
    } else {
        match find_child_index(&d.children, &path[k]) {
            None => None,
            Some(i) => get_file_rec(&d.children[i], path, k + 1),
        }
    }
}

impl Directory {
    /// Append the subtree's listing entries: files of this directory,
    /// then each child directory followed by its own contents.
    fn list_into(&self, out: &mut Vec<ListViewItem>)
        ensures
            final(out)@.len() >= old(out)@.len(),
        decreases *self,
    {
        let mut i: usize = 0;
        while i < self.files.len()
            invariant
                out@.len() >= old(out)@.len(),
            decreases self.files@.len() - i,
        {
            let f = &self.files[i];
            out.push(
                ListViewItem {
                    id: f.path.clone(),
                    size: f.size,
                    date: f.date.clone(),
                    directory: false,
                },
            );
            i = i + 1;
        }
        let mut j: usize = 0;
        while j < self.children.len()
            invariant
                out@.len() >= old(out)@.len(),
            decreases self.children@.len() - j,
        {
            let c = &self.children[j];
            out.push(
                ListViewItem {
                    id: c.path.clone(),
                    size: 0,
                    date: "1996-12-19T16:39:57-08:00".to_owned(),
                    directory: true,
                },
            );
            c.list_into(out);
            j = j + 1;
        }
    }

    /// The subtree as nested names: files as leaves, then child
    /// directories.
    fn to_tree(&self) -> (r: TreeView)
        ensures
            r.content@ == self.name@,
            r.children is Some,
        decreases *self,
    {
        let mut kids: Vec<TreeView> = Vec::new();
        let mut j: usize = 0;
        while j < self.children.len()
            decreases self.children@.len() - j,
        {
            let t = self.children[j].to_tree();
            kids.push(t);
            j = j + 1;
        }
        let mut i: usize = 0;
        while i < self.files.len()
            decreases self.files@.len() - i,
        {
            kids.push(TreeView { content: self.files[i].name.clone(), children: None });
            i = i + 1;
        }
        TreeView { content: self.name.clone(), children: Some(kids) }
    }
}

/// The upload server's in-memory state: the root of the tree.
pub struct FileServer {
    pub root: Directory,
}

impl FileServer {
    /// A server over an empty tree.
    pub fn new_empty() -> (r: FileServer)
        ensures
            r.root.files@.len() == 0,
            r.root.children@.len() == 0,
    {
        FileServer { root: Directory::new_root() }
    }

    /// A server over a tree read back from the store.
    pub fn from_root(root: Directory) -> (r: FileServer)
        ensures
            r.root == root,
    {
        FileServer { root }
    }

    /// Add a file name to the directory tree, creating directories on the
    /// way.  Rejected when the path breaks the grammar or the file
    /// already exists; otherwise the stored entry (carrying the on-disk
    /// name and date given by the caller) is returned.
    pub fn add_file(&mut self, file_path: String, size: usize, disk_name: String, date: String) -> (
        r: Result<File, String>)
        ensures
            r is Ok <==> (valid_file_path(file_path@) && spec_get_file(
                old(self).root,
                spec_split(file_path@),
                0,
            ) is None),
            r matches Ok(f) ==> f.size == size && f.file_server@ == disk_name@ && f.date@ == date@
                && f.path@ == file_path@ && (spec_get_file(
                final(self).root,
                spec_split(file_path@),
                0,
            ) matches Some(g) && g.file_server@ == disk_name@ && g.size == size && g.path@
                == file_path@),
    {
        if !check_file_path(file_path.as_str()) {
            return Err(
                "Illegal file name. Must only contain '_-./' special characters, start with root ('/') and end with a letter.".to_owned(),
            );
        }
        proof {
            lemma_split_last(file_path@);
        }
        let mut segs = split_path(file_path.as_str());
        let ghost whole = segs@.map_values(|x: String| x@);
        let file_name = match segs.pop() {
            Some(n) => n,
            None => {
                proof {
                    assert(false);
                }
                return Err("Illegal file name.".to_owned());
            },
        };
        let file = File {
            name: file_name.clone(),
            file_server: disk_name,
            path: file_path,
            size,
            date,
        };
        let out = File {
            name: file_name.clone(),
            file_server: file.file_server.clone(),
            path: file.path.clone(),
            size,
            date: file.date.clone(),
        };
        segs.push(file_name);
        proof {
            assert(segs@.map_values(|x: String| x@) =~= whole);
        }
        match add_file_rec(&mut self.root, &segs, 0, file) {
            Ok(()) => Ok(out),
            Err(e) => Err(e),
        }
    }

    /// Delete a file from the tree, returning its entry (whose on-disk
    /// name the caller removes from disk).
    pub fn delete_file(&mut self, file_path: String) -> (r: Result<File, String>)
        ensures
            r matches Ok(f) ==> spec_get_file(old(self).root, spec_split(file_path@), 0) == Some(
                f,
            ),
            r is Err <==> spec_get_file(old(self).root, spec_split(file_path@), 0) is None,
    {
        let segs = split_path(file_path.as_str());
        if segs.len() == 0 {
            return Err("File does not exist".to_owned());
        }
        delete_file_rec(&mut self.root, &segs, 0)
    }

    /// Create the directories the path names, if they are not there yet.
    /// Rejected when the path breaks the directory grammar.
    pub fn add_dir(&mut self, dir_path: &String) -> (r: Result<(), String>)
        ensures
            r is Ok <==> valid_dir_path(dir_path@),
            r is Ok ==> spec_traverse(final(self).root, spec_split(dir_path@), 0) is Some,
    {
        if !check_dir_path(dir_path.as_str()) {
            return Err(
                "Illegal directory name. Must only contain '_-' special characters, start with root ('/') and end with a letter.".to_owned(),
            );
        }
        let segs = split_path(dir_path.as_str());
        create_dirs_rec(&mut self.root, &segs, 0);
        Ok(())
    }

    /// Remove the directory the path names, returning the removed
    /// subtree (whose files the caller removes from disk).  The root
    /// itself cannot be deleted.
    pub fn delete_dir(&mut self, dir_path: String) -> (r: Result<Directory, String>)
        ensures
            r matches Ok(dir) ==> spec_traverse(old(self).root, spec_split(dir_path@), 0) == Some(
                dir,
            ),
            r is Err <==> (spec_split(dir_path@).len() == 0 || spec_traverse(
                old(self).root,
                spec_split(dir_path@),
                0,
            ) is None),
    {
        let segs = split_path(dir_path.as_str());
        if segs.len() == 0 {
            return Err("Will not delete root folder".to_owned());
        }
        delete_dir_rec(&mut self.root, &segs, 0)
    }

    /// The whole tree flattened to listing entries.
    pub fn get_paths_list(&self) -> (r: ListView) {
        let mut entries: Vec<ListViewItem> = Vec::new();
        self.root.list_into(&mut entries);
        ListView { entries }
    }

    /// The whole tree as nested names.
    pub fn get_paths_tree(&self) -> (r: TreeView) {
        self.root.to_tree()
    }

    /// The on-disk name of the file the path names.
    pub fn get_file(&self, file_path: &String) -> (r: Option<String>)
        ensures
            match r {
                Some(n) => spec_get_file(self.root, spec_split(file_path@), 0) matches Some(f)
                    && f.file_server@ == n@,
                None => spec_get_file(self.root, spec_split(file_path@), 0) is None,
            },
    {
        let segs = split_path(file_path.as_str());
        if segs.len() == 0 {
            return None;
        }
        get_file_rec(&self.root, &segs, 0)
    }
}
} // verus!
