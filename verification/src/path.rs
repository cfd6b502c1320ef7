//! File paths, as the names they are made of.
//!
//! A path is modelled by its root (empty for a relative path) and by the names
//! below it, so that nothing here depends on a platform's separator.
use crate::text;
use vstd::prelude::*;

verus! {

#[derive(Debug, Clone, PartialEq, Eq)]
pub struct FilePath {
    pub root: String,
    pub names: Vec<String>,
}

#[verifier::ext_equal]
pub struct PathView {
    pub root: Seq<char>,
    pub names: Seq<Seq<char>>,
}

impl View for FilePath {
    type V = PathView;

    open spec fn view(&self) -> PathView {
        PathView { root: self.root@, names: text::texts(self.names@) }
    }
}

impl PathView {
    /// The path of `name` in the directory `self`.
    pub open spec fn child(self, name: Seq<char>) -> PathView {
        PathView { root: self.root, names: self.names.push(name) }
    }

    /// Whether the path stands by itself. A root of one backslash, and a drive without
    /// one, still depend on where the tool runs.
    pub open spec fn absolute(self) -> bool {
        self.root == "/"@ || (self.root.len() > 1 && (self.root.last() == '\\' || (self.root[0]
            == '\\' && self.root[1] == '\\')))
    }

    pub open spec fn parent(self) -> Option<PathView> {
        if self.names.len() == 0 {
            None
        } else {
            Some(PathView { root: self.root, names: self.names.drop_last() })
        }
    }

    /// The last name, unless it stands for a directory by its place.
    pub open spec fn file_name(self) -> Option<Seq<char>> {
        if self.names.len() == 0 || self.names.last() == "."@ || self.names.last() == ".."@ {
            None
        } else {
            Some(self.names.last())
        }
    }

    /// What stands behind the last dot of the file's name, unless that begins it.
    pub open spec fn extension(self) -> Option<Seq<char>> {
        match self.file_name() {
            Some(name) => after_last_dot(name),
            None => None,
        }
    }

    /// The path itself, its parent, the parent of that, and so on.
    pub open spec fn ancestors(self) -> Seq<PathView>
        decreases self.names.len(),
    {
        if self.names.len() == 0 {
            seq![self]
        } else {
            seq![self] + PathView { root: self.root, names: self.names.drop_last() }.ancestors()
        }
    }
}

/// What stands behind the last dot of a name, unless that begins it.
pub open spec fn after_last_dot(name: Seq<char>) -> Option<Seq<char>> {
    match name.index_of_last('.') {
        Some(at) => if at > 0 {
            Some(name.subrange(at + 1, name.len() as int))
        } else {
            None
        },
        None => None,
    }
}

pub open spec fn paths(v: Seq<FilePath>) -> Seq<PathView> {
    Seq::new(v.len(), |i: int| v[i]@)
}

pub open spec fn path_of(o: Option<FilePath>) -> Option<PathView> {
    match o {
        Some(p) => Some(p@),
        None => None,
    }
}

impl FilePath {
    pub fn is_absolute(&self) -> (r: bool)
        ensures
            r == self@.absolute(),
    {
        if text::same(self.root.as_str(), "/") {
            return true;
        }
        let root = text::to_chars(self.root.as_str());
        let n: usize = root.len();
        n > 1 && (root[n - 1] == '\\' || (root[0] == '\\' && root[1] == '\\'))
    }

    pub fn copied(&self) -> (r: FilePath)
        ensures
            r@ == self@,
    {
        FilePath { root: text::copy(self.root.as_str()), names: text::copy_all(&self.names) }
    }

    /// The path of `name`, one name, in this directory.
    pub fn child(&self, name: &str) -> (r: FilePath)
        ensures
            r@ == self@.child(name@),
    {
        let mut r = self.copied();
        let ghost before = text::texts(r.names@);
        r.names.push(text::copy(name));
        assert(text::texts(r.names@) =~= before.push(name@));
        r
    }

    pub fn parent(&self) -> (r: Option<FilePath>)
        ensures
            path_of(r) == self@.parent(),
    {
        if self.names.len() == 0 {
            return None;
        }
        let mut r = self.copied();
        let ghost before = text::texts(r.names@);
        assert(before.len() == self.names@.len());
        let _ = r.names.pop();
        assert(text::texts(r.names@) =~= before.drop_last());
        Some(r)
    }

    pub fn file_name(&self) -> (r: Option<String>)
        ensures
            text::text_of(r) == self@.file_name(),
    {
        let n: usize = self.names.len();
        if n == 0 {
            return None;
        }
        let last = self.names[n - 1].as_str();
        if text::same(last, ".") || text::same(last, "..") {
            None
        } else {
            Some(text::copy(last))
        }
    }

    pub fn extension(&self) -> (r: Option<String>)
        ensures
            text::text_of(r) == self@.extension(),
    {
        let name = match self.file_name() {
            Some(name) => name,
            None => {
                return None;
            },
        };
        let chars = text::to_chars(name.as_str());
        let mut i: usize = chars.len();
        while i > 0
            invariant
                i <= chars@.len(),
                chars@ == name@,
                self@.file_name() == Some(name@),
                forall|j: int| i <= j < chars@.len() ==> chars@[j] != '.',
            decreases i,
        {
            if chars[i - 1] == '.' {
                proof {
                    lemma_last_dot(name@, i - 1);
                }
                if i - 1 > 0 {
                    return Some(text::from_chars(&chars, i, chars.len()));
                }
                return None;
            }
            i = i - 1;
        }
        proof {
            name@.index_of_last_ensures('.');
        }
        None
    }

    pub fn same_as(&self, other: &FilePath) -> (r: bool)
        ensures
            r == (self@ == other@),
    {
        if !text::same(self.root.as_str(), other.root.as_str()) || self.names.len() != other.names.len() {
            assert(text::texts(self.names@).len() == self.names@.len());
            assert(text::texts(other.names@).len() == other.names@.len());
            return false;
        }
        let mut i: usize = 0;
        while i < self.names.len()
            invariant
                i <= self.names@.len(),
                self.names@.len() == other.names@.len(),
                forall|j: int| 0 <= j < i ==> self.names@[j]@ == other.names@[j]@,
            decreases self.names@.len() - i,
        {
            if !text::same(self.names[i].as_str(), other.names[i].as_str()) {
                assert(text::texts(self.names@)[i as int] != text::texts(other.names@)[i as int]);
                return false;
            }
            i = i + 1;
        }
        assert(text::texts(self.names@) =~= text::texts(other.names@));
        true
    }

    /// The path itself and every directory above it.
    pub fn ancestors(&self) -> (r: Vec<FilePath>)
        ensures
            paths(r@) == self@.ancestors(),
        decreases self.names@.len(),
    {
        let mut r: Vec<FilePath> = Vec::new();
        r.push(self.copied());
        assert(paths(r@) =~= seq![self@]);
        match self.parent() {
            Some(up) => {
                assert(text::texts(up.names@).len() == up.names@.len());
                assert(text::texts(self.names@).len() == self.names@.len());
                let mut rest = up.ancestors();
                let ghost tail = rest@;
                let ghost head = r@;
                r.append(&mut rest);
                assert(paths(r@) =~= paths(head) + paths(tail));
            },
            None => {
                assert(text::texts(self.names@).len() == self.names@.len());
            },
        }
        r
    }
}

proof fn lemma_last_dot(name: Seq<char>, at: int)
    requires
        0 <= at < name.len(),
        name[at] == '.',
        forall|j: int| at < j < name.len() ==> name[j] != '.',
    ensures
        name.index_of_last('.') == Some(at),
{
    name.index_of_last_ensures('.');
    let found = name.index_of_last('.')->0;
    if found < at {
        assert(name[at] != '.');
    }
}

/// `child` and `parent` undo each other.
pub proof fn law_parent_of_child(dir: PathView, name: Seq<char>)
    ensures
        dir.child(name).parent() == Some(dir),
{
    assert(dir.names.push(name).drop_last() =~= dir.names);
}

/// A path that may be missing.
pub fn copy_path(p: &Option<FilePath>) -> (r: Option<FilePath>)
    ensures
        path_of(r) == path_of(*p),
{
    match p {
        Some(x) => Some(x.copied()),
        None => None,
    }
}

/// The ancestors of a path are its fronts, the longest first, down to its root.
pub proof fn law_ancestors_are_the_fronts(path: PathView, i: int)
    requires
        0 <= i <= path.names.len(),
    ensures
        path.ancestors().len() == path.names.len() + 1,
        path.ancestors()[i].root == path.root,
        path.ancestors()[i].names == path.names.take(path.names.len() - i),
    decreases path.names.len(),
{
    if path.names.len() > 0 {
        let up = PathView { root: path.root, names: path.names.drop_last() };
        if i > 0 {
            law_ancestors_are_the_fronts(up, i - 1);
            assert(up.names.take(up.names.len() - (i - 1)) =~= path.names.take(
                path.names.len() - i,
            ));
        } else {
            law_ancestors_are_the_fronts(up, 0);
            assert(path.names.take(path.names.len() as int) =~= path.names);
        }
    } else {
        assert(path.names.take(0) =~= path.names);
    }
}

/// The extension of a file is what stands behind the last dot of its name, where something
/// stands before that dot; the directory has no part in it.
pub proof fn law_extension_is_behind_the_last_dot(
    dir: PathView,
    stem: Seq<char>,
    extension: Seq<char>,
)
    requires
        stem.len() > 0,
        !extension.contains('.'),
        stem + seq!['.'] + extension != ".."@,
    ensures
        dir.child(stem + seq!['.'] + extension).extension() == Some(extension),
        dir.child(seq!['.'] + extension).extension() is None,
        !stem.contains('.') ==> dir.child(stem).extension() is None,
{
    reveal_strlit(".");
    reveal_strlit("..");
    let name = stem + seq!['.'] + extension;
    let at = stem.len() as int;
    assert(name[at] == '.');
    assert(name.contains('.'));
    name.index_of_last_ensures('.');
    let last = name.index_of_last('.')->0;
    if last > at {
        assert(extension[last - at - 1] == '.');
    }
    if last < at {
        assert(name[at] != '.');
    }
    assert(name.subrange(at + 1, name.len() as int) =~= extension);
    assert(name.len() >= 2 && "."@.len() == 1);
    let hidden = seq!['.'] + extension;
    assert(hidden[0] == '.');
    assert(hidden.contains('.'));
    hidden.index_of_last_ensures('.');
    let first = hidden.index_of_last('.')->0;
    if first > 0 {
        assert(extension[first - 1] == '.');
    }
    stem.index_of_last_ensures('.');
}

} // verus!
