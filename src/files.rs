//! The collected files: a map from relative path to text content.

use vstd::prelude::*;

verus! {

/// A file of the repository: its path relative to the root and its text.
#[derive(Debug, Clone)]
pub struct RepoFile {
    pub path: String,
    pub content: String,
}

/// The (path, content) pairs of a list of files, in order.
pub open spec fn pairs_of(files: Seq<RepoFile>) -> Seq<(Seq<char>, Seq<char>)> {
    files.map_values(|f: RepoFile| (f.path@, f.content@))
}

/// No two entries share a path.
pub open spec fn unique_paths(entries: Seq<(Seq<char>, Seq<char>)>) -> bool {
    forall|i: int, j: int|
        0 <= i < entries.len() && 0 <= j < entries.len() && i != j ==> #[trigger] entries[i].0
            != #[trigger] entries[j].0
}

/// Whether some entry has the given path.
pub open spec fn has_path(entries: Seq<(Seq<char>, Seq<char>)>, path: Seq<char>) -> bool {
    exists|i: int| 0 <= i < entries.len() && #[trigger] entries[i].0 == path
}

/// The entries after inserting a pair: an entry with the same path gets the
/// new content in place, otherwise the pair is appended.
pub open spec fn inserted(
    entries: Seq<(Seq<char>, Seq<char>)>,
    path: Seq<char>,
    content: Seq<char>,
) -> Seq<(Seq<char>, Seq<char>)> {
    if has_path(entries, path) {
        let i = choose|i: int| 0 <= i < entries.len() && #[trigger] entries[i].0 == path;
        entries.update(i, (path, content))
    } else {
        entries.push((path, content))
    }
}

/// Inserting keeps paths unique.
pub proof fn lemma_inserted_unique(
    entries: Seq<(Seq<char>, Seq<char>)>,
    path: Seq<char>,
    content: Seq<char>,
)
    requires
        unique_paths(entries),
    ensures
        unique_paths(inserted(entries, path, content)),
        has_path(inserted(entries, path, content), path),
{
    let r = inserted(entries, path, content);
    if has_path(entries, path) {
        let i = choose|i: int| 0 <= i < entries.len() && #[trigger] entries[i].0 == path;
        assert(r[i].0 == path);
    } else {
        assert(r[entries.len() as int].0 == path);
    }
}

/// Every path after inserting is the inserted one or the path that stood
/// at the same place before.
pub proof fn lemma_inserted_keys(
    entries: Seq<(Seq<char>, Seq<char>)>,
    path: Seq<char>,
    content: Seq<char>,
)
    ensures
        forall|j: int|
            0 <= j < inserted(entries, path, content).len() ==> #[trigger] inserted(
                entries,
                path,
                content,
            )[j].0 == path || (j < entries.len() && inserted(entries, path, content)[j].0
                == entries[j].0),
{
}

/// Inserting the same pair a second time changes nothing.
pub proof fn lemma_inserted_twice(
    entries: Seq<(Seq<char>, Seq<char>)>,
    path: Seq<char>,
    content: Seq<char>,
)
    requires
        unique_paths(entries),
    ensures
        inserted(inserted(entries, path, content), path, content) == inserted(
            entries,
            path,
            content,
        ),
{
    let once = inserted(entries, path, content);
    lemma_inserted_unique(entries, path, content);
    let j = if has_path(entries, path) {
        choose|i: int| 0 <= i < entries.len() && #[trigger] entries[i].0 == path
    } else {
        entries.len() as int
    };
    assert(once[j] == (path, content));
    let k = choose|i: int| 0 <= i < once.len() && #[trigger] once[i].0 == path;
    assert(k == j);
    assert(once.update(k, (path, content)) =~= once);
}

/// The collected files, keyed by relative path.
///
/// Paths are unique. Entries keep the order in which their paths were first
/// inserted, so a caller that inserts in a fixed order gets a fixed output.
pub struct FileMap {
    entries: Vec<RepoFile>,
}

impl View for FileMap {
    type V = Seq<(Seq<char>, Seq<char>)>;

    closed spec fn view(&self) -> Seq<(Seq<char>, Seq<char>)> {
        pairs_of(self.entries@)
    }
}

/// Compares two strings character by character.
pub(crate) fn same_text(a: &str, b: &str) -> (r: bool)
    ensures
        r == (a@ == b@),
{
    let n = a.unicode_len();
    if n != b.unicode_len() {
        return false;
    }
    let mut i: usize = 0;
    while i < n
        invariant
            n == a@.len() == b@.len(),
            i <= n,
            a@.subrange(0, i as int) == b@.subrange(0, i as int),
        decreases n - i,
    {
        if a.get_char(i) != b.get_char(i) {
            return false;
        }
        proof {
            assert(a@.subrange(0, i + 1) =~= a@.subrange(0, i as int).push(a@[i as int]));
            assert(b@.subrange(0, i + 1) =~= b@.subrange(0, i as int).push(b@[i as int]));
        }
        i = i + 1;
    }
    proof {
        assert(a@ =~= a@.subrange(0, n as int));
        assert(b@ =~= b@.subrange(0, n as int));
    }
    true
}

impl FileMap {
    /// The well-formedness of the map: paths are unique.
    pub open spec fn wf(&self) -> bool {
        unique_paths(self@)
    }

    /// An empty map.
    pub fn new() -> (r: FileMap)
        ensures
            r.wf(),
            r@ == Seq::<(Seq<char>, Seq<char>)>::empty(),
    {
        FileMap { entries: Vec::new() }
    }

    /// The number of files.
    pub fn len(&self) -> (r: usize)
        ensures
            r == self@.len(),
    {
        self.entries.len()
    }

    /// Position of the entry with the given path.
    fn position(&self, path: &str) -> (r: Option<usize>)
        ensures
            match r {
                Some(i) => i < self@.len() && self@[i as int].0 == path@,
                None => !has_path(self@, path@),
            },
    {
        let mut i: usize = 0;
        while i < self.entries.len()
            invariant
                i <= self.entries@.len(),
                forall|j: int| 0 <= j < i ==> #[trigger] self@[j].0 != path@,
            decreases self.entries.len() - i,
        {
            if same_text(self.entries[i].path.as_str(), path) {
                return Some(i);
            }
            i = i + 1;
        }
        None
    }

    /// Whether a file with this path was collected.
    pub fn contains_key(&self, path: &str) -> (r: bool)
        ensures
            r == has_path(self@, path@),
    {
        self.position(path).is_some()
    }

    /// The content collected under a path.
    pub fn get(&self, path: &str) -> (r: Option<&String>)
        requires
            self.wf(),
        ensures
            match r {
                Some(c) => exists|i: int|
                    0 <= i < self@.len() && #[trigger] self@[i] == (path@, c@),
                None => !has_path(self@, path@),
            },
    {
        match self.position(path) {
            Some(i) => Some(&self.entries[i].content),
            None => None,
        }
    }

    /// Inserts a file; an earlier entry with the same path gets the new content.
    pub fn insert(&mut self, path: String, content: String)
        requires
            old(self).wf(),
        ensures
            final(self).wf(),
            final(self)@ == inserted(old(self)@, path@, content@),
    {
        match self.position(path.as_str()) {
            Some(i) => {
                proof {
                    let j = choose|j: int| 0 <= j < self@.len() && #[trigger] self@[j].0 == path@;
                    assert(j == i);
                }
                let f = RepoFile { path, content };
                self.entries.set(i, f);
                proof {
                    assert(self@ =~= inserted(old(self)@, f.path@, f.content@));
                }
            },
            None => {
                let f = RepoFile { path, content };
                self.entries.push(f);
                proof {
                    assert(self@ =~= inserted(old(self)@, f.path@, f.content@));
                }
            },
        }
    }

    /// The files in order.
    pub fn entries(&self) -> (r: &Vec<RepoFile>)
        ensures
            pairs_of(r@) == self@,
    {
        &self.entries
    }
}

/// Copies the collected files into a list of records, in order.
pub fn files_map_to_vec(files_map: &FileMap) -> (r: Vec<RepoFile>)
    ensures
        pairs_of(r@) == files_map@,
{
    let mut out: Vec<RepoFile> = Vec::new();
    let mut i: usize = 0;
    while i < files_map.entries.len()
        invariant
            i <= files_map.entries@.len(),
            out@.len() == i,
            pairs_of(out@) == files_map@.subrange(0, i as int),
        decreases files_map.entries.len() - i,
    {
        let e = &files_map.entries[i];
        let f = RepoFile { path: e.path.clone(), content: e.content.clone() };
        let ghost before = out@;
        out.push(f);
        proof {
            assert(out@ == before.push(f));
            assert(f.path@ == files_map.entries@[i as int].path@);
            assert(f.content@ == files_map.entries@[i as int].content@);
            assert(pairs_of(out@)[i as int] == (f.path@, f.content@));
            assert(files_map@[i as int] == (f.path@, f.content@));
            assert(pairs_of(out@) =~= files_map@.subrange(0, i + 1));
        }
        i = i + 1;
    }
    proof {
        assert(files_map@.subrange(0, i as int) =~= files_map@);
    }
    out
}

} // verus!
