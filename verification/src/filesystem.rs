//! Byte-oriented access to named resources, abstracted behind a trait so the
//! rest of the system can be exercised without real files.

use vstd::prelude::*;

verus! {

/// Why a storage operation failed: the resource is not there.
#[derive(Clone, Copy, Debug, PartialEq, Eq, Structural)]
pub enum FsError {
    NotFound,
}

/// Read/write capability over named resources.
///
/// `write` never creates a resource: this system only updates files that were
/// discovered by reading, so a write to an unknown name fails with `NotFound`.
pub trait FileSystem: Sized {
    /// The resources currently held, as a map from name to content.
    spec fn files(&self) -> Map<Seq<char>, Seq<u8>>;

    /// Reads the full content of the resource named `path`.
    fn read(&self, path: &String) -> (r: Result<Vec<u8>, FsError>)
        ensures
            match r {
                Ok(content) => self.files().contains_key(path@) && content@ == self.files()[path@],
                Err(e) => !self.files().contains_key(path@) && e == FsError::NotFound,
            },
    ;

    /// Overwrites the resource named `path`.
    fn write(&mut self, path: &String, contents: Vec<u8>) -> (r: Result<(), FsError>)
        ensures
            match r {
                Ok(_) => old(self).files().contains_key(path@) && final(self).files()
                    == old(self).files().insert(path@, contents@),
                Err(e) => !old(self).files().contains_key(path@) && final(self).files()
                    == old(self).files() && e == FsError::NotFound,
            },
    ;
}

/// The map held by an association list of (name, content) entries; a later
/// entry for the same name shadows an earlier one.
pub open spec fn files_map(entries: Seq<(String, Vec<u8>)>) -> Map<Seq<char>, Seq<u8>>
    decreases entries.len(),
{
    if entries.len() == 0 {
        Map::empty()
    } else {
        files_map(entries.drop_last()).insert(entries.last().0@, entries.last().1@)
    }
}

proof fn lemma_files_map_present(entries: Seq<(String, Vec<u8>)>, p: Seq<char>, i: int)
    requires
        0 <= i < entries.len(),
        entries[i].0@ == p,
    ensures
        files_map(entries).contains_key(p),
    decreases entries.len(),
{
    if i < entries.len() - 1 {
        lemma_files_map_present(entries.drop_last(), p, i);
    }
}

proof fn lemma_files_map_last(entries: Seq<(String, Vec<u8>)>, p: Seq<char>, i: int)
    requires
        0 <= i < entries.len(),
        entries[i].0@ == p,
        forall|j: int| i < j < entries.len() ==> #[trigger] entries[j].0@ != p,
    ensures
        files_map(entries).contains_key(p),
        files_map(entries)[p] == entries[i].1@,
    decreases entries.len(),
{
    if i < entries.len() - 1 {
        lemma_files_map_last(entries.drop_last(), p, i);
    }
}

proof fn lemma_files_map_absent(entries: Seq<(String, Vec<u8>)>, p: Seq<char>)
    requires
        forall|j: int| 0 <= j < entries.len() ==> #[trigger] entries[j].0@ != p,
    ensures
        !files_map(entries).contains_key(p),
    decreases entries.len(),
{
    if entries.len() > 0 {
        lemma_files_map_absent(entries.drop_last(), p);
    }
}

/// An in-memory storage double: a growing association list of entries, where
/// the most recent entry for a name is its current content.
pub struct MockFileSystem {
    files: Vec<(String, Vec<u8>)>,
}

impl MockFileSystem {
    /// An empty in-memory storage.
    pub fn new() -> (r: Self)
        ensures
            r.files() == Map::<Seq<char>, Seq<u8>>::empty(),
    {
        MockFileSystem { files: Vec::new() }
    }

    /// Puts `content` under `path`, creating or replacing it.
    pub fn add_file(&mut self, path: String, content: Vec<u8>)
        ensures
            final(self).files() == old(self).files().insert(path@, content@),
    {
        let ghost before = self.files@;
        self.files.push((path, content));
        proof {
            assert(self.files@.drop_last() =~= before);
        }
    }
}

impl FileSystem for MockFileSystem {
    closed spec fn files(&self) -> Map<Seq<char>, Seq<u8>> {
        files_map(self.files@)
    }

    fn read(&self, path: &String) -> (r: Result<Vec<u8>, FsError>) {
        let mut i: usize = self.files.len();
        while i > 0
            invariant
                i <= self.files@.len(),
                forall|j: int| i <= j < self.files@.len() ==> #[trigger] self.files@[j].0@ != path@,
            decreases i,
        {
            i = i - 1;
            if self.files[i].0 == *path {
                proof {
                    lemma_files_map_last(self.files@, path@, i as int);
                }
                return Ok(vstd::slice::slice_to_vec(self.files[i].1.as_slice()));
            }
        }
        proof {
            lemma_files_map_absent(self.files@, path@);
        }
        Err(FsError::NotFound)
    }

    fn write(&mut self, path: &String, contents: Vec<u8>) -> (r: Result<(), FsError>) {
        let mut i: usize = 0;
        while i < self.files.len()
            invariant
                i <= self.files@.len(),
                forall|j: int| 0 <= j < i ==> #[trigger] self.files@[j].0@ != path@,
                *self == *old(self),
            decreases self.files@.len() - i,
        {
            if self.files[i].0 == *path {
                proof {
                    lemma_files_map_present(self.files@, path@, i as int);
                }
                let ghost before = self.files@;
                self.files.push((path.clone(), contents));
                proof {
                    assert(self.files@.drop_last() =~= before);
                }
                return Ok(());
            }
            i = i + 1;
        }
        proof {
            lemma_files_map_absent(self.files@, path@);
        }
        Err(FsError::NotFound)
    }
}

} // verus!
