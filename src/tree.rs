//! What is known of the file system: for each path asked about so far, what
//! stands there.
use vstd::prelude::*;

verus! {

/// What a path holds.
#[derive(Debug, PartialEq, Eq)]
pub enum Entry {
    /// Neither a directory nor a file.
    Missing,
    Directory,
    /// A file, with its text.
    File(String),
    /// A file that could not be opened or read as text.
    Unreadable,
}

impl Entry {
    pub open spec fn is_dir(&self) -> bool {
        self is Directory
    }

    pub open spec fn is_file(&self) -> bool {
        self is File || self is Unreadable
    }
}

/// The answers recorded so far, in the order they were given; a later
/// answer for a path replaces an earlier one.
pub struct FileTree {
    pub entries: Vec<(String, Entry)>,
}

/// The latest answer that `entries` holds for `path`.
pub open spec fn entry_of(entries: Seq<(String, Entry)>, path: Seq<char>) -> Option<Entry>
    decreases entries.len(),
{
    if entries.len() == 0 {
        None
    } else if entries.last().0@ == path {
        Some(entries.last().1)
    } else {
        entry_of(entries.drop_last(), path)
    }
}

/// How many answers are about paths outside `chain`.
pub open spec fn unvisited(entries: Seq<(String, Entry)>, chain: Seq<Seq<char>>) -> nat
    decreases entries.len(),
{
    if entries.len() == 0 {
        0
    } else {
        unvisited(entries.drop_last(), chain) + if chain.contains(entries.last().0@) {
            0nat
        } else {
            1nat
        }
    }
}

/// Taking a recorded path that `chain` does not hold into it lowers the
/// count of answers outside it.
pub proof fn lemma_unvisited_shrinks(
    entries: Seq<(String, Entry)>,
    chain: Seq<Seq<char>>,
    path: Seq<char>,
)
    requires
        !chain.contains(path),
    ensures
        unvisited(entries, chain.push(path)) <= unvisited(entries, chain),
        entry_of(entries, path) is Some ==> unvisited(entries, chain.push(path)) < unvisited(
            entries,
            chain,
        ),
    decreases entries.len(),
{
    if entries.len() > 0 {
        lemma_unvisited_shrinks(entries.drop_last(), chain, path);
        let k = entries.last().0@;
        assert(chain.push(path).contains(k) <==> (chain.contains(k) || k == path)) by {
            if k == path {
                assert(chain.push(path)[chain.len() as int] == k);
            }
            if chain.contains(k) {
                let j = choose|j: int| 0 <= j < chain.len() && chain[j] == k;
                assert(chain.push(path)[j] == k);
            }
            if chain.push(path).contains(k) {
                let j = choose|j: int| 0 <= j < chain.len() + 1 && chain.push(path)[j] == k;
                if j < chain.len() {
                    assert(chain[j] == k);
                }
            }
        }
    }
}

impl FileTree {
    pub open spec fn entry(&self, path: Seq<char>) -> Option<Entry> {
        entry_of(self.entries@, path)
    }

    /// A tree with nothing recorded.
    pub fn new() -> (r: FileTree)
        ensures
            r.entries@.len() == 0,
            forall|p: Seq<char>| r.entry(p) is None,
    {
        FileTree { entries: Vec::new() }
    }

    /// Records what stands at `path`.
    pub fn record(&mut self, path: String, entry: Entry)
        ensures
            final(self).entries@ == old(self).entries@.push((path, entry)),
            final(self).entry(path@) == Some(entry),
            forall|p: Seq<char>| p != path@ ==> final(self).entry(p) == old(self).entry(p),
    {
        self.entries.push((path, entry));
        assert(self.entries@.drop_last() =~= old(self).entries@);
    }

    /// The latest answer recorded for `path`.
    pub fn lookup(&self, path: &String) -> (r: Option<&Entry>)
        ensures
            match r {
                Some(e) => self.entry(path@) == Some(*e),
                None => self.entry(path@) is None,
            },
    {
        let mut i = self.entries.len();
        assert(self.entries@.take(i as int) =~= self.entries@);
        while i > 0
            invariant
                i <= self.entries@.len(),
                self.entry(path@) == entry_of(self.entries@.take(i as int), path@),
            decreases i,
        {
            let pair = &self.entries[i - 1];
            assert(self.entries@.take(i as int).last() == *pair);
            assert(self.entries@.take(i as int).drop_last() =~= self.entries@.take(i - 1));
            if pair.0 == *path {
                return Some(&pair.1);
            }
            i = i - 1;
        }
        None
    }
}

} // verus!
