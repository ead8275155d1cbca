//! Finding the file that defines a module declared inside another one.
//!
//! Three layouts are tried in order, the first that applies wins:
//! `dir/current/target.rs` (the current module keeps its children in a
//! directory of its own), `dir/target/mod.rs` (the target owns a directory
//! with an index file) and `dir/target.rs` (a sibling file).
use vstd::prelude::*;
use crate::path::{join, joined};
use crate::tree::{Entry, FileTree};

verus! {

/// Where a module was looked for, as text.
pub enum Place {
    /// The defining file, and the directory in which its own children are
    /// looked for.
    Found(Seq<char>, Seq<char>),
    /// No layout applies.
    NotFound,
    /// The answer depends on this path, which is not recorded yet.
    Needs(Seq<char>),
}

/// The outcome of [`resolve`].
#[derive(Debug, PartialEq, Eq)]
pub enum Resolution {
    Found { file: String, dir: String },
    NotFound,
    Needs(String),
}

impl View for Resolution {
    type V = Place;

    open spec fn view(&self) -> Place {
        match self {
            Resolution::Found { file, dir } => Place::Found(file@, dir@),
            Resolution::NotFound => Place::NotFound,
            Resolution::Needs(p) => Place::Needs(p@),
        }
    }
}

/// The file name of a module `name` that stands in a file of its own.
pub open spec fn file_name(name: Seq<char>) -> Seq<char> {
    name + ".rs"@
}

/// The name of the index file of a module that owns a directory.
pub open spec fn index_name() -> Seq<char> {
    "mod.rs"@
}

/// The directory of the current module's children.
pub open spec fn nested_dir(dir: Seq<char>, current: Seq<char>) -> Seq<char> {
    joined(dir, current)
}

/// `dir/current/target.rs`
pub open spec fn nested_file(dir: Seq<char>, current: Seq<char>, target: Seq<char>) -> Seq<char> {
    joined(nested_dir(dir, current), file_name(target))
}

/// The target's own directory.
pub open spec fn index_dir(dir: Seq<char>, target: Seq<char>) -> Seq<char> {
    joined(dir, target)
}

/// `dir/target/mod.rs`
pub open spec fn index_file(dir: Seq<char>, target: Seq<char>) -> Seq<char> {
    joined(index_dir(dir, target), index_name())
}

/// `dir/target.rs`
pub open spec fn sibling_file(dir: Seq<char>, target: Seq<char>) -> Seq<char> {
    joined(dir, file_name(target))
}

pub open spec fn holds_dir(tree: FileTree, path: Seq<char>) -> bool {
    match tree.entry(path) {
        Some(e) => e.is_dir(),
        None => false,
    }
}

pub open spec fn holds_file(tree: FileTree, path: Seq<char>) -> bool {
    match tree.entry(path) {
        Some(e) => e.is_file(),
        None => false,
    }
}

/// The sibling-file layout, tried last.
pub open spec fn sibling_place(tree: FileTree, dir: Seq<char>, target: Seq<char>) -> Place {
    let f = sibling_file(dir, target);
    if tree.entry(f) is None {
        Place::Needs(f)
    } else if holds_file(tree, f) {
        Place::Found(f, dir)
    } else {
        Place::NotFound
    }
}

/// The index-file layout, then the sibling-file one.
pub open spec fn index_place(tree: FileTree, dir: Seq<char>, target: Seq<char>) -> Place {
    let d = index_dir(dir, target);
    let f = index_file(dir, target);
    if tree.entry(d) is None {
        Place::Needs(d)
    } else if holds_dir(tree, d) && tree.entry(f) is None {
        Place::Needs(f)
    } else if holds_dir(tree, d) && holds_file(tree, f) {
        Place::Found(f, d)
    } else {
        sibling_place(tree, dir, target)
    }
}

/// Where the module `target`, declared in the module `current` whose children
/// are looked for in `dir`, is defined.
pub open spec fn place_of(
    tree: FileTree,
    dir: Seq<char>,
    current: Seq<char>,
    target: Seq<char>,
) -> Place {
    let d = nested_dir(dir, current);
    let f = nested_file(dir, current, target);
    if tree.entry(d) is None {
        Place::Needs(d)
    } else if holds_dir(tree, d) && tree.entry(f) is None {
        Place::Needs(f)
    } else if holds_dir(tree, d) && holds_file(tree, f) {
        Place::Found(f, d)
    } else {
        index_place(tree, dir, target)
    }
}

/// Whether `path` is recorded, and as a directory.
fn probe_dir(tree: &FileTree, path: &String) -> (r: Option<bool>)
    ensures
        r is None <==> tree.entry(path@) is None,
        r == Some(true) <==> holds_dir(*tree, path@),
{
    match tree.lookup(path) {
        None => None,
        Some(Entry::Directory) => Some(true),
        Some(_) => Some(false),
    }
}

/// Whether `path` is recorded, and as a file.
fn probe_file(tree: &FileTree, path: &String) -> (r: Option<bool>)
    ensures
        r is None <==> tree.entry(path@) is None,
        r == Some(true) <==> holds_file(*tree, path@),
{
    match tree.lookup(path) {
        None => None,
        Some(Entry::File(_)) => Some(true),
        Some(Entry::Unreadable) => Some(true),
        Some(_) => Some(false),
    }
}

/// Finds the file that defines the module `target`, declared in the module
/// `current` whose children are looked for in `dir`.
pub fn resolve(tree: &FileTree, dir: &str, current: &str, target: &str) -> (r: Resolution)
    ensures
        r@ == place_of(*tree, dir@, current@, target@),
{
    let mut target_file = String::from_str(target);
    target_file.append(".rs");

    let d = join(dir, current);
    let f = join(d.as_str(), target_file.as_str());
    match probe_dir(tree, &d) {
        None => return Resolution::Needs(d),
        Some(true) => match probe_file(tree, &f) {
            None => return Resolution::Needs(f),
            Some(true) => return Resolution::Found { file: f, dir: d },
            Some(false) => {},
        },
        Some(false) => {},
    }

    let d = join(dir, target);
    let f = join(d.as_str(), "mod.rs");
    match probe_dir(tree, &d) {
        None => return Resolution::Needs(d),
        Some(true) => match probe_file(tree, &f) {
            None => return Resolution::Needs(f),
            Some(true) => return Resolution::Found { file: f, dir: d },
            Some(false) => {},
        },
        Some(false) => {},
    }

    let f = join(dir, target_file.as_str());
    match probe_file(tree, &f) {
        None => Resolution::Needs(f),
        Some(true) => Resolution::Found { file: f, dir: String::from_str(dir) },
        Some(false) => Resolution::NotFound,
    }
}

/// Resolution asks only for paths not yet recorded, and finds only one of
/// the three candidate files, recorded as a file.
pub proof fn place_facts(tree: FileTree, dir: Seq<char>, current: Seq<char>, target: Seq<char>)
    ensures
        place_of(tree, dir, current, target) is Needs ==> tree.entry(
            place_of(tree, dir, current, target)->Needs_0,
        ) is None,
        place_of(tree, dir, current, target) is Found ==> {
            let f = place_of(tree, dir, current, target)->Found_0;
            &&& holds_file(tree, f)
            &&& f == nested_file(dir, current, target) || f == index_file(dir, target) || f
                == sibling_file(dir, target)
        },
{
}

} // verus!
