//! Replacing each module declaration by the braced, recursively flattened
//! text of the file that defines it.
//!
//! Everything here is computed from a [`FileTree`]. Where the result depends
//! on a path that the tree does not hold yet, the outcome names that path;
//! once it is recorded, the same call goes further.
use vstd::prelude::*;
use regex::Regex;
use crate::decl::{declaration_of, Declaration};
use crate::lines::{lines_of, split_lines, views};
use crate::resolve::{place_facts, place_of, resolve, Place, Resolution};
use crate::tree::{lemma_unvisited_shrinks, unvisited, Entry, FileTree};

verus! {

#[verifier::external_type_specification]
#[verifier::external_body]
pub struct ExRegex(regex::Regex);

#[verifier::external_type_specification]
#[verifier::external_body]
pub struct ExRegexError(regex::Error);

/// Why a document cannot be flattened.
#[derive(Debug, PartialEq, Eq)]
pub enum FlattenError {
    /// The declaration pattern did not compile.
    Pattern,
    /// No layout holds a file for the declared module.
    Unresolved { module: String },
    /// The defining file could not be opened or read as text.
    Unreadable { path: String },
    /// The defining file is already being flattened further up.
    Circular { path: String },
}

/// [`FlattenError`] as text.
pub enum Fault {
    Pattern,
    Unresolved(Seq<char>),
    Unreadable(Seq<char>),
    Circular(Seq<char>),
}

impl View for FlattenError {
    type V = Fault;

    open spec fn view(&self) -> Fault {
        match self {
            FlattenError::Pattern => Fault::Pattern,
            FlattenError::Unresolved { module } => Fault::Unresolved(module@),
            FlattenError::Unreadable { path } => Fault::Unreadable(path@),
            FlattenError::Circular { path } => Fault::Circular(path@),
        }
    }
}

/// The outcome of flattening.
#[derive(Debug, PartialEq, Eq)]
pub enum Outcome {
    /// The flattened text.
    Done(String),
    /// The result depends on what stands at this path, not recorded yet.
    Needs(String),
    Failed(FlattenError),
}

/// [`Outcome`] as text.
pub enum Flat {
    Done(Seq<char>),
    Needs(Seq<char>),
    Failed(Fault),
}

impl View for Outcome {
    type V = Flat;

    open spec fn view(&self) -> Flat {
        match self {
            Outcome::Done(s) => Flat::Done(s@),
            Outcome::Needs(p) => Flat::Needs(p@),
            Outcome::Failed(e) => Flat::Failed(e@),
        }
    }
}

/// The text that a qualifier stands for in the output.
pub open spec fn qualifier_text(q: Option<Seq<char>>) -> Seq<char> {
    match q {
        Some(t) => t,
        None => Seq::empty(),
    }
}

/// The block that replaces a declaration: the qualifier as written, `mod`,
/// the name, and the flattened body between braces.
pub open spec fn wrapped(q: Option<Seq<char>>, name: Seq<char>, body: Seq<char>) -> Seq<char> {
    qualifier_text(q) + "mod "@ + name + " {\n"@ + body + "}\n"@
}

/// The flattened form of `lines`, read in the module `current` whose
/// children are looked for in `dir`; `chain` holds the files being
/// flattened further up.
pub open spec fn flatten_lines(
    tree: FileTree,
    chain: Seq<Seq<char>>,
    dir: Seq<char>,
    current: Seq<char>,
    lines: Seq<Seq<char>>,
) -> Flat
    decreases unvisited(tree.entries@, chain), lines.len(), 1nat,
{
    if lines.len() == 0 {
        Flat::Done(Seq::empty())
    } else {
        match flatten_lines(tree, chain, dir, current, lines.drop_last()) {
            Flat::Done(front) => match flatten_line(tree, chain, dir, current, lines.last()) {
                Flat::Done(piece) => Flat::Done(front + piece),
                other => other,
            },
            other => other,
        }
    }
}

/// The flattened form of one line: itself with a newline, or, for a
/// declaration, the block that holds the flattened defining file.
pub open spec fn flatten_line(
    tree: FileTree,
    chain: Seq<Seq<char>>,
    dir: Seq<char>,
    current: Seq<char>,
    line: Seq<char>,
) -> Flat
    decreases unvisited(tree.entries@, chain), 0nat, 0nat,
    via flatten_line_decreases
{
    match declaration_of(line) {
        None => Flat::Done(line + seq!['\n']),
        Some((q, name)) => match place_of(tree, dir, current, name) {
            Place::Needs(p) => Flat::Needs(p),
            Place::NotFound => Flat::Failed(Fault::Unresolved(name)),
            Place::Found(file, sub) => if chain.contains(file) {
                Flat::Failed(Fault::Circular(file))
            } else {
                match tree.entry(file) {
                    Some(Entry::File(text)) => match flatten_lines(
                        tree,
                        chain.push(file),
                        sub,
                        name,
                        lines_of(text@),
                    ) {
                        Flat::Done(body) => Flat::Done(wrapped(q, name, body)),
                        other => other,
                    },
                    _ => Flat::Failed(Fault::Unreadable(file)),
                }
            },
        },
    }
}

#[via_fn]
proof fn flatten_line_decreases(
    tree: FileTree,
    chain: Seq<Seq<char>>,
    dir: Seq<char>,
    current: Seq<char>,
    line: Seq<char>,
) {
    if let Some((q, name)) = declaration_of(line) {
        if let Place::Found(file, sub) = place_of(tree, dir, current, name) {
            if !chain.contains(file) {
                lemma_unvisited_shrinks(tree.entries@, chain, file);
            }
        }
    }
}

/// The flattened form of the document `text`, read in the module `current`
/// whose children are looked for in `dir`.
pub open spec fn flattened(tree: FileTree, dir: Seq<char>, current: Seq<char>, text: Seq<char>) -> Flat {
    flatten_lines(tree, Seq::empty(), dir, current, lines_of(text))
}

/// The module name under which the root document is read: its own
/// children may live in a directory of that name beside it.
pub const ROOT_MODULE: &'static str = "lib";

/// The pattern of a declaration line: the qualifier with its space in group
/// 1, the name in group 2.
pub const DECLARATION_PATTERN: &'static str = r"^(pub(?:\([a-z:]*\))? )?mod ([a-z_]*);$";

/// Relies on regex::Regex::new, to compile a pattern: it fails only on an
/// invalid or oversized pattern, which the declaration pattern is not.
#[verifier::external_body]
fn compile(pattern: &str) -> (r: Result<Regex, regex::Error>)
    ensures
        pattern@ == DECLARATION_PATTERN@ ==> r is Ok,
{
    Regex::new(pattern)
}

/// The compiled declaration pattern, made once and used for every line.
pub struct RegexContext {
    re: Regex,
}

impl RegexContext {
    /// Compiles [`DECLARATION_PATTERN`], which always succeeds.
    pub fn new() -> (r: Result<RegexContext, FlattenError>)
        ensures
            r is Ok,
    {
        match compile(DECLARATION_PATTERN) {
            Ok(re) => Ok(RegexContext { re }),
            Err(_) => Err(FlattenError::Pattern),
        }
    }

    /// Relies on regex::Regex::captures, on the one pattern that `new`
    /// compiles: a line matches it exactly when `declaration_of` gives a
    /// declaration, group 1 being the qualifier and group 2 the name.
    #[verifier::external_body]
    fn declaration(&self, line: &str) -> (r: Option<Declaration>)
        ensures
            match r {
                Some(d) => declaration_of(line@) == Some(d@),
                None => declaration_of(line@) is None,
            },
    {
        self.re.captures(line).map(
            |c| Declaration { qualifier: c.get(1).map(|m| m.as_str().to_string()), name: c[2].to_string() },
        )
    }
    /// Flattens the document `text` of the module `current`, whose children
    /// are looked for in `dir`.
    pub fn process(&self, tree: &FileTree, dir: &str, current: &str, text: &str) -> (r: Outcome)
        ensures
            r@ == flattened(*tree, dir@, current@, text@),
    {
        let lines = split_lines(text);
        let chain: Vec<String> = Vec::new();
        assert(views(chain@) =~= Seq::<Seq<char>>::empty());
        self.process_lines(tree, &chain, dir, current, &lines)
    }

    fn process_lines(
        &self,
        tree: &FileTree,
        chain: &Vec<String>,
        dir: &str,
        current: &str,
        lines: &Vec<String>,
    ) -> (r: Outcome)
        ensures
            r@ == flatten_lines(*tree, views(chain@), dir@, current@, views(lines@)),
        decreases unvisited(tree.entries@, views(chain@)), lines@.len(), 1nat,
    {
        let ghost ls = views(lines@);
        let mut out = String::new();
        let mut i: usize = 0;
        assert(ls.take(0) =~= Seq::<Seq<char>>::empty());
        while i < lines.len()
            invariant
                i <= lines@.len(),
                ls == views(lines@),
                flatten_lines(*tree, views(chain@), dir@, current@, ls.take(i as int)) == Flat::Done(
                    out@,
                ),
            decreases lines@.len() - i,
        {
            let piece = self.process_line(tree, chain, dir, current, &lines[i]);
            assert(ls.take(i + 1).drop_last() =~= ls.take(i as int));
            assert(ls.take(i + 1).last() == lines@[i as int]@);
            match piece {
                Outcome::Done(s) => {
                    out.append(s.as_str());
                },
                other => {
                    proof {
                        lemma_failure_stays(*tree, views(chain@), dir@, current@, ls, i + 1);
                    }
                    return other;
                },
            }
            i = i + 1;
        }
        assert(ls.take(i as int) =~= ls);
        Outcome::Done(out)
    }

    fn process_line(
        &self,
        tree: &FileTree,
        chain: &Vec<String>,
        dir: &str,
        current: &str,
        line: &String,
    ) -> (r: Outcome)
        ensures
            r@ == flatten_line(*tree, views(chain@), dir@, current@, line@),
        decreases unvisited(tree.entries@, views(chain@)), 0nat, 0nat,
    {
        match self.declaration(line.as_str()) {
            None => {
                let mut s = line.clone();
                s.append("\n");
                proof {
                    reveal_strlit("\n");
                }
                assert(s@ =~= line@ + seq!['\n']);
                Outcome::Done(s)
            },
            Some(d) => match resolve(tree, dir, current, d.name.as_str()) {
                Resolution::Needs(p) => Outcome::Needs(p),
                Resolution::NotFound => Outcome::Failed(FlattenError::Unresolved { module: d.name }),
                Resolution::Found { file, dir: sub } => {
                    if holds(chain, &file) {
                        return Outcome::Failed(FlattenError::Circular { path: file });
                    }
                    match tree.lookup(&file) {
                        Some(Entry::File(text)) => {
                            let lines = split_lines(text.as_str());
                            let inner = extended(chain, &file);
                            proof {
                                lemma_unvisited_shrinks(tree.entries@, views(chain@), file@);
                            }
                            match self.process_lines(tree, &inner, sub.as_str(), d.name.as_str(), &lines) {
                                Outcome::Done(body) => Outcome::Done(wrap(&d, &body)),
                                other => other,
                            }
                        },
                        _ => Outcome::Failed(FlattenError::Unreadable { path: file }),
                    }
                },
            },
        }
    }
}

/// Once a prefix of the lines fails or needs a path, so do all the lines.
proof fn lemma_failure_stays(
    tree: FileTree,
    chain: Seq<Seq<char>>,
    dir: Seq<char>,
    current: Seq<char>,
    lines: Seq<Seq<char>>,
    k: int,
)
    requires
        0 <= k <= lines.len(),
        !(flatten_lines(tree, chain, dir, current, lines.take(k)) is Done),
    ensures
        flatten_lines(tree, chain, dir, current, lines) == flatten_lines(
            tree,
            chain,
            dir,
            current,
            lines.take(k),
        ),
    decreases lines.len(),
{
    if lines.len() > k {
        assert(lines.drop_last().take(k) =~= lines.take(k));
        lemma_failure_stays(tree, chain, dir, current, lines.drop_last(), k);
    } else {
        assert(lines.take(k) =~= lines);
    }
}

/// Whether `chain` holds `path`.
fn holds(chain: &Vec<String>, path: &String) -> (r: bool)
    ensures
        r == views(chain@).contains(path@),
{
    let mut i: usize = 0;
    while i < chain.len()
        invariant
            i <= chain@.len(),
            forall|j: int| 0 <= j < i ==> chain@[j]@ != path@,
        decreases chain@.len() - i,
    {
        if chain[i] == *path {
            assert(views(chain@)[i as int] == path@);
            return true;
        }
        i = i + 1;
    }
    assert(!views(chain@).contains(path@)) by {
        if views(chain@).contains(path@) {
            let j = choose|j: int| 0 <= j < chain@.len() && views(chain@)[j] == path@;
            assert(chain@[j]@ == path@);
        }
    }
    false
}

/// `chain` with `path` after it.
fn extended(chain: &Vec<String>, path: &String) -> (r: Vec<String>)
    ensures
        views(r@) == views(chain@).push(path@),
{
    let mut r: Vec<String> = Vec::new();
    let mut i: usize = 0;
    while i < chain.len()
        invariant
            i <= chain@.len(),
            r@.len() == i,
            forall|j: int| 0 <= j < i ==> r@[j]@ == chain@[j]@,
        decreases chain@.len() - i,
    {
        r.push(chain[i].clone());
        i = i + 1;
    }
    r.push(path.clone());
    assert(views(r@) =~= views(chain@).push(path@));
    r
}

/// The block that replaces the declaration `d`, around `body`.
fn wrap(d: &Declaration, body: &String) -> (r: String)
    ensures
        r@ == wrapped(d@.0, d@.1, body@),
{
    let mut out = match &d.qualifier {
        Some(q) => q.clone(),
        None => String::new(),
    };
    out.append("mod ");
    out.append(d.name.as_str());
    out.append(" {\n");
    out.append(body.as_str());
    out.append("}\n");
    out
}

/// `s.push(x)` holds exactly what `s` holds, and `x`.
proof fn lemma_push_contains(s: Seq<Seq<char>>, x: Seq<char>, y: Seq<char>)
    ensures
        s.push(x).contains(y) <==> (s.contains(y) || y == x),
{
    if y == x {
        assert(s.push(x)[s.len() as int] == y);
    }
    if s.contains(y) {
        let j = choose|j: int| 0 <= j < s.len() && s[j] == y;
        assert(s.push(x)[j] == y);
    }
    if s.push(x).contains(y) {
        let j = choose|j: int| 0 <= j < s.len() + 1 && s.push(x)[j] == y;
        if j < s.len() {
            assert(s[j] == y);
        }
    }
}

/// A path that flattening asks for is never one already recorded, so
/// recording the answer always brings new knowledge.
pub proof fn needs_only_unrecorded_lines(
    tree: FileTree,
    chain: Seq<Seq<char>>,
    dir: Seq<char>,
    current: Seq<char>,
    lines: Seq<Seq<char>>,
)
    ensures
        flatten_lines(tree, chain, dir, current, lines) is Needs ==> tree.entry(
            flatten_lines(tree, chain, dir, current, lines)->Needs_0,
        ) is None,
    decreases unvisited(tree.entries@, chain), lines.len(), 1nat,
{
    if lines.len() > 0 {
        needs_only_unrecorded_lines(tree, chain, dir, current, lines.drop_last());
        needs_only_unrecorded_line(tree, chain, dir, current, lines.last());
    }
}

/// [`needs_only_unrecorded_lines`], for one line.
pub proof fn needs_only_unrecorded_line(
    tree: FileTree,
    chain: Seq<Seq<char>>,
    dir: Seq<char>,
    current: Seq<char>,
    line: Seq<char>,
)
    ensures
        flatten_line(tree, chain, dir, current, line) is Needs ==> tree.entry(
            flatten_line(tree, chain, dir, current, line)->Needs_0,
        ) is None,
    decreases unvisited(tree.entries@, chain), 0nat, 0nat,
{
    if let Some((q, name)) = declaration_of(line) {
        place_facts(tree, dir, current, name);
        if let Place::Found(file, sub) = place_of(tree, dir, current, name) {
            if !chain.contains(file) {
                if let Some(Entry::File(text)) = tree.entry(file) {
                    lemma_unvisited_shrinks(tree.entries@, chain, file);
                    needs_only_unrecorded_lines(tree, chain.push(file), sub, name, lines_of(text@));
                }
            }
        }
    }
}

/// The path that flattening a document asks for is not recorded yet.
pub proof fn needs_only_unrecorded(tree: FileTree, dir: Seq<char>, current: Seq<char>, text: Seq<char>)
    ensures
        flattened(tree, dir, current, text) is Needs ==> tree.entry(
            flattened(tree, dir, current, text)->Needs_0,
        ) is None,
{
    needs_only_unrecorded_lines(tree, Seq::empty(), dir, current, lines_of(text));
}

/// Flattening that succeeds with the files `big` above gives the same text
/// with only some of them, `small`, above.
pub proof fn fewer_above_lines(
    tree: FileTree,
    big: Seq<Seq<char>>,
    small: Seq<Seq<char>>,
    dir: Seq<char>,
    current: Seq<char>,
    lines: Seq<Seq<char>>,
)
    requires
        forall|x: Seq<char>| small.contains(x) ==> big.contains(x),
        flatten_lines(tree, big, dir, current, lines) is Done,
    ensures
        flatten_lines(tree, small, dir, current, lines) == flatten_lines(
            tree,
            big,
            dir,
            current,
            lines,
        ),
    decreases unvisited(tree.entries@, big), lines.len(), 1nat,
{
    if lines.len() > 0 {
        fewer_above_lines(tree, big, small, dir, current, lines.drop_last());
        fewer_above_line(tree, big, small, dir, current, lines.last());
    }
}

/// [`fewer_above_lines`], for one line.
pub proof fn fewer_above_line(
    tree: FileTree,
    big: Seq<Seq<char>>,
    small: Seq<Seq<char>>,
    dir: Seq<char>,
    current: Seq<char>,
    line: Seq<char>,
)
    requires
        forall|x: Seq<char>| small.contains(x) ==> big.contains(x),
        flatten_line(tree, big, dir, current, line) is Done,
    ensures
        flatten_line(tree, small, dir, current, line) == flatten_line(tree, big, dir, current, line),
    decreases unvisited(tree.entries@, big), 0nat, 0nat,
{
    if let Some((q, name)) = declaration_of(line) {
        if let Place::Found(file, sub) = place_of(tree, dir, current, name) {
            if let Some(Entry::File(text)) = tree.entry(file) {
                lemma_unvisited_shrinks(tree.entries@, big, file);
                assert forall|x: Seq<char>| small.push(file).contains(x) implies big.push(
                    file,
                ).contains(x) by {
                    lemma_push_contains(small, file, x);
                    lemma_push_contains(big, file, x);
                }
                fewer_above_lines(tree, big.push(file), small.push(file), sub, name, lines_of(text@));
            }
        }
    }
}

} // verus!
