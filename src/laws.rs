//! What holds of resolution and flattening over every file tree.
use vstd::prelude::*;
use crate::decl::{declaration_of, declared_name, qualifier_len};
use crate::inline::{fewer_above_lines, flatten_line, flatten_lines, flattened, qualifier_text, wrapped, Flat};
use crate::lines::{lines_of, normalized, pieces, terminated, without_cr};
use crate::resolve::{
    holds_dir, holds_file, index_dir, place_facts, index_file, nested_dir, nested_file, place_of, sibling_file,
    Place,
};
use crate::tree::{Entry, FileTree};

verus! {

/// Where the current module's directory holds the target's file, that file
/// is the one found, even when a sibling file of the same name exists.
pub proof fn nested_file_comes_first(
    tree: FileTree,
    dir: Seq<char>,
    current: Seq<char>,
    target: Seq<char>,
)
    requires
        holds_dir(tree, nested_dir(dir, current)),
        holds_file(tree, nested_file(dir, current, target)),
        holds_file(tree, sibling_file(dir, target)),
    ensures
        place_of(tree, dir, current, target) == Place::Found(
            nested_file(dir, current, target),
            nested_dir(dir, current),
        ),
{
}

/// Where every path that resolution asks about is known and none of the
/// three candidate files exists, the module is not found, which is no error.
pub proof fn no_candidate_is_not_found(
    tree: FileTree,
    dir: Seq<char>,
    current: Seq<char>,
    target: Seq<char>,
)
    requires
        tree.entry(nested_dir(dir, current)) is Some,
        tree.entry(nested_file(dir, current, target)) is Some,
        tree.entry(index_dir(dir, target)) is Some,
        tree.entry(index_file(dir, target)) is Some,
        tree.entry(sibling_file(dir, target)) is Some,
        !holds_file(tree, nested_file(dir, current, target)),
        !holds_file(tree, index_file(dir, target)),
        !holds_file(tree, sibling_file(dir, target)),
    ensures
        place_of(tree, dir, current, target) == Place::NotFound,
{
}

/// Lines none of which is a declaration come out as they are, each with a
/// newline.
pub proof fn plain_lines_pass_through(
    tree: FileTree,
    chain: Seq<Seq<char>>,
    dir: Seq<char>,
    current: Seq<char>,
    lines: Seq<Seq<char>>,
)
    requires
        forall|i: int| 0 <= i < lines.len() ==> declaration_of(#[trigger] lines[i]) is None,
    ensures
        flatten_lines(tree, chain, dir, current, lines) == Flat::Done(terminated(lines)),
    decreases lines.len(),
{
    if lines.len() > 0 {
        let front = lines.drop_last();
        assert forall|i: int| 0 <= i < front.len() implies declaration_of(#[trigger] front[i]) is None by {
            assert(front[i] == lines[i]);
        }
        plain_lines_pass_through(tree, chain, dir, current, front);
        assert(declaration_of(lines.last()) is None);
        assert(flatten_line(tree, chain, dir, current, lines.last()) == Flat::Done(
            lines.last() + seq!['\n'],
        ));
        assert(terminated(front) + (lines.last() + seq!['\n']) =~= terminated(lines));
    }
}

/// A document with no declaration line flattens, whatever the tree holds,
/// to itself with each line ending in a single newline.
pub proof fn plain_document_round_trips(
    tree: FileTree,
    dir: Seq<char>,
    current: Seq<char>,
    text: Seq<char>,
)
    requires
        forall|i: int|
            0 <= i < lines_of(text).len() ==> declaration_of(#[trigger] lines_of(text)[i]) is None,
    ensures
        flattened(tree, dir, current, text) == Flat::Done(normalized(text)),
{
    plain_lines_pass_through(tree, Seq::empty(), dir, current, lines_of(text));
}

/// The block that replaces a declaration starts with the qualifier exactly as
/// the line wrote it, then `mod `; a declaration without a qualifier gives
/// none.
pub proof fn qualifier_is_kept(
    tree: FileTree,
    chain: Seq<Seq<char>>,
    dir: Seq<char>,
    current: Seq<char>,
    line: Seq<char>,
)
    requires
        declaration_of(line) is Some,
        flatten_line(tree, chain, dir, current, line) is Done,
    ensures
        ({
            let q = declaration_of(line)->Some_0.0;
            let out = flatten_line(tree, chain, dir, current, line)->Done_0;
            let k = qualifier_text(q).len() as int;
            &&& out.take(k + 4) == qualifier_text(q) + "mod "@
            &&& line.take(k + 4) == qualifier_text(q) + "mod "@
        }),
{
    reveal_strlit("mod ");
    let (q, name) = declaration_of(line)->Some_0;
    let out = flatten_line(tree, chain, dir, current, line)->Done_0;
    let k = qualifier_text(q).len() as int;
    if let Place::Found(file, sub) = place_of(tree, dir, current, name) {
        if let Some(Entry::File(text)) = tree.entry(file) {
            if let Flat::Done(b) = flatten_lines(tree, chain.push(file), sub, name, lines_of(text@)) {
                assert(out == wrapped(q, name, b));
                assert(out.take(k + 4) =~= qualifier_text(q) + "mod "@);
            }
        }
    }
    if declared_name(line) is Some {
        assert(line.take(4) =~= "mod "@);
    } else {
        let j = qualifier_len(line)->Some_0;
        assert(line.skip(j).take(4) =~= "mod "@);
        assert(line.take(j + 4) =~= line.take(j) + line.skip(j).take(4));
    }
}

/// The blocks of a chain of declarations around `inner`, the first outermost:
/// one level of braces for each name, with the qualifier of the same place.
pub open spec fn nested(qs: Seq<Option<Seq<char>>>, names: Seq<Seq<char>>, inner: Seq<char>) -> Seq<
    char,
>
    decreases names.len(),
{
    if names.len() == 0 || qs.len() == 0 {
        inner
    } else {
        wrapped(qs[0], names[0], nested(qs.skip(1), names.skip(1), inner))
    }
}

/// `path` is recorded as a file with the text `text`.
pub open spec fn holds_text(tree: FileTree, path: Seq<char>, text: Seq<char>) -> bool {
    match tree.entry(path) {
        Some(Entry::File(t)) => t@ == text,
        _ => false,
    }
}

/// A chain of `quals.len()` declarations: `texts[0]` is the root document,
/// read in the module `names[0]` with children in `dirs[0]`; each
/// `texts[k]` but the last is the one line that declares `names[k + 1]` with
/// the qualifier `quals[k]`, which resolves to the file `files[k + 1]`, with
/// the text `texts[k + 1]` and children in `dirs[k + 1]`; those files are
/// distinct, and the last text declares nothing.
pub open spec fn declares_chain(
    tree: FileTree,
    dirs: Seq<Seq<char>>,
    names: Seq<Seq<char>>,
    quals: Seq<Option<Seq<char>>>,
    files: Seq<Seq<char>>,
    texts: Seq<Seq<char>>,
) -> bool {
    let n = quals.len() as int;
    &&& names.len() == n + 1
    &&& dirs.len() == n + 1
    &&& files.len() == n + 1
    &&& texts.len() == n + 1
    &&& forall|k: int|
        0 <= k < n ==> lines_of(#[trigger] texts[k]).len() == 1 && declaration_of(
            lines_of(texts[k])[0],
        ) == Some((quals[k], names[k + 1]))
    &&& forall|k: int|
        0 <= k < n ==> place_of(tree, dirs[k], names[k], names[k + 1]) == Place::Found(
            #[trigger] files[k + 1],
            dirs[k + 1],
        )
    &&& forall|k: int| 1 <= k <= n ==> holds_text(tree, #[trigger] files[k], texts[k])
    &&& forall|i: int, j: int| 1 <= i < j <= n ==> files[i] != files[j]
    &&& forall|i: int|
        0 <= i < lines_of(texts[n]).len() ==> declaration_of(#[trigger] lines_of(texts[n])[i]) is None
}

proof fn lemma_chain_level(
    tree: FileTree,
    dirs: Seq<Seq<char>>,
    names: Seq<Seq<char>>,
    quals: Seq<Option<Seq<char>>>,
    files: Seq<Seq<char>>,
    texts: Seq<Seq<char>>,
    j: int,
)
    requires
        declares_chain(tree, dirs, names, quals, files, texts),
        0 <= j <= quals.len(),
    ensures
        flatten_lines(tree, files.subrange(1, j + 1), dirs[j], names[j], lines_of(texts[j]))
            == Flat::Done(nested(quals.skip(j), names.skip(j + 1), normalized(texts[quals.len() as int]))),
    decreases quals.len() - j,
{
    let n = quals.len() as int;
    let inner = normalized(texts[n]);
    let chain = files.subrange(1, j + 1);
    if j == n {
        plain_lines_pass_through(tree, chain, dirs[j], names[j], lines_of(texts[n]));
        assert(names.skip(j + 1).len() == 0);
    } else {
        lemma_chain_level(tree, dirs, names, quals, files, texts, j + 1);
        let file = files[j + 1];
        let line = lines_of(texts[j])[0];
        assert(place_of(tree, dirs[j], names[j], names[j + 1]) == Place::Found(file, dirs[j + 1]));
        assert(holds_text(tree, files[j + 1], texts[j + 1]));
        assert(!chain.contains(file)) by {
            if chain.contains(file) {
                let i = choose|i: int| 0 <= i < chain.len() && chain[i] == file;
                assert(files[i + 1] == file);
            }
        }
        assert(chain.push(file) =~= files.subrange(1, j + 2));
        let t = tree.entry(file)->Some_0->File_0;
        assert(t@ == texts[j + 1]);
        let body = nested(quals.skip(j + 1), names.skip(j + 2), inner);
        assert(quals.skip(j).skip(1) =~= quals.skip(j + 1));
        assert(names.skip(j + 1).skip(1) =~= names.skip(j + 2));
        assert(nested(quals.skip(j), names.skip(j + 1), inner) == wrapped(quals[j], names[j + 1], body));
        assert(flatten_line(tree, chain, dirs[j], names[j], line) == Flat::Done(
            wrapped(quals[j], names[j + 1], body),
        ));
        let ls = lines_of(texts[j]);
        assert(ls.drop_last() =~= Seq::<Seq<char>>::empty());
        assert(ls.last() == line);
        assert(flatten_lines(tree, chain, dirs[j], names[j], ls.drop_last()) == Flat::Done(
            Seq::<char>::empty(),
        ));
        assert(Seq::<char>::empty() + wrapped(quals[j], names[j + 1], body) =~= wrapped(
            quals[j],
            names[j + 1],
            body,
        ));
    }
}

/// A chain of declarations, each standing alone in the file that the one
/// before it resolves to, flattens to as many nested blocks as there are
/// declarations, each with its own qualifier, around the last file's text.
pub proof fn chain_nests(
    tree: FileTree,
    dirs: Seq<Seq<char>>,
    names: Seq<Seq<char>>,
    quals: Seq<Option<Seq<char>>>,
    files: Seq<Seq<char>>,
    texts: Seq<Seq<char>>,
)
    requires
        declares_chain(tree, dirs, names, quals, files, texts),
    ensures
        flattened(tree, dirs[0], names[0], texts[0]) == Flat::Done(
            nested(quals, names.skip(1), normalized(texts[quals.len() as int])),
        ),
{
    lemma_chain_level(tree, dirs, names, quals, files, texts, 0);
    assert(files.subrange(1, 1) =~= Seq::<Seq<char>>::empty());
    assert(quals.skip(0) =~= quals);
}

proof fn lemma_pieces_rebuild(s: Seq<char>)
    requires
        forall|i: int| 0 <= i < s.len() ==> s[i] != '\r',
    ensures
        pieces(s).len() >= 1,
        pieces(s).drop_last().map_values(|l: Seq<char>| without_cr(l)) == pieces(s).drop_last(),
        terminated(pieces(s).drop_last()) + pieces(s).last() == s,
        pieces(s).last().len() > 0 ==> s.len() > 0 && pieces(s).last().last() == s.last(),
    decreases s.len(),
{
    if s.len() == 0 {
        assert(pieces(s).drop_last().map_values(|l: Seq<char>| without_cr(l)) =~= pieces(s).drop_last());
        assert(terminated(pieces(s).drop_last()) + pieces(s).last() =~= s);
    } else {
        let front = s.drop_last();
        assert forall|i: int| 0 <= i < front.len() implies front[i] != '\r' by {
            assert(front[i] == s[i]);
        }
        lemma_pieces_rebuild(front);
        let p0 = pieces(front);
        let p = pieces(s);
        if s.last() == '\n' {
            assert(p.drop_last() =~= p0);
            assert(without_cr(p0.last()) == p0.last());
            assert(p0.drop_last().push(p0.last()) =~= p0);
            assert(p.drop_last().map_values(|l: Seq<char>| without_cr(l)) =~= p.drop_last()) by {
                assert forall|j: int| 0 <= j < p0.len() implies without_cr(#[trigger] p0[j]) == p0[j] by {
                    if j < p0.len() - 1 {
                        assert(p0.drop_last().map_values(|l: Seq<char>| without_cr(l))[j] == p0[j]);
                    }
                }
            }
            assert(terminated(p0) == terminated(p0.drop_last()) + p0.last() + seq!['\n']);
            assert(terminated(p.drop_last()) + p.last() =~= s);
        } else {
            assert(p == p0.update(p0.len() - 1, p0.last().push(s.last())));
            assert(p.drop_last() =~= p0.drop_last());
            assert(p.last() == p0.last().push(s.last()));
            assert(s =~= front.push(s.last()));
            assert(terminated(p0.drop_last()) + p0.last().push(s.last()) =~= (terminated(
                p0.drop_last(),
            ) + p0.last()).push(s.last()));
        }
    }
}

/// A document without carriage returns that is empty or ends in a newline,
/// and holds no declaration line, flattens to itself.
pub proof fn plain_document_unchanged(
    tree: FileTree,
    dir: Seq<char>,
    current: Seq<char>,
    text: Seq<char>,
)
    requires
        forall|i: int|
            0 <= i < lines_of(text).len() ==> declaration_of(#[trigger] lines_of(text)[i]) is None,
        forall|i: int| 0 <= i < text.len() ==> text[i] != '\r',
        text.len() == 0 || text.last() == '\n',
    ensures
        flattened(tree, dir, current, text) == Flat::Done(text),
{
    plain_document_round_trips(tree, dir, current, text);
    lemma_pieces_rebuild(text);
    let p = pieces(text);
    assert(p.last().len() == 0);
    assert(terminated(p.drop_last()) + p.last() =~= terminated(p.drop_last()));
}

/// Where none of the three candidate files is recorded as a file, whatever
/// else the tree holds, resolution never finds a file: it answers not found
/// or asks for a path not yet recorded, and it has no error to give.
pub proof fn no_candidate_is_never_found(
    tree: FileTree,
    dir: Seq<char>,
    current: Seq<char>,
    target: Seq<char>,
)
    requires
        !holds_file(tree, nested_file(dir, current, target)),
        !holds_file(tree, index_file(dir, target)),
        !holds_file(tree, sibling_file(dir, target)),
    ensures
        place_of(tree, dir, current, target) is NotFound || (place_of(
            tree,
            dir,
            current,
            target,
        ) is Needs && tree.entry(place_of(tree, dir, current, target)->Needs_0) is None),
{
    place_facts(tree, dir, current, target);
}

/// A declaration that flattens becomes its qualifier as written, `mod`, its
/// name, and between braces the flattened text of the file it resolves to,
/// that text flattened afresh in the directory and module the resolution
/// gives.
pub proof fn declaration_block(
    tree: FileTree,
    chain: Seq<Seq<char>>,
    dir: Seq<char>,
    current: Seq<char>,
    line: Seq<char>,
)
    requires
        declaration_of(line) is Some,
        flatten_line(tree, chain, dir, current, line) is Done,
    ensures
        ({
            let (q, name) = declaration_of(line)->Some_0;
            let place = place_of(tree, dir, current, name);
            let out = flatten_line(tree, chain, dir, current, line)->Done_0;
            &&& place is Found
            &&& tree.entry(place->Found_0) is Some
            &&& tree.entry(place->Found_0)->Some_0 is File
            &&& flattened(tree, place->Found_1, name, tree.entry(place->Found_0)->Some_0->File_0@) is Done
            &&& out == wrapped(
                q,
                name,
                flattened(
                    tree,
                    place->Found_1,
                    name,
                    tree.entry(place->Found_0)->Some_0->File_0@,
                )->Done_0,
            )
        }),
{
    let (q, name) = declaration_of(line)->Some_0;
    if let Place::Found(file, sub) = place_of(tree, dir, current, name) {
        if let Some(Entry::File(text)) = tree.entry(file) {
            fewer_above_lines(tree, chain.push(file), Seq::empty(), sub, name, lines_of(text@));
        }
    }
}

} // verus!
