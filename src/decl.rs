//! The shape of a module declaration line:
//! `[pub |pub(PATH) ]mod NAME;`, with NAME made of `a`-`z` and `_`, and PATH
//! of `a`-`z` and `:`.
use vstd::prelude::*;

verus! {

pub open spec fn is_name_char(c: char) -> bool {
    ('a' <= c && c <= 'z') || c == '_'
}

pub open spec fn is_path_char(c: char) -> bool {
    ('a' <= c && c <= 'z') || c == ':'
}

/// The name declared by `s` when `s` is `mod NAME;`.
pub open spec fn declared_name(s: Seq<char>) -> Option<Seq<char>> {
    if s.len() >= 5 && s.take(4) == "mod "@ && s.last() == ';' && (forall|i: int|
        4 <= i < s.len() - 1 ==> is_name_char(#[trigger] s[i])) {
        Some(s.subrange(4, s.len() - 1))
    } else {
        None
    }
}

/// How many characters of `s`, from `i` on, are path characters in a row.
pub open spec fn path_run(s: Seq<char>, i: int) -> nat
    decreases s.len() - i,
{
    if 0 <= i < s.len() && is_path_char(s[i]) {
        1 + path_run(s, i + 1)
    } else {
        0
    }
}

/// The length of the visibility qualifier, with its space, that `line`
/// starts with: `pub ` or `pub(PATH) `.
pub open spec fn qualifier_len(line: Seq<char>) -> Option<int> {
    if line.len() >= 4 && line.take(4) == "pub "@ {
        Some(4)
    } else if line.len() >= 4 && line.take(4) == "pub("@ {
        let j = 4 + path_run(line, 4) as int;
        if j + 1 < line.len() && line[j] == ')' && line[j + 1] == ' ' {
            Some(j + 2)
        } else {
            None
        }
    } else {
        None
    }
}

/// The qualifier (if any, with its space) and the name that the declaration
/// `line` holds; `None` when `line` is no declaration.
pub open spec fn declaration_of(line: Seq<char>) -> Option<(Option<Seq<char>>, Seq<char>)> {
    match declared_name(line) {
        Some(name) => Some((None, name)),
        None => match qualifier_len(line) {
            Some(k) => match declared_name(line.skip(k)) {
                Some(name) => Some((Some(line.take(k)), name)),
                None => None,
            },
            None => None,
        },
    }
}

/// A module declaration line, taken apart.
pub struct Declaration {
    /// The visibility qualifier as written, with the space after it.
    pub qualifier: Option<String>,
    pub name: String,
}

impl View for Declaration {
    type V = (Option<Seq<char>>, Seq<char>);

    open spec fn view(&self) -> (Option<Seq<char>>, Seq<char>) {
        (
            match self.qualifier {
                Some(q) => Some(q@),
                None => None,
            },
            self.name@,
        )
    }
}

} // verus!
