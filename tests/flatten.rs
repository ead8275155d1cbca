use modflatten::inline::{FlattenError, Outcome, RegexContext, ROOT_MODULE};
use modflatten::path::join;
use modflatten::resolve::{resolve, Resolution};
use modflatten::tree::{Entry, FileTree};

/// What a fake disk holds at a path.
#[derive(Clone, Copy)]
enum Disk {
    Dir,
    Text(&'static str),
    Broken,
}

fn probe(disk: &[(&str, Disk)], path: &str) -> Entry {
    match disk.iter().find(|(p, _)| *p == path) {
        None => Entry::Missing,
        Some((_, Disk::Dir)) => Entry::Directory,
        Some((_, Disk::Text(t))) => Entry::File(t.to_string()),
        Some((_, Disk::Broken)) => Entry::Unreadable,
    }
}

/// Flattens `text`, read as the root document in `dir`, answering each path
/// the library asks about from `disk`.
fn run(disk: &[(&str, Disk)], dir: &str, text: &str) -> Outcome {
    let ctx = RegexContext::new().unwrap();
    let mut tree = FileTree::new();
    for _ in 0..100 {
        match ctx.process(&tree, dir, ROOT_MODULE, text) {
            Outcome::Needs(p) => {
                let e = probe(disk, &p);
                tree.record(p, e);
            }
            other => return other,
        }
    }
    panic!("too many paths asked for");
}

fn done(s: &str) -> Outcome {
    Outcome::Done(s.to_string())
}

#[test]
fn sibling_file_then_nested_directory() {
    let disk = [("root/a.rs", Disk::Text("mod b;\n")), ("root/a", Disk::Dir), ("root/a/b.rs", Disk::Text("x"))];
    assert_eq!(run(&disk, "root", "mod a;\n"), done("mod a {\nmod b {\nx\n}\n}\n"));
}

#[test]
fn missing_module_is_unresolved() {
    let disk = [("root/lib.rs", Disk::Text("mod missing;\n"))];
    assert_eq!(
        run(&disk, "root", "mod missing;\n"),
        Outcome::Failed(FlattenError::Unresolved { module: "missing".to_string() })
    );
}

#[test]
fn commented_declaration_passes_through() {
    assert_eq!(run(&[], "root", "// mod a;"), done("// mod a;\n"));
}

#[test]
fn plain_text_is_kept_with_newlines_normalized() {
    assert_eq!(run(&[], "root", "fn f() {}\r\nlet x = 1;\n\nend"), done("fn f() {}\nlet x = 1;\n\nend\n"));
    assert_eq!(run(&[], "root", ""), done(""));
    assert_eq!(run(&[], "root", "a\rb\r"), done("a\rb\r\n"));
}

#[test]
fn lines_not_of_the_declaration_shape_pass_through() {
    let disk = [("root/a.rs", Disk::Text("y"))];
    for line in ["mod A;", "mod a; ", " mod a;", "mod a", "pub(in crate::x) mod a;", "pub  mod a;", "mod a1;"] {
        assert_eq!(run(&disk, "root", line), done(&format!("{line}\n")));
    }
}

#[test]
fn qualifiers_are_kept_verbatim() {
    let disk = [("root/a.rs", Disk::Text("y\n"))];
    assert_eq!(run(&disk, "root", "pub mod a;"), done("pub mod a {\ny\n}\n"));
    assert_eq!(run(&disk, "root", "pub(crate) mod a;"), done("pub(crate) mod a {\ny\n}\n"));
    assert_eq!(run(&disk, "root", "pub(super::x) mod a;"), done("pub(super::x) mod a {\ny\n}\n"));
    assert_eq!(run(&disk, "root", "pub() mod a;"), done("pub() mod a {\ny\n}\n"));
}

#[test]
fn chain_of_three_nests_three_levels() {
    let disk = [
        ("root/lib", Disk::Dir),
        ("root/lib/a.rs", Disk::Text("pub mod b;\n")),
        ("root/lib/a", Disk::Dir),
        ("root/lib/a/b.rs", Disk::Text("pub(crate) mod c;\n")),
        ("root/lib/a/b", Disk::Dir),
        ("root/lib/a/b/c.rs", Disk::Text("leaf\n")),
    ];
    assert_eq!(
        run(&disk, "root", "mod a;\n"),
        done("mod a {\npub mod b {\npub(crate) mod c {\nleaf\n}\n}\n}\n")
    );
}

#[test]
fn nested_file_wins_over_sibling_file() {
    let disk = [
        ("root/lib", Disk::Dir),
        ("root/lib/a.rs", Disk::Text("nested")),
        ("root/a.rs", Disk::Text("sibling")),
    ];
    assert_eq!(run(&disk, "root", "mod a;"), done("mod a {\nnested\n}\n"));
}

#[test]
fn index_file_wins_over_sibling_file() {
    let disk = [
        ("root/a", Disk::Dir),
        ("root/a/mod.rs", Disk::Text("index")),
        ("root/a.rs", Disk::Text("sibling")),
    ];
    assert_eq!(run(&disk, "root", "mod a;"), done("mod a {\nindex\n}\n"));
}

#[test]
fn index_file_children_live_in_its_directory() {
    let disk = [
        ("root/a", Disk::Dir),
        ("root/a/mod.rs", Disk::Text("mod b;")),
        ("root/a/b.rs", Disk::Text("inner")),
    ];
    assert_eq!(run(&disk, "root", "mod a;"), done("mod a {\nmod b {\ninner\n}\n}\n"));
}

#[test]
fn directory_without_the_file_falls_through() {
    let disk = [("root/lib", Disk::Dir), ("root/a", Disk::Dir), ("root/a.rs", Disk::Text("s"))];
    assert_eq!(run(&disk, "root", "mod a;"), done("mod a {\ns\n}\n"));
}

#[test]
fn unreadable_file_fails() {
    let disk = [("root/a.rs", Disk::Broken)];
    assert_eq!(
        run(&disk, "root", "x\nmod a;\n"),
        Outcome::Failed(FlattenError::Unreadable { path: "root/a.rs".to_string() })
    );
}

#[test]
fn self_declaring_module_is_circular() {
    let disk = [("root/a.rs", Disk::Text("mod a;"))];
    assert_eq!(
        run(&disk, "root", "mod a;"),
        Outcome::Failed(FlattenError::Circular { path: "root/a.rs".to_string() })
    );
}

#[test]
fn first_failure_in_line_order_wins() {
    let disk = [("root/b.rs", Disk::Broken)];
    assert_eq!(
        run(&disk, "root", "mod a;\nmod b;\n"),
        Outcome::Failed(FlattenError::Unresolved { module: "a".to_string() })
    );
}

#[test]
fn root_in_the_current_directory() {
    let disk = [("a.rs", Disk::Text("t"))];
    assert_eq!(run(&disk, "", "mod a;"), done("mod a {\nt\n}\n"));
}

#[test]
fn resolve_asks_in_order() {
    let mut tree = FileTree::new();
    assert_eq!(resolve(&tree, "d", "cur", "t"), Resolution::Needs("d/cur".to_string()));
    tree.record("d/cur".to_string(), Entry::Directory);
    assert_eq!(resolve(&tree, "d", "cur", "t"), Resolution::Needs("d/cur/t.rs".to_string()));
    tree.record("d/cur/t.rs".to_string(), Entry::Missing);
    assert_eq!(resolve(&tree, "d", "cur", "t"), Resolution::Needs("d/t".to_string()));
    tree.record("d/t".to_string(), Entry::Missing);
    assert_eq!(resolve(&tree, "d", "cur", "t"), Resolution::Needs("d/t.rs".to_string()));
    tree.record("d/t.rs".to_string(), Entry::Missing);
    assert_eq!(resolve(&tree, "d", "cur", "t"), Resolution::NotFound);
    tree.record("d/t.rs".to_string(), Entry::File(String::new()));
    assert_eq!(
        resolve(&tree, "d", "cur", "t"),
        Resolution::Found { file: "d/t.rs".to_string(), dir: "d".to_string() }
    );
}

#[test]
fn resolve_prefers_nested_file() {
    let mut tree = FileTree::new();
    tree.record("d/cur".to_string(), Entry::Directory);
    tree.record("d/cur/t.rs".to_string(), Entry::File("n".to_string()));
    tree.record("d/t.rs".to_string(), Entry::File("s".to_string()));
    assert_eq!(
        resolve(&tree, "d", "cur", "t"),
        Resolution::Found { file: "d/cur/t.rs".to_string(), dir: "d/cur".to_string() }
    );
}

#[test]
fn later_record_replaces_earlier() {
    let mut tree = FileTree::new();
    let p = "x".to_string();
    assert_eq!(tree.lookup(&p), None);
    tree.record(p.clone(), Entry::Missing);
    tree.record(p.clone(), Entry::Directory);
    assert_eq!(tree.lookup(&p), Some(&Entry::Directory));
}

#[test]
fn join_adds_one_separator() {
    assert_eq!(join("", "a"), "a");
    assert_eq!(join("d", "a"), "d/a");
    assert_eq!(join("d/", "a"), "d/a");
    assert_eq!(join("/", "a.rs"), "/a.rs");
}

#[test]
fn pattern_compiles() {
    assert!(RegexContext::new().is_ok());
}
