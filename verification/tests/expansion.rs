use niri_core::paths::{resolve, SourcedPaths};
use niri_core::utils::{
    expand_source_file, source_spans, ConfigParseError, Expansion, Span, Step,
};

type Failure = ConfigParseError<String, String>;

struct Run {
    outcome: Result<String, Failure>,
    sourced_paths: SourcedPaths,
    /// The paths that were read, in order.
    read: Vec<String>,
    /// The names and texts that were parsed, in order.
    parsed: Vec<(String, String)>,
}

/// Expands a file among files that are held in memory. A text that holds `BAD` cannot be parsed.
fn run(files: &[(&str, &str)], path: &str, sourced_paths: SourcedPaths) -> Run {
    let mut expansion: Expansion<String, String> =
        expand_source_file(path.to_owned(), sourced_paths);
    let mut read = Vec::new();
    let mut parsed = Vec::new();
    for _ in 0..1000 {
        let next = match expansion.step() {
            Step::Read(path) => Some(Ok(path.clone())),
            Step::Parse { name, text } => Some(Err((name.clone(), text.clone()))),
            Step::Finished(_) => None,
        };
        match next {
            Some(Ok(path)) => {
                let reply = match files.iter().find(|(name, _)| *name == path) {
                    Some((_, content)) => Ok((*content).to_owned()),
                    None => Err(format!("no file {}", path)),
                };
                read.push(path);
                expansion.file_read(reply);
            }
            Some(Err((name, text))) => {
                let reply =
                    if text.contains("BAD") { Err(format!("bad text in {}", name)) } else { Ok(()) };
                parsed.push((name, text));
                expansion.text_parsed(reply);
            }
            None => {
                let (step, sourced_paths) = expansion.into_parts();
                return match step {
                    Step::Finished(outcome) => Run { outcome, sourced_paths, read, parsed },
                    _ => unreachable!(),
                };
            }
        }
    }
    panic!("the expansion goes on and on")
}

fn text(run: &Run) -> &str {
    match &run.outcome {
        Ok(text) => text,
        Err(_) => panic!("the expansion failed"),
    }
}

#[test]
fn a_file_that_sources_nothing_is_kept() {
    let content = "input { }\n// source \"a.kdl\"\nbinds { source \"b.kdl\" }\n";
    let run = run(&[("/niri/config.kdl", content)], "/niri/config.kdl", SourcedPaths::new());
    assert_eq!(text(&run), content);
    assert_eq!(run.read, ["/niri/config.kdl"]);
    assert!(run.parsed.is_empty());
}

#[test]
fn the_text_of_a_sourced_file_takes_the_place_of_its_name() {
    let files = [
        ("/niri/config.kdl", "first\nsource \"binds.kdl\"\nlast\n"),
        ("/niri/binds.kdl", "binds { }"),
    ];
    let run = run(&files, "/niri/config.kdl", SourcedPaths::new());
    assert_eq!(text(&run), "first\nsource \"binds { }\"\nlast\n");
    assert_eq!(run.read, ["/niri/config.kdl", "/niri/binds.kdl"]);
    // A sourced text is parsed under the name of the file that sources it.
    assert_eq!(run.parsed, [("/niri/config.kdl".to_owned(), "binds { }".to_owned())]);
    assert_eq!(run.sourced_paths.get("/niri/binds.kdl"), Some(false));
    assert_eq!(run.sourced_paths.get("/niri/config.kdl"), None);
}

#[test]
fn sourced_files_source_others() {
    let files = [
        ("/n/c.kdl", "source \"sub/a.kdl\"\nsource \"/abs/b.kdl\"\n"),
        ("/n/sub/a.kdl", "<\nsource \"inner.kdl\"\n>"),
        ("/n/sub/inner.kdl", "inner"),
        ("/abs/b.kdl", "b"),
    ];
    let run = run(&files, "/n/c.kdl", SourcedPaths::new());
    assert_eq!(text(&run), "source \"<\nsource \"inner\"\n>\"\nsource \"b\"\n");
    assert_eq!(run.read, ["/n/c.kdl", "/n/sub/a.kdl", "/n/sub/inner.kdl", "/abs/b.kdl"]);
    let names: Vec<&str> = run.parsed.iter().map(|(name, _)| name.as_str()).collect();
    assert_eq!(names, ["/n/sub/a.kdl", "/n/c.kdl", "/n/c.kdl"]);
    assert_eq!(run.parsed[1].1, "<\nsource \"inner\"\n>");
}

#[test]
fn a_file_can_be_sourced_twice_in_a_row() {
    let files =
        [("/n/c.kdl", "source \"a.kdl\"\nsource \"a.kdl\"\n"), ("/n/a.kdl", "again")];
    let run = run(&files, "/n/c.kdl", SourcedPaths::new());
    assert_eq!(text(&run), "source \"again\"\nsource \"again\"\n");
    assert_eq!(run.sourced_paths.get("/n/a.kdl"), Some(false));
}

#[test]
fn a_circle_is_refused() {
    let files = [
        ("/n/c.kdl", "source \"a.kdl\"\n"),
        ("/n/a.kdl", "source \"b.kdl\"\n"),
        ("/n/b.kdl", "source \"./a.kdl\"\n"),
    ];
    let run = run(&files, "/n/c.kdl", SourcedPaths::new());
    match run.outcome {
        Err(ConfigParseError::CircularSourceError(file, source)) => {
            assert_eq!(file, "/n/b.kdl");
            assert_eq!(source, "/n/./a.kdl");
        }
        _ => panic!("the circle was accepted"),
    }
    // The files of the circle are left as in progress.
    assert_eq!(run.sourced_paths.get("/n/a.kdl"), Some(true));
    assert_eq!(run.sourced_paths.get("/n/b.kdl"), Some(true));
    assert!(run.parsed.is_empty());
}

#[test]
fn a_file_that_sources_itself_is_refused_at_the_second_level() {
    let files = [("/n/c.kdl", "source \"c.kdl\"\n")];
    let run = run(&files, "/n/c.kdl", SourcedPaths::new());
    // The file that the expansion starts with is not recorded, so it is read once more.
    assert_eq!(run.read, ["/n/c.kdl", "/n/c.kdl"]);
    assert!(matches!(run.outcome, Err(ConfigParseError::CircularSourceError(_, _))));
}

#[test]
fn a_path_in_progress_may_not_be_sourced() {
    let files = [("/n/c.kdl", "source \"a.kdl\"\n"), ("/n/a.kdl", "a")];
    let mut table = SourcedPaths::new();
    assert_eq!(table.insert("/n/a.kdl", true), None);
    let refused = run(&files, "/n/c.kdl", table);
    match refused.outcome {
        Err(ConfigParseError::CircularSourceError(file, source)) => {
            assert_eq!((file.as_str(), source.as_str()), ("/n/c.kdl", "/n/a.kdl"));
        }
        _ => panic!("the path was sourced"),
    }
    let mut table = SourcedPaths::new();
    assert_eq!(table.insert("/n/a.kdl", false), None);
    assert_eq!(text(&run(&files, "/n/c.kdl", table)), "source \"a\"\n");
}

#[test]
fn a_missing_file_is_an_io_error() {
    let run = run(&[("/n/c.kdl", "source \"a.kdl\"")], "/n/c.kdl", SourcedPaths::new());
    assert!(matches!(run.outcome, Err(ConfigParseError::IoError(e)) if e == "no file /n/a.kdl"));
    assert_eq!(run.sourced_paths.get("/n/a.kdl"), Some(true));
}

#[test]
fn a_sourced_text_has_to_be_parsed() {
    let files = [("/n/c.kdl", "source \"a.kdl\"\nsource \"b.kdl\""), ("/n/a.kdl", "BAD")];
    let run = run(&files, "/n/c.kdl", SourcedPaths::new());
    assert!(
        matches!(run.outcome, Err(ConfigParseError::ParseError(e)) if e == "bad text in /n/c.kdl")
    );
    assert_eq!(run.read, ["/n/c.kdl", "/n/a.kdl"]);
    assert_eq!(run.sourced_paths.get("/n/a.kdl"), Some(false));
}

#[test]
fn the_text_of_the_first_file_is_not_parsed() {
    let run = run(&[("/n/c.kdl", "BAD")], "/n/c.kdl", SourcedPaths::new());
    assert_eq!(text(&run), "BAD");
}

#[test]
fn a_root_has_no_parent() {
    let run = run(&[("/", "what a root holds")], "/", SourcedPaths::new());
    assert!(matches!(run.outcome, Err(ConfigParseError::NoParent(path)) if path == "/"));
}

#[test]
fn a_bare_name_is_found_in_the_current_directory() {
    let files = [("c.kdl", "source \"a.kdl\""), ("a.kdl", "a")];
    let run = run(&files, "c.kdl", SourcedPaths::new());
    assert_eq!(text(&run), "source \"a\"");
    assert_eq!(run.read, ["c.kdl", "a.kdl"]);
}

#[test]
fn statements_are_found_whatever_their_case() {
    let found = |text: &str| -> Vec<String> {
        source_spans(text).iter().map(|s| text[s.start..s.end].to_owned()).collect()
    };
    assert_eq!(found("  SOURCE\t\"A.KDL\"  \nSource \"b.Kdl\"\n"), ["A.KDL", "b.Kdl"]);
    assert_eq!(found("source \"größe/ä.kdl\"\r\nsource \"c.kdl\""), ["größe/ä.kdl", "c.kdl"]);
    // A name goes on to the last quote of its line.
    assert_eq!(found("source \"a.kdl\" \"b.kdl\""), ["a.kdl\" \"b.kdl"]);
    assert_eq!(found("source \"a.kdl\" // twice"), Vec::<String>::new());
    assert_eq!(found("source \"a.txt\""), Vec::<String>::new());
    assert_eq!(found("source \".kdl\""), Vec::<String>::new());
    assert_eq!(found("resource \"a.kdl\""), Vec::<String>::new());
    assert_eq!(found("source\"a.kdl\""), Vec::<String>::new());
    assert_eq!(found(""), Vec::<String>::new());
}

#[test]
fn spans_count_bytes() {
    let spans = source_spans("ä\nsource \"ö.kdl\"\n");
    assert_eq!(spans, [Span { start: 11, end: 17 }]);
}

#[test]
fn text_beyond_ascii_is_kept() {
    let files = [("/n/c.kdl", "→\nsource \"ö.kdl\"\n←"), ("/n/ö.kdl", "日本")];
    let run = run(&files, "/n/c.kdl", SourcedPaths::new());
    assert_eq!(text(&run), "→\nsource \"日本\"\n←");
}

#[test]
fn a_searched_file_is_expanded_by_its_spans() {
    let mut expansion: Expansion<String, String> =
        expand_source_file("c".to_owned(), SourcedPaths::new());
    let spans = vec![Span { start: 1, end: 2 }, Span { start: 2, end: 4 }];
    expansion.file_searched(Some("/d".to_owned()), "[xyz]".to_owned(), spans);
    assert!(matches!(expansion.step(), Step::Read(path) if path == "/d/x"));
    expansion.file_searched(Some("/".to_owned()), "one".to_owned(), Vec::new());
    assert!(
        matches!(expansion.step(), Step::Parse { name, text } if name == "c" && text == "one")
    );
    expansion.text_parsed(Ok(()));
    assert!(matches!(expansion.step(), Step::Read(path) if path == "/d/yz"));
    expansion.file_searched(Some("/".to_owned()), "two".to_owned(), Vec::new());
    expansion.text_parsed(Ok(()));
    assert!(matches!(expansion.step(), Step::Finished(Ok(text)) if text == "[onetwo]"));
}

#[test]
fn paths_are_resolved() {
    assert_eq!(resolve("/etc/niri", "binds.kdl"), "/etc/niri/binds.kdl");
    assert_eq!(resolve("/etc/niri", "../binds.kdl"), "/etc/niri/../binds.kdl");
    assert_eq!(resolve("/etc/niri", "/home/binds.kdl"), "/home/binds.kdl");
    assert_eq!(resolve("", "binds.kdl"), "binds.kdl");
}

#[test]
fn the_table_knows_paths_by_their_components() {
    let mut table = SourcedPaths::new();
    assert_eq!(table.get("/a/b"), None);
    assert_eq!(table.insert("/a/b", true), None);
    assert_eq!(table.get("/a//./b/"), Some(true));
    assert_eq!(table.insert("/a/./b", false), Some(true));
    assert_eq!(table.get("/a/b"), Some(false));
    assert_eq!(table.get("a/b"), None);
    assert_eq!(table.get("/a/c/../b"), None);
    assert_eq!(table.insert("/a/c", true), None);
    assert_eq!(table.get("/a/b"), Some(false));
    assert_eq!(table.get("/a/c"), Some(true));
}

#[test]
fn the_table_can_be_walked() {
    let mut table = SourcedPaths::new();
    assert!(table.entries().is_empty());
    table.insert("/a/b", true);
    table.insert("c", true);
    table.insert("/a//b", false);
    let mut entries: Vec<(String, bool)> =
        table.entries().iter().map(|e| (e.components.join(","), e.in_progress)).collect();
    entries.sort();
    assert_eq!(entries, [("/,a,b".to_owned(), false), ("c".to_owned(), true)]);
}

#[test]
fn expanding_again_changes_nothing() {
    let files = [
        ("/n/c.kdl", "source \"a.kdl\"\nsource \"d.kdl\"\n"),
        ("/n/a.kdl", "source \"d.kdl\"\n"),
        ("/n/d.kdl", "d"),
    ];
    let mut table = SourcedPaths::new();
    table.insert("/other", true);
    table.insert("/n/d.kdl", false);
    let first = run(&files, "/n/c.kdl", table);
    let expected = text(&first).to_owned();
    let marks = |table: &SourcedPaths| -> Vec<Option<bool>> {
        ["/n/a.kdl", "/n/d.kdl", "/other", "/n/c.kdl"].iter().map(|p| table.get(p)).collect()
    };
    assert_eq!(marks(&first.sourced_paths), [Some(false), Some(false), Some(true), None]);
    let second = run(&files, "/n/c.kdl", first.sourced_paths);
    assert_eq!(text(&second), expected);
    assert_eq!(marks(&second.sourced_paths), [Some(false), Some(false), Some(true), None]);
    assert_eq!(second.sourced_paths.entries().len(), 3);
}

#[test]
fn entries_that_are_not_in_progress_make_no_difference() {
    let files = [("/n/c.kdl", "source \"a.kdl\"\n"), ("/n/a.kdl", "a")];
    let mut table = SourcedPaths::new();
    table.insert("/n/a.kdl", false);
    table.insert("/n/b.kdl", false);
    let with = run(&files, "/n/c.kdl", table);
    let without = run(&files, "/n/c.kdl", SourcedPaths::new());
    assert_eq!(text(&with), text(&without));
}
