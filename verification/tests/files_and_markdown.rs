use contui::file_access::{absolute_path, check_path_of, stamped_filename, FileAccessError, FileAccessManager, NameStep};
use contui::markdown::{render_markdown, wrap_text, StyledLine, TermColor};

fn allowed_manager() -> FileAccessManager {
    let mut m = FileAccessManager::new();
    assert_eq!(m.add_allowed_directory("/home/u/proj".to_string(), true), Ok(()));
    m
}

#[test]
fn new_manager_allows_nothing() {
    let m = FileAccessManager::new();
    assert!(!m.is_path_allowed("/"));
    assert!(!m.is_path_allowed("/home/u/proj/a.txt"));
    assert_eq!(m.read_file("/home/u/proj/a.txt"), Err(FileAccessError::AccessDenied));
}

#[test]
fn allowed_directories_cover_their_subtrees() {
    let mut m = allowed_manager();
    assert!(m.is_path_allowed("/home/u/proj"));
    assert!(m.is_path_allowed("/home/u/proj/src/main.rs"));
    assert!(!m.is_path_allowed("/home/u/project"));
    assert!(!m.is_path_allowed("/home/u"));
    assert_eq!(m.add_allowed_directory("/etc/hosts".to_string(), false), Err(FileAccessError::NotADirectory));
    assert!(!m.is_path_allowed("/etc/hosts"));
    assert_eq!(m.add_allowed_directory("/tmp".to_string(), true), Ok(()));
    assert!(m.is_path_allowed("/tmp/x"));
    assert!(m.is_path_allowed("/home/u/proj/x"));
}

#[test]
fn reads_and_appends_are_guarded() {
    let m = allowed_manager();
    assert_eq!(m.read_file("/home/u/proj/a.txt"), Ok(()));
    assert_eq!(m.read_file("/etc/passwd"), Err(FileAccessError::AccessDenied));
    assert_eq!(m.append_to_file("/home/u/proj/a.txt", true), Ok(()));
    assert_eq!(m.append_to_file("/home/u/proj/a.txt", false), Err(FileAccessError::NotFound));
    assert_eq!(m.append_to_file("/etc/passwd", true), Err(FileAccessError::AccessDenied));
}

#[test]
fn listing_is_sorted_with_directories_marked() {
    let m = allowed_manager();
    let entries = vec![
        ("b".to_string(), false),
        ("a".to_string(), true),
        ("C.txt".to_string(), false),
        ("c.txt".to_string(), false),
    ];
    assert_eq!(
        m.list_directory("/home/u/proj", &entries),
        Ok(vec!["C.txt".to_string(), "a/".to_string(), "b".to_string(), "c.txt".to_string()])
    );
    assert_eq!(m.list_directory("/etc", &entries), Err(FileAccessError::AccessDenied));
    assert_eq!(m.list_directory("/home/u/proj", &vec![]), Ok(vec![]));
}

#[test]
fn creation_goes_to_the_parent() {
    assert_eq!(FileAccessManager::creation_dir("notes.txt"), ".");
    assert_eq!(FileAccessManager::creation_dir("dir/notes.txt"), "dir");
    assert_eq!(FileAccessManager::creation_dir("/notes.txt"), "/");
}

#[test]
fn unique_names_are_numbered() {
    let m = FileAccessManager::new();
    match m.generate_unique_filename("dir/a.txt", 0, false) {
        NameStep::Use(p) => assert_eq!(p, "dir/a.txt"),
        other => panic!("unexpected {:?}", other),
    }
    match m.generate_unique_filename("dir/a.txt", 0, true) {
        NameStep::Check(p) => assert_eq!(p, "dir/a_1.txt"),
        other => panic!("unexpected {:?}", other),
    }
    match m.generate_unique_filename("dir/a.txt", 1, true) {
        NameStep::Check(p) => assert_eq!(p, "dir/a_2.txt"),
        other => panic!("unexpected {:?}", other),
    }
    match m.generate_unique_filename("dir/a.txt", 5, false) {
        NameStep::Use(p) => assert_eq!(p, "dir/a_5.txt"),
        other => panic!("unexpected {:?}", other),
    }
    assert!(matches!(m.generate_unique_filename("dir/a.txt", 9999, true), NameStep::Stamp));
    assert_eq!(FileAccessManager::numbered("a.tar.gz", 2), "a.tar_2.gz");
    assert_eq!(FileAccessManager::numbered("README", 1), "README_1");
    assert_eq!(FileAccessManager::numbered(".bashrc", 3), ".bashrc_3");
    assert_eq!(stamped_filename("d/f.txt", 1700000000), "d/f_1700000000.txt");
}

#[test]
fn replacement_needs_access_file_and_text() {
    let m = allowed_manager();
    assert_eq!(m.replace_content("/home/u/proj/f", true, "a b a", "a", "xy"), Ok("xy b xy".to_string()));
    assert_eq!(m.replace_content("/home/u/proj/f", true, "a b a", "z", "xy"), Err(FileAccessError::OldStringNotFound));
    assert_eq!(m.replace_content("/home/u/proj/f", false, "a b a", "a", "xy"), Err(FileAccessError::NotFound));
    assert_eq!(m.replace_content("/etc/f", true, "a b a", "a", "xy"), Err(FileAccessError::AccessDenied));
    assert_eq!(m.replace_content("/home/u/proj/f", true, "aaa", "aa", "b"), Ok("ba".to_string()));
}

#[test]
fn paths_are_resolved() {
    assert_eq!(absolute_path("rel/x", "/home"), "/home/rel/x");
    assert_eq!(absolute_path("/abs", "/home"), "/abs");
    assert_eq!(check_path_of("/a/b.txt", false, None), "/a");
    assert_eq!(check_path_of("/a/b.txt", true, Some("/real/b.txt".to_string())), "/real/b.txt");
    assert_eq!(check_path_of("/a/b.txt", true, None), "/a/b.txt");
    assert_eq!(check_path_of("/", false, None), "/");
}

#[test]
fn wrapping_fills_words_and_breaks_long_ones() {
    assert_eq!(wrap_text("hello world", 0), "hello world");
    assert_eq!(wrap_text("hello world foo", 11), "hello world\nfoo");
    assert_eq!(wrap_text("abcdefghij", 4), "abcd\nefgh\nij");
    assert_eq!(wrap_text("", 5), "");
    assert_eq!(wrap_text("short\n\nx", 10), "short\n\nx");
    assert_eq!(wrap_text("日本語テキスト", 6), "日本語\nテキス\nト");
    assert_eq!(wrap_text("aa bbbbbb c", 4), "aa\nbbbb\nbb c");
}

fn texts(line: &StyledLine) -> Vec<&str> {
    line.spans.iter().map(|s| s.text.as_str()).collect()
}

#[test]
fn markdown_styles_follow_the_markup() {
    let lines = render_markdown("Hello **bold** and *it*\nnext", 80);
    assert_eq!(lines.len(), 1);
    assert_eq!(texts(&lines[0]), vec!["Hello ", "bold", " and ", "it", " ", "next"]);
    assert!(!lines[0].spans[0].style.bold);
    assert!(lines[0].spans[1].style.bold);
    assert!(!lines[0].spans[2].style.bold);
    assert!(lines[0].spans[3].style.italic);
    assert!(!lines[0].spans[4].style.italic);

    let lines = render_markdown("a `x` b", 80);
    assert_eq!(texts(&lines[0]), vec!["a ", "x", " b"]);
    assert_eq!(lines[0].spans[1].style.fg, Some(TermColor::Magenta));

    let lines = render_markdown("para\n\n```\nfn a\n```\n", 80);
    assert_eq!(lines.len(), 2);
    assert_eq!(texts(&lines[0]), vec!["para"]);
    assert_eq!(texts(&lines[1]), vec!["fn a\n"]);
    assert_eq!(lines[1].spans[0].style.fg, Some(TermColor::Cyan));

    let lines = render_markdown("one  \ntwo", 80);
    assert_eq!(lines.len(), 2);
    assert_eq!(texts(&lines[0]), vec!["one"]);
    assert_eq!(texts(&lines[1]), vec!["two"]);
    assert!(render_markdown("", 80).is_empty());
}

#[test]
fn empty_search_text_is_everywhere() {
    let m = allowed_manager();
    assert_eq!(m.replace_content("/home/u/proj/f", true, "abc", "", "x"), Ok("xaxbxcx".to_string()));
    assert_eq!(m.replace_content("/home/u/proj/f", true, "", "", "x"), Ok("x".to_string()));
    assert_eq!(FileAccessManager::new().replace_content("/home/u/proj/f", true, "abc", "", "x"), Err(FileAccessError::AccessDenied));
    assert_eq!("abc".replace("", "x"), "xaxbxcx");
}

#[test]
fn wrapped_lines_fit_and_keep_every_visible_character() {
    let text = "the quick brown fox jumps over the lazy dog\nsupercalifragilistic is long";
    for width in 1..20 {
        let r = wrap_text(text, width);
        assert!(r.split('\n').all(|l| l.chars().count() <= width), "width {}", width);
        let visible = |s: &str| s.chars().filter(|c| !c.is_whitespace()).collect::<String>();
        assert_eq!(visible(&r), visible(text));
    }
    assert_eq!(wrap_text("fits\nhere too", 8), "fits\nhere too");
    assert_eq!(wrap_text("anything at all", 0), "anything at all");
}
