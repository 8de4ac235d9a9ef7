use phpfmt::comments::Comment;
use phpfmt::comments::CommentFlags;
use phpfmt::comments::CommentIndex;
use phpfmt::comments::CommentKind;
use phpfmt::discover::create_excludes_set;
use phpfmt::discover::file_admission;
use phpfmt::discover::is_accepted_file;
use phpfmt::discover::is_excluded;
use phpfmt::discover::Exclusion;
use phpfmt::document::Document;
use phpfmt::layout::render_to_string;
use phpfmt::settings::Settings;
use phpfmt::span::Span;

fn cv(s: &str) -> Vec<char> {
    s.chars().collect()
}

fn comment(start: usize, end: usize, text: &str) -> Comment {
    Comment { span: Span::new(start, end), kind: CommentKind::Line, text: cv(text) }
}

#[test]
fn leading_trailing_dangling_attachment() {
    // 0         1         2
    // 0123456789012345678901234567
    let src = b"// a\nfoo; // b\n{ // c\n}\n".to_vec();
    let comments = vec![comment(0, 4, "// a"), comment(10, 14, "// b"), comment(17, 21, "// c")];
    let idx = CommentIndex::new(src, comments);
    let leading_only = CommentFlags { leading: true, trailing: false, dangling: false };
    let trailing_only = CommentFlags { leading: false, trailing: true, dangling: false };
    let dangling_only = CommentFlags { leading: false, trailing: false, dangling: true };
    let stmt = Span::new(5, 9);
    assert!(idx.has_comment(stmt, leading_only));
    assert!(idx.has_comment(stmt, trailing_only));
    assert!(!idx.has_comment(stmt, dangling_only));
    let braces = Span::new(15, 23);
    assert!(idx.has_comment(braces, dangling_only));
    assert!(!idx.has_comment(Span::new(22, 23), dangling_only));
}

#[test]
fn next_line_empty_detection() {
    let src = b"a;\n\nb;\nc;\n".to_vec();
    let idx = CommentIndex::new(src, Vec::new());
    assert!(idx.is_next_line_empty(Span::new(0, 2)));
    assert!(!idx.is_next_line_empty(Span::new(4, 6)));
}

#[test]
fn dangling_comments_print_once() {
    let src = b"{ // c\n}\n".to_vec();
    let comments = vec![comment(2, 6, "// c")];
    let mut idx = CommentIndex::new(src, comments);
    let span = Span::new(0, 8);
    let first = idx.print_dangling_comments(span, true);
    let doc = first.expect("the dangling comment should be found");
    let text = render_to_string(&doc, &Settings::standard());
    assert!(text.contains("// c"));
    let again = idx.print_dangling_comments(span, true);
    assert!(again.is_none());
}

#[test]
fn dangling_comments_keep_order() {
    let src = b"{ // a\n // b\n}\n".to_vec();
    let comments = vec![comment(2, 6, "// a"), comment(8, 12, "// b")];
    let mut idx = CommentIndex::new(src, comments);
    let doc = idx.print_dangling_comments(Span::new(0, 14), false).expect("two dangling comments");
    let text = render_to_string(&doc, &Settings::standard());
    assert_eq!(text, "// a\n// b");
}

#[test]
fn excludes_set_classifies_entries() {
    let excludes = vec![cv("vendor/**"), cv("/tmp/cache"), cv("build")];
    let set = create_excludes_set(&excludes, &cv("/repo"));
    assert_eq!(set.len(), 3);
    match &set[0] {
        Exclusion::Pattern(p) => assert_eq!(p.iter().collect::<String>(), "vendor/**"),
        Exclusion::Path(_) => panic!("a wildcard entry must become a pattern"),
    }
    match &set[1] {
        Exclusion::Path(p) => assert_eq!(p.iter().collect::<String>(), "/tmp/cache"),
        Exclusion::Pattern(_) => panic!("an absolute entry must stay a path"),
    }
    match &set[2] {
        Exclusion::Path(p) => assert_eq!(p.iter().collect::<String>(), "/repo/build"),
        Exclusion::Pattern(_) => panic!("a relative entry must be joined to the root"),
    }
}

#[test]
fn exclusion_by_prefix_and_pattern() {
    let set = vec![
        Exclusion::Path(cv("/repo/build")),
        Exclusion::Pattern(cv("**/*.gen.php")),
    ];
    assert!(is_excluded(&cv("/repo/build/a.php"), &set));
    assert!(!is_excluded(&cv("/repo/builder/a.php"), &set));
    assert!(is_excluded(&cv("/repo/src/x.gen.php"), &set));
    assert!(!is_excluded(&cv("/repo/src/x.php"), &set));
}

#[test]
fn accepted_files_by_extension() {
    let none: Vec<Vec<char>> = Vec::new();
    assert!(is_accepted_file(&cv("/a/b.php"), &none));
    assert!(is_accepted_file(&cv("/a/b.PHP"), &none));
    assert!(!is_accepted_file(&cv("/a/b.txt"), &none));
    assert!(!is_accepted_file(&cv("/a/php"), &none));
    assert!(!is_accepted_file(&cv("/a/.php"), &none));
    let custom = vec![cv("phtml")];
    assert!(is_accepted_file(&cv("/a/b.phtml"), &custom));
    assert!(!is_accepted_file(&cv("/a/b.php"), &custom));
}

#[test]
fn admission_strips_root_prefix() {
    let set: Vec<Exclusion> = Vec::new();
    let includes: Vec<Vec<char>> = Vec::new();
    let exts: Vec<Vec<char>> = Vec::new();
    let name = file_admission(&cv("/repo/src/a.php"), &cv("/repo"), &includes, &set, &exts, true, true)
        .expect("the file should be admitted");
    assert_eq!(name.iter().collect::<String>(), "src/a.php");
}

#[test]
fn admission_handles_root_with_trailing_separator() {
    let set: Vec<Exclusion> = Vec::new();
    let includes: Vec<Vec<char>> = Vec::new();
    let exts: Vec<Vec<char>> = Vec::new();
    let name = file_admission(&cv("/repo/src/a.php"), &cv("/repo/"), &includes, &set, &exts, true, true)
        .expect("the file should be admitted");
    assert_eq!(name.iter().collect::<String>(), "src/a.php");
}

#[test]
fn admission_rejects_included_user_paths_and_excluded_files() {
    let includes = vec![cv("/repo/vendor")];
    let set = vec![Exclusion::Path(cv("/repo/build"))];
    let exts: Vec<Vec<char>> = Vec::new();
    assert!(file_admission(&cv("/repo/vendor/x.php"), &cv("/repo"), &includes, &set, &exts, true, true).is_none());
    assert!(file_admission(&cv("/repo/build/x.php"), &cv("/repo"), &includes, &set, &exts, false, true).is_none());
    assert!(file_admission(&cv("/repo/src/x.txt"), &cv("/repo"), &includes, &set, &exts, false, true).is_none());
    assert!(file_admission(&cv("/repo/src/x.php"), &cv("/repo"), &includes, &set, &exts, false, true).is_some());
}

#[test]
fn sanitized_text_replaces_impossible_newline() {
    let d = phpfmt::document::sanitized_text(cv("a\nb"));
    assert_eq!(render_to_string(&d, &Settings::standard()), "a b");
    let clean = phpfmt::document::sanitized_text(cv("ab"));
    match clean {
        Document::Text(v) => assert_eq!(v.iter().collect::<String>(), "ab"),
        _ => panic!("a clean text stays itself"),
    }
}
