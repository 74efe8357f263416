use rssg::filepath::FilePath;

#[test]
fn parse_and_render_round_trip() {
    let p = FilePath::from_str("content/posts/a.md").unwrap();
    assert_eq!(p.full(), "content/posts/a.md");
    assert_eq!(p.dir(), "content/posts");
    assert_eq!(p.name(), "a");
    assert_eq!(p.ext(), "md");
}

#[test]
fn parse_without_directory() {
    let p = FilePath::from_str("a.md").unwrap();
    assert_eq!(p.full(), "a.md");
    assert_eq!(p.dir(), "");
    assert_eq!(p.name(), "a");
    assert_eq!(p.ext(), "md");
}

#[test]
fn parse_without_extension() {
    let p = FilePath::from_str("content/Makefile").unwrap();
    assert_eq!(p.full(), "content/Makefile");
    assert_eq!(p.name(), "Makefile");
    assert_eq!(p.ext(), "");
}

#[test]
fn parse_hidden_file_keeps_leading_dot() {
    let p = FilePath::from_str(".gitignore").unwrap();
    assert_eq!(p.name(), ".gitignore");
    assert_eq!(p.ext(), "");
    assert_eq!(p.full(), ".gitignore");
}

#[test]
fn parse_multi_dot_name() {
    let p = FilePath::from_str("a.b.c").unwrap();
    assert_eq!(p.name(), "a.b");
    assert_eq!(p.ext(), "c");
    assert_eq!(p.full(), "a.b.c");
}

#[test]
fn parse_rejects_directory_only() {
    assert!(FilePath::from_str("content/").is_none());
    assert!(FilePath::from_str("").is_none());
}

#[test]
fn strip_prefix_then_prefix_restores_dir() {
    let p = FilePath::from_str("content/sub/a.md").unwrap();
    let stripped = p.strip_prefix("content");
    assert_eq!(stripped.full(), "sub/a.md");
    let restored = stripped.prefix("content");
    assert_eq!(restored.full(), "content/sub/a.md");
}

#[test]
fn strip_prefix_whole_dir() {
    let p = FilePath::from_str("content/a.md").unwrap();
    let stripped = p.strip_prefix("content");
    assert_eq!(stripped.full(), "a.md");
    let restored = stripped.prefix("content");
    assert_eq!(restored.full(), "content/a.md");
}

#[test]
fn strip_prefix_is_noop_when_dir_does_not_start_with_it() {
    let p = FilePath::from_str("content/a.md").unwrap();
    assert_eq!(p.clone().strip_prefix("cont").full(), "content/a.md");
    assert_eq!(p.strip_prefix("public").full(), "content/a.md");
}

#[test]
fn prefix_tolerates_trailing_slash() {
    let p = FilePath::from_str("a.md").unwrap();
    assert_eq!(p.prefix("output/").full(), "output/a.md");
}

#[test]
fn strip_prefix_tolerates_trailing_slash() {
    let p = FilePath::from_str("content/a.md").unwrap();
    assert_eq!(p.strip_prefix("content/").full(), "a.md");
}

#[test]
fn new_is_empty() {
    let p = FilePath::new();
    assert_eq!(p.full(), "");
    assert_eq!(p.dir(), "");
}

#[test]
fn equality_compares_parts() {
    let a = FilePath::from_str("content/a.md").unwrap();
    let b = FilePath::from_str("content/a.md").unwrap();
    let c = FilePath::from_str("content/b.md").unwrap();
    assert!(a == b);
    assert!(a != c);
}
