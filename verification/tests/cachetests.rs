use rssg::cache::cache_file;
use rssg::cache::hash_file;
use rssg::cache::modified;
use rssg::cache::needs_rebuild;
use rssg::cache::read_cache;
use rssg::cache::template_modified;
use rssg::cache::write_cache;
use rssg::cache::Cache;
use rssg::filepath::FilePath;
use rssg::hashing::hash_str;

fn path(s: &str) -> FilePath {
    FilePath::from_str(s).unwrap()
}

#[test]
fn read_cache_parses_records() {
    let c = read_cache("content/a.md  12345\n");
    assert_eq!(c.len(), 1);
    assert_eq!(c.get(&path("content/a.md")), Some(12345));
    assert_eq!(c.get(&path("content/b.md")), None);
}

#[test]
fn read_cache_skips_malformed_lines() {
    let c = read_cache("not a record\ncontent/a.md  12345\nb.md  nonsense\nc.md 77\n\n");
    assert_eq!(c.len(), 1);
    assert_eq!(c.get(&path("content/a.md")), Some(12345));
}

#[test]
fn read_cache_skips_overflowing_hashes() {
    let c = read_cache("a.md  18446744073709551615\nb.md  18446744073709551616\n");
    assert_eq!(c.get(&path("a.md")), Some(u64::MAX));
    assert_eq!(c.get(&path("b.md")), None);
}

#[test]
fn absent_cache_is_empty() {
    let c = read_cache("");
    assert!(c.is_empty());
}

#[test]
fn write_then_read_round_trips() {
    let mut c = Cache::new();
    c.insert(path("content/a.md"), 1);
    c.insert(path("public/style.css"), 2);
    let text = write_cache(&c);
    assert_eq!(text, "content/a.md  1\npublic/style.css  2\n");
    let back = read_cache(&text);
    assert_eq!(back.get(&path("content/a.md")), Some(1));
    assert_eq!(back.get(&path("public/style.css")), Some(2));
    assert_eq!(back.len(), 2);
}

#[test]
fn insert_replaces_by_key() {
    let mut c = Cache::new();
    c.insert(path("a.md"), 1);
    c.insert(path("a.md"), 2);
    assert_eq!(c.len(), 1);
    assert_eq!(c.get(&path("a.md")), Some(2));
}

#[test]
fn remove_drops_the_entry() {
    let mut c = Cache::new();
    c.insert(path("a.md"), 1);
    c.insert(path("b.md"), 2);
    c.remove(&path("a.md"));
    assert_eq!(c.get(&path("a.md")), None);
    assert_eq!(c.get(&path("b.md")), Some(2));
}

#[test]
fn stale_hash_marks_the_file_modified() {
    let c = read_cache("content/a.md  12345\n");
    let m = modified(&c, &vec![(path("content/a.md"), 67890)]);
    assert_eq!(m.len(), 1);
    assert_eq!(m[0].full(), "content/a.md");
}

#[test]
fn unchanged_file_is_absent_from_modified() {
    let mut c = Cache::new();
    let body = "some file text";
    cache_file(&path("content/a.md"), body, &mut c);
    let m = modified(&c, &vec![(path("content/a.md"), hash_str(body))]);
    assert!(m.is_empty());
}

#[test]
fn uncached_file_is_modified() {
    let c = Cache::new();
    let m = modified(&c, &vec![(path("content/a.md"), 1)]);
    assert_eq!(m.len(), 1);
}

#[test]
fn hash_file_pairs_path_and_hash() {
    let (p, h) = hash_file("content/a.md", "body").unwrap();
    assert_eq!(p.full(), "content/a.md");
    assert_eq!(h, hash_str("body"));
    assert!(hash_file("content/", "body").is_none());
}

#[test]
fn hash_follows_the_fold() {
    assert_eq!(hash_str(""), 14695981039346656037);
    assert_eq!(hash_str("a"), 12638187200555641996);
    assert_eq!(hash_str("ab"), 620445648566982762);
}

#[test]
fn hash_is_stable_for_equal_text() {
    assert_eq!(hash_str("abc"), hash_str("abc"));
    assert_ne!(hash_str("abc"), hash_str("abd"));
    assert_ne!(hash_str(""), hash_str("a"));
}

#[test]
fn template_change_is_detected() {
    let m = vec![path("templates/base.html")];
    assert!(template_modified(&m, "templates"));
    let m = vec![path("templates/partials/nav.html")];
    assert!(template_modified(&m, "templates"));
    let m = vec![path("content/a.md")];
    assert!(!template_modified(&m, "templates"));
    assert!(!template_modified(&vec![], "templates"));
}

#[test]
fn template_change_forces_every_rebuild() {
    let f = path("content/untouched.md");
    assert!(needs_rebuild(&f, &vec![], true));
    assert!(!needs_rebuild(&f, &vec![], false));
    assert!(needs_rebuild(&f, &vec![path("content/untouched.md")], false));
}
