use rssg::filepath::FilePath;
use rssg::filter::Filter;
use rssg::tempfile::tempdir;

#[test]
fn staging_is_deterministic() {
    let p = FilePath::from_str("content/home/index.html").unwrap();
    let a = tempdir("default.html", &p);
    let b = tempdir("default.html", &p);
    assert_eq!(a.full(), b.full());
    assert!(a == b);
}

#[test]
fn distinct_identifiers_stage_apart() {
    let p = FilePath::from_str("content/home/index.html").unwrap();
    let a = tempdir("default.html", &p);
    let b = tempdir("other.html", &p);
    assert!(a != b);
}

#[test]
fn distinct_paths_stage_apart() {
    let a = tempdir("id", &FilePath::from_str("content/a.md").unwrap());
    let b = tempdir("id", &FilePath::from_str("content/b.md").unwrap());
    assert!(a != b);
}

#[test]
fn staged_path_lives_under_temp_and_keeps_name() {
    let p = FilePath::from_str("content/home/index.html").unwrap();
    let s = tempdir("default.html", &p);
    assert!(s.dir().starts_with("temp/"));
    assert_eq!(s.name(), "index");
    assert_eq!(s.ext(), "html");
}

#[test]
fn filter_tempdir_resolves_outfile_template() {
    let f = Filter::new(
        String::from("pandoc {full} -o {outfile}"),
        Some(String::from("{dir}/{name}.html")),
        false,
    );
    let p = FilePath::from_str("content/a.md").unwrap();
    let staged = f.tempdir(&p).unwrap();
    assert!(staged.dir().starts_with("temp/"));
    assert_eq!(staged.name(), "a");
    assert_eq!(staged.ext(), "html");
}

#[test]
fn filter_tempdir_rejects_directory_only_outfile() {
    let f = Filter::new(String::from("x"), Some(String::from("{dir}/")), false);
    let p = FilePath::from_str("content/a.md").unwrap();
    assert!(f.tempdir(&p).is_err());
}

#[test]
fn filter_prepare_binds_outfile() {
    let f = Filter::new(
        String::from("pandoc {full} -o {outfile}"),
        Some(String::from("{dir}/{name}.html")),
        false,
    );
    let p = FilePath::from_str("content/a.md").unwrap();
    let step = f.prepare(&p).unwrap();
    let out = step.outfile.unwrap();
    assert_eq!(step.tokens[0], "pandoc");
    assert_eq!(step.tokens[1], "content/a.md");
    assert_eq!(step.tokens[3], out.full());
}

#[test]
fn filter_without_outfile_prepares_in_place() {
    let f = Filter::new(String::from("lint {full}"), None, true);
    assert!(!f.has_outfile());
    let p = FilePath::from_str("content/a.md").unwrap();
    let step = f.prepare(&p).unwrap();
    assert!(step.outfile.is_none());
    assert_eq!(step.line, "lint content/a.md");
}
