use rssg::command::Command;
use rssg::command::substitute;
use rssg::filepath::FilePath;

#[test]
fn substitute_fills_all_placeholders() {
    let p = FilePath::from_str("content/a.md").unwrap();
    let s = substitute("cp {full} {dir}/{name}.{ext}.bak", &p);
    assert_eq!(s, "cp content/a.md content/a.md.bak");
}

#[test]
fn substitute_leaves_unknown_tokens() {
    let p = FilePath::from_str("a.md").unwrap();
    assert_eq!(substitute("x {other} y", &p), "x {other} y");
}

#[test]
fn command_keeps_its_text() {
    let c = Command::new(String::from("pandoc {full}"));
    assert_eq!(c.str(), "pandoc {full}");
}

#[test]
fn prepare_substitutes_and_tokenizes() {
    let c = Command::new(String::from("pandoc {full} -o {outfile}"));
    let p = FilePath::from_str("content/a.md").unwrap();
    let out = FilePath::from_str("temp/1/a.html").unwrap();
    let (line, tokens) = c.prepare(Some(&p), Some(&out));
    assert_eq!(line, "pandoc content/a.md -o temp/1/a.html");
    assert_eq!(tokens, vec!["pandoc", "content/a.md", "-o", "temp/1/a.html"]);
}

#[test]
fn prepare_without_path_keeps_template() {
    let c = Command::new(String::from("make {full}"));
    let (line, tokens) = c.prepare(None, None);
    assert_eq!(line, "make {full}");
    assert_eq!(tokens, vec!["make", "{full}"]);
}

#[test]
fn prepare_restores_brace_escape() {
    let c = Command::new(String::from("echo {\\{data}}"));
    let p = FilePath::from_str("a.md").unwrap();
    let (line, _) = c.prepare(Some(&p), None);
    assert_eq!(line, "echo {{data}}");
}

#[test]
fn tokenize_keeps_quoted_runs_together() {
    let c = Command::new(String::from("say \"hello there\" now"));
    let (_, tokens) = c.prepare(None, None);
    assert_eq!(tokens, vec!["say", "hello there", "now"]);
}

#[test]
fn tokenize_unescapes_quotes_inside_quoted_run() {
    let c = Command::new(String::from("say \"a \\\"b\\\" c\""));
    let (_, tokens) = c.prepare(None, None);
    assert_eq!(tokens, vec!["say", "a \"b\" c"]);
}

#[test]
fn tokenize_collapses_repeated_spaces() {
    let c = Command::new(String::from("a   b"));
    let (_, tokens) = c.prepare(None, None);
    assert_eq!(tokens, vec!["a", "b"]);
}

#[test]
fn empty_command_yields_no_tokens() {
    let c = Command::new(String::new());
    let (_, tokens) = c.prepare(None, None);
    assert!(tokens.is_empty());
    let c = Command::new(String::from("   "));
    let (_, tokens) = c.prepare(None, None);
    assert!(tokens.is_empty());
}
