use rssg::builder::Build;
use rssg::builder::BuildAction;
use rssg::builder::BuildEvent;
use rssg::builder::BuildStage;
use rssg::command::Command;
use rssg::command::ExitStatus;
use rssg::filepath::FilePath;
use rssg::hashing::hash_str;
use rssg::rule::Rule;

fn fp(s: &str) -> FilePath {
    FilePath::from_str(s).unwrap()
}

fn roots() -> (String, String, String, String) {
    (
        String::from("content"),
        String::from("output"),
        String::from("public"),
        String::from("templates"),
    )
}

fn md_rule() -> Rule {
    Rule::new(".*\\.md", Some(String::from("{dir}/{name}/index.html"))).unwrap()
}

#[test]
fn pre_commands_run_first_and_failures_stop_the_build() {
    let (c, o, p, t) = roots();
    let pre = vec![Command::new(String::from("make assets"))];
    let (b, action) = Build::new(vec![md_rule()], pre, vec![], c, o, p, t);
    match action {
        BuildAction::RunCommand { line, tokens } => {
            assert_eq!(line, "make assets");
            assert_eq!(tokens, vec!["make", "assets"]);
        },
        _ => panic!("expected the pre-command"),
    }
    let (b, action) = b.step(BuildEvent::Command(ExitStatus::NonZero(String::from("make"), 1)));
    assert!(matches!(b.stage, BuildStage::Finished(false)));
    assert!(matches!(action, BuildAction::Finish { ok: false }));
}

#[test]
fn empty_cache_means_a_cold_start() {
    let (c, o, p, t) = roots();
    let (b, action) = Build::new(vec![md_rule()], vec![], vec![], c, o, p, t);
    assert!(matches!(action, BuildAction::ScanAll));
    let (b, action) = b.step(BuildEvent::Scanned {
        cache_text: None,
        content: vec![(fp("content/a.md"), 1)],
        public: vec![],
        templates: vec![],
    });
    assert!(matches!(b.stage, BuildStage::Reconciling));
    assert!(matches!(action, BuildAction::ColdStart));
}

#[test]
fn deleted_source_loses_its_output_and_cache_entry() {
    let (c, o, p, t) = roots();
    let (b, _) = Build::new(vec![md_rule()], vec![], vec![], c, o, p, t);
    let (b, action) = b.step(BuildEvent::Scanned {
        cache_text: Some(String::from("content/old.md  123\ncontent/kept.md  7\n")),
        content: vec![(fp("content/kept.md"), 7)],
        public: vec![],
        templates: vec![],
    });
    match action {
        BuildAction::DeleteOutdated { outputs } => {
            assert_eq!(outputs.len(), 1);
            assert_eq!(outputs[0].full(), "output/old/index.html");
        },
        _ => panic!("expected outdated deletions"),
    }
    assert_eq!(b.cache.get(&fp("content/old.md")), None);
    assert_eq!(b.cache.get(&fp("content/kept.md")), Some(7));
}

#[test]
fn deleted_public_asset_maps_to_its_mirror() {
    let (c, o, p, t) = roots();
    let (b, action) = Build::new(vec![md_rule()], vec![], vec![], c, o, p, t);
    assert!(matches!(action, BuildAction::ScanAll));
    let (_b, action) = b.step(BuildEvent::Scanned {
        cache_text: Some(String::from("public/style.css  5\n")),
        content: vec![],
        public: vec![],
        templates: vec![],
    });
    match action {
        BuildAction::DeleteOutdated { outputs } => {
            assert_eq!(outputs.len(), 1);
            assert_eq!(outputs[0].full(), "output/style.css");
        },
        _ => panic!("expected outdated deletions"),
    }
}

#[test]
fn a_full_incremental_build_runs_every_phase() {
    let (c, o, p, t) = roots();
    let body = "hello";
    let css = "body {}";
    let content_hash = hash_str(body);
    let css_hash = hash_str(css);
    let (b, _) = Build::new(vec![md_rule()], vec![], vec![], c, o, p, t);
    let (b, action) = b.step(BuildEvent::Scanned {
        cache_text: Some(String::from("content/a.md  1\n")),
        content: vec![(fp("content/a.md"), content_hash)],
        public: vec![(fp("public/style.css"), css_hash)],
        templates: vec![],
    });
    assert!(matches!(action, BuildAction::DeleteOutdated { .. }));
    assert!(b.template_modified == false);

    let (b, action) = b.step(BuildEvent::Cleaned(true));
    assert!(matches!(action, BuildAction::EnsureRoots));

    let (b, action) = b.step(BuildEvent::Io(true));
    match &action {
        BuildAction::RunRule { rule, file } => {
            assert_eq!(*rule, 0);
            assert_eq!(file.full(), "content/a.md");
        },
        _ => panic!("expected a rule dispatch"),
    }
    assert!(matches!(b.stage, BuildStage::Running(0)));
    assert_eq!(b.cache.get(&fp("content/a.md")), Some(content_hash));

    let (b, action) = b.step(BuildEvent::RuleDone(true));
    match &action {
        BuildAction::CopyAsset { from, to } => {
            assert_eq!(from.full(), "public/style.css");
            assert_eq!(to.full(), "output/style.css");
        },
        _ => panic!("expected an asset copy"),
    }

    let (b, action) = b.step(BuildEvent::Io(true));
    match &action {
        BuildAction::WriteCache { text } => {
            assert!(text.contains("content/a.md  "));
            assert!(text.contains("public/style.css  "));
        },
        _ => panic!("expected the cache write"),
    }
    assert!(matches!(b.stage, BuildStage::Persist));

    let (b, action) = b.step(BuildEvent::Io(true));
    assert!(matches!(b.stage, BuildStage::Finished(true)));
    assert!(matches!(action, BuildAction::Finish { ok: true }));
}

#[test]
fn unchanged_files_are_skipped() {
    let (c, o, p, t) = roots();
    let h = hash_str("same");
    let (b, _) = Build::new(vec![md_rule()], vec![], vec![], c, o, p, t);
    let (b, _) = b.step(BuildEvent::Scanned {
        cache_text: Some(write_back(&[("content/a.md", h)])),
        content: vec![(fp("content/a.md"), h)],
        public: vec![],
        templates: vec![],
    });
    let (b, _) = b.step(BuildEvent::Cleaned(true));
    let (b, action) = b.step(BuildEvent::Io(true));
    assert!(matches!(action, BuildAction::WriteCache { .. }));
    assert!(matches!(b.stage, BuildStage::Persist));
}

#[test]
fn a_failed_rule_fails_the_build() {
    let (c, o, p, t) = roots();
    let (b, _) = Build::new(vec![md_rule()], vec![], vec![], c, o, p, t);
    let (b, _) = b.step(BuildEvent::Scanned {
        cache_text: None,
        content: vec![(fp("content/a.md"), 1)],
        public: vec![],
        templates: vec![],
    });
    let (b, _) = b.step(BuildEvent::Cleaned(true));
    let (b, action) = b.step(BuildEvent::Io(true));
    assert!(matches!(action, BuildAction::RunRule { .. }));
    let (b, action) = b.step(BuildEvent::RuleDone(false));
    assert!(matches!(b.stage, BuildStage::Finished(false)));
    assert!(matches!(action, BuildAction::Finish { ok: false }));
}

#[test]
fn a_template_change_rebuilds_unchanged_content() {
    let (c, o, p, t) = roots();
    let h = hash_str("same");
    let (b, _) = Build::new(vec![md_rule()], vec![], vec![], c, o, p, t);
    let cache_text = write_back(&[("content/a.md", h)]);
    let (b, _) = b.step(BuildEvent::Scanned {
        cache_text: Some(cache_text),
        content: vec![(fp("content/a.md"), h)],
        public: vec![],
        templates: vec![(fp("templates/base.html"), 42)],
    });
    assert!(b.template_modified);
    let (b, _) = b.step(BuildEvent::Cleaned(true));
    let (b, action) = b.step(BuildEvent::Io(true));
    match action {
        BuildAction::RunRule { file, .. } => assert_eq!(file.full(), "content/a.md"),
        _ => panic!("expected a rule dispatch despite the unchanged hash"),
    }
    assert!(matches!(b.stage, BuildStage::Running(0)));
}

#[test]
fn post_commands_run_last() {
    let (c, o, p, t) = roots();
    let post = vec![Command::new(String::from("notify done"))];
    let (b, _) = Build::new(vec![], vec![], post, c, o, p, t);
    let (b, _) = b.step(BuildEvent::Scanned {
        cache_text: None,
        content: vec![],
        public: vec![],
        templates: vec![],
    });
    let (b, _) = b.step(BuildEvent::Cleaned(true));
    let (b, action) = b.step(BuildEvent::Io(true));
    match &action {
        BuildAction::WriteCache { .. } => {},
        _ => panic!("expected the cache write"),
    }
    let (b, action) = b.step(BuildEvent::Io(false));
    match &action {
        BuildAction::RunCommand { line, .. } => assert_eq!(line, "notify done"),
        _ => panic!("expected the post-command even after a failed cache write"),
    }
    let (b, action) = b.step(BuildEvent::Command(ExitStatus::Success(String::new())));
    assert!(matches!(b.stage, BuildStage::Finished(true)));
    assert!(matches!(action, BuildAction::Finish { ok: true }));
}

fn write_back(entries: &[(&str, u64)]) -> String {
    let mut c = rssg::cache::Cache::new();
    for (p, h) in entries {
        c.insert(fp(p), *h);
    }
    rssg::cache::write_cache(&c)
}
