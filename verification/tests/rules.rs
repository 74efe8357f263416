use rssg::command::ExitStatus;
use rssg::filepath::FilePath;
use rssg::filter::Filter;
use rssg::rule::first_match;
use rssg::rule::PipelineAction;
use rssg::rule::PipelineEvent;
use rssg::rule::PipelineStage;
use rssg::rule::Rule;
use rssg::template::apply_template;

#[test]
fn invalid_pattern_is_rejected() {
    assert!(Rule::new("foo(", None).is_err());
}

#[test]
fn matches_goes_by_the_pattern() {
    let r = Rule::new(".*\\.md", None).unwrap();
    assert!(r.matches(&FilePath::from_str("content/a.md").unwrap()));
    assert!(!r.matches(&FilePath::from_str("content/a.txt").unwrap()));
}

#[test]
fn out_resolves_the_output_template() {
    let r = Rule::new(".*\\.md", Some(String::from("{dir}/{name}/index.html"))).unwrap();
    let p = FilePath::from_str("content/a.md").unwrap();
    assert_eq!(r.out(&p).unwrap().full(), "content/a/index.html");
}

#[test]
fn first_match_wins() {
    let a = Rule::new(".*\\.md", None).unwrap();
    let b = Rule::new("content/.*", None).unwrap();
    let rules = vec![a, b];
    let f = FilePath::from_str("content/a.md").unwrap();
    assert_eq!(first_match(&rules, &f), Some(0));
}

#[test]
fn first_match_skips_non_matching_rules() {
    let a = Rule::new(".*\\.txt", None).unwrap();
    let b = Rule::new(".*\\.md", None).unwrap();
    let rules = vec![a, b];
    let f = FilePath::from_str("content/a.md").unwrap();
    assert_eq!(first_match(&rules, &f), Some(1));
    let g = FilePath::from_str("content/a.png").unwrap();
    assert_eq!(first_match(&rules, &g), None);
}

#[test]
fn rule_without_output_and_filters_finishes_at_once() {
    let r = Rule::new(".*", None).unwrap();
    let p = FilePath::from_str("content/a.md").unwrap();
    let (state, action) = r.begin(p, String::from("content"), String::from("output"));
    assert!(matches!(state.stage, PipelineStage::Done(true)));
    assert!(matches!(action, PipelineAction::Finished { ok: true }));
}

#[test]
fn rule_without_output_runs_filters_against_the_original() {
    let mut r = Rule::new(".*", None).unwrap();
    r.filter_all(vec![Filter::new(String::from("lint {full}"), None, false)]);
    let p = FilePath::from_str("content/a.md").unwrap();
    let (state, action) = r.begin(p, String::from("content"), String::from("output"));
    assert!(matches!(state.stage, PipelineStage::Filtering(0)));
    match action {
        PipelineAction::RunFilter { step } => {
            assert_eq!(step.line, "lint content/a.md");
            assert!(step.outfile.is_none());
        },
        _ => panic!("expected a filter run"),
    }
    let (state, action) = r.step(state, PipelineEvent::Command(ExitStatus::Success(String::new())));
    assert!(matches!(state.stage, PipelineStage::Done(true)));
    assert!(matches!(action, PipelineAction::Finished { ok: true }));
}

#[test]
fn pipeline_renders_and_copies_to_the_remapped_output() {
    let mut r = Rule::new(".*\\.md", Some(String::from("{dir}/{name}/index.html"))).unwrap();
    r.template_all(vec![String::from("default.html")]);
    let p = FilePath::from_str("content/a.md").unwrap();
    let (state, action) = r.begin(p, String::from("content"), String::from("output"));
    assert!(matches!(state.stage, PipelineStage::ReadingSource));
    let read = match action {
        PipelineAction::ReadSource { path } => path,
        _ => panic!("expected a source read"),
    };
    assert_eq!(read.full(), "content/a.md");

    let (state, action) = r.step(state, PipelineEvent::SourceText(Some(String::from("hello"))));
    let staged = match action {
        PipelineAction::WriteStaged { path, body } => {
            assert_eq!(body, "hello");
            assert!(path.dir().starts_with("temp/"));
            path
        },
        _ => panic!("expected a staged write"),
    };
    assert_eq!(staged.full(), state.current.full());

    let (state, action) = r.step(state, PipelineEvent::Io(true));
    let rendered = match action {
        PipelineAction::RenderTemplate { name, input, output } => {
            assert_eq!(name, "default.html");
            assert_eq!(input.full(), staged.full());
            assert!(output.dir().starts_with("temp/"));
            let text = apply_template("<body>{{data}}</body>", "hello", &state.meta, "1.0");
            assert_eq!(text, "<body>hello</body>");
            output
        },
        _ => panic!("expected a template render"),
    };

    let (state, action) = r.step(state, PipelineEvent::Io(true));
    match action {
        PipelineAction::CopyFinal { from, to } => {
            assert_eq!(from.full(), rendered.full());
            assert_eq!(to.full(), "output/a/index.html");
        },
        _ => panic!("expected the final copy"),
    }

    let (state, action) = r.step(state, PipelineEvent::Io(true));
    assert!(matches!(state.stage, PipelineStage::Done(true)));
    assert!(matches!(action, PipelineAction::Finished { ok: true }));
}

#[test]
fn front_matter_flows_into_the_pipeline_metadata() {
    let mut r = Rule::new(".*\\.md", Some(String::from("{dir}/{name}.html"))).unwrap();
    r.template_all(vec![String::from("page.html")]);
    let p = FilePath::from_str("content/a.md").unwrap();
    let (state, _) = r.begin(p, String::from("content"), String::from("output"));
    let (state, action) = r.step(
        state,
        PipelineEvent::SourceText(Some(String::from("---\ntitle: Hi\n---\ntext"))),
    );
    match action {
        PipelineAction::WriteStaged { body, .. } => assert_eq!(body, "text"),
        _ => panic!("expected a staged write"),
    }
    assert_eq!(state.meta.len(), 1);
    assert_eq!(state.meta[0].0, "title");
}

#[test]
fn filter_without_outfile_keeps_the_current_path_either_way() {
    for give_original in [false, true] {
        let mut r = Rule::new(".*\\.md", Some(String::from("{dir}/{name}.html"))).unwrap();
        r.filter_all(vec![Filter::new(String::from("fix {full}"), None, give_original)]);
        let p = FilePath::from_str("content/a.md").unwrap();
        let (state, _) = r.begin(p, String::from("content"), String::from("output"));
        let (state, _) = r.step(state, PipelineEvent::SourceText(Some(String::from("body"))));
        let (state, _) = r.step(state, PipelineEvent::Io(true));
        let before = state.current.full();
        let (state, _) =
            r.step(state, PipelineEvent::Command(ExitStatus::Success(String::new())));
        assert_eq!(state.current.full(), before);
    }
}

#[test]
fn failing_filter_aborts_the_file() {
    let mut r = Rule::new(".*\\.md", Some(String::from("{dir}/{name}.html"))).unwrap();
    r.filter_all(vec![Filter::new(String::from("bad {full}"), None, false)]);
    let p = FilePath::from_str("content/a.md").unwrap();
    let (state, _) = r.begin(p, String::from("content"), String::from("output"));
    let (state, _) = r.step(state, PipelineEvent::SourceText(Some(String::from("body"))));
    let (state, action) = r.step(state, PipelineEvent::Io(true));
    assert!(matches!(state.stage, PipelineStage::Filtering(0)));
    assert!(matches!(action, PipelineAction::RunFilter { .. }));
    let (state, action) = r.step(
        state,
        PipelineEvent::Command(ExitStatus::NonZero(String::from("bad content/a.md"), 2)),
    );
    assert!(matches!(state.stage, PipelineStage::Done(false)));
    assert!(matches!(action, PipelineAction::Finished { ok: false }));
}

#[test]
fn unreadable_source_aborts_the_file() {
    let r = Rule::new(".*", Some(String::from("{full}"))).unwrap();
    let p = FilePath::from_str("content/a.md").unwrap();
    let (state, _) = r.begin(p, String::from("content"), String::from("output"));
    let (state, action) = r.step(state, PipelineEvent::SourceText(None));
    assert!(matches!(state.stage, PipelineStage::Done(false)));
    assert!(matches!(action, PipelineAction::Finished { ok: false }));
}

#[test]
fn filter_with_outfile_advances_the_current_file() {
    let mut r = Rule::new(".*\\.md", Some(String::from("{dir}/{name}.html"))).unwrap();
    r.filter_all(vec![Filter::new(
        String::from("pandoc {full} -o {outfile}"),
        Some(String::from("{dir}/{name}.html")),
        false,
    )]);
    let p = FilePath::from_str("content/a.md").unwrap();
    let (state, _) = r.begin(p, String::from("content"), String::from("output"));
    let (state, _) = r.step(state, PipelineEvent::SourceText(Some(String::from("body"))));
    let (state, action) = r.step(state, PipelineEvent::Io(true));
    let out = match action {
        PipelineAction::RunFilter { step } => step.outfile.unwrap(),
        _ => panic!("expected a filter run"),
    };
    let (state, action) = r.step(state, PipelineEvent::Command(ExitStatus::Success(String::new())));
    assert_eq!(state.current.full(), out.full());
    match action {
        PipelineAction::CopyFinal { from, .. } => assert_eq!(from.full(), out.full()),
        _ => panic!("expected the final copy"),
    }
}
