//! Rules: a path-pattern-to-pipeline binding. The first rule in declaration
//! order whose pattern matches a file is the only one that processes it.
//!
//! A rule owns an ordered filter chain, an ordered template chain and an
//! optional output path template. Pattern matching is done by the `regex`
//! crate on the file's full rendered path; the compiled pattern is held
//! beside its source text, and everything proved about matching is stated
//! over that text.

use vstd::prelude::*;

use crate::filepath::render_model;
use crate::filepath::spec_parse_path;
use crate::filepath::FilePath;
use crate::filepath::PathModel;
use crate::filter::Filter;
use crate::filter::FilterModel;

verus! {

#[verifier::external_type_specification]
#[verifier::external_body]
pub struct ExRegex(regex::Regex);

/// The source pattern a compiled regex was built from.
pub uninterp spec fn regex_pattern(re: regex::Regex) -> Seq<char>;

/// Whether the pattern matches anywhere in the text; what
/// `regex::Regex::is_match` decides, a function of the pattern and the text
/// alone.
pub uninterp spec fn regex_match(pattern: Seq<char>, text: Seq<char>) -> bool;

/// Whether the pattern text is a valid regex; what `regex::Regex::new`
/// decides, a function of the pattern alone (compilation under the default
/// options is deterministic).
pub uninterp spec fn regex_ok(pattern: Seq<char>) -> bool;

/// Relies on `regex::Regex::new`: compiles the pattern, succeeding exactly on
/// the valid ones, or reports why the pattern is invalid; `as_str` on the
/// compiled value returns the source pattern, so a compiled value determines
/// its pattern.
#[verifier::external_body]
fn regex_compile(pattern: &str) -> (r: Result<regex::Regex, String>)
    ensures
        (r is Ok) == regex_ok(pattern@),
        r matches Ok(re) ==> regex_pattern(re) == pattern@,
{
    regex::Regex::new(pattern).map_err(|e| e.to_string())
}

/// Relies on `regex::Regex::is_match`: true if and only if there is a match
/// for the compiled pattern anywhere in the haystack.
#[verifier::external_body]
fn regex_is_match(re: &regex::Regex, text: &str) -> (r: bool)
    ensures
        r == regex_match(regex_pattern(*re), text@),
{
    re.is_match(text)
}

impl DeepView for Filter {
    type V = FilterModel;

    open spec fn deep_view(&self) -> FilterModel {
        self@
    }
}

/// The mathematical shape of a rule.
pub ghost struct RuleModel {
    pub pattern: Seq<char>,
    pub filters: Seq<FilterModel>,
    pub templates: Seq<Seq<char>>,
    pub output: Option<Seq<char>>,
}

/// A pattern with an ordered filter chain, an ordered template chain and an
/// optional output path template.
pub struct Rule {
    rule: regex::Regex,
    pattern: String,
    filters: Vec<Filter>,
    templates: Vec<String>,
    output: Option<String>,
}

impl View for Rule {
    type V = RuleModel;

    closed spec fn view(&self) -> RuleModel {
        RuleModel {
            pattern: self.pattern@,
            filters: self.filters.deep_view(),
            templates: self.templates.deep_view(),
            output: match self.output {
                Some(o) => Some(o@),
                None => None,
            },
        }
    }
}

impl Rule {
    /// The compiled pattern is the one the rule's contracts speak of.
    pub closed spec fn wf(&self) -> bool {
        regex_pattern(self.rule) == self.pattern@
    }

    /// Compile a rule from its pattern text; `Ok` exactly when the pattern is
    /// a valid regex (a configuration error surfaces before any build step
    /// runs), with empty filter and template chains.
    pub fn new(rule: &str, output: Option<String>) -> (r: Result<Self, String>)
        ensures
            (r is Ok) == regex_ok(rule@),
            r matches Ok(ru) ==> ru.wf() && ru@ == (RuleModel {
                pattern: rule@,
                filters: Seq::<FilterModel>::empty(),
                templates: Seq::<Seq<char>>::empty(),
                output: match output {
                    Some(o) => Some(o@),
                    None => None,
                },
            }),
    {
        let compiled = match regex_compile(rule) {
            Ok(re) => re,
            Err(e) => {
                return Err(e);
            },
        };
        let r = Self {
            rule: compiled,
            pattern: rule.to_owned(),
            filters: Vec::new(),
            templates: Vec::new(),
            output,
        };
        proof {
            assert(r.filters.deep_view() =~= Seq::<FilterModel>::empty());
            assert(r.templates.deep_view() =~= Seq::<Seq<char>>::empty());
        }
        Ok(r)
    }

    /// Append filters to the rule's chain, in order.
    pub fn filter_all(&mut self, filters: Vec<Filter>)
        ensures
            final(self)@ == (RuleModel {
                filters: old(self)@.filters + filters.deep_view(),
                ..old(self)@
            }),
            final(self).wf() == old(self).wf(),
    {
        let ghost before = self.filters.deep_view();
        let ghost added = filters.deep_view();
        let mut filters = filters;
        self.filters.append(&mut filters);
        proof {
            assert(self.filters.deep_view() =~= before + added);
        }
    }

    /// Append template names to the rule's chain, in order.
    pub fn template_all(&mut self, templates: Vec<String>)
        ensures
            final(self)@ == (RuleModel {
                templates: old(self)@.templates + templates.deep_view(),
                ..old(self)@
            }),
            final(self).wf() == old(self).wf(),
    {
        let ghost before = self.templates.deep_view();
        let ghost added = templates.deep_view();
        let mut templates = templates;
        self.templates.append(&mut templates);
        proof {
            assert(self.templates.deep_view() =~= before + added);
        }
    }

    /// Whether the rule's pattern matches the file's full rendered path.
    pub fn matches(&self, filepath: &FilePath) -> (r: bool)
        requires
            self.wf(),
        ensures
            r == regex_match(self@.pattern, render_model(filepath@)),
    {
        let full = filepath.full();
        regex_is_match(&self.rule, full.as_str())
    }

    /// Whether the rule declares an output path template.
    pub fn has_output(&self) -> (r: bool)
        ensures
            r == (self@.output is Some),
    {
        self.output.is_some()
    }

    /// The rule's output location for `path`: the output template resolved
    /// against `path` and parsed; `None` exactly when the resolved text is
    /// not a well-formed path.
    pub fn out(&self, path: &FilePath) -> (r: Option<FilePath>)
        requires
            self@.output is Some,
        ensures
            match r {
                Some(f) => spec_parse_path(
                    crate::command::spec_substitute(self@.output.unwrap(), path@),
                ) == Some(f@),
                None => spec_parse_path(
                    crate::command::spec_substitute(self@.output.unwrap(), path@),
                ) == None::<PathModel>,
            },
    {
        let tpl = match &self.output {
            Some(o) => o,
            None => {
                return None;
            },
        };
        let resolved = crate::command::substitute(tpl.as_str(), path);
        FilePath::from_str(resolved.as_str())
    }
}

/// The least index of a rule whose pattern matches the text, if any.
pub open spec fn spec_first_match(rules: Seq<RuleModel>, text: Seq<char>) -> Option<int>
    decreases rules.len(),
{
    if rules.len() == 0 {
        None
    } else if regex_match(rules[0].pattern, text) {
        Some(0)
    } else {
        match spec_first_match(rules.skip(1), text) {
            Some(i) => Some(i + 1),
            None => None,
        }
    }
}

impl DeepView for Rule {
    type V = RuleModel;

    open spec fn deep_view(&self) -> RuleModel {
        self@
    }
}

/// The first rule in declaration order whose pattern matches the file's
/// rendered path; rules after it are never consulted for this file.
pub fn first_match(rules: &Vec<Rule>, path: &FilePath) -> (r: Option<usize>)
    requires
        forall|i: int| 0 <= i < rules@.len() ==> rules@[i].wf(),
    ensures
        match r {
            Some(i) => i < rules@.len() && spec_first_match(
                rules.deep_view(),
                render_model(path@),
            ) == Some(i as int),
            None => spec_first_match(rules.deep_view(), render_model(path@)) == None::<int>,
        },
{
    let ghost text = render_model(path@);
    let mut i: usize = 0;
    proof {
        assert(rules.deep_view().skip(0) =~= rules.deep_view());
    }
    while i < rules.len()
        invariant
            forall|k: int| 0 <= k < rules@.len() ==> rules@[k].wf(),
            i <= rules@.len(),
            text == render_model(path@),
            spec_first_match(rules.deep_view(), text) == (match spec_first_match(
                rules.deep_view().skip(i as int),
                text,
            ) {
                Some(k) => Some(k + i),
                None => None::<int>,
            }),
        decreases rules@.len() - i,
    {
        proof {
            assert(rules.deep_view().skip(i as int)[0] == rules@[i as int].deep_view());
            assert(rules.deep_view().skip(i as int).skip(1) =~= rules.deep_view().skip(i + 1));
        }
        if rules[i].matches(path) {
            return Some(i);
        }
        i = i + 1;
    }
    proof {
        assert(rules.deep_view().skip(i as int) =~= Seq::<RuleModel>::empty());
    }
    None
}

/// Where a rule's per-file execution stands: reading the source, writing the
/// front-matter-stripped body, running filter `i`, applying template `i`,
/// copying to the final destination, or finished with a verdict.
#[derive(Clone, Copy)]
pub enum PipelineStage {
    ReadingSource,
    Stripping,
    Filtering(usize),
    Templating(usize),
    Finishing,
    Done(bool),
}

/// The state of one file's trip through a rule: the original path, the
/// pipeline's current file, where the current file moves on the next
/// success, the front-matter metadata, the two roots the final destination
/// is remapped between, and the stage.
pub struct Pipeline {
    pub original: FilePath,
    pub current: FilePath,
    pub pending: Option<FilePath>,
    pub meta: Vec<(String, crate::meta::MetaValue)>,
    pub content_root: String,
    pub output_root: String,
    pub stage: PipelineStage,
}

/// What the embedder reports back after performing an action: the source
/// file's text (or nothing when it could not be read), the success of a
/// write, render or copy, or a launched command's outcome.
pub enum PipelineEvent {
    SourceText(Option<String>),
    Io(bool),
    Command(crate::command::ExitStatus),
}

/// What the embedder must do next: read the original file; write `body` to
/// the staged path (creating its directory); run a prepared filter command
/// (creating the outfile's directory first when one is given, and treating
/// an empty token list as an invalid command); render one template from
/// `input` to `output`; copy the finished file to its destination; or stop,
/// with the rule's verdict.
pub enum PipelineAction {
    ReadSource { path: FilePath },
    WriteStaged { path: FilePath, body: String },
    RunFilter { step: crate::filter::FilterStep },
    RenderTemplate { name: String, input: FilePath, output: FilePath },
    CopyFinal { from: FilePath, to: FilePath },
    Finished { ok: bool },
}

/// The staging identifier for the front-matter-stripped body of `p`.
pub open spec fn spec_strip_id(p: PathModel) -> Seq<char> {
    render_model(p) + "-stripped"@
}

/// The pipeline has stopped with verdict `ok`.
pub open spec fn done_post(q: Pipeline, a: PipelineAction, ok: bool) -> bool {
    &&& q.stage matches PipelineStage::Done(b) && b == ok
    &&& a matches PipelineAction::Finished { ok: b } && b == ok
}

/// The pipeline's bookkeeping fields are as given.
pub open spec fn frame_post(
    q: Pipeline,
    orig: PathModel,
    cur: PathModel,
    croot: Seq<char>,
    oroot: Seq<char>,
) -> bool {
    &&& q.original@ == orig
    &&& q.current@ == cur
    &&& q.content_root@ == croot
    &&& q.output_root@ == oroot
}

/// What entering the template phase at template `idx` yields: a rule with no
/// output finishes successfully without templates; otherwise template `idx`
/// is rendered from the current file into its staged output, and past the
/// last template the finished file is copied to the rule's output location
/// (resolved against the original path and remapped from the content root to
/// the output root), unless that location is not a well-formed path.
pub open spec fn templates_entry_post(
    r: RuleModel,
    orig: PathModel,
    cur: PathModel,
    croot: Seq<char>,
    oroot: Seq<char>,
    idx: int,
    q: Pipeline,
    a: PipelineAction,
) -> bool {
    if r.output is None {
        done_post(q, a, true)
    } else if idx < r.templates.len() {
        let name = r.templates[idx];
        let out = crate::tempfile::spec_stage(name, cur);
        &&& q.stage matches PipelineStage::Templating(k) && k as int == idx
        &&& frame_post(q, orig, cur, croot, oroot)
        &&& q.pending matches Some(e) && e@ == out
        &&& a matches PipelineAction::RenderTemplate { name: nm, input, output } && nm@ == name
            && input@ == cur && output@ == out
    } else {
        match spec_parse_path(crate::command::spec_substitute(r.output.unwrap(), orig)) {
            None => done_post(q, a, false),
            Some(f) => {
                let dest = crate::filepath::spec_prefix(
                    crate::filepath::spec_strip_prefix(f, croot),
                    oroot,
                );
                &&& q.stage matches PipelineStage::Finishing
                &&& frame_post(q, orig, cur, croot, oroot)
                &&& a matches PipelineAction::CopyFinal { from, to } && from@ == cur && to@ == dest
            },
        }
    }
}

/// What entering the filter phase at filter `idx` yields: filter `idx` is
/// prepared against the current file (failing the rule when its outfile does
/// not resolve to a well-formed path), with the current file set to advance
/// to the filter's staged outfile on success; past the last filter the
/// template phase begins.
pub open spec fn filters_entry_post(
    r: RuleModel,
    orig: PathModel,
    cur: PathModel,
    croot: Seq<char>,
    oroot: Seq<char>,
    idx: int,
    q: Pipeline,
    a: PipelineAction,
) -> bool {
    if idx < r.filters.len() {
        let f = r.filters[idx];
        if f.outfile is Some && crate::filter::spec_filter_stage(f, cur) is None {
            done_post(q, a, false)
        } else {
            let out = if f.outfile is Some {
                Some(crate::filter::spec_filter_stage(f, cur).unwrap())
            } else {
                None::<PathModel>
            };
            &&& q.stage matches PipelineStage::Filtering(k) && k as int == idx
            &&& frame_post(q, orig, cur, croot, oroot)
            &&& (match (q.pending, out) {
                (Some(e), Some(m)) => e@ == m,
                (None, None) => true,
                _ => false,
            })
            &&& a matches PipelineAction::RunFilter { step } && {
                &&& (match (step.outfile, out) {
                    (Some(e), Some(m)) => e@ == m,
                    (None, None) => true,
                    _ => false,
                })
                &&& step.line@ == crate::command::spec_command_line(f.command, Some(cur), out)
                &&& step.tokens.deep_view() == crate::command::spec_tokenize(step.line@)
            }
        }
    } else {
        templates_entry_post(r, orig, cur, croot, oroot, 0, q, a)
    }
}

impl Rule {
    /// Fail the current file: the pipeline stops with a negative verdict.
    fn fail(&self, p: Pipeline) -> (r: (Pipeline, PipelineAction))
        ensures
            done_post(r.0, r.1, false),
            r.0.original@ == p.original@,
            r.0.meta@ == p.meta@,
    {
        let q = Pipeline { stage: PipelineStage::Done(false), ..p };
        (q, PipelineAction::Finished { ok: false })
    }

    /// Enter the template phase at template `idx`.
    fn enter_templates(&self, p: Pipeline, idx: usize) -> (r: (Pipeline, PipelineAction))
        ensures
            templates_entry_post(
                self@,
                p.original@,
                p.current@,
                p.content_root@,
                p.output_root@,
                idx as int,
                r.0,
                r.1,
            ),
            r.0.meta@ == p.meta@,
            r.0.original@ == p.original@,
    {
        if self.output.is_none() {
            let q = Pipeline { stage: PipelineStage::Done(true), ..p };
            return (q, PipelineAction::Finished { ok: true });
        }
        if idx < self.templates.len() {
            proof {
                assert(self.templates.deep_view()[idx as int] == self.templates@[idx as int]@);
            }
            let name = self.templates[idx].clone();
            let out = crate::tempfile::tempdir(name.as_str(), &p.current);
            let input = p.current.clone();
            let output = out.clone();
            let q = Pipeline {
                pending: Some(out),
                stage: PipelineStage::Templating(idx),
                ..p
            };
            return (q, PipelineAction::RenderTemplate { name, input, output });
        }
        let resolved = match self.out(&p.original) {
            Some(f) => f,
            None => {
                return self.fail(p);
            },
        };
        let dest = resolved.strip_prefix(p.content_root.as_str()).prefix(p.output_root.as_str());
        let from = p.current.clone();
        let q = Pipeline { stage: PipelineStage::Finishing, ..p };
        (q, PipelineAction::CopyFinal { from, to: dest })
    }

    /// Enter the filter phase at filter `idx`.
    fn enter_filters(&self, p: Pipeline, idx: usize) -> (r: (Pipeline, PipelineAction))
        ensures
            filters_entry_post(
                self@,
                p.original@,
                p.current@,
                p.content_root@,
                p.output_root@,
                idx as int,
                r.0,
                r.1,
            ),
            r.0.meta@ == p.meta@,
            r.0.original@ == p.original@,
    {
        if idx >= self.filters.len() {
            return self.enter_templates(p, 0);
        }
        proof {
            assert(self.filters.deep_view()[idx as int] == self.filters@[idx as int]@);
        }
        let step = match self.filters[idx].prepare(&p.current) {
            Ok(s) => s,
            Err(_) => {
                return self.fail(p);
            },
        };
        let pending = match &step.outfile {
            Some(o) => Some(o.clone()),
            None => None,
        };
        let q = Pipeline { pending, stage: PipelineStage::Filtering(idx), ..p };
        (q, PipelineAction::RunFilter { step })
    }

    /// Start one file's trip through the rule: a rule with an output template
    /// first reads the source (to split its front matter); one without runs
    /// its filters directly against the file.
    pub fn begin(&self, path: FilePath, content_root: String, output_root: String) -> (r: (
        Pipeline,
        PipelineAction,
    ))
        ensures
            r.0.original@ == path@,
            r.0.meta@.len() == 0,
            self@.output is Some ==> {
                &&& r.0.stage matches PipelineStage::ReadingSource
                &&& frame_post(r.0, path@, path@, content_root@, output_root@)
                &&& r.1 matches PipelineAction::ReadSource { path: rp } && rp@ == path@
            },
            self@.output is None ==> filters_entry_post(
                self@,
                path@,
                path@,
                content_root@,
                output_root@,
                0,
                r.0,
                r.1,
            ),
    {
        let original = path.clone();
        let current = path;
        let p = Pipeline {
            original,
            current,
            pending: None,
            meta: Vec::new(),
            content_root,
            output_root,
            stage: PipelineStage::ReadingSource,
        };
        if self.output.is_some() {
            let rp = p.original.clone();
            (p, PipelineAction::ReadSource { path: rp })
        } else {
            self.enter_filters(p, 0)
        }
    }

    /// Take the pipeline one step: fold the embedder's report of the last
    /// action into the state and say what to do next. Any failure report, and
    /// any report that does not belong to the stage, fails the rule and the
    /// file (the build is fail-fast).
    pub fn step(&self, p: Pipeline, ev: PipelineEvent) -> (r: (Pipeline, PipelineAction))
        ensures
            ({
                let q = r.0;
                let a = r.1;
                match p.stage {
                    PipelineStage::ReadingSource => match ev {
                        PipelineEvent::SourceText(Some(text)) => {
                            let staged = crate::tempfile::spec_stage(
                                spec_strip_id(p.original@),
                                p.original@,
                            );
                            let split = crate::meta::spec_split_front_matter(text@);
                            &&& q.stage matches PipelineStage::Stripping
                            &&& frame_post(
                                q,
                                p.original@,
                                staged,
                                p.content_root@,
                                p.output_root@,
                            )
                            &&& a matches PipelineAction::WriteStaged { path, body } && path@
                                == staged && (match split {
                                None => q.meta@.len() == 0 && body@ == text@,
                                Some(bb) => match crate::meta::yaml_entries(bb.0) {
                                    Some(es) => q.meta@ == es && body@ == bb.1,
                                    None => q.meta@.len() == 0 && body@ == text@,
                                },
                            })
                        },
                        _ => done_post(q, a, false),
                    },
                    PipelineStage::Stripping => match ev {
                        PipelineEvent::Io(true) => filters_entry_post(
                            self@,
                            p.original@,
                            p.current@,
                            p.content_root@,
                            p.output_root@,
                            0,
                            q,
                            a,
                        ) && q.meta@ == p.meta@,
                        _ => done_post(q, a, false),
                    },
                    PipelineStage::Filtering(i) => match ev {
                        PipelineEvent::Command(st) => if st matches
                            crate::command::ExitStatus::Success(_) {
                            let cur2 = match p.pending {
                                Some(o) => o@,
                                None => p.current@,
                            };
                            let next = if (i as int) < self@.filters.len() {
                                i as int + 1
                            } else {
                                self@.filters.len() as int
                            };
                            filters_entry_post(
                                self@,
                                p.original@,
                                cur2,
                                p.content_root@,
                                p.output_root@,
                                next,
                                q,
                                a,
                            ) && q.meta@ == p.meta@
                        } else {
                            done_post(q, a, false)
                        },
                        _ => done_post(q, a, false),
                    },
                    PipelineStage::Templating(i) => match ev {
                        PipelineEvent::Io(true) => {
                            let cur2 = match p.pending {
                                Some(o) => o@,
                                None => p.current@,
                            };
                            let next = if (i as int) < self@.templates.len() {
                                i as int + 1
                            } else {
                                self@.templates.len() as int
                            };
                            templates_entry_post(
                                self@,
                                p.original@,
                                cur2,
                                p.content_root@,
                                p.output_root@,
                                next,
                                q,
                                a,
                            ) && q.meta@ == p.meta@
                        },
                        _ => done_post(q, a, false),
                    },
                    PipelineStage::Finishing => match ev {
                        PipelineEvent::Io(true) => done_post(q, a, true),
                        _ => done_post(q, a, false),
                    },
                    PipelineStage::Done(b) => done_post(q, a, b),
                }
            }),
    {
        let stage = p.stage;
        match stage {
            PipelineStage::ReadingSource => match ev {
                PipelineEvent::SourceText(Some(text)) => {
                    let (meta, body) = crate::meta::parse_front_matter(text.as_str());
                    let full = p.original.full();
                    let mut id = full;
                    id.append("-stripped");
                    proof {
                        assert(id@ == spec_strip_id(p.original@));
                    }
                    let staged = crate::tempfile::tempdir(id.as_str(), &p.original);
                    let path = staged.clone();
                    let q = Pipeline {
                        current: staged,
                        meta,
                        stage: PipelineStage::Stripping,
                        ..p
                    };
                    (q, PipelineAction::WriteStaged { path, body })
                },
                _ => self.fail(p),
            },
            PipelineStage::Stripping => match ev {
                PipelineEvent::Io(true) => self.enter_filters(p, 0),
                _ => self.fail(p),
            },
            PipelineStage::Filtering(i) => match ev {
                PipelineEvent::Command(st) => {
                    if crate::filter::Filter::succeeded(&st) {
                        let mut q = p;
                        match q.pending {
                            Some(o) => {
                                q.current = o;
                                q.pending = None;
                            },
                            None => {},
                        }
                        let next: usize = if i < self.filters.len() {
                            i + 1
                        } else {
                            self.filters.len()
                        };
                        self.enter_filters(q, next)
                    } else {
                        self.fail(p)
                    }
                },
                _ => self.fail(p),
            },
            PipelineStage::Templating(i) => match ev {
                PipelineEvent::Io(true) => {
                    let mut q = p;
                    match q.pending {
                        Some(o) => {
                            q.current = o;
                            q.pending = None;
                        },
                        None => {},
                    }
                    let next: usize = if i < self.templates.len() {
                        i + 1
                    } else {
                        self.templates.len()
                    };
                    self.enter_templates(q, next)
                },
                _ => self.fail(p),
            },
            PipelineStage::Finishing => match ev {
                PipelineEvent::Io(true) => {
                    let q = Pipeline { stage: PipelineStage::Done(true), ..p };
                    (q, PipelineAction::Finished { ok: true })
                },
                _ => self.fail(p),
            },
            PipelineStage::Done(b) => {
                let q = Pipeline { stage: PipelineStage::Done(b), ..p };
                (q, PipelineAction::Finished { ok: b })
            },
        }
    }
}

/// First match wins: whenever some earlier rule matches, the dispatch index
/// never reaches a later one. In particular, with rules `[a, b]` both
/// matching a file, only `a`'s pipeline runs for it.
pub proof fn lemma_first_match_wins(rules: Seq<RuleModel>, text: Seq<char>, i: int)
    requires
        0 <= i < rules.len(),
        regex_match(rules[i].pattern, text),
    ensures
        spec_first_match(rules, text) matches Some(k) && k <= i,
    decreases rules.len(),
{
    if rules.len() > 0 {
        if regex_match(rules[0].pattern, text) {
        } else {
            assert(i != 0);
            assert(rules.skip(1)[i - 1] == rules[i]);
            lemma_first_match_wins(rules.skip(1), text, i - 1);
        }
    }
}

} // verus!
