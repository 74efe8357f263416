//! The build orchestrator: a state machine that sequences pre-build
//! commands, cache reconciliation, per-file rule dispatch, asset copying,
//! cache persistence and post-build commands.
//!
//! The orchestrator decides; the embedder performs. Each step folds the
//! embedder's report of the last action into the state and says what to do
//! next. Pipeline failures are fail-fast: the first failed command, rule or
//! copy ends the build. Cleanup and cache-write failures degrade gracefully:
//! deleting an outdated output is best-effort, and a failed cache write only
//! means the next build starts cold.

use vstd::prelude::*;

use crate::cache::entries_view;
use crate::cache::paths_view;
use crate::cache::spec_cache_insert;
use crate::cache::spec_modified;
use crate::cache::spec_needs_rebuild;
use crate::cache::spec_serialize;
use crate::cache::spec_under_root;
use crate::cache::Cache;
use crate::command::spec_command_line;
use crate::command::spec_tokenize;
use crate::command::Command;
use crate::command::ExitStatus;
use crate::filepath::render_model;
use crate::filepath::spec_parse_path;
use crate::filepath::spec_prefix;
use crate::filepath::spec_strip_prefix;
use crate::filepath::FilePath;
use crate::filepath::PathModel;
use crate::rule::spec_first_match;
use crate::rule::Rule;
use crate::rule::RuleModel;

verus! {

/// `live` holds a path equal to `p`.
pub open spec fn spec_path_in(live: Seq<PathModel>, p: PathModel) -> bool {
    exists|i: int| 0 <= i < live.len() && live[i] == p
}

/// The output file mapped to an outdated cached path: a file under the
/// public root maps to the same path remapped to the output root; any other
/// maps through the first rule whose pattern matches it, when that rule has
/// an output template resolving to a well-formed path; otherwise nothing is
/// mapped.
pub open spec fn spec_outdated_target(
    rules: Seq<RuleModel>,
    p: PathModel,
    croot: Seq<char>,
    proot: Seq<char>,
    oroot: Seq<char>,
) -> Option<PathModel> {
    if spec_under_root(p, proot) {
        Some(spec_prefix(spec_strip_prefix(p, proot), oroot))
    } else {
        match spec_first_match(rules, render_model(p)) {
            Some(r) => match rules[r].output {
                Some(tpl) => match spec_parse_path(crate::command::spec_substitute(tpl, p)) {
                    Some(f) => Some(spec_prefix(spec_strip_prefix(f, croot), oroot)),
                    None => None,
                },
                None => None,
            },
            None => None,
        }
    }
}

/// What reconciliation yields: the cache keeps exactly the entries whose
/// paths are still live, and each dropped entry contributes its mapped
/// output, in order, to the deletion list.
pub open spec fn spec_reconcile(
    es: Seq<(PathModel, u64)>,
    live: Seq<PathModel>,
    rules: Seq<RuleModel>,
    croot: Seq<char>,
    proot: Seq<char>,
    oroot: Seq<char>,
) -> (Seq<(PathModel, u64)>, Seq<PathModel>)
    decreases es.len(),
{
    if es.len() == 0 {
        (Seq::<(PathModel, u64)>::empty(), Seq::<PathModel>::empty())
    } else {
        let tail = spec_reconcile(es.skip(1), live, rules, croot, proot, oroot);
        if spec_path_in(live, es[0].0) {
            (seq![es[0]] + tail.0, tail.1)
        } else {
            match spec_outdated_target(rules, es[0].0, croot, proot, oroot) {
                Some(t) => (tail.0, seq![t] + tail.1),
                None => (tail.0, tail.1),
            }
        }
    }
}

/// Whether `live` holds a path equal to `p`.
fn path_in(live: &Vec<FilePath>, p: &FilePath) -> (r: bool)
    ensures
        r == spec_path_in(paths_view(live@), p@),
{
    let mut i: usize = 0;
    while i < live.len()
        invariant
            i <= live@.len(),
            forall|j: int| 0 <= j < i ==> paths_view(live@)[j] != p@,
        decreases live@.len() - i,
    {
        if &live[i] == p {
            proof {
                assert(paths_view(live@)[i as int] == p@);
            }
            return true;
        }
        i = i + 1;
    }
    false
}

/// Whether `p` lies under the root `root`.
fn under_root(p: &FilePath, root: &str) -> (r: bool)
    ensures
        r == spec_under_root(p@, root@),
{
    let rc = crate::to_chars(root);
    let dir = p.dir();
    let dc = crate::to_chars(dir.as_str());
    if crate::filepath::chars_eq(&dc, &rc) {
        return true;
    }
    if dc.len() > rc.len() && crate::text::match_at(&dc, &rc, 0) && dc[rc.len()] == '/' {
        proof {
            assert(dc@.subrange(0, rc@.len() as int) == rc@);
        }
        return true;
    }
    proof {
        if dc@.len() > rc@.len() && dc@.subrange(0, rc@.len() as int) == rc@ && dc@[rc@.len() as int]
            == '/' {
            assert(crate::text::contains_at(dc@, rc@, 0));
        }
    }
    false
}

/// The output mapped to an outdated cached path, if any.
fn outdated_target(
    rules: &Vec<Rule>,
    p: &FilePath,
    croot: &str,
    proot: &str,
    oroot: &str,
) -> (r: Option<FilePath>)
    requires
        forall|i: int| 0 <= i < rules@.len() ==> rules@[i].wf(),
    ensures
        match r {
            Some(t) => spec_outdated_target(rules.deep_view(), p@, croot@, proot@, oroot@)
                == Some(t@),
            None => spec_outdated_target(rules.deep_view(), p@, croot@, proot@, oroot@)
                == None::<PathModel>,
        },
{
    if under_root(p, proot) {
        return Some(p.clone().strip_prefix(proot).prefix(oroot));
    }
    let hit = match crate::rule::first_match(rules, p) {
        Some(i) => i,
        None => {
            return None;
        },
    };
    proof {
        assert(rules.deep_view()[hit as int] == rules@[hit as int]@);
    }
    if !rules[hit].has_output() {
        return None;
    }
    match rules[hit].out(p) {
        Some(f) => Some(f.strip_prefix(croot).prefix(oroot)),
        None => None,
    }
}

/// Drop every cached entry whose path is no longer live, and collect the
/// output file mapped to each dropped entry, in cache order; those outputs
/// are to be deleted (best-effort) before the build generates.
pub fn reconcile(
    cache: &Cache,
    live: &Vec<FilePath>,
    rules: &Vec<Rule>,
    croot: &str,
    proot: &str,
    oroot: &str,
) -> (r: (Cache, Vec<FilePath>))
    requires
        forall|i: int| 0 <= i < rules@.len() ==> rules@[i].wf(),
    ensures
        (r.0@, paths_view(r.1@)) == spec_reconcile(
            cache@,
            paths_view(live@),
            rules.deep_view(),
            croot@,
            proot@,
            oroot@,
        ),
{
    let ghost whole = cache@;
    let ghost target = spec_reconcile(
        whole,
        paths_view(live@),
        rules.deep_view(),
        croot@,
        proot@,
        oroot@,
    );
    let mut kept_entries: Vec<(FilePath, u64)> = Vec::new();
    let mut del_entries: Vec<FilePath> = Vec::new();
    let mut k: usize = 0;
    proof {
        assert(whole.subrange(0, 0) =~= Seq::<(PathModel, u64)>::empty());
        assert(entries_view(kept_entries@) =~= Seq::<(PathModel, u64)>::empty());
        assert(Seq::<(PathModel, u64)>::empty() + target.0 =~= target.0);
        assert(Seq::<PathModel>::empty() + target.1 =~= target.1);
        assert(whole.skip(0) =~= whole);
    }
    while k < cache.len()
        invariant
            forall|i: int| 0 <= i < rules@.len() ==> rules@[i].wf(),
            k <= whole.len(),
            whole == cache@,
            target == spec_reconcile(
                whole,
                paths_view(live@),
                rules.deep_view(),
                croot@,
                proot@,
                oroot@,
            ),
            target.0 == entries_view(kept_entries@) + spec_reconcile(
                whole.skip(k as int),
                paths_view(live@),
                rules.deep_view(),
                croot@,
                proot@,
                oroot@,
            ).0,
            target.1 == paths_view(del_entries@) + spec_reconcile(
                whole.skip(k as int),
                paths_view(live@),
                rules.deep_view(),
                croot@,
                proot@,
                oroot@,
            ).1,
        decreases whole.len() - k,
    {
        proof {
            assert(whole.skip(k as int)[0] == whole[k as int]);
            assert(whole.skip(k as int).skip(1) =~= whole.skip(k + 1));
        }
        let (p, h) = cache.entry(k);
        if path_in(live, &p) {
            let ghost before = entries_view(kept_entries@);
            kept_entries.push((p, h));
            proof {
                assert(entries_view(kept_entries@) =~= before.push(whole[k as int]));
                assert(before + (seq![whole[k as int]] + spec_reconcile(
                    whole.skip(k + 1),
                    paths_view(live@),
                    rules.deep_view(),
                    croot@,
                    proot@,
                    oroot@,
                ).0) =~= before.push(whole[k as int]) + spec_reconcile(
                    whole.skip(k + 1),
                    paths_view(live@),
                    rules.deep_view(),
                    croot@,
                    proot@,
                    oroot@,
                ).0);
            }
        } else {
            match outdated_target(rules, &p, croot, proot, oroot) {
                Some(t) => {
                    let ghost before = paths_view(del_entries@);
                    del_entries.push(t);
                    proof {
                        assert(paths_view(del_entries@) =~= before.push(
                            spec_outdated_target(
                                rules.deep_view(),
                                whole[k as int].0,
                                croot@,
                                proot@,
                                oroot@,
                            ).unwrap(),
                        ));
                        assert(before + (seq![
                            spec_outdated_target(
                                rules.deep_view(),
                                whole[k as int].0,
                                croot@,
                                proot@,
                                oroot@,
                            ).unwrap(),
                        ] + spec_reconcile(
                            whole.skip(k + 1),
                            paths_view(live@),
                            rules.deep_view(),
                            croot@,
                            proot@,
                            oroot@,
                        ).1) =~= paths_view(del_entries@) + spec_reconcile(
                            whole.skip(k + 1),
                            paths_view(live@),
                            rules.deep_view(),
                            croot@,
                            proot@,
                            oroot@,
                        ).1);
                    }
                },
                None => {},
            }
        }
        k = k + 1;
    }
    proof {
        assert(whole.skip(k as int) =~= Seq::<(PathModel, u64)>::empty());
        assert(entries_view(kept_entries@) + Seq::<(PathModel, u64)>::empty() =~= entries_view(
            kept_entries@,
        ));
        assert(paths_view(del_entries@) + Seq::<PathModel>::empty() =~= paths_view(del_entries@));
    }
    let kept_cache = Cache::from_entries(kept_entries);
    (kept_cache, del_entries)
}

/// The paths of a list of entries.
pub open spec fn pair_paths(es: Seq<(PathModel, u64)>) -> Seq<PathModel> {
    Seq::new(es.len(), |i: int| es[i].0)
}

/// Some path of `mods` lies under `root`.
pub open spec fn spec_any_under(mods: Seq<PathModel>, root: Seq<char>) -> bool {
    exists|i: int| 0 <= i < mods.len() && spec_under_root(mods[i], root)
}

/// What the generate phase yields, scanning the content files from `idx`:
/// files needing no rebuild are skipped; one needing rebuild is re-hashed
/// into the cache and, when some rule's pattern matches it, dispatched to the
/// first such rule; one with no matching rule is re-hashed and skipped. The
/// result is the cache after the scan and the dispatched file and rule
/// indices, if any file was dispatched.
pub open spec fn spec_generate(
    rules: Seq<RuleModel>,
    es: Seq<(PathModel, u64)>,
    files: Seq<(PathModel, u64)>,
    modified: Seq<PathModel>,
    tm: bool,
    idx: int,
) -> (Seq<(PathModel, u64)>, Option<(int, int)>)
    decreases files.len() - idx,
{
    if idx < 0 || idx >= files.len() {
        (es, None)
    } else {
        let f = files[idx];
        if spec_needs_rebuild(f.0, modified, tm) {
            let es2 = spec_cache_insert(es, f.0, f.1);
            match spec_first_match(rules, render_model(f.0)) {
                Some(r) => (es2, Some((idx, r))),
                None => spec_generate(rules, es2, files, modified, tm, idx + 1),
            }
        } else {
            spec_generate(rules, es, files, modified, tm, idx + 1)
        }
    }
}

/// What the asset-copy phase yields, scanning the public files from `idx`:
/// unmodified files are skipped; a modified one is re-hashed into the cache
/// and copied. The result is the cache after the scan and the copied file's
/// index, if any.
pub open spec fn spec_copy(
    es: Seq<(PathModel, u64)>,
    files: Seq<(PathModel, u64)>,
    modified: Seq<PathModel>,
    idx: int,
) -> (Seq<(PathModel, u64)>, Option<int>)
    decreases files.len() - idx,
{
    if idx < 0 || idx >= files.len() {
        (es, None)
    } else {
        let f = files[idx];
        if spec_needs_rebuild(f.0, modified, false) {
            (spec_cache_insert(es, f.0, f.1), Some(idx))
        } else {
            spec_copy(es, files, modified, idx + 1)
        }
    }
}

/// What persisting yields: every visited file that is in the modified set is
/// re-hashed into the cache (this covers files processed only because of
/// template invalidation).
pub open spec fn spec_persist(
    es: Seq<(PathModel, u64)>,
    all: Seq<(PathModel, u64)>,
    modified: Seq<PathModel>,
) -> Seq<(PathModel, u64)>
    decreases all.len(),
{
    if all.len() == 0 {
        es
    } else {
        let es2 = if spec_path_in(modified, all[0].0) {
            spec_cache_insert(es, all[0].0, all[0].1)
        } else {
            es
        };
        spec_persist(es2, all.skip(1), modified)
    }
}

/// Where the build stands: running pre-command `i`, waiting for the scan,
/// waiting for cleanup, ensuring the roots exist, running the rule for
/// content file `i`, copying public file `i`, persisting the cache, running
/// post-command `i`, or finished with a verdict.
#[derive(Clone, Copy)]
pub enum BuildStage {
    Pre(usize),
    Scan,
    Reconciling,
    Prepare,
    Running(usize),
    Copying(usize),
    Persist,
    Post(usize),
    Finished(bool),
}

/// The orchestrator's state: the configuration it was started with, the
/// cache and file lists folded in by the scan, the modified set, and the
/// stage.
pub struct Build {
    pub rules: Vec<Rule>,
    pub pre: Vec<Command>,
    pub post: Vec<Command>,
    pub content_root: String,
    pub output_root: String,
    pub public_root: String,
    pub templates_root: String,
    pub cache: Cache,
    pub content_files: Vec<(FilePath, u64)>,
    pub public_files: Vec<(FilePath, u64)>,
    pub all_files: Vec<(FilePath, u64)>,
    pub modified: Vec<FilePath>,
    pub template_modified: bool,
    pub stage: BuildStage,
}

/// What the embedder reports back: a command's outcome; the scan's result
/// (the persisted cache text if one exists, and each tree's files with their
/// present content hashes, content then public then templates); the outcome
/// of cleanup, of an input/output action, or of one file's rule pipeline.
pub enum BuildEvent {
    Command(ExitStatus),
    Scanned {
        cache_text: Option<String>,
        content: Vec<(FilePath, u64)>,
        public: Vec<(FilePath, u64)>,
        templates: Vec<(FilePath, u64)>,
    },
    Cleaned(bool),
    Io(bool),
    RuleDone(bool),
}

/// What the embedder must do next: run a prepared command (an empty token
/// list is an invalid command); read the cache file and walk the three trees,
/// hashing every readable file; wipe and recreate the output and staging
/// roots (cold build); delete the given outdated outputs, best-effort, and
/// their now-possibly-empty parent directories; ensure the output and staging
/// roots exist; run one file through one rule's pipeline; copy one public
/// asset; write the cache text (deleting the cache file instead if the write
/// fails); or stop with the build's verdict.
pub enum BuildAction {
    RunCommand { line: String, tokens: Vec<String> },
    ScanAll,
    ColdStart,
    DeleteOutdated { outputs: Vec<FilePath> },
    EnsureRoots,
    RunRule { rule: usize, file: FilePath },
    CopyAsset { from: FilePath, to: FilePath },
    WriteCache { text: String },
    Finish { ok: bool },
}

/// The configuration of `q` is that of `b`.
pub open spec fn config_frame(q: Build, b: Build) -> bool {
    &&& q.rules@ == b.rules@
    &&& q.pre@ == b.pre@
    &&& q.post@ == b.post@
    &&& q.content_root@ == b.content_root@
    &&& q.output_root@ == b.output_root@
    &&& q.public_root@ == b.public_root@
    &&& q.templates_root@ == b.templates_root@
}

/// What folding the scan's results in yields: the persisted cache is read
/// (tolerantly; absent means empty), the modified set is computed over all
/// three trees against it, the template-modified flag is raised when any
/// modified file lies under the templates root, and reconciliation follows:
/// an empty cache means a cold build (the output and staging roots are wiped
/// and recreated); otherwise every cached entry no longer live is dropped and
/// its mapped output handed out for best-effort deletion.
pub open spec fn scan_post(
    b: Build,
    cache_text: Option<String>,
    content: Vec<(FilePath, u64)>,
    public: Vec<(FilePath, u64)>,
    templates: Vec<(FilePath, u64)>,
    q: Build,
    a: BuildAction,
) -> bool {
    let es0 = match cache_text {
        Some(t) => crate::cache::spec_read_entries(
            crate::text::spec_split(t@, seq!['\n']),
            Seq::<(PathModel, u64)>::empty(),
        ),
        None => Seq::<(PathModel, u64)>::empty(),
    };
    let all = entries_view(content@) + entries_view(public@) + entries_view(templates@);
    let mods = spec_modified(es0, all);
    &&& config_frame(q, b)
    &&& q.content_files@ == content@
    &&& q.public_files@ == public@
    &&& entries_view(q.all_files@) == all
    &&& paths_view(q.modified@) == mods
    &&& q.template_modified == spec_any_under(mods, b.templates_root@)
    &&& if es0.len() == 0 {
        &&& q.cache@ == es0
        &&& q.stage matches BuildStage::Reconciling
        &&& a matches BuildAction::ColdStart
    } else {
        let rec = spec_reconcile(
            es0,
            pair_paths(all),
            b.rules.deep_view(),
            b.content_root@,
            b.public_root@,
            b.output_root@,
        );
        &&& q.cache@ == rec.0
        &&& q.stage matches BuildStage::Reconciling
        &&& a matches BuildAction::DeleteOutdated { outputs } && paths_view(outputs@) == rec.1
    }
}

/// The build has stopped with verdict `ok`.
pub open spec fn build_done_post(q: Build, a: BuildAction, ok: bool) -> bool {
    &&& q.stage matches BuildStage::Finished(b) && b == ok
    &&& a matches BuildAction::Finish { ok: b } && b == ok
}

/// `a` runs the command `c`, resolved with no path bound.
pub open spec fn command_action(c: Seq<char>, a: BuildAction) -> bool {
    a matches BuildAction::RunCommand { line, tokens } && line@ == spec_command_line(
        c,
        None,
        None,
    ) && tokens.deep_view() == spec_tokenize(line@)
}

/// The configuration and scan results of `q` are those of `b`.
pub open spec fn build_frame(q: Build, b: Build) -> bool {
    &&& q.rules@ == b.rules@
    &&& q.pre@ == b.pre@
    &&& q.post@ == b.post@
    &&& q.content_root@ == b.content_root@
    &&& q.output_root@ == b.output_root@
    &&& q.public_root@ == b.public_root@
    &&& q.templates_root@ == b.templates_root@
    &&& q.content_files@ == b.content_files@
    &&& q.public_files@ == b.public_files@
    &&& q.all_files@ == b.all_files@
    &&& q.modified@ == b.modified@
    &&& q.template_modified == b.template_modified
}

/// What entering the pre-command phase at command `idx` yields.
pub open spec fn pre_entry_post(b: Build, idx: int, q: Build, a: BuildAction) -> bool {
    &&& build_frame(q, b)
    &&& q.cache@ == b.cache@
    &&& if idx < b.pre@.len() {
        &&& q.stage matches BuildStage::Pre(k) && k as int == idx
        &&& command_action(b.pre@[idx]@, a)
    } else {
        &&& q.stage matches BuildStage::Scan
        &&& a matches BuildAction::ScanAll
    }
}

/// What entering the post-command phase at command `idx` yields: past the
/// last post-command the build is done, successfully.
pub open spec fn post_entry_post(b: Build, idx: int, q: Build, a: BuildAction) -> bool {
    &&& build_frame(q, b)
    &&& if idx < b.post@.len() {
        &&& q.cache@ == b.cache@
        &&& q.stage matches BuildStage::Post(k) && k as int == idx
        &&& command_action(b.post@[idx]@, a)
    } else {
        build_done_post(q, a, true)
    }
}

/// What entering the persist phase yields: the cache is completed from the
/// modified set and handed out in its persisted text form.
pub open spec fn persist_post(b: Build, es: Seq<(PathModel, u64)>, q: Build, a: BuildAction) -> bool {
    let es2 = spec_persist(es, entries_view(b.all_files@), paths_view(b.modified@));
    &&& build_frame(q, b)
    &&& q.cache@ == es2
    &&& q.stage matches BuildStage::Persist
    &&& a matches BuildAction::WriteCache { text } && text@ == spec_serialize(es2)
}

/// What entering the asset-copy phase at public file `idx` yields: the next
/// modified public file is re-hashed into the cache and copied to its
/// mirrored destination; with none left the persist phase begins.
pub open spec fn copy_entry_post(b: Build, es: Seq<(PathModel, u64)>, idx: int, q: Build, a: BuildAction) -> bool {
    let step = spec_copy(es, entries_view(b.public_files@), paths_view(b.modified@), idx);
    match step.1 {
        Some(j) => {
            &&& build_frame(q, b)
            &&& q.cache@ == step.0
            &&& q.stage matches BuildStage::Copying(k) && k as int == j
            &&& a matches BuildAction::CopyAsset { from, to } && from@ == entries_view(
                b.public_files@,
            )[j].0 && to@ == spec_prefix(
                spec_strip_prefix(entries_view(b.public_files@)[j].0, b.public_root@),
                b.output_root@,
            )
        },
        None => persist_post(b, step.0, q, a),
    }
}

/// What entering the generate phase at content file `idx` yields: the next
/// content file needing rebuild with a matching rule is re-hashed into the
/// cache and dispatched to the first rule whose pattern matches it; with
/// none left the asset-copy phase begins.
pub open spec fn generate_entry_post(b: Build, es: Seq<(PathModel, u64)>, idx: int, q: Build, a: BuildAction) -> bool {
    let step = spec_generate(
        b.rules.deep_view(),
        es,
        entries_view(b.content_files@),
        paths_view(b.modified@),
        b.template_modified,
        idx,
    );
    match step.1 {
        Some(jr) => {
            &&& build_frame(q, b)
            &&& q.cache@ == step.0
            &&& q.stage matches BuildStage::Running(k) && k as int == jr.0
            &&& a matches BuildAction::RunRule { rule, file } && rule as int == jr.1 && file@
                == entries_view(b.content_files@)[jr.0].0
        },
        None => copy_entry_post(b, step.0, 0, q, a),
    }
}

impl Build {
    /// Every rule's compiled pattern is the one its contracts speak of.
    pub open spec fn wf(&self) -> bool {
        forall|i: int| 0 <= i < self.rules@.len() ==> self.rules@[i].wf()
    }

    /// Fail the build.
    fn fail(self) -> (r: (Build, BuildAction))
        ensures
            build_done_post(r.0, r.1, false),
            build_frame(r.0, self),
            r.0.wf() == self.wf(),
    {
        let q = Build { stage: BuildStage::Finished(false), ..self };
        (q, BuildAction::Finish { ok: false })
    }

    /// Enter the pre-command phase at command `idx`.
    fn pre_entry(self, idx: usize) -> (r: (Build, BuildAction))
        ensures
            pre_entry_post(self, idx as int, r.0, r.1),
            r.0.wf() == self.wf(),
    {
        if idx < self.pre.len() {
            let (line, tokens) = self.pre[idx].prepare(None, None);
            let q = Build { stage: BuildStage::Pre(idx), ..self };
            (q, BuildAction::RunCommand { line, tokens })
        } else {
            let q = Build { stage: BuildStage::Scan, ..self };
            (q, BuildAction::ScanAll)
        }
    }

    /// Enter the post-command phase at command `idx`.
    fn post_entry(self, idx: usize) -> (r: (Build, BuildAction))
        ensures
            post_entry_post(self, idx as int, r.0, r.1),
            r.0.wf() == self.wf(),
    {
        if idx < self.post.len() {
            let (line, tokens) = self.post[idx].prepare(None, None);
            let q = Build { stage: BuildStage::Post(idx), ..self };
            (q, BuildAction::RunCommand { line, tokens })
        } else {
            let q = Build { stage: BuildStage::Finished(true), ..self };
            (q, BuildAction::Finish { ok: true })
        }
    }

    /// Enter the persist phase: complete the cache from the modified set and
    /// serialize it.
    fn persist_enter(self) -> (r: (Build, BuildAction))
        ensures
            persist_post(self, self.cache@, r.0, r.1),
            r.0.wf() == self.wf(),
    {
        let ghost all = entries_view(self.all_files@);
        let ghost mods = paths_view(self.modified@);
        let ghost es0 = self.cache@;
        let mut b = self;
        let mut i: usize = 0;
        proof {
            assert(all.skip(0) =~= all);
        }
        while i < b.all_files.len()
            invariant
                i <= b.all_files@.len(),
                build_frame(b, self),
                b.wf() == self.wf(),
                es0 == self.cache@,
                all == entries_view(b.all_files@),
                mods == paths_view(b.modified@),
                spec_persist(es0, all, mods) == spec_persist(b.cache@, all.skip(i as int), mods),
            decreases b.all_files@.len() - i,
        {
            proof {
                assert(all.skip(i as int)[0] == all[i as int]);
                assert(all.skip(i as int).skip(1) =~= all.skip(i + 1));
            }
            let p = b.all_files[i].0.clone();
            let h = b.all_files[i].1;
            if path_in(&b.modified, &p) {
                b.cache.insert(p, h);
            }
            i = i + 1;
        }
        proof {
            assert(all.skip(i as int) =~= Seq::<(PathModel, u64)>::empty());
        }
        let text = crate::cache::write_cache(&b.cache);
        let q = Build { stage: BuildStage::Persist, ..b };
        (q, BuildAction::WriteCache { text })
    }

    /// Enter the asset-copy phase at public file `idx`.
    fn copy_entry(self, idx: usize) -> (r: (Build, BuildAction))
        ensures
            copy_entry_post(self, self.cache@, idx as int, r.0, r.1),
            r.0.wf() == self.wf(),
    {
        let ghost files = entries_view(self.public_files@);
        let ghost mods = paths_view(self.modified@);
        let ghost es0 = self.cache@;
        let mut b = self;
        let mut j: usize = idx;
        while j < b.public_files.len()
            invariant
                idx <= j,
                build_frame(b, self),
                b.wf() == self.wf(),
                files == entries_view(b.public_files@),
                mods == paths_view(b.modified@),
                es0 == b.cache@,
                es0 == self.cache@,
                spec_copy(es0, files, mods, idx as int) == spec_copy(
                    b.cache@,
                    files,
                    mods,
                    j as int,
                ),
            decreases b.public_files@.len() - j,
        {
            let p = b.public_files[j].0.clone();
            let h = b.public_files[j].1;
            let ghost before = b.cache@;
            proof {
                assert(p@ == files[j as int].0);
                assert(h == files[j as int].1);
            }
            if crate::cache::needs_rebuild(&p, &b.modified, false) {
                proof {
                    assert(spec_copy(before, files, mods, j as int) == (
                        spec_cache_insert(before, files[j as int].0, files[j as int].1),
                        Some(j as int),
                    ));
                }
                b.cache.insert(p.clone(), h);
                let to = p.clone().strip_prefix(b.public_root.as_str()).prefix(
                    b.output_root.as_str(),
                );
                let q = Build { stage: BuildStage::Copying(j), ..b };
                proof {
                    assert(q.rules@ == self.rules@);
                    assert forall|i: int| 0 <= i < q.rules@.len() implies q.rules@[i].wf()
                        == self.rules@[i].wf() by {}
                }
                return (q, BuildAction::CopyAsset { from: p, to });
            }
            j = j + 1;
        }
        b.persist_enter()
    }

    /// Enter the generate phase at content file `idx`.
    fn generate_entry(self, idx: usize) -> (r: (Build, BuildAction))
        requires
            self.wf(),
        ensures
            generate_entry_post(self, self.cache@, idx as int, r.0, r.1),
            r.0.wf(),
    {
        let ghost files = entries_view(self.content_files@);
        let ghost mods = paths_view(self.modified@);
        let ghost es0 = self.cache@;
        let mut b = self;
        let mut j: usize = idx;
        while j < b.content_files.len()
            invariant
                b.wf(),
                self.wf(),
                idx <= j,
                build_frame(b, self),
                es0 == self.cache@,
                files == entries_view(b.content_files@),
                mods == paths_view(b.modified@),
                spec_generate(b.rules.deep_view(), es0, files, mods, b.template_modified, idx as int)
                    == spec_generate(
                    b.rules.deep_view(),
                    b.cache@,
                    files,
                    mods,
                    b.template_modified,
                    j as int,
                ),
            decreases b.content_files@.len() - j,
        {
            let p = b.content_files[j].0.clone();
            let h = b.content_files[j].1;
            let ghost before = b.cache@;
            proof {
                assert(p@ == files[j as int].0);
                assert(h == files[j as int].1);
            }
            if crate::cache::needs_rebuild(&p, &b.modified, b.template_modified) {
                b.cache.insert(p.clone(), h);
                proof {
                    assert(b.cache@ == spec_cache_insert(before, files[j as int].0, files[j as int].1));
                }
                match crate::rule::first_match(&b.rules, &p) {
                    Some(r) => {
                        proof {
                            assert(spec_generate(
                                b.rules.deep_view(),
                                before,
                                files,
                                mods,
                                b.template_modified,
                                j as int,
                            ) == (b.cache@, Some((j as int, r as int))));
                        }
                        let q = Build { stage: BuildStage::Running(j), ..b };
                        return (q, BuildAction::RunRule { rule: r, file: p });
                    },
                    None => {},
                }
            }
            j = j + 1;
        }
        b.copy_entry(0)
    }

    /// Fold the scan's results in and enter reconciliation.
    fn scan_done(
        self,
        cache_text: Option<String>,
        content: Vec<(FilePath, u64)>,
        public: Vec<(FilePath, u64)>,
        templates: Vec<(FilePath, u64)>,
    ) -> (r: (Build, BuildAction))
        requires
            self.wf(),
        ensures
            scan_post(self, cache_text, content, public, templates, r.0, r.1),
            r.0.wf(),
    {
        let cache0 = match &cache_text {
            Some(t) => crate::cache::read_cache(t.as_str()),
            None => Cache::new(),
        };
        let ghost es0 = cache0@;
        let mut all: Vec<(FilePath, u64)> = Vec::new();
        let mut live: Vec<FilePath> = Vec::new();
        copy_entries_into(&mut all, &mut live, &content);
        proof {
            assert(entries_view(all@) =~= Seq::<(PathModel, u64)>::empty() + entries_view(
                content@,
            ));
        }
        copy_entries_into(&mut all, &mut live, &public);
        copy_entries_into(&mut all, &mut live, &templates);
        let ghost allv = entries_view(content@) + entries_view(public@) + entries_view(templates@);
        proof {
            assert(entries_view(all@) =~= allv);
            assert(paths_view(live@) =~= pair_paths(entries_view(all@)));
            assert(pair_paths(entries_view(all@)) =~= pair_paths(allv));
        }
        let modified = crate::cache::modified(&cache0, &all);
        let tm = crate::cache::template_modified(&modified, self.templates_root.as_str());
        proof {
            let mods = spec_modified(es0, allv);
            assert(paths_view(modified@) == mods);
            if exists|i: int|
                0 <= i < modified@.len() && spec_under_root(
                    modified@[i]@,
                    self.templates_root@,
                ) {
                let i = choose|i: int|
                    0 <= i < modified@.len() && spec_under_root(
                        modified@[i]@,
                        self.templates_root@,
                    );
                assert(spec_under_root(mods[i], self.templates_root@));
            }
            if spec_any_under(mods, self.templates_root@) {
                let i = choose|i: int|
                    0 <= i < mods.len() && spec_under_root(mods[i], self.templates_root@);
                assert(spec_under_root(modified@[i]@, self.templates_root@));
            }
        }
        if cache0.is_empty() {
            let q = Build {
                cache: cache0,
                content_files: content,
                public_files: public,
                all_files: all,
                modified,
                template_modified: tm,
                stage: BuildStage::Reconciling,
                ..self
            };
            (q, BuildAction::ColdStart)
        } else {
            let (kept, outputs) = reconcile(
                &cache0,
                &live,
                &self.rules,
                self.content_root.as_str(),
                self.public_root.as_str(),
                self.output_root.as_str(),
            );
            let q = Build {
                cache: kept,
                content_files: content,
                public_files: public,
                all_files: all,
                modified,
                template_modified: tm,
                stage: BuildStage::Reconciling,
                ..self
            };
            (q, BuildAction::DeleteOutdated { outputs })
        }
    }

    /// Start a build: the configuration is taken as given (already parsed and
    /// validated), the cache and file lists come from the scan.
    pub fn new(
        rules: Vec<Rule>,
        pre: Vec<Command>,
        post: Vec<Command>,
        content_root: String,
        output_root: String,
        public_root: String,
        templates_root: String,
    ) -> (r: (Build, BuildAction))
        requires
            forall|i: int| 0 <= i < rules@.len() ==> rules@[i].wf(),
        ensures
            r.0.wf(),
            r.0.rules@ == rules@,
            r.0.pre@ == pre@,
            r.0.post@ == post@,
            r.0.content_root@ == content_root@,
            r.0.output_root@ == output_root@,
            r.0.public_root@ == public_root@,
            r.0.templates_root@ == templates_root@,
            r.0.cache@ == Seq::<(PathModel, u64)>::empty(),
            if pre@.len() > 0 {
                (r.0.stage matches BuildStage::Pre(k) && k == 0) && command_action(pre@[0]@, r.1)
            } else {
                (r.0.stage matches BuildStage::Scan) && (r.1 matches BuildAction::ScanAll)
            },
    {
        let b = Build {
            rules,
            pre,
            post,
            content_root,
            output_root,
            public_root,
            templates_root,
            cache: Cache::new(),
            content_files: Vec::new(),
            public_files: Vec::new(),
            all_files: Vec::new(),
            modified: Vec::new(),
            template_modified: false,
            stage: BuildStage::Scan,
        };
        b.pre_entry(0)
    }

    /// Take the build one step: fold the embedder's report of the last action
    /// into the state and say what to do next. A failed command, rule or copy
    /// fails the build, as does a report that does not belong to the stage;
    /// cleanup reports and the cache-write report cannot fail it.
    pub fn step(self, ev: BuildEvent) -> (r: (Build, BuildAction))
        requires
            self.wf(),
        ensures
            r.0.wf(),
            ({
                let q = r.0;
                let a = r.1;
                match self.stage {
                    BuildStage::Pre(i) => match ev {
                        BuildEvent::Command(st) => if st matches ExitStatus::Success(_) {
                            let next = if (i as int) < self.pre@.len() {
                                i as int + 1
                            } else {
                                self.pre@.len() as int
                            };
                            pre_entry_post(self, next, q, a)
                        } else {
                            build_done_post(q, a, false)
                        },
                        _ => build_done_post(q, a, false),
                    },
                    BuildStage::Scan => match ev {
                        BuildEvent::Scanned { cache_text, content, public, templates } => scan_post(
                            self,
                            cache_text,
                            content,
                            public,
                            templates,
                            q,
                            a,
                        ),
                        _ => build_done_post(q, a, false),
                    },
                    BuildStage::Reconciling => match ev {
                        BuildEvent::Cleaned(true) => {
                            &&& build_frame(q, self)
                            &&& q.cache@ == self.cache@
                            &&& q.stage matches BuildStage::Prepare
                            &&& a matches BuildAction::EnsureRoots
                        },
                        _ => build_done_post(q, a, false),
                    },
                    BuildStage::Prepare => match ev {
                        BuildEvent::Io(true) => generate_entry_post(self, self.cache@, 0, q, a),
                        _ => build_done_post(q, a, false),
                    },
                    BuildStage::Running(j) => match ev {
                        BuildEvent::RuleDone(true) => {
                            let next = if (j as int) < self.content_files@.len() {
                                j as int + 1
                            } else {
                                self.content_files@.len() as int
                            };
                            generate_entry_post(self, self.cache@, next, q, a)
                        },
                        _ => build_done_post(q, a, false),
                    },
                    BuildStage::Copying(j) => match ev {
                        BuildEvent::Io(true) => {
                            let next = if (j as int) < self.public_files@.len() {
                                j as int + 1
                            } else {
                                self.public_files@.len() as int
                            };
                            copy_entry_post(self, self.cache@, next, q, a)
                        },
                        _ => build_done_post(q, a, false),
                    },
                    BuildStage::Persist => match ev {
                        BuildEvent::Io(_) => post_entry_post(self, 0, q, a),
                        _ => build_done_post(q, a, false),
                    },
                    BuildStage::Post(i) => match ev {
                        BuildEvent::Command(st) => if st matches ExitStatus::Success(_) {
                            let next = if (i as int) < self.post@.len() {
                                i as int + 1
                            } else {
                                self.post@.len() as int
                            };
                            post_entry_post(self, next, q, a)
                        } else {
                            build_done_post(q, a, false)
                        },
                        _ => build_done_post(q, a, false),
                    },
                    BuildStage::Finished(b) => build_done_post(q, a, b),
                }
            }),
    {
        let stage = self.stage;
        match stage {
            BuildStage::Pre(i) => match ev {
                BuildEvent::Command(st) => {
                    if crate::filter::Filter::succeeded(&st) {
                        let next: usize = if i < self.pre.len() {
                            i + 1
                        } else {
                            self.pre.len()
                        };
                        self.pre_entry(next)
                    } else {
                        self.fail()
                    }
                },
                _ => self.fail(),
            },
            BuildStage::Scan => match ev {
                BuildEvent::Scanned { cache_text, content, public, templates } => {
                    self.scan_done(cache_text, content, public, templates)
                },
                _ => self.fail(),
            },
            BuildStage::Reconciling => match ev {
                BuildEvent::Cleaned(true) => {
                    let q = Build { stage: BuildStage::Prepare, ..self };
                    (q, BuildAction::EnsureRoots)
                },
                _ => self.fail(),
            },
            BuildStage::Prepare => match ev {
                BuildEvent::Io(true) => self.generate_entry(0),
                _ => self.fail(),
            },
            BuildStage::Running(j) => match ev {
                BuildEvent::RuleDone(true) => {
                    let next: usize = if j < self.content_files.len() {
                        j + 1
                    } else {
                        self.content_files.len()
                    };
                    self.generate_entry(next)
                },
                _ => self.fail(),
            },
            BuildStage::Copying(j) => match ev {
                BuildEvent::Io(true) => {
                    let next: usize = if j < self.public_files.len() {
                        j + 1
                    } else {
                        self.public_files.len()
                    };
                    self.copy_entry(next)
                },
                _ => self.fail(),
            },
            BuildStage::Persist => match ev {
                BuildEvent::Io(_) => self.post_entry(0),
                _ => self.fail(),
            },
            BuildStage::Post(i) => match ev {
                BuildEvent::Command(st) => {
                    if crate::filter::Filter::succeeded(&st) {
                        let next: usize = if i < self.post.len() {
                            i + 1
                        } else {
                            self.post.len()
                        };
                        self.post_entry(next)
                    } else {
                        self.fail()
                    }
                },
                _ => self.fail(),
            },
            BuildStage::Finished(b) => {
                let q = Build { stage: BuildStage::Finished(b), ..self };
                (q, BuildAction::Finish { ok: b })
            },
        }
    }
}

/// Append clones of the entries and their paths to `all` and `live`.
fn copy_entries_into(
    all: &mut Vec<(FilePath, u64)>,
    live: &mut Vec<FilePath>,
    src: &Vec<(FilePath, u64)>,
)
    ensures
        entries_view(final(all)@) == entries_view(old(all)@) + entries_view(src@),
        paths_view(final(live)@) == paths_view(old(live)@) + pair_paths(entries_view(src@)),
{
    let mut i: usize = 0;
    proof {
        assert(entries_view(all@) =~= entries_view(old(all)@) + entries_view(src@).subrange(0, 0));
        assert(paths_view(live@) =~= paths_view(old(live)@) + pair_paths(
            entries_view(src@),
        ).subrange(0, 0));
    }
    while i < src.len()
        invariant
            i <= src@.len(),
            entries_view(all@) == entries_view(old(all)@) + entries_view(src@).subrange(
                0,
                i as int,
            ),
            paths_view(live@) == paths_view(old(live)@) + pair_paths(
                entries_view(src@),
            ).subrange(0, i as int),
        decreases src@.len() - i,
    {
        let ghost all_before = entries_view(all@);
        let ghost live_before = paths_view(live@);
        let e = (src[i].0.clone(), src[i].1);
        let p = src[i].0.clone();
        all.push(e);
        live.push(p);
        proof {
            assert(entries_view(all@) =~= all_before.push((src@[i as int].0@, src@[i as int].1)));
            assert(paths_view(live@) =~= live_before.push(src@[i as int].0@));
            assert(entries_view(src@)[i as int] == (src@[i as int].0@, src@[i as int].1));
            assert(pair_paths(entries_view(src@))[i as int] == src@[i as int].0@);
        }
        i = i + 1;
        proof {
            assert(entries_view(all@) =~= entries_view(old(all)@) + entries_view(src@).subrange(
                0,
                i as int,
            ));
            assert(paths_view(live@) =~= paths_view(old(live)@) + pair_paths(
                entries_view(src@),
            ).subrange(0, i as int));
        }
    }
    proof {
        assert(entries_view(src@).subrange(0, src@.len() as int) =~= entries_view(src@));
        assert(pair_paths(entries_view(src@)).subrange(0, src@.len() as int) =~= pair_paths(
            entries_view(src@),
        ));
    }
}

} // verus!

