//! The incremental cache: a mapping from file paths to 64-bit content
//! hashes, persisted as newline-delimited `"<path>  <hash>"` records
//! (double-space separated), used to skip unchanged files across builds.
//!
//! Reading is tolerant: malformed lines are skipped, an absent cache is an
//! empty cache. An entry's key is the file's rendered path; inserting under
//! an existing key replaces that entry in place.

use vstd::prelude::*;

use crate::chars::from_chars;
use crate::chars::to_chars;
use crate::filepath::dir_seq;
use crate::filepath::render_model;
use crate::filepath::spec_parse_path;
use crate::filepath::FilePath;
use crate::filepath::PathModel;
use crate::hashing::spec_hash64;
use crate::num::spec_parse_u64;
use crate::num::spec_u64_dec;
use crate::num::u64_to_dec;
use crate::text::spec_split;
use crate::text::split_chars;

verus! {

/// The view of a list of path/hash pairs.
pub open spec fn entries_view(v: Seq<(FilePath, u64)>) -> Seq<(PathModel, u64)> {
    Seq::new(v.len(), |i: int| (v[i].0@, v[i].1))
}

/// The view of a list of paths.
pub open spec fn paths_view(v: Seq<FilePath>) -> Seq<PathModel> {
    Seq::new(v.len(), |i: int| v[i]@)
}

/// The hash under `key` (a rendered path): the first entry whose path
/// renders as `key`, if any.
pub open spec fn spec_cache_get(es: Seq<(PathModel, u64)>, key: Seq<char>) -> Option<u64>
    decreases es.len(),
{
    if es.len() == 0 {
        None
    } else if render_model(es[0].0) == key {
        Some(es[0].1)
    } else {
        spec_cache_get(es.skip(1), key)
    }
}

/// The entries after inserting `h` under `p`: the entry with `p`'s rendered
/// path is replaced in place, or a new entry is appended.
pub open spec fn spec_cache_insert(es: Seq<(PathModel, u64)>, p: PathModel, h: u64) -> Seq<
    (PathModel, u64),
>
    decreases es.len(),
{
    if es.len() == 0 {
        seq![(p, h)]
    } else if render_model(es[0].0) == render_model(p) {
        seq![(p, h)] + es.skip(1)
    } else {
        seq![es[0]] + spec_cache_insert(es.skip(1), p, h)
    }
}

/// The entries after removing the key `key` (a rendered path).
pub open spec fn spec_cache_remove(es: Seq<(PathModel, u64)>, key: Seq<char>) -> Seq<
    (PathModel, u64),
> {
    es.filter(|e: (PathModel, u64)| render_model(e.0) != key)
}

/// The content-hash map, in insertion order.
pub struct Cache {
    entries: Vec<(FilePath, u64)>,
}

impl View for Cache {
    type V = Seq<(PathModel, u64)>;

    closed spec fn view(&self) -> Seq<(PathModel, u64)> {
        entries_view(self.entries@)
    }
}

impl Cache {
    /// The empty cache.
    pub fn new() -> (r: Self)
        ensures
            r@ == Seq::<(PathModel, u64)>::empty(),
    {
        let r = Self { entries: Vec::new() };
        proof {
            assert(r@ =~= Seq::<(PathModel, u64)>::empty());
        }
        r
    }

    /// A cache holding exactly the given entries, in order. The caller keeps
    /// the rendered paths distinct; entries here all come from a cache whose
    /// inserts already replaced by key.
    pub fn from_entries(entries: Vec<(FilePath, u64)>) -> (r: Self)
        ensures
            r@ == entries_view(entries@),
    {
        Self { entries }
    }

    /// The number of entries.
    pub fn len(&self) -> (r: usize)
        ensures
            r == self@.len(),
    {
        self.entries.len()
    }

    /// Whether the cache holds no entry.
    pub fn is_empty(&self) -> (r: bool)
        ensures
            r == (self@.len() == 0),
    {
        self.entries.is_empty()
    }

    /// The entry at index `i`.
    pub fn entry(&self, i: usize) -> (r: (FilePath, u64))
        requires
            i < self@.len(),
        ensures
            (r.0@, r.1) == self@[i as int],
    {
        let e = &self.entries[i];
        (e.0.clone(), e.1)
    }

    /// The hash cached for `path`, if any.
    pub fn get(&self, path: &FilePath) -> (r: Option<u64>)
        ensures
            r == spec_cache_get(self@, render_model(path@)),
    {
        let key = path.full();
        let kc = to_chars(key.as_str());
        let mut i: usize = 0;
        proof {
            assert(self@.skip(0) =~= self@);
        }
        while i < self.entries.len()
            invariant
                i <= self@.len(),
                self@.len() == self.entries@.len(),
                kc@ == render_model(path@),
                spec_cache_get(self@, kc@) == spec_cache_get(self@.skip(i as int), kc@),
            decreases self@.len() - i,
        {
            proof {
                assert(self@.skip(i as int)[0] == self@[i as int]);
                assert(self@.skip(i as int).skip(1) =~= self@.skip(i + 1));
            }
            let full = self.entries[i].0.full();
            let fc = to_chars(full.as_str());
            if crate::filepath::chars_eq(&fc, &kc) {
                return Some(self.entries[i].1);
            }
            i = i + 1;
        }
        proof {
            assert(self@.skip(i as int) =~= Seq::<(PathModel, u64)>::empty());
        }
        None
    }

    /// Insert `h` under `path`, replacing any entry with the same rendered
    /// path.
    pub fn insert(&mut self, path: FilePath, h: u64)
        ensures
            final(self)@ == spec_cache_insert(old(self)@, path@, h),
    {
        let ghost whole = self@;
        let key = path.full();
        let kc = to_chars(key.as_str());
        let mut out: Vec<(FilePath, u64)> = Vec::new();
        let mut i: usize = 0;
        proof {
            assert(whole.skip(0) =~= whole);
            assert(entries_view(out@) =~= Seq::<(PathModel, u64)>::empty());
            assert(Seq::<(PathModel, u64)>::empty() + spec_cache_insert(whole, path@, h)
                =~= spec_cache_insert(whole, path@, h));
        }
        while i < self.entries.len()
            invariant
                i <= self.entries@.len(),
                whole == entries_view(self.entries@),
                whole == old(self)@,
                kc@ == render_model(path@),
                spec_cache_insert(whole, path@, h) == entries_view(out@) + spec_cache_insert(
                    whole.skip(i as int),
                    path@,
                    h,
                ),
            decreases self.entries@.len() - i,
        {
            proof {
                assert(whole.skip(i as int)[0] == whole[i as int]);
                assert(whole.skip(i as int).skip(1) =~= whole.skip(i + 1));
            }
            let full = self.entries[i].0.full();
            let fc = to_chars(full.as_str());
            if crate::filepath::chars_eq(&fc, &kc) {
                let ghost head = entries_view(out@);
                proof {
                    assert(render_model(whole[i as int].0) == render_model(path@));
                    assert(spec_cache_insert(whole.skip(i as int), path@, h) =~= seq![(path@, h)]
                        + whole.skip(i + 1));
                    assert(head + (seq![(path@, h)] + whole.skip(i + 1)) =~= head.push((path@, h))
                        + whole.skip(i + 1));
                    assert(spec_cache_insert(whole, path@, h) == head.push((path@, h))
                        + whole.skip(i + 1));
                }
                out.push((path, h));
                proof {
                    assert(entries_view(out@) =~= head.push((path@, h)));
                }
                let mut k: usize = i + 1;
                while k < self.entries.len()
                    invariant
                        i + 1 <= k <= self.entries@.len(),
                        i < whole.len(),
                        whole == entries_view(self.entries@),
                        spec_cache_insert(whole, path@, h) == head.push((path@, h)) + whole.skip(
                            i + 1,
                        ),
                        entries_view(out@) == head.push((path@, h)) + whole.subrange(
                            i + 1,
                            k as int,
                        ),
                    decreases self.entries@.len() - k,
                {
                    let ghost before = entries_view(out@);
                    let e = (self.entries[k].0.clone(), self.entries[k].1);
                    out.push(e);
                    proof {
                        assert(entries_view(out@) =~= before.push(whole[k as int]));
                        assert(before.push(whole[k as int]) =~= head.push((path@, h))
                            + whole.subrange(i + 1, k + 1));
                    }
                    k = k + 1;
                }
                proof {
                    assert(whole.subrange(i + 1, whole.len() as int) =~= whole.skip(i + 1));
                    assert(entries_view(out@) == head.push((path@, h)) + whole.skip(i + 1));
                    assert(spec_cache_insert(whole, path@, h) == entries_view(out@));
                }
                self.entries = out;
                proof {
                    assert(self@ == entries_view(self.entries@));
                }
                return ;
            }
            let ghost before = entries_view(out@);
            let e = (self.entries[i].0.clone(), self.entries[i].1);
            out.push(e);
            proof {
                assert(entries_view(out@) =~= before.push(whole[i as int]));
                assert(before + (seq![whole[i as int]] + spec_cache_insert(
                    whole.skip(i + 1),
                    path@,
                    h,
                )) =~= before.push(whole[i as int]) + spec_cache_insert(
                    whole.skip(i + 1),
                    path@,
                    h,
                ));
            }
            i = i + 1;
        }
        proof {
            assert(whole.skip(i as int) =~= Seq::<(PathModel, u64)>::empty());
        }
        let ghost before = entries_view(out@);
        out.push((path, h));
        proof {
            assert(entries_view(out@) =~= before.push((path@, h)));
            assert(spec_cache_insert(Seq::<(PathModel, u64)>::empty(), path@, h) =~= seq![
                (path@, h),
            ]);
            assert(before + seq![(path@, h)] =~= before.push((path@, h)));
        }
        self.entries = out;
    }

    /// Remove every entry whose rendered path is `path`'s.
    pub fn remove(&mut self, path: &FilePath)
        ensures
            final(self)@ == spec_cache_remove(old(self)@, render_model(path@)),
    {
        let ghost whole = self@;
        let ghost keep = |e: (PathModel, u64)| render_model(e.0) != render_model(path@);
        let key = path.full();
        let kc = to_chars(key.as_str());
        let mut out: Vec<(FilePath, u64)> = Vec::new();
        let mut i: usize = 0;
        proof {
            assert(entries_view(out@) =~= Seq::<(PathModel, u64)>::empty());
            assert(whole.subrange(0, 0).filter(keep) =~= Seq::<(PathModel, u64)>::empty());
        }
        while i < self.entries.len()
            invariant
                i <= self.entries@.len(),
                whole == entries_view(self.entries@),
                kc@ == render_model(path@),
                keep == (|e: (PathModel, u64)| render_model(e.0) != render_model(path@)),
                entries_view(out@) == whole.subrange(0, i as int).filter(keep),
            decreases self.entries@.len() - i,
        {
            let ghost prefix = whole.subrange(0, i as int);
            proof {
                assert(whole.subrange(0, i + 1).drop_last() =~= prefix);
                assert(whole.subrange(0, i + 1).last() == whole[i as int]);
                reveal(Seq::filter);
            }
            let full = self.entries[i].0.full();
            let fc = to_chars(full.as_str());
            if !crate::filepath::chars_eq(&fc, &kc) {
                let ghost before = entries_view(out@);
                let e = (self.entries[i].0.clone(), self.entries[i].1);
                out.push(e);
                proof {
                    assert(entries_view(out@) =~= before.push(whole[i as int]));
                }
            }
            i = i + 1;
        }
        proof {
            assert(whole.subrange(0, whole.len() as int) =~= whole);
        }
        self.entries = out;
    }
}

/// One persisted record: the rendered path, two spaces, the decimal hash,
/// and a newline.
pub open spec fn spec_cache_line(p: PathModel, h: u64) -> Seq<char> {
    render_model(p) + seq![' ', ' '] + spec_u64_dec(h as int) + seq!['\n']
}

/// The persisted form of the cache: one record per entry, in order.
pub open spec fn spec_serialize(es: Seq<(PathModel, u64)>) -> Seq<char>
    decreases es.len(),
{
    if es.len() == 0 {
        Seq::<char>::empty()
    } else {
        spec_cache_line(es[0].0, es[0].1) + spec_serialize(es.skip(1))
    }
}

/// Serialize the cache to its persisted text form. Writing it to disk is the
/// embedder's part; when that write fails, the cache file is deleted rather
/// than left possibly corrupt.
pub fn write_cache(cache: &Cache) -> (r: String)
    ensures
        r@ == spec_serialize(cache@),
{
    let mut out: Vec<char> = Vec::new();
    let mut i: usize = 0;
    proof {
        assert(cache@.skip(0) =~= cache@);
        assert(Seq::<char>::empty() + spec_serialize(cache@) =~= spec_serialize(cache@));
    }
    while i < cache.len()
        invariant
            i <= cache@.len(),
            spec_serialize(cache@) == out@ + spec_serialize(cache@.skip(i as int)),
        decreases cache@.len() - i,
    {
        proof {
            assert(cache@.skip(i as int)[0] == cache@[i as int]);
            assert(cache@.skip(i as int).skip(1) =~= cache@.skip(i + 1));
        }
        let ghost before = out@;
        let (p, h) = cache.entry(i);
        let full = p.full();
        crate::template::push_all(&mut out, &to_chars(full.as_str()));
        out.push(' ');
        out.push(' ');
        let digits = u64_to_dec(h);
        crate::template::push_all(&mut out, &digits);
        out.push('\n');
        proof {
            assert(out@ =~= before + spec_cache_line(cache@[i as int].0, cache@[i as int].1));
            assert(before + (spec_cache_line(cache@[i as int].0, cache@[i as int].1)
                + spec_serialize(cache@.skip(i + 1))) =~= out@ + spec_serialize(cache@.skip(i + 1)));
        }
        i = i + 1;
    }
    proof {
        assert(cache@.skip(i as int) =~= Seq::<(PathModel, u64)>::empty());
        assert(out@ + Seq::<char>::empty() =~= out@);
    }
    from_chars(&out)
}

/// What one persisted line parses as: the text before the first double space
/// as a path, the text between the first and second double space as a
/// decimal hash; `None` when either part is malformed or missing.
pub open spec fn spec_parse_cache_line(line: Seq<char>) -> Option<(PathModel, u64)> {
    let segs = spec_split(line, seq![' ', ' ']);
    if segs.len() >= 2 {
        match spec_parse_path(segs[0]) {
            Some(p) => match spec_parse_u64(segs[1]) {
                Some(h) => Some((p, h)),
                None => None,
            },
            None => None,
        }
    } else {
        None
    }
}

/// The entries read from the given lines, inserted in order into `acc`;
/// empty and malformed lines are skipped.
pub open spec fn spec_read_entries(
    lines: Seq<Seq<char>>,
    acc: Seq<(PathModel, u64)>,
) -> Seq<(PathModel, u64)>
    decreases lines.len(),
{
    if lines.len() == 0 {
        acc
    } else {
        let acc2 = if lines[0].len() == 0 {
            acc
        } else {
            match spec_parse_cache_line(lines[0]) {
                Some((p, h)) => spec_cache_insert(acc, p, h),
                None => acc,
            }
        };
        spec_read_entries(lines.skip(1), acc2)
    }
}

/// Parse a persisted cache text, tolerantly: empty and malformed lines are
/// skipped, later records for the same path replace earlier ones.
pub fn read_cache(data: &str) -> (r: Cache)
    ensures
        r@ == spec_read_entries(
            spec_split(data@, seq!['\n']),
            Seq::<(PathModel, u64)>::empty(),
        ),
{
    let dc = to_chars(data);
    let nl: Vec<char> = vec!['\n'];
    let sep: Vec<char> = vec![' ', ' '];
    let lines = split_chars(&dc, &nl);
    let ghost all_lines = spec_split(data@, seq!['\n']);
    let mut cache = Cache::new();
    let mut i: usize = 0;
    proof {
        assert(nl@ =~= seq!['\n']);
        assert(lines.deep_view() == all_lines);
        assert(all_lines.skip(0) =~= all_lines);
    }
    while i < lines.len()
        invariant
            i <= lines@.len(),
            lines.deep_view() == all_lines,
            sep@ == seq![' ', ' '],
            spec_read_entries(all_lines, Seq::<(PathModel, u64)>::empty()) == spec_read_entries(
                all_lines.skip(i as int),
                cache@,
            ),
        decreases lines@.len() - i,
    {
        proof {
            assert(all_lines.skip(i as int)[0] == lines@[i as int].deep_view());
            assert(lines@[i as int].deep_view() =~= lines@[i as int]@);
            assert(all_lines.skip(i as int).skip(1) =~= all_lines.skip(i + 1));
        }
        let line = &lines[i];
        if line.len() > 0 {
            let segs = split_chars(line, &sep);
            proof {
                assert(segs.deep_view() == spec_split(lines@[i as int]@, seq![' ', ' ']));
            }
            if segs.len() >= 2 {
                proof {
                    assert(segs.deep_view()[0] == segs@[0]@);
                    assert(segs.deep_view()[1] == segs@[1]@);
                }
                let path_text = from_chars(&segs[0]);
                match FilePath::from_str(path_text.as_str()) {
                    Some(p) => {
                        match crate::num::parse_u64(&segs[1]) {
                            Some(h) => {
                                cache.insert(p, h);
                            },
                            None => {},
                        }
                    },
                    None => {},
                }
            }
        }
        i = i + 1;
    }
    proof {
        assert(all_lines.skip(i as int) =~= Seq::<Seq<char>>::empty());
    }
    cache
}

/// Parse a rendered path and hash a file's text: what one file contributes
/// to the cache; `None` when the path has no filename component.
pub fn hash_file(path: &str, content: &str) -> (r: Option<(FilePath, u64)>)
    ensures
        match r {
            Some(pair) => spec_parse_path(path@) == Some(pair.0@) && pair.1 == spec_hash64(
                content@,
            ),
            None => spec_parse_path(path@) == None::<PathModel>,
        },
{
    let p = match FilePath::from_str(path) {
        Some(p) => p,
        None => {
            return None;
        },
    };
    let h = crate::hashing::hash_str(content);
    Some((p, h))
}

/// Hash a file's text into the cache under its path.
pub fn cache_file(file: &FilePath, content: &str, cache: &mut Cache)
    ensures
        final(cache)@ == spec_cache_insert(old(cache)@, file@, spec_hash64(content@)),
{
    let h = crate::hashing::hash_str(content);
    cache.insert(file.clone(), h);
}

/// The paths among `cur` whose hash differs from the cached one or is not
/// cached, in order; a matching cached hash means the file is unchanged.
pub open spec fn spec_modified(
    es: Seq<(PathModel, u64)>,
    cur: Seq<(PathModel, u64)>,
) -> Seq<PathModel>
    decreases cur.len(),
{
    if cur.len() == 0 {
        Seq::<PathModel>::empty()
    } else {
        let rest = spec_modified(es, cur.skip(1));
        if spec_cache_get(es, render_model(cur[0].0)) == Some(cur[0].1) {
            rest
        } else {
            seq![cur[0].0] + rest
        }
    }
}

/// The files among `current` (paths with their present content hashes) that
/// the cache does not record as unchanged.
pub fn modified(cache: &Cache, current: &Vec<(FilePath, u64)>) -> (r: Vec<FilePath>)
    ensures
        paths_view(r@) == spec_modified(cache@, entries_view(current@)),
{
    let ghost cur = entries_view(current@);
    let mut out: Vec<FilePath> = Vec::new();
    let mut i: usize = current.len();
    proof {
        assert(cur.skip(i as int) =~= Seq::<(PathModel, u64)>::empty());
        assert(paths_view(out@) =~= Seq::<PathModel>::empty());
    }
    while i > 0
        invariant
            i <= current@.len(),
            cur == entries_view(current@),
            paths_view(out@) == spec_modified(cache@, cur.skip(i as int)),
        decreases i,
    {
        i = i - 1;
        proof {
            assert(cur.skip(i as int)[0] == cur[i as int]);
            assert(cur.skip(i as int).skip(1) =~= cur.skip(i + 1));
        }
        let (p, h) = (&current[i].0, current[i].1);
        let hit = match cache.get(p) {
            Some(old_h) => old_h == h,
            None => false,
        };
        if !hit {
            let ghost before = paths_view(out@);
            out.insert(0, p.clone());
            proof {
                assert(paths_view(out@) =~= seq![cur[i as int].0] + before);
            }
        }
    }
    proof {
        assert(cur.skip(0) =~= cur);
    }
    out
}

/// Whether `p` lies under the root directory `root`: its directory is the
/// root itself or a subdirectory of it.
pub open spec fn spec_under_root(p: PathModel, root: Seq<char>) -> bool {
    dir_seq(p) == root || (dir_seq(p).len() > root.len() && dir_seq(p).subrange(
        0,
        root.len() as int,
    ) == root && dir_seq(p)[root.len() as int] == '/')
}

/// Whether any file of the modified set lies under the templates root; when
/// one does, templates are not tracked per consumer, so every content file
/// must be re-rendered.
pub fn template_modified(modified: &Vec<FilePath>, templates_root: &str) -> (r: bool)
    ensures
        r == exists|i: int|
            0 <= i < modified@.len() && spec_under_root(modified@[i]@, templates_root@),
{
    let root = to_chars(templates_root);
    let mut i: usize = 0;
    while i < modified.len()
        invariant
            i <= modified@.len(),
            root@ == templates_root@,
            forall|j: int| 0 <= j < i ==> !spec_under_root(modified@[j]@, templates_root@),
        decreases modified@.len() - i,
    {
        let dir = modified[i].dir();
        let dc = to_chars(dir.as_str());
        let hit = if crate::filepath::chars_eq(&dc, &root) {
            true
        } else if dc.len() > root.len() && crate::text::match_at(&dc, &root, 0) && dc[root.len()]
            == '/' {
            proof {
                assert(dc@.subrange(0, root@.len() as int) == root@);
            }
            true
        } else {
            proof {
                if dc@.len() > root@.len() && dc@.subrange(0, root@.len() as int) == root@ && dc@[root@.len() as int] == '/' {
                    assert(crate::text::contains_at(dc@, root@, 0));
                }
            }
            false
        };
        if hit {
            proof {
                assert(spec_under_root(modified@[i as int]@, templates_root@));
            }
            return true;
        }
        i = i + 1;
    }
    false
}

/// Whether the modified set holds `p`: the same file must be rebuilt.
pub open spec fn spec_needs_rebuild(
    p: PathModel,
    modified: Seq<PathModel>,
    template_modified: bool,
) -> bool {
    template_modified || exists|i: int| 0 <= i < modified.len() && modified[i] == p
}

/// Whether a content file must be rebuilt: when any template changed, or
/// when the file itself is in the modified set.
pub fn needs_rebuild(file: &FilePath, modified: &Vec<FilePath>, template_modified: bool) -> (r:
    bool)
    ensures
        r == spec_needs_rebuild(file@, paths_view(modified@), template_modified),
{
    if template_modified {
        return true;
    }
    let mut i: usize = 0;
    while i < modified.len()
        invariant
            i <= modified@.len(),
            forall|j: int| 0 <= j < i ==> paths_view(modified@)[j] != file@,
        decreases modified@.len() - i,
    {
        if &modified[i] == file {
            proof {
                assert(paths_view(modified@)[i as int] == file@);
            }
            return true;
        }
        i = i + 1;
    }
    false
}

/// Cache staleness: a file whose hash stands in the cache and is unchanged
/// on disk is absent from the modified set computed against that cache.
pub proof fn lemma_cache_staleness(
    es: Seq<(PathModel, u64)>,
    cur: Seq<(PathModel, u64)>,
    p: PathModel,
    h: u64,
)
    requires
        spec_cache_get(es, render_model(p)) == Some(h),
        forall|i: int|
            0 <= i < cur.len() && render_model(#[trigger] cur[i].0) == render_model(p)
                ==> cur[i].1 == h,
    ensures
        forall|j: int|
            0 <= j < spec_modified(es, cur).len() ==> render_model(
                #[trigger] spec_modified(es, cur)[j],
            ) != render_model(p),
    decreases cur.len(),
{
    if cur.len() > 0 {
        assert(forall|i: int|
            0 <= i < cur.skip(1).len() && render_model(#[trigger] cur.skip(1)[i].0) == render_model(
                p,
            ) ==> cur.skip(1)[i].1 == h);
        lemma_cache_staleness(es, cur.skip(1), p, h);
        let rest = spec_modified(es, cur.skip(1));
        if spec_cache_get(es, render_model(cur[0].0)) == Some(cur[0].1) {
        } else {
            assert(cur[0].1 != h ==> render_model(cur[0].0) != render_model(p));
            assert(forall|j: int|
                0 <= j < spec_modified(es, cur).len() ==> (j == 0 && spec_modified(es, cur)[j]
                    == cur[0].0) || (j > 0 && spec_modified(es, cur)[j] == rest[j - 1]));
        }
    }
}

/// Template invalidation: once the template-modified flag stands, every
/// content file is rebuilt, whatever its own hash.
pub proof fn lemma_template_invalidation(p: PathModel, modified: Seq<PathModel>)
    ensures
        spec_needs_rebuild(p, modified, true),
{
}

} // verus!
