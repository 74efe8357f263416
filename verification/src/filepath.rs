//! The path model: a file path decomposed into directory, stem and
//! extension, with prefix stripping and adding used to retarget a file
//! between the source, output and staging trees.
//!
//! A rendered path joins as `dir/name.ext`, omitting the directory part when
//! absent and the dot when the extension is empty. A parsed directory is
//! never the empty string (such a prefix is dropped), so every operation
//! here preserves the invariant `wf_model`.

use vstd::prelude::*;

use crate::chars::from_chars;
use crate::chars::to_chars;
use crate::text::copy_range;

verus! {

/// The mathematical shape of a path: directory, stem, extension.
pub ghost struct PathModel {
    pub dir: Option<Seq<char>>,
    pub name: Seq<char>,
    pub ext: Seq<char>,
}

/// A file path split into an optional directory, a stem and an extension.
pub struct FilePath {
    dir: Option<String>,
    pub name: String,
    pub ext: String,
}

impl View for FilePath {
    type V = PathModel;

    closed spec fn view(&self) -> PathModel {
        PathModel {
            dir: match self.dir {
                Some(d) => Some(d@),
                None => None,
            },
            name: self.name@,
            ext: self.ext@,
        }
    }
}

/// A present directory part is never the empty string.
pub open spec fn wf_model(p: PathModel) -> bool {
    match p.dir {
        Some(d) => d.len() > 0,
        None => true,
    }
}

/// The directory part, or the empty sequence when absent.
pub open spec fn dir_seq(p: PathModel) -> Seq<char> {
    match p.dir {
        Some(d) => d,
        None => Seq::<char>::empty(),
    }
}

/// The rendered form of a path: `dir/name.ext` with empty parts omitted.
pub open spec fn render_model(p: PathModel) -> Seq<char> {
    (match p.dir {
        Some(d) => d + seq!['/'],
        None => Seq::<char>::empty(),
    }) + p.name + (if p.ext.len() == 0 {
        Seq::<char>::empty()
    } else {
        seq!['.'] + p.ext
    })
}

/// Index of the last occurrence of `c` in `s`, if any.
pub open spec fn spec_rfind_char(s: Seq<char>, c: char) -> Option<int>
    decreases s.len(),
{
    if s.len() == 0 {
        None
    } else if s.last() == c {
        Some(s.len() - 1)
    } else {
        spec_rfind_char(s.drop_last(), c)
    }
}

/// `spec_rfind_char` returns exactly the greatest index holding `c`.
pub proof fn lemma_rfind_characterization(s: Seq<char>, c: char)
    ensures
        match spec_rfind_char(s, c) {
            Some(i) => 0 <= i < s.len() && s[i] == c && forall|j: int|
                i < j < s.len() ==> s[j] != c,
            None => forall|j: int| 0 <= j < s.len() ==> s[j] != c,
        },
    decreases s.len(),
{
    if s.len() == 0 {
    } else if s.last() == c {
    } else {
        lemma_rfind_characterization(s.drop_last(), c);
        assert(forall|j: int| 0 <= j < s.len() - 1 ==> s.drop_last()[j] == s[j]);
        assert(s[s.len() - 1] != c);
    }
}

/// Index of the last occurrence of `c`, scanning backwards.
pub fn rfind_char(s: &Vec<char>, c: char) -> (r: Option<usize>)
    ensures
        match r {
            Some(i) => spec_rfind_char(s@, c) == Some(i as int),
            None => spec_rfind_char(s@, c) == None::<int>,
        },
{
    let mut k: usize = s.len();
    proof {
        assert(s@.subrange(0, s@.len() as int) =~= s@);
    }
    while k > 0
        invariant
            k <= s@.len(),
            spec_rfind_char(s@, c) == spec_rfind_char(s@.subrange(0, k as int), c),
        decreases k,
    {
        proof {
            assert(s@.subrange(0, k as int).last() == s@[k - 1]);
            assert(s@.subrange(0, k as int).drop_last() =~= s@.subrange(0, k - 1));
        }
        if s[k - 1] == c {
            return Some(k - 1);
        }
        k = k - 1;
    }
    proof {
        assert(s@.subrange(0, 0) =~= Seq::<char>::empty());
    }
    None
}

/// What `FilePath::from_str` yields: the text after the last `/` is the
/// filename (empty means the path names only a directory and is rejected);
/// the text before it, when non-empty, is the directory; the filename splits
/// at its last dot into stem and extension, except that a leading or
/// trailing dot stays with the stem or is dropped, respectively.
pub open spec fn spec_parse_path(s: Seq<char>) -> Option<PathModel> {
    let sl = spec_rfind_char(s, '/');
    let dir = match sl {
        Some(i) => if i > 0 {
            Some(s.subrange(0, i))
        } else {
            None
        },
        None => None,
    };
    let fname = match sl {
        Some(i) => s.skip(i + 1),
        None => s,
    };
    if fname.len() == 0 {
        None
    } else {
        match spec_rfind_char(fname, '.') {
            Some(j) => if j > 0 && j < fname.len() - 1 {
                Some(PathModel { dir, name: fname.subrange(0, j), ext: fname.skip(j + 1) })
            } else if j > 0 {
                Some(PathModel { dir, name: fname.subrange(0, j), ext: Seq::<char>::empty() })
            } else {
                Some(PathModel { dir, name: fname, ext: Seq::<char>::empty() })
            },
            None => Some(PathModel { dir, name: fname, ext: Seq::<char>::empty() }),
        }
    }
}

/// The filename component of a rendered path: the text after the last `/`.
pub open spec fn spec_filename_of(s: Seq<char>) -> Seq<char> {
    match spec_rfind_char(s, '/') {
        Some(i) => s.skip(i + 1),
        None => s,
    }
}

/// A rendered path string that parsing does not change: its filename
/// component is non-empty, any directory part before the last `/` is
/// non-empty, and the filename does not end in a dot that is not also its
/// first character.
pub open spec fn well_formed_path_str(s: Seq<char>) -> bool {
    &&& spec_filename_of(s).len() > 0
    &&& match spec_rfind_char(s, '/') {
        Some(i) => i > 0,
        None => true,
    }
    &&& match spec_rfind_char(spec_filename_of(s), '.') {
        Some(j) => j == 0 || j < spec_filename_of(s).len() - 1,
        None => true,
    }
}

/// Path round trip: parsing a well-formed rendered path string and rendering
/// the result gives back the same string.
#[verifier::rlimit(50)]
#[verifier::spinoff_prover]
pub proof fn lemma_parse_render_round_trip(s: Seq<char>)
    requires
        well_formed_path_str(s),
    ensures
        spec_parse_path(s) matches Some(p) && render_model(p) == s,
{
    lemma_rfind_characterization(s, '/');
    let fname = spec_filename_of(s);
    let sl = spec_rfind_char(s, '/');
    lemma_rfind_characterization(fname, '.');
    let p = spec_parse_path(s).unwrap();
    match spec_rfind_char(fname, '.') {
        Some(j) => {
            if j > 0 && j < fname.len() - 1 {
                assert(fname =~= fname.subrange(0, j) + seq![fname[j]] + fname.skip(j + 1));
                assert(p.name + (seq!['.'] + p.ext) =~= fname);
            } else if j > 0 {
                assert(j == fname.len() - 1);
                assert(false);
            } else {
                assert(p.name + Seq::<char>::empty() =~= fname);
            }
        },
        None => {
            assert(p.name + Seq::<char>::empty() =~= fname);
        },
    }
    assert(p.name + (if p.ext.len() == 0 {
        Seq::<char>::empty()
    } else {
        seq!['.'] + p.ext
    }) =~= fname);
    match sl {
        Some(i) => {
            assert(s[i] == '/');
            assert(s =~= s.subrange(0, i) + seq![s[i]] + s.skip(i + 1));
            assert(p.dir == Some(s.subrange(0, i)));
            assert(render_model(p) =~= s);
        },
        None => {
            assert(render_model(p) =~= s);
        },
    }
}

/// The directory of `p` starts with the prefix `pre`: it is `pre` itself, or
/// `pre` followed by `/` and a non-empty remainder.
pub open spec fn dir_starts_with(p: PathModel, pre: Seq<char>) -> bool {
    match p.dir {
        Some(d) => d == pre || (d.len() > pre.len() + 1 && d.subrange(0, pre.len() as int) == pre
            && d[pre.len() as int] == '/'),
        None => false,
    }
}

/// Prefix idempotence: stripping a prefix and putting it back restores the
/// original path, for any path whose directory started with that prefix.
pub proof fn lemma_strip_then_prefix(p: PathModel, pre: Seq<char>)
    requires
        pre.len() > 0,
        pre.last() != '/',
        dir_starts_with(p, pre),
    ensures
        spec_prefix(spec_strip_prefix(p, pre), pre) == p,
        spec_prefix(spec_strip_prefix(p, pre), pre).dir == p.dir,
{
    let d = p.dir.unwrap();
    assert(normalize_prefix(pre) == pre);
    if d == pre {
    } else {
        let rest = d.skip(pre.len() as int + 1);
        assert(rest.len() > 0);
        assert(pre + seq!['/'] + rest =~= d);
    }
}

/// Remove one trailing `/` from a prefix, if present.
pub open spec fn normalize_prefix(pre: Seq<char>) -> Seq<char> {
    if pre.len() > 0 && pre.last() == '/' {
        pre.drop_last()
    } else {
        pre
    }
}

/// What `FilePath::strip_prefix` yields: when the directory equals the
/// (normalized) prefix, or starts with it followed by `/`, that much is
/// removed; otherwise, and for an empty prefix, the path is unchanged.
pub open spec fn spec_strip_prefix(p: PathModel, pre: Seq<char>) -> PathModel {
    let q = normalize_prefix(pre);
    match p.dir {
        None => p,
        Some(d) => if q.len() == 0 {
            p
        } else if d == q {
            PathModel { dir: None, name: p.name, ext: p.ext }
        } else if d.len() > q.len() + 1 && d.subrange(0, q.len() as int) == q && d[q.len() as int]
            == '/' {
            PathModel { dir: Some(d.skip(q.len() as int + 1)), name: p.name, ext: p.ext }
        } else if d.len() == q.len() + 1 && d.subrange(0, q.len() as int) == q && d[q.len() as int]
            == '/' {
            PathModel { dir: None, name: p.name, ext: p.ext }
        } else {
            p
        },
    }
}

/// What `FilePath::prefix` yields: the (normalized) prefix is put in front
/// of the directory, separated by `/`; an empty prefix leaves the path
/// unchanged.
pub open spec fn spec_prefix(p: PathModel, pre: Seq<char>) -> PathModel {
    let q = normalize_prefix(pre);
    if q.len() == 0 {
        p
    } else {
        match p.dir {
            None => PathModel { dir: Some(q), name: p.name, ext: p.ext },
            Some(d) => PathModel { dir: Some(q + seq!['/'] + d), name: p.name, ext: p.ext },
        }
    }
}

/// The two sequences hold the same characters.
pub fn chars_eq(a: &Vec<char>, b: &Vec<char>) -> (r: bool)
    ensures
        r == (a@ == b@),
{
    if a.len() != b.len() {
        return false;
    }
    let mut i: usize = 0;
    while i < a.len()
        invariant
            a@.len() == b@.len(),
            i <= a@.len(),
            forall|j: int| 0 <= j < i ==> a@[j] == b@[j],
        decreases a@.len() - i,
    {
        if a[i] != b[i] {
            return false;
        }
        i = i + 1;
    }
    proof {
        assert(a@ =~= b@);
    }
    true
}

impl FilePath {
    /// The empty path: no directory, empty stem, empty extension.
    pub fn new() -> (r: Self)
        ensures
            r@ == (PathModel {
                dir: None,
                name: Seq::<char>::empty(),
                ext: Seq::<char>::empty(),
            }),
            wf_model(r@),
    {
        Self { dir: None, name: String::new(), ext: String::new() }
    }

    /// A path with no directory and the given stem and extension.
    pub fn with_name_ext(name: String, ext: String) -> (r: Self)
        ensures
            r@ == (PathModel { dir: None, name: name@, ext: ext@ }),
            wf_model(r@),
    {
        Self { dir: None, name, ext }
    }

    /// Decompose a rendered path; `None` when no filename component is
    /// present (a directory-only path is not a valid `FilePath`).
    pub fn from_str(path: &str) -> (r: Option<Self>)
        ensures
            match r {
                Some(fp) => spec_parse_path(path@) == Some(fp@) && wf_model(fp@) && fp@.name.len()
                    > 0,
                None => spec_parse_path(path@) == None::<PathModel>,
            },
    {
        let cs = to_chars(path);
        let sl = rfind_char(&cs, '/');
        let (dirv, fname): (Option<Vec<char>>, Vec<char>) = match sl {
            Some(i) => {
                proof {
                    lemma_rfind_characterization(cs@, '/');
                }
                let d: Option<Vec<char>> = if i > 0 {
                    Some(copy_range(&cs, 0, i))
                } else {
                    None
                };
                (d, copy_range(&cs, i + 1, cs.len()))
            },
            None => (None, copy_range(&cs, 0, cs.len())),
        };
        proof {
            assert(cs@.subrange(0, cs@.len() as int) =~= cs@);
            if sl is Some {
                let i = sl.unwrap() as int;
                assert(cs@.subrange(i + 1, cs@.len() as int) =~= cs@.skip(i + 1));
            }
        }
        if fname.len() == 0 {
            return None;
        }
        let dot = rfind_char(&fname, '.');
        let (namev, extv): (Vec<char>, Vec<char>) = match dot {
            Some(j) => {
                proof {
                    lemma_rfind_characterization(fname@, '.');
                }
                if j > 0 && j < fname.len() - 1 {
                    proof {
                        assert(fname@.subrange(j + 1, fname@.len() as int) =~= fname@.skip(j + 1));
                    }
                    (copy_range(&fname, 0, j), copy_range(&fname, j + 1, fname.len()))
                } else if j > 0 {
                    (copy_range(&fname, 0, j), Vec::new())
                } else {
                    let n = fname.len();
                    (copy_range(&fname, 0, n), Vec::new())
                }
            },
            None => {
                let n = fname.len();
                (copy_range(&fname, 0, n), Vec::new())
            },
        };
        proof {
            assert(fname@.subrange(0, fname@.len() as int) =~= fname@);
        }
        Some(
            Self {
                dir: match dirv {
                    Some(d) => Some(from_chars(&d)),
                    None => None,
                },
                name: from_chars(&namev),
                ext: from_chars(&extv),
            },
        )
    }

    /// Remove a leading directory prefix; unchanged when the directory does
    /// not start with it.
    pub fn strip_prefix(self, pre: &str) -> (r: Self)
        ensures
            r@ == spec_strip_prefix(self@, pre@),
            wf_model(self@) ==> wf_model(r@),
    {
        let mut q = to_chars(pre);
        if q.len() > 0 && q[q.len() - 1] == '/' {
            proof {
                assert(q@.drop_last() =~= q@.subrange(0, q@.len() - 1));
            }
            let _ = q.pop();
        }
        proof {
            assert(q@ =~= normalize_prefix(pre@));
        }
        let dir = match &self.dir {
            None => {
                return self;
            },
            Some(d) => d,
        };
        if q.len() == 0 {
            return self;
        }
        let dc = to_chars(dir.as_str());
        if chars_eq(&dc, &q) {
            return Self { dir: None, name: self.name, ext: self.ext };
        }
        if dc.len() > q.len() && crate::text::match_at(&dc, &q, 0) && dc[q.len()] == '/' {
            proof {
                assert(dc@.subrange(0, q@.len() as int) == q@);
            }
            if dc.len() == q.len() + 1 {
                return Self { dir: None, name: self.name, ext: self.ext };
            }
            let rest = copy_range(&dc, q.len() + 1, dc.len());
            proof {
                assert(rest@ =~= dc@.skip(q@.len() as int + 1));
            }
            return Self { dir: Some(from_chars(&rest)), name: self.name, ext: self.ext };
        }
        self
    }

    /// Put a directory prefix in front of the current directory.
    pub fn prefix(self, pre: &str) -> (r: Self)
        ensures
            r@ == spec_prefix(self@, pre@),
            wf_model(self@) ==> wf_model(r@),
    {
        let mut q = to_chars(pre);
        if q.len() > 0 && q[q.len() - 1] == '/' {
            proof {
                assert(q@.drop_last() =~= q@.subrange(0, q@.len() - 1));
            }
            let _ = q.pop();
        }
        proof {
            assert(q@ =~= normalize_prefix(pre@));
        }
        if q.len() == 0 {
            return self;
        }
        match &self.dir {
            None => Self { dir: Some(from_chars(&q)), name: self.name, ext: self.ext },
            Some(d) => {
                let mut nd = from_chars(&q);
                nd.append("/");
                nd.append(d.as_str());
                proof {
                    reveal_strlit("/");
                    assert("/"@ =~= seq!['/']);
                    assert(nd@ =~= q@ + seq!['/'] + d@);
                }
                Self { dir: Some(nd), name: self.name, ext: self.ext }
            },
        }
    }

    /// The rendered form of the path.
    pub fn full(&self) -> (r: String)
        ensures
            r@ == render_model(self@),
    {
        let mut r = String::new();
        match &self.dir {
            Some(d) => {
                r.append(d.as_str());
                r.append("/");
            },
            None => {},
        }
        r.append(self.name.as_str());
        if !self.ext.as_str().is_empty() {
            r.append(".");
            r.append(self.ext.as_str());
        }
        proof {
            reveal_strlit("/");
            reveal_strlit(".");
            assert("/"@ =~= seq!['/']);
            assert("."@ =~= seq!['.']);
            assert(r@ =~= render_model(self@));
        }
        r
    }

    /// The stem.
    pub fn name(&self) -> (r: String)
        ensures
            r@ == self@.name,
    {
        self.name.clone()
    }

    /// The directory part, or the empty string when absent.
    pub fn dir(&self) -> (r: String)
        ensures
            r@ == dir_seq(self@),
    {
        match &self.dir {
            Some(d) => d.clone(),
            None => String::new(),
        }
    }

    /// The extension.
    pub fn ext(&self) -> (r: String)
        ensures
            r@ == self@.ext,
    {
        self.ext.clone()
    }
}

impl Clone for FilePath {
    /// Cloning keeps the path's value.
    fn clone(&self) -> (r: Self)
        ensures
            r@ == self@,
    {
        Self {
            dir: match &self.dir {
                Some(d) => Some(d.clone()),
                None => None,
            },
            name: self.name.clone(),
            ext: self.ext.clone(),
        }
    }
}

impl PartialEq for FilePath {
    /// Paths are equal when all three parts are equal.
    fn eq(&self, other: &Self) -> (r: bool) {
        let dir_eq = match (&self.dir, &other.dir) {
            (Some(a), Some(b)) => *a == *b,
            (None, None) => true,
            _ => false,
        };
        dir_eq && self.name == other.name && self.ext == other.ext
    }
}

impl vstd::std_specs::cmp::PartialEqSpecImpl for FilePath {
    open spec fn obeys_eq_spec() -> bool {
        true
    }

    open spec fn eq_spec(&self, other: &Self) -> bool {
        self@ == other@
    }
}

impl Eq for FilePath {

}

} // verus!
