//! The template renderer: applies a template text to a staged document,
//! substituting front-matter-derived variables.
//!
//! The whole-file placeholder `{{data}}` (and its space-padded variant) is
//! replaced by the input text. Each nested-key placeholder `{{data.<key>}}`
//! is replaced, scanning left to right without rescanning replacements, by
//! the stringified metadata value under `<key>`; a key absent from the
//! metadata leaves its placeholder untouched. The reserved `version`
//! variable is always present in the substitution environment. After all
//! substitutions the escape `{\{` is restored to a literal `{{`.

use vstd::prelude::*;

use crate::chars::from_chars;
use crate::chars::to_chars;
use crate::meta::spec_lookup;
use crate::meta::spec_value_text;
use crate::meta::value_text;
use crate::meta::MetaValue;
use crate::text::copy_range;
use crate::text::find_from;
use crate::text::lemma_find_skip;
use crate::text::replace_chars;
use crate::text::spec_find;
use crate::text::spec_replace;

verus! {

/// Why a template could not be applied: the template name is not a path,
/// one of the two files is missing, or reading or writing failed (the
/// operating system's error text retained).
pub enum TemplateErr {
    InvalidPath(String),
    TemplateNotFound(String),
    FileNotFound(String),
    FailedToReadTemplate(String),
    FailedToReadFile(String),
    FailedToWrite(String),
}

/// The text the key substitutes as, if any: the reserved `version` variable
/// always resolves, and any other key resolves to its stringified metadata
/// value when present.
pub open spec fn spec_env_lookup(
    entries: Seq<(String, MetaValue)>,
    version: Seq<char>,
    key: Seq<char>,
) -> Option<Seq<char>> {
    if key == "version"@ {
        Some(version)
    } else {
        match spec_lookup(entries, key) {
            Some(v) => Some(spec_value_text(v)),
            None => None,
        }
    }
}

/// `s` with each `{{data.<key>}}` placeholder replaced by the key's value,
/// scanning left to right; a placeholder without a closing marker, and one
/// whose key does not resolve, are left as they stand.
pub open spec fn spec_subst_vars(
    s: Seq<char>,
    entries: Seq<(String, MetaValue)>,
    version: Seq<char>,
) -> Seq<char>
    decreases s.len(),
{
    let opn = seq!['{', '{', 'd', 'a', 't', 'a', '.'];
    let close = seq!['}', '}'];
    match spec_find(s, opn) {
        None => s,
        Some(i) => if 0 <= i && i + opn.len() <= s.len() {
            let head = s.subrange(0, i);
            let after = s.skip(i + opn.len());
            match spec_find(after, close) {
                None => s,
                Some(j) => if 0 <= j && j + close.len() <= after.len() {
                    let key = after.subrange(0, j);
                    let rest = after.skip(j + close.len());
                    match spec_env_lookup(entries, version, key) {
                        Some(val) => head + val + spec_subst_vars(rest, entries, version),
                        None => head + opn + key + close + spec_subst_vars(rest, entries, version),
                    }
                } else {
                    s
                },
            }
        } else {
            s
        },
    }
}

/// Append a copy of `src` to `dst`.
pub fn push_all(dst: &mut Vec<char>, src: &Vec<char>)
    ensures
        final(dst)@ == old(dst)@ + src@,
{
    let mut k: usize = 0;
    proof {
        assert(dst@ =~= dst@ + src@.subrange(0, 0));
    }
    while k < src.len()
        invariant
            k <= src@.len(),
            dst@ == old(dst)@ + src@.subrange(0, k as int),
        decreases src@.len() - k,
    {
        dst.push(src[k]);
        k = k + 1;
        proof {
            assert(old(dst)@ + src@.subrange(0, k - 1) + seq![src@[k - 1]] =~= old(dst)@
                + src@.subrange(0, k as int));
        }
    }
    proof {
        assert(src@.subrange(0, src@.len() as int) =~= src@);
    }
}

/// Substitute every `{{data.<key>}}` placeholder in `s`.
#[verifier::rlimit(100)]
#[verifier::spinoff_prover]
pub fn subst_vars(s: &Vec<char>, entries: &Vec<(String, MetaValue)>, version: &Vec<char>) -> (r:
    Vec<char>)
    ensures
        r@ == spec_subst_vars(s@, entries@, version@),
{
    proof {
        reveal_strlit("{{data.");
        reveal_strlit("}}");
        reveal_strlit("version");
    }
    let opn = to_chars("{{data.");
    let close = to_chars("}}");
    let verkey = to_chars("version");
    proof {
        assert(opn@ =~= seq!['{', '{', 'd', 'a', 't', 'a', '.']);
        assert(close@ =~= seq!['}', '}']);
    }
    let mut out: Vec<char> = Vec::new();
    let mut pos: usize = 0;
    let n = s.len();
    proof {
        assert(s@.skip(0) =~= s@);
        assert(Seq::<char>::empty() + spec_subst_vars(s@, entries@, version@) =~= spec_subst_vars(
            s@,
            entries@,
            version@,
        ));
    }
    loop
        invariant
            opn@ == seq!['{', '{', 'd', 'a', 't', 'a', '.'],
            close@ == seq!['}', '}'],
            verkey@ == "version"@,
            opn@.len() == 7,
            close@.len() == 2,
            n == s@.len(),
            pos <= n,
            spec_subst_vars(s@, entries@, version@) == out@ + spec_subst_vars(
                s@.skip(pos as int),
                entries@,
                version@,
            ),
        decreases n - pos,
    {
        let ghost rest0 = s@.skip(pos as int);
        let found = find_from(s, &opn, pos);
        proof {
            match found {
                Some(i) => lemma_find_skip(s@, opn@, pos as int, Some(i as int)),
                None => lemma_find_skip(s@, opn@, pos as int, None),
            }
        }
        let i = match found {
            None => {
                let tail = copy_range(s, pos, n);
                push_all(&mut out, &tail);
                proof {
                    assert(tail@ =~= rest0);
                    assert(spec_subst_vars(rest0, entries@, version@) == rest0);
                }
                return out;
            },
            Some(i) => i,
        };
        let after_start = i + 7;
        let ghost after = rest0.skip(i - pos + opn@.len());
        proof {
            assert(after =~= s@.skip(after_start as int));
        }
        let closed = find_from(s, &close, after_start);
        proof {
            match closed {
                Some(j) => lemma_find_skip(s@, close@, after_start as int, Some(j as int)),
                None => lemma_find_skip(s@, close@, after_start as int, None),
            }
        }
        let j = match closed {
            None => {
                let tail = copy_range(s, pos, n);
                push_all(&mut out, &tail);
                proof {
                    assert(tail@ =~= rest0);
                    assert(spec_subst_vars(rest0, entries@, version@) == rest0);
                }
                return out;
            },
            Some(j) => j,
        };
        let key = copy_range(s, after_start, j);
        proof {
            assert(key@ =~= after.subrange(0, j - after_start));
        }
        let head = copy_range(s, pos, i);
        proof {
            assert(head@ =~= rest0.subrange(0, i - pos));
        }
        let ghost out_start = out@;
        push_all(&mut out, &head);
        let resolved: Option<String> = if crate::filepath::chars_eq(&key, &verkey) {
            Some(from_chars(version))
        } else {
            match crate::meta::lookup(entries, &key) {
                Some(v) => Some(value_text(v)),
                None => None,
            }
        };
        proof {
            match &resolved {
                Some(v) => {
                    assert(spec_env_lookup(entries@, version@, key@) == Some(v@));
                },
                None => {
                    assert(spec_env_lookup(entries@, version@, key@) == None::<Seq<char>>);
                },
            }
        }
        match resolved {
            Some(val) => {
                let vc = to_chars(val.as_str());
                push_all(&mut out, &vc);
                proof {
                    assert(out@ =~= out_start + (head@ + vc@));
                }
            },
            None => {
                push_all(&mut out, &opn);
                push_all(&mut out, &key);
                push_all(&mut out, &close);
                proof {
                    assert(out@ =~= out_start + (head@ + opn@ + key@ + close@));
                }
            },
        }
        proof {
            let rest_next = s@.skip(j + 2);
            assert(after.skip(j - after_start + close@.len()) =~= rest_next);
            let i_rel = i - pos;
            let j_rel = j - after_start;
            assert(spec_find(rest0, opn@) == Some(i_rel));
            assert(rest0.skip(i_rel + 7) =~= after);
            assert(spec_find(after, close@) == Some(j_rel));
            match spec_env_lookup(entries@, version@, key@) {
                Some(val) => {
                    assert(spec_subst_vars(rest0, entries@, version@) == head@ + val
                        + spec_subst_vars(rest_next, entries@, version@));
                    assert(out@ + spec_subst_vars(rest_next, entries@, version@) =~= out_start + (
                    head@ + val + spec_subst_vars(rest_next, entries@, version@)));
                },
                None => {
                    assert(spec_subst_vars(rest0, entries@, version@) == head@ + opn@ + key@
                        + close@ + spec_subst_vars(rest_next, entries@, version@));
                    assert(out@ + spec_subst_vars(rest_next, entries@, version@) =~= out_start + (
                    head@ + opn@ + key@ + close@ + spec_subst_vars(rest_next, entries@, version@)));
                },
            }
        }
        pos = j + 2;
    }
}

/// A nested-key placeholder that occurs exactly once is substituted exactly
/// once: when the text's first opener is the placeholder's own, the first
/// closing marker after that opener ends its key, no opener follows the
/// placeholder, and the key resolves, then substitution replaces exactly
/// that occurrence and leaves the text around it unchanged.
pub proof fn lemma_single_placeholder_substitutes_once(
    head: Seq<char>,
    key: Seq<char>,
    tail: Seq<char>,
    entries: Seq<(String, MetaValue)>,
    version: Seq<char>,
)
    requires
        spec_find(
            head + seq!['{', '{', 'd', 'a', 't', 'a', '.'] + key + seq!['}', '}'] + tail,
            seq!['{', '{', 'd', 'a', 't', 'a', '.'],
        ) == Some(head.len() as int),
        spec_find(key + seq!['}', '}'] + tail, seq!['}', '}']) == Some(key.len() as int),
        spec_find(tail, seq!['{', '{', 'd', 'a', 't', 'a', '.']) == None::<int>,
        spec_env_lookup(entries, version, key) is Some,
    ensures
        spec_subst_vars(
            head + seq!['{', '{', 'd', 'a', 't', 'a', '.'] + key + seq!['}', '}'] + tail,
            entries,
            version,
        ) == head + spec_env_lookup(entries, version, key).unwrap() + tail,
{
    let opn = seq!['{', '{', 'd', 'a', 't', 'a', '.'];
    let close = seq!['}', '}'];
    let s = head + opn + key + close + tail;
    let i = head.len() as int;
    assert(s.len() == head.len() + 7 + key.len() + 2 + tail.len());
    assert(s.subrange(0, i) =~= head);
    let after = s.skip(i + 7);
    assert(after =~= key + close + tail);
    assert(spec_find(after, close) == Some(key.len() as int));
    assert(after.subrange(0, key.len() as int) =~= key);
    assert(after.skip(key.len() as int + 2) =~= tail);
    let v = spec_env_lookup(entries, version, key).unwrap();
    assert(spec_subst_vars(s, entries, version) == head + v + spec_subst_vars(
        tail,
        entries,
        version,
    ));
    assert(spec_subst_vars(tail, entries, version) == tail);
}

/// What applying a template yields: the whole-file placeholders replaced by
/// the input text, then the nested-key placeholders substituted, then the
/// brace escape restored.
pub open spec fn spec_render(
    template: Seq<char>,
    data: Seq<char>,
    entries: Seq<(String, MetaValue)>,
    version: Seq<char>,
) -> Seq<char> {
    let t1 = spec_replace(template, "{{data}}"@, data);
    let t2 = spec_replace(t1, "{{ data }}"@, data);
    let t3 = spec_subst_vars(t2, entries, version);
    spec_replace(t3, seq!['{', '\\', '{'], seq!['{', '{'])
}

/// Apply a template text to an input text under the given metadata: replace
/// the whole-file placeholders, substitute the nested-key placeholders, and
/// restore the brace escape.
pub fn apply_template(
    template_text: &str,
    input_text: &str,
    entries: &Vec<(String, MetaValue)>,
    version: &str,
) -> (r: String)
    ensures
        r@ == spec_render(template_text@, input_text@, entries@, version@),
{
    proof {
        reveal_strlit("{{data}}");
        reveal_strlit("{{ data }}");
    }
    let tc = to_chars(template_text);
    let dc = to_chars(input_text);
    let t1 = replace_chars(&tc, &to_chars("{{data}}"), &dc);
    let t2 = replace_chars(&t1, &to_chars("{{ data }}"), &dc);
    let t3 = subst_vars(&t2, entries, &to_chars(version));
    let unesc_pat: Vec<char> = vec!['{', '\\', '{'];
    let unesc_to: Vec<char> = vec!['{', '{'];
    let t4 = replace_chars(&t3, &unesc_pat, &unesc_to);
    from_chars(&t4)
}

impl TemplateErr {
    /// A human-readable account of the failure.
    pub fn message(&self) -> (r: String) {
        let mut m = match self {
            TemplateErr::InvalidPath(_) => String::from_str("invalid file path: "),
            TemplateErr::TemplateNotFound(_) => String::from_str("failed to find template file: "),
            TemplateErr::FileNotFound(_) => String::from_str("failed to find input file: "),
            TemplateErr::FailedToReadTemplate(_) => String::from_str(
                "failed to read template file: ",
            ),
            TemplateErr::FailedToReadFile(_) => String::from_str("failed to read input file: "),
            TemplateErr::FailedToWrite(_) => String::from_str("failed to write output file: "),
        };
        let detail = match self {
            TemplateErr::InvalidPath(d) => d,
            TemplateErr::TemplateNotFound(d) => d,
            TemplateErr::FileNotFound(d) => d,
            TemplateErr::FailedToReadTemplate(d) => d,
            TemplateErr::FailedToReadFile(d) => d,
            TemplateErr::FailedToWrite(d) => d,
        };
        m.append(detail.as_str());
        m
    }
}

} // verus!
