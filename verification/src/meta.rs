//! Front matter: the structured metadata block at the head of a content
//! file, separate from its body.
//!
//! A front-matter block opens with a `---` line at the very start of the
//! file and closes at the next `---` line; the text between them is given to
//! the YAML parser, and the text after the closing line is the body. A file
//! with no such block, or whose block is not a YAML mapping, has no metadata
//! and is all body.

use vstd::prelude::*;

use crate::chars::from_chars;
use crate::chars::to_chars;
use crate::text::copy_range;

verus! {

/// A scalar metadata value: a string verbatim, a boolean, a number already
/// in its display form, a null, or anything else in its debug form.
pub enum MetaValue {
    Str(String),
    Bool(bool),
    Num(String),
    Null,
    Other(String),
}

/// The text a metadata value substitutes as: strings, numbers and fallback
/// text verbatim, booleans as `true`/`false`, null as the literal `null`.
pub open spec fn spec_value_text(v: MetaValue) -> Seq<char> {
    match v {
        MetaValue::Str(s) => s@,
        MetaValue::Bool(b) => if b {
            "true"@
        } else {
            "false"@
        },
        MetaValue::Num(n) => n@,
        MetaValue::Null => "null"@,
        MetaValue::Other(s) => s@,
    }
}

/// Render a metadata value as substitution text.
pub fn value_text(v: &MetaValue) -> (r: String)
    ensures
        r@ == spec_value_text(*v),
{
    match v {
        MetaValue::Str(s) => s.clone(),
        MetaValue::Bool(b) => {
            if *b {
                String::from_str("true")
            } else {
                String::from_str("false")
            }
        },
        MetaValue::Num(n) => n.clone(),
        MetaValue::Null => String::from_str("null"),
        MetaValue::Other(s) => s.clone(),
    }
}

/// A front-matter closing line begins at `k`: a `---` at a line start, ended
/// by a newline or by the end of the text.
pub open spec fn fm_terminator_at(s: Seq<char>, k: int) -> bool {
    &&& 4 <= k
    &&& k + 3 <= s.len()
    &&& s[k - 1] == '\n'
    &&& s[k] == '-' && s[k + 1] == '-' && s[k + 2] == '-'
    &&& (k + 3 == s.len() || s[k + 3] == '\n')
}

/// The first front-matter closing line at or after `k`, if any.
pub open spec fn spec_first_terminator(s: Seq<char>, k: int) -> Option<int>
    decreases s.len() - k + 4,
{
    if k < 4 || k + 3 > s.len() {
        None
    } else if fm_terminator_at(s, k) {
        Some(k)
    } else {
        spec_first_terminator(s, k + 1)
    }
}

/// What splitting front matter yields: when the text opens with a `---` line
/// and a closing `---` line follows, the block between them and the body
/// after the closing line; otherwise nothing.
pub open spec fn spec_split_front_matter(s: Seq<char>) -> Option<(Seq<char>, Seq<char>)> {
    if s.len() >= 4 && s[0] == '-' && s[1] == '-' && s[2] == '-' && s[3] == '\n' {
        match spec_first_terminator(s, 4) {
            Some(k) => Some(
                (
                    s.subrange(
                        4,
                        if k == 4 {
                            4
                        } else {
                            k - 1
                        },
                    ),
                    if k + 4 <= s.len() {
                        s.skip(k + 4)
                    } else {
                        Seq::<char>::empty()
                    },
                ),
            ),
            None => None,
        }
    } else {
        None
    }
}

/// No closing line lies in `[lo, k)` and one lies at `k`, so `k` is the
/// first one at or after `lo`.
proof fn lemma_first_terminator_found(s: Seq<char>, lo: int, k: int)
    requires
        4 <= lo <= k,
        forall|j: int| lo <= j < k ==> !fm_terminator_at(s, j),
        fm_terminator_at(s, k),
    ensures
        spec_first_terminator(s, lo) == Some(k),
    decreases k - lo,
{
    if lo < k {
        lemma_first_terminator_found(s, lo + 1, k);
    }
}

/// No closing line lies at or after `lo`.
proof fn lemma_first_terminator_missing(s: Seq<char>, lo: int)
    requires
        4 <= lo,
        forall|j: int| lo <= j ==> !fm_terminator_at(s, j),
    ensures
        spec_first_terminator(s, lo) == None::<int>,
    decreases s.len() - lo + 4,
{
    if lo + 3 <= s.len() {
        lemma_first_terminator_missing(s, lo + 1);
    }
}

/// Split a recognized front-matter block off the head of `content`: the
/// block's text and the body after it, or `None` when no block is present.
pub fn split_front_matter(content: &str) -> (r: Option<(String, String)>)
    ensures
        match r {
            Some(p) => spec_split_front_matter(content@) == Some((p.0@, p.1@)),
            None => spec_split_front_matter(content@) == None::<(Seq<char>, Seq<char>)>,
        },
{
    let s = to_chars(content);
    let n = s.len();
    if n < 4 || !(s[0] == '-' && s[1] == '-' && s[2] == '-' && s[3] == '\n') {
        return None;
    }
    let mut k: usize = 4;
    loop
        invariant
            s@ == content@,
            n == s@.len(),
            n >= 4,
            s@[0] == '-' && s@[1] == '-' && s@[2] == '-' && s@[3] == '\n',
            4 <= k <= n,
            forall|j: int| 4 <= j < k ==> !fm_terminator_at(s@, j),
        decreases n + 4 - k,
    {
        if k > n - 3 {
            proof {
                assert(forall|j: int| k <= j ==> !fm_terminator_at(s@, j));
                lemma_first_terminator_missing(s@, 4);
            }
            return None;
        }
        if s[k - 1] == '\n' && s[k] == '-' && s[k + 1] == '-' && s[k + 2] == '-' && (k + 3 == n
            || s[k + 3] == '\n') {
            proof {
                lemma_first_terminator_found(s@, 4, k as int);
            }
            let block = if k == 4 {
                copy_range(&s, 4, 4)
            } else {
                copy_range(&s, 4, k - 1)
            };
            let body = if k <= n - 4 {
                copy_range(&s, k + 4, n)
            } else {
                Vec::new()
            };
            proof {
                if k + 4 <= n {
                    assert(body@ =~= s@.skip(k + 4));
                }
            }
            return Some((from_chars(&block), from_chars(&body)));
        }
        k = k + 1;
    }
}

/// What the YAML parser makes of a front-matter block: its top-level mapping
/// entries, or nothing when the text is not valid YAML or not a mapping. A
/// function of the block text alone: parsing is deterministic, and a mapping
/// keeps its entries in document order.
pub uninterp spec fn yaml_entries(block: Seq<char>) -> Option<Seq<(String, MetaValue)>>;

/// Relies on `serde_yaml::from_str` and `serde_yaml::Value::as_mapping`:
/// parses a YAML document and, when it is a mapping, hands back its
/// top-level entries in order, string keys verbatim and other keys in debug
/// form; string values verbatim, booleans as booleans, numbers in their
/// display form, nulls as null, anything else in debug form. `None` when the
/// text is not valid YAML or not a mapping. Both parsing and the order of a
/// mapping's entries depend on the block text alone, so the result is named
/// by `yaml_entries`.
#[verifier::external_body]
fn yaml_mapping_entries(block: &str) -> (r: Option<Vec<(String, MetaValue)>>)
    ensures
        match r {
            Some(v) => yaml_entries(block@) == Some(v@),
            None => yaml_entries(block@) == None::<Seq<(String, MetaValue)>>,
        },
{
    let doc: serde_yaml::Value = serde_yaml::from_str(block).ok()?;
    let mapping = doc.as_mapping()?;
    Some(mapping.iter().map(|(key, value)| (
        match key {
            serde_yaml::Value::String(k) => k.clone(),
            other => format!("{:?}", other),
        },
        match value {
            serde_yaml::Value::String(x) => MetaValue::Str(x.clone()),
            serde_yaml::Value::Bool(b) => MetaValue::Bool(*b),
            serde_yaml::Value::Number(x) => MetaValue::Num(x.to_string()),
            serde_yaml::Value::Null => MetaValue::Null,
            other => MetaValue::Other(format!("{:?}", other)),
        },
    )).collect())
}

/// Split off and parse the front matter of a content file: its metadata
/// entries and the remaining body. A file without a recognized block, or
/// whose block the YAML parser rejects or does not read as a mapping, has no
/// metadata, and the whole file is the body.
pub fn parse_front_matter(content: &str) -> (r: (Vec<(String, MetaValue)>, String))
    ensures
        spec_split_front_matter(content@) is None ==> r.0@.len() == 0 && r.1@ == content@,
        spec_split_front_matter(content@) matches Some(p) ==> (match yaml_entries(p.0) {
            Some(es) => r.0@ == es && r.1@ == p.1,
            None => r.0@.len() == 0 && r.1@ == content@,
        }),
{
    match split_front_matter(content) {
        Some((block, body)) => {
            match yaml_mapping_entries(block.as_str()) {
                Some(entries) => (entries, body),
                None => (Vec::new(), content.to_owned()),
            }
        },
        None => (Vec::new(), content.to_owned()),
    }
}

/// The first value under `key` among the metadata entries, if any.
pub open spec fn spec_lookup(entries: Seq<(String, MetaValue)>, key: Seq<char>) -> Option<
    MetaValue,
>
    decreases entries.len(),
{
    if entries.len() == 0 {
        None
    } else if entries[0].0@ == key {
        Some(entries[0].1)
    } else {
        spec_lookup(entries.skip(1), key)
    }
}

/// Look a key up among the metadata entries.
pub fn lookup<'a>(entries: &'a Vec<(String, MetaValue)>, key: &Vec<char>) -> (r: Option<
    &'a MetaValue,
>)
    ensures
        match r {
            Some(v) => spec_lookup(entries@, key@) == Some(*v),
            None => spec_lookup(entries@, key@) == None::<MetaValue>,
        },
{
    let mut i: usize = 0;
    proof {
        assert(entries@.skip(0) =~= entries@);
    }
    while i < entries.len()
        invariant
            i <= entries@.len(),
            spec_lookup(entries@, key@) == spec_lookup(entries@.skip(i as int), key@),
        decreases entries@.len() - i,
    {
        let kc = to_chars(entries[i].0.as_str());
        proof {
            assert(entries@.skip(i as int)[0] == entries@[i as int]);
            assert(entries@.skip(i as int).skip(1) =~= entries@.skip(i + 1));
        }
        if crate::filepath::chars_eq(&kc, key) {
            return Some(&entries[i].1);
        }
        i = i + 1;
    }
    None
}

} // verus!
