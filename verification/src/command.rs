//! The command invoker's verified half: placeholder substitution and
//! quote-aware tokenization of a command template.
//!
//! A command template may hold the placeholders `{full}`, `{dir}`, `{name}`,
//! `{ext}` and `{outfile}`, plus the escape `{\{` which is restored to a
//! literal `{{` after substitution. Preparing a command yields the
//! substituted line and its tokens: the first token is the executable, the
//! rest its arguments; an empty token list means the command is invalid and
//! must not be launched. Spawning the process and waiting for it is the
//! embedder's part; its outcome is reported back as an [`ExitStatus`].

use vstd::prelude::*;

use crate::chars::from_chars;
use crate::chars::to_chars;
use crate::filepath::dir_seq;
use crate::filepath::render_model;
use crate::filepath::FilePath;
use crate::filepath::PathModel;
use crate::text::copy_range;
use crate::text::replace_chars;
use crate::text::spec_replace;

verus! {

/// The outcome of running a prepared command: it ran and exited zero, it
/// could not be parsed into an executable form, it ran and exited non-zero
/// (code retained), or it failed to launch or be awaited (the operating
/// system's error text retained). Each variant carries the substituted
/// command line it reports on.
pub enum ExitStatus {
    Success(String),
    InvalidCommand(String),
    NonZero(String, i32),
    Failed(String, String),
}

/// `{full}`, `{dir}`, `{name}` and `{ext}` replaced, in that order, by the
/// corresponding parts of `p`.
pub open spec fn spec_substitute(s: Seq<char>, p: PathModel) -> Seq<char> {
    spec_replace(
        spec_replace(
            spec_replace(spec_replace(s, "{full}"@, render_model(p)), "{dir}"@, dir_seq(p)),
            "{name}"@,
            p.name,
        ),
        "{ext}"@,
        p.ext,
    )
}

/// Replace the path placeholders in `string` by the parts of `path`.
pub fn substitute(string: &str, path: &FilePath) -> (r: String)
    ensures
        r@ == spec_substitute(string@, path@),
{
    proof {
        reveal_strlit("{full}");
        reveal_strlit("{dir}");
        reveal_strlit("{name}");
        reveal_strlit("{ext}");
    }
    let sc = to_chars(string);
    let full = path.full();
    let s1 = replace_chars(&sc, &to_chars("{full}"), &to_chars(full.as_str()));
    let dir = path.dir();
    let s2 = replace_chars(&s1, &to_chars("{dir}"), &to_chars(dir.as_str()));
    let name = path.name();
    let s3 = replace_chars(&s2, &to_chars("{name}"), &to_chars(name.as_str()));
    let ext = path.ext();
    let s4 = replace_chars(&s3, &to_chars("{ext}"), &to_chars(ext.as_str()));
    from_chars(&s4)
}

/// The raw tokens of `s` from the scanner state (`cur`, `in_q`, `acc`):
/// tokens are maximal runs separated by spaces that stand outside double
/// quotes; inside quotes a space does not separate, and a quote preceded by
/// a backslash does not close the quoted run.
pub open spec fn spec_raw_tokens(
    s: Seq<char>,
    cur: Seq<char>,
    in_q: bool,
    acc: Seq<Seq<char>>,
) -> Seq<Seq<char>>
    decreases s.len(),
{
    if s.len() == 0 {
        if cur.len() == 0 {
            acc
        } else {
            acc.push(cur)
        }
    } else {
        let c = s[0];
        if in_q {
            let closing = c == '"' && cur.len() > 0 && cur.last() != '\\';
            spec_raw_tokens(s.skip(1), cur.push(c), !closing, acc)
        } else if c == ' ' {
            if cur.len() == 0 {
                spec_raw_tokens(s.skip(1), cur, false, acc)
            } else {
                spec_raw_tokens(s.skip(1), Seq::<char>::empty(), false, acc.push(cur))
            }
        } else {
            spec_raw_tokens(s.skip(1), cur.push(c), c == '"', acc)
        }
    }
}

/// A raw token cleaned: when the whole token is one double-quoted run its
/// quotes are stripped, and every escaped quote `\"` becomes `"`.
pub open spec fn spec_clean_token(t: Seq<char>) -> Seq<char> {
    let stripped = if t.len() >= 2 && t[0] == '"' && t.last() == '"' {
        t.subrange(1, t.len() - 1)
    } else {
        t
    };
    spec_replace(stripped, seq!['\\', '"'], seq!['"'])
}

/// The tokens of the command line `s`: raw tokens, each cleaned.
pub open spec fn spec_tokenize(s: Seq<char>) -> Seq<Seq<char>> {
    spec_raw_tokens(s, Seq::<char>::empty(), false, Seq::<Seq<char>>::empty()).map_values(
        |t: Seq<char>| spec_clean_token(t),
    )
}

/// Split a command line into cleaned tokens.
pub fn tokenize(s: &Vec<char>) -> (r: Vec<Vec<char>>)
    ensures
        r.deep_view() == spec_tokenize(s@),
{
    let ghost target = spec_raw_tokens(
        s@,
        Seq::<char>::empty(),
        false,
        Seq::<Seq<char>>::empty(),
    );
    let mut raw: Vec<Vec<char>> = Vec::new();
    let mut cur: Vec<char> = Vec::new();
    let mut in_q: bool = false;
    let mut i: usize = 0;
    proof {
        assert(s@.skip(0) =~= s@);
        assert(raw.deep_view() =~= Seq::<Seq<char>>::empty());
    }
    while i < s.len()
        invariant
            i <= s@.len(),
            target == spec_raw_tokens(s@.skip(i as int), cur@, in_q, raw.deep_view()),
        decreases s@.len() - i,
    {
        let ghost rest = s@.skip(i as int);
        proof {
            assert(rest[0] == s@[i as int]);
            assert(rest.skip(1) =~= s@.skip(i + 1));
        }
        let c = s[i];
        if in_q {
            let closing = c == '"' && cur.len() > 0 && cur[cur.len() - 1] != '\\';
            proof {
                if cur@.len() > 0 {
                    assert(cur@.last() == cur@[cur@.len() - 1]);
                }
            }
            cur.push(c);
            in_q = !closing;
        } else if c == ' ' {
            if cur.len() > 0 {
                let ghost old_deep = raw.deep_view();
                let done = cur;
                cur = Vec::new();
                raw.push(done);
                proof {
                    assert(done.deep_view() =~= done@);
                    assert(raw.deep_view() =~= old_deep.push(done@));
                    assert(cur@ =~= Seq::<char>::empty());
                }
            }
        } else {
            cur.push(c);
            in_q = c == '"';
        }
        i = i + 1;
    }
    proof {
        assert(s@.skip(i as int) =~= Seq::<char>::empty());
    }
    if cur.len() > 0 {
        let ghost old_deep = raw.deep_view();
        let done = cur;
        raw.push(done);
        proof {
            assert(done.deep_view() =~= done@);
            assert(raw.deep_view() =~= old_deep.push(done@));
        }
    }
    let ghost raw_deep = raw.deep_view();

    let mut out: Vec<Vec<char>> = Vec::new();
    let mut k: usize = 0;
    let quote_pat: Vec<char> = vec!['\\', '"'];
    let quote_to: Vec<char> = vec!['"'];
    proof {
        assert(out.deep_view() =~= Seq::<Seq<char>>::empty());
        assert(out.deep_view() =~= raw_deep.map_values(
            |t: Seq<char>| spec_clean_token(t),
        ).subrange(0, 0));
    }
    while k < raw.len()
        invariant
            k <= raw@.len(),
            raw.deep_view() == raw_deep,
            quote_pat@ == seq!['\\', '"'],
            quote_to@ == seq!['"'],
            out.deep_view() == raw_deep.map_values(|t: Seq<char>| spec_clean_token(t)).subrange(
                0,
                k as int,
            ),
        decreases raw@.len() - k,
    {
        let t = &raw[k];
        proof {
            assert(raw.deep_view()[k as int] == raw@[k as int].deep_view());
            assert(t.deep_view() =~= t@);
        }
        let stripped: Vec<char> = if t.len() >= 2 && t[0] == '"' && t[t.len() - 1] == '"' {
            proof {
                assert(t@.last() == t@[t@.len() - 1]);
            }
            copy_range(t, 1, t.len() - 1)
        } else {
            copy_range(t, 0, t.len())
        };
        proof {
            assert(t@.subrange(0, t@.len() as int) =~= t@);
        }
        let cleaned = replace_chars(&stripped, &quote_pat, &quote_to);
        let ghost old_deep = out.deep_view();
        out.push(cleaned);
        proof {
            assert(cleaned.deep_view() =~= cleaned@);
            assert(out.deep_view() =~= old_deep.push(cleaned@));
            assert(cleaned@ == spec_clean_token(raw_deep[k as int]));
            assert(out.deep_view() =~= raw_deep.map_values(
                |t: Seq<char>| spec_clean_token(t),
            ).subrange(0, k + 1));
        }
        k = k + 1;
    }
    proof {
        let m = raw_deep.map_values(|t: Seq<char>| spec_clean_token(t));
        assert(m.subrange(0, m.len() as int) =~= m);
    }
    out
}

/// The fully substituted command line: the path placeholders when a path is
/// given, then `{outfile}` when an output file is given, then the escape
/// `{\{` restored to `{{`.
pub open spec fn spec_command_line(
    cmd: Seq<char>,
    path: Option<PathModel>,
    outfile: Option<PathModel>,
) -> Seq<char> {
    let subbed = match path {
        Some(p) => {
            let s = spec_substitute(cmd, p);
            match outfile {
                Some(o) => spec_replace(s, "{outfile}"@, render_model(o)),
                None => s,
            }
        },
        None => cmd,
    };
    spec_replace(subbed, seq!['{', '\\', '{'], seq!['{', '{'])
}

/// A command template with placeholders, resolved once per invocation
/// against a concrete path.
pub struct Command {
    command: String,
}

impl View for Command {
    type V = Seq<char>;

    closed spec fn view(&self) -> Seq<char> {
        self.command@
    }
}

impl Command {
    /// Wrap a command template.
    pub fn new(command: String) -> (r: Self)
        ensures
            r@ == command@,
    {
        Self { command }
    }

    /// The raw template text.
    pub fn str(&self) -> (r: &str)
        ensures
            r@ == self@,
    {
        self.command.as_str()
    }

    /// Resolve the template against `path` (and `outfile`, when given) and
    /// split the result into tokens. An empty token list means the command
    /// cannot be launched and is an invalid-command outcome.
    pub fn prepare(&self, path: Option<&FilePath>, outfile: Option<&FilePath>) -> (r: (
        String,
        Vec<String>,
    ))
        ensures
            r.0@ == spec_command_line(
                self@,
                match path {
                    Some(p) => Some(p@),
                    None => None,
                },
                match outfile {
                    Some(o) => Some(o@),
                    None => None,
                },
            ),
            r.1.deep_view() == spec_tokenize(r.0@),
    {
        let subbed: String = match path {
            Some(p) => {
                let s = substitute(self.command.as_str(), p);
                match outfile {
                    Some(o) => {
                        proof {
                            reveal_strlit("{outfile}");
                        }
                        let full = o.full();
                        let rc = replace_chars(
                            &to_chars(s.as_str()),
                            &to_chars("{outfile}"),
                            &to_chars(full.as_str()),
                        );
                        from_chars(&rc)
                    },
                    None => s,
                }
            },
            None => self.command.clone(),
        };
        let unesc_pat: Vec<char> = vec!['{', '\\', '{'];
        let unesc_to: Vec<char> = vec!['{', '{'];
        let line_chars = replace_chars(&to_chars(subbed.as_str()), &unesc_pat, &unesc_to);
        let line = from_chars(&line_chars);
        let token_chars = tokenize(&line_chars);
        let mut tokens: Vec<String> = Vec::new();
        let mut k: usize = 0;
        proof {
            assert(tokens.deep_view() =~= spec_tokenize(line@).subrange(0, 0));
        }
        while k < token_chars.len()
            invariant
                k <= token_chars@.len(),
                token_chars.deep_view() == spec_tokenize(line@),
                tokens.deep_view() == spec_tokenize(line@).subrange(0, k as int),
            decreases token_chars@.len() - k,
        {
            proof {
                assert(token_chars.deep_view()[k as int] == token_chars@[k as int].deep_view());
                assert(token_chars@[k as int].deep_view() =~= token_chars@[k as int]@);
            }
            let t = from_chars(&token_chars[k]);
            let ghost old_deep = tokens.deep_view();
            tokens.push(t);
            proof {
                assert(tokens.deep_view() =~= old_deep.push(t@));
                assert(tokens.deep_view() =~= spec_tokenize(line@).subrange(0, k + 1));
            }
            k = k + 1;
        }
        proof {
            let m = spec_tokenize(line@);
            assert(m.subrange(0, m.len() as int) =~= m);
        }
        (line, tokens)
    }
}

} // verus!
