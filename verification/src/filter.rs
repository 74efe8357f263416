//! A filter: one external command stage of a rule's pipeline, optionally
//! capturing its output to a new staged file.
//!
//! A filter with an `outfile` template resolves it against the current path
//! and stages the result (the pipeline's current file advances to it on
//! success); one without runs in place. `give_original` is meaningful only
//! without an `outfile`: the pipeline then hands the next stage the same
//! path either way, and the flag records that the pre-filter content, not
//! whatever the command overwrote in place, is what the author meant to pass
//! on.

use vstd::prelude::*;

use crate::command::spec_command_line;
use crate::command::spec_substitute;
use crate::command::Command;
use crate::command::ExitStatus;
use crate::command::spec_tokenize;
use crate::filepath::spec_parse_path;
use crate::filepath::FilePath;
use crate::filepath::PathModel;
use crate::tempfile::spec_stage;
use crate::tempfile::tempdir;
use crate::text::spec_replace;

verus! {

/// The mathematical shape of a filter.
pub ghost struct FilterModel {
    pub command: Seq<char>,
    pub outfile: Option<Seq<char>>,
    pub give_original: bool,
}

/// An external command stage with an optional output-capture template.
pub struct Filter {
    command: Command,
    outfile: Option<String>,
    pub give_original: bool,
}

impl View for Filter {
    type V = FilterModel;

    closed spec fn view(&self) -> FilterModel {
        FilterModel {
            command: self.command@,
            outfile: match self.outfile {
                Some(o) => Some(o@),
                None => None,
            },
            give_original: self.give_original,
        }
    }
}

/// A filter invocation, ready to launch: the staged output file (when the
/// filter captures output), the substituted command line, and its tokens.
pub struct FilterStep {
    pub outfile: Option<FilePath>,
    pub line: String,
    pub tokens: Vec<String>,
}

/// Where the filter's output is staged for input `p`: its outfile template
/// resolved against `p` (with the brace escape restored), parsed, and mapped
/// through content-addressed staging under the filter's command text; `None`
/// when the resolved text is not a well-formed path.
pub open spec fn spec_filter_stage(f: FilterModel, p: PathModel) -> Option<PathModel> {
    let resolved = spec_replace(
        spec_substitute(f.outfile.unwrap(), p),
        seq!['{', '\\', '{'],
        seq!['{', '{'],
    );
    match spec_parse_path(resolved) {
        Some(q) => Some(spec_stage(f.command, q)),
        None => None,
    }
}

impl Filter {
    /// Wrap a command template with an optional outfile template.
    pub fn new(command: String, outfile: Option<String>, give_original: bool) -> (r: Self)
        ensures
            r@ == (FilterModel {
                command: command@,
                outfile: match outfile {
                    Some(o) => Some(o@),
                    None => None,
                },
                give_original,
            }),
    {
        Self { command: Command::new(command), outfile, give_original }
    }

    /// Whether the filter captures its output to a staged file.
    pub fn has_outfile(&self) -> (r: bool)
        ensures
            r == (self@.outfile is Some),
    {
        self.outfile.is_some()
    }

    /// The staged output location for input `path`; `Err` exactly when the
    /// resolved outfile template is not a well-formed path.
    pub fn tempdir(&self, path: &FilePath) -> (r: Result<FilePath, String>)
        requires
            self@.outfile is Some,
        ensures
            match r {
                Ok(q) => spec_filter_stage(self@, path@) == Some(q@),
                Err(_) => spec_filter_stage(self@, path@) == None::<PathModel>,
            },
    {
        let tpl = match &self.outfile {
            Some(o) => o,
            None => {
                return Err(String::from_str("filter has no outfile"));
            },
        };
        let subbed = crate::command::substitute(tpl.as_str(), path);
        let unesc_pat: Vec<char> = vec!['{', '\\', '{'];
        let unesc_to: Vec<char> = vec!['{', '{'];
        let rc = crate::text::replace_chars(
            &crate::to_chars(subbed.as_str()),
            &unesc_pat,
            &unesc_to,
        );
        let resolved = crate::from_chars(&rc);
        match FilePath::from_str(resolved.as_str()) {
            Some(q) => Ok(tempdir(self.command.str(), &q)),
            None => {
                let mut m = String::from_str("filter outfile ");
                m.append(tpl.as_str());
                m.append(" is not a well-formed path");
                Err(m)
            },
        }
    }

    /// Prepare the filter's invocation against the current path: resolve and
    /// stage the outfile (when one is declared), and substitute and tokenize
    /// the command with `{outfile}` bound to that staged path. `Err` exactly
    /// when the declared outfile does not resolve to a well-formed path.
    pub fn prepare(&self, path: &FilePath) -> (r: Result<FilterStep, String>)
        ensures
            match r {
                Ok(step) => {
                    &&& match step.outfile {
                        Some(out) => self@.outfile is Some && spec_filter_stage(self@, path@)
                            == Some(out@) && step.line@ == spec_command_line(
                            self@.command,
                            Some(path@),
                            Some(out@),
                        ),
                        None => self@.outfile is None && step.line@ == spec_command_line(
                            self@.command,
                            Some(path@),
                            None,
                        ),
                    }
                    &&& step.tokens.deep_view() == spec_tokenize(step.line@)
                },
                Err(_) => self@.outfile is Some && spec_filter_stage(self@, path@)
                    == None::<PathModel>,
            },
    {
        if self.outfile.is_some() {
            let out = match self.tempdir(path) {
                Ok(o) => o,
                Err(e) => {
                    return Err(e);
                },
            };
            let (line, tokens) = self.command.prepare(Some(path), Some(&out));
            Ok(FilterStep { outfile: Some(out), line, tokens })
        } else {
            let (line, tokens) = self.command.prepare(Some(path), None);
            Ok(FilterStep { outfile: None, line, tokens })
        }
    }

    /// Whether the invocation outcome counts as filter success: only a
    /// zero-exit run does.
    pub fn succeeded(status: &ExitStatus) -> (r: bool)
        ensures
            r == (status matches ExitStatus::Success(_)),
    {
        match status {
            ExitStatus::Success(_) => true,
            _ => false,
        }
    }
}

impl Clone for Filter {
    /// Cloning keeps the filter's value.
    fn clone(&self) -> (r: Self)
        ensures
            r@ == self@,
    {
        Self {
            command: Command::new(String::from_str(self.command.str())),
            outfile: match &self.outfile {
                Some(o) => Some(o.clone()),
                None => None,
            },
            give_original: self.give_original,
        }
    }
}

} // verus!
