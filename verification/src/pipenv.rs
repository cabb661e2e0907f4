//! The interpreter-settings record: the required interpreter version and the
//! optional pre-release allowance token, with the setters that parse the two
//! standalone `key = value` lines of the legacy format.

use vstd::prelude::*;

use crate::errors::ParseError;
use crate::strutil::{find_char, find_char_spec, lemma_find_char_props, trim, trim_char_spec,
    trim_matching, trim_spec};

verus! {

/// The mathematical model of the interpreter settings.
pub ghost struct PipenvView {
    pub python_version: Seq<char>,
    pub allow_prereleases: Option<Seq<char>>,
}

/// The interpreter settings of the document.
pub struct Pipenv {
    /// The interpreter version; empty until its line has been seen.
    pub python_version: String,
    /// The pre-release allowance token; recorded but not translated.
    pub allow_prereleases: Option<String>,
}

impl View for Pipenv {
    type V = PipenvView;

    open spec fn view(&self) -> PipenvView {
        PipenvView {
            python_version: self.python_version@,
            allow_prereleases: self.allow_prereleases.deep_view(),
        }
    }
}

impl DeepView for Pipenv {
    type V = PipenvView;

    open spec fn deep_view(&self) -> PipenvView {
        self.view()
    }
}

/// The settings record before any line has been parsed.
pub open spec fn init_pipenv_view() -> PipenvView {
    PipenvView { python_version: Seq::empty(), allow_prereleases: None }
}

/// The text between the first `=` of `s` and the second `=` (or the end);
/// `None` when `s` has no `=` at all.
pub open spec fn second_piece(s: Seq<char>) -> Option<Seq<char>> {
    match find_char_spec(s, '=') {
        None => None,
        Some(i) => {
            let rest = s.subrange(i + 1, s.len() as int);
            match find_char_spec(rest, '=') {
                None => Some(rest),
                Some(j) => Some(rest.subrange(0, j)),
            }
        },
    }
}

/// What `set_py_version` does: the raw value is the piece after the line's
/// first `=`, trimmed of whitespace and then of surrounding double quotes. A
/// line without `=` is malformed.
pub open spec fn set_py_version_spec(p: PipenvView, line: Seq<char>) -> Result<
    PipenvView,
    ParseError,
> {
    match second_piece(line) {
        None => Err(ParseError::MalformedLine),
        Some(v) => Ok(
            PipenvView {
                python_version: trim_char_spec(trim_spec(v), '"'),
                allow_prereleases: p.allow_prereleases,
            },
        ),
    }
}

/// What `set_prereleases_status` does: the raw value is the piece after the
/// line's first `=`, trimmed of whitespace only. A line without `=` is
/// malformed.
pub open spec fn set_prereleases_spec(p: PipenvView, line: Seq<char>) -> Result<
    PipenvView,
    ParseError,
> {
    match second_piece(line) {
        None => Err(ParseError::MalformedLine),
        Some(v) => Ok(
            PipenvView { python_version: p.python_version, allow_prereleases: Some(trim_spec(v)) },
        ),
    }
}

/// Building the settings record from its standalone lines.
pub trait PipenvRequirements where Self: Sized {
    /// The settings record this value stands for.
    spec fn req_view(&self) -> PipenvView;

    /// Parses a `python_version = "…"` line into the record.
    fn set_py_version(&mut self, value: &str) -> (r: Result<(), ParseError>)
        ensures
            match set_py_version_spec(old(self).req_view(), value@) {
                Ok(p) => r is Ok && final(self).req_view() == p,
                Err(e) => r == Err::<(), ParseError>(e) && final(self).req_view() == old(
                    self,
                ).req_view(),
            },
    ;

    /// Parses an `allow_prereleases = …` line into the record.
    fn set_prereleases_status(&mut self, value: &str) -> (r: Result<(), ParseError>)
        ensures
            match set_prereleases_spec(old(self).req_view(), value@) {
                Ok(p) => r is Ok && final(self).req_view() == p,
                Err(e) => r == Err::<(), ParseError>(e) && final(self).req_view() == old(
                    self,
                ).req_view(),
            },
    ;

    /// The empty settings record.
    fn new() -> (r: Self)
        ensures
            r.req_view() == init_pipenv_view(),
    ;
}

/// Extracts the piece of `value` between its first `=` and its second `=`
/// (or the end).
fn second_piece_exec(value: &str) -> (r: Option<String>)
    ensures
        r.deep_view() == second_piece(value@),
{
    let n = value.unicode_len();
    match find_char(value, '=') {
        None => None,
        Some(i) => {
            proof {
                lemma_find_char_props(value@, '=');
            }
            let rest = value.substring_char(i + 1, n);
            match find_char(rest, '=') {
                None => Some(rest.to_owned()),
                Some(j) => {
                    proof {
                        lemma_find_char_props(rest@, '=');
                    }
                    Some(rest.substring_char(0, j).to_owned())
                },
            }
        },
    }
}

impl PipenvRequirements for Pipenv {
    open spec fn req_view(&self) -> PipenvView {
        self@
    }

    fn set_py_version(&mut self, value: &str) -> (r: Result<(), ParseError>)
        ensures
            match set_py_version_spec(old(self).req_view(), value@) {
                Ok(p) => r is Ok && final(self).req_view() == p,
                Err(e) => r == Err::<(), ParseError>(e) && final(self).req_view() == old(
                    self,
                ).req_view(),
            },
    {
        match second_piece_exec(value) {
            None => Err(ParseError::MalformedLine),
            Some(piece) => {
                let v = trim_matching(trim(piece.as_str()), '"');
                self.python_version = v.to_owned();
                Ok(())
            },
        }
    }

    fn set_prereleases_status(&mut self, value: &str) -> (r: Result<(), ParseError>)
        ensures
            match set_prereleases_spec(old(self).req_view(), value@) {
                Ok(p) => r is Ok && final(self).req_view() == p,
                Err(e) => r == Err::<(), ParseError>(e) && final(self).req_view() == old(
                    self,
                ).req_view(),
            },
    {
        match second_piece_exec(value) {
            None => Err(ParseError::MalformedLine),
            Some(piece) => {
                let v = trim(piece.as_str());
                self.allow_prereleases = Some(v.to_owned());
                Ok(())
            },
        }
    }

    fn new() -> (r: Self)
        ensures
            r.req_view() == init_pipenv_view(),
    {
        Pipenv { python_version: String::new(), allow_prereleases: None }
    }
}

} // verus!
