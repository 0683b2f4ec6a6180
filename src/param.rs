//! A parameter of the projector: a default, an optional readable value, an
//! optional validation pattern, and whether it is reachable with the lamp off.

use regex::Regex;
use vstd::prelude::*;

use crate::commands::CommandError;
use crate::text::same_text;

verus! {

/// Whether `pattern` compiles as a regular expression that matches somewhere
/// in `text`.
pub uninterp spec fn pattern_finds(pattern: Seq<char>, text: Seq<char>) -> bool;

/// Relies on regex::Regex::new and regex::Regex::is_match: whether `pattern`
/// compiles and matches somewhere in `text` (an unanchored search), which
/// depends on the two strings alone. A pattern that does not compile matches
/// nothing.
#[verifier::external_body]
fn finds(pattern: &str, text: &str) -> (r: bool)
    ensures
        r == pattern_finds(pattern@, text@),
{
    match Regex::new(pattern) {
        Ok(re) => re.is_match(text),
        Err(_) => false,
    }
}

/// The value that resets a parameter to its default.
pub open spec fn init_token() -> Seq<char> {
    seq!['I', 'N', 'I', 'T']
}

/// A parameter as the contracts see it.
pub struct ParamView {
    pub default: Seq<char>,
    pub value: Option<Seq<char>>,
    pub validation: Option<Seq<char>>,
    pub supported_in_power_off: bool,
}

impl ParamView {
    /// The parameter that `Param::new` builds: an empty default means no
    /// readable value, an empty pattern means no writes.
    pub open spec fn built(default: Seq<char>, validation: Seq<char>, supported_in_power_off: bool) -> ParamView {
        ParamView {
            default,
            value: if default.len() > 0 { Some(default) } else { None },
            validation: if validation.len() > 0 { Some(validation) } else { None },
            supported_in_power_off,
        }
    }

    /// What a read returns: the value when there is a non-empty one.
    pub open spec fn read(self) -> Result<Seq<char>, CommandError> {
        match self.value {
            Some(v) => if v.len() > 0 { Ok(v) } else { Err(CommandError::InvalidCommand) },
            None => Err(CommandError::InvalidCommand),
        }
    }

    /// The parameter and the result after writing `v`, where `accepted` says
    /// whether the validation pattern matched `v`.
    pub open spec fn written(self, v: Seq<char>, accepted: bool) -> (ParamView, Result<(), CommandError>) {
        if self.validation is None {
            (self, Err(CommandError::InvalidCommand))
        } else if !accepted {
            (self, Err(CommandError::InvalidValue))
        } else if self.value is Some {
            let stored = if v == init_token() { self.default } else { v };
            (ParamView { value: Some(stored), ..self }, Ok(()))
        } else {
            (self, Ok(()))
        }
    }

    /// Whether the validation pattern accepts `v`.
    pub open spec fn accepts(self, v: Seq<char>) -> bool {
        match self.validation {
            Some(p) => pattern_finds(p, v),
            None => false,
        }
    }

    /// The parameter and the result after writing `v`.
    pub open spec fn set(self, v: Seq<char>) -> (ParamView, Result<(), CommandError>) {
        self.written(v, self.accepts(v))
    }
}

/// A parameter of the projector.
pub struct Param {
    default: String,
    value: Option<String>,
    validation: Option<String>,
    supported_in_power_off: bool,
}

impl View for Param {
    type V = ParamView;

    closed spec fn view(&self) -> ParamView {
        ParamView {
            default: self.default@,
            value: match self.value {
                Some(v) => Some(v@),
                None => None,
            },
            validation: match self.validation {
                Some(p) => Some(p@),
                None => None,
            },
            supported_in_power_off: self.supported_in_power_off,
        }
    }
}

impl Param {
    /// A parameter with the given default, validation pattern and power-off
    /// access. An empty default gives a write-only parameter, an empty
    /// pattern a read-only one.
    pub fn new(default: &str, validation: &str, supported_in_power_off: bool) -> (p: Param)
        ensures
            p@ == ParamView::built(default@, validation@, supported_in_power_off),
    {
        let validation = if !validation.is_empty() {
            Some(validation.to_owned())
        } else {
            None
        };
        let value = if !default.is_empty() {
            Some(default.to_owned())
        } else {
            None
        };
        Param { default: default.to_owned(), value, validation, supported_in_power_off }
    }

    /// The current value, if the parameter has a non-empty one.
    pub fn get_value(&self) -> (r: Result<String, CommandError>)
        ensures
            r matches Ok(s) ==> self@.read() == Ok::<Seq<char>, CommandError>(s@),
            r matches Err(e) ==> self@.read() == Err::<Seq<char>, CommandError>(e),
    {
        if let Some(value) = &self.value {
            if !value.as_str().is_empty() {
                return Ok(value.clone());
            }
        }
        Err(CommandError::InvalidCommand)
    }

    /// Whether the parameter can be reached with the lamp off.
    #[inline]
    pub fn supported_in_power_off(&self) -> (r: bool)
        ensures
            r == self@.supported_in_power_off,
    {
        self.supported_in_power_off
    }

    /// Writes `value`: refused on a read-only parameter, refused when the
    /// validation pattern does not match it, else stored (the default for
    /// `INIT`), or dropped on a write-only parameter.
    pub fn set_value(&mut self, value: &str) -> (r: Result<(), CommandError>)
        ensures
            (final(self)@, r) == old(self)@.set(value@),
    {
        let accepted = match &self.validation {
            Some(pattern) => finds(pattern.as_str(), value),
            None => false,
        };
        self.apply_write(value, accepted)
    }

    /// `set_value`, with the verdict of the validation pattern on `value`
    /// given as `accepted`.
    pub fn apply_write(&mut self, value: &str, accepted: bool) -> (r: Result<(), CommandError>)
        ensures
            (final(self)@, r) == old(self)@.written(value@, accepted),
    {
        if self.validation.is_none() {
            return Err(CommandError::InvalidCommand);
        }
        if !accepted {
            return Err(CommandError::InvalidValue);
        }
        if self.value.is_some() {
            proof {
                reveal_strlit("INIT");
                assert("INIT"@ =~= init_token());
            }
            let stored = if same_text(value, "INIT") {
                self.default.clone()
            } else {
                value.to_owned()
            };
            self.value = Some(stored);
        }
        Ok(())
    }
}

/// A write that succeeds on a readable parameter stores a value that the
/// validation pattern accepted, or the default after `INIT`.
pub proof fn lemma_stored_value_valid(p: ParamView, v: Seq<char>)
    requires
        p.value is Some,
        p.set(v).1 is Ok,
    ensures
        p.accepts(v),
        v == init_token() ==> p.set(v).0.value == Some(p.default),
        v != init_token() ==> p.set(v).0.value == Some(v),
{
}

/// Reading after a successful write of a non-empty value other than `INIT`
/// returns that value.
pub proof fn lemma_set_then_get(p: ParamView, v: Seq<char>)
    requires
        p.value is Some,
        p.accepts(v),
        v != init_token(),
        v.len() > 0,
    ensures
        p.set(v).1 is Ok,
        p.set(v).0.read() == Ok::<Seq<char>, CommandError>(v),
{
}

} // verus!
