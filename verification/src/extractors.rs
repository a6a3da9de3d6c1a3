//! Typed accessors that pull one argument value out of the message text,
//! the parsed command input, or a reply lookup, each with a classified
//! failure mode.

use vstd::prelude::*;

use crate::commands::CommandInput;
use crate::errors::{ExtractionError, ExtractionErrorV};
use crate::text::{int_literal_val, is_int_literal, parse_i64};

verus! {

/// An integer literal whose value fits the signed machine word.
pub open spec fn parses_as_i64(s: Seq<char>) -> bool {
    is_int_literal(s) && i64::MIN <= int_literal_val(s) <= i64::MAX
}

/// Selects the N-th whitespace-delimited token of the parsed argument
/// list.
pub struct ArgumentExtractor {
    pub index: usize,
}

impl ArgumentExtractor {
    pub fn new(index: usize) -> (r: Self)
        ensures
            r.index == index,
    {
        ArgumentExtractor { index }
    }

    /// The argument at the held position, as an integer: `Missing` when
    /// the list has no such position, `Mismatched` when the token there
    /// is no integer.
    pub fn extract_int(&self, command_input: &CommandInput) -> (r: Result<i64, ExtractionError>)
        ensures
            match r {
                Ok(v) => {
                    &&& self.index < command_input.args.deep_view().len()
                    &&& parses_as_i64(command_input.args.deep_view()[self.index as int])
                    &&& v as int == int_literal_val(command_input.args.deep_view()[self.index as int])
                },
                Err(e) => match e.deep_view() {
                    ExtractionErrorV::Missing => self.index >= command_input.args.deep_view().len(),
                    ExtractionErrorV::Mismatched { expected, found } => {
                        &&& self.index < command_input.args.deep_view().len()
                        &&& !parses_as_i64(command_input.args.deep_view()[self.index as int])
                        &&& expected == "int"@
                        &&& found == command_input.args.deep_view()[self.index as int]
                    },
                    _ => false,
                },
            },
    {
        if self.index >= command_input.args.len() {
            return Err(ExtractionError::Missing);
        }
        let raw: &String = &command_input.args[self.index];
        match parse_i64(raw.as_str()) {
            Some(v) => Ok(v),
            None => Err(
                ExtractionError::Mismatched {
                    expected: String::from_str("int"),
                    found: raw.clone(),
                },
            ),
        }
    }

    /// The argument at the held position, verbatim: `Missing` when the
    /// list has no such position.
    pub fn extract_text(&self, command_input: &CommandInput) -> (r: Result<String, ExtractionError>)
        ensures
            match r {
                Ok(v) => {
                    &&& self.index < command_input.args.deep_view().len()
                    &&& v@ == command_input.args.deep_view()[self.index as int]
                },
                Err(e) => {
                    &&& e.deep_view() == ExtractionErrorV::Missing
                    &&& self.index >= command_input.args.deep_view().len()
                },
            },
    {
        if self.index >= command_input.args.len() {
            return Err(ExtractionError::Missing);
        }
        Ok(command_input.args[self.index].clone())
    }
}

/// Returns the command's free-text remainder verbatim.
pub struct InputExtractor {}

impl InputExtractor {
    /// The remainder of the matched command: `Missing` when it is absent.
    pub fn extract(&self, command_input: &CommandInput) -> (r: Result<String, ExtractionError>)
        ensures
            match command_input.input.deep_view() {
                Some(s) => r matches Ok(v) && v@ == s,
                None => r matches Err(e) && e.deep_view() == ExtractionErrorV::Missing,
            },
    {
        match &command_input.input {
            Some(input) => Ok(input.clone()),
            None => Err(ExtractionError::Missing),
        }
    }
}

/// What a message's reply header holds, as the extractor reads it.
pub struct ReplyHeader {
    pub reply_to_msg_id: Option<i64>,
}

/// Resolves the message being replied to, through a lookup keyed by the
/// reply header's target id.
pub struct ReplyExtractor {}

impl ReplyExtractor {
    /// The id the lookup must resolve: `Missing` when the message has no
    /// reply header or the header carries no target id.
    pub fn target(&self, reply_header: &Option<ReplyHeader>) -> (r: Result<i64, ExtractionError>)
        ensures
            match reply_header {
                Some(h) => match h.reply_to_msg_id {
                    Some(id) => r matches Ok(v) && v == id,
                    None => r matches Err(e) && e.deep_view() == ExtractionErrorV::Missing,
                },
                None => r matches Err(e) && e.deep_view() == ExtractionErrorV::Missing,
            },
    {
        match reply_header {
            Some(h) => match h.reply_to_msg_id {
                Some(id) => Ok(id),
                None => Err(ExtractionError::Missing),
            },
            None => Err(ExtractionError::Missing),
        }
    }

    /// Classify what the lookup returned: the resolved message, `Missing`
    /// when the target did not resolve, `Invocation` with its cause when
    /// the call itself failed.
    pub fn resolve<M>(&self, lookup: Result<Option<M>, String>) -> (r: Result<M, ExtractionError>)
        ensures
            match lookup {
                Ok(Some(m)) => r matches Ok(v) && v == m,
                Ok(None) => r matches Err(e) && e.deep_view() == ExtractionErrorV::Missing,
                Err(cause) => r matches Err(e) && e.deep_view() == (ExtractionErrorV::Invocation {
                    cause: cause@,
                }),
            },
    {
        match lookup {
            Ok(Some(m)) => Ok(m),
            Ok(None) => Err(ExtractionError::Missing),
            Err(cause) => Err(ExtractionError::Invocation { cause }),
        }
    }
}

/// The first substring of `text` matched by `pattern`, or nothing when
/// the pattern does not compile or matches nowhere.
pub uninterp spec fn regex_first_match(pattern: Seq<char>, text: Seq<char>) -> Option<Seq<char>>;

/// Relies on regex::Regex::new and regex::Regex::find: the first match of
/// the pattern in the haystack depends on the two strings alone; a pattern
/// that does not compile matches nowhere.
#[verifier::external_body]
fn regex_find_first(pattern: &str, text: &str) -> (r: Option<String>)
    ensures
        r.deep_view() == regex_first_match(pattern@, text@),
{
    match regex::Regex::new(pattern) {
        Ok(re) => re.find(text).map(|m| m.as_str().to_string()),
        Err(_) => None,
    }
}

/// Scans the raw message text for the first match of the held pattern and
/// parses the matched substring into the target type.
pub struct RegexExtractor {
    pub pattern: String,
}

impl RegexExtractor {
    pub fn new(pattern: &str) -> (r: Self)
        ensures
            r.pattern@ == pattern@,
    {
        RegexExtractor { pattern: String::from_str(pattern) }
    }

    /// The first match of the pattern in the raw message text, as an
    /// integer: `Missing` when nothing matches, `Mismatched` when the
    /// matched substring is no integer.
    pub fn extract_int(&self, message_text: &str) -> (r: Result<i64, ExtractionError>)
        ensures
            match regex_first_match(self.pattern@, message_text@) {
                None => r matches Err(e) && e.deep_view() == ExtractionErrorV::Missing,
                Some(m) => if parses_as_i64(m) {
                    r matches Ok(v) && v as int == int_literal_val(m)
                } else {
                    r matches Err(e) && e.deep_view() == (ExtractionErrorV::Mismatched {
                        expected: "int"@,
                        found: m,
                    })
                },
            },
    {
        match regex_find_first(self.pattern.as_str(), message_text) {
            None => Err(ExtractionError::Missing),
            Some(m) => match parse_i64(m.as_str()) {
                Some(v) => Ok(v),
                None => Err(
                    ExtractionError::Mismatched { expected: String::from_str("int"), found: m },
                ),
            },
        }
    }

    /// The first match of the pattern in the raw message text, verbatim:
    /// `Missing` when nothing matches.
    pub fn extract_text(&self, message_text: &str) -> (r: Result<String, ExtractionError>)
        ensures
            match regex_first_match(self.pattern@, message_text@) {
                None => r matches Err(e) && e.deep_view() == ExtractionErrorV::Missing,
                Some(m) => r matches Ok(v) && v@ == m,
            },
    {
        match regex_find_first(self.pattern.as_str(), message_text) {
            None => Err(ExtractionError::Missing),
            Some(m) => Ok(m),
        }
    }
}

/// Adapt an extraction to an optional argument: `Missing` becomes an
/// absent value; any other failure still propagates.
pub fn optional<T>(r: Result<T, ExtractionError>) -> (res: Result<Option<T>, ExtractionError>)
    ensures
        match r {
            Ok(v) => res matches Ok(o) && o matches Some(w) && w == v,
            Err(e) => if e.deep_view() == ExtractionErrorV::Missing {
                res matches Ok(o) && o is None
            } else {
                res matches Err(e2) && e2.deep_view() == e.deep_view()
            },
        },
{
    match r {
        Ok(v) => Ok(Some(v)),
        Err(ExtractionError::Missing) => Ok(None),
        Err(e) => Err(e),
    }
}

} // verus!
