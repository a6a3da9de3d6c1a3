//! The extraction failure taxonomy: a required input that is absent, a
//! present input that fails to convert, a failed transport call, and an
//! unclassified rest; plus the contextualized form that leaves a handler
//! invocation.

use vstd::prelude::*;

use crate::commands::CommandInput;

verus! {

/// A classified extraction failure.
#[derive(Debug)]
pub enum ExtractionError {
    /// A required input was absent.
    Missing,
    /// The input was present but failed to convert to the expected type.
    Mismatched { expected: String, found: String },
    /// The underlying transport call failed.
    Invocation { cause: String },
    /// Unclassified.
    Other,
}

/// Mathematical value of an [`ExtractionError`].
pub enum ExtractionErrorV {
    Missing,
    Mismatched { expected: Seq<char>, found: Seq<char> },
    Invocation { cause: Seq<char> },
    Other,
}

impl DeepView for ExtractionError {
    type V = ExtractionErrorV;

    open spec fn deep_view(&self) -> ExtractionErrorV {
        match self {
            ExtractionError::Missing => ExtractionErrorV::Missing,
            ExtractionError::Mismatched { expected, found } => ExtractionErrorV::Mismatched {
                expected: expected@,
                found: found@,
            },
            ExtractionError::Invocation { cause } => ExtractionErrorV::Invocation { cause: cause@ },
            ExtractionError::Other => ExtractionErrorV::Other,
        }
    }
}

/// An extraction failure enriched with the offending argument's name and
/// a copy of the triggering command input.
pub struct ArgumentError {
    pub var_name: String,
    pub command_input: CommandInput,
    pub source: ExtractionError,
}

/// The describing text of a classified failure.
pub open spec fn spec_message(e: ExtractionErrorV) -> Seq<char> {
    match e {
        ExtractionErrorV::Missing => "missing argument"@,
        ExtractionErrorV::Mismatched { expected, found } => "mismatched types (expected \""@
            + expected + "\", found \""@ + found + "\")"@,
        ExtractionErrorV::Invocation { cause } => "client invocation error: "@ + cause,
        ExtractionErrorV::Other => "unknown argument error"@,
    }
}

impl ExtractionError {
    /// A line describing the failure.
    pub fn message(&self) -> (r: String)
        ensures
            r@ == spec_message(self.deep_view()),
    {
        match self {
            ExtractionError::Missing => String::from_str("missing argument"),
            ExtractionError::Mismatched { expected, found } => {
                let mut s = String::from_str("mismatched types (expected \"");
                s.append(expected.as_str());
                s.append("\", found \"");
                s.append(found.as_str());
                s.append("\")");
                proof {
                    assert(s@ =~= spec_message(self.deep_view()));
                }
                s
            },
            ExtractionError::Invocation { cause } => {
                let mut s = String::from_str("client invocation error: ");
                s.append(cause.as_str());
                proof {
                    assert(s@ =~= spec_message(self.deep_view()));
                }
                s
            },
            ExtractionError::Other => String::from_str("unknown argument error"),
        }
    }

    /// Wrap the failure with the argument's logical name and the command
    /// input that triggered it.
    pub fn with_context(self, var: &str, command_input: CommandInput) -> (r: ArgumentError)
        ensures
            r.var_name@ == var@,
            r.command_input == command_input,
            r.source == self,
    {
        ArgumentError { var_name: String::from_str(var), command_input, source: self }
    }
}

impl ArgumentError {
    /// A line naming the argument and describing the underlying failure.
    pub fn message(&self) -> (r: String)
        ensures
            r@ == "error extracting `"@ + self.var_name@ + "`: "@ + spec_message(
                self.source.deep_view(),
            ),
    {
        let mut s = String::from_str("error extracting `");
        s.append(self.var_name.as_str());
        s.append("`: ");
        s.append(self.source.message().as_str());
        proof {
            assert(s@ =~= "error extracting `"@ + self.var_name@ + "`: "@ + spec_message(
                self.source.deep_view(),
            ));
        }
        s
    }
}

} // verus!
