//! The compiler's error kinds, and their human-readable messages.

use vstd::prelude::*;
use vstd::string::*;

verus! {

/// An error of the compiler or of dialect selection. Every error is fatal
/// to the current render: no partial output is ever handed out.
#[derive(Debug)]
pub enum Error {
    /// A synthesized or caller-supplied identifier fragment does not satisfy
    /// the dialect's Head or Tail rule. Carries the offending text and the
    /// textual form of the pattern that rejected it.
    InvalidIdentifier { ident: String, pattern: String },
    /// An argument's recorded value is not representable as text.
    NonTextValue,
    /// The dialect-selection token is not one of the supported shells.
    UnsupportedDialect,
}

/// The spec-level shape of an `Error`: the same variants over sequences.
pub ghost enum ErrorModel {
    InvalidIdentifier { ident: Seq<char>, pattern: Seq<char> },
    NonTextValue,
    UnsupportedDialect,
}

impl Error {
    /// The spec-level value of this error.
    pub open spec fn model(&self) -> ErrorModel {
        match self {
            Error::InvalidIdentifier { ident, pattern } => ErrorModel::InvalidIdentifier {
                ident: ident@,
                pattern: pattern@,
            },
            Error::NonTextValue => ErrorModel::NonTextValue,
            Error::UnsupportedDialect => ErrorModel::UnsupportedDialect,
        }
    }

    /// The diagnostic text for this error.
    pub fn message(&self) -> (r: String)
        ensures
            r@ == error_message_model(self.model()),
    {
        match self {
            Error::InvalidIdentifier { ident, pattern } => {
                let mut buf = String::from_str("`");
                buf.append(ident.as_str());
                buf.append("` is not a valid identifier, it must conform to this regex: `");
                buf.append(pattern.as_str());
                buf.append("`");
                proof {
                    assert(buf@ =~= error_message_model(self.model()));
                }
                buf
            },
            Error::NonTextValue => String::from_str("String contains invalid UTF-8 data"),
            Error::UnsupportedDialect => String::from_str(
                "Shell must be one of [\"bash\", \"elvish\", \"fish\", \"pwsh\", \"zsh\"]",
            ),
        }
    }
}

/// The diagnostic text an `ErrorModel` stands for.
pub open spec fn error_message_model(e: ErrorModel) -> Seq<char> {
    match e {
        ErrorModel::InvalidIdentifier { ident, pattern } => "`"@ + ident
            + "` is not a valid identifier, it must conform to this regex: `"@ + pattern + "`"@,
        ErrorModel::NonTextValue => "String contains invalid UTF-8 data"@,
        ErrorModel::UnsupportedDialect =>
            "Shell must be one of [\"bash\", \"elvish\", \"fish\", \"pwsh\", \"zsh\"]"@,
    }
}

} // verus!
