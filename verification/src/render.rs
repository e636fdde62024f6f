//! A code and its description, rendered as text.
use crate::decimal::{decimal, push_decimal};
use crate::text::outcome;
use crate::Errno;
use vstd::prelude::*;
use vstd::string::StringExecFns;

verus! {

/// What stands for a code whose description could not be had: the code, the
/// name of the facility that failed, and the error it reported for itself.
pub open spec fn fallback_text(code: Errno, mechanism: Seq<char>, mechanism_error: Errno) -> Seq<
    char,
> {
    "OS error "@ + decimal(code.0 as int) + " ("@ + mechanism + " returned error "@ + decimal(
        mechanism_error.0 as int,
    ) + ")"@
}

/// The human-readable rendering: the description where there is one, else
/// the fallback.
pub open spec fn display_text(
    code: Errno,
    mechanism: Seq<char>,
    description: Result<Seq<char>, Errno>,
) -> Seq<char> {
    match description {
        Ok(text) => text,
        Err(mechanism_error) => fallback_text(code, mechanism, mechanism_error),
    }
}

/// The structured rendering: the raw code, and the description as `quoted`
/// holds it, already in quotes, or `None`.
pub open spec fn debug_text(code: Errno, quoted: Option<Seq<char>>) -> Seq<char> {
    "Errno { code: "@ + decimal(code.0 as int) + ", description: "@ + match quoted {
        Some(text) => "Some("@ + text + ")"@,
        None => "None"@,
    } + " }"@
}

/// What `{:?}` makes of a string slice: the text in double quotes, with the
/// characters that cannot stand there as they are written as escapes.
pub uninterp spec fn debug_quoted(text: Seq<char>) -> Seq<char>;

/// The description of an outcome as the structured rendering shows it.
pub open spec fn quoted_description(description: Result<Seq<char>, Errno>) -> Option<Seq<char>> {
    match description {
        Ok(text) => Some(debug_quoted(text)),
        Err(_) => None,
    }
}

/// `text` as `{:?}` formats it.  Trusted: this runs `<str as
/// core::fmt::Debug>::fmt`, whose result depends on `text` alone.
#[verifier::external_body]
fn quote(text: &str) -> (quoted: String)
    ensures
        quoted@ == debug_quoted(text@),
{
    format!("{:?}", text)
}

/// The structured rendering of `code` with a description that is already in
/// quotes.
pub fn debug_struct(code: Errno, quoted: Option<&str>) -> (text: String)
    ensures
        text@ == debug_text(
            code,
            match quoted {
                Some(description) => Some(description@),
                None => None,
            },
        ),
{
    let mut text = String::from_str("Errno { code: ");
    push_decimal(&mut text, code.0);
    text.append(", description: ");
    match quoted {
        Some(description) => {
            text.append("Some(");
            text.append(description);
            text.append(")");
        },
        None => {
            text.append("None");
        },
    }
    text.append(" }");
    text
}

/// The human-readable rendering is not empty, unless the description is
/// itself an empty text.
pub proof fn lemma_display_not_empty(
    code: Errno,
    mechanism: Seq<char>,
    description: Result<Seq<char>, Errno>,
)
    requires
        description matches Ok(text) ==> text.len() > 0,
    ensures
        display_text(code, mechanism, description).len() > 0,
{
    reveal_strlit("OS error ");
}

/// The structured rendering opens with the raw code in decimal, and what
/// follows is the description in `Some(..)` where there is one, and `None`
/// where there is none: never the one for the other.
pub proof fn lemma_debug_structure(code: Errno, quoted: Option<Seq<char>>)
    ensures
        ({
            let head = "Errno { code: "@ + decimal(code.0 as int) + ", description: "@;
            &&& head.is_prefix_of(debug_text(code, quoted))
            &&& quoted is None <==> debug_text(code, quoted) == head + "None }"@
            &&& quoted matches Some(text) ==> debug_text(code, quoted) == head + "Some("@ + text
                + ") }"@
        }),
{
    reveal_strlit("None");
    reveal_strlit("None }");
    reveal_strlit("Some(");
    reveal_strlit(")");
    reveal_strlit(") }");
    reveal_strlit(" }");
    let head = "Errno { code: "@ + decimal(code.0 as int) + ", description: "@;
    match quoted {
        Some(text) => {
            assert(debug_text(code, quoted) =~= head + "Some("@ + text + ") }"@);
            assert(debug_text(code, quoted)[head.len() as int] == 'S');
            assert((head + "None }"@)[head.len() as int] == 'N');
        },
        None => {
            assert(debug_text(code, quoted) =~= head + "None }"@);
        },
    }
}

impl Errno {
    /// The human-readable rendering of this code: `description` where it
    /// holds a text; else a line that names this code, `mechanism` and the
    /// error that `description` carries.
    pub fn display(&self, mechanism: &str, description: Result<&str, Errno>) -> (text: String)
        ensures
            text@ == display_text(*self, mechanism@, outcome(description)),
    {
        match description {
            Ok(message) => String::from_str(message),
            Err(mechanism_error) => {
                let mut text = String::from_str("OS error ");
                push_decimal(&mut text, self.0);
                text.append(" (");
                text.append(mechanism);
                text.append(" returned error ");
                push_decimal(&mut text, mechanism_error.0);
                text.append(")");
                text
            },
        }
    }

    /// The structured rendering of this code: its raw integer, and
    /// `description` in quotes where it holds a text.
    pub fn debug(&self, description: Result<&str, Errno>) -> (text: String)
        ensures
            text@ == debug_text(*self, quoted_description(outcome(description))),
    {
        match description {
            Ok(message) => {
                let quoted = quote(message);
                debug_struct(*self, Some(quoted.as_str()))
            },
            Err(_) => debug_struct(*self, None),
        }
    }
}

} // verus!
