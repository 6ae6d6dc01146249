//! The errors of the library as a whole.

use vstd::prelude::*;
use vstd::string::StringExecFns;

use crate::frontmatter::{FrontMatterError, FrontMatterErrorView};
use crate::tokens::Token;

verus! {

/// Why no rendering context could be had from a template and its arguments.
#[derive(PartialEq, Eq, Debug)]
pub enum SshdCommandError {
    /// The front matter is refused.
    FrontMatter(FrontMatterError),
    /// The arguments end before the token has all of its own.
    MissingTokenArgument(Token),
    /// An argument of the token has not the form that the token asks for; the
    /// argument as it was given.
    InvalidTokenArgument(Token, String),
    /// No user is known by the argument of the token; the argument as it was
    /// given.
    IdentityLookup(Token, String),
    /// The renderer refuses the context or the template; its diagnostic.
    Tera(String),
    /// Anything else; what went wrong.
    Unknown(String),
}

/// A [`SshdCommandError`] with its texts as sequences of characters.
pub enum SshdCommandErrorView {
    FrontMatter(FrontMatterErrorView),
    MissingTokenArgument(Token),
    InvalidTokenArgument(Token, Seq<char>),
    IdentityLookup(Token, Seq<char>),
    Tera(Seq<char>),
    Unknown(Seq<char>),
}

impl View for SshdCommandError {
    type V = SshdCommandErrorView;

    open spec fn view(&self) -> SshdCommandErrorView {
        match self {
            SshdCommandError::FrontMatter(error) => SshdCommandErrorView::FrontMatter(error@),
            SshdCommandError::MissingTokenArgument(token) =>
                SshdCommandErrorView::MissingTokenArgument(*token),
            SshdCommandError::InvalidTokenArgument(token, argument) =>
                SshdCommandErrorView::InvalidTokenArgument(*token, argument@),
            SshdCommandError::IdentityLookup(token, argument) =>
                SshdCommandErrorView::IdentityLookup(*token, argument@),
            SshdCommandError::Tera(diagnostic) => SshdCommandErrorView::Tera(diagnostic@),
            SshdCommandError::Unknown(what) => SshdCommandErrorView::Unknown(what@),
        }
    }
}

impl SshdCommandError {
    /// What the error says.
    pub open spec fn message(self) -> Seq<char> {
        match self {
            SshdCommandError::FrontMatter(error) => "front matter: "@ + error.message(),
            SshdCommandError::MissingTokenArgument(token) => "token "@ + token.literal()
                + " has missing argument(s)"@,
            SshdCommandError::InvalidTokenArgument(token, argument) => "token "@ + token.literal()
                + " has invalid argument: "@ + argument@,
            SshdCommandError::IdentityLookup(token, argument) => "token "@ + token.literal()
                + " names no known user: "@ + argument@,
            SshdCommandError::Tera(diagnostic) => "tera: "@ + diagnostic@,
            SshdCommandError::Unknown(what) => "general error: "@ + what@,
        }
    }

    /// What the error says.
    pub fn to_string(&self) -> (r: String)
        ensures
            r@ == self.message(),
    {
        match self {
            SshdCommandError::FrontMatter(error) => {
                let mut out = "front matter: ".to_owned();
                let inner = error.to_string();
                out.append(inner.as_str());
                out
            },
            SshdCommandError::MissingTokenArgument(token) => {
                let mut out = "token ".to_owned();
                out.append(token.as_str());
                out.append(" has missing argument(s)");
                out
            },
            SshdCommandError::InvalidTokenArgument(token, argument) => {
                let mut out = "token ".to_owned();
                out.append(token.as_str());
                out.append(" has invalid argument: ");
                out.append(argument.as_str());
                out
            },
            SshdCommandError::IdentityLookup(token, argument) => {
                let mut out = "token ".to_owned();
                out.append(token.as_str());
                out.append(" names no known user: ");
                out.append(argument.as_str());
                out
            },
            SshdCommandError::Tera(diagnostic) => {
                let mut out = "tera: ".to_owned();
                out.append(diagnostic.as_str());
                out
            },
            SshdCommandError::Unknown(what) => {
                let mut out = "general error: ".to_owned();
                out.append(what.as_str());
                out
            },
        }
    }

    /// The error that says `what`.
    pub fn from(what: &str) -> (r: SshdCommandError)
        ensures
            r@ == SshdCommandErrorView::Unknown(what@),
    {
        SshdCommandError::Unknown(what.to_owned())
    }
}

} // verus!
