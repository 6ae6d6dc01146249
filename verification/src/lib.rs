//! Front matter of templates for the SSH daemon's `AuthorizedKeysCommand` and
//! `AuthorizedPrincipalsCommand`: splitting, schema, validation, and the
//! binding of positional arguments to a rendering context.

pub mod context;
pub mod document;
pub mod error;
pub mod frontmatter;
pub mod ip;
pub mod render;
pub mod schema;
pub mod split;
pub mod text;
pub mod tokens;
pub mod user;
pub mod version;
pub mod words;

pub use crate::error::SshdCommandError;
pub use crate::tokens::{Command, Token};
pub use crate::user::User;
pub use crate::version::{crate_version, Version, VersionReq};
