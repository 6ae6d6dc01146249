//! The front matter of a template: its schema, its errors and its checks.

use vstd::prelude::*;
use vstd::string::StringExecFns;

use crate::document::{
    entries_view, lemma_document_view, pair_view, yaml_document, Document, DocumentView,
    EntriesView,
};
use crate::schema::{
    command_field, first_unknown, flag_field, key_error, lemma_first_unknown, lookup, names_field,
    read_command, read_flag, read_tokens_field, read_version, tokens_field, value_of,
    version_field,
};
use crate::split::{frame_of, split_front_matter};
use crate::tokens::{Command, Token};
use crate::version::{crate_version, this_version, Version, VersionReq};
use vstd::slice::slice_subrange;

verus! {

/// A field of the front matter's schema.
#[derive(PartialEq, Eq, Structural, Clone, Copy, Debug)]
pub enum Field {
    /// The block as a whole.
    Document,
    SshdCommand,
    Command,
    Tokens,
    Version,
    CompleteUser,
    Hostname,
}

impl Field {
    /// The field's key in the block.
    pub open spec fn name_spec(self) -> Seq<char> {
        match self {
            Field::Document => "document"@,
            Field::SshdCommand => "sshd_command"@,
            Field::Command => "command"@,
            Field::Tokens => "tokens"@,
            Field::Version => "version"@,
            Field::CompleteUser => "complete_user"@,
            Field::Hostname => "hostname"@,
        }
    }

    /// The field's key in the block.
    pub fn name(self) -> (r: &'static str)
        ensures
            r@ == self.name_spec(),
    {
        match self {
            Field::Document => "document",
            Field::SshdCommand => "sshd_command",
            Field::Command => "command",
            Field::Tokens => "tokens",
            Field::Version => "version",
            Field::CompleteUser => "complete_user",
            Field::Hostname => "hostname",
        }
    }
}

/// Why a block is not front matter.
#[derive(PartialEq, Eq, Debug)]
pub enum SchemaError {
    /// The block is not YAML; the reader's diagnostic.
    Syntax(String),
    /// The value of a field has not the form that the schema asks for.
    Malformed(Field),
    /// A required field is not there.
    MissingField(Field),
    /// The command's fields hold a key that the schema does not know.
    UnknownField(String),
    /// `tokens` holds a word that is no token's literal.
    UnknownToken(String),
    /// `complete_user` is set and no declared token names the user.
    IdentityTokenRequired,
}

/// A [`SchemaError`] with its texts as sequences of characters.
pub enum SchemaErrorView {
    Syntax(Seq<char>),
    Malformed(Field),
    MissingField(Field),
    UnknownField(Seq<char>),
    UnknownToken(Seq<char>),
    IdentityTokenRequired,
}

impl View for SchemaError {
    type V = SchemaErrorView;

    open spec fn view(&self) -> SchemaErrorView {
        match self {
            SchemaError::Syntax(diagnostic) => SchemaErrorView::Syntax(diagnostic@),
            SchemaError::Malformed(field) => SchemaErrorView::Malformed(*field),
            SchemaError::MissingField(field) => SchemaErrorView::MissingField(*field),
            SchemaError::UnknownField(key) => SchemaErrorView::UnknownField(key@),
            SchemaError::UnknownToken(word) => SchemaErrorView::UnknownToken(word@),
            SchemaError::IdentityTokenRequired => SchemaErrorView::IdentityTokenRequired,
        }
    }
}

impl SchemaError {
    /// What the error says.
    pub open spec fn message(self) -> Seq<char> {
        match self {
            SchemaError::Syntax(diagnostic) => diagnostic@,
            SchemaError::Malformed(field) => "invalid value for field `"@ + field.name_spec()
                + "`"@,
            SchemaError::MissingField(field) => "missing field `"@ + field.name_spec() + "`"@,
            SchemaError::UnknownField(key) => "unknown field `"@ + key@
                + "`, expected one of `command`, `tokens`, `version`, `complete_user`, `hostname`"@,
            SchemaError::UnknownToken(word) => "invalid type: string \""@ + word@
                + "\", expected a space separated list of sshd_config tokens, see sshd_config(5) for all valid tokens."@,
            SchemaError::IdentityTokenRequired =>
                "`%U` or`%u` token required for `complete_user = true`"@,
        }
    }

    /// What the error says.
    pub fn to_string(&self) -> (r: String)
        ensures
            r@ == self.message(),
    {
        match self {
            SchemaError::Syntax(diagnostic) => diagnostic.clone(),
            SchemaError::Malformed(field) => {
                let mut out = "invalid value for field `".to_owned();
                out.append(field.name());
                out.append("`");
                out
            },
            SchemaError::MissingField(field) => {
                let mut out = "missing field `".to_owned();
                out.append(field.name());
                out.append("`");
                out
            },
            SchemaError::UnknownField(key) => {
                let mut out = "unknown field `".to_owned();
                out.append(key.as_str());
                out.append(
                    "`, expected one of `command`, `tokens`, `version`, `complete_user`, `hostname`",
                );
                out
            },
            SchemaError::UnknownToken(word) => {
                let mut out = "invalid type: string \"".to_owned();
                out.append(word.as_str());
                out.append(
                    "\", expected a space separated list of sshd_config tokens, see sshd_config(5) for all valid tokens.",
                );
                out
            },
            SchemaError::IdentityTokenRequired => {
                "`%U` or`%u` token required for `complete_user = true`".to_owned()
            },
        }
    }
}

/// Whether `text` holds `part` as a run of consecutive characters.
pub open spec fn holds_text(text: Seq<char>, part: Seq<char>) -> bool {
    exists|i: int|
        0 <= i && i + part.len() <= text.len() && #[trigger] text.subrange(i, i + part.len())
            == part
}

/// The error for a missing identity token names both tokens by their
/// literals.
pub proof fn lemma_identity_token_message()
    ensures
        holds_text(SchemaError::IdentityTokenRequired.message(), Token::UserId.literal()),
        holds_text(SchemaError::IdentityTokenRequired.message(), Token::UserName.literal()),
{
    reveal_strlit("`%U` or`%u` token required for `complete_user = true`");
    let m = SchemaError::IdentityTokenRequired.message();
    let by_id = Token::UserId.literal();
    let by_name = Token::UserName.literal();
    assert(m.subrange(1int, 1int + by_id.len()) =~= by_id);
    assert(m.subrange(8int, 8int + by_name.len()) =~= by_name);
}

/// Why a template's front matter is refused.
#[derive(PartialEq, Eq, Debug)]
pub enum FrontMatterError {
    /// The first line is not the separator.
    InvalidFirstLine,
    /// No line after the first is the separator.
    MissingEndSeparator,
    /// The running version, and the requirement that it does not satisfy.
    InvalidVersion(Version, VersionReq),
    /// The command, and the first declared token that it does not support.
    UnsupportedToken(Command, Token),
    /// The block is not front matter.
    ParseError(SchemaError),
}

/// A [`FrontMatterError`] with its texts as sequences of characters.
pub enum FrontMatterErrorView {
    InvalidFirstLine,
    MissingEndSeparator,
    InvalidVersion(Version, Seq<char>),
    UnsupportedToken(Command, Token),
    ParseError(SchemaErrorView),
}

impl View for FrontMatterError {
    type V = FrontMatterErrorView;

    open spec fn view(&self) -> FrontMatterErrorView {
        match self {
            FrontMatterError::InvalidFirstLine => FrontMatterErrorView::InvalidFirstLine,
            FrontMatterError::MissingEndSeparator => FrontMatterErrorView::MissingEndSeparator,
            FrontMatterError::InvalidVersion(running, required) =>
                FrontMatterErrorView::InvalidVersion(*running, required@),
            FrontMatterError::UnsupportedToken(command, token) =>
                FrontMatterErrorView::UnsupportedToken(*command, *token),
            FrontMatterError::ParseError(error) => FrontMatterErrorView::ParseError(error@),
        }
    }
}

impl FrontMatterError {
    /// What the error says.
    pub open spec fn message(self) -> Seq<char> {
        match self {
            FrontMatterError::InvalidFirstLine => "first line must be '---'"@,
            FrontMatterError::MissingEndSeparator =>
                "missing end separator for frontmatter, template does not contain a second '---' line"@,
            FrontMatterError::InvalidVersion(running, required) =>
                "template requires sshd-command version "@ + required@
                    + ", but you are running "@ + running.text(),
            FrontMatterError::UnsupportedToken(command, token) => token.literal()
                + " is not a valid token for "@ + command.option_name_spec(),
            FrontMatterError::ParseError(error) => "parse error: "@ + error.message(),
        }
    }

    /// What the error says.
    pub fn to_string(&self) -> (r: String)
        ensures
            r@ == self.message(),
    {
        match self {
            FrontMatterError::InvalidFirstLine => "first line must be '---'".to_owned(),
            FrontMatterError::MissingEndSeparator => {
                "missing end separator for frontmatter, template does not contain a second '---' line".to_owned()
            },
            FrontMatterError::InvalidVersion(running, required) => {
                let mut out = "template requires sshd-command version ".to_owned();
                out.append(required.expression.as_str());
                out.append(", but you are running ");
                let version = running.to_string();
                out.append(version.as_str());
                out
            },
            FrontMatterError::UnsupportedToken(command, token) => {
                let mut out = token.to_string();
                out.append(" is not a valid token for ");
                out.append(command.option_name());
                out
            },
            FrontMatterError::ParseError(error) => {
                let mut out = "parse error: ".to_owned();
                let inner = error.to_string();
                out.append(inner.as_str());
                out
            },
        }
    }
}

/// The tokens that a template declares, in the order in which the arguments
/// come.
#[derive(PartialEq, Eq, Debug)]
pub struct FrontMatterTokens(pub Vec<Token>);

impl View for FrontMatterTokens {
    type V = Seq<Token>;

    open spec fn view(&self) -> Seq<Token> {
        self.0@
    }
}

impl Default for FrontMatterTokens {
    /// No tokens.
    fn default() -> (r: FrontMatterTokens)
        ensures
            r@ == Seq::<Token>::empty(),
    {
        FrontMatterTokens(Vec::new())
    }
}

/// The command's part of the front matter, as a value of mathematics.
pub struct SshdCommandView {
    pub command: Command,
    pub tokens: Seq<Token>,
    pub version: Seq<char>,
    pub complete_user: bool,
    pub hostname: bool,
}

/// The command's part of the front matter.
#[derive(PartialEq, Eq, Debug)]
pub struct FrontMatterSshdCommand {
    pub command: Command,
    pub tokens: FrontMatterTokens,
    pub version: VersionReq,
    /// Whether the user is to be completed from the system's directory.
    pub complete_user: bool,
    /// Whether the context is to hold the host's name.
    pub hostname: bool,
}

impl View for FrontMatterSshdCommand {
    type V = SshdCommandView;

    open spec fn view(&self) -> SshdCommandView {
        SshdCommandView {
            command: self.command,
            tokens: self.tokens@,
            version: self.version@,
            complete_user: self.complete_user,
            hostname: self.hostname,
        }
    }
}

impl Default for FrontMatterSshdCommand {
    /// The command `Keys` with no tokens, any version and no flag set.
    fn default() -> (r: FrontMatterSshdCommand)
        ensures
            r@ == (SshdCommandView {
                command: Command::Keys,
                tokens: Seq::<Token>::empty(),
                version: "*"@,
                complete_user: false,
                hostname: false,
            }),
    {
        FrontMatterSshdCommand {
            command: Command::Keys,
            tokens: FrontMatterTokens::default(),
            version: VersionReq::default(),
            complete_user: false,
            hostname: false,
        }
    }
}

/// The front matter, as a value of mathematics.
pub struct FrontMatterView {
    pub sshd_command: SshdCommandView,
    pub extra_context: Seq<(Seq<char>, DocumentView)>,
}

/// The front matter of a template.
#[derive(PartialEq, Eq, Debug)]
pub struct FrontMatter {
    pub sshd_command: FrontMatterSshdCommand,
    /// What the block holds beside the command, in its order: keys and
    /// values for the rendering context.
    pub extra_context: Vec<(String, Document)>,
}

/// An entry of the extra context with its key as a sequence of characters.
pub open spec fn entry_view(entry: (String, Document)) -> (Seq<char>, DocumentView) {
    (entry.0@, entry.1@)
}

/// An entry of a mapping whose key is a string, as an entry of the extra
/// context.
pub open spec fn entry_of(entry: (DocumentView, DocumentView)) -> (Seq<char>, DocumentView) {
    (
        match entry.0.key_text() {
            Some(key) => key,
            None => Seq::empty(),
        },
        entry.1,
    )
}

impl View for FrontMatter {
    type V = FrontMatterView;

    open spec fn view(&self) -> FrontMatterView {
        FrontMatterView {
            sshd_command: self.sshd_command@,
            extra_context: self.extra_context@.map_values(|e: (String, Document)| entry_view(e)),
        }
    }
}

impl Default for FrontMatter {
    /// The default command and no extra context.
    fn default() -> (r: FrontMatter)
        ensures
            r@ == (FrontMatterView {
                sshd_command: SshdCommandView {
                    command: Command::Keys,
                    tokens: Seq::<Token>::empty(),
                    version: "*"@,
                    complete_user: false,
                    hostname: false,
                },
                extra_context: Seq::empty(),
            }),
    {
        let r = FrontMatter {
            sshd_command: FrontMatterSshdCommand::default(),
            extra_context: Vec::new(),
        };
        assert(r@.extra_context =~= Seq::empty());
        r
    }
}

impl SshdCommandView {
    /// Whether a declared token names the user.
    pub open spec fn names_user(self) -> bool {
        exists|i: int| 0 <= i < self.tokens.len() && (#[trigger] self.tokens[i]).is_identity()
    }

    /// The outcome of the checks, given whether the running version
    /// satisfies the requirement. The checks come in this order, and the
    /// first that fails gives the error: the version; each declared token
    /// against the command; an identity token where the user is to be
    /// completed.
    pub open spec fn checked(self, running: Version, version_ok: bool) -> Result<
        (),
        FrontMatterErrorView,
    > {
        if !version_ok {
            Err(FrontMatterErrorView::InvalidVersion(running, self.version))
        } else {
            match self.command.first_unsupported(self.tokens) {
                Some(token) => Err(FrontMatterErrorView::UnsupportedToken(self.command, token)),
                None => if self.complete_user && !self.names_user() {
                    Err(FrontMatterErrorView::ParseError(SchemaErrorView::IdentityTokenRequired))
                } else {
                    Ok(())
                },
            }
        }
    }

    /// The outcome of the checks for the running version `running`.
    pub open spec fn validated(self, running: Version) -> Result<(), FrontMatterErrorView> {
        self.checked(
            running,
            crate::version::requirement_parses(self.version)
                && crate::version::requirement_admits(
                self.version,
                running.major,
                running.minor,
                running.patch,
            ),
        )
    }
}

/// What the command's part of a block reads as. A key that names no field
/// is refused first, the first such key by name; then the fields are read in
/// the order command, tokens, version, complete_user, hostname.
pub open spec fn command_schema(document: DocumentView) -> Result<
    SshdCommandView,
    SchemaErrorView,
> {
    match document {
        DocumentView::Mapping(e) => {
            if first_unknown(e) < e.len() {
                Err(key_error(e[first_unknown(e)].0))
            } else {
                match command_field(value_of(e, Field::Command.name_spec())) {
                    Err(error) => Err(error),
                    Ok(command) => match tokens_field(value_of(e, Field::Tokens.name_spec())) {
                        Err(error) => Err(error),
                        Ok(tokens) => match version_field(
                            value_of(e, Field::Version.name_spec()),
                        ) {
                            Err(error) => Err(error),
                            Ok(version) => match flag_field(
                                value_of(e, Field::CompleteUser.name_spec()),
                                Field::CompleteUser,
                            ) {
                                Err(error) => Err(error),
                                Ok(complete_user) => match flag_field(
                                    value_of(e, Field::Hostname.name_spec()),
                                    Field::Hostname,
                                ) {
                                    Err(error) => Err(error),
                                    Ok(hostname) => Ok(
                                        SshdCommandView {
                                            command,
                                            tokens,
                                            version,
                                            complete_user,
                                            hostname,
                                        },
                                    ),
                                },
                            },
                        },
                    },
                }
            }
        },
        _ => Err(SchemaErrorView::Malformed(Field::SshdCommand)),
    }
}

/// The entries of the block: those of a mapping, none for an empty block.
pub open spec fn top_entries(document: DocumentView) -> Option<EntriesView> {
    match document {
        DocumentView::Mapping(entries) => Some(entries),
        DocumentView::Null => Some(Seq::empty()),
        _ => None,
    }
}

/// Whether an entry may stand in the extra context: its key is a string and
/// its value is plain.
pub open spec fn fits_context(entry: (DocumentView, DocumentView)) -> bool {
    entry.0.key_text().is_some() && entry.1.plain()
}

/// What a block reads as. The block must be a mapping and hold the key
/// `sshd_command`, whose value must read as the command's part; each other
/// key must be a string and each other value plain, and these entries are the
/// extra context, in their order.
pub open spec fn schema(document: DocumentView) -> Result<FrontMatterView, SchemaErrorView> {
    match top_entries(document) {
        None => Err(SchemaErrorView::Malformed(Field::Document)),
        Some(entries) => {
            let at = DocumentView::position(entries, Field::SshdCommand.name_spec());
            if at >= entries.len() {
                Err(SchemaErrorView::MissingField(Field::SshdCommand))
            } else {
                match command_schema(entries[at].1) {
                    Err(error) => Err(error),
                    Ok(sshd_command) => {
                        let others = entries.remove(at);
                        if exists|i: int|
                            0 <= i < others.len() && !fits_context(#[trigger] others[i]) {
                            Err(SchemaErrorView::Malformed(Field::Document))
                        } else {
                            Ok(
                                FrontMatterView {
                                    sshd_command,
                                    extra_context: others.map_values(
                                        |e: (DocumentView, DocumentView)| entry_of(e),
                                    ),
                                },
                            )
                        }
                    },
                }
            }
        },
    }
}

/// What a block of front matter reads as: the reader's diagnostic where the
/// block is not YAML, else what the document that it writes reads as.
pub open spec fn block_parsed(block: Seq<u8>) -> Result<FrontMatterView, FrontMatterErrorView> {
    match yaml_document(block) {
        Err(diagnostic) => Err(
            FrontMatterErrorView::ParseError(SchemaErrorView::Syntax(diagnostic)),
        ),
        Ok(document) => match schema(document) {
            Err(error) => Err(FrontMatterErrorView::ParseError(error)),
            Ok(front_matter) => Ok(front_matter),
        },
    }
}

/// What a template reads as: its front matter and the index at which its
/// body starts.
pub open spec fn parsed(input: Seq<u8>) -> Result<(FrontMatterView, usize), FrontMatterErrorView> {
    match frame_of(input) {
        Err(error) => Err(error@),
        Ok(frame) => match block_parsed(
            input.subrange(frame.block_start as int, frame.block_end as int),
        ) {
            Err(error) => Err(error),
            Ok(front_matter) => Ok((front_matter, frame.body_start)),
        },
    }
}

/// Two blocks that write the same document read as the same front matter,
/// however each writes it: in the block style of YAML, say, or as JSON.
pub proof fn lemma_same_document_same_front_matter(first: Seq<u8>, second: Seq<u8>)
    requires
        yaml_document(first) == yaml_document(second),
    ensures
        block_parsed(first) == block_parsed(second),
{
}

/// The check of the tokens against the command passes on the sequences
/// whose tokens the command supports, all of them; on any other sequence it
/// fails and names the command and the first token that the command does not
/// support.
pub proof fn lemma_token_check(command: SshdCommandView, running: Version)
    ensures
        (forall|i: int|
            0 <= i < command.tokens.len() ==> command.command.supports(
                #[trigger] command.tokens[i],
            )) ==> !(command.checked(running, true) matches Err(
            FrontMatterErrorView::UnsupportedToken(_, _),
        )),
        (exists|i: int|
            0 <= i < command.tokens.len() && !command.command.supports(
                #[trigger] command.tokens[i],
            )) ==> (command.checked(running, true) matches Err(
            FrontMatterErrorView::UnsupportedToken(by, token),
        ) && by == command.command && !command.command.supports(token)
            && token == command.tokens[command.command.first_unsupported_index(command.tokens)]),
{
    command.command.lemma_first_unsupported(command.tokens);
}

/// The check for an identity token passes where the user is not to be
/// completed, whatever the tokens, and where a declared token names the
/// user; where the user is to be completed and no token names it, the check
/// fails.
pub proof fn lemma_identity_check(command: SshdCommandView, running: Version)
    requires
        command.command.first_unsupported(command.tokens).is_none(),
    ensures
        !command.complete_user ==> command.checked(running, true) is Ok,
        command.complete_user && command.names_user() ==> command.checked(running, true) is Ok,
        command.complete_user && !command.names_user() ==> command.checked(running, true) == Err::<
            (),
            FrontMatterErrorView,
        >(FrontMatterErrorView::ParseError(SchemaErrorView::IdentityTokenRequired)),
{
}

impl FrontMatterSshdCommand {
    /// The declared tokens.
    pub fn tokens(&self) -> (r: &[Token])
        ensures
            r@ == self.tokens@,
    {
        self.tokens.0.as_slice()
    }

    /// Reads the command's part of a block.
    pub fn from_document(document: &Document) -> (r: Result<FrontMatterSshdCommand, SchemaError>)
        ensures
            match command_schema(document@) {
                Ok(command) => r matches Ok(read) && read@ == command,
                Err(error) => r matches Err(e) && e@ == error,
            },
    {
        proof {
            lemma_document_view(*document);
        }
        let entries = match document {
            Document::Mapping(entries) => entries,
            _ => {
                return Err(SchemaError::Malformed(Field::SshdCommand));
            },
        };
        let ghost all = entries_view(entries@);
        let mut i: usize = 0;
        proof {
            lemma_first_unknown(all);
        }
        while i < entries.len()
            invariant
                i <= entries.len(),
                all == entries_view(entries@),
                i <= first_unknown(all) <= entries@.len(),
                document@ == DocumentView::Mapping(all),
            decreases entries.len() - i,
        {
            proof {
                lemma_first_unknown(all);
                assert(all[i as int] == pair_view(entries@[i as int]));
            }
            if !names_field(&entries[i].0) {
                return match &entries[i].0 {
                    Document::String(key) => Err(SchemaError::UnknownField(key.clone())),
                    _ => Err(SchemaError::Malformed(Field::SshdCommand)),
                };
            }
            i += 1;
        }
        let command = read_command(lookup(entries, Field::Command))?;
        let tokens = read_tokens_field(lookup(entries, Field::Tokens))?;
        let version = read_version(lookup(entries, Field::Version))?;
        let complete_user = read_flag(lookup(entries, Field::CompleteUser), Field::CompleteUser)?;
        let hostname = read_flag(lookup(entries, Field::Hostname), Field::Hostname)?;
        Ok(
            FrontMatterSshdCommand {
                command,
                tokens: FrontMatterTokens(tokens),
                version,
                complete_user,
                hostname,
            },
        )
    }
}

impl FrontMatter {
    /// The declared tokens.
    pub fn tokens(&self) -> (r: &[Token])
        ensures
            r@ == self@.sshd_command.tokens,
    {
        self.sshd_command.tokens()
    }

    /// Reads a block that has been read as a document.
    pub fn from_document(document: Document) -> (r: Result<FrontMatter, SchemaError>)
        ensures
            match schema(document@) {
                Ok(front_matter) => r matches Ok(read) && read@ == front_matter,
                Err(error) => r matches Err(e) && e@ == error,
            },
    {
        proof {
            lemma_document_view(document);
        }
        let ghost seen = document@;
        let mut entries = match document {
            Document::Mapping(entries) => entries,
            Document::Null => Vec::new(),
            _ => {
                return Err(SchemaError::Malformed(Field::Document));
            },
        };
        let ghost all = entries_view(entries@);
        assert(top_entries(seen) == Some(all)) by {
            assert(all.len() == 0 ==> all =~= Seq::empty());
        }
        let at = match Document::find(&entries, Field::SshdCommand.name()) {
            Some(at) => at,
            None => {
                return Err(SchemaError::MissingField(Field::SshdCommand));
            },
        };
        assert(all[at as int] == pair_view(entries@[at as int]));
        let sshd_command = FrontMatterSshdCommand::from_document(&entries[at].1)?;
        let _ = entries.remove(at);
        let ghost given = entries@;
        let ghost others = entries_view(given);
        assert(others =~= all.remove(at as int));
        let ghost bad_key = exists|i: int|
            0 <= i < others.len() && !fits_context(#[trigger] others[i]);
        assert(bad_key ==> schema(document@) == Err::<FrontMatterView, SchemaErrorView>(
            SchemaErrorView::Malformed(Field::Document),
        ));
        let mut reversed: Vec<(String, Document)> = Vec::new();
        while entries.len() > 0
            invariant
                bad_key == exists|i: int|
                    0 <= i < others.len() && !fits_context(#[trigger] others[i]),
                bad_key ==> schema(document@) == Err::<FrontMatterView, SchemaErrorView>(
                    SchemaErrorView::Malformed(Field::Document),
                ),
                others == entries_view(given),
                entries@.len() <= given.len(),
                entries@ == given.take(entries@.len() as int),
                reversed@.len() == given.len() - entries@.len(),
                forall|i: int|
                    entries@.len() <= i < others.len() ==> fits_context(#[trigger] others[i]),
                forall|k: int|
                    0 <= k < reversed@.len() ==> entry_view(#[trigger] reversed@[k]) == entry_of(
                        others[others.len() - 1 - k],
                    ),
            decreases entries.len(),
        {
            let ghost n = entries@.len();
            let entry = entries.pop().unwrap();
            proof {
                assert(entry == given[n - 1]);
                assert(entries@ =~= given.take(n - 1));
                assert(others[n - 1] == pair_view(given[n - 1]));
            }
            if !entry.1.is_plain() {
                proof {
                    assert(!fits_context(others[n - 1]));
                }
                return Err(SchemaError::Malformed(Field::Document));
            }
            match entry.0 {
                Document::String(key) => {
                    reversed.push((key, entry.1));
                },
                _ => {
                    proof {
                        assert(!fits_context(others[n - 1]));
                    }
                    return Err(SchemaError::Malformed(Field::Document));
                },
            }
        }
        let mut extra: Vec<(String, Document)> = Vec::new();
        let ghost back = reversed@;
        while reversed.len() > 0
            invariant
                reversed@.len() <= back.len(),
                reversed@ == back.take(reversed@.len() as int),
                extra@.len() == back.len() - reversed@.len(),
                forall|k: int|
                    0 <= k < extra@.len() ==> #[trigger] extra@[k] == back[back.len() - 1 - k],
            decreases reversed.len(),
        {
            let ghost n = reversed@.len();
            let entry = reversed.pop().unwrap();
            proof {
                assert(entry == back[n - 1]);
                assert(reversed@ =~= back.take(n - 1));
            }
            extra.push(entry);
        }
        let r = FrontMatter { sshd_command, extra_context: extra };
        proof {
            assert(r@.extra_context =~= others.map_values(
                |e: (DocumentView, DocumentView)| entry_of(e),
            ));
        }
        Ok(r)
    }

    /// Checks the front matter, given whether the running version
    /// satisfies the requirement.
    pub fn check(&self, running: Version, version_ok: bool) -> (r: Result<(), FrontMatterError>)
        ensures
            match self@.sshd_command.checked(running, version_ok) {
                Ok(()) => r is Ok,
                Err(error) => r matches Err(e) && e@ == error,
            },
    {
        if !version_ok {
            return Err(FrontMatterError::InvalidVersion(running, self.sshd_command.version.clone()));
        }
        let command = self.sshd_command.command;
        match command.validate_tokens(self.sshd_command.tokens()) {
            Err(token) => {
                return Err(FrontMatterError::UnsupportedToken(command, token));
            },
            Ok(()) => {},
        }
        if self.sshd_command.complete_user {
            let tokens = self.sshd_command.tokens();
            let mut found = false;
            let mut i: usize = 0;
            while i < tokens.len()
                invariant
                    i <= tokens.len(),
                    found <==> exists|j: int| 0 <= j < i && (#[trigger] tokens@[j]).is_identity(),
                decreases tokens.len() - i,
            {
                if tokens[i].names_user() {
                    found = true;
                }
                i += 1;
            }
            if !found {
                return Err(FrontMatterError::ParseError(SchemaError::IdentityTokenRequired));
            }
        }
        Ok(())
    }

    /// Checks the front matter for the running version `running`.
    pub fn validate_for(&self, running: Version) -> (r: Result<(), FrontMatterError>)
        ensures
            match self@.sshd_command.validated(running) {
                Ok(()) => r is Ok,
                Err(error) => r matches Err(e) && e@ == error,
            },
    {
        let version_ok = self.sshd_command.version.matches(&running);
        self.check(running, version_ok)
    }

    /// Checks the front matter for the version of this tool: that the
    /// version satisfies the requirement, that the command supports each
    /// declared token, and that a token names the user where the user is to
    /// be completed.
    pub fn validate(&self) -> (r: Result<(), FrontMatterError>)
        ensures
            match self@.sshd_command.validated(this_version()) {
                Ok(()) => r is Ok,
                Err(error) => r matches Err(e) && e@ == error,
            },
    {
        self.validate_for(crate_version())
    }

    /// Reads a template: splits it, reads its block as YAML and the document
    /// as front matter. With the front matter comes the index at which the
    /// body starts.
    pub fn parse(input: &[u8]) -> (r: Result<(FrontMatter, usize), FrontMatterError>)
        ensures
            match parsed(input@) {
                Ok((front_matter, body)) => r matches Ok(read) && read.0@ == front_matter && read.1
                    == body && body <= input@.len(),
                Err(error) => r matches Err(e) && e@ == error,
            },
    {
        let frame = split_front_matter(input)?;
        let block = slice_subrange(input, frame.block_start, frame.block_end);
        let document = match Document::from_yaml(block) {
            Ok(document) => document,
            Err(diagnostic) => {
                return Err(FrontMatterError::ParseError(SchemaError::Syntax(diagnostic)));
            },
        };
        match FrontMatter::from_document(document) {
            Ok(front_matter) => Ok((front_matter, frame.body_start)),
            Err(error) => Err(FrontMatterError::ParseError(error)),
        }
    }
}

} // verus!
