//! The rendering context: what a template sees of the connection, of the
//! user and of its own front matter.
//!
//! The declared tokens are bound to the arguments in order: each token takes
//! the next arguments, as many as it stands for. What the tokens give stands
//! in the context under reserved keys, behind the extra context of the front
//! matter; of two entries with one key, the later one counts.

use vstd::prelude::*;

use crate::document::{Document, DocumentView};
use crate::error::{SshdCommandError, SshdCommandErrorView};
use crate::frontmatter::{entry_view, FrontMatter, FrontMatterView};
use crate::ip::{ip_of, IpAddress, SocketAddress};
use crate::text::{parse_u16, parse_u32, parse_unsigned, text_is};
use crate::tokens::Token;
use crate::user::{account_view, Account, AccountView, User, UserView};

verus! {

/// A value of the context.
#[derive(PartialEq, Eq, Debug)]
pub enum ContextValue {
    /// A value of the front matter's extra context.
    Document(Document),
    /// An end of the connection.
    Address(SocketAddress),
    User(User),
    Text(String),
    Number(u32),
}

/// A [`ContextValue`] as a value of mathematics.
pub enum ContextValueView {
    Document(DocumentView),
    Address(SocketAddress),
    User(UserView),
    Text(Seq<char>),
    Number(u32),
}

impl View for ContextValue {
    type V = ContextValueView;

    open spec fn view(&self) -> ContextValueView {
        match self {
            ContextValue::Document(document) => ContextValueView::Document(document@),
            ContextValue::Address(address) => ContextValueView::Address(*address),
            ContextValue::User(user) => ContextValueView::User(user@),
            ContextValue::Text(text) => ContextValueView::Text(text@),
            ContextValue::Number(number) => ContextValueView::Number(*number),
        }
    }
}

/// The entries of a context as values of mathematics.
pub type Entries = Seq<(Seq<char>, ContextValueView)>;

/// An entry of a context as a value of mathematics.
pub open spec fn context_entry_view(entry: (String, ContextValue)) -> (Seq<char>, ContextValueView) {
    (entry.0@, entry.1@)
}

/// The context of a rendering: keys and values in the order in which they
/// were entered. Of two entries with one key, the later one counts.
#[derive(PartialEq, Eq, Debug)]
pub struct Context {
    pub entries: Vec<(String, ContextValue)>,
}

impl View for Context {
    type V = Entries;

    open spec fn view(&self) -> Entries {
        self.entries@.map_values(|e: (String, ContextValue)| context_entry_view(e))
    }
}

/// The value of the last entry of `entries` with the key `key`.
pub open spec fn value_for(entries: Entries, key: Seq<char>) -> Option<ContextValueView>
    decreases entries.len(),
{
    if entries.len() == 0 {
        None
    } else if entries.last().0 == key {
        Some(entries.last().1)
    } else {
        value_for(entries.drop_last(), key)
    }
}

/// Entries that are entered later take precedence: a key of the later
/// entries has its value from them, whatever the earlier entries hold.
pub proof fn lemma_later_entries_win(earlier: Entries, later: Entries, key: Seq<char>)
    ensures
        value_for(earlier + later, key) == match value_for(later, key) {
            Some(value) => Some(value),
            None => value_for(earlier, key),
        },
    decreases later.len(),
{
    if later.len() == 0 {
        assert(earlier + later =~= earlier);
    } else {
        let all = earlier + later;
        assert(all.last() == later.last());
        assert(all.drop_last() =~= earlier + later.drop_last());
        lemma_later_entries_win(earlier, later.drop_last(), key);
    }
}

/// What the declared tokens give, once they are bound to their arguments.
#[derive(PartialEq, Eq, Debug)]
pub struct Bindings {
    pub client: Option<SocketAddress>,
    pub server: Option<SocketAddress>,
    pub home_dir: Option<String>,
    pub key_id: Option<u32>,
    pub user: User,
}

/// [`Bindings`] as a value of mathematics.
pub struct BindingsView {
    pub client: Option<SocketAddress>,
    pub server: Option<SocketAddress>,
    pub home_dir: Option<Seq<char>>,
    pub key_id: Option<u32>,
    pub user: UserView,
}

impl View for Bindings {
    type V = BindingsView;

    open spec fn view(&self) -> BindingsView {
        BindingsView {
            client: self.client,
            server: self.server,
            home_dir: match self.home_dir {
                Some(text) => Some(text@),
                None => None,
            },
            key_id: self.key_id,
            user: self.user@,
        }
    }
}

/// The argument at `at`, for `token`.
pub open spec fn text_arg(args: Seq<Seq<char>>, at: int, token: Token) -> Result<
    Seq<char>,
    SshdCommandErrorView,
> {
    if 0 <= at < args.len() {
        Ok(args[at])
    } else {
        Err(SshdCommandErrorView::MissingTokenArgument(token))
    }
}

/// The argument at `at` as a number below `2^32`, for `token`.
pub open spec fn number_arg(args: Seq<Seq<char>>, at: int, token: Token) -> Result<
    u32,
    SshdCommandErrorView,
> {
    match text_arg(args, at, token) {
        Err(error) => Err(error),
        Ok(text) => match parse_unsigned(text, 0x1_0000_0000) {
            Some(number) => Ok(number as u32),
            None => Err(SshdCommandErrorView::InvalidTokenArgument(token, text)),
        },
    }
}

/// The end of a connection that the two arguments at `at` write: an address
/// and a port.
pub open spec fn endpoint_arg(args: Seq<Seq<char>>, at: int) -> Result<
    SocketAddress,
    SshdCommandErrorView,
> {
    let token = Token::ConnectionEndpoints;
    match text_arg(args, at, token) {
        Err(error) => Err(error),
        Ok(address) => match ip_of(address) {
            None => Err(SshdCommandErrorView::InvalidTokenArgument(token, address)),
            Some(ip) => match text_arg(args, at + 1, token) {
                Err(error) => Err(error),
                Ok(port) => match parse_unsigned(port, 0x1_0000) {
                    None => Err(SshdCommandErrorView::InvalidTokenArgument(token, port)),
                    Some(number) => Ok(SocketAddress { ip, port: number as u16 }),
                },
            },
        },
    }
}

impl BindingsView {
    /// Nothing bound.
    pub open spec fn empty() -> BindingsView {
        BindingsView {
            client: None,
            server: None,
            home_dir: None,
            key_id: None,
            user: UserView::unknown(),
        }
    }

    /// The bindings once `token` is bound to its arguments, which start at
    /// `at`. The connection's ends take four arguments: the client's address
    /// and port, then the server's. Each other token takes one argument: the
    /// key's id and the user's id as numbers, the others as they are. A
    /// missing argument is an error, and so is one that has not the form
    /// asked for; the arguments are read in order, and the first error
    /// counts.
    #[verifier::opaque]
    pub open spec fn bind(self, token: Token, args: Seq<Seq<char>>, at: int) -> Result<
        BindingsView,
        SshdCommandErrorView,
    > {
        match token {
            Token::ConnectionEndpoints => match endpoint_arg(args, at) {
                Err(error) => Err(error),
                Ok(client) => match endpoint_arg(args, at + 2) {
                    Err(error) => Err(error),
                    Ok(server) => Ok(
                        BindingsView {
                            client: Some(client),
                            server: Some(server),
                            home_dir: self.home_dir,
                            key_id: self.key_id,
                            user: self.user,
                        },
                    ),
                },
            },
            Token::HomeDirUser => match text_arg(args, at, token) {
                Err(error) => Err(error),
                Ok(text) => Ok(
                    BindingsView {
                        client: self.client,
                        server: self.server,
                        home_dir: Some(text),
                        key_id: self.key_id,
                        user: self.user,
                    },
                ),
            },
            Token::KeyIdCert => match number_arg(args, at, token) {
                Err(error) => Err(error),
                Ok(number) => Ok(
                    BindingsView {
                        client: self.client,
                        server: self.server,
                        home_dir: self.home_dir,
                        key_id: Some(number),
                        user: self.user,
                    },
                ),
            },
            Token::UserId => match number_arg(args, at, token) {
                Err(error) => Err(error),
                Ok(number) => Ok(
                    BindingsView {
                        client: self.client,
                        server: self.server,
                        home_dir: self.home_dir,
                        key_id: self.key_id,
                        user: UserView {
                            gid: self.user.gid,
                            groups: self.user.groups,
                            name: self.user.name,
                            uid: Some(number),
                        },
                    },
                ),
            },
            Token::UserName => match text_arg(args, at, token) {
                Err(error) => Err(error),
                Ok(text) => Ok(
                    BindingsView {
                        client: self.client,
                        server: self.server,
                        home_dir: self.home_dir,
                        key_id: self.key_id,
                        user: UserView {
                            gid: self.user.gid,
                            groups: self.user.groups,
                            name: Some(text),
                            uid: self.user.uid,
                        },
                    },
                ),
            },
            _ => match text_arg(args, at, token) {
                Err(error) => Err(error),
                Ok(_) => Ok(self),
            },
        }
    }

    /// The bindings once each of `tokens` is bound, in order, to the
    /// arguments from `at` on. The first error counts.
    pub open spec fn bind_all(self, tokens: Seq<Token>, args: Seq<Seq<char>>, at: int) -> Result<
        BindingsView,
        SshdCommandErrorView,
    >
        decreases tokens.len(),
    {
        if tokens.len() == 0 {
            Ok(self)
        } else {
            match self.bind(tokens[0], args, at) {
                Err(error) => Err(error),
                Ok(next) => next.bind_all(tokens.drop_first(), args, at + tokens[0].arity()),
            }
        }
    }

    /// The entries that the bindings give, with the user `user` and the
    /// host's name `hostname`: under the keys `client`, `server`, `home_dir`
    /// and `key_id` what is bound, under `user` the user in any case, under
    /// `hostname` the name where there is one.
    pub open spec fn reserved(self, user: UserView, hostname: Option<Seq<char>>) -> Entries {
        (match self.client {
            Some(address) => seq![("client"@, ContextValueView::Address(address))],
            None => Seq::empty(),
        }) + (match self.server {
            Some(address) => seq![("server"@, ContextValueView::Address(address))],
            None => Seq::empty(),
        }) + (match self.home_dir {
            Some(text) => seq![("home_dir"@, ContextValueView::Text(text))],
            None => Seq::empty(),
        }) + (match self.key_id {
            Some(number) => seq![("key_id"@, ContextValueView::Number(number))],
            None => Seq::empty(),
        }) + seq![("user"@, ContextValueView::User(user))] + (match hostname {
            Some(text) => seq![("hostname"@, ContextValueView::Text(text))],
            None => Seq::empty(),
        })
    }
}

/// With one more entry behind them, the entries give the new entry's value
/// for its key and their own values for every other key.
pub proof fn lemma_value_for_push(
    entries: Entries,
    key: Seq<char>,
    value: ContextValueView,
    asked: Seq<char>,
)
    ensures
        value_for(entries + seq![(key, value)], asked) == if key == asked {
            Some(value)
        } else {
            value_for(entries, asked)
        },
{
    let all = entries + seq![(key, value)];
    assert(all.last() == (key, value));
    assert(all.drop_last() =~= entries);
}

/// The reserved keys take precedence over the extra context: whatever
/// entries stand before what the bindings give, each reserved key that the
/// bindings give has the bindings' value, and the key `user` has the user in
/// any case.
pub proof fn lemma_reserved_keys_win(
    extra: Entries,
    bindings: BindingsView,
    user: UserView,
    hostname: Option<Seq<char>>,
)
    ensures
        ({
            let context = extra + bindings.reserved(user, hostname);
            &&& value_for(context, "user"@) == Some(ContextValueView::User(user))
            &&& bindings.client matches Some(address) ==> value_for(context, "client"@) == Some(
                ContextValueView::Address(address),
            )
            &&& bindings.server matches Some(address) ==> value_for(context, "server"@) == Some(
                ContextValueView::Address(address),
            )
            &&& bindings.home_dir matches Some(text) ==> value_for(context, "home_dir"@) == Some(
                ContextValueView::Text(text),
            )
            &&& bindings.key_id matches Some(number) ==> value_for(context, "key_id"@) == Some(
                ContextValueView::Number(number),
            )
            &&& hostname matches Some(text) ==> value_for(context, "hostname"@) == Some(
                ContextValueView::Text(text),
            )
        }),
{
    reveal_strlit("client");
    reveal_strlit("server");
    reveal_strlit("home_dir");
    reveal_strlit("key_id");
    reveal_strlit("user");
    reveal_strlit("hostname");
    assert("client"@[0] != "server"@[0]);
    assert("client"@.len() != "home_dir"@.len());
    assert("client"@[0] != "key_id"@[0]);
    assert("client"@.len() != "user"@.len());
    assert("client"@.len() != "hostname"@.len());
    assert("server"@.len() != "home_dir"@.len());
    assert("server"@[0] != "key_id"@[0]);
    assert("server"@.len() != "user"@.len());
    assert("server"@.len() != "hostname"@.len());
    assert("home_dir"@.len() != "key_id"@.len());
    assert("home_dir"@.len() != "user"@.len());
    assert("home_dir"@[2] != "hostname"@[2]);
    assert("key_id"@.len() != "user"@.len());
    assert("key_id"@.len() != "hostname"@.len());
    assert("user"@.len() != "hostname"@.len());
    let e0 = extra;
    let e1 = match bindings.client {
        Some(address) => e0 + seq![("client"@, ContextValueView::Address(address))],
        None => e0,
    };
    let e2 = match bindings.server {
        Some(address) => e1 + seq![("server"@, ContextValueView::Address(address))],
        None => e1,
    };
    let e3 = match bindings.home_dir {
        Some(text) => e2 + seq![("home_dir"@, ContextValueView::Text(text))],
        None => e2,
    };
    let e4 = match bindings.key_id {
        Some(number) => e3 + seq![("key_id"@, ContextValueView::Number(number))],
        None => e3,
    };
    let e5 = e4 + seq![("user"@, ContextValueView::User(user))];
    let e6 = match hostname {
        Some(text) => e5 + seq![("hostname"@, ContextValueView::Text(text))],
        None => e5,
    };
    assert(e6 =~= extra + bindings.reserved(user, hostname));
    assert forall|asked: Seq<char>| #![trigger value_for(e6, asked)] true implies {
        &&& value_for(e1, asked) == (match bindings.client {
            Some(address) if asked == "client"@ => Some(ContextValueView::Address(address)),
            _ => value_for(e0, asked),
        })
        &&& value_for(e2, asked) == (match bindings.server {
            Some(address) if asked == "server"@ => Some(ContextValueView::Address(address)),
            _ => value_for(e1, asked),
        })
        &&& value_for(e3, asked) == (match bindings.home_dir {
            Some(text) if asked == "home_dir"@ => Some(ContextValueView::Text(text)),
            _ => value_for(e2, asked),
        })
        &&& value_for(e4, asked) == (match bindings.key_id {
            Some(number) if asked == "key_id"@ => Some(ContextValueView::Number(number)),
            _ => value_for(e3, asked),
        })
        &&& value_for(e5, asked) == (if asked == "user"@ {
            Some(ContextValueView::User(user))
        } else {
            value_for(e4, asked)
        })
        &&& value_for(e6, asked) == (match hostname {
            Some(text) if asked == "hostname"@ => Some(ContextValueView::Text(text)),
            _ => value_for(e5, asked),
        })
    } by {
        if let Some(address) = bindings.client {
            lemma_value_for_push(e0, "client"@, ContextValueView::Address(address), asked);
        }
        if let Some(address) = bindings.server {
            lemma_value_for_push(e1, "server"@, ContextValueView::Address(address), asked);
        }
        if let Some(text) = bindings.home_dir {
            lemma_value_for_push(e2, "home_dir"@, ContextValueView::Text(text), asked);
        }
        if let Some(number) = bindings.key_id {
            lemma_value_for_push(e3, "key_id"@, ContextValueView::Number(number), asked);
        }
        lemma_value_for_push(e4, "user"@, ContextValueView::User(user), asked);
        if let Some(text) = hostname {
            lemma_value_for_push(e5, "hostname"@, ContextValueView::Text(text), asked);
        }
    }
}

/// Binding tokens leaves the user's group and groups as they were, and
/// leaves the user's id and name as they were but for the tokens that give
/// them: the id is known behind the binding where it was known before or a
/// token gives it, and so is the name.
pub proof fn lemma_bound_user(
    bindings: BindingsView,
    tokens: Seq<Token>,
    args: Seq<Seq<char>>,
    at: int,
)
    ensures
        bindings.bind_all(tokens, args, at) matches Ok(after) ==> {
            &&& after.user.gid == bindings.user.gid
            &&& after.user.groups == bindings.user.groups
            &&& after.user.uid.is_some() <==> bindings.user.uid.is_some() || tokens.contains(
                Token::UserId,
            )
            &&& after.user.name.is_some() <==> bindings.user.name.is_some() || tokens.contains(
                Token::UserName,
            )
        },
    decreases tokens.len(),
{
    reveal(BindingsView::bind);
    if tokens.len() > 0 {
        let rest = tokens.drop_first();
        assert(tokens[0] == tokens[0] && tokens.contains(tokens[0]));
        assert forall|token: Token| tokens.contains(token) <==> token == tokens[0]
            || rest.contains(token) by {
            if rest.contains(token) {
                let i = choose|i: int| 0 <= i < rest.len() && rest[i] == token;
                assert(tokens[i + 1] == token);
            }
            if tokens.contains(token) && token != tokens[0] {
                let i = choose|i: int| 0 <= i < tokens.len() && tokens[i] == token;
                assert(rest[i - 1] == token);
            }
        }
        match bindings.bind(tokens[0], args, at) {
            Ok(next) => {
                lemma_bound_user(next, rest, args, at + tokens[0].arity());
            },
            Err(_) => {},
        }
    }
}

/// Where the arguments are as many as the tokens stand for, no token
/// misses an argument.
pub proof fn lemma_enough_arguments(
    bindings: BindingsView,
    tokens: Seq<Token>,
    args: Seq<Seq<char>>,
    at: int,
)
    requires
        0 <= at,
        at + Token::total_arity(tokens) <= args.len(),
    ensures
        !(bindings.bind_all(tokens, args, at) matches Err(
            SshdCommandErrorView::MissingTokenArgument(_),
        )),
    decreases tokens.len(),
{
    reveal(BindingsView::bind);
    if tokens.len() > 0 {
        match bindings.bind(tokens[0], args, at) {
            Ok(next) => {
                lemma_enough_arguments(next, tokens.drop_first(), args, at + tokens[0].arity());
            },
            Err(_) => {},
        }
    }
}

/// The stand-in arguments of the tokens are enough for them: bound to their
/// own stand-in arguments, no token misses an argument.
pub proof fn lemma_placeholders_suffice(tokens: Seq<Token>, uid: Seq<char>, name: Seq<char>)
    ensures
        !(bound(tokens, Token::placeholders(tokens, uid, name)) matches Err(
            SshdCommandErrorView::MissingTokenArgument(_),
        )),
{
    Token::lemma_placeholders_len(tokens, uid, name);
    lemma_enough_arguments(
        BindingsView::empty(),
        tokens,
        Token::placeholders(tokens, uid, name),
        0,
    );
}

/// The bindings of `tokens` to the arguments `args`.
pub open spec fn bound(tokens: Seq<Token>, args: Seq<Seq<char>>) -> Result<
    BindingsView,
    SshdCommandErrorView,
> {
    BindingsView::empty().bind_all(tokens, args, 0)
}

/// The entries of the extra context, as entries of a context.
pub open spec fn extra_entries(extra: Seq<(Seq<char>, DocumentView)>) -> Entries {
    extra.map_values(|e: (Seq<char>, DocumentView)| (e.0, ContextValueView::Document(e.1)))
}

/// The context of a front matter and its arguments, given what the
/// directory of users returned for the lookup of the user and what the
/// system returned as the host's name. First the tokens are bound; then the
/// user is completed, where the front matter asks for it; then the host's
/// name is entered, where the front matter asks for it. The first error
/// counts. The context is the extra context, then what is reserved.
pub open spec fn context_of(
    front_matter: FrontMatterView,
    args: Seq<Seq<char>>,
    account: Option<AccountView>,
    hostname: Option<Seq<char>>,
) -> Result<Entries, SshdCommandErrorView> {
    match bound(front_matter.sshd_command.tokens, args) {
        Err(error) => Err(error),
        Ok(bindings) => match (if front_matter.sshd_command.complete_user {
            bindings.user.completion(account)
        } else {
            Ok(bindings.user)
        }) {
            Err(error) => Err(error),
            Ok(user) => if front_matter.sshd_command.hostname && hostname.is_none() {
                Err(SshdCommandErrorView::Unknown("Failed to get hostname"@))
            } else {
                Ok(
                    extra_entries(front_matter.extra_context) + bindings.reserved(
                        user,
                        if front_matter.sshd_command.hostname {
                            hostname
                        } else {
                            None
                        },
                    ),
                )
            },
        },
    }
}

/// The text behind `text`, as a sequence of characters.
pub open spec fn text_view(text: Option<String>) -> Option<Seq<char>> {
    match text {
        Some(t) => Some(t@),
        None => None,
    }
}

/// `hostname::get`: the name of this host, where the system gives one and
/// it is Unicode. Nothing is claimed of it.
#[verifier::external_body]
fn local_hostname() -> Option<String> {
    hostname::get().ok().and_then(|name| name.into_string().ok())
}

/// The argument at `at + offset`, for `token`.
fn take_arg<'a>(args: &'a Vec<String>, at: usize, offset: usize, token: Token) -> (r: Result<
    &'a String,
    SshdCommandError,
>)
    requires
        at <= args@.len(),
        offset < 4,
    ensures
        match text_arg(args.deep_view(), at + offset, token) {
            Ok(text) => r matches Ok(found) && found@ == text && at + offset < args@.len(),
            Err(error) => r matches Err(e) && e@ == error,
        },
{
    if args.len() - at > offset {
        let found = &args[at + offset];
        proof {
            assert(args.deep_view()[at + offset] == found@);
        }
        Ok(found)
    } else {
        Err(SshdCommandError::MissingTokenArgument(token))
    }
}

/// The argument at `at` as a number, for `token`.
fn take_number(args: &Vec<String>, at: usize, token: Token) -> (r: Result<u32, SshdCommandError>)
    requires
        at <= args@.len(),
    ensures
        match number_arg(args.deep_view(), at as int, token) {
            Ok(number) => r == Ok::<u32, SshdCommandError>(number) && at < args@.len(),
            Err(error) => r matches Err(e) && e@ == error,
        },
{
    let text = take_arg(args, at, 0, token)?;
    match parse_u32(text.as_str()) {
        Some(number) => Ok(number),
        None => Err(SshdCommandError::InvalidTokenArgument(token, text.clone())),
    }
}

/// The end of a connection that the two arguments at `at + offset` write.
fn take_endpoint(args: &Vec<String>, at: usize, offset: usize) -> (r: Result<
    SocketAddress,
    SshdCommandError,
>)
    requires
        at <= args@.len(),
        offset <= 2,
    ensures
        match endpoint_arg(args.deep_view(), at + offset) {
            Ok(address) => r == Ok::<SocketAddress, SshdCommandError>(address) && at + offset + 1
                < args@.len(),
            Err(error) => r matches Err(e) && e@ == error,
        },
{
    let token = Token::ConnectionEndpoints;
    let address = take_arg(args, at, offset, token)?;
    let ip = match IpAddress::parse(address.as_str()) {
        Some(ip) => ip,
        None => {
            return Err(SshdCommandError::InvalidTokenArgument(token, address.clone()));
        },
    };
    let port = take_arg(args, at, offset + 1, token)?;
    match parse_u16(port.as_str()) {
        Some(number) => Ok(SocketAddress::new(ip, number)),
        None => Err(SshdCommandError::InvalidTokenArgument(token, port.clone())),
    }
}

/// Binds `token` to its arguments, which start at `at`.
fn bind_token(bindings: Bindings, token: Token, args: &Vec<String>, at: usize) -> (r: Result<
    Bindings,
    SshdCommandError,
>)
    requires
        at <= args@.len(),
    ensures
        match bindings@.bind(token, args.deep_view(), at as int) {
            Ok(next) => r matches Ok(found) && found@ == next && at + token.arity() <= args@.len(),
            Err(error) => r matches Err(e) && e@ == error,
        },
{
    proof {
        reveal(BindingsView::bind);
    }
    let Bindings { client, server, home_dir, key_id, user } = bindings;
    match token {
        Token::ConnectionEndpoints => {
            let client = take_endpoint(args, at, 0)?;
            let server = take_endpoint(args, at, 2)?;
            Ok(Bindings { client: Some(client), server: Some(server), home_dir, key_id, user })
        },
        Token::HomeDirUser => {
            let text = take_arg(args, at, 0, token)?;
            Ok(Bindings { client, server, home_dir: Some(text.clone()), key_id, user })
        },
        Token::KeyIdCert => {
            let number = take_number(args, at, token)?;
            Ok(Bindings { client, server, home_dir, key_id: Some(number), user })
        },
        Token::UserId => {
            let number = take_number(args, at, token)?;
            let User { gid, groups, name, uid: _ } = user;
            Ok(
                Bindings {
                    client,
                    server,
                    home_dir,
                    key_id,
                    user: User { gid, groups, name, uid: Some(number) },
                },
            )
        },
        Token::UserName => {
            let text = take_arg(args, at, 0, token)?;
            let User { gid, groups, name: _, uid } = user;
            Ok(
                Bindings {
                    client,
                    server,
                    home_dir,
                    key_id,
                    user: User { gid, groups, name: Some(text.clone()), uid },
                },
            )
        },
        _ => {
            let _ = take_arg(args, at, 0, token)?;
            Ok(Bindings { client, server, home_dir, key_id, user })
        },
    }
}

/// Binds the declared tokens to the arguments.
pub fn bind_arguments(tokens: &[Token], args: &Vec<String>) -> (r: Result<
    Bindings,
    SshdCommandError,
>)
    ensures
        match bound(tokens@, args.deep_view()) {
            Ok(bindings) => r matches Ok(found) && found@ == bindings,
            Err(error) => r matches Err(e) && e@ == error,
        },
{
    let mut bindings = Bindings {
        client: None,
        server: None,
        home_dir: None,
        key_id: None,
        user: User::default(),
    };
    let ghost a = args.deep_view();
    let mut at: usize = 0;
    let mut i: usize = 0;
    proof {
        assert(tokens@.skip(0) =~= tokens@);
    }
    while i < tokens.len()
        invariant
            i <= tokens@.len(),
            at <= args@.len(),
            a == args.deep_view(),
            bound(tokens@, a) == bindings@.bind_all(tokens@.skip(i as int), a, at as int),
        decreases tokens@.len() - i,
    {
        let token = tokens[i];
        proof {
            let rest = tokens@.skip(i as int);
            assert(rest[0] == token);
            assert(rest.drop_first() =~= tokens@.skip(i + 1));
        }
        bindings = bind_token(bindings, token, args, at)?;
        let count = args.len();
        assert(at + token.arity() <= count);
        at += token.argument_count();
        i += 1;
    }
    Ok(bindings)
}

impl Context {
    /// The value of the last entry with the key `key`.
    pub fn get(&self, key: &str) -> (r: Option<&ContextValue>)
        ensures
            match value_for(self@, key@) {
                Some(value) => r matches Some(found) && found@ == value,
                None => r.is_none(),
            },
    {
        let mut i: usize = self.entries.len();
        proof {
            assert(self@.take(i as int) =~= self@);
        }
        while i > 0
            invariant
                i <= self.entries@.len(),
                value_for(self@, key@) == value_for(self@.take(i as int), key@),
            decreases i,
        {
            proof {
                let head = self@.take(i as int);
                assert(head.last() == self@[i - 1]);
                assert(head.drop_last() =~= self@.take(i - 1));
            }
            if text_is(self.entries[i - 1].0.as_str(), key) {
                return Some(&self.entries[i - 1].1);
            }
            i -= 1;
        }
        None
    }

    /// The extra context and the entries that the bindings give, as one
    /// context.
    pub fn assemble(
        extra: Vec<(String, Document)>,
        bindings: Bindings,
        hostname: Option<String>,
    ) -> (r: Context)
        ensures
            r@ == extra_entries(extra@.map_values(|e: (String, Document)| entry_view(e)))
                + bindings@.reserved(bindings.user@, text_view(hostname)),
    {
        let ghost extra_view = extra_entries(
            extra@.map_values(|e: (String, Document)| entry_view(e)),
        );
        let ghost reserved = bindings@.reserved(bindings.user@, text_view(hostname));
        let mut extra = extra;
        let ghost given = extra@;
        let mut reversed: Vec<(String, Document)> = Vec::new();
        while extra.len() > 0
            invariant
                extra@.len() <= given.len(),
                extra@ == given.take(extra@.len() as int),
                reversed@.len() == given.len() - extra@.len(),
                forall|k: int|
                    0 <= k < reversed@.len() ==> #[trigger] reversed@[k] == given[given.len() - 1
                        - k],
            decreases extra.len(),
        {
            let ghost n = extra@.len();
            let entry = extra.pop().unwrap();
            proof {
                assert(entry == given[n - 1]);
                assert(extra@ =~= given.take(n - 1));
            }
            reversed.push(entry);
        }
        let mut entries: Vec<(String, ContextValue)> = Vec::new();
        let ghost back = reversed@;
        while reversed.len() > 0
            invariant
                reversed@.len() <= back.len(),
                reversed@ == back.take(reversed@.len() as int),
                entries@.len() == back.len() - reversed@.len(),
                forall|k: int|
                    0 <= k < entries@.len() ==> context_entry_view(#[trigger] entries@[k]) == (
                        back[back.len() - 1 - k].0@,
                        ContextValueView::Document(back[back.len() - 1 - k].1@),
                    ),
            decreases reversed.len(),
        {
            let ghost n = reversed@.len();
            let entry = reversed.pop().unwrap();
            proof {
                assert(entry == back[n - 1]);
                assert(reversed@ =~= back.take(n - 1));
            }
            entries.push((entry.0, ContextValue::Document(entry.1)));
        }
        let ghost mut now = entries@.map_values(|e: (String, ContextValue)| context_entry_view(e));
        proof {
            assert(now =~= extra_view);
        }
        let Bindings { client, server, home_dir, key_id, user } = bindings;
        match client {
            Some(address) => {
                entries.push(("client".to_owned(), ContextValue::Address(address)));
            },
            None => {},
        }
        match server {
            Some(address) => {
                entries.push(("server".to_owned(), ContextValue::Address(address)));
            },
            None => {},
        }
        match home_dir {
            Some(text) => {
                entries.push(("home_dir".to_owned(), ContextValue::Text(text)));
            },
            None => {},
        }
        match key_id {
            Some(number) => {
                entries.push(("key_id".to_owned(), ContextValue::Number(number)));
            },
            None => {},
        }
        entries.push(("user".to_owned(), ContextValue::User(user)));
        match hostname {
            Some(text) => {
                entries.push(("hostname".to_owned(), ContextValue::Text(text)));
            },
            None => {},
        }
        let r = Context { entries };
        proof {
            assert(r@ =~= extra_view + reserved);
        }
        r
    }
}

/// The context of a front matter and its arguments, given what the
/// directory of users returned for the user (asked for only where the front
/// matter wants the user completed) and what the system returned as the
/// host's name (asked for only where the front matter wants it).
pub fn build_context_with(
    front_matter: FrontMatter,
    args: Vec<String>,
    account: Option<Account>,
    hostname: Option<String>,
) -> (r: Result<Context, SshdCommandError>)
    ensures
        match context_of(
            front_matter@,
            args.deep_view(),
            account_view(account),
            text_view(hostname),
        ) {
            Ok(entries) => r matches Ok(context) && context@ == entries,
            Err(error) => r matches Err(e) && e@ == error,
        },
{
    let bindings = bind_arguments(front_matter.tokens(), &args)?;
    finish(front_matter, bindings, account, hostname)
}

/// Completes the user and enters the host's name, as the front matter asks
/// for them, and assembles the context.
fn finish(
    front_matter: FrontMatter,
    bindings: Bindings,
    account: Option<Account>,
    hostname: Option<String>,
) -> (r: Result<Context, SshdCommandError>)
    ensures
        match (if front_matter@.sshd_command.complete_user {
            bindings@.user.completion(account_view(account))
        } else {
            Ok(bindings@.user)
        }) {
            Err(error) => r matches Err(e) && e@ == error,
            Ok(user) => if front_matter@.sshd_command.hostname && hostname.is_none() {
                r matches Err(e) && e@ == SshdCommandErrorView::Unknown("Failed to get hostname"@)
            } else {
                r matches Ok(context) && context@ == extra_entries(front_matter@.extra_context)
                    + bindings@.reserved(
                    user,
                    if front_matter@.sshd_command.hostname {
                        text_view(hostname)
                    } else {
                        None
                    },
                )
            },
        },
{
    let FrontMatter { sshd_command, extra_context } = front_matter;
    let Bindings { client, server, home_dir, key_id, user } = bindings;
    let mut user = user;
    if sshd_command.complete_user {
        user.complete_from(account)?;
    }
    let hostname = if sshd_command.hostname {
        match hostname {
            Some(name) => Some(name),
            None => {
                return Err(SshdCommandError::from("Failed to get hostname"));
            },
        }
    } else {
        None
    };
    Ok(Context::assemble(extra_context, Bindings { client, server, home_dir, key_id, user }, hostname))
}

/// The context of a front matter and its arguments. The user is completed
/// from the system's directory of users and the host's name is asked of the
/// system, each where the front matter asks for it.
///
/// Whatever the system returns, the result is the context that
/// [`context_of`] gives for what it returned. An error in the arguments
/// comes before anything is asked of the system.
pub fn build_context(front_matter: FrontMatter, args: Vec<String>) -> (r: Result<
    Context,
    SshdCommandError,
>)
    ensures
        exists|account: Option<AccountView>, hostname: Option<Seq<char>>|
            match #[trigger] context_of(front_matter@, args.deep_view(), account, hostname) {
                Ok(entries) => r matches Ok(context) && context@ == entries,
                Err(error) => r matches Err(e) && e@ == error,
            },
        bound(front_matter@.sshd_command.tokens, args.deep_view()) matches Err(error) ==> (
        r matches Err(e) && e@ == error),
        !front_matter@.sshd_command.complete_user && !front_matter@.sshd_command.hostname
            ==> match context_of(front_matter@, args.deep_view(), None, None) {
            Ok(entries) => r matches Ok(context) && context@ == entries,
            Err(error) => r matches Err(e) && e@ == error,
        },
{
    let ghost fm = front_matter@;
    let ghost a = args.deep_view();
    let bindings = match bind_arguments(front_matter.tokens(), &args) {
        Ok(bindings) => bindings,
        Err(error) => {
            proof {
                assert(context_of(fm, a, None, None) is Err);
            }
            return Err(error);
        },
    };
    let account = if front_matter.sshd_command.complete_user {
        bindings.user.lookup()
    } else {
        None
    };
    let hostname = if front_matter.sshd_command.hostname {
        local_hostname()
    } else {
        None
    };
    let ghost found = account_view(account);
    let ghost host = text_view(hostname);
    let r = finish(front_matter, bindings, account, hostname);
    proof {
        let outcome = context_of(fm, a, found, host);
        assert(match outcome {
            Ok(entries) => r matches Ok(context) && context@ == entries,
            Err(error) => r matches Err(e) && e@ == error,
        });
    }
    r
}

} // verus!
