use sshd_command::context::{
    bind_arguments, build_context, build_context_with, Bindings, Context, ContextValue,
};
use sshd_command::document::Document;
use sshd_command::frontmatter::{FrontMatter, FrontMatterError, FrontMatterTokens};
use sshd_command::ip::{IpAddress, SocketAddress};
use sshd_command::render::render_context;
use sshd_command::user::{Account, Group, User};
use sshd_command::{Command, SshdCommandError, Token};

fn strings(args: &[&str]) -> Vec<String> {
    args.iter().map(|arg| String::from(*arg)).collect()
}

fn front_matter(command: Command, tokens: Vec<Token>) -> FrontMatter {
    let mut front_matter = FrontMatter::default();
    front_matter.sshd_command.command = command;
    front_matter.sshd_command.tokens = FrontMatterTokens(tokens);
    front_matter
}

fn user_of(context: &Context) -> &User {
    match context.get("user") {
        Some(ContextValue::User(user)) => user,
        other => panic!("no user in the context: {:?}", other),
    }
}

#[test]
fn principals_with_uid_and_name() {
    let template = "---
sshd_command:
    version: '*'
    command: principals
    tokens: '%U %u'
---
{{ user.name }}
";
    let (context, body) = render_context(strings(&["1000", "alice"]), template.as_bytes()).unwrap();
    assert_eq!(&template[body..], "{{ user.name }}\n");
    let user = user_of(&context);
    assert_eq!(user.uid, Some(1000));
    assert_eq!(user.name, Some(String::from("alice")));
    assert_eq!(user.gid, None);
    assert_eq!(user.groups, None);
    assert_eq!(context.entries.len(), 1);
}

#[test]
fn gid_and_groups_come_with_completion() {
    let mut front_matter = front_matter(Command::Principals, vec![Token::UserId, Token::UserName]);
    front_matter.sshd_command.complete_user = true;
    let account = Account {
        uid: 1000,
        gid: 1000,
        name: String::from("alice.directory"),
        groups: vec![
            Group { gid: 1000, name: String::from("alice") },
            Group { gid: 27, name: String::from("sudo") },
        ],
    };
    let context =
        build_context_with(front_matter, strings(&["1000", "alice"]), Some(account), None).unwrap();
    let user = user_of(&context);
    assert_eq!(user.uid, Some(1000));
    assert_eq!(user.name, Some(String::from("alice")));
    assert_eq!(user.gid, Some(1000));
    assert_eq!(
        user.groups,
        Some(vec![
            Group { gid: 1000, name: String::from("alice") },
            Group { gid: 27, name: String::from("sudo") },
        ])
    );
}

#[test]
fn completion_by_name_takes_the_uid_from_the_directory() {
    let mut front_matter = front_matter(Command::Principals, vec![Token::UserName]);
    front_matter.sshd_command.complete_user = true;
    let account = Account { uid: 1001, gid: 100, name: String::from("bob"), groups: vec![] };
    let context = build_context_with(front_matter, strings(&["bob"]), Some(account), None).unwrap();
    let user = user_of(&context);
    assert_eq!(user.uid, Some(1001));
    assert_eq!(user.name, Some(String::from("bob")));
    assert_eq!(user.gid, Some(100));
    assert_eq!(user.groups, Some(vec![]));
}

#[test]
fn an_unknown_user_is_an_error_that_names_the_lookup() {
    let mut by_uid = front_matter(Command::Principals, vec![Token::UserId, Token::UserName]);
    by_uid.sshd_command.complete_user = true;
    assert_eq!(
        build_context_with(by_uid, strings(&["4000000", "ghost"]), None, None),
        Err(SshdCommandError::IdentityLookup(Token::UserId, String::from("4000000")))
    );
    let mut by_name = front_matter(Command::Principals, vec![Token::UserName]);
    by_name.sshd_command.complete_user = true;
    assert_eq!(
        build_context_with(by_name, strings(&["ghost"]), None, None),
        Err(SshdCommandError::IdentityLookup(Token::UserName, String::from("ghost")))
    );
}

#[test]
fn completion_without_an_identity_is_an_error() {
    let mut front_matter = front_matter(Command::Principals, vec![Token::HomeDirUser]);
    front_matter.sshd_command.complete_user = true;
    assert_eq!(
        build_context_with(front_matter, strings(&["/home/a"]), None, None),
        Err(SshdCommandError::Unknown(String::from("Failed to complete user")))
    );
    let mut nobody = User::default();
    assert_eq!(
        nobody.complete(),
        Err(SshdCommandError::Unknown(String::from("Failed to complete user")))
    );
    assert_eq!(nobody, User::default());
}

#[test]
fn keys_with_a_key_id_is_refused() {
    let template = "---
sshd_command:
    version: '*'
    command: keys
    tokens: '%u %i'
---
";
    let (front_matter, _) = FrontMatter::parse(template.as_bytes()).unwrap();
    assert_eq!(
        front_matter.validate(),
        Err(FrontMatterError::UnsupportedToken(Command::Keys, Token::KeyIdCert))
    );
    assert_eq!(
        render_context(strings(&["alice", "7"]), template.as_bytes()),
        Err(SshdCommandError::FrontMatter(FrontMatterError::UnsupportedToken(
            Command::Keys,
            Token::KeyIdCert
        )))
    );
}

#[test]
fn a_port_that_is_no_number_is_refused() {
    let tokens = [Token::ConnectionEndpoints, Token::UserName];
    assert_eq!(
        bind_arguments(&tokens, &strings(&["10.0.0.1", "ssh", "10.0.0.2", "22", "alice"])),
        Err(SshdCommandError::InvalidTokenArgument(
            Token::ConnectionEndpoints,
            String::from("ssh")
        ))
    );
    assert_eq!(
        bind_arguments(&tokens, &strings(&["10.0.0.1", "22", "10.0.0.2", "65536", "alice"])),
        Err(SshdCommandError::InvalidTokenArgument(
            Token::ConnectionEndpoints,
            String::from("65536")
        ))
    );
    assert_eq!(
        bind_arguments(&tokens, &strings(&["10.0.0.1", "22", "example.org", "22", "alice"])),
        Err(SshdCommandError::InvalidTokenArgument(
            Token::ConnectionEndpoints,
            String::from("example.org")
        ))
    );
}

#[test]
fn the_connection_takes_four_arguments() {
    let tokens = [Token::ConnectionEndpoints, Token::UserName, Token::UserId];
    let bindings =
        bind_arguments(&tokens, &strings(&["::1", "41644", "10.0.0.2", "22", "alice", "1000"]))
            .unwrap();
    assert_eq!(
        bindings,
        Bindings {
            client: Some(SocketAddress { ip: IpAddress::V6(1), port: 41644 }),
            server: Some(SocketAddress { ip: IpAddress::V4(0x0a00_0002), port: 22 }),
            home_dir: None,
            key_id: None,
            user: User { gid: None, groups: None, name: Some(String::from("alice")), uid: Some(1000) },
        }
    );
}

#[test]
fn a_missing_argument_names_its_token() {
    let tokens = [Token::ConnectionEndpoints, Token::HomeDirUser, Token::KeyIdCert];
    for given in 0..4 {
        let args = strings(&["::1", "41644", "::1", "22"][..given]);
        assert_eq!(
            bind_arguments(&tokens, &args),
            Err(SshdCommandError::MissingTokenArgument(Token::ConnectionEndpoints))
        );
    }
    assert_eq!(
        bind_arguments(&tokens, &strings(&["::1", "41644", "::1", "22"])),
        Err(SshdCommandError::MissingTokenArgument(Token::HomeDirUser))
    );
    assert_eq!(
        bind_arguments(&tokens, &strings(&["::1", "41644", "::1", "22", "/home/a"])),
        Err(SshdCommandError::MissingTokenArgument(Token::KeyIdCert))
    );
    assert_eq!(
        bind_arguments(&[Token::CaKeyType], &strings(&[])),
        Err(SshdCommandError::MissingTokenArgument(Token::CaKeyType))
    );
}

#[test]
fn the_first_error_counts() {
    let tokens = [Token::UserId, Token::KeyIdCert, Token::UserName];
    assert_eq!(
        bind_arguments(&tokens, &strings(&["root", "x"])),
        Err(SshdCommandError::InvalidTokenArgument(Token::UserId, String::from("root")))
    );
    assert_eq!(
        bind_arguments(&tokens, &strings(&["0", "x"])),
        Err(SshdCommandError::InvalidTokenArgument(Token::KeyIdCert, String::from("x")))
    );
    assert_eq!(
        bind_arguments(&tokens, &strings(&["0", "1"])),
        Err(SshdCommandError::MissingTokenArgument(Token::UserName))
    );
}

#[test]
fn each_token_takes_its_argument() {
    let tokens = [
        Token::RoutingDomain,
        Token::HomeDirUser,
        Token::FingerPrintCaKey,
        Token::KeyIdCert,
        Token::CertKeyType,
    ];
    let bindings =
        bind_arguments(&tokens, &strings(&["rd", "/home/a", "SHA256:x", "42", "ssh-ed25519", "more"]))
            .unwrap();
    assert_eq!(bindings.home_dir, Some(String::from("/home/a")));
    assert_eq!(bindings.key_id, Some(42));
    assert_eq!(bindings.client, None);
    assert_eq!(bindings.user, User::default());
}

#[test]
fn of_a_token_given_twice_the_later_counts() {
    let bindings = bind_arguments(
        &[Token::UserName, Token::HomeDirUser, Token::UserName, Token::HomeDirUser],
        &strings(&["a", "/a", "b", "/b"]),
    )
    .unwrap();
    assert_eq!(bindings.user.name, Some(String::from("b")));
    assert_eq!(bindings.home_dir, Some(String::from("/b")));
}

#[test]
fn reserved_keys_stand_behind_the_extra_context() {
    let mut front_matter =
        front_matter(Command::Principals, vec![Token::HomeDirUser, Token::KeyIdCert]);
    front_matter.extra_context = vec![
        (String::from("home_dir"), Document::String(String::from("/extra"))),
        (String::from("domain"), Document::String(String::from("home.arpa"))),
        (String::from("user"), Document::Null),
    ];
    let context = build_context(front_matter, strings(&["/home/a", "7"])).unwrap();
    assert_eq!(
        context,
        Context {
            entries: vec![
                (
                    String::from("home_dir"),
                    ContextValue::Document(Document::String(String::from("/extra")))
                ),
                (
                    String::from("domain"),
                    ContextValue::Document(Document::String(String::from("home.arpa")))
                ),
                (String::from("user"), ContextValue::Document(Document::Null)),
                (String::from("home_dir"), ContextValue::Text(String::from("/home/a"))),
                (String::from("key_id"), ContextValue::Number(7)),
                (String::from("user"), ContextValue::User(User::default())),
            ]
        }
    );
    assert_eq!(
        context.get("home_dir"),
        Some(&ContextValue::Text(String::from("/home/a")))
    );
    assert_eq!(context.get("user"), Some(&ContextValue::User(User::default())));
    assert_eq!(
        context.get("domain"),
        Some(&ContextValue::Document(Document::String(String::from("home.arpa"))))
    );
    assert_eq!(context.get("hostname"), None);
}

#[test]
fn the_host_name_is_entered_where_asked_for() {
    let mut with = front_matter(Command::Keys, vec![]);
    with.sshd_command.hostname = true;
    let context =
        build_context_with(with, strings(&[]), None, Some(String::from("bastion"))).unwrap();
    assert_eq!(
        context.get("hostname"),
        Some(&ContextValue::Text(String::from("bastion")))
    );

    let without = front_matter(Command::Keys, vec![]);
    let context =
        build_context_with(without, strings(&[]), None, Some(String::from("bastion"))).unwrap();
    assert_eq!(context.get("hostname"), None);

    let mut failing = front_matter(Command::Keys, vec![]);
    failing.sshd_command.hostname = true;
    assert_eq!(
        build_context_with(failing, strings(&[]), None, None),
        Err(SshdCommandError::Unknown(String::from("Failed to get hostname")))
    );
}

#[test]
fn errors_in_the_arguments_come_before_the_lookup() {
    let mut front_matter = front_matter(Command::Principals, vec![Token::UserId, Token::UserName]);
    front_matter.sshd_command.complete_user = true;
    front_matter.sshd_command.hostname = true;
    assert_eq!(
        build_context(front_matter, strings(&["1000"])),
        Err(SshdCommandError::MissingTokenArgument(Token::UserName))
    );
}

#[test]
fn errors_say_what_went_wrong() {
    assert_eq!(
        SshdCommandError::MissingTokenArgument(Token::ConnectionEndpoints).to_string(),
        "token %C has missing argument(s)"
    );
    assert_eq!(
        SshdCommandError::InvalidTokenArgument(Token::UserId, String::from("root")).to_string(),
        "token %U has invalid argument: root"
    );
    assert_eq!(
        SshdCommandError::IdentityLookup(Token::UserName, String::from("ghost")).to_string(),
        "token %u names no known user: ghost"
    );
    assert_eq!(
        SshdCommandError::FrontMatter(FrontMatterError::InvalidFirstLine).to_string(),
        "front matter: first line must be '---'"
    );
    assert_eq!(SshdCommandError::from("oops").to_string(), "general error: oops");
    assert_eq!(SshdCommandError::Tera(String::from("x")).to_string(), "tera: x");
}
