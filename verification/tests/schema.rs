use sshd_command::document::Document;
use sshd_command::frontmatter::{
    Field, FrontMatter, FrontMatterError, FrontMatterSshdCommand, SchemaError,
};
use sshd_command::{Command, Token, Version, VersionReq};

fn text(s: &str) -> Document {
    Document::String(String::from(s))
}

fn mapping(entries: Vec<(&str, Document)>) -> Document {
    Document::Mapping(entries.into_iter().map(|(k, v)| (text(k), v)).collect())
}

fn command_fields() -> Vec<(&'static str, Document)> {
    vec![("command", text("keys")), ("tokens", text("%u")), ("version", text("1"))]
}

fn parse(block: &str) -> Result<FrontMatter, FrontMatterError> {
    let template = format!("---\n{}---\n", block);
    FrontMatter::parse(template.as_bytes()).map(|read| read.0)
}

fn schema_error(block: &str) -> SchemaError {
    match parse(block) {
        Err(FrontMatterError::ParseError(error)) => error,
        other => panic!("no schema error: {:?}", other),
    }
}

#[test]
fn yaml_is_read_into_a_document() {
    let document = Document::from_yaml(
        b"a: 1\nb: [true, null, -2, 1.5, 'x']\nc: {d: e}\n3: !t f\n",
    )
    .unwrap();
    assert_eq!(
        document,
        Document::Mapping(vec![
            (text("a"), Document::Number(String::from("1"))),
            (
                text("b"),
                Document::Sequence(vec![
                    Document::Bool(true),
                    Document::Null,
                    Document::Number(String::from("-2")),
                    Document::Number(String::from("1.5")),
                    text("x"),
                ])
            ),
            (text("c"), mapping(vec![("d", text("e"))])),
            (
                Document::Number(String::from("3")),
                Document::Tagged(String::from("!t"), Box::new(text("f")))
            ),
        ])
    );
    assert_eq!(Document::from_yaml(b""), Ok(Document::Null));
    assert!(Document::from_yaml(b"a: [1").is_err());
    assert!(Document::from_yaml(b"\xff\xfe").is_err());
}

#[test]
fn a_block_that_is_no_yaml_gives_the_readers_diagnostic() {
    match schema_error("sshd_command: [1\n") {
        SchemaError::Syntax(diagnostic) => assert!(!diagnostic.is_empty()),
        other => panic!("no syntax error: {:?}", other),
    }
}

#[test]
fn command_fields_are_read() {
    let mut fields = command_fields();
    fields.push(("hostname", Document::Bool(true)));
    let command = FrontMatterSshdCommand::from_document(&mapping(fields)).unwrap();
    assert_eq!(command.command, Command::Keys);
    assert_eq!(command.tokens.0, vec![Token::UserName]);
    assert_eq!(command.tokens(), &[Token::UserName]);
    assert_eq!(command.version, VersionReq::parse("1").unwrap());
    assert!(!command.complete_user);
    assert!(command.hostname);
}

#[test]
fn command_is_named_in_any_case() {
    for (name, command) in [
        ("keys", Command::Keys),
        ("KEYS", Command::Keys),
        ("Keys", Command::Keys),
        ("principals", Command::Principals),
        ("Principals", Command::Principals),
        ("pRINCIPALS", Command::Principals),
    ] {
        let block = format!("sshd_command: {{command: {}, tokens: '', version: '*'}}\n", name);
        assert_eq!(parse(&block).unwrap().sshd_command.command, command);
    }
    for name in ["key", "keys ", "principal", "k\u{212a}eys", "''"] {
        let block = format!("sshd_command: {{command: '{}', tokens: '', version: '*'}}\n", name);
        assert_eq!(schema_error(&block), SchemaError::Malformed(Field::Command));
    }
}

#[test]
fn required_fields_must_be_there() {
    assert_eq!(schema_error(""), SchemaError::MissingField(Field::SshdCommand));
    assert_eq!(schema_error("other: 1\n"), SchemaError::MissingField(Field::SshdCommand));
    assert_eq!(
        schema_error("sshd_command: {tokens: '%u', version: '1'}\n"),
        SchemaError::MissingField(Field::Command)
    );
    assert_eq!(
        schema_error("sshd_command: {command: keys, version: '1'}\n"),
        SchemaError::MissingField(Field::Tokens)
    );
    assert_eq!(
        schema_error("sshd_command: {command: keys, tokens: '%u'}\n"),
        SchemaError::MissingField(Field::Version)
    );
    assert_eq!(schema_error("sshd_command: {}\n"), SchemaError::MissingField(Field::Command));
}

#[test]
fn unknown_fields_of_the_command_are_refused() {
    assert_eq!(
        schema_error("sshd_command: {command: keys, tokens: '%u', version: '1', extra: 1}\n"),
        SchemaError::UnknownField(String::from("extra"))
    );
    assert_eq!(
        schema_error("sshd_command: {first: 1, second: 2}\n"),
        SchemaError::UnknownField(String::from("first"))
    );
    assert_eq!(
        schema_error("sshd_command: {command: keys, tokens: '%u', version: '1', 1: 2}\n"),
        SchemaError::Malformed(Field::SshdCommand)
    );
}

#[test]
fn values_must_have_their_form() {
    assert_eq!(schema_error("- a\n- b\n"), SchemaError::Malformed(Field::Document));
    assert_eq!(schema_error("just text\n"), SchemaError::Malformed(Field::Document));
    assert_eq!(schema_error("sshd_command: 1\n"), SchemaError::Malformed(Field::SshdCommand));
    assert_eq!(
        schema_error("sshd_command: {command: 1, tokens: '%u', version: '1'}\n"),
        SchemaError::Malformed(Field::Command)
    );
    assert_eq!(
        schema_error("sshd_command: {command: keys, tokens: [a], version: '1'}\n"),
        SchemaError::Malformed(Field::Tokens)
    );
    assert_eq!(
        schema_error("sshd_command: {command: keys, tokens: '%u', version: 'one'}\n"),
        SchemaError::Malformed(Field::Version)
    );
    assert_eq!(
        schema_error("sshd_command: {command: keys, tokens: '%u', version: [1]}\n"),
        SchemaError::Malformed(Field::Version)
    );
    assert_eq!(
        schema_error("sshd_command: {command: keys, tokens: '%u', version: '1', complete_user: 'yes'}\n"),
        SchemaError::Malformed(Field::CompleteUser)
    );
    assert_eq!(
        schema_error("sshd_command: {command: keys, tokens: '%u', version: '1', hostname: 1}\n"),
        SchemaError::Malformed(Field::Hostname)
    );
    assert_eq!(
        schema_error("sshd_command: {command: keys, tokens: '%u', version: '1'}\n1: 2\n"),
        SchemaError::Malformed(Field::Document)
    );
}

#[test]
fn the_extra_context_keeps_its_order() {
    let front_matter = parse(
        "z: 1\nsshd_command: {command: keys, tokens: '%u', version: '1'}\na: [x]\nm: {k: v}\n",
    )
    .unwrap();
    assert_eq!(
        front_matter.extra_context,
        vec![
            (String::from("z"), Document::Number(String::from("1"))),
            (String::from("a"), Document::Sequence(vec![text("x")])),
            (String::from("m"), mapping(vec![("k", text("v"))])),
        ]
    );
    assert_eq!(front_matter.tokens(), &[Token::UserName]);
}

#[test]
fn from_document_reads_what_parse_reads() {
    let document = mapping(vec![
        ("sshd_command", mapping(command_fields())),
        ("more", Document::Bool(false)),
    ]);
    let front_matter = FrontMatter::from_document(document).unwrap();
    assert_eq!(
        front_matter,
        parse("sshd_command: {command: keys, tokens: '%u', version: '1'}\nmore: false\n").unwrap()
    );
    assert_eq!(
        FrontMatter::from_document(Document::Null),
        Err(SchemaError::MissingField(Field::SshdCommand))
    );
}

#[test]
fn the_checks_come_in_order() {
    let mut front_matter = FrontMatter::default();
    front_matter.sshd_command.tokens.0 = vec![Token::KeyIdCert];
    front_matter.sshd_command.complete_user = true;
    let running = Version::new(1, 0, 0);
    assert_eq!(
        front_matter.check(running, false),
        Err(FrontMatterError::InvalidVersion(running, VersionReq::default()))
    );
    assert_eq!(
        front_matter.check(running, true),
        Err(FrontMatterError::UnsupportedToken(Command::Keys, Token::KeyIdCert))
    );
    front_matter.sshd_command.command = Command::Principals;
    assert_eq!(
        front_matter.check(running, true),
        Err(FrontMatterError::ParseError(SchemaError::IdentityTokenRequired))
    );
    front_matter.sshd_command.complete_user = false;
    assert_eq!(front_matter.check(running, true), Ok(()));
}

#[test]
fn version_requirements_follow_semver() {
    let mut front_matter = FrontMatter::default();
    for (requirement, version, expected) in [
        ("1.2.3", (1, 2, 3), true),
        ("1.2.3", (1, 9, 0), true),
        ("1.2.3", (2, 0, 0), false),
        ("^0.3.0", (0, 3, 7), true),
        ("^0.3.0", (0, 4, 0), false),
        ("~1.2", (1, 2, 9), true),
        ("~1.2", (1, 3, 0), false),
        ("=1.2.3", (1, 2, 4), false),
        (">=1.2, <2", (1, 5, 0), true),
        (">=1.2, <2", (2, 0, 0), false),
        ("<1", (0, 9, 9), true),
        ("1.*", (1, 7, 0), true),
        ("*", (0, 0, 0), true),
    ] {
        front_matter.sshd_command.version = VersionReq::parse(requirement).unwrap();
        let running = Version::new(version.0, version.1, version.2);
        assert_eq!(front_matter.validate_for(running).is_ok(), expected);
        assert_eq!(front_matter.sshd_command.version.matches(&running), expected);
    }
}

#[test]
fn what_is_no_requirement_is_refused_and_matches_nothing() {
    for text in ["", "one", "1.2.3.4", ">", "1.2 || 2", "01.2.3"] {
        assert_eq!(VersionReq::parse(text), Err(String::from(text)));
        assert_eq!(VersionReq::from_str(text), Err(String::from(text)));
        let unread = VersionReq { expression: String::from(text) };
        assert!(!unread.matches(&Version::new(1, 2, 3)));
    }
    assert_eq!(VersionReq::parse(" >=1 ").unwrap().to_string(), " >=1 ");
    assert_eq!(VersionReq::default().to_string(), "*");
}

#[test]
fn front_matter_errors_say_what_went_wrong() {
    assert_eq!(FrontMatterError::InvalidFirstLine.to_string(), "first line must be '---'");
    assert_eq!(
        FrontMatterError::MissingEndSeparator.to_string(),
        "missing end separator for frontmatter, template does not contain a second '---' line"
    );
    assert_eq!(
        FrontMatterError::InvalidVersion(Version::new(0, 3, 0), VersionReq::parse(">=1").unwrap())
            .to_string(),
        "template requires sshd-command version >=1, but you are running 0.3.0"
    );
    assert_eq!(
        FrontMatterError::UnsupportedToken(Command::Keys, Token::KeyIdCert).to_string(),
        "%i is not a valid token for AuthorizedKeysCommand"
    );
    assert_eq!(
        FrontMatterError::ParseError(SchemaError::MissingField(Field::Tokens)).to_string(),
        "parse error: missing field `tokens`"
    );
    assert_eq!(
        SchemaError::Malformed(Field::CompleteUser).to_string(),
        "invalid value for field `complete_user`"
    );
    assert_eq!(
        SchemaError::UnknownField(String::from("x")).to_string(),
        "unknown field `x`, expected one of `command`, `tokens`, `version`, `complete_user`, `hostname`"
    );
    assert_eq!(
        SchemaError::UnknownToken(String::from("%x")).to_string(),
        "invalid type: string \"%x\", expected a space separated list of sshd_config tokens, see sshd_config(5) for all valid tokens."
    );
    assert_eq!(
        SchemaError::IdentityTokenRequired.to_string(),
        "`%U` or`%u` token required for `complete_user = true`"
    );
    assert_eq!(SchemaError::Syntax(String::from("bad")).to_string(), "bad");
}
