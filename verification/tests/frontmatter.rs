use sshd_command::document::Document;
use sshd_command::frontmatter::{
    Field, FrontMatter, FrontMatterError, FrontMatterSshdCommand, FrontMatterTokens, SchemaError,
};
use sshd_command::{crate_version, Command, Token, Version, VersionReq};

fn update_version(
    version: &Version,
    delta_major: i64,
    delta_minor: i64,
    delta_patch: i64,
) -> Option<Version> {
    let major = version.major.checked_add_signed(delta_major)?;
    let minor = version.minor.checked_add_signed(delta_minor)?;
    let patch = version.patch.checked_add_signed(delta_patch)?;

    Some(Version::new(major, minor, patch))
}

#[test]
fn check_parse() {
    let template = format!(
        r"---
sshd_command:
    version: {}
    command: principals
    tokens: '%U %u'
---
        ",
        crate_version().to_string()
    );

    let front_matter = FrontMatter::parse(template.as_bytes());

    assert!(front_matter.is_ok());
    let front_matter = front_matter.unwrap().0;
    assert!(front_matter.validate().is_ok());

    let front_matter_expected = FrontMatter {
        sshd_command: FrontMatterSshdCommand {
            command: Command::Principals,
            tokens: FrontMatterTokens(vec![Token::UserId, Token::UserName]),
            version: VersionReq::parse(&crate_version().to_string())
                .expect("Failed to parse crate version as `VersionReq`"),
            complete_user: false,
            hostname: false,
        },
        extra_context: vec![],
    };
    assert_eq!(front_matter, front_matter_expected);
}

#[test]
fn check_parse_full() {
    let template = format!(
        r"---
sshd_command:
    version: {}
    command: principals
    tokens: '%U %u'
    complete_user: true
    hostname: true
search_domains:
    - home.arpa
    - local
---
        ",
        crate_version().to_string()
    );

    let front_matter = FrontMatter::parse(template.as_bytes());

    assert!(front_matter.is_ok());
    let front_matter = front_matter.unwrap().0;
    assert!(front_matter.validate().is_ok());

    let extra_content = vec![(
        String::from("search_domains"),
        Document::Sequence(vec![
            Document::String("home.arpa".into()),
            Document::String("local".into()),
        ]),
    )];

    let front_matter_expected = FrontMatter {
        sshd_command: FrontMatterSshdCommand {
            command: Command::Principals,
            tokens: FrontMatterTokens(vec![Token::UserId, Token::UserName]),
            version: VersionReq::parse(&crate_version().to_string())
                .expect("Failed to parse crate version as `VersionReq`"),
            complete_user: true,
            hostname: true,
        },
        extra_context: extra_content,
    };
    assert_eq!(front_matter, front_matter_expected);
}

#[test]
fn check_parse_json() {
    let template = format!(
        r"---
sshd_command:
    version: {}
    command: principals
    tokens: '%U %u'
    complete_user: true
    hostname: true
search_domains:
    - home.arpa
    - local
---
        ",
        crate_version().to_string()
    );
    let template_json = format!(
        r#"---
{{
  "sshd_command": {{
    "version": "{}",
    "command": "principals",
    "tokens": "%U %u",
    "complete_user": true,
    "hostname": true
  }},
  "search_domains": [
    "home.arpa",
    "local"
  ]
}}
---
        "#,
        crate_version().to_string()
    );

    let front_matter = FrontMatter::parse(template.as_bytes()).unwrap().0;
    let front_matter_json = FrontMatter::parse(template_json.as_bytes()).unwrap().0;
    assert_eq!(front_matter, front_matter_json);
}

#[test]
fn check_parse_next_line() {
    let template = format!(
        r"---
sshd_command:
    version: {}
    command: principals
    tokens: '%U %u'
---
next-line
        ",
        crate_version().to_string()
    );

    let front_matter = FrontMatter::parse(template.as_bytes());

    assert!(front_matter.is_ok());

    let body = front_matter.unwrap().1;
    let rest = &template.as_bytes()[body..];
    let next_line = rest.split(|byte| *byte == b'\n').next();
    assert!(matches!(next_line, Some(_)));

    let next_line = next_line.unwrap();
    assert_eq!(next_line, "next-line".as_bytes());
    assert_eq!(rest, "next-line\n        ".as_bytes());
}

#[test]
fn check_parse_invalid_first_line() {
    let template = format!(
        r"
sshd_command:
    version: {}
    command: principals
    tokens: '%U %u'
---
        ",
        crate_version().to_string()
    );

    let front_matter = FrontMatter::parse(template.as_bytes());

    assert!(matches!(
        front_matter,
        Err(FrontMatterError::InvalidFirstLine)
    ));
}

#[test]
fn check_parse_missing_end_separator() {
    let template = format!(
        r"---
sshd_command:
    version: {}
    command: principals
    tokens: '%U %u'
        ",
        crate_version().to_string()
    );

    let front_matter = FrontMatter::parse(template.as_bytes());

    assert!(matches!(
        front_matter,
        Err(FrontMatterError::MissingEndSeparator)
    ));
}

#[test]
fn check_parse_unknown_token() {
    let template = format!(
        r"---
sshd_command:
    version: {}
    command: principals
    tokens: '%U %u %invalid'
---
        ",
        crate_version().to_string()
    );

    let front_matter = FrontMatter::parse(template.as_bytes());

    assert!(matches!(front_matter, Err(FrontMatterError::ParseError(_))));

    let error = front_matter.err().unwrap();
    assert_eq!(
        error,
        FrontMatterError::ParseError(SchemaError::UnknownToken("%invalid".into()))
    );
    let error = error.to_string();
    assert!(error.contains("%invalid"));
}

#[test]
fn check_parse_invalid_version() {
    let template = r"---
sshd_command:
    version: 9999.9999.9999
    command: principals
    tokens: '%U %u'
---
        ";

    let front_matter = FrontMatter::parse(template.as_bytes());

    assert!(front_matter.is_ok());
    let front_matter = front_matter.unwrap().0.validate();

    assert!(matches!(
        front_matter,
        Err(FrontMatterError::InvalidVersion(_, _))
    ));
}

#[test]
fn check_parse_missing_option() {
    let template = format!(
        r"---
sshd_command:
    version: {}
    # command: principals
    tokens: '%U %u'
---
        ",
        crate_version().to_string()
    );

    let front_matter = FrontMatter::parse(template.as_bytes());

    assert!(matches!(front_matter, Err(FrontMatterError::ParseError(_))));

    let error = front_matter.err().unwrap();
    assert_eq!(
        error,
        FrontMatterError::ParseError(SchemaError::MissingField(Field::Command))
    );
    let error = error.to_string().to_lowercase();
    assert!(error.contains("missing field"));
    assert!(error.contains("command"));
}

#[test]
fn check_parse_out_of_order() {
    let template = format!(
        r"---
sshd_command:
    tokens: '%U %u'
    version: {}
    command: principals
---
        ",
        crate_version().to_string()
    );

    let front_matter = FrontMatter::parse(template.as_bytes());
    assert!(front_matter.is_ok());
}

#[test]
fn check_validate_default() {
    assert!(FrontMatter::default().validate().is_ok());
}

#[test]
fn check_complete_user() {
    let mut front_matter = FrontMatter::default();
    assert!(front_matter.validate().is_ok());

    front_matter.sshd_command.complete_user = true;
    assert!(matches!(
        front_matter.validate(),
        Err(FrontMatterError::ParseError(_))
    ));

    front_matter.sshd_command.tokens = FrontMatterTokens(vec![Token::UserName]);
    assert!(front_matter.validate().is_ok());
    front_matter.sshd_command.tokens = FrontMatterTokens(vec![Token::UserId]);
    assert!(front_matter.validate().is_ok());

    front_matter.sshd_command.tokens = FrontMatterTokens(vec![Token::HomeDirUser]);
    assert!(matches!(
        front_matter.validate(),
        Err(FrontMatterError::ParseError(_))
    ));
}

#[test]
fn check_validate_supported_tokens() {
    let mut front_matter = FrontMatter::default();

    {
        front_matter.sshd_command.command = Command::Keys;
        front_matter.sshd_command.tokens =
            FrontMatterTokens(vec![Token::ConnectionEndpoints, Token::UserName]);

        assert!(front_matter.validate().is_ok());

        front_matter.sshd_command.tokens = FrontMatterTokens(vec![
            Token::ConnectionEndpoints,
            Token::CaKeyType,
            Token::UserName,
        ]);

        assert!(matches!(
            front_matter.validate(),
            Err(FrontMatterError::UnsupportedToken(
                Command::Keys,
                Token::CaKeyType,
            ))
        ));
    }
    {
        // `Command::Principals` supports everything
    }
}

#[test]
fn check_validate_required_version() {
    let crate_version = crate_version();
    let mut front_matter = FrontMatter::default();

    if let Some(required_version) = update_version(&crate_version, 0, 0, 0) {
        front_matter.sshd_command.version =
            VersionReq::from_str(&required_version.to_string()).unwrap();
        assert!(front_matter.validate().is_ok());
    }

    if let Some(required_version) = update_version(&crate_version, 1, 0, 0) {
        front_matter.sshd_command.version =
            VersionReq::from_str(&required_version.to_string()).unwrap();

        if let Err(FrontMatterError::InvalidVersion(_, _)) = front_matter.validate() {
        } else {
            panic!();
        }
    }

    if let Some(required_version) = update_version(&crate_version, -1, 0, 0) {
        front_matter.sshd_command.version =
            VersionReq::from_str(&required_version.to_string()).unwrap();

        if let Err(FrontMatterError::InvalidVersion(_, _)) = front_matter.validate() {
        } else {
            panic!();
        }
    }
    if let Some(required_version) = update_version(&crate_version, 0, 1, 0) {
        front_matter.sshd_command.version =
            VersionReq::from_str(&required_version.to_string()).unwrap();

        if let Err(FrontMatterError::InvalidVersion(_, _)) = front_matter.validate() {
        } else {
            panic!();
        }
    }

    if let Some(required_version) = update_version(&crate_version, 0, -1, 0) {
        if required_version.major != 0 {
            front_matter.sshd_command.version =
                VersionReq::from_str(&required_version.to_string()).unwrap();

            if let Err(FrontMatterError::InvalidVersion(_, _)) = front_matter.validate() {
                panic!();
            }
        }
    }

    if let Some(required_version) = update_version(&crate_version, 0, 0, 1) {
        front_matter.sshd_command.version =
            VersionReq::from_str(&required_version.to_string()).unwrap();

        if let Err(FrontMatterError::InvalidVersion(_, _)) = front_matter.validate() {
        } else {
            panic!();
        }
    }

    if let Some(required_version) = update_version(&crate_version, 0, 0, -1) {
        front_matter.sshd_command.version =
            VersionReq::from_str(&required_version.to_string()).unwrap();

        if let Err(FrontMatterError::InvalidVersion(_, _)) = front_matter.validate() {
            panic!();
        }
    }
}
