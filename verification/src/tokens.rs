//! The `%`-tokens of sshd_config(5), and the two commands that declare them.

use vstd::prelude::*;

use crate::text::{chars_of, decimal, to_decimal};
use crate::user::User;

verus! {

/// All tokens that sshd expands in the arguments of a command.
#[derive(PartialEq, Eq, Structural, Clone, Copy, Debug)]
pub enum Token {
    /// %C: Identifies the connection endpoints, containing four space-separated values.
    ConnectionEndpoints,
    /// %D: The routing domain in which the incoming connection was received.
    RoutingDomain,
    /// %F: The fingerprint of the CA key.
    FingerPrintCaKey,
    /// %f: The fingerprint of the key or certificate.
    FingerPrintCaKeyOrCert,
    /// %h: The home directory of the user.
    HomeDirUser,
    /// %i: The key ID in the certificate.
    KeyIdCert,
    /// %K: The base64-encoded CA key.
    Base64EncodedCaKey,
    /// %k: The base64-encoded key or certificate for authentication.
    Base64EncodedAuthKeyOrCert,
    /// %s: The serial number of the certificate.
    CertificateSerialNumber,
    /// %T: The type of the CA key.
    CaKeyType,
    /// %t: The key or certificate type.
    CertKeyType,
    /// %U: The numeric user ID of the target user.
    UserId,
    /// %u: The username.
    UserName,
}

impl Token {
    /// The letter that follows `%` in the token's literal.
    pub open spec fn letter(self) -> char {
        match self {
            Token::ConnectionEndpoints => 'C',
            Token::RoutingDomain => 'D',
            Token::FingerPrintCaKey => 'F',
            Token::FingerPrintCaKeyOrCert => 'f',
            Token::HomeDirUser => 'h',
            Token::KeyIdCert => 'i',
            Token::Base64EncodedCaKey => 'K',
            Token::Base64EncodedAuthKeyOrCert => 'k',
            Token::CertificateSerialNumber => 's',
            Token::CaKeyType => 'T',
            Token::CertKeyType => 't',
            Token::UserId => 'U',
            Token::UserName => 'u',
        }
    }

    /// The token's two-character literal.
    pub open spec fn literal(self) -> Seq<char> {
        seq!['%', self.letter()]
    }

    /// The token whose literal is `s`, if there is one.
    pub open spec fn of_literal(s: Seq<char>) -> Option<Token> {
        if s.len() != 2 || s[0] != '%' {
            None
        } else if s[1] == 'C' {
            Some(Token::ConnectionEndpoints)
        } else if s[1] == 'D' {
            Some(Token::RoutingDomain)
        } else if s[1] == 'F' {
            Some(Token::FingerPrintCaKey)
        } else if s[1] == 'f' {
            Some(Token::FingerPrintCaKeyOrCert)
        } else if s[1] == 'h' {
            Some(Token::HomeDirUser)
        } else if s[1] == 'i' {
            Some(Token::KeyIdCert)
        } else if s[1] == 'K' {
            Some(Token::Base64EncodedCaKey)
        } else if s[1] == 'k' {
            Some(Token::Base64EncodedAuthKeyOrCert)
        } else if s[1] == 's' {
            Some(Token::CertificateSerialNumber)
        } else if s[1] == 'T' {
            Some(Token::CaKeyType)
        } else if s[1] == 't' {
            Some(Token::CertKeyType)
        } else if s[1] == 'U' {
            Some(Token::UserId)
        } else if s[1] == 'u' {
            Some(Token::UserName)
        } else {
            None
        }
    }

    /// Whether the token names the user: by numeric id or by name.
    pub open spec fn is_identity(self) -> bool {
        self == Token::UserId || self == Token::UserName
    }

    /// How many positional arguments the token stands for.
    pub open spec fn arity(self) -> nat {
        if self == Token::ConnectionEndpoints {
            4
        } else {
            1
        }
    }

    /// The token's literal, such as `%C`.
    pub fn as_str(&self) -> (r: &'static str)
        ensures
            r@ == self.literal(),
    {
        proof {
            reveal_strlit("%C");
            reveal_strlit("%D");
            reveal_strlit("%F");
            reveal_strlit("%f");
            reveal_strlit("%h");
            reveal_strlit("%i");
            reveal_strlit("%K");
            reveal_strlit("%k");
            reveal_strlit("%s");
            reveal_strlit("%T");
            reveal_strlit("%t");
            reveal_strlit("%U");
            reveal_strlit("%u");
        }
        let r = match self {
            Token::ConnectionEndpoints => "%C",
            Token::RoutingDomain => "%D",
            Token::FingerPrintCaKey => "%F",
            Token::FingerPrintCaKeyOrCert => "%f",
            Token::HomeDirUser => "%h",
            Token::KeyIdCert => "%i",
            Token::Base64EncodedCaKey => "%K",
            Token::Base64EncodedAuthKeyOrCert => "%k",
            Token::CertificateSerialNumber => "%s",
            Token::CaKeyType => "%T",
            Token::CertKeyType => "%t",
            Token::UserId => "%U",
            Token::UserName => "%u",
        };
        assert(r@ =~= self.literal());
        r
    }

    /// The token's literal as an owned string.
    pub fn to_string(&self) -> (r: String)
        ensures
            r@ == self.literal(),
    {
        self.as_str().to_owned()
    }

    /// The token whose literal is `s`; `s` itself where no token has it.
    pub fn try_from(s: &str) -> (r: Result<Token, &str>)
        ensures
            match r {
                Ok(token) => Token::of_literal(s@) == Some(token),
                Err(rest) => Token::of_literal(s@).is_none() && rest@ == s@,
            },
    {
        let chars = chars_of(s);
        match Token::from_chars(&chars, 0, chars.len()) {
            Some(token) => Ok(token),
            None => Err(s),
        }
    }

    /// The token whose literal is `chars[from..to]`, if there is one.
    pub(crate) fn from_chars(chars: &Vec<char>, from: usize, to: usize) -> (r: Option<Token>)
        requires
            from <= to <= chars.len(),
        ensures
            r == Token::of_literal(chars@.subrange(from as int, to as int)),
    {
        if to - from != 2 || chars[from] != '%' {
            return None;
        }
        let c = chars[from + 1];
        if c == 'C' {
            Some(Token::ConnectionEndpoints)
        } else if c == 'D' {
            Some(Token::RoutingDomain)
        } else if c == 'F' {
            Some(Token::FingerPrintCaKey)
        } else if c == 'f' {
            Some(Token::FingerPrintCaKeyOrCert)
        } else if c == 'h' {
            Some(Token::HomeDirUser)
        } else if c == 'i' {
            Some(Token::KeyIdCert)
        } else if c == 'K' {
            Some(Token::Base64EncodedCaKey)
        } else if c == 'k' {
            Some(Token::Base64EncodedAuthKeyOrCert)
        } else if c == 's' {
            Some(Token::CertificateSerialNumber)
        } else if c == 'T' {
            Some(Token::CaKeyType)
        } else if c == 't' {
            Some(Token::CertKeyType)
        } else if c == 'U' {
            Some(Token::UserId)
        } else if c == 'u' {
            Some(Token::UserName)
        } else {
            None
        }
    }

    /// Whether the token names the user.
    pub fn names_user(&self) -> (r: bool)
        ensures
            r == self.is_identity(),
    {
        match self {
            Token::UserId => true,
            Token::UserName => true,
            _ => false,
        }
    }

    /// How many positional arguments the token stands for.
    pub fn argument_count(&self) -> (r: usize)
        ensures
            r == self.arity(),
    {
        match self {
            Token::ConnectionEndpoints => 4,
            _ => 1,
        }
    }

    /// The stand-in arguments of one token, given the text that stands for the
    /// user's numeric id and for the user's name.
    pub open spec fn placeholder(self, uid: Seq<char>, name: Seq<char>) -> Seq<Seq<char>> {
        match self {
            Token::ConnectionEndpoints => seq!["::1"@, "22"@, "::1"@, "41644"@],
            Token::RoutingDomain => seq!["127.0.0.1/8"@],
            Token::FingerPrintCaKey => seq!["_FingerPrintCaKey_"@],
            Token::FingerPrintCaKeyOrCert => seq!["_FingerPrintCaKeyOrCert_"@],
            Token::HomeDirUser => seq!["/home/place_holder_user"@],
            Token::KeyIdCert => seq!["_KeyIdCert_"@],
            Token::Base64EncodedCaKey => seq!["X0Jhc2U2NEVuY29kZWRDYUtleV8="@],
            Token::Base64EncodedAuthKeyOrCert => seq![
                "X0Jhc2U2NEVuY29kZWRBdXRoS2V5T3JDZXJ0Xw=="@,
            ],
            Token::CertificateSerialNumber => seq!["0"@],
            Token::CaKeyType => seq!["sha2-nistp384"@],
            Token::CertKeyType => seq!["ssh-ed25519-cert-v01@openssh.com"@],
            Token::UserId => seq![uid],
            Token::UserName => seq![name],
        }
    }

    /// The stand-in arguments of a sequence of tokens, one token after the
    /// other.
    pub open spec fn placeholders(tokens: Seq<Token>, uid: Seq<char>, name: Seq<char>) -> Seq<
        Seq<char>,
    >
        decreases tokens.len(),
    {
        if tokens.len() == 0 {
            Seq::empty()
        } else {
            tokens[0].placeholder(uid, name) + Token::placeholders(tokens.drop_first(), uid, name)
        }
    }

    /// The number of positional arguments that a sequence of tokens stands
    /// for.
    pub open spec fn total_arity(tokens: Seq<Token>) -> nat
        decreases tokens.len(),
    {
        if tokens.len() == 0 {
            0
        } else {
            tokens[0].arity() + Token::total_arity(tokens.drop_first())
        }
    }

    /// Each token has as many stand-in arguments as it stands for.
    pub proof fn lemma_placeholders_len(tokens: Seq<Token>, uid: Seq<char>, name: Seq<char>)
        ensures
            Token::placeholders(tokens, uid, name).len() == Token::total_arity(tokens),
        decreases tokens.len(),
    {
        if tokens.len() > 0 {
            Token::lemma_placeholders_len(tokens.drop_first(), uid, name);
        }
    }

    /// Stand-in arguments for `tokens`, where `uid` and `name` stand for the
    /// user.
    pub fn template_args_for(tokens: &[Token], uid: u32, name: &str) -> (r: Vec<String>)
        ensures
            r.deep_view() == Token::placeholders(tokens@, decimal(uid as nat), name@),
    {
        let mut out: Vec<String> = Vec::new();
        let mut i: usize = 0;
        let ghost u = decimal(uid as nat);
        proof {
            assert(tokens@.skip(0) =~= tokens@);
            assert(out.deep_view() + Token::placeholders(tokens@, u, name@)
                =~= Token::placeholders(tokens@, u, name@));
        }
        while i < tokens.len()
            invariant
                i <= tokens.len(),
                u == decimal(uid as nat),
                Token::placeholders(tokens@, u, name@) == out.deep_view() + Token::placeholders(
                    tokens@.skip(i as int),
                    u,
                    name@,
                ),
            decreases tokens.len() - i,
        {
            let ghost before = out.deep_view();
            let ghost rest = tokens@.skip(i as int);
            proof {
                assert(rest[0] == tokens@[i as int]);
                assert(rest.drop_first() =~= tokens@.skip(i + 1));
            }
            match tokens[i] {
                Token::ConnectionEndpoints => {
                    out.push("::1".to_owned());
                    out.push("22".to_owned());
                    out.push("::1".to_owned());
                    out.push("41644".to_owned());
                },
                Token::RoutingDomain => out.push("127.0.0.1/8".to_owned()),
                Token::FingerPrintCaKey => out.push("_FingerPrintCaKey_".to_owned()),
                Token::FingerPrintCaKeyOrCert => out.push("_FingerPrintCaKeyOrCert_".to_owned()),
                Token::HomeDirUser => out.push("/home/place_holder_user".to_owned()),
                Token::KeyIdCert => out.push("_KeyIdCert_".to_owned()),
                Token::Base64EncodedCaKey => out.push("X0Jhc2U2NEVuY29kZWRDYUtleV8=".to_owned()),
                Token::Base64EncodedAuthKeyOrCert => out.push(
                    "X0Jhc2U2NEVuY29kZWRBdXRoS2V5T3JDZXJ0Xw==".to_owned(),
                ),
                Token::CertificateSerialNumber => out.push("0".to_owned()),
                Token::CaKeyType => out.push("sha2-nistp384".to_owned()),
                Token::CertKeyType => out.push("ssh-ed25519-cert-v01@openssh.com".to_owned()),
                Token::UserId => out.push(to_decimal(uid as u64)),
                Token::UserName => out.push(name.to_owned()),
            }
            proof {
                let one = tokens@[i as int].placeholder(u, name@);
                let more = Token::placeholders(tokens@.skip(i + 1), u, name@);
                assert(out.deep_view() =~= before + one);
                assert(before + (one + more) =~= (before + one) + more);
            }
            i += 1;
        }
        proof {
            assert(out.deep_view() + Seq::<Seq<char>>::empty() =~= out.deep_view());
        }
        out
    }

    /// Stand-in arguments for `tokens`, for a trial rendering: the tokens that
    /// name the user stand for the user that runs this process.
    pub fn get_template_args(tokens: &[Token]) -> (r: Vec<String>)
        ensures
            exists|uid: nat, name: Seq<char>|
                uid <= u32::MAX && r.deep_view() == #[trigger] Token::placeholders(
                    tokens@,
                    decimal(uid),
                    name,
                ),
            r.len() == Token::total_arity(tokens@),
    {
        let uid = User::get_current_uid();
        let name = User::get_current_name();
        let r = Token::template_args_for(tokens, uid, name.as_str());
        proof {
            Token::lemma_placeholders_len(tokens@, decimal(uid as nat), name@);
            assert(r.deep_view().len() == r.len());
        }
        r
    }
}

/// The literal of a token names that token and no other.
pub proof fn lemma_token_literal_round_trip(token: Token)
    ensures
        Token::of_literal(token.literal()) == Some(token),
{
}

/// A text is the literal of the token that it names.
pub proof fn lemma_token_of_literal_is_literal(s: Seq<char>)
    requires
        Token::of_literal(s).is_some(),
    ensures
        Token::of_literal(s).unwrap().literal() == s,
{
    assert(Token::of_literal(s).unwrap().literal() =~= s);
}

/// The command whose output a template produces.
#[derive(PartialEq, Eq, Structural, Clone, Copy, Debug)]
pub enum Command {
    Keys,
    Principals,
}

impl Default for Command {
    fn default() -> (r: Command)
        ensures
            r == Command::Keys,
    {
        Command::Keys
    }
}

impl Command {
    /// Whether the command may declare `token`.
    pub open spec fn supports(self, token: Token) -> bool {
        match self {
            Command::Keys => token == Token::ConnectionEndpoints || token == Token::RoutingDomain
                || token == Token::FingerPrintCaKeyOrCert || token == Token::HomeDirUser || token
                == Token::Base64EncodedAuthKeyOrCert || token == Token::CertKeyType || token
                == Token::UserId || token == Token::UserName,
            Command::Principals => true,
        }
    }

    /// The first of `tokens` that the command does not support.
    pub open spec fn first_unsupported(self, tokens: Seq<Token>) -> Option<Token>
        decreases tokens.len(),
    {
        if tokens.len() == 0 {
            None
        } else if !self.supports(tokens[0]) {
            Some(tokens[0])
        } else {
            self.first_unsupported(tokens.drop_first())
        }
    }

    /// The option of sshd_config(5) that runs the command.
    pub open spec fn option_name_spec(self) -> Seq<char> {
        match self {
            Command::Keys => "AuthorizedKeysCommand"@,
            Command::Principals => "AuthorizedPrincipalsCommand"@,
        }
    }

    /// The option of sshd_config(5) that runs the command.
    pub fn option_name(self) -> (r: &'static str)
        ensures
            r@ == self.option_name_spec(),
    {
        match self {
            Command::Keys => "AuthorizedKeysCommand",
            Command::Principals => "AuthorizedPrincipalsCommand",
        }
    }

    /// The command's name as an owned string: its option of sshd_config(5).
    pub fn to_string(&self) -> (r: String)
        ensures
            r@ == self.option_name_spec(),
    {
        self.option_name().to_owned()
    }

    /// Whether the command may declare `token`.
    pub fn is_token_supported(self, token: Token) -> (r: bool)
        ensures
            r == self.supports(token),
    {
        match self {
            Command::Keys => match token {
                Token::ConnectionEndpoints => true,
                Token::RoutingDomain => true,
                Token::FingerPrintCaKeyOrCert => true,
                Token::HomeDirUser => true,
                Token::Base64EncodedAuthKeyOrCert => true,
                Token::CertKeyType => true,
                Token::UserId => true,
                Token::UserName => true,
                _ => false,
            },
            Command::Principals => true,
        }
    }

    /// Checks that the command supports each of `tokens`; the first that it
    /// does not support is the error.
    pub fn validate_tokens(self, tokens: &[Token]) -> (r: Result<(), Token>)
        ensures
            r == match self.first_unsupported(tokens@) {
                None => Ok::<(), Token>(()),
                Some(token) => Err(token),
            },
            r is Ok <==> forall|i: int| 0 <= i < tokens@.len() ==> self.supports(tokens@[i]),
            r matches Err(token) ==> exists|i: int|
                0 <= i < tokens@.len() && #[trigger] tokens@[i] == token && !self.supports(token)
                    && forall|j: int| 0 <= j < i ==> self.supports(tokens@[j]),
    {
        let mut i: usize = 0;
        while i < tokens.len()
            invariant
                i <= tokens.len(),
                forall|j: int| 0 <= j < i ==> self.supports(tokens@[j]),
            decreases tokens.len() - i,
        {
            if !self.is_token_supported(tokens[i]) {
                proof {
                    self.lemma_first_unsupported(tokens@);
                    let k = self.first_unsupported_index(tokens@);
                    assert(k == i) by {
                        if k < i {
                            assert(self.supports(tokens@[k]));
                        }
                    }
                }
                return Err(tokens[i]);
            }
            i += 1;
        }
        proof {
            self.lemma_first_unsupported(tokens@);
        }
        Ok(())
    }

    /// The least index of a token that the command does not support, or the
    /// length of `tokens` where it supports them all.
    pub open spec fn first_unsupported_index(self, tokens: Seq<Token>) -> int
        decreases tokens.len(),
    {
        if tokens.len() == 0 {
            0
        } else if !self.supports(tokens[0]) {
            0
        } else {
            1 + self.first_unsupported_index(tokens.drop_first())
        }
    }

    /// The token check passes on exactly the sequences whose tokens the
    /// command supports; on any other it names the first token that the
    /// command does not support.
    pub proof fn lemma_first_unsupported(self, tokens: Seq<Token>)
        ensures
            0 <= self.first_unsupported_index(tokens) <= tokens.len(),
            forall|j: int|
                0 <= j < self.first_unsupported_index(tokens) ==> self.supports(#[trigger] tokens[j]),
            self.first_unsupported(tokens).is_none() <==> self.first_unsupported_index(tokens)
                == tokens.len(),
            self.first_unsupported(tokens).is_none() <==> forall|j: int|
                0 <= j < tokens.len() ==> self.supports(#[trigger] tokens[j]),
            self.first_unsupported(tokens) matches Some(token) ==> {
                &&& token == tokens[self.first_unsupported_index(tokens)]
                &&& !self.supports(token)
            },
        decreases tokens.len(),
    {
        if tokens.len() > 0 && self.supports(tokens[0]) {
            let rest = tokens.drop_first();
            self.lemma_first_unsupported(rest);
            let k = self.first_unsupported_index(rest);
            assert forall|j: int| 0 <= j < k + 1 implies self.supports(#[trigger] tokens[j]) by {
                if j > 0 {
                    assert(tokens[j] == rest[j - 1]);
                }
            }
            if self.first_unsupported(rest).is_none() {
                assert forall|j: int| 0 <= j < tokens.len() implies self.supports(
                    #[trigger] tokens[j],
                ) by {
                    if j > 0 {
                        assert(tokens[j] == rest[j - 1]);
                    }
                }
            } else {
                assert(tokens[k + 1] == rest[k]);
            }
        }
    }
}

} // verus!
