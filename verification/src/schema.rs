//! The schema of the command's fields: what each field's value must be, and
//! what it then reads as.

use vstd::prelude::*;

use crate::document::{entries_view, pair_view, Document, DocumentView, EntriesView};
use crate::frontmatter::{Field, SchemaError, SchemaErrorView};
use crate::text::{chars_of, text_is};
use crate::tokens::{Command, Token};
use crate::version::{requirement_parses, VersionReq};
use crate::words::{declared_tokens, read_tokens};

verus! {

/// Whether `a` and `b` are the same character, or the same letter of the
/// ASCII alphabet in different case.
pub open spec fn same_letter(a: char, b: char) -> bool {
    ||| a == b
    ||| 'A' <= a <= 'Z' && a as u32 + 32 == b as u32
    ||| 'A' <= b <= 'Z' && b as u32 + 32 == a as u32
}

/// Whether `s` is `t` but for the case of ASCII letters.
pub open spec fn same_ignoring_case(s: Seq<char>, t: Seq<char>) -> bool {
    s.len() == t.len() && forall|i: int| 0 <= i < s.len() ==> same_letter(#[trigger] s[i], t[i])
}

/// The command that `s` names: `keys` or `principals`, in any case.
pub open spec fn command_named(s: Seq<char>) -> Option<Command> {
    if same_ignoring_case(s, "keys"@) {
        Some(Command::Keys)
    } else if same_ignoring_case(s, "principals"@) {
        Some(Command::Principals)
    } else {
        None
    }
}

/// The field of the command that the key `s` names.
pub open spec fn field_named(s: Seq<char>) -> Option<Field> {
    if s == Field::Command.name_spec() {
        Some(Field::Command)
    } else if s == Field::Tokens.name_spec() {
        Some(Field::Tokens)
    } else if s == Field::Version.name_spec() {
        Some(Field::Version)
    } else if s == Field::CompleteUser.name_spec() {
        Some(Field::CompleteUser)
    } else if s == Field::Hostname.name_spec() {
        Some(Field::Hostname)
    } else {
        None
    }
}

/// Whether `key` is a string that names a field of the command.
pub open spec fn is_known_key(key: DocumentView) -> bool {
    match key.key_text() {
        Some(s) => field_named(s).is_some(),
        None => false,
    }
}

/// What is wrong with a key that names no field of the command.
pub open spec fn key_error(key: DocumentView) -> SchemaErrorView {
    match key.key_text() {
        Some(s) => SchemaErrorView::UnknownField(s),
        None => SchemaErrorView::Malformed(Field::SshdCommand),
    }
}

/// The least index of an entry whose key names no field of the command, or
/// the number of entries where each key names one.
pub open spec fn first_unknown(entries: EntriesView) -> int
    decreases entries.len(),
{
    if entries.len() == 0 {
        0
    } else if !is_known_key(entries[0].0) {
        0
    } else {
        1 + first_unknown(entries.drop_first())
    }
}

/// The first unknown key is at an index or at the length; each key before
/// it names a field, and the key at it names none.
pub proof fn lemma_first_unknown(entries: EntriesView)
    ensures
        0 <= first_unknown(entries) <= entries.len(),
        forall|j: int| 0 <= j < first_unknown(entries) ==> is_known_key((#[trigger] entries[j]).0),
        first_unknown(entries) < entries.len() ==> !is_known_key(entries[first_unknown(entries)].0),
    decreases entries.len(),
{
    if entries.len() > 0 && is_known_key(entries[0].0) {
        let rest = entries.drop_first();
        lemma_first_unknown(rest);
        let k = first_unknown(rest);
        assert forall|j: int| 0 <= j < k + 1 implies is_known_key((#[trigger] entries[j]).0) by {
            if j > 0 {
                assert(entries[j] == rest[j - 1]);
            }
        }
        if k < rest.len() {
            assert(entries[k + 1] == rest[k]);
        }
    }
}

/// The value of the first entry with the key `key`.
pub open spec fn value_of(entries: EntriesView, key: Seq<char>) -> Option<DocumentView> {
    if DocumentView::position(entries, key) < entries.len() {
        Some(entries[DocumentView::position(entries, key)].1)
    } else {
        None
    }
}

/// What the value of `command` reads as.
pub open spec fn command_field(value: Option<DocumentView>) -> Result<Command, SchemaErrorView> {
    match value {
        None => Err(SchemaErrorView::MissingField(Field::Command)),
        Some(DocumentView::String(s)) => match command_named(s) {
            Some(command) => Ok(command),
            None => Err(SchemaErrorView::Malformed(Field::Command)),
        },
        Some(_) => Err(SchemaErrorView::Malformed(Field::Command)),
    }
}

/// What the value of `tokens` reads as.
pub open spec fn tokens_field(value: Option<DocumentView>) -> Result<Seq<Token>, SchemaErrorView> {
    match value {
        None => Err(SchemaErrorView::MissingField(Field::Tokens)),
        Some(DocumentView::String(s)) => match declared_tokens(s) {
            Ok(tokens) => Ok(tokens),
            Err(word) => Err(SchemaErrorView::UnknownToken(word)),
        },
        Some(_) => Err(SchemaErrorView::Malformed(Field::Tokens)),
    }
}

/// What the value of `version` reads as: the expression of a requirement.
pub open spec fn version_field(value: Option<DocumentView>) -> Result<Seq<char>, SchemaErrorView> {
    match value {
        None => Err(SchemaErrorView::MissingField(Field::Version)),
        Some(DocumentView::String(s)) => if requirement_parses(s) {
            Ok(s)
        } else {
            Err(SchemaErrorView::Malformed(Field::Version))
        },
        Some(_) => Err(SchemaErrorView::Malformed(Field::Version)),
    }
}

/// What the value of the flag `field` reads as; `false` where it is not
/// there.
pub open spec fn flag_field(value: Option<DocumentView>, field: Field) -> Result<
    bool,
    SchemaErrorView,
> {
    match value {
        None => Ok(false),
        Some(DocumentView::Bool(b)) => Ok(b),
        Some(_) => Err(SchemaErrorView::Malformed(field)),
    }
}

/// Whether `s` is `t` but for the case of ASCII letters.
pub fn text_is_ignoring_case(s: &str, t: &str) -> (r: bool)
    ensures
        r == same_ignoring_case(s@, t@),
{
    let a = chars_of(s);
    let b = chars_of(t);
    if a.len() != b.len() {
        return false;
    }
    let mut i: usize = 0;
    while i < a.len()
        invariant
            i <= a.len(),
            a.len() == b.len(),
            a@ == s@,
            b@ == t@,
            forall|j: int| 0 <= j < i ==> same_letter(#[trigger] a@[j], b@[j]),
        decreases a.len() - i,
    {
        let x = a[i];
        let y = b[i];
        let same = x == y || ('A' <= x && x <= 'Z' && x as u32 + 32 == y as u32) || ('A' <= y && y
            <= 'Z' && y as u32 + 32 == x as u32);
        if !same {
            assert(!same_letter(s@[i as int], t@[i as int]));
            return false;
        }
        i += 1;
    }
    true
}

/// The command that `text` names.
pub fn read_command_name(text: &str) -> (r: Option<Command>)
    ensures
        r == command_named(text@),
{
    if text_is_ignoring_case(text, "keys") {
        Some(Command::Keys)
    } else if text_is_ignoring_case(text, "principals") {
        Some(Command::Principals)
    } else {
        None
    }
}

/// Whether `key` is a string that names a field of the command.
pub fn names_field(key: &Document) -> (r: bool)
    ensures
        r == is_known_key(key@),
{
    match key {
        Document::String(s) => {
            let s = s.as_str();
            text_is(s, Field::Command.name()) || text_is(s, Field::Tokens.name()) || text_is(
                s,
                Field::Version.name(),
            ) || text_is(s, Field::CompleteUser.name()) || text_is(s, Field::Hostname.name())
        },
        _ => false,
    }
}

/// The value of the first entry with the key of `field`.
pub fn lookup<'a>(entries: &'a Vec<(Document, Document)>, field: Field) -> (r: Option<
    &'a Document,
>)
    ensures
        match r {
            Some(value) => value_of(entries_view(entries@), field.name_spec()) == Some(value@),
            None => value_of(entries_view(entries@), field.name_spec()).is_none(),
        },
{
    match Document::find(entries, field.name()) {
        Some(i) => {
            assert(entries_view(entries@)[i as int] == pair_view(entries@[i as int]));
            Some(&entries[i].1)
        },
        None => None,
    }
}

/// Reads the value of `command`.
pub fn read_command(value: Option<&Document>) -> (r: Result<Command, SchemaError>)
    ensures
        match command_field(deref(value)) {
            Ok(command) => r == Ok::<Command, SchemaError>(command),
            Err(error) => r matches Err(e) && e@ == error,
        },
{
    match value {
        None => Err(SchemaError::MissingField(Field::Command)),
        Some(Document::String(s)) => match read_command_name(s.as_str()) {
            Some(command) => Ok(command),
            None => Err(SchemaError::Malformed(Field::Command)),
        },
        Some(_) => Err(SchemaError::Malformed(Field::Command)),
    }
}

/// Reads the value of `tokens`.
pub fn read_tokens_field(value: Option<&Document>) -> (r: Result<Vec<Token>, SchemaError>)
    ensures
        match tokens_field(deref(value)) {
            Ok(tokens) => r matches Ok(read) && read@ == tokens,
            Err(error) => r matches Err(e) && e@ == error,
        },
{
    match value {
        None => Err(SchemaError::MissingField(Field::Tokens)),
        Some(Document::String(s)) => match read_tokens(s.as_str()) {
            Ok(tokens) => Ok(tokens),
            Err(word) => Err(SchemaError::UnknownToken(word)),
        },
        Some(_) => Err(SchemaError::Malformed(Field::Tokens)),
    }
}

/// Reads the value of `version`.
pub fn read_version(value: Option<&Document>) -> (r: Result<VersionReq, SchemaError>)
    ensures
        match version_field(deref(value)) {
            Ok(expression) => r matches Ok(read) && read@ == expression,
            Err(error) => r matches Err(e) && e@ == error,
        },
{
    match value {
        None => Err(SchemaError::MissingField(Field::Version)),
        Some(Document::String(s)) => match VersionReq::parse(s.as_str()) {
            Ok(requirement) => Ok(requirement),
            Err(_) => Err(SchemaError::Malformed(Field::Version)),
        },
        Some(_) => Err(SchemaError::Malformed(Field::Version)),
    }
}

/// Reads the value of the flag `field`.
pub fn read_flag(value: Option<&Document>, field: Field) -> (r: Result<bool, SchemaError>)
    ensures
        match flag_field(deref(value), field) {
            Ok(flag) => r == Ok::<bool, SchemaError>(flag),
            Err(error) => r matches Err(e) && e@ == error,
        },
{
    match value {
        None => Ok(false),
        Some(Document::Bool(b)) => Ok(*b),
        Some(_) => Err(SchemaError::Malformed(field)),
    }
}

/// The value behind a reference that may be there.
pub open spec fn deref(value: Option<&Document>) -> Option<DocumentView> {
    match value {
        Some(v) => Some(v@),
        None => None,
    }
}

} // verus!
