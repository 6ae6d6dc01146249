//! Documents: the values that a block of YAML (and so of JSON) writes.

use vstd::prelude::*;

use crate::text::text_is;

verus! {

/// A value of a document, of any shape.
#[derive(Debug, PartialEq, Eq)]
pub enum Document {
    Null,
    Bool(bool),
    /// A number, as its decimal text.
    Number(String),
    String(String),
    Sequence(Vec<Document>),
    /// The entries of a mapping, in the order in which they were written.
    Mapping(Vec<(Document, Document)>),
    /// A value under a tag such as `!name`.
    Tagged(String, Box<Document>),
}

/// A [`Document`] as a value of mathematics.
pub enum DocumentView {
    Null,
    Bool(bool),
    Number(Seq<char>),
    String(Seq<char>),
    Sequence(Seq<DocumentView>),
    Mapping(Seq<(DocumentView, DocumentView)>),
    Tagged(Seq<char>, Box<DocumentView>),
}

/// The entries of a mapping as values of mathematics.
pub type EntriesView = Seq<(DocumentView, DocumentView)>;

/// The document `document` as a value of mathematics.
pub open spec fn document_view(document: Document) -> DocumentView
    decreases document,
{
    match document {
        Document::Null => DocumentView::Null,
        Document::Bool(b) => DocumentView::Bool(b),
        Document::Number(text) => DocumentView::Number(text@),
        Document::String(text) => DocumentView::String(text@),
        Document::Sequence(items) => DocumentView::Sequence(
            Seq::new(
                items@.len(),
                |i: int|
                    if 0 <= i < items@.len() {
                        document_view(items@[i])
                    } else {
                        DocumentView::Null
                    },
            ),
        ),
        Document::Mapping(entries) => DocumentView::Mapping(
            Seq::new(
                entries@.len(),
                |i: int|
                    if 0 <= i < entries@.len() {
                        (document_view(entries@[i].0), document_view(entries@[i].1))
                    } else {
                        (DocumentView::Null, DocumentView::Null)
                    },
            ),
        ),
        Document::Tagged(tag, inner) => DocumentView::Tagged(tag@, Box::new(document_view(*inner))),
    }
}

impl View for Document {
    type V = DocumentView;

    open spec fn view(&self) -> DocumentView {
        document_view(*self)
    }
}

/// The documents `items` as values of mathematics.
pub open spec fn items_view(items: Seq<Document>) -> Seq<DocumentView> {
    items.map_values(|item: Document| item@)
}

/// An entry of a mapping as a value of mathematics.
pub open spec fn pair_view(entry: (Document, Document)) -> (DocumentView, DocumentView) {
    (entry.0@, entry.1@)
}

/// The entries `entries` as values of mathematics.
pub open spec fn entries_view(entries: Seq<(Document, Document)>) -> EntriesView {
    entries.map_values(|entry: (Document, Document)| pair_view(entry))
}

/// A sequence is seen as the sequence of its items, and a mapping as the
/// sequence of its entries.
pub proof fn lemma_document_view(document: Document)
    ensures
        document matches Document::Sequence(items) ==> document@ == DocumentView::Sequence(
            items_view(items@),
        ),
        document matches Document::Mapping(entries) ==> document@ == DocumentView::Mapping(
            entries_view(entries@),
        ),
{
    match document {
        Document::Sequence(items) => {
            assert(document@->Sequence_0 =~= items_view(items@));
        },
        Document::Mapping(entries) => {
            assert(document@->Mapping_0 =~= entries_view(entries@));
        },
        _ => {},
    }
}

/// A value as the `serde_yaml` crate reads it.
#[verifier::external_type_specification]
#[verifier::external_body]
pub struct ExYamlValue(serde_yaml::Value);

/// What the `serde_yaml` crate reads from the bytes `text`: the document that
/// they write, or its diagnostic where they write none.
pub uninterp spec fn yaml_document(text: Seq<u8>) -> Result<DocumentView, Seq<char>>;

/// Moves a value that `serde_yaml` has read into a [`Document`], variant by
/// variant: a number as `serde_yaml::Number` prints it, a tag as
/// `serde_yaml::value::Tag` prints it, the entries of a mapping in the order
/// in which `serde_yaml::Mapping` hands them out. Nothing is claimed of it.
#[verifier::external_body]
fn document_of(node: serde_yaml::Value) -> Document {
    match node {
        serde_yaml::Value::Null => Document::Null,
        serde_yaml::Value::Bool(b) => Document::Bool(b),
        serde_yaml::Value::Number(n) => Document::Number(n.to_string()),
        serde_yaml::Value::String(s) => Document::String(s),
        serde_yaml::Value::Sequence(v) => Document::Sequence(v.into_iter().map(document_of).collect()),
        serde_yaml::Value::Mapping(m) => Document::Mapping(
            m.into_iter().map(|(k, v)| (document_of(k), document_of(v))).collect(),
        ),
        serde_yaml::Value::Tagged(t) => Document::Tagged(t.tag.to_string(), Box::new(document_of(t.value))),
    }
}

/// `serde_yaml::from_slice` into a `serde_yaml::Value`, which is then moved
/// into a [`Document`]; an error is handed out as the text that it prints.
/// The result is a function of the bytes alone, which is all that the
/// contract claims: it gives the result its name.
#[verifier::external_body]
fn read_yaml(text: &[u8]) -> (r: Result<Document, String>)
    ensures
        match r {
            Ok(document) => yaml_document(text@) == Ok::<DocumentView, Seq<char>>(document@),
            Err(diagnostic) => yaml_document(text@) == Err::<DocumentView, Seq<char>>(diagnostic@),
        },
{
    match serde_yaml::from_slice::<serde_yaml::Value>(text) {
        Ok(node) => Ok(document_of(node)),
        Err(error) => Err(error.to_string()),
    }
}

impl DocumentView {
    /// Whether the document is plain: it holds no tagged value, and the keys
    /// of its mappings, at any depth, are strings.
    pub open spec fn plain(self) -> bool
        decreases self,
    {
        match self {
            DocumentView::Sequence(items) => forall|i: int|
                0 <= i < items.len() ==> (#[trigger] items[i]).plain(),
            DocumentView::Mapping(entries) => forall|i: int|
                0 <= i < entries.len() ==> (#[trigger] entries[i]).0.key_text().is_some()
                    && entries[i].1.plain(),
            DocumentView::Tagged(_, _) => false,
            _ => true,
        }
    }

    /// The text of a key: the document is a string.
    pub open spec fn key_text(self) -> Option<Seq<char>> {
        match self {
            DocumentView::String(text) => Some(text),
            _ => None,
        }
    }

    /// The least index of an entry whose key is the string `key`, or the
    /// number of entries where there is none.
    pub open spec fn position(entries: EntriesView, key: Seq<char>) -> int
        decreases entries.len(),
    {
        if entries.len() == 0 {
            0
        } else if entries[0].0.key_text() == Some(key) {
            0
        } else {
            1 + DocumentView::position(entries.drop_first(), key)
        }
    }

    /// The position of a key is an index or the length; no entry before it
    /// has the key, and the entry at it has.
    pub proof fn lemma_position(entries: EntriesView, key: Seq<char>)
        ensures
            0 <= DocumentView::position(entries, key) <= entries.len(),
            forall|j: int|
                0 <= j < DocumentView::position(entries, key) ==> (
                #[trigger] entries[j]).0.key_text() != Some(key),
            DocumentView::position(entries, key) < entries.len() ==> entries[DocumentView::position(
                entries,
                key,
            )].0.key_text() == Some(key),
        decreases entries.len(),
    {
        if entries.len() > 0 && entries[0].0.key_text() != Some(key) {
            let rest = entries.drop_first();
            DocumentView::lemma_position(rest, key);
            let k = DocumentView::position(rest, key);
            assert forall|j: int| 0 <= j < k + 1 implies (#[trigger] entries[j]).0.key_text() != Some(
                key,
            ) by {
                if j > 0 {
                    assert(entries[j] == rest[j - 1]);
                }
            }
            if k < rest.len() {
                assert(entries[k + 1] == rest[k]);
            }
        }
    }
}

/// A sequence is plain where its items are, and a mapping where its keys are
/// strings and its values are plain.
pub proof fn lemma_plain(document: DocumentView)
    ensures
        document matches DocumentView::Sequence(items) ==> (document.plain() <==> forall|i: int|
            0 <= i < items.len() ==> (#[trigger] items[i]).plain()),
        document matches DocumentView::Mapping(entries) ==> (document.plain() <==> forall|i: int|
            0 <= i < entries.len() ==> (#[trigger] entries[i]).0.key_text().is_some()
                && entries[i].1.plain()),
{
}

impl Document {
    /// Whether the document is plain.
    pub fn is_plain(&self) -> (r: bool)
        ensures
            r == self@.plain(),
        decreases self,
    {
        proof {
            lemma_document_view(*self);
            lemma_plain(self@);
        }
        match self {
            Document::Sequence(items) => Document::all_plain(items, items.len()),
            Document::Mapping(entries) => Document::all_entries_plain(entries, entries.len()),
            Document::Tagged(_, _) => false,
            _ => true,
        }
    }

    /// Whether the first `n` of `items` are plain.
    fn all_plain(items: &Vec<Document>, n: usize) -> (r: bool)
        requires
            n <= items@.len(),
        ensures
            r == forall|i: int| 0 <= i < n ==> (#[trigger] items_view(items@)[i]).plain(),
        decreases items, n,
    {
        if n == 0 {
            true
        } else {
            assert(items_view(items@)[n - 1] == items@[n - 1]@);
            Document::all_plain(items, n - 1) && items[n - 1].is_plain()
        }
    }

    /// Whether the first `n` of `entries` have a string as key and a plain
    /// value.
    fn all_entries_plain(entries: &Vec<(Document, Document)>, n: usize) -> (r: bool)
        requires
            n <= entries@.len(),
        ensures
            r == forall|i: int|
                0 <= i < n ==> (#[trigger] entries_view(entries@)[i]).0.key_text().is_some()
                    && entries_view(entries@)[i].1.plain(),
        decreases entries, n,
    {
        if n == 0 {
            true
        } else {
            assert(entries_view(entries@)[n - 1] == pair_view(entries@[n - 1]));
            let key_ok = match &entries[n - 1].0 {
                Document::String(_) => true,
                _ => false,
            };
            Document::all_entries_plain(entries, n - 1) && key_ok && entries[n - 1].1.is_plain()
        }
    }

    /// Reads the document that the bytes `text` write as YAML; the error is
    /// the reader's diagnostic.
    pub fn from_yaml(text: &[u8]) -> (r: Result<Document, String>)
        ensures
            match r {
                Ok(document) => yaml_document(text@) == Ok::<DocumentView, Seq<char>>(document@),
                Err(diagnostic) => yaml_document(text@) == Err::<DocumentView, Seq<char>>(
                    diagnostic@,
                ),
            },
    {
        read_yaml(text)
    }

    /// The index of the first entry whose key is the string `key`.
    pub fn find(entries: &Vec<(Document, Document)>, key: &str) -> (r: Option<usize>)
        ensures
            match r {
                Some(i) => i == DocumentView::position(entries_view(entries@), key@) && i
                    < entries@.len(),
                None => DocumentView::position(entries_view(entries@), key@) == entries@.len(),
            },
    {
        let ghost all = entries_view(entries@);
        let mut i: usize = 0;
        proof {
            DocumentView::lemma_position(all, key@);
        }
        while i < entries.len()
            invariant
                i <= entries.len(),
                all == entries_view(entries@),
                i <= DocumentView::position(all, key@) <= entries@.len(),
            decreases entries.len() - i,
        {
            let found = match &entries[i].0 {
                Document::String(s) => text_is(s.as_str(), key),
                _ => false,
            };
            proof {
                DocumentView::lemma_position(all, key@);
                assert(all[i as int] == pair_view(entries@[i as int]));
            }
            if found {
                return Some(i);
            }
            i += 1;
        }
        None
    }
}

} // verus!
