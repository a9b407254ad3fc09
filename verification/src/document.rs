//! The schema-less document that a node or an edge carries.

use crate::text::{lemma_position_is, position};
use vstd::pervasive::VecAdditionalExecFns;
use vstd::prelude::*;

verus! {

/// A number of a document. It is carried, never computed with.
#[derive(Clone, Copy, Debug, PartialEq, Eq, Structural)]
pub enum Number {
    Unsigned(u64),
    Signed(i64),
    /// The bit pattern of a binary64 value.
    Real(u64),
}

/// An arbitrary structured value: the payload of a node or an edge. The
/// entries of an object stand in an order, which is part of the value.
#[derive(Debug, PartialEq, Eq)]
pub enum Document {
    Null,
    Bool(bool),
    Number(Number),
    Text(String),
    List(Vec<Document>),
    Object(Vec<Field>),
}

/// One entry of an object: a key and the value under it.
#[derive(Debug, PartialEq, Eq)]
pub struct Field {
    pub key: String,
    pub value: Document,
}

/// What a `Document` stands for.
pub enum DocumentModel {
    Null,
    Bool(bool),
    Number(Number),
    Text(Seq<char>),
    List(Seq<DocumentModel>),
    Object(Seq<(Seq<char>, DocumentModel)>),
}

/// The entries of an object: pairs of a key and a value, in order.
pub type Entries = Seq<(Seq<char>, DocumentModel)>;

/// The models of a list of documents, item by item.
pub open spec fn models_of(items: Seq<Document>) -> Seq<DocumentModel>
    decreases items, 0nat,
{
    Seq::new(
        items.len(),
        |i: int|
            if 0 <= i < items.len() {
                model_of(items[i])
            } else {
                DocumentModel::Null
            },
    )
}

/// The entries that a list of fields stands for.
pub open spec fn entries_of(fields: Seq<Field>) -> Entries
    decreases fields, 0nat,
{
    Seq::new(
        fields.len(),
        |i: int|
            if 0 <= i < fields.len() {
                (fields[i].key@, model_of(fields[i].value))
            } else {
                (Seq::empty(), DocumentModel::Null)
            },
    )
}

/// The model of a document.
pub open spec fn model_of(d: Document) -> DocumentModel
    decreases d, 1nat,
{
    match d {
        Document::Null => DocumentModel::Null,
        Document::Bool(b) => DocumentModel::Bool(b),
        Document::Number(n) => DocumentModel::Number(n),
        Document::Text(s) => DocumentModel::Text(s@),
        Document::List(items) => DocumentModel::List(models_of(items@)),
        Document::Object(fields) => DocumentModel::Object(entries_of(fields@)),
    }
}

impl View for Document {
    type V = DocumentModel;

    open spec fn view(&self) -> DocumentModel {
        model_of(*self)
    }
}

impl View for Field {
    type V = (Seq<char>, DocumentModel);

    open spec fn view(&self) -> (Seq<char>, DocumentModel) {
        (self.key@, self.value@)
    }
}

/// The model of an optional document.
pub open spec fn optional_model(d: Option<Document>) -> Option<DocumentModel> {
    match d {
        Some(x) => Some(x@),
        None => None,
    }
}

impl Clone for Document {
    /// A deep copy.
    fn clone(&self) -> (r: Document)
        ensures
            r@ == self@,
        decreases self,
    {
        match self {
            Document::Null => Document::Null,
            Document::Bool(b) => Document::Bool(*b),
            Document::Number(n) => Document::Number(*n),
            Document::Text(s) => Document::Text(s.clone()),
            Document::List(items) => {
                let mut out: Vec<Document> = Vec::new();
                let mut i: usize = 0;
                while i < items.len()
                    invariant
                        i <= items.len(),
                        out.len() == i,
                        *self is List && self->List_0 == *items,
                        forall|j: int| 0 <= j < i ==> out@[j]@ == items@[j]@,
                    decreases items.len() - i,
                {
                    assert(decreases_to!(*self => self->List_0));
                    assert(decreases_to!(*items => items@));
                    assert(decreases_to!(items@ => items@[i as int]));
                    out.push(items[i].clone());
                    i = i + 1;
                }
                assert(models_of(out@) =~= models_of(items@));
                Document::List(out)
            },
            Document::Object(fields) => {
                let mut out: Vec<Field> = Vec::new();
                let mut i: usize = 0;
                while i < fields.len()
                    invariant
                        i <= fields.len(),
                        out.len() == i,
                        *self is Object && self->Object_0 == *fields,
                        forall|j: int| 0 <= j < i ==> out@[j]@ == fields@[j]@,
                    decreases fields.len() - i,
                {
                    assert(decreases_to!(*self => self->Object_0));
                    assert(decreases_to!(*fields => fields@));
                    assert(decreases_to!(fields@ => fields@[i as int]));
                    assert(decreases_to!(fields@[i as int] => fields@[i as int].value));
                    let value = fields[i].value.clone();
                    out.push(Field { key: fields[i].key.clone(), value });
                    i = i + 1;
                }
                assert(entries_of(out@) =~= entries_of(fields@));
                Document::Object(out)
            },
        }
    }
}

impl Clone for Field {
    fn clone(&self) -> (r: Field)
        ensures
            r@ == self@,
    {
        Field { key: self.key.clone(), value: self.value.clone() }
    }
}

/// A copy of a list of fields.
pub fn clone_fields(fields: &Vec<Field>) -> (r: Vec<Field>)
    ensures
        entries_of(r@) == entries_of(fields@),
{
    let out = fields.clone();
    assert(entries_of(out@) =~= entries_of(fields@));
    out
}

/// A copy of an optional document.
pub fn clone_optional(d: &Option<Document>) -> (r: Option<Document>)
    ensures
        optional_model(r) == optional_model(*d),
{
    match d {
        Some(x) => Some(x.clone()),
        None => None,
    }
}

/// The keys of a list of entries, in order.
pub open spec fn keys_of(entries: Entries) -> Seq<Seq<char>> {
    entries.map_values(|e: (Seq<char>, DocumentModel)| e.0)
}

/// The value under the first entry with `key`, if there is one.
pub open spec fn entry_of(entries: Entries, key: Seq<char>) -> Option<DocumentModel> {
    let p = position(keys_of(entries), key);
    if p < entries.len() {
        Some(entries[p].1)
    } else {
        None
    }
}

/// `entries` with `value` under `key`: in the place of the first entry with
/// that key, or at the end where there is none.
pub open spec fn with_entry(entries: Entries, key: Seq<char>, value: DocumentModel) -> Entries {
    let p = position(keys_of(entries), key);
    if p < entries.len() {
        entries.update(p, (key, value))
    } else {
        entries.push((key, value))
    }
}

/// The entries whose key is not `key`.
pub open spec fn other_than(key: Seq<char>) -> spec_fn((Seq<char>, DocumentModel)) -> bool {
    |e: (Seq<char>, DocumentModel)| e.0 != key
}

/// `entries` without those whose key is `key`.
pub open spec fn without_entry(entries: Entries, key: Seq<char>) -> Entries {
    entries.filter(other_than(key))
}

/// The index of the first field with `key`, or the number of fields.
pub fn field_position(fields: &Vec<Field>, key: &str) -> (r: usize)
    ensures
        r == position(keys_of(entries_of(fields@)), key@),
        r <= fields.len(),
{
    let ghost keys = keys_of(entries_of(fields@));
    let mut i: usize = 0;
    while i < fields.len()
        invariant
            i <= fields.len(),
            keys == keys_of(entries_of(fields@)),
            forall|j: int| 0 <= j < i ==> keys[j] != key@,
        decreases fields.len() - i,
    {
        if *fields[i].key.as_str() == *key {
            proof {
                lemma_position_is(keys, key@, i as int);
            }
            return i;
        }
        i = i + 1;
    }
    proof {
        lemma_position_is(keys, key@, i as int);
    }
    i
}

/// Puts `value` under `key`: in the place of the first field with that key,
/// or at the end where there is none.
pub fn put_field(fields: &mut Vec<Field>, key: &str, value: Document)
    ensures
        entries_of(final(fields)@) == with_entry(entries_of(old(fields)@), key@, value@),
{
    let p = field_position(fields, key);
    let field = Field { key: key.to_owned(), value };
    if p < fields.len() {
        fields.set(p, field);
    } else {
        fields.push(field);
    }
    assert(entries_of(fields@) =~= with_entry(entries_of(old(fields)@), key@, value@));
}

impl Document {
    /// Whether the document is an object.
    pub fn is_object(&self) -> (r: bool)
        ensures
            r == (self@ is Object),
    {
        match self {
            Document::Object(_) => true,
            _ => false,
        }
    }

    /// Whether the document is the null value.
    pub fn is_null(&self) -> (r: bool)
        ensures
            r == (self@ is Null),
    {
        match self {
            Document::Null => true,
            _ => false,
        }
    }

    /// The value under `key`, where the document is an object that has one.
    pub fn get(&self, key: &str) -> (r: Option<&Document>)
        ensures
            match r {
                Some(v) => self@ is Object && entry_of(self@->Object_0, key@) == Some(v@),
                None => !(self@ is Object) || entry_of(self@->Object_0, key@) is None,
            },
    {
        match self {
            Document::Object(fields) => {
                let p = field_position(fields, key);
                if p < fields.len() {
                    Some(&fields[p].value)
                } else {
                    None
                }
            },
            _ => None,
        }
    }

    /// Whether two documents stand for the same value: the same kind of
    /// value, with the same items or entries in the same order.
    pub fn same(&self, other: &Document) -> (r: bool)
        ensures
            r == (self@ == other@),
        decreases self,
    {
        match self {
            Document::Null => other.is_null(),
            Document::Bool(a) => match other {
                Document::Bool(b) => *a == *b,
                _ => false,
            },
            Document::Number(a) => match other {
                Document::Number(b) => *a == *b,
                _ => false,
            },
            Document::Text(a) => match other {
                Document::Text(b) => *a == *b,
                _ => false,
            },
            Document::List(a) => match other {
                Document::List(b) => {
                    if a.len() != b.len() {
                        assert(models_of(a@).len() != models_of(b@).len());
                        return false;
                    }
                    let mut i: usize = 0;
                    while i < a.len()
                        invariant
                            i <= a.len(),
                            a.len() == b.len(),
                            *self is List && self->List_0 == *a,
                            *other is List && other->List_0 == *b,
                            forall|j: int| 0 <= j < i ==> a@[j]@ == b@[j]@,
                        decreases a.len() - i,
                    {
                        assert(decreases_to!(*self => self->List_0));
                        assert(decreases_to!(*a => a@));
                        assert(decreases_to!(a@ => a@[i as int]));
                        if !a[i].same(&b[i]) {
                            assert(models_of(a@)[i as int] != models_of(b@)[i as int]);
                            return false;
                        }
                        i = i + 1;
                    }
                    assert(models_of(a@) =~= models_of(b@));
                    true
                },
                _ => false,
            },
            Document::Object(a) => match other {
                Document::Object(b) => {
                    if a.len() != b.len() {
                        assert(entries_of(a@).len() != entries_of(b@).len());
                        return false;
                    }
                    let mut i: usize = 0;
                    while i < a.len()
                        invariant
                            i <= a.len(),
                            a.len() == b.len(),
                            *self is Object && self->Object_0 == *a,
                            *other is Object && other->Object_0 == *b,
                            forall|j: int| 0 <= j < i ==> a@[j]@ == b@[j]@,
                        decreases a.len() - i,
                    {
                        assert(decreases_to!(*self => self->Object_0));
                        assert(decreases_to!(*a => a@));
                        assert(decreases_to!(a@ => a@[i as int]));
                        assert(decreases_to!(a@[i as int] => a@[i as int].value));
                        if !(a[i].key == b[i].key) || !a[i].value.same(&b[i].value) {
                            assert(entries_of(a@)[i as int] != entries_of(b@)[i as int]);
                            return false;
                        }
                        i = i + 1;
                    }
                    assert(entries_of(a@) =~= entries_of(b@));
                    true
                },
                _ => false,
            },
        }
    }
}

} // verus!
