//! The observations of an entity: a list of texts that its document holds
//! under the key `observations`.

use crate::document::{
    entries_of, entry_of, field_position, keys_of, models_of, optional_model, other_than,
    put_field, with_entry, without_entry, Document, DocumentModel, Entries, Field,
};
use crate::model::{added, named};
use crate::text::{lemma_position, text_in, texts};
use vstd::pervasive::VecAdditionalExecFns;
use vstd::prelude::*;

verus! {

/// The key under which a document holds its observations.
pub open spec fn observations_key() -> Seq<char> {
    "observations"@
}

/// The entries of an object; none for any other document.
pub open spec fn entries_or_none(d: DocumentModel) -> Entries {
    match d {
        DocumentModel::Object(entries) => entries,
        _ => Seq::empty(),
    }
}

/// The list that an object holds under the observations key, where it is an
/// object with a list there.
pub open spec fn observation_items(d: DocumentModel) -> Option<Seq<DocumentModel>> {
    match entry_of(entries_or_none(d), observations_key()) {
        Some(DocumentModel::List(items)) => Some(items),
        _ => None,
    }
}

/// The observation list of a document, empty where it has none.
pub open spec fn observation_items_or_none(d: DocumentModel) -> Seq<DocumentModel> {
    match observation_items(d) {
        Some(items) => items,
        None => Seq::empty(),
    }
}

/// The documents that are texts.
pub open spec fn is_text() -> spec_fn(DocumentModel) -> bool {
    |x: DocumentModel| x is Text
}

/// The characters of a text.
pub open spec fn text_of() -> spec_fn(DocumentModel) -> Seq<char> {
    |x: DocumentModel| x->Text_0
}

/// The texts among `items`, in order.
pub open spec fn text_items(items: Seq<DocumentModel>) -> Seq<Seq<char>> {
    items.filter(is_text()).map_values(text_of())
}

/// The observations of a document: the texts in its observation list.
pub open spec fn observations_of(d: DocumentModel) -> Seq<Seq<char>> {
    text_items(observation_items_or_none(d))
}

/// A list of texts as a list of documents.
pub open spec fn as_text_items(contents: Seq<Seq<char>>) -> Seq<DocumentModel> {
    contents.map_values(|t: Seq<char>| DocumentModel::Text(t))
}

/// The document of a new entity: the entries of `data` where it is an object
/// (none otherwise), with `observations` put under the observations key.
pub open spec fn entity_document(
    data: Option<DocumentModel>,
    observations: Seq<Seq<char>>,
) -> DocumentModel {
    let base = match data {
        Some(d) => entries_or_none(d),
        None => Seq::empty(),
    };
    DocumentModel::Object(
        with_entry(base, observations_key(), DocumentModel::List(as_text_items(observations))),
    )
}

/// `items` followed by each of `contents`, in order, that neither `items`
/// nor an earlier one of `contents` holds as a text.
pub open spec fn append_new(items: Seq<DocumentModel>, contents: Seq<Seq<char>>) -> Seq<
    DocumentModel,
>
    decreases contents.len(),
{
    if contents.len() == 0 {
        items
    } else {
        let before = append_new(items, contents.drop_last());
        let item = DocumentModel::Text(contents.last());
        if before.contains(item) {
            before
        } else {
            before.push(item)
        }
    }
}

/// The document after `contents` were added as observations: an object (the
/// entries are dropped where it was none) whose observation list (begun
/// empty where it had none) has the new ones appended.
pub open spec fn with_observations(d: DocumentModel, contents: Seq<Seq<char>>) -> DocumentModel {
    DocumentModel::Object(
        with_entry(
            entries_or_none(d),
            observations_key(),
            DocumentModel::List(append_new(observation_items_or_none(d), contents)),
        ),
    )
}

/// How many observations `with_observations` appends.
pub open spec fn observations_added(d: DocumentModel, contents: Seq<Seq<char>>) -> int {
    append_new(observation_items_or_none(d), contents).len() - observation_items_or_none(d).len()
}

/// An item stays when it is no text that `targets` names.
pub open spec fn stays(targets: Seq<Seq<char>>) -> spec_fn(DocumentModel) -> bool {
    |x: DocumentModel| !(x is Text && targets.contains(x->Text_0))
}

/// The document after the observations that `targets` name were removed
/// from its observation list.
pub open spec fn without_observations(d: DocumentModel, targets: Seq<Seq<char>>) -> DocumentModel {
    DocumentModel::Object(
        with_entry(
            entries_or_none(d),
            observations_key(),
            DocumentModel::List(observation_items_or_none(d).filter(stays(targets))),
        ),
    )
}

/// What is left of a document beside its observations: an object without
/// its observations entry, any other document as it is. Nothing is left of
/// the null value and of an object with no other entry.
pub open spec fn extra_data(d: DocumentModel) -> Option<DocumentModel> {
    match d {
        DocumentModel::Null => None,
        DocumentModel::Object(entries) => {
            let rest = without_entry(entries, observations_key());
            if rest.len() == 0 {
                None
            } else {
                Some(DocumentModel::Object(rest))
            }
        },
        _ => Some(d),
    }
}

/// Whether `items` holds the text `content`.
pub fn has_text(items: &Vec<Document>, content: &str) -> (r: bool)
    ensures
        r == models_of(items@).contains(DocumentModel::Text(content@)),
{
    let mut i: usize = 0;
    while i < items.len()
        invariant
            i <= items.len(),
            forall|k: int| 0 <= k < i ==> models_of(items@)[k] != DocumentModel::Text(content@),
        decreases items.len() - i,
    {
        let found = match &items[i] {
            Document::Text(s) => *s.as_str() == *content,
            _ => false,
        };
        if found {
            assert(models_of(items@)[i as int] == DocumentModel::Text(content@));
            return true;
        }
        i = i + 1;
    }
    false
}

/// The texts of `contents` as a list of documents.
pub fn text_list(contents: &Vec<String>) -> (r: Vec<Document>)
    ensures
        models_of(r@) == as_text_items(texts(contents@)),
{
    let mut out: Vec<Document> = Vec::new();
    let mut i: usize = 0;
    while i < contents.len()
        invariant
            i <= contents.len(),
            out.len() == i,
            forall|k: int| 0 <= k < i ==> out@[k]@ == DocumentModel::Text(contents@[k]@),
        decreases contents.len() - i,
    {
        out.push(Document::Text(contents[i].clone()));
        i = i + 1;
    }
    assert(models_of(out@) =~= as_text_items(texts(contents@)));
    out
}

/// The document of a new entity, from what was supplied for it.
pub fn new_entity_document(data: Option<Document>, observations: &Vec<String>) -> (r: Document)
    ensures
        r@ == entity_document(optional_model(data), texts(observations@)),
{
    let mut fields: Vec<Field> = match data {
        Some(Document::Object(fields)) => fields,
        _ => Vec::new(),
    };
    assert(entries_of(fields@) =~= match optional_model(data) {
        Some(d) => entries_or_none(d),
        None => Seq::empty(),
    });
    put_field(&mut fields, "observations", Document::List(text_list(observations)));
    Document::Object(fields)
}

/// The observations of a document, in order.
pub fn observation_texts(data: &Document) -> (r: Vec<String>)
    ensures
        texts(r@) == observations_of(data@),
{
    let mut out: Vec<String> = Vec::new();
    match data.get("observations") {
        Some(Document::List(items)) => {
            let ghost all = models_of(items@);
            let ghost textual = is_text();
            let ghost chars = text_of();
            assert(observation_items_or_none(data@) == all);
            let mut i: usize = 0;
            assert(all.take(0) =~= Seq::<DocumentModel>::empty());
            assert(texts(out@) =~= all.take(0).filter(textual).map_values(chars));
            while i < items.len()
                invariant
                    i <= items.len(),
                    all == models_of(items@),
                    textual == is_text(),
                    chars == text_of(),
                    texts(out@) == all.take(i as int).filter(textual).map_values(chars),
                decreases items.len() - i,
            {
                proof {
                    let before = all.take(i as int);
                    assert(all.take(i + 1) =~= before.push(all[i as int]));
                    before.lemma_filter_push(all[i as int], textual);
                    before.filter(textual).lemma_push_map_commute(chars, all[i as int]);
                }
                match &items[i] {
                    Document::Text(s) => {
                        let ghost prior = out@;
                        out.push(s.clone());
                        assert(texts(out@) =~= texts(prior).push(s@));
                    },
                    _ => {},
                }
                i = i + 1;
            }
            assert(all.take(i as int) =~= all);
        },
        _ => {
            assert(observation_items_or_none(data@) =~= Seq::<DocumentModel>::empty());
            assert(texts(out@) =~= observations_of(data@));
        },
    }
    out
}

/// What is left of a document beside its observations.
pub fn extra_of(data: &Document) -> (r: Option<Document>)
    ensures
        optional_model(r) == extra_data(data@),
{
    match data {
        Document::Null => None,
        Document::Object(fields) => {
            let ghost all = entries_of(fields@);
            let ghost other = other_than(observations_key());
            let mut out: Vec<Field> = Vec::new();
            let mut i: usize = 0;
            assert(all.take(0) =~= Seq::<(Seq<char>, DocumentModel)>::empty());
            assert(entries_of(out@) =~= all.take(0).filter(other));
            while i < fields.len()
                invariant
                    i <= fields.len(),
                    all == entries_of(fields@),
                    other == other_than(observations_key()),
                    entries_of(out@) == all.take(i as int).filter(other),
                decreases fields.len() - i,
            {
                proof {
                    let before = all.take(i as int);
                    assert(all.take(i + 1) =~= before.push(all[i as int]));
                    before.lemma_filter_push(all[i as int], other);
                }
                if !(*fields[i].key.as_str() == *"observations") {
                    let ghost prior = out@;
                    out.push(fields[i].clone());
                    assert(entries_of(out@) =~= entries_of(prior).push(all[i as int]));
                }
                i = i + 1;
            }
            assert(all.take(i as int) =~= all);
            if out.len() == 0 {
                None
            } else {
                Some(Document::Object(out))
            }
        },
        _ => Some(data.clone()),
    }
}

/// The fields of an object, taken out of it; none for any other document.
/// The document is left null.
fn take_fields(data: &mut Document) -> (r: Vec<Field>)
    ensures
        entries_of(r@) == entries_or_none(old(data)@),
{
    let mut taken = Document::Null;
    core::mem::swap(data, &mut taken);
    match taken {
        Document::Object(fields) => fields,
        _ => {
            let empty: Vec<Field> = Vec::new();
            assert(entries_of(empty@) =~= entries_or_none(old(data)@));
            empty
        },
    }
}

/// The list under the observations key, taken out of `fields`; empty where
/// there is none. The entries keep their keys.
fn take_observation_list(fields: &mut Vec<Field>) -> (r: Vec<Document>)
    ensures
        models_of(r@) == observation_items_or_none(DocumentModel::Object(entries_of(old(fields)@))),
        keys_of(entries_of(final(fields)@)) == keys_of(entries_of(old(fields)@)),
        forall|value: DocumentModel|
            with_entry(entries_of(final(fields)@), observations_key(), value) == with_entry(
                entries_of(old(fields)@),
                observations_key(),
                value,
            ),
{
    let p = field_position(fields, "observations");
    let ghost before = entries_of(fields@);
    proof {
        lemma_position(keys_of(before), observations_key());
    }
    if p < fields.len() {
        let mut slot = Field { key: "observations".to_owned(), value: Document::Null };
        fields.set_and_swap(p, &mut slot);
        assert(keys_of(entries_of(fields@)) =~= keys_of(before));
        assert forall|value: DocumentModel|
            with_entry(entries_of(fields@), observations_key(), value) == with_entry(
                before,
                observations_key(),
                value,
            ) by {
            assert(entries_of(fields@).update(p as int, (observations_key(), value))
                =~= before.update(p as int, (observations_key(), value)));
        }
        match slot.value {
            Document::List(items) => items,
            _ => {
                let empty: Vec<Document> = Vec::new();
                assert(models_of(empty@) =~= Seq::<DocumentModel>::empty());
                empty
            },
        }
    } else {
        let empty: Vec<Document> = Vec::new();
        assert(models_of(empty@) =~= Seq::<DocumentModel>::empty());
        empty
    }
}

/// Adds each of `contents` that the document does not hold yet to its
/// observations, and returns how many were added. A document that is no
/// object becomes one; an observations entry that is no list becomes one.
pub fn add_observations(data: &mut Document, contents: &Vec<String>) -> (added: usize)
    ensures
        final(data)@ == with_observations(old(data)@, texts(contents@)),
        added == observations_added(old(data)@, texts(contents@)),
{
    let mut fields = take_fields(data);
    let mut items = take_observation_list(&mut fields);
    let ghost first = models_of(items@);
    let ghost wanted = texts(contents@);
    assert(first == observation_items_or_none(old(data)@));
    let mut added: usize = 0;
    let mut i: usize = 0;
    assert(wanted.take(0) =~= Seq::<Seq<char>>::empty());
    while i < contents.len()
        invariant
            i <= contents.len(),
            added <= i,
            wanted == texts(contents@),
            models_of(items@) == append_new(first, wanted.take(i as int)),
            added == items.len() - first.len(),
        decreases contents.len() - i,
    {
        proof {
            assert(wanted.take(i + 1).drop_last() =~= wanted.take(i as int));
            assert(wanted.take(i + 1).last() == contents@[i as int]@);
        }
        if !has_text(&items, contents[i].as_str()) {
            let ghost prior = items@;
            items.push(Document::Text(contents[i].clone()));
            assert(models_of(items@) =~= models_of(prior).push(
                DocumentModel::Text(contents@[i as int]@),
            ));
            added = added + 1;
        }
        i = i + 1;
    }
    assert(wanted.take(i as int) =~= wanted);
    put_field(&mut fields, "observations", Document::List(items));
    *data = Document::Object(fields);
    added
}

/// What came of removing observations from a document.
#[derive(Clone, Copy, Debug, PartialEq, Eq, Structural)]
pub enum Removal {
    /// The document is no object; it is unchanged.
    NotAnObject,
    /// The object holds no list under the observations key; it is unchanged.
    NoObservations,
    /// The object holds an observation list, and none of its items was named.
    NothingRemoved,
    /// At least one observation was removed.
    Removed,
}

/// What `remove_observations` answers for a document and the texts to remove.
pub open spec fn removal_of(d: DocumentModel, targets: Seq<Seq<char>>) -> Removal {
    if !(d is Object) {
        Removal::NotAnObject
    } else if observation_items(d) is None {
        Removal::NoObservations
    } else if observation_items_or_none(d).filter(stays(targets)).len()
        < observation_items_or_none(d).len() {
        Removal::Removed
    } else {
        Removal::NothingRemoved
    }
}

/// The document that `remove_observations` leaves.
pub open spec fn after_removal(d: DocumentModel, targets: Seq<Seq<char>>) -> DocumentModel {
    if observation_items(d) is Some {
        without_observations(d, targets)
    } else {
        d
    }
}

/// Removes from the observation list of a document every text that
/// `targets` names. Items that are no texts stay.
pub fn remove_observations(data: &mut Document, targets: &Vec<String>) -> (r: Removal)
    ensures
        r == removal_of(old(data)@, texts(targets@)),
        final(data)@ == after_removal(old(data)@, texts(targets@)),
{
    if !data.is_object() {
        return Removal::NotAnObject;
    }
    let has_list = match data.get("observations") {
        Some(Document::List(_)) => true,
        _ => false,
    };
    if !has_list {
        return Removal::NoObservations;
    }
    let mut fields = take_fields(data);
    let items = take_observation_list(&mut fields);
    let ghost all = models_of(items@);
    let ghost keep = stays(texts(targets@));
    let mut kept: Vec<Document> = Vec::new();
    let count = items.len();
    assert(all.take(0) =~= Seq::<DocumentModel>::empty());
    assert(models_of(kept@) =~= all.take(0).filter(keep));
    for item in it: items
        invariant
            all == models_of(it.seq()),
            keep == stays(texts(targets@)),
            models_of(kept@) == all.take(it.index() as int).filter(keep),
    {
        proof {
            let before = all.take(it.index() as int);
            assert(all.take(it.index() + 1) =~= before.push(item@));
            before.lemma_filter_push(item@, keep);
        }
        let named = match &item {
            Document::Text(s) => text_in(targets.as_slice(), s.as_str()),
            _ => false,
        };
        if !named {
            let ghost prior = kept@;
            kept.push(item);
            assert(models_of(kept@) =~= models_of(prior).push(item@));
        }
    }
    assert(all.take(all.len() as int) =~= all);
    let shrank = kept.len() < count;
    put_field(&mut fields, "observations", Document::List(kept));
    *data = Document::Object(fields);
    if shrank {
        Removal::Removed
    } else {
        Removal::NothingRemoved
    }
}

} // verus!
