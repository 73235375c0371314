use vstd::prelude::*;

use crate::error::DumpError;
use crate::fields::{grown, lemma_grown_take, FieldsIdsMap, MAX_FIELDS};
use crate::members::member_names;
use crate::json::lemma_bytes_deep_view;

verus! {

/// A document as field-id-encoded members: each field id with the JSON text of
/// its value.
pub type StoredDocument = Vec<(u16, Vec<u8>)>;

/// A document as named members: each field name with the JSON text of its value.
pub type NamedDocument = Vec<(String, Vec<u8>)>;

/// `doc` is `entries` written with the field ids of `names`.
pub open spec fn encodes(
    names: Seq<Seq<char>>,
    entries: Seq<(Seq<char>, Seq<u8>)>,
    doc: Seq<(u16, Seq<u8>)>,
) -> bool {
    &&& doc.len() == entries.len()
    &&& forall|i: int|
        0 <= i < doc.len() ==> (doc[i].0 as int) < names.len() && names[doc[i].0 as int]
            == entries[i].0 && doc[i].1 == entries[i].1
}

/// Every field id of `doc` is known to `names`.
pub open spec fn ids_known(names: Seq<Seq<char>>, doc: Seq<(u16, Seq<u8>)>) -> bool {
    forall|i: int| 0 <= i < doc.len() ==> (doc[i].0 as int) < names.len()
}

/// The named members of `doc` under `names`, or `None` where a field id is unknown.
pub open spec fn decoded(names: Seq<Seq<char>>, doc: Seq<(u16, Seq<u8>)>) -> Option<
    Seq<(Seq<char>, Seq<u8>)>,
> {
    if ids_known(names, doc) {
        Some(Seq::new(doc.len(), |i: int| (names[doc[i].0 as int], doc[i].1)))
    } else {
        None
    }
}

/// Decoding a document with the map it was encoded with, or with any map that
/// map grew into later, gives back the very members that were encoded.
pub proof fn lemma_decode_encoded(
    names: Seq<Seq<char>>,
    later: Seq<Seq<char>>,
    entries: Seq<(Seq<char>, Seq<u8>)>,
    doc: Seq<(u16, Seq<u8>)>,
)
    requires
        encodes(names, entries, doc),
        names.is_prefix_of(later),
    ensures
        decoded(later, doc) == Some(entries),
{
    assert(ids_known(later, doc));
    assert(decoded(later, doc)->Some_0 =~= entries);
}

/// Writes the members of `entries` with the field ids of `fields`, giving new
/// names the next free ids. `None` exactly when the document brings more new
/// names than ids are left.
pub fn encode_document(fields: &mut FieldsIdsMap, entries: &NamedDocument) -> (r: Option<
    StoredDocument,
>)
    requires
        old(fields).wf(),
    ensures
        final(fields).wf(),
        old(fields)@.is_prefix_of(final(fields)@),
        r is Some <==> grown(old(fields)@, member_names(entries.deep_view())).len() <= MAX_FIELDS,
        r is Some ==> final(fields)@ == grown(old(fields)@, member_names(entries.deep_view())),
        r is Some ==> encodes(final(fields)@, entries.deep_view(), r->Some_0.deep_view()),
{
    let ghost start = fields@;
    let ghost mn = member_names(entries.deep_view());
    let mut doc: StoredDocument = Vec::new();
    let mut i: usize = 0;
    while i < entries.len()
        invariant
            i <= entries.len(),
            fields.wf(),
            start == old(fields)@,
            start.is_prefix_of(fields@),
            mn == member_names(entries.deep_view()),
            fields@ == grown(start, mn.take(i as int)),
            doc@.len() == i,
            forall|j: int|
                0 <= j < i ==> (doc.deep_view()[j].0 as int) < fields@.len() && fields@[doc.deep_view()[
                    j].0 as int] == entries.deep_view()[j].0 && doc.deep_view()[j].1
                    == entries.deep_view()[j].1,
        decreases entries.len() - i,
    {
        let ghost before = fields@;
        let ghost prev = doc.deep_view();
        proof {
            assert(mn.take(i as int + 1).drop_last() =~= mn.take(i as int));
            assert(mn.take(i as int + 1).last() == entries@[i as int].0@);
        }
        match fields.insert(&entries[i].0) {
            Some(id) => {
                let value = entries[i].1.clone();
                proof {
                    lemma_bytes_deep_view(value);
                    lemma_bytes_deep_view(entries@[i as int].1);
                }
                assert(value@ == entries.deep_view()[i as int].1);
                doc.push((id, value));
                assert(before.is_prefix_of(fields@));
                assert forall|j: int| 0 <= j < i + 1 implies (doc.deep_view()[j].0 as int)
                    < fields@.len() && fields@[doc.deep_view()[j].0 as int]
                    == entries.deep_view()[j].0 && doc.deep_view()[j].1
                    == entries.deep_view()[j].1 by {
                    if j < i {
                        assert(doc.deep_view()[j] == prev[j]);
                        assert(fields@[prev[j].0 as int] == before[prev[j].0 as int]);
                    }
                }
            },
            None => {
                assert(fields@ == before);
                proof {
                    lemma_grown_take(start, mn, i as int + 1);
                }
                return None;
            },
        }
        i = i + 1;
    }
    assert(start.is_prefix_of(fields@));
    assert(mn.take(entries@.len() as int) =~= mn);
    Some(doc)
}

/// The named members of a stored document, in the order in which they are
/// stored. A field id that `fields` does not know is corruption.
pub fn decode_document(fields: &FieldsIdsMap, doc: &StoredDocument) -> (r: Result<
    NamedDocument,
    DumpError,
>)
    ensures
        r is Ok <==> decoded(fields@, doc.deep_view()) is Some,
        r is Ok ==> Some(r->Ok_0.deep_view()) == decoded(fields@, doc.deep_view()),
        r is Err ==> exists|i: int|
            0 <= i < doc@.len() && (doc@[i].0 as int) >= fields@.len() && r == Err::<
                NamedDocument,
                DumpError,
            >(DumpError::UnknownFieldId(doc@[i].0)),
{
    let mut out: NamedDocument = Vec::new();
    let mut i: usize = 0;
    while i < doc.len()
        invariant
            i <= doc.len(),
            out@.len() == i,
            forall|j: int| 0 <= j < i ==> (#[trigger] doc.deep_view()[j].0 as int) < fields@.len(),
            forall|j: int|
                0 <= j < i ==> #[trigger] out.deep_view()[j] == (
                    fields@[doc.deep_view()[j].0 as int],
                    doc.deep_view()[j].1,
                ),
        decreases doc.len() - i,
    {
        let id = doc[i].0;
        assert(doc.deep_view()[i as int].0 == id);
        match fields.name(id) {
            Some(name) => {
                let ghost prev = out.deep_view();
                let value = doc[i].1.clone();
                proof {
                    lemma_bytes_deep_view(value);
                    lemma_bytes_deep_view(doc@[i as int].1);
                }
                assert(value@ == doc.deep_view()[i as int].1);
                assert(out.deep_view().push((name@, value@)) =~= prev.push((name@, value@)));
                out.push((name, value));
                assert forall|j: int| 0 <= j < i + 1 implies (doc.deep_view()[j].0 as int)
                    < fields@.len() && out.deep_view()[j] == (
                    fields@[doc.deep_view()[j].0 as int],
                    doc.deep_view()[j].1,
                ) by {
                    if j < i {
                        assert(out.deep_view()[j] == prev[j]);
                    }
                }
            },
            None => {
                assert((doc.deep_view()[i as int].0 as int) >= fields@.len());
                assert(!ids_known(fields@, doc.deep_view()));
                return Err(DumpError::UnknownFieldId(id));
            },
        }
        i = i + 1;
    }
    assert(ids_known(fields@, doc.deep_view())) by {
        assert forall|j: int| 0 <= j < doc.deep_view().len() implies (doc.deep_view()[j].0 as int)
            < fields@.len() by {}
    }
    assert(decoded(fields@, doc.deep_view())->Some_0 =~= out.deep_view());
    Ok(out)
}

} // verus!
