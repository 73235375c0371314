use vstd::prelude::*;

use crate::documents::{
    decoded, encode_document, ids_known, lemma_decode_encoded, NamedDocument,
    StoredDocument,
};
use crate::error::DumpError;
use crate::fields::{grown, lemma_grown_extends, FieldsIdsMap, MAX_FIELDS};
use crate::members::member_names;
use crate::json::{lemma_bytes_deep_view, object_entries, parse_object};
use crate::text::NEWLINE;

verus! {

/// Documents as named members, each value as JSON text.
pub type Contents = Seq<Seq<(Seq<char>, Seq<u8>)>>;

/// The canonical batch encoding of a set of documents: a fields-ids map and
/// each document written with its ids. A document's id in the batch is its
/// position, in the order in which the documents came.
pub struct DocumentBatch {
    pub fields: FieldsIdsMap,
    pub documents: Vec<StoredDocument>,
}

/// Decoding a document whose ids a map knows gives the same members under
/// any map that the first one grew into.
proof fn lemma_decoded_stable(names: Seq<Seq<char>>, later: Seq<Seq<char>>, doc: Seq<(u16, Seq<u8>)>)
    requires
        ids_known(names, doc),
        names.is_prefix_of(later),
    ensures
        ids_known(later, doc),
        decoded(later, doc) == decoded(names, doc),
{
    assert(decoded(later, doc)->Some_0 =~= decoded(names, doc)->Some_0);
}

impl DocumentBatch {
    /// The map is well formed and knows every field id of every document.
    pub open spec fn wf(&self) -> bool {
        &&& self.fields.wf()
        &&& forall|i: int|
            0 <= i < self.documents@.len() ==> ids_known(
                self.fields@,
                #[trigger] self.documents.deep_view()[i],
            )
    }

    /// The documents of the batch, in order, as named members.
    pub open spec fn contents(&self) -> Contents {
        Seq::new(
            self.documents@.len(),
            |i: int| decoded(self.fields@, self.documents.deep_view()[i])->Some_0,
        )
    }

    /// An explicitly empty batch.
    pub fn new() -> (r: DocumentBatch)
        ensures
            r.wf(),
            r.fields@.len() == 0,
            r.contents() == Seq::<Seq<(Seq<char>, Seq<u8>)>>::empty(),
    {
        let r = DocumentBatch { fields: FieldsIdsMap::new(), documents: Vec::new() };
        assert(r.contents() =~= Seq::<Seq<(Seq<char>, Seq<u8>)>>::empty());
        r
    }

    /// The number of documents.
    pub fn len(&self) -> (r: usize)
        ensures
            r == self.contents().len(),
    {
        self.documents.len()
    }

    pub fn is_empty(&self) -> (r: bool)
        ensures
            r == (self.contents().len() == 0),
    {
        self.documents.len() == 0
    }

    /// Adds a document after the others, giving its new field names the next
    /// free ids. Fails, with the documents unchanged, exactly when the document
    /// brings more new names than ids are left.
    pub fn push(&mut self, doc: &NamedDocument) -> (r: Result<(), DumpError>)
        requires
            old(self).wf(),
        ensures
            final(self).wf(),
            old(self).fields@.is_prefix_of(final(self).fields@),
            r is Ok <==> grown(old(self).fields@, member_names(doc.deep_view())).len() <= MAX_FIELDS,
            r is Ok ==> final(self).fields@ == grown(old(self).fields@, member_names(doc.deep_view())),
            r is Ok ==> final(self).contents() == old(self).contents().push(doc.deep_view()),
            r is Err ==> r == Err::<(), DumpError>(DumpError::TooManyFields) && final(self).contents()
                == old(self).contents(),
    {
        let ghost names0 = self.fields@;
        let ghost docs0 = self.documents.deep_view();
        let ghost contents0 = self.contents();
        let encoded = encode_document(&mut self.fields, doc);
        proof {
            assert forall|i: int| 0 <= i < docs0.len() implies ids_known(
                self.fields@,
                #[trigger] docs0[i],
            ) && decoded(self.fields@, docs0[i]) == decoded(names0, docs0[i]) by {
                lemma_decoded_stable(names0, self.fields@, docs0[i]);
            }
        }
        match encoded {
            Some(d) => {
                proof {
                    lemma_decode_encoded(self.fields@, self.fields@, doc.deep_view(), d.deep_view());
                    assert(self.fields@.is_prefix_of(self.fields@));
                }
                self.documents.push(d);
                assert(self.documents.deep_view() =~= docs0.push(d.deep_view()));
                assert(self.contents() =~= contents0.push(doc.deep_view()));
                Ok(())
            },
            None => {
                assert(self.documents.deep_view() == docs0);
                assert(self.contents() =~= contents0);
                Err(DumpError::TooManyFields)
            },
        }
    }
}

/// A byte that JSON counts as white space.
pub open spec fn is_space(b: u8) -> bool {
    b == 32 || b == 9 || b == 10 || b == 13
}

/// A line that holds white space alone, which the stream skips.
pub open spec fn is_blank(line: Seq<u8>) -> bool {
    forall|k: int| 0 <= k < line.len() ==> is_space(#[trigger] line[k])
}

/// The documents of a line-delimited JSON stream: one JSON object per line
/// that is not blank, in the order of the lines; `None` where a line that is
/// not blank holds no JSON object.
pub open spec fn normalized(lines: Seq<Seq<u8>>) -> Option<Contents>
    decreases lines.len(),
{
    if lines.len() == 0 {
        Some(Seq::empty())
    } else {
        match normalized(lines.drop_last()) {
            None => None,
            Some(docs) => if is_blank(lines.last()) {
                Some(docs)
            } else {
                match object_entries(lines.last()) {
                    Some(doc) => Some(docs.push(doc)),
                    None => None,
                }
            },
        }
    }
}

/// The distinct field names of `docs`, in the order in which they first
/// appear: the fields-ids map of a batch that holds them.
pub open spec fn all_names(docs: Contents) -> Seq<Seq<char>>
    decreases docs.len(),
{
    if docs.len() == 0 {
        Seq::empty()
    } else {
        grown(all_names(docs.drop_last()), member_names(docs.last()))
    }
}

/// More documents name at least as many fields.
pub proof fn lemma_all_names_prefix(a: Contents, b: Contents)
    requires
        a.is_prefix_of(b),
    ensures
        all_names(a).len() <= all_names(b).len(),
    decreases b.len(),
{
    if a.len() == b.len() {
        assert(a =~= b);
    } else {
        assert(a.is_prefix_of(b.drop_last()));
        lemma_all_names_prefix(a, b.drop_last());
        lemma_grown_extends(all_names(b.drop_last()), member_names(b.last()));
    }
}

/// The documents of a prefix of a stream are a prefix of the stream's.
pub proof fn lemma_normalized_prefix(lines: Seq<Seq<u8>>, k: int)
    requires
        0 <= k <= lines.len(),
        normalized(lines) is Some,
    ensures
        normalized(lines.take(k)) is Some,
        normalized(lines.take(k))->Some_0.is_prefix_of(normalized(lines)->Some_0),
    decreases lines.len(),
{
    if k == lines.len() {
        assert(lines.take(k) =~= lines);
    } else {
        let init = lines.drop_last();
        assert(init.take(k) =~= lines.take(k));
        lemma_normalized_prefix(init, k);
    }
}

/// Once a prefix of the stream holds a line that is not a JSON object, so
/// does the whole stream.
pub proof fn lemma_normalized_prefix_none(lines: Seq<Seq<u8>>, k: int)
    requires
        0 <= k <= lines.len(),
        normalized(lines.take(k)) is None,
    ensures
        normalized(lines) is None,
    decreases lines.len() - k,
{
    if k < lines.len() {
        assert(lines.take(k + 1).drop_last() =~= lines.take(k));
        lemma_normalized_prefix_none(lines, k + 1);
    } else {
        assert(lines.take(k) =~= lines);
    }
}

/// A stream of blank lines alone holds no document.
pub proof fn lemma_blank_stream_is_empty(lines: Seq<Seq<u8>>)
    requires
        forall|i: int| 0 <= i < lines.len() ==> is_blank(#[trigger] lines[i]),
    ensures
        normalized(lines) == Some(Seq::<Seq<(Seq<char>, Seq<u8>)>>::empty()),
    decreases lines.len(),
{
    if lines.len() > 0 {
        let init = lines.drop_last();
        assert forall|i: int| 0 <= i < init.len() implies is_blank(#[trigger] init[i]) by {
            assert(init[i] == lines[i]);
        }
        lemma_blank_stream_is_empty(init);
    }
}

fn is_blank_line(line: &Vec<u8>) -> (r: bool)
    ensures
        r == is_blank(line@),
{
    let mut k: usize = 0;
    while k < line.len()
        invariant
            k <= line.len(),
            forall|j: int| 0 <= j < k ==> is_space(#[trigger] line@[j]),
        decreases line.len() - k,
    {
        let b = line[k];
        if !(b == 32 || b == 9 || b == 10 || b == 13) {
            return false;
        }
        k = k + 1;
    }
    true
}

/// Lines put back together, a newline between each two.
pub open spec fn joined(lines: Seq<Seq<u8>>) -> Seq<u8>
    decreases lines.len(),
{
    if lines.len() == 0 {
        Seq::empty()
    } else if lines.len() == 1 {
        lines[0]
    } else {
        joined(lines.drop_last()) + seq![NEWLINE] + lines.last()
    }
}

/// Cuts a stream into its lines at each newline. The lines hold no newline,
/// and joined back with newlines they give the stream.
pub fn split_lines(content: &[u8]) -> (r: Vec<Vec<u8>>)
    ensures
        r@.len() >= 1,
        joined(r.deep_view()) == content@,
        forall|i: int| 0 <= i < r@.len() ==> !(#[trigger] r.deep_view()[i]).contains(NEWLINE),
{
    let mut out: Vec<Vec<u8>> = Vec::new();
    let mut cur: Vec<u8> = Vec::new();
    let mut i: usize = 0;
    while i < content.len()
        invariant
            i <= content@.len(),
            joined(out.deep_view().push(cur@)) == content@.take(i as int),
            forall|j: int| 0 <= j < out@.len() ==> !(#[trigger] out.deep_view()[j]).contains(NEWLINE),
            !cur@.contains(NEWLINE),
        decreases content@.len() - i,
    {
        let c = content[i];
        let ghost before = out.deep_view().push(cur@);
        if c == NEWLINE {
            let line = cur;
            proof {
                lemma_bytes_deep_view(line);
            }
            out.push(line);
            cur = Vec::new();
            assert(out.deep_view() =~= before);
            assert(joined(out.deep_view().push(cur@)) =~= joined(before) + seq![NEWLINE]) by {
                assert(out.deep_view().push(cur@).drop_last() =~= before);
            }
        } else {
            let ghost old_cur = cur@;
            cur.push(c);
            assert(!cur@.contains(NEWLINE)) by {
                if cur@.contains(NEWLINE) {
                    let k = choose|k: int| 0 <= k < cur@.len() && cur@[k] == NEWLINE;
                    assert(k < old_cur.len() ==> old_cur[k] == cur@[k]);
                }
            }
            assert(joined(out.deep_view().push(cur@)) =~= joined(before) + seq![c]) by {
                let now = out.deep_view().push(cur@);
                assert(now.drop_last() =~= before.drop_last());
                if now.len() > 1 {
                    assert(joined(now) =~= joined(before.drop_last()) + seq![NEWLINE] + cur@);
                    assert(joined(before) =~= joined(before.drop_last()) + seq![NEWLINE] + old_cur);
                }
            }
        }
        assert(content@.take(i as int + 1) =~= content@.take(i as int).push(c));
        i = i + 1;
    }
    let ghost before = out.deep_view();
    proof {
        lemma_bytes_deep_view(cur);
    }
    out.push(cur);
    assert(out.deep_view() =~= before.push(cur@));
    assert(content@.take(content@.len() as int) =~= content@);
    out
}

/// Normalizes a line-delimited JSON stream into a document batch: each line
/// that is not blank must hold one JSON object, which becomes the next
/// document. A stream without documents gives an empty batch.
pub fn read_ndjson(lines: &Vec<Vec<u8>>) -> (r: Result<DocumentBatch, DumpError>)
    ensures
        r is Ok ==> r->Ok_0.wf() && normalized(lines.deep_view()) == Some(r->Ok_0.contents()),
        normalized(lines.deep_view()) is None ==> r is Err,
        r matches Err(DumpError::MalformedLine(i)) ==> i < lines@.len() && normalized(
            lines.deep_view().take(i as int),
        ) is Some && normalized(lines.deep_view().take(i as int + 1)) is None,
        r matches Err(DumpError::TooManyFields) ==> exists|k: int|
            0 <= k <= lines@.len() && #[trigger] normalized(lines.deep_view().take(k)) is Some
                && all_names(normalized(lines.deep_view().take(k))->Some_0).len() > MAX_FIELDS,
        normalized(lines.deep_view()) is Some && all_names(normalized(lines.deep_view())->Some_0).len()
            <= MAX_FIELDS ==> r is Ok,
        r is Err ==> r matches Err(DumpError::MalformedLine(_)) || r matches Err(
            DumpError::TooManyFields,
        ),
{
    let ghost ls = lines.deep_view();
    let mut batch = DocumentBatch::new();
    let mut i: usize = 0;
    while i < lines.len()
        invariant
            i <= lines.len(),
            ls == lines.deep_view(),
            batch.wf(),
            normalized(ls.take(i as int)) == Some(batch.contents()),
            batch.fields@ == all_names(batch.contents()),
        decreases lines.len() - i,
    {
        let ghost t = ls.take(i as int + 1);
        proof {
            assert(t.drop_last() =~= ls.take(i as int));
            lemma_bytes_deep_view(lines@[i as int]);
            assert(t.last() == lines@[i as int]@);
        }
        if !is_blank_line(&lines[i]) {
            match parse_object(lines[i].as_slice()) {
                Ok(doc) => {
                    let ghost before = batch.contents();
                    match batch.push(&doc) {
                        Ok(()) => {},
                        Err(e) => {
                            let ghost after = before.push(doc.deep_view());
                            assert(all_names(after).len() > MAX_FIELDS) by {
                                assert(after.drop_last() =~= before);
                            }
                            assert(normalized(ls.take(i as int + 1)) == Some(after));
                            proof {
                                if normalized(ls) is Some {
                                    lemma_normalized_prefix(ls, i as int + 1);
                                    lemma_all_names_prefix(after, normalized(ls)->Some_0);
                                }
                            }
                            return Err(e);
                        },
                    }
                    assert(batch.contents().drop_last() =~= before);
                    assert(batch.contents().last() == doc.deep_view());
                },
                Err(_) => {
                    proof {
                        if normalized(ls) is Some {
                            lemma_normalized_prefix(ls, i as int + 1);
                        }
                    }
                    return Err(DumpError::MalformedLine(i));
                },
            }
        }
        i = i + 1;
    }
    assert(ls.take(lines@.len() as int) =~= ls);
    Ok(batch)
}

} // verus!
