use vstd::prelude::*;

use crate::batch::{is_blank, lemma_blank_stream_is_empty, lemma_normalized_prefix_none, all_names, normalized, read_ndjson, Contents, DocumentBatch};
use crate::documents::{ids_known, StoredDocument};
use crate::error::DumpError;
use crate::fields::{FieldsIdsMap, MAX_FIELDS};
use crate::json::{lemma_bytes_deep_view, reencode_value, value_text};
use crate::members::{collect_members, insert_member, into_members, map_members, new_members};
use crate::meta::{lemma_settings_members_round_trip, settings_members, settings_of_members, decode_meta, meta_of_text, meta_text, write_meta, MetaView};
use crate::settings::{checked_view, is_checked, lemma_check_of_checked_is_identity, Checked, Settings, SettingsView};
use crate::text::{object_text, write_object, append_bytes, NEWLINE};

verus! {

/// One transactionally consistent view of an index: its identifier, its
/// fields-ids map, its stored documents, its settings and its primary key.
pub struct Index {
    pub uid: String,
    pub fields: FieldsIdsMap,
    pub documents: Vec<StoredDocument>,
    pub settings: Settings<Checked>,
    pub primary_key: Option<String>,
}

impl Index {
    /// The index's settings are as validation leaves them.
    pub open spec fn wf(&self) -> bool {
        is_checked(self.settings@)
    }
}

/// Settings taken from a well-formed index, written as the members of a meta
/// record's settings object, read back and validated again, are the index's
/// settings.
pub proof fn lemma_index_settings_survive_snapshot(index: &Index)
    requires
        index.wf(),
    ensures
        settings_of_members(settings_members(index.settings@)) == Some(index.settings@),
        checked_view(index.settings@) == index.settings@,
{
    lemma_settings_survive_snapshot(index.settings@);
}

/// The two files of a snapshot, and the directory, relative to the snapshot
/// root, that holds them.
pub struct Snapshot {
    pub dir: String,
    pub meta: Vec<u8>,
    pub documents: Vec<u8>,
}

/// What a restore writes into the new index, in one transaction: the settings
/// first, then the documents. `documents` is `None` where the snapshot holds
/// no document, and the bulk loader is then not run.
pub struct Restore {
    pub uid: String,
    pub dir: String,
    pub settings: Settings<Checked>,
    pub primary_key: Option<String>,
    pub documents: Option<DocumentBatch>,
}

pub open spec fn opt_view(o: Option<String>) -> Option<Seq<char>> {
    match o {
        Some(s) => Some(s@),
        None => None,
    }
}

/// The directory of index `uid` under a snapshot root.
pub open spec fn index_dir(uid: Seq<char>) -> Seq<char> {
    "indexes/"@ + uid
}

/// Every value of `doc` is JSON.
pub open spec fn values_decode(doc: Seq<(u16, Seq<u8>)>) -> bool {
    forall|i: int| 0 <= i < doc.len() ==> (#[trigger] value_text(doc[i].1)) is Some
}

/// The members of `doc` with field id `id`, in stored order.
pub open spec fn with_id(doc: Seq<(u16, Seq<u8>)>, id: int) -> Seq<(u16, Seq<u8>)>
    decreases doc.len(),
{
    if doc.len() == 0 {
        Seq::empty()
    } else if doc.last().0 as int == id {
        with_id(doc.drop_last(), id).push(doc.last())
    } else {
        with_id(doc.drop_last(), id)
    }
}

/// The members of `doc` with field ids below `n`, by ascending field id, which
/// is the order in which the fields-ids map took the names.
pub open spec fn by_id(doc: Seq<(u16, Seq<u8>)>, n: nat) -> Seq<(u16, Seq<u8>)>
    decreases n,
{
    if n == 0 {
        Seq::empty()
    } else {
        by_id(doc, (n - 1) as nat) + with_id(doc, n - 1)
    }
}

/// One past the largest field id that `names` can give.
pub open spec fn id_bound(names: Seq<Seq<char>>) -> nat {
    if names.len() < MAX_FIELDS {
        names.len()
    } else {
        MAX_FIELDS as nat
    }
}

/// Members with their names and their values written back as compact JSON.
pub open spec fn named(names: Seq<Seq<char>>, doc: Seq<(u16, Seq<u8>)>) -> Seq<(Seq<char>, Seq<u8>)> {
    Seq::new(doc.len(), |i: int| (names[doc[i].0 as int], value_text(doc[i].1)->Some_0))
}

/// The members of a stored document as the snapshot writes them: by
/// ascending field id, each field name with its value written back as compact
/// JSON, gathered in an ordered map; `None` where a field id is unknown or a
/// value is not JSON.
pub open spec fn dumped_members(names: Seq<Seq<char>>, doc: Seq<(u16, Seq<u8>)>) -> Option<
    Seq<(Seq<char>, Seq<u8>)>,
> {
    if ids_known(names, doc) && values_decode(doc) {
        Some(collect_members(named(names, by_id(doc, id_bound(names)))))
    } else {
        None
    }
}

/// The line of the document stream that stands for a stored document.
pub open spec fn document_line(names: Seq<Seq<char>>, doc: Seq<(u16, Seq<u8>)>) -> Option<Seq<u8>> {
    match dumped_members(names, doc) {
        Some(ms) => Some(object_text(ms).push(NEWLINE)),
        None => None,
    }
}

/// The document stream: one line per stored document, in the stored order.
pub open spec fn documents_text(names: Seq<Seq<char>>, docs: Seq<Seq<(u16, Seq<u8>)>>) -> Option<
    Seq<u8>,
>
    decreases docs.len(),
{
    if docs.len() == 0 {
        Some(Seq::empty())
    } else {
        match documents_text(names, docs.drop_last()) {
            Some(t) => match document_line(names, docs.last()) {
                Some(l) => Some(t + l),
                None => None,
            },
            None => None,
        }
    }
}

/// Validated settings written as the members of a meta record's settings
/// object, read back and validated again, are the settings that were written.
pub proof fn lemma_settings_survive_snapshot(s: SettingsView)
    requires
        is_checked(s),
    ensures
        settings_of_members(settings_members(s)) == Some(s),
        checked_view(s) == s,
{
    lemma_settings_members_round_trip(s);
    lemma_check_of_checked_is_identity(s);
}

proof fn lemma_documents_text_prefix_none(
    names: Seq<Seq<char>>,
    docs: Seq<Seq<(u16, Seq<u8>)>>,
    k: int,
)
    requires
        0 <= k <= docs.len(),
        documents_text(names, docs.take(k)) is None,
    ensures
        documents_text(names, docs) is None,
    decreases docs.len() - k,
{
    if k < docs.len() {
        assert(docs.take(k + 1).drop_last() =~= docs.take(k));
        lemma_documents_text_prefix_none(names, docs, k + 1);
    } else {
        assert(docs.take(k) =~= docs);
    }
}

/// The line of the document stream for one stored document. A field id that
/// `fields` does not know, or a value that is not JSON, is corruption.
pub fn dump_document(fields: &FieldsIdsMap, doc: &StoredDocument) -> (r: Result<Vec<u8>, DumpError>)
    ensures
        r is Ok <==> document_line(fields@, doc.deep_view()) is Some,
        r is Ok ==> Some(r->Ok_0@) == document_line(fields@, doc.deep_view()),
        r is Err ==> r matches Err(DumpError::UnknownFieldId(_)) || r matches Err(
            DumpError::UndecodableValue(_),
        ),
{
    let ghost dv = doc.deep_view();
    let ghost names = fields@;
    let mut texts: Vec<Vec<u8>> = Vec::new();
    let mut k: usize = 0;
    while k < doc.len()
        invariant
            k <= doc.len(),
            dv == doc.deep_view(),
            texts@.len() == k,
            forall|j: int| 0 <= j < k ==> (#[trigger] dv[j].0 as int) < fields@.len(),
            forall|j: int| 0 <= j < k ==> (#[trigger] value_text(dv[j].1)) is Some,
            forall|j: int| 0 <= j < k ==> Some((#[trigger] texts@[j])@) == value_text(dv[j].1),
        decreases doc.len() - k,
    {
        let id = doc[k].0;
        proof {
            lemma_bytes_deep_view(doc@[k as int].1);
        }
        assert(dv[k as int] == (id, doc@[k as int].1@));
        if id as usize >= fields.len() {
            assert(!ids_known(fields@, dv));
            return Err(DumpError::UnknownFieldId(id));
        }
        match reencode_value(doc[k].1.as_slice()) {
            Ok(t) => {
                texts.push(t);
            },
            Err(_) => {
                assert(value_text(dv[k as int].1) is None);
                assert(!values_decode(dv));
                return Err(DumpError::UndecodableValue(id));
            },
        }
        k = k + 1;
    }
    assert(ids_known(fields@, dv));
    assert(values_decode(dv));
    let mut members = new_members();
    let bound: usize = if fields.len() < MAX_FIELDS {
        fields.len()
    } else {
        MAX_FIELDS
    };
    let mut id: usize = 0;
    assert(named(names, by_id(dv, 0)) =~= Seq::<(Seq<char>, Seq<u8>)>::empty());
    while id < bound
        invariant
            id <= bound,
            bound == id_bound(names),
            names == fields@,
            dv == doc.deep_view(),
            texts@.len() == doc@.len(),
            ids_known(names, dv),
            values_decode(dv),
            forall|j: int| 0 <= j < doc@.len() ==> Some((#[trigger] texts@[j])@) == value_text(dv[j].1),
            map_members(members) == collect_members(named(names, by_id(dv, id as nat))),
        decreases bound - id,
    {
        let mut j: usize = 0;
        assert(dv.take(0) =~= Seq::<(u16, Seq<u8>)>::empty());
        assert(by_id(dv, id as nat) + with_id(dv.take(0), id as int) =~= by_id(dv, id as nat));
        while j < doc.len()
            invariant
                id < bound,
                bound == id_bound(names),
                names == fields@,
                j <= doc@.len(),
                dv == doc.deep_view(),
                texts@.len() == doc@.len(),
                ids_known(names, dv),
                values_decode(dv),
                forall|i: int| 0 <= i < doc@.len() ==> Some((#[trigger] texts@[i])@) == value_text(dv[i].1),
                map_members(members) == collect_members(
                    named(names, by_id(dv, id as nat) + with_id(dv.take(j as int), id as int)),
                ),
            decreases doc@.len() - j,
        {
            let ghost before = by_id(dv, id as nat) + with_id(dv.take(j as int), id as int);
            assert(dv.take(j as int + 1).drop_last() =~= dv.take(j as int));
            assert(dv.take(j as int + 1).last() == dv[j as int]);
            if doc[j].0 as usize == id {
                let name = match fields.name(id as u16) {
                    Some(n) => n,
                    None => {
                        return Err(DumpError::UnknownFieldId(id as u16));
                    },
                };
                let text = texts[j].clone();
                proof {
                    lemma_bytes_deep_view(doc@[j as int].1);
                    let after = by_id(dv, id as nat) + with_id(dv.take(j as int + 1), id as int);
                    assert(dv[j as int].0 == doc@[j as int].0);
                    assert(after =~= before.push(dv[j as int]));
                    assert(named(names, after) =~= named(names, before).push((name@, text@)));
                    assert(named(names, after).drop_last() =~= named(names, before));
                }
                insert_member(&mut members, name, text);
            } else {
                proof {
                    assert(dv[j as int].0 == doc@[j as int].0);
                    assert(by_id(dv, id as nat) + with_id(dv.take(j as int + 1), id as int) =~= before);
                }
            }
            j = j + 1;
        }
        assert(dv.take(doc@.len() as int) =~= dv);
        assert(by_id(dv, (id + 1) as nat) == by_id(dv, id as nat) + with_id(dv, id as int));
        id = id + 1;
    }
    assert(bound == id_bound(names));
    let members = into_members(members);
    let mut line = write_object(&members);
    line.push(NEWLINE);
    Ok(line)
}

/// Appends `b` to `out`, consuming `b`.
fn append_owned(out: &mut Vec<u8>, b: Vec<u8>)
    ensures
        final(out)@ == old(out)@ + b@,
{
    append_bytes(out, &b);
}

impl Index {
    /// The document stream of the index: one JSON object per line, one line
    /// per stored document, in the stored order. Any corrupt document aborts
    /// the whole stream.
    pub fn dump_documents(&self) -> (r: Result<Vec<u8>, DumpError>)
        ensures
            r is Ok <==> documents_text(self.fields@, self.documents.deep_view()) is Some,
            r is Ok ==> Some(r->Ok_0@) == documents_text(self.fields@, self.documents.deep_view()),
            r is Err ==> r matches Err(DumpError::UnknownFieldId(_)) || r matches Err(
                DumpError::UndecodableValue(_),
            ),
    {
        let ghost docs = self.documents.deep_view();
        let mut out: Vec<u8> = Vec::new();
        let mut i: usize = 0;
        assert(docs.take(0) =~= Seq::<Seq<(u16, Seq<u8>)>>::empty());
        while i < self.documents.len()
            invariant
                i <= self.documents.len(),
                docs == self.documents.deep_view(),
                documents_text(self.fields@, docs.take(i as int)) == Some(out@),
            decreases self.documents.len() - i,
        {
            proof {
                assert(docs.take(i as int + 1).drop_last() =~= docs.take(i as int));
                assert(docs.take(i as int + 1).last() == docs[i as int]);
            }
            match dump_document(&self.fields, &self.documents[i]) {
                Ok(line) => {
                    append_owned(&mut out, line);
                },
                Err(e) => {
                    proof {
                        lemma_documents_text_prefix_none(self.fields@, docs, i as int + 1);
                    }
                    return Err(e);
                },
            }
            i = i + 1;
        }
        assert(docs.take(self.documents@.len() as int) =~= docs);
        Ok(out)
    }

    /// The meta record of the index: its settings, in raw form, and its
    /// primary key.
    pub fn dump_meta(&self) -> (r: Vec<u8>)
        ensures
            r@ == meta_text(
                MetaView { settings: self.settings@, primary_key: opt_view(self.primary_key) },
            ),
    {
        write_meta(&self.settings, &self.primary_key)
    }

    /// The snapshot of the index: the document stream and the meta record, both
    /// from this one view, under `indexes/<uid>`.
    pub fn dump(&self) -> (r: Result<Snapshot, DumpError>)
        ensures
            r is Ok <==> documents_text(self.fields@, self.documents.deep_view()) is Some,
            r is Ok ==> {
                &&& Some(r->Ok_0.documents@) == documents_text(
                    self.fields@,
                    self.documents.deep_view(),
                )
                &&& r->Ok_0.meta@ == meta_text(
                    MetaView { settings: self.settings@, primary_key: opt_view(self.primary_key) },
                )
                &&& r->Ok_0.dir@ == index_dir(self.uid@)
            },
            r is Err ==> r matches Err(DumpError::UnknownFieldId(_)) || r matches Err(
                DumpError::UndecodableValue(_),
            ),
    {
        let mut dir = String::from_str("indexes/");
        dir.append(self.uid.as_str());
        let documents = self.dump_documents()?;
        let meta = self.dump_meta();
        Ok(Snapshot { dir, meta, documents })
    }

    /// Reads a snapshot for restore: `name` is the base name of the snapshot's
    /// directory, `meta` its meta record and `lines` the lines of its document
    /// stream. The settings are validated, then the documents normalized;
    /// nothing is handed on to be written unless both succeed.
    pub fn load_dump(name: Option<String>, meta: &[u8], lines: &Vec<Vec<u8>>) -> (r: Result<
        Restore,
        DumpError,
    >)
        ensures
            name is None ==> r == Err::<Restore, DumpError>(DumpError::InvalidDumpPath),
            meta_of_text(meta@) is None ==> r is Err,
            normalized(lines.deep_view()) is None ==> r is Err,
            r is Ok ==> {
                let m = meta_of_text(meta@)->Some_0;
                let rs = r->Ok_0;
                &&& name is Some
                &&& rs.uid@ == name->Some_0@
                &&& rs.dir@ == index_dir(name->Some_0@)
                &&& meta_of_text(meta@) is Some
                &&& rs.settings@ == checked_view(m.settings)
                &&& is_checked(rs.settings@)
                &&& opt_view(rs.primary_key) == m.primary_key
                &&& match rs.documents {
                    Some(b) => b.wf() && b.contents().len() > 0 && normalized(lines.deep_view())
                        == Some(b.contents()),
                    None => normalized(lines.deep_view()) == Some(Contents::empty()),
                }
            },
            r is Err && name is Some && meta_of_text(meta@) is Some && normalized(lines.deep_view()) is Some
                ==> r == Err::<Restore, DumpError>(DumpError::TooManyFields),
            name is Some && meta_of_text(meta@) is Some && normalized(lines.deep_view()) is Some
                && all_names(normalized(lines.deep_view())->Some_0).len() <= MAX_FIELDS ==> r is Ok,
            name is Some && meta_of_text(meta@) is None ==> r matches Err(DumpError::MalformedMeta)
                || r matches Err(DumpError::UnknownSetting(_)) || r matches Err(
                DumpError::InvalidSetting(_),
            ),
            name is Some && meta_of_text(meta@) is Some && normalized(lines.deep_view()) is None
                ==> r matches Err(DumpError::MalformedLine(_)) || r matches Err(
                DumpError::TooManyFields,
            ),
            r matches Err(DumpError::MalformedLine(i)) ==> i < lines@.len() && normalized(
                lines.deep_view().take(i as int),
            ) is Some && normalized(lines.deep_view().take(i as int + 1)) is None,
            r matches Err(DumpError::TooManyFields) ==> exists|k: int|
                0 <= k <= lines@.len() && #[trigger] normalized(lines.deep_view().take(k)) is Some
                    && all_names(normalized(lines.deep_view().take(k))->Some_0).len() > MAX_FIELDS,
            name is Some && meta_of_text(meta@) is Some && (forall|i: int|
                0 <= i < lines@.len() ==> is_blank(#[trigger] lines.deep_view()[i])) ==> r is Ok
                && r->Ok_0.documents is None,
    {
        let uid = match name {
            Some(n) => n,
            None => {
                return Err(DumpError::InvalidDumpPath);
            },
        };
        let mut dir = String::from_str("indexes/");
        dir.append(uid.as_str());
        let dump_meta = match decode_meta(meta) {
            Ok(m) => m,
            Err(e) => {
                return Err(e);
            },
        };
        let settings = dump_meta.settings.check();
        let batch = match read_ndjson(lines) {
            Ok(b) => b,
            Err(e) => {
                proof {
                    let ls = lines.deep_view();
                    if let DumpError::MalformedLine(i) = e {
                        lemma_normalized_prefix_none(ls, i as int + 1);
                    }
                    if forall|i: int| 0 <= i < lines@.len() ==> is_blank(#[trigger] ls[i]) {
                        lemma_blank_stream_is_empty(ls);
                    }
                }
                return Err(e);
            },
        };
        proof {
            let ls = lines.deep_view();
            if forall|i: int| 0 <= i < lines@.len() ==> is_blank(#[trigger] ls[i]) {
                lemma_blank_stream_is_empty(ls);
            }
        }
        let documents = if batch.is_empty() {
            assert(batch.contents() =~= Contents::empty());
            None
        } else {
            Some(batch)
        };
        Ok(Restore { uid, dir, settings, primary_key: dump_meta.primary_key, documents })
    }

    /// The index that a restore leaves behind once its transaction commits.
    pub fn from_restore(restore: Restore) -> (r: Index)
        ensures
            is_checked(restore.settings@) ==> r.wf(),
            r.uid == restore.uid,
            r.settings@ == restore.settings@,
            r.primary_key == restore.primary_key,
            match restore.documents {
                Some(b) => r.fields == b.fields && r.documents == b.documents,
                None => r.fields@.len() == 0 && r.documents@.len() == 0,
            },
    {
        let (fields, documents) = match restore.documents {
            Some(b) => (b.fields, b.documents),
            None => (FieldsIdsMap::new(), Vec::new()),
        };
        Index {
            uid: restore.uid,
            fields,
            documents,
            settings: restore.settings,
            primary_key: restore.primary_key,
        }
    }
}

} // verus!
