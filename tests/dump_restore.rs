use index_dump::batch::{read_ndjson, split_lines};
use index_dump::documents::{decode_document, encode_document};
use index_dump::dump::{dump_document, Index};
use index_dump::env::{EnvFiles, EnvSizer};
use index_dump::error::DumpError;
use index_dump::fields::FieldsIdsMap;
use index_dump::http_error::{Code, MeilisearchHttpError};
use index_dump::meta::{decode_meta, encode_meta, DumpMeta};
use index_dump::settings::{Checked, Setting, Settings};
use index_dump::text::{write_object, write_string_list};

fn s(x: &str) -> String {
    x.to_string()
}

fn lines(text: &str) -> Vec<Vec<u8>> {
    split_lines(text.as_bytes())
}

fn plain_settings() -> Settings<Checked> {
    Settings::not_set().check()
}

fn sample_index() -> Index {
    let mut fields = FieldsIdsMap::new();
    let d1 = vec![(s("id"), b"1".to_vec()), (s("title"), b"\"a\"".to_vec())];
    let d2 = vec![(s("id"), b"2".to_vec()), (s("title"), b"\"b\"".to_vec())];
    let e1 = encode_document(&mut fields, &d1).unwrap();
    let e2 = encode_document(&mut fields, &d2).unwrap();
    Index {
        uid: s("movies"),
        fields,
        documents: vec![e1, e2],
        settings: plain_settings(),
        primary_key: Some(s("id")),
    }
}

#[test]
fn fields_ids_map_assigns_ids_in_order() {
    let mut m = FieldsIdsMap::new();
    assert_eq!(m.insert(&s("id")), Some(0));
    assert_eq!(m.insert(&s("title")), Some(1));
    assert_eq!(m.insert(&s("id")), Some(0));
    assert_eq!(m.len(), 2);
    assert_eq!(m.id(&s("title")), Some(1));
    assert_eq!(m.id(&s("genre")), None);
    assert_eq!(m.name(1), Some(s("title")));
    assert_eq!(m.name(2), None);
}

#[test]
fn encoded_document_decodes_to_its_members() {
    let mut m = FieldsIdsMap::new();
    m.insert(&s("title"));
    let doc = vec![(s("id"), b"7".to_vec()), (s("title"), b"\"x\"".to_vec())];
    let enc = encode_document(&mut m, &doc).unwrap();
    assert_eq!(enc, vec![(1u16, b"7".to_vec()), (0u16, b"\"x\"".to_vec())]);
    assert_eq!(decode_document(&m, &enc).unwrap(), doc);
}

#[test]
fn unknown_field_id_is_corruption() {
    let m = FieldsIdsMap::new();
    let doc = vec![(3u16, b"1".to_vec())];
    assert!(matches!(decode_document(&m, &doc), Err(DumpError::UnknownFieldId(3))));
    assert!(matches!(dump_document(&m, &doc), Err(DumpError::UnknownFieldId(3))));
}

#[test]
fn undecodable_value_is_corruption() {
    let mut m = FieldsIdsMap::new();
    m.insert(&s("id"));
    let doc = vec![(0u16, b"{not json".to_vec())];
    assert!(matches!(dump_document(&m, &doc), Err(DumpError::UndecodableValue(0))));
}

#[test]
fn dump_document_rewrites_values_compactly() {
    let mut m = FieldsIdsMap::new();
    m.insert(&s("id"));
    m.insert(&s("tags"));
    let doc = vec![(0u16, b" 1 ".to_vec()), (1u16, b"[ \"a\" , \"b\" ]".to_vec())];
    let line = dump_document(&m, &doc).unwrap();
    assert_eq!(String::from_utf8(line).unwrap(), "{\"id\":1,\"tags\":[\"a\",\"b\"]}\n");
}

#[test]
fn wildcard_lists_become_resets() {
    let raw = Settings::unchecked(
        Setting::Value(vec![s("*")]),
        Setting::Value(vec![s("title"), s("*")]),
        Setting::Value(vec![s("*")]),
        Setting::NotSet,
        Setting::Reset,
        Setting::Value(vec![s("the")]),
        Setting::NotSet,
        Setting::Value(s("id")),
    );
    let c = raw.check();
    assert!(matches!(c.displayed_attributes, Setting::Reset));
    assert!(matches!(c.searchable_attributes, Setting::Reset));
    assert!(matches!(c.filterable_attributes, Setting::Value(ref v) if v == &vec![s("*")]));
    assert!(matches!(c.ranking_rules, Setting::Reset));
    assert!(matches!(c.distinct_attribute, Setting::Value(ref d) if d == "id"));
    let again = c.into_unchecked().check();
    assert!(matches!(again.displayed_attributes, Setting::Reset));
    assert!(matches!(again.stop_words, Setting::Value(ref v) if v == &vec![s("the")]));
}

#[test]
fn meta_encodes_to_the_snapshot_layout() {
    let meta = DumpMeta {
        settings: Settings::unchecked(
            Setting::Value(vec![s("title")]),
            Setting::NotSet,
            Setting::NotSet,
            Setting::NotSet,
            Setting::Reset,
            Setting::NotSet,
            Setting::NotSet,
            Setting::NotSet,
        ),
        primary_key: Some(s("id")),
    };
    let text = String::from_utf8(encode_meta(&meta)).unwrap();
    assert_eq!(
        text,
        "{\"settings\":{\"displayedAttributes\":[\"title\"],\"rankingRules\":null},\"primaryKey\":\"id\"}"
    );
}

#[test]
fn meta_round_trips() {
    let meta = DumpMeta {
        settings: Settings::unchecked(
            Setting::Value(vec![s("title"), s("overview")]),
            Setting::Value(vec![s("title")]),
            Setting::Value(vec![s("genre")]),
            Setting::Value(vec![s("year")]),
            Setting::Value(vec![s("words"), s("typo")]),
            Setting::Reset,
            Setting::Value(vec![(s("car"), vec![s("auto"), s("vehicle")]), (s("tv"), vec![])]),
            Setting::Value(s("isbn")),
        ),
        primary_key: None,
    };
    let text = encode_meta(&meta);
    let back = decode_meta(&text).unwrap();
    assert_eq!(encode_meta(&back), text);
    assert!(back.primary_key.is_none());
    assert!(matches!(back.settings.stop_words, Setting::Reset));
    assert!(matches!(back.settings.distinct_attribute, Setting::Value(ref d) if d == "isbn"));
    assert!(
        matches!(back.settings.displayed_attributes, Setting::Value(ref v) if v == &vec![s("title"), s("overview")])
    );
}

#[test]
fn malformed_meta_is_rejected() {
    assert!(matches!(decode_meta(b"[1,2]"), Err(DumpError::MalformedMeta)));
    assert!(matches!(decode_meta(b"{\"primaryKey\":null}"), Err(DumpError::MalformedMeta)));
    assert!(matches!(decode_meta(b"{\"settings\":3}"), Err(DumpError::MalformedMeta)));
    assert!(matches!(
        decode_meta(b"{\"settings\":{\"colour\":[]}}"),
        Err(DumpError::UnknownSetting(ref k)) if k == "colour"
    ));
    assert!(matches!(
        decode_meta(b"{\"settings\":{\"stopWords\":\"x\"}}"),
        Err(DumpError::InvalidSetting(ref k)) if k == "stopWords"
    ));
    assert!(matches!(
        decode_meta(b"{\"settings\":{},\"primaryKey\":3}"),
        Err(DumpError::InvalidSetting(ref k)) if k == "primaryKey"
    ));
}

#[test]
fn empty_stream_gives_empty_batch() {
    let b = read_ndjson(&Vec::new()).unwrap();
    assert!(b.is_empty());
    let b = read_ndjson(&lines("\n  \n\t\n")).unwrap();
    assert_eq!(b.len(), 0);
}

#[test]
fn stream_keeps_document_order() {
    let b = read_ndjson(&lines("{\"id\":2,\"t\":\"b\"}\n\n{\"t\":\"a\",\"id\":1}\n")).unwrap();
    assert_eq!(b.len(), 2);
    assert_eq!(b.fields.names, vec![s("id"), s("t")]);
    assert_eq!(b.documents[0], vec![(0u16, b"2".to_vec()), (1u16, b"\"b\"".to_vec())]);
    assert_eq!(b.documents[1], vec![(1u16, b"\"a\"".to_vec()), (0u16, b"1".to_vec())]);
}

#[test]
fn malformed_line_fails_normalization() {
    assert!(matches!(read_ndjson(&lines("{\"id\":1}\n[1]\n{\"id\":2}")), Err(DumpError::MalformedLine(1))));
    assert!(matches!(read_ndjson(&lines("{\"id\":1")), Err(DumpError::MalformedLine(0))));
}

#[test]
fn dump_writes_meta_and_documents() {
    let index = sample_index();
    let snap = index.dump().unwrap();
    assert_eq!(snap.dir, "indexes/movies");
    assert_eq!(String::from_utf8(snap.meta).unwrap(), "{\"settings\":{},\"primaryKey\":\"id\"}");
    assert_eq!(
        String::from_utf8(snap.documents).unwrap(),
        "{\"id\":1,\"title\":\"a\"}\n{\"id\":2,\"title\":\"b\"}\n"
    );
}

#[test]
fn dump_of_no_documents_is_empty_stream() {
    let index = Index {
        uid: s("empty"),
        fields: FieldsIdsMap::new(),
        documents: Vec::new(),
        settings: plain_settings(),
        primary_key: None,
    };
    let snap = index.dump().unwrap();
    assert!(snap.documents.is_empty());
    let restore = Index::load_dump(Some(s("empty")), &snap.meta, &lines("")).unwrap();
    assert!(restore.documents.is_none());
    assert!(restore.primary_key.is_none());
}

#[test]
fn restore_then_dump_reproduces_snapshot() {
    let index = sample_index();
    let first = index.dump().unwrap();
    let text = String::from_utf8(first.documents.clone()).unwrap();
    let restore = Index::load_dump(Some(s("movies")), &first.meta, &lines(&text)).unwrap();
    assert_eq!(restore.dir, "indexes/movies");
    assert_eq!(restore.primary_key, Some(s("id")));
    assert_eq!(restore.documents.as_ref().unwrap().len(), 2);
    let again = Index::from_restore(restore).dump().unwrap();
    assert_eq!(again.meta, first.meta);
    assert_eq!(again.documents, first.documents);
}

#[test]
fn restore_fails_without_commit_on_bad_line() {
    let meta = b"{\"settings\":{\"displayedAttributes\":[\"*\"]},\"primaryKey\":\"id\"}";
    let r = Index::load_dump(Some(s("movies")), meta, &lines("{\"id\":1}\nnot json\n"));
    assert!(matches!(r, Err(DumpError::MalformedLine(1))));
}

#[test]
fn restore_checks_settings() {
    let meta = b"{\"settings\":{\"displayedAttributes\":[\"*\"],\"sortableAttributes\":[\"year\"]},\"primaryKey\":null}";
    let r = Index::load_dump(Some(s("movies")), meta, &lines("{\"id\":1}")).unwrap();
    assert!(matches!(r.settings.displayed_attributes, Setting::Reset));
    assert!(matches!(r.settings.sortable_attributes, Setting::Value(ref v) if v == &vec![s("year")]));
    assert!(r.primary_key.is_none());
}

#[test]
fn restore_needs_a_directory_name() {
    let r = Index::load_dump(None, b"{\"settings\":{}}", &Vec::new());
    assert!(matches!(r, Err(DumpError::InvalidDumpPath)));
    let r = Index::load_dump(Some(s("x")), b"nope", &Vec::new());
    assert!(matches!(r, Err(DumpError::MalformedMeta)));
}

#[test]
fn strings_are_escaped_by_json_rules() {
    let list = write_string_list(&vec![s("a\"b"), s("c\\d")]);
    assert_eq!(String::from_utf8(list).unwrap(), "[\"a\\\"b\",\"c\\\\d\"]");
    let obj = write_object(&vec![(s("k\n"), b"true".to_vec())]);
    assert_eq!(String::from_utf8(obj).unwrap(), "{\"k\\n\":true}");
}

#[test]
fn env_size_sums_regular_files() {
    let env = EnvFiles { entries: vec![(true, 10), (false, 4096), (true, 32)] };
    assert_eq!(env.size(), 42);
    let big = EnvFiles { entries: vec![(true, u64::MAX), (true, 1)] };
    assert_eq!(big.size(), u64::MAX);
}

#[test]
fn http_errors_have_codes_and_messages() {
    let missing = MeilisearchHttpError::MissingContentType;
    assert!(missing.error_code() == Code::MissingContentType);
    assert_eq!(
        missing.message(),
        "A Content-Type header is missing. Accepted values for the Content-Type header are: \"application/json\", \"application/x-ndjson\", \"text/csv\""
    );
    let invalid = MeilisearchHttpError::InvalidContentType(s("text/plain"));
    assert!(invalid.error_code() == Code::InvalidContentType);
    assert!(invalid.message().starts_with("The Content-Type \"text/plain\" is invalid. Accepted"));
}

#[test]
fn repeated_field_keeps_first_place_and_last_value() {
    let mut m = FieldsIdsMap::new();
    m.insert(&s("id"));
    m.insert(&s("title"));
    let doc = vec![(0u16, b"1".to_vec()), (1u16, b"\"a\"".to_vec()), (0u16, b"2".to_vec())];
    let line = dump_document(&m, &doc).unwrap();
    assert_eq!(String::from_utf8(line).unwrap(), "{\"id\":2,\"title\":\"a\"}\n");
}

#[test]
fn stream_is_cut_at_newlines() {
    assert_eq!(split_lines(b""), vec![Vec::<u8>::new()]);
    assert_eq!(split_lines(b"ab\n\ncd"), vec![b"ab".to_vec(), Vec::new(), b"cd".to_vec()]);
    assert_eq!(split_lines(b"x\n"), vec![b"x".to_vec(), Vec::new()]);
}

#[test]
fn dumped_members_follow_field_ids() {
    let mut m = FieldsIdsMap::new();
    m.insert(&s("id"));
    m.insert(&s("title"));
    let doc = vec![(1u16, b"\"a\"".to_vec()), (0u16, b"1".to_vec())];
    let line = dump_document(&m, &doc).unwrap();
    assert_eq!(String::from_utf8(line).unwrap(), "{\"id\":1,\"title\":\"a\"}\n");
}

#[test]
fn few_names_over_many_documents_restore() {
    let text: String = (0..70_000).map(|i| format!("{{\"id\":{}}}\n", i)).collect();
    let b = read_ndjson(&lines(&text)).unwrap();
    assert_eq!(b.len(), 70_000);
    assert_eq!(b.fields.len(), 1);
}

#[test]
fn synonyms_are_kept_in_the_meta_record() {
    let text = b"{\"settings\":{\"synonyms\":{\"tv\":[\"television\"],\"car\":[\"auto\"]}},\"primaryKey\":null}";
    let meta = decode_meta(text).unwrap();
    assert!(matches!(
        meta.settings.synonyms,
        Setting::Value(ref v) if v == &vec![(s("tv"), vec![s("television")]), (s("car"), vec![s("auto")])]
    ));
    assert_eq!(encode_meta(&meta), text.to_vec());
    let reset = decode_meta(b"{\"settings\":{\"synonyms\":null}}").unwrap();
    assert!(matches!(reset.settings.synonyms, Setting::Reset));
    assert!(matches!(
        decode_meta(b"{\"settings\":{\"synonyms\":[1]}}"),
        Err(DumpError::InvalidSetting(ref k)) if k == "synonyms"
    ));
}

#[test]
fn check_gives_each_synonym_word_once() {
    let raw = Settings::unchecked(
        Setting::NotSet,
        Setting::NotSet,
        Setting::NotSet,
        Setting::NotSet,
        Setting::NotSet,
        Setting::NotSet,
        Setting::Value(vec![
            (s("a"), vec![s("x")]),
            (s("b"), vec![s("y")]),
            (s("a"), vec![s("z")]),
        ]),
        Setting::NotSet,
    );
    let c = raw.check();
    assert!(matches!(
        c.synonyms,
        Setting::Value(ref v) if v == &vec![(s("a"), vec![s("z")]), (s("b"), vec![s("y")])]
    ));
    let index = Index {
        uid: s("syn"),
        fields: FieldsIdsMap::new(),
        documents: Vec::new(),
        settings: c,
        primary_key: None,
    };
    let first = index.dump().unwrap();
    let restore = Index::load_dump(Some(s("syn")), &first.meta, &lines("")).unwrap();
    let again = Index::from_restore(restore).dump().unwrap();
    assert_eq!(again.meta, first.meta);
}
