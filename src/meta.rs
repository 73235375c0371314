use vstd::prelude::*;

use crate::error::DumpError;
use crate::json::{
    lemma_bytes_deep_view, object_entries, opt_string_of, parse_object, parse_opt_string,
    parse_string_list, parse_synonyms, quote, quoted, string_list_of, synonyms_of,
};
use crate::settings::{list_view, synonyms_view, text_view, Setting, Settings, SettingsView, Unchecked};
use crate::text::{list_text, object_text, write_object, write_string_list};

verus! {

/// The value of one member of the meta record's settings object.
pub enum Member<S, L, M> {
    Null,
    Text(S),
    List(L),
    Lists(M),
}

pub type MemberView = Member<Seq<char>, Seq<Seq<char>>, Seq<(Seq<char>, Seq<Seq<char>>)>>;

pub open spec fn displayed_key() -> Seq<char> {
    "displayedAttributes"@
}

pub open spec fn searchable_key() -> Seq<char> {
    "searchableAttributes"@
}

pub open spec fn filterable_key() -> Seq<char> {
    "filterableAttributes"@
}

pub open spec fn sortable_key() -> Seq<char> {
    "sortableAttributes"@
}

pub open spec fn ranking_key() -> Seq<char> {
    "rankingRules"@
}

pub open spec fn stop_words_key() -> Seq<char> {
    "stopWords"@
}

pub open spec fn synonyms_key() -> Seq<char> {
    "synonyms"@
}

pub open spec fn distinct_key() -> Seq<char> {
    "distinctAttribute"@
}

/// The names of the options that hold a list of strings.
pub open spec fn is_list_key(k: Seq<char>) -> bool {
    k == displayed_key() || k == searchable_key() || k == filterable_key() || k == sortable_key()
        || k == ranking_key() || k == stop_words_key()
}

pub open spec fn is_setting_key(k: Seq<char>) -> bool {
    is_list_key(k) || k == synonyms_key() || k == distinct_key()
}

/// Settings that change nothing.
pub open spec fn nothing_set() -> SettingsView {
    SettingsView {
        displayed_attributes: Setting::NotSet,
        searchable_attributes: Setting::NotSet,
        filterable_attributes: Setting::NotSet,
        sortable_attributes: Setting::NotSet,
        ranking_rules: Setting::NotSet,
        stop_words: Setting::NotSet,
        synonyms: Setting::NotSet,
        distinct_attribute: Setting::NotSet,
    }
}

/// The member that stands for a list option: none where it is not set, null
/// for a reset.
pub open spec fn list_member(s: Setting<Seq<Seq<char>>>) -> Option<MemberView> {
    match s {
        Setting::Value(l) => Some(Member::List(l)),
        Setting::Reset => Some(Member::Null),
        Setting::NotSet => None,
    }
}

pub open spec fn lists_member(s: Setting<Seq<(Seq<char>, Seq<Seq<char>>)>>) -> Option<MemberView> {
    match s {
        Setting::Value(m) => Some(Member::Lists(m)),
        Setting::Reset => Some(Member::Null),
        Setting::NotSet => None,
    }
}

pub open spec fn text_member(s: Setting<Seq<char>>) -> Option<MemberView> {
    match s {
        Setting::Value(t) => Some(Member::Text(t)),
        Setting::Reset => Some(Member::Null),
        Setting::NotSet => None,
    }
}

pub open spec fn push_member(
    ms: Seq<(Seq<char>, MemberView)>,
    k: Seq<char>,
    m: Option<MemberView>,
) -> Seq<(Seq<char>, MemberView)> {
    match m {
        Some(v) => ms.push((k, v)),
        None => ms,
    }
}

/// The members of the settings object that stands for `s`, in a fixed order.
pub open spec fn settings_members(s: SettingsView) -> Seq<(Seq<char>, MemberView)> {
    let m0 = push_member(Seq::empty(), displayed_key(), list_member(s.displayed_attributes));
    let m1 = push_member(m0, searchable_key(), list_member(s.searchable_attributes));
    let m2 = push_member(m1, filterable_key(), list_member(s.filterable_attributes));
    let m3 = push_member(m2, sortable_key(), list_member(s.sortable_attributes));
    let m4 = push_member(m3, ranking_key(), list_member(s.ranking_rules));
    let m5 = push_member(m4, stop_words_key(), list_member(s.stop_words));
    let m6 = push_member(m5, synonyms_key(), lists_member(s.synonyms));
    push_member(m6, distinct_key(), text_member(s.distinct_attribute))
}

pub open spec fn as_list(v: MemberView) -> Option<Setting<Seq<Seq<char>>>> {
    match v {
        Member::Null => Some(Setting::Reset),
        Member::List(l) => Some(Setting::Value(l)),
        _ => None,
    }
}

pub open spec fn as_lists(v: MemberView) -> Option<Setting<Seq<(Seq<char>, Seq<Seq<char>>)>>> {
    match v {
        Member::Null => Some(Setting::Reset),
        Member::Lists(m) => Some(Setting::Value(m)),
        _ => None,
    }
}

pub open spec fn as_text(v: MemberView) -> Option<Setting<Seq<char>>> {
    match v {
        Member::Null => Some(Setting::Reset),
        Member::Text(t) => Some(Setting::Value(t)),
        _ => None,
    }
}

/// `s` with the option that member `m` names set from it; `None` where the
/// member names no option or its value has the wrong shape.
pub open spec fn apply_member(s: SettingsView, m: (Seq<char>, MemberView)) -> Option<SettingsView> {
    if m.0 == displayed_key() {
        match as_list(m.1) {
            Some(x) => Some(SettingsView { displayed_attributes: x, ..s }),
            None => None,
        }
    } else if m.0 == searchable_key() {
        match as_list(m.1) {
            Some(x) => Some(SettingsView { searchable_attributes: x, ..s }),
            None => None,
        }
    } else if m.0 == filterable_key() {
        match as_list(m.1) {
            Some(x) => Some(SettingsView { filterable_attributes: x, ..s }),
            None => None,
        }
    } else if m.0 == sortable_key() {
        match as_list(m.1) {
            Some(x) => Some(SettingsView { sortable_attributes: x, ..s }),
            None => None,
        }
    } else if m.0 == ranking_key() {
        match as_list(m.1) {
            Some(x) => Some(SettingsView { ranking_rules: x, ..s }),
            None => None,
        }
    } else if m.0 == stop_words_key() {
        match as_list(m.1) {
            Some(x) => Some(SettingsView { stop_words: x, ..s }),
            None => None,
        }
    } else if m.0 == synonyms_key() {
        match as_lists(m.1) {
            Some(x) => Some(SettingsView { synonyms: x, ..s }),
            None => None,
        }
    } else if m.0 == distinct_key() {
        match as_text(m.1) {
            Some(x) => Some(SettingsView { distinct_attribute: x, ..s }),
            None => None,
        }
    } else {
        None
    }
}

/// The settings that a settings object with members `ms` stands for, the
/// members applied in order to settings that change nothing.
pub open spec fn settings_of_members(ms: Seq<(Seq<char>, MemberView)>) -> Option<SettingsView>
    decreases ms.len(),
{
    if ms.len() == 0 {
        Some(nothing_set())
    } else {
        match settings_of_members(ms.drop_last()) {
            Some(s) => apply_member(s, ms.last()),
            None => None,
        }
    }
}

proof fn lemma_push_member(ms: Seq<(Seq<char>, MemberView)>, k: Seq<char>, m: Option<MemberView>)
    ensures
        settings_of_members(push_member(ms, k, m)) == match m {
            Some(v) => match settings_of_members(ms) {
                Some(s) => apply_member(s, (k, v)),
                None => None,
            },
            None => settings_of_members(ms),
        },
{
    if let Some(v) = m {
        assert(ms.push((k, v)).drop_last() =~= ms);
    }
}

proof fn lemma_keys_distinct()
    ensures
        displayed_key() != searchable_key(),
        displayed_key() != filterable_key(),
        displayed_key() != sortable_key(),
        displayed_key() != ranking_key(),
        displayed_key() != stop_words_key(),
        displayed_key() != distinct_key(),
        searchable_key() != filterable_key(),
        searchable_key() != sortable_key(),
        searchable_key() != ranking_key(),
        searchable_key() != stop_words_key(),
        searchable_key() != distinct_key(),
        filterable_key() != sortable_key(),
        filterable_key() != ranking_key(),
        filterable_key() != stop_words_key(),
        filterable_key() != distinct_key(),
        sortable_key() != ranking_key(),
        sortable_key() != stop_words_key(),
        sortable_key() != distinct_key(),
        ranking_key() != stop_words_key(),
        ranking_key() != distinct_key(),
        stop_words_key() != distinct_key(),
        synonyms_key() != displayed_key(),
        synonyms_key() != searchable_key(),
        synonyms_key() != filterable_key(),
        synonyms_key() != sortable_key(),
        synonyms_key() != ranking_key(),
        synonyms_key() != stop_words_key(),
        synonyms_key() != distinct_key(),
{
    reveal_strlit("synonyms");
    reveal_strlit("displayedAttributes");
    reveal_strlit("searchableAttributes");
    reveal_strlit("filterableAttributes");
    reveal_strlit("sortableAttributes");
    reveal_strlit("rankingRules");
    reveal_strlit("stopWords");
    reveal_strlit("distinctAttribute");
    assert(displayed_key().len() != searchable_key().len());
    assert(displayed_key()[0] != filterable_key()[0]);
    assert(displayed_key()[0] != sortable_key()[0]);
    assert(displayed_key()[0] != ranking_key()[0]);
    assert(displayed_key()[0] != stop_words_key()[0]);
    assert(displayed_key()[3] != distinct_key()[3]);
    assert(searchable_key()[0] != filterable_key()[0]);
    assert(searchable_key()[1] != sortable_key()[1]);
    assert(searchable_key()[0] != ranking_key()[0]);
    assert(searchable_key()[1] != stop_words_key()[1]);
    assert(searchable_key()[0] != distinct_key()[0]);
    assert(filterable_key()[0] != sortable_key()[0]);
    assert(filterable_key()[0] != ranking_key()[0]);
    assert(filterable_key()[0] != stop_words_key()[0]);
    assert(filterable_key()[0] != distinct_key()[0]);
    assert(sortable_key()[0] != ranking_key()[0]);
    assert(sortable_key()[1] != stop_words_key()[1]);
    assert(sortable_key()[0] != distinct_key()[0]);
    assert(ranking_key()[0] != stop_words_key()[0]);
    assert(ranking_key()[0] != distinct_key()[0]);
    assert(stop_words_key()[0] != distinct_key()[0]);
    assert(synonyms_key()[0] != displayed_key()[0]);
    assert(synonyms_key()[1] != searchable_key()[1]);
    assert(synonyms_key()[0] != filterable_key()[0]);
    assert(synonyms_key()[1] != sortable_key()[1]);
    assert(synonyms_key()[0] != ranking_key()[0]);
    assert(synonyms_key()[1] != stop_words_key()[1]);
    assert(synonyms_key()[0] != distinct_key()[0]);
}

/// Writing settings as the members of the meta record's settings object and
/// reading those members back gives the same settings.
pub proof fn lemma_settings_members_round_trip(s: SettingsView)
    ensures
        settings_of_members(settings_members(s)) == Some(s),
{
    lemma_keys_distinct();
    let m0 = push_member(Seq::empty(), displayed_key(), list_member(s.displayed_attributes));
    let m1 = push_member(m0, searchable_key(), list_member(s.searchable_attributes));
    let m2 = push_member(m1, filterable_key(), list_member(s.filterable_attributes));
    let m3 = push_member(m2, sortable_key(), list_member(s.sortable_attributes));
    let m4 = push_member(m3, ranking_key(), list_member(s.ranking_rules));
    let m5 = push_member(m4, stop_words_key(), list_member(s.stop_words));
    lemma_push_member(Seq::empty(), displayed_key(), list_member(s.displayed_attributes));
    lemma_push_member(m0, searchable_key(), list_member(s.searchable_attributes));
    lemma_push_member(m1, filterable_key(), list_member(s.filterable_attributes));
    lemma_push_member(m2, sortable_key(), list_member(s.sortable_attributes));
    lemma_push_member(m3, ranking_key(), list_member(s.ranking_rules));
    let m6 = push_member(m5, synonyms_key(), lists_member(s.synonyms));
    lemma_push_member(m4, stop_words_key(), list_member(s.stop_words));
    lemma_push_member(m5, synonyms_key(), lists_member(s.synonyms));
    lemma_push_member(m6, distinct_key(), text_member(s.distinct_attribute));
}


/// The snapshot's meta record: the index's settings, in raw form, and its
/// primary key.
pub struct DumpMeta {
    pub settings: Settings<Unchecked>,
    pub primary_key: Option<String>,
}

pub ghost struct MetaView {
    pub settings: SettingsView,
    pub primary_key: Option<Seq<char>>,
}

impl View for DumpMeta {
    type V = MetaView;

    open spec fn view(&self) -> MetaView {
        MetaView {
            settings: self.settings@,
            primary_key: match self.primary_key {
                Some(k) => Some(k@),
                None => None,
            },
        }
    }
}

pub open spec fn settings_name() -> Seq<char> {
    "settings"@
}

pub open spec fn primary_key_name() -> Seq<char> {
    "primaryKey"@
}

/// The JSON text `null`.
pub open spec fn null_text() -> Seq<u8> {
    seq![110u8, 117u8, 108u8, 108u8]
}

pub open spec fn member_value_text(v: MemberView) -> Seq<u8> {
    match v {
        Member::Null => null_text(),
        Member::Text(t) => quoted(t),
        Member::List(l) => list_text(l),
        Member::Lists(m) => object_text(lists_texts(m)),
    }
}

/// The members of a JSON object whose values are lists of strings.
pub open spec fn lists_texts(m: Seq<(Seq<char>, Seq<Seq<char>>)>) -> Seq<(Seq<char>, Seq<u8>)> {
    m.map_values(|e: (Seq<char>, Seq<Seq<char>>)| (e.0, list_text(e.1)))
}

pub open spec fn member_texts(ms: Seq<(Seq<char>, MemberView)>) -> Seq<(Seq<char>, Seq<u8>)> {
    ms.map_values(|m: (Seq<char>, MemberView)| (m.0, member_value_text(m.1)))
}

/// The settings object of the meta record.
pub open spec fn settings_text(s: SettingsView) -> Seq<u8> {
    object_text(member_texts(settings_members(s)))
}

pub open spec fn primary_key_text(pk: Option<Seq<char>>) -> Seq<u8> {
    match pk {
        Some(k) => quoted(k),
        None => null_text(),
    }
}

/// The meta record: `{"settings":<settings>,"primaryKey":<string or null>}`.
pub open spec fn meta_text(m: MetaView) -> Seq<u8> {
    object_text(
        seq![
            (settings_name(), settings_text(m.settings)),
            (primary_key_name(), primary_key_text(m.primary_key)),
        ],
    )
}

/// How the text of a settings member is read, by the option it names.
pub open spec fn member_of_text(k: Seq<char>, t: Seq<u8>) -> Option<MemberView> {
    if is_list_key(k) {
        match string_list_of(t) {
            Some(Some(l)) => Some(Member::List(l)),
            Some(None) => Some(Member::Null),
            None => None,
        }
    } else if k == synonyms_key() {
        match synonyms_of(t) {
            Some(Some(m)) => Some(Member::Lists(m)),
            Some(None) => Some(Member::Null),
            None => None,
        }
    } else if k == distinct_key() {
        match opt_string_of(t) {
            Some(Some(x)) => Some(Member::Text(x)),
            Some(None) => Some(Member::Null),
            None => None,
        }
    } else {
        None
    }
}

/// The settings that the members of a settings object stand for.
pub open spec fn read_members(es: Seq<(Seq<char>, Seq<u8>)>) -> Option<SettingsView>
    decreases es.len(),
{
    if es.len() == 0 {
        Some(nothing_set())
    } else {
        match read_members(es.drop_last()) {
            Some(s) => match member_of_text(es.last().0, es.last().1) {
                Some(v) => apply_member(s, (es.last().0, v)),
                None => None,
            },
            None => None,
        }
    }
}

/// The value text of the last member named `k`.
pub open spec fn find_member(es: Seq<(Seq<char>, Seq<u8>)>, k: Seq<char>) -> Option<Seq<u8>>
    decreases es.len(),
{
    if es.len() == 0 {
        None
    } else if es.last().0 == k {
        Some(es.last().1)
    } else {
        find_member(es.drop_last(), k)
    }
}

/// The meta record that `b` holds, if any.
pub open spec fn meta_of_text(b: Seq<u8>) -> Option<MetaView> {
    match object_entries(b) {
        None => None,
        Some(top) => match find_member(top, settings_name()) {
            None => None,
            Some(st) => match object_entries(st) {
                None => None,
                Some(es) => match read_members(es) {
                    None => None,
                    Some(s) => match find_member(top, primary_key_name()) {
                        None => Some(MetaView { settings: s, primary_key: None }),
                        Some(pt) => match opt_string_of(pt) {
                            Some(pk) => Some(MetaView { settings: s, primary_key: pk }),
                            None => None,
                        },
                    },
                },
            },
        },
    }
}

fn null_bytes() -> (r: Vec<u8>)
    ensures
        r@ == null_text(),
{
    let r: Vec<u8> = vec![110u8, 117u8, 108u8, 108u8];
    assert(r@ =~= null_text());
    r
}

fn push_list_member(
    out: &mut Vec<(String, Vec<u8>)>,
    key: &str,
    s: &Setting<Vec<String>>,
    Ghost(ms): Ghost<Seq<(Seq<char>, MemberView)>>,
)
    requires
        old(out).deep_view() == member_texts(ms),
    ensures
        final(out).deep_view() == member_texts(push_member(ms, key@, list_member(list_view(*s)))),
{
    let v = match s {
        Setting::Value(l) => Some(write_string_list(l)),
        Setting::Reset => Some(null_bytes()),
        Setting::NotSet => None,
    };
    if let Some(t) = v {
        let ghost prev = out.deep_view();
        proof {
            lemma_bytes_deep_view(t);
        }
        out.push((key.to_string(), t));
        let ghost m = (key@, list_member(list_view(*s))->Some_0);
        assert(out.deep_view() =~= prev.push((key@, t@)));
        assert(member_texts(ms.push(m)) =~= member_texts(ms).push((m.0, member_value_text(m.1))));
    }
}

fn push_text_member(
    out: &mut Vec<(String, Vec<u8>)>,
    key: &str,
    s: &Setting<String>,
    Ghost(ms): Ghost<Seq<(Seq<char>, MemberView)>>,
)
    requires
        old(out).deep_view() == member_texts(ms),
    ensures
        final(out).deep_view() == member_texts(push_member(ms, key@, text_member(text_view(*s)))),
{
    let v = match s {
        Setting::Value(x) => Some(quote(x.as_str())),
        Setting::Reset => Some(null_bytes()),
        Setting::NotSet => None,
    };
    if let Some(t) = v {
        let ghost prev = out.deep_view();
        proof {
            lemma_bytes_deep_view(t);
        }
        out.push((key.to_string(), t));
        let ghost m = (key@, text_member(text_view(*s))->Some_0);
        assert(out.deep_view() =~= prev.push((key@, t@)));
        assert(member_texts(ms.push(m)) =~= member_texts(ms).push((m.0, member_value_text(m.1))));
    }
}

fn write_lists(m: &Vec<(String, Vec<String>)>) -> (r: Vec<u8>)
    ensures
        r@ == object_text(lists_texts(m.deep_view())),
{
    let mut members: Vec<(String, Vec<u8>)> = Vec::new();
    let mut i: usize = 0;
    while i < m.len()
        invariant
            i <= m.len(),
            members.deep_view() == lists_texts(m.deep_view().take(i as int)),
        decreases m.len() - i,
    {
        let t = write_string_list(&m[i].1);
        let ghost prev = members.deep_view();
        proof {
            lemma_bytes_deep_view(t);
        }
        members.push((m[i].0.clone(), t));
        assert(members.deep_view() =~= prev.push((m@[i as int].0@, t@)));
        assert(lists_texts(m.deep_view().take(i as int + 1)) =~= lists_texts(
            m.deep_view().take(i as int),
        ).push((m@[i as int].0@, t@)));
        i = i + 1;
    }
    assert(m.deep_view().take(m@.len() as int) =~= m.deep_view());
    write_object(&members)
}

fn push_lists_member(
    out: &mut Vec<(String, Vec<u8>)>,
    key: &str,
    s: &Setting<Vec<(String, Vec<String>)>>,
    Ghost(ms): Ghost<Seq<(Seq<char>, MemberView)>>,
)
    requires
        old(out).deep_view() == member_texts(ms),
    ensures
        final(out).deep_view() == member_texts(push_member(ms, key@, lists_member(synonyms_view(*s)))),
{
    let v = match s {
        Setting::Value(m) => Some(write_lists(m)),
        Setting::Reset => Some(null_bytes()),
        Setting::NotSet => None,
    };
    if let Some(t) = v {
        let ghost prev = out.deep_view();
        proof {
            lemma_bytes_deep_view(t);
        }
        out.push((key.to_string(), t));
        let ghost m = (key@, lists_member(synonyms_view(*s))->Some_0);
        assert(out.deep_view() =~= prev.push((key@, t@)));
        assert(member_texts(ms.push(m)) =~= member_texts(ms).push((m.0, member_value_text(m.1))));
    }
}

/// The settings object of the meta record.
pub fn encode_settings<T>(settings: &Settings<T>) -> (r: Vec<u8>)
    ensures
        r@ == settings_text(settings@),
{
    let ghost s = settings@;
    let mut out: Vec<(String, Vec<u8>)> = Vec::new();
    let ghost m0 = push_member(Seq::empty(), displayed_key(), list_member(s.displayed_attributes));
    let ghost m1 = push_member(m0, searchable_key(), list_member(s.searchable_attributes));
    let ghost m2 = push_member(m1, filterable_key(), list_member(s.filterable_attributes));
    let ghost m3 = push_member(m2, sortable_key(), list_member(s.sortable_attributes));
    let ghost m4 = push_member(m3, ranking_key(), list_member(s.ranking_rules));
    let ghost m5 = push_member(m4, stop_words_key(), list_member(s.stop_words));
    let ghost m6 = push_member(m5, synonyms_key(), lists_member(s.synonyms));
    assert(out.deep_view() =~= member_texts(Seq::empty()));
    push_list_member(&mut out, "displayedAttributes", &settings.displayed_attributes, Ghost(Seq::empty()));
    push_list_member(&mut out, "searchableAttributes", &settings.searchable_attributes, Ghost(m0));
    push_list_member(&mut out, "filterableAttributes", &settings.filterable_attributes, Ghost(m1));
    push_list_member(&mut out, "sortableAttributes", &settings.sortable_attributes, Ghost(m2));
    push_list_member(&mut out, "rankingRules", &settings.ranking_rules, Ghost(m3));
    push_list_member(&mut out, "stopWords", &settings.stop_words, Ghost(m4));
    push_lists_member(&mut out, "synonyms", &settings.synonyms, Ghost(m5));
    push_text_member(&mut out, "distinctAttribute", &settings.distinct_attribute, Ghost(m6));
    write_object(&out)
}

/// The meta record's JSON text for these settings and primary key.
pub fn write_meta<T>(settings: &Settings<T>, primary_key: &Option<String>) -> (r: Vec<u8>)
    ensures
        r@ == meta_text(
            MetaView {
                settings: settings@,
                primary_key: match primary_key {
                    Some(k) => Some(k@),
                    None => None,
                },
            },
        ),
{
    let ghost m = MetaView {
        settings: settings@,
        primary_key: match primary_key {
            Some(k) => Some(k@),
            None => None,
        },
    };
    let settings = encode_settings(settings);
    let pk = match primary_key {
        Some(k) => quote(k.as_str()),
        None => null_bytes(),
    };
    let mut top: Vec<(String, Vec<u8>)> = Vec::new();
    proof {
        lemma_bytes_deep_view(settings);
        lemma_bytes_deep_view(pk);
    }
    top.push(("settings".to_string(), settings));
    top.push(("primaryKey".to_string(), pk));
    assert(top.deep_view() =~= seq![
        (settings_name(), settings_text(m.settings)),
        (primary_key_name(), primary_key_text(m.primary_key)),
    ]);
    write_object(&top)
}

/// The meta record's JSON text.
pub fn encode_meta(meta: &DumpMeta) -> (r: Vec<u8>)
    ensures
        r@ == meta_text(meta@),
{
    write_meta(&meta.settings, &meta.primary_key)
}

proof fn lemma_read_members_prefix_none(es: Seq<(Seq<char>, Seq<u8>)>, k: int)
    requires
        0 <= k <= es.len(),
        read_members(es.take(k)) is None,
    ensures
        read_members(es) is None,
    decreases es.len() - k,
{
    if k < es.len() {
        assert(es.take(k + 1).drop_last() =~= es.take(k));
        lemma_read_members_prefix_none(es, k + 1);
    } else {
        assert(es.take(k) =~= es);
    }
}

/// The position of the last member named `key`.
fn find_in(es: &Vec<(String, Vec<u8>)>, key: &String) -> (r: Option<usize>)
    ensures
        match r {
            Some(i) => i < es@.len() && find_member(es.deep_view(), key@) == Some(
                es.deep_view()[i as int].1,
            ),
            None => find_member(es.deep_view(), key@) is None,
        },
{
    let ghost dv = es.deep_view();
    let mut found: Option<usize> = None;
    let mut i: usize = 0;
    while i < es.len()
        invariant
            i <= es.len(),
            dv == es.deep_view(),
            match found {
                Some(j) => j < i && find_member(dv.take(i as int), key@) == Some(dv[j as int].1),
                None => find_member(dv.take(i as int), key@) is None,
            },
        decreases es.len() - i,
    {
        assert(dv.take(i as int + 1).drop_last() =~= dv.take(i as int));
        if es[i].0 == *key {
            found = Some(i);
        }
        i = i + 1;
    }
    assert(dv.take(es@.len() as int) =~= dv);
    found
}

/// Which option a settings member names: its position in the record's order,
/// or 8 for a name that is no option.
fn key_index(name: &String) -> (r: u8)
    ensures
        r <= 8,
        r == 0 <==> name@ == displayed_key(),
        r == 1 <==> name@ == searchable_key(),
        r == 2 <==> name@ == filterable_key(),
        r == 3 <==> name@ == sortable_key(),
        r == 4 <==> name@ == ranking_key(),
        r == 5 <==> name@ == stop_words_key(),
        r == 6 <==> name@ == synonyms_key(),
        r == 7 <==> name@ == distinct_key(),
{
    proof {
        lemma_keys_distinct();
    }
    if *name == String::from_str("displayedAttributes") {
        0
    } else if *name == String::from_str("searchableAttributes") {
        1
    } else if *name == String::from_str("filterableAttributes") {
        2
    } else if *name == String::from_str("sortableAttributes") {
        3
    } else if *name == String::from_str("rankingRules") {
        4
    } else if *name == String::from_str("stopWords") {
        5
    } else if *name == String::from_str("synonyms") {
        6
    } else if *name == String::from_str("distinctAttribute") {
        7
    } else {
        8
    }
}

/// Reads the members of the meta record's settings object, in order, into
/// raw settings.
pub fn read_settings(es: &Vec<(String, Vec<u8>)>) -> (r: Result<Settings<Unchecked>, DumpError>)
    ensures
        r is Ok <==> read_members(es.deep_view()) is Some,
        r is Ok ==> Some(r->Ok_0@) == read_members(es.deep_view()),
        r matches Err(DumpError::UnknownSetting(k)) ==> !is_setting_key(k@),
        r matches Err(DumpError::InvalidSetting(k)) ==> is_setting_key(k@),
        r is Err ==> r matches Err(DumpError::UnknownSetting(_)) || r matches Err(
            DumpError::InvalidSetting(_),
        ),
{
    proof {
        lemma_keys_distinct();
    }
    let ghost dv = es.deep_view();
    let mut st = Settings::not_set();
    let mut i: usize = 0;
    while i < es.len()
        invariant
            i <= es.len(),
            dv == es.deep_view(),
            read_members(dv.take(i as int)) == Some(st@),
        decreases es.len() - i,
    {
        let ghost t = dv.take(i as int + 1);
        proof {
            assert(t.drop_last() =~= dv.take(i as int));
            lemma_bytes_deep_view(es@[i as int].1);
            assert(t.last() == (es@[i as int].0@, es@[i as int].1@));
        }
        let name = &es[i].0;
        let bytes = es[i].1.as_slice();
        let idx = key_index(name);
        if idx == 8 {
            proof {
                lemma_read_members_prefix_none(dv, i as int + 1);
            }
            return Err(DumpError::UnknownSetting(name.clone()));
        } else if idx == 6 {
            match parse_synonyms(bytes) {
                Ok(Some(m)) => {
                    st.synonyms = Setting::Value(m);
                },
                Ok(None) => {
                    st.synonyms = Setting::Reset;
                },
                Err(_) => {
                    proof {
                        lemma_read_members_prefix_none(dv, i as int + 1);
                    }
                    return Err(DumpError::InvalidSetting(name.clone()));
                },
            }
        } else if idx == 7 {
            match parse_opt_string(bytes) {
                Ok(Some(x)) => {
                    st.distinct_attribute = Setting::Value(x);
                },
                Ok(None) => {
                    st.distinct_attribute = Setting::Reset;
                },
                Err(_) => {
                    proof {
                        lemma_read_members_prefix_none(dv, i as int + 1);
                    }
                    return Err(DumpError::InvalidSetting(name.clone()));
                },
            }
        } else {
            let value = match parse_string_list(bytes) {
                Ok(Some(l)) => Setting::Value(l),
                Ok(None) => Setting::Reset,
                Err(_) => {
                    proof {
                        lemma_read_members_prefix_none(dv, i as int + 1);
                    }
                    return Err(DumpError::InvalidSetting(name.clone()));
                },
            };
            if idx == 0 {
                st.displayed_attributes = value;
            } else if idx == 1 {
                st.searchable_attributes = value;
            } else if idx == 2 {
                st.filterable_attributes = value;
            } else if idx == 3 {
                st.sortable_attributes = value;
            } else if idx == 4 {
                st.ranking_rules = value;
            } else {
                st.stop_words = value;
            }
        }
        i = i + 1;
    }
    assert(dv.take(es@.len() as int) =~= dv);
    Ok(st)
}

/// Reads a meta record. A record that is no JSON object, or whose settings
/// member is missing or no object, is malformed.
pub fn decode_meta(b: &[u8]) -> (r: Result<DumpMeta, DumpError>)
    ensures
        r is Ok <==> meta_of_text(b@) is Some,
        r is Ok ==> Some(r->Ok_0@) == meta_of_text(b@),
        r is Err ==> r matches Err(DumpError::MalformedMeta) || r matches Err(
            DumpError::UnknownSetting(_),
        ) || r matches Err(DumpError::InvalidSetting(_)),
{
    let top = match parse_object(b) {
        Ok(top) => top,
        Err(_) => {
            return Err(DumpError::MalformedMeta);
        },
    };
    let settings_at = match find_in(&top, &String::from_str("settings")) {
        Some(i) => i,
        None => {
            return Err(DumpError::MalformedMeta);
        },
    };
    proof {
        lemma_bytes_deep_view(top@[settings_at as int].1);
    }
    let members = match parse_object(top[settings_at].1.as_slice()) {
        Ok(m) => m,
        Err(_) => {
            return Err(DumpError::MalformedMeta);
        },
    };
    let settings = match read_settings(&members) {
        Ok(s) => s,
        Err(e) => {
            return Err(e);
        },
    };
    match find_in(&top, &String::from_str("primaryKey")) {
        None => Ok(DumpMeta { settings, primary_key: None }),
        Some(j) => {
            proof {
                lemma_bytes_deep_view(top@[j as int].1);
            }
            match parse_opt_string(top[j].1.as_slice()) {
                Ok(primary_key) => Ok(DumpMeta { settings, primary_key }),
                Err(_) => Err(DumpError::InvalidSetting(String::from_str("primaryKey"))),
            }
        },
    }
}

} // verus!
