use vstd::prelude::*;

verus! {

/// One configurable option of an index: a value, an explicit reset to the
/// engine's default, or no change at all.
pub enum Setting<T> {
    Value(T),
    Reset,
    NotSet,
}

/// Marker for settings that went through [`Settings::check`]; it cannot be
/// built outside this module.
pub struct Checked {
    sealed: (),
}

/// Marker for raw settings, as stored in a snapshot or received from a user.
pub struct Unchecked;

/// The configuration of an index. `T` is [`Checked`] or [`Unchecked`]; the only
/// way to obtain checked settings from raw ones is [`Settings::check`].
pub struct Settings<T> {
    pub displayed_attributes: Setting<Vec<String>>,
    pub searchable_attributes: Setting<Vec<String>>,
    pub filterable_attributes: Setting<Vec<String>>,
    pub sortable_attributes: Setting<Vec<String>>,
    pub ranking_rules: Setting<Vec<String>>,
    pub stop_words: Setting<Vec<String>>,
    pub synonyms: Setting<Vec<(String, Vec<String>)>>,
    pub distinct_attribute: Setting<String>,
    pub kind: T,
}

/// The mathematical content of [`Settings`]: names as character sequences.
pub ghost struct SettingsView {
    pub displayed_attributes: Setting<Seq<Seq<char>>>,
    pub searchable_attributes: Setting<Seq<Seq<char>>>,
    pub filterable_attributes: Setting<Seq<Seq<char>>>,
    pub sortable_attributes: Setting<Seq<Seq<char>>>,
    pub ranking_rules: Setting<Seq<Seq<char>>>,
    pub stop_words: Setting<Seq<Seq<char>>>,
    pub synonyms: Setting<Seq<(Seq<char>, Seq<Seq<char>>)>>,
    pub distinct_attribute: Setting<Seq<char>>,
}

pub open spec fn list_view(s: Setting<Vec<String>>) -> Setting<Seq<Seq<char>>> {
    match s {
        Setting::Value(v) => Setting::Value(v.deep_view()),
        Setting::Reset => Setting::Reset,
        Setting::NotSet => Setting::NotSet,
    }
}

pub open spec fn synonyms_view(s: Setting<Vec<(String, Vec<String>)>>) -> Setting<
    Seq<(Seq<char>, Seq<Seq<char>>)>,
> {
    match s {
        Setting::Value(v) => Setting::Value(v.deep_view()),
        Setting::Reset => Setting::Reset,
        Setting::NotSet => Setting::NotSet,
    }
}

pub open spec fn text_view(s: Setting<String>) -> Setting<Seq<char>> {
    match s {
        Setting::Value(v) => Setting::Value(v@),
        Setting::Reset => Setting::Reset,
        Setting::NotSet => Setting::NotSet,
    }
}

impl<T> View for Settings<T> {
    type V = SettingsView;

    open spec fn view(&self) -> SettingsView {
        SettingsView {
            displayed_attributes: list_view(self.displayed_attributes),
            searchable_attributes: list_view(self.searchable_attributes),
            filterable_attributes: list_view(self.filterable_attributes),
            sortable_attributes: list_view(self.sortable_attributes),
            ranking_rules: list_view(self.ranking_rules),
            stop_words: list_view(self.stop_words),
            synonyms: synonyms_view(self.synonyms),
            distinct_attribute: text_view(self.distinct_attribute),
        }
    }
}

/// The wildcard attribute name, which stands for every field.
pub open spec fn wildcard() -> Seq<char> {
    seq!['*']
}

/// A list that names the wildcard means "every field", which the engine
/// expresses as a reset of the option.
pub open spec fn without_wildcard(s: Setting<Seq<Seq<char>>>) -> Setting<Seq<Seq<char>>> {
    match s {
        Setting::Value(v) => if v.contains(wildcard()) {
            Setting::Reset
        } else {
            Setting::Value(v)
        },
        _ => s,
    }
}

pub type SynonymsView = Seq<(Seq<char>, Seq<Seq<char>>)>;

/// The words that synonyms are given for.
pub open spec fn synonym_keys(m: SynonymsView) -> Seq<Seq<char>> {
    m.map_values(|e: (Seq<char>, Seq<Seq<char>>)| e.0)
}

/// The position of the last entry of `m` for word `k`, or -1.
pub open spec fn synonym_position(m: SynonymsView, k: Seq<char>) -> int
    decreases m.len(),
{
    if m.len() == 0 {
        -1
    } else if m.last().0 == k {
        m.len() - 1
    } else {
        synonym_position(m.drop_last(), k)
    }
}

/// `m` as a map after setting word `k` to `v`: a word already there keeps its
/// place and takes the new list; a new word goes last.
pub open spec fn synonym_insert(m: SynonymsView, k: Seq<char>, v: Seq<Seq<char>>) -> SynonymsView {
    if synonym_position(m, k) >= 0 {
        m.update(synonym_position(m, k), (k, v))
    } else {
        m.push((k, v))
    }
}

/// The synonyms map that setting the entries of `m`, in order, gives: each
/// word once.
pub open spec fn synonym_map(m: SynonymsView) -> SynonymsView
    decreases m.len(),
{
    if m.len() == 0 {
        Seq::empty()
    } else {
        synonym_insert(synonym_map(m.drop_last()), m.last().0, m.last().1)
    }
}

pub open spec fn synonyms_as_map(s: Setting<SynonymsView>) -> Setting<SynonymsView> {
    match s {
        Setting::Value(m) => Setting::Value(synonym_map(m)),
        _ => s,
    }
}

/// What validation makes of raw settings.
pub open spec fn checked_view(s: SettingsView) -> SettingsView {
    SettingsView {
        displayed_attributes: without_wildcard(s.displayed_attributes),
        searchable_attributes: without_wildcard(s.searchable_attributes),
        synonyms: synonyms_as_map(s.synonyms),
        ..s
    }
}

/// Settings as the indexer accepts them: no list of displayed or searchable
/// attributes names the wildcard, and synonyms are given for each word once.
pub open spec fn is_checked(s: SettingsView) -> bool {
    &&& without_wildcard(s.displayed_attributes) == s.displayed_attributes
    &&& without_wildcard(s.searchable_attributes) == s.searchable_attributes
    &&& s.synonyms matches Setting::Value(m) ==> synonym_keys(m).no_duplicates()
}

proof fn lemma_position_absent(m: SynonymsView, k: Seq<char>)
    ensures
        synonym_position(m, k) == -1 <==> !synonym_keys(m).contains(k),
        synonym_position(m, k) >= 0 ==> synonym_position(m, k) < m.len() && m[synonym_position(m, k)].0 == k,
        synonym_position(m, k) >= -1,
    decreases m.len(),
{
    if m.len() > 0 {
        let init = m.drop_last();
        lemma_position_absent(init, k);
        assert(synonym_keys(m)[m.len() - 1] == m.last().0);
        assert forall|i: int| 0 <= i < init.len() implies synonym_keys(init)[i] == synonym_keys(m)[i] by {}
        if synonym_keys(m).contains(k) && m.last().0 != k {
            let i = choose|i: int| 0 <= i < m.len() && synonym_keys(m)[i] == k;
            assert(synonym_keys(init)[i] == k);
        }
    }
}

proof fn lemma_insert_keeps_distinct(m: SynonymsView, k: Seq<char>, v: Seq<Seq<char>>)
    requires
        synonym_keys(m).no_duplicates(),
    ensures
        synonym_keys(synonym_insert(m, k, v)).no_duplicates(),
{
    lemma_position_absent(m, k);
    let r = synonym_insert(m, k, v);
    if synonym_position(m, k) >= 0 {
        assert(synonym_keys(r) =~= synonym_keys(m));
    } else {
        assert(synonym_keys(r) =~= synonym_keys(m).push(k));
        assert forall|a: int, b: int| 0 <= a < b < synonym_keys(r).len() implies synonym_keys(r)[a]
            != synonym_keys(r)[b] by {
            if b == m.len() {
                assert(synonym_keys(m)[a] == synonym_keys(r)[a]);
            }
        }
    }
}

proof fn lemma_synonym_map_distinct(m: SynonymsView)
    ensures
        synonym_keys(synonym_map(m)).no_duplicates(),
    decreases m.len(),
{
    if m.len() > 0 {
        lemma_synonym_map_distinct(m.drop_last());
        lemma_insert_keeps_distinct(synonym_map(m.drop_last()), m.last().0, m.last().1);
    }
}

/// Synonyms given for each word once are already a map: taking them as one
/// changes nothing.
pub proof fn lemma_synonym_map_of_distinct(m: SynonymsView)
    requires
        synonym_keys(m).no_duplicates(),
    ensures
        synonym_map(m) == m,
    decreases m.len(),
{
    if m.len() > 0 {
        let init = m.drop_last();
        assert forall|a: int, b: int| 0 <= a < b < init.len() implies synonym_keys(init)[a]
            != synonym_keys(init)[b] by {
            assert(synonym_keys(init)[a] == synonym_keys(m)[a]);
            assert(synonym_keys(init)[b] == synonym_keys(m)[b]);
        }
        lemma_synonym_map_of_distinct(init);
        assert(!synonym_keys(init).contains(m.last().0)) by {
            if synonym_keys(init).contains(m.last().0) {
                let i = choose|i: int| 0 <= i < init.len() && synonym_keys(init)[i] == m.last().0;
                assert(synonym_keys(m)[i] == synonym_keys(m)[m.len() - 1]);
            }
        }
        lemma_position_absent(init, m.last().0);
        assert(init.push(m.last()) =~= m);
    }
}

fn synonyms_into_map(v: Vec<(String, Vec<String>)>) -> (r: Vec<(String, Vec<String>)>)
    ensures
        r.deep_view() == synonym_map(v.deep_view()),
{
    let ghost dv = v.deep_view();
    let n = v.len();
    let mut out: Vec<(String, Vec<String>)> = Vec::new();
    let mut rest = v;
    let mut i: usize = 0;
    assert(dv.take(0) =~= Seq::<(Seq<char>, Seq<Seq<char>>)>::empty());
    while rest.len() > 0
        invariant
            i + rest@.len() == dv.len(),
            dv.len() == n,
            rest.deep_view() == dv.subrange(i as int, dv.len() as int),
            out.deep_view() == synonym_map(dv.take(i as int)),
        decreases rest@.len(),
    {
        let ghost before = rest.deep_view();
        let entry = rest.remove(0);
        let ghost e = (entry.0@, entry.1.deep_view());
        assert(e == dv[i as int]) by {
            assert(dv.subrange(i as int, dv.len() as int)[0] == dv[i as int]);
            assert(before[0] == e);
        }
        assert forall|k: int| 0 <= k < rest@.len() implies rest.deep_view()[k] == before[k + 1] by {}
        assert(rest.deep_view() =~= dv.subrange(i as int + 1, dv.len() as int)) by {
            assert forall|k: int| 0 <= k < rest@.len() implies rest.deep_view()[k]
                == dv.subrange(i as int + 1, dv.len() as int)[k] by {
                assert(before[k + 1] == dv.subrange(i as int, dv.len() as int)[k + 1]);
            }
        }
        let ghost m = out.deep_view();
        proof {
            lemma_position_absent(m, e.0);
            assert(dv.take(i as int + 1).drop_last() =~= dv.take(i as int));
        }
        let mut found: Option<usize> = None;
        let mut j: usize = 0;
        while j < out.len()
            invariant
                j <= out@.len(),
                m == out.deep_view(),
                e.0 == entry.0@,
                match found {
                    Some(p) => p < j && p == synonym_position(m.take(j as int), e.0),
                    None => synonym_position(m.take(j as int), e.0) == -1,
                },
            decreases out@.len() - j,
        {
            assert(m.take(j as int + 1).drop_last() =~= m.take(j as int));
            if out[j].0 == entry.0 {
                found = Some(j);
            }
            j = j + 1;
        }
        assert(m.take(out@.len() as int) =~= m);
        match found {
            Some(p) => {
                out.set(p, entry);
                assert(out.deep_view() =~= m.update(p as int, e));
            },
            None => {
                out.push(entry);
                assert(out.deep_view() =~= m.push(e));
            },
        }
        i = i + 1;
    }
    assert(dv.take(i as int) =~= dv);
    out
}

fn synonyms_setting_into_map(s: Setting<Vec<(String, Vec<String>)>>) -> (r: Setting<Vec<(String, Vec<String>)>>)
    ensures
        synonyms_view(r) == synonyms_as_map(synonyms_view(s)),
{
    match s {
        Setting::Value(v) => Setting::Value(synonyms_into_map(v)),
        Setting::Reset => Setting::Reset,
        Setting::NotSet => Setting::NotSet,
    }
}

fn contains_wildcard(v: &Vec<String>) -> (r: bool)
    ensures
        r == v.deep_view().contains(wildcard()),
{
    let star = String::from_str("*");
    proof {
        reveal_strlit("*");
    }
    assert(star@ == wildcard());
    let mut i: usize = 0;
    while i < v.len()
        invariant
            i <= v.len(),
            star@ == wildcard(),
            forall|j: int| 0 <= j < i ==> v.deep_view()[j] != wildcard(),
        decreases v.len() - i,
    {
        if v[i] == star {
            assert(v.deep_view()[i as int] == wildcard());
            return true;
        }
        i = i + 1;
    }
    proof {
        if v.deep_view().contains(wildcard()) {
            let k = choose|k: int| 0 <= k < v.deep_view().len() && v.deep_view()[k] == wildcard();
            assert(v.deep_view()[k] != wildcard());
        }
    }
    false
}

fn drop_wildcard(s: Setting<Vec<String>>) -> (r: Setting<Vec<String>>)
    ensures
        list_view(r) == without_wildcard(list_view(s)),
{
    match s {
        Setting::Value(v) => {
            if contains_wildcard(&v) {
                Setting::Reset
            } else {
                Setting::Value(v)
            }
        },
        Setting::Reset => Setting::Reset,
        Setting::NotSet => Setting::NotSet,
    }
}

impl Settings<Unchecked> {
    /// Raw settings from their options.
    pub fn unchecked(
        displayed_attributes: Setting<Vec<String>>,
        searchable_attributes: Setting<Vec<String>>,
        filterable_attributes: Setting<Vec<String>>,
        sortable_attributes: Setting<Vec<String>>,
        ranking_rules: Setting<Vec<String>>,
        stop_words: Setting<Vec<String>>,
        synonyms: Setting<Vec<(String, Vec<String>)>>,
        distinct_attribute: Setting<String>,
    ) -> (r: Settings<Unchecked>)
        ensures
            r.displayed_attributes == displayed_attributes,
            r.searchable_attributes == searchable_attributes,
            r.filterable_attributes == filterable_attributes,
            r.sortable_attributes == sortable_attributes,
            r.ranking_rules == ranking_rules,
            r.stop_words == stop_words,
            r.synonyms == synonyms,
            r.distinct_attribute == distinct_attribute,
    {
        Settings {
            displayed_attributes,
            searchable_attributes,
            filterable_attributes,
            sortable_attributes,
            ranking_rules,
            stop_words,
            synonyms,
            distinct_attribute,
            kind: Unchecked,
        }
    }

    /// Raw settings that change nothing.
    pub fn not_set() -> (r: Settings<Unchecked>)
        ensures
            r@ == (SettingsView {
                displayed_attributes: Setting::NotSet,
                searchable_attributes: Setting::NotSet,
                filterable_attributes: Setting::NotSet,
                sortable_attributes: Setting::NotSet,
                ranking_rules: Setting::NotSet,
                stop_words: Setting::NotSet,
                synonyms: Setting::NotSet,
                distinct_attribute: Setting::NotSet,
            }),
    {
        Settings::unchecked(
            Setting::NotSet,
            Setting::NotSet,
            Setting::NotSet,
            Setting::NotSet,
            Setting::NotSet,
            Setting::NotSet,
            Setting::NotSet,
            Setting::NotSet,
        )
    }

    /// Validates raw settings: a displayed or searchable list that names the
    /// wildcard becomes a reset, and synonyms become a map, a word given twice
    /// keeping its first place and its last list; every other option is kept
    /// as it is.
    pub fn check(self) -> (r: Settings<Checked>)
        ensures
            r@ == checked_view(self@),
            is_checked(r@),
    {
        let r = Settings {
            displayed_attributes: drop_wildcard(self.displayed_attributes),
            searchable_attributes: drop_wildcard(self.searchable_attributes),
            filterable_attributes: self.filterable_attributes,
            sortable_attributes: self.sortable_attributes,
            ranking_rules: self.ranking_rules,
            stop_words: self.stop_words,
            synonyms: synonyms_setting_into_map(self.synonyms),
            distinct_attribute: self.distinct_attribute,
            kind: Checked { sealed: () },
        };
        proof {
            lemma_without_wildcard_idempotent(r@.displayed_attributes);
            lemma_without_wildcard_idempotent(r@.searchable_attributes);
            lemma_without_wildcard_idempotent(self@.displayed_attributes);
            lemma_without_wildcard_idempotent(self@.searchable_attributes);
            if let Setting::Value(m) = self@.synonyms {
                lemma_synonym_map_distinct(m);
            }
        }
        r
    }
}

impl Settings<Checked> {
    /// Forgets that the settings were validated, keeping every raw value.
    pub fn into_unchecked(self) -> (r: Settings<Unchecked>)
        ensures
            r@ == self@,
    {
        Settings {
            displayed_attributes: self.displayed_attributes,
            searchable_attributes: self.searchable_attributes,
            filterable_attributes: self.filterable_attributes,
            sortable_attributes: self.sortable_attributes,
            ranking_rules: self.ranking_rules,
            stop_words: self.stop_words,
            synonyms: self.synonyms,
            distinct_attribute: self.distinct_attribute,
            kind: Unchecked,
        }
    }
}

proof fn lemma_without_wildcard_idempotent(s: Setting<Seq<Seq<char>>>)
    ensures
        without_wildcard(without_wildcard(s)) == without_wildcard(s),
{
}

/// Validating settings that were already validated changes nothing: settings
/// taken out of an index and checked again are the index's settings.
pub proof fn lemma_check_of_checked_is_identity(s: SettingsView)
    requires
        is_checked(s),
    ensures
        checked_view(s) == s,
{
    if let Setting::Value(m) = s.synonyms {
        lemma_synonym_map_of_distinct(m);
    }
}

} // verus!
