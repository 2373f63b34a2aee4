//! The marketplaces that the user's `config.toml` names.

use vstd::prelude::*;

verus! {

/// `toml::Value`, a TOML value. What it holds is named below.
#[verifier::external_type_specification]
#[verifier::external_body]
pub struct ExTomlValue(toml::Value);

/// What `toml::from_str` makes of a text: a table, or the message of its error.
pub uninterp spec fn toml_document(text: Seq<char>) -> Result<toml::Value, Seq<char>>;

/// The string that a TOML value is, if it is one.
pub uninterp spec fn toml_string(value: toml::Value) -> Option<Seq<char>>;

/// The items of a TOML array, if the value is one.
pub uninterp spec fn toml_items(value: toml::Value) -> Option<Seq<toml::Value>>;

/// The keys and values of a TOML table in the order of its iterator, if the
/// value is one.
pub uninterp spec fn toml_entries(value: toml::Value) -> Option<Seq<(Seq<char>, toml::Value)>>;

/// `toml::from_str`, read into a `toml::Value`: the value, or the text that its
/// error displays, depends on the document alone.
#[verifier::external_body]
fn parse_toml(text: &str) -> (r: Result<toml::Value, String>)
    ensures
        match r {
            Ok(value) => toml_document(text@) == Ok::<toml::Value, Seq<char>>(value),
            Err(error) => toml_document(text@) == Err::<toml::Value, Seq<char>>(error@),
        },
{
    match toml::from_str::<toml::Value>(text) {
        Ok(value) => Ok(value),
        Err(error) => Err(error.to_string()),
    }
}

/// `toml::Value::as_str`: the string, where the value is a string.
pub assume_specification[ toml::Value::as_str ](value: &toml::Value) -> (r: Option<&str>)
    ensures
        r.deep_view() == toml_string(*value),
;

/// `toml::Value::as_array`: the items, where the value is an array.
pub assume_specification[ toml::Value::as_array ](value: &toml::Value) -> (r: Option<
    &Vec<toml::Value>,
>)
    ensures
        match r {
            Some(items) => toml_items(*value) == Some(items@),
            None => toml_items(*value) is None,
        },
;

/// The value of the first entry with that key.
pub open spec fn entry_at(entries: Seq<(Seq<char>, toml::Value)>, key: Seq<char>) -> Option<
    toml::Value,
>
    decreases entries.len(),
{
    if entries.len() == 0 {
        None
    } else if entries[0].0 == key {
        Some(entries[0].1)
    } else {
        entry_at(entries.drop_first(), key)
    }
}

/// The value under `key`, where `value` is a table with that key.
pub open spec fn toml_get(value: toml::Value, key: Seq<char>) -> Option<toml::Value> {
    match toml_entries(value) {
        Some(entries) => entry_at(entries, key),
        None => None,
    }
}

/// `toml::Value::get` with a string: the value under that key, where the value
/// is a table that has it.
#[verifier::external_body]
fn get_key<'a>(value: &'a toml::Value, key: &str) -> (r: Option<&'a toml::Value>)
    ensures
        match r {
            Some(found) => toml_get(*value, key@) == Some(*found),
            None => toml_get(*value, key@) is None,
        },
{
    value.get(key)
}

/// `toml::Value::as_table`, and the entries of that table as `toml::map::Map`
/// iterates over them.
#[verifier::external_body]
fn table_entries(value: &toml::Value) -> (r: Option<Vec<(&String, &toml::Value)>>)
    ensures
        match r {
            Some(entries) => toml_entries(*value) == Some(
                entries@.map_values(|e: (&String, &toml::Value)| (e.0@, *e.1)),
            ),
            None => toml_entries(*value) is None,
        },
{
    value.as_table().map(|table| table.iter().collect())
}

/// What the configuration says of one marketplace.
#[derive(Clone, Debug, PartialEq, Eq)]
pub struct MarketplaceConfigEntry {
    pub source_type: Option<String>,
    pub source: Option<String>,
    pub ref_name: Option<String>,
    pub sparse_paths: Vec<String>,
}

pub struct EntryModel {
    pub source_type: Option<Seq<char>>,
    pub source: Option<Seq<char>>,
    pub ref_name: Option<Seq<char>>,
    pub sparse_paths: Seq<Seq<char>>,
}

impl View for MarketplaceConfigEntry {
    type V = EntryModel;

    open spec fn view(&self) -> EntryModel {
        EntryModel {
            source_type: self.source_type.deep_view(),
            source: self.source.deep_view(),
            ref_name: self.ref_name.deep_view(),
            sparse_paths: self.sparse_paths.deep_view(),
        }
    }
}

/// The strings among `items`.
pub open spec fn strings_among(items: Seq<Option<Seq<char>>>) -> Seq<Seq<char>>
    decreases items.len(),
{
    if items.len() == 0 {
        Seq::empty()
    } else {
        match items.last() {
            Some(text) => strings_among(items.drop_last()).push(text),
            None => strings_among(items.drop_last()),
        }
    }
}

/// The string under `key` of a table.
pub open spec fn string_under(value: toml::Value, key: Seq<char>) -> Option<Seq<char>> {
    match toml_get(value, key) {
        Some(found) => toml_string(found),
        None => None,
    }
}

/// The sparse-checkout paths of a marketplace: the strings of the array
/// `sparse_paths`.
pub open spec fn sparse_paths_of(value: toml::Value) -> Seq<Seq<char>> {
    match toml_get(value, "sparse_paths"@) {
        Some(found) => match toml_items(found) {
            Some(items) => strings_among(items.map_values(|v: toml::Value| toml_string(v))),
            None => Seq::empty(),
        },
        None => Seq::empty(),
    }
}

/// What `value` says of one marketplace.
pub open spec fn entry_of(value: toml::Value) -> EntryModel {
    EntryModel {
        source_type: string_under(value, "source_type"@),
        source: string_under(value, "source"@),
        ref_name: string_under(value, "ref"@),
        sparse_paths: sparse_paths_of(value),
    }
}

/// The names and entries of the marketplaces of a document.
pub open spec fn marketplaces_of(document: toml::Value) -> Seq<(Seq<char>, EntryModel)> {
    match toml_get(document, "marketplaces"@) {
        Some(table) => match toml_entries(table) {
            Some(entries) => entries.map_values(
                |e: (Seq<char>, toml::Value)| (e.0, entry_of(e.1)),
            ),
            None => Seq::empty(),
        },
        None => Seq::empty(),
    }
}

/// The names and entries of the marketplaces that a configuration names, or why
/// it is no TOML.
pub open spec fn configured_marketplaces(text: Seq<char>) -> Result<
    Seq<(Seq<char>, EntryModel)>,
    Seq<char>,
> {
    match toml_document(text) {
        Ok(document) => Ok(marketplaces_of(document)),
        Err(error) => Err(error),
    }
}

/// The names and entries of a list.
pub open spec fn named_entries(entries: Seq<(String, MarketplaceConfigEntry)>) -> Seq<
    (Seq<char>, EntryModel),
> {
    entries.map_values(|e: (String, MarketplaceConfigEntry)| (e.0@, e.1@))
}

/// The strings among `items`.
pub fn only_strings(items: &Vec<Option<String>>) -> (r: Vec<String>)
    ensures
        r.deep_view() == strings_among(items.deep_view()),
{
    let mut out: Vec<String> = Vec::new();
    let ghost all = items.deep_view();
    let mut i: usize = 0;
    assert(out.deep_view() == Seq::<Seq<char>>::empty());
    while i < items.len()
        invariant
            i <= items@.len(),
            all == items.deep_view(),
            out.deep_view() == strings_among(all.subrange(0, i as int)),
        decreases items.len() - i,
    {
        assert(all.subrange(0, i + 1).drop_last() == all.subrange(0, i as int));
        assert(all.subrange(0, i + 1).last() == items@[i as int].deep_view());
        let ghost before = out.deep_view();
        if let Some(text) = &items[i] {
            let copy = text.clone();
            out.push(copy);
            assert(out.deep_view() == before.push(copy@));
        }
        i = i + 1;
    }
    assert(all.subrange(0, i as int) == all);
    out
}

fn text_under(value: &toml::Value, key: &str) -> (r: Option<String>)
    ensures
        r.deep_view() == string_under(*value, key@),
{
    match get_key(value, key) {
        Some(found) => match found.as_str() {
            Some(text) => Some(text.to_owned()),
            None => None,
        },
        None => None,
    }
}

/// The sparse-checkout paths of a marketplace.
fn config_sparse_paths(marketplace: &toml::Value) -> (r: Vec<String>)
    ensures
        r.deep_view() == sparse_paths_of(*marketplace),
{
    let mut texts: Vec<Option<String>> = Vec::new();
    let ghost mut expected: Seq<Option<Seq<char>>> = Seq::empty();
    if let Some(found) = get_key(marketplace, "sparse_paths") {
        if let Some(items) = found.as_array() {
            proof {
                expected = items@.map_values(|v: toml::Value| toml_string(v));
            }
            let mut i: usize = 0;
            while i < items.len()
                invariant
                    i <= items@.len(),
                    expected == items@.map_values(|v: toml::Value| toml_string(v)),
                    texts@.len() == i,
                    forall|j: int| 0 <= j < i ==> (#[trigger] texts@[j]).deep_view() == expected[j],
                decreases items.len() - i,
            {
                let item: &toml::Value = &items[i];
                let text = match item.as_str() {
                    Some(text) => Some(text.to_owned()),
                    None => None,
                };
                texts.push(text);
                i = i + 1;
            }
        }
    }
    assert(texts.deep_view() =~= expected);
    only_strings(&texts)
}

fn read_entry(marketplace: &toml::Value) -> (r: MarketplaceConfigEntry)
    ensures
        r@ == entry_of(*marketplace),
{
    MarketplaceConfigEntry {
        source_type: text_under(marketplace, "source_type"),
        source: text_under(marketplace, "source"),
        ref_name: text_under(marketplace, "ref"),
        sparse_paths: config_sparse_paths(marketplace),
    }
}

/// The marketplaces that the configuration `text` names, or why it is no TOML.
pub fn read_marketplaces(text: &str) -> (r: Result<Vec<(String, MarketplaceConfigEntry)>, String>)
    ensures
        match r {
            Ok(entries) => configured_marketplaces(text@) == Ok::<
                Seq<(Seq<char>, EntryModel)>,
                Seq<char>,
            >(named_entries(entries@)),
            Err(error) => configured_marketplaces(text@) == Err::<
                Seq<(Seq<char>, EntryModel)>,
                Seq<char>,
            >(error@),
        },
{
    match parse_toml(text) {
        Ok(document) => Ok(marketplaces_in(&document)),
        Err(error) => Err(error),
    }
}

/// The marketplaces that a document names.
pub fn marketplaces_in(document: &toml::Value) -> (r: Vec<(String, MarketplaceConfigEntry)>)
    ensures
        named_entries(r@) == marketplaces_of(*document),
{
    let mut out: Vec<(String, MarketplaceConfigEntry)> = Vec::new();
    if let Some(table) = get_key(document, "marketplaces") {
        if let Some(entries) = table_entries(table) {
            let mut i: usize = 0;
            while i < entries.len()
                invariant
                    i <= entries@.len(),
                    out@.len() == i,
                    forall|j: int|
                        0 <= j < i ==> (#[trigger] out@[j]).0@ == entries@[j].0@ && out@[j].1@
                            == entry_of(*entries@[j].1),
                decreases entries.len() - i,
            {
                let (name, marketplace) = entries[i];
                out.push((name.clone(), read_entry(marketplace)));
                i = i + 1;
            }
        }
    }
    assert(named_entries(out@) =~= marketplaces_of(*document));
    out
}

/// The entry that records a marketplace in the user's configuration.
#[derive(Clone, Debug, PartialEq, Eq)]
pub struct MarketplaceConfigUpdate {
    pub last_updated: String,
    pub source_type: String,
    pub source: String,
    pub ref_name: Option<String>,
    pub sparse_paths: Vec<String>,
}

pub struct UpdateModel {
    pub last_updated: Seq<char>,
    pub source_type: Seq<char>,
    pub source: Seq<char>,
    pub ref_name: Option<Seq<char>>,
    pub sparse_paths: Seq<Seq<char>>,
}

impl View for MarketplaceConfigUpdate {
    type V = UpdateModel;

    open spec fn view(&self) -> UpdateModel {
        UpdateModel {
            last_updated: self.last_updated@,
            source_type: self.source_type@,
            source: self.source@,
            ref_name: self.ref_name.deep_view(),
            sparse_paths: self.sparse_paths.deep_view(),
        }
    }
}

/// The entry of a configuration that holds what an update says.
pub open spec fn entry_written(update: UpdateModel) -> EntryModel {
    EntryModel {
        source_type: Some(update.source_type),
        source: Some(update.source),
        ref_name: update.ref_name,
        sparse_paths: update.sparse_paths,
    }
}

/// Entry `i` is the first with that key.
pub open spec fn first_under(
    entries: Seq<(Seq<char>, toml::Value)>,
    key: Seq<char>,
    i: int,
) -> bool {
    &&& 0 <= i < entries.len()
    &&& entries[i].0 == key
    &&& forall|j: int| 0 <= j < i ==> (#[trigger] entries[j]).0 != key
}

/// No entry has that key.
pub open spec fn none_under(entries: Seq<(Seq<char>, toml::Value)>, key: Seq<char>) -> bool {
    forall|j: int| 0 <= j < entries.len() ==> (#[trigger] entries[j]).0 != key
}

proof fn lemma_entry_at(entries: Seq<(Seq<char>, toml::Value)>, key: Seq<char>, i: int)
    ensures
        first_under(entries, key, i) ==> entry_at(entries, key) == Some(entries[i].1),
        none_under(entries, key) ==> entry_at(entries, key) is None,
    decreases entries.len(),
{
    if entries.len() > 0 {
        let rest = entries.drop_first();
        lemma_entry_at(rest, key, i - 1);
        if first_under(entries, key, i) && i > 0 {
            assert(entries[0].0 != key);
            assert(rest[i - 1] == entries[i]);
            assert forall|j: int| 0 <= j < i - 1 implies (#[trigger] rest[j]).0 != key by {
                assert(rest[j] == entries[j + 1]);
            }
        }
        if none_under(entries, key) {
            assert(entries[0].0 != key);
            assert forall|j: int| 0 <= j < rest.len() implies (#[trigger] rest[j]).0 != key by {
                assert(rest[j] == entries[j + 1]);
            }
        }
    }
}

/// What the configuration says of a marketplace is read from the keys of its table,
/// each text as it is: `source_type`, `source`, `ref`, and `sparse_paths`, of which
/// the texts count. A key that is not there, or is of another type, says nothing.
pub proof fn law_entries_are_read_key_by_key(
    value: toml::Value,
    fields: Seq<(Seq<char>, toml::Value)>,
    i: int,
    items: Seq<toml::Value>,
)
    requires
        toml_entries(value) == Some(fields),
    ensures
        first_under(fields, "source_type"@, i) ==> entry_of(value).source_type == toml_string(
            fields[i].1,
        ),
        none_under(fields, "source_type"@) ==> entry_of(value).source_type is None,
        first_under(fields, "source"@, i) ==> entry_of(value).source == toml_string(fields[i].1),
        none_under(fields, "source"@) ==> entry_of(value).source is None,
        first_under(fields, "ref"@, i) ==> entry_of(value).ref_name == toml_string(fields[i].1),
        none_under(fields, "ref"@) ==> entry_of(value).ref_name is None,
        none_under(fields, "sparse_paths"@) ==> entry_of(value).sparse_paths.len() == 0,
        first_under(fields, "sparse_paths"@, i) ==> {
            &&& toml_items(fields[i].1) is None ==> entry_of(value).sparse_paths.len() == 0
            &&& toml_items(fields[i].1) == Some(items) && (forall|j: int|
                0 <= j < items.len() ==> toml_string(#[trigger] items[j]) is Some)
                ==> entry_of(value).sparse_paths == items.map_values(
                |item: toml::Value| toml_string(item)->0,
            )
        },
{
    lemma_entry_at(fields, "source_type"@, i);
    lemma_entry_at(fields, "source"@, i);
    lemma_entry_at(fields, "ref"@, i);
    lemma_entry_at(fields, "sparse_paths"@, i);
    if forall|j: int| 0 <= j < items.len() ==> toml_string(#[trigger] items[j]) is Some {
        let texts = items.map_values(|item: toml::Value| toml_string(item));
        assert forall|j: int| 0 <= j < texts.len() implies #[trigger] texts[j] is Some by {
            assert(toml_string(items[j]) is Some);
        }
        lemma_all_strings(texts);
        assert(items.map_values(|item: toml::Value| toml_string(item)->0) =~= texts.map_values(
            |text: Option<Seq<char>>| text->0,
        ));
    }
}

proof fn lemma_all_strings(items: Seq<Option<Seq<char>>>)
    requires
        forall|j: int| 0 <= j < items.len() ==> #[trigger] items[j] is Some,
    ensures
        strings_among(items) == items.map_values(|text: Option<Seq<char>>| text->0),
    decreases items.len(),
{
    let f = |text: Option<Seq<char>>| text->0;
    if items.len() > 0 {
        let head = items.drop_last();
        assert forall|j: int| 0 <= j < head.len() implies #[trigger] head[j] is Some by {
            assert(head[j] == items[j]);
        }
        lemma_all_strings(head);
        assert(items[items.len() - 1] is Some);
        assert(items.map_values(f) =~= head.map_values(f).push(f(items.last())));
    } else {
        assert(items.map_values(f) =~= Seq::<Seq<char>>::empty());
    }
}

/// Of the items of a list the texts stay, in their order, and the others are left
/// out.
pub proof fn law_texts_stay_in_their_order(
    before: Seq<Option<Seq<char>>>,
    text: Seq<char>,
    after: Seq<Option<Seq<char>>>,
)
    ensures
        strings_among(before + after) == strings_among(before) + strings_among(after),
        strings_among(seq![Some(text)]) == seq![text],
        strings_among(seq![None::<Seq<char>>]) == Seq::<Seq<char>>::empty(),
        strings_among(Seq::empty()) == Seq::<Seq<char>>::empty(),
    decreases after.len(),
{
    assert(seq![Some(text)].drop_last() =~= Seq::<Option<Seq<char>>>::empty());
    assert(seq![None::<Seq<char>>].drop_last() =~= Seq::<Option<Seq<char>>>::empty());
    assert(strings_among(Seq::<Option<Seq<char>>>::empty()) =~= Seq::<Seq<char>>::empty());
    assert(strings_among(seq![Some(text)]) =~= seq![text]);
    if after.len() == 0 {
        assert(before + after =~= before);
        assert(strings_among(before) + Seq::<Seq<char>>::empty() =~= strings_among(before));
    } else {
        law_texts_stay_in_their_order(before, text, after.drop_last());
        assert((before + after).drop_last() =~= before + after.drop_last());
        assert((before + after).last() == after.last());
        if let Some(last) = after.last() {
            assert((strings_among(before) + strings_among(after.drop_last())).push(last)
                =~= strings_among(before) + strings_among(after.drop_last()).push(last));
        }
    }
}

/// The marketplaces of a configuration are all entries of its table `marketplaces`,
/// in their order and under their names; none where there is no such table.
pub proof fn law_every_marketplace_of_the_table_is_read(
    document: toml::Value,
    fields: Seq<(Seq<char>, toml::Value)>,
    i: int,
    entries: Seq<(Seq<char>, toml::Value)>,
)
    requires
        toml_entries(document) == Some(fields),
    ensures
        none_under(fields, "marketplaces"@) ==> marketplaces_of(document).len() == 0,
        first_under(fields, "marketplaces"@, i) && toml_entries(fields[i].1) is None
            ==> marketplaces_of(document).len() == 0,
        first_under(fields, "marketplaces"@, i) && toml_entries(fields[i].1) == Some(entries) ==> {
            &&& marketplaces_of(document).len() == entries.len()
            &&& forall|k: int|
                0 <= k < entries.len() ==> #[trigger] marketplaces_of(document)[k] == (
                    entries[k].0,
                    entry_of(entries[k].1),
                )
        },
{
    lemma_entry_at(fields, "marketplaces"@, i);
}

/// A configuration is read where it is TOML; otherwise it is told why it is not.
pub proof fn law_a_configuration_is_read_where_it_is_toml(text: Seq<char>)
    ensures
        match toml_document(text) {
            Ok(document) => configured_marketplaces(text) matches Ok(entries) && entries
                == marketplaces_of(document),
            Err(error) => configured_marketplaces(text) matches Err(told) && told == error,
        },
{
}

} // verus!
