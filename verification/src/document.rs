//! The TOML side of the manifest file. The `toml` crate reads and writes the
//! text; this module declares its types, gives what a table holds a name, and
//! wraps the functions that the manifest needs. Every contract here is
//! believed, not proved.

use vstd::prelude::*;

verus! {

/// `toml::map::Map`, the table of the `toml` crate. Nothing inside it is seen.
#[verifier::external_type_specification]
#[verifier::external_body]
#[verifier::reject_recursive_types(K)]
#[verifier::reject_recursive_types(V)]
pub struct ExTomlMap<K, V>(toml::map::Map<K, V>);

/// `toml::Value`, a value of a TOML document. Nothing inside it is seen.
#[verifier::external_type_specification]
#[verifier::external_body]
pub struct ExTomlValue(toml::Value);

/// `toml::de::Error`, what `toml` says of a text that it cannot read.
#[verifier::external_type_specification]
#[verifier::external_body]
pub struct ExTomlParseError(toml::de::Error);

/// `toml::ser::Error`, what `toml` says of a value that it cannot write.
#[verifier::external_type_specification]
#[verifier::external_body]
pub struct ExTomlRenderError(toml::ser::Error);

/// A TOML value, as far as the manifest format looks into one: a string, a
/// table, or anything else.
pub enum Item {
    Text(Seq<char>),
    Table(Map<Seq<char>, Item>),
    Other,
}

/// Whether an item is made of strings and tables alone. Such an item stands for
/// exactly one TOML value.
pub open spec fn item_is_plain(item: Item) -> bool
    decreases item,
{
    match item {
        Item::Text(_) => true,
        Item::Table(entries) => forall|key: Seq<char>| #[trigger]
            entries.contains_key(key) ==> item_is_plain(entries[key]),
        Item::Other => false,
    }
}

/// Whether every entry of a table is made of strings and tables alone.
pub open spec fn items_are_plain(items: Map<Seq<char>, Item>) -> bool {
    forall|key: Seq<char>| #[trigger] items.contains_key(key) ==> item_is_plain(items[key])
}

/// The entries of a table that has none.
pub open spec fn no_items() -> Map<Seq<char>, Item> {
    Map::empty()
}

/// The texts of a list of strings.
pub open spec fn texts(strings: Seq<String>) -> Seq<Seq<char>> {
    strings.map_values(|string: String| string@)
}

/// What a TOML table holds: an item under each of its keys.
pub uninterp spec fn table_items(table: toml::Table) -> Map<Seq<char>, Item>;

/// What a TOML value is.
pub uninterp spec fn value_item(value: toml::Value) -> Item;

/// The order in which a TOML table with the given keys hands them out. The
/// keys alone fix it because the table keeps them sorted: `toml` is built
/// without its `preserve_order` feature, with which a table would keep the
/// order in which the keys came.
pub uninterp spec fn key_order(keys: Set<Seq<char>>) -> Seq<Seq<char>>;

/// The table that a text holds when read as a TOML document, if it is one.
pub uninterp spec fn parsed_document(text: Seq<char>) -> Option<Map<Seq<char>, Item>>;

/// The text of a table of strings and tables, written as a TOML document. What
/// the table holds fixes the text because the table keeps its keys sorted:
/// `toml` is built without its `preserve_order` feature.
pub uninterp spec fn rendered_document(items: Map<Seq<char>, Item>) -> Option<Seq<char>>;

/// `toml::from_str`, reading the text into a table. The contract names the
/// table that a text yields and says that a text which yields none is refused.
#[verifier::external_body]
pub(crate) fn parse(text: &str) -> (r: Result<toml::Table, toml::de::Error>)
    ensures
        parsed_document(text@) == match r {
            Ok(table) => Some(table_items(table)),
            Err(_) => None,
        },
{
    toml::from_str::<toml::Table>(text)
}

/// `toml::to_string_pretty` on a table. For a table of strings and tables, what
/// it holds fixes the table, so the contract names the text by what it holds.
#[verifier::external_body]
pub(crate) fn render(table: &toml::Table) -> (r: Result<String, toml::ser::Error>)
    requires
        items_are_plain(table_items(*table)),
    ensures
        rendered_document(table_items(*table)) == match r {
            Ok(text) => Some(text@),
            Err(_) => None,
        },
{
    toml::to_string_pretty(table)
}

/// `toml::map::Map::new`: a table without entries.
#[verifier::external_body]
pub(crate) fn table_new() -> (r: toml::Table)
    ensures
        table_items(r) == no_items(),
{
    toml::Table::new()
}

/// `toml::map::Map::insert`: the value stands under the key afterwards, in
/// place of what stood there; the other entries stay.
#[verifier::external_body]
pub(crate) fn table_insert(table: &mut toml::Table, key: String, value: toml::Value)
    ensures
        table_items(*final(table)) == table_items(*old(table)).insert(key@, value_item(value)),
{
    table.insert(key, value);
}

/// `toml::map::Map::get`: the value under the key, if the table has the key.
#[verifier::external_body]
pub(crate) fn table_get<'a>(table: &'a toml::Table, key: &str) -> (r: Option<&'a toml::Value>)
    ensures
        match r {
            Some(value) => table_items(*table).contains_key(key@) && table_items(*table)[key@]
                == value_item(*value),
            None => !table_items(*table).contains_key(key@),
        },
{
    table.get(key)
}

/// `toml::map::Map::keys`: every key of the table, each once, in the table's
/// order, which without the `preserve_order` feature is that of the keys.
#[verifier::external_body]
pub(crate) fn table_keys(table: &toml::Table) -> (r: Vec<String>)
    ensures
        texts(r@) == key_order(table_items(*table).dom()),
        texts(r@).no_duplicates(),
        forall|key: Seq<char>| texts(r@).contains(key) <==> table_items(*table).contains_key(key),
{
    table.keys().cloned().collect()
}

/// `toml::Value::as_str`: the string, where the value is one.
#[verifier::external_body]
pub(crate) fn value_as_str<'a>(value: &'a toml::Value) -> (r: Option<&'a str>)
    ensures
        match r {
            Some(text) => value_item(*value) == Item::Text(text@),
            None => !(value_item(*value) is Text),
        },
{
    value.as_str()
}

/// `toml::Value::as_table`: the table, where the value is one.
#[verifier::external_body]
pub(crate) fn value_as_table<'a>(value: &'a toml::Value) -> (r: Option<&'a toml::Table>)
    ensures
        match r {
            Some(table) => value_item(*value) == Item::Table(table_items(*table)),
            None => !(value_item(*value) is Table),
        },
{
    value.as_table()
}

/// `toml::Value::from` a `String`: the string as a TOML value.
#[verifier::external_body]
pub(crate) fn text_value(text: String) -> (r: toml::Value)
    ensures
        value_item(r) == Item::Text(text@),
{
    toml::Value::from(text)
}

/// `toml::Value::from` a table: the table as a TOML value.
#[verifier::external_body]
pub(crate) fn table_value(table: toml::Table) -> (r: toml::Value)
    ensures
        value_item(r) == Item::Table(table_items(table)),
{
    toml::Value::from(table)
}

} // verus!
