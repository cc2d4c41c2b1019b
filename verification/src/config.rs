//! The manifest: which file of the repository belongs where. `Config` is the
//! manifest in memory, `Manifest` is what it means, and `load` and `save` turn
//! it from and into the text of the manifest file.

use crate::document::{
    items_are_plain, item_is_plain, key_order, parse, parsed_document, render, rendered_document,
    table_get, table_insert, table_items, table_keys, table_new, table_value, text_value, texts, value_as_str,
    value_as_table, Item,
};
use crate::error::DotmanError;
use crate::paths::{join, path_joined};
use vstd::prelude::*;

verus! {

/// The name of the manifest file inside the repository directory.
pub const CONFIG_FILE_NAME: &'static str = "dotfiles.toml";

/// The name of the repository directory inside the home directory.
pub const DEFAULT_DOTFILES_DIR: &'static str = "dotfiles";

/// The key of the manifest file under which the repository directory stands.
pub const DIRECTORY_KEY: &'static str = "dotfiles_dir";

/// The key of the manifest file under which the table of managed files stands.
pub const FILES_KEY: &'static str = "files";

/// A manifest as a mathematical value: the repository directory, the
/// place that each managed file came from, by the file's name, and the order in which the
/// names are visited.
pub struct Manifest {
    pub dotfiles_dir: Seq<char>,
    pub files: Map<Seq<char>, Seq<char>>,
    pub order: Seq<Seq<char>>,
}

impl Manifest {
    /// A manifest visits each of its names once, and no other.
    pub open spec fn wf(self) -> bool {
        &&& self.order.no_duplicates()
        &&& forall|name: Seq<char>| self.files.contains_key(name) <==> self.order.contains(name)
    }

    /// The manifest of a repository that manages no file yet.
    pub open spec fn empty(dotfiles_dir: Seq<char>) -> Manifest {
        Manifest { dotfiles_dir, files: Map::empty(), order: Seq::empty() }
    }

    /// The manifest after a file was recorded: a new name is visited last, a
    /// known name keeps its turn and takes the new place.
    pub open spec fn with(self, name: Seq<char>, target: Seq<char>) -> Manifest {
        Manifest {
            dotfiles_dir: self.dotfiles_dir,
            files: self.files.insert(name, target),
            order: if self.files.contains_key(name) {
                self.order
            } else {
                self.order.push(name)
            },
        }
    }

    /// Where the manifest file of this manifest lies.
    pub open spec fn path(self) -> Seq<char> {
        path_joined(self.dotfiles_dir, CONFIG_FILE_NAME@)
    }

    /// Whether two manifests say the same: the same directory, and the same
    /// place for the same names.
    pub open spec fn same_content(self, other: Manifest) -> bool {
        self.dotfiles_dir == other.dotfiles_dir && self.files == other.files
    }
}

/// The table of managed files as the manifest file holds it.
pub open spec fn file_items(files: Map<Seq<char>, Seq<char>>) -> Map<Seq<char>, Item> {
    files.map_values(|target: Seq<char>| Item::Text(target))
}

/// The TOML document that stands for a manifest.
pub open spec fn document_of(manifest: Manifest) -> Map<Seq<char>, Item> {
    Map::empty().insert(DIRECTORY_KEY@, Item::Text(manifest.dotfiles_dir)).insert(
        FILES_KEY@,
        Item::Table(file_items(manifest.files)),
    )
}

/// Whether a table holds strings alone.
pub open spec fn all_text(items: Map<Seq<char>, Item>) -> bool {
    forall|key: Seq<char>| #[trigger] items.contains_key(key) ==> items[key] is Text
}

/// The strings of a table of strings, by key.
pub open spec fn item_texts(items: Map<Seq<char>, Item>) -> Map<Seq<char>, Seq<char>> {
    items.map_values(|item: Item| item->Text_0)
}

/// What a TOML document says as a manifest: the directory and the place of each
/// file. It says nothing unless the directory is a string and the files are a
/// table of strings; other keys are passed over.
pub open spec fn read_document(document: Map<Seq<char>, Item>) -> Option<
    (Seq<char>, Map<Seq<char>, Seq<char>>),
> {
    if document.contains_key(DIRECTORY_KEY@) && document.contains_key(FILES_KEY@) {
        match (document[DIRECTORY_KEY@], document[FILES_KEY@]) {
            (Item::Text(dotfiles_dir), Item::Table(files)) => if all_text(files) {
                Some((dotfiles_dir, item_texts(files)))
            } else {
                None
            },
            _ => None,
        }
    } else {
        None
    }
}

/// What `Config::load` makes of the text of a manifest file.
pub open spec fn parsed_manifest(content: Seq<char>) -> Result<Manifest, DotmanError> {
    match parsed_document(content) {
        Some(document) => match read_document(document) {
            Some((dotfiles_dir, files)) => Ok(
                Manifest { dotfiles_dir, files, order: key_order(files.dom()) },
            ),
            None => Err(DotmanError::ManifestParseError),
        },
        None => Err(DotmanError::ManifestParseError),
    }
}

/// What `Config::save` makes of a manifest: the text of its manifest file.
pub open spec fn saved_manifest(manifest: Manifest) -> Result<Seq<char>, DotmanError> {
    match rendered_document(document_of(manifest)) {
        Some(text) => Ok(text),
        None => Err(DotmanError::ManifestWriteError),
    }
}

/// The names of a list of entries, in order.
spec fn names(entries: Seq<(String, String)>) -> Seq<Seq<char>> {
    entries.map_values(|entry: (String, String)| entry.0@)
}

/// The place of each name in a list of entries.
spec fn places(entries: Seq<(String, String)>) -> Map<Seq<char>, Seq<char>> {
    Map::new(
        |name: Seq<char>| names(entries).contains(name),
        |name: Seq<char>| entries[names(entries).index_of(name)].1@,
    )
}

proof fn lemma_place_of_entry(entries: Seq<(String, String)>, i: int)
    requires
        names(entries).no_duplicates(),
        0 <= i < entries.len(),
    ensures
        places(entries).contains_key(entries[i].0@),
        places(entries)[entries[i].0@] == entries[i].1@,
{
    let name = entries[i].0@;
    assert(names(entries)[i] == name);
    let j = names(entries).index_of(name);
    assert(names(entries)[j] == name);
}

proof fn lemma_names_cover_places(entries: Seq<(String, String)>)
    ensures
        forall|name: Seq<char>| places(entries).contains_key(name) <==> names(entries).contains(name),
{
}

proof fn lemma_places_push(entries: Seq<(String, String)>, entry: (String, String))
    requires
        names(entries).no_duplicates(),
        !names(entries).contains(entry.0@),
    ensures
        names(entries.push(entry)) == names(entries).push(entry.0@),
        names(entries.push(entry)).no_duplicates(),
        places(entries.push(entry)) == places(entries).insert(entry.0@, entry.1@),
{
    let longer = entries.push(entry);
    assert(names(longer) =~= names(entries).push(entry.0@));
    assert forall|i: int, j: int|
        0 <= i < names(longer).len() && 0 <= j < names(longer).len() && i != j implies names(
        longer,
    )[i] != names(longer)[j] by {
        if i < entries.len() {
            assert(names(entries)[i] == names(longer)[i]);
        }
        if j < entries.len() {
            assert(names(entries)[j] == names(longer)[j]);
        }
    }
    assert forall|name: Seq<char>| #[trigger]
        places(longer).contains_key(name) <==> places(entries).insert(
            entry.0@,
            entry.1@,
        ).contains_key(name) by {
        if names(longer).contains(name) {
            let i = choose|i: int| 0 <= i < names(longer).len() && names(longer)[i] == name;
            if i < entries.len() {
                assert(names(entries)[i] == name);
            }
        }
        if names(entries).contains(name) {
            let i = choose|i: int| 0 <= i < names(entries).len() && names(entries)[i] == name;
            assert(names(longer)[i] == name);
        }
        if name == entry.0@ {
            assert(names(longer)[entries.len() as int] == name);
        }
    }
    assert forall|name: Seq<char>| #[trigger] places(longer).contains_key(name) implies places(
        longer,
    )[name] == places(entries).insert(entry.0@, entry.1@)[name] by {
        let i = names(longer).index_of(name);
        assert(names(longer)[i] == name);
        lemma_place_of_entry(longer, i);
        if i < entries.len() {
            assert(names(entries)[i] == name);
            lemma_place_of_entry(entries, i);
        }
    }
    assert(places(longer) =~= places(entries).insert(entry.0@, entry.1@));
}

proof fn lemma_places_update(entries: Seq<(String, String)>, i: int, entry: (String, String))
    requires
        names(entries).no_duplicates(),
        0 <= i < entries.len(),
        entries[i].0@ == entry.0@,
    ensures
        names(entries.update(i, entry)) == names(entries),
        places(entries.update(i, entry)) == places(entries).insert(entry.0@, entry.1@),
{
    let changed = entries.update(i, entry);
    assert(names(changed) =~= names(entries));
    assert(names(entries)[i] == entry.0@);
    assert forall|name: Seq<char>| #[trigger] places(changed).contains_key(name) implies places(
        changed,
    )[name] == places(entries).insert(entry.0@, entry.1@)[name] by {
        let j = names(changed).index_of(name);
        assert(names(changed)[j] == name);
        lemma_place_of_entry(changed, j);
        lemma_place_of_entry(entries, j);
    }
    assert(places(changed) =~= places(entries).insert(entry.0@, entry.1@));
}

/// The manifest of a repository: its directory and, for each managed file's
/// name, the place the file came from. No name occurs twice.
#[derive(Debug)]
pub struct Config {
    dotfiles_dir: String,
    files: Vec<(String, String)>,
}

impl View for Config {
    type V = Manifest;

    closed spec fn view(&self) -> Manifest {
        Manifest {
            dotfiles_dir: self.dotfiles_dir@,
            files: places(self.files@),
            order: names(self.files@),
        }
    }
}

impl Default for Config {
    /// A manifest without a directory and without files.
    fn default() -> (config: Config)
        ensures
            config@ == Manifest::empty(Seq::empty()),
    {
        Config::new(String::new())
    }
}

impl Config {
    #[verifier::type_invariant]
    spec fn unique_names(self) -> bool {
        names(self.files@).no_duplicates()
    }

    /// The manifest of a fresh repository at `dotfiles_dir`: no file is managed yet.
    pub fn new(dotfiles_dir: String) -> (config: Config)
        ensures
            config@ == Manifest::empty(dotfiles_dir@),
            config@.wf(),
    {
        let config = Config { dotfiles_dir, files: Vec::new() };
        assert(config@.files =~= Map::empty());
        assert(config@.order =~= Seq::empty());
        config
    }

    /// The repository directory.
    pub fn dotfiles_dir(&self) -> (dir: &str)
        ensures
            dir@ == self@.dotfiles_dir,
    {
        self.dotfiles_dir.as_str()
    }

    /// Where the manifest file lies: inside the repository directory, under its fixed name.
    pub fn path(&self) -> (path: String)
        ensures
            path@ == self@.path(),
    {
        join(self.dotfiles_dir.as_str(), CONFIG_FILE_NAME)
    }

    /// The number of managed files.
    pub fn len(&self) -> (n: usize)
        ensures
            n == self@.order.len(),
    {
        self.files.len()
    }

    /// Whether no file is managed.
    pub fn is_empty(&self) -> (empty: bool)
        ensures
            empty == (self@.order.len() == 0),
    {
        self.files.len() == 0
    }

    /// The name and the old place of the managed file that is visited at
    /// turn `index`, if there are that many.
    pub fn entry(&self, index: usize) -> (entry: Option<(&str, &str)>)
        ensures
            match entry {
                Some((name, target)) => index < self@.order.len() && name@ == self@.order[index as int]
                    && self@.files.contains_key(name@) && target@ == self@.files[name@],
                None => index >= self@.order.len(),
            },
    {
        if index < self.files.len() {
            proof {
                use_type_invariant(self);
                lemma_place_of_entry(self.files@, index as int);
            }
            Some((self.files[index].0.as_str(), self.files[index].1.as_str()))
        } else {
            None
        }
    }

    /// The old place of the managed file of that name, if there is one.
    pub fn get(&self, name: &str) -> (target: Option<&str>)
        ensures
            match target {
                Some(place) => self@.files.contains_key(name@) && place@ == self@.files[name@],
                None => !self@.files.contains_key(name@),
            },
    {
        proof {
            use_type_invariant(self);
        }
        let wanted = name.to_owned();
        let mut i: usize = 0;
        while i < self.files.len()
            invariant
                i <= self.files.len(),
                wanted@ == name@,
                names(self.files@).no_duplicates(),
                forall|j: int| 0 <= j < i ==> names(self.files@)[j] != name@,
            decreases self.files.len() - i,
        {
            if self.files[i].0 == wanted {
                proof {
                    lemma_place_of_entry(self.files@, i as int);
                }
                return Some(self.files[i].1.as_str());
            }
            i += 1;
        }
        None
    }

    /// Records that the file `name` came from `target`. A name that is already
    /// recorded takes the new place.
    pub fn insert(&mut self, name: String, target: String)
        ensures
            final(self)@ == old(self)@.with(name@, target@),
            final(self)@.wf(),
    {
        proof {
            use_type_invariant(&*self);
        }
        let ghost before = self.files@;
        let mut files: Vec<(String, String)> = Vec::new();
        std::mem::swap(&mut self.files, &mut files);
        let mut i: usize = 0;
        while i < files.len() && !(files[i].0 == name)
            invariant
                i <= files.len(),
                files@ == before,
                forall|j: int| 0 <= j < i ==> names(before)[j] != name@,
            decreases files.len() - i,
        {
            i += 1;
        }
        proof {
            lemma_names_cover_places(before);
            if i < before.len() {
                lemma_places_update(before, i as int, (name, target));
                lemma_place_of_entry(before, i as int);
            } else {
                lemma_places_push(before, (name, target));
            }
        }
        if i < files.len() {
            files.set(i, (name, target));
        } else {
            files.push((name, target));
        }
        proof {
            lemma_names_cover_places(files@);
        }
        std::mem::swap(&mut self.files, &mut files);
    }

    /// Reads the text of a manifest file. The text must be a TOML document in
    /// which `dotfiles_dir` is a string and `files` is a table of strings.
    pub fn load(content: &str) -> (r: Result<Config, DotmanError>)
        ensures
            parsed_manifest(content@) == match r {
                Ok(config) => Ok(config@),
                Err(e) => Err(e),
            },
            r matches Ok(config) ==> config@.wf(),
    {
        let document = match parse(content) {
            Ok(table) => table,
            Err(_) => {
                return Err(DotmanError::ManifestParseError);
            },
        };
        let dotfiles_dir = match table_get(&document, DIRECTORY_KEY) {
            Some(value) => match value_as_str(value) {
                Some(text) => text.to_owned(),
                None => {
                    return Err(DotmanError::ManifestParseError);
                },
            },
            None => {
                return Err(DotmanError::ManifestParseError);
            },
        };
        let table = match table_get(&document, FILES_KEY) {
            Some(value) => match value_as_table(value) {
                Some(table) => table,
                None => {
                    return Err(DotmanError::ManifestParseError);
                },
            },
            None => {
                return Err(DotmanError::ManifestParseError);
            },
        };
        let ghost whole = table_items(document);
        let ghost items = table_items(*table);
        let keys = table_keys(table);
        let mut files: Vec<(String, String)> = Vec::new();
        let mut i: usize = 0;
        while i < keys.len()
            invariant
                i <= keys.len(),
                files.len() == i,
                items == table_items(*table),
                parsed_document(content@) == Some(whole),
                whole.contains_key(DIRECTORY_KEY@) && whole[DIRECTORY_KEY@] is Text,
                whole.contains_key(FILES_KEY@) && whole[FILES_KEY@] == Item::Table(items),
                forall|key: Seq<char>| texts(keys@).contains(key) <==> items.contains_key(key),
                forall|j: int|
                    0 <= j < i ==> (#[trigger] files@[j]).0@ == keys@[j]@ && items.contains_key(
                        keys@[j]@,
                    ) && items[keys@[j]@] == Item::Text(files@[j].1@),
            decreases keys.len() - i,
        {
            assert(texts(keys@)[i as int] == keys@[i as int]@);
            let target = match table_get(table, keys[i].as_str()) {
                Some(value) => match value_as_str(value) {
                    Some(text) => text.to_owned(),
                    None => {
                        return Err(DotmanError::ManifestParseError);
                    },
                },
                None => {
                    return Err(DotmanError::ManifestParseError);
                },
            };
            files.push((keys[i].clone(), target));
            i += 1;
        }
        assert(names(files@) =~= texts(keys@));
        assert(all_text(items)) by {
            assert forall|key: Seq<char>| #[trigger] items.contains_key(key) implies items[key] is Text by {
                let j = choose|j: int| 0 <= j < texts(keys@).len() && texts(keys@)[j] == key;
                assert(keys@[j]@ == key);
                assert(files@[j].0@ == key);
            }
        }
        assert(places(files@) =~= item_texts(items)) by {
            assert forall|name: Seq<char>| #[trigger] places(files@).contains_key(name) implies places(
                files@,
            )[name] == item_texts(items)[name] by {
                let j = names(files@).index_of(name);
                assert(names(files@)[j] == name);
                lemma_place_of_entry(files@, j);
                assert(files@[j].0@ == keys@[j]@);
            }
        }
        assert(item_texts(items).dom() =~= items.dom());
        Ok(Config { dotfiles_dir, files })
    }

    /// Writes the manifest as the text of its manifest file.
    pub fn save(&self) -> (r: Result<String, DotmanError>)
        ensures
            saved_manifest(self@) == match r {
                Ok(text) => Ok(text@),
                Err(e) => Err(e),
            },
    {
        proof {
            use_type_invariant(self);
        }
        let mut files = table_new();
        let mut i: usize = 0;
        while i < self.files.len()
            invariant
                i <= self.files.len(),
                names(self.files@).no_duplicates(),
                names(self.files@.take(i as int)).no_duplicates(),
                table_items(files) == file_items(places(self.files@.take(i as int))),
            decreases self.files.len() - i,
        {
            let ghost done = self.files@.take(i as int);
            let ghost entry = self.files@[i as int];
            proof {
                assert(self.files@.take(i + 1) =~= done.push(entry));
                assert(!names(done).contains(entry.0@)) by {
                    if names(done).contains(entry.0@) {
                        let j = choose|j: int| 0 <= j < names(done).len() && names(done)[j] == entry.0@;
                        assert(names(self.files@)[j] == entry.0@);
                        assert(names(self.files@)[i as int] == entry.0@);
                    }
                }
                lemma_places_push(done, entry);
                assert(file_items(places(done)).insert(entry.0@, Item::Text(entry.1@)) =~= file_items(
                    places(done).insert(entry.0@, entry.1@),
                ));
            }
            let name = self.files[i].0.clone();
            let target = self.files[i].1.clone();
            table_insert(&mut files, name, text_value(target));
            i += 1;
        }
        assert(self.files@.take(i as int) =~= self.files@);
        let mut document = table_new();
        table_insert(&mut document, DIRECTORY_KEY.to_owned(), text_value(self.dotfiles_dir.clone()));
        table_insert(&mut document, FILES_KEY.to_owned(), table_value(files));
        proof {
            assert(table_items(document) == document_of(self@));
            lemma_document_is_plain(self@);
        }
        match render(&document) {
            Ok(text) => Ok(text),
            Err(_) => Err(DotmanError::ManifestWriteError),
        }
    }
}

/// The document of a manifest is made of strings and tables alone.
proof fn lemma_document_is_plain(manifest: Manifest)
    ensures
        items_are_plain(document_of(manifest)),
{
    let files = file_items(manifest.files);
    assert forall|key: Seq<char>| #[trigger] files.contains_key(key) implies item_is_plain(
        files[key],
    ) by {}
    assert(item_is_plain(Item::Table(files)));
    assert(item_is_plain(Item::Text(manifest.dotfiles_dir)));
}

} // verus!
