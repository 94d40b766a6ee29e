//! Schemas: named fields, each with a type that says how the text a user
//! enters for it is read.

use crate::errors::EntryError;
use crate::fields::{
    has_name, lemma_placed_all_ordered, lemma_placed_map, lemma_placed_ordered,
    lemma_rank, lemma_to_map_entry, ordered, placed, placed_all, rank, to_map,
};
use crate::text::{
    comes_before, append, ends_with, equal, has_suffix, join, lemma_join_split,
    lemma_trimmed_idempotent, split, split_on, trim, trimmed, views,
};
use crate::trusted::{
    is_json_number, json_number_accepts, lowercase, naive_date_accepts, naive_date_parses,
    naive_datetime_accepts, naive_datetime_parses, rfc2822_accepts, rfc2822_parses,
    rfc3339_accepts, rfc3339_parses, to_lowercase,
};
use vstd::prelude::*;

verus! {

/// How many values a field takes.
#[derive(Clone, Copy, Debug, PartialEq, Eq, Structural)]
pub enum SchemaCount {
    One,
    Many,
}

/// What kind of value a field takes.
#[derive(Clone, Copy, Debug, PartialEq, Eq, Structural)]
pub enum SchemaDataType {
    String,
    Number,
    Date,
    DateTime,
}

/// The type of a field: how many values, and of what kind.
#[derive(Clone, Copy, Debug, PartialEq, Eq, Structural)]
pub struct SchemaType {
    pub count: SchemaCount,
    pub data_type: SchemaDataType,
}

/// What a field of many values makes of an input that is empty once trimmed.
#[derive(Clone, Copy, Debug, PartialEq, Eq, Structural)]
pub enum EmptyInput {
    /// The field has no values: an empty array.
    EmptyArray,
    /// The input is turned down, as it is for a field of one value.
    Failure,
}

/// One value of an entry, as it was entered: a text, or the literal of a
/// number.
#[derive(Debug, PartialEq, Eq)]
pub enum Scalar {
    String(String),
    Number(String),
}

/// What an entry holds for one field.
#[derive(Debug, PartialEq, Eq)]
pub enum FieldValue {
    One(Scalar),
    Many(Vec<Scalar>),
}

/// The mathematical content of a `Scalar`.
pub enum ScalarView {
    String(Seq<char>),
    Number(Seq<char>),
}

/// The mathematical content of a `FieldValue`.
pub enum FieldValueView {
    One(ScalarView),
    Many(Seq<ScalarView>),
}

impl View for Scalar {
    type V = ScalarView;

    open spec fn view(&self) -> ScalarView {
        match self {
            Scalar::String(text) => ScalarView::String(text@),
            Scalar::Number(literal) => ScalarView::Number(literal@),
        }
    }
}

/// The contents of a sequence of scalars.
pub open spec fn scalar_views(items: Seq<Scalar>) -> Seq<ScalarView> {
    Seq::new(items.len(), |i: int| items[i]@)
}

impl View for FieldValue {
    type V = FieldValueView;

    open spec fn view(&self) -> FieldValueView {
        match self {
            FieldValue::One(item) => FieldValueView::One(item@),
            FieldValue::Many(items) => FieldValueView::Many(scalar_views(items@)),
        }
    }
}

impl Clone for Scalar {
    fn clone(&self) -> (copy: Scalar)
        ensures
            copy@ == self@,
    {
        match self {
            Scalar::String(text) => Scalar::String(text.clone()),
            Scalar::Number(literal) => Scalar::Number(literal.clone()),
        }
    }
}

impl Clone for FieldValue {
    fn clone(&self) -> (copy: FieldValue)
        ensures
            copy@ == self@,
    {
        match self {
            FieldValue::One(item) => FieldValue::One(item.clone()),
            FieldValue::Many(items) => {
                let mut copies: Vec<Scalar> = Vec::new();
                let mut i: usize = 0;
                while i < items.len()
                    invariant
                        i <= items@.len(),
                        copies@.len() == i,
                        forall|k: int| 0 <= k < i ==> (#[trigger] copies@[k])@ == items@[k]@,
                    decreases items@.len() - i,
                {
                    copies.push(items[i].clone());
                    i += 1;
                }
                assert(scalar_views(copies@) =~= scalar_views(items@));
                FieldValue::Many(copies)
            },
        }
    }
}

/// The content of a scalar that may be missing.
pub open spec fn item_of(item: Option<Scalar>) -> Option<ScalarView> {
    match item {
        Some(v) => Some(v@),
        None => None,
    }
}

/// The content of a value that may be missing.
pub open spec fn view_of(value: Option<FieldValue>) -> Option<FieldValueView> {
    match value {
        Some(v) => Some(v@),
        None => None,
    }
}

impl SchemaDataType {
    /// The name of this kind of value.
    pub open spec fn name_text(self) -> Seq<char> {
        match self {
            SchemaDataType::String => "string"@,
            SchemaDataType::Number => "number"@,
            SchemaDataType::Date => "date"@,
            SchemaDataType::DateTime => "datetime"@,
        }
    }

    /// The kind of value that a name in lower case stands for. Only `date`,
    /// `number` and `string` can be chosen by name.
    pub open spec fn named(lowered: Seq<char>) -> Result<SchemaDataType, EntryError> {
        if lowered == "date"@ {
            Ok(SchemaDataType::Date)
        } else if lowered == "number"@ {
            Ok(SchemaDataType::Number)
        } else if lowered == "string"@ {
            Ok(SchemaDataType::String)
        } else {
            Err(EntryError::SchemaParseError)
        }
    }

    /// Whether `text` is a value of this kind. A date is a text that is read
    /// as one with dashes or with slashes; a date and time is one in the form
    /// of RFC 2822 or RFC 3339, or a date followed by a blank and a time with
    /// or without seconds; a number is a JSON number; every text is a string.
    pub open spec fn accepts(self, text: Seq<char>) -> bool {
        match self {
            SchemaDataType::Date => {
                ||| naive_date_accepts(text, "%Y-%m-%d"@)
                ||| naive_date_accepts(text, "%Y/%m/%d"@)
            },
            SchemaDataType::DateTime => {
                ||| rfc2822_accepts(text)
                ||| rfc3339_accepts(text)
                ||| naive_datetime_accepts(text, "%Y-%m-%d %H:%M:%S"@)
                ||| naive_datetime_accepts(text, "%Y/%m/%d %H:%M:%S"@)
                ||| naive_datetime_accepts(text, "%Y-%m-%d %H:%M"@)
                ||| naive_datetime_accepts(text, "%Y/%m/%d %H:%M"@)
            },
            SchemaDataType::Number => json_number_accepts(text),
            SchemaDataType::String => true,
        }
    }

    /// The value that an accepted text is kept as: the text itself, marked as
    /// a number where the field is one.
    pub open spec fn scalar(self, text: Seq<char>) -> ScalarView {
        match self {
            SchemaDataType::Number => ScalarView::Number(text),
            _ => ScalarView::String(text),
        }
    }

    /// The name of this kind of value, as prompts show it.
    pub fn to_string(&self) -> (name: String)
        ensures
            name@ == self.name_text(),
    {
        match self {
            SchemaDataType::String => "string".to_owned(),
            SchemaDataType::Number => "number".to_owned(),
            SchemaDataType::Date => "date".to_owned(),
            SchemaDataType::DateTime => "datetime".to_owned(),
        }
    }

    /// The kind of value that `lowered`, a name in lower case, stands for.
    pub fn from_lowercase(lowered: &str) -> (r: Result<SchemaDataType, EntryError>)
        ensures
            r == Self::named(lowered@),
    {
        if equal(lowered, "date") {
            Ok(SchemaDataType::Date)
        } else if equal(lowered, "number") {
            Ok(SchemaDataType::Number)
        } else if equal(lowered, "string") {
            Ok(SchemaDataType::String)
        } else {
            Err(EntryError::SchemaParseError)
        }
    }

    /// The kind of value that `s` names, whatever the case of its letters.
    pub fn from_str(s: &str) -> (r: Result<SchemaDataType, EntryError>)
        ensures
            r == Self::named(lowercase(s@)),
    {
        let lowered = to_lowercase(s);
        Self::from_lowercase(lowered.as_str())
    }

    /// Tells whether `text` is a value of this kind.
    pub fn check(&self, text: &str) -> (accepted: bool)
        ensures
            accepted == self.accepts(text@),
    {
        match self {
            SchemaDataType::Date => {
                naive_date_parses(text, "%Y-%m-%d") || naive_date_parses(text, "%Y/%m/%d")
            },
            SchemaDataType::DateTime => {
                rfc2822_parses(text) || rfc3339_parses(text) || naive_datetime_parses(
                    text,
                    "%Y-%m-%d %H:%M:%S",
                ) || naive_datetime_parses(text, "%Y/%m/%d %H:%M:%S") || naive_datetime_parses(
                    text,
                    "%Y-%m-%d %H:%M",
                ) || naive_datetime_parses(text, "%Y/%m/%d %H:%M")
            },
            SchemaDataType::Number => is_json_number(text),
            SchemaDataType::String => true,
        }
    }

    /// The value that `text` is kept as where it was accepted, and nothing
    /// where it was not.
    pub fn keep(&self, text: &str, accepted: bool) -> (r: Option<Scalar>)
        ensures
            item_of(r) == if accepted {
                Some(self.scalar(text@))
            } else {
                None
            },
    {
        if !accepted {
            return None;
        }
        match self {
            SchemaDataType::Number => Some(Scalar::Number(text.to_owned())),
            _ => Some(Scalar::String(text.to_owned())),
        }
    }
}

/// Whether every piece is a value of the kind `data_type`.
pub open spec fn all_accepted(data_type: SchemaDataType, pieces: Seq<Seq<char>>) -> bool {
    forall|i: int| 0 <= i < pieces.len() ==> data_type.accepts(#[trigger] pieces[i])
}

/// The values that the pieces are kept as.
pub open spec fn scalars(data_type: SchemaDataType, pieces: Seq<Seq<char>>) -> Seq<ScalarView> {
    Seq::new(pieces.len(), |i: int| data_type.scalar(pieces[i]))
}

impl SchemaType {
    /// How prompts name this type.
    pub open spec fn label(self) -> Seq<char> {
        match self.count {
            SchemaCount::One => self.data_type.name_text(),
            SchemaCount::Many => "array of "@ + self.data_type.name_text() + "s"@,
        }
    }

    /// What one piece of input is read as.
    pub open spec fn individual(self, text: Seq<char>) -> Option<ScalarView> {
        if self.data_type.accepts(text) {
            Some(self.data_type.scalar(text))
        } else {
            None
        }
    }

    /// What the input `value` is read as for a field of this type.
    ///
    /// The input is trimmed first. Empty, it is turned down by a field of one
    /// value, and is what `empty` says for a field of many. Otherwise a field
    /// of one value reads the whole text; a field of many cuts it at every
    /// comma and reads each piece as it stands, blanks included, and turns
    /// the input down if any piece is turned down.
    pub open spec fn parsed(self, value: Seq<char>, empty: EmptyInput) -> Option<FieldValueView> {
        let text = trimmed(value);
        match self.count {
            SchemaCount::One => {
                if text.len() == 0 {
                    None
                } else {
                    match self.individual(text) {
                        Some(item) => Some(FieldValueView::One(item)),
                        None => None,
                    }
                }
            },
            SchemaCount::Many => {
                if text.len() == 0 {
                    match empty {
                        EmptyInput::EmptyArray => Some(
                            FieldValueView::Many(Seq::<ScalarView>::empty()),
                        ),
                        EmptyInput::Failure => None,
                    }
                } else if all_accepted(self.data_type, split(text, ',')) {
                    Some(FieldValueView::Many(scalars(self.data_type, split(text, ','))))
                } else {
                    None
                }
            },
        }
    }

    /// The words that prompts use for this type: the kind's name, or `array
    /// of` and the name in the plural.
    pub fn to_string(&self) -> (label: String)
        ensures
            label@ == self.label(),
    {
        let name = self.data_type.to_string();
        match self.count {
            SchemaCount::One => name,
            SchemaCount::Many => {
                let start = append("array of ", name.as_str());
                append(start.as_str(), "s")
            },
        }
    }

    /// Reads one piece of input.
    pub fn parse_individual(&self, value: &str) -> (r: Option<Scalar>)
        ensures
            item_of(r) == self.individual(value@),
    {
        let accepted = self.data_type.check(value);
        self.data_type.keep(value, accepted)
    }

    /// Reads the input for a field of this type. A field of many values takes
    /// an empty input as an empty array.
    pub fn parse(&self, value: &str) -> (r: Option<FieldValue>)
        ensures
            view_of(r) == self.parsed(value@, EmptyInput::EmptyArray),
    {
        self.parse_with(value, EmptyInput::EmptyArray)
    }

    /// Reads the input for a field of this type, `empty` saying what a field
    /// of many values makes of an empty input.
    pub fn parse_with(&self, value: &str, empty: EmptyInput) -> (r: Option<FieldValue>)
        ensures
            view_of(r) == self.parsed(value@, empty),
    {
        let text = trim(value);
        if text.is_empty() {
            return match self.count {
                SchemaCount::Many => match empty {
                    EmptyInput::EmptyArray => {
                        let none: Vec<Scalar> = Vec::new();
                        assert(scalar_views(none@) == Seq::<ScalarView>::empty());
                        Some(FieldValue::Many(none))
                    },
                    EmptyInput::Failure => None,
                },
                SchemaCount::One => None,
            };
        }
        match self.count {
            SchemaCount::Many => {
                let pieces = split_on(text, ',');
                let mut items: Vec<Scalar> = Vec::new();
                let mut i: usize = 0;
                while i < pieces.len()
                    invariant
                        i <= pieces@.len(),
                        items@.len() == i,
                        text@ == trimmed(value@),
                        text@.len() > 0,
                        self.count == SchemaCount::Many,
                        views(pieces@) == split(text@, ','),
                        forall|k: int|
                            0 <= k < i ==> self.data_type.accepts(#[trigger] views(pieces@)[k]),
                        forall|k: int|
                            0 <= k < i ==> (#[trigger] items@[k])@ == self.data_type.scalar(
                                views(pieces@)[k],
                            ),
                    decreases pieces@.len() - i,
                {
                    match self.parse_individual(pieces[i]) {
                        Some(item) => {
                            items.push(item);
                        },
                        None => {
                            assert(!self.data_type.accepts(views(pieces@)[i as int]));
                            assert(!all_accepted(self.data_type, split(text@, ',')));
                            return None;
                        },
                    }
                    i += 1;
                }
                assert(scalar_views(items@) == scalars(self.data_type, views(pieces@)));
                Some(FieldValue::Many(items))
            },
            SchemaCount::One => match self.parse_individual(text) {
                Some(item) => Some(FieldValue::One(item)),
                None => None,
            },
        }
    }
}

impl ScalarView {
    /// The text that the value was read from.
    pub open spec fn text(self) -> Seq<char> {
        match self {
            ScalarView::String(text) => text,
            ScalarView::Number(literal) => literal,
        }
    }
}

impl FieldValueView {
    /// The value written as text: a single value as it was entered, many
    /// values with commas between them.
    pub open spec fn string_form(self) -> Seq<char> {
        match self {
            FieldValueView::One(item) => item.text(),
            FieldValueView::Many(items) => join(
                Seq::new(items.len(), |i: int| items[i].text()),
                ',',
            ),
        }
    }
}

/// Reading is idempotent: where an input is read as a value, the value's
/// string form is read as the same value. This holds for fields of every
/// kind, text fields among them, since a value is kept as it was entered.
pub proof fn lemma_parse_idempotent(field: SchemaType, value: Seq<char>, empty: EmptyInput)
    ensures
        field.parsed(value, empty) matches Some(read) ==> field.parsed(read.string_form(), empty)
            == Some(read),
{
    let text = trimmed(value);
    lemma_trimmed_idempotent(value);
    match field.parsed(value, empty) {
        Some(FieldValueView::One(item)) => {
            assert(item.text() == text);
        },
        Some(FieldValueView::Many(items)) => {
            let pieces = if text.len() == 0 {
                Seq::<Seq<char>>::empty()
            } else {
                split(text, ',')
            };
            assert(Seq::new(items.len(), |i: int| items[i].text()) =~= pieces);
            if text.len() > 0 {
                lemma_join_split(text, ',');
            } else {
                assert(join(pieces, ',') =~= text);
            }
        },
        None => {},
    }
}

/// A schema: the fields of an entry, each name with its type. No name occurs
/// twice, and the fields are kept in the order of their names.
#[derive(Debug)]
pub struct Schema {
    shape: Vec<(String, SchemaType)>,
}

/// What was found where a schema is stored.
#[derive(Debug)]
pub enum StoredSchema {
    /// The file could not be opened.
    Missing,
    /// The file was opened, but what it holds is not a schema.
    Malformed,
    /// The fields that the file holds.
    Fields(Vec<(String, SchemaType)>),
}

/// The names and types of a list of fields.
pub open spec fn entry_views(entries: Seq<(String, SchemaType)>) -> Seq<(Seq<char>, SchemaType)> {
    Seq::new(entries.len(), |i: int| (entries[i].0@, entries[i].1))
}

/// The contents of a sequence of texts.
pub open spec fn texts(names: Seq<String>) -> Seq<Seq<char>> {
    Seq::new(names.len(), |i: int| names[i]@)
}

/// The ending of the name of a file that holds a schema.
pub open spec fn extension() -> Seq<char> {
    ".json"@
}

/// Where the schema `name` is stored below the directory `path`.
pub open spec fn stored_at(path: Seq<char>, name: Seq<char>) -> Seq<char> {
    path + "/"@ + name + extension()
}

/// The names of the schemas that the files of a directory hold: of each file
/// name that ends in `.json` what stands before that ending, in the order of
/// the file names.
pub open spec fn listed(file_names: Seq<Seq<char>>) -> Seq<Seq<char>>
    decreases file_names.len(),
{
    if file_names.len() == 0 {
        Seq::empty()
    } else {
        let before = listed(file_names.drop_last());
        let last = file_names.last();
        if ends_with(last, extension()) {
            before.push(last.take(last.len() - extension().len()))
        } else {
            before
        }
    }
}

impl View for Schema {
    type V = Map<Seq<char>, SchemaType>;

    open spec fn view(&self) -> Map<Seq<char>, SchemaType> {
        to_map(self.entries())
    }
}

impl Schema {
    /// The fields in the order in which they are kept.
    pub closed spec fn entries(&self) -> Seq<(Seq<char>, SchemaType)> {
        entry_views(self.shape@)
    }

    /// What holds of every schema: its fields are in the order of their
    /// names.
    #[verifier::type_invariant]
    pub closed spec fn well_formed(&self) -> bool {
        ordered(entry_views(self.shape@))
    }

    /// A schema without fields.
    pub fn new() -> (schema: Schema)
        ensures
            schema.entries() == Seq::<(Seq<char>, SchemaType)>::empty(),
            schema@ == Map::<Seq<char>, SchemaType>::empty(),
            ordered(schema.entries()),
    {
        let schema = Schema { shape: Vec::new() };
        assert(schema.entries() =~= Seq::empty());
        assert(schema@ =~= Map::empty());
        schema
    }

    /// Sets the field `key` to the type `value`, whether or not the schema
    /// had a field of that name.
    pub fn insert(&mut self, key: String, value: SchemaType)
        ensures
            final(self).entries() == placed(old(self).entries(), key@, value),
            final(self)@ == old(self)@.insert(key@, value),
            ordered(final(self).entries()),
    {
        proof {
            use_type_invariant(&*self);
            lemma_rank(self.entries(), key@);
            lemma_placed_ordered(self.entries(), key@, value);
            lemma_placed_map(self.entries(), key@, value);
        }
        let mut shape: Vec<(String, SchemaType)> = Vec::new();
        std::mem::swap(&mut shape, &mut self.shape);
        let ghost before = entry_views(shape@);
        let n: usize = shape.len();
        let mut at: usize = 0;
        assert(before.skip(0) == before);
        while at < n && comes_before(shape[at].0.as_str(), key.as_str())
            invariant
                at <= n,
                n == shape@.len(),
                before == entry_views(shape@),
                rank(before, key@) == at + rank(before.skip(at as int), key@),
            decreases n - at,
        {
            assert(before.skip(at as int).drop_first() == before.skip(at + 1));
            at += 1;
        }
        if at < n && equal(shape[at].0.as_str(), key.as_str()) {
            shape.set(at, (key, value));
            assert(entry_views(shape@) =~= before.update(at as int, (key@, value)));
        } else {
            shape.insert(at, (key, value));
            assert(entry_views(shape@) =~= before.insert(at as int, (key@, value)));
        }
        self.shape = shape;
    }

    /// Tells whether the schema has no field.
    pub fn is_empty(&self) -> (empty: bool)
        ensures
            empty == (self.entries().len() == 0),
            empty == (self@ == Map::<Seq<char>, SchemaType>::empty()),
    {
        proof {
            use_type_invariant(self);
            if self.shape@.len() == 0 {
                assert(self@ =~= Map::empty());
            } else {
                lemma_to_map_entry(self.entries(), 0);
            }
        }
        self.shape.len() == 0
    }

    /// The number of fields.
    pub fn len(&self) -> (count: usize)
        ensures
            count == self.entries().len(),
    {
        self.shape.len()
    }

    /// The type of the field `name`, where the schema has such a field.
    pub fn get(&self, name: &str) -> (field: Option<SchemaType>)
        ensures
            field == if self@.contains_key(name@) {
                Some(self@[name@])
            } else {
                None
            },
    {
        proof {
            use_type_invariant(self);
        }
        let mut i: usize = 0;
        while i < self.shape.len()
            invariant
                i <= self.shape@.len(),
                ordered(self.entries()),
                forall|k: int| 0 <= k < i ==> (#[trigger] self.entries()[k]).0 != name@,
            decreases self.shape@.len() - i,
        {
            if equal(self.shape[i].0.as_str(), name) {
                proof {
                    lemma_to_map_entry(self.entries(), i as int);
                }
                return Some(self.shape[i].1);
            }
            i += 1;
        }
        assert(!has_name(self.entries(), name@));
        None
    }

    /// The fields with their types, in the order of their names.
    pub fn into_entries(self) -> (entries: Vec<(String, SchemaType)>)
        ensures
            entry_views(entries@) == self.entries(),
            ordered(entry_views(entries@)),
    {
        proof {
            use_type_invariant(&self);
        }
        self.shape
    }

    /// The schema that comes of setting the given fields one after the other.
    /// Of two fields with one name the later one stays.
    pub fn from_entries(entries: Vec<(String, SchemaType)>) -> (schema: Schema)
        ensures
            schema.entries() == placed_all(entry_views(entries@)),
            ordered(entry_views(entries@)) ==> schema.entries() == entry_views(entries@),
            ordered(schema.entries()),
    {
        let mut schema = Schema::new();
        let ghost given = entry_views(entries@);
        let mut i: usize = 0;
        assert(given.take(0) =~= Seq::empty());
        while i < entries.len()
            invariant
                i <= entries@.len(),
                given == entry_views(entries@),
                schema.entries() == placed_all(given.take(i as int)),
                ordered(schema.entries()),
            decreases entries@.len() - i,
        {
            let name = entries[i].0.clone();
            let field = entries[i].1;
            proof {
                assert(given.take(i + 1).drop_last() == given.take(i as int));
                assert(given.take(i + 1).last() == (name@, field));
            }
            schema.insert(name, field);
            i += 1;
        }
        proof {
            assert(given.take(i as int) == given);
            if ordered(given) {
                lemma_placed_all_ordered(given);
            }
        }
        schema
    }

    /// The path of the file that holds the schema `name` below the directory
    /// `path`.
    pub fn file_path(path: &str, name: &str) -> (full_path: String)
        ensures
            full_path@ == stored_at(path@, name@),
    {
        let with_slash = append(path, "/");
        let with_name = append(with_slash.as_str(), name);
        append(with_name.as_str(), ".json")
    }

    /// The names of the schemas that a directory with these file names holds.
    pub fn list(file_names: &Vec<String>) -> (names: Vec<String>)
        ensures
            texts(names@) == listed(texts(file_names@)),
    {
        let mut names: Vec<String> = Vec::new();
        let ghost all = texts(file_names@);
        let mut i: usize = 0;
        assert(all.take(0) =~= Seq::empty());
        assert(texts(names@) =~= Seq::empty());
        while i < file_names.len()
            invariant
                i <= file_names@.len(),
                all == texts(file_names@),
                texts(names@) == listed(all.take(i as int)),
            decreases file_names@.len() - i,
        {
            let file_name = file_names[i].as_str();
            proof {
                reveal_strlit(".json");
                assert(all.take(i + 1).drop_last() == all.take(i as int));
                assert(all.take(i + 1).last() == file_name@);
            }
            if has_suffix(file_name, ".json") {
                let length: usize = file_name.unicode_len();
                let name = file_name.substring_char(0, length - 5).to_owned();
                proof {
                    assert(file_name@.subrange(0, length - 5) == file_name@.take(length - 5));
                    assert(texts(names@.push(name)) =~= texts(names@).push(name@));
                }
                names.push(name);
            }
            i += 1;
        }
        assert(all.take(i as int) == all);
        names
    }

    /// The schema that was found in store, or the failure that stands for
    /// what was found instead: a missing file cannot be loaded, a malformed
    /// one cannot be read.
    pub fn load(stored: StoredSchema) -> (r: Result<Schema, EntryError>)
        ensures
            match stored {
                StoredSchema::Missing => r == Err::<Schema, EntryError>(
                    EntryError::SchemaLoadError,
                ),
                StoredSchema::Malformed => r == Err::<Schema, EntryError>(
                    EntryError::SchemaParseError,
                ),
                StoredSchema::Fields(fields) => r matches Ok(schema) && schema.entries()
                    == placed_all(entry_views(fields@)),
            },
    {
        match stored {
            StoredSchema::Missing => Err(EntryError::SchemaLoadError),
            StoredSchema::Malformed => Err(EntryError::SchemaParseError),
            StoredSchema::Fields(fields) => Ok(Schema::from_entries(fields)),
        }
    }
}

/// A schema comes back from its fields: written out in the order in which
/// they are kept and set again one after the other, the fields give the same
/// list, and with it the same mapping from names to types.
pub proof fn lemma_schema_round_trip(schema: Schema)
    requires
        schema.well_formed(),
    ensures
        placed_all(schema.entries()) == schema.entries(),
        to_map(placed_all(schema.entries())) == schema@,
{
    lemma_placed_all_ordered(schema.entries());
}

impl Default for Schema {
    fn default() -> (schema: Schema)
        ensures
            schema.entries() == Seq::<(Seq<char>, SchemaType)>::empty(),
    {
        Schema::new()
    }
}

} // verus!
