//! The two conversations of the tool: filling in an entry for a schema, field
//! by field, and drawing up a new schema. Each is a state that takes the
//! user's lines one at a time and says what to show next; reading and
//! printing are the caller's business.

use crate::fields::ordered;
use crate::schema::{
    texts, EmptyInput, FieldValue, FieldValueView, Schema, SchemaCount, SchemaDataType, SchemaType,
};
use crate::text::{append, equal, trim, trimmed};
use crate::trusted::{lowercase, to_lowercase};
use vstd::prelude::*;

verus! {

/// An entry that is being filled in: the fields of its schema, in the order
/// of their names, and the values read so far for the first of them.
#[derive(Debug)]
pub struct EntryForm {
    fields: Vec<(String, SchemaType)>,
    values: Vec<FieldValue>,
}

/// The mathematical content of an `EntryForm`.
pub struct FormView {
    pub fields: Seq<(Seq<char>, SchemaType)>,
    pub values: Seq<FieldValueView>,
}

/// What became of an answer.
#[derive(Debug, PartialEq, Eq)]
pub enum Answer {
    /// The answer was read as the field's value.
    Accepted,
    /// The answer was turned down, with the message to show; the same field
    /// is asked again.
    Rejected(String),
    /// Nothing was asked: every field has its value.
    NotAsked,
}

/// The content of a text that may be missing.
pub open spec fn text_of(text: Option<String>) -> Option<Seq<char>> {
    match text {
        Some(t) => Some(t@),
        None => None,
    }
}

/// The contents of a sequence of values.
pub open spec fn value_views(values: Seq<FieldValue>) -> Seq<FieldValueView> {
    Seq::new(values.len(), |i: int| values[i]@)
}

/// Whether `value` is what a field of type `field` reads from some input.
pub open spec fn readable(field: SchemaType, value: FieldValueView) -> bool {
    exists|raw: Seq<char>| #[trigger] field.parsed(raw, EmptyInput::EmptyArray) == Some(value)
}

/// The question that asks for the field `name` of type `field`.
pub open spec fn question(name: Seq<char>, field: SchemaType) -> Seq<char> {
    "Please provide the "@ + name + " ("@ + field.label() + "):"@
}

/// The message that turns an answer down for a field of type `field`.
pub open spec fn complaint(field: SchemaType) -> Seq<char> {
    "Invalid value received, make sure it is a valid "@ + field.label() + "."@
}

impl FormView {
    /// Whether every field has its value.
    pub open spec fn complete(self) -> bool {
        self.values.len() >= self.fields.len()
    }

    /// The field that is asked for next.
    pub open spec fn current(self) -> (Seq<char>, SchemaType) {
        self.fields[self.values.len() as int]
    }

    /// The question to show next: the one for the field that is asked for,
    /// and none where every field has its value.
    pub open spec fn next_question(self) -> Option<Seq<char>> {
        if self.complete() {
            None
        } else {
            Some(question(self.current().0, self.current().1))
        }
    }

    /// What the answer is read as: the value of the field that is asked for,
    /// where there is such a field and it takes the answer.
    pub open spec fn reading(self, response: Seq<char>) -> Option<FieldValueView> {
        if self.complete() {
            None
        } else {
            self.current().1.parsed(response, EmptyInput::EmptyArray)
        }
    }

    /// The form after the answer: with one more value where the answer was
    /// taken, and else as it was.
    pub open spec fn answered(self, response: Seq<char>) -> FormView {
        match self.reading(response) {
            Some(value) => FormView { fields: self.fields, values: self.values.push(value) },
            None => self,
        }
    }

    /// Whether each value read so far is one that its field's type reads
    /// from some input.
    pub open spec fn valid(self) -> bool {
        &&& self.values.len() <= self.fields.len()
        &&& forall|i: int|
            0 <= i < self.values.len() ==> readable(self.fields[i].1, #[trigger] self.values[i])
    }
}

impl View for EntryForm {
    type V = FormView;

    closed spec fn view(&self) -> FormView {
        FormView {
            fields: crate::schema::entry_views(self.fields@),
            values: value_views(self.values@),
        }
    }
}

impl EntryForm {
    /// What holds of every form: it has no more values than fields, and each
    /// value is one that its field's type reads from some input.
    #[verifier::type_invariant]
    pub closed spec fn well_formed(&self) -> bool {
        self@.valid()
    }

    /// An empty form for the schema.
    pub fn new(schema: Schema) -> (form: EntryForm)
        ensures
            form@.fields == schema.entries(),
            form@.values.len() == 0,
            ordered(form@.fields),
    {
        let ghost entries = schema.entries();
        let fields = schema.into_entries();
        let form = EntryForm { fields, values: Vec::new() };
        assert(form@.fields == entries);
        form
    }

    /// Tells whether every field has its value.
    pub fn is_complete(&self) -> (complete: bool)
        ensures
            complete == self@.complete(),
            self@.valid(),
    {
        proof {
            use_type_invariant(self);
        }
        self.values.len() >= self.fields.len()
    }

    /// The question for the field that is asked for next, and nothing where
    /// every field has its value.
    pub fn prompt(&self) -> (r: Option<String>)
        ensures
            text_of(r) == self@.next_question(),
    {
        if self.is_complete() {
            return None;
        }
        let at: usize = self.values.len();
        let name = self.fields[at].0.as_str();
        let label = self.fields[at].1.to_string();
        let a = append("Please provide the ", name);
        let b = append(a.as_str(), " (");
        let c = append(b.as_str(), label.as_str());
        let text = append(c.as_str(), "):");
        assert(self@.current() == (name@, self.fields@[at as int].1));
        Some(text)
    }

    /// Takes the user's answer to the question that `prompt` gives.
    pub fn answer(&mut self, response: &str) -> (answer: Answer)
        ensures
            final(self)@ == old(self)@.answered(response@),
            final(self)@.valid(),
            match answer {
                Answer::Accepted => old(self)@.reading(response@) is Some,
                Answer::Rejected(message) => !old(self)@.complete() && old(self)@.reading(
                    response@,
                ) is None && message@ == complaint(old(self)@.current().1),
                Answer::NotAsked => old(self)@.complete(),
            },
    {
        proof {
            use_type_invariant(&*self);
        }
        let at: usize = self.values.len();
        if at >= self.fields.len() {
            return Answer::NotAsked;
        }
        let field = self.fields[at].1;
        assert(self@.current().1 == field);
        match field.parse(response) {
            Some(value) => {
                let mut values: Vec<FieldValue> = Vec::new();
                std::mem::swap(&mut values, &mut self.values);
                let ghost before = value_views(values@);
                let ghost fields = crate::schema::entry_views(self.fields@);
                values.push(value);
                proof {
                    assert(value_views(values@) =~= before.push(value@));
                    let after = FormView { fields, values: value_views(values@) };
                    assert forall|i: int| 0 <= i < after.values.len() implies readable(
                        after.fields[i].1,
                        #[trigger] after.values[i],
                    ) by {
                        if i == at {
                            assert(after.fields[i].1.parsed(response@, EmptyInput::EmptyArray)
                                == Some(after.values[i]));
                        } else {
                            assert(after.values[i] == before[i]);
                        }
                    }
                }
                self.values = values;
                Answer::Accepted
            },
            None => {
                let label = field.to_string();
                let start = append(
                    "Invalid value received, make sure it is a valid ",
                    label.as_str(),
                );
                Answer::Rejected(append(start.as_str(), "."))
            },
        }
    }

    /// The entry: each field that has its value, by name, in the order of the
    /// names.
    pub fn into_record(self) -> (record: Vec<(String, FieldValue)>)
        ensures
            record@.len() == self@.values.len(),
            self@.valid(),
            forall|i: int|
                0 <= i < record@.len() ==> (#[trigger] record@[i]).0@ == self@.fields[i].0
                    && record@[i].1@ == self@.values[i],
    {
        proof {
            use_type_invariant(&self);
        }
        let ghost view = self@;
        let EntryForm { fields, values } = self;
        let mut record: Vec<(String, FieldValue)> = Vec::new();
        let mut values = values;
        let mut fields = fields;
        let count: usize = values.len();
        fields.truncate(count);
        while values.len() > 0
            invariant
                values@.len() == fields@.len(),
                values@.len() + record@.len() == count,
                count == view.values.len(),
                values@.len() <= view.values.len(),
                forall|i: int|
                    0 <= i < values@.len() ==> (#[trigger] fields@[i]).0@ == view.fields[i].0,
                forall|i: int| 0 <= i < values@.len() ==> (#[trigger] values@[i])@ == view.values[i],
                forall|i: int|
                    0 <= i < record@.len() ==> (#[trigger] record@[i]).0@ == view.fields[count - 1
                        - i].0 && record@[i].1@ == view.values[count - 1 - i],
            decreases values@.len(),
        {
            let value = values.pop().unwrap();
            let field = fields.pop().unwrap();
            record.push((field.0, value));
        }
        reverse(&mut record);
        record
    }
}

/// Where the drawing up of a schema stands.
#[derive(Debug)]
pub enum DraftStage {
    /// The schema's name is asked for.
    Name,
    /// The name of a new field is asked for.
    FieldName,
    /// The kind of the field of this name is asked for.
    FieldType(String),
    /// Whether the field of this name and kind takes many values is asked.
    IsArray(String, SchemaDataType),
    /// The user has finished.
    Done,
}

/// The mathematical content of a `DraftStage`.
pub enum StageView {
    Name,
    FieldName,
    FieldType(Seq<char>),
    IsArray(Seq<char>, SchemaDataType),
    Done,
}

/// A schema that is being drawn up.
#[derive(Debug)]
pub struct SchemaDraft {
    name: String,
    schema: Schema,
    stage: DraftStage,
}

/// The mathematical content of a `SchemaDraft`.
pub struct DraftView {
    pub name: Seq<char>,
    pub fields: Seq<(Seq<char>, SchemaType)>,
    pub stage: StageView,
}

impl View for DraftStage {
    type V = StageView;

    open spec fn view(&self) -> StageView {
        match self {
            DraftStage::Name => StageView::Name,
            DraftStage::FieldName => StageView::FieldName,
            DraftStage::FieldType(name) => StageView::FieldType(name@),
            DraftStage::IsArray(name, data_type) => StageView::IsArray(name@, *data_type),
            DraftStage::Done => StageView::Done,
        }
    }
}

/// The line that asks for the schema's name.
pub open spec fn ask_schema_name() -> Seq<char> {
    "Enter a name for the schema"@
}

/// The line that asks for the name of a new field.
pub open spec fn ask_field_name() -> Seq<char> {
    "Enter a name for the new field (or nothing to finish up):"@
}

/// The line that asks for the kind of a new field.
pub open spec fn ask_field_type() -> Seq<char> {
    "Enter a type for the new field (string, number, date):"@
}

/// The line that asks whether a new field takes many values.
pub open spec fn ask_is_array() -> Seq<char> {
    "Is this an array? (y/n)"@
}

/// The type of a new field of the kind `data_type`, the user having said
/// `answer` to the question whether it takes many values: many where the
/// answer is `y` in either case, and one otherwise.
pub open spec fn field_type(data_type: SchemaDataType, answer: Seq<char>) -> SchemaType {
    SchemaType {
        count: if lowercase(trimmed(answer)) == "y"@ {
            SchemaCount::Many
        } else {
            SchemaCount::One
        },
        data_type,
    }
}

impl DraftView {
    /// The draft after the user's line.
    ///
    /// The first line names the schema. Then fields are taken one after the
    /// other: a name, where an empty one ends the conversation; a kind, asked
    /// for until one is named; and whether the field takes many values. A
    /// field named twice keeps what was said last.
    pub open spec fn after(self, line: Seq<char>) -> DraftView {
        let said = trimmed(line);
        match self.stage {
            StageView::Name => DraftView { name: said, stage: StageView::FieldName, ..self },
            StageView::FieldName => if said.len() == 0 {
                DraftView { stage: StageView::Done, ..self }
            } else {
                DraftView { stage: StageView::FieldType(said), ..self }
            },
            StageView::FieldType(field) => match SchemaDataType::named(lowercase(said)) {
                Ok(data_type) => DraftView { stage: StageView::IsArray(field, data_type), ..self },
                Err(_) => self,
            },
            StageView::IsArray(field, data_type) => DraftView {
                fields: crate::fields::placed(self.fields, field, field_type(data_type, line)),
                stage: StageView::FieldName,
                ..self
            },
            StageView::Done => self,
        }
    }

    /// The lines to show after the user's line.
    pub open spec fn says(self, line: Seq<char>) -> Seq<Seq<char>> {
        let said = trimmed(line);
        match self.stage {
            StageView::Name => seq![ask_field_name()],
            StageView::FieldName => if said.len() == 0 {
                if self.fields.len() == 0 {
                    seq!["Schema is empty, not saving."@]
                } else {
                    seq!["Saving schema..."@]
                }
            } else {
                seq!["found "@ + said, ask_field_type()]
            },
            StageView::FieldType(_) => match SchemaDataType::named(lowercase(said)) {
                Ok(_) => seq![ask_is_array()],
                Err(_) => seq!["Invalid data type received, try again."@],
            },
            StageView::IsArray(_, _) => seq![ask_field_name()],
            StageView::Done => Seq::empty(),
        }
    }

    /// Whether the schema is to be saved: the user has finished, and the
    /// schema has a field.
    pub open spec fn to_save(self) -> bool {
        self.stage is Done && self.fields.len() > 0
    }
}

impl View for SchemaDraft {
    type V = DraftView;

    closed spec fn view(&self) -> DraftView {
        DraftView { name: self.name@, fields: self.schema.entries(), stage: self.stage@ }
    }
}

impl SchemaDraft {
    /// A draft without a name and without fields, and the line to show first.
    pub fn start() -> (begun: (SchemaDraft, String))
        ensures
            begun.0@ == (DraftView {
                name: Seq::<char>::empty(),
                fields: Seq::<(Seq<char>, SchemaType)>::empty(),
                stage: StageView::Name,
            }),
            begun.1@ == ask_schema_name(),
    {
        let draft = SchemaDraft {
            name: String::new(),
            schema: Schema::new(),
            stage: DraftStage::Name,
        };
        (draft, "Enter a name for the schema".to_owned())
    }

    /// Tells whether the user has finished.
    pub fn is_done(&self) -> (done: bool)
        ensures
            done == (self@.stage is Done),
    {
        match self.stage {
            DraftStage::Done => true,
            _ => false,
        }
    }

    /// Takes the user's next line and gives the lines to show after it.
    pub fn answer(&mut self, line: &str) -> (shown: Vec<String>)
        ensures
            final(self)@ == old(self)@.after(line@),
            texts(shown@) == old(self)@.says(line@),
    {
        let said = trim(line);
        let mut stage = DraftStage::Done;
        std::mem::swap(&mut stage, &mut self.stage);
        let mut shown: Vec<String> = Vec::new();
        match stage {
            DraftStage::Name => {
                self.name = said.to_owned();
                self.stage = DraftStage::FieldName;
                shown.push("Enter a name for the new field (or nothing to finish up):".to_owned());
                assert(texts(shown@) =~= seq![ask_field_name()]);
            },
            DraftStage::FieldName => {
                if said.is_empty() {
                    self.stage = DraftStage::Done;
                    if self.schema.is_empty() {
                        shown.push("Schema is empty, not saving.".to_owned());
                        assert(texts(shown@) =~= seq!["Schema is empty, not saving."@]);
                    } else {
                        shown.push("Saving schema...".to_owned());
                        assert(texts(shown@) =~= seq!["Saving schema..."@]);
                    }
                } else {
                    self.stage = DraftStage::FieldType(said.to_owned());
                    shown.push(append("found ", said));
                    shown.push("Enter a type for the new field (string, number, date):".to_owned());
                    assert(texts(shown@) =~= seq!["found "@ + said@, ask_field_type()]);
                }
            },
            DraftStage::FieldType(field) => {
                match SchemaDataType::from_str(said) {
                    Ok(data_type) => {
                        self.stage = DraftStage::IsArray(field, data_type);
                        shown.push("Is this an array? (y/n)".to_owned());
                        assert(texts(shown@) =~= seq![ask_is_array()]);
                    },
                    Err(_) => {
                        self.stage = DraftStage::FieldType(field);
                        shown.push("Invalid data type received, try again.".to_owned());
                        assert(texts(shown@) =~= seq![
                            "Invalid data type received, try again."@,
                        ]);
                    },
                }
            },
            DraftStage::IsArray(field, data_type) => {
                let lowered = to_lowercase(said);
                let count = if equal(lowered.as_str(), "y") {
                    SchemaCount::Many
                } else {
                    SchemaCount::One
                };
                self.schema.insert(field, SchemaType { count, data_type });
                self.stage = DraftStage::FieldName;
                shown.push("Enter a name for the new field (or nothing to finish up):".to_owned());
                assert(texts(shown@) =~= seq![ask_field_name()]);
            },
            DraftStage::Done => {
                assert(texts(shown@) =~= Seq::<Seq<char>>::empty());
            },
        }
        shown
    }

    /// The schema with its name, where it is to be saved: the user has
    /// finished and the schema has a field.
    pub fn finish(self) -> (r: Option<(String, Schema)>)
        ensures
            r is Some == self@.to_save(),
            r matches Some(named) ==> named.0@ == self@.name && named.1.entries() == self@.fields,
    {
        if self.is_done() && !self.schema.is_empty() {
            Some((self.name, self.schema))
        } else {
            None
        }
    }
}

/// Puts the items of `items` in the opposite order.
fn reverse<T>(items: &mut Vec<T>)
    ensures
        final(items)@.len() == old(items)@.len(),
        forall|i: int|
            0 <= i < old(items)@.len() ==> #[trigger] final(items)@[i] == old(items)@[old(
                items,
            )@.len() - 1 - i],
{
    let n: usize = items.len();
    let mut out: Vec<T> = Vec::new();
    let ghost before = items@;
    while items.len() > 0
        invariant
            items@.len() + out@.len() == n,
            n == before.len(),
            forall|i: int| 0 <= i < items@.len() ==> #[trigger] items@[i] == before[i],
            forall|i: int| 0 <= i < out@.len() ==> #[trigger] out@[i] == before[n - 1 - i],
        decreases items@.len(),
    {
        let item = items.pop().unwrap();
        out.push(item);
    }
    *items = out;
}

} // verus!
