//! The fields of the index, as typed handles, and how each is indexed and stored.

use vstd::prelude::*;
use vstd::string::*;

verus! {

/// A field of the index.
#[derive(Debug, Clone, Copy, PartialEq, Eq, Structural)]
pub enum FieldId {
    /// The sequence number of the entry.
    Id,
    Word,
    Reading,
    ReadingRomaji,
    Meaning,
    /// The parts of speech of a sense.
    Pos,
    /// The fields of use of a sense.
    Field,
}

/// How the values of a field are indexed.
#[derive(Debug, Clone, Copy, PartialEq, Eq, Structural)]
pub enum Indexing {
    /// A 64-bit integer, searchable as such.
    Integer,
    /// Text that the tokenizer for Japanese cuts into tokens; the index records the
    /// documents in which a token occurs.
    Japanese,
    /// Text that the default tokenizer cuts into tokens; the index records how often
    /// and where a token occurs.
    Text,
}

/// One field of a schema.
#[derive(Debug, Clone, Copy, PartialEq, Eq, Structural)]
pub struct FieldEntry {
    pub field: FieldId,
    pub indexing: Indexing,
    /// The values can be read back from the index.
    pub stored: bool,
}

/// How `field` is indexed: the sequence number as an integer, words and readings as
/// Japanese text, everything else as text in Latin script.
pub open spec fn indexing_of(field: FieldId) -> Indexing {
    match field {
        FieldId::Id => Indexing::Integer,
        FieldId::Word => Indexing::Japanese,
        FieldId::Reading => Indexing::Japanese,
        _ => Indexing::Text,
    }
}

/// The entry of `field` in the schema of the dictionary. Every field is stored.
pub open spec fn entry_of(field: FieldId) -> FieldEntry {
    FieldEntry { field, indexing: indexing_of(field), stored: true }
}

/// The fields of the dictionary, in the order in which the schema declares them.
pub open spec fn field_order() -> Seq<FieldId> {
    seq![
        FieldId::Id,
        FieldId::Word,
        FieldId::Reading,
        FieldId::ReadingRomaji,
        FieldId::Meaning,
        FieldId::Pos,
        FieldId::Field,
    ]
}

/// The name of `field` in the index.
pub open spec fn name_of(field: FieldId) -> Seq<char> {
    match field {
        FieldId::Id => "id"@,
        FieldId::Word => "word"@,
        FieldId::Reading => "reading"@,
        FieldId::ReadingRomaji => "reading_romaji"@,
        FieldId::Meaning => "meaning"@,
        FieldId::Pos => "pos"@,
        FieldId::Field => "field"@,
    }
}

/// The name under which the tokenizer of `indexing` is registered; none for
/// integers.
pub open spec fn tokenizer_of(indexing: Indexing) -> Option<Seq<char>> {
    match indexing {
        Indexing::Integer => None,
        Indexing::Japanese => Some("ja_JP"@),
        Indexing::Text => Some("default"@),
    }
}

impl FieldId {
    /// The name of the field in the index.
    pub fn name(self) -> (name: &'static str)
        ensures
            name@ == name_of(self),
    {
        match self {
            FieldId::Id => "id",
            FieldId::Word => "word",
            FieldId::Reading => "reading",
            FieldId::ReadingRomaji => "reading_romaji",
            FieldId::Meaning => "meaning",
            FieldId::Pos => "pos",
            FieldId::Field => "field",
        }
    }

    /// The entry of the field in the schema of the dictionary.
    pub fn entry(self) -> (entry: FieldEntry)
        ensures
            entry == entry_of(self),
    {
        let indexing = match self {
            FieldId::Id => Indexing::Integer,
            FieldId::Word => Indexing::Japanese,
            FieldId::Reading => Indexing::Japanese,
            _ => Indexing::Text,
        };
        FieldEntry { field: self, indexing, stored: true }
    }
}

impl Indexing {
    /// The name under which the tokenizer is registered; none for integers.
    pub fn tokenizer(self) -> (name: Option<&'static str>)
        ensures
            match name {
                Some(name) => tokenizer_of(self) == Some(name@),
                None => tokenizer_of(self) is None,
            },
    {
        match self {
            Indexing::Integer => None,
            Indexing::Japanese => Some("ja_JP"),
            Indexing::Text => Some("default"),
        }
    }
}

/// A schema: its fields in the order of their declaration.
#[derive(Debug, Clone, PartialEq, Eq)]
pub struct Schema {
    pub fields: Vec<FieldEntry>,
}

impl View for Schema {
    type V = Seq<FieldEntry>;

    open spec fn view(&self) -> Seq<FieldEntry> {
        self.fields@
    }
}

/// The schema of the dictionary: each field once, in the order of `field_order`,
/// with the entry that `entry_of` gives it.
pub open spec fn dictionary_schema() -> Seq<FieldEntry> {
    Seq::new(field_order().len(), |i: int| entry_of(field_order()[i]))
}

/// Declares the schema of the dictionary.
pub fn create_schema() -> (schema: Schema)
    ensures
        schema@ == dictionary_schema(),
{
    let mut fields: Vec<FieldEntry> = Vec::new();
    fields.push(FieldId::Id.entry());
    fields.push(FieldId::Word.entry());
    fields.push(FieldId::Reading.entry());
    fields.push(FieldId::ReadingRomaji.entry());
    fields.push(FieldId::Meaning.entry());
    fields.push(FieldId::Pos.entry());
    fields.push(FieldId::Field.entry());
    assert(fields@ =~= dictionary_schema());
    Schema { fields }
}

} // verus!
