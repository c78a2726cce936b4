//! Planning a search: which fields a term is looked up in, and how its tokens
//! combine.

use vstd::prelude::*;
use vstd::string::*;

use crate::schema::FieldId;

verus! {

/// The fields that a search can be restricted to.
#[derive(Debug, Clone, Copy, PartialEq, Eq, Structural)]
pub enum Field {
    Word,
    Reading,
    ReadingRomaji,
    Meaning,
}

/// The number of matches that a search returns at most.
pub const RESULT_LIMIT: usize = 10;

/// The field of the index that a search field stands for.
pub open spec fn field_id_of(field: Field) -> FieldId {
    match field {
        Field::Word => FieldId::Word,
        Field::Reading => FieldId::Reading,
        Field::ReadingRomaji => FieldId::ReadingRomaji,
        Field::Meaning => FieldId::Meaning,
    }
}

impl Field {
    /// The field of the index that this search field stands for.
    pub fn id(self) -> (id: FieldId)
        ensures
            id == field_id_of(self),
    {
        match self {
            Field::Word => FieldId::Word,
            Field::Reading => FieldId::Reading,
            Field::ReadingRomaji => FieldId::ReadingRomaji,
            Field::Meaning => FieldId::Meaning,
        }
    }
}

/// A search as it is handed to the index.
#[derive(Debug, Clone, PartialEq, Eq)]
pub struct Query {
    /// The text to look for, as the user gave it.
    pub term: String,
    /// The fields in which a token may match.
    pub target_fields: Vec<Field>,
    /// Every token of the term has to match, not just one of them.
    pub conjunctive: bool,
    /// The number of matches to return at most, best first.
    pub limit: usize,
}

pub struct QueryView {
    pub term: Seq<char>,
    pub target_fields: Seq<Field>,
    pub conjunctive: bool,
    pub limit: nat,
}

impl View for Query {
    type V = QueryView;

    open spec fn view(&self) -> QueryView {
        QueryView {
            term: self.term@,
            target_fields: self.target_fields@,
            conjunctive: self.conjunctive,
            limit: self.limit as nat,
        }
    }
}

/// The fields that a search goes through: the one it is restricted to, or else
/// words, readings, romanized readings and meanings.
pub open spec fn targets(field: Option<Field>) -> Seq<Field> {
    match field {
        Some(field) => seq![field],
        None => seq![Field::Word, Field::Reading, Field::ReadingRomaji, Field::Meaning],
    }
}

/// The search for `term`, restricted to `field` where one is given.
pub open spec fn planned(term: Seq<char>, field: Option<Field>) -> QueryView {
    QueryView { term, target_fields: targets(field), conjunctive: true, limit: RESULT_LIMIT as nat }
}

/// Plans the search for `term`. Every token of the term has to match, and the ten
/// best matches are asked for.
pub fn plan_query(term: &str, field: Option<Field>) -> (query: Query)
    ensures
        query@ == planned(term@, field),
{
    let mut target_fields: Vec<Field> = Vec::new();
    match field {
        Some(field) => {
            target_fields.push(field);
        },
        None => {
            target_fields.push(Field::Word);
            target_fields.push(Field::Reading);
            target_fields.push(Field::ReadingRomaji);
            target_fields.push(Field::Meaning);
        },
    }
    assert(target_fields@ =~= targets(field));
    Query { term: String::from_str(term), target_fields, conjunctive: true, limit: RESULT_LIMIT }
}

} // verus!
