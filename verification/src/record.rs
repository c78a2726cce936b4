//! Dictionary entries as they are gathered, and the flat records that go to the
//! index.

use vstd::prelude::*;
use vstd::string::*;

use crate::romaji::{romanize, romanized};
use crate::text::{decimal_i64, join, joined, parse_i64};

verus! {

/// What stands between the values of one sense when they are stored as one text.
pub open spec fn separator() -> Seq<char> {
    "; "@
}

/// Appends `text` to `list`.
pub fn push_text(list: &mut Vec<String>, text: String)
    ensures
        final(list).deep_view() == old(list).deep_view().push(text@),
{
    let ghost before = list.deep_view();
    let ghost added = text@;
    list.push(text);
    assert(list.deep_view() =~= before.push(added));
}

/// The values of the sense that is being read: its glosses, its parts of speech and
/// its fields of use, each in the order of the document.
#[derive(Debug, Clone, PartialEq, Eq)]
pub struct Sense {
    pub glosses: Vec<String>,
    pub parts_of_speech: Vec<String>,
    pub fields: Vec<String>,
}

pub struct SenseView {
    pub glosses: Seq<Seq<char>>,
    pub parts_of_speech: Seq<Seq<char>>,
    pub fields: Seq<Seq<char>>,
}

impl SenseView {
    /// A sense without values.
    pub open spec fn empty() -> SenseView {
        SenseView { glosses: Seq::empty(), parts_of_speech: Seq::empty(), fields: Seq::empty() }
    }

    /// The glosses as one text.
    pub open spec fn meaning(self) -> Seq<char> {
        joined(self.glosses, separator())
    }

    /// The parts of speech as one text.
    pub open spec fn pos(self) -> Seq<char> {
        joined(self.parts_of_speech, separator())
    }

    /// The fields of use as one text.
    pub open spec fn field(self) -> Seq<char> {
        joined(self.fields, separator())
    }
}

impl View for Sense {
    type V = SenseView;

    open spec fn view(&self) -> SenseView {
        SenseView {
            glosses: self.glosses.deep_view(),
            parts_of_speech: self.parts_of_speech.deep_view(),
            fields: self.fields.deep_view(),
        }
    }
}

impl Sense {
    /// A sense without values.
    pub fn new() -> (sense: Sense)
        ensures
            sense@ == SenseView::empty(),
    {
        let sense = Sense { glosses: Vec::new(), parts_of_speech: Vec::new(), fields: Vec::new() };
        assert(sense.glosses.deep_view() =~= Seq::empty());
        assert(sense.parts_of_speech.deep_view() =~= Seq::empty());
        assert(sense.fields.deep_view() =~= Seq::empty());
        sense
    }

    /// Forgets every value.
    pub fn clear(&mut self)
        ensures
            final(self)@ == SenseView::empty(),
    {
        self.glosses.clear();
        self.parts_of_speech.clear();
        self.fields.clear();
        assert(self.glosses.deep_view() =~= Seq::empty());
        assert(self.parts_of_speech.deep_view() =~= Seq::empty());
        assert(self.fields.deep_view() =~= Seq::empty());
    }
}

/// The entry that is being read. Its senses are kept as they will be stored: per
/// sense one text of meanings, one of parts of speech and one of fields, at the same
/// position in the three lists.
#[derive(Debug, Clone, PartialEq, Eq)]
pub struct Entry {
    /// The sequence number, once one was read.
    pub id: Option<i64>,
    /// A sequence number was given that is no 64-bit integer.
    pub id_invalid: bool,
    pub words: Vec<String>,
    pub readings: Vec<String>,
    pub readings_romaji: Vec<String>,
    pub meanings: Vec<String>,
    pub pos: Vec<String>,
    pub fields: Vec<String>,
}

pub struct EntryView {
    pub id: Option<int>,
    pub id_invalid: bool,
    pub words: Seq<Seq<char>>,
    pub readings: Seq<Seq<char>>,
    pub readings_romaji: Seq<Seq<char>>,
    pub meanings: Seq<Seq<char>>,
    pub pos: Seq<Seq<char>>,
    pub fields: Seq<Seq<char>>,
}

/// The unit that is handed to the index: one entry, flattened.
#[derive(Debug, Clone, PartialEq, Eq)]
pub struct Record {
    pub id: i64,
    pub words: Vec<String>,
    pub readings: Vec<String>,
    pub readings_romaji: Vec<String>,
    pub meanings: Vec<String>,
    pub pos: Vec<String>,
    pub fields: Vec<String>,
}

pub struct RecordView {
    pub id: int,
    pub words: Seq<Seq<char>>,
    pub readings: Seq<Seq<char>>,
    pub readings_romaji: Seq<Seq<char>>,
    pub meanings: Seq<Seq<char>>,
    pub pos: Seq<Seq<char>>,
    pub fields: Seq<Seq<char>>,
}

impl RecordView {
    /// Each reading has its romanization at the same position, and each sense its
    /// meaning, part of speech and field at the same position.
    pub open spec fn aligned(self) -> bool {
        &&& self.readings_romaji.len() == self.readings.len()
        &&& forall|i: int|
            0 <= i < self.readings.len() ==> self.readings_romaji[i] == romanized(
                #[trigger] self.readings[i],
            )
        &&& self.pos.len() == self.meanings.len()
        &&& self.fields.len() == self.meanings.len()
    }
}

impl View for Record {
    type V = RecordView;

    open spec fn view(&self) -> RecordView {
        RecordView {
            id: self.id as int,
            words: self.words.deep_view(),
            readings: self.readings.deep_view(),
            readings_romaji: self.readings_romaji.deep_view(),
            meanings: self.meanings.deep_view(),
            pos: self.pos.deep_view(),
            fields: self.fields.deep_view(),
        }
    }
}

impl DeepView for Record {
    type V = RecordView;

    open spec fn deep_view(&self) -> RecordView {
        self@
    }
}

impl EntryView {
    /// The entry as it is when its start tag has been read.
    pub open spec fn empty() -> EntryView {
        EntryView {
            id: None,
            id_invalid: false,
            words: Seq::empty(),
            readings: Seq::empty(),
            readings_romaji: Seq::empty(),
            meanings: Seq::empty(),
            pos: Seq::empty(),
            fields: Seq::empty(),
        }
    }

    /// The entry after a sequence number with the text `text`: the number, where the
    /// text writes a 64-bit integer; an entry marked as invalid, where it does not.
    pub open spec fn with_id_text(self, text: Seq<char>) -> EntryView {
        match decimal_i64(text) {
            Some(id) => EntryView { id: Some(id), ..self },
            None => EntryView { id_invalid: true, ..self },
        }
    }

    /// The entry after one more word.
    pub open spec fn with_word(self, word: Seq<char>) -> EntryView {
        EntryView { words: self.words.push(word), ..self }
    }

    /// The entry after one more reading, which comes with its romanization.
    pub open spec fn with_reading(self, reading: Seq<char>) -> EntryView {
        EntryView {
            readings: self.readings.push(reading),
            readings_romaji: self.readings_romaji.push(romanized(reading)),
            ..self
        }
    }

    /// The entry after one more sense.
    pub open spec fn with_sense(self, sense: SenseView) -> EntryView {
        EntryView {
            meanings: self.meanings.push(sense.meaning()),
            pos: self.pos.push(sense.pos()),
            fields: self.fields.push(sense.field()),
            ..self
        }
    }

    /// The entry has a sequence number and was given no invalid one.
    pub open spec fn accepted(self) -> bool {
        self.id is Some && !self.id_invalid
    }

    /// The record of an accepted entry.
    pub open spec fn record(self) -> RecordView {
        RecordView {
            id: self.id->0,
            words: self.words,
            readings: self.readings,
            readings_romaji: self.readings_romaji,
            meanings: self.meanings,
            pos: self.pos,
            fields: self.fields,
        }
    }

    /// Each reading has its romanization at the same position, and each sense its
    /// meaning, part of speech and field at the same position.
    pub open spec fn aligned(self) -> bool {
        self.record().aligned()
    }
}

impl View for Entry {
    type V = EntryView;

    open spec fn view(&self) -> EntryView {
        EntryView {
            id: match self.id {
                Some(id) => Some(id as int),
                None => None,
            },
            id_invalid: self.id_invalid,
            words: self.words.deep_view(),
            readings: self.readings.deep_view(),
            readings_romaji: self.readings_romaji.deep_view(),
            meanings: self.meanings.deep_view(),
            pos: self.pos.deep_view(),
            fields: self.fields.deep_view(),
        }
    }
}

impl DeepView for Entry {
    type V = EntryView;

    open spec fn deep_view(&self) -> EntryView {
        self@
    }
}

impl Entry {
    /// An entry of which nothing has been read yet.
    pub fn new() -> (entry: Entry)
        ensures
            entry@ == EntryView::empty(),
    {
        let entry = Entry {
            id: None,
            id_invalid: false,
            words: Vec::new(),
            readings: Vec::new(),
            readings_romaji: Vec::new(),
            meanings: Vec::new(),
            pos: Vec::new(),
            fields: Vec::new(),
        };
        assert(entry.words.deep_view() =~= Seq::empty());
        assert(entry.readings.deep_view() =~= Seq::empty());
        assert(entry.readings_romaji.deep_view() =~= Seq::empty());
        assert(entry.meanings.deep_view() =~= Seq::empty());
        assert(entry.pos.deep_view() =~= Seq::empty());
        assert(entry.fields.deep_view() =~= Seq::empty());
        entry
    }

    /// Takes the text of a sequence number.
    pub fn set_id(&mut self, text: &str)
        ensures
            final(self)@ == old(self)@.with_id_text(text@),
    {
        match parse_i64(text) {
            Some(id) => {
                self.id = Some(id);
            },
            None => {
                self.id_invalid = true;
            },
        }
    }

    /// Adds a word.
    pub fn add_word(&mut self, word: String)
        ensures
            final(self)@ == old(self)@.with_word(word@),
    {
        push_text(&mut self.words, word);
    }

    /// Adds a reading and its romanization.
    pub fn add_reading(&mut self, reading: String)
        ensures
            final(self)@ == old(self)@.with_reading(reading@),
    {
        let latin = romanize(reading.as_str());
        push_text(&mut self.readings, reading);
        push_text(&mut self.readings_romaji, latin);
    }

    /// Adds a sense: its glosses, its parts of speech and its fields, each list joined
    /// into one text.
    pub fn add_sense(&mut self, sense: &Sense)
        ensures
            final(self)@ == old(self)@.with_sense(sense@),
    {
        push_text(&mut self.meanings, join(&sense.glosses, "; "));
        push_text(&mut self.pos, join(&sense.parts_of_speech, "; "));
        push_text(&mut self.fields, join(&sense.fields, "; "));
    }

    /// Flattens the entry into its record; hands the entry back where it has no valid
    /// sequence number.
    pub fn finish(self) -> (outcome: Result<Record, Entry>)
        ensures
            match outcome {
                Ok(record) => self@.accepted() && record@ == self@.record(),
                Err(entry) => !self@.accepted() && entry@ == self@,
            },
    {
        if self.id_invalid {
            return Err(self);
        }
        match self.id {
            Some(id) => Ok(
                Record {
                    id,
                    words: self.words,
                    readings: self.readings,
                    readings_romaji: self.readings_romaji,
                    meanings: self.meanings,
                    pos: self.pos,
                    fields: self.fields,
                },
            ),
            None => Err(self),
        }
    }
}

} // verus!
