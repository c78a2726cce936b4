//! The walk through the events of a dictionary: a state that is threaded through the
//! events, and the records that come out.

use vstd::prelude::*;
use vstd::string::*;

use crate::event::{classify, tag_of, Event, EventView, Tag};
use crate::leaf::{
    ends_value, extract_next_string, leaf_value, lemma_char_data_local, lemma_value_end, value_end,
    StructuralError,
};
use crate::record::{push_text, Entry, EntryView, Record, RecordView, Sense, SenseView};

verus! {

/// What the walk knows between two events.
#[derive(Debug, Clone, PartialEq, Eq)]
pub struct Parser {
    /// The entry that is open, if one is.
    pub entry: Option<Entry>,
    /// A sense is open.
    pub sense_open: bool,
    /// The values of the sense that was opened last.
    pub sense: Sense,
    /// The records of the entries that were closed with a valid sequence number.
    pub records: Vec<Record>,
    /// The entries that were closed without one.
    pub rejected: Vec<Entry>,
}

pub struct ParserView {
    pub entry: Option<EntryView>,
    pub sense_open: bool,
    pub sense: SenseView,
    pub records: Seq<RecordView>,
    pub rejected: Seq<EntryView>,
}

/// What a walk leaves behind.
#[derive(Debug, Clone, PartialEq, Eq)]
pub struct Parsed {
    /// One record for each accepted entry, in the order of the document.
    pub records: Vec<Record>,
    /// The entries that had no valid sequence number, in the order of the document.
    pub rejected: Vec<Entry>,
}

pub struct ParsedView {
    pub records: Seq<RecordView>,
    pub rejected: Seq<EntryView>,
}

impl View for Parsed {
    type V = ParsedView;

    open spec fn view(&self) -> ParsedView {
        ParsedView { records: self.records.deep_view(), rejected: self.rejected.deep_view() }
    }
}

/// What one step of the walk leads to.
pub enum Step {
    /// The walk goes on in this state at this position.
    Next(ParserView, int),
    /// The document has ended.
    Done,
    /// The walk has failed.
    Failed(StructuralError),
}

impl ParserView {
    /// The state before the first event.
    pub open spec fn new() -> ParserView {
        ParserView {
            entry: None,
            sense_open: false,
            sense: SenseView::empty(),
            records: Seq::empty(),
            rejected: Seq::empty(),
        }
    }

    /// After the start tag of an entry: a new, empty entry; an error inside an entry.
    pub open spec fn open_entry(self) -> Result<ParserView, StructuralError> {
        if self.entry is Some {
            Err(StructuralError::EntryInEntry)
        } else {
            Ok(ParserView { entry: Some(EntryView::empty()), ..self })
        }
    }

    /// After the start tag of a sense: no values; an error inside a sense.
    pub open spec fn open_sense(self) -> Result<ParserView, StructuralError> {
        if self.sense_open {
            Err(StructuralError::SenseInSense)
        } else {
            Ok(ParserView { sense_open: true, sense: SenseView::empty(), ..self })
        }
    }

    /// After the value `text` of the leaf element `tag`. A sequence number, a word and
    /// a reading belong to the open entry, and are an error outside any; a gloss, a
    /// part of speech and a field join the values of the sense.
    pub open spec fn with_value(self, tag: Tag, text: Seq<char>) -> Result<
        ParserView,
        StructuralError,
    > {
        match tag {
            Tag::EntSeq => match self.entry {
                Some(entry) => Ok(ParserView { entry: Some(entry.with_id_text(text)), ..self }),
                None => Err(StructuralError::NoEntry),
            },
            Tag::Keb => match self.entry {
                Some(entry) => Ok(ParserView { entry: Some(entry.with_word(text)), ..self }),
                None => Err(StructuralError::NoEntry),
            },
            Tag::Reb => match self.entry {
                Some(entry) => Ok(ParserView { entry: Some(entry.with_reading(text)), ..self }),
                None => Err(StructuralError::NoEntry),
            },
            Tag::Gloss => Ok(
                ParserView {
                    sense: SenseView { glosses: self.sense.glosses.push(text), ..self.sense },
                    ..self
                },
            ),
            Tag::Pos => Ok(
                ParserView {
                    sense: SenseView {
                        parts_of_speech: self.sense.parts_of_speech.push(text),
                        ..self.sense
                    },
                    ..self
                },
            ),
            Tag::Field => Ok(
                ParserView {
                    sense: SenseView { fields: self.sense.fields.push(text), ..self.sense },
                    ..self
                },
            ),
            _ => Ok(self),
        }
    }

    /// After the end tag of a sense: the sense is closed, and the open entry has its
    /// values, each list joined into one text. The values stay as they are until the
    /// next sense starts.
    pub open spec fn close_sense(self) -> ParserView {
        ParserView {
            sense_open: false,
            entry: match self.entry {
                Some(entry) => Some(entry.with_sense(self.sense)),
                None => None,
            },
            ..self
        }
    }

    /// After the end tag of an entry: its record is emitted, or the entry is set
    /// aside where it has no valid sequence number, and no entry is open. An error
    /// outside any entry.
    pub open spec fn close_entry(self) -> Result<ParserView, StructuralError> {
        match self.entry {
            None => Err(StructuralError::NoEntry),
            Some(entry) => if entry.accepted() {
                Ok(ParserView { entry: None, records: self.records.push(entry.record()), ..self })
            } else {
                Ok(ParserView { entry: None, rejected: self.rejected.push(entry), ..self })
            },
        }
    }

    /// At the end of the stream: what was gathered; an error where an entry or a
    /// sense is still open.
    pub open spec fn finish(self) -> Result<ParsedView, StructuralError> {
        if self.entry is Some || self.sense_open {
            Err(StructuralError::UnexpectedEnd)
        } else {
            Ok(ParsedView { records: self.records, rejected: self.rejected })
        }
    }
}

/// A state, or the error that came in its place, as a step.
pub open spec fn step_to(state: Result<ParserView, StructuralError>, next: int) -> Step {
    match state {
        Ok(state) => Step::Next(state, next),
        Err(e) => Step::Failed(e),
    }
}

/// The event at `pos`; the end of the document where the events have run out.
pub open spec fn event_at(events: Seq<EventView>, pos: int) -> EventView {
    if 0 <= pos < events.len() {
        events[pos]
    } else {
        EventView::EndDocument
    }
}

/// One step of the walk: what the event at `pos` leads to in the state `state`. The
/// start tag of a leaf element takes its value with it, up to the end tag.
pub open spec fn step(state: ParserView, events: Seq<EventView>, pos: int) -> Step {
    match event_at(events, pos) {
        EventView::EndDocument => Step::Done,
        EventView::Malformed => Step::Failed(StructuralError::Malformed),
        EventView::Start(name) => match tag_of(name) {
            Tag::Entry => step_to(state.open_entry(), pos + 1),
            Tag::Sense => step_to(state.open_sense(), pos + 1),
            Tag::Other => Step::Next(state, pos + 1),
            leaf => match leaf_value(events, pos + 1) {
                Ok((text, next)) => step_to(state.with_value(leaf, text), next),
                Err(e) => Step::Failed(e),
            },
        },
        EventView::End(name) => match tag_of(name) {
            Tag::Entry => step_to(state.close_entry(), pos + 1),
            Tag::Sense => Step::Next(state.close_sense(), pos + 1),
            _ => Step::Next(state, pos + 1),
        },
        _ => Step::Next(state, pos + 1),
    }
}

/// A step moves forward and stays within the events.
pub proof fn lemma_step_advances(state: ParserView, events: Seq<EventView>, pos: int)
    ensures
        step(state, events, pos) matches Step::Next(_, next) ==> 0 <= pos < next <= events.len(),
{
    if 0 <= pos < events.len() {
        lemma_value_end(events, pos + 1);
    }
}

/// The walk from `pos` on, in the state `state`: step by step, to the end of the
/// document or to the first error. Events that run out are the end of the stream.
pub open spec fn run(state: ParserView, events: Seq<EventView>, pos: int) -> Result<
    ParsedView,
    StructuralError,
>
    decreases events.len() - pos,
{
    match step(state, events, pos) {
        Step::Done => state.finish(),
        Step::Failed(e) => Err(e),
        Step::Next(after, next) => {
            proof {
                lemma_step_advances(state, events, pos);
            }
            run(after, events, next)
        },
    }
}

/// What the walk through `events` leaves behind.
pub open spec fn parse(events: Seq<EventView>) -> Result<ParsedView, StructuralError> {
    run(ParserView::new(), events, 0)
}

impl View for Parser {
    type V = ParserView;

    open spec fn view(&self) -> ParserView {
        ParserView {
            entry: match self.entry {
                Some(entry) => Some(entry@),
                None => None,
            },
            sense_open: self.sense_open,
            sense: self.sense@,
            records: self.records.deep_view(),
            rejected: self.rejected.deep_view(),
        }
    }
}

impl Parser {
    /// The state before the first event.
    pub fn new() -> (parser: Parser)
        ensures
            parser@ == ParserView::new(),
    {
        let parser = Parser {
            entry: None,
            sense_open: false,
            sense: Sense::new(),
            records: Vec::new(),
            rejected: Vec::new(),
        };
        assert(parser.records.deep_view() =~= Seq::empty());
        assert(parser.rejected.deep_view() =~= Seq::empty());
        parser
    }

    /// Takes the start tag of an entry.
    pub fn open_entry(&mut self) -> (outcome: Result<(), StructuralError>)
        ensures
            match outcome {
                Ok(_) => old(self)@.open_entry() == Ok::<ParserView, StructuralError>(
                    final(self)@,
                ),
                Err(e) => old(self)@.open_entry() == Err::<ParserView, StructuralError>(e)
                    && final(self)@ == old(self)@,
            },
    {
        if self.entry.is_some() {
            return Err(StructuralError::EntryInEntry);
        }
        self.entry = Some(Entry::new());
        Ok(())
    }

    /// Takes the start tag of a sense.
    pub fn open_sense(&mut self) -> (outcome: Result<(), StructuralError>)
        ensures
            match outcome {
                Ok(_) => old(self)@.open_sense() == Ok::<ParserView, StructuralError>(
                    final(self)@,
                ),
                Err(e) => old(self)@.open_sense() == Err::<ParserView, StructuralError>(e)
                    && final(self)@ == old(self)@,
            },
    {
        if self.sense_open {
            return Err(StructuralError::SenseInSense);
        }
        self.sense.clear();
        self.sense_open = true;
        Ok(())
    }

    /// Takes the value of a leaf element.
    pub fn add_value(&mut self, tag: Tag, text: String) -> (outcome: Result<(), StructuralError>)
        ensures
            match outcome {
                Ok(_) => old(self)@.with_value(tag, text@) == Ok::<ParserView, StructuralError>(
                    final(self)@,
                ),
                Err(e) => old(self)@.with_value(tag, text@) == Err::<ParserView, StructuralError>(
                    e,
                ) && final(self)@ == old(self)@,
            },
    {
        match tag {
            Tag::EntSeq => match &mut self.entry {
                Some(entry) => {
                    entry.set_id(text.as_str());
                    Ok(())
                },
                None => Err(StructuralError::NoEntry),
            },
            Tag::Keb => match &mut self.entry {
                Some(entry) => {
                    entry.add_word(text);
                    Ok(())
                },
                None => Err(StructuralError::NoEntry),
            },
            Tag::Reb => match &mut self.entry {
                Some(entry) => {
                    entry.add_reading(text);
                    Ok(())
                },
                None => Err(StructuralError::NoEntry),
            },
            Tag::Gloss => {
                push_text(&mut self.sense.glosses, text);
                Ok(())
            },
            Tag::Pos => {
                push_text(&mut self.sense.parts_of_speech, text);
                Ok(())
            },
            Tag::Field => {
                push_text(&mut self.sense.fields, text);
                Ok(())
            },
            _ => Ok(()),
        }
    }

    /// Takes the end tag of a sense.
    pub fn close_sense(&mut self)
        ensures
            final(self)@ == old(self)@.close_sense(),
    {
        self.sense_open = false;
        match &mut self.entry {
            Some(entry) => {
                entry.add_sense(&self.sense);
            },
            None => {},
        }
    }

    /// Takes the end tag of an entry.
    pub fn close_entry(&mut self) -> (outcome: Result<(), StructuralError>)
        ensures
            match outcome {
                Ok(_) => old(self)@.close_entry() == Ok::<ParserView, StructuralError>(
                    final(self)@,
                ),
                Err(e) => old(self)@.close_entry() == Err::<ParserView, StructuralError>(e)
                    && final(self)@ == old(self)@,
            },
    {
        match self.entry.take() {
            None => Err(StructuralError::NoEntry),
            Some(entry) => {
                match entry.finish() {
                    Ok(record) => {
                        let ghost before = self.records.deep_view();
                        let ghost added = record@;
                        self.records.push(record);
                        assert(self.records.deep_view() =~= before.push(added));
                    },
                    Err(entry) => {
                        let ghost before = self.rejected.deep_view();
                        let ghost added = entry@;
                        self.rejected.push(entry);
                        assert(self.rejected.deep_view() =~= before.push(added));
                    },
                }
                Ok(())
            },
        }
    }

    /// Takes the event at `pos`, and with the start tag of a leaf element its value.
    /// Returns the position at which the walk goes on, or `None` at the end of the
    /// document and where the events have run out.
    pub fn advance(&mut self, events: &[Event], pos: usize) -> (outcome: Result<
        Option<usize>,
        StructuralError,
    >)
        ensures
            match outcome {
                Ok(Some(next)) => step(old(self)@, events.deep_view(), pos as int) == Step::Next(
                    final(self)@,
                    next as int,
                ) && pos < next <= events.len(),
                Ok(None) => step(old(self)@, events.deep_view(), pos as int) == Step::Done
                    && final(self)@ == old(self)@,
                Err(e) => step(old(self)@, events.deep_view(), pos as int) == Step::Failed(e)
                    && final(self)@ == old(self)@,
            },
    {
        let ghost all = events.deep_view();
        if pos >= events.len() {
            return Ok(None);
        }
        assert(all[pos as int] == events[pos as int]@);
        proof {
            lemma_step_advances(self@, all, pos as int);
        }
        match &events[pos] {
            Event::EndDocument => Ok(None),
            Event::Malformed => Err(StructuralError::Malformed),
            Event::Start(name) => {
                let tag = classify(name.as_str());
                match tag {
                    Tag::Entry => match self.open_entry() {
                        Ok(_) => Ok(Some(pos + 1)),
                        Err(e) => Err(e),
                    },
                    Tag::Sense => match self.open_sense() {
                        Ok(_) => Ok(Some(pos + 1)),
                        Err(e) => Err(e),
                    },
                    Tag::Other => Ok(Some(pos + 1)),
                    _ => match extract_next_string(events, pos + 1) {
                        Ok((text, next)) => match self.add_value(tag, text) {
                            Ok(_) => Ok(Some(next)),
                            Err(e) => Err(e),
                        },
                        Err(e) => Err(e),
                    },
                }
            },
            Event::End(name) => {
                match classify(name.as_str()) {
                    Tag::Entry => match self.close_entry() {
                        Ok(_) => Ok(Some(pos + 1)),
                        Err(e) => Err(e),
                    },
                    Tag::Sense => {
                        self.close_sense();
                        Ok(Some(pos + 1))
                    },
                    _ => Ok(Some(pos + 1)),
                }
            },
            _ => Ok(Some(pos + 1)),
        }
    }

    /// Ends the walk.
    pub fn finish(self) -> (outcome: Result<Parsed, StructuralError>)
        ensures
            match outcome {
                Ok(parsed) => self@.finish() == Ok::<ParsedView, StructuralError>(parsed@),
                Err(e) => self@.finish() == Err::<ParsedView, StructuralError>(e),
            },
    {
        if self.entry.is_some() || self.sense_open {
            Err(StructuralError::UnexpectedEnd)
        } else {
            Ok(Parsed { records: self.records, rejected: self.rejected })
        }
    }
}

/// Walks through `events` and returns the records of the entries in them. The walk
/// stops at the first end of the document; events that run out are the end of the
/// stream as well.
pub fn parse_events(events: &[Event]) -> (outcome: Result<Parsed, StructuralError>)
    ensures
        match outcome {
            Ok(parsed) => parse(events.deep_view()) == Ok::<ParsedView, StructuralError>(parsed@),
            Err(e) => parse(events.deep_view()) == Err::<ParsedView, StructuralError>(e),
        },
{
    let ghost all = events.deep_view();
    let mut parser = Parser::new();
    let mut pos: usize = 0;
    while pos < events.len()
        invariant
            all == events.deep_view(),
            all.len() == events.len(),
            pos <= events.len(),
            run(parser@, all, pos as int) == parse(all),
        decreases events.len() - pos,
    {
        match parser.advance(events, pos) {
            Ok(Some(next)) => {
                pos = next;
            },
            Ok(None) => {
                return parser.finish();
            },
            Err(e) => {
                return Err(e);
            },
        }
    }
    parser.finish()
}

/// The stream `events` ends at `n`: there its events run out, or the end of the
/// document stands.
pub open spec fn ends_at(events: Seq<EventView>, n: int) -> bool {
    0 <= n <= events.len() && (n == events.len() || events[n] == EventView::EndDocument)
}

/// Two streams that hold the same events up to the place where both end give the
/// same value.
proof fn lemma_value_before_end(a: Seq<EventView>, b: Seq<EventView>, from: int, n: int)
    requires
        0 <= from <= n,
        ends_at(a, n),
        ends_at(b, n),
        forall|k: int| 0 <= k < n ==> a[k] == b[k],
    ensures
        leaf_value(a, from) == leaf_value(b, from),
        leaf_value(a, from) matches Ok((_, next)) ==> from < next <= n,
{
    lemma_same_value_end(a, b, from, n);
    let end = value_end(a, from);
    if end < n {
        lemma_char_data_local(a, from, end, b, 0);
    }
}

proof fn lemma_same_value_end(a: Seq<EventView>, b: Seq<EventView>, from: int, n: int)
    requires
        0 <= from <= n,
        ends_at(a, n),
        ends_at(b, n),
        forall|k: int| 0 <= k < n ==> a[k] == b[k],
    ensures
        value_end(a, from) == value_end(b, from),
        from <= value_end(a, from) <= n,
    decreases n - from,
{
    if from < n {
        assert(a[from] == b[from]);
        if !ends_value(a[from]) {
            lemma_same_value_end(a, b, from + 1, n);
        }
    }
}

/// Two streams that hold the same events up to the place where both end lead the
/// walk to the same result.
proof fn lemma_run_before_end(
    state: ParserView,
    a: Seq<EventView>,
    b: Seq<EventView>,
    pos: int,
    n: int,
)
    requires
        0 <= pos <= n,
        ends_at(a, n),
        ends_at(b, n),
        forall|k: int| 0 <= k < n ==> a[k] == b[k],
    ensures
        run(state, a, pos) == run(state, b, pos),
    decreases n - pos,
{
    if pos < n {
        assert(a[pos] == b[pos]);
        lemma_value_before_end(a, b, pos + 1, n);
        match step(state, a, pos) {
            Step::Next(after, next) => {
                lemma_step_advances(state, a, pos);
                assert(step(state, b, pos) == Step::Next(after, next));
                assert(next <= n);
                lemma_run_before_end(after, a, b, next, n);
            },
            _ => {},
        }
    } else {
        assert(event_at(a, pos) == EventView::EndDocument);
        assert(event_at(b, pos) == EventView::EndDocument);
    }
}

/// The walk stops at the first end of the document: it gives what the events before
/// that mark give, however often the mark is repeated and whatever follows it.
pub proof fn lemma_walk_stops_at_end(before: Seq<EventView>, after: Seq<EventView>)
    ensures
        parse(before + seq![EventView::EndDocument] + after) == parse(before),
        parse(before + seq![EventView::EndDocument]) == parse(before),
{
    let n = before.len() as int;
    let once = before + seq![EventView::EndDocument];
    let more = once + after;
    assert(once[n] == EventView::EndDocument);
    assert(more[n] == EventView::EndDocument);
    lemma_run_before_end(ParserView::new(), more, before, 0, n);
    lemma_run_before_end(ParserView::new(), once, before, 0, n);
}

impl ParserView {
    /// In the open entry and in every record, each reading has its romanization and
    /// each sense its three texts.
    pub open spec fn aligned(self) -> bool {
        &&& self.entry matches Some(entry) ==> entry.aligned()
        &&& forall|i: int| 0 <= i < self.records.len() ==> (#[trigger] self.records[i]).aligned()
    }
}

proof fn lemma_run_keeps_aligned(state: ParserView, events: Seq<EventView>, pos: int)
    requires
        state.aligned(),
        0 <= pos,
    ensures
        run(state, events, pos) matches Ok(parsed) ==> forall|i: int|
            0 <= i < parsed.records.len() ==> (#[trigger] parsed.records[i]).aligned(),
    decreases events.len() - pos,
{
    match step(state, events, pos) {
        Step::Next(after, next) => {
            lemma_step_advances(state, events, pos);
            assert(after.aligned());
            lemma_run_keeps_aligned(after, events, next);
        },
        _ => {},
    }
}

/// Every record that a walk gives is aligned: its romanizations are those of its
/// readings, position by position, and its meanings, parts of speech and fields are
/// equally many, one of each for each sense.
pub proof fn lemma_records_aligned(events: Seq<EventView>)
    ensures
        parse(events) matches Ok(parsed) ==> forall|i: int|
            0 <= i < parsed.records.len() ==> (#[trigger] parsed.records[i]).aligned(),
{
    lemma_run_keeps_aligned(ParserView::new(), events, 0);
}

} // verus!
