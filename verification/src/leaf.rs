//! The value of a leaf element: the character data between its start tag and the end
//! tag that closes it.

use vstd::prelude::*;
use vstd::string::*;

use crate::event::{classify, tag_of, Event, EventView};

verus! {

/// What is wrong with the structure of a document.
#[derive(Debug, Clone, Copy, PartialEq, Eq, Structural)]
pub enum StructuralError {
    /// The source stopped being well-formed XML.
    Malformed,
    /// The stream ended inside an element.
    UnexpectedEnd,
    /// An entry started inside an entry.
    EntryInEntry,
    /// A sense started inside a sense.
    SenseInSense,
    /// A sequence number, a word, a reading or the end of an entry came outside any
    /// entry.
    NoEntry,
}

/// The events that end the reading of a value: the end tag of a leaf element, the
/// end of the document, and malformed input.
pub open spec fn ends_value(event: EventView) -> bool {
    match event {
        EventView::End(name) => tag_of(name).is_leaf(),
        EventView::EndDocument => true,
        EventView::Malformed => true,
        _ => false,
    }
}

/// The first position at or after `from` whose event ends the reading of a value; the
/// length of `events` where there is none.
pub open spec fn value_end(events: Seq<EventView>, from: int) -> int
    decreases events.len() - from,
{
    if from < 0 || from >= events.len() {
        events.len() as int
    } else if ends_value(events[from]) {
        from
    } else {
        value_end(events, from + 1)
    }
}

/// The character data that an event carries.
pub open spec fn data_of(event: EventView) -> Seq<char> {
    match event {
        EventView::Characters(text) => text,
        _ => Seq::empty(),
    }
}

/// The character data of the events from `from` up to `to`, one run after the other.
pub open spec fn char_data(events: Seq<EventView>, from: int, to: int) -> Seq<char>
    decreases to - from,
{
    if to <= from || from < 0 || to > events.len() {
        Seq::empty()
    } else {
        char_data(events, from, to - 1) + data_of(events[to - 1])
    }
}

/// The value that starts at `start`, with the position after its end tag: all the
/// character data up to the first end tag of a leaf element, whatever else stands
/// between. A stream that ends before that tag gives no value.
pub open spec fn leaf_value(events: Seq<EventView>, start: int) -> Result<
    (Seq<char>, int),
    StructuralError,
> {
    let end = value_end(events, start);
    if end >= events.len() {
        Err(StructuralError::UnexpectedEnd)
    } else {
        match events[end] {
            EventView::End(_) => Ok((char_data(events, start, end), end + 1)),
            EventView::Malformed => Err(StructuralError::Malformed),
            _ => Err(StructuralError::UnexpectedEnd),
        }
    }
}

/// Where a value ends: not before its start, with no event that ends a value in
/// between.
pub proof fn lemma_value_end(events: Seq<EventView>, from: int)
    requires
        0 <= from <= events.len(),
    ensures
        from <= value_end(events, from) <= events.len(),
        value_end(events, from) < events.len() ==> ends_value(events[value_end(events, from)]),
        forall|k: int| from <= k < value_end(events, from) ==> !ends_value(#[trigger] events[k]),
    decreases events.len() - from,
{
    if from < events.len() && !ends_value(events[from]) {
        lemma_value_end(events, from + 1);
    }
}

/// A value is the character data up to the first end tag of a leaf element: where
/// that tag stands at `end` and nothing before it ends a value, the value is what
/// the events from `start` up to `end` carry, and the walk goes on behind the tag.
pub proof fn lemma_value_up_to_end_tag(events: Seq<EventView>, start: int, end: int)
    requires
        0 <= start <= end < events.len(),
        forall|k: int| start <= k < end ==> !ends_value(#[trigger] events[k]),
        events[end] is End,
        ends_value(events[end]),
    ensures
        leaf_value(events, start) == Ok::<(Seq<char>, int), StructuralError>(
            (char_data(events, start, end), end + 1),
        ),
    decreases end - start,
{
    if start < end {
        assert(!ends_value(events[start]));
        lemma_value_up_to_end_tag(events, start + 1, end);
    }
}

/// Character data of adjoining stretches adds up.
pub proof fn lemma_char_data_adds(events: Seq<EventView>, from: int, mid: int, to: int)
    requires
        0 <= from <= mid <= to <= events.len(),
    ensures
        char_data(events, from, to) == char_data(events, from, mid) + char_data(events, mid, to),
    decreases to - mid,
{
    if mid == to {
        assert(char_data(events, from, mid) + Seq::<char>::empty() =~= char_data(
            events,
            from,
            mid,
        ));
    } else {
        lemma_char_data_adds(events, from, mid, to - 1);
        assert((char_data(events, from, mid) + char_data(events, mid, to - 1)) + data_of(
            events[to - 1],
        ) =~= char_data(events, from, mid) + (char_data(events, mid, to - 1) + data_of(
            events[to - 1],
        )));
    }
}

/// Character data depends on the events of the stretch alone.
pub proof fn lemma_char_data_local(
    a: Seq<EventView>,
    from: int,
    to: int,
    b: Seq<EventView>,
    shift: int,
)
    requires
        0 <= from <= to <= a.len(),
        0 <= from + shift,
        to + shift <= b.len(),
        forall|k: int| from <= k < to ==> a[k] == b[k + shift],
    ensures
        char_data(a, from, to) == char_data(b, from + shift, to + shift),
    decreases to - from,
{
    if from < to {
        lemma_char_data_local(a, from, to - 1, b, shift);
    }
}

/// Where a value ends depends on the events up to that end alone.
pub proof fn lemma_value_end_local(a: Seq<EventView>, b: Seq<EventView>, from: int)
    requires
        0 <= from <= a.len(),
        value_end(a, from) < a.len(),
        value_end(a, from) < b.len(),
        forall|k: int| from <= k <= value_end(a, from) ==> a[k] == b[k],
    ensures
        value_end(b, from) == value_end(a, from),
    decreases a.len() - from,
{
    lemma_value_end(a, from);
    if !ends_value(a[from]) {
        lemma_value_end_local(a, b, from + 1);
    }
}

/// A value is the same however its character data is cut into runs: one run with the
/// text `x + y` gives what the two runs `x` and `y` give in its place.
pub proof fn lemma_value_ignores_cuts(
    before: Seq<EventView>,
    x: Seq<char>,
    y: Seq<char>,
    after: Seq<EventView>,
    start: int,
)
    requires
        0 <= start <= before.len(),
    ensures
        ({
            let whole = before + seq![EventView::Characters(x + y)] + after;
            let cut = before + seq![EventView::Characters(x), EventView::Characters(y)] + after;
            match leaf_value(whole, start) {
                Ok((text, next)) => leaf_value(cut, start) == Ok::<
                    (Seq<char>, int),
                    StructuralError,
                >(
                    (text, if next <= before.len() {
                        next
                    } else {
                        next + 1
                    }),
                ),
                Err(e) => leaf_value(cut, start) == Err::<(Seq<char>, int), StructuralError>(e),
            }
        }),
{
    let whole = before + seq![EventView::Characters(x + y)] + after;
    let cut = before + seq![EventView::Characters(x), EventView::Characters(y)] + after;
    let n = before.len() as int;
    let end = value_end(whole, start);
    lemma_value_end(whole, start);
    assert(forall|k: int| 0 <= k < n ==> whole[k] == cut[k]);
    assert(forall|k: int| n < k < whole.len() ==> whole[k] == cut[k + 1]);
    assert(whole[n] == EventView::Characters(x + y));
    assert(cut[n] == EventView::Characters(x));
    assert(cut[n + 1] == EventView::Characters(y));
    if end < n {
        lemma_value_end_local(whole, cut, start);
        lemma_char_data_local(whole, start, end, cut, 0);
    } else {
        // The value reaches over the run that is cut.
        assert(end > n || end == whole.len());
        lemma_cut_value_end(whole, cut, n, start);
        assert(value_end(cut, start) == end + 1);
        if end < whole.len() {
            lemma_char_data_adds(whole, start, n, end);
            lemma_char_data_adds(whole, n, n + 1, end);
            lemma_char_data_adds(cut, start, n, end + 1);
            lemma_char_data_adds(cut, n, n + 2, end + 1);
            lemma_char_data_local(whole, start, n, cut, 0);
            lemma_char_data_local(whole, n + 1, end, cut, 1);
            assert(char_data(whole, n, n + 1) =~= x + y) by {
                assert(char_data(whole, n, n) =~= Seq::<char>::empty());
            }
            assert(char_data(cut, n, n + 2) =~= x + y) by {
                assert(char_data(cut, n, n) =~= Seq::<char>::empty());
                assert(char_data(cut, n, n + 1) =~= x);
            }
            assert(char_data(whole, start, end) =~= char_data(cut, start, end + 1));
        }
    }
}

/// With one event more at `at`, where neither the event there nor the two that take
/// its place end a value, a value that reaches `at` ends one position later.
proof fn lemma_cut_value_end(whole: Seq<EventView>, cut: Seq<EventView>, at: int, from: int)
    requires
        0 <= from <= at < whole.len(),
        cut.len() == whole.len() + 1,
        forall|k: int| 0 <= k < at ==> whole[k] == cut[k],
        forall|k: int| at < k < whole.len() ==> whole[k] == cut[k + 1],
        !ends_value(whole[at]),
        !ends_value(cut[at]),
        !ends_value(cut[at + 1]),
        value_end(whole, from) >= at,
    ensures
        value_end(cut, from) == value_end(whole, from) + 1,
    decreases at - from,
{
    lemma_value_end(whole, from);
    if from < at {
        assert(!ends_value(whole[from]));
        lemma_cut_value_end(whole, cut, at, from + 1);
    } else {
        lemma_shifted_value_end(whole, cut, at + 1);
        assert(value_end(whole, at) == value_end(whole, at + 1));
        assert(value_end(cut, at) == value_end(cut, at + 1));
        assert(value_end(cut, at + 1) == value_end(cut, at + 2));
    }
}

/// Where `cut` holds from `from + 1` on what `whole` holds from `from` on, a value
/// ends one position later in `cut`.
proof fn lemma_shifted_value_end(whole: Seq<EventView>, cut: Seq<EventView>, from: int)
    requires
        0 <= from <= whole.len(),
        cut.len() == whole.len() + 1,
        forall|k: int| from <= k < whole.len() ==> whole[k] == cut[k + 1],
    ensures
        value_end(cut, from + 1) == value_end(whole, from) + 1,
    decreases whole.len() - from,
{
    if from < whole.len() {
        assert(whole[from] == cut[from + 1]);
        if !ends_value(whole[from]) {
            lemma_shifted_value_end(whole, cut, from + 1);
        }
    }
}

/// Reads the value that starts at `start`: gathers the character data up to the
/// first end tag of a leaf element and returns it with the position after that tag.
/// Start tags and the end tags of other elements in between are passed over. A
/// stream that ends first gives `UnexpectedEnd`, malformed input `Malformed`.
pub fn extract_next_string(events: &[Event], start: usize) -> (value: Result<
    (String, usize),
    StructuralError,
>)
    ensures
        match value {
            Ok((text, next)) => leaf_value(events.deep_view(), start as int) == Ok::<
                (Seq<char>, int),
                StructuralError,
            >((text@, next as int)),
            Err(e) => leaf_value(events.deep_view(), start as int) == Err::<
                (Seq<char>, int),
                StructuralError,
            >(e),
        },
{
    let ghost all = events.deep_view();
    let mut text = String::new();
    let mut pos: usize = start;
    while pos < events.len()
        invariant
            all == events.deep_view(),
            all.len() == events.len(),
            start <= pos,
            value_end(all, start as int) == value_end(all, pos as int),
            text@ == char_data(all, start as int, pos as int),
        decreases events.len() - pos,
    {
        assert(all[pos as int] == events[pos as int]@);
        match &events[pos] {
            Event::Characters(run) => {
                text.append(run.as_str());
            },
            Event::End(name) => {
                if classify(name.as_str()).leaf() {
                    return Ok((text, pos + 1));
                }
                assert(text@ + Seq::<char>::empty() =~= text@);
            },
            Event::EndDocument => {
                return Err(StructuralError::UnexpectedEnd);
            },
            Event::Malformed => {
                return Err(StructuralError::Malformed);
            },
            _ => {
                assert(text@ + Seq::<char>::empty() =~= text@);
            },
        }
        pos += 1;
    }
    Err(StructuralError::UnexpectedEnd)
}

} // verus!
