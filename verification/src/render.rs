//! The layout of a record as text: one line for its words and readings, one line
//! for each sense, and a blank line. Each piece of the text has a role, by which it
//! can be styled.

use vstd::prelude::*;
use vstd::string::*;

use crate::record::{Record, RecordView};
use crate::text::{
    decimal, decimal_string, free_of, join, joined, lemma_split_undoes_join, split, split_text,
};

verus! {

/// What a piece of text is, for whoever styles it.
#[derive(Debug, Clone, Copy, PartialEq, Eq, Structural)]
pub enum Role {
    /// Punctuation and spacing of the layout.
    Plain,
    /// The words of the entry, or its readings where it has no word.
    Headword,
    /// The readings, where they follow the words.
    Reading,
    /// The number of a sense.
    Index,
    /// A part of speech or a field of use.
    Tag,
    /// One meaning.
    Meaning,
    /// What stands between two meanings.
    Separator,
}

/// A piece of text with its role.
#[derive(Debug, Clone, PartialEq, Eq)]
pub struct Span {
    pub role: Role,
    pub text: String,
}

pub struct SpanView {
    pub role: Role,
    pub text: Seq<char>,
}

impl View for Span {
    type V = SpanView;

    open spec fn view(&self) -> SpanView {
        SpanView { role: self.role, text: self.text@ }
    }
}

impl DeepView for Span {
    type V = SpanView;

    open spec fn deep_view(&self) -> SpanView {
        self@
    }
}

/// A piece of text in the role `role`, or as plain text where styling is off.
pub open spec fn span(styling: bool, role: Role, text: Seq<char>) -> SpanView {
    SpanView {
        role: if styling {
            role
        } else {
            Role::Plain
        },
        text,
    }
}

/// The first line without its line break: the readings alone where the entry has no
/// word, else the words and, in brackets, the readings.
pub open spec fn first_line(record: RecordView) -> Seq<char> {
    if record.words.len() == 0 {
        joined(record.readings, "\u{3001}"@)
    } else {
        joined(record.words, "; "@) + " ("@ + joined(record.readings, "\u{3001}"@) + ")"@
    }
}

/// The pieces of the first line.
pub open spec fn headline(record: RecordView, styling: bool) -> Seq<SpanView> {
    if record.words.len() == 0 {
        seq![
            span(styling, Role::Headword, joined(record.readings, "\u{3001}"@)),
            span(styling, Role::Plain, "\n"@),
        ]
    } else {
        seq![
            span(styling, Role::Headword, joined(record.words, "; "@)),
            span(styling, Role::Plain, " ("@),
            span(styling, Role::Reading, joined(record.readings, "\u{3001}"@)),
            span(styling, Role::Plain, ")"@),
            span(styling, Role::Plain, "\n"@),
        ]
    }
}

/// The pieces that list meanings: a space before the first, a separator before
/// each of the others.
pub open spec fn meaning_spans(meanings: Seq<Seq<char>>, styling: bool) -> Seq<SpanView>
    decreases meanings.len(),
{
    if meanings.len() == 0 {
        Seq::empty()
    } else {
        meaning_spans(meanings.drop_last(), styling) + seq![
            if meanings.len() == 1 {
                span(styling, Role::Plain, " "@)
            } else {
                span(styling, Role::Separator, "; "@)
            },
            span(styling, Role::Meaning, meanings.last()),
        ]
    }
}

/// The pieces that open the line of the sense at position `i`: its number, counted
/// from one, and in square brackets its part of speech and its field.
pub open spec fn sense_head(record: RecordView, styling: bool, i: int) -> Seq<SpanView> {
    seq![
        span(styling, Role::Index, decimal((i + 1) as nat) + "."@),
        span(styling, Role::Plain, " ["@),
        span(styling, Role::Tag, record.pos[i]),
        span(styling, Role::Plain, ";"@),
        span(styling, Role::Tag, record.fields[i]),
        span(styling, Role::Plain, "]"@),
    ]
}

/// The line of the sense at position `i`. Its meanings are the stored text, cut at
/// the separator.
pub open spec fn sense_line(record: RecordView, styling: bool, i: int) -> Seq<SpanView> {
    sense_head(record, styling, i) + meaning_spans(split_text(record.meanings[i], "; "@), styling)
        + seq![span(styling, Role::Plain, "\n"@)]
}

/// The lines of the first `n` senses.
pub open spec fn sense_lines(record: RecordView, styling: bool, n: int) -> Seq<SpanView>
    decreases n,
{
    if n <= 0 {
        Seq::empty()
    } else {
        sense_lines(record, styling, n - 1) + sense_line(record, styling, n - 1)
    }
}

/// How many senses are laid out: as many as have a meaning, a part of speech and a
/// field.
pub open spec fn sense_count(record: RecordView) -> int {
    let n = if record.pos.len() < record.meanings.len() {
        record.pos.len()
    } else {
        record.meanings.len()
    };
    if record.fields.len() < n {
        record.fields.len() as int
    } else {
        n as int
    }
}

/// The layout of a record: the first line, the lines of its senses, a blank line.
pub open spec fn rendered(record: RecordView, styling: bool) -> Seq<SpanView> {
    headline(record, styling) + sense_lines(record, styling, sense_count(record)) + seq![
        span(styling, Role::Plain, "\n"@),
    ]
}

/// The text of a layout: its pieces one after another.
pub open spec fn text_of(spans: Seq<SpanView>) -> Seq<char>
    decreases spans.len(),
{
    if spans.len() == 0 {
        Seq::empty()
    } else {
        text_of(spans.drop_last()) + spans.last().text
    }
}

/// Adds a piece to a layout.
fn push_span(spans: &mut Vec<Span>, styling: bool, role: Role, text: String)
    ensures
        final(spans).deep_view() == old(spans).deep_view().push(span(styling, role, text@)),
{
    let ghost before = spans.deep_view();
    let ghost added = span(styling, role, text@);
    let role = if styling {
        role
    } else {
        Role::Plain
    };
    spans.push(Span { role, text });
    assert(spans.deep_view() =~= before.push(added));
}

/// Adds the pieces of the first line.
fn render_headline(spans: &mut Vec<Span>, record: &Record, styling: bool)
    ensures
        final(spans).deep_view() == old(spans).deep_view() + headline(record@, styling),
{
    let ghost before = spans.deep_view();
    if record.words.len() == 0 {
        push_span(spans, styling, Role::Headword, join(&record.readings, "\u{3001}"));
        push_span(spans, styling, Role::Plain, String::from_str("\n"));
    } else {
        push_span(spans, styling, Role::Headword, join(&record.words, "; "));
        push_span(spans, styling, Role::Plain, String::from_str(" ("));
        push_span(spans, styling, Role::Reading, join(&record.readings, "\u{3001}"));
        push_span(spans, styling, Role::Plain, String::from_str(")"));
        push_span(spans, styling, Role::Plain, String::from_str("\n"));
    }
    assert(spans.deep_view() =~= before + headline(record@, styling));
}

/// Adds the pieces that list `meanings`.
fn render_meanings(spans: &mut Vec<Span>, meanings: &Vec<String>, styling: bool)
    ensures
        final(spans).deep_view() == old(spans).deep_view() + meaning_spans(
            meanings.deep_view(),
            styling,
        ),
{
    let ghost before = spans.deep_view();
    let ghost all = meanings.deep_view();
    let mut k: usize = 0;
    assert(spans.deep_view() =~= before + meaning_spans(all.take(0), styling));
    while k < meanings.len()
        invariant
            k <= meanings.len(),
            all == meanings.deep_view(),
            spans.deep_view() == before + meaning_spans(all.take(k as int), styling),
        decreases meanings.len() - k,
    {
        let ghost so_far = spans.deep_view();
        let ghost listed = meaning_spans(all.take(k as int), styling);
        if k == 0 {
            push_span(spans, styling, Role::Plain, String::from_str(" "));
        } else {
            push_span(spans, styling, Role::Separator, String::from_str("; "));
        }
        push_span(spans, styling, Role::Meaning, meanings[k].clone());
        proof {
            let next = all.take(k + 1);
            assert(next.drop_last() =~= all.take(k as int));
            assert(next.last() == meanings@[k as int]@);
            assert(spans.deep_view() =~= before + meaning_spans(next, styling));
        }
        k += 1;
    }
    assert(all.take(k as int) =~= all);
}

/// Adds the line of the sense at position `i`.
fn render_sense(spans: &mut Vec<Span>, record: &Record, styling: bool, i: usize)
    requires
        i < record.meanings.len(),
        i < record.pos.len(),
        i < record.fields.len(),
    ensures
        final(spans).deep_view() == old(spans).deep_view() + sense_line(
            record@,
            styling,
            i as int,
        ),
{
    let ghost before = spans.deep_view();
    let mut number = decimal_string(i + 1);
    number.append(".");
    push_span(spans, styling, Role::Index, number);
    push_span(spans, styling, Role::Plain, String::from_str(" ["));
    push_span(spans, styling, Role::Tag, record.pos[i].clone());
    push_span(spans, styling, Role::Plain, String::from_str(";"));
    push_span(spans, styling, Role::Tag, record.fields[i].clone());
    push_span(spans, styling, Role::Plain, String::from_str("]"));
    assert(spans.deep_view() =~= before + sense_head(record@, styling, i as int));
    let meanings = split(record.meanings[i].as_str(), "; ");
    render_meanings(spans, &meanings, styling);
    push_span(spans, styling, Role::Plain, String::from_str("\n"));
    assert(spans.deep_view() =~= before + sense_line(record@, styling, i as int));
}

/// Lays a record out. With `styling` off every piece is plain; the text is the same
/// either way.
pub fn render(record: &Record, styling: bool) -> (spans: Vec<Span>)
    ensures
        spans.deep_view() == rendered(record@, styling),
{
    let mut spans: Vec<Span> = Vec::new();
    assert(spans.deep_view() =~= Seq::empty());
    render_headline(&mut spans, record, styling);
    let ghost head = headline(record@, styling);
    assert(spans.deep_view() =~= head);
    let mut n = record.meanings.len();
    if record.pos.len() < n {
        n = record.pos.len();
    }
    if record.fields.len() < n {
        n = record.fields.len();
    }
    let mut i: usize = 0;
    assert(spans.deep_view() =~= head + sense_lines(record@, styling, 0));
    while i < n
        invariant
            i <= n,
            n == sense_count(record@),
            n <= record.meanings.len(),
            n <= record.pos.len(),
            n <= record.fields.len(),
            head == headline(record@, styling),
            spans.deep_view() == head + sense_lines(record@, styling, i as int),
        decreases n - i,
    {
        render_sense(&mut spans, record, styling, i);
        assert(spans.deep_view() =~= head + sense_lines(record@, styling, i + 1));
        i += 1;
    }
    push_span(&mut spans, styling, Role::Plain, String::from_str("\n"));
    spans
}

/// The text of a layout.
pub fn plain_text(spans: &Vec<Span>) -> (text: String)
    ensures
        text@ == text_of(spans.deep_view()),
{
    let ghost all = spans.deep_view();
    let mut text = String::new();
    let mut i: usize = 0;
    while i < spans.len()
        invariant
            i <= spans.len(),
            all == spans.deep_view(),
            text@ == text_of(all.take(i as int)),
        decreases spans.len() - i,
    {
        proof {
            let next = all.take(i + 1);
            assert(next.drop_last() =~= all.take(i as int));
            assert(next.last() == spans@[i as int]@);
        }
        text.append(spans[i].text.as_str());
        i += 1;
    }
    assert(all.take(i as int) =~= all);
    text
}

/// The text of two layouts in a row is the text of the first and then of the
/// second.
pub proof fn lemma_text_of_adds(a: Seq<SpanView>, b: Seq<SpanView>)
    ensures
        text_of(a + b) == text_of(a) + text_of(b),
    decreases b.len(),
{
    if b.len() == 0 {
        assert(a + b =~= a);
        assert(text_of(a) + text_of(b) =~= text_of(a));
    } else {
        assert((a + b).drop_last() =~= a + b.drop_last());
        lemma_text_of_adds(a, b.drop_last());
        assert((text_of(a) + text_of(b.drop_last())) + b.last().text =~= text_of(a) + (text_of(
            b.drop_last(),
        ) + b.last().text));
    }
}

/// Two layouts with the same texts at the same places have the same text.
proof fn lemma_text_of_same_texts(a: Seq<SpanView>, b: Seq<SpanView>)
    requires
        a.len() == b.len(),
        forall|i: int| 0 <= i < a.len() ==> a[i].text == b[i].text,
    ensures
        text_of(a) == text_of(b),
    decreases a.len(),
{
    if a.len() > 0 {
        lemma_text_of_same_texts(a.drop_last(), b.drop_last());
    }
}

proof fn lemma_meaning_spans_texts(meanings: Seq<Seq<char>>)
    ensures
        meaning_spans(meanings, true).len() == meaning_spans(meanings, false).len(),
        forall|i: int|
            0 <= i < meaning_spans(meanings, true).len() ==> meaning_spans(meanings, true)[i].text
                == meaning_spans(meanings, false)[i].text,
    decreases meanings.len(),
{
    if meanings.len() > 0 {
        lemma_meaning_spans_texts(meanings.drop_last());
    }
}

proof fn lemma_sense_lines_texts(record: RecordView, n: int)
    ensures
        sense_lines(record, true, n).len() == sense_lines(record, false, n).len(),
        forall|i: int|
            0 <= i < sense_lines(record, true, n).len() ==> sense_lines(record, true, n)[i].text
                == sense_lines(record, false, n)[i].text,
    decreases n,
{
    if n > 0 {
        lemma_sense_lines_texts(record, n - 1);
        lemma_meaning_spans_texts(split_text(record.meanings[n - 1], "; "@));
    }
}

/// Styling changes no text: a record laid out with styling reads as it does laid
/// out without.
pub proof fn lemma_styling_keeps_text(record: RecordView)
    ensures
        text_of(rendered(record, true)) == text_of(rendered(record, false)),
{
    lemma_sense_lines_texts(record, sense_count(record));
    lemma_text_of_same_texts(rendered(record, true), rendered(record, false));
}

/// The text of the first line's pieces is the first line and a line break.
proof fn lemma_headline_text(record: RecordView, styling: bool)
    ensures
        text_of(headline(record, styling)) == first_line(record) + "\n"@,
{
    reveal_with_fuel(text_of, 6);
    let head = headline(record, styling);
    let e = Seq::<char>::empty();
    if record.words.len() == 0 {
        assert(head.drop_last() =~= seq![head[0]]);
        assert(head.drop_last().drop_last() =~= Seq::<SpanView>::empty());
        assert(e + head[0].text + head[1].text =~= first_line(record) + "\n"@);
    } else {
        let d1 = head.drop_last();
        let d2 = d1.drop_last();
        let d3 = d2.drop_last();
        let d4 = d3.drop_last();
        assert(d1 =~= seq![head[0], head[1], head[2], head[3]]);
        assert(d2 =~= seq![head[0], head[1], head[2]]);
        assert(d3 =~= seq![head[0], head[1]]);
        assert(d4 =~= seq![head[0]]);
        assert(d4.drop_last() =~= Seq::<SpanView>::empty());
        assert(e + head[0].text + head[1].text + head[2].text + head[3].text + head[4].text
            =~= first_line(record) + "\n"@);
    }
}

/// A record without a word is headed by its readings alone; a record with words is
/// headed by the words and, in brackets, the readings. Styled or not, its text
/// begins with that line and a line break.
pub proof fn lemma_text_begins_with_first_line(record: RecordView, styling: bool)
    ensures
        record.words.len() == 0 ==> first_line(record) == joined(record.readings, "\u{3001}"@),
        record.words.len() > 0 ==> first_line(record) == joined(record.words, "; "@) + " ("@
            + joined(record.readings, "\u{3001}"@) + ")"@,
        (first_line(record) + "\n"@).is_prefix_of(text_of(rendered(record, styling))),
{
    let head = headline(record, styling);
    let rest = sense_lines(record, styling, sense_count(record)) + seq![
        span(styling, Role::Plain, "\n"@),
    ];
    assert(rendered(record, styling) =~= head + rest);
    lemma_text_of_adds(head, rest);
    lemma_headline_text(record, styling);
    let line = first_line(record) + "\n"@;
    assert((line + text_of(rest)).subrange(0, line.len() as int) =~= line);
}

/// What is stored for a sense comes back in the layout: one or more glosses, none of
/// which holds the separator, are joined into a meaning that is cut into the same
/// glosses. A gloss that holds the separator is laid out as several meanings.
pub proof fn lemma_glosses_come_back(glosses: Seq<Seq<char>>)
    requires
        glosses.len() > 0,
        forall|i: int| 0 <= i < glosses.len() ==> free_of(#[trigger] glosses[i], "; "@),
    ensures
        split_text(joined(glosses, "; "@), "; "@) == glosses,
{
    reveal_strlit("; ");
    lemma_split_undoes_join(glosses, "; "@);
}

} // verus!
