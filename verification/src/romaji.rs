//! Latin transliteration of kana readings.

use vstd::prelude::*;
use vstd::string::*;
use wana_kana::ConvertJapanese;

use crate::text::chars_of;

verus! {

/// The prolonged sound mark, which lengthens the vowel of the kana before it.
pub open spec fn is_long_mark(c: char) -> bool {
    c == '\u{30FC}'
}

/// Characters that the converter passes over without forgetting the kana before
/// them: the middle dot, the small `ka` and `ke` that serve as symbols, and the
/// prolonged sound mark itself.
pub open spec fn keeps_memory(c: char) -> bool {
    c == '\u{30FB}' || c == '\u{30F5}' || c == '\u{30F6}' || is_long_mark(c)
}

/// The katakana block as the converter delimits it.
pub open spec fn is_katakana(c: char) -> bool {
    '\u{30A1}' <= c && c <= '\u{30FC}'
}

/// Katakana whose vowel the converter cannot lengthen: the small `tsu`, which has
/// no sound of its own, and the four `v` kana that have no hiragana.
pub open spec fn cannot_lengthen(c: char) -> bool {
    c == '\u{30C3}' || ('\u{30F7}' <= c && c <= '\u{30FA}')
}

/// After `text`, the kana that the converter remembers is one it cannot lengthen.
pub open spec fn blocked_after(text: Seq<char>) -> bool
    decreases text.len(),
{
    if text.len() == 0 {
        false
    } else if keeps_memory(text.last()) {
        blocked_after(text.drop_last())
    } else if is_katakana(text.last()) {
        cannot_lengthen(text.last())
    } else {
        false
    }
}

/// The readings that the converter accepts: no prolonged sound mark stands where the
/// kana to lengthen is one that cannot be lengthened.
pub open spec fn romanizable(reading: Seq<char>) -> bool {
    forall|i: int|
        0 <= i < reading.len() && is_long_mark(#[trigger] reading[i]) ==> !blocked_after(
            reading.take(i),
        )
}

/// The Latin transliteration that the converter gives for a reading it accepts.
pub uninterp spec fn romaji(reading: Seq<char>) -> Seq<char>;

/// The romanization of a reading: its transliteration where the converter accepts
/// it, the reading itself where it does not.
pub open spec fn romanized(reading: Seq<char>) -> Seq<char> {
    if romanizable(reading) {
        romaji(reading)
    } else {
        reading
    }
}

/// Calls `to_romaji` of `wana_kana::ConvertJapanese` on `reading`. The result is taken
/// to depend on the reading alone. The readings left out are those on which the
/// converter stops with a panic: it lengthens a vowel by looking up the kana before
/// the mark, and finds no vowel for the kana named in `cannot_lengthen`.
#[verifier::external_body]
fn to_romaji(reading: &str) -> (latin: String)
    requires
        romanizable(reading@),
    ensures
        latin@ == romaji(reading@),
{
    reading.to_romaji()
}

/// Whether the converter accepts `reading`.
pub fn is_romanizable(reading: &str) -> (accepted: bool)
    ensures
        accepted == romanizable(reading@),
{
    let chars = chars_of(reading);
    let mut blocked = false;
    let mut i: usize = 0;
    while i < chars.len()
        invariant
            i <= chars.len(),
            chars@ == reading@,
            blocked == blocked_after(reading@.take(i as int)),
            forall|j: int|
                0 <= j < i && is_long_mark(#[trigger] reading@[j]) ==> !blocked_after(
                    reading@.take(j),
                ),
        decreases chars.len() - i,
    {
        let c = chars[i];
        proof {
            let longer = reading@.take(i + 1);
            assert(longer.drop_last() =~= reading@.take(i as int));
            assert(longer.last() == c);
        }
        if c == '\u{30FC}' {
            if blocked {
                return false;
            }
        } else if c == '\u{30FB}' || c == '\u{30F5}' || c == '\u{30F6}' {
        } else if c >= '\u{30A1}' && c <= '\u{30FC}' {
            blocked = c == '\u{30C3}' || (c >= '\u{30F7}' && c <= '\u{30FA}');
        } else {
            blocked = false;
        }
        i += 1;
    }
    true
}

/// Romanizes a reading. Total: a reading that the converter cannot take is returned
/// unchanged.
pub fn romanize(reading: &str) -> (latin: String)
    ensures
        latin@ == romanized(reading@),
{
    if is_romanizable(reading) {
        to_romaji(reading)
    } else {
        String::from_str(reading)
    }
}

} // verus!
