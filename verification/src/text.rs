//! Text as sequences of characters: joining and splitting lists, decimal numbers.

use vstd::prelude::*;
use vstd::string::*;

verus! {

/// `parts` written one after another with `sep` between neighbours.
pub open spec fn joined(parts: Seq<Seq<char>>, sep: Seq<char>) -> Seq<char>
    decreases parts.len(),
{
    if parts.len() == 0 {
        Seq::empty()
    } else if parts.len() == 1 {
        parts[0]
    } else {
        joined(parts.drop_last(), sep) + sep + parts.last()
    }
}

/// `sep` stands in `text` at position `at`.
pub open spec fn occurs_at(text: Seq<char>, sep: Seq<char>, at: int) -> bool {
    0 <= at && at + sep.len() <= text.len() && text.subrange(at, at + sep.len()) == sep
}

/// The pieces of `text` from `start` on, where the text before `pos` is known to
/// continue the piece that began at `start`: the scan goes from left to right and
/// cuts at each occurrence of `sep` that does not overlap an earlier one.
pub open spec fn pieces(text: Seq<char>, sep: Seq<char>, start: int, pos: int) -> Seq<Seq<char>>
    decreases text.len() - pos,
{
    if sep.len() == 0 || pos < start || start < 0 || pos + sep.len() > text.len() {
        seq![text.subrange(start, text.len() as int)]
    } else if occurs_at(text, sep, pos) {
        seq![text.subrange(start, pos)] + pieces(text, sep, pos + sep.len(), pos + sep.len())
    } else {
        pieces(text, sep, start, pos + 1)
    }
}

/// `text` cut at the occurrences of `sep`; with an empty `sep`, `text` alone.
pub open spec fn split_text(text: Seq<char>, sep: Seq<char>) -> Seq<Seq<char>> {
    pieces(text, sep, 0, 0)
}

/// The characters of `text`, in order.
pub fn chars_of(text: &str) -> (chars: Vec<char>)
    ensures
        chars@ == text@,
{
    let mut chars: Vec<char> = Vec::new();
    for c in it: text.chars()
        invariant
            it.seq() == text@,
            chars@ == text@.take(it.index() as int),
    {
        assert(text@.take(it.index() + 1) =~= text@.take(it.index()).push(c));
        chars.push(c);
    }
    assert(text@.take(text@.len() as int) =~= text@);
    chars
}

/// Joins `parts` with `sep` between neighbours.
pub fn join(parts: &Vec<String>, sep: &str) -> (text: String)
    ensures
        text@ == joined(parts.deep_view(), sep@),
{
    let ghost all = parts.deep_view();
    let mut text = String::new();
    let mut i: usize = 0;
    while i < parts.len()
        invariant
            i <= parts.len(),
            all == parts.deep_view(),
            text@ == joined(all.take(i as int), sep@),
        decreases parts.len() - i,
    {
        proof {
            let next = all.take(i + 1);
            assert(next.drop_last() =~= all.take(i as int));
            assert(next.last() == parts@[i as int]@);
        }
        if i > 0 {
            text.append(sep);
        }
        text.append(parts[i].as_str());
        i += 1;
    }
    assert(all.take(i as int) =~= all);
    text
}

/// Whether `sep` stands in `text` at position `at`.
fn matches_at(text: &Vec<char>, sep: &Vec<char>, at: usize) -> (found: bool)
    requires
        at + sep.len() <= text.len(),
    ensures
        found == occurs_at(text@, sep@, at as int),
{
    let mut k: usize = 0;
    while k < sep.len()
        invariant
            k <= sep.len(),
            at + sep.len() <= text.len(),
            forall|j: int| 0 <= j < k ==> text@[at + j] == sep@[j],
        decreases sep.len() - k,
    {
        if text[at + k] != sep[k] {
            assert(text@.subrange(at as int, at + sep.len())[k as int] != sep@[k as int]);
            return false;
        }
        k += 1;
    }
    assert(text@.subrange(at as int, at + sep.len()) =~= sep@);
    true
}

/// Cuts `text` at the occurrences of `sep`, scanning from the left. An empty `sep`
/// cuts nowhere.
pub fn split(text: &str, sep: &str) -> (parts: Vec<String>)
    ensures
        parts.deep_view() == split_text(text@, sep@),
{
    let chars = chars_of(text);
    let mark = chars_of(sep);
    let mut parts: Vec<String> = Vec::new();
    let mut start: usize = 0;
    let mut pos: usize = 0;
    if mark.len() > 0 {
        while mark.len() <= chars.len() - pos
            invariant
                chars@ == text@,
                mark@ == sep@,
                mark.len() > 0,
                start <= pos <= chars.len(),
                parts.deep_view() + pieces(text@, sep@, start as int, pos as int) == split_text(
                    text@,
                    sep@,
                ),
            decreases chars.len() - pos,
        {
            if matches_at(&chars, &mark, pos) {
                let piece = String::from_str(text.substring_char(start, pos));
                let ghost before = parts.deep_view();
                let ghost cut = piece@;
                parts.push(piece);
                proof {
                    let rest = pieces(
                        text@,
                        sep@,
                        pos as int + sep@.len(),
                        pos as int + sep@.len(),
                    );
                    assert(parts.deep_view() =~= before.push(cut));
                    assert(before.push(cut) + rest =~= before + (seq![cut] + rest));
                }
                pos = pos + mark.len();
                start = pos;
            } else {
                pos = pos + 1;
            }
        }
    }
    let last = String::from_str(text.substring_char(start, chars.len()));
    let ghost before = parts.deep_view();
    let ghost tail = last@;
    parts.push(last);
    proof {
        assert(parts.deep_view() =~= before.push(tail));
        assert(before.push(tail) =~= before + seq![tail]);
    }
    parts
}

/// `sep` stands nowhere in `text`.
pub open spec fn free_of(text: Seq<char>, sep: Seq<char>) -> bool {
    forall|at: int| !occurs_at(text, sep, at)
}

/// A list of two or more parts, joined, is its first part, the separator, and the
/// rest joined.
proof fn lemma_joined_front(parts: Seq<Seq<char>>, sep: Seq<char>)
    requires
        parts.len() >= 2,
    ensures
        joined(parts, sep) == parts[0] + sep + joined(parts.skip(1), sep),
    decreases parts.len(),
{
    let rest = parts.skip(1);
    let front = parts.drop_last();
    assert(joined(parts, sep) == joined(front, sep) + sep + parts.last());
    if parts.len() == 2 {
        assert(joined(front, sep) == front[0]);
        assert(joined(rest, sep) == rest[0]);
    } else {
        lemma_joined_front(front, sep);
        assert(front.skip(1) =~= rest.drop_last());
        assert(rest.last() == parts.last());
        assert(joined(rest, sep) == joined(rest.drop_last(), sep) + sep + rest.last());
        assert((parts[0] + sep + joined(rest.drop_last(), sep)) + sep + parts.last() =~= parts[0]
            + sep + (joined(rest.drop_last(), sep) + sep + parts.last()));
    }
}

/// Cutting does not look back: behind a text `a`, the text `b` is cut as it is cut
/// alone.
proof fn lemma_pieces_shift(a: Seq<char>, b: Seq<char>, sep: Seq<char>, start: int, pos: int)
    requires
        sep.len() > 0,
        0 <= start <= pos <= b.len(),
    ensures
        pieces(a + b, sep, a.len() as int + start, a.len() as int + pos) == pieces(
            b,
            sep,
            start,
            pos,
        ),
    decreases b.len() - pos,
{
    let text = a + b;
    let n = a.len() as int;
    assert(text.subrange(n + start, text.len() as int) =~= b.subrange(start, b.len() as int));
    if pos + sep.len() <= b.len() {
        assert(text.subrange(n + pos, n + pos + sep.len()) =~= b.subrange(pos, pos + sep.len()));
        if occurs_at(b, sep, pos) {
            assert(text.subrange(n + start, n + pos) =~= b.subrange(start, pos));
            lemma_pieces_shift(a, b, sep, pos + sep.len(), pos + sep.len());
        } else {
            lemma_pieces_shift(a, b, sep, start, pos + 1);
        }
    }
}

/// A text in which the separator stands nowhere is one piece.
proof fn lemma_pieces_uncut(text: Seq<char>, sep: Seq<char>, pos: int)
    requires
        sep.len() > 0,
        free_of(text, sep),
        0 <= pos,
    ensures
        pieces(text, sep, 0, pos) == seq![text],
    decreases text.len() - pos,
{
    assert(text.subrange(0, text.len() as int) =~= text);
    if pos + sep.len() <= text.len() {
        lemma_pieces_uncut(text, sep, pos + 1);
    }
}

/// Before a separator of two different characters, a part in which it stands nowhere
/// is cut off whole.
proof fn lemma_pieces_first(first: Seq<char>, rest: Seq<char>, sep: Seq<char>, pos: int)
    requires
        sep.len() == 2,
        sep[0] != sep[1],
        free_of(first, sep),
        0 <= pos <= first.len(),
    ensures
        pieces(first + sep + rest, sep, 0, pos) == seq![first] + pieces(
            first + sep + rest,
            sep,
            first.len() as int + 2,
            first.len() as int + 2,
        ),
    decreases first.len() - pos,
{
    let text = first + sep + rest;
    let n = first.len() as int;
    if pos == n {
        assert(text.subrange(n, n + 2) =~= sep);
        assert(text.subrange(0, n) =~= first);
    } else {
        if occurs_at(text, sep, pos) {
            let found = text.subrange(pos, pos + 2);
            if pos + 2 <= n {
                assert(first.subrange(pos, pos + 2) =~= found);
                assert(occurs_at(first, sep, pos));
            } else {
                assert(found[1] == text[n]);
                assert(text[n] == sep[0]);
                assert(found[1] == sep[1]);
            }
        }
        lemma_pieces_first(first, rest, sep, pos + 1);
    }
}

/// Cutting undoes joining: a list of one or more parts, joined with a separator of
/// two different characters that stands in none of them, is cut into the same
/// parts. A part that holds the separator comes back as several.
pub proof fn lemma_split_undoes_join(parts: Seq<Seq<char>>, sep: Seq<char>)
    requires
        parts.len() > 0,
        sep.len() == 2,
        sep[0] != sep[1],
        forall|i: int| 0 <= i < parts.len() ==> free_of(#[trigger] parts[i], sep),
    ensures
        split_text(joined(parts, sep), sep) == parts,
    decreases parts.len(),
{
    if parts.len() == 1 {
        lemma_pieces_uncut(parts[0], sep, 0);
        assert(parts =~= seq![parts[0]]);
    } else {
        let rest = parts.skip(1);
        let tail = joined(rest, sep);
        lemma_joined_front(parts, sep);
        assert forall|i: int| 0 <= i < rest.len() implies free_of(#[trigger] rest[i], sep) by {
            assert(rest[i] == parts[i + 1]);
        }
        lemma_split_undoes_join(rest, sep);
        lemma_pieces_first(parts[0], tail, sep, 0);
        lemma_pieces_shift(parts[0] + sep, tail, sep, 0, 0);
        assert(seq![parts[0]] + rest =~= parts);
    }
}

/// Whether `c` is one of the ten decimal digits.
pub open spec fn is_digit(c: char) -> bool {
    '0' <= c && c <= '9'
}

/// The number that the digit `c` stands for.
pub open spec fn digit_value(c: char) -> int {
    c as int - '0' as int
}

/// The number that a run of decimal digits writes.
pub open spec fn digits_value(digits: Seq<char>) -> int
    decreases digits.len(),
{
    if digits.len() == 0 {
        0
    } else {
        digits_value(digits.drop_last()) * 10 + digit_value(digits.last())
    }
}

/// Every character of `digits` is a decimal digit.
pub open spec fn all_digits(digits: Seq<char>) -> bool {
    forall|i: int| 0 <= i < digits.len() ==> is_digit(#[trigger] digits[i])
}

/// `text` starts with a sign.
pub open spec fn has_sign(text: Seq<char>) -> bool {
    text.len() > 0 && (text[0] == '-' || text[0] == '+')
}

/// The digits of `text`: what follows its sign, if it has one.
pub open spec fn digits_of(text: Seq<char>) -> Seq<char> {
    if has_sign(text) {
        text.skip(1)
    } else {
        text
    }
}

/// The number that `text` writes, sign included, whatever its size.
pub open spec fn signed_value(text: Seq<char>) -> int {
    if text.len() > 0 && text[0] == '-' {
        -digits_value(digits_of(text))
    } else {
        digits_value(digits_of(text))
    }
}

/// The 64-bit signed integer that `text` writes in decimal: an optional `+` or `-`,
/// then one or more digits and nothing else, and a value that fits. `None` for every
/// other text.
pub open spec fn decimal_i64(text: Seq<char>) -> Option<int> {
    if digits_of(text).len() > 0 && all_digits(digits_of(text)) && i64::MIN <= signed_value(text)
        <= i64::MAX {
        Some(signed_value(text))
    } else {
        None
    }
}

/// A run of digits is worth at least as much as each of its beginnings.
proof fn lemma_digits_value_grows(digits: Seq<char>, k: int)
    requires
        all_digits(digits),
        0 <= k <= digits.len(),
    ensures
        0 <= digits_value(digits.take(k)) <= digits_value(digits),
    decreases digits.len() - k,
{
    if k == digits.len() {
        assert(digits.take(k) =~= digits);
        lemma_digits_value_nonnegative(digits);
    } else {
        lemma_digits_value_grows(digits, k + 1);
        let longer = digits.take(k + 1);
        assert(longer.drop_last() =~= digits.take(k));
        assert(is_digit(digits[k]));
        assert(longer.last() == digits[k]);
        lemma_digits_value_nonnegative(digits.take(k));
    }
}

proof fn lemma_digits_value_nonnegative(digits: Seq<char>)
    requires
        all_digits(digits),
    ensures
        0 <= digits_value(digits),
    decreases digits.len(),
{
    if digits.len() > 0 {
        assert(is_digit(digits[digits.len() - 1]));
        lemma_digits_value_nonnegative(digits.drop_last());
    }
}

/// Reads `text` as a 64-bit signed integer in decimal.
pub fn parse_i64(text: &str) -> (value: Option<i64>)
    ensures
        match value {
            Some(v) => decimal_i64(text@) == Some(v as int),
            None => decimal_i64(text@) is None,
        },
{
    let chars = chars_of(text);
    let n = chars.len();
    let signed = n > 0 && (chars[0] == '-' || chars[0] == '+');
    let negative = n > 0 && chars[0] == '-';
    let first: usize = if signed {
        1
    } else {
        0
    };
    let ghost digits = digits_of(text@);
    assert(digits.len() == n - first);
    if first == n {
        return None;
    }
    let mut magnitude: u64 = 0;
    let mut i: usize = first;
    while i < n
        invariant
            first <= i <= n,
            n == chars.len(),
            chars@ == text@,
            digits == digits_of(text@),
            digits.len() == n - first,
            forall|j: int| 0 <= j < digits.len() ==> digits[j] == chars@[first + j],
            all_digits(digits.take(i - first)),
            magnitude == digits_value(digits.take(i - first)),
            magnitude <= 0x8000_0000_0000_0000,
        decreases n - i,
    {
        let c = chars[i];
        let ghost seen = digits.take(i - first);
        let ghost more = digits.take(i + 1 - first);
        proof {
            assert(more.drop_last() =~= seen);
            assert(more.last() == c);
        }
        if !(c >= '0' && c <= '9') {
            assert(!is_digit(digits[i - first]));
            return None;
        }
        assert(all_digits(more)) by {
            assert forall|j: int| 0 <= j < more.len() implies is_digit(#[trigger] more[j]) by {
                if j < seen.len() {
                    assert(more[j] == seen[j]);
                }
            }
        }
        let d: u64 = (c as u32 - '0' as u32) as u64;
        if magnitude > 922337203685477580 || magnitude * 10 + d > 0x8000_0000_0000_0000 {
            proof {
                if all_digits(digits) {
                    lemma_digits_value_grows(digits, i + 1 - first);
                }
            }
            return None;
        }
        magnitude = magnitude * 10 + d;
        i += 1;
    }
    assert(digits.take(n - first) =~= digits);
    if negative {
        if magnitude == 0x8000_0000_0000_0000 {
            Some(i64::MIN)
        } else {
            Some(-(magnitude as i64))
        }
    } else if magnitude == 0x8000_0000_0000_0000 {
        None
    } else {
        Some(magnitude as i64)
    }
}

/// The character that writes the digit `d`.
pub open spec fn digit_char(d: int) -> char {
    if d == 0 {
        '0'
    } else if d == 1 {
        '1'
    } else if d == 2 {
        '2'
    } else if d == 3 {
        '3'
    } else if d == 4 {
        '4'
    } else if d == 5 {
        '5'
    } else if d == 6 {
        '6'
    } else if d == 7 {
        '7'
    } else if d == 8 {
        '8'
    } else {
        '9'
    }
}

/// `n` written in decimal, without leading zeros.
pub open spec fn decimal(n: nat) -> Seq<char>
    decreases n,
{
    if n < 10 {
        seq![digit_char(n as int)]
    } else {
        decimal(n / 10) + seq![digit_char((n % 10) as int)]
    }
}

/// The text of one digit.
fn digit_text(d: usize) -> (text: &'static str)
    requires
        d < 10,
    ensures
        text@ == seq![digit_char(d as int)],
{
    proof {
        reveal_strlit("0");
        reveal_strlit("1");
        reveal_strlit("2");
        reveal_strlit("3");
        reveal_strlit("4");
        reveal_strlit("5");
        reveal_strlit("6");
        reveal_strlit("7");
        reveal_strlit("8");
        reveal_strlit("9");
    }
    let text = if d == 0 {
        "0"
    } else if d == 1 {
        "1"
    } else if d == 2 {
        "2"
    } else if d == 3 {
        "3"
    } else if d == 4 {
        "4"
    } else if d == 5 {
        "5"
    } else if d == 6 {
        "6"
    } else if d == 7 {
        "7"
    } else if d == 8 {
        "8"
    } else {
        "9"
    };
    assert(text@ =~= seq![digit_char(d as int)]);
    text
}

/// Writes `n` in decimal.
pub fn decimal_string(n: usize) -> (text: String)
    ensures
        text@ == decimal(n as nat),
    decreases n,
{
    let mut text = if n >= 10 {
        decimal_string(n / 10)
    } else {
        String::new()
    };
    text.append(digit_text(n % 10));
    text
}

} // verus!
