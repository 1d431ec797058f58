//! Text as the account stores and the account tools use it: decimal numbers,
//! lists joined by a separator, records split at a separator, lines.

use vstd::prelude::*;

verus! {

/// The parts of a list written one after the other, with `sep` between two
/// neighbours.
pub open spec fn join(parts: Seq<Seq<char>>, sep: Seq<char>) -> Seq<char>
    decreases parts.len(),
{
    if parts.len() == 0 {
        Seq::empty()
    } else if parts.len() == 1 {
        parts[0]
    } else {
        join(parts.drop_last(), sep) + sep + parts.last()
    }
}

/// Joins the strings of `parts` from position `from` on, with `sep` between
/// two neighbours.
pub fn join_from(parts: &Vec<String>, from: usize, sep: &str) -> (joined: String)
    requires
        from <= parts.len(),
    ensures
        joined@ == join(parts.deep_view().skip(from as int), sep@),
{
    let ghost all = parts.deep_view();
    let mut joined = String::new();
    let mut i: usize = from;
    while i < parts.len()
        invariant
            from <= i <= parts.len(),
            all == parts.deep_view(),
            joined@ == join(all.subrange(from as int, i as int), sep@),
        decreases parts.len() - i,
    {
        if i > from {
            joined.append(sep);
        }
        joined.append(parts[i].as_str());
        assert(all.subrange(from as int, i + 1).drop_last() =~= all.subrange(
            from as int,
            i as int,
        ));
        i = i + 1;
    }
    joined
}

/// The character that stands for a digit below ten.
pub open spec fn digit(d: nat) -> char {
    if d == 0 {
        '0'
    } else if d == 1 {
        '1'
    } else if d == 2 {
        '2'
    } else if d == 3 {
        '3'
    } else if d == 4 {
        '4'
    } else if d == 5 {
        '5'
    } else if d == 6 {
        '6'
    } else if d == 7 {
        '7'
    } else if d == 8 {
        '8'
    } else {
        '9'
    }
}

/// A number in decimal, without sign and without leading zeros.
pub open spec fn decimal(n: nat) -> Seq<char>
    decreases n,
{
    if n < 10 {
        seq![digit(n)]
    } else {
        decimal(n / 10).push(digit(n % 10))
    }
}

fn digit_text(d: u32) -> (text: &'static str)
    requires
        d < 10,
    ensures
        text@ == seq![digit(d as nat)],
{
    proof {
        reveal_strlit("0");
        reveal_strlit("1");
        reveal_strlit("2");
        reveal_strlit("3");
        reveal_strlit("4");
        reveal_strlit("5");
        reveal_strlit("6");
        reveal_strlit("7");
        reveal_strlit("8");
        reveal_strlit("9");
    }
    let text = if d == 0 {
        "0"
    } else if d == 1 {
        "1"
    } else if d == 2 {
        "2"
    } else if d == 3 {
        "3"
    } else if d == 4 {
        "4"
    } else if d == 5 {
        "5"
    } else if d == 6 {
        "6"
    } else if d == 7 {
        "7"
    } else if d == 8 {
        "8"
    } else {
        "9"
    };
    text
}

/// Writes a number in decimal.
pub fn decimal_string(n: u32) -> (text: String)
    ensures
        text@ == decimal(n as nat),
    decreases n,
{
    if n < 10 {
        digit_text(n).to_owned()
    } else {
        let mut text = decimal_string(n / 10);
        text.append(digit_text(n % 10));
        text
    }
}

/// The position of the first `c` in `s`, or the length of `s` where it holds
/// none.
pub open spec fn position(s: Seq<char>, c: char) -> int
    decreases s.len(),
{
    if s.len() == 0 {
        0
    } else if s[0] == c {
        0
    } else {
        1 + position(s.skip(1), c)
    }
}

/// The position of the first `c` is where a `c` stands with none before it.
pub proof fn lemma_position(s: Seq<char>, c: char, at: int)
    requires
        0 <= at <= s.len(),
        forall|k: int| 0 <= k < at ==> s[k] != c,
        at < s.len() ==> s[at] == c,
    ensures
        position(s, c) == at,
    decreases s.len(),
{
    if at > 0 {
        lemma_position(s.skip(1), c, at - 1);
    }
}

/// The position of the first `c` lies within the text or at its end, no `c`
/// stands before it, and one stands at it unless it is the end.
pub proof fn lemma_position_is_first(s: Seq<char>, c: char)
    ensures
        0 <= position(s, c) <= s.len(),
        forall|k: int| 0 <= k < position(s, c) ==> s[k] != c,
        position(s, c) < s.len() ==> s[position(s, c)] == c,
    decreases s.len(),
{
    if s.len() > 0 && s[0] != c {
        lemma_position_is_first(s.skip(1), c);
        assert forall|k: int| 0 <= k < position(s, c) implies s[k] != c by {
            if k > 0 {
                assert(s[k] == s.skip(1)[k - 1]);
            }
        }
    }
}

/// The pieces into which the separator cuts a text: what stands before the
/// first separator, then the pieces of what follows it. A text without
/// separator is one piece, be it empty.
pub open spec fn pieces(s: Seq<char>, sep: char) -> Seq<Seq<char>>
    decreases s.len(),
{
    let at = position(s, sep);
    if 0 <= at < s.len() {
        seq![s.take(at)] + pieces(s.skip(at + 1), sep)
    } else {
        seq![s]
    }
}

/// Cuts a text at each separator. Each piece is found by counting the
/// characters from the start of the text, so the time taken grows with the
/// length of the text times the number of its pieces.
pub fn split(text: &str, sep: char) -> (parts: Vec<String>)
    ensures
        parts.deep_view() == pieces(text@, sep),
{
    let len = text.unicode_len();
    let mut parts: Vec<String> = Vec::new();
    let mut start: usize = 0;
    let mut i: usize = 0;
    assert(text@.skip(0) =~= text@);
    for c in it: text.chars()
        invariant
            i == it.index(),
            it.seq() == text@,
            len == text@.len(),
            start <= i <= len,
            forall|k: int| start <= k < i ==> text@[k] != sep,
            parts.deep_view() + pieces(text@.skip(start as int), sep) == pieces(text@, sep),
    {
        if c == sep {
            proof {
                let rest = text@.skip(start as int);
                lemma_position(rest, sep, i - start);
                assert(rest.take(i - start) =~= text@.subrange(start as int, i as int));
                assert(rest.skip(i - start + 1) =~= text@.skip(i + 1));
            }
            parts.push(text.substring_char(start, i).to_owned());
            start = i + 1;
        }
        i = i + 1;
    }
    proof {
        lemma_position(text@.skip(start as int), sep, len - start);
    }
    parts.push(text.substring_char(start, len).to_owned());
    parts
}

/// A separator cuts a text into one piece at least.
pub proof fn lemma_pieces_not_empty(s: Seq<char>, sep: char)
    ensures
        pieces(s, sep).len() >= 1,
{
}

/// A line without the carriage return that may end it.
pub open spec fn without_return(line: Seq<char>) -> Seq<char> {
    if line.len() > 0 && line.last() == '\r' {
        line.drop_last()
    } else {
        line
    }
}

/// The lines of a text. A line ends with a line feed, which is not part of
/// it, nor is a carriage return just before the line feed. What follows the
/// last line feed is a line too, as it stands, unless it is empty.
pub open spec fn lines(text: Seq<char>) -> Seq<Seq<char>> {
    let cut = pieces(text, '\n');
    let ended = Seq::new((cut.len() - 1) as nat, |i: int| without_return(cut[i]));
    if cut.last().len() > 0 {
        ended.push(cut.last())
    } else {
        ended
    }
}

fn strip_return(line: String) -> (stripped: String)
    ensures
        stripped@ == without_return(line@),
{
    let len = line.as_str().unicode_len();
    if len > 0 && line.as_str().get_char(len - 1) == '\r' {
        let stripped = line.as_str().substring_char(0, len - 1).to_owned();
        stripped
    } else {
        line
    }
}

/// Cuts a text into its lines.
pub fn split_lines(text: &str) -> (found: Vec<String>)
    ensures
        found.deep_view() == lines(text@),
{
    let mut cut = split(text, '\n');
    let ghost all = cut.deep_view();
    proof {
        lemma_pieces_not_empty(text@, '\n');
    }
    let rest = cut.pop().unwrap();
    let mut found: Vec<String> = Vec::new();
    let mut i: usize = 0;
    while i < cut.len()
        invariant
            i <= cut.len(),
            cut.len() == all.len() - 1,
            forall|k: int| 0 <= k < cut.len() ==> cut[k]@ == all[k],
            found.len() == i,
            forall|k: int| 0 <= k < i ==> found[k]@ == without_return(all[k]),
        decreases cut.len() - i,
    {
        found.push(strip_return(cut[i].clone()));
        i = i + 1;
    }
    if !rest.as_str().is_empty() {
        found.push(rest);
    }
    found
}

/// Whether a character is one of the ten digits.
pub open spec fn is_digit(c: char) -> bool {
    '0' <= c <= '9'
}

/// The number that a digit stands for.
pub open spec fn digit_value(c: char) -> nat {
    (c as nat - '0' as nat) as nat
}

/// The number that a sequence of digits stands for in decimal. The empty
/// sequence stands for zero.
pub open spec fn digits_value(digits: Seq<char>) -> nat
    decreases digits.len(),
{
    if digits.len() == 0 {
        0
    } else {
        10 * digits_value(digits.drop_last()) + digit_value(digits.last())
    }
}

/// A text without the plus sign that may start it.
pub open spec fn unsigned(text: Seq<char>) -> Seq<char> {
    if text.len() > 0 && text[0] == '+' {
        text.skip(1)
    } else {
        text
    }
}

/// The number that a text stands for: the text is one digit or more, after
/// an optional plus sign and with nothing else before, between or after, and
/// the number fits in 32 bits. Other texts stand for no number.
pub open spec fn number(text: Seq<char>) -> Option<u32> {
    let digits = unsigned(text);
    if digits.len() > 0 && (forall|i: int| 0 <= i < digits.len() ==> is_digit(#[trigger] digits[i]))
        && digits_value(digits) <= u32::MAX {
        Some(digits_value(digits) as u32)
    } else {
        None
    }
}

/// The digits at the start of a number stand for no more than all of them.
proof fn lemma_digits_value_grows(digits: Seq<char>, n: int)
    requires
        0 <= n <= digits.len(),
    ensures
        digits_value(digits.take(n)) <= digits_value(digits),
    decreases digits.len() - n,
{
    if n < digits.len() {
        lemma_digits_value_grows(digits, n + 1);
        assert(digits.take(n + 1).drop_last() =~= digits.take(n));
    } else {
        assert(digits.take(n) =~= digits);
    }
}

/// Reads a number in decimal.
pub fn parse_number(text: &str) -> (value: Option<u32>)
    ensures
        value == number(text@),
{
    let len = text.unicode_len();
    let ghost digits = unsigned(text@);
    let ghost sign: int = text@.len() - digits.len();
    let mut value: u32 = 0;
    let mut i: usize = 0;
    for c in it: text.chars()
        invariant
            i == it.index(),
            it.seq() == text@,
            len == text@.len(),
            i <= len,
            digits == unsigned(text@),
            sign == text@.len() - digits.len(),
            0 <= sign <= 1,
            i > 0 ==> i >= sign,
            i == 0 ==> value == 0,
            i > 0 ==> value == digits_value(digits.take(i - sign)),
            forall|k: int| 0 <= k < i - sign ==> is_digit(#[trigger] digits[k]),
    {
        if !(i == 0 && c == '+') {
            if !('0' <= c && c <= '9') {
                return None;
            }
            let d: u32 = c as u32 - '0' as u32;
            proof {
                lemma_digits_value_grows(digits, i - sign + 1);
                assert(digits.take(i - sign + 1).drop_last() =~= digits.take(i - sign));
                assert(value == digits_value(digits.take(i - sign)));
            }
            if value > (u32::MAX - d) / 10 {
                return None;
            }
            value = value * 10 + d;
        }
        i = i + 1;
    }
    assert(digits.take(digits.len() as int) =~= digits);
    if len == 0 || (len == 1 && text.get_char(0) == '+') {
        return None;
    }
    Some(value)
}

/// The pieces of two texts with a separator between them are the pieces of
/// the first, then those of the second.
pub proof fn lemma_pieces_of_both(first: Seq<char>, second: Seq<char>, sep: char)
    ensures
        pieces(first + seq![sep] + second, sep) == pieces(first, sep) + pieces(second, sep),
    decreases first.len(),
{
    let whole = first + seq![sep] + second;
    let at = position(first, sep);
    lemma_position_is_first(first, sep);
    lemma_position(whole, sep, at);
    if at < first.len() {
        lemma_pieces_of_both(first.skip(at + 1), second, sep);
        assert(whole.take(at) =~= first.take(at));
        assert(whole.skip(at + 1) =~= first.skip(at + 1) + seq![sep] + second);
    } else {
        assert(whole.take(at) =~= first);
        assert(whole.skip(at + 1) =~= second);
    }
}

/// A text without separator is one piece.
pub proof fn lemma_one_piece(s: Seq<char>, sep: char)
    requires
        !s.contains(sep),
    ensures
        pieces(s, sep) == seq![s],
{
    lemma_position(s, sep, s.len() as int);
}

/// No piece holds the separator, and the pieces joined by the separator are
/// the text: the pieces are the one way to cut the text at every separator.
pub proof fn lemma_pieces_join(s: Seq<char>, sep: char)
    ensures
        pieces(s, sep).len() >= 1,
        forall|i: int|
            0 <= i < pieces(s, sep).len() ==> !(#[trigger] pieces(s, sep)[i]).contains(sep),
        join(pieces(s, sep), seq![sep]) == s,
    decreases s.len(),
{
    let at = position(s, sep);
    lemma_position_is_first(s, sep);
    if at < s.len() {
        let rest = s.skip(at + 1);
        lemma_pieces_join(rest, sep);
        lemma_join_after(s.take(at), pieces(rest, sep), seq![sep]);
    }
}

/// A part put before one part or more comes first in what they join to, with
/// the separator after it.
pub proof fn lemma_join_after(first: Seq<char>, others: Seq<Seq<char>>, sep: Seq<char>)
    requires
        others.len() >= 1,
    ensures
        join(seq![first] + others, sep) == first + sep + join(others, sep),
    decreases others.len(),
{
    let all = seq![first] + others;
    assert(all.drop_last() =~= seq![first] + others.drop_last());
    if others.len() == 1 {
        assert(join(all.drop_last(), sep) == first);
    } else {
        lemma_join_after(first, others.drop_last(), sep);
    }
}

/// The digits of a number stand for the number: what `decimal` writes,
/// `number` reads back.
pub proof fn lemma_decimal_reads_back(n: u32)
    ensures
        number(decimal(n as nat)) == Some(n),
{
    lemma_decimal_value(n as nat);
}

/// What `decimal` writes is one digit or more, starts with no plus sign and
/// stands for the number written.
pub proof fn lemma_decimal_value(n: nat)
    ensures
        decimal(n).len() >= 1,
        forall|i: int| 0 <= i < decimal(n).len() ==> is_digit(#[trigger] decimal(n)[i]),
        digits_value(decimal(n)) == n,
        unsigned(decimal(n)) == decimal(n),
    decreases n,
{
    if n >= 10 {
        lemma_decimal_value(n / 10);
        assert(decimal(n).drop_last() =~= decimal(n / 10));
    } else {
        assert(digits_value(decimal(n).drop_last()) == 0);
    }
}

} // verus!
