//! The little text that the backends exchange with their helper programs:
//! words, comma-separated fields and decimal numbers.

use vstd::prelude::*;

verus! {

/// The white space of Unicode: the characters that separate words.
pub open spec fn is_space(c: char) -> bool {
    let code = c as u32;
    ||| 0x09 <= code <= 0x0d
    ||| code == 0x20
    ||| code == 0x85
    ||| code == 0xa0
    ||| code == 0x1680
    ||| 0x2000 <= code <= 0x200a
    ||| code == 0x2028
    ||| code == 0x2029
    ||| code == 0x202f
    ||| code == 0x205f
    ||| code == 0x3000
}

/// `c` is one of the ten decimal digits.
pub open spec fn is_digit(c: char) -> bool {
    '0' <= c <= '9'
}

/// The number that a decimal digit stands for.
pub open spec fn digit_value(c: char) -> int {
    c as u32 - '0' as u32
}

/// Every character is a decimal digit.
pub open spec fn all_digits(s: Seq<char>) -> bool {
    forall|i: int| 0 <= i < s.len() ==> is_digit(#[trigger] s[i])
}

/// The number that a run of decimal digits stands for.
pub open spec fn decimal_value(s: Seq<char>) -> nat
    decreases s.len(),
{
    if s.len() == 0 {
        0
    } else {
        (10 * decimal_value(s.drop_last()) + digit_value(s.last())) as nat
    }
}

/// What may stand in front of the digits of a number.
pub enum Signs {
    /// `+` or `-`
    Both,
    /// `+` alone
    PlusOnly,
}

/// The text starts with a sign that `signs` admits.
pub open spec fn has_sign(s: Seq<char>, signs: Signs) -> bool {
    s.len() > 0 && (s[0] == '+' || (signs is Both && s[0] == '-'))
}

/// The digits of a number: the text without its sign.
pub open spec fn digits_of(s: Seq<char>, signs: Signs) -> Seq<char> {
    if has_sign(s, signs) {
        s.skip(1)
    } else {
        s
    }
}

/// The integer that a text denotes: an optional sign and at least one
/// decimal digit, nothing else. `None` for every other text.
pub open spec fn integer_of(s: Seq<char>, signs: Signs) -> Option<int> {
    let digits = digits_of(s, signs);
    if digits.len() == 0 || !all_digits(digits) {
        None
    } else if has_sign(s, signs) && s[0] == '-' {
        Some(-(decimal_value(digits) as int))
    } else {
        Some(decimal_value(digits) as int)
    }
}

/// The `i32` that a text denotes; `None` where it denotes no integer or one
/// that an `i32` cannot hold.
pub open spec fn parsed_i32(s: Seq<char>) -> Option<i32> {
    match integer_of(s, Signs::Both) {
        Some(v) if i32::MIN <= v <= i32::MAX => Some(v as i32),
        _ => None,
    }
}

/// The `u64` that a text denotes; `None` where it denotes no integer, has a
/// minus sign, or denotes more than a `u64` can hold.
pub open spec fn parsed_u64(s: Seq<char>) -> Option<u64> {
    match integer_of(s, Signs::PlusOnly) {
        Some(v) if v <= u64::MAX => Some(v as u64),
        _ => None,
    }
}

/// Tells whether a character is white space.
pub fn char_is_space(c: char) -> (b: bool)
    ensures
        b == is_space(c),
{
    let code: u32 = c as u32;
    (0x09 <= code && code <= 0x0d) || code == 0x20 || code == 0x85 || code == 0xa0 || code
        == 0x1680 || (0x2000 <= code && code <= 0x200a) || code == 0x2028 || code == 0x2029
        || code == 0x202f || code == 0x205f || code == 0x3000
}

/// The characters of a string, in order.
pub fn chars_of(text: &str) -> (chars: Vec<char>)
    ensures
        chars@ == text@,
{
    let n: usize = text.unicode_len();
    let mut chars: Vec<char> = Vec::new();
    let mut i: usize = 0;
    while i < n
        invariant
            n == text@.len(),
            i <= n,
            chars@ == text@.take(i as int),
        decreases n - i,
    {
        chars.push(text.get_char(i));
        i = i + 1;
        assert(chars@ == text@.take(i as int));
    }
    assert(text@.take(n as int) == text@);
    chars
}

/// Reads the digits `s[from..]` as a number. The result is the number, or
/// `None` where a character is no digit, there is no digit at all, or the
/// number exceeds `limit`.
fn read_digits(s: &[char], from: usize, limit: u128) -> (value: Option<u128>)
    requires
        from <= s@.len(),
        limit <= 0xffff_ffff_ffff_ffff_ffff,
    ensures
        value matches Some(v) ==> s@.len() > from && all_digits(s@.skip(from as int)) && v
            == decimal_value(s@.skip(from as int)) && v <= limit,
        value is None ==> s@.len() == from || !all_digits(s@.skip(from as int)) || decimal_value(
            s@.skip(from as int),
        ) > limit,
{
    let ghost digits = s@.skip(from as int);
    if s.len() == from {
        return None;
    }
    let mut acc: u128 = 0;
    let mut over: bool = false;
    let mut i: usize = from;
    while i < s.len()
        invariant
            from <= i <= s@.len(),
            digits == s@.skip(from as int),
            limit <= 0xffff_ffff_ffff_ffff_ffff,
            all_digits(digits.take(i - from)),
            over ==> decimal_value(digits.take(i - from)) > limit,
            !over ==> acc == decimal_value(digits.take(i - from)) && acc <= limit,
        decreases s@.len() - i,
    {
        let c: char = s[i];
        let ghost before = digits.take(i - from);
        let ghost after = digits.take(i - from + 1);
        assert(after.drop_last() == before);
        assert(after.last() == c);
        if !(c >= '0' && c <= '9') {
            assert(!is_digit(digits[i - from]));
            return None;
        }
        if !over {
            let next: u128 = acc * 10 + (c as u32 - '0' as u32) as u128;
            if next > limit {
                over = true;
            } else {
                acc = next;
            }
        }
        i = i + 1;
    }
    assert(digits.take(i - from) == digits);
    if over {
        None
    } else {
        Some(acc)
    }
}

/// Parses a decimal `i32`: an optional `+` or `-`, then digits. Any other
/// text, and any number out of range, gives `None`.
pub fn parse_i32(s: &[char]) -> (value: Option<i32>)
    ensures
        value == parsed_i32(s@),
{
    let negative: bool = s.len() > 0 && s[0] == '-';
    let signed: bool = s.len() > 0 && (s[0] == '+' || s[0] == '-');
    let from: usize = if signed {
        1
    } else {
        0
    };
    assert(signed == has_sign(s@, Signs::Both));
    assert(s@.skip(0) == s@);
    let limit: u128 = if negative {
        0x8000_0000
    } else {
        0x7fff_ffff
    };
    match read_digits(s, from, limit) {
        None => None,
        Some(v) => {
            if negative {
                Some((-(v as i64)) as i32)
            } else {
                Some(v as i32)
            }
        },
    }
}

/// Parses a decimal `u64`: an optional `+`, then digits. Any other text, and
/// any number out of range, gives `None`.
pub fn parse_u64(s: &[char]) -> (value: Option<u64>)
    ensures
        value == parsed_u64(s@),
{
    let signed: bool = s.len() > 0 && s[0] == '+';
    let from: usize = if signed {
        1
    } else {
        0
    };
    assert(signed == has_sign(s@, Signs::PlusOnly));
    assert(s@.skip(0) == s@);
    match read_digits(s, from, 0xffff_ffff_ffff_ffff) {
        None => None,
        Some(v) => Some(v as u64),
    }
}

/// What divides a text into pieces.
#[derive(Clone, Copy, Debug, PartialEq, Eq, Structural)]
pub enum Separator {
    /// A comma.
    Comma,
    /// Any white space character.
    Space,
}

/// `c` is a separator of the kind `sep`.
pub open spec fn separates(sep: Separator, c: char) -> bool {
    match sep {
        Separator::Comma => c == ',',
        Separator::Space => is_space(c),
    }
}

/// Where the first separator stands in `s`; the length of `s` if it holds
/// none.
pub open spec fn first_break(s: Seq<char>, sep: Separator) -> int
    decreases s.len(),
{
    if s.len() == 0 || separates(sep, s[0]) {
        0
    } else {
        1 + first_break(s.skip(1), sep)
    }
}

/// The pieces between the separators of `s`, empty pieces included: a text
/// with `n` separators has `n + 1` pieces.
pub open spec fn fields(s: Seq<char>, sep: Separator) -> Seq<Seq<char>>
    decreases s.len(),
{
    let at = first_break(s, sep);
    if 0 <= at < s.len() {
        seq![s.take(at)] + fields(s.skip(at + 1), sep)
    } else {
        seq![s]
    }
}

/// The words of a text: its pieces between white space that are not empty.
pub open spec fn words(s: Seq<char>) -> Seq<Seq<char>> {
    fields(s, Separator::Space).filter(|piece: Seq<char>| piece.len() > 0)
}

/// The pieces of `s` that a list of spans cuts out, each span a start and an
/// end.
pub open spec fn cut(s: Seq<char>, spans: Seq<(usize, usize)>) -> Seq<Seq<char>> {
    Seq::new(spans.len(), |i: int| s.subrange(spans[i].0 as int, spans[i].1 as int))
}

/// Every span lies inside a text of length `len`.
pub open spec fn spans_fit(spans: Seq<(usize, usize)>, len: nat) -> bool {
    forall|i: int| 0 <= i < spans.len() ==> (#[trigger] spans[i]).0 <= spans[i].1 <= len
}

/// The first separator stands at `k` where none stands before `k` and one
/// stands at `k`, or the text ends there.
proof fn lemma_first_break(s: Seq<char>, sep: Separator, k: int)
    requires
        0 <= k <= s.len(),
        forall|j: int| 0 <= j < k ==> !separates(sep, s[j]),
        k == s.len() || separates(sep, s[k]),
    ensures
        first_break(s, sep) == k,
    decreases k,
{
    if k > 0 {
        let rest = s.skip(1);
        assert forall|j: int| 0 <= j < k - 1 implies !separates(sep, rest[j]) by {
            assert(rest[j] == s[j + 1]);
        }
        lemma_first_break(rest, sep, k - 1);
    }
}

/// Tells whether a character is a separator of the kind `sep`.
pub fn is_separator(sep: Separator, c: char) -> (b: bool)
    ensures
        b == separates(sep, c),
{
    match sep {
        Separator::Comma => c == ',',
        Separator::Space => char_is_space(c),
    }
}

/// Splits a text at every separator and returns the spans of the pieces, in
/// order.
pub fn split(s: &[char], sep: Separator) -> (spans: Vec<(usize, usize)>)
    ensures
        spans_fit(spans@, s@.len()),
        cut(s@, spans@) == fields(s@, sep),
{
    let mut spans: Vec<(usize, usize)> = Vec::new();
    let mut start: usize = 0;
    let mut i: usize = 0;
    proof {
        assert(s@.skip(0) == s@);
        assert(cut(s@, spans@) + fields(s@, sep) == fields(s@, sep));
    }
    while i < s.len()
        invariant
            start <= i <= s@.len(),
            spans_fit(spans@, s@.len()),
            forall|j: int| start <= j < i ==> !separates(sep, s@[j]),
            fields(s@, sep) == cut(s@, spans@) + fields(s@.skip(start as int), sep),
        decreases s@.len() - i,
    {
        if is_separator(sep, s[i]) {
            proof {
                let tail = s@.skip(start as int);
                assert forall|j: int| 0 <= j < i - start implies !separates(sep, tail[j]) by {
                    assert(tail[j] == s@[start + j]);
                }
                lemma_first_break(tail, sep, i - start);
                assert(tail.take(i - start) == s@.subrange(start as int, i as int));
                assert(tail.skip(i - start + 1) == s@.skip(i + 1));
                assert(cut(s@, spans@.push((start, i))) == cut(s@, spans@) + seq![
                    s@.subrange(start as int, i as int),
                ]);
            }
            spans.push((start, i));
            start = i + 1;
        }
        i = i + 1;
    }
    proof {
        let tail = s@.skip(start as int);
        assert forall|j: int| 0 <= j < tail.len() implies !separates(sep, tail[j]) by {
            assert(tail[j] == s@[start + j]);
        }
        lemma_first_break(tail, sep, tail.len() as int);
        assert(tail == s@.subrange(start as int, s@.len() as int));
        assert(cut(s@, spans@.push((start, s@.len() as usize))) == cut(s@, spans@) + seq![tail]);
    }
    spans.push((start, s.len()));
    spans
}

/// Finds the words of a text and returns their spans, in order.
pub fn split_words(s: &[char]) -> (spans: Vec<(usize, usize)>)
    ensures
        spans_fit(spans@, s@.len()),
        cut(s@, spans@) == words(s@),
{
    let pieces = split(s, Separator::Space);
    let ghost keep = |piece: Seq<char>| piece.len() > 0;
    let mut spans: Vec<(usize, usize)> = Vec::new();
    let mut i: usize = 0;
    assert(cut(s@, pieces@.take(0)) == Seq::<Seq<char>>::empty());
    assert(cut(s@, spans@) == Seq::<Seq<char>>::empty());
    while i < pieces.len()
        invariant
            i <= pieces@.len(),
            spans_fit(pieces@, s@.len()),
            spans_fit(spans@, s@.len()),
            keep == |piece: Seq<char>| piece.len() > 0,
            cut(s@, spans@) == cut(s@, pieces@.take(i as int)).filter(keep),
        decreases pieces@.len() - i,
    {
        let span = pieces[i];
        proof {
            let seen = cut(s@, pieces@.take(i as int));
            let piece = s@.subrange(span.0 as int, span.1 as int);
            assert(cut(s@, pieces@.take(i + 1)) == seen.push(piece));
            seen.lemma_filter_push(piece, keep);
            assert(cut(s@, spans@.push(span)) == cut(s@, spans@).push(piece));
        }
        if span.0 < span.1 {
            spans.push(span);
        }
        i = i + 1;
    }
    assert(pieces@.take(i as int) == pieces@);
    spans
}

/// The character of a decimal digit.
pub open spec fn digit_char(d: int) -> char {
    (d + '0' as u32) as char
}

/// The decimal digits of a number, without leading zeros.
pub open spec fn decimal_digits(n: nat) -> Seq<char>
    decreases n,
{
    if n < 10 {
        seq![digit_char(n as int)]
    } else {
        decimal_digits(n / 10).push(digit_char((n % 10) as int))
    }
}

/// An integer written in decimal: a minus sign if it is negative, then its
/// digits.
pub open spec fn decimal_text(v: int) -> Seq<char> {
    if v < 0 {
        seq!['-'] + decimal_digits((-v) as nat)
    } else {
        decimal_digits(v as nat)
    }
}

/// One decimal digit as a string.
fn digit_str(d: u64) -> (text: &'static str)
    requires
        d < 10,
    ensures
        text@ == seq![digit_char(d as int)],
{
    proof {
        reveal_strlit("0");
        reveal_strlit("1");
        reveal_strlit("2");
        reveal_strlit("3");
        reveal_strlit("4");
        reveal_strlit("5");
        reveal_strlit("6");
        reveal_strlit("7");
        reveal_strlit("8");
        reveal_strlit("9");
    }
    let text = match d {
        0 => "0",
        1 => "1",
        2 => "2",
        3 => "3",
        4 => "4",
        5 => "5",
        6 => "6",
        7 => "7",
        8 => "8",
        _ => "9",
    };
    assert(text@ =~= seq![digit_char(d as int)]);
    text
}

/// Appends the decimal digits of `n` to `out`.
fn push_digits(out: &mut String, n: u64)
    ensures
        final(out)@ == old(out)@ + decimal_digits(n as nat),
    decreases n,
{
    if n >= 10 {
        push_digits(out, n / 10);
    }
    out.append(digit_str(n % 10));
}

/// Appends `v`, written in decimal, to `out`.
pub fn push_decimal(out: &mut String, v: i32)
    ensures
        final(out)@ == old(out)@ + decimal_text(v as int),
{
    if v < 0 {
        proof {
            reveal_strlit("-");
        }
        let ghost before = out@;
        out.append("-");
        assert(out@ == before + seq!['-']);
        push_digits(out, (-(v as i64)) as u64);
        assert(out@ == before + (seq!['-'] + decimal_digits((-v) as nat)));
    } else {
        push_digits(out, v as u64);
    }
}

/// Writes `v` in decimal.
pub fn decimal(v: i32) -> (text: String)
    ensures
        text@ == decimal_text(v as int),
{
    let mut text = String::new();
    push_decimal(&mut text, v);
    assert(Seq::<char>::empty() + decimal_text(v as int) == decimal_text(v as int));
    text
}

/// The decimal digits of a number are digits, and they stand for the number.
pub proof fn lemma_digits_round_trip(n: nat)
    ensures
        decimal_digits(n).len() > 0,
        all_digits(decimal_digits(n)),
        decimal_value(decimal_digits(n)) == n,
    decreases n,
{
    if n < 10 {
        let one = seq![digit_char(n as int)];
        assert(one.drop_last() == Seq::<char>::empty());
        assert(decimal_value(one.drop_last()) == 0);
    } else {
        lemma_digits_round_trip(n / 10);
        let front = decimal_digits(n / 10);
        let all = front.push(digit_char((n % 10) as int));
        assert(all.drop_last() == front);
        assert(all.last() == digit_char((n % 10) as int));
        assert forall|i: int| 0 <= i < all.len() implies is_digit(#[trigger] all[i]) by {
            if i < front.len() {
                assert(all[i] == front[i]);
            }
        }
    }
}

/// Reading back what was written gives the number again.
pub proof fn lemma_decimal_round_trip(v: i32)
    ensures
        parsed_i32(decimal_text(v as int)) == Some(v),
{
    if v < 0 {
        let digits = decimal_digits((-v) as nat);
        lemma_digits_round_trip((-v) as nat);
        let text = seq!['-'] + digits;
        assert(text[0] == '-');
        assert(text.skip(1) == digits);
    } else {
        let digits = decimal_digits(v as nat);
        lemma_digits_round_trip(v as nat);
        assert(is_digit(digits[0]));
    }
}

/// The text without the white space at its start.
pub open spec fn trim_start(s: Seq<char>) -> Seq<char>
    decreases s.len(),
{
    if s.len() > 0 && is_space(s[0]) {
        trim_start(s.skip(1))
    } else {
        s
    }
}

/// The text without the white space at its end.
pub open spec fn trim_end(s: Seq<char>) -> Seq<char>
    decreases s.len(),
{
    if s.len() > 0 && is_space(s.last()) {
        trim_end(s.drop_last())
    } else {
        s
    }
}

/// The text without the white space at its start and at its end.
pub open spec fn trimmed(s: Seq<char>) -> Seq<char> {
    trim_end(trim_start(s))
}

/// Finds the span of a text that is left when the white space at both ends
/// is taken away.
pub fn trim(s: &[char]) -> (span: (usize, usize))
    ensures
        span.0 <= span.1 <= s@.len(),
        s@.subrange(span.0 as int, span.1 as int) == trimmed(s@),
{
    let mut start: usize = 0;
    assert(s@.skip(0) == s@);
    while start < s.len() && char_is_space(s[start])
        invariant
            start <= s@.len(),
            trim_start(s@) == trim_start(s@.skip(start as int)),
        decreases s@.len() - start,
    {
        assert(s@.skip(start as int).skip(1) == s@.skip(start + 1));
        start = start + 1;
    }
    let ghost body = s@.skip(start as int);
    assert(trim_start(s@) == body);
    let mut end: usize = s.len();
    assert(body.take(body.len() as int) == body);
    while end > start && char_is_space(s[end - 1])
        invariant
            start <= end <= s@.len(),
            body == s@.skip(start as int),
            trim_end(body) == trim_end(body.take(end - start)),
        decreases end,
    {
        assert(body.take(end - start).last() == s@[end - 1]);
        assert(body.take(end - start).drop_last() == body.take(end - start - 1));
        end = end - 1;
    }
    proof {
        let kept = body.take(end - start);
        if kept.len() > 0 {
            assert(kept.last() == s@[end - 1]);
        }
        assert(kept == s@.subrange(start as int, end as int));
    }
    (start, end)
}

} // verus!
