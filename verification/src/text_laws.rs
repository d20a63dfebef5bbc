//! What the texts that are trimmed, split, counted and written out stand for.
use vstd::prelude::*;

use crate::text::{
    all_digits, decimal_has_its_value, decimal_spec, hex_digit_spec, hex_spec, is_space, line_len,
    line_len_bounds, lines_spec, padding_keeps_the_value, parsed_u32, signed_decimal_spec, texts,
    trimmed, without_carriage_return, without_leading_space, without_trailing_space, word_len,
    word_len_bounds, words_spec, zero_padded,
};

verus! {

/// The texts of a list of strings are theirs, one by one.
pub proof fn texts_are_the_strings(v: Seq<String>)
    ensures
        texts(v).len() == v.len(),
        forall|i: int| 0 <= i < v.len() ==> #[trigger] texts(v)[i] == v[i]@,
{
}

// ---------------------------------------------------------------------------
// Trimming
// ---------------------------------------------------------------------------
/// Blanks, tabs, line feeds, carriage returns and no-break spaces are space; no
/// visible ASCII character is.
pub proof fn visible_characters_are_no_space(c: char)
    ensures
        c == ' ' || c == '\t' || c == '\n' || c == '\r' || c == '\u{a0}' ==> is_space(c),
        '!' <= c <= '~' ==> !is_space(c),
{
}

/// Every character of `s` is space.
pub open spec fn blank(s: Seq<char>) -> bool {
    forall|i: int| 0 <= i < s.len() ==> is_space(#[trigger] s[i])
}

/// Dropping the space at the end drops nothing else and all of it.
pub proof fn trailing_space_alone_is_dropped(s: Seq<char>)
    ensures
        ({
            let kept = without_trailing_space(s);
            &&& kept.len() <= s.len()
            &&& kept == s.take(kept.len() as int)
            &&& blank(s.skip(kept.len() as int))
            &&& kept.len() > 0 ==> !is_space(kept.last())
        }),
    decreases s.len(),
{
    if s.len() > 0 && is_space(s.last()) {
        let shorter = s.drop_last();
        trailing_space_alone_is_dropped(shorter);
        let kept = without_trailing_space(s);
        let n = kept.len() as int;
        assert(s.take(n) =~= shorter.take(n));
        assert forall|i: int| 0 <= i < s.skip(n).len() implies is_space(#[trigger] s.skip(n)[i]) by {
            if n + i < shorter.len() {
                assert(shorter.skip(n)[i] == s.skip(n)[i]);
            }
        }
    } else {
        assert(s.take(s.len() as int) =~= s);
    }
}

/// Dropping the space at the start drops nothing else and all of it.
pub proof fn leading_space_alone_is_dropped(s: Seq<char>)
    ensures
        ({
            let kept = without_leading_space(s);
            let n = s.len() - kept.len();
            &&& 0 <= n
            &&& kept == s.skip(n)
            &&& blank(s.take(n))
            &&& kept.len() > 0 ==> !is_space(kept[0])
        }),
    decreases s.len(),
{
    if s.len() > 0 && is_space(s[0]) {
        let rest = s.skip(1);
        leading_space_alone_is_dropped(rest);
        let kept = without_leading_space(s);
        let n = s.len() - kept.len();
        assert(s.skip(n) =~= rest.skip(n - 1));
        assert forall|i: int| 0 <= i < s.take(n).len() implies is_space(#[trigger] s.take(n)[i]) by {
            if i > 0 {
                assert(rest.take(n - 1)[i - 1] == s.take(n)[i]);
            }
        }
    } else {
        assert(s.skip(0) =~= s);
    }
}

/// Trimming a text keeps all of it but the space before and after it: it is what
/// stands between, it neither starts nor ends with space, and it is empty only
/// where there is nothing but space.
pub proof fn trimming_drops_only_space(s: Seq<char>)
    ensures
        exists|n: int, m: int|
            0 <= n <= m <= s.len() && trimmed(s) == #[trigger] s.subrange(n, m) && blank(
                s.take(n),
            ) && blank(s.skip(m)),
        trimmed(s).len() > 0 ==> !is_space(trimmed(s)[0]) && !is_space(trimmed(s).last()),
        trimmed(s).len() == 0 <==> blank(s),
{
    leading_space_alone_is_dropped(s);
    let rest = without_leading_space(s);
    trailing_space_alone_is_dropped(rest);
    let kept = without_trailing_space(rest);
    let n = s.len() - rest.len();
    let m = n + kept.len();
    assert(s.subrange(n, m) =~= rest.take(kept.len() as int));
    assert(s.skip(m) =~= rest.skip(kept.len() as int));
    assert(blank(s.take(n)) && blank(s.skip(m)));
    if blank(s) && kept.len() > 0 {
        assert(s[n] == kept[0]);
    }
    if kept.len() == 0 {
        assert forall|i: int| 0 <= i < s.len() implies is_space(#[trigger] s[i]) by {
            if i < n {
                assert(s.take(n)[i] == s[i]);
            } else {
                assert(s.skip(m)[i - m] == s[i]);
            }
        }
    }
}

// ---------------------------------------------------------------------------
// Lines and words
// ---------------------------------------------------------------------------
/// Lines, each with a line feed after it, one after another.
pub open spec fn with_line_feeds(lines: Seq<Seq<char>>) -> Seq<char>
    decreases lines.len(),
{
    if lines.len() == 0 {
        seq![]
    } else {
        lines[0] + seq!['\n'] + with_line_feeds(lines.skip(1))
    }
}

/// Every line of the text ends in a line feed with no carriage return before it.
pub open spec fn bare_lines(s: Seq<char>) -> bool {
    &&& s.len() > 0 ==> s.last() == '\n'
    &&& forall|i: int| 0 < i < s.len() && #[trigger] s[i] == '\n' ==> s[i - 1] != '\r'
}

/// Splitting a text into lines loses nothing: with their line feeds after them,
/// the lines are the text again.
pub proof fn lines_make_the_text_again(s: Seq<char>)
    requires
        bare_lines(s),
    ensures
        with_line_feeds(lines_spec(s)) == s,
    decreases s.len(),
{
    if s.len() > 0 {
        line_len_bounds(s);
        let n = line_len(s) as int;
        assert(s[s.len() - 1] == '\n');
        assert(n < s.len());
        let first = s.take(n);
        let rest = s.skip(n + 1);
        if n > 0 {
            assert(s[n] == '\n' && s[n - 1] != '\r');
            assert(first.last() == s[n - 1]);
        }
        assert forall|i: int| 0 < i < rest.len() && #[trigger] rest[i] == '\n' implies rest[i - 1]
            != '\r' by {
            assert(s[n + 1 + i] == '\n');
        }
        lines_make_the_text_again(rest);
        let lines = lines_spec(s);
        assert(lines =~= seq![first] + lines_spec(rest));
        assert(lines.skip(1) =~= lines_spec(rest));
        assert(s =~= first + seq!['\n'] + rest);
    }
}

/// No line holds a line feed.
pub proof fn lines_hold_no_line_feed(s: Seq<char>)
    ensures
        forall|i: int, j: int|
            0 <= i < lines_spec(s).len() && 0 <= j < lines_spec(s)[i].len() ==> (
            #[trigger] lines_spec(s)[i][j]) != '\n',
    decreases s.len(),
{
    if s.len() > 0 {
        line_len_bounds(s);
        let n = line_len(s) as int;
        let lines = lines_spec(s);
        if n < s.len() {
            lines_hold_no_line_feed(s.skip(n + 1));
            let rest = lines_spec(s.skip(n + 1));
            assert forall|i: int, j: int|
                0 <= i < lines.len() && 0 <= j < lines[i].len() implies (#[trigger] lines[i][j])
                != '\n' by {
                if i > 0 {
                    assert(lines[i] == rest[i - 1]);
                    assert(rest[i - 1][j] != '\n');
                } else {
                    assert(lines[0] == without_carriage_return(s.take(n)));
                    assert(lines[0][j] == s[j]);
                }
            }
        }
    }
}

/// The first line of a text is what stands before its first line feed, without a
/// carriage return there; without a line feed it is the whole text.
pub proof fn first_line_stands_first(s: Seq<char>, n: int)
    requires
        s.len() > 0,
        0 <= n <= s.len(),
        n < s.len() ==> s[n] == '\n',
        forall|j: int| 0 <= j < n ==> s[j] != '\n',
    ensures
        lines_spec(s).len() > 0,
        n == s.len() ==> lines_spec(s)[0] == s,
        n < s.len() && (n == 0 || s[n - 1] != '\r') ==> lines_spec(s)[0] == s.take(n),
        0 < n < s.len() && s[n - 1] == '\r' ==> lines_spec(s)[0] == s.take(n - 1),
{
    line_len_bounds(s);
    let k = line_len(s) as int;
    assert(k == n) by {
        if k < n {
            assert(s[k] == '\n');
        }
        if n < k {
            assert(s[n] != '\n');
        }
    }
    if n < s.len() {
        if n > 0 {
            assert(s.take(n).last() == s[n - 1]);
            assert(s.take(n).drop_last() =~= s.take(n - 1));
        }
    }
}

/// A text without space in it is one word.
pub proof fn solid_text_is_one_word(s: Seq<char>)
    requires
        s.len() > 0,
        forall|i: int| 0 <= i < s.len() ==> !is_space(#[trigger] s[i]),
    ensures
        words_spec(s) == seq![s],
{
    word_len_bounds(s);
}

/// Space parts words: the words of two texts with a space between them are those
/// of the first and then those of the second.
pub proof fn space_parts_words(a: Seq<char>, gap: char, b: Seq<char>)
    requires
        is_space(gap),
    ensures
        words_spec(a + seq![gap] + b) == words_spec(a) + words_spec(b),
        words_spec(Seq::<char>::empty()) == Seq::<Seq<char>>::empty(),
    decreases a.len(),
{
    let s = a + seq![gap] + b;
    if a.len() == 0 {
        assert(s[0] == gap);
        assert(s.skip(1) =~= b);
        assert(words_spec(a) + words_spec(b) =~= words_spec(b));
    } else if is_space(a[0]) {
        assert(s[0] == a[0]);
        assert(s.skip(1) =~= a.skip(1) + seq![gap] + b);
        space_parts_words(a.skip(1), gap, b);
    } else {
        word_len_bounds(a);
        word_len_bounds(s);
        let n = word_len(a) as int;
        let m = word_len(s) as int;
        assert(s[0] == a[0]);
        assert(m == n) by {
            if m < n {
                assert(s[m] == a[m]);
            }
            if n < m {
                if n < a.len() {
                    assert(s[n] == a[n]);
                } else {
                    assert(s[n] == gap);
                }
            }
        }
        assert(s.take(n) =~= a.take(n));
        if n >= a.len() {
            assert(a.take(n) =~= a);
            assert(s.skip(n) =~= seq![gap] + b);
            assert((seq![gap] + b).skip(1) =~= b);
            assert(words_spec(s.skip(n)) == words_spec(b));
            assert(words_spec(s) =~= words_spec(a) + words_spec(b));
        } else {
            assert(s.skip(n) =~= a.skip(n) + seq![gap] + b);
            space_parts_words(a.skip(n), gap, b);
            assert(words_spec(s) =~= words_spec(a) + words_spec(b));
        }
    }
}

// ---------------------------------------------------------------------------
// Numerals
// ---------------------------------------------------------------------------
/// A decimal numeral is written digit by digit: a digit more to the right is ten
/// times the number and that digit more, and no numeral but zero's starts with a
/// zero.
pub proof fn numerals_are_decimal(n: nat, d: nat)
    requires
        d < 10,
    ensures
        decimal_spec(d) == seq![(48 + d) as char],
        n > 0 ==> decimal_spec(10 * n + d) == decimal_spec(n).push((48 + d) as char),
        n > 0 ==> decimal_spec(n)[0] != '0',
        decimal_spec(n).len() > 0,
    decreases n,
{
    assert((10 * n + d) / 10 == n && (10 * n + d) % 10 == d) by (nonlinear_arith)
        requires
            d < 10,
    ;
    decimal_has_its_value(n);
    if n >= 10 {
        numerals_are_decimal(n / 10, d);
        decimal_has_its_value(n / 10);
        assert(decimal_spec(n)[0] == decimal_spec(n / 10)[0]);
    }
}

/// A negative number is its absolute value with a sign before it.
pub proof fn signs_stand_first(n: nat)
    ensures
        signed_decimal_spec(n as int) == decimal_spec(n),
        n > 0 ==> signed_decimal_spec(-(n as int)) == seq!['-'] + decimal_spec(n),
{
}

/// Padding puts zeros before a text, as many as are missing, and changes nothing
/// of it.
pub proof fn padding_only_puts_zeros_before(s: Seq<char>, width: nat)
    ensures
        ({
            let padded = zero_padded(s, width);
            let n = padded.len() - s.len();
            &&& padded.len() == if s.len() >= width { s.len() } else { width }
            &&& padded.skip(n) == s
            &&& forall|i: int| 0 <= i < n ==> #[trigger] padded[i] == '0'
        }),
    decreases width - s.len(),
{
    if s.len() < width {
        let longer = seq!['0'] + s;
        padding_only_puts_zeros_before(longer, width);
        let padded = zero_padded(s, width);
        let n = padded.len() - s.len();
        assert(padded.skip(n) =~= longer.skip(1)) by {
            assert(padded.skip(n - 1) == longer);
            assert(padded.skip(n) =~= padded.skip(n - 1).skip(1));
        }
        assert(longer.skip(1) =~= s);
        assert(padded[n - 1] == '0') by {
            assert(padded.skip(n - 1)[0] == longer[0]);
        }
    } else {
        assert(s.skip(0) =~= s);
    }
}

/// A numeral is read as the number it was written for, and nothing that holds
/// anything but digits, perhaps after a plus sign, is read at all.
pub proof fn numerals_are_read_back(n: nat, s: Seq<char>)
    ensures
        n <= u32::MAX ==> parsed_u32(decimal_spec(n)) == Some(n),
        n > u32::MAX ==> parsed_u32(decimal_spec(n)) is None,
        s.len() == 0 ==> parsed_u32(s) is None,
        (exists|i: int| 0 < i < s.len() && !(48 <= #[trigger] s[i] as u32 <= 57)) ==> parsed_u32(s)
            is None,
        s.len() > 0 && !(48 <= s[0] as u32 <= 57) && s[0] != '+' ==> parsed_u32(s) is None,
{
    decimal_has_its_value(n);
    if n > 0 {
        numerals_are_decimal(n, 0);
    }
    let d = decimal_spec(n);
    assert(48 <= d[0] as u32 <= 57);
    if exists|i: int| 0 < i < s.len() && !(48 <= #[trigger] s[i] as u32 <= 57) {
        let i = choose|i: int| 0 < i < s.len() && !(48 <= #[trigger] s[i] as u32 <= 57);
        assert(s.skip(1)[i - 1] == s[i]);
    }
    if s.len() > 0 {
        assert(all_digits(s) ==> 48 <= s[0] as u32 <= 57);
    }
}

/// A hexadecimal digit is one of sixteen, in order.
pub proof fn hex_digits_are_in_order(d: int)
    requires
        0 <= d < 16,
    ensures
        hex_digit_spec(d) == "0123456789abcdef"@[d],
{
    reveal_strlit("0123456789abcdef");
    if d < 10 {
        assert((48 + d) as char == "0123456789abcdef"@[d]);
    } else {
        assert((87 + d) as char == "0123456789abcdef"@[d]);
    }
}

/// Every byte is written in two digits, the higher first, and byte strings that
/// differ are written differently.
pub proof fn hex_text_fixes_the_bytes(a: Seq<u8>, b: Seq<u8>)
    ensures
        hex_spec(a).len() == 2 * a.len(),
        forall|i: int|
            0 <= i < a.len() ==> hex_spec(a)[2 * i] == "0123456789abcdef"@[(#[trigger] a[i]) as int
                / 16] && hex_spec(a)[2 * i + 1] == "0123456789abcdef"@[a[i] as int % 16],
        hex_spec(a) == hex_spec(b) ==> a == b,
{
    assert forall|i: int| 0 <= i < a.len() implies hex_spec(a)[2 * i]
        == "0123456789abcdef"@[(#[trigger] a[i]) as int / 16] && hex_spec(a)[2 * i + 1]
        == "0123456789abcdef"@[a[i] as int % 16] by {
        hex_digits_are_in_order(a[i] as int / 16);
        hex_digits_are_in_order(a[i] as int % 16);
        assert((2 * i) / 2 == i && (2 * i) % 2 == 0);
        assert((2 * i + 1) / 2 == i && (2 * i + 1) % 2 == 1);
    }
    if hex_spec(a) == hex_spec(b) {
        assert(hex_spec(a).len() == hex_spec(b).len());
        assert forall|i: int| 0 <= i < a.len() implies a[i] == b[i] by {
            assert((2 * i) / 2 == i && (2 * i) % 2 == 0);
            assert((2 * i + 1) / 2 == i && (2 * i + 1) % 2 == 1);
            assert(hex_spec(a)[2 * i] == hex_spec(b)[2 * i]);
            assert(hex_spec(a)[2 * i + 1] == hex_spec(b)[2 * i + 1]);
            let (x, y) = (a[i] as int, b[i] as int);
            assert(hex_digit_spec(x / 16) == hex_digit_spec(y / 16));
            assert(hex_digit_spec(x % 16) == hex_digit_spec(y % 16));
            assert(x / 16 == y / 16 && x % 16 == y % 16);
        }
        assert(a =~= b);
    }
}

/// Space is what Unicode calls white space, and nothing else.
pub proof fn space_is_unicode_white_space(c: char)
    ensures
        is_space(c) <==> ('\u{9}' <= c <= '\u{d}' || c == ' ' || c == '\u{85}' || c == '\u{a0}' || c
            == '\u{1680}' || '\u{2000}' <= c <= '\u{200a}' || c == '\u{2028}' || c == '\u{2029}'
            || c == '\u{202f}' || c == '\u{205f}' || c == '\u{3000}'),
{
}

/// A plus sign before a number changes nothing of it.
pub proof fn plus_signs_change_nothing(n: nat)
    requires
        n <= u32::MAX,
    ensures
        parsed_u32(seq!['+'] + decimal_spec(n)) == Some(n),
{
    let s = seq!['+'] + decimal_spec(n);
    decimal_has_its_value(n);
    numerals_are_decimal(n, 0);
    assert(s.skip(1) =~= decimal_spec(n));
}

/// A text is parted into lines at its line feeds, and a carriage return right
/// before one goes with it; what follows the last line feed is a line where it is
/// not empty.
pub proof fn lines_part_at_line_feeds(a: Seq<char>, rest: Seq<char>)
    requires
        forall|j: int| 0 <= j < a.len() ==> a[j] != '\n',
    ensures
        lines_spec(Seq::empty()).len() == 0,
        a.len() > 0 ==> lines_spec(a) == seq![a],
        (a.len() == 0 || a.last() != '\r') ==> lines_spec(a + seq!['\n'] + rest) == seq![a]
            + lines_spec(rest),
        lines_spec(a + seq!['\r', '\n'] + rest) == seq![a] + lines_spec(rest),
{
    if a.len() > 0 {
        first_line_stands_first(a, a.len() as int);
        line_len_bounds(a);
        if line_len(a) < a.len() {
            assert(a[line_len(a) as int] == '\n');
        }
    }
    lines_go_on_behind_the_first(a, a + seq!['\n'] + rest, rest);
    let b = a.push('\r');
    let s = a + seq!['\r', '\n'] + rest;
    assert(s =~= b + seq!['\n'] + rest);
    lines_go_on_behind_the_first(b, s, rest);
    assert(b.drop_last() =~= a);
}

proof fn lines_go_on_behind_the_first(a: Seq<char>, s: Seq<char>, rest: Seq<char>)
    requires
        forall|j: int| 0 <= j < a.len() ==> a[j] != '\n',
        s == a + seq!['\n'] + rest,
    ensures
        lines_spec(s) == seq![without_carriage_return(a)] + lines_spec(rest),
{
    let n = a.len() as int;
    line_len_bounds(s);
    let k = line_len(s) as int;
    assert(s[n] == '\n');
    assert(k == n) by {
        if k < n {
            assert(s[k] == a[k]);
        }
        if n < k {
            assert(s[n] != '\n');
        }
    }
    assert(s.take(n) =~= a);
    assert(s.skip(n + 1) =~= rest);
}

/// Zeros before a number change nothing of it.
pub proof fn leading_zeros_change_nothing(n: nat, width: nat)
    requires
        n <= u32::MAX,
    ensures
        parsed_u32(zero_padded(decimal_spec(n), width)) == Some(n),
{
    let d = decimal_spec(n);
    let s = zero_padded(d, width);
    decimal_has_its_value(n);
    numerals_are_decimal(n, 0);
    padding_keeps_the_value(d, width);
    padding_only_puts_zeros_before(d, width);
    let k = s.len() - d.len();
    assert forall|i: int| 0 <= i < s.len() implies 48 <= #[trigger] s[i] as u32 <= 57 by {
        if i >= k {
            assert(s[i] == s.skip(k)[i - k]);
            assert(s[i] == d[i - k]);
        }
    }
    assert(all_digits(s));
}

} // verus!
