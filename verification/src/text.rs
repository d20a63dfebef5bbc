//! Text: characters, lines, whitespace, decimal and hexadecimal numerals.
//!
//! A text is modelled by its sequence of characters. The executable functions
//! here are the ones the rest of the crate formats and parses with.
use vstd::prelude::*;

verus! {

/// `String::push`: appends one character.
pub assume_specification[ String::push ](s: &mut String, c: char)
    ensures
        final(s)@ == old(s)@.push(c),
;

/// `String::from_utf8`: the text that the bytes encode, where they are UTF-8.
#[verifier::external_body]
pub(crate) fn text_from_utf8(bytes: Vec<u8>) -> (r: Option<String>)
    ensures
        match r {
            Some(s) => vstd::utf8::valid_utf8(bytes@) && s@ == vstd::utf8::decode_utf8(bytes@),
            None => !vstd::utf8::valid_utf8(bytes@),
        },
{
    String::from_utf8(bytes).ok()
}

/// What std's `Debug` writes of a text: the text in double quotes, with some of
/// its characters escaped.
pub uninterp spec fn debug_text(text: Seq<char>) -> Seq<char>;

/// `{:?}` on a `str`: its `Debug` text, which depends on the characters alone.
/// Which of them are escaped, and how, is left to std.
#[verifier::external_body]
pub(crate) fn quoted(text: &str) -> (r: String)
    ensures
        r@ == debug_text(text@),
{
    format!("{:?}", text)
}

/// The characters of each text of a sequence.
pub open spec fn texts(v: Seq<String>) -> Seq<Seq<char>> {
    v.map_values(|s: String| s@)
}

/// The characters of each line of a sequence of lines.
pub open spec fn line_texts(v: Seq<Vec<char>>) -> Seq<Seq<char>> {
    v.map_values(|l: Vec<char>| l@)
}

/// The characters of `s`, one by one.
pub fn chars_of(s: &str) -> (r: Vec<char>)
    ensures
        r@ == s@,
{
    let mut r: Vec<char> = Vec::new();
    for c in it: s.chars()
        invariant
            r@ == s@.take(it.index() as int),
            it.seq() == s@,
    {
        r.push(c);
    }
    r
}

/// The text made of the characters `v[from..to]`.
pub fn text_of(v: &Vec<char>, from: usize, to: usize) -> (r: String)
    requires
        from <= to <= v.len(),
    ensures
        r@ == v@.subrange(from as int, to as int),
{
    let mut r = String::new();
    let mut i: usize = from;
    while i < to
        invariant
            from <= i <= to <= v.len(),
            r@ == v@.subrange(from as int, i as int),
        decreases to - i,
    {
        r.push(v[i]);
        i = i + 1;
    }
    r
}

/// How many of a text's first characters fit into `cap` bytes: those of its
/// longest prefix whose UTF-8 encoding is no longer.
pub open spec fn fitting(text: Seq<char>, cap: nat) -> nat
    decreases text.len(),
{
    if text.len() == 0 || vstd::utf8::encode_utf8(text).len() <= cap {
        text.len()
    } else {
        fitting(text.drop_last(), cap)
    }
}

/// The bytes that a character is encoded in.
fn encoded_len(c: char) -> (r: usize)
    ensures
        r == vstd::utf8::encode_scalar(c as u32).len(),
        1 <= r <= 4,
{
    let scalar: u32 = c as u32;
    proof {
        vstd::utf8::char_is_scalar(c);
    }
    if scalar <= 0x7F {
        1
    } else if scalar <= 0x7FF {
        2
    } else if scalar <= 0xFFFF {
        3
    } else {
        4
    }
}

/// How many of these characters fit into `cap` bytes.
pub fn count_fitting(chars: &Vec<char>, cap: usize) -> (r: usize)
    ensures
        r == fitting(chars@, cap as nat),
        r <= chars@.len(),
{
    let mut used: usize = 0;
    let mut i: usize = 0;
    while i < chars.len()
        invariant
            0 <= i <= chars.len(),
            used <= cap,
            used == vstd::utf8::encode_utf8(chars@.take(i as int)).len(),
        decreases chars.len() - i,
    {
        let more: usize = encoded_len(chars[i]);
        proof {
            encoding_grows(chars@, i as int);
        }
        if more > cap - used {
            proof {
                fitting_ends(chars@, cap as nat, i as nat);
            }
            return i;
        }
        used = used + more;
        i = i + 1;
    }
    assert(chars@.take(i as int) =~= chars@);
    i
}

/// One character more is encoded in its own bytes more.
proof fn encoding_grows(text: Seq<char>, i: int)
    requires
        0 <= i < text.len(),
    ensures
        vstd::utf8::encode_utf8(text.take(i + 1)).len() == vstd::utf8::encode_utf8(
            text.take(i),
        ).len() + vstd::utf8::encode_scalar(text[i] as u32).len(),
    decreases i,
{
    if i == 0 {
        assert(text.take(1).drop_first() =~= text.take(0));
    } else {
        encoding_grows(text.drop_first(), i - 1);
        assert(text.take(i + 1).drop_first() =~= text.drop_first().take(i));
        assert(text.take(i).drop_first() =~= text.drop_first().take(i - 1));
    }
}

/// A longer prefix is encoded in no fewer bytes.
proof fn encoding_is_monotonic(text: Seq<char>, n: int, m: int)
    requires
        0 <= n <= m <= text.len(),
    ensures
        vstd::utf8::encode_utf8(text.take(n)).len() <= vstd::utf8::encode_utf8(
            text.take(m),
        ).len(),
    decreases m,
{
    if n < m {
        encoding_is_monotonic(text, n, m - 1);
        encoding_grows(text, m - 1);
    }
}

/// Where a prefix fits and one character more does not, it is the longest.
proof fn fitting_ends(text: Seq<char>, cap: nat, n: nat)
    requires
        n < text.len(),
        vstd::utf8::encode_utf8(text.take(n as int)).len() <= cap,
        vstd::utf8::encode_utf8(text.take(n as int + 1)).len() > cap,
    ensures
        fitting(text, cap) == n,
    decreases text.len(),
{
    encoding_is_monotonic(text, n as int + 1, text.len() as int);
    assert(text.take(text.len() as int) =~= text);
    let shorter = text.drop_last();
    if n < shorter.len() {
        assert(shorter.take(n as int) =~= text.take(n as int));
        assert(shorter.take(n as int + 1) =~= text.take(n as int + 1));
        fitting_ends(shorter, cap, n);
    } else {
        assert(shorter =~= text.take(n as int));
    }
}

/// The prefix that `fitting` counts does fit, and no longer one does.
pub proof fn fitting_is_longest(text: Seq<char>, cap: nat)
    ensures
        fitting(text, cap) <= text.len(),
        vstd::utf8::encode_utf8(text.take(fitting(text, cap) as int)).len() <= cap,
        forall|n: int|
            fitting(text, cap) < n <= text.len() ==> vstd::utf8::encode_utf8(
                #[trigger] text.take(n),
            ).len() > cap,
    decreases text.len(),
{
    assert(text.take(text.len() as int) =~= text);
    if text.len() > 0 && vstd::utf8::encode_utf8(text).len() > cap {
        let shorter = text.drop_last();
        fitting_is_longest(shorter, cap);
        let k = fitting(shorter, cap) as int;
        assert(shorter.take(k) =~= text.take(k));
        assert forall|n: int| k < n <= text.len() implies vstd::utf8::encode_utf8(
            #[trigger] text.take(n),
        ).len() > cap by {
            if n < text.len() {
                assert(shorter.take(n) =~= text.take(n));
            }
        }
    }
}

/// The characters `v[from..to]`.
pub fn slice_of(v: &Vec<char>, from: usize, to: usize) -> (r: Vec<char>)
    requires
        from <= to <= v.len(),
    ensures
        r@ == v@.subrange(from as int, to as int),
{
    let mut r: Vec<char> = Vec::new();
    let mut i: usize = from;
    while i < to
        invariant
            from <= i <= to <= v.len(),
            r@ == v@.subrange(from as int, i as int),
        decreases to - i,
    {
        r.push(v[i]);
        i = i + 1;
    }
    r
}

/// An owned copy of a list of texts.
pub fn copy_texts(v: &Vec<String>) -> (r: Vec<String>)
    ensures
        r@ == v@,
{
    let mut r: Vec<String> = Vec::new();
    let mut i: usize = 0;
    while i < v.len()
        invariant
            0 <= i <= v.len(),
            r@ == v@.take(i as int),
        decreases v.len() - i,
    {
        r.push(v[i].clone());
        i = i + 1;
    }
    r
}

// ---------------------------------------------------------------------------
// Whitespace
// ---------------------------------------------------------------------------
/// The characters with the Unicode `White_Space` property.
pub open spec fn is_space(c: char) -> bool {
    ||| 0x09 <= c as u32 <= 0x0d
    ||| c as u32 == 0x20
    ||| c as u32 == 0x85
    ||| c as u32 == 0xa0
    ||| c as u32 == 0x1680
    ||| 0x2000 <= c as u32 <= 0x200a
    ||| c as u32 == 0x2028
    ||| c as u32 == 0x2029
    ||| c as u32 == 0x202f
    ||| c as u32 == 0x205f
    ||| c as u32 == 0x3000
}

/// `s` without the whitespace at its end.
pub open spec fn without_trailing_space(s: Seq<char>) -> Seq<char>
    decreases s.len(),
{
    if s.len() > 0 && is_space(s.last()) {
        without_trailing_space(s.drop_last())
    } else {
        s
    }
}

/// `s` without the whitespace at its start.
pub open spec fn without_leading_space(s: Seq<char>) -> Seq<char>
    decreases s.len(),
{
    if s.len() > 0 && is_space(s[0]) {
        without_leading_space(s.skip(1))
    } else {
        s
    }
}

/// `s` without the whitespace at either end.
pub open spec fn trimmed(s: Seq<char>) -> Seq<char> {
    without_trailing_space(without_leading_space(s))
}

pub fn is_whitespace(c: char) -> (r: bool)
    ensures
        r == is_space(c),
{
    let u: u32 = c as u32;
    (0x09 <= u && u <= 0x0d) || u == 0x20 || u == 0x85 || u == 0xa0 || u == 0x1680 || (0x2000 <= u
        && u <= 0x200a) || u == 0x2028 || u == 0x2029 || u == 0x202f || u == 0x205f || u == 0x3000
}

/// Where the text ends once the whitespace after it is dropped.
pub fn end_of_text(v: &Vec<char>, from: usize) -> (r: usize)
    requires
        from <= v.len(),
    ensures
        from <= r <= v.len(),
        without_trailing_space(v@.subrange(from as int, v@.len() as int)) == v@.subrange(
            from as int,
            r as int,
        ),
{
    let mut end: usize = v.len();
    while end > from && is_whitespace(v[end - 1])
        invariant
            from <= end <= v.len(),
            without_trailing_space(v@.subrange(from as int, v@.len() as int))
                == without_trailing_space(v@.subrange(from as int, end as int)),
        decreases end,
    {
        assert(v@.subrange(from as int, end as int).drop_last() =~= v@.subrange(
            from as int,
            end as int - 1,
        ));
        end = end - 1;
    }
    end
}

/// `str::trim`.
pub fn trim(s: &str) -> (r: String)
    ensures
        r@ == trimmed(s@),
{
    let v = chars_of(s);
    let mut start: usize = 0;
    assert(v@.skip(0) =~= v@);
    while start < v.len() && is_whitespace(v[start])
        invariant
            0 <= start <= v.len(),
            without_leading_space(v@) == without_leading_space(v@.skip(start as int)),
        decreases v.len() - start,
    {
        assert(v@.skip(start as int).skip(1) =~= v@.skip(start as int + 1));
        start = start + 1;
    }
    let end: usize = end_of_text(&v, start);
    text_of(&v, start, end)
}

/// Is there nothing but whitespace?
pub fn is_blank(s: &str) -> (r: bool)
    ensures
        r == (trimmed(s@).len() == 0),
{
    trim(s).as_str().is_empty()
}

/// `str::trim_end`.
pub fn trim_end(s: &str) -> (r: String)
    ensures
        r@ == without_trailing_space(s@),
{
    let v = chars_of(s);
    let end: usize = end_of_text(&v, 0);
    assert(v@.subrange(0, v@.len() as int) =~= v@);
    text_of(&v, 0, end)
}

// ---------------------------------------------------------------------------
// Prefixes and lines
// ---------------------------------------------------------------------------
/// Does `v` start with the characters of `prefix`?
pub fn begins_with(v: &Vec<char>, prefix: &str) -> (r: bool)
    ensures
        r == prefix@.is_prefix_of(v@),
{
    let p = chars_of(prefix);
    if p.len() > v.len() {
        return false;
    }
    let mut i: usize = 0;
    while i < p.len()
        invariant
            0 <= i <= p.len() <= v.len(),
            p@ == prefix@,
            forall|j: int| 0 <= j < i ==> p@[j] == v@[j],
        decreases p.len() - i,
    {
        if p[i] != v[i] {
            return false;
        }
        i = i + 1;
    }
    true
}

/// Where the first line feed of `s` stands, or the length of `s`.
pub open spec fn line_len(s: Seq<char>) -> nat
    decreases s.len(),
{
    if s.len() == 0 || s[0] == '\n' {
        0
    } else {
        1 + line_len(s.skip(1))
    }
}

pub proof fn line_len_bounds(s: Seq<char>)
    ensures
        line_len(s) <= s.len(),
        line_len(s) < s.len() ==> s[line_len(s) as int] == '\n',
        forall|j: int| 0 <= j < line_len(s) ==> s[j] != '\n',
    decreases s.len(),
{
    if s.len() == 0 || s[0] == '\n' {
    } else {
        line_len_bounds(s.skip(1));
        assert forall|j: int| 0 <= j < line_len(s) implies s[j] != '\n' by {
            if j > 0 {
                assert(s.skip(1)[j - 1] == s[j]);
            }
        }
    }
}

/// A line without the carriage return before its line feed.
pub open spec fn without_carriage_return(s: Seq<char>) -> Seq<char> {
    if s.len() > 0 && s.last() == '\r' {
        s.drop_last()
    } else {
        s
    }
}

/// The lines of `s`: each ends at a line feed, or at a carriage return and a
/// line feed, which do not belong to it; the last one may end at the end of
/// the text.
pub open spec fn lines_spec(s: Seq<char>) -> Seq<Seq<char>>
    decreases s.len(),
{
    let n = line_len(s) as int;
    if s.len() == 0 {
        seq![]
    } else if n >= s.len() {
        seq![s]
    } else {
        seq![without_carriage_return(s.take(n))] + lines_spec(s.skip(n + 1))
    }
}

/// `str::lines`.
pub fn lines_of(s: &str) -> (r: Vec<Vec<char>>)
    ensures
        line_texts(r@) == lines_spec(s@),
{
    let v = chars_of(s);
    let mut r: Vec<Vec<char>> = Vec::new();
    let mut start: usize = 0;
    assert(v@.skip(0) =~= v@);
    while start < v.len()
        invariant
            0 <= start <= v.len(),
            v@ == s@,
            lines_spec(v@) == line_texts(r@) + lines_spec(v@.skip(start as int)),
        decreases v.len() - start,
    {
        let ghost rest = v@.skip(start as int);
        let ghost before = r@;
        proof {
            line_len_bounds(rest);
        }
        let mut end: usize = start;
        while end < v.len() && v[end] != '\n'
            invariant
                start <= end <= v.len(),
                start < v.len(),
                rest == v@.skip(start as int),
                end - start <= line_len(rest),
                line_len(rest) <= rest.len(),
                line_len(rest) < rest.len() ==> rest[line_len(rest) as int] == '\n',
                forall|j: int| 0 <= j < line_len(rest) ==> rest[j] != '\n',
            decreases v.len() - end,
        {
            end = end + 1;
        }
        if end == v.len() {
            let line = slice_of(&v, start, end);
            r.push(line);
            start = end;
            assert(line_texts(r@) + lines_spec(v@.skip(start as int)) =~= line_texts(r@));
        } else {
            assert(rest[end - start] == v@[end as int]);
            assert(end - start == line_len(rest));
            let mut stop: usize = end;
            if stop > start && v[stop - 1] == '\r' {
                stop = stop - 1;
            }
            let line = slice_of(&v, start, stop);
            assert(rest.take(end - start) =~= v@.subrange(start as int, end as int));
            assert(v@.subrange(start as int, end as int).drop_last() =~= v@.subrange(
                start as int,
                end as int - 1,
            ) || end == start);
            assert(line@ == without_carriage_return(rest.take(end - start)));
            r.push(line);
            assert(line_texts(r@) =~= line_texts(before) + seq![line@]);
            assert(rest.skip(end - start + 1) =~= v@.skip(end as int + 1));
            assert(lines_spec(rest) == seq![line@] + lines_spec(v@.skip(end as int + 1)));
            start = end + 1;
            assert(line_texts(r@) + lines_spec(v@.skip(start as int)) =~= line_texts(before) + (
            seq![line@] + lines_spec(v@.skip(start as int))));
        }
    }
    assert(v@.skip(start as int) =~= Seq::<char>::empty());
    assert(line_texts(r@) + lines_spec(v@.skip(start as int)) =~= line_texts(r@));
    r
}

/// How many characters `s` starts with before the first whitespace.
pub open spec fn word_len(s: Seq<char>) -> nat
    decreases s.len(),
{
    if s.len() == 0 || is_space(s[0]) {
        0
    } else {
        1 + word_len(s.skip(1))
    }
}

pub proof fn word_len_bounds(s: Seq<char>)
    ensures
        word_len(s) <= s.len(),
        word_len(s) < s.len() ==> is_space(s[word_len(s) as int]),
        forall|j: int| 0 <= j < word_len(s) ==> !is_space(#[trigger] s[j]),
    decreases s.len(),
{
    if s.len() == 0 || is_space(s[0]) {
    } else {
        word_len_bounds(s.skip(1));
        assert forall|j: int| 0 <= j < word_len(s) implies !is_space(#[trigger] s[j]) by {
            if j > 0 {
                assert(s.skip(1)[j - 1] == s[j]);
            }
        }
    }
}

/// The words of `s`: its longest runs of characters that are not whitespace.
pub open spec fn words_spec(s: Seq<char>) -> Seq<Seq<char>>
    decreases s.len(),
{
    let n = word_len(s) as int;
    if s.len() == 0 {
        seq![]
    } else if n <= 0 {
        words_spec(s.skip(1))
    } else if n >= s.len() {
        seq![s]
    } else {
        seq![s.take(n)] + words_spec(s.skip(n))
    }
}

/// `str::split_whitespace`.
pub fn words_of(v: &Vec<char>) -> (r: Vec<Vec<char>>)
    ensures
        line_texts(r@) == words_spec(v@),
{
    let mut r: Vec<Vec<char>> = Vec::new();
    let mut start: usize = 0;
    assert(v@.skip(0) =~= v@);
    while start < v.len()
        invariant
            0 <= start <= v.len(),
            words_spec(v@) == line_texts(r@) + words_spec(v@.skip(start as int)),
        decreases v.len() - start,
    {
        let ghost rest = v@.skip(start as int);
        let ghost before = r@;
        proof {
            word_len_bounds(rest);
        }
        if is_whitespace(v[start]) {
            assert(rest.skip(1) =~= v@.skip(start as int + 1));
            start = start + 1;
        } else {
            let mut end: usize = start + 1;
            while end < v.len() && !is_whitespace(v[end])
                invariant
                    start < end <= v.len(),
                    rest == v@.skip(start as int),
                    end - start <= word_len(rest),
                    word_len(rest) <= rest.len(),
                    word_len(rest) < rest.len() ==> is_space(rest[word_len(rest) as int]),
                    forall|j: int| 0 <= j < word_len(rest) ==> !is_space(#[trigger] rest[j]),
                decreases v.len() - end,
            {
                end = end + 1;
            }
            if end < v.len() {
                assert(rest[end - start] == v@[end as int]);
            }
            let word = slice_of(v, start, end);
            assert(word@ =~= rest.take(end - start));
            r.push(word);
            assert(line_texts(r@) =~= line_texts(before) + seq![word@]);
            assert(rest.skip(end - start) =~= v@.skip(end as int));
            if end == v.len() {
                assert(rest.take(end - start) =~= rest);
                assert(v@.skip(end as int) =~= Seq::<char>::empty());
                assert(seq![word@] + words_spec(v@.skip(end as int)) =~= seq![word@]);
            }
            assert(words_spec(rest) == seq![word@] + words_spec(v@.skip(end as int)));
            start = end;
            assert(line_texts(r@) + words_spec(v@.skip(start as int)) =~= line_texts(before) + (
            seq![word@] + words_spec(v@.skip(start as int))));
        }
    }
    assert(v@.skip(start as int) =~= Seq::<char>::empty());
    assert(line_texts(r@) + words_spec(v@.skip(start as int)) =~= line_texts(r@));
    r
}

// ---------------------------------------------------------------------------
// Numerals
// ---------------------------------------------------------------------------
/// The decimal digit `d`.
pub open spec fn digit(d: nat) -> char {
    (48 + d) as char
}

/// The decimal numeral of `n`.
pub open spec fn decimal_spec(n: nat) -> Seq<char>
    decreases n,
{
    if n < 10 {
        seq![digit(n)]
    } else {
        decimal_spec(n / 10).push(digit(n % 10))
    }
}

/// The decimal numeral of `n`, with a sign where it is negative.
pub open spec fn signed_decimal_spec(n: int) -> Seq<char> {
    if n < 0 {
        seq!['-'] + decimal_spec((-n) as nat)
    } else {
        decimal_spec(n as nat)
    }
}

/// `s` with zeros before it, up to `width` characters.
pub open spec fn zero_padded(s: Seq<char>, width: nat) -> Seq<char>
    decreases width - s.len(),
{
    if s.len() >= width {
        s
    } else {
        zero_padded(seq!['0'] + s, width)
    }
}

/// Is every character of `s` a decimal digit?
pub open spec fn all_digits(s: Seq<char>) -> bool {
    forall|i: int| 0 <= i < s.len() ==> 48 <= #[trigger] s[i] as u32 <= 57
}

/// The number that a string of decimal digits stands for.
pub open spec fn numeral_value(s: Seq<char>) -> nat
    decreases s.len(),
{
    if s.len() == 0 {
        0
    } else {
        numeral_value(s.drop_last()) * 10 + (s.last() as u32 - 48) as nat
    }
}

/// A numeral stands for the number it was written for.
pub proof fn decimal_has_its_value(n: nat)
    ensures
        numeral_value(decimal_spec(n)) == n,
        all_digits(decimal_spec(n)),
        decimal_spec(n).len() > 0,
    decreases n,
{
    if n < 10 {
        assert(decimal_spec(n).drop_last() =~= seq![]);
        assert(numeral_value(seq![]) == 0);
    } else {
        decimal_has_its_value(n / 10);
        assert(decimal_spec(n).drop_last() =~= decimal_spec(n / 10));
    }
}

/// Zeros before a numeral do not change what it stands for.
pub proof fn padding_keeps_the_value(s: Seq<char>, width: nat)
    ensures
        numeral_value(zero_padded(s, width)) == numeral_value(s),
    decreases width - s.len(),
{
    if s.len() < width {
        leading_zero_keeps_the_value(s);
        padding_keeps_the_value(seq!['0'] + s, width);
    }
}

proof fn leading_zero_keeps_the_value(s: Seq<char>)
    ensures
        numeral_value(seq!['0'] + s) == numeral_value(s),
    decreases s.len(),
{
    let t = seq!['0'] + s;
    if s.len() == 0 {
        assert(numeral_value(t.drop_last()) == 0);
    } else {
        leading_zero_keeps_the_value(s.drop_last());
        assert(t.drop_last() =~= seq!['0'] + s.drop_last());
    }
}

pub fn digit_char(d: u64) -> (r: char)
    requires
        d < 10,
    ensures
        r == digit(d as nat),
{
    (48 + d as u8) as char
}

/// The decimal numeral of `n`.
pub fn decimal(n: u64) -> (r: String)
    ensures
        r@ == decimal_spec(n as nat),
    decreases n,
{
    let mut s = String::new();
    if n < 10 {
        s.push(digit_char(n));
        s
    } else {
        let mut head = decimal(n / 10);
        head.push(digit_char(n % 10));
        head
    }
}

/// The decimal numeral of `n`, with its sign.
pub fn signed_decimal(n: i32) -> (r: String)
    ensures
        r@ == signed_decimal_spec(n as int),
{
    if n < 0 {
        let m: u64 = (-(n as i64)) as u64;
        let mut s = String::new();
        s.push('-');
        let d = decimal(m);
        s.append(d.as_str());
        s
    } else {
        decimal(n as u64)
    }
}

/// The decimal numeral of `n`, zero-padded to `width`.
pub fn decimal_padded(n: u64, width: usize) -> (r: String)
    ensures
        r@ == zero_padded(decimal_spec(n as nat), width as nat),
{
    let mut s = decimal(n);
    let mut len: usize = 1;
    if n >= 10 {
        len = chars_of(s.as_str()).len();
    }
    while len < width
        invariant
            len == s@.len(),
            zero_padded(decimal_spec(n as nat), width as nat) == zero_padded(s@, width as nat),
        decreases width - len,
    {
        let mut t = String::new();
        t.push('0');
        t.append(s.as_str());
        s = t;
        len = len + 1;
    }
    s
}

/// The number that `str::parse::<u32>` reads: digits, perhaps after a plus
/// sign, whose value fits.
pub open spec fn parsed_u32(s: Seq<char>) -> Option<nat> {
    let digits = if s.len() > 1 && s[0] == '+' {
        s.skip(1)
    } else {
        s
    };
    if digits.len() > 0 && all_digits(digits) && numeral_value(digits) <= u32::MAX {
        Some(numeral_value(digits))
    } else {
        None
    }
}

proof fn value_grows(s: Seq<char>, n: int)
    requires
        0 <= n <= s.len(),
    ensures
        numeral_value(s.take(n)) <= numeral_value(s),
    decreases s.len() - n,
{
    if n < s.len() {
        assert(s.take(n + 1).drop_last() =~= s.take(n));
        value_grows(s, n + 1);
    } else {
        assert(s.take(n) =~= s);
    }
}

/// `str::parse::<u32>`.
pub fn parse_u32(v: &Vec<char>) -> (r: Option<u32>)
    ensures
        match r {
            Some(n) => parsed_u32(v@) == Some(n as nat),
            None => parsed_u32(v@) is None,
        },
{
    let start: usize = if v.len() > 1 && v[0] == '+' {
        1
    } else {
        0
    };
    let ghost digits = v@.skip(start as int);
    assert(v@.skip(0) =~= v@);
    if v.len() == start {
        return None;
    }
    let mut n: u64 = 0;
    let mut i: usize = start;
    while i < v.len()
        invariant
            start <= i <= v.len(),
            digits == v@.skip(start as int),
            parsed_u32(v@) == (if digits.len() > 0 && all_digits(digits) && numeral_value(digits)
                <= u32::MAX {
                Some(numeral_value(digits))
            } else {
                None
            }),
            all_digits(digits.take(i - start)),
            n == numeral_value(digits.take(i - start)),
            n <= u32::MAX,
        decreases v.len() - i,
    {
        let c: u32 = v[i] as u32;
        let ghost step = digits.take(i - start + 1);
        assert(digits[i - start] == v@[i as int]);
        if c < 48 || c > 57 {
            return None;
        }
        assert(step.drop_last() =~= digits.take(i - start));
        n = n * 10 + (c - 48) as u64;
        assert(all_digits(step));
        if n > 4294967295 {
            proof {
                value_grows(digits, i - start + 1);
            }
            return None;
        }
        i = i + 1;
    }
    assert(digits.take(digits.len() as int) =~= digits);
    Some(n as u32)
}

/// The lowercase hexadecimal digit `d`.
pub open spec fn hex_digit_spec(d: int) -> char {
    if d < 10 {
        (48 + d) as char
    } else {
        (87 + d) as char
    }
}

/// The lowercase hexadecimal numeral of a byte string, two digits to a byte.
pub open spec fn hex_spec(bytes: Seq<u8>) -> Seq<char> {
    Seq::new(
        2 * bytes.len(),
        |i: int|
            if i % 2 == 0 {
                hex_digit_spec(bytes[i / 2] as int / 16)
            } else {
                hex_digit_spec(bytes[i / 2] as int % 16)
            },
    )
}

pub fn hex_digit(d: u8) -> (r: char)
    requires
        d < 16,
    ensures
        r == hex_digit_spec(d as int),
{
    if d < 10 {
        (48 + d) as char
    } else {
        (87 + d) as char
    }
}

/// The first `n` bytes of `bytes` in lowercase hexadecimal.
pub fn hex_prefix(bytes: &[u8], n: usize) -> (r: String)
    requires
        n <= bytes.len(),
    ensures
        r@ == hex_spec(bytes@.take(n as int)),
{
    let mut s = String::new();
    let mut i: usize = 0;
    while i < n
        invariant
            0 <= i <= n <= bytes.len(),
            s@ == hex_spec(bytes@.take(i as int)),
        decreases n - i,
    {
        let b: u8 = bytes[i];
        s.push(hex_digit(b / 16));
        s.push(hex_digit(b % 16));
        proof {
            let t = bytes@.take(i as int + 1);
        }
        i = i + 1;
    }
    s
}

} // verus!
