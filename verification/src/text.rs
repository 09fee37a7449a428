//! Small text functions with their meaning on sequences of characters.
use vstd::arithmetic::power::{lemma_pow0, lemma_pow1, lemma_pow_positive, pow};
use vstd::prelude::*;
use vstd::string::*;

verus! {

/// `parts` joined by the separator `sep`.
pub open spec fn join(parts: Seq<Seq<char>>, sep: char) -> Seq<char>
    decreases parts.len(),
{
    if parts.len() == 0 {
        Seq::empty()
    } else if parts.len() == 1 {
        parts[0]
    } else {
        join(parts.drop_last(), sep).push(sep) + parts.last()
    }
}

/// `parts` are the fields that `text` has between its occurrences of `sep`.
pub open spec fn is_split(text: Seq<char>, sep: char, parts: Seq<Seq<char>>) -> bool {
    &&& parts.len() > 0
    &&& forall|i: int| 0 <= i < parts.len() ==> !(#[trigger] parts[i]).contains(sep)
    &&& text == join(parts, sep)
}

/// Two ways to read `head + sep + tail` with no `sep` in the tail are the same way.
proof fn lemma_last_separator(a: Seq<char>, b: Seq<char>, c: Seq<char>, d: Seq<char>, sep: char)
    requires
        a.push(sep) + b == c.push(sep) + d,
        !b.contains(sep),
        !d.contains(sep),
    ensures
        a == c,
        b == d,
{
    let left = a.push(sep) + b;
    let right = c.push(sep) + d;
    assert(left.len() == a.len() + 1 + b.len());
    assert(right.len() == c.len() + 1 + d.len());
    if a.len() < c.len() {
        assert(left[c.len() as int] == right[c.len() as int]);
        assert(right[c.len() as int] == sep);
        assert(b[c.len() - a.len() - 1] == sep);
    } else if c.len() < a.len() {
        assert(left[a.len() as int] == right[a.len() as int]);
        assert(left[a.len() as int] == sep);
        assert(d[a.len() - c.len() - 1] == sep);
    } else {
        assert forall|i: int| 0 <= i < a.len() implies a[i] == c[i] by {
            assert(left[i] == a[i]);
            assert(right[i] == c[i]);
        }
        assert(a =~= c);
        assert forall|i: int| 0 <= i < b.len() implies b[i] == d[i] by {
            assert(left[a.len() + 1 + i] == b[i]);
            assert(right[a.len() + 1 + i] == d[i]);
        }
        assert(b =~= d);
    }
}

/// Text splits in one way only.
pub proof fn law_split_is_unique(
    text: Seq<char>,
    sep: char,
    a: Seq<Seq<char>>,
    b: Seq<Seq<char>>,
)
    requires
        is_split(text, sep, a),
        is_split(text, sep, b),
    ensures
        a == b,
    decreases a.len(),
{
    if a.len() == 1 && b.len() == 1 {
        assert(a =~= b);
    } else if a.len() == 1 {
        let head = join(b.drop_last(), sep);
        assert(text == head.push(sep) + b.last());
        assert(text[head.len() as int] == sep);
        assert(a[0].contains(sep));
    } else if b.len() == 1 {
        let head = join(a.drop_last(), sep);
        assert(text == head.push(sep) + a.last());
        assert(text[head.len() as int] == sep);
        assert(b[0].contains(sep));
    } else {
        lemma_last_separator(
            join(a.drop_last(), sep),
            a.last(),
            join(b.drop_last(), sep),
            b.last(),
            sep,
        );
        law_split_is_unique(join(a.drop_last(), sep), sep, a.drop_last(), b.drop_last());
        assert(a =~= a.drop_last().push(a.last()));
        assert(b =~= b.drop_last().push(b.last()));
    }
}

/// The views of a list of strings.
pub open spec fn views(parts: Seq<String>) -> Seq<Seq<char>> {
    parts.map_values(|p: String| p@)
}

/// The characters of `text`.
pub fn chars_of(text: &str) -> (chars: Vec<char>)
    ensures
        chars@ == text@,
{
    let mut chars: Vec<char> = Vec::new();
    for c in it: text.chars()
        invariant
            it.seq() == text@,
            chars@ == text@.take(it.index()),
    {
        chars.push(c);
    }
    chars
}

/// Splits `text` at every occurrence of `sep`.
pub fn split(text: &str, sep: char) -> (parts: Vec<String>)
    ensures
        is_split(text@, sep, views(parts@)),
{
    let chars = chars_of(text);
    let mut parts: Vec<String> = Vec::new();
    let mut start: usize = 0;
    let mut i: usize = 0;
    while i < chars.len()
        invariant
            chars@ == text@,
            start <= i <= chars.len(),
            forall|k: int| 0 <= k < parts.len() ==> !(#[trigger] views(parts@)[k]).contains(sep),
            forall|k: int| start <= k < i ==> text@[k] != sep,
            parts.len() == 0 ==> start == 0,
            parts.len() > 0 ==> text@.take(start as int) == join(views(parts@), sep).push(sep),
        decreases chars.len() - i,
    {
        if chars[i] == sep {
            let ghost before = views(parts@);
            let field = text.substring_char(start, i).to_string();
            parts.push(field);
            proof {
                let after = views(parts@);
                assert(after =~= before.push(field@));
                assert(after.drop_last() =~= before);
                assert(text@.take(i + 1) =~= join(after, sep).push(sep));
            }
            start = i + 1;
        }
        i = i + 1;
    }
    let ghost before = views(parts@);
    let field = text.substring_char(start, chars.len()).to_string();
    parts.push(field);
    proof {
        let after = views(parts@);
        assert(after =~= before.push(field@));
        assert(after.drop_last() =~= before);
        assert(text@ =~= text@.take(start as int) + field@);
    }
    parts
}

/// Whether `text` ends with `suffix`.
pub fn ends_with(text: &str, suffix: &str) -> (yes: bool)
    ensures
        yes == suffix@.is_suffix_of(text@),
{
    let t = chars_of(text);
    let s = chars_of(suffix);
    if s.len() > t.len() {
        return false;
    }
    let offset: usize = t.len() - s.len();
    let mut i: usize = 0;
    while i < s.len()
        invariant
            t@ == text@,
            s@ == suffix@,
            offset == t.len() - s.len(),
            s.len() <= t.len(),
            i <= s.len(),
            forall|k: int| 0 <= k < i ==> s@[k] == t@[offset + k],
        decreases s.len() - i,
    {
        if s[i] != t[offset + i] {
            assert(text@.subrange(offset as int, t.len() as int)[i as int] != suffix@[i as int]);
            return false;
        }
        i = i + 1;
    }
    true
}

/// Whether two pieces of text are the same.
pub fn same_text(a: &str, b: &str) -> (yes: bool)
    ensures
        yes == (a@ == b@),
{
    let left = chars_of(a);
    let right = chars_of(b);
    if left.len() != right.len() {
        return false;
    }
    let mut i: usize = 0;
    while i < left.len()
        invariant
            left@ == a@,
            right@ == b@,
            left.len() == right.len(),
            i <= left.len(),
            forall|k: int| 0 <= k < i ==> left@[k] == right@[k],
        decreases left.len() - i,
    {
        if left[i] != right[i] {
            return false;
        }
        i = i + 1;
    }
    assert(a@ =~= b@);
    true
}

/// The digit character of a number below ten.
pub open spec fn digit(d: nat) -> char {
    (48 + d) as char
}

/// A number in decimal, without leading zeros.
pub open spec fn decimal_text(n: nat) -> Seq<char>
    decreases n,
{
    if n < 10 {
        seq![digit(n)]
    } else {
        decimal_text(n / 10).push(digit(n % 10))
    }
}

fn digit_text(d: u64) -> (text: &'static str)
    requires
        d < 10,
    ensures
        text@ == seq![digit(d as nat)],
{
    proof {
        reveal_strlit("0");
        reveal_strlit("1");
        reveal_strlit("2");
        reveal_strlit("3");
        reveal_strlit("4");
        reveal_strlit("5");
        reveal_strlit("6");
        reveal_strlit("7");
        reveal_strlit("8");
        reveal_strlit("9");
    }
    match d {
        0 => "0",
        1 => "1",
        2 => "2",
        3 => "3",
        4 => "4",
        5 => "5",
        6 => "6",
        7 => "7",
        8 => "8",
        _ => "9",
    }
}

/// `n` in decimal.
pub fn decimal(n: u64) -> (text: String)
    ensures
        text@ == decimal_text(n as nat),
    decreases n,
{
    if n < 10 {
        digit_text(n).to_string()
    } else {
        let mut text = decimal(n / 10);
        text.append(digit_text(n % 10));
        assert(text@ =~= decimal_text(n as nat));
        text
    }
}

/// Different numbers have different decimal texts.
pub proof fn law_decimal_is_injective(a: nat, b: nat)
    requires
        decimal_text(a) == decimal_text(b),
    ensures
        a == b,
    decreases a,
{
    let left = decimal_text(a);
    let right = decimal_text(b);
    if a < 10 && b < 10 {
        assert(left[0] == right[0]);
    } else if a < 10 {
        lemma_decimal_is_not_empty(b / 10);
        assert(left.len() == 1 && right.len() >= 2);
    } else if b < 10 {
        lemma_decimal_is_not_empty(a / 10);
        assert(right.len() == 1 && left.len() >= 2);
    } else {
        assert(left.last() == digit(a % 10));
        assert(right.last() == digit(b % 10));
        assert(left.drop_last() =~= decimal_text(a / 10));
        assert(right.drop_last() =~= decimal_text(b / 10));
        law_decimal_is_injective(a / 10, b / 10);
    }
}

proof fn lemma_decimal_is_not_empty(n: nat)
    ensures
        decimal_text(n).len() >= 1,
{
}

pub open spec fn is_digit(c: char) -> bool {
    '0' <= c <= '9'
}

/// The number that a run of decimal digits denotes.
pub open spec fn number(digits: Seq<char>) -> nat
    decreases digits.len(),
{
    if digits.len() == 0 {
        0
    } else {
        number(digits.drop_last()) * 10 + (digits.last() as nat - 48) as nat
    }
}

/// Text without the plus sign that it may start with.
pub open spec fn without_plus(text: Seq<char>) -> Seq<char> {
    if text.len() > 0 && text[0] == '+' {
        text.drop_first()
    } else {
        text
    }
}

/// Text is an unsigned decimal number: digits, at least one, after at most one plus sign.
pub open spec fn is_unsigned(text: Seq<char>) -> bool {
    &&& without_plus(text).len() > 0
    &&& forall|i: int| 0 <= i < without_plus(text).len() ==> is_digit(without_plus(text)[i])
}

proof fn lemma_number_grows(digits: Seq<char>, k: int)
    requires
        0 <= k <= digits.len(),
        forall|i: int| 0 <= i < digits.len() ==> is_digit(digits[i]),
    ensures
        number(digits.take(k)) <= number(digits),
    decreases digits.len() - k,
{
    if k < digits.len() {
        lemma_number_grows(digits, k + 1);
        assert(digits.take(k + 1).drop_last() =~= digits.take(k));
    } else {
        assert(digits.take(k) =~= digits);
    }
}

/// Reads an unsigned decimal number that fits in 32 bits.
pub fn parse_u32(text: &str) -> (value: Option<u32>)
    ensures
        match value {
            Some(v) => is_unsigned(text@) && v == number(without_plus(text@)),
            None => is_unsigned(text@) ==> number(without_plus(text@)) > u32::MAX,
        },
{
    let chars = chars_of(text);
    let ghost digits = without_plus(text@);
    let skip: usize = if chars.len() > 0 && chars[0] == '+' {
        1
    } else {
        0
    };
    if chars.len() == skip {
        return None;
    }
    let mut value: u64 = 0;
    let mut i: usize = skip;
    while i < chars.len()
        invariant
            chars@ == text@,
            skip <= i <= chars.len(),
            skip <= 1,
            digits == without_plus(text@),
            digits == text@.skip(skip as int),
            value <= u32::MAX,
            value == number(digits.take(i - skip)),
            forall|k: int| 0 <= k < i - skip ==> is_digit(digits[k]),
        decreases chars.len() - i,
    {
        let c = chars[i];
        assert(c == digits[i - skip]);
        if c < '0' || c > '9' {
            return None;
        }
        proof {
            assert(digits.take(i - skip + 1).drop_last() =~= digits.take(i - skip));
            assert(digits.take(i - skip + 1).last() == c);
        }
        value = value * 10 + (c as u64 - 48);
        if value > 0xffff_ffff {
            proof {
                if is_unsigned(text@) {
                    lemma_number_grows(digits, i - skip + 1);
                }
            }
            return None;
        }
        i = i + 1;
    }
    assert(digits.take(chars.len() - skip) =~= digits);
    Some(value as u32)
}

/// The characters with the Unicode property White_Space.
pub open spec fn is_white_space(c: char) -> bool {
    let point = c as int;
    ||| 0x09 <= point <= 0x0d
    ||| point == 0x20
    ||| point == 0x85
    ||| point == 0xa0
    ||| point == 0x1680
    ||| 0x2000 <= point <= 0x200a
    ||| 0x2028 <= point <= 0x2029
    ||| point == 0x202f
    ||| point == 0x205f
    ||| point == 0x3000
}

pub open spec fn trimmed_start(text: Seq<char>) -> Seq<char>
    decreases text.len(),
{
    if text.len() > 0 && is_white_space(text[0]) {
        trimmed_start(text.drop_first())
    } else {
        text
    }
}

pub open spec fn trimmed_end(text: Seq<char>) -> Seq<char>
    decreases text.len(),
{
    if text.len() > 0 && is_white_space(text.last()) {
        trimmed_end(text.drop_last())
    } else {
        text
    }
}

/// Text without its leading and trailing white space.
pub open spec fn trimmed(text: Seq<char>) -> Seq<char> {
    trimmed_end(trimmed_start(text))
}

/// Whether `c` is white space.
fn is_blank(c: char) -> (blank: bool)
    ensures
        blank == is_white_space(c),
{
    let point: u32 = c as u32;
    0x09 <= point && point <= 0x0d || point == 0x20 || point == 0x85 || point == 0xa0 || point
        == 0x1680 || 0x2000 <= point && point <= 0x200a || 0x2028 <= point && point <= 0x2029
        || point == 0x202f || point == 0x205f || point == 0x3000
}

/// Text without its leading and trailing white space.
pub fn trim(text: &str) -> (rest: &str)
    ensures
        rest@ == trimmed(text@),
{
    let chars = chars_of(text);
    let mut start: usize = 0;
    assert(text@.skip(0) =~= text@);
    while start < chars.len() && is_blank(chars[start])
        invariant
            chars@ == text@,
            start <= chars.len(),
            trimmed_start(text@) == trimmed_start(text@.skip(start as int)),
        decreases chars.len() - start,
    {
        assert(text@.skip(start as int).drop_first() =~= text@.skip(start + 1));
        start = start + 1;
    }
    let ghost tail = text@.skip(start as int);
    assert(trimmed_start(text@) == tail);
    let mut end: usize = chars.len();
    assert(tail.take(end - start) =~= tail);
    while start < end && is_blank(chars[end - 1])
        invariant
            chars@ == text@,
            start <= end <= chars.len(),
            tail == text@.skip(start as int),
            trimmed_end(tail) == trimmed_end(tail.take(end - start)),
        decreases end - start,
    {
        assert(tail.take(end - start).drop_last() =~= tail.take(end - 1 - start));
        end = end - 1;
    }
    assert(tail.take(end - start) =~= text@.subrange(start as int, end as int));
    text.substring_char(start, end)
}

/// Calls `std::str::from_utf8`, which is documented to succeed exactly on valid UTF-8 and
/// then to give the text that the bytes encode. Trusted: both.
#[verifier::external_body]
pub(crate) fn text_from_utf8(bytes: &[u8]) -> (text: Option<&str>)
    ensures
        text is Some <==> vstd::utf8::valid_utf8(bytes@),
        text matches Some(t) ==> t@ == vstd::utf8::decode_utf8(bytes@),
{
    std::str::from_utf8(bytes).ok()
}

/// The digits of a number in decimal, place by place: counted from the right, digit `place` is
/// that of the power of ten. There are as many as it takes, and at least one.
pub proof fn law_decimal_digits_by_place(n: nat, place: nat)
    ensures
        decimal_text(n).len() >= 1,
        n < pow(10, decimal_text(n).len()),
        decimal_text(n).len() > 1 ==> pow(10, (decimal_text(n).len() - 1) as nat) <= n,
        place < decimal_text(n).len() ==> decimal_text(n)[decimal_text(n).len() - 1 - place] as int
            == 48 + (n as int / pow(10, place)) % 10,
    decreases n,
{
    lemma_pow0(10);
    lemma_pow1(10);
    if n >= 10 {
        let rest = n / 10;
        let len = decimal_text(rest).len();
        lemma_pow_unfolds(len);
        if len > 1 {
            lemma_pow_unfolds((len - 1) as nat);
        }
        if place > 0 {
            let above = (place - 1) as nat;
            law_decimal_digits_by_place(rest, above);
            lemma_pow_unfolds(above);
            lemma_pow_positive(10, above);
            vstd::arithmetic::div_mod::lemma_div_denominator(n as int, 10, pow(10, above));
            if place < decimal_text(n).len() {
                assert(decimal_text(n)[decimal_text(n).len() - 1 - place] == decimal_text(
                    rest,
                )[len - 1 - above]);
            }
        } else {
            law_decimal_digits_by_place(rest, 0);
        }
    }
}

proof fn lemma_pow_unfolds(e: nat)
    ensures
        pow(10, e + 1) == 10 * pow(10, e),
{
    reveal(pow);
}

/// Digits read from left to right: one more digit makes ten times the number before it, and
/// its own value. No digits make nothing.
pub proof fn law_digits_make_a_number(digits: Seq<char>, next: char)
    ensures
        number(Seq::<char>::empty()) == 0,
        is_digit(next) ==> number(digits.push(next)) == 10 * number(digits) + (next as int - 48),
        is_digit(next) <==> 48 <= next as int <= 57,
{
    assert(digits.push(next).drop_last() =~= digits);
}

/// What reads as an unsigned number: digits, at least one, and perhaps a single plus before
/// them.
pub proof fn law_unsigned_numbers_are_digits(text: Seq<char>)
    ensures
        is_unsigned(text) <==> without_plus(text).len() > 0 && forall|i: int|
            0 <= i < without_plus(text).len() ==> 48 <= #[trigger] without_plus(text)[i] as int
                && without_plus(text)[i] as int <= 57,
        text.len() > 0 && text[0] == '+' ==> without_plus(text) == text.skip(1),
        text.len() == 0 || text[0] != '+' ==> without_plus(text) == text,
{
}

/// The white space of Unicode, code point by code point.
pub proof fn law_white_space_by_code_point(c: char)
    ensures
        is_white_space(c) <==> seq![
            9int,
            10,
            11,
            12,
            13,
            32,
            133,
            160,
            5760,
            8192,
            8193,
            8194,
            8195,
            8196,
            8197,
            8198,
            8199,
            8200,
            8201,
            8202,
            8232,
            8233,
            8239,
            8287,
            12288,
        ].contains(c as int),
{
    let points = seq![
        9int,
        10,
        11,
        12,
        13,
        32,
        133,
        160,
        5760,
        8192,
        8193,
        8194,
        8195,
        8196,
        8197,
        8198,
        8199,
        8200,
        8201,
        8202,
        8232,
        8233,
        8239,
        8287,
        12288,
    ];
    if is_white_space(c) {
        let i = if c as int <= 13 {
            c as int - 9
        } else if c as int == 32 {
            5
        } else if c as int == 133 {
            6
        } else if c as int == 160 {
            7
        } else if c as int == 5760 {
            8
        } else if c as int <= 8202 {
            c as int - 8192 + 9
        } else if c as int <= 8233 {
            c as int - 8232 + 20
        } else if c as int == 8239 {
            22
        } else if c as int == 8287 {
            23
        } else {
            24
        };
        assert(points[i] == c as int);
    }
}

/// Trimming takes white space off both ends and nothing else: what is left is one piece of the
/// text, from `start` to `end`, with only white space before and after it, and none at either
/// of its ends.
pub proof fn law_trimming_takes_white_space_off_both_ends(text: Seq<char>) -> (ends: (int, int))
    ensures
        0 <= ends.0 <= ends.1 <= text.len(),
        trimmed(text) == text.subrange(ends.0, ends.1),
        forall|i: int| 0 <= i < ends.0 ==> is_white_space(#[trigger] text[i]),
        forall|i: int| ends.1 <= i < text.len() ==> is_white_space(#[trigger] text[i]),
        ends.0 < ends.1 ==> !is_white_space(text[ends.0]) && !is_white_space(text[ends.1 - 1]),
{
    let start = lemma_trimmed_start_is_a_tail(text);
    let tail = text.skip(start);
    let len = lemma_trimmed_end_is_a_head(tail);
    assert(tail.take(len) =~= text.subrange(start, start + len));
    assert forall|i: int| start + len <= i < text.len() implies is_white_space(
        #[trigger] text[i],
    ) by {
        assert(tail[i - start] == text[i]);
    }
    if len > 0 {
        assert(tail[0] == text[start]);
        assert(tail[len - 1] == text[start + len - 1]);
    }
    (start, start + len)
}

proof fn lemma_trimmed_start_is_a_tail(text: Seq<char>) -> (start: int)
    ensures
        0 <= start <= text.len(),
        trimmed_start(text) == text.skip(start),
        forall|i: int| 0 <= i < start ==> is_white_space(#[trigger] text[i]),
        start < text.len() ==> !is_white_space(text[start]),
    decreases text.len(),
{
    if text.len() > 0 && is_white_space(text[0]) {
        let rest = text.drop_first();
        let start = lemma_trimmed_start_is_a_tail(rest);
        assert(rest.skip(start) =~= text.skip(start + 1));
        assert forall|i: int| 0 <= i < start + 1 implies is_white_space(#[trigger] text[i]) by {
            if i > 0 {
                assert(rest[i - 1] == text[i]);
            }
        }
        if start < rest.len() {
            assert(rest[start] == text[start + 1]);
        }
        start + 1
    } else {
        assert(text.skip(0) =~= text);
        0
    }
}

proof fn lemma_trimmed_end_is_a_head(text: Seq<char>) -> (len: int)
    ensures
        0 <= len <= text.len(),
        trimmed_end(text) == text.take(len),
        forall|i: int| len <= i < text.len() ==> is_white_space(#[trigger] text[i]),
        len > 0 ==> !is_white_space(text[len - 1]),
    decreases text.len(),
{
    if text.len() > 0 && is_white_space(text.last()) {
        let rest = text.drop_last();
        let len = lemma_trimmed_end_is_a_head(rest);
        assert(rest.take(len) =~= text.take(len));
        assert forall|i: int| len <= i < text.len() implies is_white_space(#[trigger] text[i]) by {
            if i < rest.len() {
                assert(rest[i] == text[i]);
            }
        }
        if len > 0 {
            assert(rest[len - 1] == text[len - 1]);
        }
        len
    } else {
        assert(text.take(text.len() as int) =~= text);
        text.len() as int
    }
}

/// Text that is split at a separator is its fields, none of which holds the separator, with one
/// separator between each two: one more field adds a separator and itself.
pub proof fn law_fields_make_up_the_text(
    text: Seq<char>,
    sep: char,
    parts: Seq<Seq<char>>,
    field: Seq<char>,
)
    ensures
        is_split(text, sep, seq![field]) <==> text == field && !field.contains(sep),
        parts.len() > 0 ==> (is_split(text, sep, parts.push(field)) <==> !field.contains(sep)
            && exists|head: Seq<char>| #[trigger]
            is_split(head, sep, parts) && text == head.push(sep) + field),
        !is_split(text, sep, Seq::empty()),
{
    let more = parts.push(field);
    assert(more.drop_last() =~= parts);
    assert(seq![field][0] == field);
    if is_split(text, sep, seq![field]) {
        assert(!seq![field][0].contains(sep));
    }
    if parts.len() > 0 {
        if is_split(text, sep, more) {
            assert(more[more.len() - 1] == field);
            assert forall|i: int| 0 <= i < parts.len() implies !(#[trigger] parts[i]).contains(
                sep,
            ) by {
                assert(more[i] == parts[i]);
            }
            assert(is_split(join(parts, sep), sep, parts));
        }
    }
}

/// The views of a list of strings are their texts, in order.
pub proof fn law_views_are_the_texts(parts: Seq<String>, i: int)
    requires
        0 <= i < parts.len(),
    ensures
        views(parts).len() == parts.len(),
        views(parts)[i] == parts[i]@,
{
}

} // verus!
