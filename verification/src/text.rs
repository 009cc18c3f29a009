//! Text: numbers in decimal, surrounding whitespace, and lists of words.
use vstd::prelude::*;
use vstd::string::*;

verus! {

/// The texts that a list of strings holds.
pub open spec fn texts(list: Seq<String>) -> Seq<Seq<char>> {
    list.map_values(|s: String| s@)
}

/// The characters of a string.
pub fn chars_of(s: &str) -> (chars: Vec<char>)
    ensures
        chars@ == s@,
{
    let mut chars: Vec<char> = Vec::new();
    for c in it: s.chars()
        invariant
            it.seq() == s@,
            chars@ == s@.take(it.index()),
    {
        chars.push(c);
        assert(chars@ =~= s@.take(it.index() + 1));
    }
    assert(s@.take(s@.len() as int) =~= s@);
    chars
}

/// Whether two strings hold the same characters.
pub fn same_text(a: &str, b: &str) -> (same: bool)
    ensures
        same == (a@ == b@),
{
    let left = a.as_bytes();
    let right = b.as_bytes();
    proof {
        vstd::utf8::encode_utf8_decode_utf8(a@);
        vstd::utf8::encode_utf8_decode_utf8(b@);
    }
    if left.len() != right.len() {
        return false;
    }
    let mut i: usize = 0;
    while i < left.len()
        invariant
            left@.len() == right@.len(),
            i <= left@.len(),
            forall|k: int| 0 <= k < i ==> left@[k] == right@[k],
            left@ == a.spec_bytes(),
            right@ == b.spec_bytes(),
        decreases left.len() - i,
    {
        if left[i] != right[i] {
            return false;
        }
        i = i + 1;
    }
    assert(left@ =~= right@);
    true
}

/// Whether a text starts with another.
pub fn starts_with(text: &str, front: &str) -> (yes: bool)
    ensures
        yes == front@.is_prefix_of(text@),
{
    let wanted = chars_of(front);
    let chars = chars_of(text);
    let mut matched: usize = 0;
    while matched < wanted.len() && matched < chars.len() && wanted[matched] == chars[matched]
        invariant
            wanted@ == front@,
            chars@ == text@,
            matched <= wanted@.len(),
            matched <= chars@.len(),
            forall|k: int| 0 <= k < matched ==> wanted@[k] == chars@[k],
        decreases wanted.len() - matched,
    {
        matched = matched + 1;
    }
    if matched < wanted.len() {
        assert(!front@.is_prefix_of(text@)) by {
            if front@.is_prefix_of(text@) {
                assert(front@[matched as int] == text@.subrange(
                    0,
                    front@.len() as int,
                )[matched as int]);
            }
        }
        return false;
    }
    assert(front@ =~= text@.subrange(0, front@.len() as int));
    true
}

/* ── Decimal numbers ────────────────────────────────────────────── */

/// The decimal digit of a number below ten.
pub open spec fn digit(d: nat) -> char {
    (48 + d) as char
}

/// A natural number in decimal, without leading zeros.
pub open spec fn digits(n: nat) -> Seq<char>
    decreases n,
{
    if n < 10 {
        seq![digit(n)]
    } else {
        digits(n / 10).push(digit(n % 10))
    }
}

/// An integer in decimal.
pub open spec fn decimal(n: int) -> Seq<char> {
    if n < 0 {
        seq!['-'] + digits((-n) as nat)
    } else {
        digits(n as nat)
    }
}

/// Whether a character is a decimal digit.
pub open spec fn is_digit(c: char) -> bool {
    '0' <= c <= '9'
}

/// Whether a text consists of decimal digits alone.
pub open spec fn all_digits(s: Seq<char>) -> bool {
    forall|i: int| 0 <= i < s.len() ==> is_digit(#[trigger] s[i])
}

/// The number that a text of decimal digits stands for.
pub open spec fn number(s: Seq<char>) -> nat
    decreases s.len(),
{
    if s.len() == 0 {
        0
    } else {
        number(s.drop_last()) * 10 + (s.last() as nat - 48) as nat
    }
}

/// Decimal digits, and only those, write a number, and they read back as that number.
pub proof fn lemma_digits_read_back(n: nat)
    ensures
        digits(n).len() > 0,
        all_digits(digits(n)),
        number(digits(n)) == n,
    decreases n,
{
    if n < 10 {
        assert(digits(n).drop_last() =~= Seq::<char>::empty());
        reveal_with_fuel(number, 2);
    } else {
        lemma_digits_read_back(n / 10);
        assert(digits(n).drop_last() =~= digits(n / 10));
    }
}

/// Different integers are written differently.
pub proof fn lemma_decimal_injective(a: int, b: int)
    requires
        decimal(a) == decimal(b),
    ensures
        a == b,
{
    let na = (if a < 0 { -a } else { a }) as nat;
    let nb = (if b < 0 { -b } else { b }) as nat;
    let (da, db) = (digits(na), digits(nb));
    lemma_digits_read_back(na);
    lemma_digits_read_back(nb);
    assert(is_digit(da[0]) && is_digit(db[0]));
    if a < 0 {
        assert(decimal(a)[0] == '-');
        assert(b < 0);
        assert(decimal(a).subrange(1, decimal(a).len() as int) =~= da);
        assert(decimal(b).subrange(1, decimal(b).len() as int) =~= db);
    } else if b < 0 {
        assert(decimal(b)[0] == '-');
    }
}

fn digit_text(d: u128) -> (text: &'static str)
    requires
        d < 10,
    ensures
        text@ == seq![digit(d as nat)],
{
    proof {
        reveal_strlit("0");
        reveal_strlit("1");
        reveal_strlit("2");
        reveal_strlit("3");
        reveal_strlit("4");
        reveal_strlit("5");
        reveal_strlit("6");
        reveal_strlit("7");
        reveal_strlit("8");
        reveal_strlit("9");
    }
    let text = if d == 0 {
        "0"
    } else if d == 1 {
        "1"
    } else if d == 2 {
        "2"
    } else if d == 3 {
        "3"
    } else if d == 4 {
        "4"
    } else if d == 5 {
        "5"
    } else if d == 6 {
        "6"
    } else if d == 7 {
        "7"
    } else if d == 8 {
        "8"
    } else {
        "9"
    };
    assert(text@ =~= seq![digit(d as nat)]);
    text
}

/// Writes a natural number behind a text.
pub fn append_digits(out: &mut String, n: u128)
    ensures
        final(out)@ == old(out)@ + digits(n as nat),
    decreases n,
{
    if n >= 10 {
        append_digits(out, n / 10);
    }
    out.append(digit_text(n % 10));
    assert(out@ =~= old(out)@ + digits(n as nat));
}

/// Writes an integer behind a text.
pub fn append_decimal(out: &mut String, n: i64)
    ensures
        final(out)@ == old(out)@ + decimal(n as int),
{
    if n < 0 {
        proof {
            reveal_strlit("-");
        }
        out.append("-");
        append_digits(out, (-(n as i128)) as u128);
        assert("-"@ =~= seq!['-']);
        assert(out@ =~= old(out)@ + decimal(n as int));
    } else {
        append_digits(out, n as u128);
    }
}

/// An integer in decimal.
pub fn decimal_text(n: i64) -> (text: String)
    ensures
        text@ == decimal(n as int),
{
    let mut text = String::new();
    append_decimal(&mut text, n);
    assert(text@ =~= decimal(n as int));
    text
}

/// The `i32` that a text writes in decimal: an optional sign and at least one digit, nothing else,
/// of a value in range.
pub open spec fn i32_of(s: Seq<char>) -> Option<i32> {
    let signed = s.len() > 0 && (s[0] == '-' || s[0] == '+');
    let body = if signed {
        s.skip(1)
    } else {
        s
    };
    let value = if signed && s[0] == '-' {
        -number(body)
    } else {
        number(body) as int
    };
    if body.len() > 0 && all_digits(body) && i32::MIN <= value <= i32::MAX {
        Some(value as i32)
    } else {
        None
    }
}

/// Reads an `i32` in decimal.
pub fn parse_i32(text: &str) -> (value: Option<i32>)
    ensures
        value == i32_of(text@),
{
    let chars = chars_of(text);
    let signed = chars.len() > 0 && (chars[0] == '-' || chars[0] == '+');
    let start: usize = if signed {
        1
    } else {
        0
    };
    let ghost body = text@.skip(start as int);
    assert(text@.skip(0) =~= text@);
    if chars.len() == start {
        return None;
    }
    let mut total: i64 = 0;
    let mut too_big = false;
    let mut i: usize = start;
    assert(body.take(0) =~= Seq::<char>::empty());
    while i < chars.len()
        invariant
            chars@ == text@,
            start <= i <= chars@.len(),
            signed == (text@.len() > 0 && (text@[0] == '-' || text@[0] == '+')),
            body == if signed {
                text@.skip(1)
            } else {
                text@
            },
            body == text@.skip(start as int),
            all_digits(body.take(i - start)),
            !too_big ==> 0 <= total <= 0x8000_0000 && total == number(body.take(i - start)),
            too_big ==> number(body.take(i - start)) > 0x8000_0000,
        decreases chars.len() - i,
    {
        let c = chars[i];
        let ghost before = body.take(i - start);
        let ghost after = body.take(i + 1 - start);
        assert(after.drop_last() =~= before);
        assert(after.last() == c);
        if c < '0' || c > '9' {
            assert(!is_digit(body[i - start]));
            return None;
        }
        assert forall|k: int| 0 <= k < after.len() implies is_digit(#[trigger] after[k]) by {
            if k < before.len() {
                assert(after[k] == before[k]);
            }
        }
        if !too_big {
            total = total * 10 + (c as u32 - 48) as i64;
            too_big = total > 0x8000_0000;
        }
        i = i + 1;
    }
    assert(body.take(i - start) =~= body);
    if too_big {
        return None;
    }
    let value = if signed && chars[0] == '-' {
        -total
    } else {
        total
    };
    if value > i32::MAX as i64 {
        return None;
    }
    Some(value as i32)
}

/// An `i32` that was written in decimal reads back unchanged.
pub proof fn lemma_decimal_reads_back(n: i32)
    ensures
        i32_of(decimal(n as int)) == Some(n),
{
    if n < 0 {
        lemma_digits_read_back((-n) as nat);
        assert(decimal(n as int).skip(1) =~= digits((-n) as nat));
    } else {
        lemma_digits_read_back(n as nat);
        assert(is_digit(digits(n as nat)[0]));
    }
}

/* ── Whitespace ─────────────────────────────────────────────────── */

/// Whether a character has the Unicode property `White_Space`.
pub open spec fn is_space(c: char) -> bool {
    ||| '\u{9}' <= c <= '\u{d}'
    ||| c == ' '
    ||| c == '\u{85}'
    ||| c == '\u{a0}'
    ||| c == '\u{1680}'
    ||| '\u{2000}' <= c <= '\u{200a}'
    ||| c == '\u{2028}'
    ||| c == '\u{2029}'
    ||| c == '\u{202f}'
    ||| c == '\u{205f}'
    ||| c == '\u{3000}'
}

/// A text without the whitespace at its front.
pub open spec fn trimmed_front(s: Seq<char>) -> Seq<char>
    decreases s.len(),
{
    if s.len() > 0 && is_space(s[0]) {
        trimmed_front(s.skip(1))
    } else {
        s
    }
}

/// A text without the whitespace at its back.
pub open spec fn trimmed_back(s: Seq<char>) -> Seq<char>
    decreases s.len(),
{
    if s.len() > 0 && is_space(s.last()) {
        trimmed_back(s.drop_last())
    } else {
        s
    }
}

/// A text without the whitespace around it.
pub open spec fn trimmed(s: Seq<char>) -> Seq<char> {
    trimmed_back(trimmed_front(s))
}

fn space(c: char) -> (yes: bool)
    ensures
        yes == is_space(c),
{
    ('\u{9}' <= c && c <= '\u{d}') || c == ' ' || c == '\u{85}' || c == '\u{a0}' || c
        == '\u{1680}' || ('\u{2000}' <= c && c <= '\u{200a}') || c == '\u{2028}' || c
        == '\u{2029}' || c == '\u{202f}' || c == '\u{205f}' || c == '\u{3000}'
}

/// The part of a text between the whitespace around it.
pub fn trim<'a>(text: &'a str) -> (inner: &'a str)
    ensures
        inner@ == trimmed(text@),
{
    let chars = chars_of(text);
    let mut from: usize = 0;
    assert(text@.skip(0) =~= text@);
    while from < chars.len() && space(chars[from])
        invariant
            chars@ == text@,
            from <= chars@.len(),
            trimmed_front(text@) == trimmed_front(text@.skip(from as int)),
        decreases chars.len() - from,
    {
        assert(text@.skip(from as int).skip(1) =~= text@.skip(from + 1));
        from = from + 1;
    }
    let mut to: usize = chars.len();
    let ghost front = text@.skip(from as int);
    assert(front.take(to - from) =~= front);
    while to > from && space(chars[to - 1])
        invariant
            chars@ == text@,
            from <= to <= chars@.len(),
            front == text@.skip(from as int),
            trimmed_back(front) == trimmed_back(front.take(to - from)),
        decreases to,
    {
        assert(front.take(to - from).drop_last() =~= front.take(to - 1 - from));
        to = to - 1;
    }
    assert(front.take(to - from) =~= text@.subrange(from as int, to as int));
    text.substring_char(from, to)
}

/* ── What holds of numbers and whitespace ───────────────────────── */

/// A number is written without leading zeros, and only with digits.
pub proof fn lemma_no_leading_zero(n: nat)
    ensures
        digits(n).len() > 0,
        all_digits(digits(n)),
        digits(n)[0] == '0' <==> n == 0,
        n == 0 ==> digits(n).len() == 1,
    decreases n,
{
    lemma_digits_read_back(n);
    if n >= 10 {
        lemma_no_leading_zero(n / 10);
        assert(digits(n)[0] == digits(n / 10)[0]);
    }
}

/// An integer is written with digits and, if it is negative, one minus sign in front of them.
pub proof fn lemma_decimal_chars(n: int)
    ensures
        decimal(n).len() > 0,
        is_digit(decimal(n).last()),
        is_digit(decimal(n)[0]) || decimal(n)[0] == '-',
        decimal(n)[0] == '-' <==> n < 0,
        forall|i: int| 0 < i < decimal(n).len() ==> is_digit(#[trigger] decimal(n)[i]),
{
    let size: nat = if n < 0 {
        (-n) as nat
    } else {
        n as nat
    };
    lemma_digits_read_back(size);
    let d = digits(size);
    assert(is_digit(d[0]) && is_digit(d.last()));
    assert(decimal(n).last() == d.last());
    assert forall|i: int| 0 < i < decimal(n).len() implies is_digit(#[trigger] decimal(n)[i]) by {
        if n < 0 {
            assert(decimal(n)[i] == d[i - 1]);
        }
    }
}

/// A text reads as an integer exactly if it is a sign, or none, and the digits of that integer,
/// with any number of zeros in front of them.
pub proof fn lemma_i32_is_its_digits(sign: Seq<char>, zeros: nat, n: nat)
    requires
        sign =~= seq!['-'] || sign =~= seq!['+'] || sign =~= Seq::<char>::empty(),
    ensures
        ({
            let value = if sign =~= seq!['-'] {
                -n
            } else {
                n as int
            };
            let text = sign + Seq::new(zeros, |i: int| '0') + digits(n);
            i32_of(text) == if i32::MIN <= value <= i32::MAX {
                Some(value as i32)
            } else {
                None
            }
        }),
{
    let padded = Seq::new(zeros, |i: int| '0') + digits(n);
    let text = sign + Seq::new(zeros, |i: int| '0') + digits(n);
    lemma_zeros_do_not_count(zeros, n);
    assert(is_digit(padded[0]));
    if sign.len() == 0 {
        assert(text =~= padded);
    } else {
        assert(text.skip(1) =~= padded);
    }
}

proof fn lemma_zeros_do_not_count(zeros: nat, n: nat)
    ensures
        ({
            let padded = Seq::new(zeros, |i: int| '0') + digits(n);
            &&& padded.len() > 0
            &&& all_digits(padded)
            &&& number(padded) == n
        }),
    decreases n,
{
    let front = Seq::new(zeros, |i: int| '0');
    let padded = front + digits(n);
    lemma_digits_read_back(n);
    assert forall|i: int| 0 <= i < padded.len() implies is_digit(#[trigger] padded[i]) by {
        if i >= zeros {
            assert(padded[i] == digits(n)[i - zeros]);
        }
    }
    if n < 10 {
        lemma_zeros_are_zero(zeros);
        assert(padded.drop_last() =~= front);
    } else {
        lemma_zeros_do_not_count(zeros, n / 10);
        assert(padded.drop_last() =~= front + digits(n / 10));
    }
}

proof fn lemma_zeros_are_zero(zeros: nat)
    ensures
        number(Seq::new(zeros, |i: int| '0')) == 0,
    decreases zeros,
{
    if zeros > 0 {
        lemma_zeros_are_zero((zeros - 1) as nat);
        assert(Seq::new(zeros, |i: int| '0').drop_last() =~= Seq::new(
            (zeros - 1) as nat,
            |i: int| '0',
        ));
    }
}

/// A text with a character that is neither a digit nor a sign in front reads as no integer, and
/// neither does a text without a digit.
pub proof fn lemma_other_text_is_no_i32(text: Seq<char>, i: int)
    requires
        0 <= i < text.len(),
        !is_digit(text[i]),
        i > 0 || (text[0] != '-' && text[0] != '+') || text.len() == 1,
    ensures
        i32_of(text) is None,
{
    if text[0] == '-' || text[0] == '+' {
        if i > 0 {
            assert(text.skip(1)[i - 1] == text[i]);
        }
    }
}

/// Whether a text is whitespace alone.
pub open spec fn blank(text: Seq<char>) -> bool {
    forall|i: int| 0 <= i < text.len() ==> is_space(#[trigger] text[i])
}

/// Trimming takes away the whitespace around a text, all of it, and nothing else.
pub proof fn lemma_trimming(front: Seq<char>, inner: Seq<char>, back: Seq<char>)
    requires
        blank(front),
        blank(back),
        inner.len() > 0 ==> !is_space(inner[0]) && !is_space(inner.last()),
    ensures
        trimmed(front + inner + back) == inner,
{
    lemma_trimming_front(front, inner + back);
    assert(front + inner + back =~= front + (inner + back));
    if inner.len() > 0 {
        assert((inner + back)[0] == inner[0]);
        lemma_trimming_back(inner, back);
    } else {
        assert(inner + back =~= back + Seq::<char>::empty());
        lemma_trimming_front(back, Seq::empty());
        assert(inner =~= Seq::<char>::empty());
        assert(trimmed(front + inner + back) == inner);
    }
}

proof fn lemma_trimming_front(front: Seq<char>, rest: Seq<char>)
    requires
        blank(front),
    ensures
        trimmed_front(front + rest) == trimmed_front(rest),
    decreases front.len(),
{
    if front.len() > 0 {
        let text = front + rest;
        assert(is_space(front[0]));
        assert(text[0] == front[0]);
        assert(text.skip(1) =~= front.skip(1) + rest);
        assert forall|i: int| 0 <= i < front.skip(1).len() implies is_space(
            #[trigger] front.skip(1)[i],
        ) by {
            assert(front.skip(1)[i] == front[i + 1]);
        }
        lemma_trimming_front(front.skip(1), rest);
    } else {
        assert(front + rest =~= rest);
    }
}

proof fn lemma_trimming_back(rest: Seq<char>, back: Seq<char>)
    requires
        blank(back),
    ensures
        trimmed_back(rest + back) == trimmed_back(rest),
    decreases back.len(),
{
    if back.len() > 0 {
        let text = rest + back;
        assert(is_space(back.last()));
        assert(text.last() == back.last());
        assert(text.drop_last() =~= rest + back.drop_last());
        assert forall|i: int| 0 <= i < back.drop_last().len() implies is_space(
            #[trigger] back.drop_last()[i],
        ) by {
            assert(back.drop_last()[i] == back[i]);
        }
        lemma_trimming_back(rest, back.drop_last());
    } else {
        assert(rest + back =~= rest);
    }
}

/* ── Texts in parts ─────────────────────────────────────────────── */

/// The parts of a text between the places where a separator stands.
pub open spec fn fields(text: Seq<char>, separator: char) -> Seq<Seq<char>>
    decreases text.len(),
{
    if text.len() == 0 {
        seq![Seq::empty()]
    } else {
        let before = fields(text.drop_last(), separator);
        if text.last() == separator {
            before.push(Seq::empty())
        } else {
            before.update(before.len() - 1, before.last().push(text.last()))
        }
    }
}

/// A text without the separator lengthens the last part.
pub proof fn lemma_fields_append(text: Seq<char>, more: Seq<char>, separator: char)
    requires
        forall|i: int| 0 <= i < more.len() ==> #[trigger] more[i] != separator,
    ensures
        ({
            let before = fields(text, separator);
            &&& before.len() > 0
            &&& fields(text + more, separator) == before.update(
                before.len() - 1,
                before.last() + more,
            )
        }),
    decreases more.len(),
{
    lemma_fields_some(text, separator);
    let before = fields(text, separator);
    if more.len() == 0 {
        assert(text + more =~= text);
        assert(before.last() + more =~= before.last());
        assert(before.update(before.len() - 1, before.last() + more) =~= before);
    } else {
        let all = text + more;
        assert(all.drop_last() =~= text + more.drop_last());
        assert(all.last() == more.last());
        assert(more[more.len() - 1] != separator);
        assert forall|i: int| 0 <= i < more.drop_last().len() implies #[trigger] more.drop_last()[i]
            != separator by {
            assert(more.drop_last()[i] == more[i]);
        }
        lemma_fields_append(text, more.drop_last(), separator);
        let shorter = fields(text + more.drop_last(), separator);
        assert(shorter.last() == before.last() + more.drop_last());
        assert((before.last() + more.drop_last()).push(more.last()) =~= before.last() + more);
        assert(fields(all, separator) =~= before.update(before.len() - 1, before.last() + more));
    }
}

proof fn lemma_fields_some(text: Seq<char>, separator: char)
    ensures
        fields(text, separator).len() > 0,
    decreases text.len(),
{
    if text.len() > 0 {
        lemma_fields_some(text.drop_last(), separator);
    }
}

/// One more separator and a text without it add a part.
pub proof fn lemma_fields_next(text: Seq<char>, more: Seq<char>, separator: char)
    requires
        forall|i: int| 0 <= i < more.len() ==> #[trigger] more[i] != separator,
    ensures
        fields(text.push(separator) + more, separator) == fields(text, separator).push(more),
{
    let before = fields(text, separator);
    assert(text.push(separator).drop_last() =~= text);
    assert(fields(text.push(separator), separator) == before.push(Seq::empty()));
    lemma_fields_append(text.push(separator), more, separator);
    assert(Seq::<char>::empty() + more =~= more);
    assert(fields(text.push(separator) + more, separator) =~= before.push(more));
}

/// A text without the separator is its own only part.
pub proof fn lemma_fields_single(text: Seq<char>, separator: char)
    requires
        forall|i: int| 0 <= i < text.len() ==> #[trigger] text[i] != separator,
    ensures
        fields(text, separator) == seq![text],
{
    lemma_fields_append(Seq::empty(), text, separator);
    assert(Seq::<char>::empty() + text =~= text);
    assert(fields(text, separator) =~= seq![text]);
}

/// A list of strings is looked at string by string, in order.
pub proof fn lemma_texts_are_the_strings(list: Seq<String>, i: int)
    requires
        0 <= i < list.len(),
    ensures
        texts(list).len() == list.len(),
        texts(list)[i] == list[i]@,
{
}

/// Which characters are whitespace, block by block: of ASCII the space and the five from tab to
/// carriage return, and beyond it a few in the Latin-1, Ogham, punctuation and CJK blocks.
pub proof fn lemma_whitespace(c: char)
    ensures
        c < '\u{80}' ==> (is_space(c) <==> c == ' ' || c == '\t' || c == '\n' || c == '\r' || c
            == '\u{b}' || c == '\u{c}'),
        '\u{80}' <= c < '\u{1000}' ==> (is_space(c) <==> c == '\u{85}' || c == '\u{a0}'),
        '\u{1000}' <= c < '\u{2000}' ==> (is_space(c) <==> c == '\u{1680}'),
        '\u{2000}' <= c < '\u{3000}' ==> (is_space(c) <==> c <= '\u{200a}' || c == '\u{2028}' || c
            == '\u{2029}' || c == '\u{202f}' || c == '\u{205f}'),
        '\u{3000}' <= c ==> (is_space(c) <==> c == '\u{3000}'),
{
}

} // verus!
