//! Text handling: the few string operations the rest of the library is built on.

use vstd::prelude::*;
use vstd::string::StringExecFns;

verus! {

/// The Unicode `White_Space` property.
pub open spec fn is_white_space(c: char) -> bool {
    ||| '\u{9}' <= c <= '\u{d}'
    ||| c == '\u{20}'
    ||| c == '\u{85}'
    ||| c == '\u{a0}'
    ||| c == '\u{1680}'
    ||| '\u{2000}' <= c <= '\u{200a}'
    ||| c == '\u{2028}'
    ||| c == '\u{2029}'
    ||| c == '\u{202f}'
    ||| c == '\u{205f}'
    ||| c == '\u{3000}'
}

/// `s` without the white space it starts with.
pub open spec fn trimmed_start(s: Seq<char>) -> Seq<char>
    decreases s.len(),
{
    if s.len() > 0 && is_white_space(s[0]) {
        trimmed_start(s.drop_first())
    } else {
        s
    }
}

/// `s` without the white space it ends with.
pub open spec fn trimmed_end(s: Seq<char>) -> Seq<char>
    decreases s.len(),
{
    if s.len() > 0 && is_white_space(s.last()) {
        trimmed_end(s.drop_last())
    } else {
        s
    }
}

/// `s` without the white space around it.
pub open spec fn trimmed(s: Seq<char>) -> Seq<char> {
    trimmed_end(trimmed_start(s))
}

proof fn lemma_trimmed_end(s: Seq<char>)
    ensures
        trimmed_end(s).len() <= s.len(),
        trimmed_end(s) =~= s.take(trimmed_end(s).len() as int),
        trimmed_end(s).len() > 0 ==> !is_white_space(trimmed_end(s).last()),
    decreases s.len(),
{
    if s.len() > 0 && is_white_space(s.last()) {
        lemma_trimmed_end(s.drop_last());
    }
}

proof fn lemma_trimmed_start(s: Seq<char>)
    ensures
        trimmed_start(s).len() > 0 ==> !is_white_space(trimmed_start(s)[0]),
    decreases s.len(),
{
    if s.len() > 0 && is_white_space(s[0]) {
        lemma_trimmed_start(s.drop_first());
    }
}

/// Trimming what is trimmed changes nothing.
pub proof fn lemma_trimmed_is_trimmed(s: Seq<char>)
    ensures
        trimmed(trimmed(s)) == trimmed(s),
{
    let start = trimmed_start(s);
    let both = trimmed_end(start);
    lemma_trimmed_start(s);
    lemma_trimmed_end(start);
    if both.len() > 0 {
        assert(both[0] == start[0]);
    }
}

/// Calls `str::trim`, which removes leading and trailing white space: characters
/// with the Unicode `White_Space` property.
#[verifier::external_body]
pub(crate) fn trim<'a>(s: &'a str) -> (rest: &'a str)
    ensures
        rest@ == trimmed(s@),
{
    s.trim()
}

/// Calls `String::from_iter` on characters: the string made of them in order.
#[verifier::external_body]
pub(crate) fn string_of(chars: &[char]) -> (s: String)
    ensures
        s@ == chars@,
{
    String::from_iter(chars)
}

/// The characters of `s`.
pub(crate) fn chars_of(s: &str) -> (chars: Vec<char>)
    ensures
        chars@ == s@,
{
    let mut chars: Vec<char> = Vec::new();
    for c in it: s.chars()
        invariant
            it.seq() == s@,
            chars@ == s@.take(it.index()),
    {
        chars.push(c);
        assert(chars@ =~= s@.take(it.index() + 1));
    }
    assert(chars@ =~= s@);
    chars
}

/// Whether two texts are the same.
pub(crate) fn same(a: &str, b: &str) -> (equal: bool)
    ensures
        equal == (a@ == b@),
{
    a.to_owned() == b.to_owned()
}

/// The lower-case form of an ASCII letter; any other character is its own.
pub open spec fn lower(c: char) -> char {
    if 'A' <= c <= 'Z' {
        (c as u8 + 32) as u8 as char
    } else {
        c
    }
}

/// `s` with its ASCII letters in lower case.
pub open spec fn lowered(s: Seq<char>) -> Seq<char> {
    s.map_values(|c: char| lower(c))
}

fn lower_char(c: char) -> (l: char)
    ensures
        l == lower(c),
{
    if 'A' <= c && c <= 'Z' {
        ((c as u8) + 32) as char
    } else {
        c
    }
}

/// The characters of `s`, ASCII letters in lower case.
pub(crate) fn lower_chars(s: &str) -> (chars: Vec<char>)
    ensures
        chars@ == lowered(s@),
{
    let plain = chars_of(s);
    let mut chars: Vec<char> = Vec::new();
    let mut i: usize = 0;
    while i < plain.len()
        invariant
            i <= plain@.len(),
            plain@ == s@,
            chars@ == lowered(s@).take(i as int),
        decreases plain@.len() - i,
    {
        chars.push(lower_char(plain[i]));
        i = i + 1;
        assert(chars@ =~= lowered(s@).take(i as int));
    }
    assert(chars@ =~= lowered(s@));
    chars
}

/// Whether two texts are the same once their ASCII letters are in lower case.
pub(crate) fn same_ignoring_case(a: &str, b: &str) -> (equal: bool)
    ensures
        equal == (lowered(a@) == lowered(b@)),
{
    let x = lower_chars(a);
    let y = lower_chars(b);
    same_chars(x.as_slice(), y.as_slice())
}

/// Whether two character slices are the same.
pub(crate) fn same_chars(x: &[char], y: &[char]) -> (equal: bool)
    ensures
        equal == (x@ == y@),
{
    if x.len() != y.len() {
        return false;
    }
    let mut i: usize = 0;
    while i < x.len()
        invariant
            i <= x@.len(),
            x@.len() == y@.len(),
            x@.take(i as int) =~= y@.take(i as int),
        decreases x@.len() - i,
    {
        if x[i] != y[i] {
            assert(x@[i as int] != y@[i as int]);
            return false;
        }
        i = i + 1;
        assert(x@.take(i as int) =~= x@.take(i - 1).push(x@[i - 1]));
        assert(y@.take(i as int) =~= y@.take(i - 1).push(y@[i - 1]));
    }
    assert(x@.take(i as int) =~= x@);
    assert(y@.take(i as int) =~= y@);
    true
}

/// Whether `s` begins with `prefix`.
pub open spec fn has_prefix(s: Seq<char>, prefix: Seq<char>) -> bool {
    prefix.len() <= s.len() && s.take(prefix.len() as int) == prefix
}

/// The decimal digit `d`.
pub open spec fn digit(d: nat) -> char {
    (48 + d) as u8 as char
}

/// The decimal digits of `n`, without leading zeros.
pub open spec fn decimal_digits(n: nat) -> Seq<char>
    decreases n,
{
    if n < 10 {
        seq![digit(n)]
    } else {
        decimal_digits(n / 10).push(digit(n % 10))
    }
}

fn decimal_chars(n: u64) -> (chars: Vec<char>)
    ensures
        chars@ == decimal_digits(n as nat),
    decreases n,
{
    if n < 10 {
        let chars: Vec<char> = vec![((48 + n) as u8) as char];
        assert(chars@ =~= seq![digit(n as nat)]);
        chars
    } else {
        let mut chars = decimal_chars(n / 10);
        chars.push(((48 + n % 10) as u8) as char);
        chars
    }
}

/// Writes `n` in decimal.
pub(crate) fn decimal(n: u64) -> (s: String)
    ensures
        s@ == decimal_digits(n as nat),
{
    string_of(decimal_chars(n).as_slice())
}

/// The decimal digits of `n`, with a minus sign before those of a negative number.
pub open spec fn signed_digits(n: int) -> Seq<char> {
    if n < 0 {
        "-"@ + decimal_digits((-n) as nat)
    } else {
        decimal_digits(n as nat)
    }
}

/// Writes `n` in decimal, with its sign if it is negative.
pub(crate) fn signed_decimal(n: i32) -> (s: String)
    ensures
        s@ == signed_digits(n as int),
{
    if n < 0 {
        let mut s = String::from_str("-");
        s.append(decimal((-(n as i64)) as u64).as_str());
        s
    } else {
        decimal(n as u64)
    }
}

/// A text in the form of a string literal: in quotes, with escapes where needed.
pub uninterp spec fn literal_text(text: Seq<char>) -> Seq<char>;

/// Calls the `Debug` formatter of `str`, which quotes and escapes the text. The result
/// is a function of the text alone; how each character is escaped is left unsaid.
#[verifier::external_body]
pub(crate) fn quote(text: &str) -> (quoted: String)
    ensures
        quoted@ == literal_text(text@),
{
    format!("{text:?}")
}

/// Whether `c` is a decimal digit.
pub open spec fn is_digit(c: char) -> bool {
    '0' <= c <= '9'
}

/// The number that the decimal digits `s` stand for.
pub open spec fn digits_value(s: Seq<char>) -> nat
    decreases s.len(),
{
    if s.len() == 0 {
        0
    } else {
        (digits_value(s.drop_last()) * 10 + (s.last() as u32 - 48)) as nat
    }
}

/// The digits of a number that may carry a plus sign.
pub open spec fn unsigned_digits(s: Seq<char>) -> Seq<char> {
    if s.len() > 0 && s[0] == '+' {
        s.drop_first()
    } else {
        s
    }
}

/// The unsigned number that `s` stands for: at least one decimal digit, a plus
/// sign before them or not, nothing else, and a value that fits in 64 bits.
pub open spec fn parsed_number(s: Seq<char>) -> Option<u64> {
    let digits = unsigned_digits(s);
    if digits.len() > 0 && (forall|i: int| 0 <= i < digits.len() ==> is_digit(#[trigger] digits[i]))
        && digits_value(digits) <= u64::MAX {
        Some(digits_value(digits) as u64)
    } else {
        None
    }
}

proof fn lemma_digits_value_grows(s: Seq<char>, n: int)
    requires
        0 <= n <= s.len(),
        forall|i: int| 0 <= i < s.len() ==> is_digit(#[trigger] s[i]),
    ensures
        digits_value(s.take(n)) <= digits_value(s),
    decreases s.len() - n,
{
    if n < s.len() {
        lemma_digits_value_grows(s, n + 1);
        assert(s.take(n + 1).drop_last() =~= s.take(n));
        assert(is_digit(s[n]));
    } else {
        assert(s.take(n) =~= s);
    }
}

/// Parses an unsigned decimal number.
pub(crate) fn parse_number(s: &[char]) -> (value: Option<u64>)
    ensures
        value == parsed_number(s@),
{
    let start: usize = if s.len() > 0 && s[0] == '+' {
        1
    } else {
        0
    };
    let ghost digits = unsigned_digits(s@);
    assert(digits =~= s@.subrange(start as int, s@.len() as int));
    if start == s.len() {
        return None;
    }
    let mut value: u64 = 0;
    let mut i: usize = start;
    while i < s.len()
        invariant
            start <= i <= s@.len(),
            start < s@.len(),
            digits == s@.subrange(start as int, s@.len() as int),
            digits == unsigned_digits(s@),
            forall|k: int| 0 <= k < i - start ==> is_digit(#[trigger] digits[k]),
            value == digits_value(digits.take(i - start)),
        decreases s@.len() - i,
    {
        let c: char = s[i];
        assert(c == digits[i - start]);
        if !('0' <= c && c <= '9') {
            assert(!is_digit(digits[i - start]));
            return None;
        }
        let d: u64 = (c as u8 - 48) as u64;
        assert(digits.take(i - start + 1).drop_last() =~= digits.take(i - start));
        let scaled: Option<u64> = value.checked_mul(10);
        let next: Option<u64> = match scaled {
            Some(m) => m.checked_add(d),
            None => None,
        };
        match next {
            Some(v) => {
                value = v;
            },
            None => {
                proof {
                    if forall|k: int| 0 <= k < digits.len() ==> is_digit(#[trigger] digits[k]) {
                        lemma_digits_value_grows(digits, i - start + 1);
                    }
                }
                return None;
            },
        }
        i = i + 1;
    }
    assert(digits.take(i - start) =~= digits);
    Some(value)
}

/// Where the decimal digits end that start at `from`.
pub open spec fn digits_end(s: Seq<char>, from: int) -> int
    decreases s.len() - from,
{
    if 0 <= from < s.len() && is_digit(s[from]) {
        digits_end(s, from + 1)
    } else {
        from
    }
}

/// The digits that `s` starts with, a plus sign before them or not, are already more
/// than 64 bits hold, whatever follows them.
pub open spec fn overflows(s: Seq<char>) -> bool {
    let digits = unsigned_digits(s);
    digits_value(digits.take(digits_end(digits, 0))) > u64::MAX
}

proof fn lemma_digits_end(s: Seq<char>, from: int)
    requires
        0 <= from <= s.len(),
    ensures
        from <= digits_end(s, from) <= s.len(),
        forall|k: int| from <= k < digits_end(s, from) ==> is_digit(#[trigger] s[k]),
    decreases s.len() - from,
{
    if from < s.len() && is_digit(s[from]) {
        lemma_digits_end(s, from + 1);
    }
}

/// Tells whether the digits that `s` starts with are more than 64 bits hold.
pub(crate) fn number_overflows(s: &[char]) -> (too_large: bool)
    ensures
        too_large == overflows(s@),
{
    let start: usize = if s.len() > 0 && s[0] == '+' {
        1
    } else {
        0
    };
    let ghost digits = unsigned_digits(s@);
    let ghost end = digits_end(digits, 0);
    assert(digits =~= s@.subrange(start as int, s@.len() as int));
    proof {
        lemma_digits_end(digits, 0);
    }
    let mut value: u64 = 0;
    let mut i: usize = start;
    while i < s.len() && '0' <= s[i] && s[i] <= '9'
        invariant
            start <= i <= s@.len(),
            digits == s@.subrange(start as int, s@.len() as int),
            digits == unsigned_digits(s@),
            end == digits_end(digits, 0),
            end == digits_end(digits, i - start),
            0 <= end <= digits.len(),
            forall|k: int| 0 <= k < end ==> is_digit(#[trigger] digits[k]),
            value == digits_value(digits.take(i - start)),
        decreases s@.len() - i,
    {
        let ghost at = i - start;
        assert(s@[i as int] == digits[at]);
        let d: u64 = (s[i] as u8 - 48) as u64;
        proof {
            lemma_digits_end(digits, at + 1);
        }
        assert(digits.take(at + 1).drop_last() =~= digits.take(at));
        let next: Option<u64> = match value.checked_mul(10) {
            Some(scaled) => scaled.checked_add(d),
            None => None,
        };
        match next {
            Some(v) => {
                value = v;
            },
            None => {
                proof {
                    let run = digits.take(end);
                    lemma_digits_value_grows(run, at + 1);
                    assert(run.take(at + 1) =~= digits.take(at + 1));
                }
                return true;
            },
        }
        i = i + 1;
    }
    assert(i < s@.len() ==> s@[i as int] == digits[i - start]);
    false
}

/// Printing a number and parsing what was printed gives the number back.
pub proof fn lemma_decimal_round_trip(n: u64)
    ensures
        parsed_number(decimal_digits(n as nat)) == Some(n),
{
    lemma_decimal_digits(n as nat);
}

/// The digits of a number are digits, at least one, and stand for it.
pub proof fn lemma_decimal_digits(n: nat)
    ensures
        decimal_digits(n).len() > 0,
        forall|i: int| 0 <= i < decimal_digits(n).len() ==> is_digit(#[trigger] decimal_digits(n)[i]),
        digits_value(decimal_digits(n)) == n,
    decreases n,
{
    if n < 10 {
        assert(seq![digit(n)].drop_last() =~= Seq::<char>::empty());
        reveal_with_fuel(digits_value, 2);
    } else {
        lemma_decimal_digits(n / 10);
        let shorter = decimal_digits(n / 10);
        assert(shorter.push(digit(n % 10)).drop_last() =~= shorter);
    }
}

/// The text of an optional string.
pub open spec fn text_of(s: Option<String>) -> Option<Seq<char>> {
    match s {
        Some(t) => Some(t@),
        None => None,
    }
}

/// The text of an optional string slice.
pub open spec fn slice_text_of(s: Option<&str>) -> Option<Seq<char>> {
    match s {
        Some(t) => Some(t@),
        None => None,
    }
}

/// The texts in a list.
pub open spec fn texts(list: Seq<String>) -> Seq<Seq<char>> {
    list.map_values(|s: String| s@)
}

/// A value without the white space around it; none if that leaves nothing.
pub open spec fn unless_blank(value: Option<Seq<char>>) -> Option<Seq<char>> {
    match value {
        Some(text) if trimmed(text).len() > 0 => Some(trimmed(text)),
        _ => None,
    }
}

/// A value without the white space around it; none if that leaves nothing, or the
/// word "none" in any case.
pub open spec fn unless_none(value: Option<Seq<char>>) -> Option<Seq<char>> {
    match value {
        Some(text) if trimmed(text).len() > 0 && lowered(trimmed(text)) != "none"@ => Some(trimmed(text)),
        _ => None,
    }
}

/// Trims a value and drops a blank one.
pub(crate) fn keep_unless_blank(value: Option<&str>) -> (kept: Option<String>)
    ensures
        text_of(kept) == unless_blank(slice_text_of(value)),
{
    match value {
        None => None,
        Some(text) => {
            let rest = trim(text);
            if rest.is_empty() {
                None
            } else {
                Some(rest.to_owned())
            }
        },
    }
}

/// Trims a value and drops a blank one and one that says "none".
pub(crate) fn keep_unless_none(value: Option<&str>) -> (kept: Option<String>)
    ensures
        text_of(kept) == unless_none(slice_text_of(value)),
{
    match value {
        None => None,
        Some(text) => {
            let rest = trim(text);
            proof {
                reveal_strlit("none");
                assert(lowered("none"@) =~= "none"@);
            }
            if rest.is_empty() || same_ignoring_case(rest, "none") {
                None
            } else {
                Some(rest.to_owned())
            }
        },
    }
}

/// Copies an optional string.
pub(crate) fn copy_text(value: &Option<String>) -> (copy: Option<String>)
    ensures
        copy == *value,
{
    match value {
        Some(text) => Some(text.clone()),
        None => None,
    }
}

/// Borrows an optional string.
pub(crate) fn borrow_text(value: &Option<String>) -> (slice: Option<&str>)
    ensures
        slice_text_of(slice) == text_of(*value),
{
    match value {
        Some(text) => Some(text.as_str()),
        None => None,
    }
}

/// Dropping what was dropped changes nothing.
pub proof fn lemma_cleaning_is_idempotent(value: Option<Seq<char>>)
    ensures
        unless_blank(unless_blank(value)) == unless_blank(value),
        unless_none(unless_none(value)) == unless_none(value),
{
    if value is Some {
        lemma_trimmed_is_trimmed(value->Some_0);
    }
}

proof fn lemma_trimmed_start_is_suffix(s: Seq<char>) -> (from: int)
    ensures
        0 <= from <= s.len(),
        trimmed_start(s) == s.skip(from),
        forall|k: int| 0 <= k < from ==> is_white_space(#[trigger] s[k]),
    decreases s.len(),
{
    if s.len() > 0 && is_white_space(s[0]) {
        let rest = s.drop_first();
        let from = lemma_trimmed_start_is_suffix(rest);
        assert(rest.skip(from) =~= s.skip(from + 1));
        assert forall|k: int| 0 <= k < from + 1 implies is_white_space(#[trigger] s[k]) by {
            if k > 0 {
                assert(is_white_space(rest[k - 1]));
            }
        }
        from + 1
    } else {
        assert(s.skip(0) =~= s);
        0
    }
}

proof fn lemma_trimmed_end_drops_white_space(s: Seq<char>, k: int)
    requires
        trimmed_end(s).len() <= k < s.len(),
    ensures
        is_white_space(s[k]),
    decreases s.len(),
{
    if s.len() > 0 && is_white_space(s.last()) && k < s.len() - 1 {
        lemma_trimmed_end_drops_white_space(s.drop_last(), k);
    }
}

/// Trimming keeps one stretch of a text: what is before it and after it is white space,
/// and it neither starts nor ends with any.
pub proof fn law_trimming_drops_only_white_space(s: Seq<char>) -> (part: (int, int))
    ensures
        0 <= part.0 <= part.1 <= s.len(),
        trimmed(s) == s.subrange(part.0, part.1),
        forall|k: int| 0 <= k < part.0 || part.1 <= k < s.len() ==> is_white_space(#[trigger] s[k]),
        part.0 < part.1 ==> !is_white_space(s[part.0]) && !is_white_space(s[part.1 - 1]),
{
    let from = lemma_trimmed_start_is_suffix(s);
    let start = trimmed_start(s);
    lemma_trimmed_start(s);
    lemma_trimmed_end(start);
    let to = from + trimmed_end(start).len();
    assert(trimmed(s) =~= s.subrange(from, to));
    assert forall|k: int| 0 <= k < from || to <= k < s.len() implies is_white_space(#[trigger] s[k]) by {
        if k >= from {
            lemma_trimmed_end_drops_white_space(start, k - from);
            assert(start[k - from] == s[k]);
        }
    }
    if from < to {
        assert(start[0] == s[from]);
        assert(trimmed_end(start).last() == s[to - 1]);
    }
    (from, to)
}

/// Of the ASCII characters, the blank, the tab, the line feed, the vertical tab, the form
/// feed and the carriage return are white space, and no other.
pub proof fn law_ascii_white_space(c: char)
    requires
        c <= '\u{7f}',
    ensures
        is_white_space(c) <==> c == ' ' || c == '\t' || c == '\n' || c == '\u{b}' || c == '\u{c}' || c == '\r',
{
}

/// Lower case changes ASCII capitals, each to its small letter, and nothing else.
pub proof fn law_lower_case(s: Seq<char>, i: int)
    requires
        0 <= i < s.len(),
    ensures
        lowered(s).len() == s.len(),
        'A' <= s[i] <= 'Z' ==> lowered(s)[i] as int - 'a' as int == s[i] as int - 'A' as int,
        !('A' <= s[i] <= 'Z') ==> lowered(s)[i] == s[i],
        lowered(lowered(s)) == lowered(s),
{
    assert(lowered(lowered(s)) =~= lowered(s));
}

/// A value is kept, trimmed, unless it is blank; where `none` counts as none, also unless
/// it says that, in any case.
pub proof fn law_what_counts_as_none(value: Seq<char>)
    ensures
        unless_blank(None) is None,
        unless_none(None) is None,
        trimmed(value).len() == 0 ==> unless_blank(Some(value)) is None && unless_none(Some(value)) is None,
        trimmed(value).len() > 0 ==> unless_blank(Some(value)) == Some(trimmed(value)),
        trimmed(value).len() > 0 && lowered(trimmed(value)) != "none"@ ==> unless_none(Some(value)) == Some(
            trimmed(value),
        ),
        lowered(trimmed(value)) == "none"@ ==> unless_none(Some(value)) is None,
{
}

/// The decimal digits of a number are digits that stand for it, without a leading zero.
pub proof fn law_decimal_digits_stand_for_the_number(n: nat)
    ensures
        decimal_digits(n).len() > 0,
        forall|i: int| 0 <= i < decimal_digits(n).len() ==> '0' <= #[trigger] decimal_digits(n)[i] <= '9',
        digits_value(decimal_digits(n)) == n,
        n > 0 ==> decimal_digits(n)[0] != '0',
    decreases n,
{
    lemma_decimal_digits(n);
    assert forall|i: int| 0 <= i < decimal_digits(n).len() implies '0' <= #[trigger] decimal_digits(n)[i]
        <= '9' by {
        assert(is_digit(decimal_digits(n)[i]));
    }
    if n >= 10 {
        law_decimal_digits_stand_for_the_number(n / 10);
    }
}

/// Each further digit makes a number ten times as large and adds itself.
pub proof fn law_digits_are_decimal(s: Seq<char>, d: char)
    requires
        '0' <= d <= '9',
    ensures
        digits_value(seq![]) == 0,
        digits_value(s.push(d)) == 10 * digits_value(s) + (d as int - '0' as int),
{
    assert(s.push(d).drop_last() =~= s);
}

/// A text is a number exactly if it is one or more digits, with a plus sign or without,
/// and the number fits in 64 bits.
pub proof fn law_what_is_a_number(digits: Seq<char>)
    requires
        forall|i: int| 0 <= i < digits.len() ==> '0' <= #[trigger] digits[i] <= '9',
        digits.len() > 0,
    ensures
        digits_value(digits) <= u64::MAX ==> parsed_number(digits) == Some(digits_value(digits) as u64)
            && parsed_number(seq!['+'] + digits) == Some(digits_value(digits) as u64),
        digits_value(digits) > u64::MAX ==> parsed_number(digits) is None && parsed_number(seq!['+'] + digits)
            is None,
        parsed_number(seq![]) is None,
{
    assert(digits[0] != '+');
    assert((seq!['+'] + digits).drop_first() =~= digits);
    assert forall|i: int| 0 <= i < digits.len() implies is_digit(#[trigger] digits[i]) by {}
}

/// A text with a character that is no digit, other than a plus sign at its start, is no
/// number.
pub proof fn law_what_is_no_number(s: Seq<char>, k: int)
    requires
        0 <= k < s.len(),
        !('0' <= s[k] <= '9'),
        k > 0 || s[k] != '+',
    ensures
        parsed_number(s) is None,
{
    let digits = unsigned_digits(s);
    if s[0] == '+' {
        assert(digits[k - 1] == s[k]);
        assert(!is_digit(digits[k - 1]));
    } else {
        assert(!is_digit(digits[k]));
    }
}

/// A text has a prefix exactly if it is the prefix and something more or nothing.
pub proof fn law_prefix(s: Seq<char>, prefix: Seq<char>, rest: Seq<char>)
    ensures
        has_prefix(prefix + rest, prefix),
        has_prefix(s, prefix) ==> s == prefix + s.skip(prefix.len() as int),
{
    assert((prefix + rest).take(prefix.len() as int) =~= prefix);
    if has_prefix(s, prefix) {
        assert(s =~= prefix + s.skip(prefix.len() as int));
    }
}

/// A number with a sign is its digits, after a hyphen if it is negative.
pub proof fn law_signed_numbers(n: int)
    ensures
        n >= 0 ==> signed_digits(n) == decimal_digits(n as nat),
        n < 0 ==> signed_digits(n) == "-"@ + decimal_digits((-n) as nat),
{
}

} // verus!
