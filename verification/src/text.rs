//! Text and number rules shared by the rest of the crate: header values as
//! text, decimal lengths, case-insensitive names.

use vstd::prelude::*;
use vstd::string::*;
use vstd::arithmetic::power::pow;

verus! {

/// `std::string::String::push` appends the character it is given.
pub assume_specification[ String::push ](s: &mut String, c: char)
    ensures
        final(s)@ == old(s)@.push(c),
;

/// The texts of a list of strings.
pub open spec fn texts(list: Seq<String>) -> Seq<Seq<char>> {
    list.map_values(|s: String| s@)
}

/// The texts of a list of name and value pairs.
pub open spec fn text_pairs(list: Seq<(String, String)>) -> Seq<(Seq<char>, Seq<char>)> {
    list.map_values(|p: (String, String)| (p.0@, p.1@))
}

/// The text of an optional string.
pub open spec fn opt_text(s: Option<String>) -> Option<Seq<char>> {
    match s {
        Some(t) => Some(t@),
        None => None,
    }
}

/// A byte that a header value may hold and still be read as text: visible
/// ASCII, the space and the tab.
pub open spec fn is_visible(b: u8) -> bool {
    32 <= b < 127 || b == 9
}

/// Every byte can be read as text.
pub open spec fn all_visible(value: Seq<u8>) -> bool {
    forall|i: int| 0 <= i < value.len() ==> is_visible(#[trigger] value[i])
}

/// A header value as text, if all of it is visible ASCII.
pub open spec fn field_text(value: Seq<u8>) -> Option<Seq<char>> {
    if all_visible(value) {
        Some(value.map_values(|b: u8| b as char))
    } else {
        None
    }
}

/// Blank characters of visible text.
pub open spec fn is_blank(b: u8) -> bool {
    b == 32 || b == 9
}

pub open spec fn is_digit(b: u8) -> bool {
    48 <= b <= 57
}

pub open spec fn all_digits(s: Seq<u8>) -> bool {
    forall|i: int| 0 <= i < s.len() ==> is_digit(#[trigger] s[i])
}

/// The text without its leading blanks.
pub open spec fn trim_front(s: Seq<u8>) -> Seq<u8>
    decreases s.len(),
{
    if s.len() > 0 && is_blank(s[0]) {
        trim_front(s.skip(1))
    } else {
        s
    }
}

/// The text without its trailing blanks.
pub open spec fn trim_back(s: Seq<u8>) -> Seq<u8>
    decreases s.len(),
{
    if s.len() > 0 && is_blank(s.last()) {
        trim_back(s.drop_last())
    } else {
        s
    }
}

/// The number that a run of decimal digits writes.
pub open spec fn decimal(s: Seq<u8>) -> nat
    decreases s.len(),
{
    if s.len() == 0 {
        0
    } else {
        decimal(s.drop_last()) * 10 + (s.last() - 48) as nat
    }
}

/// The digits behind an optional plus sign.
pub open spec fn unsigned_digits(s: Seq<u8>) -> Seq<u8> {
    if s.len() > 0 && s[0] == 43 {
        s.skip(1)
    } else {
        s
    }
}

/// The 64-bit number that a text writes: an optional plus sign, then one or
/// more digits and nothing else.
pub open spec fn number(s: Seq<u8>) -> Option<u64> {
    let digits = unsigned_digits(s);
    if digits.len() > 0 && all_digits(digits) && decimal(digits) <= u64::MAX {
        Some(decimal(digits) as u64)
    } else {
        None
    }
}

/// The length that a header value declares, blanks around it ignored.
pub open spec fn declared_length(value: Seq<u8>) -> Option<u64> {
    if all_visible(value) {
        number(trim_back(trim_front(value)))
    } else {
        None
    }
}

/// How many characters a number takes in decimal.
pub open spec fn decimal_width(n: nat) -> nat
    decreases n,
{
    if n < 10 {
        1
    } else {
        1 + decimal_width(n / 10)
    }
}

/// The code of a character, upper-case ASCII letters taken as lower-case.
pub open spec fn folded(c: char) -> int {
    if 'A' <= c <= 'Z' {
        c as int + 32
    } else {
        c as int
    }
}

/// Equality that takes ASCII letters of either case as the same.
pub open spec fn same_ignoring_case(a: Seq<char>, b: Seq<char>) -> bool {
    a.len() == b.len() && forall|i: int| 0 <= i < a.len() ==> folded(#[trigger] a[i]) == folded(b[i])
}

/// The characters that names and methods of the protocol are made of.
pub open spec fn is_token_char(c: char) -> bool {
    ||| 'A' <= c <= 'Z'
    ||| 'a' <= c <= 'z'
    ||| '0' <= c <= '9'
    ||| c == '!' || c == '#' || c == '$' || c == '%' || c == '&' || c == '\'' || c == '*' || c == '+'
    ||| c == '-' || c == '.' || c == '^' || c == '_' || c == '`' || c == '|' || c == '~'
}

/// One or more of those characters and nothing else.
pub open spec fn is_token(text: Seq<char>) -> bool {
    text.len() > 0 && forall|i: int| 0 <= i < text.len() ==> is_token_char(#[trigger] text[i])
}

/// Reads a header value as text: `None` if a byte of it is not visible ASCII.
pub fn field_value_text(value: &[u8]) -> (text: Option<String>)
    ensures
        opt_text(text) == field_text(value@),
{
    let mut text = String::new();
    let mut i: usize = 0;
    while i < value.len()
        invariant
            i <= value@.len(),
            forall|j: int| 0 <= j < i ==> is_visible(#[trigger] value@[j]),
            text@ == value@.take(i as int).map_values(|b: u8| b as char),
        decreases value@.len() - i,
    {
        let b: u8 = value[i];
        if !((32 <= b && b < 127) || b == 9) {
            assert(!is_visible(value@[i as int]));
            return None;
        }
        text.push(b as char);
        i = i + 1;
        assert(text@ =~= value@.take(i as int).map_values(|b: u8| b as char));
    }
    assert(value@.take(i as int) =~= value@);
    Some(text)
}

proof fn lemma_decimal_prefix_small(s: Seq<u8>, n: int)
    requires
        all_digits(s),
        0 <= n <= s.len(),
    ensures
        decimal(s.take(n)) <= decimal(s),
    decreases s.len() - n,
{
    if n < s.len() {
        lemma_decimal_prefix_small(s, n + 1);
        assert(s.take(n + 1).drop_last() =~= s.take(n));
        assert(is_digit(s[n]));
    } else {
        assert(s.take(n) =~= s);
    }
}

/// Reads a 64-bit decimal number from a part of `bytes`.
fn parse_number(bytes: &[u8], from: usize, to: usize) -> (n: Option<u64>)
    requires
        from <= to <= bytes@.len(),
    ensures
        n == number(bytes@.subrange(from as int, to as int)),
{
    let ghost whole = bytes@.subrange(from as int, to as int);
    let mut start: usize = from;
    if start < to && bytes[start] == 43 {
        start = start + 1;
    }
    let ghost digits = unsigned_digits(whole);
    assert(digits =~= bytes@.subrange(start as int, to as int));
    if start == to {
        return None;
    }
    let mut value: u64 = 0;
    let mut i: usize = start;
    assert(digits.take(0) =~= Seq::<u8>::empty());
    while i < to
        invariant
            start <= i <= to <= bytes@.len(),
            digits == bytes@.subrange(start as int, to as int),
            whole == bytes@.subrange(from as int, to as int),
            digits == unsigned_digits(whole),
            forall|j: int| 0 <= j < i - start ==> is_digit(#[trigger] digits[j]),
            value == decimal(digits.take(i - start)),
        decreases to - i,
    {
        let b: u8 = bytes[i];
        assert(digits[i - start] == b);
        if b < 48 || b > 57 {
            assert(!is_digit(digits[i - start]));
            return None;
        }
        assert(digits.take(i - start + 1).drop_last() =~= digits.take(i - start));
        let step: Option<u64> = match value.checked_mul(10) {
            Some(tens) => tens.checked_add((b - 48) as u64),
            None => None,
        };
        match step {
            Some(next) => {
                value = next;
            },
            None => {
                proof {
                    if all_digits(digits) {
                        lemma_decimal_prefix_small(digits, i - start + 1);
                    }
                }
                return None;
            },
        }
        i = i + 1;
    }
    assert(digits.take(i - start) =~= digits);
    Some(value)
}

/// Reads the length that a header value declares.
pub fn parse_declared_length(value: &[u8]) -> (n: Option<u64>)
    ensures
        n == declared_length(value@),
{
    let mut i: usize = 0;
    while i < value.len()
        invariant
            i <= value@.len(),
            forall|j: int| 0 <= j < i ==> is_visible(#[trigger] value@[j]),
        decreases value@.len() - i,
    {
        let b: u8 = value[i];
        if !((32 <= b && b < 127) || b == 9) {
            assert(!is_visible(value@[i as int]));
            return None;
        }
        i = i + 1;
    }
    let mut from: usize = 0;
    assert(value@.skip(0) =~= value@);
    while from < value.len() && (value[from] == 32 || value[from] == 9)
        invariant
            from <= value@.len(),
            trim_front(value@.skip(from as int)) == trim_front(value@),
        decreases value@.len() - from,
    {
        assert(value@.skip(from as int).skip(1) =~= value@.skip(from + 1));
        from = from + 1;
    }
    assert(trim_front(value@) == value@.skip(from as int));
    let mut to: usize = value.len();
    assert(value@.subrange(from as int, to as int) =~= value@.skip(from as int));
    while from < to && (value[to - 1] == 32 || value[to - 1] == 9)
        invariant
            from <= to <= value@.len(),
            trim_back(value@.subrange(from as int, to as int)) == trim_back(value@.skip(from as int)),
        decreases to - from,
    {
        assert(value@.subrange(from as int, to as int).drop_last() =~= value@.subrange(
            from as int,
            to - 1,
        ));
        to = to - 1;
    }
    parse_number(value, from, to)
}

proof fn lemma_decimal_width_bound(n: nat)
    ensures
        decimal_width(n) <= n || n == 0,
    decreases n,
{
    if n >= 10 {
        lemma_decimal_width_bound(n / 10);
    }
}

/// Counts the characters of a number written in decimal.
pub fn decimal_len(n: u64) -> (width: u64)
    ensures
        width == decimal_width(n as nat),
{
    let mut rest: u64 = n;
    let mut width: u64 = 1;
    proof {
        lemma_decimal_width_bound(n as nat);
    }
    while rest >= 10
        invariant
            width + decimal_width(rest as nat) == 1 + decimal_width(n as nat),
            decimal_width(n as nat) <= u64::MAX,
        decreases rest,
    {
        rest = rest / 10;
        assert(decimal_width(rest as nat) >= 1);
        width = width + 1;
    }
    width
}

/// Compares two texts, ASCII letters of either case taken as the same.
pub fn eq_ignore_ascii_case(a: &str, b: &str) -> (same: bool)
    ensures
        same == same_ignoring_case(a@, b@),
{
    let n: usize = a.unicode_len();
    if n != b.unicode_len() {
        return false;
    }
    let mut i: usize = 0;
    while i < n
        invariant
            i <= n,
            n == a@.len(),
            n == b@.len(),
            forall|j: int| 0 <= j < i ==> folded(#[trigger] a@[j]) == folded(b@[j]),
        decreases n - i,
    {
        if fold(a.get_char(i)) != fold(b.get_char(i)) {
            return false;
        }
        i = i + 1;
    }
    true
}

fn fold(c: char) -> (code: u32)
    ensures
        code == folded(c),
{
    if 'A' <= c && c <= 'Z' {
        c as u32 + 32
    } else {
        c as u32
    }
}

/// Compares two texts.
pub fn same_text(a: &str, b: &str) -> (same: bool)
    ensures
        same == (a@ == b@),
{
    a.to_owned() == b.to_owned()
}

/// The text spells the bytes: each is a printable character of ASCII or a tab,
/// and stands for itself.
pub open spec fn spells(text: Seq<char>, value: Seq<u8>) -> bool {
    &&& text.len() == value.len()
    &&& forall|i: int|
        0 <= i < value.len() ==> (0x20 <= #[trigger] value[i] <= 0x7e || value[i] == 0x09) && text[i]
            as int == value[i]
}

/// A header value is read as the text that spells it, and cannot be read where
/// no text does.
pub proof fn law_values_are_read_as_spelled(value: Seq<u8>, text: Seq<char>)
    ensures
        field_text(value) == Some(text) <==> spells(text, value),
        field_text(value) is Some <==> forall|i: int|
            0 <= i < value.len() ==> 0x20 <= #[trigger] value[i] <= 0x7e || value[i] == 0x09,
{
    let read = value.map_values(|b: u8| b as char);
    if spells(text, value) {
        assert(all_visible(value));
        assert(read =~= text);
    }
    if field_text(value) is Some {
        assert forall|i: int| 0 <= i < value.len() implies 0x20 <= #[trigger] value[i] <= 0x7e
            || value[i] == 0x09 by {
            assert(is_visible(value[i]));
        }
    }
    if forall|i: int|
        0 <= i < value.len() ==> 0x20 <= #[trigger] value[i] <= 0x7e || value[i] == 0x09 {
        assert(all_visible(value));
    }
}

/// Nothing but spaces and tabs.
pub open spec fn is_padding(s: Seq<u8>) -> bool {
    forall|i: int| 0 <= i < s.len() ==> #[trigger] s[i] == 0x20 || s[i] == 0x09
}

/// Digits, one at least.
pub open spec fn is_numeral(s: Seq<u8>) -> bool {
    s.len() > 0 && forall|i: int| 0 <= i < s.len() ==> 0x30 <= #[trigger] s[i] <= 0x39
}

/// A plus sign or nothing.
pub open spec fn is_sign(s: Seq<u8>) -> bool {
    s.len() == 0 || s == seq![0x2bu8]
}

proof fn lemma_trim_front(pad: Seq<u8>, s: Seq<u8>)
    requires
        is_padding(pad),
        s.len() > 0,
        !is_blank(s[0]),
    ensures
        trim_front(pad + s) == s,
    decreases pad.len(),
{
    if pad.len() > 0 {
        assert((pad + s)[0] == pad[0]);
        assert((pad + s).skip(1) =~= pad.skip(1) + s);
        assert forall|i: int| 0 <= i < pad.skip(1).len() implies #[trigger] pad.skip(1)[i] == 0x20
            || pad.skip(1)[i] == 0x09 by {
            assert(pad.skip(1)[i] == pad[i + 1]);
        }
        lemma_trim_front(pad.skip(1), s);
    } else {
        assert(pad + s =~= s);
    }
}

proof fn lemma_trim_back(s: Seq<u8>, pad: Seq<u8>)
    requires
        is_padding(pad),
        s.len() > 0,
        !is_blank(s.last()),
    ensures
        trim_back(s + pad) == s,
    decreases pad.len(),
{
    if pad.len() > 0 {
        assert((s + pad).last() == pad[pad.len() - 1]);
        assert((s + pad).drop_last() =~= s + pad.drop_last());
        assert forall|i: int| 0 <= i < pad.drop_last().len() implies #[trigger] pad.drop_last()[i]
            == 0x20 || pad.drop_last()[i] == 0x09 by {
            assert(pad.drop_last()[i] == pad[i]);
        }
        lemma_trim_back(s, pad.drop_last());
    } else {
        assert(s + pad =~= s);
    }
}

/// A declared length is a numeral, with or without a plus sign before it and
/// with any padding around the two: it is the number that the numeral writes,
/// where 64 bits can hold that number.
pub proof fn law_padded_numerals_are_lengths(
    front: Seq<u8>,
    sign: Seq<u8>,
    numeral: Seq<u8>,
    back: Seq<u8>,
)
    requires
        is_padding(front),
        is_sign(sign),
        is_numeral(numeral),
        is_padding(back),
    ensures
        decimal(numeral) <= u64::MAX ==> declared_length(front + sign + numeral + back) == Some(
            decimal(numeral) as u64,
        ),
        decimal(numeral) > u64::MAX ==> declared_length(front + sign + numeral + back) is None,
{
    let value = front + sign + numeral + back;
    let core = sign + numeral;
    assert forall|i: int| 0 <= i < value.len() implies is_visible(#[trigger] value[i]) by {
        if i < front.len() {
            assert(value[i] == front[i]);
        } else if i < front.len() + sign.len() {
            assert(value[i] == sign[i - front.len()]);
        } else if i < front.len() + sign.len() + numeral.len() {
            assert(value[i] == numeral[i - front.len() - sign.len()]);
        } else {
            assert(value[i] == back[i - front.len() - sign.len() - numeral.len()]);
        }
    }
    assert(value =~= front + (core + back));
    assert(numeral[0] >= 0x30 && numeral[numeral.len() - 1] >= 0x30);
    assert((core + back)[0] == core[0]);
    assert(core[0] == 0x2b || core[0] == numeral[0]);
    assert(core.last() == numeral[numeral.len() - 1]);
    lemma_trim_front(front, core + back);
    lemma_trim_back(core, back);
    if sign.len() == 0 {
        assert(core =~= numeral);
    } else {
        assert(core.skip(1) =~= numeral);
    }
    assert(unsigned_digits(core) == numeral);
    assert(all_digits(numeral)) by {
        assert forall|i: int| 0 <= i < numeral.len() implies is_digit(#[trigger] numeral[i]) by {}
    }
}

proof fn lemma_front_padding(s: Seq<u8>) -> (pad: Seq<u8>)
    ensures
        is_padding(pad),
        s == pad + trim_front(s),
    decreases s.len(),
{
    if s.len() > 0 && is_blank(s[0]) {
        let rest = lemma_front_padding(s.skip(1));
        let pad = seq![s[0]] + rest;
        assert forall|i: int| 0 <= i < pad.len() implies #[trigger] pad[i] == 0x20 || pad[i] == 0x09 by {
            if i > 0 {
                assert(pad[i] == rest[i - 1]);
            }
        }
        assert(s =~= seq![s[0]] + s.skip(1));
        assert(s =~= pad + trim_front(s));
        pad
    } else {
        assert(s =~= Seq::<u8>::empty() + trim_front(s));
        Seq::empty()
    }
}

proof fn lemma_back_padding(s: Seq<u8>) -> (pad: Seq<u8>)
    ensures
        is_padding(pad),
        s == trim_back(s) + pad,
    decreases s.len(),
{
    if s.len() > 0 && is_blank(s.last()) {
        let rest = lemma_back_padding(s.drop_last());
        let pad = rest.push(s.last());
        assert forall|i: int| 0 <= i < pad.len() implies #[trigger] pad[i] == 0x20 || pad[i] == 0x09 by {
            if i < rest.len() {
                assert(pad[i] == rest[i]);
            }
        }
        assert(s =~= s.drop_last().push(s.last()));
        assert(s =~= trim_back(s) + pad);
        pad
    } else {
        assert(s =~= trim_back(s) + Seq::<u8>::empty());
        Seq::empty()
    }
}

/// Nothing but such a value declares a length.
pub proof fn law_lengths_are_padded_numerals(value: Seq<u8>)
    requires
        declared_length(value) is Some,
    ensures
        exists|front: Seq<u8>, sign: Seq<u8>, numeral: Seq<u8>, back: Seq<u8>|
            is_padding(front) && is_sign(sign) && is_numeral(numeral) && is_padding(back) && value
                == #[trigger] (front + sign + numeral + back) && declared_length(value) == Some(
                decimal(numeral) as u64,
            ),
{
    let front = lemma_front_padding(value);
    let back = lemma_back_padding(trim_front(value));
    let core = trim_back(trim_front(value));
    let numeral = unsigned_digits(core);
    let sign = if core.len() > 0 && core[0] == 43 {
        seq![0x2bu8]
    } else {
        Seq::empty()
    };
    assert(core =~= sign + numeral);
    assert forall|i: int| 0 <= i < numeral.len() implies 0x30 <= #[trigger] numeral[i] <= 0x39 by {
        assert(is_digit(numeral[i]));
    }
    assert(value =~= front + sign + numeral + back);
}

/// A numeral writes a number in the decimal system: one more digit makes it ten
/// times the number and the digit.
pub proof fn law_numerals_are_decimal(numeral: Seq<u8>, digit: u8)
    requires
        0x30 <= digit <= 0x39,
    ensures
        decimal(Seq::<u8>::empty()) == 0,
        decimal(numeral.push(digit)) == 10 * decimal(numeral) + (digit - 0x30),
{
    assert(numeral.push(digit).drop_last() =~= numeral);
}

/// A number takes as many characters as powers of ten, from one on, are not
/// beyond it; zero takes one.
pub proof fn law_widths_are_powers_of_ten(n: nat)
    ensures
        decimal_width(n) >= 1,
        n < pow(10, decimal_width(n)),
        n > 0 ==> pow(10, (decimal_width(n) - 1) as nat) <= n,
        n == 0 ==> decimal_width(n) == 1,
    decreases n,
{
    reveal(pow);
    assert(pow(10, 0) == 1);
    assert(pow(10, 1) == 10 * pow(10, 0));
    if n >= 10 {
        law_widths_are_powers_of_ten(n / 10);
        let w = decimal_width(n / 10);
        assert(pow(10, w + 1) == 10 * pow(10, w));
        assert(pow(10, w) == 10 * pow(10, (w - 1) as nat));
    }
}

/// Two names are the same in whatever case they are written if and only if they
/// differ in nothing but letters of ASCII that stand in upper case in one and
/// in lower case in the other.
pub proof fn law_case_is_all_that_is_ignored(a: Seq<char>, b: Seq<char>)
    ensures
        same_ignoring_case(a, b) <==> a.len() == b.len() && forall|i: int|
            0 <= i < a.len() ==> {
                ||| #[trigger] a[i] == b[i]
                ||| 0x41 <= a[i] as int <= 0x5a && b[i] as int == a[i] as int + 0x20
                ||| 0x41 <= b[i] as int <= 0x5a && a[i] as int == b[i] as int + 0x20
            },
{
    if same_ignoring_case(a, b) {
        assert forall|i: int| 0 <= i < a.len() implies {
            ||| #[trigger] a[i] == b[i]
            ||| 0x41 <= a[i] as int <= 0x5a && b[i] as int == a[i] as int + 0x20
            ||| 0x41 <= b[i] as int <= 0x5a && a[i] as int == b[i] as int + 0x20
        } by {
            assert(folded(a[i]) == folded(b[i]));
        }
    }
}

/// The characters that separate the parts of a header field.
pub open spec fn is_delimiter(c: char) -> bool {
    ||| c == '"' || c == '(' || c == ')' || c == ',' || c == '/' || c == ':' || c == ';' || c == '<'
    ||| c == '=' || c == '>' || c == '?' || c == '@' || c == '[' || c == '\\' || c == ']' || c == '{'
    ||| c == '}'
}

/// A token is a text of visible characters of ASCII, one at least, of which none
/// is a delimiter.
pub proof fn law_tokens_hold_no_delimiters(text: Seq<char>)
    ensures
        is_token(text) <==> text.len() > 0 && forall|i: int|
            0 <= i < text.len() ==> 0x21 <= #[trigger] text[i] as int <= 0x7e && !is_delimiter(text[i]),
{
    if is_token(text) {
        assert forall|i: int| 0 <= i < text.len() implies 0x21 <= #[trigger] text[i] as int <= 0x7e
            && !is_delimiter(text[i]) by {
            assert(is_token_char(text[i]));
        }
    }
}

} // verus!
