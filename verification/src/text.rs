//! Text rendering and scanning shared by the providers: decimal and hexadecimal
//! numbers, hardware addresses, and the pieces of strings.
use vstd::prelude::*;
use vstd::string::*;

verus! {

/// `String::push` appends one character at the end of the string.
pub assume_specification[ String::push ](text: &mut String, letter: char)
    ensures
        final(text)@ == old(text)@.push(letter),
;

/// The character of one digit, lower case from ten on.
pub open spec fn digit(value: int) -> char {
    if value == 0 {
        '0'
    } else if value == 1 {
        '1'
    } else if value == 2 {
        '2'
    } else if value == 3 {
        '3'
    } else if value == 4 {
        '4'
    } else if value == 5 {
        '5'
    } else if value == 6 {
        '6'
    } else if value == 7 {
        '7'
    } else if value == 8 {
        '8'
    } else if value == 9 {
        '9'
    } else if value == 10 {
        'a'
    } else if value == 11 {
        'b'
    } else if value == 12 {
        'c'
    } else if value == 13 {
        'd'
    } else if value == 14 {
        'e'
    } else {
        'f'
    }
}

/// A number in positional notation, without leading zeros.
pub open spec fn numeral(value: nat, base: nat) -> Seq<char>
    decreases value,
{
    if base < 2 || value < base {
        seq![digit(value as int)]
    } else {
        proof {
            vstd::arithmetic::div_mod::lemma_div_decreases(value as int, base as int);
        }
        numeral(value / base, base).push(digit((value % base) as int))
    }
}

/// A number in decimal notation.
pub open spec fn decimal(value: nat) -> Seq<char> {
    numeral(value, 10)
}

/// `count` zeros.
pub open spec fn zeros(count: int) -> Seq<char> {
    Seq::new(if count < 0 { 0 } else { count as nat }, |i: int| '0')
}

/// A number in hexadecimal notation, filled with zeros to at least `width` digits.
pub open spec fn hex(value: nat, width: nat) -> Seq<char> {
    zeros(width - numeral(value, 16).len()) + numeral(value, 16)
}

/// A hardware address as colon-separated pairs of hexadecimal digits.
pub open spec fn mac_text(mac: Seq<u8>) -> Seq<char> {
    hex(mac[0] as nat, 2) + seq![':'] + hex(mac[1] as nat, 2) + seq![':'] + hex(mac[2] as nat, 2)
        + seq![':'] + hex(mac[3] as nat, 2) + seq![':'] + hex(mac[4] as nat, 2) + seq![':'] + hex(
        mac[5] as nat,
        2,
    )
}

fn digit_char(value: u64) -> (letter: char)
    requires
        value < 16,
    ensures
        letter == digit(value as int),
{
    match value {
        0 => '0',
        1 => '1',
        2 => '2',
        3 => '3',
        4 => '4',
        5 => '5',
        6 => '6',
        7 => '7',
        8 => '8',
        9 => '9',
        10 => 'a',
        11 => 'b',
        12 => 'c',
        13 => 'd',
        14 => 'e',
        _ => 'f',
    }
}

fn push_numeral(text: &mut String, value: u128, base: u128)
    requires
        2 <= base <= 16,
    ensures
        final(text)@ == old(text)@ + numeral(value as nat, base as nat),
    decreases value,
{
    if value >= base {
        assert(value / base < value) by (nonlinear_arith)
            requires
                value >= base,
                base >= 2,
        ;
        push_numeral(text, value / base, base);
    }
    text.push(digit_char((value % base) as u64));
    proof {
        if value < base {
            vstd::arithmetic::div_mod::lemma_small_mod(value as nat, base as nat);
        }
        assert(text@ =~= old(text)@ + numeral(value as nat, base as nat));
    }
}

fn numeral_len(value: u64, base: u64) -> (len: u32)
    requires
        2 <= base <= 16,
    ensures
        len == numeral(value as nat, base as nat).len(),
        len <= 64,
{
    let mut rest: u64 = value;
    let mut len: u32 = 1;
    proof {
        vstd::arithmetic::power2::lemma2_to64_rest();
        lemma_numeral_len(value as nat, base as nat, 64);
    }
    while rest >= base
        invariant
            2 <= base <= 16,
            1 <= len,
            len - 1 + numeral(rest as nat, base as nat).len() == numeral(
                value as nat,
                base as nat,
            ).len(),
            numeral(value as nat, base as nat).len() <= 64,
        decreases rest,
    {
        assert(rest / base < rest) by (nonlinear_arith)
            requires
                rest >= base,
                base >= 2,
        ;
        proof {
            assert(numeral(rest as nat, base as nat).len() == numeral(
                (rest / base) as nat,
                base as nat,
            ).len() + 1);
            assert(numeral((rest / base) as nat, base as nat).len() >= 1);
        }
        rest = rest / base;
        len = len + 1;
    }
    len
}

proof fn lemma_numeral_len(value: nat, base: nat, bits: nat)
    requires
        2 <= base,
        bits >= 1,
        value < vstd::arithmetic::power2::pow2(bits),
    ensures
        1 <= numeral(value, base).len() <= bits,
    decreases bits,
{
    vstd::arithmetic::power2::lemma_pow2_unfold(bits);
    vstd::arithmetic::power2::lemma2_to64();
    if value >= base {
        assert(bits >= 2);
        assert(value / base <= value / 2) by (nonlinear_arith)
            requires
                base >= 2,
        ;
        lemma_numeral_len(value / base, base, (bits - 1) as nat);
    }
}

/// Append a number in decimal notation.
pub fn push_decimal(text: &mut String, value: u64)
    ensures
        final(text)@ == old(text)@ + decimal(value as nat),
{
    push_numeral(text, value as u128, 10);
}

/// Append a number of up to 128 bits in decimal notation.
pub fn push_wide_decimal(text: &mut String, value: u128)
    ensures
        final(text)@ == old(text)@ + decimal(value as nat),
{
    push_numeral(text, value, 10);
}

/// Append a number in hexadecimal notation, filled with zeros to `width` digits.
pub fn push_hex(text: &mut String, value: u64, width: u32)
    ensures
        final(text)@ == old(text)@ + hex(value as nat, width as nat),
{
    let len = numeral_len(value, 16);
    let mut fill: u32 = len;
    while fill < width
        invariant
            len == numeral(value as nat, 16).len(),
            len <= fill,
            len < width ==> fill <= width,
            len >= width ==> fill == len,
            text@ == old(text)@ + zeros(fill - len),
        decreases width - fill,
    {
        text.push('0');
        fill = fill + 1;
        assert(text@ =~= old(text)@ + zeros(fill - len));
    }
    push_numeral(text, value as u128, 16);
    assert(text@ =~= old(text)@ + (zeros(width - len) + numeral(value as nat, 16)));
}

/// Render a hardware address, such as `02:e0:09:00:01:00`.
pub fn format_mac(mac: &[u8; 6]) -> (text: String)
    ensures
        text@ == mac_text(mac@),
{
    let mut text = String::new();
    push_hex(&mut text, mac[0] as u64, 2);
    text.push(':');
    push_hex(&mut text, mac[1] as u64, 2);
    text.push(':');
    push_hex(&mut text, mac[2] as u64, 2);
    text.push(':');
    push_hex(&mut text, mac[3] as u64, 2);
    text.push(':');
    push_hex(&mut text, mac[4] as u64, 2);
    text.push(':');
    push_hex(&mut text, mac[5] as u64, 2);
    assert(text@ =~= mac_text(mac@));
    text
}

/// The characters of a string.
pub fn letters(text: &str) -> (all: Vec<char>)
    ensures
        all@ == text@,
{
    let mut all: Vec<char> = Vec::new();
    for letter in iter: text.chars()
        invariant
            iter.seq() == text@,
            all@ == text@.take(iter.index() as int),
    {
        all.push(letter);
    }
    all
}

/// The string that consists of the given characters.
pub fn assemble(all: &[char]) -> (text: String)
    ensures
        text@ == all@,
{
    let mut text = String::new();
    let mut at: usize = 0;
    while at < all.len()
        invariant
            at <= all.len(),
            text@ == all@.take(at as int),
        decreases all.len() - at,
    {
        text.push(all[at]);
        at = at + 1;
        assert(all@.take(at as int) =~= all@.take(at - 1).push(all@[at - 1]));
    }
    assert(all@.take(at as int) =~= all@);
    text
}

/// Whether two lists of characters are equal.
pub fn same_letters(one: &[char], other: &[char]) -> (same: bool)
    ensures
        same == (one@ == other@),
{
    if one.len() != other.len() {
        return false;
    }
    let mut at: usize = 0;
    while at < one.len()
        invariant
            at <= one.len(),
            one@.len() == other@.len(),
            forall|i: int| 0 <= i < at ==> one@[i] == other@[i],
        decreases one.len() - at,
    {
        if one[at] != other[at] {
            return false;
        }
        at = at + 1;
    }
    assert(one@ =~= other@);
    true
}

/// Whether two strings are equal.
pub fn same(one: &str, other: &str) -> (same: bool)
    ensures
        same == (one@ == other@),
{
    same_letters(&letters(one), &letters(other))
}

/// The pieces of a text between separators; there is always one more than separators.
pub open spec fn pieces(text: Seq<char>, separator: char) -> Seq<Seq<char>>
    decreases text.len(),
{
    if text.len() == 0 {
        seq![Seq::empty()]
    } else {
        let before = pieces(text.drop_last(), separator);
        if text.last() == separator {
            before.push(Seq::empty())
        } else {
            before.drop_last().push(before.last().push(text.last()))
        }
    }
}

/// The contents of a list of pieces.
pub open spec fn contents(parts: Seq<Vec<char>>) -> Seq<Seq<char>> {
    parts.map_values(|part: Vec<char>| part@)
}

/// The pieces of a text between separators.
pub fn split(text: &str, separator: char) -> (parts: Vec<Vec<char>>)
    ensures
        contents(parts@) == pieces(text@, separator),
{
    let all = letters(text);
    let mut parts: Vec<Vec<char>> = Vec::new();
    let mut current: Vec<char> = Vec::new();
    let mut at: usize = 0;
    assert(contents(parts@).push(current@) =~= pieces(all@.take(0), separator));
    while at < all.len()
        invariant
            at <= all.len(),
            contents(parts@).push(current@) == pieces(all@.take(at as int), separator),
        decreases all.len() - at,
    {
        let letter = all[at];
        let ghost before = contents(parts@).push(current@);
        at = at + 1;
        proof {
            assert(all@.take(at as int).drop_last() =~= all@.take(at - 1));
            assert(all@.take(at as int).last() == letter);
            assert(before.drop_last() =~= contents(parts@));
        }
        if letter == separator {
            let mut fresh: Vec<char> = Vec::new();
            std::mem::swap(&mut current, &mut fresh);
            parts.push(fresh);
            assert(contents(parts@) =~= before);
            assert(contents(parts@).push(current@) =~= before.push(Seq::empty()));
        } else {
            current.push(letter);
        }
    }
    let ghost last = current@;
    let ghost before = contents(parts@);
    parts.push(current);
    assert(contents(parts@) =~= before.push(last));
    assert(all@.take(at as int) =~= text@);
    parts
}

/// What a character is worth as a digit, in either case; minus one where it is none.
pub open spec fn digit_value(letter: char) -> int {
    let code = letter as int;
    if 0x30 <= code <= 0x39 {
        code - 0x30
    } else if 0x61 <= code <= 0x7a {
        code - 0x61 + 10
    } else if 0x41 <= code <= 0x5a {
        code - 0x41 + 10
    } else {
        -1
    }
}

/// The number that digits of a base denote.
pub open spec fn number(digits: Seq<char>, base: int) -> Option<int>
    decreases digits.len(),
{
    if digits.len() == 0 {
        Some(0)
    } else {
        match number(digits.drop_last(), base) {
            Some(value) if 0 <= digit_value(digits.last()) < base => Some(
                value * base + digit_value(digits.last()),
            ),
            _ => None,
        }
    }
}

/// The digits of a number in text form: a leading plus sign does not count.
pub open spec fn unsigned(text: Seq<char>) -> Seq<char> {
    if text.len() > 0 && text[0] == '+' {
        text.subrange(1, text.len() as int)
    } else {
        text
    }
}

/// The byte that a text denotes: an optional plus sign and at least one digit, of a value
/// that fits.
pub open spec fn byte_of(text: Seq<char>, base: int) -> Option<u8> {
    match number(unsigned(text), base) {
        Some(value) if unsigned(text).len() > 0 && value <= 255 => Some(value as u8),
        _ => None,
    }
}

proof fn lemma_number_grows(digits: Seq<char>, base: int, at: int)
    requires
        2 <= base,
        0 <= at <= digits.len(),
    ensures
        number(digits, base) matches Some(value) ==> (number(digits.take(at), base) matches Some(
            part,
        ) && 0 <= part <= value),
    decreases digits.len(),
{
    if at == digits.len() {
        assert(digits.take(at) =~= digits);
        if digits.len() > 0 {
            lemma_number_grows(digits.drop_last(), base, digits.len() - 1);
            assert(digits.drop_last().take(digits.len() - 1) =~= digits.drop_last());
            if let Some(part) = number(digits.drop_last(), base) {
                assert(0 <= part * base) by (nonlinear_arith)
                    requires
                        0 <= part,
                        2 <= base,
                ;
            }
        }
    } else {
        lemma_number_grows(digits.drop_last(), base, at);
        assert(digits.drop_last().take(at) =~= digits.take(at));
        if let Some(part) = number(digits.drop_last(), base) {
            lemma_number_grows(digits.drop_last(), base, digits.len() - 1);
            assert(digits.drop_last().take(digits.len() - 1) =~= digits.drop_last());
            assert(part <= part * base) by (nonlinear_arith)
                requires
                    0 <= part,
                    2 <= base,
            ;
        }
    }
}

fn digit_of(letter: char) -> (value: u32)
    ensures
        value == if digit_value(letter) < 0 {
            99
        } else {
            digit_value(letter)
        },
{
    let code: u32 = letter as u32;
    if 0x30 <= code && code <= 0x39 {
        code - 0x30
    } else if 0x61 <= code && code <= 0x7a {
        code - 0x61 + 10
    } else if 0x41 <= code && code <= 0x5a {
        code - 0x41 + 10
    } else {
        99
    }
}

/// The byte that a text denotes in a base.
pub fn parse_byte(text: &[char], base: u32) -> (byte: Option<u8>)
    requires
        2 <= base <= 36,
    ensures
        byte == byte_of(text@, base as int),
{
    let mut at: usize = 0;
    if text.len() > 0 && text[0] == '+' {
        at = 1;
    }
    let ghost digits = unsigned(text@);
    let start: usize = at;
    if at == text.len() {
        assert(digits.len() == 0);
        return None;
    }
    let mut value: u32 = 0;
    assert(digits.take(0) =~= Seq::empty());
    while at < text.len()
        invariant
            2 <= base <= 36,
            start <= 1,
            start <= at <= text.len(),
            start < text.len(),
            digits == unsigned(text@),
            digits == text@.subrange(start as int, text@.len() as int),
            digits.len() > 0,
            value <= 255,
            number(digits.take(at - start), base as int) == Some(value as int),
        decreases text.len() - at,
    {
        let digit: u32 = digit_of(text[at]);
        proof {
            let now = digits.take(at - start + 1);
            assert(now.drop_last() =~= digits.take(at - start));
            assert(now.last() == text@[at as int]);
            lemma_number_grows(digits, base as int, at - start + 1);
        }
        if digit >= base {
            return None;
        }
        assert(value * base <= 255 * 36) by (nonlinear_arith)
            requires
                value <= 255,
                base <= 36,
        ;
        assert(value * base >= 0) by (nonlinear_arith)
            requires
                value >= 0,
                base >= 0,
        ;
        value = value * base + digit;
        if value > 255 {
            return None;
        }
        at = at + 1;
    }
    assert(digits.take(at - start) =~= digits);
    Some(value as u8)
}

/// The text that shows a text with quotes and escapes.
pub uninterp spec fn debug_text(text: Seq<char>) -> Seq<char>;

/// `<str as std::fmt::Debug>::fmt`, through `format!`: the quoted and escaped form of a
/// text, which is a function of the text alone.
#[verifier::external_body]
fn shown(text: &str) -> (debug: String)
    ensures
        debug@ == debug_text(text@),
{
    format!("{text:?}")
}

/// Append the quoted and escaped form of `quoted`.
pub fn push_debug(text: &mut String, quoted: &str)
    ensures
        final(text)@ == old(text)@ + debug_text(quoted@),
{
    text.append(shown(quoted).as_str());
}

proof fn lemma_some_piece(text: Seq<char>, separator: char)
    ensures
        pieces(text, separator).len() > 0,
    decreases text.len(),
{
    if text.len() > 0 {
        lemma_some_piece(text.drop_last(), separator);
    }
}

/// A text is cut exactly at its separators: one without separators is one piece, and the
/// pieces around a separator are those before it and those behind it.
pub proof fn law_text_is_cut_at_separators(before: Seq<char>, after: Seq<char>, separator: char)
    ensures
        pieces(before + seq![separator] + after, separator) == pieces(before, separator) + pieces(
            after,
            separator,
        ),
        !before.contains(separator) ==> pieces(before, separator) == seq![before],
    decreases before.len() + after.len(),
{
    let whole = before + seq![separator] + after;
    if after.len() == 0 {
        assert(whole.drop_last() =~= before);
        assert(pieces(whole, separator) =~= pieces(before, separator) + pieces(after, separator));
    } else {
        assert(whole.drop_last() =~= before + seq![separator] + after.drop_last());
        law_text_is_cut_at_separators(before, after.drop_last(), separator);
        lemma_some_piece(after.drop_last(), separator);
        assert(pieces(whole, separator) =~= pieces(before, separator) + pieces(after, separator));
    }
    if !before.contains(separator) {
        lemma_one_piece(before, separator);
    }
}

proof fn lemma_one_piece(text: Seq<char>, separator: char)
    requires
        !text.contains(separator),
    ensures
        pieces(text, separator) == seq![text],
    decreases text.len(),
{
    if text.len() > 0 {
        let shorter = text.drop_last();
        assert(text.contains(text.last())) by {
            assert(text[text.len() - 1] == text.last());
        }
        assert(!shorter.contains(separator)) by {
            if shorter.contains(separator) {
                let i = choose|i: int| 0 <= i < shorter.len() && shorter[i] == separator;
                assert(text[i] == separator);
            }
        }
        lemma_one_piece(shorter, separator);
        assert(text =~= shorter.push(text.last()));
        assert(pieces(text, separator) =~= seq![text]);
    } else {
        assert(text =~= Seq::empty());
        assert(pieces(text, separator) =~= seq![text]);
    }
}

proof fn lemma_digit(value: int)
    requires
        0 <= value < 16,
    ensures
        digit_value(digit(value)) == value,
{
}

proof fn lemma_numeral_reads(value: nat, base: nat)
    requires
        2 <= base <= 16,
    ensures
        number(numeral(value, base), base as int) == Some(value as int),
        numeral(value, base).len() > 0,
        forall|i: int|
            0 <= i < numeral(value, base).len() ==> 0 <= digit_value(
                #[trigger] numeral(value, base)[i],
            ) < base,
    decreases value,
{
    let text = numeral(value, base);
    if value < base {
        lemma_digit(value as int);
        assert(text.drop_last() =~= Seq::empty());
        reveal_with_fuel(number, 2);
        assert(0 * (base as int) == 0) by (nonlinear_arith);
    } else {
        vstd::arithmetic::div_mod::lemma_div_decreases(value as int, base as int);
        vstd::arithmetic::div_mod::lemma_fundamental_div_mod(value as int, base as int);
        vstd::arithmetic::div_mod::lemma_mod_bound(value as int, base as int);
        lemma_numeral_reads(value / base, base);
        lemma_digit((value % base) as int);
        assert(text.drop_last() =~= numeral(value / base, base));
        assert(text.last() == digit((value % base) as int));
        let high = (value / base) as int;
        assert(number(text.drop_last(), base as int) == Some(high));
        assert(high * (base as int) + (value % base) as int == value) by (nonlinear_arith)
            requires
                value as int == (base as int) * high + (value % base) as int,
        ;
    }
}

/// A number that is written down is the number that is read, in decimal and in hexadecimal,
/// also with zeros before it.
pub proof fn law_numbers_are_read_back(value: nat, width: nat)
    ensures
        number(decimal(value), 10) == Some(value as int),
        number(hex(value, width), 16) == Some(value as int),
        hex(value, width).len() >= width,
        value > 0 ==> decimal(value)[0] != '0',
{
    lemma_numeral_reads(value, 10);
    lemma_numeral_reads(value, 16);
    lemma_leading_zeros(width - numeral(value, 16).len(), numeral(value, 16));
    if value > 0 {
        lemma_first_digit(value);
    }
}

proof fn lemma_first_digit(value: nat)
    requires
        value > 0,
    ensures
        decimal(value).len() > 0,
        decimal(value)[0] != '0',
    decreases value,
{
    if value >= 10 {
        lemma_first_digit(value / 10);
    }
}

proof fn lemma_leading_zeros(count: int, digits: Seq<char>)
    ensures
        number(zeros(count) + digits, 16) == number(digits, 16),
    decreases digits.len(), count,
{
    let all = zeros(count) + digits;
    if digits.len() > 0 {
        assert(all.drop_last() =~= zeros(count) + digits.drop_last());
        assert(all.last() == digits.last());
        lemma_leading_zeros(count, digits.drop_last());
    } else if count > 0 {
        assert(all.drop_last() =~= zeros(count - 1) + digits);
        assert(all.last() == '0');
        lemma_leading_zeros(count - 1, digits);
    } else {
        assert(all =~= digits);
    }
}

/// A byte that is written down is the byte that is read; what is larger than a byte, empty or
/// has anything but digits in it is none.
pub proof fn law_bytes_are_read_back(value: nat, text: Seq<char>, base: int)
    ensures
        value <= 255 ==> byte_of(decimal(value), 10) == Some(value as u8),
        value <= 255 ==> byte_of(hex(value, 2), 16) == Some(value as u8),
        value > 255 ==> byte_of(decimal(value), 10) is None,
        byte_of(Seq::empty(), base) is None,
        text.len() > 0 && text[0] != '+' && number(text, base) is None ==> byte_of(text, base)
            is None,
        !decimal(value).contains('.') && !hex(value, 2).contains(':'),
{
    law_numbers_are_read_back(value, 2);
    lemma_numeral_reads(value, 10);
    lemma_numeral_reads(value, 16);
    let (tens, sixteens) = (decimal(value), hex(value, 2));
    assert(0 <= digit_value(tens[0]));
    assert forall|i: int| 0 <= i < sixteens.len() implies 0 <= digit_value(
        #[trigger] sixteens[i],
    ) by {
        let lead = zeros(2 - numeral(value, 16).len());
        if i < lead.len() {
            assert(sixteens[i] == '0');
        } else {
            assert(sixteens[i] == numeral(value, 16)[i - lead.len()]);
        }
    }
    assert(0 <= digit_value(sixteens[0]));
    assert(unsigned(tens) == tens && unsigned(sixteens) == sixteens);
    if tens.contains('.') {
        let i = choose|i: int| 0 <= i < tens.len() && tens[i] == '.';
        assert(0 <= digit_value(tens[i]));
    }
    if sixteens.contains(':') {
        let i = choose|i: int| 0 <= i < sixteens.len() && sixteens[i] == ':';
        assert(0 <= digit_value(sixteens[i]));
    }
}

/// A byte takes two hexadecimal digits, and a hardware address six of them between colons: 17
/// characters, whatever the address.
pub proof fn law_hardware_address_is_as_long_as_any(mac: Seq<u8>)
    requires
        mac.len() == 6,
    ensures
        mac_text(mac).len() == 17,
        forall|i: int| 0 <= i < 5 ==> #[trigger] mac_text(mac)[3 * i + 2] == ':',
{
    assert forall|byte: u8| #[trigger] hex(byte as nat, 2).len() == 2 by {
        reveal_with_fuel(numeral, 3);
        let value = byte as nat;
        assert(value / 16 < 16);
    }
    assert(mac_text(mac).len() == 17);
    assert(mac_text(mac)[2] == ':' && mac_text(mac)[5] == ':' && mac_text(mac)[8] == ':');
    assert(mac_text(mac)[11] == ':' && mac_text(mac)[14] == ':');
}

/// A plus sign in front of a number makes no difference to it, but only one is taken, and a
/// plus sign alone is no number. Letters count the same in either case.
pub proof fn law_plus_sign_makes_no_difference(digits: Seq<char>, base: int)
    ensures
        digits.len() > 0 && digits[0] != '+' ==> byte_of(seq!['+'] + digits, base) == byte_of(
            digits,
            base,
        ),
        byte_of(seq!['+'], base) is None,
        digit_value('a') == 10 && digit_value('A') == 10,
        digit_value('f') == digit_value('F') && digit_value('0') == 0 && digit_value('9') == 9,
        digit_value('+') < 0 && digit_value('.') < 0 && digit_value(':') < 0,
{
    let signed = seq!['+'] + digits;
    assert(signed.subrange(1, signed.len() as int) =~= digits);
    assert(seq!['+'].subrange(1, 1) =~= Seq::<char>::empty());
}

} // verus!
