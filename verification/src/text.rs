//! Digits and numerals in the ASCII text of chart files.

use vstd::prelude::*;
use vstd::std_specs::iter::IteratorSpec;
use vstd::string::{StringExecFns, StringSliceAdditionalSpecFns};

verus! {

/// The value of the ASCII digit `b` in base `radix` (letters in either case
/// count from ten), if it is a digit of that base.
pub open spec fn digit_value(b: u8, radix: nat) -> Option<nat> {
    let v: int = if 48 <= b <= 57 {
        b - 48
    } else if 97 <= b <= 122 {
        b - 97 + 10
    } else if 65 <= b <= 90 {
        b - 65 + 10
    } else {
        radix as int
    };
    if v < radix {
        Some(v as nat)
    } else {
        None
    }
}

/// The value of the digits `s` in base `radix`, most significant first, if
/// every byte is a digit of that base.
pub open spec fn numeral_value(s: Seq<u8>, radix: nat) -> Option<nat>
    decreases s.len(),
{
    if s.len() == 0 {
        Some(0)
    } else {
        match (numeral_value(s.drop_last(), radix), digit_value(s.last(), radix)) {
            (Some(high), Some(low)) => Some(high * radix + low),
            _ => None,
        }
    }
}

/// `value`, when it is at most `max`.
pub open spec fn at_most(value: Option<nat>, max: nat) -> Option<nat> {
    match value {
        Some(v) => if v <= max {
            Some(v)
        } else {
            None
        },
        None => None,
    }
}

/// What `from_str_radix` makes of `s`: an optional plus sign followed by at
/// least one digit, with a value of at most `max`.
pub open spec fn parse_unsigned_spec(s: Seq<u8>, radix: nat, max: nat) -> Option<nat> {
    let digits = if s.len() > 1 && s[0] == 43 {
        s.drop_first()
    } else {
        s
    };
    if digits.len() == 0 {
        None
    } else {
        at_most(numeral_value(digits, radix), max)
    }
}

/// Returns the value of the digit `b` in base `radix`, if it is one.
pub fn digit(b: u8, radix: u8) -> (value: Option<u8>)
    requires
        radix <= 36,
    ensures
        match digit_value(b, radix as nat) {
            Some(v) => value == Some(v as u8),
            None => value is None,
        },
{
    let v: u8 = if 48 <= b && b <= 57 {
        b - 48
    } else if 97 <= b && b <= 122 {
        b - 97 + 10
    } else if 65 <= b && b <= 90 {
        b - 65 + 10
    } else {
        radix
    };
    if v < radix {
        Some(v)
    } else {
        None
    }
}

/// A longer numeral is worth at least as much as its prefix.
proof fn lemma_numeral_prefix(s: Seq<u8>, radix: nat, i: int)
    requires
        radix > 0,
        0 <= i <= s.len(),
        numeral_value(s, radix) is Some,
    ensures
        numeral_value(s.take(i), radix) is Some,
        numeral_value(s.take(i), radix)->0 <= numeral_value(s, radix)->0,
    decreases s.len(),
{
    if i < s.len() {
        assert(s.drop_last().take(i) == s.take(i));
        lemma_numeral_prefix(s.drop_last(), radix, i);
        let high = numeral_value(s.drop_last(), radix)->0;
        assert(high <= high * radix) by (nonlinear_arith)
            requires
                radix > 0,
        ;
    } else {
        assert(s.take(i) == s);
    }
}

/// Parses unsigned digits of base `radix` like `from_str_radix`: an optional
/// plus sign, then at least one digit, with a value of at most `max`.
pub fn parse_unsigned(text: &[u8], radix: u8, max: u64) -> (value: Option<u64>)
    requires
        2 <= radix <= 36,
    ensures
        match parse_unsigned_spec(text@, radix as nat, max as nat) {
            Some(v) => value == Some(v as u64),
            None => value is None,
        },
{
    let start: usize = if text.len() > 1 && text[0] == 43 {
        1
    } else {
        0
    };
    let ghost digits = text@.subrange(start as int, text@.len() as int);
    proof {
        if start == 1 {
            assert(digits == text@.drop_first());
        } else {
            assert(digits == text@);
        }
    }
    if start == text.len() {
        return None;
    }
    let mut value: u64 = 0;
    let mut index = start;
    proof {
        assert(digits.take(0) == Seq::<u8>::empty());
    }
    while index < text.len()
        invariant
            start <= index <= text@.len(),
            digits == text@.subrange(start as int, text@.len() as int),
            2 <= radix <= 36,
            numeral_value(digits.take(index - start), radix as nat) == Some(value as nat),
            value <= max,
            digits.len() > 0,
            parse_unsigned_spec(text@, radix as nat, max as nat) == at_most(
                numeral_value(digits, radix as nat),
                max as nat,
            ),
        decreases text@.len() - index,
    {
        let ghost prefix = digits.take(index - start + 1);
        proof {
            assert(prefix.drop_last() == digits.take(index - start));
            assert(prefix.last() == text@[index as int]);
        }
        let d = match digit(text[index], radix) {
            Some(d) => d,
            None => {
                proof {
                    assert(numeral_value(prefix, radix as nat) is None);
                    if numeral_value(digits, radix as nat) is Some {
                        lemma_numeral_prefix(digits, radix as nat, index - start + 1);
                    }
                }
                return None;
            },
        };
        let next = match value.checked_mul(radix as u64) {
            Some(v) => v.checked_add(d as u64),
            None => None,
        };
        match next {
            Some(v) if v <= max => {
                value = v;
            },
            _ => {
                proof {
                    assert(numeral_value(prefix, radix as nat) == Some((value * radix + d) as nat));
                    if numeral_value(digits, radix as nat) is Some {
                        lemma_numeral_prefix(digits, radix as nat, index - start + 1);
                    }
                }
                return None;
            },
        }
        index += 1;
    }
    proof {
        assert(digits.take(index - start) == digits);
    }
    Some(value)
}

/// The ASCII digits of `n` in base `radix`, most significant first, without
/// leading zeros (zero is the single digit `0`).
pub open spec fn digits_of(n: nat, radix: nat) -> Seq<u8>
    decreases n,
{
    if radix < 2 || n < radix {
        seq![digit_byte(n)]
    } else {
        proof {
            vstd::arithmetic::div_mod::lemma_div_decreases(n as int, radix as int);
        }
        digits_of(n / radix, radix).push(digit_byte(n % radix))
    }
}

/// The lower-case ASCII digit for a value below 36.
pub open spec fn digit_byte(v: nat) -> u8 {
    if v < 10 {
        (48 + v) as u8
    } else {
        (97 + v - 10) as u8
    }
}

/// The characters of an ASCII byte sequence.
pub open spec fn ascii_chars(bytes: Seq<u8>) -> Seq<char> {
    bytes.map_values(|b: u8| b as char)
}

/// The lower-case digit character for a value below 36.
pub fn digit_char(value: u8) -> (c: char)
    requires
        value < 36,
    ensures
        c == digit_byte(value as nat) as char,
{
    if value < 10 {
        (48 + value) as char
    } else {
        (97 + value - 10) as char
    }
}

proof fn lemma_digit_byte_value(v: nat, radix: nat)
    requires
        v < radix <= 36,
    ensures
        digit_value(digit_byte(v), radix) == Some(v),
{
}

proof fn lemma_single_digit(b: u8, radix: nat)
    ensures
        numeral_value(seq![b], radix) == match digit_value(b, radix) {
            Some(v) => Some(0 * radix + v),
            None => None::<nat>,
        },
{
    assert(seq![b].drop_last() == Seq::<u8>::empty());
    assert(seq![b].last() == b);
    assert(numeral_value(Seq::<u8>::empty(), radix) == Some(0nat));
}

/// The value of digits produced by `digits_of` is the number they were made from.
pub proof fn lemma_digits_round_trip(n: nat, radix: nat)
    requires
        2 <= radix <= 36,
    ensures
        numeral_value(digits_of(n, radix), radix) == Some(n),
        digits_of(n, radix).len() > 0,
    decreases n,
{
    if n >= radix {
        assert(n / radix < n) by {
            vstd::arithmetic::div_mod::lemma_div_decreases(n as int, radix as int);
        }
        lemma_digits_round_trip(n / radix, radix);
        let s = digits_of(n, radix);
        assert(s.drop_last() == digits_of(n / radix, radix));
        vstd::arithmetic::div_mod::lemma_fundamental_div_mod(n as int, radix as int);
        assert(n % radix < radix) by {
            vstd::arithmetic::div_mod::lemma_mod_pos_bound(n as int, radix as int);
        }
        lemma_digit_byte_value(n % radix, radix);
        assert(n == (n / radix) * radix + n % radix) by (nonlinear_arith)
            requires
                n == radix * (n / radix) + n % radix,
        ;
    } else {
        lemma_digit_byte_value(n, radix);
        lemma_single_digit(digit_byte(n), radix);
    }
}

/// Appends `n` written in base `radix` with lower-case digits.
pub fn push_digits(out: &mut String, n: u64, radix: u64)
    requires
        2 <= radix <= 36,
    ensures
        final(out)@ == old(out)@ + ascii_chars(digits_of(n as nat, radix as nat)),
    decreases n,
{
    if n < radix {
        out.push(digit_char(n as u8));
        proof {
            assert(ascii_chars(digits_of(n as nat, radix as nat)) == seq![digit_byte(n as nat) as char]);
        }
    } else {
        assert(n / radix < n) by {
            vstd::arithmetic::div_mod::lemma_div_decreases(n as int, radix as int);
        }
        push_digits(out, n / radix, radix);
        proof {
            vstd::arithmetic::div_mod::lemma_mod_pos_bound(n as int, radix as int);
        }
        out.push(digit_char((n % radix) as u8));
        proof {
            let high = digits_of((n / radix) as nat, radix as nat);
            assert(ascii_chars(high.push(digit_byte((n % radix) as nat))) == ascii_chars(high).push(
                digit_byte((n % radix) as nat) as char,
            ));
        }
    }
}

/// `n` written in decimal.
pub fn decimal(n: u64) -> (text: String)
    ensures
        text@ == ascii_chars(digits_of(n as nat, 10)),
{
    let mut text = String::new();
    push_digits(&mut text, n, 10);
    text
}

/// Compares two byte slices.
pub fn bytes_eq(a: &[u8], b: &[u8]) -> (equal: bool)
    ensures
        equal == (a@ == b@),
{
    if a.len() != b.len() {
        return false;
    }
    let mut index: usize = 0;
    while index < a.len()
        invariant
            a@.len() == b@.len(),
            index <= a@.len(),
            forall|i: int| 0 <= i < index ==> a@[i] == b@[i],
        decreases a@.len() - index,
    {
        if a[index] != b[index] {
            return false;
        }
        index += 1;
    }
    proof {
        assert(a@ =~= b@);
    }
    true
}

/// Compares two texts.
pub fn text_is(value: &str, expected: &str) -> (equal: bool)
    ensures
        equal == (value@ == expected@),
{
    let equal = bytes_eq(value.as_bytes(), expected.as_bytes());
    proof {
        vstd::utf8::encode_utf8_decode_utf8(value@);
        vstd::utf8::encode_utf8_decode_utf8(expected@);
    }
    equal
}

/// The characters of a text.
pub fn chars_of(text: &str) -> (chars: Vec<char>)
    ensures
        chars@ == text@,
{
    broadcast use vstd::string::group_string_axioms;
    let mut chars: Vec<char> = Vec::new();
    let mut iter = text.chars();
    loop
        invariant
            iter.obeys_prophetic_iter_laws(),
            iter.decrease() is Some,
            chars@ + iter.remaining() == text@,
        ensures
            chars@ == text@,
        decreases iter.decrease()->0,
    {
        match iter.next() {
            Some(c) => {
                let ghost before = chars@;
                chars.push(c);
                proof {
                    assert(before + seq![c] + iter.remaining() =~= before + (seq![c] + iter.remaining()));
                }
            },
            None => {
                proof {
                    assert(iter.remaining() =~= Seq::<char>::empty());
                    assert(chars@ + Seq::<char>::empty() == chars@);
                }
                break;
            },
        }
    }
    chars
}

/// Every character is ASCII.
pub open spec fn all_ascii(chars: Seq<char>) -> bool {
    forall|i: int| 0 <= i < chars.len() ==> (chars[i] as u32) < 128
}

/// The bytes of ASCII characters.
pub open spec fn char_bytes(chars: Seq<char>) -> Seq<u8> {
    chars.map_values(|c: char| c as u8)
}

/// What `from_str_radix` makes of a text given as characters; a text with a
/// non-ASCII character has a byte that is no digit, so it is not a numeral.
pub open spec fn parse_chars_spec(chars: Seq<char>, radix: nat, max: nat) -> Option<nat> {
    if all_ascii(chars) {
        parse_unsigned_spec(char_bytes(chars), radix, max)
    } else {
        None
    }
}

/// Parses characters like `from_str_radix`.
pub fn parse_chars(chars: &[char], radix: u8, max: u64) -> (value: Option<u64>)
    requires
        2 <= radix <= 36,
    ensures
        match parse_chars_spec(chars@, radix as nat, max as nat) {
            Some(v) => value == Some(v as u64),
            None => value is None,
        },
{
    let mut bytes: Vec<u8> = Vec::new();
    let mut index: usize = 0;
    while index < chars.len()
        invariant
            index <= chars@.len(),
            all_ascii(chars@.take(index as int)),
            bytes@ == char_bytes(chars@.take(index as int)),
        decreases chars@.len() - index,
    {
        let c = chars[index];
        if (c as u32) >= 128 {
            return None;
        }
        bytes.push(c as u8);
        index += 1;
        proof {
            assert(chars@.take(index as int) == chars@.take(index - 1).push(c));
            assert(bytes@ =~= char_bytes(chars@.take(index as int)));
        }
    }
    proof {
        assert(chars@.take(index as int) == chars@);
    }
    parse_unsigned(bytes.as_slice(), radix, max)
}

/// A string with the given characters.
pub fn string_of(chars: &[char]) -> (text: String)
    ensures
        text@ == chars@,
{
    let mut text = String::new();
    let mut index: usize = 0;
    while index < chars.len()
        invariant
            index <= chars@.len(),
            text@ == chars@.take(index as int),
        decreases chars@.len() - index,
    {
        text.push(chars[index]);
        index += 1;
        proof {
            assert(text@ =~= chars@.take(index as int));
        }
    }
    proof {
        assert(chars@.take(index as int) == chars@);
    }
    text
}

/// The index of the first occurrence of `c`, if any.
pub open spec fn first_index_of(chars: Seq<char>, c: char) -> Option<int> {
    if exists|i: int| 0 <= i < chars.len() && chars[i] == c && forall|j: int| 0 <= j < i ==> chars[j] != c {
        Some(choose|i: int| 0 <= i < chars.len() && chars[i] == c && forall|j: int| 0 <= j < i ==> chars[j] != c)
    } else {
        None
    }
}

/// What `split_once(c)` gives: the text before the first `c` and the text after it.
pub open spec fn split_once_spec(chars: Seq<char>, c: char) -> Option<(Seq<char>, Seq<char>)> {
    match first_index_of(chars, c) {
        Some(i) => Some((chars.take(i), chars.skip(i + 1))),
        None => None,
    }
}

/// Finds the first occurrence of `c`.
pub fn find_char(chars: &[char], c: char) -> (index: Option<usize>)
    ensures
        match first_index_of(chars@, c) {
            Some(i) => index == Some(i as usize),
            None => index is None,
        },
{
    let mut index: usize = 0;
    while index < chars.len()
        invariant
            index <= chars@.len(),
            forall|j: int| 0 <= j < index ==> chars@[j] != c,
        decreases chars@.len() - index,
    {
        if chars[index] == c {
            proof {
                let i = index as int;
                assert(0 <= i < chars@.len() && chars@[i] == c && forall|j: int| 0 <= j < i ==> chars@[j] != c);
                let k = choose|k: int|
                    0 <= k < chars@.len() && chars@[k] == c && forall|j: int| 0 <= j < k ==> chars@[j] != c;
                assert(0 <= i < chars@.len() && chars@[i] == c && forall|j: int| 0 <= j < i ==> chars@[j] != c);
                if k < i {
                } else if i < k {
                    assert(chars@[i] != c);
                }
            }
            return Some(index);
        }
        index += 1;
    }
    None
}

/// Splits at the first occurrence of `c`, like `split_once(c)`.
pub fn split_once(chars: &[char], c: char) -> (parts: Option<(Vec<char>, Vec<char>)>)
    ensures
        match split_once_spec(chars@, c) {
            Some((before, after)) => parts matches Some((b, a)) && b@ == before && a@ == after,
            None => parts is None,
        },
{
    match find_char(chars, c) {
        Some(i) => {
            proof {
                let j = first_index_of(chars@, c)->0;
                assert(0 <= j < chars@.len());
            }
            let mut before: Vec<char> = Vec::new();
            let mut after: Vec<char> = Vec::new();
            let mut k: usize = 0;
            while k < chars.len()
                invariant
                    i < chars@.len(),
                    k <= chars@.len(),
                    before@ == chars@.take(if k <= i { k as int } else { i as int }),
                    after@ == if k <= i + 1 { Seq::<char>::empty() } else { chars@.subrange(i + 1, k as int) },
                decreases chars@.len() - k,
            {
                if k < i {
                    before.push(chars[k]);
                } else if k > i {
                    after.push(chars[k]);
                }
                k += 1;
                proof {
                    assert(before@ =~= chars@.take(if k <= i { k as int } else { i as int }));
                    assert(after@ =~= if k <= i + 1 { Seq::<char>::empty() } else { chars@.subrange(i + 1, k as int) });
                }
            }
            proof {
                assert(chars@.skip(i + 1) =~= if chars@.len() <= i + 1 { Seq::<char>::empty() } else { chars@.subrange(i + 1, chars@.len() as int) });
            }
            Some((before, after))
        },
        None => None,
    }
}

/// Unicode white space, as `char::is_whitespace` defines it.
pub open spec fn is_space(c: char) -> bool {
    let v = c as u32;
    ||| 9 <= v <= 13
    ||| v == 32
    ||| v == 0x85
    ||| v == 0xA0
    ||| v == 0x1680
    ||| 0x2000 <= v <= 0x200A
    ||| v == 0x2028
    ||| v == 0x2029
    ||| v == 0x202F
    ||| v == 0x205F
    ||| v == 0x3000
}

/// Whether `c` is Unicode white space.
pub fn is_space_char(c: char) -> (space: bool)
    ensures
        space == is_space(c),
{
    let v = c as u32;
    (9 <= v && v <= 13) || v == 32 || v == 0x85 || v == 0xA0 || v == 0x1680 || (0x2000 <= v && v
        <= 0x200A) || v == 0x2028 || v == 0x2029 || v == 0x202F || v == 0x205F || v == 0x3000
}

/// The text without its leading white space.
pub open spec fn trim_start_spec(chars: Seq<char>) -> Seq<char>
    decreases chars.len(),
{
    if chars.len() > 0 && is_space(chars[0]) {
        trim_start_spec(chars.drop_first())
    } else {
        chars
    }
}

/// The text without its trailing white space.
pub open spec fn trim_end_spec(chars: Seq<char>) -> Seq<char>
    decreases chars.len(),
{
    if chars.len() > 0 && is_space(chars.last()) {
        trim_end_spec(chars.drop_last())
    } else {
        chars
    }
}

/// What `trim` gives: the text without leading and trailing white space.
pub open spec fn trim_spec(chars: Seq<char>) -> Seq<char> {
    trim_end_spec(trim_start_spec(chars))
}

/// The leading characters before the first white space.
pub open spec fn word_spec(chars: Seq<char>) -> Seq<char>
    decreases chars.len(),
{
    if chars.len() == 0 || is_space(chars[0]) {
        Seq::empty()
    } else {
        seq![chars[0]] + word_spec(chars.drop_first())
    }
}

/// The first white-space separated word, as `split_whitespace().next()`
/// gives it.
pub open spec fn first_word_spec(chars: Seq<char>) -> Option<Seq<char>> {
    let rest = trim_start_spec(chars);
    if rest.len() == 0 {
        None
    } else {
        Some(word_spec(rest))
    }
}

/// The index of the first character that is not white space.
fn skip_space(chars: &[char], from: usize) -> (index: usize)
    requires
        from <= chars@.len(),
    ensures
        from <= index <= chars@.len(),
        chars@.subrange(index as int, chars@.len() as int) == trim_start_spec(
            chars@.subrange(from as int, chars@.len() as int),
        ),
    decreases chars@.len() - from,
{
    if from < chars.len() && is_space_char(chars[from]) {
        proof {
            assert(chars@.subrange(from as int, chars@.len() as int).drop_first() == chars@.subrange(
                from + 1,
                chars@.len() as int,
            ));
        }
        skip_space(chars, from + 1)
    } else {
        from
    }
}

/// Removes leading and trailing white space, like `trim`.
pub fn trim(chars: &[char]) -> (trimmed: Vec<char>)
    ensures
        trimmed@ == trim_spec(chars@),
{
    let start = skip_space(chars, 0);
    proof {
        assert(chars@.subrange(0, chars@.len() as int) == chars@);
    }
    let mut end = chars.len();
    let ghost rest = chars@.subrange(start as int, chars@.len() as int);
    while end > start && is_space_char(chars[end - 1])
        invariant
            start <= end <= chars@.len(),
            rest == chars@.subrange(start as int, chars@.len() as int),
            trim_end_spec(rest) == trim_end_spec(chars@.subrange(start as int, end as int)),
        decreases end,
    {
        proof {
            assert(chars@.subrange(start as int, end as int).drop_last() == chars@.subrange(
                start as int,
                end - 1,
            ));
        }
        end -= 1;
    }
    let mut trimmed: Vec<char> = Vec::new();
    let mut k = start;
    while k < end
        invariant
            start <= k <= end <= chars@.len(),
            trimmed@ == chars@.subrange(start as int, k as int),
        decreases end - k,
    {
        trimmed.push(chars[k]);
        k += 1;
        proof {
            assert(trimmed@ =~= chars@.subrange(start as int, k as int));
        }
    }
    trimmed
}

/// The first white-space separated word, like `split_whitespace().next()`.
pub fn first_word(chars: &[char]) -> (word: Option<Vec<char>>)
    ensures
        match first_word_spec(chars@) {
            Some(w) => word matches Some(v) && v@ == w,
            None => word is None,
        },
{
    let start = skip_space(chars, 0);
    proof {
        assert(chars@.subrange(0, chars@.len() as int) == chars@);
    }
    if start == chars.len() {
        return None;
    }
    let mut word: Vec<char> = Vec::new();
    let mut k = start;
    let ghost rest = chars@.subrange(start as int, chars@.len() as int);
    while k < chars.len() && !is_space_char(chars[k])
        invariant
            start <= k <= chars@.len(),
            rest == chars@.subrange(start as int, chars@.len() as int),
            word_spec(rest) == word@ + word_spec(chars@.subrange(k as int, chars@.len() as int)),
        decreases chars@.len() - k,
    {
        proof {
            let tail = chars@.subrange(k as int, chars@.len() as int);
            assert(tail.drop_first() == chars@.subrange(k + 1, chars@.len() as int));
            assert(word@.push(chars@[k as int]) + word_spec(tail.drop_first()) =~= word@ + (seq![tail[0]]
                + word_spec(tail.drop_first())));
        }
        word.push(chars[k]);
        k += 1;
    }
    proof {
        let tail = chars@.subrange(k as int, chars@.len() as int);
        assert(word_spec(tail) == Seq::<char>::empty());
        assert(word@ + Seq::<char>::empty() == word@);
    }
    Some(word)
}

/// `n` in base `radix`, with leading zeros up to `width` digits.
pub open spec fn padded_digits(n: nat, radix: nat, width: nat) -> Seq<u8> {
    let digits = digits_of(n, radix);
    if digits.len() < width {
        Seq::new((width - digits.len()) as nat, |i: int| 48u8) + digits
    } else {
        digits
    }
}

/// The number of digits of `n` in base `radix`.
fn digit_count(n: u64, radix: u64) -> (count: usize)
    requires
        2 <= radix <= 36,
    ensures
        count == digits_of(n as nat, radix as nat).len(),
    decreases n,
{
    if n < radix {
        1
    } else {
        assert(n / radix < n) by {
            vstd::arithmetic::div_mod::lemma_div_decreases(n as int, radix as int);
        }
        let high = digit_count(n / radix, radix);
        proof {
            vstd::arithmetic::power2::lemma2_to64();
            lemma_digits_fit((n / radix) as nat, radix as nat, 64);
        }
        high + 1
    }
}

/// A number below `2^bits` has at most `bits` digits.
proof fn lemma_digits_fit(n: nat, radix: nat, bits: nat)
    requires
        2 <= radix,
        1 <= bits,
        n < vstd::arithmetic::power2::pow2(bits),
    ensures
        digits_of(n, radix).len() <= bits,
    decreases bits,
{
    if n >= radix {
        vstd::arithmetic::power2::lemma_pow2_unfold(bits);
        if bits == 1 {
            vstd::arithmetic::power2::lemma2_to64();
            assert(false);
        }
        let half = vstd::arithmetic::power2::pow2((bits - 1) as nat);
        assert(n / radix < half) by {
            vstd::arithmetic::div_mod::lemma_div_is_ordered_by_denominator(n as int, 2, radix as int);
            assert(n / 2 < half);
        }
        lemma_digits_fit(n / radix, radix, (bits - 1) as nat);
    }
}

/// Appends `n` in base `radix` with leading zeros up to `width` digits.
pub fn push_padded(out: &mut String, n: u64, radix: u64, width: usize)
    requires
        2 <= radix <= 36,
    ensures
        final(out)@ == old(out)@ + ascii_chars(padded_digits(n as nat, radix as nat, width as nat)),
{
    let count = digit_count(n, radix);
    let ghost start = out@;
    let mut k = count;
    while k < width
        invariant
            count <= k <= width || k == count,
            out@ == start + Seq::new((k - count) as nat, |i: int| '0'),
        decreases width - k,
    {
        out.push('0');
        k += 1;
        proof {
            assert(out@ =~= start + Seq::new((k - count) as nat, |i: int| '0'));
        }
    }
    push_digits(out, n, radix);
    proof {
        let digits = digits_of(n as nat, radix as nat);
        if digits.len() < width {
            assert(ascii_chars(padded_digits(n as nat, radix as nat, width as nat)) =~= Seq::new(
                (width - count) as nat,
                |i: int| '0',
            ) + ascii_chars(digits));
        }
    }
}

/// Appends `00` `count` times.
pub fn push_zero_pairs(out: &mut String, count: u64)
    ensures
        final(out)@ == old(out)@ + Seq::new(2 * count as nat, |i: int| '0'),
{
    let ghost start = out@;
    let mut k: u64 = 0;
    while k < count
        invariant
            k <= count,
            out@ == start + Seq::new(2 * k as nat, |i: int| '0'),
        decreases count - k,
    {
        out.push('0');
        out.push('0');
        k += 1;
        proof {
            assert(out@ =~= start + Seq::new(2 * k as nat, |i: int| '0'));
        }
    }
}

/// `line N: `, the prefix of messages about line `N` of a chart file.
pub open spec fn line_text(line: nat) -> Seq<char> {
    "line "@ + ascii_chars(digits_of(line, 10)) + ": "@
}

/// Starts a message about line `line` of a chart file.
pub fn line_prefix(line: usize) -> (text: String)
    ensures
        text@ == line_text(line as nat),
{
    let mut text = String::from_str("line ");
    push_digits(&mut text, line as u64, 10);
    text.append(": ");
    text
}

/// The text `s` between backquotes.
pub open spec fn quoted(s: Seq<char>) -> Seq<char> {
    "`"@ + s + "`"@
}

/// Appends `s` between backquotes.
pub fn push_quoted(out: &mut String, s: &str)
    ensures
        final(out)@ == old(out)@ + quoted(s@),
{
    out.append("`");
    out.append(s);
    out.append("`");
    proof {
        assert(final(out)@ =~= old(out)@ + quoted(s@));
    }
}


/// The pieces between occurrences of `c`, like `split(c)`: one more piece
/// than there are occurrences, empty pieces included.
pub open spec fn split_spec(chars: Seq<char>, c: char) -> Seq<Seq<char>>
    decreases chars.len(),
{
    if chars.len() == 0 {
        seq![Seq::empty()]
    } else {
        let before = split_spec(chars.drop_last(), c);
        if chars.last() == c {
            before.push(Seq::empty())
        } else {
            before.update(before.len() - 1, before.last().push(chars.last()))
        }
    }
}

/// The views of a list of strings.
pub open spec fn texts(strings: Seq<String>) -> Seq<Seq<char>> {
    strings.map_values(|s: String| s@)
}

proof fn lemma_split_nonempty(chars: Seq<char>, c: char)
    ensures
        split_spec(chars, c).len() >= 1,
    decreases chars.len(),
{
    if chars.len() > 0 {
        lemma_split_nonempty(chars.drop_last(), c);
    }
}

/// Splits at every occurrence of `c`, like `split(c)`.
pub fn split_at_char(chars: &[char], c: char) -> (pieces: Vec<String>)
    ensures
        texts(pieces@) == split_spec(chars@, c),
{
    let mut pieces: Vec<String> = Vec::new();
    let mut current = String::new();
    let mut k: usize = 0;
    while k < chars.len()
        invariant
            k <= chars@.len(),
            texts(pieces@).push(current@) == split_spec(chars@.take(k as int), c),
        decreases chars@.len() - k,
    {
        let ghost before = chars@.take(k as int);
        proof {
            assert(chars@.take(k + 1).drop_last() == before);
            assert(chars@.take(k + 1).last() == chars@[k as int]);
            lemma_split_nonempty(before, c);
        }
        if chars[k] == c {
            let mut finished = String::new();
            std::mem::swap(&mut finished, &mut current);
            pieces.push(finished);
            proof {
                assert(texts(pieces@) =~= texts(pieces@.drop_last()).push(finished@));
                assert(texts(pieces@).push(current@) =~= split_spec(before, c).push(Seq::empty()));
            }
        } else {
            let ghost old_current = current@;
            current.push(chars[k]);
            proof {
                let whole = split_spec(before, c);
                assert(texts(pieces@).push(current@) =~= whole.update(whole.len() - 1, whole.last().push(chars@[k as int])));
            }
        }
        k += 1;
    }
    pieces.push(current);
    proof {
        assert(chars@.take(k as int) == chars@);
        assert(texts(pieces@) =~= texts(pieces@.drop_last()).push(pieces@.last()@));
    }
    pieces
}

/// The fields of a line: the line without surrounding white space, split at
/// every occurrence of `separator`.
pub fn line_fields(line: &str, separator: char) -> (fields: Vec<String>)
    ensures
        texts(fields@) == split_spec(trim_spec(line@), separator),
{
    let chars = chars_of(line);
    let trimmed = trim(chars.as_slice());
    split_at_char(trimmed.as_slice(), separator)
}


/// The white-space separated words of a text, like `split_whitespace`.
pub open spec fn words_spec(chars: Seq<char>) -> Seq<Seq<char>>
    decreases chars.len(),
{
    if chars.len() == 0 {
        Seq::empty()
    } else {
        let before = words_spec(chars.drop_last());
        let c = chars.last();
        if is_space(c) {
            before
        } else if chars.len() >= 2 && !is_space(chars[chars.len() - 2]) {
            before.update(before.len() - 1, before.last().push(c))
        } else {
            before.push(seq![c])
        }
    }
}

proof fn lemma_words_nonempty(chars: Seq<char>)
    requires
        chars.len() > 0,
        !is_space(chars.last()),
    ensures
        words_spec(chars).len() >= 1,
    decreases chars.len(),
{
    if chars.len() >= 2 && !is_space(chars[chars.len() - 2]) {
        assert(chars.drop_last().last() == chars[chars.len() - 2]);
        lemma_words_nonempty(chars.drop_last());
    }
}

/// Splits a text into its white-space separated words, like `split_whitespace`.
pub fn words(text: &str) -> (words: Vec<String>)
    ensures
        texts(words@) == words_spec(text@),
{
    let chars = chars_of(text);
    let mut done: Vec<String> = Vec::new();
    let mut current = String::new();
    let mut in_word = false;
    let mut k: usize = 0;
    while k < chars.len()
        invariant
            k <= chars@.len(),
            chars@ == text@,
            in_word ==> k > 0 && !is_space(chars@[k - 1]) && texts(done@).push(current@) == words_spec(
                chars@.take(k as int),
            ),
            !in_word ==> (k == 0 || is_space(chars@[k - 1])) && texts(done@) == words_spec(chars@.take(k as int))
                && current@ == Seq::<char>::empty(),
        decreases chars@.len() - k,
    {
        let c = chars[k];
        let ghost before = chars@.take(k as int);
        proof {
            assert(chars@.take(k + 1).drop_last() == before);
            assert(chars@.take(k + 1).last() == c);
            if k > 0 {
                assert(chars@.take(k + 1)[k - 1] == chars@[k - 1]);
            }
        }
        if is_space_char(c) {
            if in_word {
                let mut finished = String::new();
                std::mem::swap(&mut finished, &mut current);
                done.push(finished);
                proof {
                    assert(texts(done@) =~= texts(done@.drop_last()).push(finished@));
                }
            }
            in_word = false;
        } else if in_word {
            proof {
                lemma_words_nonempty(before);
            }
            current.push(c);
            proof {
                let w = words_spec(before);
                assert(texts(done@).push(current@) =~= w.update(w.len() - 1, w.last().push(c)));
            }
        } else {
            current.push(c);
            in_word = true;
            proof {
                assert(current@ =~= seq![c]);
                assert(texts(done@).push(current@) =~= words_spec(before).push(seq![c]));
            }
        }
        k += 1;
    }
    proof {
        assert(chars@.take(k as int) == chars@);
    }
    if in_word {
        done.push(current);
        proof {
            assert(texts(done@) =~= texts(done@.drop_last()).push(done@.last()@));
        }
    }
    done
}

} // verus!
