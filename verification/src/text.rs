use vstd::prelude::*;
use vstd::string::StrSliceExecFns;
use vstd::string::StringExecFns;
use vstd::utf8::decode_utf8;
use vstd::utf8::valid_utf8;

verus! {

/// What `String::from_utf8_lossy` makes of a run of bytes: the text they
/// encode, each invalid sequence replaced by U+FFFD.
pub uninterp spec fn lossy_text(bytes: Seq<u8>) -> Seq<char>;

/// `String::from_utf8_lossy`, as an owned string. The result is named by
/// `lossy_text`; of valid UTF-8 it is the text that the bytes encode.
#[verifier::external_body]
fn utf8_lossy(bytes: &[u8]) -> (text: String)
    ensures
        text@ == lossy_text(bytes@),
        valid_utf8(bytes@) ==> text@ == decode_utf8(bytes@),
{
    String::from_utf8_lossy(bytes).into_owned()
}

/// The text of a run of bytes: the text that they encode where they are valid
/// UTF-8, and else that text with U+FFFD in the place of each invalid
/// sequence.
pub open spec fn text_of(bytes: Seq<u8>) -> Seq<char> {
    if valid_utf8(bytes) {
        decode_utf8(bytes)
    } else {
        lossy_text(bytes)
    }
}

/// The text of a run of bytes, with U+FFFD for what is not UTF-8. Valid UTF-8
/// comes out as the text that it encodes.
pub fn lossy_string(bytes: &[u8]) -> (text: String)
    ensures
        text@ == text_of(bytes@),
{
    utf8_lossy(bytes)
}

/// `std::str::Utf8Error`, carried as it is: nothing is known of what it
/// holds.
#[verifier::external_type_specification]
#[verifier::external_body]
pub struct ExUtf8Error(std::str::Utf8Error);

/// `Clone` of `std::str::Utf8Error`; nothing is claimed of the copy.
pub assume_specification[ <std::str::Utf8Error as Clone>::clone ](
    e: &std::str::Utf8Error,
) -> std::str::Utf8Error;

/// `core::str::from_utf8`: it succeeds on valid UTF-8 and on nothing else, and
/// then gives the text that the bytes encode.
pub assume_specification<'a>[ core::str::from_utf8 ](bytes: &'a [u8]) -> (text: Result<
    &'a str,
    core::str::Utf8Error,
>)
    ensures
        text is Ok <==> valid_utf8(bytes@),
        text matches Ok(s) ==> s@ == decode_utf8(bytes@),
;

/// The text that `bytes` encode, where they are valid UTF-8.
pub fn utf8_checked(bytes: &[u8]) -> (text: Result<String, std::str::Utf8Error>)
    ensures
        text is Ok <==> valid_utf8(bytes@),
        text matches Ok(s) ==> s@ == decode_utf8(bytes@),
{
    match core::str::from_utf8(bytes) {
        Ok(s) => Ok(s.to_owned()),
        Err(e) => Err(e),
    }
}

/// `c` has the Unicode property White_Space.
pub open spec fn is_whitespace_char(c: char) -> bool {
    let n = c as u32;
    ||| 0x09 <= n <= 0x0d
    ||| n == 0x20
    ||| n == 0x85
    ||| n == 0xa0
    ||| n == 0x1680
    ||| 0x2000 <= n <= 0x200a
    ||| n == 0x2028
    ||| n == 0x2029
    ||| n == 0x202f
    ||| n == 0x205f
    ||| n == 0x3000
}

/// Whether `c` is white space.
pub fn is_whitespace(c: char) -> (white: bool)
    ensures
        white == is_whitespace_char(c),
{
    let n: u32 = c as u32;
    (0x09 <= n && n <= 0x0d) || n == 0x20 || n == 0x85 || n == 0xa0 || n == 0x1680 || (0x2000 <= n
        && n <= 0x200a) || n == 0x2028 || n == 0x2029 || n == 0x202f || n == 0x205f || n == 0x3000
}

/// The end of the run of characters other than white space that starts at
/// `from`.
pub open spec fn word_end(s: Seq<char>, from: int) -> int
    decreases s.len() - from,
{
    if from < 0 || from >= s.len() || is_whitespace_char(s[from]) {
        from
    } else {
        word_end(s, from + 1)
    }
}

/// A word ends inside the text, holds no white space, and ends at white
/// space or at the end of the text.
pub proof fn lemma_word_end_bounds(s: Seq<char>, from: int)
    requires
        0 <= from <= s.len(),
    ensures
        from <= word_end(s, from) <= s.len(),
        forall|k: int| from <= k < word_end(s, from) ==> !is_whitespace_char(#[trigger] s[k]),
        word_end(s, from) < s.len() ==> is_whitespace_char(s[word_end(s, from)]),
    decreases s.len() - from,
{
    if from < s.len() && !is_whitespace_char(s[from]) {
        lemma_word_end_bounds(s, from + 1);
    }
}

/// The words of `s` from index `from` on: its maximal runs of characters other
/// than white space, in order.
pub open spec fn words_from(s: Seq<char>, from: int) -> Seq<Seq<char>>
    decreases s.len() - from,
{
    if from < 0 || from >= s.len() {
        Seq::empty()
    } else if is_whitespace_char(s[from]) {
        words_from(s, from + 1)
    } else {
        let end = word_end(s, from + 1);
        proof {
            lemma_word_end_bounds(s, from + 1);
        }
        seq![s.subrange(from, end)] + words_from(s, end)
    }
}

/// The words of `s`: what is left of it when it is split at white space.
pub open spec fn words(s: Seq<char>) -> Seq<Seq<char>> {
    words_from(s, 0)
}

/// `w` is not empty and holds no white space.
pub open spec fn is_word(w: Seq<char>) -> bool {
    w.len() > 0 && forall|k: int| 0 <= k < w.len() ==> !is_whitespace_char(#[trigger] w[k])
}

/// No word is empty, and no word holds white space.
pub proof fn lemma_words_hold_no_white_space(s: Seq<char>, from: int)
    requires
        0 <= from <= s.len(),
    ensures
        forall|i: int|
            0 <= i < words_from(s, from).len() ==> is_word(#[trigger] words_from(s, from)[i]),
    decreases s.len() - from,
{
    if from < s.len() {
        if is_whitespace_char(s[from]) {
            lemma_words_hold_no_white_space(s, from + 1);
            assert(words_from(s, from) == words_from(s, from + 1));
        } else {
            let end = word_end(s, from + 1);
            lemma_word_end_bounds(s, from + 1);
            lemma_words_hold_no_white_space(s, end);
            let word = s.subrange(from, end);
            let rest = words_from(s, end);
            assert(words_from(s, from) == seq![word] + rest);
            assert(is_word(word)) by {
                assert forall|k: int| 0 <= k < word.len() implies !is_whitespace_char(
                    #[trigger] word[k],
                ) by {
                    assert(word[k] == s[from + k]);
                }
            }
            assert forall|i: int| 0 <= i < words_from(s, from).len() implies is_word(
                #[trigger] words_from(s, from)[i],
            ) by {
                if i > 0 {
                    assert(words_from(s, from)[i] == rest[i - 1]);
                } else {
                    assert(words_from(s, from)[i] == word);
                }
            }
        }
    }
}

/// The characters of `s`, one by one.
pub fn chars_of(s: &str) -> (v: Vec<char>)
    ensures
        v@ == s@,
{
    let mut v: Vec<char> = Vec::new();
    for c in it: s.chars()
        invariant
            it.seq() == s@,
            v@ == s@.subrange(0, it.index() as int),
    {
        v.push(c);
    }
    v
}

/// Splits `s` at white space. No word of the result is empty.
pub fn split_whitespace(s: &str) -> (out: Vec<String>)
    ensures
        out.deep_view() == words(s@),
{
    let cs = chars_of(s);
    let n: usize = cs.len();
    let mut out: Vec<String> = Vec::new();
    let mut i: usize = 0;
    while i < n
        invariant
            cs@ == s@,
            n == cs@.len(),
            i <= n,
            out.deep_view() + words_from(s@, i as int) == words(s@),
        decreases n - i,
    {
        if is_whitespace(cs[i]) {
            i = i + 1;
        } else {
            let start: usize = i;
            i = i + 1;
            while i < n && !is_whitespace(cs[i])
                invariant
                    cs@ == s@,
                    n == cs@.len(),
                    start < i <= n,
                    word_end(s@, i as int) == word_end(s@, start + 1),
                decreases n - i,
            {
                i = i + 1;
            }
            let word = s.substring_char(start, i).to_owned();
            let ghost before = out.deep_view();
            out.push(word);
            proof {
                assert(out.deep_view() + words_from(s@, i as int) =~= before + words_from(
                    s@,
                    start as int,
                ));
            }
        }
    }
    out
}

/// `c` is one of the ASCII digits.
pub open spec fn is_digit_char(c: char) -> bool {
    0x30 <= c as u32 <= 0x39
}

/// Every character of `s` is an ASCII digit.
pub open spec fn all_digits(s: Seq<char>) -> bool {
    forall|i: int| 0 <= i < s.len() ==> is_digit_char(#[trigger] s[i])
}

/// The number that a run of ASCII digits spells in base ten.
pub open spec fn digits_value(s: Seq<char>) -> int
    decreases s.len(),
{
    if s.len() == 0 {
        0
    } else {
        digits_value(s.drop_last()) * 10 + (s.last() as u32 - 0x30)
    }
}

/// The digits of a decimal numeral: `s` without the `+` that may lead it.
pub open spec fn unsigned_digits(s: Seq<char>) -> Seq<char> {
    if s.len() > 0 && s[0] == '+' {
        s.drop_first()
    } else {
        s
    }
}

/// The number that `s` spells as a decimal numeral of 64 bits: an optional `+`,
/// then one or more ASCII digits and nothing else, with a value that fits.
pub open spec fn decimal_u64(s: Seq<char>) -> Option<u64> {
    let d = unsigned_digits(s);
    if d.len() > 0 && all_digits(d) && digits_value(d) <= u64::MAX {
        Some(digits_value(d) as u64)
    } else {
        None
    }
}

/// The value of a run of digits is at least the value of each of its prefixes.
pub proof fn lemma_digits_value_prefix(s: Seq<char>, k: int)
    requires
        all_digits(s),
        0 <= k <= s.len(),
    ensures
        0 <= digits_value(s.subrange(0, k)) <= digits_value(s),
    decreases s.len(),
{
    if s.len() == 0 {
        assert(s.subrange(0, k) =~= s);
    } else if k == s.len() {
        assert(s.subrange(0, k) =~= s);
        lemma_digits_value_prefix(s.drop_last(), k - 1);
    } else {
        lemma_digits_value_prefix(s.drop_last(), k);
        assert(s.drop_last().subrange(0, k) =~= s.subrange(0, k));
        lemma_digits_value_prefix(s.drop_last(), s.len() - 1);
    }
}

/// Reads `s` as a decimal numeral of 64 bits.
pub fn parse_u64(s: &str) -> (value: Option<u64>)
    ensures
        value == decimal_u64(s@),
{
    let cs = chars_of(s);
    let n: usize = cs.len();
    let start: usize = if n > 0 && cs[0] == '+' {
        1
    } else {
        0
    };
    let ghost d = unsigned_digits(s@);
    if start == n {
        return None;
    }
    let mut acc: u64 = 0;
    let mut i: usize = start;
    while i < n
        invariant
            cs@ == s@,
            n == cs@.len(),
            start <= i <= n,
            d == s@.subrange(start as int, n as int),
            d == unsigned_digits(s@),
            d.len() > 0,
            all_digits(d.subrange(0, i - start)),
            acc == digits_value(d.subrange(0, i - start)),
        decreases n - i,
    {
        let c: u32 = cs[i] as u32;
        let ghost next = d.subrange(0, i + 1 - start);
        proof {
            assert(next.drop_last() =~= d.subrange(0, i - start));
        }
        if c < 0x30 || c > 0x39 {
            assert(!is_digit_char(d[i - start]));
            return None;
        }
        let digit: u64 = (c - 0x30) as u64;
        if acc > (u64::MAX - digit) / 10 {
            proof {
                if all_digits(d) {
                    lemma_digits_value_prefix(d, i + 1 - start);
                }
            }
            return None;
        }
        acc = acc * 10 + digit;
        i = i + 1;
    }
    assert(d.subrange(0, n - start) =~= d);
    Some(acc)
}

/// The character of a digit below ten.
pub open spec fn digit_char(d: int) -> char {
    (0x30 + d) as u8 as char
}

/// The decimal numeral of `n`, without leading zeros.
pub open spec fn decimal(n: nat) -> Seq<char>
    decreases n,
{
    if n < 10 {
        seq![digit_char(n as int)]
    } else {
        decimal(n / 10).push(digit_char((n % 10) as int))
    }
}

/// The decimal numeral of a number is all digits, and spells the number: what
/// is written as a number is read as that number.
pub proof fn lemma_decimal_round_trip(n: u64)
    ensures
        decimal_u64(decimal(n as nat)) == Some(n),
{
    lemma_decimal_spells(n as nat);
    assert(decimal(n as nat)[0] != '+');
}

/// The decimal numeral of a number is not empty, is all digits, and spells
/// the number.
pub proof fn lemma_decimal_spells(n: nat)
    ensures
        decimal(n).len() > 0,
        all_digits(decimal(n)),
        digits_value(decimal(n)) == n,
    decreases n,
{
    let d = (n % 10) as int;
    assert(digit_char(d) as u32 == 0x30 + d);
    if n < 10 {
        assert(decimal(n).drop_last() =~= Seq::<char>::empty());
        assert(digits_value(Seq::<char>::empty()) == 0);
        assert(decimal(n).last() == digit_char(d));
    } else {
        lemma_decimal_spells(n / 10);
        assert(decimal(n).drop_last() =~= decimal(n / 10));
        assert(decimal(n).last() == digit_char(d));
    }
}

/// The numeral of a digit below ten.
fn digit_str(d: u64) -> (s: &'static str)
    requires
        d < 10,
    ensures
        s@ == seq![digit_char(d as int)],
{
    proof {
        reveal_strlit("0");
        reveal_strlit("1");
        reveal_strlit("2");
        reveal_strlit("3");
        reveal_strlit("4");
        reveal_strlit("5");
        reveal_strlit("6");
        reveal_strlit("7");
        reveal_strlit("8");
        reveal_strlit("9");
    }
    let s = match d {
        0 => "0",
        1 => "1",
        2 => "2",
        3 => "3",
        4 => "4",
        5 => "5",
        6 => "6",
        7 => "7",
        8 => "8",
        _ => "9",
    };
    s
}

/// Appends the decimal numeral of `n` to `out`.
pub fn push_decimal(out: &mut String, n: u64)
    ensures
        final(out)@ == old(out)@ + decimal(n as nat),
    decreases n,
{
    if n >= 10 {
        push_decimal(out, n / 10);
    }
    out.append(digit_str(n % 10));
    assert(final(out)@ =~= old(out)@ + decimal(n as nat));
}

} // verus!
