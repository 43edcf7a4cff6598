//! Reading a board placement out of a form field: percent-decoding, and a
//! list of small numbers separated by commas.

use vstd::prelude::*;
use vstd::string::*;

verus! {

/// The text that a percent-encoded string decodes to, or `None` where the
/// decoded bytes are not UTF-8: what `decode_utf8` gives on the result of
/// `percent_encoding::percent_decode_str`.
pub uninterp spec fn percent_decoded(text: Seq<char>) -> Option<Seq<char>>;

/// Calls `percent_encoding::percent_decode_str` on the text and `decode_utf8`
/// on what it returns, and hands back the decoded text, or `None` where
/// `decode_utf8` failed. The result is a function of the text alone, which
/// the contract records under the name `percent_decoded`; nothing more is
/// claimed.
#[verifier::external_body]
pub(crate) fn percent_decode(text: &str) -> (decoded: Option<String>)
    ensures
        decoded is Some <==> percent_decoded(text@) is Some,
        decoded is Some ==> decoded->0@ == percent_decoded(text@)->0,
{
    match percent_encoding::percent_decode_str(text).decode_utf8() {
        Ok(decoded) => Some(decoded.into_owned()),
        Err(_) => None,
    }
}

/// Whether a character is one of the ten decimal digits.
pub open spec fn is_digit(c: char) -> bool {
    '0' <= c <= '9'
}

/// The number that a string of digits stands for in decimal.
pub open spec fn digits_value(s: Seq<char>) -> nat
    decreases s.len(),
{
    if s.len() == 0 {
        0
    } else {
        digits_value(s.drop_last()) * 10 + (s.last() as nat - '0' as nat) as nat
    }
}

/// Whether a text consists of decimal digits.
pub open spec fn all_digits(s: Seq<char>) -> bool {
    forall|i: int| 0 <= i < s.len() ==> is_digit(#[trigger] s[i])
}

/// A text without the plus sign that may stand at its start.
pub open spec fn unsigned_part(s: Seq<char>) -> Seq<char> {
    if s.len() > 0 && s[0] == '+' {
        s.skip(1)
    } else {
        s
    }
}

/// The number that a text stands for, as `u8`: an optional plus sign, then
/// one or more decimal digits whose value is at most 255. Anything else is no
/// number.
pub open spec fn parsed_u8(s: Seq<char>) -> Option<u8> {
    let digits = unsigned_part(s);
    if digits.len() > 0 && all_digits(digits) && digits_value(digits) <= 255 {
        Some(digits_value(digits) as u8)
    } else {
        None
    }
}

/// The value of a string of digits is at least that of each of its prefixes.
proof fn lemma_prefix_value(s: Seq<char>, n: int)
    requires
        0 <= n <= s.len(),
        all_digits(s),
    ensures
        digits_value(s.take(n)) <= digits_value(s),
    decreases s.len() - n,
{
    if n == s.len() {
        assert(s.take(n) =~= s);
    } else {
        let longer = s.take(n + 1);
        assert(longer.drop_last() =~= s.take(n));
        assert(is_digit(s[n]));
        lemma_prefix_value(s, n + 1);
    }
}

/// Reads a `u8` in decimal.
pub fn parse_u8(text: &str) -> (value: Option<u8>)
    ensures
        value == parsed_u8(text@),
{
    let n: usize = text.unicode_len();
    let mut start: usize = 0;
    if n > 0 && text.get_char(0) == '+' {
        start = 1;
    }
    let ghost digits = unsigned_part(text@);
    assert(digits =~= text@.skip(start as int));
    if start == n {
        return None;
    }
    let mut value: u16 = 0;
    let mut i: usize = start;
    while i < n
        invariant
            start <= i <= n,
            n == text@.len(),
            digits == unsigned_part(text@),
            digits =~= text@.skip(start as int),
            forall|j: int| 0 <= j < i - start ==> is_digit(#[trigger] digits[j]),
            value == digits_value(digits.take(i - start)),
            value <= 255,
        decreases n - i,
    {
        let c: char = text.get_char(i);
        if !(c >= '0' && c <= '9') {
            assert(!is_digit(digits[i - start]));
            return None;
        }
        let d: u16 = (c as u8 - '0' as u8) as u16;
        value = value * 10 + d;
        proof {
            let longer = digits.take(i - start + 1);
            assert(longer.drop_last() =~= digits.take(i - start));
            assert(longer.last() == c);
        }
        if value > 255 {
            proof {
                if all_digits(digits) {
                    lemma_prefix_value(digits, i - start + 1);
                }
            }
            return None;
        }
        i += 1;
    }
    assert(digits.take(n - start) =~= digits);
    Some(value as u8)
}

/// The place of the first comma of a text, or its length where it has none.
pub open spec fn comma_at(s: Seq<char>) -> int
    decreases s.len(),
{
    if s.len() == 0 {
        0
    } else if s[0] == ',' {
        0
    } else {
        1 + comma_at(s.skip(1))
    }
}

/// The first comma stands where no comma stands before.
proof fn lemma_comma_at(s: Seq<char>, k: int)
    requires
        0 <= k <= s.len(),
        forall|i: int| 0 <= i < k ==> s[i] != ',',
        k < s.len() ==> s[k] == ',',
    ensures
        comma_at(s) == k,
    decreases s.len(),
{
    if s.len() > 0 && k > 0 {
        let rest = s.skip(1);
        assert forall|i: int| 0 <= i < k - 1 implies rest[i] != ',' by {
            assert(rest[i] == s[i + 1]);
        }
        lemma_comma_at(rest, k - 1);
    }
}

/// The numbers of a list separated by commas, each a `u8` in decimal; `None`
/// where one of the fields is no such number. A text without a comma is a
/// list of one field.
pub open spec fn parsed_board(s: Seq<char>) -> Option<Seq<u8>>
    decreases s.len(),
{
    let k = comma_at(s);
    match parsed_u8(s.take(k)) {
        None => None,
        Some(v) => if k < 0 || k >= s.len() {
            Some(seq![v])
        } else {
            match parsed_board(s.skip(k + 1)) {
                None => None,
                Some(rest) => Some(seq![v] + rest),
            }
        },
    }
}

/// The numbers read so far, followed by those of the rest.
spec fn continued(done: Seq<u8>, rest: Option<Seq<u8>>) -> Option<Seq<u8>> {
    match rest {
        None => None,
        Some(r) => Some(done + r),
    }
}

/// Reads a list of `u8` separated by commas.
pub fn parse_board(text: &str) -> (board: Option<Vec<u8>>)
    ensures
        board is Some <==> parsed_board(text@) is Some,
        board is Some ==> board->0@ == parsed_board(text@)->0,
{
    let n: usize = text.unicode_len();
    let mut out: Vec<u8> = Vec::new();
    let mut start: usize = 0;
    assert(text@.skip(0) =~= text@);
    assert(continued(out@, parsed_board(text@.skip(0))) == parsed_board(text@)) by {
        if parsed_board(text@) is Some {
            assert(out@ + parsed_board(text@)->0 =~= parsed_board(text@)->0);
        }
    }
    loop
        invariant
            start <= n,
            n == text@.len(),
            continued(out@, parsed_board(text@.skip(start as int))) == parsed_board(text@),
        decreases n - start,
    {
        let mut k: usize = start;
        while k < n && text.get_char(k) != ','
            invariant
                start <= k <= n,
                n == text@.len(),
                forall|j: int| start <= j < k ==> text@[j] != ',',
            decreases n - k,
        {
            k += 1;
        }
        let ghost rest = text@.skip(start as int);
        proof {
            assert forall|i: int| 0 <= i < k - start implies rest[i] != ',' by {
                assert(rest[i] == text@[start + i]);
            }
            lemma_comma_at(rest, k - start);
            assert(rest.take(k - start) =~= text@.subrange(start as int, k as int));
            if k < n {
                assert(rest.skip(k - start + 1) =~= text@.skip(k + 1));
            }
        }
        let field: &str = text.substring_char(start, k);
        let v: u8 = match parse_u8(field) {
            Some(v) => v,
            None => {
                return None;
            },
        };
        let ghost before = out@;
        out.push(v);
        if k >= n {
            proof {
                assert(before + seq![v] =~= out@);
            }
            return Some(out);
        }
        proof {
            let tail = parsed_board(text@.skip(k + 1));
            if tail is Some {
                assert(before + (seq![v] + tail->0) =~= out@ + tail->0);
            }
        }
        start = k + 1;
    }
}

} // verus!
