//! Character-level grammars of AAIS texts (identifiers, timestamp offsets,
//! digests) and the text building blocks the library uses.
use vstd::prelude::*;
use vstd::string::StrSliceExecFns;
use vstd::string::StringExecFns;
use crate::external::{
    hex_digit_char, is_lower_hex_char, is_unicode_decimal_digit, unicode_decimal_digit,
};

verus! {

pub open spec fn is_ascii_digit(c: char) -> bool {
    '0' <= c && c <= '9'
}

pub open spec fn is_ascii_alnum(c: char) -> bool {
    is_ascii_digit(c) || ('A' <= c && c <= 'Z') || ('a' <= c && c <= 'z')
}

/// A character allowed after the first one of an identifier.
pub open spec fn is_id_char(c: char) -> bool {
    is_ascii_alnum(c) || c == '.' || c == '_' || c == ':' || c == '-'
}

/// An AAIS identifier: 1 to 200 characters, starting with an ASCII letter or
/// digit, continuing with letters, digits, `.`, `_`, `:` or `-`.
pub open spec fn valid_id_text(s: Seq<char>) -> bool {
    &&& 0 < s.len() <= 200
    &&& is_ascii_alnum(s[0])
    &&& forall|i: int| 1 <= i < s.len() ==> is_id_char(#[trigger] s[i])
}

/// A timestamp text that ends with an explicit offset: `Z`, or a sign, two
/// decimal digits (of any script), a colon and two decimal digits.
pub open spec fn has_explicit_offset_text(s: Seq<char>) -> bool {
    ||| s.len() >= 1 && s[s.len() - 1] == 'Z'
    ||| {
        &&& s.len() >= 6
        &&& (s[s.len() - 6] == '+' || s[s.len() - 6] == '-')
        &&& unicode_decimal_digit(s[s.len() - 5])
        &&& unicode_decimal_digit(s[s.len() - 4])
        &&& s[s.len() - 3] == ':'
        &&& unicode_decimal_digit(s[s.len() - 2])
        &&& unicode_decimal_digit(s[s.len() - 1])
    }
}

pub open spec fn digest_prefix() -> Seq<char> {
    seq!['s', 'h', 'a', '2', '5', '6', ':']
}

/// `sha256:` followed by exactly 64 lowercase hexadecimal digits.
pub open spec fn is_digest_text(s: Seq<char>) -> bool {
    &&& s.len() == 71
    &&& s.subrange(0, 7) == digest_prefix()
    &&& forall|i: int| 7 <= i < 71 ==> is_lower_hex_char(#[trigger] s[i])
}

/// Lowercase hexadecimal text of a byte sequence, two digits per byte.
pub open spec fn lower_hex_text(bytes: Seq<u8>) -> Seq<char>
    decreases bytes.len(),
{
    if bytes.len() == 0 {
        Seq::empty()
    } else {
        lower_hex_text(bytes.drop_last()) + seq![
            hex_digit_char(bytes.last() / 16),
            hex_digit_char(bytes.last() % 16),
        ]
    }
}

/// The items joined by a separator.
pub open spec fn join_text(items: Seq<Seq<char>>, sep: Seq<char>) -> Seq<char>
    decreases items.len(),
{
    if items.len() == 0 {
        Seq::empty()
    } else if items.len() == 1 {
        items[0]
    } else {
        join_text(items.drop_last(), sep) + sep + items.last()
    }
}

fn is_alnum_char(c: char) -> (r: bool)
    ensures
        r == is_ascii_alnum(c),
{
    ('0' <= c && c <= '9') || ('A' <= c && c <= 'Z') || ('a' <= c && c <= 'z')
}

fn is_hex_char(c: char) -> (r: bool)
    ensures
        r == is_lower_hex_char(c),
{
    ('0' <= c && c <= '9') || ('a' <= c && c <= 'f')
}

/// Whether `value` is an AAIS identifier.
pub fn valid_id(value: &str) -> (r: bool)
    ensures
        r == valid_id_text(value@),
{
    let n = value.unicode_len();
    if n == 0 || n > 200 {
        return false;
    }
    if !is_alnum_char(value.get_char(0)) {
        return false;
    }
    let mut i: usize = 1;
    while i < n
        invariant
            1 <= i <= n,
            n == value@.len(),
            forall|j: int| 1 <= j < i ==> is_id_char(#[trigger] value@[j]),
        decreases n - i,
    {
        let c = value.get_char(i);
        if !(is_alnum_char(c) || c == '.' || c == '_' || c == ':' || c == '-') {
            return false;
        }
        i = i + 1;
    }
    true
}

/// Whether a timestamp text ends with an explicit offset.
pub fn has_explicit_offset(value: &str) -> (r: bool)
    ensures
        r == has_explicit_offset_text(value@),
{
    let n = value.unicode_len();
    if n >= 1 && value.get_char(n - 1) == 'Z' {
        return true;
    }
    if n < 6 {
        return false;
    }
    let sign = value.get_char(n - 6);
    (sign == '+' || sign == '-') && is_unicode_decimal_digit(value.get_char(n - 5))
        && is_unicode_decimal_digit(value.get_char(n - 4)) && value.get_char(n - 3) == ':'
        && is_unicode_decimal_digit(value.get_char(n - 2)) && is_unicode_decimal_digit(
        value.get_char(n - 1),
    )
}

/// Whether a text is `sha256:` followed by 64 lowercase hexadecimal digits.
pub fn is_digest(value: &str) -> (r: bool)
    ensures
        r == is_digest_text(value@),
{
    let n = value.unicode_len();
    if n != 71 {
        return false;
    }
    if !(value.get_char(0) == 's' && value.get_char(1) == 'h' && value.get_char(2) == 'a'
        && value.get_char(3) == '2' && value.get_char(4) == '5' && value.get_char(5) == '6'
        && value.get_char(6) == ':') {
        assert(value@.subrange(0, 7) != digest_prefix()) by {
            if value@.subrange(0, 7) == digest_prefix() {
                assert(value@[0] == value@.subrange(0, 7)[0]);
                assert(value@[1] == value@.subrange(0, 7)[1]);
                assert(value@[2] == value@.subrange(0, 7)[2]);
                assert(value@[3] == value@.subrange(0, 7)[3]);
                assert(value@[4] == value@.subrange(0, 7)[4]);
                assert(value@[5] == value@.subrange(0, 7)[5]);
                assert(value@[6] == value@.subrange(0, 7)[6]);
            }
        }
        return false;
    }
    assert(value@.subrange(0, 7) =~= digest_prefix());
    let mut i: usize = 7;
    while i < 71
        invariant
            7 <= i <= 71,
            n == value@.len(),
            n == 71,
            forall|j: int| 7 <= j < i ==> is_lower_hex_char(#[trigger] value@[j]),
        decreases 71 - i,
    {
        if !is_hex_char(value.get_char(i)) {
            return false;
        }
        i = i + 1;
    }
    true
}

/// The one-character text of a hexadecimal digit.
fn hex_digit_str(n: u8) -> (r: &'static str)
    requires
        n < 16,
    ensures
        r@ == seq![hex_digit_char(n)],
{
    let r = if n == 0 {
        "0"
    } else if n == 1 {
        "1"
    } else if n == 2 {
        "2"
    } else if n == 3 {
        "3"
    } else if n == 4 {
        "4"
    } else if n == 5 {
        "5"
    } else if n == 6 {
        "6"
    } else if n == 7 {
        "7"
    } else if n == 8 {
        "8"
    } else if n == 9 {
        "9"
    } else if n == 10 {
        "a"
    } else if n == 11 {
        "b"
    } else if n == 12 {
        "c"
    } else if n == 13 {
        "d"
    } else if n == 14 {
        "e"
    } else {
        "f"
    };
    proof {
        reveal_strlit("0");
        reveal_strlit("1");
        reveal_strlit("2");
        reveal_strlit("3");
        reveal_strlit("4");
        reveal_strlit("5");
        reveal_strlit("6");
        reveal_strlit("7");
        reveal_strlit("8");
        reveal_strlit("9");
        reveal_strlit("a");
        reveal_strlit("b");
        reveal_strlit("c");
        reveal_strlit("d");
        reveal_strlit("e");
        reveal_strlit("f");
        assert(r@ =~= seq![hex_digit_char(n)]);
    }
    r
}

/// Appends the lowercase hexadecimal text of `bytes` to `out`.
pub fn append_lower_hex(out: &mut String, bytes: &Vec<u8>)
    ensures
        final(out)@ == old(out)@ + lower_hex_text(bytes@),
{
    let ghost start = out@;
    let mut i: usize = 0;
    while i < bytes.len()
        invariant
            i <= bytes@.len(),
            out@ == start + lower_hex_text(bytes@.take(i as int)),
        decreases bytes@.len() - i,
    {
        let b = bytes[i];
        out.append(hex_digit_str(b / 16));
        out.append(hex_digit_str(b % 16));
        assert(bytes@.take(i + 1).drop_last() =~= bytes@.take(i as int));
        i = i + 1;
    }
    assert(bytes@.take(bytes@.len() as int) =~= bytes@);
}

/// The text of a string literal, as an owned string.
pub fn owned(lit: &str) -> (r: String)
    ensures
        r@ == lit@,
{
    String::from_str(lit)
}

/// Whether a string holds exactly the text of a literal.
pub fn is_text(s: &String, lit: &str) -> (r: bool)
    ensures
        r == (s@ == lit@),
{
    *s == owned(lit)
}

/// Two texts one after the other.
pub fn concat(a: &str, b: &str) -> (r: String)
    ensures
        r@ == a@ + b@,
{
    let mut r = String::from_str(a);
    r.append(b);
    r
}

/// The items joined by `sep`.
pub fn join(items: &Vec<String>, sep: &str) -> (r: String)
    ensures
        r@ == join_text(items.deep_view(), sep@),
{
    let mut r = String::new();
    let mut i: usize = 0;
    while i < items.len()
        invariant
            i <= items@.len(),
            r@ == join_text(items.deep_view().take(i as int), sep@),
        decreases items@.len() - i,
    {
        proof {
            assert(items.deep_view().take(i + 1).drop_last() =~= items.deep_view().take(i as int));
        }
        if i > 0 {
            r.append(sep);
        } else {
            assert(r@ =~= Seq::<char>::empty());
        }
        r.append(items[i].as_str());
        i = i + 1;
    }
    assert(items.deep_view().take(items@.len() as int) =~= items.deep_view());
    r
}

/// Each byte gives two lowercase hexadecimal digits.
pub proof fn lemma_lower_hex_text(bytes: Seq<u8>)
    ensures
        lower_hex_text(bytes).len() == 2 * bytes.len(),
        forall|i: int|
            0 <= i < 2 * bytes.len() ==> is_lower_hex_char(#[trigger] lower_hex_text(bytes)[i]),
    decreases bytes.len(),
{
    if bytes.len() > 0 {
        lemma_lower_hex_text(bytes.drop_last());
        let b = bytes.last();
        assert(is_lower_hex_char(hex_digit_char(b / 16)));
        assert(is_lower_hex_char(hex_digit_char(b % 16)));
        let prev = lower_hex_text(bytes.drop_last());
        let whole = lower_hex_text(bytes);
        assert forall|i: int| 0 <= i < 2 * bytes.len() implies is_lower_hex_char(
            #[trigger] whole[i],
        ) by {
            if i < prev.len() {
                assert(whole[i] == prev[i]);
            }
        }
    }
}

} // verus!
