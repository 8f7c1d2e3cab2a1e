//! Format classification of textual call parameters.

use vstd::prelude::*;
use vstd::string::StrSliceExecFns;

verus! {

/// Type of a parameter passed into a contract method, inferred from its text.
#[derive(Clone, Copy, Debug, PartialEq, Eq, Structural)]
pub enum FnParamType {
    Address,
    String,
    HU256,
    DU256,
}

pub open spec fn is_hex_char(c: char) -> bool {
    ('0' <= c && c <= '9') || ('a' <= c && c <= 'f') || ('A' <= c && c <= 'F')
}

pub open spec fn is_dec_char(c: char) -> bool {
    '0' <= c && c <= '9'
}

pub open spec fn is_octal_char(c: char) -> bool {
    '0' <= c && c <= '7'
}

pub open spec fn all_hex(s: Seq<char>) -> bool {
    forall|i: int| 0 <= i < s.len() ==> #[trigger] is_hex_char(s[i])
}

pub open spec fn all_dec(s: Seq<char>) -> bool {
    forall|i: int| 0 <= i < s.len() ==> #[trigger] is_dec_char(s[i])
}

/// `s` starts with `0x`, the `x` in either case.
pub open spec fn has_hex_prefix(s: Seq<char>) -> bool {
    s.len() >= 2 && s[0] == '0' && (s[1] == 'x' || s[1] == 'X')
}

/// `^(0x)?[0-9a-f]{40}$`, ignoring case.
pub open spec fn is_address_text(s: Seq<char>) -> bool {
    (s.len() == 40 && all_hex(s)) || (s.len() == 42 && has_hex_prefix(s) && all_hex(
        s.subrange(2, 42),
    ))
}

/// `^0x[0-9a-f]+$`, ignoring case.
pub open spec fn is_hex_integer_text(s: Seq<char>) -> bool {
    has_hex_prefix(s) && s.len() > 2 && all_hex(s.subrange(2, s.len() as int))
}

/// The digits of a decimal integer: `[1-9][0-9]*`.
pub open spec fn is_positive_decimal_digits(d: Seq<char>) -> bool {
    d.len() > 0 && d[0] != '0' && all_dec(d)
}

/// `^-?[1-9][0-9]*$`.
pub open spec fn is_decimal_integer_text(s: Seq<char>) -> bool {
    if s.len() > 0 && s[0] == '-' {
        is_positive_decimal_digits(s.subrange(1, s.len() as int))
    } else {
        is_positive_decimal_digits(s)
    }
}

/// `0o` (the `o` in either case) followed by an octal digit, anywhere in `s`.
pub open spec fn contains_octal_literal(s: Seq<char>) -> bool {
    exists|i: int|
        0 <= i && i + 3 <= s.len() && #[trigger] s[i] == '0' && (s[i + 1] == 'o' || s[i + 1]
            == 'O') && is_octal_char(s[i + 2])
}

/// The classification of a parameter text, in priority order: address first,
/// then hexadecimal integer, then decimal integer, text otherwise.
pub open spec fn param_type_of(s: Seq<char>) -> FnParamType {
    if is_address_text(s) {
        FnParamType::Address
    } else if is_hex_integer_text(s) {
        FnParamType::HU256
    } else if is_decimal_integer_text(s) {
        FnParamType::DU256
    } else {
        FnParamType::String
    }
}

fn is_hex_digit(c: char) -> (r: bool)
    ensures
        r == is_hex_char(c),
{
    ('0' <= c && c <= '9') || ('a' <= c && c <= 'f') || ('A' <= c && c <= 'F')
}

/// Whether every character of `s` from index `from` up to `to` is a hex digit.
fn hex_run(s: &str, from: usize, to: usize) -> (r: bool)
    requires
        from <= to <= s@.len(),
    ensures
        r == all_hex(s@.subrange(from as int, to as int)),
{
    let mut i = from;
    while i < to
        invariant
            from <= i <= to <= s@.len(),
            all_hex(s@.subrange(from as int, i as int)),
        decreases to - i,
    {
        if !is_hex_digit(s.get_char(i)) {
            assert(!is_hex_char(s@.subrange(from as int, to as int)[i - from]));
            return false;
        }
        assert(s@.subrange(from as int, i + 1) =~= s@.subrange(from as int, i as int).push(
            s@[i as int],
        ));
        i = i + 1;
    }
    true
}

/// Whether every character of `s` from index `from` up to `to` is a decimal digit.
fn dec_run(s: &str, from: usize, to: usize) -> (r: bool)
    requires
        from <= to <= s@.len(),
    ensures
        r == all_dec(s@.subrange(from as int, to as int)),
{
    let mut i = from;
    while i < to
        invariant
            from <= i <= to <= s@.len(),
            all_dec(s@.subrange(from as int, i as int)),
        decreases to - i,
    {
        let c = s.get_char(i);
        if !('0' <= c && c <= '9') {
            assert(!is_dec_char(s@.subrange(from as int, to as int)[i - from]));
            return false;
        }
        assert(s@.subrange(from as int, i + 1) =~= s@.subrange(from as int, i as int).push(
            s@[i as int],
        ));
        i = i + 1;
    }
    true
}

fn starts_with_hex_prefix(s: &str, len: usize) -> (r: bool)
    requires
        len == s@.len(),
    ensures
        r == has_hex_prefix(s@),
{
    if len < 2 {
        return false;
    }
    let c1 = s.get_char(1);
    s.get_char(0) == '0' && (c1 == 'x' || c1 == 'X')
}

/// Whether `address` has the form of an address: 40 hex digits, optionally
/// prefixed by `0x`, in any case.
pub fn validate_address_format(address: &str) -> (r: bool)
    ensures
        r == is_address_text(address@),
{
    let len = address.unicode_len();
    if len == 40 {
        assert(address@.subrange(0, 40) =~= address@);
        hex_run(address, 0, 40)
    } else if len == 42 {
        starts_with_hex_prefix(address, len) && hex_run(address, 2, 42)
    } else {
        false
    }
}

/// Whether `s` is a hexadecimal integer: `0x` followed by one or more hex digits.
pub fn validate_hexadecimal_format(s: &str) -> (r: bool)
    ensures
        r == is_hex_integer_text(s@),
{
    let len = s.unicode_len();
    starts_with_hex_prefix(s, len) && len > 2 && hex_run(s, 2, len)
}

/// Whether `s` holds an octal literal: `0o` followed by an octal digit.
pub fn validate_octal_format(s: &str) -> (r: bool)
    ensures
        r == contains_octal_literal(s@),
{
    let len = s.unicode_len();
    let mut i: usize = 0;
    while len >= 3 && i <= len - 3
        invariant
            len == s@.len(),
            i <= len,
            forall|j: int|
                0 <= j < i ==> !(#[trigger] s@[j] == '0' && (s@[j + 1] == 'o' || s@[j + 1] == 'O')
                    && is_octal_char(s@[j + 2])),
        decreases len - i,
    {
        let c0 = s.get_char(i);
        let c1 = s.get_char(i + 1);
        let c2 = s.get_char(i + 2);
        if c0 == '0' && (c1 == 'o' || c1 == 'O') && '0' <= c2 && c2 <= '7' {
            return true;
        }
        i = i + 1;
    }
    proof {
        if contains_octal_literal(s@) {
            let j = choose|j: int|
                0 <= j && j + 3 <= s@.len() && #[trigger] s@[j] == '0' && (s@[j + 1] == 'o' || s@[j
                    + 1] == 'O') && is_octal_char(s@[j + 2]);
            assert(j < i);
        }
    }
    false
}

/// Whether `s` is a decimal integer: an optional minus sign, then a nonzero
/// digit and any further digits. A lone `0` is not one.
pub fn validate_decimal_format(s: &str) -> (r: bool)
    ensures
        r == is_decimal_integer_text(s@),
{
    let len = s.unicode_len();
    let start: usize = if len > 0 && s.get_char(0) == '-' {
        1
    } else {
        0
    };
    proof {
        if start == 0 {
            assert(s@.subrange(0, len as int) =~= s@);
        }
    }
    if start >= len {
        return false;
    }
    let first = s.get_char(start);
    assert(s@.subrange(start as int, len as int)[0] == first);
    first != '0' && dec_run(s, start, len)
}

/// Infers the type of a parameter from its text, in priority order: an
/// address, a hexadecimal integer, a decimal integer, or else a string.
pub fn parse_param_type(param_str: &str) -> (r: FnParamType)
    ensures
        r == param_type_of(param_str@),
{
    if validate_address_format(param_str) {
        FnParamType::Address
    } else if validate_hexadecimal_format(param_str) {
        FnParamType::HU256
    } else if validate_decimal_format(param_str) {
        FnParamType::DU256
    } else {
        FnParamType::String
    }
}

/// Every address text, `0x`-prefixed or not and in any case, is classified
/// as an address.
pub proof fn lemma_address_text_classified_as_address(s: Seq<char>)
    requires
        is_address_text(s),
    ensures
        param_type_of(s) == FnParamType::Address,
{
}

/// Every `0x`-prefixed run of hex digits that is not an address text is
/// classified as a hexadecimal integer.
pub proof fn lemma_hex_text_classified_as_hex_integer(s: Seq<char>)
    requires
        is_hex_integer_text(s),
        !is_address_text(s),
    ensures
        param_type_of(s) == FnParamType::HU256,
{
}

/// Every decimal integer text that is not also an address text (a run of
/// exactly 40 digits is one) is classified as a decimal integer.
pub proof fn lemma_decimal_text_classified_as_decimal_integer(s: Seq<char>)
    requires
        is_decimal_integer_text(s),
        !is_address_text(s),
    ensures
        param_type_of(s) == FnParamType::DU256,
{
    if has_hex_prefix(s) {
        if s[0] == '-' {
        } else {
            assert(s[0] != '0');
        }
    }
}

} // verus!
