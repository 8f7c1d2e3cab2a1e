//! Conversion of classified parameter texts into chain-ready values.

use vstd::arithmetic::power2::{
    lemma2_to64, lemma_pow2_adds, lemma_pow2_pos, lemma_pow2_strictly_increases, pow2,
};
use vstd::prelude::*;
use vstd::string::StrSliceExecFns;

use crate::classify::{
    all_dec, all_hex, is_address_text, param_type_of, parse_param_type, validate_address_format,
    FnParamType,
};

verus! {

#[verifier::external_type_specification]
#[verifier::external_body]
pub struct ExFromHexError(hex::FromHexError);

/// A 20-byte account address.
#[derive(Clone, Copy, Debug, PartialEq, Eq)]
pub struct Address {
    pub bytes: [u8; 20],
}

/// An unsigned 256-bit integer, as four 64-bit words, least significant first.
#[derive(Clone, Copy, Debug, PartialEq, Eq)]
pub struct Uint256 {
    pub words: [u64; 4],
}

pub open spec fn words_value(w: Seq<u64>) -> nat {
    w[0] as nat + w[1] as nat * pow2(64) + w[2] as nat * pow2(128) + w[3] as nat * pow2(192)
}

impl Uint256 {
    pub open spec fn value(&self) -> nat {
        words_value(self.words@)
    }
}

/// A parameter value ready to be handed to a contract call.
#[derive(Clone, Debug)]
pub enum ParamValue {
    Address(Address),
    Uint(Uint256),
    Text(String),
}

/// What a parameter value stands for.
pub enum ParamModel {
    Address(Seq<u8>),
    Uint(nat),
    Text(Seq<char>),
}

impl View for ParamValue {
    type V = ParamModel;

    open spec fn view(&self) -> ParamModel {
        match self {
            ParamValue::Address(a) => ParamModel::Address(a.bytes@),
            ParamValue::Uint(u) => ParamModel::Uint(u.value()),
            ParamValue::Text(t) => ParamModel::Text(t@),
        }
    }
}

/// Why a parameter text could not be converted to the type inferred for it.
#[derive(Clone, Copy, Debug, PartialEq, Eq, Structural)]
pub enum EncodingError {
    Address,
    HexInteger,
    DecimalInteger,
}

pub open spec fn hex_val(c: char) -> nat {
    if '0' <= c && c <= '9' {
        (c as nat - '0' as nat) as nat
    } else if 'a' <= c && c <= 'f' {
        (c as nat - 'a' as nat + 10) as nat
    } else {
        (c as nat - 'A' as nat + 10) as nat
    }
}

pub open spec fn hex_value(s: Seq<char>) -> nat
    decreases s.len(),
{
    if s.len() == 0 {
        0
    } else {
        hex_value(s.drop_last()) * 16 + hex_val(s.last())
    }
}

pub open spec fn dec_value(s: Seq<char>) -> nat
    decreases s.len(),
{
    if s.len() == 0 {
        0
    } else {
        dec_value(s.drop_last()) * 10 + (s.last() as nat - '0' as nat) as nat
    }
}

/// The bytes that a text of hex digit pairs spells.
pub open spec fn hex_bytes(s: Seq<char>) -> Seq<u8> {
    Seq::new(s.len() / 2, |i: int| (hex_val(s[2 * i]) * 16 + hex_val(s[2 * i + 1])) as u8)
}

pub open spec fn digit_char(d: nat) -> char {
    ('0' as nat + d) as char
}

/// The shortest decimal text of `n`.
pub open spec fn decimal_text(n: nat) -> Seq<char>
    decreases n,
{
    if n < 10 {
        seq![digit_char(n)]
    } else {
        decimal_text(n / 10).push(digit_char(n % 10))
    }
}

pub open spec fn nibble_char(d: nat) -> char {
    if d < 10 {
        ('0' as nat + d) as char
    } else {
        ('a' as nat + d - 10) as char
    }
}

/// Two lower-case hex digits for each byte.
pub open spec fn lower_hex_text(b: Seq<u8>) -> Seq<char> {
    Seq::new(
        2 * b.len(),
        |i: int|
            if i % 2 == 0 {
                nibble_char(b[i / 2] as nat / 16)
            } else {
                nibble_char(b[i / 2] as nat % 16)
            },
    )
}

/// What `U256::from_str` reads: the text without a leading lower-case `0x`.
pub open spec fn without_lower_0x(s: Seq<char>) -> Seq<char> {
    if s.len() >= 2 && s[0] == '0' && s[1] == 'x' {
        s.subrange(2, s.len() as int)
    } else {
        s
    }
}

/// The 40 hex digits of an address text.
pub open spec fn address_digits(s: Seq<char>) -> Seq<char> {
    if s.len() == 42 {
        s.subrange(2, 42)
    } else {
        s
    }
}

/// Relies on hex::decode: it accepts an even number of hex digits of either
/// case and yields one byte for each pair, high digit first.
#[verifier::external_body]
fn hex_decode(s: &str) -> (r: Result<Vec<u8>, hex::FromHexError>)
    ensures
        r is Ok <==> (s@.len() % 2 == 0 && all_hex(s@)),
        r is Ok ==> r->Ok_0@ == hex_bytes(s@),
{
    hex::decode(s)
}

/// Relies on hex::encode: two lower-case hex digits for each byte.
#[verifier::external_body]
fn hex_encode(b: &[u8]) -> (r: String)
    ensures
        r@ == lower_hex_text(b@),
{
    hex::encode(b)
}

/// Relies on primitive_types::U256::from_dec_str: it accepts a text of
/// decimal digits only (the empty text reads as zero) whose value fits in
/// 256 bits. Its error value is dropped.
#[verifier::external_body]
fn u256_from_dec_str(s: &str) -> (r: Option<Uint256>)
    ensures
        r is Some <==> (all_dec(s@) && dec_value(s@) < pow2(256)),
        r is Some ==> r->Some_0.value() == dec_value(s@),
{
    primitive_types::U256::from_dec_str(s).ok().map(|v| Uint256 { words: v.0 })
}

/// Relies on primitive_types::U256::from_str_radix with radix 16: after an
/// optional lower-case `0x` it accepts at most 64 hex digits of either case
/// (the empty text reads as zero). Its error value is dropped.
#[verifier::external_body]
fn u256_from_hex_str(s: &str) -> (r: Option<Uint256>)
    ensures
        r is Some <==> (without_lower_0x(s@).len() <= 64 && all_hex(without_lower_0x(s@))),
        r is Some ==> r->Some_0.value() == hex_value(without_lower_0x(s@)),
{
    primitive_types::U256::from_str_radix(s, 16).ok().map(|v| Uint256 { words: v.0 })
}

/// Relies on the `Display` of primitive_types::U256: the shortest decimal
/// text of the value.
#[verifier::external_body]
fn u256_to_dec_string(v: &Uint256) -> (r: String)
    ensures
        r@ == decimal_text(v.value()),
{
    primitive_types::U256(v.words).to_string()
}

/// What a parameter text becomes: its classification decides the conversion.
pub open spec fn param_encoding(s: Seq<char>) -> Result<ParamModel, EncodingError> {
    match param_type_of(s) {
        FnParamType::Address => Ok(ParamModel::Address(hex_bytes(address_digits(s)))),
        FnParamType::HU256 => {
            let digits = s.subrange(2, s.len() as int);
            if hex_value(digits) < pow2(256) {
                Ok(ParamModel::Uint(hex_value(digits)))
            } else {
                Err(EncodingError::HexInteger)
            }
        },
        FnParamType::DU256 => {
            if all_dec(s) && dec_value(s) < pow2(256) {
                Ok(ParamModel::Uint(dec_value(s)))
            } else {
                Err(EncodingError::DecimalInteger)
            }
        },
        FnParamType::String => Ok(ParamModel::Text(s)),
    }
}

/// Leading zero digits do not change a hex value.
proof fn lemma_hex_leading_zeros(s: Seq<char>, k: int)
    requires
        0 <= k <= s.len(),
        forall|i: int| 0 <= i < k ==> s[i] == '0',
    ensures
        hex_value(s) == hex_value(s.subrange(k, s.len() as int)),
    decreases s.len(),
{
    if s.len() > 0 {
        let t = s.drop_last();
        if k == s.len() {
            lemma_hex_leading_zeros(t, k - 1);
            assert(t.subrange(k - 1, t.len() as int) =~= Seq::<char>::empty());
            assert(s.subrange(k, s.len() as int) =~= Seq::<char>::empty());
            assert(s.last() == s[k - 1]);
        } else {
            lemma_hex_leading_zeros(t, k);
            assert(s.subrange(k, s.len() as int).drop_last() =~= t.subrange(k, t.len() as int));
        }
    }
}

/// A run of `n` hex digits led by a nonzero one lies in `[16^(n-1), 16^n)`.
proof fn lemma_hex_value_bounds(t: Seq<char>)
    requires
        all_hex(t),
        t.len() > 0,
        t[0] != '0',
    ensures
        pow2((4 * (t.len() - 1)) as nat) <= hex_value(t),
        hex_value(t) < pow2((4 * t.len()) as nat),
    decreases t.len(),
{
    lemma2_to64();
    let n = t.len();
    assert(crate::classify::is_hex_char(t[n - 1]));
    let d = hex_val(t.last());
    assert(d < 16);
    let u = t.drop_last();
    if n == 1 {
        assert(u.len() == 0);
        assert(t.last() == t[0]);
        assert(d >= 1);
        assert(hex_value(t) == hex_value(u) * 16 + d);
    } else {
        assert(all_hex(u)) by {
            assert forall|i: int| 0 <= i < u.len() implies crate::classify::is_hex_char(u[i]) by {
                assert(u[i] == t[i]);
            }
        }
        assert(u[0] == t[0]);
        lemma_hex_value_bounds(u);
        let a = pow2((4 * (n - 2)) as nat);
        let v = hex_value(u);
        lemma_pow2_adds((4 * (n - 2)) as nat, 4);
        lemma_pow2_adds((4 * (n - 1)) as nat, 4);
        assert((4 * (n - 2)) as nat + 4 == (4 * (n - 1)) as nat);
        assert((4 * (n - 1)) as nat + 4 == (4 * n) as nat);
        assert(hex_value(t) == v * 16 + d);
        assert(a * 16 <= v * 16 + d && v * 16 + d < a * 16 * 16) by (nonlinear_arith)
            requires
                a <= v,
                v < a * 16,
                d < 16,
        ;
    }
}

/// After dropping the leading zeros of a run of hex digits, at most 64
/// digits are left exactly when its value fits in 256 bits; and what is
/// left carries no `0x` of its own.
proof fn lemma_significant_hex_fits(digits: Seq<char>, k: int)
    requires
        all_hex(digits),
        0 <= k <= digits.len(),
        k == digits.len() || digits[k] != '0',
    ensures
        ({
            let t = digits.subrange(k, digits.len() as int);
            &&& all_hex(t)
            &&& without_lower_0x(t) == t
            &&& (t.len() <= 64 <==> hex_value(t) < pow2(256))
        }),
{
    let t = digits.subrange(k, digits.len() as int);
    assert(all_hex(t)) by {
        assert forall|i: int| 0 <= i < t.len() implies crate::classify::is_hex_char(t[i]) by {
            assert(t[i] == digits[k + i]);
        }
    }
    lemma_pow2_pos(256);
    if t.len() > 0 {
        assert(t[0] == digits[k]);
        lemma_hex_value_bounds(t);
        if t.len() <= 64 {
            if t.len() < 64 {
                lemma_pow2_strictly_increases((4 * t.len()) as nat, 256);
            }
        } else if t.len() > 65 {
            lemma_pow2_strictly_increases(256, (4 * (t.len() - 1)) as nat);
        }
    } else {
        assert(hex_value(t) == 0);
    }
}

/// Reads an address from its text: 40 hex digits, optionally prefixed by `0x`.
pub fn get_address_from_str(address: &str) -> (r: Result<Address, String>)
    ensures
        r is Ok <==> is_address_text(address@),
        r is Ok ==> r->Ok_0.bytes@ == hex_bytes(address_digits(address@)),
        r is Err ==> r->Err_0@ == "Error address is not in the correct format; addr="@ + address@,
{
    if !validate_address_format(address) {
        let mut msg = "Error address is not in the correct format; addr=".to_owned();
        msg.append(address);
        return Err(msg);
    }
    let len = address.unicode_len();
    let digits: &str = if len == 42 {
        address.substring_char(2, 42)
    } else {
        address
    };
    assert(digits@ == address_digits(address@));
    let decoded = match hex_decode(digits) {
        Ok(v) => v,
        Err(_) => {
            let mut msg = "Error hex decoding of address; addr=".to_owned();
            msg.append(address);
            return Err(msg);
        },
    };
    let mut bytes: [u8; 20] = [0u8; 20];
    let mut i: usize = 0;
    while i < 20
        invariant
            decoded@.len() == 20,
            0 <= i <= 20,
            bytes@.len() == 20,
            forall|j: int| 0 <= j < i ==> bytes@[j] == decoded@[j],
        decreases 20 - i,
    {
        bytes[i] = decoded[i];
        i = i + 1;
    }
    assert(bytes@ =~= decoded@);
    Ok(Address { bytes })
}

/// Converts one parameter text into the value of the type inferred for it.
pub fn encode_param(p: &str) -> (r: Result<ParamValue, EncodingError>)
    ensures
        r is Ok <==> param_encoding(p@) is Ok,
        r is Ok ==> r->Ok_0@ == param_encoding(p@)->Ok_0,
        r is Err ==> param_encoding(p@) == Err::<ParamModel, EncodingError>(r->Err_0),
{
    match parse_param_type(p) {
        FnParamType::Address => match get_address_from_str(p) {
            Ok(a) => Ok(ParamValue::Address(a)),
            Err(_) => Err(EncodingError::Address),
        },
        FnParamType::HU256 => {
            let len = p.unicode_len();
            let digits = p.substring_char(2, len);
            let n = len - 2;
            let mut k: usize = 0;
            while k < n
                invariant
                    n == digits@.len(),
                    k <= n,
                    forall|i: int| 0 <= i < k ==> digits@[i] == '0',
                ensures
                    k <= n,
                    forall|i: int| 0 <= i < k ==> digits@[i] == '0',
                    k == n || digits@[k as int] != '0',
                decreases n - k,
            {
                if digits.get_char(k) != '0' {
                    break;
                }
                k = k + 1;
            }
            let significant = digits.substring_char(k, n);
            proof {
                lemma_hex_leading_zeros(digits@, k as int);
                lemma_significant_hex_fits(digits@, k as int);
            }
            match u256_from_hex_str(significant) {
                Some(v) => Ok(ParamValue::Uint(v)),
                None => Err(EncodingError::HexInteger),
            }
        },
        FnParamType::DU256 => match u256_from_dec_str(p) {
            Some(v) => Ok(ParamValue::Uint(v)),
            None => Err(EncodingError::DecimalInteger),
        },
        FnParamType::String => Ok(ParamValue::Text(p.to_owned())),
    }
}

/// Converts each parameter text in turn; the first one that cannot be
/// converted decides the error.
pub fn prepare_params(params: &Vec<String>) -> (r: Result<Vec<ParamValue>, EncodingError>)
    ensures
        r is Ok <==> forall|i: int| 0 <= i < params@.len() ==> (#[trigger] param_encoding(params@[i]@)) is Ok,
        r is Ok ==> r->Ok_0@.len() == params@.len(),
        r is Ok ==> forall|i: int| 0 <= i < params@.len() ==> (#[trigger] r->Ok_0@[i])@ == param_encoding(params@[i]@)->Ok_0,
        r is Err ==> exists|k: int|
            0 <= k < params@.len() && param_encoding(params@[k]@) == Err::<ParamModel, EncodingError>(r->Err_0)
                && forall|i: int| 0 <= i < k ==> (#[trigger] param_encoding(params@[i]@)) is Ok,
{
    let mut parsed: Vec<ParamValue> = Vec::new();
    let mut i: usize = 0;
    while i < params.len()
        invariant
            0 <= i <= params@.len(),
            parsed@.len() == i,
            forall|j: int| 0 <= j < i ==> (#[trigger] param_encoding(params@[j]@)) is Ok,
            forall|j: int| 0 <= j < i ==> (#[trigger] parsed@[j])@ == param_encoding(params@[j]@)->Ok_0,
        decreases params@.len() - i,
    {
        match encode_param(params[i].as_str()) {
            Ok(v) => {
                parsed.push(v);
            },
            Err(e) => {
                assert(param_encoding(params@[i as int]@) == Err::<ParamModel, EncodingError>(e));
                return Err(e);
            },
        }
        i = i + 1;
    }
    Ok(parsed)
}

/// The arguments of a gas estimate: the call's parameters and its sender.
#[derive(Clone, Debug)]
pub struct GasEstimateCall {
    pub params: Vec<ParamValue>,
    pub from: Address,
}

/// Why the arguments of a gas estimate could not be built.
#[derive(Clone, Debug, PartialEq, Eq)]
pub enum GasEstimateError {
    /// A parameter could not be converted.
    Param(EncodingError),
    /// The sender text is not an address; the message names it.
    From(String),
}

/// Builds the arguments of a gas estimate: the parameters first, then the
/// sender address.
pub fn gas_estimate_call(params: &Vec<String>, from: &str) -> (r: Result<GasEstimateCall, GasEstimateError>)
    ensures
        r is Ok <==> (forall|i: int| 0 <= i < params@.len() ==> (#[trigger] param_encoding(params@[i]@)) is Ok)
            && is_address_text(from@),
        r is Ok ==> r->Ok_0.params@.len() == params@.len(),
        r is Ok ==> forall|i: int| 0 <= i < params@.len() ==> (#[trigger] r->Ok_0.params@[i])@ == param_encoding(params@[i]@)->Ok_0,
        r is Ok ==> r->Ok_0.from.bytes@ == hex_bytes(address_digits(from@)),
        r matches Err(GasEstimateError::Param(e)) ==> exists|k: int|
            0 <= k < params@.len() && param_encoding(params@[k]@) == Err::<ParamModel, EncodingError>(e)
                && forall|i: int| 0 <= i < k ==> (#[trigger] param_encoding(params@[i]@)) is Ok,
        r matches Err(GasEstimateError::From(m)) ==> (forall|i: int| 0 <= i < params@.len() ==> (#[trigger] param_encoding(params@[i]@)) is Ok)
            && !is_address_text(from@)
            && m@ == "Error address is not in the correct format; addr="@ + from@,
{
    let values = match prepare_params(params) {
        Ok(v) => v,
        Err(e) => {
            return Err(GasEstimateError::Param(e));
        },
    };
    match get_address_from_str(from) {
        Ok(a) => Ok(GasEstimateCall { params: values, from: a }),
        Err(m) => Err(GasEstimateError::From(m)),
    }
}

/// The decimal text of a 256-bit integer, without leading zeros.
pub fn u256_to_decimal(v: &Uint256) -> (r: String)
    ensures
        r@ == decimal_text(v.value()),
{
    u256_to_dec_string(v)
}

/// Whether an account whose code is `code` is externally owned: it holds no
/// code, so its hex text is empty.
pub fn is_eoa_code(code: &Vec<u8>) -> (r: bool)
    ensures
        r == (code@.len() == 0),
{
    let code_str = hex_encode(code.as_slice());
    code_str.unicode_len() == 0
}

proof fn lemma_dec_value_positive(s: Seq<char>)
    requires
        crate::classify::is_positive_decimal_digits(s),
    ensures
        dec_value(s) >= 1,
    decreases s.len(),
{
    assert(crate::classify::is_dec_char(s[0]));
    if s.len() == 1 {
        assert(s.drop_last().len() == 0);
        assert(s.last() == s[0]);
        assert(dec_value(s) == dec_value(s.drop_last()) * 10 + (s.last() as nat - '0' as nat) as nat);
    } else {
        let t = s.drop_last();
        assert(t[0] == s[0]);
        assert(all_dec(t)) by {
            assert forall|i: int| 0 <= i < t.len() implies crate::classify::is_dec_char(t[i]) by {
                assert(t[i] == s[i]);
            }
        }
        lemma_dec_value_positive(t);
    }
}

/// The decimal text of the value of a decimal digit run with no leading zero
/// is that run itself.
pub proof fn lemma_decimal_text_of_digits(s: Seq<char>)
    requires
        crate::classify::is_positive_decimal_digits(s),
    ensures
        decimal_text(dec_value(s)) == s,
    decreases s.len(),
{
    assert(crate::classify::is_dec_char(s.last()));
    if s.len() == 1 {
        assert(s.drop_last().len() == 0);
        let d = (s.last() as nat - '0' as nat) as nat;
        assert(dec_value(s) == dec_value(s.drop_last()) * 10 + d);
        assert(dec_value(s) == d);
        assert(digit_char(d) == s.last());
        assert(decimal_text(dec_value(s)) =~= s);
    } else {
        let t = s.drop_last();
        assert(t[0] == s[0]);
        assert(all_dec(t)) by {
            assert forall|i: int| 0 <= i < t.len() implies crate::classify::is_dec_char(t[i]) by {
                assert(t[i] == s[i]);
            }
        }
        lemma_dec_value_positive(t);
        lemma_decimal_text_of_digits(t);
        let n = dec_value(s);
        let d = (s.last() as nat - '0' as nat) as nat;
        assert(n == dec_value(t) * 10 + d);
        assert(n / 10 == dec_value(t) && n % 10 == d) by (nonlinear_arith)
            requires
                n == dec_value(t) * 10 + d,
                d < 10,
        ;
        assert(decimal_text(n) =~= s);
    }
}

/// A decimal integer parameter that encodes, rendered back as decimal text,
/// gives the same value; the text is the parameter itself.
pub proof fn lemma_decimal_round_trip(s: Seq<char>)
    requires
        param_type_of(s) == FnParamType::DU256,
        param_encoding(s) is Ok,
    ensures
        param_encoding(s) == Ok::<ParamModel, EncodingError>(ParamModel::Uint(dec_value(s))),
        decimal_text(dec_value(s)) == s,
        dec_value(decimal_text(dec_value(s))) == dec_value(s),
{
    assert(all_dec(s));
    if s.len() > 0 && s[0] == '-' {
        assert(!crate::classify::is_dec_char(s[0]));
    }
    assert(crate::classify::is_positive_decimal_digits(s));
    lemma_decimal_text_of_digits(s);
}

} // verus!
