//! Splitting of encoded call data into 256-bit argument words.

use vstd::prelude::*;
use vstd::string::StrSliceExecFns;

verus! {

/// The argument text of call data: what follows `0x` and the 8 digits of the
/// method id.
pub open spec fn arguments_text(s: Seq<char>) -> Seq<char> {
    if s.len() >= 10 {
        s.subrange(10, s.len() as int)
    } else {
        Seq::empty()
    }
}

/// The whole 64-digit words of the argument text, in order; a shorter tail
/// is left out.
pub open spec fn argument_words(s: Seq<char>) -> Seq<Seq<char>> {
    let a = arguments_text(s);
    Seq::new(a.len() / 64, |i: int| a.subrange(64 * i, 64 * i + 64))
}

/// Splits call data (`0x`, an 8-digit method id, then the arguments) into
/// words of 64 hex digits. Empty call data has no words; other call data
/// needs at least one whole word.
pub fn parse_256_method_arguments(long_hex_str: &str) -> (r: Result<Vec<String>, String>)
    ensures
        r is Ok <==> (long_hex_str@.len() == 0 || long_hex_str@.len() >= 74),
        r is Ok ==> r->Ok_0@.len() == argument_words(long_hex_str@).len(),
        r is Ok ==> forall|i: int|
            0 <= i < r->Ok_0@.len() ==> (#[trigger] r->Ok_0@[i])@ == argument_words(long_hex_str@)[i],
{
    let len = long_hex_str.unicode_len();
    if len == 0 {
        return Ok(Vec::new());
    }
    if len < 74 {
        return Err(
            "Input hex string length is not long enough to be parsed. It needs to have at least 64 characters in length included with prefix of 0x".to_owned(),
        );
    }
    let arguments = long_hex_str.substring_char(10, len);
    let n = len - 10;
    let mut offset: usize = 0;
    let mut words: Vec<String> = Vec::new();
    while 64 <= n - offset
        invariant
            n == arguments@.len(),
            arguments@ == arguments_text(long_hex_str@),
            offset == 64 * words@.len(),
            offset <= n,
            forall|i: int|
                0 <= i < words@.len() ==> (#[trigger] words@[i])@ == arguments@.subrange(
                    64 * i,
                    64 * i + 64,
                ),
        decreases n - offset,
    {
        words.push(arguments.substring_char(offset, offset + 64).to_owned());
        offset = offset + 64;
    }
    assert(words@.len() == n / 64);
    Ok(words)
}

} // verus!
