use vstd::prelude::*;
use vstd::slice::slice_subrange;
use vstd::string::StringSliceAdditionalSpecFns;
use vstd::utf8::{decode_utf8, valid_utf8};
use crate::error::ToyArmsExternalError;

verus! {

/// The bytes of `b` before its first zero byte; all of `b` when it holds none.
pub open spec fn until_nul(b: Seq<u8>) -> Seq<u8>
    decreases b.len(),
{
    if b.len() == 0 || b[0] == 0 {
        Seq::empty()
    } else {
        seq![b[0]] + until_nul(b.subrange(1, b.len() as int))
    }
}

proof fn lemma_until_nul_is_prefix(b: Seq<u8>, n: int)
    requires
        0 <= n <= b.len(),
        n < b.len() ==> b[n] == 0,
        forall|i: int| 0 <= i < n ==> b[i] != 0,
    ensures
        until_nul(b) == b.take(n),
    decreases b.len(),
{
    if b.len() == 0 || b[0] == 0 {
        assert(n == 0);
        assert(b.take(n) =~= Seq::<u8>::empty());
    } else {
        let rest = b.subrange(1, b.len() as int);
        assert forall|i: int| 0 <= i < n - 1 implies rest[i] != 0 by {
            assert(rest[i] == b[i + 1]);
        }
        lemma_until_nul_is_prefix(rest, n - 1);
        assert(b.take(n) =~= seq![b[0]] + rest.take(n - 1));
    }
}

/// The index of the first zero byte of `buffer`, or its length.
fn nul_position(buffer: &[u8]) -> (n: usize)
    ensures
        n <= buffer@.len(),
        buffer@.take(n as int) == until_nul(buffer@),
{
    let mut n: usize = 0;
    while n < buffer.len() && buffer[n] != 0
        invariant
            n <= buffer@.len(),
            forall|i: int| 0 <= i < n ==> buffer@[i] != 0,
        decreases buffer@.len() - n,
    {
        n = n + 1;
    }
    proof {
        lemma_until_nul_is_prefix(buffer@, n as int);
    }
    n
}

/// Relies on std::str::from_utf8: it accepts exactly the valid UTF-8 byte
/// sequences, and the text it returns is the one those bytes encode.
#[verifier::external_body]
fn utf8_text(bytes: &[u8]) -> (r: Option<String>)
    ensures
        r is Some <==> valid_utf8(bytes@),
        r matches Some(s) ==> s@ == decode_utf8(bytes@),
{
    std::str::from_utf8(bytes).ok().map(|s| s.to_string())
}

/// Decodes a zero-terminated name held in a fixed-size record buffer: the
/// bytes before the first zero (or the whole buffer) must be UTF-8.
pub fn read_null_terminated_string(buffer: &[u8]) -> (r: Result<String, ToyArmsExternalError>)
    ensures
        match r {
            Ok(s) => valid_utf8(until_nul(buffer@)) && s@ == decode_utf8(until_nul(buffer@)),
            Err(e) => !valid_utf8(until_nul(buffer@)) && e == ToyArmsExternalError::InvalidName,
        },
{
    let n = nul_position(buffer);
    let run = slice_subrange(buffer, 0, n);
    assert(run@ == until_nul(buffer@));
    match utf8_text(run) {
        Some(s) => Ok(s),
        None => Err(ToyArmsExternalError::InvalidName),
    }
}

/// Whether the zero-terminated name in `buffer` is exactly the bytes `want`.
pub fn zero_terminated_equals(buffer: &[u8], want: &[u8]) -> (r: bool)
    ensures
        r == (until_nul(buffer@) == want@),
{
    let n = nul_position(buffer);
    if n != want.len() {
        return false;
    }
    let mut i: usize = 0;
    while i < n
        invariant
            n == want@.len(),
            n <= buffer@.len(),
            buffer@.take(n as int) == until_nul(buffer@),
            i <= n,
            forall|j: int| 0 <= j < i ==> buffer@[j] == want@[j],
        decreases n - i,
    {
        if buffer[i] != want[i] {
            assert(until_nul(buffer@)[i as int] != want@[i as int]);
            return false;
        }
        i = i + 1;
    }
    assert(until_nul(buffer@) =~= want@);
    true
}

/// Whether the zero-terminated name in `buffer` is exactly `name`.
pub fn entry_name_is(buffer: &[u8], name: &str) -> (r: bool)
    ensures
        r == (until_nul(buffer@) == name.spec_bytes()),
{
    zero_terminated_equals(buffer, name.as_bytes())
}

/// The bytes of `text` followed by one zero byte, as the operating system's
/// narrow-string calls expect.
pub fn make_lpcstr(text: &str) -> (r: Vec<u8>)
    ensures
        r@ == text.spec_bytes().push(0u8),
{
    let bytes = text.as_bytes();
    let mut out: Vec<u8> = Vec::new();
    let mut i: usize = 0;
    while i < bytes.len()
        invariant
            i <= bytes@.len(),
            out@ == bytes@.take(i as int),
        decreases bytes@.len() - i,
    {
        out.push(bytes[i]);
        i = i + 1;
        assert(out@ =~= bytes@.take(i as int));
    }
    out.push(0);
    assert(bytes@.take(bytes@.len() as int) =~= bytes@);
    out
}

} // verus!
