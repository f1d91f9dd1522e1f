//! Base64, the text form in which binary files travel.
use vstd::prelude::*;
use base64::engine::general_purpose::STANDARD;
use base64::Engine;
use vstd::utf8::encode_utf8;

verus! {

/// The padded RFC 4648 text of some bytes.
pub uninterp spec fn base64_text(bytes: Seq<u8>) -> Seq<char>;

/// What the standard engine decodes some text to, or the words of its refusal.
pub uninterp spec fn base64_decoded(text: Seq<u8>) -> Result<Seq<u8>, Seq<char>>;

/// A character of the standard alphabet, or the padding.
pub open spec fn is_base64_char(c: char) -> bool {
    'A' <= c <= 'Z' || 'a' <= c <= 'z' || '0' <= c <= '9' || c == '+' || c == '/' || c == '='
}

/// How many characters the padded text of `len` bytes has.
pub open spec fn base64_len(len: nat) -> nat {
    (len + 2) / 3 * 4
}

/// A decoding that gives these bytes.
pub open spec fn gives(bytes: Seq<u8>) -> Result<Seq<u8>, Seq<char>> {
    Ok(bytes)
}

/// `Engine::encode` of `STANDARD`: four characters of the standard alphabet or
/// of padding for every three bytes begun, and a text that the same engine
/// decodes to the bytes again.
#[verifier::external_body]
pub(crate) fn encode(bytes: &[u8]) -> (r: String)
    ensures
        r@ == base64_text(bytes@),
        r@.len() == base64_len(bytes@.len()),
        forall|i: int| 0 <= i < r@.len() ==> is_base64_char(#[trigger] r@[i]),
        base64_decoded(encode_utf8(r@)) == gives(bytes@),
{
    STANDARD.encode(bytes)
}

/// The outcome of a decoding, as sequences.
pub open spec fn decoding(r: Result<Vec<u8>, String>) -> Result<Seq<u8>, Seq<char>> {
    match r {
        Ok(bytes) => Ok(bytes@),
        Err(why) => Err(why@),
    }
}

/// `Engine::decode` of `STANDARD`, its error printed: a function of the bytes
/// alone.
#[verifier::external_body]
pub(crate) fn decode(text: &[u8]) -> (r: Result<Vec<u8>, String>)
    ensures
        decoding(r) == base64_decoded(text@),
{
    STANDARD.decode(text).map_err(|e| format!("{}", e))
}

/// The ASCII white space that is dropped before decoding.
pub open spec fn is_ascii_space(b: u8) -> bool {
    b == 0x20 || b == 0x09 || b == 0x0a || b == 0x0c || b == 0x0d
}

/// Some bytes without the ASCII white space among them.
pub open spec fn compacted(bytes: Seq<u8>) -> Seq<u8>
    decreases bytes.len(),
{
    if bytes.len() == 0 {
        bytes
    } else if is_ascii_space(bytes.last()) {
        compacted(bytes.drop_last())
    } else {
        compacted(bytes.drop_last()).push(bytes.last())
    }
}

/// The bytes without the ASCII white space among them.
pub fn compact(bytes: &[u8]) -> (r: Vec<u8>)
    ensures
        r@ == compacted(bytes@),
        r@.len() <= bytes@.len(),
{
    let mut r: Vec<u8> = Vec::new();
    let mut i: usize = 0;
    while i < bytes.len()
        invariant
            i <= bytes@.len(),
            r@ == compacted(bytes@.take(i as int)),
            r@.len() <= i,
        decreases bytes@.len() - i,
    {
        let b = bytes[i];
        assert(bytes@.take(i + 1).drop_last() =~= bytes@.take(i as int));
        if !(b == 0x20 || b == 0x09 || b == 0x0a || b == 0x0c || b == 0x0d) {
            r.push(b);
        }
        i = i + 1;
    }
    assert(bytes@.take(bytes@.len() as int) =~= bytes@);
    r
}

/// Whether two lists of bytes are the same.
pub fn same_bytes(a: &[u8], b: &[u8]) -> (r: bool)
    ensures
        r == (a@ == b@),
{
    if a.len() != b.len() {
        return false;
    }
    let mut i: usize = 0;
    while i < a.len()
        invariant
            i <= a@.len(),
            a@.len() == b@.len(),
            forall|k: int| 0 <= k < i ==> a@[k] == b@[k],
        decreases a@.len() - i,
    {
        if a[i] != b[i] {
            return false;
        }
        i = i + 1;
    }
    assert(a@ =~= b@);
    true
}

/// White space is dropped byte by byte, and nothing else is.
pub proof fn compacting_drops_white_space_alone(a: Seq<u8>, b: Seq<u8>, c: u8)
    ensures
        compacted(a + b) == compacted(a) + compacted(b),
        c == 0x20 || c == 0x09 || c == 0x0a || c == 0x0c || c == 0x0d ==> compacted(seq![c]).len() == 0,
        c != 0x20 && c != 0x09 && c != 0x0a && c != 0x0c && c != 0x0d ==> compacted(seq![c]) == seq![c],
    decreases b.len(),
{
    let one = seq![c];
    assert(one.drop_last() =~= Seq::<u8>::empty());
    assert(compacted(one.drop_last()) =~= Seq::<u8>::empty());
    assert(Seq::<u8>::empty().push(c) =~= seq![c]);
    if b.len() == 0 {
        assert(a + b =~= a);
        assert(compacted(a) + compacted(b) =~= compacted(a));
    } else {
        compacting_drops_white_space_alone(a, b.drop_last(), c);
        assert((a + b).drop_last() =~= a + b.drop_last());
        assert((a + b).last() == b.last());
        assert((compacted(a) + compacted(b.drop_last())).push(b.last()) =~= compacted(a) + compacted(b.drop_last()).push(b.last()));
    }
}

/// Base64 takes four characters for every three bytes begun.
pub proof fn base64_takes_four_for_three(len: nat)
    ensures
        base64_len(len) % 4 == 0,
        3 * base64_len(len) >= 4 * len,
        3 * base64_len(len) <= 4 * len + 8,
        len % 3 == 0 ==> 3 * base64_len(len) == 4 * len,
{
}

} // verus!
