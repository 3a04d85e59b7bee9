use vstd::prelude::*;
use vstd::string::StringSliceAdditionalSpecFns;
use vstd::utf8::{
    decode_utf8, encode_scalar, encode_utf8, encode_utf8_decode_utf8, encode_utf8_valid_utf8,
    has_width_1_encoding, valid_utf8,
};

verus! {

/// Text that holds a null byte cannot travel as a null-terminated buffer.
/// `position` is the index of the first null byte in the text's UTF-8 bytes.
#[derive(Clone, Copy, Debug, PartialEq, Eq, Structural)]
pub struct NulByte {
    pub position: usize,
}

/// The bytes hold a null byte somewhere.
pub open spec fn has_nul(b: Seq<u8>) -> bool {
    exists|i: int| 0 <= i < b.len() && b[i] == 0
}

/// `p` is the index of the first null byte of `b`.
pub open spec fn is_first_nul(b: Seq<u8>, p: int) -> bool {
    &&& 0 <= p < b.len()
    &&& b[p] == 0
    &&& forall|j: int| 0 <= j < p ==> b[j] != 0
}

/// The null-terminated buffer that carries the UTF-8 text `s`.
pub open spec fn c_buffer_of(s: Seq<char>) -> Seq<u8> {
    encode_utf8(s).push(0)
}

/// The bytes that a reader of the null-terminated buffer `b` sees: all of
/// them up to, not including, the first null byte.
pub open spec fn c_contents(b: Seq<u8>) -> Seq<u8>
    decreases b.len(),
{
    if b.len() == 0 {
        b
    } else if b[0] == 0 {
        Seq::empty()
    } else {
        seq![b[0]] + c_contents(b.drop_first())
    }
}

/// What `String::from_utf8_lossy` makes of the given bytes.
pub uninterp spec fn lossy_utf8(b: Seq<u8>) -> Seq<char>;

/// Relies on `String::from_utf8_lossy`: valid UTF-8 is decoded unchanged, and
/// otherwise each invalid sequence becomes U+FFFD; only the bytes decide.
#[verifier::external_body]
fn utf8_lossy(b: &[u8]) -> (r: String)
    ensures
        r@ == lossy_utf8(b@),
        valid_utf8(b@) ==> r@ == decode_utf8(b@),
{
    String::from_utf8_lossy(b).into_owned()
}

/// Copies `text` into a null-terminated buffer for the toolkit.
///
/// Fails, before anything is handed over, when the text holds a null byte,
/// and reports where the first one stands.
pub fn to_c_text(text: &str) -> (r: Result<Vec<u8>, NulByte>)
    ensures
        r is Err <==> has_nul(text.spec_bytes()),
        r is Err <==> text@.contains('\0'),
        r matches Ok(v) ==> v@ == c_buffer_of(text@),
        r matches Err(e) ==> is_first_nul(text.spec_bytes(), e.position as int),
{
    proof {
        lemma_encoded_nul(text@);
    }
    let bytes = text.as_bytes();
    let mut out: Vec<u8> = Vec::new();
    let mut i: usize = 0;
    while i < bytes.len()
        invariant
            bytes@ == text.spec_bytes(),
            has_nul(bytes@) <==> text@.contains('\0'),
            0 <= i <= bytes@.len(),
            out@ == bytes@.subrange(0, i as int),
            forall|j: int| 0 <= j < i ==> bytes@[j] != 0,
        decreases bytes@.len() - i,
    {
        if bytes[i] == 0 {
            assert(has_nul(bytes@));
            return Err(NulByte { position: i });
        }
        out.push(bytes[i]);
        i = i + 1;
    }
    assert(out@ == bytes@);
    out.push(0);
    Ok(out)
}

/// An owned copy of the text that the toolkit handed back, given its bytes
/// before the terminator. Invalid UTF-8 is replaced, never refused.
pub fn text_from_c_bytes(bytes: &[u8]) -> (r: String)
    ensures
        r@ == lossy_utf8(bytes@),
        valid_utf8(bytes@) ==> r@ == decode_utf8(bytes@),
{
    utf8_lossy(bytes)
}

/// A null byte in `a + b` stands in `a` or in `b`.
proof fn lemma_concat_nul(a: Seq<u8>, b: Seq<u8>)
    ensures
        has_nul(a + b) <==> has_nul(a) || has_nul(b),
{
    if has_nul(a + b) {
        let i = choose|i: int| 0 <= i < (a + b).len() && (a + b)[i] == 0;
        if i >= a.len() {
            assert(b[i - a.len()] == 0);
        }
    }
    if has_nul(a) {
        let i = choose|i: int| 0 <= i < a.len() && a[i] == 0;
        assert((a + b)[i] == 0);
    }
    if has_nul(b) {
        let i = choose|i: int| 0 <= i < b.len() && b[i] == 0;
        assert((a + b)[a.len() + i] == 0);
    }
}

/// The UTF-8 encoding of a character holds a null byte exactly when the
/// character is U+0000: every other lead byte and every continuation byte
/// has its top bit set, or is a non-zero ASCII code.
proof fn lemma_scalar_nul(c: char)
    ensures
        has_nul(encode_scalar(c as u32)) <==> c == '\0',
{
    let v = c as u32;
    let e = encode_scalar(v);
    if has_width_1_encoding(v) {
        assert(((v & 0x7F) as u8 == 0) <==> v == 0) by (bit_vector)
            requires
                v <= 0x7F,
        ;
        assert(e.len() == 1);
        if has_nul(e) {
            assert(e[0] == 0);
        } else {
            assert(e[0] != 0);
        }
    } else {
        assert(forall|x: u8| #![trigger (0x80u8 | x)] (0x80u8 | x) != 0u8) by (bit_vector);
        assert(forall|x: u8| #![trigger (0xC0u8 | x)] (0xC0u8 | x) != 0u8) by (bit_vector);
        assert(forall|x: u8| #![trigger (0xE0u8 | x)] (0xE0u8 | x) != 0u8) by (bit_vector);
        assert(forall|x: u8| #![trigger (0xF0u8 | x)] (0xF0u8 | x) != 0u8) by (bit_vector);
        assert(forall|i: int| 0 <= i < e.len() ==> e[i] != 0);
        assert(v != 0);
    }
}

/// The UTF-8 bytes of a text hold a null byte exactly when the text holds
/// the character U+0000.
pub proof fn lemma_encoded_nul(s: Seq<char>)
    ensures
        has_nul(encode_utf8(s)) <==> s.contains('\0'),
    decreases s.len(),
{
    if s.len() > 0 {
        let rest = s.drop_first();
        lemma_scalar_nul(s[0]);
        lemma_encoded_nul(rest);
        lemma_concat_nul(encode_scalar(s[0] as u32), encode_utf8(rest));
        if rest.contains('\0') {
            let i = choose|i: int| 0 <= i < rest.len() && rest[i] == '\0';
            assert(s[i + 1] == '\0');
        }
        if s.contains('\0') {
            let i = choose|i: int| 0 <= i < s.len() && s[i] == '\0';
            if i > 0 {
                assert(rest[i - 1] == '\0');
            }
        }
    }
}

/// A reader of a buffer made of bytes without a null byte, then a
/// terminator, sees exactly those bytes.
proof fn lemma_c_contents_of_terminated(b: Seq<u8>)
    requires
        !has_nul(b),
    ensures
        c_contents(b.push(0)) == b,
    decreases b.len(),
{
    if b.len() > 0 {
        let rest = b.drop_first();
        assert(b.push(0).drop_first() =~= rest.push(0));
        if has_nul(rest) {
            let i = choose|i: int| 0 <= i < rest.len() && rest[i] == 0;
            assert(b[i + 1] == 0);
        }
        assert(b[0] != 0);
        lemma_c_contents_of_terminated(rest);
        assert(seq![b[0]] + rest =~= b);
    } else {
        assert(b.push(0)[0] == 0);
        assert(c_contents(b.push(0)) =~= b);
    }
}

/// Reading back the buffer that a text without U+0000 was written into
/// gives exactly the text's UTF-8 bytes, with nothing before, after or
/// in place of any of them.
pub proof fn lemma_view_after_write(s: Seq<char>)
    requires
        !s.contains('\0'),
    ensures
        c_contents(c_buffer_of(s)) == encode_utf8(s),
{
    lemma_encoded_nul(s);
    lemma_c_contents_of_terminated(encode_utf8(s));
}

/// Decoding what is read back from the buffer that a text without U+0000
/// was written into gives that text again: the bytes are valid UTF-8, so
/// the lossy decoding replaces nothing.
pub proof fn lemma_read_after_write(s: Seq<char>)
    requires
        !s.contains('\0'),
    ensures
        valid_utf8(c_contents(c_buffer_of(s))),
        decode_utf8(c_contents(c_buffer_of(s))) == s,
{
    lemma_view_after_write(s);
    encode_utf8_valid_utf8(s);
    encode_utf8_decode_utf8(s);
}

} // verus!
