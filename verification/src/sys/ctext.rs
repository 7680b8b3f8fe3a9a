//! Text that can be passed to the kernel as a NUL-terminated string.

use vstd::prelude::*;
use vstd::string::*;
use vstd::utf8::*;

verus! {

/// Bytes without a NUL among them, to which a terminating NUL can be added.
#[derive(Debug)]
pub struct CText {
    bytes: Vec<u8>,
}

impl View for CText {
    type V = Seq<u8>;

    closed spec fn view(&self) -> Seq<u8> {
        self.bytes@
    }
}

/// The encoding of a character holds a zero byte only where it is the NUL
/// character.
proof fn lemma_scalar_zero(c: char)
    ensures
        encode_scalar(c as u32).contains(0u8) <==> c == '\0',
{
    char_is_scalar(c);
    let u = c as u32;
    assert(u <= 0x7f ==> (u & 0x7f) as u8 == u) by (bit_vector);
    assert(0xc0 | ((u >> 6) & 0x1f) as u8 != 0) by (bit_vector);
    assert(0xe0 | ((u >> 12) & 0x0f) as u8 != 0) by (bit_vector);
    assert(0xf0 | ((u >> 18) & 0x7) as u8 != 0) by (bit_vector);
    assert(0x80 | (u & 0x3f) as u8 != 0) by (bit_vector);
    assert(0x80 | ((u >> 6) & 0x3f) as u8 != 0) by (bit_vector);
    assert(0x80 | ((u >> 12) & 0x3f) as u8 != 0) by (bit_vector);
    if c == '\0' {
        assert(encode_scalar(u)[0] == 0u8);
    }
}

/// The encoding of text holds a zero byte exactly where the text holds the NUL
/// character.
pub proof fn lemma_encoded_zero(text: Seq<char>)
    ensures
        encode_utf8(text).contains(0u8) <==> text.contains('\0'),
    decreases text.len(),
{
    if text.len() > 0 {
        let head = encode_scalar(text[0] as u32);
        let tail = text.drop_first();
        lemma_scalar_zero(text[0]);
        lemma_encoded_zero(tail);
        let all = encode_utf8(text);
        assert(all == head + encode_utf8(tail));
        if head.contains(0u8) {
            let i = choose|i: int| 0 <= i < head.len() && head[i] == 0u8;
            assert(all[i] == 0u8);
        }
        if encode_utf8(tail).contains(0u8) {
            let i = choose|i: int| 0 <= i < encode_utf8(tail).len() && encode_utf8(tail)[i] == 0u8;
            assert(all[head.len() + i] == 0u8);
        }
        if text.contains('\0') {
            let i = choose|i: int| 0 <= i < text.len() && text[i] == '\0';
            if i > 0 {
                assert(tail[i - 1] == '\0');
            }
        }
        if tail.contains('\0') {
            let i = choose|i: int| 0 <= i < tail.len() && tail[i] == '\0';
            assert(text[i + 1] == '\0');
        }
    }
}

impl CText {
    #[verifier::type_invariant]
    spec fn inv(self) -> bool {
        !self.bytes@.contains(0u8)
    }

    /// The bytes of `text`, where there is no NUL among its characters.
    pub fn new(text: &str) -> (r: Option<Self>)
        ensures
            r is None <==> text@.contains('\0'),
            r matches Some(c) ==> c@ == encode_utf8(text@),
    {
        proof {
            lemma_encoded_zero(text@);
        }
        Self::from_bytes(text.as_bytes())
    }

    /// The given bytes, where there is no NUL among them.
    pub fn from_bytes(source: &[u8]) -> (r: Option<Self>)
        ensures
            r is None <==> source@.contains(0u8),
            r matches Some(c) ==> c@ == source@,
    {
        let mut bytes: Vec<u8> = Vec::new();
        let mut i: usize = 0;
        while i < source.len()
            invariant
                i <= source@.len(),
                bytes@ == source@.take(i as int),
                forall|j: int| 0 <= j < i ==> source@[j] != 0u8,
            decreases source@.len() - i,
        {
            if source[i] == 0 {
                assert(source@[i as int] == 0u8);
                return None;
            }
            bytes.push(source[i]);
            i = i + 1;
        }
        assert(bytes@ =~= source@);
        Some(CText { bytes })
    }

    /// The bytes, without the terminating NUL.
    pub fn bytes(&self) -> (r: &[u8])
        ensures
            r@ == self@,
            !r@.contains(0u8),
    {
        proof {
            use_type_invariant(&*self);
        }
        self.bytes.as_slice()
    }
}

impl Clone for CText {
    fn clone(&self) -> (r: Self)
        ensures
            r@ == self@,
    {
        proof {
            use_type_invariant(self);
        }
        let bytes = self.bytes.clone();
        assert(bytes@ =~= self.bytes@);
        CText { bytes }
    }
}

} // verus!
