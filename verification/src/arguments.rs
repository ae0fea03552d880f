//! Conversion of command-line arguments into NUL-terminated byte strings.

use vstd::prelude::*;
use vstd::utf8::{encode_scalar, encode_utf8};

verus! {

/// Why a request could not be handed to the linker.
#[derive(Debug, Clone, Copy, PartialEq, Eq, Structural)]
pub enum LldError {
    /// An argument holds a NUL character and so has no C string form.
    StringConversionError,
}

/// Whether `text` can be written as a C string: it holds no NUL character.
pub open spec fn convertible(text: Seq<char>) -> bool {
    !text.contains('\0')
}

/// The C string form of `text`: its UTF-8 bytes followed by one NUL.
pub open spec fn c_string(text: Seq<char>) -> Seq<u8> {
    encode_utf8(text).push(0u8)
}

/// Whether every argument of the list can be written as a C string.
pub open spec fn all_convertible(args: Seq<String>) -> bool {
    forall|i: int| 0 <= i < args.len() ==> convertible(#[trigger] args[i]@)
}

/// Converts one argument to its C string form, or reports that it holds a
/// NUL character.
pub fn to_c_bytes(arg: &str) -> (r: Result<Vec<u8>, LldError>)
    ensures
        convertible(arg@) ==> r is Ok && r->Ok_0@ == c_string(arg@),
        !convertible(arg@) ==> r == Err::<Vec<u8>, LldError>(LldError::StringConversionError),
{
    let bytes = arg.as_bytes();
    proof {
        lemma_nul_byte_iff_nul_char(arg@);
    }
    let mut out: Vec<u8> = Vec::new();
    let mut i: usize = 0;
    while i < bytes.len()
        invariant
            i <= bytes.len(),
            bytes@ == encode_utf8(arg@),
            bytes@.contains(0u8) <==> arg@.contains('\0'),
            out@ == bytes@.subrange(0, i as int),
            forall|j: int| 0 <= j < i ==> bytes@[j] != 0u8,
        decreases bytes.len() - i,
    {
        let b: u8 = bytes[i];
        if b == 0u8 {
            assert(bytes@.contains(0u8));
            return Err(LldError::StringConversionError);
        }
        out.push(b);
        assert(out@ == bytes@.subrange(0, i + 1));
        i += 1;
    }
    assert(bytes@.subrange(0, i as int) == bytes@);
    out.push(0u8);
    Ok(out)
}

/// Converts a whole argument list, keeping its order. One argument that
/// cannot be converted fails the whole list.
pub fn marshal_arguments(args: &Vec<String>) -> (r: Result<Vec<Vec<u8>>, LldError>)
    ensures
        all_convertible(args@) ==> r is Ok && r->Ok_0@.len() == args@.len() && forall|i: int|
            0 <= i < args@.len() ==> (#[trigger] r->Ok_0@[i])@ == c_string(args@[i]@),
        !all_convertible(args@) ==> r == Err::<Vec<Vec<u8>>, LldError>(
            LldError::StringConversionError,
        ),
{
    let mut out: Vec<Vec<u8>> = Vec::new();
    let mut i: usize = 0;
    while i < args.len()
        invariant
            i <= args.len(),
            out@.len() == i,
            forall|j: int| 0 <= j < i ==> convertible(#[trigger] args@[j]@),
            forall|j: int| 0 <= j < i ==> (#[trigger] out@[j])@ == c_string(args@[j]@),
        decreases args.len() - i,
    {
        match to_c_bytes(args[i].as_str()) {
            Ok(bytes) => {
                out.push(bytes);
            },
            Err(e) => {
                assert(!convertible(args@[i as int]@));
                return Err(e);
            },
        }
        i += 1;
    }
    Ok(out)
}

/// A converted argument ends in NUL and holds no other: it is exactly one
/// byte longer than the argument's UTF-8 form, which it starts with.
pub proof fn lemma_c_string_single_nul(text: Seq<char>)
    requires
        convertible(text),
    ensures
        c_string(text).len() == encode_utf8(text).len() + 1,
        c_string(text).last() == 0u8,
        c_string(text).drop_last() == encode_utf8(text),
        forall|i: int| 0 <= i < c_string(text).len() - 1 ==> c_string(text)[i] != 0u8,
{
    let bytes = encode_utf8(text);
    lemma_nul_byte_iff_nul_char(text);
    assert(c_string(text).drop_last() =~= bytes);
    assert forall|i: int| 0 <= i < c_string(text).len() - 1 implies c_string(text)[i] != 0u8 by {
        assert(c_string(text)[i] == bytes[i]);
        if bytes[i] == 0u8 {
            assert(bytes.contains(0u8));
        }
    }
}

/// Of the bytes that UTF-8 writes for a scalar value, only the single byte
/// of the value zero is zero.
proof fn lemma_scalar_byte_patterns(v: u32)
    by (bit_vector)
    ensures
        v <= 0x7F ==> ((v & 0x7F) as u8 == 0u8 <==> v == 0u32),
        0xC0u8 | ((v >> 6) & 0x1F) as u8 != 0u8,
        0xE0u8 | ((v >> 12) & 0x0F) as u8 != 0u8,
        0xF0u8 | ((v >> 18) & 0x7) as u8 != 0u8,
        0x80u8 | (v & 0x3F) as u8 != 0u8,
        0x80u8 | ((v >> 6) & 0x3F) as u8 != 0u8,
        0x80u8 | ((v >> 12) & 0x3F) as u8 != 0u8,
{
}

/// The UTF-8 form of one character holds a NUL byte only if the character is
/// the NUL character.
proof fn lemma_char_bytes_nul(c: char)
    ensures
        encode_scalar(c as u32).contains(0u8) <==> c == '\0',
{
    let v = c as u32;
    let bytes = encode_scalar(v);
    lemma_scalar_byte_patterns(v);
    if c == '\0' {
        assert(bytes[0] == 0u8);
    }
    if bytes.contains(0u8) {
        let i = choose|i: int| 0 <= i < bytes.len() && bytes[i] == 0u8;
        assert(bytes[i] == 0u8);
        assert(v == 0u32);
        vstd::utf8::char_u32_cast(c, v);
        vstd::utf8::char_u32_cast('\0', v);
    }
}

/// The UTF-8 form of a text holds a NUL byte exactly when the text holds a
/// NUL character: what cannot be converted is what would end the C string
/// early.
pub proof fn lemma_nul_byte_iff_nul_char(text: Seq<char>)
    ensures
        encode_utf8(text).contains(0u8) <==> text.contains('\0'),
    decreases text.len(),
{
    if text.len() > 0 {
        let head = encode_scalar(text[0] as u32);
        let rest = text.drop_first();
        let tail = encode_utf8(rest);
        let bytes = encode_utf8(text);
        assert(bytes == head + tail);
        lemma_nul_byte_iff_nul_char(rest);
        lemma_char_bytes_nul(text[0]);
        if text.contains('\0') {
            let i = choose|i: int| 0 <= i < text.len() && text[i] == '\0';
            if i == 0 {
                let k = choose|k: int| 0 <= k < head.len() && head[k] == 0u8;
                assert(bytes[k] == 0u8);
            } else {
                assert(rest[i - 1] == '\0');
                let k = choose|k: int| 0 <= k < tail.len() && tail[k] == 0u8;
                assert(bytes[head.len() + k] == 0u8);
            }
        }
        if bytes.contains(0u8) {
            let k = choose|k: int| 0 <= k < bytes.len() && bytes[k] == 0u8;
            if k < head.len() {
                assert(head[k] == 0u8);
                assert(text[0] == '\0');
            } else {
                assert(tail[k - head.len()] == 0u8);
                let i = choose|i: int| 0 <= i < rest.len() && rest[i] == '\0';
                assert(text[i + 1] == '\0');
            }
        }
    }
}

} // verus!
