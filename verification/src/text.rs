//! Comparing identifiers and deriving the default name of a participant.

use vstd::prelude::*;
use vstd::string::*;
use vstd::utf8::*;
use crate::membership::{cut_at, default_name, short_cut, short_form, SHORT_ID_BYTES};

verus! {

/// Whether two strings hold the same characters.
pub fn same_text(a: &str, b: &str) -> (same: bool)
    ensures
        same == (a@ == b@),
{
    let x = a.as_bytes();
    let y = b.as_bytes();
    proof {
        encode_utf8_decode_utf8(a@);
        encode_utf8_decode_utf8(b@);
    }
    if x.len() != y.len() {
        return false;
    }
    let mut i: usize = 0;
    while i < x.len()
        invariant
            0 <= i <= x.len(),
            x.len() == y.len(),
            x@ == encode_utf8(a@),
            y@ == encode_utf8(b@),
            forall|j: int| 0 <= j < i ==> x@[j] == y@[j],
        decreases x.len() - i,
    {
        if x[i] != y[i] {
            return false;
        }
        i = i + 1;
    }
    proof {
        assert(x@ =~= y@);
    }
    true
}

/// The name under which a participant joins: `User` and the short form of
/// the identifier.
pub fn default_display_name(user_id: &str) -> (name: String)
    ensures
        name@ == default_name(user_id@),
{
    let ghost bytes = encode_utf8(user_id@);
    proof {
        encode_utf8_valid_utf8(user_id@);
    }
    let len = user_id.as_bytes().len();
    let mut cut: usize = if len < SHORT_ID_BYTES {
        len
    } else {
        SHORT_ID_BYTES
    };
    while !user_id.is_char_boundary(cut)
        invariant
            bytes == encode_utf8(user_id@),
            valid_utf8(bytes),
            0 <= cut <= SHORT_ID_BYTES,
            cut_at(bytes, cut as int) == short_cut(bytes),
        decreases cut,
    {
        cut = cut - 1;
    }
    let (head, _) = user_id.split_at(cut);
    proof {
        encode_utf8_decode_utf8(head@);
    }
    let mut name = "User ".to_owned();
    name.append(head);
    name
}

/// The short form of an identifier of ASCII characters is made of its
/// first `SHORT_ID_BYTES` characters, or of all where it has fewer.
pub proof fn lemma_ascii_short_form(id: Seq<char>)
    requires
        is_ascii_chars(id),
    ensures
        short_form(id) == id.subrange(
            0,
            if id.len() < SHORT_ID_BYTES {
                id.len() as int
            } else {
                SHORT_ID_BYTES as int
            },
        ),
{
    let bytes = encode_utf8(id);
    let m: int = if id.len() < SHORT_ID_BYTES {
        id.len() as int
    } else {
        SHORT_ID_BYTES as int
    };
    let head = id.subrange(0, m);
    is_ascii_chars_encode_utf8(id);
    encode_utf8_valid_utf8(id);
    if m == bytes.len() {
        is_char_boundary_start_end_of_seq(bytes);
    } else {
        let b = bytes[m];
        assert(b == id[m] as u8);
        assert(b < 128);
        assert(!is_continuation_byte(b)) by (bit_vector)
            requires
                b < 128,
        ;
        is_char_boundary_iff_not_is_continuation_byte(bytes, m);
    }
    assert(short_cut(bytes) == m);
    assert(is_ascii_chars(head));
    is_ascii_chars_encode_utf8(head);
    assert(bytes.subrange(0, m) =~= encode_utf8(head));
    encode_utf8_decode_utf8(head);
}

} // verus!
