//! Display colours: every participant identifier is given one entry of a
//! fixed palette, chosen by the sum of the identifier's bytes.

use vstd::prelude::*;
use vstd::utf8::*;

verus! {

/// Number of entries in the palette.
pub const PALETTE_SIZE: usize = 10;

/// The palette, in the order in which the byte sum selects from it.
pub open spec fn palette() -> Seq<Seq<char>> {
    seq![
        "#FF6B6B"@,
        "#4ECDC4"@,
        "#45B7D1"@,
        "#96CEB4"@,
        "#FFEAA7"@,
        "#DDA0DD"@,
        "#98D8C8"@,
        "#F7DC6F"@,
        "#BB8FCE"@,
        "#85C1E9"@,
    ]
}

/// Sum of the values of all bytes of `bytes`.
pub open spec fn byte_sum(bytes: Seq<u8>) -> nat
    decreases bytes.len(),
{
    if bytes.len() == 0 {
        0
    } else {
        byte_sum(bytes.drop_last()) + bytes.last() as nat
    }
}

/// Position in the palette of the colour of the participant `id`: the sum of
/// the bytes of the identifier's UTF-8 form, reduced modulo the palette size.
/// The empty identifier has position 0.
pub open spec fn color_index(id: Seq<char>) -> int {
    (byte_sum(encode_utf8(id)) % (PALETTE_SIZE as nat)) as int
}

/// The display colour of the participant `id`.
pub open spec fn color_of(id: Seq<char>) -> Seq<char> {
    palette()[color_index(id)]
}

/// The palette entry at position `i`.
pub fn palette_entry(i: usize) -> (entry: &'static str)
    requires
        i < PALETTE_SIZE,
    ensures
        entry@ == palette()[i as int],
{
    if i == 0 {
        "#FF6B6B"
    } else if i == 1 {
        "#4ECDC4"
    } else if i == 2 {
        "#45B7D1"
    } else if i == 3 {
        "#96CEB4"
    } else if i == 4 {
        "#FFEAA7"
    } else if i == 5 {
        "#DDA0DD"
    } else if i == 6 {
        "#98D8C8"
    } else if i == 7 {
        "#F7DC6F"
    } else if i == 8 {
        "#BB8FCE"
    } else {
        "#85C1E9"
    }
}

/// Gives a participant a consistent colour based on its identifier.
///
/// The running sum is kept reduced modulo the palette size, so identifiers
/// of any length are handled without overflow.
pub fn generate_user_color(user_id: &str) -> (color: String)
    ensures
        color@ == color_of(user_id@),
{
    let bytes = user_id.as_bytes();
    let mut acc: usize = 0;
    let mut i: usize = 0;
    while i < bytes.len()
        invariant
            0 <= i <= bytes.len(),
            bytes@ == encode_utf8(user_id@),
            acc < PALETTE_SIZE,
            acc as nat == byte_sum(bytes@.subrange(0, i as int)) % (PALETTE_SIZE as nat),
        decreases bytes.len() - i,
    {
        proof {
            let next = bytes@.subrange(0, i + 1);
            assert(next.drop_last() =~= bytes@.subrange(0, i as int));
            assert(next.last() == bytes@[i as int]);
            lemma_mod_sum(byte_sum(bytes@.subrange(0, i as int)), bytes@[i as int] as nat);
        }
        acc = (acc + bytes[i] as usize) % PALETTE_SIZE;
        i = i + 1;
    }
    proof {
        assert(bytes@.subrange(0, i as int) =~= bytes@);
    }
    palette_entry(acc).to_owned()
}

/// Reducing a partial sum before the next term is added does not change the
/// reduced total.
proof fn lemma_mod_sum(a: nat, b: nat)
    ensures
        ((a % 10) + b) % 10 == (a + b) % 10,
{
    assert(((a % 10) + b) % 10 == (a + b) % 10) by (nonlinear_arith);
}

/// No colour occurs twice in the palette.
pub proof fn lemma_palette_distinct()
    ensures
        palette().len() == PALETTE_SIZE,
        forall|i: int, j: int|
            0 <= i < j < palette().len() ==> #[trigger] palette()[i] != #[trigger] palette()[j],
{
    reveal_strlit("#FF6B6B");
    reveal_strlit("#4ECDC4");
    reveal_strlit("#45B7D1");
    reveal_strlit("#96CEB4");
    reveal_strlit("#FFEAA7");
    reveal_strlit("#DDA0DD");
    reveal_strlit("#98D8C8");
    reveal_strlit("#F7DC6F");
    reveal_strlit("#BB8FCE");
    reveal_strlit("#85C1E9");
    let p = palette();
    assert(p[0][1] == 'F' && p[0][2] == 'F');
    assert(p[1][1] == '4' && p[1][2] == 'E');
    assert(p[2][1] == '4' && p[2][2] == '5');
    assert(p[3][1] == '9' && p[3][2] == '6');
    assert(p[4][1] == 'F' && p[4][2] == 'F' && p[4][3] == 'E');
    assert(p[0][3] == '6');
    assert(p[5][1] == 'D');
    assert(p[6][1] == '9' && p[6][2] == '8');
    assert(p[7][1] == 'F' && p[7][2] == '7');
    assert(p[8][1] == 'B');
    assert(p[9][1] == '8');
}

/// The colour is a function of the identifier alone, and two identifiers
/// have the same colour exactly when their byte sums agree modulo the
/// palette size.
pub proof fn lemma_color_by_residue(a: Seq<char>, b: Seq<char>)
    ensures
        a == b ==> color_of(a) == color_of(b),
        0 <= color_index(a) < PALETTE_SIZE,
        color_of(a) == color_of(b) <==> color_index(a) == color_index(b),
{
    lemma_palette_distinct();
}

/// Every entry of the palette is the colour of some identifier: the
/// identifier made of the one character with code `k` has the colour at
/// position `k`.
pub proof fn lemma_every_color_is_used(k: u8)
    requires
        k < PALETTE_SIZE,
    ensures
        color_index(seq![k as char]) == k,
        color_of(seq![k as char]) == palette()[k as int],
{
    let id = seq![k as char];
    assert(is_ascii_chars(id));
    is_ascii_chars_encode_utf8(id);
    let bytes = encode_utf8(id);
    assert(bytes.len() == 1);
    assert(bytes[0] == k);
    assert(bytes.drop_last().len() == 0);
    assert(byte_sum(bytes.drop_last()) == 0);
    assert(byte_sum(bytes) == k as nat);
}

} // verus!
