//! 64-bit row arithmetic for the framebuffer: rotations, the eight-pixel
//! sprite window, and the XOR compositing step used by `DRW`.

use vstd::prelude::*;

verus! {

/// Rotate `x` right by `n` bit positions (any `n`; only `n % 64` matters).
pub open spec fn rotr64(x: u64, n: u64) -> u64 {
    (x >> (n % 64)) | (x << (((64 - (n % 64)) % 64) as u64))
}

pub fn rotr64_exec(x: u64, n: u64) -> (r: u64)
    ensures
        r == rotr64(x, n),
{
    let m = n % 64;
    (x >> m) | (x << ((64 - m) % 64))
}

/// The row value of eight big-endian bytes: byte 0 is the most significant.
pub open spec fn row_val(r: Seq<u8>) -> u64 {
    ((r[0] as u64) << 56) | ((r[1] as u64) << 48) | ((r[2] as u64) << 40) | ((r[3] as u64) << 32)
        | ((r[4] as u64) << 24) | ((r[5] as u64) << 16) | ((r[6] as u64) << 8) | (r[7] as u64)
}

/// Byte `i` of a row value, big-endian.
pub open spec fn byte_of(v: u64, i: int) -> u8 {
    ((v >> ((56 - 8 * i) as u64)) & 0xFF) as u8
}

/// Mask of the eight bit positions a sprite occupies when its leftmost pixel
/// sits at column `col` (`col < 64`), wrapping at the row's right edge.
pub open spec fn window_mask(col: u64) -> u64 {
    rotr64(0xFF00000000000000, col)
}

/// A sprite byte, placed in the row at column `col` (with wrap-around).
pub open spec fn sprite_at(sprite: u8, col: u64) -> u64 {
    rotr64(sprite as u64, ((col + 8) as u64))
}

/// The row value after compositing `sprite` at `col` into `prev`: the placed
/// sprite is XORed into the row, every pixel outside its window untouched.
pub open spec fn drw_val(prev: u64, col: u64, sprite: u8) -> u64 {
    prev ^ sprite_at(sprite, col)
}

/// Whether compositing turns some lit pixel off: a pixel flips exactly where
/// the placed sprite is lit, so a collision is a lit pixel under the sprite.
pub open spec fn drw_collision(prev: u64, col: u64, sprite: u8) -> bool {
    prev & sprite_at(sprite, col) != 0
}

/// Bytes round-trip through the row value.
pub proof fn lemma_byte_of_row_val(r: Seq<u8>)
    requires
        r.len() == 8,
    ensures
        forall|i: int| 0 <= i < 8 ==> #[trigger] byte_of(row_val(r), i) == r[i],
{
    let b0 = r[0];
    let b1 = r[1];
    let b2 = r[2];
    let b3 = r[3];
    let b4 = r[4];
    let b5 = r[5];
    let b6 = r[6];
    let b7 = r[7];
    let v = row_val(r);
    assert(v == ((b0 as u64) << 56) | ((b1 as u64) << 48) | ((b2 as u64) << 40) | ((b3 as u64)
        << 32) | ((b4 as u64) << 24) | ((b5 as u64) << 16) | ((b6 as u64) << 8) | (b7 as u64));
    assert((v >> 56) & 0xFF == b0 as u64 && (v >> 48) & 0xFF == b1 as u64 && (v >> 40) & 0xFF
        == b2 as u64 && (v >> 32) & 0xFF == b3 as u64 && (v >> 24) & 0xFF == b4 as u64 && (v
        >> 16) & 0xFF == b5 as u64 && (v >> 8) & 0xFF == b6 as u64 && (v >> 0) & 0xFF
        == b7 as u64)
        by (bit_vector)
        requires
            v == ((b0 as u64) << 56) | ((b1 as u64) << 48) | ((b2 as u64) << 40) | ((b3 as u64)
                << 32) | ((b4 as u64) << 24) | ((b5 as u64) << 16) | ((b6 as u64) << 8) | (
            b7 as u64),
    ;
    assert(byte_of(v, 0) == r[0]);
    assert(byte_of(v, 1) == r[1]);
    assert(byte_of(v, 2) == r[2]);
    assert(byte_of(v, 3) == r[3]);
    assert(byte_of(v, 4) == r[4]);
    assert(byte_of(v, 5) == r[5]);
    assert(byte_of(v, 6) == r[6]);
    assert(byte_of(v, 7) == r[7]);
}

/// A row value round-trips through its bytes.
pub proof fn lemma_row_val_of_bytes(v: u64)
    ensures
        row_val(Seq::new(8, |k: int| byte_of(v, k))) == v,
{
    let r = Seq::new(8, |k: int| byte_of(v, k));
    let b0 = r[0];
    let b1 = r[1];
    let b2 = r[2];
    let b3 = r[3];
    let b4 = r[4];
    let b5 = r[5];
    let b6 = r[6];
    let b7 = r[7];
    assert((v >> 0) & 0xFF == v & 0xFF) by (bit_vector);
    assert(b7 == (v & 0xFF) as u8);
    assert(((b0 as u64) << 56) | ((b1 as u64) << 48) | ((b2 as u64) << 40) | ((b3 as u64) << 32)
        | ((b4 as u64) << 24) | ((b5 as u64) << 16) | ((b6 as u64) << 8) | (b7 as u64) == v)
        by (bit_vector)
        requires
            b0 == ((v >> 56) & 0xFF) as u8,
            b1 == ((v >> 48) & 0xFF) as u8,
            b2 == ((v >> 40) & 0xFF) as u8,
            b3 == ((v >> 32) & 0xFF) as u8,
            b4 == ((v >> 24) & 0xFF) as u8,
            b5 == ((v >> 16) & 0xFF) as u8,
            b6 == ((v >> 8) & 0xFF) as u8,
            b7 == (v & 0xFF) as u8,
    ;
}

/// Compositing the same sprite twice restores any row: XOR is its own
/// inverse. And where the first pass lit some pixel, the second pass clears
/// it again and so reports a collision.
pub proof fn lemma_drw_self_inverse(prev: u64, col: u64, sprite: u8)
    ensures
        drw_val(drw_val(prev, col, sprite), col, sprite) == prev,
        prev & sprite_at(sprite, col) != sprite_at(sprite, col) ==> drw_collision(
            drw_val(prev, col, sprite),
            col,
            sprite,
        ),
{
    let sp = sprite_at(sprite, col);
    assert((prev ^ sp) ^ sp == prev) by (bit_vector);
    assert(prev & sp != sp ==> (prev ^ sp) & sp != 0) by (bit_vector);
}

} // verus!
