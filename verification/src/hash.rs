//! A hash of hexes, which spreads the shades of the ground over the map.

use vstd::prelude::*;

use crate::palette::SHADES;

verus! {

/// The residue of an integer modulo 2 to the 32.
pub open spec fn residue(n: int) -> u32 {
    (n % 0x1_0000_0000) as u32
}

/// The two coordinates, each spread by a factor of its own, in one word.
pub open spec fn spread(q: i32, r: i32) -> u32 {
    residue(q * 374761393) ^ residue(r * 668265263)
}

/// The upper bits of a word, folded onto the lower ones before and after a product.
pub open spec fn stirred(word: u32) -> u32 {
    let folded = word ^ (word >> 13);
    let product = residue(folded * 1274126177);
    product ^ (product >> 16)
}

/// The hash of a hex.
pub open spec fn hash_of(q: i32, r: i32) -> u32 {
    stirred(spread(q, r))
}

/// A stable hash of a hex.
pub fn tile_hash(q: i32, r: i32) -> (hash: u32)
    ensures
        hash == hash_of(q, r),
{
    let a: i32 = q.wrapping_mul(374761393);
    let b: i32 = r.wrapping_mul(668265263);
    let mut h: u32 = (a ^ b) as u32;
    proof {
        assert((a ^ b) as u32 == (a as u32) ^ (b as u32)) by (bit_vector);
        assert(a as u32 == if a < 0 {
            a + 0x1_0000_0000
        } else {
            a as int
        }) by (bit_vector);
        assert(b as u32 == if b < 0 {
            b + 0x1_0000_0000
        } else {
            b as int
        }) by (bit_vector);
    }
    h = h ^ (h >> 13);
    h = h.wrapping_mul(1274126177);
    h ^ (h >> 16)
}

/// The shade that the top of a hex has, as its place among the shades of its ground.
pub fn shade_index(q: i32, r: i32) -> (shade: usize)
    ensures
        shade == hash_of(q, r) as int % SHADES as int,
        shade < SHADES,
        shade == hash_of(q, r) as int % 5,
{
    tile_hash(q, r) as usize % SHADES
}

/// Multiples of the first factor by different words leave different residues.
proof fn lemma_column_factor(a: int, b: int)
    requires
        -0x1_0000_0000 < a - b < 0x1_0000_0000,
        residue(a * 374761393) == residue(b * 374761393),
    ensures
        a == b,
{
    let t = a * 374761393 / 0x1_0000_0000 - b * 374761393 / 0x1_0000_0000;
    assert((a - b) * 374761393 == t * 0x1_0000_0000);
    assert(a - b == 0x1_0000_0000 * (t * 2923004241 - 255049472 * (a - b)));
}

/// Multiples of the second factor by different words leave different residues.
proof fn lemma_row_factor(a: int, b: int)
    requires
        -0x1_0000_0000 < a - b < 0x1_0000_0000,
        residue(a * 668265263) == residue(b * 668265263),
    ensures
        a == b,
{
    let t = a * 668265263 / 0x1_0000_0000 - b * 668265263 / 0x1_0000_0000;
    assert((a - b) * 668265263 == t * 0x1_0000_0000);
    assert(a - b == 0x1_0000_0000 * (t * 2701016015 - 420258189 * (a - b)));
}

/// Multiples of the third factor by different words leave different residues.
proof fn lemma_stir_factor(a: int, b: int)
    requires
        -0x1_0000_0000 < a - b < 0x1_0000_0000,
        residue(a * 1274126177) == residue(b * 1274126177),
    ensures
        a == b,
{
    let t = a * 1274126177 / 0x1_0000_0000 - b * 1274126177 / 0x1_0000_0000;
    assert((a - b) * 1274126177 == t * 0x1_0000_0000);
    assert(a - b == 0x1_0000_0000 * (t * 1406485665 - 417241874 * (a - b)));
}

/// Stirring loses nothing: different words stay different.
proof fn lemma_stirred_differ(a: u32, b: u32)
    requires
        stirred(a) == stirred(b),
    ensures
        a == b,
{
    let fa = a ^ (a >> 13);
    let fb = b ^ (b >> 13);
    let pa = residue(fa * 1274126177);
    let pb = residue(fb * 1274126177);
    assert(pa ^ (pa >> 16) == pb ^ (pb >> 16) ==> pa == pb) by (bit_vector);
    lemma_stir_factor(fa as int, fb as int);
    assert(a ^ (a >> 13) == b ^ (b >> 13) ==> a == b) by (bit_vector);
}

/// No two hexes of one row have the same hash, and no two of one column.
pub proof fn law_hash_differs_along_lines(a: i32, b: i32, fixed: i32)
    requires
        a != b,
    ensures
        hash_of(a, fixed) != hash_of(b, fixed),
        hash_of(fixed, a) != hash_of(fixed, b),
{
    let column = residue(fixed * 374761393);
    let row = residue(fixed * 668265263);
    let qa = residue(a * 374761393);
    let qb = residue(b * 374761393);
    let ra = residue(a * 668265263);
    let rb = residue(b * 668265263);
    if hash_of(a, fixed) == hash_of(b, fixed) {
        lemma_stirred_differ(spread(a, fixed), spread(b, fixed));
        assert(qa ^ row == qb ^ row ==> qa == qb) by (bit_vector);
        lemma_column_factor(a as int, b as int);
    }
    if hash_of(fixed, a) == hash_of(fixed, b) {
        lemma_stirred_differ(spread(fixed, a), spread(fixed, b));
        assert(column ^ ra == column ^ rb ==> ra == rb) by (bit_vector);
        lemma_row_factor(a as int, b as int);
    }
}

/// The word that a hash was stirred from, got back step by step: the fold of the upper
/// half, the product with the inverse of the factor, and the fold of the upper bits.
pub open spec fn unstirred(hash: u32) -> u32 {
    let product = hash ^ (hash >> 16);
    let folded = ((product * 1406485665) % 0x1_0000_0000) as u32;
    folded ^ (folded >> 13) ^ (folded >> 26)
}

/// The product with the third factor is undone by the product with its inverse.
proof fn lemma_stir_factor_undone(word: u32)
    ensures
        (residue(word * 1274126177) * 1406485665) % 0x1_0000_0000 == word,
{
    let t = word * 1274126177 / 0x1_0000_0000;
    let product = residue(word * 1274126177) as int;
    assert(product == word * 1274126177 - t * 0x1_0000_0000);
    let u = 417241874 * word - 1406485665 * t;
    assert(product * 1406485665 == word + u * 0x1_0000_0000);
    vstd::arithmetic::div_mod::lemma_fundamental_div_mod_converse(
        product * 1406485665,
        0x1_0000_0000,
        u,
        word as int,
    );
}

/// The hash of a hex can be undone: what comes back is the two coordinates, each times
/// its own factor modulo 2 to the 32, joined bit by bit.
pub proof fn law_hash_can_be_undone(q: i32, r: i32)
    ensures
        unstirred(hash_of(q, r)) == ((q * 374761393) % 0x1_0000_0000) as u32 ^ ((r * 668265263)
            % 0x1_0000_0000) as u32,
{
    let word = spread(q, r);
    let folded = word ^ (word >> 13);
    let product = residue(folded * 1274126177);
    assert((product ^ (product >> 16)) ^ ((product ^ (product >> 16)) >> 16) == product)
        by (bit_vector);
    lemma_stir_factor_undone(folded);
    assert((word ^ (word >> 13)) ^ ((word ^ (word >> 13)) >> 13) ^ ((word ^ (word >> 13)) >> 26)
        == word) by (bit_vector);
}

/// The hashes of five hexes of the central row; they fall on five different shades.
proof fn lemma_hash_samples()
    ensures
        hash_of(0, 0) == 0,
        hash_of(1, 0) == 2182377942,
        hash_of(4, 0) == 139708251,
        hash_of(5, 0) == 1168402289,
        hash_of(7, 0) == 1473580868,
{
    assert(0u32 ^ 0u32 == 0u32 && 0u32 ^ (0u32 >> 13) == 0u32 && 0u32 ^ (0u32 >> 16) == 0u32)
        by (bit_vector);
    assert(0x165667b1u32 ^ 0u32 == 0x165667b1u32 && 0x165667b1u32 ^ (0x165667b1u32 >> 13)
        == 0x1656d502u32 && 0x8214f3c2u32 ^ (0x8214f3c2u32 >> 16) == 0x821471d6u32)
        by (bit_vector);
    assert(0x59599ec4u32 ^ 0u32 == 0x59599ec4u32 && 0x59599ec4u32 ^ (0x59599ec4u32 >> 13)
        == 0x595b5408u32 && 0x0853cf08u32 ^ (0x0853cf08u32 >> 16) == 0x0853c75bu32)
        by (bit_vector);
    assert(0x6fb00675u32 ^ 0u32 == 0x6fb00675u32 && 0x6fb00675u32 ^ (0x6fb00675u32 >> 13)
        == 0x6fb37bf5u32 && 0x45a422d5u32 ^ (0x45a422d5u32 >> 16) == 0x45a46771u32)
        by (bit_vector);
    assert(0x9c5cd5d7u32 ^ 0u32 == 0x9c5cd5d7u32 && 0x9c5cd5d7u32 ^ (0x9c5cd5d7u32 >> 13)
        == 0x9c583731u32 && 0x57d55891u32 ^ (0x57d55891u32 >> 16) == 0x57d50f44u32)
        by (bit_vector);
}

/// Every shade is used: each remainder modulo five is that of the hash of some hex in the
/// eight columns from the centre on, in the central row.
pub proof fn law_every_shade_is_hashed(shade: int)
    requires
        0 <= shade < 5,
    ensures
        exists|q: i32| 0 <= q <= 7 && #[trigger] hash_of(q, 0) as int % 5 == shade,
{
    lemma_hash_samples();
    assert(hash_of(0, 0) as int % 5 == 0);
    assert(hash_of(4, 0) as int % 5 == 1);
    assert(hash_of(1, 0) as int % 5 == 2);
    assert(hash_of(7, 0) as int % 5 == 3);
    assert(hash_of(5, 0) as int % 5 == 4);
}

} // verus!
