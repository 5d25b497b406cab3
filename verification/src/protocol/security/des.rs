//! The Data Encryption Standard, as the classic password authentication
//! uses it: single blocks of 64 bits under a 64-bit key, with no chaining.
//!
//! Bits are numbered as the standard numbers them: bit 1 is the most
//! significant bit of the first byte.

use vstd::prelude::*;
use crate::protocol::security::des_tables::{
    choice_one, choice_two, expansion, fp, ip, sbox, shift, spec_choice_one, spec_choice_two,
    spec_expansion, spec_fp, spec_ip, spec_sbox, spec_shift, spec_spread, spread, table_fits,
};

verus! {

/// Bit `k` of a byte, counted from the most significant end.
pub open spec fn bit_at(byte: u8, k: int) -> bool {
    (byte >> ((7 - k) as u8)) & 1u8 == 1u8
}

/// The bits of a byte string, eight for each byte, most significant first.
pub open spec fn bits_of(bytes: Seq<u8>) -> Seq<bool> {
    Seq::new(bytes.len() * 8, |i: int| bit_at(bytes[i / 8], i % 8))
}

/// The value of a bit at a place of the given weight.
pub open spec fn weigh(bit: bool, weight: int) -> int {
    if bit {
        weight
    } else {
        0
    }
}

/// The byte that eight bits spell, most significant first.
pub open spec fn byte_of(bits: Seq<bool>) -> u8 {
    (weigh(bits[0], 128) + weigh(bits[1], 64) + weigh(bits[2], 32) + weigh(bits[3], 16) + weigh(
        bits[4],
        8,
    ) + weigh(bits[5], 4) + weigh(bits[6], 2) + weigh(bits[7], 1)) as u8
}

/// The bytes that a bit string spells, eight bits to a byte.
pub open spec fn bytes_of(bits: Seq<bool>) -> Seq<u8> {
    Seq::new(bits.len() / 8, |i: int| byte_of(bits.subrange(8 * i, 8 * i + 8)))
}

/// The eight bits of a byte spell the byte.
pub proof fn lemma_byte_of_bits(byte: u8)
    ensures
        byte_of(bits_of(seq![byte])) == byte,
{
    let bits = bits_of(seq![byte]);
    assert(forall|k: int| 0 <= k < 8 ==> #[trigger] bits[k] == bit_at(byte, k));
    let b0 = bit_at(byte, 0);
    let b1 = bit_at(byte, 1);
    let b2 = bit_at(byte, 2);
    let b3 = bit_at(byte, 3);
    let b4 = bit_at(byte, 4);
    let b5 = bit_at(byte, 5);
    let b6 = bit_at(byte, 6);
    let b7 = bit_at(byte, 7);
    assert(bits[0] == b0 && bits[1] == b1 && bits[2] == b2 && bits[3] == b3 && bits[4] == b4
        && bits[5] == b5 && bits[6] == b6 && bits[7] == b7);
    assert((if (byte >> 7u8) & 1u8 == 1u8 { 128int } else { 0int })
        + (if (byte >> 6u8) & 1u8 == 1u8 { 64int } else { 0int })
        + (if (byte >> 5u8) & 1u8 == 1u8 { 32int } else { 0int })
        + (if (byte >> 4u8) & 1u8 == 1u8 { 16int } else { 0int })
        + (if (byte >> 3u8) & 1u8 == 1u8 { 8int } else { 0int })
        + (if (byte >> 2u8) & 1u8 == 1u8 { 4int } else { 0int })
        + (if (byte >> 1u8) & 1u8 == 1u8 { 2int } else { 0int })
        + (if (byte >> 0u8) & 1u8 == 1u8 { 1int } else { 0int }) == byte as int) by (bit_vector);
}

/// A selection of the bits of `input`: bit `i` of the result is the bit of
/// `input` that entry `i` of the table names, counting from 1.
pub open spec fn permute(input: Seq<bool>, table: Seq<u8>) -> Seq<bool> {
    Seq::new(table.len(), |i: int| input[table[i] as int - 1])
}

/// The bitwise exclusive or of two strings of equal length.
pub open spec fn xor(a: Seq<bool>, b: Seq<bool>) -> Seq<bool> {
    Seq::new(a.len(), |i: int| a[i] != b[i])
}

/// A string turned to the left by `n` places.
pub open spec fn rotate(half: Seq<bool>, n: int) -> Seq<bool> {
    Seq::new(half.len(), |i: int| half[(i + n) % (half.len() as int)])
}

/// The two 28-bit halves of the key register, one after the other, as they
/// stand when `round` round keys have been drawn.
pub open spec fn key_state(key_bits: Seq<bool>, round: nat) -> Seq<bool>
    decreases round,
{
    if round == 0 {
        permute(key_bits, spec_choice_one())
    } else {
        let before = key_state(key_bits, (round - 1) as nat);
        let by = spec_shift(round as int);
        rotate(before.subrange(0, 28), by) + rotate(before.subrange(28, 56), by)
    }
}

/// The 48-bit key of a round, for rounds 1 to 16.
pub open spec fn round_key(key_bits: Seq<bool>, round: nat) -> Seq<bool> {
    permute(key_state(key_bits, round), spec_choice_two())
}

/// The entry of the substitution boxes that group `group` of six bits
/// selects: the outer two bits give the row, the inner four the column.
pub open spec fn sbox_index(mixed: Seq<bool>, group: int) -> int {
    let at = 6 * group;
    group * 64 + (weigh(mixed[at], 2) + weigh(mixed[at + 5], 1)) * 16 + weigh(mixed[at + 1], 8)
        + weigh(mixed[at + 2], 4) + weigh(mixed[at + 3], 2) + weigh(mixed[at + 4], 1)
}

/// The 32 bits that the eight substitution boxes give for 48 bits.
pub open spec fn substitute(mixed: Seq<bool>) -> Seq<bool> {
    Seq::new(32, |i: int| bit_at(spec_sbox(sbox_index(mixed, i / 4)), 4 + i % 4))
}

/// The round function: expand the half block, mix in the round key,
/// substitute, permute.
pub open spec fn feistel(right: Seq<bool>, key: Seq<bool>) -> Seq<bool> {
    permute(substitute(xor(permute(right, spec_expansion()), key)), spec_spread())
}

/// The block, left half then right half, after `round` rounds.
pub open spec fn block_state(block_bits: Seq<bool>, key_bits: Seq<bool>, round: nat) -> Seq<bool>
    decreases round,
{
    if round == 0 {
        permute(block_bits, spec_ip())
    } else {
        let before = block_state(block_bits, key_bits, (round - 1) as nat);
        let left = before.subrange(0, 32);
        let right = before.subrange(32, 64);
        right + xor(left, feistel(right, round_key(key_bits, round)))
    }
}

/// The encryption of one 8-byte block under an 8-byte key.
pub open spec fn encrypt_block(block: Seq<u8>, key: Seq<u8>) -> Seq<u8> {
    let after = block_state(bits_of(block), bits_of(key), 16);
    bytes_of(permute(after.subrange(32, 64) + after.subrange(0, 32), spec_fp()))
}

/// The encryption of a byte string of two blocks, each block by itself.
pub open spec fn encrypt_two_blocks(data: Seq<u8>, key: Seq<u8>) -> Seq<u8> {
    encrypt_block(data.subrange(0, 8), key) + encrypt_block(data.subrange(8, 16), key)
}

/// A block is encrypted into a block: eight bytes give eight, and sixteen
/// bytes as two blocks give sixteen, whatever the key.
pub proof fn lemma_encrypt_len(data: Seq<u8>, key: Seq<u8>)
    ensures
        encrypt_block(data, key).len() == 8,
        encrypt_two_blocks(data, key).len() == 16,
{
    crate::protocol::security::des_tables::lemma_table_lengths();
    assert(encrypt_block(data.subrange(0, 8), key).len() == 8);
    assert(encrypt_block(data.subrange(8, 16), key).len() == 8);
}

/// The bits of `bytes`, most significant first.
fn to_bits(bytes: &[u8]) -> (bits: Vec<bool>)
    requires
        bytes@.len() * 8 <= usize::MAX,
    ensures
        bits@ == bits_of(bytes@),
{
    let mut bits: Vec<bool> = Vec::new();
    let mut i: usize = 0;
    while i < bytes.len()
        invariant
            i <= bytes@.len(),
            bytes@.len() * 8 <= usize::MAX,
            bits@.len() == i * 8,
            forall|j: int| 0 <= j < i * 8 ==> bits@[j] == bit_at(bytes@[j / 8], j % 8),
        decreases bytes@.len() - i,
    {
        let byte = bytes[i];
        let mut k: u8 = 0;
        while k < 8
            invariant
                k <= 8,
                i < bytes@.len(),
                byte == bytes@[i as int],
                bits@.len() == i * 8 + k,
                forall|j: int| 0 <= j < i * 8 + k ==> bits@[j] == bit_at(bytes@[j / 8], j % 8),
            decreases 8 - k,
        {
            bits.push((byte >> (7 - k)) & 1 == 1);
            k += 1;
        }
        i += 1;
    }
    assert(bits@ =~= bits_of(bytes@));
    bits
}

/// The weight if the bit is set, and nothing otherwise.
fn weight_of(bit: bool, weight: u8) -> (w: u8)
    ensures
        w == weigh(bit, weight as int),
{
    if bit {
        weight
    } else {
        0
    }
}

/// The bytes that `bits` spell, eight bits to a byte.
fn to_bytes(bits: &Vec<bool>) -> (bytes: Vec<u8>)
    ensures
        bytes@ == bytes_of(bits@),
{
    let mut bytes: Vec<u8> = Vec::new();
    let count = bits.len() / 8;
    let mut i: usize = 0;
    while i < count
        invariant
            i <= count,
            count == bits@.len() / 8,
            bits@.len() <= usize::MAX,
            bytes@.len() == i,
            forall|j: int|
                0 <= j < i ==> bytes@[j] == byte_of(#[trigger] bits@.subrange(8 * j, 8 * j + 8)),
        decreases count - i,
    {
        let at = 8 * i;
        let ghost group = bits@.subrange(8 * i, 8 * i + 8);
        assert(forall|k: int| 0 <= k < 8 ==> group[k] == bits@[at + k]);
        let byte = weight_of(bits[at], 128) + weight_of(bits[at + 1], 64) + weight_of(
            bits[at + 2],
            32,
        ) + weight_of(bits[at + 3], 16) + weight_of(bits[at + 4], 8) + weight_of(bits[at + 5], 4)
            + weight_of(bits[at + 6], 2) + weight_of(bits[at + 7], 1);
        bytes.push(byte);
        i += 1;
    }
    assert(bytes@ =~= bytes_of(bits@));
    bytes
}

/// Selects bits of `input` as `table` says.
fn permute_bits(input: &Vec<bool>, table: &[u8]) -> (out: Vec<bool>)
    requires
        table_fits(table@, input@.len() as int),
    ensures
        out@ == permute(input@, table@),
{
    let mut out: Vec<bool> = Vec::new();
    let mut i: usize = 0;
    while i < table.len()
        invariant
            i <= table@.len(),
            table_fits(table@, input@.len() as int),
            out@.len() == i,
            forall|j: int| 0 <= j < i ==> out@[j] == input@[table@[j] as int - 1],
        decreases table@.len() - i,
    {
        let from = table[i] as usize - 1;
        out.push(input[from]);
        i += 1;
    }
    assert(out@ =~= permute(input@, table@));
    out
}

/// The bitwise exclusive or of two strings of equal length.
fn xor_bits(a: &Vec<bool>, b: &Vec<bool>) -> (out: Vec<bool>)
    requires
        a@.len() == b@.len(),
    ensures
        out@ == xor(a@, b@),
{
    let mut out: Vec<bool> = Vec::new();
    let mut i: usize = 0;
    while i < a.len()
        invariant
            i <= a@.len(),
            a@.len() == b@.len(),
            out@.len() == i,
            forall|j: int| 0 <= j < i ==> out@[j] == (a@[j] != b@[j]),
        decreases a@.len() - i,
    {
        out.push(a[i] != b[i]);
        i += 1;
    }
    assert(out@ =~= xor(a@, b@));
    out
}

/// Appends to `out` the bits `from..to` of `state`, turned left by `by` places.
fn push_rotated(out: &mut Vec<bool>, state: &Vec<bool>, from: usize, by: usize)
    requires
        from + 28 <= state@.len(),
        by <= 2,
    ensures
        final(out)@ == old(out)@ + rotate(state@.subrange(from as int, from + 28), by as int),
{
    let total = state.len();
    let mut i: usize = 0;
    while i < 28
        invariant
            i <= 28,
            by <= 2,
            from + 28 <= state@.len() == total,
            out@.len() == old(out)@.len() + i,
            forall|j: int| 0 <= j < old(out)@.len() ==> out@[j] == old(out)@[j],
            forall|k: int|
                old(out)@.len() <= k < out@.len() ==> #[trigger] out@[k] == state@[from + (k
                    - old(out)@.len() + by) % 28],
        decreases 28 - i,
    {
        out.push(state[from + (i + by) % 28]);
        i += 1;
    }
    assert(out@ =~= old(out)@ + rotate(state@.subrange(from as int, from + 28), by as int));
}

/// The entry of the substitution boxes that group `group` of `mixed` selects.
fn lookup(mixed: &Vec<bool>, group: usize) -> (entry: u8)
    requires
        mixed@.len() == 48,
        group < 8,
    ensures
        entry == spec_sbox(sbox_index(mixed@, group as int)),
{
    let at = 6 * group;
    let row = weight_of(mixed[at], 2) + weight_of(mixed[at + 5], 1);
    let column = weight_of(mixed[at + 1], 8) + weight_of(mixed[at + 2], 4) + weight_of(
        mixed[at + 3],
        2,
    ) + weight_of(mixed[at + 4], 1);
    sbox(group * 64 + row as usize * 16 + column as usize)
}

/// Appends the four low bits of `entry`, most significant first.
fn push_low_bits(out: &mut Vec<bool>, entry: u8)
    ensures
        final(out)@ == old(out)@ + seq![
            bit_at(entry, 4),
            bit_at(entry, 5),
            bit_at(entry, 6),
            bit_at(entry, 7),
        ],
{
    out.push((entry >> 3) & 1 == 1);
    out.push((entry >> 2) & 1 == 1);
    out.push((entry >> 1) & 1 == 1);
    out.push((entry >> 0) & 1 == 1);
    assert(out@ =~= old(out)@ + seq![
        bit_at(entry, 4),
        bit_at(entry, 5),
        bit_at(entry, 6),
        bit_at(entry, 7),
    ]);
}

/// The 32 bits that the eight substitution boxes give for 48 bits.
fn substitute_bits(mixed: &Vec<bool>) -> (out: Vec<bool>)
    requires
        mixed@.len() == 48,
    ensures
        out@ == substitute(mixed@),
{
    let mut out: Vec<bool> = Vec::new();
    let mut group: usize = 0;
    while group < 8
        invariant
            group <= 8,
            mixed@.len() == 48,
            out@.len() == 4 * group,
            forall|j: int|
                0 <= j < 4 * group ==> out@[j] == bit_at(
                    spec_sbox(sbox_index(mixed@, j / 4)),
                    4 + j % 4,
                ),
        decreases 8 - group,
    {
        let entry = lookup(mixed, group);
        let ghost before = out@;
        push_low_bits(&mut out, entry);
        assert forall|j: int| 0 <= j < 4 * (group + 1) implies out@[j] == bit_at(
            spec_sbox(sbox_index(mixed@, j / 4)),
            4 + j % 4,
        ) by {
            if j < 4 * group {
                assert(out@[j] == before[j]);
            } else {
                assert(j / 4 == group as int);
                assert(j % 4 == j - 4 * group);
            }
        }
        group += 1;
    }
    assert(out@ =~= substitute(mixed@));
    out
}

/// Encrypts one 8-byte block under an 8-byte key.
pub fn encrypt_one(block: &[u8; 8], key: &[u8; 8]) -> (out: Vec<u8>)
    ensures
        out@ == encrypt_block(block@, key@),
        out@.len() == 8,
{
    let key_bits = to_bits(key.as_slice());
    let block_bits = to_bits(block.as_slice());
    let mut keys = permute_bits(&key_bits, choice_one().as_slice());
    let mut state = permute_bits(&block_bits, ip().as_slice());
    let mut round: usize = 0;
    while round < 16
        invariant
            round <= 16,
            keys@ == key_state(key_bits@, round as nat),
            state@ == block_state(block_bits@, key_bits@, round as nat),
            keys@.len() == 56,
            state@.len() == 64,
        decreases 16 - round,
    {
        let by = shift(round + 1);
        let mut turned: Vec<bool> = Vec::new();
        push_rotated(&mut turned, &keys, 0, by);
        push_rotated(&mut turned, &keys, 28, by);
        keys = turned;
        round += 1;
        assert(keys@ =~= key_state(key_bits@, round as nat));
        let round_key = permute_bits(&keys, choice_two().as_slice());
        let mut left: Vec<bool> = Vec::new();
        let mut right: Vec<bool> = Vec::new();
        let mut i: usize = 0;
        while i < 32
            invariant
                i <= 32,
                state@.len() == 64,
                left@ == state@.subrange(0, i as int),
                right@ == state@.subrange(32, 32 + i),
            decreases 32 - i,
        {
            left.push(state[i]);
            right.push(state[32 + i]);
            i += 1;
            assert(left@ =~= state@.subrange(0, i as int));
            assert(right@ =~= state@.subrange(32, 32 + i));
        }
        let expanded = permute_bits(&right, expansion().as_slice());
        let mixed = xor_bits(&expanded, &round_key);
        let substituted = substitute_bits(&mixed);
        let spread = permute_bits(&substituted, spread().as_slice());
        let new_right = xor_bits(&left, &spread);
        let mut next: Vec<bool> = right;
        let mut j: usize = 0;
        while j < 32
            invariant
                j <= 32,
                new_right@.len() == 32,
                next@ == state@.subrange(32, 64) + new_right@.subrange(0, j as int),
            decreases 32 - j,
        {
            next.push(new_right[j]);
            j += 1;
            assert(next@ =~= state@.subrange(32, 64) + new_right@.subrange(0, j as int));
        }
        assert(new_right@.subrange(0, 32) =~= new_right@);
        state = next;
    }
    let mut swapped: Vec<bool> = Vec::new();
    let mut i: usize = 0;
    while i < 64
        invariant
            i <= 64,
            state@.len() == 64,
            swapped@.len() == i,
            forall|j: int| 0 <= j < i ==> swapped@[j] == state@[(j + 32) % 64],
        decreases 64 - i,
    {
        swapped.push(state[(i + 32) % 64]);
        i += 1;
    }
    assert(swapped@ =~= state@.subrange(32, 64) + state@.subrange(0, 32));
    let cipher_bits = permute_bits(&swapped, fp().as_slice());
    to_bytes(&cipher_bits)
}

/// Encrypts 16 bytes as two blocks of 8, each by itself, under an 8-byte key.
pub fn encrypt(data: &[u8; 16], key: &[u8; 8]) -> (out: [u8; 16])
    ensures
        out@ == encrypt_two_blocks(data@, key@),
{
    let mut first: [u8; 8] = [0; 8];
    let mut second: [u8; 8] = [0; 8];
    let mut i: usize = 0;
    while i < 8
        invariant
            i <= 8,
            forall|k: int| 0 <= k < i ==> first@[k] == data@[k] && second@[k] == data@[8 + k],
        decreases 8 - i,
    {
        first[i] = data[i];
        second[i] = data[8 + i];
        i += 1;
    }
    assert(first@ =~= data@.subrange(0, 8));
    assert(second@ =~= data@.subrange(8, 16));
    let head = encrypt_one(&first, key);
    let tail = encrypt_one(&second, key);
    let mut out: [u8; 16] = [0; 16];
    let mut j: usize = 0;
    while j < 8
        invariant
            j <= 8,
            head@.len() == 8,
            tail@.len() == 8,
            forall|k: int| 0 <= k < j ==> out@[k] == head@[k] && out@[8 + k] == tail@[k],
        decreases 8 - j,
    {
        out[j] = head[j];
        out[8 + j] = tail[j];
        j += 1;
    }
    assert(out@ =~= encrypt_two_blocks(data@, key@));
    out
}

} // verus!
