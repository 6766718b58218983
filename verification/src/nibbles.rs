//! Splitting bytes into four-bit halves, padding a run of halves to whole
//! pixels, and joining halves back into bytes up to the terminator.

use vstd::prelude::*;

verus! {

/// The upper four bits of a byte, as a value from 0 to 15.
pub open spec fn high_nibble(b: u8) -> u8 {
    (b >> 4) & 0x0F
}

/// The lower four bits of a byte.
pub open spec fn low_nibble(b: u8) -> u8 {
    b & 0x0F
}

/// The byte whose upper half is `hi` and whose lower half is `lo`.
pub open spec fn join_nibbles(hi: u8, lo: u8) -> u8 {
    (hi << 4) | (lo & 0x0F)
}

/// Two nibbles for each byte, the high one first.
pub open spec fn nibbles_of(bytes: Seq<u8>) -> Seq<u8> {
    Seq::new(
        2 * bytes.len(),
        |k: int|
            if k % 2 == 0 {
                high_nibble(bytes[k / 2])
            } else {
                low_nibble(bytes[k / 2])
            },
    )
}

/// How many zero nibbles bring a run of `n` nibbles to a multiple of three.
pub open spec fn padding_len(n: nat) -> nat {
    if n % 3 == 1 {
        2
    } else if n % 3 == 2 {
        1
    } else {
        0
    }
}

/// A run of `n` zero nibbles.
pub open spec fn zeros(n: nat) -> Seq<u8> {
    Seq::new(n, |k: int| 0u8)
}

/// The nibbles followed by the zero nibbles that complete the last triple.
pub open spec fn padded(nibbles: Seq<u8>) -> Seq<u8> {
    nibbles + zeros(padding_len(nibbles.len()))
}

/// The nibbles with one zero nibble appended when their number is odd.
pub open spec fn evened(nibbles: Seq<u8>) -> Seq<u8> {
    if nibbles.len() % 2 == 1 {
        nibbles.push(0u8)
    } else {
        nibbles
    }
}

/// One byte for each full pair of nibbles.
pub open spec fn bytes_of(nibbles: Seq<u8>) -> Seq<u8> {
    Seq::new(
        (nibbles.len() / 2) as nat,
        |i: int| join_nibbles(nibbles[2 * i], nibbles[2 * i + 1]),
    )
}

/// `k` is the position of the first zero byte.
pub open spec fn is_terminator_at(bytes: Seq<u8>, k: int) -> bool {
    &&& 0 <= k < bytes.len()
    &&& bytes[k] == 0
    &&& forall|j: int| 0 <= j < k ==> bytes[j] != 0
}

/// Some byte is zero.
pub open spec fn has_terminator(bytes: Seq<u8>) -> bool {
    exists|k: int| is_terminator_at(bytes, k)
}

/// The bytes that stand before the first zero byte. Where no byte is zero
/// the last byte takes the terminator's place and is dropped.
pub open spec fn before_terminator(bytes: Seq<u8>) -> Seq<u8> {
    if has_terminator(bytes) {
        bytes.take(choose|k: int| is_terminator_at(bytes, k))
    } else if bytes.len() > 0 {
        bytes.drop_last()
    } else {
        bytes
    }
}

/// The payload followed by its terminator, the zero byte.
pub open spec fn terminated(payload: Seq<u8>) -> Seq<u8> {
    payload.push(0u8)
}

/// The upper four bits of `b`.
pub fn high(b: u8) -> (n: u8)
    ensures
        n == high_nibble(b),
        n <= 15,
{
    let n: u8 = (b >> 4) & 0x0F;
    assert(((b >> 4) & 0x0F) <= 15) by (bit_vector);
    n
}

/// The lower four bits of `b`.
pub fn low(b: u8) -> (n: u8)
    ensures
        n == low_nibble(b),
        n <= 15,
{
    let n: u8 = b & 0x0F;
    assert((b & 0x0F) <= 15) by (bit_vector);
    n
}

/// Joins two nibbles into a byte; only the low four bits of `lo` count.
pub fn join(hi: u8, lo: u8) -> (b: u8)
    ensures
        b == join_nibbles(hi, lo),
{
    (hi << 4) | (lo & 0x0F)
}

/// Copies the payload and appends the terminator.
pub fn with_terminator(payload: &[u8]) -> (bytes: Vec<u8>)
    ensures
        bytes@ == terminated(payload@),
{
    let mut bytes: Vec<u8> = Vec::new();
    let mut i: usize = 0;
    while i < payload.len()
        invariant
            i <= payload.len(),
            bytes@ == payload@.take(i as int),
        decreases payload.len() - i,
    {
        bytes.push(payload[i]);
        assert(payload@.take(i + 1) =~= payload@.take(i as int).push(payload@[i as int]));
        i += 1;
    }
    assert(payload@.take(i as int) =~= payload@);
    bytes.push(0u8);
    bytes
}

/// Splits every byte into its high and low nibble, in that order.
pub fn split_nibbles(bytes: &[u8]) -> (nibbles: Vec<u8>)
    ensures
        nibbles@ == nibbles_of(bytes@),
        forall|k: int| 0 <= k < nibbles@.len() ==> nibbles@[k] <= 15,
{
    let mut nibbles: Vec<u8> = Vec::new();
    let mut i: usize = 0;
    while i < bytes.len()
        invariant
            i <= bytes.len(),
            nibbles@.len() == 2 * i,
            forall|k: int| 0 <= k < 2 * i ==> nibbles@[k] == nibbles_of(bytes@)[k],
            forall|k: int| 0 <= k < 2 * i ==> nibbles@[k] <= 15,
        decreases bytes.len() - i,
    {
        let b: u8 = bytes[i];
        nibbles.push(high(b));
        nibbles.push(low(b));
        i += 1;
    }
    assert(nibbles@ =~= nibbles_of(bytes@));
    nibbles
}

/// Appends zero nibbles until the length is a multiple of three: two after
/// a remainder of one, one after a remainder of two, none otherwise.
pub fn pad_to_triples(nibbles: &mut Vec<u8>)
    ensures
        final(nibbles)@ == padded(old(nibbles)@),
        final(nibbles)@.len() % 3 == 0,
        old(nibbles)@.len() % 3 == 1 ==> final(nibbles)@ == old(nibbles)@.push(0u8).push(0u8),
        old(nibbles)@.len() % 3 == 2 ==> final(nibbles)@ == old(nibbles)@.push(0u8),
        old(nibbles)@.len() % 3 == 0 ==> final(nibbles)@ == old(nibbles)@,
{
    let rem: usize = nibbles.len() % 3;
    if rem == 1 {
        nibbles.push(0u8);
        nibbles.push(0u8);
    } else if rem == 2 {
        nibbles.push(0u8);
    }
    assert(nibbles@ =~= padded(old(nibbles)@));
}

/// Appends one zero nibble when the length is odd, so that the nibbles
/// pair up.
pub fn make_even(nibbles: &mut Vec<u8>)
    ensures
        final(nibbles)@ == evened(old(nibbles)@),
        final(nibbles)@.len() % 2 == 0,
{
    if nibbles.len() % 2 != 0 {
        nibbles.push(0u8);
    }
}

/// Joins the nibbles pairwise into bytes and returns those before the
/// first zero byte. A trailing unpaired nibble is ignored. Where no byte
/// is zero, every byte but the last is returned.
pub fn assemble_payload(nibbles: &[u8]) -> (payload: Vec<u8>)
    ensures
        payload@ == before_terminator(bytes_of(nibbles@)),
{
    let ghost bytes = bytes_of(nibbles@);
    let pairs: usize = nibbles.len() / 2;
    let mut payload: Vec<u8> = Vec::new();
    let mut i: usize = 0;
    while i < pairs
        invariant
            i <= pairs,
            pairs == nibbles@.len() / 2,
            nibbles@.len() <= usize::MAX,
            bytes == bytes_of(nibbles@),
            payload@ == bytes.take(i as int),
            forall|j: int| 0 <= j < i ==> bytes[j] != 0,
        decreases pairs - i,
    {
        let byte: u8 = join(nibbles[2 * i], nibbles[2 * i + 1]);
        payload.push(byte);
        assert(bytes.take(i + 1) =~= bytes.take(i as int).push(bytes[i as int]));
        if byte == 0 {
            payload.pop();
            proof {
                assert(is_terminator_at(bytes, i as int));
                let k = choose|k: int| is_terminator_at(bytes, k);
                assert(k == i);
                assert(payload@ =~= bytes.take(i as int));
            }
            return payload;
        }
        i += 1;
    }
    payload.pop();
    proof {
        assert(!has_terminator(bytes));
        assert(bytes.take(i as int) =~= bytes);
    }
    payload
}

} // verus!
