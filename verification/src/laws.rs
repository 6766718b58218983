//! What holds of embedding and extracting together.

use vstd::prelude::*;
use crate::canvas::Rgba8;
use crate::codec::{channel, embedded, grid_nibbles, payload_nibbles, recovered, required_pixels, stamped};
use crate::nibbles::{
    before_terminator, bytes_of, evened, high_nibble, is_terminator_at, join_nibbles, low_nibble,
    nibbles_of, padded, padding_len, terminated,
};
use crate::text::utf8_lossy;

verus! {

/// Both halves of a byte are at most 15, and joining them gives the byte
/// back.
pub proof fn lemma_split_join(b: u8)
    ensures
        high_nibble(b) <= 15,
        low_nibble(b) <= 15,
        join_nibbles(high_nibble(b), low_nibble(b)) == b,
{
    assert(((b >> 4) & 0x0F) <= 15) by (bit_vector);
    assert((b & 0x0F) <= 15) by (bit_vector);
    assert(((((b >> 4) & 0x0F) << 4) | ((b & 0x0F) & 0x0F)) == b) by (bit_vector);
}

/// Writing a nibble into a channel keeps the channel's high half, and the
/// low half then reads as the nibble.
pub proof fn lemma_stamp_channel(c: u8, n: u8)
    requires
        n <= 15,
    ensures
        ((c & 0xF0) | n) & 0xF0 == c & 0xF0,
        low_nibble((c & 0xF0) | n) == n,
{
    assert((((c & 0xF0) | n) & 0xF0) == (c & 0xF0)) by (bit_vector)
        requires
            n <= 15,
    ;
    assert((((c & 0xF0) | n) & 0x0F) == n) by (bit_vector)
        requires
            n <= 15,
    ;
}

/// The nibbles written for a payload: two for each byte and for the
/// terminator, then zeros up to a multiple of three; each is at most 15.
pub proof fn lemma_payload_nibbles(payload: Seq<u8>)
    ensures
        payload_nibbles(payload).len() == 2 * (payload.len() + 1) + padding_len(
            2 * (payload.len() + 1),
        ),
        payload_nibbles(payload).len() % 3 == 0,
        payload_nibbles(payload).len() == 3 * required_pixels(payload),
        required_pixels(payload) == (2 * (payload.len() + 1) + 2) / 3,
        forall|j: int|
            0 <= j < 2 * (payload.len() + 1) ==> #[trigger] payload_nibbles(payload)[j]
                == nibbles_of(terminated(payload))[j],
        forall|j: int|
            0 <= j < payload_nibbles(payload).len() ==> #[trigger] payload_nibbles(payload)[j]
                <= 15,
{
    let t = terminated(payload);
    let n = payload_nibbles(payload);
    assert forall|j: int| 0 <= j < n.len() implies #[trigger] n[j] <= 15 by {
        if j < 2 * t.len() {
            lemma_split_join(t[j / 2]);
        }
    }
}

/// The low halves read from pixels into which nibbles were written are
/// those nibbles, as far as they go.
pub proof fn lemma_grid_reads_back(pixels: Seq<Rgba8>, nibbles: Seq<u8>)
    requires
        nibbles.len() % 3 == 0,
        nibbles.len() <= 3 * pixels.len(),
        forall|j: int| 0 <= j < nibbles.len() ==> #[trigger] nibbles[j] <= 15,
    ensures
        grid_nibbles(embedded(pixels, nibbles)).len() == 3 * pixels.len(),
        forall|j: int|
            0 <= j < nibbles.len() ==> #[trigger] grid_nibbles(embedded(pixels, nibbles))[j]
                == nibbles[j],
{
    let e = embedded(pixels, nibbles);
    let g = grid_nibbles(e);
    assert forall|j: int| 0 <= j < nibbles.len() implies #[trigger] g[j] == nibbles[j] by {
        let i = j / 3;
        assert(3 * i + 2 < nibbles.len());
        assert(nibbles[3 * i] <= 15 && nibbles[3 * i + 1] <= 15 && nibbles[3 * i + 2] <= 15);
        lemma_stamp_channel(pixels[i].0, nibbles[3 * i]);
        lemma_stamp_channel(pixels[i].1, nibbles[3 * i + 1]);
        lemma_stamp_channel(pixels[i].2, nibbles[3 * i + 2]);
        assert(e[i] == stamped(pixels[i], nibbles[3 * i], nibbles[3 * i + 1], nibbles[3 * i + 2]));
        assert(g[j] == low_nibble(channel(e[i], j % 3)));
    }
}

/// Nibbles that begin with the halves of some bytes join back into those
/// bytes.
pub proof fn lemma_join_reads_back(bytes: Seq<u8>, nibbles: Seq<u8>)
    requires
        2 * bytes.len() <= nibbles.len(),
        forall|j: int|
            0 <= j < 2 * bytes.len() ==> #[trigger] nibbles[j] == nibbles_of(bytes)[j],
    ensures
        bytes.len() <= bytes_of(nibbles).len(),
        forall|i: int| 0 <= i < bytes.len() ==> #[trigger] bytes_of(nibbles)[i] == bytes[i],
{
    assert forall|i: int| 0 <= i < bytes.len() implies #[trigger] bytes_of(nibbles)[i]
        == bytes[i] by {
        lemma_split_join(bytes[i]);
        assert(nibbles[2 * i] == nibbles_of(bytes)[2 * i]);
        assert(nibbles[2 * i + 1] == nibbles_of(bytes)[2 * i + 1]);
    }
}

/// Where the first zero byte stands at `k`, the bytes before the
/// terminator are the first `k`.
pub proof fn lemma_terminator_cut(bytes: Seq<u8>, k: int)
    requires
        is_terminator_at(bytes, k),
    ensures
        before_terminator(bytes) == bytes.take(k),
{
    let c = choose|c: int| is_terminator_at(bytes, c);
    assert(c == k);
}

/// Extracting from what embedding wrote gives the payload back, as bytes
/// and so as text, whenever the payload holds no zero byte and the pixels
/// suffice for it.
pub proof fn lemma_round_trip(payload: Seq<u8>, pixels: Seq<Rgba8>)
    requires
        forall|i: int| 0 <= i < payload.len() ==> payload[i] != 0,
        required_pixels(payload) <= pixels.len(),
    ensures
        recovered(embedded(pixels, payload_nibbles(payload))) == payload,
        utf8_lossy(recovered(embedded(pixels, payload_nibbles(payload)))) == utf8_lossy(payload),
{
    let t = terminated(payload);
    let n = payload_nibbles(payload);
    let g = grid_nibbles(embedded(pixels, n));
    let v = evened(g);
    let b = bytes_of(v);
    let len = payload.len() as int;
    lemma_payload_nibbles(payload);
    lemma_grid_reads_back(pixels, n);
    assert forall|j: int| 0 <= j < 2 * t.len() implies #[trigger] v[j] == nibbles_of(t)[j] by {
        assert(g[j] == n[j]);
        assert(n[j] == nibbles_of(t)[j]);
    }
    lemma_join_reads_back(t, v);
    assert forall|j: int| 0 <= j < len implies b[j] != 0 by {
        assert(b[j] == t[j]);
    }
    assert(b[len] == t[len]);
    lemma_terminator_cut(b, len);
    assert(b.take(len) =~= payload);
}

/// Embedding keeps the number of pixels, the high half of every colour
/// channel and every alpha value, and leaves each pixel past those that
/// the payload occupies exactly as it was.
pub proof fn lemma_channel_isolation(payload: Seq<u8>, pixels: Seq<Rgba8>)
    ensures
        embedded(pixels, payload_nibbles(payload)).len() == pixels.len(),
        forall|i: int|
            0 <= i < pixels.len() ==> {
                let after = #[trigger] embedded(pixels, payload_nibbles(payload))[i];
                &&& after.0 & 0xF0 == pixels[i].0 & 0xF0
                &&& after.1 & 0xF0 == pixels[i].1 & 0xF0
                &&& after.2 & 0xF0 == pixels[i].2 & 0xF0
                &&& after.3 == pixels[i].3
            },
        forall|i: int|
            required_pixels(payload) <= i < pixels.len() ==> #[trigger] embedded(
                pixels,
                payload_nibbles(payload),
            )[i] == pixels[i],
{
    let n = payload_nibbles(payload);
    let e = embedded(pixels, n);
    lemma_payload_nibbles(payload);
    assert forall|i: int| 0 <= i < pixels.len() implies ({
        let after = #[trigger] e[i];
        &&& after.0 & 0xF0 == pixels[i].0 & 0xF0
        &&& after.1 & 0xF0 == pixels[i].1 & 0xF0
        &&& after.2 & 0xF0 == pixels[i].2 & 0xF0
        &&& after.3 == pixels[i].3
    }) by {
        if 3 * i + 2 < n.len() {
            lemma_stamp_channel(pixels[i].0, n[3 * i]);
            lemma_stamp_channel(pixels[i].1, n[3 * i + 1]);
            lemma_stamp_channel(pixels[i].2, n[3 * i + 2]);
        }
    }
}

/// Padding adds two zero nibbles after a remainder of one, one after a
/// remainder of two and none after a remainder of zero, and the result
/// always divides into triples.
pub proof fn lemma_padding(nibbles: Seq<u8>)
    ensures
        padded(nibbles).len() % 3 == 0,
        nibbles.len() % 3 == 1 ==> padded(nibbles) == nibbles.push(0u8).push(0u8),
        nibbles.len() % 3 == 2 ==> padded(nibbles) == nibbles.push(0u8),
        nibbles.len() % 3 == 0 ==> padded(nibbles) == nibbles,
{
    assert(nibbles.len() % 3 == 1 ==> padded(nibbles) =~= nibbles.push(0u8).push(0u8));
    assert(nibbles.len() % 3 == 2 ==> padded(nibbles) =~= nibbles.push(0u8));
    assert(nibbles.len() % 3 == 0 ==> padded(nibbles) =~= nibbles);
}

} // verus!
