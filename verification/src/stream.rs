//! The chunked-transfer model.
//!
//! A transfer session reads chunk frames until a declared byte count is
//! exhausted, counting every byte of a consumed chunk (a final chunk may
//! overshoot; the count saturates at zero, exactly as the roles subtract).
//! These functions say which chunks such a loop consumes and what byte
//! string it therefore hashes.

use vstd::prelude::*;

verus! {

/// `a - b`, saturating at zero.
pub open spec fn sat_sub(a: u64, b: int) -> u64 {
    if b >= a { 0 } else { (a - b) as u64 }
}

/// All chunks joined into one byte string, in order.
pub open spec fn concat_chunks(chunks: Seq<Seq<u8>>) -> Seq<u8>
    decreases chunks.len(),
{
    if chunks.len() == 0 {
        Seq::empty()
    } else {
        chunks[0] + concat_chunks(chunks.skip(1))
    }
}

/// The chunks a transfer loop with `remaining` bytes to go consumes from
/// `chunks`.
pub open spec fn stream_take(chunks: Seq<Seq<u8>>, remaining: u64) -> Seq<Seq<u8>>
    decreases chunks.len(),
{
    if remaining == 0 || chunks.len() == 0 {
        Seq::empty()
    } else {
        seq![chunks[0]] + stream_take(chunks.skip(1), sat_sub(remaining, chunks[0].len() as int))
    }
}

/// Whether `chunks` carries the whole declared transfer: the loop reaches
/// zero remaining bytes before the frames run out.
pub open spec fn stream_enough(chunks: Seq<Seq<u8>>, remaining: u64) -> bool
    decreases chunks.len(),
{
    if remaining == 0 {
        true
    } else if chunks.len() == 0 {
        false
    } else {
        stream_enough(chunks.skip(1), sat_sub(remaining, chunks[0].len() as int))
    }
}

/// One step of a transfer loop that has consumed `i` chunks, absorbed `fed`,
/// and has `remaining` bytes to go, against the whole-transfer model that
/// started from `n`.
pub proof fn lemma_stream_step(dv: Seq<Seq<u8>>, i: int, remaining: u64, n: u64, fed: Seq<u8>)
    requires
        0 <= i < dv.len(),
        remaining > 0,
        stream_enough(dv.skip(i), remaining) == stream_enough(dv, n),
        fed + concat_chunks(stream_take(dv.skip(i), remaining)) == concat_chunks(stream_take(dv, n)),
    ensures
        stream_enough(dv.skip(i + 1), sat_sub(remaining, dv[i].len() as int))
            == stream_enough(dv, n),
        (fed + dv[i]) + concat_chunks(stream_take(dv.skip(i + 1), sat_sub(remaining, dv[i].len() as int)))
            == concat_chunks(stream_take(dv, n)),
{
    let rest = dv.skip(i);
    let rem2 = sat_sub(remaining, dv[i].len() as int);
    assert(rest[0] == dv[i]);
    assert(rest.skip(1) =~= dv.skip(i + 1));
    let taken = stream_take(rest.skip(1), rem2);
    assert(stream_take(rest, remaining) == seq![dv[i]] + taken);
    assert((seq![dv[i]] + taken)[0] == dv[i]);
    assert((seq![dv[i]] + taken).skip(1) =~= taken);
    assert(concat_chunks(seq![dv[i]] + taken) == dv[i] + concat_chunks(taken));
    assert(fed + (dv[i] + concat_chunks(taken)) =~= (fed + dv[i]) + concat_chunks(taken));
}

/// When every byte declared is exactly the bytes of the chunks, the loop
/// consumes all the chunks: the hash of the transfer is the hash of their
/// concatenation.
pub proof fn lemma_stream_take_all(chunks: Seq<Seq<u8>>, n: u64)
    requires
        concat_chunks(chunks).len() == n,
    ensures
        stream_enough(chunks, n),
        concat_chunks(stream_take(chunks, n)) == concat_chunks(chunks),
    decreases chunks.len(),
{
    if n == 0 {
        assert(concat_chunks(chunks) =~= Seq::<u8>::empty());
        assert(concat_chunks(stream_take(chunks, n)) =~= Seq::<u8>::empty());
    } else {
        assert(chunks.len() > 0);
        let head = chunks[0];
        let rest = chunks.skip(1);
        assert(concat_chunks(chunks) == head + concat_chunks(rest));
        let rem2 = sat_sub(n, head.len() as int);
        assert(concat_chunks(rest).len() == rem2);
        lemma_stream_take_all(rest, rem2);
        let taken = stream_take(rest, rem2);
        assert(stream_take(chunks, n) == seq![head] + taken);
        assert((seq![head] + taken)[0] == head);
        assert((seq![head] + taken).skip(1) =~= taken);
        assert(concat_chunks(seq![head] + taken) == head + concat_chunks(taken));
    }
}

} // verus!
