//! The bounded read buffer: bytes are added at its end, and once it is full
//! the oldest bytes make room.

use crate::terminator::{
    has_terminator, lemma_terminator_kept_by_prepend, terminator_at,
};
use vstd::prelude::*;

verus! {

/// The most bytes that are kept for one connection.
pub const BUFFER_LIMIT: usize = 4096;

/// The last `keep` bytes of `bytes`, or all of them where there are fewer.
pub open spec fn tail(bytes: Seq<u8>, keep: nat) -> Seq<u8> {
    if bytes.len() <= keep {
        bytes
    } else {
        bytes.subrange(bytes.len() - keep, bytes.len() as int)
    }
}

/// What the buffer holds after `data` has been added to `buffer`.
pub open spec fn retained(buffer: Seq<u8>, data: Seq<u8>) -> Seq<u8> {
    tail(buffer + data, BUFFER_LIMIT as nat)
}

/// Adds the bytes of `source` at the end of `target`.
pub fn append_bytes(target: &mut Vec<u8>, source: &[u8])
    ensures
        final(target)@ == old(target)@ + source@,
{
    let n: usize = source.len();
    let mut i: usize = 0;
    while i < n
        invariant
            n == source@.len(),
            i <= n,
            target@ == old(target)@ + source@.subrange(0, i as int),
        decreases n - i,
    {
        target.push(source[i]);
        i += 1;
    }
    assert(source@.subrange(0, n as int) == source@);
}

/// Copies the last `keep` bytes of `bytes`, or all of them where there are fewer.
pub fn keep_tail(bytes: &[u8], keep: usize) -> (kept: Vec<u8>)
    ensures
        kept@ == tail(bytes@, keep as nat),
{
    let n: usize = bytes.len();
    let start: usize = if n <= keep { 0 } else { n - keep };
    let mut kept: Vec<u8> = Vec::new();
    let mut i: usize = start;
    while i < n
        invariant
            n == bytes@.len(),
            start <= i <= n,
            kept@ == bytes@.subrange(start as int, i as int),
        decreases n - i,
    {
        kept.push(bytes[i]);
        i += 1;
    }
    assert(bytes@.subrange(0, n as int) == bytes@);
    kept
}

/// A buffer never holds more than [`BUFFER_LIMIT`] bytes after bytes were added.
pub proof fn lemma_retained_is_bounded(buffer: Seq<u8>, data: Seq<u8>)
    ensures
        retained(buffer, data).len() <= BUFFER_LIMIT,
{
}

/// Taking a tail before more bytes arrive does not change the tail taken after.
pub proof fn lemma_tail_absorbs_tail(bytes: Seq<u8>, keep: nat, more: Seq<u8>)
    ensures
        tail(tail(bytes, keep) + more, keep) == tail(bytes + more, keep),
{
    assert(tail(tail(bytes, keep) + more, keep) =~= tail(bytes + more, keep));
}

/// Once a stream without a terminator has been seen, its last three bytes are
/// all that the next bytes can complete a terminator with: any tail of at
/// least that length decides as the whole stream does.
pub proof fn lemma_tail_decides(seen: Seq<u8>, keep: nat, next: Seq<u8>)
    requires
        !has_terminator(seen),
        keep >= 3,
    ensures
        has_terminator(tail(seen, keep) + next) <==> has_terminator(seen + next),
{
    let kept = tail(seen, keep);
    let cut = seen.len() - kept.len();
    assert(seen + next =~= seen.subrange(0, cut) + (kept + next));
    if has_terminator(kept + next) {
        lemma_terminator_kept_by_prepend(seen.subrange(0, cut), kept + next);
    }
    if has_terminator(seen + next) {
        let i = choose|i: int| terminator_at(seen + next, i);
        assert(!terminator_at(seen, i));
        assert(i >= cut);
        assert(terminator_at(kept + next, i - cut));
    }
}

} // verus!
