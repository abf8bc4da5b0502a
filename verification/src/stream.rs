//! A request arrives in pieces of any size. This module proves that the
//! pieces do not matter: what a connection does depends on the bytes that
//! were received since it was accepted, taken together.

use crate::buffer::{lemma_tail_absorbs_tail, lemma_tail_decides, tail, BUFFER_LIMIT};
use crate::connection::{ConnectionView, Phase};
use crate::machine::{ServerView, RECEIVE_LIMIT};
use crate::protocol::{ActionView, Interest};
use crate::terminator::{has_terminator, lemma_terminator_kept_by_append};
use vstd::prelude::*;

verus! {

/// The bytes of `chunks`, one chunk after the other.
pub open spec fn joined(chunks: Seq<Seq<u8>>) -> Seq<u8>
    decreases chunks.len(),
{
    if chunks.len() == 0 {
        Seq::empty()
    } else {
        joined(chunks.drop_last()) + chunks.last()
    }
}

/// The server after each of `chunks` was reported, in order, as received on
/// the connection `id`.
pub open spec fn after_chunks(server: ServerView, id: i32, chunks: Seq<Seq<u8>>) -> ServerView
    decreases chunks.len(),
{
    if chunks.len() == 0 {
        server
    } else {
        after_chunks(server, id, chunks.drop_last()).on_received(id, chunks.last()).next
    }
}

/// The phase of a connection is decided by the bytes received, however they
/// were split.
///
/// Take a connection that was just accepted and any number of chunks received
/// on it, none of them empty. Afterwards the connection is still open. It is
/// writing if the chunks, joined, hold a terminator, and reading if they do
/// not. So a terminator that is split over several receives is found, and a
/// peer that never sends one is read from for ever. While no terminator has
/// come, the buffer holds the latest bytes of the stream, up to its limit.
pub proof fn lemma_phase_follows_stream(server: ServerView, id: i32, chunks: Seq<Seq<u8>>)
    requires
        server.connections.contains_key(id),
        server.connections[id] == ConnectionView::fresh(),
        forall|k: int| 0 <= k < chunks.len() ==> (#[trigger] chunks[k]).len() > 0,
    ensures
        after_chunks(server, id, chunks).connections.contains_key(id),
        after_chunks(server, id, chunks).connections[id].phase == (if has_terminator(
            joined(chunks),
        ) {
            Phase::Writing
        } else {
            Phase::Reading
        }),
        !has_terminator(joined(chunks)) ==> after_chunks(server, id, chunks).connections[id].buffer
            == tail(joined(chunks), BUFFER_LIMIT as nat),
    decreases chunks.len(),
{
    if chunks.len() == 0 {
        assert(!has_terminator(Seq::<u8>::empty()));
    } else {
        let earlier = chunks.drop_last();
        let last = chunks.last();
        lemma_phase_follows_stream(server, id, earlier);
        if has_terminator(joined(earlier)) {
            lemma_terminator_kept_by_append(joined(earlier), last);
        } else {
            lemma_tail_decides(joined(earlier), BUFFER_LIMIT as nat, last);
            lemma_tail_absorbs_tail(joined(earlier), BUFFER_LIMIT as nat, last);
        }
    }
}

/// What is asked for after each chunk.
///
/// Under the conditions of [`lemma_phase_follows_stream`], when one more
/// chunk is received after `chunks` held no terminator: if the stream now
/// holds one, the connection is re-armed for writable interest, and if not,
/// the next receive is asked for. Nothing else is asked for: no response is
/// sent before the request is complete.
pub proof fn lemma_next_chunk(server: ServerView, id: i32, chunks: Seq<Seq<u8>>, next: Seq<u8>)
    requires
        server.connections.contains_key(id),
        server.connections[id] == ConnectionView::fresh(),
        forall|k: int| 0 <= k < chunks.len() ==> (#[trigger] chunks[k]).len() > 0,
        next.len() > 0,
        !has_terminator(joined(chunks)),
    ensures
        after_chunks(server, id, chunks).on_received(id, next).actions == (if has_terminator(
            joined(chunks) + next,
        ) {
            seq![ActionView::Modify { id, interest: Interest::Writable }]
        } else {
            seq![ActionView::Receive { id, limit: RECEIVE_LIMIT }]
        }),
{
    lemma_phase_follows_stream(server, id, chunks);
    lemma_tail_decides(joined(chunks), BUFFER_LIMIT as nat, next);
}

/// Receiving on one connection leaves every other connection as it was.
pub proof fn lemma_chunks_are_local(
    server: ServerView,
    id: i32,
    chunks: Seq<Seq<u8>>,
    other: i32,
)
    requires
        other != id,
    ensures
        after_chunks(server, id, chunks).connections.contains_key(other)
            == server.connections.contains_key(other),
        server.connections.contains_key(other) ==> after_chunks(
            server,
            id,
            chunks,
        ).connections[other] == server.connections[other],
    decreases chunks.len(),
{
    if chunks.len() > 0 {
        lemma_chunks_are_local(server, id, chunks.drop_last(), other);
    }
}

} // verus!
