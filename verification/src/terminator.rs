//! Detection of the sequence that ends a request: a blank line, written either
//! as two line feeds or as two carriage-return/line-feed pairs.

use vstd::prelude::*;

verus! {

/// The line-feed byte.
pub const LF: u8 = 10;

/// The carriage-return byte.
pub const CR: u8 = 13;

/// Two line feeds stand at positions `i` and `i + 1` of `bytes`.
pub open spec fn bare_terminator_at(bytes: Seq<u8>, i: int) -> bool {
    &&& 0 <= i
    &&& i + 2 <= bytes.len()
    &&& bytes[i] == LF
    &&& bytes[i + 1] == LF
}

/// Two carriage-return/line-feed pairs stand at positions `i` to `i + 3` of `bytes`.
pub open spec fn crlf_terminator_at(bytes: Seq<u8>, i: int) -> bool {
    &&& 0 <= i
    &&& i + 4 <= bytes.len()
    &&& bytes[i] == CR
    &&& bytes[i + 1] == LF
    &&& bytes[i + 2] == CR
    &&& bytes[i + 3] == LF
}

/// A terminator, in either spelling, starts at position `i` of `bytes`.
pub open spec fn terminator_at(bytes: Seq<u8>, i: int) -> bool {
    bare_terminator_at(bytes, i) || crlf_terminator_at(bytes, i)
}

/// `bytes` holds a terminator somewhere.
pub open spec fn has_terminator(bytes: Seq<u8>) -> bool {
    exists|i: int| terminator_at(bytes, i)
}

/// Tells whether `bytes` holds a terminator.
pub fn contains_terminator(bytes: &[u8]) -> (found: bool)
    ensures
        found == has_terminator(bytes@),
{
    let n: usize = bytes.len();
    let mut i: usize = 0;
    while i < n
        invariant
            n == bytes@.len(),
            i <= n,
            forall|j: int| 0 <= j < i ==> !terminator_at(bytes@, j),
        decreases n - i,
    {
        if bytes[i] == LF && n - i >= 2 && bytes[i + 1] == LF {
            assert(terminator_at(bytes@, i as int));
            return true;
        }
        if bytes[i] == CR && n - i >= 4 && bytes[i + 1] == LF && bytes[i + 2] == CR && bytes[i + 3]
            == LF {
            assert(terminator_at(bytes@, i as int));
            return true;
        }
        i += 1;
    }
    false
}

/// A terminator stays where it is when bytes are added behind it.
pub proof fn lemma_terminator_kept_by_append(bytes: Seq<u8>, more: Seq<u8>)
    requires
        has_terminator(bytes),
    ensures
        has_terminator(bytes + more),
{
    let i = choose|i: int| terminator_at(bytes, i);
    assert(terminator_at(bytes + more, i));
}

/// A terminator moves along when bytes are put in front of it.
pub proof fn lemma_terminator_kept_by_prepend(front: Seq<u8>, bytes: Seq<u8>)
    requires
        has_terminator(bytes),
    ensures
        has_terminator(front + bytes),
{
    let i = choose|i: int| terminator_at(bytes, i);
    assert(terminator_at(front + bytes, front.len() + i));
}

/// The sequence `needle` stands in `bytes` from position `i` on.
pub open spec fn occurs_at(needle: Seq<u8>, bytes: Seq<u8>, i: int) -> bool {
    &&& 0 <= i
    &&& i + needle.len() <= bytes.len()
    &&& bytes.subrange(i, i + needle.len()) == needle
}

/// A terminator is an occurrence of one of two byte sequences: line feed,
/// line feed; or carriage return, line feed, carriage return, line feed.
pub proof fn lemma_terminator_spellings(bytes: Seq<u8>, i: int)
    ensures
        bare_terminator_at(bytes, i) <==> occurs_at(seq![LF, LF], bytes, i),
        crlf_terminator_at(bytes, i) <==> occurs_at(seq![CR, LF, CR, LF], bytes, i),
{
    if bare_terminator_at(bytes, i) {
        assert(bytes.subrange(i, i + 2) =~= seq![LF, LF]);
    }
    if occurs_at(seq![LF, LF], bytes, i) {
        assert(bytes.subrange(i, i + 2)[0] == LF);
        assert(bytes.subrange(i, i + 2)[1] == LF);
    }
    if crlf_terminator_at(bytes, i) {
        assert(bytes.subrange(i, i + 4) =~= seq![CR, LF, CR, LF]);
    }
    if occurs_at(seq![CR, LF, CR, LF], bytes, i) {
        assert(bytes.subrange(i, i + 4)[0] == CR);
        assert(bytes.subrange(i, i + 4)[1] == LF);
        assert(bytes.subrange(i, i + 4)[2] == CR);
        assert(bytes.subrange(i, i + 4)[3] == LF);
    }
}

} // verus!
