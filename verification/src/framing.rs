//! Framing of a streamed reply: a metadata document, eight NUL bytes, then the body.
//!
//! The document ends where the first run of eight consecutive NUL bytes begins;
//! the body begins right after that run. A reply may arrive in any number of
//! chunks, and the run may straddle chunk boundaries.

use vstd::prelude::*;
use vstd::slice::{slice_subrange, slice_to_vec};

verus! {

/// The eight bytes of `s` starting at `k` exist and are all NUL.
pub open spec fn terminator_at(s: Seq<u8>, k: int) -> bool {
    &&& 0 <= k
    &&& k + 8 <= s.len()
    &&& forall|j: int| k <= j < k + 8 ==> s[j] == 0u8
}

/// `s` holds eight consecutive NUL bytes somewhere.
pub open spec fn has_terminator(s: Seq<u8>) -> bool {
    exists|k: int| terminator_at(s, k)
}

/// `k` is where the first run of eight NUL bytes of `s` starts.
pub open spec fn is_first_terminator(s: Seq<u8>, k: int) -> bool {
    &&& terminator_at(s, k)
    &&& forall|m: int| 0 <= m < k ==> !terminator_at(s, m)
}

/// Start of the first run of eight NUL bytes of `s`.
pub open spec fn first_terminator(s: Seq<u8>) -> int
    recommends
        has_terminator(s),
{
    choose|k: int| is_first_terminator(s, k)
}

/// The metadata document and the body bytes of `s`, or `None` while `s` holds
/// no complete terminator.
pub open spec fn split_prelude(s: Seq<u8>) -> Option<(Seq<u8>, Seq<u8>)> {
    if has_terminator(s) {
        let k = first_terminator(s);
        Some((s.subrange(0, k), s.subrange(k + 8, s.len() as int)))
    } else {
        None
    }
}

/// A first terminator is the only first terminator, so `first_terminator` names it.
pub proof fn lemma_first_terminator_is(s: Seq<u8>, k: int)
    requires
        is_first_terminator(s, k),
    ensures
        has_terminator(s),
        first_terminator(s) == k,
        split_prelude(s) == Some((s.subrange(0, k), s.subrange(k + 8, s.len() as int))),
{
    assert(terminator_at(s, k));
    let c = first_terminator(s);
    assert(is_first_terminator(s, c));
    if c < k {
        assert(!terminator_at(s, c));
    }
    if k < c {
        assert(!terminator_at(s, k));
    }
}

/// Among the terminators of `s` there is a first one.
proof fn lemma_least_terminator(s: Seq<u8>, k: int)
    requires
        terminator_at(s, k),
    ensures
        exists|m: int| is_first_terminator(s, m),
    decreases k,
{
    if exists|m: int| 0 <= m < k && terminator_at(s, m) {
        let m = choose|m: int| 0 <= m < k && terminator_at(s, m);
        lemma_least_terminator(s, m);
    } else {
        assert(is_first_terminator(s, k));
    }
}

/// Where `s` holds a terminator, `first_terminator` is the first of them.
pub proof fn lemma_first_terminator_exists(s: Seq<u8>)
    requires
        has_terminator(s),
    ensures
        is_first_terminator(s, first_terminator(s)),
{
    let k = choose|k: int| terminator_at(s, k);
    lemma_least_terminator(s, k);
}

/// Appending bytes never moves a terminator that is already there.
pub proof fn lemma_terminator_survives_append(s: Seq<u8>, t: Seq<u8>, k: int)
    requires
        is_first_terminator(s, k),
    ensures
        is_first_terminator(s + t, k),
{
    let u = s + t;
    assert forall|j: int| k <= j < k + 8 implies u[j] == 0u8 by {
        assert(u[j] == s[j]);
    }
    assert forall|m: int| 0 <= m < k implies !terminator_at(u, m) by {
        if terminator_at(u, m) {
            assert forall|j: int| m <= j < m + 8 implies s[j] == 0u8 by {
                assert(u[j] == s[j]);
            }
            assert(terminator_at(s, m));
        }
    }
}

/// State kept while a byte sequence is scanned from left to right: `run` NUL
/// bytes end the scanned part `s`, and no terminator lies inside it.
spec fn scan_state(s: Seq<u8>, run: int) -> bool {
    &&& 0 <= run < 8
    &&& run <= s.len()
    &&& forall|j: int| s.len() - run <= j < s.len() ==> s[j] == 0u8
    &&& run < s.len() ==> s[s.len() - run - 1] != 0u8
    &&& !has_terminator(s)
}

/// One more byte that is not the eighth NUL of a run keeps the scan going.
proof fn lemma_scan_step(s: Seq<u8>, run: int, b: u8)
    requires
        scan_state(s, run),
        b != 0u8 || run < 7,
    ensures
        scan_state(s.push(b), if b == 0u8 { run + 1 } else { 0 }),
{
    let u = s.push(b);
    assert forall|k: int| !terminator_at(u, k) by {
        if terminator_at(u, k) {
            if k + 8 <= s.len() {
                assert forall|j: int| k <= j < k + 8 implies s[j] == 0u8 by {
                    assert(u[j] == s[j]);
                }
                assert(terminator_at(s, k));
            } else {
                assert(k + 8 == u.len());
                assert(u[u.len() - 1] == 0u8);
                assert(b == 0u8);
                assert(run < s.len());
                let z = s.len() - run - 1;
                assert(k <= z < k + 8);
                assert(u[z] == s[z]);
            }
        }
    }
    if b == 0u8 {
        assert forall|j: int| u.len() - (run + 1) <= j < u.len() implies u[j] == 0u8 by {
            if j < s.len() {
                assert(u[j] == s[j]);
            }
        }
        if run + 1 < u.len() {
            assert(u[u.len() - (run + 1) - 1] == s[s.len() - run - 1]);
        }
    }
}

/// The eighth NUL of a run completes the first terminator.
proof fn lemma_scan_found(s: Seq<u8>, run: int)
    requires
        scan_state(s, run),
        run == 7,
    ensures
        is_first_terminator(s.push(0u8), s.len() - 7),
{
    let u = s.push(0u8);
    let k = s.len() - 7;
    assert forall|j: int| k <= j < k + 8 implies u[j] == 0u8 by {
        if j < s.len() {
            assert(u[j] == s[j]);
        }
    }
    assert forall|m: int| 0 <= m < k implies !terminator_at(u, m) by {
        if terminator_at(u, m) {
            assert forall|j: int| m <= j < m + 8 implies s[j] == 0u8 by {
                assert(u[j] == s[j]);
            }
            assert(terminator_at(s, m));
        }
    }
}

/// Splits a complete buffer at its first terminator.
///
/// Returns the metadata document (the bytes before the first run of eight NUL
/// bytes) and the body bytes (everything after that run). Without such a run
/// there is no document yet and nothing is handed out as body.
pub fn process_buffer(buffer: &[u8]) -> (found: (Option<Vec<u8>>, Vec<u8>))
    ensures
        match split_prelude(buffer@) {
            Some((document, body)) => found.0 matches Some(d) && d@ == document && found.1@
                == body,
            None => found.0 is None && found.1@ == Seq::<u8>::empty(),
        },
{
    let mut run: usize = 0;
    let mut i: usize = 0;
    while i < buffer.len()
        invariant
            i <= buffer@.len(),
            scan_state(buffer@.take(i as int), run as int),
        decreases buffer@.len() - i,
    {
        let b = buffer[i];
        proof {
            assert(buffer@.take(i + 1) == buffer@.take(i as int).push(b));
        }
        if b == 0 && run == 7 {
            proof {
                lemma_scan_found(buffer@.take(i as int), 7);
                lemma_terminator_survives_append(
                    buffer@.take(i + 1),
                    buffer@.skip(i + 1),
                    i - 7,
                );
                assert(buffer@.take(i + 1) + buffer@.skip(i + 1) == buffer@);
                lemma_first_terminator_is(buffer@, i - 7);
            }
            let document = slice_to_vec(slice_subrange(buffer, 0, i - 7));
            let body = slice_to_vec(slice_subrange(buffer, i + 1, buffer.len()));
            return (Some(document), body);
        }
        proof {
            lemma_scan_step(buffer@.take(i as int), run as int, b);
        }
        if b == 0 {
            run = run + 1;
        } else {
            run = 0;
        }
        i = i + 1;
    }
    proof {
        assert(buffer@.take(i as int) == buffer@);
    }
    (None, Vec::new())
}

/// The byte that opens a metadata document: `{`.
pub const DOCUMENT_START: u8 = 0x7b;

/// A first chunk announces a metadata document when it is not empty and
/// starts with `{`.
pub open spec fn has_metadata(first_chunk: Seq<u8>) -> bool {
    first_chunk.len() > 0 && first_chunk[0] == DOCUMENT_START
}

/// Tells from the first chunk of a streamed reply whether the reply starts
/// with a metadata document.
pub fn detect_metadata(first_chunk: &[u8]) -> (announced: bool)
    ensures
        announced == has_metadata(first_chunk@),
{
    first_chunk.len() > 0 && first_chunk[0] == DOCUMENT_START
}

/// The bytes of a metadata document that has not ended yet, collected chunk
/// by chunk.
#[derive(Debug)]
pub struct MetadataBuffer {
    bytes: Vec<u8>,
    run: usize,
}

impl View for MetadataBuffer {
    type V = Seq<u8>;

    closed spec fn view(&self) -> Seq<u8> {
        self.bytes@
    }
}

impl MetadataBuffer {
    /// `run` counts the NUL bytes that end the collected bytes, and no
    /// terminator is complete yet.
    #[verifier::type_invariant]
    spec fn scanning(&self) -> bool {
        scan_state(self.bytes@, self.run as int)
    }

    /// A buffer that has collected nothing.
    pub fn new() -> (buffer: MetadataBuffer)
        ensures
            buffer@ == Seq::<u8>::empty(),
    {
        let buffer = MetadataBuffer { bytes: Vec::new(), run: 0 };
        proof {
            assert(!has_terminator(buffer.bytes@)) by {
                assert forall|k: int| !terminator_at(buffer.bytes@, k) by {}
            }
        }
        buffer
    }

    /// Number of bytes collected so far.
    pub fn len(&self) -> (n: usize)
        ensures
            n == self@.len(),
    {
        self.bytes.len()
    }

    /// Takes in the next chunk. Only the new bytes are scanned; the NUL
    /// bytes that ended the earlier chunks count towards the terminator.
    ///
    /// Once the terminator is complete, the document and the body bytes that
    /// followed it in this chunk are handed out, exactly as if everything
    /// collected so far had been scanned in one piece, and the buffer is
    /// empty again. Until then nothing is handed out and the chunk is kept.
    pub fn collect_metadata(&mut self, chunk: &[u8]) -> (found: (Option<Vec<u8>>, Vec<u8>))
        ensures
            !has_terminator(old(self)@),
            match split_prelude(old(self)@ + chunk@) {
                Some((document, body)) => {
                    &&& found.0 matches Some(d) && d@ == document
                    &&& found.1@ == body
                    &&& final(self)@ == Seq::<u8>::empty()
                },
                None => {
                    &&& found.0 is None
                    &&& found.1@ == Seq::<u8>::empty()
                    &&& final(self)@ == old(self)@ + chunk@
                },
            },
    {
        proof {
            use_type_invariant(&*self);
        }
        let ghost before = self@;
        let mut taken = MetadataBuffer::new();
        core::mem::swap(self, &mut taken);
        let MetadataBuffer { bytes, run } = taken;
        let mut bytes = bytes;
        let mut run = run;
        let mut i: usize = 0;
        proof {
            assert(before + chunk@.take(0) == before);
        }
        while i < chunk.len()
            invariant
                i <= chunk@.len(),
                bytes@ == before,
                before == old(self)@,
                !has_terminator(before),
                self@ == Seq::<u8>::empty(),
                scan_state(before + chunk@.take(i as int), run as int),
            decreases chunk@.len() - i,
        {
            let b = chunk[i];
            let ghost seen = before + chunk@.take(i as int);
            proof {
                assert(before + chunk@.take(i + 1) == seen.push(b));
            }
            if b == 0 && run == 7 {
                proof {
                    lemma_scan_found(seen, 7);
                    lemma_terminator_survives_append(
                        seen.push(0u8),
                        chunk@.skip(i + 1),
                        seen.len() - 7,
                    );
                    assert(seen.push(0u8) + chunk@.skip(i + 1) == before + chunk@);
                    lemma_first_terminator_is(before + chunk@, seen.len() - 7);
                }
                // The document ends seven bytes before this one; those
                // seven NUL bytes lie in the buffer, in this chunk, or both.
                if i >= 7 {
                    bytes.extend_from_slice(slice_subrange(chunk, 0, i - 7));
                } else {
                    let keep = bytes.len() - (7 - i);
                    bytes.truncate(keep);
                }
                let body = slice_to_vec(slice_subrange(chunk, i + 1, chunk.len()));
                proof {
                    assert(bytes@ == (before + chunk@).subrange(0, seen.len() - 7));
                    assert(body@ == (before + chunk@).subrange(
                        seen.len() as int + 1,
                        (before + chunk@).len() as int,
                    ));
                }
                return (Some(bytes), body);
            }
            proof {
                lemma_scan_step(seen, run as int, b);
            }
            if b == 0 {
                run = run + 1;
            } else {
                run = 0;
            }
            i = i + 1;
        }
        proof {
            assert(chunk@.take(chunk@.len() as int) == chunk@);
        }
        bytes.extend_from_slice(chunk);
        proof {
            assert(bytes@ == before + chunk@);
        }
        *self = MetadataBuffer { bytes, run };
        (None, Vec::new())
    }
}

/// All chunks joined in order.
pub open spec fn joined(chunks: Seq<Seq<u8>>) -> Seq<u8>
    decreases chunks.len(),
{
    if chunks.len() == 0 {
        Seq::empty()
    } else {
        joined(chunks.drop_last()) + chunks.last()
    }
}

/// What comes of collecting `chunks` one after the other into an empty
/// buffer: the bytes still held in the buffer, and the document with the
/// body bytes that have followed it so far, once the terminator was seen.
pub open spec fn collected(chunks: Seq<Seq<u8>>) -> (Seq<u8>, Option<(Seq<u8>, Seq<u8>)>)
    decreases chunks.len(),
{
    if chunks.len() == 0 {
        (Seq::empty(), None)
    } else {
        let (held, found) = collected(chunks.drop_last());
        match found {
            Some((document, body)) => (held, Some((document, body + chunks.last()))),
            None => match split_prelude(held + chunks.last()) {
                Some(split) => (Seq::empty(), Some(split)),
                None => (held + chunks.last(), None),
            },
        }
    }
}

/// Chunk boundaries do not matter: collecting a reply chunk by chunk gives
/// the document and the body that scanning the joined bytes in one piece
/// gives, wherever the chunks are cut, also through the terminator.
pub proof fn lemma_chunk_boundaries_do_not_matter(chunks: Seq<Seq<u8>>)
    ensures
        collected(chunks).1 == split_prelude(joined(chunks)),
        collected(chunks).1 is None ==> collected(chunks).0 == joined(chunks),
    decreases chunks.len(),
{
    if chunks.len() > 0 {
        let front = chunks.drop_last();
        lemma_chunk_boundaries_do_not_matter(front);
        let (held, found) = collected(front);
        match found {
            Some((document, body)) => {
                let whole = joined(front);
                let k = first_terminator(whole);
                lemma_first_terminator_exists(whole);
                lemma_terminator_survives_append(whole, chunks.last(), k);
                lemma_first_terminator_is(whole + chunks.last(), k);
                assert((whole + chunks.last()).subrange(0, k) == whole.subrange(0, k));
                assert((whole + chunks.last()).subrange(
                    k + 8,
                    (whole + chunks.last()).len() as int,
                ) == whole.subrange(k + 8, whole.len() as int) + chunks.last());
            },
            None => {},
        }
    }
}

} // verus!
