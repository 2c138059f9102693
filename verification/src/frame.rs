//! Frames on the relay's local socket: a document and a line feed.
use vstd::prelude::*;
use crate::error::RelayError;

verus! {

/// The longest frame, its line feed counted, in bytes.
pub const MAX_LOCAL_FRAME: usize = 131_072;

/// The byte that ends a frame.
pub const LINE_FEED: u8 = 10;

/// A protocol failure with the given message.
pub open spec fn protocol_error<T>(r: Result<T, RelayError>, message: Seq<char>) -> bool {
    r is Err && r->Err_0 is Protocol && r->Err_0->Protocol_0@ == message
}

/// The frame of a document, where it is not too large.
pub open spec fn frames(document: Seq<u8>, r: Result<Vec<u8>, RelayError>) -> bool {
    if document.len() + 1 > MAX_LOCAL_FRAME {
        protocol_error(r, "local frame is too large"@)
    } else {
        r is Ok && r->Ok_0@ == document.push(LINE_FEED)
    }
}

/// The frame of a document.
pub fn framed(document: Vec<u8>) -> (r: Result<Vec<u8>, RelayError>)
    ensures
        frames(document@, r),
{
    let mut bytes = document;
    if bytes.len() >= MAX_LOCAL_FRAME {
        return Err(RelayError::Protocol("local frame is too large".to_owned()));
    }
    bytes.push(LINE_FEED);
    Ok(bytes)
}

/// How many bytes there are up to the first line feed, itself counted, or in all.
pub open spec fn line_end(bytes: Seq<u8>) -> nat
    decreases bytes.len(),
{
    if bytes.len() == 0 {
        0
    } else if bytes[0] == LINE_FEED {
        1
    } else {
        1 + line_end(bytes.drop_first())
    }
}

proof fn lemma_line_end(bytes: Seq<u8>, at: int)
    requires
        0 <= at <= bytes.len(),
        forall|i: int| 0 <= i < at ==> bytes[i] != LINE_FEED,
        at < bytes.len() ==> bytes[at] == LINE_FEED,
    ensures
        line_end(bytes) == if at < bytes.len() {
            at + 1
        } else {
            at
        },
    decreases bytes.len(),
{
    if bytes.len() > 0 && at > 0 {
        assert(forall|i: int| 0 <= i < at - 1 ==> bytes.drop_first()[i] == bytes[i + 1]);
        lemma_line_end(bytes.drop_first(), at - 1);
    }
}

/// What a reader makes of the bytes at hand.
#[derive(Debug, PartialEq, Eq)]
pub enum Fed {
    /// The frame goes on; so many bytes were used.
    More(usize),
    /// The frame is complete; so many bytes were used.
    Complete(usize),
    Failed(RelayError),
}

/// A frame under way.
#[derive(Debug, PartialEq, Eq)]
pub struct FrameReader {
    pub bytes: Vec<u8>,
}

impl FrameReader {
    pub fn new() -> (r: FrameReader)
        ensures
            r.bytes@.len() == 0,
    {
        FrameReader { bytes: Vec::new() }
    }

    /// Takes what belongs to the frame of the bytes at hand. No bytes at all mean that the
    /// connection ended.
    pub fn feed(&mut self, available: &[u8]) -> (r: Fed)
        requires
            old(self).bytes@.len() <= MAX_LOCAL_FRAME,
        ensures
            final(self).bytes@.len() <= MAX_LOCAL_FRAME,
            ({
                let used = line_end(available@);
                let taken = old(self).bytes@ + available@.take(used as int);
                if available@.len() == 0 {
                    r is Failed && protocol_error(
                        Err::<(), RelayError>(r->Failed_0),
                        "local connection ended"@,
                    ) && *final(self) == *old(self)
                } else if taken.len() > MAX_LOCAL_FRAME {
                    r is Failed && protocol_error(
                        Err::<(), RelayError>(r->Failed_0),
                        "local frame is too large"@,
                    ) && *final(self) == *old(self)
                } else {
                    final(self).bytes@ == taken && if taken.last() == LINE_FEED {
                        r == Fed::Complete(used as usize)
                    } else {
                        r == Fed::More(used as usize)
                    }
                }
            }),
            match fed(old(self).bytes@, available@) {
                Reading::Open(bytes) => r is More && final(self).bytes@ == bytes,
                Reading::Complete(bytes) => r is Complete && final(self).bytes@ == bytes,
                Reading::Failed => r is Failed,
            },
    {
        if available.len() == 0 {
            return Fed::Failed(RelayError::Protocol("local connection ended".to_owned()));
        }
        let mut at: usize = 0;
        while at < available.len() && available[at] != LINE_FEED
            invariant
                at <= available@.len(),
                forall|i: int| 0 <= i < at ==> available@[i] != LINE_FEED,
            decreases available@.len() - at,
        {
            at += 1;
        }
        proof {
            lemma_line_end(available@, at as int);
        }
        let used: usize = if at < available.len() {
            at + 1
        } else {
            at
        };
        if used > MAX_LOCAL_FRAME || self.bytes.len() + used > MAX_LOCAL_FRAME {
            return Fed::Failed(RelayError::Protocol("local frame is too large".to_owned()));
        }
        let ghost before = self.bytes@;
        let mut i: usize = 0;
        while i < used
            invariant
                i <= used <= available@.len(),
                self.bytes@ == before + available@.take(i as int),
            decreases used - i,
        {
            self.bytes.push(available[i]);
            i += 1;
            assert(self.bytes@ =~= before + available@.take(i as int));
        }
        assert(self.bytes@.last() == available@[used - 1]);
        if at < available.len() {
            Fed::Complete(used)
        } else {
            Fed::More(used)
        }
    }

    /// The document of a complete frame: everything but its last byte.
    pub fn document(self) -> (r: Vec<u8>)
        requires
            self.bytes@.len() > 0,
        ensures
            r@ == self.bytes@.drop_last(),
    {
        let mut bytes = self.bytes;
        let _end = bytes.pop();
        bytes
    }
}

/// How far a frame has come.
pub enum Reading {
    Open(Seq<u8>),
    Complete(Seq<u8>),
    Failed,
}

/// What a chunk makes of a frame under way.
pub open spec fn fed(bytes: Seq<u8>, chunk: Seq<u8>) -> Reading {
    let taken = bytes + chunk.take(line_end(chunk) as int);
    if chunk.len() == 0 || taken.len() > MAX_LOCAL_FRAME {
        Reading::Failed
    } else if taken.last() == LINE_FEED {
        Reading::Complete(taken)
    } else {
        Reading::Open(taken)
    }
}

/// What a row of chunks makes of a frame under way, until it is complete.
pub open spec fn fed_all(bytes: Seq<u8>, chunks: Seq<Seq<u8>>) -> Reading
    decreases chunks.len(),
{
    if chunks.len() == 0 {
        Reading::Open(bytes)
    } else {
        match fed(bytes, chunks[0]) {
            Reading::Open(more) => fed_all(more, chunks.drop_first()),
            end => end,
        }
    }
}

/// Chunks, one behind the other.
pub open spec fn stream(chunks: Seq<Seq<u8>>) -> Seq<u8>
    decreases chunks.len(),
{
    if chunks.len() == 0 {
        Seq::empty()
    } else {
        chunks[0] + stream(chunks.drop_first())
    }
}

/// What of a row of chunks follows the frame that ends in it.
pub open spec fn unread(bytes: Seq<u8>, chunks: Seq<Seq<u8>>) -> Seq<u8>
    decreases chunks.len(),
{
    if chunks.len() == 0 {
        Seq::empty()
    } else {
        match fed(bytes, chunks[0]) {
            Reading::Open(more) => unread(more, chunks.drop_first()),
            _ => chunks[0].skip(line_end(chunks[0]) as int) + stream(chunks.drop_first()),
        }
    }
}

proof fn lemma_reads(
    bytes: Seq<u8>,
    chunks: Seq<Seq<u8>>,
    document: Seq<u8>,
    rest: Seq<u8>,
)
    requires
        document.len() + 1 <= MAX_LOCAL_FRAME,
        forall|i: int| 0 <= i < document.len() ==> document[i] != LINE_FEED,
        forall|i: int| 0 <= i < chunks.len() ==> (#[trigger] chunks[i]).len() > 0,
        bytes.len() <= document.len(),
        bytes + stream(chunks) == document.push(LINE_FEED) + rest,
    ensures
        fed_all(bytes, chunks) == Reading::Complete(document.push(LINE_FEED)),
        unread(bytes, chunks) == rest,
    decreases chunks.len(),
{
    let whole = document.push(LINE_FEED) + rest;
    if chunks.len() == 0 {
        assert((bytes + stream(chunks)).len() == bytes.len());
        assert(whole.len() > document.len());
    } else {
        let chunk = chunks[0];
        let left = stream(chunks.drop_first());
        assert(bytes + stream(chunks) =~= (bytes + chunk) + left);
        assert forall|i: int| 0 <= i < chunk.len() implies chunk[i] == whole[bytes.len() + i] by {
            assert(((bytes + chunk) + left)[bytes.len() + i] == chunk[i]);
        }
        assert forall|i: int| 0 <= i < bytes.len() implies bytes[i] == document[i] by {
            assert(((bytes + chunk) + left)[i] == bytes[i]);
            assert(whole[i] == document[i]);
        }
        let at = document.len() - bytes.len();
        if chunk.len() > at {
            assert(chunk[at] == whole[document.len() as int]);
            assert forall|i: int| 0 <= i < at implies chunk[i] != LINE_FEED by {
                assert(chunk[i] == document[bytes.len() + i]);
            }
            lemma_line_end(chunk, at);
            assert(bytes + chunk.take(at + 1) =~= document.push(LINE_FEED));
            assert(chunk.skip(at + 1) + left =~= rest) by {
                assert(((bytes + chunk) + left).skip(document.len() as int + 1) =~= chunk.skip(at + 1)
                    + left);
                assert(whole.skip(document.len() as int + 1) =~= rest);
            }
        } else {
            assert forall|i: int| 0 <= i < chunk.len() implies chunk[i] != LINE_FEED by {
                assert(chunk[i] == document[bytes.len() + i]);
            }
            lemma_line_end(chunk, chunk.len() as int);
            assert(chunk.take(chunk.len() as int) =~= chunk);
            assert((bytes + chunk).last() == chunk[chunk.len() - 1]);
            assert forall|i: int| 0 <= i < chunks.drop_first().len() implies (
            #[trigger] chunks.drop_first()[i]).len() > 0 by {
                assert(chunks.drop_first()[i] == chunks[i + 1]);
            }
            lemma_reads(bytes + chunk, chunks.drop_first(), document, rest);
        }
    }
}

/// A document that was framed is read back as it was, however its bytes are cut up on the way and
/// whatever follows them; all that follows its line feed stays unread.
pub proof fn law_frames_read_back(document: Seq<u8>, chunks: Seq<Seq<u8>>, rest: Seq<u8>)
    requires
        document.len() + 1 <= MAX_LOCAL_FRAME,
        forall|i: int| 0 <= i < document.len() ==> document[i] != LINE_FEED,
        forall|i: int| 0 <= i < chunks.len() ==> (#[trigger] chunks[i]).len() > 0,
        stream(chunks) == document.push(LINE_FEED) + rest,
    ensures
        fed_all(Seq::empty(), chunks) == Reading::Complete(document.push(LINE_FEED)),
        document.push(LINE_FEED).drop_last() == document,
        unread(Seq::empty(), chunks) == rest,
{
    assert(Seq::<u8>::empty() + stream(chunks) =~= stream(chunks));
    lemma_reads(Seq::empty(), chunks, document, rest);
    assert(document.push(LINE_FEED).drop_last() =~= document);
}

proof fn lemma_overflows(bytes: Seq<u8>, chunks: Seq<Seq<u8>>)
    requires
        bytes.len() <= MAX_LOCAL_FRAME,
        forall|i: int| 0 <= i < chunks.len() ==> (#[trigger] chunks[i]).len() > 0,
        (bytes + stream(chunks)).len() >= MAX_LOCAL_FRAME,
        forall|i: int| 0 <= i < MAX_LOCAL_FRAME ==> (bytes + stream(chunks))[i] != LINE_FEED,
    ensures
        fed_all(bytes, chunks.push(Seq::empty())) is Failed,
    decreases chunks.len(),
{
    let fed_on = chunks.push(Seq::empty());
    if chunks.len() == 0 {
        assert(fed_on[0].len() == 0);
        assert(fed(bytes, fed_on[0]) is Failed);
    } else {
        let chunk = chunks[0];
        let left = stream(chunks.drop_first());
        let whole = bytes + stream(chunks);
        assert(fed_on[0] == chunk);
        assert(fed_on.drop_first() =~= chunks.drop_first().push(Seq::empty()));
        assert(whole =~= (bytes + chunk) + left);
        assert forall|i: int| 0 <= i < chunk.len() implies chunk[i] == whole[bytes.len() + i] by {
            assert(((bytes + chunk) + left)[bytes.len() + i] == chunk[i]);
        }
        let room = MAX_LOCAL_FRAME - bytes.len();
        if chunk.len() <= room {
            lemma_line_end(chunk, chunk.len() as int);
            assert(chunk.take(chunk.len() as int) =~= chunk);
            assert((bytes + chunk).last() == chunk[chunk.len() - 1]);
            assert forall|i: int| 0 <= i < chunks.drop_first().len() implies (
            #[trigger] chunks.drop_first()[i]).len() > 0 by {
                assert(chunks.drop_first()[i] == chunks[i + 1]);
            }
            lemma_overflows(bytes + chunk, chunks.drop_first());
        } else {
            lemma_long_line(chunk, room);
        }
    }
}

proof fn lemma_long_line(bytes: Seq<u8>, at: int)
    requires
        0 <= at < bytes.len(),
        forall|i: int| 0 <= i < at ==> bytes[i] != LINE_FEED,
    ensures
        at < line_end(bytes) <= bytes.len(),
    decreases bytes.len(),
{
    let rest = bytes.drop_first();
    if at > 0 {
        assert(forall|i: int| 0 <= i < at - 1 ==> rest[i] == bytes[i + 1]);
        lemma_long_line(rest, at - 1);
    } else if bytes[0] != LINE_FEED && rest.len() > 0 {
        lemma_long_line(rest, 0);
    }
}

/// A stream that brings no line feed among the bytes that a frame may have fails, however it is
/// cut up; that it ends is told by a chunk without bytes.
pub proof fn law_endless_frames_fail(chunks: Seq<Seq<u8>>)
    requires
        forall|i: int| 0 <= i < chunks.len() ==> (#[trigger] chunks[i]).len() > 0,
        stream(chunks).len() >= MAX_LOCAL_FRAME,
        forall|i: int| 0 <= i < MAX_LOCAL_FRAME ==> stream(chunks)[i] != LINE_FEED,
    ensures
        fed_all(Seq::empty(), chunks.push(Seq::empty())) is Failed,
{
    assert(Seq::<u8>::empty() + stream(chunks) =~= stream(chunks));
    lemma_overflows(Seq::empty(), chunks);
}

/// A document is framed as it is, with a line feed behind it, as long as both together have no more
/// than 131072 bytes; a longer one is refused.
pub proof fn law_framing(document: Seq<u8>, r: Result<Vec<u8>, RelayError>)
    requires
        frames(document, r),
    ensures
        r is Ok <==> document.len() < 131_072,
        r is Ok ==> r->Ok_0@ == document + seq![10u8],
{
    assert(document.push(LINE_FEED) =~= document + seq![10u8]);
}

/// A line ends right behind its first line feed, and without one it has not ended.
pub proof fn law_ends_of_lines(bytes: Seq<u8>, at: int)
    ensures
        0 <= at < bytes.len() && bytes[at] == 10 && (forall|i: int|
            0 <= i < at ==> #[trigger] bytes[i] != 10) ==> line_end(bytes) == at + 1,
        (forall|i: int| 0 <= i < bytes.len() ==> #[trigger] bytes[i] != 10) ==> line_end(bytes)
            == bytes.len(),
{
    if 0 <= at < bytes.len() && bytes[at] == 10 && (forall|i: int|
        0 <= i < at ==> #[trigger] bytes[i] != 10) {
        lemma_line_end(bytes, at);
    }
    if forall|i: int| 0 <= i < bytes.len() ==> #[trigger] bytes[i] != 10 {
        lemma_line_end(bytes, bytes.len() as int);
    }
}

} // verus!
