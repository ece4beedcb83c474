//! Framing one paste off an unstructured byte stream.
//!
//! A connection carries exactly one paste. The listener reads until the stream
//! yields nothing, until the byte read last is a line feed, or until the size
//! cap is reached; what was read up to then is the paste, line feed included.

use vstd::prelude::*;
use vstd::slice::slice_subrange;

verus! {

/// The largest number of bytes one paste may hold: 64 MiB.
pub const MAX_SIZE: usize = 67_108_864;

/// The byte that ends a paste when it is the last one of a read.
pub const LINE_FEED: u8 = 10;

/// The part of `chunk` that is kept when `stored` has been kept already: all of
/// it where it fits under the cap, else its longest prefix that does.
pub open spec fn accepted(stored: Seq<u8>, chunk: Seq<u8>) -> Seq<u8> {
    let room = MAX_SIZE as int - stored.len();
    if chunk.len() <= room {
        chunk
    } else if room >= 0 {
        chunk.take(room)
    } else {
        Seq::empty()
    }
}

/// Whether the read that yielded `chunk` is the last one: nothing of it was kept
/// (the stream is closed, or the cap is reached), or the last byte kept is a
/// line feed.
pub open spec fn ends_paste(stored: Seq<u8>, chunk: Seq<u8>) -> bool {
    let kept = accepted(stored, chunk);
    kept.len() == 0 || kept.last() == LINE_FEED
}

/// The paste that results when `stored` has been kept and the stream then yields
/// `reads`, one element per read, and closes.
pub open spec fn paste_of(stored: Seq<u8>, reads: Seq<Seq<u8>>) -> Seq<u8>
    decreases reads.len(),
{
    if reads.len() == 0 {
        stored
    } else if ends_paste(stored, reads[0]) {
        stored + accepted(stored, reads[0])
    } else {
        paste_of(stored + accepted(stored, reads[0]), reads.drop_first())
    }
}

/// The views of the elements of `reads`, in order.
pub open spec fn reads_view(reads: Seq<Vec<u8>>) -> Seq<Seq<u8>> {
    Seq::new(reads.len(), |i: int| reads[i]@)
}

/// What the program does next for a connection.
#[derive(Clone, Copy, Debug, PartialEq, Eq, Structural)]
pub enum Action {
    /// Read once more from the connection, taking at most `at_most` bytes.
    Read { at_most: usize },
    /// Stop reading and store the paste.
    Store,
}

/// The bytes of one connection's paste while they are being read.
pub struct Ingest {
    data: Vec<u8>,
    complete: bool,
}

impl Ingest {
    /// The bytes kept so far.
    pub closed spec fn view(&self) -> Seq<u8> {
        self.data@
    }

    /// Whether a read has ended the paste.
    pub closed spec fn is_complete(&self) -> bool {
        self.complete
    }

    /// No more than `MAX_SIZE` bytes are kept.
    pub open spec fn wf(&self) -> bool {
        self@.len() <= MAX_SIZE
    }

    /// A connection from which nothing has been read.
    pub fn new() -> (fresh: Ingest)
        ensures
            fresh@ == Seq::<u8>::empty(),
            !fresh.is_complete(),
            fresh.wf(),
    {
        Ingest { data: Vec::new(), complete: false }
    }

    /// Whether a read has ended the paste.
    pub fn complete(&self) -> (done: bool)
        ensures
            done == self.is_complete(),
    {
        self.complete
    }

    /// The number of bytes kept so far.
    pub fn len(&self) -> (n: usize)
        ensures
            n == self@.len(),
    {
        self.data.len()
    }

    /// What to do next: store the paste once it is complete, else read at most
    /// as many bytes as still fit under the cap.
    pub fn next_action(&self) -> (action: Action)
        requires
            self.wf(),
        ensures
            self.is_complete() ==> action == Action::Store,
            !self.is_complete() ==> action == (Action::Read {
                at_most: (MAX_SIZE - self@.len()) as usize,
            }),
    {
        if self.complete {
            Action::Store
        } else {
            Action::Read { at_most: MAX_SIZE - self.data.len() }
        }
    }

    /// Takes in what one read yielded; an empty `chunk` stands for a closed
    /// stream. Keeps the part of `chunk` that fits under the cap and tells
    /// whether the paste is complete. A complete paste takes in nothing more.
    pub fn push(&mut self, chunk: &[u8]) -> (done: bool)
        requires
            old(self).wf(),
        ensures
            final(self).wf(),
            done == final(self).is_complete(),
            old(self).is_complete() ==> final(self)@ == old(self)@ && done,
            !old(self).is_complete() ==> final(self)@ == old(self)@ + accepted(old(self)@, chunk@)
                && done == ends_paste(old(self)@, chunk@),
    {
        if self.complete {
            return true;
        }
        let room: usize = MAX_SIZE - self.data.len();
        let count: usize = if chunk.len() <= room {
            chunk.len()
        } else {
            room
        };
        let kept = slice_subrange(chunk, 0, count);
        assert(kept@ =~= accepted(self.data@, chunk@));
        self.data.extend_from_slice(kept);
        assert(self.data@ =~= old(self).data@ + kept@);
        if count == 0 || self.data[self.data.len() - 1] == LINE_FEED {
            self.complete = true;
        }
        self.complete
    }

    /// The paste, to be stored as it is.
    pub fn into_bytes(self) -> (bytes: Vec<u8>)
        ensures
            bytes@ == self@,
    {
        self.data
    }
}

/// Frames the paste of a stream that yields `reads`, one element per read, and
/// then closes.
pub fn frame(reads: &Vec<Vec<u8>>) -> (paste: Vec<u8>)
    ensures
        paste@ == paste_of(Seq::empty(), reads_view(reads@)),
        paste@.len() <= MAX_SIZE,
{
    let mut ingest = Ingest::new();
    let ghost all = reads_view(reads@);
    let mut i: usize = 0;
    assert(all.skip(0) =~= all);
    while i < reads.len() && !ingest.complete()
        invariant
            i <= reads.len(),
            all == reads_view(reads@),
            ingest.wf(),
            ingest.is_complete() ==> paste_of(Seq::empty(), all) == ingest@,
            !ingest.is_complete() ==> paste_of(Seq::empty(), all) == paste_of(
                ingest@,
                all.skip(i as int),
            ),
        decreases reads.len() - i,
    {
        proof {
            assert(all.skip(i as int)[0] == reads@[i as int]@);
            assert(all.skip(i as int).drop_first() =~= all.skip(i + 1));
        }
        ingest.push(reads[i].as_slice());
        i = i + 1;
    }
    ingest.into_bytes()
}

/// Whether a read yielded something and did not end on a line feed.
pub open spec fn open_ended(chunk: Seq<u8>) -> bool {
    chunk.len() > 0 && chunk.last() != LINE_FEED
}

/// A paste never holds more than `MAX_SIZE` bytes, whatever the stream yields.
pub proof fn lemma_paste_within_cap(stored: Seq<u8>, reads: Seq<Seq<u8>>)
    requires
        stored.len() <= MAX_SIZE,
    ensures
        paste_of(stored, reads).len() <= MAX_SIZE,
    decreases reads.len(),
{
    if reads.len() > 0 && !ends_paste(stored, reads[0]) {
        lemma_paste_within_cap(stored + accepted(stored, reads[0]), reads.drop_first());
    }
}

/// A stream whose reads all yield something, none of them ending on a line
/// feed, and which closes within the cap, is kept whole: the paste is `stored`
/// followed by everything that was read.
pub proof fn lemma_paste_of_open_ended_reads(stored: Seq<u8>, reads: Seq<Seq<u8>>)
    requires
        forall|j: int| 0 <= j < reads.len() ==> open_ended(#[trigger] reads[j]),
        stored.len() + reads.flatten().len() <= MAX_SIZE,
    ensures
        paste_of(stored, reads) == stored + reads.flatten(),
    decreases reads.len(),
{
    if reads.len() == 0 {
        assert(stored + reads.flatten() =~= stored);
    } else {
        let rest = reads.drop_first();
        assert(open_ended(reads[0]));
        assert forall|j: int| 0 <= j < rest.len() implies open_ended(#[trigger] rest[j]) by {
            assert(rest[j] == reads[j + 1]);
        }
        lemma_paste_of_open_ended_reads(stored + reads[0], rest);
        assert(stored + reads[0] + rest.flatten() =~= stored + reads.flatten());
    }
}

/// Once the cap is reached nothing more is kept, whatever the stream yields.
pub proof fn lemma_full_paste_stays(stored: Seq<u8>, reads: Seq<Seq<u8>>)
    requires
        stored.len() == MAX_SIZE,
    ensures
        paste_of(stored, reads) == stored,
{
    if reads.len() > 0 {
        assert(accepted(stored, reads[0]) =~= Seq::<u8>::empty());
        assert(stored + accepted(stored, reads[0]) =~= stored);
    }
}

/// Truncation at the cap. Of a stream whose reads all yield something, none of
/// them ending on a line feed, the paste is `stored` followed by everything
/// that was read, cut off after `MAX_SIZE` bytes where it is longer. No read is
/// refused for its size: what does not fit is left out.
pub proof fn lemma_paste_is_cut_at_cap(stored: Seq<u8>, reads: Seq<Seq<u8>>)
    requires
        stored.len() <= MAX_SIZE,
        forall|j: int| 0 <= j < reads.len() ==> open_ended(#[trigger] reads[j]),
    ensures
        stored.len() + reads.flatten().len() <= MAX_SIZE ==> paste_of(stored, reads) == stored
            + reads.flatten(),
        stored.len() + reads.flatten().len() > MAX_SIZE ==> paste_of(stored, reads) == (stored
            + reads.flatten()).take(MAX_SIZE as int),
    decreases reads.len(),
{
    if stored.len() + reads.flatten().len() <= MAX_SIZE {
        lemma_paste_of_open_ended_reads(stored, reads);
    } else {
        let rest = reads.drop_first();
        let room = MAX_SIZE as int - stored.len();
        assert(open_ended(reads[0]));
        assert forall|j: int| 0 <= j < rest.len() implies open_ended(#[trigger] rest[j]) by {
            assert(rest[j] == reads[j + 1]);
        }
        if reads[0].len() <= room {
            lemma_paste_is_cut_at_cap(stored + reads[0], rest);
            assert(stored + reads[0] + rest.flatten() =~= stored + reads.flatten());
        } else {
            let next = stored + reads[0].take(room);
            assert(next =~= (stored + reads.flatten()).take(MAX_SIZE as int));
            lemma_full_paste_stays(next, rest);
        }
    }
}

/// A read that ends on a line feed ends the paste: where the reads before
/// `reads[k]` all yield something without ending on a line feed, `reads[k]` ends
/// on one, and all of them fit under the cap, the paste is `stored` followed by
/// the reads up to and including `reads[k]`, line feed included, whatever the
/// stream would yield after it.
pub proof fn lemma_paste_ends_at_line_feed(stored: Seq<u8>, reads: Seq<Seq<u8>>, k: int)
    requires
        0 <= k < reads.len(),
        forall|j: int| 0 <= j < k ==> open_ended(#[trigger] reads[j]),
        reads[k].len() > 0,
        reads[k].last() == LINE_FEED,
        stored.len() + reads.take(k + 1).flatten().len() <= MAX_SIZE,
    ensures
        paste_of(stored, reads) == stored + reads.take(k + 1).flatten(),
    decreases k,
{
    let head = reads.take(k + 1);
    assert(head[0] == reads[0]);
    assert(head.drop_first() =~= reads.drop_first().take(k));
    if k == 0 {
        assert(head.drop_first().flatten() =~= Seq::<u8>::empty());
        assert(stored + reads[0] =~= stored + head.flatten());
    } else {
        let rest = reads.drop_first();
        assert(open_ended(reads[0]));
        assert forall|j: int| 0 <= j < k - 1 implies open_ended(#[trigger] rest[j]) by {
            assert(rest[j] == reads[j + 1]);
        }
        assert(rest[k - 1] == reads[k]);
        lemma_paste_ends_at_line_feed(stored + reads[0], rest, k - 1);
        assert(stored + reads[0] + rest.take(k).flatten() =~= stored + head.flatten());
    }
}

/// A client that sends the bytes `sent`, which do not end on a line feed and
/// fit under the cap, and then closes, has exactly `sent` stored: whatever the
/// pieces in which the bytes arrive, as long as no piece ends on a line feed.
pub proof fn lemma_sent_then_closed_is_stored(sent: Seq<u8>, reads: Seq<Seq<u8>>)
    requires
        reads.flatten() == sent,
        sent.len() <= MAX_SIZE,
        forall|j: int| 0 <= j < reads.len() ==> open_ended(#[trigger] reads[j]),
    ensures
        paste_of(Seq::empty(), reads) == sent,
        paste_of(Seq::empty(), reads.push(Seq::empty())) == sent,
{
    lemma_paste_of_open_ended_reads(Seq::empty(), reads);
    assert(Seq::<u8>::empty() + reads.flatten() =~= sent);
    lemma_closing_read_changes_nothing(Seq::empty(), reads);
}

/// An empty read after `reads` stands for the closed stream and leaves the
/// paste as it is.
pub proof fn lemma_closing_read_changes_nothing(stored: Seq<u8>, reads: Seq<Seq<u8>>)
    ensures
        paste_of(stored, reads.push(Seq::empty())) == paste_of(stored, reads),
    decreases reads.len(),
{
    let closed = reads.push(Seq::empty());
    if reads.len() == 0 {
        assert(closed[0] =~= Seq::<u8>::empty());
        assert(accepted(stored, closed[0]) =~= Seq::<u8>::empty());
        assert(stored + accepted(stored, closed[0]) =~= stored);
    } else {
        assert(closed[0] == reads[0]);
        assert(closed.drop_first() =~= reads.drop_first().push(Seq::empty()));
        lemma_closing_read_changes_nothing(
            stored + accepted(stored, reads[0]),
            reads.drop_first(),
        );
    }
}

/// A connection that closes before it has sent anything gives the empty paste.
pub proof fn lemma_nothing_sent_is_empty_paste()
    ensures
        paste_of(Seq::empty(), Seq::empty()) == Seq::<u8>::empty(),
        paste_of(Seq::empty(), seq![Seq::<u8>::empty()]) == Seq::<u8>::empty(),
{
    lemma_closing_read_changes_nothing(Seq::empty(), Seq::empty());
    assert(Seq::<Seq<u8>>::empty().push(Seq::empty()) =~= seq![Seq::<u8>::empty()]);
}

} // verus!
