//! Incremental extraction of validated `0xFF` frames from an untrusted byte stream.
//!
//! The reader tolerates garbage between frames, reassembles frames split across
//! reads, drops candidates that fail to decode, resynchronizes past a stray `0xFF`
//! whose declared length is implausible, and bounds its buffer.

use vstd::prelude::*;

use crate::packet::{decode_packet, is_valid_frame, spec_decode};
use crate::protocol::SOF;

verus! {

/// A valid frame is at most `2 + 255` bytes.
pub const MAX_FRAME: usize = 257;
/// Candidates that declare more than this many bytes are treated as a stray `0xFF`.
pub const MAX_REASONABLE_FRAME: usize = 128;
/// Bound on the reassembly buffer.
pub const MAX_BUFFER: usize = 4096;

/// `s` from its first `0xFF` on; empty when there is none.
pub open spec fn skip_to_sof(s: Seq<u8>) -> Seq<u8>
    decreases s.len(),
{
    if s.len() == 0 {
        s
    } else if s[0] == SOF {
        s
    } else {
        skip_to_sof(s.drop_first())
    }
}

/// Skipping to the first `0xFF` never lengthens a buffer and leaves it starting
/// with `0xFF` (or empty).
pub proof fn lemma_skip_to_sof_len(s: Seq<u8>)
    ensures
        skip_to_sof(s).len() <= s.len(),
        skip_to_sof(s).len() == 0 || skip_to_sof(s)[0] == SOF,
    decreases s.len(),
{
    if s.len() > 0 && s[0] != SOF {
        lemma_skip_to_sof_len(s.drop_first());
    }
}

/// `t` is what is left of `s` after dropping some of its first bytes.
pub open spec fn is_suffix(t: Seq<u8>, s: Seq<u8>) -> bool {
    t.len() <= s.len() && s.skip(s.len() - t.len()) == t
}

/// Skipping to the first `0xFF` drops a prefix.
pub proof fn lemma_skip_to_sof_suffix(s: Seq<u8>)
    ensures
        is_suffix(skip_to_sof(s), s),
    decreases s.len(),
{
    lemma_skip_to_sof_len(s);
    if s.len() > 0 && s[0] != SOF {
        lemma_skip_to_sof_suffix(s.drop_first());
        let t = skip_to_sof(s);
        assert(s.skip(s.len() - t.len()) =~= s.drop_first().skip(s.drop_first().len() - t.len()));
    } else {
        assert(s.skip(0) =~= s);
    }
}

proof fn lemma_suffix_trans(a: Seq<u8>, b: Seq<u8>, c: Seq<u8>)
    requires
        is_suffix(a, b),
        is_suffix(b, c),
    ensures
        is_suffix(a, c),
{
    assert(c.skip(c.len() - a.len()) =~= c.skip(c.len() - b.len()).skip(b.len() - a.len()));
}

/// What one extraction step does to a buffer: the frame it yields (if any) and
/// the buffer it leaves.
pub open spec fn extract(buf: Seq<u8>) -> (Option<Seq<u8>>, Seq<u8>)
    decreases buf.len(),
{
    let b = skip_to_sof(buf);
    proof {
        lemma_skip_to_sof_len(buf);
    }
    if b.len() < 2 {
        (None, b)
    } else if b[1] + 2 > MAX_REASONABLE_FRAME {
        extract(b.drop_first())
    } else if b.len() < b[1] + 2 {
        (None, b)
    } else if is_valid_frame(b.take(b[1] + 2)) {
        (Some(b.take(b[1] + 2)), b.skip(b[1] + 2))
    } else {
        extract(b.drop_first())
    }
}

/// The buffer after appending `bytes`: the oldest bytes beyond the bound are
/// discarded, then everything before the first `0xFF` is skipped.
pub open spec fn after_push(buf: Seq<u8>, bytes: Seq<u8>) -> Seq<u8> {
    let ext = buf + bytes;
    let bounded = if ext.len() > MAX_BUFFER {
        ext.skip(ext.len() - MAX_BUFFER)
    } else {
        ext
    };
    skip_to_sof(bounded)
}

/// Incremental extractor of validated frames.
#[derive(Debug, Default)]
pub struct FrameReader {
    buf: Vec<u8>,
}

impl View for FrameReader {
    type V = Seq<u8>;

    closed spec fn view(&self) -> Seq<u8> {
        self.buf@
    }
}

impl FrameReader {
    /// The buffer never exceeds its bound.
    pub open spec fn wf(&self) -> bool {
        self@.len() <= MAX_BUFFER
    }

    /// An empty reader.
    pub fn new() -> (r: Self)
        ensures
            r@ == Seq::<u8>::empty(),
            r.wf(),
    {
        FrameReader { buf: Vec::new() }
    }

    fn tail_from(v: &Vec<u8>, from: usize) -> (r: Vec<u8>)
        requires
            from <= v@.len(),
        ensures
            r@ == v@.skip(from as int),
    {
        let mut out: Vec<u8> = Vec::new();
        let mut i: usize = from;
        while i < v.len()
            invariant
                from <= i <= v@.len(),
                out@ == v@.subrange(from as int, i as int),
            decreases v@.len() - i,
        {
            out.push(v[i]);
            i = i + 1;
            assert(out@ =~= v@.subrange(from as int, i as int));
        }
        out
    }

    fn skip_to_sof_exec(&mut self)
        ensures
            final(self)@ == skip_to_sof(old(self)@),
    {
        let mut pos: usize = 0;
        assert(self.buf@.skip(0) =~= self.buf@);
        while pos < self.buf.len() && self.buf[pos] != SOF
            invariant
                pos <= self.buf@.len(),
                self.buf@ == old(self)@,
                skip_to_sof(old(self)@) == skip_to_sof(self.buf@.skip(pos as int)),
            decreases self.buf@.len() - pos,
        {
            assert(self.buf@.skip(pos as int).drop_first() =~= self.buf@.skip(pos + 1));
            pos = pos + 1;
        }
        assert(self.buf@.skip(0) =~= self.buf@);
        if pos > 0 {
            self.buf = Self::tail_from(&self.buf, pos);
        }
    }

    /// Append bytes received from the wire.
    pub fn push(&mut self, bytes: &[u8])
        ensures
            final(self)@ == after_push(old(self)@, bytes@),
            final(self).wf(),
    {
        let mut i: usize = 0;
        while i < bytes.len()
            invariant
                i <= bytes@.len(),
                self.buf@ == old(self)@ + bytes@.subrange(0, i as int),
            decreases bytes@.len() - i,
        {
            self.buf.push(bytes[i]);
            i = i + 1;
            assert(self.buf@ =~= old(self)@ + bytes@.subrange(0, i as int));
        }
        assert(bytes@.subrange(0, bytes@.len() as int) =~= bytes@);
        if self.buf.len() > MAX_BUFFER {
            let excess = self.buf.len() - MAX_BUFFER;
            self.buf = Self::tail_from(&self.buf, excess);
        }
        self.skip_to_sof_exec();
        proof {
            let ext = old(self)@ + bytes@;
            let bounded = if ext.len() > MAX_BUFFER {
                ext.skip(ext.len() - MAX_BUFFER)
            } else {
                ext
            };
            lemma_skip_to_sof_len(bounded);
        }
    }

    /// Extract the next validated frame, or `None` when more bytes are needed.
    /// Invalid candidates are discarded and scanning resumes after them.
    pub fn next_frame(&mut self) -> (r: Option<Vec<u8>>)
        ensures
            old(self).wf() ==> final(self).wf(),
            final(self)@.len() <= old(self)@.len(),
            (r matches Some(f) ==> Some(f@) == extract(old(self)@).0),
            (r is None ==> extract(old(self)@).0 is None),
            final(self)@ == extract(old(self)@).1,
            r matches Some(f) ==> f@.len() >= 2 && f@[0] == SOF && f@.len() == f@[1] + 2
                && f@.len() <= MAX_REASONABLE_FRAME && spec_decode(f@) is Ok,
            r matches Some(f) ==> is_suffix(f@ + final(self)@, old(self)@),
            is_suffix(final(self)@, old(self)@),
            forall|i: int|
                #![trigger valid_at(old(self)@, i)]
                valid_at(old(self)@, i) && (forall|j: int| 0 <= j < i && old(self)@[j] == SOF ==> rejected_at(old(self)@, j))
                    ==> (r matches Some(f) && f@ == old(self)@.subrange(i, i + old(self)@[i + 1] + 2)),
            forall|i: int|
                #![trigger incomplete_at(old(self)@, i)]
                incomplete_at(old(self)@, i) && (forall|j: int| 0 <= j < i && old(self)@[j] == SOF ==> rejected_at(old(self)@, j))
                    ==> r is None && final(self)@ == old(self)@.skip(i),
    {
        let ghost before = self@;
        let r = self.take_frame();
        proof {
            assert forall|i: int|
                #![trigger valid_at(before, i)]
                valid_at(before, i) && (forall|j: int| 0 <= j < i && before[j] == SOF ==> rejected_at(before, j))
                implies extract(before).0 == Some(before.subrange(i, i + before[i + 1] + 2)) by {
                lemma_first_valid_frame_is_taken(before, i);
            }
            assert forall|i: int|
                #![trigger incomplete_at(before, i)]
                incomplete_at(before, i) && (forall|j: int| 0 <= j < i && before[j] == SOF ==> rejected_at(before, j))
                implies extract(before).0 is None && extract(before).1 == before.skip(i) by {
                lemma_incomplete_candidate_waits(before, i);
            }
        }
        r
    }

    fn take_frame(&mut self) -> (r: Option<Vec<u8>>)
        ensures
            old(self).wf() ==> final(self).wf(),
            final(self)@.len() <= old(self)@.len(),
            (r matches Some(f) ==> Some(f@) == extract(old(self)@).0),
            (r is None ==> extract(old(self)@).0 is None),
            final(self)@ == extract(old(self)@).1,
            r matches Some(f) ==> f@.len() >= 2 && f@[0] == SOF && f@.len() == f@[1] + 2
                && f@.len() <= MAX_REASONABLE_FRAME && spec_decode(f@) is Ok,
            r matches Some(f) ==> is_suffix(f@ + final(self)@, old(self)@),
            is_suffix(final(self)@, old(self)@),
    {
        loop
            invariant
                self@.len() <= old(self)@.len(),
                extract(old(self)@) == extract(self@),
            decreases self@.len(),
        {
            let ghost before = self@;
            self.skip_to_sof_exec();
            proof {
                lemma_skip_to_sof_len(before);
            }
            if self.buf.len() < 2 {
                proof {
                    lemma_extracted_frames_are_valid(old(self)@);
                }
                return None;
            }
            let total = self.buf[1] as usize + 2;
            if total > MAX_REASONABLE_FRAME {
                self.buf = Self::tail_from(&self.buf, 1);
                assert(self@ =~= skip_to_sof(before).drop_first());
                continue;
            }
            if self.buf.len() < total {
                proof {
                    lemma_extracted_frames_are_valid(old(self)@);
                }
                return None;
            }
            let mut candidate: Vec<u8> = Vec::new();
            let mut i: usize = 0;
            while i < total
                invariant
                    i <= total <= self.buf@.len(),
                    candidate@ == self.buf@.take(i as int),
                decreases total - i,
            {
                candidate.push(self.buf[i]);
                i = i + 1;
                assert(candidate@ =~= self.buf@.take(i as int));
            }
            if decode_packet(candidate.as_slice()).is_ok() {
                self.buf = Self::tail_from(&self.buf, total);
                proof {
                    lemma_extracted_frames_are_valid(old(self)@);
                }
                return Some(candidate);
            }
            self.buf = Self::tail_from(&self.buf, 1);
            assert(self@ =~= skip_to_sof(before).drop_first());
        }
    }
}

/// Every frame the reader yields is a valid frame of at most
/// `MAX_REASONABLE_FRAME` bytes.
pub proof fn lemma_extracted_frames_are_valid(buf: Seq<u8>)
    ensures
        extract(buf).0 matches Some(f) ==> is_valid_frame(f) && f.len() <= MAX_REASONABLE_FRAME
            && f.len() >= 2 && f[0] == SOF && f.len() == f[1] + 2
            && extract(buf).1.len() + f.len() <= buf.len()
            && is_suffix(f + extract(buf).1, buf),
        extract(buf).1.len() <= buf.len(),
        is_suffix(extract(buf).1, buf),
    decreases buf.len(),
{
    let b = skip_to_sof(buf);
    lemma_skip_to_sof_len(buf);
    lemma_skip_to_sof_suffix(buf);
    if b.len() >= 2 && b[1] + 2 > MAX_REASONABLE_FRAME || b.len() >= 2 && b.len() >= b[1] + 2 && !is_valid_frame(b.take(b[1] + 2)) {
        lemma_extracted_frames_are_valid(b.drop_first());
        assert(is_suffix(b.drop_first(), b)) by {
            assert(b.skip(1) =~= b.drop_first());
        }
        lemma_suffix_trans(b.drop_first(), b, buf);
        lemma_suffix_trans(extract(b.drop_first()).1, b.drop_first(), buf);
        if let Some(f) = extract(buf).0 {
            lemma_suffix_trans(f + extract(buf).1, b.drop_first(), buf);
        }
    } else if b.len() < 2 || b.len() < b[1] + 2 {
    } else {
        let n = b[1] + 2;
        assert(b.take(n) + b.skip(n) =~= b);
        assert(is_suffix(b.skip(n), b)) by {
            assert(b.skip(b.len() - b.skip(n).len()) =~= b.skip(n));
        }
        lemma_suffix_trans(b.skip(n), b, buf);
        assert(is_suffix(b.take(n) + b.skip(n), b)) by {
            assert(b.skip(0) =~= b);
        }
        lemma_suffix_trans(b.take(n) + b.skip(n), b, buf);
    }
}

/// A valid frame pushed into an empty reader is handed back unchanged, and
/// nothing is left behind.
pub proof fn lemma_frame_round_trip(f: Seq<u8>)
    requires
        is_valid_frame(f),
        f.len() <= MAX_REASONABLE_FRAME,
    ensures
        extract(after_push(Seq::empty(), f)) == (Some(f), Seq::<u8>::empty()),
{
    let ext = Seq::<u8>::empty() + f;
    assert(ext =~= f);
    assert(spec_decode(f) is Ok);
    assert(f[0] == SOF);
    assert(skip_to_sof(f) == f);
    assert(after_push(Seq::empty(), f) == f);
    assert(f.len() == f[1] + 2);
    assert(f.take(f[1] + 2) =~= f);
    assert(f.skip(f[1] + 2) =~= Seq::<u8>::empty());
    assert(skip_to_sof(f) == f);
}

/// The candidate at SOF position `p` is rejected: its declared length is
/// implausible, or it is complete and does not decode.
pub open spec fn rejected_at(buf: Seq<u8>, p: int) -> bool {
    &&& 0 <= p && p + 1 < buf.len()
    &&& buf[p + 1] + 2 > MAX_REASONABLE_FRAME || (p + buf[p + 1] + 2 <= buf.len() && !is_valid_frame(
        buf.subrange(p, p + buf[p + 1] + 2),
    ))
}

/// A complete, plausible frame that decodes starts at position `p`.
pub open spec fn valid_at(buf: Seq<u8>, p: int) -> bool {
    &&& 0 <= p && p + 1 < buf.len()
    &&& buf[p] == SOF
    &&& buf[p + 1] + 2 <= MAX_REASONABLE_FRAME
    &&& p + buf[p + 1] + 2 <= buf.len()
    &&& is_valid_frame(buf.subrange(p, p + buf[p + 1] + 2))
}

/// Skipping to the first `0xFF` lands on the first `0xFF` at or before any
/// given one.
proof fn lemma_skip_to_sof_at(buf: Seq<u8>, i: int)
    requires
        0 <= i < buf.len(),
        buf[i] == SOF,
    ensures
        ({
            let k = buf.len() - skip_to_sof(buf).len();
            &&& 0 <= k <= i
            &&& skip_to_sof(buf) == buf.skip(k)
            &&& buf[k] == SOF
            &&& forall|j: int| 0 <= j < k ==> buf[j] != SOF
        }),
    decreases buf.len(),
{
    if buf[0] != SOF {
        lemma_skip_to_sof_at(buf.drop_first(), i - 1);
        let d = buf.drop_first();
        let k1 = d.len() - skip_to_sof(d).len();
        assert(buf.skip(k1 + 1) =~= d.skip(k1));
        assert forall|j: int| 0 <= j < k1 + 1 implies buf[j] != SOF by {
            if j > 0 {
                assert(buf[j] == d[j - 1]);
            }
        }
    } else {
        assert(buf.skip(0) =~= buf);
    }
}

/// The frame a reader yields is the one at the first `0xFF` whose candidate
/// is complete, plausible and decodes, provided every earlier `0xFF` starts a
/// rejected candidate: a rejected candidate costs only its own `0xFF`, so a
/// valid frame that begins inside it is still found. The bytes after the
/// frame are what remains.
pub proof fn lemma_first_valid_frame_is_taken(buf: Seq<u8>, i: int)
    requires
        valid_at(buf, i),
        forall|j: int| 0 <= j < i && buf[j] == SOF ==> rejected_at(buf, j),
    ensures
        extract(buf) == (
            Some(buf.subrange(i, i + buf[i + 1] + 2)),
            buf.skip(i + buf[i + 1] + 2),
        ),
    decreases buf.len(),
{
    lemma_skip_to_sof_at(buf, i);
    let b = skip_to_sof(buf);
    let k = buf.len() - b.len();
    assert(b[0] == buf[k]);
    assert(b[1] == buf[k + 1]);
    if k == i {
        let n = buf[i + 1] + 2;
        assert(b.take(n) =~= buf.subrange(i, i + n));
        assert(b.skip(n) =~= buf.skip(i + n));
    } else {
        assert(rejected_at(buf, k));
        let n = buf[k + 1] + 2;
        if n <= MAX_REASONABLE_FRAME {
            assert(b.take(n) =~= buf.subrange(k, k + n));
        }
        let d = b.drop_first();
        assert(d =~= buf.skip(k + 1));
        let i2 = i - k - 1;
        assert(d.subrange(i2, i2 + buf[i + 1] + 2) =~= buf.subrange(i, i + buf[i + 1] + 2));
        assert(d[i2] == buf[i] && d[i2 + 1] == buf[i + 1]);
        assert(valid_at(d, i2));
        assert forall|j: int| 0 <= j < i2 && d[j] == SOF implies rejected_at(d, j) by {
            let jj = j + k + 1;
            assert(d[j] == buf[jj]);
            assert(d[j + 1] == buf[jj + 1]);
            assert(rejected_at(buf, jj));
            if jj + buf[jj + 1] + 2 <= buf.len() {
                assert(d.subrange(j, j + d[j + 1] + 2) =~= buf.subrange(jj, jj + buf[jj + 1] + 2));
            }
        }
        lemma_first_valid_frame_is_taken(d, i2);
        assert(d.skip(i2 + buf[i + 1] + 2) =~= buf.skip(i + buf[i + 1] + 2));
    }
}

/// An `0xFF` at `p` starts a candidate that is still incomplete: no length
/// byte yet, or a plausible length whose bytes have not all arrived.
pub open spec fn incomplete_at(buf: Seq<u8>, p: int) -> bool {
    &&& 0 <= p < buf.len()
    &&& buf[p] == SOF
    &&& p + 1 >= buf.len() || (buf[p + 1] + 2 <= MAX_REASONABLE_FRAME && p + buf[p + 1] + 2 > buf.len())
}

/// When the first `0xFF` that does not start a rejected candidate starts one
/// that is still incomplete (a plausible length whose bytes have not all
/// arrived, or no length byte yet), nothing is yielded and the buffer is kept
/// from that `0xFF` on, to be completed by later reads.
pub proof fn lemma_incomplete_candidate_waits(buf: Seq<u8>, i: int)
    requires
        incomplete_at(buf, i),
        forall|j: int| 0 <= j < i && buf[j] == SOF ==> rejected_at(buf, j),
    ensures
        extract(buf) == (None::<Seq<u8>>, buf.skip(i)),
    decreases buf.len(),
{
    lemma_skip_to_sof_at(buf, i);
    let b = skip_to_sof(buf);
    let k = buf.len() - b.len();
    assert(b[0] == buf[k]);
    if k == i {
        if i + 1 < buf.len() {
            assert(b[1] == buf[i + 1]);
        }
    } else {
        assert(rejected_at(buf, k));
        assert(b[1] == buf[k + 1]);
        let n = buf[k + 1] + 2;
        if n <= MAX_REASONABLE_FRAME {
            assert(b.take(n) =~= buf.subrange(k, k + n));
        }
        let d = b.drop_first();
        assert(d =~= buf.skip(k + 1));
        let i2 = i - k - 1;
        assert(d[i2] == buf[i]);
        if i + 1 < buf.len() {
            assert(d[i2 + 1] == buf[i + 1]);
        }
        assert forall|j: int| 0 <= j < i2 && d[j] == SOF implies rejected_at(d, j) by {
            let jj = j + k + 1;
            assert(d[j] == buf[jj]);
            assert(d[j + 1] == buf[jj + 1]);
            assert(rejected_at(buf, jj));
            if jj + buf[jj + 1] + 2 <= buf.len() {
                assert(d.subrange(j, j + d[j + 1] + 2) =~= buf.subrange(jj, jj + buf[jj + 1] + 2));
            }
        }
        lemma_incomplete_candidate_waits(d, i2);
        assert(d.skip(i2) =~= buf.skip(i));
    }
}

} // verus!
