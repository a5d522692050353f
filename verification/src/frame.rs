//! JPEG frame extraction from an unbounded MJPEG byte stream.
//!
//! The scanner is a two-state machine. While seeking it looks for the two-byte
//! start-of-image marker `FF D8`, which may be split across read chunks, so the
//! trailing byte of everything scanned so far is tracked. While accumulating it
//! appends every byte to the frame buffer and completes the frame as soon as
//! the last two buffered bytes are the end-of-image marker `FF D9`. A buffer
//! that reaches a fixed ceiling without an end marker is discarded and the
//! scanner falls back to seeking, so memory use stays bounded on malformed
//! input.

use vstd::prelude::*;

verus! {

/// First byte of both JPEG markers.
pub const MARKER_PREFIX: u8 = 0xff;

/// Second byte of the start-of-image marker.
pub const SOI_SECOND: u8 = 0xd8;

/// Second byte of the end-of-image marker.
pub const EOI_SECOND: u8 = 0xd9;

/// Abstract state of the scanner: either seeking a start marker (buffer empty,
/// `prev_ff` records whether the byte just scanned was `FF`) or accumulating a
/// frame (`buf` holds the bytes collected so far, starting with `FF D8`).
#[verifier::ext_equal]
pub struct ScanState {
    pub accumulating: bool,
    pub prev_ff: bool,
    pub buf: Seq<u8>,
}

/// The scanner state before any byte has been seen.
pub open spec fn initial_scan() -> ScanState {
    ScanState { accumulating: false, prev_ff: false, buf: Seq::empty() }
}

/// Outcome of scanning one byte.
#[verifier::ext_equal]
pub enum ByteStep {
    Going(ScanState),
    Emit(Seq<u8>),
}

/// One step of the scanner on byte `b`.
pub open spec fn scan_byte(s: ScanState, b: u8, ceiling: nat) -> ByteStep {
    if !s.accumulating {
        if s.prev_ff && b == SOI_SECOND {
            ByteStep::Going(
                ScanState {
                    accumulating: true,
                    prev_ff: false,
                    buf: seq![MARKER_PREFIX, SOI_SECOND],
                },
            )
        } else {
            ByteStep::Going(
                ScanState { accumulating: false, prev_ff: b == MARKER_PREFIX, buf: Seq::empty() },
            )
        }
    } else {
        let nb = s.buf.push(b);
        if nb.len() > 1 && nb[nb.len() - 2] == MARKER_PREFIX && nb[nb.len() - 1] == EOI_SECOND {
            ByteStep::Emit(nb)
        } else if nb.len() >= ceiling {
            ByteStep::Going(
                ScanState { accumulating: false, prev_ff: b == MARKER_PREFIX, buf: Seq::empty() },
            )
        } else {
            ByteStep::Going(ScanState { accumulating: true, prev_ff: false, buf: nb })
        }
    }
}

/// Outcome of scanning a sequence of bytes: either the state after all of them
/// (no frame completed), or the first completed frame together with how many
/// bytes of the input were consumed, end marker included.
#[verifier::ext_equal]
pub enum ScanOutcome {
    Going(ScanState),
    Emitted { frame: Seq<u8>, used: int },
}

/// Scan an input sequence byte by byte, stopping at the first completed frame.
pub open spec fn scan_bytes(s: ScanState, input: Seq<u8>, ceiling: nat) -> ScanOutcome
    decreases input.len(),
{
    if input.len() == 0 {
        ScanOutcome::Going(s)
    } else {
        match scan_byte(s, input[0], ceiling) {
            ByteStep::Emit(f) => ScanOutcome::Emitted { frame: f, used: 1 },
            ByteStep::Going(s2) => match scan_bytes(s2, input.drop_first(), ceiling) {
                ScanOutcome::Going(s3) => ScanOutcome::Going(s3),
                ScanOutcome::Emitted { frame, used } => ScanOutcome::Emitted {
                    frame,
                    used: used + 1,
                },
            },
        }
    }
}

/// Well-formed scanner states: the buffer is empty while seeking, and while
/// accumulating it starts with the start-of-image marker and stays strictly
/// below the ceiling.
pub open spec fn scan_wf(s: ScanState, ceiling: nat) -> bool {
    &&& (!s.accumulating ==> s.buf.len() == 0)
    &&& (s.accumulating ==> 2 <= s.buf.len() && s.buf.len() < ceiling)
    &&& (s.accumulating ==> s.buf[0] == MARKER_PREFIX && s.buf[1] == SOI_SECOND)
    &&& (s.accumulating ==> !s.prev_ff)
}

/// One scanner step preserves well-formedness, and an emitted frame is a
/// complete JPEG image of at most `ceiling` bytes: it starts with `FF D8` and
/// ends with `FF D9`.
pub proof fn lemma_scan_byte_wf(s: ScanState, b: u8, ceiling: nat)
    requires
        4 <= ceiling,
        scan_wf(s, ceiling),
    ensures
        match scan_byte(s, b, ceiling) {
            ByteStep::Going(s2) => scan_wf(s2, ceiling),
            ByteStep::Emit(f) => {
                &&& 4 <= f.len() <= ceiling
                &&& f[0] == MARKER_PREFIX && f[1] == SOI_SECOND
                &&& f[f.len() - 2] == MARKER_PREFIX && f[f.len() - 1] == EOI_SECOND
            },
        },
{
}

/// Scanning any input from a well-formed state ends in a well-formed state or
/// emits a complete JPEG frame of at most `ceiling` bytes. In particular the
/// scanner's buffer never grows beyond the ceiling, whatever the input.
pub proof fn lemma_scan_bytes_wf(s: ScanState, input: Seq<u8>, ceiling: nat)
    requires
        4 <= ceiling,
        scan_wf(s, ceiling),
    ensures
        match scan_bytes(s, input, ceiling) {
            ScanOutcome::Going(s2) => scan_wf(s2, ceiling),
            ScanOutcome::Emitted { frame, used } => {
                &&& 4 <= frame.len() <= ceiling
                &&& frame[0] == MARKER_PREFIX && frame[1] == SOI_SECOND
                &&& frame[frame.len() - 2] == MARKER_PREFIX && frame[frame.len() - 1]
                    == EOI_SECOND
                &&& 1 <= used <= input.len()
            },
        },
    decreases input.len(),
{
    if input.len() > 0 {
        lemma_scan_byte_wf(s, input[0], ceiling);
        match scan_byte(s, input[0], ceiling) {
            ByteStep::Emit(f) => {},
            ByteStep::Going(s2) => {
                lemma_scan_bytes_wf(s2, input.drop_first(), ceiling);
            },
        }
    }
}

/// Appending one byte to the input advances the scan by one step.
pub proof fn lemma_scan_bytes_push(s: ScanState, a: Seq<u8>, b: u8, ceiling: nat)
    ensures
        scan_bytes(s, a.push(b), ceiling) == (match scan_bytes(s, a, ceiling) {
            ScanOutcome::Going(s2) => match scan_byte(s2, b, ceiling) {
                ByteStep::Going(s3) => ScanOutcome::Going(s3),
                ByteStep::Emit(f) => ScanOutcome::Emitted { frame: f, used: a.len() as int + 1 },
            },
            ScanOutcome::Emitted { frame, used } => ScanOutcome::Emitted { frame, used },
        }),
    decreases a.len(),
{
    if a.len() == 0 {
        assert(a.push(b)[0] == b);
        assert(a.push(b).drop_first() =~= Seq::<u8>::empty());
        assert(scan_bytes(s, a, ceiling) == (ScanOutcome::Going(s)));
        match scan_byte(s, b, ceiling) {
            ByteStep::Emit(f) => {},
            ByteStep::Going(s2) => {
                assert(scan_bytes(s2, a.push(b).drop_first(), ceiling) == (ScanOutcome::Going(
                    s2,
                )));
            },
        }
    } else {
        assert(a.push(b)[0] == a[0]);
        assert(a.push(b).drop_first() =~= a.drop_first().push(b));
        match scan_byte(s, a[0], ceiling) {
            ByteStep::Emit(f) => {},
            ByteStep::Going(s2) => {
                lemma_scan_bytes_push(s2, a.drop_first(), b, ceiling);
            },
        }
    }
}

/// Scanning a concatenation equals scanning the first part and continuing with
/// the second: the scan result depends only on the byte stream, never on how
/// it was cut into read chunks.
pub proof fn lemma_scan_bytes_concat(s: ScanState, a: Seq<u8>, b: Seq<u8>, ceiling: nat)
    ensures
        scan_bytes(s, a + b, ceiling) == (match scan_bytes(s, a, ceiling) {
            ScanOutcome::Going(s2) => match scan_bytes(s2, b, ceiling) {
                ScanOutcome::Going(s3) => ScanOutcome::Going(s3),
                ScanOutcome::Emitted { frame, used } => ScanOutcome::Emitted {
                    frame,
                    used: used + a.len(),
                },
            },
            ScanOutcome::Emitted { frame, used } => ScanOutcome::Emitted { frame, used },
        }),
    decreases a.len(),
{
    if a.len() == 0 {
        assert(a + b =~= b);
    } else {
        assert((a + b)[0] == a[0]);
        assert((a + b).drop_first() =~= a.drop_first() + b);
        match scan_byte(s, a[0], ceiling) {
            ByteStep::Emit(f) => {},
            ByteStep::Going(s2) => {
                lemma_scan_bytes_concat(s2, a.drop_first(), b, ceiling);
            },
        }
    }
}

/// A seeking scanner that meets no start-of-image marker stays seeking and only
/// tracks whether the last byte was `FF`.
pub proof fn lemma_scan_seeking(s: ScanState, input: Seq<u8>, ceiling: nat)
    requires
        !s.accumulating,
        s.buf.len() == 0,
        input.len() > 0,
        !(s.prev_ff && input[0] == SOI_SECOND),
        forall|k: int|
            0 <= k < input.len() - 1 ==> !(#[trigger] input[k] == MARKER_PREFIX && input[k
                + 1] == SOI_SECOND),
    ensures
        scan_bytes(s, input, ceiling) == (ScanOutcome::Going(
            ScanState {
                accumulating: false,
                prev_ff: input[input.len() - 1] == MARKER_PREFIX,
                buf: Seq::empty(),
            },
        )),
    decreases input.len(),
{
    let s2 = ScanState {
        accumulating: false,
        prev_ff: input[0] == MARKER_PREFIX,
        buf: Seq::<u8>::empty(),
    };
    assert(s.buf =~= Seq::<u8>::empty());
    assert(scan_byte(s, input[0], ceiling) == ByteStep::Going(s2));
    if input.len() == 1 {
        assert(input.drop_first().len() == 0);
        assert(scan_bytes(s2, input.drop_first(), ceiling) == (ScanOutcome::Going(s2)));
        assert(s2 =~= ScanState {
            accumulating: false,
            prev_ff: input[input.len() - 1] == MARKER_PREFIX,
            buf: Seq::empty(),
        });
    } else {
        let tail = input.drop_first();
        assert(!(s2.prev_ff && tail[0] == SOI_SECOND));
        assert forall|k: int|
            0 <= k < tail.len() - 1 implies !(#[trigger] tail[k] == MARKER_PREFIX && tail[k + 1]
            == SOI_SECOND) by {
            assert(tail[k] == input[k + 1]);
            assert(tail[k + 1] == input[k + 2]);
        }
        lemma_scan_seeking(s2, tail, ceiling);
        assert(tail[tail.len() - 1] == input[input.len() - 1]);
    }
}

/// An accumulating scanner whose remaining input completes the frame exactly at
/// its last byte, with no earlier end marker and no ceiling overflow, emits the
/// whole accumulated sequence.
pub proof fn lemma_scan_accumulating(s: ScanState, input: Seq<u8>, ceiling: nat)
    requires
        s.accumulating,
        2 <= s.buf.len(),
        s.buf.len() + input.len() <= ceiling,
        input.len() >= 1,
        (s.buf + input)[(s.buf + input).len() - 2] == MARKER_PREFIX,
        (s.buf + input)[(s.buf + input).len() - 1] == EOI_SECOND,
        forall|t: int|
            1 <= t < input.len() ==> !(#[trigger] (s.buf + input)[s.buf.len() + t - 2]
                == MARKER_PREFIX && (s.buf + input)[s.buf.len() + t - 1] == EOI_SECOND),
    ensures
        scan_bytes(s, input, ceiling) == (ScanOutcome::Emitted {
            frame: s.buf + input,
            used: input.len() as int,
        }),
    decreases input.len(),
{
    let full = s.buf + input;
    let nb = s.buf.push(input[0]);
    assert(nb =~= full.take(s.buf.len() as int + 1));
    if input.len() == 1 {
        assert(nb =~= full);
        assert(nb[nb.len() - 2] == MARKER_PREFIX && nb[nb.len() - 1] == EOI_SECOND);
        assert(scan_byte(s, input[0], ceiling) == ByteStep::Emit(nb));
    } else {
        assert(nb[nb.len() - 2] == full[s.buf.len() - 1]);
        assert(nb[nb.len() - 1] == full[s.buf.len() as int]);
        assert(!(nb[nb.len() - 2] == MARKER_PREFIX && nb[nb.len() - 1] == EOI_SECOND)) by {
            assert(!(full[s.buf.len() + 1 - 2] == MARKER_PREFIX && full[s.buf.len() + 1 - 1]
                == EOI_SECOND));
        }
        assert(nb.len() < ceiling);
        let s2 = ScanState { accumulating: true, prev_ff: false, buf: nb };
        assert(scan_byte(s, input[0], ceiling) == ByteStep::Going(s2));
        let tail = input.drop_first();
        assert(s2.buf + tail =~= full);
        assert forall|t: int|
            1 <= t < tail.len() implies !(#[trigger] (s2.buf + tail)[s2.buf.len() + t - 2]
            == MARKER_PREFIX && (s2.buf + tail)[s2.buf.len() + t - 1] == EOI_SECOND) by {
            assert((s2.buf + tail) =~= full);
            assert(s2.buf.len() + t == s.buf.len() + (t + 1));
            assert(!(full[s.buf.len() + (t + 1) - 2] == MARKER_PREFIX && full[s.buf.len() + (t + 1)
                - 1] == EOI_SECOND));
        }
        lemma_scan_accumulating(s2, tail, ceiling);
    }
}

/// The central extraction guarantee: if the stream holds a start-of-image
/// marker at position `i` (the first one), and the first end marker that can
/// complete a frame after it ends at position `j`, and the frame fits under the
/// ceiling, then scanning from the initial state emits exactly the bytes from
/// `FF D8` through `FF D9` inclusive, having consumed exactly `j` bytes.
pub proof fn lemma_extracts_exact_frame(input: Seq<u8>, i: int, j: int, ceiling: nat)
    requires
        4 <= ceiling,
        0 <= i,
        i + 4 <= j,
        j <= input.len(),
        input[i] == MARKER_PREFIX,
        input[i + 1] == SOI_SECOND,
        forall|k: int| 0 <= k < i ==> !(#[trigger] input[k] == MARKER_PREFIX && input[k + 1] == SOI_SECOND),
        input[j - 2] == MARKER_PREFIX,
        input[j - 1] == EOI_SECOND,
        forall|m: int|
            i + 4 <= m < j ==> !(#[trigger] input[m - 2] == MARKER_PREFIX && input[m - 1]
                == EOI_SECOND),
        j - i <= ceiling,
    ensures
        scan_bytes(initial_scan(), input, ceiling) == (ScanOutcome::Emitted {
            frame: input.subrange(i, j),
            used: j,
        }),
{
    let pre = input.subrange(0, i + 1);
    let seeded = ScanState {
        accumulating: true,
        prev_ff: false,
        buf: seq![MARKER_PREFIX, SOI_SECOND],
    };
    // Scanning through byte i leaves the scanner seeking with prev_ff set.
    assert(pre.len() > 0);
    assert(pre[0] == input[0]);
    assert(!(initial_scan().prev_ff && pre[0] == SOI_SECOND));
    assert forall|k: int|
        0 <= k < pre.len() - 1 implies !(#[trigger] pre[k] == MARKER_PREFIX && pre[k + 1]
        == SOI_SECOND) by {
        assert(pre[k] == input[k]);
        assert(pre[k + 1] == input[k + 1]);
    }
    lemma_scan_seeking(initial_scan(), pre, ceiling);
    assert(pre[pre.len() - 1] == input[i]);
    let sought = ScanState { accumulating: false, prev_ff: true, buf: Seq::<u8>::empty() };
    assert(scan_bytes(initial_scan(), pre, ceiling) == ScanOutcome::Going(sought));
    // Byte i + 1 is the second marker byte: the scanner seeds the buffer.
    lemma_scan_bytes_push(initial_scan(), pre, input[i + 1], ceiling);
    assert(pre.push(input[i + 1]) =~= input.subrange(0, i + 2));
    assert(scan_byte(sought, input[i + 1], ceiling) == ByteStep::Going(seeded));
    assert(scan_bytes(initial_scan(), input.subrange(0, i + 2), ceiling) == ScanOutcome::Going(
        seeded,
    ));
    // The accumulating phase runs from byte i + 2 up to and including byte j - 1.
    let body = input.subrange(i + 2, j);
    let full = seeded.buf + body;
    assert(full =~= input.subrange(i, j));
    assert(full[full.len() - 2] == input[j - 2]);
    assert(full[full.len() - 1] == input[j - 1]);
    assert forall|t: int|
        1 <= t < body.len() implies !(#[trigger] full[seeded.buf.len() + t - 2] == MARKER_PREFIX
        && full[seeded.buf.len() + t - 1] == EOI_SECOND) by {
        let m = i + t + 2;
        assert(full[2 + t - 2] == input[m - 2]);
        assert(full[2 + t - 1] == input[m - 1]);
        if t == 1 {
            // A frame cannot end right after the seeded marker: byte i + 1 is D8.
            assert(input[m - 2] == SOI_SECOND);
        } else {
            assert(i + 4 <= m < j);
        }
    }
    lemma_scan_accumulating(seeded, body, ceiling);
    assert(scan_bytes(seeded, body, ceiling) == ScanOutcome::Emitted {
        frame: full,
        used: body.len() as int,
    });
    // Stitch the phases together, then absorb whatever follows byte j.
    lemma_scan_bytes_concat(initial_scan(), input.subrange(0, i + 2), body, ceiling);
    assert(input.subrange(0, i + 2) + body =~= input.subrange(0, j));
    assert(scan_bytes(initial_scan(), input.subrange(0, j), ceiling) == ScanOutcome::Emitted {
        frame: full,
        used: j,
    });
    lemma_scan_bytes_concat(initial_scan(), input.subrange(0, j), input.subrange(j, input.len() as int), ceiling);
    assert(input.subrange(0, j) + input.subrange(j, input.len() as int) =~= input);
}

/// A stream without a single `FF` byte — an all-zero stream for instance —
/// never produces a frame and never makes the scanner accumulate anything: the
/// seeking state is left exactly as it was found.
pub proof fn lemma_scan_no_marker_no_frame(s: ScanState, input: Seq<u8>, ceiling: nat)
    requires
        !s.accumulating,
        !s.prev_ff,
        s.buf.len() == 0,
        forall|k: int| 0 <= k < input.len() ==> #[trigger] input[k] != MARKER_PREFIX,
    ensures
        scan_bytes(s, input, ceiling) == (ScanOutcome::Going(s)),
    decreases input.len(),
{
    if input.len() > 0 {
        let s2 = ScanState { accumulating: false, prev_ff: false, buf: Seq::<u8>::empty() };
        assert(scan_byte(s, input[0], ceiling) == ByteStep::Going(s2));
        assert(forall|k: int| 0 <= k < input.drop_first().len() ==> input.drop_first()[k] != MARKER_PREFIX);
        lemma_scan_no_marker_no_frame(s2, input.drop_first(), ceiling);
        assert(s.buf =~= Seq::<u8>::empty());
        assert(s2 =~= s);
    }
}

/// Executable frame extractor: the scanner state machine together with its
/// frame buffer and the configured buffer ceiling.
pub struct FrameExtractor {
    accumulating: bool,
    prev_ff: bool,
    buffer: Vec<u8>,
    ceiling: usize,
}

impl View for FrameExtractor {
    type V = ScanState;

    closed spec fn view(&self) -> ScanState {
        ScanState { accumulating: self.accumulating, prev_ff: self.prev_ff, buf: self.buffer@ }
    }
}

impl FrameExtractor {
    /// The configured buffer ceiling.
    pub closed spec fn ceiling_spec(&self) -> nat {
        self.ceiling as nat
    }

    /// A usable extractor: sensible ceiling, well-formed scanner state.
    pub open spec fn wf(&self) -> bool {
        &&& 4 <= self.ceiling_spec()
        &&& scan_wf(self@, self.ceiling_spec())
    }

    /// A fresh extractor in the seeking state.
    pub fn new(ceiling: usize) -> (e: Self)
        requires
            4 <= ceiling,
        ensures
            e.wf(),
            e@ == initial_scan(),
            e.ceiling_spec() == ceiling as nat,
    {
        let e = FrameExtractor { accumulating: false, prev_ff: false, buffer: Vec::new(), ceiling };
        proof {
            assert(e@.buf =~= initial_scan().buf);
        }
        e
    }

    /// How many bytes are currently buffered; never exceeds the ceiling.
    pub fn buffered_len(&self) -> (n: usize)
        requires
            self.wf(),
        ensures
            n == self@.buf.len(),
            n <= self.ceiling_spec(),
    {
        self.buffer.len()
    }

    /// Feed one read chunk to the scanner. Returns the first frame completed
    /// inside the chunk, if any; bytes after that frame are discarded, as the
    /// next read starts a fresh seek. Without a completed frame the scanner
    /// state advances over the whole chunk.
    pub fn push_chunk(&mut self, chunk: &Vec<u8>) -> (r: Option<Vec<u8>>)
        requires
            old(self).wf(),
        ensures
            final(self).wf(),
            final(self).ceiling_spec() == old(self).ceiling_spec(),
            match scan_bytes(old(self)@, chunk@, old(self).ceiling_spec()) {
                ScanOutcome::Going(s2) => r is None && final(self)@ == s2,
                ScanOutcome::Emitted { frame, used } => {
                    &&& r matches Some(f) && f@ == frame
                    &&& final(self)@ == initial_scan()
                },
            },
    {
        let ghost s0 = self@;
        let ghost c = self.ceiling_spec();
        let mut i: usize = 0;
        proof {
            assert(chunk@.take(0) =~= Seq::<u8>::empty());
        }
        while i < chunk.len()
            invariant
                i <= chunk@.len(),
                self.wf(),
                self.ceiling_spec() == c,
                4 <= c,
                s0 == old(self)@,
                c == old(self).ceiling_spec(),
                scan_bytes(s0, chunk@.take(i as int), c) == (ScanOutcome::Going(self@)),
            decreases chunk@.len() - i,
        {
            let b = chunk[i];
            let ghost prev = self@;
            proof {
                lemma_scan_bytes_push(s0, chunk@.take(i as int), b, c);
                assert(chunk@.take(i as int + 1) =~= chunk@.take(i as int).push(b));
                lemma_scan_byte_wf(prev, b, c);
            }
            if !self.accumulating {
                if self.prev_ff && b == SOI_SECOND {
                    self.accumulating = true;
                    self.prev_ff = false;
                    self.buffer.push(MARKER_PREFIX);
                    self.buffer.push(SOI_SECOND);
                    proof {
                        assert(self@.buf =~= seq![MARKER_PREFIX, SOI_SECOND]);
                        assert(scan_byte(prev, b, c) =~= ByteStep::Going(self@));
                    }
                } else {
                    self.prev_ff = b == MARKER_PREFIX;
                    proof {
                        assert(self@.buf =~= Seq::<u8>::empty());
                        assert(scan_byte(prev, b, c) =~= ByteStep::Going(self@));
                    }
                }
            } else {
                self.buffer.push(b);
                let ghost nb = self.buffer@;
                let n = self.buffer.len();
                if n > 1 && self.buffer[n - 2] == MARKER_PREFIX && self.buffer[n - 1]
                    == EOI_SECOND {
                    let frame = self.buffer.split_off(0);
                    self.accumulating = false;
                    self.prev_ff = false;
                    proof {
                        assert(frame@ =~= nb);
                        assert(self@.buf =~= Seq::<u8>::empty());
                        assert(self@ =~= initial_scan());
                        assert(scan_byte(prev, b, c) =~= ByteStep::Emit(nb));
                        assert(scan_bytes(s0, chunk@.take(i as int + 1), c) == (ScanOutcome::Emitted {
                            frame: nb,
                            used: i as int + 1,
                        }));
                        lemma_scan_bytes_concat(
                            s0,
                            chunk@.take(i as int + 1),
                            chunk@.skip(i as int + 1),
                            c,
                        );
                        assert(chunk@.take(i as int + 1) + chunk@.skip(i as int + 1) =~= chunk@);
                    }
                    return Some(frame);
                } else if n >= self.ceiling {
                    self.buffer.clear();
                    self.accumulating = false;
                    self.prev_ff = b == MARKER_PREFIX;
                    proof {
                        assert(self@.buf =~= Seq::<u8>::empty());
                        assert(self@ =~= ScanState {
                            accumulating: false,
                            prev_ff: b == MARKER_PREFIX,
                            buf: Seq::empty(),
                        });
                        assert(scan_byte(prev, b, c) == ByteStep::Going(self@));
                    }
                } else {
                    proof {
                        assert(self@.buf == nb);
                        assert(scan_byte(prev, b, c) =~= ByteStep::Going(self@));
                    }
                }
            }
            i += 1;
        }
        proof {
            assert(chunk@.take(chunk@.len() as int) =~= chunk@);
        }
        None
    }
}

} // verus!
