//! Framing for OVSDB responses.  Responses arrive as a byte stream and may
//! be split across reads, so the client buffers bytes and scans them
//! incrementally for one complete JSON document: a top-level object or array
//! whose brackets balance, with strings and escapes respected.  Bytes that
//! cannot begin or continue a document are a structural error and fail the
//! read; a merely incomplete buffer asks for more bytes; end of stream before
//! a complete document is the caller's error case.  The scanner checks the
//! bracket structure only: a token-level syntax error inside balanced
//! brackets still frames, and surfaces from the JSON parse of the completed
//! document instead.

use vstd::prelude::*;

verus! {

/// The scanner's state after some bytes: bracket depth, string mode, whether
/// the document has begun, and the two absorbing outcomes.
pub struct ScanState {
    pub depth: int,
    pub in_str: bool,
    pub esc: bool,
    pub begun: bool,
    pub bad: bool,
    pub done: bool,
}

/// The state before any byte.
pub open spec fn spec_scan_init() -> ScanState {
    ScanState { depth: 0, in_str: false, esc: false, begun: false, bad: false, done: false }
}

/// JSON insignificant whitespace.
pub open spec fn spec_ws_byte(b: u8) -> bool {
    b == 0x20 || b == 0x09 || b == 0x0A || b == 0x0D
}

/// One byte of scanning.  `done` and `bad` absorb.
pub open spec fn spec_scan_step(st: ScanState, b: u8) -> ScanState {
    if st.done || st.bad {
        st
    } else if st.in_str {
        if st.esc {
            ScanState { esc: false, ..st }
        } else if b == 0x5C {
            ScanState { esc: true, ..st }
        } else if b == 0x22 {
            ScanState { in_str: false, ..st }
        } else {
            st
        }
    } else if spec_ws_byte(b) {
        st
    } else if b == 0x7B || b == 0x5B {
        ScanState { depth: st.depth + 1, begun: true, ..st }
    } else if b == 0x7D || b == 0x5D {
        if !st.begun || st.depth == 0 {
            ScanState { bad: true, ..st }
        } else if st.depth == 1 {
            ScanState { depth: 0, done: true, ..st }
        } else {
            ScanState { depth: st.depth - 1, ..st }
        }
    } else if !st.begun {
        ScanState { bad: true, ..st }
    } else if b == 0x22 {
        ScanState { in_str: true, ..st }
    } else {
        st
    }
}

/// Scanning a byte sequence from a state.
pub open spec fn spec_scan(st: ScanState, bytes: Seq<u8>) -> ScanState
    decreases bytes.len(),
{
    if bytes.len() == 0 {
        st
    } else {
        spec_scan_step(spec_scan(st, bytes.drop_last()), bytes.last())
    }
}

/// The depth never drops below zero and stays bounded by the bytes read.
pub proof fn lemma_scan_depth_bounds(st: ScanState, bytes: Seq<u8>)
    requires
        0 <= st.depth,
    ensures
        0 <= spec_scan(st, bytes).depth <= st.depth + bytes.len(),
    decreases bytes.len(),
{
    if bytes.len() > 0 {
        lemma_scan_depth_bounds(st, bytes.drop_last());
    }
}

/// Scanning distributes over concatenation: feeding the bytes in two reads
/// leaves the scanner exactly where one read of the whole sequence would.
/// This is why a response truncated across reads is still framed (and then
/// parsed) exactly as if it had arrived whole.
pub proof fn lemma_scan_append(st: ScanState, a: Seq<u8>, b: Seq<u8>)
    ensures
        spec_scan(st, a + b) == spec_scan(spec_scan(st, a), b),
    decreases b.len(),
{
    if b.len() == 0 {
        assert(a + b =~= a);
    } else {
        lemma_scan_append(st, a, b.drop_last());
        assert((a + b).drop_last() =~= a + b.drop_last());
        assert((a + b).last() == b.last());
    }
}

/// The incremental frame reader: the buffered bytes and the scanner state
/// over them.
pub struct FrameReader {
    pub buf: Vec<u8>,
    pub pos: usize,
    pub depth: usize,
    pub in_str: bool,
    pub esc: bool,
    pub begun: bool,
    pub bad: bool,
    pub done: bool,
    pub end: usize,
}

impl FrameReader {
    /// The exec fields mirror the scanner state over the buffered bytes.
    pub open spec fn wf(self) -> bool {
        let st = spec_scan(spec_scan_init(), self.buf@);
        &&& self.pos == self.buf@.len()
        &&& self.depth as int == st.depth
        &&& self.in_str == st.in_str
        &&& self.esc == st.esc
        &&& self.begun == st.begun
        &&& self.bad == st.bad
        &&& self.done == st.done
        &&& (self.done ==> self.end <= self.buf@.len() && spec_scan(
            spec_scan_init(),
            self.buf@.subrange(0, self.end as int),
        ).done)
    }

    /// A fresh reader with nothing buffered.
    pub fn new() -> (r: FrameReader)
        ensures
            r.wf(),
            r.buf@.len() == 0,
            !r.done,
            !r.bad,
    {
        FrameReader {
            buf: Vec::new(),
            pos: 0,
            depth: 0,
            in_str: false,
            esc: false,
            begun: false,
            bad: false,
            done: false,
            end: 0,
        }
    }

    /// Buffer one read's bytes and scan them.  Returns whether a complete
    /// document has now been seen.
    pub fn push(&mut self, chunk: &[u8]) -> (complete: bool)
        requires
            old(self).wf(),
            old(self).buf@.len() + chunk@.len() <= usize::MAX,
        ensures
            final(self).wf(),
            final(self).buf@ == old(self).buf@ + chunk@,
            complete == spec_scan(spec_scan_init(), final(self).buf@).done,
            final(self).done == spec_scan(spec_scan_init(), final(self).buf@).done,
            final(self).bad == spec_scan(spec_scan_init(), final(self).buf@).bad,
    {
        self.buf.extend_from_slice(chunk);
        let n = self.buf.len();
        proof {
            lemma_scan_depth_bounds(spec_scan_init(), self.buf@.subrange(0, self.pos as int));
            assert(self.buf@.subrange(0, old(self).buf@.len() as int) =~= old(self).buf@);
            if self.done {
                assert(self.buf@.subrange(0, self.end as int) =~= old(self).buf@.subrange(
                    0,
                    self.end as int,
                ));
            }
        }
        while self.pos < n
            invariant
                n == self.buf@.len(),
                0 <= self.pos <= n,
                self.depth as int == spec_scan(
                    spec_scan_init(),
                    self.buf@.subrange(0, self.pos as int),
                ).depth,
                self.depth <= self.pos,
                self.in_str == spec_scan(
                    spec_scan_init(),
                    self.buf@.subrange(0, self.pos as int),
                ).in_str,
                self.esc == spec_scan(spec_scan_init(), self.buf@.subrange(0, self.pos as int)).esc,
                self.begun == spec_scan(
                    spec_scan_init(),
                    self.buf@.subrange(0, self.pos as int),
                ).begun,
                self.bad == spec_scan(spec_scan_init(), self.buf@.subrange(0, self.pos as int)).bad,
                self.done == spec_scan(
                    spec_scan_init(),
                    self.buf@.subrange(0, self.pos as int),
                ).done,
                self.done ==> self.end <= self.pos && spec_scan(
                    spec_scan_init(),
                    self.buf@.subrange(0, self.end as int),
                ).done,
                self.buf@ == old(self).buf@ + chunk@,
            decreases n - self.pos,
        {
            let b = self.buf[self.pos];
            let ghost pre = self.buf@.subrange(0, self.pos as int);
            let ghost stpre = spec_scan(spec_scan_init(), pre);
            if !self.done && !self.bad {
                if self.in_str {
                    if self.esc {
                        self.esc = false;
                    } else if b == 0x5C {
                        self.esc = true;
                    } else if b == 0x22 {
                        self.in_str = false;
                    }
                } else if b == 0x20 || b == 0x09 || b == 0x0A || b == 0x0D {
                } else if b == 0x7B || b == 0x5B {
                    self.depth = self.depth + 1;
                    self.begun = true;
                } else if b == 0x7D || b == 0x5D {
                    if !self.begun || self.depth == 0 {
                        self.bad = true;
                    } else if self.depth == 1 {
                        self.depth = 0;
                        self.done = true;
                        self.end = self.pos + 1;
                    } else {
                        self.depth = self.depth - 1;
                    }
                } else if !self.begun {
                    self.bad = true;
                } else if b == 0x22 {
                    self.in_str = true;
                }
            }
            proof {
                assert(self.buf@.subrange(0, self.pos as int + 1).drop_last() =~= pre);
                assert(self.buf@.subrange(0, self.pos as int + 1).last() == b);
                assert(spec_scan(spec_scan_init(), self.buf@.subrange(0, self.pos as int + 1))
                    == spec_scan_step(stpre, b));
            }
            self.pos = self.pos + 1;
        }
        proof {
            assert(self.buf@.subrange(0, n as int) =~= self.buf@);
        }
        self.done
    }

    /// Whether the buffered bytes are structurally impossible as the start of
    /// one JSON document (the read fails at once).
    pub fn is_bad(&self) -> (r: bool)
        requires
            self.wf(),
        ensures
            r == spec_scan(spec_scan_init(), self.buf@).bad,
    {
        self.bad
    }

    /// The bytes of the complete document, once one has been seen.
    pub fn document(&self) -> (r: &[u8])
        requires
            self.wf(),
            self.done,
        ensures
            r@ == self.buf@.subrange(0, self.end as int),
            spec_scan(spec_scan_init(), r@).done,
    {
        vstd::slice::slice_subrange(self.buf.as_slice(), 0, self.end)
    }
}

} // verus!
