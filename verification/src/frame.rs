//! The frame reader: turns the raw byte chunks read from one socket
//! into newline-delimited frames, buffering incomplete trailing data
//! across reads and draining queued frames in arrival order.

use vstd::prelude::*;
use crate::chars::trim;
use crate::chars::trim_chars;

verus! {

/// The newline byte that terminates a frame.
pub open spec fn newline_byte() -> u8 {
    10
}

/// Position of the first newline in `b`, scanning from `i`; `b.len()`
/// if none follows.
pub open spec fn line_end_from(b: Seq<u8>, i: int) -> int
    decreases b.len() - i,
{
    if i < 0 || i >= b.len() {
        b.len() as int
    } else if b[i] == newline_byte() {
        i
    } else {
        line_end_from(b, i + 1)
    }
}

/// Position of the first newline in `b`, or `b.len()` if none.
pub open spec fn line_end(b: Seq<u8>) -> int {
    line_end_from(b, 0)
}

/// Whether the buffer holds a complete frame.
pub open spec fn has_frame(b: Seq<u8>) -> bool {
    line_end(b) < b.len()
}

/// The characters that a complete line of ASCII bytes decodes to.
pub open spec fn ascii_chars(b: Seq<u8>) -> Seq<char> {
    b.map_values(|x: u8| x as char)
}

/// Whether every byte of `b` is ASCII.
pub open spec fn all_ascii(b: Seq<u8>) -> bool {
    forall|i: int| 0 <= i < b.len() ==> b[i] < 128
}

/// The characters a byte sequence decodes to under lossy UTF-8
/// decoding: a function of the bytes alone.  The decoding itself is
/// the standard library's and is named, not restated; of ASCII bytes
/// `decode_line` additionally states the decoding exactly.
pub uninterp spec fn utf8_lossy_of(b: Seq<u8>) -> Seq<char>;

/// The frame that the first complete line of `b` yields: its bytes
/// decoded and trimmed of surrounding whitespace.
pub open spec fn first_frame_chars(b: Seq<u8>) -> Seq<char> {
    trim_chars(utf8_lossy_of(b.take(line_end(b))))
}

/// Decodes one line of raw bytes into text.
///
/// Relies on `String::from_utf8_lossy`: what a byte sequence decodes
/// to depends on the bytes alone; valid UTF-8 passes through and ill
/// formed sequences become replacement characters.  In particular a
/// sequence of ASCII bytes decodes to the characters with the same
/// code points.
#[verifier::external_body]
fn decode_line(bytes: &[u8]) -> (r: Vec<char>)
    ensures
        r@ == utf8_lossy_of(bytes@),
        all_ascii(bytes@) ==> r@ == ascii_chars(bytes@),
{
    String::from_utf8_lossy(bytes).chars().collect()
}

/// Reassembles newline-delimited frames from the byte chunks read off
/// one connection's socket.
pub struct FrameReader {
    buf: Vec<u8>,
}

impl View for FrameReader {
    type V = Seq<u8>;

    closed spec fn view(&self) -> Seq<u8> {
        self.buf@
    }
}

impl FrameReader {
    /// A reader with an empty buffer.
    pub fn new() -> (r: FrameReader)
        ensures
            r@ == Seq::<u8>::empty(),
    {
        FrameReader { buf: Vec::new() }
    }

    /// Appends the bytes of one socket read to the buffer.
    pub fn feed(&mut self, data: &[u8])
        ensures
            final(self)@ == old(self)@ + data@,
    {
        let n: usize = data.len();
        let ghost prev = self.buf@;
        let mut i: usize = 0;
        while i < n
            invariant
                i <= n,
                n == data@.len(),
                self.buf@ == prev + data@.take(i as int),
            decreases n - i,
        {
            self.buf.push(data[i]);
            proof {
                assert(prev + data@.take(i + 1) =~= (prev + data@.take(i as int)).push(
                    data@[i as int],
                ));
            }
            i = i + 1;
        }
        proof {
            assert(prev + data@.take(n as int) =~= prev + data@);
        }
    }

    /// Takes the next complete frame out of the buffer: the bytes up to
    /// the first newline, decoded and trimmed.  Returns nothing when no
    /// complete frame has arrived yet, leaving the buffer as it is.
    pub fn next_frame(&mut self) -> (r: Option<Vec<char>>)
        ensures
            !has_frame(old(self)@) ==> r is None && final(self)@ == old(self)@,
            has_frame(old(self)@) ==> {
                let e = line_end(old(self)@);
                &&& final(self)@ == old(self)@.skip(e + 1)
                &&& r matches Some(f) && f@ == first_frame_chars(old(self)@)
            },
    {
        let n: usize = self.buf.len();
        let mut i: usize = 0;
        while i < n
            invariant
                i <= n,
                n == self.buf@.len(),
                self.buf@ == old(self)@,
                line_end(self.buf@) == line_end_from(self.buf@, i as int),
            decreases n - i,
        {
            if self.buf[i] == 10u8 {
                let ghost prev = self.buf@;
                proof {
                    assert(line_end_from(prev, i as int) == i as int);
                }
                let line = crate::chars::subvec(&self.buf, 0, i);
                let rest = crate::chars::subvec(&self.buf, i + 1, n);
                self.buf = rest;
                proof {
                    assert(prev.subrange(0, i as int) =~= prev.take(i as int));
                    assert(prev.subrange(i + 1, n as int) =~= prev.skip(i as int + 1));
                }
                let decoded = decode_line(line.as_slice());
                let framed = trim(&decoded);
                return Some(framed);
            }
            i = i + 1;
        }
        proof {
            assert(line_end_from(self.buf@, n as int) == n as int);
        }
        None
    }
}

/// Frames depend only on the bytes fed, never on how the socket split
/// them across reads: feeding `b1` and then `b2` leaves a reader in
/// the same state as feeding `b1 + b2` in a single read, so a frame
/// split mid-line across two reads is reassembled exactly.
pub proof fn lemma_split_reads_join(pre: Seq<u8>, b1: Seq<u8>, b2: Seq<u8>)
    ensures
        (pre + b1) + b2 == pre + (b1 + b2),
{
    assert((pre + b1) + b2 =~= pre + (b1 + b2));
}

/// Helper: a newline-free prefix followed by a newline pins down
/// `line_end`.
proof fn lemma_line_end_at(b: Seq<u8>, i: int, n: int)
    requires
        0 <= i <= n <= b.len(),
        forall|k: int| i <= k < n ==> b[k] != newline_byte(),
        n == b.len() || b[n] == newline_byte(),
    ensures
        line_end_from(b, i) == n,
    decreases n - i,
{
    if i < n {
        lemma_line_end_at(b, i + 1, n);
    }
}

/// Two frames arriving in one read are handed out in arrival order:
/// a buffer holding two whole lines yields the first line first, and
/// leaves exactly the second for the next extraction.
pub proof fn lemma_frames_in_order(l1: Seq<u8>, l2: Seq<u8>)
    requires
        forall|k: int| 0 <= k < l1.len() ==> l1[k] != newline_byte(),
        forall|k: int| 0 <= k < l2.len() ==> l2[k] != newline_byte(),
    ensures
        ({
            let b = l1 + seq![newline_byte()] + l2 + seq![newline_byte()];
            &&& line_end(b) == l1.len()
            &&& b.take(line_end(b)) == l1
            &&& b.skip(line_end(b) + 1) == l2 + seq![newline_byte()]
            &&& line_end(l2 + seq![newline_byte()]) == l2.len()
            &&& (l2 + seq![newline_byte()]).take(l2.len() as int) == l2
        }),
{
    let b = l1 + seq![newline_byte()] + l2 + seq![newline_byte()];
    assert(b[l1.len() as int] == newline_byte());
    lemma_line_end_at(b, 0, l1.len() as int);
    assert(b.take(l1.len() as int) =~= l1);
    assert(b.skip(l1.len() as int + 1) =~= l2 + seq![newline_byte()]);
    let c = l2 + seq![newline_byte()];
    assert(c[l2.len() as int] == newline_byte());
    lemma_line_end_at(c, 0, l2.len() as int);
    assert(c.take(l2.len() as int) =~= l2);
}

} // verus!
