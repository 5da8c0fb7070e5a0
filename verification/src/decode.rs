//! The incremental streaming-response decoder.
//!
//! A streaming reply arrives as raw bytes. The body is a sequence of lines
//! separated by `\n`; each line, trimmed of surrounding ASCII whitespace, is
//! expected to carry the framing prefix `data: ` followed by a JSON object
//! whose `choices[0].delta.content` field is one text increment. Lines that
//! do not carry the prefix, or whose payload fails to parse, are skipped
//! without aborting the rest of the stream. The prefix check is anchored at
//! the start of the line, so the literal `data: ` inside content is never
//! stripped.

use vstd::prelude::*;
use vstd::slice::{slice_subrange, slice_to_vec};
use vstd::string::StringExecFns;

verus! {

/// What std's `String::from_utf8_lossy` returns for the given bytes: a
/// function of the bytes alone (valid UTF-8 is kept, invalid sequences are
/// replaced).
pub uninterp spec fn lossy_decode(bytes: Seq<u8>) -> Seq<char>;

/// What the JSON frame decoder returns for the given frame text: the string
/// at `choices[0].delta.content` if the text parses as JSON and has that
/// shape, and nothing otherwise. A function of the frame text alone.
pub uninterp spec fn frame_delta(frame: Seq<char>) -> Option<Seq<char>>;

/// ASCII whitespace, as trimmed from the ends of each line.
pub open spec fn is_ws(b: u8) -> bool {
    b == 32 || b == 9 || b == 10 || b == 13
}

pub open spec fn trim_start_spec(s: Seq<u8>) -> Seq<u8>
    decreases s.len(),
{
    if s.len() > 0 && is_ws(s[0]) {
        trim_start_spec(s.drop_first())
    } else {
        s
    }
}

pub open spec fn trim_end_spec(s: Seq<u8>) -> Seq<u8>
    decreases s.len(),
{
    if s.len() > 0 && is_ws(s.last()) {
        trim_end_spec(s.drop_last())
    } else {
        s
    }
}

/// A line with ASCII whitespace removed from both ends.
pub open spec fn trim_spec(s: Seq<u8>) -> Seq<u8> {
    trim_end_spec(trim_start_spec(s))
}

/// The framing prefix `data: ` as bytes.
pub open spec fn frame_prefix() -> Seq<u8> {
    seq![100u8, 97u8, 116u8, 97u8, 58u8, 32u8]
}

/// Whether a trimmed line starts with the framing prefix.
pub open spec fn has_frame_prefix(t: Seq<u8>) -> bool {
    t.len() >= 6 && t.subrange(0, 6) == frame_prefix()
}

/// The increment one line contributes: trim it, require the framing prefix
/// at the start, decode the payload bytes leniently to text, and read the
/// delta content out of the JSON frame. Anything else yields nothing.
pub open spec fn line_increment(line: Seq<u8>) -> Option<Seq<char>> {
    let t = trim_spec(line);
    if has_frame_prefix(t) {
        frame_delta(lossy_decode(t.skip(6)))
    } else {
        None
    }
}

fn is_ws_byte(b: u8) -> (r: bool)
    ensures
        r == is_ws(b),
{
    b == 32 || b == 9 || b == 10 || b == 13
}

/// Remove ASCII whitespace from both ends of a byte line.
fn trim_bytes(v: &[u8]) -> (r: Vec<u8>)
    ensures
        r@ == trim_spec(v@),
{
    let mut lo: usize = 0;
    proof {
        assert(v@.skip(0) =~= v@);
    }
    while lo < v.len() && is_ws_byte(*vstd::slice::slice_index_get(v, lo))
        invariant
            lo <= v@.len(),
            trim_start_spec(v@) == trim_start_spec(v@.skip(lo as int)),
        decreases v@.len() - lo,
    {
        proof {
            assert(v@.skip(lo as int).drop_first() =~= v@.skip(lo as int + 1));
        }
        lo = lo + 1;
    }
    proof {
        assert(trim_start_spec(v@.skip(lo as int)) == v@.skip(lo as int));
        assert(v@.skip(lo as int) =~= v@.subrange(lo as int, v@.len() as int));
    }
    let mut hi: usize = v.len();
    while hi > lo && is_ws_byte(*vstd::slice::slice_index_get(v, hi - 1))
        invariant
            lo <= hi <= v@.len(),
            trim_start_spec(v@) == v@.subrange(lo as int, v@.len() as int),
            trim_end_spec(v@.subrange(lo as int, v@.len() as int)) == trim_end_spec(
                v@.subrange(lo as int, hi as int),
            ),
        decreases hi,
    {
        proof {
            assert(v@.subrange(lo as int, hi as int).drop_last() =~= v@.subrange(
                lo as int,
                hi as int - 1,
            ));
        }
        hi = hi - 1;
    }
    proof {
        assert(trim_end_spec(v@.subrange(lo as int, hi as int)) == v@.subrange(
            lo as int,
            hi as int,
        ));
    }
    slice_to_vec(slice_subrange(v, lo, hi))
}

/// If the line starts with the framing prefix, the payload after it.
fn strip_frame_prefix(t: &Vec<u8>) -> (r: Option<Vec<u8>>)
    ensures
        match r {
            Some(p) => has_frame_prefix(t@) && p@ == t@.skip(6),
            None => !has_frame_prefix(t@),
        },
{
    if t.len() < 6 {
        proof {
            assert(!has_frame_prefix(t@));
        }
        return None;
    }
    if t[0] == 100 && t[1] == 97 && t[2] == 116 && t[3] == 97 && t[4] == 58 && t[5] == 32 {
        proof {
            assert(t@.subrange(0, 6) =~= frame_prefix());
        }
        Some(slice_to_vec(slice_subrange(t.as_slice(), 6, t.len())))
    } else {
        proof {
            if t@.subrange(0, 6) == frame_prefix() {
                assert(t@.subrange(0, 6)[0] == t@[0]);
                assert(t@.subrange(0, 6)[1] == t@[1]);
                assert(t@.subrange(0, 6)[2] == t@[2]);
                assert(t@.subrange(0, 6)[3] == t@[3]);
                assert(t@.subrange(0, 6)[4] == t@[4]);
                assert(t@.subrange(0, 6)[5] == t@[5]);
            }
        }
        None
    }
}

/// Relies on std's `String::from_utf8_lossy`: the decoded text is a function
/// of the bytes alone; invalid sequences are replaced, never rejected.
#[verifier::external_body]
fn lossy_utf8(bytes: &Vec<u8>) -> (r: String)
    ensures
        r@ == lossy_decode(bytes@),
{
    String::from_utf8_lossy(bytes).into_owned()
}

/// Relies on `serde_json::from_str` and `serde_json::Value::{get, as_str}`:
/// for text that parses as a JSON object carrying a string at
/// `choices[0].delta.content`, the result is that string, and nothing
/// otherwise. A function of the frame text alone.
#[verifier::external_body]
fn frame_delta_of(frame: &str) -> (r: Option<String>)
    ensures
        match r {
            Some(s) => frame_delta(frame@) == Some(s@),
            None => frame_delta(frame@) is None,
        },
{
    let v: serde_json::Value = match serde_json::from_str(frame) {
        Ok(v) => v,
        Err(_) => return None,
    };
    v.get("choices")
        .and_then(|c| c.get(0))
        .and_then(|c| c.get("delta"))
        .and_then(|d| d.get("content"))
        .and_then(|s| s.as_str())
        .map(|s| s.to_owned())
}

/// Decode one complete line into its increment, if it carries one.
pub fn decode_line(line: &Vec<u8>) -> (r: Option<String>)
    ensures
        match r {
            Some(s) => line_increment(line@) == Some(s@),
            None => line_increment(line@) is None,
        },
{
    let t = trim_bytes(line.as_slice());
    match strip_frame_prefix(&t) {
        Some(payload) => {
            let text = lossy_utf8(&payload);
            frame_delta_of(text.as_str())
        },
        None => None,
    }
}

/// The abstract state of a decoder after some bytes: the increments already
/// emitted from complete lines, and the bytes pending after the last newline.
pub ghost struct DecodeState {
    pub incs: Seq<Seq<char>>,
    pub pending: Seq<u8>,
}

/// One byte advances the state: a newline closes the pending line, which
/// contributes its increment if it has one; any other byte joins the
/// pending line.
pub open spec fn decode_step(st: DecodeState, byte: u8) -> DecodeState {
    if byte == 10 {
        match line_increment(st.pending) {
            Some(c) => DecodeState { incs: st.incs.push(c), pending: seq![] },
            None => DecodeState { incs: st.incs, pending: seq![] },
        }
    } else {
        DecodeState { incs: st.incs, pending: st.pending.push(byte) }
    }
}

/// The state reached from a starting state by consuming bytes one by one.
pub open spec fn decode_from(st: DecodeState, bytes: Seq<u8>) -> DecodeState
    decreases bytes.len(),
{
    if bytes.len() == 0 {
        st
    } else {
        decode_step(decode_from(st, bytes.drop_last()), bytes.last())
    }
}

/// The decoder state that the given bytes determine, from the empty start.
pub open spec fn decode_state(fed: Seq<u8>) -> DecodeState {
    decode_from(DecodeState { incs: seq![], pending: seq![] }, fed)
}

/// All increments of a finished stream: the pending bytes at end-of-stream
/// count as one last line.
pub open spec fn final_incs(fed: Seq<u8>) -> Seq<Seq<char>> {
    let st = decode_state(fed);
    match line_increment(st.pending) {
        Some(c) => st.incs.push(c),
        None => st.incs,
    }
}

/// The concatenation of a sequence of increments.
pub open spec fn concat_incs(s: Seq<Seq<char>>) -> Seq<char>
    decreases s.len(),
{
    if s.len() == 0 {
        seq![]
    } else {
        concat_incs(s.drop_last()) + s.last()
    }
}

/// The reply a finished stream reconstructs: its increments in order.
pub open spec fn reply_of(fed: Seq<u8>) -> Seq<char> {
    concat_incs(final_incs(fed))
}

pub proof fn lemma_concat_incs_push(s: Seq<Seq<char>>, x: Seq<char>)
    ensures
        concat_incs(s.push(x)) == concat_incs(s) + x,
{
    assert(s.push(x).drop_last() =~= s);
    assert(s.push(x).last() == x);
}

/// Decodes a streaming response body incrementally: bytes are fed in chunks
/// of any size, increments come out as their lines complete, and the
/// accumulated reply is a function of the bytes alone.
pub struct StreamDecoder {
    buf: Vec<u8>,
    reply: String,
    fed: Ghost<Seq<u8>>,
}

impl StreamDecoder {
    /// The bytes fed so far.
    pub closed spec fn fed_bytes(self) -> Seq<u8> {
        self.fed@
    }

    /// The text accumulated from the increments emitted so far.
    pub closed spec fn reply_view(self) -> Seq<char> {
        self.reply@
    }

    /// The decoder tracks exactly the state that its fed bytes determine.
    pub closed spec fn wf(self) -> bool {
        &&& self.buf@ == decode_state(self.fed@).pending
        &&& self.reply@ == concat_incs(decode_state(self.fed@).incs)
    }

    pub fn new() -> (d: Self)
        ensures
            d.wf(),
            d.fed_bytes() == Seq::<u8>::empty(),
    {
        StreamDecoder { buf: Vec::new(), reply: String::new(), fed: Ghost(Seq::empty()) }
    }

    /// Consume one chunk of the body. Returns the increments completed by
    /// this chunk, in order, for the caller to surface immediately.
    pub fn feed(&mut self, chunk: &[u8]) -> (incs: Vec<String>)
        requires
            old(self).wf(),
        ensures
            final(self).wf(),
            final(self).fed_bytes() == old(self).fed_bytes() + chunk@,
            decode_state(final(self).fed_bytes()).incs == decode_state(
                old(self).fed_bytes(),
            ).incs + incs.deep_view(),
            final(self).reply_view() == old(self).reply_view() + concat_incs(incs.deep_view()),
    {
        let mut incs: Vec<String> = Vec::new();
        let ghost old_fed = self.fed@;
        let ghost old_incs = decode_state(old_fed).incs;
        let ghost old_reply = self.reply@;
        proof {
            assert(old_fed + chunk@.subrange(0, 0) =~= old_fed);
            assert(incs.deep_view() =~= Seq::<Seq<char>>::empty());
            assert(old_incs + incs.deep_view() =~= old_incs);
        }
        let mut i: usize = 0;
        while i < chunk.len()
            invariant
                i <= chunk@.len(),
                self.wf(),
                self.fed@ == old_fed + chunk@.subrange(0, i as int),
                decode_state(self.fed@).incs == old_incs + incs.deep_view(),
                self.reply@ == old_reply + concat_incs(incs.deep_view()),
            decreases chunk@.len() - i,
        {
            let b = *vstd::slice::slice_index_get(chunk, i);
            let ghost f0 = self.fed@;
            proof {
                assert(f0.push(b).drop_last() =~= f0);
                assert(f0.push(b) =~= old_fed + chunk@.subrange(0, i as int + 1));
            }
            if b == 10 {
                let inc = decode_line(&self.buf);
                self.buf.clear();
                self.fed = Ghost(f0.push(b));
                match inc {
                    Some(s) => {
                        let ghost dv0 = incs.deep_view();
                        self.reply.append(s.as_str());
                        incs.push(s);
                        proof {
                            assert(incs.deep_view() =~= dv0.push(s@));
                            lemma_concat_incs_push(decode_state(f0).incs, s@);
                            lemma_concat_incs_push(dv0, s@);
                            assert(old_incs + dv0.push(s@) =~= (old_incs + dv0).push(s@));
                        }
                    },
                    None => {},
                }
            } else {
                self.buf.push(b);
                self.fed = Ghost(f0.push(b));
            }
            i = i + 1;
        }
        proof {
            assert(chunk@.subrange(0, chunk@.len() as int) =~= chunk@);
        }
        incs
    }

    /// Finish the stream: the bytes left after the last newline count as one
    /// final line, and the whole accumulated reply comes back.
    pub fn finish(self) -> (r: String)
        requires
            self.wf(),
        ensures
            r@ == reply_of(self.fed_bytes()),
    {
        let StreamDecoder { buf, mut reply, fed } = self;
        match decode_line(&buf) {
            Some(s) => {
                proof {
                    lemma_concat_incs_push(decode_state(fed@).incs, s@);
                }
                reply.append(s.as_str());
            },
            None => {},
        }
        reply
    }
}

/// Chunk boundaries are immaterial: consuming `a` and then `b` ends exactly
/// where consuming `a + b` in one piece ends, so a multi-byte character
/// split across two reads decodes exactly as if it had arrived whole — its
/// bytes rejoin in the pending line before any text decoding happens.
/// Together with the contract of `StreamDecoder::feed`, which accumulates
/// exactly the concatenation of its chunks, the reply a decoder
/// reconstructs is a function of the bytes alone, never of their chunking.
pub proof fn lemma_chunking_immaterial(a: Seq<u8>, b: Seq<u8>)
    ensures
        decode_state(a + b) == decode_from(decode_state(a), b),
    decreases b.len(),
{
    if b.len() == 0 {
        assert(a + b =~= a);
    } else {
        lemma_chunking_immaterial(a, b.drop_last());
        assert((a + b).drop_last() =~= a + b.drop_last());
        assert((a + b).len() > 0);
        assert((a + b).last() == b.last());
    }
}

} // verus!
