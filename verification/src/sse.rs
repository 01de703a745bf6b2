//! Incremental decoding of a Server-Sent-Events byte stream into text deltas.
//!
//! The stream is a sequence of newline-terminated lines, delivered in
//! arbitrarily split chunks. A line `data: <payload>` carries either the
//! termination sentinel `[DONE]` or a JSON document from which a text delta
//! may be extracted; every other line is ignored. The decoder buffers the
//! bytes after the last newline seen so far, so the deltas it emits do not
//! depend on how the stream was cut into chunks.

use vstd::prelude::*;

verus! {

/// What `String::from_utf8_lossy` returns on the given bytes.
pub uninterp spec fn lossy_utf8_of(bytes: Seq<u8>) -> Seq<char>;

/// The text delta carried by a `data:` payload: the string at
/// `choices[0].delta.content` when the payload parses as a JSON document of
/// that shape, and nothing otherwise.
pub uninterp spec fn delta_content_of(payload: Seq<char>) -> Option<Seq<char>>;

/// Relies on `String::from_utf8_lossy`: the result depends on the bytes
/// alone; invalid sequences are replaced, so the call never fails.
#[verifier::external_body]
fn lossy_utf8(bytes: &[u8]) -> (r: String)
    ensures
        r@ == lossy_utf8_of(bytes@),
{
    String::from_utf8_lossy(bytes).into_owned()
}

/// Relies on `serde_json::from_str::<serde_json::Value>` together with
/// `Value::get` and `Value::as_str` to read `choices[0].delta.content`:
/// the outcome depends on the payload text alone, and a payload that is not
/// a JSON document of that shape yields nothing rather than an error.
#[verifier::external_body]
fn parse_delta_payload(payload: &str) -> (r: Option<String>)
    ensures
        r is Some <==> delta_content_of(payload@) is Some,
        r matches Some(s) ==> delta_content_of(payload@) == Some(s@),
{
    let value: serde_json::Value = match serde_json::from_str(payload) {
        Ok(v) => v,
        Err(_) => return None,
    };
    let content = value.get("choices")?.get(0)?.get("delta")?.get("content")?.as_str()?;
    Some(content.to_string())
}

/// Whether `s` contains a newline byte.
pub open spec fn has_newline(s: Seq<u8>) -> bool {
    exists|i: int| 0 <= i < s.len() && s[i] == 10u8
}

/// The complete (newline-terminated) lines of `bytes`, without their
/// terminators, in order.
pub open spec fn complete_lines(bytes: Seq<u8>) -> Seq<Seq<u8>>
    decreases bytes.len(),
{
    if bytes.len() == 0 {
        Seq::empty()
    } else {
        let prefix = bytes.drop_last();
        if bytes.last() == 10u8 {
            complete_lines(prefix).push(line_rest(prefix))
        } else {
            complete_lines(prefix)
        }
    }
}

/// The bytes of `bytes` after its last newline: the unterminated trailing
/// fragment (all of `bytes` when it holds no newline).
pub open spec fn line_rest(bytes: Seq<u8>) -> Seq<u8>
    decreases bytes.len(),
{
    if bytes.len() == 0 {
        Seq::empty()
    } else if bytes.last() == 10u8 {
        Seq::empty()
    } else {
        line_rest(bytes.drop_last()).push(bytes.last())
    }
}

/// The bytes of the line prefix that marks a data line: `data: `.
pub open spec fn data_prefix() -> Seq<u8> {
    seq![100u8, 97u8, 116u8, 97u8, 58u8, 32u8]
}

/// The bytes of the termination sentinel payload: `[DONE]`.
pub open spec fn done_payload() -> Seq<u8> {
    seq![91u8, 68u8, 79u8, 78u8, 69u8, 93u8]
}

/// The delta carried by one complete line: a line that does not start with
/// `data: `, a `data: [DONE]` line, and a data line whose payload carries no
/// content all yield nothing.
pub open spec fn line_delta(line: Seq<u8>) -> Option<Seq<char>> {
    if line.len() >= 6 && line.take(6) == data_prefix() {
        let payload = line.skip(6);
        if payload == done_payload() {
            None
        } else {
            delta_content_of(lossy_utf8_of(payload))
        }
    } else {
        None
    }
}

/// The deltas carried by a sequence of complete lines, in order.
pub open spec fn line_deltas(lines: Seq<Seq<u8>>) -> Seq<Seq<char>>
    decreases lines.len(),
{
    if lines.len() == 0 {
        Seq::empty()
    } else {
        let init = line_deltas(lines.drop_last());
        match line_delta(lines.last()) {
            Some(d) => init.push(d),
            None => init,
        }
    }
}

/// The deltas carried by the complete lines of a byte stream. The trailing
/// fragment after the last newline carries none.
pub open spec fn stream_deltas(bytes: Seq<u8>) -> Seq<Seq<char>> {
    line_deltas(complete_lines(bytes))
}

/// The views of a sequence of strings.
pub open spec fn strings_view(v: Seq<String>) -> Seq<Seq<char>> {
    v.map_values(|s: String| s@)
}

/// Reassembles complete lines out of arbitrarily split chunks and yields
/// the delta of each data line. Its state is the unterminated tail of the
/// bytes pushed so far.
pub struct SseDecoder {
    pending: Vec<u8>,
}

impl View for SseDecoder {
    type V = Seq<u8>;

    closed spec fn view(&self) -> Seq<u8> {
        self.pending@
    }
}

impl SseDecoder {
    /// The pending buffer never holds a newline: a newline always completes
    /// a line at once.
    pub open spec fn wf(&self) -> bool {
        !has_newline(self@)
    }

    /// A fresh decoder with an empty buffer.
    pub fn new() -> (d: SseDecoder)
        ensures
            d@ == Seq::<u8>::empty(),
            d.wf(),
    {
        let d = SseDecoder { pending: Vec::new() };
        proof {
            assert(!has_newline(d@));
        }
        d
    }

    /// Feeds one chunk of the stream to the decoder and returns the deltas
    /// of the lines the chunk completed, in order. Decoding never fails:
    /// a line that carries no delta is skipped and the following lines are
    /// decoded as if it were not there.
    pub fn push_chunk(&mut self, chunk: &[u8]) -> (deltas: Vec<String>)
        requires
            old(self).wf(),
        ensures
            final(self).wf(),
            final(self)@ == line_rest(old(self)@ + chunk@),
            strings_view(deltas@) == stream_deltas(old(self)@ + chunk@),
    {
        let ghost orig: Seq<u8> = self@;
        let mut out: Vec<String> = Vec::new();
        let mut i: usize = 0;
        proof {
            assert(orig + chunk@.take(0) =~= orig);
            lemma_no_newline_scanned(orig);
            assert(strings_view(out@) =~= stream_deltas(orig));
        }
        while i < chunk.len()
            invariant
                i <= chunk@.len(),
                self.wf(),
                self@ == line_rest(orig + chunk@.take(i as int)),
                strings_view(out@) == stream_deltas(orig + chunk@.take(i as int)),
            decreases chunk@.len() - i,
        {
            let ghost seen: Seq<u8> = orig + chunk@.take(i as int);
            let b = chunk[i];
            proof {
                assert(orig + chunk@.take(i + 1) =~= seen.push(b));
                lemma_scan_step(seen, b);
            }
            if b == 10u8 {
                let line = self.pending.clone();
                self.pending.clear();
                proof {
                    assert(self@ =~= Seq::<u8>::empty());
                    assert(!has_newline(self@));
                    assert(complete_lines(seen.push(b)) == complete_lines(seen).push(line@));
                }
                let ghost lines = complete_lines(seen);
                if let Some(d) = decode_line(line.as_slice()) {
                    let ghost dv = d@;
                    out.push(d);
                    proof {
                        assert(line_deltas(lines.push(line@)) == line_deltas(lines).push(dv)) by {
                            assert(lines.push(line@).drop_last() =~= lines);
                        }
                        assert(strings_view(out@) =~= stream_deltas(seen.push(b)));
                    }
                } else {
                    proof {
                        assert(line_deltas(lines.push(line@)) == line_deltas(lines)) by {
                            assert(lines.push(line@).drop_last() =~= lines);
                        }
                        assert(strings_view(out@) =~= stream_deltas(seen.push(b)));
                    }
                }
            } else {
                self.pending.push(b);
                proof {
                    lemma_no_newline_push(line_rest(seen), b);
                }
            }
            i = i + 1;
        }
        proof {
            assert(orig + chunk@.take(chunk@.len() as int) =~= orig + chunk@);
        }
        out
    }
}

/// Decodes one complete line: the delta of a well-formed data line, nothing
/// for every other line.
fn decode_line(line: &[u8]) -> (r: Option<String>)
    ensures
        r is Some <==> line_delta(line@) is Some,
        r matches Some(s) ==> line_delta(line@) == Some(s@),
{
    if line.len() < 6 {
        return None;
    }
    let is_data = line[0] == 100u8 && line[1] == 97u8 && line[2] == 116u8 && line[3] == 97u8
        && line[4] == 58u8 && line[5] == 32u8;
    if !is_data {
        proof {
            assert(line@.take(6) != data_prefix());
        }
        return None;
    }
    proof {
        assert(line@.take(6) =~= data_prefix());
    }
    let payload = line.split_at(6).1;
    proof {
        assert(payload@ =~= line@.skip(6));
    }
    if is_done_payload(payload) {
        return None;
    }
    let text = lossy_utf8(payload);
    parse_delta_payload(text.as_str())
}

/// Whether a data line's payload is exactly the `[DONE]` sentinel.
fn is_done_payload(payload: &[u8]) -> (r: bool)
    ensures
        r == (payload@ == done_payload()),
{
    if payload.len() != 6 {
        return false;
    }
    let r = payload[0] == 91u8 && payload[1] == 68u8 && payload[2] == 79u8
        && payload[3] == 78u8 && payload[4] == 69u8 && payload[5] == 93u8;
    proof {
        if r {
            assert(payload@ =~= done_payload());
        }
    }
    r
}

/// A buffer without a newline is all trailing fragment: it holds no
/// complete line.
proof fn lemma_no_newline_scanned(s: Seq<u8>)
    requires
        !has_newline(s),
    ensures
        line_rest(s) == s,
        complete_lines(s) == Seq::<Seq<u8>>::empty(),
    decreases s.len(),
{
    if s.len() == 0 {
        assert(line_rest(s) =~= s);
    } else {
        assert(s[s.len() - 1] != 10u8);
        assert(!has_newline(s.drop_last())) by {
            assert(forall|i: int|
                0 <= i < s.drop_last().len() ==> s.drop_last()[i] == s[i]);
        }
        lemma_no_newline_scanned(s.drop_last());
        assert(line_rest(s) =~= s);
    }
}

/// The trailing fragment never holds a newline.
proof fn lemma_line_rest_no_newline(s: Seq<u8>)
    ensures
        !has_newline(line_rest(s)),
    decreases s.len(),
{
    if s.len() == 0 {
    } else if s.last() == 10u8 {
    } else {
        lemma_line_rest_no_newline(s.drop_last());
        lemma_no_newline_push(line_rest(s.drop_last()), s.last());
    }
}

/// Pushing a non-newline byte keeps a buffer free of newlines.
proof fn lemma_no_newline_push(s: Seq<u8>, b: u8)
    requires
        !has_newline(s),
        b != 10u8,
    ensures
        !has_newline(s.push(b)),
{
    assert(forall|i: int| 0 <= i < s.len() ==> s.push(b)[i] == s[i]);
    assert(s.push(b)[s.len() as int] == b);
}

/// One byte advances the line scan: a newline completes the pending
/// fragment as a line, any other byte extends the fragment.
proof fn lemma_scan_step(s: Seq<u8>, b: u8)
    ensures
        b == 10u8 ==> complete_lines(s.push(b)) == complete_lines(s).push(line_rest(s)),
        b == 10u8 ==> line_rest(s.push(b)) == Seq::<u8>::empty(),
        b != 10u8 ==> complete_lines(s.push(b)) == complete_lines(s),
        b != 10u8 ==> line_rest(s.push(b)) == line_rest(s).push(b),
{
    assert(s.push(b).drop_last() =~= s);
    assert(s.push(b).last() == b);
}

/// Scanning `a + b` is scanning `a` and then scanning `b` from the fragment
/// `a` left behind: line splitting is insensitive to where the stream is cut.
proof fn lemma_scan_append(a: Seq<u8>, b: Seq<u8>)
    ensures
        complete_lines(a + b) == complete_lines(a) + complete_lines(line_rest(a) + b),
        line_rest(a + b) == line_rest(line_rest(a) + b),
    decreases b.len(),
{
    lemma_line_rest_no_newline(a);
    if b.len() == 0 {
        lemma_no_newline_scanned(line_rest(a));
        assert(a + b =~= a);
        assert(line_rest(a) + b =~= line_rest(a));
        assert(complete_lines(a) + complete_lines(line_rest(a)) =~= complete_lines(a));
    } else {
        let b0 = b.drop_last();
        let c = b.last();
        lemma_scan_append(a, b0);
        assert(a + b =~= (a + b0).push(c));
        assert(line_rest(a) + b =~= (line_rest(a) + b0).push(c));
        lemma_scan_step(a + b0, c);
        lemma_scan_step(line_rest(a) + b0, c);
        assert(complete_lines(a + b) =~= complete_lines(a) + complete_lines(line_rest(a) + b));
    }
}

/// The deltas of concatenated line sequences are the concatenated deltas.
proof fn lemma_line_deltas_append(l1: Seq<Seq<u8>>, l2: Seq<Seq<u8>>)
    ensures
        line_deltas(l1 + l2) == line_deltas(l1) + line_deltas(l2),
    decreases l2.len(),
{
    if l2.len() == 0 {
        assert(l1 + l2 =~= l1);
        assert(line_deltas(l1) + line_deltas(l2) =~= line_deltas(l1));
    } else {
        let l20 = l2.drop_last();
        lemma_line_deltas_append(l1, l20);
        assert((l1 + l2).drop_last() =~= l1 + l20);
        assert((l1 + l2).last() == l2.last());
        match line_delta(l2.last()) {
            Some(d) => {
                assert(line_deltas(l1) + line_deltas(l2) =~= (line_deltas(l1) + line_deltas(
                    l20,
                )).push(d));
            },
            None => {},
        }
    }
}

/// The bytes of a sequence of chunks, in order.
pub open spec fn concat_chunks(chunks: Seq<Seq<u8>>) -> Seq<u8>
    decreases chunks.len(),
{
    if chunks.len() == 0 {
        Seq::empty()
    } else {
        concat_chunks(chunks.drop_last()) + chunks.last()
    }
}

/// The fragment a decoder holds after the chunks have been pushed one by
/// one onto a decoder whose buffer held `rest`. Each step is exactly what
/// [`SseDecoder::push_chunk`] ensures of its state.
pub open spec fn rest_after_chunks(rest: Seq<u8>, chunks: Seq<Seq<u8>>) -> Seq<u8>
    decreases chunks.len(),
{
    if chunks.len() == 0 {
        rest
    } else {
        line_rest(rest_after_chunks(rest, chunks.drop_last()) + chunks.last())
    }
}

/// All deltas returned when the chunks are pushed one by one onto a decoder
/// whose buffer held `rest`, in order. Each step is exactly what
/// [`SseDecoder::push_chunk`] ensures of its result.
pub open spec fn deltas_after_chunks(rest: Seq<u8>, chunks: Seq<Seq<u8>>) -> Seq<Seq<char>>
    decreases chunks.len(),
{
    if chunks.len() == 0 {
        Seq::empty()
    } else {
        deltas_after_chunks(rest, chunks.drop_last()) + stream_deltas(
            rest_after_chunks(rest, chunks.drop_last()) + chunks.last(),
        )
    }
}

/// Chunk-boundary independence, from any well-formed starting fragment:
/// pushing the chunks one by one yields the same deltas and the same final
/// fragment as pushing all their bytes at once.
pub proof fn lemma_decode_from_fragment(rest: Seq<u8>, chunks: Seq<Seq<u8>>)
    requires
        !has_newline(rest),
    ensures
        deltas_after_chunks(rest, chunks) == stream_deltas(rest + concat_chunks(chunks)),
        rest_after_chunks(rest, chunks) == line_rest(rest + concat_chunks(chunks)),
    decreases chunks.len(),
{
    if chunks.len() == 0 {
        lemma_no_newline_scanned(rest);
        assert(rest + concat_chunks(chunks) =~= rest);
        assert(stream_deltas(rest) =~= Seq::<Seq<char>>::empty());
    } else {
        let cs = chunks.drop_last();
        let c = chunks.last();
        lemma_decode_from_fragment(rest, cs);
        let a = rest + concat_chunks(cs);
        assert(rest + concat_chunks(chunks) =~= a + c);
        lemma_scan_append(a, c);
        lemma_line_deltas_append(complete_lines(a), complete_lines(line_rest(a) + c));
    }
}

/// For all sequences of chunk splits of the same logical byte stream,
/// decoding from a fresh decoder yields an identical ordered sequence of
/// deltas, and an identical trailing fragment.
pub proof fn lemma_chunk_boundary_independence(chunks: Seq<Seq<u8>>)
    ensures
        deltas_after_chunks(Seq::empty(), chunks) == stream_deltas(concat_chunks(chunks)),
        rest_after_chunks(Seq::empty(), chunks) == line_rest(concat_chunks(chunks)),
{
    let empty = Seq::<u8>::empty();
    assert(!has_newline(empty));
    lemma_decode_from_fragment(empty, chunks);
    assert(empty + concat_chunks(chunks) =~= concat_chunks(chunks));
}

/// An unterminated trailing fragment at stream end is dropped: it adds no
/// delta, however the stream before it ended.
pub proof fn lemma_trailing_fragment_dropped(s: Seq<u8>, fragment: Seq<u8>)
    requires
        !has_newline(fragment),
    ensures
        stream_deltas(s + fragment) == stream_deltas(s),
{
    lemma_scan_append(s, fragment);
    lemma_line_rest_no_newline(s);
    assert(!has_newline(line_rest(s) + fragment)) by {
        let t = line_rest(s) + fragment;
        assert(forall|i: int|
            0 <= i < line_rest(s).len() ==> t[i] == line_rest(s)[i]);
        assert(forall|i: int|
            line_rest(s).len() <= i < t.len() ==> t[i] == fragment[i - line_rest(s).len()]);
    }
    lemma_no_newline_scanned(line_rest(s) + fragment);
    assert(complete_lines(s) + complete_lines(line_rest(s) + fragment) =~= complete_lines(s));
}

/// A `data: [DONE]` line carries no delta; since every line decodes to a
/// delta or to nothing, it raises no error either.
pub proof fn lemma_done_line_yields_nothing(line: Seq<u8>)
    requires
        line == data_prefix() + done_payload(),
    ensures
        line_delta(line) is None,
{
    assert(line.take(6) =~= data_prefix());
    assert(line.skip(6) =~= done_payload());
}

/// A complete `bad` line that carries no delta — a malformed data payload
/// among them — is skipped: the stream decodes exactly as if the line and
/// its terminator were not there, and the lines after it still decode.
pub proof fn lemma_malformed_line_skipped(s1: Seq<u8>, bad: Seq<u8>, s2: Seq<u8>)
    requires
        line_rest(s1) == Seq::<u8>::empty(),
        !has_newline(bad),
        line_delta(bad) is None,
    ensures
        stream_deltas(s1 + (bad + seq![10u8]) + s2) == stream_deltas(s1 + s2),
{
    let mid = bad + seq![10u8];
    assert(mid =~= bad.push(10u8));
    lemma_scan_step(bad, 10u8);
    lemma_no_newline_scanned(bad);
    assert(complete_lines(mid) =~= seq![bad]);
    assert(line_rest(mid) =~= Seq::<u8>::empty());
    lemma_scan_append(s1, mid);
    assert(line_rest(s1) + mid =~= mid);
    assert(complete_lines(s1 + mid) =~= complete_lines(s1) + seq![bad]);
    assert(line_rest(s1 + mid) =~= Seq::<u8>::empty());
    lemma_scan_append(s1 + mid, s2);
    assert(line_rest(s1 + mid) + s2 =~= s2);
    assert(s1 + mid + s2 =~= (s1 + mid) + s2);
    assert(complete_lines(s1 + mid + s2) =~= (complete_lines(s1) + seq![bad]) + complete_lines(
        s2,
    ));
    lemma_scan_append(s1, s2);
    assert(line_rest(s1) + s2 =~= s2);
    assert(complete_lines(s1 + s2) =~= complete_lines(s1) + complete_lines(s2));
    assert(complete_lines(s1) + seq![bad] + complete_lines(s2) =~= (complete_lines(s1) + seq![
        bad,
    ]) + complete_lines(s2));
    lemma_undecodable_line_skipped(complete_lines(s1), bad, complete_lines(s2));
}

/// A line that carries no delta — a malformed data payload among them — is
/// skipped: the lines around it decode exactly as if it were not there.
pub proof fn lemma_undecodable_line_skipped(
    before: Seq<Seq<u8>>,
    line: Seq<u8>,
    after: Seq<Seq<u8>>,
)
    requires
        line_delta(line) is None,
    ensures
        line_deltas(before + seq![line] + after) == line_deltas(before + after),
{
    lemma_line_deltas_append(before, seq![line]);
    lemma_line_deltas_append(before + seq![line], after);
    lemma_line_deltas_append(before, after);
    assert(line_deltas(seq![line]) =~= Seq::<Seq<char>>::empty()) by {
        assert(seq![line].drop_last() =~= Seq::<Seq<u8>>::empty());
        assert(seq![line].last() == line);
        assert(line_deltas(Seq::<Seq<u8>>::empty()) =~= Seq::<Seq<char>>::empty());
        reveal_with_fuel(line_deltas, 2);
    }
    assert(line_deltas(before) + line_deltas(seq![line]) =~= line_deltas(before));
}

} // verus!
