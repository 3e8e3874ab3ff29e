use vstd::prelude::*;
use vstd::string::StrSliceExecFns;
use vstd::string::StringSliceAdditionalSpecFns;

use crate::errors::Error;
use crate::errors::ProtocolError;
use crate::jsonrpc::json_doc;
use crate::jsonrpc::parse_response;
use crate::jsonrpc::response_matches_doc;
use crate::jsonrpc::wf_response_doc;
use crate::jsonrpc::render_request;
use crate::jsonrpc::render_spec;
use crate::jsonrpc::Request;
use crate::jsonrpc::Response;
use crate::text::dec_bytes;
use crate::text::push_dec_bytes;

verus! {

/// Whitespace inside a header line: space, tab, carriage return,
/// line feed.
pub open spec fn is_ws_b(b: u8) -> bool {
    b == 0x20 || b == 0x09 || b == 0x0D || b == 0x0A
}

#[verifier::when_used_as_spec(is_ws_b)]
fn is_ws_byte(b: u8) -> (r: bool)
    ensures
        r == is_ws_b(b),
{
    b == 0x20 || b == 0x09 || b == 0x0D || b == 0x0A
}

pub open spec fn first_non_ws_b(s: Seq<u8>, pos: int) -> int
    decreases s.len() - pos when 0 <= pos <= s.len()
{
    if pos >= s.len() {
        s.len() as int
    } else if is_ws_b(s[pos]) {
        first_non_ws_b(s, pos + 1)
    } else {
        pos
    }
}

pub open spec fn last_non_ws_end_b(s: Seq<u8>, pos: int) -> int
    decreases pos when 0 <= pos <= s.len()
{
    if pos <= 0 {
        0
    } else if is_ws_b(s[pos - 1]) {
        last_non_ws_end_b(s, pos - 1)
    } else {
        pos
    }
}

/// A header line with its surrounding whitespace removed.
pub open spec fn trim_b(s: Seq<u8>) -> Seq<u8> {
    let f = first_non_ws_b(s, 0);
    let e = last_non_ws_end_b(s, s.len() as int);
    if f <= e {
        s.subrange(f, e)
    } else {
        Seq::empty()
    }
}

proof fn lemma_last_non_ws_b_bounds(s: Seq<u8>, pos: int)
    requires
        0 <= pos <= s.len(),
    ensures
        0 <= last_non_ws_end_b(s, pos) <= pos,
    decreases pos,
{
    if pos > 0 && is_ws_b(s[pos - 1]) {
        lemma_last_non_ws_b_bounds(s, pos - 1);
    }
}

/// Index of the first occurrence of `b` in `s[pos..]`, or `s.len()`.
pub open spec fn find_byte(s: Seq<u8>, pos: int, b: u8) -> int
    decreases s.len() - pos when 0 <= pos <= s.len()
{
    if pos >= s.len() {
        s.len() as int
    } else if s[pos] == b {
        pos
    } else {
        find_byte(s, pos + 1, b)
    }
}

pub proof fn lemma_find_byte_bounds(s: Seq<u8>, pos: int, b: u8)
    requires
        0 <= pos <= s.len(),
    ensures
        pos <= find_byte(s, pos, b) <= s.len(),
        forall|k: int| pos <= k < find_byte(s, pos, b) ==> s[k] != b,
        find_byte(s, pos, b) < s.len() ==> s[find_byte(s, pos, b)] == b,
    decreases s.len() - pos,
{
    if pos < s.len() && s[pos] != b {
        lemma_find_byte_bounds(s, pos + 1, b);
    }
}

pub open spec fn is_digit_b(b: u8) -> bool {
    0x30 <= b <= 0x39
}

pub open spec fn all_digits(s: Seq<u8>) -> bool {
    forall|k: int| 0 <= k < s.len() ==> is_digit_b(#[trigger] s[k])
}

/// The number a digit string denotes.
pub open spec fn dec_val(s: Seq<u8>) -> int
    decreases s.len(),
{
    if s.len() == 0 {
        0
    } else {
        dec_val(s.drop_last()) * 10 + (s.last() - 0x30)
    }
}

/// What a `Content-Length` value means: a non-empty digit string
/// whose number fits a `usize`; anything else is rejected.
pub open spec fn parse_len(s: Seq<u8>) -> Option<int> {
    if s.len() > 0 && all_digits(s) && dec_val(s) <= usize::MAX {
        Some(dec_val(s))
    } else {
        None
    }
}

proof fn lemma_dec_val_nonneg(s: Seq<u8>)
    requires
        all_digits(s),
    ensures
        dec_val(s) >= 0,
    decreases s.len(),
{
    if s.len() > 0 {
        assert(all_digits(s.drop_last()));
        lemma_dec_val_nonneg(s.drop_last());
    }
}

/// Longer digit prefixes denote no smaller numbers.
proof fn lemma_dec_val_prefix_le(s: Seq<u8>, i: int)
    requires
        all_digits(s),
        0 <= i <= s.len(),
    ensures
        dec_val(s.take(i)) <= dec_val(s),
    decreases s.len() - i,
{
    if i < s.len() {
        assert(all_digits(s.take(i))) by {
            assert(forall|k: int| 0 <= k < i ==> s.take(i)[k] == s[k]);
        }
        assert(s.take(i + 1).drop_last() =~= s.take(i));
        assert(s.take(i + 1).last() == s[i]);
        lemma_dec_val_nonneg(s.take(i));
        assert(dec_val(s.take(i)) <= dec_val(s.take(i + 1)));
        lemma_dec_val_prefix_le(s, i + 1);
        assert(s.take(s.len() as int) =~= s);
    } else {
        assert(s.take(s.len() as int) =~= s);
    }
}

/// The result of scanning a byte buffer for one framed message.
pub ghost enum HeaderScan {
    /// The headers or the body are not complete yet.
    NeedMore,
    /// A complete frame: where the body starts and how long it is.
    Frame { body_start: int, body_len: int },
    /// The blank line arrived without a Content-Length header.
    NoLength,
    /// A Content-Length value that is not a plain number.
    BadLength,
}

/// The bytes of the one required header's name and separator.
pub open spec fn cl_prefix() -> Seq<u8> {
    "Content-Length: ".spec_bytes()
}

pub open spec fn starts_with_b(s: Seq<u8>, p: Seq<u8>) -> bool {
    p.len() <= s.len() && s.subrange(0, p.len() as int) == p
}

/// How the framing reads a buffer: lines up to the first blank line
/// are headers; a `Content-Length: ` line fixes the body length (the
/// last such line wins); the body follows the blank line.  Unknown
/// headers are ignored.
pub open spec fn scan_spec(buf: Seq<u8>, pos: int, cl: Option<int>) -> HeaderScan
    decreases buf.len() - pos when 0 <= pos <= buf.len() via scan_spec_dec
{
    if pos >= buf.len() {
        HeaderScan::NeedMore
    } else {
        let nl = find_byte(buf, pos, 0x0A);
        if nl >= buf.len() {
            HeaderScan::NeedMore
        } else {
            let line = trim_b(buf.subrange(pos, nl));
            if line.len() == 0 {
                match cl {
                    Option::None => HeaderScan::NoLength,
                    Option::Some(n) => if nl + 1 + n <= buf.len() {
                        HeaderScan::Frame { body_start: nl + 1, body_len: n }
                    } else {
                        HeaderScan::NeedMore
                    },
                }
            } else if starts_with_b(line, cl_prefix()) {
                match parse_len(line.skip(cl_prefix().len() as int)) {
                    Option::Some(n) => scan_spec(buf, nl + 1, Option::Some(n)),
                    Option::None => HeaderScan::BadLength,
                }
            } else {
                scan_spec(buf, nl + 1, cl)
            }
        }
    }
}

#[via_fn]
proof fn scan_spec_dec(buf: Seq<u8>, pos: int, cl: Option<int>) {
    if 0 <= pos < buf.len() {
        lemma_find_byte_bounds(buf, pos, 0x0A);
    }
}

pub open spec fn opt_int(o: Option<usize>) -> Option<int> {
    match o {
        Some(n) => Some(n as int),
        None => None,
    }
}

/// What `scan_frame` reports about a buffer.
#[derive(Debug, Clone, PartialEq, Eq)]
pub enum FrameScan {
    /// More bytes are needed before a whole frame is present.
    NeedMore,
    /// A whole frame: the body lies at `body_start..body_start +
    /// body_len`.
    Frame { body_start: usize, body_len: usize },
    /// The header block is invalid.
    Malformed(ProtocolError),
}

/// Parses the digit run `buf[from..to]` as a length, rejecting
/// non-digits, the empty run, and overflow.
fn parse_dec_range(buf: &Vec<u8>, from: usize, to: usize) -> (r: Option<usize>)
    requires
        from <= to <= buf@.len(),
    ensures
        opt_int(r) == parse_len(buf@.subrange(from as int, to as int)),
{
    let ghost s = buf@.subrange(from as int, to as int);
    if to == from {
        return None;
    }
    let mut acc: usize = 0;
    let mut i = from;
    while i < to
        invariant
            from <= i <= to <= buf@.len(),
            s == buf@.subrange(from as int, to as int),
            s.len() == to - from,
            all_digits(s.take(i - from)),
            acc as int == dec_val(s.take(i - from)),
        decreases to - i,
    {
        let b = buf[i];
        proof {
            assert(s[i - from] == buf@[i as int]);
        }
        if b < 0x30 || b > 0x39 {
            proof {
                assert(!is_digit_b(s[i - from]));
                assert(!all_digits(s));
            }
            return None;
        }
        let d = (b - 0x30) as usize;
        if acc > (usize::MAX - d) / 10 {
            // the number can only grow from here: reject
            proof {
                assert(s.take(i - from + 1).drop_last() =~= s.take(i - from));
                assert(s.take(i - from + 1).last() == s[i - from]);
                assert(dec_val(s.take(i - from + 1)) > usize::MAX);
                if all_digits(s) {
                    lemma_dec_val_prefix_le(s, i - from + 1);
                }
            }
            return None;
        }
        proof {
            assert(s.take(i - from + 1).drop_last() =~= s.take(i - from));
            assert(s.take(i - from + 1).last() == s[i - from]);
        }
        acc = acc * 10 + d;
        i = i + 1;
    }
    proof {
        assert(s.take(to - from) =~= s);
        lemma_dec_val_nonneg(s);
    }
    Some(acc)
}

/// Scans a receive buffer for one complete framed message, without
/// consuming it: headers are lines up to a blank line; the one
/// required header is `Content-Length`.
pub fn scan_frame(buf: &Vec<u8>) -> (r: FrameScan)
    ensures
        scan_spec(buf@, 0, Option::None) == HeaderScan::NeedMore ==> r == FrameScan::NeedMore,
        scan_spec(buf@, 0, Option::None) matches HeaderScan::Frame { body_start, body_len } ==> r
            == (FrameScan::Frame { body_start: body_start as usize, body_len: body_len as usize })
            && 0 <= body_start && 0 <= body_len && body_start + body_len <= buf@.len(),
        scan_spec(buf@, 0, Option::None) == HeaderScan::NoLength ==> r == FrameScan::Malformed(
            ProtocolError::MissingContentLength,
        ),
        scan_spec(buf@, 0, Option::None) == HeaderScan::BadLength ==> (r matches FrameScan::Malformed(
            ProtocolError::InvalidJsonRpc(m),
        ) && m@ == "invalid Content-Length value"@),
{
    let len = buf.len();
    let mut pos: usize = 0;
    let mut cl: Option<usize> = None;
    loop
        invariant
            0 <= pos <= len,
            len == buf@.len(),
            scan_spec(buf@, 0, Option::None) == scan_spec(buf@, pos as int, opt_int(cl)),
        decreases len - pos,
    {
        if pos >= len {
            return FrameScan::NeedMore;
        }
        // find the end of the current line
        let mut j = pos;
        while j < len && buf[j] != 0x0A
            invariant
                pos <= j <= len,
                len == buf@.len(),
                find_byte(buf@, pos as int, 0x0A) == find_byte(buf@, j as int, 0x0A),
            decreases len - j,
        {
            j = j + 1;
        }
        proof {
            assert(find_byte(buf@, pos as int, 0x0A) == j);
        }
        if j >= len {
            return FrameScan::NeedMore;
        }
        let ghost line_raw = buf@.subrange(pos as int, j as int);
        // trim the line
        let mut ts = pos;
        while ts < j && is_ws_byte(buf[ts])
            invariant
                pos <= ts <= j <= len,
                len == buf@.len(),
                line_raw == buf@.subrange(pos as int, j as int),
                first_non_ws_b(line_raw, 0) == first_non_ws_b(line_raw, ts - pos),
            decreases j - ts,
        {
            proof {
                assert(line_raw[ts - pos] == buf@[ts as int]);
            }
            ts = ts + 1;
        }
        proof {
            if ts < j {
                assert(line_raw[ts - pos] == buf@[ts as int]);
            }
            assert(first_non_ws_b(line_raw, 0) == ts - pos);
        }
        let mut te = j;
        while te > ts && is_ws_byte(buf[te - 1])
            invariant
                pos <= ts <= te <= j <= len,
                len == buf@.len(),
                line_raw == buf@.subrange(pos as int, j as int),
                first_non_ws_b(line_raw, 0) == ts - pos,
                last_non_ws_end_b(line_raw, line_raw.len() as int) == last_non_ws_end_b(
                    line_raw,
                    te - pos,
                ),
            decreases te,
        {
            proof {
                assert(line_raw[te - 1 - pos] == buf@[te - 1]);
            }
            te = te - 1;
        }
        let ghost line = trim_b(line_raw);
        proof {
            if te > ts {
                assert(line_raw[te - 1 - pos] == buf@[te - 1]);
                assert(last_non_ws_end_b(line_raw, te - pos) == te - pos);
                assert(line =~= buf@.subrange(ts as int, te as int));
            } else {
                lemma_last_non_ws_b_bounds(line_raw, te - pos);
                assert(line =~= Seq::<u8>::empty());
            }
        }
        if te == ts {
            // blank line: end of headers
            match cl {
                None => {
                    return FrameScan::Malformed(ProtocolError::MissingContentLength);
                },
                Some(n) => {
                    if n <= len - (j + 1) {
                        return FrameScan::Frame { body_start: j + 1, body_len: n };
                    } else {
                        return FrameScan::NeedMore;
                    }
                },
            }
        }
        // does the line carry the one header that matters?
        let p: &[u8] = "Content-Length: ".as_bytes();
        let pl: usize = p.len();
        let is_cl = range_starts_with(buf, ts, te, p);
        if is_cl {
            proof {
                assert(line.skip(pl as int) =~= buf@.subrange(ts + pl, te as int));
            }
            match parse_dec_range(buf, ts + pl, te) {
                Some(n) => {
                    cl = Some(n);
                },
                None => {
                    return FrameScan::Malformed(
                        ProtocolError::InvalidJsonRpc(
                            String::from_str("invalid Content-Length value"),
                        ),
                    );
                },
            }
        }
        pos = j + 1;
    }
}

/// Whether `buf[ts..te]` starts with the bytes of `p`.
fn range_starts_with(buf: &Vec<u8>, ts: usize, te: usize, p: &[u8]) -> (r: bool)
    requires
        ts <= te <= buf@.len(),
    ensures
        r == starts_with_b(buf@.subrange(ts as int, te as int), p@),
{
    let ghost line = buf@.subrange(ts as int, te as int);
    let pl = p.len();
    if te - ts < pl {
        return false;
    }
    let mut k: usize = 0;
    while k < pl
        invariant
            0 <= k <= pl,
            ts <= te <= buf@.len(),
            pl == p@.len(),
            pl <= te - ts,
            line == buf@.subrange(ts as int, te as int),
            forall|x: int| 0 <= x < k ==> line[x] == p@[x],
        decreases pl - k,
    {
        proof {
            assert(line[k as int] == buf@[ts + k]);
        }
        if *vstd::slice::slice_index_get(p, k) != buf[ts + k] {
            proof {
                if starts_with_b(line, p@) {
                    assert(line.subrange(0, pl as int)[k as int] == line[k as int]);
                }
            }
            return false;
        }
        k = k + 1;
    }
    proof {
        assert(line.subrange(0, pl as int) =~= p@);
    }
    true
}

/// The frame around a message body: the length header, a blank line,
/// then the body's bytes.
pub open spec fn frame_spec(body: Seq<u8>) -> Seq<u8> {
    "Content-Length: ".spec_bytes() + dec_bytes(body.len()) + "\r\n\r\n".spec_bytes() + body
}

fn push_slice(out: &mut Vec<u8>, s: &[u8])
    ensures
        final(out)@ == old(out)@ + s@,
{
    let mut i: usize = 0;
    while i < s.len()
        invariant
            0 <= i <= s@.len(),
            out@ == old(out)@ + s@.take(i as int),
        decreases s@.len() - i,
    {
        out.push(*vstd::slice::slice_index_get(s, i));
        proof {
            assert(out@ =~= old(out)@ + s@.take(i + 1));
        }
        i = i + 1;
    }
    proof {
        assert(s@.take(s@.len() as int) =~= s@);
    }
}

/// Wraps a message body in its frame.
pub fn encode_frame(body: &[u8]) -> (r: Vec<u8>)
    ensures
        r@ == frame_spec(body@),
{
    let mut out: Vec<u8> = Vec::new();
    push_slice(&mut out, "Content-Length: ".as_bytes());
    push_dec_bytes(body.len() as u64, &mut out);
    push_slice(&mut out, "\r\n\r\n".as_bytes());
    push_slice(&mut out, body);
    proof {
        assert(out@ =~= frame_spec(body@));
    }
    out
}

/// Renders and frames a request: exactly what the writer task puts on
/// the sidecar's input stream for it.
pub fn encode_message(req: &Request) -> (r: Vec<u8>)
    ensures
        r@ == frame_spec(vstd::utf8::encode_utf8(render_spec(*req))),
{
    let body = render_request(req);
    encode_frame(body.as_str().as_bytes())
}

/// What one scan of the receive buffer produced.
#[derive(Debug)]
pub enum ReadOutcome {
    /// More bytes are needed.
    NeedMore,
    /// One message was decoded; the first `consumed` bytes of the
    /// buffer belonged to its frame and are done with.
    Message { resp: Response, consumed: usize },
    /// The stream is corrupt; the reader gives up on it.
    Corrupt(Error),
}

/// Copies `buf[from..from + n]` out.
fn copy_range(buf: &Vec<u8>, from: usize, n: usize) -> (r: Vec<u8>)
    requires
        from + n <= buf@.len(),
    ensures
        r@ == buf@.subrange(from as int, from + n),
{
    let blen = buf.len();
    proof {
        assert(buf@.len() <= usize::MAX);
    }
    let mut out: Vec<u8> = Vec::new();
    let mut i: usize = 0;
    while i < n
        invariant
            0 <= i <= n,
            from + n <= buf@.len(),
            buf@.len() <= usize::MAX,
            out@ == buf@.subrange(from as int, from + i),
        decreases n - i,
    {
        out.push(buf[from + i]);
        proof {
            assert(out@ =~= buf@.subrange(from as int, from + i + 1));
        }
        i = i + 1;
    }
    out
}

/// Reads the next message out of a receive buffer: the framing is
/// checked against `scan_spec`; a complete body is parsed and decoded
/// as a response exactly when it is valid JSON of the right shape,
/// with a `JsonParse` or `InvalidJsonRpc` error otherwise.  The
/// caller drains `consumed` bytes on success and treats `Corrupt` as
/// a read error.
pub fn read_message(buf: &Vec<u8>) -> (r: ReadOutcome)
    ensures
        scan_spec(buf@, 0, Option::None) == HeaderScan::NeedMore ==> r is NeedMore,
        scan_spec(buf@, 0, Option::None) matches HeaderScan::Frame { body_start, body_len } ==> ({
            let body = buf@.subrange(body_start, body_start + body_len);
            &&& (r matches ReadOutcome::Message { resp, consumed } ==> consumed == body_start
                + body_len && (json_doc(body) matches Some(v) && wf_response_doc(v)
                && response_matches_doc(resp, v)))
            &&& (r matches ReadOutcome::Corrupt(e) ==> (e matches Error::Protocol(pe) && (pe
                is JsonParse || pe is InvalidJsonRpc)))
            &&& (json_doc(body) is None ==> (r matches ReadOutcome::Corrupt(e2) && e2 matches
                Error::Protocol(pe2) && pe2 is JsonParse))
            &&& (json_doc(body) matches Some(v3) ==> (wf_response_doc(v3) ==> r is Message))
            &&& (r is Message || r is Corrupt)
        }),
        scan_spec(buf@, 0, Option::None) == HeaderScan::NoLength ==> (r matches
            ReadOutcome::Corrupt(e) && e == Error::Protocol(ProtocolError::MissingContentLength)),
        scan_spec(buf@, 0, Option::None) == HeaderScan::BadLength ==> (r matches
            ReadOutcome::Corrupt(e) && e matches Error::Protocol(ProtocolError::InvalidJsonRpc(m))
            && m@ == "invalid Content-Length value"@),
{
    let blen = buf.len();
    proof {
        assert(buf@.len() <= usize::MAX);
    }
    match scan_frame(buf) {
        FrameScan::NeedMore => ReadOutcome::NeedMore,
        FrameScan::Malformed(e) => ReadOutcome::Corrupt(Error::Protocol(e)),
        FrameScan::Frame { body_start, body_len } => {
            let body = copy_range(buf, body_start, body_len);
            match parse_response(body.as_slice()) {
                Ok(resp) => ReadOutcome::Message { resp, consumed: body_start + body_len },
                Err(e) => ReadOutcome::Corrupt(Error::Protocol(e)),
            }
        },
    }
}

} // verus!

verus! {

proof fn lemma_dec_bytes_digits(n: nat)
    ensures
        all_digits(dec_bytes(n)),
        dec_bytes(n).len() >= 1,
    decreases n,
{
    if n >= 10 {
        lemma_dec_bytes_digits(n / 10);
        let d = dec_bytes(n / 10);
        let s = dec_bytes(n);
        assert forall|k: int| 0 <= k < s.len() implies is_digit_b(#[trigger] s[k]) by {
            if k < d.len() {
                assert(s[k] == d[k]);
            } else {
                assert(s[k] == (0x30 + n % 10) as u8);
            }
        }
    }
}

proof fn lemma_dec_val_of_dec_bytes(n: nat)
    ensures
        dec_val(dec_bytes(n)) == n,
    decreases n,
{
    if n < 10 {
        let s = dec_bytes(n);
        assert(s.len() == 1);
        assert(s.last() == (0x30 + n) as u8);
        assert(s.drop_last() =~= Seq::<u8>::empty());
        assert(dec_val(s.drop_last()) == 0);
        assert(dec_val(s) == (0x30 + n) as u8 - 0x30);
    } else {
        lemma_dec_val_of_dec_bytes(n / 10);
        assert(dec_bytes(n).drop_last() =~= dec_bytes(n / 10));
        assert(dec_bytes(n).last() == (0x30 + n % 10) as u8);
        assert(dec_val(dec_bytes(n)) == dec_val(dec_bytes(n / 10)) * 10 + ((0x30 + n % 10) as u8
            - 0x30));
    }
}

/// The first hit determines the find.
proof fn lemma_find_byte_at(s: Seq<u8>, pos: int, b: u8, p: int)
    requires
        0 <= pos <= p < s.len(),
        s[p] == b,
        forall|k: int| pos <= k < p ==> s[k] != b,
    ensures
        find_byte(s, pos, b) == p,
    decreases p - pos,
{
    if pos < p {
        lemma_find_byte_at(s, pos + 1, b, p);
    }
}

/// Scanning what the encoder produced finds exactly the encoded
/// body: frames round-trip through the codec's framing layer.
pub proof fn lemma_frame_round_trip(body: Seq<u8>)
    requires
        body.len() <= usize::MAX,
    ensures
        ({
            let f = frame_spec(body);
            let hdr = f.len() - body.len();
            &&& scan_spec(f, 0, Option::None) == (HeaderScan::Frame {
                body_start: hdr as int,
                body_len: body.len() as int,
            })
            &&& f.subrange(hdr as int, f.len() as int) == body
        }),
{
    reveal_strlit("Content-Length: ");
    reveal_strlit("\r\n\r\n");
    broadcast use vstd::string::is_ascii_spec_bytes;

    let p = cl_prefix();
    let crlf = "\r\n\r\n".spec_bytes();
    assert(vstd::string::is_ascii("Content-Length: "));
    assert(vstd::string::is_ascii("\r\n\r\n"));
    assert(p.len() == 16);
    assert(forall|k: int| 0 <= k < 16 ==> #[trigger] p[k] != 0x0A);
    assert(p[0] == 0x43);
    assert(crlf.len() == 4);
    assert(crlf[0] == 0x0D && crlf[1] == 0x0A && crlf[2] == 0x0D && crlf[3] == 0x0A);

    let ln = body.len() as nat;
    let d = dec_bytes(ln);
    let kd = d.len() as int;
    lemma_dec_bytes_digits(ln);
    lemma_dec_val_of_dec_bytes(ln);

    let f = frame_spec(body);
    assert(f == p + d + crlf + body);
    assert(f.len() == 20 + kd + body.len());
    assert(forall|k: int| 0 <= k < 16 ==> #[trigger] f[k] == p[k]);
    assert(forall|k: int| 16 <= k < 16 + kd ==> #[trigger] f[k] == d[k - 16]);
    assert(f[16 + kd] == 0x0D && f[16 + kd + 1] == 0x0A);
    assert(f[16 + kd + 2] == 0x0D && f[16 + kd + 3] == 0x0A);
    assert(forall|k: int|
        16 + kd + 4 <= k < f.len() ==> #[trigger] f[k] == body[k - (16 + kd + 4)]);

    // the first line runs to the newline after the carriage return
    let nl1 = 16 + kd + 1;
    assert forall|k: int| 0 <= k < nl1 implies #[trigger] f[k] != 0x0A by {
        if k < 16 {
            assert(f[k] == p[k]);
        } else if k < 16 + kd {
            assert(is_digit_b(d[k - 16]));
        } else {
            assert(f[k] == 0x0D);
        }
    }
    lemma_find_byte_at(f, 0, 0x0A, nl1);

    // the first line, trimmed, is the length header itself
    let line_raw = f.subrange(0, nl1);
    assert(line_raw.len() == 17 + kd);
    assert(first_non_ws_b(line_raw, 0) == 0) by {
        assert(line_raw[0] == 0x43);
    }
    assert(last_non_ws_end_b(line_raw, 17 + kd) == 16 + kd) by {
        assert(is_ws_b(line_raw[16 + kd]));
        assert(line_raw[16 + kd - 1] == d[kd - 1]);
        assert(is_digit_b(d[kd - 1]));
        assert(!is_ws_b(line_raw[16 + kd - 1]));
        assert(last_non_ws_end_b(line_raw, 17 + kd) == last_non_ws_end_b(line_raw, 16 + kd));
        assert(last_non_ws_end_b(line_raw, 16 + kd) == 16 + kd);
    }
    let line = trim_b(line_raw);
    assert(line =~= p + d);
    assert(line.len() == 16 + kd);
    assert(starts_with_b(line, cl_prefix())) by {
        assert(line.subrange(0, 16) =~= p);
    }
    assert(line.skip(16) =~= d);
    assert(parse_len(d) == Some(body.len() as int));

    // the second line is the blank one that ends the headers
    let pos2 = 16 + kd + 2;
    assert(f[pos2] == 0x0D && f[pos2] != 0x0A);
    assert(f[pos2 + 1] == 0x0A);
    lemma_find_byte_at(f, pos2, 0x0A, pos2 + 1);
    let line2_raw = f.subrange(pos2, pos2 + 1);
    assert(line2_raw.len() == 1);
    assert(is_ws_b(line2_raw[0]));
    assert(first_non_ws_b(line2_raw, 0) == first_non_ws_b(line2_raw, 1));
    assert(first_non_ws_b(line2_raw, 1) == 1);
    assert(last_non_ws_end_b(line2_raw, 1) == last_non_ws_end_b(line2_raw, 0));
    assert(last_non_ws_end_b(line2_raw, 0) == 0);
    assert(trim_b(line2_raw).len() == 0);

    // the body is complete: the scan reports exactly it
    assert(pos2 + 1 + 1 + body.len() == f.len());
    assert(scan_spec(f, pos2, Option::Some(body.len() as int)) == (HeaderScan::Frame {
        body_start: 16 + kd + 4,
        body_len: body.len() as int,
    }));
    assert(scan_spec(f, 0, Option::None) == scan_spec(f, pos2, Option::Some(body.len() as int)));
    assert(f.subrange(16 + kd + 4, f.len() as int) =~= body);
}

} // verus!
