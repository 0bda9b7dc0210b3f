//! Framing of a streamed response body: each chunk is split into lines, and
//! every line that holds a `{` yields the text from its first `{` onwards as
//! one JSON payload.
use vstd::prelude::*;
use vstd::utf8::{decode_utf8, valid_utf8};

verus! {

pub const NEWLINE: u8 = 0x0a;

pub const OPEN_BRACE: u8 = 0x7b;

/// The lines of a byte sequence: the pieces between newline bytes, in order.
/// A sequence with `k` newlines has `k + 1` lines; the last may be empty.
pub open spec fn split_lines(s: Seq<u8>) -> Seq<Seq<u8>>
    decreases s.len(),
{
    if s.len() == 0 {
        seq![Seq::empty()]
    } else {
        let prev = split_lines(s.drop_last());
        if s.last() == NEWLINE {
            prev.push(Seq::empty())
        } else {
            prev.update(prev.len() - 1, prev.last().push(s.last()))
        }
    }
}

/// The part of a line from its first `{` to its end, if it holds one.
pub open spec fn brace_tail(line: Seq<u8>) -> Option<Seq<u8>>
    decreases line.len(),
{
    if line.len() == 0 {
        None
    } else if line[0] == OPEN_BRACE {
        Some(line)
    } else {
        brace_tail(line.drop_first())
    }
}

/// The payloads that a sequence of lines yields, one per line holding a `{`.
pub open spec fn line_payloads(lines: Seq<Seq<u8>>) -> Seq<Seq<u8>>
    decreases lines.len(),
{
    if lines.len() == 0 {
        Seq::empty()
    } else {
        line_payloads(lines.drop_last()) + match brace_tail(lines.last()) {
            Some(t) => seq![t],
            None => Seq::empty(),
        }
    }
}

/// The payload bytes of one chunk.
pub open spec fn chunk_payload_bytes(chunk: Seq<u8>) -> Seq<Seq<u8>> {
    line_payloads(split_lines(chunk))
}

pub proof fn lemma_split_lines_nonempty(s: Seq<u8>)
    ensures
        split_lines(s).len() >= 1,
    decreases s.len(),
{
    if s.len() > 0 {
        lemma_split_lines_nonempty(s.drop_last());
    }
}

/// Where a line grows by one byte, its brace tail grows with it, or starts at
/// that byte if it is the first `{`.
pub proof fn lemma_brace_tail_push(line: Seq<u8>, b: u8)
    ensures
        brace_tail(line.push(b)) == match brace_tail(line) {
            Some(t) => Some(t.push(b)),
            None => if b == OPEN_BRACE {
                Some(seq![b])
            } else {
                None
            },
        },
    decreases line.len(),
{
    let longer = line.push(b);
    if line.len() == 0 {
        assert(longer =~= seq![b]);
        assert(longer.drop_first() =~= Seq::<u8>::empty());
        assert(brace_tail(Seq::<u8>::empty()) is None);
        if b == OPEN_BRACE {
            assert(brace_tail(longer) == Some(longer));
        } else {
            assert(brace_tail(longer) == brace_tail(longer.drop_first()));
        }
    } else {
        assert(longer[0] == line[0]);
        assert(longer.len() > 0);
        if line[0] == OPEN_BRACE {
            assert(brace_tail(line) == Some(line));
            assert(brace_tail(longer) == Some(longer));
        } else {
            assert(longer.drop_first() =~= line.drop_first().push(b));
            lemma_brace_tail_push(line.drop_first(), b);
            assert(brace_tail(line) == brace_tail(line.drop_first()));
            assert(brace_tail(longer) == brace_tail(longer.drop_first()));
        }
    }
}

/// Unicode `White_Space`, the characters that `str::trim` removes.
pub open spec fn is_white_space(c: char) -> bool {
    ('\u{9}' <= c && c <= '\u{d}') || c == ' ' || c == '\u{85}' || c == '\u{a0}'
        || c == '\u{1680}' || ('\u{2000}' <= c && c <= '\u{200a}') || c == '\u{2028}'
        || c == '\u{2029}' || c == '\u{202f}' || c == '\u{205f}' || c == '\u{3000}'
}

pub open spec fn trim_start(s: Seq<char>) -> Seq<char>
    decreases s.len(),
{
    if s.len() > 0 && is_white_space(s[0]) {
        trim_start(s.drop_first())
    } else {
        s
    }
}

pub open spec fn trim_end(s: Seq<char>) -> Seq<char>
    decreases s.len(),
{
    if s.len() > 0 && is_white_space(s.last()) {
        trim_end(s.drop_last())
    } else {
        s
    }
}

/// What `String::from_utf8_lossy` makes of a byte sequence: the text it
/// encodes, with each ill-formed part replaced by U+FFFD.
pub uninterp spec fn lossy_text(b: Seq<u8>) -> Seq<char>;

/// The ASCII bytes of Unicode `White_Space`: tab, line feed, vertical tab,
/// form feed, carriage return and space.
pub open spec fn is_ascii_white_space(b: u8) -> bool {
    (9 <= b && b <= 13) || b == 32
}

/// The bytes with their trailing ASCII white space taken off.
pub open spec fn trim_ascii_end(s: Seq<u8>) -> Seq<u8>
    decreases s.len(),
{
    if s.len() > 0 && is_ascii_white_space(s.last()) {
        trim_ascii_end(s.drop_last())
    } else {
        s
    }
}

/// The text handed to the JSON parser for one payload: its bytes up to the
/// last one that is not ASCII white space, decoded, with any white space left
/// at either end taken off. The result is the payload's decoded text trimmed,
/// as ASCII bytes never take part in a replaced sequence.
pub open spec fn payload_text(p: Seq<u8>) -> Seq<char> {
    trim_end(trim_start(lossy_text(trim_ascii_end(p))))
}

/// The payload texts of one chunk, in the order of their lines.
pub open spec fn chunk_payload_texts(chunk: Seq<u8>) -> Seq<Seq<char>> {
    chunk_payload_bytes(chunk).map_values(|p: Seq<u8>| payload_text(p))
}

/// Relies on `String::from_utf8_lossy`: the decoded text depends on the bytes
/// alone, and valid UTF-8 comes back as the text it encodes.
#[verifier::external_body]
fn decode_lossy(b: &[u8]) -> (r: String)
    ensures
        r@ == lossy_text(b@),
        valid_utf8(b@) ==> r@ == decode_utf8(b@),
{
    String::from_utf8_lossy(b).into_owned()
}

/// Relies on `str::trim`: leading and trailing `White_Space` removed.
#[verifier::external_body]
fn trim_white_space(s: &str) -> (r: String)
    ensures
        r@ == trim_end(trim_start(s@)),
{
    s.trim().to_string()
}

fn is_ascii_white_space_byte(b: u8) -> (r: bool)
    ensures
        r == is_ascii_white_space(b),
{
    (9 <= b && b <= 13) || b == 32
}

fn payload_string(p: &[u8]) -> (r: String)
    ensures
        r@ == payload_text(p@),
{
    let mut e: usize = p.len();
    proof {
        assert(p@.subrange(0, e as int) =~= p@);
    }
    while e > 0 && is_ascii_white_space_byte(p[e - 1])
        invariant
            e <= p@.len(),
            trim_ascii_end(p@) == trim_ascii_end(p@.subrange(0, e as int)),
        decreases e,
    {
        assert(p@.subrange(0, e - 1) =~= p@.subrange(0, e as int).drop_last());
        e = e - 1;
    }
    let text = decode_lossy(&p[0..e]);
    trim_white_space(text.as_str())
}

/// Splits a chunk into lines and returns, for each line that holds a `{`,
/// the text from the first `{` to the end of the line, trimmed. Lines without
/// a `{` (empty lines, keep-alive comments, other framing) yield nothing.
///
/// A newline or `{` byte is never part of an ill-formed UTF-8 sequence, so
/// splitting the bytes and decoding each payload gives the same texts as
/// decoding the chunk first.
pub fn chunk_payloads(chunk: &[u8]) -> (r: Vec<String>)
    ensures
        r@.len() == chunk_payload_texts(chunk@).len(),
        forall|j: int| 0 <= j < r@.len() ==> #[trigger] r@[j]@ == chunk_payload_texts(chunk@)[j],
{
    let mut out: Vec<String> = Vec::new();
    let mut start: usize = 0;
    let mut brace: Option<usize> = None;
    let mut i: usize = 0;
    let ghost mut done: Seq<Seq<u8>> = Seq::empty();
    proof {
        assert(chunk@.subrange(0, 0) =~= Seq::<u8>::empty());
        assert(done.push(Seq::<u8>::empty()) =~= seq![Seq::<u8>::empty()]);
    }
    while i < chunk.len()
        invariant
            0 <= start <= i <= chunk@.len(),
            split_lines(chunk@.subrange(0, i as int)) == done.push(chunk@.subrange(start as int, i as int)),
            out@.len() == line_payloads(done).len(),
            forall|j: int| 0 <= j < out@.len() ==> #[trigger] out@[j]@ == payload_text(line_payloads(done)[j]),
            match brace {
                Some(k) => start <= k < i && brace_tail(chunk@.subrange(start as int, i as int))
                    == Some(chunk@.subrange(k as int, i as int)),
                None => brace_tail(chunk@.subrange(start as int, i as int)) is None,
            },
        decreases chunk@.len() - i,
    {
        let b = chunk[i];
        proof {
            let cur = chunk@.subrange(start as int, i as int);
            assert(chunk@.subrange(0, i + 1).drop_last() =~= chunk@.subrange(0, i as int));
            assert(chunk@.subrange(start as int, i + 1) =~= cur.push(b));
            lemma_brace_tail_push(cur, b);
            if brace is Some {
                assert(chunk@.subrange(brace->0 as int, i + 1) =~= chunk@.subrange(brace->0 as int, i as int).push(b));
            }
        }
        if b == NEWLINE {
            let ghost cur = chunk@.subrange(start as int, i as int);
            if let Some(k) = brace {
                let text = payload_string(&chunk[k..i]);
                out.push(text);
            }
            proof {
                assert(done.push(cur).drop_last() =~= done);
                assert(line_payloads(done.push(cur)) == line_payloads(done) + match brace_tail(cur) {
                    Some(t) => seq![t],
                    None => Seq::empty(),
                });
                done = done.push(cur);
                assert(chunk@.subrange(i + 1, i + 1) =~= Seq::<u8>::empty());
            }
            start = i + 1;
            brace = None;
        } else if brace.is_none() && b == OPEN_BRACE {
            brace = Some(i);
            proof {
                assert(chunk@.subrange(i as int, i + 1) =~= seq![b]);
                assert(done.push(chunk@.subrange(start as int, i as int)).update(done.len() as int, chunk@.subrange(start as int, i + 1)) =~= done.push(chunk@.subrange(start as int, i + 1)));
            }
        } else {
            proof {
                assert(done.push(chunk@.subrange(start as int, i as int)).update(done.len() as int, chunk@.subrange(start as int, i + 1)) =~= done.push(chunk@.subrange(start as int, i + 1)));
            }
        }
        i = i + 1;
    }
    let ghost cur = chunk@.subrange(start as int, i as int);
    if let Some(k) = brace {
        let text = payload_string(&chunk[k..i]);
        out.push(text);
    }
    proof {
        assert(chunk@.subrange(0, i as int) =~= chunk@);
        assert(done.push(cur).drop_last() =~= done);
    }
    out
}

/// Every byte of the line is ASCII white space (so is an empty line).
pub open spec fn all_ascii_white_space(line: Seq<u8>) -> bool {
    forall|i: int| 0 <= i < line.len() ==> is_ascii_white_space(#[trigger] line[i])
}

/// The chunk boundary between `a` and `b` cuts no line that carries a
/// payload inside the payload's text: the part of `a` after its last newline
/// holds no `{`, or the part of `b` before its first newline is white space
/// (empty where `b` starts a new line).
pub open spec fn cuts_no_payload(a: Seq<u8>, b: Seq<u8>) -> bool {
    brace_tail(split_lines(a).last()) is None || all_ascii_white_space(split_lines(b)[0])
}

pub proof fn lemma_line_payloads_concat(x: Seq<Seq<u8>>, y: Seq<Seq<u8>>)
    ensures
        line_payloads(x + y) == line_payloads(x) + line_payloads(y),
    decreases y.len(),
{
    if y.len() == 0 {
        assert(x + y =~= x);
        assert(line_payloads(x) + line_payloads(y) =~= line_payloads(x));
    } else {
        assert((x + y).drop_last() =~= x + y.drop_last());
        lemma_line_payloads_concat(x, y.drop_last());
        assert((x + y).last() == y.last());
        assert(line_payloads(x + y) =~= line_payloads(x) + line_payloads(y));
    }
}

pub proof fn lemma_split_lines_concat(a: Seq<u8>, b: Seq<u8>)
    ensures
        split_lines(a + b) == split_lines(a).drop_last() + seq![
            split_lines(a).last() + split_lines(b)[0],
        ] + split_lines(b).drop_first(),
    decreases b.len(),
{
    let sa = split_lines(a);
    lemma_split_lines_nonempty(a);
    lemma_split_lines_nonempty(b);
    if b.len() == 0 {
        assert(a + b =~= a);
        assert(sa.last() + Seq::<u8>::empty() =~= sa.last());
        assert(sa.drop_last() + seq![sa.last()] =~= sa);
        assert(split_lines(b).drop_first() =~= Seq::<Seq<u8>>::empty());
        assert(sa.drop_last() + seq![sa.last() + split_lines(b)[0]] + split_lines(b).drop_first()
            =~= sa);
    } else {
        let b0 = b.drop_last();
        let x = b.last();
        lemma_split_lines_nonempty(b0);
        lemma_split_lines_concat(a, b0);
        assert((a + b).drop_last() =~= a + b0);
        assert((a + b).last() == x);
        let sb0 = split_lines(b0);
        let prev = split_lines(a + b0);
        if x == NEWLINE {
            assert(split_lines(b).drop_first() =~= sb0.drop_first().push(Seq::<u8>::empty()));
            assert(split_lines(a + b) =~= sa.drop_last() + seq![sa.last() + split_lines(b)[0]]
                + split_lines(b).drop_first());
        } else if sb0.len() == 1 {
            assert(split_lines(b) =~= seq![sb0[0].push(x)]);
            assert(split_lines(b).drop_first() =~= Seq::<Seq<u8>>::empty());
            assert(sa.last() + sb0[0].push(x) =~= (sa.last() + sb0[0]).push(x));
            assert(split_lines(a + b) =~= sa.drop_last() + seq![sa.last() + split_lines(b)[0]]
                + split_lines(b).drop_first());
        } else {
            assert(split_lines(b).drop_first() =~= sb0.drop_first().update(
                sb0.len() - 2,
                sb0.last().push(x),
            ));
            assert(split_lines(a + b) =~= sa.drop_last() + seq![sa.last() + split_lines(b)[0]]
                + split_lines(b).drop_first());
        }
    }
}

pub proof fn lemma_brace_tail_skip(x: Seq<u8>, y: Seq<u8>)
    requires
        brace_tail(x) is None,
    ensures
        brace_tail(x + y) == brace_tail(y),
    decreases x.len(),
{
    if x.len() == 0 {
        assert(x + y =~= y);
    } else {
        assert((x + y).drop_first() =~= x.drop_first() + y);
        lemma_brace_tail_skip(x.drop_first(), y);
    }
}

pub proof fn lemma_brace_tail_none_iff(line: Seq<u8>)
    ensures
        brace_tail(line) is None <==> !line.contains(OPEN_BRACE),
    decreases line.len(),
{
    if line.len() > 0 {
        lemma_brace_tail_none_iff(line.drop_first());
        if line.drop_first().contains(OPEN_BRACE) {
            let i = choose|i: int| 0 <= i < line.drop_first().len() && line.drop_first()[i] == OPEN_BRACE;
            assert(line[i + 1] == OPEN_BRACE);
        }
        if line.contains(OPEN_BRACE) && line[0] != OPEN_BRACE {
            let i = choose|i: int| 0 <= i < line.len() && line[i] == OPEN_BRACE;
            assert(line.drop_first()[i - 1] == OPEN_BRACE);
        }
        if line[0] == OPEN_BRACE {
            assert(line.contains(OPEN_BRACE));
        }
    }
}

pub proof fn lemma_payload_bytes_concat(a: Seq<u8>, b: Seq<u8>)
    requires
        brace_tail(split_lines(a).last()) is None || split_lines(b)[0].len() == 0,
    ensures
        chunk_payload_bytes(a + b) == chunk_payload_bytes(a) + chunk_payload_bytes(b),
{
    let sa = split_lines(a);
    let sb = split_lines(b);
    lemma_split_lines_nonempty(a);
    lemma_split_lines_nonempty(b);
    lemma_split_lines_concat(a, b);
    let joined = sa.last() + sb[0];
    lemma_line_payloads_concat(sa.drop_last() + seq![joined], sb.drop_first());
    lemma_line_payloads_concat(sa.drop_last(), seq![joined]);
    lemma_line_payloads_concat(sa.drop_last(), seq![sa.last()]);
    assert(sa.drop_last() + seq![sa.last()] =~= sa);
    lemma_line_payloads_concat(seq![sb[0]], sb.drop_first());
    assert(seq![sb[0]] + sb.drop_first() =~= sb);
    assert(seq![joined].drop_last() =~= Seq::<Seq<u8>>::empty());
    assert(seq![sa.last()].drop_last() =~= Seq::<Seq<u8>>::empty());
    assert(seq![sb[0]].drop_last() =~= Seq::<Seq<u8>>::empty());
    if brace_tail(sa.last()) is None {
        lemma_brace_tail_skip(sa.last(), sb[0]);
    } else {
        assert(joined =~= sa.last());
        assert(brace_tail(sb[0]) is None);
    }
    assert(chunk_payload_bytes(a + b) =~= chunk_payload_bytes(a) + chunk_payload_bytes(b));
}

pub proof fn lemma_brace_tail_extend(x: Seq<u8>, y: Seq<u8>)
    requires
        brace_tail(x) is Some,
    ensures
        brace_tail(x + y) == Some(brace_tail(x)->0 + y),
    decreases x.len(),
{
    assert((x + y)[0] == x[0]);
    if x[0] != OPEN_BRACE {
        assert((x + y).drop_first() =~= x.drop_first() + y);
        lemma_brace_tail_extend(x.drop_first(), y);
    }
}

pub proof fn lemma_trim_ascii_end_white_space(t: Seq<u8>, w: Seq<u8>)
    requires
        all_ascii_white_space(w),
    ensures
        trim_ascii_end(t + w) == trim_ascii_end(t),
    decreases w.len(),
{
    if w.len() == 0 {
        assert(t + w =~= t);
    } else {
        assert(is_ascii_white_space(w[w.len() - 1]));
        assert((t + w).drop_last() =~= t + w.drop_last());
        assert((t + w).last() == w.last());
        lemma_trim_ascii_end_white_space(t, w.drop_last());
    }
}

/// Where the boundary falls in the white space at the end of a payload line,
/// the payload from `a` grows by that white space, and `b` adds nothing more.
pub proof fn lemma_payload_bytes_concat_white_space(a: Seq<u8>, b: Seq<u8>)
    requires
        brace_tail(split_lines(a).last()) is Some,
        all_ascii_white_space(split_lines(b)[0]),
    ensures
        chunk_payload_bytes(a).len() > 0,
        chunk_payload_bytes(a + b) == chunk_payload_bytes(a).drop_last() + seq![
            chunk_payload_bytes(a).last() + split_lines(b)[0],
        ] + chunk_payload_bytes(b),
{
    let sa = split_lines(a);
    let sb = split_lines(b);
    lemma_split_lines_nonempty(a);
    lemma_split_lines_nonempty(b);
    lemma_split_lines_concat(a, b);
    let w = sb[0];
    let t = brace_tail(sa.last())->0;
    let joined = sa.last() + w;
    lemma_brace_tail_extend(sa.last(), w);
    if w.contains(OPEN_BRACE) {
        let i = choose|i: int| 0 <= i < w.len() && w[i] == OPEN_BRACE;
        assert(is_ascii_white_space(w[i]));
    }
    lemma_brace_tail_none_iff(w);
    lemma_line_payloads_concat(sa.drop_last() + seq![joined], sb.drop_first());
    lemma_line_payloads_concat(sa.drop_last(), seq![joined]);
    lemma_line_payloads_concat(sa.drop_last(), seq![sa.last()]);
    assert(sa.drop_last() + seq![sa.last()] =~= sa);
    lemma_line_payloads_concat(seq![w], sb.drop_first());
    assert(seq![w] + sb.drop_first() =~= sb);
    lemma_line_payloads_single(joined);
    lemma_line_payloads_single(sa.last());
    lemma_line_payloads_single(w);
    let pre = line_payloads(sa.drop_last());
    assert(chunk_payload_bytes(a) =~= pre + seq![t]);
    assert(chunk_payload_bytes(a).drop_last() =~= pre);
    assert(chunk_payload_bytes(b) =~= line_payloads(sb.drop_first()));
    assert(chunk_payload_bytes(a + b) =~= chunk_payload_bytes(a).drop_last() + seq![
        chunk_payload_bytes(a).last() + w,
    ] + chunk_payload_bytes(b));
}

/// Chunking does not change the payloads: where the boundary between two
/// chunks falls outside the text of every payload (outside payload lines, or
/// in the white space at the end of one), decoding the two chunks one after
/// the other gives the same payload texts, in the same order, as decoding
/// their concatenation.
pub proof fn law_chunking_invariance(a: Seq<u8>, b: Seq<u8>)
    requires
        cuts_no_payload(a, b),
    ensures
        chunk_payload_texts(a + b) == chunk_payload_texts(a) + chunk_payload_texts(b),
{
    lemma_split_lines_nonempty(b);
    if brace_tail(split_lines(a).last()) is None {
        lemma_payload_bytes_concat(a, b);
    } else {
        let w = split_lines(b)[0];
        lemma_payload_bytes_concat_white_space(a, b);
        let pa = chunk_payload_bytes(a);
        lemma_trim_ascii_end_white_space(pa.last(), w);
        assert(payload_text(pa.last() + w) == payload_text(pa.last()));
        assert(pa.drop_last() + seq![pa.last()] =~= pa);
    }
    assert(chunk_payload_texts(a + b) =~= chunk_payload_texts(a) + chunk_payload_texts(b));
}

pub proof fn lemma_split_single_line(line: Seq<u8>)
    requires
        !line.contains(NEWLINE),
    ensures
        split_lines(line) == seq![line],
        split_lines(line.push(NEWLINE)) == seq![line, Seq::<u8>::empty()],
    decreases line.len(),
{
    if line.len() == 0 {
        assert(line =~= Seq::<u8>::empty());
    } else {
        let init = line.drop_last();
        if init.contains(NEWLINE) {
            let i = choose|i: int| 0 <= i < init.len() && init[i] == NEWLINE;
            assert(line[i] == NEWLINE);
        }
        if line.last() == NEWLINE {
            assert(line[line.len() - 1] == NEWLINE);
        }
        lemma_split_single_line(init);
        assert(init.push(line.last()) =~= line);
        assert(split_lines(init) == seq![init]);
        assert(split_lines(line) == seq![init].update(0, init.push(line.last())));
        assert(seq![init].update(0, line) =~= seq![line]);
    }
    let whole = line.push(NEWLINE);
    assert(whole.drop_last() =~= line);
    assert(whole.last() == NEWLINE);
    assert(split_lines(whole) == split_lines(line).push(Seq::<u8>::empty()));
    assert(seq![line].push(Seq::<u8>::empty()) =~= seq![line, Seq::<u8>::empty()]);
}

pub proof fn lemma_line_payloads_single(line: Seq<u8>)
    ensures
        line_payloads(seq![line]) == match brace_tail(line) {
            Some(t) => seq![t],
            None => Seq::<Seq<u8>>::empty(),
        },
{
    let one = seq![line];
    assert(one.drop_last() =~= Seq::<Seq<u8>>::empty());
    assert(one.last() == line);
    assert(line_payloads(Seq::<Seq<u8>>::empty()) == Seq::<Seq<u8>>::empty());
    match brace_tail(line) {
        Some(t) => {
            assert(Seq::<Seq<u8>>::empty() + seq![t] =~= seq![t]);
        },
        None => {
            assert(Seq::<Seq<u8>>::empty() + Seq::<Seq<u8>>::empty() =~= Seq::<Seq<u8>>::empty());
        },
    }
}

/// A whole line inside a chunk contributes its own payload, if it has one,
/// and leaves the payloads of the lines around it as they are.
pub proof fn lemma_line_isolated(before: Seq<u8>, line: Seq<u8>, after: Seq<u8>)
    requires
        before.len() == 0 || before.last() == NEWLINE,
        !line.contains(NEWLINE),
    ensures
        chunk_payload_bytes(before + line.push(NEWLINE) + after) == chunk_payload_bytes(before)
            + line_payloads(seq![line]) + chunk_payload_bytes(after),
{
    let whole = line.push(NEWLINE);
    lemma_split_single_line(line);
    lemma_split_lines_nonempty(before);
    lemma_split_lines_nonempty(after);
    if before.len() > 0 {
        assert(split_lines(before).last() == Seq::<u8>::empty());
    }
    lemma_payload_bytes_concat(whole, after);
    lemma_payload_bytes_concat(before, whole + after);
    assert(before + whole + after =~= before + (whole + after));
    lemma_line_payloads_concat(seq![line], seq![Seq::<u8>::empty()]);
    assert(seq![line] + seq![Seq::<u8>::empty()] =~= seq![line, Seq::<u8>::empty()]);
    lemma_line_payloads_single(Seq::<u8>::empty());
    assert(chunk_payload_bytes(whole) =~= line_payloads(seq![line]));
    assert(chunk_payload_bytes(before + line.push(NEWLINE) + after) =~= chunk_payload_bytes(before)
        + line_payloads(seq![line]) + chunk_payload_bytes(after));
}

/// A line without a `{` yields no payload and leaves the payloads of the
/// lines around it as they are.
pub proof fn law_line_without_brace_ignored(before: Seq<u8>, line: Seq<u8>, after: Seq<u8>)
    requires
        before.len() == 0 || before.last() == NEWLINE,
        !line.contains(NEWLINE),
        !line.contains(OPEN_BRACE),
    ensures
        chunk_payload_texts(before + line.push(NEWLINE) + after) == chunk_payload_texts(before)
            + chunk_payload_texts(after),
{
    lemma_line_isolated(before, line, after);
    lemma_brace_tail_none_iff(line);
    lemma_line_payloads_single(line);
    assert(chunk_payload_texts(before + line.push(NEWLINE) + after) =~= chunk_payload_texts(before)
        + chunk_payload_texts(after));
}

/// A line that holds a `{` yields exactly one payload, the text from its first
/// `{`, between the payloads of the lines before it and those after it.
pub proof fn law_line_with_brace_isolated(before: Seq<u8>, line: Seq<u8>, after: Seq<u8>)
    requires
        before.len() == 0 || before.last() == NEWLINE,
        !line.contains(NEWLINE),
        line.contains(OPEN_BRACE),
    ensures
        brace_tail(line) is Some,
        chunk_payload_texts(before + line.push(NEWLINE) + after) == chunk_payload_texts(before)
            + seq![payload_text(brace_tail(line)->0)] + chunk_payload_texts(after),
{
    lemma_line_isolated(before, line, after);
    lemma_brace_tail_none_iff(line);
    lemma_line_payloads_single(line);
    assert(chunk_payload_texts(before + line.push(NEWLINE) + after) =~= chunk_payload_texts(before)
        + seq![payload_text(brace_tail(line)->0)] + chunk_payload_texts(after));
}

} // verus!
