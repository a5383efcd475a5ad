//! A pure, incremental Server-Sent Events framer: byte chunks in, the `data:`
//! payload of each completed event out.
//!
//! Only the subset the adapters need: `data:` field lines (an optional single
//! space after the colon) accumulate; an empty line ends an event; every other
//! field line (`event:`, `id:`, `:comment`, ...) is ignored. Lines end at `\n`,
//! with any `\r` before it dropped. A payload joins its data lines with `\n`.
use vstd::prelude::*;
use vstd::utf8::{decode_utf8, valid_utf8};

verus! {

/// What `String::from_utf8_lossy` yields for `bytes`: valid UTF-8 decoded, every
/// maximal invalid subpart replaced by U+FFFD.
pub uninterp spec fn lossy_utf8(bytes: Seq<u8>) -> Seq<char>;

/// Decodes `bytes` as UTF-8, replacing invalid sequences with U+FFFD
/// (`String::from_utf8_lossy`). The result is named `lossy_utf8(bytes)`; on
/// valid UTF-8 it is the plain decoding.
#[verifier::external_body]
fn decode_lossy(bytes: &[u8]) -> (res: String)
    ensures
        res@ == lossy_utf8(bytes@),
        valid_utf8(bytes@) ==> res@ == decode_utf8(bytes@),
{
    String::from_utf8_lossy(bytes).into_owned()
}

/// The text of an event's payload bytes: their plain decoding when they are
/// valid UTF-8, else the lossy decoding.
pub open spec fn payload_text(bytes: Seq<u8>) -> Seq<char> {
    if valid_utf8(bytes) {
        decode_utf8(bytes)
    } else {
        lossy_utf8(bytes)
    }
}

/// `line` with every trailing `\r` removed.
pub open spec fn strip_trailing_cr(line: Seq<u8>) -> Seq<u8>
    decreases line.len(),
{
    if line.len() > 0 && line.last() == 0x0Du8 {
        strip_trailing_cr(line.drop_last())
    } else {
        line
    }
}

/// The field prefix `data:` as bytes.
pub open spec fn data_prefix() -> Seq<u8> {
    seq![0x64u8, 0x61u8, 0x74u8, 0x61u8, 0x3Au8]
}

/// `line` is a `data:` field line.
pub open spec fn is_data_line(line: Seq<u8>) -> bool {
    line.len() >= 5 && line.subrange(0, 5) == data_prefix()
}

/// The value of a `data:` line: what follows the colon, minus one leading space.
pub open spec fn data_value(line: Seq<u8>) -> Seq<u8> {
    let rest = line.subrange(5, line.len() as int);
    if rest.len() > 0 && rest[0] == 0x20u8 {
        rest.subrange(1, rest.len() as int)
    } else {
        rest
    }
}

/// Data lines joined with `\n`.
pub open spec fn join_lines(lines: Seq<Seq<u8>>) -> Seq<u8>
    decreases lines.len(),
{
    if lines.len() == 0 {
        Seq::empty()
    } else if lines.len() == 1 {
        lines[0]
    } else {
        join_lines(lines.drop_last()) + seq![0x0Au8] + lines.last()
    }
}

/// The state of the framer between chunks: the bytes of the unfinished line,
/// and the data lines of the unfinished event.
pub struct SseState {
    pub pending: Seq<u8>,
    pub lines: Seq<Seq<u8>>,
}

/// Applies one line, already stripped of its trailing `\r`s, to the unfinished
/// event lines; returns the new lines and the payload completed by it, if any.
pub open spec fn apply_clean(lines: Seq<Seq<u8>>, line: Seq<u8>) -> (Seq<Seq<u8>>, Option<Seq<char>>) {
    if line.len() == 0 {
        if lines.len() > 0 {
            (Seq::empty(), Some(payload_text(join_lines(lines))))
        } else {
            (lines, None)
        }
    } else if is_data_line(line) {
        (lines.push(data_value(line)), None)
    } else {
        (lines, None)
    }
}

/// Applies one complete line (without its `\n`) to the unfinished event lines.
pub open spec fn apply_line(lines: Seq<Seq<u8>>, raw: Seq<u8>) -> (Seq<Seq<u8>>, Option<Seq<char>>) {
    apply_clean(lines, strip_trailing_cr(raw))
}

/// Index of the first `\n` in `buf`, if any.
pub open spec fn first_newline(buf: Seq<u8>) -> Option<int> {
    if exists|p: int| 0 <= p < buf.len() && buf[p] == 0x0Au8 {
        Some(
            choose|p: int|
                0 <= p < buf.len() && buf[p] == 0x0Au8 && forall|q: int|
                    0 <= q < p ==> buf[q] != 0x0Au8,
        )
    } else {
        None
    }
}

/// Runs the framer over `buf` from `lines`: the bytes left after the last `\n`,
/// the unfinished event lines, and the payloads completed on the way, in order.
#[verifier::opaque]
pub open spec fn run_lines(buf: Seq<u8>, lines: Seq<Seq<u8>>) -> (Seq<u8>, Seq<Seq<u8>>, Seq<
    Seq<char>,
>)
    decreases buf.len(),
{
    match first_newline(buf) {
        None => (buf, lines, Seq::empty()),
        Some(p) => {
            if 0 <= p < buf.len() {
                let (lines1, ev) = apply_line(lines, buf.subrange(0, p));
                let (rest, lines2, evs) = run_lines(buf.subrange(p + 1, buf.len() as int), lines1);
                let evs1 = match ev {
                    Some(e) => seq![e] + evs,
                    None => evs,
                };
                (rest, lines2, evs1)
            } else {
                (buf, lines, Seq::empty())
            }
        },
    }
}

/// Feeding `chunk` in state `st`: the next state and the completed payloads.
pub open spec fn feed_spec(st: SseState, chunk: Seq<u8>) -> (SseState, Seq<Seq<char>>) {
    let (rest, lines, evs) = run_lines(st.pending + chunk, st.lines);
    (SseState { pending: rest, lines }, evs)
}

proof fn lemma_first_newline(buf: Seq<u8>, p: int)
    requires
        0 <= p < buf.len(),
        buf[p] == 0x0Au8,
        forall|q: int| 0 <= q < p ==> buf[q] != 0x0Au8,
    ensures
        first_newline(buf) == Some(p),
{
    let c = choose|c: int|
        0 <= c < buf.len() && buf[c] == 0x0Au8 && forall|q: int| 0 <= q < c ==> buf[q] != 0x0Au8;
    if c < p {
        assert(buf[c] != 0x0Au8);
    }
    if p < c {
        assert(buf[p] != 0x0Au8);
    }
}

proof fn lemma_no_newline(buf: Seq<u8>)
    requires
        forall|q: int| 0 <= q < buf.len() ==> buf[q] != 0x0Au8,
    ensures
        first_newline(buf) == None::<int>,
        forall|lines: Seq<Seq<u8>>| #[trigger] run_lines(buf, lines) == (buf, lines, Seq::<Seq<char>>::empty()),
{
    reveal(run_lines);
}

/// The byte contents of a list of byte vectors.
pub open spec fn lines_view(v: Seq<Vec<u8>>) -> Seq<Seq<u8>> {
    v.map_values(|l: Vec<u8>| l@)
}

/// The character contents of a list of strings.
pub open spec fn strings_view(v: Seq<String>) -> Seq<Seq<char>> {
    v.map_values(|s: String| s@)
}

proof fn lemma_run_step(buf: Seq<u8>, lines: Seq<Seq<u8>>, p: int)
    requires
        0 <= p < buf.len(),
        buf[p] == 0x0Au8,
        forall|q: int| 0 <= q < p ==> buf[q] != 0x0Au8,
    ensures
        run_lines(buf, lines) == ({
            let (lines1, ev) = apply_line(lines, buf.subrange(0, p));
            let (rest, lines2, evs) = run_lines(buf.subrange(p + 1, buf.len() as int), lines1);
            (
                rest,
                lines2,
                match ev {
                    Some(e) => seq![e] + evs,
                    None => evs,
                },
            )
        }),
{
    reveal(run_lines);
    lemma_first_newline(buf, p);
}

proof fn lemma_run_append(x: Seq<u8>, y: Seq<u8>, lines: Seq<Seq<u8>>)
    ensures
        run_lines(x + y, lines) == ({
            let (r1, l1, e1) = run_lines(x, lines);
            let (r2, l2, e2) = run_lines(r1 + y, l1);
            (r2, l2, e1 + e2)
        }),
    decreases x.len(),
{
    if exists|p: int| 0 <= p < x.len() && x[p] == 0x0Au8 {
        let p = choose|p: int|
            0 <= p < x.len() && x[p] == 0x0Au8 && forall|q: int| 0 <= q < p ==> x[q] != 0x0Au8;
        assert(exists|p: int|
            0 <= p < x.len() && x[p] == 0x0Au8 && forall|q: int| 0 <= q < p ==> x[q] != 0x0Au8) by {
            let w = choose|p: int| 0 <= p < x.len() && x[p] == 0x0Au8;
            lemma_first_newline_exists(x, w);
        }
        let xy = x + y;
        lemma_run_step(x, lines, p);
        assert(xy[p] == 0x0Au8);
        assert forall|q: int| 0 <= q < p implies xy[q] != 0x0Au8 by {
            assert(xy[q] == x[q]);
        }
        lemma_run_step(xy, lines, p);
        assert(xy.subrange(0, p) == x.subrange(0, p));
        let l1 = apply_line(lines, x.subrange(0, p)).0;
        let x2 = x.subrange(p + 1, x.len() as int);
        assert(xy.subrange(p + 1, xy.len() as int) == x2 + y);
        lemma_run_append(x2, y, l1);
        let ev = apply_line(lines, x.subrange(0, p)).1;
        let (r1, l2, e1) = run_lines(x2, l1);
        let (r3, l3, e3) = run_lines(r1 + y, l2);
        match ev {
            Some(e) => {
                assert(seq![e] + (e1 + e3) == (seq![e] + e1) + e3);
            },
            None => {},
        }
    } else {
        lemma_no_newline(x);
        assert(run_lines(x, lines) == (x, lines, Seq::<Seq<char>>::empty()));
        assert(Seq::<Seq<char>>::empty() + run_lines(x + y, lines).2 == run_lines(x + y, lines).2);
    }
}

proof fn lemma_first_newline_exists(x: Seq<u8>, w: int)
    requires
        0 <= w < x.len(),
        x[w] == 0x0Au8,
    ensures
        exists|p: int|
            0 <= p < x.len() && x[p] == 0x0Au8 && forall|q: int| 0 <= q < p ==> x[q] != 0x0Au8,
    decreases w,
{
    if exists|q: int| 0 <= q < w && x[q] == 0x0Au8 {
        let q = choose|q: int| 0 <= q < w && x[q] == 0x0Au8;
        lemma_first_newline_exists(x, q);
    } else {
        assert(forall|q: int| 0 <= q < w ==> x[q] != 0x0Au8);
    }
}

/// How a byte stream is cut into chunks does not matter: feeding `a` and then
/// `b` ends in the same state as feeding `a + b` at once, and the payloads of
/// the two calls, in order, are those of the single call.
pub proof fn law_feed_chunking(st: SseState, a: Seq<u8>, b: Seq<u8>)
    ensures
        feed_spec(feed_spec(st, a).0, b).0 == feed_spec(st, a + b).0,
        feed_spec(st, a).1 + feed_spec(feed_spec(st, a).0, b).1 == feed_spec(st, a + b).1,
{
    assert(st.pending + (a + b) == (st.pending + a) + b);
    lemma_run_append(st.pending + a, b, st.lines);
}

/// Incremental SSE line framer. `feed` takes a chunk of bytes and returns the
/// payloads of the events that it completes.
pub struct SseParser {
    buf: Vec<u8>,
    data_lines: Vec<Vec<u8>>,
}

impl View for SseParser {
    type V = SseState;

    closed spec fn view(&self) -> SseState {
        SseState { pending: self.buf@, lines: lines_view(self.data_lines@) }
    }
}

/// `src[from..to]` as a new vector.
fn copy_range(src: &Vec<u8>, from: usize, to: usize) -> (out: Vec<u8>)
    requires
        from <= to <= src@.len(),
    ensures
        out@ == src@.subrange(from as int, to as int),
{
    let mut out: Vec<u8> = Vec::new();
    let mut q = from;
    while q < to
        invariant
            from <= q <= to <= src@.len(),
            out@ == src@.subrange(from as int, q as int),
        decreases to - q,
    {
        out.push(src[q]);
        assert(src@.subrange(from as int, q + 1) == src@.subrange(from as int, q as int).push(
            src@[q as int],
        ));
        q = q + 1;
    }
    out
}

/// The position of the first `\n` at or after `start`, or the length of `buf`.
fn find_newline(buf: &Vec<u8>, start: usize) -> (p: usize)
    requires
        start <= buf@.len(),
    ensures
        start <= p <= buf@.len(),
        forall|q: int| start <= q < p ==> buf@[q] != 0x0Au8,
        p < buf@.len() ==> buf@[p as int] == 0x0Au8,
{
    let mut p = start;
    while p < buf.len() && buf[p] != 0x0Au8
        invariant
            start <= p <= buf@.len(),
            forall|q: int| start <= q < p ==> buf@[q] != 0x0Au8,
        decreases buf@.len() - p,
    {
        p = p + 1;
    }
    p
}

/// The end of `buf[start..p]` once its trailing `\r`s are dropped.
fn trim_cr(buf: &Vec<u8>, start: usize, p: usize) -> (end: usize)
    requires
        start <= p <= buf@.len(),
    ensures
        start <= end <= p,
        strip_trailing_cr(buf@.subrange(start as int, p as int)) == buf@.subrange(
            start as int,
            end as int,
        ),
{
    let mut end = p;
    while end > start && buf[end - 1] == 0x0Du8
        invariant
            start <= end <= p <= buf@.len(),
            strip_trailing_cr(buf@.subrange(start as int, p as int)) == strip_trailing_cr(
                buf@.subrange(start as int, end as int),
            ),
        decreases end - start,
    {
        assert(buf@.subrange(start as int, end - 1) == buf@.subrange(
            start as int,
            end as int,
        ).drop_last());
        end = end - 1;
    }
    end
}

/// Joins data lines with `\n`.
fn join_data(lines: &Vec<Vec<u8>>) -> (out: Vec<u8>)
    ensures
        out@ == join_lines(lines_view(lines@)),
{
    let mut out: Vec<u8> = Vec::new();
    let mut i: usize = 0;
    let ghost lv = lines_view(lines@);
    while i < lines.len()
        invariant
            lv == lines_view(lines@),
            i <= lines@.len(),
            out@ == join_lines(lv.subrange(0, i as int)),
        decreases lines@.len() - i,
    {
        if i > 0 {
            out.push(0x0Au8);
        }
        let line = &lines[i];
        let ghost before = out@;
        let mut j: usize = 0;
        while j < line.len()
            invariant
                j <= line@.len(),
                out@ == before + line@.subrange(0, j as int),
            decreases line@.len() - j,
        {
            out.push(line[j]);
            assert(line@.subrange(0, j + 1) == line@.subrange(0, j as int).push(line@[j as int]));
            j = j + 1;
        }
        assert(line@.subrange(0, line@.len() as int) == line@);
        assert(lv.subrange(0, i + 1).drop_last() == lv.subrange(0, i as int));
        assert(lv.subrange(0, i + 1).last() == line@);
        i = i + 1;
    }
    assert(lv.subrange(0, lines@.len() as int) == lv);
    out
}

/// Applies the clean line `buf[start..end]` to the pending data lines.
fn take_line(lines: &mut Vec<Vec<u8>>, buf: &Vec<u8>, start: usize, end: usize) -> (ev: Option<
    String,
>)
    requires
        start <= end <= buf@.len(),
    ensures
        lines_view(final(lines)@) == apply_clean(
            lines_view(old(lines)@),
            buf@.subrange(start as int, end as int),
        ).0,
        match ev {
            Some(s) => apply_clean(
                lines_view(old(lines)@),
                buf@.subrange(start as int, end as int),
            ).1 == Some(s@),
            None => apply_clean(
                lines_view(old(lines)@),
                buf@.subrange(start as int, end as int),
            ).1 == None::<Seq<char>>,
        },
{
    let ghost line = buf@.subrange(start as int, end as int);
    if end == start {
        if lines.len() > 0 {
            let joined = join_data(lines);
            let payload = decode_lossy(joined.as_slice());
            *lines = Vec::new();
            assert(lines_view(lines@) == Seq::<Seq<u8>>::empty());
            Some(payload)
        } else {
            None
        }
    } else if end - start >= 5 && buf[start] == 0x64u8 && buf[start + 1] == 0x61u8 && buf[start
        + 2] == 0x74u8 && buf[start + 3] == 0x61u8 && buf[start + 4] == 0x3Au8 {
        assert(line.subrange(0, 5) == data_prefix());
        let mut from = start + 5;
        if from < end && buf[from] == 0x20u8 {
            from = from + 1;
        }
        let value = copy_range(buf, from, end);
        assert(value@ == data_value(line));
        let ghost old_lines = lines@;
        lines.push(value);
        assert(lines_view(lines@) == lines_view(old_lines).push(value@));
        None
    } else {
        assert(!is_data_line(line)) by {
            if line.len() >= 5 && line.subrange(0, 5) == data_prefix() {
                assert(line.subrange(0, 5)[0] == buf@[start as int]);
                assert(line.subrange(0, 5)[1] == buf@[start + 1]);
                assert(line.subrange(0, 5)[2] == buf@[start + 2]);
                assert(line.subrange(0, 5)[3] == buf@[start + 3]);
                assert(line.subrange(0, 5)[4] == buf@[start + 4]);
            }
        }
        None
    }
}

impl SseParser {
    /// A framer with no pending bytes and no pending event.
    pub fn new() -> (p: Self)
        ensures
            p@.pending == Seq::<u8>::empty(),
            p@.lines == Seq::<Seq<u8>>::empty(),
    {
        let p = SseParser { buf: Vec::new(), data_lines: Vec::new() };
        assert(lines_view(p.data_lines@) == Seq::<Seq<u8>>::empty());
        p
    }

    /// Feeds a chunk and returns the payloads of the events completed by it
    /// (possibly none), each decoded as UTF-8 (lossily where it is invalid).
    pub fn feed(&mut self, chunk: &[u8]) -> (events: Vec<String>)
        ensures
            final(self)@ == feed_spec(old(self)@, chunk@).0,
            strings_view(events@) == feed_spec(old(self)@, chunk@).1,
    {
        let ghost st0 = self@;
        let mut total = copy_range(&self.buf, 0, self.buf.len());
        assert(self.buf@.subrange(0, self.buf@.len() as int) == self.buf@);
        let mut k: usize = 0;
        while k < chunk.len()
            invariant
                k <= chunk@.len(),
                total@ == st0.pending + chunk@.subrange(0, k as int),
            decreases chunk@.len() - k,
        {
            total.push(chunk[k]);
            assert(chunk@.subrange(0, k + 1) == chunk@.subrange(0, k as int).push(chunk@[k as int]));
            k = k + 1;
        }
        assert(chunk@.subrange(0, chunk@.len() as int) == chunk@);
        let ghost all = total@;
        let mut events: Vec<String> = Vec::new();
        let mut start: usize = 0;
        let n = total.len();
        assert(all.subrange(0, n as int) == all);
        loop
            invariant
                n == total@.len(),
                total@ == all,
                all == st0.pending + chunk@,
                start <= n,
                run_lines(all, st0.lines) == ({
                    let (rest, lines, evs) = run_lines(
                        all.subrange(start as int, n as int),
                        lines_view(self.data_lines@),
                    );
                    (rest, lines, strings_view(events@) + evs)
                }),
            ensures
                start <= n,
                run_lines(all, st0.lines) == (
                    all.subrange(start as int, n as int),
                    lines_view(self.data_lines@),
                    strings_view(events@),
                ),
            decreases n - start,
        {
            let ghost cur = all.subrange(start as int, n as int);
            let ghost ls = lines_view(self.data_lines@);
            let ghost evs0 = strings_view(events@);
            let p = find_newline(&total, start);
            if p == n {
                proof {
                    lemma_no_newline(cur);
                    assert(evs0 + Seq::<Seq<char>>::empty() == evs0);
                }
                break;
            }
            proof {
                lemma_run_step(cur, ls, p - start);
                assert(cur.subrange(0, p - start) == all.subrange(start as int, p as int));
                assert(cur.subrange(p - start + 1, cur.len() as int) == all.subrange(
                    p + 1,
                    n as int,
                ));
            }
            let end = trim_cr(&total, start, p);
            let ev = take_line(&mut self.data_lines, &total, start, end);
            match ev {
                Some(s) => {
                    let ghost sv = s@;
                    events.push(s);
                    proof {
                        let tail = run_lines(all.subrange(p + 1, n as int), lines_view(self.data_lines@)).2;
                        assert(strings_view(events@) == evs0.push(sv));
                        assert(evs0 + (seq![sv] + tail) == evs0.push(sv) + tail);
                    }
                },
                None => {},
            }
            start = p + 1;
        }
        self.buf = copy_range(&total, start, n);
        events
    }
}

} // verus!
