//! Splitting a block's runs into the lines that are laid out one by one.

use glyph_brush_layout::LineBreaker;
use vstd::prelude::*;
use vstd::utf8::encode_utf8;

use crate::block::Text;

verus! {

/// The line-break opportunities that Unicode line breaking (UAX #14) finds
/// in a text: byte offsets, each flagged hard (`true`) or soft.
pub uninterp spec fn line_breaks_of(text: Seq<char>) -> Seq<(usize, bool)>;

/// Relies on `glyph_brush_layout::BuiltInLineBreaker::UnicodeLineBreaker`,
/// that is xi-unicode's `LineBreakIterator`: it yields each break's offset
/// (the byte index after the breaking character) and whether the break is
/// hard; the offsets increase strictly and lie in `1..=len`.
#[verifier::external_body]
fn unicode_line_breaks(text: &str) -> (r: Vec<(usize, bool)>)
    ensures
        r@ == line_breaks_of(text@),
        breaks_ok(r@, encode_utf8(text@).len() as int),
{
    glyph_brush_layout::BuiltInLineBreaker::UnicodeLineBreaker.line_breaks(text).map(|b| match b {
        glyph_brush_layout::LineBreak::Hard(offset) => (offset, true),
        glyph_brush_layout::LineBreak::Soft(offset) => (offset, false),
    }).collect()
}

/// Break offsets that increase strictly and lie in `1..=len`.
pub open spec fn breaks_ok(breaks: Seq<(usize, bool)>, len: int) -> bool {
    &&& forall|i: int| 0 <= i < breaks.len() ==> 0 < (#[trigger] breaks[i]).0 <= len
    &&& forall|i: int, j: int| 0 <= i < j < breaks.len() ==> #[trigger] breaks[i].0 < #[trigger] breaks[j].0
}

/// The bytes `start..end` of run `run`'s text.
#[derive(Clone, Copy, Debug, PartialEq, Eq, Structural)]
pub struct Span {
    pub run: usize,
    pub start: usize,
    pub end: usize,
}

/// The UTF-8 bytes of a run's text.
pub open spec fn text_bytes(t: Text) -> Seq<u8> {
    encode_utf8(t.text@)
}

/// The first index in `s..e` that is not a newline byte, or `e`.
pub open spec fn trim_start(b: Seq<u8>, s: int, e: int) -> int
    decreases e - s,
{
    if s < e && b[s] == 10 {
        trim_start(b, s + 1, e)
    } else {
        s
    }
}

/// One past the last index in `s..e` that is not a newline byte, or `s`.
pub open spec fn trim_end(b: Seq<u8>, s: int, e: int) -> int
    decreases e - s,
{
    if s < e && b[e - 1] == 10 {
        trim_end(b, s, e - 1)
    } else {
        e
    }
}

/// The bytes `s..e` of run `run` without leading or trailing newlines.
pub open spec fn trimmed(run: usize, b: Seq<u8>, s: int, e: int) -> Span {
    let s2 = trim_start(b, s, e);
    Span { run, start: s2 as usize, end: trim_end(b, s2, e) as usize }
}

/// Adds `t` to a line unless it is empty.
pub open spec fn push_piece(line: Seq<Span>, t: Span) -> Seq<Span> {
    if t.start < t.end {
        line.push(t)
    } else {
        line
    }
}

/// The finished lines, the line being built, and where the run's unsplit
/// rest begins, after the first `k` breaks of run `run`: each hard break
/// ends the line with the piece before it, newlines trimmed.
pub open spec fn split_breaks(
    lines: Seq<Seq<Span>>,
    current: Seq<Span>,
    run: usize,
    b: Seq<u8>,
    breaks: Seq<(usize, bool)>,
    k: int,
) -> (Seq<Seq<Span>>, Seq<Span>, int)
    decreases k,
{
    if k <= 0 {
        (lines, current, 0)
    } else {
        let (l, c, last) = split_breaks(lines, current, run, b, breaks, k - 1);
        let (offset, hard) = breaks[k - 1];
        if hard {
            (l.push(push_piece(c, trimmed(run, b, last, offset as int))), Seq::empty(), offset as int)
        } else {
            (l, c, last)
        }
    }
}

/// The lines after run `run` is added: a run without a hard break joins the
/// current line whole; otherwise its rest after the last hard break does,
/// newlines trimmed, unless that is empty.
pub open spec fn split_run(
    lines: Seq<Seq<Span>>,
    current: Seq<Span>,
    run: usize,
    b: Seq<u8>,
    breaks: Seq<(usize, bool)>,
) -> (Seq<Seq<Span>>, Seq<Span>) {
    let (l, c, last) = split_breaks(lines, current, run, b, breaks, breaks.len() as int);
    if last == 0 {
        (l, c.push(Span { run, start: 0, end: b.len() as usize }))
    } else if last < b.len() {
        (l, push_piece(c, trimmed(run, b, last, b.len() as int)))
    } else {
        (l, c)
    }
}

/// The lines after the first `n` runs.
pub open spec fn split_runs(
    texts: Seq<Seq<u8>>,
    breaks: Seq<Seq<(usize, bool)>>,
    n: int,
) -> (Seq<Seq<Span>>, Seq<Span>)
    decreases n,
{
    if n <= 0 {
        (Seq::empty(), Seq::empty())
    } else {
        let (l, c) = split_runs(texts, breaks, n - 1);
        split_run(l, c, (n - 1) as usize, texts[n - 1], breaks[n - 1])
    }
}

/// The hard lines of unwrapped text: every run split at its hard breaks,
/// the last line kept when it holds anything.
pub open spec fn hard_lines(texts: Seq<Seq<u8>>, breaks: Seq<Seq<(usize, bool)>>) -> Seq<Seq<Span>> {
    let (l, c) = split_runs(texts, breaks, texts.len() as int);
    if c.len() > 0 {
        l.push(c)
    } else {
        l
    }
}

/// Spans that lie within the texts of their runs.
pub open spec fn spans_ok(texts: Seq<Seq<u8>>, line: Seq<Span>) -> bool {
    forall|i: int|
        0 <= i < line.len() ==> (#[trigger] line[i]).run < texts.len() && line[i].start
            <= line[i].end <= texts[line[i].run as int].len()
}

/// Lines whose spans all lie within the texts of their runs.
pub open spec fn lines_ok(texts: Seq<Seq<u8>>, lines: Seq<Seq<Span>>) -> bool {
    forall|i: int| 0 <= i < lines.len() ==> spans_ok(texts, #[trigger] lines[i])
}

proof fn lemma_trim_start(b: Seq<u8>, s: int, e: int)
    requires
        s <= e,
    ensures
        s <= trim_start(b, s, e) <= e,
    decreases e - s,
{
    if s < e && b[s] == 10 {
        lemma_trim_start(b, s + 1, e);
    }
}

proof fn lemma_trim_end(b: Seq<u8>, s: int, e: int)
    requires
        s <= e,
    ensures
        s <= trim_end(b, s, e) <= e,
    decreases e - s,
{
    if s < e && b[e - 1] == 10 {
        lemma_trim_end(b, s, e - 1);
    }
}

proof fn lemma_push_piece_ok(texts: Seq<Seq<u8>>, line: Seq<Span>, run: usize, s: int, e: int)
    requires
        spans_ok(texts, line),
        run < texts.len(),
        0 <= s <= e <= texts[run as int].len(),
    ensures
        spans_ok(texts, push_piece(line, trimmed(run, texts[run as int], s, e))),
{
    let b = texts[run as int];
    lemma_trim_start(b, s, e);
    lemma_trim_end(b, trim_start(b, s, e), e);
    let t = trimmed(run, b, s, e);
    if t.start < t.end {
        assert forall|i: int| 0 <= i < line.len() + 1 implies (#[trigger] line.push(t)[i]).run
            < texts.len() && line.push(t)[i].start <= line.push(t)[i].end <= texts[line.push(
            t,
        )[i].run as int].len() by {
            if i < line.len() {
                assert(line.push(t)[i] == line[i]);
            }
        }
    }
}

proof fn lemma_split_breaks_ok(
    texts: Seq<Seq<u8>>,
    lines: Seq<Seq<Span>>,
    current: Seq<Span>,
    run: usize,
    breaks: Seq<(usize, bool)>,
    k: int,
)
    requires
        run < texts.len(),
        breaks_ok(breaks, texts[run as int].len() as int),
        0 <= k <= breaks.len(),
        lines_ok(texts, lines),
        spans_ok(texts, current),
    ensures
        ({
            let (l, c, last) = split_breaks(lines, current, run, texts[run as int], breaks, k);
            &&& lines_ok(texts, l)
            &&& spans_ok(texts, c)
            &&& 0 <= last <= texts[run as int].len()
            &&& k > 0 ==> last <= breaks[k - 1].0
            &&& k == 0 ==> last == 0
        }),
    decreases k,
{
    let b = texts[run as int];
    if k > 0 {
        lemma_split_breaks_ok(texts, lines, current, run, breaks, k - 1);
        let (l, c, last) = split_breaks(lines, current, run, b, breaks, k - 1);
        let (offset, hard) = breaks[k - 1];
        if k > 1 {
            assert(breaks[k - 2].0 < breaks[k - 1].0);
        }
        if hard {
            lemma_push_piece_ok(texts, c, run, last, offset as int);
            let line = push_piece(c, trimmed(run, b, last, offset as int));
            assert forall|i: int| 0 <= i < l.len() + 1 implies spans_ok(
                texts,
                #[trigger] l.push(line)[i],
            ) by {
                if i < l.len() {
                    assert(l.push(line)[i] == l[i]);
                }
            }
            assert(spans_ok(texts, Seq::<Span>::empty()));
        }
    }
}

proof fn lemma_split_runs_ok(texts: Seq<Seq<u8>>, breaks: Seq<Seq<(usize, bool)>>, n: int)
    requires
        texts.len() <= usize::MAX,
        forall|i: int| 0 <= i < texts.len() ==> (#[trigger] texts[i]).len() <= usize::MAX,
        breaks.len() == texts.len(),
        forall|i: int| 0 <= i < texts.len() ==> breaks_ok(#[trigger] breaks[i], texts[i].len() as int),
        0 <= n <= texts.len(),
    ensures
        lines_ok(texts, split_runs(texts, breaks, n).0),
        spans_ok(texts, split_runs(texts, breaks, n).1),
    decreases n,
{
    if n > 0 {
        lemma_split_runs_ok(texts, breaks, n - 1);
        let (l, c) = split_runs(texts, breaks, n - 1);
        let run = (n - 1) as usize;
        let b = texts[n - 1];
        assert(breaks_ok(breaks[n - 1], b.len() as int));
        lemma_split_breaks_ok(texts, l, c, run, breaks[n - 1], breaks[n - 1].len() as int);
        let (l2, c2, last) = split_breaks(l, c, run, b, breaks[n - 1], breaks[n - 1].len() as int);
        if last == 0 {
            let whole = Span { run, start: 0, end: b.len() as usize };
            assert forall|i: int| 0 <= i < c2.len() + 1 implies (#[trigger] c2.push(whole)[i]).run
                < texts.len() && c2.push(whole)[i].start <= c2.push(whole)[i].end <= texts[c2.push(
                whole,
            )[i].run as int].len() by {
                if i < c2.len() {
                    assert(c2.push(whole)[i] == c2[i]);
                }
            }
        } else if last < b.len() {
            lemma_push_piece_ok(texts, c2, run, last, b.len() as int);
        }
    }
}

/// The hard lines of a text hold only spans within their runs.
pub proof fn lemma_hard_lines_ok(texts: Seq<Seq<u8>>, breaks: Seq<Seq<(usize, bool)>>)
    requires
        texts.len() <= usize::MAX,
        forall|i: int| 0 <= i < texts.len() ==> (#[trigger] texts[i]).len() <= usize::MAX,
        breaks.len() == texts.len(),
        forall|i: int| 0 <= i < texts.len() ==> breaks_ok(#[trigger] breaks[i], texts[i].len() as int),
    ensures
        lines_ok(texts, hard_lines(texts, breaks)),
{
    lemma_split_runs_ok(texts, breaks, texts.len() as int);
    let (l, c) = split_runs(texts, breaks, texts.len() as int);
    if c.len() > 0 {
        assert forall|i: int| 0 <= i < l.len() + 1 implies spans_ok(texts, #[trigger] l.push(c)[i]) by {
            if i < l.len() {
                assert(l.push(c)[i] == l[i]);
            }
        }
    }
}

/// The views of a list of lines.
pub open spec fn lines_view(lines: Seq<Vec<Span>>) -> Seq<Seq<Span>> {
    lines.map_values(|v: Vec<Span>| v@)
}

fn trim_range(b: &[u8], s: usize, e: usize) -> (r: (usize, usize))
    requires
        s <= e <= b@.len(),
    ensures
        r.0 == trim_start(b@, s as int, e as int),
        r.1 == trim_end(b@, r.0 as int, e as int),
        s <= r.0 <= r.1 <= e,
{
    let mut a = s;
    while a < e && b[a] == 10
        invariant
            s <= a <= e <= b@.len(),
            trim_start(b@, a as int, e as int) == trim_start(b@, s as int, e as int),
        decreases e - a,
    {
        a = a + 1;
    }
    let mut z = e;
    while z > a && b[z - 1] == 10
        invariant
            a <= z <= e <= b@.len(),
            trim_end(b@, a as int, z as int) == trim_end(b@, a as int, e as int),
        decreases z - a,
    {
        z = z - 1;
    }
    (a, z)
}

fn push_line(lines: &mut Vec<Vec<Span>>, line: Vec<Span>)
    ensures
        lines_view(final(lines)@) == lines_view(old(lines)@).push(line@),
{
    let ghost before = lines@;
    lines.push(line);
    assert(lines_view(lines@) =~= lines_view(before).push(line@));
}

/// Adds run `run`, whose bytes are `b` and whose break opportunities are
/// `breaks`, to the lines being split.
fn split_one_run(
    lines: &mut Vec<Vec<Span>>,
    current: &mut Vec<Span>,
    run: usize,
    b: &[u8],
    breaks: &Vec<(usize, bool)>,
)
    requires
        breaks_ok(breaks@, b@.len() as int),
    ensures
        (lines_view(final(lines)@), final(current)@) == split_run(
            lines_view(old(lines)@),
            old(current)@,
            run,
            b@,
            breaks@,
        ),
{
    let ghost l0 = lines_view(lines@);
    let ghost c0 = current@;
    let mut last: usize = 0;
    let mut k: usize = 0;
    while k < breaks.len()
        invariant
            breaks_ok(breaks@, b@.len() as int),
            k <= breaks.len(),
            (lines_view(lines@), current@, last as int) == split_breaks(
                l0,
                c0,
                run,
                b@,
                breaks@,
                k as int,
            ),
            last <= b@.len(),
            k > 0 ==> last <= breaks@[k - 1].0,
            k == 0 ==> last == 0,
        decreases breaks.len() - k,
    {
        let (offset, hard) = breaks[k];
        if hard {
            if k > 0 {
                assert(breaks@[k - 1].0 < breaks@[k as int].0);
            }
            let (s, e) = trim_range(b, last, offset);
            if s < e {
                current.push(Span { run, start: s, end: e });
            }
            let mut line: Vec<Span> = Vec::new();
            std::mem::swap(current, &mut line);
            push_line(lines, line);
            last = offset;
        }
        k = k + 1;
    }
    if last == 0 {
        current.push(Span { run, start: 0, end: b.len() });
    } else if last < b.len() {
        let (s, e) = trim_range(b, last, b.len());
        if s < e {
            current.push(Span { run, start: s, end: e });
        }
    }
}

/// Splits unwrapped text into its hard lines, given each run's break
/// opportunities: each hard break ends a line, and the piece before it,
/// without leading or trailing newlines, ends that line unless it is empty.
pub fn split_hard_lines(runs: &Vec<Text>, breaks: &Vec<Vec<(usize, bool)>>) -> (r: Vec<Vec<Span>>)
    requires
        breaks@.len() == runs@.len(),
        forall|i: int|
            0 <= i < runs@.len() ==> breaks_ok(
                #[trigger] breaks@[i]@,
                text_bytes(runs@[i]).len() as int,
            ),
    ensures
        lines_view(r@) == hard_lines(
            runs@.map_values(|t: Text| text_bytes(t)),
            breaks@.map_values(|v: Vec<(usize, bool)>| v@),
        ),
{
    let ghost texts = runs@.map_values(|t: Text| text_bytes(t));
    let ghost bs = breaks@.map_values(|v: Vec<(usize, bool)>| v@);
    let mut lines: Vec<Vec<Span>> = Vec::new();
    let mut current: Vec<Span> = Vec::new();
    let mut i: usize = 0;
    assert(lines_view(lines@) =~= Seq::<Seq<Span>>::empty());
    while i < runs.len()
        invariant
            breaks@.len() == runs@.len(),
            forall|i: int|
                0 <= i < runs@.len() ==> breaks_ok(
                    #[trigger] breaks@[i]@,
                    text_bytes(runs@[i]).len() as int,
                ),
            texts == runs@.map_values(|t: Text| text_bytes(t)),
            bs == breaks@.map_values(|v: Vec<(usize, bool)>| v@),
            i <= runs.len(),
            (lines_view(lines@), current@) == split_runs(texts, bs, i as int),
        decreases runs.len() - i,
    {
        let b = runs[i].text.as_str().as_bytes();
        assert(b@ == texts[i as int]);
        split_one_run(&mut lines, &mut current, i, b, &breaks[i]);
        i = i + 1;
    }
    if current.len() > 0 {
        push_line(&mut lines, current);
    }
    lines
}

/// The hard lines of unwrapped text, at the hard breaks that Unicode line
/// breaking finds in each run.
pub fn hard_lines_of(runs: &Vec<Text>) -> (r: Vec<Vec<Span>>)
    ensures
        lines_view(r@) == hard_lines(
            runs@.map_values(|t: Text| text_bytes(t)),
            runs@.map_values(|t: Text| line_breaks_of(t.text@)),
        ),
        lines_ok(runs@.map_values(|t: Text| text_bytes(t)), lines_view(r@)),
{
    let mut breaks: Vec<Vec<(usize, bool)>> = Vec::new();
    let mut i: usize = 0;
    while i < runs.len()
        invariant
            i <= runs.len(),
            breaks@.len() == i,
            forall|j: int|
                0 <= j < i ==> (#[trigger] breaks@[j])@ == line_breaks_of(runs@[j].text@)
                    && breaks_ok(breaks@[j]@, text_bytes(runs@[j]).len() as int)
                    && text_bytes(runs@[j]).len() <= usize::MAX,
        decreases runs.len() - i,
    {
        let text = runs[i].text.as_str();
        let _len = text.as_bytes().len();
        let b = unicode_line_breaks(text);
        breaks.push(b);
        i = i + 1;
    }
    let ghost texts = runs@.map_values(|t: Text| text_bytes(t));
    let ghost bs = breaks@.map_values(|v: Vec<(usize, bool)>| v@);
    assert(bs =~= runs@.map_values(|t: Text| line_breaks_of(t.text@)));
    proof {
        assert forall|i: int| 0 <= i < texts.len() implies breaks_ok(
            #[trigger] bs[i],
            texts[i].len() as int,
        ) by {
            assert(bs[i] == breaks@[i]@);
        }
        assert forall|i: int| 0 <= i < texts.len() implies (#[trigger] texts[i]).len()
            <= usize::MAX by {
            assert(breaks@[i]@ == line_breaks_of(runs@[i].text@));
        }
        lemma_hard_lines_ok(texts, bs);
    }
    split_hard_lines(runs, &breaks)
}

/// The single line of wrapped text: every run, whole.
pub fn paragraph(runs: &Vec<Text>) -> (r: Vec<Span>)
    ensures
        r@.len() == runs@.len(),
        forall|i: int|
            0 <= i < runs@.len() ==> #[trigger] r@[i] == (Span {
                run: i as usize,
                start: 0,
                end: text_bytes(runs@[i]).len() as usize,
            }),
        spans_ok(runs@.map_values(|t: Text| text_bytes(t)), r@),
{
    let ghost texts = runs@.map_values(|t: Text| text_bytes(t));
    let mut r: Vec<Span> = Vec::new();
    let mut i: usize = 0;
    while i < runs.len()
        invariant
            texts == runs@.map_values(|t: Text| text_bytes(t)),
            i <= runs.len(),
            r@.len() == i,
            forall|j: int|
                0 <= j < i ==> #[trigger] r@[j] == (Span {
                    run: j as usize,
                    start: 0,
                    end: text_bytes(runs@[j]).len() as usize,
                }),
            spans_ok(texts, r@),
        decreases runs.len() - i,
    {
        let n = runs[i].text.as_str().as_bytes().len();
        let sp = Span { run: i, start: 0, end: n };
        proof {
            assert forall|j: int| 0 <= j < r@.len() + 1 implies (#[trigger] r@.push(sp)[j]).run
                < texts.len() && r@.push(sp)[j].start <= r@.push(sp)[j].end <= texts[r@.push(
                sp,
            )[j].run as int].len() by {
                if j < r@.len() {
                    assert(r@.push(sp)[j] == r@[j]);
                }
            }
        }
        r.push(sp);
        i = i + 1;
    }
    r
}

} // verus!
