//! Which manager tabs fit in the tab bar: a window of titles that keeps the
//! selected one in view, with a hint when tabs are hidden on the left.
//!
//! A title is given by its display width; it takes two more columns for its
//! padding. The hint on the left takes five columns.
use vstd::prelude::*;

verus! {

/// The window of titles to draw.
#[derive(Debug, Clone, Copy, PartialEq, Eq, Structural)]
pub struct VisibleTabs {
    /// Index of the first title drawn.
    pub start: usize,
    /// Position of the selected title within the drawn ones.
    pub selected_in_slice: usize,
    /// How many titles are drawn, from `start` on.
    pub count: usize,
    /// Titles are hidden on the left.
    pub has_left_overflow: bool,
}

/// Columns the titles `a..b` take, padding included.
pub open spec fn span_width(ws: Seq<usize>, a: int, b: int) -> int
    decreases b - a,
{
    if b <= a {
        0
    } else {
        span_width(ws, a, b - 1) + ws[b - 1] + 2
    }
}

/// Columns of the left hint, shown when the window does not start at the
/// first title.
pub open spec fn hint_width(start: int) -> int {
    if start > 0 {
        5
    } else {
        0
    }
}

/// The first start, from `s` up to `sel`, from which the titles through the
/// selected one fit beside the hint; `sel` itself when none does.
pub open spec fn window_start(ws: Seq<usize>, s: int, sel: int, avail: int) -> int
    decreases sel - s,
{
    if s >= sel || span_width(ws, s, sel + 1) + hint_width(s) <= avail {
        s
    } else {
        window_start(ws, s + 1, sel, avail)
    }
}

/// How many titles are drawn from `start`, `k` already taken with `used`
/// columns: titles are taken in order until one does not fit, and the
/// first one always is.
pub open spec fn fit_count(ws: Seq<usize>, start: int, k: int, used: int, avail: int) -> int
    decreases ws.len() - (start + k),
{
    if start + k >= ws.len() || k < 0 {
        k
    } else if used + ws[start + k] + 2 > avail && k > 0 {
        k
    } else {
        fit_count(ws, start, k + 1, used + ws[start + k] + 2, avail)
    }
}

proof fn lemma_span_monotone(ws: Seq<usize>, a: int, b: int, n: int)
    requires
        0 <= a <= b <= n <= ws.len(),
    ensures
        0 <= span_width(ws, a, b) <= span_width(ws, 0, n),
        span_width(ws, 0, n) >= span_width(ws, 0, a) + span_width(ws, a, b),
    decreases n,
{
    if b < n {
        lemma_span_monotone(ws, a, b, n - 1);
    } else if a < b {
        lemma_span_monotone(ws, a, b - 1, n - 1);
    } else {
        lemma_span_nonneg(ws, 0, n);
        if a > 0 {
            lemma_span_nonneg(ws, 0, a);
        }
        lemma_span_split(ws, 0, a, n);
    }
}

proof fn lemma_span_nonneg(ws: Seq<usize>, a: int, b: int)
    ensures
        span_width(ws, a, b) >= 0,
    decreases b - a,
{
    if a < b {
        lemma_span_nonneg(ws, a, b - 1);
    }
}

proof fn lemma_span_split(ws: Seq<usize>, a: int, m: int, b: int)
    requires
        a <= m <= b,
    ensures
        span_width(ws, a, b) == span_width(ws, a, m) + span_width(ws, m, b),
    decreases b - m,
{
    if m < b {
        lemma_span_split(ws, a, m, b - 1);
    }
}

fn hint_cols(start: usize) -> (r: usize)
    ensures
        r == hint_width(start as int),
{
    if start > 0 {
        5
    } else {
        0
    }
}

fn span(widths: &[usize], a: usize, b: usize) -> (r: usize)
    requires
        a <= b <= widths@.len(),
        span_width(widths@, 0, widths@.len() as int) <= usize::MAX,
    ensures
        r == span_width(widths@, a as int, b as int),
{
    let mut total: usize = 0;
    let mut i: usize = a;
    while i < b
        invariant
            a <= i <= b <= widths@.len(),
            span_width(widths@, 0, widths@.len() as int) <= usize::MAX,
            total == span_width(widths@, a as int, i as int),
        decreases b - i,
    {
        proof {
            lemma_span_monotone(widths@, a as int, i + 1, widths@.len() as int);
        }
        total = total + widths[i] + 2;
        i = i + 1;
    }
    total
}

/// The titles to draw, given each title's width, the selected tab, the
/// window's previous start and the columns available.
pub fn visible_tabs(widths: &[usize], selected: usize, previous_offset: usize, available_width: u16) -> (r: VisibleTabs)
    requires
        span_width(widths@, 0, widths@.len() as int) + 5 <= usize::MAX,
    ensures
        widths@.len() == 0 ==> r == (VisibleTabs { start: 0, selected_in_slice: 0, count: 0, has_left_overflow: false }),
        widths@.len() > 0 ==> {
            let sel = if selected < widths@.len() - 1 { selected as int } else { widths@.len() - 1 };
            let s0 = if previous_offset < sel { previous_offset as int } else { sel };
            &&& r.start == window_start(widths@, s0, sel, available_width as int)
            &&& r.count == fit_count(widths@, r.start as int, 0, hint_width(r.start as int), available_width as int)
            &&& 1 <= r.count
            &&& r.start + r.count <= widths@.len()
            &&& r.selected_in_slice == if sel - r.start < r.count - 1 { sel - r.start } else { r.count - 1 }
            &&& r.has_left_overflow == (r.start > 0)
        },
{
    let n = widths.len();
    if n == 0 {
        return VisibleTabs { start: 0, selected_in_slice: 0, count: 0, has_left_overflow: false };
    }
    let ghost ws = widths@;
    let avail = available_width as usize;
    let sel = if selected < n - 1 { selected } else { n - 1 };
    let mut start = if previous_offset < sel { previous_offset } else { sel };
    let ghost s0 = start as int;
    proof {
        lemma_span_monotone(ws, 0, n as int, n as int);
        lemma_span_monotone(ws, start as int, sel + 1, n as int);
    }
    while start < sel && span(widths, start, sel + 1) + hint_cols(start) > avail
        invariant
            ws == widths@,
            n == ws.len(),
            sel < n,
            s0 <= start <= sel,
            span_width(ws, 0, n as int) + 5 <= usize::MAX,
            avail == available_width as int,
            window_start(ws, s0, sel as int, avail as int) == window_start(ws, start as int, sel as int, avail as int),
            span_width(ws, start as int, sel + 1) <= span_width(ws, 0, n as int),
        decreases sel - start,
    {
        start = start + 1;
        proof {
            lemma_span_monotone(ws, start as int, sel + 1, n as int);
        }
    }
    let hint: usize = hint_cols(start);
    let mut used: usize = hint;
    let mut count: usize = 0;
    let mut stop = false;
    while start + count < n && !stop
        invariant
            ws == widths@,
            n == ws.len(),
            start <= sel < n,
            start + count <= n,
            span_width(ws, 0, n as int) + 5 <= usize::MAX,
            avail == available_width as int,
            hint == hint_width(start as int),
            used == hint + span_width(ws, start as int, start + count),
            stop ==> count > 0 && used + ws[start + count] + 2 > avail,
            fit_count(ws, start as int, 0, hint as int, avail as int) == if stop {
                count as int
            } else {
                fit_count(ws, start as int, count as int, used as int, avail as int)
            },
        decreases n - (start + count), (if stop { 0int } else { 1int }),
    {
        proof {
            lemma_span_monotone(ws, start as int, start + count + 1, n as int);
        }
        let w = widths[start + count] + 2;
        if used + w > avail && count > 0 {
            stop = true;
        } else {
            used = used + w;
            count = count + 1;
        }
    }
    proof {
        if !stop {
            assert(fit_count(ws, start as int, count as int, used as int, avail as int) == count);
        }
    }
    assert(count >= 1) by {
        if count == 0 {
            assert(start + count < n);
        }
    }
    let offset = sel - start;
    let last = count - 1;
    VisibleTabs {
        start,
        selected_in_slice: if offset < last { offset } else { last },
        count,
        has_left_overflow: start > 0,
    }
}

} // verus!
