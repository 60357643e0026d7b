//! Layout of the pulse charts: the value range shown, the columns that each
//! average a run of samples, which columns lie inside the pulse, and where
//! the pulse is marked (by a span under the chart of the results screen, or
//! by markers at its start and end on the chart of a compacting buffer).
//! The pixels are drawn elsewhere from this layout.
use vstd::prelude::*;
use crate::ring::{
    history100, history500, history712, ring_oldest, ring_raw, h100_len, h100_oldest, h500_len, h500_oldest, h500_raw,
    h712_len, h712_oldest,
};
use crate::stats::{
    seq_max, seq_min, seq_sum, lemma_seq_extremes, lemma_seq_sum_between, lemma_seq_sum_bound, max_u16,
    min_u16,
};

verus! {

/// Space kept free left and right of the chart, in pixels.
pub const CHART_PADDING: u32 = 10;
/// Height of the chart, in pixels.
pub const CHART_HEIGHT: u32 = 20;

pub open spec fn sat_add16(a: u16, b: u16) -> u16 {
    if a + b > 65535 { 65535 } else { (a + b) as u16 }
}

pub open spec fn sat_sub16(a: u16, b: u16) -> u16 {
    if a < b { 0 } else { (a - b) as u16 }
}

/// The values at the bottom and the top of the chart: the samples' range,
/// at least one step high; a range narrower than 10 is widened by 50 each
/// way, and a fifth of the range is added below the baseline.
pub open spec fn chart_y_range(s: Seq<u16>) -> (u16, u16) {
    let lo = seq_min(s);
    let hi = if seq_max(s) >= lo + 1 { seq_max(s) } else { (lo + 1) as u16 };
    let lo2 = if hi - lo < 10 { sat_sub16(lo, 50) } else { lo };
    let hi2 = if hi - lo < 10 { sat_add16(hi, 50) } else { hi };
    (sat_sub16(lo2, ((hi2 - lo2) / 5) as u16), hi2)
}

/// How many samples one column averages: enough that the columns fit in
/// `max_width` pixels, at least one.
pub open spec fn chunk_len(len: nat, max_width: nat) -> nat {
    if len == 0 { 1 } else { ((len - 1) as nat / max_width + 1) as nat }
}

/// The number of runs of `c` samples (the last one maybe shorter).
pub open spec fn column_count(len: nat, c: nat) -> nat {
    if len == 0 { 0 } else { ((len - 1) as nat / c + 1) as nat }
}

/// The samples of column `j`.
pub open spec fn chunk_of(s: Seq<u16>, c: nat, j: nat) -> Seq<u16> {
    s.subrange((j * c) as int, if (j + 1) * c <= s.len() { ((j + 1) * c) as int } else { s.len() as int })
}

/// The rounded-down average of column `j`.
pub open spec fn chunk_avg(s: Seq<u16>, c: nat, j: nat) -> nat {
    seq_sum(chunk_of(s, c, j)) / chunk_of(s, c, j).len()
}

/// One column of the chart: its top is at `y` (the column reaches down to
/// the chart's bottom), and it is highlighted when it lies inside the pulse.
#[derive(Debug, Clone, Copy, PartialEq, Eq, Structural)]
pub struct ChartColumn {
    pub x: i32,
    pub y: i32,
    pub integrated: bool,
}

/// The mark under the chart that spans the pulse, with its label's centre.
#[derive(Debug, Clone, Copy, PartialEq, Eq, Structural)]
pub struct ChartSpan {
    pub start_x: i32,
    pub end_x: i32,
    pub line_y: i32,
    pub label_x: i32,
}

/// Where the chart goes and what it shows.
pub struct ChartPlan {
    pub left: i32,
    pub top: i32,
    pub width: u32,
    pub bottom: i32,
    pub center_x: i32,
    pub y_min: u16,
    pub y_max: u16,
    pub chunk_size: u32,
    pub columns: Vec<ChartColumn>,
    pub span: Option<ChartSpan>,
}

/// Column `j`: one pixel per column from `left`, its top scaled so that
/// `range` spans the chart's `height`, inside the pulse when its first sample
/// comes after the pulse's start and before its end (counted from the
/// newest sample).
pub open spec fn chart_column(
    s: Seq<u16>,
    c: nat,
    j: nat,
    left: int,
    bottom: int,
    height: nat,
    range: (u16, u16),
    since_start: nat,
    since_end: nat,
) -> ChartColumn {
    ChartColumn {
        x: (left + j) as i32,
        y: (bottom - (chunk_avg(s, c, j) - range.0) * height / (range.1 - range.0)) as i32,
        integrated: j * c > s.len() - since_start && j * c < s.len() - since_end,
    }
}

/// The column position of the sample `since` samples before the end of
/// the chart, if there is such a sample.
pub open spec fn marker_x(len: nat, c: nat, left: int, since: Option<usize>) -> Option<int> {
    match since {
        Some(k) => if k >= 1 { Some(left + (len - k) / (c as int)) } else { None },
        None => None,
    }
}

/// The span mark: from the earlier of the two marker positions to the end
/// marker, 7 pixels below the chart, labelled at its middle.
pub open spec fn chart_span(
    len: nat,
    c: nat,
    left: int,
    bottom: int,
    since_start: Option<usize>,
    since_end: Option<usize>,
) -> Option<ChartSpan> {
    match (marker_x(len, c, left, since_start), marker_x(len, c, left, since_end)) {
        (Some(a), Some(b)) => {
            let sx = if a <= b { a } else { b };
            Some(ChartSpan { start_x: sx as i32, end_x: b as i32, line_y: (bottom + 7) as i32, label_x: ((sx + b) / 2) as i32 })
        },
        _ => None,
    }
}

/// Every column of a chart stands in its own pixel column from `left` on,
/// with its top between the bottom of the chart and `height` pixels above
/// it (one pixel above the chart's rectangle for a column at the top of the
/// range).
pub proof fn law_chart_columns_within_bounds(
    s: Seq<u16>,
    c: nat,
    j: nat,
    left: int,
    bottom: int,
    height: nat,
    range: (u16, u16),
    since_start: nat,
    since_end: nat,
)
    requires
        c >= 1,
        j < column_count(s.len(), c),
        range.0 <= seq_min(s),
        seq_max(s) <= range.1,
        range.0 < range.1,
        0 <= left,
        left + s.len() <= i32::MAX,
        1 <= height <= 40,
        i32::MIN + height <= bottom <= i32::MAX,
    ensures
        chart_column(s, c, j, left, bottom, height, range, since_start, since_end).x == left + j,
        bottom - height <= chart_column(s, c, j, left, bottom, height, range, since_start, since_end).y <= bottom,
{
    let len = s.len();
    assert(j * c < len) by (nonlinear_arith)
        requires
            c >= 1,
            len >= 1,
            j < ((len - 1) as int) / (c as int) + 1,
    {
        assert(j <= ((len - 1) as int) / (c as int));
        assert(j * c <= (((len - 1) as int) / (c as int)) * c);
        assert((((len - 1) as int) / (c as int)) * c <= len - 1);
    }
    assert((j + 1) * c == j * c + c) by (nonlinear_arith);
    let ch = chunk_of(s, c, j);
    lemma_seq_extremes(s);
    assert forall|i: int| 0 <= i < ch.len() implies seq_min(s) <= #[trigger] ch[i] <= seq_max(s) by {
        assert(ch[i] == s[j * c + i]);
    }
    lemma_seq_sum_between(ch, seq_min(s) as int, seq_max(s) as int);
    let n = ch.len() as int;
    let sum = seq_sum(ch) as int;
    let avg = chunk_avg(s, c, j) as int;
    let lo = seq_min(s) as int;
    let hi = seq_max(s) as int;
    assert(lo <= avg <= hi) by (nonlinear_arith)
        requires
            n * lo <= sum <= n * hi,
            n >= 1,
            avg == sum / n,
    {
        assert(avg * n <= sum);
        assert(sum < (avg + 1) * n);
    }
    let d = avg - range.0;
    let h = range.1 - range.0;
    assert(0 <= d * height / h <= height) by (nonlinear_arith)
        requires
            0 <= d <= h,
            h >= 1,
            1 <= height <= 40,
    {
        assert(d * height <= h * height);
    }
}

/// The span marked under the chart covers the pulse: for a pulse that
/// starts and ends inside the chart (its start no later than its end), the
/// span runs from the start's column to the end's column, both of which
/// are columns of the chart.
pub proof fn law_chart_span_within_columns(len: nat, c: nat, left: int, bottom: int, since_start: usize, since_end: usize)
    requires
        c >= 1,
        1 <= since_end <= since_start <= len,
        0 <= left,
        left + len <= i32::MAX,
        i32::MIN <= bottom <= i32::MAX - 7,
    ensures
        chart_span(len, c, left, bottom, Some(since_start), Some(since_end)) matches Some(span) && {
            &&& span.start_x == left + (len - since_start) / (c as int)
            &&& span.end_x == left + (len - since_end) / (c as int)
            &&& left <= span.start_x <= span.end_x
            &&& span.end_x < left + column_count(len, c)
        },
{
    let a = (len - since_start) as int;
    let b = (len - since_end) as int;
    let ci = c as int;
    vstd::arithmetic::div_mod::lemma_div_is_ordered(a, b, ci);
    vstd::arithmetic::div_mod::lemma_div_is_ordered(b, (len - 1) as int, ci);
    vstd::arithmetic::div_mod::lemma_div_pos_is_pos(a, ci);
    assert(a / ci <= a) by {
        vstd::arithmetic::div_mod::lemma_div_is_ordered_by_denominator(a, 1, ci);
    }
    assert(b / ci <= b) by {
        vstd::arithmetic::div_mod::lemma_div_is_ordered_by_denominator(b, 1, ci);
    }
}

/// A column of the results chart is highlighted exactly by where it
/// stands against the span mark of the pulse: a highlighted column stands
/// after the span's start and no later than its end, and every column
/// strictly between the two is highlighted.
pub proof fn law_chart_highlight_within_span(
    p: ChartPlan,
    s: Seq<u16>,
    display_width: u32,
    graph_y: i32,
    since_start: usize,
    since_end: usize,
    j: int,
)
    requires
        chart_layout(p, s, display_width, graph_y, Some(since_start), Some(since_end)),
        1 <= since_end <= since_start <= s.len() <= 712,
        2 * CHART_PADDING < display_width,
        display_width + 1426 <= i32::MAX,
        i32::MIN + 1 <= graph_y,
        graph_y + 26 <= i32::MAX,
        0 <= j < p.columns@.len(),
    ensures
        p.span matches Some(span) && {
            &&& p.columns@[j].integrated ==> span.start_x < p.columns@[j].x <= span.end_x
            &&& span.start_x < p.columns@[j].x < span.end_x ==> p.columns@[j].integrated
        },
{
    let len = s.len();
    let mw = (display_width - 2 * CHART_PADDING) as nat;
    let c = chunk_len(len, mw) as int;
    assert(c >= 1);
    let width = len / (c as nat);
    assert(width <= len) by {
        vstd::arithmetic::div_mod::lemma_div_is_ordered_by_denominator(len as int, 1, c);
    }
    let left = display_width / 2 - width / 2;
    let a = (len - since_start) as int;
    let b = (len - since_end) as int;
    let q = a / c;
    let r = b / c;
    assert(0 <= q <= a) by {
        vstd::arithmetic::div_mod::lemma_div_pos_is_pos(a, c);
        vstd::arithmetic::div_mod::lemma_div_is_ordered_by_denominator(a, 1, c);
    }
    assert(q <= r <= b) by {
        vstd::arithmetic::div_mod::lemma_div_is_ordered(a, b, c);
        vstd::arithmetic::div_mod::lemma_div_is_ordered_by_denominator(b, 1, c);
    }
    assert(j < len) by (nonlinear_arith)
        requires
            0 <= j < ((len - 1) as int) / c + 1,
            c >= 1,
            len >= 1,
    {
        vstd::arithmetic::div_mod::lemma_div_is_ordered_by_denominator((len - 1) as int, 1, c);
    }
    let col = p.columns@[j];
    assert(col == chart_column(s, c as nat, j as nat, left, graph_y + CHART_HEIGHT - 1, CHART_HEIGHT as nat,
        chart_y_range(s), since_start as nat, since_end as nat));
    assert(col.x == left + j);
    assert(p.span == chart_span(len, c as nat, left, graph_y + CHART_HEIGHT - 1, Some(since_start), Some(since_end)));
    if let Some(span) = p.span {
        assert(span.start_x == left + q);
        assert(span.end_x == left + r);
    }
    assert(q * c <= a && a < (q + 1) * c) by (nonlinear_arith)
        requires
            q == a / c,
            c >= 1,
            a >= 0,
    {
        vstd::arithmetic::div_mod::lemma_fundamental_div_mod(a, c);
    }
    assert(r * c <= b && b < (r + 1) * c) by (nonlinear_arith)
        requires
            r == b / c,
            c >= 1,
            b >= 0,
    {
        vstd::arithmetic::div_mod::lemma_fundamental_div_mod(b, c);
    }
    assert(j * c > a ==> j > q) by (nonlinear_arith)
        requires
            q * c <= a,
            c >= 1,
    ;
    assert(j * c < b ==> j <= r) by (nonlinear_arith)
        requires
            b < (r + 1) * c,
            c >= 1,
    ;
    assert(j > q ==> j * c > a) by (nonlinear_arith)
        requires
            a < (q + 1) * c,
            c >= 1,
    ;
    assert(j < r ==> j * c < b) by (nonlinear_arith)
        requires
            r * c <= b,
            c >= 1,
    ;
}

/// A marker of the compacting chart stands over the column that holds its
/// sample: the column under it starts at or before that sample and the next
/// one after it, and the marker lies within the chart's columns.
pub proof fn law_marker_over_its_sample(
    p: MarkerChartPlan,
    s: Seq<u16>,
    storage: Seq<u16>,
    display_width: u32,
    graph_y: i32,
    since_start: Option<usize>,
    since_end: Option<usize>,
)
    requires
        marker_chart_layout(p, s, storage, display_width, graph_y, since_start, since_end),
        storage.len() == s.len() <= 500,
        2 * CHART_PADDING < display_width,
        i32::MIN + 1 <= graph_y,
        graph_y + 39 <= i32::MAX,
        since_start matches Some(k) ==> k <= s.len(),
        since_end matches Some(k) ==> k <= s.len(),
    ensures
        p.start matches Some(m) ==> since_start matches Some(k) && {
            let col = m.x - p.left;
            &&& 0 <= col < p.columns@.len()
            &&& col * p.chunk_size <= s.len() - k < (col + 1) * p.chunk_size
        },
        p.end matches Some(m) ==> since_end matches Some(k) && {
            let col = m.x - p.left;
            &&& 0 <= col < p.columns@.len()
            &&& col * p.chunk_size <= s.len() - k < (col + 1) * p.chunk_size
        },
{
    let len = s.len();
    let mw = (display_width - 2 * CHART_PADDING) as nat;
    let c = chunk_len(len, mw) as int;
    assert(c >= 1);
    if let Some(k) = since_start {
        if k >= 1 {
            lemma_marker_column(len, c, k as int);
        }
    }
    if let Some(k) = since_end {
        if k >= 1 {
            lemma_marker_column(len, c, k as int);
        }
    }
}

proof fn lemma_marker_column(len: nat, c: int, k: int)
    requires
        c >= 1,
        1 <= k <= len <= 500,
    ensures
        0 <= (len - k) / c < column_count(len, c as nat),
        ((len - k) / c) * c <= len - k < ((len - k) / c + 1) * c,
        (len - k) / c <= 500,
{
    let idx = len - k;
    vstd::arithmetic::div_mod::lemma_div_pos_is_pos(idx, c);
    vstd::arithmetic::div_mod::lemma_div_is_ordered(idx, (len - 1) as int, c);
    vstd::arithmetic::div_mod::lemma_div_is_ordered_by_denominator(idx, 1, c);
    vstd::arithmetic::div_mod::lemma_fundamental_div_mod(idx, c);
    assert((idx / c) * c <= idx < (idx / c + 1) * c) by (nonlinear_arith)
        requires
            idx == c * (idx / c) + idx % c,
            0 <= idx % c < c,
    ;
}

/// Whether every column's samples add up to at most 65535.
pub open spec fn chart_sums_fit(s: Seq<u16>, display_width: u32) -> bool {
    let c = chunk_len(s.len(), (display_width - 2 * CHART_PADDING) as nat);
    forall|j: nat| j < column_count(s.len(), c) ==> #[trigger] seq_sum(chunk_of(s, c, j)) <= 65535
}

/// The layout of the chart of samples `s` on a display `display_width`
/// pixels wide, with its top at `graph_y`: the columns are centred
/// horizontally.
pub open spec fn chart_layout(
    p: ChartPlan,
    s: Seq<u16>,
    display_width: u32,
    graph_y: i32,
    since_start: Option<usize>,
    since_end: Option<usize>,
) -> bool {
    let c = chunk_len(s.len(), (display_width - 2 * CHART_PADDING) as nat);
    let width = s.len() / c;
    let left = display_width / 2 - width / 2;
    let bottom = graph_y + CHART_HEIGHT - 1;
    let range = chart_y_range(s);
    let ss: nat = match since_start { Some(k) => k as nat, None => 0 };
    let se: nat = match since_end { Some(k) => k as nat, None => 0 };
    &&& p.chunk_size == c
    &&& p.width == width
    &&& p.left == left
    &&& p.top == graph_y
    &&& p.bottom == bottom
    &&& p.center_x == left + (width - 1) / 2
    &&& (p.y_min, p.y_max) == range
    &&& p.columns@.len() == column_count(s.len(), c)
    &&& forall|j: int|
        0 <= j < p.columns@.len() ==> #[trigger] p.columns@[j] == chart_column(
            s,
            c,
            j as nat,
            left,
            bottom,
            CHART_HEIGHT as nat,
            range,
            ss,
            se,
        )
    &&& p.span == chart_span(s.len(), c, left, bottom, since_start, since_end)
}

/// Sum of `v[start..end]`.
fn sum_range(v: &Vec<u16>, start: usize, end: usize) -> (r: u32)
    requires
        start <= end <= v.len(),
        v.len() <= 712,
    ensures
        r == seq_sum(v@.subrange(start as int, end as int)),
{
    let mut acc: u32 = 0;
    let mut i: usize = start;
    while i < end
        invariant
            start <= i <= end <= v.len(),
            v.len() <= 712,
            acc == seq_sum(v@.subrange(start as int, i as int)),
        decreases end - i,
    {
        proof {
            assert(v@.subrange(start as int, i as int + 1).drop_last() =~= v@.subrange(start as int, i as int));
            lemma_seq_sum_bound(v@.subrange(start as int, i as int + 1));
            assert((i + 1 - start) * 65535 <= 712 * 65535) by (nonlinear_arith)
                requires i + 1 - start <= 712;
        }
        acc = acc + v[i] as u32;
        i = i + 1;
    }
    acc
}

/// The value range of the chart.
fn y_range(v: &Vec<u16>) -> (r: (u16, u16))
    requires
        seq_min(v@) < 65535,
    ensures
        r == chart_y_range(v@),
        r.0 <= seq_min(v@),
        r.1 >= seq_max(v@),
        r.0 < r.1,
{
    let lo = min_u16(v);
    let top = max_u16(v);
    let hi = if top >= lo + 1 { top } else { lo + 1 };
    let (lo2, hi2) = if hi - lo < 10 {
        (lo.saturating_sub(50), hi.saturating_add(50))
    } else {
        (lo, hi)
    };
    (lo2.saturating_sub((hi2 - lo2) / 5), hi2)
}

/// The columns of a chart of the samples `v`, `c` samples to a column.
fn plan_columns(
    v: &Vec<u16>,
    c: usize,
    left: i32,
    bottom: i32,
    height: i32,
    y_min: u16,
    y_max: u16,
    ss: usize,
    se: usize,
) -> (columns: Vec<ChartColumn>)
    requires
        v.len() <= 712,
        1 <= c <= 712,
        forall|j: nat| j < column_count(v@.len(), c as nat) ==> #[trigger] seq_sum(chunk_of(v@, c as nat, j)) <= 65535,
        v@.len() > 0 ==> y_min <= seq_min(v@) && y_max >= seq_max(v@),
        y_min < y_max,
        left + 712 <= i32::MAX,
        0 <= left,
        1 <= height <= 40,
        i32::MIN + height <= bottom,
        ss <= v.len(),
        se <= v.len(),
    ensures
        columns@.len() == column_count(v@.len(), c as nat),
        forall|t: int|
            0 <= t < columns@.len() ==> #[trigger] columns@[t] == chart_column(
                v@,
                c as nat,
                t as nat,
                left as int,
                bottom as int,
                height as nat,
                (y_min, y_max),
                ss as nat,
                se as nat,
            ),
{
    let ghost s = v@;
    let len = v.len();
    let mut columns: Vec<ChartColumn> = Vec::new();
    let mut j: usize = 0;
    let mut start: usize = 0;
    while start < len
        invariant
            v@ == s,
            len == s.len(),
            len <= 712,
            1 <= c <= 712,
            start == j * c,
            j == 0 || (j - 1) * c < len,
            start < len ==> j < column_count(len as nat, c as nat),
            columns@.len() == j,
            forall|j: nat| j < column_count(s.len(), c as nat) ==> #[trigger] seq_sum(chunk_of(s, c as nat, j)) <= 65535,
            s.len() > 0 ==> y_min <= seq_min(s) && y_max >= seq_max(s),
            y_min < y_max,
            left + 712 <= i32::MAX,
            0 <= left,
            1 <= height <= 40,
            i32::MIN + height <= bottom,
            ss <= len,
            se <= len,
            forall|t: int|
                0 <= t < j ==> #[trigger] columns@[t] == chart_column(
                    s,
                    c as nat,
                    t as nat,
                    left as int,
                    bottom as int,
                    height as nat,
                    (y_min, y_max),
                    ss as nat,
                    se as nat,
                ),
        decreases len + c - start,
    {
        assert(j < len) by (nonlinear_arith)
            requires
                start == j * c,
                start < len,
                c >= 1,
        ;
        let end: usize = if start + c <= len { start + c } else { len };
        proof {
            assert((j + 1) * c == j * c + c) by (nonlinear_arith);
            assert(chunk_of(s, c as nat, j as nat) == s.subrange(start as int, end as int));
        }
        let sum = sum_range(v, start, end);
        let count: u32 = (end - start) as u32;
        proof {
            let ch = s.subrange(start as int, end as int);
            lemma_seq_extremes(s);
            assert forall|i: int| 0 <= i < ch.len() implies seq_min(s) <= #[trigger] ch[i] <= seq_max(s) by {
                assert(ch[i] == s[start + i]);
            }
            lemma_seq_sum_between(ch, seq_min(s) as int, seq_max(s) as int);
            assert(seq_sum(chunk_of(s, c as nat, j as nat)) <= 65535);
        }
        let avg: u32 = sum / count;
        proof {
            let lo = seq_min(s) as int;
            let hi = seq_max(s) as int;
            assert(lo <= avg <= hi) by (nonlinear_arith)
                requires
                    count * lo <= sum <= count * hi,
                    count >= 1,
                    avg == (sum as int) / (count as int),
            {
                assert(avg * count <= sum);
                assert(sum < (avg + 1) * count);
            }
        }
        assert((avg - y_min) * height <= 65535 * 40) by (nonlinear_arith)
            requires
                0 <= avg - y_min <= 65535,
                1 <= height <= 40,
        ;
        let rise: i32 = (avg as i32 - y_min as i32) * height / (y_max as i32 - y_min as i32);
        proof {
            let d = avg - y_min;
            let h = y_max - y_min;
            assert(0 <= d * height / h <= height) by (nonlinear_arith)
                requires
                    0 <= d <= h,
                    h >= 1,
                    1 <= height <= 40,
            {
                assert(d * height <= h * height);
            }
        }
        let integrated = start > len - ss && start < len - se;
        let col = ChartColumn { x: left + j as i32, y: bottom - rise, integrated };
        columns.push(col);
        proof {
            assert(columns@[j as int] == chart_column(
                s,
                c as nat,
                j as nat,
                left as int,
                bottom as int,
                height as nat,
                (y_min, y_max),
                ss as nat,
                se as nat,
            ));
        }
        start = start + c;
        j = j + 1;
        proof {
            assert(start == j * c) by (nonlinear_arith)
                requires start == (j - 1) * c + c;
            if start < len {
                assert(j < column_count(len as nat, c as nat)) by (nonlinear_arith)
                    requires
                        j * c < len,
                        c >= 1,
                        column_count(len as nat, c as nat) == ((len - 1) as int) / (c as int) + 1,
                {
                    assert(j * c <= len - 1);
                    assert(j <= ((len - 1) as int) / (c as int));
                }
            }
        }
    }
    proof {
        if len > 0 {
            assert(j == column_count(len as nat, c as nat)) by (nonlinear_arith)
                requires
                    j * c >= len,
                    j == 0 || (j - 1) * c < len,
                    len >= 1,
                    c >= 1,
                    column_count(len as nat, c as nat) == ((len - 1) as int) / (c as int) + 1,
            {
                assert(j >= 1);
                assert((j - 1) * c <= len - 1);
                assert(len - 1 < j * c);
            }
        }
    }
    columns
}

/// Lays out the chart of the samples in `chart` (oldest first) on a display
/// `display_width` pixels wide, with its top at `graph_y`, marking the
/// pulse that started `since_start` and ended `since_end` samples before
/// the newest sample.
pub fn plan_chart(
    chart: &heapless::HistoryBuffer<u16, 712>,
    display_width: u32,
    graph_y: i32,
    since_start: Option<usize>,
    since_end: Option<usize>,
) -> (p: ChartPlan)
    requires
        ring_oldest(history712(*chart)).len() >= 1,
        seq_min(ring_oldest(history712(*chart))) < 65535,
        chart_sums_fit(ring_oldest(history712(*chart)), display_width),
        2 * CHART_PADDING < display_width,
        display_width + 1426 <= i32::MAX,
        i32::MIN + 1 <= graph_y,
        graph_y + 26 <= i32::MAX,
        since_start matches Some(k) ==> k <= ring_oldest(history712(*chart)).len(),
        since_end matches Some(k) ==> k <= ring_oldest(history712(*chart)).len(),
    ensures
        chart_layout(p, ring_oldest(history712(*chart)), display_width, graph_y, since_start, since_end),
{
    let ghost s = ring_oldest(history712(*chart));
    let raw = h712_oldest(chart);
    let len = h712_len(chart);
    assert(raw@ == s);
    let max_width = display_width - 2 * CHART_PADDING;
    let c: usize = (len - 1) / (max_width as usize) + 1;
    let ghost cn = chunk_len(s.len(), max_width as nat);
    assert(c == cn);
    proof {
        assert(c <= len) by (nonlinear_arith)
            requires
                c == ((len - 1) as int) / (max_width as int) + 1,
                max_width >= 1,
                len >= 1,
        {
            assert(((len - 1) as int) / (max_width as int) <= len - 1);
        }
        assert((len as int) / (c as int) <= max_width && (len as int) / (c as int) >= 1) by (nonlinear_arith)
            requires
                c == ((len - 1) as int) / (max_width as int) + 1,
                max_width >= 1,
                len >= 1,
                c <= len,
        {
            let q = ((len - 1) as int) / (max_width as int);
            assert(q * max_width + ((len - 1) as int) % (max_width as int) == len - 1);
            assert(c * max_width >= len);
            assert(((len as int) / (c as int)) * c <= len);
        }
    }
    let width: usize = len / c;
    let left: i32 = (display_width / 2 - (width as u32) / 2) as i32;
    let bottom: i32 = graph_y + (CHART_HEIGHT as i32) - 1;
    let range = y_range(&raw);
    let (y_min, y_max) = range;
    let ss: usize = match since_start { Some(k) => k, None => 0 };
    let se: usize = match since_end { Some(k) => k, None => 0 };

    assert forall|j: nat| j < column_count(s.len(), c as nat) implies #[trigger] seq_sum(chunk_of(s, c as nat, j))
        <= 65535 by {
        assert(chart_sums_fit(s, display_width));
        assert(cn == chunk_len(s.len(), (display_width - 2 * CHART_PADDING) as nat));
    }
    let columns = plan_columns(&raw, c, left, bottom, CHART_HEIGHT as i32, y_min, y_max, ss, se);

    let start_x: Option<i32> = match since_start {
        Some(k) => if k >= 1 { Some(left + ((len - k) / c) as i32) } else { None },
        None => None,
    };
    let end_x: Option<i32> = match since_end {
        Some(k) => if k >= 1 { Some(left + ((len - k) / c) as i32) } else { None },
        None => None,
    };
    let span = match (start_x, end_x) {
        (Some(a), Some(b)) => {
            let sx = if a <= b { a } else { b };
            Some(ChartSpan { start_x: sx, end_x: b, line_y: bottom + 7, label_x: (sx + b) / 2 })
        },
        _ => None,
    };
    let center_x = left + ((width - 1) / 2) as i32;
    ChartPlan {
        left,
        top: graph_y,
        width: width as u32,
        bottom,
        center_x,
        y_min,
        y_max,
        chunk_size: c as u32,
        columns,
        span,
    }
}

/// A duration ready to be printed: over 10 ms it is given in whole
/// milliseconds, otherwise in microseconds.
#[derive(Debug, Clone, Copy, PartialEq, Eq, Structural)]
pub enum TimeUnit {
    Micros,
    Millis,
}

pub fn micros_label(micros: u64) -> (r: (u64, TimeUnit))
    ensures
        r == (if micros > 10000 { (micros / 1000, TimeUnit::Millis) } else { (micros, TimeUnit::Micros) }),
{
    if micros > 10000 {
        (micros / 1000, TimeUnit::Millis)
    } else {
        (micros, TimeUnit::Micros)
    }
}

/// Height of the chart with start and end markers, in pixels.
pub const MARKER_CHART_HEIGHT: u32 = 40;

/// The values at the bottom and the top of a chart with markers: the
/// samples' range, at least one step high.
pub open spec fn plain_y_range(s: Seq<u16>) -> (u16, u16) {
    let lo = seq_min(s);
    (lo, if seq_max(s) >= lo + 1 { seq_max(s) } else { (lo + 1) as u16 })
}

/// Where a sample is marked on a chart.
#[derive(Debug, Clone, Copy, PartialEq, Eq, Structural)]
pub struct ChartMarker {
    pub x: i32,
    pub y: i32,
}

/// Where a chart with markers goes and what it shows.
pub struct MarkerChartPlan {
    pub left: i32,
    pub top: i32,
    pub width: u32,
    pub bottom: i32,
    pub y_min: u16,
    pub y_max: u16,
    pub chunk_size: u32,
    pub columns: Vec<ChartColumn>,
    pub start: Option<ChartMarker>,
    pub end: Option<ChartMarker>,
}

/// The marker of the sample `since` samples before the end of the chart,
/// if there is one: at its column, at the height of the value that the
/// buffer's storage holds at that index.
pub open spec fn chart_marker(
    len: nat,
    storage: Seq<u16>,
    c: nat,
    left: int,
    bottom: int,
    range: (u16, u16),
    since: Option<usize>,
) -> Option<ChartMarker> {
    match since {
        Some(k) => if k >= 1 {
            let idx = len - k;
            Some(ChartMarker {
                x: (left + idx / (c as int)) as i32,
                y: (bottom - (storage[idx] - range.0) * MARKER_CHART_HEIGHT / (range.1 - range.0)) as i32,
            })
        } else {
            None
        },
        None => None,
    }
}

/// The layout of the chart with markers of samples `s` (oldest first,
/// `storage` in the buffer's physical order) on a display `display_width`
/// pixels wide, with its top at `graph_y`: the columns start at the left
/// padding.
pub open spec fn marker_chart_layout(
    p: MarkerChartPlan,
    s: Seq<u16>,
    storage: Seq<u16>,
    display_width: u32,
    graph_y: i32,
    since_start: Option<usize>,
    since_end: Option<usize>,
) -> bool {
    let c = chunk_len(s.len(), (display_width - 2 * CHART_PADDING) as nat);
    let bottom = graph_y + MARKER_CHART_HEIGHT - 1;
    let range = plain_y_range(s);
    let ss: nat = match since_start { Some(k) => k as nat, None => 0 };
    let se: nat = match since_end { Some(k) => k as nat, None => 0 };
    &&& p.chunk_size == c
    &&& p.width == display_width - 2 * CHART_PADDING
    &&& p.left == CHART_PADDING
    &&& p.top == graph_y
    &&& p.bottom == bottom
    &&& (p.y_min, p.y_max) == range
    &&& p.columns@.len() == column_count(s.len(), c)
    &&& forall|j: int|
        0 <= j < p.columns@.len() ==> #[trigger] p.columns@[j] == chart_column(
            s,
            c,
            j as nat,
            CHART_PADDING as int,
            bottom,
            MARKER_CHART_HEIGHT as nat,
            range,
            ss,
            se,
        )
    &&& p.start == chart_marker(s.len(), storage, c, CHART_PADDING as int, bottom, range, since_start)
    &&& p.end == chart_marker(s.len(), storage, c, CHART_PADDING as int, bottom, range, since_end)
}

/// Whether every value of `storage` lies within the range of `s`.
pub open spec fn within_range(storage: Seq<u16>, s: Seq<u16>) -> bool {
    forall|i: int| 0 <= i < storage.len() ==> seq_min(s) <= #[trigger] storage[i] <= seq_max(s)
}

fn plan_marker_chart(
    oldest: &Vec<u16>,
    storage: &Vec<u16>,
    display_width: u32,
    graph_y: i32,
    since_start: Option<usize>,
    since_end: Option<usize>,
) -> (p: MarkerChartPlan)
    requires
        oldest.len() <= 500,
        storage.len() == oldest.len(),
        within_range(storage@, oldest@),
        oldest@.len() > 0 ==> seq_min(oldest@) < 65535,
        chart_sums_fit(oldest@, display_width),
        2 * CHART_PADDING < display_width,
        i32::MIN + 1 <= graph_y,
        graph_y + 39 <= i32::MAX,
        since_start matches Some(k) ==> k <= oldest.len(),
        since_end matches Some(k) ==> k <= oldest.len(),
    ensures
        marker_chart_layout(p, oldest@, storage@, display_width, graph_y, since_start, since_end),
{
    let ghost s = oldest@;
    let len = oldest.len();
    let max_width = display_width - 2 * CHART_PADDING;
    let c: usize = if len == 0 { 1 } else { (len - 1) / (max_width as usize) + 1 };
    let ghost cn = chunk_len(s.len(), max_width as nat);
    assert(c == cn);
    proof {
        if len > 0 {
            assert(c <= len) by (nonlinear_arith)
                requires
                    c == ((len - 1) as int) / (max_width as int) + 1,
                    max_width >= 1,
                    len >= 1,
            {
                assert(((len - 1) as int) / (max_width as int) <= len - 1);
            }
        }
    }
    let lo = min_u16(oldest);
    let top = max_u16(oldest);
    let hi = if top >= lo + 1 { top } else { lo + 1 };
    proof {
        if len > 0 {
            lemma_seq_extremes(s);
        }
    }
    let bottom: i32 = graph_y + (MARKER_CHART_HEIGHT as i32 - 1);
    let ss: usize = match since_start { Some(k) => k, None => 0 };
    let se: usize = match since_end { Some(k) => k, None => 0 };
    assert forall|j: nat| j < column_count(s.len(), c as nat) implies #[trigger] seq_sum(chunk_of(s, c as nat, j))
        <= 65535 by {
        assert(chart_sums_fit(s, display_width));
        assert(cn == chunk_len(s.len(), (display_width - 2 * CHART_PADDING) as nat));
    }
    let left = CHART_PADDING as i32;
    let columns = plan_columns(oldest, c, left, bottom, MARKER_CHART_HEIGHT as i32, lo, hi, ss, se);
    let start = marker_of(storage, len, c, left, bottom, lo, hi, since_start);
    let end = marker_of(storage, len, c, left, bottom, lo, hi, since_end);
    MarkerChartPlan {
        left,
        top: graph_y,
        width: max_width,
        bottom,
        y_min: lo,
        y_max: hi,
        chunk_size: c as u32,
        columns,
        start,
        end,
    }
}

fn marker_of(
    storage: &Vec<u16>,
    len: usize,
    c: usize,
    left: i32,
    bottom: i32,
    lo: u16,
    hi: u16,
    since: Option<usize>,
) -> (m: Option<ChartMarker>)
    requires
        storage.len() == len <= 500,
        1 <= c,
        forall|i: int| 0 <= i < len ==> lo <= #[trigger] storage@[i] <= hi,
        lo < hi,
        0 <= left <= 100,
        i32::MIN + 40 <= bottom,
        since matches Some(k) ==> k <= len,
    ensures
        m == chart_marker(len as nat, storage@, c as nat, left as int, bottom as int, (lo, hi), since),
{
    match since {
        Some(k) => if k >= 1 {
            let idx = len - k;
            let v = storage[idx];
            assert((v - lo) * 40 <= 65535 * 40) by (nonlinear_arith)
                requires
                    0 <= v - lo <= 65535,
            ;
            let rise: i32 = (v as i32 - lo as i32) * (MARKER_CHART_HEIGHT as i32) / (hi as i32 - lo as i32);
            proof {
                let d = v - lo;
                let h = hi - lo;
                assert(0 <= d * 40 / h <= 40) by (nonlinear_arith)
                    requires
                        0 <= d <= h,
                        h >= 1,
                {
                    assert(d * 40 <= h * 40);
                }
                assert(idx / c <= idx) by (nonlinear_arith)
                    requires
                        c >= 1,
                        idx >= 0,
                ;
            }
            Some(ChartMarker { x: left + (idx / c) as i32, y: bottom - rise })
        } else {
            None
        },
        None => None,
    }
}

/// The values of a history buffer's storage are those of its contents.
proof fn lemma_storage_within_range(h: (Seq<u16>, Seq<u16>))
    ensures
        within_range(ring_raw(h), ring_oldest(h)),
        ring_raw(h).len() == ring_oldest(h).len(),
{
    let o = ring_oldest(h);
    let r = ring_raw(h);
    if o.len() > 0 {
        lemma_seq_extremes(o);
        assert forall|i: int| 0 <= i < r.len() implies seq_min(o) <= #[trigger] r[i] <= seq_max(o) by {
            if i < h.1.len() {
                assert(r[i] == o[h.0.len() + i]);
            } else {
                assert(r[i] == o[i - h.1.len()]);
            }
        }
    }
}

/// Lays out the chart with markers of the samples of `chart`, marking the
/// samples `since_start` and `since_end` samples before the newest.
pub fn plan_ring_chart(
    chart: &heapless::HistoryBuffer<u16, 500>,
    display_width: u32,
    graph_y: i32,
    since_start: Option<usize>,
    since_end: Option<usize>,
) -> (p: MarkerChartPlan)
    requires
        ring_oldest(history500(*chart)).len() > 0 ==> seq_min(ring_oldest(history500(*chart))) < 65535,
        chart_sums_fit(ring_oldest(history500(*chart)), display_width),
        2 * CHART_PADDING < display_width,
        i32::MIN + 1 <= graph_y,
        graph_y + 39 <= i32::MAX,
        since_start matches Some(k) ==> k <= ring_oldest(history500(*chart)).len(),
        since_end matches Some(k) ==> k <= ring_oldest(history500(*chart)).len(),
    ensures
        marker_chart_layout(
            p,
            ring_oldest(history500(*chart)),
            ring_raw(history500(*chart)),
            display_width,
            graph_y,
            since_start,
            since_end,
        ),
{
    let oldest = h500_oldest(chart);
    let storage = h500_raw(chart);
    proof {
        lemma_storage_within_range(history500(*chart));
    }
    let n = h500_len(chart);
    assert(oldest.len() == n);
    plan_marker_chart(&oldest, &storage, display_width, graph_y, since_start, since_end)
}

/// Lays out the chart of the light level history of the debug view, which
/// has no markers.
pub fn plan_history_chart(chart: &heapless::HistoryBuffer<u16, 100>, display_width: u32, graph_y: i32) -> (p:
    MarkerChartPlan)
    requires
        ring_oldest(history100(*chart)).len() > 0 ==> seq_min(ring_oldest(history100(*chart))) < 65535,
        chart_sums_fit(ring_oldest(history100(*chart)), display_width),
        2 * CHART_PADDING < display_width,
        i32::MIN + 1 <= graph_y,
        graph_y + 39 <= i32::MAX,
    ensures
        marker_chart_layout(
            p,
            ring_oldest(history100(*chart)),
            ring_oldest(history100(*chart)),
            display_width,
            graph_y,
            None,
            None,
        ),
{
    let oldest = h100_oldest(chart);
    let n = h100_len(chart);
    assert(oldest.len() == n);
    proof {
        if oldest@.len() > 0 {
            lemma_seq_extremes(oldest@);
        }
    }
    plan_marker_chart(&oldest, &oldest, display_width, graph_y, None, None)
}

/// Whether every run of `c` samples of `v` adds up to at most 65535.
fn chunk_sums_fit(v: &Vec<u16>, c: usize) -> (ok: bool)
    requires
        v.len() <= 712,
        1 <= c <= 712,
    ensures
        ok == forall|j: nat| j < column_count(v@.len(), c as nat) ==> #[trigger] seq_sum(chunk_of(v@, c as nat, j)) <= 65535,
{
    let ghost s = v@;
    let len = v.len();
    let mut j: usize = 0;
    let mut start: usize = 0;
    while start < len
        invariant
            v@ == s,
            len == s.len() <= 712,
            1 <= c <= 712,
            start == j * c,
            j == 0 || (j - 1) * c < len,
            start < len ==> j < column_count(len as nat, c as nat),
            forall|t: nat| t < j ==> #[trigger] seq_sum(chunk_of(s, c as nat, t)) <= 65535,
        decreases len + c - start,
    {
        let end: usize = if start + c <= len { start + c } else { len };
        proof {
            assert((j + 1) * c == j * c + c) by (nonlinear_arith);
            assert(chunk_of(s, c as nat, j as nat) == s.subrange(start as int, end as int));
        }
        let sum = sum_range(v, start, end);
        if sum > 65535 {
            return false;
        }
        assert(j < len) by (nonlinear_arith)
            requires
                start == j * c,
                start < len,
                c >= 1,
        ;
        start = start + c;
        j = j + 1;
        proof {
            assert(start == j * c) by (nonlinear_arith)
                requires start == (j - 1) * c + c;
            if start < len {
                assert(j < column_count(len as nat, c as nat)) by (nonlinear_arith)
                    requires
                        j * c < len,
                        c >= 1,
                        column_count(len as nat, c as nat) == ((len - 1) as int) / (c as int) + 1,
                {
                    assert(j * c <= len - 1);
                    assert(j <= ((len - 1) as int) / (c as int));
                }
            }
        }
    }
    proof {
        if len > 0 {
            assert(j >= column_count(len as nat, c as nat)) by (nonlinear_arith)
                requires
                    j * c >= len,
                    len >= 1,
                    c >= 1,
                    column_count(len as nat, c as nat) == ((len - 1) as int) / (c as int) + 1,
            {
                assert(len - 1 < j * c);
                assert(((len - 1) as int) / (c as int) < j);
            }
        }
    }
    true
}

/// Whether `plan_chart` can lay out `chart` with these arguments (it
/// cannot for an empty chart, samples at the top of the range, columns
/// that add up beyond 16 bits, a display too narrow for the padding or
/// too wide for pixel positions, positions beyond 32 bits, or markers
/// before the first sample).
pub fn can_plan_chart(
    chart: &heapless::HistoryBuffer<u16, 712>,
    display_width: u32,
    graph_y: i32,
    since_start: Option<usize>,
    since_end: Option<usize>,
) -> (ok: bool)
    ensures
        ok == ({
            let s = ring_oldest(history712(*chart));
            &&& s.len() >= 1
            &&& seq_min(s) < 65535
            &&& chart_sums_fit(s, display_width)
            &&& 2 * CHART_PADDING < display_width
            &&& display_width + 1426 <= i32::MAX
            &&& i32::MIN + 1 <= graph_y
            &&& graph_y + 26 <= i32::MAX
            &&& (since_start matches Some(k) ==> k <= s.len())
            &&& (since_end matches Some(k) ==> k <= s.len())
        }),
{
    let ghost s = ring_oldest(history712(*chart));
    let v = h712_oldest(chart);
    let len = h712_len(chart);
    assert(v@ == s);
    if len == 0 || display_width <= 2 * CHART_PADDING || display_width > (i32::MAX - 1426) as u32 || graph_y
        == i32::MIN || graph_y > i32::MAX - 26 {
        return false;
    }
    if min_u16(&v) == u16::MAX {
        return false;
    }
    let ok_start = match since_start { Some(k) => k <= len, None => true };
    let ok_end = match since_end { Some(k) => k <= len, None => true };
    if !ok_start || !ok_end {
        return false;
    }
    let max_width = display_width - 2 * CHART_PADDING;
    let c: usize = (len - 1) / (max_width as usize) + 1;
    proof {
        assert(c <= len) by (nonlinear_arith)
            requires
                c == ((len - 1) as int) / (max_width as int) + 1,
                max_width >= 1,
                len >= 1,
        {
            assert(((len - 1) as int) / (max_width as int) <= len - 1);
        }
    }
    assert(c == chunk_len(s.len(), (display_width - 2 * CHART_PADDING) as nat));
    chunk_sums_fit(&v, c)
}

/// Whether `plan_ring_chart` can lay out `chart` with these arguments.
pub fn can_plan_ring_chart(
    chart: &heapless::HistoryBuffer<u16, 500>,
    display_width: u32,
    graph_y: i32,
    since_start: Option<usize>,
    since_end: Option<usize>,
) -> (ok: bool)
    ensures
        ok == ({
            let s = ring_oldest(history500(*chart));
            &&& (s.len() > 0 ==> seq_min(s) < 65535)
            &&& chart_sums_fit(s, display_width)
            &&& 2 * CHART_PADDING < display_width
            &&& i32::MIN + 1 <= graph_y
            &&& graph_y + 39 <= i32::MAX
            &&& (since_start matches Some(k) ==> k <= s.len())
            &&& (since_end matches Some(k) ==> k <= s.len())
        }),
{
    let ghost s = ring_oldest(history500(*chart));
    let v = h500_oldest(chart);
    let len = h500_len(chart);
    assert(v@ == s);
    if display_width <= 2 * CHART_PADDING || graph_y == i32::MIN || graph_y > i32::MAX - 39 {
        return false;
    }
    if len > 0 && min_u16(&v) == u16::MAX {
        return false;
    }
    let ok_start = match since_start { Some(k) => k <= len, None => true };
    let ok_end = match since_end { Some(k) => k <= len, None => true };
    if !ok_start || !ok_end {
        return false;
    }
    let max_width = display_width - 2 * CHART_PADDING;
    let c: usize = if len == 0 { 1 } else { (len - 1) / (max_width as usize) + 1 };
    proof {
        if len > 0 {
            assert(c <= len) by (nonlinear_arith)
                requires
                    c == ((len - 1) as int) / (max_width as int) + 1,
                    max_width >= 1,
                    len >= 1,
            {
                assert(((len - 1) as int) / (max_width as int) <= len - 1);
            }
        }
    }
    assert(c == chunk_len(s.len(), (display_width - 2 * CHART_PADDING) as nat));
    chunk_sums_fit(&v, c)
}

/// Whether `plan_history_chart` can lay out `chart` with these arguments.
pub fn can_plan_history_chart(chart: &heapless::HistoryBuffer<u16, 100>, display_width: u32, graph_y: i32) -> (ok:
    bool)
    ensures
        ok == ({
            let s = ring_oldest(history100(*chart));
            &&& (s.len() > 0 ==> seq_min(s) < 65535)
            &&& chart_sums_fit(s, display_width)
            &&& 2 * CHART_PADDING < display_width
            &&& i32::MIN + 1 <= graph_y
            &&& graph_y + 39 <= i32::MAX
        }),
{
    let ghost s = ring_oldest(history100(*chart));
    let v = h100_oldest(chart);
    let len = h100_len(chart);
    assert(v@ == s);
    if display_width <= 2 * CHART_PADDING || graph_y == i32::MIN || graph_y > i32::MAX - 39 {
        return false;
    }
    if len > 0 && min_u16(&v) == u16::MAX {
        return false;
    }
    let max_width = display_width - 2 * CHART_PADDING;
    let c: usize = if len == 0 { 1 } else { (len - 1) / (max_width as usize) + 1 };
    proof {
        if len > 0 {
            assert(c <= len) by (nonlinear_arith)
                requires
                    c == ((len - 1) as int) / (max_width as int) + 1,
                    max_width >= 1,
                    len >= 1,
            {
                assert(((len - 1) as int) / (max_width as int) <= len - 1);
            }
        }
    }
    assert(c == chunk_len(s.len(), (display_width - 2 * CHART_PADDING) as nat));
    chunk_sums_fit(&v, c)
}

/// Lays out the result chart when its layout can be computed without an
/// arithmetic overflow or an empty buffer (see `can_plan_chart`), and
/// gives nothing otherwise.
pub fn try_plan_chart(
    chart: &heapless::HistoryBuffer<u16, 712>,
    display_width: u32,
    graph_y: i32,
    since_start: Option<usize>,
    since_end: Option<usize>,
) -> (p: Option<ChartPlan>)
    ensures
        match p {
            Some(plan) => chart_layout(
                plan,
                ring_oldest(history712(*chart)),
                display_width,
                graph_y,
                since_start,
                since_end,
            ),
            None => {
                let s = ring_oldest(history712(*chart));
                !{
                    &&& s.len() >= 1
                    &&& seq_min(s) < 65535
                    &&& chart_sums_fit(s, display_width)
                    &&& 2 * CHART_PADDING < display_width
                    &&& display_width + 1426 <= i32::MAX
                    &&& i32::MIN + 1 <= graph_y
                    &&& graph_y + 26 <= i32::MAX
                    &&& (since_start matches Some(k) ==> k <= s.len())
                    &&& (since_end matches Some(k) ==> k <= s.len())
                }
            },
        },
{
    if can_plan_chart(chart, display_width, graph_y, since_start, since_end) {
        Some(plan_chart(chart, display_width, graph_y, since_start, since_end))
    } else {
        None
    }
}

/// Lays out the chart of a compacting measurement when its layout can be
/// computed without an arithmetic overflow (see `can_plan_ring_chart`),
/// and gives nothing otherwise.
pub fn try_plan_ring_chart(
    chart: &heapless::HistoryBuffer<u16, 500>,
    display_width: u32,
    graph_y: i32,
    since_start: Option<usize>,
    since_end: Option<usize>,
) -> (p: Option<MarkerChartPlan>)
    ensures
        match p {
            Some(plan) => marker_chart_layout(
                plan,
                ring_oldest(history500(*chart)),
                ring_raw(history500(*chart)),
                display_width,
                graph_y,
                since_start,
                since_end,
            ),
            None => {
                let s = ring_oldest(history500(*chart));
                !{
                    &&& (s.len() > 0 ==> seq_min(s) < 65535)
                    &&& chart_sums_fit(s, display_width)
                    &&& 2 * CHART_PADDING < display_width
                    &&& i32::MIN + 1 <= graph_y
                    &&& graph_y + 39 <= i32::MAX
                    &&& (since_start matches Some(k) ==> k <= s.len())
                    &&& (since_end matches Some(k) ==> k <= s.len())
                }
            },
        },
{
    if can_plan_ring_chart(chart, display_width, graph_y, since_start, since_end) {
        Some(plan_ring_chart(chart, display_width, graph_y, since_start, since_end))
    } else {
        None
    }
}

/// Lays out the chart of the debug view's light level history when its
/// layout can be computed without an arithmetic overflow (see
/// `can_plan_history_chart`), and gives nothing otherwise.
pub fn try_plan_history_chart(
    chart: &heapless::HistoryBuffer<u16, 100>,
    display_width: u32,
    graph_y: i32,
) -> (p: Option<MarkerChartPlan>)
    ensures
        match p {
            Some(plan) => marker_chart_layout(
                plan,
                ring_oldest(history100(*chart)),
                ring_oldest(history100(*chart)),
                display_width,
                graph_y,
                None,
                None,
            ),
            None => {
                let s = ring_oldest(history100(*chart));
                !{
                    &&& (s.len() > 0 ==> seq_min(s) < 65535)
                    &&& chart_sums_fit(s, display_width)
                    &&& 2 * CHART_PADDING < display_width
                    &&& i32::MIN + 1 <= graph_y
                    &&& graph_y + 39 <= i32::MAX
                }
            },
        },
{
    if can_plan_history_chart(chart, display_width, graph_y) {
        Some(plan_history_chart(chart, display_width, graph_y))
    } else {
        None
    }
}

} // verus!
