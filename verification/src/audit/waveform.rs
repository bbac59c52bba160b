//! SVG waveforms: bucket bounds, bars and the cut marker.

use crate::text;
use vstd::prelude::*;

verus! {

/// Waveform width in SVG user units.
pub const WAVEFORM_WIDTH: u32 = 1200;

/// Waveform height in SVG user units.
pub const WAVEFORM_HEIGHT: u32 = 200;

/// Duration of `samples` mono samples, in milliseconds.
pub open spec fn duration_of(samples: int, sample_rate: int) -> int {
    if sample_rate == 0 {
        0
    } else if samples * 1000 / sample_rate > u64::MAX {
        u64::MAX as int
    } else {
        samples * 1000 / sample_rate
    }
}

/// Duration of decoded audio in milliseconds.
pub fn mono_duration_ms(samples: usize, sample_rate: u32) -> (r: u64)
    ensures
        r == duration_of(samples as int, sample_rate as int),
{
    if sample_rate == 0 {
        return 0;
    }
    let ms: u128 = (samples as u128) * 1000 / (sample_rate as u128);
    if ms > u64::MAX as u128 {
        u64::MAX
    } else {
        ms as u64
    }
}

/// Samples for each bucket.
pub open spec fn per_bucket(samples: int, target: int) -> int {
    (samples + target - 1) / target
}

/// End of bucket `i` of `per` samples out of `samples`.
pub open spec fn bucket_end(samples: int, per: int, i: int) -> int {
    if (i + 1) * per < samples {
        (i + 1) * per
    } else {
        samples
    }
}

/// Whether `bounds` cuts `samples` samples into buckets of `per`, the last
/// of which may be shorter.
pub open spec fn cut_into(bounds: Seq<(usize, usize)>, samples: int, per: int) -> bool {
    &&& forall|i: int|
        0 <= i < bounds.len() ==> (#[trigger] bounds[i]).0 == i * per && bounds[i].1 == bucket_end(
            samples,
            per,
            i,
        )
    &&& bounds.len() > 0
    &&& bounds.last().1 == samples
    &&& bounds.last().0 < samples
}

/// The sample ranges of the waveform's buckets: consecutive, of equal length
/// but for the last, covering all samples.
pub fn bucket_bounds(samples: usize, target: usize) -> (bounds: Vec<(usize, usize)>)
    ensures
        target == 0 || samples == 0 ==> bounds@.len() == 0,
        target > 0 && samples > 0 ==> cut_into(
            bounds@,
            samples as int,
            per_bucket(samples as int, target as int),
        ),
{
    let mut bounds: Vec<(usize, usize)> = Vec::new();
    if target == 0 || samples == 0 {
        return bounds;
    }
    proof {
        lemma_ceiling(samples as int, target as int);
    }
    let per: usize = if samples % target == 0 {
        samples / target
    } else {
        samples / target + 1
    };
    let mut idx: usize = 0;
    while idx < samples
        invariant
            0 < per <= samples,
            idx <= samples,
            bounds@.len() > 0 ==> bounds@.last().1 == idx && bounds@.last().0 < samples,
            bounds@.len() == 0 ==> idx == 0,
            idx < samples ==> idx == bounds@.len() * per,
            forall|i: int|
                0 <= i < bounds@.len() ==> (#[trigger] bounds@[i]).0 == i * per && bounds@[i].1
                    == bucket_end(samples as int, per as int, i),
        decreases samples - idx,
    {
        let end: usize = if samples - idx <= per {
            samples
        } else {
            idx + per
        };
        proof {
            let n = bounds@.len() as int;
            assert((n + 1) * per == n * per + per) by (nonlinear_arith);
        }
        bounds.push((idx, end));
        idx = end;
    }
    bounds
}

proof fn lemma_ceiling(samples: int, target: int)
    requires
        samples > 0,
        target > 0,
    ensures
        per_bucket(samples, target) == (if samples % target == 0 {
            samples / target
        } else {
            samples / target + 1
        }),
        0 < per_bucket(samples, target) <= samples,
{
    let q = samples / target;
    let r = samples % target;
    assert(samples == target * q + r && 0 <= r < target) by (nonlinear_arith)
        requires
            target > 0,
            q == samples / target,
            r == samples % target,
    ;
    assert(q >= 0 && (q > 0 || r > 0)) by (nonlinear_arith)
        requires
            samples == target * q + r,
            0 <= r < target,
            samples > 0,
            target > 0,
    ;
    if r == 0 {
        assert((samples + target - 1) / target == q) by (nonlinear_arith)
            requires
                samples == target * q,
                target > 0,
        ;
        assert(q <= samples) by (nonlinear_arith)
            requires
                samples == target * q,
                q >= 0,
                target > 0,
        ;
    } else {
        assert((samples + target - 1) / target == q + 1) by (nonlinear_arith)
            requires
                samples == target * q + r,
                0 < r < target,
        ;
        assert(q + 1 <= samples) by (nonlinear_arith)
            requires
                samples == target * q + r,
                0 < r < target,
                q >= 0,
        ;
    }
}

/// Width of one bar.
pub open spec fn bar_width(n: int) -> int {
    if n == 0 || 1200int / n < 1 {
        1
    } else {
        1200int / n
    }
}

/// Number of bars, as far as 32 bits count.
pub open spec fn bar_count(n: int) -> int {
    if n > u32::MAX {
        u32::MAX as int
    } else {
        n
    }
}

/// One bar of height `bar` above and below the middle.
pub open spec fn bar_text(i: int, bar: int, width: int) -> Seq<char> {
    "<rect x=\""@ + text::decimal((bar_count(i) * width) as nat) + "\" y=\""@ + text::decimal(
        (if bar > 100 {
            0
        } else {
            100 - bar
        }) as nat,
    ) + "\" width=\""@ + text::decimal(width as nat) + "\" height=\""@ + text::decimal(
        (bar * 2) as nat,
    ) + "\" fill=\"#2563eb\"/>"@
}

/// The first `n` bars.
pub open spec fn bars_text(bars: Seq<u32>, width: int, n: nat) -> Seq<char>
    decreases n,
{
    if n == 0 {
        Seq::empty()
    } else {
        bars_text(bars, width, (n - 1) as nat) + bar_text(n - 1, bars[n - 1] as int, width)
    }
}

/// Horizontal position of the cut marker.
pub open spec fn cut_x(offset_ms: int, duration_ms: int) -> int {
    if offset_ms * 1200 / duration_ms > 1200 {
        1200
    } else {
        offset_ms * 1200 / duration_ms
    }
}

/// The cut marker, where there is a cut and the audio has a duration.
pub open spec fn marker_text(duration_ms: u64, cut: Option<u64>) -> Seq<char> {
    match cut {
        Some(offset) if duration_ms > 0 => {
            let x = cut_x(offset as int, duration_ms as int);
            "<line x1=\""@ + text::decimal(x as nat) + "\" y1=\"0\" x2=\""@ + text::decimal(
                x as nat,
            ) + "\" y2=\"200\" stroke=\"#dc2626\" stroke-width=\"2\"/>"@ + "<text x=\""@
                + text::decimal(
                (if x > 50 {
                    x - 50
                } else {
                    0
                }) as nat,
            ) + "\" y=\"14\" fill=\"#dc2626\" font-family=\"monospace\" font-size=\"11\">"@
                + text::decimal(offset as nat) + " ms</text>"@
        },
        _ => Seq::empty(),
    }
}

/// The waveform of bars with the given heights.
pub open spec fn svg_text(bars: Seq<u32>, duration_ms: u64, cut: Option<u64>) -> Seq<char> {
    "<svg xmlns=\"http://www.w3.org/2000/svg\" viewBox=\"0 0 1200 200\" width=\"100%\" preserveAspectRatio=\"xMidYMid meet\" role=\"img\" aria-label=\"audio waveform\">"@
        + "<rect width=\"1200\" height=\"200\" fill=\"#f5f7fa\"/>"@
        + "<line x1=\"0\" y1=\"100\" x2=\"1200\" y2=\"100\" stroke=\"#cbd5e0\" stroke-width=\"1\"/>"@
        + bars_text(bars, bar_width(bar_count(bars.len() as int)), bars.len()) + marker_text(
        duration_ms,
        cut,
    ) + "</svg>"@
}

/// The placeholder for a clip without samples.
pub open spec fn empty_svg_text() -> Seq<char> {
    "<svg xmlns=\"http://www.w3.org/2000/svg\" viewBox=\"0 0 1200 200\" width=\"100%\"><rect width=\"1200\" height=\"200\" fill=\"#f5f7fa\"/><text x=\"20\" y=\"100\" font-family=\"monospace\" font-size=\"14\" fill=\"#94a3b8\">empty / decode failed</text></svg>"@
}

proof fn lemma_bar_fits(i: int, n: int, width: int)
    requires
        0 <= i < n,
        n <= u32::MAX,
        width == bar_width(n),
    ensures
        0 <= i * width <= u32::MAX,
{
    if 1200int / n < 1 {
        assert(i * width == i) by (nonlinear_arith)
            requires
                width == 1,
        ;
    } else {
        assert(0 <= i * width <= 1200) by (nonlinear_arith)
            requires
                0 <= i < n,
                width == 1200int / n,
                width >= 1,
        ;
    }
}

fn bar(i: usize, height: u32, width: u32) -> (s: String)
    requires
        height * 2 <= u32::MAX,
        bar_count(i as int) * width <= u32::MAX,
    ensures
        s@ == bar_text(i as int, height as int, width as int),
{
    let column: u32 = if i > u32::MAX as usize {
        u32::MAX
    } else {
        i as u32
    };
    let x: u32 = column * width;
    let y: u32 = if height > 100 {
        0
    } else {
        100 - height
    };
    let mut s = text::owned("<rect x=\"");
    s.append(text::u64_text(x as u64).as_str());
    s.append("\" y=\"");
    s.append(text::u64_text(y as u64).as_str());
    s.append("\" width=\"");
    s.append(text::u64_text(width as u64).as_str());
    s.append("\" height=\"");
    s.append(text::u64_text((height * 2) as u64).as_str());
    s.append("\" fill=\"#2563eb\"/>");
    s
}

fn marker(duration_ms: u64, cut: Option<u64>) -> (s: String)
    ensures
        s@ == marker_text(duration_ms, cut),
{
    match cut {
        Some(offset) => if duration_ms > 0 {
            let scaled: u128 = (offset as u128) * 1200 / (duration_ms as u128);
            let x: u64 = if scaled > 1200 {
                1200
            } else {
                scaled as u64
            };
            let label_x: u64 = if x > 50 {
                x - 50
            } else {
                0
            };
            let mut s = text::owned("<line x1=\"");
            s.append(text::u64_text(x).as_str());
            s.append("\" y1=\"0\" x2=\"");
            s.append(text::u64_text(x).as_str());
            s.append("\" y2=\"200\" stroke=\"#dc2626\" stroke-width=\"2\"/>");
            s.append("<text x=\"");
            s.append(text::u64_text(label_x).as_str());
            s.append("\" y=\"14\" fill=\"#dc2626\" font-family=\"monospace\" font-size=\"11\">");
            s.append(text::u64_text(offset).as_str());
            s.append(" ms</text>");
            s
        } else {
            String::new()
        },
        None => String::new(),
    }
}

/// Draws the waveform of bars with the given heights, with a marker at the
/// proposed cut.
pub fn emit_svg(bars: &Vec<u32>, duration_ms: u64, cut_offset_ms: Option<u64>) -> (s: String)
    requires
        forall|i: int| 0 <= i < bars@.len() ==> #[trigger] bars@[i] * 2 <= u32::MAX,
    ensures
        s@ == svg_text(bars@, duration_ms, cut_offset_ms),
{
    let n: u32 = if bars.len() > u32::MAX as usize {
        u32::MAX
    } else {
        bars.len() as u32
    };
    let width: u32 = if n == 0 || WAVEFORM_WIDTH / n < 1 {
        1
    } else {
        WAVEFORM_WIDTH / n
    };
    let mut body = String::new();
    let mut i: usize = 0;
    while i < bars.len()
        invariant
            i <= bars@.len(),
            n == bar_count(bars@.len() as int),
            width == bar_width(n as int),
            forall|j: int| 0 <= j < bars@.len() ==> #[trigger] bars@[j] * 2 <= u32::MAX,
            body@ == bars_text(bars@, width as int, i as nat),
        decreases bars@.len() - i,
    {
        proof {
            if i < n {
                lemma_bar_fits(i as int, n as int, width as int);
            } else {
                assert(n == u32::MAX);
                assert(width == 1);
                assert(bar_count(i as int) * width == bar_count(i as int)) by (nonlinear_arith)
                    requires
                        width == 1,
                ;
            }
        }
        body.append(bar(i, bars[i], width).as_str());
        i = i + 1;
    }
    let mut s = text::owned(
        "<svg xmlns=\"http://www.w3.org/2000/svg\" viewBox=\"0 0 1200 200\" width=\"100%\" preserveAspectRatio=\"xMidYMid meet\" role=\"img\" aria-label=\"audio waveform\">",
    );
    s.append("<rect width=\"1200\" height=\"200\" fill=\"#f5f7fa\"/>");
    s.append(
        "<line x1=\"0\" y1=\"100\" x2=\"1200\" y2=\"100\" stroke=\"#cbd5e0\" stroke-width=\"1\"/>",
    );
    s.append(body.as_str());
    s.append(marker(duration_ms, cut_offset_ms).as_str());
    s.append("</svg>");
    s
}

/// The placeholder for a clip without samples.
pub fn empty_svg() -> (s: String)
    ensures
        s@ == empty_svg_text(),
{
    text::owned(
        "<svg xmlns=\"http://www.w3.org/2000/svg\" viewBox=\"0 0 1200 200\" width=\"100%\"><rect width=\"1200\" height=\"200\" fill=\"#f5f7fa\"/><text x=\"20\" y=\"100\" font-family=\"monospace\" font-size=\"14\" fill=\"#94a3b8\">empty / decode failed</text></svg>",
    )
}

/// Draws a decoded clip: its bars, or the placeholder where it has no
/// samples.
pub fn render(samples: usize, bars: &Vec<u32>, duration_ms: u64, cut_offset_ms: Option<u64>) -> (s:
    String)
    requires
        forall|i: int| 0 <= i < bars@.len() ==> #[trigger] bars@[i] * 2 <= u32::MAX,
    ensures
        s@ == (if samples == 0 {
            empty_svg_text()
        } else {
            svg_text(bars@, duration_ms, cut_offset_ms)
        }),
{
    if samples == 0 {
        empty_svg()
    } else {
        emit_svg(bars, duration_ms, cut_offset_ms)
    }
}

// ── Laws ───────────────────────────────────────────────────────────

/// The duration is that of the samples at their rate, to the millisecond
/// below.
pub proof fn law_duration_is_samples_over_rate(samples: int, rate: int)
    requires
        samples >= 0,
        rate > 0,
        samples * 1000 / rate <= u64::MAX,
    ensures
        duration_of(samples, rate) * rate <= samples * 1000 < (duration_of(samples, rate) + 1)
            * rate,
        duration_of(samples, 0) == 0,
{
    let n = samples * 1000;
    assert(n / rate * rate <= n && n < (n / rate + 1) * rate) by (nonlinear_arith)
        requires
            rate > 0,
            n >= 0,
    ;
}

/// The buckets begin with the first sample, follow each other without gap, end
/// with the last sample, and hold one sample at least and `per` at most.
pub proof fn law_buckets_tile(bounds: Seq<(usize, usize)>, samples: int, per: int, i: int)
    requires
        cut_into(bounds, samples, per),
        0 <= i < bounds.len(),
        per > 0,
    ensures
        bounds[0].0 == 0,
        bounds.last().1 == samples,
        bounds[i].0 < bounds[i].1,
        bounds[i].1 - bounds[i].0 <= per,
        i + 1 < bounds.len() ==> bounds[i].1 == bounds[i + 1].0 && bounds[i].1 - bounds[i].0 == per,
{
    let last = bounds.len() - 1;
    assert((i + 1) * per == i * per + per) by (nonlinear_arith);
    assert(bounds[i].0 == i * per);
    assert(bounds[last].0 == last * per);
    assert(i * per <= last * per) by (nonlinear_arith)
        requires
            i <= last,
            per > 0,
    ;
    if i + 1 < bounds.len() {
        assert(bounds[i + 1].0 == (i + 1) * per);
        assert((i + 1) * per <= last * per) by (nonlinear_arith)
            requires
                i + 1 <= last,
                per > 0,
        ;
    }
    assert(bounds[0].0 == 0 * per);
}

/// A bucket holds as many samples as are needed for no more buckets than were
/// asked for, and no more.
pub proof fn law_bucket_size(samples: int, target: int)
    requires
        samples > 0,
        target > 0,
    ensures
        per_bucket(samples, target) * target >= samples,
        (per_bucket(samples, target) - 1) * target < samples,
{
    let n = samples + target - 1;
    assert(n / target * target <= n && n < (n / target + 1) * target) by (nonlinear_arith)
        requires
            target > 0,
            n >= 0,
    ;
    let p = n / target;
    assert((p + 1) * target == p * target + target && (p - 1) * target == p * target - target)
        by (nonlinear_arith);
}

/// The bars share the width: as wide as they can be so that all fit, and one
/// unit at least.
pub proof fn law_bars_share_the_width(n: int)
    requires
        n > 0,
    ensures
        bar_width(n) >= 1,
        n <= 1200 ==> n * bar_width(n) <= 1200 < n * (bar_width(n) + 1),
        n > 1200 ==> bar_width(n) == 1,
{
    assert(1200int / n * n <= 1200 && 1200 < (1200int / n + 1) * n) by (nonlinear_arith)
        requires
            n > 0,
    ;
    let w = 1200int / n;
    assert(n * w == w * n && n * (w + 1) == (w + 1) * n) by (nonlinear_arith);
    if n <= 1200 {
        assert(w >= 1) by (nonlinear_arith)
            requires
                1200 < (w + 1) * n,
                n <= 1200,
                n > 0,
        ;
    } else {
        assert(w < 1) by (nonlinear_arith)
            requires
                w * n <= 1200,
                n > 1200,
        ;
    }
}

/// Each bar stands behind those before it and reaches as far above the middle
/// as below.
pub proof fn law_bar_geometry(i: int, bar: int, width: int)
    requires
        0 <= i <= u32::MAX,
        0 <= bar <= 100,
    ensures
        bar_text(i, bar, width) == "<rect x=\""@ + text::decimal((i * width) as nat) + "\" y=\""@
            + text::decimal((100 - bar) as nat) + "\" width=\""@ + text::decimal(width as nat)
            + "\" height=\""@ + text::decimal((bar * 2) as nat) + "\" fill=\"#2563eb\"/>"@,
{
}

/// The bars stand in their order, one for each.
pub proof fn law_bars_in_order(bars: Seq<u32>, width: int, n: nat)
    requires
        n < bars.len(),
    ensures
        bars_text(bars, width, 0) == Seq::<char>::empty(),
        bars_text(bars, width, n + 1) == bars_text(bars, width, n) + bar_text(
            n as int,
            bars[n as int] as int,
            width,
        ),
{
}

/// The marker stands where the cut is: as far along the width as the cut is
/// along the duration, and at the right end for a cut behind the end.
pub proof fn law_marker_place(offset: int, duration: int)
    requires
        0 <= offset,
        0 < duration,
    ensures
        offset < duration ==> cut_x(offset, duration) * duration <= offset * 1200 < (cut_x(
            offset,
            duration,
        ) + 1) * duration,
        offset >= duration ==> cut_x(offset, duration) == 1200,
        0 <= cut_x(offset, duration) <= 1200,
{
    let n = offset * 1200;
    let q = n / duration;
    assert(q * duration <= n && n < (q + 1) * duration && q >= 0) by (nonlinear_arith)
        requires
            duration > 0,
            n >= 0,
            q == n / duration,
    ;
    if offset < duration {
        assert(q <= 1200) by (nonlinear_arith)
            requires
                q * duration <= n,
                n < 1200 * duration,
                duration > 0,
        ;
    } else {
        assert(q >= 1200) by (nonlinear_arith)
            requires
                n < (q + 1) * duration,
                n >= 1200 * duration,
                duration > 0,
        ;
    }
}

/// There is a marker exactly where there is a cut and a duration.
pub proof fn law_marker_shown(duration_ms: u64, cut: u64)
    ensures
        marker_text(duration_ms, None).len() == 0,
        marker_text(0, Some(cut)).len() == 0,
        duration_ms > 0 ==> marker_text(duration_ms, Some(cut)).len() > 0,
{
    reveal_strlit(" ms</text>");
}

/// A waveform is the background, the middle line, the bars and the marker, in
/// this order; the bars share the width among them all.
pub proof fn law_waveform_parts(bars: Seq<u32>, duration_ms: u64, cut: Option<u64>)
    requires
        bars.len() <= u32::MAX,
    ensures
        svg_text(bars, duration_ms, cut)
            == "<svg xmlns=\"http://www.w3.org/2000/svg\" viewBox=\"0 0 1200 200\" width=\"100%\" preserveAspectRatio=\"xMidYMid meet\" role=\"img\" aria-label=\"audio waveform\">"@
            + "<rect width=\"1200\" height=\"200\" fill=\"#f5f7fa\"/>"@
            + "<line x1=\"0\" y1=\"100\" x2=\"1200\" y2=\"100\" stroke=\"#cbd5e0\" stroke-width=\"1\"/>"@
            + bars_text(bars, bar_width(bars.len() as int), bars.len()) + marker_text(
            duration_ms,
            cut,
        ) + "</svg>"@,
        bar_count(bars.len() as int) == bars.len(),
        empty_svg_text()
            == "<svg xmlns=\"http://www.w3.org/2000/svg\" viewBox=\"0 0 1200 200\" width=\"100%\"><rect width=\"1200\" height=\"200\" fill=\"#f5f7fa\"/><text x=\"20\" y=\"100\" font-family=\"monospace\" font-size=\"14\" fill=\"#94a3b8\">empty / decode failed</text></svg>"@,
{
}

/// The marker is a line from top to bottom at the place of the cut, with the
/// time of the cut beside it: fifty to the left, as far as there is room.
pub proof fn law_marker_text(duration_ms: u64, cut: u64)
    requires
        duration_ms > 0,
    ensures
        ({
            let x = cut_x(cut as int, duration_ms as int);
            let left = if x >= 50 { x - 50 } else { 0 };
            let at = text::decimal(x as nat);
            marker_text(duration_ms, Some(cut)) == "<line x1=\""@ + at + "\" y1=\"0\" x2=\""@ + at
                + "\" y2=\"200\" stroke=\"#dc2626\" stroke-width=\"2\"/>"@ + "<text x=\""@
                + text::decimal(left as nat)
                + "\" y=\"14\" fill=\"#dc2626\" font-family=\"monospace\" font-size=\"11\">"@
                + text::decimal(cut as nat) + " ms</text>"@
        }),
{
}

/// The drawing is as wide and as high as its view box says.
pub proof fn law_drawing_size()
    ensures
        WAVEFORM_WIDTH == 1200,
        WAVEFORM_HEIGHT == 200,
{
}

} // verus!
