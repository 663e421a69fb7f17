//! The report of a plan as a page.

use vstd::prelude::*;

use crate::text::{decimal, decimal_text};

verus! {

/// How a character stands in a page.
pub open spec fn escaped_char(c: char) -> Seq<char> {
    if c == '&' {
        "&amp;"@
    } else if c == '<' {
        "&lt;"@
    } else if c == '>' {
        "&gt;"@
    } else if c == '"' {
        "&quot;"@
    } else if c == '\'' {
        "&#39;"@
    } else {
        seq![c]
    }
}

/// How a text stands in a page.
pub open spec fn escaped_text(s: Seq<char>) -> Seq<char>
    decreases s.len(),
{
    if s.len() == 0 {
        Seq::empty()
    } else {
        escaped_text(s.drop_last()) + escaped_char(s.last())
    }
}

/// A text as it stands in a page.
pub fn html_escape(input: &str) -> (r: String)
    ensures
        r@ == escaped_text(input@),
{
    let n: usize = input.unicode_len();
    let mut out = String::from_str("");
    let mut k: usize = 0;
    proof {
        reveal_strlit("");
        assert(out@ =~= escaped_text(input@.take(0)));
    }
    while k < n
        invariant
            k <= n,
            n == input@.len(),
            out@ == escaped_text(input@.take(k as int)),
        decreases n - k,
    {
        let c = input.get_char(k);
        proof {
            assert(input@.take(k + 1).drop_last() =~= input@.take(k as int));
        }
        let ghost before = out@;
        if c == '&' {
            out.append("&amp;");
        } else if c == '<' {
            out.append("&lt;");
        } else if c == '>' {
            out.append("&gt;");
        } else if c == '"' {
            out.append("&quot;");
        } else if c == '\'' {
            out.append("&#39;");
        } else {
            out.push(c);
            proof {
                assert(out@ =~= before + seq![c]);
            }
        }
        k = k + 1;
    }
    proof {
        assert(input@.take(n as int) =~= input@);
    }
    out
}

/// Whether a character ends a tag, an attribute or a text of a page.
pub open spec fn is_markup(c: char) -> bool {
    c == '<' || c == '>' || c == '"' || c == '\''
}

proof fn lemma_escaped_char_plain(c: char)
    ensures
        forall|k: int| 0 <= k < escaped_char(c).len() ==> !is_markup(#[trigger] escaped_char(c)[k]),
{
    reveal_strlit("&amp;");
    reveal_strlit("&lt;");
    reveal_strlit("&gt;");
    reveal_strlit("&quot;");
    reveal_strlit("&#39;");
}

/// An escaped text holds no character that could end the tag, the attribute or
/// the text that it stands in, and a text without such characters and without an
/// ampersand is kept as it is.
pub proof fn escaped_texts_hold_no_markup(s: Seq<char>)
    ensures
        forall|k: int| 0 <= k < escaped_text(s).len() ==> !is_markup(#[trigger] escaped_text(s)[k]),
        (forall|k: int| 0 <= k < s.len() ==> !is_markup(#[trigger] s[k]) && s[k] != '&')
            ==> escaped_text(s) == s,
    decreases s.len(),
{
    if s.len() > 0 {
        let front = s.drop_last();
        escaped_texts_hold_no_markup(front);
        lemma_escaped_char_plain(s.last());
        assert forall|k: int| 0 <= k < escaped_text(s).len() implies !is_markup(
            #[trigger] escaped_text(s)[k],
        ) by {
            if k < escaped_text(front).len() {
                assert(escaped_text(s)[k] == escaped_text(front)[k]);
            } else {
                assert(escaped_text(s)[k] == escaped_char(s.last())[k - escaped_text(front).len()]);
            }
        }
        if forall|k: int| 0 <= k < s.len() ==> !is_markup(#[trigger] s[k]) && s[k] != '&' {
            assert forall|k: int| 0 <= k < front.len() implies !is_markup(#[trigger] front[k])
                && front[k] != '&' by {
                assert(front[k] == s[k]);
            }
            assert(escaped_text(s) =~= s);
        }
    }
}

/// A picture of a page.
pub open spec fn image_tag(name: Seq<char>) -> Seq<char> {
    "<div><img src=\""@ + escaped_text(name) + "\" alt=\""@ + escaped_text(name) + "\"></div>"@
}

/// The pictures of a page, one on each line.
pub open spec fn image_tags(names: Seq<String>, n: int) -> Seq<char>
    decreases n,
{
    if n <= 0 {
        Seq::empty()
    } else if n == 1 {
        image_tag(names[0]@)
    } else {
        image_tags(names, n - 1) + "\n"@ + image_tag(names[n - 1]@)
    }
}

/// The pictures of a page, one on each line.
pub fn render_images(names: &Vec<String>) -> (r: String)
    ensures
        r@ == image_tags(names@, names@.len() as int),
{
    let mut out = String::from_str("");
    let mut k: usize = 0;
    proof {
        reveal_strlit("");
        assert(out@ =~= image_tags(names@, 0));
    }
    while k < names.len()
        invariant
            k <= names@.len(),
            out@ == image_tags(names@, k as int),
        decreases names@.len() - k,
    {
        if k > 0 {
            out.append("\n");
        }
        let ghost before = out@;
        let name = html_escape(names[k].as_str());
        out.append("<div><img src=\"");
        out.append(name.as_str());
        out.append("\" alt=\"");
        out.append(name.as_str());
        out.append("\"></div>");
        proof {
            assert(out@ =~= before + image_tag(names@[k as int]@));
            assert(out@ =~= image_tags(names@, k + 1));
        }
        k = k + 1;
    }
    out
}

/// A number with a label.
#[derive(Debug, Clone)]
pub struct Metric {
    pub label: String,
    /// The number, already written out.
    pub shown: String,
}

/// A number of a page.
pub open spec fn metric_tag(m: Metric) -> Seq<char> {
    "<div class=\"metric\"><div class=\"label\">"@ + escaped_text(m.label@)
        + "</div><div class=\"value\">"@ + m.shown@ + "</div></div>"@
}

/// The numbers of a page, one on each line.
pub open spec fn metric_tags(metrics: Seq<Metric>, n: int) -> Seq<char>
    decreases n,
{
    if n <= 0 {
        Seq::empty()
    } else if n == 1 {
        metric_tag(metrics[0])
    } else {
        metric_tags(metrics, n - 1) + "\n"@ + metric_tag(metrics[n - 1])
    }
}

/// The numbers of a page, one on each line.
pub fn render_metrics(metrics: &Vec<Metric>) -> (r: String)
    ensures
        r@ == metric_tags(metrics@, metrics@.len() as int),
{
    let mut out = String::from_str("");
    let mut k: usize = 0;
    proof {
        reveal_strlit("");
        assert(out@ =~= metric_tags(metrics@, 0));
    }
    while k < metrics.len()
        invariant
            k <= metrics@.len(),
            out@ == metric_tags(metrics@, k as int),
        decreases metrics@.len() - k,
    {
        if k > 0 {
            out.append("\n");
        }
        let ghost before = out@;
        out.append("<div class=\"metric\"><div class=\"label\">");
        out.append(html_escape(metrics[k].label.as_str()).as_str());
        out.append("</div><div class=\"value\">");
        out.append(metrics[k].shown.as_str());
        out.append("</div></div>");
        proof {
            assert(out@ =~= before + metric_tag(metrics@[k as int]));
            assert(out@ =~= metric_tags(metrics@, k + 1));
        }
        k = k + 1;
    }
    out
}

/// The colour of a line, one after another and then from the first again.
pub open spec fn line_color(k: int) -> Seq<char> {
    let c = k % 10;
    if c == 0 {
        "#37d67a"@
    } else if c == 1 {
        "#5ec8ff"@
    } else if c == 2 {
        "#f5b84b"@
    } else if c == 3 {
        "#ff6b8a"@
    } else if c == 4 {
        "#b18cff"@
    } else if c == 5 {
        "#78e0d4"@
    } else if c == 6 {
        "#e3d55d"@
    } else if c == 7 {
        "#ff9f5a"@
    } else if c == 8 {
        "#9ae66e"@
    } else {
        "#c0c7d6"@
    }
}

fn color_of(k: usize) -> (r: &'static str)
    ensures
        r@ == line_color(k as int),
{
    let c: usize = k % 10;
    if c == 0 {
        "#37d67a"
    } else if c == 1 {
        "#5ec8ff"
    } else if c == 2 {
        "#f5b84b"
    } else if c == 3 {
        "#ff6b8a"
    } else if c == 4 {
        "#b18cff"
    } else if c == 5 {
        "#78e0d4"
    } else if c == 6 {
        "#e3d55d"
    } else if c == 7 {
        "#ff9f5a"
    } else if c == 8 {
        "#9ae66e"
    } else {
        "#c0c7d6"
    }
}

/// Points, separated by blanks.
pub open spec fn points_of(points: Seq<String>, n: int) -> Seq<char>
    decreases n,
{
    if n <= 0 {
        Seq::empty()
    } else if n == 1 {
        points[0]@
    } else {
        points_of(points, n - 1) + " "@ + points[n - 1]@
    }
}

fn join_points(points: &Vec<String>) -> (r: String)
    ensures
        r@ == points_of(points@, points@.len() as int),
{
    let mut out = String::from_str("");
    let mut k: usize = 0;
    proof {
        reveal_strlit("");
        assert(out@ =~= points_of(points@, 0));
    }
    while k < points.len()
        invariant
            k <= points@.len(),
            out@ == points_of(points@, k as int),
        decreases points@.len() - k,
    {
        if k > 0 {
            out.append(" ");
        }
        out.append(points[k].as_str());
        proof {
            assert(out@ =~= points_of(points@, k + 1));
        }
        k = k + 1;
    }
    out
}

/// A line through points.
pub open spec fn line_tag(points: Seq<String>, k: int) -> Seq<char> {
    "<polyline fill=\"none\" stroke=\""@ + line_color(k) + "\" stroke-width=\"2\" points=\""@
        + points_of(points, points.len() as int) + "\"/>"@
}

/// Lines through points, one on each line of the text.
pub open spec fn line_tags(lines: Seq<Vec<String>>, n: int) -> Seq<char>
    decreases n,
{
    if n <= 0 {
        Seq::empty()
    } else if n == 1 {
        line_tag(lines[0]@, 0)
    } else {
        line_tags(lines, n - 1) + "\n"@ + line_tag(lines[n - 1]@, n - 1)
    }
}

fn render_lines(lines: &Vec<Vec<String>>) -> (r: String)
    ensures
        r@ == line_tags(lines@, lines@.len() as int),
{
    let mut out = String::from_str("");
    let mut k: usize = 0;
    proof {
        reveal_strlit("");
        assert(out@ =~= line_tags(lines@, 0));
    }
    while k < lines.len()
        invariant
            k <= lines@.len(),
            out@ == line_tags(lines@, k as int),
        decreases lines@.len() - k,
    {
        if k > 0 {
            out.append("\n");
        }
        let ghost before = out@;
        out.append("<polyline fill=\"none\" stroke=\"");
        out.append(color_of(k));
        out.append("\" stroke-width=\"2\" points=\"");
        out.append(join_points(&lines[k]).as_str());
        out.append("\"/>");
        proof {
            assert(out@ =~= before + line_tag(lines@[k as int]@, k as int));
            assert(out@ =~= line_tags(lines@, k + 1));
        }
        k = k + 1;
    }
    out
}

/// The actions of a plan as a drawing: a line for each component, through points
/// that are already written out.
pub fn render_action_svg(lines: &Vec<Vec<String>>) -> (r: String)
    ensures
        r@ == ACTION_HEAD@ + line_tags(lines@, lines@.len() as int) + "\n</svg>"@,
{
    let mut out = String::from_str(ACTION_HEAD);
    out.append(render_lines(lines).as_str());
    out.append("\n</svg>");
    out
}

/// The frame of the drawing of actions.
pub const ACTION_HEAD: &'static str =
    "<svg viewBox=\"0 0 980 300\" role=\"img\" aria-label=\"Selected action sequence\">\n<rect x=\"42\" y=\"16\" width=\"922\" height=\"252\" fill=\"#0a0d12\" stroke=\"#2c3340\"/>\n<line x1=\"42\" y1=\"142\" x2=\"964\" y2=\"142\" stroke=\"#3a4250\"/>\n<text x=\"8\" y=\"16\" fill=\"#9aa4b2\" font-size=\"12\">+1</text>\n<text x=\"8\" y=\"142\" fill=\"#9aa4b2\" font-size=\"12\">0</text>\n<text x=\"8\" y=\"268\" fill=\"#9aa4b2\" font-size=\"12\">-1</text>\n";

/// A bar of the drawing of costs, with its place and size already written out.
#[derive(Debug, Clone)]
pub struct Bar {
    pub x: String,
    pub y: String,
    pub width: String,
    pub height: String,
}

/// A bar.
pub open spec fn bar_tag(b: Bar) -> Seq<char> {
    "<rect x=\""@ + b.x@ + "\" y=\""@ + b.y@ + "\" width=\""@ + b.width@ + "\" height=\""@
        + b.height@ + "\" fill=\"#37d67a\" opacity=\"0.72\"/>"@
}

/// Bars, one on each line.
pub open spec fn bar_tags(bars: Seq<Bar>, n: int) -> Seq<char>
    decreases n,
{
    if n <= 0 {
        Seq::empty()
    } else if n == 1 {
        bar_tag(bars[0])
    } else {
        bar_tags(bars, n - 1) + "\n"@ + bar_tag(bars[n - 1])
    }
}

fn render_bars(bars: &Vec<Bar>) -> (r: String)
    ensures
        r@ == bar_tags(bars@, bars@.len() as int),
{
    let mut out = String::from_str("");
    let mut k: usize = 0;
    proof {
        reveal_strlit("");
        assert(out@ =~= bar_tags(bars@, 0));
    }
    while k < bars.len()
        invariant
            k <= bars@.len(),
            out@ == bar_tags(bars@, k as int),
        decreases bars@.len() - k,
    {
        if k > 0 {
            out.append("\n");
        }
        let ghost before = out@;
        out.append("<rect x=\"");
        out.append(bars[k].x.as_str());
        out.append("\" y=\"");
        out.append(bars[k].y.as_str());
        out.append("\" width=\"");
        out.append(bars[k].width.as_str());
        out.append("\" height=\"");
        out.append(bars[k].height.as_str());
        out.append("\" fill=\"#37d67a\" opacity=\"0.72\"/>");
        proof {
            assert(out@ =~= before + bar_tag(bars@[k as int]));
            assert(out@ =~= bar_tags(bars@, k + 1));
        }
        k = k + 1;
    }
    out
}

/// The frame of the drawing of costs.
pub const COST_HEAD: &'static str =
    "<svg viewBox=\"0 0 980 260\" role=\"img\" aria-label=\"Candidate cost distribution\">\n<rect x=\"42\" y=\"16\" width=\"922\" height=\"212\" fill=\"#0a0d12\" stroke=\"#2c3340\"/>\n";

/// The costs of candidates as a drawing: bars, a line at the selected cost and
/// the range.
pub fn render_cost_svg(bars: &Vec<Bar>, selected_x: &str, min: &str, max: &str) -> (r: String)
    ensures
        r@ == COST_HEAD@ + bar_tags(bars@, bars@.len() as int) + "\n<line x1=\""@ + selected_x@
            + "\" y1=\"16\" x2=\""@ + selected_x@
            + "\" y2=\"228\" stroke=\"#f5b84b\" stroke-width=\"3\"/>\n<text x=\"42\" y=\"252\" fill=\"#9aa4b2\" font-size=\"12\">min "@
            + min@
            + "</text>\n<text x=\"964\" y=\"252\" fill=\"#9aa4b2\" font-size=\"12\" text-anchor=\"end\">max "@
            + max@ + "</text>\n</svg>"@,
{
    let mut out = String::from_str(COST_HEAD);
    out.append(render_bars(bars).as_str());
    out.append("\n<line x1=\"");
    out.append(selected_x);
    out.append("\" y1=\"16\" x2=\"");
    out.append(selected_x);
    out.append(
        "\" y2=\"228\" stroke=\"#f5b84b\" stroke-width=\"3\"/>\n<text x=\"42\" y=\"252\" fill=\"#9aa4b2\" font-size=\"12\">min ",
    );
    out.append(min);
    out.append(
        "</text>\n<text x=\"964\" y=\"252\" fill=\"#9aa4b2\" font-size=\"12\" text-anchor=\"end\">max ",
    );
    out.append(max);
    out.append("</text>\n</svg>");
    out
}

/// How many of the first `n` places fall into a bin. Places beyond the last bin
/// fall into it.
pub open spec fn falls(places: Seq<usize>, n: int, bins: int, b: int) -> nat
    decreases n,
{
    if n <= 0 {
        0
    } else {
        let p = if places[n - 1] < bins {
            places[n - 1] as int
        } else {
            bins - 1
        };
        falls(places, n - 1, bins, b) + if p == b {
            1nat
        } else {
            0nat
        }
    }
}

/// The sum of the counts of the bins below one.
pub open spec fn falls_below(places: Seq<usize>, n: int, bins: int, b: int) -> nat
    decreases b,
{
    if b <= 0 {
        0
    } else {
        falls_below(places, n, bins, b - 1) + falls(places, n, bins, b - 1)
    }
}

/// How many places fall into each bin.
pub fn count_bins(places: &[usize], bins: usize) -> (r: Vec<usize>)
    requires
        bins > 0,
    ensures
        r@.len() == bins,
        forall|b: int|
            0 <= b < bins ==> #[trigger] r@[b] == falls(
                places@,
                places@.len() as int,
                bins as int,
                b,
            ),
{
    let mut counts: Vec<usize> = Vec::new();
    let mut b: usize = 0;
    while b < bins
        invariant
            b <= bins,
            counts@.len() == b,
            forall|j: int| 0 <= j < b ==> #[trigger] counts@[j] == 0,
        decreases bins - b,
    {
        counts.push(0);
        b = b + 1;
    }
    let mut k: usize = 0;
    while k < places.len()
        invariant
            k <= places@.len(),
            bins > 0,
            counts@.len() == bins,
            forall|j: int|
                0 <= j < bins ==> #[trigger] counts@[j] == falls(
                    places@,
                    k as int,
                    bins as int,
                    j,
                ) && counts@[j] <= k,
        decreases places@.len() - k,
    {
        let p: usize = if places[k] < bins {
            places[k]
        } else {
            bins - 1
        };
        let old_count: usize = counts[p];
        counts.set(p, old_count + 1);
        k = k + 1;
    }
    counts
}

proof fn lemma_one_more(places: Seq<usize>, n: int, bins: int, b: int)
    requires
        0 < n <= places.len(),
        0 <= b <= bins,
        bins > 0,
    ensures
        ({
            let p = if places[n - 1] < bins {
                places[n - 1] as int
            } else {
                bins - 1
            };
            falls_below(places, n, bins, b) == falls_below(places, n - 1, bins, b) + if p < b {
                1nat
            } else {
                0nat
            }
        }),
    decreases b,
{
    if b > 0 {
        lemma_one_more(places, n, bins, b - 1);
    }
}

/// The counts of all bins add up to the number of places: each place falls into
/// exactly one bin.
pub proof fn bins_hold_every_place(places: Seq<usize>, n: int, bins: int)
    requires
        bins > 0,
        0 <= n <= places.len(),
    ensures
        falls_below(places, n, bins, bins) == n,
    decreases n,
{
    if n > 0 {
        bins_hold_every_place(places, n - 1, bins);
        lemma_one_more(places, n, bins, bins);
    } else {
        lemma_no_places(places, bins, bins);
    }
}

proof fn lemma_no_places(places: Seq<usize>, bins: int, b: int)
    ensures
        falls_below(places, 0, bins, b) == 0,
    decreases b,
{
    if b > 0 {
        lemma_no_places(places, bins, b - 1);
    }
}

/// The name of a copied picture.
pub open spec fn picture_name(prefix: Seq<char>, k: nat) -> Seq<char> {
    prefix + "-"@ + (if k < 10 {
        "0"@
    } else {
        ""@
    }) + decimal(k) + ".jpg"@
}

/// The name of a copied picture: its number has at least two digits.
pub fn image_name(prefix: &str, k: usize) -> (r: String)
    ensures
        r@ == picture_name(prefix@, k as nat),
{
    let mut out = String::from_str(prefix);
    out.append("-");
    if k < 10 {
        out.append("0");
    } else {
        out.append("");
    }
    out.append(decimal_text(k as u64).as_str());
    out.append(".jpg");
    out
}

/// What a page is put together from. Only the pictures' names, the labels and the
/// first action are still to be escaped.
pub struct Page {
    pub json_name: String,
    pub current: Vec<String>,
    pub goal: Vec<String>,
    pub metrics: Vec<Metric>,
    pub action_svg: String,
    pub cost_svg: String,
    pub first_action: String,
}

/// The page up to the name of its data.
pub const PAGE_HEAD: &'static str =
    "<!doctype html>\n<html lang=\"en\">\n<head>\n<meta charset=\"utf-8\">\n<meta name=\"viewport\" content=\"width=device-width, initial-scale=1\">\n<title>LeWM PushT CUDA Plan</title>\n<style>\n:root { color-scheme: dark; --bg: #0f1115; --panel: #171b22; --text: #f0f3f7; --muted: #9aa4b2; --line: #2c3340; --accent: #37d67a; --warn: #f5b84b; }\nbody { margin: 0; background: var(--bg); color: var(--text); font: 14px/1.45 system-ui, -apple-system, BlinkMacSystemFont, \"Segoe UI\", sans-serif; }\nmain { max-width: 1180px; margin: 0 auto; padding: 28px; }\nh1 { font-size: 28px; margin: 0 0 6px; }\nh2 { font-size: 16px; margin: 0 0 12px; }\n.sub { color: var(--muted); margin: 0 0 24px; }\n.grid { display: grid; grid-template-columns: repeat(2, minmax(0, 1fr)); gap: 18px; }\n.panel { background: var(--panel); border: 1px solid var(--line); border-radius: 8px; padding: 16px; }\n.images { display: grid; grid-template-columns: repeat(auto-fit, minmax(160px, 1fr)); gap: 10px; }\nimg { width: 100%; border-radius: 6px; display: block; background: #080a0d; }\n.metric-grid { display: grid; grid-template-columns: repeat(auto-fit, minmax(150px, 1fr)); gap: 10px; }\n.metric { border: 1px solid var(--line); border-radius: 6px; padding: 10px; }\n.label { color: var(--muted); font-size: 12px; }\n.value { font-size: 20px; font-weight: 650; margin-top: 3px; }\nsvg { width: 100%; height: auto; display: block; }\npre { overflow: auto; background: #0a0d12; border: 1px solid var(--line); border-radius: 6px; padding: 12px; color: #dbe4ef; }\n.wide { grid-column: 1 / -1; }\n@media (max-width: 800px) { main { padding: 16px; } .grid { grid-template-columns: 1fr; } }\n</style>\n</head>\n<body>\n<main>\n<h1>LeWM PushT CUDA Plan</h1>\n<p class=\"sub\">Real stable-worldmodel LeWM checkpoint, JPEG decode through nvJPEG, Candle CUDA encode/rollout/scoring, Rust planner output. JSON: ";

/// From the name of the data to the pictures of the current frames.
pub const PAGE_CURRENT: &'static str =
    "</p>\n<section class=\"grid\">\n<div class=\"panel\">\n<h2>Current Image History</h2>\n";

/// Up to the pictures of the goal.
pub const PAGE_GOAL: &'static str =
    "\n</div>\n<div class=\"panel\">\n<h2>Goal Image History</h2>\n";

/// Up to the numbers.
pub const PAGE_RUNTIME: &'static str =
    "\n</div>\n<div class=\"panel wide\">\n<h2>Runtime</h2>\n<div class=\"metric-grid\">\n";

/// Up to the drawing of actions.
pub const PAGE_ACTIONS: &'static str =
    "\n</div>\n</div>\n<div class=\"panel wide\">\n<h2>Selected Action Sequence</h2>\n";

/// Up to the drawing of costs.
pub const PAGE_COSTS: &'static str =
    "\n</div>\n<div class=\"panel wide\">\n<h2>Final Candidate Cost Distribution</h2>\n";

/// Up to the first action.
pub const PAGE_FIRST: &'static str =
    "\n</div>\n<div class=\"panel wide\">\n<h2>First Action</h2>\n<pre>";

/// The end of the page.
pub const PAGE_END: &'static str =
    "</pre>\n</div>\n</section>\n</main>\n</body>\n</html>";

/// The text of a page.
pub open spec fn page_text(p: Page) -> Seq<char> {
    PAGE_HEAD@ + p.json_name@ + PAGE_CURRENT@ + image_tags(p.current@, p.current@.len() as int)
        + PAGE_GOAL@ + image_tags(p.goal@, p.goal@.len() as int) + PAGE_RUNTIME@ + metric_tags(
        p.metrics@,
        p.metrics@.len() as int,
    ) + PAGE_ACTIONS@ + p.action_svg@ + PAGE_COSTS@ + p.cost_svg@ + PAGE_FIRST@ + escaped_text(
        p.first_action@,
    ) + PAGE_END@
}

/// Writes a page.
pub fn render_html(p: &Page) -> (r: String)
    ensures
        r@ == page_text(*p),
{
    let mut out = String::from_str(PAGE_HEAD);
    out.append(p.json_name.as_str());
    out.append(PAGE_CURRENT);
    out.append(render_images(&p.current).as_str());
    out.append(PAGE_GOAL);
    out.append(render_images(&p.goal).as_str());
    out.append(PAGE_RUNTIME);
    out.append(render_metrics(&p.metrics).as_str());
    out.append(PAGE_ACTIONS);
    out.append(p.action_svg.as_str());
    out.append(PAGE_COSTS);
    out.append(p.cost_svg.as_str());
    out.append(PAGE_FIRST);
    out.append(html_escape(p.first_action.as_str()).as_str());
    out.append(PAGE_END);
    out
}

} // verus!
