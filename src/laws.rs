use crate::content::{
    child_open, children, content_html, fit_html, import_shown, media_items, media_part, percent_spec, percent_units,
    stack_block, stack_items, text_part, Content, Layout,
};
use crate::media::{IFrame, Img, Video};
use crate::frag_map::{frag_class, frag_heads, frag_wrap_spec, span_open, tag_count};
use crate::markdown::markdown_html;
use crate::metadata::{page_title, Metadata};
use crate::slides::{
    has_outline, header_div, heading, outline_part, slide_attrs, slide_html, slide_title, ChapterSlide, Slide,
};
use crate::text::wrap_spec;
use vstd::prelude::*;

verus! {

/// The classes of the maps, among the first `n`, that name `tag`, in order.
pub open spec fn tag_classes(maps: Seq<Vec<(String, String)>>, tag: Seq<char>, n: nat) -> Seq<Seq<char>>
    decreases n,
{
    if n == 0 {
        Seq::empty()
    } else {
        let p = tag_classes(maps, tag, (n - 1) as nat);
        match frag_class(maps[n - 1]@, tag) {
            Some(c) => p.push(c),
            None => p,
        }
    }
}

/// Opening fragment tags with the given classes and the indices `i`, `i + 1`, ...
pub open spec fn spans_from(classes: Seq<Seq<char>>, i: nat) -> Seq<char>
    decreases classes.len(),
{
    if classes.len() == 0 {
        Seq::empty()
    } else {
        spans_from(classes.drop_last(), i) + span_open(classes.last(), (i + classes.len() - 1) as u64)
    }
}

/// The number of fragments that an element with this rendered text takes.
pub open spec fn wrap_count(maps: Seq<Vec<(String, String)>>, tag: Seq<char>, text: Seq<char>) -> nat {
    if text.len() == 0 { 0 } else { tag_count(maps, tag, maps.len()) }
}

/// The number of fragments of the first `n` fit texts.
pub open spec fn fit_count(maps: Seq<Vec<(String, String)>>, fit: Seq<String>, n: nat) -> nat
    decreases n,
{
    if n == 0 || n > fit.len() {
        0
    } else {
        fit_count(maps, fit, (n - 1) as nat) + if fit[n - 1]@ == "---"@ { 0 } else { wrap_count(maps, "fit"@, fit[n - 1]@) }
    }
}

/// The number of fragments of the texts of a block.
pub open spec fn text_count(c: Content, inc: Seq<(String, String)>) -> nat {
    let maps = c.frag.frag@;
    fit_count(maps, c.fit@, c.fit@.len()) + wrap_count(maps, "doc"@, markdown_html(c.doc@))
        + wrap_count(maps, "import"@, import_shown(c, inc))
        + wrap_count(maps, "math"@, wrap_spec(c.math@, "\\["@, "\\]"@))
}

/// The number of fragments of the first `n` media items of one kind.
pub open spec fn media_count(maps: Seq<Vec<(String, String)>>, tag: Seq<char>, htmls: Seq<Seq<char>>, n: nat) -> nat
    decreases n,
{
    if n == 0 || n > htmls.len() {
        0
    } else {
        media_count(maps, tag, htmls, (n - 1) as nat) + wrap_count(maps, tag, htmls[n - 1])
    }
}

/// The number of fragments of the images, videos and frames of a block.
pub open spec fn media_total(c: Content) -> nat {
    let maps = c.frag.frag@;
    let a = c.img@.map_values(|x: Img| x.html_spec());
    let b = c.video@.map_values(|x: Video| x.html_spec());
    let d = c.iframe@.map_values(|x: IFrame| x.html_spec());
    media_count(maps, "img"@, a, a.len()) + media_count(maps, "video"@, b, b.len()) + media_count(maps, "iframe"@, d, d.len())
}

/// The number of fragment-tagged elements of a block, media and stacks included.
pub open spec fn frag_total(c: Content, inc: Seq<(String, String)>) -> nat
    decreases c, 1nat, 0nat,
{
    text_count(c, inc) + media_total(c) + stack_count(c, Layout::Row, children(c, Layout::Row).len(), inc)
        + stack_count(c, Layout::Column, children(c, Layout::Column).len(), inc)
        + stack_count(c, Layout::RowBorder, children(c, Layout::RowBorder).len(), inc)
        + stack_count(c, Layout::ColumnBorder, children(c, Layout::ColumnBorder).len(), inc)
}

/// The number of fragment-tagged elements of the first `n` blocks of a stack.
pub open spec fn stack_count(c: Content, kind: Layout, n: nat, inc: Seq<(String, String)>) -> nat
    decreases c, 0nat, n,
{
    if n == 0 || n > children(c, kind).len() {
        0
    } else {
        stack_count(c, kind, (n - 1) as nat, inc) + frag_total(children(c, kind)[n - 1], inc)
    }
}

/// The fragment spans around one element carry consecutive indices from the
/// counter on, in the order of the maps, and the counter moves past them.
pub proof fn lemma_fragment_spans(maps: Seq<Vec<(String, String)>>, tag: Seq<char>, n: nat, i: u64)
    requires
        n <= maps.len(),
        i + tag_count(maps, tag, n) <= u64::MAX,
    ensures
        frag_heads(maps, tag, n, i).0 == spans_from(tag_classes(maps, tag, n), i as nat),
        frag_heads(maps, tag, n, i).2 == i + tag_count(maps, tag, n),
        tag_classes(maps, tag, n).len() == tag_count(maps, tag, n),
    decreases n,
{
    if n > 0 {
        lemma_fragment_spans(maps, tag, (n - 1) as nat, i);
        let p = tag_classes(maps, tag, (n - 1) as nat);
        match frag_class(maps[n - 1]@, tag) {
            Some(c) => {
                assert(p.push(c).drop_last() =~= p);
            },
            None => {},
        }
    }
}

proof fn lemma_wrap_count(maps: Seq<Vec<(String, String)>>, tag: Seq<char>, text: Seq<char>, i: u64)
    requires
        i + wrap_count(maps, tag, text) <= u64::MAX,
    ensures
        frag_wrap_spec(maps, tag, text, i).1 == i + wrap_count(maps, tag, text),
{
    if text.len() > 0 {
        lemma_fragment_spans(maps, tag, maps.len(), i);
    }
}

proof fn lemma_fit_count(maps: Seq<Vec<(String, String)>>, fit: Seq<String>, n: nat, i: u64)
    requires
        n <= fit.len(),
        i + fit_count(maps, fit, n) <= u64::MAX,
    ensures
        fit_html(maps, fit, n, i).1 == i + fit_count(maps, fit, n),
    decreases n,
{
    if n > 0 {
        lemma_fit_count(maps, fit, (n - 1) as nat, i);
        let p = fit_html(maps, fit, (n - 1) as nat, i);
        if fit[n - 1]@ != "---"@ {
            lemma_wrap_count(maps, "fit"@, fit[n - 1]@, p.1);
        }
    }
}

proof fn lemma_media_count(maps: Seq<Vec<(String, String)>>, tag: Seq<char>, htmls: Seq<Seq<char>>, n: nat, i: u64)
    requires
        n <= htmls.len(),
        i + media_count(maps, tag, htmls, n) <= u64::MAX,
    ensures
        media_items(maps, tag, htmls, n, i).1 == i + media_count(maps, tag, htmls, n),
    decreases n,
{
    if n > 0 {
        lemma_media_count(maps, tag, htmls, (n - 1) as nat, i);
        let p = media_items(maps, tag, htmls, (n - 1) as nat, i);
        lemma_wrap_count(maps, tag, htmls[n - 1], p.1);
    }
}

proof fn lemma_text_count(c: Content, inc: Seq<(String, String)>, i: u64)
    requires
        i + text_count(c, inc) <= u64::MAX,
    ensures
        text_part(c, inc, i).1 == i + text_count(c, inc),
{
    let maps = c.frag.frag@;
    let f = fit_html(maps, c.fit@, c.fit@.len(), i);
    lemma_fit_count(maps, c.fit@, c.fit@.len(), i);
    let d = frag_wrap_spec(maps, "doc"@, markdown_html(c.doc@), f.1);
    lemma_wrap_count(maps, "doc"@, markdown_html(c.doc@), f.1);
    let n = frag_wrap_spec(maps, "import"@, import_shown(c, inc), d.1);
    lemma_wrap_count(maps, "import"@, import_shown(c, inc), d.1);
    lemma_wrap_count(maps, "math"@, wrap_spec(c.math@, "\\["@, "\\]"@), n.1);
}

proof fn lemma_media_total(c: Content, i: u64)
    requires
        i + media_total(c) <= u64::MAX,
    ensures
        media_part(c, i).1 == i + media_total(c),
{
    let maps = c.frag.frag@;
    let a = c.img@.map_values(|x: Img| x.html_spec());
    let b = c.video@.map_values(|x: Video| x.html_spec());
    let d = c.iframe@.map_values(|x: IFrame| x.html_spec());
    lemma_media_count(maps, "img"@, a, a.len(), i);
    let m1 = media_items(maps, "img"@, a, a.len(), i);
    lemma_media_count(maps, "video"@, b, b.len(), m1.1);
    let m2 = media_items(maps, "video"@, b, b.len(), m1.1);
    lemma_media_count(maps, "iframe"@, d, d.len(), m2.1);
}

/// Rendering a block moves the fragment counter on by exactly the number of
/// its fragment-tagged elements, media and stacks included, wherever the
/// counter starts.
pub proof fn lemma_fragment_count(c: Content, inc: Seq<(String, String)>, i: u64)
    requires
        i + frag_total(c, inc) <= u64::MAX,
    ensures
        content_html(c, inc, i).1 == i + frag_total(c, inc),
    decreases c, 1nat, 0nat,
{
    lemma_text_count(c, inc, i);
    let t = text_part(c, inc, i);
    lemma_media_total(c, t.1);
    let m = media_part(c, t.1);
    lemma_stack_count(c, Layout::Row, children(c, Layout::Row).len(), inc, m.1);
    let b1 = stack_block(c, Layout::Row, inc, m.1);
    lemma_stack_count(c, Layout::Column, children(c, Layout::Column).len(), inc, b1.1);
    let b2 = stack_block(c, Layout::Column, inc, b1.1);
    lemma_stack_count(c, Layout::RowBorder, children(c, Layout::RowBorder).len(), inc, b2.1);
    let b3 = stack_block(c, Layout::RowBorder, inc, b2.1);
    lemma_stack_count(c, Layout::ColumnBorder, children(c, Layout::ColumnBorder).len(), inc, b3.1);
}

proof fn lemma_stack_count(c: Content, kind: Layout, n: nat, inc: Seq<(String, String)>, i: u64)
    requires
        n <= children(c, kind).len(),
        i + stack_count(c, kind, n, inc) <= u64::MAX,
    ensures
        stack_items(c, kind, n, inc, i).1 == i + stack_count(c, kind, n, inc),
    decreases c, 0nat, n,
{
    if n > 0 {
        lemma_stack_count(c, kind, (n - 1) as nat, inc, i);
        let p = stack_items(c, kind, (n - 1) as nat, inc, i);
        lemma_fragment_count(children(c, kind)[n - 1], inc, p.1);
    }
}

/// A slide whose background is disabled shows no background attribute: its
/// section is the same whatever the global background is.
pub proof fn lemma_disabled_background(s: Slide, bg: Seq<char>, auto: bool, hdr: bool, header: Seq<char>, inc: Seq<(String, String)>)
    requires
        s.background is Disabled,
    ensures
        s.background.resolve_spec(bg) == Seq::<char>::empty(),
        slide_attrs(s, bg, auto) == slide_attrs(s, Seq::empty(), auto),
        slide_html(s, bg, auto, hdr, header, inc) == slide_html(s, Seq::empty(), auto, hdr, header, inc),
{
    reveal(slide_html);
}

/// The outline slide is there exactly when the outline is on and the deck has
/// two chapters or more.
pub proof fn lemma_outline_presence(chs: Seq<ChapterSlide>, label: Seq<char>, bg: Seq<char>, auto: bool, hdr: bool)
    ensures
        (outline_part(chs, label, bg, auto, hdr).len() > 0) == (label.len() > 0 && chs.len() >= 2),
        chs.len() < 2 ==> outline_part(chs, label, bg, auto, hdr) == Seq::<char>::empty(),
{
    if has_outline(label, chs.len()) {
        reveal_strlit("<section");
    }
}

/// Each of `k` blocks in a row is `100 / k` percent wide, to the nearest
/// ten-thousandth; in a bordered row every block but the first has the border class.
pub proof fn lemma_row_widths(k: nat, j: nat)
    requires
        0 < k,
        j < k,
    ensures
        child_open(Layout::Row, k, j) == "<div style=\"width:"@ + percent_spec(k) + "%\">"@,
        percent_units(k) * k <= 1000000 + k,
        1000000 <= percent_units(k) * k + k,
        j == 0 ==> child_open(Layout::RowBorder, k, j) == child_open(Layout::Row, k, j),
        j > 0 ==> child_open(Layout::RowBorder, k, j)
            == "<div class=\"hstack-border\" style=\"width:"@ + percent_spec(k) + "%\">"@,
        j == 0 ==> child_open(Layout::ColumnBorder, k, j) == child_open(Layout::Column, k, j),
        j > 0 ==> child_open(Layout::ColumnBorder, k, j) == "<div class=\"vstack-border\">"@,
{
    let q = 2000000nat / k;
    assert(q * k <= 2000000 && 2000000 < q * k + k) by (nonlinear_arith)
        requires q == 2000000nat / k, 0 < k;
    let u = (q + 1) / 2;
    assert(2 * u <= q + 1 && q <= 2 * u);
    assert(u * k <= 1000000 + k && 1000000 <= u * k + k) by (nonlinear_arith)
        requires 2 * u <= q + 1, q <= 2 * u, q * k <= 2000000, 2000000 < q * k + k, 0 < k;
}

/// Where the page title is not set, the page takes the first chapter's title.
pub proof fn lemma_title_fallback(m: Metadata, chs: Seq<ChapterSlide>)
    ensures
        m.title@.len() > 0 ==> page_title(m, chs) == m.title@,
        m.title@.len() == 0 && chs.len() > 0 ==> page_title(m, chs) == slide_title(chs[0].slide),
        m.title@.len() == 0 && chs.len() == 0 ==> page_title(m, chs) == Seq::<char>::empty(),
{
}

/// A slide numbers its fragments from zero, whatever the slides before it
/// used, and its counter ends at the number of its fragment-tagged elements.
pub proof fn lemma_slide_fragments(s: Slide, bg: Seq<char>, auto: bool, hdr: bool, header: Seq<char>, inc: Seq<(String, String)>)
    requires
        frag_total(s.content, inc) <= u64::MAX,
    ensures
        slide_html(s, bg, auto, hdr, header, inc) == "<section"@ + slide_attrs(s, bg, auto) + ">\n"@ + heading(s.title@)
            + heading(s.title_only@) + content_html(s.content, inc, 0).0
            + wrap_spec(markdown_html(s.note@), "<aside class=\"notes\">"@, "</aside>\n"@) + header_div(hdr, header)
            + "</section>"@,
        content_html(s.content, inc, 0).1 == frag_total(s.content, inc),
{
    reveal(slide_html);
    lemma_fragment_count(s.content, inc, 0);
}

} // verus!
