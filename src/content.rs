use crate::ctx::{find_text, lookup};
use crate::frag_map::{frag_wrap_spec, FragMap};
use crate::markdown::{markdown_html, md2html};
use crate::media::{iframe_htmls, img_htmls, lay_imgs_html, lay_imgs_to_html, video_htmls, IFrame, Img, LayImg, Video};
use crate::text::{dec, dec_spec, digit, digit_char, push_char, wrap, wrap_spec};
use vstd::prelude::*;

verus! {

/// A content block: texts, media and nested layout stacks, shown in the order
/// of the fields.
pub struct Content {
    /// Fit texts, each as large as the slide allows; `---` is a horizontal rule.
    pub fit: Vec<String>,
    /// Markdown text.
    pub doc: String,
    /// Path of a Markdown file shown after `doc`.
    pub import: String,
    /// Where the path of the file stands in the deck's text.
    pub import_pos: u64,
    /// Whether the importd file is HTML, shown without conversion.
    pub import_html: bool,
    /// LaTeX math, without delimiters.
    pub math: String,
    /// Images.
    pub img: Vec<Img>,
    /// Whether the images were written as a list, which is shown as a row.
    pub img_list: bool,
    /// Videos.
    pub video: Vec<Video>,
    /// Whether the videos were written as a list, which is shown as a row.
    pub video_list: bool,
    /// Frames.
    pub iframe: Vec<IFrame>,
    /// Whether the frames were written as a list, which is shown as a row.
    pub iframe_list: bool,
    /// Images stacked on each other.
    pub lay_img: Vec<LayImg>,
    /// Fragment options of the elements above.
    pub frag: FragMap,
    /// Blocks side by side.
    pub h_stack: Vec<Content>,
    /// Blocks one above the other.
    pub v_stack: Vec<Content>,
    /// Blocks side by side, with a border between them.
    pub h_stack_border: Vec<Content>,
    /// Blocks one above the other, with a border between them.
    pub v_stack_border: Vec<Content>,
}

/// The four layout stacks.
#[derive(PartialEq, Eq, Structural, Clone, Copy)]
pub enum Layout {
    /// `h-stack`.
    Row,
    /// `v-stack`.
    Column,
    /// `h-stack-border`.
    RowBorder,
    /// `v-stack-border`.
    ColumnBorder,
}

/// The blocks of one stack of a content block.
pub open spec fn children(c: Content, k: Layout) -> Seq<Content> {
    match k {
        Layout::Row => c.h_stack@,
        Layout::Column => c.v_stack@,
        Layout::RowBorder => c.h_stack_border@,
        Layout::ColumnBorder => c.v_stack_border@,
    }
}

/// Four decimal digits of `r`, below ten thousand.
pub open spec fn four_digits(r: nat) -> Seq<char> {
    seq![digit(r / 1000), digit((r / 100) % 10), digit((r / 10) % 10), digit(r % 10)]
}

/// `100 / k` in ten-thousandths, rounded to the nearest.
pub open spec fn percent_units(k: nat) -> nat {
    (2000000nat / k + 1) / 2
}

/// `100 / k` with four decimals, as the width of each of `k` blocks in a row.
pub open spec fn percent_spec(k: nat) -> Seq<char> {
    dec_spec(percent_units(k) / 10000) + "."@ + four_digits(percent_units(k) % 10000)
}

/// The opening tag of the wrapper of block `j` of `k` in a stack.
pub open spec fn child_open(kind: Layout, k: nat, j: nat) -> Seq<char> {
    child_open_with(kind, percent_spec(k), j)
}

/// The opening tag of a whole stack.
pub open spec fn stack_open(kind: Layout) -> Seq<char> {
    match kind {
        Layout::Row | Layout::RowBorder => "<div class=\"hstack\">"@,
        Layout::Column | Layout::ColumnBorder => "<div class=\"vstack\">"@,
    }
}

/// The path and position of the first import file of a block and its stacks
/// that the table does not hold.
pub open spec fn missing_import(c: Content, inc: Seq<(String, String)>) -> Option<(Seq<char>, u64)>
    decreases c, 1nat, 0nat,
{
    if c.import@.len() > 0 && lookup(inc, c.import@) is None {
        Some((c.import@, c.import_pos))
    } else {
        let a = missing_in(c, Layout::Row, c.h_stack@.len(), inc);
        let b = missing_in(c, Layout::Column, c.v_stack@.len(), inc);
        let d = missing_in(c, Layout::RowBorder, c.h_stack_border@.len(), inc);
        let e = missing_in(c, Layout::ColumnBorder, c.v_stack_border@.len(), inc);
        if a is Some { a } else if b is Some { b } else if d is Some { d } else { e }
    }
}

/// The first missing import file among the first `n` blocks of a stack.
pub open spec fn missing_in(c: Content, kind: Layout, n: nat, inc: Seq<(String, String)>) -> Option<(Seq<char>, u64)>
    decreases c, 0nat, n,
{
    if n == 0 || n > children(c, kind).len() {
        None
    } else {
        let p = missing_in(c, kind, (n - 1) as nat, inc);
        if p is Some {
            p
        } else {
            missing_import(children(c, kind)[n - 1], inc)
        }
    }
}

/// The fit texts among the first `n`, and the counter after them.
pub open spec fn fit_html(maps: Seq<Vec<(String, String)>>, fit: Seq<String>, n: nat, i: u64) -> (Seq<char>, u64)
    decreases n,
{
    if n == 0 || n > fit.len() {
        (Seq::empty(), i)
    } else {
        let p = fit_html(maps, fit, (n - 1) as nat, i);
        let t = fit[n - 1]@;
        if t == "---"@ {
            (p.0 + "<hr/>"@, p.1)
        } else {
            let w = frag_wrap_spec(maps, "fit"@, t, p.1);
            (p.0 + wrap_spec(w.0, "<h2 class=\"r-fit-text\">"@, "</h2>\n"@), w.1)
        }
    }
}

/// What the import file of a block shows.
pub open spec fn import_shown(c: Content, inc: Seq<(String, String)>) -> Seq<char> {
    if c.import@.len() == 0 {
        Seq::empty()
    } else {
        let t = lookup(inc, c.import@).unwrap();
        if c.import_html { t } else { markdown_html(t) }
    }
}

/// The first `n` media items of one kind, each in the fragment spans of
/// `tag` and followed by a line break, from counter `i`.
pub open spec fn media_items(maps: Seq<Vec<(String, String)>>, tag: Seq<char>, htmls: Seq<Seq<char>>, n: nat, i: u64) -> (Seq<char>, u64)
    decreases n,
{
    if n == 0 || n > htmls.len() {
        (Seq::empty(), i)
    } else {
        let p = media_items(maps, tag, htmls, (n - 1) as nat, i);
        let w = frag_wrap_spec(maps, tag, htmls[n - 1], p.1);
        (p.0 + w.0 + "\n"@, w.1)
    }
}

/// The media items of one kind; written as a list, they stand in a row.
pub open spec fn media_block(maps: Seq<Vec<(String, String)>>, tag: Seq<char>, htmls: Seq<Seq<char>>, row: bool, i: u64) -> (Seq<char>, u64) {
    let p = media_items(maps, tag, htmls, htmls.len(), i);
    (if row { wrap_spec(p.0, "<div class=\"hstack\">\n"@, "</div>\n"@) } else { p.0 }, p.1)
}

/// The images, videos, frames and layered images of a block, from counter `i`.
pub open spec fn media_part(c: Content, i: u64) -> (Seq<char>, u64) {
    let maps = c.frag.frag@;
    let m1 = media_block(maps, "img"@, c.img@.map_values(|x: Img| x.html_spec()), c.img_list, i);
    let m2 = media_block(maps, "video"@, c.video@.map_values(|x: Video| x.html_spec()), c.video_list, m1.1);
    let m3 = media_block(maps, "iframe"@, c.iframe@.map_values(|x: IFrame| x.html_spec()), c.iframe_list, m2.1);
    (m1.0 + m2.0 + m3.0 + wrap_spec(lay_imgs_html(c.lay_img@), "<div class=\"r-stack\">"@, "</div>\n"@), m3.1)
}

/// The fit texts, Markdown text, import file and math of a block, from
/// fragment counter `i`, and the counter after them.
pub open spec fn text_part(c: Content, inc: Seq<(String, String)>, i: u64) -> (Seq<char>, u64) {
    let maps = c.frag.frag@;
    let f = fit_html(maps, c.fit@, c.fit@.len(), i);
    let d = frag_wrap_spec(maps, "doc"@, markdown_html(c.doc@), f.1);
    let n = frag_wrap_spec(maps, "import"@, import_shown(c, inc), d.1);
    let m = frag_wrap_spec(maps, "math"@, wrap_spec(c.math@, "\\["@, "\\]"@), n.1);
    (f.0 + d.0 + n.0 + m.0, m.1)
}

/// The HTML of a content block, from fragment counter `i`, and the counter after it.
pub open spec fn content_html(c: Content, inc: Seq<(String, String)>, i: u64) -> (Seq<char>, u64)
    decreases c, 1nat, 0nat,
{
    let t = text_part(c, inc, i);
    let m = media_part(c, t.1);
    let b1 = stack_block(c, Layout::Row, inc, m.1);
    let b2 = stack_block(c, Layout::Column, inc, b1.1);
    let b3 = stack_block(c, Layout::RowBorder, inc, b2.1);
    let b4 = stack_block(c, Layout::ColumnBorder, inc, b3.1);
    (t.0 + m.0 + b1.0 + b2.0 + b3.0 + b4.0, b4.1)
}

/// A whole stack of a block, and the counter after it.
pub open spec fn stack_block(c: Content, kind: Layout, inc: Seq<(String, String)>, i: u64) -> (Seq<char>, u64)
    decreases c, 0nat, children(c, kind).len() + 1,
{
    let p = stack_items(c, kind, children(c, kind).len(), inc, i);
    (wrap_spec(p.0, stack_open(kind), "</div>\n"@), p.1)
}

/// The wrapped blocks among the first `n` of a stack, and the counter after them.
pub open spec fn stack_items(c: Content, kind: Layout, n: nat, inc: Seq<(String, String)>, i: u64) -> (Seq<char>, u64)
    decreases c, 0nat, n,
{
    if n == 0 || n > children(c, kind).len() {
        (Seq::empty(), i)
    } else {
        let p = stack_items(c, kind, (n - 1) as nat, inc, i);
        let ch = content_html(children(c, kind)[n - 1], inc, p.1);
        (p.0 + wrap_spec(ch.0, child_open(kind, children(c, kind).len(), (n - 1) as nat), "</div>\n"@), ch.1)
    }
}

/// A missing file among the first `n` blocks of a stack leaves none among the first `j`,
/// and no block before the `n`-th has one.
proof fn lemma_missing_prefix(c: Content, kind: Layout, n: nat, j: nat, inc: Seq<(String, String)>)
    requires
        missing_in(c, kind, n, inc) is None,
        j < n <= children(c, kind).len(),
    ensures
        missing_in(c, kind, j, inc) is None,
        missing_import(children(c, kind)[j as int], inc) is None,
    decreases n,
{
    if j + 1 < n {
        lemma_missing_prefix(c, kind, (n - 1) as nat, j, inc);
    }
}

/// A missing file among the first `n` blocks of a stack stays the first one
/// among more blocks.
proof fn lemma_missing_stays(c: Content, kind: Layout, n: nat, m: nat, inc: Seq<(String, String)>)
    requires
        missing_in(c, kind, n, inc) is Some,
        n <= m <= children(c, kind).len(),
    ensures
        missing_in(c, kind, m, inc) == missing_in(c, kind, n, inc),
    decreases m - n,
{
    if n < m {
        lemma_missing_stays(c, kind, n, (m - 1) as nat, inc);
    }
}

/// Media items of one kind, each in its fragment spans, in a row if `row`.
fn media_row(maps: &FragMap, tag: &str, htmls: &Vec<String>, row: bool, frag: &mut u64) -> (r: String)
    ensures
        (r@, *final(frag)) == media_block(maps.frag@, tag@, htmls@.map_values(|s: String| s@), row, *old(frag)),
{
    let ghost hs = htmls@.map_values(|s: String| s@);
    let mut items = String::new();
    let mut j: usize = 0;
    while j < htmls.len()
        invariant
            j <= htmls@.len(),
            hs == htmls@.map_values(|s: String| s@),
            (items@, *frag) == media_items(maps.frag@, tag@, hs, j as nat, *old(frag)),
        decreases htmls@.len() - j,
    {
        let w = maps.wrap(tag, htmls[j].as_str(), frag);
        items.append(w.as_str());
        items.append("\n");
        j = j + 1;
    }
    if row {
        wrap(items.as_str(), "<div class=\"hstack\">\n", "</div>\n")
    } else {
        items
    }
}

/// `100 / k` with four decimals.
fn percent_text(k: usize) -> (r: String)
    requires
        k > 0,
    ensures
        r@ == percent_spec(k as nat),
{
    let q: u64 = (2000000u64 / (k as u64) + 1) / 2;
    let mut r = dec(q / 10000);
    r.append(".");
    let f = q % 10000;
    push_char(&mut r, digit_char(f / 1000));
    push_char(&mut r, digit_char((f / 100) % 10));
    push_char(&mut r, digit_char((f / 10) % 10));
    push_char(&mut r, digit_char(f % 10));
    assert(r@ =~= percent_spec(k as nat));
    r
}

fn child_open_text(kind: Layout, width: &str, j: usize) -> (r: String)
    ensures
        r@ == child_open_with(kind, width@, j as nat),
{
    match kind {
        Layout::Row => {
            let mut r = String::from_str("<div style=\"width:");
            r.append(width);
            r.append("%\">");
            r
        },
        Layout::Column => String::from_str("<div>"),
        Layout::RowBorder => {
            let mut r = if j == 0 {
                String::from_str("<div style=\"width:")
            } else {
                String::from_str("<div class=\"hstack-border\" style=\"width:")
            };
            r.append(width);
            r.append("%\">");
            r
        },
        Layout::ColumnBorder => if j == 0 {
            String::from_str("<div>")
        } else {
            String::from_str("<div class=\"vstack-border\">")
        },
    }
}

/// The opening tag of a block's wrapper, given the width text.
pub open spec fn child_open_with(kind: Layout, width: Seq<char>, j: nat) -> Seq<char> {
    match kind {
        Layout::Row => "<div style=\"width:"@ + width + "%\">"@,
        Layout::Column => "<div>"@,
        Layout::RowBorder => if j == 0 {
            "<div style=\"width:"@ + width + "%\">"@
        } else {
            "<div class=\"hstack-border\" style=\"width:"@ + width + "%\">"@
        },
        Layout::ColumnBorder => if j == 0 {
            "<div>"@
        } else {
            "<div class=\"vstack-border\">"@
        },
    }
}

impl Content {
    /// The blocks of one stack.
    pub fn children_of(&self, kind: Layout) -> (r: &Vec<Content>)
        ensures
            r@ == children(*self, kind),
    {
        match kind {
            Layout::Row => &self.h_stack,
            Layout::Column => &self.v_stack,
            Layout::RowBorder => &self.h_stack_border,
            Layout::ColumnBorder => &self.v_stack_border,
        }
    }

    /// The path of the first import file of this block and its stacks that
    /// the table does not hold.
    pub fn first_missing_import(&self, imports: &Vec<(String, String)>) -> (r: Option<(String, u64)>)
        ensures
            r matches Some(p) ==> missing_import(*self, imports@) == Some((p.0@, p.1)),
            r is None ==> missing_import(*self, imports@) is None,
        decreases self, 1nat, 0nat,
    {
        if !self.import.as_str().is_empty() {
            if find_text(imports, self.import.as_str()).is_none() {
                return Some((self.import.clone(), self.import_pos));
            }
        }
        let a = self.missing_in_stack(Layout::Row, imports);
        if a.is_some() {
            return a;
        }
        let b = self.missing_in_stack(Layout::Column, imports);
        if b.is_some() {
            return b;
        }
        let d = self.missing_in_stack(Layout::RowBorder, imports);
        if d.is_some() {
            return d;
        }
        self.missing_in_stack(Layout::ColumnBorder, imports)
    }

    fn missing_in_stack(&self, kind: Layout, imports: &Vec<(String, String)>) -> (r: Option<(String, u64)>)
        ensures
            r matches Some(p) ==> missing_in(*self, kind, children(*self, kind).len(), imports@) == Some((p.0@, p.1)),
            r is None ==> missing_in(*self, kind, children(*self, kind).len(), imports@) is None,
        decreases self, 0nat, 0nat,
    {
        let ch = self.children_of(kind);
        let mut j: usize = 0;
        while j < ch.len()
            invariant
                j <= ch@.len(),
                ch@ == children(*self, kind),
                missing_in(*self, kind, j as nat, imports@) is None,
            decreases ch@.len() - j,
        {
            let m = ch[j].first_missing_import(imports);
            if m.is_some() {
                proof {
                    lemma_missing_stays(*self, kind, (j + 1) as nat, ch@.len(), imports@);
                }
                return m;
            }
            j = j + 1;
        }
        None
    }

    /// The HTML of this block, with its fragments numbered from `frag` on;
    /// `frag` ends after the last of them, stacks included.
    pub fn to_html(&self, imports: &Vec<(String, String)>, frag: &mut u64) -> (r: String)
        requires
            missing_import(*self, imports@) is None,
        ensures
            (r@, *final(frag)) == content_html(*self, imports@, *old(frag)),
        decreases self, 1nat, 0nat,
    {
        let mut s = self.text_to_html(imports, frag);
        let h = self.media_to_html(frag);
        s.append(h.as_str());
        let h = self.stack_to_html(Layout::Row, imports, frag);
        s.append(h.as_str());
        let h = self.stack_to_html(Layout::Column, imports, frag);
        s.append(h.as_str());
        let h = self.stack_to_html(Layout::RowBorder, imports, frag);
        s.append(h.as_str());
        let h = self.stack_to_html(Layout::ColumnBorder, imports, frag);
        s.append(h.as_str());
        s
    }

    fn text_to_html(&self, imports: &Vec<(String, String)>, frag: &mut u64) -> (r: String)
        requires
            self.import@.len() > 0 ==> lookup(imports@, self.import@) is Some,
        ensures
            (r@, *final(frag)) == text_part(*self, imports@, *old(frag)),
    {
        let mut s = String::new();
        let dash = String::from_str("---");
        let mut j: usize = 0;
        while j < self.fit.len()
            invariant
                j <= self.fit@.len(),
                dash@ == "---"@,
                (s@, *frag) == fit_html(self.frag.frag@, self.fit@, j as nat, *old(frag)),
            decreases self.fit@.len() - j,
        {
            if self.fit[j] == dash {
                s.append("<hr/>");
            } else {
                let w = self.frag.wrap("fit", self.fit[j].as_str(), frag);
                let h = wrap(w.as_str(), "<h2 class=\"r-fit-text\">", "</h2>\n");
                s.append(h.as_str());
            }
            j = j + 1;
        }
        let md = md2html(self.doc.as_str());
        let w = self.frag.wrap("doc", md.as_str(), frag);
        s.append(w.as_str());
        let shown = if self.import.as_str().is_empty() {
            String::new()
        } else {
            match find_text(imports, self.import.as_str()) {
                Some(t) => if self.import_html {
                    t
                } else {
                    md2html(t.as_str())
                },
                None => String::new(),
            }
        };
        let w = self.frag.wrap("import", shown.as_str(), frag);
        s.append(w.as_str());
        let m = wrap(self.math.as_str(), "\\[", "\\]");
        let w = self.frag.wrap("math", m.as_str(), frag);
        s.append(w.as_str());
        s
    }

    fn media_to_html(&self, frag: &mut u64) -> (r: String)
        ensures
            (r@, *final(frag)) == media_part(*self, *old(frag)),
    {
        let h = img_htmls(&self.img);
        let mut s = media_row(&self.frag, "img", &h, self.img_list, frag);
        let h = video_htmls(&self.video);
        let m = media_row(&self.frag, "video", &h, self.video_list, frag);
        s.append(m.as_str());
        let h = iframe_htmls(&self.iframe);
        let m = media_row(&self.frag, "iframe", &h, self.iframe_list, frag);
        s.append(m.as_str());
        let h = lay_imgs_to_html(&self.lay_img);
        let h = wrap(h.as_str(), "<div class=\"r-stack\">", "</div>\n");
        s.append(h.as_str());
        s
    }

    fn stack_to_html(&self, kind: Layout, imports: &Vec<(String, String)>, frag: &mut u64) -> (r: String)
        requires
            missing_in(*self, kind, children(*self, kind).len(), imports@) is None,
        ensures
            (r@, *final(frag)) == stack_block(*self, kind, imports@, *old(frag)),
        decreases self, 0nat, 0nat,
    {
        let ch = self.children_of(kind);
        let k = ch.len();
        let width = if k > 0 { percent_text(k) } else { String::new() };
        let mut items = String::new();
        let mut j: usize = 0;
        while j < k
            invariant
                j <= k,
                k == ch@.len(),
                ch@ == children(*self, kind),
                k > 0 ==> width@ == percent_spec(k as nat),
                missing_in(*self, kind, k as nat, imports@) is None,
                (items@, *frag) == stack_items(*self, kind, j as nat, imports@, *old(frag)),
            decreases k - j,
        {
            proof {
                lemma_missing_prefix(*self, kind, k as nat, j as nat, imports@);
            }
            let h = ch[j].to_html(imports, frag);
            let open = child_open_text(kind, width.as_str(), j);
            let w = wrap(h.as_str(), open.as_str(), "</div>\n");
            items.append(w.as_str());
            j = j + 1;
        }
        let open = match kind {
            Layout::Row | Layout::RowBorder => "<div class=\"hstack\">",
            Layout::Column | Layout::ColumnBorder => "<div class=\"vstack\">",
        };
        wrap(items.as_str(), open, "</div>\n")
    }
}

} // verus!
