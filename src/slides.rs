use crate::background::LocalBackground;
use crate::content::{content_html, missing_import, Content};
use crate::ctx::Ctx;
use crate::markdown::{markdown_html, md2html};
use crate::text::{dec, dec_spec, wrap, wrap_spec};
use vstd::prelude::*;

verus! {

/// One slide.
///
/// Of the three titles, `title` is shown as a level-1 heading and names the
/// slide in the outline; `title_hidden` is not shown and names the slide in
/// the outline where `title` is empty; `title_only` is shown and never named
/// in the outline.
pub struct Slide {
    /// Title, shown and listed in the outline.
    pub title: String,
    /// Title listed in the outline only.
    pub title_hidden: String,
    /// Title shown only.
    pub title_only: String,
    /// What the slide shows.
    pub content: Content,
    /// Speaker note, in Markdown.
    pub note: String,
    /// Background of the slide.
    pub background: LocalBackground,
    /// HTML `class` attribute of the section.
    pub class: String,
    /// HTML `id` attribute of the section.
    pub id: String,
    /// Other attributes of the section, as written.
    pub attr: String,
    /// Auto-animate option of this slide.
    pub auto_animate: bool,
    /// Transition option.
    pub trans: String,
    /// Background transition option.
    pub bg_trans: String,
}

/// A horizontal slide and the vertical slides under it.
pub struct ChapterSlide {
    /// The chapter's own slide.
    pub slide: Slide,
    /// The slides under it.
    pub sub: Vec<Slide>,
}

/// All chapters of a deck.
pub struct Slides {
    /// The chapters, in order.
    pub slides: Vec<ChapterSlide>,
}

/// The title under which a slide is listed in the outline.
pub open spec fn slide_title(s: Slide) -> Seq<char> {
    if s.title@.len() > 0 { s.title@ } else { s.title_hidden@ }
}

/// The auto-animate attribute, where the slide or the whole deck asks for it.
pub open spec fn animate_attr(on: bool) -> Seq<char> {
    if on { " data-auto-animate"@ } else { Seq::empty() }
}

/// The attributes of a slide's section.
pub open spec fn slide_attrs(s: Slide, bg: Seq<char>, auto: bool) -> Seq<char> {
    s.background.resolve_spec(bg) + wrap_spec(s.class@, " class=\""@, "\""@) + wrap_spec(s.id@, " id=\""@, "\""@)
        + wrap_spec(s.trans@, " data-transition=\""@, "\""@)
        + wrap_spec(s.bg_trans@, " data-background-transition=\""@, "\""@)
        + animate_attr(auto || s.auto_animate) + wrap_spec(s.attr@, " "@, ""@)
}

/// The chapter header of a slide, where the deck shows one.
pub open spec fn header_div(on: bool, header: Seq<char>) -> Seq<char> {
    if on { wrap_spec(header, "<div class=\"chapter-header\">"@, "</div>"@) } else { Seq::empty() }
}

/// A title as a Markdown heading, converted.
pub open spec fn heading(t: Seq<char>) -> Seq<char> {
    markdown_html(wrap_spec(t, "# "@, ""@))
}

/// The HTML of a slide; its fragments are numbered from zero.
#[verifier::opaque]
pub open spec fn slide_html(s: Slide, bg: Seq<char>, auto: bool, hdr: bool, header: Seq<char>, inc: Seq<(String, String)>) -> Seq<char> {
    "<section"@ + slide_attrs(s, bg, auto) + ">\n"@ + heading(s.title@) + heading(s.title_only@)
        + content_html(s.content, inc, 0).0
        + wrap_spec(markdown_html(s.note@), "<aside class=\"notes\">"@, "</aside>\n"@)
        + header_div(hdr, header) + "</section>"@
}

/// Whether every import file of a slide is in the table.
pub open spec fn slide_ok(s: Slide, inc: Seq<(String, String)>) -> bool {
    missing_import(s.content, inc) is None
}

/// Whether every import file of a chapter is in the table.
pub open spec fn chapter_ok(c: ChapterSlide, inc: Seq<(String, String)>) -> bool {
    &&& slide_ok(c.slide, inc)
    &&& forall|j: int| 0 <= j < c.sub@.len() ==> slide_ok(#[trigger] c.sub@[j], inc)
}

/// The settings of a context that no slide changes.
pub open spec fn same_settings(a: Ctx, b: Ctx) -> bool {
    &&& a.outline@ == b.outline@
    &&& a.auto_animate == b.auto_animate
    &&& a.chapter_header == b.chapter_header
    &&& a.background@ == b.background@
    &&& a.imports@ == b.imports@
}

impl Slide {
    /// The HTML of this slide. The fragment counter starts again at zero.
    pub fn to_html(&self, ctx: &mut Ctx) -> (r: String)
        requires
            slide_ok(*self, old(ctx).imports@),
        ensures
            r@ == slide_html(*self, old(ctx).background@, old(ctx).auto_animate, old(ctx).chapter_header,
                old(ctx).header@, old(ctx).imports@),
            final(ctx).frag == content_html(self.content, old(ctx).imports@, 0).1,
            same_settings(*old(ctx), *final(ctx)),
            final(ctx).header@ == old(ctx).header@,
    {
        proof {
            reveal(slide_html);
        }
        ctx.frag = 0;
        let mut data = self.background.resolve(ctx.background.as_str());
        let a = wrap(self.class.as_str(), " class=\"", "\"");
        data.append(a.as_str());
        let a = wrap(self.id.as_str(), " id=\"", "\"");
        data.append(a.as_str());
        let a = wrap(self.trans.as_str(), " data-transition=\"", "\"");
        data.append(a.as_str());
        let a = wrap(self.bg_trans.as_str(), " data-background-transition=\"", "\"");
        data.append(a.as_str());
        if ctx.auto_animate || self.auto_animate {
            data.append(" data-auto-animate");
        }
        let a = wrap(self.attr.as_str(), " ", "");
        data.append(a.as_str());
        let mut r = String::from_str("<section");
        r.append(data.as_str());
        r.append(">\n");
        let t = wrap(self.title.as_str(), "# ", "");
        let h = md2html(t.as_str());
        r.append(h.as_str());
        let t = wrap(self.title_only.as_str(), "# ", "");
        let h = md2html(t.as_str());
        r.append(h.as_str());
        let c = self.content.to_html(&ctx.imports, &mut ctx.frag);
        r.append(c.as_str());
        let n = md2html(self.note.as_str());
        let n = wrap(n.as_str(), "<aside class=\"notes\">", "</aside>\n");
        r.append(n.as_str());
        if ctx.chapter_header {
            let h = wrap(ctx.header.as_str(), "<div class=\"chapter-header\">", "</div>");
            r.append(h.as_str());
        }
        r.append("</section>");
        r
    }
}

/// The first `n` slides of a list, each followed by a line break.
pub open spec fn subs_html(subs: Seq<Slide>, n: nat, bg: Seq<char>, auto: bool, hdr: bool, header: Seq<char>, inc: Seq<(String, String)>) -> Seq<char>
    decreases n,
{
    if n == 0 || n > subs.len() {
        Seq::empty()
    } else {
        subs_html(subs, (n - 1) as nat, bg, auto, hdr, header, inc) + slide_html(subs[n - 1], bg, auto, hdr, header, inc) + "\n"@
    }
}

/// The HTML of a chapter: its own slide, which shows no chapter header, then
/// its vertical slides, which show its title, then `extra`.
#[verifier::opaque]
pub open spec fn chapter_html(c: ChapterSlide, extra: Seq<char>, bg: Seq<char>, auto: bool, hdr: bool, inc: Seq<(String, String)>) -> Seq<char> {
    "<section>\n"@ + slide_html(c.slide, bg, auto, hdr, Seq::empty(), inc)
        + subs_html(c.sub@, c.sub@.len(), bg, auto, hdr, slide_title(c.slide), inc) + extra + "</section>"@
}

/// The outline entries of the first `n` vertical slides of chapter `i`.
pub open spec fn sub_entries(subs: Seq<Slide>, i: nat, n: nat) -> Seq<char>
    decreases n,
{
    if n == 0 || n > subs.len() {
        Seq::empty()
    } else {
        let t = slide_title(subs[n - 1]);
        sub_entries(subs, i, (n - 1) as nat) + if t.len() == 0 {
            Seq::empty()
        } else {
            "  + ["@ + t + "](#/"@ + dec_spec(i) + "/"@ + dec_spec(n) + ")\n"@
        }
    }
}

/// The outline entry of chapter `i`, linked by its position, with its vertical
/// slides; nothing for an untitled chapter.
pub open spec fn chapter_entry(c: ChapterSlide, i: nat) -> Seq<char> {
    let t = slide_title(c.slide);
    if t.len() == 0 {
        Seq::empty()
    } else {
        "+ ["@ + t + "](#/"@ + dec_spec(i) + ")\n"@ + sub_entries(c.sub@, i, c.sub@.len())
    }
}

/// The outline, in Markdown, of the chapters after the first among the first `n`.
pub open spec fn outline_doc(chs: Seq<ChapterSlide>, n: nat) -> Seq<char>
    decreases n,
{
    if n <= 1 || n > chs.len() {
        Seq::empty()
    } else {
        outline_doc(chs, (n - 1) as nat) + chapter_entry(chs[n - 1], (n - 1) as nat)
    }
}

/// The outline slide, under the first chapter.
pub open spec fn outline_html(label: Seq<char>, doc: Seq<char>, bg: Seq<char>, auto: bool, hdr: bool, header: Seq<char>) -> Seq<char> {
    "<section"@ + bg + " id=\"outline\""@ + animate_attr(auto) + ">\n"@ + heading(label) + markdown_html(doc)
        + header_div(hdr, header) + "</section>"@
}

/// Whether a deck gets an outline slide: the outline is on and there are two chapters or more.
pub open spec fn has_outline(label: Seq<char>, n: nat) -> bool {
    label.len() > 0 && n >= 2
}

/// What follows the vertical slides of the first chapter: the outline slide, if any.
pub open spec fn outline_part(chs: Seq<ChapterSlide>, label: Seq<char>, bg: Seq<char>, auto: bool, hdr: bool) -> Seq<char> {
    if has_outline(label, chs.len()) {
        outline_html(label, outline_doc(chs, chs.len()), bg, auto, hdr, slide_title(chs[0].slide)) + "\n"@
    } else {
        Seq::empty()
    }
}

/// The first `n` chapters, each followed by a line break.
pub open spec fn chapters_html(chs: Seq<ChapterSlide>, n: nat, label: Seq<char>, bg: Seq<char>, auto: bool, hdr: bool, inc: Seq<(String, String)>) -> Seq<char>
    decreases n,
{
    if n == 0 || n > chs.len() {
        Seq::empty()
    } else {
        let extra = if n == 1 { outline_part(chs, label, bg, auto, hdr) } else { Seq::empty() };
        chapters_html(chs, (n - 1) as nat, label, bg, auto, hdr, inc) + chapter_html(chs[n - 1], extra, bg, auto, hdr, inc) + "\n"@
    }
}

/// The HTML of all chapters of a deck.
pub open spec fn slides_html(chs: Seq<ChapterSlide>, label: Seq<char>, bg: Seq<char>, auto: bool, hdr: bool, inc: Seq<(String, String)>) -> Seq<char> {
    chapters_html(chs, chs.len(), label, bg, auto, hdr, inc)
}

impl Slide {
    /// The title under which this slide is listed in the outline.
    pub fn outline_title(&self) -> (r: &String)
        ensures
            r@ == slide_title(*self),
    {
        if !self.title.as_str().is_empty() {
            &self.title
        } else {
            &self.title_hidden
        }
    }
}

impl ChapterSlide {
    /// The HTML of this chapter and its vertical slides.
    pub fn to_html(&self, ctx: &mut Ctx) -> (r: String)
        requires
            chapter_ok(*self, old(ctx).imports@),
        ensures
            r@ == chapter_html(*self, Seq::empty(), old(ctx).background@, old(ctx).auto_animate, old(ctx).chapter_header,
                old(ctx).imports@),
            same_settings(*old(ctx), *final(ctx)),
            final(ctx).header@ == slide_title(self.slide),
    {
        proof {
            reveal_strlit("");
            assert(""@ =~= Seq::<char>::empty());
        }
        self.render("", ctx)
    }

    fn render(&self, extra: &str, ctx: &mut Ctx) -> (r: String)
        requires
            chapter_ok(*self, old(ctx).imports@),
        ensures
            r@ == chapter_html(*self, extra@, old(ctx).background@, old(ctx).auto_animate, old(ctx).chapter_header,
                old(ctx).imports@),
            same_settings(*old(ctx), *final(ctx)),
            final(ctx).header@ == slide_title(self.slide),
    {
        proof {
            reveal(chapter_html);
        }
        ctx.header = String::new();
        let mut r = String::from_str("<section>\n");
        let h = self.slide.to_html(ctx);
        r.append(h.as_str());
        ctx.header = self.slide.outline_title().clone();
        let mut j: usize = 0;
        while j < self.sub.len()
            invariant
                j <= self.sub@.len(),
                same_settings(*old(ctx), *ctx),
                ctx.header@ == slide_title(self.slide),
                chapter_ok(*self, ctx.imports@),
                r@ == "<section>\n"@ + slide_html(self.slide, old(ctx).background@, old(ctx).auto_animate,
                    old(ctx).chapter_header, Seq::empty(), old(ctx).imports@)
                    + subs_html(self.sub@, j as nat, old(ctx).background@, old(ctx).auto_animate,
                    old(ctx).chapter_header, slide_title(self.slide), old(ctx).imports@),
            decreases self.sub@.len() - j,
        {
            let h = self.sub[j].to_html(ctx);
            r.append(h.as_str());
            r.append("\n");
            j = j + 1;
        }
        r.append(extra);
        r.append("</section>");
        r
    }
}

/// The outline entries of the vertical slides of chapter `i`.
fn sub_entries_text(subs: &Vec<Slide>, i: usize) -> (r: String)
    ensures
        r@ == sub_entries(subs@, i as nat, subs@.len()),
{
    let mut r = String::new();
    let mut j: usize = 0;
    while j < subs.len()
        invariant
            j <= subs@.len(),
            r@ == sub_entries(subs@, i as nat, j as nat),
        decreases subs@.len() - j,
    {
        let t = subs[j].outline_title();
        if !t.as_str().is_empty() {
            let mut id = dec(i as u64);
            id.append("/");
            let q = dec((j + 1) as u64);
            id.append(q.as_str());
            r.append("  + [");
            r.append(t.as_str());
            r.append("](#/");
            r.append(id.as_str());
            r.append(")\n");
        }
        j = j + 1;
    }
    r
}

/// The outline, in Markdown, of all chapters after the first.
fn outline_text(chs: &Vec<ChapterSlide>) -> (r: String)
    ensures
        r@ == outline_doc(chs@, chs@.len()),
{
    let mut r = String::new();
    let mut i: usize = 1;
    while i < chs.len()
        invariant
            1 <= i,
            i <= chs@.len() || chs@.len() == 0,
            r@ == outline_doc(chs@, i as nat),
        decreases chs@.len() - i,
    {
        let t = chs[i].slide.outline_title();
        if !t.as_str().is_empty() {
            let id = dec(i as u64);
            r.append("+ [");
            r.append(t.as_str());
            r.append("](#/");
            r.append(id.as_str());
            r.append(")\n");
            let e = sub_entries_text(&chs[i].sub, i);
            r.append(e.as_str());
        }
        i = i + 1;
    }
    r
}

/// The outline slide.
fn outline_slide(label: &str, doc: &str, ctx: &Ctx, header: &str) -> (r: String)
    ensures
        r@ == outline_html(label@, doc@, ctx.background@, ctx.auto_animate, ctx.chapter_header, header@),
{
    let mut r = String::from_str("<section");
    r.append(ctx.background.as_str());
    r.append(" id=\"outline\"");
    if ctx.auto_animate {
        r.append(" data-auto-animate");
    }
    r.append(">\n");
    let t = wrap(label, "# ", "");
    let h = md2html(t.as_str());
    r.append(h.as_str());
    let h = md2html(doc);
    r.append(h.as_str());
    if ctx.chapter_header {
        let h = wrap(header, "<div class=\"chapter-header\">", "</div>");
        r.append(h.as_str());
    }
    r.append("</section>");
    r
}

impl Slides {
    /// The HTML of all chapters; where the outline is on and there are two
    /// chapters or more, the outline slide follows the vertical slides of the
    /// first chapter.
    pub fn to_html(&self, ctx: &mut Ctx) -> (r: String)
        requires
            forall|i: int| 0 <= i < self.slides@.len() ==> chapter_ok(#[trigger] self.slides@[i], old(ctx).imports@),
        ensures
            r@ == slides_html(self.slides@, old(ctx).outline@, old(ctx).background@, old(ctx).auto_animate,
                old(ctx).chapter_header, old(ctx).imports@),
            same_settings(*old(ctx), *final(ctx)),
    {
        let n = self.slides.len();
        let extra = if !ctx.outline.as_str().is_empty() && n > 1 {
            let doc = outline_text(&self.slides);
            let mut o = outline_slide(ctx.outline.as_str(), doc.as_str(), ctx, self.slides[0].slide.outline_title().as_str());
            o.append("\n");
            o
        } else {
            String::new()
        };
        let mut r = String::new();
        let mut i: usize = 0;
        proof {
            reveal_strlit("");
            assert(""@ =~= Seq::<char>::empty());
        }
        while i < n
            invariant
                n == self.slides@.len(),
                i <= n,
                same_settings(*old(ctx), *ctx),
                forall|i: int| 0 <= i < self.slides@.len() ==> chapter_ok(#[trigger] self.slides@[i], ctx.imports@),
                extra@ == outline_part(self.slides@, old(ctx).outline@, old(ctx).background@, old(ctx).auto_animate,
                    old(ctx).chapter_header),
                ""@ =~= Seq::<char>::empty(),
                r@ == chapters_html(self.slides@, i as nat, old(ctx).outline@, old(ctx).background@,
                    old(ctx).auto_animate, old(ctx).chapter_header, old(ctx).imports@),
            decreases n - i,
        {
            let h = if i == 0 {
                self.slides[i].render(extra.as_str(), ctx)
            } else {
                self.slides[i].render("", ctx)
            };
            r.append(h.as_str());
            r.append("\n");
            i = i + 1;
        }
        r
    }
}

} // verus!
