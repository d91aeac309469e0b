use crate::background::Background;
use crate::ctx::Ctx;
use crate::media::Sized;
use crate::options::{options_html, plugin_files, plugin_names, JsOption, JsPlugin};
use crate::slides::{chapter_ok, slide_title, slides_html, Slides};
use crate::text::{escape, escape_spec, wrap, wrap_spec};
use vstd::prelude::*;

verus! {

/// The footer of every slide: a label and an image, with a link around them.
pub struct Footer {
    /// Footer text.
    pub label: String,
    /// Link of the text and the image.
    pub link: String,
    /// The image.
    pub size: Sized,
}

/// The outline setting.
pub enum Outline {
    /// No outline slide.
    Off,
    /// An outline slide titled "Outline".
    On,
    /// An outline slide with this title; an empty title is no outline.
    Titled(String),
}

/// Settings of the page and of all slides.
pub struct Metadata {
    /// Icon of the page.
    pub icon: String,
    /// Language of the page.
    pub lang: String,
    /// Title of the page; the first chapter's title where it is empty.
    pub title: String,
    /// Description of the page.
    pub description: String,
    /// Author of the page.
    pub author: String,
    /// Background of every slide that has none of its own.
    pub background: Background,
    /// Auto-animate every slide.
    pub auto_animate: bool,
    /// Show the chapter's title on its vertical slides.
    pub chapter_header: bool,
    /// The outline slide.
    pub outline: Outline,
    /// Reveal.js theme.
    pub theme: String,
    /// Code highlight theme.
    pub code_theme: String,
    /// Extra CSS.
    pub style: String,
    /// Footer of every slide.
    pub footer: Footer,
    /// Other Reveal.js options.
    pub option: JsOption,
    /// Other Reveal.js plugins.
    pub plugin: JsPlugin,
}

/// The footer's HTML: nothing where it has neither image nor label.
pub open spec fn footer_html(f: Footer) -> Seq<char> {
    if f.size.src@.len() == 0 && f.label@.len() == 0 {
        Seq::empty()
    } else {
        let link = wrap_spec(f.link@, "<a href=\""@, "\">\n"@);
        "<div class=\"footer\">\n"@ + link + wrap_spec(f.size.src_spec(), "<img"@, f.size.dims_spec() + "/>"@)
            + wrap_spec(f.label@, "<span>&nbsp;"@, "</span>"@) + (if link.len() == 0 { Seq::empty() } else { "</a>\n"@ })
            + "</div>"@
    }
}

impl Footer {
    /// The footer's HTML.
    pub fn to_html(&self) -> (r: String)
        ensures
            r@ == footer_html(*self),
    {
        let (src, size) = self.size.size();
        if src.as_str().is_empty() && self.label.as_str().is_empty() {
            return String::new();
        }
        let link = wrap(self.link.as_str(), "<a href=\"", "\">\n");
        let mut r = String::from_str("<div class=\"footer\">\n");
        r.append(link.as_str());
        let mut close = size;
        close.append("/>");
        let img = wrap(src.as_str(), "<img", close.as_str());
        r.append(img.as_str());
        let l = wrap(self.label.as_str(), "<span>&nbsp;", "</span>");
        r.append(l.as_str());
        if !link.as_str().is_empty() {
            r.append("</a>\n");
        }
        r.append("</div>");
        r
    }
}

/// The title of the outline slide; empty when there is none.
pub open spec fn outline_label(o: Outline) -> Seq<char> {
    match o {
        Outline::Off => Seq::empty(),
        Outline::On => "Outline"@,
        Outline::Titled(s) => s@,
    }
}

/// The page title: the one set, else the first chapter's, else none.
pub open spec fn page_title(m: Metadata, slides: Seq<crate::slides::ChapterSlide>) -> Seq<char> {
    if m.title@.len() > 0 {
        m.title@
    } else if slides.len() > 0 {
        slide_title(slides[0].slide)
    } else {
        Seq::empty()
    }
}

/// The script that reloads the page when the server says so.
pub open spec fn reload_script(on: bool) -> Seq<char> {
    if on {
        "let ws = new WebSocket(\"ws://\" + window.location.host + \"/ws/\");\n        ws.onmessage = _ => location.reload();"@
    } else {
        Seq::empty()
    }
}

/// The page, with each value in its place.
#[verifier::opaque]
pub open spec fn page_html(
    lang: Seq<char>,
    title: Seq<char>,
    description: Seq<char>,
    author: Seq<char>,
    icon: Seq<char>,
    mount: Seq<char>,
    theme: Seq<char>,
    code_theme: Seq<char>,
    style: Seq<char>,
    slides: Seq<char>,
    footer: Seq<char>,
    files: Seq<char>,
    options: Seq<char>,
    names: Seq<char>,
    reload: Seq<char>,
) -> Seq<char> {
    "<!DOCTYPE html>\n<html lang=\""@ + lang + "\">\n<head>\n<meta charset=\"utf-8\">\n<title>"@ + title
        + "</title>\n<meta name=\"description\" content=\""@ + description
        + "\">\n<meta name=\"author\" content=\""@ + author + "\">\n<link rel=\"icon\" href=\""@ + icon
        + "\">\n<link rel=\"stylesheet\" href=\""@ + mount + "dist/reset.css\">\n<link rel=\"stylesheet\" href=\""@
        + mount + "dist/reveal.css\">\n<link rel=\"stylesheet\" href=\""@ + mount + "dist/theme/"@ + theme
        + ".css\" id=\"theme\">\n<link rel=\"stylesheet\" href=\""@ + mount + "plugin/highlight/"@ + code_theme
        + ".css\">\n<style>\n"@ + style + "\n</style>\n</head>\n<body>\n<div class=\"reveal\">\n<div class=\"slides\">\n"@
        + slides + "</div>\n"@ + footer + "\n</div>\n<script src=\""@ + mount + "dist/reveal.js\"></script>\n<script src=\""@
        + mount + "plugin/notes/notes.js\"></script>\n<script src=\""@ + mount
        + "plugin/highlight/highlight.js\"></script>\n<script src=\""@ + mount + "plugin/math/math.js\"></script>\n"@
        + files + "<script>\n    Reveal.initialize({\n        hash: true,"@ + options
        + "\n        plugins: ["@ + names + "RevealNotes, RevealHighlight, RevealMath],\n    });\n    "@ + reload
        + "\n</script>\n</body>\n</html>\n"@
}

/// The whole page of a deck.
pub open spec fn deck_html(m: Metadata, chs: Seq<crate::slides::ChapterSlide>, mount: Seq<char>, auto_reload: bool, inc: Seq<(String, String)>) -> Seq<char> {
    page_html(
        m.lang@,
        escape_spec(page_title(m, chs)),
        escape_spec(m.description@),
        escape_spec(m.author@),
        m.icon@,
        mount,
        m.theme@,
        m.code_theme@,
        m.style@,
        slides_html(chs, outline_label(m.outline), m.background.html_spec(), m.auto_animate, m.chapter_header, inc),
        footer_html(m.footer),
        plugin_files(m.plugin.inner@, m.plugin.inner@.len()),
        options_html(m.option.inner@, m.option.inner@.len()),
        plugin_names(m.plugin.inner@, m.plugin.inner@.len()),
        reload_script(auto_reload),
    )
}

#[verifier::rlimit(40)]
fn fill_page(
    lang: &str,
    title: &str,
    description: &str,
    author: &str,
    icon: &str,
    mount: &str,
    theme: &str,
    code_theme: &str,
    style: &str,
    slides: &str,
    footer: &str,
    files: &str,
    options: &str,
    names: &str,
    reload: &str,
) -> (r: String)
    ensures
        r@ == page_html(lang@, title@, description@, author@, icon@, mount@, theme@, code_theme@, style@, slides@,
            footer@, files@, options@, names@, reload@),
{
    proof {
        reveal(page_html);
    }
    let mut r = String::from_str("<!DOCTYPE html>\n<html lang=\"");
    r.append(lang);
    r.append("\">\n<head>\n<meta charset=\"utf-8\">\n<title>");
    r.append(title);
    r.append("</title>\n<meta name=\"description\" content=\"");
    r.append(description);
    r.append("\">\n<meta name=\"author\" content=\"");
    r.append(author);
    r.append("\">\n<link rel=\"icon\" href=\"");
    r.append(icon);
    r.append("\">\n<link rel=\"stylesheet\" href=\"");
    r.append(mount);
    r.append("dist/reset.css\">\n<link rel=\"stylesheet\" href=\"");
    r.append(mount);
    r.append("dist/reveal.css\">\n<link rel=\"stylesheet\" href=\"");
    r.append(mount);
    r.append("dist/theme/");
    r.append(theme);
    r.append(".css\" id=\"theme\">\n<link rel=\"stylesheet\" href=\"");
    r.append(mount);
    r.append("plugin/highlight/");
    r.append(code_theme);
    r.append(".css\">\n<style>\n");
    r.append(style);
    r.append("\n</style>\n</head>\n<body>\n<div class=\"reveal\">\n<div class=\"slides\">\n");
    r.append(slides);
    r.append("</div>\n");
    r.append(footer);
    r.append("\n</div>\n<script src=\"");
    r.append(mount);
    r.append("dist/reveal.js\"></script>\n<script src=\"");
    r.append(mount);
    r.append("plugin/notes/notes.js\"></script>\n<script src=\"");
    r.append(mount);
    r.append("plugin/highlight/highlight.js\"></script>\n<script src=\"");
    r.append(mount);
    r.append("plugin/math/math.js\"></script>\n");
    r.append(files);
    r.append("<script>\n    Reveal.initialize({\n        hash: true,");
    r.append(options);
    r.append("\n        plugins: [");
    r.append(names);
    r.append("RevealNotes, RevealHighlight, RevealMath],\n    });\n    ");
    r.append(reload);
    r.append("\n</script>\n</body>\n</html>\n");
    r
}

impl Metadata {
    /// The title of the outline slide; empty when there is none.
    pub fn outline_label(&self) -> (r: String)
        ensures
            r@ == outline_label(self.outline),
    {
        match &self.outline {
            Outline::Off => String::new(),
            Outline::On => String::from_str("Outline"),
            Outline::Titled(s) => s.clone(),
        }
    }

    /// The page title: the one set, else the first chapter's, else none.
    pub fn page_title(&self, slides: &Slides) -> (r: String)
        ensures
            r@ == page_title(*self, slides.slides@),
    {
        if !self.title.as_str().is_empty() {
            self.title.clone()
        } else if slides.slides.len() > 0 {
            slides.slides[0].slide.outline_title().clone()
        } else {
            String::new()
        }
    }

    /// The page of a deck, with its slides and these settings; `mount` prefixes
    /// the paths of the Reveal.js files, and `auto_reload` adds the script that
    /// reloads the page.
    pub fn build(&self, slides: &Slides, mount: &str, auto_reload: bool, imports: Vec<(String, String)>) -> (r: String)
        requires
            forall|i: int| 0 <= i < slides.slides@.len() ==> chapter_ok(#[trigger] slides.slides@[i], imports@),
        ensures
            r@ == deck_html(*self, slides.slides@, mount@, auto_reload, imports@),
    {
        let mut ctx = Ctx {
            outline: self.outline_label(),
            auto_animate: self.auto_animate,
            chapter_header: self.chapter_header,
            header: String::new(),
            background: self.background.to_html(),
            frag: 0,
            imports,
        };
        let title = self.page_title(slides);
        let title = escape(title.as_str());
        let description = escape(self.description.as_str());
        let author = escape(self.author.as_str());
        let footer = self.footer.to_html();
        let body = slides.to_html(&mut ctx);
        let (names, files) = self.plugin.name_and_files();
        let options = self.option.to_html();
        let reload = if auto_reload {
            String::from_str("let ws = new WebSocket(\"ws://\" + window.location.host + \"/ws/\");\n        ws.onmessage = _ => location.reload();")
        } else {
            String::new()
        };
        fill_page(
            self.lang.as_str(),
            title.as_str(),
            description.as_str(),
            author.as_str(),
            self.icon.as_str(),
            mount,
            self.theme.as_str(),
            self.code_theme.as_str(),
            self.style.as_str(),
            body.as_str(),
            footer.as_str(),
            files.as_str(),
            options.as_str(),
            names.as_str(),
            reload.as_str(),
        )
    }
}

} // verus!
