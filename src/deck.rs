use crate::background::{Background, LocalBackground};
use crate::content::{missing_import, Content};
use crate::frag_map::FragMap;
use crate::media::Sized;
use crate::metadata::{deck_html, Footer, Metadata, Outline};
use crate::options::{JsOption, JsPlugin};
use crate::slides::{chapter_ok, slide_ok, ChapterSlide, Slide, Slides};
use crate::text::{dec, dec_spec};
use vstd::prelude::*;

verus! {

/// Why a deck cannot be compiled.
pub enum Error {
    /// The YAML text is malformed: the parser's message, with the position.
    Parse(String),
    /// The text holds fewer than two YAML documents.
    Structure,
    /// A field holds a value of the wrong kind: the field, the kind expected
    /// and the position.
    FieldType(String, String, u64),
    /// A slide at this position has no attribute that a slide can have.
    EmptySlide(u64),
    /// An image, video, frame or layered image at this position has no source.
    MissingSource(u64),
    /// A file to import cannot be read: its path and the position where it is named.
    FileRead(String, u64),
    /// An anchor reference at this position stands where none is allowed.
    UnsupportedReference(u64),
}

/// The text of an error, for a person.
pub open spec fn error_text(e: Error) -> Seq<char> {
    match e {
        Error::Parse(m) => "invalid YAML: "@ + m@,
        Error::Structure => "missing metadata or slides"@,
        Error::FieldType(f, k, p) => "field "@ + f@ + " at "@ + dec_spec(p as nat) + " must be "@ + k@,
        Error::EmptySlide(p) => "empty slide at "@ + dec_spec(p as nat),
        Error::MissingSource(p) => "missing source at "@ + dec_spec(p as nat),
        Error::FileRead(path, p) => "cannot read file "@ + path@ + " named at "@ + dec_spec(p as nat),
        Error::UnsupportedReference(p) => "anchor reference not allowed at "@ + dec_spec(p as nat),
    }
}

impl Error {
    /// The text of this error, for a person.
    pub fn message(&self) -> (r: String)
        ensures
            r@ == error_text(*self),
    {
        match self {
            Error::Parse(m) => {
                let mut r = String::from_str("invalid YAML: ");
                r.append(m.as_str());
                r
            },
            Error::Structure => String::from_str("missing metadata or slides"),
            Error::FieldType(f, k, p) => {
                let mut r = String::from_str("field ");
                r.append(f.as_str());
                r.append(" at ");
                let d = dec(*p);
                r.append(d.as_str());
                r.append(" must be ");
                r.append(k.as_str());
                r
            },
            Error::EmptySlide(p) => {
                let mut r = String::from_str("empty slide at ");
                let d = dec(*p);
                r.append(d.as_str());
                r
            },
            Error::MissingSource(p) => {
                let mut r = String::from_str("missing source at ");
                let d = dec(*p);
                r.append(d.as_str());
                r
            },
            Error::FileRead(path, p) => {
                let mut r = String::from_str("cannot read file ");
                r.append(path.as_str());
                r.append(" named at ");
                let d = dec(*p);
                r.append(d.as_str());
                r
            },
            Error::UnsupportedReference(p) => {
                let mut r = String::from_str("anchor reference not allowed at ");
                let d = dec(*p);
                r.append(d.as_str());
                r
            },
        }
    }
}

/// The first missing import file among the first `n` slides of a list.
pub open spec fn subs_missing(subs: Seq<Slide>, n: nat, inc: Seq<(String, String)>) -> Option<(Seq<char>, u64)>
    decreases n,
{
    if n == 0 || n > subs.len() {
        None
    } else {
        let p = subs_missing(subs, (n - 1) as nat, inc);
        if p is Some { p } else { missing_import(subs[n - 1].content, inc) }
    }
}

/// The first missing import file of a chapter.
pub open spec fn chapter_missing(c: ChapterSlide, inc: Seq<(String, String)>) -> Option<(Seq<char>, u64)> {
    let p = missing_import(c.slide.content, inc);
    if p is Some { p } else { subs_missing(c.sub@, c.sub@.len(), inc) }
}

/// The first missing import file among the first `n` chapters.
pub open spec fn deck_missing(chs: Seq<ChapterSlide>, n: nat, inc: Seq<(String, String)>) -> Option<(Seq<char>, u64)>
    decreases n,
{
    if n == 0 || n > chs.len() {
        None
    } else {
        let p = deck_missing(chs, (n - 1) as nat, inc);
        if p is Some { p } else { chapter_missing(chs[n - 1], inc) }
    }
}

proof fn lemma_subs_ok(subs: Seq<Slide>, n: nat, inc: Seq<(String, String)>)
    requires
        n <= subs.len(),
        subs_missing(subs, n, inc) is None,
    ensures
        forall|j: int| 0 <= j < n ==> slide_ok(#[trigger] subs[j], inc),
    decreases n,
{
    if n > 0 {
        lemma_subs_ok(subs, (n - 1) as nat, inc);
    }
}

proof fn lemma_deck_ok(chs: Seq<ChapterSlide>, n: nat, inc: Seq<(String, String)>)
    requires
        n <= chs.len(),
        deck_missing(chs, n, inc) is None,
    ensures
        forall|i: int| 0 <= i < n ==> chapter_ok(#[trigger] chs[i], inc),
    decreases n,
{
    if n > 0 {
        lemma_deck_ok(chs, (n - 1) as nat, inc);
        let c = chs[n - 1];
        lemma_subs_ok(c.sub@, c.sub@.len(), inc);
    }
}

proof fn lemma_subs_missing_stays(subs: Seq<Slide>, n: nat, m: nat, inc: Seq<(String, String)>)
    requires
        subs_missing(subs, n, inc) is Some,
        n <= m <= subs.len(),
    ensures
        subs_missing(subs, m, inc) == subs_missing(subs, n, inc),
    decreases m - n,
{
    if n < m {
        lemma_subs_missing_stays(subs, n, (m - 1) as nat, inc);
    }
}

proof fn lemma_deck_missing_stays(chs: Seq<ChapterSlide>, n: nat, m: nat, inc: Seq<(String, String)>)
    requires
        deck_missing(chs, n, inc) is Some,
        n <= m <= chs.len(),
    ensures
        deck_missing(chs, m, inc) == deck_missing(chs, n, inc),
    decreases m - n,
{
    if n < m {
        lemma_deck_missing_stays(chs, n, (m - 1) as nat, inc);
    }
}

impl ChapterSlide {
    /// The first import file of this chapter that the table does not hold.
    pub fn first_missing_import(&self, imports: &Vec<(String, String)>) -> (r: Option<(String, u64)>)
        ensures
            r matches Some(p) ==> chapter_missing(*self, imports@) == Some((p.0@, p.1)),
            r is None ==> chapter_missing(*self, imports@) is None,
    {
        let p = self.slide.content.first_missing_import(imports);
        if p.is_some() {
            return p;
        }
        let mut j: usize = 0;
        while j < self.sub.len()
            invariant
                j <= self.sub@.len(),
                missing_import(self.slide.content, imports@) is None,
                subs_missing(self.sub@, j as nat, imports@) is None,
            decreases self.sub@.len() - j,
        {
            let p = self.sub[j].content.first_missing_import(imports);
            if p.is_some() {
                proof {
                    lemma_subs_missing_stays(self.sub@, (j + 1) as nat, self.sub@.len(), imports@);
                }
                return p;
            }
            j = j + 1;
        }
        None
    }
}

impl Slides {
    /// The first import file of the deck, in document order, that the table does not hold.
    pub fn first_missing_import(&self, imports: &Vec<(String, String)>) -> (r: Option<(String, u64)>)
        ensures
            r matches Some(p) ==> deck_missing(self.slides@, self.slides@.len(), imports@) == Some((p.0@, p.1)),
            r is None ==> deck_missing(self.slides@, self.slides@.len(), imports@) is None,
    {
        let mut i: usize = 0;
        while i < self.slides.len()
            invariant
                i <= self.slides@.len(),
                deck_missing(self.slides@, i as nat, imports@) is None,
            decreases self.slides@.len() - i,
        {
            let p = self.slides[i].first_missing_import(imports);
            if p.is_some() {
                proof {
                    lemma_deck_missing_stays(self.slides@, (i + 1) as nat, self.slides@.len(), imports@);
                }
                return p;
            }
            i = i + 1;
        }
        None
    }
}

/// What compiling a deck gives: the page, or the first import file in
/// document order that the table does not hold.
pub open spec fn compiled(meta: Metadata, chs: Seq<ChapterSlide>, mount: Seq<char>, auto_reload: bool, inc: Seq<(String, String)>, r: Result<String, Error>) -> bool {
    match deck_missing(chs, chs.len(), inc) {
        Some(p) => r matches Err(Error::FileRead(q, k)) && q@ == p.0 && k == p.1,
        None => r matches Ok(h) && h@ == deck_html(meta, chs, mount, auto_reload, inc),
    }
}

/// Compiling the same deck twice with the same settings gives the same page,
/// or the same error.
pub proof fn lemma_compile_idempotent(
    meta: Metadata,
    chs: Seq<ChapterSlide>,
    mount: Seq<char>,
    auto_reload: bool,
    inc: Seq<(String, String)>,
    r1: Result<String, Error>,
    r2: Result<String, Error>,
)
    requires
        compiled(meta, chs, mount, auto_reload, inc, r1),
        compiled(meta, chs, mount, auto_reload, inc, r2),
    ensures
        r1 is Ok <==> r2 is Ok,
        r1 matches Ok(a) ==> r2 matches Ok(b) && a@ == b@,
        r1 matches Err(Error::FileRead(a, k)) ==> r2 matches Err(Error::FileRead(b, l)) && a@ == b@ && k == l,
{
}

/// Compiles a deck into its page. `imports` holds the text of each file that
/// the deck imports, by path; the first import file in document order that it
/// does not hold is an error.
pub fn compile(meta: &Metadata, slides: &Slides, mount: &str, auto_reload: bool, imports: Vec<(String, String)>) -> (r: Result<String, Error>)
    ensures
        compiled(*meta, slides.slides@, mount@, auto_reload, imports@, r),
{
    match slides.first_missing_import(&imports) {
        Some((p, k)) => Err(Error::FileRead(p, k)),
        None => {
            proof {
                lemma_deck_ok(slides.slides@, slides.slides@.len(), imports@);
            }
            Ok(meta.build(slides, mount, auto_reload, imports))
        },
    }
}

/// A block that shows nothing.
pub open spec fn blank_content(c: Content) -> bool {
    c.doc@.len() == 0 && blank_but_doc(c)
}

/// A block that shows nothing but its Markdown text.
pub open spec fn blank_but_doc(c: Content) -> bool {
    &&& c.fit@.len() == 0
    &&& c.import@.len() == 0
    &&& !c.import_html
    &&& c.math@.len() == 0
    &&& c.img@.len() == 0
    &&& c.video@.len() == 0
    &&& c.iframe@.len() == 0
    &&& c.lay_img@.len() == 0
    &&& c.frag.frag@.len() == 0
    &&& c.h_stack@.len() == 0
    &&& c.v_stack@.len() == 0
    &&& c.h_stack_border@.len() == 0
    &&& c.v_stack_border@.len() == 0
}

/// A slide with no attribute set.
pub open spec fn blank_slide(s: Slide) -> bool {
    &&& s.title@.len() == 0
    &&& blank_content(s.content)
    &&& blank_but_title_doc(s)
}

/// A slide with no attribute set but its title and its Markdown text.
pub open spec fn blank_but_title_doc(s: Slide) -> bool {
    &&& s.title_hidden@.len() == 0
    &&& s.title_only@.len() == 0
    &&& blank_but_doc(s.content)
    &&& s.note@.len() == 0
    &&& s.background is Inherit
    &&& s.class@.len() == 0
    &&& s.id@.len() == 0
    &&& s.attr@.len() == 0
    &&& !s.auto_animate
    &&& s.trans@.len() == 0
    &&& s.bg_trans@.len() == 0
}

/// The icon of a page that sets none.
pub open spec fn gear_url() -> Seq<char> {
    "https://raw.githubusercontent.com/rust-lang/rust-artwork/master/logo/rust-logo-gear-only.svg"@
}

/// The settings of a deck that sets none.
pub open spec fn default_metadata(m: Metadata) -> bool {
    &&& m.icon@ == gear_url()
    &&& m.lang@ == "en"@
    &&& m.title@.len() == 0
    &&& m.description@.len() == 0
    &&& m.author@.len() == 0
    &&& m.background is Blank
    &&& !m.auto_animate
    &&& !m.chapter_header
    &&& m.outline is On
    &&& m.theme@ == "serif"@
    &&& m.code_theme@ == "zenburn"@
    &&& m.style@.len() == 0
    &&& m.footer.label@.len() == 0
    &&& m.footer.link@.len() == 0
    &&& m.footer.size.src@.len() == 0
    &&& m.footer.size.width@.len() == 0
    &&& m.footer.size.height@.len() == 0
    &&& m.option.inner@.len() == 0
    &&& m.plugin.inner@.len() == 0
}

/// A deck of one slide with a title and a Markdown text.
pub open spec fn single_deck(s: Slides, title: Seq<char>, doc: Seq<char>) -> bool {
    &&& s.slides@.len() == 1
    &&& s.slides@[0].sub@.len() == 0
    &&& s.slides@[0].slide.title@ == title
    &&& s.slides@[0].slide.content.doc@ == doc
    &&& blank_but_title_doc(s.slides@[0].slide)
}

fn empty_sized() -> (r: Sized)
    ensures
        r.src@.len() == 0,
        r.width@.len() == 0,
        r.height@.len() == 0,
{
    Sized { src: String::new(), width: String::new(), height: String::new() }
}

impl Content {
    /// A block that shows nothing.
    pub fn new() -> (r: Content)
        ensures
            blank_content(r),
    {
        Content {
            fit: Vec::new(),
            doc: String::new(),
            import: String::new(),
            import_pos: 0,
            import_html: false,
            math: String::new(),
            img: Vec::new(),
            img_list: false,
            video: Vec::new(),
            video_list: false,
            iframe: Vec::new(),
            iframe_list: false,
            lay_img: Vec::new(),
            frag: FragMap { frag: Vec::new() },
            h_stack: Vec::new(),
            v_stack: Vec::new(),
            h_stack_border: Vec::new(),
            v_stack_border: Vec::new(),
        }
    }
}

impl Slide {
    /// A slide with no attribute set.
    pub fn new() -> (r: Slide)
        ensures
            blank_slide(r),
    {
        Slide {
            title: String::new(),
            title_hidden: String::new(),
            title_only: String::new(),
            content: Content::new(),
            note: String::new(),
            background: LocalBackground::Inherit,
            class: String::new(),
            id: String::new(),
            attr: String::new(),
            auto_animate: false,
            trans: String::new(),
            bg_trans: String::new(),
        }
    }
}

impl Slides {
    /// A deck of one slide with a title and a Markdown text.
    pub fn single(title: &str, doc: &str) -> (r: Slides)
        ensures
            single_deck(r, title@, doc@),
    {
        let mut slide = Slide::new();
        slide.title = String::from_str(title);
        slide.content.doc = String::from_str(doc);
        let mut slides = Vec::new();
        slides.push(ChapterSlide { slide, sub: Vec::new() });
        Slides { slides }
    }
}

impl Metadata {
    /// The settings of a deck that sets none.
    pub fn new() -> (r: Metadata)
        ensures
            default_metadata(r),
    {
        Metadata {
            icon: String::from_str("https://raw.githubusercontent.com/rust-lang/rust-artwork/master/logo/rust-logo-gear-only.svg"),
            lang: String::from_str("en"),
            title: String::new(),
            description: String::new(),
            author: String::new(),
            background: Background::Blank,
            auto_animate: false,
            chapter_header: false,
            outline: Outline::On,
            theme: String::from_str("serif"),
            code_theme: String::from_str("zenburn"),
            style: String::new(),
            footer: Footer { label: String::new(), link: String::new(), size: empty_sized() },
            option: JsOption { inner: Vec::new() },
            plugin: JsPlugin { inner: Vec::new() },
        }
    }
}

/// The page of a one-slide deck with default settings, served under `/static/`
/// and reloaded on change.
pub fn single_page(title: &str, doc: &str) -> (r: String)
    ensures
        exists|m: Metadata, s: Slides|
            default_metadata(m) && single_deck(s, title@, doc@)
                && r@ == #[trigger] deck_html(m, s.slides@, "/static/"@, true, Seq::empty()),
{
    let meta = Metadata::new();
    let slides = Slides::single(title, doc);
    let imports: Vec<(String, String)> = Vec::new();
    proof {
        let c = slides.slides@[0];
        assert(missing_import(c.slide.content, imports@) is None);
        assert(chapter_ok(c, imports@));
    }
    let r = meta.build(&slides, "/static/", true, imports);
    assert(imports@ =~= Seq::<(String, String)>::empty());
    r
}

/// The text of an error as a code block.
pub open spec fn error_doc(e: Error) -> Seq<char> {
    "```\n"@ + error_text(e) + "\n```"@
}

/// The page that shows an error in place of a deck.
pub fn error_page(e: &Error) -> (r: String)
    ensures
        exists|m: Metadata, s: Slides|
            default_metadata(m) && single_deck(s, "Error"@, error_doc(*e))
                && r@ == #[trigger] deck_html(m, s.slides@, "/static/"@, true, Seq::empty()),
{
    let mut doc = String::from_str("```\n");
    let msg = e.message();
    doc.append(msg.as_str());
    doc.append("\n```");
    single_page("Error", doc.as_str())
}

} // verus!
