use reveal_yaml::{
    compile, error_page, single_page, Background, ChapterSlide, Content, Ctx, Error, FragMap, Footer, IFrame,
    ImgBackground, Img, JsOption, JsPlugin, JsType, LayImg, LocalBackground, Metadata, Outline, Sized, Slide, Slides,
    Video,
};

fn frag_on(tag: &str) -> FragMap {
    FragMap { frag: vec![vec![(tag.to_string(), String::new())]] }
}

fn doc_block(doc: &str) -> Content {
    let mut c = Content::new();
    c.doc = doc.to_string();
    c
}

fn titled(title: &str) -> Slide {
    let mut s = Slide::new();
    s.title = title.to_string();
    s
}

fn chapter(title: &str) -> ChapterSlide {
    ChapterSlide { slide: titled(title), sub: vec![] }
}

fn ctx() -> Ctx {
    Ctx {
        outline: String::new(),
        auto_animate: false,
        chapter_header: false,
        header: String::new(),
        background: String::new(),
        frag: 0,
        imports: vec![],
    }
}

fn image_bg(src: &str) -> ImgBackground {
    ImgBackground {
        src: src.to_string(),
        size: String::new(),
        position: String::new(),
        repeat: String::new(),
        opacity: String::new(),
    }
}

fn sized(src: &str) -> Sized {
    Sized { src: src.to_string(), width: String::new(), height: String::new() }
}

fn page(meta: &Metadata, slides: &Slides) -> String {
    compile(meta, slides, "/", false, vec![]).ok().unwrap()
}

#[test]
fn color_background() {
    let b = Background::Color("red".to_string());
    assert_eq!(b.to_html(), " data-background-color=\"red\"");
    assert_eq!(Background::Blank.to_html(), "");
}

#[test]
fn image_background_attributes() {
    let mut i = image_bg("a.png");
    i.opacity = "0.5".to_string();
    assert!(i.is_valid());
    assert_eq!(i.attr(), " data-background=\"a.png\" data-background-opacity=\"0.5\"");
    assert_eq!(Background::Img(i).to_html(), " data-background=\"a.png\" data-background-opacity=\"0.5\"");
}

#[test]
fn image_background_without_source_is_void() {
    let mut i = image_bg("");
    i.size = "cover".to_string();
    assert!(!i.is_valid());
    assert_eq!(i.to_html(), "");
}

#[test]
fn local_background_cascade() {
    assert_eq!(LocalBackground::Inherit.resolve(" g"), " g");
    assert_eq!(LocalBackground::Disabled.resolve(" g"), "");
    let o = LocalBackground::Override(Background::Color("blue".to_string()));
    assert_eq!(o.resolve(" g"), " data-background-color=\"blue\"");
}

#[test]
fn fragment_wrap_numbers_from_counter() {
    let f = FragMap {
        frag: vec![
            vec![("doc".to_string(), "fade-in".to_string())],
            vec![("math".to_string(), String::new())],
            vec![("doc".to_string(), String::new())],
        ],
    };
    let mut i: u64 = 4;
    let h = f.wrap("doc", "x", &mut i);
    assert_eq!(
        h,
        "<span class=\"fragment fade-in\" data-fragment-index=\"4\"><span class=\"fragment \" data-fragment-index=\"5\">x</span></span>"
    );
    assert_eq!(i, 6);
}

#[test]
fn fragment_wrap_of_nothing_takes_no_index() {
    let f = frag_on("doc");
    let mut i: u64 = 0;
    assert_eq!(f.wrap("doc", "", &mut i), "");
    assert_eq!(i, 0);
    assert_eq!(f.wrap("math", "y", &mut i), "y");
    assert_eq!(i, 0);
}

#[test]
fn image_with_caption_is_a_figure() {
    let img = Img { label: "Cat".to_string(), pop: false, size: sized("cat.png") };
    assert_eq!(img.to_html(), "<figure><img alt=\"Cat\" src=\"cat.png\"/><figcaption>Cat</figcaption></figure>");
    let plain = Img { label: String::new(), pop: false, size: sized("dog.png") };
    assert_eq!(plain.to_html(), "<img alt=\"\" src=\"dog.png\"/>");
}

#[test]
fn video_iframe_and_layered_image() {
    let mut s = sized("m.mp4");
    s.width = "320".to_string();
    let v = Video { controls: true, autoplay: false, video_type: "video/mp4".to_string(), size: s };
    assert_eq!(v.to_html(), "<video width=\"320\" controls><source src=\"m.mp4\" type=\"video/mp4\"></video>");
    let f = IFrame { size: sized("https://e.com") };
    assert_eq!(f.to_html(), "<iframe src=\"https://e.com\"></iframe>");
    let l = LayImg { frag: "fade-out".to_string(), size: sized("a.png") };
    assert_eq!(l.to_html(), "<img class=\"fragment fade-out\" src=\"a.png\"/>");
}

#[test]
fn sized_attributes() {
    let mut s = sized("a.png");
    s.height = "70".to_string();
    assert_eq!(s.size(), (" src=\"a.png\"".to_string(), " height=\"70\"".to_string()));
}

#[test]
fn math_is_display_math() {
    let mut c = Content::new();
    c.math = "x^2".to_string();
    let mut i: u64 = 0;
    let h = c.to_html(&vec![], &mut i);
    assert!(h.contains("\\[x^2\\]"), "{}", h);
}

#[test]
fn fit_texts_and_rule() {
    let mut c = Content::new();
    c.fit = vec!["Big".to_string(), "---".to_string()];
    let mut i: u64 = 0;
    assert_eq!(c.to_html(&vec![], &mut i), "<h2 class=\"r-fit-text\">Big</h2>\n<hr/>");
}

#[test]
fn row_of_three_has_equal_widths() {
    let mut c = Content::new();
    c.h_stack = vec![doc_block("a"), doc_block("b"), doc_block("c")];
    let mut i: u64 = 0;
    let h = c.to_html(&vec![], &mut i);
    assert_eq!(h.matches("<div style=\"width:33.3333%\">").count(), 3, "{}", h);
    assert!(h.starts_with("<div class=\"hstack\">"));
}

#[test]
fn row_widths_of_other_sizes() {
    for (k, w) in [(1usize, "100.0000"), (2, "50.0000"), (6, "16.6667"), (7, "14.2857")] {
        let mut c = Content::new();
        c.h_stack = (0..k).map(|_| doc_block("z")).collect();
        let mut i: u64 = 0;
        let h = c.to_html(&vec![], &mut i);
        let expected = format!("<div style=\"width:{}%\">", w);
        assert_eq!(h.matches(expected.as_str()).count(), k, "{}", h);
        let value: f64 = w.parse().unwrap();
        assert!((value - 100.0 / k as f64).abs() < 0.0001);
    }
}

#[test]
fn bordered_row_borders_all_but_first() {
    let mut c = Content::new();
    c.h_stack_border = vec![doc_block("a"), doc_block("b"), doc_block("c")];
    let mut i: u64 = 0;
    let h = c.to_html(&vec![], &mut i);
    assert_eq!(h.matches("hstack-border").count(), 2, "{}", h);
    assert!(h.contains("<div style=\"width:33.3333%\"><p>a</p>"));
}

#[test]
fn bordered_column_borders_all_but_first() {
    let mut c = Content::new();
    c.v_stack_border = vec![doc_block("a"), doc_block("b")];
    let mut i: u64 = 0;
    let h = c.to_html(&vec![], &mut i);
    assert_eq!(h, "<div class=\"vstack\"><div><p>a</p>\n</div>\n<div class=\"vstack-border\"><p>b</p>\n</div>\n</div>\n");
}

#[test]
fn column_fragments_in_document_order() {
    let mut c = Content::new();
    let mut kids = vec![];
    for d in ["one", "two", "three"] {
        let mut k = doc_block(d);
        k.frag = frag_on("doc");
        kids.push(k);
    }
    c.v_stack = kids;
    let mut i: u64 = 0;
    let h = c.to_html(&vec![], &mut i);
    let a = h.find("data-fragment-index=\"0\"><p>one").unwrap();
    let b = h.find("data-fragment-index=\"1\"><p>two").unwrap();
    let d = h.find("data-fragment-index=\"2\"><p>three").unwrap();
    assert!(a < b && b < d, "{}", h);
    assert_eq!(i, 3);
}

#[test]
fn fragment_counter_restarts_on_each_slide() {
    let mut first = titled("A");
    first.content = doc_block("x");
    first.content.frag = FragMap {
        frag: vec![vec![("doc".to_string(), String::new())], vec![("doc".to_string(), String::new())]],
    };
    let mut second = titled("B");
    second.content = doc_block("y");
    second.content.frag = frag_on("doc");
    let mut c = ctx();
    c.frag = 9;
    let h1 = first.to_html(&mut c);
    assert!(h1.contains("data-fragment-index=\"0\"") && h1.contains("data-fragment-index=\"1\""), "{}", h1);
    assert_eq!(c.frag, 2);
    let h2 = second.to_html(&mut c);
    assert!(h2.contains("data-fragment-index=\"0\""), "{}", h2);
    assert!(!h2.contains("data-fragment-index=\"2\""));
}

#[test]
fn slide_section_attributes() {
    let mut s = titled("T");
    s.class = "c".to_string();
    s.id = "i".to_string();
    s.trans = "zoom".to_string();
    s.auto_animate = true;
    s.attr = "data-x".to_string();
    s.note = "psst".to_string();
    let mut c = ctx();
    c.background = " data-background-color=\"red\"".to_string();
    let h = s.to_html(&mut c);
    assert!(h.starts_with(
        "<section data-background-color=\"red\" class=\"c\" id=\"i\" data-transition=\"zoom\" data-auto-animate data-x>\n<h1>T</h1>\n"
    ), "{}", h);
    assert!(h.contains("<aside class=\"notes\"><p>psst</p>\n</aside>\n"));
    assert!(h.ends_with("</section>"));
}

#[test]
fn disabled_background_ignores_global_image() {
    let mut meta = Metadata::new();
    meta.background = Background::Img(image_bg("bg.png"));
    let mut s = titled("Plain");
    s.background = LocalBackground::Disabled;
    let other = titled("Other");
    let slides = Slides { slides: vec![ChapterSlide { slide: s, sub: vec![] }, ChapterSlide { slide: other, sub: vec![] }] };
    let h = page(&meta, &slides);
    assert!(h.contains("<section>\n<section>\n<h1>Plain</h1>"), "{}", h);
    assert!(h.contains("<section data-background=\"bg.png\">\n<h1>Other</h1>"), "{}", h);
}

#[test]
fn hello_world_deck() {
    let mut s = titled("Hello");
    s.content = doc_block("World");
    let slides = Slides { slides: vec![ChapterSlide { slide: s, sub: vec![] }] };
    let h = page(&Metadata::new(), &slides);
    assert!(h.contains("<h1>Hello</h1>"));
    assert!(h.contains("<p>World</p>"));
    assert!(!h.contains("id=\"outline\""));
}

#[test]
fn outline_links_chapters_in_order() {
    let mut intro = chapter("Intro");
    intro.sub = vec![titled("Intro detail")];
    let mut b = chapter("B");
    b.sub = vec![titled("B one"), Slide::new(), titled("B three")];
    let slides = Slides { slides: vec![intro, chapter("A"), b] };
    let h = page(&Metadata::new(), &slides);
    let o = h.find("id=\"outline\"").unwrap();
    let a = h.find("<a href=\"#/1\">A</a>").unwrap();
    let bb = h.find("<a href=\"#/2\">B</a>").unwrap();
    assert!(o < a && a < bb, "{}", h);
    assert!(h.contains("<a href=\"#/2/1\">B one</a>"));
    assert!(h.contains("<a href=\"#/2/3\">B three</a>"));
    assert!(!h.contains("#/2/2"));
    assert!(h.contains("<h1>Outline</h1>"));
}

#[test]
fn outline_needs_two_chapters() {
    let one = Slides { slides: vec![chapter("Only")] };
    assert!(!page(&Metadata::new(), &one).contains("id=\"outline\""));
    let two = Slides { slides: vec![chapter("A"), chapter("B")] };
    assert!(page(&Metadata::new(), &two).contains("id=\"outline\""));
    let mut off = Metadata::new();
    off.outline = Outline::Off;
    let two = Slides { slides: vec![chapter("A"), chapter("B")] };
    assert!(!page(&off, &two).contains("id=\"outline\""));
    let mut named = Metadata::new();
    named.outline = Outline::Titled("Contents".to_string());
    let two = Slides { slides: vec![chapter("A"), chapter("B")] };
    assert!(page(&named, &two).contains("<h1>Contents</h1>"));
}

#[test]
fn outline_links_by_position_and_hidden_titles() {
    let mut a = Slide::new();
    a.title_hidden = "Secret".to_string();
    a.id = "sec".to_string();
    let slides = Slides { slides: vec![chapter("Cover"), ChapterSlide { slide: a, sub: vec![] }, chapter("")] };
    let h = page(&Metadata::new(), &slides);
    assert!(h.contains("<a href=\"#/1\">Secret</a>"), "{}", h);
    assert!(!h.contains("#/sec"));
    assert!(!h.contains("#/2"));
}

#[test]
fn chapter_header_on_vertical_slides() {
    let mut ch = chapter("Part");
    ch.sub = vec![titled("Inner")];
    let mut c = ctx();
    c.chapter_header = true;
    let h = ch.to_html(&mut c);
    assert_eq!(h.matches("<div class=\"chapter-header\">Part</div>").count(), 1, "{}", h);
    assert!(h.starts_with("<section>\n<section>\n<h1>Part</h1>\n</section><section>"));
}

#[test]
fn title_falls_back_to_first_chapter() {
    let slides = Slides { slides: vec![chapter("Intro"), chapter("Next")] };
    let h = page(&Metadata::new(), &slides);
    assert!(h.contains("<title>Intro</title>"), "{}", h);
    let mut meta = Metadata::new();
    meta.title = "Set \"here\"".to_string();
    let h = page(&meta, &slides);
    assert!(h.contains("<title>Set \\\"here\\\"</title>"));
}

#[test]
fn compiling_twice_gives_the_same_page() {
    let mut s = titled("Hello");
    s.content = doc_block("World");
    s.content.frag = frag_on("doc");
    let slides = Slides { slides: vec![ChapterSlide { slide: s, sub: vec![titled("Sub")] }, chapter("Two")] };
    let meta = Metadata::new();
    let a = compile(&meta, &slides, "/m/", true, vec![]).ok().unwrap();
    let b = compile(&meta, &slides, "/m/", true, vec![]).ok().unwrap();
    assert_eq!(a, b);
    assert!(a.contains("/m/dist/reveal.js"));
    assert!(a.contains("location.reload()"));
}

#[test]
fn missing_import_file_is_an_error() {
    let mut s = titled("Hello");
    s.content.import = "notes.md".to_string();
    s.content.import_pos = 31;
    let slides = Slides { slides: vec![ChapterSlide { slide: s, sub: vec![] }] };
    match compile(&Metadata::new(), &slides, "/", false, vec![]) {
        Err(Error::FileRead(p, k)) => {
            assert_eq!(p, "notes.md");
            assert_eq!(k, 31);
        },
        _ => panic!("expected a file error"),
    }
    let ok = compile(&Metadata::new(), &slides, "/", false, vec![("notes.md".to_string(), "*hi*".to_string())]);
    assert!(ok.ok().unwrap().contains("<em>hi</em>"));
}

#[test]
fn imported_html_is_kept_as_is() {
    let mut s = titled("Hello");
    s.content.import = "x.html".to_string();
    s.content.import_html = true;
    let slides = Slides { slides: vec![ChapterSlide { slide: s, sub: vec![] }] };
    let h = compile(&Metadata::new(), &slides, "/", false, vec![("x.html".to_string(), "*raw*".to_string())]);
    assert!(h.ok().unwrap().contains("*raw*"));
}

#[test]
fn footer_with_link_and_label() {
    let f = Footer { label: "Me".to_string(), link: "https://x".to_string(), size: sized("i.png") };
    assert_eq!(
        f.to_html(),
        "<div class=\"footer\">\n<a href=\"https://x\">\n<img src=\"i.png\"/><span>&nbsp;Me</span></a>\n</div>"
    );
    let empty = Footer { label: String::new(), link: "https://x".to_string(), size: sized("") };
    assert_eq!(empty.to_html(), "");
}

#[test]
fn script_options() {
    let o = JsOption {
        inner: vec![
            ("slide-number".to_string(), JsType::Bool(true)),
            ("width".to_string(), JsType::Int(960)),
            ("title".to_string(), JsType::Str("a\"b".to_string())),
            ("list".to_string(), JsType::List(vec![JsType::Int(1), JsType::Number("2.5".to_string())])),
            ("menu".to_string(), JsType::Dict(vec![("side_bar".to_string(), JsType::Bool(false)), ("n".to_string(), JsType::Int(2))])),
        ],
    };
    assert_eq!(
        o.to_html(),
        "\n        slideNumber: true,\n        width: 960,\n        title: \"a\\\"b\",\n        list: [1, 2.5],\n        menu: {sideBar: false,\nn: 2},"
    );
}

#[test]
fn plugin_names_and_files() {
    let p = JsPlugin {
        inner: vec![
            ("RevealMenu".to_string(), vec!["menu/menu.js".to_string()]),
            ("RevealX".to_string(), vec!["x/a.js".to_string(), "x/b.js".to_string()]),
        ],
    };
    let (names, files) = p.name_and_files();
    assert_eq!(names, "RevealMenu, RevealX, ");
    assert_eq!(
        files,
        "<script src=\"menu/menu.js\"></script>\n<script src=\"x/a.js\"></script>\n<script src=\"x/b.js\"></script>\n"
    );
}

#[test]
fn single_and_error_pages() {
    let s = Slides::single("T", "D");
    assert_eq!(s.slides.len(), 1);
    assert_eq!(s.slides[0].slide.title, "T");
    let p = single_page("Help", "Some *text*");
    assert!(p.contains("<h1>Help</h1>") && p.contains("<em>text</em>"));
    let e = error_page(&Error::FileRead("a.md".to_string(), 4));
    assert!(e.contains("<h1>Error</h1>"));
    assert!(e.contains("cannot read file a.md named at 4"), "{}", e);
    assert!(e.contains("/static/dist/reveal.js"));
}

#[test]
fn error_messages() {
    assert_eq!(Error::Structure.message(), "missing metadata or slides");
    assert_eq!(Error::EmptySlide(12).message(), "empty slide at 12");
    assert_eq!(Error::MissingSource(3).message(), "missing source at 3");
    assert_eq!(
        Error::FieldType("fit".to_string(), "list".to_string(), 40).message(),
        "field fit at 40 must be list"
    );
    assert_eq!(Error::UnsupportedReference(5).message(), "anchor reference not allowed at 5");
    assert_eq!(Error::Parse("bad".to_string()).message(), "invalid YAML: bad");
}

#[test]
fn tagged_images_are_fragments_in_a_row() {
    let mut c = Content::new();
    c.img = vec![
        Img { label: String::new(), pop: false, size: sized("a.png") },
        Img { label: String::new(), pop: false, size: sized("b.png") },
    ];
    c.img_list = true;
    c.doc = "first".to_string();
    c.frag = FragMap { frag: vec![vec![("doc".to_string(), String::new())], vec![("img".to_string(), "fade-up".to_string())]] };
    let mut i: u64 = 0;
    let h = c.to_html(&vec![], &mut i);
    assert_eq!(i, 3);
    assert!(h.contains(
        "<div class=\"hstack\">\n<span class=\"fragment fade-up\" data-fragment-index=\"1\"><img alt=\"\" src=\"a.png\"/></span>\n<span class=\"fragment fade-up\" data-fragment-index=\"2\"><img alt=\"\" src=\"b.png\"/></span>\n</div>\n"
    ), "{}", h);
}

#[test]
fn single_image_mapping_has_no_row() {
    let mut c = Content::new();
    c.img = vec![Img { label: String::new(), pop: false, size: sized("a.png") }];
    c.img_list = false;
    let mut i: u64 = 0;
    assert_eq!(c.to_html(&vec![], &mut i), "<img alt=\"\" src=\"a.png\"/>\n");
    assert_eq!(i, 0);
}

#[test]
fn null_option_value() {
    let o = JsOption { inner: vec![("x".to_string(), JsType::Null)] };
    assert_eq!(o.to_html(), "\n        x: null,");
}
