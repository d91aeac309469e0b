use reveal_yaml::{compile, load, Background, Error, JsType, LocalBackground, YamlNode, Outline, Yaml};

fn s(t: &str) -> YamlNode {
    YamlNode { yaml: Yaml::Str(t.to_string()), pos: 0 }
}

fn at(y: Yaml, pos: u64) -> YamlNode {
    YamlNode { yaml: y, pos }
}

fn dict(pairs: Vec<(&str, YamlNode)>) -> YamlNode {
    YamlNode { yaml: Yaml::Dict(pairs.into_iter().map(|(k, v)| (s(k), v)).collect()), pos: 0 }
}

fn list(items: Vec<YamlNode>) -> YamlNode {
    YamlNode { yaml: Yaml::List(items), pos: 0 }
}

fn flag(b: bool) -> YamlNode {
    YamlNode { yaml: Yaml::Bool(b), pos: 0 }
}

#[test]
fn fewer_than_two_documents() {
    assert!(matches!(load(&vec![]), Err(Error::Structure)));
    assert!(matches!(load(&vec![dict(vec![])]), Err(Error::Structure)));
}

#[test]
fn defaults_of_empty_metadata() {
    let docs = vec![dict(vec![]), list(vec![dict(vec![("title", s("Hello")), ("doc", s("World"))])])];
    let (m, slides) = load(&docs).ok().unwrap();
    assert_eq!(m.lang, "en");
    assert_eq!(m.theme, "serif");
    assert_eq!(m.code_theme, "zenburn");
    assert!(matches!(m.outline, Outline::On));
    assert!(matches!(m.background, Background::Blank));
    assert_eq!(slides.slides.len(), 1);
    assert_eq!(slides.slides[0].slide.title, "Hello");
    assert_eq!(slides.slides[0].slide.content.doc, "World");
    let h = compile(&m, &slides, "/", false, vec![]).ok().unwrap();
    assert!(h.contains("<h1>Hello</h1>") && h.contains("<p>World</p>"));
    assert!(!h.contains("id=\"outline\""));
}

#[test]
fn one_chapter_per_document() {
    let docs = vec![dict(vec![]), dict(vec![("title", s("A"))]), dict(vec![("title", s("B"))])];
    let (_, slides) = load(&docs).ok().unwrap();
    assert_eq!(slides.slides.len(), 2);
    assert_eq!(slides.slides[1].slide.title, "B");
}

#[test]
fn empty_slide_is_an_error() {
    let docs = vec![dict(vec![]), list(vec![at(Yaml::Dict(vec![(s("unknown"), s("x"))]), 17)])];
    assert!(matches!(load(&docs), Err(Error::EmptySlide(17))));
}

#[test]
fn image_without_source() {
    let img = at(Yaml::Dict(vec![(s("label"), s("cat"))]), 42);
    let docs = vec![dict(vec![]), list(vec![dict(vec![("title", s("T")), ("img", img)])])];
    assert!(matches!(load(&docs), Err(Error::MissingSource(42))));
}

#[test]
fn video_defaults() {
    let v = dict(vec![("src", s("m.mp4"))]);
    let docs = vec![dict(vec![]), list(vec![dict(vec![("video", list(vec![v]))])])];
    let (_, slides) = load(&docs).ok().unwrap();
    let video = &slides.slides[0].slide.content.video[0];
    assert!(video.controls);
    assert!(!video.autoplay);
    assert_eq!(video.video_type, "video/mp4");
}

#[test]
fn wrong_field_kind() {
    let docs = vec![dict(vec![]), list(vec![dict(vec![("title", at(Yaml::List(vec![]), 9))])])];
    match load(&docs) {
        Err(Error::FieldType(f, k, p)) => {
            assert_eq!(f, "title");
            assert_eq!(k, "string");
            assert_eq!(p, 9);
        },
        _ => panic!("expected a field error"),
    }
}

#[test]
fn anchor_reference_in_options() {
    let meta = dict(vec![("option", dict(vec![("x", at(Yaml::Alias("a".to_string()), 5))]))]);
    let docs = vec![meta, list(vec![dict(vec![("title", s("T"))])])];
    assert!(matches!(load(&docs), Err(Error::UnsupportedReference(5))));
}

#[test]
fn slide_backgrounds() {
    let docs = vec![
        dict(vec![("background", dict(vec![("src", s("bg.png"))]))]),
        list(vec![
            dict(vec![("title", s("A")), ("background", flag(false))]),
            dict(vec![("title", s("B")), ("background", s("red"))]),
            dict(vec![("title", s("C"))]),
        ]),
    ];
    let (m, slides) = load(&docs).ok().unwrap();
    assert!(matches!(m.background, Background::Img(_)));
    assert!(matches!(slides.slides[0].slide.background, LocalBackground::Disabled));
    assert!(matches!(slides.slides[1].slide.background, LocalBackground::Override(Background::Color(_))));
    assert!(matches!(slides.slides[2].slide.background, LocalBackground::Inherit));
    let h = compile(&m, &slides, "/", false, vec![]).ok().unwrap();
    assert!(h.contains("<section>\n<h1>A</h1>"), "{}", h);
    assert!(h.contains("<section data-background-color=\"red\">\n<h1>B</h1>"));
    assert!(h.contains("<section data-background=\"bg.png\">\n<h1>C</h1>"));
}

#[test]
fn outline_settings() {
    let two = || list(vec![dict(vec![("title", s("A"))]), dict(vec![("title", s("B"))])]);
    let (m, _) = load(&vec![dict(vec![("outline", flag(false))]), two()]).ok().unwrap();
    assert!(matches!(m.outline, Outline::Off));
    let (m, _) = load(&vec![dict(vec![("outline", s("TOC"))]), two()]).ok().unwrap();
    assert!(matches!(m.outline, Outline::Titled(ref t) if t == "TOC"));
}

#[test]
fn stacks_fragments_and_options() {
    let kid = |d: &str| dict(vec![("doc", s(d)), ("frag", list(vec![dict(vec![("doc", YamlNode { yaml: Yaml::Null, pos: 0 })])]))]);
    let slide = dict(vec![("v-stack", list(vec![kid("one"), kid("two"), kid("three")]))]);
    let meta = dict(vec![
        ("option", dict(vec![("slide-number", flag(true)), ("width", at(Yaml::Int("960".to_string()), 0))])),
        ("plugin", dict(vec![("RevealMenu", list(vec![s("menu.js")]))])),
    ]);
    let (m, slides) = load(&vec![meta, list(vec![slide])]).ok().unwrap();
    assert_eq!(slides.slides[0].slide.content.v_stack.len(), 3);
    assert!(matches!(m.option.inner[0].1, JsType::Bool(true)));
    let h = compile(&m, &slides, "/", false, vec![]).ok().unwrap();
    let a = h.find("data-fragment-index=\"0\"><p>one").unwrap();
    let b = h.find("data-fragment-index=\"1\"><p>two").unwrap();
    let c = h.find("data-fragment-index=\"2\"><p>three").unwrap();
    assert!(a < b && b < c);
    assert!(h.contains("slideNumber: true,"));
    assert!(h.contains("width: 960,"));
    assert!(h.contains("RevealMenu, "));
    assert!(h.contains("<script src=\"menu.js\"></script>"));
}

#[test]
fn sub_slides() {
    let ch = dict(vec![("title", s("Top")), ("sub", list(vec![dict(vec![("title", s("Down"))])]))]);
    let (_, slides) = load(&vec![dict(vec![]), list(vec![ch])]).ok().unwrap();
    assert_eq!(slides.slides[0].sub.len(), 1);
    assert_eq!(slides.slides[0].sub[0].title, "Down");
}

fn convert(n: &yaml_peg::NodeRc) -> YamlNode {
    let yaml = match n.yaml() {
        yaml_peg::Yaml::Null => Yaml::Null,
        yaml_peg::Yaml::Bool(b) => Yaml::Bool(*b),
        yaml_peg::Yaml::Int(s) => Yaml::Int(s.clone()),
        yaml_peg::Yaml::Float(s) => Yaml::Float(s.clone()),
        yaml_peg::Yaml::Str(s) => Yaml::Str(s.clone()),
        yaml_peg::Yaml::Seq(v) => Yaml::List(v.iter().map(convert).collect()),
        yaml_peg::Yaml::Map(m) => Yaml::Dict(m.iter().map(|(k, v)| (convert(k), convert(v))).collect()),
        yaml_peg::Yaml::Alias(a) => Yaml::Alias(a.clone()),
    };
    YamlNode { yaml, pos: n.pos() }
}

fn build_text(text: &str) -> Result<String, Error> {
    let docs = yaml_peg::parse::<yaml_peg::repr::RcRepr>(text).map_err(|e| Error::Parse(e.to_string()))?;
    let docs: Vec<YamlNode> = docs.iter().map(convert).collect();
    let (m, s) = load(&docs)?;
    compile(&m, &s, "/", false, vec![])
}

#[test]
fn parse_and_build_a_deck() {
    let text = "title: Deck\n---\n- title: Hello\n  doc: World\n  math: x^2\n- title: Two\n";
    let h = build_text(text).ok().unwrap();
    assert!(h.contains("<title>Deck</title>"));
    assert!(h.contains("<h1>Hello</h1>") && h.contains("<p>World</p>"));
    assert!(h.contains("\\[x^2\\]"));
    assert!(h.contains("id=\"outline\""));
}

#[test]
fn parse_anchors_are_replaced() {
    let text = "{}\n---\n- title: &t Same\n- title: *t\n";
    let h = build_text(text).ok().unwrap();
    assert_eq!(h.matches("<h1>Same</h1>").count(), 2, "{}", h);
}

#[test]
fn parse_reports_structure() {
    assert!(matches!(build_text("title: x\n"), Err(Error::Structure)));
}

#[test]
fn parse_missing_image_source_position() {
    let text = "{}\n---\n- img:\n    label: x\n";
    match build_text(text) {
        Err(Error::MissingSource(p)) => assert!(p > 0),
        _ => panic!("expected a missing source"),
    }
}

#[test]
fn import_position_is_kept() {
    let text = "{}\n---\n- import: notes.md\n";
    match build_text(text) {
        Err(Error::FileRead(p, k)) => {
            assert_eq!(p, "notes.md");
            assert!(k > 0);
        },
        _ => panic!("expected a file error"),
    }
}

#[test]
fn nested_anchor_reference_in_options() {
    let inner = list(vec![s("a"), at(Yaml::Alias("x".to_string()), 8)]);
    let meta = dict(vec![("option", dict(vec![("menu", inner)]))]);
    let docs = vec![meta, list(vec![dict(vec![("title", s("T"))])])];
    assert!(matches!(load(&docs), Err(Error::UnsupportedReference(8))));
}

#[test]
fn footer_fields_and_media_forms() {
    let meta = dict(vec![("footer", dict(vec![("label", s("Me")), ("src", s("i.png"))]))]);
    let slide = dict(vec![("img", dict(vec![("src", s("a.png"))])), ("video", list(vec![dict(vec![("src", s("m.mp4"))])]))]);
    let (m, slides) = load(&vec![meta, list(vec![slide])]).ok().unwrap();
    assert_eq!(m.footer.label, "Me");
    assert_eq!(m.footer.size.src, "i.png");
    let c = &slides.slides[0].slide.content;
    assert!(!c.img_list);
    assert!(c.video_list);
}
