use crate::background::{Background, ImgBackground, LocalBackground};
use crate::content::Content;
use crate::deck::{gear_url, Error};
use crate::frag_map::FragMap;
use crate::media::{IFrame, Img, LayImg, Sized, Video};
use crate::metadata::{Footer, Metadata, Outline};
use crate::options::{JsOption, JsPlugin, JsType};
use crate::slides::{ChapterSlide, Slide, Slides};
use crate::yaml::{
    bool_field, entry, entry_from, is_field_error, same_text, scalar_text, text_field, Yaml, YamlNode,
};
use vstd::prelude::*;

verus! {

/// A value stored in a mapping is smaller than the mapping.
proof fn lemma_entry_smaller(n: YamlNode, key: Seq<char>, i: nat)
    requires
        n.yaml is Dict,
        entry_from(n.yaml->Dict_0@, key, i) is Some,
    ensures
        decreases_to!(n => entry_from(n.yaml->Dict_0@, key, i).unwrap()),
    decreases n.yaml->Dict_0@.len() - i,
{
    let p = n.yaml->Dict_0;
    if i < p@.len() {
        if p@[i as int].0.yaml matches Yaml::Str(s) && s@ == key {
            assert(decreases_to!(n => n.yaml));
            assert(decreases_to!(n.yaml => p));
            assert(decreases_to!(p => p[i as int]));
            assert(decreases_to!(p[i as int] => p[i as int].1));
        } else {
            lemma_entry_smaller(n, key, i + 1);
        }
    }
}

/// The items of an inline list: one mapping, or a sequence of them.
pub open spec fn inline_items(n: YamlNode) -> Seq<YamlNode> {
    match n.yaml {
        Yaml::Dict(_) => seq![n],
        Yaml::List(v) => v@,
        _ => Seq::empty(),
    }
}

/// Whether the text field `key` of a mapping reads: absent, or a scalar.
pub open spec fn text_ok(n: YamlNode, key: Seq<char>) -> bool {
    text_field(n, key) is Ok
}

/// Whether the boolean field `key` of a mapping reads: absent, `null` or a boolean.
pub open spec fn flag_ok(n: YamlNode, key: Seq<char>) -> bool {
    bool_field(n, key, false) is Ok
}

/// Whether a node reads as a background: `null`, a color, or a mapping of texts.
pub open spec fn background_ok(v: YamlNode) -> bool {
    match v.yaml {
        Yaml::Null | Yaml::Str(_) => true,
        Yaml::Dict(_) => text_ok(v, "src"@) && text_ok(v, "size"@) && text_ok(v, "position"@) && text_ok(v, "repeat"@)
            && text_ok(v, "opacity"@),
        _ => false,
    }
}

/// Whether a node reads as an embedded item: a non-empty source and scalar sizes.
pub open spec fn sized_ok(n: YamlNode) -> bool {
    &&& text_field(n, "src"@) matches Ok(t) && t.len() > 0
    &&& text_ok(n, "width"@)
    &&& text_ok(n, "height"@)
}

/// Whether a node reads as an image.
pub open spec fn img_ok(n: YamlNode) -> bool {
    sized_ok(n) && text_ok(n, "label"@) && flag_ok(n, "pop"@)
}

/// Whether a node reads as a video.
pub open spec fn video_ok(n: YamlNode) -> bool {
    sized_ok(n) && flag_ok(n, "controls"@) && flag_ok(n, "autoplay"@) && text_ok(n, "type"@)
}

/// Whether a node reads as a layered image.
pub open spec fn lay_ok(n: YamlNode) -> bool {
    sized_ok(n) && text_ok(n, "frag"@)
}

/// Whether the inline list under `key` reads, each item by `item_ok`.
pub open spec fn inline_ok(n: YamlNode, key: Seq<char>, item_ok: spec_fn(YamlNode) -> bool) -> bool {
    match entry(n, key) {
        None => true,
        Some(v) => match v.yaml {
            Yaml::Null => true,
            Yaml::Dict(_) | Yaml::List(_) => forall|i: int| 0 <= i < inline_items(v).len() ==> item_ok(#[trigger] inline_items(v)[i]),
            _ => false,
        },
    }
}

/// Whether the list of scalars under `key` reads.
pub open spec fn texts_ok(n: YamlNode, key: Seq<char>) -> bool {
    match entry(n, key) {
        None => true,
        Some(v) => match v.yaml {
            Yaml::List(l) => forall|i: int| 0 <= i < l@.len() ==> scalar_text((#[trigger] l@[i]).yaml) is Some,
            _ => false,
        },
    }
}

/// Whether a fragment map reads: a mapping from scalars to scalars.
pub open spec fn frag_map_ok(m: YamlNode) -> bool {
    match m.yaml {
        Yaml::Dict(p) => forall|j: int| 0 <= j < p@.len() ==> scalar_text((#[trigger] p@[j]).0.yaml) is Some && scalar_text(p@[j].1.yaml) is Some,
        _ => false,
    }
}

/// Whether the fragment options under `frag` read.
pub open spec fn frag_ok(n: YamlNode) -> bool {
    match entry(n, "frag"@) {
        None => true,
        Some(v) => match v.yaml {
            Yaml::List(l) => forall|i: int| 0 <= i < l@.len() ==> frag_map_ok(#[trigger] l@[i]),
            _ => false,
        },
    }
}

/// The background of a whole deck, from its node.
pub open spec fn global_background_ok(n: YamlNode, b: Background) -> bool {
    match n.yaml {
        Yaml::Null => b is Blank,
        Yaml::Str(s) => b matches Background::Color(c) && c@ == s@,
        Yaml::Dict(_) => b matches Background::Img(i) && img_fields(n, i),
        _ => false,
    }
}

/// The image background read from the fields of a mapping.
pub open spec fn img_fields(n: YamlNode, i: ImgBackground) -> bool {
    &&& text_field(n, "src"@) == Ok::<Seq<char>, (Seq<char>, u64)>(i.src@)
    &&& text_field(n, "size"@) == Ok::<Seq<char>, (Seq<char>, u64)>(i.size@)
    &&& text_field(n, "position"@) == Ok::<Seq<char>, (Seq<char>, u64)>(i.position@)
    &&& text_field(n, "repeat"@) == Ok::<Seq<char>, (Seq<char>, u64)>(i.repeat@)
    &&& text_field(n, "opacity"@) == Ok::<Seq<char>, (Seq<char>, u64)>(i.opacity@)
}

fn load_img_background(n: &YamlNode) -> (r: Result<ImgBackground, Error>)
    ensures
        r matches Ok(i) ==> img_fields(*n, i),
        r is Ok == (text_ok(*n, "src"@) && text_ok(*n, "size"@) && text_ok(*n, "position"@) && text_ok(*n, "repeat"@)
            && text_ok(*n, "opacity"@)),
{
    let src = n.text("src")?;
    let size = n.text("size")?;
    let position = n.text("position")?;
    let repeat = n.text("repeat")?;
    let opacity = n.text("opacity")?;
    Ok(ImgBackground { src, size, position, repeat, opacity })
}

/// Reads a background: `null` for none, a string for a color, a mapping for an image.
pub fn load_background(n: &YamlNode) -> (r: Result<Background, Error>)
    ensures
        r matches Ok(b) ==> global_background_ok(*n, b),
        r is Ok == background_ok(*n),
        !(n.yaml is Null || n.yaml is Str || n.yaml is Dict) ==> (r matches Err(e) && is_field_error(e, "background"@, "background"@, n.pos)),
{
    match &n.yaml {
        Yaml::Null => Ok(Background::Blank),
        Yaml::Str(s) => Ok(Background::Color(s.clone())),
        Yaml::Dict(_) => {
            let i = load_img_background(n)?;
            Ok(Background::Img(i))
        },
        _ => Err(Error::FieldType(String::from_str("background"), String::from_str("background"), n.pos)),
    }
}

/// Whether the background of a slide reads: absent, a boolean, or a background.
pub open spec fn local_background_ok(n: YamlNode) -> bool {
    match entry(n, "background"@) {
        None => true,
        Some(v) => v.yaml is Bool || background_ok(v),
    }
}

/// Reads the background of a slide: absent or `true` for the global one,
/// `false` for none, else a background of its own.
pub fn load_local_background(slide: &YamlNode) -> (r: Result<LocalBackground, Error>)
    ensures
        entry(*slide, "background"@) is None ==> r matches Ok(LocalBackground::Inherit),
        entry(*slide, "background"@) is Some && entry(*slide, "background"@).unwrap().yaml == Yaml::Bool(false)
            ==> (r matches Ok(LocalBackground::Disabled)),
        entry(*slide, "background"@) is Some && entry(*slide, "background"@).unwrap().yaml == Yaml::Bool(true)
            ==> (r matches Ok(LocalBackground::Inherit)),
        r matches Ok(LocalBackground::Override(b)) ==> (entry(*slide, "background"@) is Some
            && global_background_ok(entry(*slide, "background"@).unwrap(), b)),
        entry(*slide, "background"@) is Some && !(entry(*slide, "background"@).unwrap().yaml is Bool) && r is Ok
            ==> (r matches Ok(LocalBackground::Override(_))),
        r is Ok == local_background_ok(*slide),
{
    match slide.get("background") {
        None => Ok(LocalBackground::Inherit),
        Some(v) => match &v.yaml {
            Yaml::Bool(b) => Ok(if *b { LocalBackground::Inherit } else { LocalBackground::Disabled }),
            _ => {
                let b = load_background(v)?;
                Ok(LocalBackground::Override(b))
            },
        },
    }
}

/// Reads the source and size of an embedded item; the source is required.
pub fn load_sized(n: &YamlNode) -> (r: Result<Sized, Error>)
    ensures
        r matches Ok(s) ==> {
            &&& text_field(*n, "src"@) == Ok::<Seq<char>, (Seq<char>, u64)>(s.src@)
            &&& s.src@.len() > 0
            &&& text_field(*n, "width"@) == Ok::<Seq<char>, (Seq<char>, u64)>(s.width@)
            &&& text_field(*n, "height"@) == Ok::<Seq<char>, (Seq<char>, u64)>(s.height@)
        },
        text_field(*n, "src"@) == Ok::<Seq<char>, (Seq<char>, u64)>(Seq::empty()) ==> (r matches Err(Error::MissingSource(p)) && p == n.pos),
        r is Ok == sized_ok(*n),
{
    let src = n.text("src")?;
    if src.as_str().is_empty() {
        return Err(Error::MissingSource(n.pos));
    }
    let width = n.text("width")?;
    let height = n.text("height")?;
    Ok(Sized { src, width, height })
}

/// The node of an inline list under `key`, checked to be one.
fn inline_list<'a>(n: &'a YamlNode, key: &str) -> (r: Result<Option<&'a YamlNode>, Error>)
    ensures
        r matches Ok(Some(v)) ==> entry(*n, key@) == Some(*v) && (v.yaml is Dict || v.yaml is List),
        r matches Ok(None) ==> entry(*n, key@) is None || entry(*n, key@).unwrap().yaml is Null,
        entry(*n, key@) is Some && !(entry(*n, key@).unwrap().yaml is Dict || entry(*n, key@).unwrap().yaml is List
            || entry(*n, key@).unwrap().yaml is Null) ==> (r matches Err(e) && is_field_error(e, key@, "list"@, entry(*n, key@).unwrap().pos)),
        r is Ok == (entry(*n, key@) is None || entry(*n, key@).unwrap().yaml is Dict || entry(*n, key@).unwrap().yaml is List
            || entry(*n, key@).unwrap().yaml is Null),
{
    match n.get(key) {
        None => Ok(None),
        Some(v) => match &v.yaml {
            Yaml::Null => Ok(None),
            Yaml::Dict(_) => Ok(Some(v)),
            Yaml::List(_) => Ok(Some(v)),
            _ => Err(Error::FieldType(String::from_str(key), String::from_str("list"), v.pos)),
        },
    }
}

fn item_count(v: &YamlNode) -> (r: usize)
    ensures
        r == inline_items(*v).len(),
{
    match &v.yaml {
        Yaml::Dict(_) => 1,
        Yaml::List(l) => l.len(),
        _ => 0,
    }
}

fn item_at(v: &YamlNode, i: usize) -> (r: &YamlNode)
    requires
        i < inline_items(*v).len(),
    ensures
        *r == inline_items(*v)[i as int],
{
    match &v.yaml {
        Yaml::List(l) => &l[i],
        _ => v,
    }
}

/// Every item of the inline list under `key` has a source, and gives one element.
pub open spec fn media_sources(n: YamlNode, key: Seq<char>, srcs: Seq<Sized>) -> bool {
    match entry(n, key) {
        Some(v) => srcs.len() == inline_items(v).len() && forall|i: int| 0 <= i < srcs.len() ==>
            text_field(inline_items(v)[i], "src"@) == Ok::<Seq<char>, (Seq<char>, u64)>(#[trigger] srcs[i].src@),
        None => srcs.len() == 0,
    }
}

/// Reads the images under `img`.
pub fn load_imgs(n: &YamlNode) -> (r: Result<Vec<Img>, Error>)
    ensures
        r matches Ok(v) ==> media_sources(*n, "img"@, v@.map_values(|x: Img| x.size)),
        r is Ok == inline_ok(*n, "img"@, |x: YamlNode| img_ok(x)),
{
    let mut out: Vec<Img> = Vec::new();
    match inline_list(n, "img")? {
        None => {
            assert(out@.map_values(|x: Img| x.size) =~= Seq::<Sized>::empty());
            Ok(out)
        },
        Some(v) => {
            let k = item_count(v);
            let mut i: usize = 0;
            while i < k
                invariant
                    entry(*n, "img"@) == Some(*v),
                    k == inline_items(*v).len(),
                    i <= k,
                    out@.len() == i,
                    forall|j: int| 0 <= j < i ==>
                        text_field(inline_items(*v)[j], "src"@) == Ok::<Seq<char>, (Seq<char>, u64)>(#[trigger] out@[j].size.src@),
                    forall|j: int| 0 <= j < i ==> img_ok(#[trigger] inline_items(*v)[j]),
                decreases k - i,
            {
                let it = item_at(v, i);
                let ghost prev = out@;
                let ghost item = inline_items(*v)[i as int];
                let size = match load_sized(it) {
                    Ok(s) => s,
                    Err(e) => {
                        return Err(e);
                    },
                };
                let label = it.text("label")?;
                let pop = it.flag("pop", false)?;
                let ghost sz = size;
                out.push(Img { label, pop, size });
                assert(out@[i as int].size == sz);
                proof {
                    assert forall|j: int| 0 <= j < i + 1 implies
                        text_field(inline_items(*v)[j], "src"@) == Ok::<Seq<char>, (Seq<char>, u64)>(#[trigger] out@[j].size.src@) by {
                        if j < i {
                            assert(out@[j] == prev[j]);
                            assert(text_field(inline_items(*v)[j], "src"@) == Ok::<Seq<char>, (Seq<char>, u64)>(prev[j].size.src@));
                        }
                    }
                }
                i = i + 1;
            }
            proof {
                let m = out@.map_values(|x: Img| x.size);
                assert forall|j: int| 0 <= j < m.len() implies
                    text_field(inline_items(*v)[j], "src"@) == Ok::<Seq<char>, (Seq<char>, u64)>(#[trigger] m[j].src@) by {
                    assert(m[j] == out@[j].size);
                    assert(text_field(inline_items(*v)[j], "src"@) == Ok::<Seq<char>, (Seq<char>, u64)>(out@[j].size.src@));
                }
            }
            Ok(out)
        },
    }
}

/// Reads the videos under `video`; they show their controls unless told not to,
/// and are of type `video/mp4` unless told otherwise.
pub fn load_videos(n: &YamlNode) -> (r: Result<Vec<Video>, Error>)
    ensures
        r matches Ok(v) ==> media_sources(*n, "video"@, v@.map_values(|x: Video| x.size)),
        r is Ok == inline_ok(*n, "video"@, |x: YamlNode| video_ok(x)),
{
    let mut out: Vec<Video> = Vec::new();
    match inline_list(n, "video")? {
        None => {
            assert(out@.map_values(|x: Video| x.size) =~= Seq::<Sized>::empty());
            Ok(out)
        },
        Some(v) => {
            let k = item_count(v);
            let mut i: usize = 0;
            while i < k
                invariant
                    entry(*n, "video"@) == Some(*v),
                    k == inline_items(*v).len(),
                    i <= k,
                    out@.len() == i,
                    forall|j: int| 0 <= j < i ==>
                        text_field(inline_items(*v)[j], "src"@) == Ok::<Seq<char>, (Seq<char>, u64)>(#[trigger] out@[j].size.src@),
                    forall|j: int| 0 <= j < i ==> video_ok(#[trigger] inline_items(*v)[j]),
                decreases k - i,
            {
                let it = item_at(v, i);
                let ghost prev = out@;
                let ghost item = inline_items(*v)[i as int];
                let size = match load_sized(it) {
                    Ok(s) => s,
                    Err(e) => {
                        return Err(e);
                    },
                };
                let controls = it.flag("controls", true)?;
                let autoplay = it.flag("autoplay", false)?;
                let mut video_type = it.text("type")?;
                if video_type.as_str().is_empty() {
                    video_type = String::from_str("video/mp4");
                }
                let ghost sz = size;
                out.push(Video { controls, autoplay, video_type, size });
                assert(out@[i as int].size == sz);
                proof {
                    assert forall|j: int| 0 <= j < i + 1 implies
                        text_field(inline_items(*v)[j], "src"@) == Ok::<Seq<char>, (Seq<char>, u64)>(#[trigger] out@[j].size.src@) by {
                        if j < i {
                            assert(out@[j] == prev[j]);
                            assert(text_field(inline_items(*v)[j], "src"@) == Ok::<Seq<char>, (Seq<char>, u64)>(prev[j].size.src@));
                        }
                    }
                }
                i = i + 1;
            }
            proof {
                let m = out@.map_values(|x: Video| x.size);
                assert forall|j: int| 0 <= j < m.len() implies
                    text_field(inline_items(*v)[j], "src"@) == Ok::<Seq<char>, (Seq<char>, u64)>(#[trigger] m[j].src@) by {
                    assert(m[j] == out@[j].size);
                    assert(text_field(inline_items(*v)[j], "src"@) == Ok::<Seq<char>, (Seq<char>, u64)>(out@[j].size.src@));
                }
            }
            Ok(out)
        },
    }
}

/// Reads the frames under `iframe`.
pub fn load_iframes(n: &YamlNode) -> (r: Result<Vec<IFrame>, Error>)
    ensures
        r matches Ok(v) ==> media_sources(*n, "iframe"@, v@.map_values(|x: IFrame| x.size)),
        r is Ok == inline_ok(*n, "iframe"@, |x: YamlNode| sized_ok(x)),
{
    let mut out: Vec<IFrame> = Vec::new();
    match inline_list(n, "iframe")? {
        None => {
            assert(out@.map_values(|x: IFrame| x.size) =~= Seq::<Sized>::empty());
            Ok(out)
        },
        Some(v) => {
            let k = item_count(v);
            let mut i: usize = 0;
            while i < k
                invariant
                    entry(*n, "iframe"@) == Some(*v),
                    k == inline_items(*v).len(),
                    i <= k,
                    out@.len() == i,
                    forall|j: int| 0 <= j < i ==>
                        text_field(inline_items(*v)[j], "src"@) == Ok::<Seq<char>, (Seq<char>, u64)>(#[trigger] out@[j].size.src@),
                    forall|j: int| 0 <= j < i ==> sized_ok(#[trigger] inline_items(*v)[j]),
                decreases k - i,
            {
                let it = item_at(v, i);
                let ghost prev = out@;
                let ghost item = inline_items(*v)[i as int];
                let size = match load_sized(it) {
                    Ok(s) => s,
                    Err(e) => {
                        return Err(e);
                    },
                };
                let ghost sz = size;
                out.push(IFrame { size });
                assert(out@[i as int].size == sz);
                proof {
                    assert forall|j: int| 0 <= j < i + 1 implies
                        text_field(inline_items(*v)[j], "src"@) == Ok::<Seq<char>, (Seq<char>, u64)>(#[trigger] out@[j].size.src@) by {
                        if j < i {
                            assert(out@[j] == prev[j]);
                            assert(text_field(inline_items(*v)[j], "src"@) == Ok::<Seq<char>, (Seq<char>, u64)>(prev[j].size.src@));
                        }
                    }
                }
                i = i + 1;
            }
            proof {
                let m = out@.map_values(|x: IFrame| x.size);
                assert forall|j: int| 0 <= j < m.len() implies
                    text_field(inline_items(*v)[j], "src"@) == Ok::<Seq<char>, (Seq<char>, u64)>(#[trigger] m[j].src@) by {
                    assert(m[j] == out@[j].size);
                    assert(text_field(inline_items(*v)[j], "src"@) == Ok::<Seq<char>, (Seq<char>, u64)>(out@[j].size.src@));
                }
            }
            Ok(out)
        },
    }
}

/// Reads the layered images under `lay-img`.
pub fn load_lay_imgs(n: &YamlNode) -> (r: Result<Vec<LayImg>, Error>)
    ensures
        r matches Ok(v) ==> media_sources(*n, "lay-img"@, v@.map_values(|x: LayImg| x.size)),
        r is Ok == inline_ok(*n, "lay-img"@, |x: YamlNode| lay_ok(x)),
{
    let mut out: Vec<LayImg> = Vec::new();
    match inline_list(n, "lay-img")? {
        None => {
            assert(out@.map_values(|x: LayImg| x.size) =~= Seq::<Sized>::empty());
            Ok(out)
        },
        Some(v) => {
            let k = item_count(v);
            let mut i: usize = 0;
            while i < k
                invariant
                    entry(*n, "lay-img"@) == Some(*v),
                    k == inline_items(*v).len(),
                    i <= k,
                    out@.len() == i,
                    forall|j: int| 0 <= j < i ==>
                        text_field(inline_items(*v)[j], "src"@) == Ok::<Seq<char>, (Seq<char>, u64)>(#[trigger] out@[j].size.src@),
                    forall|j: int| 0 <= j < i ==> lay_ok(#[trigger] inline_items(*v)[j]),
                decreases k - i,
            {
                let it = item_at(v, i);
                let ghost prev = out@;
                let ghost item = inline_items(*v)[i as int];
                let size = match load_sized(it) {
                    Ok(s) => s,
                    Err(e) => {
                        return Err(e);
                    },
                };
                let frag = it.text("frag")?;
                let ghost sz = size;
                out.push(LayImg { frag, size });
                assert(out@[i as int].size == sz);
                proof {
                    assert forall|j: int| 0 <= j < i + 1 implies
                        text_field(inline_items(*v)[j], "src"@) == Ok::<Seq<char>, (Seq<char>, u64)>(#[trigger] out@[j].size.src@) by {
                        if j < i {
                            assert(out@[j] == prev[j]);
                            assert(text_field(inline_items(*v)[j], "src"@) == Ok::<Seq<char>, (Seq<char>, u64)>(prev[j].size.src@));
                        }
                    }
                }
                i = i + 1;
            }
            proof {
                let m = out@.map_values(|x: LayImg| x.size);
                assert forall|j: int| 0 <= j < m.len() implies
                    text_field(inline_items(*v)[j], "src"@) == Ok::<Seq<char>, (Seq<char>, u64)>(#[trigger] m[j].src@) by {
                    assert(m[j] == out@[j].size);
                    assert(text_field(inline_items(*v)[j], "src"@) == Ok::<Seq<char>, (Seq<char>, u64)>(out@[j].size.src@));
                }
            }
            Ok(out)
        },
    }
}

/// Reads a list of scalars under `key` as texts; absent is empty.
pub fn load_texts(n: &YamlNode, key: &str) -> (r: Result<Vec<String>, Error>)
    ensures
        entry(*n, key@) is None ==> (r matches Ok(v) && v@.len() == 0),
        r matches Ok(v) ==> texts_fields(*n, key@, v@),
        r is Ok == texts_ok(*n, key@),
{
    let mut out: Vec<String> = Vec::new();
    match n.get(key) {
        None => Ok(out),
        Some(v) => match &v.yaml {
            Yaml::List(l) => {
                let mut i: usize = 0;
                while i < l.len()
                    invariant
                        entry(*n, key@) == Some(*v),
                        v.yaml == Yaml::List(*l),
                        i <= l@.len(),
                        out@.len() == i,
                        forall|j: int| 0 <= j < i ==> scalar_text(l@[j].yaml) == Some(#[trigger] out@[j]@),
                    decreases l@.len() - i,
                {
                    match l[i].scalar() {
                        Some(t) => out.push(t),
                        None => {
                            assert(scalar_text(l@[i as int].yaml) is None);
                            return Err(Error::FieldType(String::from_str(key), String::from_str("string"), l[i].pos));
                        },
                    }
                    i = i + 1;
                }
                assert forall|j: int| 0 <= j < l@.len() implies scalar_text((#[trigger] l@[j]).yaml) is Some by {
                    assert(scalar_text(l@[j].yaml) == Some(out@[j]@));
                }
                Ok(out)
            },
            _ => Err(Error::FieldType(String::from_str(key), String::from_str("list"), v.pos)),
        },
    }
}

/// The maps read from one mapping of tags to classes.
pub open spec fn frag_map_read(m: YamlNode, v: Seq<(String, String)>) -> bool {
    m.yaml matches Yaml::Dict(p) && v.len() == p@.len() && forall|q: int| 0 <= q < v.len() ==>
        Some((#[trigger] v[q]).0@) == scalar_text(p@[q].0.yaml) && Some(v[q].1@) == scalar_text(p@[q].1.yaml)
}

/// The fragment options read from the list under `frag`.
pub open spec fn frag_read(n: YamlNode, f: Seq<Vec<(String, String)>>) -> bool {
    match entry(n, "frag"@) {
        None => f.len() == 0,
        Some(v) => v.yaml matches Yaml::List(l) && f.len() == l@.len()
            && forall|i: int| 0 <= i < f.len() ==> frag_map_read(l@[i], (#[trigger] f[i])@),
    }
}

/// Reads the fragment options under `frag`: a list of mappings from a tag to
/// an animation class (`null` for the default one).
pub fn load_frag(n: &YamlNode) -> (r: Result<FragMap, Error>)
    ensures
        entry(*n, "frag"@) is None ==> (r matches Ok(f) && f.frag@.len() == 0),
        r matches Ok(f) ==> list_len(*n, "frag"@, f.frag@.len()) && frag_read(*n, f.frag@),
        r is Ok == frag_ok(*n),
{
    let mut out: Vec<Vec<(String, String)>> = Vec::new();
    match n.get("frag") {
        None => Ok(FragMap { frag: out }),
        Some(v) => match &v.yaml {
            Yaml::List(l) => {
                let mut i: usize = 0;
                while i < l.len()
                    invariant
                        entry(*n, "frag"@) == Some(*v),
                        v.yaml == Yaml::List(*l),
                        i <= l@.len(),
                        out@.len() == i,
                        forall|j: int| 0 <= j < i ==> frag_map_ok(#[trigger] l@[j]),
                        forall|j: int| 0 <= j < i ==> frag_map_read(l@[j], (#[trigger] out@[j])@),
                    decreases l@.len() - i,
                {
                    let ghost prev = out@;
                    match &l[i].yaml {
                        Yaml::Dict(pairs) => {
                            let mut m: Vec<(String, String)> = Vec::new();
                            let mut j: usize = 0;
                            while j < pairs.len()
                                invariant
                                    entry(*n, "frag"@) == Some(*v),
                                    v.yaml == Yaml::List(*l),
                                    i < l@.len(),
                                    out@ == prev,
                                    l@[i as int].yaml == Yaml::Dict(*pairs),
                                    j <= pairs@.len(),
                                    m@.len() == j,
                                    forall|q: int| 0 <= q < j ==> scalar_text((#[trigger] pairs@[q]).0.yaml) is Some
                                        && scalar_text(pairs@[q].1.yaml) is Some,
                                    forall|q: int| 0 <= q < j ==> Some((#[trigger] m@[q]).0@) == scalar_text(pairs@[q].0.yaml)
                                        && Some(m@[q].1@) == scalar_text(pairs@[q].1.yaml),
                                decreases pairs@.len() - j,
                            {
                                let k = pairs[j].0.scalar();
                                let c = pairs[j].1.scalar();
                                match (k, c) {
                                    (Some(k), Some(c)) => m.push((k, c)),
                                    _ => {
                                        assert(!(scalar_text(pairs@[j as int].0.yaml) is Some
                                            && scalar_text(pairs@[j as int].1.yaml) is Some));
                                        assert(!frag_map_ok(l@[i as int]));
                                        assert(entry(*n, "frag"@).unwrap().yaml->List_0 == *l);
                            assert(!frag_map_ok(entry(*n, "frag"@).unwrap().yaml->List_0@[i as int]));
                                        return Err(Error::FieldType(String::from_str("frag"), String::from_str("string"), pairs[j].1.pos));
                                    },
                                }
                                j = j + 1;
                            }
                            let ghost mm = m@;
                            out.push(m);
                            proof {
                                assert(frag_map_read(l@[i as int], mm));
                                assert(out@[i as int]@ == mm);
                                assert forall|q: int| 0 <= q < i + 1 implies frag_map_read(l@[q], (#[trigger] out@[q])@) by {
                                    if q < i {
                                        assert(out@[q] == prev[q]);
                                    }
                                }
                            }
                        },
                        _ => {
                            assert(!frag_map_ok(l@[i as int]));
                            assert(entry(*n, "frag"@).unwrap().yaml->List_0 == *l);
                            assert(!frag_map_ok(entry(*n, "frag"@).unwrap().yaml->List_0@[i as int]));
                            return Err(Error::FieldType(String::from_str("frag"), String::from_str("mapping"), l[i].pos));
                        },
                    }
                    i = i + 1;
                }
                Ok(FragMap { frag: out })
            },
            _ => Err(Error::FieldType(String::from_str("frag"), String::from_str("list"), v.pos)),
        },
    }
}

/// Whether a node reads as a content block, its stacks included.
pub open spec fn content_ok(n: YamlNode) -> bool
    decreases n, 1nat,
{
    &&& texts_ok(n, "fit"@)
    &&& text_ok(n, "doc"@)
    &&& text_ok(n, "import"@)
    &&& flag_ok(n, "import-html"@)
    &&& text_ok(n, "math"@)
    &&& inline_ok(n, "img"@, |x: YamlNode| img_ok(x))
    &&& inline_ok(n, "video"@, |x: YamlNode| video_ok(x))
    &&& inline_ok(n, "iframe"@, |x: YamlNode| sized_ok(x))
    &&& inline_ok(n, "lay-img"@, |x: YamlNode| lay_ok(x))
    &&& frag_ok(n)
    &&& stack_ok(n, "h-stack"@)
    &&& stack_ok(n, "v-stack"@)
    &&& stack_ok(n, "h-stack-border"@)
    &&& stack_ok(n, "v-stack-border"@)
}

/// Whether the stack under `key` reads: absent, or a list of content blocks.
pub open spec fn stack_ok(n: YamlNode, key: Seq<char>) -> bool
    decreases n, 0nat,
    via stack_ok_decreases
{
    match entry(n, key) {
        None => true,
        Some(v) => match v.yaml {
            Yaml::List(l) => forall|i: int| 0 <= i < l@.len() ==> content_ok(#[trigger] l@[i]),
            _ => false,
        },
    }
}

#[via_fn]
proof fn stack_ok_decreases(n: YamlNode, key: Seq<char>) {
    if entry(n, key) is Some {
        let v = entry(n, key).unwrap();
        lemma_entry_smaller(n, key, 0);
        if v.yaml is List {
            let l = v.yaml->List_0;
            assert forall|i: int| 0 <= i < l@.len() implies decreases_to!(n => l@[i]) by {
                assert(decreases_to!(v => v.yaml));
                assert(decreases_to!(v.yaml => l));
                assert(decreases_to!(l => l[i]));
            }
        }
    }
}

/// The texts of a block read from the fields of a mapping.
pub open spec fn content_fields(n: YamlNode, c: Content) -> bool {
    &&& text_field(n, "doc"@) == Ok::<Seq<char>, (Seq<char>, u64)>(c.doc@)
    &&& text_field(n, "import"@) == Ok::<Seq<char>, (Seq<char>, u64)>(c.import@)
    &&& (entry(n, "import"@) matches Some(v) ==> c.import_pos == v.pos)
    &&& bool_field(n, "import-html"@, false) == Ok::<bool, (Seq<char>, u64)>(c.import_html)
    &&& text_field(n, "math"@) == Ok::<Seq<char>, (Seq<char>, u64)>(c.math@)
    &&& media_sources(n, "img"@, c.img@.map_values(|x: Img| x.size))
    &&& c.img_list == is_list_at(n, "img"@)
    &&& c.video_list == is_list_at(n, "video"@)
    &&& c.iframe_list == is_list_at(n, "iframe"@)
    &&& media_sources(n, "video"@, c.video@.map_values(|x: Video| x.size))
    &&& media_sources(n, "iframe"@, c.iframe@.map_values(|x: IFrame| x.size))
    &&& media_sources(n, "lay-img"@, c.lay_img@.map_values(|x: LayImg| x.size))
    &&& texts_fields(n, "fit"@, c.fit@)
    &&& list_len(n, "frag"@, c.frag.frag@.len())
    &&& list_len(n, "h-stack"@, c.h_stack@.len())
    &&& list_len(n, "v-stack"@, c.v_stack@.len())
    &&& list_len(n, "h-stack-border"@, c.h_stack_border@.len())
    &&& list_len(n, "v-stack-border"@, c.v_stack_border@.len())
}

/// The list under `key` has `len` items; none where absent.
pub open spec fn list_len(n: YamlNode, key: Seq<char>, len: nat) -> bool {
    match entry(n, key) {
        None => len == 0,
        Some(v) => v.yaml matches Yaml::List(l) && l@.len() == len,
    }
}

/// The texts read from the list of scalars under `key`; none where absent.
pub open spec fn texts_fields(n: YamlNode, key: Seq<char>, v: Seq<String>) -> bool {
    match entry(n, key) {
        None => v.len() == 0,
        Some(e) => match e.yaml {
            Yaml::List(l) => v.len() == l@.len() && forall|i: int| 0 <= i < v.len() ==> scalar_text(l@[i].yaml) == Some(#[trigger] v[i]@),
            _ => false,
        },
    }
}

/// Whether the value under `key` is a sequence.
pub open spec fn is_list_at(n: YamlNode, key: Seq<char>) -> bool {
    entry(n, key) is Some && entry(n, key).unwrap().yaml is List
}

fn written_as_list(n: &YamlNode, key: &str) -> (r: bool)
    ensures
        r == is_list_at(*n, key@),
{
    match n.get(key) {
        Some(v) => match &v.yaml {
            Yaml::List(_) => true,
            _ => false,
        },
        None => false,
    }
}

/// Reads a content block from a mapping.
pub fn load_content(n: &YamlNode) -> (r: Result<Content, Error>)
    ensures
        r matches Ok(c) ==> content_fields(*n, c),
        r is Ok == content_ok(*n),
    decreases n, 1nat,
{
    let fit = load_texts(n, "fit")?;
    let doc = n.text("doc")?;
    let import = n.text("import")?;
    let import_pos = match n.get("import") {
        Some(v) => v.pos,
        None => n.pos,
    };
    let import_html = n.flag("import-html", false)?;
    let math = n.text("math")?;
    let img = load_imgs(n)?;
    let img_list = written_as_list(n, "img");
    let video = load_videos(n)?;
    let video_list = written_as_list(n, "video");
    let iframe = load_iframes(n)?;
    let iframe_list = written_as_list(n, "iframe");
    let lay_img = load_lay_imgs(n)?;
    let frag = load_frag(n)?;
    let h_stack = load_stack(n, "h-stack")?;
    let v_stack = load_stack(n, "v-stack")?;
    let h_stack_border = load_stack(n, "h-stack-border")?;
    let v_stack_border = load_stack(n, "v-stack-border")?;
    Ok(Content {
        fit,
        doc,
        import,
        import_pos,
        import_html,
        math,
        img,
        img_list,
        video,
        video_list,
        iframe,
        iframe_list,
        lay_img,
        frag,
        h_stack,
        v_stack,
        h_stack_border,
        v_stack_border,
    })
}

/// Reads the blocks of a stack under `key`: a list of mappings.
fn load_stack(n: &YamlNode, key: &str) -> (r: Result<Vec<Content>, Error>)
    ensures
        entry(*n, key@) is None ==> (r matches Ok(v) && v@.len() == 0),
        r matches Ok(v) ==> list_len(*n, key@, v@.len()),
        r is Ok == stack_ok(*n, key@),
    decreases n, 0nat,
{
    let mut out: Vec<Content> = Vec::new();
    match n.get(key) {
        None => Ok(out),
        Some(v) => match &v.yaml {
            Yaml::List(l) => {
                proof {
                    lemma_entry_smaller(*n, key@, 0);
                    assert(decreases_to!(*v => v.yaml));
                    assert(decreases_to!(v.yaml => v.yaml->List_0));
                }
                let mut i: usize = 0;
                while i < l.len()
                    invariant
                        entry(*n, key@) == Some(*v),
                        v.yaml == Yaml::List(*l),
                        i <= l@.len(),
                        out@.len() == i,
                        decreases_to!(*n => *l),
                        forall|j: int| 0 <= j < i ==> content_ok(#[trigger] l@[j]),
                    decreases l@.len() - i,
                {
                    proof {
                        assert(decreases_to!(*l => l[i as int]));
                    }
                    let c = match load_content(&l[i]) {
                        Ok(c) => c,
                        Err(e) => {
                            assert(entry(*n, key@).unwrap().yaml->List_0 == *l);
                            assert(!content_ok(entry(*n, key@).unwrap().yaml->List_0@[i as int]));
                            return Err(e);
                        },
                    };
                    out.push(c);
                    i = i + 1;
                }
                Ok(out)
            },
            _ => Err(Error::FieldType(String::from_str(key), String::from_str("list"), v.pos)),
        },
    }
}

/// The keys that a slide can have.
pub open spec fn slide_key(k: Seq<char>) -> bool {
    k == "title"@
        || k == "title-hidden"@
        || k == "title-only"@
        || k == "note"@
        || k == "background"@
        || k == "class"@
        || k == "id"@
        || k == "attr"@
        || k == "auto-animate"@
        || k == "trans"@
        || k == "bg-trans"@
        || k == "fit"@
        || k == "doc"@
        || k == "import"@
        || k == "import-html"@
        || k == "math"@
        || k == "img"@
        || k == "video"@
        || k == "iframe"@
        || k == "lay-img"@
        || k == "frag"@
        || k == "h-stack"@
        || k == "v-stack"@
        || k == "h-stack-border"@
        || k == "v-stack-border"@
        || k == "sub"@
}

/// Whether a key is one that a slide can have.
pub fn is_slide_key(k: &str) -> (r: bool)
    ensures
        r == slide_key(k@),
{
    if same_text(k, "title") {
        return true;
    }
    if same_text(k, "title-hidden") {
        return true;
    }
    if same_text(k, "title-only") {
        return true;
    }
    if same_text(k, "note") {
        return true;
    }
    if same_text(k, "background") {
        return true;
    }
    if same_text(k, "class") {
        return true;
    }
    if same_text(k, "id") {
        return true;
    }
    if same_text(k, "attr") {
        return true;
    }
    if same_text(k, "auto-animate") {
        return true;
    }
    if same_text(k, "trans") {
        return true;
    }
    if same_text(k, "bg-trans") {
        return true;
    }
    if same_text(k, "fit") {
        return true;
    }
    if same_text(k, "doc") {
        return true;
    }
    if same_text(k, "import") {
        return true;
    }
    if same_text(k, "import-html") {
        return true;
    }
    if same_text(k, "math") {
        return true;
    }
    if same_text(k, "img") {
        return true;
    }
    if same_text(k, "video") {
        return true;
    }
    if same_text(k, "iframe") {
        return true;
    }
    if same_text(k, "lay-img") {
        return true;
    }
    if same_text(k, "frag") {
        return true;
    }
    if same_text(k, "h-stack") {
        return true;
    }
    if same_text(k, "v-stack") {
        return true;
    }
    if same_text(k, "h-stack-border") {
        return true;
    }
    if same_text(k, "v-stack-border") {
        return true;
    }
    if same_text(k, "sub") {
        return true;
    }
    false
}

/// Whether a key node is a string that a slide can have as a key.
pub open spec fn is_slide_key_node(k: YamlNode) -> bool {
    match k.yaml {
        Yaml::Str(s) => slide_key(s@),
        _ => false,
    }
}

/// Whether a node is a mapping with a key that a slide can have.
pub open spec fn has_slide_key(n: YamlNode) -> bool {
    match n.yaml {
        Yaml::Dict(p) => exists|i: int| 0 <= i < p@.len() && is_slide_key_node((#[trigger] p@[i]).0),
        _ => false,
    }
}

fn check_slide_keys(n: &YamlNode) -> (r: bool)
    ensures
        r == has_slide_key(*n),
{
    match &n.yaml {
        Yaml::Dict(p) => {
            let mut i: usize = 0;
            while i < p.len()
                invariant
                    n.yaml == Yaml::Dict(*p),
                    i <= p@.len(),
                    forall|j: int| 0 <= j < i ==> !is_slide_key_node((#[trigger] p@[j]).0),
                decreases p@.len() - i,
            {
                match &p[i].0.yaml {
                    Yaml::Str(k) => {
                        if is_slide_key(k.as_str()) {
                            assert(n.yaml->Dict_0 == *p);
                            assert(is_slide_key_node(n.yaml->Dict_0@[i as int].0));
                            return true;
                        }
                    },
                    _ => {},
                }
                i = i + 1;
            }
            false
        },
        _ => false,
    }
}

/// The attributes of a slide read from the fields of a mapping.
pub open spec fn slide_fields(n: YamlNode, s: Slide) -> bool {
    &&& text_field(n, "title"@) == Ok::<Seq<char>, (Seq<char>, u64)>(s.title@)
    &&& text_field(n, "title-hidden"@) == Ok::<Seq<char>, (Seq<char>, u64)>(s.title_hidden@)
    &&& text_field(n, "title-only"@) == Ok::<Seq<char>, (Seq<char>, u64)>(s.title_only@)
    &&& text_field(n, "note"@) == Ok::<Seq<char>, (Seq<char>, u64)>(s.note@)
    &&& text_field(n, "class"@) == Ok::<Seq<char>, (Seq<char>, u64)>(s.class@)
    &&& text_field(n, "id"@) == Ok::<Seq<char>, (Seq<char>, u64)>(s.id@)
    &&& text_field(n, "attr"@) == Ok::<Seq<char>, (Seq<char>, u64)>(s.attr@)
    &&& bool_field(n, "auto-animate"@, false) == Ok::<bool, (Seq<char>, u64)>(s.auto_animate)
    &&& text_field(n, "trans"@) == Ok::<Seq<char>, (Seq<char>, u64)>(s.trans@)
    &&& text_field(n, "bg-trans"@) == Ok::<Seq<char>, (Seq<char>, u64)>(s.bg_trans@)
    &&& content_fields(n, s.content)
    &&& (entry(n, "background"@) is None ==> s.background is Inherit)
    &&& (entry(n, "background"@) is Some && entry(n, "background"@).unwrap().yaml == Yaml::Bool(false)
        ==> s.background is Disabled)
}

/// Whether a node reads as a slide.
pub open spec fn slide_readable(n: YamlNode) -> bool {
    &&& has_slide_key(n)
    &&& text_ok(n, "title"@)
    &&& text_ok(n, "title-hidden"@)
    &&& text_ok(n, "title-only"@)
    &&& text_ok(n, "note"@)
    &&& text_ok(n, "class"@)
    &&& text_ok(n, "id"@)
    &&& text_ok(n, "attr"@)
    &&& flag_ok(n, "auto-animate"@)
    &&& text_ok(n, "trans"@)
    &&& text_ok(n, "bg-trans"@)
    &&& local_background_ok(n)
    &&& content_ok(n)
}

/// Whether a node reads as a chapter: a slide, and a list of slides under `sub`.
pub open spec fn chapter_readable(n: YamlNode) -> bool {
    &&& slide_readable(n)
    &&& match entry(n, "sub"@) {
        None => true,
        Some(v) => match v.yaml {
            Yaml::Null => true,
            Yaml::List(l) => forall|i: int| 0 <= i < l@.len() ==> slide_readable(#[trigger] l@[i]),
            _ => false,
        },
    }
}

/// Reads a slide; a slide with no key that a slide can have is an error.
pub fn load_slide(n: &YamlNode) -> (r: Result<Slide, Error>)
    ensures
        !has_slide_key(*n) ==> (r matches Err(Error::EmptySlide(p)) && p == n.pos),
        r is Ok ==> has_slide_key(*n),
        r matches Ok(s) ==> slide_fields(*n, s),
        r is Ok == slide_readable(*n),
{
    if !check_slide_keys(n) {
        return Err(Error::EmptySlide(n.pos));
    }
    let title = n.text("title")?;
    let title_hidden = n.text("title-hidden")?;
    let title_only = n.text("title-only")?;
    let note = n.text("note")?;
    let class = n.text("class")?;
    let id = n.text("id")?;
    let attr = n.text("attr")?;
    let auto_animate = n.flag("auto-animate", false)?;
    let trans = n.text("trans")?;
    let bg_trans = n.text("bg-trans")?;
    let background = load_local_background(n)?;
    let content = load_content(n)?;
    Ok(Slide {
        title,
        title_hidden,
        title_only,
        content,
        note,
        background,
        class,
        id,
        attr,
        auto_animate,
        trans,
        bg_trans,
    })
}

/// The vertical slides of a chapter read from the list under `sub`.
pub open spec fn sub_fields(n: YamlNode, subs: Seq<Slide>) -> bool {
    match entry(n, "sub"@) {
        None => subs.len() == 0,
        Some(v) => match v.yaml {
            Yaml::Null => subs.len() == 0,
            Yaml::List(l) => subs.len() == l@.len() && forall|i: int| 0 <= i < subs.len() ==> slide_fields(l@[i], #[trigger] subs[i]),
            _ => false,
        },
    }
}

/// A chapter read from a mapping.
pub open spec fn chapter_fields(n: YamlNode, c: ChapterSlide) -> bool {
    slide_fields(n, c.slide) && sub_fields(n, c.sub@)
}

/// Reads a chapter: a slide and the slides under `sub`.
pub fn load_chapter(n: &YamlNode) -> (r: Result<ChapterSlide, Error>)
    ensures
        !has_slide_key(*n) ==> (r matches Err(Error::EmptySlide(p)) && p == n.pos),
        r matches Ok(c) ==> chapter_fields(*n, c),
        r is Ok == chapter_readable(*n),
{
    let slide = load_slide(n)?;
    let mut sub: Vec<Slide> = Vec::new();
    match n.get("sub") {
        None => {},
        Some(v) => match &v.yaml {
            Yaml::List(l) => {
                let mut i: usize = 0;
                while i < l.len()
                    invariant
                        entry(*n, "sub"@) == Some(*v),
                        v.yaml == Yaml::List(*l),
                        i <= l@.len(),
                        sub@.len() == i,
                        forall|j: int| 0 <= j < i ==> slide_fields(l@[j], #[trigger] sub@[j]),
                        forall|j: int| 0 <= j < i ==> slide_readable(#[trigger] l@[j]),
                        slide_readable(*n),
                    decreases l@.len() - i,
                {
                    let s = match load_slide(&l[i]) {
                        Ok(s) => s,
                        Err(e) => {
                            assert(entry(*n, "sub"@).unwrap().yaml->List_0 == *l);
                            assert(!slide_readable(entry(*n, "sub"@).unwrap().yaml->List_0@[i as int]));
                            return Err(e);
                        },
                    };
                    let ghost prev = sub@;
                    sub.push(s);
                    proof {
                        assert forall|j: int| 0 <= j < i + 1 implies slide_fields(l@[j], #[trigger] sub@[j]) by {
                            if j < i {
                                assert(sub@[j] == prev[j]);
                            }
                        }
                    }
                    i = i + 1;
                }
            },
            Yaml::Null => {},
            _ => {
                return Err(Error::FieldType(String::from_str("sub"), String::from_str("list"), v.pos));
            },
        },
    }
    Ok(ChapterSlide { slide, sub })
}

/// The text field `key` of a mapping, with `default` where it is absent.
pub open spec fn text_or(n: YamlNode, key: Seq<char>, default: Seq<char>) -> Result<Seq<char>, (Seq<char>, u64)> {
    if entry(n, key) is None { Ok(default) } else { text_field(n, key) }
}

fn text_default(n: &YamlNode, key: &str, default: &str) -> (r: Result<String, Error>)
    ensures
        text_or(*n, key@, default@) matches Ok(t) ==> (r matches Ok(s) && s@ == t),
        text_or(*n, key@, default@) matches Err((f, p)) ==> (r matches Err(e) && is_field_error(e, f, "string"@, p)),
{
    if n.get(key).is_none() {
        Ok(String::from_str(default))
    } else {
        n.text(key)
    }
}

/// Whether every mapping key in an option value is a scalar.
pub open spec fn js_keys_ok(n: YamlNode) -> bool
    decreases n,
    via js_decreases
{
    match n.yaml {
        Yaml::List(l) => forall|i: int| 0 <= i < l@.len() ==> js_keys_ok(#[trigger] l@[i]),
        Yaml::Dict(p) => forall|i: int| 0 <= i < p@.len() ==> scalar_text((#[trigger] p@[i]).0.yaml) is Some
            && js_keys_ok(p@[i].1),
        _ => true,
    }
}

/// Whether an option value holds no anchor reference, at any depth.
pub open spec fn js_alias_free(n: YamlNode) -> bool
    decreases n,
    via js_alias_decreases
{
    match n.yaml {
        Yaml::Alias(_) => false,
        Yaml::List(l) => forall|i: int| 0 <= i < l@.len() ==> js_alias_free(#[trigger] l@[i]),
        Yaml::Dict(p) => forall|i: int| 0 <= i < p@.len() ==> js_alias_free((#[trigger] p@[i]).1),
        _ => true,
    }
}

#[via_fn]
proof fn js_decreases(n: YamlNode) {
    match n.yaml {
        Yaml::List(l) => {
            assert forall|i: int| 0 <= i < l@.len() implies decreases_to!(n => l@[i]) by {
                assert(decreases_to!(n => n.yaml));
                assert(decreases_to!(n.yaml => l));
                assert(decreases_to!(l => l[i]));
            }
        },
        Yaml::Dict(p) => {
            assert forall|i: int| 0 <= i < p@.len() implies decreases_to!(n => p@[i].1) by {
                assert(decreases_to!(n => n.yaml));
                assert(decreases_to!(n.yaml => p));
                assert(decreases_to!(p => p[i]));
                assert(decreases_to!(p[i] => p[i].1));
            }
        },
        _ => {},
    }
}

#[via_fn]
proof fn js_alias_decreases(n: YamlNode) {
    match n.yaml {
        Yaml::List(l) => {
            assert forall|i: int| 0 <= i < l@.len() implies decreases_to!(n => l@[i]) by {
                assert(decreases_to!(n => n.yaml));
                assert(decreases_to!(n.yaml => l));
                assert(decreases_to!(l => l[i]));
            }
        },
        Yaml::Dict(p) => {
            assert forall|i: int| 0 <= i < p@.len() implies decreases_to!(n => p@[i].1) by {
                assert(decreases_to!(n => n.yaml));
                assert(decreases_to!(n.yaml => p));
                assert(decreases_to!(p => p[i]));
                assert(decreases_to!(p[i] => p[i].1));
            }
        },
        _ => {},
    }
}

/// Reads an option value; an anchor reference is not allowed there.
pub fn load_js(n: &YamlNode) -> (r: Result<JsType, Error>)
    ensures
        n.yaml is Alias ==> (r matches Err(Error::UnsupportedReference(p)) && p == n.pos),
        n.yaml matches Yaml::Bool(b) ==> r == Ok::<JsType, Error>(JsType::Bool(b)),
        n.yaml matches Yaml::Str(t) ==> (r matches Ok(JsType::Str(u)) && u@ == t@),
        n.yaml matches Yaml::Int(t) ==> (r matches Ok(JsType::Number(u)) && u@ == t@),
        n.yaml matches Yaml::Float(t) ==> (r matches Ok(JsType::Number(u)) && u@ == t@),
        n.yaml is Null ==> (r matches Ok(JsType::Null)),
        n.yaml is List ==> (r is Ok ==> (r matches Ok(JsType::List(v)) && v@.len() == n.yaml->List_0@.len())),
        n.yaml is Dict ==> (r is Ok ==> (r matches Ok(JsType::Dict(v)) && v@.len() == n.yaml->Dict_0@.len())),
        r is Ok == (js_keys_ok(*n) && js_alias_free(*n)),
        js_keys_ok(*n) && !js_alias_free(*n) ==> (r matches Err(Error::UnsupportedReference(_))),
    decreases n,
{
    match &n.yaml {
        Yaml::Null => Ok(JsType::Null),
        Yaml::Bool(b) => Ok(JsType::Bool(*b)),
        Yaml::Int(t) => Ok(JsType::Number(t.clone())),
        Yaml::Float(t) => Ok(JsType::Number(t.clone())),
        Yaml::Str(t) => Ok(JsType::Str(t.clone())),
        Yaml::Alias(_) => Err(Error::UnsupportedReference(n.pos)),
        Yaml::List(l) => {
            let mut out: Vec<JsType> = Vec::new();
            let mut i: usize = 0;
            while i < l.len()
                invariant
                    n.yaml == Yaml::List(*l),
                    i <= l@.len(),
                    out@.len() == i,
                    forall|j: int| 0 <= j < i ==> js_keys_ok(#[trigger] l@[j]) && js_alias_free(l@[j]),
                decreases l@.len() - i,
            {
                proof {
                    assert(decreases_to!(*n => n.yaml));
                    assert(decreases_to!(n.yaml => n.yaml->List_0));
                    assert(decreases_to!(*l => l[i as int]));
                }
                let v = match load_js(&l[i]) {
                    Ok(v) => v,
                    Err(e) => {
                        assert(n.yaml->List_0 == *l);
                        assert(!(js_keys_ok(n.yaml->List_0@[i as int]) && js_alias_free(n.yaml->List_0@[i as int])));
                        return Err(e);
                    },
                };
                out.push(v);
                i = i + 1;
            }
            Ok(JsType::List(out))
        },
        Yaml::Dict(p) => {
            let mut out: Vec<(String, JsType)> = Vec::new();
            let mut i: usize = 0;
            while i < p.len()
                invariant
                    n.yaml == Yaml::Dict(*p),
                    i <= p@.len(),
                    out@.len() == i,
                    forall|j: int| 0 <= j < i ==> scalar_text((#[trigger] p@[j]).0.yaml) is Some && js_keys_ok(p@[j].1)
                        && js_alias_free(p@[j].1),
                decreases p@.len() - i,
            {
                proof {
                    assert(decreases_to!(*n => n.yaml));
                    assert(decreases_to!(n.yaml => n.yaml->Dict_0));
                    assert(decreases_to!(*p => p[i as int]));
                    assert(decreases_to!(p[i as int] => p[i as int].1));
                }
                let k = match p[i].0.scalar() {
                    Some(k) => k,
                    None => {
                        assert(n.yaml->Dict_0 == *p);
                        assert(scalar_text(n.yaml->Dict_0@[i as int].0.yaml) is None);
                        return Err(Error::FieldType(String::from_str("option"), String::from_str("string"), p[i].0.pos));
                    },
                };
                let v = match load_js(&p[i].1) {
                    Ok(v) => v,
                    Err(e) => {
                        assert(n.yaml->Dict_0 == *p);
                        assert(!(js_keys_ok(n.yaml->Dict_0@[i as int].1) && js_alias_free(n.yaml->Dict_0@[i as int].1)));
                        return Err(e);
                    },
                };
                out.push((k, v));
                i = i + 1;
            }
            Ok(JsType::Dict(out))
        },
    }
}

/// Whether the options under `option` read: absent, `null`, or a mapping of
/// values with scalar keys and no anchor reference.
pub open spec fn options_ok(n: YamlNode) -> bool {
    match entry(n, "option"@) {
        None => true,
        Some(v) => v.yaml is Null || (v.yaml is Dict && js_keys_ok(v) && js_alias_free(v)),
    }
}

/// Whether the plugins under `plugin` read: absent, `null`, or a mapping from
/// scalars to lists of scalars.
pub open spec fn plugins_ok(n: YamlNode) -> bool {
    match entry(n, "plugin"@) {
        None => true,
        Some(v) => match v.yaml {
            Yaml::Null => true,
            Yaml::Dict(p) => forall|i: int| 0 <= i < p@.len() ==> plugin_entry_ok(#[trigger] p@[i]),
            _ => false,
        },
    }
}

/// Whether one plugin entry reads: a scalar name and a list of scalar paths.
pub open spec fn plugin_entry_ok(e: (YamlNode, YamlNode)) -> bool {
    &&& scalar_text(e.0.yaml) is Some
    &&& e.1.yaml matches Yaml::List(l) && forall|j: int| 0 <= j < l@.len() ==> scalar_text((#[trigger] l@[j]).yaml) is Some
}

/// Reads the options under `option`: a mapping from names to values.
pub fn load_options(n: &YamlNode) -> (r: Result<JsOption, Error>)
    ensures
        entry(*n, "option"@) is None ==> (r matches Ok(o) && o.inner@.len() == 0),
        r is Ok == options_ok(*n),
        r matches Ok(o) ==> (entry(*n, "option"@) is Some && entry(*n, "option"@).unwrap().yaml is Dict
            ==> o.inner@.len() == entry(*n, "option"@).unwrap().yaml->Dict_0@.len()),
{
    let mut inner: Vec<(String, JsType)> = Vec::new();
    match n.get("option") {
        None => Ok(JsOption { inner }),
        Some(v) => match &v.yaml {
            Yaml::Null => Ok(JsOption { inner }),
            Yaml::Dict(_) => match load_js(v)? {
                JsType::Dict(d) => Ok(JsOption { inner: d }),
                _ => Ok(JsOption { inner }),
            },
            _ => Err(Error::FieldType(String::from_str("option"), String::from_str("mapping"), v.pos)),
        },
    }
}

/// Reads the plugins under `plugin`: a mapping from plugin names to lists of script paths.
pub fn load_plugins(n: &YamlNode) -> (r: Result<JsPlugin, Error>)
    ensures
        entry(*n, "plugin"@) is None ==> (r matches Ok(o) && o.inner@.len() == 0),
        r is Ok == plugins_ok(*n),
        r matches Ok(o) ==> (entry(*n, "plugin"@) is Some && entry(*n, "plugin"@).unwrap().yaml is Dict
            ==> o.inner@.len() == entry(*n, "plugin"@).unwrap().yaml->Dict_0@.len()),
{
    let mut inner: Vec<(String, Vec<String>)> = Vec::new();
    match n.get("plugin") {
        None => Ok(JsPlugin { inner }),
        Some(v) => match &v.yaml {
            Yaml::Null => Ok(JsPlugin { inner }),
            Yaml::Dict(p) => {
                let mut i: usize = 0;
                while i < p.len()
                    invariant
                        entry(*n, "plugin"@) == Some(*v),
                        v.yaml == Yaml::Dict(*p),
                        i <= p@.len(),
                        inner@.len() == i,
                        forall|q: int| 0 <= q < i ==> plugin_entry_ok(#[trigger] p@[q]),
                    decreases p@.len() - i,
                {
                    let name = match p[i].0.scalar() {
                        Some(k) => k,
                        None => {
                            assert(!plugin_entry_ok(p@[i as int]));
                            assert(entry(*n, "plugin"@).unwrap().yaml->Dict_0 == *p);
                            assert(!plugin_entry_ok(entry(*n, "plugin"@).unwrap().yaml->Dict_0@[i as int]));
                            return Err(Error::FieldType(String::from_str("plugin"), String::from_str("string"), p[i].0.pos));
                        },
                    };
                    let mut files: Vec<String> = Vec::new();
                    match &p[i].1.yaml {
                        Yaml::List(l) => {
                            let mut j: usize = 0;
                            while j < l.len()
                                invariant
                                    entry(*n, "plugin"@) == Some(*v),
                                    v.yaml == Yaml::Dict(*p),
                                    i < p@.len(),
                                    inner@.len() == i,
                                    p@[i as int].1.yaml == Yaml::List(*l),
                                    scalar_text(p@[i as int].0.yaml) is Some,
                                    forall|q: int| 0 <= q < j ==> scalar_text((#[trigger] l@[q]).yaml) is Some,
                                    forall|q: int| 0 <= q < i ==> plugin_entry_ok(#[trigger] p@[q]),
                                    j <= l@.len(),
                                decreases l@.len() - j,
                            {
                                match l[j].scalar() {
                                    Some(f) => files.push(f),
                                    None => {
                                        assert(scalar_text(l@[j as int].yaml) is None);
                                        assert(!plugin_entry_ok(p@[i as int]));
                                        assert(entry(*n, "plugin"@).unwrap().yaml->Dict_0 == *p);
                                        assert(!plugin_entry_ok(entry(*n, "plugin"@).unwrap().yaml->Dict_0@[i as int]));
                                        return Err(Error::FieldType(String::from_str("plugin"), String::from_str("string"), l[j].pos));
                                    },
                                }
                                j = j + 1;
                            }
                        },
                        _ => {
                            assert(!plugin_entry_ok(p@[i as int]));
                            assert(entry(*n, "plugin"@).unwrap().yaml->Dict_0 == *p);
                            assert(!plugin_entry_ok(entry(*n, "plugin"@).unwrap().yaml->Dict_0@[i as int]));
                            return Err(Error::FieldType(String::from_str("plugin"), String::from_str("list"), p[i].1.pos));
                        },
                    }
                    assert(plugin_entry_ok(p@[i as int]));
                    inner.push((name, files));
                    i = i + 1;
                }
                Ok(JsPlugin { inner })
            },
            _ => Err(Error::FieldType(String::from_str("plugin"), String::from_str("mapping"), v.pos)),
        },
    }
}

/// Whether the outline setting reads: absent, `null`, a boolean or a string.
pub open spec fn outline_ok(n: YamlNode) -> bool {
    match entry(n, "outline"@) {
        None => true,
        Some(v) => v.yaml is Null || v.yaml is Bool || v.yaml is Str,
    }
}

/// Whether the footer reads: absent, or a mapping of texts.
pub open spec fn footer_ok(n: YamlNode) -> bool {
    match entry(n, "footer"@) {
        None => true,
        Some(v) => v.yaml is Dict && text_ok(v, "label"@) && text_ok(v, "link"@) && text_ok(v, "src"@)
            && text_ok(v, "width"@) && text_ok(v, "height"@),
    }
}

/// The footer read from the mapping under `footer`.
pub open spec fn footer_read(v: YamlNode, f: Footer) -> bool {
    &&& text_field(v, "label"@) == Ok::<Seq<char>, (Seq<char>, u64)>(f.label@)
    &&& text_field(v, "link"@) == Ok::<Seq<char>, (Seq<char>, u64)>(f.link@)
    &&& text_field(v, "src"@) == Ok::<Seq<char>, (Seq<char>, u64)>(f.size.src@)
    &&& text_field(v, "width"@) == Ok::<Seq<char>, (Seq<char>, u64)>(f.size.width@)
    &&& text_field(v, "height"@) == Ok::<Seq<char>, (Seq<char>, u64)>(f.size.height@)
}

/// Reads the outline setting: absent or `true` for the default title, `false`
/// for none, a string for a title of its own.
pub fn load_outline(n: &YamlNode) -> (r: Result<Outline, Error>)
    ensures
        entry(*n, "outline"@) is None ==> (r matches Ok(Outline::On)),
        entry(*n, "outline"@) is Some && entry(*n, "outline"@).unwrap().yaml == Yaml::Bool(false) ==> (r matches Ok(Outline::Off)),
        entry(*n, "outline"@) is Some && entry(*n, "outline"@).unwrap().yaml == Yaml::Bool(true) ==> (r matches Ok(Outline::On)),
        entry(*n, "outline"@) is Some && entry(*n, "outline"@).unwrap().yaml is Str
            ==> (r matches Ok(Outline::Titled(t)) && t@ == entry(*n, "outline"@).unwrap().yaml->Str_0@),
        r is Ok == outline_ok(*n),
{
    match n.get("outline") {
        None => Ok(Outline::On),
        Some(v) => match &v.yaml {
            Yaml::Null => Ok(Outline::On),
            Yaml::Bool(b) => Ok(if *b { Outline::On } else { Outline::Off }),
            Yaml::Str(t) => Ok(Outline::Titled(t.clone())),
            _ => Err(Error::FieldType(String::from_str("outline"), String::from_str("string"), v.pos)),
        },
    }
}

/// Reads the footer under `footer`.
pub fn load_footer(n: &YamlNode) -> (r: Result<Footer, Error>)
    ensures
        entry(*n, "footer"@) is None ==> (r matches Ok(f) && f.label@.len() == 0 && f.size.src@.len() == 0),
        r matches Ok(f) ==> (entry(*n, "footer"@) is Some ==> footer_read(entry(*n, "footer"@).unwrap(), f)),
        r is Ok == footer_ok(*n),
{
    match n.get("footer") {
        None => Ok(Footer {
            label: String::new(),
            link: String::new(),
            size: Sized { src: String::new(), width: String::new(), height: String::new() },
        }),
        Some(v) => match &v.yaml {
            Yaml::Dict(_) => {
                let label = v.text("label")?;
                let link = v.text("link")?;
                let src = v.text("src")?;
                let width = v.text("width")?;
                let height = v.text("height")?;
                Ok(Footer { label, link, size: Sized { src, width, height } })
            },
            _ => Err(Error::FieldType(String::from_str("footer"), String::from_str("mapping"), v.pos)),
        },
    }
}

/// The settings of a deck read from the fields of a mapping.
pub open spec fn metadata_fields(n: YamlNode, m: Metadata) -> bool {
    &&& text_or(n, "icon"@, gear_url()) == Ok::<Seq<char>, (Seq<char>, u64)>(m.icon@)
    &&& text_or(n, "lang"@, "en"@) == Ok::<Seq<char>, (Seq<char>, u64)>(m.lang@)
    &&& text_field(n, "title"@) == Ok::<Seq<char>, (Seq<char>, u64)>(m.title@)
    &&& text_field(n, "description"@) == Ok::<Seq<char>, (Seq<char>, u64)>(m.description@)
    &&& text_field(n, "author"@) == Ok::<Seq<char>, (Seq<char>, u64)>(m.author@)
    &&& (entry(n, "background"@) is None ==> m.background is Blank)
    &&& (entry(n, "background"@) is Some ==> global_background_ok(entry(n, "background"@).unwrap(), m.background))
    &&& bool_field(n, "auto-animate"@, false) == Ok::<bool, (Seq<char>, u64)>(m.auto_animate)
    &&& bool_field(n, "chapter-header"@, false) == Ok::<bool, (Seq<char>, u64)>(m.chapter_header)
    &&& (entry(n, "outline"@) is None ==> m.outline is On)
    &&& text_or(n, "theme"@, "serif"@) == Ok::<Seq<char>, (Seq<char>, u64)>(m.theme@)
    &&& text_or(n, "code-theme"@, "zenburn"@) == Ok::<Seq<char>, (Seq<char>, u64)>(m.code_theme@)
    &&& text_field(n, "style"@) == Ok::<Seq<char>, (Seq<char>, u64)>(m.style@)
}

/// Whether the settings of a deck read from a mapping.
pub open spec fn metadata_ok(n: YamlNode) -> bool {
    &&& text_or(n, "icon"@, gear_url()) is Ok
    &&& text_or(n, "lang"@, "en"@) is Ok
    &&& text_ok(n, "title"@)
    &&& text_ok(n, "description"@)
    &&& text_ok(n, "author"@)
    &&& (entry(n, "background"@) is None || background_ok(entry(n, "background"@).unwrap()))
    &&& flag_ok(n, "auto-animate"@)
    &&& flag_ok(n, "chapter-header"@)
    &&& outline_ok(n)
    &&& text_or(n, "theme"@, "serif"@) is Ok
    &&& text_or(n, "code-theme"@, "zenburn"@) is Ok
    &&& text_ok(n, "style"@)
    &&& footer_ok(n)
    &&& options_ok(n)
    &&& plugins_ok(n)
}

/// Reads the settings of a deck from its first document; absent fields take
/// their defaults.
pub fn load_metadata(n: &YamlNode) -> (r: Result<Metadata, Error>)
    ensures
        r matches Ok(m) ==> metadata_fields(*n, m),
        r is Ok == metadata_ok(*n),
{
    let icon = text_default(n, "icon", "https://raw.githubusercontent.com/rust-lang/rust-artwork/master/logo/rust-logo-gear-only.svg")?;
    let lang = text_default(n, "lang", "en")?;
    let title = n.text("title")?;
    let description = n.text("description")?;
    let author = n.text("author")?;
    let background = match n.get("background") {
        None => Background::Blank,
        Some(v) => load_background(v)?,
    };
    let auto_animate = n.flag("auto-animate", false)?;
    let chapter_header = n.flag("chapter-header", false)?;
    let outline = load_outline(n)?;
    let theme = text_default(n, "theme", "serif")?;
    let code_theme = text_default(n, "code-theme", "zenburn")?;
    let style = n.text("style")?;
    let footer = load_footer(n)?;
    let option = load_options(n)?;
    let plugin = load_plugins(n)?;
    Ok(Metadata {
        icon,
        lang,
        title,
        description,
        author,
        background,
        auto_animate,
        chapter_header,
        outline,
        theme,
        code_theme,
        style,
        footer,
        option,
        plugin,
    })
}

/// The number of chapters of a deck: the items of its second document where
/// that is a sequence, else one for each document after the first.
pub open spec fn chapter_count(docs: Seq<YamlNode>) -> nat {
    match docs[1].yaml {
        Yaml::List(l) => l@.len(),
        _ => (docs.len() - 1) as nat,
    }
}

/// The node of chapter `i`: item `i` of the second document where that is a
/// sequence, else document `i + 1`.
pub open spec fn chapter_node(docs: Seq<YamlNode>, i: int) -> YamlNode {
    match docs[1].yaml {
        Yaml::List(l) => l@[i],
        _ => docs[i + 1],
    }
}

/// Whether a deck reads: two documents or more, settings that read, and
/// chapters that read.
pub open spec fn deck_ok(docs: Seq<YamlNode>) -> bool {
    &&& docs.len() >= 2
    &&& metadata_ok(docs[0])
    &&& forall|i: int| 0 <= i < chapter_count(docs) ==> chapter_readable(#[trigger] chapter_node(docs, i))
}

/// Reads a deck from its YAML documents: the settings, then the chapters.
pub fn load(docs: &Vec<YamlNode>) -> (r: Result<(Metadata, Slides), Error>)
    ensures
        docs@.len() < 2 ==> (r matches Err(Error::Structure)),
        r is Ok == deck_ok(docs@),
        r matches Ok((m, s)) ==> metadata_fields(docs@[0], m) && s.slides@.len() == chapter_count(docs@)
            && forall|i: int| 0 <= i < s.slides@.len() ==> chapter_fields(chapter_node(docs@, i), #[trigger] s.slides@[i]),
{
    if docs.len() < 2 {
        return Err(Error::Structure);
    }
    let meta = match load_metadata(&docs[0]) {
        Ok(m) => m,
        Err(e) => {
            return Err(e);
        },
    };
    let mut slides: Vec<ChapterSlide> = Vec::new();
    match &docs[1].yaml {
        Yaml::List(l) => {
            let mut i: usize = 0;
            while i < l.len()
                invariant
                    docs@.len() >= 2,
                    docs@[1].yaml == Yaml::List(*l),
                    i <= l@.len(),
                    slides@.len() == i,
                    forall|j: int| 0 <= j < i ==> chapter_fields(chapter_node(docs@, j), #[trigger] slides@[j]),
                    forall|j: int| 0 <= j < i ==> chapter_readable(#[trigger] chapter_node(docs@, j)),
                    metadata_ok(docs@[0]),
                decreases l@.len() - i,
            {
                let ghost prev = slides@;
                match load_chapter(&l[i]) {
                    Ok(c) => slides.push(c),
                    Err(e) => {
                        assert(!chapter_readable(chapter_node(docs@, i as int)));
                        return Err(e);
                    },
                }
                proof {
                    assert forall|j: int| 0 <= j < i + 1 implies chapter_fields(chapter_node(docs@, j), #[trigger] slides@[j]) by {
                        if j < i {
                            assert(slides@[j] == prev[j]);
                        }
                    }
                }
                i = i + 1;
            }
        },
        _ => {
            let mut i: usize = 1;
            while i < docs.len()
                invariant
                    1 <= i <= docs@.len(),
                    !(docs@[1].yaml is List),
                    slides@.len() == i - 1,
                    forall|j: int| 0 <= j < i - 1 ==> chapter_fields(chapter_node(docs@, j), #[trigger] slides@[j]),
                    forall|j: int| 0 <= j < i - 1 ==> chapter_readable(#[trigger] chapter_node(docs@, j)),
                    metadata_ok(docs@[0]),
                decreases docs@.len() - i,
            {
                let ghost prev = slides@;
                match load_chapter(&docs[i]) {
                    Ok(c) => slides.push(c),
                    Err(e) => {
                        assert(!chapter_readable(chapter_node(docs@, i - 1)));
                        return Err(e);
                    },
                }
                proof {
                    assert forall|j: int| 0 <= j < i implies chapter_fields(chapter_node(docs@, j), #[trigger] slides@[j]) by {
                        if j < i - 1 {
                            assert(slides@[j] == prev[j]);
                        }
                    }
                }
                i = i + 1;
            }
        },
    }
    Ok((meta, Slides { slides }))
}

} // verus!
