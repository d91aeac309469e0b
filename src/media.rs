use crate::text::{wrap, wrap_spec};
use vstd::prelude::*;

verus! {

/// Texts, each followed by a line break, one after another.
pub open spec fn join_lines(s: Seq<Seq<char>>) -> Seq<char>
    decreases s.len(),
{
    if s.len() == 0 {
        Seq::empty()
    } else {
        join_lines(s.drop_last()) + s.last() + "\n"@
    }
}

/// The source, width and height of an embedded item.
pub struct Sized {
    /// Source link.
    pub src: String,
    /// Item width.
    pub width: String,
    /// Item height.
    pub height: String,
}

/// An embedded image.
pub struct Img {
    /// Caption; an image with one is put in a figure.
    pub label: String,
    /// Whether a click pops the image up.
    pub pop: bool,
    /// Source and size.
    pub size: Sized,
}

/// An embedded video.
pub struct Video {
    /// Whether the player shows its controls.
    pub controls: bool,
    /// Whether the video plays by itself.
    pub autoplay: bool,
    /// Media type of the source, such as `video/mp4`.
    pub video_type: String,
    /// Source and size.
    pub size: Sized,
}

/// An embedded `<iframe>`.
pub struct IFrame {
    /// Source and size.
    pub size: Sized,
}

/// An image of a layered stack, which appears as a fragment of its own.
pub struct LayImg {
    /// Animation class; empty for the default one.
    pub frag: String,
    /// Source and size.
    pub size: Sized,
}

impl Sized {
    /// The `src` attribute, where there is a source.
    pub open spec fn src_spec(&self) -> Seq<char> {
        wrap_spec(self.src@, " src=\""@, "\""@)
    }

    /// The `width` and `height` attributes, where they are set.
    pub open spec fn dims_spec(&self) -> Seq<char> {
        wrap_spec(self.width@, " width=\""@, "\""@) + wrap_spec(self.height@, " height=\""@, "\""@)
    }

    /// All attributes of the item.
    pub open spec fn attrs_spec(&self) -> Seq<char> {
        self.src_spec() + self.dims_spec()
    }

    /// The `src` attribute and the `width` / `height` attributes, each only
    /// where the value is not empty.
    pub fn size(&self) -> (r: (String, String))
        ensures
            r.0@ == self.src_spec(),
            r.1@ == self.dims_spec(),
    {
        let src = wrap(self.src.as_str(), " src=\"", "\"");
        let mut size = wrap(self.width.as_str(), " width=\"", "\"");
        let h = wrap(self.height.as_str(), " height=\"", "\"");
        size.append(h.as_str());
        (src, size)
    }

    /// All attributes of the item.
    pub fn attrs(&self) -> (r: String)
        ensures
            r@ == self.attrs_spec(),
    {
        let (mut src, size) = self.size();
        src.append(size.as_str());
        src
    }
}

/// The attributes that make an image pop up on a click.
pub open spec fn pop_attrs() -> Seq<char> {
    " class=\"img-pop\" onclick=\"show_modal(this)\" title=\"click to pop-up the image\""@
}

impl Img {
    /// The image, in a figure with its caption where it has one.
    pub open spec fn html_spec(&self) -> Seq<char> {
        let img = "<img alt=\""@ + self.label@ + "\""@ + (if self.pop { pop_attrs() } else { Seq::empty() })
            + self.size.attrs_spec() + "/>"@;
        if self.label@.len() == 0 {
            img
        } else {
            "<figure>"@ + img + "<figcaption>"@ + self.label@ + "</figcaption></figure>"@
        }
    }

    /// The image, in a figure with its caption where it has one.
    pub fn to_html(&self) -> (r: String)
        ensures
            r@ == self.html_spec(),
    {
        let mut img = String::from_str("<img alt=\"");
        img.append(self.label.as_str());
        img.append("\"");
        if self.pop {
            img.append(" class=\"img-pop\" onclick=\"show_modal(this)\" title=\"click to pop-up the image\"");
        }
        let a = self.size.attrs();
        img.append(a.as_str());
        img.append("/>");
        if self.label.as_str().is_empty() {
            img
        } else {
            let mut r = String::from_str("<figure>");
            r.append(img.as_str());
            r.append("<figcaption>");
            r.append(self.label.as_str());
            r.append("</figcaption></figure>");
            r
        }
    }
}

impl Video {
    /// The video player and its source.
    pub open spec fn html_spec(&self) -> Seq<char> {
        "<video"@ + self.size.dims_spec() + (if self.controls { " controls"@ } else { Seq::empty() })
            + (if self.autoplay { " autoplay"@ } else { Seq::empty() }) + "><source"@ + self.size.src_spec()
            + " type=\""@ + self.video_type@ + "\"></video>"@
    }

    /// The video player and its source.
    pub fn to_html(&self) -> (r: String)
        ensures
            r@ == self.html_spec(),
    {
        let (src, size) = self.size.size();
        let mut r = String::from_str("<video");
        r.append(size.as_str());
        if self.controls {
            r.append(" controls");
        }
        if self.autoplay {
            r.append(" autoplay");
        }
        r.append("><source");
        r.append(src.as_str());
        r.append(" type=\"");
        r.append(self.video_type.as_str());
        r.append("\"></video>");
        r
    }
}

impl IFrame {
    /// The `<iframe>` element.
    pub open spec fn html_spec(&self) -> Seq<char> {
        "<iframe"@ + self.size.attrs_spec() + "></iframe>"@
    }

    /// The `<iframe>` element.
    pub fn to_html(&self) -> (r: String)
        ensures
            r@ == self.html_spec(),
    {
        let mut r = String::from_str("<iframe");
        let a = self.size.attrs();
        r.append(a.as_str());
        r.append("></iframe>");
        r
    }
}

impl LayImg {
    /// The image as a fragment of the stack.
    pub open spec fn html_spec(&self) -> Seq<char> {
        "<img class=\"fragment "@ + self.frag@ + "\""@ + self.size.attrs_spec() + "/>"@
    }

    /// The image as a fragment of the stack.
    pub fn to_html(&self) -> (r: String)
        ensures
            r@ == self.html_spec(),
    {
        let mut r = String::from_str("<img class=\"fragment ");
        r.append(self.frag.as_str());
        r.append("\"");
        let a = self.size.attrs();
        r.append(a.as_str());
        r.append("/>");
        r
    }
}

/// Layered images, one per line.
pub open spec fn lay_imgs_html(v: Seq<LayImg>) -> Seq<char> {
    join_lines(v.map_values(|x: LayImg| x.html_spec()))
}

/// The HTML of each image.
pub fn img_htmls(v: &Vec<Img>) -> (r: Vec<String>)
    ensures
        r@.map_values(|s: String| s@) == v@.map_values(|x: Img| x.html_spec()),
{
    let mut r: Vec<String> = Vec::new();
    let mut i: usize = 0;
    while i < v.len()
        invariant
            i <= v@.len(),
            r@.len() == i,
            forall|j: int| 0 <= j < i ==> (#[trigger] r@[j])@ == v@[j].html_spec(),
        decreases v@.len() - i,
    {
        r.push(v[i].to_html());
        i = i + 1;
    }
    assert(r@.map_values(|s: String| s@) =~= v@.map_values(|x: Img| x.html_spec()));
    r
}

/// The HTML of each video.
pub fn video_htmls(v: &Vec<Video>) -> (r: Vec<String>)
    ensures
        r@.map_values(|s: String| s@) == v@.map_values(|x: Video| x.html_spec()),
{
    let mut r: Vec<String> = Vec::new();
    let mut i: usize = 0;
    while i < v.len()
        invariant
            i <= v@.len(),
            r@.len() == i,
            forall|j: int| 0 <= j < i ==> (#[trigger] r@[j])@ == v@[j].html_spec(),
        decreases v@.len() - i,
    {
        r.push(v[i].to_html());
        i = i + 1;
    }
    assert(r@.map_values(|s: String| s@) =~= v@.map_values(|x: Video| x.html_spec()));
    r
}

/// The HTML of each frame.
pub fn iframe_htmls(v: &Vec<IFrame>) -> (r: Vec<String>)
    ensures
        r@.map_values(|s: String| s@) == v@.map_values(|x: IFrame| x.html_spec()),
{
    let mut r: Vec<String> = Vec::new();
    let mut i: usize = 0;
    while i < v.len()
        invariant
            i <= v@.len(),
            r@.len() == i,
            forall|j: int| 0 <= j < i ==> (#[trigger] r@[j])@ == v@[j].html_spec(),
        decreases v@.len() - i,
    {
        r.push(v[i].to_html());
        i = i + 1;
    }
    assert(r@.map_values(|s: String| s@) =~= v@.map_values(|x: IFrame| x.html_spec()));
    r
}

/// The layered images, one per line.
pub fn lay_imgs_to_html(v: &Vec<LayImg>) -> (r: String)
    ensures
        r@ == lay_imgs_html(v@),
{
    let mut r = String::new();
    let mut i: usize = 0;
    while i < v.len()
        invariant
            i <= v@.len(),
            r@ == lay_imgs_html(v@.subrange(0, i as int)),
        decreases v@.len() - i,
    {
        let h = v[i].to_html();
        r.append(h.as_str());
        r.append("\n");
        proof {
            let s = v@.subrange(0, i + 1).map_values(|x: LayImg| x.html_spec());
            assert(s.drop_last() =~= v@.subrange(0, i as int).map_values(|x: LayImg| x.html_spec()));
        }
        i = i + 1;
    }
    assert(v@.subrange(0, v@.len() as int) =~= v@);
    r
}

} // verus!
