use crate::text::{wrap, wrap_spec};
use vstd::prelude::*;

verus! {

/// A background: none, a color, or an image.
pub enum Background {
    /// No background.
    Blank,
    /// A color background, as a CSS color.
    Color(String),
    /// An image background.
    Img(ImgBackground),
}

/// An image background and its optional display settings.
pub struct ImgBackground {
    /// Image source; the background is void without it.
    pub src: String,
    /// Background size.
    pub size: String,
    /// Background position.
    pub position: String,
    /// Background repeat (`repeat` / `no-repeat`).
    pub repeat: String,
    /// Background opacity, from zero to one.
    pub opacity: String,
}

/// The background of one slide: the global one, none, or its own.
pub enum LocalBackground {
    /// Use the global background.
    Inherit,
    /// No background at all, whatever the global one is.
    Disabled,
    /// This background instead of the global one.
    Override(Background),
}

/// One `data-background*` attribute, or nothing when the value is empty.
pub open spec fn bg_attr(name: Seq<char>, value: Seq<char>) -> Seq<char> {
    wrap_spec(value, " data-background"@ + name + "=\""@, "\""@)
}

impl ImgBackground {
    /// The `data-background*` attributes of the non-empty settings.
    pub open spec fn attr_spec(&self) -> Seq<char> {
        bg_attr(""@, self.src@) + bg_attr("-size"@, self.size@) + bg_attr("-position"@, self.position@)
            + bg_attr("-repeat"@, self.repeat@) + bg_attr("-opacity"@, self.opacity@)
    }

    /// The attributes of this image background: none without a source.
    pub open spec fn html_spec(&self) -> Seq<char> {
        if self.src@.len() == 0 {
            Seq::empty()
        } else {
            self.attr_spec()
        }
    }

    /// An image background takes effect only with a source.
    pub fn is_valid(&self) -> (r: bool)
        ensures
            r == (self.src@.len() > 0),
    {
        !self.src.as_str().is_empty()
    }

    /// The attributes of each non-empty setting.
    pub fn attr(&self) -> (r: String)
        ensures
            r@ == self.attr_spec(),
    {
        let mut doc = wrap(self.src.as_str(), " data-background=\"", "\"");
        let a = wrap(self.size.as_str(), " data-background-size=\"", "\"");
        doc.append(a.as_str());
        let a = wrap(self.position.as_str(), " data-background-position=\"", "\"");
        doc.append(a.as_str());
        let a = wrap(self.repeat.as_str(), " data-background-repeat=\"", "\"");
        doc.append(a.as_str());
        let a = wrap(self.opacity.as_str(), " data-background-opacity=\"", "\"");
        doc.append(a.as_str());
        proof {
            reveal_strlit(" data-background");
            reveal_strlit(" data-background=\"");
            reveal_strlit(" data-background-size=\"");
            reveal_strlit(" data-background-position=\"");
            reveal_strlit(" data-background-repeat=\"");
            reveal_strlit(" data-background-opacity=\"");
            reveal_strlit("");
            reveal_strlit("-size");
            reveal_strlit("-position");
            reveal_strlit("-repeat");
            reveal_strlit("-opacity");
            reveal_strlit("=\"");
            assert(" data-background"@ + ""@ + "=\""@ =~= " data-background=\""@);
            assert(" data-background"@ + "-size"@ + "=\""@ =~= " data-background-size=\""@);
            assert(" data-background"@ + "-position"@ + "=\""@ =~= " data-background-position=\""@);
            assert(" data-background"@ + "-repeat"@ + "=\""@ =~= " data-background-repeat=\""@);
            assert(" data-background"@ + "-opacity"@ + "=\""@ =~= " data-background-opacity=\""@);
        }
        doc
    }

    /// The attributes of this background: none without a source.
    pub fn to_html(&self) -> (r: String)
        ensures
            r@ == self.html_spec(),
    {
        if self.is_valid() {
            self.attr()
        } else {
            String::new()
        }
    }
}

impl Background {
    /// The `data-background*` attributes of this background.
    pub open spec fn html_spec(&self) -> Seq<char> {
        match self {
            Background::Blank => Seq::empty(),
            Background::Color(c) => wrap_spec(c@, " data-background-color=\""@, "\""@),
            Background::Img(img) => img.html_spec(),
        }
    }

    /// The `data-background*` attributes of this background.
    pub fn to_html(&self) -> (r: String)
        ensures
            r@ == self.html_spec(),
    {
        match self {
            Background::Blank => String::new(),
            Background::Color(c) => wrap(c.as_str(), " data-background-color=\"", "\""),
            Background::Img(img) => img.to_html(),
        }
    }
}

impl LocalBackground {
    /// The background attributes of a slide, given those of the global background.
    pub open spec fn resolve_spec(&self, global: Seq<char>) -> Seq<char> {
        match self {
            LocalBackground::Inherit => global,
            LocalBackground::Disabled => Seq::empty(),
            LocalBackground::Override(bg) => bg.html_spec(),
        }
    }

    /// The background attributes of a slide, given those of the global background.
    pub fn resolve(&self, global: &str) -> (r: String)
        ensures
            r@ == self.resolve_spec(global@),
    {
        match self {
            LocalBackground::Inherit => String::from_str(global),
            LocalBackground::Disabled => String::new(),
            LocalBackground::Override(bg) => bg.to_html(),
        }
    }
}

} // verus!
