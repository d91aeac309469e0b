//! A compiler from a two-part YAML slide deck (settings, then slides) to a
//! single Reveal.js HTML page.
//!
//! The YAML documents arrive as a tree of [`YamlNode`]s; [`load`] reads the
//! settings ([`Metadata`]) and the chapters ([`Slides`]) from them, and
//! [`compile`] renders the page. Every part of the page is stated by a spec
//! function, and each executable function is proved to produce exactly that
//! text. The laws of the renderer stand as public proof functions.
mod background;
mod content;
mod ctx;
mod deck;
mod frag_map;
mod laws;
mod loader;
mod markdown;
mod media;
mod metadata;
mod options;
mod slides;
mod text;
mod yaml;

pub use crate::background::{Background, ImgBackground, LocalBackground};
pub use crate::content::{Content, Layout};
pub use crate::ctx::Ctx;
pub use crate::deck::{compile, error_page, lemma_compile_idempotent, single_page, Error};
pub use crate::frag_map::FragMap;
pub use crate::laws::{
    lemma_disabled_background, lemma_fragment_count, lemma_fragment_spans, lemma_outline_presence, lemma_row_widths,
    lemma_slide_fragments, lemma_title_fallback,
};
pub use crate::loader::{
    load, load_background, load_chapter, load_content, load_js, load_local_background, load_metadata, load_slide,
};
pub use crate::markdown::{code_block_head, md2html};
pub use crate::media::{IFrame, Img, LayImg, Sized, Video};
pub use crate::metadata::{Footer, Metadata, Outline};
pub use crate::options::{JsOption, JsPlugin, JsType};
pub use crate::slides::{ChapterSlide, Slide, Slides};
pub use crate::text::{dec, escape, lower_camelcase, wrap};
pub use crate::yaml::{YamlNode, Yaml};
