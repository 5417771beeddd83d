//! Structured prompt segment for Starship-compatible composition.
//!
//! A `Segment` wraps a module's content with optional connector word,
//! icon, and style. The composition layer builds segments from module
//! outputs and renders them left-to-right.
use vstd::prelude::*;

use super::style::{ColorMap, Style, paint_spec, paintable};
use crate::text::{push_str_chars, string_from_chars};

verus! {

/// A connector word displayed before a segment (e.g., "on", "via", "at").
#[derive(Debug, Clone, PartialEq, Eq)]
pub struct Connector {
    /// The connector text.
    pub word: String,
    /// Style applied to the connector word.
    pub style: Style,
}

/// An icon glyph displayed before the segment content.
#[derive(Debug, Clone, PartialEq, Eq)]
pub struct Icon {
    /// The icon glyph (Nerd Font).
    pub glyph: String,
    /// Style applied to the icon.
    pub style: Style,
}

/// A composed prompt segment with optional connector, icon, and style.
///
/// Rendering produces: `{connector} {icon} {content}` where each part
/// is independently styled and absent parts are omitted.
#[derive(Debug, Clone, PartialEq, Eq)]
pub struct Segment {
    /// The text content of this segment.
    pub content: String,
    /// Optional connector word before this segment.
    pub connector: Option<Connector>,
    /// Optional icon before the content.
    pub icon: Option<Icon>,
    /// Style applied to `content`. `None` means the content is already styled.
    pub content_style: Option<Style>,
}

impl Segment {
    /// Every style of this segment can be painted under `color_map`.
    pub open spec fn paintable_with(&self, color_map: ColorMap) -> bool {
        &&& (self.connector matches Some(c) ==> paintable(c.style, color_map))
        &&& (self.icon matches Some(i) ==> paintable(i.style, color_map))
        &&& (self.content_style matches Some(s) ==> paintable(s, color_map))
    }

    /// The rendered text: painted connector and a space, painted icon and a
    /// space, then the content (painted when it has a style).
    pub open spec fn render_spec(&self, color_map: ColorMap) -> Seq<char> {
        (match self.connector {
            Some(c) => paint_spec(c.style, c.word@, color_map) + seq![' '],
            None => Seq::empty(),
        }) + (match self.icon {
            Some(i) => paint_spec(i.style, i.glyph@, color_map) + seq![' '],
            None => Seq::empty(),
        }) + (match self.content_style {
            Some(s) => paint_spec(s, self.content@, color_map),
            None => self.content@,
        })
    }

    /// Render this segment into a styled string.
    ///
    /// Parts are separated by single spaces and absent parts are omitted.
    pub fn render(&self, color_map: ColorMap) -> (r: String)
        requires
            self.paintable_with(color_map),
        ensures
            r@ == self.render_spec(color_map),
    {
        let mut out: Vec<char> = Vec::new();
        if let Some(conn) = &self.connector {
            let painted = conn.style.paint_with(conn.word.as_str(), color_map);
            push_str_chars(&mut out, painted.as_str());
            out.push(' ');
        }
        let ghost after_conn = out@;
        if let Some(icon) = &self.icon {
            let painted = icon.style.paint_with(icon.glyph.as_str(), color_map);
            push_str_chars(&mut out, painted.as_str());
            out.push(' ');
        }
        let ghost after_icon = out@;
        if let Some(style) = &self.content_style {
            let painted = style.paint_with(self.content.as_str(), color_map);
            push_str_chars(&mut out, painted.as_str());
        } else {
            push_str_chars(&mut out, self.content.as_str());
        }
        proof {
            assert(out@ =~= self.render_spec(color_map));
        }
        string_from_chars(&out)
    }
}

} // verus!
