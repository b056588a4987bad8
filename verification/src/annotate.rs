//! Annotation tools.

use vstd::prelude::*;

verus! {

/// A drawing tool of the annotation editor.
#[derive(Debug, Clone, Copy, PartialEq, Eq, Hash, Structural)]
pub enum AnnotateTool {
    Rect,
    RoundedRect,
    Line,
    Arrow,
    Pen,
    Ellipse,
    Number,
    Mosaic,
    Blur,
    Text,
    ColorPicker,
}

impl AnnotateTool {
    pub fn same_as(&self, other: &AnnotateTool) -> (b: bool)
        ensures
            b == (*self == *other),
    {
        match (self, other) {
            (AnnotateTool::Rect, AnnotateTool::Rect) => true,
            (AnnotateTool::RoundedRect, AnnotateTool::RoundedRect) => true,
            (AnnotateTool::Line, AnnotateTool::Line) => true,
            (AnnotateTool::Arrow, AnnotateTool::Arrow) => true,
            (AnnotateTool::Pen, AnnotateTool::Pen) => true,
            (AnnotateTool::Ellipse, AnnotateTool::Ellipse) => true,
            (AnnotateTool::Number, AnnotateTool::Number) => true,
            (AnnotateTool::Mosaic, AnnotateTool::Mosaic) => true,
            (AnnotateTool::Blur, AnnotateTool::Blur) => true,
            (AnnotateTool::Text, AnnotateTool::Text) => true,
            (AnnotateTool::ColorPicker, AnnotateTool::ColorPicker) => true,
            _ => false,
        }
    }
}

} // verus!
