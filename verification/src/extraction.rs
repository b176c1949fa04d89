//! Where translatable text comes from and how extraction fails.

use crate::geometry::ScreenRect;
use crate::text::copy_of;
use vstd::prelude::*;

verus! {

/// What asked for a translation.
#[derive(Clone, Copy, Debug, PartialEq, Eq, Structural)]
pub enum TriggerKind {
    Selection,
    Manual,
    Hover,
}

/// Where a text was found.
#[derive(Clone, Copy, Debug, PartialEq, Eq, Structural)]
pub enum ExtractionSource {
    UiaSelection,
    UiaPoint,
    Clipboard,
    Ocr,
}

/// Why an extractor produced no text.
#[derive(Clone, Copy, Debug, PartialEq, Eq, Structural)]
pub enum ExtractionFailure {
    UnsupportedPattern,
    EmptyRange,
    PermissionDenied,
    StaleElement,
    Platform,
}

/// A text to translate with the text around it.
#[derive(Debug, PartialEq, Eq)]
pub struct TextContext {
    pub target: String,
    pub context: Option<String>,
    pub source: ExtractionSource,
    pub screen_rect: Option<ScreenRect>,
}

impl TextContext {
    /// A target on its own.
    pub fn new(target: &str, source: ExtractionSource) -> (text: TextContext)
        ensures
            text.target@ == target@,
            text.context is None,
            text.source == source,
            text.screen_rect is None,
    {
        TextContext { target: copy_of(target), context: None, source, screen_rect: None }
    }

    pub fn duplicate(&self) -> (text: TextContext)
        ensures
            text == *self,
    {
        TextContext {
            target: self.target.clone(),
            context: copy_optional(&self.context),
            source: self.source,
            screen_rect: self.screen_rect,
        }
    }
}

pub fn copy_optional(text: &Option<String>) -> (copy: Option<String>)
    ensures
        copy == *text,
{
    match text {
        Some(value) => Some(value.clone()),
        None => None,
    }
}

/// What an extractor returns.
pub type ExtractionResult = Result<TextContext, ExtractionFailure>;

} // verus!
