//! Character module — displays the prompt character.
use vstd::prelude::*;

use super::{Module, ModuleOutput, ModuleSpeed, RenderContext};

verus! {

/// The prompt glyph `❯`.
pub open spec fn prompt_char() -> Seq<char> {
    seq!['\u{276f}']
}

/// Displays the prompt character `❯`.
#[derive(Debug, Default)]
pub struct CharacterModule;

impl CharacterModule {
    /// Creates a new `CharacterModule`.
    pub fn new() -> Self {
        CharacterModule
    }
}

impl crate::sealed::Sealed for CharacterModule {}

impl Module for CharacterModule {
    fn name(&self) -> (r: &'static str)
        ensures
            r@ == "character"@,
    {
        "character"
    }

    fn speed(&self) -> (r: ModuleSpeed)
        ensures
            r == ModuleSpeed::Fast,
    {
        ModuleSpeed::Fast
    }

    /// Always the glyph, whatever the last exit code.
    fn render(&self, ctx: &RenderContext<'_>) -> (r: Option<ModuleOutput>)
        ensures
            r matches Some(o) && o.content@ == prompt_char(),
    {
        let mut content = String::new();
        crate::text::push_char(&mut content, '\u{276f}');
        Some(ModuleOutput { content })
    }
}

} // verus!
