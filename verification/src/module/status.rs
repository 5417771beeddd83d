//! Status module — displays the exit code of the last command when it failed.
use vstd::prelude::*;

use super::{Module, ModuleOutput, ModuleSpeed, RenderContext};
use crate::text::{push_signed_decimal, signed_decimal, string_from_chars};

verus! {

/// Displays the last command's exit code when it is non-zero.
#[derive(Debug, Default)]
pub struct StatusModule;

impl StatusModule {
    /// Creates a new `StatusModule`.
    pub fn new() -> Self {
        StatusModule
    }
}

impl crate::sealed::Sealed for StatusModule {}

impl Module for StatusModule {
    fn name(&self) -> (r: &'static str)
        ensures
            r@ == "status"@,
    {
        "status"
    }

    fn speed(&self) -> (r: ModuleSpeed)
        ensures
            r == ModuleSpeed::Fast,
    {
        ModuleSpeed::Fast
    }

    /// Nothing on success; otherwise the exit code in decimal.
    fn render(&self, ctx: &RenderContext<'_>) -> (r: Option<ModuleOutput>)
        ensures
            ctx.last_exit_code == 0 ==> r is None,
            ctx.last_exit_code != 0 ==> (r matches Some(o) && o.content@ == signed_decimal(
                ctx.last_exit_code as int,
            )),
    {
        if ctx.last_exit_code == 0 {
            return None;
        }
        let mut out: Vec<char> = Vec::new();
        push_signed_decimal(&mut out, ctx.last_exit_code as i64);
        assert(out@ =~= signed_decimal(ctx.last_exit_code as int));
        Some(ModuleOutput { content: string_from_chars(&out) })
    }
}

} // verus!
