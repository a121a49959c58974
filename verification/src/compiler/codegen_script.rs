//! The script part of a single-file component.
use vstd::prelude::*;

use crate::compiler::codegen::{CodegenContext, CONST_SFC, CONST_SFC_EMPTY, EXPORT_DEFAULT};
use crate::compiler::gen_spec::{const_sfc, const_sfc_empty, export_default};
use crate::text::{push_str, spec_contains, spec_replace, str_contains, str_replace};

verus! {

/// A `<script>` block of a single-file component: its text content.
pub struct SfcScriptBlock {
    pub content: String,
}

/// The script written into the module: with only a legacy script whose content has
/// `export default `, that content with it replaced by `const __sfc__ = `; otherwise
/// an empty component object.
pub open spec fn scripts_text(legacy: Option<Seq<char>>, setup: Option<Seq<char>>) -> Seq<char> {
    match (legacy, setup) {
        (Some(c), None) if spec_contains(c, export_default()) => spec_replace(c, export_default(), const_sfc()),
        _ => const_sfc_empty(),
    }
}

impl<'a> CodegenContext<'a> {
    // Naive approach to use script: just replace `export default ` with `const __sfc__ = `
    /// Writes the script of a component followed by a line break (see [`scripts_text`]).
    /// Only the legacy script scenario is supported.
    pub fn compile_scripts(&mut self, buf: &mut String, legacy_script: Option<SfcScriptBlock>, setup_script: Option<SfcScriptBlock>)
        ensures
            final(buf)@ == old(buf)@ + scripts_text(
                match legacy_script {
                    Some(s) => Some(s.content@),
                    None => None,
                },
                match setup_script {
                    Some(s) => Some(s.content@),
                    None => None,
                },
            ) + old(self).code_helper.newline_text(),
            *final(self) == *old(self),
    {
        proof {
            reveal_strlit("export default ");
        }
        // Only legacy script scenario is currently implemented
        if let (Some(script_content), None) = (&legacy_script, &setup_script) {
            // Naive approach: replace
            let has_default_export = str_contains(script_content.content.as_str(), EXPORT_DEFAULT);
            if has_default_export {
                let replaced = str_replace(script_content.content.as_str(), EXPORT_DEFAULT, CONST_SFC);
                push_str(buf, replaced.as_str());
                self.code_helper.newline(buf);
                return;
            }
        }
        push_str(buf, CONST_SFC_EMPTY);
        self.code_helper.newline(buf)
    }
}

} // verus!
