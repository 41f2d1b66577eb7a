//! Generation: specification tree in, test source text out.

use vstd::prelude::*;

use crate::config::Config;
use crate::emitter::{emit_root_spec, Emitter};
use crate::hir::{root_matches, Hir, Root};
use crate::translator::{StructureError, Translator};
use crate::tree::SpecNode;

verus! {

/// Generate test source text from a specification tree.
///
/// Fails exactly when the tree is not a root.  On success the text is
/// the fixed template over a representation that realizes exactly what
/// the tree calls for.
pub fn scaffold(tree: &SpecNode, cfg: &Config) -> (r: Result<String, StructureError>)
    ensures
        r is Ok <==> (*tree) is Root,
        r matches Err(e) ==> e == StructureError::NotRoot,
        r matches Ok(s) ==> exists|root: Root|
            #[trigger] root_matches(root, *tree, cfg.skip_helpers, cfg.format_descriptions)
                && s@ == emit_root_spec(root),
{
    let translator = Translator::new(cfg.format_descriptions, cfg.skip_helpers);
    match translator.translate(tree) {
        Ok(hir) => {
            let emitter = Emitter::new(cfg.format_descriptions);
            let code = emitter.emit(&hir);
            proof {
                let root = hir->Root_0;
                assert(root_matches(root, *tree, cfg.skip_helpers, cfg.format_descriptions)
                    && code@ == emit_root_spec(root));
            }
            Ok(code)
        },
        Err(e) => Err(e),
    }
}

/// Generate test source text from a specification tree; the same
/// operation under the name the generation entry point uses.
pub fn generate(tree: &SpecNode, cfg: &Config) -> (r: Result<String, StructureError>)
    ensures
        r is Ok <==> (*tree) is Root,
        r matches Err(e) ==> e == StructureError::NotRoot,
        r matches Ok(s) ==> exists|root: Root|
            #[trigger] root_matches(root, *tree, cfg.skip_helpers, cfg.format_descriptions)
                && s@ == emit_root_spec(root),
{
    scaffold(tree, cfg)
}

} // verus!
