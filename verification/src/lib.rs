//! A source-to-source compilation pass for React Server Components builds.
//!
//! The pass walks a JavaScript/TypeScript module, recognizes the
//! `"use server"` and `"use cache"` directives, hoists the functions they
//! mark into top-level exported definitions with stable content-derived
//! identifiers, replaces the originals with runtime proxy references, and
//! catalogues every emitted action in a leading magic comment.

pub mod actionid;
pub mod ast;
pub mod builders;
pub mod catalogue;
pub mod closure;
pub mod diag;
pub mod directive;
pub mod qualname;
pub mod naming;
pub mod similar;
pub mod strutil;
pub mod transform;

use vstd::prelude::*;
use crate::actionid::action_id_chars;
use crate::ast::Module;
use crate::catalogue::actions_comment_chars;
use crate::catalogue::keys_sorted;
use crate::catalogue::pairs_v;
use crate::diag::Diag;
use crate::transform::ServerActions;

verus! {

/// Compilation settings for one run of the pass.
pub struct Config {
    /// True when compiling for the server layer, false for the client layer.
    pub is_react_server_layer: bool,
    /// Whether the server-actions feature is enabled.
    pub enabled: bool,
    /// Salt mixed into every action id digest.
    pub hash_salt: String,
}

/// What one run of the pass produces: the rewritten module, the text of
/// the leading magic comment when any action was emitted, the id-sorted
/// catalogue behind it, and the diagnostics, in emission order.
pub struct TransformOutput {
    pub module: Module,
    pub comment: Option<String>,
    pub actions: Vec<(String, String)>,
    pub diags: Vec<Diag>,
}

/// Runs the Server Actions pass over a parsed module. The comment is
/// present exactly when the module emits actions; its text catalogues
/// the id-sorted action map, in which every key is the stable id of its
/// export name under this salt and filename.
pub fn server_actions(file_name: &str, config: Config, module: Module) -> (out: TransformOutput)
    ensures
        out.comment matches Some(c) ==> c@ == actions_comment_chars(pairs_v(out.actions@)),
        out.comment is Some ==> keys_sorted(pairs_v(out.actions@)),
        out.comment is Some ==> forall|k: int|
            0 <= k < pairs_v(out.actions@).len() ==> (#[trigger] pairs_v(out.actions@)[k]).0
                == action_id_chars(
                config.hash_salt@,
                file_name@,
                pairs_v(out.actions@)[k].1,
            ),
        out.comment is None ==> out.actions@ == Seq::<(String, String)>::empty(),
        ({
            let msc = crate::directive::scan_module_items(module.items@, config.enabled, true);
            let server = config.is_react_server_layer;
            let out_items = out.module.items@;
            &&& (msc.set_action ==> out.comment is Some)
            &&& crate::transform::diags_extended(msc.diags, out.diags@)
            &&& ((server && (out.comment is Some)) ==> out_items.len() >= 2
                && crate::transform::is_import_of(
                out_items[0],
                "private-next-rsc-server-reference"@,
            ) && crate::transform::is_import_of(
                out_items[1],
                "private-next-rsc-action-encryption"@,
            ))
        }),
{
    let mut st = ServerActions {
        config,
        file_name: String::from_str(file_name),
        private_ctxt: u32::MAX,
        in_action_file: false,
        in_cache_file: None,
        in_export_decl: false,
        in_default_export_decl: false,
        in_callee: false,
        has_action: false,
        has_cache: false,
        reference_index: 0,
        in_module_level: true,
        should_track_names: false,
        names: Vec::new(),
        declared_idents: Vec::new(),
        exported_idents: Vec::new(),
        annotations: Vec::new(),
        extra_items: Vec::new(),
        hoisted_extra_items: Vec::new(),
        export_actions: Vec::new(),
        diags: Vec::new(),
    };
    let Module { span, items } = module;
    let ghost gitems = items@;
    let result = st.transform_module_items(items);
    proof {
        let msc = crate::directive::scan_module_items(gitems, config.enabled, true);
        assert(Seq::<Diag>::empty() + msc.diags =~= msc.diags);
    }
    let new_items = result.0;
    let comment = result.1;
    let actions = result.2;
    TransformOutput {
        module: Module { span, items: new_items },
        comment,
        actions,
        diags: st.diags,
    }
}

} // verus!
