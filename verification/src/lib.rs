//! Verified core of a `.gitignore` template generator: template identifier
//! resolution, TTL content caching, per-provider catalogs, the merge engine
//! that combines template bodies with cross-template line dedup, and the
//! interactive terminal state machine.

pub mod cache;
pub mod cli;
pub mod collection;
pub mod laws;
pub mod list;
pub mod strutil;
pub mod template;
pub mod ui;

use vstd::prelude::*;

verus! {

/// Wraps `title` in single spaces so a pane title visually detaches from the
/// surrounding border line.
pub fn title_string(title: String) -> (r: String)
    ensures
        r@ == seq![' '] + title@ + seq![' '],
{
    proof {
        reveal_strlit(" ");
        assert(" "@ =~= seq![' ']);
    }
    let mut out = String::new();
    out.append(" ");
    out.append(title.as_str());
    out.append(" ");
    proof {
        assert(out@ =~= seq![' '] + title@ + seq![' ']);
    }
    out
}

} // verus!
