//! The page of the web UI.

use crate::text::{decimal, push_decimal, replace_all, replaced};
use vstd::prelude::*;

verus! {

/// What the page of the web UI has to know.
#[derive(Clone, Copy, Debug)]
pub struct UiState {
    /// The port that the API listens on.
    pub api_port: u16,
}

/// The page made from a template, in which a mark stands for the port of the API.
pub open spec fn page(template: Seq<char>, api_port: u16) -> Seq<char> {
    replaced(template, "{{API_PORT}}"@, decimal(api_port as nat))
}

/// Makes the page from its template.
pub fn render_index(template: &str, state: &UiState) -> (r: String)
    ensures
        r@ == page(template@, state.api_port),
{
    let mut port: String = String::new();
    push_decimal(&mut port, state.api_port as u64);
    assert(port@ =~= decimal(state.api_port as nat));
    proof {
        reveal_strlit("{{API_PORT}}");
    }
    replace_all(template, "{{API_PORT}}", port.as_str())
}

} // verus!
