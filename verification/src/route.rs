//! Which page a route shows.

use vstd::prelude::*;

verus! {

/// The pages of the application.
#[derive(Clone, Copy, Debug, PartialEq, Eq, Hash)]
pub enum View {
    Grounding,
    Flow,
    Settings,
    Keys,
    Archive,
    AccountSettings,
    NotFound,
}

/// The page to show for a route: unknown routes show the flow.
pub open spec fn shown_view(view: Option<View>) -> View {
    match view {
        Some(View::NotFound) | None => View::Flow,
        Some(v) => v,
    }
}

/// A known page is shown as it is; an unknown route, or none, shows the
/// flow.
pub proof fn lemma_shown_view(view: Option<View>)
    ensures
        view is Some && view != Some(View::NotFound) ==> shown_view(view) == view->0,
        view is None || view == Some(View::NotFound) ==> shown_view(view) == View::Flow,
{
}

pub fn normalize_view(view: Option<View>) -> (r: View)
    ensures
        r == shown_view(view),
{
    match view {
        Some(View::NotFound) | None => View::Flow,
        Some(v) => v,
    }
}

} // verus!
