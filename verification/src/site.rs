//! Where a forgery is placed: the location it is asked for, resolved at the
//! site of the macro expansion.

use proc_macro2::Span;
use vstd::prelude::*;

verus! {

/// `proc_macro2::Span`, a region of source code together with the place at
/// which names written there are looked up. Nothing inside it is read here.
#[verifier::external_type_specification]
#[verifier::external_body]
pub struct ExSpan(Span);

/// The span that `Span::resolved_at` gives for `span` and `site`: the line and
/// column of `span`, with names looked up as they are at `site`.
pub uninterp spec fn resolved(span: Span, site: Span) -> Span;

/// `Span::mixed_site`: the span of the macro call that is being expanded, at
/// which local names are looked up where the macro is defined. Which span that
/// is depends on the expansion under way, so nothing is claimed of it.
#[verifier::external_body]
pub(crate) fn mixed_site() -> (site: Span) {
    Span::mixed_site()
}

/// `Span::resolved_at`: a span that points where `span` points and looks names
/// up as `site` does. The contract gives the result its name, and so claims
/// that it depends on the two spans alone.
///
/// proc-macro2 keeps two kinds of span, the compiler's and its own stand-in.
/// All spans of a process are of one kind, unless the process switches kinds
/// by `proc_macro2::fallback::force` or `unforce` while it holds on to spans
/// of the other kind; given one span of each kind, `Span::resolved_at` panics.
/// Nothing here switches kinds, and the two spans are taken to be of one.
#[verifier::external_body]
fn resolved_at(span: Span, site: Span) -> (placed: Span)
    ensures
        placed == resolved(span, site),
{
    span.resolved_at(site)
}

/// Keeps the location of `span` and has its names looked up at `site`.
///
/// With the site of the macro expansion for `site`, nothing that a user has
/// written at `span` can see or capture what is placed there.
pub fn placed_at(span: Span, site: Span) -> (placed: Span)
    ensures
        placed == resolved(span, site),
{
    resolved_at(span, site)
}

/// Fills every slot of an array with `value`.
pub fn spread<T: Copy, const N: usize>(value: T) -> (slots: [T; N])
    ensures
        forall|i: int| 0 <= i < N ==> slots[i] == value,
{
    [value; N]
}

} // verus!
