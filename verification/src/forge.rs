//! What it takes for a kind of syntax to be forged, and the forging of
//! identifiers.

use crate::name::{
    fallback_name, fallback_name_of, is_identifier, lemma_fallback_name_is_identifier,
    lemma_fallback_names_distinct,
};
use crate::registry::ForgeRegistry;
use crate::site::{mixed_site, placed_at, resolved};
use proc_macro2::{Ident, Span};
use vstd::prelude::*;

verus! {

/// For forgeable elements of the syntax.
///
/// A forgery stands where a value of its kind was expected and could not be
/// parsed. It has the location that was asked for, resolved at the site of the
/// macro expansion, and where it carries a name, that name is one that no
/// other forgery of the same registry carries.
///
/// A kind says in `forge_at` how it is forged for a given site; `forge` is
/// the same with the site of the macro expansion under way.
pub trait Forge: Sized {
    /// How many numbers one forgery of this kind draws from the registry: one
    /// for each name that it carries.
    spec fn draws() -> nat;

    /// Whether `self` is the forgery of this kind for the location `span`,
    /// resolved at `site`, that is made when the registry has handed out
    /// `first` numbers before.
    spec fn is_forgery(&self, span: Span, site: Span, first: nat) -> bool;

    /// Forges a new instance of `Self` that has the location `span` and
    /// resolves at `site`.
    fn forge_at(span: Span, site: Span, registry: &mut ForgeRegistry) -> (forged: Self)
        requires
            old(registry).has_room(Self::draws()),
        ensures
            forged.is_forgery(span, site, old(registry).issued() as nat),
            final(registry).issued() == old(registry).issued() + Self::draws(),
    ;

    /// Forges a new instance of `Self` that has the location `span` and
    /// resolves at `Span::mixed_site()`, the site of the macro expansion
    /// under way.
    fn forge(span: Span, registry: &mut ForgeRegistry) -> (forged: Self)
        requires
            old(registry).has_room(Self::draws()),
        ensures
            exists|site: Span| forged.is_forgery(span, site, old(registry).issued() as nat),
            final(registry).issued() == old(registry).issued() + Self::draws(),
    {
        Self::forge_at(span, mixed_site(), registry)
    }
}

/// `proc_macro2::Ident`, a word of the source code: its text and its span.
#[verifier::external_type_specification]
#[verifier::external_body]
pub struct ExIdent(Ident);

/// The text of an identifier, as `Ident::to_string` gives it.
pub uninterp spec fn ident_text(ident: Ident) -> Seq<char>;

/// The span of an identifier, as `Ident::span` gives it.
pub uninterp spec fn ident_span(ident: Ident) -> Span;

/// `Ident::new`: the identifier that is written `name` and stands at `span`.
/// It panics on a text that is neither a keyword nor a legal name, so the
/// contract asks for an ASCII identifier that is more than an underscore.
#[verifier::external_body]
fn new_ident(name: &str, span: Span) -> (ident: Ident)
    requires
        is_identifier(name@),
    ensures
        ident_text(ident) == name@,
        ident_span(ident) == span,
{
    Ident::new(name, span)
}

impl Forge for Ident {
    open spec fn draws() -> nat {
        1
    }

    open spec fn is_forgery(&self, span: Span, site: Span, first: nat) -> bool {
        &&& ident_text(*self) == fallback_name(first)
        &&& ident_span(*self) == resolved(span, site)
    }

    fn forge_at(span: Span, site: Span, registry: &mut ForgeRegistry) -> (forged: Self) {
        let number: usize = registry.next();
        let name: String = fallback_name_of(number);
        proof {
            lemma_fallback_name_is_identifier(number as nat);
        }
        new_ident(name.as_str(), placed_at(span, site))
    }
}

/// Two forged identifiers never share their text, if the registry stood at
/// different numbers when they were made.
pub proof fn lemma_forged_idents_differ(
    one: Ident,
    one_span: Span,
    one_site: Span,
    one_first: nat,
    other: Ident,
    other_span: Span,
    other_site: Span,
    other_first: nat,
)
    requires
        one.is_forgery(one_span, one_site, one_first),
        other.is_forgery(other_span, other_site, other_first),
        one_first != other_first,
    ensures
        ident_text(one) != ident_text(other),
{
    lemma_fallback_names_distinct(one_first, other_first);
}

/// Identifiers forged one after the other from one registry all differ in
/// their text: the forgery made at the `k`-th of the calls finds the registry
/// at `first + k`, since each of them draws one number.
pub proof fn lemma_forged_idents_unique(
    forged: Seq<Ident>,
    spans: Seq<Span>,
    sites: Seq<Span>,
    first: nat,
)
    requires
        spans.len() == forged.len(),
        sites.len() == forged.len(),
        forall|k: int|
            0 <= k < forged.len() ==> (#[trigger] forged[k]).is_forgery(
                spans[k],
                sites[k],
                first + k as nat,
            ),
    ensures
        forall|k: int, l: int|
            0 <= k < forged.len() && 0 <= l < forged.len() && k != l ==> ident_text(
                #[trigger] forged[k],
            ) != ident_text(#[trigger] forged[l]),
{
    assert forall|k: int, l: int|
        0 <= k < forged.len() && 0 <= l < forged.len() && k != l implies ident_text(
        #[trigger] forged[k],
    ) != ident_text(#[trigger] forged[l]) by {
        lemma_forged_idents_differ(
            forged[k],
            spans[k],
            sites[k],
            first + k as nat,
            forged[l],
            spans[l],
            sites[l],
            first + l as nat,
        );
    }
}

} // verus!
