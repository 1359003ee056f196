//! Forgeries of the delimiters of groups.
//!
//! A pair of delimiters holds one span for the whole group and carries no
//! name, so its forgery draws nothing from the registry.

use crate::forge::Forge;
use crate::registry::ForgeRegistry;
use crate::site::{placed_at, resolved};
use proc_macro2::Span;
use vstd::prelude::*;

verus! {

/// `syn::token::Brace`, the braces of a group `{...}`.
#[verifier::external_type_specification]
pub struct ExBrace(syn::token::Brace);

impl Forge for syn::token::Brace {
    open spec fn draws() -> nat {
        0
    }

    open spec fn is_forgery(&self, span: Span, site: Span, first: nat) -> bool {
        self.span == resolved(span, site)
    }

    fn forge_at(span: Span, site: Span, registry: &mut ForgeRegistry) -> (forged: Self) {
        syn::token::Brace { span: placed_at(span, site) }
    }
}

/// `syn::token::Bracket`, the brackets of a group `[...]`.
#[verifier::external_type_specification]
pub struct ExBracket(syn::token::Bracket);

impl Forge for syn::token::Bracket {
    open spec fn draws() -> nat {
        0
    }

    open spec fn is_forgery(&self, span: Span, site: Span, first: nat) -> bool {
        self.span == resolved(span, site)
    }

    fn forge_at(span: Span, site: Span, registry: &mut ForgeRegistry) -> (forged: Self) {
        syn::token::Bracket { span: placed_at(span, site) }
    }
}

/// `syn::token::Group`, the bounds of a group that is written without delimiters.
#[verifier::external_type_specification]
pub struct ExGroup(syn::token::Group);

impl Forge for syn::token::Group {
    open spec fn draws() -> nat {
        0
    }

    open spec fn is_forgery(&self, span: Span, site: Span, first: nat) -> bool {
        self.span == resolved(span, site)
    }

    fn forge_at(span: Span, site: Span, registry: &mut ForgeRegistry) -> (forged: Self) {
        syn::token::Group { span: placed_at(span, site) }
    }
}

/// `syn::token::Paren`, the parentheses of a group `(...)`.
#[verifier::external_type_specification]
pub struct ExParen(syn::token::Paren);

impl Forge for syn::token::Paren {
    open spec fn draws() -> nat {
        0
    }

    open spec fn is_forgery(&self, span: Span, site: Span, first: nat) -> bool {
        self.span == resolved(span, site)
    }

    fn forge_at(span: Span, site: Span, registry: &mut ForgeRegistry) -> (forged: Self) {
        syn::token::Paren { span: placed_at(span, site) }
    }
}

} // verus!
