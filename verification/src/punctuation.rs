//! Forgeries of punctuation.
//!
//! A punctuation token holds a span for each of its characters and carries
//! no name. In a forgery all of them are the same span, and nothing is drawn
//! from the registry.

use crate::forge::Forge;
use crate::registry::ForgeRegistry;
use crate::site::{placed_at, resolved, spread};
use proc_macro2::Span;
use vstd::prelude::*;

verus! {

/// `syn::token::Add`, the punctuation `+`, with one span.
#[verifier::external_type_specification]
pub struct ExAdd(syn::token::Add);

impl Forge for syn::token::Add {
    open spec fn draws() -> nat {
        0
    }

    open spec fn is_forgery(&self, span: Span, site: Span, first: nat) -> bool {
        forall|i: int| 0 <= i < self.spans@.len() ==> self.spans@[i] == resolved(span, site)
    }

    fn forge_at(span: Span, site: Span, registry: &mut ForgeRegistry) -> (forged: Self) {
        syn::token::Add { spans: spread(placed_at(span, site)) }
    }
}

/// `syn::token::AddEq`, the punctuation `+=`, with a span for each of its 2 characters.
#[verifier::external_type_specification]
pub struct ExAddEq(syn::token::AddEq);

impl Forge for syn::token::AddEq {
    open spec fn draws() -> nat {
        0
    }

    open spec fn is_forgery(&self, span: Span, site: Span, first: nat) -> bool {
        forall|i: int| 0 <= i < self.spans@.len() ==> self.spans@[i] == resolved(span, site)
    }

    fn forge_at(span: Span, site: Span, registry: &mut ForgeRegistry) -> (forged: Self) {
        syn::token::AddEq { spans: spread(placed_at(span, site)) }
    }
}

/// `syn::token::And`, the punctuation `&`, with one span.
#[verifier::external_type_specification]
pub struct ExAnd(syn::token::And);

impl Forge for syn::token::And {
    open spec fn draws() -> nat {
        0
    }

    open spec fn is_forgery(&self, span: Span, site: Span, first: nat) -> bool {
        forall|i: int| 0 <= i < self.spans@.len() ==> self.spans@[i] == resolved(span, site)
    }

    fn forge_at(span: Span, site: Span, registry: &mut ForgeRegistry) -> (forged: Self) {
        syn::token::And { spans: spread(placed_at(span, site)) }
    }
}

/// `syn::token::AndAnd`, the punctuation `&&`, with a span for each of its 2 characters.
#[verifier::external_type_specification]
pub struct ExAndAnd(syn::token::AndAnd);

impl Forge for syn::token::AndAnd {
    open spec fn draws() -> nat {
        0
    }

    open spec fn is_forgery(&self, span: Span, site: Span, first: nat) -> bool {
        forall|i: int| 0 <= i < self.spans@.len() ==> self.spans@[i] == resolved(span, site)
    }

    fn forge_at(span: Span, site: Span, registry: &mut ForgeRegistry) -> (forged: Self) {
        syn::token::AndAnd { spans: spread(placed_at(span, site)) }
    }
}

/// `syn::token::AndEq`, the punctuation `&=`, with a span for each of its 2 characters.
#[verifier::external_type_specification]
pub struct ExAndEq(syn::token::AndEq);

impl Forge for syn::token::AndEq {
    open spec fn draws() -> nat {
        0
    }

    open spec fn is_forgery(&self, span: Span, site: Span, first: nat) -> bool {
        forall|i: int| 0 <= i < self.spans@.len() ==> self.spans@[i] == resolved(span, site)
    }

    fn forge_at(span: Span, site: Span, registry: &mut ForgeRegistry) -> (forged: Self) {
        syn::token::AndEq { spans: spread(placed_at(span, site)) }
    }
}

/// `syn::token::At`, the punctuation `@`, with one span.
#[verifier::external_type_specification]
pub struct ExAt(syn::token::At);

impl Forge for syn::token::At {
    open spec fn draws() -> nat {
        0
    }

    open spec fn is_forgery(&self, span: Span, site: Span, first: nat) -> bool {
        forall|i: int| 0 <= i < self.spans@.len() ==> self.spans@[i] == resolved(span, site)
    }

    fn forge_at(span: Span, site: Span, registry: &mut ForgeRegistry) -> (forged: Self) {
        syn::token::At { spans: spread(placed_at(span, site)) }
    }
}

/// `syn::token::Bang`, the punctuation `!`, with one span.
#[verifier::external_type_specification]
pub struct ExBang(syn::token::Bang);

impl Forge for syn::token::Bang {
    open spec fn draws() -> nat {
        0
    }

    open spec fn is_forgery(&self, span: Span, site: Span, first: nat) -> bool {
        forall|i: int| 0 <= i < self.spans@.len() ==> self.spans@[i] == resolved(span, site)
    }

    fn forge_at(span: Span, site: Span, registry: &mut ForgeRegistry) -> (forged: Self) {
        syn::token::Bang { spans: spread(placed_at(span, site)) }
    }
}

/// `syn::token::Caret`, the punctuation `^`, with one span.
#[verifier::external_type_specification]
pub struct ExCaret(syn::token::Caret);

impl Forge for syn::token::Caret {
    open spec fn draws() -> nat {
        0
    }

    open spec fn is_forgery(&self, span: Span, site: Span, first: nat) -> bool {
        forall|i: int| 0 <= i < self.spans@.len() ==> self.spans@[i] == resolved(span, site)
    }

    fn forge_at(span: Span, site: Span, registry: &mut ForgeRegistry) -> (forged: Self) {
        syn::token::Caret { spans: spread(placed_at(span, site)) }
    }
}

/// `syn::token::CaretEq`, the punctuation `^=`, with a span for each of its 2 characters.
#[verifier::external_type_specification]
pub struct ExCaretEq(syn::token::CaretEq);

impl Forge for syn::token::CaretEq {
    open spec fn draws() -> nat {
        0
    }

    open spec fn is_forgery(&self, span: Span, site: Span, first: nat) -> bool {
        forall|i: int| 0 <= i < self.spans@.len() ==> self.spans@[i] == resolved(span, site)
    }

    fn forge_at(span: Span, site: Span, registry: &mut ForgeRegistry) -> (forged: Self) {
        syn::token::CaretEq { spans: spread(placed_at(span, site)) }
    }
}

/// `syn::token::Colon`, the punctuation `:`, with one span.
#[verifier::external_type_specification]
pub struct ExColon(syn::token::Colon);

impl Forge for syn::token::Colon {
    open spec fn draws() -> nat {
        0
    }

    open spec fn is_forgery(&self, span: Span, site: Span, first: nat) -> bool {
        forall|i: int| 0 <= i < self.spans@.len() ==> self.spans@[i] == resolved(span, site)
    }

    fn forge_at(span: Span, site: Span, registry: &mut ForgeRegistry) -> (forged: Self) {
        syn::token::Colon { spans: spread(placed_at(span, site)) }
    }
}

/// `syn::token::Colon2`, the punctuation `::`, with a span for each of its 2 characters.
#[verifier::external_type_specification]
pub struct ExColon2(syn::token::Colon2);

impl Forge for syn::token::Colon2 {
    open spec fn draws() -> nat {
        0
    }

    open spec fn is_forgery(&self, span: Span, site: Span, first: nat) -> bool {
        forall|i: int| 0 <= i < self.spans@.len() ==> self.spans@[i] == resolved(span, site)
    }

    fn forge_at(span: Span, site: Span, registry: &mut ForgeRegistry) -> (forged: Self) {
        syn::token::Colon2 { spans: spread(placed_at(span, site)) }
    }
}

/// `syn::token::Comma`, the punctuation `,`, with one span.
#[verifier::external_type_specification]
pub struct ExComma(syn::token::Comma);

impl Forge for syn::token::Comma {
    open spec fn draws() -> nat {
        0
    }

    open spec fn is_forgery(&self, span: Span, site: Span, first: nat) -> bool {
        forall|i: int| 0 <= i < self.spans@.len() ==> self.spans@[i] == resolved(span, site)
    }

    fn forge_at(span: Span, site: Span, registry: &mut ForgeRegistry) -> (forged: Self) {
        syn::token::Comma { spans: spread(placed_at(span, site)) }
    }
}

/// `syn::token::Div`, the punctuation `/`, with one span.
#[verifier::external_type_specification]
pub struct ExDiv(syn::token::Div);

impl Forge for syn::token::Div {
    open spec fn draws() -> nat {
        0
    }

    open spec fn is_forgery(&self, span: Span, site: Span, first: nat) -> bool {
        forall|i: int| 0 <= i < self.spans@.len() ==> self.spans@[i] == resolved(span, site)
    }

    fn forge_at(span: Span, site: Span, registry: &mut ForgeRegistry) -> (forged: Self) {
        syn::token::Div { spans: spread(placed_at(span, site)) }
    }
}

/// `syn::token::DivEq`, the punctuation `/=`, with a span for each of its 2 characters.
#[verifier::external_type_specification]
pub struct ExDivEq(syn::token::DivEq);

impl Forge for syn::token::DivEq {
    open spec fn draws() -> nat {
        0
    }

    open spec fn is_forgery(&self, span: Span, site: Span, first: nat) -> bool {
        forall|i: int| 0 <= i < self.spans@.len() ==> self.spans@[i] == resolved(span, site)
    }

    fn forge_at(span: Span, site: Span, registry: &mut ForgeRegistry) -> (forged: Self) {
        syn::token::DivEq { spans: spread(placed_at(span, site)) }
    }
}

/// `syn::token::Dollar`, the punctuation `$`, with one span.
#[verifier::external_type_specification]
pub struct ExDollar(syn::token::Dollar);

impl Forge for syn::token::Dollar {
    open spec fn draws() -> nat {
        0
    }

    open spec fn is_forgery(&self, span: Span, site: Span, first: nat) -> bool {
        forall|i: int| 0 <= i < self.spans@.len() ==> self.spans@[i] == resolved(span, site)
    }

    fn forge_at(span: Span, site: Span, registry: &mut ForgeRegistry) -> (forged: Self) {
        syn::token::Dollar { spans: spread(placed_at(span, site)) }
    }
}

/// `syn::token::Dot`, the punctuation `.`, with one span.
#[verifier::external_type_specification]
pub struct ExDot(syn::token::Dot);

impl Forge for syn::token::Dot {
    open spec fn draws() -> nat {
        0
    }

    open spec fn is_forgery(&self, span: Span, site: Span, first: nat) -> bool {
        forall|i: int| 0 <= i < self.spans@.len() ==> self.spans@[i] == resolved(span, site)
    }

    fn forge_at(span: Span, site: Span, registry: &mut ForgeRegistry) -> (forged: Self) {
        syn::token::Dot { spans: spread(placed_at(span, site)) }
    }
}

/// `syn::token::Dot2`, the punctuation `..`, with a span for each of its 2 characters.
#[verifier::external_type_specification]
pub struct ExDot2(syn::token::Dot2);

impl Forge for syn::token::Dot2 {
    open spec fn draws() -> nat {
        0
    }

    open spec fn is_forgery(&self, span: Span, site: Span, first: nat) -> bool {
        forall|i: int| 0 <= i < self.spans@.len() ==> self.spans@[i] == resolved(span, site)
    }

    fn forge_at(span: Span, site: Span, registry: &mut ForgeRegistry) -> (forged: Self) {
        syn::token::Dot2 { spans: spread(placed_at(span, site)) }
    }
}

/// `syn::token::Dot3`, the punctuation `...`, with a span for each of its 3 characters.
#[verifier::external_type_specification]
pub struct ExDot3(syn::token::Dot3);

impl Forge for syn::token::Dot3 {
    open spec fn draws() -> nat {
        0
    }

    open spec fn is_forgery(&self, span: Span, site: Span, first: nat) -> bool {
        forall|i: int| 0 <= i < self.spans@.len() ==> self.spans@[i] == resolved(span, site)
    }

    fn forge_at(span: Span, site: Span, registry: &mut ForgeRegistry) -> (forged: Self) {
        syn::token::Dot3 { spans: spread(placed_at(span, site)) }
    }
}

/// `syn::token::DotDotEq`, the punctuation `..=`, with a span for each of its 3 characters.
#[verifier::external_type_specification]
pub struct ExDotDotEq(syn::token::DotDotEq);

impl Forge for syn::token::DotDotEq {
    open spec fn draws() -> nat {
        0
    }

    open spec fn is_forgery(&self, span: Span, site: Span, first: nat) -> bool {
        forall|i: int| 0 <= i < self.spans@.len() ==> self.spans@[i] == resolved(span, site)
    }

    fn forge_at(span: Span, site: Span, registry: &mut ForgeRegistry) -> (forged: Self) {
        syn::token::DotDotEq { spans: spread(placed_at(span, site)) }
    }
}

/// `syn::token::Eq`, the punctuation `=`, with one span.
#[verifier::external_type_specification]
pub struct ExEq(syn::token::Eq);

impl Forge for syn::token::Eq {
    open spec fn draws() -> nat {
        0
    }

    open spec fn is_forgery(&self, span: Span, site: Span, first: nat) -> bool {
        forall|i: int| 0 <= i < self.spans@.len() ==> self.spans@[i] == resolved(span, site)
    }

    fn forge_at(span: Span, site: Span, registry: &mut ForgeRegistry) -> (forged: Self) {
        syn::token::Eq { spans: spread(placed_at(span, site)) }
    }
}

/// `syn::token::EqEq`, the punctuation `==`, with a span for each of its 2 characters.
#[verifier::external_type_specification]
pub struct ExEqEq(syn::token::EqEq);

impl Forge for syn::token::EqEq {
    open spec fn draws() -> nat {
        0
    }

    open spec fn is_forgery(&self, span: Span, site: Span, first: nat) -> bool {
        forall|i: int| 0 <= i < self.spans@.len() ==> self.spans@[i] == resolved(span, site)
    }

    fn forge_at(span: Span, site: Span, registry: &mut ForgeRegistry) -> (forged: Self) {
        syn::token::EqEq { spans: spread(placed_at(span, site)) }
    }
}

/// `syn::token::FatArrow`, the punctuation `=>`, with a span for each of its 2 characters.
#[verifier::external_type_specification]
pub struct ExFatArrow(syn::token::FatArrow);

impl Forge for syn::token::FatArrow {
    open spec fn draws() -> nat {
        0
    }

    open spec fn is_forgery(&self, span: Span, site: Span, first: nat) -> bool {
        forall|i: int| 0 <= i < self.spans@.len() ==> self.spans@[i] == resolved(span, site)
    }

    fn forge_at(span: Span, site: Span, registry: &mut ForgeRegistry) -> (forged: Self) {
        syn::token::FatArrow { spans: spread(placed_at(span, site)) }
    }
}

/// `syn::token::Ge`, the punctuation `>=`, with a span for each of its 2 characters.
#[verifier::external_type_specification]
pub struct ExGe(syn::token::Ge);

impl Forge for syn::token::Ge {
    open spec fn draws() -> nat {
        0
    }

    open spec fn is_forgery(&self, span: Span, site: Span, first: nat) -> bool {
        forall|i: int| 0 <= i < self.spans@.len() ==> self.spans@[i] == resolved(span, site)
    }

    fn forge_at(span: Span, site: Span, registry: &mut ForgeRegistry) -> (forged: Self) {
        syn::token::Ge { spans: spread(placed_at(span, site)) }
    }
}

/// `syn::token::Gt`, the punctuation `>`, with one span.
#[verifier::external_type_specification]
pub struct ExGt(syn::token::Gt);

impl Forge for syn::token::Gt {
    open spec fn draws() -> nat {
        0
    }

    open spec fn is_forgery(&self, span: Span, site: Span, first: nat) -> bool {
        forall|i: int| 0 <= i < self.spans@.len() ==> self.spans@[i] == resolved(span, site)
    }

    fn forge_at(span: Span, site: Span, registry: &mut ForgeRegistry) -> (forged: Self) {
        syn::token::Gt { spans: spread(placed_at(span, site)) }
    }
}

/// `syn::token::LArrow`, the punctuation `<-`, with a span for each of its 2 characters.
#[verifier::external_type_specification]
pub struct ExLArrow(syn::token::LArrow);

impl Forge for syn::token::LArrow {
    open spec fn draws() -> nat {
        0
    }

    open spec fn is_forgery(&self, span: Span, site: Span, first: nat) -> bool {
        forall|i: int| 0 <= i < self.spans@.len() ==> self.spans@[i] == resolved(span, site)
    }

    fn forge_at(span: Span, site: Span, registry: &mut ForgeRegistry) -> (forged: Self) {
        syn::token::LArrow { spans: spread(placed_at(span, site)) }
    }
}

/// `syn::token::Le`, the punctuation `<=`, with a span for each of its 2 characters.
#[verifier::external_type_specification]
pub struct ExLe(syn::token::Le);

impl Forge for syn::token::Le {
    open spec fn draws() -> nat {
        0
    }

    open spec fn is_forgery(&self, span: Span, site: Span, first: nat) -> bool {
        forall|i: int| 0 <= i < self.spans@.len() ==> self.spans@[i] == resolved(span, site)
    }

    fn forge_at(span: Span, site: Span, registry: &mut ForgeRegistry) -> (forged: Self) {
        syn::token::Le { spans: spread(placed_at(span, site)) }
    }
}

/// `syn::token::Lt`, the punctuation `<`, with one span.
#[verifier::external_type_specification]
pub struct ExLt(syn::token::Lt);

impl Forge for syn::token::Lt {
    open spec fn draws() -> nat {
        0
    }

    open spec fn is_forgery(&self, span: Span, site: Span, first: nat) -> bool {
        forall|i: int| 0 <= i < self.spans@.len() ==> self.spans@[i] == resolved(span, site)
    }

    fn forge_at(span: Span, site: Span, registry: &mut ForgeRegistry) -> (forged: Self) {
        syn::token::Lt { spans: spread(placed_at(span, site)) }
    }
}

/// `syn::token::MulEq`, the punctuation `*=`, with a span for each of its 2 characters.
#[verifier::external_type_specification]
pub struct ExMulEq(syn::token::MulEq);

impl Forge for syn::token::MulEq {
    open spec fn draws() -> nat {
        0
    }

    open spec fn is_forgery(&self, span: Span, site: Span, first: nat) -> bool {
        forall|i: int| 0 <= i < self.spans@.len() ==> self.spans@[i] == resolved(span, site)
    }

    fn forge_at(span: Span, site: Span, registry: &mut ForgeRegistry) -> (forged: Self) {
        syn::token::MulEq { spans: spread(placed_at(span, site)) }
    }
}

/// `syn::token::Ne`, the punctuation `!=`, with a span for each of its 2 characters.
#[verifier::external_type_specification]
pub struct ExNe(syn::token::Ne);

impl Forge for syn::token::Ne {
    open spec fn draws() -> nat {
        0
    }

    open spec fn is_forgery(&self, span: Span, site: Span, first: nat) -> bool {
        forall|i: int| 0 <= i < self.spans@.len() ==> self.spans@[i] == resolved(span, site)
    }

    fn forge_at(span: Span, site: Span, registry: &mut ForgeRegistry) -> (forged: Self) {
        syn::token::Ne { spans: spread(placed_at(span, site)) }
    }
}

/// `syn::token::Or`, the punctuation `|`, with one span.
#[verifier::external_type_specification]
pub struct ExOr(syn::token::Or);

impl Forge for syn::token::Or {
    open spec fn draws() -> nat {
        0
    }

    open spec fn is_forgery(&self, span: Span, site: Span, first: nat) -> bool {
        forall|i: int| 0 <= i < self.spans@.len() ==> self.spans@[i] == resolved(span, site)
    }

    fn forge_at(span: Span, site: Span, registry: &mut ForgeRegistry) -> (forged: Self) {
        syn::token::Or { spans: spread(placed_at(span, site)) }
    }
}

/// `syn::token::OrEq`, the punctuation `|=`, with a span for each of its 2 characters.
#[verifier::external_type_specification]
pub struct ExOrEq(syn::token::OrEq);

impl Forge for syn::token::OrEq {
    open spec fn draws() -> nat {
        0
    }

    open spec fn is_forgery(&self, span: Span, site: Span, first: nat) -> bool {
        forall|i: int| 0 <= i < self.spans@.len() ==> self.spans@[i] == resolved(span, site)
    }

    fn forge_at(span: Span, site: Span, registry: &mut ForgeRegistry) -> (forged: Self) {
        syn::token::OrEq { spans: spread(placed_at(span, site)) }
    }
}

/// `syn::token::OrOr`, the punctuation `||`, with a span for each of its 2 characters.
#[verifier::external_type_specification]
pub struct ExOrOr(syn::token::OrOr);

impl Forge for syn::token::OrOr {
    open spec fn draws() -> nat {
        0
    }

    open spec fn is_forgery(&self, span: Span, site: Span, first: nat) -> bool {
        forall|i: int| 0 <= i < self.spans@.len() ==> self.spans@[i] == resolved(span, site)
    }

    fn forge_at(span: Span, site: Span, registry: &mut ForgeRegistry) -> (forged: Self) {
        syn::token::OrOr { spans: spread(placed_at(span, site)) }
    }
}

/// `syn::token::Pound`, the punctuation `#`, with one span.
#[verifier::external_type_specification]
pub struct ExPound(syn::token::Pound);

impl Forge for syn::token::Pound {
    open spec fn draws() -> nat {
        0
    }

    open spec fn is_forgery(&self, span: Span, site: Span, first: nat) -> bool {
        forall|i: int| 0 <= i < self.spans@.len() ==> self.spans@[i] == resolved(span, site)
    }

    fn forge_at(span: Span, site: Span, registry: &mut ForgeRegistry) -> (forged: Self) {
        syn::token::Pound { spans: spread(placed_at(span, site)) }
    }
}

/// `syn::token::Question`, the punctuation `?`, with one span.
#[verifier::external_type_specification]
pub struct ExQuestion(syn::token::Question);

impl Forge for syn::token::Question {
    open spec fn draws() -> nat {
        0
    }

    open spec fn is_forgery(&self, span: Span, site: Span, first: nat) -> bool {
        forall|i: int| 0 <= i < self.spans@.len() ==> self.spans@[i] == resolved(span, site)
    }

    fn forge_at(span: Span, site: Span, registry: &mut ForgeRegistry) -> (forged: Self) {
        syn::token::Question { spans: spread(placed_at(span, site)) }
    }
}

/// `syn::token::RArrow`, the punctuation `->`, with a span for each of its 2 characters.
#[verifier::external_type_specification]
pub struct ExRArrow(syn::token::RArrow);

impl Forge for syn::token::RArrow {
    open spec fn draws() -> nat {
        0
    }

    open spec fn is_forgery(&self, span: Span, site: Span, first: nat) -> bool {
        forall|i: int| 0 <= i < self.spans@.len() ==> self.spans@[i] == resolved(span, site)
    }

    fn forge_at(span: Span, site: Span, registry: &mut ForgeRegistry) -> (forged: Self) {
        syn::token::RArrow { spans: spread(placed_at(span, site)) }
    }
}

/// `syn::token::Rem`, the punctuation `%`, with one span.
#[verifier::external_type_specification]
pub struct ExRem(syn::token::Rem);

impl Forge for syn::token::Rem {
    open spec fn draws() -> nat {
        0
    }

    open spec fn is_forgery(&self, span: Span, site: Span, first: nat) -> bool {
        forall|i: int| 0 <= i < self.spans@.len() ==> self.spans@[i] == resolved(span, site)
    }

    fn forge_at(span: Span, site: Span, registry: &mut ForgeRegistry) -> (forged: Self) {
        syn::token::Rem { spans: spread(placed_at(span, site)) }
    }
}

/// `syn::token::RemEq`, the punctuation `%=`, with a span for each of its 2 characters.
#[verifier::external_type_specification]
pub struct ExRemEq(syn::token::RemEq);

impl Forge for syn::token::RemEq {
    open spec fn draws() -> nat {
        0
    }

    open spec fn is_forgery(&self, span: Span, site: Span, first: nat) -> bool {
        forall|i: int| 0 <= i < self.spans@.len() ==> self.spans@[i] == resolved(span, site)
    }

    fn forge_at(span: Span, site: Span, registry: &mut ForgeRegistry) -> (forged: Self) {
        syn::token::RemEq { spans: spread(placed_at(span, site)) }
    }
}

/// `syn::token::Semi`, the punctuation `;`, with one span.
#[verifier::external_type_specification]
pub struct ExSemi(syn::token::Semi);

impl Forge for syn::token::Semi {
    open spec fn draws() -> nat {
        0
    }

    open spec fn is_forgery(&self, span: Span, site: Span, first: nat) -> bool {
        forall|i: int| 0 <= i < self.spans@.len() ==> self.spans@[i] == resolved(span, site)
    }

    fn forge_at(span: Span, site: Span, registry: &mut ForgeRegistry) -> (forged: Self) {
        syn::token::Semi { spans: spread(placed_at(span, site)) }
    }
}

/// `syn::token::Shl`, the punctuation `<<`, with a span for each of its 2 characters.
#[verifier::external_type_specification]
pub struct ExShl(syn::token::Shl);

impl Forge for syn::token::Shl {
    open spec fn draws() -> nat {
        0
    }

    open spec fn is_forgery(&self, span: Span, site: Span, first: nat) -> bool {
        forall|i: int| 0 <= i < self.spans@.len() ==> self.spans@[i] == resolved(span, site)
    }

    fn forge_at(span: Span, site: Span, registry: &mut ForgeRegistry) -> (forged: Self) {
        syn::token::Shl { spans: spread(placed_at(span, site)) }
    }
}

/// `syn::token::ShlEq`, the punctuation `<<=`, with a span for each of its 3 characters.
#[verifier::external_type_specification]
pub struct ExShlEq(syn::token::ShlEq);

impl Forge for syn::token::ShlEq {
    open spec fn draws() -> nat {
        0
    }

    open spec fn is_forgery(&self, span: Span, site: Span, first: nat) -> bool {
        forall|i: int| 0 <= i < self.spans@.len() ==> self.spans@[i] == resolved(span, site)
    }

    fn forge_at(span: Span, site: Span, registry: &mut ForgeRegistry) -> (forged: Self) {
        syn::token::ShlEq { spans: spread(placed_at(span, site)) }
    }
}

/// `syn::token::Shr`, the punctuation `>>`, with a span for each of its 2 characters.
#[verifier::external_type_specification]
pub struct ExShr(syn::token::Shr);

impl Forge for syn::token::Shr {
    open spec fn draws() -> nat {
        0
    }

    open spec fn is_forgery(&self, span: Span, site: Span, first: nat) -> bool {
        forall|i: int| 0 <= i < self.spans@.len() ==> self.spans@[i] == resolved(span, site)
    }

    fn forge_at(span: Span, site: Span, registry: &mut ForgeRegistry) -> (forged: Self) {
        syn::token::Shr { spans: spread(placed_at(span, site)) }
    }
}

/// `syn::token::ShrEq`, the punctuation `>>=`, with a span for each of its 3 characters.
#[verifier::external_type_specification]
pub struct ExShrEq(syn::token::ShrEq);

impl Forge for syn::token::ShrEq {
    open spec fn draws() -> nat {
        0
    }

    open spec fn is_forgery(&self, span: Span, site: Span, first: nat) -> bool {
        forall|i: int| 0 <= i < self.spans@.len() ==> self.spans@[i] == resolved(span, site)
    }

    fn forge_at(span: Span, site: Span, registry: &mut ForgeRegistry) -> (forged: Self) {
        syn::token::ShrEq { spans: spread(placed_at(span, site)) }
    }
}

/// `syn::token::Star`, the punctuation `*`, with one span.
#[verifier::external_type_specification]
pub struct ExStar(syn::token::Star);

impl Forge for syn::token::Star {
    open spec fn draws() -> nat {
        0
    }

    open spec fn is_forgery(&self, span: Span, site: Span, first: nat) -> bool {
        forall|i: int| 0 <= i < self.spans@.len() ==> self.spans@[i] == resolved(span, site)
    }

    fn forge_at(span: Span, site: Span, registry: &mut ForgeRegistry) -> (forged: Self) {
        syn::token::Star { spans: spread(placed_at(span, site)) }
    }
}

/// `syn::token::Sub`, the punctuation `-`, with one span.
#[verifier::external_type_specification]
pub struct ExSub(syn::token::Sub);

impl Forge for syn::token::Sub {
    open spec fn draws() -> nat {
        0
    }

    open spec fn is_forgery(&self, span: Span, site: Span, first: nat) -> bool {
        forall|i: int| 0 <= i < self.spans@.len() ==> self.spans@[i] == resolved(span, site)
    }

    fn forge_at(span: Span, site: Span, registry: &mut ForgeRegistry) -> (forged: Self) {
        syn::token::Sub { spans: spread(placed_at(span, site)) }
    }
}

/// `syn::token::SubEq`, the punctuation `-=`, with a span for each of its 2 characters.
#[verifier::external_type_specification]
pub struct ExSubEq(syn::token::SubEq);

impl Forge for syn::token::SubEq {
    open spec fn draws() -> nat {
        0
    }

    open spec fn is_forgery(&self, span: Span, site: Span, first: nat) -> bool {
        forall|i: int| 0 <= i < self.spans@.len() ==> self.spans@[i] == resolved(span, site)
    }

    fn forge_at(span: Span, site: Span, registry: &mut ForgeRegistry) -> (forged: Self) {
        syn::token::SubEq { spans: spread(placed_at(span, site)) }
    }
}

/// `syn::token::Tilde`, the punctuation `~`, with one span.
#[verifier::external_type_specification]
pub struct ExTilde(syn::token::Tilde);

impl Forge for syn::token::Tilde {
    open spec fn draws() -> nat {
        0
    }

    open spec fn is_forgery(&self, span: Span, site: Span, first: nat) -> bool {
        forall|i: int| 0 <= i < self.spans@.len() ==> self.spans@[i] == resolved(span, site)
    }

    fn forge_at(span: Span, site: Span, registry: &mut ForgeRegistry) -> (forged: Self) {
        syn::token::Tilde { spans: spread(placed_at(span, site)) }
    }
}

/// `syn::token::Underscore`, the punctuation `_`, with one span.
#[verifier::external_type_specification]
pub struct ExUnderscore(syn::token::Underscore);

impl Forge for syn::token::Underscore {
    open spec fn draws() -> nat {
        0
    }

    open spec fn is_forgery(&self, span: Span, site: Span, first: nat) -> bool {
        forall|i: int| 0 <= i < self.spans@.len() ==> self.spans@[i] == resolved(span, site)
    }

    fn forge_at(span: Span, site: Span, registry: &mut ForgeRegistry) -> (forged: Self) {
        syn::token::Underscore { spans: spread(placed_at(span, site)) }
    }
}

} // verus!
