//! Forgeries of keywords.
//!
//! A keyword holds one span and carries no name, so its forgery draws nothing
//! from the registry.

use crate::forge::Forge;
use crate::registry::ForgeRegistry;
use crate::site::{placed_at, resolved};
use proc_macro2::Span;
use vstd::prelude::*;

verus! {

/// `syn::token::Abstract`, the keyword `abstract`.
#[verifier::external_type_specification]
pub struct ExAbstract(syn::token::Abstract);

impl Forge for syn::token::Abstract {
    open spec fn draws() -> nat {
        0
    }

    open spec fn is_forgery(&self, span: Span, site: Span, first: nat) -> bool {
        self.span == resolved(span, site)
    }

    fn forge_at(span: Span, site: Span, registry: &mut ForgeRegistry) -> (forged: Self) {
        syn::token::Abstract { span: placed_at(span, site) }
    }
}

/// `syn::token::As`, the keyword `as`.
#[verifier::external_type_specification]
pub struct ExAs(syn::token::As);

impl Forge for syn::token::As {
    open spec fn draws() -> nat {
        0
    }

    open spec fn is_forgery(&self, span: Span, site: Span, first: nat) -> bool {
        self.span == resolved(span, site)
    }

    fn forge_at(span: Span, site: Span, registry: &mut ForgeRegistry) -> (forged: Self) {
        syn::token::As { span: placed_at(span, site) }
    }
}

/// `syn::token::Async`, the keyword `async`.
#[verifier::external_type_specification]
pub struct ExAsync(syn::token::Async);

impl Forge for syn::token::Async {
    open spec fn draws() -> nat {
        0
    }

    open spec fn is_forgery(&self, span: Span, site: Span, first: nat) -> bool {
        self.span == resolved(span, site)
    }

    fn forge_at(span: Span, site: Span, registry: &mut ForgeRegistry) -> (forged: Self) {
        syn::token::Async { span: placed_at(span, site) }
    }
}

/// `syn::token::Auto`, the keyword `auto`.
#[verifier::external_type_specification]
pub struct ExAuto(syn::token::Auto);

impl Forge for syn::token::Auto {
    open spec fn draws() -> nat {
        0
    }

    open spec fn is_forgery(&self, span: Span, site: Span, first: nat) -> bool {
        self.span == resolved(span, site)
    }

    fn forge_at(span: Span, site: Span, registry: &mut ForgeRegistry) -> (forged: Self) {
        syn::token::Auto { span: placed_at(span, site) }
    }
}

/// `syn::token::Await`, the keyword `await`.
#[verifier::external_type_specification]
pub struct ExAwait(syn::token::Await);

impl Forge for syn::token::Await {
    open spec fn draws() -> nat {
        0
    }

    open spec fn is_forgery(&self, span: Span, site: Span, first: nat) -> bool {
        self.span == resolved(span, site)
    }

    fn forge_at(span: Span, site: Span, registry: &mut ForgeRegistry) -> (forged: Self) {
        syn::token::Await { span: placed_at(span, site) }
    }
}

/// `syn::token::Become`, the keyword `become`.
#[verifier::external_type_specification]
pub struct ExBecome(syn::token::Become);

impl Forge for syn::token::Become {
    open spec fn draws() -> nat {
        0
    }

    open spec fn is_forgery(&self, span: Span, site: Span, first: nat) -> bool {
        self.span == resolved(span, site)
    }

    fn forge_at(span: Span, site: Span, registry: &mut ForgeRegistry) -> (forged: Self) {
        syn::token::Become { span: placed_at(span, site) }
    }
}

/// `syn::token::Box`, the keyword `box`.
#[verifier::external_type_specification]
pub struct ExBox(syn::token::Box);

impl Forge for syn::token::Box {
    open spec fn draws() -> nat {
        0
    }

    open spec fn is_forgery(&self, span: Span, site: Span, first: nat) -> bool {
        self.span == resolved(span, site)
    }

    fn forge_at(span: Span, site: Span, registry: &mut ForgeRegistry) -> (forged: Self) {
        syn::token::Box { span: placed_at(span, site) }
    }
}

/// `syn::token::Break`, the keyword `break`.
#[verifier::external_type_specification]
pub struct ExBreak(syn::token::Break);

impl Forge for syn::token::Break {
    open spec fn draws() -> nat {
        0
    }

    open spec fn is_forgery(&self, span: Span, site: Span, first: nat) -> bool {
        self.span == resolved(span, site)
    }

    fn forge_at(span: Span, site: Span, registry: &mut ForgeRegistry) -> (forged: Self) {
        syn::token::Break { span: placed_at(span, site) }
    }
}

/// `syn::token::Const`, the keyword `const`.
#[verifier::external_type_specification]
pub struct ExConst(syn::token::Const);

impl Forge for syn::token::Const {
    open spec fn draws() -> nat {
        0
    }

    open spec fn is_forgery(&self, span: Span, site: Span, first: nat) -> bool {
        self.span == resolved(span, site)
    }

    fn forge_at(span: Span, site: Span, registry: &mut ForgeRegistry) -> (forged: Self) {
        syn::token::Const { span: placed_at(span, site) }
    }
}

/// `syn::token::Continue`, the keyword `continue`.
#[verifier::external_type_specification]
pub struct ExContinue(syn::token::Continue);

impl Forge for syn::token::Continue {
    open spec fn draws() -> nat {
        0
    }

    open spec fn is_forgery(&self, span: Span, site: Span, first: nat) -> bool {
        self.span == resolved(span, site)
    }

    fn forge_at(span: Span, site: Span, registry: &mut ForgeRegistry) -> (forged: Self) {
        syn::token::Continue { span: placed_at(span, site) }
    }
}

/// `syn::token::Crate`, the keyword `crate`.
#[verifier::external_type_specification]
pub struct ExCrate(syn::token::Crate);

impl Forge for syn::token::Crate {
    open spec fn draws() -> nat {
        0
    }

    open spec fn is_forgery(&self, span: Span, site: Span, first: nat) -> bool {
        self.span == resolved(span, site)
    }

    fn forge_at(span: Span, site: Span, registry: &mut ForgeRegistry) -> (forged: Self) {
        syn::token::Crate { span: placed_at(span, site) }
    }
}

/// `syn::token::Default`, the keyword `default`.
#[verifier::external_type_specification]
pub struct ExDefault(syn::token::Default);

impl Forge for syn::token::Default {
    open spec fn draws() -> nat {
        0
    }

    open spec fn is_forgery(&self, span: Span, site: Span, first: nat) -> bool {
        self.span == resolved(span, site)
    }

    fn forge_at(span: Span, site: Span, registry: &mut ForgeRegistry) -> (forged: Self) {
        syn::token::Default { span: placed_at(span, site) }
    }
}

/// `syn::token::Do`, the keyword `do`.
#[verifier::external_type_specification]
pub struct ExDo(syn::token::Do);

impl Forge for syn::token::Do {
    open spec fn draws() -> nat {
        0
    }

    open spec fn is_forgery(&self, span: Span, site: Span, first: nat) -> bool {
        self.span == resolved(span, site)
    }

    fn forge_at(span: Span, site: Span, registry: &mut ForgeRegistry) -> (forged: Self) {
        syn::token::Do { span: placed_at(span, site) }
    }
}

/// `syn::token::Dyn`, the keyword `dyn`.
#[verifier::external_type_specification]
pub struct ExDyn(syn::token::Dyn);

impl Forge for syn::token::Dyn {
    open spec fn draws() -> nat {
        0
    }

    open spec fn is_forgery(&self, span: Span, site: Span, first: nat) -> bool {
        self.span == resolved(span, site)
    }

    fn forge_at(span: Span, site: Span, registry: &mut ForgeRegistry) -> (forged: Self) {
        syn::token::Dyn { span: placed_at(span, site) }
    }
}

/// `syn::token::Else`, the keyword `else`.
#[verifier::external_type_specification]
pub struct ExElse(syn::token::Else);

impl Forge for syn::token::Else {
    open spec fn draws() -> nat {
        0
    }

    open spec fn is_forgery(&self, span: Span, site: Span, first: nat) -> bool {
        self.span == resolved(span, site)
    }

    fn forge_at(span: Span, site: Span, registry: &mut ForgeRegistry) -> (forged: Self) {
        syn::token::Else { span: placed_at(span, site) }
    }
}

/// `syn::token::Enum`, the keyword `enum`.
#[verifier::external_type_specification]
pub struct ExEnum(syn::token::Enum);

impl Forge for syn::token::Enum {
    open spec fn draws() -> nat {
        0
    }

    open spec fn is_forgery(&self, span: Span, site: Span, first: nat) -> bool {
        self.span == resolved(span, site)
    }

    fn forge_at(span: Span, site: Span, registry: &mut ForgeRegistry) -> (forged: Self) {
        syn::token::Enum { span: placed_at(span, site) }
    }
}

/// `syn::token::Extern`, the keyword `extern`.
#[verifier::external_type_specification]
pub struct ExExtern(syn::token::Extern);

impl Forge for syn::token::Extern {
    open spec fn draws() -> nat {
        0
    }

    open spec fn is_forgery(&self, span: Span, site: Span, first: nat) -> bool {
        self.span == resolved(span, site)
    }

    fn forge_at(span: Span, site: Span, registry: &mut ForgeRegistry) -> (forged: Self) {
        syn::token::Extern { span: placed_at(span, site) }
    }
}

/// `syn::token::Final`, the keyword `final`.
#[verifier::external_type_specification]
pub struct ExFinal(syn::token::Final);

impl Forge for syn::token::Final {
    open spec fn draws() -> nat {
        0
    }

    open spec fn is_forgery(&self, span: Span, site: Span, first: nat) -> bool {
        self.span == resolved(span, site)
    }

    fn forge_at(span: Span, site: Span, registry: &mut ForgeRegistry) -> (forged: Self) {
        syn::token::Final { span: placed_at(span, site) }
    }
}

/// `syn::token::Fn`, the keyword `fn`.
#[verifier::external_type_specification]
pub struct ExFn(syn::token::Fn);

impl Forge for syn::token::Fn {
    open spec fn draws() -> nat {
        0
    }

    open spec fn is_forgery(&self, span: Span, site: Span, first: nat) -> bool {
        self.span == resolved(span, site)
    }

    fn forge_at(span: Span, site: Span, registry: &mut ForgeRegistry) -> (forged: Self) {
        syn::token::Fn { span: placed_at(span, site) }
    }
}

/// `syn::token::For`, the keyword `for`.
#[verifier::external_type_specification]
pub struct ExFor(syn::token::For);

impl Forge for syn::token::For {
    open spec fn draws() -> nat {
        0
    }

    open spec fn is_forgery(&self, span: Span, site: Span, first: nat) -> bool {
        self.span == resolved(span, site)
    }

    fn forge_at(span: Span, site: Span, registry: &mut ForgeRegistry) -> (forged: Self) {
        syn::token::For { span: placed_at(span, site) }
    }
}

/// `syn::token::If`, the keyword `if`.
#[verifier::external_type_specification]
pub struct ExIf(syn::token::If);

impl Forge for syn::token::If {
    open spec fn draws() -> nat {
        0
    }

    open spec fn is_forgery(&self, span: Span, site: Span, first: nat) -> bool {
        self.span == resolved(span, site)
    }

    fn forge_at(span: Span, site: Span, registry: &mut ForgeRegistry) -> (forged: Self) {
        syn::token::If { span: placed_at(span, site) }
    }
}

/// `syn::token::Impl`, the keyword `impl`.
#[verifier::external_type_specification]
pub struct ExImpl(syn::token::Impl);

impl Forge for syn::token::Impl {
    open spec fn draws() -> nat {
        0
    }

    open spec fn is_forgery(&self, span: Span, site: Span, first: nat) -> bool {
        self.span == resolved(span, site)
    }

    fn forge_at(span: Span, site: Span, registry: &mut ForgeRegistry) -> (forged: Self) {
        syn::token::Impl { span: placed_at(span, site) }
    }
}

/// `syn::token::In`, the keyword `in`.
#[verifier::external_type_specification]
pub struct ExIn(syn::token::In);

impl Forge for syn::token::In {
    open spec fn draws() -> nat {
        0
    }

    open spec fn is_forgery(&self, span: Span, site: Span, first: nat) -> bool {
        self.span == resolved(span, site)
    }

    fn forge_at(span: Span, site: Span, registry: &mut ForgeRegistry) -> (forged: Self) {
        syn::token::In { span: placed_at(span, site) }
    }
}

/// `syn::token::Let`, the keyword `let`.
#[verifier::external_type_specification]
pub struct ExLet(syn::token::Let);

impl Forge for syn::token::Let {
    open spec fn draws() -> nat {
        0
    }

    open spec fn is_forgery(&self, span: Span, site: Span, first: nat) -> bool {
        self.span == resolved(span, site)
    }

    fn forge_at(span: Span, site: Span, registry: &mut ForgeRegistry) -> (forged: Self) {
        syn::token::Let { span: placed_at(span, site) }
    }
}

/// `syn::token::Loop`, the keyword `loop`.
#[verifier::external_type_specification]
pub struct ExLoop(syn::token::Loop);

impl Forge for syn::token::Loop {
    open spec fn draws() -> nat {
        0
    }

    open spec fn is_forgery(&self, span: Span, site: Span, first: nat) -> bool {
        self.span == resolved(span, site)
    }

    fn forge_at(span: Span, site: Span, registry: &mut ForgeRegistry) -> (forged: Self) {
        syn::token::Loop { span: placed_at(span, site) }
    }
}

/// `syn::token::Macro`, the keyword `macro`.
#[verifier::external_type_specification]
pub struct ExMacro(syn::token::Macro);

impl Forge for syn::token::Macro {
    open spec fn draws() -> nat {
        0
    }

    open spec fn is_forgery(&self, span: Span, site: Span, first: nat) -> bool {
        self.span == resolved(span, site)
    }

    fn forge_at(span: Span, site: Span, registry: &mut ForgeRegistry) -> (forged: Self) {
        syn::token::Macro { span: placed_at(span, site) }
    }
}

/// `syn::token::Match`, the keyword `match`.
#[verifier::external_type_specification]
pub struct ExMatch(syn::token::Match);

impl Forge for syn::token::Match {
    open spec fn draws() -> nat {
        0
    }

    open spec fn is_forgery(&self, span: Span, site: Span, first: nat) -> bool {
        self.span == resolved(span, site)
    }

    fn forge_at(span: Span, site: Span, registry: &mut ForgeRegistry) -> (forged: Self) {
        syn::token::Match { span: placed_at(span, site) }
    }
}

/// `syn::token::Mod`, the keyword `mod`.
#[verifier::external_type_specification]
pub struct ExMod(syn::token::Mod);

impl Forge for syn::token::Mod {
    open spec fn draws() -> nat {
        0
    }

    open spec fn is_forgery(&self, span: Span, site: Span, first: nat) -> bool {
        self.span == resolved(span, site)
    }

    fn forge_at(span: Span, site: Span, registry: &mut ForgeRegistry) -> (forged: Self) {
        syn::token::Mod { span: placed_at(span, site) }
    }
}

/// `syn::token::Move`, the keyword `move`.
#[verifier::external_type_specification]
pub struct ExMove(syn::token::Move);

impl Forge for syn::token::Move {
    open spec fn draws() -> nat {
        0
    }

    open spec fn is_forgery(&self, span: Span, site: Span, first: nat) -> bool {
        self.span == resolved(span, site)
    }

    fn forge_at(span: Span, site: Span, registry: &mut ForgeRegistry) -> (forged: Self) {
        syn::token::Move { span: placed_at(span, site) }
    }
}

/// `syn::token::Mut`, the keyword `mut`.
#[verifier::external_type_specification]
pub struct ExMut(syn::token::Mut);

impl Forge for syn::token::Mut {
    open spec fn draws() -> nat {
        0
    }

    open spec fn is_forgery(&self, span: Span, site: Span, first: nat) -> bool {
        self.span == resolved(span, site)
    }

    fn forge_at(span: Span, site: Span, registry: &mut ForgeRegistry) -> (forged: Self) {
        syn::token::Mut { span: placed_at(span, site) }
    }
}

/// `syn::token::Override`, the keyword `override`.
#[verifier::external_type_specification]
pub struct ExOverride(syn::token::Override);

impl Forge for syn::token::Override {
    open spec fn draws() -> nat {
        0
    }

    open spec fn is_forgery(&self, span: Span, site: Span, first: nat) -> bool {
        self.span == resolved(span, site)
    }

    fn forge_at(span: Span, site: Span, registry: &mut ForgeRegistry) -> (forged: Self) {
        syn::token::Override { span: placed_at(span, site) }
    }
}

/// `syn::token::Priv`, the keyword `priv`.
#[verifier::external_type_specification]
pub struct ExPriv(syn::token::Priv);

impl Forge for syn::token::Priv {
    open spec fn draws() -> nat {
        0
    }

    open spec fn is_forgery(&self, span: Span, site: Span, first: nat) -> bool {
        self.span == resolved(span, site)
    }

    fn forge_at(span: Span, site: Span, registry: &mut ForgeRegistry) -> (forged: Self) {
        syn::token::Priv { span: placed_at(span, site) }
    }
}

/// `syn::token::Pub`, the keyword `pub`.
#[verifier::external_type_specification]
pub struct ExPub(syn::token::Pub);

impl Forge for syn::token::Pub {
    open spec fn draws() -> nat {
        0
    }

    open spec fn is_forgery(&self, span: Span, site: Span, first: nat) -> bool {
        self.span == resolved(span, site)
    }

    fn forge_at(span: Span, site: Span, registry: &mut ForgeRegistry) -> (forged: Self) {
        syn::token::Pub { span: placed_at(span, site) }
    }
}

/// `syn::token::Ref`, the keyword `ref`.
#[verifier::external_type_specification]
pub struct ExRef(syn::token::Ref);

impl Forge for syn::token::Ref {
    open spec fn draws() -> nat {
        0
    }

    open spec fn is_forgery(&self, span: Span, site: Span, first: nat) -> bool {
        self.span == resolved(span, site)
    }

    fn forge_at(span: Span, site: Span, registry: &mut ForgeRegistry) -> (forged: Self) {
        syn::token::Ref { span: placed_at(span, site) }
    }
}

/// `syn::token::Return`, the keyword `return`.
#[verifier::external_type_specification]
pub struct ExReturn(syn::token::Return);

impl Forge for syn::token::Return {
    open spec fn draws() -> nat {
        0
    }

    open spec fn is_forgery(&self, span: Span, site: Span, first: nat) -> bool {
        self.span == resolved(span, site)
    }

    fn forge_at(span: Span, site: Span, registry: &mut ForgeRegistry) -> (forged: Self) {
        syn::token::Return { span: placed_at(span, site) }
    }
}

/// `syn::token::SelfType`, the keyword `Self`.
#[verifier::external_type_specification]
pub struct ExSelfType(syn::token::SelfType);

impl Forge for syn::token::SelfType {
    open spec fn draws() -> nat {
        0
    }

    open spec fn is_forgery(&self, span: Span, site: Span, first: nat) -> bool {
        self.span == resolved(span, site)
    }

    fn forge_at(span: Span, site: Span, registry: &mut ForgeRegistry) -> (forged: Self) {
        syn::token::SelfType { span: placed_at(span, site) }
    }
}

/// `syn::token::Static`, the keyword `static`.
#[verifier::external_type_specification]
pub struct ExStatic(syn::token::Static);

impl Forge for syn::token::Static {
    open spec fn draws() -> nat {
        0
    }

    open spec fn is_forgery(&self, span: Span, site: Span, first: nat) -> bool {
        self.span == resolved(span, site)
    }

    fn forge_at(span: Span, site: Span, registry: &mut ForgeRegistry) -> (forged: Self) {
        syn::token::Static { span: placed_at(span, site) }
    }
}

/// `syn::token::Struct`, the keyword `struct`.
#[verifier::external_type_specification]
pub struct ExStruct(syn::token::Struct);

impl Forge for syn::token::Struct {
    open spec fn draws() -> nat {
        0
    }

    open spec fn is_forgery(&self, span: Span, site: Span, first: nat) -> bool {
        self.span == resolved(span, site)
    }

    fn forge_at(span: Span, site: Span, registry: &mut ForgeRegistry) -> (forged: Self) {
        syn::token::Struct { span: placed_at(span, site) }
    }
}

/// `syn::token::Super`, the keyword `super`.
#[verifier::external_type_specification]
pub struct ExSuper(syn::token::Super);

impl Forge for syn::token::Super {
    open spec fn draws() -> nat {
        0
    }

    open spec fn is_forgery(&self, span: Span, site: Span, first: nat) -> bool {
        self.span == resolved(span, site)
    }

    fn forge_at(span: Span, site: Span, registry: &mut ForgeRegistry) -> (forged: Self) {
        syn::token::Super { span: placed_at(span, site) }
    }
}

/// `syn::token::Trait`, the keyword `trait`.
#[verifier::external_type_specification]
pub struct ExTrait(syn::token::Trait);

impl Forge for syn::token::Trait {
    open spec fn draws() -> nat {
        0
    }

    open spec fn is_forgery(&self, span: Span, site: Span, first: nat) -> bool {
        self.span == resolved(span, site)
    }

    fn forge_at(span: Span, site: Span, registry: &mut ForgeRegistry) -> (forged: Self) {
        syn::token::Trait { span: placed_at(span, site) }
    }
}

/// `syn::token::Try`, the keyword `try`.
#[verifier::external_type_specification]
pub struct ExTry(syn::token::Try);

impl Forge for syn::token::Try {
    open spec fn draws() -> nat {
        0
    }

    open spec fn is_forgery(&self, span: Span, site: Span, first: nat) -> bool {
        self.span == resolved(span, site)
    }

    fn forge_at(span: Span, site: Span, registry: &mut ForgeRegistry) -> (forged: Self) {
        syn::token::Try { span: placed_at(span, site) }
    }
}

/// `syn::token::Type`, the keyword `type`.
#[verifier::external_type_specification]
pub struct ExType(syn::token::Type);

impl Forge for syn::token::Type {
    open spec fn draws() -> nat {
        0
    }

    open spec fn is_forgery(&self, span: Span, site: Span, first: nat) -> bool {
        self.span == resolved(span, site)
    }

    fn forge_at(span: Span, site: Span, registry: &mut ForgeRegistry) -> (forged: Self) {
        syn::token::Type { span: placed_at(span, site) }
    }
}

/// `syn::token::Typeof`, the keyword `typeof`.
#[verifier::external_type_specification]
pub struct ExTypeof(syn::token::Typeof);

impl Forge for syn::token::Typeof {
    open spec fn draws() -> nat {
        0
    }

    open spec fn is_forgery(&self, span: Span, site: Span, first: nat) -> bool {
        self.span == resolved(span, site)
    }

    fn forge_at(span: Span, site: Span, registry: &mut ForgeRegistry) -> (forged: Self) {
        syn::token::Typeof { span: placed_at(span, site) }
    }
}

/// `syn::token::Union`, the keyword `union`.
#[verifier::external_type_specification]
pub struct ExUnion(syn::token::Union);

impl Forge for syn::token::Union {
    open spec fn draws() -> nat {
        0
    }

    open spec fn is_forgery(&self, span: Span, site: Span, first: nat) -> bool {
        self.span == resolved(span, site)
    }

    fn forge_at(span: Span, site: Span, registry: &mut ForgeRegistry) -> (forged: Self) {
        syn::token::Union { span: placed_at(span, site) }
    }
}

/// `syn::token::Unsafe`, the keyword `unsafe`.
#[verifier::external_type_specification]
pub struct ExUnsafe(syn::token::Unsafe);

impl Forge for syn::token::Unsafe {
    open spec fn draws() -> nat {
        0
    }

    open spec fn is_forgery(&self, span: Span, site: Span, first: nat) -> bool {
        self.span == resolved(span, site)
    }

    fn forge_at(span: Span, site: Span, registry: &mut ForgeRegistry) -> (forged: Self) {
        syn::token::Unsafe { span: placed_at(span, site) }
    }
}

/// `syn::token::Unsized`, the keyword `unsized`.
#[verifier::external_type_specification]
pub struct ExUnsized(syn::token::Unsized);

impl Forge for syn::token::Unsized {
    open spec fn draws() -> nat {
        0
    }

    open spec fn is_forgery(&self, span: Span, site: Span, first: nat) -> bool {
        self.span == resolved(span, site)
    }

    fn forge_at(span: Span, site: Span, registry: &mut ForgeRegistry) -> (forged: Self) {
        syn::token::Unsized { span: placed_at(span, site) }
    }
}

/// `syn::token::Use`, the keyword `use`.
#[verifier::external_type_specification]
pub struct ExUse(syn::token::Use);

impl Forge for syn::token::Use {
    open spec fn draws() -> nat {
        0
    }

    open spec fn is_forgery(&self, span: Span, site: Span, first: nat) -> bool {
        self.span == resolved(span, site)
    }

    fn forge_at(span: Span, site: Span, registry: &mut ForgeRegistry) -> (forged: Self) {
        syn::token::Use { span: placed_at(span, site) }
    }
}

/// `syn::token::Virtual`, the keyword `virtual`.
#[verifier::external_type_specification]
pub struct ExVirtual(syn::token::Virtual);

impl Forge for syn::token::Virtual {
    open spec fn draws() -> nat {
        0
    }

    open spec fn is_forgery(&self, span: Span, site: Span, first: nat) -> bool {
        self.span == resolved(span, site)
    }

    fn forge_at(span: Span, site: Span, registry: &mut ForgeRegistry) -> (forged: Self) {
        syn::token::Virtual { span: placed_at(span, site) }
    }
}

/// `syn::token::Where`, the keyword `where`.
#[verifier::external_type_specification]
pub struct ExWhere(syn::token::Where);

impl Forge for syn::token::Where {
    open spec fn draws() -> nat {
        0
    }

    open spec fn is_forgery(&self, span: Span, site: Span, first: nat) -> bool {
        self.span == resolved(span, site)
    }

    fn forge_at(span: Span, site: Span, registry: &mut ForgeRegistry) -> (forged: Self) {
        syn::token::Where { span: placed_at(span, site) }
    }
}

/// `syn::token::While`, the keyword `while`.
#[verifier::external_type_specification]
pub struct ExWhile(syn::token::While);

impl Forge for syn::token::While {
    open spec fn draws() -> nat {
        0
    }

    open spec fn is_forgery(&self, span: Span, site: Span, first: nat) -> bool {
        self.span == resolved(span, site)
    }

    fn forge_at(span: Span, site: Span, registry: &mut ForgeRegistry) -> (forged: Self) {
        syn::token::While { span: placed_at(span, site) }
    }
}

/// `syn::token::Yield`, the keyword `yield`.
#[verifier::external_type_specification]
pub struct ExYield(syn::token::Yield);

impl Forge for syn::token::Yield {
    open spec fn draws() -> nat {
        0
    }

    open spec fn is_forgery(&self, span: Span, site: Span, first: nat) -> bool {
        self.span == resolved(span, site)
    }

    fn forge_at(span: Span, site: Span, registry: &mut ForgeRegistry) -> (forged: Self) {
        syn::token::Yield { span: placed_at(span, site) }
    }
}

} // verus!
