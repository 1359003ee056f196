//! Parsing from a token stream, with a forgery wherever a parse fails.

use crate::forge::Forge;
use crate::registry::ForgeRegistry;
use proc_macro2::{Span, TokenTree};
use syn::parse::{Parse, ParseBuffer};
use syn::Error;
use this_is_fine::Fine;
use vstd::prelude::*;

verus! {

/// `syn::parse::ParseBuffer`, a cursor that moves forward over the token trees
/// of a stream.
#[verifier::external_type_specification]
#[verifier::external_body]
pub struct ExParseBuffer<'a>(ParseBuffer<'a>);

/// `syn::Error`, one or more messages, each with the span it is about.
#[verifier::external_type_specification]
#[verifier::external_body]
pub struct ExError(Error);

/// `proc_macro2::TokenTree`, one token or one delimited group of tokens.
#[verifier::external_type_specification]
#[verifier::external_body]
pub struct ExTokenTree(TokenTree);

/// The one handle through which a parse advances its token stream.
///
/// `syn` advances a stream through a shared reference, so what a stream still
/// holds is a fact of the moment, and no fact of the stream as a value. The
/// cursor holds the stream and makes every advance an exclusive borrow of
/// itself: what is still to come is a fact of the cursor, which changes only
/// where the cursor is borrowed to change.
#[verifier::external_body]
pub struct TokenCursor<'a> {
    stream: &'a ParseBuffer<'a>,
}

/// The token trees that `cursor` has yet to hand out, in their order: what
/// parsing one `TokenTree` after the other from its stream would give.
pub uninterp spec fn pending(cursor: TokenCursor) -> Seq<TokenTree>;

/// The span at which `cursor` stands, as `ParseBuffer::span` gives it for the
/// stream of the cursor.
pub uninterp spec fn position(cursor: TokenCursor) -> Span;

impl<'a> TokenCursor<'a> {
    /// The token trees that are still to come.
    pub open spec fn remaining(&self) -> Seq<TokenTree> {
        pending(*self)
    }

    /// The span at which the cursor stands: that of the next token tree, for
    /// a group that of its opening delimiter, and that of the whole stream
    /// where no token tree is left.
    pub open spec fn location(&self) -> Span {
        position(*self)
    }

    /// A cursor on `stream`, which stands where the stream stands.
    ///
    /// One parse owns one stream: while the cursor lives, the stream is to be
    /// advanced through this cursor and through nothing else, no other cursor
    /// either. Nothing is claimed of what the new cursor has before it; it is
    /// learned by asking the cursor.
    #[verifier::external_body]
    pub fn new(stream: &'a ParseBuffer<'a>) -> (cursor: Self) {
        TokenCursor { stream }
    }

    /// `ParseBuffer::parse`, which runs the `Parse` impl of `T` on the stream.
    /// What that impl returns, and how far it has moved the stream when it
    /// returns, is its own affair: nothing is claimed of either.
    #[verifier::external_body]
    fn attempt<T: Parse>(&mut self) -> (attempt: Result<T, Error>) {
        self.stream.parse::<T>()
    }

    /// `ParseBuffer::span`: the span of the next token tree, for a group the
    /// span of its opening delimiter, and the span of the stream's scope at
    /// its end. The stream stays where it is.
    #[verifier::external_body]
    fn span(&self) -> (span: Span)
        ensures
            span == position(*self),
    {
        self.stream.span()
    }

    /// `ParseBuffer::is_empty`: whether no token tree is left.
    #[verifier::external_body]
    fn at_end(&self) -> (at_end: bool)
        ensures
            at_end == (pending(*self).len() == 0),
    {
        self.stream.is_empty()
    }

    /// `ParseBuffer::parse` for `TokenTree`, whose `Parse` impl is `syn`'s own:
    /// it hands out the next token tree and moves the stream past it, or it
    /// fails at the end of the stream and leaves the stream there.
    #[verifier::external_body]
    fn take_tree(&mut self) -> (taken: Result<TokenTree, Error>)
        ensures
            taken is Ok <==> pending(*old(self)).len() > 0,
            taken is Ok ==> taken->Ok_0 == pending(*old(self))[0],
            taken is Ok ==> pending(*final(self)) == pending(*old(self)).drop_first(),
            taken is Err ==> pending(*final(self)) == pending(*old(self)),
    {
        self.stream.parse::<TokenTree>()
    }

    /// Whether no token tree is left.
    pub fn is_exhausted(&self) -> (exhausted: bool)
        ensures
            exhausted == (self.remaining().len() == 0),
    {
        self.at_end()
    }

    /// Settles an attempt to parse a `T` that has just been made at this
    /// cursor: the parsed value stands, and a failed attempt is made good by a
    /// forgery for the place where the cursor stands.
    ///
    /// Every attempt is settled: there is a value of `T` in the outcome
    /// whatever the attempt came to. The outcome carries the error of the
    /// attempt exactly when the attempt failed, the registry is drawn from
    /// only for a forgery, and no token is taken from the stream either way.
    /// Room in the registry is asked for a failed attempt only.
    pub fn or_forge<T: Forge>(
        &mut self,
        attempt: Result<T, Error>,
        registry: &mut ForgeRegistry,
    ) -> (fine: Fine<T, Error>)
        requires
            attempt is Err ==> old(registry).has_room(T::draws()),
        ensures
            settles(attempt, fine, old(self).location(), old(registry).issued() as nat),
            final(registry).issued() == old(registry).issued() + drawn::<T>(fine),
            final(self).remaining() == old(self).remaining(),
            final(self).location() == old(self).location(),
    {
        match attempt {
            Ok(parsed) => (parsed, Ok(())),
            Err(error) => (T::forge(self.span(), registry), Err(error)),
        }
    }

    /// Settles an attempt as `or_forge` does and, where it had failed and a
    /// token tree is left, drops that one token tree, so that the next attempt
    /// does not trip over it again.
    pub fn or_forge_and_skip_tt<T: Forge>(
        &mut self,
        attempt: Result<T, Error>,
        registry: &mut ForgeRegistry,
    ) -> (fine: Fine<T, Error>)
        requires
            attempt is Err ==> old(registry).has_room(T::draws()),
        ensures
            settles(attempt, fine, old(self).location(), old(registry).issued() as nat),
            final(registry).issued() == old(registry).issued() + drawn::<T>(fine),
            final(self).remaining() == skipped(old(self).remaining(), attempt is Err),
    {
        let fine = self.or_forge(attempt, registry);
        if fine.1.is_err() && !self.at_end() {
            let _ = self.take_tree();
        }
        fine
    }
}

/// Nothing but a registry that has run out keeps an attempt from being
/// settled: `or_forge` and `or_forge_and_skip_tt` take every attempt, but for
/// a failed one whose forgery draws more numbers than the registry has left.
/// For an identifier, that is a failed attempt at an exhausted registry.
pub proof fn lemma_settled_unless_exhausted<T: Forge>(
    attempt: Result<T, Error>,
    registry: ForgeRegistry,
)
    ensures
        (attempt is Err ==> registry.has_room(T::draws())) <==> !(attempt is Err && usize::MAX
            - registry.issued() < T::draws()),
        T::draws() == 1 ==> (registry.has_room(T::draws()) <==> registry.issued() != usize::MAX),
        T::draws() == 0 ==> registry.has_room(T::draws()),
{
    registry.lemma_room_unless_exhausted();
}

/// Whether `forged` is a forgery for `location`, resolved at some site, that
/// is made when the registry has handed out `first` numbers.
pub open spec fn is_forged<T: Forge>(forged: T, location: Span, first: nat) -> bool {
    exists|site: Span| forged.is_forgery(location, site, first)
}

/// Whether `fine` is how `attempt` is settled at `location` when the registry
/// has handed out `first` numbers: the parsed value and no error, or a forgery
/// for `location` and the error of the attempt.
pub open spec fn settles<T: Forge>(
    attempt: Result<T, Error>,
    fine: Fine<T, Error>,
    location: Span,
    first: nat,
) -> bool {
    match attempt {
        Ok(parsed) => fine == (parsed, Ok::<(), Error>(())),
        Err(error) => is_forged(fine.0, location, first) && fine.1 == Err::<(), Error>(error),
    }
}

/// How many numbers the outcome `fine` has cost the registry: those of one
/// forgery where it carries an error, none where it does not.
pub open spec fn drawn<T: Forge>(fine: Fine<T, Error>) -> nat {
    if fine.1 is Err {
        T::draws()
    } else {
        0
    }
}

/// What is left of `remaining` once a failure has been recovered from: all of
/// it after a success, all but the first token tree after a failure.
pub open spec fn skipped(remaining: Seq<TokenTree>, failed: bool) -> Seq<TokenTree> {
    if failed && remaining.len() > 0 {
        remaining.drop_first()
    } else {
        remaining
    }
}

/// Extends a token cursor with parsing that cannot fail.
pub trait ParseOrForgeExt {
    /// Parses a `T` or, if that fails, forges it for the place where the
    /// parse has come to a halt.
    ///
    /// The result is fine either way, but carries an error iff `T` was
    /// forged.
    ///
    /// Whether the parse fails is not known before the call, so room in the
    /// registry is asked for every call. A caller who cannot promise room
    /// makes the attempt first and hands it to
    /// [`or_forge`](TokenCursor::or_forge), which asks for room only where
    /// the attempt has failed.
    fn parse_or_forge<T: Parse + Forge>(
        &mut self,
        registry: &mut ForgeRegistry,
    ) -> (fine: Fine<T, Error>)
        requires
            old(registry).has_room(T::draws()),
        ensures
            fine.1 is Err ==> exists|span: Span|
                is_forged(fine.0, span, old(registry).issued() as nat),
            final(registry).issued() == old(registry).issued() + drawn::<T>(fine),
    ;

    /// Parses a `T` or, if that fails, forges it for the place where the
    /// parse has come to a halt.
    ///
    /// The result is fine either way, but carries an error iff `T` was
    /// forged.
    ///
    /// Additionally, iff `T` was forged, one token tree is consumed, iff the
    /// input was not yet empty.
    ///
    /// Whether the parse fails is not known before the call, so room in the
    /// registry is asked for every call. A caller who cannot promise room
    /// makes the attempt first and hands it to
    /// [`or_forge_and_skip_tt`](TokenCursor::or_forge_and_skip_tt), which
    /// asks for room only where the attempt has failed.
    fn parse_or_forge_and_skip_tt<T: Parse + Forge>(
        &mut self,
        registry: &mut ForgeRegistry,
    ) -> (fine: Fine<T, Error>)
        requires
            old(registry).has_room(T::draws()),
        ensures
            fine.1 is Err ==> exists|span: Span|
                is_forged(fine.0, span, old(registry).issued() as nat),
            final(registry).issued() == old(registry).issued() + drawn::<T>(fine),
    ;
}

impl<'a> ParseOrForgeExt for TokenCursor<'a> {
    /// The attempt is made by the `Parse` impl of `T`, and settled by
    /// [`or_forge`](TokenCursor::or_forge). A forgery is made for the place
    /// where the attempt has left the cursor, and the cursor is left there.
    fn parse_or_forge<T: Parse + Forge>(
        &mut self,
        registry: &mut ForgeRegistry,
    ) -> (fine: Fine<T, Error>)
        ensures
            fine.1 is Err ==> is_forged(
                fine.0,
                final(self).location(),
                old(registry).issued() as nat,
            ),
    {
        let attempt = self.attempt::<T>();
        self.or_forge(attempt, registry)
    }

    /// The attempt is made by the `Parse` impl of `T`, and settled by
    /// [`or_forge_and_skip_tt`](TokenCursor::or_forge_and_skip_tt).
    fn parse_or_forge_and_skip_tt<T: Parse + Forge>(
        &mut self,
        registry: &mut ForgeRegistry,
    ) -> (fine: Fine<T, Error>) {
        let attempt = self.attempt::<T>();
        self.or_forge_and_skip_tt(attempt, registry)
    }
}

} // verus!
