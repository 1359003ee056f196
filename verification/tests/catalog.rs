use proc_macro2::{LineColumn, Span, TokenStream, TokenTree};
use salve::{Forge, ForgeRegistry};
use std::str::FromStr;

fn span_of_third_token(source: &str) -> Span {
    let stream = TokenStream::from_str(source).unwrap();
    let trees: Vec<TokenTree> = stream.into_iter().collect();
    trees[2].span()
}

#[test]
fn every_keyword_and_delimiter_is_forged_in_place() {
    let span = span_of_third_token("one two three four");
    let mut registry = ForgeRegistry::new();
    let mut starts: Vec<LineColumn> = Vec::new();
    starts.push(syn::token::Abstract::forge(span, &mut registry).span.start());
    starts.push(syn::token::As::forge(span, &mut registry).span.start());
    starts.push(syn::token::Async::forge(span, &mut registry).span.start());
    starts.push(syn::token::Auto::forge(span, &mut registry).span.start());
    starts.push(syn::token::Await::forge(span, &mut registry).span.start());
    starts.push(syn::token::Become::forge(span, &mut registry).span.start());
    starts.push(syn::token::Box::forge(span, &mut registry).span.start());
    starts.push(syn::token::Brace::forge(span, &mut registry).span.start());
    starts.push(syn::token::Bracket::forge(span, &mut registry).span.start());
    starts.push(syn::token::Break::forge(span, &mut registry).span.start());
    starts.push(syn::token::Const::forge(span, &mut registry).span.start());
    starts.push(syn::token::Continue::forge(span, &mut registry).span.start());
    starts.push(syn::token::Crate::forge(span, &mut registry).span.start());
    starts.push(syn::token::Default::forge(span, &mut registry).span.start());
    starts.push(syn::token::Do::forge(span, &mut registry).span.start());
    starts.push(syn::token::Dyn::forge(span, &mut registry).span.start());
    starts.push(syn::token::Else::forge(span, &mut registry).span.start());
    starts.push(syn::token::Enum::forge(span, &mut registry).span.start());
    starts.push(syn::token::Extern::forge(span, &mut registry).span.start());
    starts.push(syn::token::Final::forge(span, &mut registry).span.start());
    starts.push(syn::token::Fn::forge(span, &mut registry).span.start());
    starts.push(syn::token::For::forge(span, &mut registry).span.start());
    starts.push(syn::token::Group::forge(span, &mut registry).span.start());
    starts.push(syn::token::If::forge(span, &mut registry).span.start());
    starts.push(syn::token::Impl::forge(span, &mut registry).span.start());
    starts.push(syn::token::In::forge(span, &mut registry).span.start());
    starts.push(syn::token::Let::forge(span, &mut registry).span.start());
    starts.push(syn::token::Loop::forge(span, &mut registry).span.start());
    starts.push(syn::token::Macro::forge(span, &mut registry).span.start());
    starts.push(syn::token::Match::forge(span, &mut registry).span.start());
    starts.push(syn::token::Mod::forge(span, &mut registry).span.start());
    starts.push(syn::token::Move::forge(span, &mut registry).span.start());
    starts.push(syn::token::Mut::forge(span, &mut registry).span.start());
    starts.push(syn::token::Override::forge(span, &mut registry).span.start());
    starts.push(syn::token::Paren::forge(span, &mut registry).span.start());
    starts.push(syn::token::Priv::forge(span, &mut registry).span.start());
    starts.push(syn::token::Pub::forge(span, &mut registry).span.start());
    starts.push(syn::token::Ref::forge(span, &mut registry).span.start());
    starts.push(syn::token::Return::forge(span, &mut registry).span.start());
    starts.push(syn::token::SelfType::forge(span, &mut registry).span.start());
    starts.push(syn::token::Static::forge(span, &mut registry).span.start());
    starts.push(syn::token::Struct::forge(span, &mut registry).span.start());
    starts.push(syn::token::Super::forge(span, &mut registry).span.start());
    starts.push(syn::token::Trait::forge(span, &mut registry).span.start());
    starts.push(syn::token::Try::forge(span, &mut registry).span.start());
    starts.push(syn::token::Type::forge(span, &mut registry).span.start());
    starts.push(syn::token::Typeof::forge(span, &mut registry).span.start());
    starts.push(syn::token::Union::forge(span, &mut registry).span.start());
    starts.push(syn::token::Unsafe::forge(span, &mut registry).span.start());
    starts.push(syn::token::Unsized::forge(span, &mut registry).span.start());
    starts.push(syn::token::Use::forge(span, &mut registry).span.start());
    starts.push(syn::token::Virtual::forge(span, &mut registry).span.start());
    starts.push(syn::token::Where::forge(span, &mut registry).span.start());
    starts.push(syn::token::While::forge(span, &mut registry).span.start());
    starts.push(syn::token::Yield::forge(span, &mut registry).span.start());
    assert_eq!(starts.len(), 55);
    for start in starts {
        assert_eq!(start, span.start());
        assert_eq!(start.column, 8);
    }
    assert_eq!(registry.remaining(), usize::MAX);
}

#[test]
fn every_punctuation_is_forged_in_place() {
    let span = span_of_third_token("one two three four");
    let mut registry = ForgeRegistry::new();
    let mut starts: Vec<LineColumn> = Vec::new();
    let mut slots: usize = 0;
    for placed in syn::token::Add::forge(span, &mut registry).spans {
        starts.push(placed.start());
        slots += 1;
    }
    for placed in syn::token::AddEq::forge(span, &mut registry).spans {
        starts.push(placed.start());
        slots += 1;
    }
    for placed in syn::token::And::forge(span, &mut registry).spans {
        starts.push(placed.start());
        slots += 1;
    }
    for placed in syn::token::AndAnd::forge(span, &mut registry).spans {
        starts.push(placed.start());
        slots += 1;
    }
    for placed in syn::token::AndEq::forge(span, &mut registry).spans {
        starts.push(placed.start());
        slots += 1;
    }
    for placed in syn::token::At::forge(span, &mut registry).spans {
        starts.push(placed.start());
        slots += 1;
    }
    for placed in syn::token::Bang::forge(span, &mut registry).spans {
        starts.push(placed.start());
        slots += 1;
    }
    for placed in syn::token::Caret::forge(span, &mut registry).spans {
        starts.push(placed.start());
        slots += 1;
    }
    for placed in syn::token::CaretEq::forge(span, &mut registry).spans {
        starts.push(placed.start());
        slots += 1;
    }
    for placed in syn::token::Colon::forge(span, &mut registry).spans {
        starts.push(placed.start());
        slots += 1;
    }
    for placed in syn::token::Colon2::forge(span, &mut registry).spans {
        starts.push(placed.start());
        slots += 1;
    }
    for placed in syn::token::Comma::forge(span, &mut registry).spans {
        starts.push(placed.start());
        slots += 1;
    }
    for placed in syn::token::Div::forge(span, &mut registry).spans {
        starts.push(placed.start());
        slots += 1;
    }
    for placed in syn::token::DivEq::forge(span, &mut registry).spans {
        starts.push(placed.start());
        slots += 1;
    }
    for placed in syn::token::Dollar::forge(span, &mut registry).spans {
        starts.push(placed.start());
        slots += 1;
    }
    for placed in syn::token::Dot::forge(span, &mut registry).spans {
        starts.push(placed.start());
        slots += 1;
    }
    for placed in syn::token::Dot2::forge(span, &mut registry).spans {
        starts.push(placed.start());
        slots += 1;
    }
    for placed in syn::token::Dot3::forge(span, &mut registry).spans {
        starts.push(placed.start());
        slots += 1;
    }
    for placed in syn::token::DotDotEq::forge(span, &mut registry).spans {
        starts.push(placed.start());
        slots += 1;
    }
    for placed in syn::token::Eq::forge(span, &mut registry).spans {
        starts.push(placed.start());
        slots += 1;
    }
    for placed in syn::token::EqEq::forge(span, &mut registry).spans {
        starts.push(placed.start());
        slots += 1;
    }
    for placed in syn::token::FatArrow::forge(span, &mut registry).spans {
        starts.push(placed.start());
        slots += 1;
    }
    for placed in syn::token::Ge::forge(span, &mut registry).spans {
        starts.push(placed.start());
        slots += 1;
    }
    for placed in syn::token::Gt::forge(span, &mut registry).spans {
        starts.push(placed.start());
        slots += 1;
    }
    for placed in syn::token::LArrow::forge(span, &mut registry).spans {
        starts.push(placed.start());
        slots += 1;
    }
    for placed in syn::token::Le::forge(span, &mut registry).spans {
        starts.push(placed.start());
        slots += 1;
    }
    for placed in syn::token::Lt::forge(span, &mut registry).spans {
        starts.push(placed.start());
        slots += 1;
    }
    for placed in syn::token::MulEq::forge(span, &mut registry).spans {
        starts.push(placed.start());
        slots += 1;
    }
    for placed in syn::token::Ne::forge(span, &mut registry).spans {
        starts.push(placed.start());
        slots += 1;
    }
    for placed in syn::token::Or::forge(span, &mut registry).spans {
        starts.push(placed.start());
        slots += 1;
    }
    for placed in syn::token::OrEq::forge(span, &mut registry).spans {
        starts.push(placed.start());
        slots += 1;
    }
    for placed in syn::token::OrOr::forge(span, &mut registry).spans {
        starts.push(placed.start());
        slots += 1;
    }
    for placed in syn::token::Pound::forge(span, &mut registry).spans {
        starts.push(placed.start());
        slots += 1;
    }
    for placed in syn::token::Question::forge(span, &mut registry).spans {
        starts.push(placed.start());
        slots += 1;
    }
    for placed in syn::token::RArrow::forge(span, &mut registry).spans {
        starts.push(placed.start());
        slots += 1;
    }
    for placed in syn::token::Rem::forge(span, &mut registry).spans {
        starts.push(placed.start());
        slots += 1;
    }
    for placed in syn::token::RemEq::forge(span, &mut registry).spans {
        starts.push(placed.start());
        slots += 1;
    }
    for placed in syn::token::Semi::forge(span, &mut registry).spans {
        starts.push(placed.start());
        slots += 1;
    }
    for placed in syn::token::Shl::forge(span, &mut registry).spans {
        starts.push(placed.start());
        slots += 1;
    }
    for placed in syn::token::ShlEq::forge(span, &mut registry).spans {
        starts.push(placed.start());
        slots += 1;
    }
    for placed in syn::token::Shr::forge(span, &mut registry).spans {
        starts.push(placed.start());
        slots += 1;
    }
    for placed in syn::token::ShrEq::forge(span, &mut registry).spans {
        starts.push(placed.start());
        slots += 1;
    }
    for placed in syn::token::Star::forge(span, &mut registry).spans {
        starts.push(placed.start());
        slots += 1;
    }
    for placed in syn::token::Sub::forge(span, &mut registry).spans {
        starts.push(placed.start());
        slots += 1;
    }
    for placed in syn::token::SubEq::forge(span, &mut registry).spans {
        starts.push(placed.start());
        slots += 1;
    }
    for placed in syn::token::Tilde::forge(span, &mut registry).spans {
        starts.push(placed.start());
        slots += 1;
    }
    for placed in syn::token::Underscore::forge(span, &mut registry).spans {
        starts.push(placed.start());
        slots += 1;
    }
    assert_eq!(slots, 76);
    for start in starts {
        assert_eq!(start, span.start());
        assert_eq!(start.column, 8);
    }
    assert_eq!(registry.remaining(), usize::MAX);
}
