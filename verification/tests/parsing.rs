use proc_macro2::{Ident, Span, TokenStream};
use salve::{ForgeRegistry, ParseOrForgeExt, TokenCursor};
use syn::parse::{ParseStream, Parser};
use syn::token::Comma;
use syn::Error;

/// What is left of a stream, written out. It empties the stream.
fn rest_of(input: ParseStream) -> String {
    input.parse::<TokenStream>().unwrap().to_string()
}

#[test]
fn a_well_formed_field_is_parsed_and_carries_no_error() {
    let mut registry = ForgeRegistry::new();
    let parser = |input: ParseStream| -> syn::Result<()> {
        let mut cursor = TokenCursor::new(input);
        let (ident, outcome) = cursor.parse_or_forge::<Ident>(&mut registry);
        assert_eq!(ident.to_string(), "real");
        assert!(outcome.is_ok());
        assert!(cursor.is_exhausted());
        Ok(())
    };
    parser.parse_str("real").unwrap();
    assert_eq!(registry.remaining(), usize::MAX);
}

#[test]
fn a_malformed_field_is_forged_and_carries_the_error() {
    let mut registry = ForgeRegistry::new();
    let parser = |input: ParseStream| -> syn::Result<()> {
        let mut cursor = TokenCursor::new(input);
        let (ident, outcome) = cursor.parse_or_forge::<Ident>(&mut registry);
        assert_eq!(ident.to_string(), "__fallback_ident_0");
        assert_eq!(outcome.unwrap_err().to_string(), "expected identifier");
        assert_eq!(rest_of(input), ", rest");
        Ok(())
    };
    parser.parse_str(", rest").unwrap();
    assert_eq!(registry.remaining(), usize::MAX - 1);
}

#[test]
fn a_failed_parse_takes_nothing_from_the_stream() {
    let mut registry = ForgeRegistry::new();
    let parser = |input: ParseStream| -> syn::Result<()> {
        let before = input.fork().parse::<TokenStream>().unwrap().to_string();
        let mut cursor = TokenCursor::new(input);
        let (_, outcome) = cursor.parse_or_forge::<Ident>(&mut registry);
        assert!(outcome.is_err());
        assert!(!cursor.is_exhausted());
        assert_eq!(rest_of(input), before);
        assert_eq!(before, "1 + two");
        Ok(())
    };
    parser.parse_str("1 + two").unwrap();
}

#[test]
fn a_failed_parse_with_skip_takes_exactly_one_token_tree() {
    let mut registry = ForgeRegistry::new();
    let parser = |input: ParseStream| -> syn::Result<()> {
        let mut cursor = TokenCursor::new(input);
        let (ident, outcome) = cursor.parse_or_forge_and_skip_tt::<Ident>(&mut registry);
        assert_eq!(ident.to_string(), "__fallback_ident_0");
        assert!(outcome.is_err());
        assert_eq!(rest_of(input), "+ two");
        Ok(())
    };
    parser.parse_str("1 + two").unwrap();
}

#[test]
fn a_skipped_group_counts_as_one_token_tree() {
    let mut registry = ForgeRegistry::new();
    let parser = |input: ParseStream| -> syn::Result<()> {
        let mut cursor = TokenCursor::new(input);
        let (_, outcome) = cursor.parse_or_forge_and_skip_tt::<Ident>(&mut registry);
        assert!(outcome.is_err());
        let (ident, outcome) = cursor.parse_or_forge_and_skip_tt::<Ident>(&mut registry);
        assert_eq!(ident.to_string(), "after");
        assert!(outcome.is_ok());
        assert!(cursor.is_exhausted());
        Ok(())
    };
    parser.parse_str("(a, b, c) after").unwrap();
    assert_eq!(registry.remaining(), usize::MAX - 1);
}

#[test]
fn a_successful_parse_with_skip_takes_only_what_it_parsed() {
    let mut registry = ForgeRegistry::new();
    let parser = |input: ParseStream| -> syn::Result<()> {
        let mut cursor = TokenCursor::new(input);
        let (ident, outcome) = cursor.parse_or_forge_and_skip_tt::<Ident>(&mut registry);
        assert_eq!(ident.to_string(), "one");
        assert!(outcome.is_ok());
        assert_eq!(rest_of(input), "two three");
        Ok(())
    };
    parser.parse_str("one two three").unwrap();
    assert_eq!(registry.remaining(), usize::MAX);
}

#[test]
fn a_failed_parse_with_skip_at_the_end_leaves_the_stream_alone() {
    let mut registry = ForgeRegistry::new();
    let parser = |input: ParseStream| -> syn::Result<()> {
        let mut cursor = TokenCursor::new(input);
        assert!(cursor.is_exhausted());
        let (ident, outcome) = cursor.parse_or_forge_and_skip_tt::<Ident>(&mut registry);
        assert_eq!(ident.to_string(), "__fallback_ident_0");
        assert!(outcome.is_err());
        assert!(cursor.is_exhausted());
        assert!(input.is_empty());
        Ok(())
    };
    parser.parse_str("").unwrap();
}

#[test]
fn a_forgery_stands_where_the_parse_failed() {
    let mut registry = ForgeRegistry::new();
    let parser = |input: ParseStream| -> syn::Result<()> {
        let mut cursor = TokenCursor::new(input);
        let (first, outcome) = cursor.parse_or_forge::<Ident>(&mut registry);
        assert!(outcome.is_ok());
        assert_eq!(first.to_string(), "name");
        let (forged, outcome) = cursor.parse_or_forge::<Ident>(&mut registry);
        assert!(outcome.is_err());
        let offending = input.span();
        assert_eq!(forged.span().start(), offending.start());
        assert_eq!(forged.span().end(), offending.end());
        assert_eq!(forged.span().start().line, 1);
        assert_eq!(forged.span().start().column, 6);
        assert_eq!(rest_of(input), "= 4");
        Ok(())
    };
    parser.parse_str("name  = 4").unwrap();
}

#[test]
fn a_forged_token_stands_where_the_parse_failed() {
    let mut registry = ForgeRegistry::new();
    let parser = |input: ParseStream| -> syn::Result<()> {
        let mut cursor = TokenCursor::new(input);
        let (comma, outcome) = cursor.parse_or_forge::<Comma>(&mut registry);
        assert_eq!(outcome.unwrap_err().to_string(), "expected `,`");
        assert_eq!(comma.spans[0].start(), input.span().start());
        assert_eq!(comma.spans[0].start().column, 3);
        assert_eq!(rest_of(input), "word");
        Ok(())
    };
    parser.parse_str("   word").unwrap();
    assert_eq!(registry.remaining(), usize::MAX);
}

#[test]
fn settling_a_parsed_value_keeps_it() {
    let mut registry = ForgeRegistry::new();
    let parser = |input: ParseStream| -> syn::Result<()> {
        let mut cursor = TokenCursor::new(input);
        let parsed = Ident::new("given", Span::call_site());
        let (ident, outcome) = cursor.or_forge::<Ident>(Ok(parsed), &mut registry);
        assert_eq!(ident.to_string(), "given");
        assert!(outcome.is_ok());
        let again = Ident::new("given_too", Span::call_site());
        let (ident, outcome) = cursor.or_forge_and_skip_tt::<Ident>(Ok(again), &mut registry);
        assert_eq!(ident.to_string(), "given_too");
        assert!(outcome.is_ok());
        assert_eq!(rest_of(input), "a b");
        Ok(())
    };
    parser.parse_str("a b").unwrap();
    assert_eq!(registry.remaining(), usize::MAX);
}

#[test]
fn settling_a_failure_hands_back_its_error() {
    let mut registry = ForgeRegistry::starting_at(5);
    let parser = |input: ParseStream| -> syn::Result<()> {
        let mut cursor = TokenCursor::new(input);
        let failure = Error::new(Span::call_site(), "no such field");
        let (ident, outcome) = cursor.or_forge::<Ident>(Err(failure), &mut registry);
        assert_eq!(ident.to_string(), "__fallback_ident_5");
        assert_eq!(outcome.unwrap_err().to_string(), "no such field");
        assert!(!cursor.is_exhausted());
        let failure = Error::new(Span::call_site(), "nor this one");
        let (ident, outcome) = cursor.or_forge_and_skip_tt::<Ident>(Err(failure), &mut registry);
        assert_eq!(ident.to_string(), "__fallback_ident_6");
        assert_eq!(outcome.unwrap_err().to_string(), "nor this one");
        assert_eq!(rest_of(input), "b");
        Ok(())
    };
    parser.parse_str("a b").unwrap();
    assert_eq!(registry.remaining(), usize::MAX - 7);
}

#[test]
fn a_triple_is_parsed_around_two_missing_identifiers() {
    let mut registry = ForgeRegistry::new();
    let mut errors: Vec<Error> = Vec::new();
    let parser = |input: ParseStream| -> syn::Result<(Ident, Comma, Ident)> {
        let mut cursor = TokenCursor::new(input);
        let (first, outcome) = cursor.parse_or_forge::<Ident>(&mut registry);
        errors.extend(outcome.err());
        let (comma, outcome) = cursor.parse_or_forge::<Comma>(&mut registry);
        errors.extend(outcome.err());
        let (second, outcome) = cursor.parse_or_forge::<Ident>(&mut registry);
        errors.extend(outcome.err());
        if !cursor.is_exhausted() {
            errors.push(Error::new(input.span(), "Unexpected tokens."));
        }
        Ok((first, comma, second))
    };
    let (first, comma, second) = parser.parse_str(",").unwrap();
    assert_eq!(first.to_string(), "__fallback_ident_0");
    assert_eq!(comma.spans[0].start().column, 0);
    assert_eq!(comma.spans[0].end().column, 1);
    assert_eq!(second.to_string(), "__fallback_ident_1");
    assert_eq!(errors.len(), 2);
    assert_eq!(errors[0].to_string(), "expected identifier");
    assert_eq!(
        errors[1].to_string(),
        "unexpected end of input, expected identifier"
    );
    assert_eq!(registry.remaining(), usize::MAX - 2);
}

#[test]
fn a_triple_with_skips_loses_the_comma_to_the_first_failure() {
    let mut registry = ForgeRegistry::new();
    let mut errors: Vec<Error> = Vec::new();
    let parser = |input: ParseStream| -> syn::Result<(Ident, Comma, Ident)> {
        let mut cursor = TokenCursor::new(input);
        let (first, outcome) = cursor.parse_or_forge_and_skip_tt::<Ident>(&mut registry);
        errors.extend(outcome.err());
        assert!(cursor.is_exhausted());
        let (comma, outcome) = cursor.parse_or_forge_and_skip_tt::<Comma>(&mut registry);
        errors.extend(outcome.err());
        assert!(cursor.is_exhausted());
        assert_eq!(errors.len(), 2);
        let (second, outcome) = cursor.parse_or_forge_and_skip_tt::<Ident>(&mut registry);
        errors.extend(outcome.err());
        assert!(cursor.is_exhausted());
        assert!(input.is_empty());
        Ok((first, comma, second))
    };
    let (first, comma, second) = parser.parse_str(",").unwrap();
    assert_eq!(first.to_string(), "__fallback_ident_0");
    assert_eq!(second.to_string(), "__fallback_ident_1");
    assert_eq!(comma.spans[0].start(), Span::call_site().start());
    assert_eq!(errors.len(), 3);
    assert_eq!(errors[0].to_string(), "expected identifier");
    assert_eq!(errors[1].to_string(), "expected `,`");
    assert_eq!(
        errors[2].to_string(),
        "unexpected end of input, expected identifier"
    );
    assert_eq!(registry.remaining(), usize::MAX - 2);
}

#[test]
fn a_well_formed_triple_is_parsed_as_it_stands() {
    let mut registry = ForgeRegistry::new();
    let parser = |input: ParseStream| -> syn::Result<(Ident, Comma, Ident)> {
        let mut cursor = TokenCursor::new(input);
        let (first, one) = cursor.parse_or_forge::<Ident>(&mut registry);
        let (comma, two) = cursor.parse_or_forge::<Comma>(&mut registry);
        let (second, three) = cursor.parse_or_forge_and_skip_tt::<Ident>(&mut registry);
        assert!(one.is_ok() && two.is_ok() && three.is_ok());
        assert!(cursor.is_exhausted());
        Ok((first, comma, second))
    };
    let (first, _, second) = parser.parse_str("left, right").unwrap();
    assert_eq!(first.to_string(), "left");
    assert_eq!(second.to_string(), "right");
    assert_eq!(registry.remaining(), usize::MAX);
}
