//! The names that forged identifiers carry.
//!
//! A forged name is a fixed prefix followed by a registry number in decimal.
//! Different numbers give different names, and every such name is an
//! identifier.

use vstd::prelude::*;
use vstd::string::StringExecFns;

verus! {

/// The character that writes the digit `d`.
pub open spec fn digit(d: nat) -> char
    recommends
        d < 10,
{
    if d == 0 {
        '0'
    } else if d == 1 {
        '1'
    } else if d == 2 {
        '2'
    } else if d == 3 {
        '3'
    } else if d == 4 {
        '4'
    } else if d == 5 {
        '5'
    } else if d == 6 {
        '6'
    } else if d == 7 {
        '7'
    } else if d == 8 {
        '8'
    } else {
        '9'
    }
}

/// `n` written in decimal, without leading zeros.
pub open spec fn decimal(n: nat) -> Seq<char>
    decreases n,
{
    if n < 10 {
        seq![digit(n)]
    } else {
        decimal(n / 10).push(digit(n % 10))
    }
}

/// What every forged name begins with.
pub open spec fn prefix() -> Seq<char> {
    "__fallback_ident_"@
}

/// The name of the forgery that takes the registry number `n`.
pub open spec fn fallback_name(n: nat) -> Seq<char> {
    prefix() + decimal(n)
}

/// Whether `c` may begin an identifier: an ASCII letter or an underscore.
pub open spec fn is_ident_start(c: char) -> bool {
    ('a' <= c && c <= 'z') || ('A' <= c && c <= 'Z') || c == '_'
}

/// Whether `c` may go on an identifier: an ASCII letter, an underscore or a
/// digit.
pub open spec fn is_ident_continue(c: char) -> bool {
    is_ident_start(c) || ('0' <= c && c <= '9')
}

/// Whether `text` is an identifier written in ASCII, other than a lone
/// underscore.
pub open spec fn is_identifier(text: Seq<char>) -> bool {
    &&& text.len() > 0
    &&& is_ident_start(text[0])
    &&& forall|i: int| 0 < i < text.len() ==> is_ident_continue(#[trigger] text[i])
    &&& text != seq!['_']
}

/// The decimal form of a number is never empty and holds digits only.
pub proof fn lemma_decimal_digits(n: nat)
    ensures
        decimal(n).len() > 0,
        forall|i: int| 0 <= i < decimal(n).len() ==> '0' <= #[trigger] decimal(n)[i] <= '9',
    decreases n,
{
    if n >= 10 {
        lemma_decimal_digits(n / 10);
    }
}

/// Different digits are written with different characters.
pub proof fn lemma_digit_injective(a: nat, b: nat)
    requires
        a < 10,
        b < 10,
        digit(a) == digit(b),
    ensures
        a == b,
{
}

/// Different numbers have different decimal forms.
pub proof fn lemma_decimal_injective(a: nat, b: nat)
    requires
        decimal(a) == decimal(b),
    ensures
        a == b,
    decreases a,
{
    lemma_decimal_digits(a / 10);
    lemma_decimal_digits(b / 10);
    if a < 10 && b < 10 {
        assert(decimal(a)[0] == digit(a));
        assert(decimal(b)[0] == digit(b));
        lemma_digit_injective(a, b);
    } else if a >= 10 && b >= 10 {
        let head_a = decimal(a / 10);
        let head_b = decimal(b / 10);
        assert(decimal(a).last() == digit(a % 10));
        assert(decimal(b).last() == digit(b % 10));
        assert(head_a == decimal(a).drop_last());
        assert(head_b == decimal(b).drop_last());
        lemma_digit_injective(a % 10, b % 10);
        lemma_decimal_injective(a / 10, b / 10);
    } else {
        assert(decimal(a).len() == decimal(b).len());
    }
}

/// Forged names differ wherever their registry numbers differ.
pub proof fn lemma_fallback_names_distinct(a: nat, b: nat)
    requires
        a != b,
    ensures
        fallback_name(a) != fallback_name(b),
{
    if fallback_name(a) == fallback_name(b) {
        let skip = prefix().len() as int;
        assert(decimal(a) == fallback_name(a).subrange(skip, fallback_name(a).len() as int));
        assert(decimal(b) == fallback_name(b).subrange(skip, fallback_name(b).len() as int));
        lemma_decimal_injective(a, b);
    }
}

/// Every forged name is an identifier.
pub proof fn lemma_fallback_name_is_identifier(n: nat)
    ensures
        is_identifier(fallback_name(n)),
{
    reveal_strlit("__fallback_ident_");
    lemma_decimal_digits(n);
    let name = fallback_name(n);
    assert(name[0] == '_');
    assert(name.len() > 1);
    assert forall|i: int| 0 < i < name.len() implies is_ident_continue(#[trigger] name[i]) by {
        if i >= prefix().len() {
            assert(name[i] == decimal(n)[i - prefix().len()]);
        }
    }
}

/// The text of one digit.
fn digit_text(d: usize) -> (text: &'static str)
    requires
        d < 10,
    ensures
        text@ == seq![digit(d as nat)],
{
    proof {
        reveal_strlit("0");
        reveal_strlit("1");
        reveal_strlit("2");
        reveal_strlit("3");
        reveal_strlit("4");
        reveal_strlit("5");
        reveal_strlit("6");
        reveal_strlit("7");
        reveal_strlit("8");
        reveal_strlit("9");
    }
    let text = if d == 0 {
        "0"
    } else if d == 1 {
        "1"
    } else if d == 2 {
        "2"
    } else if d == 3 {
        "3"
    } else if d == 4 {
        "4"
    } else if d == 5 {
        "5"
    } else if d == 6 {
        "6"
    } else if d == 7 {
        "7"
    } else if d == 8 {
        "8"
    } else {
        "9"
    };
    assert(text@ =~= seq![digit(d as nat)]);
    text
}

/// Writes `n` in decimal at the end of `out`.
fn push_decimal(out: &mut String, n: usize)
    ensures
        final(out)@ == old(out)@ + decimal(n as nat),
    decreases n,
{
    if n >= 10 {
        push_decimal(out, n / 10);
    }
    out.append(digit_text(n % 10));
    assert(out@ =~= old(out)@ + decimal(n as nat));
}

/// Makes the name of the forgery that takes the registry number `n`.
pub fn fallback_name_of(n: usize) -> (name: String)
    ensures
        name@ == fallback_name(n as nat),
{
    let mut name = String::from_str("__fallback_ident_");
    push_decimal(&mut name, n);
    name
}

} // verus!
