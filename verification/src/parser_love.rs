//! Properties of the parser that hold for every list of tokens.
use vstd::prelude::*;
use crate::ast::{Operator, UdtrykV};
use crate::lexer::TokenV;
use crate::parser::{parse_addition, parse_udtryk, parse_primaer, addition_rest, tok, lemma_addition_frem, lemma_primaer_frem};

verus! {

/// The operator that a comparison token names: `<=` is `MindreEllerLig`, `<` is
/// `Mindre`, `>` is `Stoerre`, `>=` is `StoerreEllerLig`, `==` is `ErLig` and `<>`
/// is `ErIkke`.
pub open spec fn navngivet_operator(x: TokenV) -> Option<Operator> {
    if x == TokenV::MindreEllerLig {
        Some(Operator::MindreEllerLig)
    } else if x == TokenV::Mindre {
        Some(Operator::Mindre)
    } else if x == TokenV::Stoerre {
        Some(Operator::Stoerre)
    } else if x == TokenV::StoerreEllerLig {
        Some(Operator::StoerreEllerLig)
    } else if x == TokenV::ErLig {
        Some(Operator::ErLig)
    } else if x == TokenV::ErIkke {
        Some(Operator::ErIkke)
    } else {
        None
    }
}

/// An addition followed by a comparison token and a second addition is one
/// comparison: the first addition on the left, the second on the right, and as
/// operator the comparison that the token names. An addition followed by any other
/// token is the whole expression.
pub proof fn lov_sammenligning(t: Seq<TokenV>, p: nat, v: UdtrykV, p1: nat)
    requires
        parse_addition(t, p) == Ok::<(UdtrykV, nat), crate::parser::SyntaksfejlV>((v, p1)),
    ensures
        navngivet_operator(tok(t, p1)) matches Some(o) ==> parse_udtryk(t, p) == (match parse_addition(t, p1 + 1) {
            Ok((h, p2)) => Ok((UdtrykV::BinaerOp { venstre: Box::new(v), operator: o, hoejre: Box::new(h) }, p2)),
            Err(e) => Err(e),
        }),
        navngivet_operator(tok(t, p1)) is None ==> parse_udtryk(t, p) == Ok::<(UdtrykV, nat), crate::parser::SyntaksfejlV>((v, p1)),
{
    lemma_addition_frem(t, p);
}

/// In a chain of additions and subtractions each `+` and `-` joins what stands
/// before it, as a whole, to the single value after it (so `a - b + c` is
/// `(a - b) + c`), with `Plus` for `+` and `Minus` for `-`; any other token ends
/// the chain.
pub proof fn lov_addition(t: Seq<TokenV>, p: nat, acc: UdtrykV)
    ensures
        tok(t, p) == TokenV::Plus || tok(t, p) == TokenV::Minus ==> addition_rest(t, p, acc) == (match parse_primaer(t, p + 1) {
            Ok((h, p2)) => addition_rest(t, p2, UdtrykV::BinaerOp {
                venstre: Box::new(acc),
                operator: if tok(t, p) == TokenV::Plus { Operator::Plus } else { Operator::Minus },
                hoejre: Box::new(h),
            }),
            Err(e) => Err(e),
        }),
        !(tok(t, p) == TokenV::Plus || tok(t, p) == TokenV::Minus) ==> addition_rest(t, p, acc)
            == Ok::<(UdtrykV, nat), crate::parser::SyntaksfejlV>((acc, p)),
{
    lemma_primaer_frem(t, p + 1);
}

} // verus!
