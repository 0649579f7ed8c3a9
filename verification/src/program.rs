//! Reading a program: source text to tokens to statements, the steps both the
//! interpreter and the code generator start from.
use vstd::prelude::*;
use crate::ast::{Saetning, SaetningV, blok_v};
use crate::evaluator::{tekst, tekster_v};
use vstd::string::StrSliceExecFns;
use crate::lexer::{Lexer, Token, TokenV, tokeniser, tokens_v};
use crate::parser::{Parser, Syntaksfejl, parse_program};

verus! {

/// Why a source text could not be read as a program.
#[derive(Debug, PartialEq)]
pub enum Indlaesningsfejl {
    /// The lexer stopped with this message
    Lekser(String),
    /// The parser stopped with this error
    Syntaks(Syntaksfejl),
    /// The text gave more tokens than a parser can count
    ForMangeTokens,
}

/// A program that was read: its statements, and the texts of its number
/// literals in the order they were written.
pub struct Indlaest {
    pub saetninger: Vec<Saetning>,
    pub tal: Vec<String>,
}

/// The texts of the number literals among tokens, first to last; a literal
/// after a minus also with the minus in front, as it may be read as one number.
pub open spec fn talliteraler(ts: Seq<TokenV>) -> Seq<Seq<char>>
    decreases ts.len(),
{
    if ts.len() == 0 {
        Seq::empty()
    } else {
        let rest = talliteraler(ts.drop_last());
        match ts.last() {
            TokenV::TalLiteral(s) => if ts.len() >= 2 && ts[ts.len() - 2] == TokenV::Minus {
                rest.push(s).push(seq!['-'] + s)
            } else {
                rest.push(s)
            },
            _ => rest,
        }
    }
}

/// The texts of the number literals among tokens, first to last.
pub fn talliteraler_i(tokens: &Vec<Token>) -> (r: Vec<String>)
    ensures
        tekster_v(r@) == talliteraler(tokens_v(tokens@)),
{
    let ghost ts = tokens_v(tokens@);
    let mut r: Vec<String> = Vec::new();
    let mut i: usize = 0;
    assert(ts.take(0) =~= Seq::<TokenV>::empty());
    assert(tekster_v(r@) =~= Seq::<Seq<char>>::empty());
    while i < tokens.len()
        invariant
            i <= tokens@.len(),
            ts == tokens_v(tokens@),
            ts.len() == tokens@.len(),
            tekster_v(r@) == talliteraler(ts.take(i as int)),
        decreases tokens.len() - i,
    {
        assert(ts.take(i + 1).drop_last() =~= ts.take(i as int));
        assert(ts.take(i + 1).last() == tokens@[i as int]@);
        if let Token::TalLiteral(s) = &tokens[i] {
            let ghost r0 = tekster_v(r@);
            r.push(s.clone());
            if i > 0 && matches!(tokens[i - 1], Token::Minus) {
                let mut m = tekst("-");
                m.append(s.as_str());
                r.push(m);
                proof {
                    reveal_strlit("-");
                    assert(ts.take(i + 1)[i - 1] == tokens@[i - 1]@);
                    assert(m@ =~= seq!['-'] + s@);
                    assert(tekster_v(r@) =~= r0.push(s@).push(m@));
                    assert(tekster_v(r@) =~= talliteraler(ts.take(i as int)).push(s@).push(seq!['-'] + s@));
                }
            } else {
                proof {
                    if i > 0 {
                        assert(ts.take(i + 1)[i - 1] == tokens@[i - 1]@);
                    }
                }
                assert(tekster_v(r@) =~= talliteraler(ts.take(i as int)).push(s@));
            }
        }
        i = i + 1;
    }
    assert(ts.take(i as int) =~= ts);
    r
}

/// Reads a source text as a program: the tokens of the text, then the
/// statements of the tokens.
pub fn indlaes(kilde: &str) -> (r: Result<Indlaest, Indlaesningsfejl>)
    requires
        kilde@.len() < usize::MAX,
    ensures
        match tokeniser(kilde@) {
            Err(m) => r matches Err(Indlaesningsfejl::Lekser(x)) && x@ == m,
            Ok(ts) => if ts.len() >= usize::MAX {
                r matches Err(Indlaesningsfejl::ForMangeTokens)
            } else {
                match parse_program(ts) {
                    Err(e) => r matches Err(Indlaesningsfejl::Syntaks(x)) && x@ == e,
                    Ok(b) => r matches Ok(p) && blok_v(p.saetninger@) == b && tekster_v(p.tal@) == talliteraler(ts),
                }
            },
        },
{
    let mut lekser = Lexer::ny(kilde);
    let tokens = match lekser.tokeniser() {
        Ok(t) => t,
        Err(m) => return Err(Indlaesningsfejl::Lekser(m)),
    };
    if tokens.len() == usize::MAX {
        return Err(Indlaesningsfejl::ForMangeTokens);
    }
    let tal = talliteraler_i(&tokens);
    let mut parser = Parser::ny(tokens);
    match parser.parse() {
        Ok(saetninger) => Ok(Indlaest { saetninger, tal }),
        Err(e) => Err(Indlaesningsfejl::Syntaks(e)),
    }
}

} // verus!
