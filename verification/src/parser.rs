//! The parser: turns tokens into a syntax tree.
use vstd::prelude::*;
use crate::ast::{Operator, Saetning, SaetningV, Type, Udtryk, UdtrykV, udtryk_v, udtryk_liste_v, saetning_v, blok_v, parametre_v, lemma_blok_v};
use crate::evaluator::tekst;
use vstd::string::StrSliceExecFns;
use crate::lexer::{Token, TokenV, tokens_v};

verus! {

/// Why a list of tokens is not a program.
#[derive(Debug, PartialEq)]
pub enum Syntaksfejl {
    /// An expected token was not found
    Forventede { forventet: Token, fandt: Token },
    /// A variable name was expected
    ForventedeNavn(Token),
    /// A type name was expected
    ForventedeType(Token),
    /// The tokens ended where a statement was expected
    UventetFilslut,
    /// A statement cannot start with this token
    UventetToken(Token),
    /// A statement inside a block was not followed by a line break
    ForventedeLinjeskiftIBlok(Token),
    /// A value was expected
    ForventedeVaerdi(Token),
    /// An instruction was not followed by a line break
    ForventedeLinjeskift(Token),
}

pub enum SyntaksfejlV {
    Forventede { forventet: TokenV, fandt: TokenV },
    ForventedeNavn(TokenV),
    ForventedeType(TokenV),
    UventetFilslut,
    UventetToken(TokenV),
    ForventedeLinjeskiftIBlok(TokenV),
    ForventedeVaerdi(TokenV),
    ForventedeLinjeskift(TokenV),
}

impl View for Syntaksfejl {
    type V = SyntaksfejlV;

    open spec fn view(&self) -> SyntaksfejlV {
        match self {
            Syntaksfejl::Forventede { forventet, fandt } => SyntaksfejlV::Forventede { forventet: forventet@, fandt: fandt@ },
            Syntaksfejl::ForventedeNavn(t) => SyntaksfejlV::ForventedeNavn(t@),
            Syntaksfejl::ForventedeType(t) => SyntaksfejlV::ForventedeType(t@),
            Syntaksfejl::UventetFilslut => SyntaksfejlV::UventetFilslut,
            Syntaksfejl::UventetToken(t) => SyntaksfejlV::UventetToken(t@),
            Syntaksfejl::ForventedeLinjeskiftIBlok(t) => SyntaksfejlV::ForventedeLinjeskiftIBlok(t@),
            Syntaksfejl::ForventedeVaerdi(t) => SyntaksfejlV::ForventedeVaerdi(t@),
            Syntaksfejl::ForventedeLinjeskift(t) => SyntaksfejlV::ForventedeLinjeskift(t@),
        }
    }
}

/// The token at a position; past the end the tokens read as `FilSlut`.
pub open spec fn tok(t: Seq<TokenV>, p: nat) -> TokenV {
    if p < t.len() { t[p as int] } else { TokenV::FilSlut }
}

/// Consumes the expected token.
pub open spec fn forvent(t: Seq<TokenV>, p: nat, f: TokenV) -> Result<nat, SyntaksfejlV> {
    if tok(t, p) == f { Ok(p + 1) } else { Err(SyntaksfejlV::Forventede { forventet: f, fandt: tok(t, p) }) }
}

/// Skips one line break if there is one.
pub open spec fn valgfrit_linjeskift(t: Seq<TokenV>, p: nat) -> nat {
    if tok(t, p) == TokenV::Newline { p + 1 } else { p }
}

/// The position a part that starts at `p` ends at, `q`, where it lies after `p`
/// and within the `n` tokens (as it always does: see `lemma_udtryk_frem`).
pub open spec fn naeste(q: nat, p: nat, n: nat) -> nat {
    if p < q && q <= n { q } else { p + 1 }
}

/// A single value: a literal (a number literal may have a minus in front), a
/// variable, a call `navn(a, b)`, or an expression in parentheses.
pub open spec fn parse_primaer(t: Seq<TokenV>, p: nat) -> Result<(UdtrykV, nat), SyntaksfejlV>
    decreases t.len() + 2 - p, 0nat,
{
    match tok(t, p) {
        TokenV::BogstavLiteral(s) => Ok((UdtrykV::Bogstav(s), p + 1)),
        TokenV::TalLiteral(n) => Ok((UdtrykV::Tal(n), p + 1)),
        TokenV::Minus => match tok(t, p + 1) {
            TokenV::TalLiteral(n) => Ok((UdtrykV::Tal(seq!['-'] + n), p + 2)),
            _ => Err(SyntaksfejlV::ForventedeVaerdi(TokenV::Minus)),
        },
        TokenV::Sand => Ok((UdtrykV::BoolLiteral(true), p + 1)),
        TokenV::Falsk => Ok((UdtrykV::BoolLiteral(false), p + 1)),
        TokenV::Ident(navn) => if tok(t, p + 1) == TokenV::VenstreParentes {
            match argumenter(t, p + 2) {
                Err(e) => Err(e),
                Ok((a, q)) => Ok((UdtrykV::FunktionsKald { navn, argumenter: a }, q)),
            }
        } else {
            Ok((UdtrykV::Variable(navn), p + 1))
        },
        TokenV::VenstreParentes => match parse_udtryk(t, p + 1) {
            Err(e) => Err(e),
            Ok((u, q)) => match forvent(t, naeste(q, p, t.len()), TokenV::HoejreParentes) {
                Err(e) => Err(e),
                Ok(q2) => Ok((u, q2)),
            },
        },
        x => Err(SyntaksfejlV::ForventedeVaerdi(x)),
    }
}

/// The arguments of a call after its `(`: none, or expressions separated by
/// commas, up to the `)`.
pub open spec fn argumenter(t: Seq<TokenV>, p: nat) -> Result<(Seq<UdtrykV>, nat), SyntaksfejlV>
    decreases t.len() + 2 - p, 4nat,
{
    if p >= t.len() {
        Err(SyntaksfejlV::ForventedeVaerdi(TokenV::FilSlut))
    } else if tok(t, p) == TokenV::HoejreParentes {
        Ok((Seq::empty(), p + 1))
    } else {
        argliste(t, p)
    }
}

/// One or more expressions separated by commas, up to and with the `)`.
pub open spec fn argliste(t: Seq<TokenV>, p: nat) -> Result<(Seq<UdtrykV>, nat), SyntaksfejlV>
    decreases t.len() + 2 - p, 3nat,
{
    if p >= t.len() {
        Err(SyntaksfejlV::ForventedeVaerdi(TokenV::FilSlut))
    } else {
        match parse_udtryk(t, p) {
        Err(e) => Err(e),
        Ok((u, q)) => {
            let q = naeste(q, p, t.len());
            match tok(t, q) {
                TokenV::Komma => match argliste(t, q + 1) {
                    Err(e) => Err(e),
                    Ok((rest, q2)) => Ok((seq![u] + rest, q2)),
                },
                TokenV::HoejreParentes => Ok((seq![u], q + 1)),
                x => Err(SyntaksfejlV::Forventede { forventet: TokenV::HoejreParentes, fandt: x }),
            }
        },
        }
    }
}

/// The rest of a chain of additions and subtractions after `acc`, grouped to the left.
pub open spec fn addition_rest(t: Seq<TokenV>, p: nat, acc: UdtrykV) -> Result<(UdtrykV, nat), SyntaksfejlV>
    decreases t.len() + 2 - p, 0nat,
{
    let op = match tok(t, p) {
        TokenV::Plus => Some(Operator::Plus),
        TokenV::Minus => Some(Operator::Minus),
        _ => None,
    };
    match op {
        None => Ok((acc, p)),
        Some(o) => match parse_primaer(t, p + 1) {
            Err(e) => Err(e),
            Ok((h, p2)) => addition_rest(t, naeste(p2, p, t.len()), UdtrykV::BinaerOp { venstre: Box::new(acc), operator: o, hoejre: Box::new(h) }),
        },
    }
}

/// Addition and subtraction (left associative).
pub open spec fn parse_addition(t: Seq<TokenV>, p: nat) -> Result<(UdtrykV, nat), SyntaksfejlV>
    decreases t.len() + 2 - p, 1nat,
{
    if p >= t.len() {
        Err(SyntaksfejlV::ForventedeVaerdi(TokenV::FilSlut))
    } else {
        match parse_primaer(t, p) {
            Err(e) => Err(e),
            Ok((v, p1)) => addition_rest(t, naeste(p1, p, t.len()), v),
        }
    }
}

/// The comparison a token stands for.
pub open spec fn sammenligning(x: TokenV) -> Option<Operator> {
    match x {
        TokenV::ErLig => Some(Operator::ErLig),
        TokenV::ErIkke => Some(Operator::ErIkke),
        TokenV::Mindre => Some(Operator::Mindre),
        TokenV::Stoerre => Some(Operator::Stoerre),
        TokenV::MindreEllerLig => Some(Operator::MindreEllerLig),
        TokenV::StoerreEllerLig => Some(Operator::StoerreEllerLig),
        _ => None,
    }
}

/// One expression: a comparison binds more loosely than `+` and `-`, and at most
/// one comparison stands in an expression.
pub open spec fn parse_udtryk(t: Seq<TokenV>, p: nat) -> Result<(UdtrykV, nat), SyntaksfejlV>
    decreases t.len() + 2 - p, 2nat,
{
    if p >= t.len() {
        Err(SyntaksfejlV::ForventedeVaerdi(TokenV::FilSlut))
    } else {
        match parse_addition(t, p) {
        Err(e) => Err(e),
        Ok((v, p1)) => {
            let p1 = naeste(p1, p, t.len());
            match sammenligning(tok(t, p1)) {
                None => Ok((v, p1)),
                Some(o) => match parse_addition(t, p1 + 1) {
                    Err(e) => Err(e),
                    Ok((h, p2)) => Ok((UdtrykV::BinaerOp { venstre: Box::new(v), operator: o, hoejre: Box::new(h) }, p2)),
                },
            }
        },
        }
    }
}

/// Each part of an expression takes at least one token, and none goes past the
/// end of the tokens when it succeeds.
pub proof fn lemma_primaer_frem(t: Seq<TokenV>, p: nat)
    ensures
        parse_primaer(t, p) matches Ok((_, q)) ==> p < q <= t.len(),
    decreases t.len() + 2 - p, 0nat,
{
    match tok(t, p) {
        TokenV::Ident(_) => {
            if tok(t, p + 1) == TokenV::VenstreParentes {
                lemma_argumenter_frem(t, p + 2);
            }
        },
        TokenV::VenstreParentes => {
            lemma_udtryk_frem(t, p + 1);
        },
        _ => {},
    }
}

pub proof fn lemma_argumenter_frem(t: Seq<TokenV>, p: nat)
    ensures
        argumenter(t, p) matches Ok((_, q)) ==> p < q <= t.len(),
    decreases t.len() + 2 - p, 4nat,
{
    if tok(t, p) != TokenV::HoejreParentes {
        lemma_argliste_frem(t, p);
    }
}

pub proof fn lemma_argliste_frem(t: Seq<TokenV>, p: nat)
    ensures
        argliste(t, p) matches Ok((_, q)) ==> p < q <= t.len(),
    decreases t.len() + 2 - p, 3nat,
{
    lemma_udtryk_frem(t, p);
    if let Ok((u, q)) = parse_udtryk(t, p) {
        let q = naeste(q, p, t.len());
        if tok(t, q) == TokenV::Komma {
            lemma_argliste_frem(t, q + 1);
        }
    }
}

pub proof fn lemma_addition_rest_frem(t: Seq<TokenV>, p: nat, acc: UdtrykV)
    ensures
        p <= t.len() ==> (addition_rest(t, p, acc) matches Ok((_, q)) ==> p <= q <= t.len()),
        addition_rest(t, p, acc) matches Ok((_, q)) ==> p <= q,
    decreases t.len() + 2 - p, 0nat,
{
    let op = match tok(t, p) {
        TokenV::Plus => Some(Operator::Plus),
        TokenV::Minus => Some(Operator::Minus),
        _ => None,
    };
    if let Some(o) = op {
        lemma_primaer_frem(t, p + 1);
        if let Ok((h, p2)) = parse_primaer(t, p + 1) {
            lemma_addition_rest_frem(t, naeste(p2, p, t.len()), UdtrykV::BinaerOp { venstre: Box::new(acc), operator: o, hoejre: Box::new(h) });
        }
    }
}

pub proof fn lemma_addition_frem(t: Seq<TokenV>, p: nat)
    ensures
        parse_addition(t, p) matches Ok((_, q)) ==> p < q <= t.len(),
    decreases t.len() + 2 - p, 1nat,
{
    lemma_primaer_frem(t, p);
    if let Ok((v, p1)) = parse_primaer(t, p) {
        lemma_addition_rest_frem(t, naeste(p1, p, t.len()), v);
    }
}

pub proof fn lemma_udtryk_frem(t: Seq<TokenV>, p: nat)
    ensures
        parse_udtryk(t, p) matches Ok((_, q)) ==> p < q <= t.len(),
    decreases t.len() + 2 - p, 2nat,
{
    lemma_addition_frem(t, p);
    if let Ok((v, p1)) = parse_addition(t, p) {
        let p1 = naeste(p1, p, t.len());
        lemma_addition_frem(t, p1 + 1);
    }
}

/// An expression takes at least one token.
pub proof fn lemma_parse_udtryk(t: Seq<TokenV>, p: nat)
    ensures
        parse_udtryk(t, p) matches Ok((_, q)) ==> p < q,
        parse_addition(t, p) matches Ok((_, q)) ==> p < q,
{
    lemma_udtryk_frem(t, p);
    lemma_addition_frem(t, p);
}

/// A type name.
pub open spec fn parse_type(t: Seq<TokenV>, p: nat) -> Result<(Type, nat), SyntaksfejlV> {
    match tok(t, p) {
        TokenV::Nummer => Ok((Type::Nummer, p + 1)),
        TokenV::Streng => Ok((Type::Streng, p + 1)),
        TokenV::SandFalsk => Ok((Type::SandFalsk, p + 1)),
        x => Err(SyntaksfejlV::ForventedeType(x)),
    }
}

/// A variable name.
pub open spec fn forvent_navn(t: Seq<TokenV>, p: nat) -> Result<(Seq<char>, nat), SyntaksfejlV> {
    match tok(t, p) {
        TokenV::Ident(navn) => Ok((navn, p + 1)),
        x => Err(SyntaksfejlV::ForventedeNavn(x)),
    }
}

/// A position not before `p + 1`: the position a statement that starts at `p` ends at.
pub open spec fn efter(q: nat, p: nat) -> nat {
    if q > p { q } else { p + 1 }
}

/// `hvis <betingelse> så <blok> [ellers <blok>] slut`, from the `hvis` at `p`.
pub open spec fn parse_hvis(t: Seq<TokenV>, p: nat) -> Result<(SaetningV, nat), SyntaksfejlV>
    decreases t.len() + 2 - p, 0nat,
{
    match parse_udtryk(t, p + 1) {
        Err(e) => Err(e),
        Ok((b, p1)) => match forvent(t, p1, TokenV::Saa) {
            Err(e) => Err(e),
            Ok(p2) => {
                proof {
                    lemma_parse_udtryk(t, p + 1);
                }
                if valgfrit_linjeskift(t, p2) > t.len() + 1 {
                    Err(SyntaksfejlV::UventetFilslut)
                } else {
                    match parse_blok(t, valgfrit_linjeskift(t, p2)) {
                        Err(e) => Err(e),
                        Ok((saa, p3)) => {
                            let p3 = efter(p3, p);
                            if tok(t, p3) == TokenV::Ellers && valgfrit_linjeskift(t, p3 + 1) <= t.len() + 1 {
                                match parse_blok(t, valgfrit_linjeskift(t, p3 + 1)) {
                                    Err(e) => Err(e),
                                    Ok((ellers, p4)) => match forvent(t, p4, TokenV::Slut) {
                                        Err(e) => Err(e),
                                        Ok(p5) => Ok((SaetningV::Hvis { betingelse: b, saa_gren: saa, ellers_gren: Some(ellers) }, p5)),
                                    },
                                }
                            } else {
                                match forvent(t, p3, TokenV::Slut) {
                                    Err(e) => Err(e),
                                    Ok(p5) => Ok((SaetningV::Hvis { betingelse: b, saa_gren: saa, ellers_gren: None }, p5)),
                                }
                            }
                        },
                    }
                }
            },
        },
    }
}

/// The parameters of a definition after its `(`: none, or `navn som type`
/// separated by commas, up to the `)`.
pub open spec fn parametre(t: Seq<TokenV>, p: nat) -> Result<(Seq<(Seq<char>, Type)>, nat), SyntaksfejlV> {
    if tok(t, p) == TokenV::HoejreParentes {
        Ok((Seq::empty(), p + 1))
    } else {
        parameterliste(t, p)
    }
}

/// One or more parameters separated by commas, up to and with the `)`.
pub open spec fn parameterliste(t: Seq<TokenV>, p: nat) -> Result<(Seq<(Seq<char>, Type)>, nat), SyntaksfejlV>
    decreases t.len() + 1 - p,
{
    match forvent_navn(t, p) {
        Err(e) => Err(e),
        Ok((n, p1)) => match forvent(t, p1, TokenV::Som) {
            Err(e) => Err(e),
            Ok(p2) => match parse_type(t, p2) {
                Err(e) => Err(e),
                Ok((ty, p3)) => match tok(t, p3) {
                    TokenV::Komma => match parameterliste(t, p3 + 1) {
                        Err(e) => Err(e),
                        Ok((rest, q)) => Ok((seq![(n, ty)] + rest, q)),
                    },
                    TokenV::HoejreParentes => Ok((seq![(n, ty)], p3 + 1)),
                    x => Err(SyntaksfejlV::Forventede { forventet: TokenV::HoejreParentes, fandt: x }),
                },
            },
        },
    }
}

/// An optional `giver <type>`.
pub open spec fn returtype_del(t: Seq<TokenV>, p: nat) -> Result<(Option<Type>, nat), SyntaksfejlV> {
    if tok(t, p) == TokenV::Giver {
        match parse_type(t, p + 1) {
            Err(e) => Err(e),
            Ok((ty, q)) => Ok((Some(ty), q)),
        }
    } else {
        Ok((None, p))
    }
}

/// `funktion <navn>(<parametre>) [giver <type>] <blok> slut`, from the `funktion` at `p`.
pub open spec fn parse_funktion(t: Seq<TokenV>, p: nat) -> Result<(SaetningV, nat), SyntaksfejlV>
    decreases t.len() + 2 - p, 0nat,
{
    match forvent_navn(t, p + 1) {
        Err(e) => Err(e),
        Ok((navn, p1)) => match forvent(t, p1, TokenV::VenstreParentes) {
            Err(e) => Err(e),
            Ok(p2) => match parametre(t, p2) {
                Err(e) => Err(e),
                Ok((ps, p3)) => match returtype_del(t, naeste(p3, p, t.len())) {
                    Err(e) => Err(e),
                    Ok((rt, p4)) => if valgfrit_linjeskift(t, p4) > t.len() + 1 {
                        Err(SyntaksfejlV::UventetFilslut)
                    } else {
                        match parse_blok(t, valgfrit_linjeskift(t, p4)) {
                            Err(e) => Err(e),
                            Ok((krop, p5)) => match forvent(t, efter(p5, p), TokenV::Slut) {
                                Err(e) => Err(e),
                                Ok(p6) => Ok((SaetningV::FunktionDef { navn, parametre: ps, returtype: rt, krop }, p6)),
                            },
                        }
                    },
                },
            },
        },
    }
}

/// Whether a token ends an instruction, so that `returner` before it returns nothing.
pub open spec fn slutter(x: TokenV) -> bool {
    x == TokenV::Newline || x == TokenV::FilSlut || x == TokenV::Slut || x == TokenV::Ellers
}

pub proof fn lemma_parametre_frem(t: Seq<TokenV>, p: nat)
    ensures
        parametre(t, p) matches Ok((_, q)) ==> p < q <= t.len(),
        parameterliste(t, p) matches Ok((_, q)) ==> p < q <= t.len(),
    decreases t.len() + 1 - p,
{
    if let Ok((n, p1)) = forvent_navn(t, p) {
        if let Ok(p2) = forvent(t, p1, TokenV::Som) {
            if let Ok((ty, p3)) = parse_type(t, p2) {
                if tok(t, p3) == TokenV::Komma {
                    lemma_parametre_frem(t, p3 + 1);
                }
            }
        }
    }
}

/// `gentag <antal> gange <blok> slut` or `mens <betingelse> så <blok> slut`,
/// from the keyword at `p`.
pub open spec fn parse_loekke(t: Seq<TokenV>, p: nat) -> Result<(SaetningV, nat), SyntaksfejlV>
    decreases t.len() + 2 - p, 0nat,
{
    let gentag = tok(t, p) == TokenV::Gentag;
    match parse_udtryk(t, p + 1) {
        Err(e) => Err(e),
        Ok((u, p1)) => match forvent(t, p1, if gentag { TokenV::Gange } else { TokenV::Saa }) {
            Err(e) => Err(e),
            Ok(p2) => {
                proof {
                    lemma_parse_udtryk(t, p + 1);
                }
                if valgfrit_linjeskift(t, p2) > t.len() + 1 {
                    Err(SyntaksfejlV::UventetFilslut)
                } else {
                    match parse_blok(t, valgfrit_linjeskift(t, p2)) {
                        Err(e) => Err(e),
                        Ok((krop, p3)) => match forvent(t, p3, TokenV::Slut) {
                            Err(e) => Err(e),
                            Ok(p4) => if gentag {
                                Ok((SaetningV::Gentag { antal: u, krop }, p4))
                            } else {
                                Ok((SaetningV::Mens { betingelse: u, krop }, p4))
                            },
                        },
                    }
                }
            },
        },
    }
}

/// `erklær <navn> som <type> [= <udtryk>]`, from the `erklær` at `p`.
pub open spec fn parse_erklaer(t: Seq<TokenV>, p: nat) -> Result<(SaetningV, nat), SyntaksfejlV> {
    match forvent_navn(t, p + 1) {
        Err(e) => Err(e),
        Ok((navn, p1)) => match forvent(t, p1, TokenV::Som) {
            Err(e) => Err(e),
            Ok(p2) => match parse_type(t, p2) {
                Err(e) => Err(e),
                Ok((ty, p3)) => if tok(t, p3) == TokenV::Ligmed {
                    match parse_udtryk(t, p3 + 1) {
                        Err(e) => Err(e),
                        Ok((u, p4)) => Ok((SaetningV::Erklaer { navn, type_: ty, startvaerdi: Some(u) }, p4)),
                    }
                } else {
                    Ok((SaetningV::Erklaer { navn, type_: ty, startvaerdi: None }, p3))
                },
            },
        },
    }
}

/// `sæt <navn> = <udtryk>`, from the `sæt` at `p`.
pub open spec fn parse_saet(t: Seq<TokenV>, p: nat) -> Result<(SaetningV, nat), SyntaksfejlV> {
    match forvent_navn(t, p + 1) {
        Err(e) => Err(e),
        Ok((navn, p1)) => match forvent(t, p1, TokenV::Ligmed) {
            Err(e) => Err(e),
            Ok(p2) => match parse_udtryk(t, p2) {
                Err(e) => Err(e),
                Ok((u, p3)) => Ok((SaetningV::Saet { navn, udtryk: u }, p3)),
            },
        },
    }
}

/// One statement.
pub open spec fn parse_saetning(t: Seq<TokenV>, p: nat) -> Result<(SaetningV, nat), SyntaksfejlV>
    decreases t.len() + 2 - p, 1nat,
{
    if p > t.len() + 1 {
        Err(SyntaksfejlV::UventetFilslut)
    } else {
        match tok(t, p) {
            TokenV::Skriv => match parse_udtryk(t, p + 1) {
                Err(e) => Err(e),
                Ok((u, p1)) => Ok((SaetningV::Skriv(u), p1)),
            },
            TokenV::Erklaer => parse_erklaer(t, p),
            TokenV::Saet => parse_saet(t, p),
            TokenV::Vis => match forvent(t, p + 1, TokenV::Hukommelse) {
                Err(e) => Err(e),
                Ok(p1) => Ok((SaetningV::VisHukommelse, p1)),
            },
            TokenV::Hvis => parse_hvis(t, p),
            TokenV::Gentag | TokenV::Mens => parse_loekke(t, p),
            TokenV::Funktion => parse_funktion(t, p),
            TokenV::Returner => if slutter(tok(t, p + 1)) {
                Ok((SaetningV::Returner(None), p + 1))
            } else {
                match parse_udtryk(t, p + 1) {
                    Err(e) => Err(e),
                    Ok((u, q)) => Ok((SaetningV::Returner(Some(u)), q)),
                }
            },
            TokenV::Ident(navn) => if tok(t, p + 1) == TokenV::VenstreParentes {
                match parse_udtryk(t, p) {
                    Err(e) => Err(e),
                    Ok((u, q)) => Ok((SaetningV::Udtryksaetning(u), q)),
                }
            } else {
                Err(SyntaksfejlV::UventetToken(TokenV::Ident(navn)))
            },
            TokenV::FilSlut => Err(SyntaksfejlV::UventetFilslut),
            x => Err(SyntaksfejlV::UventetToken(x)),
        }
    }
}

/// The statements of a block, up to `ellers`, `slut` or the end.
pub open spec fn parse_blok(t: Seq<TokenV>, p: nat) -> Result<(Seq<SaetningV>, nat), SyntaksfejlV>
    decreases t.len() + 2 - p, 2nat,
{
    if p > t.len() + 1 {
        Ok((Seq::empty(), p))
    } else {
        match tok(t, p) {
            TokenV::Slut | TokenV::Ellers | TokenV::FilSlut => Ok((Seq::empty(), p)),
            TokenV::Newline => parse_blok(t, p + 1),
            _ => match parse_saetning(t, p) {
                Err(e) => Err(e),
                Ok((s, p1)) => {
                    let p1 = efter(p1, p);
                    match tok(t, p1) {
                        TokenV::Newline => match parse_blok(t, p1 + 1) {
                            Err(e) => Err(e),
                            Ok((rest, p2)) => Ok((seq![s] + rest, p2)),
                        },
                        TokenV::Slut | TokenV::Ellers | TokenV::FilSlut => Ok((seq![s], p1)),
                        x => Err(SyntaksfejlV::ForventedeLinjeskiftIBlok(x)),
                    }
                },
            },
        }
    }
}

/// A statement takes at least one token, and a block never goes back; neither
/// goes past the end of the tokens when it succeeds.
pub proof fn lemma_fremskridt(t: Seq<TokenV>, p: nat)
    ensures
        parse_saetning(t, p) matches Ok((_, q)) ==> p < q <= t.len(),
        parse_blok(t, p) matches Ok((_, q)) ==> p <= q && (p <= t.len() ==> q <= t.len()),
    decreases t.len() + 2 - p,
{
    lemma_saetning_frem(t, p);
    lemma_blok_frem(t, p);
}

proof fn lemma_hvis_frem(t: Seq<TokenV>, p: nat)
    requires
        p <= t.len() + 1,
    ensures
        parse_hvis(t, p) matches Ok((_, q)) ==> p < q <= t.len(),
    decreases t.len() + 2 - p, 0nat,
{
    lemma_parse_udtryk(t, p + 1);
    lemma_udtryk_inden(t, p + 1);
    if let Ok((_, p1)) = parse_udtryk(t, p + 1) {
        let p2b = valgfrit_linjeskift(t, p1 + 1);
        if p2b <= t.len() + 1 {
            lemma_blok_frem(t, p2b);
            if let Ok((_, p3)) = parse_blok(t, p2b) {
                let p3 = efter(p3, p);
                let p4 = valgfrit_linjeskift(t, p3 + 1);
                if p4 <= t.len() + 1 {
                    lemma_blok_frem(t, p4);
                }
            }
        }
    }
}

proof fn lemma_loekke_frem(t: Seq<TokenV>, p: nat)
    requires
        p <= t.len() + 1,
    ensures
        parse_loekke(t, p) matches Ok((_, q)) ==> p < q <= t.len(),
    decreases t.len() + 2 - p, 0nat,
{
    lemma_parse_udtryk(t, p + 1);
    lemma_udtryk_inden(t, p + 1);
    if let Ok((_, p1)) = parse_udtryk(t, p + 1) {
        let p2b = valgfrit_linjeskift(t, p1 + 1);
        if p2b <= t.len() + 1 {
            lemma_blok_frem(t, p2b);
        }
    }
}

proof fn lemma_saetning_frem(t: Seq<TokenV>, p: nat)
    ensures
        parse_saetning(t, p) matches Ok((_, q)) ==> p < q <= t.len(),
    decreases t.len() + 2 - p, 1nat,
{
    if p <= t.len() + 1 {
        lemma_parse_udtryk(t, p);
        lemma_udtryk_inden(t, p);
        lemma_parse_udtryk(t, p + 1);
        lemma_udtryk_inden(t, p + 1);
        lemma_parse_udtryk(t, p + 2);
        lemma_udtryk_inden(t, p + 2);
        lemma_parse_udtryk(t, p + 3);
        lemma_udtryk_inden(t, p + 3);
        lemma_parse_udtryk(t, p + 4);
        lemma_udtryk_inden(t, p + 4);
        lemma_parse_udtryk(t, p + 5);
        lemma_udtryk_inden(t, p + 5);
        match tok(t, p) {
            TokenV::Hvis => lemma_hvis_frem(t, p),
            TokenV::Gentag | TokenV::Mens => lemma_loekke_frem(t, p),
            TokenV::Funktion => lemma_funktion_frem(t, p),
            _ => {},
        }
    }
}

proof fn lemma_funktion_frem(t: Seq<TokenV>, p: nat)
    requires
        p <= t.len() + 1,
    ensures
        parse_funktion(t, p) matches Ok((_, q)) ==> p < q <= t.len(),
    decreases t.len() + 2 - p, 0nat,
{
    if let Ok((navn, p1)) = forvent_navn(t, p + 1) {
        if let Ok(p2) = forvent(t, p1, TokenV::VenstreParentes) {
            lemma_parametre_frem(t, p2);
            if let Ok((ps, p3)) = parametre(t, p2) {
                if let Ok((rt, p4)) = returtype_del(t, naeste(p3, p, t.len())) {
                    let x = valgfrit_linjeskift(t, p4);
                    if x <= t.len() + 1 {
                        lemma_blok_frem(t, x);
                    }
                }
            }
        }
    }
}

proof fn lemma_blok_frem(t: Seq<TokenV>, p: nat)
    ensures
        parse_blok(t, p) matches Ok((_, q)) ==> p <= q && (p <= t.len() ==> q <= t.len()),
    decreases t.len() + 2 - p, 2nat,
{
    if p <= t.len() + 1 {
        match tok(t, p) {
            TokenV::Slut | TokenV::Ellers | TokenV::FilSlut => {},
            TokenV::Newline => lemma_blok_frem(t, p + 1),
            _ => {
                lemma_saetning_frem(t, p);
                if let Ok((_, p1)) = parse_saetning(t, p) {
                    let p1 = efter(p1, p);
                    if tok(t, p1) == TokenV::Newline {
                        lemma_blok_frem(t, p1 + 1);
                    }
                }
            },
        }
    }
}

/// A successful expression ends within the tokens.
pub proof fn lemma_udtryk_inden(t: Seq<TokenV>, p: nat)
    ensures
        parse_udtryk(t, p) matches Ok((_, q)) ==> q <= t.len(),
        parse_addition(t, p) matches Ok((_, q)) ==> q <= t.len(),
{
    lemma_udtryk_frem(t, p);
    lemma_addition_frem(t, p);
}

/// One instruction of a program: a statement and the line break after it (or the end).
#[verifier::opaque]
pub open spec fn instruktion(t: Seq<TokenV>, p: nat) -> Result<(SaetningV, nat), SyntaksfejlV> {
    match parse_saetning(t, p) {
        Err(e) => Err(e),
        Ok((s, p1)) => match tok(t, p1) {
            TokenV::Newline => Ok((s, p1 + 1)),
            TokenV::FilSlut => Ok((s, p1)),
            x => Err(SyntaksfejlV::ForventedeLinjeskift(x)),
        },
    }
}

/// The statements of a program from position `p`: each is followed by a line
/// break or by the end.
pub open spec fn program_fra(t: Seq<TokenV>, p: nat) -> Result<Seq<SaetningV>, SyntaksfejlV>
    decreases t.len() + 1 - p,
{
    if p >= t.len() || tok(t, p) == TokenV::FilSlut {
        Ok(Seq::empty())
    } else {
        proof {
            lemma_instruktion_frem(t, p);
        }
        match instruktion(t, p) {
            Err(e) => Err(e),
            Ok((s, p1)) => match program_fra(t, p1) {
                Err(e) => Err(e),
                Ok(rest) => Ok(seq![s] + rest),
            },
        }
    }
}

pub proof fn lemma_instruktion_frem(t: Seq<TokenV>, p: nat)
    ensures
        instruktion(t, p) matches Ok((_, q)) ==> p < q <= t.len(),
{
    reveal(instruktion);
    lemma_fremskridt(t, p);
}

/// The program that a list of tokens makes up.
pub open spec fn parse_program(t: Seq<TokenV>) -> Result<Seq<SaetningV>, SyntaksfejlV> {
    program_fra(t, 0)
}

/// A token the parser expects at a fixed place in a statement.
pub open spec fn fast_token(f: TokenV) -> bool {
    f == TokenV::Som || f == TokenV::Ligmed || f == TokenV::Hukommelse || f == TokenV::Saa
        || f == TokenV::Slut || f == TokenV::Gange || f == TokenV::VenstreParentes || f == TokenV::HoejreParentes
}

/// Whether a token is the expected one.
fn er_token(t: &Token, f: &Token) -> (r: bool)
    requires
        fast_token(f@),
    ensures
        r == (t@ == f@),
{
    match f {
        Token::Som => matches!(t, Token::Som),
        Token::Ligmed => matches!(t, Token::Ligmed),
        Token::Hukommelse => matches!(t, Token::Hukommelse),
        Token::Saa => matches!(t, Token::Saa),
        Token::Slut => matches!(t, Token::Slut),
        Token::Gange => matches!(t, Token::Gange),
        Token::VenstreParentes => matches!(t, Token::VenstreParentes),
        Token::HoejreParentes => matches!(t, Token::HoejreParentes),
        _ => false,
    }
}

pub open spec fn udtryk_svar(r: Result<Udtryk, Syntaksfejl>, s: Result<(UdtrykV, nat), SyntaksfejlV>, pos: nat) -> bool {
    match s {
        Ok((u, q)) => (r matches Ok(x) && x@ == u) && pos == q,
        Err(e) => r matches Err(x) && x@ == e,
    }
}

pub open spec fn liste_svar(r: Result<Vec<Udtryk>, Syntaksfejl>, s: Result<(Seq<UdtrykV>, nat), SyntaksfejlV>, pos: nat) -> bool {
    match s {
        Ok((u, q)) => (r matches Ok(x) && udtryk_liste_v(x@) == u) && pos == q,
        Err(e) => r matches Err(x) && x@ == e,
    }
}

proof fn lemma_udtryk_liste_foran(l: Seq<Udtryk>, u: Udtryk)
    ensures
        udtryk_liste_v(l.insert(0, u)) == seq![udtryk_v(u)] + udtryk_liste_v(l),
{
    assert(l.insert(0, u).drop_first() =~= l);
    assert(l.insert(0, u)[0] == u);
}

pub open spec fn parametre_svar(r: Result<Vec<(String, Type)>, Syntaksfejl>,
    s: Result<(Seq<(Seq<char>, Type)>, nat), SyntaksfejlV>, pos: nat) -> bool {
    match s {
        Ok((u, q)) => (r matches Ok(x) && parametre_v(x@) == u) && pos == q,
        Err(e) => r matches Err(x) && x@ == e,
    }
}

pub open spec fn saetning_svar(r: Result<Saetning, Syntaksfejl>, s: Result<(SaetningV, nat), SyntaksfejlV>, pos: nat) -> bool {
    match s {
        Ok((u, q)) => (r matches Ok(x) && x@ == u) && pos == q,
        Err(e) => r matches Err(x) && x@ == e,
    }
}

pub open spec fn blok_svar(r: Result<Vec<Saetning>, Syntaksfejl>, s: Result<(Seq<SaetningV>, nat), SyntaksfejlV>, pos: nat) -> bool {
    match s {
        Ok((u, q)) => (r matches Ok(x) && blok_v(x@) == u) && pos == q,
        Err(e) => r matches Err(x) && x@ == e,
    }
}

pub open spec fn blok_foran(acc: Seq<SaetningV>, r: Result<(Seq<SaetningV>, nat), SyntaksfejlV>) -> Result<(Seq<SaetningV>, nat), SyntaksfejlV> {
    match r {
        Ok((s, q)) => Ok((acc + s, q)),
        Err(e) => Err(e),
    }
}

pub open spec fn program_foran(acc: Seq<SaetningV>, r: Result<Seq<SaetningV>, SyntaksfejlV>) -> Result<Seq<SaetningV>, SyntaksfejlV> {
    match r {
        Ok(s) => Ok(acc + s),
        Err(e) => Err(e),
    }
}

proof fn lemma_blok_foran_tom(acc: Seq<SaetningV>, r: Result<(Seq<SaetningV>, nat), SyntaksfejlV>)
    ensures
        blok_foran(Seq::empty(), r) == r,
{
    if let Ok((s, q)) = r {
        assert(Seq::<SaetningV>::empty() + s =~= s);
    }
}

proof fn lemma_blok_foran_fejl(acc: Seq<SaetningV>, r: Result<(Seq<SaetningV>, nat), SyntaksfejlV>)
    ensures
        blok_foran(acc, r) == r || r is Ok,
{
}

proof fn lemma_blok_foran_skub(acc: Seq<SaetningV>, s: SaetningV, r: Result<(Seq<SaetningV>, nat), SyntaksfejlV>)
    ensures
        blok_foran(acc.push(s), r) == blok_foran(acc, blok_foran(seq![s], r)),
{
    if let Ok((x, q)) = r {
        assert(acc.push(s) + x =~= acc + (seq![s] + x));
    }
}

proof fn lemma_program_foran_tom(acc: Seq<SaetningV>, r: Result<Seq<SaetningV>, SyntaksfejlV>)
    ensures
        program_foran(Seq::empty(), r) == r,
{
    if let Ok(s) = r {
        assert(Seq::<SaetningV>::empty() + s =~= s);
    }
}

proof fn lemma_program_foran_fejl(r: Result<Seq<SaetningV>, SyntaksfejlV>)
    ensures
        program_foran(Seq::empty(), r) == r,
{
    lemma_program_foran_tom(Seq::empty(), r);
}

proof fn lemma_program_foran_skub(acc: Seq<SaetningV>, s: SaetningV, r: Result<Seq<SaetningV>, SyntaksfejlV>)
    ensures
        program_foran(acc.push(s), r) == program_foran(acc, program_foran(seq![s], r)),
{
    if let Ok(x) = r {
        assert(acc.push(s) + x =~= acc + (seq![s] + x));
    }
}

proof fn lemma_blok_skub(b: Seq<Saetning>, s: Saetning)
    ensures
        blok_v(b.push(s)) == blok_v(b).push(saetning_v(s)),
{
    lemma_blok_v(b);
    lemma_blok_v(b.push(s));
    assert(blok_v(b.push(s)) =~= blok_v(b).push(saetning_v(s)));
}

/// The parser: turns a list of tokens into a syntax tree.
pub struct Parser {
    tokens: Vec<Token>,
    position: usize,
}

impl Parser {
    /// The tokens.
    pub closed spec fn tokens(&self) -> Seq<TokenV> {
        tokens_v(self.tokens@)
    }

    /// How far the parser has read.
    pub closed spec fn pos(&self) -> nat {
        self.position as nat
    }

    /// The parser stands within its tokens (or just after them).
    pub closed spec fn gyldig(&self) -> bool {
        &&& self.position <= self.tokens@.len()
        &&& self.tokens@.len() < usize::MAX
    }

    /// A parser at the first of the tokens.
    pub fn ny(tokens: Vec<Token>) -> (p: Parser)
        requires
            tokens@.len() < usize::MAX,
        ensures
            p.tokens() == tokens_v(tokens@),
            p.pos() == 0,
            p.gyldig(),
    {
        Parser { tokens, position: 0 }
    }

    fn kig(&self) -> (t: Token)
        ensures
            t@ == tok(self.tokens(), self.position as nat),
    {
        if self.position < self.tokens.len() {
            self.tokens[self.position].kopi()
        } else {
            Token::FilSlut
        }
    }

    fn spis(&mut self) -> (t: Token)
        requires
            old(self).gyldig(),
        ensures
            t@ == tok(old(self).tokens(), old(self).position as nat),
            final(self).tokens == old(self).tokens,
            final(self).position == old(self).position + 1,
            t@ != TokenV::FilSlut ==> final(self).gyldig(),
    {
        let t = self.kig();
        self.position = self.position + 1;
        t
    }

    fn forvent(&mut self, f: Token) -> (r: Result<Token, Syntaksfejl>)
        requires
            old(self).gyldig(),
            fast_token(f@),
        ensures
            final(self).tokens@ == old(self).tokens@,
            match forvent(old(self).tokens(), old(self).pos(), f@) {
                Ok(q) => r is Ok && final(self).pos() == q && final(self).gyldig(),
                Err(e) => r matches Err(x) && x@ == e,
            },
    {
        let t = self.spis();
        if er_token(&t, &f) {
            Ok(t)
        } else {
            Err(Syntaksfejl::Forventede { forventet: f, fandt: t })
        }
    }

    fn forvent_ident(&mut self) -> (r: Result<String, Syntaksfejl>)
        requires
            old(self).gyldig(),
        ensures
            final(self).tokens@ == old(self).tokens@,
            match forvent_navn(old(self).tokens(), old(self).pos()) {
                Ok((n, q)) => (r matches Ok(x) && x@ == n) && final(self).pos() == q && final(self).gyldig(),
                Err(e) => r matches Err(x) && x@ == e,
            },
    {
        match self.spis() {
            Token::Ident(navn) => Ok(navn),
            t => Err(Syntaksfejl::ForventedeNavn(t)),
        }
    }

    fn parse_type(&mut self) -> (r: Result<Type, Syntaksfejl>)
        requires
            old(self).gyldig(),
        ensures
            final(self).tokens@ == old(self).tokens@,
            match parse_type(old(self).tokens(), old(self).pos()) {
                Ok((ty, q)) => (r matches Ok(x) && x == ty) && final(self).pos() == q && final(self).gyldig(),
                Err(e) => r matches Err(x) && x@ == e,
            },
    {
        match self.spis() {
            Token::Nummer => Ok(Type::Nummer),
            Token::Streng => Ok(Type::Streng),
            Token::SandFalsk => Ok(Type::SandFalsk),
            t => Err(Syntaksfejl::ForventedeType(t)),
        }
    }

    /// One single value.
    fn parse_primaer(&mut self) -> (r: Result<Udtryk, Syntaksfejl>)
        requires
            old(self).gyldig(),
        ensures
            final(self).tokens@ == old(self).tokens@,
            final(self).gyldig() || r is Err,
            udtryk_svar(r, parse_primaer(old(self).tokens(), old(self).pos()), final(self).pos()),
        decreases old(self).tokens@.len() + 2 - old(self).position, 0nat,
    {
        let ghost t = self.tokens();
        let ghost p = self.pos();
        proof {
            lemma_primaer_frem(t, p);
        }
        match self.spis() {
            Token::BogstavLiteral(s) => Ok(Udtryk::Bogstav(s)),
            Token::TalLiteral(n) => Ok(Udtryk::Tal(n)),
            Token::Minus => match self.kig() {
                Token::TalLiteral(n) => {
                    self.spis();
                    let mut s = tekst("-");
                    s.append(n.as_str());
                    proof {
                        reveal_strlit("-");
                        assert(s@ =~= seq!['-'] + n@);
                    }
                    Ok(Udtryk::Tal(s))
                },
                _ => Err(Syntaksfejl::ForventedeVaerdi(Token::Minus)),
            },
            Token::Sand => Ok(Udtryk::BoolLiteral(true)),
            Token::Falsk => Ok(Udtryk::BoolLiteral(false)),
            Token::Ident(navn) => {
                if matches!(self.kig(), Token::VenstreParentes) {
                    self.spis();
                    match self.parse_argumenter() {
                        Ok(a) => Ok(Udtryk::FunktionsKald { navn, argumenter: a }),
                        Err(e) => Err(e),
                    }
                } else {
                    Ok(Udtryk::Variable(navn))
                }
            },
            Token::VenstreParentes => {
                proof {
                    lemma_udtryk_frem(t, p + 1);
                }
                let u = match self.parse_udtryk() {
                    Ok(u) => u,
                    Err(e) => return Err(e),
                };
                match self.forvent(Token::HoejreParentes) {
                    Ok(_) => Ok(u),
                    Err(e) => Err(e),
                }
            },
            x => Err(Syntaksfejl::ForventedeVaerdi(x)),
        }
    }

    /// The arguments of a call after its `(`.
    fn parse_argumenter(&mut self) -> (r: Result<Vec<Udtryk>, Syntaksfejl>)
        requires
            old(self).gyldig(),
        ensures
            final(self).tokens@ == old(self).tokens@,
            final(self).gyldig() || r is Err,
            liste_svar(r, argumenter(old(self).tokens(), old(self).pos()), final(self).pos()),
        decreases old(self).tokens@.len() + 2 - old(self).position, 4nat,
    {
        if self.position >= self.tokens.len() {
            return Err(Syntaksfejl::ForventedeVaerdi(Token::FilSlut));
        }
        if matches!(self.kig(), Token::HoejreParentes) {
            self.spis();
            let v: Vec<Udtryk> = Vec::new();
            assert(udtryk_liste_v(v@) =~= Seq::<UdtrykV>::empty());
            return Ok(v);
        }
        self.parse_argliste()
    }

    /// Expressions separated by commas, up to and with the `)`.
    fn parse_argliste(&mut self) -> (r: Result<Vec<Udtryk>, Syntaksfejl>)
        requires
            old(self).gyldig(),
        ensures
            final(self).tokens@ == old(self).tokens@,
            final(self).gyldig() || r is Err,
            liste_svar(r, argliste(old(self).tokens(), old(self).pos()), final(self).pos()),
        decreases old(self).tokens@.len() + 2 - old(self).position, 3nat,
    {
        let ghost t = self.tokens();
        let ghost p = self.pos();
        if self.position >= self.tokens.len() {
            return Err(Syntaksfejl::ForventedeVaerdi(Token::FilSlut));
        }
        proof {
            lemma_udtryk_frem(t, p);
        }
        let u = match self.parse_udtryk() {
            Ok(u) => u,
            Err(e) => return Err(e),
        };
        let ghost uv = u@;
        match self.kig() {
            Token::Komma => {
                self.spis();
                let mut rest = match self.parse_argliste() {
                    Ok(x) => x,
                    Err(e) => return Err(e),
                };
                let ghost rv = rest@;
                rest.insert(0, u);
                proof {
                    lemma_udtryk_liste_foran(rv, rest@[0]);
                    assert(rv.insert(0, rest@[0]) =~= rest@);
                }
                Ok(rest)
            },
            Token::HoejreParentes => {
                self.spis();
                let mut v: Vec<Udtryk> = Vec::new();
                v.insert(0, u);
                proof {
                    lemma_udtryk_liste_foran(Seq::empty(), v@[0]);
                    assert(Seq::<Udtryk>::empty().insert(0, v@[0]) =~= v@);
                    assert(udtryk_liste_v(Seq::<Udtryk>::empty()) =~= Seq::<UdtrykV>::empty());
                    assert(seq![uv] + Seq::<UdtrykV>::empty() =~= seq![uv]);
                }
                Ok(v)
            },
            x => Err(Syntaksfejl::Forventede { forventet: Token::HoejreParentes, fandt: x }),
        }
    }

    /// Addition and subtraction (left associative).
    fn parse_addition(&mut self) -> (r: Result<Udtryk, Syntaksfejl>)
        requires
            old(self).gyldig(),
        ensures
            final(self).tokens@ == old(self).tokens@,
            final(self).gyldig() || r is Err,
            udtryk_svar(r, parse_addition(old(self).tokens(), old(self).pos()), final(self).pos()),
        decreases old(self).tokens@.len() + 2 - old(self).position, 1nat,
    {
        let ghost t = self.tokens();
        let ghost p0 = self.pos();
        proof {
            lemma_primaer_frem(t, p0);
        }
        let mut venstre = match self.parse_primaer() {
            Ok(v) => v,
            Err(e) => return Err(e),
        };
        loop
            invariant
                self.gyldig(),
                self.tokens@ == old(self).tokens@,
                t == self.tokens(),
                p0 == old(self).pos(),
                p0 < self.pos() <= t.len(),
                parse_addition(t, p0) == addition_rest(t, self.pos(), venstre@),
            ensures
                self.gyldig(),
                self.tokens@ == old(self).tokens@,
                parse_addition(t, p0) == Ok::<(UdtrykV, nat), SyntaksfejlV>((venstre@, self.pos())),
            decreases self.tokens@.len() - self.position,
        {
            let ghost p = self.pos();
            let op = match self.kig() {
                Token::Plus => Operator::Plus,
                Token::Minus => Operator::Minus,
                _ => break,
            };
            self.spis();
            proof {
                lemma_primaer_frem(t, p + 1);
            }
            let hoejre = match self.parse_primaer() {
                Ok(h) => h,
                Err(e) => return Err(e),
            };
            venstre = Udtryk::BinaerOp { venstre: Box::new(venstre), operator: op, hoejre: Box::new(hoejre) };
        }
        Ok(venstre)
    }

    /// One expression: a comparison binds more loosely than `+` and `-`.
    fn parse_udtryk(&mut self) -> (r: Result<Udtryk, Syntaksfejl>)
        requires
            old(self).gyldig(),
        ensures
            final(self).tokens@ == old(self).tokens@,
            final(self).gyldig() || r is Err,
            udtryk_svar(r, parse_udtryk(old(self).tokens(), old(self).pos()), final(self).pos()),
        decreases old(self).tokens@.len() + 2 - old(self).position, 2nat,
    {
        let ghost t = self.tokens();
        let ghost p0 = self.pos();
        proof {
            lemma_addition_frem(t, p0);
        }
        let venstre = match self.parse_addition() {
            Ok(v) => v,
            Err(e) => return Err(e),
        };
        let op = match self.kig() {
            Token::ErLig => Operator::ErLig,
            Token::ErIkke => Operator::ErIkke,
            Token::Mindre => Operator::Mindre,
            Token::Stoerre => Operator::Stoerre,
            Token::MindreEllerLig => Operator::MindreEllerLig,
            Token::StoerreEllerLig => Operator::StoerreEllerLig,
            _ => return Ok(venstre),
        };
        self.spis();
        let hoejre = match self.parse_addition() {
            Ok(h) => h,
            Err(e) => return Err(e),
        };
        Ok(Udtryk::BinaerOp { venstre: Box::new(venstre), operator: op, hoejre: Box::new(hoejre) })
    }

    fn parse_erklaer(&mut self) -> (r: Result<Saetning, Syntaksfejl>)
        requires
            old(self).gyldig(),
            tok(old(self).tokens(), old(self).pos()) == TokenV::Erklaer,
        ensures
            final(self).tokens@ == old(self).tokens@,
            final(self).gyldig() || r is Err,
            saetning_svar(r, parse_erklaer(old(self).tokens(), old(self).pos()), final(self).pos()),
    {
        self.spis();
        let navn = match self.forvent_ident() {
            Ok(n) => n,
            Err(e) => return Err(e),
        };
        match self.forvent(Token::Som) {
            Ok(_) => {},
            Err(e) => return Err(e),
        }
        let type_ = match self.parse_type() {
            Ok(t) => t,
            Err(e) => return Err(e),
        };
        // An optional start value: = <udtryk>
        let startvaerdi = if matches!(self.kig(), Token::Ligmed) {
            self.spis();
            match self.parse_udtryk() {
                Ok(u) => Some(u),
                Err(e) => return Err(e),
            }
        } else {
            None
        };
        Ok(Saetning::Erklaer { navn, type_, startvaerdi })
    }

    fn parse_saet(&mut self) -> (r: Result<Saetning, Syntaksfejl>)
        requires
            old(self).gyldig(),
            tok(old(self).tokens(), old(self).pos()) == TokenV::Saet,
        ensures
            final(self).tokens@ == old(self).tokens@,
            final(self).gyldig() || r is Err,
            saetning_svar(r, parse_saet(old(self).tokens(), old(self).pos()), final(self).pos()),
    {
        self.spis();
        let navn = match self.forvent_ident() {
            Ok(n) => n,
            Err(e) => return Err(e),
        };
        match self.forvent(Token::Ligmed) {
            Ok(_) => {},
            Err(e) => return Err(e),
        }
        let udtryk = match self.parse_udtryk() {
            Ok(u) => u,
            Err(e) => return Err(e),
        };
        Ok(Saetning::Saet { navn, udtryk })
    }

    fn spis_linjeskift(&mut self)
        requires
            old(self).gyldig(),
        ensures
            final(self).gyldig(),
            final(self).tokens@ == old(self).tokens@,
            final(self).pos() == valgfrit_linjeskift(old(self).tokens(), old(self).pos()),
    {
        if matches!(self.kig(), Token::Newline) {
            self.spis();
        }
    }

    fn parse_hvis(&mut self) -> (r: Result<Saetning, Syntaksfejl>)
        requires
            old(self).gyldig(),
            tok(old(self).tokens(), old(self).pos()) == TokenV::Hvis,
        ensures
            final(self).tokens@ == old(self).tokens@,
            final(self).gyldig() || r is Err,
            saetning_svar(r, parse_hvis(old(self).tokens(), old(self).pos()), final(self).pos()),
        decreases old(self).tokens@.len() + 2 - old(self).position, 0nat,
    {
        let ghost t = self.tokens();
        let ghost p = self.pos();
        proof {
            lemma_parse_udtryk(t, p + 1);
            lemma_udtryk_inden(t, p + 1);
        }
        self.spis();
        let betingelse = match self.parse_udtryk() {
            Ok(u) => u,
            Err(e) => return Err(e),
        };
        match self.forvent(Token::Saa) {
            Ok(_) => {},
            Err(e) => return Err(e),
        }
        self.spis_linjeskift();
        let ghost p2b = self.pos();
        proof {
            lemma_fremskridt(t, p2b);
        }
        let saa_gren = match self.parse_blok() {
            Ok(b) => b,
            Err(e) => return Err(e),
        };
        assert(efter(self.pos(), p) == self.pos());
        let ellers_gren = if matches!(self.kig(), Token::Ellers) {
            self.spis();
            self.spis_linjeskift();
            proof {
                lemma_fremskridt(t, self.pos());
            }
            match self.parse_blok() {
                Ok(b) => Some(b),
                Err(e) => return Err(e),
            }
        } else {
            None
        };
        match self.forvent(Token::Slut) {
            Ok(_) => {},
            Err(e) => return Err(e),
        }
        Ok(Saetning::Hvis { betingelse, saa_gren, ellers_gren })
    }

    fn parse_loekke(&mut self) -> (r: Result<Saetning, Syntaksfejl>)
        requires
            old(self).gyldig(),
            tok(old(self).tokens(), old(self).pos()) == TokenV::Gentag
                || tok(old(self).tokens(), old(self).pos()) == TokenV::Mens,
        ensures
            final(self).tokens@ == old(self).tokens@,
            final(self).gyldig() || r is Err,
            saetning_svar(r, parse_loekke(old(self).tokens(), old(self).pos()), final(self).pos()),
        decreases old(self).tokens@.len() + 2 - old(self).position, 0nat,
    {
        let ghost t = self.tokens();
        let ghost p = self.pos();
        proof {
            lemma_parse_udtryk(t, p + 1);
            lemma_udtryk_inden(t, p + 1);
        }
        let gentag = matches!(self.spis(), Token::Gentag);
        let udtryk = match self.parse_udtryk() {
            Ok(u) => u,
            Err(e) => return Err(e),
        };
        match self.forvent(if gentag { Token::Gange } else { Token::Saa }) {
            Ok(_) => {},
            Err(e) => return Err(e),
        }
        self.spis_linjeskift();
        let krop = match self.parse_blok() {
            Ok(b) => b,
            Err(e) => return Err(e),
        };
        match self.forvent(Token::Slut) {
            Ok(_) => {},
            Err(e) => return Err(e),
        }
        if gentag {
            Ok(Saetning::Gentag { antal: udtryk, krop })
        } else {
            Ok(Saetning::Mens { betingelse: udtryk, krop })
        }
    }

    /// The parameters of a definition after its `(`.
    fn parse_parametre(&mut self) -> (r: Result<Vec<(String, Type)>, Syntaksfejl>)
        requires
            old(self).gyldig(),
        ensures
            final(self).tokens@ == old(self).tokens@,
            final(self).gyldig() || r is Err,
            parametre_svar(r, parametre(old(self).tokens(), old(self).pos()), final(self).pos()),
    {
        if matches!(self.kig(), Token::HoejreParentes) {
            self.spis();
            let v: Vec<(String, Type)> = Vec::new();
            assert(parametre_v(v@) =~= Seq::<(Seq<char>, Type)>::empty());
            return Ok(v);
        }
        self.parse_parameterliste()
    }

    /// Parameters separated by commas, up to and with the `)`.
    fn parse_parameterliste(&mut self) -> (r: Result<Vec<(String, Type)>, Syntaksfejl>)
        requires
            old(self).gyldig(),
        ensures
            final(self).tokens@ == old(self).tokens@,
            final(self).gyldig() || r is Err,
            parametre_svar(r, parameterliste(old(self).tokens(), old(self).pos()), final(self).pos()),
        decreases old(self).tokens@.len() + 1 - old(self).position,
    {
        let navn = match self.forvent_ident() {
            Ok(n) => n,
            Err(e) => return Err(e),
        };
        match self.forvent(Token::Som) {
            Ok(_) => {},
            Err(e) => return Err(e),
        }
        let type_ = match self.parse_type() {
            Ok(t) => t,
            Err(e) => return Err(e),
        };
        let ghost par = (navn@, type_);
        match self.kig() {
            Token::Komma => {
                self.spis();
                let mut rest = match self.parse_parameterliste() {
                    Ok(x) => x,
                    Err(e) => return Err(e),
                };
                let ghost rv = rest@;
                rest.insert(0, (navn, type_));
                proof {
                    assert(parametre_v(rest@) =~= seq![par] + parametre_v(rv));
                }
                Ok(rest)
            },
            Token::HoejreParentes => {
                self.spis();
                let mut v: Vec<(String, Type)> = Vec::new();
                v.push((navn, type_));
                proof {
                    assert(parametre_v(v@) =~= seq![par]);
                }
                Ok(v)
            },
            x => Err(Syntaksfejl::Forventede { forventet: Token::HoejreParentes, fandt: x }),
        }
    }

    fn parse_funktion(&mut self) -> (r: Result<Saetning, Syntaksfejl>)
        requires
            old(self).gyldig(),
            tok(old(self).tokens(), old(self).pos()) == TokenV::Funktion,
        ensures
            final(self).tokens@ == old(self).tokens@,
            final(self).gyldig() || r is Err,
            saetning_svar(r, parse_funktion(old(self).tokens(), old(self).pos()), final(self).pos()),
        decreases old(self).tokens@.len() + 2 - old(self).position, 0nat,
    {
        let ghost t = self.tokens();
        let ghost p = self.pos();
        self.spis();
        let navn = match self.forvent_ident() {
            Ok(n) => n,
            Err(e) => return Err(e),
        };
        match self.forvent(Token::VenstreParentes) {
            Ok(_) => {},
            Err(e) => return Err(e),
        }
        proof {
            lemma_parametre_frem(t, self.pos());
        }
        let parametre = match self.parse_parametre() {
            Ok(ps) => ps,
            Err(e) => return Err(e),
        };
        let returtype = if matches!(self.kig(), Token::Giver) {
            self.spis();
            match self.parse_type() {
                Ok(ty) => Some(ty),
                Err(e) => return Err(e),
            }
        } else {
            None
        };
        self.spis_linjeskift();
        proof {
            lemma_fremskridt(t, self.pos());
        }
        let krop = match self.parse_blok() {
            Ok(b) => b,
            Err(e) => return Err(e),
        };
        assert(efter(self.pos(), p) == self.pos());
        match self.forvent(Token::Slut) {
            Ok(_) => {},
            Err(e) => return Err(e),
        }
        Ok(Saetning::FunktionDef { navn, parametre, returtype, krop })
    }

    fn parse_returner(&mut self) -> (r: Result<Saetning, Syntaksfejl>)
        requires
            old(self).gyldig(),
            tok(old(self).tokens(), old(self).pos()) == TokenV::Returner,
        ensures
            final(self).tokens@ == old(self).tokens@,
            final(self).gyldig() || r is Err,
            saetning_svar(r, parse_saetning(old(self).tokens(), old(self).pos()), final(self).pos()),
    {
        self.spis();
        match self.kig() {
            Token::Newline | Token::FilSlut | Token::Slut | Token::Ellers => Ok(Saetning::Returner(None)),
            _ => match self.parse_udtryk() {
                Ok(u) => Ok(Saetning::Returner(Some(u))),
                Err(e) => Err(e),
            },
        }
    }

    fn parse_kaldsaetning(&mut self) -> (r: Result<Saetning, Syntaksfejl>)
        requires
            old(self).gyldig(),
            tok(old(self).tokens(), old(self).pos()) is Ident,
        ensures
            final(self).tokens@ == old(self).tokens@,
            final(self).gyldig() || r is Err,
            saetning_svar(r, parse_saetning(old(self).tokens(), old(self).pos()), final(self).pos()),
    {
        let ghost t = self.tokens();
        let ghost p = self.pos();
        let foerste = self.kig();
        if self.position + 1 < self.tokens.len() && matches!(self.tokens[self.position + 1], Token::VenstreParentes) {
            match self.parse_udtryk() {
                Ok(u) => Ok(Saetning::Udtryksaetning(u)),
                Err(e) => Err(e),
            }
        } else {
            Err(Syntaksfejl::UventetToken(foerste))
        }
    }

    /// One statement.
    fn parse_saetning(&mut self) -> (r: Result<Saetning, Syntaksfejl>)
        requires
            old(self).gyldig(),
        ensures
            final(self).tokens@ == old(self).tokens@,
            final(self).gyldig() || r is Err,
            saetning_svar(r, parse_saetning(old(self).tokens(), old(self).pos()), final(self).pos()),
        decreases old(self).tokens@.len() + 2 - old(self).position, 1nat,
    {
        match self.kig() {
            Token::Skriv => {
                self.spis();
                match self.parse_udtryk() {
                    Ok(u) => Ok(Saetning::Skriv(u)),
                    Err(e) => Err(e),
                }
            },
            Token::Erklaer => self.parse_erklaer(),
            Token::Saet => self.parse_saet(),
            Token::Vis => {
                self.spis();
                match self.forvent(Token::Hukommelse) {
                    Ok(_) => Ok(Saetning::VisHukommelse),
                    Err(e) => Err(e),
                }
            },
            Token::Hvis => self.parse_hvis(),
            Token::Gentag | Token::Mens => self.parse_loekke(),
            Token::Funktion => self.parse_funktion(),
            Token::Returner => self.parse_returner(),
            Token::Ident(_) => self.parse_kaldsaetning(),
            Token::FilSlut => Err(Syntaksfejl::UventetFilslut),
            t => Err(Syntaksfejl::UventetToken(t)),
        }
    }

    /// The statements of a block, up to `ellers` or `slut`.
    fn parse_blok(&mut self) -> (r: Result<Vec<Saetning>, Syntaksfejl>)
        requires
            old(self).gyldig(),
        ensures
            final(self).tokens@ == old(self).tokens@,
            final(self).gyldig() || r is Err,
            blok_svar(r, parse_blok(old(self).tokens(), old(self).pos()), final(self).pos()),
        decreases old(self).tokens@.len() + 2 - old(self).position, 2nat,
    {
        let ghost t = self.tokens();
        let ghost p0 = self.pos();
        let mut saetninger: Vec<Saetning> = Vec::new();
        proof {
            lemma_blok_v(saetninger@);
        }
        loop
            invariant_except_break
                blok_foran(Seq::empty(), parse_blok(t, p0)) == blok_foran(blok_v(saetninger@), parse_blok(t, self.pos())),
            invariant
                self.gyldig(),
                self.tokens@ == old(self).tokens@,
                t == self.tokens(),
                p0 <= self.pos(),
                p0 == old(self).pos(),
            ensures
                self.gyldig(),
                self.tokens@ == old(self).tokens@,
                parse_blok(t, p0) == Ok::<(Seq<SaetningV>, nat), SyntaksfejlV>((blok_v(saetninger@), self.pos())),
            decreases self.tokens@.len() - self.position,
        {
            let ghost p = self.pos();
            match self.kig() {
                Token::Slut | Token::Ellers | Token::FilSlut => {
                    proof {
                        lemma_blok_foran_tom(blok_v(saetninger@), parse_blok(t, p0));
                    }
                    break;
                },
                Token::Newline => {
                    self.spis();
                },
                _ => {
                    let s = match self.parse_saetning() {
                        Ok(s) => s,
                        Err(e) => {
                            proof {
                                lemma_blok_foran_fejl(Seq::empty(), parse_blok(t, p0));
                            }
                            return Err(e);
                        },
                    };
                    proof {
                        lemma_fremskridt(t, p);
                    }
                    let ghost p1 = self.pos();
                    match self.kig() {
                        Token::Newline => {
                            self.spis();
                        },
                        Token::Slut | Token::Ellers | Token::FilSlut => {},
                        x => {
                            proof {
                                lemma_blok_foran_fejl(Seq::empty(), parse_blok(t, p0));
                            }
                            return Err(Syntaksfejl::ForventedeLinjeskiftIBlok(x));
                        },
                    }
                    let ghost gammel = saetninger@;
                    let ghost sv = s@;
                    saetninger.push(s);
                    proof {
                        lemma_blok_skub(gammel, s);
                        lemma_blok_foran_skub(blok_v(gammel), sv, parse_blok(t, self.pos()));
                    }
                },
            }
        }
        Ok(saetninger)
    }

    fn instruktion(&mut self) -> (r: Result<Saetning, Syntaksfejl>)
        requires
            old(self).gyldig(),
        ensures
            final(self).tokens@ == old(self).tokens@,
            final(self).gyldig() || r is Err,
            saetning_svar(r, instruktion(old(self).tokens(), old(self).pos()), final(self).pos()),
    {
        proof {
            reveal(instruktion);
        }
        let s = match self.parse_saetning() {
            Ok(s) => s,
            Err(e) => return Err(e),
        };
        match self.kig() {
            Token::Newline => {
                self.spis();
            },
            Token::FilSlut => {},
            x => return Err(Syntaksfejl::ForventedeLinjeskift(x)),
        }
        Ok(s)
    }

    /// All statements of the program, each followed by a line break or by the end.
    pub fn parse(&mut self) -> (r: Result<Vec<Saetning>, Syntaksfejl>)
        requires
            old(self).gyldig(),
        ensures
            match program_fra(old(self).tokens(), old(self).pos()) {
                Ok(s) => r matches Ok(x) && blok_v(x@) == s,
                Err(e) => r matches Err(x) && x@ == e,
            },
    {
        let ghost t = self.tokens();
        let ghost p0 = self.pos();
        let mut saetninger: Vec<Saetning> = Vec::new();
        proof {
            lemma_blok_v(saetninger@);
        }
        loop
            invariant_except_break
                program_foran(Seq::empty(), program_fra(t, p0)) == program_foran(blok_v(saetninger@), program_fra(t, self.pos())),
            invariant
                self.gyldig(),
                t == self.tokens(),
                t == old(self).tokens(),
                p0 == old(self).pos(),
            ensures
                program_fra(t, p0) == Ok::<Seq<SaetningV>, SyntaksfejlV>(blok_v(saetninger@)),
            decreases self.tokens@.len() - self.position,
        {
            let ghost p = self.pos();
            if matches!(self.kig(), Token::FilSlut) {
                proof {
                    lemma_program_foran_tom(blok_v(saetninger@), program_fra(t, p0));
                }
                break;
            }
            proof {
                lemma_instruktion_frem(t, p);
            }
            assert(program_foran(Seq::empty(), program_fra(t, p0)) == program_foran(blok_v(saetninger@), program_fra(t, p)));
            let s = match self.instruktion() {
                Ok(s) => s,
                Err(e) => {
                    proof {
                        assert(p < t.len());
                        assert(program_fra(t, p) == Err::<Seq<SaetningV>, SyntaksfejlV>(e@));
                        lemma_program_foran_fejl(program_fra(t, p0));
                    }
                    return Err(e);
                },
            };
            let ghost gammel = saetninger@;
            let ghost sv = s@;
            saetninger.push(s);
            proof {
                lemma_blok_skub(gammel, s);
                lemma_program_foran_skub(blok_v(gammel), sv, program_fra(t, self.pos()));
            }
        }
        Ok(saetninger)
    }
}

} // verus!