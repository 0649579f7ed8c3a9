//! Properties of the C code generator: the C operator written for an operator of
//! the language computes what that operator means.
use vstd::prelude::*;
use crate::ast::{Operator, Type, UdtrykV};
use crate::evaluator::{SvarV, StopV, Tilstand, VaerdiV, anvend};
use crate::kodegenerator::{c_udtryk, udled_type};

verus! {

/// What C's binary operator `o` gives on two numbers `x` and `y`: `+` and `-`
/// their sum and difference; a comparison (`<`, `<=`, `>`, `>=`, `==`, `!=`) 1
/// when it holds and 0 when it does not. Any other text is no such operator.
pub open spec fn c_operator_vaerdi(o: Seq<char>, x: int, y: int) -> Option<int> {
    if o.len() == 1 && o[0] == '+' {
        Some(x + y)
    } else if o.len() == 1 && o[0] == '-' {
        Some(x - y)
    } else if o.len() == 1 && o[0] == '<' {
        Some(if x < y { 1int } else { 0int })
    } else if o.len() == 2 && o[0] == '<' && o[1] == '=' {
        Some(if x <= y { 1int } else { 0int })
    } else if o.len() == 1 && o[0] == '>' {
        Some(if x > y { 1int } else { 0int })
    } else if o.len() == 2 && o[0] == '>' && o[1] == '=' {
        Some(if x >= y { 1int } else { 0int })
    } else if o.len() == 2 && o[0] == '=' && o[1] == '=' {
        Some(if x == y { 1int } else { 0int })
    } else if o.len() == 2 && o[0] == '!' && o[1] == '=' {
        Some(if x != y { 1int } else { 0int })
    } else {
        None
    }
}

/// What an operator of the language means on two numbers: `+` and `-` the sum
/// and the difference; `<`, `>`, `<=`, `>=`, `==` and `<>` whether the first is
/// less than, greater than, at most, at least, equal to or different from the
/// second, as 1 for `sand` and 0 for `falsk`.
pub open spec fn sproglig_vaerdi(op: Operator, x: int, y: int) -> int {
    match op {
        Operator::Plus => x + y,
        Operator::Minus => x - y,
        Operator::Mindre => if x < y { 1 } else { 0 },
        Operator::Stoerre => if x > y { 1 } else { 0 },
        Operator::MindreEllerLig => if x <= y { 1 } else { 0 },
        Operator::StoerreEllerLig => if x >= y { 1 } else { 0 },
        Operator::ErLig => if x == y { 1 } else { 0 },
        Operator::ErIkke => if x != y { 1 } else { 0 },
    }
}

/// An operator on numbers (or truth values) becomes, in C, the two operands in
/// parentheses around a C operator `o` between spaces, and `o` computes on any two
/// numbers what the operator means in the language: `>` for `Stoerre`, `>=` for
/// `StoerreEllerLig`, `<` for `Mindre`, `<=` for `MindreEllerLig`, `==` for
/// `ErLig`, `!=` for `ErIkke`, `+` and `-` for `Plus` and `Minus`. A comparison is
/// of the C kind of a truth value, `%d`, and so printed as `sand` or `falsk`; `+`
/// and `-` are of the kind of a number, `%g`.
pub proof fn lov_c_operator(v: UdtrykV, op: Operator, h: UdtrykV, tm: Seq<(Seq<char>, Type)>,
    ft: Seq<(Seq<char>, Option<Type>)>, tal: Seq<(Seq<char>, Seq<char>)>) -> (o: Seq<char>)
    requires
        udled_type(v, tm, ft) != Some(Type::Streng),
    ensures
        ({
            let (fmt, c) = c_udtryk(UdtrykV::BinaerOp { venstre: Box::new(v), operator: op, hoejre: Box::new(h) }, tm, ft, tal);
            &&& c == "("@ + c_udtryk(v, tm, ft, tal).1 + seq![' '] + o + seq![' '] + c_udtryk(h, tm, ft, tal).1 + ")"@
            &&& fmt == if op == Operator::Plus || op == Operator::Minus { "%g"@ } else { "%d"@ }
        }),
        forall|x: int, y: int| #[trigger] c_operator_vaerdi(o, x, y) == Some(sproglig_vaerdi(op, x, y)),
{
    let ve = c_udtryk(v, tm, ft, tal).1;
    let he = c_udtryk(h, tm, ft, tal).1;
    let o = match op {
        Operator::Plus => seq!['+'],
        Operator::Minus => seq!['-'],
        Operator::Mindre => seq!['<'],
        Operator::Stoerre => seq!['>'],
        Operator::MindreEllerLig => seq!['<', '='],
        Operator::StoerreEllerLig => seq!['>', '='],
        Operator::ErLig => seq!['=', '='],
        Operator::ErIkke => seq!['!', '='],
    };
    let midt = match op {
        Operator::Plus => " + "@,
        Operator::Minus => " - "@,
        Operator::Mindre => " < "@,
        Operator::Stoerre => " > "@,
        Operator::MindreEllerLig => " <= "@,
        Operator::StoerreEllerLig => " >= "@,
        Operator::ErLig => " == "@,
        Operator::ErIkke => " != "@,
    };
    reveal_strlit(" + ");
    reveal_strlit(" - ");
    reveal_strlit(" < ");
    reveal_strlit(" > ");
    reveal_strlit(" <= ");
    reveal_strlit(" >= ");
    reveal_strlit(" == ");
    reveal_strlit(" != ");
    assert(midt =~= seq![' '] + o + seq![' ']);
    assert("("@ + ve + midt + he + ")"@ =~= "("@ + ve + seq![' '] + o + seq![' '] + he + ")"@);
    o
}

/// Two texts compared with `==` or `<>` become, in C, a call of `strcmp` on the
/// two operands compared with 0 by a C operator `o`. `strcmp` gives 0 exactly
/// when the texts are equal, so where `d` is what it gives on two texts `a` and
/// `b`, the C value is 1 (`sand`) exactly when the interpreter finds the
/// comparison of `a` and `b` true: for `==` when `d` is 0, for `<>` when it is not.
pub proof fn lov_c_tekst_sammenligning(v: UdtrykV, op: Operator, h: UdtrykV, tm: Seq<(Seq<char>, Type)>,
    ft: Seq<(Seq<char>, Option<Type>)>, tal: Seq<(Seq<char>, Seq<char>)>,
    svar: Seq<SvarV>, st: Tilstand, a: Seq<char>, b: Seq<char>, d: int) -> (o: Seq<char>)
    requires
        udled_type(v, tm, ft) == Some(Type::Streng),
        op == Operator::ErLig || op == Operator::ErIkke,
        (d == 0) == (a == b),
    ensures
        ({
            let (fmt, c) = c_udtryk(UdtrykV::BinaerOp { venstre: Box::new(v), operator: op, hoejre: Box::new(h) }, tm, ft, tal);
            &&& c == "(strcmp("@ + c_udtryk(v, tm, ft, tal).1 + ", "@ + c_udtryk(h, tm, ft, tal).1 + seq![')', ' ']
                + o + seq![' ', '0', ')']
            &&& fmt == "%d"@
        }),
        forall|x: int| #[trigger] c_operator_vaerdi(o, x, 0) == Some(if (x == 0) == (op == Operator::ErLig) { 1int } else { 0int }),
        c_operator_vaerdi(o, d, 0) == Some(
            if anvend(svar, st, VaerdiV::Streng(a), op, VaerdiV::Streng(b)).1 == Ok::<VaerdiV, StopV>(VaerdiV::SandFalsk(true)) {
                1int
            } else {
                0int
            },
        ),
{
    let ve = c_udtryk(v, tm, ft, tal).1;
    let he = c_udtryk(h, tm, ft, tal).1;
    let o = if op == Operator::ErLig { seq!['=', '='] } else { seq!['!', '='] };
    reveal_strlit(") == 0)");
    reveal_strlit(") != 0)");
    let slut = if op == Operator::ErLig { ") == 0)"@ } else { ") != 0)"@ };
    assert(slut =~= seq![')', ' '] + o + seq![' ', '0', ')']);
    assert("(strcmp("@ + ve + ", "@ + he + slut =~= "(strcmp("@ + ve + ", "@ + he + seq![')', ' '] + o + seq![' ', '0', ')']);
    o
}

} // verus!
