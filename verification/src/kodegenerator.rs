//! The code generator: turns the syntax tree into a C program.
//!
//! A number literal is written in C as the text the caller's table gives for it
//! (the number as std formats an `f64`); a literal the table lacks is written as
//! it stands in the source.
use vstd::prelude::*;
use crate::ast::{Operator, Saetning, SaetningV, Type, Udtryk, UdtrykV, str_u, str_ul, str_s, str_b, blok_v, udtryk_liste_v, parametre_v, udtryk_v, saetning_v, lemma_blok_v, lemma_udtryk_liste_v, lemma_str_b_del};
use crate::tabel::{Tabel, slaa_op, indsaet};
use crate::evaluator::{sammenfoej, sammenfoej_tekster, tekster_v, tekst};
use crate::tekst::{skub, tegn_af};

verus! {

/// Whether a character is white space: the 25 characters of the Unicode
/// `White_Space` property (those for which std's `char::is_whitespace` holds).
pub open spec fn er_blank(c: char) -> bool {
    ||| '\u{9}' <= c && c <= '\u{d}'
    ||| c == ' '
    ||| c == '\u{85}'
    ||| c == '\u{a0}'
    ||| c == '\u{1680}'
    ||| '\u{2000}' <= c && c <= '\u{200a}'
    ||| c == '\u{2028}'
    ||| c == '\u{2029}'
    ||| c == '\u{202f}'
    ||| c == '\u{205f}'
    ||| c == '\u{3000}'
}

/// Whether a character is white space.
fn blank(c: char) -> (r: bool)
    ensures
        r == er_blank(c),
{
    ('\u{9}' <= c && c <= '\u{d}') || c == ' ' || c == '\u{85}' || c == '\u{a0}' || c == '\u{1680}'
        || ('\u{2000}' <= c && c <= '\u{200a}') || c == '\u{2028}' || c == '\u{2029}' || c == '\u{202f}'
        || c == '\u{205f}' || c == '\u{3000}'
}

/// A text without its leading white space (std's `str::trim_start`).
pub open spec fn uden_forblanke(s: Seq<char>) -> Seq<char>
    decreases s.len(),
{
    if s.len() > 0 && er_blank(s[0]) {
        uden_forblanke(s.drop_first())
    } else {
        s
    }
}

/// A text with `\` and `"` escaped for a C string literal.
pub open spec fn c_escape(s: Seq<char>) -> Seq<char>
    decreases s.len(),
{
    if s.len() == 0 {
        Seq::empty()
    } else {
        let c = s.last();
        c_escape(s.drop_last()) + if c == '\\' { seq!['\\', '\\'] } else if c == '"' { seq!['\\', '"'] } else { seq![c] }
    }
}

/// The rendering of a number literal: the first entry of the table for its text,
/// or the text itself.
pub open spec fn gengiv(tal: Seq<(Seq<char>, Seq<char>)>, t: Seq<char>) -> Seq<char>
    decreases tal.len(),
{
    if tal.len() == 0 {
        t
    } else if tal[0].0 == t {
        tal[0].1
    } else {
        gengiv(tal.drop_first(), t)
    }
}

pub open spec fn c_type(t: Type) -> Seq<char> {
    match t {
        Type::Nummer => "double"@,
        Type::Streng => "char*"@,
        Type::SandFalsk => "int"@,
    }
}

/// The type an expression is taken to have: that of its leftmost operand.
pub open spec fn udled_type(e: UdtrykV, tm: Seq<(Seq<char>, Type)>, ft: Seq<(Seq<char>, Option<Type>)>) -> Option<Type>
    decreases e,
{
    match e {
        UdtrykV::Bogstav(_) => Some(Type::Streng),
        UdtrykV::Tal(_) => Some(Type::Nummer),
        UdtrykV::BoolLiteral(_) => Some(Type::SandFalsk),
        UdtrykV::Variable(n) => slaa_op(tm, n),
        UdtrykV::BinaerOp { venstre, .. } => udled_type(*venstre, tm, ft),
        UdtrykV::FunktionsKald { navn, .. } => match slaa_op(ft, navn) {
            Some(Some(t)) => Some(t),
            _ => None,
        },
    }
}

/// An expression in C: its kind (`%g` a number, `%s` a text, `%d` a truth value,
/// which C holds as an `int`) and the C expression.
pub open spec fn c_udtryk(e: UdtrykV, tm: Seq<(Seq<char>, Type)>, ft: Seq<(Seq<char>, Option<Type>)>, tal: Seq<(Seq<char>, Seq<char>)>)
    -> (Seq<char>, Seq<char>)
    decreases str_u(e), 1nat,
{
    match e {
        UdtrykV::Bogstav(s) => ("%s"@, "\""@ + c_escape(s) + "\""@),
        UdtrykV::Tal(t) => ("%g"@, gengiv(tal, t)),
        UdtrykV::BoolLiteral(b) => ("%d"@, if b { "1"@ } else { "0"@ }),
        UdtrykV::Variable(n) => match slaa_op(tm, n) {
            Some(Type::Nummer) => ("%g"@, n),
            Some(Type::Streng) => ("%s"@, n),
            Some(Type::SandFalsk) => ("%d"@, n),
            None => ("%s"@, n),
        },
        UdtrykV::BinaerOp { venstre, operator, hoejre } => {
            let ve = c_udtryk(*venstre, tm, ft, tal).1;
            let he = c_udtryk(*hoejre, tm, ft, tal).1;
            let streng = udled_type(*venstre, tm, ft) == Some(Type::Streng);
            match operator {
                Operator::Plus => if streng {
                    ("%s"@, "_ms_strjoin("@ + ve + ", "@ + he + ")"@)
                } else {
                    ("%g"@, "("@ + ve + " + "@ + he + ")"@)
                },
                Operator::Minus => ("%g"@, "("@ + ve + " - "@ + he + ")"@),
                Operator::ErLig => if streng {
                    ("%d"@, "(strcmp("@ + ve + ", "@ + he + ") == 0)"@)
                } else {
                    ("%d"@, "("@ + ve + " == "@ + he + ")"@)
                },
                Operator::ErIkke => if streng {
                    ("%d"@, "(strcmp("@ + ve + ", "@ + he + ") != 0)"@)
                } else {
                    ("%d"@, "("@ + ve + " != "@ + he + ")"@)
                },
                Operator::Mindre => ("%d"@, "("@ + ve + " < "@ + he + ")"@),
                Operator::Stoerre => ("%d"@, "("@ + ve + " > "@ + he + ")"@),
                Operator::MindreEllerLig => ("%d"@, "("@ + ve + " <= "@ + he + ")"@),
                Operator::StoerreEllerLig => ("%d"@, "("@ + ve + " >= "@ + he + ")"@),
            }
        },
        UdtrykV::FunktionsKald { navn, argumenter } => {
            let kald = navn + "("@ + sammenfoej(c_argumenter(argumenter, tm, ft, tal), ", "@) + ")"@;
            let fmt = match slaa_op(ft, navn) {
                Some(Some(Type::Nummer)) => "%g"@,
                Some(Some(Type::Streng)) => "%s"@,
                Some(Some(Type::SandFalsk)) => "%d"@,
                _ => "%s"@,
            };
            (fmt, kald)
        },
    }
}

/// The C expressions of the arguments of a call.
pub open spec fn c_argumenter(l: Seq<UdtrykV>, tm: Seq<(Seq<char>, Type)>, ft: Seq<(Seq<char>, Option<Type>)>, tal: Seq<(Seq<char>, Seq<char>)>)
    -> Seq<Seq<char>>
    decreases str_ul(l), 0nat,
{
    if l.len() == 0 {
        Seq::empty()
    } else {
        seq![c_udtryk(l[0], tm, ft, tal).1] + c_argumenter(l.drop_first(), tm, ft, tal)
    }
}

/// The lines of an indented block: each statement's C code, its leading white
/// space replaced by four spaces.
pub open spec fn c_blok(b: Seq<SaetningV>, tm: Seq<(Seq<char>, Type)>, ft: Seq<(Seq<char>, Option<Type>)>, tal: Seq<(Seq<char>, Seq<char>)>)
    -> (Seq<Seq<char>>, Seq<(Seq<char>, Type)>)
    decreases str_b(b), 0nat,
{
    if b.len() == 0 {
        (Seq::empty(), tm)
    } else {
        let (linje, tm1) = c_saetning(b[0], tm, ft, tal);
        let (rest, tm2) = c_blok(b.drop_first(), tm1, ft, tal);
        (seq!["    "@ + uden_forblanke(linje)] + rest, tm2)
    }
}

/// A `skriv` in C: a number through the helper that writes it as the
/// interpreter does, a truth value as `sand` or `falsk`, a text as it is.
pub open spec fn c_skriv(fmt: Seq<char>, expr: Seq<char>) -> Seq<char> {
    if fmt == "%g"@ {
        "    _ms_skriv_tal("@ + expr + ");"@
    } else if fmt == "%d"@ {
        "    printf(\"%s\\n\", ("@ + expr + ") ? \"sand\" : \"falsk\");"@
    } else {
        "    printf(\""@ + fmt + "\\n\", "@ + expr + ");"@
    }
}

/// A statement in C, and the variable types after it (a declaration records the
/// type of its variable).
pub open spec fn c_saetning(s: SaetningV, tm: Seq<(Seq<char>, Type)>, ft: Seq<(Seq<char>, Option<Type>)>, tal: Seq<(Seq<char>, Seq<char>)>)
    -> (Seq<char>, Seq<(Seq<char>, Type)>)
    decreases str_s(s), 1nat,
{
    match s {
        SaetningV::Skriv(e) => {
            let (fmt, expr) = c_udtryk(e, tm, ft, tal);
            (c_skriv(fmt, expr), tm)
        },
        SaetningV::Erklaer { navn, type_, startvaerdi } => {
            let tm1 = indsaet(tm, navn, type_);
            let init = match startvaerdi {
                Some(e) => c_udtryk(e, tm1, ft, tal).1,
                None => match type_ {
                    Type::Nummer => "0.0"@,
                    Type::Streng => "\"\""@,
                    Type::SandFalsk => "0"@,
                },
            };
            ("    "@ + c_type(type_) + " "@ + navn + " = "@ + init + ";"@, tm1)
        },
        SaetningV::Saet { navn, udtryk } => ("    "@ + navn + " = "@ + c_udtryk(udtryk, tm, ft, tal).1 + ";"@, tm),
        SaetningV::VisHukommelse => ("    /* vis hukommelse: ikke tilgængeligt i kompileret tilstand */"@, tm),
        SaetningV::Hvis { betingelse, saa_gren, ellers_gren } => {
            let b = c_udtryk(betingelse, tm, ft, tal).1;
            let (saa, tm1) = c_blok(saa_gren, tm, ft, tal);
            let (ellers, tm2) = match ellers_gren {
                Some(g) => {
                    let (l, t2) = c_blok(g, tm1, ft, tal);
                    (seq!["    } else {"@] + l, t2)
                },
                None => (Seq::empty(), tm1),
            };
            (sammenfoej(seq!["    if ("@ + b + ") {"@] + saa + ellers + seq!["    }"@], "\n"@), tm2)
        },
        SaetningV::Gentag { antal, krop } => {
            let a = c_udtryk(antal, tm, ft, tal).1;
            let (l, tm1) = c_blok(krop, tm, ft, tal);
            (sammenfoej(seq!["    for (long long _i = 0; _i < (long long)("@ + a + "); _i++) {"@] + l + seq!["    }"@], "\n"@), tm1)
        },
        SaetningV::Mens { betingelse, krop } => {
            let b = c_udtryk(betingelse, tm, ft, tal).1;
            let (l, tm1) = c_blok(krop, tm, ft, tal);
            (sammenfoej(seq!["    while ("@ + b + ") {"@] + l + seq!["    }"@], "\n"@), tm1)
        },
        SaetningV::FunktionDef { .. } => (Seq::empty(), tm),
        SaetningV::Returner(e) => match e {
            Some(u) => ("    return "@ + c_udtryk(u, tm, ft, tal).1 + ";"@, tm),
            None => ("    return;"@, tm),
        },
        SaetningV::Udtryksaetning(e) => ("    "@ + c_udtryk(e, tm, ft, tal).1 + ";"@, tm),
    }
}

/// The C code of a sequence of statements, one entry each, the variable types
/// threaded through; function definitions are left out when `uden_funktioner`.
pub open spec fn c_linjer(b: Seq<SaetningV>, tm: Seq<(Seq<char>, Type)>, ft: Seq<(Seq<char>, Option<Type>)>, tal: Seq<(Seq<char>, Seq<char>)>, uden_funktioner: bool)
    -> Seq<Seq<char>>
    decreases b.len(),
{
    if b.len() == 0 {
        Seq::empty()
    } else if uden_funktioner && b[0] is FunktionDef {
        c_linjer(b.drop_first(), tm, ft, tal, uden_funktioner)
    } else {
        let (linje, tm1) = c_saetning(b[0], tm, ft, tal);
        seq![linje] + c_linjer(b.drop_first(), tm1, ft, tal, uden_funktioner)
    }
}

/// The parameter types of a function, later names overriding earlier ones.
pub open spec fn parametertyper(ps: Seq<(Seq<char>, Type)>, tm: Seq<(Seq<char>, Type)>) -> Seq<(Seq<char>, Type)>
    decreases ps.len(),
{
    if ps.len() == 0 {
        tm
    } else {
        parametertyper(ps.drop_first(), indsaet(tm, ps[0].0, ps[0].1))
    }
}

pub open spec fn c_parametre(ps: Seq<(Seq<char>, Type)>) -> Seq<Seq<char>> {
    ps.map_values(|p: (Seq<char>, Type)| c_type(p.1) + " "@ + p.0)
}

pub open spec fn c_returtype(r: Option<Type>) -> Seq<char> {
    match r {
        None => "void"@,
        Some(t) => c_type(t),
    }
}

/// A function definition in C.
pub open spec fn c_funktion(navn: Seq<char>, ps: Seq<(Seq<char>, Type)>, rt: Option<Type>, krop: Seq<SaetningV>,
    ft: Seq<(Seq<char>, Option<Type>)>, tal: Seq<(Seq<char>, Seq<char>)>) -> Seq<char>
{
    sammenfoej(
        seq![c_returtype(rt) + " "@ + navn + "("@ + sammenfoej(c_parametre(ps), ", "@) + ") {"@]
            + c_linjer(krop, parametertyper(ps, Seq::empty()), ft, tal, false) + seq!["}"@],
        "\n"@,
    )
}

/// The return types of the functions a program defines at its top level.
pub open spec fn funktionstyper(b: Seq<SaetningV>, ft: Seq<(Seq<char>, Option<Type>)>) -> Seq<(Seq<char>, Option<Type>)>
    decreases b.len(),
{
    if b.len() == 0 {
        ft
    } else {
        let ft1 = match b[0] {
            SaetningV::FunktionDef { navn, returtype, .. } => indsaet(ft, navn, returtype),
            _ => ft,
        };
        funktionstyper(b.drop_first(), ft1)
    }
}

/// The C functions of the top-level function definitions, in order.
pub open spec fn c_funktioner(b: Seq<SaetningV>, ft: Seq<(Seq<char>, Option<Type>)>, tal: Seq<(Seq<char>, Seq<char>)>) -> Seq<Seq<char>>
    decreases b.len(),
{
    if b.len() == 0 {
        Seq::empty()
    } else {
        let rest = c_funktioner(b.drop_first(), ft, tal);
        match b[0] {
            SaetningV::FunktionDef { navn, parametre, returtype, krop } => seq![c_funktion(navn, parametre, returtype, krop, ft, tal)] + rest,
            _ => rest,
        }
    }
}

/// The lines before the functions: includes, a helper that joins two strings,
/// and one that writes a number as the interpreter writes it (whole numbers below
/// 10^15 without decimals, others with the fewest digits that give the number back).
pub open spec fn c_indledning() -> Seq<Seq<char>> {
    seq![
        "#include <stdio.h>"@,
        "#include <string.h>"@,
        "#include <stdlib.h>"@,
        "#include <windows.h>"@,
        "static char* _ms_strjoin(const char* a, const char* b) {"@,
        "    size_t la = strlen(a), lb = strlen(b);"@,
        "    char* r = (char*)malloc(la + lb + 1);"@,
        "    memcpy(r, a, la); memcpy(r + la, b, lb + 1); return r;"@,
        "}"@,
        "static void _ms_skriv_tal(double x) {"@,
        "    char e[40], d[24], u[400];"@,
        "    int p, n, k, i, eks, neg;"@,
        "    if (x != x) { printf(\"NaN\\n\"); return; }"@,
        "    if (x - x != x - x) { printf(x > 0 ? \"inf\\n\" : \"-inf\\n\"); return; }"@,
        "    if (x > -1e15 && x < 1e15 && x == (double)(long long)x) { printf(\"%lld\\n\", (long long)x); return; }"@,
        "    for (p = 1; p <= 17; p++) { snprintf(e, sizeof e, \"%.*e\", p - 1, x); if (strtod(e, NULL) == x) break; }"@,
        "    neg = e[0] == '-'; n = 0;"@,
        "    for (k = neg; e[k] != 'e'; k++) if (e[k] != '.') d[n++] = e[k];"@,
        "    eks = atoi(e + k + 1); i = 0;"@,
        "    if (neg) u[i++] = '-';"@,
        "    if (eks < 0) {"@,
        "        u[i++] = '0'; u[i++] = '.';"@,
        "        for (k = 0; k < -eks - 1; k++) u[i++] = '0';"@,
        "        for (k = 0; k < n; k++) u[i++] = d[k];"@,
        "    } else {"@,
        "        for (k = 0; k <= eks || k < n; k++) { if (k == eks + 1) u[i++] = '.'; u[i++] = k < n ? d[k] : '0'; }"@,
        "    }"@,
        "    u[i] = 0; printf(\"%s\\n\", u);"@,
        "}"@
    ]
}

/// A whole C program: the functions first, then `main` with the other statements.
pub open spec fn c_program(b: Seq<SaetningV>, tal: Seq<(Seq<char>, Seq<char>)>) -> Seq<char> {
    let ft = funktionstyper(b, Seq::empty());
    sammenfoej(
        c_indledning() + c_funktioner(b, ft, tal)
            + seq!["int main(void) {"@, "    SetConsoleOutputCP(65001);"@]
            + c_linjer(b, Seq::empty(), ft, tal, true)
            + seq!["    return 0;"@, "}"@],
        "\n"@,
    )
}

pub open spec fn tal_v(t: Seq<(String, String)>) -> Seq<(Seq<char>, Seq<char>)> {
    t.map_values(|x: (String, String)| (x.0@, x.1@))
}

fn escape(s: &String) -> (r: String)
    ensures
        r@ == c_escape(s@),
{
    let v = tegn_af(s.as_str());
    let mut r = String::new();
    let mut i: usize = 0;
    assert(v@.take(0) =~= Seq::<char>::empty());
    while i < v.len()
        invariant
            i <= v@.len(),
            v@ == s@,
            r@ == c_escape(v@.take(i as int)),
        decreases v.len() - i,
    {
        let c = v[i];
        assert(v@.take(i + 1).drop_last() =~= v@.take(i as int));
        if c == '\\' {
            skub(&mut r, '\\');
            skub(&mut r, '\\');
        } else if c == '"' {
            skub(&mut r, '\\');
            skub(&mut r, '"');
        } else {
            skub(&mut r, c);
        }
        assert(r@ =~= c_escape(v@.take(i + 1)));
        i = i + 1;
    }
    assert(v@.take(i as int) =~= v@);
    r
}

proof fn lemma_uden_forblanke_fra(s: Seq<char>, i: int)
    requires
        0 <= i <= s.len(),
        forall|j: int| 0 <= j < i ==> er_blank(#[trigger] s[j]),
    ensures
        uden_forblanke(s) == uden_forblanke(s.skip(i)),
    decreases i,
{
    if i > 0 {
        assert(er_blank(s[0]));
        lemma_uden_forblanke_fra(s.drop_first(), i - 1);
        assert(s.drop_first().skip(i - 1) =~= s.skip(i));
    } else {
        assert(s.skip(0) =~= s);
    }
}

fn uden_forblanke_tekst(s: &String) -> (r: String)
    ensures
        r@ == uden_forblanke(s@),
{
    let v = tegn_af(s.as_str());
    let mut i: usize = 0;
    while i < v.len() && blank(v[i])
        invariant
            i <= v@.len(),
            v@ == s@,
            forall|j: int| 0 <= j < i ==> er_blank(#[trigger] v@[j]),
        decreases v.len() - i,
    {
        i = i + 1;
    }
    proof {
        lemma_uden_forblanke_fra(s@, i as int);
    }
    let ghost start = i;
    let mut r = String::new();
    assert(v@.subrange(start as int, start as int) =~= Seq::<char>::empty());
    while i < v.len()
        invariant
            start <= i <= v@.len(),
            v@ == s@,
            r@ == v@.subrange(start as int, i as int),
        decreases v.len() - i,
    {
        skub(&mut r, v[i]);
        assert(r@ =~= v@.subrange(start as int, i + 1));
        i = i + 1;
    }
    assert(r@ =~= s@.skip(start as int));
    r
}

proof fn lemma_gengiv_fra(tal: Seq<(Seq<char>, Seq<char>)>, t: Seq<char>, i: int)
    requires
        0 <= i <= tal.len(),
        forall|j: int| 0 <= j < i ==> (#[trigger] tal[j]).0 != t,
    ensures
        gengiv(tal, t) == gengiv(tal.skip(i), t),
    decreases i,
{
    if i > 0 {
        lemma_gengiv_fra(tal.drop_first(), t, i - 1);
        assert(tal.drop_first().skip(i - 1) =~= tal.skip(i));
        assert(tal[0].0 != t);
    } else {
        assert(tal.skip(0) =~= tal);
    }
}

pub(crate) fn gengiv_tal(tal: &Vec<(String, String)>, t: &String) -> (r: String)
    ensures
        r@ == gengiv(tal_v(tal@), t@),
{
    let ghost tv = tal_v(tal@);
    let mut i: usize = 0;
    while i < tal.len()
        invariant
            i <= tal@.len(),
            tv == tal_v(tal@),
            forall|j: int| 0 <= j < i ==> (#[trigger] tv[j]).0 != t@,
        decreases tal.len() - i,
    {
        if tal[i].0 == *t {
            proof {
                lemma_gengiv_fra(tv, t@, i as int);
            }
            return tal[i].1.clone();
        }
        i = i + 1;
    }
    proof {
        lemma_gengiv_fra(tv, t@, i as int);
    }
    t.clone()
}

fn c_type_tekst(t: Type) -> (r: String)
    ensures
        r@ == c_type(t),
{
    match t {
        Type::Nummer => tekst("double"),
        Type::Streng => tekst("char*"),
        Type::SandFalsk => tekst("int"),
    }
}

fn udled(e: &Udtryk, tm: &Tabel<Type>, ft: &Tabel<Option<Type>>) -> (r: Option<Type>)
    ensures
        r == udled_type(e@, tm@, ft@),
    decreases e@,
{
    match e {
        Udtryk::Bogstav(_) => Some(Type::Streng),
        Udtryk::Tal(_) => Some(Type::Nummer),
        Udtryk::BoolLiteral(_) => Some(Type::SandFalsk),
        Udtryk::Variable(n) => match tm.find(n) {
            Some(t) => Some(*t),
            None => None,
        },
        Udtryk::BinaerOp { venstre, .. } => udled(&**venstre, tm, ft),
        Udtryk::FunktionsKald { navn, .. } => match ft.find(navn) {
            Some(Some(t)) => Some(*t),
            _ => None,
        },
    }
}


fn fem(a: &str, x: &String, b: &str, y: &String, c: &str) -> (r: String)
    ensures
        r@ == a@ + x@ + b@ + y@ + c@,
{
    let mut r = tekst(a);
    r.append(x.as_str());
    r.append(b);
    r.append(y.as_str());
    r.append(c);
    r
}

fn tre(a: &str, x: &String, c: &str) -> (r: String)
    ensures
        r@ == a@ + x@ + c@,
{
    let mut r = tekst(a);
    r.append(x.as_str());
    r.append(c);
    r
}

/// An expression in C: its kind (`%g` a number, `%s` a text, `%d` a truth value,
/// which C holds as an `int`) and the C expression.
fn udtryk_til_c(e: &Udtryk, tm: &Tabel<Type>, ft: &Tabel<Option<Type>>, tal: &Vec<(String, String)>) -> (r: (String, String))
    ensures
        (r.0@, r.1@) == c_udtryk(e@, tm@, ft@, tal_v(tal@)),
    decreases str_u(e@), 1nat,
{
    match e {
        Udtryk::Bogstav(s) => (tekst("%s"), tre("\"", &escape(s), "\"")),
        Udtryk::Tal(t) => (tekst("%g"), gengiv_tal(tal, t)),
        Udtryk::BoolLiteral(b) => (tekst("%d"), if *b { tekst("1") } else { tekst("0") }),
        Udtryk::Variable(n) => match tm.find(n) {
            Some(Type::Nummer) => (tekst("%g"), n.clone()),
            Some(Type::Streng) => (tekst("%s"), n.clone()),
            Some(Type::SandFalsk) => (tekst("%d"), n.clone()),
            None => (tekst("%s"), n.clone()),
        },
        Udtryk::BinaerOp { venstre, operator, hoejre } => {
            let ve = udtryk_til_c(&**venstre, tm, ft, tal).1;
            let he = udtryk_til_c(&**hoejre, tm, ft, tal).1;
            let streng = match udled(&**venstre, tm, ft) {
                Some(Type::Streng) => true,
                _ => false,
            };
            match operator {
                Operator::Plus => if streng {
                    (tekst("%s"), fem("_ms_strjoin(", &ve, ", ", &he, ")"))
                } else {
                    (tekst("%g"), fem("(", &ve, " + ", &he, ")"))
                },
                Operator::Minus => (tekst("%g"), fem("(", &ve, " - ", &he, ")")),
                Operator::ErLig => if streng {
                    (tekst("%d"), fem("(strcmp(", &ve, ", ", &he, ") == 0)"))
                } else {
                    (tekst("%d"), fem("(", &ve, " == ", &he, ")"))
                },
                Operator::ErIkke => if streng {
                    (tekst("%d"), fem("(strcmp(", &ve, ", ", &he, ") != 0)"))
                } else {
                    (tekst("%d"), fem("(", &ve, " != ", &he, ")"))
                },
                Operator::Mindre => (tekst("%d"), fem("(", &ve, " < ", &he, ")")),
                Operator::Stoerre => (tekst("%d"), fem("(", &ve, " > ", &he, ")")),
                Operator::MindreEllerLig => (tekst("%d"), fem("(", &ve, " <= ", &he, ")")),
                Operator::StoerreEllerLig => (tekst("%d"), fem("(", &ve, " >= ", &he, ")")),
            }
        },
        Udtryk::FunktionsKald { navn, argumenter } => {
            proof {
                assert(udtryk_liste_v(argumenter@).skip(0) =~= udtryk_liste_v(argumenter@));
            }
            let args = argumenter_til_c(argumenter, 0, tm, ft, tal);
            let forbundet = sammenfoej_tekster(&args, ", ");
            let mut kald = navn.clone();
            kald.append("(");
            kald.append(forbundet.as_str());
            kald.append(")");
            let fmt = match ft.find(navn) {
                Some(Some(Type::Nummer)) => tekst("%g"),
                Some(Some(Type::Streng)) => tekst("%s"),
                Some(Some(Type::SandFalsk)) => tekst("%d"),
                _ => tekst("%s"),
            };
            (fmt, kald)
        },
    }
}

fn argumenter_til_c(l: &Vec<Udtryk>, i: usize, tm: &Tabel<Type>, ft: &Tabel<Option<Type>>, tal: &Vec<(String, String)>) -> (r: Vec<String>)
    requires
        i <= l@.len(),
    ensures
        tekster_v(r@) == c_argumenter(udtryk_liste_v(l@).skip(i as int), tm@, ft@, tal_v(tal@)),
    decreases str_ul(udtryk_liste_v(l@).skip(i as int)), 0nat,
{
    let ghost w = udtryk_liste_v(l@);
    proof {
        lemma_udtryk_liste_v(l@);
    }
    if i == l.len() {
        let r: Vec<String> = Vec::new();
        assert(tekster_v(r@) =~= Seq::<Seq<char>>::empty());
        return r;
    }
    proof {
        assert(w.skip(i as int)[0] == udtryk_v(l@[i as int]));
        assert(w.skip(i as int).drop_first() =~= w.skip(i + 1));
    }
    let x = udtryk_til_c(&l[i], tm, ft, tal).1;
    let mut rest = argumenter_til_c(l, i + 1, tm, ft, tal);
    let ghost gammel = rest@;
    let ghost xv = x@;
    rest.insert(0, x);
    assert(tekster_v(rest@) =~= seq![xv] + tekster_v(gammel));
    rest
}

fn tilfoej_linjer(linjer: &mut Vec<String>, flere: Vec<String>)
    ensures
        tekster_v(final(linjer)@) == tekster_v(old(linjer)@) + tekster_v(flere@),
{
    let mut i: usize = 0;
    while i < flere.len()
        invariant
            i <= flere@.len(),
            tekster_v(linjer@) == tekster_v(old(linjer)@) + tekster_v(flere@).take(i as int),
        decreases flere.len() - i,
    {
        let ghost foer = linjer@;
        linjer.push(flere[i].clone());
        assert(tekster_v(linjer@) =~= tekster_v(foer).push(flere@[i as int]@));
        assert(tekster_v(flere@).take(i + 1) =~= tekster_v(flere@).take(i as int).push(flere@[i as int]@));
        i = i + 1;
    }
    assert(tekster_v(flere@).take(i as int) =~= tekster_v(flere@));
}

fn skub_linje(linjer: &mut Vec<String>, l: String)
    ensures
        tekster_v(final(linjer)@) == tekster_v(old(linjer)@).push(l@),
{
    let ghost lv = l@;
    linjer.push(l);
    assert(tekster_v(linjer@) =~= tekster_v(old(linjer)@).push(lv));
}

/// The lines of an indented block.
fn blok_til_c(b: &Vec<Saetning>, tm: &mut Tabel<Type>, ft: &Tabel<Option<Type>>, tal: &Vec<(String, String)>) -> (r: Vec<String>)
    ensures
        (tekster_v(r@), final(tm)@) == c_blok(blok_v(b@), old(tm)@, ft@, tal_v(tal@)),
    decreases str_b(blok_v(b@)), 0nat,
{
    let ghost w = blok_v(b@);
    proof {
        lemma_blok_v(b@);
    }
    let mut linjer: Vec<String> = Vec::new();
    let mut i: usize = 0;
    assert(w.skip(0) =~= w);
    assert(tekster_v(linjer@) + c_blok(w, old(tm)@, ft@, tal_v(tal@)).0 =~= c_blok(w, old(tm)@, ft@, tal_v(tal@)).0);
    while i < b.len()
        invariant
            i <= b@.len(),
            w == blok_v(b@),
            w.len() == b@.len(),
            forall|j: int| 0 <= j < b@.len() ==> #[trigger] w[j] == saetning_v(b@[j]),
            c_blok(w, old(tm)@, ft@, tal_v(tal@)).0 == tekster_v(linjer@) + c_blok(w.skip(i as int), tm@, ft@, tal_v(tal@)).0,
            c_blok(w, old(tm)@, ft@, tal_v(tal@)).1 == c_blok(w.skip(i as int), tm@, ft@, tal_v(tal@)).1,
        decreases b.len() - i,
    {
        proof {
            assert(w.skip(i as int)[0] == w[i as int]);
            assert(w.skip(i as int).drop_first() =~= w.skip(i + 1));
            lemma_str_b_del(w, i as int);
        }
        let ghost tm0 = tm@;
        let linje = saetning_til_c(&b[i], tm, ft, tal);
        let trimmet = uden_forblanke_tekst(&linje);
        let mut ny = tekst("    ");
        ny.append(trimmet.as_str());
        let ghost foer = tekster_v(linjer@);
        skub_linje(&mut linjer, ny);
        proof {
            let rest = c_blok(w.skip(i + 1), tm@, ft@, tal_v(tal@)).0;
            assert(foer + (seq![ny@] + rest) =~= foer.push(ny@) + rest);
        }
        i = i + 1;
    }
    assert(w.skip(i as int).len() == 0);
    assert(tekster_v(linjer@) + Seq::<Seq<char>>::empty() =~= tekster_v(linjer@));
    linjer
}

fn skriv_til_c(fmt: &String, expr: &String) -> (r: String)
    ensures
        r@ == c_skriv(fmt@, expr@),
{
    proof {
        reveal_strlit("%g");
        reveal_strlit("%d");
    }
    if *fmt == tekst("%g") {
        tre("    _ms_skriv_tal(", expr, ");")
    } else if *fmt == tekst("%d") {
        tre("    printf(\"%s\\n\", (", expr, ") ? \"sand\" : \"falsk\");")
    } else {
        fem("    printf(\"", fmt, "\\n\", ", expr, ");")
    }
}

/// A statement in C; a declaration records the type of its variable.
fn saetning_til_c(s: &Saetning, tm: &mut Tabel<Type>, ft: &Tabel<Option<Type>>, tal: &Vec<(String, String)>) -> (r: String)
    ensures
        (r@, final(tm)@) == c_saetning(s@, old(tm)@, ft@, tal_v(tal@)),
    decreases str_s(s@), 1nat,
{
    match s {
        Saetning::Skriv(e) => {
            let (fmt, expr) = udtryk_til_c(e, tm, ft, tal);
            skriv_til_c(&fmt, &expr)
        },
        Saetning::Erklaer { navn, type_, startvaerdi } => {
            tm.indsaet(navn.clone(), *type_);
            let init = match startvaerdi {
                Some(e) => udtryk_til_c(e, tm, ft, tal).1,
                None => match type_ {
                    Type::Nummer => tekst("0.0"),
                    Type::Streng => tekst("\"\""),
                    Type::SandFalsk => tekst("0"),
                },
            };
            let mut r = tekst("    ");
            r.append(c_type_tekst(*type_).as_str());
            r.append(" ");
            r.append(navn.as_str());
            r.append(" = ");
            r.append(init.as_str());
            r.append(";");
            r
        },
        Saetning::Saet { navn, udtryk } => {
            let expr = udtryk_til_c(udtryk, tm, ft, tal).1;
            fem("    ", navn, " = ", &expr, ";")
        },
        // vis hukommelse only means something when the program is interpreted
        Saetning::VisHukommelse => tekst("    /* vis hukommelse: ikke tilgængeligt i kompileret tilstand */"),
        Saetning::Hvis { betingelse, saa_gren, ellers_gren } => {
            let b = udtryk_til_c(betingelse, tm, ft, tal).1;
            let mut linjer: Vec<String> = Vec::new();
            skub_linje(&mut linjer, tre("    if (", &b, ") {"));
            let saa = blok_til_c(saa_gren, tm, ft, tal);
            tilfoej_linjer(&mut linjer, saa);
            match ellers_gren {
                Some(g) => {
                    skub_linje(&mut linjer, tekst("    } else {"));
                    let l = blok_til_c(g, tm, ft, tal);
                    tilfoej_linjer(&mut linjer, l);
                },
                None => {},
            }
            skub_linje(&mut linjer, tekst("    }"));
            proof {
                let first = seq![("    if ("@ + b@ + ") {"@)];
                let last = seq!["    }"@];
                let (saa_v, tm1) = c_blok(blok_v(saa_gren@), old(tm)@, ft@, tal_v(tal@));
                match ellers_gren {
                    Some(g) => {
                        let (l, _) = c_blok(blok_v(g@), tm1, ft@, tal_v(tal@));
                        assert(tekster_v(linjer@) =~= first + saa_v + (seq!["    } else {"@] + l) + last);
                    },
                    None => {
                        assert(tekster_v(linjer@) =~= first + saa_v + Seq::<Seq<char>>::empty() + last);
                    },
                }
            }
            sammenfoej_tekster(&linjer, "\n")
        },
        Saetning::Gentag { antal, krop } => {
            let a = udtryk_til_c(antal, tm, ft, tal).1;
            let mut linjer: Vec<String> = Vec::new();
            skub_linje(&mut linjer, tre("    for (long long _i = 0; _i < (long long)(", &a, "); _i++) {"));
            let l = blok_til_c(krop, tm, ft, tal);
            let ghost lv = tekster_v(l@);
            tilfoej_linjer(&mut linjer, l);
            skub_linje(&mut linjer, tekst("    }"));
            assert(tekster_v(linjer@) =~= seq![("    for (long long _i = 0; _i < (long long)("@ + a@ + "); _i++) {"@)] + lv + seq!["    }"@]);
            sammenfoej_tekster(&linjer, "\n")
        },
        Saetning::Mens { betingelse, krop } => {
            let b = udtryk_til_c(betingelse, tm, ft, tal).1;
            let mut linjer: Vec<String> = Vec::new();
            skub_linje(&mut linjer, tre("    while (", &b, ") {"));
            let l = blok_til_c(krop, tm, ft, tal);
            let ghost lv = tekster_v(l@);
            tilfoej_linjer(&mut linjer, l);
            skub_linje(&mut linjer, tekst("    }"));
            assert(tekster_v(linjer@) =~= seq![("    while ("@ + b@ + ") {"@)] + lv + seq!["    }"@]);
            sammenfoej_tekster(&linjer, "\n")
        },
        // Functions are written before main
        Saetning::FunktionDef { .. } => String::new(),
        Saetning::Returner(e) => match e {
            Some(u) => {
                let expr = udtryk_til_c(u, tm, ft, tal).1;
                tre("    return ", &expr, ";")
            },
            None => tekst("    return;"),
        },
        Saetning::Udtryksaetning(e) => {
            let expr = udtryk_til_c(e, tm, ft, tal).1;
            tre("    ", &expr, ";")
        },
    }
}

/// The C code of a sequence of statements, one entry each.
fn linjer_til_c(b: &[Saetning], tm: &mut Tabel<Type>, ft: &Tabel<Option<Type>>, tal: &Vec<(String, String)>, uden_funktioner: bool)
    -> (r: Vec<String>)
    ensures
        tekster_v(r@) == c_linjer(blok_v(b@), old(tm)@, ft@, tal_v(tal@), uden_funktioner),
{
    let ghost w = blok_v(b@);
    proof {
        lemma_blok_v(b@);
    }
    let mut linjer: Vec<String> = Vec::new();
    let mut i: usize = 0;
    assert(w.skip(0) =~= w);
    assert(tekster_v(linjer@) + c_linjer(w, old(tm)@, ft@, tal_v(tal@), uden_funktioner) =~= c_linjer(w, old(tm)@, ft@, tal_v(tal@), uden_funktioner));
    while i < b.len()
        invariant
            i <= b@.len(),
            w == blok_v(b@),
            w.len() == b@.len(),
            forall|j: int| 0 <= j < b@.len() ==> #[trigger] w[j] == saetning_v(b@[j]),
            c_linjer(w, old(tm)@, ft@, tal_v(tal@), uden_funktioner) == tekster_v(linjer@) + c_linjer(w.skip(i as int), tm@, ft@, tal_v(tal@), uden_funktioner),
        decreases b.len() - i,
    {
        proof {
            assert(w.skip(i as int)[0] == w[i as int]);
            assert(w.skip(i as int).drop_first() =~= w.skip(i + 1));
        }
        let spring = uden_funktioner && matches!(&b[i], Saetning::FunktionDef { .. });
        if !spring {
            let linje = saetning_til_c(&b[i], tm, ft, tal);
            let ghost foer = tekster_v(linjer@);
            let ghost lv = linje@;
            skub_linje(&mut linjer, linje);
            proof {
                let rest = c_linjer(w.skip(i + 1), tm@, ft@, tal_v(tal@), uden_funktioner);
                assert(foer + (seq![lv] + rest) =~= foer.push(lv) + rest);
            }
        }
        i = i + 1;
    }
    assert(w.skip(i as int).len() == 0);
    assert(tekster_v(linjer@) + Seq::<Seq<char>>::empty() =~= tekster_v(linjer@));
    linjer
}

/// A function definition in C.
fn generer_funktion(navn: &String, parametre: &Vec<(String, Type)>, returtype: Option<Type>, krop: &Vec<Saetning>,
    ft: &Tabel<Option<Type>>, tal: &Vec<(String, String)>) -> (r: String)
    ensures
        r@ == c_funktion(navn@, parametre_v(parametre@), returtype, blok_v(krop@), ft@, tal_v(tal@)),
{
    let ghost pv = parametre_v(parametre@);
    let retur_c = match returtype {
        None => tekst("void"),
        Some(t) => c_type_tekst(t),
    };
    let mut dele: Vec<String> = Vec::new();
    let mut tm: Tabel<Type> = Tabel::ny();
    let mut i: usize = 0;
    assert(tekster_v(dele@) =~= c_parametre(pv).take(0));
    assert(pv.skip(0) =~= pv);
    while i < parametre.len()
        invariant
            i <= parametre@.len(),
            pv == parametre_v(parametre@),
            tekster_v(dele@) == c_parametre(pv).take(i as int),
            parametertyper(pv, Seq::empty()) == parametertyper(pv.skip(i as int), tm@),
        decreases parametre.len() - i,
    {
        let p = &parametre[i];
        let mut d = c_type_tekst(p.1);
        d.append(" ");
        d.append(p.0.as_str());
        let ghost foer = tekster_v(dele@);
        skub_linje(&mut dele, d);
        tm.indsaet(p.0.clone(), p.1);
        proof {
            assert(c_parametre(pv).take(i + 1) =~= c_parametre(pv).take(i as int).push(c_type(p.1) + " "@ + p.0@));
            assert(pv.skip(i as int)[0] == (p.0@, p.1));
            assert(pv.skip(i as int).drop_first() =~= pv.skip(i + 1));
        }
        i = i + 1;
    }
    assert(c_parametre(pv).take(i as int) =~= c_parametre(pv));
    assert(pv.skip(i as int).len() == 0);
    let param_str = sammenfoej_tekster(&dele, ", ");
    let mut hoved = retur_c;
    hoved.append(" ");
    hoved.append(navn.as_str());
    hoved.append("(");
    hoved.append(param_str.as_str());
    hoved.append(") {");
    let mut linjer: Vec<String> = Vec::new();
    skub_linje(&mut linjer, hoved);
    let krop_linjer = linjer_til_c(krop.as_slice(), &mut tm, ft, tal, false);
    let ghost kv = tekster_v(krop_linjer@);
    tilfoej_linjer(&mut linjer, krop_linjer);
    skub_linje(&mut linjer, tekst("}"));
    assert(tekster_v(linjer@) =~= seq![c_returtype(returtype) + " "@ + navn@ + "("@ + sammenfoej(c_parametre(pv), ", "@) + ") {"@]
        + kv + seq!["}"@]);
    sammenfoej_tekster(&linjer, "\n")
}

/// The lines before the functions.
#[verifier::rlimit(50)]
fn indledning() -> (r: Vec<String>)
    ensures
        tekster_v(r@) == c_indledning(),
{
    let mut linjer: Vec<String> = Vec::new();
    skub_linje(&mut linjer, tekst("#include <stdio.h>"));
    skub_linje(&mut linjer, tekst("#include <string.h>"));
    skub_linje(&mut linjer, tekst("#include <stdlib.h>"));
    skub_linje(&mut linjer, tekst("#include <windows.h>"));
    // A helper that joins two strings
    skub_linje(&mut linjer, tekst("static char* _ms_strjoin(const char* a, const char* b) {"));
    skub_linje(&mut linjer, tekst("    size_t la = strlen(a), lb = strlen(b);"));
    skub_linje(&mut linjer, tekst("    char* r = (char*)malloc(la + lb + 1);"));
    skub_linje(&mut linjer, tekst("    memcpy(r, a, la); memcpy(r + la, b, lb + 1); return r;"));
    skub_linje(&mut linjer, tekst("}"));
    // A helper that writes a number as the interpreter does
    skub_linje(&mut linjer, tekst("static void _ms_skriv_tal(double x) {"));
    skub_linje(&mut linjer, tekst("    char e[40], d[24], u[400];"));
    skub_linje(&mut linjer, tekst("    int p, n, k, i, eks, neg;"));
    skub_linje(&mut linjer, tekst("    if (x != x) { printf(\"NaN\\n\"); return; }"));
    skub_linje(&mut linjer, tekst("    if (x - x != x - x) { printf(x > 0 ? \"inf\\n\" : \"-inf\\n\"); return; }"));
    skub_linje(&mut linjer, tekst("    if (x > -1e15 && x < 1e15 && x == (double)(long long)x) { printf(\"%lld\\n\", (long long)x); return; }"));
    skub_linje(&mut linjer, tekst("    for (p = 1; p <= 17; p++) { snprintf(e, sizeof e, \"%.*e\", p - 1, x); if (strtod(e, NULL) == x) break; }"));
    skub_linje(&mut linjer, tekst("    neg = e[0] == '-'; n = 0;"));
    skub_linje(&mut linjer, tekst("    for (k = neg; e[k] != 'e'; k++) if (e[k] != '.') d[n++] = e[k];"));
    skub_linje(&mut linjer, tekst("    eks = atoi(e + k + 1); i = 0;"));
    skub_linje(&mut linjer, tekst("    if (neg) u[i++] = '-';"));
    skub_linje(&mut linjer, tekst("    if (eks < 0) {"));
    skub_linje(&mut linjer, tekst("        u[i++] = '0'; u[i++] = '.';"));
    skub_linje(&mut linjer, tekst("        for (k = 0; k < -eks - 1; k++) u[i++] = '0';"));
    skub_linje(&mut linjer, tekst("        for (k = 0; k < n; k++) u[i++] = d[k];"));
    skub_linje(&mut linjer, tekst("    } else {"));
    skub_linje(&mut linjer, tekst("        for (k = 0; k <= eks || k < n; k++) { if (k == eks + 1) u[i++] = '.'; u[i++] = k < n ? d[k] : '0'; }"));
    skub_linje(&mut linjer, tekst("    }"));
    skub_linje(&mut linjer, tekst("    u[i] = 0; printf(\"%s\\n\", u);"));
    skub_linje(&mut linjer, tekst("}"));
    assert(tekster_v(linjer@) =~= c_indledning());
    linjer
}

/// The code generator: turns the syntax tree into C code.
pub struct Kodegenerator;

impl Kodegenerator {
    /// A code generator.
    pub fn ny() -> (k: Kodegenerator) {
        Kodegenerator
    }

    /// A complete C program as one text. `tal` gives the C text of each number
    /// literal (by the text it was written with).
    pub fn generer(&self, saetninger: &[Saetning], tal: &Vec<(String, String)>) -> (r: String)
        ensures
            r@ == c_program(blok_v(saetninger@), tal_v(tal@)),
    {
        let ghost w = blok_v(saetninger@);
        proof {
            lemma_blok_v(saetninger@);
        }
        // The return types of the functions, for expressions and calls
        let mut ft: Tabel<Option<Type>> = Tabel::ny();
        let mut i: usize = 0;
        assert(w.skip(0) =~= w);
        while i < saetninger.len()
            invariant
                i <= saetninger@.len(),
                w == blok_v(saetninger@),
                w.len() == saetninger@.len(),
                forall|j: int| 0 <= j < saetninger@.len() ==> #[trigger] w[j] == saetning_v(saetninger@[j]),
                funktionstyper(w, Seq::empty()) == funktionstyper(w.skip(i as int), ft@),
            decreases saetninger.len() - i,
        {
            proof {
                assert(w.skip(i as int)[0] == w[i as int]);
                assert(w.skip(i as int).drop_first() =~= w.skip(i + 1));
            }
            match &saetninger[i] {
                Saetning::FunktionDef { navn, returtype, .. } => {
                    ft.indsaet(navn.clone(), *returtype);
                },
                _ => {},
            }
            i = i + 1;
        }
        assert(w.skip(i as int).len() == 0);
        let mut linjer = indledning();
        // The C functions before main
        let ghost ft_v = ft@;
        let mut j: usize = 0;
        assert(c_funktioner(w, ft_v, tal_v(tal@)) =~= Seq::<Seq<char>>::empty() + c_funktioner(w.skip(0), ft_v, tal_v(tal@)));
        while j < saetninger.len()
            invariant
                j <= saetninger@.len(),
                w == blok_v(saetninger@),
                w.len() == saetninger@.len(),
                forall|k: int| 0 <= k < saetninger@.len() ==> #[trigger] w[k] == saetning_v(saetninger@[k]),
                ft@ == ft_v,
                c_indledning() + c_funktioner(w, ft_v, tal_v(tal@)) == tekster_v(linjer@) + c_funktioner(w.skip(j as int), ft_v, tal_v(tal@)),
            decreases saetninger.len() - j,
        {
            proof {
                assert(w.skip(j as int)[0] == w[j as int]);
                assert(w.skip(j as int).drop_first() =~= w.skip(j + 1));
            }
            match &saetninger[j] {
                Saetning::FunktionDef { navn, parametre, returtype, krop } => {
                    let f = generer_funktion(navn, parametre, *returtype, krop, &ft, tal);
                    let ghost foer = tekster_v(linjer@);
                    let ghost fv = f@;
                    skub_linje(&mut linjer, f);
                    proof {
                        let rest = c_funktioner(w.skip(j + 1), ft_v, tal_v(tal@));
                        assert(foer + (seq![fv] + rest) =~= foer.push(fv) + rest);
                    }
                },
                _ => {},
            }
            j = j + 1;
        }
        assert(w.skip(j as int).len() == 0);
        assert(tekster_v(linjer@) + Seq::<Seq<char>>::empty() =~= tekster_v(linjer@));
        skub_linje(&mut linjer, tekst("int main(void) {"));
        // The console shows UTF-8, so Danish letters come out right
        skub_linje(&mut linjer, tekst("    SetConsoleOutputCP(65001);"));
        let mut tm: Tabel<Type> = Tabel::ny();
        let hoved = linjer_til_c(saetninger, &mut tm, &ft, tal, true);
        let ghost hv = tekster_v(hoved@);
        tilfoej_linjer(&mut linjer, hoved);
        skub_linje(&mut linjer, tekst("    return 0;"));
        skub_linje(&mut linjer, tekst("}"));
        assert(tekster_v(linjer@) =~= c_indledning() + c_funktioner(w, ft_v, tal_v(tal@))
            + seq!["int main(void) {"@, "    SetConsoleOutputCP(65001);"@] + hv + seq!["    return 0;"@, "}"@]);
        sammenfoej_tekster(&linjer, "\n")
    }
}

} // verus!
