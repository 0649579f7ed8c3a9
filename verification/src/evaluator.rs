//! The interpreter: runs a program and explains each step.
//!
//! Numbers are computed outside this library. A number value is held as the
//! 64-bit pattern that stands for it, and every computation on numbers (reading a
//! literal, adding, comparing, writing a number as text, checking a repeat count)
//! is a question (`Forespoergsel`) whose answer (`Svar`) the caller supplies.
//! A run is given the answers known so far; when it needs one more it stops and
//! names the question. Running again with the answer appended repeats the same
//! steps and goes further. The pattern 0 stands for the number zero.
use vstd::prelude::*;
use crate::ast::{Operator, Saetning, SaetningV, Type, Udtryk, UdtrykV, str_u, str_ul, str_s, str_b, parametre_v, blok_v, udtryk_liste_v, udtryk_v, saetning_v, lemma_blok_v, lemma_udtryk_liste_v};
use crate::tabel::{Tabel, slaa_op, indsaet};
use crate::tekst::{decimal, skriv_decimal, skub, tegn_af};
use vstd::string::StrSliceExecFns;

verus! {

/// A run-time value.
#[derive(Debug, PartialEq)]
pub enum Vaerdi {
    /// A number, held as the bit pattern that stands for it
    Nummer(u64),
    Streng(String),
    SandFalsk(bool),
}

pub enum VaerdiV {
    Nummer(u64),
    Streng(Seq<char>),
    SandFalsk(bool),
}

impl View for Vaerdi {
    type V = VaerdiV;

    open spec fn view(&self) -> VaerdiV {
        match self {
            Vaerdi::Nummer(x) => VaerdiV::Nummer(*x),
            Vaerdi::Streng(s) => VaerdiV::Streng(s@),
            Vaerdi::SandFalsk(b) => VaerdiV::SandFalsk(*b),
        }
    }
}

/// A computation on numbers that the run needs done.
#[derive(Debug, PartialEq)]
pub enum Forespoergsel {
    /// The number a literal denotes; answered by `Svar::Tal`
    Laes(String),
    /// `Plus` and `Minus` are answered by `Svar::Tal`, the comparisons by `Svar::Sandhed`
    Regn(Operator, u64, u64),
    /// The number written as the language shows it; answered by `Svar::Tekst`
    Vis(u64),
    /// A repeat count: `Svar::Antal` with the count for a whole number that is not
    /// negative, otherwise `Svar::IkkeHeltal` with the number written out
    Antal(u64),
}

pub enum ForespoergselV {
    Laes(Seq<char>),
    Regn(Operator, u64, u64),
    Vis(u64),
    Antal(u64),
}

impl View for Forespoergsel {
    type V = ForespoergselV;

    open spec fn view(&self) -> ForespoergselV {
        match self {
            Forespoergsel::Laes(s) => ForespoergselV::Laes(s@),
            Forespoergsel::Regn(o, a, b) => ForespoergselV::Regn(*o, *a, *b),
            Forespoergsel::Vis(x) => ForespoergselV::Vis(*x),
            Forespoergsel::Antal(x) => ForespoergselV::Antal(*x),
        }
    }
}

/// The answer to a `Forespoergsel`.
#[derive(Debug, PartialEq)]
pub enum Svar {
    Tal(u64),
    Sandhed(bool),
    Tekst(String),
    Antal(u64),
    IkkeHeltal(String),
}

pub enum SvarV {
    Tal(u64),
    Sandhed(bool),
    Tekst(Seq<char>),
    Antal(u64),
    IkkeHeltal(Seq<char>),
}

impl View for Svar {
    type V = SvarV;

    open spec fn view(&self) -> SvarV {
        match self {
            Svar::Tal(x) => SvarV::Tal(*x),
            Svar::Sandhed(b) => SvarV::Sandhed(*b),
            Svar::Tekst(s) => SvarV::Tekst(s@),
            Svar::Antal(n) => SvarV::Antal(*n),
            Svar::IkkeHeltal(s) => SvarV::IkkeHeltal(s@),
        }
    }
}

/// A line of output.
#[derive(Debug, PartialEq)]
pub enum Linje {
    /// A line of text
    Tekst(String),
    /// A row of the memory table: name, type and value
    Hukommelse { navn: String, type_navn: String, vaerdi: String },
}

pub enum LinjeV {
    Tekst(Seq<char>),
    Hukommelse { navn: Seq<char>, type_navn: Seq<char>, vaerdi: Seq<char> },
}

impl View for Linje {
    type V = LinjeV;

    open spec fn view(&self) -> LinjeV {
        match self {
            Linje::Tekst(s) => LinjeV::Tekst(s@),
            Linje::Hukommelse { navn, type_navn, vaerdi } => LinjeV::Hukommelse {
                navn: navn@,
                type_navn: type_navn@,
                vaerdi: vaerdi@,
            },
        }
    }
}

/// A text padded with spaces on the right to at least `bredde` characters.
pub open spec fn venstrestil(s: Seq<char>, bredde: nat) -> Seq<char> {
    if s.len() >= bredde {
        s
    } else {
        s + Seq::new((bredde - s.len()) as nat, |_i: int| ' ')
    }
}

/// A line as it is printed: a row of the memory table stands in columns of
/// 20 and 12 characters, with a space between.
pub open spec fn linje_tekst(l: LinjeV) -> Seq<char> {
    match l {
        LinjeV::Tekst(t) => t,
        LinjeV::Hukommelse { navn, type_navn, vaerdi } => venstrestil(navn, 20) + " "@ + venstrestil(type_navn, 12)
            + " "@ + vaerdi,
    }
}

fn venstrestil_tekst(s: &String, bredde: usize) -> (r: String)
    ensures
        r@ == venstrestil(s@, bredde as nat),
{
    let n = tegn_af(s.as_str()).len();
    let mut r = s.clone();
    let mut i = n;
    assert(r@ =~= s@ + Seq::new(0nat, |_j: int| ' '));
    while i < bredde
        invariant
            n == s@.len(),
            n <= i,
            i <= n || i <= bredde,
            r@ == s@ + Seq::new((i - n) as nat, |_j: int| ' '),
        decreases bredde - i,
    {
        skub(&mut r, ' ');
        assert(r@ =~= s@ + Seq::new((i + 1 - n) as nat, |_j: int| ' '));
        i = i + 1;
    }
    if n >= bredde {
        assert(r@ =~= s@);
    }
    r
}

impl Linje {
    /// The line as it is printed.
    pub fn som_tekst(&self) -> (r: String)
        ensures
            r@ == linje_tekst(self@),
    {
        match self {
            Linje::Tekst(t) => t.clone(),
            Linje::Hukommelse { navn, type_navn, vaerdi } => {
                let mut r = venstrestil_tekst(navn, 20);
                r.append(" ");
                let t = venstrestil_tekst(type_navn, 12);
                r.append(t.as_str());
                r.append(" ");
                r.append(vaerdi.as_str());
                proof {
                    reveal_strlit(" ");
                }
                r
            },
        }
    }
}

/// Why a run stopped before its end.
#[derive(Debug, PartialEq)]
pub enum Stop {
    /// The program failed with this message
    Fejl(String),
    /// The run needs the answer to this question
    Behov(Forespoergsel),
    /// An answer was not of the kind its question asks for
    UgyldigtSvar,
    /// The run went through more repetitions and calls than it was allowed
    TomtBraendstof,
}

pub enum StopV {
    Fejl(Seq<char>),
    Behov(ForespoergselV),
    UgyldigtSvar,
    TomtBraendstof,
}

impl View for Stop {
    type V = StopV;

    open spec fn view(&self) -> StopV {
        match self {
            Stop::Fejl(s) => StopV::Fejl(s@),
            Stop::Behov(q) => StopV::Behov(q@),
            Stop::UgyldigtSvar => StopV::UgyldigtSvar,
            Stop::TomtBraendstof => StopV::TomtBraendstof,
        }
    }
}

/// A registered function.
pub struct FunktionV {
    pub parametre: Seq<(Seq<char>, Type)>,
    pub returtype: Option<Type>,
    pub krop: Seq<SaetningV>,
}

/// Everything a run has: the variables in scope (in the order of their names),
/// the functions, a pending return value, how many answers were used, and the output.
pub struct Tilstand {
    pub hukommelse: Seq<(Seq<char>, VaerdiV)>,
    pub funktioner: Seq<(Seq<char>, FunktionV)>,
    pub retur: Option<VaerdiV>,
    pub brugt: nat,
    pub udskrift: Seq<LinjeV>,
}

pub open spec fn med_linje(st: Tilstand, l: Seq<char>) -> Tilstand {
    Tilstand { udskrift: st.udskrift.push(LinjeV::Tekst(l)), ..st }
}

/// The name of a type as the language writes it.
pub open spec fn typenavn(t: Type) -> Seq<char> {
    match t {
        Type::Nummer => "nummer"@,
        Type::Streng => "streng"@,
        Type::SandFalsk => "sandFalsk"@,
    }
}

/// The type of a value.
pub open spec fn type_af(v: VaerdiV) -> Type {
    match v {
        VaerdiV::Nummer(_) => Type::Nummer,
        VaerdiV::Streng(_) => Type::Streng,
        VaerdiV::SandFalsk(_) => Type::SandFalsk,
    }
}

/// The value a declared variable starts with when no value is given: 0, "" or falsk.
pub open spec fn standardvaerdi(t: Type) -> VaerdiV {
    match t {
        Type::Nummer => VaerdiV::Nummer(0),
        Type::Streng => VaerdiV::Streng(Seq::empty()),
        Type::SandFalsk => VaerdiV::SandFalsk(false),
    }
}

pub open spec fn sand_falsk(b: bool) -> Seq<char> {
    if b { "sand"@ } else { "falsk"@ }
}

/// Takes the next answer, or stops with the question when no answer is left.
pub open spec fn spoerg(svar: Seq<SvarV>, st: Tilstand, q: ForespoergselV) -> (Tilstand, Result<SvarV, StopV>) {
    if st.brugt < svar.len() {
        (Tilstand { brugt: st.brugt + 1, ..st }, Ok(svar[st.brugt as int]))
    } else {
        (st, Err(StopV::Behov(q)))
    }
}

/// A value as the language writes it.
pub open spec fn vis(svar: Seq<SvarV>, st: Tilstand, v: VaerdiV) -> (Tilstand, Result<Seq<char>, StopV>) {
    match v {
        VaerdiV::Streng(s) => (st, Ok(s)),
        VaerdiV::SandFalsk(b) => (st, Ok(sand_falsk(b))),
        VaerdiV::Nummer(x) => {
            let (st1, r) = spoerg(svar, st, ForespoergselV::Vis(x));
            match r {
                Ok(SvarV::Tekst(t)) => (st1, Ok(t)),
                Ok(_) => (st1, Err(StopV::UgyldigtSvar)),
                Err(e) => (st1, Err(e)),
            }
        },
    }
}

pub open spec fn ukendt_variabel(navn: Seq<char>) -> Seq<char> {
    "Ukendt variabel '"@ + navn + "' — er den erklæret med 'erklær'?"@
}

pub open spec fn operator_typefejl(v: VaerdiV, h: VaerdiV) -> Seq<char> {
    "Typefejl: operatoren kan ikke bruges på '"@ + typenavn(type_af(v)) + "' og '"@ + typenavn(type_af(h)) + "'"@
}

/// A binary operator applied to two values.
pub open spec fn anvend(svar: Seq<SvarV>, st: Tilstand, v: VaerdiV, op: Operator, h: VaerdiV) -> (Tilstand, Result<VaerdiV, StopV>) {
    match (v, h) {
        (VaerdiV::Nummer(a), VaerdiV::Nummer(b)) => {
            let (st1, r) = spoerg(svar, st, ForespoergselV::Regn(op, a, b));
            match r {
                Err(e) => (st1, Err(e)),
                Ok(s) => match (op, s) {
                    (Operator::Plus, SvarV::Tal(x)) => (st1, Ok(VaerdiV::Nummer(x))),
                    (Operator::Minus, SvarV::Tal(x)) => (st1, Ok(VaerdiV::Nummer(x))),
                    (Operator::Plus, _) => (st1, Err(StopV::UgyldigtSvar)),
                    (Operator::Minus, _) => (st1, Err(StopV::UgyldigtSvar)),
                    (_, SvarV::Sandhed(b)) => (st1, Ok(VaerdiV::SandFalsk(b))),
                    (_, _) => (st1, Err(StopV::UgyldigtSvar)),
                },
            }
        },
        (VaerdiV::Streng(a), VaerdiV::Streng(b)) => match op {
            Operator::Plus => (st, Ok(VaerdiV::Streng(a + b))),
            Operator::ErLig => (st, Ok(VaerdiV::SandFalsk(a == b))),
            Operator::ErIkke => (st, Ok(VaerdiV::SandFalsk(a != b))),
            Operator::Minus => (st, Err(StopV::Fejl("Typefejl: man kan ikke trække to strenge fra hinanden"@))),
            _ => (st, Err(StopV::Fejl(operator_typefejl(v, h)))),
        },
        _ => (st, Err(StopV::Fejl(operator_typefejl(v, h)))),
    }
}

/// Registers the function definitions of a block, first to last.
pub open spec fn registrer(st: Tilstand, b: Seq<SaetningV>) -> Tilstand
    decreases b.len(),
{
    if b.len() == 0 {
        st
    } else {
        let st1 = match b[0] {
            SaetningV::FunktionDef { navn, parametre, returtype, krop } => Tilstand {
                funktioner: indsaet(st.funktioner, navn, FunktionV { parametre, returtype, krop }),
                ..st
            },
            _ => st,
        };
        registrer(st1, b.drop_first())
    }
}

/// Binds parameters to argument values, first to last.
pub open spec fn bind(m: Seq<(Seq<char>, VaerdiV)>, ps: Seq<(Seq<char>, Type)>, vs: Seq<VaerdiV>) -> Seq<(Seq<char>, VaerdiV)>
    decreases ps.len(),
{
    if ps.len() == 0 || vs.len() == 0 {
        m
    } else {
        bind(indsaet(m, ps[0].0, vs[0]), ps.drop_first(), vs.drop_first())
    }
}

/// Joins texts with a separator between them.
pub open spec fn sammenfoej(l: Seq<Seq<char>>, sep: Seq<char>) -> Seq<char>
    decreases l.len(),
{
    if l.len() == 0 {
        Seq::empty()
    } else if l.len() == 1 {
        l[0]
    } else {
        sammenfoej(l.drop_last(), sep) + sep + l.last()
    }
}

/// Checks the arguments of a call against the parameters, first to last, and
/// writes each as `navn = værdi`.
pub open spec fn parameterspor(svar: Seq<SvarV>, st: Tilstand, fnavn: Seq<char>, ps: Seq<(Seq<char>, Type)>, vs: Seq<VaerdiV>)
    -> (Tilstand, Result<Seq<Seq<char>>, StopV>)
    decreases ps.len(),
{
    if ps.len() == 0 || vs.len() == 0 {
        (st, Ok(Seq::empty()))
    } else if type_af(vs[0]) != ps[0].1 {
        (st, Err(StopV::Fejl("Typefejl i kald af '"@ + fnavn + "': parameter '"@ + ps[0].0 + "' er "@
            + typenavn(ps[0].1) + ", men fik "@ + typenavn(type_af(vs[0])))))
    } else {
        let (st1, r) = vis(svar, st, vs[0]);
        match r {
            Err(e) => (st1, Err(e)),
            Ok(t) => {
                let (st2, r2) = parameterspor(svar, st1, fnavn, ps.drop_first(), vs.drop_first());
                match r2 {
                    Err(e) => (st2, Err(e)),
                    Ok(rest) => (st2, Ok(seq![ps[0].0 + " = "@ + t] + rest)),
                }
            },
        }
    }
}

/// The rows of the memory table, in the order of the names.
pub open spec fn hukommelsesraekker(svar: Seq<SvarV>, st: Tilstand, m: Seq<(Seq<char>, VaerdiV)>) -> (Tilstand, Result<(), StopV>)
    decreases m.len(),
{
    if m.len() == 0 {
        (st, Ok(()))
    } else {
        let (st1, r) = vis(svar, st, m[0].1);
        match r {
            Err(e) => (st1, Err(e)),
            Ok(t) => {
                let st2 = Tilstand {
                    udskrift: st1.udskrift.push(LinjeV::Hukommelse { navn: m[0].0, type_navn: typenavn(type_af(m[0].1)), vaerdi: t }),
                    ..st1
                };
                hukommelsesraekker(svar, st2, m.drop_first())
            },
        }
    }
}

/// The header of the memory table.
pub open spec fn hukommelse_overskrift() -> Seq<char> {
    "Navn                 Type         Værdi"@
}

/// The rule under the header of the memory table: 50 dashes.
pub open spec fn hukommelse_streg() -> Seq<char> {
    "--------------------------------------------------"@
}

/// Evaluates an expression.
pub open spec fn evaluer(svar: Seq<SvarV>, st: Tilstand, e: UdtrykV, fuel: nat) -> (Tilstand, Result<VaerdiV, StopV>)
    decreases fuel, str_u(e), 1nat,
{
    match e {
        UdtrykV::Bogstav(s) => (st, Ok(VaerdiV::Streng(s))),
        UdtrykV::Tal(t) => {
            let (st1, r) = spoerg(svar, st, ForespoergselV::Laes(t));
            match r {
                Ok(SvarV::Tal(x)) => (st1, Ok(VaerdiV::Nummer(x))),
                Ok(_) => (st1, Err(StopV::UgyldigtSvar)),
                Err(e) => (st1, Err(e)),
            }
        },
        UdtrykV::BoolLiteral(b) => (st, Ok(VaerdiV::SandFalsk(b))),
        UdtrykV::Variable(navn) => match slaa_op(st.hukommelse, navn) {
            Some(v) => (st, Ok(v)),
            None => (st, Err(StopV::Fejl(ukendt_variabel(navn)))),
        },
        UdtrykV::BinaerOp { venstre, operator, hoejre } => {
            let (st1, r1) = evaluer(svar, st, *venstre, fuel);
            match r1 {
                Err(x) => (st1, Err(x)),
                Ok(v) => {
                    let (st2, r2) = evaluer(svar, st1, *hoejre, fuel);
                    match r2 {
                        Err(x) => (st2, Err(x)),
                        Ok(h) => anvend(svar, st2, v, operator, h),
                    }
                },
            }
        },
        UdtrykV::FunktionsKald { navn, argumenter } => {
            let (st1, r1) = evaluer_liste(svar, st, argumenter, fuel);
            match r1 {
                Err(x) => (st1, Err(x)),
                Ok(vs) => kald(svar, st1, navn, vs, fuel),
            }
        },
    }
}

/// Calls a function with argument values: checks their number and types, explains
/// the call, runs the body in a scope of its own, and gives back the returned value
/// (or `falsk` when nothing is returned).
pub open spec fn kald(svar: Seq<SvarV>, st1: Tilstand, navn: Seq<char>, vs: Seq<VaerdiV>, fuel: nat) -> (Tilstand, Result<VaerdiV, StopV>)
    decreases fuel, 0nat, 0nat,
{
    match slaa_op(st1.funktioner, navn) {
        None => (st1, Err(StopV::Fejl("Ukendt funktion '"@ + navn + "' — er den erklæret med 'funktion'?"@))),
        Some(info) => if vs.len() != info.parametre.len() {
            (st1, Err(StopV::Fejl("Funktion '"@ + navn + "' forventer "@ + decimal(info.parametre.len())
                + (if info.parametre.len() == 1 { " argument"@ } else { " argumenter"@ })
                + ", men fik "@ + decimal(vs.len()))))
        } else {
            let (st2, r2) = parameterspor(svar, st1, navn, info.parametre, vs);
            match r2 {
                Err(x) => (st2, Err(x)),
                Ok(spor) => {
                    let st3 = med_linje(st2, "[trace] Kalder funktion '"@ + navn + "' ("@ + sammenfoej(spor, ", "@) + ")"@);
                    if fuel == 0 {
                        (st3, Err(StopV::TomtBraendstof))
                    } else {
                        let st4 = Tilstand { hukommelse: bind(Seq::empty(), info.parametre, vs), retur: None, ..st3 };
                        let (st5, r5) = koer(svar, st4, info.krop, (fuel - 1) as nat);
                        match r5 {
                            Err(x) => (st5, Err(x)),
                            Ok(_) => {
                                let st6 = Tilstand { hukommelse: st3.hukommelse, retur: st3.retur, ..st5 };
                                match st5.retur {
                                    None => (st6, Ok(VaerdiV::SandFalsk(false))),
                                    Some(v) => {
                                        let (st7, r7) = vis(svar, st6, v);
                                        match r7 {
                                            Err(x) => (st7, Err(x)),
                                            Ok(t) => (med_linje(st7, "[trace] Funktion '"@ + navn + "' returnerede: "@ + t), Ok(v)),
                                        }
                                    },
                                }
                            },
                        }
                    }
                },
            }
        },
    }
}

/// Evaluates expressions first to last.
pub open spec fn evaluer_liste(svar: Seq<SvarV>, st: Tilstand, l: Seq<UdtrykV>, fuel: nat) -> (Tilstand, Result<Seq<VaerdiV>, StopV>)
    decreases fuel, str_ul(l), 1nat,
{
    if l.len() == 0 {
        (st, Ok(Seq::empty()))
    } else {
        let (st1, r1) = evaluer(svar, st, l[0], fuel);
        match r1 {
            Err(x) => (st1, Err(x)),
            Ok(v) => {
                let (st2, r2) = evaluer_liste(svar, st1, l.drop_first(), fuel);
                match r2 {
                    Err(x) => (st2, Err(x)),
                    Ok(vs) => (st2, Ok(seq![v] + vs)),
                }
            },
        }
    }
}

/// Declares a variable with its value and explains it.
pub open spec fn erklaer_med(svar: Seq<SvarV>, st: Tilstand, navn: Seq<char>, t: Type, v: VaerdiV) -> (Tilstand, Result<(), StopV>) {
    let (st1, r) = vis(svar, st, v);
    match r {
        Err(x) => (st1, Err(x)),
        Ok(tekst) => {
            let st2 = med_linje(st1, "[trace] Erklærer '"@ + navn + "' som "@ + typenavn(t) + " = "@ + tekst);
            (Tilstand { hukommelse: indsaet(st2.hukommelse, navn, v), ..st2 }, Ok(()))
        },
    }
}

/// Executes a statement.
pub open spec fn udfoer(svar: Seq<SvarV>, st: Tilstand, s: SaetningV, fuel: nat) -> (Tilstand, Result<(), StopV>)
    decreases fuel, str_s(s), 1nat,
{
    match s {
        SaetningV::Skriv(e) => {
            let (st1, r1) = evaluer(svar, st, e, fuel);
            match r1 {
                Err(x) => (st1, Err(x)),
                Ok(v) => {
                    let (st2, r2) = vis(svar, st1, v);
                    match r2 {
                        Err(x) => (st2, Err(x)),
                        Ok(t) => (med_linje(med_linje(st2, "[trace] Skriver: "@ + t), t), Ok(())),
                    }
                },
            }
        },
        SaetningV::Erklaer { navn, type_, startvaerdi } => match startvaerdi {
            None => erklaer_med(svar, st, navn, type_, standardvaerdi(type_)),
            Some(e) => {
                let (st1, r1) = evaluer(svar, st, e, fuel);
                match r1 {
                    Err(x) => (st1, Err(x)),
                    Ok(v) => if type_af(v) == type_ {
                        erklaer_med(svar, st1, navn, type_, v)
                    } else {
                        (st1, Err(StopV::Fejl("Typefejl: variablen '"@ + navn + "' er erklæret som '"@ + typenavn(type_)
                            + "', men startværdien er af typen '"@ + typenavn(type_af(v)) + "'"@)))
                    },
                }
            },
        },
        SaetningV::Saet { navn, udtryk } => match slaa_op(st.hukommelse, navn) {
            None => (st, Err(StopV::Fejl("Ukendt variabel '"@ + navn + "' — erklær den først med 'erklær'"@))),
            Some(gammel) => {
                let (st1, r1) = evaluer(svar, st, udtryk, fuel);
                match r1 {
                    Err(x) => (st1, Err(x)),
                    Ok(ny) => if type_af(ny) != type_af(gammel) {
                        (st1, Err(StopV::Fejl("Typefejl: '"@ + navn + "' er af typen '"@ + typenavn(type_af(gammel))
                            + "', men du prøver at sætte en '"@ + typenavn(type_af(ny)) + "'-værdi"@)))
                    } else {
                        let (st2, r2) = vis(svar, st1, ny);
                        match r2 {
                            Err(x) => (st2, Err(x)),
                            Ok(t) => {
                                let st3 = med_linje(st2, "[trace] Sætter '"@ + navn + "' = "@ + t);
                                (Tilstand { hukommelse: indsaet(st3.hukommelse, navn, ny), ..st3 }, Ok(()))
                            },
                        }
                    },
                }
            },
        },
        SaetningV::VisHukommelse => {
            let st1 = med_linje(st, "[trace] Viser hukommelse"@);
            if st1.hukommelse.len() == 0 {
                (med_linje(st1, "(ingen variabler endnu)"@), Ok(()))
            } else {
                let st2 = med_linje(med_linje(st1, hukommelse_overskrift()), hukommelse_streg());
                hukommelsesraekker(svar, st2, st2.hukommelse)
            }
        },
        SaetningV::Hvis { betingelse, saa_gren, ellers_gren } => {
            let (st1, r1) = evaluer(svar, st, betingelse, fuel);
            match r1 {
                Err(x) => (st1, Err(x)),
                Ok(VaerdiV::SandFalsk(b)) => {
                    let st2 = med_linje(st1, "[trace] hvis-betingelse er "@ + sand_falsk(b));
                    if b {
                        koer(svar, st2, saa_gren, fuel)
                    } else {
                        match ellers_gren {
                            Some(g) => koer(svar, st2, g, fuel),
                            None => (st2, Ok(())),
                        }
                    }
                },
                Ok(v) => (st1, Err(StopV::Fejl("Typefejl: 'hvis' kræver en sand/falsk-betingelse, men fandt '"@
                    + typenavn(type_af(v)) + "'"@))),
            }
        },
        SaetningV::Gentag { antal, krop } => {
            let (st1, r1) = evaluer(svar, st, antal, fuel);
            match r1 {
                Err(x) => (st1, Err(x)),
                Ok(VaerdiV::Nummer(x)) => {
                    let (st2, r2) = spoerg(svar, st1, ForespoergselV::Antal(x));
                    match r2 {
                        Err(e) => (st2, Err(e)),
                        Ok(SvarV::IkkeHeltal(d)) => (st2, Err(StopV::Fejl("'gentag' kræver et positivt heltal, men fandt "@ + d))),
                        Ok(SvarV::Antal(n)) => {
                            let st3 = med_linje(st2, "[trace] Gentager "@ + decimal(n as nat) + " gange"@);
                            gentag(svar, st3, krop, 1, n as nat, fuel)
                        },
                        Ok(_) => (st2, Err(StopV::UgyldigtSvar)),
                    }
                },
                Ok(v) => (st1, Err(StopV::Fejl("'gentag' kræver et tal, men fandt '"@ + typenavn(type_af(v)) + "'"@))),
            }
        },
        SaetningV::Mens { betingelse, krop } => mens(svar, st, s, 0, fuel),
        SaetningV::FunktionDef { .. } => (st, Ok(())),
        SaetningV::Returner(e) => {
            let (st1, r1) = match e {
                Some(u) => evaluer(svar, st, u, fuel),
                None => (st, Ok(VaerdiV::SandFalsk(false))),
            };
            match r1 {
                Err(x) => (st1, Err(x)),
                Ok(v) => {
                    let (st2, r2) = vis(svar, st1, v);
                    match r2 {
                        Err(x) => (st2, Err(x)),
                        Ok(t) => (Tilstand { retur: Some(v), ..med_linje(st2, "[trace] Returnerer: "@ + t) }, Ok(())),
                    }
                },
            }
        },
        SaetningV::Udtryksaetning(e) => {
            let (st1, r1) = evaluer(svar, st, e, fuel);
            match r1 {
                Err(x) => (st1, Err(x)),
                Ok(_) => (st1, Ok(())),
            }
        },
    }
}

/// Repetitions `i` to `n` of a `gentag` body.
pub open spec fn gentag(svar: Seq<SvarV>, st: Tilstand, krop: Seq<SaetningV>, i: nat, n: nat, fuel: nat) -> (Tilstand, Result<(), StopV>)
    decreases fuel, str_b(krop), 0nat,
{
    if i > n {
        (st, Ok(()))
    } else if fuel == 0 {
        (st, Err(StopV::TomtBraendstof))
    } else {
        let st1 = med_linje(st, "[trace] Gentagelse "@ + decimal(i) + "/"@ + decimal(n));
        let (st2, r) = koer(svar, st1, krop, (fuel - 1) as nat);
        match r {
            Err(x) => (st2, Err(x)),
            Ok(_) => if st2.retur is Some {
                (st2, Ok(()))
            } else {
                gentag(svar, st2, krop, i + 1, n, (fuel - 1) as nat)
            },
        }
    }
}

/// The rounds of a `mens` loop after `iteration` rounds.
pub open spec fn mens(svar: Seq<SvarV>, st: Tilstand, s: SaetningV, iteration: nat, fuel: nat) -> (Tilstand, Result<(), StopV>)
    decreases fuel, str_s(s), 0nat,
{
    match s {
        SaetningV::Mens { betingelse, krop } => if st.retur is Some {
            (st, Ok(()))
        } else {
            let (st1, r1) = evaluer(svar, st, betingelse, fuel);
            match r1 {
                Err(x) => (st1, Err(x)),
                Ok(VaerdiV::SandFalsk(true)) => if fuel == 0 {
                    (st1, Err(StopV::TomtBraendstof))
                } else {
                    let st2 = med_linje(st1, "[trace] mens-betingelse er sand (iteration "@ + decimal(iteration + 1) + ")"@);
                    let (st3, r3) = koer(svar, st2, krop, (fuel - 1) as nat);
                    match r3 {
                        Err(x) => (st3, Err(x)),
                        Ok(_) => mens(svar, st3, s, iteration + 1, (fuel - 1) as nat),
                    }
                },
                Ok(VaerdiV::SandFalsk(false)) => (med_linje(st1, "[trace] mens-betingelse er falsk — stopper"@), Ok(())),
                Ok(v) => (st1, Err(StopV::Fejl("Typefejl: 'mens' kræver en sand/falsk-betingelse, men fandt '"@
                    + typenavn(type_af(v)) + "'"@))),
            }
        },
        _ => (st, Ok(())),
    }
}

/// Runs a block: registers its functions, then executes its other statements in
/// order until one fails or a return is pending.
pub open spec fn koer(svar: Seq<SvarV>, st: Tilstand, b: Seq<SaetningV>, fuel: nat) -> (Tilstand, Result<(), StopV>)
    decreases fuel, str_b(b), 1nat,
{
    koer_resten(svar, registrer(st, b), b, fuel)
}

pub open spec fn koer_resten(svar: Seq<SvarV>, st: Tilstand, b: Seq<SaetningV>, fuel: nat) -> (Tilstand, Result<(), StopV>)
    decreases fuel, str_b(b), 0nat,
{
    if b.len() == 0 || st.retur is Some {
        (st, Ok(()))
    } else if b[0] is FunktionDef {
        koer_resten(svar, st, b.drop_first(), fuel)
    } else {
        let (st1, r) = udfoer(svar, st, b[0], fuel);
        match r {
            Err(x) => (st1, Err(x)),
            Ok(_) => koer_resten(svar, st1, b.drop_first(), fuel),
        }
    }
}

/// A text as a `String`.
pub fn tekst(s: &str) -> (r: String)
    ensures
        r@ == s@,
{
    s.to_string()
}

/// The name of a type as the language writes it.
pub fn type_navn_fra_type(t: &Type) -> (r: &'static str)
    ensures
        r@ == typenavn(*t),
{
    match t {
        Type::Nummer => "nummer",
        Type::Streng => "streng",
        Type::SandFalsk => "sandFalsk",
    }
}

impl Vaerdi {
    /// The name of the value's type.
    pub fn type_navn(&self) -> (r: &'static str)
        ensures
            r@ == typenavn(type_af(self@)),
    {
        match self {
            Vaerdi::Nummer(_) => "nummer",
            Vaerdi::Streng(_) => "streng",
            Vaerdi::SandFalsk(_) => "sandFalsk",
        }
    }

    /// The type of the value.
    pub fn type_(&self) -> (r: Type)
        ensures
            r == type_af(self@),
    {
        match self {
            Vaerdi::Nummer(_) => Type::Nummer,
            Vaerdi::Streng(_) => Type::Streng,
            Vaerdi::SandFalsk(_) => Type::SandFalsk,
        }
    }

    /// A copy of the value.
    pub fn kopi(&self) -> (r: Vaerdi)
        ensures
            r@ == self@,
    {
        match self {
            Vaerdi::Nummer(x) => Vaerdi::Nummer(*x),
            Vaerdi::Streng(s) => Vaerdi::Streng(s.clone()),
            Vaerdi::SandFalsk(b) => Vaerdi::SandFalsk(*b),
        }
    }
}

/// A registered function: where its parameters and body stand in the program.
#[derive(Clone, Copy)]
pub struct Funktion<'a> {
    pub parametre: &'a Vec<(String, Type)>,
    pub returtype: Option<Type>,
    pub krop: &'a Vec<Saetning>,
}

impl<'a> View for Funktion<'a> {
    type V = FunktionV;

    open spec fn view(&self) -> FunktionV {
        FunktionV { parametre: parametre_v(self.parametre@), returtype: self.returtype, krop: blok_v(self.krop@) }
    }
}

/// The interpreter's memory: variables, functions and a pending return value.
pub struct Evaluator<'a> {
    pub hukommelse: Tabel<Vaerdi>,
    pub funktioner: Tabel<Funktion<'a>>,
    pub retur: Option<Vaerdi>,
}

/// The answers a run is given, how many it has used, and what it has written.
struct Forloeb<'s> {
    svar: &'s Vec<Svar>,
    brugt: usize,
    udskrift: Vec<Linje>,
}

pub open spec fn svar_v(svar: Seq<Svar>) -> Seq<SvarV> {
    svar.map_values(|x: Svar| x@)
}

pub open spec fn linjer_v(l: Seq<Linje>) -> Seq<LinjeV> {
    l.map_values(|x: Linje| x@)
}

pub open spec fn tekster_v(l: Seq<String>) -> Seq<Seq<char>> {
    l.map_values(|x: String| x@)
}

pub open spec fn vaerdier_v(l: Seq<Vaerdi>) -> Seq<VaerdiV> {
    l.map_values(|x: Vaerdi| x@)
}

pub open spec fn valgfri_v(o: Option<Vaerdi>) -> Option<VaerdiV> {
    match o {
        Some(v) => Some(v@),
        None => None,
    }
}

pub open spec fn udfald_v<T: View>(r: Result<T, Stop>) -> Result<T::V, StopV> {
    match r {
        Ok(x) => Ok(x@),
        Err(e) => Err(e@),
    }
}

pub open spec fn udfald_enhed(r: Result<(), Stop>) -> Result<(), StopV> {
    match r {
        Ok(_) => Ok(()),
        Err(e) => Err(e@),
    }
}

pub open spec fn udfald_tekst(r: Result<String, Stop>) -> Result<Seq<char>, StopV> {
    match r {
        Ok(x) => Ok(x@),
        Err(e) => Err(e@),
    }
}


/// The state of a run, seen as a whole.
spec fn sv(f: Forloeb) -> Seq<SvarV> {
    svar_v(f.svar@)
}

spec fn tilstand(ev: Evaluator, f: Forloeb) -> Tilstand {
    Tilstand {
        hukommelse: ev.hukommelse@,
        funktioner: ev.funktioner@,
        retur: valgfri_v(ev.retur),
        brugt: f.brugt as nat,
        udskrift: linjer_v(f.udskrift@),
    }
}

impl<'s> Forloeb<'s> {
    fn skriv_linje(&mut self, l: String)
        ensures
            final(self).svar == old(self).svar,
            final(self).brugt == old(self).brugt,
            linjer_v(final(self).udskrift@) == linjer_v(old(self).udskrift@).push(LinjeV::Tekst(l@)),
    {
        self.udskrift.push(Linje::Tekst(l));
        assert(linjer_v(self.udskrift@) =~= linjer_v(old(self).udskrift@).push(LinjeV::Tekst(l@)));
    }

    fn spoerg(&mut self, q: Forespoergsel) -> (r: Result<&'s Svar, Stop>)
        ensures
            final(self).svar == old(self).svar,
            final(self).udskrift == old(self).udskrift,
            old(self).brugt < old(self).svar@.len() ==> {
                &&& final(self).brugt == old(self).brugt + 1
                &&& r matches Ok(x) && x@ == svar_v(old(self).svar@)[old(self).brugt as int]
            },
            old(self).brugt >= old(self).svar@.len() ==> {
                &&& final(self).brugt == old(self).brugt
                &&& r matches Err(e) && e@ == StopV::Behov(q@)
            },
    {
        let svar: &'s Vec<Svar> = self.svar;
        if self.brugt < svar.len() {
            let i = self.brugt;
            self.brugt = self.brugt + 1;
            Ok(&svar[i])
        } else {
            Err(Stop::Behov(q))
        }
    }
}

/// Texts joined with a separator between them.
pub fn sammenfoej_tekster(l: &Vec<String>, sep: &str) -> (r: String)
    ensures
        r@ == sammenfoej(tekster_v(l@), sep@),
{
    let ghost w = tekster_v(l@);
    let mut r = String::new();
    let mut i: usize = 0;
    assert(w.take(0) =~= Seq::<Seq<char>>::empty());
    while i < l.len()
        invariant
            i <= l@.len(),
            w == tekster_v(l@),
            r@ == sammenfoej(w.take(i as int), sep@),
        decreases l.len() - i,
    {
        proof {
            assert(w.take(i + 1).drop_last() =~= w.take(i as int));
        }
        if i > 0 {
            r.append(sep);
        } else {
            assert(w.take(i as int) =~= Seq::<Seq<char>>::empty());
            assert(r@ =~= Seq::<char>::empty());
        }
        r.append(l[i].as_str());
        i = i + 1;
    }
    assert(w.take(i as int) =~= w);
    r
}

/// What a run did: the lines it wrote, how it ended, and how many answers it used.
pub struct Koersel {
    pub udskrift: Vec<Linje>,
    pub udfald: Result<(), Stop>,
    pub brugte_svar: usize,
}

/// The state a run starts from: the evaluator's memory, no answers used, no output.
pub open spec fn start(ev: Evaluator) -> Tilstand {
    Tilstand {
        hukommelse: ev.hukommelse@,
        funktioner: ev.funktioner@,
        retur: valgfri_v(ev.retur),
        brugt: 0,
        udskrift: Seq::empty(),
    }
}

/// The state a program starts from: nothing declared, nothing written.
pub open spec fn tom_tilstand() -> Tilstand {
    Tilstand { hukommelse: Seq::empty(), funktioner: Seq::empty(), retur: None, brugt: 0, udskrift: Seq::empty() }
}

impl<'a> Evaluator<'a> {
    /// An evaluator with nothing declared.
    pub fn ny() -> (ev: Evaluator<'a>)
        ensures
            start(ev) == tom_tilstand(),
    {
        Evaluator { hukommelse: Tabel::ny(), funktioner: Tabel::ny(), retur: None }
    }

    /// Runs a program with the answers given, allowing `braendstof` nested
    /// repetitions and calls. The evaluator keeps the variables, functions and
    /// pending return value the run ends with.
    pub fn koer(&mut self, saetninger: &'a Vec<Saetning>, svar: &Vec<Svar>, braendstof: u64) -> (k: Koersel)
        ensures
            ({
                let (st, r) = koer(svar_v(svar@), start(*old(self)), blok_v(saetninger@), braendstof as nat);
                &&& linjer_v(k.udskrift@) == st.udskrift
                &&& udfald_enhed(k.udfald) == r
                &&& k.brugte_svar == st.brugt
                &&& final(self).hukommelse@ == st.hukommelse
                &&& final(self).funktioner@ == st.funktioner
                &&& valgfri_v(final(self).retur) == st.retur
            }),
    {
        let mut f = Forloeb { svar, brugt: 0, udskrift: Vec::new() };
        assert(linjer_v(f.udskrift@) =~= Seq::<LinjeV>::empty());
        let r = self.koer_blok(&mut f, saetninger, braendstof);
        Koersel { udskrift: f.udskrift, udfald: r, brugte_svar: f.brugt }
    }

    fn vis<'s>(&self, f: &mut Forloeb<'s>, v: &Vaerdi) -> (r: Result<String, Stop>)
        ensures
            final(f).svar == old(f).svar,
            (tilstand(*self, *final(f)), udfald_tekst(r)) == vis(sv(*old(f)), tilstand(*self, *old(f)), v@),
    {
        match v {
            Vaerdi::Streng(s) => Ok(s.clone()),
            Vaerdi::SandFalsk(b) => if *b {
                Ok(tekst("sand"))
            } else {
                Ok(tekst("falsk"))
            },
            Vaerdi::Nummer(x) => match f.spoerg(Forespoergsel::Vis(*x)) {
                Ok(Svar::Tekst(t)) => Ok(t.clone()),
                Ok(_) => Err(Stop::UgyldigtSvar),
                Err(e) => Err(e),
            },
        }
    }

    fn anvend<'s>(&self, f: &mut Forloeb<'s>, v: Vaerdi, op: Operator, h: Vaerdi) -> (r: Result<Vaerdi, Stop>)
        ensures
            final(f).svar == old(f).svar,
            (tilstand(*self, *final(f)), udfald_v(r)) == anvend(sv(*old(f)), tilstand(*self, *old(f)), v@, op, h@),
    {
        match (v, h) {
            (Vaerdi::Nummer(a), Vaerdi::Nummer(b)) => match f.spoerg(Forespoergsel::Regn(op, a, b)) {
                Err(e) => Err(e),
                Ok(svar) => match (op, svar) {
                    (Operator::Plus, Svar::Tal(x)) => Ok(Vaerdi::Nummer(*x)),
                    (Operator::Minus, Svar::Tal(x)) => Ok(Vaerdi::Nummer(*x)),
                    (Operator::Plus, _) => Err(Stop::UgyldigtSvar),
                    (Operator::Minus, _) => Err(Stop::UgyldigtSvar),
                    (_, Svar::Sandhed(b)) => Ok(Vaerdi::SandFalsk(*b)),
                    (_, _) => Err(Stop::UgyldigtSvar),
                },
            },
            (Vaerdi::Streng(a), Vaerdi::Streng(b)) => match op {
                Operator::Plus => {
                    let mut s = a;
                    s.append(b.as_str());
                    Ok(Vaerdi::Streng(s))
                },
                Operator::ErLig => Ok(Vaerdi::SandFalsk(a == b)),
                Operator::ErIkke => Ok(Vaerdi::SandFalsk(a != b)),
                Operator::Minus => Err(Stop::Fejl(tekst("Typefejl: man kan ikke trække to strenge fra hinanden"))),
                _ => Err(Stop::Fejl(Self::operator_typefejl(&Vaerdi::Streng(a), &Vaerdi::Streng(b)))),
            },
            (v, h) => Err(Stop::Fejl(Self::operator_typefejl(&v, &h))),
        }
    }

    fn operator_typefejl(v: &Vaerdi, h: &Vaerdi) -> (r: String)
        ensures
            r@ == operator_typefejl(v@, h@),
    {
        let mut m = tekst("Typefejl: operatoren kan ikke bruges på '");
        m.append(v.type_navn());
        m.append("' og '");
        m.append(h.type_navn());
        m.append("'");
        m
    }

    fn evaluer<'s>(&mut self, f: &mut Forloeb<'s>, e: &'a Udtryk, fuel: u64) -> (r: Result<Vaerdi, Stop>)
        ensures
            final(f).svar == old(f).svar,
            (tilstand(*final(self), *final(f)), udfald_v(r)) == evaluer(sv(*old(f)), tilstand(*old(self), *old(f)), e@, fuel as nat),
        decreases fuel, str_u(e@), 1nat,
    {
        match e {
            Udtryk::Bogstav(s) => Ok(Vaerdi::Streng(s.clone())),
            Udtryk::Tal(t) => match f.spoerg(Forespoergsel::Laes(t.clone())) {
                Ok(Svar::Tal(x)) => Ok(Vaerdi::Nummer(*x)),
                Ok(_) => Err(Stop::UgyldigtSvar),
                Err(x) => Err(x),
            },
            Udtryk::BoolLiteral(b) => Ok(Vaerdi::SandFalsk(*b)),
            Udtryk::Variable(navn) => match self.hukommelse.find(navn) {
                Some(v) => Ok(v.kopi()),
                None => {
                    let mut m = tekst("Ukendt variabel '");
                    m.append(navn.as_str());
                    m.append("' — er den erklæret med 'erklær'?");
                    Err(Stop::Fejl(m))
                },
            },
            Udtryk::BinaerOp { venstre, operator, hoejre } => {
                let v = match self.evaluer(f, &**venstre, fuel) {
                    Ok(v) => v,
                    Err(x) => return Err(x),
                };
                let h = match self.evaluer(f, &**hoejre, fuel) {
                    Ok(h) => h,
                    Err(x) => return Err(x),
                };
                self.anvend(f, v, *operator, h)
            },
            Udtryk::FunktionsKald { navn, argumenter } => {
                proof {
                    assert(udtryk_liste_v(argumenter@).skip(0) =~= udtryk_liste_v(argumenter@));
                }
                let vs = match self.evaluer_liste(f, argumenter, 0, fuel) {
                    Ok(vs) => vs,
                    Err(x) => return Err(x),
                };
                self.kald(f, navn, vs, fuel)
            },
        }
    }

    fn kald<'s>(&mut self, f: &mut Forloeb<'s>, navn: &String, vs: Vec<Vaerdi>, fuel: u64) -> (r: Result<Vaerdi, Stop>)
        ensures
            final(f).svar == old(f).svar,
            (tilstand(*final(self), *final(f)), udfald_v(r)) == kald(sv(*old(f)), tilstand(*old(self), *old(f)), navn@, vaerdier_v(vs@), fuel as nat),
        decreases fuel, 0nat, 0nat,
    {
        let info: Funktion<'a> = match self.funktioner.find(navn) {
            Some(i) => *i,
            None => {
                let mut m = tekst("Ukendt funktion '");
                m.append(navn.as_str());
                m.append("' — er den erklæret med 'funktion'?");
                return Err(Stop::Fejl(m));
            },
        };
        let ghost ps = parametre_v(info.parametre@);
        assert(slaa_op(self.funktioner@, navn@) == Some(info@));
        assert(ps.len() == info.parametre@.len());
        assert(vaerdier_v(vs@).len() == vs@.len());
        if vs.len() != info.parametre.len() {
            let mut m = tekst("Funktion '");
            m.append(navn.as_str());
            m.append("' forventer ");
            skriv_decimal(&mut m, info.parametre.len() as u64);
            if info.parametre.len() == 1 {
                m.append(" argument");
            } else {
                m.append(" argumenter");
            }
            m.append(", men fik ");
            skriv_decimal(&mut m, vs.len() as u64);
            return Err(Stop::Fejl(m));
        }
        proof {
            assert(ps.skip(0) =~= ps);
            assert(vaerdier_v(vs@).skip(0) =~= vaerdier_v(vs@));
        }
        let spor = match self.parameterspor(f, navn, info.parametre, &vs, 0) {
            Ok(spor) => spor,
            Err(x) => return Err(x),
        };
        let mut linje = tekst("[trace] Kalder funktion '");
        linje.append(navn.as_str());
        linje.append("' (");
        let forbundet = sammenfoej_tekster(&spor, ", ");
        linje.append(forbundet.as_str());
        linje.append(")");
        f.skriv_linje(linje);
        if fuel == 0 {
            return Err(Stop::TomtBraendstof);
        }
        let ghost st3 = tilstand(*self, *f);
        let mut ydre: Tabel<Vaerdi> = Tabel::ny();
        std::mem::swap(&mut ydre, &mut self.hukommelse);
        let ydre_retur = self.retur.take();
        let mut i: usize = 0;
        while i < vs.len()
            invariant
                i <= vs@.len(),
                vs@.len() == info.parametre@.len(),
                ps == parametre_v(info.parametre@),
                self.funktioner@ == st3.funktioner,
                self.retur is None,
                bind(Seq::empty(), ps, vaerdier_v(vs@)) == bind(self.hukommelse@, ps.skip(i as int), vaerdier_v(vs@).skip(i as int)),
            decreases vs.len() - i,
        {
            let ghost m0 = self.hukommelse@;
            let p = &info.parametre[i];
            self.hukommelse.indsaet(p.0.clone(), vs[i].kopi());
            proof {
                assert(ps.skip(i as int)[0] == (p.0@, p.1));
                assert(vaerdier_v(vs@).skip(i as int)[0] == vs@[i as int]@);
                assert(ps.skip(i as int).drop_first() =~= ps.skip(i + 1));
                assert(vaerdier_v(vs@).skip(i as int).drop_first() =~= vaerdier_v(vs@).skip(i + 1));
            }
            i = i + 1;
        }
        proof {
            assert(ps.skip(i as int).len() == 0);
            assert(self.hukommelse@ == bind(Seq::empty(), ps, vaerdier_v(vs@)));
            assert(tilstand(*self, *f) == Tilstand { hukommelse: bind(Seq::empty(), ps, vaerdier_v(vs@)), retur: None, ..st3 });
        }
        match self.koer_blok(f, info.krop, fuel - 1) {
            Err(x) => return Err(x),
            Ok(()) => {},
        }
        let retur = self.retur.take();
        self.hukommelse = ydre;
        self.retur = ydre_retur;
        match retur {
            None => Ok(Vaerdi::SandFalsk(false)),
            Some(v) => {
                let t = match self.vis(f, &v) {
                    Ok(t) => t,
                    Err(x) => return Err(x),
                };
                let mut linje = tekst("[trace] Funktion '");
                linje.append(navn.as_str());
                linje.append("' returnerede: ");
                linje.append(t.as_str());
                f.skriv_linje(linje);
                Ok(v)
            },
        }
    }

    fn registrer(&mut self, b: &'a Vec<Saetning>)
        ensures
            forall|f: Forloeb| tilstand(*final(self), f) == registrer(tilstand(*old(self), f), blok_v(b@)),
    {
        let ghost w = blok_v(b@);
        proof {
            lemma_blok_v(b@);
        }
        let mut i: usize = 0;
        assert(w.skip(0) =~= w);
        while i < b.len()
            invariant
                i <= b@.len(),
                w == blok_v(b@),
                w.len() == b@.len(),
                forall|j: int| 0 <= j < b@.len() ==> #[trigger] w[j] == saetning_v(b@[j]),
                forall|f: Forloeb| registrer(tilstand(*old(self), f), w) == registrer(tilstand(*self, f), w.skip(i as int)),
            decreases b.len() - i,
        {
            let ghost foer = *self;
            match &b[i] {
                Saetning::FunktionDef { navn, parametre, returtype, krop } => {
                    self.funktioner.indsaet(navn.clone(), Funktion { parametre, returtype: *returtype, krop });
                },
                _ => {},
            }
            proof {
                assert(w.skip(i as int)[0] == w[i as int]);
                assert(w.skip(i as int).drop_first() =~= w.skip(i + 1));
                assert forall|f: Forloeb| registrer(tilstand(*old(self), f), w) == registrer(tilstand(*self, f), w.skip(i + 1)) by {
                    assert(registrer(tilstand(foer, f), w.skip(i as int)) == registrer(tilstand(*self, f), w.skip(i + 1)));
                }
            }
            i = i + 1;
        }
        proof {
            assert forall|f: Forloeb| tilstand(*self, f) == registrer(tilstand(*self, f), w.skip(i as int)) by {
                assert(w.skip(i as int).len() == 0);
            }
        }
    }

    fn koer_blok<'s>(&mut self, f: &mut Forloeb<'s>, b: &'a Vec<Saetning>, fuel: u64) -> (r: Result<(), Stop>)
        ensures
            final(f).svar == old(f).svar,
            (tilstand(*final(self), *final(f)), udfald_enhed(r)) == koer(sv(*old(f)), tilstand(*old(self), *old(f)), blok_v(b@), fuel as nat),
        decreases fuel, str_b(blok_v(b@)), 1nat,
    {
        self.registrer(b);
        proof {
            assert(blok_v(b@).skip(0) =~= blok_v(b@));
        }
        self.koer_resten(f, b, 0, fuel)
    }

    fn koer_resten<'s>(&mut self, f: &mut Forloeb<'s>, b: &'a Vec<Saetning>, i: usize, fuel: u64) -> (r: Result<(), Stop>)
        requires
            i <= b@.len(),
        ensures
            final(f).svar == old(f).svar,
            (tilstand(*final(self), *final(f)), udfald_enhed(r))
                == koer_resten(sv(*old(f)), tilstand(*old(self), *old(f)), blok_v(b@).skip(i as int), fuel as nat),
        decreases fuel, str_b(blok_v(b@).skip(i as int)), 0nat,
    {
        let ghost w = blok_v(b@);
        proof {
            lemma_blok_v(b@);
        }
        if i == b.len() {
            return Ok(());
        }
        if self.retur.is_some() {
            return Ok(());
        }
        proof {
            assert(w.skip(i as int)[0] == saetning_v(b@[i as int]));
            assert(w.skip(i as int).drop_first() =~= w.skip(i + 1));
        }
        if let Saetning::FunktionDef { .. } = &b[i] {
            return self.koer_resten(f, b, i + 1, fuel);
        }
        match self.udfoer(f, &b[i], fuel) {
            Err(x) => return Err(x),
            Ok(()) => {},
        }
        self.koer_resten(f, b, i + 1, fuel)
    }

    fn udfoer<'s>(&mut self, f: &mut Forloeb<'s>, s: &'a Saetning, fuel: u64) -> (r: Result<(), Stop>)
        ensures
            final(f).svar == old(f).svar,
            (tilstand(*final(self), *final(f)), udfald_enhed(r)) == udfoer(sv(*old(f)), tilstand(*old(self), *old(f)), s@, fuel as nat),
        decreases fuel, str_s(s@), 2nat,
    {
        match s {
            Saetning::Skriv(..) => self.skriv(f, s, fuel),
            Saetning::Erklaer{ .. } => self.erklaer(f, s, fuel),
            Saetning::Saet{ .. } => self.saet(f, s, fuel),
            Saetning::VisHukommelse => self.vis_hukommelse(f, s, fuel),
            Saetning::Hvis{ .. } => self.hvis(f, s, fuel),
            Saetning::Gentag{ .. } => self.gentag_saetning(f, s, fuel),
            Saetning::Mens { .. } => self.mens(f, s, fuel),
            Saetning::FunktionDef { .. } => Ok(()),
            Saetning::Returner(..) => self.returner(f, s, fuel),
            Saetning::Udtryksaetning(e) => match self.evaluer(f, e, fuel) {
                Ok(_) => Ok(()),
                Err(x) => Err(x),
            },
        }
    }

    fn skriv<'s>(&mut self, f: &mut Forloeb<'s>, s: &'a Saetning, fuel: u64) -> (r: Result<(), Stop>)
        requires
            s is Skriv,
        ensures
            final(f).svar == old(f).svar,
            (tilstand(*final(self), *final(f)), udfald_enhed(r)) == udfoer(sv(*old(f)), tilstand(*old(self), *old(f)), s@, fuel as nat),
        decreases fuel, str_s(s@), 1nat,
    {
        match s {
            Saetning::Skriv(e) => {
                let v = match self.evaluer(f, e, fuel) {
                    Ok(v) => v,
                    Err(x) => return Err(x),
                };
                let t = match self.vis(f, &v) {
                    Ok(t) => t,
                    Err(x) => return Err(x),
                };
                let mut linje = tekst("[trace] Skriver: ");
                linje.append(t.as_str());
                f.skriv_linje(linje);
                f.skriv_linje(t);
                Ok(())
            },
            _ => Ok(()),
        }
    }

    fn erklaer<'s>(&mut self, f: &mut Forloeb<'s>, s: &'a Saetning, fuel: u64) -> (r: Result<(), Stop>)
        requires
            s is Erklaer,
        ensures
            final(f).svar == old(f).svar,
            (tilstand(*final(self), *final(f)), udfald_enhed(r)) == udfoer(sv(*old(f)), tilstand(*old(self), *old(f)), s@, fuel as nat),
        decreases fuel, str_s(s@), 1nat,
    {
        match s {
            Saetning::Erklaer { navn, type_, startvaerdi } => {
                let v = match startvaerdi {
                    None => match type_ {
                        Type::Nummer => Vaerdi::Nummer(0),
                        Type::Streng => Vaerdi::Streng(String::new()),
                        Type::SandFalsk => Vaerdi::SandFalsk(false),
                    },
                    Some(e) => {
                        let v = match self.evaluer(f, e, fuel) {
                            Ok(v) => v,
                            Err(x) => return Err(x),
                        };
                        if v.type_() != *type_ {
                            let mut m = tekst("Typefejl: variablen '");
                            m.append(navn.as_str());
                            m.append("' er erklæret som '");
                            m.append(type_navn_fra_type(type_));
                            m.append("', men startværdien er af typen '");
                            m.append(v.type_navn());
                            m.append("'");
                            return Err(Stop::Fejl(m));
                        }
                        v
                    },
                };
                let t = match self.vis(f, &v) {
                    Ok(t) => t,
                    Err(x) => return Err(x),
                };
                let mut linje = tekst("[trace] Erklærer '");
                linje.append(navn.as_str());
                linje.append("' som ");
                linje.append(type_navn_fra_type(type_));
                linje.append(" = ");
                linje.append(t.as_str());
                f.skriv_linje(linje);
                self.hukommelse.indsaet(navn.clone(), v);
                Ok(())
            },
            _ => Ok(()),
        }
    }

    fn saet<'s>(&mut self, f: &mut Forloeb<'s>, s: &'a Saetning, fuel: u64) -> (r: Result<(), Stop>)
        requires
            s is Saet,
        ensures
            final(f).svar == old(f).svar,
            (tilstand(*final(self), *final(f)), udfald_enhed(r)) == udfoer(sv(*old(f)), tilstand(*old(self), *old(f)), s@, fuel as nat),
        decreases fuel, str_s(s@), 1nat,
    {
        match s {
            Saetning::Saet { navn, udtryk } => {
                let gammel_type = match self.hukommelse.find(navn) {
                    Some(v) => v.type_(),
                    None => {
                        let mut m = tekst("Ukendt variabel '");
                        m.append(navn.as_str());
                        m.append("' — erklær den først med 'erklær'");
                        return Err(Stop::Fejl(m));
                    },
                };
                let ny = match self.evaluer(f, udtryk, fuel) {
                    Ok(v) => v,
                    Err(x) => return Err(x),
                };
                if ny.type_() != gammel_type {
                    let mut m = tekst("Typefejl: '");
                    m.append(navn.as_str());
                    m.append("' er af typen '");
                    m.append(type_navn_fra_type(&gammel_type));
                    m.append("', men du prøver at sætte en '");
                    m.append(ny.type_navn());
                    m.append("'-værdi");
                    return Err(Stop::Fejl(m));
                }
                let t = match self.vis(f, &ny) {
                    Ok(t) => t,
                    Err(x) => return Err(x),
                };
                let mut linje = tekst("[trace] Sætter '");
                linje.append(navn.as_str());
                linje.append("' = ");
                linje.append(t.as_str());
                f.skriv_linje(linje);
                self.hukommelse.indsaet(navn.clone(), ny);
                Ok(())
            },
            _ => Ok(()),
        }
    }

    fn vis_hukommelse<'s>(&mut self, f: &mut Forloeb<'s>, s: &'a Saetning, fuel: u64) -> (r: Result<(), Stop>)
        requires
            s is VisHukommelse,
        ensures
            final(f).svar == old(f).svar,
            (tilstand(*final(self), *final(f)), udfald_enhed(r)) == udfoer(sv(*old(f)), tilstand(*old(self), *old(f)), s@, fuel as nat),
        decreases fuel, str_s(s@), 1nat,
    {
        match s {
            Saetning::VisHukommelse => {
                f.skriv_linje(tekst("[trace] Viser hukommelse"));
                if self.hukommelse.laengde() == 0 {
                    f.skriv_linje(tekst("(ingen variabler endnu)"));
                    return Ok(());
                }
                f.skriv_linje(tekst("Navn                 Type         Værdi"));
                f.skriv_linje(tekst("--------------------------------------------------"));
                self.hukommelsesraekker(f)
            },
            _ => Ok(()),
        }
    }

    fn hvis<'s>(&mut self, f: &mut Forloeb<'s>, s: &'a Saetning, fuel: u64) -> (r: Result<(), Stop>)
        requires
            s is Hvis,
        ensures
            final(f).svar == old(f).svar,
            (tilstand(*final(self), *final(f)), udfald_enhed(r)) == udfoer(sv(*old(f)), tilstand(*old(self), *old(f)), s@, fuel as nat),
        decreases fuel, str_s(s@), 1nat,
    {
        match s {
            Saetning::Hvis { betingelse, saa_gren, ellers_gren } => {
                let v = match self.evaluer(f, betingelse, fuel) {
                    Ok(v) => v,
                    Err(x) => return Err(x),
                };
                match v {
                    Vaerdi::SandFalsk(b) => {
                        let mut linje = tekst("[trace] hvis-betingelse er ");
                        if b {
                            linje.append("sand");
                        } else {
                            linje.append("falsk");
                        }
                        f.skriv_linje(linje);
                        if b {
                            self.koer_blok(f, saa_gren, fuel)
                        } else {
                            match ellers_gren {
                                Some(g) => self.koer_blok(f, g, fuel),
                                None => Ok(()),
                            }
                        }
                    },
                    v => {
                        let mut m = tekst("Typefejl: 'hvis' kræver en sand/falsk-betingelse, men fandt '");
                        m.append(v.type_navn());
                        m.append("'");
                        Err(Stop::Fejl(m))
                    },
                }
            },
            _ => Ok(()),
        }
    }

    fn gentag_saetning<'s>(&mut self, f: &mut Forloeb<'s>, s: &'a Saetning, fuel: u64) -> (r: Result<(), Stop>)
        requires
            s is Gentag,
        ensures
            final(f).svar == old(f).svar,
            (tilstand(*final(self), *final(f)), udfald_enhed(r)) == udfoer(sv(*old(f)), tilstand(*old(self), *old(f)), s@, fuel as nat),
        decreases fuel, str_s(s@), 1nat,
    {
        match s {
            Saetning::Gentag { antal, krop } => {
                let v = match self.evaluer(f, antal, fuel) {
                    Ok(v) => v,
                    Err(x) => return Err(x),
                };
                match v {
                    Vaerdi::Nummer(x) => {
                        let n = match f.spoerg(Forespoergsel::Antal(x)) {
                            Err(e) => return Err(e),
                            Ok(Svar::IkkeHeltal(d)) => {
                                let mut m = tekst("'gentag' kræver et positivt heltal, men fandt ");
                                m.append(d.as_str());
                                return Err(Stop::Fejl(m));
                            },
                            Ok(Svar::Antal(n)) => *n,
                            Ok(_) => return Err(Stop::UgyldigtSvar),
                        };
                        let mut linje = tekst("[trace] Gentager ");
                        skriv_decimal(&mut linje, n);
                        linje.append(" gange");
                        f.skriv_linje(linje);
                        self.gentag(f, krop, n, fuel)
                    },
                    v => {
                        let mut m = tekst("'gentag' kræver et tal, men fandt '");
                        m.append(v.type_navn());
                        m.append("'");
                        Err(Stop::Fejl(m))
                    },
                }
            },
            _ => Ok(()),
        }
    }

    fn returner<'s>(&mut self, f: &mut Forloeb<'s>, s: &'a Saetning, fuel: u64) -> (r: Result<(), Stop>)
        requires
            s is Returner,
        ensures
            final(f).svar == old(f).svar,
            (tilstand(*final(self), *final(f)), udfald_enhed(r)) == udfoer(sv(*old(f)), tilstand(*old(self), *old(f)), s@, fuel as nat),
        decreases fuel, str_s(s@), 1nat,
    {
        match s {
            Saetning::Returner(e) => {
                let v = match e {
                    Some(u) => match self.evaluer(f, u, fuel) {
                        Ok(v) => v,
                        Err(x) => return Err(x),
                    },
                    None => Vaerdi::SandFalsk(false),
                };
                let t = match self.vis(f, &v) {
                    Ok(t) => t,
                    Err(x) => return Err(x),
                };
                let mut linje = tekst("[trace] Returnerer: ");
                linje.append(t.as_str());
                f.skriv_linje(linje);
                self.retur = Some(v);
                Ok(())
            },
            _ => Ok(()),
        }
    }

    fn hukommelsesraekker<'s>(&self, f: &mut Forloeb<'s>) -> (r: Result<(), Stop>)
        ensures
            final(f).svar == old(f).svar,
            (tilstand(*self, *final(f)), udfald_enhed(r))
                == hukommelsesraekker(sv(*old(f)), tilstand(*self, *old(f)), self.hukommelse@),
    {
        let ghost m = self.hukommelse@;
        let mut i: usize = 0;
        assert(m.skip(0) =~= m);
        while i < self.hukommelse.laengde()
            invariant
                i <= m.len(),
                m == self.hukommelse@,
                f.svar == old(f).svar,
                hukommelsesraekker(sv(*old(f)), tilstand(*self, *old(f)), m)
                    == hukommelsesraekker(sv(*old(f)), tilstand(*self, *f), m.skip(i as int)),
            decreases m.len() - i,
        {
            let (navn, v) = self.hukommelse.post(i);
            proof {
                assert(m.skip(i as int)[0] == m[i as int]);
                assert(m.skip(i as int).drop_first() =~= m.skip(i + 1));
            }
            let t = match self.vis(f, v) {
                Ok(t) => t,
                Err(x) => return Err(x),
            };
            let ghost gammel = f.udskrift@;
            f.udskrift.push(Linje::Hukommelse { navn: navn.clone(), type_navn: tekst(v.type_navn()), vaerdi: t });
            assert(linjer_v(f.udskrift@) =~= linjer_v(gammel).push(LinjeV::Hukommelse {
                navn: m[i as int].0, type_navn: typenavn(type_af(m[i as int].1)), vaerdi: t@ }));
            i = i + 1;
        }
        Ok(())
    }

    fn gentag<'s>(&mut self, f: &mut Forloeb<'s>, krop: &'a Vec<Saetning>, n: u64, fuel: u64) -> (r: Result<(), Stop>)
        ensures
            final(f).svar == old(f).svar,
            (tilstand(*final(self), *final(f)), udfald_enhed(r))
                == gentag(sv(*old(f)), tilstand(*old(self), *old(f)), blok_v(krop@), 1, n as nat, fuel as nat),
        decreases fuel, str_b(blok_v(krop@)), 0nat,
    {
        if n == 0 {
            return Ok(());
        }
        let mut i: u64 = 1;
        let mut braendstof: u64 = fuel;
        loop
            invariant
                1 <= i <= n,
                braendstof <= fuel,
                f.svar == old(f).svar,
                gentag(sv(*old(f)), tilstand(*old(self), *old(f)), blok_v(krop@), 1, n as nat, fuel as nat)
                    == gentag(sv(*old(f)), tilstand(*self, *f), blok_v(krop@), i as nat, n as nat, braendstof as nat),
            decreases braendstof,
        {
            if braendstof == 0 {
                return Err(Stop::TomtBraendstof);
            }
            let mut linje = tekst("[trace] Gentagelse ");
            skriv_decimal(&mut linje, i);
            linje.append("/");
            skriv_decimal(&mut linje, n);
            f.skriv_linje(linje);
            match self.koer_blok(f, krop, braendstof - 1) {
                Err(x) => return Err(x),
                Ok(()) => {},
            }
            if self.retur.is_some() {
                return Ok(());
            }
            proof {
                let st2 = tilstand(*self, *f);
                if i == n {
                    assert(gentag(sv(*old(f)), st2, blok_v(krop@), (i + 1) as nat, n as nat, (braendstof - 1) as nat) == (st2, Ok::<(), StopV>(())));
                }
            }
            if i == n {
                return Ok(());
            }
            i = i + 1;
            braendstof = braendstof - 1;
        }
    }

    fn mens<'s>(&mut self, f: &mut Forloeb<'s>, s: &'a Saetning, fuel: u64) -> (r: Result<(), Stop>)
        requires
            s is Mens,
        ensures
            final(f).svar == old(f).svar,
            (tilstand(*final(self), *final(f)), udfald_enhed(r))
                == mens(sv(*old(f)), tilstand(*old(self), *old(f)), s@, 0, fuel as nat),
        decreases fuel, str_s(s@), 0nat,
    {
        let (betingelse, krop) = match s {
            Saetning::Mens { betingelse, krop } => (betingelse, krop),
            _ => return Ok(()),
        };
        let mut iteration: u64 = 0;
        let mut braendstof: u64 = fuel;
        loop
            invariant
                braendstof <= fuel,
                iteration + braendstof <= fuel,
                f.svar == old(f).svar,
                s@ == (SaetningV::Mens { betingelse: betingelse@, krop: blok_v(krop@) }),
                mens(sv(*old(f)), tilstand(*old(self), *old(f)), s@, 0, fuel as nat)
                    == mens(sv(*old(f)), tilstand(*self, *f), s@, iteration as nat, braendstof as nat),
            decreases braendstof,
        {
            if self.retur.is_some() {
                return Ok(());
            }
            let v = match self.evaluer(f, betingelse, braendstof) {
                Ok(v) => v,
                Err(x) => return Err(x),
            };
            match v {
                Vaerdi::SandFalsk(true) => {
                    if braendstof == 0 {
                        return Err(Stop::TomtBraendstof);
                    }
                    let mut linje = tekst("[trace] mens-betingelse er sand (iteration ");
                    skriv_decimal(&mut linje, iteration + 1);
                    linje.append(")");
                    f.skriv_linje(linje);
                    match self.koer_blok(f, krop, braendstof - 1) {
                        Err(x) => return Err(x),
                        Ok(()) => {},
                    }
                    iteration = iteration + 1;
                    braendstof = braendstof - 1;
                },
                Vaerdi::SandFalsk(false) => {
                    f.skriv_linje(tekst("[trace] mens-betingelse er falsk — stopper"));
                    return Ok(());
                },
                v => {
                    let mut m = tekst("Typefejl: 'mens' kræver en sand/falsk-betingelse, men fandt '");
                    m.append(v.type_navn());
                    m.append("'");
                    return Err(Stop::Fejl(m));
                },
            }
        }
    }

    fn parameterspor<'s>(&self, f: &mut Forloeb<'s>, fnavn: &String, ps: &Vec<(String, Type)>, vs: &Vec<Vaerdi>, i: usize)
        -> (r: Result<Vec<String>, Stop>)
        requires
            ps@.len() == vs@.len(),
            i <= ps@.len(),
        ensures
            final(f).svar == old(f).svar,
            (tilstand(*self, *final(f)), match r { Ok(v) => Ok(tekster_v(v@)), Err(x) => Err(x@) })
                == parameterspor(sv(*old(f)), tilstand(*self, *old(f)), fnavn@, parametre_v(ps@).skip(i as int), vaerdier_v(vs@).skip(i as int)),
        decreases ps@.len() - i,
    {
        let ghost pv = parametre_v(ps@);
        let ghost vv = vaerdier_v(vs@);
        if i == ps.len() {
            let r: Vec<String> = Vec::new();
            assert(tekster_v(r@) =~= Seq::<Seq<char>>::empty());
            return Ok(r);
        }
        proof {
            assert(pv.skip(i as int)[0] == (ps@[i as int].0@, ps@[i as int].1));
            assert(vv.skip(i as int)[0] == vs@[i as int]@);
            assert(pv.skip(i as int).drop_first() =~= pv.skip(i + 1));
            assert(vv.skip(i as int).drop_first() =~= vv.skip(i + 1));
        }
        let p = &ps[i];
        let v = &vs[i];
        if v.type_() != p.1 {
            let mut m = tekst("Typefejl i kald af '");
            m.append(fnavn.as_str());
            m.append("': parameter '");
            m.append(p.0.as_str());
            m.append("' er ");
            m.append(type_navn_fra_type(&p.1));
            m.append(", men fik ");
            m.append(v.type_navn());
            return Err(Stop::Fejl(m));
        }
        let t = match self.vis(f, v) {
            Ok(t) => t,
            Err(x) => return Err(x),
        };
        let mut rest = match self.parameterspor(f, fnavn, ps, vs, i + 1) {
            Ok(rest) => rest,
            Err(x) => return Err(x),
        };
        let mut post = p.0.clone();
        post.append(" = ");
        post.append(t.as_str());
        let ghost gammel = rest@;
        let ghost pv0 = post@;
        rest.insert(0, post);
        assert(tekster_v(rest@) =~= seq![pv0] + tekster_v(gammel));
        Ok(rest)
    }

    fn evaluer_liste<'s>(&mut self, f: &mut Forloeb<'s>, l: &'a Vec<Udtryk>, i: usize, fuel: u64) -> (r: Result<Vec<Vaerdi>, Stop>)
        requires
            i <= l@.len(),
        ensures
            final(f).svar == old(f).svar,
            (tilstand(*final(self), *final(f)), match r { Ok(v) => Ok(vaerdier_v(v@)), Err(x) => Err(x@) })
                == evaluer_liste(sv(*old(f)), tilstand(*old(self), *old(f)), udtryk_liste_v(l@).skip(i as int), fuel as nat),
        decreases fuel, str_ul(udtryk_liste_v(l@).skip(i as int)), 1nat,
    {
        let ghost w = udtryk_liste_v(l@);
        proof {
            lemma_udtryk_liste_v(l@);
        }
        if i == l.len() {
            let r: Vec<Vaerdi> = Vec::new();
            assert(vaerdier_v(r@) =~= Seq::<VaerdiV>::empty());
            return Ok(r);
        }
        proof {
            assert(w.skip(i as int)[0] == udtryk_v(l@[i as int]));
            assert(w.skip(i as int).drop_first() =~= w.skip(i + 1));
        }
        let v = match self.evaluer(f, &l[i], fuel) {
            Ok(v) => v,
            Err(x) => return Err(x),
        };
        let mut rest = match self.evaluer_liste(f, l, i + 1, fuel) {
            Ok(rest) => rest,
            Err(x) => return Err(x),
        };
        let ghost vv = v@;
        let ghost gammel = rest@;
        rest.insert(0, v);
        assert(vaerdier_v(rest@) =~= seq![vv] + vaerdier_v(gammel));
        Ok(rest)
    }
}

} // verus!
