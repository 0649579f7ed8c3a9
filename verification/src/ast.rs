//! The syntax tree of the language and its mathematical views.
use vstd::prelude::*;

verus! {

/// The three types of the language.
#[derive(Clone, Copy, Debug, PartialEq, Eq, Structural)]
pub enum Type {
    Nummer,
    Streng,
    SandFalsk,
}

impl View for Type {
    type V = Type;

    open spec fn view(&self) -> Type {
        *self
    }
}

/// Binary operators.
#[derive(Clone, Copy, Debug, PartialEq, Eq, Structural)]
pub enum Operator {
    Plus,
    Minus,
    /// `==`
    ErLig,
    /// `<>`
    ErIkke,
    /// `<`
    Mindre,
    /// `>`
    Stoerre,
    /// `<=`
    MindreEllerLig,
    /// `>=`
    StoerreEllerLig,
}

/// Expressions: what can be computed to a value.
/// A number literal is kept as the text it was written with (digits and dots);
/// the number it denotes is read from that text where the number is needed.
#[derive(Debug)]
pub enum Udtryk {
    /// A text literal: "hej"
    Bogstav(String),
    /// A number literal: 42 or 3.14, as written
    Tal(String),
    /// A truth literal: sand or falsk
    BoolLiteral(bool),
    /// A variable reference: alder
    Variable(String),
    /// A binary operation: a + b, a < b
    BinaerOp { venstre: Box<Udtryk>, operator: Operator, hoejre: Box<Udtryk> },
    /// A function call: f(a, b)
    FunktionsKald { navn: String, argumenter: Vec<Udtryk> },
}

/// Statements: what can be executed.
#[derive(Debug)]
pub enum Saetning {
    /// skriv <udtryk>
    Skriv(Udtryk),
    /// erklær <navn> som <type> [= <udtryk>]
    Erklaer { navn: String, type_: Type, startvaerdi: Option<Udtryk> },
    /// sæt <navn> = <udtryk>
    Saet { navn: String, udtryk: Udtryk },
    /// vis hukommelse
    VisHukommelse,
    /// hvis <betingelse> så <blok> [ellers <blok>] slut
    Hvis { betingelse: Udtryk, saa_gren: Vec<Saetning>, ellers_gren: Option<Vec<Saetning>> },
    /// gentag <antal> gange ... slut
    Gentag { antal: Udtryk, krop: Vec<Saetning> },
    /// mens <betingelse> så ... slut
    Mens { betingelse: Udtryk, krop: Vec<Saetning> },
    /// A function definition with typed parameters and an optional return type
    FunktionDef { navn: String, parametre: Vec<(String, Type)>, returtype: Option<Type>, krop: Vec<Saetning> },
    /// Return from the current function, with an optional value
    Returner(Option<Udtryk>),
    /// An expression executed for its effect (typically a call)
    Udtryksaetning(Udtryk),
}

/// The mathematical value of an expression: texts as character sequences.
pub enum UdtrykV {
    Bogstav(Seq<char>),
    Tal(Seq<char>),
    BoolLiteral(bool),
    Variable(Seq<char>),
    BinaerOp { venstre: Box<UdtrykV>, operator: Operator, hoejre: Box<UdtrykV> },
    FunktionsKald { navn: Seq<char>, argumenter: Seq<UdtrykV> },
}

/// The mathematical value of a statement.
pub enum SaetningV {
    Skriv(UdtrykV),
    Erklaer { navn: Seq<char>, type_: Type, startvaerdi: Option<UdtrykV> },
    Saet { navn: Seq<char>, udtryk: UdtrykV },
    VisHukommelse,
    Hvis { betingelse: UdtrykV, saa_gren: Seq<SaetningV>, ellers_gren: Option<Seq<SaetningV>> },
    Gentag { antal: UdtrykV, krop: Seq<SaetningV> },
    Mens { betingelse: UdtrykV, krop: Seq<SaetningV> },
    FunktionDef { navn: Seq<char>, parametre: Seq<(Seq<char>, Type)>, returtype: Option<Type>, krop: Seq<SaetningV> },
    Returner(Option<UdtrykV>),
    Udtryksaetning(UdtrykV),
}

pub open spec fn udtryk_v(e: Udtryk) -> UdtrykV
    decreases e,
{
    match e {
        Udtryk::Bogstav(s) => UdtrykV::Bogstav(s@),
        Udtryk::Tal(s) => UdtrykV::Tal(s@),
        Udtryk::BoolLiteral(b) => UdtrykV::BoolLiteral(b),
        Udtryk::Variable(s) => UdtrykV::Variable(s@),
        Udtryk::BinaerOp { venstre, operator, hoejre } => UdtrykV::BinaerOp {
            venstre: Box::new(udtryk_v(*venstre)),
            operator,
            hoejre: Box::new(udtryk_v(*hoejre)),
        },
        Udtryk::FunktionsKald { navn, argumenter } => UdtrykV::FunktionsKald {
            navn: navn@,
            argumenter: udtryk_liste_v(argumenter@),
        },
    }
}

pub open spec fn udtryk_liste_v(l: Seq<Udtryk>) -> Seq<UdtrykV>
    decreases l,
{
    if l.len() == 0 {
        Seq::empty()
    } else {
        seq![udtryk_v(l[0])] + udtryk_liste_v(l.drop_first())
    }
}

pub open spec fn parametre_v(p: Seq<(String, Type)>) -> Seq<(Seq<char>, Type)> {
    p.map_values(|x: (String, Type)| (x.0@, x.1))
}

pub open spec fn saetning_v(s: Saetning) -> SaetningV
    decreases s,
{
    match s {
        Saetning::Skriv(e) => SaetningV::Skriv(udtryk_v(e)),
        Saetning::Erklaer { navn, type_, startvaerdi } => SaetningV::Erklaer {
            navn: navn@,
            type_,
            startvaerdi: match startvaerdi {
                Some(e) => Some(udtryk_v(e)),
                None => None,
            },
        },
        Saetning::Saet { navn, udtryk } => SaetningV::Saet { navn: navn@, udtryk: udtryk_v(udtryk) },
        Saetning::VisHukommelse => SaetningV::VisHukommelse,
        Saetning::Hvis { betingelse, saa_gren, ellers_gren } => SaetningV::Hvis {
            betingelse: udtryk_v(betingelse),
            saa_gren: blok_v(saa_gren@),
            ellers_gren: match ellers_gren {
                Some(b) => Some(blok_v(b@)),
                None => None,
            },
        },
        Saetning::Gentag { antal, krop } => SaetningV::Gentag {
            antal: udtryk_v(antal),
            krop: blok_v(krop@),
        },
        Saetning::Mens { betingelse, krop } => SaetningV::Mens {
            betingelse: udtryk_v(betingelse),
            krop: blok_v(krop@),
        },
        Saetning::FunktionDef { navn, parametre, returtype, krop } => SaetningV::FunktionDef {
            navn: navn@,
            parametre: parametre_v(parametre@),
            returtype,
            krop: blok_v(krop@),
        },
        Saetning::Returner(e) => SaetningV::Returner(
            match e {
                Some(e) => Some(udtryk_v(e)),
                None => None,
            },
        ),
        Saetning::Udtryksaetning(e) => SaetningV::Udtryksaetning(udtryk_v(e)),
    }
}

pub open spec fn blok_v(b: Seq<Saetning>) -> Seq<SaetningV>
    decreases b,
{
    if b.len() == 0 {
        Seq::empty()
    } else {
        seq![saetning_v(b[0])] + blok_v(b.drop_first())
    }
}

/// The size of an expression: the number of its nodes.
pub open spec fn str_u(e: UdtrykV) -> nat
    decreases e,
{
    match e {
        UdtrykV::BinaerOp { venstre, hoejre, .. } => 1 + str_u(*venstre) + str_u(*hoejre),
        UdtrykV::FunktionsKald { argumenter, .. } => 1 + str_ul(argumenter),
        _ => 1,
    }
}

pub open spec fn str_ul(l: Seq<UdtrykV>) -> nat
    decreases l,
{
    if l.len() == 0 {
        0
    } else {
        1 + str_u(l[0]) + str_ul(l.drop_first())
    }
}

pub open spec fn str_uo(e: Option<UdtrykV>) -> nat {
    match e {
        Some(e) => str_u(e),
        None => 0,
    }
}

/// The size of a statement: the number of its nodes.
pub open spec fn str_s(s: SaetningV) -> nat
    decreases s,
{
    match s {
        SaetningV::Skriv(e) => 1 + str_u(e),
        SaetningV::Erklaer { startvaerdi, .. } => 1 + str_uo(startvaerdi),
        SaetningV::Saet { udtryk, .. } => 1 + str_u(udtryk),
        SaetningV::VisHukommelse => 1,
        SaetningV::Hvis { betingelse, saa_gren, ellers_gren } => 1 + str_u(betingelse) + str_b(saa_gren)
            + match ellers_gren {
            Some(g) => str_b(g),
            None => 0,
        },
        SaetningV::Gentag { antal, krop } => 1 + str_u(antal) + str_b(krop),
        SaetningV::Mens { betingelse, krop } => 1 + str_u(betingelse) + str_b(krop),
        SaetningV::FunktionDef { krop, .. } => 1 + str_b(krop),
        SaetningV::Returner(e) => 1 + str_uo(e),
        SaetningV::Udtryksaetning(e) => 1 + str_u(e),
    }
}

pub open spec fn str_b(b: Seq<SaetningV>) -> nat
    decreases b,
{
    if b.len() == 0 {
        0
    } else {
        1 + str_s(b[0]) + str_b(b.drop_first())
    }
}

pub proof fn lemma_udtryk_liste_v(l: Seq<Udtryk>)
    ensures
        udtryk_liste_v(l).len() == l.len(),
        forall|i: int| 0 <= i < l.len() ==> #[trigger] udtryk_liste_v(l)[i] == udtryk_v(l[i]),
    decreases l.len(),
{
    if l.len() > 0 {
        lemma_udtryk_liste_v(l.drop_first());
        assert forall|i: int| 0 <= i < l.len() implies #[trigger] udtryk_liste_v(l)[i] == udtryk_v(l[i]) by {
            if i > 0 {
                assert(l.drop_first()[i - 1] == l[i]);
            }
        }
    }
}

pub proof fn lemma_blok_v(b: Seq<Saetning>)
    ensures
        blok_v(b).len() == b.len(),
        forall|i: int| 0 <= i < b.len() ==> #[trigger] blok_v(b)[i] == saetning_v(b[i]),
    decreases b.len(),
{
    if b.len() > 0 {
        lemma_blok_v(b.drop_first());
        assert forall|i: int| 0 <= i < b.len() implies #[trigger] blok_v(b)[i] == saetning_v(b[i]) by {
            if i > 0 {
                assert(b.drop_first()[i - 1] == b[i]);
            }
        }
    }
}

/// Each statement of a block is smaller than the block.
pub proof fn lemma_str_b_del(b: Seq<SaetningV>, i: int)
    requires
        0 <= i < b.len(),
    ensures
        str_s(b[i]) < str_b(b),
    decreases b.len(),
{
    if i > 0 {
        lemma_str_b_del(b.drop_first(), i - 1);
        assert(b.drop_first()[i - 1] == b[i]);
    }
}

impl View for Udtryk {
    type V = UdtrykV;

    open spec fn view(&self) -> UdtrykV {
        udtryk_v(*self)
    }
}

impl View for Saetning {
    type V = SaetningV;

    open spec fn view(&self) -> SaetningV {
        saetning_v(*self)
    }
}

} // verus!
