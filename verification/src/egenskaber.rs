//! Properties of the interpreter that hold for every program.
use vstd::prelude::*;
use crate::ast::{Operator, SaetningV, Type, UdtrykV, str_u, str_ul, str_s, str_b};
use crate::tabel::{slaa_op, indsaet, sorteret, lemma_slaa_op_indsaet, lemma_indsaet_sorteret};
use crate::tekst::{decimal, foer};
use crate::evaluator::{
    ForespoergselV, FunktionV, LinjeV, StopV, SvarV, Tilstand, VaerdiV, udfoer, kald, vis, spoerg, anvend, parameterspor,
    erklaer_med, med_linje, standardvaerdi, type_af, evaluer, evaluer_liste, registrer, bind, sammenfoej,
    hukommelsesraekker, hukommelse_overskrift, hukommelse_streg, typenavn, sand_falsk, gentag, mens, koer,
    koer_resten,
};

verus! {

/// `vis` changes nothing but the number of answers used.
pub proof fn lemma_vis_roerer_intet(svar: Seq<SvarV>, st: Tilstand, v: VaerdiV)
    ensures
        ({
            let (st1, _) = vis(svar, st, v);
            Tilstand { brugt: st.brugt, ..st1 } == st
        }),
{
}

/// Checking the arguments of a call changes nothing but the number of answers used.
pub proof fn lemma_parameterspor_roerer_intet(svar: Seq<SvarV>, st: Tilstand, fnavn: Seq<char>,
    ps: Seq<(Seq<char>, Type)>, vs: Seq<VaerdiV>)
    ensures
        ({
            let (st1, _) = parameterspor(svar, st, fnavn, ps, vs);
            Tilstand { brugt: st.brugt, ..st1 } == st
        }),
    decreases ps.len(),
{
    if ps.len() > 0 && vs.len() > 0 && type_af(vs[0]) == ps[0].1 {
        lemma_vis_roerer_intet(svar, st, vs[0]);
        let (st1, r) = vis(svar, st, vs[0]);
        if r is Ok {
            lemma_parameterspor_roerer_intet(svar, st1, fnavn, ps.drop_first(), vs.drop_first());
        }
    }
}

/// A variable declared without a start value holds 0, "" or falsk, by its type,
/// and every other variable keeps its value. The declaration succeeds for a text
/// or a truth value; for a number it succeeds when the answer to how 0 is written
/// is a text.
pub proof fn lov_standardvaerdi(svar: Seq<SvarV>, st: Tilstand, navn: Seq<char>, t: Type, fuel: nat)
    ensures
        ({
            let (st1, r) = udfoer(svar, st, SaetningV::Erklaer { navn, type_: t, startvaerdi: None }, fuel);
            &&& t != Type::Nummer ==> r is Ok
            &&& t == Type::Nummer ==> (r is Ok <==> (st.brugt < svar.len() && svar[st.brugt as int] is Tekst))
            &&& r is Ok ==> st1.hukommelse == indsaet(st.hukommelse, navn, standardvaerdi(t))
            &&& r is Ok ==> slaa_op(st1.hukommelse, navn) == Some(standardvaerdi(t))
            &&& r is Ok ==> forall|x: Seq<char>| x != navn ==> #[trigger] slaa_op(st1.hukommelse, x) == slaa_op(st.hukommelse, x)
            &&& st1.funktioner == st.funktioner
            &&& st1.retur == st.retur
        }),
        standardvaerdi(Type::Nummer) == VaerdiV::Nummer(0),
        standardvaerdi(Type::Streng) == VaerdiV::Streng(Seq::empty()),
        standardvaerdi(Type::SandFalsk) == VaerdiV::SandFalsk(false),
{
    let (st1, r) = vis(svar, st, standardvaerdi(t));
    if let Ok(tekst) = r {
        let st2 = med_linje(st1, "[trace] Erklærer '"@ + navn + "' som "@ + crate::evaluator::typenavn(t) + " = "@ + tekst);
        lemma_slaa_op_indsaet(st2.hukommelse, navn, standardvaerdi(t), navn);
        assert forall|x: Seq<char>| x != navn implies #[trigger] slaa_op(indsaet(st2.hukommelse, navn, standardvaerdi(t)), x)
            == slaa_op(st.hukommelse, x) by {
            lemma_slaa_op_indsaet(st2.hukommelse, navn, standardvaerdi(t), x);
        }
    }
}

/// `gentag` with a count that is not a number stops with an error, and so does a
/// number that is not a whole number of at least 0; neither runs the body. A count
/// of 0 runs nothing either: only the trace line is written.
pub proof fn lov_gentag_antal(svar: Seq<SvarV>, st: Tilstand, antal: UdtrykV, krop: Seq<SaetningV>, fuel: nat)
    ensures
        ({
            let (st1, r1) = evaluer(svar, st, antal, fuel);
            let (st2, r2) = udfoer(svar, st, SaetningV::Gentag { antal, krop }, fuel);
            &&& r1 matches Err(x) ==> st2 == st1 && r2 == Err::<(), StopV>(x)
            &&& r1 matches Ok(v) ==> (!(v is Nummer) ==> st2 == st1
                && r2 == Err::<(), StopV>(StopV::Fejl("'gentag' kræver et tal, men fandt '"@ + typenavn(type_af(v)) + "'"@)))
            &&& r1 matches Ok(VaerdiV::Nummer(x)) ==> {
                let (st3, r3) = spoerg(svar, st1, ForespoergselV::Antal(x));
                &&& r3 matches Ok(SvarV::IkkeHeltal(d)) ==> st2 == st3
                    && r2 == Err::<(), StopV>(StopV::Fejl("'gentag' kræver et positivt heltal, men fandt "@ + d))
                &&& r3 == Ok::<SvarV, StopV>(SvarV::Antal(0)) ==> st2 == med_linje(st3, "[trace] Gentager 0 gange"@) && r2 is Ok
            }
        }),
{
    let (st1, r1) = evaluer(svar, st, antal, fuel);
    if let Ok(VaerdiV::Nummer(x)) = r1 {
        let (st3, r3) = spoerg(svar, st1, ForespoergselV::Antal(x));
        if r3 == Ok::<SvarV, StopV>(SvarV::Antal(0)) {
            reveal_strlit("0");
            assert(decimal(0) == "0"@);
            let st4 = med_linje(st3, "[trace] Gentager "@ + decimal(0) + " gange"@);
            assert("[trace] Gentager "@ + decimal(0) + " gange"@ == "[trace] Gentager 0 gange"@) by {
                reveal_strlit("[trace] Gentager ");
                reveal_strlit(" gange");
                reveal_strlit("[trace] Gentager 0 gange");
                assert("[trace] Gentager "@ + "0"@ + " gange"@ =~= "[trace] Gentager 0 gange"@);
            }
        }
    }
}

/// `hvis` runs the branch its condition chooses, after the trace line, just as
/// the branch runs as a block of its own; without an `ellers` a false condition
/// runs nothing. A condition that is not a truth value stops with a type error
/// before any branch runs.
pub proof fn lov_hvis(svar: Seq<SvarV>, st: Tilstand, b: UdtrykV, saa: Seq<SaetningV>, ellers: Option<Seq<SaetningV>>, fuel: nat)
    ensures
        ({
            let (st1, r1) = evaluer(svar, st, b, fuel);
            let res = udfoer(svar, st, SaetningV::Hvis { betingelse: b, saa_gren: saa, ellers_gren: ellers }, fuel);
            &&& r1 matches Err(x) ==> res == (st1, Err::<(), StopV>(x))
            &&& r1 == Ok::<VaerdiV, StopV>(VaerdiV::SandFalsk(true))
                ==> res == koer(svar, med_linje(st1, "[trace] hvis-betingelse er sand"@), saa, fuel)
            &&& r1 == Ok::<VaerdiV, StopV>(VaerdiV::SandFalsk(false)) ==> res == match ellers {
                Some(g) => koer(svar, med_linje(st1, "[trace] hvis-betingelse er falsk"@), g, fuel),
                None => (med_linje(st1, "[trace] hvis-betingelse er falsk"@), Ok::<(), StopV>(())),
            }
            &&& r1 matches Ok(v) ==> (!(v is SandFalsk) ==> res == (st1, Err::<(), StopV>(StopV::Fejl(
                "Typefejl: 'hvis' kræver en sand/falsk-betingelse, men fandt '"@ + typenavn(type_af(v)) + "'"@))))
        }),
{
    reveal_strlit("sand");
    reveal_strlit("falsk");
    reveal_strlit("[trace] hvis-betingelse er ");
    reveal_strlit("[trace] hvis-betingelse er sand");
    reveal_strlit("[trace] hvis-betingelse er falsk");
    assert("[trace] hvis-betingelse er "@ + sand_falsk(true) =~= "[trace] hvis-betingelse er sand"@);
    assert("[trace] hvis-betingelse er "@ + sand_falsk(false) =~= "[trace] hvis-betingelse er falsk"@);
}

/// `sæt` keeps the type of a variable: it succeeds only on a declared variable,
/// and the variable keeps the type it had.
pub proof fn lov_saet_bevarer_type(svar: Seq<SvarV>, st: Tilstand, navn: Seq<char>, u: UdtrykV, fuel: nat)
    ensures
        ({
            let (st1, r) = udfoer(svar, st, SaetningV::Saet { navn, udtryk: u }, fuel);
            r is Ok ==> (slaa_op(st.hukommelse, navn) matches Some(gammel)
                && slaa_op(st1.hukommelse, navn) matches Some(ny)
                && type_af(ny) == type_af(gammel))
        }),
{
    if let Some(gammel) = slaa_op(st.hukommelse, navn) {
        let (st1, r1) = evaluer(svar, st, u, fuel);
        if let Ok(ny) = r1 {
            let (st2, r2) = vis(svar, st1, ny);
            if let Ok(t) = r2 {
                let st3 = med_linje(st2, "[trace] Sætter '"@ + navn + "' = "@ + t);
                lemma_slaa_op_indsaet(st3.hukommelse, navn, ny, navn);
            }
        }
    }
}

/// A call that returns gives the caller back its own variables and pending
/// return value, whatever the function did with its own.
pub proof fn lov_kald_genopretter(svar: Seq<SvarV>, st: Tilstand, navn: Seq<char>, vs: Seq<VaerdiV>, fuel: nat)
    ensures
        ({
            let (st1, r) = kald(svar, st, navn, vs, fuel);
            r is Ok ==> st1.hukommelse == st.hukommelse && st1.retur == st.retur
        }),
{
    if let Some(info) = slaa_op(st.funktioner, navn) {
        if vs.len() == info.parametre.len() {
            lemma_parameterspor_roerer_intet(svar, st, navn, info.parametre, vs);
            let (st2, r2) = parameterspor(svar, st, navn, info.parametre, vs);
            if let Ok(spor) = r2 {
                if fuel > 0 {
                    let st3 = med_linje(st2, "[trace] Kalder funktion '"@ + navn + "' ("@
                        + crate::evaluator::sammenfoej(spor, ", "@) + ")"@);
                    let st4 = Tilstand { hukommelse: crate::evaluator::bind(Seq::empty(), info.parametre, vs), retur: None, ..st3 };
                    let (st5, r5) = crate::evaluator::koer(svar, st4, info.krop, (fuel - 1) as nat);
                    if r5 is Ok {
                        let st6 = Tilstand { hukommelse: st3.hukommelse, retur: st3.retur, ..st5 };
                        if let Some(v) = st5.retur {
                            lemma_vis_roerer_intet(svar, st6, v);
                        }
                    }
                }
            }
        }
    }
}

/// `b` comes after `a` in a run: the lines written before are kept as they were,
/// answers are only ever taken, and the variables and the functions stay in the
/// order of their names.
pub open spec fn fremad(a: Tilstand, b: Tilstand) -> bool {
    &&& a.udskrift.len() <= b.udskrift.len()
    &&& forall|i: int| 0 <= i < a.udskrift.len() ==> #[trigger] b.udskrift[i] == a.udskrift[i]
    &&& a.brugt <= b.brugt
    &&& (sorteret(a.hukommelse) ==> sorteret(b.hukommelse))
    &&& (sorteret(a.funktioner) ==> sorteret(b.funktioner))
}

pub(crate) proof fn lemma_fremad_trans(a: Tilstand, b: Tilstand, c: Tilstand)
    requires
        fremad(a, b),
        fremad(b, c),
    ensures
        fremad(a, c),
{
}

pub(crate) proof fn lemma_med_linje(st: Tilstand, l: Seq<char>)
    ensures
        fremad(st, med_linje(st, l)),
{
}

pub(crate) proof fn lemma_spoerg(svar: Seq<SvarV>, st: Tilstand, q: ForespoergselV)
    ensures
        fremad(st, spoerg(svar, st, q).0),
{
}

pub(crate) proof fn lemma_vis(svar: Seq<SvarV>, st: Tilstand, v: VaerdiV)
    ensures
        fremad(st, vis(svar, st, v).0),
{
}

pub(crate) proof fn lemma_anvend(svar: Seq<SvarV>, st: Tilstand, v: VaerdiV, op: Operator, h: VaerdiV)
    ensures
        fremad(st, anvend(svar, st, v, op, h).0),
{
}

pub(crate) proof fn lemma_parameterspor(svar: Seq<SvarV>, st: Tilstand, fnavn: Seq<char>,
    ps: Seq<(Seq<char>, Type)>, vs: Seq<VaerdiV>)
    ensures
        fremad(st, parameterspor(svar, st, fnavn, ps, vs).0),
    decreases ps.len(),
{
    if ps.len() > 0 && vs.len() > 0 && type_af(vs[0]) == ps[0].1 {
        let (st1, r) = vis(svar, st, vs[0]);
        if r is Ok {
            lemma_parameterspor(svar, st1, fnavn, ps.drop_first(), vs.drop_first());
            lemma_fremad_trans(st, st1, parameterspor(svar, st1, fnavn, ps.drop_first(), vs.drop_first()).0);
        }
    }
}

pub(crate) proof fn lemma_hukommelsesraekker(svar: Seq<SvarV>, st: Tilstand, m: Seq<(Seq<char>, VaerdiV)>)
    ensures
        fremad(st, hukommelsesraekker(svar, st, m).0),
    decreases m.len(),
{
    if m.len() > 0 {
        let (st1, r) = vis(svar, st, m[0].1);
        if let Ok(t) = r {
            let st2 = Tilstand {
                udskrift: st1.udskrift.push(crate::evaluator::LinjeV::Hukommelse {
                    navn: m[0].0,
                    type_navn: typenavn(type_af(m[0].1)),
                    vaerdi: t,
                }),
                ..st1
            };
            lemma_hukommelsesraekker(svar, st2, m.drop_first());
            lemma_fremad_trans(st, st2, hukommelsesraekker(svar, st2, m.drop_first()).0);
        }
    }
}

pub(crate) proof fn lemma_registrer(st: Tilstand, b: Seq<SaetningV>)
    ensures
        fremad(st, registrer(st, b)),
    decreases b.len(),
{
    if b.len() > 0 {
        let st1 = match b[0] {
            SaetningV::FunktionDef { navn, parametre, returtype, krop } => {
                if sorteret(st.funktioner) {
                    lemma_indsaet_sorteret(st.funktioner, navn, FunktionV { parametre, returtype, krop });
                }
                Tilstand {
                    funktioner: indsaet(st.funktioner, navn, FunktionV { parametre, returtype, krop }),
                    ..st
                }
            },
            _ => st,
        };
        lemma_registrer(st1, b.drop_first());
        lemma_fremad_trans(st, st1, registrer(st1, b.drop_first()));
    }
}

proof fn lemma_bind_sorteret(m: Seq<(Seq<char>, VaerdiV)>, ps: Seq<(Seq<char>, Type)>, vs: Seq<VaerdiV>)
    requires
        sorteret(m),
    ensures
        sorteret(bind(m, ps, vs)),
    decreases ps.len(),
{
    if ps.len() > 0 && vs.len() > 0 {
        lemma_indsaet_sorteret(m, ps[0].0, vs[0]);
        lemma_bind_sorteret(indsaet(m, ps[0].0, vs[0]), ps.drop_first(), vs.drop_first());
    }
}

proof fn lemma_erklaer_med(svar: Seq<SvarV>, st: Tilstand, navn: Seq<char>, t: Type, v: VaerdiV)
    ensures
        fremad(st, erklaer_med(svar, st, navn, t, v).0),
{
    let (st1, r) = vis(svar, st, v);
    if let Ok(tekst) = r {
        let st2 = med_linje(st1, "[trace] Erklærer '"@ + navn + "' som "@ + typenavn(t) + " = "@ + tekst);
        if sorteret(st2.hukommelse) {
            lemma_indsaet_sorteret(st2.hukommelse, navn, v);
        }
    }
}

/// Evaluating an expression keeps what was written, only takes answers, and
/// keeps the variables and functions in name order.
pub proof fn lov_evaluer_fremad(svar: Seq<SvarV>, st: Tilstand, e: UdtrykV, fuel: nat)
    ensures
        fremad(st, evaluer(svar, st, e, fuel).0),
    decreases fuel, str_u(e), 1nat,
{
    match e {
        UdtrykV::Tal(t) => {
            lemma_spoerg(svar, st, ForespoergselV::Laes(t));
        },
        UdtrykV::BinaerOp { venstre, operator, hoejre } => {
            lov_evaluer_fremad(svar, st, *venstre, fuel);
            let (st1, r1) = evaluer(svar, st, *venstre, fuel);
            if let Ok(v) = r1 {
                lov_evaluer_fremad(svar, st1, *hoejre, fuel);
                let (st2, r2) = evaluer(svar, st1, *hoejre, fuel);
                lemma_fremad_trans(st, st1, st2);
                if let Ok(h) = r2 {
                    lemma_anvend(svar, st2, v, operator, h);
                    lemma_fremad_trans(st, st2, anvend(svar, st2, v, operator, h).0);
                }
            }
        },
        UdtrykV::FunktionsKald { navn, argumenter } => {
            lov_evaluer_liste_fremad(svar, st, argumenter, fuel);
            let (st1, r1) = evaluer_liste(svar, st, argumenter, fuel);
            if let Ok(vs) = r1 {
                lov_kald_fremad(svar, st1, navn, vs, fuel);
                lemma_fremad_trans(st, st1, kald(svar, st1, navn, vs, fuel).0);
            }
        },
        _ => {},
    }
}

/// A call keeps what was written, only takes answers, and keeps the variables
/// and functions in name order.
pub proof fn lov_kald_fremad(svar: Seq<SvarV>, st1: Tilstand, navn: Seq<char>, vs: Seq<VaerdiV>, fuel: nat)
    ensures
        fremad(st1, kald(svar, st1, navn, vs, fuel).0),
    decreases fuel, 0nat, 0nat,
{
    if let Some(info) = slaa_op(st1.funktioner, navn) {
        if vs.len() == info.parametre.len() {
            lemma_parameterspor(svar, st1, navn, info.parametre, vs);
            let (st2, r2) = parameterspor(svar, st1, navn, info.parametre, vs);
            if let Ok(spor) = r2 {
                let st3 = med_linje(st2, "[trace] Kalder funktion '"@ + navn + "' ("@ + sammenfoej(spor, ", "@) + ")"@);
                lemma_fremad_trans(st1, st2, st3);
                if fuel > 0 {
                    let st4 = Tilstand { hukommelse: bind(Seq::empty(), info.parametre, vs), retur: None, ..st3 };
                    lemma_bind_sorteret(Seq::empty(), info.parametre, vs);
                    lov_koer_fremad(svar, st4, info.krop, (fuel - 1) as nat);
                    let (st5, r5) = koer(svar, st4, info.krop, (fuel - 1) as nat);
                    if r5 is Ok {
                        let st6 = Tilstand { hukommelse: st3.hukommelse, retur: st3.retur, ..st5 };
                        assert(fremad(st3, st6));
                        lemma_fremad_trans(st1, st3, st6);
                        if let Some(v) = st5.retur {
                            lemma_vis(svar, st6, v);
                            let (st7, r7) = vis(svar, st6, v);
                            lemma_fremad_trans(st1, st6, st7);
                            if let Ok(t) = r7 {
                                lemma_med_linje(st7, "[trace] Funktion '"@ + navn + "' returnerede: "@ + t);
                                lemma_fremad_trans(st1, st7,
                                    med_linje(st7, "[trace] Funktion '"@ + navn + "' returnerede: "@ + t));
                            }
                        }
                    }
                }
            }
        }
    }
}

/// Evaluating a list of expressions keeps what was written, only takes answers,
/// and keeps the variables and functions in name order.
pub proof fn lov_evaluer_liste_fremad(svar: Seq<SvarV>, st: Tilstand, l: Seq<UdtrykV>, fuel: nat)
    ensures
        fremad(st, evaluer_liste(svar, st, l, fuel).0),
    decreases fuel, str_ul(l), 1nat,
{
    if l.len() > 0 {
        lov_evaluer_fremad(svar, st, l[0], fuel);
        let (st1, r1) = evaluer(svar, st, l[0], fuel);
        if r1 is Ok {
            lov_evaluer_liste_fremad(svar, st1, l.drop_first(), fuel);
            lemma_fremad_trans(st, st1, evaluer_liste(svar, st1, l.drop_first(), fuel).0);
        }
    }
}

/// Executing a statement keeps what was written, only takes answers, and keeps
/// the variables and functions in name order.
pub proof fn lov_udfoer_fremad(svar: Seq<SvarV>, st: Tilstand, s: SaetningV, fuel: nat)
    ensures
        fremad(st, udfoer(svar, st, s, fuel).0),
    decreases fuel, str_s(s), 1nat,
{
    match s {
        SaetningV::Skriv(e) => {
            lov_evaluer_fremad(svar, st, e, fuel);
            let (st1, r1) = evaluer(svar, st, e, fuel);
            if let Ok(v) = r1 {
                lemma_vis(svar, st1, v);
                lemma_fremad_trans(st, st1, vis(svar, st1, v).0);
            }
        },
        SaetningV::Erklaer { navn, type_, startvaerdi } => match startvaerdi {
            None => {
                lemma_erklaer_med(svar, st, navn, type_, standardvaerdi(type_));
            },
            Some(e) => {
                lov_evaluer_fremad(svar, st, e, fuel);
                let (st1, r1) = evaluer(svar, st, e, fuel);
                if let Ok(v) = r1 {
                    lemma_erklaer_med(svar, st1, navn, type_, v);
                    lemma_fremad_trans(st, st1, erklaer_med(svar, st1, navn, type_, v).0);
                }
            },
        },
        SaetningV::Saet { navn, udtryk } => {
            if slaa_op(st.hukommelse, navn) is Some {
                lov_evaluer_fremad(svar, st, udtryk, fuel);
                let (st1, r1) = evaluer(svar, st, udtryk, fuel);
                if let Ok(ny) = r1 {
                    lemma_vis(svar, st1, ny);
                    let (st2, r2) = vis(svar, st1, ny);
                    lemma_fremad_trans(st, st1, st2);
                    if let Ok(t) = r2 {
                        let st3 = med_linje(st2, "[trace] Sætter '"@ + navn + "' = "@ + t);
                        if sorteret(st3.hukommelse) {
                            lemma_indsaet_sorteret(st3.hukommelse, navn, ny);
                        }
                        lemma_fremad_trans(st, st2, Tilstand { hukommelse: indsaet(st3.hukommelse, navn, ny), ..st3 });
                    }
                }
            }
        },
        SaetningV::VisHukommelse => {
            let st1 = med_linje(st, "[trace] Viser hukommelse"@);
            if st1.hukommelse.len() > 0 {
                let st2 = med_linje(med_linje(st1, hukommelse_overskrift()), hukommelse_streg());
                lemma_hukommelsesraekker(svar, st2, st2.hukommelse);
                lemma_fremad_trans(st, st2, hukommelsesraekker(svar, st2, st2.hukommelse).0);
            }
        },
        SaetningV::Hvis { betingelse, saa_gren, ellers_gren } => {
            lov_evaluer_fremad(svar, st, betingelse, fuel);
            let (st1, r1) = evaluer(svar, st, betingelse, fuel);
            if let Ok(VaerdiV::SandFalsk(b)) = r1 {
                let st2 = med_linje(st1, "[trace] hvis-betingelse er "@ + sand_falsk(b));
                lemma_fremad_trans(st, st1, st2);
                if b {
                    lov_koer_fremad(svar, st2, saa_gren, fuel);
                    lemma_fremad_trans(st, st2, koer(svar, st2, saa_gren, fuel).0);
                } else if let Some(g) = ellers_gren {
                    lov_koer_fremad(svar, st2, g, fuel);
                    lemma_fremad_trans(st, st2, koer(svar, st2, g, fuel).0);
                }
            }
        },
        SaetningV::Gentag { antal, krop } => {
            lov_evaluer_fremad(svar, st, antal, fuel);
            let (st1, r1) = evaluer(svar, st, antal, fuel);
            if let Ok(VaerdiV::Nummer(x)) = r1 {
                lemma_spoerg(svar, st1, ForespoergselV::Antal(x));
                let (st2, r2) = spoerg(svar, st1, ForespoergselV::Antal(x));
                lemma_fremad_trans(st, st1, st2);
                if let Ok(SvarV::Antal(n)) = r2 {
                    let st3 = med_linje(st2, "[trace] Gentager "@ + decimal(n as nat) + " gange"@);
                    lemma_fremad_trans(st, st2, st3);
                    lov_gentag_fremad(svar, st3, krop, 1, n as nat, fuel);
                    lemma_fremad_trans(st, st3, gentag(svar, st3, krop, 1, n as nat, fuel).0);
                }
            }
        },
        SaetningV::Mens { .. } => {
            lov_mens_fremad(svar, st, s, 0, fuel);
        },
        SaetningV::FunktionDef { .. } => {},
        SaetningV::Returner(e) => {
            let (st1, r1) = match e {
                Some(u) => evaluer(svar, st, u, fuel),
                None => (st, Ok(VaerdiV::SandFalsk(false))),
            };
            if let Some(u) = e {
                lov_evaluer_fremad(svar, st, u, fuel);
            }
            if let Ok(v) = r1 {
                lemma_vis(svar, st1, v);
                lemma_fremad_trans(st, st1, vis(svar, st1, v).0);
            }
        },
        SaetningV::Udtryksaetning(e) => {
            lov_evaluer_fremad(svar, st, e, fuel);
        },
    }
}

/// The repetitions of a `gentag` keep what was written, only take answers, and
/// keep the variables and functions in name order.
pub proof fn lov_gentag_fremad(svar: Seq<SvarV>, st: Tilstand, krop: Seq<SaetningV>, i: nat, n: nat, fuel: nat)
    ensures
        fremad(st, gentag(svar, st, krop, i, n, fuel).0),
    decreases fuel, str_b(krop), 0nat,
{
    if i <= n && fuel > 0 {
        let st1 = med_linje(st, "[trace] Gentagelse "@ + decimal(i) + "/"@ + decimal(n));
        lov_koer_fremad(svar, st1, krop, (fuel - 1) as nat);
        let (st2, r) = koer(svar, st1, krop, (fuel - 1) as nat);
        lemma_fremad_trans(st, st1, st2);
        if r is Ok && st2.retur is None {
            lov_gentag_fremad(svar, st2, krop, i + 1, n, (fuel - 1) as nat);
            lemma_fremad_trans(st, st2, gentag(svar, st2, krop, i + 1, n, (fuel - 1) as nat).0);
        }
    }
}

/// The rounds of a `mens` loop keep what was written, only take answers, and
/// keep the variables and functions in name order.
pub proof fn lov_mens_fremad(svar: Seq<SvarV>, st: Tilstand, s: SaetningV, iteration: nat, fuel: nat)
    ensures
        fremad(st, mens(svar, st, s, iteration, fuel).0),
    decreases fuel, str_s(s), 0nat,
{
    if let SaetningV::Mens { betingelse, krop } = s {
        if st.retur is None {
            lov_evaluer_fremad(svar, st, betingelse, fuel);
            let (st1, r1) = evaluer(svar, st, betingelse, fuel);
            if r1 == Ok::<VaerdiV, crate::evaluator::StopV>(VaerdiV::SandFalsk(true)) && fuel > 0 {
                let st2 = med_linje(st1, "[trace] mens-betingelse er sand (iteration "@ + decimal(iteration + 1) + ")"@);
                lemma_fremad_trans(st, st1, st2);
                lov_koer_fremad(svar, st2, krop, (fuel - 1) as nat);
                let (st3, r3) = koer(svar, st2, krop, (fuel - 1) as nat);
                lemma_fremad_trans(st, st2, st3);
                if r3 is Ok {
                    lov_mens_fremad(svar, st3, s, iteration + 1, (fuel - 1) as nat);
                    lemma_fremad_trans(st, st3, mens(svar, st3, s, iteration + 1, (fuel - 1) as nat).0);
                }
            }
        }
    }
}

/// Running a block keeps what was written, only takes answers, and keeps the
/// variables and functions in name order.
pub proof fn lov_koer_fremad(svar: Seq<SvarV>, st: Tilstand, b: Seq<SaetningV>, fuel: nat)
    ensures
        fremad(st, koer(svar, st, b, fuel).0),
    decreases fuel, str_b(b), 1nat,
{
    lemma_registrer(st, b);
    lov_koer_resten_fremad(svar, registrer(st, b), b, fuel);
    lemma_fremad_trans(st, registrer(st, b), koer(svar, st, b, fuel).0);
}

/// Running the statements of a block keeps what was written, only takes
/// answers, and keeps the variables and functions in name order.
pub proof fn lov_koer_resten_fremad(svar: Seq<SvarV>, st: Tilstand, b: Seq<SaetningV>, fuel: nat)
    ensures
        fremad(st, koer_resten(svar, st, b, fuel).0),
    decreases fuel, str_b(b), 0nat,
{
    if b.len() > 0 && st.retur is None {
        if b[0] is FunktionDef {
            lov_koer_resten_fremad(svar, st, b.drop_first(), fuel);
        } else {
            lov_udfoer_fremad(svar, st, b[0], fuel);
            let (st1, r) = udfoer(svar, st, b[0], fuel);
            if r is Ok {
                lov_koer_resten_fremad(svar, st1, b.drop_first(), fuel);
                lemma_fremad_trans(st, st1, koer_resten(svar, st1, b.drop_first(), fuel).0);
            }
        }
    }
}

/// The name in a row of the memory table.
pub open spec fn raekkenavn(l: LinjeV) -> Option<Seq<char>> {
    match l {
        LinjeV::Hukommelse { navn, .. } => Some(navn),
        LinjeV::Tekst(_) => None,
    }
}

/// The type name in a row of the memory table.
pub open spec fn raekketype(l: LinjeV) -> Option<Seq<char>> {
    match l {
        LinjeV::Hukommelse { type_navn, .. } => Some(type_navn),
        LinjeV::Tekst(_) => None,
    }
}

proof fn lemma_raekker(svar: Seq<SvarV>, st: Tilstand, m: Seq<(Seq<char>, VaerdiV)>)
    ensures
        ({
            let (st1, r) = hukommelsesraekker(svar, st, m);
            r is Ok ==> {
                &&& st1.udskrift.len() == st.udskrift.len() + m.len()
                &&& forall|i: int| 0 <= i < st.udskrift.len() ==> #[trigger] st1.udskrift[i] == st.udskrift[i]
                &&& forall|i: int| 0 <= i < m.len() ==> raekkenavn(#[trigger] st1.udskrift[st.udskrift.len() + i]) == Some(m[i].0)
                &&& forall|i: int| 0 <= i < m.len() ==> raekketype(#[trigger] st1.udskrift[st.udskrift.len() + i])
                    == Some(typenavn(type_af(m[i].1)))
            }
        }),
    decreases m.len(),
{
    if m.len() > 0 {
        let (st1, r) = vis(svar, st, m[0].1);
        if let Ok(t) = r {
            let st2 = Tilstand {
                udskrift: st1.udskrift.push(LinjeV::Hukommelse {
                    navn: m[0].0,
                    type_navn: typenavn(type_af(m[0].1)),
                    vaerdi: t,
                }),
                ..st1
            };
            lemma_raekker(svar, st2, m.drop_first());
            let (st3, r3) = hukommelsesraekker(svar, st2, m.drop_first());
            if r3 is Ok {
                let n = st.udskrift.len();
                assert(st3.udskrift[n as int] == st2.udskrift[n as int]);
                assert forall|i: int| 0 <= i < m.len() implies raekkenavn(#[trigger] st3.udskrift[n + i]) == Some(m[i].0)
                    && raekketype(st3.udskrift[n + i]) == Some(typenavn(type_af(m[i].1))) by {
                    if i > 0 {
                        assert(m.drop_first()[i - 1] == m[i]);
                        assert(st3.udskrift[st2.udskrift.len() + (i - 1)] == st3.udskrift[n + i]);
                    }
                }
            }
        }
    }
}

/// `vis hukommelse` writes one row for each variable, with its name and type,
/// in the order of the names; with no variable it says so.
pub proof fn lov_vis_hukommelse(svar: Seq<SvarV>, st: Tilstand, fuel: nat)
    requires
        sorteret(st.hukommelse),
    ensures
        ({
            let (st1, r) = udfoer(svar, st, SaetningV::VisHukommelse, fuel);
            let n = st.udskrift.len();
            let m = st.hukommelse;
            &&& m.len() == 0 ==> r is Ok && st1.udskrift == st.udskrift.push(LinjeV::Tekst("[trace] Viser hukommelse"@))
                .push(LinjeV::Tekst("(ingen variabler endnu)"@))
            &&& (m.len() > 0 && r is Ok) ==> {
                &&& st1.udskrift.len() == n + 3 + m.len()
                &&& st1.udskrift.subrange(0, n + 3int) == st.udskrift.push(LinjeV::Tekst("[trace] Viser hukommelse"@))
                    .push(LinjeV::Tekst(hukommelse_overskrift())).push(LinjeV::Tekst(hukommelse_streg()))
                &&& forall|i: int| 0 <= i < m.len() ==> raekkenavn(#[trigger] st1.udskrift[n + 3 + i]) == Some(m[i].0)
                &&& forall|i: int| 0 <= i < m.len() ==> raekketype(#[trigger] st1.udskrift[n + 3 + i])
                    == Some(typenavn(type_af(m[i].1)))
                &&& forall|i: int, j: int| 0 <= i < j < m.len() ==>
                    foer(raekkenavn(#[trigger] st1.udskrift[n + 3 + i])->0, raekkenavn(#[trigger] st1.udskrift[n + 3 + j])->0)
            }
        }),
{
    let st1 = med_linje(st, "[trace] Viser hukommelse"@);
    if st1.hukommelse.len() > 0 {
        let st2 = med_linje(med_linje(st1, hukommelse_overskrift()), hukommelse_streg());
        lemma_raekker(svar, st2, st2.hukommelse);
        let (st3, r3) = hukommelsesraekker(svar, st2, st2.hukommelse);
        if r3 is Ok {
            let n = st.udskrift.len();
            assert(st3.udskrift.subrange(0, n + 3int) =~= st2.udskrift);
            assert forall|i: int| 0 <= i < st.hukommelse.len() implies raekkenavn(#[trigger] st3.udskrift[n + 3 + i])
                == Some(st.hukommelse[i].0) by {
                assert(st3.udskrift[st2.udskrift.len() + i] == st3.udskrift[n + 3 + i]);
            }
            assert forall|i: int| 0 <= i < st.hukommelse.len() implies raekketype(#[trigger] st3.udskrift[n + 3 + i])
                == Some(typenavn(type_af(st.hukommelse[i].1))) by {
                assert(st3.udskrift[st2.udskrift.len() + i] == st3.udskrift[n + 3 + i]);
            }
        }
    }
}

/// The last definition of a function named `navn` in a block, if any.
pub open spec fn sidste_definition(b: Seq<SaetningV>, navn: Seq<char>) -> Option<FunktionV>
    decreases b.len(),
{
    if b.len() == 0 {
        None
    } else {
        match sidste_definition(b.drop_first(), navn) {
            Some(f) => Some(f),
            None => match b[0] {
                SaetningV::FunktionDef { navn: n, parametre, returtype, krop } => if n == navn {
                    Some(FunktionV { parametre, returtype, krop })
                } else {
                    None
                },
                _ => None,
            },
        }
    }
}

/// Registering the definitions of a block: each name gets its last definition in
/// the block (a later one wins), other names keep theirs, and nothing else changes.
pub proof fn lov_registrer(st: Tilstand, b: Seq<SaetningV>, navn: Seq<char>)
    ensures
        slaa_op(registrer(st, b).funktioner, navn) == (match sidste_definition(b, navn) {
            Some(f) => Some(f),
            None => slaa_op(st.funktioner, navn),
        }),
        registrer(st, b) == (Tilstand { funktioner: registrer(st, b).funktioner, ..st }),
    decreases b.len(),
{
    if b.len() > 0 {
        let st1 = match b[0] {
            SaetningV::FunktionDef { navn: n, parametre, returtype, krop } => {
                lemma_slaa_op_indsaet(st.funktioner, n, FunktionV { parametre, returtype, krop }, navn);
                Tilstand { funktioner: indsaet(st.funktioner, n, FunktionV { parametre, returtype, krop }), ..st }
            },
            _ => st,
        };
        lov_registrer(st1, b.drop_first(), navn);
    }
}

/// A block first registers every definition in it, so that a call may stand
/// before the definition, and then runs its other statements in order: the
/// first that fails ends the run with its error, and a pending return ends it
/// with success.
pub proof fn lov_koer(svar: Seq<SvarV>, st: Tilstand, b: Seq<SaetningV>, fuel: nat)
    ensures
        koer(svar, st, b, fuel) == koer_resten(svar, registrer(st, b), b, fuel),
        st.retur is Some ==> koer_resten(svar, st, b, fuel) == (st, Ok::<(), StopV>(())),
        (b.len() > 0 && st.retur is None && !(b[0] is FunktionDef)) ==> koer_resten(svar, st, b, fuel) == ({
            let (st1, r) = udfoer(svar, st, b[0], fuel);
            match r {
                Err(x) => (st1, Err::<(), StopV>(x)),
                Ok(_) => koer_resten(svar, st1, b.drop_first(), fuel),
            }
        }),
        (b.len() > 0 && st.retur is None && b[0] is FunktionDef)
            ==> koer_resten(svar, st, b, fuel) == koer_resten(svar, st, b.drop_first(), fuel),
{
}

/// An expression without calls.
pub open spec fn uden_kald(e: UdtrykV) -> bool
    decreases e,
{
    match e {
        UdtrykV::BinaerOp { venstre, hoejre, .. } => uden_kald(*venstre) && uden_kald(*hoejre),
        UdtrykV::FunktionsKald { .. } => false,
        _ => true,
    }
}

/// Evaluating an expression without calls changes nothing but the number of
/// answers used: no variable, function, pending return or line. Its value and
/// the answers it uses depend only on the variables and on how many answers were
/// used before.
pub proof fn lov_evaluer_uden_kald(svar: Seq<SvarV>, st: Tilstand, st2: Tilstand, e: UdtrykV, fuel: nat)
    requires
        uden_kald(e),
        st2.hukommelse == st.hukommelse,
        st2.brugt == st.brugt,
    ensures
        ({
            let (a, ra) = evaluer(svar, st, e, fuel);
            let (b, rb) = evaluer(svar, st2, e, fuel);
            &&& a == Tilstand { brugt: a.brugt, ..st }
            &&& ra == rb
            &&& a.brugt == b.brugt
        }),
    decreases e,
{
    if let UdtrykV::BinaerOp { venstre, operator, hoejre } = e {
        lov_evaluer_uden_kald(svar, st, st2, *venstre, fuel);
        lov_evaluer_uden_kald(svar, st2, st, *venstre, fuel);
        let (a1, r1) = evaluer(svar, st, *venstre, fuel);
        let (b1, q1) = evaluer(svar, st2, *venstre, fuel);
        if let Ok(v) = r1 {
            lov_evaluer_uden_kald(svar, a1, b1, *hoejre, fuel);
            lov_evaluer_uden_kald(svar, b1, a1, *hoejre, fuel);
            let (a2, r2) = evaluer(svar, a1, *hoejre, fuel);
            let (b2, q2) = evaluer(svar, b1, *hoejre, fuel);
            if let Ok(h) = r2 {
                assert(anvend(svar, a2, v, operator, h).1 == anvend(svar, b2, v, operator, h).1);
            }
        }
    }
}

/// Arguments that pass the check of a call have the types of the parameters.
proof fn lemma_parameterspor_typer(svar: Seq<SvarV>, st: Tilstand, fnavn: Seq<char>, ps: Seq<(Seq<char>, Type)>, vs: Seq<VaerdiV>)
    requires
        ps.len() == vs.len(),
        parameterspor(svar, st, fnavn, ps, vs).1 is Ok,
    ensures
        forall|i: int| 0 <= i < vs.len() ==> type_af(#[trigger] vs[i]) == ps[i].1,
    decreases ps.len(),
{
    if ps.len() > 0 {
        let (st1, r) = vis(svar, st, vs[0]);
        lemma_parameterspor_typer(svar, st1, fnavn, ps.drop_first(), vs.drop_first());
        assert forall|i: int| 0 <= i < vs.len() implies type_af(#[trigger] vs[i]) == ps[i].1 by {
            if i > 0 {
                assert(vs.drop_first()[i - 1] == vs[i]);
                assert(ps.drop_first()[i - 1] == ps[i]);
            }
        }
    }
}

/// A call that succeeds found the function, got as many arguments as it has
/// parameters and of their types, and ran the body with fuel to spare in a scope
/// of its own that holds only the parameters and no pending return; its value is
/// the value the body returned, or `falsk` when the body returned nothing. The
/// caller gets its own variables and pending return back.
pub proof fn lov_kald_vaerdi(svar: Seq<SvarV>, st: Tilstand, navn: Seq<char>, vs: Seq<VaerdiV>, fuel: nat)
    ensures
        ({
            let (st1, r) = kald(svar, st, navn, vs, fuel);
            r is Ok ==> {
                &&& slaa_op(st.funktioner, navn) is Some
                &&& fuel > 0
                &&& st1.hukommelse == st.hukommelse
                &&& st1.retur == st.retur
                &&& ({
                    let info = slaa_op(st.funktioner, navn)->Some_0;
                    let (st2, r2) = parameterspor(svar, st, navn, info.parametre, vs);
                    &&& vs.len() == info.parametre.len()
                    &&& r2 is Ok
                    &&& forall|i: int| 0 <= i < vs.len() ==> type_af(#[trigger] vs[i]) == info.parametre[i].1
                    &&& ({
                        let st4 = Tilstand {
                            hukommelse: bind(Seq::empty(), info.parametre, vs),
                            retur: None,
                            ..med_linje(st2, "[trace] Kalder funktion '"@ + navn + "' ("@ + sammenfoej(r2->Ok_0, ", "@) + ")"@)
                        };
                        let (st5, r5) = koer(svar, st4, info.krop, (fuel - 1) as nat);
                        &&& r5 is Ok
                        &&& r->Ok_0 == match st5.retur {
                            Some(v) => v,
                            None => VaerdiV::SandFalsk(false),
                        }
                    })
                })
            }
        }),
{
    lov_kald_genopretter(svar, st, navn, vs, fuel);
    if let Some(info) = slaa_op(st.funktioner, navn) {
        if vs.len() == info.parametre.len() {
            if parameterspor(svar, st, navn, info.parametre, vs).1 is Ok {
                lemma_parameterspor_typer(svar, st, navn, info.parametre, vs);
            }
        }
    }
}

/// Two texts compared with `==` are equal exactly when they hold the same
/// characters in the same order, and compared with `<>` exactly when they do not;
/// `+` joins them. None of these asks for an answer or writes a line.
pub proof fn lov_tekst_operatorer(svar: Seq<SvarV>, st: Tilstand, a: Seq<char>, b: Seq<char>)
    ensures
        anvend(svar, st, VaerdiV::Streng(a), Operator::ErLig, VaerdiV::Streng(b))
            == (st, Ok::<VaerdiV, StopV>(VaerdiV::SandFalsk(a.len() == b.len() && forall|i: int| 0 <= i < a.len() ==> a[i] == b[i]))),
        anvend(svar, st, VaerdiV::Streng(a), Operator::ErIkke, VaerdiV::Streng(b))
            == (st, Ok::<VaerdiV, StopV>(VaerdiV::SandFalsk(!(a.len() == b.len() && forall|i: int| 0 <= i < a.len() ==> a[i] == b[i])))),
        anvend(svar, st, VaerdiV::Streng(a), Operator::Plus, VaerdiV::Streng(b))
            == (st, Ok::<VaerdiV, StopV>(VaerdiV::Streng(a + b))),
        (a.len() == b.len() && forall|i: int| 0 <= i < a.len() ==> a[i] == b[i]) == (a == b),
{
    if a.len() == b.len() && forall|i: int| 0 <= i < a.len() ==> a[i] == b[i] {
        assert(a =~= b);
    }
}

/// `skriv` of a comparison of two texts with `==` or `<>` writes the trace line
/// `[trace] Skriver: ` and then the result, `sand` or `falsk`: `==` gives `sand`
/// exactly when the texts are equal, `<>` exactly when they differ.
pub proof fn lov_skriv_tekst_sammenligning(svar: Seq<SvarV>, st: Tilstand, u: UdtrykV, op: Operator, w: UdtrykV,
    a: Seq<char>, b: Seq<char>, fuel: nat)
    requires
        op == Operator::ErLig || op == Operator::ErIkke,
        evaluer(svar, st, u, fuel).1 == Ok::<VaerdiV, StopV>(VaerdiV::Streng(a)),
        evaluer(svar, evaluer(svar, st, u, fuel).0, w, fuel).1 == Ok::<VaerdiV, StopV>(VaerdiV::Streng(b)),
    ensures
        ({
            let st2 = evaluer(svar, evaluer(svar, st, u, fuel).0, w, fuel).0;
            let svaret = if op == Operator::ErLig { a == b } else { a != b };
            let t = if svaret { "sand"@ } else { "falsk"@ };
            udfoer(svar, st, SaetningV::Skriv(UdtrykV::BinaerOp { venstre: Box::new(u), operator: op, hoejre: Box::new(w) }), fuel)
                == (med_linje(med_linje(st2, "[trace] Skriver: "@ + t), t), Ok::<(), StopV>(()))
        }),
{
    let st2 = evaluer(svar, evaluer(svar, st, u, fuel).0, w, fuel).0;
    lov_tekst_operatorer(svar, st2, a, b);
}

/// An operator on two numbers asks for the computation of that very operator on
/// those very numbers, `Regn(op, a, b)`, and nothing else; a comparison is then
/// as true as the answer says, and `+` and `-` give the number answered.
pub proof fn lov_tal_operator(svar: Seq<SvarV>, st: Tilstand, a: u64, op: Operator, b: u64)
    ensures
        st.brugt >= svar.len() ==> anvend(svar, st, VaerdiV::Nummer(a), op, VaerdiV::Nummer(b))
            == (st, Err::<VaerdiV, StopV>(StopV::Behov(ForespoergselV::Regn(op, a, b)))),
        st.brugt < svar.len() ==> ({
            let (st1, r) = anvend(svar, st, VaerdiV::Nummer(a), op, VaerdiV::Nummer(b));
            &&& st1 == Tilstand { brugt: st.brugt + 1, ..st }
            &&& svar[st.brugt as int] matches SvarV::Sandhed(s) ==> (op != Operator::Plus && op != Operator::Minus
                ==> r == Ok::<VaerdiV, StopV>(VaerdiV::SandFalsk(s)))
            &&& svar[st.brugt as int] matches SvarV::Tal(x) ==> (op == Operator::Plus || op == Operator::Minus
                ==> r == Ok::<VaerdiV, StopV>(VaerdiV::Nummer(x)))
        }),
{
}

/// A binary expression evaluates its left operand first, then its right one,
/// and applies the operator to the two values in that order: with texts `a` on
/// the left and `b` on the right, `+` gives `a` followed by `b`.
pub proof fn lov_binaer_udtryk(svar: Seq<SvarV>, st: Tilstand, u: UdtrykV, op: Operator, w: UdtrykV,
    v: VaerdiV, h: VaerdiV, fuel: nat)
    requires
        evaluer(svar, st, u, fuel).1 == Ok::<VaerdiV, StopV>(v),
        evaluer(svar, evaluer(svar, st, u, fuel).0, w, fuel).1 == Ok::<VaerdiV, StopV>(h),
    ensures
        evaluer(svar, st, UdtrykV::BinaerOp { venstre: Box::new(u), operator: op, hoejre: Box::new(w) }, fuel)
            == anvend(svar, evaluer(svar, evaluer(svar, st, u, fuel).0, w, fuel).0, v, op, h),
{
}

} // verus!
