//! Running a program again: what a run that stopped to ask for an answer, or
//! for want of fuel, has in common with the run that goes on with more.
use vstd::prelude::*;
use crate::ast::{Operator, SaetningV, Type, UdtrykV, str_u, str_ul, str_s, str_b};
use crate::tabel::{slaa_op, indsaet};
use crate::tekst::decimal;
use crate::evaluator::{
    ForespoergselV, FunktionV, LinjeV, StopV, SvarV, Tilstand, VaerdiV, udfoer, kald, vis, spoerg, anvend, parameterspor,
    erklaer_med, med_linje, standardvaerdi, type_af, evaluer, evaluer_liste, registrer, bind, sammenfoej,
    hukommelsesraekker, hukommelse_overskrift, hukommelse_streg, typenavn, sand_falsk, gentag, mens, koer,
    koer_resten,
};
use crate::egenskaber::{
    fremad, lemma_anvend, lemma_hukommelsesraekker, lemma_med_linje, lemma_parameterspor, lemma_parameterspor_roerer_intet,
    lemma_vis, lemma_vis_roerer_intet, lov_evaluer_fremad, lov_evaluer_liste_fremad, lov_gentag_fremad, lov_kald_fremad,
    lov_koer_fremad, lov_koer_resten_fremad, lov_mens_fremad,
};

verus! {

/// A run that ended this way is settled: it did not stop for want of an answer
/// or of fuel.
pub open spec fn afgjort<T>(r: Result<T, StopV>) -> bool {
    &&& !(r matches Err(StopV::Behov(_)))
    &&& !(r matches Err(StopV::TomtBraendstof))
}

/// `svar2` starts with the answers of `svar`.
pub open spec fn forlaenger(svar: Seq<SvarV>, svar2: Seq<SvarV>) -> bool {
    &&& svar.len() <= svar2.len()
    &&& forall|i: int| 0 <= i < svar.len() ==> #[trigger] svar2[i] == svar[i]
}

proof fn lemma_spoerg_stabil(svar: Seq<SvarV>, svar2: Seq<SvarV>, st: Tilstand, q: ForespoergselV)
    requires
        forlaenger(svar, svar2),
    ensures
        afgjort(spoerg(svar, st, q).1) ==> spoerg(svar2, st, q) == spoerg(svar, st, q),
{
    if st.brugt < svar.len() {
        assert(svar2[st.brugt as int] == svar[st.brugt as int]);
    }
}

proof fn lemma_vis_stabil(svar: Seq<SvarV>, svar2: Seq<SvarV>, st: Tilstand, v: VaerdiV)
    requires
        forlaenger(svar, svar2),
    ensures
        afgjort(vis(svar, st, v).1) ==> vis(svar2, st, v) == vis(svar, st, v),
{
    if let VaerdiV::Nummer(x) = v {
        lemma_spoerg_stabil(svar, svar2, st, ForespoergselV::Vis(x));
    }
}

proof fn lemma_anvend_stabil(svar: Seq<SvarV>, svar2: Seq<SvarV>, st: Tilstand, v: VaerdiV, op: Operator, h: VaerdiV)
    requires
        forlaenger(svar, svar2),
    ensures
        afgjort(anvend(svar, st, v, op, h).1) ==> anvend(svar2, st, v, op, h) == anvend(svar, st, v, op, h),
{
    if let (VaerdiV::Nummer(a), VaerdiV::Nummer(b)) = (v, h) {
        lemma_spoerg_stabil(svar, svar2, st, ForespoergselV::Regn(op, a, b));
    }
}

proof fn lemma_parameterspor_stabil(svar: Seq<SvarV>, svar2: Seq<SvarV>, st: Tilstand, fnavn: Seq<char>,
    ps: Seq<(Seq<char>, Type)>, vs: Seq<VaerdiV>)
    requires
        forlaenger(svar, svar2),
    ensures
        afgjort(parameterspor(svar, st, fnavn, ps, vs).1)
            ==> parameterspor(svar2, st, fnavn, ps, vs) == parameterspor(svar, st, fnavn, ps, vs),
    decreases ps.len(),
{
    if ps.len() > 0 && vs.len() > 0 && type_af(vs[0]) == ps[0].1 {
        lemma_vis_stabil(svar, svar2, st, vs[0]);
        let (st1, r) = vis(svar, st, vs[0]);
        if r is Ok {
            lemma_parameterspor_stabil(svar, svar2, st1, fnavn, ps.drop_first(), vs.drop_first());
        }
    }
}

proof fn lemma_hukommelsesraekker_stabil(svar: Seq<SvarV>, svar2: Seq<SvarV>, st: Tilstand, m: Seq<(Seq<char>, VaerdiV)>)
    requires
        forlaenger(svar, svar2),
    ensures
        afgjort(hukommelsesraekker(svar, st, m).1) ==> hukommelsesraekker(svar2, st, m) == hukommelsesraekker(svar, st, m),
    decreases m.len(),
{
    if m.len() > 0 {
        lemma_vis_stabil(svar, svar2, st, m[0].1);
        let (st1, r) = vis(svar, st, m[0].1);
        if let Ok(t) = r {
            let st2 = Tilstand {
                udskrift: st1.udskrift.push(LinjeV::Hukommelse {
                    navn: m[0].0,
                    type_navn: typenavn(type_af(m[0].1)),
                    vaerdi: t,
                }),
                ..st1
            };
            lemma_hukommelsesraekker_stabil(svar, svar2, st2, m.drop_first());
        }
    }
}

/// An evaluation that is settled ends the same with more answers and more fuel.
pub proof fn lov_evaluer_stabil(svar: Seq<SvarV>, svar2: Seq<SvarV>, st: Tilstand, e: UdtrykV, fuel: nat, fuel2: nat)
    requires
        forlaenger(svar, svar2),
        fuel <= fuel2,
    ensures
        afgjort(evaluer(svar, st, e, fuel).1) ==> evaluer(svar2, st, e, fuel2) == evaluer(svar, st, e, fuel),
    decreases fuel, str_u(e), 1nat,
{
    match e {
        UdtrykV::Tal(t) => {
            lemma_spoerg_stabil(svar, svar2, st, ForespoergselV::Laes(t));
        },
        UdtrykV::BinaerOp { venstre, operator, hoejre } => {
            lov_evaluer_stabil(svar, svar2, st, *venstre, fuel, fuel2);
            let (st1, r1) = evaluer(svar, st, *venstre, fuel);
            if let Ok(v) = r1 {
                lov_evaluer_stabil(svar, svar2, st1, *hoejre, fuel, fuel2);
                let (st2, r2) = evaluer(svar, st1, *hoejre, fuel);
                if let Ok(h) = r2 {
                    lemma_anvend_stabil(svar, svar2, st2, v, operator, h);
                }
            }
        },
        UdtrykV::FunktionsKald { navn, argumenter } => {
            lov_evaluer_liste_stabil(svar, svar2, st, argumenter, fuel, fuel2);
            let (st1, r1) = evaluer_liste(svar, st, argumenter, fuel);
            if let Ok(vs) = r1 {
                lov_kald_stabil(svar, svar2, st1, navn, vs, fuel, fuel2);
            }
        },
        _ => {},
    }
}

/// A call that is settled ends the same with more answers and more fuel.
pub proof fn lov_kald_stabil(svar: Seq<SvarV>, svar2: Seq<SvarV>, st1: Tilstand, navn: Seq<char>, vs: Seq<VaerdiV>,
    fuel: nat, fuel2: nat)
    requires
        forlaenger(svar, svar2),
        fuel <= fuel2,
    ensures
        afgjort(kald(svar, st1, navn, vs, fuel).1) ==> kald(svar2, st1, navn, vs, fuel2) == kald(svar, st1, navn, vs, fuel),
    decreases fuel, 0nat, 0nat,
{
    if let Some(info) = slaa_op(st1.funktioner, navn) {
        if vs.len() == info.parametre.len() {
            lemma_parameterspor_stabil(svar, svar2, st1, navn, info.parametre, vs);
            let (st2, r2) = parameterspor(svar, st1, navn, info.parametre, vs);
            if let Ok(spor) = r2 {
                let st3 = med_linje(st2, "[trace] Kalder funktion '"@ + navn + "' ("@ + sammenfoej(spor, ", "@) + ")"@);
                if fuel > 0 {
                    let st4 = Tilstand { hukommelse: bind(Seq::empty(), info.parametre, vs), retur: None, ..st3 };
                    lov_koer_stabil(svar, svar2, st4, info.krop, (fuel - 1) as nat, (fuel2 - 1) as nat);
                    let (st5, r5) = koer(svar, st4, info.krop, (fuel - 1) as nat);
                    if r5 is Ok {
                        let st6 = Tilstand { hukommelse: st3.hukommelse, retur: st3.retur, ..st5 };
                        if let Some(v) = st5.retur {
                            lemma_vis_stabil(svar, svar2, st6, v);
                        }
                    }
                }
            }
        }
    }
}

/// Evaluating a list that is settled ends the same with more answers and more fuel.
pub proof fn lov_evaluer_liste_stabil(svar: Seq<SvarV>, svar2: Seq<SvarV>, st: Tilstand, l: Seq<UdtrykV>,
    fuel: nat, fuel2: nat)
    requires
        forlaenger(svar, svar2),
        fuel <= fuel2,
    ensures
        afgjort(evaluer_liste(svar, st, l, fuel).1) ==> evaluer_liste(svar2, st, l, fuel2) == evaluer_liste(svar, st, l, fuel),
    decreases fuel, str_ul(l), 1nat,
{
    if l.len() > 0 {
        lov_evaluer_stabil(svar, svar2, st, l[0], fuel, fuel2);
        let (st1, r1) = evaluer(svar, st, l[0], fuel);
        if r1 is Ok {
            lov_evaluer_liste_stabil(svar, svar2, st1, l.drop_first(), fuel, fuel2);
        }
    }
}

/// A statement whose execution is settled ends the same with more answers and
/// more fuel.
pub proof fn lov_udfoer_stabil(svar: Seq<SvarV>, svar2: Seq<SvarV>, st: Tilstand, s: SaetningV, fuel: nat, fuel2: nat)
    requires
        forlaenger(svar, svar2),
        fuel <= fuel2,
    ensures
        afgjort(udfoer(svar, st, s, fuel).1) ==> udfoer(svar2, st, s, fuel2) == udfoer(svar, st, s, fuel),
    decreases fuel, str_s(s), 1nat,
{
    match s {
        SaetningV::Skriv(e) => {
            lov_evaluer_stabil(svar, svar2, st, e, fuel, fuel2);
            let (st1, r1) = evaluer(svar, st, e, fuel);
            if let Ok(v) = r1 {
                lemma_vis_stabil(svar, svar2, st1, v);
            }
        },
        SaetningV::Erklaer { navn, type_, startvaerdi } => match startvaerdi {
            None => {
                lemma_vis_stabil(svar, svar2, st, standardvaerdi(type_));
            },
            Some(e) => {
                lov_evaluer_stabil(svar, svar2, st, e, fuel, fuel2);
                let (st1, r1) = evaluer(svar, st, e, fuel);
                if let Ok(v) = r1 {
                    lemma_vis_stabil(svar, svar2, st1, v);
                }
            },
        },
        SaetningV::Saet { navn, udtryk } => {
            if slaa_op(st.hukommelse, navn) is Some {
                lov_evaluer_stabil(svar, svar2, st, udtryk, fuel, fuel2);
                let (st1, r1) = evaluer(svar, st, udtryk, fuel);
                if let Ok(ny) = r1 {
                    lemma_vis_stabil(svar, svar2, st1, ny);
                }
            }
        },
        SaetningV::VisHukommelse => {
            let st1 = med_linje(st, "[trace] Viser hukommelse"@);
            if st1.hukommelse.len() > 0 {
                let st2 = med_linje(med_linje(st1, hukommelse_overskrift()), hukommelse_streg());
                lemma_hukommelsesraekker_stabil(svar, svar2, st2, st2.hukommelse);
            }
        },
        SaetningV::Hvis { betingelse, saa_gren, ellers_gren } => {
            lov_evaluer_stabil(svar, svar2, st, betingelse, fuel, fuel2);
            let (st1, r1) = evaluer(svar, st, betingelse, fuel);
            if let Ok(VaerdiV::SandFalsk(b)) = r1 {
                let st2 = med_linje(st1, "[trace] hvis-betingelse er "@ + sand_falsk(b));
                if b {
                    lov_koer_stabil(svar, svar2, st2, saa_gren, fuel, fuel2);
                } else if let Some(g) = ellers_gren {
                    lov_koer_stabil(svar, svar2, st2, g, fuel, fuel2);
                }
            }
        },
        SaetningV::Gentag { antal, krop } => {
            lov_evaluer_stabil(svar, svar2, st, antal, fuel, fuel2);
            let (st1, r1) = evaluer(svar, st, antal, fuel);
            if let Ok(VaerdiV::Nummer(x)) = r1 {
                lemma_spoerg_stabil(svar, svar2, st1, ForespoergselV::Antal(x));
                let (st2, r2) = spoerg(svar, st1, ForespoergselV::Antal(x));
                if let Ok(SvarV::Antal(n)) = r2 {
                    let st3 = med_linje(st2, "[trace] Gentager "@ + decimal(n as nat) + " gange"@);
                    lov_gentag_stabil(svar, svar2, st3, krop, 1, n as nat, fuel, fuel2);
                }
            }
        },
        SaetningV::Mens { .. } => {
            lov_mens_stabil(svar, svar2, st, s, 0, fuel, fuel2);
        },
        SaetningV::FunktionDef { .. } => {},
        SaetningV::Returner(e) => {
            let (st1, r1) = match e {
                Some(u) => evaluer(svar, st, u, fuel),
                None => (st, Ok(VaerdiV::SandFalsk(false))),
            };
            if let Some(u) = e {
                lov_evaluer_stabil(svar, svar2, st, u, fuel, fuel2);
            }
            if let Ok(v) = r1 {
                lemma_vis_stabil(svar, svar2, st1, v);
            }
        },
        SaetningV::Udtryksaetning(e) => {
            lov_evaluer_stabil(svar, svar2, st, e, fuel, fuel2);
        },
    }
}

/// Repetitions of a `gentag` that are settled end the same with more answers and
/// more fuel.
pub proof fn lov_gentag_stabil(svar: Seq<SvarV>, svar2: Seq<SvarV>, st: Tilstand, krop: Seq<SaetningV>, i: nat, n: nat,
    fuel: nat, fuel2: nat)
    requires
        forlaenger(svar, svar2),
        fuel <= fuel2,
    ensures
        afgjort(gentag(svar, st, krop, i, n, fuel).1) ==> gentag(svar2, st, krop, i, n, fuel2) == gentag(svar, st, krop, i, n, fuel),
    decreases fuel, str_b(krop), 0nat,
{
    if i <= n && fuel > 0 {
        let st1 = med_linje(st, "[trace] Gentagelse "@ + decimal(i) + "/"@ + decimal(n));
        lov_koer_stabil(svar, svar2, st1, krop, (fuel - 1) as nat, (fuel2 - 1) as nat);
        let (st2, r) = koer(svar, st1, krop, (fuel - 1) as nat);
        if r is Ok && st2.retur is None {
            lov_gentag_stabil(svar, svar2, st2, krop, i + 1, n, (fuel - 1) as nat, (fuel2 - 1) as nat);
        }
    }
}

/// Rounds of a `mens` loop that are settled end the same with more answers and
/// more fuel.
pub proof fn lov_mens_stabil(svar: Seq<SvarV>, svar2: Seq<SvarV>, st: Tilstand, s: SaetningV, iteration: nat,
    fuel: nat, fuel2: nat)
    requires
        forlaenger(svar, svar2),
        fuel <= fuel2,
    ensures
        afgjort(mens(svar, st, s, iteration, fuel).1) ==> mens(svar2, st, s, iteration, fuel2) == mens(svar, st, s, iteration, fuel),
    decreases fuel, str_s(s), 0nat,
{
    if let SaetningV::Mens { betingelse, krop } = s {
        if st.retur is None {
            lov_evaluer_stabil(svar, svar2, st, betingelse, fuel, fuel2);
            let (st1, r1) = evaluer(svar, st, betingelse, fuel);
            if r1 == Ok::<VaerdiV, StopV>(VaerdiV::SandFalsk(true)) && fuel > 0 {
                let st2 = med_linje(st1, "[trace] mens-betingelse er sand (iteration "@ + decimal(iteration + 1) + ")"@);
                lov_koer_stabil(svar, svar2, st2, krop, (fuel - 1) as nat, (fuel2 - 1) as nat);
                let (st3, r3) = koer(svar, st2, krop, (fuel - 1) as nat);
                if r3 is Ok {
                    lov_mens_stabil(svar, svar2, st3, s, iteration + 1, (fuel - 1) as nat, (fuel2 - 1) as nat);
                }
            }
        }
    }
}

/// A block whose run is settled, that is, which did not stop for want of an
/// answer or of fuel, ends the same, output and state included, when it is run
/// again with more answers and more fuel.
pub proof fn lov_koer_stabil(svar: Seq<SvarV>, svar2: Seq<SvarV>, st: Tilstand, b: Seq<SaetningV>, fuel: nat, fuel2: nat)
    requires
        forlaenger(svar, svar2),
        fuel <= fuel2,
    ensures
        afgjort(koer(svar, st, b, fuel).1) ==> koer(svar2, st, b, fuel2) == koer(svar, st, b, fuel),
    decreases fuel, str_b(b), 1nat,
{
    lov_koer_resten_stabil(svar, svar2, registrer(st, b), b, fuel, fuel2);
}

/// The statements of a block, when their run is settled, end the same with more
/// answers and more fuel.
pub proof fn lov_koer_resten_stabil(svar: Seq<SvarV>, svar2: Seq<SvarV>, st: Tilstand, b: Seq<SaetningV>,
    fuel: nat, fuel2: nat)
    requires
        forlaenger(svar, svar2),
        fuel <= fuel2,
    ensures
        afgjort(koer_resten(svar, st, b, fuel).1) ==> koer_resten(svar2, st, b, fuel2) == koer_resten(svar, st, b, fuel),
    decreases fuel, str_b(b), 0nat,
{
    if b.len() > 0 && st.retur is None {
        if b[0] is FunktionDef {
            lov_koer_resten_stabil(svar, svar2, st, b.drop_first(), fuel, fuel2);
        } else {
            lov_udfoer_stabil(svar, svar2, st, b[0], fuel, fuel2);
            let (st1, r) = udfoer(svar, st, b[0], fuel);
            if r is Ok {
                lov_koer_resten_stabil(svar, svar2, st1, b.drop_first(), fuel, fuel2);
            }
        }
    }
}

/// The lines of `a` are the first lines of `b`.
pub open spec fn prefiks(a: Tilstand, b: Tilstand) -> bool {
    &&& a.udskrift.len() <= b.udskrift.len()
    &&& forall|i: int| 0 <= i < a.udskrift.len() ==> #[trigger] b.udskrift[i] == a.udskrift[i]
}

proof fn lemma_prefiks_fremad(a: Tilstand, b: Tilstand, c: Tilstand)
    requires
        prefiks(a, b),
        fremad(b, c),
    ensures
        prefiks(a, c),
{
}

proof fn lemma_hukommelsesraekker_fortsaetter(svar: Seq<SvarV>, svar2: Seq<SvarV>, st: Tilstand,
    m: Seq<(Seq<char>, VaerdiV)>)
    requires
        forlaenger(svar, svar2),
    ensures
        prefiks(hukommelsesraekker(svar, st, m).0, hukommelsesraekker(svar2, st, m).0),
    decreases m.len(),
{
    lemma_hukommelsesraekker_stabil(svar, svar2, st, m);
    if m.len() > 0 {
        lemma_vis_stabil(svar, svar2, st, m[0].1);
        lemma_vis_roerer_intet(svar, st, m[0].1);
        lemma_vis_roerer_intet(svar2, st, m[0].1);
        let (st1, r) = vis(svar, st, m[0].1);
        let (st1b, rb) = vis(svar2, st, m[0].1);
        if !afgjort(r) {
            if let Ok(t) = rb {
                let st2b = Tilstand {
                    udskrift: st1b.udskrift.push(LinjeV::Hukommelse {
                        navn: m[0].0,
                        type_navn: typenavn(type_af(m[0].1)),
                        vaerdi: t,
                    }),
                    ..st1b
                };
                lemma_hukommelsesraekker(svar2, st2b, m.drop_first());
                lemma_prefiks_fremad(st1, st1b, st2b);
                lemma_prefiks_fremad(st1, st2b, hukommelsesraekker(svar2, st2b, m.drop_first()).0);
            }
        } else if let Ok(t) = r {
            let st2 = Tilstand {
                udskrift: st1.udskrift.push(LinjeV::Hukommelse {
                    navn: m[0].0,
                    type_navn: typenavn(type_af(m[0].1)),
                    vaerdi: t,
                }),
                ..st1
            };
            lemma_hukommelsesraekker_fortsaetter(svar, svar2, st2, m.drop_first());
        }
    }
}

/// Evaluating again with more answers and more fuel writes at least the lines
/// written before, in the same order.
pub proof fn lov_evaluer_fortsaetter(svar: Seq<SvarV>, svar2: Seq<SvarV>, st: Tilstand, e: UdtrykV, fuel: nat, fuel2: nat)
    requires
        forlaenger(svar, svar2),
        fuel <= fuel2,
    ensures
        prefiks(evaluer(svar, st, e, fuel).0, evaluer(svar2, st, e, fuel2).0),
    decreases fuel, str_u(e), 1nat,
{
    lov_evaluer_stabil(svar, svar2, st, e, fuel, fuel2);
    match e {
        UdtrykV::Tal(t) => {},
        UdtrykV::BinaerOp { venstre, operator, hoejre } => {
            lov_evaluer_stabil(svar, svar2, st, *venstre, fuel, fuel2);
            lov_evaluer_fortsaetter(svar, svar2, st, *venstre, fuel, fuel2);
            let (st1, r1) = evaluer(svar, st, *venstre, fuel);
            let (st1b, r1b) = evaluer(svar2, st, *venstre, fuel2);
            if !afgjort(r1) {
                if let Ok(v) = r1b {
                    lov_evaluer_fremad(svar2, st1b, *hoejre, fuel2);
                    let (st2b, r2b) = evaluer(svar2, st1b, *hoejre, fuel2);
                    lemma_prefiks_fremad(st1, st1b, st2b);
                    if let Ok(h) = r2b {
                        lemma_anvend(svar2, st2b, v, operator, h);
                        lemma_prefiks_fremad(st1, st2b, anvend(svar2, st2b, v, operator, h).0);
                    }
                }
            } else if let Ok(v) = r1 {
                lov_evaluer_stabil(svar, svar2, st1, *hoejre, fuel, fuel2);
                lov_evaluer_fortsaetter(svar, svar2, st1, *hoejre, fuel, fuel2);
                let (st2, r2) = evaluer(svar, st1, *hoejre, fuel);
                let (st2b, r2b) = evaluer(svar2, st1, *hoejre, fuel2);
                if !afgjort(r2) {
                    if let Ok(h) = r2b {
                        lemma_anvend(svar2, st2b, v, operator, h);
                        lemma_prefiks_fremad(st2, st2b, anvend(svar2, st2b, v, operator, h).0);
                    }
                } else if let Ok(h) = r2 {
                    lemma_anvend_stabil(svar, svar2, st2, v, operator, h);
                }
            }
        },
        UdtrykV::FunktionsKald { navn, argumenter } => {
            lov_evaluer_liste_stabil(svar, svar2, st, argumenter, fuel, fuel2);
            lov_evaluer_liste_fortsaetter(svar, svar2, st, argumenter, fuel, fuel2);
            let (st1, r1) = evaluer_liste(svar, st, argumenter, fuel);
            let (st1b, r1b) = evaluer_liste(svar2, st, argumenter, fuel2);
            if !afgjort(r1) {
                if let Ok(vs) = r1b {
                    lov_kald_fremad(svar2, st1b, navn, vs, fuel2);
                    lemma_prefiks_fremad(st1, st1b, kald(svar2, st1b, navn, vs, fuel2).0);
                }
            } else if let Ok(vs) = r1 {
                lov_kald_fortsaetter(svar, svar2, st1, navn, vs, fuel, fuel2);
            }
        },
        _ => {},
    }
}

/// A call again with more answers and more fuel writes at least the lines
/// written before, in the same order.
pub proof fn lov_kald_fortsaetter(svar: Seq<SvarV>, svar2: Seq<SvarV>, st1: Tilstand, navn: Seq<char>, vs: Seq<VaerdiV>,
    fuel: nat, fuel2: nat)
    requires
        forlaenger(svar, svar2),
        fuel <= fuel2,
    ensures
        prefiks(kald(svar, st1, navn, vs, fuel).0, kald(svar2, st1, navn, vs, fuel2).0),
    decreases fuel, 0nat, 0nat,
{
    lov_kald_stabil(svar, svar2, st1, navn, vs, fuel, fuel2);
    if let Some(info) = slaa_op(st1.funktioner, navn) {
        if vs.len() == info.parametre.len() {
            lemma_parameterspor_stabil(svar, svar2, st1, navn, info.parametre, vs);
            lemma_parameterspor_roerer_intet(svar, st1, navn, info.parametre, vs);
            lemma_parameterspor_roerer_intet(svar2, st1, navn, info.parametre, vs);
            let (st2, r2) = parameterspor(svar, st1, navn, info.parametre, vs);
            let (st2b, r2b) = parameterspor(svar2, st1, navn, info.parametre, vs);
            if !afgjort(r2) {
                if let Ok(spor) = r2b {
                    lov_kald_fremad(svar2, st1, navn, vs, fuel2);
                    lemma_parameterspor(svar2, st1, navn, info.parametre, vs);
                    let st3b = med_linje(st2b, "[trace] Kalder funktion '"@ + navn + "' ("@ + sammenfoej(spor, ", "@) + ")"@);
                    assert(prefiks(st2, st3b));
                    if fuel2 > 0 {
                        let st4b = Tilstand { hukommelse: bind(Seq::empty(), info.parametre, vs), retur: None, ..st3b };
                        lov_koer_fremad(svar2, st4b, info.krop, (fuel2 - 1) as nat);
                        let (st5b, r5b) = koer(svar2, st4b, info.krop, (fuel2 - 1) as nat);
                        lemma_prefiks_fremad(st2, st4b, st5b);
                        if r5b is Ok {
                            let st6b = Tilstand { hukommelse: st3b.hukommelse, retur: st3b.retur, ..st5b };
                            assert(prefiks(st2, st6b));
                            if let Some(v) = st5b.retur {
                                lemma_vis(svar2, st6b, v);
                                let (st7b, r7b) = vis(svar2, st6b, v);
                                lemma_prefiks_fremad(st2, st6b, st7b);
                                if let Ok(t) = r7b {
                                    lemma_med_linje(st7b, "[trace] Funktion '"@ + navn + "' returnerede: "@ + t);
                                }
                            }
                        }
                    }
                }
            } else if let Ok(spor) = r2 {
                let st3 = med_linje(st2, "[trace] Kalder funktion '"@ + navn + "' ("@ + sammenfoej(spor, ", "@) + ")"@);
                if fuel > 0 {
                    let st4 = Tilstand { hukommelse: bind(Seq::empty(), info.parametre, vs), retur: None, ..st3 };
                    lov_koer_stabil(svar, svar2, st4, info.krop, (fuel - 1) as nat, (fuel2 - 1) as nat);
                    lov_koer_fortsaetter(svar, svar2, st4, info.krop, (fuel - 1) as nat, (fuel2 - 1) as nat);
                    let (st5, r5) = koer(svar, st4, info.krop, (fuel - 1) as nat);
                    let (st5b, r5b) = koer(svar2, st4, info.krop, (fuel2 - 1) as nat);
                    if !afgjort(r5) {
                        if r5b is Ok {
                            let st6b = Tilstand { hukommelse: st3.hukommelse, retur: st3.retur, ..st5b };
                            assert(prefiks(st5, st6b));
                            if let Some(v) = st5b.retur {
                                lemma_vis(svar2, st6b, v);
                                let (st7b, r7b) = vis(svar2, st6b, v);
                                lemma_prefiks_fremad(st5, st6b, st7b);
                                if let Ok(t) = r7b {
                                    lemma_med_linje(st7b, "[trace] Funktion '"@ + navn + "' returnerede: "@ + t);
                                    lemma_prefiks_fremad(st5, st7b,
                                        med_linje(st7b, "[trace] Funktion '"@ + navn + "' returnerede: "@ + t));
                                }
                            }
                        }
                    } else if r5 is Ok {
                        let st6 = Tilstand { hukommelse: st3.hukommelse, retur: st3.retur, ..st5 };
                        if let Some(v) = st5.retur {
                            lemma_vis_stabil(svar, svar2, st6, v);
                            lemma_vis_roerer_intet(svar, st6, v);
                            lemma_vis_roerer_intet(svar2, st6, v);
                        }
                    }
                } else {
                    assert(fuel2 == 0 || fuel2 > 0);
                    if fuel2 > 0 {
                        let st4b = Tilstand { hukommelse: bind(Seq::empty(), info.parametre, vs), retur: None, ..st3 };
                        lov_koer_fremad(svar2, st4b, info.krop, (fuel2 - 1) as nat);
                        let (st5b, r5b) = koer(svar2, st4b, info.krop, (fuel2 - 1) as nat);
                        if r5b is Ok {
                            let st6b = Tilstand { hukommelse: st3.hukommelse, retur: st3.retur, ..st5b };
                            assert(prefiks(st3, st6b));
                            if let Some(v) = st5b.retur {
                                lemma_vis(svar2, st6b, v);
                                let (st7b, r7b) = vis(svar2, st6b, v);
                                lemma_prefiks_fremad(st3, st6b, st7b);
                                if let Ok(t) = r7b {
                                    lemma_med_linje(st7b, "[trace] Funktion '"@ + navn + "' returnerede: "@ + t);
                                    lemma_prefiks_fremad(st3, st7b,
                                        med_linje(st7b, "[trace] Funktion '"@ + navn + "' returnerede: "@ + t));
                                }
                            }
                        }
                    }
                }
            }
        }
    }
}

/// Evaluating a list again with more answers and more fuel writes at least the
/// lines written before, in the same order.
pub proof fn lov_evaluer_liste_fortsaetter(svar: Seq<SvarV>, svar2: Seq<SvarV>, st: Tilstand, l: Seq<UdtrykV>,
    fuel: nat, fuel2: nat)
    requires
        forlaenger(svar, svar2),
        fuel <= fuel2,
    ensures
        prefiks(evaluer_liste(svar, st, l, fuel).0, evaluer_liste(svar2, st, l, fuel2).0),
    decreases fuel, str_ul(l), 1nat,
{
    lov_evaluer_liste_stabil(svar, svar2, st, l, fuel, fuel2);
    if l.len() > 0 {
        lov_evaluer_stabil(svar, svar2, st, l[0], fuel, fuel2);
        lov_evaluer_fortsaetter(svar, svar2, st, l[0], fuel, fuel2);
        let (st1, r1) = evaluer(svar, st, l[0], fuel);
        let (st1b, r1b) = evaluer(svar2, st, l[0], fuel2);
        if !afgjort(r1) {
            if r1b is Ok {
                lov_evaluer_liste_fremad(svar2, st1b, l.drop_first(), fuel2);
                lemma_prefiks_fremad(st1, st1b, evaluer_liste(svar2, st1b, l.drop_first(), fuel2).0);
            }
        } else if r1 is Ok {
            lov_evaluer_liste_fortsaetter(svar, svar2, st1, l.drop_first(), fuel, fuel2);
        }
    }
}

/// After an evaluation whose outcome is not settled, the same evaluation with
/// more answers and more fuel, and the steps after it, write at least its lines.
proof fn lemma_evaluer_saa(svar: Seq<SvarV>, svar2: Seq<SvarV>, st: Tilstand, e: UdtrykV, fuel: nat, fuel2: nat)
    requires
        forlaenger(svar, svar2),
        fuel <= fuel2,
    ensures
        afgjort(evaluer(svar, st, e, fuel).1) ==> evaluer(svar2, st, e, fuel2) == evaluer(svar, st, e, fuel),
        prefiks(evaluer(svar, st, e, fuel).0, evaluer(svar2, st, e, fuel2).0),
    decreases fuel, str_u(e), 2nat,
{
    lov_evaluer_stabil(svar, svar2, st, e, fuel, fuel2);
    lov_evaluer_fortsaetter(svar, svar2, st, e, fuel, fuel2);
}

/// Executing a statement again with more answers and more fuel writes at least
/// the lines written before, in the same order.
pub proof fn lov_udfoer_fortsaetter(svar: Seq<SvarV>, svar2: Seq<SvarV>, st: Tilstand, s: SaetningV, fuel: nat, fuel2: nat)
    requires
        forlaenger(svar, svar2),
        fuel <= fuel2,
    ensures
        prefiks(udfoer(svar, st, s, fuel).0, udfoer(svar2, st, s, fuel2).0),
    decreases fuel, str_s(s), 1nat,
{
    lov_udfoer_stabil(svar, svar2, st, s, fuel, fuel2);
    match s {
        SaetningV::Skriv(e) => {
            lemma_evaluer_saa(svar, svar2, st, e, fuel, fuel2);
            let (st1, r1) = evaluer(svar, st, e, fuel);
            let (st1b, r1b) = evaluer(svar2, st, e, fuel2);
            if let Ok(v) = r1b {
                lemma_vis_stabil(svar, svar2, st1b, v);
                lemma_vis_roerer_intet(svar, st1b, v);
                lemma_vis_roerer_intet(svar2, st1b, v);
            }
        },
        SaetningV::Erklaer { navn, type_, startvaerdi } => match startvaerdi {
            None => {
                lemma_vis_stabil(svar, svar2, st, standardvaerdi(type_));
                lemma_vis_roerer_intet(svar, st, standardvaerdi(type_));
                lemma_vis_roerer_intet(svar2, st, standardvaerdi(type_));
            },
            Some(e) => {
                lemma_evaluer_saa(svar, svar2, st, e, fuel, fuel2);
                let (st1, r1) = evaluer(svar, st, e, fuel);
                let (st1b, r1b) = evaluer(svar2, st, e, fuel2);
                if let Ok(v) = r1b {
                    lemma_vis_stabil(svar, svar2, st1b, v);
                    lemma_vis_roerer_intet(svar, st1b, v);
                    lemma_vis_roerer_intet(svar2, st1b, v);
                }
            },
        },
        SaetningV::Saet { navn, udtryk } => {
            if slaa_op(st.hukommelse, navn) is Some {
                lemma_evaluer_saa(svar, svar2, st, udtryk, fuel, fuel2);
                let (st1, r1) = evaluer(svar, st, udtryk, fuel);
                let (st1b, r1b) = evaluer(svar2, st, udtryk, fuel2);
                if let Ok(ny) = r1b {
                    lemma_vis_stabil(svar, svar2, st1b, ny);
                    lemma_vis_roerer_intet(svar, st1b, ny);
                    lemma_vis_roerer_intet(svar2, st1b, ny);
                }
            }
        },
        SaetningV::VisHukommelse => {
            let st1 = med_linje(st, "[trace] Viser hukommelse"@);
            if st1.hukommelse.len() > 0 {
                let st2 = med_linje(med_linje(st1, hukommelse_overskrift()), hukommelse_streg());
                lemma_hukommelsesraekker_fortsaetter(svar, svar2, st2, st2.hukommelse);
            }
        },
        SaetningV::Hvis { betingelse, saa_gren, ellers_gren } => {
            lemma_evaluer_saa(svar, svar2, st, betingelse, fuel, fuel2);
            let (st1, r1) = evaluer(svar, st, betingelse, fuel);
            let (st1b, r1b) = evaluer(svar2, st, betingelse, fuel2);
            if let Ok(VaerdiV::SandFalsk(b)) = r1b {
                let st2b = med_linje(st1b, "[trace] hvis-betingelse er "@ + sand_falsk(b));
                if !afgjort(r1) {
                    if b {
                        lov_koer_fremad(svar2, st2b, saa_gren, fuel2);
                        lemma_prefiks_fremad(st1, st2b, koer(svar2, st2b, saa_gren, fuel2).0);
                    } else if let Some(g) = ellers_gren {
                        lov_koer_fremad(svar2, st2b, g, fuel2);
                        lemma_prefiks_fremad(st1, st2b, koer(svar2, st2b, g, fuel2).0);
                    }
                } else {
                    if b {
                        lov_koer_fortsaetter(svar, svar2, st2b, saa_gren, fuel, fuel2);
                    } else if let Some(g) = ellers_gren {
                        lov_koer_fortsaetter(svar, svar2, st2b, g, fuel, fuel2);
                    }
                }
            }
        },
        SaetningV::Gentag { antal, krop } => {
            lemma_evaluer_saa(svar, svar2, st, antal, fuel, fuel2);
            let (st1, r1) = evaluer(svar, st, antal, fuel);
            let (st1b, r1b) = evaluer(svar2, st, antal, fuel2);
            if let Ok(VaerdiV::Nummer(x)) = r1b {
                lemma_spoerg_stabil(svar, svar2, st1b, ForespoergselV::Antal(x));
                let (st2, r2) = spoerg(svar, st1b, ForespoergselV::Antal(x));
                let (st2b, r2b) = spoerg(svar2, st1b, ForespoergselV::Antal(x));
                if let Ok(SvarV::Antal(n)) = r2b {
                    let st3b = med_linje(st2b, "[trace] Gentager "@ + decimal(n as nat) + " gange"@);
                    if !afgjort(r1) || !afgjort(r2) {
                        lov_gentag_fremad(svar2, st3b, krop, 1, n as nat, fuel2);
                        if !afgjort(r1) {
                            lemma_prefiks_fremad(st1, st3b, gentag(svar2, st3b, krop, 1, n as nat, fuel2).0);
                        } else {
                            lemma_prefiks_fremad(st2, st3b, gentag(svar2, st3b, krop, 1, n as nat, fuel2).0);
                        }
                    } else {
                        lov_gentag_fortsaetter(svar, svar2, st3b, krop, 1, n as nat, fuel, fuel2);
                    }
                }
            }
        },
        SaetningV::Mens { .. } => {
            lov_mens_fortsaetter(svar, svar2, st, s, 0, fuel, fuel2);
        },
        SaetningV::FunktionDef { .. } => {},
        SaetningV::Returner(e) => {
            if let Some(u) = e {
                lemma_evaluer_saa(svar, svar2, st, u, fuel, fuel2);
            }
            let (st1b, r1b) = match e {
                Some(u) => evaluer(svar2, st, u, fuel2),
                None => (st, Ok(VaerdiV::SandFalsk(false))),
            };
            if let Ok(v) = r1b {
                lemma_vis_stabil(svar, svar2, st1b, v);
                lemma_vis_roerer_intet(svar, st1b, v);
                lemma_vis_roerer_intet(svar2, st1b, v);
            }
        },
        SaetningV::Udtryksaetning(e) => {
            lemma_evaluer_saa(svar, svar2, st, e, fuel, fuel2);
        },
    }
}

/// The repetitions of a `gentag` again with more answers and more fuel write at
/// least the lines written before, in the same order.
pub proof fn lov_gentag_fortsaetter(svar: Seq<SvarV>, svar2: Seq<SvarV>, st: Tilstand, krop: Seq<SaetningV>, i: nat,
    n: nat, fuel: nat, fuel2: nat)
    requires
        forlaenger(svar, svar2),
        fuel <= fuel2,
    ensures
        prefiks(gentag(svar, st, krop, i, n, fuel).0, gentag(svar2, st, krop, i, n, fuel2).0),
    decreases fuel, str_b(krop), 0nat,
{
    lov_gentag_stabil(svar, svar2, st, krop, i, n, fuel, fuel2);
    if i <= n {
        if fuel == 0 {
            lov_gentag_fremad(svar2, st, krop, i, n, fuel2);
        } else {
            let st1 = med_linje(st, "[trace] Gentagelse "@ + decimal(i) + "/"@ + decimal(n));
            lov_koer_stabil(svar, svar2, st1, krop, (fuel - 1) as nat, (fuel2 - 1) as nat);
            lov_koer_fortsaetter(svar, svar2, st1, krop, (fuel - 1) as nat, (fuel2 - 1) as nat);
            let (st2, r) = koer(svar, st1, krop, (fuel - 1) as nat);
            let (st2b, rb) = koer(svar2, st1, krop, (fuel2 - 1) as nat);
            if !afgjort(r) {
                if rb is Ok && st2b.retur is None {
                    lov_gentag_fremad(svar2, st2b, krop, i + 1, n, (fuel2 - 1) as nat);
                    lemma_prefiks_fremad(st2, st2b, gentag(svar2, st2b, krop, i + 1, n, (fuel2 - 1) as nat).0);
                }
            } else if r is Ok && st2.retur is None {
                lov_gentag_fortsaetter(svar, svar2, st2, krop, i + 1, n, (fuel - 1) as nat, (fuel2 - 1) as nat);
            }
        }
    }
}

/// The rounds of a `mens` loop again with more answers and more fuel write at
/// least the lines written before, in the same order.
pub proof fn lov_mens_fortsaetter(svar: Seq<SvarV>, svar2: Seq<SvarV>, st: Tilstand, s: SaetningV, iteration: nat,
    fuel: nat, fuel2: nat)
    requires
        forlaenger(svar, svar2),
        fuel <= fuel2,
    ensures
        prefiks(mens(svar, st, s, iteration, fuel).0, mens(svar2, st, s, iteration, fuel2).0),
    decreases fuel, str_s(s), 0nat,
{
    lov_mens_stabil(svar, svar2, st, s, iteration, fuel, fuel2);
    if let SaetningV::Mens { betingelse, krop } = s {
        if st.retur is None {
            lemma_evaluer_saa(svar, svar2, st, betingelse, fuel, fuel2);
            let (st1, r1) = evaluer(svar, st, betingelse, fuel);
            let (st1b, r1b) = evaluer(svar2, st, betingelse, fuel2);
            if r1b == Ok::<VaerdiV, StopV>(VaerdiV::SandFalsk(true)) && fuel2 > 0 {
                let st2b = med_linje(st1b, "[trace] mens-betingelse er sand (iteration "@ + decimal(iteration + 1) + ")"@);
                lov_koer_fremad(svar2, st2b, krop, (fuel2 - 1) as nat);
                let (st3b, r3b) = koer(svar2, st2b, krop, (fuel2 - 1) as nat);
                if r3b is Ok {
                    lov_mens_fremad(svar2, st3b, s, iteration + 1, (fuel2 - 1) as nat);
                }
                if !afgjort(r1) || fuel == 0 {
                    lemma_prefiks_fremad(st1, st2b, st3b);
                    if r3b is Ok {
                        lemma_prefiks_fremad(st1, st3b, mens(svar2, st3b, s, iteration + 1, (fuel2 - 1) as nat).0);
                    }
                } else {
                    lov_koer_stabil(svar, svar2, st2b, krop, (fuel - 1) as nat, (fuel2 - 1) as nat);
                    lov_koer_fortsaetter(svar, svar2, st2b, krop, (fuel - 1) as nat, (fuel2 - 1) as nat);
                    let (st3, r3) = koer(svar, st2b, krop, (fuel - 1) as nat);
                    if !afgjort(r3) {
                        if r3b is Ok {
                            lemma_prefiks_fremad(st3, st3b, mens(svar2, st3b, s, iteration + 1, (fuel2 - 1) as nat).0);
                        }
                    } else if r3 is Ok {
                        lov_mens_fortsaetter(svar, svar2, st3, s, iteration + 1, (fuel - 1) as nat, (fuel2 - 1) as nat);
                    }
                }
            }
        }
    }
}

/// Running a block again with more answers and more fuel writes at least the
/// lines written before, in the same order: a run that stopped to ask for an
/// answer, or for want of fuel, is the start of the run that goes on.
pub proof fn lov_koer_fortsaetter(svar: Seq<SvarV>, svar2: Seq<SvarV>, st: Tilstand, b: Seq<SaetningV>, fuel: nat, fuel2: nat)
    requires
        forlaenger(svar, svar2),
        fuel <= fuel2,
    ensures
        prefiks(koer(svar, st, b, fuel).0, koer(svar2, st, b, fuel2).0),
    decreases fuel, str_b(b), 1nat,
{
    lov_koer_resten_fortsaetter(svar, svar2, registrer(st, b), b, fuel, fuel2);
}

/// Running the statements of a block again with more answers and more fuel
/// writes at least the lines written before, in the same order.
pub proof fn lov_koer_resten_fortsaetter(svar: Seq<SvarV>, svar2: Seq<SvarV>, st: Tilstand, b: Seq<SaetningV>,
    fuel: nat, fuel2: nat)
    requires
        forlaenger(svar, svar2),
        fuel <= fuel2,
    ensures
        prefiks(koer_resten(svar, st, b, fuel).0, koer_resten(svar2, st, b, fuel2).0),
    decreases fuel, str_b(b), 0nat,
{
    if b.len() > 0 && st.retur is None {
        if b[0] is FunktionDef {
            lov_koer_resten_fortsaetter(svar, svar2, st, b.drop_first(), fuel, fuel2);
        } else {
            lov_udfoer_stabil(svar, svar2, st, b[0], fuel, fuel2);
            lov_udfoer_fortsaetter(svar, svar2, st, b[0], fuel, fuel2);
            let (st1, r) = udfoer(svar, st, b[0], fuel);
            let (st1b, rb) = udfoer(svar2, st, b[0], fuel2);
            if !afgjort(r) {
                if rb is Ok {
                    lov_koer_resten_fremad(svar2, st1b, b.drop_first(), fuel2);
                    lemma_prefiks_fremad(st1, st1b, koer_resten(svar2, st1b, b.drop_first(), fuel2).0);
                }
            } else if r is Ok {
                lov_koer_resten_fortsaetter(svar, svar2, st1, b.drop_first(), fuel, fuel2);
            }
        }
    }
}

/// A run that started with at most the answers given used: it has used at most
/// the answers given, and all of them when it stopped to ask for another.
pub open spec fn svar_opbrugt<T>(svar: Seq<SvarV>, x: (Tilstand, Result<T, StopV>)) -> bool {
    &&& x.0.brugt <= svar.len()
    &&& (x.1 matches Err(StopV::Behov(_)) ==> x.0.brugt == svar.len())
}

proof fn lemma_spoerg_opbrugt(svar: Seq<SvarV>, st: Tilstand, q: ForespoergselV)
    requires
        st.brugt <= svar.len(),
    ensures
        svar_opbrugt(svar, spoerg(svar, st, q)),
{
}

proof fn lemma_vis_opbrugt(svar: Seq<SvarV>, st: Tilstand, v: VaerdiV)
    requires
        st.brugt <= svar.len(),
    ensures
        svar_opbrugt(svar, vis(svar, st, v)),
{
}

proof fn lemma_anvend_opbrugt(svar: Seq<SvarV>, st: Tilstand, v: VaerdiV, op: Operator, h: VaerdiV)
    requires
        st.brugt <= svar.len(),
    ensures
        svar_opbrugt(svar, anvend(svar, st, v, op, h)),
{
}

proof fn lemma_parameterspor_opbrugt(svar: Seq<SvarV>, st: Tilstand, fnavn: Seq<char>,
    ps: Seq<(Seq<char>, Type)>, vs: Seq<VaerdiV>)
    requires
        st.brugt <= svar.len(),
    ensures
        svar_opbrugt(svar, parameterspor(svar, st, fnavn, ps, vs)),
    decreases ps.len(),
{
    if ps.len() > 0 && vs.len() > 0 && type_af(vs[0]) == ps[0].1 {
        let (st1, r) = vis(svar, st, vs[0]);
        if r is Ok {
            lemma_parameterspor_opbrugt(svar, st1, fnavn, ps.drop_first(), vs.drop_first());
        }
    }
}

proof fn lemma_hukommelsesraekker_opbrugt(svar: Seq<SvarV>, st: Tilstand, m: Seq<(Seq<char>, VaerdiV)>)
    requires
        st.brugt <= svar.len(),
    ensures
        svar_opbrugt(svar, hukommelsesraekker(svar, st, m)),
    decreases m.len(),
{
    if m.len() > 0 {
        let (st1, r) = vis(svar, st, m[0].1);
        if let Ok(t) = r {
            let st2 = Tilstand {
                udskrift: st1.udskrift.push(LinjeV::Hukommelse {
                    navn: m[0].0,
                    type_navn: typenavn(type_af(m[0].1)),
                    vaerdi: t,
                }),
                ..st1
            };
            lemma_hukommelsesraekker_opbrugt(svar, st2, m.drop_first());
        }
    }
}

proof fn lemma_registrer_brugt(st: Tilstand, b: Seq<SaetningV>)
    ensures
        registrer(st, b).brugt == st.brugt,
    decreases b.len(),
{
    if b.len() > 0 {
        let st1 = match b[0] {
            SaetningV::FunktionDef { navn, parametre, returtype, krop } => Tilstand {
                funktioner: indsaet(st.funktioner, navn, FunktionV { parametre, returtype, krop }),
                ..st
            },
            _ => st,
        };
        lemma_registrer_brugt(st1, b.drop_first());
    }
}

proof fn lemma_erklaer_med_opbrugt(svar: Seq<SvarV>, st: Tilstand, navn: Seq<char>, t: Type, v: VaerdiV)
    requires
        st.brugt <= svar.len(),
    ensures
        svar_opbrugt(svar, erklaer_med(svar, st, navn, t, v)),
{
}

/// Evaluating an expression uses at most the answers given, and when it stops
/// for an answer it has used them all.
pub proof fn lov_evaluer_opbrugt(svar: Seq<SvarV>, st: Tilstand, e: UdtrykV, fuel: nat)
    requires
        st.brugt <= svar.len(),
    ensures
        svar_opbrugt(svar, evaluer(svar, st, e, fuel)),
    decreases fuel, str_u(e), 1nat,
{
    match e {
        UdtrykV::Tal(t) => {
            lemma_spoerg_opbrugt(svar, st, ForespoergselV::Laes(t));
        },
        UdtrykV::BinaerOp { venstre, operator, hoejre } => {
            lov_evaluer_opbrugt(svar, st, *venstre, fuel);
            let (st1, r1) = evaluer(svar, st, *venstre, fuel);
            if let Ok(v) = r1 {
                lov_evaluer_opbrugt(svar, st1, *hoejre, fuel);
                let (st2, r2) = evaluer(svar, st1, *hoejre, fuel);
                if let Ok(h) = r2 {
                    lemma_anvend_opbrugt(svar, st2, v, operator, h);
                }
            }
        },
        UdtrykV::FunktionsKald { navn, argumenter } => {
            lov_evaluer_liste_opbrugt(svar, st, argumenter, fuel);
            let (st1, r1) = evaluer_liste(svar, st, argumenter, fuel);
            if let Ok(vs) = r1 {
                lov_kald_opbrugt(svar, st1, navn, vs, fuel);
            }
        },
        _ => {},
    }
}

/// A call uses at most the answers given, and when it stops for an answer it has
/// used them all.
pub proof fn lov_kald_opbrugt(svar: Seq<SvarV>, st1: Tilstand, navn: Seq<char>, vs: Seq<VaerdiV>, fuel: nat)
    requires
        st1.brugt <= svar.len(),
    ensures
        svar_opbrugt(svar, kald(svar, st1, navn, vs, fuel)),
    decreases fuel, 0nat, 0nat,
{
    if let Some(info) = slaa_op(st1.funktioner, navn) {
        if vs.len() == info.parametre.len() {
            lemma_parameterspor_opbrugt(svar, st1, navn, info.parametre, vs);
            let (st2, r2) = parameterspor(svar, st1, navn, info.parametre, vs);
            if let Ok(spor) = r2 {
                let st3 = med_linje(st2, "[trace] Kalder funktion '"@ + navn + "' ("@ + sammenfoej(spor, ", "@) + ")"@);
                if fuel > 0 {
                    let st4 = Tilstand { hukommelse: bind(Seq::empty(), info.parametre, vs), retur: None, ..st3 };
                    lov_koer_opbrugt(svar, st4, info.krop, (fuel - 1) as nat);
                    let (st5, r5) = koer(svar, st4, info.krop, (fuel - 1) as nat);
                    if r5 is Ok {
                        let st6 = Tilstand { hukommelse: st3.hukommelse, retur: st3.retur, ..st5 };
                        if let Some(v) = st5.retur {
                            lemma_vis_opbrugt(svar, st6, v);
                        }
                    }
                }
            }
        }
    }
}

/// Evaluating a list uses at most the answers given, and when it stops for an
/// answer it has used them all.
pub proof fn lov_evaluer_liste_opbrugt(svar: Seq<SvarV>, st: Tilstand, l: Seq<UdtrykV>, fuel: nat)
    requires
        st.brugt <= svar.len(),
    ensures
        svar_opbrugt(svar, evaluer_liste(svar, st, l, fuel)),
    decreases fuel, str_ul(l), 1nat,
{
    if l.len() > 0 {
        lov_evaluer_opbrugt(svar, st, l[0], fuel);
        let (st1, r1) = evaluer(svar, st, l[0], fuel);
        if r1 is Ok {
            lov_evaluer_liste_opbrugt(svar, st1, l.drop_first(), fuel);
        }
    }
}

/// Executing a statement uses at most the answers given, and when it stops for
/// an answer it has used them all.
pub proof fn lov_udfoer_opbrugt(svar: Seq<SvarV>, st: Tilstand, s: SaetningV, fuel: nat)
    requires
        st.brugt <= svar.len(),
    ensures
        svar_opbrugt(svar, udfoer(svar, st, s, fuel)),
    decreases fuel, str_s(s), 1nat,
{
    match s {
        SaetningV::Skriv(e) => {
            lov_evaluer_opbrugt(svar, st, e, fuel);
            let (st1, r1) = evaluer(svar, st, e, fuel);
            if let Ok(v) = r1 {
                lemma_vis_opbrugt(svar, st1, v);
            }
        },
        SaetningV::Erklaer { navn, type_, startvaerdi } => match startvaerdi {
            None => {
                lemma_erklaer_med_opbrugt(svar, st, navn, type_, standardvaerdi(type_));
            },
            Some(e) => {
                lov_evaluer_opbrugt(svar, st, e, fuel);
                let (st1, r1) = evaluer(svar, st, e, fuel);
                if let Ok(v) = r1 {
                    lemma_erklaer_med_opbrugt(svar, st1, navn, type_, v);
                }
            },
        },
        SaetningV::Saet { navn, udtryk } => {
            if slaa_op(st.hukommelse, navn) is Some {
                lov_evaluer_opbrugt(svar, st, udtryk, fuel);
                let (st1, r1) = evaluer(svar, st, udtryk, fuel);
                if let Ok(ny) = r1 {
                    lemma_vis_opbrugt(svar, st1, ny);
                }
            }
        },
        SaetningV::VisHukommelse => {
            let st1 = med_linje(st, "[trace] Viser hukommelse"@);
            if st1.hukommelse.len() > 0 {
                let st2 = med_linje(med_linje(st1, hukommelse_overskrift()), hukommelse_streg());
                lemma_hukommelsesraekker_opbrugt(svar, st2, st2.hukommelse);
            }
        },
        SaetningV::Hvis { betingelse, saa_gren, ellers_gren } => {
            lov_evaluer_opbrugt(svar, st, betingelse, fuel);
            let (st1, r1) = evaluer(svar, st, betingelse, fuel);
            if let Ok(VaerdiV::SandFalsk(b)) = r1 {
                let st2 = med_linje(st1, "[trace] hvis-betingelse er "@ + sand_falsk(b));
                if b {
                    lov_koer_opbrugt(svar, st2, saa_gren, fuel);
                } else if let Some(g) = ellers_gren {
                    lov_koer_opbrugt(svar, st2, g, fuel);
                }
            }
        },
        SaetningV::Gentag { antal, krop } => {
            lov_evaluer_opbrugt(svar, st, antal, fuel);
            let (st1, r1) = evaluer(svar, st, antal, fuel);
            if let Ok(VaerdiV::Nummer(x)) = r1 {
                lemma_spoerg_opbrugt(svar, st1, ForespoergselV::Antal(x));
                let (st2, r2) = spoerg(svar, st1, ForespoergselV::Antal(x));
                if let Ok(SvarV::Antal(n)) = r2 {
                    let st3 = med_linje(st2, "[trace] Gentager "@ + decimal(n as nat) + " gange"@);
                    lov_gentag_opbrugt(svar, st3, krop, 1, n as nat, fuel);
                }
            }
        },
        SaetningV::Mens { .. } => {
            lov_mens_opbrugt(svar, st, s, 0, fuel);
        },
        SaetningV::FunktionDef { .. } => {},
        SaetningV::Returner(e) => {
            let (st1, r1) = match e {
                Some(u) => evaluer(svar, st, u, fuel),
                None => (st, Ok(VaerdiV::SandFalsk(false))),
            };
            if let Some(u) = e {
                lov_evaluer_opbrugt(svar, st, u, fuel);
            }
            if let Ok(v) = r1 {
                lemma_vis_opbrugt(svar, st1, v);
            }
        },
        SaetningV::Udtryksaetning(e) => {
            lov_evaluer_opbrugt(svar, st, e, fuel);
        },
    }
}

/// The repetitions of a `gentag` use at most the answers given, and when they
/// stop for an answer they have used them all.
pub proof fn lov_gentag_opbrugt(svar: Seq<SvarV>, st: Tilstand, krop: Seq<SaetningV>, i: nat, n: nat, fuel: nat)
    requires
        st.brugt <= svar.len(),
    ensures
        svar_opbrugt(svar, gentag(svar, st, krop, i, n, fuel)),
    decreases fuel, str_b(krop), 0nat,
{
    if i <= n && fuel > 0 {
        let st1 = med_linje(st, "[trace] Gentagelse "@ + decimal(i) + "/"@ + decimal(n));
        lov_koer_opbrugt(svar, st1, krop, (fuel - 1) as nat);
        let (st2, r) = koer(svar, st1, krop, (fuel - 1) as nat);
        if r is Ok && st2.retur is None {
            lov_gentag_opbrugt(svar, st2, krop, i + 1, n, (fuel - 1) as nat);
        }
    }
}

/// The rounds of a `mens` loop use at most the answers given, and when they stop
/// for an answer they have used them all.
pub proof fn lov_mens_opbrugt(svar: Seq<SvarV>, st: Tilstand, s: SaetningV, iteration: nat, fuel: nat)
    requires
        st.brugt <= svar.len(),
    ensures
        svar_opbrugt(svar, mens(svar, st, s, iteration, fuel)),
    decreases fuel, str_s(s), 0nat,
{
    if let SaetningV::Mens { betingelse, krop } = s {
        if st.retur is None {
            lov_evaluer_opbrugt(svar, st, betingelse, fuel);
            let (st1, r1) = evaluer(svar, st, betingelse, fuel);
            if r1 == Ok::<VaerdiV, crate::evaluator::StopV>(VaerdiV::SandFalsk(true)) && fuel > 0 {
                let st2 = med_linje(st1, "[trace] mens-betingelse er sand (iteration "@ + decimal(iteration + 1) + ")"@);
                lov_koer_opbrugt(svar, st2, krop, (fuel - 1) as nat);
                let (st3, r3) = koer(svar, st2, krop, (fuel - 1) as nat);
                if r3 is Ok {
                    lov_mens_opbrugt(svar, st3, s, iteration + 1, (fuel - 1) as nat);
                }
            }
        }
    }
}

/// A run of a block uses at most the answers given, and when it stops for an
/// answer it has used them all: the answer it asks for is the next one.
pub proof fn lov_koer_opbrugt(svar: Seq<SvarV>, st: Tilstand, b: Seq<SaetningV>, fuel: nat)
    requires
        st.brugt <= svar.len(),
    ensures
        svar_opbrugt(svar, koer(svar, st, b, fuel)),
    decreases fuel, str_b(b), 1nat,
{
    lemma_registrer_brugt(st, b);
    lov_koer_resten_opbrugt(svar, registrer(st, b), b, fuel);
}

/// Running the statements of a block uses at most the answers given, and when it
/// stops for an answer it has used them all.
pub proof fn lov_koer_resten_opbrugt(svar: Seq<SvarV>, st: Tilstand, b: Seq<SaetningV>, fuel: nat)
    requires
        st.brugt <= svar.len(),
    ensures
        svar_opbrugt(svar, koer_resten(svar, st, b, fuel)),
    decreases fuel, str_b(b), 0nat,
{
    if b.len() > 0 && st.retur is None {
        if b[0] is FunktionDef {
            lov_koer_resten_opbrugt(svar, st, b.drop_first(), fuel);
        } else {
            lov_udfoer_opbrugt(svar, st, b[0], fuel);
            let (st1, r) = udfoer(svar, st, b[0], fuel);
            if r is Ok {
                lov_koer_resten_opbrugt(svar, st1, b.drop_first(), fuel);
            }
        }
    }
}

} // verus!
