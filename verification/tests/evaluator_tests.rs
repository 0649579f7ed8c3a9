use mit_sprog::ast::{Operator, Saetning, Type, Udtryk};
use mit_sprog::evaluator::{Evaluator, Forespoergsel, Koersel, Linje, Stop, Svar, Vaerdi};
use mit_sprog::lexer::Lexer;
use mit_sprog::parser::Parser;

/// A number as the language writes it.
fn vis_tal(n: f64) -> String {
    if n.fract() == 0.0 && n.abs() < 1e15 {
        format!("{}", n as i64)
    } else {
        format!("{}", n)
    }
}

/// The answer to a question, computed with `f64`.
fn svar_paa(q: &Forespoergsel) -> Svar {
    match q {
        Forespoergsel::Laes(t) => Svar::Tal(t.parse::<f64>().unwrap_or(0.0).to_bits()),
        Forespoergsel::Regn(op, a, b) => {
            let a = f64::from_bits(*a);
            let b = f64::from_bits(*b);
            match op {
                Operator::Plus => Svar::Tal((a + b).to_bits()),
                Operator::Minus => Svar::Tal((a - b).to_bits()),
                Operator::ErLig => Svar::Sandhed(a == b),
                Operator::ErIkke => Svar::Sandhed(a != b),
                Operator::Mindre => Svar::Sandhed(a < b),
                Operator::Stoerre => Svar::Sandhed(a > b),
                Operator::MindreEllerLig => Svar::Sandhed(a <= b),
                Operator::StoerreEllerLig => Svar::Sandhed(a >= b),
            }
        },
        Forespoergsel::Vis(x) => Svar::Tekst(vis_tal(f64::from_bits(*x))),
        Forespoergsel::Antal(x) => {
            let n = f64::from_bits(*x);
            if n < 0.0 || n.fract() != 0.0 {
                Svar::IkkeHeltal(format!("{}", n))
            } else {
                Svar::Antal(n as u64)
            }
        },
    }
}

/// Runs statements to their end, answering each question and doubling the fuel
/// when it runs out.
fn koer_saetninger(prog: &Vec<Saetning>) -> (Vec<String>, Result<(), Stop>) {
    let mut svar: Vec<Svar> = Vec::new();
    let mut braendstof: u64 = 4;
    loop {
        let mut ev = Evaluator::ny();
        let k = ev.koer(prog, &svar, braendstof);
        match k.udfald {
            Err(Stop::Behov(q)) => svar.push(svar_paa(&q)),
            Err(Stop::TomtBraendstof) => braendstof = braendstof * 2,
            udfald => return (k.udskrift.iter().map(|l| l.som_tekst()).collect(), udfald),
        }
    }
}

fn program(kilde: &str) -> Vec<Saetning> {
    let mut l = Lexer::ny(kilde);
    let tokens = l.tokeniser().expect("kilden skal kunne lekses");
    let mut p = Parser::ny(tokens);
    p.parse().expect("kilden skal kunne parses")
}

fn koer(kilde: &str) -> (Vec<String>, Result<(), Stop>) {
    koer_saetninger(&program(kilde))
}

fn fejl(besked: &str) -> Result<(), Stop> {
    Err(Stop::Fejl(besked.to_string()))
}

fn tal(s: &str) -> Udtryk {
    Udtryk::Tal(s.to_string())
}

fn var(s: &str) -> Udtryk {
    Udtryk::Variable(s.to_string())
}

fn op(v: Udtryk, o: Operator, h: Udtryk) -> Udtryk {
    Udtryk::BinaerOp { venstre: Box::new(v), operator: o, hoejre: Box::new(h) }
}

fn kald(navn: &str, argumenter: Vec<Udtryk>) -> Udtryk {
    Udtryk::FunktionsKald { navn: navn.to_string(), argumenter }
}

/// `funktion dobbelt(n som nummer) giver nummer: returner n + n`
fn dobbelt() -> Saetning {
    Saetning::FunktionDef {
        navn: "dobbelt".to_string(),
        parametre: vec![("n".to_string(), Type::Nummer)],
        returtype: Some(Type::Nummer),
        krop: vec![Saetning::Returner(Some(op(var("n"), Operator::Plus, var("n"))))],
    }
}

#[test]
fn koersel_hej_verden() {
    assert_eq!(koer("skriv \"hej verden\""), (vec!["[trace] Skriver: hej verden".to_string(), "hej verden".to_string()], Ok(())));
}

#[test]
fn koersel_variabler_og_hukommelse() {
    let (linjer, udfald) = koer(
        "erklær alder som nummer = 16\nerklær navn som streng = \"Alice\"\nerklær erElev som sandFalsk = sand\nvis hukommelse",
    );
    assert_eq!(udfald, Ok(()));
    assert_eq!(
        linjer,
        vec![
            "[trace] Erklærer 'alder' som nummer = 16",
            "[trace] Erklærer 'navn' som streng = Alice",
            "[trace] Erklærer 'erElev' som sandFalsk = sand",
            "[trace] Viser hukommelse",
            "Navn                 Type         Værdi",
            "--------------------------------------------------",
            "alder                nummer       16",
            "erElev               sandFalsk    sand",
            "navn                 streng       Alice",
        ]
    );
}

#[test]
fn koersel_standardvaerdier() {
    let (linjer, udfald) = koer("erklær s som streng\nerklær b som sandFalsk\nerklær n som nummer\nvis hukommelse");
    assert_eq!(udfald, Ok(()));
    assert_eq!(
        linjer,
        vec![
            "[trace] Erklærer 's' som streng = ",
            "[trace] Erklærer 'b' som sandFalsk = falsk",
            "[trace] Erklærer 'n' som nummer = 0",
            "[trace] Viser hukommelse",
            "Navn                 Type         Værdi",
            "--------------------------------------------------",
            "b                    sandFalsk    falsk",
            "n                    nummer       0",
            "s                    streng       ",
        ]
    );
}

#[test]
fn koersel_tom_hukommelse() {
    assert_eq!(
        koer("vis hukommelse"),
        (vec!["[trace] Viser hukommelse".to_string(), "(ingen variabler endnu)".to_string()], Ok(()))
    );
}

#[test]
fn koersel_aritmetik() {
    let (linjer, udfald) = koer("erklær a som nummer = 7\nerklær b som nummer = 3\nskriv a + b\nskriv a - b\nskriv 1.5 + 1");
    assert_eq!(udfald, Ok(()));
    assert_eq!(
        linjer,
        vec![
            "[trace] Erklærer 'a' som nummer = 7",
            "[trace] Erklærer 'b' som nummer = 3",
            "[trace] Skriver: 10",
            "10",
            "[trace] Skriver: 4",
            "4",
            "[trace] Skriver: 2.5",
            "2.5",
        ]
    );
}

#[test]
fn koersel_sammenligning_og_tekster() {
    let (linjer, udfald) = koer("skriv 2 + 3 == 5\nskriv 3 < 2\nskriv \"a\" <> \"b\"\nskriv \"hej \" + \"du\"");
    assert_eq!(udfald, Ok(()));
    assert_eq!(
        linjer,
        vec!["[trace] Skriver: sand", "sand", "[trace] Skriver: falsk", "falsk", "[trace] Skriver: sand", "sand",
            "[trace] Skriver: hej du", "hej du"]
    );
}

#[test]
fn koersel_hvis_ellers() {
    let (linjer, udfald) = koer(
        "erklær alder som nummer = 12\nhvis alder >= 18 så\nskriv \"voksen\"\nellers\nskriv \"barn\"\nslut",
    );
    assert_eq!(udfald, Ok(()));
    assert_eq!(
        linjer,
        vec!["[trace] Erklærer 'alder' som nummer = 12", "[trace] hvis-betingelse er falsk", "[trace] Skriver: barn", "barn"]
    );
}

#[test]
fn koersel_gentag() {
    let (linjer, udfald) = koer("gentag 2 gange\nskriv \"hej\"\nslut");
    assert_eq!(udfald, Ok(()));
    assert_eq!(
        linjer,
        vec![
            "[trace] Gentager 2 gange",
            "[trace] Gentagelse 1/2",
            "[trace] Skriver: hej",
            "hej",
            "[trace] Gentagelse 2/2",
            "[trace] Skriver: hej",
            "hej",
        ]
    );
}

#[test]
fn koersel_mens() {
    let (linjer, udfald) = koer("erklær i som nummer = 0\nmens i < 2 så\nsæt i = i + 1\nslut\nskriv i");
    assert_eq!(udfald, Ok(()));
    assert_eq!(
        linjer,
        vec![
            "[trace] Erklærer 'i' som nummer = 0",
            "[trace] mens-betingelse er sand (iteration 1)",
            "[trace] Sætter 'i' = 1",
            "[trace] mens-betingelse er sand (iteration 2)",
            "[trace] Sætter 'i' = 2",
            "[trace] mens-betingelse er falsk — stopper",
            "[trace] Skriver: 2",
            "2",
        ]
    );
}

#[test]
fn koersel_fejl_ukendt_variabel() {
    assert_eq!(koer("skriv x"), (vec![], fejl("Ukendt variabel 'x' — er den erklæret med 'erklær'?")));
    assert_eq!(koer("sæt y = 1"), (vec![], fejl("Ukendt variabel 'y' — erklær den først med 'erklær'")));
}

#[test]
fn koersel_typefejl() {
    assert_eq!(
        koer("erklær a som nummer = \"x\"").1,
        fejl("Typefejl: variablen 'a' er erklæret som 'nummer', men startværdien er af typen 'streng'")
    );
    assert_eq!(
        koer("erklær a som nummer\nsæt a = sand").1,
        fejl("Typefejl: 'a' er af typen 'nummer', men du prøver at sætte en 'sandFalsk'-værdi")
    );
    assert_eq!(koer("skriv \"a\" - \"b\"").1, fejl("Typefejl: man kan ikke trække to strenge fra hinanden"));
    assert_eq!(koer("skriv 1 + \"a\"").1, fejl("Typefejl: operatoren kan ikke bruges på 'nummer' og 'streng'"));
    assert_eq!(koer("skriv \"a\" < \"b\"").1, fejl("Typefejl: operatoren kan ikke bruges på 'streng' og 'streng'"));
    assert_eq!(
        koer("hvis 1 så\nskriv 1\nslut").1,
        fejl("Typefejl: 'hvis' kræver en sand/falsk-betingelse, men fandt 'nummer'")
    );
    assert_eq!(
        koer("mens \"x\" så\nskriv 1\nslut").1,
        fejl("Typefejl: 'mens' kræver en sand/falsk-betingelse, men fandt 'streng'")
    );
}

#[test]
fn koersel_gentag_fejl() {
    assert_eq!(koer("gentag 0 - 2 gange\nslut").1, fejl("'gentag' kræver et positivt heltal, men fandt -2"));
    assert_eq!(koer("gentag 1.5 gange\nslut").1, fejl("'gentag' kræver et positivt heltal, men fandt 1.5"));
    assert_eq!(koer("gentag \"to\" gange\nslut").1, fejl("'gentag' kræver et tal, men fandt 'streng'"));
}

#[test]
fn koersel_fejl_stopper_efter_tidligere_output() {
    let (linjer, udfald) = koer("skriv 1\nskriv x\nskriv 2");
    assert_eq!(linjer, vec!["[trace] Skriver: 1", "1"]);
    assert_eq!(udfald, fejl("Ukendt variabel 'x' — er den erklæret med 'erklær'?"));
}

#[test]
fn koersel_funktion_med_returvaerdi() {
    let prog = vec![dobbelt(), Saetning::Skriv(kald("dobbelt", vec![tal("21")]))];
    let (linjer, udfald) = koer_saetninger(&prog);
    assert_eq!(udfald, Ok(()));
    assert_eq!(
        linjer,
        vec![
            "[trace] Kalder funktion 'dobbelt' (n = 21)",
            "[trace] Returnerer: 42",
            "[trace] Funktion 'dobbelt' returnerede: 42",
            "[trace] Skriver: 42",
            "42",
        ]
    );
}

#[test]
fn koersel_funktion_uden_returvaerdi_og_eget_scope() {
    let hils = Saetning::FunktionDef {
        navn: "hils".to_string(),
        parametre: vec![],
        returtype: None,
        krop: vec![
            Saetning::Erklaer { navn: "x".to_string(), type_: Type::Streng, startvaerdi: Some(Udtryk::Bogstav("hej".to_string())) },
            Saetning::Skriv(var("x")),
        ],
    };
    let prog = vec![
        Saetning::Erklaer { navn: "x".to_string(), type_: Type::Nummer, startvaerdi: Some(tal("1")) },
        Saetning::Skriv(kald("hils", vec![])),
        Saetning::Skriv(var("x")),
        hils,
    ];
    let (linjer, udfald) = koer_saetninger(&prog);
    assert_eq!(udfald, Ok(()));
    assert_eq!(
        linjer,
        vec![
            "[trace] Erklærer 'x' som nummer = 1",
            "[trace] Kalder funktion 'hils' ()",
            "[trace] Erklærer 'x' som streng = hej",
            "[trace] Skriver: hej",
            "hej",
            "[trace] Skriver: falsk",
            "falsk",
            "[trace] Skriver: 1",
            "1",
        ]
    );
}

#[test]
fn koersel_funktionsfejl() {
    let ukendt = vec![Saetning::Udtryksaetning(kald("f", vec![]))];
    assert_eq!(koer_saetninger(&ukendt).1, fejl("Ukendt funktion 'f' — er den erklæret med 'funktion'?"));
    let antal = vec![dobbelt(), Saetning::Udtryksaetning(kald("dobbelt", vec![tal("1"), tal("2")]))];
    assert_eq!(koer_saetninger(&antal).1, fejl("Funktion 'dobbelt' forventer 1 argument, men fik 2"));
    let type_ = vec![dobbelt(), Saetning::Udtryksaetning(kald("dobbelt", vec![Udtryk::Bogstav("x".to_string())]))];
    assert_eq!(
        koer_saetninger(&type_).1,
        fejl("Typefejl i kald af 'dobbelt': parameter 'n' er nummer, men fik streng")
    );
    let ydre = Saetning::FunktionDef {
        navn: "f".to_string(),
        parametre: vec![],
        returtype: None,
        krop: vec![Saetning::Skriv(var("y"))],
    };
    let scope = vec![
        Saetning::Erklaer { navn: "y".to_string(), type_: Type::Nummer, startvaerdi: None },
        ydre,
        Saetning::Udtryksaetning(kald("f", vec![])),
    ];
    assert_eq!(koer_saetninger(&scope).1, fejl("Ukendt variabel 'y' — er den erklæret med 'erklær'?"));
}

#[test]
fn koersel_returner_afbryder_loekke() {
    let f = Saetning::FunktionDef {
        navn: "f".to_string(),
        parametre: vec![],
        returtype: Some(Type::Nummer),
        krop: vec![Saetning::Gentag {
            antal: tal("5"),
            krop: vec![Saetning::Returner(Some(tal("7"))), Saetning::Skriv(tal("0"))],
        }],
    };
    let prog = vec![f, Saetning::Skriv(kald("f", vec![]))];
    let (linjer, udfald) = koer_saetninger(&prog);
    assert_eq!(udfald, Ok(()));
    assert_eq!(
        linjer,
        vec![
            "[trace] Kalder funktion 'f' ()",
            "[trace] Gentager 5 gange",
            "[trace] Gentagelse 1/5",
            "[trace] Returnerer: 7",
            "[trace] Funktion 'f' returnerede: 7",
            "[trace] Skriver: 7",
            "7",
        ]
    );
}

#[test]
fn koersel_spoerger_efter_svar() {
    let prog = program("skriv 1");
    let mut ev = Evaluator::ny();
    let k: Koersel = ev.koer(&prog, &vec![], 10);
    assert_eq!(k.udfald, Err(Stop::Behov(Forespoergsel::Laes("1".to_string()))));
    assert_eq!(k.udskrift, vec![]);
    assert_eq!(k.brugte_svar, 0);
    let mut ev = Evaluator::ny();
    let k = ev.koer(&prog, &vec![Svar::Tal(1.0f64.to_bits())], 10);
    assert_eq!(k.udfald, Err(Stop::Behov(Forespoergsel::Vis(1.0f64.to_bits()))));
    assert_eq!(k.brugte_svar, 1);
    let mut ev = Evaluator::ny();
    let k = ev.koer(&prog, &vec![Svar::Tal(1.0f64.to_bits()), Svar::Tekst("1".to_string())], 10);
    assert_eq!(k.udfald, Ok(()));
    assert_eq!(k.udskrift, vec![Linje::Tekst("[trace] Skriver: 1".to_string()), Linje::Tekst("1".to_string())]);
}

#[test]
fn koersel_med_flere_svar_og_mere_braendstof_fortsaetter() {
    let prog = program("skriv \"a\"\nskriv 1\nskriv \"b\"");
    let mut ev = Evaluator::ny();
    let kort = ev.koer(&prog, &vec![], 10);
    assert_eq!(kort.udskrift, vec![Linje::Tekst("[trace] Skriver: a".to_string()), Linje::Tekst("a".to_string())]);
    let mut ev = Evaluator::ny();
    let lang = ev.koer(&prog, &vec![Svar::Tal(1.0f64.to_bits()), Svar::Tekst("1".to_string()), Svar::Tal(0)], 20);
    assert_eq!(lang.udfald, Ok(()));
    assert_eq!(lang.udskrift.len(), 6);
    assert_eq!(lang.udskrift[..2], kort.udskrift[..]);
    assert_eq!(lang.brugte_svar, 2);
}

#[test]
fn koersel_braendstof() {
    let prog = program("gentag 3 gange\nskriv \"x\"\nslut");
    let svar = vec![Svar::Tal(3.0f64.to_bits()), Svar::Antal(3)];
    let mut ev = Evaluator::ny();
    let k = ev.koer(&prog, &svar, 2);
    assert_eq!(k.udfald, Err(Stop::TomtBraendstof));
    let mut ev = Evaluator::ny();
    let k = ev.koer(&prog, &svar, 3);
    assert_eq!(k.udfald, Ok(()));
    assert_eq!(k.udskrift.len(), 1 + 3 * 3);
}

#[test]
fn koersel_ugyldigt_svar() {
    let prog = program("skriv 1");
    let mut ev = Evaluator::ny();
    let k = ev.koer(&prog, &vec![Svar::Sandhed(true)], 10);
    assert_eq!(k.udfald, Err(Stop::UgyldigtSvar));
}

#[test]
fn koersel_beholder_hukommelse() {
    let prog = program("erklær a som sandFalsk = sand");
    let mut ev = Evaluator::ny();
    let k = ev.koer(&prog, &vec![], 1);
    assert_eq!(k.udfald, Ok(()));
    assert_eq!(ev.hukommelse.laengde(), 1);
    assert_eq!(ev.hukommelse.find(&"a".to_string()), Some(&Vaerdi::SandFalsk(true)));
}

#[test]
fn vaerdi_typenavne() {
    assert_eq!(Vaerdi::Nummer(0).type_navn(), "nummer");
    assert_eq!(Vaerdi::Streng("x".to_string()).type_navn(), "streng");
    assert_eq!(Vaerdi::SandFalsk(false).type_(), Type::SandFalsk);
    assert_eq!(mit_sprog::evaluator::type_navn_fra_type(&Type::Streng), "streng");
}

#[test]
fn linje_som_tekst() {
    let l = Linje::Hukommelse { navn: "et_meget_langt_variabelnavn".to_string(), type_navn: "nummer".to_string(), vaerdi: "3".to_string() };
    assert_eq!(l.som_tekst(), "et_meget_langt_variabelnavn nummer       3");
    assert_eq!(Linje::Tekst("x".to_string()).som_tekst(), "x");
}

#[test]
fn sammenfoej_tekster_med_skilletegn() {
    let l = vec!["a".to_string(), "b".to_string(), "c".to_string()];
    assert_eq!(mit_sprog::evaluator::sammenfoej_tekster(&l, ", "), "a, b, c");
    assert_eq!(mit_sprog::evaluator::sammenfoej_tekster(&vec![], ", "), "");
}

#[test]
fn koersel_afgjort_med_flere_svar_er_uaendret() {
    let prog = program("erklær x som nummer = 2\nskriv x");
    let svar = vec![Svar::Tal(2.0f64.to_bits()), Svar::Tekst("2".to_string()), Svar::Tekst("2".to_string())];
    let mut ev = Evaluator::ny();
    let foerst = ev.koer(&prog, &svar, 1);
    assert_eq!(foerst.udfald, Ok(()));
    let mut flere = svar;
    flere.push(Svar::Sandhed(false));
    flere.push(Svar::Antal(9));
    let mut ev2 = Evaluator::ny();
    let igen = ev2.koer(&prog, &flere, 50);
    assert_eq!(igen.udfald, Ok(()));
    assert_eq!(igen.udskrift, foerst.udskrift);
    assert_eq!(igen.brugte_svar, foerst.brugte_svar);
    assert_eq!(igen.brugte_svar, 3);
}

#[test]
fn koersel_funktioner_fra_kilde() {
    let (linjer, udfald) = koer(
        "funktion dobbelt(n som nummer) giver nummer\nreturner n + n\nslut\nskriv dobbelt(21)\nskriv (1 + 2) - (3 - 4)\nerklær x som nummer = -7\nskriv x",
    );
    assert_eq!(udfald, Ok(()));
    assert_eq!(
        linjer,
        vec![
            "[trace] Kalder funktion 'dobbelt' (n = 21)",
            "[trace] Returnerer: 42",
            "[trace] Funktion 'dobbelt' returnerede: 42",
            "[trace] Skriver: 42",
            "42",
            "[trace] Skriver: 4",
            "4",
            "[trace] Erklærer 'x' som nummer = -7",
            "[trace] Skriver: -7",
            "-7",
        ]
    );
}

#[test]
fn koersel_gentag_nul_gange() {
    assert_eq!(koer("gentag 0 gange\nskriv 1\nslut"), (vec!["[trace] Gentager 0 gange".to_string()], Ok(())));
}

#[test]
fn koersel_senere_definition_vinder_og_kald_foer_definition() {
    let (linjer, udfald) = koer(
        "skriv f()\nfunktion f() giver streng\nreturner \"første\"\nslut\nfunktion f() giver streng\nreturner \"anden\"\nslut",
    );
    assert_eq!(udfald, Ok(()));
    assert_eq!(
        linjer,
        vec![
            "[trace] Kalder funktion 'f' ()",
            "[trace] Returnerer: anden",
            "[trace] Funktion 'f' returnerede: anden",
            "[trace] Skriver: anden",
            "anden",
        ]
    );
}
