use mit_sprog::ast::Saetning;
use mit_sprog::lexer::{Lexer, Token};
use mit_sprog::parser::{Parser, Syntaksfejl};

fn parse(kilde: &str) -> Result<Vec<Saetning>, Syntaksfejl> {
    let mut l = Lexer::ny(kilde);
    let tokens = l.tokeniser().expect("kilden skal kunne lekses");
    let mut p = Parser::ny(tokens);
    p.parse()
}

fn vist(kilde: &str) -> String {
    format!("{:?}", parse(kilde).expect("kilden skal kunne parses"))
}

#[test]
fn parser_tomt_program() {
    assert_eq!(vist(""), "[]");
}

#[test]
fn parser_skriv() {
    assert_eq!(vist("skriv \"hej\""), "[Skriv(Bogstav(\"hej\"))]");
}

#[test]
fn parser_skriv_uden_udtryk_er_fejl() {
    assert_eq!(parse("skriv").err(), Some(Syntaksfejl::ForventedeVaerdi(Token::FilSlut)));
}

#[test]
fn parser_skriv_med_to_udtryk_er_fejl() {
    assert_eq!(
        parse("skriv 1 2").err(),
        Some(Syntaksfejl::ForventedeLinjeskift(Token::TalLiteral("2".to_string())))
    );
}

#[test]
fn parser_sammenligning_binder_svagere_end_plus() {
    assert_eq!(
        vist("skriv 1 + 2 < 4"),
        "[Skriv(BinaerOp { venstre: BinaerOp { venstre: Tal(\"1\"), operator: Plus, hoejre: Tal(\"2\") }, \
         operator: Mindre, hoejre: Tal(\"4\") })]"
    );
}

#[test]
fn parser_minus_er_venstre_associativ() {
    assert_eq!(
        vist("skriv a - b - c"),
        "[Skriv(BinaerOp { venstre: BinaerOp { venstre: Variable(\"a\"), operator: Minus, hoejre: Variable(\"b\") }, \
         operator: Minus, hoejre: Variable(\"c\") })]"
    );
}

#[test]
fn parser_erklaering_med_og_uden_startvaerdi() {
    assert_eq!(
        vist("erklær a som nummer = 16\nerklær b som sandFalsk"),
        "[Erklaer { navn: \"a\", type_: Nummer, startvaerdi: Some(Tal(\"16\")) }, \
         Erklaer { navn: \"b\", type_: SandFalsk, startvaerdi: None }]"
    );
}

#[test]
fn parser_saet_og_vis_hukommelse() {
    assert_eq!(
        vist("sæt x = sand\nvis hukommelse"),
        "[Saet { navn: \"x\", udtryk: BoolLiteral(true) }, VisHukommelse]"
    );
}

#[test]
fn parser_hvis_ellers() {
    assert_eq!(
        vist("hvis a >= 18 så\nskriv \"voksen\"\nellers\nskriv \"barn\"\nslut"),
        "[Hvis { betingelse: BinaerOp { venstre: Variable(\"a\"), operator: StoerreEllerLig, hoejre: Tal(\"18\") }, \
         saa_gren: [Skriv(Bogstav(\"voksen\"))], ellers_gren: Some([Skriv(Bogstav(\"barn\"))]) }]"
    );
}

#[test]
fn parser_gentag_og_mens() {
    assert_eq!(
        vist("gentag 3 gange\nskriv 1\nslut\nmens i < 2 så\nsæt i = i + 1\nslut"),
        "[Gentag { antal: Tal(\"3\"), krop: [Skriv(Tal(\"1\"))] }, \
         Mens { betingelse: BinaerOp { venstre: Variable(\"i\"), operator: Mindre, hoejre: Tal(\"2\") }, \
         krop: [Saet { navn: \"i\", udtryk: BinaerOp { venstre: Variable(\"i\"), operator: Plus, hoejre: Tal(\"1\") } }] }]"
    );
}

#[test]
fn parser_fejl_i_navn_og_type() {
    assert_eq!(parse("erklær 5").err(), Some(Syntaksfejl::ForventedeNavn(Token::TalLiteral("5".to_string()))));
    assert_eq!(parse("erklær x som 5").err(), Some(Syntaksfejl::ForventedeType(Token::TalLiteral("5".to_string()))));
    assert_eq!(
        parse("erklær x nummer").err(),
        Some(Syntaksfejl::Forventede { forventet: Token::Som, fandt: Token::Nummer })
    );
}

#[test]
fn parser_uventet_token() {
    assert_eq!(parse("slut").err(), Some(Syntaksfejl::UventetToken(Token::Slut)));
}

#[test]
fn parser_blok_uden_slut() {
    assert_eq!(
        parse("hvis sand så\nskriv 1\n").err(),
        Some(Syntaksfejl::Forventede { forventet: Token::Slut, fandt: Token::FilSlut })
    );
}

#[test]
fn parser_blok_kraever_linjeskift() {
    assert_eq!(
        parse("hvis sand så\nskriv 1 2\nslut").err(),
        Some(Syntaksfejl::ForventedeLinjeskiftIBlok(Token::TalLiteral("2".to_string())))
    );
}

#[test]
fn parser_negativt_tal() {
    assert_eq!(
        vist("erklær x som nummer = -7"),
        "[Erklaer { navn: \"x\", type_: Nummer, startvaerdi: Some(Tal(\"-7\")) }]"
    );
    assert_eq!(vist("skriv 3 - -2"), "[Skriv(BinaerOp { venstre: Tal(\"3\"), operator: Minus, hoejre: Tal(\"-2\") })]");
    assert_eq!(parse("skriv -x").err(), Some(Syntaksfejl::ForventedeVaerdi(Token::Minus)));
}

#[test]
fn parser_parenteser() {
    assert_eq!(
        vist("skriv 1 - (2 + 3)"),
        "[Skriv(BinaerOp { venstre: Tal(\"1\"), operator: Minus, hoejre: BinaerOp { venstre: Tal(\"2\"), operator: Plus, hoejre: Tal(\"3\") } })]"
    );
    assert_eq!(
        parse("skriv (1 + 2").err(),
        Some(Syntaksfejl::Forventede { forventet: Token::HoejreParentes, fandt: Token::FilSlut })
    );
}

#[test]
fn parser_funktion_kald_og_returner() {
    assert_eq!(
        vist("funktion f(a som nummer, b som streng) giver nummer\nreturner a\nslut\nf(1, \"x\")\nfunktion g()\nreturner\nslut"),
        "[FunktionDef { navn: \"f\", parametre: [(\"a\", Nummer), (\"b\", Streng)], returtype: Some(Nummer), \
         krop: [Returner(Some(Variable(\"a\")))] }, \
         Udtryksaetning(FunktionsKald { navn: \"f\", argumenter: [Tal(\"1\"), Bogstav(\"x\")] }), \
         FunktionDef { navn: \"g\", parametre: [], returtype: None, krop: [Returner(None)] }]"
    );
    assert_eq!(vist("skriv f()"), "[Skriv(FunktionsKald { navn: \"f\", argumenter: [] })]");
    assert_eq!(parse("x").err(), Some(Syntaksfejl::UventetToken(Token::Ident("x".to_string()))));
    assert_eq!(
        parse("funktion f(a) \nslut").err(),
        Some(Syntaksfejl::Forventede { forventet: Token::Som, fandt: Token::HoejreParentes })
    );
}

#[test]
fn syntaksfejl_beskeder() {
    let tal = vec![("2".to_string(), "2.0".to_string())];
    let e = parse("skriv 1 2").err().unwrap();
    assert_eq!(e.tal(), vec!["2".to_string()]);
    assert_eq!(e.besked(&tal), "Forventede linjeskift efter instruktion, men fandt TalLiteral(2.0)");
    assert_eq!(
        parse("erklær x nummer").err().unwrap().besked(&vec![]),
        "Forventede Som, men fandt Nummer"
    );
    assert_eq!(parse("skriv").err().unwrap().besked(&vec![]), "Forventede en værdi, men fandt FilSlut");
    assert_eq!(
        parse("sæt \"a\\b\" = 1").err().unwrap().besked(&vec![]),
        "Forventede et variabelnavn, men fandt BogstavLiteral(\"a\\\\b\")"
    );
    assert_eq!(parse("slut").err().unwrap().besked(&vec![]), "Uventet token: Slut");
    assert_eq!(
        parse("hvis sand så\nskriv 1 ærø\nslut").err().unwrap().besked(&vec![]),
        "Forventede linjeskift, men fandt Ident(\"ærø\")"
    );
    assert_eq!(
        parse("erklær x som større").err().unwrap().besked(&vec![]),
        "Forventede en type (nummer/streng/sandFalsk), men fandt Ident(\"større\")"
    );
}

#[test]
fn syntaksfejl_besked_viser_tekst_som_debug() {
    for tekst in ["a\u{1}b\u{7f}", "tab\there", "e\u{301}æ", "\u{200b}x", "a'b", "ny\nlinje\r\u{0}"] {
        let kilde = format!("sæt \"{}\" = 1", tekst);
        let e = parse(&kilde).err().unwrap();
        assert_eq!(
            e.besked(&vec![]),
            format!("Forventede et variabelnavn, men fandt BogstavLiteral({:?})", tekst)
        );
    }
}
