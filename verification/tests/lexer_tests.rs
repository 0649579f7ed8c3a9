use mit_sprog::lexer::{Lexer, Token};

fn tokens(kilde: &str) -> Result<Vec<Token>, String> {
    let mut l = Lexer::ny(kilde);
    l.tokeniser()
}

fn tal(s: &str) -> Token {
    Token::TalLiteral(s.to_string())
}

fn navn(s: &str) -> Token {
    Token::Ident(s.to_string())
}

#[test]
fn lekser_erklaering() {
    assert_eq!(
        tokens("erklær alder som nummer = 16"),
        Ok(vec![Token::Erklaer, navn("alder"), Token::Som, Token::Nummer, Token::Ligmed, tal("16"), Token::FilSlut])
    );
}

#[test]
fn lekser_skriv_tekst() {
    assert_eq!(
        tokens("skriv \"hej verden\""),
        Ok(vec![Token::Skriv, Token::BogstavLiteral("hej verden".to_string()), Token::FilSlut])
    );
}

#[test]
fn lekser_noegleord() {
    assert_eq!(
        tokens("sæt vis hukommelse hvis så ellers slut gentag gange mens streng sandFalsk sand falsk"),
        Ok(vec![
            Token::Saet, Token::Vis, Token::Hukommelse, Token::Hvis, Token::Saa, Token::Ellers, Token::Slut,
            Token::Gentag, Token::Gange, Token::Mens, Token::Streng, Token::SandFalsk, Token::Sand, Token::Falsk,
            Token::FilSlut,
        ])
    );
}

#[test]
fn lekser_tegn() {
    assert_eq!(
        tokens("a == b <> c <= d >= e < f > g = h + i - j"),
        Ok(vec![
            navn("a"), Token::ErLig, navn("b"), Token::ErIkke, navn("c"), Token::MindreEllerLig, navn("d"),
            Token::StoerreEllerLig, navn("e"), Token::Mindre, navn("f"), Token::Stoerre, navn("g"), Token::Ligmed,
            navn("h"), Token::Plus, navn("i"), Token::Minus, navn("j"), Token::FilSlut,
        ])
    );
}

#[test]
fn lekser_tal_med_komma_og_navne_med_danske_bogstaver() {
    assert_eq!(
        tokens("3.14 _x1 ærø"),
        Ok(vec![tal("3.14"), navn("_x1"), navn("ærø"), Token::FilSlut])
    );
}

#[test]
fn lekser_kommentarlinje_giver_intet() {
    assert_eq!(tokens("# en kommentar\nskriv 1"), tokens("skriv 1"));
    assert_eq!(tokens("# en kommentar\nskriv 1"), Ok(vec![Token::Skriv, tal("1"), Token::FilSlut]));
}

#[test]
fn lekser_kommentar_efter_kode() {
    assert_eq!(
        tokens("skriv \"x\"   # kommentar\nskriv 2"),
        Ok(vec![
            Token::Skriv, Token::BogstavLiteral("x".to_string()), Token::Newline, Token::Skriv, tal("2"),
            Token::FilSlut,
        ])
    );
}

#[test]
fn lekser_tomme_linjer() {
    assert_eq!(
        tokens("\n\n  skriv 1\n\n \t\nskriv 2\n"),
        Ok(vec![Token::Skriv, tal("1"), Token::Newline, Token::Skriv, tal("2"), Token::Newline, Token::FilSlut])
    );
}

#[test]
fn lekser_tom_kilde() {
    assert_eq!(tokens(""), Ok(vec![Token::FilSlut]));
    assert_eq!(tokens("# kun en kommentar\n\n"), Ok(vec![Token::FilSlut]));
}

#[test]
fn lekser_manglende_anfoerselstegn() {
    assert_eq!(tokens("skriv \"hej"), Err("Linje 1: Tekst mangler afsluttende \"-tegn".to_string()));
    assert_eq!(tokens("skriv 1\nskriv \"hej\n\n"), Err("Linje 4: Tekst mangler afsluttende \"-tegn".to_string()));
}

#[test]
fn lekser_uventet_tegn() {
    assert_eq!(tokens("skriv @"), Err("Linje 1: Uventet tegn '@'".to_string()));
    assert_eq!(tokens("skriv 1\n\n# x\nskriv $"), Err("Linje 4: Uventet tegn '$'".to_string()));
}

#[test]
fn lekser_kommentarlinje_flytter_linjenumre() {
    assert_eq!(tokens("# kommentar\nskriv @"), Err("Linje 2: Uventet tegn '@'".to_string()));
}

#[test]
fn lekser_parenteser_komma_og_funktionsord() {
    assert_eq!(
        tokens("funktion f(a, b) giver nummer\nreturner a"),
        Ok(vec![
            Token::Funktion, navn("f"), Token::VenstreParentes, navn("a"), Token::Komma, navn("b"),
            Token::HoejreParentes, Token::Giver, Token::Nummer, Token::Newline, Token::Returner, navn("a"),
            Token::FilSlut,
        ])
    );
}

#[test]
fn lekser_linjetaeller_efter_tokenisering() {
    let kilde = "skriv 1\n\n# x\nskriv 2\n";
    let mut l = Lexer::ny(kilde);
    assert_eq!(l.linje, 1);
    assert!(l.tokeniser().is_ok());
    assert_eq!(l.linje, 1 + kilde.chars().filter(|c| *c == '\n').count());
    assert_eq!(l.position, kilde.chars().count());
}

#[test]
fn lekser_laeser_tegn_for_tegn() {
    let kilde = "a\nø";
    let mut l = Lexer::ny(kilde);
    assert_eq!(l.linje, 1);
    assert_eq!(l.kig(), Some('a'));
    assert_eq!(l.spis(), Some('a'));
    assert_eq!(l.spis(), Some('\n'));
    assert_eq!(l.linje, 2);
    assert_eq!(l.kig(), Some('ø'));
    assert_eq!(l.spis(), Some('ø'));
    assert_eq!(l.spis(), None);
    assert_eq!(l.spis(), None);
    assert_eq!(l.linje, 2);
    assert_eq!(l.position, 3);
}
