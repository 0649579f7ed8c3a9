use mit_sprog::lexer::Token;
use mit_sprog::parser::Syntaksfejl;
use mit_sprog::program::{indlaes, talliteraler_i, Indlaesningsfejl};

#[test]
fn indlaes_program_og_tal() {
    let p = indlaes("erklær a som nummer = 16.50\nskriv a + 1\nskriv \"2\"").ok().expect("programmet kan læses");
    assert_eq!(p.saetninger.len(), 3);
    assert_eq!(p.tal, vec!["16.50".to_string(), "1".to_string()]);
}

#[test]
fn indlaes_lekserfejl() {
    assert_eq!(indlaes("skriv @").err(), Some(Indlaesningsfejl::Lekser("Linje 1: Uventet tegn '@'".to_string())));
}

#[test]
fn indlaes_syntaksfejl() {
    assert_eq!(indlaes("skriv").err(), Some(Indlaesningsfejl::Syntaks(Syntaksfejl::ForventedeVaerdi(Token::FilSlut))));
}

#[test]
fn talliteraler_i_orden() {
    let tokens = vec![
        Token::TalLiteral("3".to_string()),
        Token::Plus,
        Token::Ident("x".to_string()),
        Token::TalLiteral("0.5".to_string()),
        Token::FilSlut,
    ];
    assert_eq!(talliteraler_i(&tokens), vec!["3".to_string(), "0.5".to_string()]);
}

#[test]
fn indlaes_negative_tal() {
    let p = indlaes("skriv 1 - -2.50").ok().expect("programmet kan læses");
    assert_eq!(p.tal, vec!["1".to_string(), "2.50".to_string(), "-2.50".to_string()]);
}
