use mit_sprog::ast::{Operator, Saetning, Type, Udtryk};
use mit_sprog::kodegenerator::Kodegenerator;
use mit_sprog::program::indlaes;

/// The lines every generated program starts with.
fn indledning() -> String {
    vec![
        "#include <stdio.h>",
        "#include <string.h>",
        "#include <stdlib.h>",
        "#include <windows.h>",
        "static char* _ms_strjoin(const char* a, const char* b) {",
        "    size_t la = strlen(a), lb = strlen(b);",
        "    char* r = (char*)malloc(la + lb + 1);",
        "    memcpy(r, a, la); memcpy(r + la, b, lb + 1); return r;",
        "}",
        "static void _ms_skriv_tal(double x) {",
        "    char e[40], d[24], u[400];",
        "    int p, n, k, i, eks, neg;",
        "    if (x != x) { printf(\"NaN\\n\"); return; }",
        "    if (x - x != x - x) { printf(x > 0 ? \"inf\\n\" : \"-inf\\n\"); return; }",
        "    if (x > -1e15 && x < 1e15 && x == (double)(long long)x) { printf(\"%lld\\n\", (long long)x); return; }",
        "    for (p = 1; p <= 17; p++) { snprintf(e, sizeof e, \"%.*e\", p - 1, x); if (strtod(e, NULL) == x) break; }",
        "    neg = e[0] == '-'; n = 0;",
        "    for (k = neg; e[k] != 'e'; k++) if (e[k] != '.') d[n++] = e[k];",
        "    eks = atoi(e + k + 1); i = 0;",
        "    if (neg) u[i++] = '-';",
        "    if (eks < 0) {",
        "        u[i++] = '0'; u[i++] = '.';",
        "        for (k = 0; k < -eks - 1; k++) u[i++] = '0';",
        "        for (k = 0; k < n; k++) u[i++] = d[k];",
        "    } else {",
        "        for (k = 0; k <= eks || k < n; k++) { if (k == eks + 1) u[i++] = '.'; u[i++] = k < n ? d[k] : '0'; }",
        "    }",
        "    u[i] = 0; printf(\"%s\\n\", u);",
        "}",
    ]
    .join("\n")
}

fn generer(kilde: &str) -> String {
    let p = indlaes(kilde).ok().expect("kilden skal kunne læses");
    let tal: Vec<(String, String)> = p.tal.iter().map(|s| (s.clone(), format!("{}", s.parse::<f64>().unwrap_or(0.0)))).collect();
    Kodegenerator::ny().generer(&p.saetninger, &tal)
}

fn med_main(linjer: &[&str]) -> String {
    let mut s = indledning();
    s.push_str("\nint main(void) {\n    SetConsoleOutputCP(65001);");
    for l in linjer {
        s.push('\n');
        s.push_str(l);
    }
    s.push_str("\n    return 0;\n}");
    s
}

#[test]
fn kodegenerator_tomt_program() {
    assert_eq!(generer(""), med_main(&[]));
}

#[test]
fn kodegenerator_skriv_tekst() {
    assert_eq!(generer("skriv \"hej\""), med_main(&["    printf(\"%s\\n\", \"hej\");"]));
}

#[test]
fn kodegenerator_tekst_escapes() {
    assert_eq!(generer("skriv \"a\\b\""), med_main(&["    printf(\"%s\\n\", \"a\\\\b\");"]));
}

#[test]
fn kodegenerator_variabler_og_tal() {
    assert_eq!(
        generer("erklær a som nummer = 16.50\nsæt a = a + 1\nskriv a - 2"),
        med_main(&["    double a = 16.5;", "    a = (a + 1);", "    _ms_skriv_tal((a - 2));"])
    );
}

#[test]
fn kodegenerator_standardvaerdier() {
    assert_eq!(
        generer("erklær a som nummer\nerklær s som streng\nerklær b som sandFalsk\nskriv b\nskriv s"),
        med_main(&[
            "    double a = 0.0;",
            "    char* s = \"\";",
            "    int b = 0;",
            "    printf(\"%s\\n\", (b) ? \"sand\" : \"falsk\");",
            "    printf(\"%s\\n\", s);",
        ])
    );
}

#[test]
fn kodegenerator_sammenligning_og_tekster() {
    assert_eq!(
        generer("erklær s som streng = \"x\"\nskriv s + \"y\"\nskriv s == \"x\"\nskriv 1 < 2\nskriv sand"),
        med_main(&[
            "    char* s = \"x\";",
            "    printf(\"%s\\n\", _ms_strjoin(s, \"y\"));",
            "    printf(\"%s\\n\", ((strcmp(s, \"x\") == 0)) ? \"sand\" : \"falsk\");",
            "    printf(\"%s\\n\", ((1 < 2)) ? \"sand\" : \"falsk\");",
            "    printf(\"%s\\n\", (1) ? \"sand\" : \"falsk\");",
        ])
    );
}

#[test]
fn kodegenerator_kontrolstrukturer() {
    assert_eq!(
        generer("hvis sand så\nskriv 1\nellers\nskriv 2\nslut\ngentag 3 gange\nskriv 4\nslut\nmens falsk så\nvis hukommelse\nslut"),
        med_main(&[
            "    if (1) {",
            "    _ms_skriv_tal(1);",
            "    } else {",
            "    _ms_skriv_tal(2);",
            "    }",
            "    for (long long _i = 0; _i < (long long)(3); _i++) {",
            "    _ms_skriv_tal(4);",
            "    }",
            "    while (0) {",
            "    /* vis hukommelse: ikke tilgængeligt i kompileret tilstand */",
            "    }",
        ])
    );
}

#[test]
fn kodegenerator_funktioner() {
    let prog = vec![
        Saetning::Skriv(Udtryk::FunktionsKald { navn: "dobbelt".to_string(), argumenter: vec![Udtryk::Tal("2".to_string())] }),
        Saetning::FunktionDef {
            navn: "dobbelt".to_string(),
            parametre: vec![("n".to_string(), Type::Nummer), ("t".to_string(), Type::Streng)],
            returtype: Some(Type::Nummer),
            krop: vec![Saetning::Returner(Some(Udtryk::BinaerOp {
                venstre: Box::new(Udtryk::Variable("n".to_string())),
                operator: Operator::Plus,
                hoejre: Box::new(Udtryk::Variable("n".to_string())),
            }))],
        },
        Saetning::FunktionDef { navn: "tom".to_string(), parametre: vec![], returtype: None, krop: vec![Saetning::Returner(None)] },
    ];
    let forventet = format!(
        "{}\n{}\n{}\nint main(void) {{\n    SetConsoleOutputCP(65001);\n{}\n    return 0;\n}}",
        indledning(),
        "double dobbelt(double n, char* t) {\n    return (n + n);\n}",
        "void tom() {\n    return;\n}",
        "    _ms_skriv_tal(dobbelt(2));"
    );
    assert_eq!(Kodegenerator::ny().generer(&prog, &vec![]), forventet);
}

#[test]
fn kodegenerator_ukendt_tal_skrives_som_det_staar() {
    let prog = vec![Saetning::Skriv(Udtryk::Tal("007".to_string()))];
    assert_eq!(Kodegenerator::ny().generer(&prog, &vec![]), med_main(&["    _ms_skriv_tal(007);"]));
    assert_eq!(
        Kodegenerator::ny().generer(&prog, &vec![("007".to_string(), "7".to_string())]),
        med_main(&["    _ms_skriv_tal(7);"])
    );
}

#[test]
fn kodegenerator_funktioner_fra_kilde_og_negativt_tal() {
    assert_eq!(
        generer("funktion f(b som sandFalsk) giver sandFalsk\nreturner b == falsk\nslut\nerklær x som nummer = -2.50\nhvis f(x < 0) så\nskriv x\nslut"),
        format!(
            "{}\n{}\nint main(void) {{\n    SetConsoleOutputCP(65001);\n{}\n    return 0;\n}}",
            indledning(),
            "int f(int b) {\n    return (b == 0);\n}",
            "    double x = -2.5;\n    if (f((x < 0))) {\n    _ms_skriv_tal(x);\n    }"
        )
    );
}
