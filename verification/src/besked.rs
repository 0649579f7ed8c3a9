//! The messages of syntax errors, with each token shown as the language's
//! messages show it.
use vstd::prelude::*;
use crate::evaluator::{tekst, tekster_v};
use crate::kodegenerator::{gengiv, gengiv_tal, tal_v};
use crate::lexer::{Token, TokenV};
use crate::parser::{Syntaksfejl, SyntaksfejlV};
use crate::tekst::{skub, tegn_af};
use vstd::string::StrSliceExecFns;

verus! {

/// A hexadecimal digit.
pub open spec fn hexciffer(d: nat) -> char {
    if d == 0 { '0' }
    else if d == 1 { '1' }
    else if d == 2 { '2' }
    else if d == 3 { '3' }
    else if d == 4 { '4' }
    else if d == 5 { '5' }
    else if d == 6 { '6' }
    else if d == 7 { '7' }
    else if d == 8 { '8' }
    else if d == 9 { '9' }
    else if d == 10 { 'a' }
    else if d == 11 { 'b' }
    else if d == 12 { 'c' }
    else if d == 13 { 'd' }
    else if d == 14 { 'e' }
    else { 'f' }
}

/// A number below 256 in hexadecimal, without leading zeros.
pub open spec fn hex(n: nat) -> Seq<char> {
    if n < 16 { seq![hexciffer(n)] } else { seq![hexciffer(n / 16), hexciffer(n % 16)] }
}

/// What std's `char::escape_debug` gives for a character (the name of its result).
pub uninterp spec fn debug_form(c: char) -> Seq<char>;

/// std's `char::escape_debug`, written out as a `String`: the contract names its
/// result and claims nothing more. Called only for characters beyond ASCII, where
/// it writes the character as `str`'s `{:?}` does (escaped as `\u{..}` where it
/// is not printable or extends a grapheme, else as it is).
#[verifier::external_body]
fn debug_form_af(c: char) -> (r: String)
    ensures
        r@ == debug_form(c),
{
    c.escape_debug().to_string()
}

/// A character inside a quoted text, as `str`'s `{:?}` writes it: `\`, `"`, tab,
/// carriage return, line break and NUL with a backslash, the other ASCII control
/// characters as `\u{..}` in hexadecimal, other ASCII characters as they are,
/// and characters beyond ASCII as `char::escape_debug` writes them.
pub open spec fn debug_tegn(c: char) -> Seq<char> {
    if c == '\\' {
        seq!['\\', '\\']
    } else if c == '"' {
        seq!['\\', '"']
    } else if c == '\t' {
        seq!['\\', 't']
    } else if c == '\r' {
        seq!['\\', 'r']
    } else if c == '\n' {
        seq!['\\', 'n']
    } else if c == '\0' {
        seq!['\\', '0']
    } else if ' ' > c || c == '\u{7f}' {
        seq!['\\', 'u', '{'] + hex(c as nat) + seq!['}']
    } else if '\u{80}' > c {
        seq![c]
    } else {
        debug_form(c)
    }
}

/// The characters of a text, each as `debug_tegn` writes it.
pub open spec fn debug_indhold(s: Seq<char>) -> Seq<char>
    decreases s.len(),
{
    if s.len() == 0 {
        Seq::empty()
    } else {
        debug_indhold(s.drop_last()) + debug_tegn(s.last())
    }
}

/// A text in quotes, as a message shows it.
pub open spec fn debug_tekst(s: Seq<char>) -> Seq<char> {
    "\""@ + debug_indhold(s) + "\""@
}

/// A token as a message shows it; a number literal as the caller's table gives
/// its number (by the literal's text).
pub open spec fn token_tekst(t: TokenV, tal: Seq<(Seq<char>, Seq<char>)>) -> Seq<char> {
    match t {
        TokenV::Skriv => "Skriv"@,
        TokenV::Erklaer => "Erklær"@,
        TokenV::Som => "Som"@,
        TokenV::Saet => "Sæt"@,
        TokenV::Vis => "Vis"@,
        TokenV::Hukommelse => "Hukommelse"@,
        TokenV::Hvis => "Hvis"@,
        TokenV::Saa => "Så"@,
        TokenV::Ellers => "Ellers"@,
        TokenV::Slut => "Slut"@,
        TokenV::Gentag => "Gentag"@,
        TokenV::Gange => "Gange"@,
        TokenV::Mens => "Mens"@,
        TokenV::Funktion => "Funktion"@,
        TokenV::Giver => "Giver"@,
        TokenV::Returner => "Returner"@,
        TokenV::Nummer => "Nummer"@,
        TokenV::Streng => "Streng"@,
        TokenV::SandFalsk => "SandFalsk"@,
        TokenV::Sand => "Sand"@,
        TokenV::Falsk => "Falsk"@,
        TokenV::Ligmed => "Ligmed"@,
        TokenV::Plus => "Plus"@,
        TokenV::Minus => "Minus"@,
        TokenV::ErLig => "ErLig"@,
        TokenV::ErIkke => "ErIkke"@,
        TokenV::Mindre => "Mindre"@,
        TokenV::Stoerre => "Større"@,
        TokenV::MindreEllerLig => "MindreEllerLig"@,
        TokenV::StoerreEllerLig => "StørreEllerLig"@,
        TokenV::VenstreParentes => "VenstreParentes"@,
        TokenV::HoejreParentes => "HoejreParentes"@,
        TokenV::Komma => "Komma"@,
        TokenV::Newline => "Newline"@,
        TokenV::FilSlut => "FilSlut"@,
        TokenV::TalLiteral(s) => "TalLiteral("@ + gengiv(tal, s) + ")"@,
        TokenV::BogstavLiteral(s) => "BogstavLiteral("@ + debug_tekst(s) + ")"@,
        TokenV::Ident(s) => "Ident("@ + debug_tekst(s) + ")"@,
    }
}

/// The message of a syntax error.
pub open spec fn syntaksbesked(e: SyntaksfejlV, tal: Seq<(Seq<char>, Seq<char>)>) -> Seq<char> {
    match e {
        SyntaksfejlV::Forventede { forventet, fandt } => "Forventede "@ + token_tekst(forventet, tal) + ", men fandt "@
            + token_tekst(fandt, tal),
        SyntaksfejlV::ForventedeNavn(t) => "Forventede et variabelnavn, men fandt "@ + token_tekst(t, tal),
        SyntaksfejlV::ForventedeType(t) => "Forventede en type (nummer/streng/sandFalsk), men fandt "@ + token_tekst(t, tal),
        SyntaksfejlV::UventetFilslut => "Uventet slutning af fil"@,
        SyntaksfejlV::UventetToken(t) => "Uventet token: "@ + token_tekst(t, tal),
        SyntaksfejlV::ForventedeLinjeskiftIBlok(t) => "Forventede linjeskift, men fandt "@ + token_tekst(t, tal),
        SyntaksfejlV::ForventedeVaerdi(t) => "Forventede en værdi, men fandt "@ + token_tekst(t, tal),
        SyntaksfejlV::ForventedeLinjeskift(t) => "Forventede linjeskift efter instruktion, men fandt "@ + token_tekst(t, tal),
    }
}

/// The text of a number literal token, if it is one.
pub open spec fn tal_tekst(t: TokenV) -> Seq<Seq<char>> {
    match t {
        TokenV::TalLiteral(s) => seq![s],
        _ => Seq::empty(),
    }
}

/// The texts of the number literals a syntax error shows, in order.
pub open spec fn fejl_tal(e: SyntaksfejlV) -> Seq<Seq<char>> {
    match e {
        SyntaksfejlV::Forventede { forventet, fandt } => tal_tekst(forventet) + tal_tekst(fandt),
        SyntaksfejlV::ForventedeNavn(t) => tal_tekst(t),
        SyntaksfejlV::ForventedeType(t) => tal_tekst(t),
        SyntaksfejlV::UventetFilslut => Seq::empty(),
        SyntaksfejlV::UventetToken(t) => tal_tekst(t),
        SyntaksfejlV::ForventedeLinjeskiftIBlok(t) => tal_tekst(t),
        SyntaksfejlV::ForventedeVaerdi(t) => tal_tekst(t),
        SyntaksfejlV::ForventedeLinjeskift(t) => tal_tekst(t),
    }
}

/// Appends the hexadecimal code of an ASCII control character.
fn skub_hex(r: &mut String, c: char)
    requires
        ' ' > c || c == '\u{7f}',
        c != '\0',
        c != '\t',
        c != '\n',
        c != '\r',
    ensures
        final(r)@ == old(r)@ + hex(c as nat),
{
    if c == '\u{1}' { skub(r, '1'); }
    else if c == '\u{2}' { skub(r, '2'); }
    else if c == '\u{3}' { skub(r, '3'); }
    else if c == '\u{4}' { skub(r, '4'); }
    else if c == '\u{5}' { skub(r, '5'); }
    else if c == '\u{6}' { skub(r, '6'); }
    else if c == '\u{7}' { skub(r, '7'); }
    else if c == '\u{8}' { skub(r, '8'); }
    else if c == '\u{b}' { skub(r, 'b'); }
    else if c == '\u{c}' { skub(r, 'c'); }
    else if c == '\u{e}' { skub(r, 'e'); }
    else if c == '\u{f}' { skub(r, 'f'); }
    else if c == '\u{10}' { skub(r, '1'); skub(r, '0'); }
    else if c == '\u{11}' { skub(r, '1'); skub(r, '1'); }
    else if c == '\u{12}' { skub(r, '1'); skub(r, '2'); }
    else if c == '\u{13}' { skub(r, '1'); skub(r, '3'); }
    else if c == '\u{14}' { skub(r, '1'); skub(r, '4'); }
    else if c == '\u{15}' { skub(r, '1'); skub(r, '5'); }
    else if c == '\u{16}' { skub(r, '1'); skub(r, '6'); }
    else if c == '\u{17}' { skub(r, '1'); skub(r, '7'); }
    else if c == '\u{18}' { skub(r, '1'); skub(r, '8'); }
    else if c == '\u{19}' { skub(r, '1'); skub(r, '9'); }
    else if c == '\u{1a}' { skub(r, '1'); skub(r, 'a'); }
    else if c == '\u{1b}' { skub(r, '1'); skub(r, 'b'); }
    else if c == '\u{1c}' { skub(r, '1'); skub(r, 'c'); }
    else if c == '\u{1d}' { skub(r, '1'); skub(r, 'd'); }
    else if c == '\u{1e}' { skub(r, '1'); skub(r, 'e'); }
    else if c == '\u{1f}' { skub(r, '1'); skub(r, 'f'); }
    else if c == '\u{7f}' { skub(r, '7'); skub(r, 'f'); }
    proof {
        assert(old(r)@ + hex(c as nat) =~= r@);
    }
}

/// A text in quotes, as a message shows it.
pub fn debug_tekst_af(s: &String) -> (r: String)
    ensures
        r@ == debug_tekst(s@),
{
    let v = tegn_af(s.as_str());
    let mut r = tekst("\"");
    let mut i: usize = 0;
    proof {
        reveal_strlit("\"");
        assert(v@.take(0) =~= Seq::<char>::empty());
    }
    while i < v.len()
        invariant
            i <= v@.len(),
            v@ == s@,
            r@ == "\""@ + debug_indhold(v@.take(i as int)),
        decreases v.len() - i,
    {
        let c = v[i];
        let ghost r0 = r@;
        if c == '\\' {
            skub(&mut r, '\\');
            skub(&mut r, '\\');
        } else if c == '"' {
            skub(&mut r, '\\');
            skub(&mut r, '"');
        } else if c == '\t' {
            skub(&mut r, '\\');
            skub(&mut r, 't');
        } else if c == '\r' {
            skub(&mut r, '\\');
            skub(&mut r, 'r');
        } else if c == '\n' {
            skub(&mut r, '\\');
            skub(&mut r, 'n');
        } else if c == '\0' {
            skub(&mut r, '\\');
            skub(&mut r, '0');
        } else if ' ' > c || c == '\u{7f}' {
            skub(&mut r, '\\');
            skub(&mut r, 'u');
            skub(&mut r, '{');
            skub_hex(&mut r, c);
            skub(&mut r, '}');
        } else if '\u{80}' > c {
            skub(&mut r, c);
        } else {
            r.append(debug_form_af(c).as_str());
        }
        proof {
            assert(v@.take(i + 1).drop_last() =~= v@.take(i as int));
            assert(v@.take(i + 1).last() == c);
            assert(r@ =~= r0 + debug_tegn(c));
        }
        i = i + 1;
    }
    proof {
        assert(v@.take(i as int) =~= s@);
    }
    skub(&mut r, '"');
    proof {
        assert(r@ =~= debug_tekst(s@));
    }
    r
}

/// A token as a message shows it; `tal` gives the text of each number
/// literal's number.
pub fn token_tekst_af(t: &Token, tal: &Vec<(String, String)>) -> (r: String)
    ensures
        r@ == token_tekst(t@, tal_v(tal@)),
{
    match t {
            Token::Skriv => tekst("Skriv"),
            Token::Erklaer => tekst("Erklær"),
            Token::Som => tekst("Som"),
            Token::Saet => tekst("Sæt"),
            Token::Vis => tekst("Vis"),
            Token::Hukommelse => tekst("Hukommelse"),
            Token::Hvis => tekst("Hvis"),
            Token::Saa => tekst("Så"),
            Token::Ellers => tekst("Ellers"),
            Token::Slut => tekst("Slut"),
            Token::Gentag => tekst("Gentag"),
            Token::Gange => tekst("Gange"),
            Token::Mens => tekst("Mens"),
            Token::Funktion => tekst("Funktion"),
            Token::Giver => tekst("Giver"),
            Token::Returner => tekst("Returner"),
            Token::Nummer => tekst("Nummer"),
            Token::Streng => tekst("Streng"),
            Token::SandFalsk => tekst("SandFalsk"),
            Token::Sand => tekst("Sand"),
            Token::Falsk => tekst("Falsk"),
            Token::Ligmed => tekst("Ligmed"),
            Token::Plus => tekst("Plus"),
            Token::Minus => tekst("Minus"),
            Token::ErLig => tekst("ErLig"),
            Token::ErIkke => tekst("ErIkke"),
            Token::Mindre => tekst("Mindre"),
            Token::Stoerre => tekst("Større"),
            Token::MindreEllerLig => tekst("MindreEllerLig"),
            Token::StoerreEllerLig => tekst("StørreEllerLig"),
            Token::VenstreParentes => tekst("VenstreParentes"),
            Token::HoejreParentes => tekst("HoejreParentes"),
            Token::Komma => tekst("Komma"),
            Token::Newline => tekst("Newline"),
            Token::FilSlut => tekst("FilSlut"),
            Token::TalLiteral(s) => {
                let mut r = tekst("TalLiteral(");
                r.append(gengiv_tal(tal, s).as_str());
                r.append(")");
                r
            },
            Token::BogstavLiteral(s) => {
                let mut r = tekst("BogstavLiteral(");
                r.append(debug_tekst_af(s).as_str());
                r.append(")");
                r
            },
            Token::Ident(s) => {
                let mut r = tekst("Ident(");
                r.append(debug_tekst_af(s).as_str());
                r.append(")");
                r
            },
    }
}

fn foran(a: &str, t: &Token, tal: &Vec<(String, String)>) -> (r: String)
    ensures
        r@ == a@ + token_tekst(t@, tal_v(tal@)),
{
    let mut r = tekst(a);
    r.append(token_tekst_af(t, tal).as_str());
    r
}

fn tal_af_token(t: &Token, v: &mut Vec<String>)
    ensures
        tekster_v(final(v)@) == tekster_v(old(v)@) + tal_tekst(t@),
{
    if let Token::TalLiteral(s) = t {
        v.push(s.clone());
        assert(tekster_v(v@) =~= tekster_v(old(v)@) + tal_tekst(t@));
    } else {
        assert(tekster_v(v@) =~= tekster_v(old(v)@) + tal_tekst(t@));
    }
}

impl Syntaksfejl {
    /// The message of the error; `tal` gives the text of each number literal's
    /// number (see `tal`).
    pub fn besked(&self, tal: &Vec<(String, String)>) -> (r: String)
        ensures
            r@ == syntaksbesked(self@, tal_v(tal@)),
    {
        match self {
            Syntaksfejl::Forventede { forventet, fandt } => {
                let mut r = foran("Forventede ", forventet, tal);
                r.append(foran(", men fandt ", fandt, tal).as_str());
                r
            },
            Syntaksfejl::ForventedeNavn(t) => foran("Forventede et variabelnavn, men fandt ", t, tal),
            Syntaksfejl::ForventedeType(t) => foran("Forventede en type (nummer/streng/sandFalsk), men fandt ", t, tal),
            Syntaksfejl::UventetFilslut => tekst("Uventet slutning af fil"),
            Syntaksfejl::UventetToken(t) => foran("Uventet token: ", t, tal),
            Syntaksfejl::ForventedeLinjeskiftIBlok(t) => foran("Forventede linjeskift, men fandt ", t, tal),
            Syntaksfejl::ForventedeVaerdi(t) => foran("Forventede en værdi, men fandt ", t, tal),
            Syntaksfejl::ForventedeLinjeskift(t) => foran("Forventede linjeskift efter instruktion, men fandt ", t, tal),
        }
    }

    /// The texts of the number literals the error shows, in order: the texts
    /// whose numbers `besked` needs.
    pub fn tal(&self) -> (r: Vec<String>)
        ensures
            tekster_v(r@) == fejl_tal(self@),
    {
        let mut v: Vec<String> = Vec::new();
        assert(tekster_v(v@) =~= Seq::<Seq<char>>::empty());
        match self {
            Syntaksfejl::Forventede { forventet, fandt } => {
                tal_af_token(forventet, &mut v);
                tal_af_token(fandt, &mut v);
                assert(tekster_v(v@) =~= tal_tekst(forventet@) + tal_tekst(fandt@));
            },
            Syntaksfejl::ForventedeNavn(t) | Syntaksfejl::ForventedeType(t) | Syntaksfejl::UventetToken(t)
            | Syntaksfejl::ForventedeLinjeskiftIBlok(t) | Syntaksfejl::ForventedeVaerdi(t)
            | Syntaksfejl::ForventedeLinjeskift(t) => {
                tal_af_token(t, &mut v);
                assert(tekster_v(v@) =~= tal_tekst(t@));
            },
            Syntaksfejl::UventetFilslut => {},
        }
        v
    }
}

} // verus!
