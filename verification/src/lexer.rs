//! The lexer: turns source text into tokens, character by character.
use vstd::prelude::*;
use crate::tekst::{decimal, skub, skriv_decimal, tegn_af};
use crate::evaluator::tekst;

verus! {

/// Tokens: the smallest meaningful units of the language.
/// A number literal keeps the text it was written with.
#[derive(Debug, PartialEq)]
pub enum Token {
    // Keywords
    Skriv,
    Erklaer,
    Som,
    Saet,
    Vis,
    Hukommelse,
    Hvis,
    Saa,
    Ellers,
    Slut,
    Gentag,
    Gange,
    Mens,
    Funktion,
    Giver,
    Returner,
    // Type names
    Nummer,
    Streng,
    SandFalsk,
    // Literals
    TalLiteral(String),
    BogstavLiteral(String),
    Sand,
    Falsk,
    /// An identifier (a variable name)
    Ident(String),
    // Signs
    /// `=`
    Ligmed,
    /// `+`
    Plus,
    /// `-`
    Minus,
    /// `==`
    ErLig,
    /// `<>`
    ErIkke,
    /// `<`
    Mindre,
    /// `>`
    Stoerre,
    /// `<=`
    MindreEllerLig,
    /// `>=`
    StoerreEllerLig,
    /// `(`
    VenstreParentes,
    /// `)`
    HoejreParentes,
    /// `,`
    Komma,
    /// A line break: ends an instruction
    Newline,
    /// The end of the file
    FilSlut,
}

/// The mathematical value of a token.
pub enum TokenV {
    Skriv,
    Erklaer,
    Som,
    Saet,
    Vis,
    Hukommelse,
    Hvis,
    Saa,
    Ellers,
    Slut,
    Gentag,
    Gange,
    Mens,
    Funktion,
    Giver,
    Returner,
    Nummer,
    Streng,
    SandFalsk,
    TalLiteral(Seq<char>),
    BogstavLiteral(Seq<char>),
    Sand,
    Falsk,
    Ident(Seq<char>),
    Ligmed,
    Plus,
    Minus,
    ErLig,
    ErIkke,
    Mindre,
    Stoerre,
    MindreEllerLig,
    StoerreEllerLig,
    VenstreParentes,
    HoejreParentes,
    Komma,
    Newline,
    FilSlut,
}

impl View for Token {
    type V = TokenV;

    open spec fn view(&self) -> TokenV {
        match self {
            Token::Skriv => TokenV::Skriv,
            Token::Erklaer => TokenV::Erklaer,
            Token::Som => TokenV::Som,
            Token::Saet => TokenV::Saet,
            Token::Vis => TokenV::Vis,
            Token::Hukommelse => TokenV::Hukommelse,
            Token::Hvis => TokenV::Hvis,
            Token::Saa => TokenV::Saa,
            Token::Ellers => TokenV::Ellers,
            Token::Slut => TokenV::Slut,
            Token::Gentag => TokenV::Gentag,
            Token::Gange => TokenV::Gange,
            Token::Mens => TokenV::Mens,
            Token::Funktion => TokenV::Funktion,
            Token::Giver => TokenV::Giver,
            Token::Returner => TokenV::Returner,
            Token::Nummer => TokenV::Nummer,
            Token::Streng => TokenV::Streng,
            Token::SandFalsk => TokenV::SandFalsk,
            Token::TalLiteral(s) => TokenV::TalLiteral(s@),
            Token::BogstavLiteral(s) => TokenV::BogstavLiteral(s@),
            Token::Sand => TokenV::Sand,
            Token::Falsk => TokenV::Falsk,
            Token::Ident(s) => TokenV::Ident(s@),
            Token::Ligmed => TokenV::Ligmed,
            Token::Plus => TokenV::Plus,
            Token::Minus => TokenV::Minus,
            Token::ErLig => TokenV::ErLig,
            Token::ErIkke => TokenV::ErIkke,
            Token::Mindre => TokenV::Mindre,
            Token::Stoerre => TokenV::Stoerre,
            Token::MindreEllerLig => TokenV::MindreEllerLig,
            Token::StoerreEllerLig => TokenV::StoerreEllerLig,
            Token::VenstreParentes => TokenV::VenstreParentes,
            Token::HoejreParentes => TokenV::HoejreParentes,
            Token::Komma => TokenV::Komma,
            Token::Newline => TokenV::Newline,
            Token::FilSlut => TokenV::FilSlut,
        }
    }
}

impl Token {
    /// A copy of the token.
    pub fn kopi(&self) -> (r: Token)
        ensures
            r@ == self@,
    {
        match self {
            Token::Skriv => Token::Skriv,
            Token::Erklaer => Token::Erklaer,
            Token::Som => Token::Som,
            Token::Saet => Token::Saet,
            Token::Vis => Token::Vis,
            Token::Hukommelse => Token::Hukommelse,
            Token::Hvis => Token::Hvis,
            Token::Saa => Token::Saa,
            Token::Ellers => Token::Ellers,
            Token::Slut => Token::Slut,
            Token::Gentag => Token::Gentag,
            Token::Gange => Token::Gange,
            Token::Mens => Token::Mens,
            Token::Funktion => Token::Funktion,
            Token::Giver => Token::Giver,
            Token::Returner => Token::Returner,
            Token::Nummer => Token::Nummer,
            Token::Streng => Token::Streng,
            Token::SandFalsk => Token::SandFalsk,
            Token::TalLiteral(s) => Token::TalLiteral(s.clone()),
            Token::BogstavLiteral(s) => Token::BogstavLiteral(s.clone()),
            Token::Sand => Token::Sand,
            Token::Falsk => Token::Falsk,
            Token::Ident(s) => Token::Ident(s.clone()),
            Token::Ligmed => Token::Ligmed,
            Token::Plus => Token::Plus,
            Token::Minus => Token::Minus,
            Token::ErLig => Token::ErLig,
            Token::ErIkke => Token::ErIkke,
            Token::Mindre => Token::Mindre,
            Token::Stoerre => Token::Stoerre,
            Token::MindreEllerLig => Token::MindreEllerLig,
            Token::StoerreEllerLig => Token::StoerreEllerLig,
            Token::VenstreParentes => Token::VenstreParentes,
            Token::HoejreParentes => Token::HoejreParentes,
            Token::Komma => Token::Komma,
            Token::Newline => Token::Newline,
            Token::FilSlut => Token::FilSlut,
        }
    }
}

/// Whether a character is alphabetic (the Unicode `Alphabetic` property), as std's
/// `char::is_alphabetic` decides it.
pub uninterp spec fn er_bogstav(c: char) -> bool;

/// Whether a character is numeric (a Unicode number category), as std's
/// `char::is_numeric` decides it.
pub uninterp spec fn er_numerisk(c: char) -> bool;

/// std's `char::is_alphabetic`: the contract names its result, and states that
/// among ASCII characters exactly the letters a-z and A-Z are alphabetic.
#[verifier::external_body]
pub(crate) fn bogstav(c: char) -> (r: bool)
    ensures
        r == er_bogstav(c),
        (c as nat) < 128 ==> (r == (('a' <= c && c <= 'z') || ('A' <= c && c <= 'Z'))),
{
    c.is_alphabetic()
}

/// std's `char::is_alphanumeric`, which its documentation defines as
/// `is_alphabetic() || is_numeric()`; the contract states that, and that among
/// ASCII characters exactly the letters and the digits 0-9 are alphanumeric.
#[verifier::external_body]
pub(crate) fn bogstav_eller_tal(c: char) -> (r: bool)
    ensures
        r == (er_bogstav(c) || er_numerisk(c)),
        (c as nat) < 128 ==> (r == (('a' <= c && c <= 'z') || ('A' <= c && c <= 'Z') || ('0' <= c && c <= '9'))),
{
    c.is_alphanumeric()
}

pub open spec fn er_ciffer(c: char) -> bool {
    '0' <= c && c <= '9'
}

pub open spec fn er_vandret(c: char) -> bool {
    c == ' ' || c == '\t' || c == '\r'
}

pub open spec fn er_ordtegn(c: char) -> bool {
    er_bogstav(c) || er_numerisk(c) || c == '_'
}

pub open spec fn er_taltegn(c: char) -> bool {
    er_ciffer(c) || c == '.'
}

/// The number of line breaks in a text.
pub open spec fn antal_linjeskift(s: Seq<char>) -> nat
    decreases s.len(),
{
    if s.len() == 0 {
        0
    } else {
        antal_linjeskift(s.drop_last()) + if s.last() == '\n' { 1nat } else { 0nat }
    }
}

/// The number of line breaks between two positions.
pub open spec fn skift_mellem(k: Seq<char>, a: nat, b: nat) -> nat {
    antal_linjeskift(k.subrange(a as int, b as int))
}

pub proof fn lemma_skift_et(k: Seq<char>, a: nat, b: nat)
    requires
        a <= b < k.len(),
    ensures
        skift_mellem(k, a, b + 1) == skift_mellem(k, a, b) + if k[b as int] == '\n' { 1nat } else { 0nat },
{
    assert(k.subrange(a as int, b + 1 as int).drop_last() =~= k.subrange(a as int, b as int));
}

pub proof fn lemma_skift_del(k: Seq<char>, a: nat, b: nat, c: nat)
    requires
        a <= b <= c <= k.len(),
    ensures
        skift_mellem(k, a, c) == skift_mellem(k, a, b) + skift_mellem(k, b, c),
    decreases c - b,
{
    if c > b {
        lemma_skift_del(k, a, b, (c - 1) as nat);
        lemma_skift_et(k, a, (c - 1) as nat);
        lemma_skift_et(k, b, (c - 1) as nat);
    } else {
        assert(k.subrange(b as int, c as int) =~= Seq::<char>::empty());
    }
}

pub proof fn lemma_skift_hoejst(k: Seq<char>, a: nat, b: nat)
    requires
        a <= b <= k.len(),
    ensures
        skift_mellem(k, a, b) <= b - a,
    decreases b - a,
{
    if b > a {
        lemma_skift_hoejst(k, a, (b - 1) as nat);
        lemma_skift_et(k, a, (b - 1) as nat);
    } else {
        assert(k.subrange(a as int, b as int) =~= Seq::<char>::empty());
    }
}

/// The position after spaces, tabs and carriage returns from `p`.
pub open spec fn vandret(k: Seq<char>, p: nat) -> nat
    decreases k.len() - p,
{
    if p < k.len() && er_vandret(k[p as int]) {
        vandret(k, p + 1)
    } else {
        p
    }
}

/// The position after the rest of the line from `p`, its line break included.
pub open spec fn til_linjeslut(k: Seq<char>, p: nat) -> nat
    decreases k.len() - p,
{
    if p >= k.len() {
        p
    } else if k[p as int] == '\n' {
        p + 1
    } else {
        til_linjeslut(k, p + 1)
    }
}

pub proof fn lemma_vandret(k: Seq<char>, p: nat)
    ensures
        p <= k.len() ==> p <= vandret(k, p) <= k.len(),
        p > k.len() ==> vandret(k, p) == p,
        forall|i: int| p <= i < vandret(k, p) ==> er_vandret(#[trigger] k[i]),
        vandret(k, p) < k.len() ==> !er_vandret(k[vandret(k, p) as int]),
    decreases k.len() - p,
{
    if p < k.len() && er_vandret(k[p as int]) {
        lemma_vandret(k, p + 1);
    }
}

pub proof fn lemma_til_linjeslut(k: Seq<char>, p: nat)
    ensures
        p < k.len() ==> p < til_linjeslut(k, p) <= k.len(),
        p >= k.len() ==> til_linjeslut(k, p) == p,
    decreases k.len() - p,
{
    if p < k.len() && k[p as int] != '\n' {
        lemma_til_linjeslut(k, p + 1);
    }
}

/// The position after blank lines and comment lines from `p` (and the spaces
/// before the next instruction).
pub open spec fn tomme_linjer(k: Seq<char>, p: nat) -> nat
    decreases k.len() - p,
{
    let q = vandret(k, p);
    if p > k.len() {
        p
    } else if q < k.len() && k[q as int] == '#' {
        proof {
            lemma_vandret(k, p);
            lemma_til_linjeslut(k, q);
        }
        tomme_linjer(k, til_linjeslut(k, q))
    } else if q < k.len() && k[q as int] == '\n' {
        proof {
            lemma_vandret(k, p);
        }
        tomme_linjer(k, q + 1)
    } else {
        q
    }
}

pub proof fn lemma_tomme_linjer(k: Seq<char>, p: nat)
    ensures
        p <= k.len() ==> p <= tomme_linjer(k, p) <= k.len(),
    decreases k.len() - p,
{
    let q = vandret(k, p);
    lemma_vandret(k, p);
    if p > k.len() {
    } else if q < k.len() && k[q as int] == '#' {
        lemma_til_linjeslut(k, q);
        lemma_tomme_linjer(k, til_linjeslut(k, q));
    } else if q < k.len() && k[q as int] == '\n' {
        lemma_tomme_linjer(k, q + 1);
    }
}

/// The position of the first `"` from `p`, if there is one.
pub open spec fn tekst_slut(k: Seq<char>, p: nat) -> Option<nat>
    decreases k.len() - p,
{
    if p >= k.len() {
        None
    } else if k[p as int] == '"' {
        Some(p)
    } else {
        tekst_slut(k, p + 1)
    }
}

/// The position after the word characters from `p`.
pub open spec fn ord_slut(k: Seq<char>, p: nat) -> nat
    decreases k.len() - p,
{
    if p < k.len() && er_ordtegn(k[p as int]) {
        ord_slut(k, p + 1)
    } else {
        p
    }
}

/// The position after the digits and dots from `p`.
pub open spec fn tal_slut(k: Seq<char>, p: nat) -> nat
    decreases k.len() - p,
{
    if p < k.len() && er_taltegn(k[p as int]) {
        tal_slut(k, p + 1)
    } else {
        p
    }
}

pub proof fn lemma_tekst_slut(k: Seq<char>, p: nat)
    ensures
        tekst_slut(k, p) matches Some(e) ==> p <= e < k.len() && k[e as int] == '"'
            && forall|i: int| p <= i < e ==> #[trigger] k[i] != '"',
        tekst_slut(k, p) is None ==> forall|i: int| p <= i < k.len() ==> #[trigger] k[i] != '"',
    decreases k.len() - p,
{
    if p < k.len() && k[p as int] != '"' {
        lemma_tekst_slut(k, p + 1);
    }
}

pub proof fn lemma_ord_slut(k: Seq<char>, p: nat)
    ensures
        p <= k.len() ==> p <= ord_slut(k, p) <= k.len(),
        forall|i: int| p <= i < ord_slut(k, p) ==> er_ordtegn(#[trigger] k[i]),
        ord_slut(k, p) < k.len() ==> !er_ordtegn(k[ord_slut(k, p) as int]),
        p > k.len() ==> ord_slut(k, p) == p,
    decreases k.len() - p,
{
    if p < k.len() && er_ordtegn(k[p as int]) {
        lemma_ord_slut(k, p + 1);
    }
}

pub proof fn lemma_tal_slut(k: Seq<char>, p: nat)
    ensures
        p <= k.len() ==> p <= tal_slut(k, p) <= k.len(),
        forall|i: int| p <= i < tal_slut(k, p) ==> er_taltegn(#[trigger] k[i]),
        tal_slut(k, p) < k.len() ==> !er_taltegn(k[tal_slut(k, p) as int]),
        p > k.len() ==> tal_slut(k, p) == p,
    decreases k.len() - p,
{
    if p < k.len() && er_taltegn(k[p as int]) {
        lemma_tal_slut(k, p + 1);
    }
}

/// The token a word stands for: a keyword, or else a name.
pub open spec fn ord_token(w: Seq<char>) -> TokenV {
    if w == "skriv"@ { TokenV::Skriv }
    else if w == "erklær"@ { TokenV::Erklaer }
    else if w == "som"@ { TokenV::Som }
    else if w == "sæt"@ { TokenV::Saet }
    else if w == "vis"@ { TokenV::Vis }
    else if w == "hukommelse"@ { TokenV::Hukommelse }
    else if w == "hvis"@ { TokenV::Hvis }
    else if w == "så"@ { TokenV::Saa }
    else if w == "ellers"@ { TokenV::Ellers }
    else if w == "slut"@ { TokenV::Slut }
    else if w == "gentag"@ { TokenV::Gentag }
    else if w == "gange"@ { TokenV::Gange }
    else if w == "mens"@ { TokenV::Mens }
    else if w == "funktion"@ { TokenV::Funktion }
    else if w == "giver"@ { TokenV::Giver }
    else if w == "returner"@ { TokenV::Returner }
    else if w == "nummer"@ { TokenV::Nummer }
    else if w == "streng"@ { TokenV::Streng }
    else if w == "sandFalsk"@ { TokenV::SandFalsk }
    else if w == "sand"@ { TokenV::Sand }
    else if w == "falsk"@ { TokenV::Falsk }
    else { TokenV::Ident(w) }
}

pub open spec fn foran(t: TokenV, r: Result<Seq<TokenV>, Seq<char>>) -> Result<Seq<TokenV>, Seq<char>> {
    match r {
        Ok(s) => Ok(seq![t] + s),
        Err(e) => Err(e),
    }
}

/// The token that starts at position `q` (which holds neither a comment sign nor
/// a line break), with the position after it; `l` is the line `q` lies on.
pub open spec fn et_token(k: Seq<char>, q: nat, l: nat) -> Result<(TokenV, nat), Seq<char>> {
    let c = k[q as int];
    if c == '=' {
        if q + 1 < k.len() && k[q + 1 as int] == '=' { Ok((TokenV::ErLig, q + 2)) } else { Ok((TokenV::Ligmed, q + 1)) }
    } else if c == '<' {
        if q + 1 < k.len() && k[q + 1 as int] == '=' {
            Ok((TokenV::MindreEllerLig, q + 2))
        } else if q + 1 < k.len() && k[q + 1 as int] == '>' {
            Ok((TokenV::ErIkke, q + 2))
        } else {
            Ok((TokenV::Mindre, q + 1))
        }
    } else if c == '>' {
        if q + 1 < k.len() && k[q + 1 as int] == '=' { Ok((TokenV::StoerreEllerLig, q + 2)) } else { Ok((TokenV::Stoerre, q + 1)) }
    } else if c == '+' {
        Ok((TokenV::Plus, q + 1))
    } else if c == '-' {
        Ok((TokenV::Minus, q + 1))
    } else if c == '(' {
        Ok((TokenV::VenstreParentes, q + 1))
    } else if c == ')' {
        Ok((TokenV::HoejreParentes, q + 1))
    } else if c == ',' {
        Ok((TokenV::Komma, q + 1))
    } else if c == '"' {
        match tekst_slut(k, q + 1) {
            Some(e) => Ok((TokenV::BogstavLiteral(k.subrange(q + 1 as int, e as int)), e + 1)),
            None => Err("Linje "@ + decimal(l + skift_mellem(k, q, k.len())) + ": Tekst mangler afsluttende \"-tegn"@),
        }
    } else if er_ciffer(c) {
        Ok((TokenV::TalLiteral(k.subrange(q as int, tal_slut(k, q) as int)), tal_slut(k, q)))
    } else if er_bogstav(c) || c == '_' {
        Ok((ord_token(k.subrange(q as int, ord_slut(k, q) as int)), ord_slut(k, q)))
    } else {
        Err("Linje "@ + decimal(l) + ": Uventet tegn '"@ + seq![c] + "'"@)
    }
}

pub proof fn lemma_et_token(k: Seq<char>, q: nat, l: nat)
    requires
        q < k.len(),
    ensures
        et_token(k, q, l) matches Ok((_, e)) ==> q < e <= k.len(),
{
    lemma_tekst_slut(k, q + 1);
    lemma_tal_slut(k, q);
    lemma_ord_slut(k, q);
}

/// The tokens from position `p` on, where `p` is where an instruction may start
/// and `l` is the number of the line `p` lies on.
pub open spec fn tokens_fra(k: Seq<char>, p: nat, l: nat) -> Result<Seq<TokenV>, Seq<char>>
    decreases k.len() - p,
{
    let q = vandret(k, p);
    if p > k.len() || q >= k.len() {
        Ok(seq![TokenV::FilSlut])
    } else {
        proof {
            lemma_vandret(k, p);
        }
        let c = k[q as int];
        if c == '#' {
            proof {
                lemma_til_linjeslut(k, q);
                lemma_tomme_linjer(k, til_linjeslut(k, q));
            }
            foran(TokenV::Newline, tokens_fra(k, tomme_linjer(k, til_linjeslut(k, q)), l + skift_mellem(k, p, tomme_linjer(k, til_linjeslut(k, q)))))
        } else if c == '\n' {
            proof {
                lemma_tomme_linjer(k, q + 1);
            }
            foran(TokenV::Newline, tokens_fra(k, tomme_linjer(k, q + 1), l + skift_mellem(k, p, tomme_linjer(k, q + 1))))
        } else {
            proof {
                lemma_et_token(k, q, l + skift_mellem(k, p, q));
            }
            match et_token(k, q, l + skift_mellem(k, p, q)) {
                Ok((t, e)) => foran(t, tokens_fra(k, e, l + skift_mellem(k, p, e))),
                Err(m) => Err(m),
            }
        }
    }
}

/// The tokens of a source text, or the message of the first error.
pub open spec fn tokeniser(k: Seq<char>) -> Result<Seq<TokenV>, Seq<char>> {
    tokens_fra_linje(k, 0, 1)
}

/// The tokens from a lexer that stands at position `p` on line `l`.
pub open spec fn tokens_fra_linje(k: Seq<char>, p: nat, l: nat) -> Result<Seq<TokenV>, Seq<char>> {
    let q = tomme_linjer(k, p);
    tokens_fra(k, q, l + skift_mellem(k, p, q))
}

pub open spec fn alle_foran(acc: Seq<TokenV>, r: Result<Seq<TokenV>, Seq<char>>) -> Result<Seq<TokenV>, Seq<char>> {
    match r {
        Ok(s) => Ok(acc + s),
        Err(e) => Err(e),
    }
}

pub open spec fn tokens_v(v: Seq<Token>) -> Seq<TokenV> {
    v.map_values(|t: Token| t@)
}

proof fn lemma_alle_foran(acc: Seq<TokenV>, t: TokenV, x: Result<Seq<TokenV>, Seq<char>>)
    ensures
        alle_foran(acc, foran(t, x)) == alle_foran(acc.push(t), x),
{
    if let Ok(s) = x {
        assert(acc + (seq![t] + s) =~= acc.push(t) + s);
    }
}

/// The token a word stands for.
fn ord_til_token(ord: String) -> (t: Token)
    ensures
        t@ == ord_token(ord@),
{
    if ord == tekst("skriv") { Token::Skriv }
    else if ord == tekst("erklær") { Token::Erklaer }
    else if ord == tekst("som") { Token::Som }
    else if ord == tekst("sæt") { Token::Saet }
    else if ord == tekst("vis") { Token::Vis }
    else if ord == tekst("hukommelse") { Token::Hukommelse }
    else if ord == tekst("hvis") { Token::Hvis }
    else if ord == tekst("så") { Token::Saa }
    else if ord == tekst("ellers") { Token::Ellers }
    else if ord == tekst("slut") { Token::Slut }
    else if ord == tekst("gentag") { Token::Gentag }
    else if ord == tekst("gange") { Token::Gange }
    else if ord == tekst("mens") { Token::Mens }
    else if ord == tekst("funktion") { Token::Funktion }
    else if ord == tekst("giver") { Token::Giver }
    else if ord == tekst("returner") { Token::Returner }
    else if ord == tekst("nummer") { Token::Nummer }
    else if ord == tekst("streng") { Token::Streng }
    else if ord == tekst("sandFalsk") { Token::SandFalsk }
    else if ord == tekst("sand") { Token::Sand }
    else if ord == tekst("falsk") { Token::Falsk }
    else { Token::Ident(ord) }
}

/// The lexer: turns source code into a list of tokens.
pub struct Lexer {
    /// The characters of the source text
    pub kilde: Vec<char>,
    /// How many characters the lexer has read
    pub position: usize,
    /// The line the lexer has reached, counting from 1
    pub linje: usize,
}

impl Lexer {
    /// The source text.
    pub open spec fn kilde_v(&self) -> Seq<char> {
        self.kilde@
    }

    /// The line the lexer has reached.
    pub open spec fn paa_linje(&self) -> nat {
        self.linje as nat
    }

    /// How far the lexer has read.
    pub open spec fn pos(&self) -> nat {
        self.position as nat
    }

    /// The lexer stands within its text, and counting the remaining line breaks
    /// cannot go past the largest `usize`.
    pub open spec fn gyldig(&self) -> bool {
        &&& self.position <= self.kilde@.len()
        &&& self.linje + skift_mellem(self.kilde@, self.position as nat, self.kilde@.len()) <= usize::MAX
    }

    /// A lexer at the start of a source text, on line 1.
    pub fn ny(kilde: &str) -> (l: Lexer)
        requires
            kilde@.len() < usize::MAX,
        ensures
            l.kilde_v() == kilde@,
            l.pos() == 0,
            l.paa_linje() == 1,
            l.linje == 1,
            l.gyldig(),
    {
        let l = Lexer { kilde: tegn_af(kilde), position: 0, linje: 1 };
        proof {
            lemma_skift_hoejst(kilde@, 0, kilde@.len());
        }
        l
    }

    /// The character at the lexer's position, if any.
    pub fn kig(&self) -> (r: Option<char>)
        ensures
            r == if self.position < self.kilde@.len() { Some(self.kilde@[self.position as int]) } else { None },
    {
        if self.position < self.kilde.len() {
            Some(self.kilde[self.position])
        } else {
            None
        }
    }

    /// Reads the character at the lexer's position, if any, and moves past it;
    /// a line break moves the lexer to the next line.
    pub fn spis(&mut self) -> (r: Option<char>)
        requires
            old(self).gyldig(),
        ensures
            old(self).position < old(self).kilde@.len() ==> final(self).linje == old(self).linje
                + if old(self).kilde@[old(self).position as int] == '\n' { 1int } else { 0int },
            old(self).position >= old(self).kilde@.len() ==> *final(self) == *old(self),
            final(self).gyldig(),
            final(self).kilde@ == old(self).kilde@,
            r == if old(self).position < old(self).kilde@.len() { Some(old(self).kilde@[old(self).position as int]) } else { None },
            final(self).position == if old(self).position < old(self).kilde@.len() { old(self).position + 1 } else { old(self).position as int },
            final(self).linje == old(self).linje + skift_mellem(old(self).kilde@, old(self).position as nat, final(self).position as nat),
    {
        let ghost k = self.kilde@;
        let ghost p = self.position as nat;
        if self.position < self.kilde.len() {
            let c = self.kilde[self.position];
            proof {
                lemma_skift_et(k, p, p);
                assert(k.subrange(p as int, p as int) =~= Seq::<char>::empty());
                lemma_skift_del(k, p, p + 1, k.len());
            }
            self.position = self.position + 1;
            if c == '\n' {
                self.linje = self.linje + 1;
            }
            Some(c)
        } else {
            assert(k.subrange(p as int, p as int) =~= Seq::<char>::empty());
            None
        }
    }

    /// Skips spaces and tabs only, not line breaks.
    fn spring_over_vandret_mellemrum(&mut self)
        requires
            old(self).gyldig(),
        ensures
            final(self).gyldig(),
            final(self).kilde@ == old(self).kilde@,
            final(self).position == vandret(old(self).kilde@, old(self).position as nat),
            final(self).linje == old(self).linje + skift_mellem(old(self).kilde@, old(self).position as nat, final(self).position as nat),
    {
        let ghost k = self.kilde@;
        let ghost p = self.position as nat;
        let ghost l = self.linje;
        assert(k.subrange(p as int, p as int) =~= Seq::<char>::empty());
        loop
            invariant
                self.gyldig(),
                self.kilde@ == k,
                p <= self.position,
                vandret(k, p) == vandret(k, self.position as nat),
                self.linje == l + skift_mellem(k, p, self.position as nat),
            ensures
                self.gyldig(),
                self.kilde@ == k,
                self.position == vandret(k, p),
                self.linje == l + skift_mellem(k, p, self.position as nat),
            decreases self.kilde@.len() - self.position,
        {
            let c = match self.kig() {
                Some(c) => c,
                None => break,
            };
                    if c == ' ' || c == '\t' || c == '\r' {
                        let ghost q = self.position as nat;
                        self.spis();
                        proof {
                            lemma_skift_del(k, p, q, self.position as nat);
                        }
                    } else {
                        break;
                    }
        }
    }

    fn til_linjens_slut(&mut self)
        requires
            old(self).gyldig(),
        ensures
            final(self).gyldig(),
            final(self).kilde@ == old(self).kilde@,
            final(self).position == til_linjeslut(old(self).kilde@, old(self).position as nat),
            final(self).linje == old(self).linje + skift_mellem(old(self).kilde@, old(self).position as nat, final(self).position as nat),
    {
        let ghost k = self.kilde@;
        let ghost p = self.position as nat;
        let ghost l = self.linje;
        assert(k.subrange(p as int, p as int) =~= Seq::<char>::empty());
        loop
            invariant_except_break
                til_linjeslut(k, p) == til_linjeslut(k, self.position as nat),
            invariant
                self.gyldig(),
                self.kilde@ == k,
                p <= self.position,
                self.linje == l + skift_mellem(k, p, self.position as nat),
            ensures
                self.gyldig(),
                self.kilde@ == k,
                self.position == til_linjeslut(k, p),
                self.linje == l + skift_mellem(k, p, self.position as nat),
            decreases self.kilde@.len() - self.position,
        {
            let ghost q = self.position as nat;
            match self.spis() {
                Some(c) => {
                    proof {
                        lemma_skift_del(k, p, q, self.position as nat);
                    }
                    if c == '\n' {
                        break;
                    }
                },
                None => break,
            }
        }
    }

    /// Skips blank lines and comment lines between instructions.
    fn spring_over_tomme_linjer(&mut self)
        requires
            old(self).gyldig(),
        ensures
            final(self).gyldig(),
            final(self).kilde@ == old(self).kilde@,
            final(self).position == tomme_linjer(old(self).kilde@, old(self).position as nat),
            final(self).linje == old(self).linje + skift_mellem(old(self).kilde@, old(self).position as nat, final(self).position as nat),
    {
        let ghost k = self.kilde@;
        let ghost p = self.position as nat;
        let ghost l = self.linje;
        assert(k.subrange(p as int, p as int) =~= Seq::<char>::empty());
        loop
            invariant
                self.gyldig(),
                self.kilde@ == k,
                p <= self.position,
                tomme_linjer(k, p) == tomme_linjer(k, self.position as nat),
                self.linje == l + skift_mellem(k, p, self.position as nat),
            ensures
                self.gyldig(),
                self.kilde@ == k,
                self.position == tomme_linjer(k, p),
                self.linje == l + skift_mellem(k, p, self.position as nat),
            decreases self.kilde@.len() - self.position,
        {
            let ghost q0 = self.position as nat;
            self.spring_over_vandret_mellemrum();
            let ghost q = self.position as nat;
            proof {
                lemma_vandret(k, q0);
                lemma_skift_del(k, p, q0, q);
            }
            match self.kig() {
                Some('#') => {
                    self.til_linjens_slut();
                    proof {
                        lemma_til_linjeslut(k, q);
                        lemma_skift_del(k, p, q, self.position as nat);
                    }
                },
                Some('\n') => {
                    self.spis();
                    proof {
                        lemma_skift_del(k, p, q, self.position as nat);
                    }
                },
                _ => break,
            }
        }
    }

    /// Reads a text literal; the lexer stands at its opening quote.
    fn laes_tekst(&mut self) -> (r: Result<String, String>)
        requires
            old(self).gyldig(),
            old(self).position < old(self).kilde@.len(),
        ensures
            final(self).gyldig(),
            final(self).kilde@ == old(self).kilde@,
            final(self).linje == old(self).linje + skift_mellem(old(self).kilde@, old(self).position as nat, final(self).position as nat),
            match tekst_slut(old(self).kilde@, (old(self).position + 1) as nat) {
                Some(e) => final(self).position == e + 1
                    && (r matches Ok(t) && t@ == old(self).kilde@.subrange(old(self).position + 1 as int, e as int)),
                None => final(self).position == old(self).kilde@.len()
                    && (r matches Err(m) && m@ == "Linje "@ + decimal(final(self).linje as nat) + ": Tekst mangler afsluttende \"-tegn"@),
            },
    {
        let ghost k = self.kilde@;
        let ghost p = self.position as nat;
        let ghost l = self.linje;
        self.spis();
        let mut t = String::new();
        assert(k.subrange(p + 1 as int, p + 1 as int) =~= Seq::<char>::empty());
        loop
            invariant
                self.gyldig(),
                self.kilde@ == k,
                k == old(self).kilde@,
                p == old(self).position,
                l == old(self).linje,
                p < k.len(),
                p + 1 <= self.position,
                tekst_slut(k, p + 1) == tekst_slut(k, self.position as nat),
                t@ == k.subrange(p + 1 as int, self.position as int),
                self.linje == l + skift_mellem(k, p, self.position as nat),
            decreases self.kilde@.len() - self.position,
        {
            let ghost q = self.position as nat;
            match self.spis() {
                Some('"') => {
                    proof {
                        lemma_skift_del(k, p, q, self.position as nat);
                    }
                    assert(self.kilde@ == k);
                    assert(k == old(self).kilde@);
                    assert(self.linje == l + skift_mellem(k, p, self.position as nat));
                    assert(tekst_slut(k, q) == Some(q));
                    return Ok(t);
                },
                Some(c) => {
                    skub(&mut t, c);
                    proof {
                        lemma_skift_del(k, p, q, self.position as nat);
                        assert(t@ =~= k.subrange(p + 1 as int, self.position as int));
                    }
                },
                None => {
                    assert(self.kilde@ == k);
                    assert(self.position == q);
                    assert(self.linje == l + skift_mellem(k, p, self.position as nat));
                    assert(tekst_slut(k, q) is None);
                    let mut m = tekst("Linje ");
                    skriv_decimal(&mut m, self.linje as u64);
                    m.append(": Tekst mangler afsluttende \"-tegn");
                    return Err(m);
                },
            }
        }
    }

    fn laes_ord(&mut self) -> (r: String)
        requires
            old(self).gyldig(),
        ensures
            final(self).gyldig(),
            final(self).kilde@ == old(self).kilde@,
            final(self).position == ord_slut(old(self).kilde@, old(self).position as nat),
            final(self).linje == old(self).linje + skift_mellem(old(self).kilde@, old(self).position as nat, final(self).position as nat),
            r@ == old(self).kilde@.subrange(old(self).position as int, final(self).position as int),
    {
        let ghost k = self.kilde@;
        let ghost p = self.position as nat;
        let ghost l = self.linje;
        let mut ord = String::new();
        assert(k.subrange(p as int, p as int) =~= Seq::<char>::empty());
        loop
            invariant
                self.gyldig(),
                self.kilde@ == k,
                p <= self.position,
                ord_slut(k, p) == ord_slut(k, self.position as nat),
                ord@ == k.subrange(p as int, self.position as int),
                self.linje == l + skift_mellem(k, p, self.position as nat),
            ensures
                self.gyldig(),
                self.kilde@ == k,
                self.position == ord_slut(k, p),
                ord@ == k.subrange(p as int, self.position as int),
                self.linje == l + skift_mellem(k, p, self.position as nat),
            decreases self.kilde@.len() - self.position,
        {
            let c = match self.kig() {
                Some(c) => c,
                None => break,
            };
                    // Letters (æ, ø and å too), digits and underscore
                    if bogstav_eller_tal(c) || c == '_' {
                        let ghost q = self.position as nat;
                        skub(&mut ord, c);
                        self.spis();
                        proof {
                            lemma_skift_del(k, p, q, self.position as nat);
                            assert(ord@ =~= k.subrange(p as int, self.position as int));
                        }
                    } else {
                        break;
                    }
        }
        ord
    }

    fn laes_tal(&mut self) -> (r: String)
        requires
            old(self).gyldig(),
        ensures
            final(self).gyldig(),
            final(self).kilde@ == old(self).kilde@,
            final(self).position == tal_slut(old(self).kilde@, old(self).position as nat),
            final(self).linje == old(self).linje + skift_mellem(old(self).kilde@, old(self).position as nat, final(self).position as nat),
            r@ == old(self).kilde@.subrange(old(self).position as int, final(self).position as int),
    {
        let ghost k = self.kilde@;
        let ghost p = self.position as nat;
        let ghost l = self.linje;
        let mut s = String::new();
        assert(k.subrange(p as int, p as int) =~= Seq::<char>::empty());
        loop
            invariant
                self.gyldig(),
                self.kilde@ == k,
                p <= self.position,
                tal_slut(k, p) == tal_slut(k, self.position as nat),
                s@ == k.subrange(p as int, self.position as int),
                self.linje == l + skift_mellem(k, p, self.position as nat),
            ensures
                self.gyldig(),
                self.kilde@ == k,
                self.position == tal_slut(k, p),
                s@ == k.subrange(p as int, self.position as int),
                self.linje == l + skift_mellem(k, p, self.position as nat),
            decreases self.kilde@.len() - self.position,
        {
            let c = match self.kig() {
                Some(c) => c,
                None => break,
            };
                    if ('0' <= c && c <= '9') || c == '.' {
                        let ghost q = self.position as nat;
                        skub(&mut s, c);
                        self.spis();
                        proof {
                            lemma_skift_del(k, p, q, self.position as nat);
                            assert(s@ =~= k.subrange(p as int, self.position as int));
                        }
                    } else {
                        break;
                    }
        }
        s
    }

    /// Reads one token that is neither a comment nor a line break.
    fn laes_token(&mut self) -> (r: Result<Token, String>)
        requires
            old(self).gyldig(),
            old(self).position < old(self).kilde@.len(),
            old(self).kilde@[old(self).position as int] != '#',
            old(self).kilde@[old(self).position as int] != '\n',
        ensures
            final(self).gyldig(),
            final(self).kilde@ == old(self).kilde@,
            old(self).position <= final(self).position,
            final(self).linje == old(self).linje + skift_mellem(old(self).kilde@, old(self).position as nat, final(self).position as nat),
            match et_token(old(self).kilde@, old(self).position as nat, old(self).linje as nat) {
                Ok((t, e)) => (r matches Ok(x) && x@ == t) && final(self).position == e,
                Err(m) => r matches Err(x) && x@ == m,
            },
    {
        let ghost k = self.kilde@;
        let ghost q = self.position as nat;
        let c = self.kilde[self.position];
        let t = if c == '=' {
            self.spis();
            if self.kig() == Some('=') {
                self.spis();
                Token::ErLig
            } else {
                Token::Ligmed
            }
        } else if c == '<' {
            self.spis();
            match self.kig() {
                Some('=') => {
                    self.spis();
                    Token::MindreEllerLig
                },
                Some('>') => {
                    self.spis();
                    Token::ErIkke
                },
                _ => Token::Mindre,
            }
        } else if c == '>' {
            self.spis();
            if self.kig() == Some('=') {
                self.spis();
                Token::StoerreEllerLig
            } else {
                Token::Stoerre
            }
        } else if c == '+' {
            self.spis();
            Token::Plus
        } else if c == '-' {
            self.spis();
            Token::Minus
        } else if c == '(' {
            self.spis();
            Token::VenstreParentes
        } else if c == ')' {
            self.spis();
            Token::HoejreParentes
        } else if c == ',' {
            self.spis();
            Token::Komma
        } else if c == '"' {
            proof {
                lemma_tekst_slut(k, q + 1);
            }
            match self.laes_tekst() {
                Ok(t) => Token::BogstavLiteral(t),
                Err(m) => {
                    return Err(m);
                },
            }
        } else if '0' <= c && c <= '9' {
            proof {
                lemma_tal_slut(k, q);
            }
            Token::TalLiteral(self.laes_tal())
        } else if bogstav(c) || c == '_' {
            proof {
                lemma_ord_slut(k, q);
            }
            let ord = self.laes_ord();
            ord_til_token(ord)
        } else {
            let mut m = tekst("Linje ");
            skriv_decimal(&mut m, self.linje as u64);
            m.append(": Uventet tegn '");
            skub(&mut m, c);
            m.append("'");
            proof {
                assert(m@ =~= "Linje "@ + decimal(self.linje as nat) + ": Uventet tegn '"@ + seq![c] + "'"@);
            }
            return Err(m);
        };
        proof {
            if self.position as nat == q + 2 {
                lemma_skift_del(k, q, q + 1, q + 2);
            }
        }
        Ok(t)
    }

    fn skub_token(tokens: &mut Vec<Token>, t: Token)
        ensures
            tokens_v(final(tokens)@) == tokens_v(old(tokens)@).push(t@),
    {
        let ghost tv = t@;
        tokens.push(t);
        assert(tokens_v(tokens@) =~= tokens_v(old(tokens)@).push(tv));
    }

    /// All tokens of the source code from where the lexer stands, ending with
    /// `FilSlut`, or the message of the first error.
    pub fn tokeniser(&mut self) -> (r: Result<Vec<Token>, String>)
        requires
            old(self).gyldig(),
        ensures
            match r {
                Ok(v) => tokens_fra_linje(old(self).kilde_v(), old(self).pos(), old(self).paa_linje()) == Ok::<Seq<TokenV>, Seq<char>>(tokens_v(v@)),
                Err(m) => tokens_fra_linje(old(self).kilde_v(), old(self).pos(), old(self).paa_linje()) == Err::<Seq<TokenV>, Seq<char>>(m@),
            },
            final(self).gyldig(),
            final(self).kilde_v() == old(self).kilde_v(),
            old(self).pos() <= final(self).pos(),
            final(self).linje == old(self).linje + skift_mellem(old(self).kilde_v(), old(self).pos(), final(self).pos()),
            r is Ok ==> final(self).pos() == old(self).kilde_v().len(),
    {
        let ghost k = self.kilde@;
        let ghost p0 = self.position as nat;
        let ghost l0 = self.linje as nat;
        let mut tokens: Vec<Token> = Vec::new();
        self.spring_over_tomme_linjer();
        proof {
            lemma_tomme_linjer(k, p0);
            assert(tokens_v(tokens@) =~= Seq::<TokenV>::empty());
            assert(alle_foran(Seq::empty(), tokens_fra(k, self.position as nat, self.linje as nat)) == tokens_fra(k, self.position as nat, self.linje as nat)) by {
                match tokens_fra(k, self.position as nat, self.linje as nat) {
                    Ok(s) => { assert(Seq::<TokenV>::empty() + s =~= s); },
                    Err(_) => {},
                }
            }
        }
        loop
            invariant_except_break
                tokens_fra_linje(k, p0, l0) == alle_foran(tokens_v(tokens@), tokens_fra(k, self.position as nat, self.linje as nat)),
            invariant
                self.gyldig(),
                self.kilde@ == k,
                k == old(self).kilde@,
                p0 == old(self).position,
                l0 == old(self).linje,
                p0 <= self.position,
                self.linje == l0 + skift_mellem(k, p0, self.position as nat),
            ensures
                tokens_fra_linje(k, p0, l0) == Ok::<Seq<TokenV>, Seq<char>>(tokens_v(tokens@)),
                self.gyldig(),
                self.kilde@ == k,
                p0 <= self.position,
                self.linje == l0 + skift_mellem(k, p0, self.position as nat),
                self.position == k.len(),
            decreases self.kilde@.len() - self.position,
        {
            let ghost p = self.position as nat;
            let ghost l = self.linje as nat;
            let ghost acc = tokens_v(tokens@);
            self.spring_over_vandret_mellemrum();
            let ghost q = self.position as nat;
            proof {
                lemma_vandret(k, p);
            }
            let c = match self.kig() {
                None => {
                    proof {
                        lemma_skift_del(k, p0, p, q);
                    }
                    Self::skub_token(&mut tokens, Token::FilSlut);
                    assert(acc + seq![TokenV::FilSlut] =~= acc.push(TokenV::FilSlut));
                    break;
                },
                Some(c) => c,
            };
            let ghost tv: TokenV;
            if c == '#' {
                self.til_linjens_slut();
                let ghost r = self.position as nat;
                Self::skub_token(&mut tokens, Token::Newline);
                self.spring_over_tomme_linjer();
                proof {
                    lemma_til_linjeslut(k, q);
                    lemma_skift_del(k, p, q, r);
                    lemma_tomme_linjer(k, r);
                    lemma_skift_del(k, p, r, self.position as nat);
                    tv = TokenV::Newline;
                }
            } else if c == '\n' {
                self.spis();
                let ghost r = self.position as nat;
                Self::skub_token(&mut tokens, Token::Newline);
                self.spring_over_tomme_linjer();
                proof {
                    lemma_skift_del(k, p, q, r);
                    lemma_tomme_linjer(k, r);
                    lemma_skift_del(k, p, r, self.position as nat);
                    tv = TokenV::Newline;
                }
            } else {
                let t = match self.laes_token() {
                    Ok(t) => t,
                    Err(m) => {
                        proof {
                            lemma_skift_del(k, p, q, self.position as nat);
                            lemma_skift_del(k, p0, p, self.position as nat);
                        }
                        return Err(m);
                    },
                };
                proof {
                    lemma_et_token(k, q, self.linje as nat);
                    lemma_skift_del(k, p, q, self.position as nat);
                    tv = t@;
                }
                Self::skub_token(&mut tokens, t);
            }
            proof {
                lemma_skift_del(k, p0, p, self.position as nat);
                assert(tokens_fra(k, p, l) == foran(tv, tokens_fra(k, self.position as nat, self.linje as nat)));
                lemma_alle_foran(acc, tv, tokens_fra(k, self.position as nat, self.linje as nat));
            }
        }
        Ok(tokens)
    }
}

} // verus!