//! Properties of the lexer that hold for every source text.
use vstd::prelude::*;
use crate::lexer::{
    TokenV, tokens_fra, tokens_fra_linje, tokeniser, et_token, vandret, tomme_linjer, til_linjeslut,
    lemma_vandret, lemma_til_linjeslut, lemma_tomme_linjer, lemma_et_token, foran, er_vandret,
    tekst_slut, ord_slut, tal_slut, skift_mellem, antal_linjeskift, lemma_tekst_slut, lemma_ord_slut,
    lemma_tal_slut, lemma_skift_del,
};

verus! {

/// The shape of a token list: it ends with the one `FilSlut`, and no two line
/// breaks follow each other.
pub open spec fn tokenform(ts: Seq<TokenV>) -> bool {
    &&& ts.len() > 0
    &&& ts.last() == TokenV::FilSlut
    &&& forall|i: int| 0 <= i < ts.len() - 1 ==> #[trigger] ts[i] != TokenV::FilSlut
    &&& forall|i: int| 0 <= i < ts.len() - 1 ==> (#[trigger] ts[i] == TokenV::Newline ==> ts[i + 1] != TokenV::Newline)
}

proof fn lemma_et_token_art(k: Seq<char>, q: nat, l: nat)
    requires
        q < k.len(),
    ensures
        et_token(k, q, l) matches Ok((t, _)) ==> t != TokenV::Newline && t != TokenV::FilSlut,
{
}

proof fn lemma_vandret_fast(k: Seq<char>, p: nat)
    ensures
        vandret(k, vandret(k, p)) == vandret(k, p),
{
    lemma_vandret(k, p);
    let q = vandret(k, p);
    if q < k.len() {
        assert(!er_vandret(k[q as int]));
    }
}

/// Where blank and comment lines end, the next character is neither a comment
/// sign nor a line break, and no spaces lie before it.
proof fn lemma_tomme_linjer_slut(k: Seq<char>, p: nat)
    requires
        p <= k.len(),
    ensures
        vandret(k, tomme_linjer(k, p)) == tomme_linjer(k, p),
        tomme_linjer(k, p) < k.len() ==> k[tomme_linjer(k, p) as int] != '#' && k[tomme_linjer(k, p) as int] != '\n',
    decreases k.len() - p,
{
    let q = vandret(k, p);
    lemma_vandret(k, p);
    if q < k.len() && k[q as int] == '#' {
        lemma_til_linjeslut(k, q);
        lemma_tomme_linjer_slut(k, til_linjeslut(k, q));
    } else if q < k.len() && k[q as int] == '\n' {
        lemma_tomme_linjer_slut(k, q + 1);
    } else {
        lemma_vandret_fast(k, p);
    }
}

proof fn lemma_tokens_fra_form(k: Seq<char>, p: nat, l: nat)
    ensures
        tokens_fra(k, p, l) matches Ok(ts) ==> tokenform(ts),
        (p <= k.len() && vandret(k, p) == p && (p < k.len() ==> k[p as int] != '#' && k[p as int] != '\n'))
            ==> (tokens_fra(k, p, l) matches Ok(ts) ==> ts[0] != TokenV::Newline),
    decreases k.len() - p,
{
    let q = vandret(k, p);
    if p > k.len() || q >= k.len() {
    } else {
        lemma_vandret(k, p);
        let c = k[q as int];
        if c == '#' || c == '\n' {
            let e = if c == '#' {
                lemma_til_linjeslut(k, q);
                til_linjeslut(k, q)
            } else {
                q + 1
            };
            lemma_tomme_linjer(k, e);
            lemma_tomme_linjer_slut(k, e);
            let p2 = tomme_linjer(k, e);
            let r = tokens_fra(k, p2, l + crate::lexer::skift_mellem(k, p, p2));
            lemma_tokens_fra_form(k, p2, l + crate::lexer::skift_mellem(k, p, p2));
            if let Ok(ts) = r {
                let u = seq![TokenV::Newline] + ts;
                assert forall|i: int| 0 <= i < u.len() - 1 implies #[trigger] u[i] != TokenV::FilSlut by {
                    if i > 0 {
                        assert(u[i] == ts[i - 1]);
                    }
                }
                assert forall|i: int| 0 <= i < u.len() - 1 && #[trigger] u[i] == TokenV::Newline implies u[i + 1] != TokenV::Newline by {
                    if i > 0 {
                        assert(u[i] == ts[i - 1]);
                        assert(u[i + 1] == ts[i]);
                    }
                }
                assert(u.last() == ts.last());
            }
        } else {
            let l2 = l + crate::lexer::skift_mellem(k, p, q);
            lemma_et_token(k, q, l2);
            lemma_et_token_art(k, q, l2);
            if let Ok((t, e)) = et_token(k, q, l2) {
                let r = tokens_fra(k, e, l + crate::lexer::skift_mellem(k, p, e));
                lemma_tokens_fra_form(k, e, l + crate::lexer::skift_mellem(k, p, e));
                if let Ok(ts) = r {
                    let u = seq![t] + ts;
                    assert forall|i: int| 0 <= i < u.len() - 1 implies #[trigger] u[i] != TokenV::FilSlut by {
                        if i > 0 {
                            assert(u[i] == ts[i - 1]);
                        }
                    }
                    assert forall|i: int| 0 <= i < u.len() - 1 && #[trigger] u[i] == TokenV::Newline implies u[i + 1] != TokenV::Newline by {
                        if i > 0 {
                            assert(u[i] == ts[i - 1]);
                            assert(u[i + 1] == ts[i]);
                        }
                    }
                    assert(u.last() == ts.last());
                }
            }
        }
    }
}

/// Read tokens end with the one `FilSlut`; blank and comment lines give no
/// tokens of their own: the list starts with no line break and no two line
/// breaks follow each other.
pub proof fn lov_tokenform(k: Seq<char>)
    ensures
        tokeniser(k) matches Ok(ts) ==> tokenform(ts) && ts[0] != TokenV::Newline,
{
    lemma_tomme_linjer(k, 0);
    lemma_tomme_linjer_slut(k, 0);
    let q = tomme_linjer(k, 0);
    lemma_tokens_fra_form(k, q, 1 + crate::lexer::skift_mellem(k, 0, q));
}

/// `k` is the text `kk` without its first `n` characters.
pub open spec fn hale(kk: Seq<char>, n: nat, k: Seq<char>) -> bool {
    &&& n <= kk.len()
    &&& k.len() == kk.len() - n
    &&& forall|i: int| 0 <= i < k.len() ==> #[trigger] k[i] == kk[i + n]
}

proof fn lemma_hale_vandret(kk: Seq<char>, n: nat, k: Seq<char>, p: nat)
    requires
        hale(kk, n, k),
        p <= k.len(),
    ensures
        vandret(kk, p + n) == vandret(k, p) + n,
    decreases k.len() - p,
{
    if p < k.len() {
        assert(k[p as int] == kk[p + n as int]);
        lemma_hale_vandret(kk, n, k, p + 1);
    }
}

proof fn lemma_hale_til_linjeslut(kk: Seq<char>, n: nat, k: Seq<char>, p: nat)
    requires
        hale(kk, n, k),
        p <= k.len(),
    ensures
        til_linjeslut(kk, p + n) == til_linjeslut(k, p) + n,
    decreases k.len() - p,
{
    if p < k.len() {
        assert(k[p as int] == kk[p + n as int]);
        lemma_hale_til_linjeslut(kk, n, k, p + 1);
    }
}

proof fn lemma_hale_tomme_linjer(kk: Seq<char>, n: nat, k: Seq<char>, p: nat)
    requires
        hale(kk, n, k),
        p <= k.len(),
    ensures
        tomme_linjer(kk, p + n) == tomme_linjer(k, p) + n,
    decreases k.len() - p,
{
    let q = vandret(k, p);
    lemma_vandret(k, p);
    lemma_hale_vandret(kk, n, k, p);
    if q < k.len() {
        assert(k[q as int] == kk[q + n as int]);
        if k[q as int] == '#' {
            lemma_til_linjeslut(k, q);
            lemma_hale_til_linjeslut(kk, n, k, q);
            lemma_hale_tomme_linjer(kk, n, k, til_linjeslut(k, q));
        } else if k[q as int] == '\n' {
            lemma_hale_tomme_linjer(kk, n, k, q + 1);
        }
    }
}

proof fn lemma_hale_tekst_slut(kk: Seq<char>, n: nat, k: Seq<char>, p: nat)
    requires
        hale(kk, n, k),
        p <= k.len(),
    ensures
        tekst_slut(kk, p + n) == (match tekst_slut(k, p) {
            Some(e) => Some(e + n),
            None => None::<nat>,
        }),
    decreases k.len() - p,
{
    if p < k.len() {
        assert(k[p as int] == kk[p + n as int]);
        lemma_hale_tekst_slut(kk, n, k, p + 1);
    }
}

proof fn lemma_hale_ord_slut(kk: Seq<char>, n: nat, k: Seq<char>, p: nat)
    requires
        hale(kk, n, k),
        p <= k.len(),
    ensures
        ord_slut(kk, p + n) == ord_slut(k, p) + n,
    decreases k.len() - p,
{
    if p < k.len() {
        assert(k[p as int] == kk[p + n as int]);
        lemma_hale_ord_slut(kk, n, k, p + 1);
    }
}

proof fn lemma_hale_tal_slut(kk: Seq<char>, n: nat, k: Seq<char>, p: nat)
    requires
        hale(kk, n, k),
        p <= k.len(),
    ensures
        tal_slut(kk, p + n) == tal_slut(k, p) + n,
    decreases k.len() - p,
{
    if p < k.len() {
        assert(k[p as int] == kk[p + n as int]);
        lemma_hale_tal_slut(kk, n, k, p + 1);
    }
}

proof fn lemma_hale_del(kk: Seq<char>, n: nat, k: Seq<char>, a: nat, b: nat)
    requires
        hale(kk, n, k),
        a <= b <= k.len(),
    ensures
        kk.subrange(a + n as int, b + n as int) == k.subrange(a as int, b as int),
        skift_mellem(kk, a + n, b + n) == skift_mellem(k, a, b),
{
    assert(kk.subrange(a + n as int, b + n as int) =~= k.subrange(a as int, b as int));
}

proof fn lemma_hale_et_token(kk: Seq<char>, n: nat, k: Seq<char>, q: nat, l: nat)
    requires
        hale(kk, n, k),
        q < k.len(),
    ensures
        et_token(kk, q + n, l) == (match et_token(k, q, l) {
            Ok((t, e)) => Ok((t, e + n)),
            Err(m) => Err::<(TokenV, nat), Seq<char>>(m),
        }),
{
    assert(k[q as int] == kk[q + n as int]);
    if q + 1 < k.len() {
        assert(k[q + 1int] == kk[q + 1 + n as int]);
    }
    lemma_hale_tekst_slut(kk, n, k, q + 1);
    lemma_tekst_slut(k, q + 1);
    if let Some(e) = tekst_slut(k, q + 1) {
        lemma_hale_del(kk, n, k, q + 1, e);
    }
    lemma_hale_del(kk, n, k, q, k.len());
    lemma_hale_tal_slut(kk, n, k, q);
    lemma_tal_slut(k, q);
    lemma_hale_del(kk, n, k, q, tal_slut(k, q));
    lemma_hale_ord_slut(kk, n, k, q);
    lemma_ord_slut(k, q);
    lemma_hale_del(kk, n, k, q, ord_slut(k, q));
}

proof fn lemma_hale_tokens_fra(kk: Seq<char>, n: nat, k: Seq<char>, p: nat, l: nat)
    requires
        hale(kk, n, k),
        p <= k.len(),
    ensures
        tokens_fra(kk, p + n, l) == tokens_fra(k, p, l),
    decreases k.len() - p,
{
    let q = vandret(k, p);
    lemma_vandret(k, p);
    lemma_hale_vandret(kk, n, k, p);
    if q < k.len() {
        assert(k[q as int] == kk[q + n as int]);
        let c = k[q as int];
        if c == '#' || c == '\n' {
            let e = if c == '#' {
                lemma_til_linjeslut(k, q);
                lemma_hale_til_linjeslut(kk, n, k, q);
                til_linjeslut(k, q)
            } else {
                q + 1
            };
            lemma_tomme_linjer(k, e);
            lemma_hale_tomme_linjer(kk, n, k, e);
            let p2 = tomme_linjer(k, e);
            lemma_hale_del(kk, n, k, p, p2);
            lemma_hale_tokens_fra(kk, n, k, p2, l + skift_mellem(k, p, p2));
        } else {
            lemma_hale_del(kk, n, k, p, q);
            let l2 = l + skift_mellem(k, p, q);
            lemma_hale_et_token(kk, n, k, q, l2);
            lemma_et_token(k, q, l2);
            if let Ok((t, e)) = et_token(k, q, l2) {
                lemma_hale_del(kk, n, k, p, e);
                lemma_hale_tokens_fra(kk, n, k, e, l + skift_mellem(k, p, e));
            }
        }
    }
}

/// The line a lexer starts on decides the line numbers of error messages and
/// nothing else.
proof fn lemma_linje_uden_betydning(k: Seq<char>, p: nat, l1: nat, l2: nat)
    ensures
        (tokens_fra(k, p, l1) is Ok) == (tokens_fra(k, p, l2) is Ok),
        tokens_fra(k, p, l1) is Ok ==> tokens_fra(k, p, l1) == tokens_fra(k, p, l2),
    decreases k.len() - p,
{
    let q = vandret(k, p);
    if p <= k.len() && q < k.len() {
        lemma_vandret(k, p);
        let c = k[q as int];
        if c == '#' || c == '\n' {
            let e = if c == '#' {
                lemma_til_linjeslut(k, q);
                til_linjeslut(k, q)
            } else {
                q + 1
            };
            lemma_tomme_linjer(k, e);
            let p2 = tomme_linjer(k, e);
            lemma_linje_uden_betydning(k, p2, l1 + skift_mellem(k, p, p2), l2 + skift_mellem(k, p, p2));
        } else {
            lemma_et_token(k, q, l1 + skift_mellem(k, p, q));
            lemma_et_token(k, q, l2 + skift_mellem(k, p, q));
            if let Ok((t, e)) = et_token(k, q, l1 + skift_mellem(k, p, q)) {
                lemma_linje_uden_betydning(k, e, l1 + skift_mellem(k, p, e), l2 + skift_mellem(k, p, e));
            }
        }
    }
}

proof fn lemma_kommentar_til_linjeslut(kk: Seq<char>, c: Seq<char>, i: nat)
    requires
        i <= c.len(),
        c.len() < kk.len(),
        kk[c.len() as int] == '\n',
        forall|j: int| 0 <= j < c.len() ==> kk[j] != '\n',
    ensures
        til_linjeslut(kk, i) == c.len() + 1,
    decreases c.len() - i,
{
    if i < c.len() {
        lemma_kommentar_til_linjeslut(kk, c, i + 1);
    }
}

proof fn lemma_ingen_linjeskift(c: Seq<char>)
    requires
        forall|j: int| 0 <= j < c.len() ==> c[j] != '\n',
    ensures
        antal_linjeskift(c) == 0,
    decreases c.len(),
{
    if c.len() > 0 {
        lemma_ingen_linjeskift(c.drop_last());
    }
}

/// A comment line in front of a text changes nothing but the line numbers: the
/// text is read as if it began on line 2, and whether it is read, and the tokens
/// it gives, are those of the text alone.
pub proof fn lov_kommentarlinje(c: Seq<char>, k: Seq<char>)
    requires
        c.len() > 0,
        c[0] == '#',
        forall|i: int| 0 <= i < c.len() ==> c[i] != '\n',
    ensures
        tokeniser(c + "\n"@ + k) == tokens_fra_linje(k, 0, 2),
        (tokeniser(c + "\n"@ + k) is Ok) == (tokeniser(k) is Ok),
        tokeniser(k) is Ok ==> tokeniser(c + "\n"@ + k) == tokeniser(k),
{
    reveal_strlit("\n");
    let kk = c + "\n"@ + k;
    let n = c.len() + 1;
    assert(kk[c.len() as int] == '\n');
    assert forall|j: int| 0 <= j < c.len() implies kk[j] != '\n' by {
        assert(kk[j] == c[j]);
    }
    assert(hale(kk, n, k)) by {
        assert forall|i: int| 0 <= i < k.len() implies #[trigger] k[i] == kk[i + n] by {
            assert(kk[i + n] == k[i]);
        }
    }
    // The comment line is skipped as a whole.
    assert(!er_vandret(kk[0]));
    assert(vandret(kk, 0) == 0);
    lemma_kommentar_til_linjeslut(kk, c, 0);
    assert(til_linjeslut(kk, 0) == n);
    lemma_hale_tomme_linjer(kk, n, k, 0);
    lemma_tomme_linjer(k, 0);
    let q = tomme_linjer(k, 0);
    assert(tomme_linjer(kk, 0) == q + n);
    // It holds one line break.
    lemma_skift_del(kk, 0, n, q + n);
    assert(kk.subrange(0, n as int) =~= c + "\n"@);
    assert((c + "\n"@).drop_last() =~= c);
    lemma_ingen_linjeskift(c);
    assert(skift_mellem(kk, 0, n) == 1);
    lemma_hale_del(kk, n, k, 0, q);
    lemma_hale_tokens_fra(kk, n, k, q, 2 + skift_mellem(k, 0, q));
    lemma_linje_uden_betydning(k, q, 2 + skift_mellem(k, 0, q), 1 + skift_mellem(k, 0, q));
}

/// Position `i` lies in a comment that starts at or after `p`: a `#` stands at or
/// before it, at or after `p`, with no line break between.
pub open spec fn i_kommentar(k: Seq<char>, p: nat, i: int) -> bool {
    exists|j: int| p <= j <= i && #[trigger] k[j] == '#' && forall|m: int| j <= m < i ==> k[m] != '\n'
}

proof fn lemma_til_linjeslut_indhold(k: Seq<char>, q: nat)
    ensures
        forall|m: int| q <= m < til_linjeslut(k, q) - 1 ==> k[m] != '\n',
    decreases k.len() - q,
{
    if q < k.len() && k[q as int] != '\n' {
        lemma_til_linjeslut_indhold(k, q + 1);
        lemma_til_linjeslut(k, q + 1);
    }
}

/// Skipping blank lines passes only spaces, tabs, carriage returns, line breaks
/// and comments from `#` to the end of their line, and stops at the first other
/// character or at the end of the text. (The lexer counts the line breaks it
/// passes: see the ensures of `Lexer::tokeniser`.)
pub proof fn lov_tomme_linjer(k: Seq<char>, p: nat)
    requires
        p <= k.len(),
    ensures
        p <= tomme_linjer(k, p) <= k.len(),
        forall|i: int| p <= i < tomme_linjer(k, p) ==>
            er_vandret(#[trigger] k[i]) || k[i] == '\n' || i_kommentar(k, p, i),
        tomme_linjer(k, p) < k.len() ==> ({
            let c = k[tomme_linjer(k, p) as int];
            !er_vandret(c) && c != '#' && c != '\n'
        }),
    decreases k.len() - p,
{
    lemma_tomme_linjer(k, p);
    lemma_tomme_linjer_slut(k, p);
    let q = tomme_linjer(k, p);
    if q < k.len() {
        assert(vandret(k, q) == q);
        lemma_vandret(k, q);
    }
    let q0 = vandret(k, p);
    lemma_vandret(k, p);
    if q0 < k.len() && k[q0 as int] == '#' {
        let e = til_linjeslut(k, q0);
        lemma_til_linjeslut(k, q0);
        lemma_til_linjeslut_indhold(k, q0);
        lov_tomme_linjer(k, e);
        assert forall|i: int| p <= i < q implies er_vandret(#[trigger] k[i]) || k[i] == '\n' || i_kommentar(k, p, i) by {
            if i < q0 {
            } else if i < e {
                if k[i] != '\n' {
                    assert(k[q0 as int] == '#');
                    assert(forall|m: int| q0 <= m < i ==> k[m] != '\n');
                    assert(i_kommentar(k, p, i));
                }
            } else {
                if !er_vandret(k[i]) && k[i] != '\n' {
                    assert(i_kommentar(k, e, i));
                    let j = choose|j: int| e <= j <= i && #[trigger] k[j] == '#' && forall|m: int| j <= m < i ==> k[m] != '\n';
                    assert(p <= j);
                    assert(i_kommentar(k, p, i));
                }
            }
        }
    } else if q0 < k.len() && k[q0 as int] == '\n' {
        lov_tomme_linjer(k, q0 + 1);
        assert forall|i: int| p <= i < q implies er_vandret(#[trigger] k[i]) || k[i] == '\n' || i_kommentar(k, p, i) by {
            if i > q0 && !er_vandret(k[i]) && k[i] != '\n' {
                assert(i_kommentar(k, q0 + 1, i));
                let j = choose|j: int| q0 + 1 <= j <= i && #[trigger] k[j] == '#' && forall|m: int| j <= m < i ==> k[m] != '\n';
                assert(p <= j);
                assert(i_kommentar(k, p, i));
            }
        }
    }
}

/// A carriage return is no line break: from just after it the line breaks up
/// to any later position are as many as from it.
proof fn lemma_skift_efter_vognretur(k: Seq<char>, q: nat)
    requires
        q < k.len(),
        k[q as int] == '\r',
    ensures
        forall|x: nat| q + 1 <= x <= k.len() ==> #[trigger] skift_mellem(k, q, x) == skift_mellem(k, q + 1, x),
{
    assert forall|x: nat| q + 1 <= x <= k.len() implies #[trigger] skift_mellem(k, q, x) == skift_mellem(k, q + 1, x) by {
        lemma_skift_del(k, q, q + 1, x);
        crate::lexer::lemma_skift_et(k, q, q);
        assert(k.subrange(q as int, q as int) =~= Seq::<char>::empty());
    }
}

/// A carriage return where the lexer looks for the next token is passed over
/// as the character after it would be.
proof fn lemma_vognretur_springes_over(k: Seq<char>, q: nat, l: nat)
    requires
        q < k.len(),
        k[q as int] == '\r',
    ensures
        tokens_fra(k, q, l) == tokens_fra(k, q + 1, l),
        tomme_linjer(k, q) == tomme_linjer(k, q + 1),
{
    lemma_skift_efter_vognretur(k, q);
    let p0 = vandret(k, q);
    assert(p0 == vandret(k, q + 1));
    lemma_vandret(k, q + 1);
    if p0 < k.len() {
        let c = k[p0 as int];
        if c == '#' {
            lemma_til_linjeslut(k, p0);
            lemma_tomme_linjer(k, til_linjeslut(k, p0));
        } else if c == '\n' {
            lemma_tomme_linjer(k, p0 + 1);
        } else {
            lemma_et_token(k, p0, l + skift_mellem(k, q, p0));
            assert(skift_mellem(k, q, p0) == skift_mellem(k, q + 1, p0));
        }
    }
}

/// The text `k` without the character at `q`, read from `q` on, is the text `k`
/// read from just after `q`.
proof fn lemma_uden_tegn(k: Seq<char>, q: nat)
    requires
        q < k.len(),
    ensures
        hale(k, q + 1, k.subrange(q + 1 as int, k.len() as int)),
        hale(k.remove(q as int), q, k.subrange(q + 1 as int, k.len() as int)),
{
}

/// Carriage returns are passed over as spaces and tabs are: a carriage return
/// where the lexer looks for the next instruction or the next token (at the start
/// of a line, between two tokens, after the last token of a line) can be taken out
/// of the text without changing the tokens, nor the error message and its line
/// number. So a line that ends in `\r\n` reads as one that ends in `\n`.
pub proof fn lov_vognretur(k: Seq<char>, q: nat, l: nat)
    requires
        q < k.len(),
        k[q as int] == '\r',
    ensures
        tokens_fra(k, q, l) == tokens_fra(k.remove(q as int), q, l),
        tokens_fra_linje(k, q, l) == tokens_fra_linje(k.remove(q as int), q, l),
{
    let s = k.subrange(q + 1 as int, k.len() as int);
    let k2 = k.remove(q as int);
    lemma_uden_tegn(k, q);
    lemma_vognretur_springes_over(k, q, l);
    lemma_hale_tokens_fra(k, q + 1, s, 0, l);
    lemma_hale_tokens_fra(k2, q, s, 0, l);

    lemma_tomme_linjer(s, 0);
    let ts = tomme_linjer(s, 0);
    lemma_hale_tomme_linjer(k, q + 1, s, 0);
    lemma_hale_tomme_linjer(k2, q, s, 0);
    let t = tomme_linjer(k, q);
    assert(t == ts + q + 1);
    assert(tomme_linjer(k2, q) == ts + q);
    lemma_skift_efter_vognretur(k, q);
    assert(skift_mellem(k, q, t) == skift_mellem(k, q + 1, t));
    lemma_hale_del(k, q + 1, s, 0, ts);
    lemma_hale_del(k2, q, s, 0, ts);
    let lt = l + skift_mellem(s, 0, ts);
    lemma_hale_tokens_fra(k, q + 1, s, ts, lt);
    lemma_hale_tokens_fra(k2, q, s, ts, lt);
}

/// The comparison signs are read as the comparisons they name: `<=` as
/// `MindreEllerLig`, `>=` as `StoerreEllerLig`, `==` as `ErLig`, `<>` as `ErIkke`,
/// and `<` and `>` not followed by one of those as `Mindre` and `Stoerre`.
pub proof fn lov_sammenligningstegn(k: Seq<char>, q: nat, l: nat)
    requires
        q < k.len(),
    ensures
        q + 1 < k.len() && k[q as int] == '<' && k[q + 1 as int] == '=' ==> et_token(k, q, l) == Ok::<(TokenV, nat), Seq<char>>((TokenV::MindreEllerLig, q + 2)),
        q + 1 < k.len() && k[q as int] == '>' && k[q + 1 as int] == '=' ==> et_token(k, q, l) == Ok::<(TokenV, nat), Seq<char>>((TokenV::StoerreEllerLig, q + 2)),
        q + 1 < k.len() && k[q as int] == '=' && k[q + 1 as int] == '=' ==> et_token(k, q, l) == Ok::<(TokenV, nat), Seq<char>>((TokenV::ErLig, q + 2)),
        q + 1 < k.len() && k[q as int] == '<' && k[q + 1 as int] == '>' ==> et_token(k, q, l) == Ok::<(TokenV, nat), Seq<char>>((TokenV::ErIkke, q + 2)),
        k[q as int] == '<' && !(q + 1 < k.len() && (k[q + 1 as int] == '=' || k[q + 1 as int] == '>')) ==> et_token(k, q, l) == Ok::<(TokenV, nat), Seq<char>>((TokenV::Mindre, q + 1)),
        k[q as int] == '>' && !(q + 1 < k.len() && k[q + 1 as int] == '=') ==> et_token(k, q, l) == Ok::<(TokenV, nat), Seq<char>>((TokenV::Stoerre, q + 1)),
{
}

} // verus!
