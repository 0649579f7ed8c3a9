//! Text helpers: building strings, decimal numerals and the order of names.
use vstd::prelude::*;

verus! {

/// Appends one character to a string: std's `String::push`, whose documentation
/// says it appends the given `char` to the end of the string.
#[verifier::external_body]
pub(crate) fn skub(s: &mut String, c: char)
    ensures
        final(s)@ == old(s)@.push(c),
{
    s.push(c);
}

/// The characters of a text, in order.
pub fn tegn_af(s: &str) -> (v: Vec<char>)
    ensures
        v@ == s@,
{
    broadcast use vstd::string::axiom_spec_iter;

    let mut v: Vec<char> = Vec::new();
    for c in it: s.chars()
        invariant
            it.seq() == s@,
            v@ == it.seq().take(it.index() as int),
    {
        v.push(c);
    }
    v
}


/// The character of a decimal digit.
pub open spec fn ciffer(d: nat) -> char {
    if d == 0 { '0' } else if d == 1 { '1' } else if d == 2 { '2' } else if d == 3 { '3' }
    else if d == 4 { '4' } else if d == 5 { '5' } else if d == 6 { '6' } else if d == 7 { '7' }
    else if d == 8 { '8' } else { '9' }
}

/// The decimal numeral of a natural number, without leading zeros.
pub open spec fn decimal(n: nat) -> Seq<char>
    decreases n,
{
    if n < 10 {
        seq![ciffer(n)]
    } else {
        decimal(n / 10).push(ciffer(n % 10))
    }
}

fn ciffer_tegn(d: u64) -> (c: char)
    requires
        d < 10,
    ensures
        c == ciffer(d as nat),
{
    if d == 0 { '0' } else if d == 1 { '1' } else if d == 2 { '2' } else if d == 3 { '3' }
    else if d == 4 { '4' } else if d == 5 { '5' } else if d == 6 { '6' } else if d == 7 { '7' }
    else if d == 8 { '8' } else { '9' }
}

/// Appends the decimal numeral of `n`.
pub fn skriv_decimal(s: &mut String, n: u64)
    ensures
        final(s)@ == old(s)@ + decimal(n as nat),
    decreases n,
{
    if n >= 10 {
        skriv_decimal(s, n / 10);
    }
    skub(s, ciffer_tegn(n % 10));
    proof {
        if n < 10 {
            assert(old(s)@ + decimal(n as nat) =~= old(s)@.push(ciffer(n as nat)));
        } else {
            assert(old(s)@ + decimal(n as nat) =~= (old(s)@ + decimal((n / 10) as nat)).push(ciffer((n % 10) as nat)));
        }
    }
}

/// The order of names: character by character by code point, a proper prefix first.
/// This is the order of Rust's `String` (bytewise UTF-8 order agrees with code point order).
pub open spec fn foer(a: Seq<char>, b: Seq<char>) -> bool
    decreases a.len(),
{
    if a.len() == 0 {
        b.len() > 0
    } else if b.len() == 0 {
        false
    } else if a[0] != b[0] {
        (a[0] as int) < (b[0] as int)
    } else {
        foer(a.drop_first(), b.drop_first())
    }
}

pub proof fn lemma_foer_irrefleksiv(a: Seq<char>)
    ensures
        !foer(a, a),
    decreases a.len(),
{
    if a.len() > 0 {
        lemma_foer_irrefleksiv(a.drop_first());
    }
}

pub proof fn lemma_foer_total(a: Seq<char>, b: Seq<char>)
    ensures
        a == b || foer(a, b) || foer(b, a),
        !(foer(a, b) && foer(b, a)),
    decreases a.len(),
{
    if a.len() > 0 && b.len() > 0 && a[0] == b[0] {
        lemma_foer_total(a.drop_first(), b.drop_first());
        if a.drop_first() == b.drop_first() {
            assert(a =~= seq![a[0]] + a.drop_first());
            assert(b =~= seq![b[0]] + b.drop_first());
        }
    } else if a.len() == 0 && b.len() == 0 {
        assert(a =~= b);
    } else if a.len() > 0 && b.len() > 0 {
        assert((a[0] as int) != (b[0] as int));
    }
}

pub proof fn lemma_foer_transitiv(a: Seq<char>, b: Seq<char>, c: Seq<char>)
    requires
        foer(a, b),
        foer(b, c),
    ensures
        foer(a, c),
    decreases a.len(),
{
    if a.len() > 0 && b.len() > 0 && c.len() > 0 && a[0] == b[0] && b[0] == c[0] {
        lemma_foer_transitiv(a.drop_first(), b.drop_first(), c.drop_first());
    }
}

proof fn lemma_foer_fra(a: Seq<char>, b: Seq<char>, i: int)
    requires
        0 <= i <= a.len(),
        i <= b.len(),
        a.take(i) == b.take(i),
    ensures
        foer(a, b) == foer(a.skip(i), b.skip(i)),
    decreases i,
{
    if i > 0 {
        assert(a[0] == a.take(i)[0]);
        assert(b[0] == b.take(i)[0]);
        assert(a.drop_first().take(i - 1) =~= a.take(i).drop_first());
        assert(b.drop_first().take(i - 1) =~= b.take(i).drop_first());
        lemma_foer_fra(a.drop_first(), b.drop_first(), i - 1);
        assert(a.drop_first().skip(i - 1) =~= a.skip(i));
        assert(b.drop_first().skip(i - 1) =~= b.skip(i));
    } else {
        assert(a.skip(0) =~= a);
        assert(b.skip(0) =~= b);
    }
}

/// Whether name `a` comes before name `b`.
pub fn kommer_foer(a: &str, b: &str) -> (r: bool)
    ensures
        r == foer(a@, b@),
{
    let va = tegn_af(a);
    let vb = tegn_af(b);
    let mut i: usize = 0;
    while i < va.len() && i < vb.len() && va[i] == vb[i]
        invariant
            va@ == a@,
            vb@ == b@,
            i <= va.len(),
            i <= vb.len(),
            va@.take(i as int) =~= vb@.take(i as int),
        decreases va.len() - i,
    {
        assert(va@.take(i + 1) =~= va@.take(i as int).push(va@[i as int]));
        assert(vb@.take(i + 1) =~= vb@.take(i as int).push(vb@[i as int]));
        i = i + 1;
    }
    proof {
        lemma_foer_fra(a@, b@, i as int);
    }
    if i == va.len() {
        i < vb.len()
    } else if i == vb.len() {
        false
    } else {
        va[i] < vb[i]
    }
}

} // verus!
