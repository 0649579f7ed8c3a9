//! A table from names to values, kept in the order of the names.
use vstd::prelude::*;
use crate::tekst::{foer, kommer_foer, lemma_foer_irrefleksiv, lemma_foer_total, lemma_foer_transitiv};

verus! {

/// The value stored under a name, if any.
pub open spec fn slaa_op<W>(t: Seq<(Seq<char>, W)>, k: Seq<char>) -> Option<W>
    decreases t.len(),
{
    if t.len() == 0 {
        None
    } else if t[0].0 == k {
        Some(t[0].1)
    } else {
        slaa_op(t.drop_first(), k)
    }
}

/// The table with `k` bound to `v`: an existing binding of `k` is replaced,
/// otherwise the binding is placed before the first greater name.
pub open spec fn indsaet<W>(t: Seq<(Seq<char>, W)>, k: Seq<char>, v: W) -> Seq<(Seq<char>, W)>
    decreases t.len(),
{
    if t.len() == 0 {
        seq![(k, v)]
    } else if t[0].0 == k {
        t.update(0, (k, v))
    } else if foer(k, t[0].0) {
        seq![(k, v)] + t
    } else {
        seq![t[0]] + indsaet(t.drop_first(), k, v)
    }
}

/// The names of the table strictly increase.
pub open spec fn sorteret<W>(t: Seq<(Seq<char>, W)>) -> bool {
    forall|i: int, j: int| 0 <= i < j < t.len() ==> foer(#[trigger] t[i].0, #[trigger] t[j].0)
}

proof fn lemma_slaa_op_fra<W>(t: Seq<(Seq<char>, W)>, k: Seq<char>, i: int)
    requires
        0 <= i <= t.len(),
        forall|j: int| 0 <= j < i ==> t[j].0 != k,
    ensures
        slaa_op(t, k) == slaa_op(t.skip(i), k),
    decreases i,
{
    if i == 0 {
        assert(t.skip(0) =~= t);
    } else {
        assert(t[0].0 != k);
        lemma_slaa_op_fra(t.drop_first(), k, i - 1);
        assert(t.drop_first().skip(i - 1) =~= t.skip(i));
    }
}

proof fn lemma_indsaet_ved<W>(t: Seq<(Seq<char>, W)>, k: Seq<char>, v: W, i: int)
    requires
        0 <= i <= t.len(),
        forall|j: int| 0 <= j < i ==> foer(#[trigger] t[j].0, k),
        i == t.len() || !foer(t[i].0, k),
    ensures
        indsaet(t, k, v) == (if i < t.len() && t[i].0 == k {
            t.update(i, (k, v))
        } else {
            t.insert(i, (k, v))
        }),
    decreases i,
{
    if i == 0 {
        if t.len() == 0 {
            assert(seq![(k, v)] =~= t.insert(0, (k, v)));
        } else if t[0].0 != k {
            lemma_foer_total(k, t[0].0);
            assert(seq![(k, v)] + t =~= t.insert(0, (k, v)));
        }
    } else {
        assert(foer(t[0].0, k));
        lemma_foer_irrefleksiv(k);
        lemma_foer_total(k, t[0].0);
        let r = t.drop_first();
        assert forall|j: int| 0 <= j < i - 1 implies foer(#[trigger] r[j].0, k) by {
            assert(r[j] == t[j + 1]);
        }
        lemma_indsaet_ved(r, k, v, i - 1);
        if i < t.len() && t[i].0 == k {
            assert(seq![t[0]] + r.update(i - 1, (k, v)) =~= t.update(i, (k, v)));
        } else {
            assert(seq![t[0]] + r.insert(i - 1, (k, v)) =~= t.insert(i, (k, v)));
        }
    }
}

/// Binding a name keeps the names in order.
pub proof fn lemma_indsaet_sorteret<W>(t: Seq<(Seq<char>, W)>, k: Seq<char>, v: W)
    requires
        sorteret(t),
    ensures
        sorteret(indsaet(t, k, v)),
    decreases t.len(),
{
    if t.len() == 0 {
    } else if t[0].0 == k {
        let u = indsaet(t, k, v);
        assert forall|i: int, j: int| 0 <= i < j < u.len() implies foer(#[trigger] u[i].0, #[trigger] u[j].0) by {
            assert(u[i].0 == t[i].0);
            assert(u[j].0 == t[j].0);
        }
    } else if foer(k, t[0].0) {
        let u = indsaet(t, k, v);
        assert forall|i: int, j: int| 0 <= i < j < u.len() implies foer(#[trigger] u[i].0, #[trigger] u[j].0) by {
            if i == 0 {
                if j > 1 {
                    assert(foer(t[0].0, t[j - 1].0));
                    lemma_foer_transitiv(k, t[0].0, t[j - 1].0);
                }
            } else {
                assert(u[i] == t[i - 1]);
                assert(u[j] == t[j - 1]);
            }
        }
    } else {
        lemma_foer_total(k, t[0].0);
        let r = t.drop_first();
        assert(sorteret(r)) by {
            assert forall|i: int, j: int| 0 <= i < j < r.len() implies foer(#[trigger] r[i].0, #[trigger] r[j].0) by {
                assert(r[i] == t[i + 1]);
                assert(r[j] == t[j + 1]);
            }
        }
        lemma_indsaet_sorteret(r, k, v);
        lemma_indsaet_navne(r, k, v);
        let u = indsaet(t, k, v);
        assert forall|i: int, j: int| 0 <= i < j < u.len() implies foer(#[trigger] u[i].0, #[trigger] u[j].0) by {
            if i == 0 {
                let x = indsaet(r, k, v)[j - 1].0;
                if x == k {
                } else {
                    let m = choose|m: int| 0 <= m < r.len() && r[m].0 == x;
                    assert(r[m] == t[m + 1]);
                }
            } else {
                assert(u[i] == indsaet(r, k, v)[i - 1]);
                assert(u[j] == indsaet(r, k, v)[j - 1]);
            }
        }
    }
}

/// Every name of a table after binding `k` is `k` or a name it had before.
pub proof fn lemma_indsaet_navne<W>(t: Seq<(Seq<char>, W)>, k: Seq<char>, v: W)
    ensures
        forall|i: int| 0 <= i < indsaet(t, k, v).len() ==>
            (#[trigger] indsaet(t, k, v)[i]).0 == k
            || exists|m: int| 0 <= m < t.len() && t[m].0 == indsaet(t, k, v)[i].0,
    decreases t.len(),
{
    let u = indsaet(t, k, v);
    if t.len() == 0 {
    } else if t[0].0 == k {
        assert forall|i: int| 0 <= i < u.len() implies
            (#[trigger] u[i]).0 == k || exists|m: int| 0 <= m < t.len() && t[m].0 == u[i].0 by {
            if i > 0 {
                assert(t[i].0 == u[i].0);
            }
        }
    } else if foer(k, t[0].0) {
        assert forall|i: int| 0 <= i < u.len() implies
            (#[trigger] u[i]).0 == k || exists|m: int| 0 <= m < t.len() && t[m].0 == u[i].0 by {
            if i > 0 {
                assert(t[i - 1].0 == u[i].0);
            }
        }
    } else {
        let r = t.drop_first();
        lemma_indsaet_navne(r, k, v);
        assert forall|i: int| 0 <= i < u.len() implies
            (#[trigger] u[i]).0 == k || exists|m: int| 0 <= m < t.len() && t[m].0 == u[i].0 by {
            if i == 0 {
                assert(t[0].0 == u[0].0);
            } else {
                assert(u[i] == indsaet(r, k, v)[i - 1]);
                if u[i].0 != k {
                    let m = choose|m: int| 0 <= m < r.len() && r[m].0 == u[i].0;
                    assert(t[m + 1] == r[m]);
                }
            }
        }
    }
}

/// Reading a name after binding it gives the bound value; other names keep
/// their values.
pub proof fn lemma_slaa_op_indsaet<W>(t: Seq<(Seq<char>, W)>, k: Seq<char>, v: W, x: Seq<char>)
    ensures
        slaa_op(indsaet(t, k, v), x) == if x == k { Some(v) } else { slaa_op(t, x) },
    decreases t.len(),
{
    let u = indsaet(t, k, v);
    if t.len() == 0 {
        assert(u.drop_first() =~= Seq::<(Seq<char>, W)>::empty());
        assert(u[0] == (k, v));
        assert(slaa_op(u, x) == if x == k { Some(v) } else { slaa_op(t, x) });
    } else if t[0].0 == k {
        assert(u.drop_first() =~= t.drop_first());
        assert(u[0] == (k, v));
        assert(u.len() > 0);
        assert(slaa_op(u, x) == if x == k { Some(v) } else { slaa_op(t, x) });
    } else if foer(k, t[0].0) {
        assert(u.drop_first() =~= t);
        assert(u[0] == (k, v));
        assert(slaa_op(u, x) == if x == k { Some(v) } else { slaa_op(t, x) });
    } else {
        lemma_slaa_op_indsaet(t.drop_first(), k, v, x);
        assert(u.drop_first() =~= indsaet(t.drop_first(), k, v));
        assert(u[0] == t[0]);
        assert(slaa_op(u, x) == if x == k { Some(v) } else { slaa_op(t, x) });
    }
}

/// A table from names to values, with the names in increasing order.
pub struct Tabel<V> {
    poster: Vec<(String, V)>,
}

impl<V: View> View for Tabel<V> {
    type V = Seq<(Seq<char>, V::V)>;

    closed spec fn view(&self) -> Seq<(Seq<char>, V::V)> {
        Seq::new(self.poster@.len(), |i: int| (self.poster@[i].0@, self.poster@[i].1@))
    }
}

impl<V: View> Tabel<V> {
    /// An empty table.
    pub fn ny() -> (t: Tabel<V>)
        ensures
            t@ == Seq::<(Seq<char>, V::V)>::empty(),
    {
        let t = Tabel { poster: Vec::new() };
        assert(t@ =~= Seq::<(Seq<char>, V::V)>::empty());
        t
    }

    /// The number of bindings.
    pub fn laengde(&self) -> (n: usize)
        ensures
            n == self@.len(),
    {
        self.poster.len()
    }

    /// The binding at a position.
    pub fn post(&self, i: usize) -> (r: (&String, &V))
        requires
            i < self@.len(),
        ensures
            r.0@ == self@[i as int].0,
            r.1@ == self@[i as int].1,
    {
        let p = &self.poster[i];
        (&p.0, &p.1)
    }

    /// The value bound to a name.
    pub fn find(&self, k: &String) -> (r: Option<&V>)
        ensures
            match r {
                Some(x) => slaa_op(self@, k@) == Some(x@),
                None => slaa_op(self@, k@) is None,
            },
    {
        let mut i: usize = 0;
        while i < self.poster.len()
            invariant
                i <= self@.len(),
                self@.len() == self.poster@.len(),
                forall|j: int| 0 <= j < i ==> self@[j].0 != k@,
            decreases self.poster.len() - i,
        {
            if self.poster[i].0 == *k {
                proof {
                    lemma_slaa_op_fra(self@, k@, i as int);
                }
                return Some(&self.poster[i].1);
            }
            i = i + 1;
        }
        proof {
            lemma_slaa_op_fra(self@, k@, i as int);
        }
        None
    }

    /// Binds a name to a value.
    pub fn indsaet(&mut self, k: String, v: V)
        ensures
            final(self)@ == indsaet(old(self)@, k@, v@),
    {
        let mut i: usize = 0;
        while i < self.poster.len() && kommer_foer(self.poster[i].0.as_str(), k.as_str())
            invariant
                i <= self@.len(),
                self@.len() == self.poster@.len(),
                self@ == old(self)@,
                forall|j: int| 0 <= j < i ==> foer(#[trigger] self@[j].0, k@),
            decreases self.poster.len() - i,
        {
            i = i + 1;
        }
        proof {
            lemma_indsaet_ved(self@, k@, v@, i as int);
        }
        let ghost gammel = self@;
        if i < self.poster.len() && self.poster[i].0 == k {
            self.poster.set(i, (k, v));
            assert(self@ =~= gammel.update(i as int, (k@, v@)));
        } else {
            self.poster.insert(i, (k, v));
            assert(self@ =~= gammel.insert(i as int, (k@, v@)));
        }
    }
}

} // verus!
