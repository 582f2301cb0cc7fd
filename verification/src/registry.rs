//! The plugin name registry.
//!
//! The registry indexes the plugins the host has loaded, by the name each
//! module reports for itself. The handles to the loaded modules live with
//! the host application, which keeps its handle table in step with this
//! index; the core decides membership here. The mapping is immutable per
//! version: a reload hands in the complete new name list and the old one
//! is replaced wholesale, never edited in place, so a reader always sees
//! one consistent version. The registry is an ordered set: the names are
//! kept strictly ascending in lexicographic order, so the list it hands
//! out is sorted and free of duplicates.

use vstd::prelude::*;

verus! {

/// Strict lexicographic order on texts, by code point.
pub open spec fn lex_lt(a: Seq<char>, b: Seq<char>) -> bool
    decreases a.len(),
{
    if b.len() == 0 {
        false
    } else if a.len() == 0 {
        true
    } else if a.first() != b.first() {
        (a.first() as int) < (b.first() as int)
    } else {
        lex_lt(a.drop_first(), b.drop_first())
    }
}

/// Each text of the sequence is lexicographically below the next: the
/// sequence is sorted and free of duplicates.
pub open spec fn strictly_ascending(s: Seq<Seq<char>>) -> bool {
    forall|i: int, j: int| 0 <= i < j < s.len() ==> lex_lt(s[i], s[j])
}

/// No text is below itself.
pub proof fn lemma_lex_irrefl(a: Seq<char>)
    ensures
        !lex_lt(a, a),
    decreases a.len(),
{
    if a.len() > 0 {
        lemma_lex_irrefl(a.drop_first());
    }
}

/// Two distinct texts are ordered one way or the other.
pub proof fn lemma_lex_total(a: Seq<char>, b: Seq<char>)
    requires
        a != b,
    ensures
        lex_lt(a, b) || lex_lt(b, a),
    decreases a.len(),
{
    if a.len() == 0 {
        if b.len() == 0 {
            assert(a =~= b);
        } else {
            assert(lex_lt(a, b));
        }
    } else if b.len() == 0 {
        assert(lex_lt(b, a));
    } else if a.first() == b.first() {
        if a.drop_first() == b.drop_first() {
            assert(a =~= seq![a.first()] + a.drop_first());
            assert(b =~= seq![b.first()] + b.drop_first());
        } else {
            lemma_lex_total(a.drop_first(), b.drop_first());
        }
    } else {
        assert((a.first() as int) != (b.first() as int));
        if (a.first() as int) < (b.first() as int) {
            assert(lex_lt(a, b));
        } else {
            assert(lex_lt(b, a));
        }
    }
}

/// The order is transitive.
pub proof fn lemma_lex_trans(a: Seq<char>, b: Seq<char>, c: Seq<char>)
    requires
        lex_lt(a, b),
        lex_lt(b, c),
    ensures
        lex_lt(a, c),
    decreases a.len(),
{
    if a.len() > 0 && b.len() > 0 && c.len() > 0 && a.first() == b.first() && b.first()
        == c.first() {
        lemma_lex_trans(a.drop_first(), b.drop_first(), c.drop_first());
    }
}

pub struct Registry {
    names: Vec<String>,
}

impl Registry {
    /// The registered names, in ascending order.
    pub closed spec fn names_seq(&self) -> Seq<Seq<char>> {
        self.names@.map_values(|s: String| s@)
    }

    /// Whether a plugin of this name is registered.
    pub open spec fn has_name(&self, n: Seq<char>) -> bool {
        self.names_seq().contains(n)
    }

    /// The names are strictly ascending: sorted, each registered once.
    pub open spec fn wf(&self) -> bool {
        strictly_ascending(self.names_seq())
    }

    pub fn new() -> (r: Self)
        ensures
            r.wf(),
            r.names_seq() == Seq::<Seq<char>>::empty(),
    {
        let r = Registry { names: Vec::new() };
        proof {
            assert(r.names_seq() =~= Seq::<Seq<char>>::empty());
        }
        r
    }

    /// Whether `name` is registered in this version of the mapping.
    pub fn lookup(&self, name: &String) -> (r: bool)
        ensures
            r == self.has_name(name@),
    {
        let mut i: usize = 0;
        while i < self.names.len()
            invariant
                0 <= i <= self.names@.len(),
                forall|j: int| 0 <= j < i ==> self.names@[j]@ != name@,
            decreases self.names@.len() - i,
        {
            if self.names[i].eq(name) {
                proof {
                    assert(self.names_seq()[i as int] == name@);
                }
                return true;
            }
            i = i + 1;
        }
        proof {
            if self.has_name(name@) {
                let j = choose|j: int|
                    0 <= j < self.names_seq().len() && self.names_seq()[j] == name@;
                assert(self.names@[j]@ == name@);
            }
        }
        false
    }

    /// Place one name at its position in the ascending order; a name
    /// already registered is left as it is.
    fn insert_sorted(&mut self, name: String)
        requires
            old(self).wf(),
        ensures
            final(self).wf(),
            forall|n: Seq<char>|
                #[trigger] final(self).has_name(n) <==> old(self).has_name(n) || n == name@,
    {
        let ghost pre = self.names_seq();
        let mut i: usize = 0;
        while i < self.names.len() && str_lt(&self.names[i], &name)
            invariant
                self.names@ == old(self).names@,
                0 <= i <= self.names@.len(),
                forall|j: int| 0 <= j < i ==> lex_lt(self.names@[j]@, name@),
            decreases self.names@.len() - i,
        {
            i = i + 1;
        }
        if i < self.names.len() && self.names[i].eq(&name) {
            proof {
                assert(self.names_seq()[i as int] == name@);
                assert(self.has_name(name@));
            }
            return;
        }
        proof {
            if i < self.names@.len() {
                assert(pre[i as int] == self.names@[i as int]@);
                lemma_lex_total(name@, pre[i as int]);
                assert(lex_lt(name@, pre[i as int]));
            }
        }
        self.names.insert(i, name);
        proof {
            let i = i as int;
            let nsq = self.names_seq();
            assert forall|p: int| 0 <= p < nsq.len() implies nsq[p] == (if p < i {
                pre[p]
            } else if p == i {
                name@
            } else {
                pre[p - 1]
            }) by {
                assert(nsq[p] == self.names@[p]@);
            }
            assert forall|p: int, q: int| 0 <= p < q < nsq.len() implies lex_lt(
                nsq[p],
                nsq[q],
            ) by {
                if q < i {
                    assert(lex_lt(pre[p], pre[q]));
                } else if q == i {
                    assert(lex_lt(pre[p], name@));
                } else if p < i {
                    assert(lex_lt(pre[p], pre[q - 1]));
                } else if p == i {
                    if q - 1 == i {
                        assert(lex_lt(name@, pre[i]));
                    } else {
                        lemma_lex_trans(name@, pre[i], pre[q - 1]);
                    }
                } else {
                    assert(lex_lt(pre[p - 1], pre[q - 1]));
                }
            }
            assert forall|n: Seq<char>|
                #[trigger] self.has_name(n) implies (pre.contains(n) || n == name@) by {
                let j = choose|j: int| 0 <= j < nsq.len() && nsq[j] == n;
                if j < i {
                    assert(pre[j] == n);
                } else if j > i {
                    assert(pre[j - 1] == n);
                }
            }
            assert forall|n: Seq<char>|
                pre.contains(n) || n == name@ implies #[trigger] self.has_name(n) by {
                if pre.contains(n) {
                    let j = choose|j: int| 0 <= j < pre.len() && pre[j] == n;
                    if j < i {
                        assert(nsq[j] == n);
                    } else {
                        assert(nsq[j + 1] == n);
                    }
                } else {
                    assert(nsq[i] == n);
                }
            }
        }
    }

    /// Replace the whole mapping with the given names; a name listed more
    /// than once is kept once. Afterwards exactly the given names are
    /// registered, in ascending order.
    pub fn install(&mut self, names: Vec<String>)
        ensures
            final(self).wf(),
            forall|n: Seq<char>|
                #[trigger] final(self).has_name(n) <==> names@.map_values(
                    |s: String| s@,
                ).contains(n),
    {
        self.names = Vec::new();
        proof {
            assert(self.names_seq() =~= Seq::<Seq<char>>::empty());
            assert(names@.take(0).map_values(|s: String| s@) =~= Seq::<Seq<char>>::empty());
        }
        let mut i: usize = 0;
        while i < names.len()
            invariant
                0 <= i <= names@.len(),
                self.wf(),
                forall|n: Seq<char>|
                    #[trigger] self.has_name(n) <==> names@.take(i as int).map_values(
                        |s: String| s@,
                    ).contains(n),
            decreases names@.len() - i,
        {
            let ghost prev = names@.take(i as int).map_values(|s: String| s@);
            let ghost entry = self.names_seq();
            proof {
                assert forall|n: Seq<char>|
                    #[trigger] entry.contains(n) <==> prev.contains(n) by {
                    assert(self.has_name(n) <==> names@.take(i as int).map_values(
                        |s: String| s@,
                    ).contains(n));
                }
            }
            self.insert_sorted(names[i].clone());
            i = i + 1;
            proof {
                let cseq = names@[i - 1]@;
                let taken = names@.take(i as int).map_values(|s: String| s@);
                assert(taken =~= prev.push(cseq));
                assert forall|n: Seq<char>| #[trigger] self.has_name(n) implies taken.contains(
                    n,
                ) by {
                    if entry.contains(n) {
                        assert(prev.contains(n));
                        let w = choose|w: int| 0 <= w < prev.len() && prev[w] == n;
                        assert(taken[w] == n);
                    } else {
                        assert(n == cseq);
                        assert(taken[taken.len() - 1] == n);
                    }
                }
                assert forall|n: Seq<char>| taken.contains(n) implies #[trigger] self.has_name(
                    n,
                ) by {
                    let j = choose|j: int| 0 <= j < taken.len() && taken[j] == n;
                    if j < taken.len() - 1 {
                        assert(prev[j] == n);
                        assert(prev.contains(n));
                        assert(entry.contains(n));
                    } else {
                        assert(n == cseq);
                    }
                }
            }
        }
        proof {
            assert(names@.take(names@.len() as int) =~= names@);
        }
    }

    /// The registered names as a fresh vector: complete, sorted in
    /// ascending order, each exactly once.
    pub fn list(&self) -> (r: Vec<String>)
        requires
            self.wf(),
        ensures
            r@.map_values(|s: String| s@) == self.names_seq(),
            forall|i: int, j: int| 0 <= i < j < r@.len() ==> lex_lt(r@[i]@, r@[j]@),
            forall|i: int, j: int| 0 <= i < j < r@.len() ==> r@[i]@ != r@[j]@,
    {
        let mut out: Vec<String> = Vec::new();
        proof {
            assert(out@.map_values(|s: String| s@) =~= self.names_seq().take(0));
        }
        let mut i: usize = 0;
        while i < self.names.len()
            invariant
                0 <= i <= self.names@.len(),
                out@.map_values(|s: String| s@) == self.names_seq().take(i as int),
            decreases self.names@.len() - i,
        {
            out.push(self.names[i].clone());
            i = i + 1;
            proof {
                assert(out@.map_values(|s: String| s@) =~= self.names_seq().take(i - 1).push(
                    self.names@[i - 1]@,
                ));
                assert(self.names_seq().take(i as int) =~= self.names_seq().take(i - 1).push(
                    self.names_seq()[i - 1],
                ));
            }
        }
        proof {
            assert(self.names_seq().take(i as int) =~= self.names_seq());
            assert forall|a: int, b: int| 0 <= a < b < out@.len() implies lex_lt(
                out@[a]@,
                out@[b]@,
            ) by {
                assert(out@.map_values(|s: String| s@)[a] == out@[a]@);
                assert(out@.map_values(|s: String| s@)[b] == out@[b]@);
            }
            assert forall|a: int, b: int| 0 <= a < b < out@.len() implies out@[a]@ != out@[b]@ by {
                if out@[a]@ == out@[b]@ {
                    lemma_lex_irrefl(out@[a]@);
                }
            }
        }
        out
    }
}

/// Lexicographic comparison of two names, mirroring `lex_lt`.
fn str_lt(a: &String, b: &String) -> (r: bool)
    ensures
        r == lex_lt(a@, b@),
{
    let an = a.as_str().unicode_len();
    let bn = b.as_str().unicode_len();
    let mut i: usize = 0;
    proof {
        assert(a@.skip(0) =~= a@);
        assert(b@.skip(0) =~= b@);
    }
    while i < an && i < bn
        invariant
            an == a@.len(),
            bn == b@.len(),
            0 <= i <= an,
            i <= bn,
            lex_lt(a@, b@) == lex_lt(a@.skip(i as int), b@.skip(i as int)),
        decreases an - i,
    {
        let ca = a.as_str().get_char(i);
        let cb = b.as_str().get_char(i);
        proof {
            assert(a@.skip(i as int).first() == a@[i as int]);
            assert(b@.skip(i as int).first() == b@[i as int]);
        }
        if ca != cb {
            return (ca as u32) < (cb as u32);
        }
        i = i + 1;
        proof {
            assert(a@.skip(i - 1).drop_first() =~= a@.skip(i as int));
            assert(b@.skip(i - 1).drop_first() =~= b@.skip(i as int));
        }
    }
    proof {
        if i < bn {
            assert(a@.skip(i as int).len() == 0);
            assert(lex_lt(a@.skip(i as int), b@.skip(i as int)));
        } else {
            assert(b@.skip(i as int).len() == 0);
            assert(!lex_lt(a@.skip(i as int), b@.skip(i as int)));
        }
    }
    i < bn
}

} // verus!
