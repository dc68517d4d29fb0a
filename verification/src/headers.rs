//! A multi-valued header map with ASCII case-insensitive names.

use vstd::prelude::*;
use crate::strutil::{lower_seq, str_eq_ci};

verus! {

pub struct Header {
    pub name: String,
    pub value: String,
}

impl Clone for Header {
    fn clone(&self) -> (r: Self)
        ensures
            r == *self,
    {
        Header { name: self.name.clone(), value: self.value.clone() }
    }
}

/// The lookup key of a header name: its ASCII-lowercased characters.
pub open spec fn hkey(name: Seq<char>) -> Seq<char> {
    lower_seq(name)
}

/// A header map is modelled as the sequence of its (name, value) pairs.
pub struct Headers {
    pub items: Vec<Header>,
}

impl Clone for Headers {
    fn clone(&self) -> (r: Self)
        ensures
            r.items@ == self.items@,
    {
        let mut out: Vec<Header> = Vec::new();
        let mut i: usize = 0;
        while i < self.items.len()
            invariant
                i <= self.items@.len(),
                out@.len() == i,
                forall|j: int| 0 <= j < i ==> out@[j] == self.items@[j],
            decreases self.items@.len() - i,
        {
            out.push(self.items[i].clone());
            i = i + 1;
        }
        proof {
            assert(out@ =~= self.items@);
        }
        Headers { items: out }
    }
}

/// The value of the first entry whose name matches, if any.
pub open spec fn hm_value(m: Seq<(Seq<char>, Seq<char>)>, name: Seq<char>) -> Option<Seq<char>>
    decreases m.len(),
{
    if m.len() == 0 {
        None
    } else if hkey(m[0].0) == hkey(name) {
        Some(m[0].1)
    } else {
        hm_value(m.drop_first(), name)
    }
}

/// Whether the map holds an entry under the given name.
pub open spec fn hm_has(m: Seq<(Seq<char>, Seq<char>)>, name: Seq<char>) -> bool {
    hm_value(m, name) is Some
}

/// The map without any entry under the given name.
pub open spec fn hm_remove(m: Seq<(Seq<char>, Seq<char>)>, name: Seq<char>) -> Seq<
    (Seq<char>, Seq<char>),
>
    decreases m.len(),
{
    if m.len() == 0 {
        Seq::empty()
    } else if hkey(m[0].0) == hkey(name) {
        hm_remove(m.drop_first(), name)
    } else {
        seq![m[0]] + hm_remove(m.drop_first(), name)
    }
}

/// The map after a set: other names kept, the given name bound to exactly
/// this value.
pub open spec fn hm_set(
    m: Seq<(Seq<char>, Seq<char>)>,
    name: Seq<char>,
    value: Seq<char>,
) -> Seq<(Seq<char>, Seq<char>)> {
    hm_remove(m, name).push((name, value))
}

pub proof fn lemma_hm_value_push(m: Seq<(Seq<char>, Seq<char>)>, e: (Seq<char>, Seq<char>), n: Seq<char>)
    ensures
        hm_value(m.push(e), n) == (if hm_value(m, n) is Some {
            hm_value(m, n)
        } else if hkey(e.0) == hkey(n) {
            Some(e.1)
        } else {
            None
        }),
    decreases m.len(),
{
    if m.len() == 0 {
        assert(m.push(e)[0] == e);
        assert(m.push(e).drop_first() =~= m);
    } else {
        assert(m.push(e).drop_first() =~= m.drop_first().push(e));
        lemma_hm_value_push(m.drop_first(), e, n);
    }
}

pub proof fn lemma_hm_remove_push(m: Seq<(Seq<char>, Seq<char>)>, e: (Seq<char>, Seq<char>), n: Seq<char>)
    ensures
        hm_remove(m.push(e), n) == (if hkey(e.0) == hkey(n) {
            hm_remove(m, n)
        } else {
            hm_remove(m, n).push(e)
        }),
    decreases m.len(),
{
    if m.len() == 0 {
        assert(m.push(e)[0] == e);
        assert(m.push(e).drop_first() =~= m);
        if hkey(e.0) == hkey(n) {
        } else {
            assert(hm_remove(m.push(e), n) =~= hm_remove(m, n).push(e));
        }
    } else {
        assert(m.push(e).drop_first() =~= m.drop_first().push(e));
        lemma_hm_remove_push(m.drop_first(), e, n);
        if hkey(m[0].0) == hkey(n) {
        } else {
            if hkey(e.0) == hkey(n) {
            } else {
                assert(seq![m[0]] + hm_remove(m.drop_first(), n).push(e) =~= (seq![m[0]]
                    + hm_remove(m.drop_first(), n)).push(e));
            }
        }
    }
}

pub proof fn lemma_hm_value_remove(m: Seq<(Seq<char>, Seq<char>)>, n: Seq<char>, q: Seq<char>)
    ensures
        hm_value(hm_remove(m, n), q) == (if hkey(q) == hkey(n) {
            None
        } else {
            hm_value(m, q)
        }),
    decreases m.len(),
{
    if m.len() == 0 {
    } else {
        lemma_hm_value_remove(m.drop_first(), n, q);
        if hkey(m[0].0) == hkey(n) {
        } else {
            let rest = hm_remove(m.drop_first(), n);
            assert((seq![m[0]] + rest)[0] == m[0]);
            assert((seq![m[0]] + rest).drop_first() =~= rest);
        }
    }
}

/// What a set means for later lookups: the set name answers with the new
/// value, every other name answers as before.
pub proof fn lemma_hm_value_set(
    m: Seq<(Seq<char>, Seq<char>)>,
    n: Seq<char>,
    v: Seq<char>,
    q: Seq<char>,
)
    ensures
        hm_value(hm_set(m, n, v), q) == (if hkey(q) == hkey(n) {
            Some(v)
        } else {
            hm_value(m, q)
        }),
{
    lemma_hm_value_remove(m, n, q);
    lemma_hm_value_push(hm_remove(m, n), (n, v), q);
}

impl Headers {
    pub open spec fn model(self) -> Seq<(Seq<char>, Seq<char>)> {
        Seq::new(self.items@.len(), |i: int| (self.items@[i].name@, self.items@[i].value@))
    }

    pub fn new() -> (r: Headers)
        ensures
            r.model() =~= Seq::<(Seq<char>, Seq<char>)>::empty(),
    {
        Headers { items: Vec::new() }
    }

    pub fn len(&self) -> (r: usize)
        ensures
            r == self.model().len(),
    {
        self.items.len()
    }

    pub fn name_at(&self, i: usize) -> (r: &String)
        requires
            i < self.model().len(),
        ensures
            r@ == self.model()[i as int].0,
    {
        &self.items[i].name
    }

    pub fn value_at(&self, i: usize) -> (r: &String)
        requires
            i < self.model().len(),
        ensures
            r@ == self.model()[i as int].1,
    {
        &self.items[i].value
    }

    pub fn get(&self, name: &str) -> (r: Option<&String>)
        ensures
            match r {
                Some(v) => hm_value(self.model(), name@) == Some(v@),
                None => hm_value(self.model(), name@) is None,
            },
    {
        let ghost m = self.model();
        proof {
            assert(m.skip(0) =~= m);
        }
        let mut i: usize = 0;
        while i < self.items.len()
            invariant
                m == self.model(),
                i <= m.len(),
                hm_value(m, name@) == hm_value(m.skip(i as int), name@),
            decreases m.len() - i,
        {
            let ghost pre = m.skip(i as int);
            proof {
                assert(pre[0] == m[i as int]);
                assert(pre.drop_first() =~= m.skip(i + 1));
            }
            if str_eq_ci(self.items[i].name.as_str(), name) {
                return Some(&self.items[i].value);
            }
            i = i + 1;
        }
        proof {
            assert(m.skip(m.len() as int) =~= Seq::<(Seq<char>, Seq<char>)>::empty());
        }
        None
    }

    pub fn get_cloned(&self, name: &str) -> (r: Option<String>)
        ensures
            match r {
                Some(v) => hm_value(self.model(), name@) == Some(v@),
                None => hm_value(self.model(), name@) is None,
            },
    {
        match self.get(name) {
            Some(v) => Some(v.clone()),
            None => None,
        }
    }

    pub fn has(&self, name: &str) -> (r: bool)
        ensures
            r == hm_has(self.model(), name@),
    {
        match self.get(name) {
            Some(_) => true,
            None => false,
        }
    }

    /// Removes every entry under the name and appends one with the value.
    pub fn set(&mut self, name: &str, value: &str)
        ensures
            final(self).model() == hm_set(old(self).model(), name@, value@),
    {
        let ghost m = self.model();
        let mut out: Vec<Header> = Vec::new();
        let mut i: usize = 0;
        proof {
            assert(m.subrange(0, 0) =~= Seq::<(Seq<char>, Seq<char>)>::empty());
            assert((Headers { items: out }).model() =~= hm_remove(m.subrange(0, 0), name@));
        }
        while i < self.items.len()
            invariant
                m == self.model(),
                i <= m.len(),
                (Headers { items: out }).model() == hm_remove(m.subrange(0, i as int), name@),
            decreases m.len() - i,
        {
            let ghost pm = m.subrange(0, i as int);
            if str_eq_ci(self.items[i].name.as_str(), name) {
                proof {
                    lemma_hm_remove_push(pm, m[i as int], name@);
                    assert(m.subrange(0, i + 1) =~= pm.push(m[i as int]));
                }
            } else {
                let ghost oldmodel = (Headers { items: out }).model();
                out.push(self.items[i].clone());
                proof {
                    lemma_hm_remove_push(pm, m[i as int], name@);
                    assert(m.subrange(0, i + 1) =~= pm.push(m[i as int]));
                    assert((Headers { items: out }).model() =~= oldmodel.push(m[i as int]));
                }
            }
            i = i + 1;
        }
        let ghost removed = (Headers { items: out }).model();
        out.push(Header { name: name.to_owned(), value: value.to_owned() });
        proof {
            assert(m.subrange(0, m.len() as int) =~= m);
            assert((Headers { items: out }).model() =~= removed.push((name@, value@)));
        }
        self.items = out;
    }

    /// Removes every entry under the name.
    pub fn remove(&mut self, name: &str)
        ensures
            final(self).model() == hm_remove(old(self).model(), name@),
    {
        let ghost m = self.model();
        let mut out: Vec<Header> = Vec::new();
        let mut i: usize = 0;
        proof {
            assert(m.subrange(0, 0) =~= Seq::<(Seq<char>, Seq<char>)>::empty());
            assert((Headers { items: out }).model() =~= hm_remove(m.subrange(0, 0), name@));
        }
        while i < self.items.len()
            invariant
                m == self.model(),
                i <= m.len(),
                (Headers { items: out }).model() == hm_remove(m.subrange(0, i as int), name@),
            decreases m.len() - i,
        {
            let ghost pm = m.subrange(0, i as int);
            if str_eq_ci(self.items[i].name.as_str(), name) {
                proof {
                    lemma_hm_remove_push(pm, m[i as int], name@);
                    assert(m.subrange(0, i + 1) =~= pm.push(m[i as int]));
                }
            } else {
                let ghost oldmodel = (Headers { items: out }).model();
                out.push(self.items[i].clone());
                proof {
                    lemma_hm_remove_push(pm, m[i as int], name@);
                    assert(m.subrange(0, i + 1) =~= pm.push(m[i as int]));
                    assert((Headers { items: out }).model() =~= oldmodel.push(m[i as int]));
                }
            }
            i = i + 1;
        }
        proof {
            assert(m.subrange(0, m.len() as int) =~= m);
        }
        self.items = out;
    }
}

} // verus!
