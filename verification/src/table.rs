//! Identifier-keyed tables.
//!
//! The engine keys its force table and its snapshot maps by body identifier.
//! `AssocVec` is an association vector: lookups find the first entry with the
//! key, an insert overwrites that entry in place or appends a new one, so
//! insertion order is preserved — snapshots serialize deterministically.
//! Identifiers are compared as character sequences; `str_lt` is the
//! code-point lexicographic order, which on UTF-8 strings coincides with the
//! byte order.

use vstd::prelude::*;

verus! {

/// Code-point lexicographic order on character sequences.
pub open spec fn spec_chars_lt(a: Seq<char>, b: Seq<char>) -> bool
    decreases a.len(),
{
    if b.len() == 0 {
        false
    } else if a.len() == 0 {
        true
    } else if (a[0] as u32) < (b[0] as u32) {
        true
    } else if (b[0] as u32) < (a[0] as u32) {
        false
    } else {
        spec_chars_lt(a.drop_first(), b.drop_first())
    }
}

/// Whether the character sequences of two string slices are equal.
pub fn str_eq(a: &str, b: &str) -> (r: bool)
    ensures
        r == (a@ == b@),
{
    let la = a.unicode_len();
    let lb = b.unicode_len();
    if la != lb {
        return false;
    }
    let mut i: usize = 0;
    while i < la
        invariant
            i <= la,
            la == a@.len(),
            la == b@.len(),
            forall|j: int| 0 <= j < i ==> a@[j] == b@[j],
        decreases la - i,
    {
        if a.get_char(i) != b.get_char(i) {
            return false;
        }
        i += 1;
    }
    proof {
        assert(a@ =~= b@);
    }
    true
}

/// Whether `a` comes strictly before `b` in code-point lexicographic order.
pub fn str_lt(a: &str, b: &str) -> (r: bool)
    ensures
        r == spec_chars_lt(a@, b@),
{
    let la = a.unicode_len();
    let lb = b.unicode_len();
    let mut i: usize = 0;
    proof {
        assert(a@.skip(0) =~= a@);
        assert(b@.skip(0) =~= b@);
    }
    loop
        invariant
            i <= la,
            i <= lb,
            la == a@.len(),
            lb == b@.len(),
            spec_chars_lt(a@, b@) == spec_chars_lt(a@.skip(i as int), b@.skip(i as int)),
        decreases la - i,
    {
        if i >= lb {
            return false;
        }
        if i >= la {
            return true;
        }
        let ca: u32 = a.get_char(i) as u32;
        let cb: u32 = b.get_char(i) as u32;
        if ca < cb {
            return true;
        }
        if cb < ca {
            return false;
        }
        proof {
            assert(a@.skip(i as int).drop_first() =~= a@.skip(i as int + 1));
            assert(b@.skip(i as int).drop_first() =~= b@.skip(i as int + 1));
        }
        i += 1;
    }
}

/// No character sequence orders before itself.
pub proof fn lemma_chars_lt_irrefl(a: Seq<char>)
    ensures
        !spec_chars_lt(a, a),
    decreases a.len(),
{
    if a.len() > 0 {
        lemma_chars_lt_irrefl(a.drop_first());
    }
}

/// The order is asymmetric.
pub proof fn lemma_chars_lt_asym(a: Seq<char>, b: Seq<char>)
    requires
        spec_chars_lt(a, b),
    ensures
        !spec_chars_lt(b, a),
    decreases a.len(),
{
    if b.len() == 0 {
    } else if a.len() == 0 {
    } else if (a[0] as u32) < (b[0] as u32) {
    } else if (b[0] as u32) < (a[0] as u32) {
    } else {
        lemma_chars_lt_asym(a.drop_first(), b.drop_first());
    }
}

/// The index of the first entry with the given key.
pub open spec fn spec_find<V>(t: Seq<(Seq<char>, V)>, id: Seq<char>) -> Option<int>
    decreases t.len(),
{
    if t.len() == 0 {
        None
    } else if t[0].0 == id {
        Some(0int)
    } else {
        match spec_find(t.drop_first(), id) {
            Some(i) => Some(i + 1),
            None => None,
        }
    }
}

/// The value of the first entry with the given key.
pub open spec fn spec_lookup<V>(t: Seq<(Seq<char>, V)>, id: Seq<char>) -> Option<V> {
    match spec_find(t, id) {
        Some(i) => Some(t[i].1),
        None => None,
    }
}

/// Overwrites the first entry with the key, or appends a new entry.
pub open spec fn spec_insert<V>(t: Seq<(Seq<char>, V)>, id: Seq<char>, v: V) -> Seq<
    (Seq<char>, V),
> {
    match spec_find(t, id) {
        Some(i) => t.update(i, (id, v)),
        None => t.push((id, v)),
    }
}

/// Removes the first entry with the key, handing its value back.
pub open spec fn spec_remove_entry<V>(t: Seq<(Seq<char>, V)>, id: Seq<char>) -> (
    Seq<(Seq<char>, V)>,
    Option<V>,
) {
    match spec_find(t, id) {
        Some(i) => (t.remove(i), Some(t[i].1)),
        None => (t, None),
    }
}

/// What `spec_find` answers: the first index with the key, if any.
pub proof fn lemma_find_props<V>(t: Seq<(Seq<char>, V)>, id: Seq<char>)
    ensures
        match spec_find(t, id) {
            Some(i) => 0 <= i < t.len() && t[i].0 == id && (forall|j: int|
                0 <= j < i ==> t[j].0 != id),
            None => forall|j: int| 0 <= j < t.len() ==> t[j].0 != id,
        },
    decreases t.len(),
{
    if t.len() > 0 && t[0].0 != id {
        lemma_find_props(t.drop_first(), id);
        match spec_find(t.drop_first(), id) {
            Some(i) => {
                assert(t[i + 1] == t.drop_first()[i]);
                assert forall|j: int| 0 <= j < i + 1 implies t[j].0 != id by {
                    if j > 0 {
                        assert(t[j] == t.drop_first()[j - 1]);
                    }
                }
            },
            None => {
                assert forall|j: int| 0 <= j < t.len() implies t[j].0 != id by {
                    if j > 0 {
                        assert(t[j] == t.drop_first()[j - 1]);
                    }
                }
            },
        }
    }
}

/// `spec_find` answers any index shown to be the first one with the key.
pub proof fn lemma_find_is<V>(t: Seq<(Seq<char>, V)>, id: Seq<char>, i: int)
    requires
        0 <= i < t.len(),
        t[i].0 == id,
        forall|j: int| 0 <= j < i ==> t[j].0 != id,
    ensures
        spec_find(t, id) == Some(i),
    decreases t.len(),
{
    if i == 0 {
    } else {
        assert(t[0].0 != id);
        assert(t.drop_first()[i - 1] == t[i]);
        assert(forall|j: int| 0 <= j < i - 1 ==> t.drop_first()[j] == t[j + 1]);
        lemma_find_is(t.drop_first(), id, i - 1);
    }
}

/// After an insert, the inserted key looks up the inserted value.
pub proof fn lemma_insert_finds_self<V>(t: Seq<(Seq<char>, V)>, id: Seq<char>, v: V)
    ensures
        spec_lookup(spec_insert(t, id, v), id) == Some(v),
{
    lemma_find_props(t, id);
    match spec_find(t, id) {
        Some(i) => {
            let t2 = t.update(i, (id, v));
            assert(forall|x: int| 0 <= x < t.len() && x != i ==> t2[x] == t[x]);
            lemma_find_is(t2, id, i);
        },
        None => {
            let t2 = t.push((id, v));
            assert(forall|x: int| 0 <= x < t.len() ==> t2[x] == t[x]);
            assert(t2[t.len() as int].0 == id);
            lemma_find_is(t2, id, t.len() as int);
        },
    }
}

/// An insert leaves every lookup of a different key unchanged.
pub proof fn lemma_insert_preserves_lookup<V>(
    t: Seq<(Seq<char>, V)>,
    id: Seq<char>,
    v: V,
    b: Seq<char>,
)
    requires
        b != id,
    ensures
        spec_lookup(spec_insert(t, id, v), b) == spec_lookup(t, b),
{
    lemma_find_props(t, id);
    lemma_find_props(t, b);
    match spec_find(t, id) {
        Some(i) => {
            let t2 = t.update(i, (id, v));
            assert(forall|x: int| 0 <= x < t.len() && x != i ==> t2[x] == t[x]);
            assert(t2[i].0 == t[i].0);
            match spec_find(t, b) {
                Some(jb) => {
                    assert(jb != i);
                    assert(forall|x: int| 0 <= x < jb ==> t2[x].0 == t[x].0);
                    lemma_find_is(t2, b, jb);
                },
                None => {
                    lemma_find_props(t2, b);
                    if spec_find(t2, b) is Some {
                        let x = spec_find(t2, b)->Some_0;
                        assert(t2[x].0 == t[x].0);
                    }
                },
            }
        },
        None => {
            let t2 = t.push((id, v));
            assert(forall|x: int| 0 <= x < t.len() ==> t2[x] == t[x]);
            match spec_find(t, b) {
                Some(jb) => {
                    lemma_find_is(t2, b, jb);
                },
                None => {
                    lemma_find_props(t2, b);
                    if spec_find(t2, b) is Some {
                        let x = spec_find(t2, b)->Some_0;
                        assert(t2[x].0 == b);
                        assert(x == t.len());
                    }
                },
            }
        },
    }
}

/// Removing one key leaves every lookup of a different key unchanged.
pub proof fn lemma_remove_preserves_lookup<V>(
    t: Seq<(Seq<char>, V)>,
    a: Seq<char>,
    b: Seq<char>,
)
    requires
        a != b,
    ensures
        spec_lookup(spec_remove_entry(t, a).0, b) == spec_lookup(t, b),
{
    lemma_find_props(t, a);
    lemma_find_props(t, b);
    match spec_find(t, a) {
        None => {},
        Some(i) => {
            let t2 = t.remove(i);
            assert(forall|x: int| 0 <= x < i ==> t2[x] == t[x]);
            assert(forall|x: int| i <= x < t2.len() ==> t2[x] == t[x + 1]);
            match spec_find(t, b) {
                None => {
                    lemma_find_props(t2, b);
                    if spec_find(t2, b) is Some {
                        let x = spec_find(t2, b)->Some_0;
                        assert(t2[x].0 == b);
                    }
                },
                Some(jb) => {
                    assert(jb != i);
                    let jb2: int = if jb < i {
                        jb
                    } else {
                        jb - 1
                    };
                    assert(t2[jb2] == t[jb]);
                    assert(forall|x: int| 0 <= x < jb2 ==> t2[x].0 != b);
                    lemma_find_is(t2, b, jb2);
                },
            }
        },
    }
}

/// An association vector: entries in insertion order, looked up by the first
/// entry whose key matches.
pub struct AssocVec<V> {
    entries: Vec<(String, V)>,
}

impl<V> View for AssocVec<V> {
    type V = Seq<(Seq<char>, V)>;

    closed spec fn view(&self) -> Seq<(Seq<char>, V)> {
        self.entries@.map(|i: int, e: (String, V)| (e.0@, e.1))
    }
}

impl<V: Copy> AssocVec<V> {
    pub fn new() -> (r: AssocVec<V>)
        ensures
            r@ == Seq::<(Seq<char>, V)>::empty(),
    {
        let r = AssocVec { entries: Vec::new() };
        proof {
            assert(r@ =~= Seq::<(Seq<char>, V)>::empty());
        }
        r
    }

    pub fn len(&self) -> (r: usize)
        ensures
            r == self@.len(),
    {
        self.entries.len()
    }

    /// The entries in insertion order, as key-value pairs.
    pub fn entries(&self) -> (r: &Vec<(String, V)>)
        ensures
            r@.map(|i: int, e: (String, V)| (e.0@, e.1)) == self@,
    {
        &self.entries
    }

    fn find(&self, id: &str) -> (r: Option<usize>)
        ensures
            match r {
                Some(k) => k < self.entries@.len() && spec_find(self@, id@) == Some(k as int),
                None => spec_find(self@, id@) is None,
            },
    {
        let n = self.entries.len();
        let mut k: usize = 0;
        while k < n
            invariant
                k <= n,
                n == self@.len(),
                n == self.entries@.len(),
                forall|j: int| 0 <= j < k ==> self@[j].0 != id@,
            decreases n - k,
        {
            if str_eq(self.entries[k].0.as_str(), id) {
                proof {
                    lemma_find_is(self@, id@, k as int);
                }
                return Some(k);
            }
            k += 1;
        }
        proof {
            lemma_find_props(self@, id@);
            if spec_find(self@, id@) is Some {
                let x = spec_find(self@, id@)->Some_0;
                assert(self@[x].0 == id@);
            }
        }
        None
    }

    /// The value of the first entry with the key, if any.
    pub fn get(&self, id: &str) -> (r: Option<V>)
        ensures
            r == spec_lookup(self@, id@),
    {
        match self.find(id) {
            Some(k) => Some(self.entries[k].1),
            None => None,
        }
    }

    /// Overwrites the entry with this key in place, or appends a new one.
    pub fn insert(&mut self, id: String, v: V)
        ensures
            final(self)@ == spec_insert(old(self)@, id@, v),
    {
        match self.find(id.as_str()) {
            Some(k) => {
                self.entries.remove(k);
                self.entries.insert(k, (id, v));
                proof {
                    lemma_find_props(old(self)@, id@);
                    assert(self@ =~= old(self)@.update(
                        spec_find(old(self)@, id@)->Some_0,
                        (id@, v),
                    ));
                }
            },
            None => {
                self.entries.push((id, v));
                proof {
                    assert(self@ =~= old(self)@.push((id@, v)));
                }
            },
        }
    }

    /// Removes the first entry with the key, handing its value back.
    pub fn remove(&mut self, id: &str) -> (r: Option<V>)
        ensures
            final(self)@ == spec_remove_entry(old(self)@, id@).0,
            r == spec_remove_entry(old(self)@, id@).1,
    {
        match self.find(id) {
            Some(k) => {
                let (_key, v) = self.entries.remove(k);
                proof {
                    assert(self@ =~= old(self)@.remove(k as int));
                }
                Some(v)
            },
            None => None,
        }
    }
}

} // verus!
