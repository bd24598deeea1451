//! A plain-value model of an HTTP header map: ordered name/value pairs of
//! bytes, looked up by first match. Names are expected in their HTTP/2
//! lowercase form.

use vstd::prelude::*;

verus! {

/// First matching value for `name`, if any.
pub open spec fn lookup(entries: Seq<(Seq<u8>, Seq<u8>)>, name: Seq<u8>) -> Option<Seq<u8>>
    decreases entries.len(),
{
    if entries.len() == 0 {
        None
    } else if entries[0].0 == name {
        Some(entries[0].1)
    } else {
        lookup(entries.skip(1), name)
    }
}

/// `lookup` finds the value at the first index whose name matches.
pub proof fn lemma_lookup_at_first_match(
    entries: Seq<(Seq<u8>, Seq<u8>)>,
    name: Seq<u8>,
    i: int,
)
    requires
        0 <= i < entries.len(),
        entries[i].0 == name,
        forall|j: int| 0 <= j < i ==> entries[j].0 != name,
    ensures
        lookup(entries, name) == Some(entries[i].1),
    decreases i,
{
    if i == 0 {
    } else {
        assert(entries[0].0 != name);
        lemma_lookup_at_first_match(entries.skip(1), name, i - 1);
    }
}

/// `lookup` misses exactly when no entry carries the name.
pub proof fn lemma_lookup_none(entries: Seq<(Seq<u8>, Seq<u8>)>, name: Seq<u8>)
    requires
        forall|j: int| 0 <= j < entries.len() ==> entries[j].0 != name,
    ensures
        lookup(entries, name) is None,
    decreases entries.len(),
{
    if entries.len() > 0 {
        lemma_lookup_none(entries.skip(1), name);
    }
}

/// Byte-slice equality, decided element by element.
pub fn bytes_eq(a: &[u8], b: &[u8]) -> (r: bool)
    ensures
        r == (a@ == b@),
{
    if a.len() != b.len() {
        assert(a@ != b@) by {
            assert(a@.len() != b@.len());
        }
        return false;
    }
    let n = a.len();
    let mut i: usize = 0;
    while i < n
        invariant
            n == a@.len() == b@.len(),
            0 <= i <= n,
            forall|j: int| 0 <= j < i ==> a@[j] == b@[j],
        decreases n - i,
    {
        if a[i] != b[i] {
            return false;
        }
        i += 1;
    }
    proof {
        assert(a@ =~= b@);
    }
    true
}

/// The bytes of an ASCII character sequence, one byte per character.
pub open spec fn ascii_bytes(s: Seq<char>) -> Seq<u8> {
    Seq::new(s.len(), |i: int| s[i] as u8)
}

/// The bytes of an ASCII string slice, as a fresh vector.
pub fn ascii_literal_bytes(s: &str) -> (r: Vec<u8>)
    requires
        vstd::string::is_ascii(s),
    ensures
        r@ == ascii_bytes(s@),
{
    let b = s.as_bytes();
    proof {
        vstd::string::is_ascii_spec_bytes(s);
        assert(b@ =~= ascii_bytes(s@));
    }
    vstd::slice::slice_to_vec(b)
}

/// A fresh copy of a byte vector.
pub fn clone_bytes(v: &Vec<u8>) -> (r: Vec<u8>)
    ensures
        r@ == v@,
{
    let r = v.clone();
    proof {
        assert(r@ =~= v@);
    }
    r
}

/// The predicate that keeps every entry but those under `name`.
pub open spec fn keeps_other(name: Seq<u8>) -> spec_fn((Seq<u8>, Seq<u8>)) -> bool {
    |e: (Seq<u8>, Seq<u8>)| e.0 != name
}

/// An ordered collection of header entries.
#[derive(Debug)]
pub struct HeaderMap {
    entries: Vec<(Vec<u8>, Vec<u8>)>,
}

impl View for HeaderMap {
    type V = Seq<(Seq<u8>, Seq<u8>)>;

    closed spec fn view(&self) -> Seq<(Seq<u8>, Seq<u8>)> {
        self.entries@.map_values(|e: (Vec<u8>, Vec<u8>)| (e.0@, e.1@))
    }
}

impl Clone for HeaderMap {
    fn clone(&self) -> (r: Self)
        ensures
            r@ == self@,
    {
        let n = self.entries.len();
        let mut entries: Vec<(Vec<u8>, Vec<u8>)> = Vec::new();
        let mut i: usize = 0;
        while i < n
            invariant
                n == self.entries.len(),
                0 <= i <= n,
                entries@.map_values(|e: (Vec<u8>, Vec<u8>)| (e.0@, e.1@)) =~= self@.take(i as int),
            decreases n - i,
        {
            let c0 = self.entries[i].0.clone();
            let c1 = self.entries[i].1.clone();
            let ghost prev = entries@.map_values(|e: (Vec<u8>, Vec<u8>)| (e.0@, e.1@));
            let ghost gc = (c0@, c1@);
            proof {
                assert(gc.0 =~= self.entries@[i as int].0@);
                assert(gc.1 =~= self.entries@[i as int].1@);
            }
            entries.push((c0, c1));
            proof {
                assert(entries@.map_values(|e: (Vec<u8>, Vec<u8>)| (e.0@, e.1@)) =~= prev.push(gc));
                assert(self@.take(i as int + 1) =~= self@.take(i as int).push(self@[i as int]));
            }
            i += 1;
        }
        let r = HeaderMap { entries };
        proof {
            assert(self@.take(n as int) =~= self@);
            assert(r@ =~= self@);
        }
        r
    }
}

impl HeaderMap {
    pub fn new() -> (r: Self)
        ensures
            r@ == Seq::<(Seq<u8>, Seq<u8>)>::empty(),
    {
        let r = HeaderMap { entries: Vec::new() };
        proof {
            assert(r@ =~= Seq::<(Seq<u8>, Seq<u8>)>::empty());
        }
        r
    }

    pub open spec fn spec_len(&self) -> nat {
        self@.len()
    }

    pub fn len(&self) -> (r: usize)
        ensures
            r == self.spec_len(),
    {
        self.entries.len()
    }

    /// The entry at `i`, as (name, value).
    pub fn entry_at(&self, i: usize) -> (r: (Vec<u8>, Vec<u8>))
        requires
            i < self.spec_len(),
        ensures
            (r.0@, r.1@) == self@[i as int],
    {
        let c0 = self.entries[i].0.clone();
        let c1 = self.entries[i].1.clone();
        proof {
            assert(c0@ =~= self.entries@[i as int].0@);
            assert(c1@ =~= self.entries@[i as int].1@);
        }
        (c0, c1)
    }

    /// First value stored under `name`, if any.
    pub fn get(&self, name: &[u8]) -> (r: Option<&Vec<u8>>)
        ensures
            match r {
                Some(v) => lookup(self@, name@) == Some(v@),
                None => lookup(self@, name@) is None,
            },
    {
        let n = self.entries.len();
        let mut i: usize = 0;
        while i < n
            invariant
                n == self.entries.len(),
                0 <= i <= n,
                forall|j: int| 0 <= j < i ==> self@[j].0 != name@,
            decreases n - i,
        {
            if bytes_eq(self.entries[i].0.as_slice(), name) {
                proof {
                    lemma_lookup_at_first_match(self@, name@, i as int);
                }
                return Some(&self.entries[i].1);
            }
            i += 1;
        }
        proof {
            lemma_lookup_none(self@, name@);
        }
        None
    }

    pub fn contains(&self, name: &[u8]) -> (r: bool)
        ensures
            r == (lookup(self@, name@) is Some),
    {
        self.get(name).is_some()
    }

    /// Add `name: value` after every existing entry, keeping any earlier
    /// values under the same name; a lookup still sees the earliest one.
    pub fn append(&mut self, name: Vec<u8>, value: Vec<u8>)
        ensures
            final(self)@ == old(self)@.push((name@, value@)),
    {
        let ghost pre = self@;
        let ghost n = name@;
        let ghost v = value@;
        self.entries.push((name, value));
        proof {
            assert(self@ =~= pre.push((n, v)));
        }
    }

    /// Add every entry of `other` after this map's own, in order, as
    /// trailers are merged into response metadata: nothing is dropped, and
    /// this map's entries stay ahead for lookups.
    pub fn merge(&mut self, other: &HeaderMap)
        ensures
            final(self)@ == old(self)@ + other@,
    {
        let n = other.len();
        let mut i: usize = 0;
        proof {
            assert(self@ =~= old(self)@ + other@.take(0));
        }
        while i < n
            invariant
                n == other.spec_len(),
                0 <= i <= n,
                self@ == old(self)@ + other@.take(i as int),
            decreases n - i,
        {
            let (name, value) = other.entry_at(i);
            let ghost pre = self@;
            self.append(name, value);
            proof {
                assert(other@.take(i as int + 1) =~= other@.take(i as int).push(
                    other@[i as int],
                ));
                assert(self@ =~= old(self)@ + other@.take(i as int + 1));
            }
            i += 1;
        }
        proof {
            assert(other@.take(n as int) =~= other@);
        }
    }

    /// Set `name` to `value`, dropping any earlier entries under the name.
    pub fn insert(&mut self, name: Vec<u8>, value: Vec<u8>)
        ensures
            lookup(final(self)@, name@) == Some(value@),
            forall|m: Seq<u8>| m != name@ ==> lookup(final(self)@, m) == lookup(old(self)@, m),
    {
        self.remove(name.as_slice());
        let ghost pre = self@;
        let ghost n = name@;
        let ghost v = value@;
        self.entries.push((name, value));
        proof {
            let post = self@;
            assert(post =~= pre.push((n, v)));
            lemma_lookup_push_relation(pre, (n, v), n);
            assert forall|m: Seq<u8>| m != n implies lookup(post, m) == lookup(pre, m) by {
                lemma_lookup_push_relation(pre, (n, v), m);
            }
        }
    }

    /// Drop every entry under `name`.
    pub fn remove(&mut self, name: &[u8])
        ensures
            lookup(final(self)@, name@) is None,
            forall|m: Seq<u8>| m != name@ ==> lookup(final(self)@, m) == lookup(old(self)@, m),
    {
        let n = self.entries.len();
        let mut kept: Vec<(Vec<u8>, Vec<u8>)> = Vec::new();
        let mut i: usize = 0;
        while i < n
            invariant
                n == self.entries.len(),
                0 <= i <= n,
                kept@.map_values(|e: (Vec<u8>, Vec<u8>)| (e.0@, e.1@)) =~= self@.take(
                    i as int,
                ).filter(keeps_other(name@)),
            decreases n - i,
        {
            let ghost prefix = self@.take(i as int);
            if !bytes_eq(self.entries[i].0.as_slice(), name) {
                kept.push((self.entries[i].0.clone(), self.entries[i].1.clone()));
            }
            proof {
                reveal(Seq::filter);
                let t = self@.take(i + 1);
                assert(t =~= prefix.push(self@[i as int]));
                assert(t.drop_last() =~= prefix);
                assert(t.last() == self@[i as int]);
                assert(t.filter(keeps_other(name@)) == if self@[i as int].0 != name@ {
                    prefix.filter(keeps_other(name@)).push(self@[i as int])
                } else {
                    prefix.filter(keeps_other(name@))
                });
            }
            i += 1;
        }
        proof {
            assert(self@.take(n as int) =~= self@);
        }
        self.entries = kept;
        proof {
            let post = self@;
            let f = keeps_other(name@);
            assert(post =~= old(self)@.filter(f));
            assert forall|j: int| 0 <= j < post.len() implies (#[trigger] post[j]).0 != name@ by {
                old(self)@.lemma_filter_pred(f, j);
            }
            lemma_lookup_none(post, name@);
            assert forall|m: Seq<u8>| m != name@ implies lookup(post, m) == lookup(old(self)@, m)
                by {
                lemma_lookup_over_filter_other(old(self)@, name@, m);
            }
        }
    }
}

/// Dropping every entry under `name` leaves lookups of other names unchanged.
proof fn lemma_lookup_over_filter_other(
    s: Seq<(Seq<u8>, Seq<u8>)>,
    name: Seq<u8>,
    m: Seq<u8>,
)
    requires
        m != name,
    ensures
        lookup(s.filter(keeps_other(name)), m) == lookup(s, m),
    decreases s.len(),
{
    reveal(Seq::filter);
    let f = keeps_other(name);
    if s.len() == 0 {
    } else {
        lemma_lookup_over_filter_other(s.drop_last(), name, m);
        assert(s =~= s.drop_last().push(s.last()));
        assert(s.filter(f) == if f(s.last()) {
            s.drop_last().filter(f).push(s.last())
        } else {
            s.drop_last().filter(f)
        });
        if f(s.last()) {
            lemma_lookup_push_relation(s.drop_last(), s.last(), m);
            lemma_lookup_push_relation(s.drop_last().filter(f), s.last(), m);
        } else {
            lemma_lookup_push_relation(s.drop_last(), s.last(), m);
        }
    }
}

/// How a lookup relates to the sequence with one entry appended.
proof fn lemma_lookup_push_relation(s: Seq<(Seq<u8>, Seq<u8>)>, e: (Seq<u8>, Seq<u8>), m: Seq<u8>)
    ensures
        lookup(s.push(e), m) == if lookup(s, m) is Some {
            lookup(s, m)
        } else if e.0 == m {
            Some(e.1)
        } else {
            None::<Seq<u8>>
        },
    decreases s.len(),
{
    let t = s.push(e);
    if s.len() == 0 {
        assert(t[0] == e);
        assert(t.skip(1) =~= Seq::<(Seq<u8>, Seq<u8>)>::empty());
        if e.0 == m {
            assert(lookup(t, m) == Some(e.1));
        } else {
            assert(lookup(t, m) == lookup(t.skip(1), m));
            assert(lookup(Seq::<(Seq<u8>, Seq<u8>)>::empty(), m) is None);
        }
        assert(lookup(s, m) is None);
    } else {
        assert(t[0] == s[0]);
        assert(t.skip(1) =~= s.skip(1).push(e));
        lemma_lookup_push_relation(s.skip(1), e, m);
        if s[0].0 == m {
            assert(lookup(t, m) == Some(s[0].1));
            assert(lookup(s, m) == Some(s[0].1));
        } else {
            assert(lookup(t, m) == lookup(t.skip(1), m));
            assert(lookup(s, m) == lookup(s.skip(1), m));
        }
    }
}

} // verus!
