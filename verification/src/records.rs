//! Looking a record up in a table. A table is a `Vec` of records in the
//! order in which they were stored; a lookup answers with the first record
//! that matches.

use vstd::prelude::*;

verus! {

/// What a lookup asks for.
#[derive(Clone, Copy, Debug, PartialEq, Eq)]
pub enum Lookup {
    /// The record with this id.
    Id(u128),
    /// The record that stands for an account by default: its default wallet,
    /// its open cart, its default payment method.
    DefaultOf(u128),
}

/// A record that can be looked up.
pub trait Record {
    /// Whether the record answers the lookup.
    spec fn answers(&self, q: Lookup) -> bool;

    /// Whether the record answers the lookup, computed.
    fn is_answer(&self, q: &Lookup) -> (b: bool)
        ensures
            b == self.answers(*q),
    ;
}

/// The place of the first record among the first `n` of `s` that answers
/// `q`, if there is one.
pub open spec fn first_before<T: Record>(s: Seq<T>, q: Lookup, n: int) -> Option<int>
    decreases n,
{
    if n <= 0 {
        None
    } else {
        match first_before(s, q, n - 1) {
            Some(i) => Some(i),
            None => if s[n - 1].answers(q) {
                Some(n - 1)
            } else {
                None
            },
        }
    }
}

/// The place of the first record of `s` that answers `q`, if there is one.
pub open spec fn first<T: Record>(s: Seq<T>, q: Lookup) -> Option<int> {
    first_before(s, q, s.len() as int)
}

/// What `first_before` finds is a match with no match before it, and it
/// finds nothing only where nothing matches.
pub proof fn lemma_first<T: Record>(s: Seq<T>, q: Lookup, n: int)
    requires
        0 <= n,
    ensures
        match first_before(s, q, n) {
            Some(i) => 0 <= i < n && s[i].answers(q) && forall|j: int|
                0 <= j < i ==> !(#[trigger] s[j]).answers(q),
            None => forall|j: int| 0 <= j < n ==> !(#[trigger] s[j]).answers(q),
        },
    decreases n,
{
    if n > 0 {
        lemma_first(s, q, n - 1);
    }
}

/// A match found in a prefix is the match found in the whole.
pub proof fn lemma_first_stays<T: Record>(s: Seq<T>, q: Lookup, m: int, n: int)
    requires
        0 <= m <= n,
        first_before(s, q, m) is Some,
    ensures
        first_before(s, q, n) == first_before(s, q, m),
    decreases n,
{
    if n > m {
        lemma_first_stays(s, q, m, n - 1);
    }
}

/// The place of the first record of `v` that answers `q`.
pub fn position<T: Record>(v: &Vec<T>, q: &Lookup) -> (r: Option<usize>)
    ensures
        match r {
            Some(i) => first(v@, *q) == Some(i as int) && i < v.len(),
            None => first(v@, *q) is None,
        },
{
    let mut i: usize = 0;
    while i < v.len()
        invariant
            i <= v.len(),
            first_before(v@, *q, i as int) is None,
        decreases v.len() - i,
    {
        if v[i].is_answer(q) {
            proof {
                lemma_first_stays(v@, *q, i + 1, v.len() as int);
            }
            return Some(i);
        }
        i += 1;
    }
    None
}

} // verus!
