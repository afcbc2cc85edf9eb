//! The order of identifiers in the store: the order of their binary forms,
//! byte by byte.

use crate::database::types::{be_value, lemma_be_value_bound, pow256, ServiceId};
use std::cmp::Ordering;
use vstd::prelude::*;

verus! {

/// Lexicographic "less than" on byte sequences.
pub open spec fn bytes_lt(a: Seq<u8>, b: Seq<u8>) -> bool
    decreases a.len(),
{
    if b.len() == 0 {
        false
    } else if a.len() == 0 {
        true
    } else if a[0] != b[0] {
        a[0] < b[0]
    } else {
        bytes_lt(a.drop_first(), b.drop_first())
    }
}

/// The number that bytes denote, taken apart at the front.
pub proof fn lemma_be_value_front(s: Seq<u8>)
    requires
        s.len() > 0,
    ensures
        be_value(s) == s[0] * pow256((s.len() - 1) as nat) + be_value(s.drop_first()),
    decreases s.len(),
{
    if s.len() == 1 {
        assert(s.drop_last().len() == 0);
        assert(s.drop_first().len() == 0);
        assert(be_value(s.drop_last()) == 0);
        assert(be_value(s.drop_first()) == 0);
        assert(s.last() == s[0]);
        assert(pow256(0) == 1);
        assert(be_value(s) == be_value(s.drop_last()) * 256 + s.last() as nat);
    } else {
        let init = s.drop_last();
        lemma_be_value_front(init);
        assert(init.drop_first() =~= s.drop_first().drop_last());
        assert(s.drop_first().last() == s.last());
        assert(init[0] == s[0]);
        let p = pow256((s.len() - 2) as nat);
        let rest = be_value(init.drop_first());
        assert(pow256((s.len() - 1) as nat) == 256 * p);
        assert(be_value(init) == s[0] * p + rest);
        assert(be_value(s) == be_value(init) * 256 + s.last() as nat);
        assert(be_value(s.drop_first()) == rest * 256 + s.last() as nat);
        assert((s[0] * p + rest) * 256 == s[0] * (256 * p) + rest * 256) by (nonlinear_arith);
    }
}

/// Among byte sequences of one length, the lesser sequence denotes the
/// lesser number.
pub proof fn lemma_byte_order_is_value_order(a: Seq<u8>, b: Seq<u8>)
    requires
        a.len() == b.len(),
    ensures
        bytes_lt(a, b) <==> be_value(a) < be_value(b),
    decreases a.len(),
{
    if a.len() > 0 {
        lemma_be_value_front(a);
        lemma_be_value_front(b);
        let p = pow256((a.len() - 1) as nat);
        let ra = be_value(a.drop_first());
        let rb = be_value(b.drop_first());
        lemma_be_value_bound(a.drop_first());
        lemma_be_value_bound(b.drop_first());
        if a[0] == b[0] {
            lemma_byte_order_is_value_order(a.drop_first(), b.drop_first());
        } else if a[0] < b[0] {
            assert(a[0] * p + ra < b[0] * p + rb) by (nonlinear_arith)
                requires
                    a[0] < b[0],
                    ra < p,
                    rb >= 0,
            ;
        } else {
            assert(b[0] * p + rb < a[0] * p + ra) by (nonlinear_arith)
                requires
                    b[0] < a[0],
                    rb < p,
                    ra >= 0,
            ;
        }
    }
}

/// The order of two identifiers is the order of their binary forms.
pub proof fn lemma_id_order_is_byte_order(a: ServiceId, b: ServiceId, x: Seq<u8>, y: Seq<u8>)
    requires
        x.len() == 16,
        y.len() == 16,
        be_value(x) == a@,
        be_value(y) == b@,
    ensures
        a@ < b@ <==> bytes_lt(x, y),
{
    lemma_byte_order_is_value_order(x, y);
}

/// How two things stand to each other in an order.
#[derive(Clone, Copy, Debug, PartialEq, Eq, Structural)]
pub enum Sign {
    Less,
    Equal,
    Greater,
}

/// The sign of two byte sequences in the lexicographic order.
pub open spec fn sign_of(a: Seq<u8>, b: Seq<u8>) -> Sign {
    if bytes_lt(a, b) {
        Sign::Less
    } else if bytes_lt(b, a) {
        Sign::Greater
    } else {
        Sign::Equal
    }
}

/// Two byte sequences that are not ordered either way are equal, and no
/// sequence is less than itself.
pub proof fn lemma_bytes_total(a: Seq<u8>, b: Seq<u8>)
    ensures
        !bytes_lt(a, b) && !bytes_lt(b, a) ==> a == b,
        !(bytes_lt(a, b) && bytes_lt(b, a)),
        a == b ==> !bytes_lt(a, b),
    decreases a.len(),
{
    if a.len() > 0 && b.len() > 0 {
        lemma_bytes_total(a.drop_first(), b.drop_first());
        assert(a =~= seq![a[0]] + a.drop_first());
        assert(b =~= seq![b[0]] + b.drop_first());
    } else if a.len() == 0 && b.len() == 0 {
        assert(a =~= b);
    }
}

/// Compares two byte sequences in the lexicographic order.
pub fn byte_sign(a: &[u8], b: &[u8]) -> (r: Sign)
    ensures
        r == sign_of(a@, b@),
{
    let mut i: usize = 0;
    proof {
        assert(a@.skip(0) =~= a@);
        assert(b@.skip(0) =~= b@);
        assert(a@.take(0) =~= b@.take(0));
    }
    while i < a.len() && i < b.len()
        invariant
            i <= a.len(),
            i <= b.len(),
            a@.take(i as int) == b@.take(i as int),
            sign_of(a@, b@) == sign_of(a@.skip(i as int), b@.skip(i as int)),
        decreases a.len() - i,
    {
        proof {
            let x = a@.skip(i as int);
            let y = b@.skip(i as int);
            assert(x[0] == a@[i as int] && y[0] == b@[i as int]);
            assert(x.drop_first() =~= a@.skip(i + 1));
            assert(y.drop_first() =~= b@.skip(i + 1));
        }
        if a[i] < b[i] {
            return Sign::Less;
        }
        if a[i] > b[i] {
            return Sign::Greater;
        }
        proof {
            assert(a@.take(i + 1) =~= a@.take(i as int).push(a@[i as int]));
            assert(b@.take(i + 1) =~= b@.take(i as int).push(b@[i as int]));
        }
        i = i + 1;
    }
    proof {
        let x = a@.skip(i as int);
        let y = b@.skip(i as int);
        assert(x.len() == a@.len() - i && y.len() == b@.len() - i);
    }
    if i < b.len() {
        Sign::Less
    } else if i < a.len() {
        Sign::Greater
    } else {
        Sign::Equal
    }
}

impl ServiceId {
    /// Compares two keys of the store by their bytes.
    pub fn compare(a: &[u8], b: &[u8]) -> (r: Ordering)
        ensures
            match r {
                Ordering::Less => sign_of(a@, b@) == Sign::Less,
                Ordering::Equal => sign_of(a@, b@) == Sign::Equal,
                Ordering::Greater => sign_of(a@, b@) == Sign::Greater,
            },
    {
        match byte_sign(a, b) {
            Sign::Less => Ordering::Less,
            Sign::Equal => Ordering::Equal,
            Sign::Greater => Ordering::Greater,
        }
    }
}

} // verus!
