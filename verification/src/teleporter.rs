//! The teleporter confirmation routine: a deeply recursive, memoised
//! function over 15-bit values, parameterised by the magic value held in
//! the eighth register. The executable search over all candidate magic
//! values drives this verified checker from outside the library.

use std::collections::HashMap;

use vstd::prelude::*;

verus! {

broadcast use vstd::std_specs::hash::group_hash_axioms;

/// The function the confirmation routine computes, written directly as
/// recursion over the pair `(a, b)`: a variant of the Ackermann function
/// with all arithmetic modulo 32768 and the magic value standing in for a
/// zero second argument.
pub open spec fn tele_spec(magic: u16, a: u16, b: u16) -> u16
    decreases a, b,
{
    if a == 0 {
        ((b + 1) % 32768) as u16
    } else if b == 0 {
        tele_spec(magic, (a - 1) as u16, magic)
    } else {
        tele_spec(magic, (a - 1) as u16, tele_spec(magic, a, (b - 1) as u16))
    }
}

/// The confirmation routine always yields a 15-bit value.
pub proof fn lemma_tele_bound(magic: u16, a: u16, b: u16)
    ensures
        tele_spec(magic, a, b) < 32768,
    decreases a, b,
{
    if a == 0 {
    } else if b == 0 {
        lemma_tele_bound(magic, (a - 1) as u16, magic);
    } else {
        lemma_tele_bound(magic, a, (b - 1) as u16);
        lemma_tele_bound(magic, (a - 1) as u16, tele_spec(magic, a, (b - 1) as u16));
    }
}

/// The memo key of an argument pair.
pub open spec fn memo_key_spec(a: u16, b: u16) -> u32 {
    (a as u32 * 0x10000 + b as u32) as u32
}

/// The memoised checker for one candidate magic value.
pub struct Teleporter {
    memo: HashMap<u32, u16>,
    magic: u16,
}

impl Teleporter {
    /// The candidate magic value under test.
    pub closed spec fn magic_spec(self) -> u16 {
        self.magic
    }

    /// Every memo entry records the value of the function at the pair its
    /// key encodes.
    pub closed spec fn wf(self) -> bool {
        &&& self.magic < 32768
        &&& forall|a: u16, b: u16|
            self.memo@.contains_key(#[trigger] memo_key_spec(a, b)) ==> self.memo@[memo_key_spec(
                a,
                b,
            )] == tele_spec(self.magic, a, b)
    }

    /// A checker for the given candidate magic value, with an empty memo.
    pub fn new(magic: u16) -> (r: Teleporter)
        requires
            magic < 32768,
        ensures
            r.wf(),
            r.magic_spec() == magic,
    {
        Teleporter { memo: HashMap::new(), magic }
    }

    /// Compute the confirmation function at `(a, b)`, memoising every
    /// result. The teleporter accepts the magic value exactly when this
    /// yields 6 at `(4, 1)`.
    pub fn check(&mut self, a: u16, b: u16) -> (r: u16)
        requires
            old(self).wf(),
            a < 32768,
            b < 32768,
        ensures
            final(self).wf(),
            final(self).magic_spec() == old(self).magic_spec(),
            r == tele_spec(old(self).magic_spec(), a, b),
        decreases a, b,
    {
        let key: u32 = a as u32 * 0x10000 + b as u32;
        proof {
            assert(key == memo_key_spec(a, b));
        }
        if let Some(result) = self.memo.get(&key) {
            return *result;
        }
        let result: u16 = if a == 0 {
            (b + 1) % 32768
        } else if b == 0 {
            let magic = self.magic;
            self.check(a - 1, magic)
        } else {
            let inner = self.check(a, b - 1);
            proof {
                lemma_tele_bound(self.magic, a, (b - 1) as u16);
            }
            self.check(a - 1, inner)
        };
        proof {
            assert forall|x: u16, y: u16|
                memo_key_spec(x, y) == memo_key_spec(a, b) implies x == a && y == b by {
                assert(x as u32 * 0x10000 + y as u32 == a as u32 * 0x10000 + b as u32
                    ==> x == a && y == b) by (nonlinear_arith)
                    requires
                        y <= 0xFFFF,
                        b <= 0xFFFF,
                ;
            }
        }
        self.memo.insert(key, result);
        result
    }
}

} // verus!
