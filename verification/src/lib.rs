//! The credential and session-authentication core of a small multi-tenant
//! site server: password hashing, signed session tokens, the per-request
//! authentication guard, rank-based authorization, and account provisioning,
//! together with the plain data types the surrounding server trades in.
use vstd::prelude::*;

pub mod authenticate;
pub mod config;
pub mod cookies;
pub mod encoding;
pub mod hashing;
pub mod keyring;
pub mod laws;
pub mod post;
pub mod provision;
pub mod store;
pub mod token;
pub mod user;

verus! {

/// A constant-time comparison of two byte slices: the loop touches every
/// index of both slices whatever their contents, accumulating the bitwise
/// difference, so the running time depends only on the lengths.
pub fn ct_eq(a: &[u8], b: &[u8]) -> (r: bool)
    ensures
        r == (a@ == b@),
{
    if a.len() != b.len() {
        assert(a@ != b@);
        return false;
    }
    let n: usize = a.len();
    let mut acc: u8 = 0;
    let mut i: usize = 0;
    while i < n
        invariant
            n == a@.len() == b@.len(),
            0 <= i <= n,
            (acc == 0) <==> (forall|j: int| 0 <= j < i ==> a@[j] == b@[j]),
        decreases n - i,
    {
        let x = a[i];
        let y = b[i];
        let d = x ^ y;
        proof {
            assert((x ^ y) == 0 <==> x == y) by (bit_vector);
            assert(((acc | d) == 0) <==> (acc == 0 && d == 0)) by (bit_vector);
        }
        acc = acc | d;
        i = i + 1;
    }
    if acc == 0 {
        proof {
            assert(a@ =~= b@);
        }
        true
    } else {
        proof {
            let j = choose|j: int| 0 <= j < n && a@[j] != b@[j];
            assert(a@[j] != b@[j]);
        }
        false
    }
}

} // verus!
