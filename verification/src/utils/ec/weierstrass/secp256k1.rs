//! The base field of secp256k1: square roots.

use k256::FieldElement;
use vstd::prelude::*;

verus! {

/// The root that `k256` finds of the field element with the big-endian
/// bytes `n_be`; `None` where the bytes are no canonical element or the
/// element is no square.
pub uninterp spec fn secp256k1_root(n_be: Seq<u8>) -> Option<Seq<u8>>;

/// `k256::FieldElement::sqrt`, on an element read with `from_bytes` and
/// written, normalized, with `to_bytes`: the bytes of the root that the
/// crate finds, big-endian, named by `secp256k1_root`. Bytes that are no
/// canonical element, and an element without a root, give `None`.
#[verifier::external_body]
pub(crate) fn secp256k1_sqrt(n_be: &[u8; 32]) -> (r: Option<[u8; 32]>)
    ensures
        match r {
            Some(v) => secp256k1_root(n_be@) == Some(v@),
            None => secp256k1_root(n_be@) is None,
        },
{
    let element: Option<FieldElement> = FieldElement::from_bytes(&(*n_be).into()).into();
    match element {
        Some(e) => {
            let root: Option<FieldElement> = e.sqrt().into();
            root.map(|s| s.normalize().to_bytes().into())
        },
        None => None,
    }
}

} // verus!
