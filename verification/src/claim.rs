use crate::types::Error;
use vstd::prelude::*;

verus! {

/// A content fingerprint: an opaque byte string, never longer than the bound
/// it was built under.
#[derive(Debug)]
pub struct Claim {
    bytes: Vec<u8>,
    bound: u32,
}

impl View for Claim {
    type V = Seq<u8>;

    closed spec fn view(&self) -> Seq<u8> {
        self.bytes@
    }
}

impl Claim {
    /// The bound that the claim was built under.
    pub closed spec fn bound(&self) -> nat {
        self.bound as nat
    }

    #[verifier::type_invariant]
    spec fn within_bound(&self) -> bool {
        self.bytes@.len() <= self.bound
    }

    /// Builds a claim from `bytes`; refuses bytes longer than `max_len`.
    pub fn try_from_vec(bytes: Vec<u8>, max_len: u32) -> (r: Result<Claim, Error>)
        ensures
            bytes@.len() <= max_len ==> r is Ok && r->Ok_0@ == bytes@ && r->Ok_0.bound()
                == max_len,
            bytes@.len() > max_len ==> r == Err::<Claim, Error>(Error::ClaimTooLong),
    {
        if bytes.len() <= max_len as usize {
            Ok(Claim { bytes, bound: max_len })
        } else {
            Err(Error::ClaimTooLong)
        }
    }

    /// The number of bytes in the claim.
    pub fn len(&self) -> (n: usize)
        ensures
            n == self@.len(),
            n <= self.bound(),
    {
        proof {
            use_type_invariant(self);
        }
        self.bytes.len()
    }

    /// The claim's bytes.
    pub fn as_slice(&self) -> (s: &[u8])
        ensures
            s@ == self@,
    {
        self.bytes.as_slice()
    }

}

/// Two claims are equal exactly when their bytes are.
impl PartialEq for Claim {
    fn eq(&self, other: &Self) -> (r: bool) {
        let r = self.bytes == other.bytes;
        assert(r == (self.bytes@ =~= other.bytes@));
        r
    }
}

impl Eq for Claim {

}

impl vstd::std_specs::cmp::PartialEqSpecImpl for Claim {
    open spec fn obeys_eq_spec() -> bool {
        true
    }

    open spec fn eq_spec(&self, other: &Self) -> bool {
        self@ == other@
    }
}

impl Clone for Claim {
    fn clone(&self) -> (r: Self)
        ensures
            r@ == self@,
            r.bound() == self.bound(),
    {
        proof {
            use_type_invariant(self);
        }
        let bytes = self.bytes.clone();
        assert(bytes@ =~= self.bytes@);
        Claim { bytes, bound: self.bound }
    }
}

} // verus!
