//! Identities: 32-byte ledger addresses as plain values, and signing
//! identities that couple an opaque key pair with its address.

use vstd::prelude::*;

use solana_sdk::signature::Keypair;

use crate::protocol;

verus! {

/// A ledger address: the 32 public-key bytes of an identity.
#[derive(Clone, Copy, Debug)]
pub struct Address {
    bytes: [u8; 32],
}

impl View for Address {
    type V = Seq<u8>;

    closed spec fn view(&self) -> Seq<u8> {
        self.bytes@
    }
}

impl Address {
    pub fn from_bytes(bytes: [u8; 32]) -> (r: Address)
        ensures
            r@ == bytes@,
    {
        Address { bytes }
    }

    pub fn to_bytes(&self) -> (r: [u8; 32])
        ensures
            r@ == self@,
    {
        self.bytes
    }

    pub open spec fn spec_is_zero(&self) -> bool {
        forall|i: int| 0 <= i < 32 ==> self@[i] == 0
    }

    /// The all-zero address, which the protocol reserves to mean "absent".
    pub fn is_zero(&self) -> (r: bool)
        ensures
            r == self.spec_is_zero(),
    {
        let mut i: usize = 0;
        while i < 32
            invariant
                i <= 32,
                forall|j: int| 0 <= j < i ==> self@[j] == 0,
            decreases 32 - i,
        {
            if self.bytes[i] != 0 {
                proof {
                    assert(self@[i as int] != 0);
                }
                return false;
            }
            i = i + 1;
        }
        true
    }

    pub fn eq_addr(&self, other: &Address) -> (r: bool)
        ensures
            r == (self@ == other@),
    {
        let mut i: usize = 0;
        while i < 32
            invariant
                i <= 32,
                forall|j: int| 0 <= j < i ==> self@[j] == other@[j],
            decreases 32 - i,
        {
            if self.bytes[i] != other.bytes[i] {
                return false;
            }
            i = i + 1;
        }
        proof {
            assert(self@ =~= other@);
        }
        true
    }
}

/// Whether `addrs` holds an address with the same bytes as `a`.
pub open spec fn spec_contains_addr(addrs: Seq<Address>, a: Seq<u8>) -> bool {
    exists|i: int| 0 <= i < addrs.len() && addrs[i]@ == a
}

/// Looks an address up in a list by value.
pub fn contains_addr(addrs: &Vec<Address>, a: &Address) -> (r: bool)
    ensures
        r == spec_contains_addr(addrs@, a@),
{
    let mut i: usize = 0;
    while i < addrs.len()
        invariant
            i <= addrs.len(),
            forall|j: int| 0 <= j < i ==> addrs@[j]@ != a@,
        decreases addrs.len() - i,
    {
        if addrs[i].eq_addr(a) {
            return true;
        }
        i = i + 1;
    }
    false
}

/// An identity that can sign: an opaque key pair held for the signing
/// call, beside the address derived from it. The pairing of the two
/// fields is established by the trusted constructors in `protocol`.
pub struct SignerIdentity {
    pub keypair: Keypair,
    pub address: Address,
}

impl SignerIdentity {
    /// Generates a fresh signing identity from the key-pair source the
    /// signing backend provides.
    pub fn generate() -> (r: SignerIdentity)
        ensures
            r.address@.len() == 32,
    {
        let keypair = protocol::new_keypair();
        let address = protocol::keypair_address(&keypair);
        SignerIdentity { keypair, address }
    }
}


/// Copies the 32 address bytes that start at `start`.
pub fn address_from_slice(bytes: &Vec<u8>, start: usize) -> (r: Address)
    requires
        start + 32 <= bytes@.len(),
    ensures
        r@ == bytes@.subrange(start as int, start as int + 32),
{
    let mut arr: [u8; 32] = [0u8; 32];
    let blen = bytes.len();
    let mut i: usize = 0;
    while i < 32
        invariant
            i <= 32,
            start + 32 <= blen,
            blen == bytes@.len(),
            forall|j: int| 0 <= j < i ==> arr@[j] == bytes@[start + j],
        decreases 32 - i,
    {
        arr[i] = bytes[start + i];
        i = i + 1;
    }
    proof {
        assert(arr@ =~= bytes@.subrange(start as int, start as int + 32));
    }
    Address::from_bytes(arr)
}

} // verus!
