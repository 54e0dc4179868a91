//! Output references ("slips"): the keys of the unspent-output ledger and
//! the inputs/outputs of a transaction.

use vstd::prelude::*;

verus! {

/// How a slip was broadcast. A closed enumeration; new variants must be
/// appended, never renumbered, so that already-signed records keep their
/// encoding.
#[derive(Clone, Copy, Debug, PartialEq, Eq, Structural)]
pub enum SlipBroadcastType {
    Normal,
}

/// A reference to one transaction output. It carries the public key of its
/// owner, the way it was broadcast, and its amount. A slip is
/// deterministically byte-encodable (`serialize_for_signature`), comparable
/// for equality, and independently checkable for validity (`validate`).
#[derive(Clone, Copy, Debug)]
pub struct Slip {
    pub publickey: [u8; 33],
    pub broadcast_type: SlipBroadcastType,
    pub amount: u64,
}

/// The one-byte ordinal of a broadcast type, used in the canonical encoding.
pub open spec fn spec_broadcast_type_ordinal(t: SlipBroadcastType) -> u8 {
    match t {
        SlipBroadcastType::Normal => 0,
    }
}

/// The canonical byte encoding of a slip: the 33 public-key bytes, the
/// one-byte broadcast-type ordinal, then the amount in 8 big-endian bytes.
/// Always exactly 42 bytes.
pub open spec fn spec_slip_serialize(s: Slip) -> Seq<u8> {
    s.publickey@ + seq![spec_broadcast_type_ordinal(s.broadcast_type)]
        + crate::codec::spec_u64_to_be_bytes(s.amount)
}

/// A slip is valid when some byte of its owner key is non-zero: the all-zero
/// key is the placeholder for "no owner" and never owns a spendable output.
pub open spec fn spec_slip_valid(s: Slip) -> bool {
    exists|i: int| 0 <= i < 33 && s.publickey@[i] != 0
}

impl PartialEq for Slip {
    fn eq(&self, other: &Slip) -> (r: bool)
    {
        let type_eq: bool = match (self.broadcast_type, other.broadcast_type) {
            (SlipBroadcastType::Normal, SlipBroadcastType::Normal) => true,
        };
        if !type_eq || self.amount != other.amount {
            return false;
        }
        let mut i: usize = 0;
        while i < 33
            invariant
                0 <= i <= 33,
                forall|j: int| 0 <= j < i ==> self.publickey@[j] == other.publickey@[j],
            decreases 33 - i,
        {
            if self.publickey[i] != other.publickey[i] {
                return false;
            }
            i = i + 1;
        }
        proof {
            assert(self.publickey@ =~= other.publickey@);
            assert(self.publickey =~= other.publickey);
        }
        true
    }
}

impl vstd::std_specs::cmp::PartialEqSpecImpl for Slip {
    open spec fn obeys_eq_spec() -> bool {
        true
    }

    open spec fn eq_spec(&self, other: &Slip) -> bool {
        *self == *other
    }
}

impl Slip {
    /// Build a slip from its owner key, broadcast type, and amount.
    pub fn new(publickey: [u8; 33], broadcast_type: SlipBroadcastType, amount: u64) -> (s: Slip)
        ensures
            s.publickey == publickey,
            s.broadcast_type == broadcast_type,
            s.amount == amount,
    {
        Slip { publickey, broadcast_type, amount }
    }

    /// The public key embedded in the slip, the key a signature over a
    /// transaction spending this slip must verify against.
    pub fn get_publickey(&self) -> (k: [u8; 33])
        ensures
            k == self.publickey,
    {
        self.publickey
    }

    /// The canonical byte encoding of the slip, exactly
    /// `spec_slip_serialize`.
    pub fn serialize_for_signature(&self) -> (r: Vec<u8>)
        ensures
            r@ == spec_slip_serialize(*self),
    {
        let mut out: Vec<u8> = Vec::new();
        let mut i: usize = 0;
        while i < 33
            invariant
                0 <= i <= 33,
                out@ =~= self.publickey@.take(i as int),
            decreases 33 - i,
        {
            out.push(self.publickey[i]);
            i = i + 1;
        }
        proof {
            assert(out@ =~= self.publickey@);
        }
        let ord: u8 = match self.broadcast_type {
            SlipBroadcastType::Normal => 0,
        };
        out.push(ord);
        crate::codec::push_u64_be(&mut out, self.amount);
        proof {
            assert(out@ =~= spec_slip_serialize(*self));
        }
        out
    }

    /// The slip's own validity check: true exactly when the owner key is not
    /// the all-zero placeholder key.
    pub fn validate(&self) -> (r: bool)
        ensures
            r == spec_slip_valid(*self),
    {
        let mut i: usize = 0;
        while i < 33
            invariant
                0 <= i <= 33,
                forall|j: int| 0 <= j < i ==> self.publickey@[j] == 0,
            decreases 33 - i,
        {
            if self.publickey[i] != 0 {
                return true;
            }
            i = i + 1;
        }
        false
    }
}

} // verus!
