//! The transaction record: a timestamp, ordered input and output slips, a
//! free-form message, a type tag, and a signature, together with the
//! canonical byte encoding that is hashed and signed, signing, and
//! validation.

use vstd::prelude::*;

use crate::codec::{spec_u32_to_be_bytes, spec_u64_to_be_bytes};
use crate::crypto::{
    spec_hash, spec_public_key_of, spec_secret_key_ok, spec_sign, spec_verify_ok, SaitoHash,
    SaitoPrivateKey, SaitoSignature,
};
use crate::slip::{spec_slip_serialize, spec_slip_valid, Slip};

verus! {

/// The kind of a transaction. A closed enumeration encoded as its ordinal in
/// 4 big-endian bytes; new variants must be appended, never renumbered, to
/// keep already-signed records verifiable.
#[derive(Clone, Copy, Debug, PartialEq, Eq, Structural)]
pub enum TransactionType {
    Normal,
}

/// The 4-byte ordinal of a transaction type, used in the canonical encoding.
pub open spec fn spec_transaction_type_ordinal(t: TransactionType) -> u32 {
    match t {
        TransactionType::Normal => 0,
    }
}

/// The immutable signed content of a transaction: everything that exists
/// regardless of how the transaction was routed or produced. The signature
/// is carried here as a fixed 64-byte compact buffer.
#[derive(Clone, Debug)]
pub struct TransactionCore {
    pub timestamp: u64,
    pub inputs: Vec<Slip>,
    pub outputs: Vec<Slip>,
    pub message: Vec<u8>,
    pub transaction_type: TransactionType,
    pub signature: SaitoSignature,
}

/// The concatenation of the canonical encodings of a list of slips, in list
/// order.
pub open spec fn spec_slips_serialize(slips: Seq<Slip>) -> Seq<u8>
    decreases slips.len(),
{
    if slips.len() == 0 {
        Seq::empty()
    } else {
        spec_slips_serialize(slips.drop_last()) + spec_slip_serialize(slips.last())
    }
}

/// The canonical byte encoding of a transaction's content, the bytes that
/// are hashed and signed: the 8-byte big-endian timestamp, each input's
/// encoding in list order, each output's encoding in list order, the 4-byte
/// big-endian type ordinal, then the raw message bytes. The signature is
/// deliberately excluded: a signature cannot sign over itself.
pub open spec fn spec_serialize_for_signature(core: TransactionCore) -> Seq<u8> {
    spec_u64_to_be_bytes(core.timestamp) + spec_slips_serialize(core.inputs@)
        + spec_slips_serialize(core.outputs@)
        + spec_u32_to_be_bytes(spec_transaction_type_ordinal(core.transaction_type))
        + core.message@
}

/// The key a transaction's signature must verify against: the public key
/// embedded in the first input, or the all-zero placeholder key when there
/// are no inputs (a record with no inputs cannot be meaningfully
/// authenticated).
pub open spec fn spec_signer_key(core: TransactionCore) -> Seq<u8> {
    if core.inputs@.len() > 0 {
        core.inputs@[0].publickey@
    } else {
        Seq::new(33, |i: int| 0u8)
    }
}

/// Every input passes the slip's own validity check.
pub open spec fn spec_all_inputs_valid(core: TransactionCore) -> bool {
    forall|i: int| 0 <= i < core.inputs@.len() ==> spec_slip_valid(#[trigger] core.inputs@[i])
}

/// What `validate` decides: the signature verifies, against the hash of the
/// canonical encoding recomputed from the current field values and the
/// signer key of the first input, and every input is itself valid.
pub open spec fn spec_transaction_valid(tx: Transaction) -> bool {
    &&& spec_verify_ok(
        spec_hash(spec_serialize_for_signature(tx.core)),
        tx.core.signature@,
        spec_signer_key(tx.core),
    )
    &&& spec_all_inputs_valid(tx.core)
}

impl TransactionCore {
    /// Build a core from an explicit field set.
    pub fn new(
        timestamp: u64,
        inputs: Vec<Slip>,
        outputs: Vec<Slip>,
        message: Vec<u8>,
        transaction_type: TransactionType,
        signature: SaitoSignature,
    ) -> (c: Self)
        ensures
            c.timestamp == timestamp,
            c.inputs == inputs,
            c.outputs == outputs,
            c.message == message,
            c.transaction_type == transaction_type,
            c.signature == signature,
    {
        Self { timestamp, inputs, outputs, message, transaction_type, signature }
    }
}

impl Default for TransactionCore {
    /// An empty core stamped with the current wall-clock time: no inputs, no
    /// outputs, no message, type `Normal`, and an all-zero signature buffer.
    fn default() -> (c: Self)
        ensures
            c.inputs@ == Seq::<Slip>::empty(),
            c.outputs@ == Seq::<Slip>::empty(),
            c.message@ == Seq::<u8>::empty(),
            c.transaction_type == TransactionType::Normal,
            c.signature@ == Seq::new(64, |i: int| 0u8),
    {
        let signature: SaitoSignature = [0; 64];
        proof {
            assert(signature@ =~= Seq::new(64, |i: int| 0u8));
        }
        TransactionCore::new(
            crate::time::create_timestamp(),
            Vec::new(),
            Vec::new(),
            Vec::new(),
            TransactionType::Normal,
            signature,
        )
    }
}

/// A transaction record: the signed content plus the cached hash of the
/// canonical encoding, set when the record is signed. The cache is a
/// convenience, not a source of truth: `validate` recomputes the hash from
/// the current field values every time.
#[derive(Clone, Debug)]
pub struct Transaction {
    pub core: TransactionCore,
    pub hash_for_signature: SaitoHash,
}

impl Transaction {
    /// Wrap a core in a record; the cached hash starts all-zero until `sign`
    /// fills it.
    pub fn new(core: TransactionCore) -> (t: Self)
        ensures
            t.core == core,
            t.hash_for_signature@ == Seq::new(32, |i: int| 0u8),
    {
        let hash_for_signature: SaitoHash = [0; 32];
        proof {
            assert(hash_for_signature@ =~= Seq::new(32, |i: int| 0u8));
        }
        Self { core, hash_for_signature }
    }

    /// Append a slip to the ordered inputs. Duplicates are permitted here:
    /// duplicate-spend detection is the ledger's job at apply time.
    pub fn add_input(&mut self, input_slip: Slip)
        ensures
            final(self).core.inputs@ == old(self).core.inputs@.push(input_slip),
            final(self).core.outputs == old(self).core.outputs,
            final(self).core.timestamp == old(self).core.timestamp,
            final(self).core.message == old(self).core.message,
            final(self).core.transaction_type == old(self).core.transaction_type,
            final(self).core.signature == old(self).core.signature,
            final(self).hash_for_signature == old(self).hash_for_signature,
    {
        self.core.inputs.push(input_slip);
    }

    /// Append a slip to the ordered outputs.
    pub fn add_output(&mut self, output_slip: Slip)
        ensures
            final(self).core.outputs@ == old(self).core.outputs@.push(output_slip),
            final(self).core.inputs == old(self).core.inputs,
            final(self).core.timestamp == old(self).core.timestamp,
            final(self).core.message == old(self).core.message,
            final(self).core.transaction_type == old(self).core.transaction_type,
            final(self).core.signature == old(self).core.signature,
            final(self).hash_for_signature == old(self).hash_for_signature,
    {
        self.core.outputs.push(output_slip);
    }

    /// The creation time of the record.
    pub fn get_timestamp(&self) -> (t: u64)
        ensures
            t == self.core.timestamp,
    {
        self.core.timestamp
    }

    /// The type tag of the record.
    pub fn get_transaction_type(&self) -> (t: TransactionType)
        ensures
            t == self.core.transaction_type,
    {
        self.core.transaction_type
    }

    /// The ordered inputs.
    pub fn get_inputs(&self) -> (r: &Vec<Slip>)
        ensures
            r == &self.core.inputs,
    {
        &self.core.inputs
    }

    /// The ordered outputs.
    pub fn get_outputs(&self) -> (r: &Vec<Slip>)
        ensures
            r == &self.core.outputs,
    {
        &self.core.outputs
    }

    /// The free-form message payload.
    pub fn get_message(&self) -> (r: &Vec<u8>)
        ensures
            r == &self.core.message,
    {
        &self.core.message
    }

    /// The stored signature buffer.
    pub fn get_signature(&self) -> (s: SaitoSignature)
        ensures
            s == self.core.signature,
    {
        self.core.signature
    }

    /// Set the creation time; everything else is untouched.
    pub fn set_timestamp(&mut self, timestamp: u64)
        ensures
            final(self).core.timestamp == timestamp,
            final(self).core.inputs == old(self).core.inputs,
            final(self).core.outputs == old(self).core.outputs,
            final(self).core.message == old(self).core.message,
            final(self).core.transaction_type == old(self).core.transaction_type,
            final(self).core.signature == old(self).core.signature,
            final(self).hash_for_signature == old(self).hash_for_signature,
    {
        self.core.timestamp = timestamp;
    }

    /// Set the type tag; everything else is untouched.
    pub fn set_transaction_type(&mut self, transaction_type: TransactionType)
        ensures
            final(self).core.transaction_type == transaction_type,
            final(self).core.timestamp == old(self).core.timestamp,
            final(self).core.inputs == old(self).core.inputs,
            final(self).core.outputs == old(self).core.outputs,
            final(self).core.message == old(self).core.message,
            final(self).core.signature == old(self).core.signature,
            final(self).hash_for_signature == old(self).hash_for_signature,
    {
        self.core.transaction_type = transaction_type;
    }

    /// Set the message payload; everything else is untouched.
    pub fn set_message(&mut self, message: Vec<u8>)
        ensures
            final(self).core.message == message,
            final(self).core.timestamp == old(self).core.timestamp,
            final(self).core.inputs == old(self).core.inputs,
            final(self).core.outputs == old(self).core.outputs,
            final(self).core.transaction_type == old(self).core.transaction_type,
            final(self).core.signature == old(self).core.signature,
            final(self).hash_for_signature == old(self).hash_for_signature,
    {
        self.core.message = message;
    }

    /// Store a signature buffer; everything else is untouched.
    pub fn set_signature(&mut self, sig: SaitoSignature)
        ensures
            final(self).core.signature == sig,
            final(self).core.timestamp == old(self).core.timestamp,
            final(self).core.inputs == old(self).core.inputs,
            final(self).core.outputs == old(self).core.outputs,
            final(self).core.message == old(self).core.message,
            final(self).core.transaction_type == old(self).core.transaction_type,
            final(self).hash_for_signature == old(self).hash_for_signature,
    {
        self.core.signature = sig;
    }

    /// Store a cached content hash; everything else is untouched.
    pub fn set_hash_for_signature(&mut self, hash: SaitoHash)
        ensures
            final(self).hash_for_signature == hash,
            final(self).core == old(self).core,
    {
        self.hash_for_signature = hash;
    }

    /// The canonical byte encoding of the record's current content, exactly
    /// `spec_serialize_for_signature`. Calling it twice on an unmutated
    /// record therefore yields byte-identical output.
    pub fn serialize_for_signature(&self) -> (r: Vec<u8>)
        ensures
            r@ == spec_serialize_for_signature(self.core),
    {
        let mut vbytes: Vec<u8> = Vec::new();
        crate::codec::push_u64_be(&mut vbytes, self.core.timestamp);
        let ghost prefix_ts = vbytes@;
        let mut i: usize = 0;
        while i < self.core.inputs.len()
            invariant
                0 <= i <= self.core.inputs@.len(),
                vbytes@ == prefix_ts + spec_slips_serialize(self.core.inputs@.take(i as int)),
            decreases self.core.inputs@.len() - i,
        {
            let mut piece = self.core.inputs[i].serialize_for_signature();
            vbytes.append(&mut piece);
            proof {
                lemma_slips_serialize_take_step(self.core.inputs@, i as int);
            }
            i = i + 1;
        }
        proof {
            assert(self.core.inputs@.take(self.core.inputs@.len() as int) =~= self.core.inputs@);
        }
        let ghost prefix_in = vbytes@;
        let mut j: usize = 0;
        while j < self.core.outputs.len()
            invariant
                0 <= j <= self.core.outputs@.len(),
                vbytes@ == prefix_in + spec_slips_serialize(self.core.outputs@.take(j as int)),
            decreases self.core.outputs@.len() - j,
        {
            let mut piece = self.core.outputs[j].serialize_for_signature();
            vbytes.append(&mut piece);
            proof {
                lemma_slips_serialize_take_step(self.core.outputs@, j as int);
            }
            j = j + 1;
        }
        proof {
            assert(self.core.outputs@.take(self.core.outputs@.len() as int) =~= self.core.outputs@);
        }
        let ord: u32 = match self.core.transaction_type {
            TransactionType::Normal => 0,
        };
        crate::codec::push_u32_be(&mut vbytes, ord);
        vbytes.extend_from_slice(self.core.message.as_slice());
        proof {
            assert(vbytes@ =~= spec_serialize_for_signature(self.core));
        }
        vbytes
    }

    /// Sign the record's current content: compute the content hash of the
    /// canonical encoding, sign it with `privatekey`, and store both. Only
    /// the signature buffer and the cached hash change. If the first input
    /// carries the public key derived from `privatekey` and every input is
    /// valid, the signed record validates.
    pub fn sign(&mut self, privatekey: SaitoPrivateKey)
        requires
            spec_secret_key_ok(privatekey@),
        ensures
            final(self).core.timestamp == old(self).core.timestamp,
            final(self).core.inputs == old(self).core.inputs,
            final(self).core.outputs == old(self).core.outputs,
            final(self).core.message == old(self).core.message,
            final(self).core.transaction_type == old(self).core.transaction_type,
            final(self).hash_for_signature@ == spec_hash(
                spec_serialize_for_signature(old(self).core),
            ),
            final(self).core.signature@ == spec_sign(
                spec_hash(spec_serialize_for_signature(old(self).core)),
                privatekey@,
            ),
            spec_verify_ok(
                spec_hash(spec_serialize_for_signature(final(self).core)),
                final(self).core.signature@,
                spec_public_key_of(privatekey@),
            ),
            (old(self).core.inputs@.len() > 0 && old(self).core.inputs@[0].publickey@
                == spec_public_key_of(privatekey@) && spec_all_inputs_valid(old(self).core))
                ==> spec_transaction_valid(*final(self)),
    {
        let ser = self.serialize_for_signature();
        let hash_for_signature = crate::crypto::hash(&ser);
        let signature = crate::crypto::sign(&hash_for_signature, &privatekey);
        self.set_signature(signature);
        self.set_hash_for_signature(hash_for_signature);
        proof {
            assert(spec_serialize_for_signature(self.core) =~= spec_serialize_for_signature(
                old(self).core,
            ));
        }
    }

    /// Sign only if `privatekey` is a usable private key, telling the caller
    /// which case held; on `false` the record is unchanged.
    pub fn try_sign(&mut self, privatekey: SaitoPrivateKey) -> (r: bool)
        ensures
            r == spec_secret_key_ok(privatekey@),
            r ==> {
                &&& final(self).core.signature@ == spec_sign(
                    spec_hash(spec_serialize_for_signature(old(self).core)),
                    privatekey@,
                )
                &&& final(self).hash_for_signature@ == spec_hash(
                    spec_serialize_for_signature(old(self).core),
                )
                &&& final(self).core.timestamp == old(self).core.timestamp
                &&& final(self).core.inputs == old(self).core.inputs
                &&& final(self).core.outputs == old(self).core.outputs
                &&& final(self).core.message == old(self).core.message
                &&& final(self).core.transaction_type == old(self).core.transaction_type
            },
            !r ==> *final(self) == *old(self),
    {
        if crate::crypto::secret_key_valid(&privatekey) {
            self.sign(privatekey);
            true
        } else {
            false
        }
    }

    /// Recompute the content hash from the current field values, determine
    /// the signer key from the first input (the all-zero placeholder key if
    /// there are no inputs), and accept exactly when the stored signature
    /// verifies and every input passes its own validity check. A pure query:
    /// the record is not changed.
    pub fn validate(&self) -> (r: bool)
        ensures
            r == spec_transaction_valid(*self),
    {
        let ser = self.serialize_for_signature();
        let msg: SaitoHash = crate::crypto::hash(&ser);
        let sig: SaitoSignature = self.get_signature();
        let publickey: [u8; 33] = if self.core.inputs.len() > 0 {
            self.core.inputs[0].get_publickey()
        } else {
            let zero_key: [u8; 33] = [0; 33];
            proof {
                assert(zero_key@ =~= Seq::new(33, |i: int| 0u8));
            }
            zero_key
        };
        if !crate::crypto::verify(&msg, &sig, &publickey) {
            return false;
        }
        let mut i: usize = 0;
        while i < self.core.inputs.len()
            invariant
                0 <= i <= self.core.inputs@.len(),
                forall|j: int| 0 <= j < i ==> spec_slip_valid(#[trigger] self.core.inputs@[j]),
                spec_verify_ok(
                    spec_hash(spec_serialize_for_signature(self.core)),
                    self.core.signature@,
                    spec_signer_key(self.core),
                ),
            decreases self.core.inputs@.len() - i,
        {
            if !self.core.inputs[i].validate() {
                return false;
            }
            i = i + 1;
        }
        true
    }
}

impl Default for Transaction {
    /// A record wrapping the default core, with an all-zero cached hash.
    fn default() -> (t: Self)
        ensures
            t.core.inputs@ == Seq::<Slip>::empty(),
            t.core.outputs@ == Seq::<Slip>::empty(),
            t.core.message@ == Seq::<u8>::empty(),
            t.core.transaction_type == TransactionType::Normal,
            t.core.signature@ == Seq::new(64, |i: int| 0u8),
            t.hash_for_signature@ == Seq::new(32, |i: int| 0u8),
    {
        Transaction::new(TransactionCore::default())
    }
}

/// One step of the slip-list encoding: encoding the first `i + 1` slips is
/// encoding the first `i` and appending the encoding of slip `i`.
proof fn lemma_slips_serialize_take_step(slips: Seq<Slip>, i: int)
    requires
        0 <= i < slips.len(),
    ensures
        spec_slips_serialize(slips.take(i + 1)) == spec_slips_serialize(slips.take(i))
            + spec_slip_serialize(slips[i]),
{
    assert(slips.take(i + 1).drop_last() =~= slips.take(i));
    assert(slips.take(i + 1).last() == slips[i]);
}

/// The canonical slip encoding is exactly 42 bytes.
proof fn lemma_slip_serialize_len(s: Slip)
    ensures
        spec_slip_serialize(s).len() == 42,
{
}

/// The encoding of a slip list is 42 bytes per slip.
proof fn lemma_slips_serialize_len(slips: Seq<Slip>)
    ensures
        spec_slips_serialize(slips).len() == 42 * slips.len(),
    decreases slips.len(),
{
    if slips.len() > 0 {
        lemma_slips_serialize_len(slips.drop_last());
        lemma_slip_serialize_len(slips.last());
    }
}

/// Slip `i` of a list occupies bytes `42 * i .. 42 * i + 42` of the list's
/// encoding.
proof fn lemma_slips_serialize_index(slips: Seq<Slip>, i: int)
    requires
        0 <= i < slips.len(),
    ensures
        spec_slips_serialize(slips).subrange(42 * i, 42 * i + 42) == spec_slip_serialize(slips[i]),
    decreases slips.len(),
{
    lemma_slips_serialize_len(slips);
    lemma_slips_serialize_len(slips.drop_last());
    lemma_slip_serialize_len(slips.last());
    if i == slips.len() - 1 {
        assert(spec_slips_serialize(slips).subrange(42 * i, 42 * i + 42) =~= spec_slip_serialize(
            slips[i],
        ));
    } else {
        lemma_slips_serialize_index(slips.drop_last(), i);
        assert(slips.drop_last()[i] == slips[i]);
        assert(spec_slips_serialize(slips).subrange(42 * i, 42 * i + 42)
            =~= spec_slips_serialize(slips.drop_last()).subrange(42 * i, 42 * i + 42));
    }
}

/// The slip encoding is injective: two slips with the same 42 bytes are the
/// same slip.
proof fn lemma_slip_serialize_injective(a: Slip, b: Slip)
    requires
        spec_slip_serialize(a) == spec_slip_serialize(b),
    ensures
        a == b,
{
    lemma_slip_serialize_len(a);
    lemma_slip_serialize_len(b);
    assert(a.publickey@.len() == 33);
    assert(b.publickey@.len() == 33);
    assert forall|i: int| 0 <= i < 33 implies a.publickey@[i] == b.publickey@[i] by {
        assert(spec_slip_serialize(a)[i] == a.publickey@[i]);
        assert(spec_slip_serialize(b)[i] == b.publickey@[i]);
        assert(spec_slip_serialize(a)[i] == spec_slip_serialize(b)[i]);
    }
    assert(a.publickey@ =~= b.publickey@);
    assert(a.publickey =~= b.publickey);
    assert(spec_u64_to_be_bytes(a.amount) =~= spec_u64_to_be_bytes(b.amount)) by {
        assert forall|j: int| 0 <= j < 8 implies spec_u64_to_be_bytes(a.amount)[j]
            == spec_u64_to_be_bytes(b.amount)[j] by {
            assert(spec_slip_serialize(a)[34 + j] == spec_u64_to_be_bytes(a.amount)[j]);
            assert(spec_slip_serialize(b)[34 + j] == spec_u64_to_be_bytes(b.amount)[j]);
        }
    }
    crate::codec::lemma_u64_be_bytes_injective(a.amount, b.amount);
}

/// Law: the canonical encoding is order-sensitive in the inputs. Two records
/// that agree on the timestamp and on the number of inputs but disagree on
/// the slip at some input position — for instance, one record and the same
/// record with two distinct inputs swapped — have different canonical
/// encodings.
pub proof fn lemma_serialize_input_order_sensitive(
    c1: TransactionCore,
    c2: TransactionCore,
    i: int,
)
    requires
        c1.timestamp == c2.timestamp,
        c1.inputs@.len() == c2.inputs@.len(),
        0 <= i < c1.inputs@.len(),
        c1.inputs@[i] != c2.inputs@[i],
    ensures
        spec_serialize_for_signature(c1) != spec_serialize_for_signature(c2),
{
    if spec_serialize_for_signature(c1) == spec_serialize_for_signature(c2) {
        lemma_slips_serialize_len(c1.inputs@);
        lemma_slips_serialize_len(c2.inputs@);
        lemma_slips_serialize_index(c1.inputs@, i);
        lemma_slips_serialize_index(c2.inputs@, i);
        lemma_slip_serialize_len(c1.inputs@[i]);
        lemma_slip_serialize_len(c2.inputs@[i]);
        assert forall|j: int| 0 <= j < 42 implies spec_slip_serialize(c1.inputs@[i])[j]
            == spec_slip_serialize(c2.inputs@[i])[j] by {
            assert(spec_slip_serialize(c1.inputs@[i])[j] == spec_slips_serialize(
                c1.inputs@,
            ).subrange(42 * i, 42 * i + 42)[j]);
            assert(spec_slips_serialize(c1.inputs@).subrange(42 * i, 42 * i + 42)[j]
                == spec_slips_serialize(c1.inputs@)[42 * i + j]);
            assert(spec_serialize_for_signature(c1)[8 + 42 * i + j] == spec_slips_serialize(
                c1.inputs@,
            )[42 * i + j]);
            assert(spec_slip_serialize(c2.inputs@[i])[j] == spec_slips_serialize(
                c2.inputs@,
            ).subrange(42 * i, 42 * i + 42)[j]);
            assert(spec_slips_serialize(c2.inputs@).subrange(42 * i, 42 * i + 42)[j]
                == spec_slips_serialize(c2.inputs@)[42 * i + j]);
            assert(spec_serialize_for_signature(c2)[8 + 42 * i + j] == spec_slips_serialize(
                c2.inputs@,
            )[42 * i + j]);
        }
        assert(spec_slip_serialize(c1.inputs@[i]) =~= spec_slip_serialize(c2.inputs@[i]));
        lemma_slip_serialize_injective(c1.inputs@[i], c2.inputs@[i]);
        assert(false);
    }
}

} // verus!
