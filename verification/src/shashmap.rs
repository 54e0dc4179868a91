//! The unspent-output ledger ("shashmap"): an associative index from output
//! references to the block that consumed them, or the sentinel `-1` meaning
//! "registered and still unspent". Absence of a key means "never registered",
//! which is distinct from unspent. All mutation goes through block-apply and
//! block-rollback operations (and their single-slip variants); the ledger
//! enforces no sequencing itself, so double-spend detection belongs to the
//! caller, which must inspect `slip_block_id` before spending.

use vstd::prelude::*;
use vstd::pervasive::VecAdditionalExecFns;

use crate::slip::Slip;
use crate::transaction::Transaction;

verus! {

/// No two entries of the list carry the same slip.
spec fn spec_keys_unique(s: Seq<(Slip, i64)>) -> bool {
    forall|i: int, j: int| 0 <= i < j < s.len() ==> (#[trigger] s[i]).0 != (#[trigger] s[j]).0
}

/// Some entry of the list carries `k`.
spec fn spec_has_key(s: Seq<(Slip, i64)>, k: Slip) -> bool {
    exists|i: int| 0 <= i < s.len() && (#[trigger] s[i]).0 == k
}

/// The index of the entry carrying `k` (well-defined when keys are unique).
spec fn spec_index_of(s: Seq<(Slip, i64)>, k: Slip) -> int {
    choose|i: int| 0 <= i < s.len() && (#[trigger] s[i]).0 == k
}

/// The mapping an entry list denotes.
spec fn spec_map_of(s: Seq<(Slip, i64)>) -> Map<Slip, i64> {
    Map::new(|k: Slip| spec_has_key(s, k), |k: Slip| s[spec_index_of(s, k)].1)
}

/// The map after every key in `keys` has been set to `value`, in list order.
pub open spec fn spec_set_all(m: Map<Slip, i64>, keys: Seq<Slip>, value: i64) -> Map<Slip, i64>
    decreases keys.len(),
{
    if keys.len() == 0 {
        m
    } else {
        spec_set_all(m, keys.drop_last(), value).insert(keys.last(), value)
    }
}

/// The map after every key in `keys` has been removed, in list order.
pub open spec fn spec_remove_all(m: Map<Slip, i64>, keys: Seq<Slip>) -> Map<Slip, i64>
    decreases keys.len(),
{
    if keys.len() == 0 {
        m
    } else {
        spec_remove_all(m, keys.drop_last()).remove(keys.last())
    }
}

/// A key is in a list exactly when it is in the list without its last
/// element or is that last element.
proof fn lemma_contains_drop_last(keys: Seq<Slip>, k: Slip)
    requires
        keys.len() > 0,
    ensures
        keys.contains(k) <==> (keys.drop_last().contains(k) || k == keys.last()),
{
    if keys.contains(k) {
        let i = choose|i: int| 0 <= i < keys.len() && keys[i] == k;
        if i < keys.len() - 1 {
            assert(keys.drop_last()[i] == k);
            assert(keys.drop_last().contains(k));
        }
    }
    if keys.drop_last().contains(k) {
        let i = choose|i: int| 0 <= i < keys.drop_last().len() && keys.drop_last()[i] == k;
        assert(keys[i] == k);
        assert(keys.contains(k));
    }
    if k == keys.last() {
        assert(keys[keys.len() - 1] == k);
        assert(keys.contains(k));
    }
}

/// What `spec_set_all` does at one key: the key is present afterwards when
/// it was present before or is set; set keys carry `value`; untouched keys
/// keep their old value.
pub proof fn lemma_set_all_point(m: Map<Slip, i64>, keys: Seq<Slip>, value: i64, k: Slip)
    ensures
        spec_set_all(m, keys, value).contains_key(k) <==> (m.contains_key(k) || keys.contains(k)),
        keys.contains(k) ==> spec_set_all(m, keys, value)[k] == value,
        (m.contains_key(k) && !keys.contains(k)) ==> spec_set_all(m, keys, value)[k] == m[k],
    decreases keys.len(),
{
    if keys.len() > 0 {
        lemma_set_all_point(m, keys.drop_last(), value, k);
        lemma_contains_drop_last(keys, k);
    }
}

/// What `spec_remove_all` does at one key: removed keys are gone, the others
/// keep their presence and value.
pub proof fn lemma_remove_all_point(m: Map<Slip, i64>, keys: Seq<Slip>, k: Slip)
    ensures
        spec_remove_all(m, keys).contains_key(k) <==> (m.contains_key(k) && !keys.contains(k)),
        (m.contains_key(k) && !keys.contains(k)) ==> spec_remove_all(m, keys)[k] == m[k],
    decreases keys.len(),
{
    if keys.len() > 0 {
        lemma_remove_all_point(m, keys.drop_last(), k);
        lemma_contains_drop_last(keys, k);
    }
}

/// One step of `spec_set_all` along a prefix of `keys`.
proof fn lemma_set_all_take_step(m: Map<Slip, i64>, keys: Seq<Slip>, i: int, value: i64)
    requires
        0 <= i < keys.len(),
    ensures
        spec_set_all(m, keys.take(i + 1), value) == spec_set_all(m, keys.take(i), value).insert(
            keys[i],
            value,
        ),
{
    assert(keys.take(i + 1).drop_last() =~= keys.take(i));
}

/// One step of `spec_remove_all` along a prefix of `keys`.
proof fn lemma_remove_all_take_step(m: Map<Slip, i64>, keys: Seq<Slip>, i: int)
    requires
        0 <= i < keys.len(),
    ensures
        spec_remove_all(m, keys.take(i + 1)) == spec_remove_all(m, keys.take(i)).remove(keys[i]),
{
    assert(keys.take(i + 1).drop_last() =~= keys.take(i));
}

/// With unique keys, the entry found at `i` is the one the denoted map uses.
proof fn lemma_index_of_unique(s: Seq<(Slip, i64)>, k: Slip, i: int)
    requires
        spec_keys_unique(s),
        0 <= i < s.len(),
        s[i].0 == k,
    ensures
        spec_index_of(s, k) == i,
{
    assert(spec_has_key(s, k));
    let j = spec_index_of(s, k);
    assert(0 <= j < s.len() && s[j].0 == k);
    if j < i {
        assert(s[j].0 != s[i].0);
    } else if i < j {
        assert(s[i].0 != s[j].0);
    }
}

/// With unique keys, each entry is present in the denoted map with its value.
proof fn lemma_map_of_entry(s: Seq<(Slip, i64)>, i: int)
    requires
        spec_keys_unique(s),
        0 <= i < s.len(),
    ensures
        spec_map_of(s).contains_key(s[i].0),
        spec_map_of(s)[s[i].0] == s[i].1,
{
    assert(spec_has_key(s, s[i].0));
    lemma_index_of_unique(s, s[i].0, i);
}

/// Overwriting the entry at `i` denotes inserting its key with the new value.
proof fn lemma_map_of_update(s: Seq<(Slip, i64)>, i: int, slip: Slip, value: i64)
    requires
        spec_keys_unique(s),
        0 <= i < s.len(),
        s[i].0 == slip,
    ensures
        spec_keys_unique(s.update(i, (slip, value))),
        spec_map_of(s.update(i, (slip, value))) == spec_map_of(s).insert(slip, value),
{
    let t = s.update(i, (slip, value));
    assert forall|a: int| 0 <= a < t.len() implies (#[trigger] t[a]).0 == s[a].0 by {}
    assert forall|a: int, b: int| 0 <= a < b < t.len() implies (#[trigger] t[a]).0 != (
    #[trigger] t[b]).0 by {
        assert(s[a].0 != s[b].0);
    }
    assert forall|k: Slip| spec_has_key(t, k) implies spec_has_key(s, k) by {
        let a = choose|a: int| 0 <= a < t.len() && (#[trigger] t[a]).0 == k;
        assert(s[a].0 == k);
    }
    assert forall|k: Slip| spec_has_key(s, k) implies spec_has_key(t, k) by {
        let a = choose|a: int| 0 <= a < s.len() && (#[trigger] s[a]).0 == k;
        assert(t[a].0 == k);
    }
    assert forall|k: Slip| spec_map_of(t).contains_key(k) implies spec_map_of(t)[k] == spec_map_of(
        s,
    ).insert(slip, value)[k] by {
        if k == slip {
            lemma_index_of_unique(t, k, i);
        } else {
            let a = choose|a: int| 0 <= a < s.len() && (#[trigger] s[a]).0 == k;
            assert(a != i);
            lemma_index_of_unique(s, k, a);
            lemma_index_of_unique(t, k, a);
        }
    }
    assert(spec_map_of(t) =~= spec_map_of(s).insert(slip, value));
}

/// Appending an entry with a fresh key denotes inserting it.
proof fn lemma_map_of_push(s: Seq<(Slip, i64)>, slip: Slip, value: i64)
    requires
        spec_keys_unique(s),
        !spec_has_key(s, slip),
    ensures
        spec_keys_unique(s.push((slip, value))),
        spec_map_of(s.push((slip, value))) == spec_map_of(s).insert(slip, value),
{
    let t = s.push((slip, value));
    assert forall|a: int, b: int| 0 <= a < b < t.len() implies (#[trigger] t[a]).0 != (
    #[trigger] t[b]).0 by {
        if b < s.len() {
            assert(s[a].0 != s[b].0);
        } else {
            assert(t[b].0 == slip);
            assert(t[a].0 == s[a].0);
        }
    }
    assert forall|k: Slip| spec_has_key(t, k) implies (spec_has_key(s, k) || k == slip) by {
        let a = choose|a: int| 0 <= a < t.len() && (#[trigger] t[a]).0 == k;
        if a < s.len() {
            assert(s[a].0 == k);
        }
    }
    assert forall|k: Slip| spec_has_key(s, k) implies spec_has_key(t, k) by {
        let a = choose|a: int| 0 <= a < s.len() && (#[trigger] s[a]).0 == k;
        assert(t[a].0 == k);
    }
    assert(t[s.len() as int].0 == slip);
    assert(spec_has_key(t, slip));
    assert forall|k: Slip| spec_map_of(t).contains_key(k) implies spec_map_of(t)[k] == spec_map_of(
        s,
    ).insert(slip, value)[k] by {
        if k == slip {
            lemma_index_of_unique(t, k, s.len() as int);
        } else {
            let a = choose|a: int| 0 <= a < s.len() && (#[trigger] s[a]).0 == k;
            lemma_index_of_unique(s, k, a);
            lemma_index_of_unique(t, k, a);
        }
    }
    assert(spec_map_of(t) =~= spec_map_of(s).insert(slip, value));
}

/// Removing the entry at `i` denotes removing its key.
proof fn lemma_map_of_remove(s: Seq<(Slip, i64)>, i: int)
    requires
        spec_keys_unique(s),
        0 <= i < s.len(),
    ensures
        spec_keys_unique(s.remove(i)),
        spec_map_of(s.remove(i)) == spec_map_of(s).remove(s[i].0),
{
    let t = s.remove(i);
    assert forall|a: int, b: int| 0 <= a < b < t.len() implies (#[trigger] t[a]).0 != (
    #[trigger] t[b]).0 by {
        let sa: int = if a < i { a } else { a + 1 };
        let sb: int = if b < i { b } else { b + 1 };
        assert(t[a] == s[sa]);
        assert(t[b] == s[sb]);
        assert(s[sa].0 != s[sb].0);
    }
    assert forall|k: Slip| spec_has_key(t, k) implies (spec_has_key(s, k) && k != s[i].0) by {
        let a = choose|a: int| 0 <= a < t.len() && (#[trigger] t[a]).0 == k;
        let sa: int = if a < i { a } else { a + 1 };
        assert(t[a] == s[sa]);
        assert(s[sa].0 == k);
        assert(sa != i);
        if sa < i {
            assert(s[sa].0 != s[i].0);
        } else {
            assert(s[i].0 != s[sa].0);
        }
    }
    assert forall|k: Slip| spec_has_key(s, k) && k != s[i].0 implies spec_has_key(t, k) by {
        let a = choose|a: int| 0 <= a < s.len() && (#[trigger] s[a]).0 == k;
        assert(a != i);
        let ta: int = if a < i { a } else { a - 1 };
        assert(t[ta] == s[a]);
        assert(t[ta].0 == k);
    }
    assert forall|k: Slip| spec_map_of(t).contains_key(k) implies spec_map_of(t)[k] == spec_map_of(
        s,
    ).remove(s[i].0)[k] by {
        let a = choose|a: int| 0 <= a < s.len() && (#[trigger] s[a]).0 == k;
        lemma_index_of_unique(s, k, a);
        let ta: int = if a < i { a } else { a - 1 };
        assert(t[ta] == s[a]);
        lemma_index_of_unique(t, k, ta);
    }
    assert(spec_map_of(t) =~= spec_map_of(s).remove(s[i].0));
}

/// The index of the entry carrying `slip`, or `None` when no entry does.
fn find_index(entries: &Vec<(Slip, i64)>, slip: &Slip) -> (r: Option<usize>)
    ensures
        match r {
            Some(i) => i < entries@.len() && entries@[i as int].0 == *slip,
            None => !spec_has_key(entries@, *slip),
        },
{
    let mut i: usize = 0;
    while i < entries.len()
        invariant
            0 <= i <= entries@.len(),
            forall|j: int| 0 <= j < i ==> (#[trigger] entries@[j]).0 != *slip,
        decreases entries@.len() - i,
    {
        if entries[i].0 == *slip {
            return Some(i);
        }
        i = i + 1;
    }
    None
}

/// Set `slip` to `value` in the entry list, overwriting or appending.
fn put_entry(entries: &mut Vec<(Slip, i64)>, slip: Slip, value: i64)
    requires
        spec_keys_unique(old(entries)@),
    ensures
        spec_keys_unique(final(entries)@),
        spec_map_of(final(entries)@) == spec_map_of(old(entries)@).insert(slip, value),
{
    let found = find_index(entries, &slip);
    match found {
        Some(i) => {
            entries.set(i, (slip, value));
            proof {
                lemma_map_of_update(old(entries)@, i as int, slip, value);
            }
        },
        None => {
            entries.push((slip, value));
            proof {
                lemma_map_of_push(old(entries)@, slip, value);
            }
        },
    }
}

/// Remove `slip` from the entry list; absent keys are left alone.
fn del_entry(entries: &mut Vec<(Slip, i64)>, slip: &Slip)
    requires
        spec_keys_unique(old(entries)@),
    ensures
        spec_keys_unique(final(entries)@),
        spec_map_of(final(entries)@) == spec_map_of(old(entries)@).remove(*slip),
{
    let found = find_index(entries, slip);
    match found {
        Some(i) => {
            entries.remove(i);
            proof {
                lemma_map_of_remove(old(entries)@, i as int);
            }
        },
        None => {
            proof {
                assert(!spec_map_of(entries@).contains_key(*slip));
                assert(spec_map_of(entries@) =~= spec_map_of(entries@).remove(*slip));
            }
        },
    }
}

/// The unspent-output ledger: output references mapped to the id of the
/// block that consumed them, with `-1` reserved for "still unspent". Viewed
/// as a `Map<Slip, i64>`; a key that is absent was never registered.
#[derive(Debug)]
pub struct Shashmap {
    utxo_entries: Vec<(Slip, i64)>,
}

impl View for Shashmap {
    type V = Map<Slip, i64>;

    closed spec fn view(&self) -> Map<Slip, i64> {
        spec_map_of(self.utxo_entries@)
    }
}

impl Shashmap {
    #[verifier::type_invariant]
    spec fn wf(&self) -> bool {
        spec_keys_unique(self.utxo_entries@)
    }

    /// A ledger with nothing registered.
    pub fn new() -> (m: Self)
        ensures
            m@ == Map::<Slip, i64>::empty(),
    {
        let m = Shashmap { utxo_entries: Vec::new() };
        proof {
            assert(m@ =~= Map::<Slip, i64>::empty());
        }
        m
    }

    /// Set `slip` to `value`, overwriting any prior entry.
    fn put(&mut self, slip: Slip, value: i64)
        ensures
            final(self)@ == old(self)@.insert(slip, value),
    {
        proof {
            use_type_invariant(&*self);
        }
        let mut entries: Vec<(Slip, i64)> = Vec::new();
        std::mem::swap(&mut entries, &mut self.utxo_entries);
        put_entry(&mut entries, slip, value);
        self.utxo_entries = entries;
    }

    /// Remove `slip` entirely; an absent key is left alone.
    fn del(&mut self, slip: &Slip)
        ensures
            final(self)@ == old(self)@.remove(*slip),
    {
        proof {
            use_type_invariant(&*self);
        }
        let mut entries: Vec<(Slip, i64)> = Vec::new();
        std::mem::swap(&mut entries, &mut self.utxo_entries);
        del_entry(&mut entries, slip);
        self.utxo_entries = entries;
    }

    /// Unconditionally set `slip` to block id `id`, overwriting any prior
    /// entry: the low-level setter used for direct population. The id must
    /// fit in a signed 64-bit value: block identifiers are non-negative, and
    /// the sentinel `-1` must never collide with one.
    pub fn insert(&mut self, slip: Slip, id: u64)
        requires
            id <= i64::MAX as u64,
        ensures
            final(self)@ == old(self)@.insert(slip, id as i64),
    {
        self.put(slip, id as i64);
    }

    /// Register every output of `tx` as newly unspent (`-1`), overwriting
    /// any prior entries: called when a block introducing `tx` is applied.
    pub fn insert_new_transaction(&mut self, tx: &Transaction)
        ensures
            final(self)@ == spec_set_all(old(self)@, tx.core.outputs@, -1i64),
            forall|k: Slip| #[trigger]
                final(self)@.contains_key(k) <==> (old(self)@.contains_key(k)
                    || tx.core.outputs@.contains(k)),
            forall|k: Slip|
                tx.core.outputs@.contains(k) ==> #[trigger] final(self)@[k] == -1,
            forall|k: Slip|
                (old(self)@.contains_key(k) && !tx.core.outputs@.contains(k))
                    ==> #[trigger] final(self)@[k] == old(self)@[k],
    {
        let ghost m0 = self@;
        let ghost keys = tx.core.outputs@;
        let mut i: usize = 0;
        while i < tx.core.outputs.len()
            invariant
                0 <= i <= keys.len(),
                keys == tx.core.outputs@,
                self@ == spec_set_all(m0, keys.take(i as int), -1i64),
            decreases keys.len() - i,
        {
            self.put(tx.core.outputs[i], -1i64);
            proof {
                lemma_set_all_take_step(m0, keys, i as int, -1i64);
            }
            i = i + 1;
        }
        proof {
            assert(keys.take(keys.len() as int) =~= keys);
            assert forall|k: Slip|
                {
                    &&& (#[trigger] self@.contains_key(k) <==> (m0.contains_key(k)
                        || keys.contains(k)))
                    &&& (keys.contains(k) ==> self@[k] == -1)
                    &&& ((m0.contains_key(k) && !keys.contains(k)) ==> self@[k] == m0[k])
                } by {
                lemma_set_all_point(m0, keys, -1i64, k);
            }
        }
    }

    /// Mark every input of `tx` as consumed by block `block_id`, overwriting
    /// any prior entries: called when a block consuming `tx`'s inputs is
    /// applied. Whether each input was previously registered and unspent is
    /// the caller's check, made through `slip_block_id` beforehand.
    pub fn spend_transaction(&mut self, tx: &Transaction, block_id: u64)
        requires
            block_id <= i64::MAX as u64,
        ensures
            final(self)@ == spec_set_all(old(self)@, tx.core.inputs@, block_id as i64),
            forall|k: Slip| #[trigger]
                final(self)@.contains_key(k) <==> (old(self)@.contains_key(k)
                    || tx.core.inputs@.contains(k)),
            forall|k: Slip|
                tx.core.inputs@.contains(k) ==> #[trigger] final(self)@[k] == block_id as i64,
            forall|k: Slip|
                (old(self)@.contains_key(k) && !tx.core.inputs@.contains(k))
                    ==> #[trigger] final(self)@[k] == old(self)@[k],
    {
        let ghost m0 = self@;
        let ghost keys = tx.core.inputs@;
        let value: i64 = block_id as i64;
        let mut i: usize = 0;
        while i < tx.core.inputs.len()
            invariant
                0 <= i <= keys.len(),
                keys == tx.core.inputs@,
                self@ == spec_set_all(m0, keys.take(i as int), value as i64),
            decreases keys.len() - i,
        {
            self.put(tx.core.inputs[i], value);
            proof {
                lemma_set_all_take_step(m0, keys, i as int, value as i64);
            }
            i = i + 1;
        }
        proof {
            assert(keys.take(keys.len() as int) =~= keys);
            assert forall|k: Slip|
                {
                    &&& (#[trigger] self@.contains_key(k) <==> (m0.contains_key(k)
                        || keys.contains(k)))
                    &&& (keys.contains(k) ==> self@[k] == value as i64)
                    &&& ((m0.contains_key(k) && !keys.contains(k)) ==> self@[k] == m0[k])
                } by {
                lemma_set_all_point(m0, keys, value as i64, k);
            }
        }
    }

    /// Undo a previously applied transaction: reset every input of `tx` to
    /// unspent (`-1`), then remove every output of `tx` entirely — the
    /// outputs are treated as if they never existed, since the block that
    /// created them is being unwound.
    pub fn unspend_transaction(&mut self, tx: &Transaction)
        ensures
            final(self)@ == spec_remove_all(
                spec_set_all(old(self)@, tx.core.inputs@, -1i64),
                tx.core.outputs@,
            ),
            forall|k: Slip| #[trigger]
                final(self)@.contains_key(k) <==> ((old(self)@.contains_key(k)
                    || tx.core.inputs@.contains(k)) && !tx.core.outputs@.contains(k)),
            forall|k: Slip|
                tx.core.outputs@.contains(k) ==> !(#[trigger] final(self)@.contains_key(k)),
            forall|k: Slip|
                (tx.core.inputs@.contains(k) && !tx.core.outputs@.contains(k))
                    ==> #[trigger] final(self)@[k] == -1,
            forall|k: Slip|
                (old(self)@.contains_key(k) && !tx.core.inputs@.contains(k)
                    && !tx.core.outputs@.contains(k)) ==> #[trigger] final(self)@[k]
                    == old(self)@[k],
    {
        let ghost m0 = self@;
        let ghost in_keys = tx.core.inputs@;
        let ghost out_keys = tx.core.outputs@;
        let mut i: usize = 0;
        while i < tx.core.inputs.len()
            invariant
                0 <= i <= in_keys.len(),
                in_keys == tx.core.inputs@,
                self@ == spec_set_all(m0, in_keys.take(i as int), -1i64),
            decreases in_keys.len() - i,
        {
            self.put(tx.core.inputs[i], -1i64);
            proof {
                lemma_set_all_take_step(m0, in_keys, i as int, -1i64);
            }
            i = i + 1;
        }
        proof {
            assert(in_keys.take(in_keys.len() as int) =~= in_keys);
        }
        let ghost m1 = spec_set_all(m0, in_keys, -1i64);
        let mut j: usize = 0;
        while j < tx.core.outputs.len()
            invariant
                0 <= j <= out_keys.len(),
                out_keys == tx.core.outputs@,
                self@ == spec_remove_all(m1, out_keys.take(j as int)),
            decreases out_keys.len() - j,
        {
            self.del(&tx.core.outputs[j]);
            proof {
                lemma_remove_all_take_step(m1, out_keys, j as int);
            }
            j = j + 1;
        }
        proof {
            assert(out_keys.take(out_keys.len() as int) =~= out_keys);
            assert forall|k: Slip|
                {
                    &&& (#[trigger] self@.contains_key(k) <==> ((m0.contains_key(k)
                        || in_keys.contains(k)) && !out_keys.contains(k)))
                    &&& (out_keys.contains(k) ==> !self@.contains_key(k))
                    &&& ((in_keys.contains(k) && !out_keys.contains(k)) ==> self@[k] == -1)
                    &&& ((m0.contains_key(k) && !in_keys.contains(k) && !out_keys.contains(k))
                        ==> self@[k] == m0[k])
                } by {
                lemma_set_all_point(m0, in_keys, -1i64, k);
                lemma_remove_all_point(m1, out_keys, k);
            }
        }
    }

    /// Mark one slip as consumed by block `bid`: the single-slip variant of
    /// `spend_transaction`, for targeted corrections.
    pub fn spend_slip(&mut self, slip: &Slip, bid: u64)
        requires
            bid <= i64::MAX as u64,
        ensures
            final(self)@ == old(self)@.insert(*slip, bid as i64),
    {
        self.put(*slip, bid as i64);
    }

    /// Reset one slip to unspent (`-1`): the single-slip variant of the
    /// input half of `unspend_transaction`.
    pub fn unspend_slip(&mut self, slip: &Slip)
        ensures
            final(self)@ == old(self)@.insert(*slip, -1i64),
    {
        self.put(*slip, -1i64);
    }

    /// The current value for `slip`: `None` when the slip was never
    /// registered, `Some(-1)` when it is registered and still spendable, and
    /// `Some(id)` with `id >= 0` when block `id` consumed it.
    pub fn slip_block_id(&self, slip: &Slip) -> (r: Option<&i64>)
        ensures
            r is Some <==> self@.contains_key(*slip),
            r matches Some(v) ==> self@[*slip] == *v,
    {
        proof {
            use_type_invariant(&*self);
        }
        let mut i: usize = 0;
        while i < self.utxo_entries.len()
            invariant
                0 <= i <= self.utxo_entries@.len(),
                spec_keys_unique(self.utxo_entries@),
                forall|j: int| 0 <= j < i ==> (#[trigger] self.utxo_entries@[j]).0 != *slip,
            decreases self.utxo_entries@.len() - i,
        {
            if self.utxo_entries[i].0 == *slip {
                proof {
                    lemma_map_of_entry(self.utxo_entries@, i as int);
                }
                return Some(&self.utxo_entries[i].1);
            }
            i = i + 1;
        }
        proof {
            assert(!spec_has_key(self.utxo_entries@, *slip));
        }
        None
    }
}

/// Law: an overwrite wins entirely — after inserting `first` and then
/// `second` under one slip, the ledger holds `second` for that slip and is
/// exactly what inserting `second` alone would have produced.
pub proof fn lemma_insert_overwrites(m: Map<Slip, i64>, slip: Slip, first: i64, second: i64)
    ensures
        m.insert(slip, first).insert(slip, second) == m.insert(slip, second),
        m.insert(slip, first).insert(slip, second)[slip] == second,
{
    assert(m.insert(slip, first).insert(slip, second) =~= m.insert(slip, second));
}

/// Law: the apply/rollback cycle of one transaction. Registering the outputs
/// leaves each of them unspent (`-1`); spending the inputs at `block_id`
/// leaves each input at `block_id`; rolling back (inputs reset to `-1`,
/// outputs removed) leaves every input that is not also an output unspent
/// and every output absent.
pub proof fn lemma_apply_then_rollback(
    m: Map<Slip, i64>,
    inputs: Seq<Slip>,
    outputs: Seq<Slip>,
    block_id: i64,
)
    ensures
        forall|s: Slip|
            outputs.contains(s) ==> #[trigger] spec_set_all(m, outputs, -1i64).contains_key(s)
                && spec_set_all(m, outputs, -1i64)[s] == -1,
        forall|s: Slip|
            inputs.contains(s) ==> #[trigger] spec_set_all(
                spec_set_all(m, outputs, -1i64),
                inputs,
                block_id,
            ).contains_key(s) && spec_set_all(
                spec_set_all(m, outputs, -1i64),
                inputs,
                block_id,
            )[s] == block_id,
        forall|s: Slip|
            (inputs.contains(s) && !outputs.contains(s)) ==> #[trigger] spec_remove_all(
                spec_set_all(spec_set_all(spec_set_all(m, outputs, -1i64), inputs, block_id), inputs, -1i64),
                outputs,
            ).contains_key(s) && spec_remove_all(
                spec_set_all(spec_set_all(spec_set_all(m, outputs, -1i64), inputs, block_id), inputs, -1i64),
                outputs,
            )[s] == -1,
        forall|s: Slip|
            outputs.contains(s) ==> !(#[trigger] spec_remove_all(
                spec_set_all(spec_set_all(spec_set_all(m, outputs, -1i64), inputs, block_id), inputs, -1i64),
                outputs,
            ).contains_key(s)),
{
    assert forall|s: Slip| outputs.contains(s) implies #[trigger] spec_set_all(
        m,
        outputs,
        -1i64,
    ).contains_key(s) && spec_set_all(m, outputs, -1i64)[s] == -1i64 by {
        lemma_set_all_point(m, outputs, -1i64, s);
    }
    assert forall|s: Slip| inputs.contains(s) implies #[trigger] spec_set_all(
        spec_set_all(m, outputs, -1i64),
        inputs,
        block_id,
    ).contains_key(s) && spec_set_all(
        spec_set_all(m, outputs, -1i64),
        inputs,
        block_id,
    )[s] == block_id by {
        lemma_set_all_point(spec_set_all(m, outputs, -1i64), inputs, block_id, s);
    }
    assert forall|s: Slip| (inputs.contains(s) && !outputs.contains(s)) implies #[trigger]
    spec_remove_all(
        spec_set_all(spec_set_all(spec_set_all(m, outputs, -1i64), inputs, block_id), inputs, -1i64),
        outputs,
    ).contains_key(s) && spec_remove_all(
        spec_set_all(spec_set_all(spec_set_all(m, outputs, -1i64), inputs, block_id), inputs, -1i64),
        outputs,
    )[s] == -1i64 by {
        lemma_set_all_point(
            spec_set_all(spec_set_all(m, outputs, -1i64), inputs, block_id),
            inputs,
            -1i64,
            s,
        );
        lemma_remove_all_point(
            spec_set_all(
                spec_set_all(spec_set_all(m, outputs, -1i64), inputs, block_id),
                inputs,
                -1i64,
            ),
            outputs,
            s,
        );
    }
    assert forall|s: Slip| outputs.contains(s) implies !(#[trigger] spec_remove_all(
        spec_set_all(spec_set_all(spec_set_all(m, outputs, -1i64), inputs, block_id), inputs, -1i64),
        outputs,
    ).contains_key(s)) by {
        lemma_remove_all_point(
            spec_set_all(
                spec_set_all(spec_set_all(m, outputs, -1i64), inputs, block_id),
                inputs,
                -1i64,
            ),
            outputs,
            s,
        );
    }
}

} // verus!
