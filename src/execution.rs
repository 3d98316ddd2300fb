//! The boundary to the application layer: which transactions are valid
//! (signature, proof-of-work threshold, no replayed proof of work), and the
//! record of proof-of-work hashes that finalized blocks have spent.

use vstd::prelude::*;

use crate::codec::models;
use crate::crypto::{ed25519_accepts, sha256_of, Sha256Digest};
use crate::types::{pow_hash_of, NotarizedBlock, Transaction, TransactionModel};

verus! {

broadcast use vstd::array::group_array_axioms;

/// `a` comes strictly before `b` in lexicographic byte order.
pub open spec fn bytes_less(a: Seq<u8>, b: Seq<u8>) -> bool {
    exists|i: int|
        0 <= i < a.len() && i < b.len() && a[i] < b[i] && forall|j: int|
            0 <= j < i ==> a[j] == b[j]
}

/// Lexicographic order on bytes is transitive.
pub proof fn lemma_bytes_less_trans(a: Seq<u8>, b: Seq<u8>, c: Seq<u8>)
    requires
        bytes_less(a, b),
        bytes_less(b, c),
    ensures
        bytes_less(a, c),
{
    let i = choose|i: int|
        0 <= i < a.len() && i < b.len() && a[i] < b[i] && forall|j: int| 0 <= j < i ==> a[j] == b[j];
    let k = choose|k: int|
        0 <= k < b.len() && k < c.len() && b[k] < c[k] && forall|j: int| 0 <= j < k ==> b[j] == c[j];
    let m = if i < k { i } else { k };
    assert(0 <= m < a.len() && m < c.len() && a[m] < c[m] && forall|j: int| 0 <= j < m ==> a[j] == c[j]);
}

/// Two different byte strings of one length are ordered one way or the other.
pub proof fn lemma_bytes_total(a: Seq<u8>, b: Seq<u8>)
    requires
        a.len() == b.len(),
        a != b,
    ensures
        bytes_less(a, b) || bytes_less(b, a),
{
    lemma_bytes_total_from(a, b, 0);
}

proof fn lemma_bytes_total_from(a: Seq<u8>, b: Seq<u8>, k: int)
    requires
        a.len() == b.len(),
        a != b,
        0 <= k <= a.len(),
        forall|j: int| 0 <= j < k ==> a[j] == b[j],
    ensures
        bytes_less(a, b) || bytes_less(b, a),
    decreases a.len() - k,
{
    if k == a.len() {
        assert(a =~= b);
    } else if a[k] != b[k] {
        if a[k] < b[k] {
            assert(bytes_less(a, b));
        } else {
            assert(forall|j: int| 0 <= j < k ==> b[j] == a[j]);
            assert(bytes_less(b, a));
        }
    } else {
        lemma_bytes_total_from(a, b, k + 1);
    }
}

/// The threshold below which a proof-of-work hash must fall: all ones.
pub open spec fn pow_threshold_bytes() -> Seq<u8> {
    Seq::new(32, |i: int| 255u8)
}

/// Whether a list of digests holds `d`.
pub open spec fn holds_digest(ds: Seq<Sha256Digest>, d: Seq<u8>) -> bool {
    exists|i: int| 0 <= i < ds.len() && ds[i]@ == d
}

/// A transaction is valid when its signature covers the hash of its calldata,
/// its proof-of-work hash falls below the threshold, and that hash is unspent.
pub open spec fn transaction_valid(t: TransactionModel, spent: Seq<Sha256Digest>) -> bool {
    &&& ed25519_accepts(t.pub_key, sha256_of(t.calldata), t.signature)
    &&& bytes_less(pow_hash_of(t), pow_threshold_bytes())
    &&& !holds_digest(spent, pow_hash_of(t))
}

/// Lexicographic comparison of two digests.
pub fn digest_less(a: &Sha256Digest, b: &Sha256Digest) -> (r: bool)
    ensures
        r == bytes_less(a@, b@),
{
    let mut i: usize = 0;
    while i < 32
        invariant
            i <= 32,
            a@.len() == 32,
            b@.len() == 32,
            forall|j: int| 0 <= j < i ==> a@[j] == b@[j],
        decreases 32 - i,
    {
        if a.data[i] < b.data[i] {
            assert(0 <= i < 32 && a@[i as int] < b@[i as int]);
            return true;
        }
        if a.data[i] > b.data[i] {
            assert forall|k: int| 0 <= k < a@.len() && k < b@.len() && a@[k] < b@[k] implies !(
            forall|j: int| 0 <= j < k ==> a@[j] == b@[j]) by {
                if k > i {
                    assert(a@[i as int] != b@[i as int]);
                }
            }
            return false;
        }
        i = i + 1;
    }
    assert forall|k: int| 0 <= k < a@.len() && k < b@.len() implies !(a@[k] < b@[k]) by {}
    false
}

/// Whether a list of digests holds `d`.
pub fn contains_digest(ds: &Vec<Sha256Digest>, d: &Sha256Digest) -> (r: bool)
    ensures
        r == holds_digest(ds@, d@),
{
    let mut i: usize = 0;
    while i < ds.len()
        invariant
            i <= ds@.len(),
            forall|j: int| 0 <= j < i ==> ds@[j]@ != d@,
        decreases ds@.len() - i,
    {
        if ds[i] == *d {
            assert(ds@[i as int]@ == d@);
            return true;
        }
        assert(ds@[i as int]@ != d@) by {
            if ds@[i as int]@ == d@ {
                assert(ds@[i as int].data =~= d.data);
            }
        }
        i = i + 1;
    }
    false
}

/// `after` is `before` with the proof-of-work hashes of the first `k`
/// transactions of `txs` spent, and the next one, if any, not valid.
pub open spec fn executed_count(before: Seq<Sha256Digest>, after: Seq<Sha256Digest>, txs: Seq<TransactionModel>, k: int) -> bool {
    &&& 0 <= k <= txs.len()
    &&& after.len() == before.len() + k
    &&& after.take(before.len() as int) == before
    &&& forall|i: int| 0 <= i < k ==> #[trigger] after[before.len() + i]@ == pow_hash_of(txs[i])
    &&& k < txs.len() ==> !transaction_valid(txs[k], after)
}

/// `after` is `before` with the proof-of-work hashes of a prefix of `txs`
/// spent, executed in order until the first one that is not valid.
pub open spec fn executed_prefix(before: Seq<Sha256Digest>, after: Seq<Sha256Digest>, txs: Seq<TransactionModel>) -> bool {
    exists|k: int| #[trigger] executed_count(before, after, txs, k)
}

/// Validates transactions and records the proof-of-work hashes that executed
/// transactions have spent.
#[derive(Debug)]
pub struct Execution {
    pub seen_pow_hash: Vec<Sha256Digest>,
}

impl Execution {
    /// An execution state with nothing spent.
    pub fn new() -> (r: Execution)
        ensures
            r.seen_pow_hash@.len() == 0,
    {
        Execution { seen_pow_hash: Vec::new() }
    }

    /// The threshold below which a proof-of-work hash must fall.
    pub fn pow_threshold(&self) -> (r: Sha256Digest)
        ensures
            r@ == pow_threshold_bytes(),
    {
        let r = Sha256Digest { data: [255u8; 32] };
        assert(r@ =~= pow_threshold_bytes());
        r
    }

    /// Whether `transaction` is valid now.
    pub fn verify_transaction(&self, transaction: &Transaction) -> (r: bool)
        ensures
            r == transaction_valid(transaction@, self.seen_pow_hash@),
    {
        let calldata_hash = transaction.calculate_calldata_hash();
        let valid_signature = transaction.pub_key.verify_signature_hash(
            calldata_hash,
            &transaction.signature,
        );
        let pow_hash = transaction.calculate_pow_hash();
        let threshold = self.pow_threshold();
        let passes_pow_threshold = digest_less(&pow_hash, &threshold);
        let pow_hash_not_yet_used = !contains_digest(&self.seen_pow_hash, &pow_hash);
        passes_pow_threshold && pow_hash_not_yet_used && valid_signature
    }

    /// Executes one transaction: if it is valid, spends its proof-of-work hash.
    /// Returns whether it was valid; an invalid one changes nothing.
    pub fn execute_transaction(&mut self, transaction: &Transaction) -> (r: bool)
        ensures
            r == transaction_valid(transaction@, old(self).seen_pow_hash@),
            r ==> final(self).seen_pow_hash@.len() == old(self).seen_pow_hash@.len() + 1
                && final(self).seen_pow_hash@.drop_last() == old(self).seen_pow_hash@
                && final(self).seen_pow_hash@.last()@ == pow_hash_of(transaction@),
            !r ==> final(self).seen_pow_hash@ == old(self).seen_pow_hash@,
    {
        let valid = self.verify_transaction(transaction);
        if valid {
            let pow_hash = transaction.calculate_pow_hash();
            self.seen_pow_hash.push(pow_hash);
            assert(self.seen_pow_hash@.drop_last() =~= old(self).seen_pow_hash@);
        }
        valid
    }

    /// Executes a finalized block's transactions in order, stopping at the
    /// first invalid one. Returns how many were executed.
    pub fn execute_block(&mut self, block: &NotarizedBlock) -> (r: usize)
        ensures
            r <= block.transactions@.len(),
            forall|i: int| 0 <= i < r ==> #[trigger] final(self).seen_pow_hash@[old(self).seen_pow_hash@.len() + i]@
                == pow_hash_of(block.transactions@[i]@),
            final(self).seen_pow_hash@.len() == old(self).seen_pow_hash@.len() + r,
            final(self).seen_pow_hash@.take(old(self).seen_pow_hash@.len() as int) == old(self).seen_pow_hash@,
            r < block.transactions@.len() ==> !transaction_valid(
                block.transactions@[r as int]@,
                final(self).seen_pow_hash@,
            ),
            executed_prefix(old(self).seen_pow_hash@, final(self).seen_pow_hash@, models(block.transactions@)),
    {
        let mut i: usize = 0;
        while i < block.transactions.len()
            invariant
                i <= block.transactions@.len(),
                self.seen_pow_hash@.len() == old(self).seen_pow_hash@.len() + i,
                self.seen_pow_hash@.take(old(self).seen_pow_hash@.len() as int) == old(self).seen_pow_hash@,
                forall|k: int| 0 <= k < i ==> #[trigger] self.seen_pow_hash@[old(self).seen_pow_hash@.len() + k]@
                    == pow_hash_of(block.transactions@[k]@),
            decreases block.transactions@.len() - i,
        {
            let ghost before = self.seen_pow_hash@;
            if !self.execute_transaction(&block.transactions[i]) {
                assert(self.seen_pow_hash@.len() == old(self).seen_pow_hash@.len() + i);
                assert(executed_count(old(self).seen_pow_hash@, self.seen_pow_hash@, models(block.transactions@), i as int));
                return i;
            }
            assert(self.seen_pow_hash@.take(old(self).seen_pow_hash@.len() as int) =~= before.take(old(self).seen_pow_hash@.len() as int));
            assert forall|k: int| 0 <= k < i + 1 implies #[trigger] self.seen_pow_hash@[old(self).seen_pow_hash@.len() + k]@
                == pow_hash_of(block.transactions@[k]@) by {
                if k < i {
                    assert(self.seen_pow_hash@.drop_last()[old(self).seen_pow_hash@.len() + k] == before[old(self).seen_pow_hash@.len() + k]);
                }
            }
            i = i + 1;
        }
        assert(self.seen_pow_hash@.len() == old(self).seen_pow_hash@.len() + i);
        assert(executed_count(old(self).seen_pow_hash@, self.seen_pow_hash@, models(block.transactions@), i as int));
        i
    }
}

} // verus!
