//! Append-only, hash-chained record store.
//!
//! Each record's hash covers its predecessor's hash, its kind and its
//! payload; the first record chains to the `GENESIS` seed. Appending always
//! rescans the existing records to find the true tail — never a cached
//! counter — so a ledger reloaded from durable storage behaves identically.
//! Verification walks the whole chain and recomputes every hash.

use vstd::prelude::*;

verus! {

use crate::codec::{append_bytes, genesis, hash_bytes, spec_genesis, spec_hash_hex, string_eq};
use vstd::string::StringSliceAdditionalSpecFns;
use vstd::utf8::encode_utf8;

/// One durable record of the ledger.
#[derive(Debug, Clone, PartialEq, Eq)]
pub struct StoreRecord {
    /// Monotonic position, starting at 0.
    pub index: u64,
    /// Caller-chosen tag for the payload.
    pub kind: String,
    /// The payload, as an opaque line of text.
    pub payload_json: String,
    /// The predecessor's record hash, or `GENESIS` for the first record.
    pub prev_hash: String,
    /// SHA-256 hex over `prev_hash | kind | payload`.
    pub record_hash: String,
}

/// The bytes a record hash is computed over: `prev | kind | payload`, each
/// part as UTF-8, separated by `|`.
pub open spec fn rec_preimage(prev: Seq<char>, kind: Seq<char>, payload: Seq<char>) -> Seq<u8> {
    encode_utf8(prev) + seq![124u8] + encode_utf8(kind) + seq![124u8] + encode_utf8(payload)
}

/// The hash of one record's own content.
pub open spec fn rec_hash(prev: Seq<char>, kind: Seq<char>, payload: Seq<char>) -> Seq<char> {
    spec_hash_hex(rec_preimage(prev, kind, payload))
}

/// A record is well formed when its stored hash matches a fresh
/// recomputation from its own fields.
pub open spec fn record_wf(r: StoreRecord) -> bool {
    r.record_hash@ == rec_hash(r.prev_hash@, r.kind@, r.payload_json@)
}

/// Link `i` of the chain holds: the index is the position, the previous hash
/// is the predecessor's record hash (`GENESIS` at the start), and the record
/// is well formed.
pub open spec fn chain_link_ok(rs: Seq<StoreRecord>, i: int) -> bool {
    &&& rs[i].index == i
    &&& rs[i].prev_hash@ == if i == 0 {
        spec_genesis()
    } else {
        rs[i - 1].record_hash@
    }
    &&& record_wf(rs[i])
}

/// The whole chain holds. An empty ledger trivially verifies.
pub open spec fn chain_ok(rs: Seq<StoreRecord>) -> bool {
    forall|i: int| 0 <= i < rs.len() ==> #[trigger] chain_link_ok(rs, i)
}

/// The hash the next record must chain to.
pub open spec fn tail_hash(rs: Seq<StoreRecord>) -> Seq<char> {
    if rs.len() == 0 {
        spec_genesis()
    } else {
        rs.last().record_hash@
    }
}

/// The observable content of a record.
pub open spec fn rec_view(r: StoreRecord) -> (u64, Seq<char>, Seq<char>, Seq<char>, Seq<char>) {
    (r.index, r.kind@, r.payload_json@, r.prev_hash@, r.record_hash@)
}

/// An empty chain verifies, and appending a record that chains to the tail
/// keeps the chain verifying.
pub proof fn lemma_chain_integrity(rs: Seq<StoreRecord>, rec: StoreRecord)
    requires
        chain_ok(rs),
        rec.index == rs.len(),
        rec.prev_hash@ == tail_hash(rs),
        record_wf(rec),
    ensures
        chain_ok(rs.push(rec)),
        chain_ok(Seq::<StoreRecord>::empty()),
{
    let rs2 = rs.push(rec);
    assert forall|i: int| 0 <= i < rs2.len() implies #[trigger] chain_link_ok(rs2, i) by {
        if i < rs.len() {
            assert(chain_link_ok(rs, i));
        }
    }
}

/// Any broken link is caught by verification of the whole chain.
pub proof fn lemma_tamper_breaks_chain(rs: Seq<StoreRecord>, i: int)
    requires
        0 <= i < rs.len(),
        !chain_link_ok(rs, i),
    ensures
        !chain_ok(rs),
{
}


/// Equal prefixes cancel in a concatenation.
proof fn lemma_prefix_cancel(a: Seq<u8>, x: Seq<u8>, y: Seq<u8>)
    requires
        a + x == a + y,
    ensures
        x == y,
{
    assert((a + x).len() == a.len() + x.len());
    assert((a + y).len() == a.len() + y.len());
    assert(x.len() == y.len());
    assert forall|i: int| 0 <= i < x.len() implies x[i] == y[i] by {
        assert((a + x)[a.len() + i] == x[i]);
        assert((a + y)[a.len() + i] == y[i]);
    }
    assert(x =~= y);
}

/// Tampering with a stored record's payload is caught: a record whose
/// stored hash was computed over a different payload is no longer well
/// formed — unless the change produces a SHA-256 collision on the record
/// preimage, which the last premise rules out for the pair at hand.
pub proof fn lemma_payload_tamper_detected(orig: StoreRecord, tampered: StoreRecord)
    requires
        record_wf(orig),
        tampered.prev_hash@ == orig.prev_hash@,
        tampered.kind@ == orig.kind@,
        tampered.record_hash@ == orig.record_hash@,
        tampered.payload_json@ != orig.payload_json@,
        spec_hash_hex(
            rec_preimage(tampered.prev_hash@, tampered.kind@, tampered.payload_json@),
        ) == spec_hash_hex(rec_preimage(orig.prev_hash@, orig.kind@, orig.payload_json@))
            ==> rec_preimage(tampered.prev_hash@, tampered.kind@, tampered.payload_json@)
            == rec_preimage(orig.prev_hash@, orig.kind@, orig.payload_json@),
    ensures
        !record_wf(tampered),
{
    if record_wf(tampered) {
        let shared = encode_utf8(orig.prev_hash@) + seq![124u8] + encode_utf8(orig.kind@)
            + seq![124u8];
        assert(rec_preimage(orig.prev_hash@, orig.kind@, orig.payload_json@) =~= shared
            + encode_utf8(orig.payload_json@));
        assert(rec_preimage(tampered.prev_hash@, tampered.kind@, tampered.payload_json@)
            =~= shared + encode_utf8(tampered.payload_json@));
        lemma_prefix_cancel(
            shared,
            encode_utf8(tampered.payload_json@),
            encode_utf8(orig.payload_json@),
        );
        vstd::utf8::encode_utf8_decode_utf8(tampered.payload_json@);
        vstd::utf8::encode_utf8_decode_utf8(orig.payload_json@);
    }
}

/// The in-memory ledger. Durability — one record per line of append-only
/// storage — is the caller's concern; reloading goes through `from_records`
/// and is re-checked by `verify`, never trusted.
#[derive(Debug)]
pub struct AppendOnlyStore {
    records: Vec<StoreRecord>,
}

impl View for AppendOnlyStore {
    type V = Seq<StoreRecord>;

    closed spec fn view(&self) -> Seq<StoreRecord> {
        self.records@
    }
}

impl AppendOnlyStore {
    /// Opens a fresh, empty ledger.
    pub fn open() -> (s: Self)
        ensures
            s@ =~= Seq::<StoreRecord>::empty(),
    {
        AppendOnlyStore { records: Vec::new() }
    }

    /// Adopts records loaded from durable storage. The records are untrusted:
    /// nothing is assumed of them until `verify` has walked the chain.
    pub fn from_records(records: Vec<StoreRecord>) -> (s: Self)
        ensures
            s@ == records@,
    {
        AppendOnlyStore { records }
    }

    /// The records, in order.
    pub fn records(&self) -> (r: &Vec<StoreRecord>)
        ensures
            r@ == self@,
    {
        &self.records
    }

    /// The number of records.
    pub fn len(&self) -> (n: usize)
        ensures
            n == self@.len(),
    {
        self.records.len()
    }

    /// Appends one record: rescans for the current tail, hashes
    /// `prev | kind | payload`, assigns the next index, and stores the record
    /// without touching any prior one. Appending to a verifying ledger leaves
    /// it verifying.
    pub fn append_json(&mut self, kind: &str, payload_json: &str) -> (rec: StoreRecord)
        requires
            forall|i: int| 0 <= i < old(self)@.len() ==> old(self)@[i].index < u64::MAX,
        ensures
            final(self)@.len() == old(self)@.len() + 1,
            forall|i: int| 0 <= i < old(self)@.len() ==> final(self)@[i] == old(self)@[i],
            rec_view(final(self)@.last()) == rec_view(rec),
            rec.kind@ == kind@,
            rec.payload_json@ == payload_json@,
            rec.prev_hash@ == tail_hash(old(self)@),
            rec.record_hash@ == rec_hash(tail_hash(old(self)@), kind@, payload_json@),
            old(self)@.len() == 0 ==> rec.index == 0,
            old(self)@.len() > 0 ==> rec.index == old(self)@.last().index + 1,
            chain_ok(old(self)@) ==> chain_ok(final(self)@),
    {
        let mut last_hash: String = genesis();
        let mut last_index: u64 = 0;
        let n = self.records.len();
        let mut i: usize = 0;
        while i < n
            invariant
                n == self@.len(),
                i <= n,
                i == 0 ==> last_hash@ == spec_genesis() && last_index == 0,
                i > 0 ==> last_hash@ == self@[i - 1].record_hash@ && last_index == self@[i
                    - 1].index + 1,
                forall|j: int| 0 <= j < self@.len() ==> self@[j].index < u64::MAX,
            decreases n - i,
        {
            last_hash = self.records[i].record_hash.clone();
            last_index = self.records[i].index + 1;
            i = i + 1;
        }

        let mut preimage: Vec<u8> = Vec::new();
        append_bytes(&mut preimage, last_hash.as_str().as_bytes());
        preimage.push(124u8);
        append_bytes(&mut preimage, kind.as_bytes());
        preimage.push(124u8);
        append_bytes(&mut preimage, payload_json.as_bytes());
        proof {
            assert(preimage@ =~= rec_preimage(last_hash@, kind@, payload_json@));
        }
        let record_hash = hash_bytes(preimage.as_slice());

        let stored = StoreRecord {
            index: last_index,
            kind: kind.to_owned(),
            payload_json: payload_json.to_owned(),
            prev_hash: last_hash.clone(),
            record_hash: record_hash.clone(),
        };
        let returned = StoreRecord {
            index: last_index,
            kind: kind.to_owned(),
            payload_json: payload_json.to_owned(),
            prev_hash: last_hash,
            record_hash,
        };
        self.records.push(stored);
        proof {
            if chain_ok(old(self)@) {
                if old(self)@.len() > 0 {
                    assert(chain_link_ok(old(self)@, old(self)@.len() - 1));
                }
                lemma_chain_integrity(old(self)@, self@.last());
                assert(self@ =~= old(self)@.push(self@.last()));
            }
        }
        returned
    }

    /// Walks the chain in order: every record must chain to its predecessor
    /// and match a fresh recomputation of its own hash. Returns `true`
    /// exactly when the whole chain — an empty one included — holds.
    pub fn verify(&self) -> (r: bool)
        ensures
            r == chain_ok(self@),
    {
        let mut expected_prev: String = genesis();
        let n = self.records.len();
        let mut i: usize = 0;
        while i < n
            invariant
                n == self@.len(),
                i <= n,
                forall|j: int| 0 <= j < i ==> #[trigger] chain_link_ok(self@, j),
                i == 0 ==> expected_prev@ == spec_genesis(),
                i > 0 ==> expected_prev@ == self@[i - 1].record_hash@,
            decreases n - i,
        {
            let rec = &self.records[i];
            if rec.index != (i as u64) {
                proof {
                    lemma_tamper_breaks_chain(self@, i as int);
                }
                return false;
            }
            if !string_eq(&rec.prev_hash, &expected_prev) {
                proof {
                    lemma_tamper_breaks_chain(self@, i as int);
                }
                return false;
            }
            let mut preimage: Vec<u8> = Vec::new();
            append_bytes(&mut preimage, rec.prev_hash.as_str().as_bytes());
            preimage.push(124u8);
            append_bytes(&mut preimage, rec.kind.as_str().as_bytes());
            preimage.push(124u8);
            append_bytes(&mut preimage, rec.payload_json.as_str().as_bytes());
            proof {
                assert(preimage@ =~= rec_preimage(rec.prev_hash@, rec.kind@, rec.payload_json@));
            }
            let expected_hash = hash_bytes(preimage.as_slice());
            if !string_eq(&rec.record_hash, &expected_hash) {
                proof {
                    lemma_tamper_breaks_chain(self@, i as int);
                }
                return false;
            }
            expected_prev = self.records[i].record_hash.clone();
            i = i + 1;
        }
        true
    }
}

} // verus!
