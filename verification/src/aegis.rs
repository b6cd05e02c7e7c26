//! Policy decisions and their receipts.
//!
//! Subjects are carried as 128-bit identifiers and timestamps as explicit
//! epoch milliseconds: both are plain values handed in by the caller, never
//! read from the environment.

use vstd::prelude::*;

verus! {

/// The canonical decision record: allow with explicit scopes, deny, or
/// defer to review.
#[derive(Debug, Clone, PartialEq, Eq)]
pub enum Decision {
    Allow(Vec<String>),
    Deny,
    Review,
}

/// The deterministic placeholder policy.
#[derive(Debug, Clone, Copy, PartialEq, Eq, Structural)]
pub struct PolicyEngine;

impl PolicyEngine {
    /// Decides for a subject: the placeholder policy allows the `core`
    /// scope for every subject.
    pub fn decide(_subject: u128) -> (d: Decision)
        ensures
            d matches Decision::Allow(scopes) && scopes@.len() == 1 && scopes@[0]@ == "core"@,
    {
        let mut scopes: Vec<String> = Vec::new();
        scopes.push("core".to_owned());
        Decision::Allow(scopes)
    }

    /// Reserved hook for cryptographic signing of decisions; it does
    /// nothing yet.
    pub fn sign(_decision: &Decision) {
    }
}

/// A decision bound to its subject and issue time.
#[derive(Debug, Clone, PartialEq, Eq)]
pub struct AegisReceipt {
    pub subject: u128,
    pub decision: Decision,
    pub issued_at_ms: u64,
}

impl AegisReceipt {
    pub fn new(subject: u128, decision: Decision, issued_at_ms: u64) -> (r: Self)
        ensures
            r.subject == subject,
            r.decision == decision,
            r.issued_at_ms == issued_at_ms,
    {
        AegisReceipt { subject, decision, issued_at_ms }
    }
}

/// The receipts of a sequence that belong to the given subject, in order.
pub open spec fn subject_filter(rs: Seq<AegisReceipt>, subject: u128) -> Seq<AegisReceipt>
    decreases rs.len(),
{
    if rs.len() == 0 {
        Seq::empty()
    } else if rs[0].subject == subject {
        seq![rs[0]] + subject_filter(rs.drop_first(), subject)
    } else {
        subject_filter(rs.drop_first(), subject)
    }
}

pub proof fn lemma_subject_filter_push(rs: Seq<AegisReceipt>, subject: u128, x: AegisReceipt)
    ensures
        subject_filter(rs.push(x), subject) == if x.subject == subject {
            subject_filter(rs, subject).push(x)
        } else {
            subject_filter(rs, subject)
        },
    decreases rs.len(),
{
    if rs.len() == 0 {
        assert(rs.push(x).len() == 1);
        assert(rs.push(x)[0] == x);
        assert(rs.push(x).drop_first() =~= Seq::<AegisReceipt>::empty());
        assert(subject_filter(Seq::<AegisReceipt>::empty(), subject) == Seq::<
            AegisReceipt,
        >::empty());
        assert(subject_filter(rs, subject) == Seq::<AegisReceipt>::empty());
        if x.subject == subject {
            assert(subject_filter(rs.push(x), subject) == seq![x] + Seq::<AegisReceipt>::empty());
            assert(subject_filter(rs.push(x), subject) =~= subject_filter(rs, subject).push(x));
        } else {
            assert(subject_filter(rs.push(x), subject) == subject_filter(
                rs.push(x).drop_first(),
                subject,
            ));
        }
    } else {
        assert(rs.push(x)[0] == rs[0]);
        assert(rs.push(x).drop_first() =~= rs.drop_first().push(x));
        lemma_subject_filter_push(rs.drop_first(), subject, x);
        if x.subject == subject {
            assert(subject_filter(rs.push(x), subject) =~= subject_filter(rs, subject).push(x));
        }
    }
}

/// A minimal in-memory receipt store: deterministic, no clock, no
/// iteration-order ambiguity.
#[derive(Debug, Default)]
pub struct ReceiptStore {
    receipts: Vec<AegisReceipt>,
}

impl View for ReceiptStore {
    type V = Seq<AegisReceipt>;

    closed spec fn view(&self) -> Seq<AegisReceipt> {
        self.receipts@
    }
}

impl ReceiptStore {
    /// An empty store.
    pub fn new() -> (s: Self)
        ensures
            s@ =~= Seq::<AegisReceipt>::empty(),
    {
        ReceiptStore { receipts: Vec::new() }
    }

    /// Appends a receipt under its subject.
    pub fn insert(&mut self, receipt: AegisReceipt)
        ensures
            final(self)@ == old(self)@.push(receipt),
    {
        self.receipts.push(receipt);
    }

    /// All receipts for a subject, in insertion order.
    pub fn list(&self, subject: u128) -> (r: Vec<&AegisReceipt>)
        ensures
            r@.map_values(|p: &AegisReceipt| *p) == subject_filter(self@, subject),
    {
        let mut out: Vec<&AegisReceipt> = Vec::new();
        let n = self.receipts.len();
        let mut i: usize = 0;
        while i < n
            invariant
                n == self@.len(),
                i <= n,
                out@.map_values(|p: &AegisReceipt| *p) == subject_filter(
                    self@.subrange(0, i as int),
                    subject,
                ),
            decreases n - i,
        {
            let ghost prev = out@;
            if self.receipts[i].subject == subject {
                out.push(&self.receipts[i]);
                proof {
                    assert(out@.map_values(|p: &AegisReceipt| *p) =~= prev.map_values(
                        |p: &AegisReceipt| *p,
                    ).push(self@[i as int]));
                }
            }
            proof {
                assert(self@.subrange(0, i + 1 as int) =~= self@.subrange(0, i as int).push(
                    self@[i as int],
                ));
                lemma_subject_filter_push(self@.subrange(0, i as int), subject, self@[i as int]);
            }
            i = i + 1;
        }
        proof {
            assert(self@.subrange(0, n as int) =~= self@);
        }
        out
    }

    /// The most recently issued receipt for a subject, if any.
    pub fn latest(&self, subject: u128) -> (r: Option<&AegisReceipt>)
        ensures
            r matches Some(x) ==> x.subject == subject && (exists|i: int|
                0 <= i < self@.len() && #[trigger] self@[i] == *x) && forall|i: int|
                0 <= i < self@.len() && (#[trigger] self@[i].subject) == subject
                    ==> self@[i].issued_at_ms <= x.issued_at_ms,
            r is None <==> forall|i: int|
                0 <= i < self@.len() ==> (#[trigger] self@[i].subject) != subject,
    {
        let mut best: Option<&AegisReceipt> = None;
        let n = self.receipts.len();
        let mut i: usize = 0;
        while i < n
            invariant
                n == self@.len(),
                i <= n,
                best matches Some(x) ==> x.subject == subject && (exists|j: int|
                    0 <= j < self@.len() && #[trigger] self@[j] == *x) && forall|j: int|
                    0 <= j < i && (#[trigger] self@[j].subject) == subject ==> self@[j].issued_at_ms
                        <= x.issued_at_ms,
                best is None ==> forall|j: int|
                    0 <= j < i ==> (#[trigger] self@[j].subject) != subject,
            decreases n - i,
        {
            if self.receipts[i].subject == subject {
                let replace = match best {
                    None => true,
                    Some(x) => self.receipts[i].issued_at_ms >= x.issued_at_ms,
                };
                if replace {
                    best = Some(&self.receipts[i]);
                }
            }
            i = i + 1;
        }
        best
    }
}

} // verus!
