//! A lightweight audit trace: named checkpoints over payload checksums.
//!
//! Unlike the engine's per-step hash chain, a `Trace` accumulates checkpoint
//! metadata and derives a single hash at the end. Both disciplines share the
//! same hashing substrate.

use vstd::prelude::*;

verus! {

use crate::codec::{append_bytes, hash_bytes, push_dec, spec_dec, spec_hash_hex};
use vstd::string::StringSliceAdditionalSpecFns;
use vstd::utf8::encode_utf8;

/// One recorded checkpoint: a name, the payload's checksum, and its length.
#[derive(Debug, Clone, PartialEq, Eq)]
pub struct TraceStep {
    pub name: String,
    pub checksum_hex: String,
    pub len: usize,
}

/// The ordered trace of one run.
#[derive(Debug, Clone)]
pub struct Trace {
    run_id: String,
    intent_statement: String,
    steps: Vec<TraceStep>,
}

impl View for Trace {
    type V = (Seq<char>, Seq<char>, Seq<TraceStep>);

    closed spec fn view(&self) -> (Seq<char>, Seq<char>, Seq<TraceStep>) {
        (self.run_id@, self.intent_statement@, self.steps@)
    }
}

/// The line one checkpoint contributes to the final hash:
/// `name : checksum : len`, closed by a newline.
pub open spec fn step_line(s: TraceStep) -> Seq<u8> {
    encode_utf8(s.name@) + seq![58u8] + encode_utf8(s.checksum_hex@) + seq![58u8] + spec_dec(
        s.len as nat,
    ) + seq![10u8]
}

/// The concatenated lines of all checkpoints, in order.
pub open spec fn steps_bytes(ss: Seq<TraceStep>) -> Seq<u8>
    decreases ss.len(),
{
    if ss.len() == 0 {
        Seq::empty()
    } else {
        step_line(ss[0]) + steps_bytes(ss.drop_first())
    }
}

pub proof fn lemma_steps_bytes_push(ss: Seq<TraceStep>, s: TraceStep)
    ensures
        steps_bytes(ss.push(s)) == steps_bytes(ss) + step_line(s),
    decreases ss.len(),
{
    if ss.len() == 0 {
        assert(ss.push(s)[0] == s);
        assert(ss.push(s).drop_first() =~= Seq::<TraceStep>::empty());
        assert(steps_bytes(ss.push(s)) == step_line(s) + steps_bytes(Seq::<TraceStep>::empty()));
        assert(steps_bytes(ss.push(s)) =~= steps_bytes(ss) + step_line(s));
    } else {
        assert(ss.push(s)[0] == ss[0]);
        assert(ss.push(s).drop_first() =~= ss.drop_first().push(s));
        lemma_steps_bytes_push(ss.drop_first(), s);
        assert(steps_bytes(ss.push(s)) =~= steps_bytes(ss) + step_line(s));
    }
}

/// The exact bytes the final trace hash is computed over: the run id, the
/// intent statement, then every checkpoint line, newline-separated.
pub open spec fn trace_preimage(run_id: Seq<char>, statement: Seq<char>, ss: Seq<TraceStep>) -> Seq<
    u8,
> {
    encode_utf8(run_id) + seq![10u8] + encode_utf8(statement) + seq![10u8] + steps_bytes(ss)
}

impl Trace {
    /// Starts an empty trace for one run.
    pub fn new(run_id: &str, intent_statement: &str) -> (t: Self)
        ensures
            t@.0 == run_id@,
            t@.1 == intent_statement@,
            t@.2 =~= Seq::<TraceStep>::empty(),
    {
        Trace {
            run_id: run_id.to_owned(),
            intent_statement: intent_statement.to_owned(),
            steps: Vec::new(),
        }
    }

    /// Records one checkpoint: the payload's SHA-256 checksum and length
    /// under the given name. Checkpoints are append-only within one run.
    pub fn push_step(&mut self, name: &str, payload: &[u8])
        ensures
            final(self)@.0 == old(self)@.0,
            final(self)@.1 == old(self)@.1,
            final(self)@.2.len() == old(self)@.2.len() + 1,
            forall|i: int| 0 <= i < old(self)@.2.len() ==> final(self)@.2[i] == old(self)@.2[i],
            final(self)@.2.last().name@ == name@,
            final(self)@.2.last().checksum_hex@ == spec_hash_hex(payload@),
            final(self)@.2.last().len == payload@.len(),
    {
        let checksum_hex = hash_bytes(payload);
        self.steps.push(TraceStep { name: name.to_owned(), checksum_hex, len: payload.len() });
    }

    /// How many checkpoints have been recorded.
    pub fn steps_len(&self) -> (n: usize)
        ensures
            n == self@.2.len(),
    {
        self.steps.len()
    }

    /// The deterministic hash of the whole trace: run id, statement, and
    /// every checkpoint line, in order.
    pub fn finalize_hash(&self) -> (r: String)
        ensures
            r@ == spec_hash_hex(trace_preimage(self@.0, self@.1, self@.2)),
    {
        let mut preimage: Vec<u8> = Vec::new();
        append_bytes(&mut preimage, self.run_id.as_str().as_bytes());
        preimage.push(10u8);
        append_bytes(&mut preimage, self.intent_statement.as_str().as_bytes());
        preimage.push(10u8);
        let ghost base = preimage@;
        let n = self.steps.len();
        let mut i: usize = 0;
        while i < n
            invariant
                n == self@.2.len(),
                i <= n,
                preimage@ == base + steps_bytes(self@.2.subrange(0, i as int)),
            decreases n - i,
        {
            let step = &self.steps[i];
            append_bytes(&mut preimage, step.name.as_str().as_bytes());
            preimage.push(58u8);
            append_bytes(&mut preimage, step.checksum_hex.as_str().as_bytes());
            preimage.push(58u8);
            push_dec(&mut preimage, step.len as u64);
            preimage.push(10u8);
            proof {
                assert(self@.2.subrange(0, i + 1 as int) =~= self@.2.subrange(
                    0,
                    i as int,
                ).push(self@.2[i as int]));
                lemma_steps_bytes_push(self@.2.subrange(0, i as int), self@.2[i as int]);
                assert(preimage@ =~= base + steps_bytes(self@.2.subrange(0, i + 1 as int)));
            }
            i = i + 1;
        }
        proof {
            assert(self@.2.subrange(0, n as int) =~= self@.2);
            assert(preimage@ =~= trace_preimage(self@.0, self@.1, self@.2));
        }
        hash_bytes(preimage.as_slice())
    }
}

} // verus!
