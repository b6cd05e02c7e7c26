//! Versioned, self-checking envelopes around an intent.
//!
//! An envelope binds a protocol tag and a checksum to an intent. Sealing
//! computes the checksum over the canonical bytes of `(protocol, intent)` —
//! the checksum field itself is excluded, so there is no recursive hashing.
//! Verification recomputes the checksum and compares: any field change after
//! sealing is detectable by re-verification alone.

use vstd::prelude::*;

verus! {

use crate::codec::{
    enc_bool, enc_opt_str, enc_str, enc_u64, hash_bytes, lemma_enc_bool_framing,
    lemma_enc_opt_str_framing, lemma_enc_str_framing, lemma_enc_u64_framing, push_bool,
    push_opt_str, push_str_field, push_u64, spec_hash_hex, string_eq,
};

/// Hash algorithms allowed by the contract.
#[derive(Debug, Clone, Copy, PartialEq, Eq, Structural)]
pub enum HashAlgo {
    Sha256,
}

/// Privacy tier is part of the contract; it is never inferred.
#[derive(Debug, Clone, Copy, PartialEq, Eq, Structural)]
pub enum PrivacyTier {
    Public,
    Protected,
    Confidential,
    Sealed,
}

/// Operational constraints carried inside an intent, keeping runs bounded.
#[derive(Debug, Clone, PartialEq, Eq)]
pub struct Constraints {
    pub max_steps: u32,
    pub max_runtime_ms: u64,
    pub require_logs: bool,
    pub privacy: PrivacyTier,
}

/// A single input datum. No maps appear anywhere in hashed material, so field
/// order — and with it the canonical byte form — is fixed.
#[derive(Debug, Clone, PartialEq, Eq)]
pub struct Datum {
    pub key: String,
    pub value: String,
}

/// The caller's declared request: explicit, bounded, never inferred.
#[derive(Debug, Clone, PartialEq, Eq)]
pub struct Intent {
    /// Client-generated identifier.
    pub intent_id: String,
    /// Client clock, unix epoch milliseconds. Logged, not trusted.
    pub created_unix_ms: u64,
    /// Optional operator label.
    pub operator: Option<String>,
    /// What the operator wants answered.
    pub statement: String,
    /// Input data, explicit and ordered.
    pub inputs: Vec<Datum>,
    /// Bounds for the run.
    pub constraints: Constraints,
    /// Guards against accidental replay collisions when an id is reused.
    pub nonce: u64,
}

/// A checksum bound to an envelope's canonical bytes.
#[derive(Debug, Clone, PartialEq, Eq)]
pub struct Checksum {
    pub algo: HashAlgo,
    pub hex: String,
}

/// A request envelope: versioned, canonical, self-checking.
#[derive(Debug, Clone, PartialEq, Eq)]
pub struct RequestEnvelope {
    pub protocol: String,
    pub intent: Intent,
    pub checksum: Checksum,
}

/// Lifecycle of a run as reported back to the caller.
#[derive(Debug, Clone, Copy, PartialEq, Eq, Structural)]
pub enum RunStatus {
    Idle,
    Accepted,
    Rejected,
    Running,
    Completed,
    Failed,
}

/// A minimal response contract; it carries no engine logic.
#[derive(Debug, Clone, PartialEq, Eq)]
pub struct ResponseEnvelope {
    pub protocol: String,
    pub intent_id: String,
    pub status: RunStatus,
    pub message: String,
    pub payload_json: Option<String>,
    pub logs_json: Option<String>,
    pub checksum: Checksum,
}

/// Contract errors of the handshake layer.
#[derive(Debug, Clone, PartialEq, Eq)]
pub enum HandshakeError {
    ProtocolMismatch { expected: String, got: String },
    ChecksumMismatch,
    BadChecksumFormat,
    BadJson,
}

/// The protocol tag embedded into every envelope.
pub open spec fn spec_protocol() -> Seq<char> {
    "amethyst-pilgrim-handshake/1"@
}

/// The protocol tag, as a value.
pub fn protocol_version() -> (s: String)
    ensures
        s@ == spec_protocol(),
{
    "amethyst-pilgrim-handshake/1".to_owned()
}

/// Canonical tag byte of a privacy tier.
pub open spec fn enc_privacy(p: PrivacyTier) -> Seq<u8> {
    match p {
        PrivacyTier::Public => seq![80u8],
        PrivacyTier::Protected => seq![84u8],
        PrivacyTier::Confidential => seq![67u8],
        PrivacyTier::Sealed => seq![83u8],
    }
}

fn push_privacy(out: &mut Vec<u8>, p: PrivacyTier)
    ensures
        final(out)@ == old(out)@ + enc_privacy(p),
{
    match p {
        PrivacyTier::Public => out.push(80u8),
        PrivacyTier::Protected => out.push(84u8),
        PrivacyTier::Confidential => out.push(67u8),
        PrivacyTier::Sealed => out.push(83u8),
    }
}

/// Canonical tag byte of a run status.
pub open spec fn enc_status(s: RunStatus) -> Seq<u8> {
    match s {
        RunStatus::Idle => seq![73u8],
        RunStatus::Accepted => seq![65u8],
        RunStatus::Rejected => seq![82u8],
        RunStatus::Running => seq![85u8],
        RunStatus::Completed => seq![67u8],
        RunStatus::Failed => seq![70u8],
    }
}

fn push_status(out: &mut Vec<u8>, s: RunStatus)
    ensures
        final(out)@ == old(out)@ + enc_status(s),
{
    match s {
        RunStatus::Idle => out.push(73u8),
        RunStatus::Accepted => out.push(65u8),
        RunStatus::Rejected => out.push(82u8),
        RunStatus::Running => out.push(85u8),
        RunStatus::Completed => out.push(67u8),
        RunStatus::Failed => out.push(70u8),
    }
}

/// Canonical bytes of the constraints, fields in declared order.
pub open spec fn enc_constraints(c: Constraints) -> Seq<u8> {
    enc_u64(c.max_steps as u64) + enc_u64(c.max_runtime_ms) + enc_bool(c.require_logs)
        + enc_privacy(c.privacy)
}

fn push_constraints(out: &mut Vec<u8>, c: &Constraints)
    ensures
        final(out)@ == old(out)@ + enc_constraints(*c),
{
    push_u64(out, c.max_steps as u64);
    push_u64(out, c.max_runtime_ms);
    push_bool(out, c.require_logs);
    push_privacy(out, c.privacy);
}

/// Canonical bytes of one datum: key, then value.
pub open spec fn enc_datum(d: Datum) -> Seq<u8> {
    enc_str(d.key@) + enc_str(d.value@)
}

fn push_datum(out: &mut Vec<u8>, d: &Datum)
    ensures
        final(out)@ == old(out)@ + enc_datum(*d),
{
    push_str_field(out, d.key.as_str());
    push_str_field(out, d.value.as_str());
}

/// Concatenated canonical bytes of a datum list, in order.
pub open spec fn enc_datums(ds: Seq<Datum>) -> Seq<u8>
    decreases ds.len(),
{
    if ds.len() == 0 {
        Seq::empty()
    } else {
        enc_datum(ds[0]) + enc_datums(ds.drop_first())
    }
}

pub proof fn lemma_enc_datums_push(ds: Seq<Datum>, d: Datum)
    ensures
        enc_datums(ds.push(d)) == enc_datums(ds) + enc_datum(d),
    decreases ds.len(),
{
    if ds.len() == 0 {
        assert(ds.push(d)[0] == d);
        assert(ds.push(d).drop_first() =~= Seq::<Datum>::empty());
        assert(enc_datums(ds.push(d)) == enc_datum(d) + enc_datums(Seq::<Datum>::empty()));
        assert(enc_datums(ds.push(d)) =~= enc_datums(ds) + enc_datum(d));
    } else {
        assert(ds.push(d)[0] == ds[0]);
        assert(ds.push(d).drop_first() =~= ds.drop_first().push(d));
        lemma_enc_datums_push(ds.drop_first(), d);
        assert(enc_datums(ds.push(d)) =~= enc_datums(ds) + enc_datum(d));
    }
}

/// Canonical bytes of the input list: the count, then each datum.
pub open spec fn enc_inputs(ds: Seq<Datum>) -> Seq<u8> {
    enc_u64(ds.len() as u64) + enc_datums(ds)
}

fn push_inputs(out: &mut Vec<u8>, ds: &Vec<Datum>)
    ensures
        final(out)@ == old(out)@ + enc_inputs(ds@),
{
    push_u64(out, ds.len() as u64);
    let ghost base = out@;
    let mut i: usize = 0;
    while i < ds.len()
        invariant
            i <= ds@.len(),
            out@ == base + enc_datums(ds@.subrange(0, i as int)),
        decreases ds@.len() - i,
    {
        push_datum(out, &ds[i]);
        proof {
            assert(ds@.subrange(0, i + 1 as int) =~= ds@.subrange(0, i as int).push(ds@[i as int]));
            lemma_enc_datums_push(ds@.subrange(0, i as int), ds@[i as int]);
        }
        i = i + 1;
    }
    proof {
        assert(ds@.subrange(0, ds@.len() as int) =~= ds@);
    }
}

/// View of an optional string.
pub open spec fn opt_view(o: Option<String>) -> Option<Seq<char>> {
    match o {
        Option::None => Option::None,
        Option::Some(s) => Option::Some(s@),
    }
}

/// Canonical bytes of an intent, fields in declared order.
pub open spec fn enc_intent(i: Intent) -> Seq<u8> {
    enc_str(i.intent_id@) + enc_u64(i.created_unix_ms) + enc_opt_str(opt_view(i.operator))
        + enc_str(i.statement@) + enc_inputs(i.inputs@) + enc_constraints(i.constraints) + enc_u64(
        i.nonce,
    )
}

fn push_intent(out: &mut Vec<u8>, i: &Intent)
    ensures
        final(out)@ == old(out)@ + enc_intent(*i),
{
    push_str_field(out, i.intent_id.as_str());
    push_u64(out, i.created_unix_ms);
    push_opt_str(out, &i.operator);
    push_str_field(out, i.statement.as_str());
    push_inputs(out, &i.inputs);
    push_constraints(out, &i.constraints);
    push_u64(out, i.nonce);
}

/// The exact bytes a request checksum is computed over: the protocol tag and
/// the intent; never the checksum itself.
pub open spec fn spec_request_seal_bytes(protocol: Seq<char>, i: Intent) -> Seq<u8> {
    enc_str(protocol) + enc_intent(i)
}

/// The request checksum: SHA-256 hex of the canonical seal bytes.
pub open spec fn spec_request_checksum(protocol: Seq<char>, i: Intent) -> Seq<char> {
    spec_hash_hex(spec_request_seal_bytes(protocol, i))
}

/// A request envelope is sealed: its tag is current and its stored checksum
/// equals the checksum of its own canonical bytes.
pub open spec fn request_sealed(env: RequestEnvelope) -> bool {
    &&& env.protocol@ == spec_protocol()
    &&& env.checksum.hex@ == spec_request_checksum(env.protocol@, env.intent)
}

impl Constraints {
    /// Deterministic constructor for bridge callers: ignores its argument and
    /// yields the all-zero bounds with the default privacy tier.
    pub fn from_json_string(_s: &str) -> (r: Self)
        ensures
            r.max_steps == 0,
            r.max_runtime_ms == 0,
            !r.require_logs,
            r.privacy == PrivacyTier::Protected,
    {
        Constraints { max_steps: 0, max_runtime_ms: 0, require_logs: false, privacy: PrivacyTier::Protected }
    }
}

impl Default for Constraints {
    /// Generous but finite default bounds.
    fn default() -> (r: Self)
        ensures
            r.max_steps == 10000,
            r.max_runtime_ms == 10000,
            r.require_logs,
            r.privacy == PrivacyTier::Protected,
    {
        Constraints {
            max_steps: 10000,
            max_runtime_ms: 10000,
            require_logs: true,
            privacy: PrivacyTier::Protected,
        }
    }
}

impl RequestEnvelope {
    /// Seals `intent`: stamps the current protocol tag and computes the
    /// checksum over the canonical bytes of `(protocol, intent)`.
    pub fn new(intent: Intent) -> (env: Self)
        ensures
            env.intent == intent,
            env.checksum.algo == HashAlgo::Sha256,
            request_sealed(env),
    {
        let protocol = protocol_version();
        let mut bytes: Vec<u8> = Vec::new();
        push_str_field(&mut bytes, protocol.as_str());
        push_intent(&mut bytes, &intent);
        let hex = hash_bytes(bytes.as_slice());
        RequestEnvelope { protocol, intent, checksum: Checksum { algo: HashAlgo::Sha256, hex } }
    }

    /// Recomputes the checksum over this envelope's own canonical bytes.
    pub fn compute_checksum_hex(&self) -> (r: String)
        ensures
            r@ == spec_request_checksum(self.protocol@, self.intent),
    {
        let bytes = self.seal_bytes();
        hash_bytes(bytes.as_slice())
    }

    /// The canonical bytes used for sealing and verification. Downstream
    /// hashing must reuse these bytes rather than re-derive its own encoding.
    pub fn seal_bytes(&self) -> (r: Vec<u8>)
        ensures
            r@ == spec_request_seal_bytes(self.protocol@, self.intent),
    {
        let mut bytes: Vec<u8> = Vec::new();
        push_str_field(&mut bytes, self.protocol.as_str());
        push_intent(&mut bytes, &self.intent);
        bytes
    }

    /// Alias of `seal_bytes` for bridge consumers.
    pub fn to_canonical_bytes(&self) -> (r: Vec<u8>)
        ensures
            r@ == spec_request_seal_bytes(self.protocol@, self.intent),
    {
        self.seal_bytes()
    }

    /// Succeeds exactly on a sealed envelope. Fails with `ProtocolMismatch`
    /// when the tag differs from the verifier's expected tag, and with
    /// `ChecksumMismatch` when the recomputed checksum differs from the
    /// stored one.
    pub fn verify(&self) -> (r: Result<(), HandshakeError>)
        ensures
            r is Ok <==> request_sealed(*self),
            self.protocol@ != spec_protocol() ==> (r matches Err(
                HandshakeError::ProtocolMismatch { expected, got },
            ) && expected@ == spec_protocol() && got@ == self.protocol@),
            self.protocol@ == spec_protocol() && self.checksum.hex@ != spec_request_checksum(
                self.protocol@,
                self.intent,
            ) ==> (r matches Err(e) && e is ChecksumMismatch),
    {
        let expected_protocol = protocol_version();
        if !string_eq(&self.protocol, &expected_protocol) {
            return Err(HandshakeError::ProtocolMismatch {
                expected: expected_protocol,
                got: self.protocol.clone(),
            });
        }
        match self.checksum.algo {
            HashAlgo::Sha256 => {
                let expected = self.compute_checksum_hex();
                if !string_eq(&expected, &self.checksum.hex) {
                    return Err(HandshakeError::ChecksumMismatch);
                }
                Ok(())
            },
        }
    }
}

/// The digest a receipt binds to: the checksum of the would-be sealed
/// envelope around `intent`, under the current protocol tag. Downstream
/// hashing reuses the envelope's canonical bytes rather than re-deriving
/// its own encoding.
pub fn canonical_intent_digest(intent: &Intent) -> (r: String)
    ensures
        r@ == spec_request_checksum(spec_protocol(), *intent),
{
    let protocol = protocol_version();
    let mut bytes: Vec<u8> = Vec::new();
    push_str_field(&mut bytes, protocol.as_str());
    push_intent(&mut bytes, intent);
    hash_bytes(bytes.as_slice())
}

/// The canonical bytes of an intent's input list: the initial payload of a
/// run derived from the intent alone.
pub fn intent_input_bytes(intent: &Intent) -> (r: Vec<u8>)
    ensures
        r@ == enc_inputs(intent.inputs@),
{
    let mut bytes: Vec<u8> = Vec::new();
    push_inputs(&mut bytes, &intent.inputs);
    bytes
}

/// The bytes a response checksum is computed over, fields in declared order,
/// excluding the checksum itself.
pub open spec fn spec_response_seal_bytes(env: ResponseEnvelope) -> Seq<u8> {
    enc_str(env.protocol@) + enc_str(env.intent_id@) + enc_status(env.status) + enc_str(
        env.message@,
    ) + enc_opt_str(opt_view(env.payload_json)) + enc_opt_str(opt_view(env.logs_json))
}

/// The response checksum: SHA-256 hex of the canonical bytes.
pub open spec fn spec_response_checksum(env: ResponseEnvelope) -> Seq<char> {
    spec_hash_hex(spec_response_seal_bytes(env))
}

/// A response envelope is sealed: current tag, checksum of its own bytes.
pub open spec fn response_sealed(env: ResponseEnvelope) -> bool {
    &&& env.protocol@ == spec_protocol()
    &&& env.checksum.hex@ == spec_response_checksum(env)
}

impl ResponseEnvelope {
    fn canonical_bytes(&self) -> (r: Vec<u8>)
        ensures
            r@ == spec_response_seal_bytes(*self),
    {
        let mut bytes: Vec<u8> = Vec::new();
        push_str_field(&mut bytes, self.protocol.as_str());
        push_str_field(&mut bytes, self.intent_id.as_str());
        push_status(&mut bytes, self.status);
        push_str_field(&mut bytes, self.message.as_str());
        push_opt_str(&mut bytes, &self.payload_json);
        push_opt_str(&mut bytes, &self.logs_json);
        bytes
    }

    /// Recomputes the checksum over this envelope's own canonical bytes.
    pub fn compute_checksum_hex(&self) -> (r: String)
        ensures
            r@ == spec_response_checksum(*self),
    {
        let bytes = self.canonical_bytes();
        hash_bytes(bytes.as_slice())
    }

    /// Seals a response around `(intent_id, status, message)` with no payload
    /// and no logs reference.
    pub fn new(intent_id: String, status: RunStatus, message: String) -> (env: Self)
        ensures
            env.intent_id@ == intent_id@,
            env.status == status,
            env.message@ == message@,
            env.payload_json is None,
            env.logs_json is None,
            env.checksum.algo == HashAlgo::Sha256,
            response_sealed(env),
    {
        let mut env = ResponseEnvelope {
            protocol: protocol_version(),
            intent_id,
            status,
            message,
            payload_json: None,
            logs_json: None,
            checksum: Checksum { algo: HashAlgo::Sha256, hex: String::new() },
        };
        let hex = env.compute_checksum_hex();
        env.checksum = Checksum { algo: HashAlgo::Sha256, hex };
        env
    }

    /// Succeeds exactly on a sealed envelope; same failure split as the
    /// request side.
    pub fn verify(&self) -> (r: Result<(), HandshakeError>)
        ensures
            r is Ok <==> response_sealed(*self),
            self.protocol@ != spec_protocol() ==> (r matches Err(
                HandshakeError::ProtocolMismatch { expected, got },
            ) && expected@ == spec_protocol() && got@ == self.protocol@),
            self.protocol@ == spec_protocol() && self.checksum.hex@ != spec_response_checksum(
                *self,
            ) ==> (r matches Err(e) && e is ChecksumMismatch),
    {
        let expected_protocol = protocol_version();
        if !string_eq(&self.protocol, &expected_protocol) {
            return Err(HandshakeError::ProtocolMismatch {
                expected: expected_protocol,
                got: self.protocol.clone(),
            });
        }
        let expected = self.compute_checksum_hex();
        if !string_eq(&expected, &self.checksum.hex) {
            return Err(HandshakeError::ChecksumMismatch);
        }
        Ok(())
    }
}

/// A single tag byte frames: equal one-byte prefixes of equal strings force
/// equal tags and tails.
proof fn lemma_tag_framing(x: Seq<u8>, y: Seq<u8>, r: Seq<u8>, s: Seq<u8>)
    requires
        x.len() == 1,
        y.len() == 1,
        x + r == y + s,
    ensures
        x == y,
        r == s,
{
    assert((x + r)[0] == x[0]);
    assert((y + s)[0] == y[0]);
    assert(x =~= y);
    assert((x + r).len() == x.len() + r.len());
    assert((y + s).len() == y.len() + s.len());
    assert(r.len() == s.len());
    assert forall|i: int| 0 <= i < r.len() implies r[i] == s[i] by {
        assert((x + r)[1 + i] == r[i]);
        assert((y + s)[1 + i] == s[i]);
    }
    assert(r =~= s);
}

proof fn lemma_enc_privacy_framing(a: PrivacyTier, b: PrivacyTier, r: Seq<u8>, s: Seq<u8>)
    requires
        enc_privacy(a) + r == enc_privacy(b) + s,
    ensures
        a == b,
        r == s,
{
    assert(enc_privacy(a).len() == 1);
    assert(enc_privacy(b).len() == 1);
    lemma_tag_framing(enc_privacy(a), enc_privacy(b), r, s);
    assert(enc_privacy(a)[0] == enc_privacy(b)[0]);
}

/// Two datums are observably equal.
pub open spec fn datum_obs_eq(d1: Datum, d2: Datum) -> bool {
    d1.key@ == d2.key@ && d1.value@ == d2.value@
}

/// Two input lists are observably equal.
pub open spec fn inputs_obs_eq(ds1: Seq<Datum>, ds2: Seq<Datum>) -> bool {
    ds1.len() == ds2.len() && forall|i: int|
        0 <= i < ds1.len() ==> datum_obs_eq(#[trigger] ds1[i], ds2[i])
}

/// Two intents are observably equal: every field that enters the canonical
/// bytes coincides.
pub open spec fn intent_obs_eq(i1: Intent, i2: Intent) -> bool {
    &&& i1.intent_id@ == i2.intent_id@
    &&& i1.created_unix_ms == i2.created_unix_ms
    &&& opt_view(i1.operator) == opt_view(i2.operator)
    &&& i1.statement@ == i2.statement@
    &&& inputs_obs_eq(i1.inputs@, i2.inputs@)
    &&& i1.constraints.max_steps == i2.constraints.max_steps
    &&& i1.constraints.max_runtime_ms == i2.constraints.max_runtime_ms
    &&& i1.constraints.require_logs == i2.constraints.require_logs
    &&& i1.constraints.privacy == i2.constraints.privacy
    &&& i1.nonce == i2.nonce
}

proof fn lemma_enc_constraints_framing(c1: Constraints, c2: Constraints, r: Seq<u8>, s: Seq<u8>)
    requires
        enc_constraints(c1) + r == enc_constraints(c2) + s,
    ensures
        c1.max_steps == c2.max_steps,
        c1.max_runtime_ms == c2.max_runtime_ms,
        c1.require_logs == c2.require_logs,
        c1.privacy == c2.privacy,
        r == s,
{
    let t1 = enc_u64(c1.max_runtime_ms) + (enc_bool(c1.require_logs) + (enc_privacy(c1.privacy)
        + r));
    let t2 = enc_u64(c2.max_runtime_ms) + (enc_bool(c2.require_logs) + (enc_privacy(c2.privacy)
        + s));
    assert(enc_u64(c1.max_steps as u64) + t1 =~= enc_constraints(c1) + r);
    assert(enc_u64(c2.max_steps as u64) + t2 =~= enc_constraints(c2) + s);
    lemma_enc_u64_framing(c1.max_steps as u64, c2.max_steps as u64, t1, t2);
    lemma_enc_u64_framing(
        c1.max_runtime_ms,
        c2.max_runtime_ms,
        enc_bool(c1.require_logs) + (enc_privacy(c1.privacy) + r),
        enc_bool(c2.require_logs) + (enc_privacy(c2.privacy) + s),
    );
    lemma_enc_bool_framing(
        c1.require_logs,
        c2.require_logs,
        enc_privacy(c1.privacy) + r,
        enc_privacy(c2.privacy) + s,
    );
    lemma_enc_privacy_framing(c1.privacy, c2.privacy, r, s);
}

proof fn lemma_enc_datum_framing(d1: Datum, d2: Datum, r: Seq<u8>, s: Seq<u8>)
    requires
        enc_datum(d1) + r == enc_datum(d2) + s,
    ensures
        datum_obs_eq(d1, d2),
        r == s,
{
    assert(enc_str(d1.key@) + (enc_str(d1.value@) + r) =~= enc_datum(d1) + r);
    assert(enc_str(d2.key@) + (enc_str(d2.value@) + s) =~= enc_datum(d2) + s);
    lemma_enc_str_framing(d1.key@, d2.key@, enc_str(d1.value@) + r, enc_str(d2.value@) + s);
    lemma_enc_str_framing(d1.value@, d2.value@, r, s);
}

proof fn lemma_enc_datums_framing(ds1: Seq<Datum>, ds2: Seq<Datum>, r: Seq<u8>, s: Seq<u8>)
    requires
        ds1.len() == ds2.len(),
        enc_datums(ds1) + r == enc_datums(ds2) + s,
    ensures
        inputs_obs_eq(ds1, ds2),
        r == s,
    decreases ds1.len(),
{
    if ds1.len() == 0 {
        assert(enc_datums(ds1) =~= Seq::<u8>::empty());
        assert(enc_datums(ds2) =~= Seq::<u8>::empty());
        assert(Seq::<u8>::empty() + r =~= r);
        assert(Seq::<u8>::empty() + s =~= s);
    } else {
        assert(enc_datum(ds1[0]) + (enc_datums(ds1.drop_first()) + r) =~= enc_datums(ds1) + r);
        assert(enc_datum(ds2[0]) + (enc_datums(ds2.drop_first()) + s) =~= enc_datums(ds2) + s);
        lemma_enc_datum_framing(
            ds1[0],
            ds2[0],
            enc_datums(ds1.drop_first()) + r,
            enc_datums(ds2.drop_first()) + s,
        );
        lemma_enc_datums_framing(ds1.drop_first(), ds2.drop_first(), r, s);
        assert forall|i: int| 0 <= i < ds1.len() implies datum_obs_eq(
            #[trigger] ds1[i],
            ds2[i],
        ) by {
            if i > 0 {
                assert(datum_obs_eq(ds1.drop_first()[i - 1], ds2.drop_first()[i - 1]));
            }
        }
    }
}

proof fn lemma_enc_inputs_framing(ds1: Seq<Datum>, ds2: Seq<Datum>, r: Seq<u8>, s: Seq<u8>)
    requires
        enc_inputs(ds1) + r == enc_inputs(ds2) + s,
        ds1.len() <= u64::MAX,
        ds2.len() <= u64::MAX,
    ensures
        inputs_obs_eq(ds1, ds2),
        r == s,
{
    assert(enc_u64(ds1.len() as u64) + (enc_datums(ds1) + r) =~= enc_inputs(ds1) + r);
    assert(enc_u64(ds2.len() as u64) + (enc_datums(ds2) + s) =~= enc_inputs(ds2) + s);
    lemma_enc_u64_framing(
        ds1.len() as u64,
        ds2.len() as u64,
        enc_datums(ds1) + r,
        enc_datums(ds2) + s,
    );
    assert(ds1.len() == ds2.len());
    lemma_enc_datums_framing(ds1, ds2, r, s);
}

/// Rewrites an intent encoding followed by a tail into its right-nested
/// field-by-field shape.
proof fn lemma_intent_tail_shape(i: Intent, r: Seq<u8>)
    ensures
        enc_intent(i) + r == enc_str(i.intent_id@) + (enc_u64(i.created_unix_ms) + (enc_opt_str(
            opt_view(i.operator),
        ) + (enc_str(i.statement@) + (enc_inputs(i.inputs@) + (enc_constraints(i.constraints) + (
        enc_u64(i.nonce) + r)))))),
{
    let a = enc_str(i.intent_id@);
    let b = enc_u64(i.created_unix_ms);
    let c = enc_opt_str(opt_view(i.operator));
    let d = enc_str(i.statement@);
    let e = enc_inputs(i.inputs@);
    let f = enc_constraints(i.constraints);
    let g = enc_u64(i.nonce);
    vstd::seq_lib::lemma_concat_associative(a + b + c + d + e + f, g, r);
    vstd::seq_lib::lemma_concat_associative(a + b + c + d + e, f, g + r);
    vstd::seq_lib::lemma_concat_associative(a + b + c + d, e, f + (g + r));
    vstd::seq_lib::lemma_concat_associative(a + b + c, d, e + (f + (g + r)));
    vstd::seq_lib::lemma_concat_associative(a + b, c, d + (e + (f + (g + r))));
    vstd::seq_lib::lemma_concat_associative(a, b, c + (d + (e + (f + (g + r)))));
}

#[verifier::rlimit(100)]
proof fn lemma_enc_intent_framing(i1: Intent, i2: Intent, r: Seq<u8>, s: Seq<u8>)
    requires
        enc_intent(i1) + r == enc_intent(i2) + s,
        i1.inputs@.len() <= u64::MAX,
        i2.inputs@.len() <= u64::MAX,
    ensures
        intent_obs_eq(i1, i2),
        r == s,
{
    lemma_intent_tail_shape(i1, r);
    lemma_intent_tail_shape(i2, s);
    lemma_enc_str_framing(
        i1.intent_id@,
        i2.intent_id@,
        enc_u64(i1.created_unix_ms) + (enc_opt_str(opt_view(i1.operator)) + (enc_str(
            i1.statement@,
        ) + (enc_inputs(i1.inputs@) + (enc_constraints(i1.constraints) + (enc_u64(i1.nonce)
            + r))))),
        enc_u64(i2.created_unix_ms) + (enc_opt_str(opt_view(i2.operator)) + (enc_str(
            i2.statement@,
        ) + (enc_inputs(i2.inputs@) + (enc_constraints(i2.constraints) + (enc_u64(i2.nonce)
            + s))))),
    );
    lemma_enc_u64_framing(
        i1.created_unix_ms,
        i2.created_unix_ms,
        enc_opt_str(opt_view(i1.operator)) + (enc_str(i1.statement@) + (enc_inputs(i1.inputs@)
            + (enc_constraints(i1.constraints) + (enc_u64(i1.nonce) + r)))),
        enc_opt_str(opt_view(i2.operator)) + (enc_str(i2.statement@) + (enc_inputs(i2.inputs@)
            + (enc_constraints(i2.constraints) + (enc_u64(i2.nonce) + s)))),
    );
    lemma_enc_opt_str_framing(
        opt_view(i1.operator),
        opt_view(i2.operator),
        enc_str(i1.statement@) + (enc_inputs(i1.inputs@) + (enc_constraints(i1.constraints)
            + (enc_u64(i1.nonce) + r))),
        enc_str(i2.statement@) + (enc_inputs(i2.inputs@) + (enc_constraints(i2.constraints)
            + (enc_u64(i2.nonce) + s))),
    );
    lemma_enc_str_framing(
        i1.statement@,
        i2.statement@,
        enc_inputs(i1.inputs@) + (enc_constraints(i1.constraints) + (enc_u64(i1.nonce) + r)),
        enc_inputs(i2.inputs@) + (enc_constraints(i2.constraints) + (enc_u64(i2.nonce) + s)),
    );
    lemma_enc_inputs_framing(
        i1.inputs@,
        i2.inputs@,
        enc_constraints(i1.constraints) + (enc_u64(i1.nonce) + r),
        enc_constraints(i2.constraints) + (enc_u64(i2.nonce) + s),
    );
    lemma_enc_constraints_framing(
        i1.constraints,
        i2.constraints,
        enc_u64(i1.nonce) + r,
        enc_u64(i2.nonce) + s,
    );
    lemma_enc_u64_framing(i1.nonce, i2.nonce, r, s);
}

/// The canonical seal bytes are injective: two envelopes share them only
/// when the protocol tags and every observable intent field coincide.
pub proof fn lemma_seal_bytes_injective(p1: Seq<char>, i1: Intent, p2: Seq<char>, i2: Intent)
    requires
        spec_request_seal_bytes(p1, i1) == spec_request_seal_bytes(p2, i2),
        i1.inputs@.len() <= u64::MAX,
        i2.inputs@.len() <= u64::MAX,
    ensures
        p1 == p2,
        intent_obs_eq(i1, i2),
{
    assert(enc_str(p1) + (enc_intent(i1) + Seq::<u8>::empty()) =~= spec_request_seal_bytes(
        p1,
        i1,
    ));
    assert(enc_str(p2) + (enc_intent(i2) + Seq::<u8>::empty()) =~= spec_request_seal_bytes(
        p2,
        i2,
    ));
    lemma_enc_str_framing(
        p1,
        p2,
        enc_intent(i1) + Seq::<u8>::empty(),
        enc_intent(i2) + Seq::<u8>::empty(),
    );
    lemma_enc_intent_framing(i1, i2, Seq::<u8>::empty(), Seq::<u8>::empty());
}

/// Tamper detection: mutating any observable field of a sealed envelope
/// leaves an envelope that no longer verifies — unless the mutation
/// produces a SHA-256 collision on the canonical bytes, which the premise
/// rules out for the pair at hand.
pub proof fn lemma_envelope_tamper_detected(sealed: RequestEnvelope, tampered: RequestEnvelope)
    requires
        request_sealed(sealed),
        tampered.checksum.hex@ == sealed.checksum.hex@,
        !(tampered.protocol@ == sealed.protocol@ && intent_obs_eq(tampered.intent, sealed.intent)),
        sealed.intent.inputs@.len() <= u64::MAX,
        tampered.intent.inputs@.len() <= u64::MAX,
        spec_hash_hex(spec_request_seal_bytes(tampered.protocol@, tampered.intent))
            == spec_hash_hex(spec_request_seal_bytes(sealed.protocol@, sealed.intent))
            ==> spec_request_seal_bytes(tampered.protocol@, tampered.intent)
            == spec_request_seal_bytes(sealed.protocol@, sealed.intent),
    ensures
        !request_sealed(tampered),
{
    if request_sealed(tampered) {
        assert(tampered.checksum.hex@ == spec_request_checksum(tampered.protocol@, tampered.intent));
        assert(sealed.checksum.hex@ == spec_request_checksum(sealed.protocol@, sealed.intent));
        assert(spec_hash_hex(spec_request_seal_bytes(tampered.protocol@, tampered.intent))
            == spec_hash_hex(spec_request_seal_bytes(sealed.protocol@, sealed.intent)));
        lemma_seal_bytes_injective(
            tampered.protocol@,
            tampered.intent,
            sealed.protocol@,
            sealed.intent,
        );
    }
}

proof fn lemma_enc_status_framing(a: RunStatus, b: RunStatus, r: Seq<u8>, s: Seq<u8>)
    requires
        enc_status(a) + r == enc_status(b) + s,
    ensures
        a == b,
        r == s,
{
    assert(enc_status(a).len() == 1);
    assert(enc_status(b).len() == 1);
    lemma_tag_framing(enc_status(a), enc_status(b), r, s);
    assert(enc_status(a)[0] == enc_status(b)[0]);
}

/// Two responses are observably equal: every field that enters the
/// canonical bytes coincides.
pub open spec fn response_obs_eq(e1: ResponseEnvelope, e2: ResponseEnvelope) -> bool {
    &&& e1.protocol@ == e2.protocol@
    &&& e1.intent_id@ == e2.intent_id@
    &&& e1.status == e2.status
    &&& e1.message@ == e2.message@
    &&& opt_view(e1.payload_json) == opt_view(e2.payload_json)
    &&& opt_view(e1.logs_json) == opt_view(e2.logs_json)
}

/// Rewrites a response encoding into its right-nested field-by-field shape.
proof fn lemma_response_shape(e: ResponseEnvelope)
    ensures
        spec_response_seal_bytes(e) == enc_str(e.protocol@) + (enc_str(e.intent_id@) + (enc_status(
            e.status,
        ) + (enc_str(e.message@) + (enc_opt_str(opt_view(e.payload_json)) + enc_opt_str(
            opt_view(e.logs_json),
        ))))),
{
    let a = enc_str(e.protocol@);
    let b = enc_str(e.intent_id@);
    let c = enc_status(e.status);
    let d = enc_str(e.message@);
    let f = enc_opt_str(opt_view(e.payload_json));
    let g = enc_opt_str(opt_view(e.logs_json));
    vstd::seq_lib::lemma_concat_associative(a + b + c + d, f, g);
    vstd::seq_lib::lemma_concat_associative(a + b + c, d, f + g);
    vstd::seq_lib::lemma_concat_associative(a + b, c, d + (f + g));
    vstd::seq_lib::lemma_concat_associative(a, b, c + (d + (f + g)));
}

/// The canonical response bytes are injective: two responses share them
/// only when every observable field coincides.
#[verifier::rlimit(100)]
pub proof fn lemma_response_bytes_injective(e1: ResponseEnvelope, e2: ResponseEnvelope)
    requires
        spec_response_seal_bytes(e1) == spec_response_seal_bytes(e2),
    ensures
        response_obs_eq(e1, e2),
{
    lemma_response_shape(e1);
    lemma_response_shape(e2);
    lemma_enc_str_framing(
        e1.protocol@,
        e2.protocol@,
        enc_str(e1.intent_id@) + (enc_status(e1.status) + (enc_str(e1.message@) + (enc_opt_str(
            opt_view(e1.payload_json),
        ) + enc_opt_str(opt_view(e1.logs_json))))),
        enc_str(e2.intent_id@) + (enc_status(e2.status) + (enc_str(e2.message@) + (enc_opt_str(
            opt_view(e2.payload_json),
        ) + enc_opt_str(opt_view(e2.logs_json))))),
    );
    lemma_enc_str_framing(
        e1.intent_id@,
        e2.intent_id@,
        enc_status(e1.status) + (enc_str(e1.message@) + (enc_opt_str(opt_view(e1.payload_json))
            + enc_opt_str(opt_view(e1.logs_json)))),
        enc_status(e2.status) + (enc_str(e2.message@) + (enc_opt_str(opt_view(e2.payload_json))
            + enc_opt_str(opt_view(e2.logs_json)))),
    );
    lemma_enc_status_framing(
        e1.status,
        e2.status,
        enc_str(e1.message@) + (enc_opt_str(opt_view(e1.payload_json)) + enc_opt_str(
            opt_view(e1.logs_json),
        )),
        enc_str(e2.message@) + (enc_opt_str(opt_view(e2.payload_json)) + enc_opt_str(
            opt_view(e2.logs_json),
        )),
    );
    lemma_enc_str_framing(
        e1.message@,
        e2.message@,
        enc_opt_str(opt_view(e1.payload_json)) + enc_opt_str(opt_view(e1.logs_json)),
        enc_opt_str(opt_view(e2.payload_json)) + enc_opt_str(opt_view(e2.logs_json)),
    );
    lemma_enc_opt_str_framing(
        opt_view(e1.payload_json),
        opt_view(e2.payload_json),
        enc_opt_str(opt_view(e1.logs_json)),
        enc_opt_str(opt_view(e2.logs_json)),
    );
    assert(enc_opt_str(opt_view(e1.logs_json)) + Seq::<u8>::empty() =~= enc_opt_str(
        opt_view(e1.logs_json),
    ));
    assert(enc_opt_str(opt_view(e2.logs_json)) + Seq::<u8>::empty() =~= enc_opt_str(
        opt_view(e2.logs_json),
    ));
    lemma_enc_opt_str_framing(
        opt_view(e1.logs_json),
        opt_view(e2.logs_json),
        Seq::<u8>::empty(),
        Seq::<u8>::empty(),
    );
}

/// Tamper detection for responses: mutating any observable field of a
/// sealed response leaves one that no longer verifies — unless the
/// mutation produces a SHA-256 collision on the canonical bytes, which the
/// premise rules out for the pair at hand.
pub proof fn lemma_response_tamper_detected(sealed: ResponseEnvelope, tampered: ResponseEnvelope)
    requires
        response_sealed(sealed),
        tampered.checksum.hex@ == sealed.checksum.hex@,
        !response_obs_eq(tampered, sealed),
        spec_hash_hex(spec_response_seal_bytes(tampered)) == spec_hash_hex(
            spec_response_seal_bytes(sealed),
        ) ==> spec_response_seal_bytes(tampered) == spec_response_seal_bytes(sealed),
    ensures
        !response_sealed(tampered),
{
    if response_sealed(tampered) {
        lemma_response_bytes_injective(tampered, sealed);
    }
}

} // verus!
