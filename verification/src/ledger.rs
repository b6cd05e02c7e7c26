//! The drift ledger: an ordered, chained record of detected violations.
//!
//! Every recorded event chains to its predecessor through the predecessor's
//! `after` fingerprint, so reordering or dropping events is detectable.

use vstd::prelude::*;

verus! {

use crate::envelope::opt_view;

/// A detected mismatch between expected and observed state fingerprints.
#[derive(Debug, Clone, PartialEq, Eq)]
pub struct DriftEvent {
    pub domain: String,
    pub invariant_id: String,
    pub class: String,
    pub before_hash: String,
    pub after_hash: String,
    /// The predecessor event's `after_hash`; `None` for the first event.
    pub prev_event_hash: Option<String>,
}

/// The observable content of a drift event.
pub open spec fn drift_view(e: DriftEvent) -> (
    Seq<char>,
    Seq<char>,
    Seq<char>,
    Seq<char>,
    Seq<char>,
    Option<Seq<char>>,
) {
    (
        e.domain@,
        e.invariant_id@,
        e.class@,
        e.before_hash@,
        e.after_hash@,
        opt_view(e.prev_event_hash),
    )
}

/// The in-memory drift ledger.
#[derive(Debug, Default)]
pub struct DriftLedger {
    pub events: Vec<DriftEvent>,
}

impl DriftLedger {
    /// An empty ledger.
    pub fn new() -> (l: Self)
        ensures
            l.events@ =~= Seq::<DriftEvent>::empty(),
    {
        DriftLedger { events: Vec::new() }
    }

    /// Records one drift event, chained to the previous event's `after`
    /// fingerprint, and returns a copy of it. Prior events are never
    /// rewritten.
    pub fn record(
        &mut self,
        domain: &str,
        invariant_id: &str,
        class: &str,
        before_hash: &str,
        after_hash: &str,
    ) -> (ev: DriftEvent)
        ensures
            final(self).events@.len() == old(self).events@.len() + 1,
            forall|i: int|
                0 <= i < old(self).events@.len() ==> final(self).events@[i] == old(
                    self,
                ).events@[i],
            drift_view(final(self).events@.last()) == drift_view(ev),
            ev.domain@ == domain@,
            ev.invariant_id@ == invariant_id@,
            ev.class@ == class@,
            ev.before_hash@ == before_hash@,
            ev.after_hash@ == after_hash@,
            old(self).events@.len() == 0 ==> ev.prev_event_hash is None,
            old(self).events@.len() > 0 ==> (ev.prev_event_hash matches Some(p) && p@ == old(
                self,
            ).events@.last().after_hash@),
    {
        let prev_event_hash: Option<String> = if self.events.len() == 0 {
            None
        } else {
            Some(self.events[self.events.len() - 1].after_hash.clone())
        };
        let stored = DriftEvent {
            domain: domain.to_owned(),
            invariant_id: invariant_id.to_owned(),
            class: class.to_owned(),
            before_hash: before_hash.to_owned(),
            after_hash: after_hash.to_owned(),
            prev_event_hash: match &prev_event_hash {
                None => None,
                Some(p) => Some(p.clone()),
            },
        };
        let returned = DriftEvent {
            domain: domain.to_owned(),
            invariant_id: invariant_id.to_owned(),
            class: class.to_owned(),
            before_hash: before_hash.to_owned(),
            after_hash: after_hash.to_owned(),
            prev_event_hash,
        };
        self.events.push(stored);
        returned
    }
}

} // verus!
