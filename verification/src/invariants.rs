//! Declared invariants and their registry.
//!
//! An invariant is pure data: an id, a class, and the domain it guards.
//! The registry is deterministic and explicit; registering the same id twice
//! is a configuration error, reported as a terminal result, never recovered
//! from silently.

use vstd::prelude::*;

verus! {

/// The canonical invariant classes.
#[derive(Debug, Clone, Copy, PartialEq, Eq, Structural)]
pub enum InvariantClass {
    Schema,
    Value,
    Transition,
    Temporal,
    Distribution,
}

/// A declared invariant. It carries no execution logic.
#[derive(Debug, Clone, PartialEq, Eq)]
pub struct InvariantSpec {
    /// Globally unique identifier.
    pub id: String,
    pub class: InvariantClass,
    /// The domain the invariant guards; empty when not scoped.
    pub domain: String,
}

/// Registering an id that is already present is a configuration error.
#[derive(Debug, Clone, PartialEq, Eq)]
pub struct DuplicateInvariantId {
    pub id: String,
}

impl InvariantSpec {
    /// An unscoped invariant declaration.
    pub fn new(id: &str, class: InvariantClass) -> (s: Self)
        ensures
            s.id@ == id@,
            s.class == class,
            s.domain@.len() == 0,
    {
        InvariantSpec { id: id.to_owned(), class, domain: String::new() }
    }
}

/// Some registered invariant carries this id.
pub open spec fn contains_id(rs: Seq<InvariantSpec>, id: Seq<char>) -> bool {
    exists|i: int| 0 <= i < rs.len() && #[trigger] rs[i].id@ == id
}

/// The invariants of a sequence that guard the given domain, in order.
pub open spec fn domain_filter(rs: Seq<InvariantSpec>, domain: Seq<char>) -> Seq<InvariantSpec>
    decreases rs.len(),
{
    if rs.len() == 0 {
        Seq::empty()
    } else if rs[0].domain@ == domain {
        seq![rs[0]] + domain_filter(rs.drop_first(), domain)
    } else {
        domain_filter(rs.drop_first(), domain)
    }
}

pub proof fn lemma_domain_filter_push(rs: Seq<InvariantSpec>, domain: Seq<char>, x: InvariantSpec)
    ensures
        domain_filter(rs.push(x), domain) == if x.domain@ == domain {
            domain_filter(rs, domain).push(x)
        } else {
            domain_filter(rs, domain)
        },
    decreases rs.len(),
{
    if rs.len() == 0 {
        assert(rs.push(x).len() == 1);
        assert(rs.push(x)[0] == x);
        assert(rs.push(x).drop_first() =~= Seq::<InvariantSpec>::empty());
        assert(domain_filter(Seq::<InvariantSpec>::empty(), domain) == Seq::<
            InvariantSpec,
        >::empty());
        assert(domain_filter(rs, domain) == Seq::<InvariantSpec>::empty());
        if x.domain@ == domain {
            assert(domain_filter(rs.push(x), domain) == seq![x] + Seq::<InvariantSpec>::empty());
            assert(domain_filter(rs.push(x), domain) =~= domain_filter(rs, domain).push(x));
        } else {
            assert(domain_filter(rs.push(x), domain) == domain_filter(
                rs.push(x).drop_first(),
                domain,
            ));
        }
    } else {
        assert(rs.push(x)[0] == rs[0]);
        assert(rs.push(x).drop_first() =~= rs.drop_first().push(x));
        lemma_domain_filter_push(rs.drop_first(), domain, x);
        if x.domain@ == domain {
            assert(domain_filter(rs.push(x), domain) =~= domain_filter(rs, domain).push(x));
        }
    }
}

/// The deterministic, in-memory invariant registry.
#[derive(Debug)]
pub struct InvariantRegistry {
    specs: Vec<InvariantSpec>,
}

impl View for InvariantRegistry {
    type V = Seq<InvariantSpec>;

    closed spec fn view(&self) -> Seq<InvariantSpec> {
        self.specs@
    }
}

impl InvariantRegistry {
    /// An empty registry.
    pub fn new() -> (r: Self)
        ensures
            r@ =~= Seq::<InvariantSpec>::empty(),
    {
        InvariantRegistry { specs: Vec::new() }
    }

    /// Registers a new invariant. A duplicate id is a fatal configuration
    /// error: the registry is left untouched and the duplicate is reported.
    pub fn register(&mut self, inv: InvariantSpec) -> (r: Result<(), DuplicateInvariantId>)
        ensures
            contains_id(old(self)@, inv.id@) ==> (r matches Err(e) && e.id@ == inv.id@
                && final(self)@ == old(self)@),
            !contains_id(old(self)@, inv.id@) ==> r is Ok && final(self)@ == old(self)@.push(inv),
    {
        let n = self.specs.len();
        let mut i: usize = 0;
        while i < n
            invariant
                n == self@.len(),
                i <= n,
                forall|j: int| 0 <= j < i ==> #[trigger] self@[j].id@ != inv.id@,
            decreases n - i,
        {
            if crate::codec::string_eq(&self.specs[i].id, &inv.id) {
                return Err(DuplicateInvariantId { id: inv.id });
            }
            i = i + 1;
        }
        self.specs.push(inv);
        Ok(())
    }

    /// Fetches an invariant by id.
    pub fn get(&self, id: &str) -> (r: Option<&InvariantSpec>)
        ensures
            r matches Some(s) ==> s.id@ == id@ && exists|i: int|
                0 <= i < self@.len() && #[trigger] self@[i] == *s,
            r is None <==> !contains_id(self@, id@),
    {
        let owned = id.to_owned();
        let n = self.specs.len();
        let mut i: usize = 0;
        while i < n
            invariant
                n == self@.len(),
                i <= n,
                owned@ == id@,
                forall|j: int| 0 <= j < i ==> #[trigger] self@[j].id@ != id@,
            decreases n - i,
        {
            if crate::codec::string_eq(&self.specs[i].id, &owned) {
                return Some(&self.specs[i]);
            }
            i = i + 1;
        }
        None
    }

    /// All invariants registered for a domain, in registration order.
    pub fn by_domain(&self, domain: &str) -> (r: Vec<&InvariantSpec>)
        ensures
            r@.map_values(|p: &InvariantSpec| *p) == domain_filter(self@, domain@),
    {
        let owned = domain.to_owned();
        let mut out: Vec<&InvariantSpec> = Vec::new();
        let n = self.specs.len();
        let mut i: usize = 0;
        while i < n
            invariant
                n == self@.len(),
                i <= n,
                owned@ == domain@,
                out@.map_values(|p: &InvariantSpec| *p) == domain_filter(
                    self@.subrange(0, i as int),
                    domain@,
                ),
            decreases n - i,
        {
            let ghost prev = out@;
            let hit = crate::codec::string_eq(&self.specs[i].domain, &owned);
            if hit {
                out.push(&self.specs[i]);
                proof {
                    assert(out@.map_values(|p: &InvariantSpec| *p) =~= prev.map_values(
                        |p: &InvariantSpec| *p,
                    ).push(self@[i as int]));
                }
            }
            proof {
                assert(self@.subrange(0, i + 1 as int) =~= self@.subrange(0, i as int).push(
                    self@[i as int],
                ));
                lemma_domain_filter_push(self@.subrange(0, i as int), domain@, self@[i as int]);
            }
            i = i + 1;
        }
        proof {
            assert(self@.subrange(0, n as int) =~= self@);
        }
        out
    }
}

} // verus!
