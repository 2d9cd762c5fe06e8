//! Which handler answers for which `jobs.kind`.

use super::JobHandler;
use crate::sorted::{ascending, StringMap};
use crate::text::{cat3, texts};
use crate::time::Duration;
use vstd::prelude::*;

verus! {

/// The handlers one runner drains for. The runner claims only the kinds
/// registered here, and leaves a row of any other kind alone.
///
/// How long a handler's attempts may take is asked once, when it is registered:
/// the lease of a row is written before it is known whose it is, and must outlast
/// what any handler was granted.
#[verifier::reject_recursive_types(H)]
pub struct JobRegistry<H> {
    handlers: StringMap<Registered<H>>,
}

/// A handler, and how long one of its attempts may take.
struct Registered<H> {
    handler: H,
    lease: Option<Duration>,
}

/// What a registry holds of each kind.
#[verifier::reject_recursive_types(H)]
pub struct RegistryModel<H> {
    pub handlers: Map<Seq<char>, H>,
    /// How long an attempt may take.
    pub leases: Map<Seq<char>, Option<Duration>>,
}

impl<H> View for JobRegistry<H> {
    type V = RegistryModel<H>;

    closed spec fn view(&self) -> RegistryModel<H> {
        RegistryModel {
            handlers: self.handlers@.map_values(|entry: Registered<H>| entry.handler),
            leases: self.handlers@.map_values(|entry: Registered<H>| entry.lease),
        }
    }
}

/// Whether a span is the longest that any of the leases asks for; none at all
/// where no lease asks for any.
pub open spec fn longest_of(leases: Map<Seq<char>, Option<Duration>>, longest: Duration) -> bool {
    &&& forall|k: Seq<char>| #[trigger]
        leases.dom().contains(k) ==> asked(leases[k]) <= longest@
    &&& longest@ == 0 || exists|k: Seq<char>| #[trigger]
        leases.dom().contains(k) && asked(leases[k]) == longest@
}

/// What a lease asks for, in nanoseconds.
pub open spec fn asked(lease: Option<Duration>) -> nat {
    match lease {
        Some(d) => d@,
        None => 0,
    }
}

impl<H: JobHandler> JobRegistry<H> {
    /// Every handler stands under its own kind.
    pub open spec fn wf(&self) -> bool {
        forall|k: Seq<char>| #[trigger]
            self@.handlers.dom().contains(k) ==> self@.handlers[k].kind_name() == k
    }

    /// How long an attempt of each kind may take: what its handler answered when
    /// it was registered.
    pub open spec fn leases(&self) -> Map<Seq<char>, Option<Duration>> {
        self@.leases
    }

    /// There is a lease for each handler.
    pub proof fn each_handler_has_a_lease(&self)
        ensures
            self.leases().dom() == self@.handlers.dom(),
    {
        assert(self.leases().dom() =~= self@.handlers.dom());
    }

    pub closed spec fn order(&self) -> Seq<Seq<char>> {
        self.handlers.keys_in_order()
    }

    pub fn new() -> (r: JobRegistry<H>)
        ensures
            r@.handlers == Map::<Seq<char>, H>::empty(),
            r.leases() == Map::<Seq<char>, Option<Duration>>::empty(),
            r.wf(),
    {
        let r = JobRegistry { handlers: StringMap::new() };
        assert(r@.handlers =~= Map::<Seq<char>, H>::empty());
        assert(r.leases() =~= Map::<Seq<char>, Option<Duration>>::empty());
        r
    }

    /// Registers one handler.
    ///
    /// A second handler of one kind is an error rather than a replacement: two
    /// would each claim about half the rows.
    pub fn register(&mut self, handler: H) -> (r: Result<(), String>)
        ensures
            match r {
                Ok(_) => {
                    &&& !old(self)@.handlers.dom().contains(handler.kind_name())
                    &&& final(self)@.handlers == old(self)@.handlers.insert(handler.kind_name(), handler)
                    &&& exists|lease: Option<Duration>| #[trigger]
                        call_ensures(H::lease, (&handler,), lease) && final(self).leases()
                            == old(self).leases().insert(handler.kind_name(), lease)
                },
                Err(e) => {
                    &&& old(self)@.handlers.dom().contains(handler.kind_name())
                    &&& *final(self) == *old(self)
                    &&& e@ == "two job handlers registered for kind `"@ + handler.kind_name()
                        + "`: one kind is served by one handler, or each would claim half the rows"@
                },
            },
            old(self).wf() ==> final(self).wf(),
    {
        let kind = handler.kind();
        if self.handlers.contains_key(kind) {
            return Err(
                cat3(
                    "two job handlers registered for kind `",
                    kind,
                    "`: one kind is served by one handler, or each would claim half the rows",
                ),
            );
        }
        let lease = handler.lease();
        self.handlers.insert(kind.to_owned(), Registered { handler, lease });
        assert(self@.handlers =~= old(self)@.handlers.insert(handler.kind_name(), handler));
        assert(self.leases() =~= old(self).leases().insert(handler.kind_name(), lease));
        Ok(())
    }

    /// The registered kinds, which is exactly what the claim query filters on.
    pub fn kinds(&self) -> (r: Vec<String>)
        ensures
            texts(r@) == self.order(),
            ascending(texts(r@)),
            texts(r@).to_set() == self@.handlers.dom(),
    {
        let r = self.handlers.keys();
        assert(self.handlers@.dom() =~= self@.handlers.dom());
        r
    }

    /// The handler for `kind`, or `None` for one that is not known.
    pub fn get(&self, kind: &str) -> (r: Option<&H>)
        ensures
            match r {
                Some(h) => self@.handlers.dom().contains(kind@) && *h == self@.handlers[kind@],
                None => !self@.handlers.dom().contains(kind@),
            },
    {
        match self.handlers.get(kind) {
            Some(entry) => Some(&entry.handler),
            None => None,
        }
    }

    /// How long an attempt of `kind` may take: what its handler answered when it
    /// was registered.
    pub fn lease(&self, kind: &str) -> (r: Option<Duration>)
        ensures
            r == if self.leases().dom().contains(kind@) {
                self.leases()[kind@]
            } else {
                None
            },
    {
        match self.handlers.get(kind) {
            Some(entry) => entry.lease,
            None => None,
        }
    }

    /// The longest that any handler's attempts may take; no time at all where
    /// none says.
    pub fn longest_lease(&self) -> (r: Duration)
        ensures
            longest_of(self.leases(), r),
    {
        let ghost leases = self.leases();
        proof {
            self.handlers.keys_are_the_domain();
        }
        let n: usize = self.handlers.len();
        let mut longest = Duration::zero();
        let mut i: usize = 0;
        while i < n
            invariant
                i <= n,
                n == self.order().len(),
                leases == self.leases(),
                forall|j: int|
                    0 <= j < i ==> asked(leases[#[trigger] self.order()[j]]) <= longest@,
                longest@ == 0 || exists|k: Seq<char>| #[trigger]
                    leases.dom().contains(k) && asked(leases[k]) == longest@,
            decreases n - i,
        {
            let entry = self.handlers.entry(i);
            let ghost key = self.order()[i as int];
            assert(leases.dom().contains(key) && leases[key] == entry.1.lease);
            if let Some(d) = entry.1.lease {
                longest = longest.max(d);
            }
            i += 1;
        }
        assert forall|k: Seq<char>| #[trigger] leases.dom().contains(k) implies asked(leases[k])
            <= longest@ by {
            assert(self.order().to_set().contains(k));
            let j = choose|j: int| 0 <= j < self.order().len() && self.order()[j] == k;
            assert(asked(leases[self.order()[j]]) <= longest@);
        }
        longest
    }

    pub fn is_empty(&self) -> (r: bool)
        ensures
            r == (self@.handlers.dom() == Set::<Seq<char>>::empty()),
    {
        assert(self.handlers@.dom() =~= self@.handlers.dom());
        self.handlers.is_empty()
    }

    /// Whether a list begins with the handlers of the first `n` kinds.
    pub open spec fn lists(&self, list: Seq<&H>, n: int) -> bool {
        &&& list.len() == n
        &&& n <= self.order().len()
        &&& forall|i: int|
            0 <= i < n ==> self@.handlers.dom().contains(#[trigger] self.order()[i]) && *list[i]
                == self@.handlers[self.order()[i]]
    }

    /// Every registered handler, in the order of their kinds.
    pub fn handlers(&self) -> (r: Vec<&H>)
        ensures
            self.lists(r@, self.order().len() as int),
            self.order().to_set() == self@.handlers.dom(),
    {
        proof {
            self.handlers.keys_are_the_domain();
            assert(self.handlers@.dom() =~= self@.handlers.dom());
        }
        let n: usize = self.handlers.len();
        let mut out: Vec<&H> = Vec::new();
        let mut i: usize = 0;
        while i < n
            invariant
                i <= n,
                n == self.order().len(),
                self.lists(out@, i as int),
            decreases n - i,
        {
            let entry = self.handlers.entry(i);
            out.push(&entry.1.handler);
            i += 1;
        }
        out
    }
}

/// The longest lease is at least as long as each that a handler asks for, and is one of
/// them unless none asks for any time.
pub proof fn the_longest_lease_is_one_of_them(
    leases: Map<Seq<char>, Option<Duration>>,
    longest: Duration,
    kind: Seq<char>,
)
    requires
        longest_of(leases, longest),
    ensures
        leases.dom().contains(kind) && leases[kind] is Some ==> leases[kind]->Some_0@ <= longest@,
        longest@ > 0 ==> exists|k: Seq<char>| #[trigger]
            leases.dom().contains(k) && leases[k] is Some && leases[k]->Some_0@ == longest@,
{
    if longest@ > 0 {
        let k = choose|k: Seq<char>| #[trigger]
            leases.dom().contains(k) && asked(leases[k]) == longest@;
        assert(leases.dom().contains(k) && leases[k] is Some);
    }
}

/// Every handler of a registry stands under its own kind.
pub proof fn a_handler_stands_under_its_kind<H: JobHandler>(registry: JobRegistry<H>, kind: Seq<char>)
    requires
        registry.wf(),
        registry@.handlers.dom().contains(kind),
    ensures
        registry@.handlers[kind].kind_name() == kind,
{
}

/// A list of a registry's handlers holds, for each kind in order, the handler of that
/// kind.
pub proof fn handlers_are_listed_by_kind<H: JobHandler>(
    registry: JobRegistry<H>,
    list: Seq<&H>,
    n: int,
    i: int,
)
    requires
        registry.lists(list, n),
        0 <= i < n,
    ensures
        list.len() == n,
        registry@.handlers.dom().contains(registry.order()[i]),
        *list[i] == registry@.handlers[registry.order()[i]],
{
}

} // verus!
