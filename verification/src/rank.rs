//! Encoder ranking.
//!
//! The sink enumerates encoders once, and considers only those of marginal rank or above. The
//! hardware encoders register below that, so without intervention the sink never sees them and
//! silently picks a software encoder.
//!
//! The ordering is the whole point: because the enumeration happens once, raising a rank after
//! the first sink was made has no effect at all.

use vstd::prelude::*;

use crate::text::{same_text, texts};

verus! {

/// The lowest rank that the sink considers.
pub const MARGINAL: i32 = 64;

/// The highest rank that a software encoder has.
pub const PRIMARY: i32 = 256;

/// The elements promoted so that the sink's one enumeration can see them, the preferred first.
pub const HARDWARE_ENCODERS: [&'static str; 2] = ["vah264enc", "vah265enc"];

/// An element factory, with the rank that it is registered at.
#[derive(Debug, PartialEq, Eq)]
pub struct Factory {
    pub name: String,
    pub rank: i32,
}

/// The factories that are registered, as far as they are of interest here.
#[derive(Debug, PartialEq, Eq)]
pub struct Registry {
    pub factories: Vec<Factory>,
}

impl View for Registry {
    type V = Seq<(Seq<char>, i32)>;

    open spec fn view(&self) -> Seq<(Seq<char>, i32)> {
        self.factories@.map_values(|f: Factory| (f.name@, f.rank))
    }
}

/// The position of the first factory of that name.
pub open spec fn find(factories: Seq<(Seq<char>, i32)>, name: Seq<char>) -> Option<int>
    decreases factories.len(),
{
    if factories.len() == 0 {
        None
    } else {
        match find(factories.drop_last(), name) {
            Some(i) => Some(i),
            None => if factories.last().0 == name {
                Some(factories.len() - 1)
            } else {
                None
            },
        }
    }
}

/// The rank of the factory of that name.
pub open spec fn rank_of(factories: Seq<(Seq<char>, i32)>, name: Seq<char>) -> Option<i32> {
    match find(factories, name) {
        Some(i) => Some(factories[i].1),
        None => None,
    }
}

/// The factories with the one of that name set to `rank`, if there is one.
pub open spec fn with_rank(factories: Seq<(Seq<char>, i32)>, name: Seq<char>, rank: i32) -> Seq<
    (Seq<char>, i32),
> {
    match find(factories, name) {
        Some(i) => factories.update(i, (factories[i].0, rank)),
        None => factories,
    }
}

/// The rank above every software encoder, so that the pick is won and not only the floor cleared.
pub open spec fn promoted_rank() -> i32 {
    (PRIMARY + 1) as i32
}

/// The factories once the first `n` hardware encoders were promoted.
pub open spec fn promoted(factories: Seq<(Seq<char>, i32)>, n: nat) -> Seq<(Seq<char>, i32)>
    decreases n,
{
    if n == 0 {
        factories
    } else {
        with_rank(
            promoted(factories, (n - 1) as nat),
            HARDWARE_ENCODERS@[n - 1]@,
            promoted_rank(),
        )
    }
}

/// Which of the first `n` hardware encoders are registered, in order.
pub open spec fn available(factories: Seq<(Seq<char>, i32)>, n: nat) -> Seq<Seq<char>>
    decreases n,
{
    if n == 0 {
        Seq::empty()
    } else {
        let name = HARDWARE_ENCODERS@[n - 1]@;
        let before = available(factories, (n - 1) as nat);
        if find(factories, name) is Some {
            before.push(name)
        } else {
            before
        }
    }
}

/// No hardware encoder clears the sink's floor.
pub open spec fn pending(factories: Seq<(Seq<char>, i32)>) -> bool {
    forall|k: int|
        0 <= k < HARDWARE_ENCODERS@.len() ==> match rank_of(
            factories,
            (#[trigger] HARDWARE_ENCODERS@[k])@,
        ) {
            Some(rank) => rank < MARGINAL,
            None => true,
        }
}

proof fn lemma_find(factories: Seq<(Seq<char>, i32)>, name: Seq<char>)
    ensures
        match find(factories, name) {
            Some(i) => 0 <= i < factories.len() && factories[i].0 == name && forall|j: int|
                0 <= j < i ==> (#[trigger] factories[j]).0 != name,
            None => forall|j: int| 0 <= j < factories.len() ==> (#[trigger] factories[j]).0 != name,
        },
    decreases factories.len(),
{
    if factories.len() > 0 {
        lemma_find(factories.drop_last(), name);
        assert(forall|j: int|
            0 <= j < factories.len() - 1 ==> factories.drop_last()[j] == #[trigger] factories[j]);
    }
}

impl Registry {
    /// The position of the first factory of that name.
    pub fn find(&self, name: &str) -> (r: Option<usize>)
        ensures
            (match r {
                Some(i) => Some(i as int),
                None => None,
            }) == find(self@, name@),
            r matches Some(i) ==> i < self.factories@.len(),
    {
        let mut i: usize = 0;
        while i < self.factories.len()
            invariant
                i <= self.factories.len(),
                forall|j: int| 0 <= j < i ==> (#[trigger] self@[j]).0 != name@,
            decreases self.factories.len() - i,
        {
            assert(self@[i as int].0 == self.factories@[i as int].name@);
            if same_text(self.factories[i].name.as_str(), name) {
                proof {
                    lemma_find(self@, name@);
                }
                return Some(i);
            }
            i = i + 1;
        }
        proof {
            lemma_find(self@, name@);
        }
        None
    }

    /// Gives the factory of that name that rank, and says whether there is one.
    pub fn set_rank(&mut self, name: &str, rank: i32) -> (r: bool)
        ensures
            r == (find(old(self)@, name@) is Some),
            final(self)@ == with_rank(old(self)@, name@, rank),
    {
        match self.find(name) {
            Some(i) => {
                let factory = Factory { name: self.factories[i].name.clone(), rank };
                self.factories.set(i, factory);
                assert(self@ =~= with_rank(old(self)@, name@, rank));
                true
            },
            None => false,
        }
    }

    /// The rank of the factory of that name.
    pub fn rank(&self, name: &str) -> (r: Option<i32>)
        ensures
            r == rank_of(self@, name@),
    {
        match self.find(name) {
            Some(i) => Some(self.factories[i].rank),
            None => None,
        }
    }
}

/// Raises every available hardware encoder above the sink's floor, and above every software
/// encoder.
///
/// Returns the elements actually promoted. A missing one is no error: a host without hardware
/// encoders is expected to fall through to software.
pub fn raise_hardware_encoders(registry: &mut Registry) -> (r: Vec<String>)
    ensures
        texts(r@) == available(old(registry)@, HARDWARE_ENCODERS@.len()),
        final(registry)@ == promoted(old(registry)@, HARDWARE_ENCODERS@.len()),
{
    let mut raised: Vec<String> = Vec::new();
    let mut k: usize = 0;
    assert(texts(raised@) =~= Seq::empty());
    while k < HARDWARE_ENCODERS.len()
        invariant
            k <= HARDWARE_ENCODERS@.len(),
            texts(raised@) == available(old(registry)@, k as nat),
            registry@ == promoted(old(registry)@, k as nat),
        decreases HARDWARE_ENCODERS@.len() - k,
    {
        let name = HARDWARE_ENCODERS[k];
        proof {
            lemma_promotion_keeps_names(old(registry)@, k as nat);
        }
        let ghost before = raised@;
        if registry.set_rank(name, PRIMARY + 1) {
            raised.push(name.to_owned());
            assert(texts(raised@) =~= texts(before).push(name@));
        }
        k = k + 1;
    }
    raised
}

proof fn lemma_with_rank_keeps_names(
    factories: Seq<(Seq<char>, i32)>,
    name: Seq<char>,
    rank: i32,
    other: Seq<char>,
)
    ensures
        find(with_rank(factories, name, rank), other) == find(factories, other),
        with_rank(factories, name, rank).len() == factories.len(),
        rank_of(with_rank(factories, name, rank), other) == if other == name && find(
            factories,
            name,
        ) is Some {
            Some(rank)
        } else {
            rank_of(factories, other)
        },
{
    let after = with_rank(factories, name, rank);
    lemma_find(factories, name);
    lemma_find(factories, other);
    lemma_find(after, other);
    assert(forall|j: int| 0 <= j < factories.len() ==> (#[trigger] after[j]).0 == factories[j].0);
    if let Some(i) = find(factories, other) {
        assert(after[i].0 == other);
    }
    if let Some(i) = find(after, other) {
        assert(factories[i].0 == other);
    }
}

proof fn lemma_promotion_keeps_names(factories: Seq<(Seq<char>, i32)>, n: nat)
    ensures
        promoted(factories, n).len() == factories.len(),
        forall|name: Seq<char>| #[trigger]
            find(promoted(factories, n), name) == find(factories, name),
    decreases n,
{
    if n > 0 {
        let before = promoted(factories, (n - 1) as nat);
        lemma_promotion_keeps_names(factories, (n - 1) as nat);
        assert forall|name: Seq<char>| #[trigger]
            find(promoted(factories, n), name) == find(factories, name) by {
            lemma_with_rank_keeps_names(
                before,
                HARDWARE_ENCODERS@[n - 1]@,
                promoted_rank(),
                name,
            );
        }
        lemma_with_rank_keeps_names(
            before,
            HARDWARE_ENCODERS@[n - 1]@,
            promoted_rank(),
            Seq::empty(),
        );
    }
}

/// True while no hardware encoder has been promoted yet.
///
/// A caller can use this to fail loudly rather than to stream on the CPU by accident.
pub fn ranking_is_still_pending(registry: &Registry) -> (r: bool)
    ensures
        r == pending(registry@),
{
    let mut k: usize = 0;
    while k < HARDWARE_ENCODERS.len()
        invariant
            k <= HARDWARE_ENCODERS@.len(),
            forall|j: int|
                0 <= j < k ==> match rank_of(registry@, (#[trigger] HARDWARE_ENCODERS@[j])@) {
                    Some(rank) => rank < MARGINAL,
                    None => true,
                },
        decreases HARDWARE_ENCODERS@.len() - k,
    {
        let name = HARDWARE_ENCODERS[k];
        if let Some(rank) = registry.rank(name) {
            if rank >= MARGINAL {
                return false;
            }
        }
        k = k + 1;
    }
    true
}

/// Whether this host has a hardware H.264 encoder at all.
pub fn has_hardware_h264(registry: &Registry) -> (r: bool)
    ensures
        r == (find(registry@, "vah264enc"@) is Some),
{
    registry.find("vah264enc").is_some()
}

/// After the promotion every hardware encoder of the host outranks all software encoders, and no
/// other factory has changed its rank.
pub proof fn law_promotion_lifts_hardware_and_nothing_else(
    factories: Seq<(Seq<char>, i32)>,
    name: Seq<char>,
)
    ensures
        ({
            let after = promoted(factories, HARDWARE_ENCODERS@.len());
            let hardware = exists|k: int|
                0 <= k < HARDWARE_ENCODERS@.len() && (#[trigger] HARDWARE_ENCODERS@[k])@ == name;
            if hardware && find(factories, name) is Some {
                rank_of(after, name) == Some(promoted_rank()) && promoted_rank() > PRIMARY
            } else {
                rank_of(after, name) == rank_of(factories, name)
            }
        }),
{
    lemma_rank_after(factories, HARDWARE_ENCODERS@.len(), name);
}

proof fn lemma_rank_after(factories: Seq<(Seq<char>, i32)>, n: nat, name: Seq<char>)
    requires
        n <= HARDWARE_ENCODERS@.len(),
    ensures
        rank_of(promoted(factories, n), name) == if (exists|k: int|
            0 <= k < n && (#[trigger] HARDWARE_ENCODERS@[k])@ == name) && find(
            factories,
            name,
        ) is Some {
            Some(promoted_rank())
        } else {
            rank_of(factories, name)
        },
    decreases n,
{
    if n > 0 {
        let before = promoted(factories, (n - 1) as nat);
        lemma_rank_after(factories, (n - 1) as nat, name);
        lemma_promotion_keeps_names(factories, (n - 1) as nat);
        lemma_with_rank_keeps_names(before, HARDWARE_ENCODERS@[n - 1]@, promoted_rank(), name);
        assert(HARDWARE_ENCODERS@[n - 1]@ == name ==> find(before, name) == find(factories, name));
    }
}

/// The promotion is pending afterwards only on a host that has no hardware encoder: what was there
/// clears the sink's floor.
pub proof fn law_nothing_is_pending_after_promotion(factories: Seq<(Seq<char>, i32)>)
    ensures
        pending(promoted(factories, HARDWARE_ENCODERS@.len())) <==> available(
            factories,
            HARDWARE_ENCODERS@.len(),
        ).len() == 0,
{
    let n = HARDWARE_ENCODERS@.len();
    let after = promoted(factories, n);
    law_promotion_lifts_hardware_and_nothing_else(factories, HARDWARE_ENCODERS@[0]@);
    law_promotion_lifts_hardware_and_nothing_else(factories, HARDWARE_ENCODERS@[1]@);
    reveal_with_fuel(available, 3);
    assert(n == 2);
    if pending(after) {
        assert(rank_of(after, HARDWARE_ENCODERS@[0]@) matches Some(rank) ==> rank < MARGINAL);
        assert(rank_of(after, HARDWARE_ENCODERS@[1]@) matches Some(rank) ==> rank < MARGINAL);
    } else {
        let k = choose|k: int|
            0 <= k < n && !(match rank_of(after, (#[trigger] HARDWARE_ENCODERS@[k])@) {
                Some(rank) => rank < MARGINAL,
                None => true,
            });
        assert(k == 0 || k == 1);
    }
}

/// Promoting twice is the same as promoting once.
pub proof fn law_promotion_is_idempotent(factories: Seq<(Seq<char>, i32)>)
    ensures
        promoted(promoted(factories, HARDWARE_ENCODERS@.len()), HARDWARE_ENCODERS@.len())
            == promoted(factories, HARDWARE_ENCODERS@.len()),
{
    lemma_promoted_already(factories, HARDWARE_ENCODERS@.len());
}

proof fn lemma_promoted_already(factories: Seq<(Seq<char>, i32)>, n: nat)
    requires
        n <= HARDWARE_ENCODERS@.len(),
    ensures
        promoted(promoted(factories, HARDWARE_ENCODERS@.len()), n) == promoted(
            factories,
            HARDWARE_ENCODERS@.len(),
        ),
    decreases n,
{
    if n > 0 {
        let once = promoted(factories, HARDWARE_ENCODERS@.len());
        let name = HARDWARE_ENCODERS@[n - 1]@;
        lemma_promoted_already(factories, (n - 1) as nat);
        law_promotion_lifts_hardware_and_nothing_else(factories, name);
        lemma_promotion_keeps_names(factories, HARDWARE_ENCODERS@.len());
        lemma_find(once, name);
        assert(with_rank(once, name, promoted_rank()) =~= once);
    }
}

/// A registry in which the hardware encoders were promoted.
///
/// A run is only ever planned for a host in this state, since the sink's one enumeration must come
/// after the promotion.
#[derive(Debug)]
pub struct PromotedRegistry {
    registry: Registry,
    raised: Vec<String>,
}

impl PromotedRegistry {
    #[verifier::type_invariant]
    closed spec fn every_encoder_is_promoted(self) -> bool {
        &&& self.registry@ == promoted(self.registry@, HARDWARE_ENCODERS@.len())
        &&& texts(self.raised@) == available(self.registry@, HARDWARE_ENCODERS@.len())
    }

    pub closed spec fn factories(&self) -> Seq<(Seq<char>, i32)> {
        self.registry@
    }

    /// Promotes the hardware encoders of a registry.
    pub fn new(registry: Registry) -> (r: PromotedRegistry)
        ensures
            r.factories() == promoted(registry@, HARDWARE_ENCODERS@.len()),
    {
        let mut registry = registry;
        let ghost before = registry@;
        let raised = raise_hardware_encoders(&mut registry);
        proof {
            law_promotion_is_idempotent(before);
            lemma_same_available(before, HARDWARE_ENCODERS@.len());
        }
        PromotedRegistry { registry, raised }
    }

    pub fn registry(&self) -> (r: &Registry)
        ensures
            r@ == self.factories(),
            pending(r@) <==> available(r@, HARDWARE_ENCODERS@.len()).len() == 0,
    {
        proof {
            use_type_invariant(self);
            law_nothing_is_pending_after_promotion(self.registry@);
        }
        &self.registry
    }

    /// The elements that were promoted.
    pub fn raised(&self) -> (r: &Vec<String>)
        ensures
            texts(r@) == available(self.factories(), HARDWARE_ENCODERS@.len()),
    {
        proof {
            use_type_invariant(self);
        }
        &self.raised
    }
}

proof fn lemma_same_available(factories: Seq<(Seq<char>, i32)>, n: nat)
    ensures
        available(promoted(factories, HARDWARE_ENCODERS@.len()), n) == available(factories, n),
    decreases n,
{
    if n > 0 {
        lemma_same_available(factories, (n - 1) as nat);
        lemma_promotion_keeps_names(factories, HARDWARE_ENCODERS@.len());
    }
}

/// A factory is found by its name: the first of that name, and none where there is none; its rank is
/// the rank at that place.
pub proof fn law_a_factory_is_found_by_its_name(factories: Seq<(Seq<char>, i32)>, name: Seq<char>)
    ensures
        match find(factories, name) {
            Some(i) => 0 <= i < factories.len() && factories[i].0 == name && (forall|j: int|
                0 <= j < i ==> (#[trigger] factories[j]).0 != name) && rank_of(factories, name)
                == Some(factories[i].1),
            None => (forall|j: int|
                0 <= j < factories.len() ==> (#[trigger] factories[j]).0 != name) && rank_of(
                factories,
                name,
            ) is None,
        },
{
    lemma_find(factories, name);
}

/// The hardware encoders, and the ranks that matter: the promotion lands one above primary.
pub proof fn law_the_encoders_and_ranks()
    ensures
        HARDWARE_ENCODERS@.len() == 2,
        HARDWARE_ENCODERS@[0]@ == "vah264enc"@,
        HARDWARE_ENCODERS@[1]@ == "vah265enc"@,
        MARGINAL == 64,
        PRIMARY == 256,
        promoted_rank() == 257,
{
}

/// What the promotion does to each factory: the two hardware encoders, where they are found, get the
/// one rank; names, order and all other ranks stay.
pub proof fn law_promotion_touches_two_factories(factories: Seq<(Seq<char>, i32)>, i: int)
    requires
        0 <= i < factories.len(),
    ensures
        promoted(factories, 2).len() == factories.len(),
        promoted(factories, 2)[i].0 == factories[i].0,
        promoted(factories, 2)[i].1 == if find(factories, "vah264enc"@) == Some(i) || find(
            factories,
            "vah265enc"@,
        ) == Some(i) {
            257
        } else {
            factories[i].1
        },
{
    reveal_with_fuel(promoted, 3);
    let once = promoted(factories, 1);
    assert(once == with_rank(factories, "vah264enc"@, 257));
    assert(promoted(factories, 2) == with_rank(once, "vah265enc"@, 257));
    lemma_promotion_keeps_names(factories, 1);
    lemma_find(factories, "vah264enc"@);
    lemma_find(factories, "vah265enc"@);
    assert(find(once, "vah265enc"@) == find(factories, "vah265enc"@));
}

/// Which encoders are available: each hardware encoder that is found, the preferred first.
pub proof fn law_available_is_what_is_found(factories: Seq<(Seq<char>, i32)>)
    ensures
        ({
            let first = find(factories, "vah264enc"@) is Some;
            let second = find(factories, "vah265enc"@) is Some;
            available(factories, 2) == if first && second {
                seq!["vah264enc"@, "vah265enc"@]
            } else if first {
                seq!["vah264enc"@]
            } else if second {
                seq!["vah265enc"@]
            } else {
                Seq::empty()
            }
        }),
{
    reveal_with_fuel(available, 3);
    assert(available(factories, 0) =~= Seq::empty());
    assert(find(factories, "vah264enc"@) is Some ==> available(factories, 1) =~= seq![
        "vah264enc"@,
    ]);
    assert(find(factories, "vah264enc"@) is None ==> available(factories, 1) =~= Seq::empty());
    assert(seq!["vah264enc"@].push("vah265enc"@) =~= seq!["vah264enc"@, "vah265enc"@]);
    assert(Seq::<Seq<char>>::empty().push("vah265enc"@) =~= seq!["vah265enc"@]);
}

/// The promotion is pending exactly while each hardware encoder is missing or ranks below the floor.
pub proof fn law_pending_means_below_the_floor(factories: Seq<(Seq<char>, i32)>)
    ensures
        pending(factories) <==> {
            &&& rank_of(factories, "vah264enc"@) matches Some(rank) ==> rank < 64
            &&& rank_of(factories, "vah265enc"@) matches Some(rank) ==> rank < 64
        },
{
    if pending(factories) {
        assert(rank_of(factories, HARDWARE_ENCODERS@[0]@) matches Some(rank) ==> rank < MARGINAL);
        assert(rank_of(factories, HARDWARE_ENCODERS@[1]@) matches Some(rank) ==> rank < MARGINAL);
    } else {
        let k = choose|k: int|
            0 <= k < HARDWARE_ENCODERS@.len() && !(match rank_of(
                factories,
                (#[trigger] HARDWARE_ENCODERS@[k])@,
            ) {
                Some(rank) => rank < MARGINAL,
                None => true,
            });
        assert(k == 0 || k == 1);
    }
}

/// A registry stands for the names and ranks of its factories, in order.
pub proof fn law_a_registry_stands_for_its_factories(registry: Registry)
    ensures
        registry@.len() == registry.factories@.len(),
        forall|i: int|
            0 <= i < registry.factories@.len() ==> #[trigger] registry@[i] == (
                registry.factories@[i].name@,
                registry.factories@[i].rank,
            ),
{
}

}
