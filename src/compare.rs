//! Pairing of the two engines of each group.

use vstd::prelude::*;
use crate::data::{identity, Measurement, Phase};
use crate::keys::{all_groups, dedup, group_of, group_seq, key_seq, keys_of_groups, GroupKey};
use crate::order::{identity_less, identity_lt, lemma_identity_lt_irreflexive};

verus! {

/// The measurements of `ms` that belong to group `g`, in order.
pub open spec fn members(ms: Seq<Measurement>, g: (Seq<char>, Seq<char>, Phase, Seq<char>)) -> Seq<
    Measurement,
> {
    ms.filter(|m: Measurement| group_of(m) == g)
}

/// The distinct engine identities present in group `g` of `ms`.
pub open spec fn engines_of(ms: Seq<Measurement>, g: (Seq<char>, Seq<char>, Phase, Seq<char>)) -> Set<
    (Seq<char>, Seq<char>),
> {
    members(ms, g).map_values(|m: Measurement| identity(m)).to_set()
}

/// The counts, in order, of the measurements of group `g` taken with engine
/// identity `id`.
pub open spec fn counts_of(
    ms: Seq<Measurement>,
    g: (Seq<char>, Seq<char>, Phase, Seq<char>),
    id: (Seq<char>, Seq<char>),
) -> Seq<u64> {
    ms.filter(|m: Measurement| group_of(m) == g && identity(m) == id).map_values(
        |m: Measurement| m.count,
    )
}

/// Every group of `ms` holds exactly two engine identities.
pub open spec fn all_pairs(ms: Seq<Measurement>) -> bool {
    forall|g: (Seq<char>, Seq<char>, Phase, Seq<char>)|
        #[trigger] group_seq(ms).to_set().contains(g) ==> engines_of(ms, g).len() == 2
}

/// The two engines of one group and their samples.
#[derive(Clone, Debug)]
pub struct Comparison {
    /// The CPU architecture.
    pub arch: String,
    /// The path of the Wasm benchmark program.
    pub wasm: String,
    /// The lifecycle phase.
    pub phase: Phase,
    /// The measured event.
    pub event: String,
    /// Engine A: the smaller of the two identities in byte order. The order
    /// only makes the result reproducible; neither engine is a baseline.
    pub a_engine: String,
    /// The flags of engine A.
    pub a_flags: String,
    /// Engine B: the larger of the two identities.
    pub b_engine: String,
    /// The flags of engine B.
    pub b_flags: String,
    /// The counts of engine A, in the order of the measurements.
    pub a_counts: Vec<u64>,
    /// The counts of engine B, in the order of the measurements.
    pub b_counts: Vec<u64>,
}

impl Comparison {
    /// The group that this comparison is about.
    pub open spec fn group(self) -> (Seq<char>, Seq<char>, Phase, Seq<char>) {
        (self.arch@, self.wasm@, self.phase, self.event@)
    }

    /// Engine A's identity.
    pub open spec fn a_id(self) -> (Seq<char>, Seq<char>) {
        (self.a_engine@, self.a_flags@)
    }

    /// Engine B's identity.
    pub open spec fn b_id(self) -> (Seq<char>, Seq<char>) {
        (self.b_engine@, self.b_flags@)
    }

    /// This comparison is the pairing of its group among `ms`.
    pub open spec fn pairs(self, ms: Seq<Measurement>) -> bool {
        &&& identity_lt(self.a_id(), self.b_id())
        &&& engines_of(ms, self.group()) == set![self.a_id(), self.b_id()]
        &&& self.a_counts@ == counts_of(ms, self.group(), self.a_id())
        &&& self.b_counts@ == counts_of(ms, self.group(), self.b_id())
    }
}

/// The groups of a sequence of comparisons.
pub open spec fn comparison_groups(cs: Seq<Comparison>) -> Seq<
    (Seq<char>, Seq<char>, Phase, Seq<char>),
> {
    cs.map_values(|c: Comparison| c.group())
}

/// A group whose number of engine identities is not two.
#[derive(Clone, Debug)]
pub struct GroupCardinalityError {
    /// The CPU architecture of the group.
    pub arch: String,
    /// The Wasm benchmark program of the group.
    pub wasm: String,
    /// The phase of the group.
    pub phase: Phase,
    /// The event of the group.
    pub event: String,
    /// How many distinct engine identities the group holds.
    pub engines: usize,
}

impl GroupCardinalityError {
    /// The group that the error is about.
    pub open spec fn group(self) -> (Seq<char>, Seq<char>, Phase, Seq<char>) {
        (self.arch@, self.wasm@, self.phase, self.event@)
    }
}

proof fn lemma_engines_push(
    ms: Seq<Measurement>,
    m: Measurement,
    g: (Seq<char>, Seq<char>, Phase, Seq<char>),
)
    ensures
        engines_of(ms.push(m), g) == if group_of(m) == g {
            engines_of(ms, g).insert(identity(m))
        } else {
            engines_of(ms, g)
        },
{
    broadcast use vstd::seq_lib::group_seq_properties;

    let f = |m: Measurement| identity(m);
    ms.lemma_filter_push(m, |m: Measurement| group_of(m) == g);
    if group_of(m) == g {
        members(ms, g).lemma_push_map_commute(f, m);
        members(ms, g).map_values(f).lemma_push_to_set_commute(identity(m));
    }
}

proof fn lemma_counts_push(
    ms: Seq<Measurement>,
    m: Measurement,
    g: (Seq<char>, Seq<char>, Phase, Seq<char>),
    id: (Seq<char>, Seq<char>),
)
    ensures
        counts_of(ms.push(m), g, id) == if group_of(m) == g && identity(m) == id {
            counts_of(ms, g, id).push(m.count)
        } else {
            counts_of(ms, g, id)
        },
{
    let p = |m: Measurement| group_of(m) == g && identity(m) == id;
    ms.lemma_filter_push(m, p);
    if p(m) {
        ms.filter(p).lemma_push_map_commute(|m: Measurement| m.count, m);
    }
}

/// The identities of the measurements at `idx`.
pub open spec fn identities_at(ms: Seq<Measurement>, idx: Seq<usize>) -> Seq<(Seq<char>, Seq<char>)> {
    idx.map_values(|k: usize| identity(ms[k as int]))
}

/// One measurement for each distinct engine identity in the group of `key`.
fn distinct_engines(ms: &Vec<Measurement>, key: &GroupKey) -> (r: Vec<usize>)
    requires
        key.is_resolved(),
    ensures
        forall|k: int| 0 <= k < r.len() ==> r[k] < ms.len(),
        forall|k: int| 0 <= k < r.len() ==> group_of(ms@[#[trigger] r[k] as int]) == key.fields(),
        identities_at(ms@, r@).no_duplicates(),
        identities_at(ms@, r@).to_set() == engines_of(ms@, key.fields()),
{
    let ghost g = key.fields();
    let mut r: Vec<usize> = Vec::new();
    let mut j: usize = 0;
    proof {
        assert(identities_at(ms@, r@).to_set() =~= engines_of(ms@.subrange(0, 0), g));
    }
    while j < ms.len()
        invariant
            j <= ms.len(),
            g == key.fields(),
            key.is_resolved(),
            forall|k: int| 0 <= k < r.len() ==> r[k] < ms.len(),
            forall|k: int| 0 <= k < r.len() ==> group_of(ms@[#[trigger] r[k] as int]) == g,
            identities_at(ms@, r@).no_duplicates(),
            identities_at(ms@, r@).to_set() == engines_of(ms@.subrange(0, j as int), g),
        decreases ms.len() - j,
    {
        let m = &ms[j];
        proof {
            assert(ms@.subrange(0, j + 1) == ms@.subrange(0, j as int).push(*m));
            lemma_engines_push(ms@.subrange(0, j as int), *m, g);
        }
        if key.matches(m) {
            let mut seen = false;
            let mut i: usize = 0;
            while i < r.len()
                invariant
                    i <= r.len(),
                    forall|k: int| 0 <= k < r.len() ==> r[k] < ms.len(),
                    seen <==> exists|k: int|
                        0 <= k < i && #[trigger] identities_at(ms@, r@)[k] == identity(*m),
                decreases r.len() - i,
            {
                let o = &ms[r[i]];
                assert(identities_at(ms@, r@)[i as int] == identity(*o));
                if o.engine == m.engine && o.engine_flags == m.engine_flags {
                    seen = true;
                }
                i = i + 1;
            }
            let ghost before = identities_at(ms@, r@);
            proof {
                before.lemma_push_to_set_commute(identity(*m));
            }
            if seen {
                proof {
                    let k = choose|k: int| 0 <= k < r.len() && #[trigger] before[k] == identity(*m);
                    assert(before.to_set().contains(identity(*m)));
                    assert(before.to_set().insert(identity(*m)) =~= before.to_set());
                }
            } else {
                r.push(j);
                proof {
                    assert(identities_at(ms@, r@) =~= before.push(identity(*m)));
                    assert(!before.contains(identity(*m)));
                    assert forall|a: int, b: int|
                        0 <= a < r.len() && 0 <= b < r.len() && a != b implies identities_at(
                        ms@,
                        r@,
                    )[a] != identities_at(ms@, r@)[b] by {
                        if a < before.len() && b < before.len() {
                            assert(identities_at(ms@, r@)[a] == before[a]);
                            assert(identities_at(ms@, r@)[b] == before[b]);
                        } else if a < before.len() {
                            assert(identities_at(ms@, r@)[a] == before[a]);
                        } else {
                            assert(identities_at(ms@, r@)[b] == before[b]);
                        }
                    }
                    assert forall|k: int| 0 <= k < r.len() implies group_of(
                        ms@[#[trigger] r[k] as int],
                    ) == g by {
                        if k < r.len() - 1 {
                            assert(r@[k] == r@.subrange(0, r.len() - 1)[k]);
                        }
                    }
                }
            }
        }
        j = j + 1;
    }
    proof {
        assert(ms@.subrange(0, ms.len() as int) == ms@);
    }
    r
}

/// The counts of the measurements of the group of `key` taken with `engine`
/// and `flags`, in order.
fn counts_for(ms: &Vec<Measurement>, key: &GroupKey, engine: &String, flags: &String) -> (r: Vec<
    u64,
>)
    requires
        key.is_resolved(),
    ensures
        r@ == counts_of(ms@, key.fields(), (engine@, flags@)),
{
    let ghost g = key.fields();
    let ghost id = (engine@, flags@);
    let mut r: Vec<u64> = Vec::new();
    let mut j: usize = 0;
    proof {
        assert(r@ =~= counts_of(ms@.subrange(0, 0), g, id));
    }
    while j < ms.len()
        invariant
            j <= ms.len(),
            g == key.fields(),
            id == (engine@, flags@),
            key.is_resolved(),
            r@ == counts_of(ms@.subrange(0, j as int), g, id),
        decreases ms.len() - j,
    {
        let m = &ms[j];
        proof {
            assert(ms@.subrange(0, j + 1) == ms@.subrange(0, j as int).push(*m));
            lemma_counts_push(ms@.subrange(0, j as int), *m, g, id);
        }
        if key.matches(m) && m.engine == *engine && m.engine_flags == *flags {
            r.push(m.count);
        }
        j = j + 1;
    }
    proof {
        assert(ms@.subrange(0, ms.len() as int) == ms@);
    }
    r
}

fn set_text(f: &Option<String>) -> (r: String)
    requires
        f is Some,
    ensures
        r@ == f->0@,
{
    match f {
        Some(s) => s.clone(),
        None => String::new(),
    }
}

fn set_phase(f: &Option<Phase>) -> (r: Phase)
    requires
        f is Some,
    ensures
        r == f->0,
{
    match f {
        Some(p) => *p,
        None => Phase::Execution,
    }
}

/// Pairs the two engines of every group of `ms`.
///
/// The result holds one comparison for each distinct group, in the order of
/// the groups' first measurements. It fails on the first group that does not
/// hold exactly two engine identities.
pub fn compare(ms: &Vec<Measurement>) -> (r: Result<Vec<Comparison>, GroupCardinalityError>)
    ensures
        r is Ok <==> all_pairs(ms@),
        r matches Ok(cs) ==> {
            &&& comparison_groups(cs@) == dedup(group_seq(ms@))
            &&& comparison_groups(cs@).no_duplicates()
            &&& comparison_groups(cs@).to_set() == group_seq(ms@).to_set()
            &&& forall|i: int| 0 <= i < cs.len() ==> (#[trigger] cs[i]).pairs(ms@)
        },
        r matches Err(e) ==> {
            &&& group_seq(ms@).to_set().contains(e.group())
            &&& engines_of(ms@, e.group()).len() == e.engines
            &&& e.engines != 2
        },
{
    let keys = all_groups(ms);
    let mut cs: Vec<Comparison> = Vec::new();
    let mut i: usize = 0;
    while i < keys.len()
        invariant
            i <= keys.len(),
            keys_of_groups(ms@, keys@),
            cs.len() == i,
            forall|k: int| 0 <= k < i ==> (#[trigger] cs[k]).group() == keys[k].fields(),
            forall|k: int| 0 <= k < i ==> (#[trigger] cs[k]).pairs(ms@),
        decreases keys.len() - i,
    {
        let key = &keys[i];
        assert(key.is_resolved());
        let ghost g = key.fields();
        let found = distinct_engines(ms, key);
        let ghost ids = identities_at(ms@, found@);
        proof {
            ids.unique_seq_to_set();
            assert(key_seq(keys@)[i as int] == g);
            assert(group_seq(ms@).to_set().contains(g));
        }
        if found.len() != 2 {
            return Err(GroupCardinalityError {
                arch: set_text(&key.arch),
                wasm: set_text(&key.wasm),
                phase: set_phase(&key.phase),
                event: set_text(&key.event),
                engines: found.len(),
            });
        }
        let x = &ms[found[0]];
        let y = &ms[found[1]];
        proof {
            assert(ids[0] == identity(*x));
            assert(ids[1] == identity(*y));
            assert(ids.to_set() =~= set![identity(*x), identity(*y)]) by {
                assert(ids =~= seq![identity(*x), identity(*y)]);
            }
            assert(ids[0] != ids[1]);
        }
        let (a, b) = if identity_less(
            x.engine.as_str(),
            x.engine_flags.as_str(),
            y.engine.as_str(),
            y.engine_flags.as_str(),
        ) {
            (x, y)
        } else {
            (y, x)
        };
        let a_counts = counts_for(ms, key, &a.engine, &a.engine_flags);
        let b_counts = counts_for(ms, key, &b.engine, &b.engine_flags);
        let c = Comparison {
            arch: x.arch.clone(),
            wasm: x.wasm.clone(),
            phase: x.phase,
            event: x.event.clone(),
            a_engine: a.engine.clone(),
            a_flags: a.engine_flags.clone(),
            b_engine: b.engine.clone(),
            b_flags: b.engine_flags.clone(),
            a_counts,
            b_counts,
        };
        proof {
            assert(set![identity(*x), identity(*y)] =~= set![c.a_id(), c.b_id()]);
        }
        cs.push(c);
        i = i + 1;
    }
    proof {
        assert(comparison_groups(cs@) =~= key_seq(keys@));
        assert forall|g: (Seq<char>, Seq<char>, Phase, Seq<char>)|
            #[trigger] group_seq(ms@).to_set().contains(g) implies engines_of(ms@, g).len() == 2 by {
            assert(key_seq(keys@).to_set().contains(g));
            let k = choose|k: int| 0 <= k < key_seq(keys@).len() && key_seq(keys@)[k] == g;
            assert(cs@[k].pairs(ms@));
            assert(cs@[k].group() == g);
            assert(cs@[k].a_id() != cs@[k].b_id()) by {
                if cs@[k].a_id() == cs@[k].b_id() {
                    lemma_identity_lt_irreflexive(cs@[k].a_id());
                }
            }
        }
    }
    Ok(cs)
}

} // verus!
