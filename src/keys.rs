//! Group keys: everything that identifies a measurement but its engine.

use vstd::prelude::*;
use crate::data::{Measurement, Phase};

verus! {

/// The group of a measurement: architecture, benchmark program, phase and
/// event.
pub open spec fn group_of(m: Measurement) -> (Seq<char>, Seq<char>, Phase, Seq<char>) {
    (m.arch@, m.wasm@, m.phase, m.event@)
}

/// A pattern over the group fields of a measurement; an unset field matches
/// anything.
#[derive(Clone, Debug)]
pub struct GroupKey {
    /// The CPU architecture.
    pub arch: Option<String>,
    /// The path of the Wasm benchmark program.
    pub wasm: Option<String>,
    /// The lifecycle phase.
    pub phase: Option<Phase>,
    /// The measured event.
    pub event: Option<String>,
}

/// An unset field, or a field that equals `v`.
pub open spec fn field_admits(f: Option<String>, v: Seq<char>) -> bool {
    match f {
        Some(s) => s@ == v,
        None => true,
    }
}

impl GroupKey {
    /// Every field is set.
    pub open spec fn is_resolved(self) -> bool {
        self.arch is Some && self.wasm is Some && self.phase is Some && self.event is Some
    }

    /// The fields of a resolved key, in the shape of `group_of`.
    pub open spec fn fields(self) -> (Seq<char>, Seq<char>, Phase, Seq<char>) {
        (self.arch->0@, self.wasm->0@, self.phase->0, self.event->0@)
    }

    /// Every set field equals the corresponding field of `m`.
    pub open spec fn admits(self, m: Measurement) -> bool {
        &&& field_admits(self.arch, m.arch@)
        &&& field_admits(self.wasm, m.wasm@)
        &&& (self.phase matches Some(p) ==> p == m.phase)
        &&& field_admits(self.event, m.event@)
    }

    /// The key that matches everything.
    pub fn any() -> (r: GroupKey)
        ensures
            forall|m: Measurement| r.admits(m),
    {
        GroupKey { arch: None, wasm: None, phase: None, event: None }
    }

    /// The resolved key of the group of `m`.
    pub fn of(m: &Measurement) -> (r: GroupKey)
        ensures
            r.is_resolved(),
            r.fields() == group_of(*m),
    {
        GroupKey {
            arch: Some(m.arch.clone()),
            wasm: Some(m.wasm.clone()),
            phase: Some(m.phase),
            event: Some(m.event.clone()),
        }
    }

    /// Does `m` fall under this key?
    pub fn matches(&self, m: &Measurement) -> (r: bool)
        ensures
            r == self.admits(*m),
            self.is_resolved() ==> (r <==> self.fields() == group_of(*m)),
    {
        let phase_ok = match self.phase {
            Some(p) => p == m.phase,
            None => true,
        };
        field_matches(&self.arch, &m.arch) && field_matches(&self.wasm, &m.wasm) && phase_ok
            && field_matches(&self.event, &m.event)
    }
}

fn field_matches(f: &Option<String>, v: &String) -> (r: bool)
    ensures
        r == field_admits(*f, v@),
{
    match f {
        Some(s) => *s == *v,
        None => true,
    }
}

/// The groups of `ms`, one for each measurement.
pub open spec fn group_seq(ms: Seq<Measurement>) -> Seq<(Seq<char>, Seq<char>, Phase, Seq<char>)> {
    ms.map_values(|m: Measurement| group_of(m))
}

/// The fields of each key of `keys`.
pub open spec fn key_seq(keys: Seq<GroupKey>) -> Seq<(Seq<char>, Seq<char>, Phase, Seq<char>)> {
    keys.map_values(|k: GroupKey| k.fields())
}

/// The distinct values of `s`, each at the place where it first occurs.
pub open spec fn dedup<A>(s: Seq<A>) -> Seq<A>
    decreases s.len(),
{
    if s.len() == 0 {
        Seq::empty()
    } else {
        let d = dedup(s.drop_last());
        if d.contains(s.last()) {
            d
        } else {
            d.push(s.last())
        }
    }
}

/// `keys` holds one resolved key for each distinct group among `ms`, and
/// nothing else, in the order in which the groups first occur.
pub open spec fn keys_of_groups(ms: Seq<Measurement>, keys: Seq<GroupKey>) -> bool {
    &&& forall|i: int| 0 <= i < keys.len() ==> (#[trigger] keys[i]).is_resolved()
    &&& key_seq(keys) == dedup(group_seq(ms))
    &&& key_seq(keys).no_duplicates()
    &&& key_seq(keys).to_set() == group_seq(ms).to_set()
}

proof fn lemma_keys_extend(
    prefix: Seq<Measurement>,
    m: Measurement,
    old_keys: Seq<GroupKey>,
    added: GroupKey,
    found: bool,
)
    requires
        keys_of_groups(prefix, old_keys),
        found <==> exists|k: int|
            0 <= k < old_keys.len() && (#[trigger] old_keys[k]).fields() == group_of(m),
        added.is_resolved(),
        added.fields() == group_of(m),
    ensures
        keys_of_groups(prefix.push(m), if found { old_keys } else { old_keys.push(added) }),
{
    broadcast use vstd::seq_lib::group_seq_properties;

    assert(group_seq(prefix.push(m)) =~= group_seq(prefix).push(group_of(m)));
    assert(group_seq(prefix.push(m)).drop_last() =~= group_seq(prefix));
    assert(found <==> key_seq(old_keys).contains(group_of(m))) by {
        if key_seq(old_keys).contains(group_of(m)) {
            let k = choose|k: int| 0 <= k < key_seq(old_keys).len() && key_seq(old_keys)[k] == group_of(m);
            assert(old_keys[k].fields() == group_of(m));
        }
        if found {
            let k = choose|k: int| 0 <= k < old_keys.len() && (#[trigger] old_keys[k]).fields() == group_of(m);
            assert(key_seq(old_keys)[k] == group_of(m));
        }
    }
    group_seq(prefix).lemma_push_to_set_commute(group_of(m));
    if found {
        let k = choose|k: int| 0 <= k < old_keys.len() && (#[trigger] old_keys[k]).fields() == group_of(m);
        assert(key_seq(old_keys)[k] == group_of(m));
        assert(key_seq(old_keys).to_set().contains(group_of(m)));
        assert(key_seq(old_keys).to_set().insert(group_of(m)) =~= key_seq(old_keys).to_set());
    } else {
        let keys = old_keys.push(added);
        assert(key_seq(keys) =~= key_seq(old_keys).push(group_of(m)));
        key_seq(old_keys).lemma_push_to_set_commute(group_of(m));
        assert(!key_seq(old_keys).contains(group_of(m))) by {
            if key_seq(old_keys).contains(group_of(m)) {
                let k = choose|k: int| 0 <= k < key_seq(old_keys).len() && key_seq(old_keys)[k] == group_of(m);
                assert(old_keys[k].fields() == group_of(m));
            }
        }
        assert forall|i: int, j: int| 0 <= i < key_seq(keys).len() && 0 <= j < key_seq(keys).len() && i != j
            implies key_seq(keys)[i] != key_seq(keys)[j] by {
            if i < old_keys.len() && j < old_keys.len() {
                assert(key_seq(keys)[i] == key_seq(old_keys)[i]);
                assert(key_seq(keys)[j] == key_seq(old_keys)[j]);
            } else if i < old_keys.len() {
                assert(key_seq(keys)[i] == key_seq(old_keys)[i]);
            } else {
                assert(key_seq(keys)[j] == key_seq(old_keys)[j]);
            }
        }
        assert forall|i: int| 0 <= i < keys.len() implies (#[trigger] keys[i]).is_resolved() by {
            if i < old_keys.len() {
                assert(keys[i] == old_keys[i]);
            }
        }
    }
}

/// The distinct groups of `ms`, each once, in the order of their first
/// measurement.
pub fn all_groups(ms: &Vec<Measurement>) -> (r: Vec<GroupKey>)
    ensures
        keys_of_groups(ms@, r@),
{
    let mut keys: Vec<GroupKey> = Vec::new();
    let mut j: usize = 0;
    proof {
        assert(key_seq(keys@).to_set() =~= group_seq(ms@.subrange(0, 0)).to_set());
        assert(key_seq(keys@) =~= dedup(group_seq(ms@.subrange(0, 0))));
    }
    while j < ms.len()
        invariant
            j <= ms.len(),
            keys_of_groups(ms@.subrange(0, j as int), keys@),
        decreases ms.len() - j,
    {
        let m = &ms[j];
        let mut found = false;
        let mut i: usize = 0;
        while i < keys.len()
            invariant
                i <= keys.len(),
                forall|k: int| 0 <= k < keys.len() ==> (#[trigger] keys@[k]).is_resolved(),
                found <==> exists|k: int|
                    0 <= k < i && (#[trigger] keys@[k]).fields() == group_of(*m),
            decreases keys.len() - i,
        {
            if keys[i].matches(m) {
                found = true;
            }
            i = i + 1;
        }
        let ghost prefix = ms@.subrange(0, j as int);
        let ghost old_keys = keys@;
        let added = GroupKey::of(m);
        proof {
            assert(ms@.subrange(0, j + 1) == prefix.push(*m));
            lemma_keys_extend(prefix, *m, old_keys, added, found);
        }
        if !found {
            keys.push(added);
        }
        j = j + 1;
    }
    proof {
        assert(ms@.subrange(0, ms@.len() as int) == ms@);
    }
    keys
}

} // verus!
