//! Pure tag logic: partitioning instances by presence of a tag key, and
//! resolving an instance's display name from its tag set.

use vstd::prelude::*;
use crate::model::{Instance, TagPair};

verus! {

/// The reserved tag key whose value is an instance's display name.
pub open spec fn name_key() -> Seq<char> {
    "Name"@
}

/// Whether some tag in `tags` has key `key`.
pub open spec fn has_tag_key(tags: Seq<TagPair>, key: Seq<char>) -> bool {
    exists|i: int| 0 <= i < tags.len() && tags[i].key@ == key
}

/// The filter predicate: an instance is kept when the presence of `key`
/// in its tag set equals `present`. An instance with no tags at all has
/// the key absent, so it is kept exactly when `present` is false.
pub open spec fn matches_presence(inst: Instance, key: Seq<char>, present: bool) -> bool {
    has_tag_key(inst.tags@, key) == present
}

/// The subsequence of `s` whose presence of `key` equals `present`.
pub open spec fn spec_partition(s: Seq<Instance>, key: Seq<char>, present: bool) -> Seq<Instance> {
    s.filter(|inst: Instance| matches_presence(inst, key, present))
}

/// How `Seq::filter` acts on one appended element.
proof fn lemma_partition_push(s: Seq<Instance>, x: Instance, key: Seq<char>, present: bool)
    ensures
        spec_partition(s.push(x), key, present) == (if matches_presence(x, key, present) {
            spec_partition(s, key, present).push(x)
        } else {
            spec_partition(s, key, present)
        }),
{
    reveal(Seq::filter);
    assert(s.push(x).drop_last() =~= s);
}

proof fn lemma_partition_empty(key: Seq<char>, present: bool)
    ensures
        spec_partition(Seq::<Instance>::empty(), key, present) == Seq::<Instance>::empty(),
{
    reveal(Seq::filter);
}

/// Whether any tag of `inst` carries the key `key`.
pub fn instance_has_tag_key(inst: &Instance, key: &String) -> (r: bool)
    ensures
        r == has_tag_key(inst.tags@, key@),
{
    let mut j: usize = 0;
    while j < inst.tags.len()
        invariant
            j <= inst.tags@.len(),
            forall|t: int| 0 <= t < j ==> inst.tags@[t].key@ != key@,
        decreases inst.tags@.len() - j,
    {
        if inst.tags[j].key == *key {
            assert(has_tag_key(inst.tags@, key@));
            return true;
        }
        j = j + 1;
    }
    false
}

/// Partition the inventory by presence of the target tag key, keeping
/// the side selected by `present`. With `present == false` this is the
/// set of instances still in need of tagging: instances that already
/// carry the key are never re-confirmed or re-mutated in the same run.
pub fn partition_by_tag_presence(instances: Vec<Instance>, tag: &TagPair, present: bool) -> (r: Vec<
    Instance,
>)
    ensures
        r@ == spec_partition(instances@, tag.key@, present),
{
    let ghost orig: Seq<Instance> = instances@;
    let mut rest = instances;
    let mut out: Vec<Instance> = Vec::new();
    let ghost mut done: Seq<Instance> = Seq::empty();
    proof {
        lemma_partition_empty(tag.key@, present);
        assert(orig =~= done + rest@);
    }
    while rest.len() > 0
        invariant
            orig == done + rest@,
            out@ == spec_partition(done, tag.key@, present),
        decreases rest@.len(),
    {
        let x = rest.remove(0);
        let keep = instance_has_tag_key(&x, &tag.key) == present;
        proof {
            lemma_partition_push(done, x, tag.key@, present);
        }
        if keep {
            out.push(x);
        }
        proof {
            done = done.push(x);
            assert(done + rest@ =~= orig);
        }
    }
    proof {
        assert(done =~= orig);
    }
    out
}

/// The two sides of the partition together are exactly the input: every
/// instance lands on exactly one side, none is dropped and none is
/// duplicated, and no instance appears on both sides.
pub proof fn lemma_partition_exhaustive(s: Seq<Instance>, key: Seq<char>)
    ensures
        spec_partition(s, key, true).to_multiset().add(spec_partition(s, key, false).to_multiset())
            == s.to_multiset(),
        spec_partition(s, key, true).len() + spec_partition(s, key, false).len() == s.len(),
        forall|inst: Instance|
            !(spec_partition(s, key, true).contains(inst) && spec_partition(
                s,
                key,
                false,
            ).contains(inst)),
    decreases s.len(),
{
    broadcast use vstd::seq_lib::group_to_multiset_ensures;
    broadcast use vstd::multiset::group_multiset_axioms;

    if s.len() == 0 {
        assert(s =~= Seq::<Instance>::empty());
        lemma_partition_empty(key, true);
        lemma_partition_empty(key, false);
        assert(spec_partition(s, key, true).to_multiset().add(
            spec_partition(s, key, false).to_multiset(),
        ) =~= s.to_multiset());
    } else {
        let t = s.drop_last();
        let x = s.last();
        lemma_partition_exhaustive(t, key);
        lemma_partition_push(t, x, key, true);
        lemma_partition_push(t, x, key, false);
        assert(t.push(x) =~= s);
        let pt = spec_partition(t, key, true);
        let pf = spec_partition(t, key, false);
        if matches_presence(x, key, true) {
            assert(pt.push(x).to_multiset() =~= pt.to_multiset().insert(x));
            assert(pt.push(x).to_multiset().add(pf.to_multiset()) =~= t.to_multiset().insert(x));
        } else {
            assert(pf.push(x).to_multiset() =~= pf.to_multiset().insert(x));
            assert(pt.to_multiset().add(pf.push(x).to_multiset()) =~= t.to_multiset().insert(x));
        }
        assert(s.to_multiset() =~= t.to_multiset().insert(x));
        assert forall|inst: Instance|
            !(spec_partition(s, key, true).contains(inst) && spec_partition(
                s,
                key,
                false,
            ).contains(inst)) by {
            if spec_partition(s, key, true).contains(inst) && spec_partition(
                s,
                key,
                false,
            ).contains(inst) {
                broadcast use vstd::seq_lib::group_filter_ensures;

                let i = choose|i: int|
                    0 <= i < spec_partition(s, key, true).len() && spec_partition(s, key, true)[i]
                        == inst;
                let j = choose|j: int|
                    0 <= j < spec_partition(s, key, false).len() && spec_partition(s, key, false)[j]
                        == inst;
                assert(matches_presence(inst, key, true));
                assert(matches_presence(inst, key, false));
            }
        }
    }
}

/// A sequence every element of which satisfies the filter predicate is
/// unchanged by filtering.
proof fn lemma_partition_of_matching(s: Seq<Instance>, key: Seq<char>, present: bool)
    requires
        forall|i: int| 0 <= i < s.len() ==> matches_presence(#[trigger] s[i], key, present),
    ensures
        spec_partition(s, key, present) == s,
    decreases s.len(),
{
    if s.len() == 0 {
        assert(s =~= Seq::<Instance>::empty());
        lemma_partition_empty(key, present);
    } else {
        let t = s.drop_last();
        let x = s.last();
        assert(forall|i: int| 0 <= i < t.len() ==> matches_presence(#[trigger] t[i], key, present));
        lemma_partition_of_matching(t, key, present);
        lemma_partition_push(t, x, key, present);
        assert(t.push(x) =~= s);
    }
}

/// Filtering is idempotent: applying the partition twice with the same
/// key and flag yields the same subsequence as applying it once.
pub proof fn lemma_partition_idempotent(s: Seq<Instance>, key: Seq<char>, present: bool)
    ensures
        spec_partition(spec_partition(s, key, present), key, present) == spec_partition(
            s,
            key,
            present,
        ),
{
    broadcast use vstd::seq_lib::group_filter_ensures;

    let p = spec_partition(s, key, present);
    assert(forall|i: int| 0 <= i < p.len() ==> matches_presence(#[trigger] p[i], key, present));
    lemma_partition_of_matching(p, key, present);
}

/// The display-name values among `tags`, in tag order.
pub open spec fn name_values(tags: Seq<TagPair>) -> Seq<String>
    decreases tags.len(),
{
    if tags.len() == 0 {
        Seq::empty()
    } else {
        name_values(tags.drop_last()) + (if tags.last().key@ == name_key() {
            seq![tags.last().value]
        } else {
            Seq::<String>::empty()
        })
    }
}

/// The display-name values across the whole inventory, instance order
/// kept.
pub open spec fn all_names(s: Seq<Instance>) -> Seq<String>
    decreases s.len(),
{
    if s.len() == 0 {
        Seq::empty()
    } else {
        all_names(s.drop_last()) + name_values(s.last().tags@)
    }
}

proof fn lemma_name_values_push(tags: Seq<TagPair>, t: TagPair)
    ensures
        name_values(tags.push(t)) == name_values(tags) + (if t.key@ == name_key() {
            seq![t.value]
        } else {
            Seq::<String>::empty()
        }),
{
    assert(tags.push(t).drop_last() =~= tags);
}

proof fn lemma_all_names_push(s: Seq<Instance>, inst: Instance)
    ensures
        all_names(s.push(inst)) == all_names(s) + name_values(inst.tags@),
{
    assert(s.push(inst).drop_last() =~= s);
}

/// Every display-name value found anywhere in the inventory, for the
/// candidate report. An instance without the display-name key
/// contributes nothing; one carrying it more than once contributes
/// each value.
pub fn instance_names(instances: &Vec<Instance>) -> (r: Vec<String>)
    ensures
        r@ == all_names(instances@),
{
    let name = String::from_str("Name");
    proof {
        reveal_strlit("Name");
    }
    let mut out: Vec<String> = Vec::new();
    let mut i: usize = 0;
    while i < instances.len()
        invariant
            i <= instances@.len(),
            name@ == name_key(),
            out@ == all_names(instances@.take(i as int)),
        decreases instances@.len() - i,
    {
        let inst = &instances[i];
        let mut j: usize = 0;
        while j < inst.tags.len()
            invariant
                i < instances@.len(),
                inst == &instances[i as int],
                j <= inst.tags@.len(),
                name@ == name_key(),
                out@ == all_names(instances@.take(i as int)) + name_values(
                    inst.tags@.take(j as int),
                ),
            decreases inst.tags@.len() - j,
        {
            proof {
                lemma_name_values_push(inst.tags@.take(j as int), inst.tags@[j as int]);
                assert(inst.tags@.take(j as int).push(inst.tags@[j as int]) =~= inst.tags@.take(
                    j as int + 1,
                ));
            }
            if inst.tags[j].key == name {
                out.push(inst.tags[j].value.clone());
            }
            j = j + 1;
        }
        proof {
            assert(inst.tags@.take(inst.tags@.len() as int) =~= inst.tags@);
            lemma_all_names_push(instances@.take(i as int), instances@[i as int]);
            assert(instances@.take(i as int).push(instances@[i as int]) =~= instances@.take(
                i as int + 1,
            ));
        }
        i = i + 1;
    }
    proof {
        assert(instances@.take(instances@.len() as int) =~= instances@);
    }
    out
}

/// The value of the first tag whose key is the display-name key, if any.
pub open spec fn first_name(tags: Seq<TagPair>) -> Option<String>
    decreases tags.len(),
{
    if tags.len() == 0 {
        None
    } else if tags[0].key@ == name_key() {
        Some(tags[0].value)
    } else {
        first_name(tags.drop_first())
    }
}

/// Skipping a prefix free of the display-name key does not change the
/// resolved name.
proof fn lemma_first_name_skip(tags: Seq<TagPair>, j: int)
    requires
        0 <= j <= tags.len(),
        forall|t: int| 0 <= t < j ==> tags[t].key@ != name_key(),
    ensures
        first_name(tags) == first_name(tags.skip(j)),
    decreases j,
{
    if j > 0 {
        lemma_first_name_skip(tags, j - 1);
        assert(tags.skip(j - 1).len() > 0);
        assert(tags.skip(j - 1)[0] == tags[j - 1]);
        assert(tags.skip(j - 1).drop_first() =~= tags.skip(j));
    } else {
        assert(tags.skip(0) =~= tags);
    }
}

/// The display name of an instance: the value of its first tag keyed
/// "Name". `None` is the missing-display-name condition; it never
/// aborts a run, the caller falls back to the bare identifier.
pub fn display_name(inst: &Instance) -> (r: Option<String>)
    ensures
        r == first_name(inst.tags@),
{
    let name = String::from_str("Name");
    proof {
        reveal_strlit("Name");
    }
    let mut j: usize = 0;
    while j < inst.tags.len()
        invariant
            j <= inst.tags@.len(),
            name@ == name_key(),
            forall|t: int| 0 <= t < j ==> inst.tags@[t].key@ != name_key(),
        decreases inst.tags@.len() - j,
    {
        if inst.tags[j].key == name {
            let v = inst.tags[j].value.clone();
            proof {
                lemma_first_name_skip(inst.tags@, j as int);
                assert(inst.tags@.skip(j as int)[0] == inst.tags@[j as int]);
            }
            return Some(v);
        }
        j = j + 1;
    }
    proof {
        lemma_first_name_skip(inst.tags@, inst.tags@.len() as int);
        assert(inst.tags@.skip(inst.tags@.len() as int).len() == 0);
    }
    None
}

/// The label an instance is shown under: its display name where one
/// exists, its raw identifier otherwise.
pub open spec fn spec_label(inst: Instance) -> String {
    match first_name(inst.tags@) {
        Some(n) => n,
        None => inst.instance_id,
    }
}

/// The label shown to the operator, falling back to the identifier
/// when the display name is missing rather than aborting.
pub fn display_label(inst: &Instance) -> (r: String)
    ensures
        r == spec_label(*inst),
{
    match display_name(inst) {
        Some(n) => n,
        None => inst.instance_id.clone(),
    }
}

} // verus!
