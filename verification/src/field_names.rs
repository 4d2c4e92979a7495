use vstd::prelude::*;

verus! {

/// The names that `names` holds, as a set.
pub open spec fn name_set(names: Seq<String>) -> Set<Seq<char>> {
    Set::new(|name: Seq<char>| exists|i: int| 0 <= i < names.len() && (#[trigger] names[i])@ == name)
}

/// No name occurs twice in `names`.
pub open spec fn distinct_names(names: Seq<String>) -> bool {
    forall|i: int, j: int|
        0 <= i < j < names.len() ==> (#[trigger] names[i])@ != (#[trigger] names[j])@
}

/// Whether `names` holds `name`.
pub fn contains_name(names: &Vec<String>, name: &String) -> (found: bool)
    ensures
        found == name_set(names@).contains(name@),
{
    let mut i: usize = 0;
    while i < names.len()
        invariant
            i <= names.len(),
            forall|k: int| 0 <= k < i ==> (#[trigger] names@[k])@ != name@,
        decreases names.len() - i,
    {
        if names[i] == *name {
            return true;
        }
        i += 1;
    }
    false
}

/// Adds `name` to `names` unless it is there already.
pub fn insert_name(names: &mut Vec<String>, name: String)
    requires
        distinct_names(old(names)@),
    ensures
        distinct_names(final(names)@),
        name_set(final(names)@) == name_set(old(names)@).insert(name@),
{
    if !contains_name(names, &name) {
        names.push(name);
        assert forall|n: Seq<char>|
            name_set(old(names)@).insert(name@).contains(n) implies name_set(names@).contains(
            n,
        ) by {
            if n == name@ {
                assert(names@[names@.len() - 1]@ == n);
            } else {
                let i = choose|i: int|
                    0 <= i < old(names)@.len() && (#[trigger] old(names)@[i])@ == n;
                assert(names@[i]@ == n);
            }
        }
    }
}

/// Adds each name of `more` to `names` unless it is there already.
pub fn insert_names(names: &mut Vec<String>, more: &Vec<String>)
    requires
        distinct_names(old(names)@),
    ensures
        distinct_names(final(names)@),
        name_set(final(names)@) == name_set(old(names)@).union(name_set(more@)),
{
    let mut i: usize = 0;
    while i < more.len()
        invariant
            i <= more.len(),
            distinct_names(names@),
            name_set(names@) == name_set(old(names)@).union(name_set(more@.take(i as int))),
        decreases more.len() - i,
    {
        insert_name(names, more[i].clone());
        proof {
            let shorter = more@.take(i as int);
            let longer = more@.take(i + 1);
            assert forall|n: Seq<char>|
                name_set(shorter).insert(more@[i as int]@).contains(n) implies name_set(
                longer,
            ).contains(n) by {
                if n == more@[i as int]@ {
                    assert(longer[i as int]@ == n);
                }
            }
        }
        i += 1;
    }
    assert(more@.take(more@.len() as int) =~= more@);
}

} // verus!
