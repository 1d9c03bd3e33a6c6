use vstd::prelude::*;

verus! {

/// The index of the first entry of `names` equal to `name`, or `None` if there is none.
pub open spec fn first_index_of<T>(names: Seq<T>, name: T) -> Option<int>
    decreases names.len(),
{
    if names.len() == 0 {
        None
    } else if names[0] == name {
        Some(0)
    } else {
        match first_index_of(names.drop_first(), name) {
            Some(i) => Some(i + 1),
            None => None,
        }
    }
}

/// No two entries of `names` are equal.
pub open spec fn names_distinct<T>(names: Seq<T>) -> bool {
    forall|i: int, j: int| 0 <= i < names.len() && 0 <= j < names.len() && i != j ==> names[i] != names[j]
}

/// `first_index_of` is the first index holding `name`.
pub proof fn lemma_first_index_of<T>(names: Seq<T>, name: T, i: int)
    requires
        0 <= i <= names.len(),
        forall|j: int| 0 <= j < i ==> names[j] != name,
    ensures
        i < names.len() && names[i] == name ==> first_index_of(names, name) == Some(i),
        i == names.len() ==> first_index_of(names, name) is None,
    decreases i,
{
    if names.len() > 0 && i > 0 {
        lemma_first_index_of(names.drop_first(), name, i - 1);
    }
}

/// The result of `first_index_of` is an index holding `name` with no earlier one; if it is
/// `None`, no entry holds `name`.
pub proof fn lemma_first_index_of_spec<T>(names: Seq<T>, name: T)
    ensures
        first_index_of(names, name) matches Some(i) ==> 0 <= i < names.len() && names[i] == name
            && forall|j: int| 0 <= j < i ==> names[j] != name,
        first_index_of(names, name) is None <==> !names.contains(name),
    decreases names.len(),
{
    if names.len() > 0 {
        lemma_first_index_of_spec(names.drop_first(), name);
        if names[0] != name {
            if first_index_of(names, name) is None {
                assert forall|k: int| 0 <= k < names.len() implies names[k] != name by {
                    if k > 0 {
                        assert(names.drop_first()[k - 1] == names[k]);
                    }
                }
            } else {
                let i = first_index_of(names, name)->0;
                assert forall|j: int| 0 <= j < i implies names[j] != name by {
                    if j > 0 {
                        assert(names.drop_first()[j - 1] == names[j]);
                    }
                }
            }
        }
    }
}

/// Appending a name that does not occur yet keeps the names distinct.
pub proof fn lemma_push_distinct<T>(names: Seq<T>, name: T)
    requires
        names_distinct(names),
        !names.contains(name),
    ensures
        names_distinct(names.push(name)),
{
    assert forall|i: int, j: int|
        0 <= i < names.push(name).len() && 0 <= j < names.push(name).len() && i != j implies names.push(
        name,
    )[i] != names.push(name)[j] by {
        if i == names.len() {
            assert(names[j] == names.push(name)[j]);
        } else if j == names.len() {
            assert(names[i] == names.push(name)[i]);
        }
    }
}

/// The index of the first position `k` whose name already occurs before `k`, searching from
/// `from` onwards.
pub open spec fn first_duplicate_from<T>(names: Seq<T>, from: int) -> Option<int>
    decreases names.len() - from,
{
    if from < 0 || from >= names.len() {
        None
    } else if first_index_of(names.take(from), names[from]) is Some {
        Some(from)
    } else {
        first_duplicate_from(names, from + 1)
    }
}

/// The error a manager reports when the names are added one after the other: the duplicate at
/// the first position whose name already occurred, referring to the earlier position.
pub open spec fn duplicate_error<T>(names: Seq<T>) -> Option<usize> {
    match first_duplicate_from(names, 0) {
        Some(k) => Some(first_index_of(names.take(k), names[k])->0 as usize),
        None => None,
    }
}

/// The first duplicate lies in range, and the earlier position it refers to lies before it.
pub proof fn lemma_duplicate_indices<T>(names: Seq<T>)
    requires
        first_duplicate_from(names, 0) is Some,
    ensures
        0 <= first_duplicate_from(names, 0)->0 < names.len(),
        0 <= duplicate_error(names)->0 < first_duplicate_from(names, 0)->0,
{
    lemma_first_duplicate_range(names, 0);
    let k = first_duplicate_from(names, 0)->0;
    lemma_first_index_of_spec(names.take(k), names[k]);
}

proof fn lemma_first_duplicate_range<T>(names: Seq<T>, from: int)
    ensures
        first_duplicate_from(names, from) matches Some(k) ==> from <= k < names.len()
            && first_index_of(names.take(k), names[k]) is Some,
    decreases names.len() - from,
{
    if 0 <= from < names.len() && first_index_of(names.take(from), names[from]) is None {
        lemma_first_duplicate_range(names, from + 1);
    }
}

/// Adding `names` one after the other to an empty list reports no duplicate exactly when the
/// names are distinct.
pub proof fn lemma_duplicate_error_distinct<T>(names: Seq<T>, from: int)
    requires
        0 <= from <= names.len(),
        names_distinct(names.take(from)),
    ensures
        first_duplicate_from(names, from) is None <==> names_distinct(names),
    decreases names.len() - from,
{
    if from == names.len() {
        assert(names.take(from) =~= names);
    } else {
        lemma_first_index_of_spec(names.take(from), names[from]);
        if first_index_of(names.take(from), names[from]) is Some {
            let i = first_index_of(names.take(from), names[from])->0;
            assert(names[i] == names.take(from)[i]);
        } else {
            assert(names.take(from + 1) =~= names.take(from).push(names[from]));
            lemma_push_distinct(names.take(from), names[from]);
            lemma_duplicate_error_distinct(names, from + 1);
        }
    }
}


/// Looking a name up after appending it: the appended name is found at the end unless it
/// occurred already, and every other name is found where it was before.
pub proof fn law_lookup_after_append<T>(names: Seq<T>, name: T, other: T)
    ensures
        first_index_of(names, name) is None ==> first_index_of(names.push(name), name) == Some(names.len() as int),
        other != name ==> first_index_of(names.push(name), other) == first_index_of(names, other),
        first_index_of(names, other) is Some ==> first_index_of(names.push(name), other) == first_index_of(names, other),
    decreases names.len(),
{
    if names.len() > 0 {
        assert(names.push(name).drop_first() =~= names.drop_first().push(name));
        law_lookup_after_append(names.drop_first(), name, other);
    } else {
        assert(names.push(name).drop_first() =~= Seq::<T>::empty());
        assert(first_index_of(names.push(name).drop_first(), other) is None);
    }
}

} // verus!
