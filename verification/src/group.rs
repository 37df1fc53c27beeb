use vstd::prelude::*;
use vstd::multiset::Multiset;
use crate::person::Person;
use crate::score::key_spec;
use crate::score::sort_key;

verus! {

/// Every pair of positions is in ascending key order.
pub open spec fn sorted_by_key(s: Seq<Person>) -> bool {
    forall|i: int, j: int| 0 <= i < j < s.len() ==> key_spec(s[i]) <= key_spec(s[j])
}

/// Every person in the sequence keeps its scoring fields within the machine
/// bound, so a sort key can be computed for each.
pub open spec fn all_bounded(s: Seq<Person>) -> bool {
    forall|i: int| 0 <= i < s.len() ==> (#[trigger] s[i]).score_fields_bounded()
}

/// Insertion of one person into a sorted run, after every person whose key is
/// less than or equal: a later arrival never overtakes an equal earlier one.
pub open spec fn insert_sorted(s: Seq<Person>, x: Person) -> Seq<Person>
    decreases s.len(),
{
    if s.len() == 0 {
        seq![x]
    } else if key_spec(s.last()) <= key_spec(x) {
        s.push(x)
    } else {
        insert_sorted(s.drop_last(), x).push(s.last())
    }
}

/// The stable ascending sort of the roster by sort key: each person is
/// inserted, in input order, after all earlier persons with a key less than
/// or equal to its own. People with equal keys therefore keep their input
/// order — the tie-break rule of this pipeline.
pub open spec fn stable_sort_spec(s: Seq<Person>) -> Seq<Person>
    decreases s.len(),
{
    if s.len() == 0 {
        s
    } else {
        insert_sorted(stable_sort_spec(s.drop_last()), s.last())
    }
}

/// A sorted sequence cut into contiguous chunks of `k`, the last chunk
/// holding whatever remains. Grouping is this bucketing of contiguous ranks,
/// not a balanced partition; the undersized final chunk is kept as it is.
pub open spec fn chunk_spec(s: Seq<Person>, k: int) -> Seq<Seq<Person>>
    recommends
        k >= 1,
    decreases s.len(),
{
    if s.len() == 0 {
        Seq::empty()
    } else if k < 1 || s.len() <= k {
        seq![s]
    } else {
        seq![s.take(k)] + chunk_spec(s.skip(k), k)
    }
}

/// What grouping a roster produces: the stable sort of the roster, cut into
/// chunks of the configured size.
pub open spec fn grouped(people: Seq<Person>, k: int) -> Seq<Seq<Person>> {
    chunk_spec(stable_sort_spec(people), k)
}

/// The sequence of views of the produced groups.
pub open spec fn groups_view(groups: Seq<Vec<Person>>) -> Seq<Seq<Person>> {
    groups.map_values(|g: Vec<Person>| g@)
}

proof fn lemma_insert_sorted_len(s: Seq<Person>, x: Person)
    ensures
        insert_sorted(s, x).len() == s.len() + 1,
    decreases s.len(),
{
    if s.len() > 0 && !(key_spec(s.last()) <= key_spec(x)) {
        lemma_insert_sorted_len(s.drop_last(), x);
    }
}

proof fn lemma_insert_sorted_sorted(s: Seq<Person>, x: Person)
    requires
        sorted_by_key(s),
    ensures
        sorted_by_key(insert_sorted(s, x)),
    decreases s.len(),
{
    if s.len() == 0 {
    } else if key_spec(s.last()) <= key_spec(x) {
        assert forall|i: int, j: int|
            0 <= i < j < s.push(x).len() implies key_spec(s.push(x)[i]) <= key_spec(
            s.push(x)[j],
        ) by {
            if j < s.len() {
            } else {
                assert(key_spec(s[i]) <= key_spec(s.last()));
            }
        }
    } else {
        let d = s.drop_last();
        assert(sorted_by_key(d)) by {
            assert(forall|i: int, j: int| 0 <= i < j < d.len() ==> d[i] == s[i] && d[j] == s[j]);
        }
        lemma_insert_sorted_sorted(d, x);
        lemma_insert_sorted_len(d, x);
        let t = insert_sorted(d, x);
        // every element of t is either x or an element of d, so each is at
        // most key_spec(s.last())
        lemma_insert_sorted_below(d, x, key_spec(s.last()));
        assert forall|i: int, j: int|
            0 <= i < j < t.push(s.last()).len() implies key_spec(t.push(s.last())[i]) <= key_spec(
            t.push(s.last())[j],
        ) by {
            if j < t.len() {
            }
        }
    }
}

/// If every element of `s` has key at most `b`, the key of `x` is below `b`,
/// then every element of the insertion stays at most `b`.
proof fn lemma_insert_sorted_below(s: Seq<Person>, x: Person, b: int)
    requires
        forall|i: int| 0 <= i < s.len() ==> key_spec(s[i]) <= b,
        key_spec(x) <= b,
    ensures
        forall|i: int| 0 <= i < insert_sorted(s, x).len() ==> key_spec(insert_sorted(s, x)[i])
            <= b,
    decreases s.len(),
{
    if s.len() > 0 && !(key_spec(s.last()) <= key_spec(x)) {
        let d = s.drop_last();
        assert(forall|i: int| 0 <= i < d.len() ==> d[i] == s[i]);
        lemma_insert_sorted_below(d, x, b);
        lemma_insert_sorted_len(d, x);
    }
}

proof fn lemma_insert_sorted_multiset(s: Seq<Person>, x: Person)
    ensures
        insert_sorted(s, x).to_multiset() == s.to_multiset().insert(x),
    decreases s.len(),
{
    broadcast use vstd::seq_lib::group_to_multiset_ensures;

    if s.len() == 0 {
        assert(seq![x] =~= Seq::empty().push(x));
        assert(Seq::<Person>::empty().to_multiset() =~= Multiset::empty());
    } else if key_spec(s.last()) <= key_spec(x) {
    } else {
        let d = s.drop_last();
        lemma_insert_sorted_multiset(d, x);
        assert(s =~= d.push(s.last()));
        assert(insert_sorted(d, x).push(s.last()).to_multiset() =~= d.to_multiset().insert(
            x,
        ).insert(s.last()));
        assert(d.to_multiset().insert(x).insert(s.last()) =~= d.to_multiset().insert(
            s.last(),
        ).insert(x));
    }
}

proof fn lemma_insert_sorted_bounded(s: Seq<Person>, x: Person)
    requires
        all_bounded(s),
        x.score_fields_bounded(),
    ensures
        all_bounded(insert_sorted(s, x)),
    decreases s.len(),
{
    if s.len() > 0 && !(key_spec(s.last()) <= key_spec(x)) {
        let d = s.drop_last();
        assert(forall|i: int| 0 <= i < d.len() ==> d[i] == s[i]);
        lemma_insert_sorted_bounded(d, x);
        lemma_insert_sorted_len(d, x);
    }
}

pub proof fn lemma_stable_sort_len(s: Seq<Person>)
    ensures
        stable_sort_spec(s).len() == s.len(),
    decreases s.len(),
{
    if s.len() > 0 {
        lemma_stable_sort_len(s.drop_last());
        lemma_insert_sorted_len(stable_sort_spec(s.drop_last()), s.last());
    }
}

/// The stable sort is sorted: the flattened grouping is in ascending key
/// order.
pub proof fn lemma_stable_sort_sorted(s: Seq<Person>)
    ensures
        sorted_by_key(stable_sort_spec(s)),
    decreases s.len(),
{
    if s.len() > 0 {
        lemma_stable_sort_sorted(s.drop_last());
        lemma_insert_sorted_sorted(stable_sort_spec(s.drop_last()), s.last());
    }
}

/// The stable sort is a permutation: it holds exactly the people of its
/// input, each exactly as often.
pub proof fn lemma_stable_sort_multiset(s: Seq<Person>)
    ensures
        stable_sort_spec(s).to_multiset() == s.to_multiset(),
    decreases s.len(),
{
    broadcast use vstd::seq_lib::group_to_multiset_ensures;

    if s.len() > 0 {
        let d = s.drop_last();
        lemma_stable_sort_multiset(d);
        lemma_insert_sorted_multiset(stable_sort_spec(d), s.last());
        assert(s =~= d.push(s.last()));
    }
}

proof fn lemma_stable_sort_bounded(s: Seq<Person>)
    requires
        all_bounded(s),
    ensures
        all_bounded(stable_sort_spec(s)),
    decreases s.len(),
{
    if s.len() > 0 {
        let d = s.drop_last();
        assert(forall|i: int| 0 <= i < d.len() ==> d[i] == s[i]);
        lemma_stable_sort_bounded(d);
        lemma_insert_sorted_bounded(stable_sort_spec(d), s.last());
    }
}

/// Where an element lands when inserted into a sorted run: splitting the run
/// at the first position after all keys less than or equal gives exactly the
/// insertion.
proof fn lemma_insert_sorted_position(s: Seq<Person>, x: Person, j: int)
    requires
        sorted_by_key(s),
        0 <= j <= s.len(),
        j == 0 || key_spec(s[j - 1]) <= key_spec(x),
        forall|m: int| j <= m < s.len() ==> key_spec(#[trigger] s[m]) > key_spec(x),
    ensures
        insert_sorted(s, x) == s.subrange(0, j) + seq![x] + s.subrange(j, s.len() as int),
    decreases s.len(),
{
    if s.len() == 0 {
        assert(insert_sorted(s, x) =~= s.subrange(0, j) + seq![x] + s.subrange(
            j,
            s.len() as int,
        ));
    } else if j == s.len() {
        assert(key_spec(s.last()) <= key_spec(x));
        assert(insert_sorted(s, x) =~= s.subrange(0, j) + seq![x] + s.subrange(
            j,
            s.len() as int,
        ));
    } else {
        assert(key_spec(s[s.len() - 1]) > key_spec(x));
        let d = s.drop_last();
        assert(forall|i: int| 0 <= i < d.len() ==> d[i] == s[i]);
        assert(sorted_by_key(d));
        lemma_insert_sorted_position(d, x, j);
        assert(insert_sorted(s, x) =~= s.subrange(0, j) + seq![x] + s.subrange(
            j,
            s.len() as int,
        ));
    }
}

/// A run of at most one person is already its own stable sort.
proof fn lemma_stable_sort_short(s: Seq<Person>)
    requires
        s.len() <= 1,
    ensures
        stable_sort_spec(s) == s,
{
    reveal_with_fuel(stable_sort_spec, 2);
    if s.len() == 1 {
        assert(s.drop_last() =~= Seq::<Person>::empty());
        assert(insert_sorted(stable_sort_spec(s.drop_last()), s.last()) =~= s);
    }
}

/// Sorts the roster in place into the stable ascending key order: afterwards
/// the vector holds exactly `stable_sort_spec` of what it held before.
pub fn sort_people(v: &mut Vec<Person>)
    requires
        all_bounded(old(v)@),
    ensures
        final(v)@ == stable_sort_spec(old(v)@),
{
    if v.len() <= 1 {
        proof {
            lemma_stable_sort_short(old(v)@);
        }
        return ;
    }
    let ghost input: Seq<Person> = v@;
    proof {
        lemma_stable_sort_short(input.take(1));
        assert(v@.take(1) =~= input.take(1));
        assert(v@.skip(1) =~= input.skip(1));
    }
    let mut i: usize = 1;
    while i < v.len()
        invariant
            1 <= i <= v@.len(),
            v@.len() == input.len(),
            all_bounded(input),
            v@.take(i as int) == stable_sort_spec(input.take(i as int)),
            v@.skip(i as int) == input.skip(i as int),
        decreases v@.len() - i,
    {
        let ghost pre: Seq<Person> = v@;
        let ghost prefix: Seq<Person> = stable_sort_spec(input.take(i as int));
        proof {
            assert(all_bounded(input.take(i as int))) by {
                assert(forall|m: int|
                    0 <= m < i ==> input.take(i as int)[m] == #[trigger] input[m]);
            }
            lemma_stable_sort_bounded(input.take(i as int));
            lemma_stable_sort_sorted(input.take(i as int));
            lemma_stable_sort_len(input.take(i as int));
            assert(forall|m: int| 0 <= m < i ==> v@[m] == #[trigger] prefix[m]) by {
                assert(forall|m: int|
                    0 <= m < i ==> v@[m] == #[trigger] v@.take(i as int)[m]);
            }
            assert forall|m: int| 0 <= m < v@.len() implies (#[trigger] v@[m]).score_fields_bounded() by {
                if m < i {
                    assert(v@[m] == prefix[m]);
                    assert(all_bounded(prefix));
                } else {
                    assert(v@[m] == v@.skip(i as int)[m - i]);
                    assert(input.skip(i as int)[m - i] == input[m]);
                }
            }
            assert(all_bounded(v@));
        }
        let key_i: i64 = sort_key(&v[i]);
        let mut j: usize = i;
        while j > 0 && sort_key(&v[j - 1]) > key_i
            invariant
                0 <= j <= i < v@.len(),
                v@ == pre,
                all_bounded(v@),
                key_i == key_spec(v@[i as int]),
                forall|m: int| j <= m < i ==> key_spec(#[trigger] v@[m]) > key_i,
            decreases j,
        {
            j -= 1;
        }
        let ghost x: Person = v@[i as int];
        proof {
            assert(forall|m: int| 0 <= m < i ==> v@[m] == #[trigger] prefix[m]);
            lemma_insert_sorted_position(prefix, x, j as int);
        }
        let moved = v.remove(i);
        v.insert(j, moved);
        proof {
            assert(x == input[i as int]) by {
                assert(pre.skip(i as int)[0] == input.skip(i as int)[0]);
            }
            assert(v@ == pre.remove(i as int).insert(j as int, x));
            assert(v@.take((i + 1) as int) =~= prefix.subrange(0, j as int) + seq![x]
                + prefix.subrange(j as int, i as int));
            assert(input.take((i + 1) as int).drop_last() =~= input.take(i as int));
            assert(input.take((i + 1) as int).last() == input[i as int]);
            assert(v@.take((i + 1) as int) == stable_sort_spec(input.take((i + 1) as int)));
            assert forall|m: int| 0 <= m < v@.len() - i - 1 implies #[trigger] v@.skip(
                (i + 1) as int,
            )[m] == input.skip((i + 1) as int)[m] by {
                assert(v@[m + i + 1] == pre[m + i + 1]);
                assert(pre[m + i + 1] == pre.skip(i as int)[m + 1]);
                assert(input.skip(i as int)[m + 1] == input[m + i + 1]);
            }
            assert(v@.skip((i + 1) as int) =~= input.skip((i + 1) as int));
        }
        i += 1;
    }
    proof {
        assert(v@.take(v@.len() as int) =~= v@);
        assert(input.take(input.len() as int) =~= input);
    }
}

/// Sorts the roster by preference magnitude and cuts the sorted order into
/// groups of `group_size`, the last group holding the remainder. The result
/// is a pure function of the input roster: identical rosters give identical
/// groups in identical order, ties resolved by input order. Grouping buckets
/// contiguous ranks of the sorted order; it does not balance or optimize.
pub fn group_people(people: Vec<Person>, group_size: usize) -> (groups: Vec<Vec<Person>>)
    requires
        group_size >= 1,
        all_bounded(people@),
    ensures
        groups_view(groups@) == grouped(people@, group_size as int),
{
    let ghost input: Seq<Person> = people@;
    let mut v = people;
    sort_people(&mut v);
    let ghost sorted: Seq<Person> = v@;
    let mut groups: Vec<Vec<Person>> = Vec::new();
    let mut group: Vec<Person> = Vec::new();
    proof {
        assert(groups_view(groups@) =~= Seq::<Seq<Person>>::empty());
        assert(group@ + v@ =~= sorted);
        assert(chunk_spec(sorted, group_size as int) =~= groups_view(groups@) + chunk_spec(
            group@ + v@,
            group_size as int,
        ));
    }
    while v.len() > 0
        invariant
            group_size >= 1,
            group@.len() < group_size,
            chunk_spec(sorted, group_size as int) == groups_view(groups@) + chunk_spec(
                group@ + v@,
                group_size as int,
            ),
        decreases v@.len(),
    {
        let ghost pre_group: Seq<Person> = group@;
        let ghost pre_v: Seq<Person> = v@;
        let head = v.remove(0);
        group.push(head);
        proof {
            assert(group@ + v@ =~= pre_group + pre_v);
        }
        if group.len() == group_size {
            proof {
                let c = group@ + v@;
                if v@.len() == 0 {
                    assert(c =~= group@);
                    assert(chunk_spec(c, group_size as int) =~= seq![group@] + chunk_spec(
                        v@,
                        group_size as int,
                    ));
                } else {
                    assert(c.take(group_size as int) =~= group@);
                    assert(c.skip(group_size as int) =~= v@);
                    assert(chunk_spec(c, group_size as int) =~= seq![group@] + chunk_spec(
                        v@,
                        group_size as int,
                    ));
                }
            }
            let ghost pre_groups: Seq<Vec<Person>> = groups@;
            let ghost done: Seq<Person> = group@;
            groups.push(group);
            group = Vec::new();
            proof {
                assert(groups_view(groups@) =~= groups_view(pre_groups).push(done));
                assert(group@ + v@ =~= v@);
            }
        }
    }
    if group.len() > 0 {
        proof {
            assert(group@ + v@ =~= group@);
            assert(chunk_spec(group@, group_size as int) =~= seq![group@]);
        }
        let ghost pre_groups: Seq<Vec<Person>> = groups@;
        let ghost done: Seq<Person> = group@;
        groups.push(group);
        proof {
            assert(groups_view(groups@) =~= groups_view(pre_groups).push(done));
        }
    } else {
        proof {
            assert(group@ + v@ =~= Seq::<Person>::empty());
            assert(chunk_spec(group@ + v@, group_size as int) =~= Seq::<Seq<Person>>::empty());
            assert(groups_view(groups@) =~= groups_view(groups@) + chunk_spec(
                group@ + v@,
                group_size as int,
            ));
        }
    }
    groups
}

proof fn lemma_chunk_flatten(s: Seq<Person>, k: int)
    requires
        k >= 1,
    ensures
        chunk_spec(s, k).flatten() == s,
    decreases s.len(),
{
    if s.len() == 0 {
        assert(chunk_spec(s, k).flatten() =~= s);
    } else if s.len() <= k {
        let c = chunk_spec(s, k);
        assert(c == seq![s]);
        assert(c.drop_first() =~= Seq::<Seq<Person>>::empty());
        assert(Seq::<Seq<Person>>::empty().flatten() == Seq::<Person>::empty());
        assert(c.flatten() =~= s);
    } else {
        lemma_chunk_flatten(s.skip(k), k);
        let c = chunk_spec(s, k);
        assert(c.first() == s.take(k));
        assert(c.drop_first() =~= chunk_spec(s.skip(k), k));
        assert(c.flatten() =~= s);
    }
}

/// Law: grouping neither loses nor duplicates anyone. The groups,
/// concatenated in order, are exactly the stable sort of the roster, and so
/// hold each input person exactly as often as the roster does.
pub proof fn lemma_grouping_preserves_roster(people: Seq<Person>, group_size: int)
    requires
        group_size >= 1,
    ensures
        grouped(people, group_size).flatten() == stable_sort_spec(people),
        grouped(people, group_size).flatten().to_multiset() == people.to_multiset(),
{
    lemma_chunk_flatten(stable_sort_spec(people), group_size);
    lemma_stable_sort_multiset(people);
}

proof fn lemma_chunk_sizes(s: Seq<Person>, k: int)
    requires
        k >= 1,
    ensures
        forall|i: int|
            0 <= i < chunk_spec(s, k).len() - 1 ==> (#[trigger] chunk_spec(s, k)[i]).len() == k,
        chunk_spec(s, k).len() > 0 ==> 1 <= chunk_spec(s, k).last().len() <= k,
        s.len() as int % k == 0 ==> forall|i: int|
            0 <= i < chunk_spec(s, k).len() ==> (#[trigger] chunk_spec(s, k)[i]).len() == k,
        chunk_spec(s, k).len() == 0 <==> s.len() == 0,
    decreases s.len(),
{
    if s.len() == 0 {
    } else if s.len() <= k {
        if s.len() as int % k == 0 && s.len() < k {
            vstd::arithmetic::div_mod::lemma_small_mod(s.len(), k as nat);
        }
    } else {
        lemma_chunk_sizes(s.skip(k), k);
        let c = chunk_spec(s, k);
        let rest = chunk_spec(s.skip(k), k);
        assert(forall|i: int| 1 <= i < c.len() ==> c[i] == #[trigger] rest[i - 1]);
        assert(c.last() == rest.last());
        if s.len() as int % k == 0 {
            assert(s.skip(k).len() as int % k == 0) by {
                vstd::arithmetic::div_mod::lemma_mod_sub_multiples_vanish(s.len() as int, k);
            }
        }
    }
}

/// Law: every group holds exactly `group_size` people, except possibly the
/// last, which holds between one and `group_size`; a roster whose size is an
/// exact multiple of `group_size` produces no undersized group, and an empty
/// roster produces no groups.
pub proof fn lemma_grouping_sizes(people: Seq<Person>, group_size: int)
    requires
        group_size >= 1,
    ensures
        forall|i: int|
            0 <= i < grouped(people, group_size).len() - 1 ==> (#[trigger] grouped(
                people,
                group_size,
            )[i]).len() == group_size,
        grouped(people, group_size).len() > 0 ==> 1 <= grouped(people, group_size).last().len()
            <= group_size,
        people.len() as int % group_size == 0 ==> forall|i: int|
            0 <= i < grouped(people, group_size).len() ==> (#[trigger] grouped(
                people,
                group_size,
            )[i]).len() == group_size,
        grouped(people, group_size).len() == 0 <==> people.len() == 0,
{
    lemma_stable_sort_len(people);
    lemma_chunk_sizes(stable_sort_spec(people), group_size);
}

} // verus!
