//! The order in which the entries of a directory are visited.
//!
//! Entries are visited in the order of their names as byte strings, so that
//! two walks over the same corpus visit the targets in the same order.

use vstd::prelude::*;
use vstd::string::*;
use vstd::utf8::encode_utf8;

verus! {

/// The path of the entry `name` of the directory `dir`.
pub open spec fn child_of(dir: Seq<char>, name: Seq<char>) -> Seq<char> {
    dir + seq!['/'] + name
}

/// Whether `a` comes before `b`, or equals it, in the lexicographic order of
/// byte strings.
pub open spec fn bytes_le(a: Seq<u8>, b: Seq<u8>) -> bool
    decreases a.len(),
{
    if a.len() == 0 {
        true
    } else if b.len() == 0 {
        false
    } else if a[0] != b[0] {
        a[0] < b[0]
    } else {
        bytes_le(a.drop_first(), b.drop_first())
    }
}

/// The order of names: that of their UTF-8 encodings as byte strings.
pub open spec fn name_le(a: Seq<char>, b: Seq<char>) -> bool {
    bytes_le(encode_utf8(a), encode_utf8(b))
}

/// `name` put into `sorted` behind every entry that does not come after it.
pub open spec fn insert_sorted(sorted: Seq<Seq<char>>, name: Seq<char>) -> Seq<Seq<char>>
    decreases sorted.len(),
{
    if sorted.len() == 0 {
        seq![name]
    } else if name_le(sorted.last(), name) {
        sorted.push(name)
    } else {
        insert_sorted(sorted.drop_last(), name).push(sorted.last())
    }
}

/// The names in ascending order.
pub open spec fn sort_names(names: Seq<Seq<char>>) -> Seq<Seq<char>>
    decreases names.len(),
{
    if names.len() == 0 {
        Seq::empty()
    } else {
        insert_sorted(sort_names(names.drop_last()), names.last())
    }
}

/// Whether the names stand in ascending order.
pub open spec fn is_sorted(names: Seq<Seq<char>>) -> bool {
    forall|i: int, j: int| 0 <= i <= j < names.len() ==> name_le(names[i], names[j])
}

/// Of two byte strings, one comes before the other or they are equal.
pub proof fn lemma_bytes_le_total(a: Seq<u8>, b: Seq<u8>)
    ensures
        bytes_le(a, b) || bytes_le(b, a),
    decreases a.len(),
{
    if a.len() > 0 && b.len() > 0 && a[0] == b[0] {
        lemma_bytes_le_total(a.drop_first(), b.drop_first());
    }
}

/// The order of byte strings is transitive.
pub proof fn lemma_bytes_le_transitive(a: Seq<u8>, b: Seq<u8>, c: Seq<u8>)
    requires
        bytes_le(a, b),
        bytes_le(b, c),
    ensures
        bytes_le(a, c),
    decreases a.len(),
{
    if a.len() > 0 && b.len() > 0 && c.len() > 0 && a[0] == b[0] && b[0] == c[0] {
        lemma_bytes_le_transitive(a.drop_first(), b.drop_first(), c.drop_first());
    }
}

/// Every byte string equals itself in the order.
pub proof fn lemma_bytes_le_reflexive(a: Seq<u8>)
    ensures
        bytes_le(a, a),
    decreases a.len(),
{
    if a.len() > 0 {
        lemma_bytes_le_reflexive(a.drop_first());
    }
}

proof fn lemma_insert_sorted_shape(sorted: Seq<Seq<char>>, name: Seq<char>)
    ensures
        insert_sorted(sorted, name).len() == sorted.len() + 1,
        insert_sorted(sorted, name).to_multiset() == sorted.to_multiset().insert(name),
        insert_sorted(sorted, name).contains(name),
        forall|other: Seq<char>| #[trigger]
            insert_sorted(sorted, name).contains(other) ==> other == name || sorted.contains(other),
        forall|other: Seq<char>| #[trigger]
            sorted.contains(other) ==> insert_sorted(sorted, name).contains(other),
    decreases sorted.len(),
{
    broadcast use vstd::multiset::group_multiset_axioms;

    let result = insert_sorted(sorted, name);
    if sorted.len() == 0 {
        assert(sorted =~= Seq::<Seq<char>>::empty());
        assert(seq![name] =~= sorted.push(name));
    } else if name_le(sorted.last(), name) {
    } else {
        let front = sorted.drop_last();
        let inner = insert_sorted(front, name);
        lemma_insert_sorted_shape(front, name);
        inner.to_multiset_ensures();
        front.to_multiset_ensures();
        assert(front.push(sorted.last()) =~= sorted);
    }
    sorted.to_multiset_ensures();
    result.to_multiset_ensures();
    assert(result.to_multiset() =~= sorted.to_multiset().insert(name));
    assert forall|other: Seq<char>| #[trigger] result.contains(other) implies other == name
        || sorted.contains(other) by {
        assert(result.to_multiset().count(other) > 0);
    }
    assert forall|other: Seq<char>| #[trigger] sorted.contains(other) implies result.contains(
        other,
    ) by {
        assert(sorted.to_multiset().count(other) > 0);
        assert(result.to_multiset().count(other) > 0);
    }
    assert(result.to_multiset().count(name) > 0);
}

proof fn lemma_insert_sorted_keeps_order(sorted: Seq<Seq<char>>, name: Seq<char>)
    requires
        is_sorted(sorted),
    ensures
        is_sorted(insert_sorted(sorted, name)),
    decreases sorted.len(),
{
    let result = insert_sorted(sorted, name);
    lemma_bytes_le_reflexive(encode_utf8(name));
    if sorted.len() == 0 {
    } else if name_le(sorted.last(), name) {
        assert forall|i: int, j: int| 0 <= i <= j < result.len() implies name_le(
            result[i],
            result[j],
        ) by {
            if j < sorted.len() {
            } else if i < sorted.len() {
                assert(name_le(sorted[i], sorted[sorted.len() - 1]));
                lemma_bytes_le_transitive(
                    encode_utf8(sorted[i]),
                    encode_utf8(sorted.last()),
                    encode_utf8(name),
                );
            }
        }
    } else {
        let front = sorted.drop_last();
        let inner = insert_sorted(front, name);
        assert forall|i: int, j: int| 0 <= i <= j < front.len() implies name_le(
            front[i],
            front[j],
        ) by {
            assert(name_le(sorted[i], sorted[j]));
        }
        lemma_insert_sorted_keeps_order(front, name);
        lemma_insert_sorted_shape(front, name);
        lemma_bytes_le_total(encode_utf8(sorted.last()), encode_utf8(name));
        lemma_bytes_le_reflexive(encode_utf8(sorted.last()));
        assert forall|i: int, j: int| 0 <= i <= j < result.len() implies name_le(
            result[i],
            result[j],
        ) by {
            if j < inner.len() {
                assert(name_le(inner[i], inner[j]));
            } else if i < inner.len() {
                assert(inner.contains(inner[i]));
                if inner[i] != name {
                    assert(front.contains(inner[i]));
                    let k = choose|k: int| 0 <= k < front.len() && front[k] == inner[i];
                    assert(name_le(sorted[k], sorted[sorted.len() - 1]));
                }
            }
        }
    }
}

/// Sorting yields the names in ascending order.
pub proof fn lemma_sort_names_is_sorted(names: Seq<Seq<char>>)
    ensures
        is_sorted(sort_names(names)),
    decreases names.len(),
{
    if names.len() > 0 {
        lemma_sort_names_is_sorted(names.drop_last());
        lemma_insert_sorted_keeps_order(sort_names(names.drop_last()), names.last());
    }
}

/// Sorting neither drops nor adds a name: the sorted sequence holds every
/// name as often as the unsorted one.
pub proof fn lemma_sort_names_is_permutation(names: Seq<Seq<char>>)
    ensures
        sort_names(names).len() == names.len(),
        sort_names(names).to_multiset() == names.to_multiset(),
        forall|name: Seq<char>| #[trigger] sort_names(names).contains(name) <==> names.contains(name),
    decreases names.len(),
{
    broadcast use vstd::multiset::group_multiset_axioms;

    if names.len() == 0 {
        assert(names =~= Seq::<Seq<char>>::empty());
    } else {
        let front = names.drop_last();
        lemma_sort_names_is_permutation(front);
        lemma_insert_sorted_shape(sort_names(front), names.last());
        front.to_multiset_ensures();
        assert(front.push(names.last()) =~= names);
    }
    names.to_multiset_ensures();
    sort_names(names).to_multiset_ensures();
    assert forall|name: Seq<char>| #[trigger]
        sort_names(names).contains(name) <==> names.contains(name) by {
        assert(sort_names(names).to_multiset().count(name) == names.to_multiset().count(name));
    }
}

/// Two byte strings that each come before or equal the other are equal.
pub proof fn lemma_bytes_le_antisymmetric(a: Seq<u8>, b: Seq<u8>)
    requires
        bytes_le(a, b),
        bytes_le(b, a),
    ensures
        a == b,
    decreases a.len(),
{
    if a.len() == 0 {
        assert(a =~= b);
    } else {
        lemma_bytes_le_antisymmetric(a.drop_first(), b.drop_first());
        assert(a =~= seq![a[0]] + a.drop_first());
        assert(b =~= seq![b[0]] + b.drop_first());
    }
}

/// The order of names is a total order: besides being reflexive, transitive
/// and total, it tells any two different names apart.
pub proof fn lemma_name_le_is_total_order()
    ensures
        vstd::relations::total_ordering(|a: Seq<char>, b: Seq<char>| name_le(a, b)),
{
    let leq = |a: Seq<char>, b: Seq<char>| name_le(a, b);
    assert forall|a: Seq<char>| #[trigger] leq(a, a) by {
        lemma_bytes_le_reflexive(encode_utf8(a));
    }
    assert forall|a: Seq<char>, b: Seq<char>| #[trigger] leq(a, b) && #[trigger] leq(b, a) implies a
        == b by {
        lemma_bytes_le_antisymmetric(encode_utf8(a), encode_utf8(b));
        vstd::utf8::encode_utf8_decode_utf8(a);
        vstd::utf8::encode_utf8_decode_utf8(b);
    }
    assert forall|a: Seq<char>, b: Seq<char>, c: Seq<char>| #[trigger]
        leq(a, b) && #[trigger] leq(b, c) implies leq(a, c) by {
        lemma_bytes_le_transitive(encode_utf8(a), encode_utf8(b), encode_utf8(c));
    }
    assert forall|a: Seq<char>, b: Seq<char>| #[trigger] leq(a, b) || #[trigger] leq(b, a) by {
        lemma_bytes_le_total(encode_utf8(a), encode_utf8(b));
    }
}

/// The sorted order does not depend on the order in which the names are
/// given: two listings of the same names sort to the same sequence.
pub proof fn lemma_sort_names_is_canonical(a: Seq<Seq<char>>, b: Seq<Seq<char>>)
    requires
        a.to_multiset() == b.to_multiset(),
    ensures
        sort_names(a) == sort_names(b),
{
    let leq = |x: Seq<char>, y: Seq<char>| name_le(x, y);
    lemma_name_le_is_total_order();
    lemma_sort_names_is_sorted(a);
    lemma_sort_names_is_sorted(b);
    lemma_sort_names_is_permutation(a);
    lemma_sort_names_is_permutation(b);
    assert(vstd::relations::sorted_by(sort_names(a), leq)) by {
        assert forall|i: int, j: int| 0 <= i < j < sort_names(a).len() implies #[trigger] leq(
            sort_names(a)[i],
            sort_names(a)[j],
        ) by {
            assert(name_le(sort_names(a)[i], sort_names(a)[j]));
        }
    }
    assert(vstd::relations::sorted_by(sort_names(b), leq)) by {
        assert forall|i: int, j: int| 0 <= i < j < sort_names(b).len() implies #[trigger] leq(
            sort_names(b)[i],
            sort_names(b)[j],
        ) by {
            assert(name_le(sort_names(b)[i], sort_names(b)[j]));
        }
    }
    vstd::seq_lib::lemma_sorted_unique(sort_names(a), sort_names(b), leq);
}

/// Sorting names that are all different gives names that are all
/// different.
pub proof fn lemma_sort_names_keeps_names_apart(names: Seq<Seq<char>>)
    requires
        names.no_duplicates(),
    ensures
        sort_names(names).no_duplicates(),
{
    broadcast use vstd::multiset::group_multiset_axioms;

    lemma_sort_names_is_permutation(names);
    names.lemma_multiset_has_no_duplicates();
    sort_names(names).lemma_multiset_has_no_duplicates_conv();
}

/// The path of the entry `name` of the directory `dir`.
pub fn child_path(dir: &str, name: &str) -> (path: String)
    ensures
        path@ == child_of(dir@, name@),
{
    let mut path = String::from_str(dir);
    proof {
        reveal_strlit("/");
    }
    path.append("/");
    path.append(name);
    assert(path@ =~= child_of(dir@, name@));
    path
}

/// Compares two names.
pub fn name_precedes(a: &str, b: &str) -> (le: bool)
    ensures
        le == name_le(a@, b@),
{
    let x = a.as_bytes();
    let y = b.as_bytes();
    let mut i: usize = 0;
    assert(x@.skip(0) =~= x@);
    assert(y@.skip(0) =~= y@);
    while i < x.len() && i < y.len()
        invariant
            i <= x.len(),
            i <= y.len(),
            x@ == encode_utf8(a@),
            y@ == encode_utf8(b@),
            bytes_le(x@, y@) == bytes_le(x@.skip(i as int), y@.skip(i as int)),
        decreases x.len() - i,
    {
        proof {
            let xs = x@.skip(i as int);
            let ys = y@.skip(i as int);
            assert(xs.len() > 0 && ys.len() > 0);
            assert(xs[0] == x@[i as int]);
            assert(ys[0] == y@[i as int]);
            assert(xs.drop_first() =~= x@.skip(i + 1));
            assert(ys.drop_first() =~= y@.skip(i + 1));
            assert(bytes_le(xs, ys) == if xs[0] != ys[0] {
                xs[0] < ys[0]
            } else {
                bytes_le(xs.drop_first(), ys.drop_first())
            });
        }
        if x[i] != y[i] {
            return x[i] < y[i];
        }
        i = i + 1;
    }
    proof {
        let xs = x@.skip(i as int);
        let ys = y@.skip(i as int);
        assert(xs.len() == x@.len() - i);
        assert(ys.len() == y@.len() - i);
        assert(bytes_le(xs, ys) == (xs.len() == 0));
    }
    i == x.len()
}

/// Sorts the entries of a directory by name.
pub fn read_dir(entries: Vec<String>) -> (sorted: Vec<String>)
    ensures
        sorted.deep_view() == sort_names(entries.deep_view()),
{
    let mut sorted: Vec<String> = Vec::new();
    let mut i: usize = 0;
    assert(entries.deep_view().take(0) =~= Seq::<Seq<char>>::empty());
    assert(sorted.deep_view() =~= Seq::<Seq<char>>::empty());
    while i < entries.len()
        invariant
            i <= entries.len(),
            sorted.deep_view() == sort_names(entries.deep_view().take(i as int)),
        decreases entries.len() - i,
    {
        let name = entries[i].clone();
        let ghost before = sorted.deep_view();
        let mut at: usize = sorted.len();
        assert(before.take(at as int) =~= before);
        assert(before.skip(at as int) =~= Seq::<Seq<char>>::empty());
        assert(insert_sorted(before, name@) + Seq::<Seq<char>>::empty() =~= insert_sorted(
            before,
            name@,
        ));
        while at > 0 && !name_precedes(sorted[at - 1].as_str(), name.as_str())
            invariant
                at <= sorted.len(),
                before == sorted.deep_view(),
                insert_sorted(before, name@) == insert_sorted(before.take(at as int), name@)
                    + before.skip(at as int),
            decreases at,
        {
            proof {
                let head = before.take(at as int);
                assert(head.last() == sorted[at - 1]@);
                assert(head.drop_last() =~= before.take(at - 1));
                assert(insert_sorted(head.drop_last(), name@).push(head.last()) + before.skip(
                    at as int,
                ) =~= insert_sorted(head.drop_last(), name@) + before.skip(at - 1));
            }
            at = at - 1;
        }
        proof {
            let head = before.take(at as int);
            if at > 0 {
                assert(head.last() == sorted[at - 1]@);
            }
            assert(insert_sorted(head, name@) == head.push(name@));
            assert(head.push(name@) + before.skip(at as int) =~= before.insert(at as int, name@));
        }
        sorted.insert(at, name);
        proof {
            assert(sorted.deep_view() =~= before.insert(at as int, name@));
            let grown = entries.deep_view().take(i + 1);
            assert(grown.drop_last() =~= entries.deep_view().take(i as int));
            assert(grown.last() == entries[i as int]@);
        }
        i = i + 1;
    }
    assert(entries.deep_view().take(entries.len() as int) =~= entries.deep_view());
    sorted
}

} // verus!
