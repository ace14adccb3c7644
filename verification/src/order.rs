//! Lexicographic order of strings, by character code, as `String`'s `Ord`
//! compares them (byte order of UTF-8 agrees with code-point order).

use vstd::prelude::*;

verus! {

broadcast use vstd::seq_lib::group_to_multiset_ensures;

/// `a` comes strictly before `b`.
pub open spec fn seq_lt(a: Seq<char>, b: Seq<char>) -> bool
    decreases a.len(),
{
    if a.len() == 0 {
        b.len() > 0
    } else if b.len() == 0 {
        false
    } else if (a[0] as int) < (b[0] as int) {
        true
    } else if a[0] == b[0] {
        seq_lt(a.drop_first(), b.drop_first())
    } else {
        false
    }
}

/// Nothing comes strictly before itself, and the order is asymmetric.
pub proof fn lemma_seq_lt_asym(a: Seq<char>, b: Seq<char>)
    ensures
        seq_lt(a, b) ==> !seq_lt(b, a),
        !seq_lt(a, a),
    decreases a.len(),
{
    if a.len() > 0 && b.len() > 0 && a[0] == b[0] {
        lemma_seq_lt_asym(a.drop_first(), b.drop_first());
    }
    if a.len() > 0 {
        lemma_seq_lt_asym(a.drop_first(), a.drop_first());
    }
}

/// The order is transitive.
pub proof fn lemma_seq_lt_trans(a: Seq<char>, b: Seq<char>, c: Seq<char>)
    requires
        seq_lt(a, b),
        seq_lt(b, c),
    ensures
        seq_lt(a, c),
    decreases a.len(),
{
    if a.len() > 0 && b.len() > 0 && c.len() > 0 && a[0] == b[0] && b[0] == c[0] {
        lemma_seq_lt_trans(a.drop_first(), b.drop_first(), c.drop_first());
    }
}

/// Two different strings are ordered one way or the other.
pub proof fn lemma_seq_lt_total(a: Seq<char>, b: Seq<char>)
    ensures
        a == b || seq_lt(a, b) || seq_lt(b, a),
    decreases a.len(),
{
    if a.len() > 0 && b.len() > 0 && a[0] == b[0] {
        lemma_seq_lt_total(a.drop_first(), b.drop_first());
        if a.drop_first() == b.drop_first() {
            assert(a =~= seq![a[0]] + a.drop_first());
            assert(b =~= seq![b[0]] + b.drop_first());
        }
    } else if a.len() > 0 && b.len() > 0 {
        assert((a[0] as int) != (b[0] as int));
    } else if a.len() == 0 && b.len() == 0 {
        assert(a =~= b);
    }
}

/// Whether `a` comes strictly before `b`.
pub fn chars_lt(a: &[char], b: &[char]) -> (r: bool)
    ensures
        r == seq_lt(a@, b@),
{
    let mut i: usize = 0;
    assert(a@.skip(0) =~= a@);
    assert(b@.skip(0) =~= b@);
    while i < a.len() && i < b.len()
        invariant
            i <= a@.len(),
            i <= b@.len(),
            forall|k: int| 0 <= k < i ==> a@[k] == b@[k],
            seq_lt(a@.skip(i as int), b@.skip(i as int)) == seq_lt(a@, b@),
        decreases a@.len() - i,
    {
        let x = a[i];
        let y = b[i];
        assert(a@.skip(i as int)[0] == x && b@.skip(i as int)[0] == y);
        if x < y {
            return true;
        }
        if x != y {
            return false;
        }
        assert(a@.skip(i as int).drop_first() =~= a@.skip(i + 1));
        assert(b@.skip(i as int).drop_first() =~= b@.skip(i + 1));
        i += 1;
    }
    i < b.len()
}

/// Whether `a` comes strictly before `b`.
pub fn str_lt(a: &str, b: &str) -> (r: bool)
    ensures
        r == seq_lt(a@, b@),
{
    let x = crate::text::chars_of(a);
    let y = crate::text::chars_of(b);
    chars_lt(x.as_slice(), y.as_slice())
}

/// The strings are in lexicographic order.
pub open spec fn names_sorted(s: Seq<Seq<char>>) -> bool {
    forall|a: int, b: int| 0 <= a < b < s.len() ==> !seq_lt(s[b], s[a])
}

/// The names sorted lexicographically (a stable sort).
pub fn sort_names(names: Vec<String>) -> (r: Vec<String>)
    ensures
        names_sorted(crate::model::strs_view(r@)),
        crate::model::strs_view(r@).to_multiset() == crate::model::strs_view(names@).to_multiset(),
{
    let ghost input = crate::model::strs_view(names@);
    let mut out: Vec<String> = Vec::new();
    let mut i: usize = 0;
    assert(input.take(0) =~= Seq::<Seq<char>>::empty());
    assert(crate::model::strs_view(out@) =~= Seq::<Seq<char>>::empty());
    while i < names.len()
        invariant
            i <= names@.len(),
            input == crate::model::strs_view(names@),
            names_sorted(crate::model::strs_view(out@)),
            crate::model::strs_view(out@).to_multiset() == input.take(i as int).to_multiset(),
        decreases names@.len() - i,
    {
        let x = names[i].clone();
        let mut j: usize = 0;
        while j < out.len()
            invariant
                j <= out@.len(),
                forall|k: int| 0 <= k < j ==> !seq_lt(x@, #[trigger] out@[k]@),
            ensures
                j <= out@.len(),
                forall|k: int| 0 <= k < j ==> !seq_lt(x@, #[trigger] out@[k]@),
                j < out@.len() ==> seq_lt(x@, out@[j as int]@),
            decreases out@.len() - j,
        {
            if str_lt(x.as_str(), out[j].as_str()) {
                break;
            }
            j += 1;
        }
        let ghost before = crate::model::strs_view(out@);
        proof {
            assert forall|a: int, b: int|
                0 <= a < b < before.len() + 1 implies !seq_lt(
                before.insert(j as int, x@)[b],
                before.insert(j as int, x@)[a],
            ) by {
                let s = before.insert(j as int, x@);
                if a < j && b == j {
                    assert(s[a] == out@[a]@);
                } else if a == j && b > j {
                    assert(s[b] == out@[b - 1]@);
                    let e = out@[j as int]@;
                    lemma_seq_lt_asym(x@, e);
                    if b - 1 > j {
                        assert(!seq_lt(before[b - 1], before[j as int]));
                    }
                    if seq_lt(s[b], x@) {
                        lemma_seq_lt_trans(s[b], x@, e);
                    }
                } else if a < j && b > j {
                    assert(s[a] == before[a]);
                    assert(s[b] == before[b - 1]);
                } else if b < j {
                    assert(s[a] == before[a] && s[b] == before[b]);
                } else {
                    assert(s[a] == before[a - 1] && s[b] == before[b - 1]);
                }
            }
        }
        out.insert(j, x);
        assert(crate::model::strs_view(out@) =~= before.insert(j as int, names@[i as int]@));
        assert(input.take(i + 1) =~= input.take(i as int).push(input[i as int]));
        i += 1;
    }
    assert(input.take(names@.len() as int) =~= input);
    out
}


/// Sorting leaves no choice: two lists in lexicographic order that hold the
/// same names, each as often, are the same list.
pub proof fn law_name_order_is_canonical(s: Seq<Seq<char>>, t: Seq<Seq<char>>)
    requires
        names_sorted(s),
        names_sorted(t),
        s.to_multiset() == t.to_multiset(),
    ensures
        s == t,
    decreases s.len(),
{
    vstd::seq_lib::to_multiset_len(s);
    vstd::seq_lib::to_multiset_len(t);
    if s.len() == 0 {
        assert(s =~= t);
    } else {
        vstd::seq_lib::to_multiset_contains(t, s[0]);
        vstd::seq_lib::to_multiset_contains(s, t[0]);
        assert(s.contains(s[0]));
        assert(t.contains(t[0]));
        let j = choose|j: int| 0 <= j < t.len() && t[j] == s[0];
        let k = choose|k: int| 0 <= k < s.len() && s[k] == t[0];
        lemma_seq_lt_asym(s[0], s[0]);
        lemma_seq_lt_asym(t[0], t[0]);
        if j > 0 {
            assert(!seq_lt(t[j], t[0]));
        }
        if k > 0 {
            assert(!seq_lt(s[k], s[0]));
        }
        lemma_seq_lt_total(s[0], t[0]);
        vstd::seq_lib::to_multiset_remove(s, 0);
        vstd::seq_lib::to_multiset_remove(t, 0);
        assert(s.remove(0) =~= s.drop_first());
        assert(t.remove(0) =~= t.drop_first());
        assert(names_sorted(s.drop_first())) by {
            assert forall|a: int, b: int| 0 <= a < b < s.drop_first().len() implies !seq_lt(
                s.drop_first()[b],
                s.drop_first()[a],
            ) by {
                assert(s.drop_first()[a] == s[a + 1] && s.drop_first()[b] == s[b + 1]);
            }
        }
        assert(names_sorted(t.drop_first())) by {
            assert forall|a: int, b: int| 0 <= a < b < t.drop_first().len() implies !seq_lt(
                t.drop_first()[b],
                t.drop_first()[a],
            ) by {
                assert(t.drop_first()[a] == t[a + 1] && t.drop_first()[b] == t[b + 1]);
            }
        }
        law_name_order_is_canonical(s.drop_first(), t.drop_first());
        assert(s =~= t) by {
            assert forall|i: int| 0 <= i < s.len() implies s[i] == t[i] by {
                if i > 0 {
                    assert(s[i] == s.drop_first()[i - 1]);
                    assert(t[i] == t.drop_first()[i - 1]);
                }
            }
        }
    }
}

} // verus!
