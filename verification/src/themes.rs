//! The theme list of the theme picker: hidden defaults left out, the known
//! themes in a fixed order (dark families first), others after them by name.

use vstd::prelude::*;
use vstd::seq_lib::group_to_multiset_ensures;
use crate::model::strs_view;
use crate::order::{chars_lt, lemma_seq_lt_asym, lemma_seq_lt_total, lemma_seq_lt_trans, seq_lt, str_lt};
use crate::text::{owned, str_eq};

verus! {

broadcast use group_to_multiset_ensures;

/// Number of themes in the fixed order.
pub const THEME_COUNT: usize = 11;

/// The theme at position `i` of the fixed order.
pub open spec fn theme_order_spec(i: int) -> Seq<char> {
    if i == 0 {
        "Ayu Dark"@
    } else if i == 1 {
        "Ayu Mirage"@
    } else if i == 2 {
        "Gruvbox Dark"@
    } else if i == 3 {
        "Gruvbox Dark Hard"@
    } else if i == 4 {
        "Gruvbox Dark Soft"@
    } else if i == 5 {
        "One Dark"@
    } else if i == 6 {
        "Ayu Light"@
    } else if i == 7 {
        "Gruvbox Light"@
    } else if i == 8 {
        "Gruvbox Light Hard"@
    } else if i == 9 {
        "Gruvbox Light Soft"@
    } else {
        "One Light"@
    }
}

/// The theme at position `i` of the fixed order.
pub fn theme_order_at(i: usize) -> (r: &'static str)
    requires
        i < THEME_COUNT,
    ensures
        r@ == theme_order_spec(i as int),
{
    if i == 0 {
        "Ayu Dark"
    } else if i == 1 {
        "Ayu Mirage"
    } else if i == 2 {
        "Gruvbox Dark"
    } else if i == 3 {
        "Gruvbox Dark Hard"
    } else if i == 4 {
        "Gruvbox Dark Soft"
    } else if i == 5 {
        "One Dark"
    } else if i == 6 {
        "Ayu Light"
    } else if i == 7 {
        "Gruvbox Light"
    } else if i == 8 {
        "Gruvbox Light Hard"
    } else if i == 9 {
        "Gruvbox Light Soft"
    } else {
        "One Light"
    }
}

/// Position of `name` in the fixed order from `i` on, or the count.
pub open spec fn rank_from(name: Seq<char>, i: int) -> int
    decreases 11 - i,
{
    if i >= 11 {
        11
    } else if theme_order_spec(i) == name {
        i
    } else {
        rank_from(name, i + 1)
    }
}

/// The sort key of a theme: its position in the fixed order with an empty
/// name, or the count with its own name for a theme the order does not list.
pub open spec fn theme_key(name: Seq<char>) -> (int, Seq<char>) {
    let r = rank_from(name, 0);
    (r, if r < 11 { Seq::empty() } else { name })
}

/// Key `a` sorts strictly before key `b`.
pub open spec fn key_lt(a: (int, Seq<char>), b: (int, Seq<char>)) -> bool {
    a.0 < b.0 || (a.0 == b.0 && seq_lt(a.1, b.1))
}

/// The names are in theme order.
pub open spec fn themes_sorted(s: Seq<Seq<char>>) -> bool {
    forall|a: int, b: int| 0 <= a < b < s.len() ==> !key_lt(theme_key(s[b]), theme_key(s[a]))
}

/// The sort key of a theme.
pub fn theme_sort_key(name: &str) -> (r: (usize, String))
    ensures
        r.0 as int == theme_key(name@).0,
        r.1@ == theme_key(name@).1,
{
    let mut i: usize = 0;
    while i < THEME_COUNT
        invariant
            i <= 11,
            rank_from(name@, i as int) == rank_from(name@, 0),
        decreases 11 - i,
    {
        if str_eq(theme_order_at(i), name) {
            return (i, String::new());
        }
        i += 1;
    }
    (THEME_COUNT, owned(name))
}

/// Key order is asymmetric and transitive.
proof fn lemma_key_order(a: (int, Seq<char>), b: (int, Seq<char>), c: (int, Seq<char>))
    ensures
        key_lt(a, b) ==> !key_lt(b, a),
        key_lt(a, b) && key_lt(b, c) ==> key_lt(a, c),
{
    lemma_seq_lt_asym(a.1, b.1);
    if key_lt(a, b) && key_lt(b, c) && a.0 == b.0 && b.0 == c.0 {
        lemma_seq_lt_trans(a.1, b.1, c.1);
    }
}

/// Whether key `a` sorts strictly before key `b`.
fn key_less(a: &(usize, String), b: &(usize, String)) -> (r: bool)
    ensures
        r == key_lt((a.0 as int, a.1@), (b.0 as int, b.1@)),
{
    a.0 < b.0 || (a.0 == b.0 && str_lt(a.1.as_str(), b.1.as_str()))
}

/// The names sorted into theme order.
pub fn sort_themes(names: Vec<String>) -> (r: Vec<String>)
    ensures
        themes_sorted(strs_view(r@)),
        strs_view(r@).to_multiset() == strs_view(names@).to_multiset(),
{
    let ghost input = strs_view(names@);
    let mut out: Vec<String> = Vec::new();
    let mut keys: Vec<(usize, String)> = Vec::new();
    let mut i: usize = 0;
    assert(input.take(0) =~= Seq::<Seq<char>>::empty());
    assert(strs_view(out@) =~= Seq::<Seq<char>>::empty());
    while i < names.len()
        invariant
            i <= names@.len(),
            input == strs_view(names@),
            keys@.len() == out@.len(),
            forall|k: int| 0 <= k < out@.len() ==> (#[trigger] keys@[k]).0 as int == theme_key(out@[k]@).0
                && keys@[k].1@ == theme_key(out@[k]@).1,
            themes_sorted(strs_view(out@)),
            strs_view(out@).to_multiset() == input.take(i as int).to_multiset(),
        decreases names@.len() - i,
    {
        let x = names[i].clone();
        let kx = theme_sort_key(x.as_str());
        // first position whose key is greater than x's
        let mut j: usize = 0;
        while j < out.len()
            invariant
                j <= out@.len(),
                keys@.len() == out@.len(),
                forall|k: int| 0 <= k < out@.len() ==> (#[trigger] keys@[k]).0 as int == theme_key(out@[k]@).0
                    && keys@[k].1@ == theme_key(out@[k]@).1,
                kx.0 as int == theme_key(x@).0 && kx.1@ == theme_key(x@).1,
                forall|k: int| 0 <= k < j ==> !key_lt(theme_key(x@), theme_key(#[trigger] out@[k]@)),
            ensures
                j <= out@.len(),
                forall|k: int| 0 <= k < j ==> !key_lt(theme_key(x@), theme_key(#[trigger] out@[k]@)),
                j < out@.len() ==> key_lt(theme_key(x@), theme_key(out@[j as int]@)),
            decreases out@.len() - j,
        {
            if key_less(&kx, &keys[j]) {
                break;
            }
            j += 1;
        }
        let ghost before = strs_view(out@);
        proof {
            assert forall|a: int, b: int|
                0 <= a < b < before.len() + 1 implies !key_lt(
                theme_key(before.insert(j as int, x@)[b]),
                theme_key(before.insert(j as int, x@)[a]),
            ) by {
                let s = before.insert(j as int, x@);
                let ka = theme_key(s[a]);
                let kb = theme_key(s[b]);
                if a < j && b == j {
                    assert(s[a] == out@[a]@);
                    lemma_key_order(theme_key(x@), ka, ka);
                } else if a == j && b > j {
                    assert(s[b] == out@[b - 1]@);
                    if j < out@.len() {
                        assert(key_lt(theme_key(x@), theme_key(out@[j as int]@)));
                        if b - 1 > j {
                            assert(!key_lt(theme_key(before[b - 1]), theme_key(before[j as int])));
                        }
                        lemma_key_order(kb, theme_key(x@), theme_key(out@[j as int]@));
                        lemma_key_order(theme_key(x@), kb, theme_key(out@[j as int]@));
                        lemma_key_order(kb, theme_key(out@[j as int]@), theme_key(x@));
                    }
                } else if a < j && b > j {
                    assert(s[a] == before[a]);
                    assert(s[b] == before[b - 1]);
                } else if b < j {
                    assert(s[a] == before[a] && s[b] == before[b]);
                } else {
                    assert(s[a] == before[a - 1] && s[b] == before[b - 1]);
                }
            }
        }
        out.insert(j, x);
        keys.insert(j, kx);
        assert(strs_view(out@) =~= before.insert(j as int, names@[i as int]@));
        assert(input.take(i + 1) =~= input.take(i as int).push(input[i as int]));
        i += 1;
    }
    assert(input.take(names@.len() as int) =~= input);
    out
}

/// A rank below the count is the position of the name in the fixed order.
proof fn lemma_rank_from(name: Seq<char>, i: int)
    requires
        0 <= i <= 11,
    ensures
        i <= rank_from(name, i) <= 11,
        rank_from(name, i) < 11 ==> theme_order_spec(rank_from(name, i)) == name,
    decreases 11 - i,
{
    if i < 11 && theme_order_spec(i) != name {
        lemma_rank_from(name, i + 1);
    }
}

/// Different names have different sort keys.
proof fn lemma_theme_key_injective(a: Seq<char>, b: Seq<char>)
    requires
        theme_key(a) == theme_key(b),
    ensures
        a == b,
{
    lemma_rank_from(a, 0);
    lemma_rank_from(b, 0);
}

/// Two names whose keys neither sort before the other are the same name.
proof fn lemma_same_place(a: Seq<char>, b: Seq<char>)
    requires
        !key_lt(theme_key(a), theme_key(b)),
        !key_lt(theme_key(b), theme_key(a)),
    ensures
        a == b,
{
    lemma_seq_lt_total(theme_key(a).1, theme_key(b).1);
    lemma_theme_key_injective(a, b);
}

/// The theme order leaves no choice: two lists in theme order that hold
/// the same names, each as often, are the same list. So the picker shows
/// the themes in one order whatever order the registry hands them out in.
pub proof fn law_theme_order_is_canonical(s: Seq<Seq<char>>, t: Seq<Seq<char>>)
    requires
        themes_sorted(s),
        themes_sorted(t),
        s.to_multiset() == t.to_multiset(),
    ensures
        s == t,
    decreases s.len(),
{
    vstd::seq_lib::to_multiset_len(s);
    vstd::seq_lib::to_multiset_len(t);
    if s.len() == 0 {
        assert(s =~= t);
    } else {
        vstd::seq_lib::to_multiset_contains(t, s[0]);
        vstd::seq_lib::to_multiset_contains(s, t[0]);
        assert(s.contains(s[0]));
        assert(t.contains(t[0]));
        let j = choose|j: int| 0 <= j < t.len() && t[j] == s[0];
        let k = choose|k: int| 0 <= k < s.len() && s[k] == t[0];
        lemma_seq_lt_asym(theme_key(s[0]).1, theme_key(s[0]).1);
        lemma_seq_lt_asym(theme_key(t[0]).1, theme_key(t[0]).1);
        if j > 0 {
            assert(!key_lt(theme_key(t[j]), theme_key(t[0])));
        }
        if k > 0 {
            assert(!key_lt(theme_key(s[k]), theme_key(s[0])));
        }
        lemma_same_place(s[0], t[0]);
        vstd::seq_lib::to_multiset_remove(s, 0);
        vstd::seq_lib::to_multiset_remove(t, 0);
        assert(s.remove(0) =~= s.drop_first());
        assert(t.remove(0) =~= t.drop_first());
        assert(themes_sorted(s.drop_first())) by {
            assert forall|a: int, b: int| 0 <= a < b < s.drop_first().len() implies !key_lt(
                theme_key(s.drop_first()[b]),
                theme_key(s.drop_first()[a]),
            ) by {
                assert(s.drop_first()[a] == s[a + 1] && s.drop_first()[b] == s[b + 1]);
            }
        }
        assert(themes_sorted(t.drop_first())) by {
            assert forall|a: int, b: int| 0 <= a < b < t.drop_first().len() implies !key_lt(
                theme_key(t.drop_first()[b]),
                theme_key(t.drop_first()[a]),
            ) by {
                assert(t.drop_first()[a] == t[a + 1] && t.drop_first()[b] == t[b + 1]);
            }
        }
        law_theme_order_is_canonical(s.drop_first(), t.drop_first());
        assert(s =~= t) by {
            assert forall|i: int| 0 <= i < s.len() implies s[i] == t[i] by {
                if i > 0 {
                    assert(s[i] == s.drop_first()[i - 1]);
                    assert(t[i] == t.drop_first()[i - 1]);
                }
            }
        }
    }
}

/// The two built-in default themes, which the picker does not list.
pub open spec fn hidden_theme(name: Seq<char>) -> bool {
    name == "Default Dark"@ || name == "Default Light"@
}

/// The themes the picker lists, in theme order, each with itself as value:
/// every registered theme but the defaults.
pub fn get_themes(registered: Vec<String>) -> (r: Vec<(String, String)>)
    ensures
        r@.len() == registered@.filter(|n: String| !hidden_theme(n@)).len(),
        forall|i: int| 0 <= i < r@.len() ==> #[trigger] r@[i].0@ == r@[i].1@,
        themes_sorted(r@.map_values(|p: (String, String)| p.0@)),
        r@.map_values(|p: (String, String)| p.0@).to_multiset() == strs_view(
            registered@.filter(|n: String| !hidden_theme(n@)),
        ).to_multiset(),
{
    let ghost pred = |n: String| !hidden_theme(n@);
    let mut kept: Vec<String> = Vec::new();
    let mut i: usize = 0;
    assert(registered@.take(0).filter(pred) =~= Seq::<String>::empty());
    while i < registered.len()
        invariant
            i <= registered@.len(),
            pred == (|n: String| !hidden_theme(n@)),
            kept@ == registered@.take(i as int).filter(pred),
        decreases registered@.len() - i,
    {
        proof {
            reveal(Seq::filter);
        }
        assert(registered@.take(i + 1).drop_last() =~= registered@.take(i as int));
        let name = &registered[i];
        if !(str_eq(name.as_str(), "Default Dark") || str_eq(name.as_str(), "Default Light")) {
            kept.push(name.clone());
        }
        assert(kept@ =~= registered@.take(i + 1).filter(pred));
        i += 1;
    }
    assert(registered@.take(registered@.len() as int) =~= registered@);
    let sorted = sort_themes(kept);
    let mut r: Vec<(String, String)> = Vec::new();
    let mut k: usize = 0;
    while k < sorted.len()
        invariant
            k <= sorted@.len(),
            r@.len() == k,
            forall|m: int| 0 <= m < k ==> (#[trigger] r@[m]).0@ == sorted@[m]@ && r@[m].1@ == sorted@[m]@,
        decreases sorted@.len() - k,
    {
        r.push((sorted[k].clone(), sorted[k].clone()));
        k += 1;
    }
    assert(r@.map_values(|p: (String, String)| p.0@) =~= strs_view(sorted@));
    proof {
        vstd::seq_lib::to_multiset_len(strs_view(sorted@));
        vstd::seq_lib::to_multiset_len(strs_view(kept@));
    }
    r
}

/// The picker's rows: each theme with a check mark on the committed one.
pub fn theme_items(themes: &Vec<String>, committed: &str) -> (r: Vec<(String, bool)>)
    ensures
        r@.len() == themes@.len(),
        forall|i: int| 0 <= i < r@.len() ==> #[trigger] r@[i].0@ == themes@[i]@ && r@[i].1 == (themes@[i]@ == committed@),
{
    let mut r: Vec<(String, bool)> = Vec::new();
    let mut i: usize = 0;
    while i < themes.len()
        invariant
            i <= themes@.len(),
            r@.len() == i,
            forall|m: int| 0 <= m < i ==> (#[trigger] r@[m]).0@ == themes@[m]@ && r@[m].1 == (themes@[m]@ == committed@),
        decreases themes@.len() - i,
    {
        r.push((themes[i].clone(), str_eq(themes[i].as_str(), committed)));
        i += 1;
    }
    r
}

/// Guards theme previews in the picker: the first selection after the
/// query text changes is only recorded; later ones preview the theme.
#[derive(Clone, Debug)]
pub struct PreviewGuard {
    pub query: String,
    pub index: Option<usize>,
}

impl PreviewGuard {
    /// No query seen yet.
    pub fn new() -> (r: Self)
        ensures
            r.query@.len() == 0,
            r.index is None,
    {
        PreviewGuard { query: String::new(), index: None }
    }

    /// Records a selection of `row` under `query`; returns whether the
    /// selected theme is previewed.
    pub fn on_select(&mut self, query: &str, row: usize) -> (preview: bool)
        ensures
            final(self).query@ == query@,
            preview == (old(self).query@ == query@),
            preview ==> final(self).index == Some(row),
            !preview ==> final(self).index is None,
    {
        if !str_eq(self.query.as_str(), query) {
            self.query = owned(query);
            self.index = None;
            return false;
        }
        self.index = Some(row);
        true
    }
}

/// The theme in a row of the picker, if the row exists.
pub fn theme_at(themes: &Vec<String>, row: usize) -> (r: Option<String>)
    ensures
        match r {
            Some(t) => row < themes@.len() && t@ == themes@[row as int]@,
            None => row >= themes@.len(),
        },
{
    if row < themes.len() {
        Some(themes[row].clone())
    } else {
        None
    }
}

} // verus!
