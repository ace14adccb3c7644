//! The searchable list of workspaces in the title bar.

use vstd::prelude::*;
use crate::model::strs_view;
use crate::order::{names_sorted, sort_names};
use crate::text::{chars_of, to_lowercase, unicode_lower};

verus! {

/// `p` occurs in `s` at position `i`.
pub open spec fn occurs_at(s: Seq<char>, p: Seq<char>, i: int) -> bool {
    0 <= i && i + p.len() <= s.len() && s.subrange(i, i + p.len()) == p
}

/// `p` occurs somewhere in `s`.
pub open spec fn contains_seq(s: Seq<char>, p: Seq<char>) -> bool {
    exists|i: int| occurs_at(s, p, i)
}

/// Whether `p` occurs in `s`.
pub fn contains_chars(s: &[char], p: &[char]) -> (r: bool)
    ensures
        r == contains_seq(s@, p@),
{
    if p.len() > s.len() {
        assert forall|i: int| !occurs_at(s@, p@, i) by {}
        return false;
    }
    let mut i: usize = 0;
    while i <= s.len() - p.len()
        invariant
            p@.len() <= s@.len(),
            i <= s@.len() - p@.len() + 1,
            forall|k: int| 0 <= k < i ==> !#[trigger] occurs_at(s@, p@, k),
        decreases s@.len() - p@.len() + 1 - i,
    {
        let mut j: usize = 0;
        let mut same = true;
        while j < p.len()
            invariant
                j <= p@.len(),
                i + p@.len() <= s@.len(),
                same <==> forall|m: int| 0 <= m < j ==> s@[i + m] == p@[m],
            decreases p@.len() - j,
        {
            assert(i + j < s@.len());
            assert(s@.len() == s.len());
            let idx: usize = i + j;
            if s[idx] != p[j] {
                same = false;
            }
            j += 1;
        }
        if same {
            assert(s@.subrange(i as int, i + p@.len()) =~= p@);
            assert(occurs_at(s@, p@, i as int));
            return true;
        }
        assert(!occurs_at(s@, p@, i as int)) by {
            if occurs_at(s@, p@, i as int) {
                assert forall|m: int| 0 <= m < p@.len() implies s@[i + m] == p@[m] by {
                    assert(s@.subrange(i as int, i + p@.len())[m] == s@[i + m]);
                }
            }
        }
        i += 1;
    }
    assert forall|k: int| !occurs_at(s@, p@, k) by {
        if occurs_at(s@, p@, k) {
            assert(0 <= k < i);
        }
    }
    false
}

/// A workspace name matches a search: the query is empty, or the names
/// lowered contain it lowered.
pub open spec fn matches_query(name: Seq<char>, query: Seq<char>) -> bool {
    unicode_lower(query).len() == 0 || contains_seq(unicode_lower(name), unicode_lower(query))
}

/// The names that match a search, in their order.
pub open spec fn matching(names: Seq<Seq<char>>, query: Seq<char>) -> Seq<Seq<char>> {
    names.filter(|n: Seq<char>| matches_query(n, query))
}

/// The workspace names that match a search, in their order.
pub fn filtered_names(names: &Vec<String>, query: &str) -> (r: Vec<String>)
    ensures
        crate::model::strs_view(r@) == matching(crate::model::strs_view(names@), query@),
{
    let q = to_lowercase(query);
    let qc = chars_of(q.as_str());
    let ghost views = crate::model::strs_view(names@);
    let mut r: Vec<String> = Vec::new();
    let mut i: usize = 0;
    proof {
        reveal(Seq::filter);
    }
    assert(matching(views.take(0), query@) =~= Seq::<Seq<char>>::empty());
    assert(crate::model::strs_view(r@) =~= Seq::<Seq<char>>::empty());
    while i < names.len()
        invariant
            i <= names@.len(),
            views == crate::model::strs_view(names@),
            qc@ == unicode_lower(query@),
            crate::model::strs_view(r@) == matching(views.take(i as int), query@),
        decreases names@.len() - i,
    {
        proof {
            reveal(Seq::filter);
        }
        assert(views.take(i + 1).drop_last() =~= views.take(i as int));
        assert(views.take(i + 1).last() == names@[i as int]@);
        let lowered = to_lowercase(names[i].as_str());
        let lc = chars_of(lowered.as_str());
        let keep = qc.len() == 0 || contains_chars(lc.as_slice(), qc.as_slice());
        let ghost before = crate::model::strs_view(r@);
        if keep {
            r.push(names[i].clone());
            assert(crate::model::strs_view(r@) =~= before.push(names@[i as int]@));
        }
        assert(crate::model::strs_view(r@) =~= matching(views.take(i + 1), query@));
        i += 1;
    }
    assert(views.take(names@.len() as int) =~= views);
    r
}

/// Rows of the workspace list: the matching names and two fixed rows.
pub fn items_count(names: &Vec<String>, query: &str) -> (r: usize)
    requires
        names@.len() < usize::MAX - 2,
    ensures
        r == matching(crate::model::strs_view(names@), query@).len() + 2,
{
    let f = filtered_names(names, query);
    proof {
        crate::model::strs_view(names@).lemma_filter_len(|n: Seq<char>| matches_query(n, query@));
    }
    assert(f@.len() == crate::model::strs_view(f@).len());
    f.len() + 2
}


/// A directory name that the workspace list hides: one starting with `.`.
pub open spec fn hidden_dir(name: Seq<char>) -> bool {
    name.len() > 0 && name[0] == '.'
}

/// The workspaces to list from the names of the directories in the
/// application directory: the hidden ones left out, the rest sorted by name.
pub fn visible_workspace_dirs(names: Vec<String>) -> (r: Vec<String>)
    ensures
        names_sorted(strs_view(r@)),
        strs_view(r@).to_multiset() == strs_view(names@.filter(|n: String| !hidden_dir(n@))).to_multiset(),
{
    let ghost pred = |n: String| !hidden_dir(n@);
    let mut kept: Vec<String> = Vec::new();
    let mut i: usize = 0;
    assert(names@.take(0).filter(pred) =~= Seq::<String>::empty());
    while i < names.len()
        invariant
            i <= names@.len(),
            pred == (|n: String| !hidden_dir(n@)),
            kept@ == names@.take(i as int).filter(pred),
        decreases names@.len() - i,
    {
        proof {
            reveal(Seq::filter);
        }
        assert(names@.take(i + 1).drop_last() =~= names@.take(i as int));
        let cs = chars_of(names[i].as_str());
        if !(cs.len() > 0 && cs[0] == '.') {
            kept.push(names[i].clone());
        }
        assert(kept@ =~= names@.take(i + 1).filter(pred));
        i += 1;
    }
    assert(names@.take(names@.len() as int) =~= names@);
    sort_names(kept)
}

} // verus!
