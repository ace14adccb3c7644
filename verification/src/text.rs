//! Character-level string helpers with their specifications.
//!
//! Strings are handled as sequences of `char`: the view of a `str` or a
//! `String` is its `Seq<char>`, and the executable helpers work on `Vec<char>`.

use vstd::prelude::*;

verus! {

/// Unicode `White_Space` property, the set that `char::is_whitespace` tests.
pub open spec fn is_ws(c: char) -> bool {
    let u = c as u32;
    ||| 0x09 <= u <= 0x0D
    ||| u == 0x20
    ||| u == 0x85
    ||| u == 0xA0
    ||| u == 0x1680
    ||| 0x2000 <= u <= 0x200A
    ||| u == 0x2028
    ||| u == 0x2029
    ||| u == 0x202F
    ||| u == 0x205F
    ||| u == 0x3000
}

/// `s` with its leading whitespace removed.
pub open spec fn trim_start_seq(s: Seq<char>) -> Seq<char>
    decreases s.len(),
{
    if s.len() > 0 && is_ws(s[0]) {
        trim_start_seq(s.drop_first())
    } else {
        s
    }
}

/// `s` with its trailing whitespace removed.
pub open spec fn trim_end_seq(s: Seq<char>) -> Seq<char>
    decreases s.len(),
{
    if s.len() > 0 && is_ws(s.last()) {
        trim_end_seq(s.drop_last())
    } else {
        s
    }
}

/// `s` with leading and trailing whitespace removed.
pub open spec fn trim_seq(s: Seq<char>) -> Seq<char> {
    trim_end_seq(trim_start_seq(s))
}

/// `p` is a prefix of `s`.
pub open spec fn starts_with_seq(s: Seq<char>, p: Seq<char>) -> bool {
    p.len() <= s.len() && s.subrange(0, p.len() as int) == p
}

/// Index of the first occurrence of `c` in `s`, or -1.
pub open spec fn find_char(s: Seq<char>, c: char) -> int
    decreases s.len(),
{
    if s.len() == 0 {
        -1
    } else if s[0] == c {
        0
    } else {
        let r = find_char(s.drop_first(), c);
        if r < 0 {
            -1
        } else {
            r + 1
        }
    }
}

/// Splits `s` at the first `c`: the part before it and the part after it.
pub open spec fn split_once_seq(s: Seq<char>, c: char) -> Option<(Seq<char>, Seq<char>)> {
    let i = find_char(s, c);
    if i < 0 {
        None
    } else {
        Some((s.take(i), s.skip(i + 1)))
    }
}

/// All pieces of `s` between occurrences of `c`, as `str::split` gives them.
pub open spec fn split_seq(s: Seq<char>, c: char) -> Seq<Seq<char>>
    decreases s.len(),
{
    let i = find_char(s, c);
    if i < 0 {
        seq![s]
    } else {
        proof {
            lemma_find_char(s, c);
        }
        seq![s.take(i)] + split_seq(s.skip(i + 1), c)
    }
}

/// The pieces joined with `sep` between neighbours.
pub open spec fn join_seq(parts: Seq<Seq<char>>, sep: Seq<char>) -> Seq<char>
    decreases parts.len(),
{
    if parts.len() == 0 {
        Seq::empty()
    } else if parts.len() == 1 {
        parts[0]
    } else {
        join_seq(parts.drop_last(), sep) + sep + parts.last()
    }
}

/// ASCII uppercase of one character; other characters are kept.
pub open spec fn ascii_upper(c: char) -> char {
    if 'a' <= c <= 'z' {
        ((c as u32) - 32) as char
    } else {
        c
    }
}

/// Every character is ASCII.
pub open spec fn all_ascii(s: Seq<char>) -> bool {
    forall|i: int| 0 <= i < s.len() ==> (s[i] as u32) < 128
}

/// ASCII lowercase of one character; other characters are kept.
pub open spec fn ascii_lower(c: char) -> char {
    if 'A' <= c <= 'Z' {
        ((c as u32) + 32) as char
    } else {
        c
    }
}

/// Equality of two strings up to ASCII case.
pub open spec fn eq_ignore_case_seq(a: Seq<char>, b: Seq<char>) -> bool {
    a.len() == b.len() && forall|i: int| 0 <= i < a.len() ==> ascii_lower(a[i]) == ascii_lower(b[i])
}

/// Every non-overlapping occurrence of `pat`, scanning left to right, replaced by `rep`.
pub open spec fn replace_seq(s: Seq<char>, pat: Seq<char>, rep: Seq<char>) -> Seq<char>
    decreases s.len(),
{
    if pat.len() == 0 || s.len() < pat.len() {
        s
    } else if s.take(pat.len() as int) == pat {
        rep + replace_seq(s.skip(pat.len() as int), pat, rep)
    } else {
        seq![s[0]] + replace_seq(s.drop_first(), pat, rep)
    }
}

/// What `find_char` gives: the first occurrence, or -1 when there is none.
pub proof fn lemma_find_char(s: Seq<char>, c: char)
    ensures
        -1 <= find_char(s, c) < s.len(),
        find_char(s, c) >= 0 ==> s[find_char(s, c)] == c,
        forall|j: int| 0 <= j < find_char(s, c) ==> s[j] != c,
        find_char(s, c) < 0 ==> forall|j: int| 0 <= j < s.len() ==> s[j] != c,
    decreases s.len(),
{
    if s.len() > 0 && s[0] != c {
        lemma_find_char(s.drop_first(), c);
        assert forall|j: int| 0 <= j < find_char(s, c) implies s[j] != c by {
            if j > 0 {
                assert(s[j] == s.drop_first()[j - 1]);
            }
        }
        if find_char(s, c) < 0 {
            assert forall|j: int| 0 <= j < s.len() implies s[j] != c by {
                if j > 0 {
                    assert(s[j] == s.drop_first()[j - 1]);
                }
            }
        }
    }
}

/// The first occurrence is the only index with these properties.
pub proof fn lemma_find_char_unique(s: Seq<char>, c: char, i: int)
    requires
        0 <= i < s.len(),
        s[i] == c,
        forall|j: int| 0 <= j < i ==> s[j] != c,
    ensures
        find_char(s, c) == i,
{
    lemma_find_char(s, c);
}

/// `find_char` finds nothing exactly when `c` does not occur.
pub proof fn lemma_find_char_absent(s: Seq<char>, c: char)
    requires
        forall|j: int| 0 <= j < s.len() ==> s[j] != c,
    ensures
        find_char(s, c) == -1,
{
    lemma_find_char(s, c);
}

/// Whitespace test on one character.
pub fn is_whitespace(c: char) -> (r: bool)
    ensures
        r == is_ws(c),
{
    let u = c as u32;
    (0x09 <= u && u <= 0x0D) || u == 0x20 || u == 0x85 || u == 0xA0 || u == 0x1680 || (0x2000
        <= u && u <= 0x200A) || u == 0x2028 || u == 0x2029 || u == 0x202F || u == 0x205F || u
        == 0x3000
}

/// The characters of a string slice, in order.
pub fn chars_of(s: &str) -> (v: Vec<char>)
    ensures
        v@ == s@,
{
    let mut v: Vec<char> = Vec::new();
    for c in it: s.chars()
        invariant
            v@ == it.seq().take(it.index() as int),
    {
        v.push(c);
    }
    v
}

/// Builds a `String` from a sequence of characters (std's `FromIterator<&char>`).
#[verifier::external_body]
pub(crate) fn string_of(v: &[char]) -> (s: String)
    ensures
        s@ == v@,
{
    v.iter().collect()
}

/// A copy of `v[from..to]`.
pub fn slice_chars(v: &[char], from: usize, to: usize) -> (r: Vec<char>)
    requires
        from <= to <= v@.len(),
    ensures
        r@ == v@.subrange(from as int, to as int),
{
    let mut r: Vec<char> = Vec::new();
    let mut i = from;
    while i < to
        invariant
            from <= i <= to <= v@.len(),
            r@ == v@.subrange(from as int, i as int),
        decreases to - i,
    {
        r.push(v[i]);
        i += 1;
    }
    r
}

/// Appends all of `b` to `a`.
pub fn push_all(a: &mut Vec<char>, b: &[char])
    ensures
        final(a)@ == old(a)@ + b@,
{
    let mut i: usize = 0;
    while i < b.len()
        invariant
            i <= b@.len(),
            a@ == old(a)@ + b@.take(i as int),
        decreases b@.len() - i,
    {
        a.push(b[i]);
        i += 1;
        assert(b@.take(i as int) == b@.take((i - 1) as int).push(b@[i - 1]));
    }
    assert(b@.take(b@.len() as int) == b@);
}

/// Appends the characters of `s` to `a`.
pub fn push_str(a: &mut Vec<char>, s: &str)
    ensures
        final(a)@ == old(a)@ + s@,
{
    let cs = chars_of(s);
    push_all(a, cs.as_slice());
}

/// Index of the first whitespace-free position from the start.
fn trim_start_index(v: &[char]) -> (i: usize)
    ensures
        i <= v@.len(),
        trim_start_seq(v@) == v@.skip(i as int),
{
    let mut i: usize = 0;
    assert(v@.skip(0) == v@);
    while i < v.len() && is_whitespace(v[i])
        invariant
            i <= v@.len(),
            trim_start_seq(v@) == trim_start_seq(v@.skip(i as int)),
        decreases v@.len() - i,
    {
        assert(v@.skip(i as int).drop_first() == v@.skip(i + 1));
        i += 1;
    }
    i
}

/// End of the content left after removing trailing whitespace from `v[..to]`.
fn trim_end_index(v: &[char], to: usize) -> (j: usize)
    requires
        to <= v@.len(),
    ensures
        j <= to,
        trim_end_seq(v@.take(to as int)) == v@.take(j as int),
{
    let mut j: usize = to;
    while j > 0 && is_whitespace(v[j - 1])
        invariant
            j <= to <= v@.len(),
            trim_end_seq(v@.take(to as int)) == trim_end_seq(v@.take(j as int)),
        decreases j,
    {
        assert(v@.take(j as int).drop_last() == v@.take(j - 1));
        j -= 1;
    }
    j
}

/// `v` without leading whitespace.
pub fn trim_start(v: &[char]) -> (r: Vec<char>)
    ensures
        r@ == trim_start_seq(v@),
{
    let i = trim_start_index(v);
    let r = slice_chars(v, i, v.len());
    assert(v@.subrange(i as int, v@.len() as int) == v@.skip(i as int));
    r
}

/// `v` without leading or trailing whitespace.
pub fn trim(v: &[char]) -> (r: Vec<char>)
    ensures
        r@ == trim_seq(v@),
{
    let t = trim_start(v);
    let j = trim_end_index(t.as_slice(), t.len());
    assert(t@.take(t@.len() as int) == t@);
    let r = slice_chars(t.as_slice(), 0, j);
    assert(t@.subrange(0, j as int) == t@.take(j as int));
    r
}

/// Whether `v` starts with `p`.
pub fn starts_with(v: &[char], p: &[char]) -> (r: bool)
    ensures
        r == starts_with_seq(v@, p@),
{
    if p.len() > v.len() {
        return false;
    }
    let mut i: usize = 0;
    while i < p.len()
        invariant
            p@.len() <= v@.len(),
            i <= p@.len(),
            forall|j: int| 0 <= j < i ==> v@[j] == p@[j],
        decreases p@.len() - i,
    {
        if v[i] != p[i] {
            assert(v@.subrange(0, p@.len() as int)[i as int] != p@[i as int]);
            return false;
        }
        i += 1;
    }
    assert(v@.subrange(0, p@.len() as int) =~= p@);
    true
}

/// Whether `v` starts with the characters of `p`.
pub fn starts_with_str(v: &[char], p: &str) -> (r: bool)
    ensures
        r == starts_with_seq(v@, p@),
{
    let pc = chars_of(p);
    starts_with(v, pc.as_slice())
}

/// Index of the first `c` in `v`.
pub fn find(v: &[char], c: char) -> (r: Option<usize>)
    ensures
        match r {
            Some(i) => i < v@.len() && find_char(v@, c) == i,
            None => find_char(v@, c) == -1,
        },
{
    let mut i: usize = 0;
    while i < v.len()
        invariant
            i <= v@.len(),
            forall|j: int| 0 <= j < i ==> v@[j] != c,
        decreases v@.len() - i,
    {
        if v[i] == c {
            proof {
                lemma_find_char_unique(v@, c, i as int);
            }
            return Some(i);
        }
        i += 1;
    }
    proof {
        lemma_find_char_absent(v@, c);
    }
    None
}

/// Whether `c` occurs in `v`.
pub fn contains_char(v: &[char], c: char) -> (r: bool)
    ensures
        r == v@.contains(c),
{
    let f = find(v, c);
    proof {
        lemma_find_char(v@, c);
    }
    match f {
        Some(i) => {
            assert(v@[i as int] == c);
            true
        },
        None => false,
    }
}

/// Splits `v` at the first `c`.
pub fn split_once(v: &[char], c: char) -> (r: Option<(Vec<char>, Vec<char>)>)
    ensures
        match split_once_seq(v@, c) {
            Some((a, b)) => r matches Some((x, y)) && x@ == a && y@ == b,
            None => r is None,
        },
{
    match find(v, c) {
        Some(i) => {
            assert(i < v.len());
            let a = slice_chars(v, 0, i);
            let b = slice_chars(v, i + 1, v.len());
            assert(v@.subrange(0, i as int) == v@.take(i as int));
            assert(v@.subrange(i + 1, v@.len() as int) == v@.skip(i + 1));
            Some((a, b))
        },
        None => None,
    }
}

/// ASCII lowercase of one character.
pub fn to_ascii_lower(c: char) -> (r: char)
    ensures
        r == ascii_lower(c),
{
    if 'A' <= c && c <= 'Z' {
        let b = (c as u8) + 32;
        b as char
    } else {
        c
    }
}

/// Equality up to ASCII case.
pub fn eq_ignore_ascii_case(a: &[char], b: &[char]) -> (r: bool)
    ensures
        r == eq_ignore_case_seq(a@, b@),
{
    if a.len() != b.len() {
        return false;
    }
    let mut i: usize = 0;
    while i < a.len()
        invariant
            a@.len() == b@.len(),
            i <= a@.len(),
            forall|j: int| 0 <= j < i ==> ascii_lower(a@[j]) == ascii_lower(b@[j]),
        decreases a@.len() - i,
    {
        if to_ascii_lower(a[i]) != to_ascii_lower(b[i]) {
            return false;
        }
        i += 1;
    }
    true
}

/// Equality up to ASCII case with the characters of `b`.
pub fn eq_ignore_ascii_case_str(a: &[char], b: &str) -> (r: bool)
    ensures
        r == eq_ignore_case_seq(a@, b@),
{
    let bc = chars_of(b);
    eq_ignore_ascii_case(a, bc.as_slice())
}

/// Equality of two character sequences.
pub fn chars_eq(a: &[char], b: &[char]) -> (r: bool)
    ensures
        r == (a@ == b@),
{
    if a.len() != b.len() {
        return false;
    }
    let mut i: usize = 0;
    while i < a.len()
        invariant
            a@.len() == b@.len(),
            i <= a@.len(),
            forall|j: int| 0 <= j < i ==> a@[j] == b@[j],
        decreases a@.len() - i,
    {
        if a[i] != b[i] {
            return false;
        }
        i += 1;
    }
    assert(a@ =~= b@);
    true
}

/// Equality of the characters of `a` with those of `b`.
pub fn chars_eq_str(a: &[char], b: &str) -> (r: bool)
    ensures
        r == (a@ == b@),
{
    let bc = chars_of(b);
    chars_eq(a, bc.as_slice())
}

/// Equality of two strings.
pub fn str_eq(a: &str, b: &str) -> (r: bool)
    ensures
        r == (a@ == b@),
{
    let ac = chars_of(a);
    chars_eq_str(ac.as_slice(), b)
}

/// Replaces every non-overlapping occurrence of `pat` by `rep`, left to right.
pub fn replace_all(v: &[char], pat: &[char], rep: &[char]) -> (r: Vec<char>)
    ensures
        r@ == replace_seq(v@, pat@, rep@),
{
    if pat.len() == 0 {
        let mut r: Vec<char> = Vec::new();
        push_all(&mut r, v);
        return r;
    }
    let mut r: Vec<char> = Vec::new();
    let mut i: usize = 0;
    assert(v@.skip(0) == v@);
    while i < v.len()
        invariant
            pat@.len() > 0,
            i <= v@.len(),
            r@ + replace_seq(v@.skip(i as int), pat@, rep@) == replace_seq(v@, pat@, rep@),
        decreases v@.len() - i,
    {
        let ghost rest = v@.skip(i as int);
        if v.len() - i >= pat.len() {
            let tail = slice_chars(v, i, i + pat.len());
            assert(tail@ == rest.take(pat@.len() as int));
            if chars_eq(tail.as_slice(), pat) {
                assert(rest.skip(pat@.len() as int) == v@.skip(i + pat@.len()));
                assert(r@ + rep@ + replace_seq(v@.skip(i + pat@.len()), pat@, rep@) == r@
                    + replace_seq(rest, pat@, rep@));
                push_all(&mut r, rep);
                i += pat.len();
                continue;
            }
        }
        assert(rest.drop_first() == v@.skip(i + 1));
        assert(r@.push(v@[i as int]) + replace_seq(v@.skip(i + 1), pat@, rep@) == r@
            + replace_seq(rest, pat@, rep@));
        r.push(v[i]);
        i += 1;
    }
    assert(v@.skip(i as int).len() == 0);
    assert(r@ + v@.skip(i as int) == r@);
    r
}

} // verus!

verus! {

/// What `str::to_uppercase` returns for a string: its Unicode uppercase mapping.
pub uninterp spec fn unicode_upper(s: Seq<char>) -> Seq<char>;

/// What `str::to_lowercase` returns for a string: its Unicode lowercase mapping.
pub uninterp spec fn unicode_lower(s: Seq<char>) -> Seq<char>;

/// Calls `str::to_uppercase`. The contract names the result: it is
/// `unicode_upper` of the argument, a function of the argument alone. On
/// ASCII text, as the documentation of `str::to_uppercase` and
/// `char::to_uppercase` gives, each letter `a`..`z` becomes its capital and
/// every other character stays.
#[verifier::external_body]
pub(crate) fn to_uppercase(s: &str) -> (r: String)
    ensures
        r@ == unicode_upper(s@),
        all_ascii(s@) ==> r@ == s@.map_values(|c: char| ascii_upper(c)),
{
    s.to_uppercase()
}

/// Calls `str::to_lowercase`. The contract names the result: it is
/// `unicode_lower` of the argument, a function of the argument alone. On
/// ASCII text, as the documentation of `str::to_lowercase` and
/// `char::to_lowercase` gives, each letter `A`..`Z` becomes small and every
/// other character stays.
#[verifier::external_body]
pub(crate) fn to_lowercase(s: &str) -> (r: String)
    ensures
        r@ == unicode_lower(s@),
        all_ascii(s@) ==> r@ == s@.map_values(|c: char| ascii_lower(c)),
{
    s.to_lowercase()
}

} // verus!

verus! {

/// The views of a list of character vectors.
pub open spec fn vecs_view(v: Seq<Vec<char>>) -> Seq<Seq<char>> {
    v.map_values(|x: Vec<char>| x@)
}

/// An owned copy of a string slice.
pub fn owned(s: &str) -> (r: String)
    ensures
        r@ == s@,
{
    s.to_owned()
}

/// All pieces of `v` between occurrences of `c`.
pub fn split_all(v: &[char], c: char) -> (r: Vec<Vec<char>>)
    ensures
        vecs_view(r@) == split_seq(v@, c),
{
    let mut r: Vec<Vec<char>> = Vec::new();
    let mut start: usize = 0;
    assert(v@.skip(0) == v@);
    assert(vecs_view(r@) =~= Seq::<Seq<char>>::empty());
    loop
        invariant
            start <= v@.len(),
            vecs_view(r@) + split_seq(v@.skip(start as int), c) == split_seq(v@, c),
        decreases v@.len() - start,
    {
        let rest = slice_chars(v, start, v.len());
        assert(rest@ == v@.skip(start as int));
        match find(rest.as_slice(), c) {
            Some(j) => {
                proof {
                    lemma_find_char(rest@, c);
                }
                let piece = slice_chars(rest.as_slice(), 0, j);
                assert(piece@ == rest@.take(j as int));
                assert(rest@.skip(j + 1) == v@.skip(start + j + 1));
                let ghost before = r@;
                r.push(piece);
                assert(vecs_view(r@) =~= vecs_view(before).push(piece@));
                assert(split_seq(rest@, c) == seq![rest@.take(j as int)] + split_seq(
                    rest@.skip(j + 1),
                    c,
                ));
                assert(vecs_view(before) + split_seq(rest@, c) =~= vecs_view(r@) + split_seq(
                    rest@.skip(j + 1),
                    c,
                ));
                start = start + j + 1;
            },
            None => {
                let ghost before = r@;
                assert(split_seq(rest@, c) == seq![rest@]);
                r.push(rest);
                assert(vecs_view(r@) =~= vecs_view(before).push(rest@));
                assert(vecs_view(before) + seq![rest@] =~= vecs_view(r@));
                return r;
            },
        }
    }
}

/// The strings of `parts` joined with `sep`.
pub fn join_strings(parts: &Vec<String>, sep: &str) -> (r: String)
    ensures
        r@ == join_seq(parts@.map_values(|s: String| s@), sep@),
{
    let ghost views = parts@.map_values(|s: String| s@);
    let mut out: Vec<char> = Vec::new();
    let mut i: usize = 0;
    while i < parts.len()
        invariant
            i <= parts@.len(),
            views == parts@.map_values(|s: String| s@),
            out@ == join_seq(views.take(i as int), sep@),
        decreases parts@.len() - i,
    {
        if i > 0 {
            push_str(&mut out, sep);
        }
        push_str(&mut out, parts[i].as_str());
        assert(views.take(i + 1).drop_last() =~= views.take(i as int));
        assert(views.take(i + 1).last() == parts@[i as int]@);
        if i == 0 {
            assert(views.take(1).len() == 1);
        }
        i += 1;
    }
    assert(views.take(parts@.len() as int) =~= views);
    string_of(out.as_slice())
}

} // verus!

verus! {

/// Joining one more piece.
pub proof fn lemma_join_step(parts: Seq<Seq<char>>, sep: Seq<char>, i: int)
    requires
        0 <= i < parts.len(),
    ensures
        join_seq(parts.take(i + 1), sep) == if i == 0 {
            parts[0]
        } else {
            join_seq(parts.take(i), sep) + sep + parts[i]
        },
{
    assert(parts.take(i + 1).drop_last() =~= parts.take(i));
    if i == 0 {
        assert(parts.take(1).len() == 1);
    }
}

/// The pieces joined with `sep` between neighbours.
pub fn join_chars(parts: &Vec<Vec<char>>, sep: &str) -> (r: Vec<char>)
    ensures
        r@ == join_seq(vecs_view(parts@), sep@),
{
    let ghost views = vecs_view(parts@);
    let mut out: Vec<char> = Vec::new();
    let mut i: usize = 0;
    assert(views.take(0) =~= Seq::<Seq<char>>::empty());
    while i < parts.len()
        invariant
            i <= parts@.len(),
            views == vecs_view(parts@),
            out@ == join_seq(views.take(i as int), sep@),
        decreases parts@.len() - i,
    {
        proof {
            lemma_join_step(views, sep@, i as int);
        }
        if i > 0 {
            push_str(&mut out, sep);
        }
        push_all(&mut out, parts[i].as_slice());
        i += 1;
    }
    assert(views.take(parts@.len() as int) =~= views);
    out
}

} // verus!
