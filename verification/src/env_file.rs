//! The environments file of a workspace: which environment is active, the
//! environments with their variables, and `{{name}}` interpolation.
//!
//! Reading and writing the JSON file is left to the caller; this module works
//! on its parsed content, [`EnvData`].

use vstd::prelude::*;
use crate::model::{KeyValue, copy_kvs, kv_view, kvs_view};
use crate::text::{chars_of, chars_eq, chars_eq_str, owned, push_all, str_eq, string_of, trim, trim_seq};

verus! {

/// The abstract content of a variable row: key, value, active flag.
pub type VarView = (Seq<char>, Seq<char>, bool);

/// A named set of variables.
#[derive(Clone, Debug)]
pub struct Environment {
    pub name: String,
    pub variables: Vec<KeyValue>,
}

/// The abstract content of an environment.
#[verifier::ext_equal]
pub struct EnvView {
    pub name: Seq<char>,
    pub variables: Seq<VarView>,
}

impl View for Environment {
    type V = EnvView;

    open spec fn view(&self) -> EnvView {
        EnvView { name: self.name@, variables: kvs_view(self.variables@) }
    }
}

/// The abstract content of a list of environments.
pub open spec fn envs_view(v: Seq<Environment>) -> Seq<EnvView> {
    v.map_values(|e: Environment| e@)
}

/// The content of an environments file: the name stored as active (absent
/// when the file has none, or one that is not a string) and the environments.
#[derive(Clone, Debug)]
pub struct EnvData {
    pub active_environment: Option<String>,
    pub environments: Vec<Environment>,
}

/// The abstract content of an environments file.
#[verifier::ext_equal]
pub struct EnvDataView {
    pub active: Option<Seq<char>>,
    pub environments: Seq<EnvView>,
}

impl View for EnvData {
    type V = EnvDataView;

    open spec fn view(&self) -> EnvDataView {
        EnvDataView {
            active: match self.active_environment {
                Some(s) => Some(s@),
                None => None,
            },
            environments: envs_view(self.environments@),
        }
    }
}

/// The name `local`.
pub open spec fn local_name() -> Seq<char> {
    seq!['l', 'o', 'c', 'a', 'l']
}

/// The name `production`.
pub open spec fn production_name() -> Seq<char> {
    seq!['p', 'r', 'o', 'd', 'u', 'c', 't', 'i', 'o', 'n']
}

/// The active name, or `fallback` when the file names none.
pub open spec fn active_or(d: EnvDataView, fallback: Seq<char>) -> Seq<char> {
    match d.active {
        Some(a) => a,
        None => fallback,
    }
}

/// Index of the first environment called `name`, or -1.
pub open spec fn first_named(envs: Seq<EnvView>, name: Seq<char>) -> int
    decreases envs.len(),
{
    if envs.len() == 0 {
        -1
    } else if envs[0].name == name {
        0
    } else {
        let r = first_named(envs.drop_first(), name);
        if r < 0 {
            -1
        } else {
            r + 1
        }
    }
}

/// What `first_named` gives: the first match, or -1 when nothing matches.
pub proof fn lemma_first_named(envs: Seq<EnvView>, name: Seq<char>)
    ensures
        -1 <= first_named(envs, name) < envs.len(),
        first_named(envs, name) >= 0 ==> envs[first_named(envs, name)].name == name,
        forall|j: int| 0 <= j < first_named(envs, name) ==> envs[j].name != name,
        first_named(envs, name) < 0 ==> forall|j: int| 0 <= j < envs.len() ==> envs[j].name != name,
    decreases envs.len(),
{
    if envs.len() > 0 && envs[0].name != name {
        lemma_first_named(envs.drop_first(), name);
        assert forall|j: int| 0 <= j < first_named(envs, name) implies envs[j].name != name by {
            if j > 0 {
                assert(envs[j] == envs.drop_first()[j - 1]);
            }
        }
        if first_named(envs, name) < 0 {
            assert forall|j: int| 0 <= j < envs.len() implies envs[j].name != name by {
                if j > 0 {
                    assert(envs[j] == envs.drop_first()[j - 1]);
                }
            }
        }
    }
}

/// The environments whose name is not `name`, in their order.
pub open spec fn without_named(envs: Seq<EnvView>, name: Seq<char>) -> Seq<EnvView> {
    envs.filter(|e: EnvView| e.name != name)
}

/// The first environment called `old` renamed to `new`; the rest unchanged.
pub open spec fn renamed(envs: Seq<EnvView>, old: Seq<char>, new: Seq<char>) -> Seq<EnvView> {
    let i = first_named(envs, old);
    if i < 0 {
        envs
    } else {
        envs.update(i, EnvView { name: new, variables: envs[i].variables })
    }
}

/// The name of the first environment, or `fallback` when there is none.
pub open spec fn first_or(envs: Seq<EnvView>, fallback: Seq<char>) -> Seq<char> {
    if envs.len() > 0 {
        envs[0].name
    } else {
        fallback
    }
}

/// Index of the first environment called `name` in `envs`.
pub fn find_environment(envs: &Vec<Environment>, name: &str) -> (r: Option<usize>)
    ensures
        match r {
            Some(i) => i == first_named(envs_view(envs@), name@) && i < envs@.len()
                && envs@[i as int].name@ == name@,
            None => first_named(envs_view(envs@), name@) == -1,
        },
{
    let ghost ev = envs_view(envs@);
    proof {
        lemma_first_named(ev, name@);
    }
    let mut i: usize = 0;
    while i < envs.len()
        invariant
            i <= envs@.len(),
            ev == envs_view(envs@),
            ev.len() == envs@.len(),
            forall|j: int| 0 <= j < i ==> ev[j].name != name@,
            -1 <= first_named(ev, name@) < ev.len(),
            first_named(ev, name@) >= 0 ==> ev[first_named(ev, name@)].name == name@,
            forall|j: int| 0 <= j < first_named(ev, name@) ==> ev[j].name != name@,
            first_named(ev, name@) < 0 ==> forall|j: int| 0 <= j < ev.len() ==> ev[j].name != name@,
        decreases envs@.len() - i,
    {
        assert(ev[i as int] == envs@[i as int]@);
        if str_eq(envs[i].name.as_str(), name) {
            return Some(i);
        }
        i += 1;
    }
    None
}


/// An environment with no variables.
fn empty_environment(name: &str) -> (e: Environment)
    ensures
        e@.name == name@,
        e@.variables.len() == 0,
{
    let e = Environment { name: owned(name), variables: Vec::new() };
    assert(e@.variables.len() == 0);
    e
}

/// The content of a new environments file: `local` active, and the
/// environments `local` and `production`, both without variables.
pub open spec fn default_view() -> EnvDataView {
    EnvDataView {
        active: Some(local_name()),
        environments: seq![
            EnvView { name: local_name(), variables: Seq::empty() },
            EnvView { name: production_name(), variables: Seq::empty() },
        ],
    }
}

/// The default content of an environments file.
pub fn default_data() -> (d: EnvData)
    ensures
        d@ == default_view(),
{
    let local = empty_environment("local");
    let production = empty_environment("production");
    proof {
        reveal_strlit("local");
        reveal_strlit("production");
    }
    let mut environments: Vec<Environment> = Vec::new();
    environments.push(local);
    environments.push(production);
    let d = EnvData { active_environment: Some(owned("local")), environments };
    assert(local@.variables =~= Seq::<VarView>::empty());
    assert(production@.variables =~= Seq::<VarView>::empty());
    assert("local"@ =~= local_name());
    assert("production"@ =~= production_name());
    assert(local@ =~= EnvView { name: local_name(), variables: Seq::empty() });
    assert(production@ =~= EnvView { name: production_name(), variables: Seq::empty() });
    assert(d@.environments[0] == local@);
    assert(d@.environments[1] == production@);
    assert(d@.environments =~= default_view().environments);
    assert(d@ =~= default_view());
    d
}

/// The current workspace: the directory whose `.arc/environments.json` is
/// read and written. Empty when no workspace is open.
#[derive(Clone, Debug)]
pub struct Workspace {
    pub path: String,
}

/// Makes `path` the current workspace.
pub fn set_current_workspace(ws: &mut Workspace, path: &str)
    ensures
        final(ws).path@ == path@,
{
    ws.path = owned(path);
}

/// `<workspace>/.arc/environments.json`, or `None` for no workspace.
pub open spec fn env_file_path_spec(ws: Seq<char>) -> Option<Seq<char>> {
    if ws.len() == 0 {
        None
    } else {
        Some(
            crate::paths::join_path_seq(
                crate::paths::join_path_seq(ws, crate::paths::arc_dir_name()),
                crate::paths::environments_file_name(),
            ),
        )
    }
}

/// The environments file of the current workspace, or `None` when no
/// workspace is open.
pub fn env_file_path(ws: &Workspace) -> (r: Option<String>)
    ensures
        crate::model::opt_view(r) == env_file_path_spec(ws.path@),
{
    if ws.path.as_str().is_empty() {
        None
    } else {
        let dir = crate::paths::join_path(ws.path.as_str(), ".arc");
        proof {
            reveal_strlit(".arc");
            reveal_strlit("environments.json");
        }
        Some(crate::paths::join_path(dir.as_str(), "environments.json"))
    }
}

/// The name of the active environment: the one the file stores, or `fallback`.
pub fn active_name_or(data: &EnvData, fallback: &str) -> (r: String)
    ensures
        r@ == active_or(data@, fallback@),
{
    match &data.active_environment {
        Some(a) => a.clone(),
        None => owned(fallback),
    }
}

/// The name of the active environment: the one the file stores, or `local`.
pub fn read_active(data: &EnvData) -> (r: String)
    ensures
        r@ == active_or(data@, local_name()),
{
    proof {
        reveal_strlit("local");
    }
    active_name_or(data, "local")
}

/// The file with `name` stored as the active environment.
pub open spec fn save_active_spec(d: EnvDataView, name: Seq<char>) -> EnvDataView {
    EnvDataView { active: Some(name), environments: d.environments }
}

/// Stores `name` as the active environment.
pub fn save_active(data: &mut EnvData, name: &str)
    ensures
        final(data)@ == save_active_spec(old(data)@, name@),
{
    data.active_environment = Some(owned(name));
}

/// A copy of an environment.
pub fn copy_environment(e: &Environment) -> (r: Environment)
    ensures
        r@ == e@,
{
    Environment { name: e.name.clone(), variables: copy_kvs(&e.variables) }
}

/// The environments without those called `name`.
fn retain_other_names(envs: &Vec<Environment>, name: &str) -> (r: Vec<Environment>)
    ensures
        envs_view(r@) == without_named(envs_view(envs@), name@),
{
    let ghost ev = envs_view(envs@);
    let mut r: Vec<Environment> = Vec::new();
    let mut i: usize = 0;
    assert(ev.take(0).filter(|e: EnvView| e.name != name@) =~= Seq::<EnvView>::empty());
    while i < envs.len()
        invariant
            i <= envs@.len(),
            ev == envs_view(envs@),
            envs_view(r@) == ev.take(i as int).filter(|e: EnvView| e.name != name@),
        decreases envs@.len() - i,
    {
        let ghost before = r@;
        proof {
            reveal(Seq::filter);
        }
        assert(ev.take(i + 1).drop_last() =~= ev.take(i as int));
        assert(ev.take(i + 1).last() == envs@[i as int]@);
        if !str_eq(envs[i].name.as_str(), name) {
            r.push(copy_environment(&envs[i]));
            assert(envs_view(r@) =~= envs_view(before).push(envs@[i as int]@));
        } else {
            assert(envs_view(r@) =~= envs_view(before));
        }
        assert(envs_view(r@) == ev.take(i + 1).filter(|e: EnvView| e.name != name@));
        i += 1;
    }
    assert(ev.take(envs@.len() as int) =~= ev);
    r
}

/// The file after deleting the environments called `name`: when the active
/// one (the stored name, or `fallback`) is among them, the first remaining
/// environment becomes active, or `fallback` when none remains.
pub open spec fn delete_spec(d: EnvDataView, name: Seq<char>, fallback: Seq<char>) -> EnvDataView {
    let envs = without_named(d.environments, name);
    EnvDataView {
        active: if active_or(d, fallback) == name {
            Some(first_or(envs, fallback))
        } else {
            d.active
        },
        environments: envs,
    }
}

/// The file after renaming the first environment called `old` to `new`; the
/// active name (the stored one, or `fallback`) follows the rename.
pub open spec fn rename_spec(d: EnvDataView, old: Seq<char>, new: Seq<char>, fallback: Seq<char>) -> EnvDataView {
    EnvDataView {
        active: if active_or(d, fallback) == old {
            Some(new)
        } else {
            d.active
        },
        environments: renamed(d.environments, old, new),
    }
}

/// The name of the first environment, or `fallback`.
fn first_name_or(envs: &Vec<Environment>, fallback: &str) -> (r: String)
    ensures
        r@ == first_or(envs_view(envs@), fallback@),
{
    if envs.len() > 0 {
        assert(envs_view(envs@)[0] == envs@[0]@);
        envs[0].name.clone()
    } else {
        owned(fallback)
    }
}

/// Deletes the environments called `name`; the active name falls back on
/// the first remaining environment, or on `fallback`.
pub fn delete_with_fallback(data: &mut EnvData, name: &str, fallback: &str)
    ensures
        final(data)@ == delete_spec(old(data)@, name@, fallback@),
{
    let ghost d0 = data@;
    let envs = retain_other_names(&data.environments, name);
    data.environments = envs;
    assert(data@.environments == without_named(d0.environments, name@));
    assert(data@.active == d0.active);
    let active = active_name_or(data, fallback);
    if str_eq(active.as_str(), name) {
        let first = first_name_or(&data.environments, fallback);
        data.active_environment = Some(first);
    }
    assert(data@ =~= delete_spec(d0, name@, fallback@));
}

/// Deletes the environments called `name`, falling back on `local`.
pub fn delete(data: &mut EnvData, name: &str)
    ensures
        final(data)@ == delete_spec(old(data)@, name@, local_name()),
{
    proof {
        reveal_strlit("local");
        assert("local"@ =~= local_name());
    }
    delete_with_fallback(data, name, "local");
}

/// Renames the first environment called `old_name` to `new_name`; the active
/// name (the stored one, or `fallback`) follows.
pub fn rename_with_fallback(data: &mut EnvData, old_name: &str, new_name: &str, fallback: &str)
    ensures
        final(data)@ == rename_spec(old(data)@, old_name@, new_name@, fallback@),
{
    let ghost before = envs_view(data.environments@);
    proof {
        lemma_first_named(before, old_name@);
    }
    match find_environment(&data.environments, old_name) {
        Some(i) => {
            let mut e = copy_environment(&data.environments[i]);
            e.name = owned(new_name);
            data.environments.set(i, e);
            assert(envs_view(data.environments@) =~= renamed(before, old_name@, new_name@));
        },
        None => {
            assert(envs_view(data.environments@) =~= renamed(before, old_name@, new_name@));
        },
    }
    let active = active_name_or(data, fallback);
    if str_eq(active.as_str(), old_name) {
        data.active_environment = Some(owned(new_name));
    }
}

/// Renames the first environment called `old_name` to `new_name`, with `local`
/// as the active name when the file stores none.
pub fn rename(data: &mut EnvData, old_name: &str, new_name: &str)
    ensures
        final(data)@ == rename_spec(old(data)@, old_name@, new_name@, local_name()),
{
    proof {
        reveal_strlit("local");
        assert("local"@ =~= local_name());
    }
    rename_with_fallback(data, old_name, new_name, "local");
}

/// The variables of the active environment: those of the first environment
/// with the active name, or none when there is no such environment.
pub open spec fn active_vars(d: EnvDataView) -> Seq<VarView> {
    let i = first_named(d.environments, active_or(d, local_name()));
    if i >= 0 {
        d.environments[i].variables
    } else {
        Seq::empty()
    }
}

/// The key/value pairs of the rows that are switched on, in order.
pub open spec fn enabled_pairs(vars: Seq<VarView>) -> Seq<(Seq<char>, Seq<char>)>
    decreases vars.len(),
{
    if vars.len() == 0 {
        Seq::empty()
    } else {
        let p = enabled_pairs(vars.drop_last());
        if vars.last().2 {
            p.push((vars.last().0, vars.last().1))
        } else {
            p
        }
    }
}

/// The value bound to `key`: the last pair with that key wins.
pub open spec fn lookup_pair(pairs: Seq<(Seq<char>, Seq<char>)>, key: Seq<char>) -> Option<Seq<char>>
    decreases pairs.len(),
{
    if pairs.len() == 0 {
        None
    } else if pairs.last().0 == key {
        Some(pairs.last().1)
    } else {
        lookup_pair(pairs.drop_last(), key)
    }
}

/// The switched-on variables of the active environment, as key/value pairs.
pub fn active_env_variables(data: &EnvData) -> (r: Vec<(String, String)>)
    ensures
        crate::model::pairs_view(r@) == enabled_pairs(active_vars(data@)),
{
    let active = read_active(data);
    let mut r: Vec<(String, String)> = Vec::new();
    match find_environment(&data.environments, active.as_str()) {
        None => {
            assert(crate::model::pairs_view(r@) =~= Seq::<(Seq<char>, Seq<char>)>::empty());
            r
        },
        Some(k) => {
            let vars = &data.environments[k].variables;
            assert(envs_view(data.environments@)[k as int] == data.environments@[k as int]@);
            let ghost vv = kvs_view(vars@);
            let mut i: usize = 0;
            assert(vv.take(0) =~= Seq::<VarView>::empty());
            assert(crate::model::pairs_view(r@) =~= Seq::<(Seq<char>, Seq<char>)>::empty());
            while i < vars.len()
                invariant
                    i <= vars@.len(),
                    vv == kvs_view(vars@),
                    crate::model::pairs_view(r@) == enabled_pairs(vv.take(i as int)),
                decreases vars@.len() - i,
            {
                let ghost before = r@;
                assert(vv.take(i + 1).drop_last() =~= vv.take(i as int));
                assert(vv.take(i + 1).last() == kv_view(vars@[i as int]));
                if vars[i].active {
                    r.push((vars[i].key.clone(), vars[i].value.clone()));
                    assert(crate::model::pairs_view(r@) =~= crate::model::pairs_view(before).push(
                        (vars@[i as int].key@, vars@[i as int].value@),
                    ));
                }
                i += 1;
            }
            assert(vv.take(vars@.len() as int) =~= vv);
            r
        },
    }
}

/// The value bound to `key` among `pairs`, the last binding winning.
pub fn lookup(pairs: &Vec<(String, String)>, key: &[char]) -> (r: Option<String>)
    ensures
        match r {
            Some(v) => lookup_pair(crate::model::pairs_view(pairs@), key@) == Some(v@),
            None => lookup_pair(crate::model::pairs_view(pairs@), key@) is None,
        },
{
    let ghost pv = crate::model::pairs_view(pairs@);
    let mut i: usize = pairs.len();
    assert(pv.take(i as int) =~= pv);
    while i > 0
        invariant
            i <= pairs@.len(),
            pv == crate::model::pairs_view(pairs@),
            lookup_pair(pv.take(i as int), key@) == lookup_pair(pv, key@),
        decreases i,
    {
        assert(pv.take(i as int).drop_last() =~= pv.take(i - 1));
        assert(pv.take(i as int).last() == (pairs@[i - 1].0@, pairs@[i - 1].1@));
        if chars_eq_str(key, pairs[i - 1].0.as_str()) {
            return Some(pairs[i - 1].1.clone());
        }
        i -= 1;
    }
    None
}

/// Index of the first `}` at or after `from`, or the length of `s`.
pub open spec fn close_pos(s: Seq<char>, from: int) -> int
    decreases s.len() - from,
{
    if from >= s.len() {
        s.len() as int
    } else if s[from] == '}' {
        from
    } else {
        close_pos(s, from + 1)
    }
}

/// `close_pos` lies between its start and the end of `s`.
pub proof fn lemma_close_pos(s: Seq<char>, from: int)
    requires
        0 <= from <= s.len(),
    ensures
        from <= close_pos(s, from) <= s.len(),
        close_pos(s, from) < s.len() ==> s[close_pos(s, from)] == '}',
        forall|k: int| from <= k < close_pos(s, from) ==> s[k] != '}',
    decreases s.len() - from,
{
    if from < s.len() && s[from] != '}' {
        lemma_close_pos(s, from + 1);
    }
}

/// What a `{{key}}` placeholder is replaced by: the bound value, or the
/// placeholder written again around the trimmed key.
pub open spec fn placeholder(pairs: Seq<(Seq<char>, Seq<char>)>, key: Seq<char>) -> Seq<char> {
    match lookup_pair(pairs, key) {
        Some(v) => v,
        None => seq!['{', '{'] + key + seq!['}', '}'],
    }
}

/// Interpolation of `s` from position `i` on. A `{{` opens a placeholder
/// whose key runs to the next `}`; that `}` and the character after it are
/// consumed, and the key is trimmed before the lookup.
pub open spec fn interp_from(s: Seq<char>, i: int, pairs: Seq<(Seq<char>, Seq<char>)>) -> Seq<char>
    decreases s.len() - i,
{
    if i < 0 || i >= s.len() {
        Seq::empty()
    } else if s[i] == '{' && i + 1 < s.len() && s[i + 1] == '{' {
        let j = close_pos(s, i + 2);
        proof {
            lemma_close_pos(s, i + 2);
        }
        let next = if j + 2 <= s.len() {
            j + 2
        } else {
            s.len() as int
        };
        placeholder(pairs, trim_seq(s.subrange(i + 2, j))) + interp_from(s, next, pairs)
    } else {
        seq![s[i]] + interp_from(s, i + 1, pairs)
    }
}

/// `url` with the placeholders replaced, given the switched-on variables of
/// the active environment. Without any such variable the URL is unchanged.
pub open spec fn interpolate_spec(pairs: Seq<(Seq<char>, Seq<char>)>, url: Seq<char>) -> Seq<char> {
    if pairs.len() == 0 {
        url
    } else {
        interp_from(url, 0, pairs)
    }
}

/// Replaces the `{{name}}` placeholders of `url` by the values of the active
/// environment's switched-on variables.
pub fn interpolate_url(data: &EnvData, url: &str) -> (r: String)
    ensures
        r@ == interpolate_spec(enabled_pairs(active_vars(data@)), url@),
{
    let pairs = active_env_variables(data);
    if pairs.len() == 0 {
        return owned(url);
    }
    let s = chars_of(url);
    let ghost pv = crate::model::pairs_view(pairs@);
    let mut out: Vec<char> = Vec::new();
    let mut i: usize = 0;
    while i < s.len()
        invariant
            i <= s@.len(),
            pv == crate::model::pairs_view(pairs@),
            out@ + interp_from(s@, i as int, pv) == interp_from(s@, 0, pv),
        decreases s@.len() - i,
    {
        if s[i] == '{' && i + 1 < s.len() && s[i + 1] == '{' {
            let mut j: usize = i + 2;
            proof {
                lemma_close_pos(s@, i + 2);
            }
            while j < s.len() && s[j] != '}'
                invariant
                    i + 2 <= j <= s@.len(),
                    close_pos(s@, j as int) == close_pos(s@, i + 2),
                decreases s@.len() - j,
            {
                j += 1;
            }
            let raw = crate::text::slice_chars(s.as_slice(), i + 2, j);
            let key = trim(raw.as_slice());
            let ghost piece = placeholder(pv, key@);
            let ghost before = out@;
            match lookup(&pairs, key.as_slice()) {
                Some(v) => {
                    crate::text::push_str(&mut out, v.as_str());
                },
                None => {
                    out.push('{');
                    out.push('{');
                    push_all(&mut out, key.as_slice());
                    out.push('}');
                    out.push('}');
                    assert(out@ =~= before + (seq!['{', '{'] + key@ + seq!['}', '}']));
                },
            }
            assert(out@ == before + piece);
            let next: usize = if j < s.len() && s.len() - j >= 2 {
                j + 2
            } else {
                s.len()
            };
            assert(interp_from(s@, i as int, pv) == piece + interp_from(s@, next as int, pv));
            assert(before + interp_from(s@, i as int, pv) =~= out@ + interp_from(s@, next as int, pv));
            i = next;
        } else {
            let ghost before = out@;
            out.push(s[i]);
            assert(interp_from(s@, i as int, pv) == seq![s@[i as int]] + interp_from(s@, i + 1, pv));
            assert(before + interp_from(s@, i as int, pv) =~= out@ + interp_from(s@, i + 1, pv));
            i += 1;
        }
    }
    assert(out@ + interp_from(s@, i as int, pv) =~= out@);
    string_of(out.as_slice())
}

/// Storing a name as active and reading the active name gives that name back.
pub proof fn law_read_active_after_save(d: EnvDataView, name: Seq<char>)
    ensures
        active_or(save_active_spec(d, name), local_name()) == name,
        save_active_spec(d, name).environments == d.environments,
{
}

/// Deleting removes every environment with that name and keeps every other
/// one, in order; the active name is never the deleted one, except when no
/// environment remains and the deleted name is the fallback.
pub proof fn law_delete_removes(d: EnvDataView, name: Seq<char>, fallback: Seq<char>)
    ensures
        forall|i: int|
            0 <= i < delete_spec(d, name, fallback).environments.len() ==> (
            #[trigger] delete_spec(d, name, fallback).environments[i]).name != name,
        forall|i: int|
            0 <= i < d.environments.len() && d.environments[i].name != name
                ==> delete_spec(d, name, fallback).environments.contains(#[trigger] d.environments[i]),
        delete_spec(d, name, fallback).environments.len() <= d.environments.len(),
        active_or(delete_spec(d, name, fallback), fallback) == name ==> (delete_spec(
            d,
            name,
            fallback,
        ).environments.len() == 0 && name == fallback),
        active_or(d, fallback) != name ==> delete_spec(d, name, fallback).active == d.active,
{
    let pred = |e: EnvView| e.name != name;
    let envs = d.environments.filter(pred);
    broadcast use vstd::seq_lib::group_filter_ensures;

    assert forall|i: int| 0 <= i < envs.len() implies (#[trigger] envs[i]).name != name by {
        assert(pred(envs[i]));
    }
    assert forall|i: int|
        0 <= i < d.environments.len() && d.environments[i].name != name implies envs.contains(
        #[trigger] d.environments[i],
    ) by {
        assert(pred(d.environments[i]));
    }
    if envs.len() > 0 {
        assert(envs[0].name != name);
    }
}

/// Renaming moves the active name along, keeps the number of environments,
/// and gives the renamed environment its new name and its old variables.
pub proof fn law_rename_moves_active(
    d: EnvDataView,
    old_name: Seq<char>,
    new_name: Seq<char>,
    fallback: Seq<char>,
)
    ensures
        active_or(d, fallback) == old_name ==> active_or(
            rename_spec(d, old_name, new_name, fallback),
            fallback,
        ) == new_name,
        active_or(d, fallback) != old_name ==> rename_spec(d, old_name, new_name, fallback).active
            == d.active,
        rename_spec(d, old_name, new_name, fallback).environments.len() == d.environments.len(),
        first_named(d.environments, old_name) >= 0 ==> ({
            let i = first_named(d.environments, old_name);
            &&& rename_spec(d, old_name, new_name, fallback).environments[i].name == new_name
            &&& rename_spec(d, old_name, new_name, fallback).environments[i].variables
                == d.environments[i].variables
        }),
{
    lemma_first_named(d.environments, old_name);
}

/// A `{{` starts at position `k` of `s`.
pub open spec fn opens_at(s: Seq<char>, k: int) -> bool {
    s[k] == '{' && s[k + 1] == '{'
}

/// Without a `{{` in it, interpolation from any position copies the rest.
proof fn lemma_interp_plain(s: Seq<char>, i: int, pairs: Seq<(Seq<char>, Seq<char>)>)
    requires
        0 <= i <= s.len(),
        forall|k: int| 0 <= k < s.len() - 1 ==> !#[trigger] opens_at(s, k),
    ensures
        interp_from(s, i, pairs) == s.skip(i),
    decreases s.len() - i,
{
    if i < s.len() {
        if i < s.len() - 1 {
            assert(!opens_at(s, i));
        }
        lemma_interp_plain(s, i + 1, pairs);
        assert(s.skip(i) =~= seq![s[i]] + s.skip(i + 1));
    } else {
        assert(s.skip(i) =~= Seq::<char>::empty());
    }
}

/// A URL without `{{` comes back unchanged, whatever the variables.
pub proof fn law_interpolate_plain(pairs: Seq<(Seq<char>, Seq<char>)>, url: Seq<char>)
    requires
        forall|k: int| 0 <= k < url.len() - 1 ==> !#[trigger] opens_at(url, k),
    ensures
        interpolate_spec(pairs, url) == url,
{
    if pairs.len() > 0 {
        lemma_interp_plain(url, 0, pairs);
        assert(url.skip(0) =~= url);
    }
}

/// A whole-URL placeholder `{{key}}` (a key without `}`) is replaced by the
/// value bound to the trimmed key; an unbound key is written back trimmed.
pub proof fn law_interpolate_placeholder(pairs: Seq<(Seq<char>, Seq<char>)>, key: Seq<char>)
    requires
        pairs.len() > 0,
        forall|k: int| 0 <= k < key.len() ==> key[k] != '}',
    ensures
        interpolate_spec(pairs, seq!['{', '{'] + key + seq!['}', '}']) == match lookup_pair(
            pairs,
            trim_seq(key),
        ) {
            Some(v) => v,
            None => seq!['{', '{'] + trim_seq(key) + seq!['}', '}'],
        },
{
    let s = seq!['{', '{'] + key + seq!['}', '}'];
    let j: int = key.len() as int + 2;
    assert(s[0] == '{' && s[1] == '{');
    assert(s[j] == '}');
    lemma_close_pos(s, 2);
    let c = close_pos(s, 2);
    if c < j {
        assert(s[c] == key[c - 2]);
    }
    if c > j {
        assert(s[j] != '}');
    }
    assert(c == j);
    assert(s.subrange(2, j) =~= key);
    assert(interp_from(s, s.len() as int, pairs) == Seq::<char>::empty());
    assert(interp_from(s, 0, pairs) == placeholder(pairs, trim_seq(key)) + interp_from(
        s,
        s.len() as int,
        pairs,
    ));
    assert(interp_from(s, 0, pairs) =~= placeholder(pairs, trim_seq(key)));
}

} // verus!
