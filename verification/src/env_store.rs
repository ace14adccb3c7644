//! In-memory environments of the request editor, and the editor of one
//! environment's variables with its unsaved-changes flag.

use vstd::prelude::*;
use crate::env_file::{
    EnvData, EnvView, Environment, VarView, copy_environment, delete, delete_spec, envs_view,
    find_environment, first_named, lemma_first_named, local_name,
};
use crate::model::{KeyValue, copy_kv, copy_kvs, kv_view, kvs_view};
use crate::text::{chars_of, owned, push_all, push_str, replace_all, replace_seq, str_eq, string_of};

verus! {

/// The placeholder `{{key}}`.
pub open spec fn placeholder_of(key: Seq<char>) -> Seq<char> {
    seq!['{', '{'] + key + seq!['}', '}']
}

/// `input` after replacing, variable by variable in order, every `{{key}}`
/// of a switched-on variable by its value.
pub open spec fn resolve_spec(vars: Seq<VarView>, input: Seq<char>) -> Seq<char>
    decreases vars.len(),
{
    if vars.len() == 0 {
        input
    } else {
        let prev = resolve_spec(vars.drop_last(), input);
        let v = vars.last();
        if v.2 {
            replace_seq(prev, placeholder_of(v.0), v.1)
        } else {
            prev
        }
    }
}

/// The decimal digits of `n`.
pub open spec fn decimal_seq(n: nat) -> Seq<char>
    decreases n,
{
    if n < 10 {
        seq![digit_char(n)]
    } else {
        decimal_seq(n / 10).push(digit_char(n % 10))
    }
}

/// The character of a digit.
pub open spec fn digit_char(d: nat) -> char {
    ((48 + d) as u8) as char
}

/// The decimal digits of `n`.
pub fn decimal_string(n: usize) -> (r: Vec<char>)
    ensures
        r@ == decimal_seq(n as nat),
    decreases n,
{
    if n < 10 {
        let d = n as u8;
        let c = (48 + d) as char;
        let mut r = Vec::new();
        r.push(c);
        r
    } else {
        let mut r = decimal_string(n / 10);
        let d = (n % 10) as u8;
        let c = (48 + d) as char;
        r.push(c);
        r
    }
}

/// The environments of the request editor and the active one's name.
#[derive(Clone, Debug)]
pub struct EnvironmentStore {
    pub environments: Vec<Environment>,
    pub active_name: Option<String>,
}

/// The abstract content of the store.
#[verifier::ext_equal]
pub struct StoreView {
    pub environments: Seq<EnvView>,
    pub active_name: Option<Seq<char>>,
}

impl View for EnvironmentStore {
    type V = StoreView;

    open spec fn view(&self) -> StoreView {
        StoreView {
            environments: envs_view(self.environments@),
            active_name: crate::model::opt_view(self.active_name),
        }
    }
}

/// Index of the active environment in the store, or -1.
pub open spec fn active_index(s: StoreView) -> int {
    match s.active_name {
        Some(n) => first_named(s.environments, n),
        None => -1,
    }
}

/// The name `Environment <n>` that a new environment gets.
pub open spec fn new_env_name(n: nat) -> Seq<char> {
    "Environment "@ + decimal_seq(n)
}

/// The store after adding an environment: it is named after the new count
/// of environments, has no variables and becomes active.
pub open spec fn add_environment_spec(s: StoreView) -> StoreView {
    let name = new_env_name(s.environments.len() + 1);
    StoreView {
        environments: s.environments.push(EnvView { name, variables: Seq::empty() }),
        active_name: Some(name),
    }
}

/// The store after deleting the active environment: refused when it holds
/// one environment or fewer, or when none is active; otherwise every
/// environment with the active name goes and the first one left is active.
pub open spec fn delete_active_spec(s: StoreView) -> StoreView {
    if s.environments.len() <= 1 {
        s
    } else {
        match s.active_name {
            None => s,
            Some(n) => {
                let envs = crate::env_file::without_named(s.environments, n);
                StoreView {
                    environments: envs,
                    active_name: if envs.len() > 0 {
                        Some(envs[0].name)
                    } else {
                        None
                    },
                }
            },
        }
    }
}

/// One variable row.
fn var(key: &str, value: &str) -> (r: KeyValue)
    ensures
        kv_view(r) == (key@, value@, true),
{
    KeyValue { key: owned(key), value: owned(value), active: true }
}

impl EnvironmentStore {
    /// The two starting environments, `Local` and `Production`, each with a
    /// `base_url` and an `api_key`; `Local` is active.
    pub fn new() -> (r: Self)
        ensures
            r@.environments.len() == 2,
            r@.environments[0].name == "Local"@,
            r@.environments[0].variables == seq![
                ("base_url"@, "http://localhost:3000"@, true),
                ("api_key"@, "dev-key-123"@, true),
            ],
            r@.environments[1].name == "Production"@,
            r@.environments[1].variables == seq![
                ("base_url"@, "https://api.example.com"@, true),
                ("api_key"@, "prod-key-789"@, true),
            ],
            r@.active_name == Some("Local"@),
    {
        let mut local_vars: Vec<KeyValue> = Vec::new();
        local_vars.push(var("base_url", "http://localhost:3000"));
        local_vars.push(var("api_key", "dev-key-123"));
        let mut prod_vars: Vec<KeyValue> = Vec::new();
        prod_vars.push(var("base_url", "https://api.example.com"));
        prod_vars.push(var("api_key", "prod-key-789"));
        let local = Environment { name: owned("Local"), variables: local_vars };
        let production = Environment { name: owned("Production"), variables: prod_vars };
        assert(local@.variables =~= seq![
            ("base_url"@, "http://localhost:3000"@, true),
            ("api_key"@, "dev-key-123"@, true),
        ]);
        assert(production@.variables =~= seq![
            ("base_url"@, "https://api.example.com"@, true),
            ("api_key"@, "prod-key-789"@, true),
        ]);
        let mut environments: Vec<Environment> = Vec::new();
        environments.push(local);
        environments.push(production);
        let r = EnvironmentStore { environments, active_name: Some(owned("Local")) };
        assert(r@.environments[0] == local@);
        assert(r@.environments[1] == production@);
        r
    }

    /// The active environment: the first with the active name.
    pub fn active(&self) -> (r: Option<&Environment>)
        ensures
            match r {
                Some(e) => active_index(self@) >= 0 && e@ == self@.environments[active_index(self@)],
                None => active_index(self@) < 0,
            },
    {
        match &self.active_name {
            None => None,
            Some(name) => match find_environment(&self.environments, name.as_str()) {
                Some(i) => {
                    assert(envs_view(self.environments@)[i as int] == self.environments@[i as int]@);
                    Some(&self.environments[i])
                },
                None => None,
            },
        }
    }

    /// Replaces the `{{key}}` placeholders of the active environment's
    /// switched-on variables, one variable after the other; without an
    /// active environment the input comes back unchanged.
    pub fn resolve(&self, input: &str) -> (r: String)
        ensures
            r@ == if active_index(self@) >= 0 {
                resolve_spec(self@.environments[active_index(self@)].variables, input@)
            } else {
                input@
            },
    {
        let env = match self.active() {
            None => return owned(input),
            Some(e) => e,
        };
        let ghost vars = kvs_view(env.variables@);
        let mut out = chars_of(input);
        let mut i: usize = 0;
        assert(vars.take(0) =~= Seq::<VarView>::empty());
        while i < env.variables.len()
            invariant
                i <= env.variables@.len(),
                vars == kvs_view(env.variables@),
                out@ == resolve_spec(vars.take(i as int), input@),
            decreases env.variables@.len() - i,
        {
            assert(vars.take(i + 1).drop_last() =~= vars.take(i as int));
            assert(vars.take(i + 1).last() == kv_view(env.variables@[i as int]));
            let kv = &env.variables[i];
            if kv.active {
                let mut pat: Vec<char> = Vec::new();
                pat.push('{');
                pat.push('{');
                push_str(&mut pat, kv.key.as_str());
                pat.push('}');
                pat.push('}');
                assert(pat@ =~= placeholder_of(kv.key@));
                let rep = chars_of(kv.value.as_str());
                out = replace_all(out.as_slice(), pat.as_slice(), rep.as_slice());
            }
            i += 1;
        }
        assert(vars.take(env.variables@.len() as int) =~= vars);
        string_of(out.as_slice())
    }

    /// Makes `name` active when an environment has it; returns whether it did.
    pub fn select(&mut self, name: &str) -> (switched: bool)
        ensures
            switched == (first_named(old(self)@.environments, name@) >= 0),
            switched ==> final(self)@ == (StoreView { active_name: Some(name@), ..old(self)@ }),
            !switched ==> final(self)@ == old(self)@,
    {
        let ghost s0 = self@;
        match find_environment(&self.environments, name) {
            Some(_) => {
                self.active_name = Some(owned(name));
                assert(self@ =~= (StoreView { active_name: Some(name@), ..s0 }));
                true
            },
            None => false,
        }
    }

    /// The names of the environments, in order.
    pub fn names(&self) -> (r: Vec<String>)
        ensures
            r@.len() == self@.environments.len(),
            forall|i: int| 0 <= i < r@.len() ==> #[trigger] r@[i]@ == self@.environments[i].name,
    {
        let mut r: Vec<String> = Vec::new();
        let mut i: usize = 0;
        while i < self.environments.len()
            invariant
                i <= self.environments@.len(),
                r@.len() == i,
                forall|j: int| 0 <= j < i ==> #[trigger] r@[j]@ == self@.environments[j].name,
            decreases self.environments@.len() - i,
        {
            assert(self@.environments[i as int] == self.environments@[i as int]@);
            r.push(self.environments[i].name.clone());
            i += 1;
        }
        r
    }

    /// The row of the active environment in the environment menu, or 0.
    pub fn selected_row(&self) -> (r: usize)
        ensures
            r == if active_index(self@) >= 0 {
                active_index(self@) as usize
            } else {
                0usize
            },
    {
        match &self.active_name {
            None => 0,
            Some(name) => match find_environment(&self.environments, name.as_str()) {
                Some(i) => i,
                None => 0,
            },
        }
    }

    /// Adds an environment named after the new count, and makes it active.
    pub fn add_environment(&mut self)
        requires
            old(self)@.environments.len() < usize::MAX,
        ensures
            final(self)@ == add_environment_spec(old(self)@),
    {
        let ghost s0 = self@;
        let mut name = chars_of("Environment ");
        let digits = decimal_string(self.environments.len() + 1);
        push_all(&mut name, digits.as_slice());
        let name = string_of(name.as_slice());
        let e = Environment { name: name.clone(), variables: Vec::new() };
        assert(e@.variables =~= Seq::<VarView>::empty());
        self.environments.push(e);
        self.active_name = Some(name);
        assert(self@.environments =~= add_environment_spec(s0).environments);
        assert(self@ =~= add_environment_spec(s0));
    }

    /// Deletes the active environment unless it is the only one; the first
    /// remaining environment becomes active. Returns whether it deleted.
    pub fn delete_active(&mut self) -> (deleted: bool)
        ensures
            final(self)@ == delete_active_spec(old(self)@),
            deleted == (old(self)@.environments.len() > 1 && old(self)@.active_name is Some),
    {
        let ghost s0 = self@;
        if self.environments.len() <= 1 {
            return false;
        }
        let name = match &self.active_name {
            None => return false,
            Some(n) => n.clone(),
        };
        let mut data = crate::env_file::EnvData {
            active_environment: None,
            environments: Vec::new(),
        };
        std::mem::swap(&mut data.environments, &mut self.environments);
        crate::env_file::delete_with_fallback(&mut data, name.as_str(), "");
        std::mem::swap(&mut data.environments, &mut self.environments);
        self.active_name = if self.environments.len() > 0 {
            assert(envs_view(self.environments@)[0] == self.environments@[0]@);
            Some(self.environments[0].name.clone())
        } else {
            None
        };
        assert(self@ =~= delete_active_spec(s0));
        true
    }

    /// Replaces the environments by `envs` when there are any, making the
    /// first active; an empty list changes nothing.
    pub fn load(&mut self, envs: Vec<Environment>)
        ensures
            envs@.len() == 0 ==> final(self)@ == old(self)@,
            envs@.len() > 0 ==> final(self)@ == (StoreView {
                environments: envs_view(envs@),
                active_name: Some(envs@[0].name@),
            }),
    {
        if envs.len() == 0 {
            return;
        }
        let first = envs[0].name.clone();
        self.environments = envs;
        self.active_name = Some(first);
        assert(envs_view(self.environments@)[0] == self.environments@[0]@);
        assert(self@ =~= (StoreView {
            environments: envs_view(self.environments@),
            active_name: Some(self.environments@[0].name@),
        }));
    }
}

/// Equality of two lists of rows.
pub fn kvs_eq(a: &Vec<KeyValue>, b: &Vec<KeyValue>) -> (r: bool)
    ensures
        r == (kvs_view(a@) == kvs_view(b@)),
{
    if a.len() != b.len() {
        assert(kvs_view(a@).len() != kvs_view(b@).len());
        return false;
    }
    let mut i: usize = 0;
    while i < a.len()
        invariant
            i <= a@.len(),
            a@.len() == b@.len(),
            forall|j: int| 0 <= j < i ==> kv_view(#[trigger] a@[j]) == kv_view(b@[j]),
        decreases a@.len() - i,
    {
        let same = str_eq(a[i].key.as_str(), b[i].key.as_str()) && str_eq(
            a[i].value.as_str(),
            b[i].value.as_str(),
        ) && a[i].active == b[i].active;
        if !same {
            assert(kvs_view(a@)[i as int] != kvs_view(b@)[i as int]);
            return false;
        }
        i += 1;
    }
    assert(kvs_view(a@) =~= kvs_view(b@));
    true
}

/// The variables of the first environment called `name`, or none.
pub fn variables_of(envs: &Vec<Environment>, name: &str) -> (r: Vec<KeyValue>)
    ensures
        kvs_view(r@) == if first_named(envs_view(envs@), name@) >= 0 {
            envs_view(envs@)[first_named(envs_view(envs@), name@)].variables
        } else {
            Seq::empty()
        },
{
    match find_environment(envs, name) {
        Some(i) => {
            assert(envs_view(envs@)[i as int] == envs@[i as int]@);
            copy_kvs(&envs[i].variables)
        },
        None => {
            let r: Vec<KeyValue> = Vec::new();
            assert(kvs_view(r@) =~= Seq::<VarView>::empty());
            r
        },
    }
}

/// The editor of one environment: its name field, its variable rows and
/// the rows as last loaded or saved.
#[derive(Clone, Debug)]
pub struct EnvPlayground {
    name: String,
    initial_name: String,
    is_editing: bool,
    rows: Vec<KeyValue>,
    dirty: bool,
    initial: Vec<KeyValue>,
}

/// The abstract content of the environment editor.
#[verifier::ext_equal]
pub struct EditorView {
    pub name: Seq<char>,
    pub initial_name: Seq<char>,
    pub editing: bool,
    pub rows: Seq<VarView>,
    pub dirty: bool,
    pub initial: Seq<VarView>,
}

impl View for EnvPlayground {
    type V = EditorView;

    closed spec fn view(&self) -> EditorView {
        EditorView {
            name: self.name@,
            initial_name: self.initial_name@,
            editing: self.is_editing,
            rows: kvs_view(self.rows@),
            dirty: self.dirty,
            initial: kvs_view(self.initial@),
        }
    }
}

/// The editor's flag tells exactly whether the rows differ from the saved ones.
pub open spec fn editor_wf(e: EditorView) -> bool {
    e.dirty == (e.rows != e.initial)
}

/// The editor with new rows and the flag brought up to date.
pub open spec fn with_rows(e: EditorView, rows: Seq<VarView>) -> EditorView {
    EditorView { rows, dirty: rows != e.initial, ..e }
}

/// The environments after saving the editor: the first environment with the
/// editor's saved name gets its rows.
pub open spec fn save_spec(envs: Seq<EnvView>, e: EditorView) -> Seq<EnvView> {
    let i = first_named(envs, e.initial_name);
    if i >= 0 {
        envs.update(i, EnvView { name: envs[i].name, variables: e.rows })
    } else {
        envs
    }
}

impl EnvPlayground {
    /// An editor of the environment `name` with the given variables, clean
    /// and not renaming.
    pub fn new(name: &str, variables: Vec<KeyValue>) -> (r: Self)
        ensures
            r@ == (EditorView {
                name: name@,
                initial_name: name@,
                editing: false,
                rows: kvs_view(variables@),
                dirty: false,
                initial: kvs_view(variables@),
            }),
    {
        let initial = copy_kvs(&variables);
        EnvPlayground {
            name: owned(name),
            initial_name: owned(name),
            is_editing: false,
            rows: variables,
            dirty: false,
            initial,
        }
    }

    /// The text of the name field.
    pub fn name(&self) -> (r: String)
        ensures
            r@ == self@.name,
    {
        self.name.clone()
    }

    /// Whether the name is being edited.
    pub fn editing(&self) -> (r: bool)
        ensures
            r == self@.editing,
    {
        self.is_editing
    }

    /// Whether the rows differ from the saved ones.
    pub fn is_dirty(&self) -> (r: bool)
        ensures
            r == self@.dirty,
    {
        self.dirty
    }

    /// The rows as they are now.
    pub fn current_content(&self) -> (r: Vec<KeyValue>)
        ensures
            kvs_view(r@) == self@.rows,
    {
        copy_kvs(&self.rows)
    }

    /// Brings the flag up to date with the rows.
    fn evaluate_dirty(&mut self)
        ensures
            final(self)@ == with_rows(old(self)@, old(self)@.rows),
    {
        let ghost s0 = self@;
        self.dirty = !kvs_eq(&self.rows, &self.initial);
        assert(self@ =~= with_rows(s0, s0.rows));
    }

    /// Adds an empty, switched-on row.
    pub fn add_variable(&mut self)
        ensures
            final(self)@ == with_rows(old(self)@, old(self)@.rows.push((Seq::empty(), Seq::empty(), true))),
    {
        let ghost s0 = self@;
        self.rows.push(KeyValue { key: String::new(), value: String::new(), active: true });
        assert(kvs_view(self.rows@) =~= s0.rows.push((Seq::empty(), Seq::empty(), true)));
        self.evaluate_dirty();
    }

    /// Removes row `ix`; an index past the end changes nothing.
    pub fn remove_variable(&mut self, ix: usize)
        ensures
            ix < old(self)@.rows.len() ==> final(self)@ == with_rows(old(self)@, old(self)@.rows.remove(ix as int)),
            ix >= old(self)@.rows.len() ==> final(self)@ == old(self)@,
    {
        let ghost s0 = self@;
        if ix < self.rows.len() {
            self.rows.remove(ix);
            assert(kvs_view(self.rows@) =~= s0.rows.remove(ix as int));
            self.evaluate_dirty();
        }
    }

    /// Switches row `ix` on or off; an index past the end changes nothing.
    pub fn set_variable_active(&mut self, ix: usize, active: bool)
        ensures
            ix < old(self)@.rows.len() ==> final(self)@ == with_rows(
                old(self)@,
                old(self)@.rows.update(ix as int, (old(self)@.rows[ix as int].0, old(self)@.rows[ix as int].1, active)),
            ),
            ix >= old(self)@.rows.len() ==> final(self)@ == old(self)@,
    {
        let ghost s0 = self@;
        if ix < self.rows.len() {
            let mut kv = copy_kv(&self.rows[ix]);
            kv.active = active;
            self.rows.set(ix, kv);
            assert(kvs_view(self.rows@) =~= s0.rows.update(ix as int, (s0.rows[ix as int].0, s0.rows[ix as int].1, active)));
            self.evaluate_dirty();
        }
    }

    /// Row `ix` now reads `key` and `value` (typing in its fields); an index
    /// past the end changes nothing.
    pub fn edit_variable(&mut self, ix: usize, key: &str, value: &str)
        ensures
            ix < old(self)@.rows.len() ==> final(self)@ == with_rows(
                old(self)@,
                old(self)@.rows.update(ix as int, (key@, value@, old(self)@.rows[ix as int].2)),
            ),
            ix >= old(self)@.rows.len() ==> final(self)@ == old(self)@,
    {
        let ghost s0 = self@;
        if ix < self.rows.len() {
            let kv = KeyValue { key: owned(key), value: owned(value), active: self.rows[ix].active };
            self.rows.set(ix, kv);
            assert(kvs_view(self.rows@) =~= s0.rows.update(ix as int, (key@, value@, s0.rows[ix as int].2)));
            self.evaluate_dirty();
        }
    }

    /// The name field now reads `name`.
    pub fn set_name_text(&mut self, name: &str)
        ensures
            final(self)@ == (EditorView { name: name@, ..old(self)@ }),
    {
        let ghost s0 = self@;
        self.name = owned(name);
        assert(self@ =~= (EditorView { name: name@, ..s0 }));
    }

    /// Starts editing the name.
    pub fn enable_editing(&mut self)
        ensures
            final(self)@ == (EditorView { editing: true, ..old(self)@ }),
    {
        let ghost s0 = self@;
        self.is_editing = true;
        assert(self@ =~= (EditorView { editing: true, ..s0 }));
    }

    /// Stops editing the name, putting the saved name back in the field.
    pub fn disable_editing(&mut self)
        ensures
            final(self)@ == (EditorView { editing: false, name: old(self)@.initial_name, ..old(self)@ }),
    {
        let ghost s0 = self@;
        self.name = self.initial_name.clone();
        self.is_editing = false;
        assert(self@ =~= (EditorView { editing: false, name: s0.initial_name, ..s0 }));
    }

    /// Ends editing the name. When it changed, it becomes the saved name and
    /// the old and new names are returned, for renaming the environment.
    pub fn commit_name(&mut self) -> (r: Option<(String, String)>)
        ensures
            old(self)@.name != old(self)@.initial_name ==> (r matches Some((o, n)) && o@
                == old(self)@.initial_name && n@ == old(self)@.name && final(self)@ == (EditorView {
                initial_name: old(self)@.name,
                editing: false,
                ..old(self)@
            })),
            old(self)@.name == old(self)@.initial_name ==> r is None && final(self)@ == (
            EditorView { editing: false, ..old(self)@ }),
    {
        let ghost s0 = self@;
        let r = if !str_eq(self.name.as_str(), self.initial_name.as_str()) {
            let old_name = self.initial_name.clone();
            self.initial_name = self.name.clone();
            Some((old_name, self.name.clone()))
        } else {
            None
        };
        self.is_editing = false;
        assert(s0.name != s0.initial_name ==> self@ =~= (EditorView {
            initial_name: s0.name,
            editing: false,
            ..s0
        }));
        assert(s0.name == s0.initial_name ==> self@ =~= (EditorView { editing: false, ..s0 }));
        r
    }

    /// Saves the rows into the environment with the saved name, and marks
    /// the editor clean.
    pub fn save(&mut self, envs: &mut Vec<Environment>)
        ensures
            envs_view(final(envs)@) == save_spec(envs_view(old(envs)@), old(self)@),
            final(self)@ == (EditorView { initial: old(self)@.rows, dirty: false, ..old(self)@ }),
    {
        let ghost s0 = self@;
        let ghost e0 = envs_view(envs@);
        proof {
            lemma_first_named(e0, s0.initial_name);
        }
        match find_environment(envs, self.initial_name.as_str()) {
            Some(i) => {
                let mut e = copy_environment(&envs[i]);
                e.variables = copy_kvs(&self.rows);
                envs.set(i, e);
                assert(envs_view(envs@) =~= save_spec(e0, s0));
            },
            None => {
                assert(envs_view(envs@) =~= save_spec(e0, s0));
            },
        }
        self.initial = copy_kvs(&self.rows);
        self.dirty = false;
        assert(self@ =~= (EditorView { initial: s0.rows, dirty: false, ..s0 }));
    }
}

/// The environments after deleting the editor's environment: every one with
/// that name goes.
pub fn delete_env(envs: &Vec<Environment>, name: &str) -> (r: Vec<Environment>)
    ensures
        envs_view(r@) == crate::env_file::without_named(envs_view(envs@), name@),
{
    let mut data = crate::env_file::EnvData { active_environment: None, environments: Vec::new() };
    let mut i: usize = 0;
    while i < envs.len()
        invariant
            i <= envs@.len(),
            envs_view(data.environments@) == envs_view(envs@).take(i as int),
        decreases envs@.len() - i,
    {
        let ghost before = envs_view(data.environments@);
        data.environments.push(copy_environment(&envs[i]));
        assert(envs_view(data.environments@) =~= before.push(envs@[i as int]@));
        assert(envs_view(envs@).take(i + 1) =~= envs_view(envs@).take(i as int).push(envs@[i as int]@));
        i += 1;
    }
    assert(envs_view(envs@).take(envs@.len() as int) =~= envs_view(envs@));
    crate::env_file::delete_with_fallback(&mut data, name, name);
    data.environments
}

/// The unsaved-changes flag is exact after every change of the rows; saving
/// leaves the editor clean, with the saved rows equal to the current ones;
/// and rows edited back to the saved ones are clean again.
pub proof fn law_editor_dirty_flag(e: EditorView, rows: Seq<VarView>)
    ensures
        editor_wf(with_rows(e, rows)),
        with_rows(e, rows).dirty <==> rows != e.initial,
        editor_wf(EditorView { initial: e.rows, dirty: false, ..e }),
        !with_rows(e, e.initial).dirty,
{
}


/// The names of the environments, in order.
pub open spec fn env_names_of(envs: Seq<EnvView>) -> Seq<Seq<char>> {
    envs.map_values(|e: EnvView| e.name)
}

/// The names of the environments, in order.
pub fn read_env_names(envs: &Vec<Environment>) -> (r: Vec<String>)
    ensures
        crate::model::strs_view(r@) == env_names_of(envs_view(envs@)),
{
    let mut r: Vec<String> = Vec::new();
    let mut i: usize = 0;
    while i < envs.len()
        invariant
            i <= envs@.len(),
            crate::model::strs_view(r@) == env_names_of(envs_view(envs@)).take(i as int),
        decreases envs@.len() - i,
    {
        let ghost before = r@;
        r.push(owned(envs[i].name.as_str()));
        assert(crate::model::strs_view(r@) =~= crate::model::strs_view(before).push(envs@[i as int].name@));
        assert(env_names_of(envs_view(envs@)).take(i + 1) =~= env_names_of(envs_view(envs@)).take(i as int).push(
            envs@[i as int].name@,
        ));
        i += 1;
    }
    assert(env_names_of(envs_view(envs@)).take(envs@.len() as int) =~= env_names_of(envs_view(envs@)));
    r
}

/// The abstract state of the environment list.
pub struct EnvPanelView {
    pub envs: Seq<Seq<char>>,
    pub context_target: Option<Seq<char>>,
}

/// The list of environments beside the editor, and the one its context
/// menu was opened on.
pub struct EnvPanel {
    envs: Vec<String>,
    context_target: Option<String>,
}

impl View for EnvPanel {
    type V = EnvPanelView;

    closed spec fn view(&self) -> EnvPanelView {
        EnvPanelView {
            envs: crate::model::strs_view(self.envs@),
            context_target: crate::model::opt_view(self.context_target),
        }
    }
}

impl EnvPanel {
    /// The list of the given environments, with no context menu open.
    pub fn new(envs: &Vec<Environment>) -> (r: Self)
        ensures
            r@ == (EnvPanelView { envs: env_names_of(envs_view(envs@)), context_target: None }),
    {
        EnvPanel { envs: read_env_names(envs), context_target: None }
    }

    /// The names listed.
    pub fn env_names(&self) -> (r: Vec<String>)
        ensures
            crate::model::strs_view(r@) == self@.envs,
    {
        let mut r: Vec<String> = Vec::new();
        let mut i: usize = 0;
        while i < self.envs.len()
            invariant
                i <= self.envs@.len(),
                crate::model::strs_view(r@) == crate::model::strs_view(self.envs@).take(i as int),
            decreases self.envs@.len() - i,
        {
            let ghost before = r@;
            r.push(owned(self.envs[i].as_str()));
            assert(crate::model::strs_view(r@) =~= crate::model::strs_view(before).push(self.envs@[i as int]@));
            assert(crate::model::strs_view(self.envs@).take(i + 1) =~= crate::model::strs_view(self.envs@).take(
                i as int,
            ).push(self.envs@[i as int]@));
            i += 1;
        }
        assert(crate::model::strs_view(self.envs@).take(self.envs@.len() as int) =~= crate::model::strs_view(
            self.envs@,
        ));
        r
    }

    /// Whether no environment is listed.
    pub fn is_empty(&self) -> (r: bool)
        ensures
            r == (self@.envs.len() == 0),
    {
        self.envs.len() == 0
    }

    /// Remembers the environment the context menu was opened on.
    pub fn set_context_target(&mut self, name: String)
        ensures
            final(self)@ == (EnvPanelView { context_target: Some(name@), ..old(self)@ }),
    {
        self.context_target = Some(name);
    }

    /// Lists the given environments again.
    pub fn refresh(&mut self, envs: &Vec<Environment>)
        ensures
            final(self)@ == (EnvPanelView { envs: env_names_of(envs_view(envs@)), ..old(self)@ }),
    {
        self.envs = read_env_names(envs);
    }

    /// "Copy": the variables of the environment the context menu was opened
    /// on (none when it has gone), which go to the clipboard; the menu
    /// target is used up. Without a target nothing is copied.
    pub fn handle_copy_env(&mut self, envs: &Vec<Environment>) -> (r: Option<Vec<KeyValue>>)
        ensures
            final(self)@ == (EnvPanelView { context_target: None, ..old(self)@ }),
            match old(self)@.context_target {
                None => r is None,
                Some(name) => r matches Some(v) && kvs_view(v@) == if first_named(envs_view(envs@), name) >= 0 {
                    envs_view(envs@)[first_named(envs_view(envs@), name)].variables
                } else {
                    Seq::empty()
                },
            },
    {
        match self.context_target.take() {
            Some(name) => Some(variables_of(envs, name.as_str())),
            None => None,
        }
    }

    /// "Delete": removes the environment the context menu was opened on
    /// from `data` (moving the active choice as deleting does), lists the
    /// rest, and gives the deleted name; the menu target is used up. Without
    /// a target nothing changes.
    pub fn handle_delete_env(&mut self, data: &mut EnvData) -> (r: Option<String>)
        ensures
            final(self)@.context_target is None,
            match old(self)@.context_target {
                None => r is None && final(data)@ == old(data)@ && final(self)@.envs == old(self)@.envs,
                Some(name) => {
                    &&& r matches Some(n) && n@ == name
                    &&& final(data)@ == delete_spec(old(data)@, name, local_name())
                    &&& final(self)@.envs == env_names_of(final(data)@.environments)
                },
            },
    {
        match self.context_target.take() {
            Some(name) => {
                delete(data, name.as_str());
                self.envs = read_env_names(&data.environments);
                Some(name)
            },
            None => None,
        }
    }
}


/// Saving the editor writes its rows into the environment that carries the
/// editor's saved name (the first one, when several do) and leaves every
/// other environment as it was; no environment is added, removed or
/// renamed. Without an environment of that name nothing changes.
pub proof fn law_save_targets_the_named_environment(envs: Seq<EnvView>, e: EditorView)
    ensures
        save_spec(envs, e).len() == envs.len(),
        forall|j: int| 0 <= j < envs.len() ==> (#[trigger] save_spec(envs, e)[j]).name == envs[j].name,
        forall|j: int| 0 <= j < envs.len() && envs[j].name != e.initial_name ==> #[trigger] save_spec(envs, e)[j] == envs[j],
        forall|j: int, k: int|
            #![trigger save_spec(envs, e)[j], envs[k]]
            0 <= k < j < envs.len() && envs[k].name == e.initial_name ==> save_spec(envs, e)[j] == envs[j],
        (exists|j: int| 0 <= j < envs.len() && envs[j].name == e.initial_name) ==> exists|j: int|
            0 <= j < envs.len() && envs[j].name == e.initial_name && save_spec(envs, e)[j].variables == e.rows,
        (forall|j: int| 0 <= j < envs.len() ==> envs[j].name != e.initial_name) ==> save_spec(envs, e) == envs,
{
    lemma_first_named(envs, e.initial_name);
    let i = first_named(envs, e.initial_name);
    if i >= 0 {
        assert(save_spec(envs, e)[i].variables == e.rows);
    }
}

} // verus!
