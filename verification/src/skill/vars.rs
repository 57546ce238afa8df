//! `${NAME}` expansion in lifecycle commands and the built-in skill variables.

use vstd::prelude::*;
use vstd::hash_map::StringHashMap;
use vstd::slice::slice_subrange;

use crate::text::{chars_of, find_char, find_char_from, lemma_find_char, string_of};

verus! {

/// Variable bindings: names to values.
pub struct VarMap {
    entries: StringHashMap<String>,
}

impl View for VarMap {
    type V = Map<Seq<char>, Seq<char>>;

    closed spec fn view(&self) -> Map<Seq<char>, Seq<char>> {
        self.entries@.map_values(|v: String| v@)
    }
}

impl VarMap {
    /// An empty set of bindings.
    pub fn new() -> (r: VarMap)
        ensures
            r@ == Map::<Seq<char>, Seq<char>>::empty(),
    {
        let r = VarMap { entries: StringHashMap::new() };
        assert(r@ =~= Map::<Seq<char>, Seq<char>>::empty());
        r
    }

    /// Binds `name` to `value`, replacing an earlier binding of `name`.
    pub fn insert(&mut self, name: String, value: String)
        ensures
            final(self)@ == old(self)@.insert(name@, value@),
    {
        let ghost before = self.entries@;
        self.entries.insert(name, value);
        assert(self.entries@.map_values(|v: String| v@) =~= before.map_values(
            |v: String| v@,
        ).insert(name@, value@));
    }

    /// The value bound to `name`, if any.
    pub fn get(&self, name: &str) -> (r: Option<&String>)
        ensures
            match r {
                Some(v) => self@.contains_key(name@) && self@[name@] == v@,
                None => !self@.contains_key(name@),
            },
    {
        self.entries.get(name)
    }

    /// Whether `name` is bound.
    pub fn contains_key(&self, name: &str) -> (r: bool)
        ensures
            r == self@.contains_key(name@),
    {
        self.entries.contains_key(name)
    }
}

/// Why an expansion failed.
#[derive(Debug)]
pub enum VarError {
    /// `${NAME}` names a variable that has no binding.
    Undefined(String),
}

/// Where the placeholder that starts at `i` ends (the index of its `}`), if a
/// placeholder `${...}` starts there.
pub open spec fn placeholder_end(t: Seq<char>, i: int) -> Option<int> {
    if 0 <= i && i + 1 < t.len() && t[i] == '$' && t[i + 1] == '{' {
        find_char(t, '}', i + 2)
    } else {
        None
    }
}

/// The expansion of `t` from position `i` on: each `${NAME}` whose closing brace
/// exists is replaced by the value of `NAME`; every other character is kept.
/// The error names the first placeholder whose variable is unbound.
pub open spec fn expand_from(t: Seq<char>, vars: Map<Seq<char>, Seq<char>>, i: int) -> Result<
    Seq<char>,
    Seq<char>,
>
    decreases t.len() - i,
{
    if i < 0 || i >= t.len() {
        Ok(Seq::empty())
    } else {
        match placeholder_end(t, i) {
            Some(e) => {
                proof {
                    lemma_find_char(t, '}', i + 2);
                }
                let name = t.subrange(i + 2, e);
                if vars.contains_key(name) {
                    match expand_from(t, vars, e + 1) {
                        Ok(rest) => Ok(vars[name] + rest),
                        Err(n) => Err(n),
                    }
                } else {
                    Err(name)
                }
            },
            None => match expand_from(t, vars, i + 1) {
                Ok(rest) => Ok(seq![t[i]] + rest),
                Err(n) => Err(n),
            },
        }
    }
}

/// The expansion of the whole template.
pub open spec fn expand_spec(t: Seq<char>, vars: Map<Seq<char>, Seq<char>>) -> Result<
    Seq<char>,
    Seq<char>,
> {
    expand_from(t, vars, 0)
}

/// Prefixes an expansion result with `pre`.
pub open spec fn prepend(pre: Seq<char>, r: Result<Seq<char>, Seq<char>>) -> Result<
    Seq<char>,
    Seq<char>,
> {
    match r {
        Ok(rest) => Ok(pre + rest),
        Err(n) => Err(n),
    }
}

/// Replaces each `${NAME}` in `template` by the value bound to `NAME`.
/// A `${` without a closing `}` is kept as it stands; an unbound name is an error.
pub fn expand(template: &str, vars: &VarMap) -> (r: Result<String, VarError>)
    ensures
        match r {
            Ok(s) => expand_spec(template@, vars@) == Ok::<Seq<char>, Seq<char>>(s@),
            Err(VarError::Undefined(n)) => expand_spec(template@, vars@) == Err::<
                Seq<char>,
                Seq<char>,
            >(n@),
        },
{
    let t = chars_of(template);
    let mut out: Vec<char> = Vec::new();
    let mut i: usize = 0;
    assert(out@ + Seq::<char>::empty() =~= Seq::<char>::empty());
    while i < t.len()
        invariant
            i <= t.len(),
            t@ == template@,
            expand_spec(t@, vars@) == prepend(out@, expand_from(t@, vars@, i as int)),
        decreases t.len() - i,
    {
        let ghost old_out = out@;
        if i + 1 < t.len() && t[i] == '$' && t[i + 1] == '{' {
            match find_char_from(t.as_slice(), '}', i + 2) {
                Some(e) => {
                    proof {
                        lemma_find_char(t@, '}', i + 2);
                    }
                    let name = string_of(slice_subrange(t.as_slice(), i + 2, e));
                    assert(name@ =~= t@.subrange(i + 2, e as int));
                    match vars.get(name.as_str()) {
                        Some(v) => {
                            let mut vc = chars_of(v.as_str());
                            out.append(&mut vc);
                            proof {
                                let r = expand_from(t@, vars@, e + 1);
                                if let Ok(rest) = r {
                                    assert(old_out + (v@ + rest) =~= out@ + rest);
                                }
                            }
                            i = e + 1;
                            continue ;
                        },
                        None => {
                            return Err(VarError::Undefined(name));
                        },
                    }
                },
                None => {},
            }
        }
        out.push(t[i]);
        proof {
            let r = expand_from(t@, vars@, i + 1);
            if let Ok(rest) = r {
                assert(old_out + (seq![t@[i as int]] + rest) =~= out@ + rest);
            }
        }
        i = i + 1;
    }
    assert(out@ + Seq::<char>::empty() =~= out@);
    Ok(string_of(out.as_slice()))
}

/// The built-in variables of a skill: its name, its install path, the user's
/// home directory and the platform name.
pub open spec fn builtin_vars(
    skill_name: Seq<char>,
    skill_path: Seq<char>,
    home: Seq<char>,
    platform: Seq<char>,
) -> Map<Seq<char>, Seq<char>> {
    Map::<Seq<char>, Seq<char>>::empty().insert("SKILL_NAME"@, skill_name).insert(
        "SKILL_PATH"@,
        skill_path,
    ).insert("HOME"@, home).insert("PLATFORM"@, platform)
}

/// Custom variables evaluated in declaration order: each value is expanded
/// against the bindings made so far and then bound.
pub open spec fn resolve_custom(
    vars: Map<Seq<char>, Seq<char>>,
    custom: Seq<(Seq<char>, Seq<char>)>,
) -> Result<Map<Seq<char>, Seq<char>>, Seq<char>>
    decreases custom.len(),
{
    if custom.len() == 0 {
        Ok(vars)
    } else {
        match expand_spec(custom[0].1, vars) {
            Ok(v) => resolve_custom(vars.insert(custom[0].0, v), custom.drop_first()),
            Err(n) => Err(n),
        }
    }
}

/// Some custom variable is named `k`.
pub open spec fn declares(custom: Seq<(Seq<char>, Seq<char>)>, k: Seq<char>) -> bool {
    exists|i: int| 0 <= i < custom.len() && #[trigger] custom[i].0 == k
}

/// Resolving custom variables leaves every binding that no custom variable
/// redeclares as it was.
pub proof fn resolve_keeps_undeclared(
    vars: Map<Seq<char>, Seq<char>>,
    custom: Seq<(Seq<char>, Seq<char>)>,
    k: Seq<char>,
)
    requires
        vars.contains_key(k),
        !declares(custom, k),
    ensures
        match resolve_custom(vars, custom) {
            Ok(m) => m.contains_key(k) && m[k] == vars[k],
            Err(_) => true,
        },
    decreases custom.len(),
{
    if custom.len() > 0 {
        assert(custom[0].0 != k) by {
            if custom[0].0 == k {
                assert(declares(custom, k));
            }
        }
        assert(!declares(custom.drop_first(), k)) by {
            if declares(custom.drop_first(), k) {
                let i = choose|i: int| 0 <= i < custom.drop_first().len() && #[trigger] custom.drop_first()[i].0 == k;
                assert(custom[i + 1] == custom.drop_first()[i]);
                assert(declares(custom, k));
            }
        }
        if let Ok(v) = expand_spec(custom[0].1, vars) {
            resolve_keeps_undeclared(vars.insert(custom[0].0, v), custom.drop_first(), k);
        }
    }
}

/// The built-in variables of a skill bind `SKILL_NAME` to its name,
/// `SKILL_PATH` to its install path, `HOME` to the home directory and
/// `PLATFORM` to the platform, and resolving keeps each of them unless a custom
/// variable of that name replaces it.
pub proof fn builtins_are_bound_as_given(
    skill_name: Seq<char>,
    skill_path: Seq<char>,
    home: Seq<char>,
    platform: Seq<char>,
    custom: Seq<(Seq<char>, Seq<char>)>,
)
    ensures
        ({
            let b = builtin_vars(skill_name, skill_path, home, platform);
            &&& b.contains_key("SKILL_NAME"@) && b["SKILL_NAME"@] == skill_name
            &&& b.contains_key("SKILL_PATH"@) && b["SKILL_PATH"@] == skill_path
            &&& b.contains_key("HOME"@) && b["HOME"@] == home
            &&& b.contains_key("PLATFORM"@) && b["PLATFORM"@] == platform
        }),
        match resolve_custom(builtin_vars(skill_name, skill_path, home, platform), custom) {
            Ok(m) => {
                &&& !declares(custom, "SKILL_NAME"@) ==> m.contains_key("SKILL_NAME"@)
                    && m["SKILL_NAME"@] == skill_name
                &&& !declares(custom, "SKILL_PATH"@) ==> m.contains_key("SKILL_PATH"@)
                    && m["SKILL_PATH"@] == skill_path
                &&& !declares(custom, "HOME"@) ==> m.contains_key("HOME"@) && m["HOME"@] == home
                &&& !declares(custom, "PLATFORM"@) ==> m.contains_key("PLATFORM"@) && m["PLATFORM"@]
                    == platform
            },
            Err(_) => true,
        },
{
    reveal_strlit("SKILL_NAME");
    reveal_strlit("SKILL_PATH");
    reveal_strlit("HOME");
    reveal_strlit("PLATFORM");
    let b = builtin_vars(skill_name, skill_path, home, platform);
    assert("SKILL_NAME"@ != "SKILL_PATH"@) by {
        assert("SKILL_NAME"@[6] != "SKILL_PATH"@[6]);
    }
    assert("SKILL_NAME"@ != "HOME"@) by {
        assert("SKILL_NAME"@.len() != "HOME"@.len());
    }
    assert("SKILL_NAME"@ != "PLATFORM"@) by {
        assert("SKILL_NAME"@.len() != "PLATFORM"@.len());
    }
    assert("SKILL_PATH"@ != "HOME"@) by {
        assert("SKILL_PATH"@.len() != "HOME"@.len());
    }
    assert("SKILL_PATH"@ != "PLATFORM"@) by {
        assert("SKILL_PATH"@.len() != "PLATFORM"@.len());
    }
    assert("HOME"@ != "PLATFORM"@) by {
        assert("HOME"@.len() != "PLATFORM"@.len());
    }
    if !declares(custom, "SKILL_NAME"@) {
        resolve_keeps_undeclared(b, custom, "SKILL_NAME"@);
    }
    if !declares(custom, "SKILL_PATH"@) {
        resolve_keeps_undeclared(b, custom, "SKILL_PATH"@);
    }
    if !declares(custom, "HOME"@) {
        resolve_keeps_undeclared(b, custom, "HOME"@);
    }
    if !declares(custom, "PLATFORM"@) {
        resolve_keeps_undeclared(b, custom, "PLATFORM"@);
    }
}

/// The declared custom variables as pairs of character sequences.
pub open spec fn pairs_view(custom: Seq<(String, String)>) -> Seq<(Seq<char>, Seq<char>)> {
    custom.map_values(|p: (String, String)| (p.0@, p.1@))
}

/// The variables of a skill: the built-ins, then the custom variables in
/// declaration order, each expanded against the ones before it.
pub fn resolve(
    skill_name: &str,
    skill_path: &str,
    home: &str,
    platform: &str,
    custom: &Vec<(String, String)>,
) -> (r: Result<VarMap, VarError>)
    ensures
        match r {
            Ok(m) => resolve_custom(
                builtin_vars(skill_name@, skill_path@, home@, platform@),
                pairs_view(custom@),
            ) == Ok::<Map<Seq<char>, Seq<char>>, Seq<char>>(m@),
            Err(VarError::Undefined(n)) => resolve_custom(
                builtin_vars(skill_name@, skill_path@, home@, platform@),
                pairs_view(custom@),
            ) == Err::<Map<Seq<char>, Seq<char>>, Seq<char>>(n@),
        },
        match r {
            Ok(m) => {
                &&& !declares(pairs_view(custom@), "SKILL_NAME"@) ==> m@.contains_key("SKILL_NAME"@)
                    && m@["SKILL_NAME"@] == skill_name@
                &&& !declares(pairs_view(custom@), "SKILL_PATH"@) ==> m@.contains_key("SKILL_PATH"@)
                    && m@["SKILL_PATH"@] == skill_path@
                &&& !declares(pairs_view(custom@), "HOME"@) ==> m@.contains_key("HOME"@)
                    && m@["HOME"@] == home@
                &&& !declares(pairs_view(custom@), "PLATFORM"@) ==> m@.contains_key("PLATFORM"@)
                    && m@["PLATFORM"@] == platform@
            },
            Err(_) => true,
        },
{
    proof {
        builtins_are_bound_as_given(skill_name@, skill_path@, home@, platform@, pairs_view(custom@));
    }
    let mut vars = VarMap::new();
    vars.insert(String::from_str("SKILL_NAME"), String::from_str(skill_name));
    vars.insert(String::from_str("SKILL_PATH"), String::from_str(skill_path));
    vars.insert(String::from_str("HOME"), String::from_str(home));
    vars.insert(String::from_str("PLATFORM"), String::from_str(platform));
    let ghost all = pairs_view(custom@);
    assert(all.skip(0) =~= all);
    let mut i: usize = 0;
    while i < custom.len()
        invariant
            i <= custom.len(),
            all == pairs_view(custom@),
            resolve_custom(builtin_vars(skill_name@, skill_path@, home@, platform@), all)
                == resolve_custom(vars@, all.skip(i as int)),
        decreases custom.len() - i,
    {
        assert(all.skip(i as int).drop_first() =~= all.skip(i + 1));
        assert(all.skip(i as int)[0] == (custom@[i as int].0@, custom@[i as int].1@));
        let value = expand(custom[i].1.as_str(), &vars);
        match value {
            Ok(v) => {
                let k = custom[i].0.clone();
                vars.insert(k, v);
            },
            Err(e) => {
                return Err(e);
            },
        }
        i = i + 1;
    }
    assert(all.skip(i as int) =~= Seq::<(Seq<char>, Seq<char>)>::empty());
    Ok(vars)
}

/// A placeholder opens at `j`: `t` holds `${` there.
pub open spec fn opens_at(t: Seq<char>, j: int) -> bool {
    0 <= j && j + 1 < t.len() && t[j] == '$' && t[j + 1] == '{'
}

proof fn lemma_plain_suffix(t: Seq<char>, vars: Map<Seq<char>, Seq<char>>, i: int)
    requires
        0 <= i <= t.len(),
        forall|j: int| !#[trigger] opens_at(t, j),
    ensures
        expand_from(t, vars, i) == Ok::<Seq<char>, Seq<char>>(t.subrange(i, t.len() as int)),
    decreases t.len() - i,
{
    if i < t.len() {
        lemma_plain_suffix(t, vars, i + 1);
        assert(!opens_at(t, i));
        assert(placeholder_end(t, i) is None);
        assert(seq![t[i]] + t.subrange(i + 1, t.len() as int) =~= t.subrange(i, t.len() as int));
    } else {
        assert(t.subrange(i, t.len() as int) =~= Seq::<char>::empty());
    }
}

/// A template without `${` expands to itself, whatever the bindings.
pub proof fn expand_plain_is_identity(t: Seq<char>, vars: Map<Seq<char>, Seq<char>>)
    requires
        forall|j: int| !#[trigger] opens_at(t, j),
    ensures
        expand_spec(t, vars) == Ok::<Seq<char>, Seq<char>>(t),
{
    lemma_plain_suffix(t, vars, 0);
    assert(t.subrange(0, t.len() as int) =~= t);
}

/// `${NAME}` alone expands to the value of `NAME` when it is bound, and names
/// `NAME` as undefined when it is not.
pub proof fn expand_single_placeholder(name: Seq<char>, vars: Map<Seq<char>, Seq<char>>)
    requires
        forall|j: int| 0 <= j < name.len() ==> name[j] != '}',
    ensures
        expand_spec(seq!['$', '{'] + name + seq!['}'], vars) == if vars.contains_key(name) {
            Ok::<Seq<char>, Seq<char>>(vars[name])
        } else {
            Err::<Seq<char>, Seq<char>>(name)
        },
{
    let t = seq!['$', '{'] + name + seq!['}'];
    let n = name.len() as int;
    assert(t.len() == n + 3);
    assert forall|j: int| 2 <= j < n + 2 implies t[j] != '}' by {
        assert(t[j] == name[j - 2]);
    }
    assert(t[n + 2] == '}');
    crate::text::lemma_find_char(t, '}', 2);
    assert(find_char(t, '}', 2) == Some(n + 2)) by {
        let f = find_char(t, '}', 2);
        if f is None {
        } else {
            let k = f.unwrap();
            if k < n + 2 {
            } else if k > n + 2 {
            }
        }
    }
    assert(t.subrange(2, n + 2) =~= name);
    assert(expand_from(t, vars, n + 3) == Ok::<Seq<char>, Seq<char>>(Seq::empty()));
    if vars.contains_key(name) {
        assert(vars[name] + Seq::<char>::empty() =~= vars[name]);
    }
}

} // verus!
