//! The per-hub `agentctl.toml` settings and the ignore rules of hub content.

use vstd::prelude::*;

use crate::text::{
    chars_of, ends_with, find_char, find_char_from, has_char, has_char_between, has_prefix,
    has_suffix, lemma_find_char, lemma_rfind_char, lowercase, rfind_char, rfind_char_in,
    starts_with, to_lowercase,
};

verus! {

/// Settings read from `agentctl.toml` at the root of a hub.
#[derive(Debug)]
pub struct HubConfig {
    pub hub: HubSection,
    pub generate: GenerateSection,
}

/// The `[hub]` table.
#[derive(Debug)]
pub struct HubSection {
    pub id: Option<String>,
}

/// The `[generate]` table.
#[derive(Debug)]
pub struct GenerateSection {
    pub ignore: Option<Vec<String>>,
}

impl HubConfig {
    /// The settings used when `agentctl.toml` is absent or unreadable.
    pub fn default_config() -> (r: HubConfig)
        ensures
            r.hub.id is None,
            r.generate.ignore is None,
    {
        HubConfig { hub: HubSection { id: None }, generate: GenerateSection { ignore: None } }
    }
}

impl Default for HubConfig {
    /// No hub id and no ignore list: the default exclusions apply.
    fn default() -> (r: HubConfig)
        ensures
            r.hub.id is None,
            r.generate.ignore is None,
    {
        HubConfig::default_config()
    }
}

/// The exclusions that apply when no `[generate] ignore` list is set.
pub open spec fn default_ignore() -> Seq<Seq<char>> {
    seq!["README.md"@, "CHANGELOG.md"@, "CONTRIBUTING.md"@, "ARCHIVED.md"@]
}

/// The strings of a list, as character sequences.
pub open spec fn strings_view(v: Seq<String>) -> Seq<Seq<char>> {
    v.map_values(|s: String| s@)
}

/// A pattern or a path as compared: lowercase, with `\` read as `/`.
pub open spec fn normalize(s: Seq<char>) -> Seq<char> {
    lowercase(s).map_values(|c: char|
        if c == '\\' {
            '/'
        } else {
            c
        })
}

/// The last component of a `/`-separated path.
pub open spec fn file_name_of(path: Seq<char>) -> Seq<char> {
    match rfind_char(path, '/', path.len() as int) {
        Some(i) => path.subrange(i + 1, path.len() as int),
        None => path,
    }
}

/// `name` matches `pat`, where the first `*` of `pat` stands for any run of
/// characters (the rest of `pat` is literal): `name` is the part before the
/// `*`, then the run, then the part after it, with no overlap. With
/// `one_segment`, the run may not hold a `/`.
pub open spec fn wildcard_match(pat: Seq<char>, name: Seq<char>, one_segment: bool) -> bool {
    match find_char(pat, '*', 0) {
        None => name == pat,
        Some(i) => {
            let pre = pat.subrange(0, i);
            let suf = pat.subrange(i + 1, pat.len() as int);
            &&& has_prefix(name, pre)
            &&& has_suffix(name, suf)
            &&& pre.len() + suf.len() <= name.len()
            &&& one_segment ==> !has_char(
                name.subrange(pre.len() as int, name.len() - suf.len()),
                '/',
            )
        },
    }
}

/// A name matches a pattern with a `*` exactly when it is the part of the
/// pattern before its first `*`, then some run of characters (holding no `/`
/// when `one_segment`), then the part after the `*`; a pattern without `*`
/// matches itself only.
pub proof fn wildcard_is_prefix_run_suffix(pat: Seq<char>, name: Seq<char>, one_segment: bool)
    ensures
        match find_char(pat, '*', 0) {
            None => wildcard_match(pat, name, one_segment) == (name == pat),
            Some(i) => wildcard_match(pat, name, one_segment) == exists|mid: Seq<char>|
                name == pat.subrange(0, i) + mid + pat.subrange(i + 1, pat.len() as int) && (
                one_segment ==> forall|k: int| 0 <= k < mid.len() ==> mid[k] != '/'),
        },
{
    lemma_find_char(pat, '*', 0);
    if let Some(i) = find_char(pat, '*', 0) {
        let pre = pat.subrange(0, i);
        let suf = pat.subrange(i + 1, pat.len() as int);
        if wildcard_match(pat, name, one_segment) {
            let mid = name.subrange(pre.len() as int, name.len() - suf.len());
            assert(name =~= pre + mid + suf) by {
                assert(name.subrange(0, pre.len() as int) == pre);
                assert(name.subrange(name.len() - suf.len(), name.len() as int) == suf);
                assert forall|k: int| 0 <= k < name.len() implies name[k] == (pre + mid + suf)[k] by {
                    if k < pre.len() {
                        assert(name[k] == name.subrange(0, pre.len() as int)[k]);
                    } else if k < name.len() - suf.len() {
                    } else {
                        assert(name[k] == name.subrange(name.len() - suf.len(), name.len() as int)[k
                            - (name.len() - suf.len())]);
                    }
                }
            }
            if one_segment {
                assert forall|k: int| 0 <= k < mid.len() implies mid[k] != '/' by {
                    if mid[k] == '/' {
                        assert(has_char(mid, '/'));
                    }
                }
            }
        }
        if exists|mid: Seq<char>|
            name == pre + mid + suf && (one_segment ==> forall|k: int|
                0 <= k < mid.len() ==> mid[k] != '/') {
            let mid = choose|mid: Seq<char>|
                name == pre + mid + suf && (one_segment ==> forall|k: int|
                    0 <= k < mid.len() ==> mid[k] != '/');
            assert(name.subrange(0, pre.len() as int) =~= pre);
            assert(name.subrange(name.len() - suf.len(), name.len() as int) =~= suf);
            assert(name.subrange(pre.len() as int, name.len() - suf.len()) =~= mid);
        }
    }
}

/// A normalized pattern excludes a normalized path:
/// a pattern ending in `/` excludes everything under that directory; a pattern
/// holding a `/` is matched against the whole path; any other pattern is
/// matched against the file name only.
pub open spec fn pattern_excludes(pat: Seq<char>, path: Seq<char>) -> bool {
    if pat.len() > 0 && pat.last() == '/' {
        has_prefix(path, pat)
    } else if has_char(pat, '/') {
        wildcard_match(pat, path, true)
    } else {
        wildcard_match(pat, file_name_of(path), false)
    }
}

/// Some pattern of `list` excludes `path`, both taken case-insensitively and
/// with `\` as `/`.
pub open spec fn excluded_by(list: Seq<Seq<char>>, path: Seq<char>) -> bool {
    exists|k: int| 0 <= k < list.len() && pattern_excludes(normalize(list[k]), normalize(path))
}

/// Two paths that read the same once lowercased and with `\` as `/` are
/// excluded alike.
pub proof fn same_normal_form_same_verdict(list: Seq<Seq<char>>, a: Seq<char>, b: Seq<char>)
    requires
        normalize(a) == normalize(b),
    ensures
        excluded_by(list, a) == excluded_by(list, b),
{
}

/// A pattern that ends in `/` excludes every path under that directory.
pub proof fn directory_pattern_excludes_beneath(list: Seq<Seq<char>>, k: int, path: Seq<char>)
    requires
        0 <= k < list.len(),
        normalize(list[k]).len() > 0,
        normalize(list[k]).last() == '/',
        has_prefix(normalize(path), normalize(list[k])),
    ensures
        excluded_by(list, path),
{
    assert(pattern_excludes(normalize(list[k]), normalize(path)));
}

impl HubConfig {
    /// The ignore patterns in force: the configured list, else the defaults.
    pub open spec fn ignore_list_spec(&self) -> Seq<Seq<char>> {
        match self.generate.ignore {
            Some(list) => strings_view(list@),
            None => default_ignore(),
        }
    }

    /// Effective ignore list: from config if set, otherwise defaults.
    pub fn ignore_list(&self) -> (r: Vec<String>)
        ensures
            strings_view(r@) == self.ignore_list_spec(),
    {
        let mut r: Vec<String> = Vec::new();
        match &self.generate.ignore {
            Some(list) => {
                let mut i: usize = 0;
                while i < list.len()
                    invariant
                        i <= list.len(),
                        strings_view(r@) =~= strings_view(list@).subrange(0, i as int),
                    decreases list.len() - i,
                {
                    assert(strings_view(r@).len() == i);
                    assert(r@.len() == i);
                    let c = list[i].clone();
                    assert(c@ == list@[i as int]@);
                    let ghost old_r = r@;
                    r.push(c);
                    assert forall|j: int| 0 <= j < i + 1 implies #[trigger] strings_view(r@)[j]
                        == strings_view(list@)[j] by {
                        if j < i {
                            assert(strings_view(old_r)[j] == strings_view(list@).subrange(
                                0,
                                i as int,
                            )[j]);
                        }
                    }
                    assert(strings_view(r@) =~= strings_view(list@).subrange(0, i + 1));
                    i = i + 1;
                }
            },
            None => {
                r.push(String::from_str("README.md"));
                r.push(String::from_str("CHANGELOG.md"));
                r.push(String::from_str("CONTRIBUTING.md"));
                r.push(String::from_str("ARCHIVED.md"));
            },
        }
        assert(strings_view(r@) =~= self.ignore_list_spec());
        r
    }

    /// Whether the file at `path` (relative to the hub root) is excluded:
    /// some ignore pattern excludes it, case-insensitively, with `\` read as `/`.
    pub fn is_ignored(&self, path: &str) -> (r: bool)
        ensures
            r == excluded_by(self.ignore_list_spec(), path@),
    {
        let list = self.ignore_list();
        let target = normalized(path);
        let mut k: usize = 0;
        while k < list.len()
            invariant
                k <= list.len(),
                strings_view(list@) == self.ignore_list_spec(),
                target@ == normalize(path@),
                forall|j: int|
                    0 <= j < k ==> !pattern_excludes(
                        normalize(self.ignore_list_spec()[j]),
                        normalize(path@),
                    ),
            decreases list.len() - k,
        {
            let pat = normalized(list[k].as_str());
            if glob_match(&pat, &target) {
                assert(strings_view(list@)[k as int] == list@[k as int]@);
                assert(pattern_excludes(normalize(self.ignore_list_spec()[k as int]), normalize(path@)));
                return true;
            }
            k = k + 1;
        }
        false
    }
}

/// `s` lowercased, with every `\` replaced by `/`.
pub fn normalized(s: &str) -> (r: Vec<char>)
    ensures
        r@ == normalize(s@),
{
    let lower = to_lowercase(s);
    let cs = chars_of(lower.as_str());
    let mut r: Vec<char> = Vec::new();
    let mut i: usize = 0;
    while i < cs.len()
        invariant
            i <= cs.len(),
            cs@ == lowercase(s@),
            r@ =~= normalize(s@).subrange(0, i as int),
        decreases cs.len() - i,
    {
        if cs[i] == '\\' {
            r.push('/');
        } else {
            r.push(cs[i]);
        }
        i = i + 1;
    }
    r
}

/// Exec counterpart of `wildcard_match`.
fn wildcard(pat: &[char], name: &[char], one_segment: bool) -> (r: bool)
    ensures
        r == wildcard_match(pat@, name@, one_segment),
{
    match find_char_from(pat, '*', 0) {
        None => {
            if pat.len() != name.len() {
                return false;
            }
            let same = starts_with(name, pat);
            proof {
                if same {
                    assert(name@ =~= pat@);
                } else {
                    assert(name@.subrange(0, pat@.len() as int) =~= name@);
                }
            }
            same
        },
        Some(i) => {
            proof {
                lemma_find_char(pat@, '*', 0);
            }
            let n = pat.len();
            assert(i < n);
            let pre = vstd::slice::slice_subrange(pat, 0, i);
            let suf = vstd::slice::slice_subrange(pat, i + 1, pat.len());
            if !starts_with(name, pre) || !ends_with(name, suf) {
                return false;
            }
            if pre.len() + suf.len() > name.len() {
                return false;
            }
            if one_segment {
                !has_char_between(name, '/', pre.len(), name.len() - suf.len())
            } else {
                true
            }
        },
    }
}

/// Exec counterpart of `file_name_of`.
fn file_name(path: &[char]) -> (r: &[char])
    ensures
        r@ == file_name_of(path@),
{
    match rfind_char_in(path, '/') {
        Some(i) => {
            proof {
                lemma_rfind_char(path@, '/', path@.len() as int);
            }
            let n = path.len();
            assert(i < n);
            vstd::slice::slice_subrange(path, i + 1, path.len())
        },
        None => path,
    }
}

/// Whether the normalized pattern `pat` excludes the normalized path `path`
/// (see `pattern_excludes`).
pub fn glob_match(pat: &Vec<char>, path: &Vec<char>) -> (r: bool)
    ensures
        r == pattern_excludes(pat@, path@),
{
    if pat.len() > 0 && pat[pat.len() - 1] == '/' {
        starts_with(path.as_slice(), pat.as_slice())
    } else if has_char_between(pat.as_slice(), '/', 0, pat.len()) {
        assert(pat@.subrange(0, pat@.len() as int) =~= pat@);
        wildcard(pat.as_slice(), path.as_slice(), true)
    } else {
        assert(pat@.subrange(0, pat@.len() as int) =~= pat@);
        wildcard(pat.as_slice(), file_name(path.as_slice()), false)
    }
}

} // verus!
