//! Installing, updating and listing skills: which hub and which index entry a
//! command acts on, what it installs, and when an installed skill is current.

pub mod lifecycle;
pub mod lock;
pub mod vars;

use vstd::prelude::*;

use crate::config::{Config, HubEntry};
use crate::hub::registry::{find_hub, framed, lemma_find_hub, position};
use crate::hub::schema::opt_chars;
use crate::skill::lock::{lock_key, LockEntry, LockFile};
use crate::text::{
    chars_of, concat_str, find_char, find_char_from, lemma_find_char, lemma_rfind_char, rfind_char,
    rfind_char_in, str_eq, string_of,
};

verus! {

/// A skill as a hub index lists it, as far as installing and updating read it:
/// each field is kept where the index holds a string there.
#[derive(Debug)]
pub struct IndexSkill {
    pub slug: Option<String>,
    pub name: Option<String>,
    pub version: Option<String>,
    pub commit_hash: Option<String>,
    pub commit: Option<String>,
    pub path: Option<String>,
}

/// A hub index: its `skills` list, when the index holds an array there.
#[derive(Debug)]
pub struct HubIndex {
    pub skills: Option<Vec<IndexSkill>>,
}

/// Names the result of `serde_json::from_str::<serde_json::Value>` on an index
/// text, read as a `HubIndex`, or the parser's error message.
pub uninterp spec fn index_json(text: Seq<char>) -> Result<HubIndex, Seq<char>>;

/// Parses an index text with `serde_json::from_str` and keeps, of each item of
/// its `skills` array, the string fields that installing reads; the result is
/// `index_json` of the text.
#[verifier::external_body]
fn read_index(text: &str) -> (r: Result<HubIndex, String>)
    ensures
        match r {
            Ok(ix) => index_json(text@) == Ok::<HubIndex, Seq<char>>(ix),
            Err(e) => index_json(text@) == Err::<HubIndex, Seq<char>>(e@),
        },
{
    let v: serde_json::Value = serde_json::from_str(text).map_err(|e| e.to_string())?;
    let f = |x: &serde_json::Value, k: &str| x[k].as_str().map(String::from);
    let item = |x: &serde_json::Value| IndexSkill {
        slug: f(x, "slug"),
        name: f(x, "name"),
        version: f(x, "version"),
        commit_hash: f(x, "commit_hash"),
        commit: f(x, "commit"),
        path: f(x, "path"),
    };
    Ok(HubIndex { skills: v["skills"].as_array().map(|a| a.iter().map(item).collect()) })
}

/// Why a skill command was refused.
#[derive(Debug)]
pub enum SkillError {
    /// No skill hub has this id.
    HubNotFound(String),
    /// No hub id was given and no skill hub is enabled.
    NoEnabledHub,
    /// The index text is not JSON (the parser's message).
    InvalidIndex(String),
    /// The index has no `skills` array.
    MissingSkillsArray,
    /// The index lists no skill with this slug or name (the skill, the hub).
    SkillNotInHub(String, String),
    /// The index entry of the skill has no `path`.
    MissingPath,
    /// The hub has no `git_url` to install from (the hub).
    NoGitUrl(String),
    /// The index of the installed skill's hub lists no skill with this slug or
    /// name (the skill).
    UpdateNotInHub(String),
    /// The hub of the installed skill has no `git_url` to update from (the hub).
    UpdateNoGitUrl(String),
    /// No installed skill has this name.
    NotInstalled(String),
    /// The skill is not installed from that hub (the skill, the hub).
    NotInstalledFrom(String, String),
}

/// The first enabled hub of the list.
pub open spec fn first_enabled(hubs: Seq<HubEntry>) -> Option<int>
    decreases hubs.len(),
{
    if hubs.len() == 0 {
        None
    } else if hubs[0].enabled {
        Some(0)
    } else {
        match first_enabled(hubs.drop_first()) {
            Some(i) => Some(i + 1),
            None => None,
        }
    }
}

pub proof fn lemma_first_enabled(hubs: Seq<HubEntry>)
    ensures
        match first_enabled(hubs) {
            Some(i) => 0 <= i < hubs.len() && hubs[i].enabled && forall|j: int|
                0 <= j < i ==> !(#[trigger] hubs[j]).enabled,
            None => forall|j: int| 0 <= j < hubs.len() ==> !(#[trigger] hubs[j]).enabled,
        },
    decreases hubs.len(),
{
    if hubs.len() > 0 {
        lemma_first_enabled(hubs.drop_first());
        assert forall|j: int| 0 < j < hubs.len() implies hubs[j] == hubs.drop_first()[j - 1] by {}
    }
}

/// The skill hub that `skill install` uses: the one with the given id, else
/// the first enabled one.
pub fn find_install_hub<'a>(cfg: &'a Config, hub_id: Option<&str>) -> (r: Result<
    &'a HubEntry,
    SkillError,
>)
    ensures
        match hub_id {
            Some(id) => match find_hub(cfg.skill_hubs@, id@) {
                Some(i) => r matches Ok(h) && *h == cfg.skill_hubs@[i],
                None => r matches Err(SkillError::HubNotFound(x)) && x@ == id@,
            },
            None => match first_enabled(cfg.skill_hubs@) {
                Some(i) => r matches Ok(h) && *h == cfg.skill_hubs@[i],
                None => r matches Err(SkillError::NoEnabledHub),
            },
        },
{
    match hub_id {
        Some(id) => match position(&cfg.skill_hubs, id) {
            Some(i) => {
                proof {
                    lemma_find_hub(cfg.skill_hubs@, id@);
                }
                Ok(&cfg.skill_hubs[i])
            },
            None => Err(SkillError::HubNotFound(String::from_str(id))),
        },
        None => {
            proof {
                lemma_first_enabled(cfg.skill_hubs@);
            }
            let mut i: usize = 0;
            while i < cfg.skill_hubs.len()
                invariant
                    i <= cfg.skill_hubs.len(),
                    hub_id is None,
                    forall|j: int| 0 <= j < i ==> !(#[trigger] cfg.skill_hubs@[j]).enabled,
                    match first_enabled(cfg.skill_hubs@) {
                        Some(k) => 0 <= k < cfg.skill_hubs@.len() && cfg.skill_hubs@[k].enabled
                            && forall|j: int| 0 <= j < k ==> !(#[trigger] cfg.skill_hubs@[j]).enabled,
                        None => forall|j: int|
                            0 <= j < cfg.skill_hubs@.len() ==> !(#[trigger] cfg.skill_hubs@[j]).enabled,
                    },
                decreases cfg.skill_hubs.len() - i,
            {
                if cfg.skill_hubs[i].enabled {
                    return Ok(&cfg.skill_hubs[i]);
                }
                i = i + 1;
            }
            Err(SkillError::NoEnabledHub)
        },
    }
}

/// The index entry is the skill `name`: its slug or its name is `name`.
pub open spec fn skill_matches(s: IndexSkill, name: Seq<char>) -> bool {
    opt_chars(s.slug) == Some(name) || opt_chars(s.name) == Some(name)
}

/// The first index entry that is the skill `name`.
pub open spec fn find_index_skill(skills: Seq<IndexSkill>, name: Seq<char>) -> Option<int>
    decreases skills.len(),
{
    if skills.len() == 0 {
        None
    } else if skill_matches(skills[0], name) {
        Some(0)
    } else {
        match find_index_skill(skills.drop_first(), name) {
            Some(i) => Some(i + 1),
            None => None,
        }
    }
}

pub proof fn lemma_find_index_skill(skills: Seq<IndexSkill>, name: Seq<char>)
    ensures
        match find_index_skill(skills, name) {
            Some(i) => 0 <= i < skills.len() && skill_matches(skills[i], name) && forall|j: int|
                0 <= j < i ==> !skill_matches(#[trigger] skills[j], name),
            None => forall|j: int| 0 <= j < skills.len() ==> !skill_matches(#[trigger] skills[j], name),
        },
    decreases skills.len(),
{
    if skills.len() > 0 {
        lemma_find_index_skill(skills.drop_first(), name);
        assert forall|j: int| 0 < j < skills.len() implies skills[j] == skills.drop_first()[j - 1] by {}
    }
}

fn opt_is(s: &Option<String>, name: &str) -> (r: bool)
    ensures
        r == (opt_chars(*s) == Some(name@)),
{
    match s {
        Some(t) => str_eq(t.as_str(), name),
        None => false,
    }
}

/// The position of the first index entry that is the skill `name`.
pub fn index_position(skills: &Vec<IndexSkill>, name: &str) -> (r: Option<usize>)
    ensures
        match r {
            Some(i) => find_index_skill(skills@, name@) == Some(i as int),
            None => find_index_skill(skills@, name@) is None,
        },
{
    proof {
        lemma_find_index_skill(skills@, name@);
    }
    let mut i: usize = 0;
    while i < skills.len()
        invariant
            i <= skills.len(),
            forall|j: int| 0 <= j < i ==> !skill_matches(#[trigger] skills@[j], name@),
            match find_index_skill(skills@, name@) {
                Some(k) => 0 <= k < skills@.len() && skill_matches(skills@[k], name@) && forall|j: int|
                    0 <= j < k ==> !skill_matches(#[trigger] skills@[j], name@),
                None => forall|j: int|
                    0 <= j < skills@.len() ==> !skill_matches(#[trigger] skills@[j], name@),
            },
        decreases skills.len() - i,
    {
        let s = &skills[i];
        if opt_is(&s.slug, name) || opt_is(&s.name, name) {
            return Some(i);
        }
        i = i + 1;
    }
    None
}

/// The version an index entry offers: its `version`, else `0.1.0`.
pub open spec fn offered_version(s: IndexSkill) -> Seq<char> {
    match s.version {
        Some(v) => v@,
        None => "0.1.0"@,
    }
}

/// The commit an index entry pins: its `commit_hash`, else its `commit`, else
/// nothing (the empty string).
pub open spec fn offered_commit(s: IndexSkill) -> Seq<char> {
    match s.commit_hash {
        Some(c) => c@,
        None => match s.commit {
            Some(c) => c@,
            None => Seq::empty(),
        },
    }
}

fn version_of(s: &IndexSkill) -> (r: String)
    ensures
        r@ == offered_version(*s),
{
    match &s.version {
        Some(v) => v.clone(),
        None => String::from_str("0.1.0"),
    }
}

fn commit_of(s: &IndexSkill) -> (r: String)
    ensures
        r@ == offered_commit(*s),
{
    match &s.commit_hash {
        Some(c) => c.clone(),
        None => match &s.commit {
            Some(c) => c.clone(),
            None => String::new(),
        },
    }
}

/// What to fetch for a skill: the version and commit the index offers, the
/// skill's directory in the hub repository, and the repository.
#[derive(Debug)]
pub struct InstallPlan {
    pub version: String,
    pub commit: String,
    pub path: String,
    pub git_url: String,
}

/// The plan `skill install` follows for the skill `name` of `hub`: the first
/// index entry that is the skill gives the version, the commit and the path,
/// and the hub gives the repository. Refused when the index has no `skills`
/// array, lists no such skill, the entry has no `path`, or the hub has no
/// `git_url`, checked in that order.
pub fn plan_install(hub: &HubEntry, index: &HubIndex, name: &str) -> (r: Result<
    InstallPlan,
    SkillError,
>)
    ensures
        match index.skills {
            None => r matches Err(SkillError::MissingSkillsArray),
            Some(list) => match find_index_skill(list@, name@) {
                None => r matches Err(SkillError::SkillNotInHub(n, h)) && n@ == name@ && h@
                    == hub.id@,
                Some(i) => match list@[i].path {
                    None => r matches Err(SkillError::MissingPath),
                    Some(p) => match hub.git_url {
                        None => r matches Err(SkillError::NoGitUrl(h)) && h@ == hub.id@,
                        Some(g) => r matches Ok(plan) && plan.version@ == offered_version(list@[i])
                            && plan.commit@ == offered_commit(list@[i]) && plan.path@ == p@
                            && plan.git_url@ == g@,
                    },
                },
            },
        },
{
    let list = match &index.skills {
        None => {
            return Err(SkillError::MissingSkillsArray);
        },
        Some(l) => l,
    };
    let i = match index_position(list, name) {
        None => {
            return Err(SkillError::SkillNotInHub(String::from_str(name), hub.id.clone()));
        },
        Some(i) => i,
    };
    proof {
        lemma_find_index_skill(list@, name@);
    }
    let s = &list[i];
    let version = version_of(s);
    let commit = commit_of(s);
    let path = match &s.path {
        None => {
            return Err(SkillError::MissingPath);
        },
        Some(p) => p.clone(),
    };
    match &hub.git_url {
        None => Err(SkillError::NoGitUrl(hub.id.clone())),
        Some(g) => Ok(InstallPlan { version, commit, path, git_url: g.clone() }),
    }
}

/// Reads the index text of `hub` and plans the install of the skill `name`
/// from it; an index that is not JSON is refused with the parser's message.
pub fn plan_install_from(hub: &HubEntry, index_text: &str, name: &str) -> (r: Result<
    InstallPlan,
    SkillError,
>)
    ensures
        match index_json(index_text@) {
            Err(e) => r matches Err(SkillError::InvalidIndex(m)) && m@ == e,
            Ok(index) => match index.skills {
                None => r matches Err(SkillError::MissingSkillsArray),
                Some(list) => match find_index_skill(list@, name@) {
                    None => r matches Err(SkillError::SkillNotInHub(n, h)) && n@ == name@ && h@
                        == hub.id@,
                    Some(i) => match list@[i].path {
                        None => r matches Err(SkillError::MissingPath),
                        Some(p) => match hub.git_url {
                            None => r matches Err(SkillError::NoGitUrl(h)) && h@ == hub.id@,
                            Some(g) => r matches Ok(plan) && plan.version@ == offered_version(
                                list@[i],
                            ) && plan.commit@ == offered_commit(list@[i]) && plan.path@ == p@
                                && plan.git_url@ == g@,
                        },
                    },
                },
            },
        },
{
    match read_index(index_text) {
        Err(e) => Err(SkillError::InvalidIndex(e)),
        Ok(index) => plan_install(hub, &index, name),
    }
}

/// The first entry of the lock file whose slug is `name`.
pub open spec fn find_by_slug(skills: Seq<(String, LockEntry)>, name: Seq<char>) -> Option<int>
    decreases skills.len(),
{
    if skills.len() == 0 {
        None
    } else if skills[0].1.slug@ == name {
        Some(0)
    } else {
        match find_by_slug(skills.drop_first(), name) {
            Some(i) => Some(i + 1),
            None => None,
        }
    }
}

pub proof fn lemma_find_by_slug(skills: Seq<(String, LockEntry)>, name: Seq<char>)
    ensures
        match find_by_slug(skills, name) {
            Some(i) => 0 <= i < skills.len() && skills[i].1.slug@ == name && forall|j: int|
                0 <= j < i ==> (#[trigger] skills[j]).1.slug@ != name,
            None => forall|j: int| 0 <= j < skills.len() ==> (#[trigger] skills[j]).1.slug@ != name,
        },
    decreases skills.len(),
{
    if skills.len() > 0 {
        lemma_find_by_slug(skills.drop_first(), name);
        assert forall|j: int| 0 < j < skills.len() implies skills[j] == skills.drop_first()[j - 1] by {}
    }
}

/// The installed skill that `skill update` acts on: the one recorded under
/// `hub_id:name` when a hub is given, else the first one whose slug is `name`.
pub fn find_installed<'a>(lock: &'a LockFile, name: &str, hub_id: Option<&str>) -> (r: Result<
    &'a LockEntry,
    SkillError,
>)
    ensures
        match hub_id {
            Some(id) => match lock.entry(lock_key(id@, name@)) {
                Some(e) => r matches Ok(x) && *x == e,
                None => r matches Err(SkillError::NotInstalledFrom(n, h)) && n@ == name@ && h@
                    == id@,
            },
            None => match find_by_slug(lock.skills@, name@) {
                Some(i) => r matches Ok(x) && *x == lock.skills@[i].1,
                None => r matches Err(SkillError::NotInstalled(n)) && n@ == name@,
            },
        },
{
    match hub_id {
        Some(id) => match lock.get(id, name) {
            Some(e) => Ok(e),
            None => Err(SkillError::NotInstalledFrom(String::from_str(name), String::from_str(id))),
        },
        None => {
            proof {
                lemma_find_by_slug(lock.skills@, name@);
            }
            let mut i: usize = 0;
            while i < lock.skills.len()
                invariant
                    i <= lock.skills.len(),
                    hub_id is None,
                    forall|j: int| 0 <= j < i ==> (#[trigger] lock.skills@[j]).1.slug@ != name@,
                    match find_by_slug(lock.skills@, name@) {
                        Some(k) => 0 <= k < lock.skills@.len() && lock.skills@[k].1.slug@ == name@
                            && forall|j: int|
                            0 <= j < k ==> (#[trigger] lock.skills@[j]).1.slug@ != name@,
                        None => forall|j: int|
                            0 <= j < lock.skills@.len() ==> (#[trigger] lock.skills@[j]).1.slug@
                                != name@,
                    },
                decreases lock.skills.len() - i,
            {
                if str_eq(lock.skills[i].1.slug.as_str(), name) {
                    return Ok(&lock.skills[i].1);
                }
                i = i + 1;
            }
            Err(SkillError::NotInstalled(String::from_str(name)))
        },
    }
}

/// What `skill update` does with an installed skill.
#[derive(Debug)]
pub enum UpdateDecision {
    /// The index offers the installed version and commit (the version).
    UpToDate(String),
    /// The index offers another version or commit: fetch this.
    Update(InstallPlan),
}

/// The directory of the skill in the hub repository: the entry's `path`,
/// else the skill's name.
pub open spec fn update_path(s: IndexSkill, name: Seq<char>) -> Seq<char> {
    match s.path {
        Some(p) => p@,
        None => name,
    }
}

/// Decides how to update the installed skill `existing` (named `name`) from
/// the index of its hub: the first entry that is the skill is current when
/// it offers the installed version and commit; otherwise the skill is fetched
/// again from the hub's repository.
pub fn plan_update(hub: &HubEntry, existing: &LockEntry, index: &HubIndex, name: &str) -> (r: Result<
    UpdateDecision,
    SkillError,
>)
    requires
        index.skills is Some,
    ensures
        match find_index_skill(index.skills.unwrap()@, name@) {
            None => r matches Err(e) && e matches SkillError::UpdateNotInHub(n) && n@ == name@
                && skill_message(e) == "skill '"@ + name@ + "' not found in hub"@,
            Some(i) => {
                let s = index.skills.unwrap()@[i];
                if offered_version(s) == existing.version@ && offered_commit(s) == existing.commit@ {
                    r matches Ok(UpdateDecision::UpToDate(v)) && v@ == offered_version(s)
                } else {
                    match hub.git_url {
                        None => r matches Err(e) && e matches SkillError::UpdateNoGitUrl(h) && h@ == hub.id@
                            && skill_message(e) == "hub '"@ + hub.id@ + "' has no git_url"@,
                        Some(g) => r matches Ok(UpdateDecision::Update(plan)) && plan.version@
                            == offered_version(s) && plan.commit@ == offered_commit(s)
                            && plan.path@ == update_path(s, name@) && plan.git_url@ == g@,
                    }
                }
            },
        },
{
    let list = match &index.skills {
        Some(l) => l,
        None => {
            return Err(SkillError::MissingSkillsArray);
        },
    };
    let i = match index_position(list, name) {
        None => {
            return Err(SkillError::UpdateNotInHub(String::from_str(name)));
        },
        Some(i) => i,
    };
    proof {
        lemma_find_index_skill(list@, name@);
    }
    let s = &list[i];
    let version = version_of(s);
    let commit = commit_of(s);
    if str_eq(version.as_str(), existing.version.as_str()) && str_eq(
        commit.as_str(),
        existing.commit.as_str(),
    ) {
        return Ok(UpdateDecision::UpToDate(version));
    }
    match &hub.git_url {
        None => Err(SkillError::UpdateNoGitUrl(hub.id.clone())),
        Some(g) => {
            let path = match &s.path {
                Some(p) => p.clone(),
                None => String::from_str(name),
            };
            Ok(UpdateDecision::Update(InstallPlan { version, commit, path, git_url: g.clone() }))
        },
    }
}

/// Reads the index text of `hub` and decides how to update `existing` from
/// it; an index that is not JSON, or that has no `skills` array, is refused.
pub fn plan_update_from(hub: &HubEntry, existing: &LockEntry, index_text: &str, name: &str) -> (r:
    Result<UpdateDecision, SkillError>)
    ensures
        match index_json(index_text@) {
            Err(e) => r matches Err(SkillError::InvalidIndex(m)) && m@ == e,
            Ok(index) => match index.skills {
                None => r matches Err(SkillError::MissingSkillsArray),
                Some(list) => match find_index_skill(list@, name@) {
                    None => r matches Err(e) && e matches SkillError::UpdateNotInHub(n) && n@ == name@
                && skill_message(e) == "skill '"@ + name@ + "' not found in hub"@,
                    Some(i) => if offered_version(list@[i]) == existing.version@ && offered_commit(
                        list@[i],
                    ) == existing.commit@ {
                        r matches Ok(UpdateDecision::UpToDate(v)) && v@ == offered_version(list@[i])
                    } else {
                        match hub.git_url {
                            None => r matches Err(e) && e matches SkillError::UpdateNoGitUrl(h) && h@ == hub.id@
                            && skill_message(e) == "hub '"@ + hub.id@ + "' has no git_url"@,
                            Some(g) => r matches Ok(UpdateDecision::Update(plan)) && plan.version@
                                == offered_version(list@[i]) && plan.commit@ == offered_commit(
                                list@[i],
                            ) && plan.path@ == update_path(list@[i], name@) && plan.git_url@ == g@,
                        }
                    },
                },
            },
        },
{
    match read_index(index_text) {
        Err(e) => Err(SkillError::InvalidIndex(e)),
        Ok(index) => {
            if index.skills.is_none() {
                return Err(SkillError::MissingSkillsArray);
            }
            plan_update(hub, existing, &index, name)
        },
    }
}

/// The line `skill list` prints for the skill recorded under `key`.
pub open spec fn list_line(key: Seq<char>, e: LockEntry) -> Seq<char> {
    "  "@ + key + " "@ + e.version@ + " ("@ + e.installed_path@ + ")"@
}

/// The lines `skill list` prints, one per installed skill, in the order of
/// the lock file.
pub fn list_lines(lock: &LockFile) -> (r: Vec<String>)
    ensures
        r@.len() == lock.skills@.len(),
        forall|i: int|
            0 <= i < r@.len() ==> (#[trigger] r@[i])@ == list_line(
                lock.skills@[i].0@,
                lock.skills@[i].1,
            ),
{
    let mut out: Vec<String> = Vec::new();
    let mut i: usize = 0;
    while i < lock.skills.len()
        invariant
            i <= lock.skills.len(),
            out@.len() == i,
            forall|j: int|
                0 <= j < i ==> (#[trigger] out@[j])@ == list_line(
                    lock.skills@[j].0@,
                    lock.skills@[j].1,
                ),
        decreases lock.skills.len() - i,
    {
        let (k, e) = (&lock.skills[i].0, &lock.skills[i].1);
        let a = concat_str("  ", k.as_str());
        let b = concat_str(a.as_str(), " ");
        let c = concat_str(b.as_str(), e.version.as_str());
        let d = concat_str(c.as_str(), " (");
        let f = concat_str(d.as_str(), e.installed_path.as_str());
        let line = concat_str(f.as_str(), ")");
        assert(line@ =~= list_line(k@, *e));
        out.push(line);
        i = i + 1;
    }
    out
}

/// A configured path with its first `~` replaced by the home directory.
pub open spec fn expand_tilde(path: Seq<char>, home: Seq<char>) -> Seq<char> {
    match find_char(path, '~', 0) {
        Some(i) => path.subrange(0, i) + home + path.subrange(i + 1, path.len() as int),
        None => path,
    }
}

/// Replaces the first `~` of a configured skills root by `home`.
pub fn expand_home(path: &str, home: &str) -> (r: String)
    ensures
        r@ == expand_tilde(path@, home@),
{
    let cs = chars_of(path);
    match find_char_from(cs.as_slice(), '~', 0) {
        None => String::from_str(path),
        Some(i) => {
            proof {
                lemma_find_char(cs@, '~', 0);
            }
            let n = cs.len();
            let before = string_of(vstd::slice::slice_subrange(cs.as_slice(), 0, i));
            let after = string_of(vstd::slice::slice_subrange(cs.as_slice(), i + 1, n));
            let with_home = concat_str(before.as_str(), home);
            concat_str(with_home.as_str(), after.as_str())
        },
    }
}

/// A `/`-separated path without the trailing separators and trailing `.`
/// components that do not change what it names (a lone `/` stays).
pub open spec fn trim_path_end(p: Seq<char>) -> Seq<char>
    decreases p.len(),
{
    if p.len() > 1 && p.last() == '/' {
        trim_path_end(p.drop_last())
    } else if p.len() > 1 && p.last() == '.' && p[p.len() - 2] == '/' {
        trim_path_end(p.drop_last())
    } else {
        p
    }
}

/// The last component of a trimmed path; `.`, `..`, the root and the empty
/// path have none (the empty sequence).
pub open spec fn last_component(t: Seq<char>) -> Seq<char> {
    let c = match rfind_char(t, '/', t.len() as int) {
        Some(i) => t.subrange(i + 1, t.len() as int),
        None => t,
    };
    if c == "."@ || c == ".."@ {
        Seq::empty()
    } else {
        c
    }
}

/// The directory that holds a trimmed path; the root and the empty path have none.
pub open spec fn parent_path(t: Seq<char>) -> Option<Seq<char>> {
    if t.len() == 0 || t == "/"@ {
        None
    } else {
        match rfind_char(t, '/', t.len() as int) {
            Some(i) => if i == 0 {
                Some("/"@)
            } else {
                Some(trim_path_end(t.subrange(0, i)))
            },
            None => Some(Seq::empty()),
        }
    }
}

/// `base` joined with the relative name `name`.
pub open spec fn join_name(base: Seq<char>, name: Seq<char>) -> Seq<char> {
    if base.len() == 0 {
        name
    } else if base.last() == '/' {
        base + name
    } else {
        base + "/"@ + name
    }
}

/// The skills root before a mode applies: the configured root with its first
/// `~` replaced by the home directory (empty when unknown), else
/// `<home>/.agent/skills` (with `.` for an unknown home).
pub open spec fn base_root(configured: Option<Seq<char>>, home: Option<Seq<char>>) -> Seq<char> {
    match configured {
        Some(p) => expand_tilde(
            p,
            match home {
                Some(h) => h,
                None => Seq::empty(),
            },
        ),
        None => join_name(
            join_name(
                match home {
                    Some(h) => h,
                    None => "."@,
                },
                ".agent"@,
            ),
            "skills"@,
        ),
    }
}

/// Where skills are installed: the base root, or with a mode, the sibling of
/// the base root whose name is the base root's name followed by `-<mode>`.
pub open spec fn skills_root_spec(
    configured: Option<Seq<char>>,
    mode: Option<Seq<char>>,
    home: Option<Seq<char>>,
) -> Seq<char> {
    let base = base_root(configured, home);
    match mode {
        None => base,
        Some(m) => {
            let t = trim_path_end(base);
            join_name(
                match parent_path(t) {
                    Some(p) => p,
                    None => base,
                },
                last_component(t) + "-"@ + m,
            )
        },
    }
}

fn trimmed_len(p: &[char]) -> (n: usize)
    ensures
        n <= p@.len(),
        trim_path_end(p@) == p@.take(n as int),
{
    let mut n = p.len();
    assert(p@.take(n as int) =~= p@);
    while n > 1 && (p[n - 1] == '/' || (p[n - 1] == '.' && p[n - 2] == '/'))
        invariant
            n <= p.len(),
            trim_path_end(p@) == trim_path_end(p@.take(n as int)),
        decreases n,
    {
        assert(p@.take(n as int).drop_last() =~= p@.take(n - 1));
        n = n - 1;
    }
    n
}

fn join_text(base: &str, name: &str) -> (r: String)
    ensures
        r@ == join_name(base@, name@),
{
    let b = chars_of(base);
    if b.len() == 0 {
        String::from_str(name)
    } else if b[b.len() - 1] == '/' {
        concat_str(base, name)
    } else {
        let with_sep = concat_str(base, "/");
        let r = concat_str(with_sep.as_str(), name);
        assert(r@ =~= base@ + "/"@ + name@);
        r
    }
}

fn is_text(cs: &[char], t: &str) -> (r: bool)
    ensures
        r == (cs@ == t@),
{
    str_eq(string_of(cs).as_str(), t)
}

/// Where skills are installed, for the configured root, an install mode and
/// the home directory (each absent when unknown or not given). Paths are read
/// as `/`-separated.
pub fn skills_root_path(configured: Option<&str>, mode: Option<&str>, home: Option<&str>) -> (r: String)
    ensures
        r@ == skills_root_spec(opt_text(configured), opt_text(mode), opt_text(home)),
{
    let base = match configured {
        Some(p) => expand_home(
            p,
            match home {
                Some(h) => h,
                None => "",
            },
        ),
        None => {
            let h = match home {
                Some(h) => h,
                None => ".",
            };
            let a = join_text(h, ".agent");
            join_text(a.as_str(), "skills")
        },
    };
    proof {
        reveal_strlit("");
        assert(base@ == base_root(opt_text(configured), opt_text(home)));
    }
    let m = match mode {
        None => {
            return base;
        },
        Some(m) => m,
    };
    let bc = chars_of(base.as_str());
    let n = trimmed_len(bc.as_slice());
    let t = vstd::slice::slice_subrange(bc.as_slice(), 0, n);
    assert(t@ == trim_path_end(base@));
    let cut = rfind_char_in(t, '/');
    proof {
        lemma_rfind_char(t@, '/', t@.len() as int);
    }
    let comp = match cut {
        Some(i) => vstd::slice::slice_subrange(t, i + 1, n),
        None => t,
    };
    let name = if is_text(comp, ".") || is_text(comp, "..") {
        String::new()
    } else {
        string_of(comp)
    };
    assert(name@ == last_component(t@));
    let parent = if n == 0 || is_text(t, "/") {
        base.clone()
    } else {
        match cut {
            Some(i) => if i == 0 {
                String::from_str("/")
            } else {
                let head = vstd::slice::slice_subrange(t, 0, i);
                let k = trimmed_len(head);
                string_of(vstd::slice::slice_subrange(head, 0, k))
            },
            None => String::new(),
        }
    };
    let suffix = concat_str(name.as_str(), "-");
    let leaf = concat_str(suffix.as_str(), m);
    let r = join_text(parent.as_str(), leaf.as_str());
    assert(leaf@ =~= last_component(t@) + "-"@ + m@);
    r
}

/// An optional `&str` as an optional character sequence.
pub open spec fn opt_text(s: Option<&str>) -> Option<Seq<char>> {
    match s {
        Some(t) => Some(t@),
        None => None,
    }
}

/// How a refused skill command is reported.
pub open spec fn skill_message(e: SkillError) -> Seq<char> {
    match e {
        SkillError::HubNotFound(id) => "hub '"@ + id@ + "' not found"@,
        SkillError::NoEnabledHub => "no enabled skill hub found"@,
        SkillError::InvalidIndex(m) => m@,
        SkillError::MissingSkillsArray => "invalid index: missing skills array"@,
        SkillError::SkillNotInHub(n, h) => "skill '"@ + n@ + "' not found in hub '"@ + h@ + "'"@,
        SkillError::MissingPath => "missing path in skill entry"@,
        SkillError::NoGitUrl(h) => "hub '"@ + h@ + "' has no git_url \u{2014} cannot install"@,
        SkillError::UpdateNotInHub(n) => "skill '"@ + n@ + "' not found in hub"@,
        SkillError::UpdateNoGitUrl(h) => "hub '"@ + h@ + "' has no git_url"@,
        SkillError::NotInstalled(n) => "skill '"@ + n@ + "' not installed"@,
        SkillError::NotInstalledFrom(n, h) => "skill '"@ + n@ + "' not installed from hub '"@ + h@
            + "'"@,
    }
}

impl SkillError {
    /// The message that reports the refusal.
    pub fn to_string(&self) -> (r: String)
        ensures
            r@ == skill_message(*self),
    {
        match self {
            SkillError::HubNotFound(id) => framed("hub '", id.as_str(), "' not found"),
            SkillError::NoEnabledHub => String::from_str("no enabled skill hub found"),
            SkillError::InvalidIndex(m) => m.clone(),
            SkillError::MissingSkillsArray => String::from_str("invalid index: missing skills array"),
            SkillError::SkillNotInHub(n, h) => {
                let a = framed("skill '", n.as_str(), "' not found in hub '");
                let r = framed(a.as_str(), h.as_str(), "'");
                assert(r@ =~= skill_message(*self));
                r
            },
            SkillError::MissingPath => String::from_str("missing path in skill entry"),
            SkillError::NoGitUrl(h) => framed("hub '", h.as_str(), "' has no git_url \u{2014} cannot install"),
            SkillError::UpdateNotInHub(n) => framed("skill '", n.as_str(), "' not found in hub"),
            SkillError::UpdateNoGitUrl(h) => framed("hub '", h.as_str(), "' has no git_url"),
            SkillError::NotInstalled(n) => framed("skill '", n.as_str(), "' not installed"),
            SkillError::NotInstalledFrom(n, h) => {
                let a = framed("skill '", n.as_str(), "' not installed from hub '");
                let r = framed(a.as_str(), h.as_str(), "'");
                assert(r@ =~= skill_message(*self));
                r
            },
        }
    }
}

} // verus!
