//! The hub registry: adding, removing, enabling and choosing hubs to refresh.

use vstd::prelude::*;

use crate::cli::HubType;
use crate::hub::cache::fetched;
use crate::config::{Config, HubEntry};
use crate::text::concat_str;

verus! {

/// Which list of the configuration a hub belongs to.
#[derive(Debug)]
pub enum HubKind {
    Skill,
    Doc,
}

/// The registry list that holds hubs of a command-line hub type.
pub fn hub_kind(t: HubType) -> (r: HubKind)
    ensures
        match t {
            HubType::Skills => r == HubKind::Skill,
            HubType::Docs => r == HubKind::Doc,
        },
{
    match t {
        HubType::Skills => HubKind::Skill,
        HubType::Docs => HubKind::Doc,
    }
}

/// Why a registry operation was refused.
#[derive(Debug)]
pub enum RegistryError {
    /// A hub with this id is already registered in that list.
    AlreadyExists(String),
    /// No hub with this id is registered.
    NotFound(String),
}

/// The hubs of one kind.
pub open spec fn hubs_of(cfg: Config, kind: HubKind) -> Seq<HubEntry> {
    match kind {
        HubKind::Skill => cfg.skill_hubs@,
        HubKind::Doc => cfg.doc_hubs@,
    }
}

/// Everything but the hubs of `kind` is the same in both configurations.
pub open spec fn rest_unchanged(before: Config, after: Config, kind: HubKind) -> bool {
    &&& after.skills_root == before.skills_root
    &&& match kind {
        HubKind::Skill => after.doc_hubs == before.doc_hubs,
        HubKind::Doc => after.skill_hubs == before.skill_hubs,
    }
}

/// Some hub of the list has the id.
pub open spec fn has_hub(hubs: Seq<HubEntry>, id: Seq<char>) -> bool {
    exists|i: int| 0 <= i < hubs.len() && hubs[i].id@ == id
}

/// The first hub of the list with the id.
pub open spec fn find_hub(hubs: Seq<HubEntry>, id: Seq<char>) -> Option<int>
    decreases hubs.len(),
{
    if hubs.len() == 0 {
        None
    } else if hubs[0].id@ == id {
        Some(0)
    } else {
        match find_hub(hubs.drop_first(), id) {
            Some(i) => Some(i + 1),
            None => None,
        }
    }
}

pub proof fn lemma_find_hub(hubs: Seq<HubEntry>, id: Seq<char>)
    ensures
        match find_hub(hubs, id) {
            Some(i) => 0 <= i < hubs.len() && hubs[i].id@ == id && forall|j: int|
                0 <= j < i ==> hubs[j].id@ != id,
            None => !has_hub(hubs, id),
        },
    decreases hubs.len(),
{
    if hubs.len() > 0 {
        lemma_find_hub(hubs.drop_first(), id);
        if hubs[0].id@ != id {
            if find_hub(hubs, id) is None {
                assert forall|j: int| 0 <= j < hubs.len() implies hubs[j].id@ != id by {
                    if j > 0 {
                        assert(hubs[j] == hubs.drop_first()[j - 1]);
                    }
                }
            } else {
                let i = find_hub(hubs, id).unwrap();
                assert forall|j: int| 0 <= j < i implies hubs[j].id@ != id by {
                    if j > 0 {
                        assert(hubs[j] == hubs.drop_first()[j - 1]);
                    }
                }
            }
        }
    }
}

/// The hubs of the list without those with the id, in order.
pub open spec fn without_hub(hubs: Seq<HubEntry>, id: Seq<char>) -> Seq<HubEntry>
    decreases hubs.len(),
{
    if hubs.len() == 0 {
        seq![]
    } else if hubs[0].id@ == id {
        without_hub(hubs.drop_first(), id)
    } else {
        seq![hubs[0]] + without_hub(hubs.drop_first(), id)
    }
}

/// `e` is the entry that `hub add` registers: enabled, with a six-hour TTL.
pub open spec fn is_new_entry(
    e: HubEntry,
    id: Seq<char>,
    index_url: Seq<char>,
    git_url: Option<Seq<char>>,
) -> bool {
    &&& e.id@ == id
    &&& e.index_url@ == index_url
    &&& match (e.git_url, git_url) {
        (Some(a), Some(b)) => a@ == b,
        (None, None) => true,
        _ => false,
    }
    &&& e.enabled
    &&& e.ttl_hours == 6
}

/// The optional `&str` as an optional character sequence.
pub open spec fn opt_view(s: Option<&str>) -> Option<Seq<char>> {
    match s {
        Some(t) => Some(t@),
        None => None,
    }
}

/// `e` with `enabled` set to `b`.
pub open spec fn with_enabled(e: HubEntry, b: bool) -> HubEntry {
    HubEntry {
        id: e.id,
        index_url: e.index_url,
        git_url: e.git_url,
        enabled: b,
        ttl_hours: e.ttl_hours,
    }
}

/// The hubs that `hub refresh` without an id refreshes: the enabled skill
/// hubs, then the enabled doc hubs, in order.
pub open spec fn enabled_hubs(hubs: Seq<HubEntry>) -> Seq<HubEntry>
    decreases hubs.len(),
{
    if hubs.len() == 0 {
        seq![]
    } else if hubs[0].enabled {
        seq![hubs[0]] + enabled_hubs(hubs.drop_first())
    } else {
        enabled_hubs(hubs.drop_first())
    }
}

pub(crate) fn position(hubs: &Vec<HubEntry>, id: &str) -> (r: Option<usize>)
    ensures
        match r {
            Some(i) => find_hub(hubs@, id@) == Some(i as int),
            None => find_hub(hubs@, id@) is None,
        },
{
    let wanted = String::from_str(id);
    let mut i: usize = 0;
    proof {
        lemma_find_hub(hubs@, id@);
    }
    while i < hubs.len()
        invariant
            i <= hubs.len(),
            wanted@ == id@,
            forall|j: int| 0 <= j < i ==> hubs@[j].id@ != id@,
            match find_hub(hubs@, id@) {
                Some(k) => 0 <= k < hubs@.len() && hubs@[k].id@ == id@ && forall|j: int|
                    0 <= j < k ==> hubs@[j].id@ != id@,
                None => !has_hub(hubs@, id@),
            },
        decreases hubs.len() - i,
    {
        let h = &hubs[i];
        if h.id == wanted {
            return Some(i);
        }
        i = i + 1;
    }
    None
}

fn add_to(hubs: &mut Vec<HubEntry>, id: &str, index_url: &str, git_url: Option<&str>) -> (r: Result<
    (),
    RegistryError,
>)
    ensures
        match r {
            Ok(()) => !has_hub(old(hubs)@, id@) && final(hubs)@.len() == old(hubs)@.len() + 1
                && final(hubs)@.subrange(0, old(hubs)@.len() as int) == old(hubs)@
                && is_new_entry(final(hubs)@.last(), id@, index_url@, opt_view(git_url)),
            Err(RegistryError::AlreadyExists(x)) => x@ == id@ && has_hub(old(hubs)@, id@)
                && final(hubs)@ == old(hubs)@,
            Err(RegistryError::NotFound(_)) => false,
        },
{
    proof {
        lemma_find_hub(hubs@, id@);
    }
    if position(hubs, id).is_some() {
        return Err(RegistryError::AlreadyExists(String::from_str(id)));
    }
    let git = match git_url {
        Some(g) => Some(String::from_str(g)),
        None => None,
    };
    hubs.push(
        HubEntry {
            id: String::from_str(id),
            index_url: String::from_str(index_url),
            git_url: git,
            enabled: true,
            ttl_hours: 6,
        },
    );
    assert(hubs@.subrange(0, old(hubs)@.len() as int) =~= old(hubs)@);
    Ok(())
}

/// Registers a hub of `kind`: enabled, with a six-hour TTL. Refused when a
/// hub of that kind already has the id.
pub fn add(cfg: &mut Config, kind: HubKind, id: &str, index_url: &str, git_url: Option<&str>) -> (r:
    Result<(), RegistryError>)
    ensures
        rest_unchanged(*old(cfg), *final(cfg), kind),
        match r {
            Ok(()) => !has_hub(hubs_of(*old(cfg), kind), id@) && hubs_of(*final(cfg), kind)
                == hubs_of(*old(cfg), kind).push(hubs_of(*final(cfg), kind).last())
                && is_new_entry(hubs_of(*final(cfg), kind).last(), id@, index_url@, opt_view(git_url))
                && hubs_of(*final(cfg), kind).last().id@ == id@
                && hubs_of(*final(cfg), kind).last().index_url@ == index_url@
                && hubs_of(*final(cfg), kind).last().enabled
                && hubs_of(*final(cfg), kind).last().ttl_hours == 6,
            Err(RegistryError::AlreadyExists(x)) => x@ == id@ && has_hub(
                hubs_of(*old(cfg), kind),
                id@,
            ) && hubs_of(*final(cfg), kind) == hubs_of(*old(cfg), kind),
            Err(RegistryError::NotFound(_)) => false,
        },
{
    match kind {
        HubKind::Skill => {
            let r = add_to(&mut cfg.skill_hubs, id, index_url, git_url);
            assert(hubs_of(*cfg, kind) == cfg.skill_hubs@);
            if r.is_ok() {
                assert(cfg.skill_hubs@ =~= old(cfg).skill_hubs@.push(cfg.skill_hubs@.last()));
            }
            r
        },
        HubKind::Doc => {
            let r = add_to(&mut cfg.doc_hubs, id, index_url, git_url);
            assert(hubs_of(*cfg, kind) == cfg.doc_hubs@);
            if r.is_ok() {
                assert(cfg.doc_hubs@ =~= old(cfg).doc_hubs@.push(cfg.doc_hubs@.last()));
            }
            r
        },
    }
}

fn remove_from(hubs: &mut Vec<HubEntry>, id: &str) -> (r: Result<(), RegistryError>)
    ensures
        final(hubs)@ == without_hub(old(hubs)@, id@),
        match r {
            Ok(()) => has_hub(old(hubs)@, id@),
            Err(RegistryError::NotFound(x)) => x@ == id@ && !has_hub(old(hubs)@, id@),
            Err(RegistryError::AlreadyExists(_)) => false,
        },
{
    let ghost before = hubs@;
    let wanted = String::from_str(id);
    let mut kept: Vec<HubEntry> = Vec::new();
    let mut found = false;
    let mut rest: Vec<HubEntry> = Vec::new();
    std::mem::swap(&mut rest, hubs);
    assert(before.skip(0) =~= before);
    while rest.len() > 0
        invariant
            wanted@ == id@,
            rest@.len() <= before.len(),
            rest@ == before.skip((before.len() - rest@.len()) as int),
            without_hub(before, id@) == kept@ + without_hub(rest@, id@),
            found == exists|j: int| 0 <= j < before.len() - rest@.len() && before[j].id@ == id@,
        decreases rest.len(),
    {
        let ghost r0 = rest@;
        let ghost kept_before = kept@;
        let h = rest.remove(0);
        proof {
            assert(r0[0] == h);
            assert(r0.drop_first() =~= rest@);
            assert(rest@ =~= before.skip((before.len() - rest@.len()) as int));
            assert(h == before[before.len() - r0.len()]);
        }
        if h.id == wanted {
            found = true;
        } else {
            kept.push(h);
            assert(kept@ =~= kept_before + seq![h]);
        }
    }
    assert(kept@ + Seq::<HubEntry>::empty() =~= kept@);
    *hubs = kept;
    if found {
        Ok(())
    } else {
        Err(RegistryError::NotFound(wanted))
    }
}

/// Unregisters every hub of `kind` with the id. Refused when there is none.
pub fn remove(cfg: &mut Config, kind: HubKind, id: &str) -> (r: Result<(), RegistryError>)
    ensures
        rest_unchanged(*old(cfg), *final(cfg), kind),
        hubs_of(*final(cfg), kind) == without_hub(hubs_of(*old(cfg), kind), id@),
        match r {
            Ok(()) => has_hub(hubs_of(*old(cfg), kind), id@),
            Err(RegistryError::NotFound(x)) => x@ == id@ && !has_hub(hubs_of(*old(cfg), kind), id@),
            Err(RegistryError::AlreadyExists(_)) => false,
        },
{
    match kind {
        HubKind::Skill => remove_from(&mut cfg.skill_hubs, id),
        HubKind::Doc => remove_from(&mut cfg.doc_hubs, id),
    }
}

fn set_enabled_in(hubs: &mut Vec<HubEntry>, id: &str, enabled: bool) -> (r: Result<(), RegistryError>)
    ensures
        match r {
            Ok(()) => find_hub(old(hubs)@, id@) is Some && final(hubs)@ == old(hubs)@.update(
                find_hub(old(hubs)@, id@).unwrap(),
                with_enabled(old(hubs)@[find_hub(old(hubs)@, id@).unwrap()], enabled),
            ),
            Err(RegistryError::NotFound(x)) => x@ == id@ && find_hub(old(hubs)@, id@) is None
                && final(hubs)@ == old(hubs)@,
            Err(RegistryError::AlreadyExists(_)) => false,
        },
{
    proof {
        lemma_find_hub(hubs@, id@);
    }
    match position(hubs, id) {
        None => Err(RegistryError::NotFound(String::from_str(id))),
        Some(i) => {
            let mut h = hubs.remove(i);
            h.enabled = enabled;
            hubs.insert(i, h);
            assert(hubs@ =~= old(hubs)@.update(i as int, with_enabled(old(hubs)@[i as int], enabled)));
            Ok(())
        },
    }
}

/// Enables or disables the first hub of `kind` with the id. Refused when there is none.
pub fn set_enabled(cfg: &mut Config, kind: HubKind, id: &str, enabled: bool) -> (r: Result<
    (),
    RegistryError,
>)
    ensures
        rest_unchanged(*old(cfg), *final(cfg), kind),
        match r {
            Ok(()) => find_hub(hubs_of(*old(cfg), kind), id@) is Some && hubs_of(*final(cfg), kind)
                == hubs_of(*old(cfg), kind).update(
                find_hub(hubs_of(*old(cfg), kind), id@).unwrap(),
                with_enabled(
                    hubs_of(*old(cfg), kind)[find_hub(hubs_of(*old(cfg), kind), id@).unwrap()],
                    enabled,
                ),
            ),
            Err(RegistryError::NotFound(x)) => x@ == id@ && find_hub(hubs_of(*old(cfg), kind), id@)
                is None && hubs_of(*final(cfg), kind) == hubs_of(*old(cfg), kind),
            Err(RegistryError::AlreadyExists(_)) => false,
        },
{
    match kind {
        HubKind::Skill => {
            let r = set_enabled_in(&mut cfg.skill_hubs, id, enabled);
            assert(hubs_of(*cfg, kind) == cfg.skill_hubs@);
            r
        },
        HubKind::Doc => {
            let r = set_enabled_in(&mut cfg.doc_hubs, id, enabled);
            assert(hubs_of(*cfg, kind) == cfg.doc_hubs@);
            r
        },
    }
}

/// The hub that `hub refresh <id>` refreshes: the first skill hub with the id,
/// else the first doc hub with it.
pub fn refresh_one<'a>(cfg: &'a Config, id: &str) -> (r: Result<&'a HubEntry, RegistryError>)
    ensures
        match r {
            Ok(h) => find_hub(cfg.skill_hubs@ + cfg.doc_hubs@, id@) is Some && *h == (
            cfg.skill_hubs@ + cfg.doc_hubs@)[find_hub(cfg.skill_hubs@ + cfg.doc_hubs@, id@).unwrap()],
            Err(RegistryError::NotFound(x)) => x@ == id@ && !has_hub(
                cfg.skill_hubs@ + cfg.doc_hubs@,
                id@,
            ),
            Err(RegistryError::AlreadyExists(_)) => false,
        },
{
    let ghost all = cfg.skill_hubs@ + cfg.doc_hubs@;
    proof {
        lemma_find_hub(cfg.skill_hubs@, id@);
        lemma_find_hub(cfg.doc_hubs@, id@);
        lemma_find_hub(all, id@);
    }
    match position(&cfg.skill_hubs, id) {
        Some(i) => {
            proof {
                let k = find_hub(all, id@).unwrap();
                assert(all[i as int] == cfg.skill_hubs@[i as int]);
                if k < i {
                    assert(all[k] == cfg.skill_hubs@[k]);
                }
                if k > i {
                    assert(all[i as int].id@ != id@);
                }
            }
            Ok(&cfg.skill_hubs[i])
        },
        None => match position(&cfg.doc_hubs, id) {
            Some(i) => {
                proof {
                    let n = cfg.skill_hubs@.len() as int;
                    let k = find_hub(all, id@).unwrap();
                    assert(all[n + i] == cfg.doc_hubs@[i as int]);
                    if k < n {
                        assert(all[k] == cfg.skill_hubs@[k]);
                    } else {
                        assert(all[k] == cfg.doc_hubs@[k - n]);
                        if k - n < i {
                        }
                        if k - n > i {
                            assert(all[n + i].id@ != id@);
                        }
                    }
                }
                Ok(&cfg.doc_hubs[i])
            },
            None => {
                proof {
                    assert forall|j: int| 0 <= j < all.len() implies all[j].id@ != id@ by {
                        if j < cfg.skill_hubs@.len() {
                            assert(all[j] == cfg.skill_hubs@[j]);
                        } else {
                            assert(all[j] == cfg.doc_hubs@[j - cfg.skill_hubs@.len()]);
                        }
                    }
                }
                Err(RegistryError::NotFound(String::from_str(id)))
            },
        },
    }
}

/// The hubs that a list of references points to.
pub open spec fn derefs(s: Seq<&HubEntry>) -> Seq<HubEntry> {
    s.map_values(|h: &HubEntry| *h)
}

fn push_enabled<'a>(out: &mut Vec<&'a HubEntry>, hubs: &'a Vec<HubEntry>)
    ensures
        derefs(final(out)@) == derefs(old(out)@) + enabled_hubs(hubs@),
{
    let ghost start = derefs(out@);
    let mut i: usize = 0;
    assert(hubs@.skip(0) =~= hubs@);
    while i < hubs.len()
        invariant
            i <= hubs.len(),
            start + enabled_hubs(hubs@) == derefs(out@) + enabled_hubs(hubs@.skip(i as int)),
        decreases hubs.len() - i,
    {
        assert(hubs@.skip(i as int).drop_first() =~= hubs@.skip(i + 1));
        assert(hubs@.skip(i as int)[0] == hubs@[i as int]);
        let ghost before = derefs(out@);
        let h = &hubs[i];
        if h.enabled {
            out.push(h);
        }
        proof {
            let rest = enabled_hubs(hubs@.skip(i + 1));
            assert(derefs(out@) + rest =~= before + enabled_hubs(hubs@.skip(i as int)));
        }
        i = i + 1;
    }
    assert(derefs(out@) + enabled_hubs(hubs@.skip(i as int)) =~= derefs(out@));
}

/// The hubs that `hub refresh` without an id refreshes: the enabled skill
/// hubs, then the enabled doc hubs, in order.
pub fn refresh_all<'a>(cfg: &'a Config) -> (r: Vec<&'a HubEntry>)
    ensures
        derefs(r@) == enabled_hubs(cfg.skill_hubs@) + enabled_hubs(cfg.doc_hubs@),
{
    let mut out: Vec<&'a HubEntry> = Vec::new();
    push_enabled(&mut out, &cfg.skill_hubs);
    push_enabled(&mut out, &cfg.doc_hubs);
    assert(derefs(out@) =~= enabled_hubs(cfg.skill_hubs@) + enabled_hubs(cfg.doc_hubs@));
    out
}

/// Why refreshing a hub failed.
#[derive(Debug)]
pub enum RefreshError {
    /// No hub with this id is registered.
    NotFound(String),
    /// The fetcher failed (its message).
    Fetch(String),
}

/// Refreshes the hub `id` (the first skill hub with the id, else the first doc
/// hub with it): fetches its index with `fetcher` and hands back the hub and
/// the body to store; a fetch failure is passed on.
pub fn refresh_one_with<'a, F: Fn(&str) -> Result<String, String>>(
    cfg: &'a Config,
    id: &str,
    fetcher: F,
) -> (r: Result<(&'a HubEntry, String), RefreshError>)
    requires
        forall|u: &str| call_requires(fetcher, (u,)),
    ensures
        match r {
            Ok((h, body)) => find_hub(cfg.skill_hubs@ + cfg.doc_hubs@, id@) is Some && *h == (
            cfg.skill_hubs@ + cfg.doc_hubs@)[find_hub(cfg.skill_hubs@ + cfg.doc_hubs@, id@).unwrap()]
                && fetched(fetcher, h.index_url@, Ok(body)),
            Err(RefreshError::NotFound(x)) => x@ == id@ && !has_hub(
                cfg.skill_hubs@ + cfg.doc_hubs@,
                id@,
            ),
            Err(RefreshError::Fetch(m)) => find_hub(cfg.skill_hubs@ + cfg.doc_hubs@, id@) is Some
                && fetched(
                fetcher,
                (cfg.skill_hubs@ + cfg.doc_hubs@)[find_hub(
                    cfg.skill_hubs@ + cfg.doc_hubs@,
                    id@,
                ).unwrap()].index_url@,
                Err(m),
            ),
        },
{
    match refresh_one(cfg, id) {
        Err(RegistryError::NotFound(x)) => Err(RefreshError::NotFound(x)),
        Err(RegistryError::AlreadyExists(x)) => Err(RefreshError::NotFound(x)),
        Ok(h) => {
            let url = h.index_url.as_str();
            let out = fetcher(url);
            match out {
                Ok(body) => Ok((h, body)),
                Err(m) => Err(RefreshError::Fetch(m)),
            }
        },
    }
}

/// Refreshes every enabled hub (the skill hubs, then the doc hubs, in order):
/// each is fetched with `fetcher`, and its outcome is handed back beside it; a
/// failure does not stop the others.
pub fn refresh_all_with<'a, F: Fn(&str) -> Result<String, String>>(cfg: &'a Config, fetcher: F) -> (r:
    Vec<(&'a HubEntry, Result<String, String>)>)
    requires
        forall|u: &str| call_requires(fetcher, (u,)),
    ensures
        r@.len() == (enabled_hubs(cfg.skill_hubs@) + enabled_hubs(cfg.doc_hubs@)).len(),
        forall|i: int|
            0 <= i < r@.len() ==> *(#[trigger] r@[i]).0 == (enabled_hubs(cfg.skill_hubs@)
                + enabled_hubs(cfg.doc_hubs@))[i] && fetched(fetcher, r@[i].0.index_url@, r@[i].1),
{
    let targets = refresh_all(cfg);
    let mut out: Vec<(&'a HubEntry, Result<String, String>)> = Vec::new();
    let mut i: usize = 0;
    while i < targets.len()
        invariant
            i <= targets.len(),
            out@.len() == i,
            derefs(targets@) == enabled_hubs(cfg.skill_hubs@) + enabled_hubs(cfg.doc_hubs@),
            forall|u: &str| call_requires(fetcher, (u,)),
            forall|j: int|
                0 <= j < i ==> (#[trigger] out@[j]).0 == targets@[j] && fetched(
                    fetcher,
                    out@[j].0.index_url@,
                    out@[j].1,
                ),
        decreases targets.len() - i,
    {
        let h = targets[i];
        let url = h.index_url.as_str();
        let res = fetcher(url);
        out.push((h, res));
        i = i + 1;
    }
    assert forall|j: int| 0 <= j < out@.len() implies *(#[trigger] out@[j]).0 == (enabled_hubs(
        cfg.skill_hubs@,
    ) + enabled_hubs(cfg.doc_hubs@))[j] by {
        assert(derefs(targets@)[j] == *targets@[j]);
    }
    out
}

/// `pre`, then `x`, then `post`.
pub fn framed(pre: &str, x: &str, post: &str) -> (r: String)
    ensures
        r@ == pre@ + x@ + post@,
{
    let a = concat_str(pre, x);
    concat_str(a.as_str(), post)
}

/// How a refused registry operation is reported.
pub open spec fn registry_message(e: RegistryError) -> Seq<char> {
    match e {
        RegistryError::AlreadyExists(id) => "hub '"@ + id@ + "' already exists"@,
        RegistryError::NotFound(id) => "hub '"@ + id@ + "' not found"@,
    }
}

impl RegistryError {
    /// The message that reports the refusal.
    pub fn to_string(&self) -> (r: String)
        ensures
            r@ == registry_message(*self),
    {
        match self {
            RegistryError::AlreadyExists(id) => framed("hub '", id.as_str(), "' already exists"),
            RegistryError::NotFound(id) => framed("hub '", id.as_str(), "' not found"),
        }
    }
}

/// How a failed refresh is reported.
pub open spec fn refresh_message(e: RefreshError) -> Seq<char> {
    match e {
        RefreshError::NotFound(id) => "hub '"@ + id@ + "' not found"@,
        RefreshError::Fetch(m) => m@,
    }
}

impl RefreshError {
    /// The message that reports the failure.
    pub fn to_string(&self) -> (r: String)
        ensures
            r@ == refresh_message(*self),
    {
        match self {
            RefreshError::NotFound(id) => framed("hub '", id.as_str(), "' not found"),
            RefreshError::Fetch(m) => m.clone(),
        }
    }
}

/// The line `hub list` prints for a hub: its id, whether it is enabled, and
/// its index URL.
pub open spec fn hub_line_spec(h: HubEntry) -> Seq<char> {
    "  "@ + h.id@ + (if h.enabled {
        " [enabled] "@
    } else {
        " [disabled] "@
    }) + h.index_url@
}

/// The line `hub list` prints for a hub.
pub fn hub_line(h: &HubEntry) -> (r: String)
    ensures
        r@ == hub_line_spec(*h),
{
    let state = if h.enabled {
        " [enabled] "
    } else {
        " [disabled] "
    };
    let r = framed("  ", h.id.as_str(), state);
    let r2 = concat_str(r.as_str(), h.index_url.as_str());
    assert(r2@ =~= hub_line_spec(*h));
    r2
}

/// Removing a hub right after adding it to a list that did not hold its id
/// gives back the list as it was.
pub proof fn add_then_remove_restores(hubs: Seq<HubEntry>, e: HubEntry)
    requires
        !has_hub(hubs, e.id@),
    ensures
        without_hub(hubs.push(e), e.id@) == hubs,
    decreases hubs.len(),
{
    if hubs.len() == 0 {
        assert(hubs.push(e).drop_first() =~= Seq::<HubEntry>::empty());
        assert(without_hub(Seq::<HubEntry>::empty(), e.id@) == Seq::<HubEntry>::empty());
        assert(hubs.push(e)[0] == e);
    } else {
        let rest = hubs.drop_first();
        assert(hubs.push(e).drop_first() =~= rest.push(e));
        assert(!has_hub(rest, e.id@)) by {
            if has_hub(rest, e.id@) {
                let i = choose|i: int| 0 <= i < rest.len() && rest[i].id@ == e.id@;
                assert(hubs[i + 1] == rest[i]);
            }
        }
        assert(hubs[0].id@ != e.id@) by {
            if hubs[0].id@ == e.id@ {
                assert(has_hub(hubs, e.id@));
            }
        }
        add_then_remove_restores(rest, e);
        assert(hubs.push(e)[0] == hubs[0]);
        assert(seq![hubs[0]] + rest =~= hubs);
    }
}

proof fn lemma_has_hub_cons(x: HubEntry, s: Seq<HubEntry>, id: Seq<char>)
    ensures
        has_hub(seq![x] + s, id) == (x.id@ == id || has_hub(s, id)),
{
    let t = seq![x] + s;
    if has_hub(t, id) && x.id@ != id {
        let i = choose|i: int| 0 <= i < t.len() && t[i].id@ == id;
        assert(t[i] == s[i - 1]);
    }
    if has_hub(s, id) {
        let i = choose|i: int| 0 <= i < s.len() && s[i].id@ == id;
        assert(t[i + 1] == s[i]);
    }
    if x.id@ == id {
        assert(t[0] == x);
    }
}

/// After a removal no hub of the list has the id, and every other hub stays.
pub proof fn remove_drops_only_the_id(hubs: Seq<HubEntry>, id: Seq<char>)
    ensures
        !has_hub(without_hub(hubs, id), id),
        forall|other: Seq<char>|
            other != id ==> (has_hub(without_hub(hubs, id), other) == has_hub(hubs, other)),
    decreases hubs.len(),
{
    if hubs.len() > 0 {
        let rest = hubs.drop_first();
        assert(hubs =~= seq![hubs[0]] + rest);
        remove_drops_only_the_id(rest, id);
        let wr = without_hub(rest, id);
        lemma_has_hub_cons(hubs[0], rest, id);
        lemma_has_hub_cons(hubs[0], wr, id);
        assert forall|other: Seq<char>| other != id implies (has_hub(without_hub(hubs, id), other)
            == has_hub(hubs, other)) by {
            lemma_has_hub_cons(hubs[0], rest, other);
            lemma_has_hub_cons(hubs[0], wr, other);
        }
    }
}

/// Setting the `enabled` flag of a hub and then setting it back to what it
/// was gives back the list as it was.
pub proof fn toggle_back_restores(hubs: Seq<HubEntry>, id: Seq<char>, b: bool)
    requires
        find_hub(hubs, id) is Some,
    ensures
        ({
            let i = find_hub(hubs, id).unwrap();
            let once = hubs.update(i, with_enabled(hubs[i], b));
            find_hub(once, id) == Some(i) && once.update(i, with_enabled(once[i], hubs[i].enabled))
                == hubs
        }),
{
    lemma_find_hub(hubs, id);
    let i = find_hub(hubs, id).unwrap();
    let once = hubs.update(i, with_enabled(hubs[i], b));
    lemma_find_hub(once, id);
    assert forall|j: int| 0 <= j < i implies once[j].id@ != id by {
        assert(once[j] == hubs[j]);
    }
    if find_hub(once, id) is None {
        assert(once[i].id@ == id);
    } else {
        let k = find_hub(once, id).unwrap();
        if k > i {
            assert(once[i].id@ == id);
        }
    }
    assert(once.update(i, with_enabled(once[i], hubs[i].enabled)) =~= hubs);
}

/// Every hub that a refresh of all hubs picks is enabled and registered.
pub proof fn refresh_all_picks_enabled(hubs: Seq<HubEntry>)
    ensures
        forall|j: int|
            0 <= j < enabled_hubs(hubs).len() ==> (#[trigger] enabled_hubs(hubs)[j]).enabled
                && hubs.contains(enabled_hubs(hubs)[j]),
    decreases hubs.len(),
{
    if hubs.len() > 0 {
        let rest = hubs.drop_first();
        refresh_all_picks_enabled(rest);
        let e = enabled_hubs(hubs);
        let er = enabled_hubs(rest);
        assert forall|j: int| 0 <= j < e.len() implies (#[trigger] e[j]).enabled && hubs.contains(
            e[j],
        ) by {
            if hubs[0].enabled {
                if j == 0 {
                    assert(hubs[0] == e[0]);
                } else {
                    assert(e[j] == er[j - 1]);
                    let k = choose|k: int| 0 <= k < rest.len() && rest[k] == er[j - 1];
                    assert(hubs[k + 1] == rest[k]);
                }
            } else {
                assert(e[j] == er[j]);
                let k = choose|k: int| 0 <= k < rest.len() && rest[k] == er[j];
                assert(hubs[k + 1] == rest[k]);
            }
        }
    }
}

/// The list that holds the hub `id` for commands that name no hub type: the
/// skill hubs when one of them has the id, else the doc hubs when one of them
/// has it.
pub fn kind_of(cfg: &Config, id: &str) -> (r: Option<HubKind>)
    ensures
        match r {
            Some(HubKind::Skill) => has_hub(cfg.skill_hubs@, id@),
            Some(HubKind::Doc) => !has_hub(cfg.skill_hubs@, id@) && has_hub(cfg.doc_hubs@, id@),
            None => !has_hub(cfg.skill_hubs@, id@) && !has_hub(cfg.doc_hubs@, id@),
        },
{
    proof {
        lemma_find_hub(cfg.skill_hubs@, id@);
        lemma_find_hub(cfg.doc_hubs@, id@);
    }
    if position(&cfg.skill_hubs, id).is_some() {
        Some(HubKind::Skill)
    } else if position(&cfg.doc_hubs, id).is_some() {
        Some(HubKind::Doc)
    } else {
        None
    }
}

/// A hub just added to a list that did not hold its id is the one that a
/// lookup of that id finds: it has the id, the index URL and the git URL that
/// were given, is enabled and keeps its index for six hours.
pub proof fn added_hub_is_found_as_given(
    hubs: Seq<HubEntry>,
    e: HubEntry,
    id: Seq<char>,
    index_url: Seq<char>,
    git_url: Option<Seq<char>>,
)
    requires
        !has_hub(hubs, id),
        is_new_entry(e, id, index_url, git_url),
    ensures
        find_hub(hubs.push(e), id) == Some(hubs.len() as int),
        hubs.push(e)[hubs.len() as int].id@ == id,
        hubs.push(e)[hubs.len() as int].index_url@ == index_url,
        hubs.push(e)[hubs.len() as int].enabled,
        hubs.push(e)[hubs.len() as int].ttl_hours == 6,
        match git_url {
            Some(g) => hubs.push(e)[hubs.len() as int].git_url matches Some(x) && x@ == g,
            None => hubs.push(e)[hubs.len() as int].git_url is None,
        },
{
    let all = hubs.push(e);
    lemma_find_hub(all, id);
    assert(all[hubs.len() as int] == e);
    assert forall|j: int| 0 <= j < hubs.len() implies all[j].id@ != id by {
        assert(all[j] == hubs[j]);
        if hubs[j].id@ == id {
            assert(has_hub(hubs, id));
        }
    }
    if let Some(k) = find_hub(all, id) {
        if k < hubs.len() {
            assert(all[k] == hubs[k]);
        }
    }
}

} // verus!
