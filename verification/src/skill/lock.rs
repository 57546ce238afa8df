//! The skills lock file: which skills are installed, keyed by `hub_id:slug`.

use vstd::prelude::*;

use crate::text::concat_str;

verus! {

/// One installed skill.
#[derive(Debug, Clone)]
pub struct LockEntry {
    pub hub_id: String,
    pub slug: String,
    pub version: String,
    pub commit: String,
    pub installed_path: String,
    pub installed_at: String,
}

/// The lock file: a format version and the installed skills by key.
#[derive(Debug)]
pub struct LockFile {
    pub version: String,
    /// `(key, entry)` pairs; no key occurs twice in a well-formed lock file.
    pub skills: Vec<(String, LockEntry)>,
}

/// The key under which a skill is recorded: `hub_id:slug`.
pub open spec fn lock_key(hub_id: Seq<char>, slug: Seq<char>) -> Seq<char> {
    hub_id + ":"@ + slug
}

/// The entry under the first pair whose key is `key`.
pub open spec fn lookup(skills: Seq<(String, LockEntry)>, key: Seq<char>) -> Option<LockEntry>
    decreases skills.len(),
{
    if skills.len() == 0 {
        None
    } else if skills[0].0@ == key {
        Some(skills[0].1)
    } else {
        lookup(skills.drop_first(), key)
    }
}

/// No key occurs twice.
pub open spec fn keys_unique(skills: Seq<(String, LockEntry)>) -> bool {
    forall|i: int, j: int|
        0 <= i < skills.len() && 0 <= j < skills.len() && i != j ==> skills[i].0@ != skills[j].0@
}

/// The pairs of `skills` whose key is not `key`, in order.
pub open spec fn without_key(skills: Seq<(String, LockEntry)>, key: Seq<char>) -> Seq<
    (String, LockEntry),
>
    decreases skills.len(),
{
    if skills.len() == 0 {
        seq![]
    } else if skills[0].0@ == key {
        without_key(skills.drop_first(), key)
    } else {
        seq![skills[0]] + without_key(skills.drop_first(), key)
    }
}

/// `lookup` finds the first pair with the key.
pub proof fn lemma_lookup_first(skills: Seq<(String, LockEntry)>, key: Seq<char>, i: int)
    requires
        0 <= i < skills.len(),
        skills[i].0@ == key,
        forall|j: int| 0 <= j < i ==> skills[j].0@ != key,
    ensures
        lookup(skills, key) == Some(skills[i].1),
    decreases i,
{
    if i > 0 {
        lemma_lookup_first(skills.drop_first(), key, i - 1);
    }
}

/// `lookup` finds nothing where no pair has the key.
pub proof fn lemma_lookup_none(skills: Seq<(String, LockEntry)>, key: Seq<char>)
    requires
        forall|j: int| 0 <= j < skills.len() ==> skills[j].0@ != key,
    ensures
        lookup(skills, key) is None,
    decreases skills.len(),
{
    if skills.len() > 0 {
        lemma_lookup_none(skills.drop_first(), key);
    }
}

/// What `lookup` finds.
pub proof fn lemma_lookup(skills: Seq<(String, LockEntry)>, key: Seq<char>)
    ensures
        match lookup(skills, key) {
            Some(e) => exists|i: int|
                0 <= i < skills.len() && skills[i].0@ == key && skills[i].1 == e && forall|j: int|
                    0 <= j < i ==> skills[j].0@ != key,
            None => forall|j: int| 0 <= j < skills.len() ==> skills[j].0@ != key,
        },
    decreases skills.len(),
{
    if skills.len() > 0 {
        lemma_lookup(skills.drop_first(), key);
        if skills[0].0@ != key {
            if let Some(e) = lookup(skills, key) {
                let i = choose|i: int|
                    0 <= i < skills.len() - 1 && skills.drop_first()[i].0@ == key
                        && skills.drop_first()[i].1 == e && forall|j: int|
                        0 <= j < i ==> skills.drop_first()[j].0@ != key;
                assert(skills[i + 1].0@ == key);
                assert forall|j: int| 0 <= j < i + 1 implies skills[j].0@ != key by {
                    if j > 0 {
                        assert(skills[j] == skills.drop_first()[j - 1]);
                    }
                }
            } else {
                assert forall|j: int| 0 <= j < skills.len() implies skills[j].0@ != key by {
                    if j > 0 {
                        assert(skills[j] == skills.drop_first()[j - 1]);
                    }
                }
            }
        }
    }
}

/// Dropping the pairs with one key keeps the others, in order, and nothing else.
pub proof fn lemma_without_key(skills: Seq<(String, LockEntry)>, key: Seq<char>)
    ensures
        forall|k: Seq<char>|
            #![trigger lookup(without_key(skills, key), k)]
            lookup(without_key(skills, key), k) == if k == key {
                None
            } else {
                lookup(skills, k)
            },
        forall|j: int|
            0 <= j < without_key(skills, key).len() ==> exists|i: int|
                0 <= i < skills.len() && #[trigger] without_key(skills, key)[j] == skills[i],
        keys_unique(skills) ==> keys_unique(without_key(skills, key)),
    decreases skills.len(),
{
    if skills.len() > 0 {
        let rest = skills.drop_first();
        lemma_without_key(rest, key);
        let w = without_key(skills, key);
        let wr = without_key(rest, key);
        assert forall|k: Seq<char>| #![trigger lookup(w, k)] lookup(w, k) == if k == key {
            None
        } else {
            lookup(skills, k)
        } by {
            assert(lookup(wr, k) == if k == key {
                None
            } else {
                lookup(rest, k)
            });
            if skills[0].0@ != key {
                assert((seq![skills[0]] + wr).drop_first() =~= wr);
            }
        }
        assert forall|j: int| 0 <= j < w.len() implies exists|i: int|
            0 <= i < skills.len() && #[trigger] w[j] == skills[i] by {
            if skills[0].0@ == key {
                let i = choose|i: int| 0 <= i < rest.len() && wr[j] == rest[i];
                assert(w[j] == skills[i + 1]);
            } else if j == 0 {
                assert(w[0] == skills[0]);
            } else {
                assert(w[j] == wr[j - 1]);
                let i = choose|i: int| 0 <= i < rest.len() && wr[j - 1] == rest[i];
                assert(w[j] == skills[i + 1]);
            }
        }
        if keys_unique(skills) {
            assert(keys_unique(rest)) by {
                assert forall|a: int, b: int|
                    0 <= a < rest.len() && 0 <= b < rest.len() && a != b implies rest[a].0@
                    != rest[b].0@ by {
                    assert(rest[a] == skills[a + 1] && rest[b] == skills[b + 1]);
                }
            }
            if skills[0].0@ != key {
                assert forall|a: int, b: int|
                    0 <= a < w.len() && 0 <= b < w.len() && a != b implies w[a].0@ != w[b].0@ by {
                    if a > 0 && b > 0 {
                        assert(w[a] == wr[a - 1] && w[b] == wr[b - 1]);
                    } else if a == 0 && b > 0 {
                        assert(w[b] == wr[b - 1]);
                        let i = choose|i: int| 0 <= i < rest.len() && wr[b - 1] == rest[i];
                        assert(rest[i] == skills[i + 1]);
                    } else if b == 0 && a > 0 {
                        assert(w[a] == wr[a - 1]);
                        let i = choose|i: int| 0 <= i < rest.len() && wr[a - 1] == rest[i];
                        assert(rest[i] == skills[i + 1]);
                    }
                }
            }
        }
    }
}

/// `after` records `e` under its key and, under every other key, what
/// `before` recorded.
pub open spec fn records(before: LockFile, after: LockFile, e: LockEntry) -> bool {
    forall|k: Seq<char>|
        #[trigger] after.entry(k) == if k == lock_key(e.hub_id@, e.slug@) {
            Some(e)
        } else {
            before.entry(k)
        }
}

/// `after` records nothing under `key` and, under every other key, what
/// `before` recorded.
pub open spec fn drops(before: LockFile, after: LockFile, key: Seq<char>) -> bool {
    forall|k: Seq<char>|
        #[trigger] after.entry(k) == if k == key {
            None
        } else {
            before.entry(k)
        }
}

/// What was just recorded is what a lookup of its hub and slug finds.
pub proof fn insert_then_get(before: LockFile, after: LockFile, e: LockEntry)
    requires
        records(before, after, e),
    ensures
        after.entry(lock_key(e.hub_id@, e.slug@)) == Some(e),
{
}

/// Removing a skill right after recording it, where nothing was recorded under
/// its key before, leaves every key as it was.
pub proof fn remove_undoes_insert(l0: LockFile, l1: LockFile, l2: LockFile, e: LockEntry)
    requires
        l0.entry(lock_key(e.hub_id@, e.slug@)) is None,
        records(l0, l1, e),
        drops(l1, l2, lock_key(e.hub_id@, e.slug@)),
    ensures
        forall|k: Seq<char>| #[trigger] l2.entry(k) == l0.entry(k),
{
    assert forall|k: Seq<char>| #[trigger] l2.entry(k) == l0.entry(k) by {
        assert(l1.entry(k) == l1.entry(k));
    }
}

/// Of two records of skills with the same hub and slug, the later one stands.
pub proof fn later_insert_wins(l0: LockFile, l1: LockFile, l2: LockFile, e1: LockEntry, e2: LockEntry)
    requires
        lock_key(e1.hub_id@, e1.slug@) == lock_key(e2.hub_id@, e2.slug@),
        records(l0, l1, e1),
        records(l1, l2, e2),
    ensures
        records(l0, l2, e2),
{
    assert forall|k: Seq<char>| #[trigger] l2.entry(k) == if k == lock_key(e2.hub_id@, e2.slug@) {
        Some(e2)
    } else {
        l0.entry(k)
    } by {
        assert(l1.entry(k) == l1.entry(k));
    }
}

/// Builds the key `hub_id:slug`.
fn key_of(hub_id: &str, slug: &str) -> (r: String)
    ensures
        r@ == lock_key(hub_id@, slug@),
{
    concat_str(concat_str(hub_id, ":").as_str(), slug)
}

impl LockFile {
    /// Each key occurs once.
    pub open spec fn wf(&self) -> bool {
        keys_unique(self.skills@)
    }

    /// The entry recorded under `key`.
    pub open spec fn entry(&self, key: Seq<char>) -> Option<LockEntry> {
        lookup(self.skills@, key)
    }

    /// An empty lock file of format version `1.0`.
    pub fn new() -> (r: LockFile)
        ensures
            r.wf(),
            r.version@ == "1.0"@,
            r.skills@.len() == 0,
            forall|k: Seq<char>| #[trigger] r.entry(k) is None,
    {
        LockFile { version: String::from_str("1.0"), skills: Vec::new() }
    }

    /// Records `entry` under `hub_id:slug`, replacing what was recorded there.
    pub fn insert(&mut self, entry: LockEntry)
        requires
            old(self).wf(),
        ensures
            final(self).wf(),
            final(self).version == old(self).version,
            records(*old(self), *final(self), entry),
    {
        let key = key_of(entry.hub_id.as_str(), entry.slug.as_str());
        let ghost k0 = key@;
        let ghost e0 = entry;
        let ghost before = self.skills@;
        let mut i: usize = 0;
        while i < self.skills.len()
            invariant
                i <= self.skills.len(),
                self.skills@ == before,
                k0 == key@,
                forall|j: int| 0 <= j < i ==> before[j].0@ != k0,
            ensures
                i <= self.skills.len(),
                self.skills@ == before,
                k0 == key@,
                forall|j: int| 0 <= j < i ==> before[j].0@ != k0,
                i < self.skills.len() ==> before[i as int].0@ == k0,
            decreases self.skills.len() - i,
        {
            let k = &self.skills[i].0;
            if *k == key {
                break;
            }
            i = i + 1;
        }
        if i < self.skills.len() {
            proof {
                assert(before[i as int].0@ == k0);
            }
            self.skills.set(i, (key, entry));
            proof {
                let after = self.skills@;
                assert forall|k: Seq<char>| #[trigger] lookup(after, k) == if k == k0 {
                    Some(e0)
                } else {
                    lookup(before, k)
                } by {
                    lemma_lookup(before, k);
                    if k == k0 {
                        lemma_lookup_first(after, k, i as int);
                    } else {
                        match lookup(before, k) {
                            Some(v) => {
                                let m = choose|m: int|
                                    0 <= m < before.len() && before[m].0@ == k && before[m].1 == v
                                        && forall|j: int| 0 <= j < m ==> before[j].0@ != k;
                                lemma_lookup_first(after, k, m);
                            },
                            None => {
                                lemma_lookup_none(after, k);
                            },
                        }
                    }
                }
                assert(keys_unique(after));
            }
        } else {
            self.skills.push((key, entry));
            proof {
                let after = self.skills@;
                assert forall|k: Seq<char>| #[trigger] lookup(after, k) == if k == k0 {
                    Some(e0)
                } else {
                    lookup(before, k)
                } by {
                    lemma_lookup(before, k);
                    if k == k0 {
                        lemma_lookup_first(after, k, before.len() as int);
                    } else {
                        match lookup(before, k) {
                            Some(v) => {
                                let m = choose|m: int|
                                    0 <= m < before.len() && before[m].0@ == k && before[m].1 == v
                                        && forall|j: int| 0 <= j < m ==> before[j].0@ != k;
                                lemma_lookup_first(after, k, m);
                            },
                            None => {
                                lemma_lookup_none(after, k);
                            },
                        }
                    }
                }
                assert(keys_unique(after));
            }
        }
    }

    /// Drops what is recorded under `hub_id:slug`; tells whether there was anything.
    pub fn remove(&mut self, hub_id: &str, slug: &str) -> (r: bool)
        requires
            old(self).wf(),
        ensures
            final(self).wf(),
            final(self).version == old(self).version,
            r == old(self).entry(lock_key(hub_id@, slug@)) is Some,
            drops(*old(self), *final(self), lock_key(hub_id@, slug@)),
    {
        let key = key_of(hub_id, slug);
        let ghost before = self.skills@;
        let mut kept: Vec<(String, LockEntry)> = Vec::new();
        let mut found = false;
        let mut old_skills: Vec<(String, LockEntry)> = Vec::new();
        std::mem::swap(&mut old_skills, &mut self.skills);
        assert(old_skills@ == before);
        assert(before.skip(0) =~= before);
        let mut rest = old_skills;
        while rest.len() > 0
            invariant
                rest@.len() <= before.len(),
                rest@ == before.skip((before.len() - rest@.len()) as int),
                without_key(before, key@) == kept@ + without_key(rest@, key@),
                found == exists|j: int|
                    0 <= j < before.len() - rest@.len() && before[j].0@ == key@,
            decreases rest.len(),
        {
            let ghost r0 = rest@;
            let ghost kept_before = kept@;
            let item = rest.remove(0);
            proof {
                assert(r0[0] == item);
                assert(r0.drop_first() =~= rest@);
                assert(rest@ =~= before.skip((before.len() - rest@.len()) as int));
                assert(item == before[before.len() - r0.len()]);
            }
            if item.0 == key {
                found = true;
            } else {
                kept.push(item);
                assert(kept@ =~= kept_before + seq![item]);
            }
        }
        proof {
            assert(kept@ + Seq::<(String, LockEntry)>::empty() =~= kept@);
            assert(kept@ =~= without_key(before, key@));
            lemma_without_key(before, key@);
            lemma_lookup(before, key@);
        }
        self.skills = kept;
        found
    }

    /// The entry recorded under `hub_id:slug`, if any.
    pub fn get(&self, hub_id: &str, slug: &str) -> (r: Option<&LockEntry>)
        ensures
            match r {
                Some(e) => self.entry(lock_key(hub_id@, slug@)) == Some(*e),
                None => self.entry(lock_key(hub_id@, slug@)) is None,
            },
    {
        let key = key_of(hub_id, slug);
        let mut i: usize = 0;
        while i < self.skills.len()
            invariant
                i <= self.skills.len(),
                key@ == lock_key(hub_id@, slug@),
                forall|j: int| 0 <= j < i ==> self.skills@[j].0@ != key@,
            decreases self.skills.len() - i,
        {
            let k = &self.skills[i].0;
            if *k == key {
                proof {
                    lemma_lookup_first(self.skills@, key@, i as int);
                }
                return Some(&self.skills[i].1);
            }
            i = i + 1;
        }
        proof {
            lemma_lookup_none(self.skills@, key@);
        }
        None
    }
}

impl Default for LockFile {
    /// An empty lock file of format version `1.0`.
    fn default() -> (r: LockFile)
        ensures
            r.wf(),
            r.version@ == "1.0"@,
            r.skills@.len() == 0,
    {
        LockFile::new()
    }
}

} // verus!
