//! Building the index files of skills hubs and docs hubs from what a hub holds.

use vstd::prelude::*;

use crate::hub::config::{excluded_by, HubConfig};
use crate::hub::frontmatter::{
    dashes, fm_lookup, fm_str_of, frontmatter_of, read_frontmatter, table_get_str, table_lookup,
    FmEntry, FmError, FmValue, FrontMatter,
};
use crate::hub::schema::{
    opt_chars, DocEntry, DocEntryView, DocStatus, DocsIndex, DocsMetadata, SkillEntry,
    SkillEntryView, SkillsIndex,
};
use crate::hub::validate::SkillMd;
use crate::text::{chars_of, has_prefix, starts_with, str_eq};

verus! {

/// The hub id an index is generated under: an explicit id other than `default`
/// wins; otherwise the id set in `agentctl.toml`, else `default` itself.
pub open spec fn hub_id_for(requested: Seq<char>, configured: Option<String>) -> Seq<char> {
    if requested != "default"@ {
        requested
    } else {
        match configured {
            Some(c) => c@,
            None => requested,
        }
    }
}

/// Picks the hub id of a generated skills index.
pub fn resolve_hub_id(requested: &str, cfg: &HubConfig) -> (r: String)
    ensures
        r@ == hub_id_for(requested@, cfg.hub.id),
{
    if !str_eq(requested, "default") {
        String::from_str(requested)
    } else {
        match &cfg.hub.id {
            Some(c) => c.clone(),
            None => String::from_str(requested),
        }
    }
}

/// An entry of the root of a skills hub, as read for index generation.
#[derive(Debug)]
pub struct SkillDir {
    /// The entry's file name, which becomes the skill's slug.
    pub name: String,
    /// The entry's path relative to the hub root.
    pub rel_path: String,
    pub is_dir: bool,
    /// What its `SKILL.md` holds.
    pub skill_md: SkillMd,
    /// The last commit that touched its `SKILL.md` (empty when unknown).
    pub commit: String,
    /// Whether it holds a `lifecycle.yaml`.
    pub has_lifecycle: bool,
}

/// A Markdown file of a docs hub, as read for index generation.
#[derive(Debug)]
pub struct DocSource {
    /// The file's path relative to the hub root.
    pub rel_path: String,
    /// The file's text, or the reader's message.
    pub content: Result<String, String>,
    /// The last commit that touched the file (empty when unknown).
    pub commit_hash: String,
}

/// Why an index could not be generated.
#[derive(Debug)]
pub enum GenerateError {
    /// A `SKILL.md` could not be read (the reader's message).
    Unreadable(String),
    /// A `SKILL.md` lacks the two `---` delimiters.
    MissingFrontmatter,
    /// The frontmatter of a `SKILL.md` is not a YAML mapping (the parser's message).
    InvalidYaml(String),
}

/// `GenerateError` as character sequences.
pub enum GenerateFailure {
    Unreadable(Seq<char>),
    MissingFrontmatter,
    InvalidYaml(Seq<char>),
}

impl View for GenerateError {
    type V = GenerateFailure;

    open spec fn view(&self) -> GenerateFailure {
        match self {
            GenerateError::Unreadable(m) => GenerateFailure::Unreadable(m@),
            GenerateError::MissingFrontmatter => GenerateFailure::MissingFrontmatter,
            GenerateError::InvalidYaml(m) => GenerateFailure::InvalidYaml(m@),
        }
    }
}

/// The string under `key`, or the empty string.
pub open spec fn text_or_empty(entries: Seq<FmEntry>, key: Seq<char>) -> Seq<char> {
    match fm_str_of(entries, key) {
        Some(s) => s,
        None => Seq::empty(),
    }
}

/// The version of a skill: the string under `metadata.version`, else `0.1.0`.
pub open spec fn skill_version(entries: Seq<FmEntry>) -> Seq<char> {
    match fm_lookup(entries, "metadata"@) {
        Some(FmValue::Table(pairs)) => match table_lookup(pairs@, "version"@) {
            Some(Some(v)) => v@,
            _ => "0.1.0"@,
        },
        _ => "0.1.0"@,
    }
}

/// The index entry of the skill in `d`, whose frontmatter is `entries`.
pub open spec fn skill_entry_spec(d: SkillDir, entries: Seq<FmEntry>, git_url: Seq<char>) -> SkillEntryView {
    SkillEntryView {
        slug: d.name@,
        name: text_or_empty(entries, "name"@),
        description: text_or_empty(entries, "description"@),
        version: skill_version(entries),
        compatibility: fm_str_of(entries, "compatibility"@),
        license: fm_str_of(entries, "license"@),
        git_url,
        path: d.rel_path@,
        commit: d.commit@,
        has_lifecycle: d.has_lifecycle,
    }
}

/// An entry that the skills index lists: a directory whose name does not begin
/// with `.` and that holds a `SKILL.md`.
pub open spec fn indexed_skill(d: SkillDir) -> bool {
    d.is_dir && !(d.name@.len() > 0 && d.name@[0] == '.') && !(d.skill_md is Missing)
}

/// Prefixes a list of skill entries with `e`.
pub open spec fn cons_skill(e: SkillEntryView, r: Result<Seq<SkillEntryView>, GenerateFailure>) -> Result<
    Seq<SkillEntryView>,
    GenerateFailure,
> {
    match r {
        Ok(rest) => Ok(seq![e] + rest),
        Err(f) => Err(f),
    }
}

/// The entries of a skills index, in the order of `dirs`; the first `SKILL.md`
/// that cannot be read or parsed stops the generation.
pub open spec fn skill_entries(dirs: Seq<SkillDir>, git_url: Seq<char>) -> Result<
    Seq<SkillEntryView>,
    GenerateFailure,
>
    decreases dirs.len(),
{
    if dirs.len() == 0 {
        Ok(seq![])
    } else if !indexed_skill(dirs[0]) {
        skill_entries(dirs.drop_first(), git_url)
    } else {
        match dirs[0].skill_md {
            SkillMd::Text(c) => match frontmatter_of(c@) {
                Err(None) => Err(GenerateFailure::MissingFrontmatter),
                Err(Some(e)) => Err(GenerateFailure::InvalidYaml(e)),
                Ok(fm) => cons_skill(
                    skill_entry_spec(dirs[0], fm.entries@, git_url),
                    skill_entries(dirs.drop_first(), git_url),
                ),
            },
            SkillMd::Unreadable(m) => Err(GenerateFailure::Unreadable(m@)),
            SkillMd::Missing => skill_entries(dirs.drop_first(), git_url),
        }
    }
}

/// The skill entries of a list, as views.
pub open spec fn skills_view(v: Seq<SkillEntry>) -> Seq<SkillEntryView> {
    v.map_values(|e: SkillEntry| e@)
}

/// The string under `key`, or the empty string.
pub fn text_field(fm: &FrontMatter, key: &str) -> (r: String)
    ensures
        r@ == text_or_empty(fm.entries@, key@),
{
    match fm.get_str(key) {
        Some(s) => s.clone(),
        None => String::new(),
    }
}

/// The string under `key`, if the value there is a string.
pub fn opt_field(fm: &FrontMatter, key: &str) -> (r: Option<String>)
    ensures
        opt_chars(r) == fm_str_of(fm.entries@, key@),
{
    match fm.get_str(key) {
        Some(s) => Some(s.clone()),
        None => None,
    }
}

/// The version of a skill: the string under `metadata.version`, else `0.1.0`.
pub fn version_field(fm: &FrontMatter) -> (r: String)
    ensures
        r@ == skill_version(fm.entries@),
{
    match fm.get("metadata") {
        Some(FmValue::Table(pairs)) => match table_get_str(pairs, "version") {
            Some(v) => v.clone(),
            None => String::from_str("0.1.0"),
        },
        _ => String::from_str("0.1.0"),
    }
}

/// Builds the index entry of the skill in `d` from its frontmatter.
pub fn skill_entry(d: &SkillDir, fm: &FrontMatter, git_url: &str) -> (r: SkillEntry)
    ensures
        r@ == skill_entry_spec(*d, fm.entries@, git_url@),
        opt_chars(r.compatibility) == fm_str_of(fm.entries@, "compatibility"@),
        opt_chars(r.license) == fm_str_of(fm.entries@, "license"@),
{
    SkillEntry {
        slug: d.name.clone(),
        name: text_field(fm, "name"),
        description: text_field(fm, "description"),
        version: version_field(fm),
        compatibility: opt_field(fm, "compatibility"),
        license: opt_field(fm, "license"),
        git_url: String::from_str(git_url),
        path: d.rel_path.clone(),
        commit: d.commit.clone(),
        has_lifecycle: d.has_lifecycle,
    }
}

/// Generates the index of a skills hub: one entry per directory that does not
/// begin with `.` and holds a `SKILL.md`, in the order of `dirs`, under the hub
/// id that `resolve_hub_id` picks.
pub fn generate_skills_index(
    hub_id_override: &str,
    cfg: &HubConfig,
    git_url: &str,
    generated_at: &str,
    dirs: &Vec<SkillDir>,
) -> (r: Result<SkillsIndex, GenerateError>)
    ensures
        match r {
            Ok(ix) => skill_entries(dirs@, git_url@) == Ok::<
                Seq<SkillEntryView>,
                GenerateFailure,
            >(skills_view(ix.skills@)) && ix.hub_id@ == hub_id_for(hub_id_override@, cfg.hub.id)
                && ix.generated_at@ == generated_at@,
            Err(e) => skill_entries(dirs@, git_url@) == Err::<Seq<SkillEntryView>, GenerateFailure>(
                e@,
            ),
        },
{
    let hub_id = resolve_hub_id(hub_id_override, cfg);
    let mut skills: Vec<SkillEntry> = Vec::new();
    let mut i: usize = 0;
    assert(dirs@.skip(0) =~= dirs@);
    while i < dirs.len()
        invariant
            i <= dirs.len(),
            skill_entries(dirs@, git_url@) == cons_all(
                skills_view(skills@),
                skill_entries(dirs@.skip(i as int), git_url@),
            ),
        decreases dirs.len() - i,
    {
        let d = &dirs[i];
        assert(dirs@.skip(i as int).drop_first() =~= dirs@.skip(i + 1));
        assert(dirs@.skip(i as int)[0] == dirs@[i as int]);
        let ghost before = skills_view(skills@);
        let nc = chars_of(d.name.as_str());
        let hidden = nc.len() > 0 && nc[0] == '.';
        let wanted = d.is_dir && !hidden && !matches!(d.skill_md, SkillMd::Missing);
        if wanted {
            match &d.skill_md {
                SkillMd::Text(c) => {
                    match read_frontmatter(c.as_str()) {
                        Err(FmError::Unclosed) => {
                            return Err(GenerateError::MissingFrontmatter);
                        },
                        Err(FmError::Yaml(m)) => {
                            return Err(GenerateError::InvalidYaml(m));
                        },
                        Ok(fm) => {
                            let e = skill_entry(d, &fm, git_url);
                            skills.push(e);
                            proof {
                                lemma_cons_all_push(before, e@, skill_entries(dirs@.skip(i + 1), git_url@));
                                assert(skills_view(skills@) =~= before.push(e@));
                            }
                        },
                    }
                },
                SkillMd::Unreadable(m) => {
                    return Err(GenerateError::Unreadable(m.clone()));
                },
                SkillMd::Missing => {},
            }
        }
        i = i + 1;
    }
    assert(skill_entries(dirs@.skip(i as int), git_url@) == Ok::<
        Seq<SkillEntryView>,
        GenerateFailure,
    >(seq![]));
    assert(skills_view(skills@) + Seq::<SkillEntryView>::empty() =~= skills_view(skills@));
    Ok(SkillsIndex { hub_id, generated_at: String::from_str(generated_at), skills })
}

/// Prefixes every entry list of a result with `pre`.
pub open spec fn cons_all(pre: Seq<SkillEntryView>, r: Result<Seq<SkillEntryView>, GenerateFailure>) -> Result<
    Seq<SkillEntryView>,
    GenerateFailure,
> {
    match r {
        Ok(rest) => Ok(pre + rest),
        Err(f) => Err(f),
    }
}

proof fn lemma_cons_all_push(
    pre: Seq<SkillEntryView>,
    e: SkillEntryView,
    r: Result<Seq<SkillEntryView>, GenerateFailure>,
)
    ensures
        cons_all(pre, cons_skill(e, r)) == cons_all(pre.push(e), r),
{
    if let Ok(rest) = r {
        assert(pre + (seq![e] + rest) =~= pre.push(e) + rest);
    }
}

/// The strings among the items of a sequence, in order.
pub open spec fn strings_in(items: Seq<Option<String>>) -> Seq<Seq<char>>
    decreases items.len(),
{
    if items.len() == 0 {
        seq![]
    } else {
        (match items[0] {
            Some(s) => seq![s@],
            None => seq![],
        }) + strings_in(items.drop_first())
    }
}

/// The `read_when` hints of a document: the strings of the sequence under
/// `read_when`, or none.
pub open spec fn read_when_of(entries: Seq<FmEntry>) -> Seq<Seq<char>> {
    match fm_lookup(entries, "read_when"@) {
        Some(FmValue::List(items)) => strings_in(items@),
        _ => seq![],
    }
}

/// The status of a document: `active` and `deprecated` as written, anything
/// else (or nothing) a draft.
pub open spec fn doc_status_of(entries: Seq<FmEntry>) -> DocStatus {
    match fm_str_of(entries, "status"@) {
        Some(s) => if s == "active"@ {
            DocStatus::Active
        } else if s == "deprecated"@ {
            DocStatus::Deprecated
        } else {
            DocStatus::Draft
        },
        None => DocStatus::Draft,
    }
}

/// The index entry of the document `f`, whose frontmatter is `entries`.
pub open spec fn doc_entry_spec(f: DocSource, entries: Seq<FmEntry>) -> DocEntryView {
    DocEntryView {
        title: text_or_empty(entries, "title"@),
        summary: text_or_empty(entries, "summary"@),
        path: f.rel_path@,
        commit_hash: f.commit_hash@,
        last_updated: text_or_empty(entries, "last_updated"@),
        status: doc_status_of(entries),
        read_when: read_when_of(entries),
    }
}

/// Prefixes every entry list of a result with `pre`.
pub open spec fn cons_docs(pre: Seq<DocEntryView>, r: Result<Seq<DocEntryView>, Seq<char>>) -> Result<
    Seq<DocEntryView>,
    Seq<char>,
> {
    match r {
        Ok(rest) => Ok(pre + rest),
        Err(m) => Err(m),
    }
}

/// The entries of a docs index, in the order of `files`: each file that the
/// ignore rules keep, that begins with `---` and whose frontmatter parses; the
/// first file that cannot be read stops the generation with the reader's message.
pub open spec fn doc_entries(ignore: Seq<Seq<char>>, files: Seq<DocSource>) -> Result<
    Seq<DocEntryView>,
    Seq<char>,
>
    decreases files.len(),
{
    if files.len() == 0 {
        Ok(seq![])
    } else if excluded_by(ignore, files[0].rel_path@) {
        doc_entries(ignore, files.drop_first())
    } else {
        match files[0].content {
            Err(m) => Err(m@),
            Ok(c) => if !has_prefix(c@, dashes()) {
                doc_entries(ignore, files.drop_first())
            } else {
                match frontmatter_of(c@) {
                    Ok(fm) => cons_docs(
                        seq![doc_entry_spec(files[0], fm.entries@)],
                        doc_entries(ignore, files.drop_first()),
                    ),
                    Err(_) => doc_entries(ignore, files.drop_first()),
                }
            },
        }
    }
}

/// The document entries of a list, as views.
pub open spec fn docs_view(v: Seq<DocEntry>) -> Seq<DocEntryView> {
    v.map_values(|e: DocEntry| e@)
}

/// The `read_when` hints of a document.
pub fn read_when_field(fm: &FrontMatter) -> (r: Vec<String>)
    ensures
        r@.map_values(|s: String| s@) == read_when_of(fm.entries@),
{
    let mut out: Vec<String> = Vec::new();
    match fm.get("read_when") {
        Some(FmValue::List(items)) => {
            let mut i: usize = 0;
            assert(items@.skip(0) =~= items@);
            while i < items.len()
                invariant
                    i <= items.len(),
                    strings_in(items@) == out@.map_values(|s: String| s@) + strings_in(
                        items@.skip(i as int),
                    ),
                decreases items.len() - i,
            {
                assert(items@.skip(i as int).drop_first() =~= items@.skip(i + 1));
                assert(items@.skip(i as int)[0] == items@[i as int]);
                let ghost before = out@.map_values(|s: String| s@);
                match &items[i] {
                    Some(s) => {
                        out.push(s.clone());
                    },
                    None => {},
                }
                assert(out@.map_values(|s: String| s@) + strings_in(items@.skip(i + 1)) =~= before
                    + strings_in(items@.skip(i as int)));
                i = i + 1;
            }
            assert(out@.map_values(|s: String| s@) + strings_in(items@.skip(i as int))
                =~= out@.map_values(|s: String| s@));
        },
        _ => {},
    }
    proof {
        if !(fm_lookup(fm.entries@, "read_when"@) matches Some(FmValue::List(_))) {
            assert(out@.map_values(|s: String| s@) =~= Seq::<Seq<char>>::empty());
        }
    }
    out
}

/// The status of a document.
pub fn status_field(fm: &FrontMatter) -> (r: DocStatus)
    ensures
        r == doc_status_of(fm.entries@),
{
    match fm.get_str("status") {
        Some(s) => if str_eq(s.as_str(), "active") {
            DocStatus::Active
        } else if str_eq(s.as_str(), "deprecated") {
            DocStatus::Deprecated
        } else {
            DocStatus::Draft
        },
        None => DocStatus::Draft,
    }
}

/// Builds the index entry of the document `f` from its frontmatter.
pub fn doc_entry(f: &DocSource, fm: &FrontMatter) -> (r: DocEntry)
    ensures
        r@ == doc_entry_spec(*f, fm.entries@),
{
    DocEntry {
        title: text_field(fm, "title"),
        summary: text_field(fm, "summary"),
        path: f.rel_path.clone(),
        commit_hash: f.commit_hash.clone(),
        last_updated: text_field(fm, "last_updated"),
        status: status_field(fm),
        read_when: read_when_field(fm),
    }
}

/// Generates the index of a docs hub: one entry per Markdown file that the
/// hub's ignore rules keep, that begins with `---` and whose frontmatter parses,
/// in the order of `files`; a file that cannot be read is an error.
pub fn generate_docs_index(
    cfg: &HubConfig,
    repo_commit: &str,
    generated_at: &str,
    files: &Vec<DocSource>,
) -> (r: Result<DocsIndex, String>)
    ensures
        match r {
            Ok(ix) => doc_entries(cfg.ignore_list_spec(), files@) == Ok::<
                Seq<DocEntryView>,
                Seq<char>,
            >(docs_view(ix.entries@)) && ix.kind@ == "docs"@ && ix.version@ == "1.0"@
                && ix.metadata.generated_at@ == generated_at@ && ix.metadata.commit_hash@
                == repo_commit@ && ix.metadata.total_entries == ix.entries@.len(),
            Err(m) => doc_entries(cfg.ignore_list_spec(), files@) == Err::<
                Seq<DocEntryView>,
                Seq<char>,
            >(m@),
        },
{
    let ghost ignore = cfg.ignore_list_spec();
    let mut entries: Vec<DocEntry> = Vec::new();
    let dash = ['-', '-', '-'];
    assert(dash@ =~= dashes());
    let mut i: usize = 0;
    assert(files@.skip(0) =~= files@);
    while i < files.len()
        invariant
            i <= files.len(),
            ignore == cfg.ignore_list_spec(),
            dash@ == dashes(),
            doc_entries(ignore, files@) == cons_docs(
                docs_view(entries@),
                doc_entries(ignore, files@.skip(i as int)),
            ),
        decreases files.len() - i,
    {
        let f = &files[i];
        assert(files@.skip(i as int).drop_first() =~= files@.skip(i + 1));
        assert(files@.skip(i as int)[0] == files@[i as int]);
        let ghost before = docs_view(entries@);
        if !cfg.is_ignored(f.rel_path.as_str()) {
            match &f.content {
                Err(m) => {
                    return Err(m.clone());
                },
                Ok(c) => {
                    let cs = chars_of(c.as_str());
                    if starts_with(cs.as_slice(), dash.as_slice()) {
                        match read_frontmatter(c.as_str()) {
                            Ok(fm) => {
                                let e = doc_entry(f, &fm);
                                entries.push(e);
                                proof {
                                    let rest = doc_entries(ignore, files@.skip(i + 1));
                                    if let Ok(tail) = rest {
                                        assert(before + (seq![e@] + tail) =~= docs_view(entries@)
                                            + tail);
                                    }
                                }
                            },
                            Err(_) => {},
                        }
                    }
                },
            }
        }
        i = i + 1;
    }
    assert(docs_view(entries@) + Seq::<DocEntryView>::empty() =~= docs_view(entries@));
    let total = entries.len();
    Ok(
        DocsIndex {
            kind: String::from_str("docs"),
            version: String::from_str("1.0"),
            entries,
            metadata: DocsMetadata {
                generated_at: String::from_str(generated_at),
                commit_hash: String::from_str(repo_commit),
                total_entries: total,
            },
        },
    )
}

/// Some file of `files` that the ignore rules keep has the relative path `p`.
pub open spec fn kept_path(ignore: Seq<Seq<char>>, files: Seq<DocSource>, p: Seq<char>) -> bool {
    exists|i: int|
        0 <= i < files.len() && !excluded_by(ignore, files[i].rel_path@) && #[trigger] files[i].rel_path@
            == p
}

/// Every entry of a generated docs index is a file that the ignore rules keep.
pub proof fn docs_index_skips_ignored(ignore: Seq<Seq<char>>, files: Seq<DocSource>)
    ensures
        match doc_entries(ignore, files) {
            Ok(es) => forall|j: int|
                0 <= j < es.len() ==> kept_path(ignore, files, (#[trigger] es[j]).path),
            Err(_) => true,
        },
    decreases files.len(),
{
    if files.len() > 0 {
        let rest = files.drop_first();
        docs_index_skips_ignored(ignore, rest);
        assert forall|p: Seq<char>| kept_path(ignore, rest, p) implies kept_path(ignore, files, p) by {
            let i = choose|i: int|
                0 <= i < rest.len() && !excluded_by(ignore, rest[i].rel_path@) && #[trigger] rest[i].rel_path@
                    == p;
            assert(files[i + 1] == rest[i]);
        }
        if let Ok(es) = doc_entries(ignore, files) {
            assert forall|j: int| 0 <= j < es.len() implies kept_path(ignore, files, (#[trigger] es[j]).path) by {
                if !excluded_by(ignore, files[0].rel_path@) && j == 0 {
                    if let Ok(c) = files[0].content {
                        if has_prefix(c@, dashes()) {
                            if let Ok(fm) = frontmatter_of(c@) {
                                assert(files[0].rel_path@ == es[0].path);
                            }
                        }
                    }
                }
            }
        }
    }
}

/// A directory of `dirs` whose name does not begin with `.` is named `n`.
pub open spec fn visible_dir(dirs: Seq<SkillDir>, n: Seq<char>) -> bool {
    exists|i: int|
        0 <= i < dirs.len() && dirs[i].is_dir && !(dirs[i].name@.len() > 0 && dirs[i].name@[0] == '.')
            && #[trigger] dirs[i].name@ == n
}

/// Every skill of a generated skills index is a directory whose name does not
/// begin with `.`, and its slug is that name.
pub proof fn skills_index_lists_visible_dirs(dirs: Seq<SkillDir>, git_url: Seq<char>)
    ensures
        match skill_entries(dirs, git_url) {
            Ok(es) => forall|j: int| 0 <= j < es.len() ==> visible_dir(dirs, (#[trigger] es[j]).slug),
            Err(_) => true,
        },
    decreases dirs.len(),
{
    if dirs.len() > 0 {
        let rest = dirs.drop_first();
        skills_index_lists_visible_dirs(rest, git_url);
        assert forall|n: Seq<char>| visible_dir(rest, n) implies visible_dir(dirs, n) by {
            let i = choose|i: int|
                0 <= i < rest.len() && rest[i].is_dir && !(rest[i].name@.len() > 0 && rest[i].name@[0]
                    == '.') && #[trigger] rest[i].name@ == n;
            assert(dirs[i + 1] == rest[i]);
        }
        if let Ok(es) = skill_entries(dirs, git_url) {
            assert forall|j: int| 0 <= j < es.len() implies visible_dir(dirs, (#[trigger] es[j]).slug) by {
                if indexed_skill(dirs[0]) && j == 0 {
                    assert(dirs[0].name@ == es[0].slug);
                }
            }
        }
    }
}

/// The string that the frontmatter holds under `key`, read straight from the
/// entry that a lookup of `key` finds.
pub open spec fn string_under(entries: Seq<FmEntry>, key: Seq<char>) -> Option<Seq<char>> {
    match fm_lookup(entries, key) {
        Some(FmValue::Scalar(Some(s))) => Some(s@),
        _ => None,
    }
}

/// `e` is what the directory `d` contributes to an index: `d` holds a
/// `SKILL.md` whose frontmatter parses, `e`'s slug and path are `d`'s, its
/// `compatibility` and `license` are the strings under those keys (absent when
/// there is none), its name and description the strings under `name` and
/// `description` (empty when there is none), and its repository is `git_url`.
pub open spec fn entry_from(d: SkillDir, e: SkillEntryView, git_url: Seq<char>) -> bool {
    match d.skill_md {
        SkillMd::Text(c) => match frontmatter_of(c@) {
            Ok(fm) => {
                &&& e.slug == d.name@
                &&& e.path == d.rel_path@
                &&& e.compatibility == string_under(fm.entries@, "compatibility"@)
                &&& e.license == string_under(fm.entries@, "license"@)
                &&& e.name == match string_under(fm.entries@, "name"@) {
                    Some(n) => n,
                    None => Seq::empty(),
                }
                &&& e.description == match string_under(fm.entries@, "description"@) {
                    Some(n) => n,
                    None => Seq::empty(),
                }
                &&& e.git_url == git_url
                &&& e.commit == d.commit@
                &&& e.has_lifecycle == d.has_lifecycle
            },
            Err(_) => false,
        },
        _ => false,
    }
}

/// Each entry of a generated skills index is what some directory of the hub
/// contributes (see `entry_from`).
pub proof fn skill_entries_come_from_frontmatter(dirs: Seq<SkillDir>, git_url: Seq<char>)
    ensures
        match skill_entries(dirs, git_url) {
            Ok(es) => forall|j: int|
                0 <= j < es.len() ==> exists|i: int|
                    0 <= i < dirs.len() && entry_from(dirs[i], #[trigger] es[j], git_url),
            Err(_) => true,
        },
    decreases dirs.len(),
{
    if dirs.len() > 0 {
        let rest = dirs.drop_first();
        skill_entries_come_from_frontmatter(rest, git_url);
        if let Ok(es) = skill_entries(dirs, git_url) {
            assert forall|j: int| 0 <= j < es.len() implies exists|i: int|
                0 <= i < dirs.len() && entry_from(dirs[i], #[trigger] es[j], git_url) by {
                let head = indexed_skill(dirs[0]) && match dirs[0].skill_md {
                    SkillMd::Text(c) => frontmatter_of(c@) is Ok && skill_entries(rest, git_url) is Ok,
                    _ => false,
                };
                if head {
                    if let SkillMd::Text(c) = dirs[0].skill_md {
                        if let Ok(fm) = frontmatter_of(c@) {
                            if let Ok(tail) = skill_entries(rest, git_url) {
                                assert(es == seq![skill_entry_spec(dirs[0], fm.entries@, git_url)]
                                    + tail);
                                if j == 0 {
                                    assert(entry_from(dirs[0], es[0], git_url));
                                } else {
                                    assert(es[j] == tail[j - 1]);
                                    let i = choose|i: int|
                                        0 <= i < rest.len() && entry_from(rest[i], #[trigger] tail[j - 1], git_url);
                                    assert(dirs[i + 1] == rest[i]);
                                }
                            }
                        }
                    }
                }
                if !head {
                    assert(skill_entries(rest, git_url) == Ok::<Seq<SkillEntryView>, GenerateFailure>(es));
                    let i = choose|i: int| 0 <= i < rest.len() && entry_from(rest[i], #[trigger] es[j], git_url);
                    assert(dirs[i + 1] == rest[i]);
                }
            }
        }
    }
}

} // verus!
