//! The index files that hubs publish.

use vstd::prelude::*;

verus! {

/// A skills hub index (`skills-index.json`).
#[derive(Debug)]
pub struct SkillsIndex {
    pub hub_id: String,
    pub generated_at: String,
    pub skills: Vec<SkillEntry>,
}

/// One skill of a skills index.
#[derive(Debug)]
pub struct SkillEntry {
    pub slug: String,
    pub name: String,
    pub description: String,
    pub version: String,
    pub compatibility: Option<String>,
    pub license: Option<String>,
    pub git_url: String,
    pub path: String,
    pub commit: String,
    pub has_lifecycle: bool,
}

/// A docs hub index (`docs-index.json`).
#[derive(Debug)]
pub struct DocsIndex {
    /// Serialized as `type`.
    pub kind: String,
    pub version: String,
    pub entries: Vec<DocEntry>,
    pub metadata: DocsMetadata,
}

/// One document of a docs index.
#[derive(Debug)]
pub struct DocEntry {
    pub title: String,
    pub summary: String,
    pub path: String,
    pub commit_hash: String,
    pub last_updated: String,
    pub status: DocStatus,
    pub read_when: Vec<String>,
}

/// The life stage of a document.
#[derive(Debug, Clone, Copy, PartialEq, Eq, Structural)]
pub enum DocStatus {
    Active,
    Draft,
    Deprecated,
}

/// Facts about a whole docs index.
#[derive(Debug)]
pub struct DocsMetadata {
    pub generated_at: String,
    pub commit_hash: String,
    pub total_entries: usize,
}

/// A skill entry as character sequences.
pub struct SkillEntryView {
    pub slug: Seq<char>,
    pub name: Seq<char>,
    pub description: Seq<char>,
    pub version: Seq<char>,
    pub compatibility: Option<Seq<char>>,
    pub license: Option<Seq<char>>,
    pub git_url: Seq<char>,
    pub path: Seq<char>,
    pub commit: Seq<char>,
    pub has_lifecycle: bool,
}

/// A document entry as character sequences.
pub struct DocEntryView {
    pub title: Seq<char>,
    pub summary: Seq<char>,
    pub path: Seq<char>,
    pub commit_hash: Seq<char>,
    pub last_updated: Seq<char>,
    pub status: DocStatus,
    pub read_when: Seq<Seq<char>>,
}

/// An optional string as an optional character sequence.
pub open spec fn opt_chars(s: Option<String>) -> Option<Seq<char>> {
    match s {
        Some(t) => Some(t@),
        None => None,
    }
}

impl View for SkillEntry {
    type V = SkillEntryView;

    open spec fn view(&self) -> SkillEntryView {
        SkillEntryView {
            slug: self.slug@,
            name: self.name@,
            description: self.description@,
            version: self.version@,
            compatibility: opt_chars(self.compatibility),
            license: opt_chars(self.license),
            git_url: self.git_url@,
            path: self.path@,
            commit: self.commit@,
            has_lifecycle: self.has_lifecycle,
        }
    }
}

impl View for DocEntry {
    type V = DocEntryView;

    open spec fn view(&self) -> DocEntryView {
        DocEntryView {
            title: self.title@,
            summary: self.summary@,
            path: self.path@,
            commit_hash: self.commit_hash@,
            last_updated: self.last_updated@,
            status: self.status,
            read_when: self.read_when@.map_values(|s: String| s@),
        }
    }
}

} // verus!
