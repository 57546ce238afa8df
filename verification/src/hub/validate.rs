//! Checks of skills hubs and docs hubs.

use vstd::prelude::*;

use crate::hub::config::{excluded_by, HubConfig};
use crate::hub::frontmatter::{
    dashes, fm_lookup, fm_str_of, frontmatter_of, read_frontmatter, FmEntry, FmError, FmValue,
    FrontMatter,
};
use crate::text::{
    chars_of, concat_str, has_prefix, starts_with, str_eq, string_of, to_uppercase, uppercase,
};

verus! {

/// A finding of a check: the file, the line where it applies, and what is wrong.
#[derive(Debug)]
pub struct ValidationError {
    pub file: String,
    pub line: Option<usize>,
    pub message: String,
}

impl View for ValidationError {
    type V = (Seq<char>, Option<usize>, Seq<char>);

    open spec fn view(&self) -> (Seq<char>, Option<usize>, Seq<char>) {
        (self.file@, self.line, self.message@)
    }
}

/// The findings of a list of errors.
pub open spec fn errors_view(v: Seq<ValidationError>) -> Seq<(Seq<char>, Option<usize>, Seq<char>)> {
    v.map_values(|e: ValidationError| e@)
}

/// The decimal digit for `d`, which is below ten.
pub open spec fn digit_char(d: nat) -> char {
    if d == 0 {
        '0'
    } else if d == 1 {
        '1'
    } else if d == 2 {
        '2'
    } else if d == 3 {
        '3'
    } else if d == 4 {
        '4'
    } else if d == 5 {
        '5'
    } else if d == 6 {
        '6'
    } else if d == 7 {
        '7'
    } else if d == 8 {
        '8'
    } else {
        '9'
    }
}

/// `n` written in decimal, without leading zeros.
pub open spec fn decimal(n: nat) -> Seq<char>
    decreases n,
{
    if n < 10 {
        seq![digit_char(n)]
    } else {
        decimal(n / 10).push(digit_char(n % 10))
    }
}

fn digit(d: usize) -> (r: char)
    requires
        d < 10,
    ensures
        r == digit_char(d as nat),
{
    if d == 0 {
        '0'
    } else if d == 1 {
        '1'
    } else if d == 2 {
        '2'
    } else if d == 3 {
        '3'
    } else if d == 4 {
        '4'
    } else if d == 5 {
        '5'
    } else if d == 6 {
        '6'
    } else if d == 7 {
        '7'
    } else if d == 8 {
        '8'
    } else {
        '9'
    }
}

/// The decimal digits of `n`.
pub fn decimal_digits(n: usize) -> (r: Vec<char>)
    ensures
        r@ == decimal(n as nat),
    decreases n,
{
    if n < 10 {
        let mut v: Vec<char> = Vec::new();
        v.push(digit(n));
        assert(v@ =~= seq![digit_char(n as nat)]);
        v
    } else {
        let mut v = decimal_digits(n / 10);
        v.push(digit(n % 10));
        v
    }
}

/// How a finding is printed: `file:line: message`, or `file: message` when it
/// has no line.
pub open spec fn display_text(e: (Seq<char>, Option<usize>, Seq<char>)) -> Seq<char> {
    match e.1 {
        Some(l) => e.0 + ":"@ + decimal(l as nat) + ": "@ + e.2,
        None => e.0 + ": "@ + e.2,
    }
}

impl ValidationError {
    /// The finding as it is printed.
    pub fn to_string(&self) -> (r: String)
        ensures
            r@ == display_text(self@),
    {
        match self.line {
            Some(l) => {
                let digits = string_of(decimal_digits(l).as_slice());
                let a = concat_str(self.file.as_str(), ":");
                let b = concat_str(a.as_str(), digits.as_str());
                let c = concat_str(b.as_str(), ": ");
                let r = concat_str(c.as_str(), self.message.as_str());
                assert(r@ =~= display_text(self@));
                r
            },
            None => {
                let a = concat_str(self.file.as_str(), ": ");
                let r = concat_str(a.as_str(), self.message.as_str());
                assert(r@ =~= display_text(self@));
                r
            },
        }
    }
}

/// All findings of a hub check.
#[derive(Debug)]
pub struct ValidationResult {
    pub errors: Vec<ValidationError>,
}

impl ValidationResult {
    /// A hub is valid when the check found nothing.
    pub fn is_valid(&self) -> (r: bool)
        ensures
            r == (self.errors@.len() == 0),
    {
        self.errors.len() == 0
    }
}

/// The frontmatter of `content`, or the message that says why there is none.
pub open spec fn parsed_frontmatter(content: Seq<char>) -> Result<FrontMatter, Seq<char>> {
    match frontmatter_of(content) {
        Ok(fm) => Ok(fm),
        Err(None) => Err("invalid frontmatter: missing closing ---"@),
        Err(Some(e)) => Err("invalid YAML: "@ + e),
    }
}

/// Splits off the frontmatter of `content` and parses it as a YAML mapping.
pub fn parse_frontmatter(content: &str) -> (r: Result<FrontMatter, String>)
    ensures
        match r {
            Ok(fm) => parsed_frontmatter(content@) == Ok::<FrontMatter, Seq<char>>(fm),
            Err(m) => parsed_frontmatter(content@) == Err::<FrontMatter, Seq<char>>(m@),
        },
{
    match read_frontmatter(content) {
        Ok(fm) => Ok(fm),
        Err(FmError::Unclosed) => Err(String::from_str("invalid frontmatter: missing closing ---")),
        Err(FmError::Yaml(e)) => Err(concat_str("invalid YAML: ", e.as_str())),
    }
}

/// The field holds a non-empty string.
pub open spec fn has_text(entries: Seq<FmEntry>, field: Seq<char>) -> bool {
    match fm_str_of(entries, field) {
        Some(s) => s.len() > 0,
        None => false,
    }
}

/// The finding for a required field that is absent, null, not a string or empty.
pub open spec fn missing_field(file: Seq<char>, field: Seq<char>) -> (
    Seq<char>,
    Option<usize>,
    Seq<char>,
) {
    (file, Some(1usize), "missing required field: "@ + field)
}

/// The findings for one required text field.
pub open spec fn field_errors(file: Seq<char>, entries: Seq<FmEntry>, field: Seq<char>) -> Seq<
    (Seq<char>, Option<usize>, Seq<char>),
> {
    if has_text(entries, field) {
        seq![]
    } else {
        seq![missing_field(file, field)]
    }
}

/// The field `read_when` holds a non-empty list.
pub open spec fn has_read_when(entries: Seq<FmEntry>) -> bool {
    match fm_lookup(entries, "read_when"@) {
        Some(FmValue::List(items)) => items@.len() > 0,
        _ => false,
    }
}

/// The findings for the `SKILL.md` of a skill.
pub open spec fn skill_frontmatter_errors(file: Seq<char>, content: Seq<char>) -> Seq<
    (Seq<char>, Option<usize>, Seq<char>),
> {
    match parsed_frontmatter(content) {
        Err(m) => seq![(file, Some(1usize), m)],
        Ok(fm) => skill_fields_errors(file, fm.entries@),
    }
}

/// The findings for the fields of a parsed `SKILL.md` frontmatter.
pub open spec fn skill_fields_errors(file: Seq<char>, entries: Seq<FmEntry>) -> Seq<
    (Seq<char>, Option<usize>, Seq<char>),
> {
    field_errors(file, entries, "name"@) + field_errors(file, entries, "description"@)
}

/// The findings for a document of a docs hub.
pub open spec fn doc_frontmatter_errors(file: Seq<char>, content: Seq<char>) -> Seq<
    (Seq<char>, Option<usize>, Seq<char>),
> {
    if !has_prefix(content, dashes()) {
        seq![(file, Some(1usize), "missing YAML frontmatter"@)]
    } else {
        match parsed_frontmatter(content) {
            Err(m) => seq![(file, Some(1usize), m)],
            Ok(fm) => doc_fields_errors(file, fm.entries@),
        }
    }
}

/// The findings for the fields of a parsed document frontmatter.
pub open spec fn doc_fields_errors(file: Seq<char>, entries: Seq<FmEntry>) -> Seq<
    (Seq<char>, Option<usize>, Seq<char>),
> {
    field_errors(file, entries, "title"@) + field_errors(file, entries, "summary"@) + field_errors(
        file,
        entries,
        "status"@,
    ) + field_errors(file, entries, "last_updated"@) + if has_read_when(entries) {
        seq![]
    } else {
        seq![(file, Some(1usize), "missing required field: read_when (must be non-empty list)"@)]
    }
}

/// Appends the finding for `field` to `errors` unless the field holds text.
fn check_text_field(errors: &mut Vec<ValidationError>, file: &str, fm: &FrontMatter, field: &str)
    ensures
        errors_view(final(errors)@) == errors_view(old(errors)@) + field_errors(
            file@,
            fm.entries@,
            field@,
        ),
{
    let ok = match fm.get_str(field) {
        Some(s) => !s.as_str().is_empty(),
        None => false,
    };
    let ghost before = errors@;
    if !ok {
        errors.push(
            ValidationError {
                file: String::from_str(file),
                line: Some(1),
                message: concat_str("missing required field: ", field),
            },
        );
    }
    assert(errors_view(errors@) =~= errors_view(before) + field_errors(file@, fm.entries@, field@));
}

/// Checks the frontmatter of a `SKILL.md`: it must be there and name a
/// non-empty `name` and `description`.
pub fn validate_skill_frontmatter(file: &str, content: &str) -> (r: Vec<ValidationError>)
    ensures
        errors_view(r@) == skill_frontmatter_errors(file@, content@),
{
    let mut errors: Vec<ValidationError> = Vec::new();
    match parse_frontmatter(content) {
        Err(m) => {
            errors.push(ValidationError { file: String::from_str(file), line: Some(1), message: m });
            assert(errors_view(errors@) =~= skill_frontmatter_errors(file@, content@));
        },
        Ok(fm) => {
            errors = skill_field_findings(file, &fm);
        },
    }
    errors
}

/// The findings for the fields of a parsed `SKILL.md` frontmatter: `name` and
/// `description` must hold non-empty strings.
pub fn skill_field_findings(file: &str, fm: &FrontMatter) -> (r: Vec<ValidationError>)
    ensures
        errors_view(r@) == skill_fields_errors(file@, fm.entries@),
{
    let mut errors: Vec<ValidationError> = Vec::new();
    assert(errors_view(errors@) =~= Seq::empty());
    check_text_field(&mut errors, file, fm, "name");
    check_text_field(&mut errors, file, fm, "description");
    assert(errors_view(errors@) =~= skill_fields_errors(file@, fm.entries@));
    errors
}

/// Checks the frontmatter of a document: it must be there, hold non-empty
/// `title`, `summary`, `status` and `last_updated`, and a non-empty `read_when` list.
pub fn validate_doc_frontmatter(file: &str, content: &str) -> (r: Vec<ValidationError>)
    ensures
        errors_view(r@) == doc_frontmatter_errors(file@, content@),
{
    let mut errors: Vec<ValidationError> = Vec::new();
    let cs = chars_of(content);
    let d = ['-', '-', '-'];
    assert(d@ =~= dashes());
    if !starts_with(cs.as_slice(), d.as_slice()) {
        errors.push(
            ValidationError {
                file: String::from_str(file),
                line: Some(1),
                message: String::from_str("missing YAML frontmatter"),
            },
        );
        assert(errors_view(errors@) =~= doc_frontmatter_errors(file@, content@));
        return errors;
    }
    match parse_frontmatter(content) {
        Err(m) => {
            errors.push(ValidationError { file: String::from_str(file), line: Some(1), message: m });
            assert(errors_view(errors@) =~= doc_frontmatter_errors(file@, content@));
        },
        Ok(fm) => {
            errors = doc_field_findings(file, &fm);
        },
    }
    errors
}

/// The findings for the fields of a parsed document frontmatter: `title`,
/// `summary`, `status` and `last_updated` must hold non-empty strings, and
/// `read_when` a non-empty list.
pub fn doc_field_findings(file: &str, fm: &FrontMatter) -> (r: Vec<ValidationError>)
    ensures
        errors_view(r@) == doc_fields_errors(file@, fm.entries@),
{
    let mut errors: Vec<ValidationError> = Vec::new();
    assert(errors_view(errors@) =~= Seq::empty());
    check_text_field(&mut errors, file, fm, "title");
    check_text_field(&mut errors, file, fm, "summary");
    check_text_field(&mut errors, file, fm, "status");
    check_text_field(&mut errors, file, fm, "last_updated");
    let listed = match fm.get("read_when") {
        Some(FmValue::List(items)) => items.len() > 0,
        _ => false,
    };
    if !listed {
        errors.push(
            ValidationError {
                file: String::from_str(file),
                line: Some(1),
                message: String::from_str("missing required field: read_when (must be non-empty list)"),
            },
        );
    }
    assert(errors_view(errors@) =~= doc_fields_errors(file@, fm.entries@));
    errors
}

/// Why a hub could not be checked at all.
#[derive(Debug)]
pub enum HubError {
    /// The hub root holds no skill directory (the path of the root).
    NoSkillDirs(String),
    /// The hub holds no Markdown file that is not ignored (the path of the root).
    NoMarkdownFiles(String),
    /// A directory of a skill could not be read (the reader's message).
    Io(String),
}

/// What the `SKILL.md` of a directory holds.
#[derive(Debug)]
pub enum SkillMd {
    /// There is no `SKILL.md`.
    Missing,
    /// It exists but could not be read (the reader's message).
    Unreadable(String),
    /// Its text.
    Text(String),
}

/// An entry inside a skill directory.
#[derive(Debug)]
pub struct ChildEntry {
    pub name: String,
    pub path: String,
    pub is_dir: bool,
}

/// An entry of the root of a skills hub, as read from the file system.
#[derive(Debug)]
pub struct DirListing {
    /// The entry's file name.
    pub name: String,
    /// The entry's path, as shown in findings.
    pub path: String,
    pub is_dir: bool,
    /// The path of `SKILL.md` inside the entry, as shown in findings.
    pub skill_md_path: String,
    pub skill_md: SkillMd,
    /// The entries of the directory, or the reader's message.
    pub children: Result<Vec<ChildEntry>, String>,
}

/// A Markdown file of a docs hub, as read from the file system.
#[derive(Debug)]
pub struct DocFile {
    /// The file's path, as shown in findings.
    pub path: String,
    /// The file's path relative to the hub root, as matched by the ignore rules.
    pub rel_path: String,
    /// The file's name (the last component of its path).
    pub file_name: String,
    /// The file's text, or the reader's message.
    pub content: Result<String, String>,
}

/// A hub README: a file named `README.md` in any letter case, which the docs
/// check never reads.
pub open spec fn is_readme(file_name: Seq<char>) -> bool {
    uppercase(file_name) == "README.MD"@
}

/// The docs check reads `f`: it is no README and the ignore rules keep it.
pub open spec fn checked_doc(ignore: Seq<Seq<char>>, f: DocFile) -> bool {
    !is_readme(f.file_name@) && !excluded_by(ignore, f.rel_path@)
}

/// A directory that holds a skill: a directory whose name does not begin with `.`.
pub open spec fn is_skill_dir(e: DirListing) -> bool {
    e.is_dir && !(e.name@.len() > 0 && e.name@[0] == '.')
}

/// The directories a skill may hold.
pub open spec fn allowed_child(name: Seq<char>) -> bool {
    name == "scripts"@ || name == "references"@ || name == "assets"@
}

/// The findings for directories nested in a skill directory.
pub open spec fn nested_errors(children: Seq<ChildEntry>) -> Seq<(Seq<char>, Option<usize>, Seq<char>)>
    decreases children.len(),
{
    if children.len() == 0 {
        seq![]
    } else {
        (if children[0].is_dir && !allowed_child(children[0].name@) {
            seq![
                (
                    children[0].path@,
                    None::<usize>,
                    "nested skill directories not allowed (flat hierarchy rule)"@,
                ),
            ]
        } else {
            seq![]
        }) + nested_errors(children.drop_first())
    }
}

/// Sub-directories named `scripts`, `references` or `assets`, and plain files,
/// are never reported as nested skills; every other sub-directory is, under
/// its own path.
pub proof fn only_unexpected_subdirs_are_reported(children: Seq<ChildEntry>)
    ensures
        (forall|i: int|
            0 <= i < children.len() && (#[trigger] children[i]).is_dir ==> children[i].name@
                == "scripts"@ || children[i].name@ == "references"@ || children[i].name@
                == "assets"@) ==> nested_errors(children).len() == 0,
        forall|i: int|
            0 <= i < children.len() && (#[trigger] children[i]).is_dir && children[i].name@
                != "scripts"@ && children[i].name@ != "references"@ && children[i].name@
                != "assets"@ ==> exists|j: int|
                0 <= j < nested_errors(children).len() && (#[trigger] nested_errors(children)[j]).0
                    == children[i].path@,
        forall|j: int|
            0 <= j < nested_errors(children).len() ==> exists|i: int|
                0 <= i < children.len() && (#[trigger] children[i]).is_dir && children[i].path@
                    == (#[trigger] nested_errors(children)[j]).0,
    decreases children.len(),
{
    if children.len() > 0 {
        let rest = children.drop_first();
        only_unexpected_subdirs_are_reported(rest);
        let head = if children[0].is_dir && !allowed_child(children[0].name@) {
            seq![
                (
                    children[0].path@,
                    None::<usize>,
                    "nested skill directories not allowed (flat hierarchy rule)"@,
                ),
            ]
        } else {
            seq![]
        };
        let all = nested_errors(children);
        let tail = nested_errors(rest);
        assert(all == head + tail);
        if forall|i: int|
            0 <= i < children.len() && (#[trigger] children[i]).is_dir ==> children[i].name@
                == "scripts"@ || children[i].name@ == "references"@ || children[i].name@
                == "assets"@ {
            assert forall|i: int|
                0 <= i < rest.len() && (#[trigger] rest[i]).is_dir implies rest[i].name@
                == "scripts"@ || rest[i].name@ == "references"@ || rest[i].name@ == "assets"@ by {
                assert(rest[i] == children[i + 1]);
            }
            assert(head.len() == 0);
        }
        assert forall|i: int|
            0 <= i < children.len() && (#[trigger] children[i]).is_dir && children[i].name@
                != "scripts"@ && children[i].name@ != "references"@ && children[i].name@
                != "assets"@ implies exists|j: int|
            0 <= j < all.len() && (#[trigger] all[j]).0 == children[i].path@ by {
            if i == 0 {
                assert(all[0] == head[0]);
            } else {
                assert(rest[i - 1] == children[i]);
                let j = choose|j: int| 0 <= j < tail.len() && (#[trigger] tail[j]).0 == rest[i - 1].path@;
                assert(all[head.len() + j] == tail[j]);
            }
        }
        assert forall|j: int| 0 <= j < all.len() implies exists|i: int|
            0 <= i < children.len() && (#[trigger] children[i]).is_dir && children[i].path@
                == (#[trigger] all[j]).0 by {
            if j < head.len() {
                assert(all[j] == head[j]);
                assert(children[0].is_dir);
            } else {
                assert(all[j] == tail[j - head.len()]);
                let i = choose|i: int|
                    0 <= i < rest.len() && (#[trigger] rest[i]).is_dir && rest[i].path@ == tail[j - head.len()].0;
                assert(children[i + 1] == rest[i]);
            }
        }
    }
}

/// The findings for the `SKILL.md` of a skill directory.
pub open spec fn skill_md_errors(e: DirListing) -> Seq<(Seq<char>, Option<usize>, Seq<char>)> {
    match e.skill_md {
        SkillMd::Missing => seq![],
        SkillMd::Unreadable(m) => seq![(e.skill_md_path@, None::<usize>, m@)],
        SkillMd::Text(c) => skill_frontmatter_errors(e.skill_md_path@, c@),
    }
}

/// The findings for one skill directory, or the message of a read failure.
pub open spec fn skill_dir_errors(e: DirListing) -> Result<
    Seq<(Seq<char>, Option<usize>, Seq<char>)>,
    Seq<char>,
> {
    match e.skill_md {
        SkillMd::Missing => Ok(seq![(e.path@, None::<usize>, "missing SKILL.md"@)]),
        _ => match e.children {
            Err(m) => Err(m@),
            Ok(ch) => Ok(nested_errors(ch@) + skill_md_errors(e)),
        },
    }
}

/// Prefixes the findings of a check with `pre`.
pub open spec fn prepend_errors(
    pre: Seq<(Seq<char>, Option<usize>, Seq<char>)>,
    r: Result<Seq<(Seq<char>, Option<usize>, Seq<char>)>, Seq<char>>,
) -> Result<Seq<(Seq<char>, Option<usize>, Seq<char>)>, Seq<char>> {
    match r {
        Ok(rest) => Ok(pre + rest),
        Err(m) => Err(m),
    }
}

/// The findings for the entries of a skills hub, in order; the first read
/// failure of a skill directory stops the check.
pub open spec fn skills_hub_errors(entries: Seq<DirListing>) -> Result<
    Seq<(Seq<char>, Option<usize>, Seq<char>)>,
    Seq<char>,
>
    decreases entries.len(),
{
    if entries.len() == 0 {
        Ok(seq![])
    } else if !is_skill_dir(entries[0]) {
        skills_hub_errors(entries.drop_first())
    } else {
        match skill_dir_errors(entries[0]) {
            Err(m) => Err(m),
            Ok(a) => prepend_errors(a, skills_hub_errors(entries.drop_first())),
        }
    }
}

/// The findings for the Markdown files of a docs hub that the check reads (no
/// README, and kept by `ignore`), in order.
pub open spec fn docs_hub_errors(ignore: Seq<Seq<char>>, files: Seq<DocFile>) -> Seq<
    (Seq<char>, Option<usize>, Seq<char>),
>
    decreases files.len(),
{
    if files.len() == 0 {
        seq![]
    } else {
        (if !checked_doc(ignore, files[0]) {
            seq![]
        } else {
            match files[0].content {
                Err(m) => seq![(files[0].path@, None::<usize>, m@)],
                Ok(c) => doc_frontmatter_errors(files[0].path@, c@),
            }
        }) + docs_hub_errors(ignore, files.drop_first())
    }
}

/// Every finding of a document's check names that document.
pub proof fn doc_findings_name_the_file(file: Seq<char>, content: Seq<char>)
    ensures
        forall|k: int|
            0 <= k < doc_frontmatter_errors(file, content).len() ==> (#[trigger] doc_frontmatter_errors(
                file,
                content,
            )[k]).0 == file,
{
    if has_prefix(content, dashes()) {
        if let Ok(fm) = parsed_frontmatter(content) {
            let e = fm.entries@;
            let a = field_errors(file, e, "title"@);
            let b = field_errors(file, e, "summary"@);
            let c = field_errors(file, e, "status"@);
            let d = field_errors(file, e, "last_updated"@);
            let r = doc_fields_errors(file, e);
            assert forall|k: int| 0 <= k < r.len() implies (#[trigger] r[k]).0 == file by {
                let ab = a + b;
                let abc = ab + c;
                let abcd = abc + d;
                if k < abcd.len() {
                    assert(r[k] == abcd[k]);
                    if k < abc.len() {
                        assert(abcd[k] == abc[k]);
                        if k < ab.len() {
                            assert(abc[k] == ab[k]);
                            if k < a.len() {
                                assert(ab[k] == a[k]);
                            } else {
                                assert(ab[k] == b[k - a.len()]);
                            }
                        } else {
                            assert(abc[k] == c[k - ab.len()]);
                        }
                    } else {
                        assert(abcd[k] == d[k - abc.len()]);
                    }
                }
            }
        }
    }
}

/// A file of `files` that the docs check reads has the shown path `p`.
pub open spec fn kept_file(ignore: Seq<Seq<char>>, files: Seq<DocFile>, p: Seq<char>) -> bool {
    exists|i: int|
        0 <= i < files.len() && checked_doc(ignore, files[i]) && #[trigger] files[i].path@ == p
}

/// The check of a docs hub never reports a README or a file that the ignore
/// rules exclude.
pub proof fn ignored_files_are_never_reported(ignore: Seq<Seq<char>>, files: Seq<DocFile>)
    ensures
        forall|j: int|
            0 <= j < docs_hub_errors(ignore, files).len() ==> kept_file(
                ignore,
                files,
                (#[trigger] docs_hub_errors(ignore, files)[j]).0,
            ),
    decreases files.len(),
{
    if files.len() > 0 {
        let rest = files.drop_first();
        ignored_files_are_never_reported(ignore, rest);
        let head = if !checked_doc(ignore, files[0]) {
            seq![]
        } else {
            match files[0].content {
                Err(m) => seq![(files[0].path@, None::<usize>, m@)],
                Ok(c) => doc_frontmatter_errors(files[0].path@, c@),
            }
        };
        let tail = docs_hub_errors(ignore, rest);
        let all = docs_hub_errors(ignore, files);
        assert(all == head + tail);
        if let Ok(c) = files[0].content {
            doc_findings_name_the_file(files[0].path@, c@);
        }
        assert forall|j: int| 0 <= j < all.len() implies kept_file(ignore, files, (#[trigger] all[j]).0) by {
            if j < head.len() {
                assert(all[j] == head[j]);
                assert(head[j].0 == files[0].path@);
            } else {
                assert(all[j] == tail[j - head.len()]);
                let p = tail[j - head.len()].0;
                assert(kept_file(ignore, rest, p));
                let i = choose|i: int|
                    0 <= i < rest.len() && checked_doc(ignore, rest[i]) && #[trigger] rest[i].path@
                        == p;
                assert(files[i + 1] == rest[i]);
            }
        }
    }
}

/// Checks the directories of a skills hub: each directory that does not begin
/// with `.` must hold a `SKILL.md` with valid frontmatter, and may nest only
/// `scripts`, `references` and `assets`.
pub fn validate_skills_hub(hub_path: &str, entries: &Vec<DirListing>) -> (r: Result<
    ValidationResult,
    HubError,
>)
    ensures
        match r {
            Ok(res) => (exists|i: int| 0 <= i < entries@.len() && is_skill_dir(entries@[i]))
                && skills_hub_errors(entries@) == Ok::<
                Seq<(Seq<char>, Option<usize>, Seq<char>)>,
                Seq<char>,
            >(errors_view(res.errors@)),
            Err(HubError::NoSkillDirs(p)) => p@ == hub_path@ && forall|i: int|
                0 <= i < entries@.len() ==> !is_skill_dir(entries@[i]),
            Err(HubError::Io(m)) => (exists|i: int|
                0 <= i < entries@.len() && is_skill_dir(entries@[i])) && skills_hub_errors(
                entries@,
            ) == Err::<Seq<(Seq<char>, Option<usize>, Seq<char>)>, Seq<char>>(m@),
            Err(HubError::NoMarkdownFiles(_)) => false,
        },
{
    let mut errors: Vec<ValidationError> = Vec::new();
    let mut found = false;
    let mut i: usize = 0;
    assert(entries@.skip(0) =~= entries@);
    while i < entries.len()
        invariant
            i <= entries.len(),
            found == exists|j: int| 0 <= j < i && is_skill_dir(entries@[j]),
            skills_hub_errors(entries@) == prepend_errors(
                errors_view(errors@),
                skills_hub_errors(entries@.skip(i as int)),
            ),
        decreases entries.len() - i,
    {
        let e = &entries[i];
        assert(entries@.skip(i as int).drop_first() =~= entries@.skip(i + 1));
        assert(entries@.skip(i as int)[0] == entries@[i as int]);
        let hidden = !e.name.as_str().is_empty() && first_char_is_dot(e.name.as_str());
        if e.is_dir && !hidden {
            assert(is_skill_dir(entries@[i as int]));
            found = true;
            let ghost before = errors_view(errors@);
            match &e.skill_md {
                SkillMd::Missing => {
                    errors.push(
                        ValidationError {
                            file: e.path.clone(),
                            line: None,
                            message: String::from_str("missing SKILL.md"),
                        },
                    );
                    assert(errors_view(errors@) =~= before + seq![
                        (e.path@, None::<usize>, "missing SKILL.md"@),
                    ]);
                },
                _ => {
                    match &e.children {
                        Err(m) => {
                            return Err(HubError::Io(m.clone()));
                        },
                        Ok(children) => {
                            push_nested_errors(&mut errors, children);
                            match &e.skill_md {
                                SkillMd::Unreadable(m) => {
                                    let ghost mid = errors@;
                                    errors.push(
                                        ValidationError {
                                            file: e.skill_md_path.clone(),
                                            line: None,
                                            message: m.clone(),
                                        },
                                    );
                                    assert(errors_view(errors@) =~= errors_view(mid) + seq![
                                        (e.skill_md_path@, None::<usize>, m@),
                                    ]);
                                },
                                SkillMd::Text(c) => {
                                    let mut more = validate_skill_frontmatter(
                                        e.skill_md_path.as_str(),
                                        c.as_str(),
                                    );
                                    let ghost mid = errors@;
                                    errors.append(&mut more);
                                    assert(errors_view(errors@) =~= errors_view(mid)
                                        + skill_frontmatter_errors(e.skill_md_path@, c@));
                                },
                                SkillMd::Missing => {},
                            }
                            assert(errors_view(errors@) =~= before + (nested_errors(children@)
                                + skill_md_errors(*e)));
                        },
                    }
                },
            }
            proof {
                if let Ok(a) = skill_dir_errors(entries@[i as int]) {
                    assert(errors_view(errors@) =~= before + a);
                    let r = skills_hub_errors(entries@.skip(i + 1));
                    if let Ok(rest) = r {
                        assert(before + (a + rest) =~= errors_view(errors@) + rest);
                    }
                }
            }
        }
        i = i + 1;
    }
    if !found {
        return Err(HubError::NoSkillDirs(String::from_str(hub_path)));
    }
    assert(entries@.skip(i as int) =~= Seq::<DirListing>::empty());
    assert(errors_view(errors@) + Seq::empty() =~= errors_view(errors@));
    Ok(ValidationResult { errors })
}

/// The name begins with `.`.
fn first_char_is_dot(name: &str) -> (r: bool)
    requires
        name@.len() > 0,
    ensures
        r == (name@[0] == '.'),
{
    name.get_char(0) == '.'
}

/// Appends the findings for directories nested in a skill directory.
fn push_nested_errors(errors: &mut Vec<ValidationError>, children: &Vec<ChildEntry>)
    ensures
        errors_view(final(errors)@) == errors_view(old(errors)@) + nested_errors(children@),
{
    let ghost start = errors_view(errors@);
    let mut i: usize = 0;
    assert(children@.skip(0) =~= children@);
    while i < children.len()
        invariant
            i <= children.len(),
            start + nested_errors(children@) == errors_view(errors@) + nested_errors(
                children@.skip(i as int),
            ),
        decreases children.len() - i,
    {
        let c = &children[i];
        assert(children@.skip(i as int).drop_first() =~= children@.skip(i + 1));
        assert(children@.skip(i as int)[0] == children@[i as int]);
        let ghost before = errors_view(errors@);
        let n = c.name.as_str();
        let allowed = str_eq(n, "scripts") || str_eq(n, "references") || str_eq(n, "assets");
        if c.is_dir && !allowed {
            errors.push(
                ValidationError {
                    file: c.path.clone(),
                    line: None,
                    message: String::from_str(
                        "nested skill directories not allowed (flat hierarchy rule)",
                    ),
                },
            );
        }
        proof {
            let rest = nested_errors(children@.skip(i + 1));
            assert(errors_view(errors@) + rest =~= before + nested_errors(
                children@.skip(i as int),
            ));
        }
        i = i + 1;
    }
    assert(errors_view(errors@) + nested_errors(children@.skip(i as int)) =~= errors_view(
        errors@,
    ));
}

/// Checks the Markdown files of a docs hub, except READMEs (in any letter case)
/// and the files that the hub's ignore rules exclude: each must have valid
/// frontmatter.
pub fn validate_docs_hub(hub_path: &str, cfg: &HubConfig, files: &Vec<DocFile>) -> (r: Result<
    ValidationResult,
    HubError,
>)
    ensures
        match r {
            Ok(res) => (exists|i: int|
                0 <= i < files@.len() && checked_doc(cfg.ignore_list_spec(), files@[i]))
                && errors_view(res.errors@) == docs_hub_errors(cfg.ignore_list_spec(), files@),
            Err(HubError::NoMarkdownFiles(p)) => p@ == hub_path@ && forall|i: int|
                0 <= i < files@.len() ==> !checked_doc(cfg.ignore_list_spec(), files@[i]),
            Err(_) => false,
        },
{
    let ghost ignore = cfg.ignore_list_spec();
    let mut errors: Vec<ValidationError> = Vec::new();
    let mut found = false;
    let mut i: usize = 0;
    assert(files@.skip(0) =~= files@);
    while i < files.len()
        invariant
            i <= files.len(),
            ignore == cfg.ignore_list_spec(),
            found == exists|j: int| 0 <= j < i && checked_doc(ignore, files@[j]),
            docs_hub_errors(ignore, files@) == errors_view(errors@) + docs_hub_errors(
                ignore,
                files@.skip(i as int),
            ),
        decreases files.len() - i,
    {
        let f = &files[i];
        assert(files@.skip(i as int).drop_first() =~= files@.skip(i + 1));
        assert(files@.skip(i as int)[0] == files@[i as int]);
        let ghost before = errors_view(errors@);
        let readme = str_eq(to_uppercase(f.file_name.as_str()).as_str(), "README.MD");
        if !readme && !cfg.is_ignored(f.rel_path.as_str()) {
            found = true;
            match &f.content {
                Err(m) => {
                    errors.push(ValidationError { file: f.path.clone(), line: None, message: m.clone() });
                },
                Ok(c) => {
                    let mut more = validate_doc_frontmatter(f.path.as_str(), c.as_str());
                    errors.append(&mut more);
                },
            }
        }
        proof {
            let rest = docs_hub_errors(ignore, files@.skip(i + 1));
            assert(errors_view(errors@) + rest =~= before + docs_hub_errors(
                ignore,
                files@.skip(i as int),
            ));
        }
        i = i + 1;
    }
    if !found {
        return Err(HubError::NoMarkdownFiles(String::from_str(hub_path)));
    }
    assert(errors_view(errors@) + docs_hub_errors(ignore, files@.skip(i as int)) =~= errors_view(
        errors@,
    ));
    Ok(ValidationResult { errors })
}

} // verus!
