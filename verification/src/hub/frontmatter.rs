//! YAML frontmatter of Markdown files: where it stands in a file and what the
//! checks and the index generator read from it.

use serde_yaml::Value::String as Text;
use serde_yaml::{Mapping, Value};
use self::FmValue::{List, Scalar, Table};
use vstd::prelude::*;

use crate::text::{chars_of, find_seq, find_seq_from, lemma_find_seq, string_of};

verus! {

/// A frontmatter value, as far as the checks read it.
#[derive(Debug)]
pub enum FmValue {
    /// A scalar or null: its text where it is a string.
    Scalar(Option<String>),
    /// A sequence; each item is kept where it is a string.
    List(Vec<Option<String>>),
    /// A mapping; each key and each value is kept where it is a string.
    Table(Vec<(Option<String>, Option<String>)>),
}

/// One `key: value` line of the frontmatter mapping: the key, kept where it is
/// an untagged string, and the value.
#[derive(Debug)]
pub struct FmEntry(pub Option<String>, pub FmValue);

/// The frontmatter mapping, in document order.
#[derive(Debug)]
pub struct FrontMatter {
    pub entries: Vec<FmEntry>,
}

/// Names the result of `serde_yaml::from_str::<serde_yaml::Mapping>`: the entries
/// of the mapping that a YAML text holds, or the parser's error message.
pub uninterp spec fn yaml_mapping(text: Seq<char>) -> Result<Vec<FmEntry>, Seq<char>>;

/// Parses `text` as a YAML mapping with `serde_yaml::from_str` and keeps, for
/// each entry, the key where it is an untagged string (the keys that a lookup
/// by name finds) and the value as the checks read it; the result is
/// `yaml_mapping` of the text.
#[verifier::external_body]
fn parse_yaml_mapping(text: &str) -> (r: Result<Vec<FmEntry>, String>)
    ensures
        match r {
            Ok(es) => yaml_mapping(text@) == Ok::<Vec<FmEntry>, Seq<char>>(es),
            Err(e) => yaml_mapping(text@) == Err::<Vec<FmEntry>, Seq<char>>(e@),
        },
{
    let s = |v: &Value| v.as_str().map(String::from);
    let key = |k: &Value| match k {
        Text(x) => Some(x.clone()),
        _ => None,
    };
    Ok(serde_yaml::from_str::<Mapping>(text).map_err(|e| e.to_string())?.iter().map(|(k, v)| FmEntry(key(k), if let Some(q) = v.as_sequence() {
        List(q.iter().map(s).collect())
    } else if let Some(q) = v.as_mapping() {
        Table(q.iter().map(|(a, b)| (key(a), s(b))).collect())
    } else {
        Scalar(s(v))
    })).collect())
}

/// The frontmatter delimiter.
pub open spec fn dashes() -> Seq<char> {
    seq!['-', '-', '-']
}

/// The text between the first `---` and the next one after it (what
/// `content.splitn(3, "---")` yields as its middle part), if there are two.
pub open spec fn frontmatter_text(content: Seq<char>) -> Option<Seq<char>> {
    match find_seq(content, dashes(), 0) {
        None => None,
        Some(a) => match find_seq(content, dashes(), a + 3) {
            None => None,
            Some(b) => Some(content.subrange(a + 3, b)),
        },
    }
}

/// Exec counterpart of `frontmatter_text`.
pub fn split_frontmatter(content: &str) -> (r: Option<String>)
    ensures
        match r {
            Some(t) => frontmatter_text(content@) == Some(t@),
            None => frontmatter_text(content@) is None,
        },
{
    let cs = chars_of(content);
    let d = ['-', '-', '-'];
    let ds = d.as_slice();
    assert(ds@ =~= dashes());
    match find_seq_from(cs.as_slice(), ds, 0) {
        None => None,
        Some(a) => {
            proof {
                lemma_find_seq(cs@, dashes(), 0);
            }
            let n = cs.len();
            assert(a + 3 <= n);
            match find_seq_from(cs.as_slice(), ds, a + 3) {
                None => None,
                Some(b) => {
                    proof {
                        lemma_find_seq(cs@, dashes(), a + 3);
                    }
                    let t = string_of(vstd::slice::slice_subrange(cs.as_slice(), a + 3, b));
                    Some(t)
                },
            }
        },
    }
}

/// The value under the first entry whose key is `key`.
pub open spec fn fm_lookup(entries: Seq<FmEntry>, key: Seq<char>) -> Option<FmValue>
    decreases entries.len(),
{
    if entries.len() == 0 {
        None
    } else {
        match entries[0].0 {
            Some(k) if k@ == key => Some(entries[0].1),
            _ => fm_lookup(entries.drop_first(), key),
        }
    }
}

/// The string under `key`, if the value there is a string.
pub open spec fn fm_str_of(entries: Seq<FmEntry>, key: Seq<char>) -> Option<Seq<char>> {
    match fm_lookup(entries, key) {
        Some(FmValue::Scalar(Some(s))) => Some(s@),
        _ => None,
    }
}

impl FrontMatter {
    /// The value under `key`.
    pub fn get(&self, key: &str) -> (r: Option<&FmValue>)
        ensures
            match r {
                Some(v) => fm_lookup(self.entries@, key@) == Some(*v),
                None => fm_lookup(self.entries@, key@) is None,
            },
    {
        let wanted = String::from_str(key);
        let mut i: usize = 0;
        assert(self.entries@.skip(0) =~= self.entries@);
        while i < self.entries.len()
            invariant
                i <= self.entries.len(),
                wanted@ == key@,
                fm_lookup(self.entries@, key@) == fm_lookup(self.entries@.skip(i as int), key@),
            decreases self.entries.len() - i,
        {
            assert(self.entries@.skip(i as int).drop_first() =~= self.entries@.skip(i + 1));
            assert(self.entries@.skip(i as int)[0] == self.entries@[i as int]);
            match &self.entries[i].0 {
                Some(k) => {
                    if *k == wanted {
                        return Some(&self.entries[i].1);
                    }
                },
                None => {},
            }
            i = i + 1;
        }
        None
    }

    /// The string under `key`, if the value there is a string.
    pub fn get_str(&self, key: &str) -> (r: Option<&String>)
        ensures
            match r {
                Some(s) => fm_str_of(self.entries@, key@) == Some(s@),
                None => fm_str_of(self.entries@, key@) is None,
            },
    {
        match self.get(key) {
            Some(FmValue::Scalar(Some(s))) => Some(s),
            _ => None,
        }
    }
}

/// Why a text has no usable frontmatter.
#[derive(Debug)]
pub enum FmError {
    /// There are not two `---` delimiters.
    Unclosed,
    /// The text between them is not a YAML mapping (the parser's message).
    Yaml(String),
}

/// The frontmatter mapping of `content`; the error is nothing when the
/// delimiters are missing and the parser's message when the YAML is invalid.
pub open spec fn frontmatter_of(content: Seq<char>) -> Result<FrontMatter, Option<Seq<char>>> {
    match frontmatter_text(content) {
        None => Err(None),
        Some(t) => match yaml_mapping(t) {
            Ok(es) => Ok(FrontMatter { entries: es }),
            Err(e) => Err(Some(e)),
        },
    }
}

/// Splits off the frontmatter of `content` and parses it as a YAML mapping.
pub fn read_frontmatter(content: &str) -> (r: Result<FrontMatter, FmError>)
    ensures
        match r {
            Ok(fm) => frontmatter_of(content@) == Ok::<FrontMatter, Option<Seq<char>>>(fm),
            Err(FmError::Unclosed) => frontmatter_of(content@) == Err::<
                FrontMatter,
                Option<Seq<char>>,
            >(None),
            Err(FmError::Yaml(e)) => frontmatter_of(content@) == Err::<
                FrontMatter,
                Option<Seq<char>>,
            >(Some(e@)),
        },
{
    match split_frontmatter(content) {
        None => Err(FmError::Unclosed),
        Some(t) => match parse_yaml_mapping(t.as_str()) {
            Ok(es) => Ok(FrontMatter { entries: es }),
            Err(e) => Err(FmError::Yaml(e)),
        },
    }
}

/// The value under the first pair of a table whose key is `key`.
pub open spec fn table_lookup(pairs: Seq<(Option<String>, Option<String>)>, key: Seq<char>) -> Option<
    Option<String>,
>
    decreases pairs.len(),
{
    if pairs.len() == 0 {
        None
    } else {
        match pairs[0].0 {
            Some(k) if k@ == key => Some(pairs[0].1),
            _ => table_lookup(pairs.drop_first(), key),
        }
    }
}

/// The string under `key` of a table, if there is one.
pub fn table_get_str<'a>(pairs: &'a Vec<(Option<String>, Option<String>)>, key: &str) -> (r: Option<
    &'a String,
>)
    ensures
        match r {
            Some(s) => table_lookup(pairs@, key@) == Some(Some(*s)),
            None => match table_lookup(pairs@, key@) {
                Some(Some(_)) => false,
                _ => true,
            },
        },
{
    let wanted = String::from_str(key);
    let mut i: usize = 0;
    assert(pairs@.skip(0) =~= pairs@);
    while i < pairs.len()
        invariant
            i <= pairs.len(),
            wanted@ == key@,
            table_lookup(pairs@, key@) == table_lookup(pairs@.skip(i as int), key@),
        decreases pairs.len() - i,
    {
        assert(pairs@.skip(i as int).drop_first() =~= pairs@.skip(i + 1));
        assert(pairs@.skip(i as int)[0] == pairs@[i as int]);
        let p = &pairs[i];
        match &p.0 {
            Some(k) => {
                if *k == wanted {
                    return match &p.1 {
                        Some(v) => Some(v),
                        None => None,
                    };
                }
            },
            None => {},
        }
        i = i + 1;
    }
    None
}

} // verus!
