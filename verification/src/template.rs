//! The template catalogue: the cached name-to-path index, the shapes of
//! the catalogue's answers, and the pure decisions of the update flow —
//! which repository entries are templates, what their cache keys are, and
//! which downloads are acceptable. The host does the fetching, reading and
//! writing.

use vstd::prelude::*;

use crate::strkit::{contains_string, lemma_lex_lt_connex, lemma_lex_lt_irrefl,
    lemma_lex_lt_trans, lex_lt, seq_ends_with, str_ends_with, str_eq, str_lt, str_starts_with,
    string_push};
use crate::validation::{validate_template_key, KeyError};

verus! {

/// Upper bound on the size of one downloaded template, in bytes.
pub const MAX_DOWNLOAD_SIZE: u64 = 10 * 1024 * 1024;

/// One entry of the repository catalogue, as the host hands it over.
#[derive(Debug)]
pub struct RepoContent {
    pub name: String,
    pub content_type: String,
    pub download_url: Option<String>,
    pub path: String,
}

/// The catalogue host's rate-limit answer.
#[derive(Debug)]
pub struct RateLimitResponse {
    pub resources: RateLimitResources,
}

#[derive(Debug)]
pub struct RateLimitResources {
    pub core: RateLimit,
}

/// One rate-limit window: its size, what remains, and when it resets
/// (seconds since the epoch).
#[derive(Clone, Copy, PartialEq, Eq, Structural, Debug)]
pub struct RateLimit {
    pub limit: u32,
    pub remaining: u32,
    pub reset: u64,
}

/// One template of the index: its display name and the cache path of its
/// body.
#[derive(Debug)]
pub struct TemplateEntry {
    pub name: String,
    pub path: String,
}

/// The names of the index entries, in order.
pub open spec fn entry_names(entries: Seq<TemplateEntry>) -> Seq<String> {
    entries.map_values(|e: TemplateEntry| e.name)
}

/// The cached catalogue index: template names and where their bodies lie,
/// one entry per name, in ascending name order — the order the catalogue
/// listing shows, whatever order the downloads completed in.
#[derive(Debug)]
pub struct TemplateIndex {
    pub templates: Vec<TemplateEntry>,
}

impl TemplateIndex {
    /// Entry names ascend strictly; in particular no two entries share a
    /// name.
    pub open spec fn wf(self) -> bool {
        forall|i: int, j: int|
            0 <= i < j < self.templates@.len() ==> lex_lt(
                (#[trigger] self.templates@[i]).name@,
                (#[trigger] self.templates@[j]).name@,
            )
    }

    /// An empty index.
    pub fn new() -> (r: TemplateIndex)
        ensures
            r.wf(),
            r.templates@ == Seq::<TemplateEntry>::empty(),
    {
        TemplateIndex { templates: Vec::new() }
    }

    /// Record where a template's body lies. A known name keeps its place
    /// and gets the new path; a new name takes its place in name order.
    pub fn insert(&mut self, name: String, path: String)
        requires
            old(self).wf(),
        ensures
            final(self).wf(),
            contains_string(entry_names(old(self).templates@), name@) ==> exists|i: int|
                0 <= i < old(self).templates@.len() && (#[trigger] old(self).templates@[i]).name@
                    == name@ && final(self).templates@ == old(self).templates@.update(
                    i,
                    TemplateEntry { name, path },
                ),
            !contains_string(entry_names(old(self).templates@), name@) ==> exists|i: int|
                0 <= i <= old(self).templates@.len() && final(self).templates@ == old(
                    self,
                ).templates@.insert(i, TemplateEntry { name, path }),
    {
        let n = self.templates.len();
        let mut pos: usize = 0;
        while pos < n && str_lt(self.templates[pos].name.as_str(), name.as_str())
            invariant
                pos <= n,
                n == self.templates@.len(),
                *self == *old(self),
                old(self).wf(),
                forall|k: int|
                    0 <= k < pos ==> lex_lt((#[trigger] self.templates@[k]).name@, name@),
            decreases n - pos,
        {
            pos += 1;
        }
        if pos < n && self.templates[pos].name == name {
            proof {
                assert(entry_names(self.templates@)[pos as int] == self.templates@[
                    pos as int
                ].name);
                assert(contains_string(entry_names(self.templates@), name@));
            }
            self.templates.set(pos, TemplateEntry { name, path });
            proof {
                assert forall|a: int, b: int| 0 <= a < b < self.templates@.len() implies lex_lt(
                    (#[trigger] self.templates@[a]).name@,
                    (#[trigger] self.templates@[b]).name@,
                ) by {
                    assert(lex_lt(
                        old(self).templates@[a].name@,
                        old(self).templates@[b].name@,
                    ));
                }
            }
            return ;
        }
        proof {
            // The scan stopped below an entry that is not smaller and not
            // equal, so the new name sorts strictly before it — and, by
            // transitivity, before everything after it.
            if pos < n {
                assert(!lex_lt(self.templates@[pos as int].name@, name@));
                assert(self.templates@[pos as int].name@ != name@);
                if !lex_lt(name@, self.templates@[pos as int].name@) {
                    lemma_lex_lt_connex(self.templates@[pos as int].name@, name@);
                    assert(false);
                }
            }
            assert forall|k: int| pos <= k < n implies lex_lt(
                name@,
                (#[trigger] self.templates@[k]).name@,
            ) by {
                if k > pos {
                    lemma_lex_lt_trans(
                        name@,
                        self.templates@[pos as int].name@,
                        self.templates@[k].name@,
                    );
                }
            }
            // No entry carries this name: those before the scan point sort
            // below it, the rest above it.
            assert forall|k: int|
                0 <= k < entry_names(self.templates@).len() implies (
            #[trigger] entry_names(self.templates@)[k])@ != name@ by {
                assert(entry_names(self.templates@)[k] == self.templates@[k].name);
                if self.templates@[k].name@ == name@ {
                    lemma_lex_lt_irrefl(name@);
                }
            }
        }
        let ghost pre = self.templates@;
        self.templates.insert(pos, TemplateEntry { name, path });
        proof {
            pre.insert_ensures(pos as int, TemplateEntry { name, path });
            assert(self.templates@ == pre.insert(pos as int, TemplateEntry { name, path }));
            assert forall|a: int, b: int| 0 <= a < b < self.templates@.len() implies lex_lt(
                (#[trigger] self.templates@[a]).name@,
                (#[trigger] self.templates@[b]).name@,
            ) by {
                if b < pos {
                    assert(self.templates@[a] == pre[a] && self.templates@[b] == pre[b]);
                } else if b == pos {
                    assert(self.templates@[a] == pre[a]);
                } else if a == pos {
                    assert(self.templates@[b] == pre[b - 1]);
                } else if a < pos {
                    assert(self.templates@[a] == pre[a] && self.templates@[b] == pre[b - 1]);
                } else {
                    assert(self.templates@[a] == pre[a - 1] && self.templates@[b] == pre[b - 1]);
                }
            }
        }
    }

    /// The template names, in ascending name order.
    pub fn list(&self) -> (r: Vec<String>)
        requires
            self.wf(),
        ensures
            r@.len() == self.templates@.len(),
            forall|k: int| 0 <= k < r@.len() ==> r@[k] == (#[trigger] self.templates@[k]).name,
            forall|i: int, j: int|
                0 <= i < j < r@.len() ==> lex_lt((#[trigger] r@[i])@, (#[trigger] r@[j])@),
    {
        let n = self.templates.len();
        let mut names: Vec<String> = Vec::new();
        let mut i: usize = 0;
        while i < n
            invariant
                i <= n,
                n == self.templates@.len(),
                names@.len() == i,
                forall|k: int|
                    0 <= k < i ==> names@[k] == (#[trigger] self.templates@[k]).name,
            decreases n - i,
        {
            names.push(self.templates[i].name.clone());
            i += 1;
        }
        proof {
            assert forall|a: int, b: int| 0 <= a < b < names@.len() implies lex_lt(
                (#[trigger] names@[a])@,
                (#[trigger] names@[b])@,
            ) by {
                assert(names@[a] == self.templates@[a].name);
                assert(names@[b] == self.templates@[b].name);
            }
        }
        names
    }

    /// The cache path recorded for `name`, if the index knows it.
    pub fn get(&self, name: &str) -> (r: Option<&String>)
        ensures
            match r {
                Some(p) => exists|i: int|
                    0 <= i < self.templates@.len() && (#[trigger] self.templates@[i]).name@
                        == name@ && p == &self.templates@[i].path,
                None => forall|i: int|
                    0 <= i < self.templates@.len() ==> (#[trigger] self.templates@[i]).name@
                        != name@,
            },
    {
        let n = self.templates.len();
        let mut i: usize = 0;
        while i < n
            invariant
                i <= n,
                n == self.templates@.len(),
                forall|k: int| 0 <= k < i ==> (#[trigger] self.templates@[k]).name@ != name@,
            decreases n - i,
        {
            if str_eq(self.templates[i].name.as_str(), name) {
                return Some(&self.templates[i].path);
            }
            i += 1;
        }
        None
    }
}

/// `s` with every trailing repetition of `suffix` removed.
pub open spec fn trim_suffix(s: Seq<char>, suffix: Seq<char>) -> Seq<char>
    decreases s.len(),
{
    if suffix.len() > 0 && seq_ends_with(s, suffix) {
        trim_suffix(s.subrange(0, s.len() - suffix.len()), suffix)
    } else {
        s
    }
}

/// The cache key of a template found under `parent`: the template name
/// itself at the repository root, else the parent path and the name joined
/// with a slash.
pub open spec fn spec_cache_key(parent: Seq<char>, name: Seq<char>) -> Seq<char> {
    if parent.len() == 0 {
        name
    } else {
        parent + "/"@ + name
    }
}

/// What to do with one catalogue entry during an update walk.
#[derive(Debug)]
pub enum EntryPlan {
    /// A template file: fetch it under this cache key and list it under
    /// this display name.
    Template { cache_key: String, name: String },
    /// A directory: walk into it.
    Descend,
    /// Anything else: ignore it.
    Skip,
}

/// Decide what one catalogue entry is. A file whose name ends in
/// `.gitignore` and that offers a download is a template; its display name
/// drops every trailing `.gitignore`, and its cache key prefixes the
/// parent path so that nested templates cannot collide. A directory is
/// walked into; everything else is ignored.
pub fn classify_repo_entry(entry: &RepoContent, parent_path: &str) -> (r: EntryPlan)
    ensures
        (entry.content_type@ == "file"@ && seq_ends_with(entry.name@, ".gitignore"@)
            && entry.download_url is Some) ==> (r matches EntryPlan::Template { cache_key, name }
            && name@ == trim_suffix(entry.name@, ".gitignore"@) && cache_key@ == spec_cache_key(
            parent_path@,
            trim_suffix(entry.name@, ".gitignore"@),
        )),
        !(entry.content_type@ == "file"@ && seq_ends_with(entry.name@, ".gitignore"@)
            && entry.download_url is Some) ==> (if entry.content_type@ == "dir"@ {
            r is Descend
        } else {
            r is Skip
        }),
{
    let is_file = str_eq(entry.content_type.as_str(), "file");
    let is_dir = str_eq(entry.content_type.as_str(), "dir");
    if is_file && str_ends_with(entry.name.as_str(), ".gitignore") && entry.download_url.is_some() {
        let name = trim_gitignore_suffix(entry.name.as_str());
        let cache_key = if parent_path.is_empty() {
            name.clone()
        } else {
            let mut key = parent_path.to_owned();
            key.append("/");
            key.append(name.as_str());
            key
        };
        EntryPlan::Template { cache_key, name }
    } else if is_dir {
        EntryPlan::Descend
    } else {
        EntryPlan::Skip
    }
}

/// Drop every trailing `.gitignore` from a file name.
fn trim_gitignore_suffix(name: &str) -> (r: String)
    ensures
        r@ == trim_suffix(name@, ".gitignore"@),
{
    proof {
        reveal_strlit(".gitignore");
    }
    let mut cur: &str = name;
    while str_ends_with(cur, ".gitignore")
        invariant
            trim_suffix(cur@, ".gitignore"@) == trim_suffix(name@, ".gitignore"@),
            ".gitignore"@.len() == 10,
        decreases cur@.len(),
    {
        let len = cur.unicode_len();
        cur = cur.substring_char(0, len - 10);
    }
    cur.to_owned()
}

/// Why a download was refused.
#[derive(PartialEq, Eq, Debug)]
pub enum DownloadError {
    /// The cache key failed validation.
    InvalidKey(KeyError),
    /// The download address does not use HTTPS.
    InsecureUrl,
}

/// The cache file name of a template: its key with every slash flattened
/// to an underscore, plus the `.gitignore` extension.
pub open spec fn spec_cache_file_name(key: Seq<char>) -> Seq<char> {
    key.map_values(
        |c: char|
            if c == '/' {
                '_'
            } else {
                c
            },
    ) + ".gitignore"@
}

/// Gate one template download: the key must pass validation and the
/// address must use HTTPS. What comes back on success is the name of the
/// cache file the body belongs in.
pub fn prepare_download(key: &str, url: &str) -> (r: Result<String, DownloadError>)
    ensures
        match r {
            Ok(file_name) => key_verdict_ok(key@) && seq_starts_with_https(url@) && file_name@
                == spec_cache_file_name(key@),
            Err(DownloadError::InvalidKey(e)) => crate::validation::key_verdict(key@) == Err::<
                (),
                KeyError,
            >(e),
            Err(DownloadError::InsecureUrl) => key_verdict_ok(key@) && !seq_starts_with_https(
                url@,
            ),
        },
{
    match validate_template_key(key) {
        Ok(()) => {},
        Err(e) => {
            return Err(DownloadError::InvalidKey(e));
        },
    }
    if !str_starts_with(url, "https://") {
        return Err(DownloadError::InsecureUrl);
    }
    let n = key.unicode_len();
    let mut flat = String::new();
    let mut i: usize = 0;
    while i < n
        invariant
            i <= n,
            n == key@.len(),
            flat@ =~= key@.subrange(0, i as int).map_values(
                |c: char|
                    if c == '/' {
                        '_'
                    } else {
                        c
                    },
            ),
        decreases n - i,
    {
        let c = key.get_char(i);
        let mapped = if c == '/' {
            '_'
        } else {
            c
        };
        string_push(&mut flat, mapped);
        proof {
            assert(key@.subrange(0, i + 1) =~= key@.subrange(0, i as int).push(key@[i as int]));
            assert(flat@ =~= key@.subrange(0, i + 1).map_values(
                |c: char|
                    if c == '/' {
                        '_'
                    } else {
                        c
                    },
            ));
        }
        i += 1;
    }
    proof {
        assert(key@.subrange(0, key@.len() as int) =~= key@);
    }
    flat.append(".gitignore");
    Ok(flat)
}

/// The template key passed validation.
pub open spec fn key_verdict_ok(key: Seq<char>) -> bool {
    crate::validation::key_verdict(key) is Ok
}

/// The address uses HTTPS.
pub open spec fn seq_starts_with_https(url: Seq<char>) -> bool {
    crate::strkit::seq_starts_with(url, "https://"@)
}

} // verus!
