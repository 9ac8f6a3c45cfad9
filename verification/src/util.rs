//! Repository discovery helpers: reading a repository declaration off a
//! directory found on disk, and guessing its tags from what the directory
//! holds and what its path is called. Walking the disk and asking git for
//! the remote URL happen outside the library; their findings arrive here as
//! plain values.

use vstd::prelude::*;
use vstd::string::StrSliceExecFns;
use vstd::string::StringExecFns;

use crate::config::repository::RepoView;
use crate::config::repository::Repository;
use crate::strutil::contains_sub;
use crate::strutil::occurs_at;
use crate::strutil::str_eq;
use crate::strutil::substring;
use crate::strutil::trim_end_char;
use crate::strutil::trim_end_char_spec;

verus! {

/// `sub` occurs somewhere in `s`.
pub open spec fn contains_spec(s: Seq<char>, sub: Seq<char>) -> bool {
    exists|i: int| occurs_at(s, sub, i)
}

/// Which well-known files a discovered repository's directory holds.
/// Whoever walks the disk fills this in; the tag detection only reads it.
pub struct ProjectMarkers {
    /// `go.mod` or `main.go`.
    pub go: bool,
    /// `package.json`.
    pub node: bool,
    /// `requirements.txt`, `setup.py` or `pyproject.toml`.
    pub python: bool,
    /// `pom.xml` or `build.gradle`.
    pub java: bool,
    /// `Cargo.toml`.
    pub rust: bool,
}

/// The tags a discovered repository gets: one per language whose marker
/// files are present, then one per role its lowercased path suggests.
pub open spec fn detect_tags_spec(m: ProjectMarkers, path_lower: Seq<char>) -> Seq<Seq<char>> {
    (if m.go {
        seq!["go"@]
    } else {
        Seq::<Seq<char>>::empty()
    }) + (if m.node {
        seq!["javascript"@, "node"@]
    } else {
        Seq::<Seq<char>>::empty()
    }) + (if m.python {
        seq!["python"@]
    } else {
        Seq::<Seq<char>>::empty()
    }) + (if m.java {
        seq!["java"@]
    } else {
        Seq::<Seq<char>>::empty()
    }) + (if m.rust {
        seq!["rust"@]
    } else {
        Seq::<Seq<char>>::empty()
    }) + (if contains_spec(path_lower, "frontend"@) || contains_spec(path_lower, "ui"@)
        || contains_spec(path_lower, "web"@) {
        seq!["frontend"@]
    } else {
        Seq::<Seq<char>>::empty()
    }) + (if contains_spec(path_lower, "backend"@) || contains_spec(path_lower, "api"@)
        || contains_spec(path_lower, "server"@) {
        seq!["backend"@]
    } else {
        Seq::<Seq<char>>::empty()
    }) + (if contains_spec(path_lower, "mobile"@) || contains_spec(path_lower, "android"@)
        || contains_spec(path_lower, "ios"@) {
        seq!["mobile"@]
    } else {
        Seq::<Seq<char>>::empty()
    })
}

/// Relies on str::to_lowercase: the result depends on the characters alone.
#[verifier::external_body]
fn lowercase(s: &str) -> (r: String)
    ensures
        r@ == lower_of(s@),
{
    s.to_lowercase()
}

/// What str::to_lowercase makes of a string.
pub uninterp spec fn lower_of(s: Seq<char>) -> Seq<char>;

/// The tags of `detect_tags_spec`, on an already-lowercased path.
#[verifier::rlimit(100)]
pub fn detect_tags(markers: &ProjectMarkers, path_lower: &str) -> (r: Vec<String>)
    ensures
        r.deep_view() == detect_tags_spec(*markers, path_lower@),
{
    let ghost pl = path_lower@;
    let ghost none = Seq::<Seq<char>>::empty();
    let ghost g1 = if markers.go { seq!["go"@] } else { none };
    let ghost g2 = if markers.node { seq!["javascript"@, "node"@] } else { none };
    let ghost g3 = if markers.python { seq!["python"@] } else { none };
    let ghost g4 = if markers.java { seq!["java"@] } else { none };
    let ghost g5 = if markers.rust { seq!["rust"@] } else { none };
    let ghost g6 = if contains_spec(pl, "frontend"@) || contains_spec(pl, "ui"@) || contains_spec(
        pl,
        "web"@,
    ) { seq!["frontend"@] } else { none };
    let ghost g7 = if contains_spec(pl, "backend"@) || contains_spec(pl, "api"@) || contains_spec(
        pl,
        "server"@,
    ) { seq!["backend"@] } else { none };
    let ghost g8 = if contains_spec(pl, "mobile"@) || contains_spec(pl, "android"@)
        || contains_spec(pl, "ios"@) { seq!["mobile"@] } else { none };

    let mut tags: Vec<String> = Vec::new();
    if markers.go {
        tags.push(String::from_str("go"));
    }
    proof {
        assert(tags.deep_view() =~~= g1);
    }
    if markers.node {
        tags.push(String::from_str("javascript"));
        tags.push(String::from_str("node"));
    }
    proof {
        assert(tags.deep_view() =~~= g1 + g2);
    }
    if markers.python {
        tags.push(String::from_str("python"));
    }
    proof {
        assert(tags.deep_view() =~~= g1 + g2 + g3);
    }
    if markers.java {
        tags.push(String::from_str("java"));
    }
    proof {
        assert(tags.deep_view() =~~= g1 + g2 + g3 + g4);
    }
    if markers.rust {
        tags.push(String::from_str("rust"));
    }
    proof {
        assert(tags.deep_view() =~~= g1 + g2 + g3 + g4 + g5);
    }
    if contains_sub(path_lower, "frontend") || contains_sub(path_lower, "ui") || contains_sub(
        path_lower,
        "web",
    ) {
        tags.push(String::from_str("frontend"));
    }
    proof {
        assert(tags.deep_view() =~~= g1 + g2 + g3 + g4 + g5 + g6);
    }
    if contains_sub(path_lower, "backend") || contains_sub(path_lower, "api") || contains_sub(
        path_lower,
        "server",
    ) {
        tags.push(String::from_str("backend"));
    }
    proof {
        assert(tags.deep_view() =~~= g1 + g2 + g3 + g4 + g5 + g6 + g7);
    }
    if contains_sub(path_lower, "mobile") || contains_sub(path_lower, "android") || contains_sub(
        path_lower,
        "ios",
    ) {
        tags.push(String::from_str("mobile"));
    }
    proof {
        assert(tags.deep_view() =~~= g1 + g2 + g3 + g4 + g5 + g6 + g7 + g8);
        assert(detect_tags_spec(*markers, pl) == g1 + g2 + g3 + g4 + g5 + g6 + g7 + g8);
    }
    tags
}

/// The tags of a discovered repository, from its path as git and the file
/// system show it: the path is lowercased first.
pub fn detect_tags_from_path(markers: &ProjectMarkers, path: &str) -> (r: Vec<String>)
    ensures
        r.deep_view() == detect_tags_spec(*markers, lower_of(path@)),
{
    let lowered = lowercase(path);
    detect_tags(markers, lowered.as_str())
}

/// The position of the last occurrence of `c` in `s`, or -1.
pub open spec fn last_index_of(s: Seq<char>, c: char) -> int
    decreases s.len(),
{
    if s.len() == 0 {
        -1
    } else if s[s.len() - 1] == c {
        s.len() - 1
    } else {
        last_index_of(s.take(s.len() - 1), c)
    }
}

/// `last_index_of` finds the last occurrence, and -1 means none.
pub proof fn lemma_last_index_of(s: Seq<char>, c: char)
    ensures
        last_index_of(s, c) == -1 ==> forall|j: int| 0 <= j < s.len() ==> s[j] != c,
        last_index_of(s, c) != -1 ==> {
            let k = last_index_of(s, c);
            &&& 0 <= k < s.len()
            &&& s[k] == c
            &&& forall|j: int| k < j < s.len() ==> s[j] != c
        },
    decreases s.len(),
{
    if s.len() > 0 && s[s.len() - 1] != c {
        let t = s.take(s.len() - 1);
        lemma_last_index_of(t, c);
        assert(forall|j: int| 0 <= j < t.len() ==> t[j] == s[j]);
        if last_index_of(t, c) == -1 {
            assert forall|j: int| 0 <= j < s.len() implies s[j] != c by {
                if j < s.len() - 1 {
                    assert(t[j] != c);
                }
            }
        } else {
            let k = last_index_of(t, c);
            assert(s[k] == t[k]);
            assert forall|j: int| k < j < s.len() implies s[j] != c by {
                if j < s.len() - 1 {
                    assert(t[j] != c);
                }
            }
        }
    }
}

/// The name a path names: its last segment, trailing slashes ignored;
/// nothing for an empty path or one that ends in `..`.
pub open spec fn file_name_spec(p: Seq<char>) -> Option<Seq<char>> {
    let t = trim_end_char_spec(p, '/');
    if t.len() == 0 {
        None
    } else {
        let nm = t.skip(last_index_of(t, '/') + 1);
        if nm.len() == 0 || nm == ".."@ {
            None
        } else {
            Some(nm)
        }
    }
}

/// The last segment of a path, as `file_name_spec` reads it.
pub fn path_file_name(path: &str) -> (r: Option<String>)
    ensures
        r.deep_view() == file_name_spec(path@),
{
    let t = trim_end_char(path, '/');
    let tlen = t.as_str().unicode_len();
    if tlen == 0 {
        return None;
    }
    let mut i: usize = tlen;
    while i > 0 && !(t.as_str().get_char(i - 1) == '/')
        invariant
            tlen == t@.len(),
            i <= tlen,
            forall|j: int| i <= j < tlen ==> t@[j] != '/',
        decreases i,
    {
        i = i - 1;
    }
    proof {
        lemma_last_index_of(t@, '/');
        let k = last_index_of(t@, '/');
        if i > 0 {
            assert(t@[i - 1] == '/');
            assert(k == i - 1) by {
                if k < i - 1 {
                    assert(forall|j: int| k < j < t@.len() ==> t@[j] != '/');
                    assert(t@[i - 1] != '/');
                } else if k > i - 1 {
                    assert(t@[k] != '/');
                }
            }
        } else {
            assert(k == -1) by {
                if k >= 0 {
                    assert(t@[k] != '/');
                }
            }
        }
    }
    let nm = substring(t.as_str(), i, tlen);
    if nm.as_str().unicode_len() == 0 {
        return None;
    }
    if str_eq(nm.as_str(), "..") {
        return None;
    }
    Some(nm)
}

/// A repository declaration read off a discovered directory: named after
/// the path's last segment, at that path, with the remote URL git reported
/// and the tags the directory suggests. Nothing comes of a directory whose
/// path names nothing or whose remote is unknown.
pub fn create_repository_from_path(
    path: &str,
    url: Option<String>,
    markers: &ProjectMarkers,
) -> (r: Option<Repository>)
    ensures
        match r {
            Some(repo) => file_name_spec(path@) matches Some(nm) && url matches Some(u) && repo@
                == (RepoView {
                name: nm,
                url: u@,
                tags: detect_tags_spec(*markers, lower_of(path@)),
                path: Some(path@),
                branch: None,
                config_dir: None,
            }),
            None => file_name_spec(path@) is None || url is None,
        },
{
    let name = match path_file_name(path) {
        Some(n) => n,
        None => {
            return None;
        },
    };
    let u = match url {
        Some(u) => u,
        None => {
            return None;
        },
    };
    let tags = detect_tags_from_path(markers, path);
    let repo = Repository {
        name,
        url: u,
        tags,
        path: Some(String::from_str(path)),
        branch: None,
        config_dir: None,
    };
    proof {
        assert(repo@ =~= (RepoView {
            name: file_name_spec(path@).unwrap(),
            url: repo.url@,
            tags: detect_tags_spec(*markers, lower_of(path@)),
            path: Some(path@),
            branch: None,
            config_dir: None,
        }));
    }
    Some(repo)
}

} // verus!
