//! Sound schemes published in the `ORelio/Sound-Manager-Schemes` GitHub
//! repository: which listed files are offered for a search, and where a
//! download is saved. The caller makes the HTTP requests.

use vstd::prelude::*;
use vstd::string::StringExecFns;
use crate::text::{lowercase, spec_lowercase, occurs_at, str_eq, chars_of, occurs_at_exec};
use crate::paths::{join_path, join_path_exec};

verus! {

broadcast use vstd::string::group_string_axioms;

/// The address of the repository's file listing (GitHub contents API).
pub const CONTENTS_URL: &'static str = "https://api.github.com/repos/ORelio/Sound-Manager-Schemes/contents";

/// A scheme file offered for download.
#[derive(Debug, Clone)]
pub struct GithubScheme {
    pub name: String,
    pub download_url: String,
    pub size: u64,
}

/// One item of the repository listing.
#[derive(Debug, Clone)]
pub struct RepoEntry {
    pub name: String,
    pub download_url: Option<String>,
    pub size: u64,
    /// `file`, `dir`, ...
    pub kind: String,
}

pub struct SpecScheme {
    pub name: Seq<char>,
    pub download_url: Seq<char>,
    pub size: u64,
}

impl View for GithubScheme {
    type V = SpecScheme;

    open spec fn view(&self) -> SpecScheme {
        SpecScheme { name: self.name@, download_url: self.download_url@, size: self.size }
    }
}

pub open spec fn schemes_view(v: Seq<GithubScheme>) -> Seq<SpecScheme> {
    v.map_values(|g: GithubScheme| g@)
}

/// `needle` occurs in `hay`.
pub open spec fn contains_text(hay: Seq<char>, needle: Seq<char>) -> bool {
    exists|i: int| occurs_at(hay, needle, i)
}

/// An item is offered for the (lower-cased) query `q`: it is a file with a
/// download address, and `q` is empty or occurs in its lower-cased name.
pub open spec fn offered(e: RepoEntry, q: Seq<char>) -> bool {
    &&& e.kind@ == "file"@
    &&& e.download_url is Some
    &&& (q.len() == 0 || contains_text(spec_lowercase(e.name@), q))
}

/// The schemes offered among the first `k` items, in order.
pub open spec fn spec_offered(items: Seq<RepoEntry>, q: Seq<char>, k: int) -> Seq<SpecScheme>
    decreases k,
{
    if k <= 0 {
        seq![]
    } else {
        let prev = spec_offered(items, q, k - 1);
        let e = items[k - 1];
        if offered(e, q) {
            prev.push(SpecScheme { name: e.name@, download_url: e.download_url->0@, size: e.size })
        } else {
            prev
        }
    }
}

pub open spec fn query_of(query: Option<&str>) -> Seq<char> {
    match query {
        Some(q) => spec_lowercase(q@),
        None => seq![],
    }
}

fn contains_exec(hay: &str, needle: &str) -> (r: bool)
    ensures
        r == contains_text(hay@, needle@),
{
    let h = chars_of(hay);
    let n = chars_of(needle);
    if n.len() > h.len() {
        assert forall|i: int| !occurs_at(hay@, needle@, i) by {}
        return false;
    }
    let last = h.len() - n.len();
    let mut i: usize = 0;
    loop
        invariant
            h@ == hay@,
            n@ == needle@,
            n.len() <= h.len(),
            last == h.len() - n.len(),
            i <= last,
            forall|j: int| 0 <= j < i ==> !occurs_at(hay@, needle@, j),
        ensures
            forall|j: int| 0 <= j <= last ==> !occurs_at(hay@, needle@, j),
        decreases last - i,
    {
        if occurs_at_exec(&h, &n, i) {
            return true;
        }
        if i == last {
            break;
        }
        i = i + 1;
    }
    assert forall|j: int| !occurs_at(hay@, needle@, j) by {
        if 0 <= j && j + needle@.len() <= hay@.len() {
            assert(j <= last);
        }
    }
    false
}

/// The schemes offered for a search, in listing order: files with a download
/// address whose lower-cased name contains the lower-cased query (all of
/// them without a query or with an empty one).
pub fn filter_schemes(items: &Vec<RepoEntry>, query: Option<&str>) -> (r: Vec<GithubScheme>)
    ensures
        schemes_view(r@) == spec_offered(items@, query_of(query), items.len() as int),
{
    let q = match query {
        Some(s) => lowercase(s),
        None => String::new(),
    };
    assert(q@ == query_of(query));
    let mut out: Vec<GithubScheme> = Vec::new();
    let mut i: usize = 0;
    while i < items.len()
        invariant
            i <= items.len(),
            q@ == query_of(query),
            schemes_view(out@) == spec_offered(items@, q@, i as int),
        decreases items.len() - i,
    {
        let e = &items[i];
        let keep = if str_eq(e.kind.as_str(), "file") {
            match &e.download_url {
                Some(_) => {
                    if q.as_str().is_empty() {
                        true
                    } else {
                        let l = lowercase(e.name.as_str());
                        contains_exec(l.as_str(), q.as_str())
                    }
                },
                None => false,
            }
        } else {
            false
        };
        assert(keep == offered(items@[i as int], q@));
        let ghost prev = schemes_view(out@);
        if keep {
            let url = match &e.download_url {
                Some(u) => u.clone(),
                None => String::new(),
            };
            out.push(GithubScheme { name: e.name.clone(), download_url: url, size: e.size });
            assert(schemes_view(out@) =~= prev.push(out@.last()@));
        }
        i = i + 1;
    }
    out
}

/// A file of the listing with a download address is offered for a query
/// whenever the lower-cased query occurs anywhere in its lower-cased name,
/// at its start or not: a listing of that one file gives it back.
pub proof fn law_query_anywhere_in_name(e: RepoEntry, before: Seq<char>, q: Seq<char>, after: Seq<char>)
    requires
        e.kind@ == "file"@,
        e.download_url is Some,
        spec_lowercase(e.name@) == before + q + after,
    ensures
        offered(e, q),
        spec_offered(seq![e], q, 1) == seq![SpecScheme { name: e.name@, download_url: e.download_url->0@, size: e.size }],
{
    let l = before + q + after;
    assert(l.subrange(before.len() as int, before.len() + q.len() as int) =~= q);
    assert(occurs_at(l, q, before.len() as int));
    assert(seq![e][0] == e);
    assert(spec_offered(seq![e], q, 0) == Seq::<SpecScheme>::empty());
    assert(spec_offered(seq![e], q, 1) =~= seq![SpecScheme { name: e.name@, download_url: e.download_url->0@, size: e.size }]);
}

/// The folder schemes are downloaded to: `%APPDATA%\SoundManager\Schemes`
/// (the current folder `.` in place of `APPDATA` when it is unset).
pub open spec fn spec_schemes_dir(appdata: Option<Seq<char>>) -> Seq<char> {
    let base = match appdata {
        Some(a) => a,
        None => "."@,
    };
    join_path(join_path(base, "SoundManager"@), "Schemes"@)
}

/// The download folder, given the value of `APPDATA`.
pub fn schemes_dir(appdata: Option<&str>) -> (r: String)
    ensures
        r@ == spec_schemes_dir(match appdata {
            Some(a) => Some(a@),
            None => None,
        }),
{
    let base = match appdata {
        Some(a) => a,
        None => ".",
    };
    let d = join_path_exec(base, "SoundManager");
    join_path_exec(d.as_str(), "Schemes")
}

/// Where the download of `file_name` is saved.
pub fn download_destination(appdata: Option<&str>, file_name: &str) -> (r: String)
    ensures
        r@ == join_path(spec_schemes_dir(match appdata {
            Some(a) => Some(a@),
            None => None,
        }), file_name@),
{
    let d = schemes_dir(appdata);
    join_path_exec(d.as_str(), file_name)
}

} // verus!
