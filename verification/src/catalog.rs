//! Sound catalog: search results of the MyInstants site, read from its HTML.

use vstd::prelude::*;
use vstd::string::StringExecFns;
use crate::text::{
    chars_of, string_of, trim, trim_bounds, find_char, find_char_in, find_str, find_str_in,
    occurs_at, occurs_at_exec, lemma_find_char,
};

verus! {

broadcast use vstd::string::group_string_axioms;

/// One sound of the catalog.
#[derive(Debug, Clone)]
pub struct CatalogSound {
    pub title: String,
    pub url: String,
    pub page_url: String,
}

pub struct SpecSound {
    pub title: Seq<char>,
    pub url: Seq<char>,
    pub page_url: Seq<char>,
}

impl View for CatalogSound {
    type V = SpecSound;

    open spec fn view(&self) -> SpecSound {
        SpecSound { title: self.title@, url: self.url@, page_url: self.page_url@ }
    }
}

pub open spec fn site() -> Seq<char> {
    "https://www.myinstants.com"@
}

pub open spec fn play_pat() -> Seq<char> {
    "play('/media/sounds/"@
}

pub open spec fn link_pat() -> Seq<char> {
    "instant-link"@
}

pub open spec fn href_pat() -> Seq<char> {
    "href=\"/en/instant/"@
}

/// Most sounds kept from one page.
pub open spec fn max_results() -> nat {
    30
}

/// `s.rsplit(c).next()`: the part of `s` after its last `c` (all of `s` when
/// there is none).
pub open spec fn after_last(s: Seq<char>, c: char) -> Seq<char>
    decreases s.len(),
{
    if s.len() == 0 {
        s
    } else if s.last() == c {
        seq![]
    } else {
        after_last(s.drop_last(), c).push(s.last())
    }
}

/// `s.trim_end_matches(suf)`: `s` without every trailing copy of `suf`.
pub open spec fn strip_suffix_all(s: Seq<char>, suf: Seq<char>) -> Seq<char>
    decreases s.len(),
{
    if suf.len() > 0 && s.len() >= suf.len() && s.skip(s.len() - suf.len()) == suf {
        strip_suffix_all(s.take(s.len() - suf.len()), suf)
    } else {
        s
    }
}

/// The text of the first `instant-link` element of `slice`, trimmed.
pub open spec fn title_from_link(slice: Seq<char>) -> Option<Seq<char>> {
    match find_str(slice, link_pat()) {
        None => None,
        Some(p) => {
            let a = slice.skip(p);
            match find_char(a, '>') {
                None => None,
                Some(g) => match find_char(a.skip(g + 1), '<') {
                    None => None,
                    Some(lt) => Some(trim(a.subrange(g + 1, g + 1 + lt))),
                },
            }
        },
    }
}

/// The absolute URL of the first `/en/instant/...` link of `slice`, or empty.
pub open spec fn page_url_of(slice: Seq<char>) -> Seq<char> {
    match find_str(slice, href_pat()) {
        None => seq![],
        Some(p) => {
            let a = slice.skip(p + 6);
            match find_char(a, '"') {
                None => seq![],
                Some(q) => site() + a.take(q),
            }
        },
    }
}

/// The sound whose `play('/media/sounds/...')` call starts at `i`, if the
/// quoted path is closed.
pub open spec fn catalog_item(html: Seq<char>, i: int) -> Option<SpecSound> {
    let start = i + 6;
    match find_char(html.skip(start), '\'') {
        None => None,
        Some(e) => {
            let mp3 = html.subrange(start, start + e);
            let slice = html.skip(i);
            let title = match title_from_link(slice) {
                Some(t) => t,
                None => strip_suffix_all(after_last(mp3, '/'), ".mp3"@),
            };
            Some(SpecSound { title, url: site() + mp3, page_url: page_url_of(slice) })
        },
    }
}

/// Positions below `n` where `pat` occurs in `s`, ascending.
pub open spec fn occ_upto(s: Seq<char>, pat: Seq<char>, n: int) -> Seq<int>
    decreases n,
{
    if n <= 0 {
        seq![]
    } else if occurs_at(s, pat, n - 1) {
        occ_upto(s, pat, n - 1).push(n - 1)
    } else {
        occ_upto(s, pat, n - 1)
    }
}

pub open spec fn catalog_step(html: Seq<char>, out: Seq<SpecSound>, i: int) -> Seq<SpecSound> {
    if out.len() >= max_results() {
        out
    } else {
        match catalog_item(html, i) {
            Some(x) => out.push(x),
            None => out,
        }
    }
}

pub open spec fn catalog_step_fn(html: Seq<char>) -> spec_fn(Seq<SpecSound>, int) -> Seq<SpecSound> {
    |out: Seq<SpecSound>, i: int| catalog_step(html, out, i)
}

/// The sounds of a search page: one per `play('/media/sounds/...')` call, in
/// page order, at most 30.
pub open spec fn spec_parse_myinstants(html: Seq<char>) -> Seq<SpecSound> {
    occ_upto(html, play_pat(), html.len() as int).fold_left(seq![], catalog_step_fn(html))
}

proof fn lemma_fold_capped(html: Seq<char>, occ: Seq<int>)
    ensures
        occ.fold_left(seq![], catalog_step_fn(html)).len() <= max_results(),
    decreases occ.len(),
{
    if occ.len() > 0 {
        lemma_fold_capped(html, occ.drop_last());
    }
}

/// A search page never gives more than 30 sounds.
pub proof fn law_catalog_capped(html: Seq<char>)
    ensures
        spec_parse_myinstants(html).len() <= 30,
{
    lemma_fold_capped(html, occ_upto(html, play_pat(), html.len() as int));
}

/// What is read for a sound (its address, its title from the first
/// `instant-link` after its `play(...)` call, its page) comes from the page
/// at and after that call: text put before it changes nothing.
pub proof fn law_sound_read_after_its_call(before: Seq<char>, page: Seq<char>, i: int)
    requires
        occurs_at(page, play_pat(), i),
    ensures
        catalog_item(before + page, before.len() + i) == catalog_item(page, i),
{
    reveal_strlit("play('/media/sounds/");
    let h = before + page;
    let j = before.len() + i;
    assert(h.skip(j) =~= page.skip(i));
    assert(h.skip(j + 6) =~= page.skip(i + 6));
    match find_char(page.skip(i + 6), '\'') {
        None => {},
        Some(e) => {
            lemma_find_char(page.skip(i + 6), '\'');
            assert(h.subrange(j + 6, j + 6 + e) =~= page.subrange(i + 6, i + 6 + e));
        },
    }
}

pub open spec fn sounds_view(v: Seq<CatalogSound>) -> Seq<SpecSound> {
    v.map_values(|c: CatalogSound| c@)
}

fn after_last_bounds(v: &Vec<char>, lo: usize, hi: usize, c: char) -> (r: usize)
    requires
        lo <= hi <= v.len(),
    ensures
        lo <= r <= hi,
        v@.subrange(r as int, hi as int) == after_last(v@.subrange(lo as int, hi as int), c),
{
    let mut k = hi;
    assert(v@.subrange(k as int, hi as int) =~= Seq::<char>::empty());
    while k > lo && v[k - 1] != c
        invariant
            lo <= k <= hi <= v.len(),
            after_last(v@.subrange(lo as int, hi as int), c) == after_last(
                v@.subrange(lo as int, k as int),
                c,
            ) + v@.subrange(k as int, hi as int),
        decreases k - lo,
    {
        let ghost s = v@.subrange(lo as int, k as int);
        assert(s.drop_last() =~= v@.subrange(lo as int, k - 1));
        assert(v@.subrange(k - 1, hi as int) =~= seq![s.last()] + v@.subrange(k as int, hi as int));
        assert(after_last(s, c) == after_last(s.drop_last(), c).push(s.last()));
        assert(after_last(s.drop_last(), c).push(s.last()) + v@.subrange(k as int, hi as int)
            =~= after_last(s.drop_last(), c) + v@.subrange(k - 1, hi as int));
        k = k - 1;
    }
    k
}

fn strip_mp3_bounds(v: &Vec<char>, lo: usize, hi: usize) -> (r: usize)
    requires
        lo <= hi <= v.len(),
    ensures
        lo <= r <= hi,
        v@.subrange(lo as int, r as int) == strip_suffix_all(v@.subrange(lo as int, hi as int), ".mp3"@),
{
    proof {
        reveal_strlit(".mp3");
    }
    let mut k = hi;
    while k - lo >= 4 && v[k - 4] == '.' && v[k - 3] == 'm' && v[k - 2] == 'p' && v[k - 1] == '3'
        invariant
            lo <= k <= hi <= v.len(),
            strip_suffix_all(v@.subrange(lo as int, hi as int), ".mp3"@) == strip_suffix_all(
                v@.subrange(lo as int, k as int),
                ".mp3"@,
            ),
        decreases k - lo,
    {
        let ghost s = v@.subrange(lo as int, k as int);
        proof {
            reveal_strlit(".mp3");
        }
        assert(s.skip(s.len() - 4) =~= ".mp3"@);
        assert(s.take(s.len() - 4) =~= v@.subrange(lo as int, k - 4));
        k = k - 4;
    }
    proof {
        let s = v@.subrange(lo as int, k as int);
        if s.len() >= 4 && s.skip(s.len() - 4) == ".mp3"@ {
            assert(s.skip(s.len() - 4)[0] == v@[k - 4]);
            assert(s.skip(s.len() - 4)[1] == v@[k - 3]);
            assert(s.skip(s.len() - 4)[2] == v@[k - 2]);
            assert(s.skip(s.len() - 4)[3] == v@[k - 1]);
        }
    }
    k
}

fn title_exec(v: &Vec<char>, i: usize, link: &Vec<char>) -> (r: Option<String>)
    requires
        i <= v.len(),
        link@ == link_pat(),
    ensures
        match r {
            Some(t) => title_from_link(v@.skip(i as int)) == Some(t@),
            None => title_from_link(v@.skip(i as int)) is None,
        },
{
    let n = v.len();
    let ghost slice = v@.skip(i as int);
    assert(v@.subrange(i as int, n as int) =~= slice);
    match find_str_in(v, i, n, link) {
        None => None,
        Some(p) => {
            let ghost a = slice.skip(p - i);
            assert(a =~= v@.subrange(p as int, n as int));
            match find_char_in(v, p, n, '>') {
                None => None,
                Some(g) => {
                    assert(a.skip(g - p + 1) =~= v@.subrange(g + 1, n as int));
                    match find_char_in(v, g + 1, n, '<') {
                        None => None,
                        Some(l) => {
                            assert(a.subrange(g - p + 1, g - p + 1 + (l - (g + 1))) =~= v@.subrange(g + 1, l as int));
                            let (ta, tb) = trim_bounds(v, g + 1, l);
                            Some(string_of(v, ta, tb))
                        },
                    }
                },
            }
        },
    }
}

fn page_url_exec(v: &Vec<char>, i: usize, href: &Vec<char>) -> (r: String)
    requires
        i <= v.len(),
        href@ == href_pat(),
    ensures
        r@ == page_url_of(v@.skip(i as int)),
{
    let n = v.len();
    let ghost slice = v@.skip(i as int);
    assert(v@.subrange(i as int, n as int) =~= slice);
    proof {
        reveal_strlit("href=\"/en/instant/");
        crate::text::lemma_find_str(slice, href_pat());
    }
    match find_str_in(v, i, n, href) {
        None => String::new(),
        Some(p) => {
            assert(p + 18 <= n) by {
                assert(occurs_at(slice, href_pat(), p - i));
            }
            let ghost a = slice.skip(p - i + 6);
            assert(a =~= v@.subrange(p + 6, n as int));
            match find_char_in(v, p + 6, n, '"') {
                None => String::new(),
                Some(q) => {
                    assert(a.take(q - (p + 6)) =~= v@.subrange(p + 6, q as int));
                    let mut r = "https://www.myinstants.com".to_owned();
                    let tail = string_of(v, p + 6, q);
                    r.append(tail.as_str());
                    r
                },
            }
        },
    }
}

fn item_exec(v: &Vec<char>, i: usize, link: &Vec<char>, href: &Vec<char>) -> (r: Option<CatalogSound>)
    requires
        occurs_at(v@, play_pat(), i as int),
        link@ == link_pat(),
        href@ == href_pat(),
    ensures
        match r {
            Some(x) => catalog_item(v@, i as int) == Some(x@),
            None => catalog_item(v@, i as int) is None,
        },
{
    proof {
        reveal_strlit("play('/media/sounds/");
    }
    let n = v.len();
    let start = i + 6;
    assert(v@.subrange(start as int, n as int) =~= v@.skip(start as int));
    match find_char_in(v, start, n, '\'') {
        None => None,
        Some(e) => {
            assert(v@.subrange(start as int, e as int) == v@.subrange(start as int, start + (e - start)));
            let mp3 = string_of(v, start, e);
            let mut url = "https://www.myinstants.com".to_owned();
            url.append(mp3.as_str());
            let title = match title_exec(v, i, link) {
                Some(t) => t,
                None => {
                    let k = after_last_bounds(v, start, e, '/');
                    let m = strip_mp3_bounds(v, k, e);
                    string_of(v, k, m)
                },
            };
            let page_url = page_url_exec(v, i, href);
            Some(CatalogSound { title, url, page_url })
        },
    }
}

/// Reads the sounds of a MyInstants search page (see `spec_parse_myinstants`).
pub fn parse_myinstants(html: &str) -> (r: Vec<CatalogSound>)
    ensures
        sounds_view(r@) == spec_parse_myinstants(html@),
{
    let v = chars_of(html);
    let play = chars_of("play('/media/sounds/");
    let link = chars_of("instant-link");
    let href = chars_of("href=\"/en/instant/");
    let n = v.len();
    let ghost f = catalog_step_fn(v@);
    let mut out: Vec<CatalogSound> = Vec::new();
    let mut i: usize = 0;
    assert(sounds_view(out@) =~= occ_upto(v@, play_pat(), 0).fold_left(seq![], f));
    while i < n
        invariant
            v@ == html@,
            n == v.len(),
            play@ == play_pat(),
            link@ == link_pat(),
            href@ == href_pat(),
            f == catalog_step_fn(v@),
            i <= n,
            sounds_view(out@) == occ_upto(v@, play_pat(), i as int).fold_left(seq![], f),
        decreases n - i,
    {
        let ghost occ = occ_upto(v@, play_pat(), i as int);
        let ghost prev = sounds_view(out@);
        if occurs_at_exec(&v, &play, i) {
            assert(occ_upto(v@, play_pat(), i + 1) == occ.push(i as int));
            assert(occ.push(i as int).drop_last() =~= occ);
            if out.len() < 30 {
                match item_exec(&v, i, &link, &href) {
                    Some(x) => {
                        out.push(x);
                        assert(sounds_view(out@) =~= prev.push(x@));
                    },
                    None => {},
                }
            }
            assert(sounds_view(out@) == catalog_step(v@, prev, i as int));
        }
        i = i + 1;
    }
    out
}

// ------------------------------------------------------------------ search and download

/// The search page for `query`.
pub open spec fn spec_search_url(query: Seq<char>) -> Seq<char> {
    site() + "/en/search/?name="@ + crate::encoding::percent_encoded(vstd::utf8::encode_utf8(query))
}

/// The address of the MyInstants search page for `query`; the caller
/// fetches it and reads the results with `parse_myinstants`.
pub fn search_url(query: &str) -> (r: String)
    ensures
        r@ == spec_search_url(query@),
{
    let mut r = "https://www.myinstants.com/en/search/?name=".to_owned();
    let e = crate::encoding::url_encode(query);
    r.append(e.as_str());
    proof {
        reveal_strlit("https://www.myinstants.com");
        reveal_strlit("/en/search/?name=");
        reveal_strlit("https://www.myinstants.com/en/search/?name=");
        assert("https://www.myinstants.com/en/search/?name="@ =~= site() + "/en/search/?name="@);
    }
    r
}

/// The decimal digits of `n`.
pub open spec fn decimal(n: nat) -> Seq<char>
    decreases n,
{
    if n < 10 {
        seq![(0x30 + n) as char]
    } else {
        decimal(n / 10).push((0x30 + n % 10) as char)
    }
}

/// The decimal text of `n`.
pub fn decimal_string(n: u32) -> (r: String)
    ensures
        r@ == decimal(n as nat),
    decreases n,
{
    let d = (n % 10) as u8;
    let c = (0x30u8 + d) as char;
    if n < 10 {
        let mut r = String::new();
        r.push(c);
        assert(r@ =~= decimal(n as nat));
        r
    } else {
        let mut r = decimal_string(n / 10);
        r.push(c);
        assert(r@ =~= decimal(n as nat));
        r
    }
}

/// The file a catalog sound is downloaded to: `sm-catalog-<pid>-<name>` in
/// `temp_dir`, where `<name>` is what follows the last `/` of `url`.
pub open spec fn spec_download_path(temp_dir: Seq<char>, pid: u32, url: Seq<char>) -> Seq<char> {
    crate::paths::join_path(temp_dir, "sm-catalog-"@ + decimal(pid as nat) + "-"@ + after_last(url, '/'))
}

/// Where to save the download of `url` (see `spec_download_path`); the
/// caller fetches the sound and writes it there.
pub fn download_path(temp_dir: &str, pid: u32, url: &str) -> (r: String)
    ensures
        r@ == spec_download_path(temp_dir@, pid, url@),
{
    let v = chars_of(url);
    let n = v.len();
    let start = after_last_bounds(&v, 0, n, '/');
    assert(v@.subrange(0, n as int) =~= url@);
    let name = string_of(&v, start, n);
    let mut f = "sm-catalog-".to_owned();
    let p = decimal_string(pid);
    f.append(p.as_str());
    f.append("-");
    f.append(name.as_str());
    crate::paths::join_path_exec(temp_dir, f.as_str())
}

} // verus!
