//! Windows-style path composition used for the media folder, the settings
//! file and the system DLL locations.

use vstd::prelude::*;
use crate::text::string_of;
use crate::text::chars_of;
use vstd::string::StringExecFns;
use vstd::string::StrSliceExecFns;

verus! {

pub open spec fn is_sep(c: char) -> bool {
    c == '\\' || c == '/'
}

/// `dir` is a bare drive prefix such as `C:`.
pub open spec fn is_drive(dir: Seq<char>) -> bool {
    dir.len() == 2 && (('a' <= dir[0] <= 'z') || ('A' <= dir[0] <= 'Z')) && dir[1] == ':'
}

/// What `Path::join` gives on Windows for a relative file `name`: a `\` is
/// inserted unless `dir` is empty, already ends in a separator, or is a bare
/// drive.
pub open spec fn join_path(dir: Seq<char>, name: Seq<char>) -> Seq<char> {
    if dir.len() == 0 || is_sep(dir.last()) || is_drive(dir) {
        dir + name
    } else {
        dir + seq!['\\'] + name
    }
}

/// Joins the relative file or folder `name` onto `dir`.
pub fn join_path_exec(dir: &str, name: &str) -> (r: String)
    ensures
        r@ == join_path(dir@, name@),
{
    let d = chars_of(dir);
    let n = d.len();
    let bare = n == 0 || d[n - 1] == '\\' || d[n - 1] == '/' || (n == 2 && (('a' <= d[0] && d[0]
        <= 'z') || ('A' <= d[0] && d[0] <= 'Z')) && d[1] == ':');
    let mut r = string_of(&d, 0, n);
    assert(d@.subrange(0, n as int) =~= d@);
    if !bare {
        r.push('\\');
    }
    let ghost base = r@;
    r.append(name);
    proof {
        if !bare {
            assert(base =~= dir@ + seq!['\\']);
        }
    }
    r
}

// ------------------------------------------------------------------ file names

/// Start of the path segment that ends at `end`: just after the last
/// separator before `end`, or 0.
pub open spec fn seg_start(p: Seq<char>, end: int) -> int
    decreases end,
{
    if end <= 0 {
        0
    } else if is_sep(p[end - 1]) {
        end
    } else {
        seg_start(p, end - 1)
    }
}

/// Where `Path::file_name` lies in `p[..end]`, with `/` and `\` as
/// separators: the last component that is neither empty nor `.`; none when
/// that is `..` or there is no component.
pub open spec fn file_name_span(p: Seq<char>, end: int) -> Option<(int, int)>
    decreases end,
{
    if end <= 0 {
        None
    } else if is_sep(p[end - 1]) {
        file_name_span(p, end - 1)
    } else {
        let start = seg_start(p, end);
        let seg = p.subrange(start, end);
        if seg == seq!['.'] {
            file_name_span(p, end - 1)
        } else if seg == seq!['.', '.'] {
            None
        } else {
            Some((start, end))
        }
    }
}

/// Index of the last `.` in `s`, or -1.
pub open spec fn last_dot(s: Seq<char>) -> int
    decreases s.len(),
{
    if s.len() == 0 {
        -1
    } else if s.last() == '.' {
        s.len() - 1
    } else {
        last_dot(s.drop_last())
    }
}

/// `Path::extension` of a file name: what follows its last `.`, unless the
/// name has no `.` or only one at its start.
pub open spec fn extension_of(name: Seq<char>) -> Option<Seq<char>> {
    let i = last_dot(name);
    if i <= 0 {
        None
    } else {
        Some(name.subrange(i + 1, name.len() as int))
    }
}

/// `Path::extension` of the path `p`.
pub open spec fn path_extension(p: Seq<char>) -> Option<Seq<char>> {
    match file_name_span(p, p.len() as int) {
        Some((s, e)) => extension_of(p.subrange(s, e)),
        None => None,
    }
}

/// `Path::with_extension(ext)`: the path up to the end of the file stem, then
/// `.ext` (nothing when `ext` is empty); `p` itself when it has no file name.
pub open spec fn spec_with_extension(p: Seq<char>, ext: Seq<char>) -> Seq<char> {
    match file_name_span(p, p.len() as int) {
        None => p,
        Some((s, e)) => {
            let d = last_dot(p.subrange(s, e));
            let stem_end = if d <= 0 { e } else { s + d };
            p.subrange(0, stem_end) + if ext.len() == 0 { seq![] } else { seq!['.'] + ext }
        },
    }
}

proof fn lemma_seg_start(p: Seq<char>, end: int)
    requires
        0 <= end <= p.len(),
    ensures
        0 <= seg_start(p, end) <= end,
    decreases end,
{
    if end > 0 && !is_sep(p[end - 1]) {
        lemma_seg_start(p, end - 1);
    }
}

fn seg_start_exec(v: &Vec<char>, end: usize) -> (r: usize)
    requires
        end <= v.len(),
    ensures
        r == seg_start(v@, end as int),
        r <= end,
{
    let mut j = end;
    while j > 0 && !(v[j - 1] == '\\' || v[j - 1] == '/')
        invariant
            j <= end <= v.len(),
            seg_start(v@, j as int) == seg_start(v@, end as int),
        decreases j,
    {
        j = j - 1;
    }
    j
}

/// The span of `Path::file_name` in `v` (see `file_name_span`).
pub fn file_name_span_exec(v: &Vec<char>) -> (r: Option<(usize, usize)>)
    ensures
        match r {
            Some((s, e)) => file_name_span(v@, v@.len() as int) == Some((s as int, e as int)) && s <= e <= v.len(),
            None => file_name_span(v@, v@.len() as int) is None,
        },
{
    let mut end = v.len();
    while end > 0
        invariant
            end <= v.len(),
            file_name_span(v@, v@.len() as int) == file_name_span(v@, end as int),
        decreases end,
    {
        if v[end - 1] == '\\' || v[end - 1] == '/' {
            end = end - 1;
        } else {
            let start = seg_start_exec(v, end);
            let len = end - start;
            proof {
                let seg = v@.subrange(start as int, end as int);
                assert(seg.len() == len);
                if len == 1 && seg[0] == '.' {
                    assert(seg =~= seq!['.']);
                }
                if len == 2 && seg[0] == '.' && seg[1] == '.' {
                    assert(seg =~= seq!['.', '.']);
                }
                if seg == seq!['.'] {
                    assert(len == 1 && seg[0] == '.');
                }
                if seg == seq!['.', '.'] {
                    assert(len == 2 && seg[0] == '.' && seg[1] == '.');
                }
            }
            if len == 1 && v[start] == '.' {
                end = end - 1;
            } else if len == 2 && v[start] == '.' && v[start + 1] == '.' {
                return None;
            } else {
                return Some((start, end));
            }
        }
    }
    None
}

fn last_dot_exec(v: &Vec<char>, s: usize, e: usize) -> (r: Option<usize>)
    requires
        s <= e <= v.len(),
    ensures
        match r {
            Some(i) => s <= i < e && last_dot(v@.subrange(s as int, e as int)) == i - s,
            None => last_dot(v@.subrange(s as int, e as int)) == -1,
        },
{
    let mut j = e;
    while j > s
        invariant
            s <= j <= e <= v.len(),
            last_dot(v@.subrange(s as int, e as int)) == last_dot(v@.subrange(s as int, j as int)),
        decreases j,
    {
        let ghost sub = v@.subrange(s as int, j as int);
        assert(sub.drop_last() =~= v@.subrange(s as int, j - 1));
        if v[j - 1] == '.' {
            return Some(j - 1);
        }
        j = j - 1;
    }
    None
}

/// `Path::extension` of `path` (see `path_extension`).
pub fn extension(path: &str) -> (r: Option<String>)
    ensures
        match r {
            Some(x) => path_extension(path@) == Some(x@),
            None => path_extension(path@) is None,
        },
{
    let v = chars_of(path);
    match file_name_span_exec(&v) {
        None => None,
        Some((s, e)) => match last_dot_exec(&v, s, e) {
            Some(i) => {
                if i == s {
                    None
                } else {
                    let ghost name = v@.subrange(s as int, e as int);
                    assert(name.subrange(i - s + 1, name.len() as int) =~= v@.subrange(i + 1, e as int));
                    Some(string_of(&v, i + 1, e))
                }
            },
            None => None,
        },
    }
}

/// `Path::with_extension(ext)` (see `spec_with_extension`).
pub fn with_extension(path: &str, ext: &str) -> (r: String)
    ensures
        r@ == spec_with_extension(path@, ext@),
{
    let v = chars_of(path);
    match file_name_span_exec(&v) {
        None => path.to_owned(),
        Some((s, e)) => {
            let stem_end = match last_dot_exec(&v, s, e) {
                Some(i) => if i == s { e } else { i },
                None => e,
            };
            let mut r = string_of(&v, 0, stem_end);
            if !ext.is_empty() {
                r.push('.');
                r.append(ext);
                assert(r@ =~= v@.subrange(0, stem_end as int) + (seq!['.'] + ext@));
            } else {
                assert(r@ =~= v@.subrange(0, stem_end as int) + Seq::<char>::empty());
            }
            r
        },
    }
}

// ------------------------------------------------------------------ laws

pub open spec fn no_sep_in(p: Seq<char>, lo: int, hi: int) -> bool {
    forall|j: int| lo <= j < hi ==> !is_sep(#[trigger] p[j])
}

proof fn lemma_seg_start_shape(p: Seq<char>, end: int)
    requires
        0 <= end <= p.len(),
    ensures
        0 <= seg_start(p, end) <= end,
        no_sep_in(p, seg_start(p, end), end),
        seg_start(p, end) == 0 || is_sep(p[seg_start(p, end) - 1]),
    decreases end,
{
    if end > 0 && !is_sep(p[end - 1]) {
        lemma_seg_start_shape(p, end - 1);
    }
}

proof fn lemma_seg_start_is(q: Seq<char>, end: int, k: int)
    requires
        0 <= k <= end <= q.len(),
        no_sep_in(q, k, end),
        k == 0 || is_sep(q[k - 1]),
    ensures
        seg_start(q, end) == k,
    decreases end,
{
    if end > k {
        lemma_seg_start_is(q, end - 1, k);
    }
}

proof fn lemma_span_shape(p: Seq<char>, end: int)
    requires
        0 <= end <= p.len(),
        file_name_span(p, end) is Some,
    ensures
        ({
            let (s, e) = file_name_span(p, end)->0;
            &&& 0 < e <= end
            &&& !is_sep(p[e - 1])
            &&& s == seg_start(p, e)
            &&& s < e
        }),
    decreases end,
{
    if is_sep(p[end - 1]) {
        lemma_span_shape(p, end - 1);
    } else {
        lemma_seg_start_shape(p, end);
        let start = seg_start(p, end);
        let seg = p.subrange(start, end);
        if seg == seq!['.'] {
            lemma_span_shape(p, end - 1);
        }
    }
}

proof fn lemma_last_dot_append(a: Seq<char>, b: Seq<char>)
    ensures
        last_dot(a + b) == if last_dot(b) >= 0 { a.len() + last_dot(b) } else { last_dot(a) },
    decreases b.len(),
{
    if b.len() == 0 {
        assert(a + b =~= a);
    } else {
        assert((a + b).drop_last() =~= a + b.drop_last());
        assert((a + b).last() == b.last());
        lemma_last_dot_append(a, b.drop_last());
    }
}

proof fn lemma_last_dot_range(s: Seq<char>)
    ensures
        -1 <= last_dot(s) < s.len(),
        last_dot(s) >= 0 ==> s[last_dot(s)] == '.',
        forall|j: int| last_dot(s) < j < s.len() ==> s[j] != '.',
    decreases s.len(),
{
    if s.len() > 0 && s.last() != '.' {
        lemma_last_dot_range(s.drop_last());
        assert forall|j: int| last_dot(s) < j < s.len() implies s[j] != '.' by {
            if j < s.len() - 1 {
                assert(s.drop_last()[j] == s[j]);
            }
        }
    }
}

proof fn lemma_last_dot_none(s: Seq<char>)
    requires
        forall|j: int| 0 <= j < s.len() ==> s[j] != '.',
    ensures
        last_dot(s) == -1,
    decreases s.len(),
{
    if s.len() > 0 {
        lemma_last_dot_none(s.drop_last());
    }
}

/// Giving a file name the extension `ext` (non-empty, without `.` or a
/// separator) makes `ext` its extension: a converted `.soundpack` path gets
/// the extension `ths`.
pub proof fn law_with_extension_sets_extension(p: Seq<char>, ext: Seq<char>)
    requires
        file_name_span(p, p.len() as int) is Some,
        ext.len() > 0,
        forall|j: int| 0 <= j < ext.len() ==> ext[j] != '.' && !is_sep(ext[j]),
    ensures
        path_extension(spec_with_extension(p, ext)) == Some(ext),
{
    let (s, e) = file_name_span(p, p.len() as int)->0;
    lemma_span_shape(p, p.len() as int);
    lemma_seg_start_shape(p, e);
    let name = p.subrange(s, e);
    let d = last_dot(name);
    lemma_last_dot_range(name);
    let stem_end = if d <= 0 { e } else { s + d };
    let t = seq!['.'] + ext;
    let r = p.subrange(0, stem_end) + t;
    assert(r == spec_with_extension(p, ext));
    let len = r.len() as int;
    assert(r.last() == ext.last());
    assert(!is_sep(r[len - 1]));
    assert forall|j: int| s <= j < len implies !is_sep(#[trigger] r[j]) by {
        if j < stem_end {
            assert(r[j] == p[j]);
        } else if j > stem_end {
            assert(r[j] == ext[j - stem_end - 1]);
        }
    }
    if s > 0 {
        assert(r[s - 1] == p[s - 1]);
    }
    lemma_seg_start_is(r, len, s);
    let seg = r.subrange(s, len);
    let stem = p.subrange(s, stem_end);
    assert(seg =~= stem + t);
    assert(seg.len() >= 2);
    if seg == seq!['.', '.'] {
        // the last character of the segment is the last of `ext`, never a `.`
        assert(seg[seg.len() - 1] == ext.last());
    }
    assert(file_name_span(r, len) == Some((s, len)));
    lemma_last_dot_none(ext);
    assert(last_dot(t) == 0) by {
        lemma_last_dot_append(seq!['.'], ext);
        assert(last_dot(seq!['.']) == 0);
    }
    lemma_last_dot_append(stem, t);
    assert(last_dot(seg) == stem.len());
    assert(stem.len() > 0);
    assert(seg.subrange(stem.len() + 1 as int, seg.len() as int) =~= ext);
}

} // verus!
