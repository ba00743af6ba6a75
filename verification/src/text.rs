//! Character-level text helpers shared by the parsers of this crate.
//!
//! Strings are handled as sequences of Unicode scalar values (`char`), which
//! is what `str` views as in specifications. Exec helpers work on a `Vec<char>`
//! and half-open index ranges into it.

use vstd::prelude::*;

verus! {

broadcast use vstd::string::group_string_axioms;

/// `String::push` appends one character.
pub assume_specification[ String::push ](s: &mut String, ch: char)
    ensures
        final(s)@ == old(s)@.push(ch),
;

// ------------------------------------------------------------------ specs

/// Unicode `White_Space`, the set that `char::is_whitespace` and `str::trim` use.
pub open spec fn is_ws(c: char) -> bool {
    let u = c as u32;
    ||| 9 <= u <= 13
    ||| u == 32
    ||| u == 0x85
    ||| u == 0xA0
    ||| u == 0x1680
    ||| 0x2000 <= u <= 0x200A
    ||| u == 0x2028
    ||| u == 0x2029
    ||| u == 0x202F
    ||| u == 0x205F
    ||| u == 0x3000
}

/// `s` without its leading characters that satisfy `is_ws`.
pub open spec fn trim_start(s: Seq<char>) -> Seq<char>
    decreases s.len(),
{
    if s.len() > 0 && is_ws(s[0]) {
        trim_start(s.drop_first())
    } else {
        s
    }
}

/// `s` without its trailing characters that satisfy `is_ws`.
pub open spec fn trim_end(s: Seq<char>) -> Seq<char>
    decreases s.len(),
{
    if s.len() > 0 && is_ws(s.last()) {
        trim_end(s.drop_last())
    } else {
        s
    }
}

/// `str::trim`.
pub open spec fn trim(s: Seq<char>) -> Seq<char> {
    trim_end(trim_start(s))
}

/// `str::trim_matches(c)`: `s` without every leading and trailing `c`.
pub open spec fn strip_all_start(s: Seq<char>, c: char) -> Seq<char>
    decreases s.len(),
{
    if s.len() > 0 && s[0] == c {
        strip_all_start(s.drop_first(), c)
    } else {
        s
    }
}

pub open spec fn strip_all_end(s: Seq<char>, c: char) -> Seq<char>
    decreases s.len(),
{
    if s.len() > 0 && s.last() == c {
        strip_all_end(s.drop_last(), c)
    } else {
        s
    }
}

pub open spec fn trim_char(s: Seq<char>, c: char) -> Seq<char> {
    strip_all_end(strip_all_start(s, c), c)
}

/// Index of the first `c` in `s`.
pub open spec fn find_char(s: Seq<char>, c: char) -> Option<int>
    decreases s.len(),
{
    if s.len() == 0 {
        None
    } else if s[0] == c {
        Some(0)
    } else {
        match find_char(s.drop_first(), c) {
            Some(i) => Some(i + 1),
            None => None,
        }
    }
}

/// `s` without one trailing carriage return.
pub open spec fn strip_cr(s: Seq<char>) -> Seq<char> {
    if s.len() > 0 && s.last() == '\r' {
        s.drop_last()
    } else {
        s
    }
}

/// `str::lines`: pieces ended by `\n` (a `\r` before it is dropped too); the
/// last line ending is optional and an empty text has no line.
pub open spec fn lines(s: Seq<char>) -> Seq<Seq<char>>
    decreases s.len(),
{
    if s.len() == 0 {
        seq![]
    } else {
        match find_char(s, '\n') {
            Some(i) => if 0 <= i < s.len() {
                seq![strip_cr(s.take(i))] + lines(s.skip(i + 1))
            } else {
                seq![]
            },
            None => seq![s],
        }
    }
}

/// `str::split(c)`: the pieces between occurrences of `c`; never empty.
pub open spec fn split(s: Seq<char>, c: char) -> Seq<Seq<char>>
    decreases s.len(),
{
    match find_char(s, c) {
        Some(i) => if 0 <= i < s.len() {
            seq![s.take(i)] + split(s.skip(i + 1), c)
        } else {
            seq![]
        },
        None => seq![s],
    }
}

/// `s` holds `pat` at position `i`.
pub open spec fn occurs_at(s: Seq<char>, pat: Seq<char>, i: int) -> bool {
    0 <= i && i + pat.len() <= s.len() && s.subrange(i, i + pat.len()) == pat
}

/// `str::find(pat)`: index of the first occurrence of `pat` in `s`.
pub open spec fn find_str(s: Seq<char>, pat: Seq<char>) -> Option<int>
    decreases s.len(),
{
    if s.len() < pat.len() {
        None
    } else if s.take(pat.len() as int) == pat {
        Some(0)
    } else if s.len() == 0 {
        None
    } else {
        match find_str(s.drop_first(), pat) {
            Some(i) => Some(i + 1),
            None => None,
        }
    }
}

pub open spec fn ascii_lower_char(c: char) -> char {
    if 'A' <= c <= 'Z' {
        ((c as u32) + 32) as char
    } else {
        c
    }
}

/// `str::eq_ignore_ascii_case`.
pub open spec fn eq_ignore_ascii_case(a: Seq<char>, b: Seq<char>) -> bool {
    a.len() == b.len() && forall|i: int|
        0 <= i < a.len() ==> ascii_lower_char(#[trigger] a[i]) == ascii_lower_char(b[i])
}

pub open spec fn is_ascii_seq(s: Seq<char>) -> bool {
    forall|i: int| 0 <= i < s.len() ==> (#[trigger] s[i] as u32) < 128
}

/// What `str::to_lowercase` returns: full Unicode lowercase mapping.
pub uninterp spec fn unicode_lowercase(s: Seq<char>) -> Seq<char>;

pub open spec fn ascii_lowercase(s: Seq<char>) -> Seq<char> {
    s.map_values(|c: char| ascii_lower_char(c))
}

/// `str::to_lowercase`, spelled out for ASCII text.
pub open spec fn spec_lowercase(s: Seq<char>) -> Seq<char> {
    if is_ascii_seq(s) {
        ascii_lowercase(s)
    } else {
        unicode_lowercase(s)
    }
}

/// Calls `str::to_lowercase` (std). Its result is named `unicode_lowercase`
/// of the argument; the one fact stated besides is the one std documents for
/// ASCII text: only `A`..=`Z` change, to `a`..=`z`.
#[verifier::external_body]
pub(crate) fn to_lowercase(s: &str) -> (r: String)
    ensures
        r@ == unicode_lowercase(s@),
        is_ascii_seq(s@) ==> r@ == ascii_lowercase(s@),
{
    s.to_lowercase()
}

/// `str::to_lowercase`, with the contract stated over `spec_lowercase`.
pub fn lowercase(s: &str) -> (r: String)
    ensures
        r@ == spec_lowercase(s@),
{
    to_lowercase(s)
}

// ------------------------------------------------------------------ lemmas

pub proof fn lemma_find_char(s: Seq<char>, c: char)
    ensures
        match find_char(s, c) {
            Some(i) => 0 <= i < s.len() && s[i] == c && forall|j: int| 0 <= j < i ==> s[j] != c,
            None => forall|j: int| 0 <= j < s.len() ==> s[j] != c,
        },
    decreases s.len(),
{
    if s.len() > 0 && s[0] != c {
        lemma_find_char(s.drop_first(), c);
        match find_char(s.drop_first(), c) {
            Some(i) => {
                assert forall|j: int| 0 <= j < i + 1 implies s[j] != c by {
                    if j > 0 {
                        assert(s[j] == s.drop_first()[j - 1]);
                    }
                }
            },
            None => {
                assert forall|j: int| 0 <= j < s.len() implies s[j] != c by {
                    if j > 0 {
                        assert(s[j] == s.drop_first()[j - 1]);
                    }
                }
            },
        }
    }
}

/// Characterizes `find_char` by its first occurrence.
pub proof fn lemma_find_char_is(s: Seq<char>, c: char, k: int)
    requires
        0 <= k < s.len(),
        s[k] == c,
        forall|j: int| 0 <= j < k ==> s[j] != c,
    ensures
        find_char(s, c) == Some(k),
{
    lemma_find_char(s, c);
}

pub proof fn lemma_find_char_none(s: Seq<char>, c: char)
    requires
        forall|j: int| 0 <= j < s.len() ==> s[j] != c,
    ensures
        find_char(s, c) is None,
{
    lemma_find_char(s, c);
}

// ------------------------------------------------------------------ exec

/// The characters of `s`, in order.
pub fn chars_of(s: &str) -> (v: Vec<char>)
    ensures
        v@ == s@,
{
    let mut v: Vec<char> = Vec::new();
    for c in it: s.chars()
        invariant
            v@ == it.seq().take(it.index() as int),
            it.seq() == s@,
    {
        v.push(c);
    }
    v
}

/// A `String` holding `v[lo..hi]`.
pub fn string_of(v: &Vec<char>, lo: usize, hi: usize) -> (r: String)
    requires
        lo <= hi <= v.len(),
    ensures
        r@ == v@.subrange(lo as int, hi as int),
{
    let mut r = String::new();
    let mut i = lo;
    while i < hi
        invariant
            lo <= i <= hi <= v.len(),
            r@ == v@.subrange(lo as int, i as int),
        decreases hi - i,
    {
        r.push(v[i]);
        i = i + 1;
        assert(r@ =~= v@.subrange(lo as int, i as int));
    }
    r
}

pub fn is_ws_char(c: char) -> (b: bool)
    ensures
        b == is_ws(c),
{
    let u = c as u32;
    (9 <= u && u <= 13) || u == 32 || u == 0x85 || u == 0xA0 || u == 0x1680 || (0x2000 <= u && u
        <= 0x200A) || u == 0x2028 || u == 0x2029 || u == 0x202F || u == 0x205F || u == 0x3000
}

/// Bounds of `trim(v[lo..hi])` inside `v`.
pub fn trim_bounds(v: &Vec<char>, lo: usize, hi: usize) -> (r: (usize, usize))
    requires
        lo <= hi <= v.len(),
    ensures
        lo <= r.0 <= r.1 <= hi,
        v@.subrange(r.0 as int, r.1 as int) == trim(v@.subrange(lo as int, hi as int)),
{
    let mut a = lo;
    while a < hi && is_ws_char(v[a])
        invariant
            lo <= a <= hi <= v.len(),
            trim_start(v@.subrange(lo as int, hi as int)) == trim_start(
                v@.subrange(a as int, hi as int),
            ),
        decreases hi - a,
    {
        assert(v@.subrange(a as int, hi as int).drop_first() =~= v@.subrange(
            a + 1,
            hi as int,
        ));
        a = a + 1;
    }
    assert(trim_start(v@.subrange(a as int, hi as int)) == v@.subrange(a as int, hi as int));
    let mut b = hi;
    while b > a && is_ws_char(v[b - 1])
        invariant
            lo <= a <= b <= hi <= v.len(),
            trim(v@.subrange(lo as int, hi as int)) == trim_end(v@.subrange(a as int, b as int)),
        decreases b - a,
    {
        assert(v@.subrange(a as int, b as int).drop_last() =~= v@.subrange(a as int, b - 1));
        b = b - 1;
    }
    (a, b)
}

/// Bounds of `trim_char(v[lo..hi], c)` inside `v`.
pub fn trim_char_bounds(v: &Vec<char>, lo: usize, hi: usize, c: char) -> (r: (usize, usize))
    requires
        lo <= hi <= v.len(),
    ensures
        lo <= r.0 <= r.1 <= hi,
        v@.subrange(r.0 as int, r.1 as int) == trim_char(v@.subrange(lo as int, hi as int), c),
{
    let mut a = lo;
    while a < hi && v[a] == c
        invariant
            lo <= a <= hi <= v.len(),
            strip_all_start(v@.subrange(lo as int, hi as int), c) == strip_all_start(
                v@.subrange(a as int, hi as int),
                c,
            ),
        decreases hi - a,
    {
        assert(v@.subrange(a as int, hi as int).drop_first() =~= v@.subrange(
            a + 1,
            hi as int,
        ));
        a = a + 1;
    }
    let mut b = hi;
    while b > a && v[b - 1] == c
        invariant
            lo <= a <= b <= hi <= v.len(),
            trim_char(v@.subrange(lo as int, hi as int), c) == strip_all_end(
                v@.subrange(a as int, b as int),
                c,
            ),
        decreases b - a,
    {
        assert(v@.subrange(a as int, b as int).drop_last() =~= v@.subrange(a as int, b - 1));
        b = b - 1;
    }
    (a, b)
}

/// Position of the first `c` in `v[lo..hi]`, as an index into `v`.
pub fn find_char_in(v: &Vec<char>, lo: usize, hi: usize, c: char) -> (r: Option<usize>)
    requires
        lo <= hi <= v.len(),
    ensures
        match r {
            Some(k) => lo <= k < hi && find_char(v@.subrange(lo as int, hi as int), c) == Some(
                k - lo,
            ),
            None => find_char(v@.subrange(lo as int, hi as int), c) is None,
        },
{
    let mut i = lo;
    while i < hi
        invariant
            lo <= i <= hi <= v.len(),
            forall|j: int| lo <= j < i ==> v@[j] != c,
        decreases hi - i,
    {
        if v[i] == c {
            proof {
                lemma_find_char_is(v@.subrange(lo as int, hi as int), c, i - lo);
            }
            return Some(i);
        }
        i = i + 1;
    }
    proof {
        lemma_find_char_none(v@.subrange(lo as int, hi as int), c);
    }
    None
}

/// Ranges of `lines(v[lo..hi])` inside `v`.
pub fn line_ranges(v: &Vec<char>) -> (r: Vec<(usize, usize)>)
    ensures
        r@.len() == lines(v@).len(),
        forall|k: int|
            0 <= k < r@.len() ==> {
                &&& (#[trigger] r@[k]).0 <= r@[k].1 <= v.len()
                &&& v@.subrange(r@[k].0 as int, r@[k].1 as int) == lines(v@)[k]
            },
{
    let mut r: Vec<(usize, usize)> = Vec::new();
    let mut start: usize = 0;
    let n = v.len();
    assert(v@.subrange(0, n as int) =~= v@);
    assert(Seq::new(0, |k: int| v@.subrange(r@[k].0 as int, r@[k].1 as int)) + lines(v@) =~= lines(
        v@,
    ));
    while start < n
        invariant
            n == v.len(),
            start <= n,
            lines(v@) == Seq::new(
                r@.len(),
                |k: int| v@.subrange(r@[k].0 as int, r@[k].1 as int),
            ) + lines(v@.subrange(start as int, n as int)),
            forall|k: int| 0 <= k < r@.len() ==> (#[trigger] r@[k]).0 <= r@[k].1 <= n,
        decreases n - start,
    {
        let ghost s = v@.subrange(start as int, n as int);
        let ghost old_r = r@;
        proof {
            lemma_find_char(s, '\n');
        }
        match find_char_in(v, start, n, '\n') {
            None => {
                r.push((start, n));
                assert(lines(s) == seq![s]);
                assert(lines(v@.subrange(n as int, n as int)) =~= Seq::<Seq<char>>::empty());
                assert(Seq::new(r@.len(), |k: int| v@.subrange(r@[k].0 as int, r@[k].1 as int))
                    =~= Seq::new(
                    old_r.len(),
                    |k: int| v@.subrange(old_r[k].0 as int, old_r[k].1 as int),
                ) + seq![s]);
                start = n;
            },
            Some(i) => {
                let e = if i > start && v[i - 1] == '\r' {
                    i - 1
                } else {
                    i
                };
                r.push((start, e));
                assert(s.take(i - start) =~= v@.subrange(start as int, i as int));
                assert(strip_cr(s.take(i - start)) =~= v@.subrange(start as int, e as int));
                assert(s.skip(i - start + 1) =~= v@.subrange(i + 1, n as int));
                assert(Seq::new(r@.len(), |k: int| v@.subrange(r@[k].0 as int, r@[k].1 as int))
                    =~= Seq::new(
                    old_r.len(),
                    |k: int| v@.subrange(old_r[k].0 as int, old_r[k].1 as int),
                ) + seq![v@.subrange(start as int, e as int)]);
                start = i + 1;
            },
        }
    }
    assert(lines(v@.subrange(n as int, n as int)) =~= Seq::<Seq<char>>::empty());
    r
}

} // verus!

verus! {

/// Character-wise equality of two strings.
pub fn str_eq(a: &str, b: &str) -> (r: bool)
    ensures
        r == (a@ == b@),
{
    let x = chars_of(a);
    let y = chars_of(b);
    if x.len() != y.len() {
        return false;
    }
    let mut i: usize = 0;
    while i < x.len()
        invariant
            x@ == a@,
            y@ == b@,
            x.len() == y.len(),
            i <= x.len(),
            forall|j: int| 0 <= j < i ==> x@[j] == y@[j],
        decreases x.len() - i,
    {
        if x[i] != y[i] {
            return false;
        }
        i = i + 1;
    }
    assert(x@ =~= y@);
    true
}

} // verus!

verus! {

/// `str::eq_ignore_ascii_case`.
pub fn eq_ignore_ascii_case_exec(a: &str, b: &str) -> (r: bool)
    ensures
        r == eq_ignore_ascii_case(a@, b@),
{
    let x = chars_of(a);
    let y = chars_of(b);
    if x.len() != y.len() {
        return false;
    }
    let mut i: usize = 0;
    while i < x.len()
        invariant
            x@ == a@,
            y@ == b@,
            x.len() == y.len(),
            i <= x.len(),
            forall|j: int| 0 <= j < i ==> ascii_lower_char(#[trigger] x@[j]) == ascii_lower_char(y@[j]),
        decreases x.len() - i,
    {
        let cx = if 'A' <= x[i] && x[i] <= 'Z' { ((x[i] as u8) + 32) as char } else { x[i] };
        let cy = if 'A' <= y[i] && y[i] <= 'Z' { ((y[i] as u8) + 32) as char } else { y[i] };
        if cx != cy {
            return false;
        }
        i = i + 1;
    }
    true
}

/// Ranges of `split(v[lo..hi], c)` inside `v`.
pub fn split_ranges(v: &Vec<char>, lo: usize, hi: usize, c: char) -> (r: Vec<(usize, usize)>)
    requires
        lo <= hi <= v.len(),
    ensures
        r@.len() == split(v@.subrange(lo as int, hi as int), c).len(),
        forall|k: int|
            0 <= k < r@.len() ==> {
                &&& lo <= (#[trigger] r@[k]).0 <= r@[k].1 <= hi
                &&& v@.subrange(r@[k].0 as int, r@[k].1 as int) == split(
                    v@.subrange(lo as int, hi as int),
                    c,
                )[k]
            },
{
    let mut r: Vec<(usize, usize)> = Vec::new();
    let mut start: usize = lo;
    let ghost whole = split(v@.subrange(lo as int, hi as int), c);
    assert(Seq::new(0, |k: int| v@.subrange(r@[k].0 as int, r@[k].1 as int)) + whole =~= whole);
    loop
        invariant
            lo <= start <= hi <= v.len(),
            whole == split(v@.subrange(lo as int, hi as int), c),
            whole == Seq::new(
                r@.len(),
                |k: int| v@.subrange(r@[k].0 as int, r@[k].1 as int),
            ) + split(v@.subrange(start as int, hi as int), c),
            forall|k: int| 0 <= k < r@.len() ==> lo <= (#[trigger] r@[k]).0 <= r@[k].1 <= hi,
        decreases hi - start,
    {
        let ghost s = v@.subrange(start as int, hi as int);
        let ghost old_r = r@;
        proof {
            lemma_find_char(s, c);
        }
        match find_char_in(v, start, hi, c) {
            None => {
                r.push((start, hi));
                assert(Seq::new(r@.len(), |k: int| v@.subrange(r@[k].0 as int, r@[k].1 as int))
                    =~= Seq::new(
                    old_r.len(),
                    |k: int| v@.subrange(old_r[k].0 as int, old_r[k].1 as int),
                ) + seq![s]);
                assert(Seq::new(r@.len(), |k: int| v@.subrange(r@[k].0 as int, r@[k].1 as int))
                    =~= whole);
                return r;
            },
            Some(i) => {
                r.push((start, i));
                assert(s.take(i - start) =~= v@.subrange(start as int, i as int));
                assert(s.skip(i - start + 1) =~= v@.subrange(i + 1, hi as int));
                assert(Seq::new(r@.len(), |k: int| v@.subrange(r@[k].0 as int, r@[k].1 as int))
                    =~= Seq::new(
                    old_r.len(),
                    |k: int| v@.subrange(old_r[k].0 as int, old_r[k].1 as int),
                ) + seq![v@.subrange(start as int, i as int)]);
                start = i + 1;
            },
        }
    }
}

} // verus!

verus! {

pub proof fn lemma_trim_noop(s: Seq<char>)
    requires
        s.len() == 0 || (!is_ws(s[0]) && !is_ws(s.last())),
    ensures
        trim(s) == s,
{
    assert(trim_start(s) == s);
}

pub proof fn lemma_join_crlf_front(ls: Seq<Seq<char>>)
    requires
        ls.len() > 0,
    ensures
        join_crlf(ls) == ls[0] + seq!['\r', '\n'] + join_crlf(ls.drop_first()),
    decreases ls.len(),
{
    if ls.len() == 1 {
        assert(ls.drop_last() =~= Seq::<Seq<char>>::empty());
        assert(ls.drop_first() =~= Seq::<Seq<char>>::empty());
        assert(join_crlf(ls.drop_last()) =~= Seq::<char>::empty());
        assert(join_crlf(ls.drop_first()) =~= Seq::<char>::empty());
        assert(join_crlf(ls) =~= ls[0] + seq!['\r', '\n'] + join_crlf(ls.drop_first()));
    } else {
        lemma_join_crlf_front(ls.drop_last());
        assert(ls.drop_last().drop_first() =~= ls.drop_first().drop_last());
        assert(ls.drop_first().last() == ls.last());
        assert(join_crlf(ls) =~= ls[0] + seq!['\r', '\n'] + join_crlf(ls.drop_first()));
    }
}

pub open spec fn no_newline(s: Seq<char>) -> bool {
    forall|j: int| 0 <= j < s.len() ==> s[j] != '\n'
}

pub proof fn lemma_lines_cons(a: Seq<char>, rest: Seq<char>)
    requires
        no_newline(a),
    ensures
        lines(a + seq!['\r', '\n'] + rest) == seq![a] + lines(rest),
{
    let s = a + seq!['\r', '\n'] + rest;
    let k = a.len() as int + 1;
    assert(s[k] == '\n');
    assert forall|j: int| 0 <= j < k implies s[j] != '\n' by {
        if j < a.len() {
            assert(s[j] == a[j]);
        } else {
            assert(s[j] == '\r');
        }
    }
    lemma_find_char_is(s, '\n', k);
    assert(s.take(k) =~= a.push('\r'));
    assert(strip_cr(s.take(k)) =~= a);
    assert(s.skip(k + 1) =~= rest);
}

/// Text written as lines ended by `\r\n` reads back as those lines.
pub proof fn lemma_lines_join_crlf(ls: Seq<Seq<char>>)
    requires
        forall|i: int| 0 <= i < ls.len() ==> no_newline(#[trigger] ls[i]),
    ensures
        lines(join_crlf(ls)) == ls,
    decreases ls.len(),
{
    if ls.len() == 0 {
        assert(join_crlf(ls) =~= Seq::<char>::empty());
        assert(lines(join_crlf(ls)) =~= ls);
    } else {
        lemma_join_crlf_front(ls);
        assert(no_newline(ls[0]));
        lemma_lines_cons(ls[0], join_crlf(ls.drop_first()));
        assert forall|i: int| 0 <= i < ls.drop_first().len() implies no_newline(#[trigger] ls.drop_first()[i]) by {
            assert(ls.drop_first()[i] == ls[i + 1]);
        }
        lemma_lines_join_crlf(ls.drop_first());
        assert(seq![ls[0]] + ls.drop_first() =~= ls);
    }
}

pub open spec fn no_hash(s: Seq<char>) -> bool {
    forall|j: int| 0 <= j < s.len() ==> s[j] != '#'
}

pub proof fn lemma_trim_start_len(s: Seq<char>)
    ensures
        trim_start(s).len() <= s.len(),
        trim_start(s).len() == s.len() ==> trim_start(s) == s,
        s.len() > 0 && is_ws(s[0]) ==> trim_start(s).len() < s.len(),
    decreases s.len(),
{
    if s.len() > 0 && is_ws(s[0]) {
        lemma_trim_start_len(s.drop_first());
    }
}

pub proof fn lemma_trim_end_len(s: Seq<char>)
    ensures
        trim_end(s).len() <= s.len(),
        trim_end(s).len() == s.len() ==> trim_end(s) == s,
        s.len() > 0 && is_ws(s.last()) ==> trim_end(s).len() < s.len(),
    decreases s.len(),
{
    if s.len() > 0 && is_ws(s.last()) {
        lemma_trim_end_len(s.drop_last());
    }
}

pub proof fn lemma_concat_no_newline(a: Seq<char>, b: Seq<char>)
    requires
        no_newline(a),
        no_newline(b),
    ensures
        no_newline(a + b),
{
    assert forall|j: int| 0 <= j < (a + b).len() implies (a + b)[j] != '\n' by {
        if j < a.len() {
            assert((a + b)[j] == a[j]);
        } else {
            assert((a + b)[j] == b[j - a.len()]);
        }
    }
}

/// `ls` as text, each line ended by `\r\n`.
pub open spec fn join_crlf(ls: Seq<Seq<char>>) -> Seq<char>
    decreases ls.len(),
{
    if ls.len() == 0 {
        seq![]
    } else {
        join_crlf(ls.drop_last()) + ls.last() + seq!['\r', '\n']
    }
}

} // verus!

verus! {

pub proof fn lemma_join_crlf_push(ls: Seq<Seq<char>>, l: Seq<char>)
    ensures
        join_crlf(ls.push(l)) == join_crlf(ls) + l + seq!['\r', '\n'],
{
    assert(ls.push(l).drop_last() =~= ls);
}

} // verus!

verus! {

pub proof fn lemma_find_str(s: Seq<char>, pat: Seq<char>)
    ensures
        match find_str(s, pat) {
            Some(k) => occurs_at(s, pat, k) && forall|j: int| 0 <= j < k ==> !occurs_at(s, pat, j),
            None => forall|j: int| !occurs_at(s, pat, j),
        },
    decreases s.len(),
{
    if s.len() < pat.len() {
    } else if s.take(pat.len() as int) == pat {
        assert(s.subrange(0, pat.len() as int) =~= s.take(pat.len() as int));
    } else if s.len() == 0 {
        assert(pat.len() == 0);
        assert(s.take(0) =~= pat);
    } else {
        let t = s.drop_first();
        lemma_find_str(t, pat);
        assert(!occurs_at(s, pat, 0)) by {
            if occurs_at(s, pat, 0) {
                assert(s.subrange(0, pat.len() as int) =~= s.take(pat.len() as int));
            }
        }
        assert forall|j: int| j >= 1 implies occurs_at(s, pat, j) == occurs_at(t, pat, j - 1) by {
            if 0 <= j - 1 && j - 1 + pat.len() <= t.len() {
                assert(s.subrange(j, j + pat.len()) =~= t.subrange(j - 1, j - 1 + pat.len()));
            }
        }
    }
}

/// `pat` occurs in `v` at `i`.
pub fn occurs_at_exec(v: &Vec<char>, pat: &Vec<char>, i: usize) -> (r: bool)
    ensures
        r == occurs_at(v@, pat@, i as int),
{
    if pat.len() > v.len() || i > v.len() - pat.len() {
        return false;
    }
    let mut k: usize = 0;
    while k < pat.len()
        invariant
            i + pat.len() <= v.len(),
            k <= pat.len(),
            forall|j: int| 0 <= j < k ==> v@[i + j] == pat@[j],
        decreases pat.len() - k,
    {
        if v[i + k] != pat[k] {
            assert(v@.subrange(i as int, i + pat.len())[k as int] != pat@[k as int]);
            return false;
        }
        k = k + 1;
    }
    assert(v@.subrange(i as int, i + pat.len()) =~= pat@);
    true
}

/// Position of the first occurrence of `pat` in `v[lo..hi]`, as an index into `v`.
pub fn find_str_in(v: &Vec<char>, lo: usize, hi: usize, pat: &Vec<char>) -> (r: Option<usize>)
    requires
        lo <= hi <= v.len(),
    ensures
        match r {
            Some(k) => lo <= k <= hi && find_str(v@.subrange(lo as int, hi as int), pat@) == Some(k - lo),
            None => find_str(v@.subrange(lo as int, hi as int), pat@) is None,
        },
{
    let ghost s = v@.subrange(lo as int, hi as int);
    proof {
        lemma_find_str(s, pat@);
    }
    if pat.len() > hi - lo {
        assert forall|j: int| !occurs_at(s, pat@, j) by {}
        return None;
    }
    if pat.len() == 0 {
        assert(s.take(0) =~= pat@);
        return Some(lo);
    }
    let mut i = lo;
    while i <= hi - pat.len()
        invariant
            lo <= i <= hi - pat.len() + 1,
            0 < pat.len() <= hi - lo,
            hi <= v.len(),
            s == v@.subrange(lo as int, hi as int),
            forall|j: int| 0 <= j < i - lo ==> !occurs_at(s, pat@, j),
        decreases hi - pat.len() + 1 - i,
    {
        let hit = occurs_at_exec(v, pat, i);
        assert(occurs_at(v@, pat@, i as int) == occurs_at(s, pat@, i - lo)) by {
            assert(v@.subrange(i as int, i + pat.len()) =~= s.subrange(i - lo, i - lo + pat.len()));
        }
        if hit {
            proof {
                lemma_find_str(s, pat@);
                match find_str(s, pat@) {
                    Some(k) => {
                        assert(k == i - lo);
                    },
                    None => {},
                }
            }
            return Some(i);
        }
        i = i + 1;
    }
    assert forall|j: int| !occurs_at(s, pat@, j) by {
        if 0 <= j && j + pat.len() <= s.len() {
            assert(j < i - lo);
        }
    }
    proof {
        lemma_find_str(s, pat@);
    }
    None
}

/// ASCII text stays ASCII when cut.
pub proof fn lemma_ascii_subrange(s: Seq<char>, a: int, b: int)
    requires
        is_ascii_seq(s),
        0 <= a <= b <= s.len(),
    ensures
        is_ascii_seq(s.subrange(a, b)),
{
    assert forall|i: int| 0 <= i < s.subrange(a, b).len() implies (#[trigger] s.subrange(a, b)[i] as u32) < 128 by {
        assert(s.subrange(a, b)[i] == s[a + i]);
    }
}

pub proof fn lemma_ascii_trim(s: Seq<char>)
    requires
        is_ascii_seq(s),
    ensures
        is_ascii_seq(trim_start(s)),
        is_ascii_seq(trim_end(s)),
        is_ascii_seq(trim(s)),
    decreases s.len(),
{
    if s.len() > 0 {
        lemma_ascii_subrange(s, 1, s.len() as int);
        lemma_ascii_subrange(s, 0, s.len() - 1);
        assert(s.drop_first() =~= s.subrange(1, s.len() as int));
        assert(s.drop_last() =~= s.subrange(0, s.len() - 1));
        lemma_ascii_trim(s.drop_first());
        lemma_ascii_trim(s.drop_last());
    }
    lemma_ascii_trim_end(trim_start(s));
}

proof fn lemma_ascii_trim_end(s: Seq<char>)
    requires
        is_ascii_seq(s),
    ensures
        is_ascii_seq(trim_end(s)),
    decreases s.len(),
{
    if s.len() > 0 {
        lemma_ascii_subrange(s, 0, s.len() - 1);
        assert(s.drop_last() =~= s.subrange(0, s.len() - 1));
        lemma_ascii_trim_end(s.drop_last());
    }
}

/// The lines of ASCII text are ASCII.
pub proof fn lemma_ascii_lines(s: Seq<char>)
    requires
        is_ascii_seq(s),
    ensures
        forall|i: int| 0 <= i < lines(s).len() ==> is_ascii_seq(#[trigger] lines(s)[i]),
    decreases s.len(),
{
    if s.len() > 0 {
        match find_char(s, '\n') {
            Some(k) => {
                if 0 <= k < s.len() {
                    lemma_ascii_subrange(s, 0, k);
                    lemma_ascii_subrange(s, k + 1, s.len() as int);
                    assert(s.take(k) =~= s.subrange(0, k));
                    assert(s.skip(k + 1) =~= s.subrange(k + 1, s.len() as int));
                    let t = s.take(k);
                    if t.len() > 0 {
                        lemma_ascii_subrange(t, 0, t.len() - 1);
                        assert(t.drop_last() =~= t.subrange(0, t.len() - 1));
                    }
                    lemma_ascii_lines(s.skip(k + 1));
                    let first = seq![strip_cr(t)];
                    let rest = lines(s.skip(k + 1));
                    assert forall|i: int| 0 <= i < lines(s).len() implies is_ascii_seq(#[trigger] lines(s)[i]) by {
                        if i == 0 {
                            assert(lines(s)[i] == strip_cr(t));
                        } else {
                            assert(lines(s)[i] == rest[i - 1]);
                        }
                    }
                }
            },
            None => {},
        }
    }
}

/// Lower-casing ASCII text gives ASCII text that lower-casing leaves as it is.
pub proof fn lemma_ascii_lowercase_fixed(s: Seq<char>)
    requires
        is_ascii_seq(s),
    ensures
        is_ascii_seq(spec_lowercase(s)),
        spec_lowercase(spec_lowercase(s)) == spec_lowercase(s),
{
    let l = ascii_lowercase(s);
    assert forall|i: int| 0 <= i < l.len() implies (#[trigger] l[i] as u32) < 128 && !('A' <= l[i] <= 'Z') by {
        assert(l[i] == ascii_lower_char(s[i]));
        assert((s[i] as u32) < 128);
    }
    assert(ascii_lowercase(l) =~= l);
}

} // verus!
