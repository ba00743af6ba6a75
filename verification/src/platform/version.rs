//! Windows version detection from the values of
//! `HKLM\SOFTWARE\Microsoft\Windows NT\CurrentVersion`.

use vstd::prelude::*;
use crate::text::{chars_of, split, find_char, find_char_in, lemma_find_char};

verus! {

broadcast use vstd::string::group_string_axioms;

/// The Windows version.
#[derive(Debug, Clone)]
pub struct WindowsVersionInfo {
    pub major: u32,
    pub minor: u32,
    pub build: u32,
    pub friendly_name: String,
}

/// The registry values the version is read from; `None` where a value is
/// missing or of another type.
pub struct VersionValues {
    /// `CurrentMajorVersionNumber` (DWORD).
    pub major_number: Option<u32>,
    /// `CurrentMinorVersionNumber` (DWORD).
    pub minor_number: Option<u32>,
    /// `CurrentVersion` (string such as `6.1`).
    pub current_version: Option<String>,
    /// `CurrentBuildNumber` read as a DWORD.
    pub build_number: Option<u32>,
    /// `CurrentBuildNumber` read as a string.
    pub build_string: Option<String>,
    /// `ProductName`.
    pub product_name: Option<String>,
}

pub open spec fn is_digit(c: char) -> bool {
    '0' <= c <= '9'
}

pub open spec fn all_digits(d: Seq<char>) -> bool {
    forall|j: int| 0 <= j < d.len() ==> is_digit(#[trigger] d[j])
}

/// Decimal value of a string of digits.
pub open spec fn digits_value(d: Seq<char>) -> int
    decreases d.len(),
{
    if d.len() == 0 {
        0
    } else {
        digits_value(d.drop_last()) * 10 + (d.last() as int - '0' as int)
    }
}

/// `str::parse::<u32>`: an optional `+`, then one or more decimal digits whose
/// value fits in 32 bits.
pub open spec fn spec_parse_u32(s: Seq<char>) -> Option<u32> {
    let d = if s.len() > 0 && s[0] == '+' {
        s.drop_first()
    } else {
        s
    };
    if d.len() == 0 || !all_digits(d) || digits_value(d) > u32::MAX {
        None
    } else {
        Some(digits_value(d) as u32)
    }
}

proof fn lemma_digits_nonneg(d: Seq<char>)
    requires
        all_digits(d),
    ensures
        digits_value(d) >= 0,
    decreases d.len(),
{
    if d.len() > 0 {
        lemma_digits_nonneg(d.drop_last());
        assert(is_digit(d[d.len() - 1]));
    }
}

proof fn lemma_digits_mono(d: Seq<char>, k: int)
    requires
        all_digits(d),
        0 <= k <= d.len(),
    ensures
        digits_value(d.take(k)) <= digits_value(d),
    decreases d.len(),
{
    if k < d.len() {
        let e = d.drop_last();
        assert(e.take(k) =~= d.take(k));
        lemma_digits_mono(e, k);
        lemma_digits_nonneg(e);
        assert(is_digit(d[d.len() - 1]));
    } else {
        assert(d.take(k) =~= d);
    }
}

/// Parses `v[lo..hi]` as a `u32` (see `spec_parse_u32`).
pub fn parse_u32_range(v: &Vec<char>, lo: usize, hi: usize) -> (r: Option<u32>)
    requires
        lo <= hi <= v.len(),
    ensures
        r == spec_parse_u32(v@.subrange(lo as int, hi as int)),
{
    let ghost s = v@.subrange(lo as int, hi as int);
    let mut a = lo;
    if a < hi && v[a] == '+' {
        a = a + 1;
    }
    let ghost d = v@.subrange(a as int, hi as int);
    assert(d == if s.len() > 0 && s[0] == '+' { s.drop_first() } else { s });
    if a == hi {
        return None;
    }
    let mut value: u64 = 0;
    let mut i = a;
    while i < hi
        invariant
            lo <= a <= i <= hi <= v.len(),
            a < hi,
            d == v@.subrange(a as int, hi as int),
            s == v@.subrange(lo as int, hi as int),
            d == (if s.len() > 0 && s[0] == '+' { s.drop_first() } else { s }),
            value <= u32::MAX,
            value == digits_value(v@.subrange(a as int, i as int)),
            all_digits(v@.subrange(a as int, i as int)),
        decreases hi - i,
    {
        let c = v[i];
        if c < '0' || c > '9' {
            assert(d[i - a] == c);
            assert(!is_digit(d[i - a]));
            return None;
        }
        let ghost pre = v@.subrange(a as int, i + 1);
        assert(pre.drop_last() =~= v@.subrange(a as int, i as int));
        value = value * 10 + ((c as u32) - ('0' as u32)) as u64;
        assert(all_digits(pre));
        if value > 0xFFFF_FFFF {
            proof {
                if all_digits(d) {
                    assert(d.take(i + 1 - a) =~= pre);
                    lemma_digits_mono(d, i + 1 - a);
                }
            }
            return None;
        }
        i = i + 1;
    }
    assert(v@.subrange(a as int, hi as int) =~= d);
    Some(value as u32)
}

/// `s.split('.').nth(n)` parsed as a `u32`.
pub open spec fn version_component(s: Seq<char>, n: int) -> Option<u32> {
    let parts = split(s, '.');
    if n < parts.len() {
        spec_parse_u32(parts[n])
    } else {
        None
    }
}

pub open spec fn opt_str(o: Option<String>) -> Option<Seq<char>> {
    match o {
        Some(s) => Some(s@),
        None => None,
    }
}

pub open spec fn first_some(a: Option<u32>, b: Option<u32>) -> u32 {
    match a {
        Some(x) => x,
        None => match b {
            Some(y) => y,
            None => 0,
        },
    }
}

pub open spec fn component_of(o: Option<Seq<char>>, n: int) -> Option<u32> {
    match o {
        Some(s) => version_component(s, n),
        None => None,
    }
}

pub struct SpecVersion {
    pub major: u32,
    pub minor: u32,
    pub build: u32,
    pub friendly_name: Seq<char>,
}

impl View for WindowsVersionInfo {
    type V = SpecVersion;

    open spec fn view(&self) -> SpecVersion {
        SpecVersion {
            major: self.major,
            minor: self.minor,
            build: self.build,
            friendly_name: self.friendly_name@,
        }
    }
}

/// The version the registry values describe: each number from its DWORD
/// value, else from the string value, else 0; Windows 11 is recognised by a
/// build number of 22000 or more.
pub open spec fn spec_info(v: VersionValues) -> SpecVersion {
    let build = first_some(
        v.build_number,
        match opt_str(v.build_string) {
            Some(s) => spec_parse_u32(s),
            None => None,
        },
    );
    SpecVersion {
        major: first_some(v.major_number, component_of(opt_str(v.current_version), 0)),
        minor: first_some(v.minor_number, component_of(opt_str(v.current_version), 1)),
        build,
        friendly_name: if build >= 22000 {
            "Windows 11"@
        } else {
            match opt_str(v.product_name) {
                Some(p) => p,
                None => "Windows"@,
            }
        },
    }
}

fn component_exec(s: &Option<String>, n: usize) -> (r: Option<u32>)
    requires
        n <= 1,
    ensures
        r == component_of(opt_str(*s), n as int),
{
    match s {
        None => None,
        Some(text) => {
            let v = chars_of(text.as_str());
            let len = v.len();
            assert(v@.subrange(0, len as int) =~= v@);
            let parts = crate::text::split_ranges(&v, 0, len, '.');
            if n < parts.len() {
                parse_u32_range(&v, parts[n].0, parts[n].1)
            } else {
                None
            }
        },
    }
}

/// Reads the version from the registry values (see `spec_info`).
pub fn info(v: &VersionValues) -> (r: WindowsVersionInfo)
    ensures
        r@ == spec_info(*v),
{
    let major = match v.major_number {
        Some(x) => x,
        None => match component_exec(&v.current_version, 0) {
            Some(y) => y,
            None => 0,
        },
    };
    let minor = match v.minor_number {
        Some(x) => x,
        None => match component_exec(&v.current_version, 1) {
            Some(y) => y,
            None => 0,
        },
    };
    let build = match v.build_number {
        Some(x) => x,
        None => match &v.build_string {
            Some(s) => {
                let c = chars_of(s.as_str());
                let len = c.len();
                assert(c@.subrange(0, len as int) =~= c@);
                match parse_u32_range(&c, 0, len) {
                    Some(y) => y,
                    None => 0,
                }
            },
            None => 0,
        },
    };
    let friendly_name = if build >= 22000 {
        "Windows 11".to_owned()
    } else {
        match &v.product_name {
            Some(p) => p.clone(),
            None => "Windows".to_owned(),
        }
    };
    WindowsVersionInfo { major, minor, build, friendly_name }
}

pub open spec fn spec_is_at_least(v: SpecVersion, major: u32, minor: u32) -> bool {
    v.major > major || (v.major == major && v.minor >= minor)
}

/// The version is `major.minor` or later.
pub fn is_at_least(v: &WindowsVersionInfo, major: u32, minor: u32) -> (r: bool)
    ensures
        r == spec_is_at_least(v@, major, minor),
{
    v.major > major || (v.major == major && v.minor >= minor)
}

/// Windows Vista (6.0).
pub fn is_vista(v: &WindowsVersionInfo) -> (r: bool)
    ensures
        r == (v.major == 6 && v.minor == 0),
{
    v.major == 6 && v.minor == 0
}

pub fn is_at_least_vista(v: &WindowsVersionInfo) -> (r: bool)
    ensures
        r == spec_is_at_least(v@, 6, 0),
{
    is_at_least(v, 6, 0)
}

/// Windows 7 (6.1).
pub fn is_7(v: &WindowsVersionInfo) -> (r: bool)
    ensures
        r == (v.major == 6 && v.minor == 1),
{
    v.major == 6 && v.minor == 1
}

pub fn is_at_least_7(v: &WindowsVersionInfo) -> (r: bool)
    ensures
        r == spec_is_at_least(v@, 6, 1),
{
    is_at_least(v, 6, 1)
}

pub fn is_at_least_8(v: &WindowsVersionInfo) -> (r: bool)
    ensures
        r == spec_is_at_least(v@, 6, 2),
{
    is_at_least(v, 6, 2)
}

pub fn is_at_least_10(v: &WindowsVersionInfo) -> (r: bool)
    ensures
        r == spec_is_at_least(v@, 10, 0),
{
    is_at_least(v, 10, 0)
}

/// Windows 11: build 22000 or later.
pub fn is_11(v: &WindowsVersionInfo) -> (r: bool)
    ensures
        r == (v.build >= 22000),
{
    v.build >= 22000
}

} // verus!
