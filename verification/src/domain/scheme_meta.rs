//! Sound scheme metadata: name, author, description and a 100x100 PNG
//! thumbnail, stored as `Scheme.ini` and `Scheme.png` in the media folder.

use vstd::prelude::*;
use vstd::string::StringExecFns;
use vstd::string::StrSliceExecFns;
use md5::Digest;
use crate::paths::{join_path, join_path_exec};
use crate::errors::{CoreError, CoreResult};
use crate::encoding::{base64_encode, base64_encoded, base64_decode, base64_decoded, from_utf8};
use vstd::utf8::{valid_utf8, decode_utf8};
use crate::text::{
    chars_of, string_of, trim, trim_bounds, trim_char, trim_char_bounds, find_char, find_char_in,
    lines, line_ranges, split, split_ranges, spec_lowercase, lowercase, str_eq, join_crlf,
    no_newline, lemma_lines_join_crlf, lemma_find_char, lemma_find_char_is, lemma_find_char_none,
    lemma_trim_noop, lemma_trim_start_len, lemma_trim_end_len, is_ws, trim_start, is_ascii_seq,
    ascii_lowercase, strip_all_start, strip_all_end,
};

verus! {

broadcast use vstd::string::group_string_axioms;

/// Scheme metadata.
#[derive(Debug, Clone)]
pub struct SchemeMeta {
    pub name: String,
    pub author: String,
    pub about: String,
    /// Base64-encoded 100x100 PNG thumbnail; empty when there is no image.
    pub thumbnail_base64: String,
}

pub struct SpecSchemeMeta {
    pub name: Seq<char>,
    pub author: Seq<char>,
    pub about: Seq<char>,
    pub thumbnail_base64: Seq<char>,
}

impl View for SchemeMeta {
    type V = SpecSchemeMeta;

    open spec fn view(&self) -> SpecSchemeMeta {
        SpecSchemeMeta {
            name: self.name@,
            author: self.author@,
            about: self.about@,
            thumbnail_base64: self.thumbnail_base64@,
        }
    }
}

pub open spec fn empty_meta() -> SpecSchemeMeta {
    SpecSchemeMeta { name: seq![], author: seq![], about: seq![], thumbnail_base64: seq![] }
}

impl Default for SchemeMeta {
    fn default() -> (r: Self)
        ensures
            r@ == empty_meta(),
    {
        SchemeMeta {
            name: String::new(),
            author: String::new(),
            about: String::new(),
            thumbnail_base64: String::new(),
        }
    }
}

/// Name of the thumbnail file in the media folder.
pub open spec fn scheme_image_file() -> Seq<char> {
    "Scheme.png"@
}

/// Name of the metadata file in the media folder.
pub open spec fn scheme_info_file() -> Seq<char> {
    "Scheme.ini"@
}

/// Path of `Scheme.png` in `media_dir`.
pub fn scheme_image_path(media_dir: &str) -> (r: String)
    ensures
        r@ == join_path(media_dir@, scheme_image_file()),
{
    join_path_exec(media_dir, "Scheme.png")
}

/// Path of `Scheme.ini` in `media_dir`.
pub fn scheme_info_path(media_dir: &str) -> (r: String)
    ensures
        r@ == join_path(media_dir@, scheme_info_file()),
{
    join_path_exec(media_dir, "Scheme.ini")
}

/// The media folder `%APPDATA%\SoundManager\Media`, given the value of `APPDATA`.
pub fn media_dir(appdata: Option<&str>) -> (r: String)
    ensures
        r@ == crate::domain::sound_event::spec_media_dir(match appdata {
            Some(a) => Some(a@),
            None => None,
        }),
{
    crate::domain::sound_event::default_media_dir(appdata)
}

/// All sound events (see `event_table`).
pub fn all_events() -> (r: Vec<crate::domain::sound_event::SoundEvent>)
    ensures
        crate::domain::sound_event::events_view(r@) == crate::domain::sound_event::event_table(),
{
    crate::domain::sound_event::all_events()
}

// ------------------------------------------------------------------ Scheme.ini

/// The text of a `Scheme.ini` file.
pub open spec fn spec_scheme_info_text(name: Seq<char>, author: Seq<char>, about: Seq<char>) -> Seq<char> {
    join_crlf(seq!["[SchemeInfo]"@, "name="@ + name, "author="@ + author, "about="@ + about])
}

/// `Scheme.ini` content: an `[SchemeInfo]` section with `name`, `author` and
/// `about`, CRLF line endings, encoded as UTF-8.
pub fn serialize_scheme_info(name: &str, author: &str, about: &str) -> (r: Vec<u8>)
    ensures
        r@ == vstd::utf8::encode_utf8(spec_scheme_info_text(name@, author@, about@)),
{
    let mut t = "[SchemeInfo]\r\nname=".to_owned();
    t.append(name);
    t.append("\r\nauthor=");
    t.append(author);
    t.append("\r\nabout=");
    t.append(about);
    t.append("\r\n");
    proof {
        reveal_strlit("[SchemeInfo]\r\nname=");
        reveal_strlit("\r\nauthor=");
        reveal_strlit("\r\nabout=");
        reveal_strlit("\r\n");
        reveal_strlit("[SchemeInfo]");
        reveal_strlit("name=");
        reveal_strlit("author=");
        reveal_strlit("about=");
        let ls = seq!["[SchemeInfo]"@, "name="@ + name@, "author="@ + author@, "about="@ + about@];
        let e = Seq::<Seq<char>>::empty();
        let a = "[SchemeInfo]"@;
        let b = "name="@ + name@;
        let c = "author="@ + author@;
        let d = "about="@ + about@;
        crate::text::lemma_join_crlf_push(e, a);
        crate::text::lemma_join_crlf_push(e.push(a), b);
        crate::text::lemma_join_crlf_push(e.push(a).push(b), c);
        crate::text::lemma_join_crlf_push(e.push(a).push(b).push(c), d);
        assert(e.push(a).push(b).push(c).push(d) =~= ls);
        assert(join_crlf(e) =~= Seq::<char>::empty());
        assert(t@ =~= spec_scheme_info_text(name@, author@, about@));
    }
    t.as_str().as_bytes_vec()
}

} // verus!

verus! {

/// The lines `parse_scheme_info` reads: the trimmed lines of `text`, or, when
/// there is exactly one line and it holds a `;`, its `;`-separated pieces
/// (legacy single-line format).
pub open spec fn meta_lines(text: Seq<char>) -> Seq<Seq<char>> {
    let ls = lines(text).map_values(|l: Seq<char>| trim(l));
    if ls.len() == 1 && find_char(ls[0], ';') is Some {
        split(ls[0], ';')
    } else {
        ls
    }
}

/// `trim(trim_char(trim(s), '"'))`: a field or value with its quotes removed.
pub open spec fn unquote(s: Seq<char>) -> Seq<char> {
    trim(trim_char(trim(s), '"'))
}

/// What one line of `Scheme.ini` does to the metadata: a `field=value` line
/// with a non-empty right side sets the field named `name`/`nom`,
/// `author`/`auteur` or `about`/`commentaire` (any case, quotes removed).
pub open spec fn meta_step(m: SpecSchemeMeta, raw: Seq<char>) -> SpecSchemeMeta {
    let line = trim(raw);
    match find_char(line, '=') {
        None => m,
        Some(eq) => if line.len() <= eq + 1 {
            m
        } else {
            let field = spec_lowercase(unquote(line.take(eq)));
            let value = unquote(line.skip(eq + 1));
            if field == "name"@ || field == "nom"@ {
                SpecSchemeMeta { name: value, ..m }
            } else if field == "author"@ || field == "auteur"@ {
                SpecSchemeMeta { author: value, ..m }
            } else if field == "about"@ || field == "commentaire"@ {
                SpecSchemeMeta { about: value, ..m }
            } else {
                m
            }
        },
    }
}

pub open spec fn meta_step_fn() -> spec_fn(SpecSchemeMeta, Seq<char>) -> SpecSchemeMeta {
    |m: SpecSchemeMeta, l: Seq<char>| meta_step(m, l)
}

pub open spec fn spec_parse_scheme_info(text: Seq<char>) -> SpecSchemeMeta {
    meta_lines(text).fold_left(empty_meta(), meta_step_fn())
}

fn unquote_bounds(v: &Vec<char>, lo: usize, hi: usize) -> (r: (usize, usize))
    requires
        lo <= hi <= v.len(),
    ensures
        lo <= r.0 <= r.1 <= hi,
        v@.subrange(r.0 as int, r.1 as int) == unquote(v@.subrange(lo as int, hi as int)),
{
    let (a, b) = trim_bounds(v, lo, hi);
    let (c, d) = trim_char_bounds(v, a, b, '"');
    trim_bounds(v, c, d)
}

/// Reads `Scheme.ini` content (see `spec_parse_scheme_info`). Tolerates the
/// legacy single-line `name=...;author=...;about=...` form and the French
/// field names of legacy `infos.ini` files.
pub fn parse_scheme_info(text: &str) -> (r: SchemeMeta)
    ensures
        r@ == spec_parse_scheme_info(text@),
{
    let v = chars_of(text);
    let lr = line_ranges(&v);
    let ghost tls = lines(v@).map_values(|l: Seq<char>| trim(l));
    let mut ranges: Vec<(usize, usize)> = Vec::new();
    let mut k: usize = 0;
    while k < lr.len()
        invariant
            v@ == text@,
            tls == lines(v@).map_values(|l: Seq<char>| trim(l)),
            lr@.len() == lines(v@).len(),
            forall|j: int|
                0 <= j < lr@.len() ==> {
                    &&& (#[trigger] lr@[j]).0 <= lr@[j].1 <= v.len()
                    &&& v@.subrange(lr@[j].0 as int, lr@[j].1 as int) == lines(v@)[j]
                },
            k <= lr.len(),
            ranges@.len() == k,
            forall|j: int|
                0 <= j < k ==> {
                    &&& (#[trigger] ranges@[j]).0 <= ranges@[j].1 <= v.len()
                    &&& v@.subrange(ranges@[j].0 as int, ranges@[j].1 as int) == tls[j]
                },
        decreases lr.len() - k,
    {
        let (a, b) = trim_bounds(&v, lr[k].0, lr[k].1);
        ranges.push((a, b));
        k = k + 1;
    }
    let ghost ml = meta_lines(text@);
    if ranges.len() == 1 {
        let semi = find_char_in(&v, ranges[0].0, ranges[0].1, ';');
        if semi.is_some() {
            ranges = split_ranges(&v, ranges[0].0, ranges[0].1, ';');
        }
    }
    assert(ranges@.len() == ml.len());
    assert(forall|j: int|
        0 <= j < ranges@.len() ==> (#[trigger] ranges@[j]).0 <= ranges@[j].1 <= v.len()
            && v@.subrange(ranges@[j].0 as int, ranges@[j].1 as int) == ml[j]);
    let mut m = SchemeMeta::default();
    let ghost f = meta_step_fn();
    let mut i: usize = 0;
    assert(ml.take(0).fold_left(empty_meta(), f) == empty_meta());
    while i < ranges.len()
        invariant
            v@ == text@,
            ml == meta_lines(text@),
            f == meta_step_fn(),
            ranges@.len() == ml.len(),
            forall|j: int|
                0 <= j < ranges@.len() ==> (#[trigger] ranges@[j]).0 <= ranges@[j].1 <= v.len()
                    && v@.subrange(ranges@[j].0 as int, ranges@[j].1 as int) == ml[j],
            i <= ranges.len(),
            m@ == ml.take(i as int).fold_left(empty_meta(), f),
        decreases ranges.len() - i,
    {
        let ghost prev = m@;
        let ghost raw = ml[i as int];
        let (a, b) = trim_bounds(&v, ranges[i].0, ranges[i].1);
        let ghost line = v@.subrange(a as int, b as int);
        assert(line == trim(raw));
        match find_char_in(&v, a, b, '=') {
            None => {},
            Some(eq) => {
                if b > eq + 1 {
                    let (fa, fb) = unquote_bounds(&v, a, eq);
                    let field_raw = string_of(&v, fa, fb);
                    let field = lowercase(field_raw.as_str());
                    let (va, vb) = unquote_bounds(&v, eq + 1, b);
                    let value = string_of(&v, va, vb);
                    assert(line.take(eq - a) =~= v@.subrange(a as int, eq as int));
                    assert(line.skip(eq - a + 1) =~= v@.subrange(eq + 1, b as int));
                    let f = field.as_str();
                    if str_eq(f, "name") || str_eq(f, "nom") {
                        m.name = value;
                    } else if str_eq(f, "author") || str_eq(f, "auteur") {
                        m.author = value;
                    } else if str_eq(f, "about") || str_eq(f, "commentaire") {
                        m.about = value;
                    }
                }
            },
        }
        assert(m@ == meta_step(prev, raw));
        assert(ml.take(i + 1).drop_last() =~= ml.take(i as int));
        i = i + 1;
    }
    assert(ml.take(ml.len() as int) =~= ml);
    m
}

} // verus!

verus! {

use crate::domain::sound_event::{is_letter, all_letters};

/// A metadata value that `Scheme.ini` carries unchanged: one line, trimmed,
/// not starting or ending with a double quote.
pub open spec fn meta_value_ok(x: Seq<char>) -> bool {
    &&& no_newline(x)
    &&& trim(x) == x
    &&& (x.len() == 0 || (x[0] != '"' && x.last() != '"'))
}

proof fn lemma_trim_ends(x: Seq<char>)
    requires
        trim(x) == x,
        x.len() > 0,
    ensures
        !is_ws(x[0]),
        !is_ws(x.last()),
{
    lemma_trim_start_len(x);
    lemma_trim_end_len(trim_start(x));
    assert(trim_start(x) == x);
    lemma_trim_end_len(x);
}

proof fn lemma_trim_char_noop(s: Seq<char>, c: char)
    requires
        s.len() == 0 || (s[0] != c && s.last() != c),
    ensures
        trim_char(s, c) == s,
{
    assert(strip_all_start(s, c) == s);
}

/// `key=x` sets the field `key` to `x`, or leaves the metadata alone when `x`
/// is empty.
proof fn lemma_meta_line(m: SpecSchemeMeta, key: Seq<char>, x: Seq<char>)
    requires
        key.len() > 0,
        all_letters(key),
        ascii_lowercase(key) == key,
        meta_value_ok(x),
    ensures
        ({
            let line = key + seq!['='] + x;
            let r = meta_step(m, line);
            if x.len() == 0 {
                r == m
            } else {
                let field = key;
                if field == "name"@ || field == "nom"@ {
                    r == SpecSchemeMeta { name: x, ..m }
                } else if field == "author"@ || field == "auteur"@ {
                    r == SpecSchemeMeta { author: x, ..m }
                } else if field == "about"@ || field == "commentaire"@ {
                    r == SpecSchemeMeta { about: x, ..m }
                } else {
                    r == m
                }
            }
        }),
{
    let line = key + seq!['='] + x;
    assert(is_letter(key[0]));
    assert(line[0] == key[0]);
    if x.len() > 0 {
        lemma_trim_ends(x);
        assert(line.last() == x.last());
    }
    lemma_trim_noop(line);
    assert forall|j: int| 0 <= j < key.len() implies line[j] != '=' by {
        assert(line[j] == key[j]);
        assert(is_letter(key[j]));
    }
    lemma_find_char_is(line, '=', key.len() as int);
    assert(line.take(key.len() as int) =~= key);
    assert(line.skip(key.len() as int + 1) =~= x);
    assert(is_letter(key.last()));
    lemma_trim_noop(key);
    lemma_trim_char_noop(key, '"');
    lemma_trim_char_noop(x, '"');
    assert forall|i: int| 0 <= i < key.len() implies (#[trigger] key[i] as u32) < 128 by {
        assert(is_letter(key[i]));
    }
    assert(is_ascii_seq(key));
}

proof fn lemma_meta_keys()
    ensures
        "name"@.len() > 0 && all_letters("name"@) && ascii_lowercase("name"@) == "name"@,
        "author"@.len() > 0 && all_letters("author"@) && ascii_lowercase("author"@) == "author"@,
        "about"@.len() > 0 && all_letters("about"@) && ascii_lowercase("about"@) == "about"@,
        "author"@ != "name"@ && "author"@ != "nom"@,
        "about"@ != "name"@ && "about"@ != "nom"@ && "about"@ != "author"@ && "about"@ != "auteur"@,
        "name="@ == "name"@ + seq!['='],
        "author="@ == "author"@ + seq!['='],
        "about="@ == "about"@ + seq!['='],
{
    reveal_strlit("name");
    reveal_strlit("nom");
    reveal_strlit("author");
    reveal_strlit("auteur");
    reveal_strlit("about");
    reveal_strlit("name=");
    reveal_strlit("author=");
    reveal_strlit("about=");
    assert(ascii_lowercase("name"@) =~= "name"@);
    assert(ascii_lowercase("author"@) =~= "author"@);
    assert(ascii_lowercase("about"@) =~= "about"@);
    assert("name="@ =~= "name"@ + seq!['=']);
    assert("author="@ =~= "author"@ + seq!['=']);
    assert("about="@ =~= "about"@ + seq!['=']);
    assert("author"@[3] != "auteur"@[3]);
}

/// Metadata written to `Scheme.ini` reads back unchanged (the thumbnail is not
/// part of the file), for every value the format carries: one line, trimmed,
/// not quoted at either end. An empty value reads back empty as well.
pub proof fn law_scheme_info_roundtrip(name: Seq<char>, author: Seq<char>, about: Seq<char>)
    requires
        meta_value_ok(name),
        meta_value_ok(author),
        meta_value_ok(about),
    ensures
        spec_parse_scheme_info(spec_scheme_info_text(name, author, about)) == (SpecSchemeMeta {
            name,
            author,
            about,
            thumbnail_base64: seq![],
        }),
{
    let ls = seq!["[SchemeInfo]"@, "name="@ + name, "author="@ + author, "about="@ + about];
    reveal_strlit("[SchemeInfo]");
    lemma_meta_keys();
    crate::text::lemma_concat_no_newline("name="@, name);
    crate::text::lemma_concat_no_newline("author="@, author);
    crate::text::lemma_concat_no_newline("about="@, about);
    assert forall|i: int| 0 <= i < ls.len() implies no_newline(#[trigger] ls[i]) by {}
    lemma_lines_join_crlf(ls);
    // each line is already trimmed
    let sch = "[SchemeInfo]"@;
    lemma_trim_noop(sch);
    assert forall|i: int| 0 <= i < ls.len() implies trim(#[trigger] ls[i]) == ls[i] by {
        if i > 0 {
            let (k, x) = if i == 1 { ("name"@, name) } else if i == 2 { ("author"@, author) } else { ("about"@, about) };
            assert(ls[i] == k + seq!['='] + x);
            assert(is_letter(k[0]));
            if x.len() > 0 {
                lemma_trim_ends(x);
                assert(ls[i].last() == x.last());
            }
            lemma_trim_noop(ls[i]);
        }
    }
    let tls = lines(spec_scheme_info_text(name, author, about)).map_values(|l: Seq<char>| trim(l));
    assert(tls =~= ls);
    assert(meta_lines(spec_scheme_info_text(name, author, about)) == ls);
    // fold over the four lines
    let f = meta_step_fn();
    let m0 = empty_meta();
    lemma_find_char_none(sch, '=');
    assert(meta_step(m0, sch) == m0);
    assert(ls.take(1).drop_last() =~= ls.take(0));
    assert(ls.take(0) =~= Seq::<Seq<char>>::empty());
    assert(ls.take(1).last() == sch);
    assert(ls.take(0).fold_left(m0, f) == m0);
    assert(f(m0, sch) == meta_step(m0, sch));
    assert(ls.take(1).fold_left(m0, f) == f(ls.take(0).fold_left(m0, f), sch));
    assert(ls.take(1).fold_left(m0, f) == m0);
    if name.len() == 0 {
        assert(name =~= Seq::<char>::empty());
    }
    if author.len() == 0 {
        assert(author =~= Seq::<char>::empty());
    }
    if about.len() == 0 {
        assert(about =~= Seq::<char>::empty());
    }
    lemma_meta_line(m0, "name"@, name);
    let m1 = SpecSchemeMeta { name, ..m0 };
    assert(meta_step(m0, ls[1]) == m1);
    assert(ls.take(2).drop_last() =~= ls.take(1));
    lemma_meta_line(m1, "author"@, author);
    let m2 = SpecSchemeMeta { author, ..m1 };
    assert(meta_step(m1, ls[2]) == m2);
    assert(ls.take(3).drop_last() =~= ls.take(2));
    lemma_meta_line(m2, "about"@, about);
    let m3 = SpecSchemeMeta { about, ..m2 };
    assert(meta_step(m2, ls[3]) == m3);
    assert(ls.take(4).drop_last() =~= ls.take(3));
    assert(ls.take(4) =~= ls);
}

} // verus!

verus! {

use crate::domain::sound_event::{SoundEvent, EventType, event_by_type, event_table, type_index};
use crate::domain::translation::{translate, spec_get_in, file_table, file_entries, opt_str_view};

impl SchemeMeta {
    /// Metadata reset to the defaults of the current language (the text of
    /// whose file is given when it could be read): translated default name,
    /// author and description, no thumbnail. Saving it is left to the caller;
    /// `save` then gives no `Scheme.png`, so an old thumbnail is removed (see
    /// `law_save_without_thumbnail_then_load`).
    pub fn reset_all(file_text: Option<&str>) -> (r: SchemeMeta)
        ensures
            ({
                let f = file_table(opt_str_view(file_text));
                r@ == SpecSchemeMeta {
                    name: spec_get_in(f, "default_scheme_name"@),
                    author: spec_get_in(f, "default_scheme_author"@),
                    about: spec_get_in(f, "default_scheme_about"@),
                    thumbnail_base64: seq![],
                }
            }),
    {
        let entries = file_entries(file_text);
        let t = match &entries {
            Some(e) => Some(e),
            None => None,
        };
        SchemeMeta {
            name: translate(t, "default_scheme_name"),
            author: translate(t, "default_scheme_author"),
            about: translate(t, "default_scheme_about"),
            thumbnail_base64: String::new(),
        }
    }
}

/// What the MD5 digest of `bytes` is.
pub uninterp spec fn spec_md5(bytes: Seq<u8>) -> Seq<u8>;

/// Calls `md5::Md5::digest` (RustCrypto `md-5`): the 16-byte MD5 digest of
/// `bytes`, named `spec_md5`; nothing else about it is stated.
#[verifier::external_body]
fn md5_digest(bytes: &[u8]) -> (r: Vec<u8>)
    ensures
        r@ == spec_md5(bytes@),
{
    md5::Md5::digest(bytes).to_vec()
}

/// MD5 digest of the stock Windows Vista/7 `Startup.wav`.
pub open spec fn stock_startup_md5() -> Seq<u8> {
    seq![0x15u8, 0x5f, 0x2a, 0x0f, 0x88, 0x65, 0x70, 0x15, 0x74, 0x16, 0xea, 0x85, 0xf4, 0xb4, 0xc6, 0x13]
}

/// The event played when a scheme is loaded, given whether `LoadScheme.wav`
/// and `Startup.wav` exist in the media folder and, when the latter could be
/// read, its MD5 digest.
pub open spec fn spec_event_on_load(
    load_scheme_exists: bool,
    startup_exists: bool,
    startup_md5: Option<Seq<u8>>,
) -> EventType {
    if load_scheme_exists {
        EventType::LoadScheme
    } else if !startup_exists {
        EventType::Logon
    } else if startup_md5 == Some(stock_startup_md5()) {
        EventType::Logon
    } else {
        EventType::Startup
    }
}

impl SchemeMeta {
    /// Picks the event to play on scheme load: `LoadScheme`, else `Startup`,
    /// else `Logon`; the stock Vista/7 startup sound (recognised by its MD5
    /// digest) is skipped in favour of `Logon`. `startup_bytes` is the content
    /// of `Startup.wav` when it could be read.
    pub fn event_to_play_on_load(
        load_scheme_exists: bool,
        startup_exists: bool,
        startup_bytes: Option<&Vec<u8>>,
    ) -> (r: SoundEvent)
        ensures
            r@ == event_table()[type_index(
                spec_event_on_load(
                    load_scheme_exists,
                    startup_exists,
                    match startup_bytes {
                        Some(b) => Some(spec_md5(b@)),
                        None => None,
                    },
                ),
            )],
    {
        if load_scheme_exists {
            return event_by_type(EventType::LoadScheme);
        }
        if !startup_exists {
            return event_by_type(EventType::Logon);
        }
        match startup_bytes {
            Some(b) => {
                let d = md5_digest(b.as_slice());
                let stock: [u8; 16] = [0x15, 0x5f, 0x2a, 0x0f, 0x88, 0x65, 0x70, 0x15, 0x74, 0x16, 0xea, 0x85, 0xf4, 0xb4, 0xc6, 0x13];
                let mut same = d.len() == 16;
                let mut i: usize = 0;
                while same && i < 16
                    invariant
                        same ==> d@.len() == 16,
                        i <= 16,
                        same ==> forall|j: int| 0 <= j < i ==> d@[j] == stock_startup_md5()[j],
                        !same ==> d@ != stock_startup_md5(),
                        stock@ == stock_startup_md5(),
                    decreases 16 - i,
                {
                    if d[i] != stock[i] {
                        assert(d@[i as int] != stock_startup_md5()[i as int]);
                        same = false;
                    }
                    i = i + 1;
                }
                proof {
                    if same {
                        assert(d@ =~= stock_startup_md5());
                    }
                }
                if same {
                    return event_by_type(EventType::Logon);
                }
            },
            None => {},
        }
        event_by_type(EventType::Startup)
    }
}

// ------------------------------------------------------------------ files

/// The signature that starts every PNG file.
pub open spec fn png_signature() -> Seq<u8> {
    seq![0x89u8, 0x50, 0x4e, 0x47, 0x0d, 0x0a, 0x1a, 0x0a]
}

pub open spec fn starts_with_png_signature(b: Seq<u8>) -> bool {
    b.len() >= 8 && b.subrange(0, 8) == png_signature()
}

/// The four bytes of `x`, most significant first.
pub open spec fn be32(x: u32) -> Seq<u8> {
    seq![(x / 0x100_0000) as u8, ((x / 0x1_0000) % 256) as u8, ((x / 256) % 256) as u8, (x % 256) as u8]
}

/// How a PNG file of `width` x `height` pixels starts: the signature, then
/// the IHDR chunk's length (13), its type and the width and height.
pub open spec fn png_header(width: u32, height: u32) -> Seq<u8> {
    png_signature() + seq![0u8, 0, 0, 13, 0x49, 0x48, 0x44, 0x52] + be32(width) + be32(height)
}

pub open spec fn starts_with_png_header(b: Seq<u8>, width: u32, height: u32) -> bool {
    b.len() >= 24 && b.subrange(0, 24) == png_header(width, height)
}

/// Whether `image::load_from_memory` decodes `bytes`: a function of the
/// bytes alone (the format is guessed from them, the limits are the
/// crate's defaults).
pub uninterp spec fn image_decodes(bytes: Seq<u8>) -> bool;

/// The resampling filters of `image::imageops::FilterType`.
pub enum ResizeFilter {
    Nearest,
    Triangle,
    CatmullRom,
    Gaussian,
    Lanczos3,
}

/// The side of a thumbnail, in pixels.
pub const THUMBNAIL_SIDE: u32 = 100;

/// Decodes an image in any format the `image` crate reads
/// (`image::load_from_memory`), resizes it to exactly `width` x `height`
/// pixels (`resize_exact` with `filter`) and encodes it as PNG (`write_to`
/// with `ImageFormat::Png`). A decode failure is `Err((true, m))`, an encode
/// failure `Err((false, m))`. The PNG encoder writes the signature and then
/// the IHDR chunk with the size; on a positive size it refuses only colour
/// types of other than 8 or 16 bits per channel, which none of the decoders
/// enabled here (PNG, BMP, JPEG, GIF) gives, so a decoded image is encoded.
/// The pixels are left unsaid: resampling computes in floating point, with
/// the platform's math library.
#[verifier::external_body]
fn render_png(bytes: &[u8], width: u32, height: u32, filter: ResizeFilter) -> (r: Result<Vec<u8>, (bool, String)>)
    requires
        0 < width <= 4096,
        0 < height <= 4096,
    ensures
        r matches Err((decoding, _)) ==> (decoding <==> !image_decodes(bytes@)),
        !image_decodes(bytes@) ==> r is Err,
        image_decodes(bytes@) ==> r is Ok,
        r matches Ok(v) ==> starts_with_png_header(v@, width, height),
{
    let f = match filter {
        ResizeFilter::Nearest => image::imageops::FilterType::Nearest,
        ResizeFilter::Triangle => image::imageops::FilterType::Triangle,
        ResizeFilter::CatmullRom => image::imageops::FilterType::CatmullRom,
        ResizeFilter::Gaussian => image::imageops::FilterType::Gaussian,
        ResizeFilter::Lanczos3 => image::imageops::FilterType::Lanczos3,
    };
    let img = image::load_from_memory(bytes).map_err(|e| (true, e.to_string()))?;
    let mut out = std::io::Cursor::new(Vec::new());
    match img.resize_exact(width, height, f).write_to(&mut out, image::ImageFormat::Png) {
        Ok(()) => Ok(out.into_inner()),
        Err(e) => Err((false, e.to_string())),
    }
}

/// Resizes any image to a 100x100 PNG with the Lanczos3 filter. Bytes that
/// do not decode give the `Archive` error `image decode: <message>`, and
/// only they fail.
pub fn make_thumbnail(bytes: &[u8]) -> (r: CoreResult<Vec<u8>>)
    ensures
        r matches Ok(v) ==> starts_with_png_header(v@, THUMBNAIL_SIDE, THUMBNAIL_SIDE),
        !image_decodes(bytes@) <==> (r matches Err(CoreError::Archive(m))
            && exists|t: Seq<char>| m@ == "image decode: "@ + t),
        image_decodes(bytes@) <==> r is Ok,
{
    match render_png(bytes, THUMBNAIL_SIDE, THUMBNAIL_SIDE, ResizeFilter::Lanczos3) {
        Ok(v) => Ok(v),
        Err((decoding, m)) => {
            let mut s = if decoding { "image decode: ".to_owned() } else { "png encode: ".to_owned() };
            s.append(m.as_str());
            proof {
                reveal_strlit("image decode: ");
                reveal_strlit("png encode: ");
                if decoding {
                    assert(s@ == "image decode: "@ + m@);
                } else {
                    assert(s@ == "png encode: "@ + m@);
                    assert forall|t: Seq<char>| s@ != "image decode: "@ + t by {
                        assert(s@[0] == 'p');
                        assert(("image decode: "@ + t)[0] == 'i');
                    }
                }
            }
            Err(CoreError::Archive(s))
        },
    }
}

/// Metadata read from the media folder: `Scheme.ini` when it exists and is
/// UTF-8 text (else empty fields), and the base64 of `Scheme.png` when it
/// exists (else no thumbnail).
pub open spec fn spec_load(info: Option<Seq<u8>>, image: Option<Seq<u8>>) -> SpecSchemeMeta {
    let base = match info {
        Some(b) => if valid_utf8(b) {
            spec_parse_scheme_info(decode_utf8(b))
        } else {
            empty_meta()
        },
        None => empty_meta(),
    };
    match image {
        Some(i) => SpecSchemeMeta { thumbnail_base64: base64_encoded(i), ..base },
        None => base,
    }
}

pub open spec fn opt_slice(o: Option<&[u8]>) -> Option<Seq<u8>> {
    match o {
        Some(b) => Some(b@),
        None => None,
    }
}

/// The files of a saved scheme: `Scheme.ini`, and `Scheme.png` when there
/// is a thumbnail. Without one (`image` is `None`) the media folder holds no
/// `Scheme.png`: the caller removes an old one, so that loading gives back
/// what was saved.
pub struct SchemeFiles {
    pub info: Vec<u8>,
    pub image: Option<Vec<u8>>,
}

/// Whether `b` is taken as a PNG file as it is: more than 4 bytes, whose
/// first 8 (all of them when fewer) match the PNG signature.
pub open spec fn is_png(b: Seq<u8>) -> bool {
    let n: int = if b.len() < 8 { b.len() as int } else { 8 };
    b.len() > 4 && b.take(n) == png_signature().take(n)
}

/// What saving does with the thumbnail text `t`: none when empty; else its
/// base64 decoding, kept when it is a PNG and resized otherwise.
pub open spec fn saved_thumbnail_ok(t: Seq<char>, image: Option<Seq<u8>>) -> bool {
    if t.len() == 0 {
        image is None
    } else {
        match base64_decoded(t) {
            Ok(b) => if is_png(b) {
                image == Some(b)
            } else {
                image matches Some(p) && starts_with_png_header(p, THUMBNAIL_SIDE, THUMBNAIL_SIDE)
            },
            Err(_) => false,
        }
    }
}

pub open spec fn files_image(f: SchemeFiles) -> Option<Seq<u8>> {
    match f.image {
        Some(p) => Some(p@),
        None => None,
    }
}

/// What saving `m` gives: the `Scheme.ini` bytes and the thumbnail (see
/// `saved_thumbnail_ok`); it fails only for a thumbnail that is bad base64
/// (`Archive` error `bad thumbnail base64: <message>`) or that is neither a
/// PNG nor an image that decodes (the `Archive` error of `make_thumbnail`).
pub open spec fn save_outcome(m: SpecSchemeMeta, r: CoreResult<SchemeFiles>) -> bool {
    &&& r matches Ok(f) ==> f.info@ == vstd::utf8::encode_utf8(spec_scheme_info_text(m.name, m.author, m.about))
        && saved_thumbnail_ok(m.thumbnail_base64, files_image(f))
    &&& m.thumbnail_base64.len() == 0 ==> r is Ok
    &&& (m.thumbnail_base64.len() > 0 && base64_decoded(m.thumbnail_base64) is Ok
        && is_png(base64_decoded(m.thumbnail_base64)->Ok_0)) ==> r is Ok
    &&& r matches Err(e) ==> m.thumbnail_base64.len() > 0 && match base64_decoded(m.thumbnail_base64) {
        Err(x) => e matches CoreError::Archive(y) && y@ == "bad thumbnail base64: "@ + x,
        Ok(b) => !is_png(b) && !image_decodes(b) && e is Archive,
    }
}

impl SchemeMeta {
    /// Reads the metadata from the contents of `Scheme.ini` and `Scheme.png`
    /// when they exist (see `spec_load`).
    pub fn load(info: Option<&[u8]>, image: Option<&[u8]>) -> (r: SchemeMeta)
        ensures
            r@ == spec_load(opt_slice(info), opt_slice(image)),
    {
        let mut meta = match info {
            Some(b) => match from_utf8(b) {
                Some(text) => parse_scheme_info(text.as_str()),
                None => SchemeMeta::default(),
            },
            None => SchemeMeta::default(),
        };
        match image {
            Some(i) => {
                meta.thumbnail_base64 = base64_encode(i);
            },
            None => {},
        }
        meta
    }

    /// The files to write for this metadata: `Scheme.ini` (see
    /// `serialize_scheme_info`) and, when there is a thumbnail, `Scheme.png`:
    /// the decoded thumbnail if it is a PNG, else the thumbnail resized by
    /// `make_thumbnail`. Bad base64 is the `Archive` error
    /// `bad thumbnail base64: <message>`.
    pub fn save(&self) -> (r: CoreResult<SchemeFiles>)
        ensures
            save_outcome(self@, r),
    {
        let info = serialize_scheme_info(self.name.as_str(), self.author.as_str(), self.about.as_str());
        if self.thumbnail_base64.as_str().is_empty() {
            return Ok(SchemeFiles { info, image: None });
        }
        let bytes = match base64_decode(self.thumbnail_base64.as_str()) {
            Ok(b) => b,
            Err(m) => {
                let mut s = "bad thumbnail base64: ".to_owned();
                s.append(m.as_str());
                return Err(CoreError::Archive(s));
            },
        };
        let png = if bytes.len() > 4 && png_prefix(&bytes) {
            bytes
        } else {
            make_thumbnail(bytes.as_slice())?
        };
        Ok(SchemeFiles { info, image: Some(png) })
    }
}

/// Whether the first `min(8, len)` bytes of `b` match the PNG signature.
fn png_prefix(b: &Vec<u8>) -> (r: bool)
    ensures
        ({
            let n: int = if b.len() < 8 { b.len() as int } else { 8 };
            r == (b@.take(n) == png_signature().take(n))
        }),
{
    let sig: [u8; 8] = [0x89, 0x50, 0x4e, 0x47, 0x0d, 0x0a, 0x1a, 0x0a];
    let n: usize = if b.len() < 8 { b.len() } else { 8 };
    assert(sig@ == png_signature());
    let mut i: usize = 0;
    while i < n
        invariant
            sig@ == png_signature(),
            n <= b.len(),
            n <= 8,
            i <= n,
            b@.take(i as int) == png_signature().take(i as int),
        decreases n - i,
    {
        if b[i] != sig[i] {
            proof {
                assert(sig@[i as int] == png_signature()[i as int]);
                assert(png_signature().len() == 8);
                assert(b@.take(n as int)[i as int] == b@[i as int]);
                assert(png_signature().take(n as int)[i as int] == png_signature()[i as int]);
            }
            return false;
        }
        assert(b@.take(i + 1) =~= b@.take(i as int).push(b@[i as int]));
        assert(png_signature().take(i + 1) =~= png_signature().take(i as int).push(png_signature()[i as int]));
        i = i + 1;
    }
    true
}

/// Saving then loading keeps the name, author and description, for values
/// that `Scheme.ini` can hold (see `meta_value_ok`).
pub proof fn law_save_then_load(name: Seq<char>, author: Seq<char>, about: Seq<char>)
    requires
        meta_value_ok(name),
        meta_value_ok(author),
        meta_value_ok(about),
    ensures
        spec_load(Some(vstd::utf8::encode_utf8(spec_scheme_info_text(name, author, about))), None) == (SpecSchemeMeta {
            name,
            author,
            about,
            thumbnail_base64: seq![],
        }),
{
    let t = spec_scheme_info_text(name, author, about);
    vstd::utf8::encode_utf8_valid_utf8(t);
    vstd::utf8::encode_utf8_decode_utf8(t);
    law_scheme_info_roundtrip(name, author, about);
}

/// Saving metadata without a thumbnail, such as what `reset_all` gives,
/// succeeds with no `Scheme.png` (an old one is removed), and loading the
/// saved files gives the metadata back, for values `Scheme.ini` can hold.
pub proof fn law_save_without_thumbnail_then_load(m: SpecSchemeMeta, r: CoreResult<SchemeFiles>)
    requires
        m.thumbnail_base64.len() == 0,
        meta_value_ok(m.name),
        meta_value_ok(m.author),
        meta_value_ok(m.about),
        save_outcome(m, r),
    ensures
        r matches Ok(f) && files_image(f) is None && spec_load(Some(f.info@), files_image(f)) == m,
{
    law_save_then_load(m.name, m.author, m.about);
    assert(m.thumbnail_base64 =~= seq![]);
}

} // verus!
