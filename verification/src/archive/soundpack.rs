//! Proprietary `.soundpack` archives, read only: an AES-128-CBC layer over a
//! zip, whose `soundpackage.data` member holds base64 of 3DES-encrypted XML
//! metadata. Converting one gives a `.ths` archive.

use vstd::prelude::*;
use vstd::string::StringExecFns;
use vstd::string::StrSliceExecFns;
use vstd::utf8::{valid_utf8, decode_utf8};
use cipher::{BlockDecryptMut, KeyIvInit};
use crate::errors::{CoreError, CoreResult};
use crate::text::{chars_of, string_of, trim, trim_bounds, find_str, find_str_in, eq_ignore_ascii_case, eq_ignore_ascii_case_exec};
use crate::paths::{path_extension, extension};
use crate::encoding::{base64_decode, base64_decoded, from_utf8_lossy, utf8_lossy, from_utf8};
use crate::domain::scheme_meta::{serialize_scheme_info, spec_scheme_info_text};
use crate::archive::zipfile::{
    zip_listing, zip_entry_at, zip_names, zip_read_entry, ZipBuilder, written_entries, distinct_names,
    holds_entries, zip_writer_new, zip_start_file, zip_write_all, zip_finish, strings_view,
    entry_names, appended, fits_in_archive, lemma_fits_shorter_last, lemma_fits_prefix, lemma_distinct_prefix_fresh,
};
use vstd::utf8::encode_utf8;

verus! {

broadcast use vstd::string::group_string_axioms;

pub const FILE_EXTENSION: &'static str = "soundpack";

/// Whether `file`'s extension is `soundpack`, in any ASCII case.
pub fn is_proprietary(file: &str) -> (r: bool)
    ensures
        r <==> (path_extension(file@) matches Some(e) && eq_ignore_ascii_case(e, "soundpack"@)),
{
    match extension(file) {
        Some(e) => eq_ignore_ascii_case_exec(e.as_str(), "soundpack"),
        None => false,
    }
}

// ------------------------------------------------------------------ ciphers

pub open spec fn zip_aes_key() -> Seq<u8> {
    seq![0x43u8, 0x6f, 0x70, 0x79, 0x72, 0x69, 0x67, 0x68, 0x74, 0x3f, 0x53, 0x74, 0x61, 0x72, 0x64, 0x6f]
}

pub open spec fn zip_aes_iv() -> Seq<u8> {
    seq![0x7du8, 0x2a, 0x7e, 0x61, 0x70, 0x3f, 0x3f, 0x3f, 0x53, 0x74, 0x61, 0x72, 0x64, 0x6f, 0x63, 0x6b]
}

pub open spec fn xml_3des_key() -> Seq<u8> {
    seq![
        0x3fu8, 0x43, 0x6f, 0x70, 0x79, 0x72, 0x69, 0x67, 0x68, 0x74, 0x53, 0x74, 0x61, 0x72, 0x64, 0x6f,
        0x63, 0x6b, 0x32, 0x30, 0x30, 0x38, 0x3f, 0x3f,
    ]
}

pub open spec fn xml_3des_iv() -> Seq<u8> {
    seq![0x7du8, 0x6c, 0x60, 0x3f, 0x2a, 0x7e, 0x61, 0x70]
}

fn zip_aes_key_exec() -> (r: [u8; 16])
    ensures
        r@ == zip_aes_key(),
{
    let r: [u8; 16] = [0x43, 0x6f, 0x70, 0x79, 0x72, 0x69, 0x67, 0x68, 0x74, 0x3f, 0x53, 0x74, 0x61, 0x72, 0x64, 0x6f];
    assert(r@ =~= zip_aes_key());
    r
}

fn zip_aes_iv_exec() -> (r: [u8; 16])
    ensures
        r@ == zip_aes_iv(),
{
    let r: [u8; 16] = [0x7d, 0x2a, 0x7e, 0x61, 0x70, 0x3f, 0x3f, 0x3f, 0x53, 0x74, 0x61, 0x72, 0x64, 0x6f, 0x63, 0x6b];
    assert(r@ =~= zip_aes_iv());
    r
}

fn xml_3des_key_exec() -> (r: [u8; 24])
    ensures
        r@ == xml_3des_key(),
{
    let r: [u8; 24] = [
        0x3f, 0x43, 0x6f, 0x70, 0x79, 0x72, 0x69, 0x67, 0x68, 0x74, 0x53, 0x74, 0x61, 0x72, 0x64, 0x6f,
        0x63, 0x6b, 0x32, 0x30, 0x30, 0x38, 0x3f, 0x3f,
    ];
    assert(r@ =~= xml_3des_key());
    r
}

fn xml_3des_iv_exec() -> (r: [u8; 8])
    ensures
        r@ == xml_3des_iv(),
{
    let r: [u8; 8] = [0x7d, 0x6c, 0x60, 0x3f, 0x2a, 0x7e, 0x61, 0x70];
    assert(r@ =~= xml_3des_iv());
    r
}

/// What AES-128 in CBC mode with PKCS#7 padding decrypts `data` to with
/// `key` and `iv` (`None` when the padding or the length is bad).
pub uninterp spec fn aes128_cbc_decrypted(key: Seq<u8>, iv: Seq<u8>, data: Seq<u8>) -> Option<Seq<u8>>;

/// What 3DES (EDE, three keys) in CBC mode with PKCS#7 padding decrypts
/// `data` to with `key` and `iv` (`None` when the padding or the length is bad).
pub uninterp spec fn tdes_cbc_decrypted(key: Seq<u8>, iv: Seq<u8>, data: Seq<u8>) -> Option<Seq<u8>>;

/// Calls `cbc::Decryptor::<aes::Aes128>::new(key, iv).decrypt_padded_vec_mut::<Pkcs7>(data)`
/// (RustCrypto). The result is named `aes128_cbc_decrypted`; as the
/// documentation of `decrypt_padded_vec_mut` states, an input whose length is
/// not a multiple of the block size is refused.
#[verifier::external_body]
fn aes128_cbc_decrypt(key: &[u8; 16], iv: &[u8; 16], data: &[u8]) -> (r: Option<Vec<u8>>)
    ensures
        match r {
            Some(p) => aes128_cbc_decrypted(key@, iv@, data@) == Some(p@),
            None => aes128_cbc_decrypted(key@, iv@, data@) is None,
        },
        data@.len() % 16 != 0 ==> r is None,
{
    cbc::Decryptor::<aes::Aes128>::new(key.into(), iv.into())
        .decrypt_padded_vec_mut::<cipher::block_padding::Pkcs7>(data)
        .ok()
}

/// Calls `cbc::Decryptor::<des::TdesEde3>::new(key, iv).decrypt_padded_vec_mut::<Pkcs7>(data)`
/// (RustCrypto). The result is named `tdes_cbc_decrypted`; an input whose
/// length is not a multiple of the block size is refused.
#[verifier::external_body]
fn tdes_cbc_decrypt(key: &[u8; 24], iv: &[u8; 8], data: &[u8]) -> (r: Option<Vec<u8>>)
    ensures
        match r {
            Some(p) => tdes_cbc_decrypted(key@, iv@, data@) == Some(p@),
            None => tdes_cbc_decrypted(key@, iv@, data@) is None,
        },
        data@.len() % 8 != 0 ==> r is None,
{
    cbc::Decryptor::<des::TdesEde3>::new(key.into(), iv.into())
        .decrypt_padded_vec_mut::<cipher::block_padding::Pkcs7>(data)
        .ok()
}

/// The zip inside a `.soundpack` file: the file itself when it already
/// starts with `PK`, else its AES decryption; `None` when that fails.
pub open spec fn spec_zip_layer(e: Seq<u8>) -> Option<Seq<u8>> {
    if e.len() >= 4 && e[0] == 0x50 && e[1] == 0x4b {
        Some(e)
    } else {
        aes128_cbc_decrypted(zip_aes_key(), zip_aes_iv(), e)
    }
}

/// Decrypts the AES layer of a `.soundpack` file's content (see
/// `spec_zip_layer`); a failure is the `Archive` error
/// `invalid soundpack AES layer`.
pub fn decrypt_zip_layer(encrypted: &[u8]) -> (r: CoreResult<Vec<u8>>)
    ensures
        match spec_zip_layer(encrypted@) {
            Some(z) => r matches Ok(v) && v@ == z,
            None => r matches Err(CoreError::Archive(m)) && m@ == "invalid soundpack AES layer"@,
        },
{
    if encrypted.len() >= 4 && encrypted[0] == 0x50 && encrypted[1] == 0x4b {
        return Ok(vstd::slice::slice_to_vec(encrypted));
    }
    let key = zip_aes_key_exec();
    let iv = zip_aes_iv_exec();
    match aes128_cbc_decrypt(&key, &iv, encrypted) {
        Some(p) => Ok(p),
        None => Err(CoreError::Archive("invalid soundpack AES layer".to_owned())),
    }
}

/// The metadata XML in `soundpackage.data`: base64 of the trimmed text, then
/// 3DES, then UTF-8 with invalid sequences replaced. A base64 failure is the
/// `Archive` error `metadata base64: <message>`, a 3DES failure
/// `invalid soundpack metadata 3DES`.
pub open spec fn spec_decrypt_metadata(text: Seq<char>) -> Result<Seq<char>, Seq<char>> {
    match base64_decoded(trim(text)) {
        Err(m) => Err("metadata base64: "@ + m),
        Ok(c) => match tdes_cbc_decrypted(xml_3des_key(), xml_3des_iv(), c) {
            None => Err("invalid soundpack metadata 3DES"@),
            Some(p) => Ok(utf8_lossy(p)),
        },
    }
}

/// Decrypts the metadata XML (see `spec_decrypt_metadata`; an error is an
/// `Archive` error with that message).
pub fn decrypt_metadata_xml(base64_data: &str) -> (r: CoreResult<String>)
    ensures
        match spec_decrypt_metadata(base64_data@) {
            Ok(x) => r matches Ok(s) && s@ == x,
            Err(m) => r matches Err(CoreError::Archive(e)) && e@ == m,
        },
{
    let v = chars_of(base64_data);
    let n = v.len();
    let (a, b) = trim_bounds(&v, 0, n);
    assert(v@.subrange(0, n as int) =~= base64_data@);
    let trimmed = string_of(&v, a, b);
    let cipher_bytes = match base64_decode(trimmed.as_str()) {
        Ok(c) => c,
        Err(m) => {
            let mut s = "metadata base64: ".to_owned();
            s.append(m.as_str());
            return Err(CoreError::Archive(s));
        },
    };
    let key = xml_3des_key_exec();
    let iv = xml_3des_iv_exec();
    match tdes_cbc_decrypt(&key, &iv, cipher_bytes.as_slice()) {
        Some(p) => Ok(from_utf8_lossy(p.as_slice())),
        None => Err(CoreError::Archive("invalid soundpack metadata 3DES".to_owned())),
    }
}

// ------------------------------------------------------------------ metadata fields

/// The text between the first `<tag>` and the first `</tag>` after it;
/// empty when either is missing.
pub open spec fn pick(xml: Seq<char>, tag: Seq<char>) -> Seq<char> {
    let open = seq!['<'] + tag + seq!['>'];
    let close = seq!['<', '/'] + tag + seq!['>'];
    match find_str(xml, open) {
        None => seq![],
        Some(s) => {
            let rest = xml.subrange(s + open.len(), xml.len() as int);
            match find_str(rest, close) {
                None => seq![],
                Some(e) => rest.subrange(0, e),
            }
        },
    }
}

fn tag_pattern(tag: &str, closing: bool) -> (r: Vec<char>)
    ensures
        r@ == if closing { seq!['<', '/'] + tag@ + seq!['>'] } else { seq!['<'] + tag@ + seq!['>'] },
{
    let mut r: Vec<char> = Vec::new();
    r.push('<');
    if closing {
        r.push('/');
    }
    let t = chars_of(tag);
    let mut i: usize = 0;
    let ghost start = r@;
    while i < t.len()
        invariant
            i <= t.len(),
            t@ == tag@,
            r@ == start + t@.subrange(0, i as int),
        decreases t.len() - i,
    {
        r.push(t[i]);
        assert(t@.subrange(0, i + 1) =~= t@.subrange(0, i as int).push(t@[i as int]));
        i = i + 1;
    }
    r.push('>');
    assert(t@.subrange(0, t.len() as int) =~= t@);
    proof {
        if closing {
            assert(r@ =~= seq!['<', '/'] + tag@ + seq!['>']);
        } else {
            assert(r@ =~= seq!['<'] + tag@ + seq!['>']);
        }
    }
    r
}

/// The field `tag` of the metadata XML (see `pick`).
pub fn pick_tag(xml: &str, tag: &str) -> (r: String)
    ensures
        r@ == pick(xml@, tag@),
{
    let v = chars_of(xml);
    let open = tag_pattern(tag, false);
    let close = tag_pattern(tag, true);
    let n = v.len();
    assert(v@.subrange(0, n as int) =~= v@);
    match find_str_in(&v, 0, n, &open) {
        None => String::new(),
        Some(s) => {
            if open.len() > n - s {
                proof {
                    crate::text::lemma_find_str(v@, open@);
                }
                return String::new();
            }
            let from = s + open.len();
            proof {
                crate::text::lemma_find_str(v@, open@);
            }
            match find_str_in(&v, from, n, &close) {
                None => String::new(),
                Some(e) => {
                    let ghost rest = v@.subrange(from as int, n as int);
                    assert(rest.subrange(0, e - from) =~= v@.subrange(from as int, e as int));
                    string_of(&v, from, e)
                },
            }
        },
    }
}

// ------------------------------------------------------------------ conversion

/// The member holding the encrypted metadata.
pub open spec fn is_data_member(n: Seq<char>) -> bool {
    n.len() >= 17 && n.subrange(n.len() - 17, n.len() as int) == "soundpackage.data"@
}

/// A member's content read as text (`read_to_string`): the bytes read, also
/// those read before a read error, when they are UTF-8; empty otherwise.
pub open spec fn member_text(b: Seq<u8>) -> Seq<char> {
    if valid_utf8(b) {
        decode_utf8(b)
    } else {
        seq![]
    }
}

pub open spec fn decrypted_meta(b: Seq<u8>) -> Option<Seq<char>> {
    match spec_decrypt_metadata(member_text(b)) {
        Ok(x) => Some(x),
        Err(_) => None,
    }
}

/// The metadata found in the first `k` members of the zip `z`: the last
/// data member's decrypted XML, `None` when there is none or it does not
/// decrypt; or the message of the zip error that stops the scan.
pub open spec fn scan_metadata(z: Seq<u8>, k: int) -> Result<Option<Seq<char>>, Seq<char>>
    decreases k,
{
    if k <= 0 {
        Ok(None)
    } else {
        match scan_metadata(z, k - 1) {
            Err(m) => Err(m),
            Ok(meta) => match zip_entry_at(z, k - 1) {
                Err(m) => Err(m),
                Ok((n, d, _)) => if is_data_member(n) {
                    Ok(decrypted_meta(d))
                } else {
                    Ok(meta)
                },
            },
        }
    }
}

/// The members of the first `k` members of `z` that the `.ths` archive keeps:
/// all but the data member; `None` when one of them cannot be read.
pub open spec fn kept_members(z: Seq<u8>, k: int) -> Option<Seq<(Seq<char>, Seq<u8>)>>
    decreases k,
{
    if k <= 0 {
        Some(seq![])
    } else {
        match kept_members(z, k - 1) {
            None => None,
            Some(p) => match zip_entry_at(z, k - 1) {
                Err(_) => None,
                Ok((n, d, e)) => if is_data_member(n) {
                    Some(p)
                } else {
                    match e {
                        None => Some(p.push((n, d))),
                        Some(_) => None,
                    }
                },
            },
        }
    }
}

/// The `Scheme.ini` added for the metadata XML, if any: its `SchemeName`,
/// `Author` and `Description` fields.
pub open spec fn meta_ini(meta: Option<Seq<char>>) -> Seq<(Seq<char>, Seq<u8>)> {
    match meta {
        Some(x) => seq![(
            "Scheme.ini"@,
            vstd::utf8::encode_utf8(spec_scheme_info_text(pick(x, "SchemeName"@), pick(x, "Author"@), pick(x, "Description"@))),
        )],
        None => seq![],
    }
}

pub open spec fn opt_string(o: Option<String>) -> Option<Seq<char>> {
    match o {
        Some(s) => Some(s@),
        None => None,
    }
}

fn is_data_member_exec(n: &str) -> (r: bool)
    ensures
        r == is_data_member(n@),
{
    let v = chars_of(n);
    let suffix = chars_of("soundpackage.data");
    proof {
        reveal_strlit("soundpackage.data");
    }
    assert(suffix@.len() == 17);
    if v.len() < 17 {
        return false;
    }
    let off = v.len() - 17;
    let mut i: usize = 0;
    while i < 17
        invariant
            v@ == n@,
            suffix@ == "soundpackage.data"@,
            suffix@.len() == 17,
            off + 17 == v.len(),
            i <= 17,
            forall|j: int| 0 <= j < i ==> v@[off + j] == suffix@[j],
        decreases 17 - i,
    {
        if v[off + i] != suffix[i] {
            assert(v@.subrange(off as int, v.len() as int)[i as int] != suffix@[i as int]);
            return false;
        }
        i = i + 1;
    }
    assert(v@.subrange(off as int, v.len() as int) =~= suffix@);
    true
}

fn member_text_exec(b: &Vec<u8>) -> (r: String)
    ensures
        r@ == member_text(b@),
{
    match from_utf8(b.as_slice()) {
        Some(s) => s,
        None => String::new(),
    }
}

/// Adds a member as `convert` does: a refused member is a `Zip` error, a
/// failed write an `Io` error; a new name that keeps the archive within its
/// budget is always added.
fn add_member(w: &mut ZipBuilder, name: &str, data: &[u8]) -> (r: CoreResult<()>)
    requires
        distinct_names(written_entries(*old(w))),
    ensures
        r is Ok ==> written_entries(*final(w)) == written_entries(*old(w)).push((name@, data@)),
        r is Ok ==> distinct_names(written_entries(*final(w))),
        r matches Err(e) ==> e is Zip || e is Io,
        !entry_names(written_entries(*old(w))).contains(name@)
            && fits_in_archive(written_entries(*old(w)).push((name@, data@))) ==> r is Ok,
{
    if name.as_bytes().len() > 65535 {
        proof {
            if fits_in_archive(written_entries(*old(w)).push((name@, data@))) {
                let e = written_entries(*old(w)).push((name@, data@));
                assert(encode_utf8(e[e.len() - 1].0).len() <= 65535);
            }
        }
        let mut s = name.to_owned();
        s.append(": file name too long for a zip header");
        return Err(CoreError::Zip(s));
    }
    proof {
        if fits_in_archive(written_entries(*old(w)).push((name@, data@))) {
            lemma_fits_shorter_last(written_entries(*old(w)), name@, data@, Seq::<u8>::empty());
        }
    }
    match zip_start_file(w, name) {
        Err(m) => return Err(CoreError::Zip(m)),
        Ok(()) => {},
    }
    assert(Seq::<u8>::empty() + data@ =~= data@);
    assert(appended(written_entries(*w), data@) =~= written_entries(*old(w)).push((name@, data@)));
    match zip_write_all(w, data) {
        Err(m) => Err(CoreError::Io(m)),
        Ok(()) => {
            proof {
                let e = written_entries(*old(w));
                let f = e.push((name@, data@));
                assert forall|i: int, j: int| 0 <= i < j < f.len() implies f[i].0 != f[j].0 by {
                    if j == e.len() && f[i].0 == name@ {
                        assert(entry_names(e)[i] == name@);
                    }
                }
            }
            Ok(())
        },
    }
}

/// The members kept from the first `k` members are those kept from the
/// first `j`, cut short.
proof fn lemma_kept_prefix(z: Seq<u8>, k: int, j: int)
    requires
        0 <= k <= j,
        kept_members(z, j) is Some,
    ensures
        kept_members(z, k) is Some,
        kept_members(z, k)->0.len() <= kept_members(z, j)->0.len(),
        kept_members(z, j)->0.subrange(0, kept_members(z, k)->0.len() as int) == kept_members(z, k)->0,
    decreases j - k,
{
    if k < j {
        lemma_kept_prefix(z, k, j - 1);
        let a = kept_members(z, k)->0;
        let b = kept_members(z, j - 1)->0;
        let c = kept_members(z, j)->0;
        assert(c.subrange(0, a.len() as int) =~= b.subrange(0, a.len() as int));
    } else {
        assert(kept_members(z, j)->0.subrange(0, kept_members(z, j)->0.len() as int) =~= kept_members(z, j)->0);
    }
}

proof fn lemma_scan_err_persists(z: Seq<u8>, k: int, j: int)
    requires
        0 <= k <= j,
        scan_metadata(z, k) is Err,
    ensures
        scan_metadata(z, j) == scan_metadata(z, k),
    decreases j - k,
{
    if j > k {
        lemma_scan_err_persists(z, k, j - 1);
    }
}

/// Converts the content of a `.soundpack` file into a `.ths` archive: every
/// member but `soundpackage.data`, in order, then a `Scheme.ini` made from
/// the decrypted metadata when there is some. Gives the archive and the
/// metadata XML. The caller reads and writes the files.
pub fn convert(pack: &[u8]) -> (r: CoreResult<(Vec<u8>, Option<String>)>)
    ensures
        match spec_zip_layer(pack@) {
            None => r matches Err(CoreError::Archive(m)) && m@ == "invalid soundpack AES layer"@,
            Some(z) => match zip_listing(z) {
                Err(m) => r matches Err(CoreError::Zip(x)) && x@ == m,
                Ok(names) => match scan_metadata(z, names.len() as int) {
                    Err(m) => r matches Err(CoreError::Zip(x)) && x@ == m,
                    Ok(meta) => (r matches Ok((t, mm)) ==> (opt_string(mm) == meta
                        && (kept_members(z, names.len() as int) matches Some(kept)
                        && holds_entries(t@, kept + meta_ini(meta)))))
                        && (r matches Err(e) ==> e is Zip || e is Io)
                        && (kept_members(z, names.len() as int) matches Some(kept)
                            && distinct_names(kept + meta_ini(meta))
                            && fits_in_archive(kept + meta_ini(meta)) ==> r is Ok),
                },
            },
        },
{
    let z = decrypt_zip_layer(pack)?;
    let names = match zip_names(z.as_slice()) {
        Err(m) => return Err(CoreError::Zip(m)),
        Ok(n) => n,
    };
    let count = names.len();
    assert(strings_view(names@).len() == count);
    let mut meta: Option<String> = None;
    let mut i: usize = 0;
    while i < count
        invariant
            i <= count,
            count == names.len(),
            spec_zip_layer(pack@) == Some(z@),
            zip_listing(z@) == Ok::<Seq<Seq<char>>, Seq<char>>(strings_view(names@)),
            scan_metadata(z@, i as int) == Ok::<Option<Seq<char>>, Seq<char>>(opt_string(meta)),
        decreases count - i,
    {
        match zip_read_entry(z.as_slice(), i) {
            Err(m) => {
                proof {
                    lemma_scan_err_persists(z@, i + 1, count as int);
                }
                return Err(CoreError::Zip(m));
            },
            Ok((n, c, _)) => {
                if is_data_member_exec(n.as_str()) {
                    let text = member_text_exec(&c);
                    meta = match decrypt_metadata_xml(text.as_str()) {
                        Ok(x) => Some(x),
                        Err(_) => None,
                    };
                }
            },
        }
        i = i + 1;
    }
    let ghost full = match kept_members(z@, count as int) {
        Some(kept) => kept + meta_ini(opt_string(meta)),
        None => seq![],
    };
    let ghost owed = kept_members(z@, count as int) is Some && distinct_names(full) && fits_in_archive(full);
    let mut w = zip_writer_new();
    let mut k: usize = 0;
    while k < count
        invariant
            k <= count,
            count == names.len(),
            spec_zip_layer(pack@) == Some(z@),
            zip_listing(z@) == Ok::<Seq<Seq<char>>, Seq<char>>(strings_view(names@)),
            scan_metadata(z@, count as int) == Ok::<Option<Seq<char>>, Seq<char>>(opt_string(meta)),
            kept_members(z@, k as int) == Some(written_entries(w)),
            distinct_names(written_entries(w)),
            full == (match kept_members(z@, count as int) {
                Some(kept) => kept + meta_ini(opt_string(meta)),
                None => seq![],
            }),
            owed == (kept_members(z@, count as int) is Some && distinct_names(full) && fits_in_archive(full)),
        decreases count - k,
    {
        proof {
            if owed {
                lemma_kept_prefix(z@, k + 1, count as int);
            }
        }
        match zip_read_entry(z.as_slice(), k) {
            Err(m) => return Err(CoreError::Zip(m)),
            Ok((n, d, e)) => {
                if !is_data_member_exec(n.as_str()) {
                    match e {
                        Some(m) => return Err(CoreError::Io(m)),
                        None => {
                            proof {
                                if owed {
                                    let kept = kept_members(z@, count as int)->0;
                                    let len = written_entries(w).len() as int;
                                    let next = written_entries(w).push((n@, d@));
                                    assert(kept_members(z@, k + 1) == Some(next));
                                    assert(kept.subrange(0, len + 1) == next);
                                    assert(kept.subrange(0, len + 1)[len] == kept[len]);
                                    assert(full.subrange(0, len + 1) =~= kept.subrange(0, len + 1));
                                    assert(full.subrange(0, len) =~= written_entries(w));
                                    assert(full[len] == (n@, d@));
                                    lemma_distinct_prefix_fresh(full, len);
                                    lemma_fits_prefix(full, len + 1);
                                    assert(full.subrange(0, len + 1) =~= next);
                                }
                            }
                            add_member(&mut w, n.as_str(), d.as_slice())?;
                        },
                    }
                }
            },
        }
        k = k + 1;
    }
    let ghost kept = written_entries(w);
    match &meta {
        Some(x) => {
            let name = pick_tag(x.as_str(), "SchemeName");
            let author = pick_tag(x.as_str(), "Author");
            let about = pick_tag(x.as_str(), "Description");
            let ini = serialize_scheme_info(name.as_str(), author.as_str(), about.as_str());
            proof {
                reveal_strlit("Scheme.ini");
                if owed {
                    assert(kept.push(("Scheme.ini"@, ini@)) =~= full);
                    assert(full.subrange(0, kept.len() as int) =~= kept);
                    assert(full.subrange(0, kept.len() + 1int) =~= full);
                    lemma_distinct_prefix_fresh(full, kept.len() as int);
                }
            }
            add_member(&mut w, "Scheme.ini", ini.as_slice())?;
        },
        None => {
            assert(kept + meta_ini(opt_string(meta)) =~= kept);
        },
    }
    assert(written_entries(w) =~= kept + meta_ini(opt_string(meta)));
    match zip_finish(w) {
        Ok(b) => Ok((b, meta)),
        Err(m) => Err(CoreError::Zip(m)),
    }
}

} // verus!
