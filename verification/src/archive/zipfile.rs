//! Zip archives held in memory, read and written with the `zip` crate.

use vstd::prelude::*;
use std::io::Cursor;
use zip::ZipWriter;
use vstd::utf8::encode_utf8;

verus! {

/// A zip archive being written to memory. Verus refuses a declaration of
/// `ZipWriter` (its bounds name `std::io::Write` and `Seek`), so the writer is
/// held in a field hidden from Verus.
#[verifier::external_body]
pub struct ZipBuilder {
    w: ZipWriter<Cursor<Vec<u8>>>,
}

/// The names of the members of the archive `bytes`, in the order of its
/// central directory, as `zip::ZipArchive::new` and `file_names` give them;
/// or the message of the error that opening it gave.
pub uninterp spec fn zip_listing(bytes: Seq<u8>) -> Result<Seq<Seq<char>>, Seq<char>>;

/// The content of the member called `name` of the archive `bytes`, as
/// `by_name` and `read_to_end` give it: `None` when the archive cannot be
/// opened or has no such member, the message of the read error otherwise.
pub uninterp spec fn zip_member(bytes: Seq<u8>, name: Seq<char>) -> Option<Result<Seq<u8>, Seq<char>>>;

/// A member read by its index: its name, the bytes read from it, and the
/// message of the read error that stopped the reading, if one did.
pub type EntryRead = (Seq<char>, Seq<u8>, Option<Seq<char>>);

/// The member at `index` of the archive `bytes`, as `by_index` and
/// `read_to_end` give it (`EntryRead`); or the message of the error that
/// opening the archive or `by_index` gave.
pub uninterp spec fn zip_entry_at(bytes: Seq<u8>, index: int) -> Result<EntryRead, Seq<char>>;

/// The members written so far to a zip writer: names and contents.
pub uninterp spec fn written_entries(w: ZipBuilder) -> Seq<(Seq<char>, Seq<u8>)>;

/// Whether the writer has a member open for writing (its `writing_to_file`
/// flag): the last of `written_entries`, started and not refused since.
pub uninterp spec fn zip_writing(w: ZipBuilder) -> bool;

pub open spec fn entry_names(e: Seq<(Seq<char>, Seq<u8>)>) -> Seq<Seq<char>> {
    e.map_values(|p: (Seq<char>, Seq<u8>)| p.0)
}

pub open spec fn distinct_names(e: Seq<(Seq<char>, Seq<u8>)>) -> bool {
    forall|i: int, j: int| 0 <= i < j < e.len() ==> e[i].0 != e[j].0
}

/// What a member costs of the archive's budget: its content, its name twice
/// (local and central header) and room for the fixed header fields.
pub open spec fn entry_cost(p: (Seq<char>, Seq<u8>)) -> int {
    (p.1.len() + 2 * encode_utf8(p.0).len() + 128) as int
}

pub open spec fn entries_cost(e: Seq<(Seq<char>, Seq<u8>)>) -> int
    decreases e.len(),
{
    if e.len() == 0 {
        0
    } else {
        entries_cost(e.drop_last()) + entry_cost(e.last())
    }
}

/// The budget of an archive written in one go: 2 GiB, half of the 4 GiB
/// (`ZIP64_BYTES_THR`) past which `ZipWriter` refuses a member written
/// without the large-file option. The other half covers what deflate adds to
/// incompressible data (a few bytes per stored block).
pub const ARCHIVE_BUDGET: u64 = 0x8000_0000;

/// The members fit one archive: each name within the 65535 bytes of a zip
/// header, the whole within the budget.
pub open spec fn fits_in_archive(e: Seq<(Seq<char>, Seq<u8>)>) -> bool {
    &&& forall|i: int| 0 <= i < e.len() ==> #[trigger] encode_utf8(e[i].0).len() <= 65535
    &&& entries_cost(e) <= ARCHIVE_BUDGET
}

proof fn lemma_cost_drop_last(e: Seq<(Seq<char>, Seq<u8>)>)
    requires
        e.len() > 0,
    ensures
        entries_cost(e.drop_last()) <= entries_cost(e),
{
}

/// The members written before some point of an archive that fits fit too.
pub proof fn lemma_fits_prefix(e: Seq<(Seq<char>, Seq<u8>)>, m: int)
    requires
        fits_in_archive(e),
        0 <= m <= e.len(),
    ensures
        fits_in_archive(e.subrange(0, m)),
    decreases e.len(),
{
    if m == e.len() {
        assert(e.subrange(0, m) =~= e);
    } else {
        let d = e.drop_last();
        lemma_cost_drop_last(e);
        assert forall|i: int| 0 <= i < d.len() implies #[trigger] encode_utf8(d[i].0).len() <= 65535 by {
            assert(d[i] == e[i]);
        }
        lemma_fits_prefix(d, m);
        assert(d.subrange(0, m) =~= e.subrange(0, m));
    }
}

/// A last member with less content fits where the longer one did.
pub proof fn lemma_fits_shorter_last(e: Seq<(Seq<char>, Seq<u8>)>, n: Seq<char>, d: Seq<u8>, d2: Seq<u8>)
    requires
        fits_in_archive(e.push((n, d))),
        d2.len() <= d.len(),
    ensures
        fits_in_archive(e.push((n, d2))),
{
    assert(e.push((n, d)).drop_last() =~= e);
    assert(e.push((n, d2)).drop_last() =~= e);
    assert forall|i: int| 0 <= i < e.push((n, d2)).len() implies #[trigger] encode_utf8(e.push((n, d2))[i].0).len() <= 65535 by {
        assert(e.push((n, d2))[i].0 == e.push((n, d))[i].0);
    }
}

/// In members with distinct names, none before position `m` has the name of
/// the member at `m`.
pub proof fn lemma_distinct_prefix_fresh(e: Seq<(Seq<char>, Seq<u8>)>, m: int)
    requires
        distinct_names(e),
        0 <= m < e.len(),
    ensures
        !entry_names(e.subrange(0, m)).contains(e[m].0),
{
    let p = e.subrange(0, m);
    if entry_names(p).contains(e[m].0) {
        let i = choose|i: int| 0 <= i < entry_names(p).len() && entry_names(p)[i] == e[m].0;
        assert(e[i].0 == p[i].0);
    }
}

/// The archive `bytes` reads back exactly as the members `e`.
pub open spec fn holds_entries(bytes: Seq<u8>, e: Seq<(Seq<char>, Seq<u8>)>) -> bool {
    &&& zip_listing(bytes) == Ok::<Seq<Seq<char>>, Seq<char>>(entry_names(e))
    &&& forall|i: int| 0 <= i < e.len() ==> #[trigger] zip_member(bytes, e[i].0) == Some(Ok::<Seq<u8>, Seq<char>>(e[i].1))
    &&& forall|n: Seq<char>| !entry_names(e).contains(n) ==> #[trigger] zip_member(bytes, n) is None
    &&& forall|i: int| 0 <= i < e.len() ==> #[trigger] zip_entry_at(bytes, i) == Ok::<EntryRead, Seq<char>>(
        (e[i].0, e[i].1, None),
    )
}

pub open spec fn strings_view(v: Seq<String>) -> Seq<Seq<char>> {
    v.map_values(|s: String| s@)
}

/// Opens the archive `bytes` (`zip::ZipArchive::new`) and lists its member
/// names (`file_names`); the result is named `zip_listing(bytes)`.
#[verifier::external_body]
pub(crate) fn zip_names(bytes: &[u8]) -> (r: Result<Vec<String>, String>)
    ensures
        match r {
            Ok(v) => zip_listing(bytes@) == Ok::<Seq<Seq<char>>, Seq<char>>(strings_view(v@)),
            Err(m) => zip_listing(bytes@) == Err::<Seq<Seq<char>>, Seq<char>>(m@),
        },
{
    match zip::ZipArchive::new(Cursor::new(bytes)) {
        Ok(z) => Ok(z.file_names().map(|n| n.to_owned()).collect()),
        Err(e) => Err(e.to_string()),
    }
}

/// Reads the member `name` of the archive `bytes` (`by_name`, then
/// `read_to_end`); the result is named `zip_member(bytes, name)`.
#[verifier::external_body]
pub(crate) fn zip_read_member(bytes: &[u8], name: &str) -> (r: Option<Result<Vec<u8>, String>>)
    ensures
        match r {
            None => zip_member(bytes@, name@) is None,
            Some(Ok(d)) => zip_member(bytes@, name@) == Some(Ok::<Seq<u8>, Seq<char>>(d@)),
            Some(Err(m)) => zip_member(bytes@, name@) == Some(Err::<Seq<u8>, Seq<char>>(m@)),
        },
{
    let mut z = zip::ZipArchive::new(Cursor::new(bytes)).ok()?;
    let mut f = z.by_name(name).ok()?;
    let mut buf: Vec<u8> = Vec::new();
    match std::io::Read::read_to_end(&mut f, &mut buf) {
        Ok(_) => Some(Ok(buf)),
        Err(e) => Some(Err(e.to_string())),
    }
}

/// Reads the member at `index` of the archive `bytes` (`by_index`, `name`,
/// then `read_to_end`, which on a read error keeps the bytes read before
/// it); the result is named `zip_entry_at(bytes, index)`.
#[verifier::external_body]
pub(crate) fn zip_read_entry(bytes: &[u8], index: usize) -> (r: Result<(String, Vec<u8>, Option<String>), String>)
    ensures
        match r {
            Ok((n, d, None)) => zip_entry_at(bytes@, index as int) == Ok::<EntryRead, Seq<char>>((n@, d@, None)),
            Ok((n, d, Some(m))) => zip_entry_at(bytes@, index as int) == Ok::<EntryRead, Seq<char>>((n@, d@, Some(m@))),
            Err(m) => zip_entry_at(bytes@, index as int) == Err::<EntryRead, Seq<char>>(m@),
        },
{
    let mut z = zip::ZipArchive::new(Cursor::new(bytes)).map_err(|e| e.to_string())?;
    let mut f = z.by_index(index).map_err(|e| e.to_string())?;
    let name = f.name().to_owned();
    let mut buf: Vec<u8> = Vec::new();
    match std::io::Read::read_to_end(&mut f, &mut buf) {
        Ok(_) => Ok((name, buf, None)),
        Err(e) => Ok((name, buf, Some(e.to_string()))),
    }
}

/// A zip writer over an empty in-memory buffer (`ZipWriter::new`).
#[verifier::external_body]
pub(crate) fn zip_writer_new() -> (w: ZipBuilder)
    ensures
        written_entries(w) == Seq::<(Seq<char>, Seq<u8>)>::empty(),
        !zip_writing(w),
{
    ZipBuilder { w: ZipWriter::new(Cursor::new(Vec::new())) }
}

/// Starts a deflate-compressed member `name` (`start_file`). As the source of
/// `start_file` shows, a name already written is refused; on success the new
/// member is empty and last. `start_file` panics on a name of more than
/// 65535 bytes (the local header's `u16` length); on an in-memory writer its
/// other refusals are the size limit of the finished member and a duplicate
/// name, so a new name within the archive budget is accepted.
#[verifier::external_body]
pub(crate) fn zip_start_file(w: &mut ZipBuilder, name: &str) -> (r: Result<(), String>)
    requires
        encode_utf8(name@).len() <= 65535,
    ensures
        r is Ok ==> !entry_names(written_entries(*old(w))).contains(name@),
        r is Ok ==> written_entries(*final(w)) == written_entries(*old(w)).push((name@, Seq::<u8>::empty())),
        r is Ok ==> zip_writing(*final(w)),
        !entry_names(written_entries(*old(w))).contains(name@)
            && fits_in_archive(written_entries(*old(w)).push((name@, Seq::<u8>::empty()))) ==> r is Ok,
{
    let options = zip::write::SimpleFileOptions::default().compression_method(zip::CompressionMethod::Deflated);
    w.w.start_file(name, options).map_err(|e| e.to_string())
}

/// The members after `data` is appended to the last one.
pub open spec fn appended(e: Seq<(Seq<char>, Seq<u8>)>, data: Seq<u8>) -> Seq<(Seq<char>, Seq<u8>)> {
    if e.len() == 0 {
        e
    } else {
        e.update(e.len() - 1, (e.last().0, e.last().1 + data))
    }
}

/// Appends `data` to the member being written (`write_all`). Empty data is
/// accepted at once and changes nothing; otherwise `write` refuses without an
/// open member, and refuses (and drops) a member that grows past 4 GiB, so
/// data that keeps an open member within the archive's budget is accepted.
#[verifier::external_body]
pub(crate) fn zip_write_all(w: &mut ZipBuilder, data: &[u8]) -> (r: Result<(), String>)
    ensures
        zip_writing(*old(w)) ==> written_entries(*old(w)).len() > 0,
        r is Ok && data@.len() > 0 ==> zip_writing(*old(w)),
        r is Ok ==> zip_writing(*final(w)) == zip_writing(*old(w)),
        r is Ok ==> written_entries(*final(w)) == appended(written_entries(*old(w)), data@),
        zip_writing(*old(w)) && fits_in_archive(appended(written_entries(*old(w)), data@)) ==> r is Ok,
{
    std::io::Write::write_all(&mut w.w, data).map_err(|e| e.to_string())
}

/// Writes the central directory and gives the archive's bytes (`finish`).
/// An archive written by `ZipWriter` reads back with `ZipArchive` as the
/// members that were written, in order (names kept, contents decompressed).
/// On an in-memory writer `finish` refuses only a last member past the size
/// limit, so an archive within its budget is finished.
#[verifier::external_body]
pub(crate) fn zip_finish(w: ZipBuilder) -> (r: Result<Vec<u8>, String>)
    requires
        distinct_names(written_entries(w)),
    ensures
        r matches Ok(b) ==> holds_entries(b@, written_entries(w)),
        fits_in_archive(written_entries(w)) ==> r is Ok,
{
    match w.w.finish() {
        Ok(c) => Ok(c.into_inner()),
        Err(e) => Err(e.to_string()),
    }
}

} // verus!
