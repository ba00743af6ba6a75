//! `.ths` sound archives: a zip holding `Scheme.ini`, `Scheme.png` and one
//! `<Event>.wav` per sound (older archives use `Windows XP <name>.wav`,
//! `visuel.bmp` and `infos.ini`).
//!
//! Importing reads the archive and gives the changes to make to the media
//! folder; exporting takes the media folder's files and gives the archive.

use vstd::prelude::*;
use vstd::string::StringExecFns;
use crate::errors::{CoreError, CoreResult};
use crate::domain::sound_event::{SpecSoundEvent, event_table, events_view, all_events};
use crate::archive::zipfile::{
    zip_listing, zip_member, zip_names, zip_read_member, ZipBuilder, written_entries, entry_names,
    distinct_names, holds_entries, zip_writer_new, zip_start_file, zip_write_all, zip_finish,
    appended, fits_in_archive, lemma_fits_shorter_last, lemma_fits_prefix, lemma_distinct_prefix_fresh,
};
use vstd::utf8::encode_utf8;

verus! {

broadcast use vstd::string::group_string_axioms;

pub const FILE_EXTENSION: &'static str = "ths";

/// A change to a file of the media folder.
#[derive(Debug)]
pub enum FileAction {
    /// Write `data` to the file `name`, replacing it.
    Write { name: String, data: Vec<u8> },
    /// Delete the file `name` if it exists.
    Remove { name: String },
}

pub enum SpecFileAction {
    Write(Seq<char>, Seq<u8>),
    Remove(Seq<char>),
}

impl View for FileAction {
    type V = SpecFileAction;

    open spec fn view(&self) -> SpecFileAction {
        match self {
            FileAction::Write { name, data } => SpecFileAction::Write(name@, data@),
            FileAction::Remove { name } => SpecFileAction::Remove(name@),
        }
    }
}

pub open spec fn actions_view(v: Seq<FileAction>) -> Seq<SpecFileAction> {
    v.map_values(|a: FileAction| a@)
}

/// The archive member of an event: `<internal name>.wav`.
pub open spec fn canonical_name(ev: SpecSoundEvent) -> Seq<char> {
    ev.name + ".wav"@
}

/// The member name of an event in the old format, when it has one.
pub open spec fn legacy_member(ev: SpecSoundEvent) -> Option<Seq<char>> {
    match ev.legacy {
        Some(l) => Some("Windows XP "@ + l + ".wav"@),
        None => None,
    }
}

/// Looking up the member `name`: its content, `None` when absent, or the
/// message `<name>: <read error>`.
pub open spec fn extract(bytes: Seq<u8>, name: Seq<char>) -> Result<Option<Seq<u8>>, Seq<char>> {
    match zip_member(bytes, name) {
        None => Ok(None),
        Some(Ok(d)) => Ok(Some(d)),
        Some(Err(m)) => Err(name + ": "@ + m),
    }
}

/// Looking up `first`, then `second` (if any) when `first` is absent.
pub open spec fn extract_either(bytes: Seq<u8>, first: Seq<char>, second: Option<Seq<char>>) -> Result<Option<Seq<u8>>, Seq<char>> {
    match extract(bytes, first) {
        Ok(None) => match second {
            Some(s) => extract(bytes, s),
            None => Ok(None),
        },
        other => other,
    }
}

/// What importing does for one event: write its sound found under the
/// canonical or the old name to `<internal name>.wav`, else delete that file.
pub open spec fn event_action(bytes: Seq<u8>, ev: SpecSoundEvent) -> Result<SpecFileAction, Seq<char>> {
    match extract_either(bytes, canonical_name(ev), legacy_member(ev)) {
        Ok(Some(d)) => Ok(SpecFileAction::Write(canonical_name(ev), d)),
        Ok(None) => Ok(SpecFileAction::Remove(canonical_name(ev))),
        Err(m) => Err(m),
    }
}

/// The actions for the first `k` events of the table; the first error stops.
pub open spec fn events_plan(bytes: Seq<u8>, k: int) -> Result<Seq<SpecFileAction>, Seq<char>>
    decreases k,
{
    if k <= 0 {
        Ok(seq![])
    } else {
        match events_plan(bytes, k - 1) {
            Err(m) => Err(m),
            Ok(p) => match event_action(bytes, event_table()[k - 1]) {
                Err(m) => Err(m),
                Ok(a) => Ok(p.push(a)),
            },
        }
    }
}

/// What importing does for a metadata file: write it from `name`, or from
/// `legacy` when `name` is absent; nothing when both are absent.
pub open spec fn meta_action(bytes: Seq<u8>, name: Seq<char>, legacy: Seq<char>) -> Result<Seq<SpecFileAction>, Seq<char>> {
    match extract_either(bytes, name, Some(legacy)) {
        Ok(Some(d)) => Ok(seq![SpecFileAction::Write(name, d)]),
        Ok(None) => Ok(seq![]),
        Err(m) => Err(m),
    }
}

/// The changes that importing the archive `bytes` makes to the media folder,
/// or the message of the zip error that stops it: every event in table
/// order, then `Scheme.png` (or `visuel.bmp`), then `Scheme.ini` (or
/// `infos.ini`).
pub open spec fn spec_import(bytes: Seq<u8>) -> Result<Seq<SpecFileAction>, Seq<char>> {
    match zip_listing(bytes) {
        Err(m) => Err(m),
        Ok(_) => match events_plan(bytes, event_table().len() as int) {
            Err(m) => Err(m),
            Ok(p) => match meta_action(bytes, "Scheme.png"@, "visuel.bmp"@) {
                Err(m) => Err(m),
                Ok(q) => match meta_action(bytes, "Scheme.ini"@, "infos.ini"@) {
                    Err(m) => Err(m),
                    Ok(r) => Ok(p + q + r),
                },
            },
        },
    }
}

proof fn lemma_plan_err_persists(bytes: Seq<u8>, k: int, j: int)
    requires
        0 <= k <= j,
        events_plan(bytes, k) is Err,
    ensures
        events_plan(bytes, j) == events_plan(bytes, k),
    decreases j - k,
{
    if j > k {
        lemma_plan_err_persists(bytes, k, j - 1);
    }
}

pub open spec fn lookup_view(r: Result<Option<Vec<u8>>, String>) -> Result<Option<Seq<u8>>, Seq<char>> {
    match r {
        Ok(Some(d)) => Ok(Some(d@)),
        Ok(None) => Ok(None),
        Err(m) => Err(m@),
    }
}

fn extract_exec(bytes: &[u8], name: &str) -> (r: Result<Option<Vec<u8>>, String>)
    ensures
        lookup_view(r) == extract(bytes@, name@),
{
    match zip_read_member(bytes, name) {
        None => Ok(None),
        Some(Ok(d)) => Ok(Some(d)),
        Some(Err(m)) => {
            let mut s = name.to_owned();
            s.append(": ");
            s.append(m.as_str());
            Err(s)
        },
    }
}

fn extract_either_exec(bytes: &[u8], first: &str, second: Option<&str>) -> (r: Result<Option<Vec<u8>>, String>)
    ensures
        lookup_view(r) == extract_either(bytes@, first@, match second {
            Some(s) => Some(s@),
            None => None,
        }),
{
    let r = extract_exec(bytes, first);
    match r {
        Ok(None) => match second {
            Some(s) => extract_exec(bytes, s),
            None => Ok(None),
        },
        other => other,
    }
}

fn meta_action_exec(bytes: &[u8], name: &str, legacy: &str, plan: &mut Vec<FileAction>) -> (r: Result<(), String>)
    ensures
        match meta_action(bytes@, name@, legacy@) {
            Ok(q) => r is Ok && actions_view(final(plan)@) == actions_view(old(plan)@) + q,
            Err(m) => r matches Err(e) && e@ == m,
        },
{
    match extract_either_exec(bytes, name, Some(legacy)) {
        Ok(Some(d)) => {
            let ghost prev = actions_view(plan@);
            plan.push(FileAction::Write { name: name.to_owned(), data: d });
            assert(actions_view(plan@) =~= prev + seq![SpecFileAction::Write(name@, d@)]);
            Ok(())
        },
        Ok(None) => {
            assert(actions_view(plan@) =~= actions_view(plan@) + Seq::<SpecFileAction>::empty());
            Ok(())
        },
        Err(m) => Err(m),
    }
}

/// Reads the archive `zip_bytes` and gives the changes that importing it
/// makes to the media folder (see `spec_import`); a zip error is
/// `CoreError::Zip`. The caller applies the changes, then reads the scheme
/// metadata back with `SchemeMeta::load`.
pub fn import(zip_bytes: &[u8]) -> (r: CoreResult<Vec<FileAction>>)
    ensures
        match spec_import(zip_bytes@) {
            Ok(p) => r matches Ok(v) && actions_view(v@) == p,
            Err(m) => r matches Err(CoreError::Zip(e)) && e@ == m,
        },
{
    match zip_names(zip_bytes) {
        Err(m) => return Err(CoreError::Zip(m)),
        Ok(_) => {},
    }
    let events = all_events();
    let mut plan: Vec<FileAction> = Vec::new();
    let mut k: usize = 0;
    assert(actions_view(plan@) =~= Seq::<SpecFileAction>::empty());
    while k < events.len()
        invariant
            events_view(events@) == event_table(),
            k <= events.len(),
            zip_listing(zip_bytes@) is Ok,
            events_plan(zip_bytes@, k as int) == Ok::<Seq<SpecFileAction>, Seq<char>>(actions_view(plan@)),
        decreases events.len() - k,
    {
        let ev = &events[k];
        assert(ev@ == event_table()[k as int]);
        let canonical = ev.file_name();
        let legacy: Option<String> = match ev.legacy_file_name {
            Some(_) => Some(ev.legacy_name()),
            None => None,
        };
        let found = match &legacy {
            Some(l) => extract_either_exec(zip_bytes, canonical.as_str(), Some(l.as_str())),
            None => extract_either_exec(zip_bytes, canonical.as_str(), None),
        };
        assert(lookup_view(found) == extract_either(zip_bytes@, canonical_name(event_table()[k as int]), legacy_member(event_table()[k as int])));
        let ghost prev = actions_view(plan@);
        match found {
            Err(m) => {
                proof {
                    assert(event_action(zip_bytes@, event_table()[k as int]) == Err::<SpecFileAction, Seq<char>>(m@));
                    assert(events_plan(zip_bytes@, k + 1) == Err::<Seq<SpecFileAction>, Seq<char>>(m@));
                    lemma_plan_err_persists(zip_bytes@, k + 1, event_table().len() as int);
                }
                return Err(CoreError::Zip(m));
            },
            Ok(Some(d)) => plan.push(FileAction::Write { name: canonical, data: d }),
            Ok(None) => plan.push(FileAction::Remove { name: canonical }),
        }
        assert(actions_view(plan@) =~= prev.push(plan@.last()@));
        k = k + 1;
    }
    match meta_action_exec(zip_bytes, "Scheme.png", "visuel.bmp", &mut plan) {
        Err(m) => return Err(CoreError::Zip(m)),
        Ok(()) => {},
    }
    match meta_action_exec(zip_bytes, "Scheme.ini", "infos.ini", &mut plan) {
        Err(m) => return Err(CoreError::Zip(m)),
        Ok(()) => {},
    }
    Ok(plan)
}

// ------------------------------------------------------------------ export

pub open spec fn opt_bytes(o: Option<&Vec<u8>>) -> Option<Seq<u8>> {
    match o {
        Some(d) => Some(d@),
        None => None,
    }
}

pub open spec fn files_view(v: Seq<Option<Vec<u8>>>) -> Seq<Option<Seq<u8>>> {
    v.map_values(|o: Option<Vec<u8>>| match o {
        Some(d) => Some(d@),
        None => None,
    })
}

/// The members for the first `k` events of the table whose file exists
/// (`files[i]` is the content of the i-th event's file, if any).
pub open spec fn event_entries(files: Seq<Option<Seq<u8>>>, k: int) -> Seq<(Seq<char>, Seq<u8>)>
    decreases k,
{
    if k <= 0 {
        seq![]
    } else {
        let prev = event_entries(files, k - 1);
        match files[k - 1] {
            Some(d) => prev.push((canonical_name(event_table()[k - 1]), d)),
            None => prev,
        }
    }
}

pub open spec fn opt_entry(name: Seq<char>, d: Option<Seq<u8>>) -> Seq<(Seq<char>, Seq<u8>)> {
    match d {
        Some(x) => seq![(name, x)],
        None => seq![],
    }
}

/// The members of the archive exported from a media folder: each event's
/// existing file as `<internal name>.wav`, in table order, then `Scheme.ini`
/// and `Scheme.png` when they exist.
pub open spec fn spec_export_entries(
    files: Seq<Option<Seq<u8>>>,
    info: Option<Seq<u8>>,
    image: Option<Seq<u8>>,
) -> Seq<(Seq<char>, Seq<u8>)> {
    event_entries(files, event_table().len() as int) + opt_entry("Scheme.ini"@, info) + opt_entry("Scheme.png"@, image)
}

proof fn lemma_push_distinct(e: Seq<(Seq<char>, Seq<u8>)>, n: Seq<char>, d: Seq<u8>)
    requires
        distinct_names(e),
        !entry_names(e).contains(n),
    ensures
        distinct_names(e.push((n, d))),
{
    let f = e.push((n, d));
    assert forall|i: int, j: int| 0 <= i < j < f.len() implies f[i].0 != f[j].0 by {
        if j == e.len() && f[i].0 == n {
            assert(entry_names(e)[i] == n);
        }
    }
}

/// Adds the member `name` with content `data`. A refused member is a
/// `Zip` error `<name>: <message>`, a failed write an `Io` error; a new name
/// that keeps the archive within its budget is always added.
fn add_entry(w: &mut ZipBuilder, name: &str, data: &[u8]) -> (r: CoreResult<()>)
    requires
        distinct_names(written_entries(*old(w))),
    ensures
        r is Ok ==> written_entries(*final(w)) == written_entries(*old(w)).push((name@, data@)),
        r is Ok ==> distinct_names(written_entries(*final(w))),
        r matches Err(e) ==> e is Zip || e is Io,
        !entry_names(written_entries(*old(w))).contains(name@)
            && fits_in_archive(written_entries(*old(w)).push((name@, data@))) ==> r is Ok,
{
    if name.as_bytes().len() > 65535 {
        proof {
            if fits_in_archive(written_entries(*old(w)).push((name@, data@))) {
                let e = written_entries(*old(w)).push((name@, data@));
                assert(encode_utf8(e[e.len() - 1].0).len() <= 65535);
            }
        }
        let mut s = name.to_owned();
        s.append(": file name too long for a zip header");
        return Err(CoreError::Zip(s));
    }
    proof {
        if fits_in_archive(written_entries(*old(w)).push((name@, data@))) {
            lemma_fits_shorter_last(written_entries(*old(w)), name@, data@, Seq::<u8>::empty());
        }
    }
    match zip_start_file(w, name) {
        Err(m) => {
            let mut s = name.to_owned();
            s.append(": ");
            s.append(m.as_str());
            return Err(CoreError::Zip(s));
        },
        Ok(()) => {},
    }
    assert(Seq::<u8>::empty() + data@ =~= data@);
    assert(appended(written_entries(*w), data@) =~= written_entries(*old(w)).push((name@, data@)));
    match zip_write_all(w, data) {
        Err(m) => Err(CoreError::Io(m)),
        Ok(()) => {
            proof {
                lemma_push_distinct(written_entries(*old(w)), name@, data@);
            }
            Ok(())
        },
    }
}

/// The members for the first `k` events are those for the first `j`, cut
/// short.
proof fn lemma_event_entries_prefix(files: Seq<Option<Seq<u8>>>, k: int, j: int)
    requires
        0 <= k <= j,
    ensures
        event_entries(files, k).len() <= event_entries(files, j).len(),
        event_entries(files, j).subrange(0, event_entries(files, k).len() as int) == event_entries(files, k),
    decreases j - k,
{
    if k < j {
        lemma_event_entries_prefix(files, k, j - 1);
        let a = event_entries(files, k);
        let b = event_entries(files, j - 1);
        let c = event_entries(files, j);
        assert(c.subrange(0, a.len() as int) =~= b.subrange(0, a.len() as int));
    } else {
        assert(event_entries(files, j).subrange(0, event_entries(files, j).len() as int) =~= event_entries(files, j));
    }
}

/// No two event members share a name: the internal names are distinct.
proof fn lemma_event_entries_distinct(files: Seq<Option<Seq<u8>>>, k: int)
    requires
        0 <= k <= files.len(),
        k <= event_table().len(),
    ensures
        distinct_names(event_entries(files, k)),
    decreases k,
{
    if k > 0 {
        lemma_event_entries_distinct(files, k - 1);
        let prev = event_entries(files, k - 1);
        if files[k - 1] is Some {
            let n = canonical_name(event_table()[k - 1]);
            if entry_names(prev).contains(n) {
                let i = choose|i: int| 0 <= i < entry_names(prev).len() && entry_names(prev)[i] == n;
                lemma_event_entries_origin(files, k - 1);
                assert(prev[i].0 == n);
                let j = choose|j: int| 0 <= j < k - 1 && #[trigger] files[j] == Some(prev[i].1)
                    && prev[i].0 == canonical_name(event_table()[j]);
                lemma_canonical_injective(event_table()[j], event_table()[k - 1]);
                crate::domain::sound_event::law_event_names_unique();
            }
            lemma_push_distinct(prev, n, files[k - 1]->0);
        }
    }
}

/// A name that does not end in `v` is no event member's.
proof fn lemma_not_event_member(files: Seq<Option<Seq<u8>>>, n: Seq<char>)
    requires
        files.len() == event_table().len(),
        n.len() > 0,
        n.last() != 'v',
    ensures
        !entry_names(event_entries(files, event_table().len() as int)).contains(n),
{
    let k = event_table().len() as int;
    let ev = event_entries(files, k);
    if entry_names(ev).contains(n) {
        let i = choose|i: int| 0 <= i < entry_names(ev).len() && entry_names(ev)[i] == n;
        lemma_event_entries_origin(files, k);
        assert(ev[i].0 == n);
        let j = choose|j: int| 0 <= j < k && #[trigger] files[j] == Some(ev[i].1) && ev[i].0 == canonical_name(event_table()[j]);
        crate::domain::sound_event::lemma_event_names_letters();
        lemma_canonical_shape(event_table()[j]);
    }
}

/// The members of an exported archive have distinct names.
proof fn lemma_export_distinct(files: Seq<Option<Seq<u8>>>, info: Option<Seq<u8>>, image: Option<Seq<u8>>)
    requires
        files.len() == event_table().len(),
    ensures
        distinct_names(spec_export_entries(files, info, image)),
{
    reveal_strlit("Scheme.ini");
    reveal_strlit("Scheme.png");
    let k = event_table().len() as int;
    let ev = event_entries(files, k);
    lemma_event_entries_distinct(files, k);
    assert("Scheme.ini"@.last() == 'i');
    assert("Scheme.png"@.last() == 'g');
    lemma_not_event_member(files, "Scheme.ini"@);
    lemma_not_event_member(files, "Scheme.png"@);
    let oi = opt_entry("Scheme.ini"@, info);
    let with_info = ev + oi;
    match info {
        Some(d) => {
            assert(with_info =~= ev.push(("Scheme.ini"@, d)));
            lemma_push_distinct(ev, "Scheme.ini"@, d);
        },
        None => {
            assert(with_info =~= ev);
        },
    }
    match image {
        Some(d) => {
            assert(spec_export_entries(files, info, image) =~= with_info.push(("Scheme.png"@, d)));
            if entry_names(with_info).contains("Scheme.png"@) {
                let i = choose|i: int| 0 <= i < entry_names(with_info).len() && entry_names(with_info)[i] == "Scheme.png"@;
                if i < ev.len() {
                    assert(entry_names(ev)[i] == with_info[i].0);
                } else {
                    assert(with_info[i].0 == "Scheme.ini"@);
                    assert("Scheme.ini"@[7] != "Scheme.png"@[7]);
                }
            }
            lemma_push_distinct(with_info, "Scheme.png"@, d);
        },
        None => {
            assert(spec_export_entries(files, info, image) =~= with_info);
        },
    }
}

/// Builds the archive of a media folder: `event_files[i]` is the content of
/// the i-th event's file when it exists, `info` and `image` those of
/// `Scheme.ini` and `Scheme.png`. The archive reads back as
/// `spec_export_entries`; a failure of the zip writer is a `Zip` or `Io`
/// error. The caller reads the files and writes the archive.
pub fn export(event_files: &Vec<Option<Vec<u8>>>, info: Option<&Vec<u8>>, image: Option<&Vec<u8>>) -> (r: CoreResult<Vec<u8>>)
    requires
        event_files.len() == event_table().len(),
    ensures
        r matches Ok(b) ==> holds_entries(
            b@,
            spec_export_entries(files_view(event_files@), opt_bytes(info), opt_bytes(image)),
        ),
        r matches Err(e) ==> e is Zip || e is Io,
        fits_in_archive(spec_export_entries(files_view(event_files@), opt_bytes(info), opt_bytes(image))) ==> r is Ok,
{
    let events = all_events();
    let mut w = zip_writer_new();
    let ghost files = files_view(event_files@);
    let ghost full = spec_export_entries(files, opt_bytes(info), opt_bytes(image));
    let ghost ev_all = event_entries(files, event_table().len() as int);
    proof {
        lemma_export_distinct(files, opt_bytes(info), opt_bytes(image));
    }
    let mut k: usize = 0;
    while k < events.len()
        invariant
            events_view(events@) == event_table(),
            event_files.len() == events.len(),
            files == files_view(event_files@),
            k <= events.len(),
            written_entries(w) == event_entries(files, k as int),
            distinct_names(written_entries(w)),
            full == spec_export_entries(files, opt_bytes(info), opt_bytes(image)),
            ev_all == event_entries(files, event_table().len() as int),
            distinct_names(full),
        decreases events.len() - k,
    {
        assert(events@[k as int]@ == event_table()[k as int]);
        match &event_files[k] {
            Some(d) => {
                let name = events[k].file_name();
                proof {
                    let len = written_entries(w).len() as int;
                    let next = event_entries(files, k + 1);
                    assert(next == written_entries(w).push((name@, d@)));
                    lemma_event_entries_prefix(files, k + 1, event_table().len() as int);
                    assert(full =~= ev_all + (opt_entry("Scheme.ini"@, opt_bytes(info)) + opt_entry("Scheme.png"@, opt_bytes(image))));
                    assert(full.subrange(0, len + 1) =~= ev_all.subrange(0, len + 1));
                    assert(ev_all.subrange(0, len + 1)[len] == ev_all[len]);
                    assert(full.subrange(0, len) =~= written_entries(w));
                    assert(full[len] == (name@, d@));
                    lemma_distinct_prefix_fresh(full, len);
                    if fits_in_archive(full) {
                        lemma_fits_prefix(full, len + 1);
                    }
                }
                add_entry(&mut w, name.as_str(), d.as_slice())?;
            },
            None => {},
        }
        k = k + 1;
    }
    let ghost ev_entries = written_entries(w);
    let ghost oi = opt_entry("Scheme.ini"@, opt_bytes(info));
    let ghost oj = opt_entry("Scheme.png"@, opt_bytes(image));
    assert(full =~= ev_entries + oi + oj);
    match info {
        Some(d) => {
            proof {
                let len = ev_entries.len() as int;
                assert(full.subrange(0, len) =~= ev_entries);
                assert(full[len] == ("Scheme.ini"@, d@));
                assert(full.subrange(0, len + 1) =~= ev_entries.push(("Scheme.ini"@, d@)));
                lemma_distinct_prefix_fresh(full, len);
                if fits_in_archive(full) {
                    lemma_fits_prefix(full, len + 1);
                }
            }
            add_entry(&mut w, "Scheme.ini", d.as_slice())?
        },
        None => {},
    }
    assert(written_entries(w) =~= ev_entries + oi);
    let ghost with_info = written_entries(w);
    match image {
        Some(d) => {
            proof {
                let len = with_info.len() as int;
                assert(full.subrange(0, len) =~= with_info);
                assert(full[len] == ("Scheme.png"@, d@));
                assert(with_info.push(("Scheme.png"@, d@)) =~= full);
                lemma_distinct_prefix_fresh(full, len);
            }
            add_entry(&mut w, "Scheme.png", d.as_slice())?
        },
        None => {},
    }
    assert(written_entries(w) =~= with_info + oj);
    match zip_finish(w) {
        Ok(b) => Ok(b),
        Err(m) => Err(CoreError::Zip(m)),
    }
}

// ------------------------------------------------------------------ round trip

/// The change that restores one event's file: write its content back, or
/// delete the file when there was none.
pub open spec fn restore_action(ev: SpecSoundEvent, f: Option<Seq<u8>>) -> SpecFileAction {
    match f {
        Some(d) => SpecFileAction::Write(canonical_name(ev), d),
        None => SpecFileAction::Remove(canonical_name(ev)),
    }
}

pub open spec fn restore_events(files: Seq<Option<Seq<u8>>>, k: int) -> Seq<SpecFileAction>
    decreases k,
{
    if k <= 0 {
        seq![]
    } else {
        restore_events(files, k - 1).push(restore_action(event_table()[k - 1], files[k - 1]))
    }
}

pub open spec fn opt_write(name: Seq<char>, d: Option<Seq<u8>>) -> Seq<SpecFileAction> {
    match d {
        Some(x) => seq![SpecFileAction::Write(name, x)],
        None => seq![],
    }
}

/// The changes that put a media folder back as it was exported.
pub open spec fn restore_plan(files: Seq<Option<Seq<u8>>>, info: Option<Seq<u8>>, image: Option<Seq<u8>>) -> Seq<SpecFileAction> {
    restore_events(files, event_table().len() as int) + opt_write("Scheme.png"@, image) + opt_write("Scheme.ini"@, info)
}

/// Every member of `event_entries(files, k)` is the file of one of the first
/// `k` events.
proof fn lemma_event_entries_origin(files: Seq<Option<Seq<u8>>>, k: int)
    requires
        0 <= k <= files.len(),
        k <= event_table().len(),
    ensures
        forall|i: int| #![trigger event_entries(files, k)[i]] 0 <= i < event_entries(files, k).len() ==> exists|j: int|
            0 <= j < k && #[trigger] files[j] == Some(event_entries(files, k)[i].1)
                && event_entries(files, k)[i].0 == canonical_name(event_table()[j]),
    decreases k,
{
    if k > 0 {
        lemma_event_entries_origin(files, k - 1);
        let prev = event_entries(files, k - 1);
        let cur = event_entries(files, k);
        assert forall|i: int| #![trigger cur[i]] 0 <= i < cur.len() implies exists|j: int|
            0 <= j < k && #[trigger] files[j] == Some(cur[i].1) && cur[i].0 == canonical_name(event_table()[j]) by {
            if i < prev.len() {
                assert(cur[i] == prev[i]);
                let j = choose|j: int| 0 <= j < k - 1 && #[trigger] files[j] == Some(prev[i].1)
                    && prev[i].0 == canonical_name(event_table()[j]);
                assert(files[j] == Some(cur[i].1));
            } else {
                assert(files[k - 1] == Some(cur[i].1));
            }
        }
    }
}

/// The file of each of the first `k` events that exists is a member of
/// `event_entries(files, k)`.
proof fn lemma_event_entries_has(files: Seq<Option<Seq<u8>>>, k: int, j: int)
    requires
        0 <= j < k <= files.len(),
        files[j] is Some,
    ensures
        exists|i: int| 0 <= i < event_entries(files, k).len()
            && #[trigger] event_entries(files, k)[i] == (canonical_name(event_table()[j]), files[j]->0),
    decreases k,
{
    let cur = event_entries(files, k);
    if j < k - 1 {
        lemma_event_entries_has(files, k - 1, j);
        let prev = event_entries(files, k - 1);
        let i = choose|i: int| 0 <= i < prev.len() && #[trigger] prev[i] == (canonical_name(event_table()[j]), files[j]->0);
        assert(cur[i] == prev[i]);
    } else {
        assert(cur[cur.len() - 1] == (canonical_name(event_table()[j]), files[j]->0));
    }
}

pub open spec fn space_at_7(s: Seq<char>) -> bool {
    s.len() > 7 && s[7] == ' '
}

proof fn lemma_canonical_shape(ev: SpecSoundEvent)
    requires
        ev.name.len() > 0,
        crate::domain::sound_event::all_letters(ev.name),
    ensures
        !space_at_7(canonical_name(ev)),
        canonical_name(ev).len() == ev.name.len() + 4,
        canonical_name(ev).last() == 'v',
{
    reveal_strlit(".wav");
    let c = canonical_name(ev);
    if c.len() > 7 {
        if ev.name.len() > 7 {
            assert(c[7] == ev.name[7]);
        } else {
            assert(c[7] == ".wav"@[7 - ev.name.len()]);
        }
    }
    assert(c.last() == ".wav"@[3]);
}

proof fn lemma_canonical_injective(a: SpecSoundEvent, b: SpecSoundEvent)
    requires
        canonical_name(a) == canonical_name(b),
    ensures
        a.name == b.name,
{
    reveal_strlit(".wav");
    assert(".wav"@.len() == 4);
    assert(canonical_name(a).len() == a.name.len() + 4);
    assert(canonical_name(b).len() == b.name.len() + 4);
    assert(a.name =~= canonical_name(a).subrange(0, a.name.len() as int));
    assert(b.name =~= canonical_name(b).subrange(0, b.name.len() as int));
}

/// What a member name of an exported archive can be.
proof fn lemma_export_names(files: Seq<Option<Seq<u8>>>, info: Option<Seq<u8>>, image: Option<Seq<u8>>, n: Seq<char>)
    requires
        files.len() == event_table().len(),
        entry_names(spec_export_entries(files, info, image)).contains(n),
    ensures
        (exists|j: int| 0 <= j < files.len() && #[trigger] files[j] is Some && n == canonical_name(event_table()[j]))
            || (info is Some && n == "Scheme.ini"@)
            || (image is Some && n == "Scheme.png"@),
{
    let k = event_table().len() as int;
    let ev = event_entries(files, k);
    let e = spec_export_entries(files, info, image);
    let i = choose|i: int| 0 <= i < entry_names(e).len() && entry_names(e)[i] == n;
    assert(e[i].0 == n);
    if i < ev.len() {
        lemma_event_entries_origin(files, k);
        assert(e[i] == ev[i]);
        let j = choose|j: int| 0 <= j < k && #[trigger] files[j] == Some(ev[i].1) && ev[i].0 == canonical_name(event_table()[j]);
        assert(files[j] is Some);
    } else {
        let rest = opt_entry("Scheme.ini"@, info) + opt_entry("Scheme.png"@, image);
        assert(e =~= ev + rest);
        assert(e[i] == rest[i - ev.len()]);
    }
}

/// No member of an exported archive has the shape of an old-format sound
/// name, nor ends like the given literal names.
proof fn lemma_export_name_shapes(files: Seq<Option<Seq<u8>>>, info: Option<Seq<u8>>, image: Option<Seq<u8>>, n: Seq<char>)
    requires
        files.len() == event_table().len(),
        entry_names(spec_export_entries(files, info, image)).contains(n),
    ensures
        !space_at_7(n),
        n.len() > 0,
        n.last() == 'v' || n == "Scheme.ini"@ || n == "Scheme.png"@,
        n == "Scheme.ini"@ ==> info is Some,
        n == "Scheme.png"@ ==> image is Some,
{
    reveal_strlit("Scheme.ini");
    reveal_strlit("Scheme.png");
    lemma_export_names(files, info, image, n);
    crate::domain::sound_event::lemma_event_names_letters();
    if exists|j: int| 0 <= j < files.len() && #[trigger] files[j] is Some && n == canonical_name(event_table()[j]) {
        let j = choose|j: int| 0 <= j < files.len() && #[trigger] files[j] is Some && n == canonical_name(event_table()[j]);
        lemma_canonical_shape(event_table()[j]);
        assert(n != "Scheme.ini"@ && n != "Scheme.png"@) by {
            assert("Scheme.ini"@.last() == 'i');
            assert("Scheme.png"@.last() == 'g');
        }
    } else {
        assert("Scheme.ini"@[7] == 'i');
        assert("Scheme.png"@[7] == 'p');
    }
}

proof fn lemma_event_roundtrip(files: Seq<Option<Seq<u8>>>, info: Option<Seq<u8>>, image: Option<Seq<u8>>, bytes: Seq<u8>, j: int)
    requires
        files.len() == event_table().len(),
        0 <= j < files.len(),
        holds_entries(bytes, spec_export_entries(files, info, image)),
    ensures
        event_action(bytes, event_table()[j]) == Ok::<SpecFileAction, Seq<char>>(restore_action(event_table()[j], files[j])),
{
    let k = event_table().len() as int;
    let e = spec_export_entries(files, info, image);
    let evt = event_table()[j];
    let c = canonical_name(evt);
    crate::domain::sound_event::lemma_event_names_letters();
    crate::domain::sound_event::law_event_names_unique();
    lemma_canonical_shape(evt);
    match files[j] {
        Some(d) => {
            lemma_event_entries_has(files, k, j);
            let i = choose|i: int| 0 <= i < event_entries(files, k).len()
                && #[trigger] event_entries(files, k)[i] == (c, d);
            assert(e[i] == event_entries(files, k)[i]);
            assert(zip_member(bytes, e[i].0) == Some(Ok::<Seq<u8>, Seq<char>>(e[i].1)));
        },
        None => {
            if entry_names(e).contains(c) {
                lemma_export_names(files, info, image, c);
                lemma_export_name_shapes(files, info, image, c);
                if exists|j2: int| 0 <= j2 < files.len() && #[trigger] files[j2] is Some && c == canonical_name(event_table()[j2]) {
                    let j2 = choose|j2: int| 0 <= j2 < files.len() && #[trigger] files[j2] is Some && c == canonical_name(event_table()[j2]);
                    lemma_canonical_injective(evt, event_table()[j2]);
                    assert(false);
                } else {
                    reveal_strlit("Scheme.ini");
                    reveal_strlit("Scheme.png");
                    assert("Scheme.ini"@.last() == 'i');
                    assert("Scheme.png"@.last() == 'g');
                    assert(false);
                }
            }
            assert(zip_member(bytes, c) is None);
            match legacy_member(evt) {
                Some(l) => {
                    reveal_strlit("Windows XP ");
                    assert(l[7] == "Windows XP "@[7]);
                    if entry_names(e).contains(l) {
                        lemma_export_name_shapes(files, info, image, l);
                        assert(false);
                    }
                    assert(zip_member(bytes, l) is None);
                },
                None => {},
            }
        },
    }
}

proof fn lemma_events_roundtrip(files: Seq<Option<Seq<u8>>>, info: Option<Seq<u8>>, image: Option<Seq<u8>>, bytes: Seq<u8>, k: int)
    requires
        files.len() == event_table().len(),
        0 <= k <= files.len(),
        holds_entries(bytes, spec_export_entries(files, info, image)),
    ensures
        events_plan(bytes, k) == Ok::<Seq<SpecFileAction>, Seq<char>>(restore_events(files, k)),
    decreases k,
{
    if k > 0 {
        lemma_events_roundtrip(files, info, image, bytes, k - 1);
        lemma_event_roundtrip(files, info, image, bytes, k - 1);
    }
}

proof fn lemma_meta_roundtrip(
    files: Seq<Option<Seq<u8>>>,
    info: Option<Seq<u8>>,
    image: Option<Seq<u8>>,
    bytes: Seq<u8>,
    name: Seq<char>,
    legacy: Seq<char>,
    d: Option<Seq<u8>>,
)
    requires
        files.len() == event_table().len(),
        holds_entries(bytes, spec_export_entries(files, info, image)),
        (name == "Scheme.png"@ && legacy == "visuel.bmp"@ && d == image)
            || (name == "Scheme.ini"@ && legacy == "infos.ini"@ && d == info),
    ensures
        meta_action(bytes, name, legacy) == Ok::<Seq<SpecFileAction>, Seq<char>>(opt_write(name, d)),
{
    reveal_strlit("Scheme.ini");
    reveal_strlit("Scheme.png");
    reveal_strlit("visuel.bmp");
    reveal_strlit("infos.ini");
    assert("Scheme.ini"@[7] != "Scheme.png"@[7]);
    let k = event_table().len() as int;
    let ev = event_entries(files, k);
    let e = spec_export_entries(files, info, image);
    match d {
        Some(x) => {
            let oi = opt_entry("Scheme.ini"@, info);
            let oj = opt_entry("Scheme.png"@, image);
            assert(e == ev + oi + oj);
            let i = if name == "Scheme.ini"@ {
                ev.len() as int
            } else {
                (ev.len() + oi.len()) as int
            };
            if name == "Scheme.ini"@ {
                assert(info == Some(x));
                assert((ev + oi)[i] == oi[0]);
            } else {
                assert(name != "Scheme.ini"@);
                assert(image == Some(x));
            }
            assert(e[i] == (name, x));
            assert(zip_member(bytes, e[i].0) == Some(Ok::<Seq<u8>, Seq<char>>(e[i].1)));
        },
        None => {
            if entry_names(e).contains(name) {
                lemma_export_name_shapes(files, info, image, name);
                assert(name[7] != "Scheme.png"@[7] || name[7] != "Scheme.ini"@[7]);
                assert(false);
            }
            assert(zip_member(bytes, name) is None);
            if entry_names(e).contains(legacy) {
                lemma_export_name_shapes(files, info, image, legacy);
                assert(false);
            }
            assert(zip_member(bytes, legacy) is None);
        },
    }
}

/// Importing an archive made by `export` puts the media folder back as it
/// was: each event's file is written back with its content, or deleted when
/// there was none, and `Scheme.png` and `Scheme.ini` are written back when
/// they existed.
pub proof fn law_export_then_import(
    files: Seq<Option<Seq<u8>>>,
    info: Option<Seq<u8>>,
    image: Option<Seq<u8>>,
    bytes: Seq<u8>,
)
    requires
        files.len() == event_table().len(),
        holds_entries(bytes, spec_export_entries(files, info, image)),
    ensures
        spec_import(bytes) == Ok::<Seq<SpecFileAction>, Seq<char>>(restore_plan(files, info, image)),
{
    lemma_events_roundtrip(files, info, image, bytes, files.len() as int);
    lemma_meta_roundtrip(files, info, image, bytes, "Scheme.png"@, "visuel.bmp"@, image);
    lemma_meta_roundtrip(files, info, image, bytes, "Scheme.ini"@, "infos.ini"@, info);
}

/// Importing an archive writes an event's sound from its member
/// `<internal name>.wav` when the archive holds one, whatever else it holds.
pub proof fn law_import_reads_event_member(bytes: Seq<u8>, e: Seq<(Seq<char>, Seq<u8>)>, i: int, ev: SpecSoundEvent)
    requires
        holds_entries(bytes, e),
        0 <= i < e.len(),
        e[i].0 == canonical_name(ev),
    ensures
        event_action(bytes, ev) == Ok::<SpecFileAction, Seq<char>>(SpecFileAction::Write(canonical_name(ev), e[i].1)),
{
    assert(zip_member(bytes, e[i].0) == Some(Ok::<Seq<u8>, Seq<char>>(e[i].1)));
}

} // verus!
