//! Per-user file association of `.ths` and `.soundpack` files
//! (`HKCU\Software\Classes`, no administrator rights needed). The registry
//! calls and the shell notification are made by the caller.

use vstd::prelude::*;
use vstd::string::StringExecFns;
use crate::text::str_eq;
use vstd::map::*;

verus! {

broadcast use vstd::string::group_string_axioms;

pub const THS_EXT: &'static str = "ths";
pub const SOUNDPACK_EXT: &'static str = "soundpack";

/// The programmatic identifier registered for `ext`: `SoundManager.<ext>`.
pub open spec fn spec_prog_id(ext: Seq<char>) -> Seq<char> {
    "SoundManager."@ + ext
}

/// The key of the extension: `Software\Classes\.<ext>`.
pub open spec fn spec_ext_key(ext: Seq<char>) -> Seq<char> {
    "Software\\Classes\\."@ + ext
}

/// The key of the programmatic identifier: `Software\Classes\<prog id>`.
pub open spec fn spec_prog_key(ext: Seq<char>) -> Seq<char> {
    "Software\\Classes\\"@ + spec_prog_id(ext)
}

/// The key of the open command: `<prog key>\shell\open\command`.
pub open spec fn spec_command_key(ext: Seq<char>) -> Seq<char> {
    spec_prog_key(ext) + "\\shell\\open\\command"@
}

/// The open command for the program `exe`: `"<exe>" "%1"`.
pub open spec fn spec_open_command(exe: Seq<char>) -> Seq<char> {
    "\""@ + exe + "\" \"%1\""@
}

/// The description of the file type: `Sound Manager <ext> file`.
pub open spec fn spec_type_description(ext: Seq<char>) -> Seq<char> {
    "Sound Manager "@ + ext + " file"@
}

fn concat(a: &str, b: &str) -> (r: String)
    ensures
        r@ == a@ + b@,
{
    let mut r = a.to_owned();
    r.append(b);
    r
}

fn concat3(a: &str, b: &str, c: &str) -> (r: String)
    ensures
        r@ == a@ + b@ + c@,
{
    let mut r = a.to_owned();
    r.append(b);
    r.append(c);
    r
}

pub fn prog_id(ext: &str) -> (r: String)
    ensures
        r@ == spec_prog_id(ext@),
{
    concat("SoundManager.", ext)
}

pub fn ext_key(ext: &str) -> (r: String)
    ensures
        r@ == spec_ext_key(ext@),
{
    concat("Software\\Classes\\.", ext)
}

pub fn prog_key(ext: &str) -> (r: String)
    ensures
        r@ == spec_prog_key(ext@),
{
    let p = prog_id(ext);
    let r = concat("Software\\Classes\\", p.as_str());
    assert(r@ =~= spec_prog_key(ext@));
    r
}

pub fn command_key(ext: &str) -> (r: String)
    ensures
        r@ == spec_command_key(ext@),
{
    let p = prog_key(ext);
    concat(p.as_str(), "\\shell\\open\\command")
}

pub fn open_command(exe: &str) -> (r: String)
    ensures
        r@ == spec_open_command(exe@),
{
    concat3("\"", exe, "\" \"%1\"")
}

/// What the registry holds for one extension: the default values of its
/// key and of its open command key (`None` when missing or unreadable).
pub struct AssocState {
    pub current_prog_id: Option<String>,
    pub current_command: Option<String>,
}

pub open spec fn or_empty(o: Option<Seq<char>>) -> Seq<char> {
    match o {
        Some(s) => s,
        None => seq![],
    }
}

pub open spec fn opt_view(o: Option<String>) -> Option<Seq<char>> {
    match o {
        Some(s) => Some(s@),
        None => None,
    }
}

/// `ext` is associated with the program `exe`, given the default values of
/// the extension key and of the open command key: the first names our
/// programmatic identifier and the second runs `exe` (a missing value reads
/// as empty).
pub open spec fn spec_is_associated(ext: Seq<char>, prog: Option<Seq<char>>, command: Option<Seq<char>>, exe: Seq<char>) -> bool {
    or_empty(prog) == spec_prog_id(ext) && or_empty(command) == spec_open_command(exe)
}

pub open spec fn state_associated(ext: Seq<char>, st: AssocState, exe: Seq<char>) -> bool {
    spec_is_associated(ext, opt_view(st.current_prog_id), opt_view(st.current_command), exe)
}

fn or_empty_exec(o: &Option<String>) -> (r: &str)
    ensures
        r@ == or_empty(opt_view(*o)),
{
    match o {
        Some(s) => s.as_str(),
        None => {
            proof {
                reveal_strlit("");
            }
            ""
        },
    }
}

/// Whether `ext` is associated with `exe` (see `spec_is_associated`).
pub fn is_associated(ext: &str, st: &AssocState, exe: &str) -> (r: bool)
    ensures
        r == state_associated(ext@, *st, exe@),
{
    let prog = prog_id(ext);
    if !str_eq(or_empty_exec(&st.current_prog_id), prog.as_str()) {
        return false;
    }
    let expected = open_command(exe);
    str_eq(or_empty_exec(&st.current_command), expected.as_str())
}

/// Both `.ths` and `.soundpack` are associated with `exe`.
pub fn is_all_associated(ths: &AssocState, soundpack: &AssocState, exe: &str) -> (r: bool)
    ensures
        r == (state_associated(THS_EXT@, *ths, exe@) && state_associated(SOUNDPACK_EXT@, *soundpack, exe@)),
{
    is_associated(THS_EXT, ths, exe) && is_associated(SOUNDPACK_EXT, soundpack, exe)
}

/// A change to the per-user registry or the shell.
#[derive(Debug)]
pub enum AssocOp {
    /// Create `key` and set its default value; a failure stops the change.
    SetDefault { key: String, value: String },
    /// Delete `key` with its subkeys; a failure is ignored.
    DeleteTree { key: String },
    /// Tell the shell that associations changed (`SHChangeNotify`).
    NotifyShell,
}

pub enum SpecAssocOp {
    SetDefault(Seq<char>, Seq<char>),
    DeleteTree(Seq<char>),
    NotifyShell,
}

impl View for AssocOp {
    type V = SpecAssocOp;

    open spec fn view(&self) -> SpecAssocOp {
        match self {
            AssocOp::SetDefault { key, value } => SpecAssocOp::SetDefault(key@, value@),
            AssocOp::DeleteTree { key } => SpecAssocOp::DeleteTree(key@),
            AssocOp::NotifyShell => SpecAssocOp::NotifyShell,
        }
    }
}

pub open spec fn ops_view(v: Seq<AssocOp>) -> Seq<SpecAssocOp> {
    v.map_values(|o: AssocOp| o@)
}

/// The changes that associate `ext` with `exe` (extension key, open command,
/// type description) or remove the association (both keys), then notify
/// the shell.
pub open spec fn spec_set_associated(ext: Seq<char>, associated: bool, exe: Seq<char>) -> Seq<SpecAssocOp> {
    if associated {
        seq![
            SpecAssocOp::SetDefault(spec_ext_key(ext), spec_prog_id(ext)),
            SpecAssocOp::SetDefault(spec_command_key(ext), spec_open_command(exe)),
            SpecAssocOp::SetDefault(spec_prog_key(ext), spec_type_description(ext)),
            SpecAssocOp::NotifyShell,
        ]
    } else {
        seq![SpecAssocOp::DeleteTree(spec_ext_key(ext)), SpecAssocOp::DeleteTree(spec_prog_key(ext)), SpecAssocOp::NotifyShell]
    }
}

/// The changes for one extension (see `spec_set_associated`).
pub fn set_associated(ext: &str, associated: bool, exe: &str) -> (r: Vec<AssocOp>)
    ensures
        ops_view(r@) == spec_set_associated(ext@, associated, exe@),
{
    let mut v: Vec<AssocOp> = Vec::new();
    if associated {
        v.push(AssocOp::SetDefault { key: ext_key(ext), value: prog_id(ext) });
        v.push(AssocOp::SetDefault { key: command_key(ext), value: open_command(exe) });
        v.push(AssocOp::SetDefault { key: prog_key(ext), value: concat3("Sound Manager ", ext, " file") });
    } else {
        v.push(AssocOp::DeleteTree { key: ext_key(ext) });
        v.push(AssocOp::DeleteTree { key: prog_key(ext) });
    }
    v.push(AssocOp::NotifyShell);
    assert(ops_view(v@) =~= spec_set_associated(ext@, associated, exe@));
    v
}

/// The changes for `.ths`, then for `.soundpack`.
pub fn set_all_associated(associated: bool, exe: &str) -> (r: Vec<AssocOp>)
    ensures
        ops_view(r@) == spec_set_associated(THS_EXT@, associated, exe@) + spec_set_associated(SOUNDPACK_EXT@, associated, exe@),
{
    let mut a = set_associated(THS_EXT, associated, exe);
    let mut b = set_associated(SOUNDPACK_EXT, associated, exe);
    let ghost va = ops_view(a@);
    let ghost vb = ops_view(b@);
    a.append(&mut b);
    assert(ops_view(a@) =~= va + vb);
    a
}

/// The default values of the per-user registry keys, by key path.
pub type RegModel = Map<Seq<char>, Seq<char>>;

/// `x` is the key `k` or one of its subkeys.
pub open spec fn is_under(x: Seq<char>, k: Seq<char>) -> bool {
    x == k || (x.len() > k.len() && x.subrange(0, k.len() as int) == k && x[k.len() as int] == '\\')
}

/// The registry after one change.
pub open spec fn apply_op(m: RegModel, op: SpecAssocOp) -> RegModel {
    match op {
        SpecAssocOp::SetDefault(k, v) => m.insert(k, v),
        SpecAssocOp::DeleteTree(k) => m.restrict(m.dom().filter(|x: Seq<char>| !is_under(x, k))),
        SpecAssocOp::NotifyShell => m,
    }
}

/// The registry after the changes `ops`, in order.
pub open spec fn apply_ops(m: RegModel, ops: Seq<SpecAssocOp>) -> RegModel
    decreases ops.len(),
{
    if ops.len() == 0 {
        m
    } else {
        apply_op(apply_ops(m, ops.drop_last()), ops.last())
    }
}

pub open spec fn read_default(m: RegModel, k: Seq<char>) -> Option<Seq<char>> {
    if m.dom().contains(k) {
        Some(m[k])
    } else {
        None
    }
}

/// Whether the registry `m` associates `ext` with `exe`.
pub open spec fn associated_in(m: RegModel, ext: Seq<char>, exe: Seq<char>) -> bool {
    spec_is_associated(ext, read_default(m, spec_ext_key(ext)), read_default(m, spec_command_key(ext)), exe)
}

proof fn lemma_keys_differ(ext: Seq<char>)
    ensures
        spec_ext_key(ext) != spec_prog_key(ext),
        spec_ext_key(ext) != spec_command_key(ext),
        spec_command_key(ext) != spec_prog_key(ext),
{
    reveal_strlit("Software\\Classes\\.");
    reveal_strlit("Software\\Classes\\");
    reveal_strlit("SoundManager.");
    reveal_strlit("\\shell\\open\\command");
    assert(spec_ext_key(ext)[17] == '.');
    assert(spec_prog_key(ext)[17] == 'S');
    assert(spec_command_key(ext)[17] == 'S');
    assert(spec_command_key(ext).len() > spec_prog_key(ext).len());
}

/// Whatever the registry held before, once the changes that associate an
/// extension are made it reads as associated with the program, and once the
/// changes that remove the association are made it does not.
pub proof fn law_set_associated_then_check(m: RegModel, ext: Seq<char>, exe: Seq<char>)
    ensures
        associated_in(apply_ops(m, spec_set_associated(ext, true, exe)), ext, exe),
        !associated_in(apply_ops(m, spec_set_associated(ext, false, exe)), ext, exe),
{
    lemma_keys_differ(ext);
    let a0 = SpecAssocOp::SetDefault(spec_ext_key(ext), spec_prog_id(ext));
    let a1 = SpecAssocOp::SetDefault(spec_command_key(ext), spec_open_command(exe));
    let a2 = SpecAssocOp::SetDefault(spec_prog_key(ext), spec_type_description(ext));
    let e = Seq::<SpecAssocOp>::empty();
    assert(spec_set_associated(ext, true, exe) =~= e.push(a0).push(a1).push(a2).push(SpecAssocOp::NotifyShell));
    lemma_apply_push(m, e, a0);
    lemma_apply_push(m, e.push(a0), a1);
    lemma_apply_push(m, e.push(a0).push(a1), a2);
    lemma_apply_push(m, e.push(a0).push(a1).push(a2), SpecAssocOp::NotifyShell);
    let on = apply_ops(m, spec_set_associated(ext, true, exe));
    assert(read_default(on, spec_ext_key(ext)) == Some(spec_prog_id(ext)));
    assert(read_default(on, spec_command_key(ext)) == Some(spec_open_command(exe)));

    let d0 = SpecAssocOp::DeleteTree(spec_ext_key(ext));
    let d1 = SpecAssocOp::DeleteTree(spec_prog_key(ext));
    assert(spec_set_associated(ext, false, exe) =~= e.push(d0).push(d1).push(SpecAssocOp::NotifyShell));
    lemma_apply_push(m, e, d0);
    lemma_apply_push(m, e.push(d0), d1);
    lemma_apply_push(m, e.push(d0).push(d1), SpecAssocOp::NotifyShell);
    let off = apply_ops(m, spec_set_associated(ext, false, exe));
    assert(is_under(spec_ext_key(ext), spec_ext_key(ext)));
    assert(!off.dom().contains(spec_ext_key(ext)));
    reveal_strlit("SoundManager.");
    assert(spec_prog_id(ext).len() > 0);
}

proof fn lemma_apply_push(m: RegModel, ops: Seq<SpecAssocOp>, op: SpecAssocOp)
    ensures
        apply_ops(m, ops.push(op)) == apply_op(apply_ops(m, ops), op),
{
    assert(ops.push(op).drop_last() =~= ops);
}

/// `op` changes neither the default value of `k` nor whether `k` exists.
pub open spec fn leaves_key(op: SpecAssocOp, k: Seq<char>) -> bool {
    match op {
        SpecAssocOp::SetDefault(k2, _) => k2 != k,
        SpecAssocOp::DeleteTree(k2) => !is_under(k, k2),
        SpecAssocOp::NotifyShell => true,
    }
}

proof fn lemma_frame(m: RegModel, ops: Seq<SpecAssocOp>, k: Seq<char>)
    requires
        forall|i: int| 0 <= i < ops.len() ==> leaves_key(#[trigger] ops[i], k),
    ensures
        read_default(apply_ops(m, ops), k) == read_default(m, k),
    decreases ops.len(),
{
    if ops.len() > 0 {
        let init = ops.drop_last();
        assert forall|i: int| 0 <= i < init.len() implies leaves_key(#[trigger] init[i], k) by {
            assert(init[i] == ops[i]);
        }
        lemma_frame(m, init, k);
        assert(leaves_key(ops[ops.len() - 1], k));
    }
}

proof fn lemma_apply_concat(m: RegModel, a: Seq<SpecAssocOp>, b: Seq<SpecAssocOp>)
    ensures
        apply_ops(m, a + b) == apply_ops(apply_ops(m, a), b),
    decreases b.len(),
{
    if b.len() == 0 {
        assert(a + b =~= a);
    } else {
        lemma_apply_concat(m, a, b.drop_last());
        assert((a + b).drop_last() =~= a + b.drop_last());
        assert((a + b).last() == b.last());
    }
}

/// The changes for `.soundpack` leave the keys that tell whether `.ths` is
/// associated.
proof fn lemma_soundpack_leaves_ths(associated: bool, exe: Seq<char>)
    ensures
        forall|i: int| 0 <= i < spec_set_associated(SOUNDPACK_EXT@, associated, exe).len() ==> leaves_key(
            #[trigger] spec_set_associated(SOUNDPACK_EXT@, associated, exe)[i],
            spec_ext_key(THS_EXT@),
        ),
        forall|i: int| 0 <= i < spec_set_associated(SOUNDPACK_EXT@, associated, exe).len() ==> leaves_key(
            #[trigger] spec_set_associated(SOUNDPACK_EXT@, associated, exe)[i],
            spec_command_key(THS_EXT@),
        ),
{
    reveal_strlit("ths");
    reveal_strlit("soundpack");
    reveal_strlit("Software\\Classes\\.");
    reveal_strlit("Software\\Classes\\");
    reveal_strlit("SoundManager.");
    reveal_strlit("\\shell\\open\\command");
    let te = spec_ext_key(THS_EXT@);
    let tc = spec_command_key(THS_EXT@);
    let se = spec_ext_key(SOUNDPACK_EXT@);
    let sp = spec_prog_key(SOUNDPACK_EXT@);
    let sc = spec_command_key(SOUNDPACK_EXT@);
    assert(te.len() == 21 && se.len() == 27 && sp.len() == 39 && sc.len() == 58 && tc.len() == 52);
    assert(te[17] == '.' && te[18] == 't' && se[17] == '.' && se[18] == 's');
    assert(sp[17] == 'S' && sc[17] == 'S' && tc[17] == 'S');
    assert(tc[30] == 't' && sp[30] == 's' && sc[30] == 's');
    assert(te != se && te != sp && te != sc);
    assert(tc != se && tc != sp && tc != sc);
    assert(tc.subrange(0, 27)[17] != se[17]);
    assert(tc.subrange(0, 39)[30] != sp[30]);
    assert(!is_under(te, se) && !is_under(te, sp));
    assert(!is_under(tc, se) && !is_under(tc, sp));
}

/// Setting the association of both `.ths` and `.soundpack`, whatever the
/// registry held before, and then asking whether all are associated gives
/// back what was set.
pub proof fn law_set_all_then_check(m: RegModel, associated: bool, exe: Seq<char>)
    ensures
        ({
            let after = apply_ops(
                m,
                spec_set_associated(THS_EXT@, associated, exe) + spec_set_associated(SOUNDPACK_EXT@, associated, exe),
            );
            associated_in(after, THS_EXT@, exe) && associated_in(after, SOUNDPACK_EXT@, exe)
        }) == associated,
{
    let a = spec_set_associated(THS_EXT@, associated, exe);
    let b = spec_set_associated(SOUNDPACK_EXT@, associated, exe);
    lemma_apply_concat(m, a, b);
    let mid = apply_ops(m, a);
    law_set_associated_then_check(m, THS_EXT@, exe);
    law_set_associated_then_check(mid, SOUNDPACK_EXT@, exe);
    lemma_soundpack_leaves_ths(associated, exe);
    lemma_frame(mid, b, spec_ext_key(THS_EXT@));
    lemma_frame(mid, b, spec_command_key(THS_EXT@));
}

} // verus!
