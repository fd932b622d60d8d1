//! Registering as the default terminal, and taking it back exactly.

use crate::handoff::{
    check_gui_subsystem, decode_prior, encode_prior, law_prior_reads_back, not_gui, prior_text,
    record, recorded, restore, restore_action, subsystem, Prior, Restore, RestoreView, BACKUP_KEY,
    CLSID_TERMINAL, CLSID_WT_OPENCONSOLE, DELEGATION_CONSOLE, DELEGATION_TERMINAL,
    IID_CONSOLE_HANDOFF, IID_TERMINAL_HANDOFF3, PROXY_CLSID, STARTUP_KEY,
};
use crate::text::{
    begins, chars, concat, concat3, eq_ignore_case, joined, lemma_split_joined, pieces,
    same_ignoring_case, spells, split, string, views,
};
use vstd::prelude::*;

verus! {

/// Where classes are registered.
pub const CLSID_ROOT: &'static str = "Software\\Classes\\CLSID\\";

/// Where interfaces are registered.
pub const INTERFACE_ROOT: &'static str = "Software\\Classes\\Interface\\";

/// The backup value that lists the parent keys which registering created.
pub const CREATED_VALUE: &'static str = "CreatedKeys";

/// The parent keys that registering may create.
pub const GIEST_PARENT: &'static str = "Software\\giest";

pub const INTERFACE_PARENT: &'static str = "Software\\Classes\\Interface";

pub const CLSID_PARENT: &'static str = "Software\\Classes\\CLSID";

/// One registry write: key, value name (none for the key's own value), data.
pub type Entry = (String, Option<&'static str>, String);

/// A registry write by its texts.
pub type EntryView = (Seq<char>, Option<Seq<char>>, Seq<char>);

/// A value's name.
pub open spec fn name_text(n: Option<&'static str>) -> Option<Seq<char>> {
    match n {
        Some(s) => Some(s@),
        None => None,
    }
}

/// A registry write by its texts.
pub open spec fn entry_text(e: Entry) -> EntryView {
    (e.0@, name_text(e.1), e.2@)
}

/// Registry writes by their texts.
pub open spec fn entry_texts(v: Seq<Entry>) -> Seq<EntryView> {
    v.map_values(|e: Entry| entry_text(e))
}

/// A step on the registry.
pub enum RegistryOp {
    Write(Entry),
    /// Delete a value of a key.
    DeleteValue(&'static str, &'static str),
    /// Delete a key with everything under it.
    DeleteTree(String),
    /// Delete a key that holds nothing.
    DeleteIfEmpty(String),
}

/// A step on the registry, by its texts.
pub ghost enum OpView {
    Write(Seq<char>, Option<Seq<char>>, Seq<char>),
    DeleteValue(Seq<char>, Seq<char>),
    DeleteTree(Seq<char>),
    DeleteIfEmpty(Seq<char>),
}

impl View for RegistryOp {
    type V = OpView;

    open spec fn view(&self) -> OpView {
        match self {
            RegistryOp::Write(e) => OpView::Write(e.0@, name_text(e.1), e.2@),
            RegistryOp::DeleteValue(k, n) => OpView::DeleteValue(k@, n@),
            RegistryOp::DeleteTree(k) => OpView::DeleteTree(k@),
            RegistryOp::DeleteIfEmpty(k) => OpView::DeleteIfEmpty(k@),
        }
    }
}

/// Steps by their texts.
pub open spec fn steps(v: Seq<RegistryOp>) -> Seq<OpView> {
    v.map_values(|o: RegistryOp| o@)
}

/// The key of the terminal class.
pub open spec fn terminal_class() -> Seq<char> {
    CLSID_ROOT@ + CLSID_TERMINAL@
}

/// The key of the proxy/stub class.
pub open spec fn proxy_class() -> Seq<char> {
    CLSID_ROOT@ + PROXY_CLSID@
}

/// The key of the terminal's interface.
pub open spec fn terminal_interface() -> Seq<char> {
    INTERFACE_ROOT@ + IID_TERMINAL_HANDOFF3@
}

/// The key of the console's interface.
pub open spec fn console_interface() -> Seq<char> {
    INTERFACE_ROOT@ + IID_CONSOLE_HANDOFF@
}

/// Every write that registers the classes and interfaces.
pub open spec fn entries_of(exe: Seq<char>, dll: Seq<char>) -> Seq<EntryView> {
    seq![
        (terminal_class(), None, "giest terminal handoff"@),
        (terminal_class() + "\\LocalServer32"@, None, "\""@ + exe + "\""@),
        (proxy_class(), None, "giest handoff proxy/stub"@),
        (proxy_class() + "\\InProcServer32"@, None, dll),
        (proxy_class() + "\\InProcServer32"@, Some("ThreadingModel"@), "Both"@),
        (terminal_interface(), None, "ITerminalHandoff3"@),
        (terminal_interface() + "\\ProxyStubClsid32"@, None, PROXY_CLSID@),
        (console_interface(), None, "IConsoleHandoff"@),
        (console_interface() + "\\ProxyStubClsid32"@, None, PROXY_CLSID@),
    ]
}

/// The key trees that hold every such write.
pub open spec fn trees() -> Seq<Seq<char>> {
    seq![terminal_class(), proxy_class(), terminal_interface(), console_interface()]
}

/// Every write that registers the classes and interfaces, for the program `exe`
/// and the proxy library `dll`.
pub fn class_entries(exe: &str, dll: &str) -> (v: Vec<Entry>)
    ensures
        entry_texts(v@) == entries_of(exe@, dll@),
{
    let mut v: Vec<Entry> = Vec::new();
    v.push((concat(CLSID_ROOT, CLSID_TERMINAL), None, "giest terminal handoff".to_owned()));
    v.push((
        concat3(CLSID_ROOT, CLSID_TERMINAL, "\\LocalServer32"),
        None,
        concat3("\"", exe, "\""),
    ));
    v.push((concat(CLSID_ROOT, PROXY_CLSID), None, "giest handoff proxy/stub".to_owned()));
    v.push((concat3(CLSID_ROOT, PROXY_CLSID, "\\InProcServer32"), None, dll.to_owned()));
    v.push((
        concat3(CLSID_ROOT, PROXY_CLSID, "\\InProcServer32"),
        Some("ThreadingModel"),
        "Both".to_owned(),
    ));
    v.push((concat(INTERFACE_ROOT, IID_TERMINAL_HANDOFF3), None, "ITerminalHandoff3".to_owned()));
    v.push((
        concat3(INTERFACE_ROOT, IID_TERMINAL_HANDOFF3, "\\ProxyStubClsid32"),
        None,
        PROXY_CLSID.to_owned(),
    ));
    v.push((concat(INTERFACE_ROOT, IID_CONSOLE_HANDOFF), None, "IConsoleHandoff".to_owned()));
    v.push((
        concat3(INTERFACE_ROOT, IID_CONSOLE_HANDOFF, "\\ProxyStubClsid32"),
        None,
        PROXY_CLSID.to_owned(),
    ));
    assert(entry_texts(v@) =~= entries_of(exe@, dll@));
    v
}

/// The key trees that hold every such write.
pub fn class_trees() -> (t: [String; 4])
    ensures
        t@[0]@ == terminal_class(),
        t@[1]@ == proxy_class(),
        t@[2]@ == terminal_interface(),
        t@[3]@ == console_interface(),
{
    [
        concat(CLSID_ROOT, CLSID_TERMINAL),
        concat(CLSID_ROOT, PROXY_CLSID),
        concat(INTERFACE_ROOT, IID_TERMINAL_HANDOFF3),
        concat(INTERFACE_ROOT, IID_CONSOLE_HANDOFF),
    ]
}

/// What registering finds.
pub struct RegisterReads<'a> {
    /// The program and its image.
    pub exe: &'a str,
    pub image: &'a [u8],
    /// The proxy library beside it, and whether it is there.
    pub dll: &'a str,
    pub dll_found: bool,
    /// The proxies the two interfaces name now.
    pub terminal_stub: Prior,
    pub console_stub: Prior,
    /// A backup exists already.
    pub backup_exists: bool,
    /// The parent keys that exist.
    pub giest_exists: bool,
    pub interface_exists: bool,
    pub clsid_exists: bool,
    /// The delegation pair there is.
    pub console: Prior,
    pub terminal: Prior,
}

/// What registering does: first the backup, then the writes that a failure takes
/// back.
pub struct RegisterPlan {
    pub backup: Vec<RegistryOp>,
    pub writes: Vec<RegistryOp>,
    pub report: String,
}

/// The message for a proxy library that is not there.
pub open spec fn no_dll(dll: Seq<char>) -> Seq<char> {
    dll + " not found beside giest.exe; build it with scripts/build-handoff-proxy.ps1"@
}

/// The key that names an interface's proxy.
pub open spec fn stub_key(iid: Seq<char>) -> Seq<char> {
    INTERFACE_ROOT@ + iid + "\\ProxyStubClsid32"@
}

/// Whether an interface already names someone else's proxy.
pub open spec fn foreign(stub: Option<Seq<char>>) -> bool {
    stub matches Some(v) && !same_ignoring_case(v, PROXY_CLSID@)
}

/// The message for an interface that names someone else's proxy.
pub open spec fn taken(iid: Seq<char>, stub: Option<Seq<char>>) -> Seq<char> {
    "HKCU\\"@ + stub_key(iid) + " already names "@ + stub->0 + "; not overwriting it"@
}

/// Why registering is refused.
pub open spec fn refusal(r: RegisterReads<'_>) -> Option<Seq<char>> {
    if subsystem(r.image@) != Some(2u16) {
        Some(not_gui(r.exe@))
    } else if !r.dll_found {
        Some(no_dll(r.dll@))
    } else if foreign(prior_text(r.terminal_stub)) {
        Some(taken(IID_TERMINAL_HANDOFF3@, prior_text(r.terminal_stub)))
    } else if foreign(prior_text(r.console_stub)) {
        Some(taken(IID_CONSOLE_HANDOFF@, prior_text(r.console_stub)))
    } else {
        None
    }
}

/// The parent keys that registering creates.
pub open spec fn created(giest: bool, interface: bool, clsid: bool) -> Seq<Seq<char>> {
    (if giest {
        Seq::empty()
    } else {
        seq![GIEST_PARENT@]
    }) + (if interface {
        Seq::empty()
    } else {
        seq![INTERFACE_PARENT@]
    }) + (if clsid {
        Seq::empty()
    } else {
        seq![CLSID_PARENT@]
    })
}

/// The steps that keep a backup, unless there is one.
pub open spec fn backup_steps(r: RegisterReads<'_>) -> Seq<OpView> {
    if r.backup_exists {
        Seq::empty()
    } else {
        seq![
            OpView::Write(
                BACKUP_KEY@,
                Some(CREATED_VALUE@),
                joined(created(r.giest_exists, r.interface_exists, r.clsid_exists), ';'),
            ),
            OpView::Write(
                BACKUP_KEY@,
                Some(DELEGATION_CONSOLE@),
                record(prior_text(r.console)),
            ),
            OpView::Write(
                BACKUP_KEY@,
                Some(DELEGATION_TERMINAL@),
                record(prior_text(r.terminal)),
            ),
        ]
    }
}

/// The steps that register: classes and interfaces, then the delegation pair.
pub open spec fn write_steps(exe: Seq<char>, dll: Seq<char>) -> Seq<OpView> {
    entries_of(exe, dll).map_values(|e: EntryView| OpView::Write(e.0, e.1, e.2)) + seq![
        OpView::Write(STARTUP_KEY@, Some(DELEGATION_CONSOLE@), CLSID_WT_OPENCONSOLE@),
        OpView::Write(STARTUP_KEY@, Some(DELEGATION_TERMINAL@), CLSID_TERMINAL@),
    ]
}

/// A prior value as a report shows it.
pub open spec fn or_absent(p: Option<Seq<char>>) -> Seq<char> {
    match p {
        Some(v) => v,
        None => "(absent)"@,
    }
}

/// What registering reports.
pub open spec fn register_report(r: RegisterReads<'_>) -> Seq<char> {
    (if r.backup_exists {
        "already registered; keeping the original backup\n"@
    } else {
        DELEGATION_CONSOLE@ + " was "@ + or_absent(prior_text(r.console)) + "\n"@ + (
        DELEGATION_TERMINAL@ + " was "@ + or_absent(prior_text(r.terminal)) + "\n"@)
    }) + (DELEGATION_CONSOLE@ + " = "@ + CLSID_WT_OPENCONSOLE@ + "\n"@) + (DELEGATION_TERMINAL@
        + " = "@ + CLSID_TERMINAL@ + "\n"@)
}

/// The message for an interface that names someone else's proxy, if it does.
fn taken_by(iid: &str, stub: &Prior) -> (r: Option<String>)
    ensures
        match r {
            Some(e) => foreign(prior_text(*stub)) && e@ == taken(iid@, prior_text(*stub)),
            None => !foreign(prior_text(*stub)),
        },
{
    match stub {
        Some(v) => {
            if eq_ignore_case(v.as_str(), PROXY_CLSID) {
                return None;
            }
            let key = concat3(INTERFACE_ROOT, iid, "\\ProxyStubClsid32");
            let head = concat3("HKCU\\", key.as_str(), " already names ");
            Some(concat3(head.as_str(), v.as_str(), "; not overwriting it"))
        },
        None => None,
    }
}

/// Why registering is refused, if it is.
fn refused(r: &RegisterReads<'_>) -> (e: Option<String>)
    ensures
        match e {
            Some(x) => refusal(*r) == Some(x@),
            None => refusal(*r) is None,
        },
{
    if let Err(e) = check_gui_subsystem(r.exe, r.image) {
        return Some(e);
    }
    if !r.dll_found {
        return Some(
            concat(
                r.dll,
                " not found beside giest.exe; build it with scripts/build-handoff-proxy.ps1",
            ),
        );
    }
    if let Some(e) = taken_by(IID_TERMINAL_HANDOFF3, &r.terminal_stub) {
        return Some(e);
    }
    taken_by(IID_CONSOLE_HANDOFF, &r.console_stub)
}

/// The list of parent keys that registering creates, as it is kept.
fn created_list(giest: bool, interface: bool, clsid: bool) -> (s: String)
    ensures
        s@ == joined(created(giest, interface, clsid), ';'),
{
    proof {
        reveal_strlit("");
        reveal_strlit(";");
        assert(";"@ =~= seq![';']);
        reveal_with_fuel(joined, 4);
    }
    let ghost all = created(giest, interface, clsid);
    let mut s = "".to_owned();
    let mut n: usize = 0;
    assert(s@ =~= joined(Seq::empty(), ';'));
    let ghost mut done: Seq<Seq<char>> = Seq::empty();
    if !giest {
        s.append(GIEST_PARENT);
        n += 1;
        proof {
            done = done.push(GIEST_PARENT@);
        }
        assert(s@ =~= joined(done, ';'));
    }
    if !interface {
        if n > 0 {
            s.append(";");
        }
        s.append(INTERFACE_PARENT);
        n += 1;
        proof {
            let before = done;
            done = done.push(INTERFACE_PARENT@);
            assert(done.drop_last() =~= before);
        }
        assert(s@ =~= joined(done, ';'));
    }
    if !clsid {
        if n > 0 {
            s.append(";");
        }
        s.append(CLSID_PARENT);
        proof {
            let before = done;
            done = done.push(CLSID_PARENT@);
            assert(done.drop_last() =~= before);
        }
        assert(s@ =~= joined(done, ';'));
    }
    assert(done =~= all);
    s
}

/// A prior value as a report shows it.
fn shown(p: &Prior) -> (s: &str)
    ensures
        s@ == or_absent(prior_text(*p)),
{
    match p {
        Some(v) => v.as_str(),
        None => "(absent)",
    }
}

/// Plan the registration, or refuse it.
pub fn register(r: &RegisterReads<'_>) -> (p: Result<RegisterPlan, String>)
    ensures
        match p {
            Ok(plan) => refusal(*r) is None && steps(plan.backup@) == backup_steps(*r) && steps(
                plan.writes@,
            ) == write_steps(r.exe@, r.dll@) && plan.report@ == register_report(*r),
            Err(e) => refusal(*r) == Some(e@),
        },
{
    if let Some(e) = refused(r) {
        return Err(e);
    }
    let mut backup: Vec<RegistryOp> = Vec::new();
    let mut report = if r.backup_exists {
        "already registered; keeping the original backup\n".to_owned()
    } else {
        let list = created_list(r.giest_exists, r.interface_exists, r.clsid_exists);
        backup.push(RegistryOp::Write((BACKUP_KEY.to_owned(), Some(CREATED_VALUE), list)));
        backup.push(
            RegistryOp::Write(
                (BACKUP_KEY.to_owned(), Some(DELEGATION_CONSOLE), encode_prior(&r.console)),
            ),
        );
        backup.push(
            RegistryOp::Write(
                (BACKUP_KEY.to_owned(), Some(DELEGATION_TERMINAL), encode_prior(&r.terminal)),
            ),
        );
        let mut s = concat3(DELEGATION_CONSOLE, " was ", shown(&r.console));
        s.append("\n");
        let mut t = concat3(DELEGATION_TERMINAL, " was ", shown(&r.terminal));
        t.append("\n");
        s.append(t.as_str());
        s
    };
    assert(steps(backup@) =~= backup_steps(*r));
    let entries = class_entries(r.exe, r.dll);
    let ghost texts = entries_of(r.exe@, r.dll@);
    let mut writes: Vec<RegistryOp> = Vec::new();
    for e in it: entries
        invariant
            entry_texts(it.seq()) == texts,
            writes@.len() == it.index(),
            forall|k: int|
                0 <= k < it.index() ==> (#[trigger] writes@[k])@ == OpView::Write(
                    texts[k].0,
                    texts[k].1,
                    texts[k].2,
                ),
    {
        assert(entry_texts(it.seq())[it.index()] == entry_text(e));
        writes.push(RegistryOp::Write(e));
    }
    assert(writes@.len() == texts.len());
    writes.push(
        RegistryOp::Write(
            (STARTUP_KEY.to_owned(), Some(DELEGATION_CONSOLE), CLSID_WT_OPENCONSOLE.to_owned()),
        ),
    );
    writes.push(
        RegistryOp::Write(
            (STARTUP_KEY.to_owned(), Some(DELEGATION_TERMINAL), CLSID_TERMINAL.to_owned()),
        ),
    );
    assert(steps(writes@) =~= write_steps(r.exe@, r.dll@));
    let mut s = concat3(DELEGATION_CONSOLE, " = ", CLSID_WT_OPENCONSOLE);
    s.append("\n");
    let mut t = concat3(DELEGATION_TERMINAL, " = ", CLSID_TERMINAL);
    t.append("\n");
    report.append(s.as_str());
    report.append(t.as_str());
    Ok(RegisterPlan { backup, writes, report })
}

/// The writes that register the classes alone, leaving the delegation pair, or
/// why that is refused. `exists` tells which of the key trees exist.
pub fn register_com_only(
    exe: &str,
    image: &[u8],
    dll: &str,
    dll_found: bool,
    exists: [bool; 4],
) -> (r: Result<Vec<Entry>, String>)
    ensures
        match r {
            Ok(v) => subsystem(image@) == Some(2u16) && dll_found && (forall|i: int|
                0 <= i < 4 ==> !#[trigger] exists@[i]) && entry_texts(v@) == entries_of(exe@, dll@),
            Err(e) => if subsystem(image@) != Some(2u16) {
                e@ == not_gui(exe@)
            } else if !dll_found {
                e@ == dll@ + " not found"@
            } else {
                exists|i: int|
                    0 <= i < 4 && #[trigger] exists@[i] && (forall|k: int|
                        0 <= k < i ==> !#[trigger] exists@[k]) && e@ == "HKCU\\"@ + trees()[i]
                        + " already exists"@
            },
        },
{
    if let Err(e) = check_gui_subsystem(exe, image) {
        return Err(e);
    }
    if !dll_found {
        return Err(concat(dll, " not found"));
    }
    let names = class_trees();
    let mut i: usize = 0;
    while i < 4
        invariant
            i <= 4,
            subsystem(image@) == Some(2u16),
            dll_found,
            names@[0]@ == terminal_class(),
            names@[1]@ == proxy_class(),
            names@[2]@ == terminal_interface(),
            names@[3]@ == console_interface(),
            forall|k: int| 0 <= k < i ==> !#[trigger] exists@[k],
        decreases 4 - i,
    {
        if exists[i] {
            assert(names@[i as int]@ == trees()[i as int]);
            return Err(concat3("HKCU\\", names[i].as_str(), " already exists"));
        }
        i += 1;
    }
    Ok(class_entries(exe, dll))
}

/// The steps that take such a registration back.
pub open spec fn com_only_undo() -> Seq<OpView> {
    trees().map_values(|t: Seq<char>| OpView::DeleteTree(t))
}

/// The steps that take a registration of the classes alone back.
pub fn unregister_com_only() -> (v: Vec<RegistryOp>)
    ensures
        steps(v@) == com_only_undo(),
{
    let names = class_trees();
    let mut v: Vec<RegistryOp> = Vec::new();
    v.push(RegistryOp::DeleteTree(names[0].as_str().to_owned()));
    v.push(RegistryOp::DeleteTree(names[1].as_str().to_owned()));
    v.push(RegistryOp::DeleteTree(names[2].as_str().to_owned()));
    v.push(RegistryOp::DeleteTree(names[3].as_str().to_owned()));
    assert(steps(v@) =~= com_only_undo());
    v
}

/// What unregistering finds.
pub struct UnregisterReads {
    pub backup_exists: bool,
    /// The records of the delegation pair.
    pub console_backup: Prior,
    pub terminal_backup: Prior,
    /// The delegation pair there is.
    pub console: Prior,
    pub terminal: Prior,
    /// The proxies the two interfaces name.
    pub terminal_stub: Prior,
    pub console_stub: Prior,
    /// The list of parent keys that registering created.
    pub created: Prior,
}

/// What unregistering does: every one of `steps`, and `last` only if none of
/// them failed.
pub struct UnregisterPlan {
    pub steps: Vec<RegistryOp>,
    pub last: Vec<RegistryOp>,
    pub report: String,
}

/// The prior value that a backup tells of.
pub open spec fn backed_up(b: Option<Seq<char>>) -> Option<Option<Seq<char>>> {
    match b {
        Some(s) => recorded(s),
        None => None,
    }
}

/// The step that restores one delegation value.
pub open spec fn restore_steps(
    name: Seq<char>,
    ours: Seq<char>,
    backup: Option<Seq<char>>,
    current: Option<Seq<char>>,
) -> Seq<OpView> {
    match backed_up(backup) {
        Some(prior) => match restore(current, ours, prior) {
            RestoreView::Put(v) => seq![OpView::Write(STARTUP_KEY@, Some(name), v)],
            RestoreView::Delete => seq![OpView::DeleteValue(STARTUP_KEY@, name)],
            RestoreView::Keep => Seq::empty(),
        },
        None => Seq::empty(),
    }
}

/// What is reported of restoring one delegation value.
pub open spec fn restore_line(
    name: Seq<char>,
    ours: Seq<char>,
    backup: Option<Seq<char>>,
    current: Option<Seq<char>>,
) -> Seq<char> {
    match backed_up(backup) {
        Some(prior) => match restore(current, ours, prior) {
            RestoreView::Put(v) => name + " restored to "@ + v + "\n"@,
            RestoreView::Delete => name + " removed (it was absent)\n"@,
            RestoreView::Keep => name + " is now "@ + or_absent(current)
                + ", not giest's; left as is\n"@,
        },
        None => name + ": no usable backup; left as is\n"@,
    }
}

/// The steps that delete the key trees; an interface that names someone else's
/// proxy stays.
pub open spec fn tree_steps(
    terminal_stub: Option<Seq<char>>,
    console_stub: Option<Seq<char>>,
) -> Seq<
    OpView,
> {
    seq![OpView::DeleteTree(terminal_class()), OpView::DeleteTree(proxy_class())] + (if foreign(
        terminal_stub,
    ) {
        Seq::empty()
    } else {
        seq![OpView::DeleteTree(terminal_interface())]
    }) + (if foreign(console_stub) {
        Seq::empty()
    } else {
        seq![OpView::DeleteTree(console_interface())]
    })
}

/// Whether a key is one of the parents that registering may create.
pub open spec fn is_parent(k: Seq<char>) -> bool {
    k == GIEST_PARENT@ || k == INTERFACE_PARENT@ || k == CLSID_PARENT@
}

/// The steps that delete created parents which hold nothing more.
pub open spec fn parent_steps(names: Seq<Seq<char>>) -> Seq<OpView>
    decreases names.len(),
{
    if names.len() == 0 {
        Seq::empty()
    } else if is_parent(names.last()) {
        parent_steps(names.drop_last()).push(OpView::DeleteIfEmpty(names.last()))
    } else {
        parent_steps(names.drop_last())
    }
}

/// The steps that unregistering always takes.
pub open spec fn undo_steps(r: UnregisterReads) -> Seq<OpView> {
    (if r.backup_exists {
        restore_steps(
            DELEGATION_CONSOLE@,
            CLSID_WT_OPENCONSOLE@,
            prior_text(r.console_backup),
            prior_text(r.console),
        ) + restore_steps(
            DELEGATION_TERMINAL@,
            CLSID_TERMINAL@,
            prior_text(r.terminal_backup),
            prior_text(r.terminal),
        )
    } else {
        Seq::empty()
    }) + tree_steps(prior_text(r.terminal_stub), prior_text(r.console_stub))
}

/// The list of created parents; empty where it is not there.
pub open spec fn created_text(r: UnregisterReads) -> Seq<char> {
    match prior_text(r.created) {
        Some(s) => s,
        None => Seq::empty(),
    }
}

/// The steps that unregistering takes once everything is back.
pub open spec fn last_steps(r: UnregisterReads) -> Seq<OpView> {
    seq![OpView::DeleteTree(BACKUP_KEY@)] + parent_steps(split(created_text(r), ';'))
}

/// What unregistering reports.
pub open spec fn unregister_report(r: UnregisterReads) -> Seq<char> {
    if r.backup_exists {
        restore_line(
            DELEGATION_CONSOLE@,
            CLSID_WT_OPENCONSOLE@,
            prior_text(r.console_backup),
            prior_text(r.console),
        ) + restore_line(
            DELEGATION_TERMINAL@,
            CLSID_TERMINAL@,
            prior_text(r.terminal_backup),
            prior_text(r.terminal),
        )
    } else {
        "no backup found (not registered)\n"@
    }
}

/// Plan the restoring of one delegation value.
fn restore_one(
    name: &'static str,
    ours: &str,
    backup: &Prior,
    current: &Prior,
    out: &mut Vec<RegistryOp>,
    report: &mut String,
)
    ensures
        steps(final(out)@) == steps(old(out)@) + restore_steps(
            name@,
            ours@,
            prior_text(*backup),
            prior_text(*current),
        ),
        final(report)@ == old(report)@ + restore_line(
            name@,
            ours@,
            prior_text(*backup),
            prior_text(*current),
        ),
{
    let ghost before = steps(out@);
    let prior = match backup {
        Some(s) => decode_prior(s.as_str()),
        None => None,
    };
    let prior = match prior {
        Some(p) => p,
        None => {
            report.append(concat(name, ": no usable backup; left as is\n").as_str());
            assert(steps(out@) =~= before + Seq::empty());
            return;
        },
    };
    match restore_action(current, ours, &prior) {
        Restore::Put(v) => {
            let mut line = concat3(name, " restored to ", v.as_str());
            line.append("\n");
            report.append(line.as_str());
            out.push(RegistryOp::Write((STARTUP_KEY.to_owned(), Some(name), v)));
        },
        Restore::Delete => {
            report.append(concat(name, " removed (it was absent)\n").as_str());
            out.push(RegistryOp::DeleteValue(STARTUP_KEY, name));
        },
        Restore::Keep => {
            let mut line = concat3(name, " is now ", shown(current));
            line.append(", not giest's; left as is\n");
            report.append(line.as_str());
        },
    }
    assert(steps(out@) =~= before + restore_steps(
        name@,
        ours@,
        prior_text(*backup),
        prior_text(*current),
    ));
}

/// Plan the deletion of created parents that hold nothing more.
fn parents_to_delete(list: &str, out: &mut Vec<RegistryOp>)
    ensures
        steps(final(out)@) == steps(old(out)@) + parent_steps(split(list@, ';')),
{
    let ghost before = steps(out@);
    let cs = chars(list);
    let names = pieces(cs.as_slice(), ';');
    let ghost all = split(list@, ';');
    let mut i: usize = 0;
    assert(all.take(0) =~= Seq::empty());
    assert(before + parent_steps(all.take(0)) =~= before);
    while i < names.len()
        invariant
            i <= names@.len(),
            views(names@) == all,
            steps(out@) == before + parent_steps(all.take(i as int)),
        decreases names@.len() - i,
    {
        let k = names[i].as_slice();
        assert(views(names@)[i as int] == k@);
        assert(all.take(i + 1).drop_last() =~= all.take(i as int));
        let ghost sofar = steps(out@);
        if spells(k, GIEST_PARENT) || spells(k, INTERFACE_PARENT) || spells(k, CLSID_PARENT) {
            out.push(RegistryOp::DeleteIfEmpty(string(k)));
            assert(steps(out@) =~= sofar.push(OpView::DeleteIfEmpty(k@)));
        }
        i += 1;
        assert(steps(out@) =~= before + parent_steps(all.take(i as int)));
    }
    assert(all.take(names@.len() as int) =~= all);
}

/// Plan the way back.
pub fn unregister(r: &UnregisterReads) -> (p: UnregisterPlan)
    ensures
        steps(p.steps@) == undo_steps(*r),
        steps(p.last@) == last_steps(*r),
        p.report@ == unregister_report(*r),
{
    proof {
        reveal_strlit("");
    }
    let mut out: Vec<RegistryOp> = Vec::new();
    let mut report = "".to_owned();
    assert(steps(out@) =~= Seq::empty());
    if r.backup_exists {
        restore_one(
            DELEGATION_CONSOLE,
            CLSID_WT_OPENCONSOLE,
            &r.console_backup,
            &r.console,
            &mut out,
            &mut report,
        );
        restore_one(
            DELEGATION_TERMINAL,
            CLSID_TERMINAL,
            &r.terminal_backup,
            &r.terminal,
            &mut out,
            &mut report,
        );
    } else {
        report.append("no backup found (not registered)\n");
    }
    assert(report@ =~= unregister_report(*r));
    let ghost restored = steps(out@);
    let trees = class_trees();
    out.push(RegistryOp::DeleteTree(trees[0].as_str().to_owned()));
    out.push(RegistryOp::DeleteTree(trees[1].as_str().to_owned()));
    if taken_by(IID_TERMINAL_HANDOFF3, &r.terminal_stub).is_none() {
        out.push(RegistryOp::DeleteTree(trees[2].as_str().to_owned()));
    }
    if taken_by(IID_CONSOLE_HANDOFF, &r.console_stub).is_none() {
        out.push(RegistryOp::DeleteTree(trees[3].as_str().to_owned()));
    }
    assert(steps(out@) =~= restored + tree_steps(
        prior_text(r.terminal_stub),
        prior_text(r.console_stub),
    ));
    assert(steps(out@) =~= undo_steps(*r));
    let mut last: Vec<RegistryOp> = Vec::new();
    last.push(RegistryOp::DeleteTree(BACKUP_KEY.to_owned()));
    assert(steps(last@) =~= seq![OpView::DeleteTree(BACKUP_KEY@)]);
    match &r.created {
        Some(s) => parents_to_delete(s.as_str(), &mut last),
        None => {
            assert(""@ =~= Seq::<char>::empty());
            parents_to_delete("", &mut last)
        },
    }
    UnregisterPlan { steps: out, last, report }
}
/// What a registry holds: the data of each key's values.
pub type Values = Map<(Seq<char>, Option<Seq<char>>), Seq<char>>;

/// Whether `key` is `tree` or lies under it.
pub open spec fn under(key: Seq<char>, tree: Seq<char>) -> bool {
    key == tree || begins(key, tree + "\\"@)
}

/// What a registry holds after one step.
pub open spec fn performed(v: Values, op: OpView) -> Values {
    match op {
        OpView::Write(key, name, data) => v.insert((key, name), data),
        OpView::DeleteValue(key, name) => v.remove((key, Some(name))),
        OpView::DeleteTree(tree) => v.restrict(
            Set::new(|p: (Seq<char>, Option<Seq<char>>)| !under(p.0, tree)),
        ),
        OpView::DeleteIfEmpty(_) => v,
    }
}

/// What a registry holds after steps taken one by one.
pub open spec fn all_performed(v: Values, ops: Seq<OpView>) -> Values
    decreases ops.len(),
{
    if ops.len() == 0 {
        v
    } else {
        performed(all_performed(v, ops.drop_last()), ops.last())
    }
}

/// The data of a value, where there is one.
pub open spec fn value(v: Values, key: Seq<char>, name: Option<Seq<char>>) -> Option<Seq<char>> {
    if v.contains_key((key, name)) {
        Some(v[(key, name)])
    } else {
        None
    }
}

/// Whether a key holds some value.
pub open spec fn holds(v: Values, key: Seq<char>) -> bool {
    exists|name: Option<Seq<char>>| #[trigger] v.contains_key((key, name))
}

/// The values that registering reads are those of the registry `v`.
pub open spec fn registering_sees(r: RegisterReads<'_>, v: Values) -> bool {
    &&& r.backup_exists == holds(v, BACKUP_KEY@)
    &&& prior_text(r.terminal_stub) == value(v, stub_key(IID_TERMINAL_HANDOFF3@), None)
    &&& prior_text(r.console_stub) == value(v, stub_key(IID_CONSOLE_HANDOFF@), None)
    &&& prior_text(r.console) == value(v, STARTUP_KEY@, Some(DELEGATION_CONSOLE@))
    &&& prior_text(r.terminal) == value(v, STARTUP_KEY@, Some(DELEGATION_TERMINAL@))
}

/// The values that unregistering reads are those of the registry `v`.
pub open spec fn unregistering_sees(r: UnregisterReads, v: Values) -> bool {
    &&& r.backup_exists == holds(v, BACKUP_KEY@)
    &&& prior_text(r.console_backup) == value(v, BACKUP_KEY@, Some(DELEGATION_CONSOLE@))
    &&& prior_text(r.terminal_backup) == value(v, BACKUP_KEY@, Some(DELEGATION_TERMINAL@))
    &&& prior_text(r.console) == value(v, STARTUP_KEY@, Some(DELEGATION_CONSOLE@))
    &&& prior_text(r.terminal) == value(v, STARTUP_KEY@, Some(DELEGATION_TERMINAL@))
    &&& prior_text(r.terminal_stub) == value(v, stub_key(IID_TERMINAL_HANDOFF3@), None)
    &&& prior_text(r.console_stub) == value(v, stub_key(IID_CONSOLE_HANDOFF@), None)
    &&& prior_text(r.created) == value(v, BACKUP_KEY@, Some(CREATED_VALUE@))
}

/// Whether a key lies where registering keeps what is its own.
pub open spec fn own(key: Seq<char>) -> bool {
    ||| under(key, BACKUP_KEY@)
    ||| under(key, terminal_class())
    ||| under(key, proxy_class())
    ||| under(key, terminal_interface())
    ||| under(key, console_interface())
}

/// What a registry holds once it is registered.
pub open spec fn registered(v: Values, r: RegisterReads<'_>) -> Values {
    all_performed(all_performed(v, backup_steps(r)), write_steps(r.exe@, r.dll@))
}

/// What a registry holds once it is unregistered.
pub open spec fn unregistered(v: Values, r: UnregisterReads) -> Values {
    all_performed(all_performed(v, undo_steps(r)), last_steps(r))
}

proof fn lemma_performed_concat(v: Values, a: Seq<OpView>, b: Seq<OpView>)
    ensures
        all_performed(v, a + b) == all_performed(all_performed(v, a), b),
    decreases b.len(),
{
    if b.len() == 0 {
        assert(a + b =~= a);
    } else {
        lemma_performed_concat(v, a, b.drop_last());
        assert((a + b).drop_last() =~= a + b.drop_last());
    }
}

/// Removing created parents that hold nothing takes no value away.
proof fn lemma_parents_hold_nothing(v: Values, names: Seq<Seq<char>>)
    ensures
        all_performed(v, parent_steps(names)) == v,
    decreases names.len(),
{
    if names.len() > 0 {
        lemma_parents_hold_nothing(v, names.drop_last());
        if is_parent(names.last()) {
            let ops = parent_steps(names);
            assert(ops.drop_last() =~= parent_steps(names.drop_last()));
        }
    }
}

/// Steps that all write to keys of their own leave every other value alone.
proof fn lemma_writes_elsewhere(
    v: Values,
    ops: Seq<OpView>,
    key: Seq<char>,
    name: Option<Seq<char>>,
)
    requires
        forall|i: int|
            0 <= i < ops.len() ==> {
                &&& #[trigger] ops[i] is Write
                &&& (ops[i]->Write_0, ops[i]->Write_1) != (key, name)
            },
    ensures
        value(all_performed(v, ops), key, name) == value(v, key, name),
    decreases ops.len(),
{
    if ops.len() > 0 {
        lemma_writes_elsewhere(v, ops.drop_last(), key, name);
    }
}

/// The keys of the delegation pair, of the backup and of the classes are apart.
proof fn lemma_keys_are_apart()
    ensures
        !own(STARTUP_KEY@),
        !under(BACKUP_KEY@, terminal_class()),
        !under(BACKUP_KEY@, proxy_class()),
        !under(BACKUP_KEY@, terminal_interface()),
        !under(BACKUP_KEY@, console_interface()),
        DELEGATION_CONSOLE@ != DELEGATION_TERMINAL@,
        DELEGATION_CONSOLE@ != CREATED_VALUE@,
        DELEGATION_TERMINAL@ != CREATED_VALUE@,
        STARTUP_KEY@ != BACKUP_KEY@,
{
    reveal_strlit("Console\\%%Startup");
    reveal_strlit("Software\\giest\\DefaultTerminal");
    reveal_strlit("Software\\Classes\\CLSID\\");
    reveal_strlit("Software\\Classes\\Interface\\");
    reveal_strlit("DelegationConsole");
    reveal_strlit("DelegationTerminal");
    reveal_strlit("CreatedKeys");
    assert(DELEGATION_CONSOLE@[10] == 'C');
    assert(DELEGATION_TERMINAL@[10] == 'T');
    assert(DELEGATION_CONSOLE@[0] == 'D' && DELEGATION_TERMINAL@[0] == 'D' && CREATED_VALUE@[0]
        == 'C');
    let s = STARTUP_KEY@;
    let b = BACKUP_KEY@;
    assert(s[0] == 'C' && b[0] == 'S');
    assert(b[9] == 'g' && b.len() > 10);
    lemma_not_under(s, b, 0);
    lemma_class_is_apart(terminal_class(), s, b);
    lemma_class_is_apart(proxy_class(), s, b);
    lemma_class_is_apart(terminal_interface(), s, b);
    lemma_class_is_apart(console_interface(), s, b);
}

/// A class's key is apart from `s` and from `b`.
proof fn lemma_class_is_apart(t: Seq<char>, s: Seq<char>, b: Seq<char>)
    requires
        t.len() > 10,
        t[0] == 'S',
        t[9] == 'C',
        s.len() > 0,
        s[0] == 'C',
        b.len() > 10,
        b[9] == 'g',
    ensures
        !under(s, t),
        !under(b, t),
{
    lemma_not_under(s, t, 0);
    lemma_not_under(b, t, 9);
}

/// A key that differs from a tree's at some place is not under it.
proof fn lemma_not_under(key: Seq<char>, tree: Seq<char>, i: int)
    requires
        0 <= i < key.len(),
        i < tree.len(),
        key[i] != tree[i],
    ensures
        !under(key, tree),
{
    if begins(key, tree + "\\"@) {
        assert((tree + "\\"@)[i] == tree[i]);
        assert(key.take((tree + "\\"@).len() as int)[i] == key[i]);
    }
}

/// A key made by going on behind a tree's is under it.
proof fn lemma_goes_under(tree: Seq<char>, sub: Seq<char>)
    requires
        sub.len() > 0,
        sub[0] == '\\',
    ensures
        under(tree + sub, tree),
{
    reveal_strlit("\\");
    let p = tree + "\\"@;
    assert((tree + sub).take(p.len() as int) =~= p);
}

/// Every class entry lies in one of the trees that unregistering deletes.
pub proof fn law_entries_lie_in_the_trees(exe: Seq<char>, dll: Seq<char>, i: int)
    requires
        0 <= i < entries_of(exe, dll).len(),
    ensures
        exists|t: int| 0 <= t < trees().len() && under(
            entries_of(exe, dll)[i].0,
            #[trigger] trees()[t],
        ),
{
    reveal_strlit("\\LocalServer32");
    reveal_strlit("\\InProcServer32");
    reveal_strlit("\\ProxyStubClsid32");
    lemma_goes_under(terminal_class(), "\\LocalServer32"@);
    lemma_goes_under(proxy_class(), "\\InProcServer32"@);
    lemma_goes_under(terminal_interface(), "\\ProxyStubClsid32"@);
    lemma_goes_under(console_interface(), "\\ProxyStubClsid32"@);
    let e = entries_of(exe, dll);
    assert(e.len() == 9);
    let t: int = if i < 2 {
        0
    } else if i < 5 {
        1
    } else if i < 7 {
        2
    } else {
        3
    };
    assert(under(e[i].0, trees()[t]));
}

/// What deleting a tree leaves of a value.
proof fn lemma_tree_deleted(v: Values, tree: Seq<char>, key: Seq<char>, name: Option<Seq<char>>)
    ensures
        value(performed(v, OpView::DeleteTree(tree)), key, name) == if under(key, tree) {
            None
        } else {
            value(v, key, name)
        },
{
}

/// What registering leaves at each place.
proof fn lemma_registered_value(
    v: Values,
    r: RegisterReads<'_>,
    key: Seq<char>,
    name: Option<Seq<char>>,
)
    requires
        !own(key) || key == BACKUP_KEY@,
    ensures
        value(registered(v, r), key, name) == if (key, name) == (
            STARTUP_KEY@,
            Some(DELEGATION_CONSOLE@),
        ) {
            Some(CLSID_WT_OPENCONSOLE@)
        } else if (key, name) == (STARTUP_KEY@, Some(DELEGATION_TERMINAL@)) {
            Some(CLSID_TERMINAL@)
        } else if !r.backup_exists && (key, name) == (BACKUP_KEY@, Some(DELEGATION_CONSOLE@)) {
            Some(record(prior_text(r.console)))
        } else if !r.backup_exists && (key, name) == (BACKUP_KEY@, Some(DELEGATION_TERMINAL@)) {
            Some(record(prior_text(r.terminal)))
        } else if !r.backup_exists && (key, name) == (BACKUP_KEY@, Some(CREATED_VALUE@)) {
            Some(joined(created(r.giest_exists, r.interface_exists, r.clsid_exists), ';'))
        } else {
            value(v, key, name)
        },
{
    lemma_keys_are_apart();
    let (exe, dll) = (r.exe@, r.dll@);
    let kept = all_performed(v, backup_steps(r));
    let b = backup_steps(r);
    reveal_with_fuel(all_performed, 4);
    if !r.backup_exists {
        assert(b.drop_last() =~= seq![b[0], b[1]]);
        assert(b.drop_last().drop_last() =~= seq![b[0]]);
        assert(b.drop_last().drop_last().drop_last() =~= Seq::empty());
        assert(kept == performed(performed(performed(v, b[0]), b[1]), b[2]));
    }
    let entries = entries_of(exe, dll).map_values(|e: EntryView| OpView::Write(e.0, e.1, e.2));
    let pair = seq![
        OpView::Write(STARTUP_KEY@, Some(DELEGATION_CONSOLE@), CLSID_WT_OPENCONSOLE@),
        OpView::Write(STARTUP_KEY@, Some(DELEGATION_TERMINAL@), CLSID_TERMINAL@),
    ];
    lemma_performed_concat(kept, entries, pair);
    let classes = all_performed(kept, entries);
    assert(pair.drop_last() =~= seq![pair[0]]);
    assert(pair.drop_last().drop_last() =~= Seq::empty());
    assert(registered(v, r) == performed(performed(classes, pair[0]), pair[1]));
    assert forall|i: int| 0 <= i < entries.len() implies {
        &&& #[trigger] entries[i] is Write
        &&& (entries[i]->Write_0, entries[i]->Write_1) != (key, name)
    } by {
        law_entries_lie_in_the_trees(exe, dll, i);
        assert(own(entries_of(exe, dll)[i].0));
        if key == BACKUP_KEY@ {
            assert(!under(key, trees()[0]) && !under(key, trees()[1]) && !under(key, trees()[2])
                && !under(key, trees()[3]));
        }
    }
    lemma_writes_elsewhere(kept, entries, key, name);
}

/// What registering leaves of the proxies that the interfaces name.
proof fn lemma_registered_stubs(v: Values, r: RegisterReads<'_>)
    ensures
        value(registered(v, r), stub_key(IID_TERMINAL_HANDOFF3@), None) == Some(PROXY_CLSID@),
        value(registered(v, r), stub_key(IID_CONSOLE_HANDOFF@), None) == Some(PROXY_CLSID@),
{
    let (exe, dll) = (r.exe@, r.dll@);
    let kept = all_performed(v, backup_steps(r));
    let w = write_steps(exe, dll);
    let e = entries_of(exe, dll);
    assert(e.len() == 9 && w.len() == 11);
    assert forall|i: int| 0 <= i < 9 implies #[trigger] w[i] == OpView::Write(
        e[i].0,
        e[i].1,
        e[i].2,
    ) by {}
    reveal_strlit("{6F23DA90-15C5-4203-9DB0-64E73F1B1B00}");
    reveal_strlit("{E686C757-9A35-4A1C-B3CE-0BCC8B5C69F4}");
    reveal_strlit("Console\\%%Startup");
    reveal_strlit("Software\\Classes\\Interface\\");
    reveal_strlit("\\ProxyStubClsid32");
    let a = stub_key(IID_TERMINAL_HANDOFF3@);
    let c = stub_key(IID_CONSOLE_HANDOFF@);
    let n = INTERFACE_ROOT@.len() as int;
    assert(a[n + 1] == '6' && c[n + 1] == 'E' && a[0] == 'S' && c[0] == 'S');
    assert(e[6].0 == a && e[8].0 == c);
    assert(w =~= w.take(7) + w.skip(7));
    lemma_performed_concat(kept, w.take(7), w.skip(7));
    assert(w.take(7).last() == w[6]);
    assert(e[7].0 == console_interface());
    assert(console_interface().len() == n + 38);
    assert(a.len() > n + 38);
    let s = STARTUP_KEY@;
    assert(s[0] == 'C');
    assert forall|i: int| 0 <= i < w.skip(7).len() implies {
        &&& #[trigger] w.skip(7)[i] is Write
        &&& (w.skip(7)[i]->Write_0, w.skip(7)[i]->Write_1) != (a, None::<Seq<char>>)
    } by {
        assert(w.skip(7)[i] == w[7 + i]);
    }
    lemma_writes_elsewhere(all_performed(kept, w.take(7)), w.skip(7), a, None);
    assert(w =~= w.take(9) + w.skip(9));
    lemma_performed_concat(kept, w.take(9), w.skip(9));
    assert(w.take(9).last() == w[8]);
    assert forall|i: int| 0 <= i < w.skip(9).len() implies {
        &&& #[trigger] w.skip(9)[i] is Write
        &&& (w.skip(9)[i]->Write_0, w.skip(9)[i]->Write_1) != (c, None::<Seq<char>>)
    } by {
        assert(w.skip(9)[i] == w[9 + i]);
    }
    lemma_writes_elsewhere(all_performed(kept, w.take(9)), w.skip(9), c, None);
}

/// Restoring one delegation value.
proof fn lemma_restored(
    v: Values,
    name: Seq<char>,
    ours: Seq<char>,
    prior: Option<Seq<char>>,
    key: Seq<char>,
    other: Option<Seq<char>>,
)
    ensures
        value(
            all_performed(v, restore_steps(name, ours, Some(record(prior)), Some(ours))),
            key,
            other,
        ) == if (key, other) == (STARTUP_KEY@, Some(name)) {
            prior
        } else {
            value(v, key, other)
        },
{
    law_prior_reads_back(prior);
    let ops = restore_steps(name, ours, Some(record(prior)), Some(ours));
    assert(ops.len() == 1);
    assert(ops.drop_last() =~= Seq::empty());
    reveal_with_fuel(all_performed, 2);
    assert(all_performed(v, ops) == performed(v, ops[0]));
}

/// What a registry holds after it is registered several times over.
pub open spec fn registered_again(v: Values, rs: Seq<RegisterReads<'_>>) -> Values
    decreases rs.len(),
{
    if rs.len() == 0 {
        v
    } else {
        registered(registered_again(v, rs.drop_last()), rs.last())
    }
}

/// Whether `w` is the registry `v` with the terminal registered, the delegation
/// pair that was there kept as `console` and `terminal`.
spec fn standing(
    w: Values,
    v: Values,
    console: Option<Seq<char>>,
    terminal: Option<Seq<char>>,
) -> bool {
    let (ck, tk) = (Some(DELEGATION_CONSOLE@), Some(DELEGATION_TERMINAL@));
    &&& value(w, STARTUP_KEY@, ck) == Some(CLSID_WT_OPENCONSOLE@)
    &&& value(w, STARTUP_KEY@, tk) == Some(CLSID_TERMINAL@)
    &&& value(w, BACKUP_KEY@, ck) == Some(record(console))
    &&& value(w, BACKUP_KEY@, tk) == Some(record(terminal))
    &&& value(w, stub_key(IID_TERMINAL_HANDOFF3@), None) == Some(PROXY_CLSID@)
    &&& value(w, stub_key(IID_CONSOLE_HANDOFF@), None) == Some(PROXY_CLSID@)
    &&& forall|key: Seq<char>, name: Option<Seq<char>>|
        !own(key) && (key, name) != (STARTUP_KEY@, ck) && (key, name) != (STARTUP_KEY@, tk)
            ==> #[trigger] value(w, key, name) == value(v, key, name)
}

proof fn lemma_stands(v: Values, r: RegisterReads<'_>)
    requires
        !r.backup_exists,
    ensures
        standing(registered(v, r), v, prior_text(r.console), prior_text(r.terminal)),
{
    lemma_keys_are_apart();
    lemma_registered_stubs(v, r);
    let w = registered(v, r);
    let (ck, tk) = (Some(DELEGATION_CONSOLE@), Some(DELEGATION_TERMINAL@));
    lemma_registered_value(v, r, STARTUP_KEY@, ck);
    lemma_registered_value(v, r, STARTUP_KEY@, tk);
    lemma_registered_value(v, r, BACKUP_KEY@, ck);
    lemma_registered_value(v, r, BACKUP_KEY@, tk);
    assert forall|key: Seq<char>, name: Option<Seq<char>>|
        !own(key) && (key, name) != (STARTUP_KEY@, ck) && (key, name) != (STARTUP_KEY@, tk) implies
        #[trigger] value(w, key, name) == value(v, key, name) by {
        lemma_registered_value(v, r, key, name);
    }
}

proof fn lemma_still_stands(
    w: Values,
    v: Values,
    console: Option<Seq<char>>,
    terminal: Option<Seq<char>>,
    rs: Seq<RegisterReads<'_>>,
)
    requires
        standing(w, v, console, terminal),
        forall|i: int|
            0 <= i < rs.len() ==> registering_sees(
                #[trigger] rs[i],
                registered_again(w, rs.take(i)),
            ),
    ensures
        standing(registered_again(w, rs), v, console, terminal),
    decreases rs.len(),
{
    if rs.len() > 0 {
        let before = rs.drop_last();
        assert forall|i: int| 0 <= i < before.len() implies registering_sees(
            #[trigger] before[i],
            registered_again(w, before.take(i)),
        ) by {
            assert(before[i] == rs[i]);
            assert(before.take(i) =~= rs.take(i));
        }
        lemma_still_stands(w, v, console, terminal, before);
        let x = registered_again(w, before);
        let r = rs.last();
        assert(rs[rs.len() - 1] == r);
        assert(rs.take(rs.len() - 1) =~= before);
        assert(x.contains_key((BACKUP_KEY@, Some(DELEGATION_CONSOLE@))));
        assert(r.backup_exists);
        let y = registered(x, r);
        lemma_keys_are_apart();
        lemma_registered_stubs(x, r);
        let (ck, tk) = (Some(DELEGATION_CONSOLE@), Some(DELEGATION_TERMINAL@));
        lemma_registered_value(x, r, STARTUP_KEY@, ck);
        lemma_registered_value(x, r, STARTUP_KEY@, tk);
        lemma_registered_value(x, r, BACKUP_KEY@, ck);
        lemma_registered_value(x, r, BACKUP_KEY@, tk);
        assert forall|key: Seq<char>, name: Option<Seq<char>>|
            !own(key) && (key, name) != (STARTUP_KEY@, ck) && (key, name) != (
                STARTUP_KEY@,
                tk,
            ) implies #[trigger] value(y, key, name) == value(v, key, name) by {
            lemma_registered_value(x, r, key, name);
            assert(value(x, key, name) == value(v, key, name));
        }
    }
}

/// Registering, once or several times over, and then unregistering leaves every
/// value of the registry as it was, provided that nothing lay where registering
/// keeps what is its own. The backup and every tree of classes and interfaces
/// are deleted.
pub proof fn law_unregister_undoes_register(
    v: Values,
    r: RegisterReads<'_>,
    again: Seq<RegisterReads<'_>>,
    u: UnregisterReads,
)
    requires
        registering_sees(r, v),
        forall|i: int|
            0 <= i < again.len() ==> registering_sees(
                #[trigger] again[i],
                registered_again(registered(v, r), again.take(i)),
            ),
        forall|p: (Seq<char>, Option<Seq<char>>)| #[trigger] v.contains_key(p) ==> !own(p.0),
        unregistering_sees(u, registered_again(registered(v, r), again)),
    ensures
        unregistered(registered_again(registered(v, r), again), u) == v,
        forall|i: int| 0 <= i < trees().len() ==> undo_steps(u).contains(
            OpView::DeleteTree(#[trigger] trees()[i]),
        ),
        last_steps(u).contains(OpView::DeleteTree(BACKUP_KEY@)),
{
    lemma_keys_are_apart();
    if r.backup_exists {
        let name = choose|name: Option<Seq<char>>| #[trigger]
            v.contains_key((BACKUP_KEY@, name));
        assert(!own((BACKUP_KEY@, name).0));
    }
    lemma_stands(v, r);
    lemma_still_stands(
        registered(v, r),
        v,
        prior_text(r.console),
        prior_text(r.terminal),
        again,
    );
    let w = registered_again(registered(v, r), again);
    assert(w.contains_key((BACKUP_KEY@, Some(DELEGATION_CONSOLE@))));
    let (ck, tk) = (Some(DELEGATION_CONSOLE@), Some(DELEGATION_TERMINAL@));
    let first = restore_steps(
        DELEGATION_CONSOLE@,
        CLSID_WT_OPENCONSOLE@,
        prior_text(u.console_backup),
        prior_text(u.console),
    );
    let second = restore_steps(
        DELEGATION_TERMINAL@,
        CLSID_TERMINAL@,
        prior_text(u.terminal_backup),
        prior_text(u.terminal),
    );
    let cut = tree_steps(prior_text(u.terminal_stub), prior_text(u.console_stub));
    assert(!foreign(prior_text(u.terminal_stub)) && !foreign(prior_text(u.console_stub)));
    assert(cut =~= seq![
        OpView::DeleteTree(terminal_class()),
        OpView::DeleteTree(proxy_class()),
        OpView::DeleteTree(terminal_interface()),
        OpView::DeleteTree(console_interface()),
    ]);
    assert(undo_steps(u) =~= (first + second) + cut);
    lemma_performed_concat(w, first + second, cut);
    lemma_performed_concat(w, first, second);
    let w1 = all_performed(w, first);
    let w2 = all_performed(w1, second);
    let t1 = performed(w2, cut[0]);
    let t2 = performed(t1, cut[1]);
    let t3 = performed(t2, cut[2]);
    let t4 = performed(t3, cut[3]);
    assert(all_performed(w2, cut) == t4) by {
        reveal_with_fuel(all_performed, 5);
        assert(cut.drop_last() =~= seq![cut[0], cut[1], cut[2]]);
        assert(cut.drop_last().drop_last() =~= seq![cut[0], cut[1]]);
        assert(cut.drop_last().drop_last().drop_last() =~= seq![cut[0]]);
        assert(cut.drop_last().drop_last().drop_last().drop_last() =~= Seq::empty());
    }
    let names = split(created_text(u), ';');
    let gone = seq![OpView::DeleteTree(BACKUP_KEY@)];
    lemma_performed_concat(t4, gone, parent_steps(names));
    let t5 = performed(t4, gone[0]);
    assert(all_performed(t4, gone) == t5) by {
        reveal_with_fuel(all_performed, 2);
        assert(gone.drop_last() =~= Seq::empty());
    }
    lemma_parents_hold_nothing(t5, names);
    assert(unregistered(w, u) == t5);
    assert forall|p: (Seq<char>, Option<Seq<char>>)| #![trigger t5.contains_key(p)]
        value(t5, p.0, p.1) == value(v, p.0, p.1) by {
        let (key, name) = p;
        lemma_tree_deleted(t4, BACKUP_KEY@, key, name);
        lemma_tree_deleted(t3, console_interface(), key, name);
        lemma_tree_deleted(t2, terminal_interface(), key, name);
        lemma_tree_deleted(t1, proxy_class(), key, name);
        lemma_tree_deleted(w2, terminal_class(), key, name);
        if own(key) {
            assert(!v.contains_key((key, name)));
        } else {
            lemma_restored(
                w,
                DELEGATION_CONSOLE@,
                CLSID_WT_OPENCONSOLE@,
                prior_text(r.console),
                key,
                name,
            );
            lemma_restored(
                w1,
                DELEGATION_TERMINAL@,
                CLSID_TERMINAL@,
                prior_text(r.terminal),
                key,
                name,
            );
        }
    }
    assert forall|p: (Seq<char>, Option<Seq<char>>)|
        #[trigger] t5.contains_key(p) == v.contains_key(p) && (v.contains_key(p) ==> t5[p]
            == v[p]) by {
        assert(value(t5, p.0, p.1) == value(v, p.0, p.1));
    }
    assert(t5 =~= v);
    let n = (first + second).len() as int;
    assert forall|i: int| 0 <= i < trees().len() implies undo_steps(u).contains(
        OpView::DeleteTree(#[trigger] trees()[i]),
    ) by {
        assert(undo_steps(u)[n + i] == cut[i]);
        assert(cut[i] == OpView::DeleteTree(trees()[i]));
    }
    assert(last_steps(u)[0] == OpView::DeleteTree(BACKUP_KEY@));
}

/// A delegation value that the user has changed since is left alone.
pub proof fn law_users_choice_stays(
    name: Seq<char>,
    ours: Seq<char>,
    backup: Option<Seq<char>>,
    current: Option<Seq<char>>,
)
    requires
        current is None || !same_ignoring_case(current->0, ours),
    ensures
        restore_steps(name, ours, backup, current).len() == 0,
{
}

/// Registering the classes alone and taking it back leaves every value of the
/// registry as it was, provided that their trees held none.
pub proof fn law_com_only_is_undone(v: Values, exe: Seq<char>, dll: Seq<char>)
    requires
        forall|p: (Seq<char>, Option<Seq<char>>), t: int|
            #[trigger] v.contains_key(p) && 0 <= t < 4 ==> !under(p.0, #[trigger] trees()[t]),
    ensures
        ({
            let entries = entries_of(exe, dll).map_values(
                |e: EntryView| OpView::Write(e.0, e.1, e.2),
            );
            all_performed(all_performed(v, entries), com_only_undo()) == v
        }),
{
    let entries = entries_of(exe, dll).map_values(|e: EntryView| OpView::Write(e.0, e.1, e.2));
    let w = all_performed(v, entries);
    let d = com_only_undo();
    let t1 = performed(w, d[0]);
    let t2 = performed(t1, d[1]);
    let t3 = performed(t2, d[2]);
    let t4 = performed(t3, d[3]);
    assert(all_performed(w, d) == t4) by {
        reveal_with_fuel(all_performed, 5);
        assert(d.drop_last() =~= seq![d[0], d[1], d[2]]);
        assert(d.drop_last().drop_last() =~= seq![d[0], d[1]]);
        assert(d.drop_last().drop_last().drop_last() =~= seq![d[0]]);
        assert(d.drop_last().drop_last().drop_last().drop_last() =~= Seq::empty());
    }
    assert forall|p: (Seq<char>, Option<Seq<char>>)| #![trigger t4.contains_key(p)]
        value(t4, p.0, p.1) == value(v, p.0, p.1) by {
        let (key, name) = p;
        lemma_tree_deleted(t3, trees()[3], key, name);
        lemma_tree_deleted(t2, trees()[2], key, name);
        lemma_tree_deleted(t1, trees()[1], key, name);
        lemma_tree_deleted(w, trees()[0], key, name);
        if under(key, trees()[0]) || under(key, trees()[1]) || under(key, trees()[2]) || under(
            key,
            trees()[3],
        ) {
            assert(!v.contains_key((key, name)));
        } else {
            assert forall|i: int| 0 <= i < entries.len() implies {
                &&& #[trigger] entries[i] is Write
                &&& (entries[i]->Write_0, entries[i]->Write_1) != (key, name)
            } by {
                law_entries_lie_in_the_trees(exe, dll, i);
            }
            lemma_writes_elsewhere(v, entries, key, name);
        }
    }
    assert forall|p: (Seq<char>, Option<Seq<char>>)|
        #[trigger] t4.contains_key(p) == v.contains_key(p) && (v.contains_key(p) ==> t4[p]
            == v[p]) by {
        assert(value(t4, p.0, p.1) == value(v, p.0, p.1));
    }
    assert(t4 =~= v);
}

/// The steps that delete each of `names`, if it holds nothing.
pub open spec fn deletions(names: Seq<Seq<char>>) -> Seq<OpView> {
    names.map_values(|k: Seq<char>| OpView::DeleteIfEmpty(k))
}

proof fn lemma_parents_all(names: Seq<Seq<char>>)
    requires
        forall|i: int| 0 <= i < names.len() ==> is_parent(#[trigger] names[i]),
    ensures
        parent_steps(names) == deletions(names),
    decreases names.len(),
{
    if names.len() > 0 {
        lemma_parents_all(names.drop_last());
        assert(parent_steps(names) =~= deletions(names));
    } else {
        assert(parent_steps(names) =~= deletions(names));
    }
}

/// The parent keys that registering created are those that unregistering removes
/// again, in the same order, and no others.
pub proof fn law_created_parents_are_removed(giest: bool, interface: bool, clsid: bool)
    ensures
        parent_steps(split(joined(created(giest, interface, clsid), ';'), ';')) == deletions(
            created(giest, interface, clsid),
        ),
{
    let v = created(giest, interface, clsid);
    reveal_strlit("Software\\giest");
    reveal_strlit("Software\\Classes\\Interface");
    reveal_strlit("Software\\Classes\\CLSID");
    if v.len() == 0 {
        let e = Seq::<char>::empty();
        assert(split(e, ';') =~= seq![e]);
        assert(GIEST_PARENT@.len() > 0 && INTERFACE_PARENT@.len() > 0 && CLSID_PARENT@.len() > 0);
        assert(seq![e].drop_last() =~= Seq::empty());
        reveal_with_fuel(parent_steps, 2);
        assert(parent_steps(seq![e]) =~= deletions(v));
    } else {
        lemma_split_joined(v, ';');
        lemma_parents_all(v);
    }
}

/// Registering is refused exactly where the program is no window program, the
/// proxy library is missing, or one of the interfaces names another's proxy; and
/// the first of these is what is said.
pub proof fn law_registering_is_refused_with_reason(r: RegisterReads<'_>)
    ensures
        refusal(r) is None <==> subsystem(r.image@) == Some(2u16) && r.dll_found && !foreign(
            prior_text(r.terminal_stub),
        ) && !foreign(prior_text(r.console_stub)),
        refusal(r) is Some && subsystem(r.image@) != Some(2u16) ==> refusal(r) == Some(
            not_gui(r.exe@),
        ),
        refusal(r) is Some && subsystem(r.image@) == Some(2u16) && !r.dll_found ==> refusal(r)
            == Some(no_dll(r.dll@)),
        refusal(r) is Some && subsystem(r.image@) == Some(2u16) && r.dll_found ==> refusal(r)
            == Some(
            taken(
                if foreign(prior_text(r.terminal_stub)) {
                    IID_TERMINAL_HANDOFF3@
                } else {
                    IID_CONSOLE_HANDOFF@
                },
                if foreign(prior_text(r.terminal_stub)) {
                    prior_text(r.terminal_stub)
                } else {
                    prior_text(r.console_stub)
                },
            ),
        ),
{
}

/// A proxy is another's exactly if one is named and it is not this one, in
/// whatever case its identifier is written.
pub proof fn law_own_proxy_is_not_foreign(stub: Option<Seq<char>>)
    ensures
        foreign(stub) <==> stub is Some && crate::text::lower(stub->0) != crate::text::lower(
            PROXY_CLSID@,
        ),
{
}

/// What is registered: the terminal class starts the program, in quotes; the
/// proxy class loads the library; both interfaces name the proxy; and the
/// delegation names the console and the terminal.
pub proof fn law_registered_values(exe: Seq<char>, dll: Seq<char>)
    ensures
        ({
            let w = write_steps(exe, dll);
            let class = "Software\\Classes\\CLSID\\"@;
            let interface = "Software\\Classes\\Interface\\"@;
            let server = "\\LocalServer32"@;
            let library = "\\InProcServer32"@;
            let stub = "\\ProxyStubClsid32"@;
            &&& w.contains(
                OpView::Write(class + CLSID_TERMINAL@ + server, None, "\""@ + exe + "\""@),
            )
            &&& w.contains(OpView::Write(class + PROXY_CLSID@ + library, None, dll))
            &&& w.contains(
                OpView::Write(class + PROXY_CLSID@ + library, Some("ThreadingModel"@), "Both"@),
            )
            &&& w.contains(
                OpView::Write(interface + IID_TERMINAL_HANDOFF3@ + stub, None, PROXY_CLSID@),
            )
            &&& w.contains(
                OpView::Write(interface + IID_CONSOLE_HANDOFF@ + stub, None, PROXY_CLSID@),
            )
            &&& w.contains(
                OpView::Write(STARTUP_KEY@, Some("DelegationConsole"@), CLSID_WT_OPENCONSOLE@),
            )
            &&& w.contains(
                OpView::Write(STARTUP_KEY@, Some("DelegationTerminal"@), CLSID_TERMINAL@),
            )
        }),
{
    let w = write_steps(exe, dll);
    let e = entries_of(exe, dll);
    assert(e.len() == 9);
    assert(w[1] == OpView::Write(e[1].0, e[1].1, e[1].2));
    assert(w[3] == OpView::Write(e[3].0, e[3].1, e[3].2));
    assert(w[4] == OpView::Write(e[4].0, e[4].1, e[4].2));
    assert(w[6] == OpView::Write(e[6].0, e[6].1, e[6].2));
    assert(w[8] == OpView::Write(e[8].0, e[8].1, e[8].2));
    assert(w[9] == OpView::Write(STARTUP_KEY@, Some(DELEGATION_CONSOLE@), CLSID_WT_OPENCONSOLE@));
    assert(w[10] == OpView::Write(STARTUP_KEY@, Some(DELEGATION_TERMINAL@), CLSID_TERMINAL@));
}

/// What is said of a value is what is done with it: the value it gets back, that
/// it is removed, or that it stays, with what it is by now.
pub proof fn law_report_tells_what_is_done(
    name: Seq<char>,
    ours: Seq<char>,
    backup: Option<Seq<char>>,
    current: Option<Seq<char>>,
)
    ensures
        ({
            let line = restore_line(name, ours, backup, current);
            let s = restore_steps(name, ours, backup, current);
            &&& name.is_prefix_of(line)
            &&& backed_up(backup) is None ==> s.len() == 0 && line == name
                + ": no usable backup; left as is\n"@
            &&& s.len() == 1 && s[0] is Write ==> s[0]->Write_0 == STARTUP_KEY@ && s[0]->Write_1
                == Some(name) && line == name + " restored to "@ + s[0]->Write_2 + "\n"@
            &&& s.len() == 1 && s[0] is DeleteValue ==> s[0]->DeleteValue_0 == STARTUP_KEY@
                && s[0]->DeleteValue_1 == name && line == name + " removed (it was absent)\n"@
            &&& s.len() == 0 && backed_up(backup) is Some && current is Some ==> line == name
                + " is now "@ + current->0 + ", not giest's; left as is\n"@
            &&& s.len() == 0 && backed_up(backup) is Some && current is None ==> line == name
                + " is now (absent), not giest's; left as is\n"@
            &&& s.len() <= 1
        }),
{
    reveal_strlit(" is now ");
    reveal_strlit("(absent)");
    reveal_strlit(", not giest's; left as is\n");
    reveal_strlit(" is now (absent), not giest's; left as is\n");
    assert(name + " is now "@ + "(absent)"@ + ", not giest's; left as is\n"@ =~= name
        + " is now (absent), not giest's; left as is\n"@);
}

/// A value that was backed up comes back: the step writes what was there before,
/// or deletes what was not there, where the value is still the one that was
/// registered.
pub proof fn law_backup_is_what_comes_back(
    name: Seq<char>,
    ours: Seq<char>,
    prior: Option<Seq<char>>,
    current: Seq<char>,
)
    requires
        same_ignoring_case(current, ours),
    ensures
        prior is Some ==> restore_steps(name, ours, Some(record(prior)), Some(current)) == seq![
            OpView::Write(STARTUP_KEY@, Some(name), prior->0),
        ],
        prior is None ==> restore_steps(name, ours, Some(record(prior)), Some(current)) == seq![
            OpView::DeleteValue(STARTUP_KEY@, name),
        ],
        restore_steps(name, ours, None, Some(current)).len() == 0,
{
    crate::handoff::law_prior_reads_back(prior);
}

/// The parents that registering may create are those of the keys it writes: the
/// backup lies under one, classes and interfaces under the two others.
pub proof fn law_parents_hold_what_is_written()
    ensures
        begins(BACKUP_KEY@, GIEST_PARENT@ + "\\"@),
        CLSID_ROOT@ == CLSID_PARENT@ + "\\"@,
        INTERFACE_ROOT@ == INTERFACE_PARENT@ + "\\"@,
        is_parent(GIEST_PARENT@) && is_parent(CLSID_PARENT@) && is_parent(INTERFACE_PARENT@),
{
    reveal_strlit("Software\\giest\\DefaultTerminal");
    reveal_strlit("Software\\giest");
    reveal_strlit("\\");
    reveal_strlit("Software\\Classes\\CLSID\\");
    reveal_strlit("Software\\Classes\\CLSID");
    reveal_strlit("Software\\Classes\\Interface\\");
    reveal_strlit("Software\\Classes\\Interface");
    let p = GIEST_PARENT@ + "\\"@;
    assert(BACKUP_KEY@.take(p.len() as int) =~= p);
    assert(CLSID_ROOT@ =~= CLSID_PARENT@ + "\\"@);
    assert(INTERFACE_ROOT@ =~= INTERFACE_PARENT@ + "\\"@);
}

} // verus!
