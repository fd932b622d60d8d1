//! Being the default terminal: the registry, and taking a session over.

use giest::handoff::registry::{
    RegisterReads, RegistryOp, UnregisterReads, CREATED_VALUE,
};
use giest::handoff::{
    check_gui_subsystem, class_entries, class_trees, decode_prior, delegation_pair, encode_prior,
    is_embedding, pe_subsystem, register, register_com_only, resize_message, restore_action,
    unregister, unregister_com_only, Entry, Restore, BACKUP_KEY, CLSID_TERMINAL,
    CLSID_WT_OPENCONSOLE, DELEGATION_CONSOLE, DELEGATION_TERMINAL, IID_TERMINAL_HANDOFF3,
    PROXY_CLSID, STARTUP_KEY,
};

#[test]
fn resize_is_signal_8_then_cols_rows_little_endian() {
    assert_eq!(resize_message(120, 30), [8, 0, 120, 0, 30, 0]);
    assert_eq!(resize_message(300, 0), [8, 0, 0x2c, 0x01, 1, 0], "zero clamps to 1");
}

#[test]
fn embedding_flag_in_either_spelling() {
    let a = |v: &[&str]| v.iter().map(|s| s.to_string()).collect::<Vec<_>>();
    assert!(is_embedding(&a(&["-Embedding"])));
    assert!(is_embedding(&a(&["/embedding"])));
    assert!(!is_embedding(&a(&["+new-tab"])));
}

#[test]
fn class_entries_point_at_the_exe_and_the_proxy() {
    let e = class_entries(r"C:\a b\giest.exe", r"C:\a b\giestHandoffProxy.dll");
    assert!(e.contains(&(
        format!(r"Software\Classes\CLSID\{CLSID_TERMINAL}\LocalServer32"),
        None,
        r#""C:\a b\giest.exe""#.into()
    )));
    assert!(e.contains(&(
        format!(r"Software\Classes\Interface\{IID_TERMINAL_HANDOFF3}\ProxyStubClsid32"),
        None,
        PROXY_CLSID.into()
    )));
    assert!(e.contains(&(
        format!(r"Software\Classes\CLSID\{PROXY_CLSID}\InProcServer32"),
        Some("ThreadingModel"),
        "Both".into()
    )));
    // Every key written lies under a tree unregister deletes.
    for (k, _, _) in &e {
        assert!(class_trees().iter().any(|t| k.starts_with(t.as_str())), "{k}");
    }
}

/// The smallest image that says which subsystem it is for.
fn image(subsystem: u16) -> Vec<u8> {
    let mut img = vec![0u8; 0x200];
    img[0..2].copy_from_slice(b"MZ");
    img[0x3c..0x40].copy_from_slice(&0x80u32.to_le_bytes());
    img[0x80..0x84].copy_from_slice(b"PE\0\0");
    img[0x80 + 24 + 68..0x80 + 24 + 70].copy_from_slice(&subsystem.to_le_bytes());
    img
}

#[test]
fn pe_subsystem_reads_the_optional_header() {
    assert_eq!(pe_subsystem(&image(2)), Some(2));
    assert_eq!(pe_subsystem(b"not a pe"), None);
    assert_eq!(pe_subsystem(&image(3)), Some(3));
}

#[test]
fn prior_values_round_trip_including_absence() {
    for p in [None, Some(String::new()), Some("{00000000-0000-0000-0000-000000000000}".into())] {
        assert_eq!(decode_prior(&encode_prior(&p)), Some(p));
    }
    assert_eq!(decode_prior("garbage"), None);
}

#[test]
fn restore_puts_back_exactly_what_was_there() {
    let ours = CLSID_TERMINAL;
    let zero = "{00000000-0000-0000-0000-000000000000}".to_string();
    assert_eq!(
        restore_action(&Some(ours.to_lowercase()), ours, &Some(zero.clone())),
        Restore::Put(zero)
    );
    assert_eq!(restore_action(&Some(ours.into()), ours, &None), Restore::Delete);
    // The user picked something else since: leave it.
    assert_eq!(
        restore_action(&Some(CLSID_WT_OPENCONSOLE.into()), ours, &None),
        Restore::Keep
    );
    assert_eq!(restore_action(&None, ours, &None), Restore::Keep);
}

#[test]
fn a_console_program_is_refused() {
    assert_eq!(check_gui_subsystem("giest.exe", &image(2)), Ok(()));
    assert!(check_gui_subsystem("giest.exe", &image(3)).is_err());
    assert!(check_gui_subsystem("giest.exe", b"").is_err());
    // A header that points past the end is no header.
    let mut cut = image(2);
    cut[0x3c..0x40].copy_from_slice(&0xffff_fff0u32.to_le_bytes());
    assert_eq!(pe_subsystem(&cut), None);
}

#[test]
fn the_console_stays_with_the_system_and_the_terminal_is_ours() {
    assert_eq!(
        delegation_pair(),
        [(DELEGATION_CONSOLE, CLSID_WT_OPENCONSOLE), (DELEGATION_TERMINAL, CLSID_TERMINAL)]
    );
}

/// A registry held in memory.
#[derive(Clone, Debug, PartialEq)]
struct Hive(Vec<Entry>);

impl Hive {
    fn get(&self, key: &str, name: Option<&str>) -> Option<String> {
        self.0.iter().find(|e| e.0 == key && e.1 == name).map(|e| e.2.clone())
    }

    fn holds(&self, key: &str) -> bool {
        self.0.iter().any(|e| e.0 == key || e.0.starts_with(&format!("{key}\\")))
    }

    fn run(&mut self, ops: &[RegistryOp]) {
        for op in ops {
            match op {
                RegistryOp::Write(e) => {
                    self.0.retain(|o| !(o.0 == e.0 && o.1 == e.1));
                    self.0.push(e.clone());
                }
                RegistryOp::DeleteValue(key, name) => {
                    self.0.retain(|o| !(o.0 == *key && o.1 == Some(*name)));
                }
                RegistryOp::DeleteTree(tree) => {
                    self.0.retain(|o| !(o.0 == *tree || o.0.starts_with(&format!("{tree}\\"))));
                }
                RegistryOp::DeleteIfEmpty(_) => {}
            }
        }
    }

    fn sorted(&self) -> Vec<Entry> {
        let mut v = self.0.clone();
        v.sort();
        v
    }

    fn stub(&self, interface: &str) -> Option<String> {
        self.get(&format!(r"Software\Classes\Interface\{interface}\ProxyStubClsid32"), None)
    }
}

const CONSOLE_INTERFACE: &str = giest::handoff::IID_CONSOLE_HANDOFF;

fn reads<'a>(h: &Hive, img: &'a [u8]) -> RegisterReads<'a> {
    RegisterReads {
        exe: r"C:\giest.exe",
        image: img,
        dll: r"C:\giestHandoffProxy.dll",
        dll_found: true,
        terminal_stub: h.stub(IID_TERMINAL_HANDOFF3),
        console_stub: h.stub(CONSOLE_INTERFACE),
        backup_exists: h.holds(BACKUP_KEY),
        giest_exists: h.holds(r"Software\giest"),
        interface_exists: h.holds(r"Software\Classes\Interface"),
        clsid_exists: h.holds(r"Software\Classes\CLSID"),
        console: h.get(STARTUP_KEY, Some(DELEGATION_CONSOLE)),
        terminal: h.get(STARTUP_KEY, Some(DELEGATION_TERMINAL)),
    }
}

fn undo_reads(h: &Hive) -> UnregisterReads {
    UnregisterReads {
        backup_exists: h.holds(BACKUP_KEY),
        console_backup: h.get(BACKUP_KEY, Some(DELEGATION_CONSOLE)),
        terminal_backup: h.get(BACKUP_KEY, Some(DELEGATION_TERMINAL)),
        console: h.get(STARTUP_KEY, Some(DELEGATION_CONSOLE)),
        terminal: h.get(STARTUP_KEY, Some(DELEGATION_TERMINAL)),
        terminal_stub: h.stub(IID_TERMINAL_HANDOFF3),
        console_stub: h.stub(CONSOLE_INTERFACE),
        created: h.get(BACKUP_KEY, Some(CREATED_VALUE)),
    }
}

#[test]
fn unregistering_undoes_registering() {
    let img = image(2);
    let before = Hive(vec![(
        STARTUP_KEY.to_string(),
        Some(DELEGATION_TERMINAL),
        "{11111111-0000-0000-0000-000000000000}".to_string(),
    )]);
    let mut h = before.clone();
    let plan = register(&reads(&h, &img)).expect("registers");
    h.run(&plan.backup);
    h.run(&plan.writes);
    assert_eq!(h.get(STARTUP_KEY, Some(DELEGATION_TERMINAL)).as_deref(), Some(CLSID_TERMINAL));
    assert_eq!(
        h.get(STARTUP_KEY, Some(DELEGATION_CONSOLE)).as_deref(),
        Some(CLSID_WT_OPENCONSOLE)
    );
    // Registering again keeps the first backup.
    let again = register(&reads(&h, &img)).expect("registers");
    h.run(&again.backup);
    h.run(&again.writes);
    let undo = unregister(&undo_reads(&h));
    h.run(&undo.steps);
    h.run(&undo.last);
    assert_eq!(h.sorted(), before.sorted());
}

#[test]
fn a_choice_made_since_is_left_alone() {
    let img = image(2);
    let mut h = Hive(Vec::new());
    let plan = register(&reads(&h, &img)).expect("registers");
    h.run(&plan.backup);
    h.run(&plan.writes);
    let other = "{22222222-0000-0000-0000-000000000000}".to_string();
    h.run(&[RegistryOp::Write((
        STARTUP_KEY.to_string(),
        Some(DELEGATION_TERMINAL),
        other.clone(),
    ))]);
    let undo = unregister(&undo_reads(&h));
    h.run(&undo.steps);
    h.run(&undo.last);
    assert_eq!(h.get(STARTUP_KEY, Some(DELEGATION_TERMINAL)), Some(other));
}

#[test]
fn registering_is_refused_without_what_it_needs() {
    let img = image(2);
    let h = Hive(Vec::new());
    let mut r = reads(&h, &img);
    r.dll_found = false;
    assert!(register(&r).is_err());
    let console = image(3);
    assert!(register(&reads(&h, &console)).is_err());
}

#[test]
fn the_classes_alone_are_taken_away_again() {
    let img = image(2);
    let mut h = Hive(Vec::new());
    let plan = register_com_only(r"C:\giest.exe", &img, r"C:\p.dll", true, [false; 4]).expect("ok");
    assert!(!plan.is_empty());
    let writes: Vec<RegistryOp> = plan.into_iter().map(RegistryOp::Write).collect();
    h.run(&writes);
    assert!(h.holds(&format!(r"Software\Classes\CLSID\{CLSID_TERMINAL}")));
    h.run(&unregister_com_only());
    assert_eq!(h, Hive(Vec::new()));
    assert!(register_com_only(r"C:\giest.exe", &img, r"C:\p.dll", false, [false; 4]).is_err());
    assert!(
        register_com_only(r"C:\giest.exe", &img, r"C:\p.dll", true, [false, true, false, false])
            .is_err()
    );
}
