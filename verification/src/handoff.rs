//! Default-terminal handoff: the messages, the registry values and the reversible
//! registration.

pub mod registry;

pub use crate::handoff::registry::{
    class_entries, class_trees, register, register_com_only, unregister, unregister_com_only, Entry,
};

use crate::text::{chars, concat, eq_ignore_case, lower, same_ignoring_case, spells, string};
use vstd::prelude::*;

verus! {

/// The terminal class.
pub const CLSID_TERMINAL: &'static str = "{2CED21A9-5236-4F72-B71F-10F3949295E5}";

/// The proxy/stub class of the proxy library.
pub const PROXY_CLSID: &'static str = "{4CDF6A34-42C2-488C-84D2-4BC3F55F519D}";

/// Windows Terminal's console class.
pub const CLSID_WT_OPENCONSOLE: &'static str = "{2EACA947-7F5F-4CFA-BA87-8F7FBEEFBE69}";

/// `ITerminalHandoff3`.
pub const IID_TERMINAL_HANDOFF3: &'static str = "{6F23DA90-15C5-4203-9DB0-64E73F1B1B00}";

/// `IConsoleHandoff`.
pub const IID_CONSOLE_HANDOFF: &'static str = "{E686C757-9A35-4A1C-B3CE-0BCC8B5C69F4}";

/// The proxy library's file name.
pub const PROXY_DLL: &'static str = "giestHandoffProxy.dll";

/// Where the delegation pair is read.
pub const STARTUP_KEY: &'static str = "Console\\%%Startup";

/// Where the replaced delegation values are kept.
pub const BACKUP_KEY: &'static str = "Software\\giest\\DefaultTerminal";

pub const DELEGATION_CONSOLE: &'static str = "DelegationConsole";

pub const DELEGATION_TERMINAL: &'static str = "DelegationTerminal";

/// The signal that resizes the window.
pub const PTY_SIGNAL_RESIZE_WINDOW: u16 = 8;

/// The two bytes of `n`, the low one first.
pub open spec fn le16(n: u16) -> Seq<u8> {
    seq![(n % 256) as u8, (n / 256) as u8]
}

/// `n`, but at least one.
pub open spec fn nonzero(n: u16) -> u16 {
    if n == 0 {
        1
    } else {
        n
    }
}

/// The message that resizes a handed-off pseudoconsole: the signal, columns and
/// rows, low byte first. Neither size is ever zero.
pub fn resize_message(cols: u16, rows: u16) -> (m: [u8; 6])
    ensures
        m@ == le16(PTY_SIGNAL_RESIZE_WINDOW) + le16(nonzero(cols)) + le16(nonzero(rows)),
{
    let c: u16 = if cols == 0 {
        1
    } else {
        cols
    };
    let r: u16 = if rows == 0 {
        1
    } else {
        rows
    };
    let m: [u8; 6] = [
        (PTY_SIGNAL_RESIZE_WINDOW % 256) as u8,
        (PTY_SIGNAL_RESIZE_WINDOW / 256) as u8,
        (c % 256) as u8,
        (c / 256) as u8,
        (r % 256) as u8,
        (r / 256) as u8,
    ];
    assert(m@ =~= le16(PTY_SIGNAL_RESIZE_WINDOW) + le16(c) + le16(r));
    m
}

/// The number two bytes spell, the low one first.
pub open spec fn read_le16(b: Seq<u8>, at: int) -> u16 {
    (b[at] + b[at + 1] * 256) as u16
}

/// A resize message says which size it asks for.
pub proof fn law_resize_message_reads_back(cols: u16, rows: u16)
    ensures
        ({
            let m = le16(PTY_SIGNAL_RESIZE_WINDOW) + le16(nonzero(cols)) + le16(nonzero(rows));
            &&& m.len() == 6
            &&& read_le16(m, 0) == 8
            &&& read_le16(m, 2) == nonzero(cols)
            &&& read_le16(m, 4) == nonzero(rows)
        }),
{
}

/// Whether an argument is the flag that COM appends, in either spelling.
pub open spec fn embedding_flag(a: Seq<char>) -> bool {
    same_ignoring_case(a, "-Embedding"@) || same_ignoring_case(a, "/Embedding"@)
}

/// Whether the command line asks for the COM server.
pub fn is_embedding(args: &[String]) -> (r: bool)
    ensures
        r == exists|i: int| 0 <= i < args@.len() && embedding_flag(#[trigger] args@[i]@),
{
    let mut i: usize = 0;
    while i < args.len()
        invariant
            i <= args@.len(),
            forall|k: int| 0 <= k < i ==> !embedding_flag(#[trigger] args@[k]@),
        decreases args@.len() - i,
    {
        let a = args[i].as_str();
        if eq_ignore_case(a, "-Embedding") || eq_ignore_case(a, "/Embedding") {
            return true;
        }
        i += 1;
    }
    false
}

/// A registry value as it was: present with data, or absent.
pub type Prior = Option<String>;

/// What a prior value holds.
pub open spec fn prior_text(p: Prior) -> Option<Seq<char>> {
    match p {
        Some(s) => Some(s@),
        None => None,
    }
}

/// The record of a prior value: `=` and the data, or `-` for an absent one.
pub open spec fn record(p: Option<Seq<char>>) -> Seq<char> {
    match p {
        Some(v) => seq!['='] + v,
        None => seq!['-'],
    }
}

/// The prior value a record tells of; `None` for a record that is not one.
pub open spec fn recorded(s: Seq<char>) -> Option<Option<Seq<char>>> {
    if s == seq!['-'] {
        Some(None)
    } else if s.len() > 0 && s[0] == '=' {
        Some(Some(s.skip(1)))
    } else {
        None
    }
}

/// Record a prior value, so that an absent one can be told from a lost record.
pub fn encode_prior(p: &Prior) -> (s: String)
    ensures
        s@ == record(prior_text(*p)),
{
    proof {
        reveal_strlit("=");
        reveal_strlit("-");
    }
    match p {
        Some(v) => {
            assert("="@ =~= seq!['=']);
            concat("=", v.as_str())
        },
        None => {
            assert("-"@ =~= seq!['-']);
            "-".to_owned()
        },
    }
}

/// Inverse of [`encode_prior`]; `None` for a malformed record.
pub fn decode_prior(s: &str) -> (p: Option<Prior>)
    ensures
        match p {
            Some(x) => recorded(s@) == Some(prior_text(x)),
            None => recorded(s@) is None,
        },
{
    proof {
        reveal_strlit("-");
        assert("-"@ =~= seq!['-']);
    }
    let cs = chars(s);
    if spells(cs.as_slice(), "-") {
        return Some(None);
    }
    if cs.len() > 0 && cs[0] == '=' {
        let rest = vstd::slice::slice_subrange(cs.as_slice(), 1, cs.len());
        let v = string(rest);
        assert(v@ =~= s@.skip(1));
        return Some(Some(v));
    }
    None
}

/// A record reads back as the value it records, absent or not.
pub proof fn law_prior_reads_back(p: Option<Seq<char>>)
    ensures
        recorded(record(p)) == Some(p),
{
    match p {
        Some(v) => {
            assert((seq!['='] + v).skip(1) =~= v);
            assert((seq!['='] + v)[0] == '=');
            assert(seq!['-'][0] == '-');
        },
        None => {},
    }
}

/// What unregistering does with one delegation value.
#[derive(Debug, PartialEq, Eq)]
pub enum Restore {
    /// Write this back.
    Put(String),
    Delete,
    /// The value is no longer the one that registering wrote: leave it.
    Keep,
}

/// What unregistering does with one delegation value.
pub ghost enum RestoreView {
    Put(Seq<char>),
    Delete,
    Keep,
}

impl View for Restore {
    type V = RestoreView;

    open spec fn view(&self) -> RestoreView {
        match self {
            Restore::Put(v) => RestoreView::Put(v@),
            Restore::Delete => RestoreView::Delete,
            Restore::Keep => RestoreView::Keep,
        }
    }
}

/// The restore of one value: `current` is there now, `ours` was written by
/// registering, `prior` was there before.
pub open spec fn restore(
    current: Option<Seq<char>>,
    ours: Seq<char>,
    prior: Option<Seq<char>>,
) -> RestoreView {
    match (current, prior) {
        (Some(c), Some(v)) if same_ignoring_case(c, ours) => RestoreView::Put(v),
        (Some(c), None) if same_ignoring_case(c, ours) => RestoreView::Delete,
        _ => RestoreView::Keep,
    }
}

/// Decide the restore of one value.
pub fn restore_action(current: &Prior, ours: &str, prior: &Prior) -> (r: Restore)
    ensures
        r@ == restore(prior_text(*current), ours@, prior_text(*prior)),
{
    match current {
        Some(c) => {
            if !eq_ignore_case(c.as_str(), ours) {
                return Restore::Keep;
            }
        },
        None => {
            return Restore::Keep;
        },
    }
    match prior {
        Some(v) => Restore::Put(v.as_str().to_owned()),
        None => Restore::Delete,
    }
}

/// The pair that registering writes.
pub fn delegation_pair() -> (r: [(&'static str, &'static str); 2])
    ensures
        r@[0] == (DELEGATION_CONSOLE, CLSID_WT_OPENCONSOLE),
        r@[1] == (DELEGATION_TERMINAL, CLSID_TERMINAL),
{
    [(DELEGATION_CONSOLE, CLSID_WT_OPENCONSOLE), (DELEGATION_TERMINAL, CLSID_TERMINAL)]
}

/// The number four bytes spell, the low one first.
pub open spec fn read_le32(b: Seq<u8>, at: int) -> int {
    b[at] + b[at + 1] * 0x100 + b[at + 2] * 0x1_0000 + b[at + 3] * 0x100_0000
}

/// The subsystem an executable image names; `None` for bytes that are not one.
pub open spec fn subsystem(image: Seq<u8>) -> Option<u16> {
    if image.len() < 0x40 || image[0] != 0x4d || image[1] != 0x5a {
        None
    } else {
        let pe = read_le32(image, 0x3c);
        if pe + 94 <= image.len() && image[pe] == 0x50 && image[pe + 1] == 0x45 && image[pe + 2] == 0
            && image[pe + 3] == 0 {
            Some(read_le16(image, pe + 92))
        } else {
            None
        }
    }
}

/// The subsystem of the executable `image`: 2 for a window program, 3 for a
/// console program.
pub fn pe_subsystem(image: &[u8]) -> (r: Option<u16>)
    ensures
        r == subsystem(image@),
{
    if image.len() < 0x40 || image[0] != 0x4d || image[1] != 0x5a {
        return None;
    }
    let pe: u64 = image[0x3c] as u64 + image[0x3d] as u64 * 0x100 + image[0x3e] as u64 * 0x1_0000
        + image[0x3f] as u64 * 0x100_0000;
    if pe + 94 > image.len() as u64 {
        return None;
    }
    let pe: usize = pe as usize;
    if image[pe] != 0x50 || image[pe + 1] != 0x45 || image[pe + 2] != 0 || image[pe + 3] != 0 {
        return None;
    }
    Some(image[pe + 92] as u16 + image[pe + 93] as u16 * 256)
}

/// The message for an executable that is not a window program.
pub open spec fn not_gui(exe: Seq<char>) -> Seq<char> {
    exe + " is not a GUI-subsystem build (a debug build?); register a release build"@
}

/// Refuse an executable that is not a window program: COM would start it with a
/// console of its own, and creating that goes through the delegation again.
pub fn check_gui_subsystem(exe: &str, image: &[u8]) -> (r: Result<(), String>)
    ensures
        match r {
            Ok(_) => subsystem(image@) == Some(2u16),
            Err(e) => subsystem(image@) != Some(2u16) && e@ == not_gui(exe@),
        },
{
    match pe_subsystem(image) {
        Some(s) => {
            if s == 2 {
                return Ok(());
            }
        },
        None => {},
    }
    Err(
        concat(exe, " is not a GUI-subsystem build (a debug build?); register a release build"),
    )
}

/// Handle values as numbers, valid in the process that owns them.
#[derive(Clone, Copy, Debug, PartialEq, Eq, Structural)]
pub struct RawHandles {
    pub input: u64,
    pub output: u64,
    pub signal: u64,
    pub reference: u64,
    pub server: u64,
    pub client: u64,
}

/// No size is ever zero, and any other is kept.
pub proof fn law_sizes_are_never_zero(n: u16)
    ensures
        nonzero(n) >= 1,
        n >= 1 ==> nonzero(n) == n,
        n == 0 ==> nonzero(n) == 1,
{
}

/// The flag is the word behind a dash or a slash, in whatever case it is
/// written.
pub proof fn law_embedding_flag_in_any_case(a: Seq<char>)
    ensures
        embedding_flag(a) <==> a.len() > 0 && (a[0] == '-' || a[0] == '/') && lower(a.skip(1))
            == "embedding"@,
{
    reveal_strlit("-Embedding");
    reveal_strlit("/Embedding");
    reveal_strlit("embedding");
    let d = lower("-Embedding"@);
    let s = lower("/Embedding"@);
    assert(d =~= seq!['-'] + "embedding"@);
    assert(s =~= seq!['/'] + "embedding"@);
    if a.len() > 0 {
        assert(lower(a) =~= seq![crate::text::lower_char(a[0])] + lower(a.skip(1)));
        assert(lower(a).skip(1) =~= lower(a.skip(1)));
        assert(d.skip(1) =~= "embedding"@);
        assert(s.skip(1) =~= "embedding"@);
        assert(lower(a)[0] == crate::text::lower_char(a[0]));
        assert(d[0] == '-' && s[0] == '/');
        if lower(a.skip(1)) == "embedding"@ {
            if a[0] == '-' {
                assert(lower(a) =~= d);
            }
            if a[0] == '/' {
                assert(lower(a) =~= s);
            }
        }
    } else {
        assert(lower(a).len() == 0);
    }
}

/// What a value is after a restore.
pub open spec fn value_after(current: Option<Seq<char>>, r: RestoreView) -> Option<Seq<char>> {
    match r {
        RestoreView::Put(v) => Some(v),
        RestoreView::Delete => None,
        RestoreView::Keep => current,
    }
}

/// A value that registering wrote is afterwards what it was before, absent or
/// not; a value that is someone else's by now, or gone, stays.
pub proof fn law_restore_brings_the_prior_value_back(
    current: Option<Seq<char>>,
    ours: Seq<char>,
    prior: Option<Seq<char>>,
)
    ensures
        current is Some && lower(current->0) == lower(ours) ==> value_after(
            current,
            restore(current, ours, prior),
        ) == prior,
        current is None || lower(current->0) != lower(ours) ==> value_after(
            current,
            restore(current, ours, prior),
        ) == current,
{
}

/// The subsystem of an image is the number at its place behind the signature,
/// low byte first; the signature is where the header says. Bytes without either
/// of the two signatures, or too few of them, have none.
pub proof fn law_subsystem_is_read_from_its_place(image: Seq<u8>, pe: int, n: u16)
    requires
        image.len() >= 0x40,
        image[0x3c] + 0x100 * image[0x3d] + 0x1_0000 * image[0x3e] + 0x100_0000 * image[0x3f] == pe,
        pe + 94 <= image.len() ==> image[pe + 92] == n % 256 && image[pe + 93] == n / 256,
    ensures
        image[0] == 'M' as int && image[1] == 'Z' as int && pe + 94 <= image.len() && image[pe]
            == 'P' as int && image[pe + 1] == 'E' as int && image[pe + 2] == 0 && image[pe + 3] == 0
            ==> subsystem(image) == Some(n),
        image[0] != 'M' as int || image[1] != 'Z' as int ==> subsystem(image) is None,
        pe + 94 > image.len() ==> subsystem(image) is None,
        pe + 94 <= image.len() && (image[pe] != 'P' as int || image[pe + 1] != 'E' as int
            || image[pe + 2] != 0 || image[pe + 3] != 0) ==> subsystem(image) is None,
{
}

/// Too few bytes are no image.
pub proof fn law_short_image_has_no_subsystem(image: Seq<u8>)
    requires
        image.len() < 0x40,
    ensures
        subsystem(image) is None,
{
}

} // verus!
