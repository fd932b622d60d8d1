//! Files dropped onto a pane become shell-quoted paths.

use crate::text::{
    begins, chars, contains, holds, is_white, lower, lower_char, lowered, spells, string, white,
};
use vstd::prelude::*;

verus! {

/// The quoting language of a pane's shell.
#[derive(Clone, Copy, Debug, PartialEq, Eq, Structural)]
pub enum ShellKind {
    PowerShell,
    Cmd,
    /// A Linux shell under WSL, which also has paths of its own.
    Wsl,
    /// A POSIX shell on Windows, which takes Windows paths with forward slashes.
    Posix,
}

/// A path separator.
pub open spec fn is_slash(c: char) -> bool {
    c == '\\' || c == '/'
}

/// The part of a path behind its last separator.
pub open spec fn file_part(s: Seq<char>) -> Seq<char>
    decreases s.len(),
{
    if s.len() == 0 || is_slash(s.last()) {
        Seq::empty()
    } else {
        file_part(s.drop_last()).push(s.last())
    }
}

/// Whether a text ends in `.exe`.
pub open spec fn is_exe(s: Seq<char>) -> bool {
    let n = s.len();
    n >= 4 && s[n - 4] == '.' && s[n - 3] == 'e' && s[n - 2] == 'x' && s[n - 1] == 'e'
}

/// A text without any `.exe` at its end.
pub open spec fn without_exe(s: Seq<char>) -> Seq<char>
    decreases s.len(),
{
    if is_exe(s) {
        without_exe(s.take(s.len() - 4))
    } else {
        s
    }
}

/// The shell that a program is, by its name; PowerShell for one that is not
/// known.
pub open spec fn shell_of(program: Seq<char>) -> ShellKind {
    let low = lower(program);
    let base = without_exe(file_part(low));
    if base == "cmd"@ {
        ShellKind::Cmd
    } else if base == "wsl"@ || base == "bash"@ && holds(low, "system32"@) {
        ShellKind::Wsl
    } else if begins(base, "ubuntu"@) || begins(base, "debian"@) || base == "kali"@ {
        ShellKind::Wsl
    } else if base == "bash"@ || base == "sh"@ || base == "zsh"@ || base == "fish"@ || base
        == "dash"@ {
        ShellKind::Posix
    } else {
        ShellKind::PowerShell
    }
}

/// The part of a path behind its last separator.
fn file_name(cs: &[char]) -> (r: &[char])
    ensures
        r@ == file_part(cs@),
{
    let n: usize = cs.len();
    let mut i: usize = n;
    assert(cs@.take(n as int) =~= cs@);
    assert(file_part(cs@.take(n as int)) + cs@.subrange(n as int, n as int) =~= file_part(cs@));
    while i > 0 && cs[i - 1] != '\\' && cs[i - 1] != '/'
        invariant
            i <= n == cs@.len(),
            file_part(cs@.take(i as int)) + cs@.subrange(i as int, n as int) == file_part(cs@),
        decreases i,
    {
        proof {
            let t = cs@.take(i as int);
            assert(t.drop_last() =~= cs@.take(i - 1));
            assert(file_part(t) + cs@.subrange(i as int, n as int) =~= file_part(cs@.take(i - 1))
                + cs@.subrange(i - 1, n as int));
        }
        i -= 1;
    }
    proof {
        let t = cs@.take(i as int);
        assert(file_part(t) =~= Seq::empty());
        assert(
            file_part(t) + cs@.subrange(i as int, n as int) =~= cs@.subrange(i as int, n as int)
        );
    }
    vstd::slice::slice_subrange(cs, i, n)
}

/// A text without any `.exe` at its end.
fn bare_name(cs: &[char]) -> (r: &[char])
    ensures
        r@ == without_exe(cs@),
{
    let mut n: usize = cs.len();
    assert(cs@.take(n as int) =~= cs@);
    while n >= 4 && cs[n - 4] == '.' && cs[n - 3] == 'e' && cs[n - 2] == 'x' && cs[n - 1] == 'e'
        invariant
            n <= cs@.len(),
            without_exe(cs@.take(n as int)) == without_exe(cs@),
        decreases n,
    {
        assert(is_exe(cs@.take(n as int)));
        assert(cs@.take(n as int).take(n - 4) =~= cs@.take(n - 4));
        n -= 4;
    }
    assert(!is_exe(cs@.take(n as int)));
    assert(cs@.subrange(0, n as int) =~= cs@.take(n as int));
    vstd::slice::slice_subrange(cs, 0, n)
}

/// Whether a text starts with a word.
fn starts(cs: &[char], word: &str) -> (r: bool)
    ensures
        r == begins(cs@, word@),
{
    crate::text::stripped(cs, word).is_some()
}

impl ShellKind {
    /// The shell that a program is, by its name.
    pub fn from_program(program: &str) -> (k: Self)
        ensures
            k == shell_of(program@),
    {
        let cs = chars(program);
        let low = lowered(cs.as_slice());
        let base = bare_name(file_name(low.as_slice()));
        if spells(base, "cmd") {
            ShellKind::Cmd
        } else if spells(base, "wsl") || (spells(base, "bash") && contains(
            low.as_slice(),
            "system32",
        )) {
            ShellKind::Wsl
        } else if starts(base, "ubuntu") || starts(base, "debian") || spells(base, "kali") {
            ShellKind::Wsl
        } else if spells(base, "bash") || spells(base, "sh") || spells(base, "zsh") || spells(
            base,
            "fish",
        ) || spells(base, "dash") {
            ShellKind::Posix
        } else {
            ShellKind::PowerShell
        }
    }
}

/// A text with every `c` replaced.
pub open spec fn replaced(s: Seq<char>, c: char, with: Seq<char>) -> Seq<char>
    decreases s.len(),
{
    if s.len() == 0 {
        Seq::empty()
    } else {
        replaced(s.drop_last(), c, with) + if s.last() == c {
            with
        } else {
            seq![s.last()]
        }
    }
}

/// A text with every `c` replaced.
fn replace(cs: &[char], c: char, with: &[char]) -> (r: Vec<char>)
    ensures
        r@ == replaced(cs@, c, with@),
{
    let mut out: Vec<char> = Vec::new();
    let mut i: usize = 0;
    assert(cs@.take(0) =~= Seq::empty());
    while i < cs.len()
        invariant
            i <= cs@.len(),
            out@ == replaced(cs@.take(i as int), c, with@),
        decreases cs@.len() - i,
    {
        let ghost before = out@;
        assert(cs@.take(i + 1).drop_last() =~= cs@.take(i as int));
        if cs[i] == c {
            let mut k: usize = 0;
            while k < with.len()
                invariant
                    k <= with@.len(),
                    out@ == before + with@.take(k as int),
                decreases with@.len() - k,
            {
                out.push(with[k]);
                k += 1;
                assert(out@ =~= before + with@.take(k as int));
            }
            assert(with@.take(with@.len() as int) =~= with@);
        } else {
            out.push(cs[i]);
            assert(out@ =~= before + seq![cs@[i as int]]);
        }
        i += 1;
    }
    assert(cs@.take(cs@.len() as int) =~= cs@);
    out
}

/// A path with forward slashes.
pub open spec fn forward(s: Seq<char>) -> Seq<char> {
    replaced(s, '\\', seq!['/'])
}

/// A path with forward slashes.
fn with_forward_slashes(cs: &[char]) -> (r: Vec<char>)
    ensures
        r@ == forward(cs@),
{
    let slash: [char; 1] = ['/'];
    assert(slash@ =~= seq!['/']);
    replace(cs, '\\', &slash)
}

/// What follows the first backslash, with it.
pub open spec fn from_backslash(s: Seq<char>) -> Seq<char>
    decreases s.len(),
{
    if s.len() == 0 || s[0] == '\\' {
        s
    } else {
        from_backslash(s.skip(1))
    }
}

/// A text without slashes at its start.
pub open spec fn unslashed(s: Seq<char>) -> Seq<char>
    decreases s.len(),
{
    if s.len() > 0 && s[0] == '/' {
        unslashed(s.skip(1))
    } else {
        s
    }
}

/// The part of a path into a distribution's own files, behind its name.
pub open spec fn in_distro(p: Seq<char>, prefix: Seq<char>) -> Seq<char> {
    let path = forward(from_backslash(p.skip(prefix.len() as int)));
    if path.len() == 0 {
        seq!['/']
    } else {
        path
    }
}

/// Whether a path starts with a drive letter.
pub open spec fn has_drive(p: Seq<char>) -> bool {
    p.len() >= 2 && ('a' <= p[0] <= 'z' || 'A' <= p[0] <= 'Z') && p[1] == ':'
}

/// A path as a Linux shell under WSL names it: a drive under `/mnt`, a share of
/// the distribution by its own path, and anything else with forward slashes.
pub open spec fn linux_path(p: Seq<char>) -> Seq<char> {
    let low = lower(p);
    if begins(low, "\\\\wsl$\\"@) {
        in_distro(p, "\\\\wsl$\\"@)
    } else if begins(low, "\\\\wsl.localhost\\"@) {
        in_distro(p, "\\\\wsl.localhost\\"@)
    } else if has_drive(p) {
        let rest = unslashed(forward(p.skip(2)));
        "/mnt/"@.push(low[0]) + if rest.len() == 0 {
            Seq::empty()
        } else {
            seq!['/'] + rest
        }
    } else {
        forward(p)
    }
}

/// What follows the first backslash, with it.
fn behind_name(cs: &[char]) -> (r: &[char])
    ensures
        r@ == from_backslash(cs@),
{
    let n: usize = cs.len();
    let mut i: usize = 0;
    assert(cs@.skip(0) =~= cs@);
    while i < n && cs[i] != '\\'
        invariant
            i <= n == cs@.len(),
            from_backslash(cs@.skip(i as int)) == from_backslash(cs@),
        decreases n - i,
    {
        assert(cs@.skip(i as int).skip(1) =~= cs@.skip(i + 1));
        i += 1;
    }
    assert(cs@.subrange(i as int, n as int) =~= cs@.skip(i as int));
    vstd::slice::slice_subrange(cs, i, n)
}

/// A text without slashes at its start.
fn trim_slashes(cs: &[char]) -> (r: &[char])
    ensures
        r@ == unslashed(cs@),
{
    let n: usize = cs.len();
    let mut i: usize = 0;
    assert(cs@.skip(0) =~= cs@);
    while i < n && cs[i] == '/'
        invariant
            i <= n == cs@.len(),
            unslashed(cs@.skip(i as int)) == unslashed(cs@),
        decreases n - i,
    {
        assert(cs@.skip(i as int).skip(1) =~= cs@.skip(i + 1));
        i += 1;
    }
    assert(cs@.subrange(i as int, n as int) =~= cs@.skip(i as int));
    vstd::slice::slice_subrange(cs, i, n)
}

/// The part of a path into a distribution's own files, behind a prefix of `n`
/// characters and its name.
fn distro_path(cs: &[char], n: usize, prefix: Ghost<Seq<char>>) -> (r: Vec<char>)
    requires
        n == prefix@.len(),
        n <= cs@.len(),
    ensures
        r@ == in_distro(cs@, prefix@),
{
    let rest = vstd::slice::slice_subrange(cs, n, cs.len());
    assert(rest@ =~= cs@.skip(n as int));
    let mut path = with_forward_slashes(behind_name(rest));
    if path.len() == 0 {
        path.push('/');
        assert(path@ =~= seq!['/']);
    }
    path
}

/// A path as a Linux shell under WSL names it, by its characters.
fn wsl_chars(cs: &[char]) -> (r: Vec<char>)
    ensures
        r@ == linux_path(cs@),
{
    proof {
        reveal_strlit("\\\\wsl$\\");
        reveal_strlit("\\\\wsl.localhost\\");
        reveal_strlit("/mnt/");
    }
    let low = lowered(cs);
    if starts(low.as_slice(), "\\\\wsl$\\") {
        return distro_path(cs, 7, Ghost("\\\\wsl$\\"@));
    }
    if starts(low.as_slice(), "\\\\wsl.localhost\\") {
        return distro_path(cs, 16, Ghost("\\\\wsl.localhost\\"@));
    }
    if cs.len() >= 2 && (('a' <= cs[0] && cs[0] <= 'z') || ('A' <= cs[0] && cs[0] <= 'Z'))
        && cs[1] == ':' {
        let tail = vstd::slice::slice_subrange(cs, 2, cs.len());
        assert(tail@ =~= cs@.skip(2));
        let slashed = with_forward_slashes(tail);
        let rest = trim_slashes(slashed.as_slice());
        let mut out: Vec<char> = Vec::new();
        out.push('/');
        out.push('m');
        out.push('n');
        out.push('t');
        out.push('/');
        out.push(low[0]);
        assert(out@ =~= "/mnt/"@.push(low@[0]));
        let ghost head = out@;
        if rest.len() > 0 {
            out.push('/');
            let mut i: usize = 0;
            assert(out@ =~= head + (seq!['/'] + rest@.take(0)));
            while i < rest.len()
                invariant
                    i <= rest@.len(),
                    out@ == head + (seq!['/'] + rest@.take(i as int)),
                decreases rest@.len() - i,
            {
                out.push(rest[i]);
                i += 1;
                assert(out@ =~= head + (seq!['/'] + rest@.take(i as int)));
            }
            assert(rest@.take(rest@.len() as int) =~= rest@);
        } else {
            assert(out@ =~= head + Seq::empty());
        }
        return out;
    }
    with_forward_slashes(cs)
}

/// A path as a Linux shell under WSL names it.
pub fn wsl_path(p: &str) -> (r: String)
    ensures
        r@ == linux_path(p@),
{
    let cs = chars(p);
    let out = wsl_chars(cs.as_slice());
    string(out.as_slice())
}

/// A letter or digit of ASCII.
pub open spec fn is_alphanumeric(c: char) -> bool {
    'a' <= c <= 'z' || 'A' <= c <= 'Z' || '0' <= c <= '9'
}

/// A letter or digit of ASCII.
fn alphanumeric(c: char) -> (r: bool)
    ensures
        r == is_alphanumeric(c),
{
    ('a' <= c && c <= 'z') || ('A' <= c && c <= 'Z') || ('0' <= c && c <= '9')
}

/// A character that a POSIX shell leaves alone.
pub open spec fn posix_plain(c: char) -> bool {
    is_alphanumeric(c) || c == '/' || c == '.' || c == '_' || c == '-' || c == '+' || c == ':' || c
        == ',' || c == '@' || c == '%' || c == '='
}

/// A character that PowerShell leaves alone.
pub open spec fn pwsh_plain(c: char) -> bool {
    is_alphanumeric(c) || c == '\\' || c == '/' || c == '.' || c == '_' || c == '-' || c == ':' || c
        == '+' || c == '='
}

/// A character that makes cmd need quotes.
pub open spec fn cmd_special(c: char) -> bool {
    is_white(c) || c == '&' || c == '(' || c == ')' || c == '[' || c == ']' || c == '{' || c == '}'
        || c == '^' || c == '=' || c == ';' || c == '!' || c == '\'' || c == '+' || c == ',' || c
        == '`' || c == '~' || c == '<' || c == '>' || c == '|'
}

/// A text for a POSIX shell: as it is, or in single quotes.
pub open spec fn posix_quoted(s: Seq<char>) -> Seq<char> {
    if s.len() > 0 && forall|i: int| 0 <= i < s.len() ==> posix_plain(#[trigger] s[i]) {
        s
    } else {
        seq!['\''] + replaced(s, '\'', seq!['\'', '\\', '\'', '\'']) + seq!['\'']
    }
}

/// A text for PowerShell: as it is, or in single quotes.
pub open spec fn pwsh_quoted(s: Seq<char>) -> Seq<char> {
    if s.len() > 0 && s[0] != '-' && forall|i: int|
        0 <= i < s.len() ==> pwsh_plain(#[trigger] s[i]) {
        s
    } else {
        seq!['\''] + replaced(s, '\'', seq!['\'', '\'']) + seq!['\'']
    }
}

/// A text for cmd: as it is, or in double quotes.
pub open spec fn cmd_quoted(s: Seq<char>) -> Seq<char> {
    if s.len() == 0 || exists|i: int| 0 <= i < s.len() && cmd_special(#[trigger] s[i]) {
        seq!['"'] + s + seq!['"']
    } else {
        s
    }
}

/// A text between two marks.
fn between(mark: char, cs: &[char]) -> (r: Vec<char>)
    ensures
        r@ == seq![mark] + cs@ + seq![mark],
{
    let mut out: Vec<char> = Vec::new();
    out.push(mark);
    let mut i: usize = 0;
    assert(out@ =~= seq![mark] + cs@.take(0));
    while i < cs.len()
        invariant
            i <= cs@.len(),
            out@ == seq![mark] + cs@.take(i as int),
        decreases cs@.len() - i,
    {
        out.push(cs[i]);
        i += 1;
        assert(out@ =~= seq![mark] + cs@.take(i as int));
    }
    out.push(mark);
    assert(cs@.take(cs@.len() as int) =~= cs@);
    assert(out@ =~= seq![mark] + cs@ + seq![mark]);
    out
}

/// Quote a text for a POSIX shell.
fn posix_quote(cs: &[char]) -> (r: Vec<char>)
    ensures
        r@ == posix_quoted(cs@),
{
    let mut plain = cs.len() > 0;
    let mut i: usize = 0;
    while i < cs.len()
        invariant
            i <= cs@.len(),
            plain == (cs@.len() > 0 && forall|k: int|
                0 <= k < i ==> posix_plain(#[trigger] cs@[k])),
        decreases cs@.len() - i,
    {
        let c: char = cs[i];
        let ok = alphanumeric(c) || c == '/' || c == '.' || c == '_' || c == '-' || c == '+' || c
            == ':' || c == ',' || c == '@' || c == '%' || c == '=';
        if !ok {
            assert(!posix_plain(cs@[i as int]));
            plain = false;
        }
        i += 1;
    }
    if plain {
        crate::text::copied(cs)
    } else {
        let mark: [char; 4] = ['\'', '\\', '\'', '\''];
        assert(mark@ =~= seq!['\'', '\\', '\'', '\'']);
        let body = replace(cs, '\'', &mark);
        between('\'', body.as_slice())
    }
}

/// Quote a text for PowerShell.
fn pwsh_quote(cs: &[char]) -> (r: Vec<char>)
    ensures
        r@ == pwsh_quoted(cs@),
{
    let mut plain = cs.len() > 0 && cs[0] != '-';
    let mut i: usize = 0;
    while i < cs.len()
        invariant
            i <= cs@.len(),
            plain == (cs@.len() > 0 && cs@[0] != '-' && forall|k: int|
                0 <= k < i ==> pwsh_plain(#[trigger] cs@[k])),
        decreases cs@.len() - i,
    {
        let c: char = cs[i];
        let ok = alphanumeric(c) || c == '\\' || c == '/' || c == '.' || c == '_' || c == '-' || c
            == ':' || c == '+' || c == '=';
        if !ok {
            assert(!pwsh_plain(cs@[i as int]));
            plain = false;
        }
        i += 1;
    }
    if plain {
        crate::text::copied(cs)
    } else {
        let mark: [char; 2] = ['\'', '\''];
        assert(mark@ =~= seq!['\'', '\'']);
        let body = replace(cs, '\'', &mark);
        between('\'', body.as_slice())
    }
}

/// Quote a text for cmd.
fn cmd_quote(cs: &[char]) -> (r: Vec<char>)
    ensures
        r@ == cmd_quoted(cs@),
{
    let mut needs = cs.len() == 0;
    let mut i: usize = 0;
    while i < cs.len()
        invariant
            i <= cs@.len(),
            needs == (cs@.len() == 0 || exists|k: int|
                0 <= k < i && cmd_special(#[trigger] cs@[k])),
        decreases cs@.len() - i,
    {
        let c: char = cs[i];
        let special = white(c) || c == '&' || c == '(' || c == ')' || c == '[' || c == ']' || c
            == '{' || c == '}' || c == '^' || c == '=' || c == ';' || c == '!' || c == '\'' || c
            == '+' || c == ',' || c == '`' || c == '~' || c == '<' || c == '>' || c == '|';
        if special {
            assert(cmd_special(cs@[i as int]));
            needs = true;
        }
        i += 1;
    }
    if needs {
        between('"', cs)
    } else {
        crate::text::copied(cs)
    }
}

/// A path as text for a shell.
pub open spec fn shell_quoted(kind: ShellKind, p: Seq<char>) -> Seq<char> {
    match kind {
        ShellKind::PowerShell => pwsh_quoted(p),
        ShellKind::Cmd => cmd_quoted(p),
        ShellKind::Wsl => posix_quoted(linux_path(p)),
        ShellKind::Posix => posix_quoted(forward(p)),
    }
}

/// Paths as text for a shell, each with a space behind it.
pub open spec fn dropped(kind: ShellKind, paths: Seq<&str>) -> Seq<char>
    decreases paths.len(),
{
    if paths.len() == 0 {
        Seq::empty()
    } else {
        dropped(kind, paths.drop_last()) + shell_quoted(kind, paths.last()@).push(' ')
    }
}

/// The text to type for paths dropped onto a shell: each path quoted for it, with
/// a space behind it.
pub fn quote_paths(kind: ShellKind, paths: &[&str]) -> (r: String)
    ensures
        r@ == dropped(kind, paths@),
{
    let mut out: Vec<char> = Vec::new();
    let mut i: usize = 0;
    assert(paths@.take(0) =~= Seq::empty());
    while i < paths.len()
        invariant
            i <= paths@.len(),
            out@ == dropped(kind, paths@.take(i as int)),
        decreases paths@.len() - i,
    {
        let cs = chars(paths[i]);
        let mut quoted = match kind {
            ShellKind::PowerShell => pwsh_quote(cs.as_slice()),
            ShellKind::Cmd => cmd_quote(cs.as_slice()),
            ShellKind::Wsl => {
                let p = wsl_chars(cs.as_slice());
                posix_quote(p.as_slice())
            },
            ShellKind::Posix => {
                let p = with_forward_slashes(cs.as_slice());
                posix_quote(p.as_slice())
            },
        };
        quoted.push(' ');
        out.append(&mut quoted);
        assert(paths@.take(i + 1).drop_last() =~= paths@.take(i as int));
        i += 1;
    }
    assert(paths@.take(paths@.len() as int) =~= paths@);
    string(out.as_slice())
}

/// A blank that parts the words of a POSIX shell.
pub open spec fn is_blank(c: char) -> bool {
    c == ' ' || c == '\t' || c == '\n'
}

/// A character that means something of its own to a POSIX shell, outside quotes.
pub open spec fn posix_meaning(c: char) -> bool {
    c == '|' || c == '&' || c == ';' || c == '<' || c == '>' || c == '(' || c == ')' || c == '$'
        || c == '`' || c == '"' || c == '*' || c == '?' || c == '[' || c == ']' || c == '#' || c
        == '~' || c == '!' || c == '{' || c == '}' || c == '^' || c == '\r' || c as int > 126
}

/// What a POSIX shell reads of a line at the start of a word: the word, and the
/// rest of the line. Single quotes keep everything between them, a backslash
/// outside keeps the next character, and a blank outside ends the word, as does
/// any other character that is not plain text to the shell.
pub open spec fn posix_word(s: Seq<char>, inside: bool) -> (Seq<char>, Seq<char>)
    decreases s.len(),
{
    if s.len() == 0 {
        (Seq::empty(), s)
    } else if s[0] == '\'' {
        posix_word(s.skip(1), !inside)
    } else if s[0] == '\\' && !inside && s.len() > 1 {
        let (w, rest) = posix_word(s.skip(2), false);
        (seq![s[1]] + w, rest)
    } else if !inside && (is_blank(s[0]) || posix_meaning(s[0])) {
        (Seq::empty(), s)
    } else {
        let (w, rest) = posix_word(s.skip(1), inside);
        (seq![s[0]] + w, rest)
    }
}

/// The words that a POSIX shell reads of a line.
pub open spec fn posix_words(s: Seq<char>) -> Seq<Seq<char>>
    decreases s.len(),
{
    if s.len() == 0 {
        Seq::empty()
    } else if is_blank(s[0]) {
        posix_words(s.skip(1))
    } else {
        let (w, rest) = posix_word(s, false);
        if rest.len() < s.len() {
            seq![w] + posix_words(rest)
        } else {
            seq![w]
        }
    }
}

/// What PowerShell reads of a word: single quotes keep everything between them,
/// and two of them in there are one.
pub open spec fn pwsh_read(s: Seq<char>, inside: bool) -> Seq<char>
    decreases s.len(),
{
    if s.len() == 0 {
        Seq::empty()
    } else if inside && s.len() > 1 && s[0] == '\'' && s[1] == '\'' {
        seq!['\''] + pwsh_read(s.skip(2), true)
    } else if s[0] == '\'' {
        pwsh_read(s.skip(1), !inside)
    } else {
        seq![s[0]] + pwsh_read(s.skip(1), inside)
    }
}

proof fn lemma_replaced_first(s: Seq<char>, c: char, with: Seq<char>)
    requires
        s.len() > 0,
    ensures
        replaced(s, c, with) == (if s[0] == c {
            with
        } else {
            seq![s[0]]
        }) + replaced(s.skip(1), c, with),
    decreases s.len(),
{
    if s.len() == 1 {
        assert(s.skip(1) =~= Seq::empty());
        assert(s.drop_last() =~= Seq::empty());
        assert(replaced(s, c, with) =~= (if s[0] == c {
            with
        } else {
            seq![s[0]]
        }) + replaced(s.skip(1), c, with));
    } else {
        lemma_replaced_first(s.drop_last(), c, with);
        assert(s.drop_last().skip(1) =~= s.skip(1).drop_last());
        assert(replaced(s, c, with) =~= (if s[0] == c {
            with
        } else {
            seq![s[0]]
        }) + replaced(s.skip(1), c, with));
    }
}

/// What follows a word: nothing, or a blank.
spec fn ends_word(t: Seq<char>) -> bool {
    t.len() == 0 || is_blank(t[0])
}

proof fn lemma_posix_body(s: Seq<char>, t: Seq<char>)
    requires
        ends_word(t),
    ensures
        posix_word(
            replaced(s, '\'', seq!['\'', '\\', '\'', '\'']) + (seq!['\''] + t),
            true,
        ) == (s, t),
    decreases s.len(),
{
    let mark = seq!['\'', '\\', '\'', '\''];
    let end = seq!['\''] + t;
    if s.len() == 0 {
        let w = replaced(s, '\'', mark) + end;
        assert(w =~= end);
        assert(end.skip(1) =~= t);
        assert(posix_word(t, false) == (Seq::<char>::empty(), t));
        assert(posix_word(end, true) == posix_word(t, false));
        assert(s =~= Seq::empty());
    } else {
        lemma_replaced_first(s, '\'', mark);
        lemma_posix_body(s.skip(1), t);
        let rest = replaced(s.skip(1), '\'', mark) + end;
        let w = replaced(s, '\'', mark) + end;
        if s[0] == '\'' {
            assert(w =~= mark + rest);
            let a = w.skip(1);
            let b = a.skip(2);
            assert(a[0] == '\\' && a[1] == '\'');
            assert(b[0] == '\'');
            assert(b.skip(1) =~= rest);
            assert(posix_word(w, true) == posix_word(a, false));
            assert(posix_word(b, false) == posix_word(rest, true));
            assert(posix_word(a, false) == (seq!['\''] + s.skip(1), t));
            assert(seq!['\''] + s.skip(1) =~= s);
        } else {
            assert(w =~= seq![s[0]] + rest);
            assert(w.skip(1) =~= rest);
            assert(seq![s[0]] + s.skip(1) =~= s);
        }
    }
}

proof fn lemma_posix_plain(s: Seq<char>, t: Seq<char>)
    requires
        forall|i: int| 0 <= i < s.len() ==> posix_plain(#[trigger] s[i]),
        ends_word(t),
    ensures
        posix_word(s + t, false) == (s, t),
    decreases s.len(),
{
    if s.len() == 0 {
        assert(s + t =~= t);
        assert(s =~= Seq::empty());
    } else {
        assert(posix_plain(s[0]));
        assert forall|i: int| 0 <= i < s.skip(1).len() implies posix_plain(
            #[trigger] s.skip(1)[i],
        ) by {
            assert(posix_plain(s[i + 1]));
        }
        lemma_posix_plain(s.skip(1), t);
        assert((s + t).skip(1) =~= s.skip(1) + t);
        assert(seq![s[0]] + s.skip(1) =~= s);
    }
}

proof fn lemma_posix_quoted(s: Seq<char>, t: Seq<char>)
    requires
        ends_word(t),
    ensures
        posix_word(posix_quoted(s) + t, false) == (s, t),
        posix_quoted(s).len() > 0,
        !is_blank(posix_quoted(s)[0]),
{
    if s.len() > 0 && forall|i: int| 0 <= i < s.len() ==> posix_plain(#[trigger] s[i]) {
        lemma_posix_plain(s, t);
        assert(posix_plain(s[0]));
    } else {
        lemma_posix_body(s, t);
        let q = posix_quoted(s) + t;
        assert(q[0] == '\'');
        assert(q.skip(1) =~= replaced(s, '\'', seq!['\'', '\\', '\'', '\'']) + (seq!['\''] + t));
    }
}

/// A POSIX shell reads back exactly the text that was quoted for it, as one
/// word.
pub proof fn law_posix_quoting_reads_back(s: Seq<char>)
    ensures
        posix_words(posix_quoted(s)) == seq![s],
{
    let q = posix_quoted(s);
    lemma_posix_quoted(s, Seq::empty());
    assert(q + Seq::empty() =~= q);
    assert(posix_words(Seq::empty()) =~= Seq::empty());
    assert(posix_words(q) =~= seq![s]);
}

/// A path as a POSIX shell is to see it.
pub open spec fn posix_path(kind: ShellKind, p: Seq<char>) -> Seq<char> {
    if kind == ShellKind::Wsl {
        linux_path(p)
    } else {
        forward(p)
    }
}

proof fn lemma_dropped_first(kind: ShellKind, paths: Seq<&str>)
    requires
        paths.len() > 0,
    ensures
        dropped(kind, paths) == shell_quoted(kind, paths[0]@) + (seq![' '] + dropped(
            kind,
            paths.skip(1),
        )),
    decreases paths.len(),
{
    if paths.len() == 1 {
        assert(paths.drop_last() =~= Seq::empty());
        assert(paths.skip(1) =~= Seq::empty());
    } else {
        lemma_dropped_first(kind, paths.drop_last());
        assert(paths.drop_last().skip(1) =~= paths.skip(1).drop_last());
    }
    assert(dropped(kind, paths) =~= shell_quoted(kind, paths[0]@) + (seq![' '] + dropped(
        kind,
        paths.skip(1),
    )));
}

/// A POSIX shell, under WSL or not, reads of the text typed for dropped paths
/// exactly these paths, in order, as one word each.
pub proof fn law_dropped_paths_read_back(kind: ShellKind, paths: Seq<&str>)
    requires
        kind == ShellKind::Wsl || kind == ShellKind::Posix,
    ensures
        posix_words(dropped(kind, paths)) == paths.map_values(|p: &str| posix_path(kind, p@)),
    decreases paths.len(),
{
    let want = paths.map_values(|p: &str| posix_path(kind, p@));
    if paths.len() == 0 {
        assert(posix_words(dropped(kind, paths)) =~= want);
    } else {
        lemma_dropped_first(kind, paths);
        law_dropped_paths_read_back(kind, paths.skip(1));
        let rest = dropped(kind, paths.skip(1));
        let t = seq![' '] + rest;
        let w = posix_path(kind, paths[0]@);
        lemma_posix_quoted(w, t);
        let line = posix_quoted(w) + t;
        assert(dropped(kind, paths) == line);
        assert(t.skip(1) =~= rest);
        assert(posix_words(t) == posix_words(rest));
        assert(line[0] == posix_quoted(w)[0]);
        assert(posix_words(line) =~= want);
    }
}

/// The text typed for dropped paths ends in a space, so that what is typed next
/// is a new word; for no paths there is none.
pub proof fn law_next_word_is_new(kind: ShellKind, paths: Seq<&str>)
    ensures
        paths.len() == 0 ==> dropped(kind, paths).len() == 0,
        paths.len() > 0 ==> dropped(kind, paths).len() > 0 && dropped(kind, paths).last() == ' ',
{
}

proof fn lemma_pwsh_body(s: Seq<char>)
    ensures
        pwsh_read(replaced(s, '\'', seq!['\'', '\'']) + seq!['\''], true) == s,
    decreases s.len(),
{
    let mark = seq!['\'', '\''];
    let end = seq!['\''];
    if s.len() == 0 {
        let w = replaced(s, '\'', mark) + end;
        assert(w =~= end);
        assert(end.skip(1) =~= Seq::empty());
        reveal_with_fuel(pwsh_read, 2);
        assert(pwsh_read(w, true) =~= s);
    } else {
        lemma_replaced_first(s, '\'', mark);
        lemma_pwsh_body(s.skip(1));
        let rest = replaced(s.skip(1), '\'', mark) + end;
        let w = replaced(s, '\'', mark) + end;
        if s[0] == '\'' {
            assert(w =~= mark + rest);
            assert(w.skip(2) =~= rest);
            assert(seq!['\''] + s.skip(1) =~= s);
        } else {
            assert(w =~= seq![s[0]] + rest);
            assert(w.skip(1) =~= rest);
            assert(seq![s[0]] + s.skip(1) =~= s);
        }
    }
}

proof fn lemma_pwsh_plain(s: Seq<char>)
    requires
        forall|i: int| 0 <= i < s.len() ==> pwsh_plain(#[trigger] s[i]),
    ensures
        pwsh_read(s, false) == s,
    decreases s.len(),
{
    if s.len() > 0 {
        assert(pwsh_plain(s[0]));
        assert forall|i: int| 0 <= i < s.skip(1).len() implies pwsh_plain(
            #[trigger] s.skip(1)[i],
        ) by {
            assert(pwsh_plain(s[i + 1]));
        }
        lemma_pwsh_plain(s.skip(1));
        assert(seq![s[0]] + s.skip(1) =~= s);
    }
}

/// PowerShell reads back exactly the text that was quoted for it.
pub proof fn law_pwsh_quoting_reads_back(s: Seq<char>)
    ensures
        pwsh_read(pwsh_quoted(s), false) == s,
{
    if s.len() > 0 && s[0] != '-' && forall|i: int|
        0 <= i < s.len() ==> pwsh_plain(#[trigger] s[i]) {
        lemma_pwsh_plain(s);
    } else {
        lemma_pwsh_body(s);
        let q = pwsh_quoted(s);
        assert(q.skip(1) =~= replaced(s, '\'', seq!['\'', '\'']) + seq!['\'']);
    }
}

// ---------------------------------------------------------------- cmd

/// A character that parts the words of a cmd line, outside double quotes.
pub open spec fn cmd_parts(c: char) -> bool {
    9 <= c as int <= 13 || c == ' ' || c == '\u{a0}' || c == '\u{3000}' || c == ',' || c == ';' || c
        == '='
}

/// A character that cmd does not take for text outside double quotes: one that
/// parts words, or one with a meaning of its own.
pub open spec fn cmd_meaning(c: char) -> bool {
    cmd_parts(c) || c == '&' || c == '|' || c == '<' || c == '>' || c == '(' || c == ')' || c == '['
        || c == ']' || c == '{' || c == '}' || c == '^' || c == '!' || c == '\'' || c == '+' || c
        == '`' || c == '~'
}

/// What cmd reads of a line at the start of a word: the word, and the rest of the
/// line. Double quotes keep everything between them.
pub open spec fn cmd_word(s: Seq<char>, inside: bool) -> (Seq<char>, Seq<char>)
    decreases s.len(),
{
    if s.len() == 0 {
        (Seq::empty(), s)
    } else if s[0] == '"' {
        cmd_word(s.skip(1), !inside)
    } else if !inside && cmd_meaning(s[0]) {
        (Seq::empty(), s)
    } else {
        let (w, rest) = cmd_word(s.skip(1), inside);
        (seq![s[0]] + w, rest)
    }
}

/// The words that cmd reads of a line.
pub open spec fn cmd_words(s: Seq<char>) -> Seq<Seq<char>>
    decreases s.len(),
{
    if s.len() == 0 {
        Seq::empty()
    } else if cmd_parts(s[0]) {
        cmd_words(s.skip(1))
    } else {
        let (w, rest) = cmd_word(s, false);
        if rest.len() < s.len() {
            seq![w] + cmd_words(rest)
        } else {
            seq![w]
        }
    }
}

proof fn lemma_cmd_plain(s: Seq<char>, t: Seq<char>)
    requires
        forall|i: int| 0 <= i < s.len() ==> !cmd_special(#[trigger] s[i]) && s[i] != '"',
        t.len() > 0 ==> cmd_meaning(t[0]) && t[0] != '"',
    ensures
        cmd_word(s + t, false) == (s, t),
    decreases s.len(),
{
    if s.len() == 0 {
        assert(s + t =~= t);
        assert(s =~= Seq::empty());
    } else {
        assert(!cmd_special(s[0]) && s[0] != '"');
        assert forall|i: int| 0 <= i < s.skip(1).len() implies !cmd_special(
            #[trigger] s.skip(1)[i],
        ) && s.skip(1)[i] != '"' by {
            assert(!cmd_special(s[i + 1]));
        }
        lemma_cmd_plain(s.skip(1), t);
        assert((s + t).skip(1) =~= s.skip(1) + t);
        assert(seq![s[0]] + s.skip(1) =~= s);
    }
}

proof fn lemma_cmd_body(s: Seq<char>, t: Seq<char>)
    requires
        forall|i: int| 0 <= i < s.len() ==> #[trigger] s[i] != '"',
        t.len() > 0 ==> cmd_meaning(t[0]) && t[0] != '"',
    ensures
        cmd_word(s + (seq!['"'] + t), true) == (s, t),
    decreases s.len(),
{
    let end = seq!['"'] + t;
    if s.len() == 0 {
        assert(s + end =~= end);
        assert(end.skip(1) =~= t);
        assert(cmd_word(t, false) == (Seq::<char>::empty(), t));
        assert(s =~= Seq::empty());
    } else {
        assert(s[0] != '"');
        assert forall|i: int| 0 <= i < s.skip(1).len() implies #[trigger] s.skip(1)[i] != '"' by {
            assert(s[i + 1] != '"');
        }
        lemma_cmd_body(s.skip(1), t);
        assert((s + end).skip(1) =~= s.skip(1) + end);
        assert(seq![s[0]] + s.skip(1) =~= s);
    }
}

proof fn lemma_cmd_quoted(s: Seq<char>, t: Seq<char>)
    requires
        forall|i: int| 0 <= i < s.len() ==> #[trigger] s[i] != '"',
        t.len() > 0 ==> cmd_meaning(t[0]) && t[0] != '"',
    ensures
        cmd_word(cmd_quoted(s) + t, false) == (s, t),
        cmd_quoted(s).len() > 0,
        !cmd_parts(cmd_quoted(s)[0]),
{
    if s.len() == 0 || exists|i: int| 0 <= i < s.len() && cmd_special(#[trigger] s[i]) {
        lemma_cmd_body(s, t);
        let q = cmd_quoted(s) + t;
        assert(q[0] == '"');
        assert(q.skip(1) =~= s + (seq!['"'] + t));
    } else {
        lemma_cmd_plain(s, t);
        assert(!cmd_special(s[0]));
    }
}

/// cmd reads of the text typed for dropped paths exactly these paths, in order,
/// as one word each. No path has a double quote in it.
pub proof fn law_cmd_reads_dropped_paths_back(paths: Seq<&str>)
    requires
        forall|i: int, k: int|
            0 <= i < paths.len() && 0 <= k < paths[i]@.len() ==> #[trigger] paths[i]@[k] != '"',
    ensures
        cmd_words(dropped(ShellKind::Cmd, paths)) == paths.map_values(|p: &str| p@),
    decreases paths.len(),
{
    let want = paths.map_values(|p: &str| p@);
    let kind = ShellKind::Cmd;
    if paths.len() == 0 {
        assert(cmd_words(dropped(kind, paths)) =~= want);
    } else {
        lemma_dropped_first(kind, paths);
        let more = paths.skip(1);
        assert forall|i: int, k: int|
            0 <= i < more.len() && 0 <= k < more[i]@.len() implies #[trigger] more[i]@[k] != '"' by {
            assert(more[i] == paths[i + 1]);
            assert(paths[i + 1]@[k] != '"');
        }
        law_cmd_reads_dropped_paths_back(more);
        let rest = dropped(kind, more);
        let t = seq![' '] + rest;
        let w = paths[0]@;
        assert forall|i: int| 0 <= i < w.len() implies #[trigger] w[i] != '"' by {
            assert(paths[0]@[i] != '"');
        }
        lemma_cmd_quoted(w, t);
        let line = cmd_quoted(w) + t;
        assert(dropped(kind, paths) == line);
        assert(t.skip(1) =~= rest);
        assert(cmd_words(t) == cmd_words(rest));
        assert(line[0] == cmd_quoted(w)[0]);
        assert(cmd_words(line) =~= want);
    }
}

// ---------------------------------------------------------------- PowerShell

/// A character that PowerShell does not take for text outside single quotes.
pub open spec fn pwsh_meaning(c: char) -> bool {
    c as int <= 32 || c as int > 126 || c == ';' || c == ',' || c == '|' || c == '&' || c == '<' || c
        == '>' || c == '(' || c == ')' || c == '{' || c == '}' || c == '[' || c == ']' || c == '$'
        || c == '`' || c == '"' || c == '@' || c == '#' || c == '%' || c == '~' || c == '!' || c
        == '*' || c == '?' || c == '^'
}

/// What PowerShell reads of a line at the start of a word: the word, and the rest
/// of the line.
pub open spec fn pwsh_word(s: Seq<char>, inside: bool) -> (Seq<char>, Seq<char>)
    decreases s.len(),
{
    if s.len() == 0 {
        (Seq::empty(), s)
    } else if inside && s.len() > 1 && s[0] == '\'' && s[1] == '\'' {
        let (w, rest) = pwsh_word(s.skip(2), true);
        (seq!['\''] + w, rest)
    } else if s[0] == '\'' {
        pwsh_word(s.skip(1), !inside)
    } else if !inside && pwsh_meaning(s[0]) {
        (Seq::empty(), s)
    } else {
        let (w, rest) = pwsh_word(s.skip(1), inside);
        (seq![s[0]] + w, rest)
    }
}

/// The words that PowerShell reads of a line.
pub open spec fn pwsh_words(s: Seq<char>) -> Seq<Seq<char>>
    decreases s.len(),
{
    if s.len() == 0 {
        Seq::empty()
    } else if s[0] == ' ' {
        pwsh_words(s.skip(1))
    } else {
        let (w, rest) = pwsh_word(s, false);
        if rest.len() < s.len() {
            seq![w] + pwsh_words(rest)
        } else {
            seq![w]
        }
    }
}

proof fn lemma_pwsh_word_body(s: Seq<char>, t: Seq<char>)
    requires
        t.len() > 0,
        t[0] == ' ',
    ensures
        pwsh_word(replaced(s, '\'', seq!['\'', '\'']) + (seq!['\''] + t), true) == (s, t),
    decreases s.len(),
{
    let mark = seq!['\'', '\''];
    let end = seq!['\''] + t;
    if s.len() == 0 {
        let w = replaced(s, '\'', mark) + end;
        assert(w =~= end);
        assert(end[1] == ' ');
        assert(end.skip(1) =~= t);
        assert(pwsh_word(t, false) == (Seq::<char>::empty(), t));
        assert(s =~= Seq::empty());
    } else {
        lemma_replaced_first(s, '\'', mark);
        lemma_pwsh_word_body(s.skip(1), t);
        let rest = replaced(s.skip(1), '\'', mark) + end;
        let w = replaced(s, '\'', mark) + end;
        if s[0] == '\'' {
            assert(w =~= mark + rest);
            assert(w.skip(2) =~= rest);
            assert(seq!['\''] + s.skip(1) =~= s);
        } else {
            assert(w =~= seq![s[0]] + rest);
            assert(w.skip(1) =~= rest);
            assert(seq![s[0]] + s.skip(1) =~= s);
        }
    }
}

proof fn lemma_pwsh_word_plain(s: Seq<char>, t: Seq<char>)
    requires
        forall|i: int| 0 <= i < s.len() ==> pwsh_plain(#[trigger] s[i]),
        t.len() > 0,
        t[0] == ' ',
    ensures
        pwsh_word(s + t, false) == (s, t),
    decreases s.len(),
{
    if s.len() == 0 {
        assert(s + t =~= t);
        assert(s =~= Seq::empty());
    } else {
        assert(pwsh_plain(s[0]));
        assert forall|i: int| 0 <= i < s.skip(1).len() implies pwsh_plain(
            #[trigger] s.skip(1)[i],
        ) by {
            assert(pwsh_plain(s[i + 1]));
        }
        lemma_pwsh_word_plain(s.skip(1), t);
        assert((s + t).skip(1) =~= s.skip(1) + t);
        assert(seq![s[0]] + s.skip(1) =~= s);
    }
}

proof fn lemma_pwsh_quoted(s: Seq<char>, t: Seq<char>)
    requires
        t.len() > 0,
        t[0] == ' ',
    ensures
        pwsh_word(pwsh_quoted(s) + t, false) == (s, t),
        pwsh_quoted(s).len() > 0,
        pwsh_quoted(s)[0] != ' ',
        pwsh_quoted(s)[0] != '-',
{
    if s.len() > 0 && s[0] != '-' && forall|i: int|
        0 <= i < s.len() ==> pwsh_plain(#[trigger] s[i]) {
        lemma_pwsh_word_plain(s, t);
        assert(pwsh_plain(s[0]));
    } else {
        lemma_pwsh_word_body(s, t);
        let q = pwsh_quoted(s) + t;
        assert(q[0] == '\'');
        assert(q.skip(1) =~= replaced(s, '\'', seq!['\'', '\'']) + (seq!['\''] + t));
    }
}

/// PowerShell reads of the text typed for dropped paths exactly these paths, in
/// order, as one word each.
pub proof fn law_pwsh_reads_dropped_paths_back(paths: Seq<&str>)
    ensures
        pwsh_words(dropped(ShellKind::PowerShell, paths)) == paths.map_values(|p: &str| p@),
    decreases paths.len(),
{
    let want = paths.map_values(|p: &str| p@);
    let kind = ShellKind::PowerShell;
    if paths.len() == 0 {
        assert(pwsh_words(dropped(kind, paths)) =~= want);
    } else {
        lemma_dropped_first(kind, paths);
        law_pwsh_reads_dropped_paths_back(paths.skip(1));
        let rest = dropped(kind, paths.skip(1));
        let t = seq![' '] + rest;
        let w = paths[0]@;
        lemma_pwsh_quoted(w, t);
        let line = pwsh_quoted(w) + t;
        assert(dropped(kind, paths) == line);
        assert(t.skip(1) =~= rest);
        assert(pwsh_words(t) == pwsh_words(rest));
        assert(line[0] == pwsh_quoted(w)[0]);
        assert(pwsh_words(line) =~= want);
    }
}

/// No path typed for PowerShell looks like a parameter.
pub proof fn law_pwsh_path_is_no_parameter(s: Seq<char>)
    ensures
        shell_quoted(ShellKind::PowerShell, s).len() > 0,
        shell_quoted(ShellKind::PowerShell, s)[0] != '-',
{
    lemma_pwsh_quoted(s, seq![' ']);
}

/// Letters, digits and what stands in plain paths.
pub open spec fn plain_path(p: Seq<char>) -> bool {
    &&& p.len() > 0
    &&& p[0] != '-'
    &&& forall|i: int|
        0 <= i < p.len() ==> {
            let c = #[trigger] p[i];
            ||| 48 <= c as int <= 57
            ||| 65 <= c as int <= 90
            ||| 97 <= c as int <= 122
            ||| c == '\\' || c == '/' || c == '.' || c == '_' || c == '-' || c == ':'
        }
}

/// A path that needs no quotes gets none.
pub proof fn law_plain_path_gets_no_quotes(p: Seq<char>)
    requires
        plain_path(p),
    ensures
        shell_quoted(ShellKind::Cmd, p) == p,
        shell_quoted(ShellKind::PowerShell, p) == p,
        shell_quoted(ShellKind::Posix, p) == slashed(p),
{
    lemma_forward(p);
    assert forall|i: int| 0 <= i < p.len() implies !cmd_special(#[trigger] p[i]) by {
        assert(p[i] == p[i]);
    }
    assert forall|i: int| 0 <= i < p.len() implies pwsh_plain(#[trigger] p[i]) by {
        assert(p[i] == p[i]);
    }
    assert forall|i: int| 0 <= i < slashed(p).len() implies posix_plain(#[trigger] slashed(p)[i]) by {
        assert(p[i] == p[i]);
    }
}

// ---------------------------------------------------------------- paths

/// A path with every backslash made a slash, and nothing else changed.
pub open spec fn slashed(s: Seq<char>) -> Seq<char> {
    Seq::new(
        s.len(),
        |i: int|
            if s[i] == '\\' {
                '/'
            } else {
                s[i]
            },
    )
}

proof fn lemma_forward(s: Seq<char>)
    ensures
        forward(s) == slashed(s),
    decreases s.len(),
{
    if s.len() > 0 {
        lemma_forward(s.drop_last());
        assert(forward(s) == forward(s.drop_last()) + (if s.last() == '\\' {
            seq!['/']
        } else {
            seq![s.last()]
        }));
    }
    assert(forward(s) =~= slashed(s));
}

/// A POSIX shell on Windows gets a path with its backslashes made slashes.
pub proof fn law_posix_paths_have_slashes(p: Seq<char>)
    ensures
        posix_path(ShellKind::Posix, p) == slashed(p),
{
    lemma_forward(p);
}

/// Under WSL a path on a drive is found below `/mnt`, by the small letter of the
/// drive.
pub proof fn law_wsl_mounts_drives(d: char, sep: char, rest: Seq<char>)
    requires
        65 <= d as int <= 90 || 97 <= d as int <= 122,
        sep == '\\' || sep == '/',
        rest.len() > 0,
        rest[0] != '\\',
        rest[0] != '/',
    ensures
        ({
            let small = if d as int <= 90 {
                (d as u32 + 32) as char
            } else {
                d
            };
            &&& linux_path(seq![d, ':', sep] + rest) == seq!['/', 'm', 'n', 't', '/', small, '/']
                + slashed(rest)
            &&& linux_path(seq![d, ':', sep]) == seq!['/', 'm', 'n', 't', '/', small]
            &&& linux_path(seq![d, ':']) == seq!['/', 'm', 'n', 't', '/', small]
        }),
{
    reveal_strlit("\\\\wsl$\\");
    reveal_strlit("\\\\wsl.localhost\\");
    reveal_strlit("/mnt/");
    let small = if d as int <= 90 {
        (d as u32 + 32) as char
    } else {
        d
    };
    let head = seq!['/', 'm', 'n', 't', '/', small];
    assert(seq![d, ':', sep] + rest =~= seq![d, ':'] + (seq![sep] + rest));
    assert(seq![d, ':', sep] =~= seq![d, ':'] + seq![sep]);
    assert(seq![d, ':'] =~= seq![d, ':'] + Seq::<char>::empty());
    lemma_drive_path(seq![d, ':', sep] + rest, d, seq![sep] + rest);
    lemma_drive_path(seq![d, ':', sep], d, seq![sep]);
    lemma_drive_path(seq![d, ':'], d, Seq::empty());
    lemma_forward(seq![sep] + rest);
    lemma_forward(seq![sep]);
    lemma_forward(Seq::<char>::empty());
    let a = slashed(seq![sep] + rest);
    assert(a[0] == '/');
    assert(a.skip(1) =~= slashed(rest));
    assert(slashed(rest)[0] != '/');
    assert(unslashed(a) == unslashed(a.skip(1)));
    assert(unslashed(a) == slashed(rest));
    let b = slashed(seq![sep]);
    assert(b.skip(1) =~= Seq::empty());
    assert(unslashed(b) == unslashed(b.skip(1)));
    assert(slashed(Seq::<char>::empty()) =~= Seq::empty());
    assert("/mnt/"@.push(small) =~= head);
    assert(head + (seq!['/'] + slashed(rest)) =~= seq!['/', 'm', 'n', 't', '/', small, '/']
        + slashed(rest));
    assert(head + Seq::<char>::empty() =~= head);
}

proof fn lemma_drive_path(p: Seq<char>, d: char, tail: Seq<char>)
    requires
        p == seq![d, ':'] + tail,
        65 <= d as int <= 90 || 97 <= d as int <= 122,
    ensures
        ({
            let rest = unslashed(forward(tail));
            linux_path(p) == "/mnt/"@.push(lower_char(d)) + if rest.len() == 0 {
                Seq::empty()
            } else {
                seq!['/'] + rest
            }
        }),
{
    reveal_strlit("\\\\wsl$\\");
    reveal_strlit("\\\\wsl.localhost\\");
    let low = lower(p);
    assert(low[0] == lower_char(d));
    assert(low[0] != '\\');
    if begins(low, "\\\\wsl$\\"@) {
        assert(low.take(7)[0] == '\\');
    }
    if begins(low, "\\\\wsl.localhost\\"@) {
        assert(low.take(16)[0] == '\\');
    }
    assert(p.skip(2) =~= tail);
}

proof fn lemma_from_backslash(name: Seq<char>, tail: Seq<char>)
    requires
        !name.contains('\\'),
        tail.len() == 0 || tail[0] == '\\',
    ensures
        from_backslash(name + tail) == tail,
    decreases name.len(),
{
    if name.len() == 0 {
        assert(name + tail =~= tail);
    } else {
        assert(name[0] != '\\') by {
            assert(name.contains(name[0]));
        }
        assert forall|c: char| name.skip(1).contains(c) implies name.contains(c) by {
            let i = name.skip(1).index_of(c);
            assert(name[i + 1] == c);
        }
        lemma_from_backslash(name.skip(1), tail);
        assert((name + tail).skip(1) =~= name.skip(1) + tail);
    }
}

/// Under WSL a path into a distribution's share is that distribution's own path:
/// what follows the distribution's name, or its root.
pub proof fn law_wsl_shares_are_the_distributions(
    share: Seq<char>,
    name: Seq<char>,
    tail: Seq<char>,
)
    requires
        lower(share) == "\\\\wsl$\\"@ || lower(share) == "\\\\wsl.localhost\\"@,
        !name.contains('\\'),
        tail.len() == 0 || tail[0] == '\\',
    ensures
        linux_path(share + name + tail) == (if tail.len() == 0 {
            seq!['/']
        } else {
            slashed(tail)
        }),
{
    reveal_strlit("\\\\wsl$\\");
    reveal_strlit("\\\\wsl.localhost\\");
    let p = share + name + tail;
    let low = lower(p);
    let n = share.len() as int;
    assert(low.take(n) =~= lower(share));
    assert(p.skip(n) =~= name + tail);
    lemma_from_backslash(name, tail);
    lemma_forward(tail);
    if lower(share) == "\\\\wsl.localhost\\"@ {
        if begins(low, "\\\\wsl$\\"@) {
            assert(low.take(7)[5] == '$');
            assert(low.take(n)[5] == low[5]);
        }
    }
}

/// Under WSL any other path only has its backslashes made slashes.
pub proof fn law_wsl_keeps_other_paths(p: Seq<char>)
    requires
        p.len() < 2 || p[1] != ':',
        p.len() < 5 || p[0] != '\\' || p[2] != 'w' && p[2] != 'W',
    ensures
        linux_path(p) == slashed(p),
{
    reveal_strlit("\\\\wsl$\\");
    reveal_strlit("\\\\wsl.localhost\\");
    lemma_forward(p);
    let low = lower(p);
    if begins(low, "\\\\wsl$\\"@) {
        assert(low.take(7)[0] == '\\');
        assert(low.take(7)[2] == 'w');
    }
    if begins(low, "\\\\wsl.localhost\\"@) {
        assert(low.take(16)[0] == '\\');
        assert(low.take(16)[2] == 'w');
    }
}

// ---------------------------------------------------------------- shells

proof fn lemma_file_part(dir: Seq<char>, name: Seq<char>)
    requires
        dir.len() == 0 || is_slash(dir.last()),
        forall|i: int| 0 <= i < name.len() ==> !is_slash(#[trigger] name[i]),
    ensures
        file_part(dir + name) == name,
    decreases name.len(),
{
    if name.len() == 0 {
        assert(dir + name =~= dir);
        assert(file_part(dir) =~= name);
    } else {
        assert(!is_slash(name[name.len() - 1]));
        assert forall|i: int| 0 <= i < name.drop_last().len() implies !is_slash(
            #[trigger] name.drop_last()[i],
        ) by {
            assert(!is_slash(name[i]));
        }
        lemma_file_part(dir, name.drop_last());
        assert((dir + name).drop_last() =~= dir + name.drop_last());
        assert(file_part(dir + name) =~= name);
    }
}

proof fn lemma_without_exe_keeps_start(s: Seq<char>, n: int)
    requires
        0 <= n <= s.len(),
        forall|i: int| 0 <= i < n ==> #[trigger] s[i] != '.',
    ensures
        without_exe(s).len() >= n,
        without_exe(s).take(n) == s.take(n),
    decreases s.len(),
{
    if is_exe(s) {
        let t = s.take(s.len() - 4);
        assert(s[s.len() - 4] == '.');
        assert forall|i: int| 0 <= i < n implies #[trigger] t[i] != '.' by {
            assert(s[i] != '.');
        }
        lemma_without_exe_keeps_start(t, n);
        assert(t.take(n) =~= s.take(n));
    }
}

/// A program: a directory, if any, with a separator behind it; a name; and
/// perhaps an ending.
pub open spec fn program(dir: Seq<char>, name: Seq<char>, exe: Seq<char>) -> Seq<char> {
    dir + name + exe
}

/// Whether these are the parts of a program.
pub open spec fn program_parts(dir: Seq<char>, name: Seq<char>, exe: Seq<char>) -> bool {
    &&& dir.len() == 0 || dir.last() == '\\' || dir.last() == '/'
    &&& forall|i: int| 0 <= i < name.len() ==> #[trigger] name[i] != '\\' && name[i] != '/'
    &&& exe.len() == 0 || lower(exe) == seq!['.', 'e', 'x', 'e']
}

proof fn lemma_program(dir: Seq<char>, name: Seq<char>, exe: Seq<char>)
    requires
        program_parts(dir, name, exe),
    ensures
        ({
            let base = without_exe(file_part(lower(program(dir, name, exe))));
            base == without_exe(lower(name))
        }),
{
    let low = lower(program(dir, name, exe));
    let tail = lower(name) + lower(exe);
    assert(low =~= lower(dir) + tail);
    assert(exe.len() > 0 ==> exe.len() == lower(exe).len());
    assert forall|i: int| 0 <= i < tail.len() implies !is_slash(#[trigger] tail[i]) by {
        if i < name.len() {
            assert(name[i] != '\\' && name[i] != '/');
            assert(tail[i] == lower_char(name[i]));
        } else {
            assert(tail[i] == lower(exe)[i - name.len()]);
        }
    }
    if dir.len() > 0 {
        assert(lower(dir).last() == lower_char(dir.last()));
    }
    lemma_file_part(lower(dir), tail);
    if exe.len() == 0 {
        assert(tail =~= lower(name));
    } else {
        let n = tail.len() as int;
        assert(tail[n - 4] == '.' && tail[n - 3] == 'e' && tail[n - 2] == 'x' && tail[n - 1]
            == 'e');
        assert(tail.take(n - 4) =~= lower(name));
    }
}

/// A program is the shell that its name says, in whichever case, wherever it
/// stands and with or without its ending.
pub proof fn law_shell_goes_by_its_name(dir: Seq<char>, name: Seq<char>, exe: Seq<char>)
    requires
        program_parts(dir, name, exe),
    ensures
        ({
            let k = shell_of(program(dir, name, exe));
            let n = lower(name);
            &&& n == "cmd"@ ==> k == ShellKind::Cmd
            &&& n == "wsl"@ || n == "kali"@ ==> k == ShellKind::Wsl
            &&& n == "sh"@ || n == "zsh"@ || n == "fish"@ || n == "dash"@ ==> k == ShellKind::Posix
            &&& n == "powershell"@ || n == "pwsh"@ || n == "nu"@ ==> k == ShellKind::PowerShell
        }),
{
    lemma_program(dir, name, exe);
    reveal_strlit("cmd");
    reveal_strlit("wsl");
    reveal_strlit("kali");
    reveal_strlit("sh");
    reveal_strlit("zsh");
    reveal_strlit("fish");
    reveal_strlit("dash");
    reveal_strlit("bash");
    reveal_strlit("pwsh");
    reveal_strlit("nu");
    reveal_strlit("powershell");
    reveal_strlit("ubuntu");
    reveal_strlit("debian");
    let n = lower(name);
    assert("cmd"@[0] != "wsl"@[0]);
    assert("bash"@[0] != "kali"@[0] && "bash"@[0] != "fish"@[0] && "bash"@[0] != "dash"@[0]
        && "bash"@[0] != "pwsh"@[0]);
    assert("powershell"@[0] == 'p');
    assert("powershell"@.take(6)[0] == 'p');
    assert("zsh"@[0] != "wsl"@[0] && "zsh"@[0] != "cmd"@[0]);
    assert("pwsh"@[0] == 'p' && "kali"@[0] == 'k' && "fish"@[0] == 'f' && "dash"@[0] == 'd');
}

/// Bash is the one under WSL where it stands in the system's directory, and a
/// POSIX shell on Windows anywhere else.
pub proof fn law_bash_goes_by_its_place(dir: Seq<char>, name: Seq<char>, exe: Seq<char>)
    requires
        program_parts(dir, name, exe),
        lower(name) == "bash"@,
    ensures
        (exists|i: int|
            0 <= i && i + 8 <= dir.len() && lower(#[trigger] dir.subrange(i, i + 8))
                == "system32"@) ==> shell_of(program(dir, name, exe)) == ShellKind::Wsl,
        (forall|i: int|
            0 <= i && i + 8 <= program(dir, name, exe).len() ==> lower(
                #[trigger] program(dir, name, exe).subrange(i, i + 8),
            ) != "system32"@) ==> shell_of(program(dir, name, exe)) == ShellKind::Posix,
{
    lemma_program(dir, name, exe);
    reveal_strlit("cmd");
    reveal_strlit("wsl");
    reveal_strlit("kali");
    reveal_strlit("bash");
    reveal_strlit("ubuntu");
    reveal_strlit("debian");
    reveal_strlit("system32");
    assert("bash"@[0] == 'b' && "kali"@[0] == 'k');
    let p = program(dir, name, exe);
    let low = lower(p);
    if exists|i: int|
        0 <= i && i + 8 <= dir.len() && lower(#[trigger] dir.subrange(i, i + 8)) == "system32"@ {
        let i = choose|i: int|
            0 <= i && i + 8 <= dir.len() && lower(#[trigger] dir.subrange(i, i + 8))
                == "system32"@;
        assert(low.skip(i).take(8) =~= lower(dir.subrange(i, i + 8)));
        assert(holds(low, "system32"@));
    }
    if forall|i: int|
        0 <= i && i + 8 <= p.len() ==> lower(#[trigger] p.subrange(i, i + 8)) != "system32"@ {
        if holds(low, "system32"@) {
            let i = choose|i: int|
                0 <= i && i + 8 <= low.len() && #[trigger] low.skip(i).take(8) == "system32"@;
            assert(low.skip(i).take(8) =~= lower(p.subrange(i, i + 8)));
        }
    }
}

/// The launcher of a Linux distribution is a shell under WSL, whatever follows
/// the distribution's name.
pub proof fn law_distributions_run_under_wsl(dir: Seq<char>, name: Seq<char>, exe: Seq<char>)
    requires
        program_parts(dir, name, exe),
        name.len() >= 6,
        lower(name).take(6) == "ubuntu"@ || lower(name).take(6) == "debian"@,
    ensures
        shell_of(program(dir, name, exe)) == ShellKind::Wsl,
{
    lemma_program(dir, name, exe);
    reveal_strlit("cmd");
    reveal_strlit("ubuntu");
    reveal_strlit("debian");
    let n = lower(name);
    assert forall|i: int| 0 <= i < 6 implies #[trigger] n[i] != '.' by {
        assert(n[i] == n.take(6)[i]);
    }
    lemma_without_exe_keeps_start(n, 6);
    let base = without_exe(n);
    assert(base.len() >= 6);
    assert("cmd"@.len() == 3);
}

} // verus!
