//! Taskbar Jump List tasks.

use crate::text::{chars, concat, string};
use vstd::prelude::*;

verus! {

/// One task: a title and the arguments the program is started with.
#[derive(Clone, Debug, PartialEq)]
pub struct Task {
    pub title: String,
    pub args: String,
}

/// `n` backslashes.
pub open spec fn slashes(n: nat) -> Seq<char> {
    Seq::new(n, |i: int| '\\')
}

/// A character that makes an argument need quotes.
pub open spec fn special(c: char) -> bool {
    c == ' ' || c == '\t' || c == '"'
}

/// An argument inside quotes, with `n` backslashes before it: backslashes are
/// doubled before a quote and at the end, and a quote is escaped.
pub open spec fn quoted_body(s: Seq<char>, n: nat) -> Seq<char>
    decreases s.len(),
{
    if s.len() == 0 {
        slashes(2 * n)
    } else if s[0] == '\\' {
        quoted_body(s.skip(1), n + 1)
    } else if s[0] == '"' {
        slashes(2 * n + 1) + seq!['"'] + quoted_body(s.skip(1), 0)
    } else {
        slashes(n) + seq![s[0]] + quoted_body(s.skip(1), 0)
    }
}

/// An argument as a command line spells it.
pub open spec fn quoted(a: Seq<char>) -> Seq<char> {
    if a.len() > 0 && forall|i: int| 0 <= i < a.len() ==> !special(#[trigger] a[i]) {
        a
    } else {
        seq!['"'] + quoted_body(a, 0) + seq!['"']
    }
}

/// Append `n` backslashes.
fn push_slashes(out: &mut Vec<char>, n: usize)
    ensures
        final(out)@ == old(out)@ + slashes(n as nat),
{
    let mut i: usize = 0;
    assert(out@ =~= old(out)@ + slashes(0));
    while i < n
        invariant
            i <= n,
            out@ == old(out)@ + slashes(i as nat),
        decreases n - i,
    {
        out.push('\\');
        i += 1;
        assert(out@ =~= old(out)@ + slashes(i as nat));
    }
}

proof fn lemma_slashes(a: nat, b: nat)
    ensures
        slashes(a) + slashes(b) == slashes(a + b),
{
    assert(slashes(a) + slashes(b) =~= slashes(a + b));
}

/// Quote one argument for a Windows command line.
pub fn quote_arg(a: &str) -> (r: String)
    ensures
        r@ == quoted(a@),
{
    let cs = chars(a);
    let n: usize = cs.len();
    let mut plain = n > 0;
    let mut i: usize = 0;
    while i < n
        invariant
            i <= n == cs@.len(),
            plain == (n > 0 && forall|k: int| 0 <= k < i ==> !special(#[trigger] cs@[k])),
        decreases n - i,
    {
        if cs[i] == ' ' || cs[i] == '\t' || cs[i] == '"' {
            assert(special(cs@[i as int]));
            plain = false;
        }
        i += 1;
    }
    if plain {
        return a.to_owned();
    }
    let mut out: Vec<char> = Vec::new();
    out.push('"');
    let mut held: usize = 0;
    let mut i: usize = 0;
    let ghost whole = seq!['"'] + quoted_body(cs@, 0);
    assert(cs@.skip(0) =~= cs@);
    assert(out@ =~= seq!['"']);
    while i < n
        invariant
            i <= n == cs@.len(),
            held <= i,
            whole == out@ + quoted_body(cs@.skip(i as int), held as nat),
        decreases n - i,
    {
        let c: char = cs[i];
        let ghost before = out@;
        let ghost rest = quoted_body(cs@.skip(i + 1), 0);
        assert(cs@.skip(i as int).skip(1) =~= cs@.skip(i + 1));
        if c == '\\' {
            held += 1;
        } else if c == '"' {
            push_slashes(&mut out, held);
            push_slashes(&mut out, held);
            out.push('\\');
            out.push('"');
            proof {
                lemma_slashes(held as nat, held as nat);
                let k = held as nat;
                assert(slashes(2 * k).push('\\') =~= slashes(2 * k + 1));
                assert(out@ =~= before + (slashes(2 * k + 1) + seq!['"']));
                assert(before + (slashes(2 * k + 1) + seq!['"'] + rest) =~= out@ + rest);
            }
            held = 0;
        } else {
            push_slashes(&mut out, held);
            out.push(c);
            proof {
                let k = held as nat;
                assert(before + (slashes(k) + seq![c] + rest) =~= out@ + rest);
            }
            held = 0;
        }
        i += 1;
    }
    assert(cs@.skip(n as int) =~= Seq::empty());
    let ghost before = out@;
    push_slashes(&mut out, held);
    push_slashes(&mut out, held);
    proof {
        lemma_slashes(held as nat, held as nat);
        assert(out@ =~= before + slashes(2 * (held as nat)));
        assert(out@ == whole);
    }
    out.push('"');
    assert(out@ =~= whole + seq!['"']);
    string(out.as_slice())
}

/// A blank that parts arguments.
pub open spec fn is_blank(c: char) -> bool {
    c == ' ' || c == '\t'
}

/// What a program reads of a command line at the start of an argument, with `n`
/// backslashes before it: the argument, and the rest of the line. Quotes open
/// and close, an even number of backslashes before a quote is half as many, an
/// odd number makes the quote a character, and a blank outside quotes ends the
/// argument.
pub open spec fn read_arg(s: Seq<char>, inside: bool, n: nat) -> (Seq<char>, Seq<char>)
    decreases s.len(),
{
    if s.len() == 0 {
        (slashes(n), s)
    } else if s[0] == '\\' {
        read_arg(s.skip(1), inside, n + 1)
    } else if s[0] == '"' {
        if n % 2 == 0 {
            let (a, rest) = read_arg(s.skip(1), !inside, 0);
            (slashes(n / 2) + a, rest)
        } else {
            let (a, rest) = read_arg(s.skip(1), inside, 0);
            (slashes(n / 2) + seq!['"'] + a, rest)
        }
    } else if !inside && is_blank(s[0]) {
        (slashes(n), s)
    } else {
        let (a, rest) = read_arg(s.skip(1), inside, 0);
        (slashes(n) + seq![s[0]] + a, rest)
    }
}

/// The arguments that a program reads of a command line.
pub open spec fn read_args(s: Seq<char>) -> Seq<Seq<char>>
    decreases s.len(),
{
    if s.len() == 0 {
        Seq::empty()
    } else if is_blank(s[0]) {
        read_args(s.skip(1))
    } else {
        let (a, rest) = read_arg(s, false, 0);
        if rest.len() < s.len() {
            seq![a] + read_args(rest)
        } else {
            seq![a]
        }
    }
}

proof fn lemma_read_slashes(m: nat, t: Seq<char>, inside: bool, n: nat)
    ensures
        read_arg(slashes(m) + t, inside, n) == read_arg(t, inside, n + m),
    decreases m,
{
    if m == 0 {
        assert(slashes(0) + t =~= t);
    } else {
        let s = slashes(m) + t;
        assert(s[0] == '\\');
        assert(s.skip(1) =~= slashes((m - 1) as nat) + t);
        lemma_read_slashes((m - 1) as nat, t, inside, n + 1);
    }
}

/// What follows an argument: nothing, or a blank.
spec fn ends_argument(t: Seq<char>) -> bool {
    t.len() == 0 || is_blank(t[0])
}

proof fn lemma_read_body(s: Seq<char>, n: nat, t: Seq<char>)
    requires
        ends_argument(t),
    ensures
        read_arg(quoted_body(s, n) + (seq!['"'] + t), true, 0) == (slashes(n) + s, t),
    decreases s.len(),
{
    let end = seq!['"'] + t;
    if s.len() == 0 {
        lemma_read_slashes(2 * n, end, true, 0);
        assert(end.skip(1) =~= t);
        assert(slashes(0) =~= Seq::empty());
        assert(read_arg(t, false, 0) == (slashes(0), t));
        assert(slashes(n) + slashes(0) =~= slashes(n) + s);
    } else if s[0] == '\\' {
        lemma_read_body(s.skip(1), n + 1, t);
        assert(slashes(n + 1) + s.skip(1) =~= slashes(n) + s);
    } else {
        let rest = quoted_body(s.skip(1), 0) + end;
        lemma_read_body(s.skip(1), 0, t);
        assert(slashes(0) + s.skip(1) =~= s.skip(1));
        assert(read_arg(rest, true, 0) == (s.skip(1), t));
        let head = seq![s[0]];
        let mark = head + rest;
        assert(mark.skip(1) =~= rest);
        assert(mark[0] == s[0]);
        if s[0] == '"' {
            assert(quoted_body(s, n) + end =~= slashes(2 * n + 1) + mark);
            lemma_read_slashes(2 * n + 1, mark, true, 0);
            assert((2 * n + 1) % 2 == 1 && (2 * n + 1) / 2 == n);
        } else {
            assert(quoted_body(s, n) + end =~= slashes(n) + mark);
            lemma_read_slashes(n, mark, true, 0);
        }
        assert(slashes(n) + head + s.skip(1) =~= slashes(n) + s);
    }
}

proof fn lemma_read_plain(a: Seq<char>, n: nat, t: Seq<char>)
    requires
        forall|i: int| 0 <= i < a.len() ==> !special(#[trigger] a[i]),
        ends_argument(t),
    ensures
        read_arg(a + t, false, n) == (slashes(n) + a, t),
    decreases a.len(),
{
    if a.len() == 0 {
        assert(a + t =~= t);
        assert(slashes(n) + a =~= slashes(n));
    } else {
        assert(!special(a[0]));
        assert forall|i: int| 0 <= i < a.skip(1).len() implies !special(#[trigger] a.skip(1)[i]) by {
            assert(!special(a[i + 1]));
        }
        assert((a + t).skip(1) =~= a.skip(1) + t);
        if a[0] == '\\' {
            lemma_read_plain(a.skip(1), n + 1, t);
            assert(slashes(n + 1) + a.skip(1) =~= slashes(n) + a);
        } else {
            lemma_read_plain(a.skip(1), 0, t);
            assert(slashes(0) + a.skip(1) =~= a.skip(1));
            assert(slashes(n) + seq![a[0]] + a.skip(1) =~= slashes(n) + a);
        }
    }
}

proof fn lemma_read_quoted(a: Seq<char>, t: Seq<char>)
    requires
        ends_argument(t),
    ensures
        read_arg(quoted(a) + t, false, 0) == (a, t),
        quoted(a).len() > 0,
        !is_blank(quoted(a)[0]),
{
    assert(slashes(0) + a =~= a);
    if a.len() > 0 && forall|i: int| 0 <= i < a.len() ==> !special(#[trigger] a[i]) {
        lemma_read_plain(a, 0, t);
        assert(!special(a[0]));
    } else {
        lemma_read_body(a, 0, t);
        let q = quoted(a) + t;
        assert(q.skip(1) =~= quoted_body(a, 0) + (seq!['"'] + t));
        assert(q[0] == '"');
        assert(slashes(0) + a =~= a);
    }
}

/// A program reads back exactly the argument that was quoted, behind whatever
/// else is on the command line: one argument, and nothing behind it.
pub proof fn law_quoted_argument_reads_back(a: Seq<char>)
    ensures
        read_args(quoted(a)) == seq![a],
        read_args(seq!['x', ' '] + quoted(a)) == seq![seq!['x'], a],
{
    lemma_read_quoted(a, Seq::empty());
    let q = quoted(a);
    assert(q + Seq::empty() =~= q);
    assert(read_args(Seq::empty()) =~= Seq::empty());
    assert(read_args(q) =~= seq![a]);
    let line = seq!['x', ' '] + q;
    let tail = seq![' '] + q;
    assert(line =~= seq!['x'] + tail);
    lemma_read_plain(seq!['x'], 0, tail);
    assert(slashes(0) + seq!['x'] =~= seq!['x']);
    assert(tail.skip(1) =~= q);
    assert(read_args(tail) == read_args(q));
    assert(read_args(line) =~= seq![seq!['x'], a]);
}

/// Arguments that are quoted and parted by a blank are read back one by one.
pub proof fn law_quoted_arguments_read_back(args: Seq<Seq<char>>)
    ensures
        read_args(command_line(args)) == args,
    decreases args.len(),
{
    if args.len() > 0 {
        let rest = command_line(args.skip(1));
        law_quoted_arguments_read_back(args.skip(1));
        let a = args[0];
        let t = if args.len() == 1 {
            Seq::empty()
        } else {
            seq![' '] + rest
        };
        lemma_read_quoted(a, t);
        let line = quoted(a) + t;
        assert(command_line(args) =~= line);
        if args.len() > 1 {
            assert(t.skip(1) =~= rest);
        } else {
            assert(rest =~= Seq::empty());
        }
        assert(read_args(t) == args.skip(1));
        assert(seq![a] + args.skip(1) =~= args);
    }
}

/// Arguments as one command line: each quoted, a blank between two.
pub open spec fn command_line(args: Seq<Seq<char>>) -> Seq<char>
    decreases args.len(),
{
    if args.len() == 0 {
        Seq::empty()
    } else if args.len() == 1 {
        quoted(args[0])
    } else {
        quoted(args[0]) + seq![' '] + command_line(args.skip(1))
    }
}

/// An argument stays as it is exactly where it is not empty and holds no blank
/// and no quote.
pub proof fn law_plain_argument_stays(a: Seq<char>)
    ensures
        (quoted(a) == a) == (a.len() > 0 && forall|i: int|
            0 <= i < a.len() ==> !special(#[trigger] a[i])),
{
    lemma_body_is_no_shorter(a, 0);
}

proof fn lemma_body_is_no_shorter(s: Seq<char>, n: nat)
    ensures
        quoted_body(s, n).len() >= s.len() + n,
    decreases s.len(),
{
    if s.len() > 0 {
        lemma_body_is_no_shorter(s.skip(1), 0);
        lemma_body_is_no_shorter(s.skip(1), n + 1);
    }
}

/// A task, by its texts: title and arguments.
pub open spec fn task_text(t: Task) -> (Seq<char>, Seq<char>) {
    (t.title@, t.args@)
}

/// The task that opens a tab with a profile.
pub open spec fn profile_task(name: Seq<char>) -> (Seq<char>, Seq<char>) {
    ("New Tab: "@ + name, "+new-tab "@ + quoted("--command="@ + name))
}

/// The tasks for a list of profiles: a window, a tab, then a tab for each
/// profile.
pub fn tasks(profile_names: &[&str]) -> (out: Vec<Task>)
    ensures
        out@.len() == profile_names@.len() + 2,
        task_text(out@[0]) == ("New Window"@, "+new-window"@),
        task_text(out@[1]) == ("New Tab"@, "+new-tab"@),
        forall|i: int|
            0 <= i < profile_names@.len() ==> task_text(#[trigger] out@[i + 2]) == profile_task(
                profile_names@[i]@,
            ),
{
    let mut out: Vec<Task> = Vec::new();
    out.push(Task { title: "New Window".to_owned(), args: "+new-window".to_owned() });
    out.push(Task { title: "New Tab".to_owned(), args: "+new-tab".to_owned() });
    let mut i: usize = 0;
    while i < profile_names.len()
        invariant
            i <= profile_names@.len(),
            out@.len() == i + 2,
            task_text(out@[0]) == ("New Window"@, "+new-window"@),
            task_text(out@[1]) == ("New Tab"@, "+new-tab"@),
            forall|k: int|
                0 <= k < i ==> task_text(#[trigger] out@[k + 2]) == profile_task(
                    profile_names@[k]@,
                ),
        decreases profile_names@.len() - i,
    {
        let name = profile_names[i];
        let arg = concat("--command=", name);
        let quoted_arg = quote_arg(arg.as_str());
        out.push(
            Task {
                title: concat("New Tab: ", name),
                args: concat("+new-tab ", quoted_arg.as_str()),
            },
        );
        i += 1;
    }
    out
}

/// The complaint about a collection that does not hold every task.
pub fn check_task_count(held: u32, expected: usize) -> (r: Result<(), String>)
    ensures
        match r {
            Ok(_) => held == expected,
            Err(e) => held != expected && e@ == "collection holds "@ + crate::text::decimal(
                held as nat,
            ) + " tasks, expected "@ + crate::text::decimal(expected as nat),
        },
{
    if held as u64 == expected as u64 {
        return Ok(());
    }
    let a = crate::text::to_decimal(held as u64);
    let b = crate::text::to_decimal(expected as u64);
    let mut s = crate::text::concat3("collection holds ", a.as_str(), " tasks, expected ");
    s.append(b.as_str());
    Err(s)
}

/// A profile's task is titled by the profile, and the program it starts reads
/// two arguments: the action, and the profile as the command, whatever its name
/// holds.
pub proof fn law_profile_task_names_its_profile(name: Seq<char>)
    ensures
        profile_task(name).0 == "New Tab: "@ + name,
        read_args(profile_task(name).1) == seq!["+new-tab"@, "--command="@ + name],
{
    reveal_strlit("+new-tab");
    reveal_strlit("+new-tab ");
    let args = seq!["+new-tab"@, "--command="@ + name];
    law_quoted_arguments_read_back(args);
    law_plain_argument_stays("+new-tab"@);
    assert(quoted("+new-tab"@) == "+new-tab"@);
    assert(args.skip(1) =~= seq!["--command="@ + name]);
    assert(command_line(args.skip(1)) == quoted("--command="@ + name));
    assert("+new-tab "@ =~= "+new-tab"@ + seq![' ']);
    assert(command_line(args) =~= profile_task(name).1);
}

} // verus!
