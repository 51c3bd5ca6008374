use vstd::prelude::*;
use crate::extension::{lemma_text_lt_transitive, str_lt, text_lt};
use crate::text::{concat3, owned};

verus! {

broadcast use vstd::seq_lib::to_multiset_insert;

/// A file or directory found in a listing.
#[derive(Debug, Clone)]
pub struct FileEntry {
    pub name: String,
    pub path: String,
    pub is_dir: bool,
}

/// What a command printed, and how it ended (`-1` when it could not run
/// or ended without a code).
#[derive(Debug, Clone)]
pub struct ShellResult {
    pub code: i32,
    pub stdout: String,
    pub stderr: String,
}

/// Entries in order of their names.
pub open spec fn sorted_by_name(entries: Seq<FileEntry>) -> bool {
    forall|i: int, j: int| 0 <= i < j < entries.len() ==> !text_lt(#[trigger] entries[j].name@, #[trigger] entries[i].name@)
}

/// Whether an entry has the name `name`.
pub open spec fn has_name(name: Seq<char>) -> spec_fn(FileEntry) -> bool {
    |x: FileEntry| x.name@ == name
}

/// The entries named `name`, in their order.
pub open spec fn named(entries: Seq<FileEntry>, name: Seq<char>) -> Seq<FileEntry> {
    entries.filter(has_name(name))
}

/// The entries of a one-entry list that are named `name`.
proof fn lemma_named_single(e: FileEntry, name: Seq<char>)
    ensures
        named(seq![e], name) == if e.name@ == name { seq![e] } else { Seq::<FileEntry>::empty() },
{
    reveal_with_fuel(Seq::filter, 2);
    assert(seq![e].drop_last() =~= Seq::<FileEntry>::empty());
}

/// Appending an entry appends it to the entries of its name only.
proof fn lemma_named_push(s: Seq<FileEntry>, e: FileEntry, name: Seq<char>)
    ensures
        named(s.push(e), name) == if e.name@ == name { named(s, name).push(e) } else { named(s, name) },
{
    assert(s.push(e) =~= s + seq![e]);
    Seq::filter_distributes_over_add(s, seq![e], has_name(name));
    lemma_named_single(e, name);
    if e.name@ == name {
        assert(named(s, name) + seq![e] =~= named(s, name).push(e));
    } else {
        assert(named(s, name) + Seq::<FileEntry>::empty() =~= named(s, name));
    }
}

/// A list none of whose entries is named `name` has no entries of that name.
proof fn lemma_named_none(s: Seq<FileEntry>, name: Seq<char>)
    requires
        forall|j: int| 0 <= j < s.len() ==> s[j].name@ != name,
    ensures
        named(s, name).len() == 0,
{
    if named(s, name).len() > 0 {
        s.lemma_filter_pred(has_name(name), 0);
        let x = named(s, name)[0];
        assert(named(s, name).contains(x));
        s.lemma_filter_contains_rev(has_name(name), x);
        let j = choose|j: int| 0 <= j < s.len() && s[j] == x;
        assert(s[j].name@ == name);
    }
}

/// Inserting an entry in front of entries of other names adds it at the
/// end of the entries of its name, and changes no other name's entries.
proof fn lemma_named_insert(s: Seq<FileEntry>, p: int, e: FileEntry, name: Seq<char>)
    requires
        0 <= p <= s.len(),
        forall|j: int| p <= j < s.len() ==> s[j].name@ != e.name@,
    ensures
        named(s.insert(p, e), name) == if e.name@ == name { named(s, name).push(e) } else { named(s, name) },
{
    let f = has_name(name);
    let a = s.take(p);
    let b = s.skip(p);
    assert(s.insert(p, e) =~= a + seq![e] + b);
    assert(s =~= a + b);
    Seq::filter_distributes_over_add(a + seq![e], b, f);
    Seq::filter_distributes_over_add(a, seq![e], f);
    Seq::filter_distributes_over_add(a, b, f);
    lemma_named_single(e, name);
    if e.name@ == name {
        assert forall|j: int| 0 <= j < b.len() implies b[j].name@ != name by {
            assert(b[j] == s[p + j]);
        }
        lemma_named_none(b, name);
        assert(named(b, name) =~= Seq::<FileEntry>::empty());
        assert(named(s, name) =~= named(a, name));
        assert(named(a, name) + seq![e] + named(b, name) =~= named(a, name).push(e));
    } else {
        assert(named(a, name) + Seq::<FileEntry>::empty() + named(b, name) =~= named(a, name) + named(b, name));
    }
}

/// Orders a directory listing by name; entries of the same name keep their
/// order.
pub fn sort_entries(entries: Vec<FileEntry>) -> (out: Vec<FileEntry>)
    ensures
        sorted_by_name(out@),
        out@.to_multiset() == entries@.to_multiset(),
        out@.len() == entries@.len(),
        forall|name: Seq<char>| #[trigger] named(out@, name) == named(entries@, name),
{
    let ghost input = entries@;
    let mut rest = entries;
    let mut out: Vec<FileEntry> = Vec::new();
    let n = rest.len();
    let mut k: usize = 0;
    assert(out@ =~= input.take(0));
    while k < n
        invariant
            k <= n,
            n == input.len(),
            rest@ == input.skip(k as int),
            sorted_by_name(out@),
            out@.to_multiset() == input.take(k as int).to_multiset(),
            out@.len() == k,
            forall|name: Seq<char>| #[trigger] named(out@, name) == named(input.take(k as int), name),
        decreases n - k,
    {
        let e = rest.remove(0);
        assert(e == input[k as int]);
        assert(input.take(k + 1) =~= input.take(k as int).push(e));
        let mut p: usize = 0;
        while p < out.len() && !str_lt(e.name.as_str(), out[p].name.as_str())
            invariant
                p <= out@.len(),
                sorted_by_name(out@),
                forall|i: int| 0 <= i < p ==> !text_lt(e.name@, #[trigger] out@[i].name@),
            decreases out@.len() - p,
        {
            p = p + 1;
        }
        let ghost before = out@;
        assert(p < before.len() ==> text_lt(e.name@, before[p as int].name@));
        out.insert(p, e);
        proof {
            assert(out@ == before.insert(p as int, e));
            assert(out@.to_multiset() == before.to_multiset().insert(e));
            vstd::seq_lib::to_multiset_build(input.take(k as int), e);
            assert forall|i: int, j: int| 0 <= i < j < out@.len() implies !text_lt(
                #[trigger] out@[j].name@,
                #[trigger] out@[i].name@,
            ) by {
                if j < p {
                    assert(out@[i] == before[i] && out@[j] == before[j]);
                } else if j == p {
                    assert(out@[i] == before[i]);
                    assert(out@[j] == e);
                    assert(!text_lt(e.name@, before[i].name@));
                } else if i == p {
                    assert(out@[i] == e);
                    assert(out@[j] == before[j - 1]);
                    assert(p < before.len());
                    assert(text_lt(e.name@, before[p as int].name@));
                    if p < j - 1 {
                        assert(!text_lt(before[j - 1].name@, before[p as int].name@));
                    }
                    if text_lt(before[j - 1].name@, e.name@) {
                        lemma_text_lt_transitive(before[j - 1].name@, e.name@, before[p as int].name@);
                        if p == j - 1 {
                            crate::extension::lemma_text_lt_irreflexive(before[p as int].name@);
                        }
                    }
                } else if i < p {
                    assert(out@[i] == before[i] && out@[j] == before[j - 1]);
                } else {
                    assert(out@[i] == before[i - 1] && out@[j] == before[j - 1]);
                }
            }
            assert forall|j: int| p <= j < before.len() implies before[j].name@ != e.name@ by {
                if before[j].name@ == e.name@ {
                    if j == p {
                        crate::extension::lemma_text_lt_irreflexive(e.name@);
                    } else {
                        assert(!text_lt(before[j].name@, before[p as int].name@));
                    }
                }
            }
            assert forall|name: Seq<char>| #[trigger] named(out@, name) == named(input.take(k + 1), name) by {
                lemma_named_insert(before, p as int, e, name);
                lemma_named_push(input.take(k as int), e, name);
            }
        }
        k = k + 1;
    }
    assert(input.take(n as int) =~= input);
    out
}

/// How a desktop notification is shown on each platform.
#[derive(Debug, Clone, Copy, PartialEq, Eq, Structural)]
pub enum NotifyPlatform {
    Windows,
    MacOs,
    Linux,
    Other,
}

/// A program and its arguments.
#[derive(Debug)]
pub struct NotifyCommand {
    pub program: String,
    pub args: Vec<String>,
}

/// A text with every `from` character replaced by `to`.
pub open spec fn replaced(s: Seq<char>, from: char, to: Seq<char>) -> Seq<char>
    decreases s.len(),
{
    if s.len() == 0 {
        seq![]
    } else {
        replaced(s.drop_last(), from, to) + if s.last() == from {
            to
        } else {
            seq![s.last()]
        }
    }
}

pub fn replace_char(s: &str, from: char, to: &str) -> (out: String)
    ensures
        out@ == replaced(s@, from, to@),
{
    let cs = crate::text::chars_of(s);
    let mut out = String::new();
    let mut i: usize = 0;
    while i < cs.len()
        invariant
            i <= cs@.len(),
            cs@ == s@,
            out@ == replaced(s@.take(i as int), from, to@),
        decreases cs@.len() - i,
    {
        assert(s@.take(i + 1).drop_last() =~= s@.take(i as int));
        if cs[i] == from {
            out.append(to);
        } else {
            crate::text::push_char(&mut out, cs[i]);
        }
        i = i + 1;
    }
    assert(s@.take(i as int) =~= s@);
    out
}

/// The PowerShell script that shows a balloon tip with the message (single
/// quotes doubled).
pub open spec fn balloon_script(message: Seq<char>) -> Seq<char> {
    "Add-Type -AssemblyName System.Windows.Forms;$n=New-Object System.Windows.Forms.NotifyIcon;$n.Icon=[System.Drawing.SystemIcons]::Information;$n.Visible=$true;$n.ShowBalloonTip(4000,'Copper','"@
        + replaced(message, '\'', "''"@)
        + "',[System.Windows.Forms.ToolTipIcon]::None);Start-Sleep -Milliseconds 4500;$n.Dispose()"@
}

/// The command that shows a desktop notification with the message, where
/// the platform has one: a PowerShell balloon tip on Windows, `osascript`
/// on macOS (double quotes escaped), `notify-send` on Linux.
pub fn notify_command(platform: NotifyPlatform, message: &str) -> (c: Option<NotifyCommand>)
    ensures
        platform == NotifyPlatform::Other <==> c is None,
        platform == NotifyPlatform::Windows ==> (c matches Some(cmd) && cmd.program@ == "powershell"@ && cmd.args@.len()
            == 6 && cmd.args@[5]@ == balloon_script(message@)),
        platform == NotifyPlatform::MacOs ==> (c matches Some(cmd) && cmd.program@ == "osascript"@ && cmd.args@.len()
            == 2 && cmd.args@[0]@ == "-e"@ && cmd.args@[1]@ == "display notification \""@ + replaced(
            message@,
            '"',
            "\\\""@,
        ) + "\" with title \"Copper\""@),
        platform == NotifyPlatform::Linux ==> (c matches Some(cmd) && cmd.program@ == "notify-send"@ && cmd.args@.len()
            == 2 && cmd.args@[0]@ == "Copper"@ && cmd.args@[1]@ == message@),
{
    match platform {
        NotifyPlatform::Windows => {
            let msg = replace_char(message, '\'', "''");
            let script = concat3(
                "Add-Type -AssemblyName System.Windows.Forms;$n=New-Object System.Windows.Forms.NotifyIcon;$n.Icon=[System.Drawing.SystemIcons]::Information;$n.Visible=$true;$n.ShowBalloonTip(4000,'Copper','",
                msg.as_str(),
                "',[System.Windows.Forms.ToolTipIcon]::None);Start-Sleep -Milliseconds 4500;$n.Dispose()",
            );
            let mut args: Vec<String> = Vec::new();
            args.push(owned("-NoProfile"));
            args.push(owned("-WindowStyle"));
            args.push(owned("Hidden"));
            args.push(owned("-NonInteractive"));
            args.push(owned("-Command"));
            args.push(script);
            Some(NotifyCommand { program: owned("powershell"), args })
        },
        NotifyPlatform::MacOs => {
            let escaped = replace_char(message, '"', "\\\"");
            let line = concat3("display notification \"", escaped.as_str(), "\" with title \"Copper\"");
            let mut args: Vec<String> = Vec::new();
            args.push(owned("-e"));
            args.push(line);
            Some(NotifyCommand { program: owned("osascript"), args })
        },
        NotifyPlatform::Linux => {
            let mut args: Vec<String> = Vec::new();
            args.push(owned("Copper"));
            args.push(owned(message));
            Some(NotifyCommand { program: owned("notify-send"), args })
        },
        NotifyPlatform::Other => None,
    }
}

} // verus!
