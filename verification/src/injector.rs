//! The injector's own logic: reading its command line, building the game's
//! command line, wide (UTF-16) strings for the Win32 calls, and the order in
//! which libraries are injected before the game is resumed or terminated.

use vstd::prelude::*;

use crate::decimal::{decimal, law_parse_decimal_round_trip, parse_usize, parse_usize_text};
use crate::launcher::{gta_exe_path, spec_dlls, spec_game_args, spec_injector_args, LaunchConfig};
use crate::text::{contains_char, push_char, string_views};

verus! {

/// Why the injector's command line was refused.
#[derive(Debug, Clone, Copy, PartialEq, Eq, Structural)]
pub enum InjectorArgsError {
    /// Fewer than three arguments after the program path.
    Usage,
    /// The library count is not a number.
    InvalidDllCount,
    /// The library count runs past the end of the arguments.
    DllCountOutOfRange,
}

/// The injector's command line, read.
#[derive(Debug)]
pub struct InjectorArgs {
    /// Path of the game executable.
    pub gta_path: String,
    /// Libraries to inject, in order.
    pub dlls: Vec<String>,
    /// Arguments passed on to the game.
    pub game_args: Vec<String>,
}

/// How `argv` (program path first) is read: game path, library count,
/// that many libraries, then the game's arguments.
pub open spec fn spec_parse_injector_args(argv: Seq<Seq<char>>) -> Result<
    (Seq<char>, Seq<Seq<char>>, Seq<Seq<char>>),
    InjectorArgsError,
> {
    if argv.len() < 4 {
        Err(InjectorArgsError::Usage)
    } else {
        match parse_usize_text(argv[2]) {
            None => Err(InjectorArgsError::InvalidDllCount),
            Some(n) => if 3 + n > argv.len() {
                Err(InjectorArgsError::DllCountOutOfRange)
            } else {
                Ok((argv[1], argv.subrange(3, 3 + n), argv.subrange(3 + n, argv.len() as int)))
            },
        }
    }
}

/// The texts of a read command line.
pub open spec fn injector_args_view(a: InjectorArgs) -> (Seq<char>, Seq<Seq<char>>, Seq<Seq<char>>) {
    (a.gta_path@, string_views(a.dlls@), string_views(a.game_args@))
}

fn clone_range(v: &Vec<String>, from: usize, to: usize) -> (res: Vec<String>)
    requires
        from <= to <= v.len(),
    ensures
        string_views(res@) == string_views(v@).subrange(from as int, to as int),
{
    let mut res: Vec<String> = Vec::new();
    let mut i = from;
    while i < to
        invariant
            from <= i <= to <= v.len(),
            string_views(res@) == string_views(v@).subrange(from as int, i as int),
        decreases to - i,
    {
        let ghost prev = res@;
        let item = v[i].clone();
        assert(item@ == v@[i as int]@);
        res.push(item);
        assert(res@ == prev.push(item));
        assert(string_views(res@) =~= string_views(prev).push(item@));
        assert(string_views(res@) =~= string_views(v@).subrange(from as int, i + 1));
        i = i + 1;
    }
    res
}

/// Reads the injector's command line (`argv`, program path first).
pub fn parse_injector_args(argv: &Vec<String>) -> (res: Result<InjectorArgs, InjectorArgsError>)
    ensures
        match res {
            Ok(a) => spec_parse_injector_args(string_views(argv@)) == Ok::<
                (Seq<char>, Seq<Seq<char>>, Seq<Seq<char>>),
                InjectorArgsError,
            >(injector_args_view(a)),
            Err(e) => spec_parse_injector_args(string_views(argv@)) == Err::<
                (Seq<char>, Seq<Seq<char>>, Seq<Seq<char>>),
                InjectorArgsError,
            >(e),
        },
{
    let ghost views = string_views(argv@);
    let len = argv.len();
    if len < 4 {
        return Err(InjectorArgsError::Usage);
    }
    assert(views[2] == argv@[2]@);
    let count = match parse_usize(argv[2].as_str()) {
        None => {
            return Err(InjectorArgsError::InvalidDllCount);
        },
        Some(n) => n,
    };
    if count > len - 3 {
        return Err(InjectorArgsError::DllCountOutOfRange);
    }
    let gta_path = argv[1].clone();
    let dlls = clone_range(argv, 3, 3 + count);
    let game_args = clone_range(argv, 3 + count, len);
    let res = InjectorArgs { gta_path, dlls, game_args };
    assert(views.subrange(3, 3 + count) =~= string_views(argv@).subrange(3, 3 + count));
    Ok(res)
}

/// `s` with every `"` preceded by a backslash.
pub open spec fn escape_quotes(s: Seq<char>) -> Seq<char>
    decreases s.len(),
{
    if s.len() == 0 {
        Seq::empty()
    } else {
        escape_quotes(s.drop_last()) + if s.last() == '"' {
            seq!['\\', '"']
        } else {
            seq![s.last()]
        }
    }
}

/// How one game argument is appended to the command line: a space, then the
/// escaped argument, in double quotes when it holds a space or a tab.
pub open spec fn arg_text(a: Seq<char>) -> Seq<char> {
    let e = escape_quotes(a);
    if e.contains(' ') || e.contains('\t') {
        seq![' ', '"'] + e + seq!['"']
    } else {
        seq![' '] + e
    }
}

/// All game arguments, appended in order.
pub open spec fn args_text(args: Seq<Seq<char>>) -> Seq<char>
    decreases args.len(),
{
    if args.len() == 0 {
        Seq::empty()
    } else {
        args_text(args.drop_last()) + arg_text(args.last())
    }
}

/// The game's command line: the quoted executable path, then the arguments.
pub open spec fn spec_command_line(gta_path: Seq<char>, args: Seq<Seq<char>>) -> Seq<char> {
    seq!['"'] + gta_path + seq!['"'] + args_text(args)
}

/// In an escaped argument every `"` comes right after a backslash, so none
/// of them ends the quoted argument on the game's command line.
pub proof fn law_escaped_quotes_are_preceded(a: Seq<char>)
    ensures
        forall|k: int|
            0 <= k < escape_quotes(a).len() && #[trigger] escape_quotes(a)[k] == '"' ==> k > 0
                && escape_quotes(a)[k - 1] == '\\',
    decreases a.len(),
{
    if a.len() > 0 {
        law_escaped_quotes_are_preceded(a.drop_last());
        let p = escape_quotes(a.drop_last());
        let e = escape_quotes(a);
        assert forall|k: int| 0 <= k < e.len() && #[trigger] e[k] == '"' implies k > 0 && e[k - 1]
            == '\\' by {
            if k < p.len() {
                assert(e[k] == p[k]);
                assert(e[k - 1] == p[k - 1]);
            }
        }
    }
}

/// An argument without `"` is left as it is by escaping.
pub proof fn law_escape_keeps_plain_text(a: Seq<char>)
    requires
        !a.contains('"'),
    ensures
        escape_quotes(a) == a,
    decreases a.len(),
{
    if a.len() > 0 {
        assert(!a.drop_last().contains('"')) by {
            if a.drop_last().contains('"') {
                let j = choose|j: int| 0 <= j < a.drop_last().len() && a.drop_last()[j] == '"';
                assert(a[j] == '"');
            }
        }
        law_escape_keeps_plain_text(a.drop_last());
        assert(a.last() != '"') by {
            if a.last() == '"' {
                assert(a[a.len() - 1] == '"');
            }
        }
        assert(escape_quotes(a) =~= a);
    }
}

/// `arg` with every `"` replaced by `\"`.
pub fn escape_quotes_exec(arg: &str) -> (res: String)
    ensures
        res@ == escape_quotes(arg@),
{
    let n = arg.unicode_len();
    let mut res = String::new();
    let mut i: usize = 0;
    while i < n
        invariant
            n == arg@.len(),
            i <= n,
            res@ == escape_quotes(arg@.take(i as int)),
        decreases n - i,
    {
        let c = arg.get_char(i);
        if c == '"' {
            push_char(&mut res, '\\');
            push_char(&mut res, '"');
        } else {
            push_char(&mut res, c);
        }
        proof {
            let t = arg@.take(i + 1);
            assert(t.drop_last() =~= arg@.take(i as int));
            assert(t.last() == c);
            assert(res@ =~= escape_quotes(t));
        }
        i = i + 1;
    }
    assert(arg@.take(n as int) =~= arg@);
    res
}

/// Appends one game argument to a command line under construction.
pub fn push_game_arg(cmd: &mut String, arg: &str)
    ensures
        final(cmd)@ == old(cmd)@ + arg_text(arg@),
{
    let escaped = escape_quotes_exec(arg);
    if contains_char(escaped.as_str(), ' ') || contains_char(escaped.as_str(), '\t') {
        push_char(cmd, ' ');
        push_char(cmd, '"');
        cmd.append(escaped.as_str());
        push_char(cmd, '"');
    } else {
        push_char(cmd, ' ');
        cmd.append(escaped.as_str());
    }
    assert(final(cmd)@ =~= old(cmd)@ + arg_text(arg@));
}

/// The game's command line for `gta_path` and `game_args`.
pub fn command_line(gta_path: &str, game_args: &Vec<String>) -> (res: String)
    ensures
        res@ == spec_command_line(gta_path@, string_views(game_args@)),
{
    let mut cmd = String::new();
    push_char(&mut cmd, '"');
    cmd.append(gta_path);
    push_char(&mut cmd, '"');
    let ghost head = cmd@;
    let n = game_args.len();
    let mut i: usize = 0;
    while i < n
        invariant
            n == game_args.len(),
            i <= n,
            cmd@ == head + args_text(string_views(game_args@).take(i as int)),
        decreases n - i,
    {
        push_game_arg(&mut cmd, game_args[i].as_str());
        proof {
            let t = string_views(game_args@).take(i + 1);
            assert(t.drop_last() =~= string_views(game_args@).take(i as int));
            assert(t.last() == game_args@[i as int]@);
            assert(cmd@ =~= head + args_text(t));
        }
        i = i + 1;
    }
    assert(string_views(game_args@).take(n as int) =~= string_views(game_args@));
    assert(head =~= seq!['"'] + gta_path@ + seq!['"']);
    cmd
}

/// UTF-16 code units of one character.
pub open spec fn utf16_of_char(c: char) -> Seq<u16> {
    let v = c as int;
    if v < 0x10000 {
        seq![v as u16]
    } else {
        seq![(0xD800 + (v - 0x10000) / 0x400) as u16, (0xDC00 + (v - 0x10000) % 0x400) as u16]
    }
}

/// UTF-16 code units of a text.
pub open spec fn utf16(s: Seq<char>) -> Seq<u16>
    decreases s.len(),
{
    if s.len() == 0 {
        Seq::empty()
    } else {
        utf16(s.drop_last()) + utf16_of_char(s.last())
    }
}

/// `s` as a NUL-terminated UTF-16 string, as the wide Win32 calls take it.
pub fn to_wide_string(s: &str) -> (res: Vec<u16>)
    ensures
        res@ == utf16(s@).push(0u16),
{
    let n = s.unicode_len();
    let mut res: Vec<u16> = Vec::new();
    let mut i: usize = 0;
    while i < n
        invariant
            n == s@.len(),
            i <= n,
            res@ == utf16(s@.take(i as int)),
        decreases n - i,
    {
        let c = s.get_char(i);
        let v: u32 = c as u32;
        if v < 0x10000 {
            res.push(v as u16);
        } else {
            let w: u32 = v - 0x10000;
            res.push((0xD800 + w / 0x400) as u16);
            res.push((0xDC00 + w % 0x400) as u16);
        }
        proof {
            let t = s@.take(i + 1);
            assert(t.drop_last() =~= s@.take(i as int));
            assert(t.last() == c);
            assert(res@ =~= utf16(t));
        }
        i = i + 1;
    }
    assert(s@.take(n as int) =~= s@);
    res.push(0u16);
    res
}

/// A character gives a zero code unit exactly when it is NUL.
proof fn lemma_utf16_char_zero(c: char)
    ensures
        utf16_of_char(c).contains(0u16) <==> c == '\0',
{
    let v = c as int;
    if v < 0x10000 {
        assert(utf16_of_char(c)[0] == v as u16);
        if utf16_of_char(c).contains(0u16) {
            let k = choose|k: int| 0 <= k < utf16_of_char(c).len() && utf16_of_char(c)[k] == 0u16;
            assert(k == 0);
        }
        if c == '\0' {
            assert(utf16_of_char(c)[0] == 0u16);
        }
    } else {
        let u = utf16_of_char(c);
        assert(u[0] != 0u16 && u[1] != 0u16);
        if u.contains(0u16) {
            let k = choose|k: int| 0 <= k < u.len() && u[k] == 0u16;
            assert(k == 0 || k == 1);
        }
    }
}

/// The UTF-16 form of a text holds a zero unit exactly when the text holds NUL.
proof fn lemma_utf16_zero(s: Seq<char>)
    ensures
        utf16(s).contains(0u16) <==> s.contains('\0'),
    decreases s.len(),
{
    if s.len() > 0 {
        let a = utf16(s.drop_last());
        let b = utf16_of_char(s.last());
        lemma_utf16_zero(s.drop_last());
        lemma_utf16_char_zero(s.last());
        assert(utf16(s) == a + b);
        if (a + b).contains(0u16) {
            let k = choose|k: int| 0 <= k < (a + b).len() && (a + b)[k] == 0u16;
            if k < a.len() {
                assert(a[k] == 0u16);
                let j = choose|j: int| 0 <= j < s.drop_last().len() && s.drop_last()[j] == '\0';
                assert(s[j] == '\0');
            } else {
                assert(b[k - a.len()] == 0u16);
                assert(s[s.len() - 1] == '\0');
            }
        }
        if s.contains('\0') {
            let j = choose|j: int| 0 <= j < s.len() && s[j] == '\0';
            if j < s.len() - 1 {
                assert(s.drop_last()[j] == '\0');
                let k = choose|k: int| 0 <= k < a.len() && a[k] == 0u16;
                assert((a + b)[k] == 0u16);
            } else {
                let k = choose|k: int| 0 <= k < b.len() && b[k] == 0u16;
                assert((a + b)[a.len() + k] == 0u16);
            }
        }
    }
}

/// A wide string made of a text without NUL has exactly one zero unit, its
/// last: a Win32 call reads the whole text and nothing after it.
pub proof fn law_wide_string_ends_at_terminator(s: Seq<char>)
    requires
        !s.contains('\0'),
    ensures
        utf16(s).push(0u16).last() == 0u16,
        forall|k: int| 0 <= k < utf16(s).len() ==> #[trigger] utf16(s).push(0u16)[k] != 0u16,
{
    lemma_utf16_zero(s);
    assert forall|k: int| 0 <= k < utf16(s).len() implies #[trigger] utf16(s).push(0u16)[k] != 0u16 by {
        assert(utf16(s).push(0u16)[k] == utf16(s)[k]);
        if utf16(s)[k] == 0u16 {
            assert(utf16(s).contains(0u16));
        }
    }
}

/// Byte size of a wide string of `units` code units.
pub fn wide_byte_len(units: usize) -> (res: usize)
    requires
        units * 2 <= usize::MAX,
    ensures
        res == units * 2,
{
    units * 2
}

/// What the injector does next.
#[derive(Debug, Clone, Copy, PartialEq, Eq, Structural)]
pub enum InjectAction {
    /// Inject the library at this position of the list.
    Inject(usize),
    /// All libraries are in: let the game run.
    Resume,
    /// An injection failed: kill the game.
    Terminate,
}

/// The next step after `injected` libraries went in and the last attempt
/// (if any) succeeded (`last_ok`); the first call passes `0` and `true`.
pub fn next_injection_action(dll_count: usize, injected: usize, last_ok: bool) -> (res: InjectAction)
    requires
        injected <= dll_count,
    ensures
        !last_ok ==> res == InjectAction::Terminate,
        last_ok && injected < dll_count ==> res == InjectAction::Inject(injected),
        last_ok && injected == dll_count ==> res == InjectAction::Resume,
{
    if !last_ok {
        InjectAction::Terminate
    } else if injected < dll_count {
        InjectAction::Inject(injected)
    } else {
        InjectAction::Resume
    }
}

/// A command line of at least four entries whose count text reads as `n`,
/// with `3 + n` entries or more, is read successfully: the game path is the
/// first argument, the libraries are the `n` entries after the count and the
/// game arguments are all that remain (possibly none). Together libraries and
/// game arguments are exactly the entries after the count.
pub proof fn law_injector_reads_counted_args(argv: Seq<Seq<char>>, n: usize)
    requires
        argv.len() >= 4,
        parse_usize_text(argv[2]) == Some(n),
        3 + n <= argv.len(),
    ensures
        spec_parse_injector_args(argv) matches Ok((g, d, a)) && g == argv[1] && d.len() == n
            && a.len() == argv.len() - 3 - n && d + a == argv.subrange(3, argv.len() as int)
            && (forall|k: int| 0 <= k < n ==> #[trigger] d[k] == argv[3 + k]),
{
    let d = argv.subrange(3, 3 + n);
    let a = argv.subrange(3 + n, argv.len() as int);
    assert(d + a =~= argv.subrange(3, argv.len() as int));
}

/// What the launcher starts the injector with is read back by the injector
/// as the game executable, the libraries and the game arguments it was
/// planned with, whatever path the injector runs from.
pub proof fn law_injector_reads_launch_args(c: LaunchConfig, injector_path: Seq<char>)
    ensures
        spec_parse_injector_args(seq![injector_path] + spec_injector_args(c)) == Ok::<
            (Seq<char>, Seq<Seq<char>>, Seq<Seq<char>>),
            InjectorArgsError,
        >((gta_exe_path(c.game_path@), spec_dlls(c), spec_game_args(c))),
{
    let argv = seq![injector_path] + spec_injector_args(c);
    let dlls = spec_dlls(c);
    let n: int = dlls.len() as int;
    law_parse_decimal_round_trip(n as usize);
    assert(decimal(n as nat) == decimal((n as usize) as nat));
    assert(argv[2] == decimal(n as nat));
    assert(argv.subrange(3, 3 + n) =~= dlls);
    assert(argv.subrange(3 + n, argv.len() as int) =~= spec_game_args(c));
}

} // verus!
