//! What the installer decides, and the icon file it writes.
//!
//! Copying files, the registry, the shell link and the message boxes are all
//! I/O and live in the application.

use vstd::prelude::*;

use crate::unicode::{chars_of, ends_with, has_prefix, has_suffix, starts_with, str_equal, string_push};

verus! {

/// What this invocation is supposed to do.
pub enum Mode {
    /// Run as the tray application.
    Run,
    /// Running from outside the install directory: ask whether to install.
    Offer,
    Install { silent: bool },
    Uninstall { silent: bool },
    /// Internal. A copy running from `%TEMP%`, waiting to delete the install
    /// directory once the uninstaller that spawned it has exited.
    FinishUninstall { dir: String, pid: u32 },
}

/// A [`Mode`] as the contracts speak of it.
pub enum ModeView {
    Run,
    Offer,
    Install { silent: bool },
    Uninstall { silent: bool },
    FinishUninstall { dir: Seq<char>, pid: u32 },
}

impl View for Mode {
    type V = ModeView;

    open spec fn view(&self) -> ModeView {
        match self {
            Mode::Run => ModeView::Run,
            Mode::Offer => ModeView::Offer,
            Mode::Install { silent } => ModeView::Install { silent: *silent },
            Mode::Uninstall { silent } => ModeView::Uninstall { silent: *silent },
            Mode::FinishUninstall { dir, pid } => ModeView::FinishUninstall {
                dir: dir@,
                pid: *pid,
            },
        }
    }
}

/// Whether `c` is an ASCII decimal digit.
pub open spec fn is_digit(c: char) -> bool {
    '0' <= c <= '9'
}

/// The value of a string of decimal digits.
pub open spec fn digits_value(s: Seq<char>) -> int
    decreases s.len(),
{
    if s.len() == 0 {
        0
    } else {
        digits_value(s.drop_last()) * 10 + (s.last() as int - '0' as int)
    }
}

/// `s` without a leading `+`, if it has one.
pub open spec fn sign_stripped(s: Seq<char>) -> Seq<char> {
    if s.len() > 0 && s[0] == '+' {
        s.drop_first()
    } else {
        s
    }
}

/// Whether every character of `t` is a decimal digit.
pub open spec fn all_digits(t: Seq<char>) -> bool {
    forall|i: int| 0 <= i < t.len() ==> is_digit(#[trigger] t[i])
}

/// What `u32::from_str` makes of `s`: an optional `+` followed by at least
/// one decimal digit and nothing else, whose value fits in a `u32`.
pub open spec fn u32_from_str(s: Seq<char>) -> Option<u32> {
    let digits = sign_stripped(s);
    if digits.len() > 0 && all_digits(digits) && digits_value(digits) <= u32::MAX {
        Some(digits_value(digits) as u32)
    } else {
        None
    }
}

/// A string of digits is worth at least as much as any prefix of it.
proof fn lemma_digits_value_prefix(t: Seq<char>, k: int)
    requires
        0 <= k <= t.len(),
        forall|i: int| 0 <= i < t.len() ==> is_digit(#[trigger] t[i]),
    ensures
        0 <= digits_value(t.take(k)) <= digits_value(t),
    decreases t.len(),
{
    if k == t.len() {
        assert(t.take(k) =~= t);
        lemma_digits_value_nonneg(t);
    } else {
        let r = t.drop_last();
        assert forall|i: int| 0 <= i < r.len() implies is_digit(#[trigger] r[i]) by {
            assert(r[i] == t[i]);
        }
        lemma_digits_value_prefix(r, k);
        assert(r.take(k) =~= t.take(k));
        assert(is_digit(t[t.len() - 1]));
    }
}

proof fn lemma_digits_value_nonneg(t: Seq<char>)
    requires
        forall|i: int| 0 <= i < t.len() ==> is_digit(#[trigger] t[i]),
    ensures
        digits_value(t) >= 0,
    decreases t.len(),
{
    if t.len() > 0 {
        let r = t.drop_last();
        assert forall|i: int| 0 <= i < r.len() implies is_digit(#[trigger] r[i]) by {
            assert(r[i] == t[i]);
        }
        lemma_digits_value_nonneg(r);
        assert(is_digit(t[t.len() - 1]));
    }
}

/// A number is read only from an optional leading `+` and at least one ASCII
/// digit: a sign of `-`, a space, any other character, or no digit at all
/// makes the text no number.
pub proof fn law_u32_text_is_digits(s: Seq<char>)
    ensures
        u32_from_str(s) is Some ==> {
            &&& forall|i: int| 0 <= i < s.len() ==> ('0' <= #[trigger] s[i] <= '9') || (i == 0
                && s[i] == '+')
            &&& exists|i: int| 0 <= i < s.len() && '0' <= #[trigger] s[i] <= '9'
        },
{
    if u32_from_str(s) is Some {
        let d = sign_stripped(s);
        assert(all_digits(d) && d.len() > 0);
        if s.len() > 0 && s[0] == '+' {
            assert forall|i: int| 0 <= i < s.len() implies ('0' <= #[trigger] s[i] <= '9') || (i
                == 0 && s[i] == '+') by {
                if i > 0 {
                    assert(s[i] == d[i - 1]);
                    assert(is_digit(d[i - 1]));
                }
            }
            assert(s[1] == d[0] && is_digit(d[0]));
        } else {
            assert forall|i: int| 0 <= i < s.len() implies ('0' <= #[trigger] s[i] <= '9') || (i
                == 0 && s[i] == '+') by {
                assert(is_digit(d[i]));
            }
            assert(is_digit(d[0]));
        }
    }
}

/// A decimal number, as `u32::from_str` reads it.
fn parse_u32(s: &str) -> (r: Option<u32>)
    ensures
        r == u32_from_str(s@),
{
    let chars = chars_of(s);
    let n = chars.len();
    let start: usize = if n > 0 && chars[0] == '+' {
        1
    } else {
        0
    };
    let ghost digits = sign_stripped(s@);
    assert(digits =~= s@.skip(start as int));
    if start >= n {
        return None;
    }
    let mut acc: u32 = 0;
    let mut i: usize = start;
    while i < n
        invariant
            chars@ == s@,
            n == s@.len(),
            start <= i <= n,
            digits == s@.skip(start as int),
            digits == sign_stripped(s@),
            digits.len() == n - start,
            forall|k: int| 0 <= k < i - start ==> is_digit(#[trigger] digits[k]),
            acc as int == digits_value(digits.take(i - start)),
        decreases n - i,
    {
        let c = chars[i];
        assert(c == digits[i - start]);
        if !('0' <= c && c <= '9') {
            assert(!is_digit(digits[i - start]));
            assert(!all_digits(digits));
            assert(u32_from_str(s@) is None);
            return None;
        }
        let d: u32 = (c as u32) - 48;
        let ghost t = digits.take(i - start + 1);
        assert(t.drop_last() =~= digits.take(i - start));
        assert(digits_value(t) == acc * 10 + d);
        if acc > (4294967295u32 - d) / 10 {
            assert(acc * 10 + d > 4294967295) by (nonlinear_arith)
                requires
                    acc > (4294967295u32 - d) / 10,
                    d <= 9,
            ;
            proof {
                if all_digits(digits) {
                    lemma_digits_value_prefix(digits, i - start + 1);
                }
            }
            return None;
        }
        assert(acc * 10 + d <= 4294967295) by (nonlinear_arith)
            requires
                acc <= (4294967295u32 - d) / 10,
                d <= 9,
        ;
        acc = acc * 10 + d;
        i = i + 1;
    }
    assert(digits.take(n - start) =~= digits);
    assert(all_digits(digits));
    Some(acc)
}

/// Index of the first argument equal to `flag`, or -1.
pub open spec fn arg_position(args: Seq<Seq<char>>, flag: Seq<char>) -> int
    decreases args.len(),
{
    if args.len() == 0 {
        -1
    } else if args[0] == flag {
        0
    } else if arg_position(args.drop_first(), flag) < 0 {
        -1
    } else {
        arg_position(args.drop_first(), flag) + 1
    }
}

proof fn lemma_arg_position(args: Seq<Seq<char>>, flag: Seq<char>)
    ensures
        -1 <= arg_position(args, flag) < args.len(),
        arg_position(args, flag) >= 0 ==> args[arg_position(args, flag)] == flag,
        forall|i: int| 0 <= i < args.len() && (arg_position(args, flag) < 0 || i < arg_position(args, flag))
            ==> #[trigger] args[i] != flag,
    decreases args.len(),
{
    if args.len() > 0 && args[0] != flag {
        let t = args.drop_first();
        lemma_arg_position(t, flag);
        assert forall|i: int| 0 <= i < args.len() && (arg_position(args, flag) < 0 || i < arg_position(args, flag))
            implies #[trigger] args[i] != flag by {
            if i > 0 {
                assert(args[i] == t[i - 1]);
            }
        }
    }
}

/// The mode selected by the command-line arguments (without the program
/// name). `from_install_dir` says whether this copy runs from the install
/// directory, which decides what happens when no flag is given.
pub open spec fn parse_args_spec(args: Seq<Seq<char>>, from_install_dir: bool) -> ModeView {
    let silent = args.contains("--silent"@);
    if args.contains("--finish-uninstall"@) {
        // --finish-uninstall <dir> <pid>
        let i = arg_position(args, "--finish-uninstall"@);
        if i + 2 < args.len() && u32_from_str(args[i + 2]) is Some {
            ModeView::FinishUninstall { dir: args[i + 1], pid: u32_from_str(args[i + 2]).unwrap() }
        } else {
            ModeView::Run
        }
    } else if args.contains("--install"@) {
        ModeView::Install { silent }
    } else if args.contains("--uninstall"@) {
        ModeView::Uninstall { silent }
    } else if args.contains("--portable"@) {
        ModeView::Run
    } else if from_install_dir {
        // No flags: behave like the app when installed, like a setup program
        // when launched from anywhere else (a downloads folder, a USB stick).
        ModeView::Run
    } else if silent {
        // `--silent` suppresses every dialog, the install offer included: a
        // silent setup program installs without asking.
        ModeView::Install { silent: true }
    } else {
        ModeView::Offer
    }
}

/// `--silent` suppresses every dialog: whatever else is given, it never leaves
/// the program offering to install.
pub proof fn law_silent_never_offers(args: Seq<Seq<char>>, from_install_dir: bool)
    requires
        args.contains("--silent"@),
    ensures
        !(parse_args_spec(args, from_install_dir) is Offer),
{
}

/// `--install` installs, silently exactly when `--silent` is given too,
/// unless the arguments are those of the uninstall helper.
pub proof fn law_install_flag(args: Seq<Seq<char>>, from_install_dir: bool)
    requires
        args.contains("--install"@),
        !args.contains("--finish-uninstall"@),
    ensures
        parse_args_spec(args, from_install_dir) == (ModeView::Install {
            silent: args.contains("--silent"@),
        }),
{
}

/// `--uninstall` uninstalls, silently exactly when `--silent` is given too,
/// wherever the program runs from, unless `--install` or the helper's
/// `--finish-uninstall` is also given.
pub proof fn law_uninstall_flag(args: Seq<Seq<char>>, from_install_dir: bool)
    requires
        args.contains("--uninstall"@),
        !args.contains("--install"@),
        !args.contains("--finish-uninstall"@),
    ensures
        parse_args_spec(args, from_install_dir) == (ModeView::Uninstall {
            silent: args.contains("--silent"@),
        }),
{
}

/// `--portable` runs the program from where it sits and never offers to
/// install, unless one of the other three flags is given.
pub proof fn law_portable_flag(args: Seq<Seq<char>>, from_install_dir: bool)
    requires
        args.contains("--portable"@),
        !args.contains("--install"@),
        !args.contains("--uninstall"@),
        !args.contains("--finish-uninstall"@),
    ensures
        parse_args_spec(args, from_install_dir) == ModeView::Run,
{
}

/// With none of the four flags, the installed copy runs, and any other copy
/// behaves like a setup program: it offers to install, or installs without
/// asking when `--silent` is given.
pub proof fn law_no_flags(args: Seq<Seq<char>>, from_install_dir: bool)
    requires
        !args.contains("--install"@),
        !args.contains("--uninstall"@),
        !args.contains("--portable"@),
        !args.contains("--finish-uninstall"@),
    ensures
        from_install_dir ==> parse_args_spec(args, from_install_dir) == ModeView::Run,
        !from_install_dir && args.contains("--silent"@) ==> parse_args_spec(args, from_install_dir)
            == (ModeView::Install { silent: true }),
        !from_install_dir && !args.contains("--silent"@) ==> parse_args_spec(args, from_install_dir)
            == ModeView::Offer,
{
}

/// The text of each argument.
pub open spec fn arg_texts(args: Seq<String>) -> Seq<Seq<char>> {
    args.map_values(|a: String| a@)
}

/// Index of the first argument equal to `flag`.
fn find_arg(args: &Vec<String>, flag: &str) -> (r: Option<usize>)
    ensures
        r is Some <==> arg_texts(args@).contains(flag@),
        r matches Some(i) ==> i < args@.len() && i as int == arg_position(arg_texts(args@), flag@),
{
    proof {
        lemma_arg_position(arg_texts(args@), flag@);
    }
    let mut i: usize = 0;
    while i < args.len()
        invariant
            i <= args@.len(),
            forall|k: int| 0 <= k < i ==> #[trigger] arg_texts(args@)[k] != flag@,
            -1 <= arg_position(arg_texts(args@), flag@) < args@.len(),
            arg_position(arg_texts(args@), flag@) >= 0 ==> arg_texts(args@)[arg_position(
                arg_texts(args@),
                flag@,
            )] == flag@,
            forall|k: int|
                0 <= k < args@.len() && (arg_position(arg_texts(args@), flag@) < 0 || k
                    < arg_position(arg_texts(args@), flag@)) ==> #[trigger] arg_texts(args@)[k]
                    != flag@,
        decreases args@.len() - i,
    {
        if str_equal(args[i].as_str(), flag) {
            assert(arg_texts(args@)[i as int] == flag@);
            return Some(i);
        }
        i = i + 1;
    }
    assert(!arg_texts(args@).contains(flag@));
    None
}

/// Work out what this invocation is supposed to do from its arguments
/// (without the program name).
pub fn parse_args(args: &Vec<String>, from_install_dir: bool) -> (mode: Mode)
    ensures
        mode@ == parse_args_spec(arg_texts(args@), from_install_dir),
{
    let silent = find_arg(args, "--silent").is_some();
    if let Some(i) = find_arg(args, "--finish-uninstall") {
        if args.len() - i > 2 {
            if let Some(pid) = parse_u32(args[i + 2].as_str()) {
                return Mode::FinishUninstall { dir: args[i + 1].clone(), pid };
            }
        }
        return Mode::Run;
    }
    if find_arg(args, "--install").is_some() {
        return Mode::Install { silent };
    }
    if find_arg(args, "--uninstall").is_some() {
        return Mode::Uninstall { silent };
    }
    if find_arg(args, "--portable").is_some() {
        return Mode::Run;
    }
    if from_install_dir {
        Mode::Run
    } else if silent {
        Mode::Install { silent: true }
    } else {
        Mode::Offer
    }
}

/// What std's `str::to_lowercase` returns for `s`.
pub uninterp spec fn lowercase(s: Seq<char>) -> Seq<char>;

/// std's `str::to_lowercase`: the Unicode lowercase mapping of each
/// character, which depends on the string alone.
#[verifier::external_body]
fn to_lowercase(s: &str) -> (r: String)
    ensures
        r@ == lowercase(s@),
{
    s.to_lowercase()
}

/// Whether the running executable `current` is the installed copy
/// `installed`. Windows paths are not case sensitive and the shell can hand
/// back a differently-cased path than the one we wrote, so the two are
/// compared in lower case.
pub fn running_from_install_dir(current: &str, installed: &str) -> (b: bool)
    ensures
        b == (lowercase(current@) == lowercase(installed@)),
{
    let a = to_lowercase(current);
    let b = to_lowercase(installed);
    str_equal(a.as_str(), b.as_str())
}

/// Whether a file name is one of the uninstall helpers that earlier runs left
/// in the temporary directory.
pub fn is_uninstall_helper(name: &str) -> (b: bool)
    ensures
        b == (has_prefix(name@, "okkhor-uninstall-"@) && has_suffix(name@, ".exe"@)),
{
    starts_with(name, "okkhor-uninstall-") && ends_with(name, ".exe")
}

/// The command Apps & Features runs to remove the program.
pub fn uninstall_command(exe: &str, silent: bool) -> (c: String)
    ensures
        c@ == seq!['"'] + exe@ + if silent {
            "\" --uninstall --silent"@
        } else {
            "\" --uninstall"@
        },
{
    let mut c = String::from_str("\"");
    c.append(exe);
    if silent {
        c.append("\" --uninstall --silent");
    } else {
        c.append("\" --uninstall");
    }
    proof {
        reveal_strlit("\"");
    }
    c
}

// ---------------------------------------------------------------------------
// The uninstall helper
// ---------------------------------------------------------------------------

/// The character of the decimal digit `d`.
pub open spec fn decimal_digit(d: int) -> char {
    ((d + 48) as u8) as char
}

/// The decimal rendering of `n`, as `u32::to_string` writes it: no sign, no
/// leading zeros.
pub open spec fn decimal_spec(n: nat) -> Seq<char>
    decreases n,
{
    if n < 10 {
        seq![decimal_digit(n as int)]
    } else {
        decimal_spec(n / 10).push(decimal_digit((n % 10) as int))
    }
}

proof fn lemma_decimal(n: nat)
    ensures
        decimal_spec(n).len() > 0,
        forall|i: int| 0 <= i < decimal_spec(n).len() ==> is_digit(#[trigger] decimal_spec(n)[i]),
        digits_value(decimal_spec(n)) == n,
    decreases n,
{
    if n < 10 {
        let s = decimal_spec(n);
        assert(s.drop_last() =~= Seq::<char>::empty());
        assert(s.last() as int == n + 48);
        assert(digits_value(s.drop_last()) == 0);
        assert(digits_value(s) == digits_value(s.drop_last()) * 10 + (s.last() as int - '0' as int));
    } else {
        lemma_decimal(n / 10);
        let s = decimal_spec(n);
        assert(s.drop_last() =~= decimal_spec(n / 10));
        assert(s.last() as int == n % 10 + 48);
        assert(digits_value(s) == digits_value(s.drop_last()) * 10 + (s.last() as int - '0' as int));
        assert((n / 10) * 10 + n % 10 == n);
        assert forall|i: int| 0 <= i < s.len() implies is_digit(#[trigger] s[i]) by {
            if i < s.len() - 1 {
                assert(s[i] == decimal_spec(n / 10)[i]);
            }
        }
    }
}

/// Parsing the decimal rendering of a `u32` gives the number back.
pub proof fn law_decimal_parses_back(n: u32)
    ensures
        u32_from_str(decimal_spec(n as nat)) == Some(n),
{
    lemma_decimal(n as nat);
    let s = decimal_spec(n as nat);
    assert(s[0] != '+') by {
        assert(is_digit(s[0]));
    }
}

/// `n` written in decimal, as `u32::to_string` does.
pub fn decimal(n: u32) -> (s: String)
    ensures
        s@ == decimal_spec(n as nat),
    decreases n,
{
    let mut s = if n >= 10 {
        decimal(n / 10)
    } else {
        String::new()
    };
    let d: u32 = n % 10;
    let c = ((d + 48) as u8) as char;
    string_push(&mut s, c);
    proof {
        if n < 10 {
            assert(s@ =~= seq![decimal_digit(n as int)]);
        }
    }
    s
}

/// The arguments the uninstall helper is started with: it is to delete `dir`
/// once the process `pid` has exited.
pub open spec fn finisher_args_spec(dir: Seq<char>, pid: u32) -> Seq<Seq<char>> {
    seq!["--finish-uninstall"@, dir, decimal_spec(pid as nat)]
}

/// The arguments the uninstall helper is started with.
pub fn finisher_args(dir: &str, pid: u32) -> (args: Vec<String>)
    ensures
        arg_texts(args@) == finisher_args_spec(dir@, pid),
{
    let mut args: Vec<String> = Vec::new();
    args.push(String::from_str("--finish-uninstall"));
    args.push(String::from_str(dir));
    args.push(decimal(pid));
    assert(arg_texts(args@) =~= finisher_args_spec(dir@, pid));
    args
}

/// The helper reads back exactly what the uninstaller handed it: the
/// arguments it is started with parse to "finish the uninstall of `dir` once
/// `pid` has exited", wherever it runs from.
pub proof fn law_finisher_arguments_round_trip(dir: Seq<char>, pid: u32, from_install_dir: bool)
    ensures
        parse_args_spec(finisher_args_spec(dir, pid), from_install_dir) == (ModeView::FinishUninstall {
            dir,
            pid,
        }),
{
    let args = finisher_args_spec(dir, pid);
    assert(args[0] == "--finish-uninstall"@);
    assert(args.contains("--finish-uninstall"@));
    assert(arg_position(args, "--finish-uninstall"@) == 0);
    assert(args[2] == decimal_spec(pid as nat));
    law_decimal_parses_back(pid);
}

/// The file name of the uninstall helper copied out by process `pid`.
pub open spec fn helper_name_spec(pid: u32) -> Seq<char> {
    "okkhor-uninstall-"@ + decimal_spec(pid as nat) + ".exe"@
}

/// The file name of the uninstall helper copied out by process `pid`.
pub fn helper_name(pid: u32) -> (name: String)
    ensures
        name@ == helper_name_spec(pid),
{
    let mut name = String::from_str("okkhor-uninstall-");
    let digits = decimal(pid);
    name.append(digits.as_str());
    name.append(".exe");
    name
}

/// Every helper an uninstall copies out is one that a later install or
/// uninstall sweeps away.
pub proof fn law_helpers_are_swept(pid: u32)
    ensures
        has_prefix(helper_name_spec(pid), "okkhor-uninstall-"@),
        has_suffix(helper_name_spec(pid), ".exe"@),
{
    let n = helper_name_spec(pid);
    let p = "okkhor-uninstall-"@;
    let x = ".exe"@;
    assert(n.take(p.len() as int) =~= p);
    assert(n.skip(n.len() - x.len()) =~= x);
}

/// How long the helper waits for the uninstaller to exit, in milliseconds.
pub const FINISH_WAIT_MS: u32 = 10_000;
/// How many times the helper tries to delete the install directory.
pub const FINISH_ATTEMPTS: u32 = 25;
/// The pause before each attempt, in milliseconds. The uninstaller's image
/// needs a moment to unmap even after its process has exited.
pub const FINISH_RETRY_MS: u32 = 200;

/// What the helper does after an attempt to delete the install directory.
#[derive(Debug, PartialEq, Eq, Clone, Copy)]
pub enum FinishStep {
    /// Pause and try again.
    Retry,
    /// Stop with this exit code: 0 once the directory is gone, 1 on giving
    /// up.
    Exit(i32),
}

/// What the helper does after its `attempts`-th attempt.
pub open spec fn finish_step_spec(attempts: u32, gone: bool) -> FinishStep {
    if gone {
        FinishStep::Exit(0)
    } else if attempts >= FINISH_ATTEMPTS {
        FinishStep::Exit(1)
    } else {
        FinishStep::Retry
    }
}

/// The helper stops with success as soon as the directory is gone, tries
/// again after each of its first 24 failures, and gives up with exit code 1
/// after the 25th.
pub proof fn law_helper_tries_twenty_five_times(attempts: u32, gone: bool)
    requires
        attempts >= 1,
    ensures
        gone ==> finish_step_spec(attempts, gone) == FinishStep::Exit(0),
        !gone && attempts < 25 ==> finish_step_spec(attempts, gone) == FinishStep::Retry,
        !gone && attempts >= 25 ==> finish_step_spec(attempts, gone) == FinishStep::Exit(1),
{
}

/// What the helper does after its `attempts`-th attempt, which did or did not
/// leave the directory gone.
pub fn finish_step(attempts: u32, gone: bool) -> (step: FinishStep)
    ensures
        step == finish_step_spec(attempts, gone),
        step == (if gone {
            FinishStep::Exit(0)
        } else if attempts >= FINISH_ATTEMPTS {
            FinishStep::Exit(1)
        } else {
            FinishStep::Retry
        }),
{
    if gone {
        FinishStep::Exit(0)
    } else if attempts >= FINISH_ATTEMPTS {
        FinishStep::Exit(1)
    } else {
        FinishStep::Retry
    }
}

/// What the install offer leads to.
pub open spec fn offer_answer_spec(silent: bool, said_yes: bool) -> ModeView {
    if silent {
        ModeView::Install { silent: true }
    } else if said_yes {
        ModeView::Install { silent: false }
    } else {
        ModeView::Run
    }
}

/// A silent offer installs, silently, whatever the (unasked) answer; Yes
/// installs with dialogs; No runs the program from where it sits.
pub proof fn law_offer_answers(said_yes: bool)
    ensures
        offer_answer_spec(true, said_yes) == (ModeView::Install { silent: true }),
        offer_answer_spec(false, true) == (ModeView::Install { silent: false }),
        offer_answer_spec(false, false) == ModeView::Run,
{
}

/// What the install offer leads to: a silent run installs without asking (no
/// dialog is shown), Yes installs, and No runs from where the program sits.
pub fn offer_answer(silent: bool, said_yes: bool) -> (mode: Mode)
    ensures
        mode@ == offer_answer_spec(silent, said_yes),
        mode@ == (if silent {
            ModeView::Install { silent: true }
        } else if said_yes {
            ModeView::Install { silent: false }
        } else {
            ModeView::Run
        }),
{
    if silent {
        Mode::Install { silent: true }
    } else if said_yes {
        Mode::Install { silent: false }
    } else {
        Mode::Run
    }
}

// ---------------------------------------------------------------------------
// The icon file
// ---------------------------------------------------------------------------

/// The `n` low bytes of the non-negative `v`, least significant first.
pub open spec fn le_bytes(v: int, n: nat) -> Seq<u8>
    decreases n,
{
    if n == 0 {
        seq![]
    } else {
        seq![(v % 256) as u8] + le_bytes(v / 256, (n - 1) as nat)
    }
}

fn push_le16(out: &mut Vec<u8>, v: u16)
    ensures
        final(out)@ == old(out)@ + le_bytes(v as int, 2),
{
    out.push((v % 256) as u8);
    out.push((v / 256) as u8);
    proof {
        reveal_with_fuel(le_bytes, 3);
        assert(final(out)@ =~= old(out)@ + le_bytes(v as int, 2));
    }
}

fn push_le32(out: &mut Vec<u8>, v: u32)
    ensures
        final(out)@ == old(out)@ + le_bytes(v as int, 4),
{
    out.push((v % 256) as u8);
    out.push((v / 256 % 256) as u8);
    out.push((v / 65536 % 256) as u8);
    out.push((v / 16777216) as u8);
    proof {
        reveal_with_fuel(le_bytes, 5);
        assert(v / 256 / 256 == v / 65536) by (nonlinear_arith);
        assert(v / 65536 / 256 == v / 16777216) by (nonlinear_arith);
        assert(final(out)@ =~= old(out)@ + le_bytes(v as int, 4));
    }
}

/// A BITMAPINFOHEADER for one square 32-bit image of an icon. The height
/// covers the colour rows *and* the mask rows, hence double.
pub open spec fn bitmap_header(size: int) -> Seq<u8> {
    le_bytes(40, 4) + le_bytes(size, 4) + le_bytes(2 * size, 4) + le_bytes(1, 2) + le_bytes(32, 2)
        + le_bytes(0, 24)
}

/// Bytes per row of an icon's AND mask: one bit per pixel, rows padded to
/// 32 bits.
pub open spec fn mask_stride(size: int) -> int {
    (size + 31) / 32 * 4
}

/// The rows of a top-down image of `size` × `size` 4-byte pixels from row
/// `size - 1` down to row `lo`.
pub open spec fn rows_bottom_up(pixels: Seq<u8>, size: int, lo: int) -> Seq<u8>
    decreases size - lo,
{
    if lo >= size {
        seq![]
    } else {
        rows_bottom_up(pixels, size, lo + 1) + pixels.subrange(lo * size * 4, lo * size * 4 + size * 4)
    }
}

/// One image inside an `.ico`: the header, the colour rows bottom-up, then an
/// all-zero AND mask.
pub open spec fn ico_image_spec(size: int, pixels: Seq<u8>) -> Seq<u8> {
    bitmap_header(size) + rows_bottom_up(pixels, size, 0) + Seq::new(
        (mask_stride(size) * size) as nat,
        |i: int| 0u8,
    )
}

proof fn lemma_le_bytes_len(v: int, n: nat)
    ensures
        le_bytes(v, n).len() == n,
    decreases n,
{
    if n > 0 {
        lemma_le_bytes_len(v / 256, (n - 1) as nat);
    }
}

/// Row `r` of the bottom-up run (counting from its start) is row
/// `size - 1 - r` of the top-down image.
proof fn lemma_rows_bottom_up(pixels: Seq<u8>, size: int, lo: int)
    requires
        0 <= lo <= size,
        pixels.len() >= size * size * 4,
    ensures
        rows_bottom_up(pixels, size, lo).len() == (size - lo) * (size * 4),
        forall|r: int, j: int|
            0 <= r < size - lo && 0 <= j < size * 4 ==> #[trigger] rows_bottom_up(
                pixels,
                size,
                lo,
            )[r * (size * 4) + j] == pixels[(size - 1 - r) * (size * 4) + j],
    decreases size - lo,
{
    if lo < size {
        lemma_rows_bottom_up(pixels, size, lo + 1);
        let w = size * 4;
        let rest = rows_bottom_up(pixels, size, lo + 1);
        assert(lo * size * 4 == lo * w) by (nonlinear_arith)
            requires
                w == size * 4,
        ;
        assert(lo * w + w <= size * w) by (nonlinear_arith)
            requires
                lo < size,
                w >= 0,
        ;
        assert(size * w == size * size * 4) by (nonlinear_arith)
            requires
                w == size * 4,
        ;
        let row = pixels.subrange(lo * w, lo * w + w);
        assert((size - lo) * w == (size - lo - 1) * w + w) by (nonlinear_arith);
        assert forall|r: int, j: int| 0 <= r < size - lo && 0 <= j < w implies #[trigger] rows_bottom_up(
            pixels,
            size,
            lo,
        )[r * w + j] == pixels[(size - 1 - r) * w + j] by {
            assert(rows_bottom_up(pixels, size, lo) == rest + row);
            if r < size - lo - 1 {
                assert(r * w + j < (size - lo - 1) * w) by (nonlinear_arith)
                    requires
                        r < size - lo - 1,
                        0 <= j < w,
                ;
            } else {
                assert(r == size - lo - 1);
                assert(r * w + j - (size - lo - 1) * w == j);
                assert((size - 1 - r) * w + j == lo * w + j);
            }
        }
    }
}

/// An icon image holds the top-down pixel rows in reverse order right after
/// its 40-byte header: row `r` of the file is row `size - 1 - r` of the
/// picture.
pub proof fn law_ico_rows_are_flipped(size: int, pixels: Seq<u8>, r: int, j: int)
    requires
        0 <= r < size,
        0 <= j < size * 4,
        pixels.len() == size * size * 4,
    ensures
        ico_image_spec(size, pixels)[40 + r * (size * 4) + j] == pixels[(size - 1 - r) * (size
            * 4) + j],
{
    lemma_rows_bottom_up(pixels, size, 0);
    lemma_le_bytes_len(40, 4);
    lemma_le_bytes_len(size, 4);
    lemma_le_bytes_len(2 * size, 4);
    lemma_le_bytes_len(1, 2);
    lemma_le_bytes_len(32, 2);
    lemma_le_bytes_len(0, 24);
    let h = bitmap_header(size);
    let rows = rows_bottom_up(pixels, size, 0);
    assert(h.len() == 40);
    assert(r * (size * 4) + j < size * (size * 4)) by (nonlinear_arith)
        requires
            0 <= r < size,
            0 <= j < size * 4,
    ;
    assert(rows[r * (size * 4) + j] == pixels[(size - 1 - r) * (size * 4) + j]);
}

/// The AND mask of an icon image has one bit per pixel, each row padded to a
/// whole number of 32-bit words: the fewest bytes that are a multiple of four
/// and hold a bit for every pixel of the row.
pub proof fn law_mask_rows_are_padded_to_words(size: int)
    requires
        size >= 0,
    ensures
        mask_stride(size) % 4 == 0,
        mask_stride(size) * 8 >= size,
        (mask_stride(size) - 4) * 8 < size,
{
}

/// An icon image is a 40-byte header, then `size * size` 4-byte pixels, then
/// the AND mask (`mask_stride(size)` bytes for each of `size` rows, all zero:
/// the alpha channel decides transparency).
pub proof fn law_ico_image_length(size: int, pixels: Seq<u8>)
    requires
        size >= 0,
        pixels.len() == size * size * 4,
    ensures
        ico_image_spec(size, pixels).len() == 40 + 4 * size * size + mask_stride(size) * size,
        forall|i: int|
            40 + 4 * size * size <= i < ico_image_spec(size, pixels).len() ==> #[trigger] ico_image_spec(
                size,
                pixels,
            )[i] == 0,
{
    lemma_rows_bottom_up(pixels, size, 0);
    lemma_le_bytes_len(40, 4);
    lemma_le_bytes_len(size, 4);
    lemma_le_bytes_len(2 * size, 4);
    lemma_le_bytes_len(1, 2);
    lemma_le_bytes_len(32, 2);
    lemma_le_bytes_len(0, 24);
    assert(size * (size * 4) == 4 * size * size) by (nonlinear_arith);
    assert(mask_stride(size) >= 0);
    assert(mask_stride(size) * size >= 0) by (nonlinear_arith)
        requires
            mask_stride(size) >= 0,
            size >= 0,
    ;
}

/// Largest icon edge the encoder accepts: `2 * size` has to fit the header's
/// signed height.
pub open spec fn ico_size_ok(size: int) -> bool {
    0 <= size <= 0x3FFF_FFFF
}

/// One image inside an `.ico`: a BITMAPINFOHEADER, the colour rows
/// bottom-up, then the AND mask. Icon bitmaps are stored bottom-up; the
/// renderer produces top-down rows of BGRA pixels.
#[verifier::spinoff_prover]
#[verifier::rlimit(40)]
pub fn ico_image(size: i32, top_down_bgra: &[u8]) -> (data: Vec<u8>)
    requires
        ico_size_ok(size as int),
        size * size * 4 <= top_down_bgra@.len(),
        40 + size * size * 4 + mask_stride(size as int) * size <= usize::MAX,
    ensures
        data@ == ico_image_spec(size as int, top_down_bgra@),
{
    let n = size as usize;
    let pixel_bytes = n * n * 4;
    let mask_stride = (n + 31) / 32 * 4;
    let mut data: Vec<u8> = Vec::with_capacity(40 + pixel_bytes + mask_stride * n);

    push_le32(&mut data, 40);
    push_le32(&mut data, n as u32);
    push_le32(&mut data, (n * 2) as u32);
    push_le16(&mut data, 1);
    push_le16(&mut data, 32);
    push_le32(&mut data, 0);
    push_le32(&mut data, 0);
    push_le32(&mut data, 0);
    push_le32(&mut data, 0);
    push_le32(&mut data, 0);
    push_le32(&mut data, 0);
    proof {
        reveal_with_fuel(le_bytes, 5);
        assert(le_bytes(0, 24) =~= le_bytes(0, 4) + le_bytes(0, 4) + le_bytes(0, 4) + le_bytes(0, 4)
            + le_bytes(0, 4) + le_bytes(0, 4)) by {
            lemma_le_bytes_zero(24);
            lemma_le_bytes_zero(4);
        }
        assert(data@ =~= bitmap_header(n as int));
    }
    let ghost header = data@;
    let width = n * 4;
    let plen = top_down_bgra.len();
    let mut done: usize = 0;
    while done < n
        invariant
            plen == top_down_bgra@.len(),
            n == size as int,
            width == n * 4,
            n * n * 4 <= top_down_bgra@.len(),
            done <= n,
            data@ == header + rows_bottom_up(top_down_bgra@, n as int, (n - done) as int),
        decreases n - done,
    {
        let row = n - 1 - done;
        assert(row * width + width <= n * n * 4) by (nonlinear_arith)
            requires
                row < n,
                width == n * 4,
        ;
        let start = row * width;
        let mut j: usize = 0;
        let ghost before = data@;
        while j < width
            invariant
                plen == top_down_bgra@.len(),
                width == n * 4,
                start + width <= top_down_bgra@.len(),
                j <= width,
                data@ == before + top_down_bgra@.subrange(start as int, start + j),
            decreases width - j,
        {
            data.push(top_down_bgra[start + j]);
            j = j + 1;
            assert(data@ =~= before + top_down_bgra@.subrange(start as int, start + j));
        }
        done = done + 1;
        assert(start == row * n * 4) by (nonlinear_arith)
            requires
                start == row * width,
                width == n * 4,
        ;
    }
    let ghost colour = data@;
    let mut k: usize = 0;
    let mask_len = mask_stride * n;
    while k < mask_len
        invariant
            k <= mask_len,
            data@ == colour + Seq::new(k as nat, |i: int| 0u8),
        decreases mask_len - k,
    {
        data.push(0);
        k = k + 1;
        assert(data@ =~= colour + Seq::new(k as nat, |i: int| 0u8));
    }
    data
}

/// The images of an icon file: each edge length with its encoded image.
pub open spec fn ico_images(images: Seq<(i32, Vec<u8>)>) -> Seq<(i32, Seq<u8>)> {
    images.map_values(|p: (i32, Vec<u8>)| (p.0, p.1@))
}

/// Bytes of all the images together.
pub open spec fn total_len(images: Seq<(i32, Seq<u8>)>) -> int
    decreases images.len(),
{
    if images.len() == 0 {
        0
    } else {
        total_len(images.drop_last()) + images.last().1.len()
    }
}

/// A directory entry: edge lengths (as one byte each), no palette, one plane,
/// 32 bits per pixel, then the image's size and offset in the file.
pub open spec fn ico_entry(size: i32, len: int, offset: int) -> Seq<u8> {
    seq![size as u8, size as u8, 0u8, 0u8] + le_bytes(1, 2) + le_bytes(32, 2) + le_bytes(len, 4)
        + le_bytes(offset, 4)
}

/// The directory entries, for images laid out one after another from
/// `base`.
pub open spec fn ico_entries(images: Seq<(i32, Seq<u8>)>, base: int) -> Seq<u8>
    decreases images.len(),
{
    if images.len() == 0 {
        seq![]
    } else {
        ico_entries(images.drop_last(), base) + ico_entry(
            images.last().0,
            images.last().1.len() as int,
            base + total_len(images.drop_last()),
        )
    }
}

/// The images' bytes, one after another.
pub open spec fn ico_data(images: Seq<(i32, Seq<u8>)>) -> Seq<u8>
    decreases images.len(),
{
    if images.len() == 0 {
        seq![]
    } else {
        ico_data(images.drop_last()) + images.last().1
    }
}

/// An `.ico` file: the header (reserved, type 1 for icon, image count), the
/// directory entries, then the images. The directory comes first, so the
/// offsets account for all of it before any pixels.
pub open spec fn ico_file_spec(images: Seq<(i32, Seq<u8>)>) -> Seq<u8> {
    le_bytes(0, 2) + le_bytes(1, 2) + le_bytes((images.len() as u16) as int, 2) + ico_entries(
        images,
        6 + 16 * images.len() as int,
    ) + ico_data(images)
}

proof fn lemma_total_len_take(images: Seq<(i32, Seq<u8>)>, i: int)
    requires
        0 <= i < images.len(),
    ensures
        total_len(images.take(i + 1)) == total_len(images.take(i)) + images[i].1.len(),
        ico_data(images.take(i + 1)) == ico_data(images.take(i)) + images[i].1,
        ico_data(images.take(i)).len() == total_len(images.take(i)),
{
    assert(images.take(i + 1).drop_last() =~= images.take(i));
    lemma_ico_data_len(images.take(i));
}

proof fn lemma_ico_data_len(images: Seq<(i32, Seq<u8>)>)
    ensures
        ico_data(images).len() == total_len(images),
        total_len(images) >= 0,
    decreases images.len(),
{
    if images.len() > 0 {
        lemma_ico_data_len(images.drop_last());
    }
}

proof fn lemma_total_len_monotone(images: Seq<(i32, Seq<u8>)>, i: int)
    requires
        0 <= i <= images.len(),
    ensures
        total_len(images.take(i)) <= total_len(images),
    decreases images.len() - i,
{
    if i < images.len() {
        lemma_total_len_take(images, i);
        lemma_total_len_monotone(images, i + 1);
    } else {
        assert(images.take(i) =~= images);
    }
}

/// Where image `k` starts, counted from the start of the image data.
pub open spec fn data_offset(images: Seq<(i32, Seq<u8>)>, k: int) -> int {
    total_len(images.take(k))
}

proof fn lemma_ico_entries(images: Seq<(i32, Seq<u8>)>, base: int)
    ensures
        ico_entries(images, base).len() == 16 * images.len(),
        forall|k: int|
            0 <= k < images.len() ==> #[trigger] ico_entries(images, base).subrange(16 * k, 16 * k + 16)
                == ico_entry(images[k].0, images[k].1.len() as int, base + data_offset(images, k)),
    decreases images.len(),
{
    if images.len() > 0 {
        let rest = images.drop_last();
        lemma_ico_entries(rest, base);
        let n = images.len() - 1;
        let last = ico_entry(images.last().0, images.last().1.len() as int, base + total_len(rest));
        lemma_le_bytes_len(1, 2);
        lemma_le_bytes_len(32, 2);
        lemma_le_bytes_len(images.last().1.len() as int, 4);
        lemma_le_bytes_len(base + total_len(rest), 4);
        assert(last.len() == 16);
        let all = ico_entries(images, base);
        assert(all == ico_entries(rest, base) + last);
        assert forall|k: int| 0 <= k < images.len() implies #[trigger] all.subrange(16 * k, 16 * k + 16)
            == ico_entry(images[k].0, images[k].1.len() as int, base + data_offset(images, k)) by {
            if k < n {
                assert(rest[k] == images[k]);
                assert(rest.take(k) =~= images.take(k));
                assert(all.subrange(16 * k, 16 * k + 16) =~= ico_entries(rest, base).subrange(16 * k, 16 * k + 16));
            } else {
                assert(images.take(k) =~= rest);
                assert(all.subrange(16 * k, 16 * k + 16) =~= last);
            }
        }
    }
}

proof fn lemma_data_offset_bound(images: Seq<(i32, Seq<u8>)>, k: int)
    requires
        0 <= k < images.len(),
    ensures
        0 <= data_offset(images, k),
        data_offset(images, k) + images[k].1.len() <= total_len(images),
        total_len(images) == ico_data(images).len(),
{
    lemma_ico_data_len(images.take(k));
    lemma_ico_data_len(images);
    lemma_total_len_take(images, k);
    lemma_total_len_monotone(images, k + 1);
}

proof fn lemma_ico_data_placement(images: Seq<(i32, Seq<u8>)>)
    ensures
        forall|k: int|
            0 <= k < images.len() ==> #[trigger] ico_data(images).subrange(
                data_offset(images, k),
                data_offset(images, k) + images[k].1.len(),
            ) == images[k].1,
    decreases images.len(),
{
    lemma_ico_data_len(images);
    if images.len() > 0 {
        let rest = images.drop_last();
        lemma_ico_data_placement(rest);
        lemma_ico_data_len(rest);
        let n = images.len() - 1;
        assert forall|k: int| 0 <= k < images.len() implies #[trigger] ico_data(images).subrange(
            data_offset(images, k),
            data_offset(images, k) + images[k].1.len(),
        ) == images[k].1 by {
            lemma_data_offset_bound(images, k);
            if k < n {
                lemma_data_offset_bound(rest, k);
                assert(rest[k] == images[k]);
                assert(rest.take(k) =~= images.take(k));
                assert(data_offset(rest, k) == data_offset(images, k));
                assert(ico_data(rest).subrange(data_offset(rest, k), data_offset(rest, k)
                    + rest[k].1.len()) == rest[k].1);
                assert(data_offset(rest, k) + rest[k].1.len() <= ico_data(rest).len());
                assert(ico_data(images) == ico_data(rest) + images.last().1);
                assert(ico_data(images).subrange(data_offset(images, k), data_offset(images, k)
                    + images[k].1.len()) =~= ico_data(rest).subrange(data_offset(images, k),
                    data_offset(images, k) + images[k].1.len()));
            } else {
                assert(images.take(k) =~= rest);
                assert(ico_data(images) == ico_data(rest) + images.last().1);
                assert(ico_data(images).subrange(data_offset(images, k), data_offset(images, k)
                    + images[k].1.len()) =~= images[k].1);
            }
        }
    }
}

/// An `.ico` file is a 6-byte header (reserved 0, type 1 for icon, the image
/// count), one 16-byte directory entry per image, then the images. Entry `k`
/// gives image `k`'s edge length (one byte each for width and height), no
/// palette, one plane, 32 bits per pixel, its byte count, and the offset at
/// which the file holds exactly that image's bytes.
pub proof fn law_ico_directory_points_at_the_images(images: Seq<(i32, Seq<u8>)>, k: int)
    requires
        images.len() <= 0xFFFF,
        0 <= k < images.len(),
    ensures
        ({
            let f = ico_file_spec(images);
            let n = images.len() as int;
            let e = 6 + 16 * k;
            let off = 6 + 16 * n + data_offset(images, k);
            let len = images[k].1.len() as int;
            &&& f.subrange(0, 2) == le_bytes(0, 2)
            &&& f.subrange(2, 4) == le_bytes(1, 2)
            &&& f.subrange(4, 6) == le_bytes(n, 2)
            &&& f[e] == images[k].0 as u8
            &&& f[e + 1] == images[k].0 as u8
            &&& f[e + 2] == 0
            &&& f[e + 3] == 0
            &&& f.subrange(e + 4, e + 6) == le_bytes(1, 2)
            &&& f.subrange(e + 6, e + 8) == le_bytes(32, 2)
            &&& f.subrange(e + 8, e + 12) == le_bytes(len, 4)
            &&& f.subrange(e + 12, e + 16) == le_bytes(off, 4)
            &&& off + len <= f.len()
            &&& f.subrange(off, off + len) == images[k].1
        }),
{
    let n = images.len() as int;
    let base = 6 + 16 * n;
    lemma_ico_entries(images, base);
    lemma_ico_data_placement(images);
    lemma_ico_data_len(images);
    lemma_le_bytes_len(0, 2);
    lemma_le_bytes_len(1, 2);
    lemma_le_bytes_len(32, 2);
    lemma_le_bytes_len(n, 2);
    let h = le_bytes(0, 2) + le_bytes(1, 2) + le_bytes((images.len() as u16) as int, 2);
    assert((images.len() as u16) as int == n);
    let ents = ico_entries(images, base);
    let data = ico_data(images);
    let f = ico_file_spec(images);
    assert(f == h + ents + data);
    let e = 6 + 16 * k;
    let off = base + data_offset(images, k);
    let len = images[k].1.len() as int;
    lemma_le_bytes_len(len, 4);
    lemma_le_bytes_len(off, 4);
    let entry = ico_entry(images[k].0, len, off);
    assert(ents.subrange(16 * k, 16 * k + 16) == entry);
    assert(f.subrange(e, e + 16) =~= entry);
    assert(f.subrange(0, 2) =~= le_bytes(0, 2));
    assert(f.subrange(2, 4) =~= le_bytes(1, 2));
    assert(f.subrange(4, 6) =~= le_bytes(n, 2));
    assert(f[e] == entry[0]);
    assert(f[e + 1] == entry[1]);
    assert(f[e + 2] == entry[2]);
    assert(f[e + 3] == entry[3]);
    assert(f.subrange(e + 4, e + 6) =~= entry.subrange(4, 6));
    assert(entry.subrange(4, 6) =~= le_bytes(1, 2));
    assert(f.subrange(e + 6, e + 8) =~= entry.subrange(6, 8));
    assert(entry.subrange(6, 8) =~= le_bytes(32, 2));
    assert(f.subrange(e + 8, e + 12) =~= entry.subrange(8, 12));
    assert(entry.subrange(8, 12) =~= le_bytes(len, 4));
    assert(f.subrange(e + 12, e + 16) =~= entry.subrange(12, 16));
    assert(entry.subrange(12, 16) =~= le_bytes(off, 4));
    lemma_data_offset_bound(images, k);
    assert(data_offset(images, k) + len <= data.len());
    assert(data.subrange(data_offset(images, k), data_offset(images, k) + len) == images[k].1);
    assert(f.subrange(off, off + len) =~= data.subrange(data_offset(images, k), data_offset(
        images,
        k,
    ) + len));
}

/// Assemble an `.ico` file from its images, each given with its edge length.
pub fn ico_file(images: &Vec<(i32, Vec<u8>)>) -> (out: Vec<u8>)
    requires
        6 + 16 * images@.len() + total_len(ico_images(images@)) <= u32::MAX,
    ensures
        out@ == ico_file_spec(ico_images(images@)),
{
    let ghost imgs = ico_images(images@);
    let count = images.len();
    let mut out: Vec<u8> = Vec::new();
    push_le16(&mut out, 0);
    push_le16(&mut out, 1);
    push_le16(&mut out, #[verifier::truncate] (count as u16));
    proof {
        lemma_ico_data_len(imgs);
    }
    let base: u32 = 6 + 16 * (count as u32);
    let ghost header = out@;
    let mut offset: u32 = base;
    let mut i: usize = 0;
    while i < count
        invariant
            count == images@.len(),
            imgs == ico_images(images@),
            base == 6 + 16 * count,
            base + total_len(imgs) <= u32::MAX,
            i <= count,
            offset == base + total_len(imgs.take(i as int)),
            out@ == header + ico_entries(imgs.take(i as int), base as int),
        decreases count - i,
    {
        let size = images[i].0;
        let len = images[i].1.len();
        proof {
            lemma_total_len_take(imgs, i as int);
            lemma_total_len_monotone(imgs, i + 1);
            assert(imgs[i as int].1.len() == len);
            assert(imgs.take(i + 1).drop_last() =~= imgs.take(i as int));
            assert(imgs.take(i + 1).last() == imgs[i as int]);
        }
        let edge = #[verifier::truncate] (size as u8);
        out.push(edge);
        out.push(edge);
        out.push(0);
        out.push(0);
        push_le16(&mut out, 1);
        push_le16(&mut out, 32);
        push_le32(&mut out, len as u32);
        push_le32(&mut out, offset);
        offset = offset + len as u32;
        i = i + 1;
        assert(out@ =~= header + ico_entries(imgs.take(i as int), base as int));
    }
    assert(imgs.take(count as int) =~= imgs);
    let ghost entries = out@;
    let mut j: usize = 0;
    while j < count
        invariant
            count == images@.len(),
            imgs == ico_images(images@),
            j <= count,
            out@ == entries + ico_data(imgs.take(j as int)),
        decreases count - j,
    {
        let data = &images[j].1;
        let ghost before = out@;
        let mut k: usize = 0;
        while k < data.len()
            invariant
                k <= data@.len(),
                out@ == before + data@.take(k as int),
            decreases data@.len() - k,
        {
            out.push(data[k]);
            k = k + 1;
            assert(out@ =~= before + data@.take(k as int));
        }
        proof {
            lemma_total_len_take(imgs, j as int);
            assert(imgs[j as int].1 == data@);
            assert(data@.take(k as int) =~= data@);
        }
        j = j + 1;
        assert(out@ =~= entries + ico_data(imgs.take(j as int)));
    }
    assert(imgs.take(count as int) =~= imgs);
    out
}

proof fn lemma_le_bytes_zero(n: nat)
    ensures
        le_bytes(0, n) == Seq::new(n, |i: int| 0u8),
    decreases n,
{
    if n > 0 {
        lemma_le_bytes_zero((n - 1) as nat);
        assert(le_bytes(0, n) =~= Seq::new(n, |i: int| 0u8));
    }
}

} // verus!
