//! Security checks on the command of a source target: allowed binaries,
//! dangerous flags, inline code, and the file the command runs.

use vstd::prelude::*;
use crate::text::{
    byte_len, byte_len_upto, fits, lemma_byte_len_take_mono, lemma_fits_unique,
    truncated, chars_of, contains_seq, find_from, split_char, split_char_ranges, starts_with, str_eq,
    string_of_range, matches_at,
};

verus! {

/// Flags that can run inline code or open a debugging port.
pub open spec fn dangerous_flags() -> Seq<Seq<char>> {
    seq![
        "-c"@, "-e"@, "--eval"@, "-exec"@, "--inspect"@, "--inspect-brk"@, "--inspect-wait"@,
        "--debug"@, "--debug-brk"@, "--remote-debugging-port"@, "-r"@, "-S"@, "-m"@,
    ]
}

/// Dangerous flags that development mode allows.
pub open spec fn dev_only_flags() -> Seq<Seq<char>> {
    seq!["--inspect"@, "--inspect-brk"@, "--inspect-wait"@, "--debug"@, "--debug-brk"@, "-m"@]
}

fn dangerous_flags_vec() -> (r: Vec<&'static str>)
    ensures
        r@.len() == dangerous_flags().len(),
        forall|i: int| 0 <= i < r@.len() ==> #[trigger] r@[i]@ == dangerous_flags()[i],
{
    let r = vec![
        "-c", "-e", "--eval", "-exec", "--inspect", "--inspect-brk", "--inspect-wait", "--debug",
        "--debug-brk", "--remote-debugging-port", "-r", "-S", "-m",
    ];
    assert(r@.len() == 13);
    r
}

fn dev_only_flags_vec() -> (r: Vec<&'static str>)
    ensures
        r@.len() == dev_only_flags().len(),
        forall|i: int| 0 <= i < r@.len() ==> #[trigger] r@[i]@ == dev_only_flags()[i],
{
    vec!["--inspect", "--inspect-brk", "--inspect-wait", "--debug", "--debug-brk", "-m"]
}

/// A list of literals holds `s`.
fn list_contains(v: &Vec<&'static str>, s: &str) -> (r: bool)
    ensures
        r == exists|i: int| 0 <= i < v@.len() && #[trigger] v@[i]@ == s@,
{
    let mut i: usize = 0;
    while i < v.len()
        invariant
            i <= v@.len(),
            forall|k: int| 0 <= k < i ==> #[trigger] v@[k]@ != s@,
        decreases v@.len() - i,
    {
        if str_eq(v[i], s) {
            return true;
        }
        i += 1;
    }
    false
}

pub open spec fn seq_has(v: Seq<Seq<char>>, s: Seq<char>) -> bool {
    exists|i: int| 0 <= i < v.len() && #[trigger] v[i] == s
}

fn truncate_for_display(s: &str, max_len: usize) -> (r: String)
    requires
        max_len < usize::MAX - 8,
    ensures
        r@ == truncated(s@, max_len as nat),
{
    let v = chars_of(s);
    let (n, k) = byte_len_upto(&v, max_len + 1);
    assert(v@.take(v@.len() as int) =~= v@);
    if k == v.len() && n <= max_len {
        return s.to_owned();
    }
    proof {
        if byte_len(s@) <= max_len {
            if k < v@.len() {
                lemma_byte_len_take_mono(v@, k as int, v@.len() as int);
            }
            assert(false);
        }
        assert(k > 0) by {
            assert(v@.take(0) =~= Seq::<char>::empty());
        }
        assert(fits(s@, max_len as nat, k - 1));
        let kk = choose|j: int| #[trigger] fits(s@, max_len as nat, j);
        lemma_fits_unique(s@, max_len as nat, k - 1, kk);
    }
    let mut out = string_of_range(&v, 0, k - 1);
    assert(v@.subrange(0, k - 1) =~= v@.take(k - 1));
    out.append("...");
    out
}

// ---------------------------------------------------------------------------
// Flags and inline code

pub open spec fn flag_matches(arg: Seq<char>, d: Seq<char>) -> bool {
    arg == d || starts_with(arg, d + "="@)
}

pub open spec fn dangerous_flag_message(d: Seq<char>) -> Seq<char> {
    "Security Violation: Dangerous flag '"@ + d
        + "' detected.\nThis flag can enable arbitrary code execution.\nIf you need this for development, use: capsule open --dev"@
}

pub open spec fn inline_code_message(arg: Seq<char>) -> Seq<char> {
    "Security Violation: Inline code execution detected.\nAll executed code must be in a file within the capsule.\nFound suspicious argument: '"@
        + truncated(arg, 50) + "'"@
}

/// Code fragments that give away inline code.
pub open spec fn suspicious_patterns() -> Seq<Seq<char>> {
    seq![
        "import "@, "require("@, "console.log"@, "puts "@, "print("@, "exec("@, "system("@,
        "eval("@, "os.system"@, "subprocess"@, "__import__"@, "Process.spawn"@,
    ]
}

/// The argument looks like inline code: it holds a suspicious fragment, or is
/// longer than 200 bytes and holds `;` or a newline.
pub open spec fn is_inline_code(arg: Seq<char>) -> bool {
    (exists|i: int|
        0 <= i < suspicious_patterns().len() && contains_seq(arg, #[trigger] suspicious_patterns()[i]))
        || (byte_len(arg) > 200 && (contains_seq(arg, seq![';']) || contains_seq(arg, seq!['\n'])))
}

fn contains_str(v: &Vec<char>, p: &str) -> (r: bool)
    ensures
        r == contains_seq(v@, p@),
{
    let pv = chars_of(p);
    assert(v@.skip(0) =~= v@);
    find_from(v, &pv, 0).is_some()
}

fn contains_char(v: &Vec<char>, c: char) -> (r: bool)
    ensures
        r == contains_seq(v@, seq![c]),
{
    let pv = vec![c];
    assert(pv@ =~= seq![c]);
    assert(v@.skip(0) =~= v@);
    find_from(v, &pv, 0).is_some()
}

fn is_inline_code_pattern(arg: &str) -> (b: bool)
    ensures
        b == is_inline_code(arg@),
{
    let v = chars_of(arg);
    let patterns: Vec<&'static str> = vec![
        "import ", "require(", "console.log", "puts ", "print(", "exec(", "system(", "eval(",
        "os.system", "subprocess", "__import__", "Process.spawn",
    ];
    assert(patterns@.len() == suspicious_patterns().len());
    let mut i: usize = 0;
    while i < patterns.len()
        invariant
            v@ == arg@,
            patterns@.len() == suspicious_patterns().len(),
            forall|k: int| 0 <= k < patterns@.len() ==> #[trigger] patterns@[k]@ == suspicious_patterns()[k],
            i <= patterns@.len(),
            forall|k: int| 0 <= k < i ==> !contains_seq(arg@, #[trigger] suspicious_patterns()[k]),
        decreases patterns@.len() - i,
    {
        if contains_str(&v, patterns[i]) {
            return true;
        }
        i += 1;
    }
    let (n, _k) = byte_len_upto(&v, 201);
    proof {
        if _k < v@.len() {
            lemma_byte_len_take_mono(v@, _k as int, v@.len() as int);
        }
        assert(v@.take(v@.len() as int) =~= v@);
    }
    n > 200 && (contains_char(&v, ';') || contains_char(&v, '\n'))
}

/// The verdict on the arguments after the binary, from `from` on.
pub open spec fn flags_verdict(cmd: Seq<Seq<char>>, from: int, dev_mode: bool) -> Result<(), Seq<char>>
    decreases cmd.len() - from,
{
    if from >= cmd.len() || from < 1 {
        Ok(())
    } else {
        match first_dangerous(cmd[from], dev_mode, 0) {
            Some(d) => Err(dangerous_flag_message(d)),
            None => if is_inline_code(cmd[from]) {
                Err(inline_code_message(cmd[from]))
            } else {
                flags_verdict(cmd, from + 1, dev_mode)
            },
        }
    }
}

/// The first dangerous flag, from position `k` of the list on, that `arg`
/// matches and that the mode does not allow.
pub open spec fn first_dangerous(arg: Seq<char>, dev_mode: bool, k: int) -> Option<Seq<char>>
    decreases dangerous_flags().len() - k,
{
    if k >= dangerous_flags().len() || k < 0 {
        None
    } else if flag_matches(arg, dangerous_flags()[k]) && !(dev_mode && seq_has(
        dev_only_flags(),
        dangerous_flags()[k],
    )) {
        Some(dangerous_flags()[k])
    } else {
        first_dangerous(arg, dev_mode, k + 1)
    }
}

/// One argument passes: it is no inline code, and every dangerous flag it
/// matches is one that development mode allows, in development mode.
pub open spec fn arg_allowed(arg: Seq<char>, dev_mode: bool) -> bool {
    &&& !is_inline_code(arg)
    &&& forall|k: int|
        0 <= k < dangerous_flags().len() && #[trigger] flag_matches(arg, dangerous_flags()[k])
            ==> dev_mode && seq_has(dev_only_flags(), dangerous_flags()[k])
}

proof fn lemma_first_dangerous_none(arg: Seq<char>, dev_mode: bool, k: int)
    requires
        0 <= k,
    ensures
        first_dangerous(arg, dev_mode, k) is None <==> forall|j: int|
            k <= j < dangerous_flags().len() && #[trigger] flag_matches(arg, dangerous_flags()[j])
                ==> dev_mode && seq_has(dev_only_flags(), dangerous_flags()[j]),
    decreases dangerous_flags().len() - k,
{
    if k < dangerous_flags().len() {
        lemma_first_dangerous_none(arg, dev_mode, k + 1);
    }
}

proof fn lemma_flags_verdict_from(cmd: Seq<Seq<char>>, from: int, dev_mode: bool)
    requires
        1 <= from,
    ensures
        flags_verdict(cmd, from, dev_mode) is Ok <==> forall|i: int|
            from <= i < cmd.len() ==> #[trigger] arg_allowed(cmd[i], dev_mode),
    decreases cmd.len() - from,
{
    if from < cmd.len() {
        lemma_first_dangerous_none(cmd[from], dev_mode, 0);
        lemma_flags_verdict_from(cmd, from + 1, dev_mode);
        if flags_verdict(cmd, from, dev_mode) is Ok {
            assert forall|i: int| from <= i < cmd.len() implies #[trigger] arg_allowed(cmd[i], dev_mode) by {
                if i > from {
                    assert(from + 1 <= i);
                }
            }
        } else if forall|i: int| from <= i < cmd.len() ==> #[trigger] arg_allowed(cmd[i], dev_mode) {
            assert(arg_allowed(cmd[from], dev_mode));
            assert forall|i: int| from + 1 <= i < cmd.len() implies #[trigger] arg_allowed(cmd[i], dev_mode) by {
                assert(from <= i);
            }
        }
    }
}

/// A command passes the flag check exactly when every argument after the
/// binary is allowed; the binary itself is never inspected.
pub proof fn lemma_flags_pass_iff_all_args_allowed(cmd: Seq<Seq<char>>, dev_mode: bool)
    ensures
        flags_verdict(cmd, 1, dev_mode) is Ok <==> forall|i: int|
            1 <= i < cmd.len() ==> #[trigger] arg_allowed(cmd[i], dev_mode),
        cmd.len() > 0 ==> forall|b: Seq<char>|
            flags_verdict(#[trigger] cmd.update(0, b), 1, dev_mode) == flags_verdict(cmd, 1, dev_mode),
{
    lemma_flags_verdict_from(cmd, 1, dev_mode);
    if cmd.len() > 0 {
        assert forall|b: Seq<char>|
            flags_verdict(#[trigger] cmd.update(0, b), 1, dev_mode) == flags_verdict(cmd, 1, dev_mode) by {
            lemma_flags_verdict_ignores_binary(cmd, b, 1, dev_mode);
        }
    }
}

proof fn lemma_flags_verdict_ignores_binary(cmd: Seq<Seq<char>>, b: Seq<char>, from: int, dev_mode: bool)
    requires
        1 <= from,
        cmd.len() > 0,
    ensures
        flags_verdict(cmd.update(0, b), from, dev_mode) == flags_verdict(cmd, from, dev_mode),
    decreases cmd.len() - from,
{
    if from < cmd.len() {
        assert(cmd.update(0, b)[from] == cmd[from]);
        lemma_flags_verdict_ignores_binary(cmd, b, from + 1, dev_mode);
    }
}

fn check_dangerous(arg: &str, dev_mode: bool) -> (r: Option<&'static str>)
    ensures
        match (r, first_dangerous(arg@, dev_mode, 0)) {
            (Some(a), Some(b)) => a@ == b,
            (None, None) => true,
            _ => false,
        },
{
    let flags = dangerous_flags_vec();
    let dev = dev_only_flags_vec();
    let av = chars_of(arg);
    assert(av@.skip(0) =~= av@);
    let mut k: usize = 0;
    while k < flags.len()
        invariant
            av@ == arg@,
            av@.skip(0) == av@,
            flags@.len() == dangerous_flags().len(),
            forall|i: int| 0 <= i < flags@.len() ==> #[trigger] flags@[i]@ == dangerous_flags()[i],
            dev@.len() == dev_only_flags().len(),
            forall|i: int| 0 <= i < dev@.len() ==> #[trigger] dev@[i]@ == dev_only_flags()[i],
            k <= flags@.len(),
            first_dangerous(arg@, dev_mode, 0) == first_dangerous(arg@, dev_mode, k as int),
        decreases flags@.len() - k,
    {
        let d = flags[k];
        let mut de = d.to_owned();
        de.append("=");
        let dev_v = chars_of(de.as_str());
        let m = str_eq(arg, d) || matches_at(&av, 0, &dev_v);
        if m {
            let allowed = dev_mode && list_contains(&dev, d);
            proof {
                if dev_mode {
                    if seq_has(dev_only_flags(), dangerous_flags()[k as int]) {
                        let i = choose|i: int| 0 <= i < dev_only_flags().len() && #[trigger] dev_only_flags()[i] == dangerous_flags()[k as int];
                        assert(dev@[i]@ == d@);
                    }
                    if allowed {
                        let i = choose|i: int| 0 <= i < dev@.len() && #[trigger] dev@[i]@ == d@;
                        assert(dev_only_flags()[i] == d@);
                    }
                }
            }
            if !allowed {
                return Some(d);
            }
        }
        k += 1;
    }
    None
}

fn validate_flags(cmd: &Vec<String>, dev_mode: bool) -> (r: Result<(), String>)
    ensures
        match (r, flags_verdict(crate::text::strs_view(cmd@), 1, dev_mode)) {
            (Ok(_), Ok(_)) => true,
            (Err(a), Err(b)) => a@ == b,
            _ => false,
        },
{
    let ghost cv = crate::text::strs_view(cmd@);
    let mut i: usize = 1;
    while i < cmd.len()
        invariant
            cv == crate::text::strs_view(cmd@),
            1 <= i,
            flags_verdict(cv, 1, dev_mode) == flags_verdict(cv, i as int, dev_mode),
        decreases cmd@.len() - i,
    {
        let arg = cmd[i].as_str();
        assert(cv[i as int] == arg@);
        match check_dangerous(arg, dev_mode) {
            Some(d) => {
                let mut m = String::from_str("Security Violation: Dangerous flag '");
                m.append(d);
                m.append(
                    "' detected.\nThis flag can enable arbitrary code execution.\nIf you need this for development, use: capsule open --dev",
                );
                return Err(m);
            },
            None => {},
        }
        if is_inline_code_pattern(arg) {
            let t = truncate_for_display(arg, 50);
            let mut m = String::from_str(
                "Security Violation: Inline code execution detected.\nAll executed code must be in a file within the capsule.\nFound suspicious argument: '",
            );
            m.append(t.as_str());
            m.append("'");
            return Err(m);
        }
        i += 1;
    }
    Ok(())
}

// ---------------------------------------------------------------------------
// The entrypoint

/// File extensions of scripts.
pub open spec fn script_extensions() -> Seq<Seq<char>> {
    seq![
        "py"@, "rb"@, "js"@, "ts"@, "mjs"@, "cjs"@, "pl"@, "php"@, "sh"@, "bash"@, "lua"@, "r"@,
        "R"@, "jl"@, "go"@, "rs"@, "java"@, "kt"@, "swift"@, "ex"@, "exs"@,
    ]
}

/// The argument looks like a file: a script extension after its last `.`, a
/// path separator, or a relative-path prefix.
pub open spec fn looks_like_file(arg: Seq<char>) -> bool {
    (contains_seq(arg, seq!['.']) && seq_has(script_extensions(), split_char(arg, '.').last()))
        || contains_seq(arg, seq!['/']) || contains_seq(arg, seq!['\\']) || starts_with(
        arg,
        "./"@,
    ) || starts_with(arg, "../"@)
}

fn looks_like_file_path(arg: &str) -> (b: bool)
    ensures
        b == looks_like_file(arg@),
{
    let v = chars_of(arg);
    if contains_char(&v, '.') {
        let ranges = split_char_ranges(&v, '.');
        let last = ranges.len() - 1;
        let ext = string_of_range(&v, ranges[last].0, ranges[last].1);
        let exts: Vec<&'static str> = vec![
            "py", "rb", "js", "ts", "mjs", "cjs", "pl", "php", "sh", "bash", "lua", "r", "R", "jl",
            "go", "rs", "java", "kt", "swift", "ex", "exs",
        ];
        assert(exts@.len() == script_extensions().len());
        let found = list_contains(&exts, ext.as_str());
        proof {
            assert(ext@ == split_char(arg@, '.').last());
            if found {
                let i = choose|i: int| 0 <= i < exts@.len() && #[trigger] exts@[i]@ == ext@;
                assert(script_extensions()[i] == ext@);
            }
            if seq_has(script_extensions(), ext@) {
                let i = choose|i: int| 0 <= i < script_extensions().len() && #[trigger] script_extensions()[i] == ext@;
                assert(exts@[i]@ == ext@);
            }
        }
        if found {
            return true;
        }
    }
    if contains_char(&v, '/') || contains_char(&v, '\\') {
        return true;
    }
    let dot_slash = chars_of("./");
    let dot_dot_slash = chars_of("../");
    assert(v@.skip(0) =~= v@);
    matches_at(&v, 0, &dot_slash) || matches_at(&v, 0, &dot_dot_slash)
}

pub open spec fn is_flag(arg: Seq<char>) -> bool {
    arg.len() > 0 && arg[0] == '-'
}

/// The last argument after the binary that is no flag and looks like a file.
pub open spec fn last_file_like(cmd: Seq<Seq<char>>, upto: int) -> Option<int>
    decreases upto,
{
    if upto <= 1 {
        None
    } else if !is_flag(cmd[upto - 1]) && looks_like_file(cmd[upto - 1]) {
        Some(upto - 1)
    } else {
        last_file_like(cmd, upto - 1)
    }
}

/// The last argument that is no flag and differs from the binary.
pub open spec fn last_plain(cmd: Seq<Seq<char>>, upto: int) -> Option<int>
    decreases upto,
{
    if upto <= 0 {
        None
    } else if !is_flag(cmd[upto - 1]) && !(cmd.len() > 0 && cmd[0] == cmd[upto - 1]) {
        Some(upto - 1)
    } else {
        last_plain(cmd, upto - 1)
    }
}

/// The entrypoint of a command: the last file-like argument, else the last
/// argument that is no flag and not the binary again.
pub open spec fn entrypoint_of(cmd: Seq<Seq<char>>) -> Option<Seq<char>> {
    match last_file_like(cmd, cmd.len() as int) {
        Some(i) => Some(cmd[i]),
        None => match last_plain(cmd, cmd.len() as int) {
            Some(i) => Some(cmd[i]),
            None => None,
        },
    }
}

fn starts_with_dash(s: &str) -> (b: bool)
    ensures
        b == is_flag(s@),
{
    let v = chars_of(s);
    v.len() > 0 && v[0] == '-'
}

pub fn find_entrypoint(cmd: &Vec<String>) -> (r: Option<String>)
    ensures
        match (r, entrypoint_of(crate::text::strs_view(cmd@))) {
            (Some(a), Some(b)) => a@ == b,
            (None, None) => true,
            _ => false,
        },
{
    let ghost cv = crate::text::strs_view(cmd@);
    let mut i: usize = cmd.len();
    while i > 1
        invariant
            cv == crate::text::strs_view(cmd@),
            i <= cmd@.len(),
            last_file_like(cv, cv.len() as int) == last_file_like(cv, i as int),
        decreases i,
    {
        let arg = cmd[i - 1].as_str();
        assert(cv[i - 1] == arg@);
        if !starts_with_dash(arg) && looks_like_file_path(arg) {
            return Some(arg.to_owned());
        }
        i -= 1;
    }
    let mut j: usize = cmd.len();
    while j > 0
        invariant
            cv == crate::text::strs_view(cmd@),
            j <= cmd@.len(),
            last_file_like(cv, cv.len() as int) is None,
            last_plain(cv, cv.len() as int) == last_plain(cv, j as int),
        decreases j,
    {
        let arg = cmd[j - 1].as_str();
        assert(cv[j - 1] == arg@);
        assert(cv[0] == cmd@[0]@);
        if !starts_with_dash(arg) && !str_eq(cmd[0].as_str(), arg) {
            return Some(arg.to_owned());
        }
        j -= 1;
    }
    None
}

pub open spec fn empty_command_message() -> Seq<char> {
    "Security Violation: Empty command specified"@
}

/// Check a command: it is not empty and holds no dangerous flag and no
/// inline code. What comes back is the argument that must then be checked as
/// a file inside the capsule (none for a bare binary, or where no argument
/// looks like one).
pub fn validate_cmd(cmd: &Vec<String>, dev_mode: bool) -> (r: Result<Option<String>, String>)
    ensures
        cmd@.len() == 0 ==> (r matches Err(m) && m@ == empty_command_message()),
        cmd@.len() > 0 ==> match flags_verdict(crate::text::strs_view(cmd@), 1, dev_mode) {
            Err(e) => r matches Err(m) && m@ == e,
            Ok(_) => r matches Ok(o) && if cmd@.len() < 2 {
                o is None
            } else {
                match (o, entrypoint_of(crate::text::strs_view(cmd@))) {
                    (Some(a), Some(b)) => a@ == b,
                    (None, None) => true,
                    _ => false,
                }
            },
        },
{
    if cmd.len() == 0 {
        return Err("Security Violation: Empty command specified".to_owned());
    }
    match validate_flags(cmd, dev_mode) {
        Err(e) => {
            return Err(e);
        },
        Ok(()) => {},
    }
    if cmd.len() < 2 {
        return Ok(None);
    }
    Ok(find_entrypoint(cmd))
}

// ---------------------------------------------------------------------------
// Binaries

pub open spec fn allowed_binaries() -> Seq<Seq<char>> {
    seq![
        "python"@, "python3"@, "python3.11"@, "python3.12"@, "python3.13"@, "node"@, "nodejs"@,
        "deno"@, "ruby"@, "go"@, "perl"@, "cargo"@, "bun"@,
    ]
}

pub open spec fn dev_allowed_binaries() -> Seq<Seq<char>> {
    seq!["npx"@, "yarn"@, "pnpm"@, "uv"@, "pip"@, "poetry"@]
}

pub open spec fn denied_binaries() -> Seq<Seq<char>> {
    seq![
        "sh"@, "bash"@, "zsh"@, "fish"@, "csh"@, "tcsh"@, "dash"@, "cmd"@, "powershell"@,
        "pwsh"@,
    ]
}

pub open spec fn shell_denied_message(b: Seq<char>) -> Seq<char> {
    "Security Violation: Shell execution is not allowed.\nBinary '"@ + b
        + "' is explicitly denied.\nWrap your logic in a script file and use the appropriate runtime."@
}

pub open spec fn not_allowed_message(b: Seq<char>) -> Seq<char> {
    "Security Violation: Binary '"@ + b
        + "' is not in the allowlist.\nAllowed binaries: [\"python\", \"python3\", \"python3.11\", \"python3.12\", \"python3.13\", \"node\", \"nodejs\", \"deno\", \"ruby\", \"go\", \"perl\", \"cargo\", \"bun\"]\nIf you need this binary for development, use: capsule open --dev"@
}

/// The verdict on a binary: allowed ones pass, the development ones pass in
/// development mode, shells are refused as such, anything else as unknown.
pub open spec fn binary_verdict(b: Seq<char>, dev_mode: bool) -> Result<(), Seq<char>> {
    if seq_has(allowed_binaries(), b) {
        Ok(())
    } else if dev_mode && seq_has(dev_allowed_binaries(), b) {
        Ok(())
    } else if seq_has(denied_binaries(), b) {
        Err(shell_denied_message(b))
    } else {
        Err(not_allowed_message(b))
    }
}

/// What sets the shell names apart from the allowed binaries: their length
/// and first two characters.
spec fn shell_shape(b: Seq<char>) -> bool {
    &&& b.len() == 2 ==> b[0] == 's'
    &&& b.len() == 3 ==> b[0] == 'z' || b[0] == 'c'
    &&& b.len() == 4 ==> (b[0] == 'b' || b[0] == 'f' || b[0] == 't' || (b[0] == 'd' && b[1] == 'a') || (b[0]
        == 'p' && b[1] == 'w'))
    &&& b.len() == 10 ==> b[1] == 'o'
    &&& b.len() == 2 || b.len() == 3 || b.len() == 4 || b.len() == 10
}

/// A shell is refused in both modes, with the shell message: no shell is
/// on either allow list.
pub proof fn lemma_shells_refused(b: Seq<char>, dev_mode: bool)
    requires
        seq_has(denied_binaries(), b),
    ensures
        binary_verdict(b, dev_mode) == Err::<(), Seq<char>>(shell_denied_message(b)),
{
    reveal_strlit("python");
    reveal_strlit("python3");
    reveal_strlit("python3.11");
    reveal_strlit("python3.12");
    reveal_strlit("python3.13");
    reveal_strlit("node");
    reveal_strlit("nodejs");
    reveal_strlit("deno");
    reveal_strlit("ruby");
    reveal_strlit("go");
    reveal_strlit("perl");
    reveal_strlit("cargo");
    reveal_strlit("bun");
    reveal_strlit("npx");
    reveal_strlit("yarn");
    reveal_strlit("pnpm");
    reveal_strlit("uv");
    reveal_strlit("pip");
    reveal_strlit("poetry");
    reveal_strlit("sh");
    reveal_strlit("bash");
    reveal_strlit("zsh");
    reveal_strlit("fish");
    reveal_strlit("csh");
    reveal_strlit("tcsh");
    reveal_strlit("dash");
    reveal_strlit("cmd");
    reveal_strlit("powershell");
    reveal_strlit("pwsh");
    let d = denied_binaries();
    let k = choose|k: int| 0 <= k < d.len() && #[trigger] d[k] == b;
    assert(shell_shape(b)) by {
        let i = k;
        if i == 0 {
            assert(b == "sh"@);
        } else if i == 1 {
            assert(b == "bash"@);
        } else if i == 2 {
            assert(b == "zsh"@);
        } else if i == 3 {
            assert(b == "fish"@);
        } else if i == 4 {
            assert(b == "csh"@);
        } else if i == 5 {
            assert(b == "tcsh"@);
        } else if i == 6 {
            assert(b == "dash"@);
        } else if i == 7 {
            assert(b == "cmd"@);
        } else if i == 8 {
            assert(b == "powershell"@);
        } else if i == 9 {
            assert(b == "pwsh"@);
        }
    }
    assert forall|i: int| 0 <= i < allowed_binaries().len() implies #[trigger] allowed_binaries()[i] != b by {
        if i == 0 {
            assert(allowed_binaries()[i] == "python"@);
        } else if i == 1 {
            assert(allowed_binaries()[i] == "python3"@);
        } else if i == 2 {
            assert(allowed_binaries()[i] == "python3.11"@);
        } else if i == 3 {
            assert(allowed_binaries()[i] == "python3.12"@);
        } else if i == 4 {
            assert(allowed_binaries()[i] == "python3.13"@);
        } else if i == 5 {
            assert(allowed_binaries()[i] == "node"@);
        } else if i == 6 {
            assert(allowed_binaries()[i] == "nodejs"@);
        } else if i == 7 {
            assert(allowed_binaries()[i] == "deno"@);
        } else if i == 8 {
            assert(allowed_binaries()[i] == "ruby"@);
        } else if i == 9 {
            assert(allowed_binaries()[i] == "go"@);
        } else if i == 10 {
            assert(allowed_binaries()[i] == "perl"@);
        } else if i == 11 {
            assert(allowed_binaries()[i] == "cargo"@);
        } else if i == 12 {
            assert(allowed_binaries()[i] == "bun"@);
        }
    }
    assert forall|i: int| 0 <= i < dev_allowed_binaries().len() implies #[trigger] dev_allowed_binaries()[i] != b by {
        if i == 0 {
            assert(dev_allowed_binaries()[i] == "npx"@);
        } else if i == 1 {
            assert(dev_allowed_binaries()[i] == "yarn"@);
        } else if i == 2 {
            assert(dev_allowed_binaries()[i] == "pnpm"@);
        } else if i == 3 {
            assert(dev_allowed_binaries()[i] == "uv"@);
        } else if i == 4 {
            assert(dev_allowed_binaries()[i] == "pip"@);
        } else if i == 5 {
            assert(dev_allowed_binaries()[i] == "poetry"@);
        }
    }
}

fn in_list(v: &Vec<&'static str>, s: &str, Ghost(spec): Ghost<Seq<Seq<char>>>) -> (r: bool)
    requires
        v@.len() == spec.len(),
        forall|i: int| 0 <= i < v@.len() ==> #[trigger] v@[i]@ == spec[i],
    ensures
        r == seq_has(spec, s@),
{
    let r = list_contains(v, s);
    proof {
        if r {
            let i = choose|i: int| 0 <= i < v@.len() && #[trigger] v@[i]@ == s@;
            assert(spec[i] == s@);
        }
        if seq_has(spec, s@) {
            let i = choose|i: int| 0 <= i < spec.len() && #[trigger] spec[i] == s@;
            assert(v@[i]@ == s@);
        }
    }
    r
}

pub fn validate_binary(binary: &str, dev_mode: bool) -> (r: Result<(), String>)
    ensures
        match (r, binary_verdict(binary@, dev_mode)) {
            (Ok(_), Ok(_)) => true,
            (Err(a), Err(b)) => a@ == b,
            _ => false,
        },
{
    let allowed: Vec<&'static str> = vec![
        "python", "python3", "python3.11", "python3.12", "python3.13", "node", "nodejs", "deno",
        "ruby", "go", "perl", "cargo", "bun",
    ];
    assert(allowed@.len() == allowed_binaries().len());
    if in_list(&allowed, binary, Ghost(allowed_binaries())) {
        return Ok(());
    }
    let dev: Vec<&'static str> = vec!["npx", "yarn", "pnpm", "uv", "pip", "poetry"];
    if dev_mode && in_list(&dev, binary, Ghost(dev_allowed_binaries())) {
        return Ok(());
    }
    let denied: Vec<&'static str> = vec![
        "sh", "bash", "zsh", "fish", "csh", "tcsh", "dash", "cmd", "powershell", "pwsh",
    ];
    assert(denied@.len() == denied_binaries().len());
    if in_list(&denied, binary, Ghost(denied_binaries())) {
        let mut m = String::from_str("Security Violation: Shell execution is not allowed.\nBinary '");
        m.append(binary);
        m.append(
            "' is explicitly denied.\nWrap your logic in a script file and use the appropriate runtime.",
        );
        return Err(m);
    }
    let mut m = String::from_str("Security Violation: Binary '");
    m.append(binary);
    m.append(
        "' is not in the allowlist.\nAllowed binaries: [\"python\", \"python3\", \"python3.11\", \"python3.12\", \"python3.13\", \"node\", \"nodejs\", \"deno\", \"ruby\", \"go\", \"perl\", \"cargo\", \"bun\"]\nIf you need this binary for development, use: capsule open --dev",
    );
    Err(m)
}

/// Where an entrypoint argument points: itself where absolute, else under the capsule root.
pub open spec fn entrypoint_path(file_arg: Seq<char>, capsule_root: Seq<char>) -> Seq<char> {
    crate::storage::path_join(capsule_root, file_arg)
}

/// The file an entrypoint argument names.
pub fn entrypoint_target(file_arg: &str, capsule_root: &str) -> (r: String)
    ensures
        r@ == entrypoint_path(file_arg@, capsule_root@),
{
    crate::storage::join_path(capsule_root, file_arg)
}

/// The outcome of checking an entrypoint file: it must resolve inside the
/// capsule root (both as resolved, following symlinks where they exist),
/// exist, and be a regular file.
pub open spec fn entrypoint_verdict(
    file_arg: Seq<char>,
    target: Seq<char>,
    resolved_root: Seq<char>,
    resolved_target: Seq<char>,
    exists: bool,
    is_file: bool,
) -> Result<(), Seq<char>> {
    if !crate::path_guard::path_starts_with(resolved_target, resolved_root) {
        Err("Security Violation: Path traversal detected.\nEntrypoint '"@ + file_arg + "' resolves to '"@
            + resolved_target + "' which is outside the capsule root '"@ + resolved_root + "'."@)
    } else if !exists {
        Err("Security Violation: Entrypoint file not found.\nExpected file: '"@ + file_arg + "' (resolved: '"@
            + target + "')\nAll executed code must be in a file within the capsule."@)
    } else if !is_file {
        Err("Security Violation: Entrypoint is not a file.\n'"@ + target
            + "' exists but is a directory or special file."@)
    } else {
        Ok(())
    }
}

/// Check the entrypoint file of a command (the file-first rule), given the
/// resolved capsule root and target and what the file system says of the target.
pub fn check_entrypoint_file(
    file_arg: &str,
    target: &str,
    resolved_root: &str,
    resolved_target: &str,
    exists: bool,
    is_file: bool,
) -> (r: Result<(), String>)
    ensures
        match entrypoint_verdict(file_arg@, target@, resolved_root@, resolved_target@, exists, is_file) {
            Ok(_) => r is Ok,
            Err(m) => r matches Err(x) && x@ == m,
        },
{
    if !crate::path_guard::starts_with_path(resolved_target, resolved_root) {
        let mut m = String::from_str("Security Violation: Path traversal detected.\nEntrypoint '");
        m.append(file_arg);
        m.append("' resolves to '");
        m.append(resolved_target);
        m.append("' which is outside the capsule root '");
        m.append(resolved_root);
        m.append("'.");
        return Err(m);
    }
    if !exists {
        let mut m = String::from_str("Security Violation: Entrypoint file not found.\nExpected file: '");
        m.append(file_arg);
        m.append("' (resolved: '");
        m.append(target);
        m.append("')\nAll executed code must be in a file within the capsule.");
        return Err(m);
    }
    if !is_file {
        let mut m = String::from_str("Security Violation: Entrypoint is not a file.\n'");
        m.append(target);
        m.append("' exists but is a directory or special file.");
        return Err(m);
    }
    Ok(())
}

/// The file an entrypoint check looks at for a command: the entrypoint
/// argument's path (under the capsule root unless absolute), or none where
/// the command has no argument or no entrypoint.
pub open spec fn file_first_target_spec(cmd: Seq<Seq<char>>, capsule_root: Seq<char>) -> Option<(Seq<char>, Seq<char>)> {
    if cmd.len() < 2 {
        None
    } else {
        match entrypoint_of(cmd) {
            Some(x) => Some((x, entrypoint_path(x, capsule_root))),
            None => None,
        }
    }
}

/// The entrypoint argument and the file it names (see
/// `file_first_target_spec`); the caller resolves that file and the root on
/// disk for `validate_file_first`.
pub fn file_first_target(cmd: &Vec<String>, capsule_root: &str) -> (r: Option<(String, String)>)
    ensures
        match (r, file_first_target_spec(crate::text::strs_view(cmd@), capsule_root@)) {
            (Some((a, t)), Some((x, y))) => a@ == x && t@ == y,
            (None, None) => true,
            _ => false,
        },
{
    if cmd.len() < 2 {
        return None;
    }
    match find_entrypoint(cmd) {
        Some(x) => {
            let t = entrypoint_target(x.as_str(), capsule_root);
            Some((x, t))
        },
        None => None,
    }
}

/// The file-first rule (`validate_file_first`): a command without an
/// argument or without an entrypoint passes; otherwise its entrypoint file
/// must resolve inside the capsule root, exist and be a regular file.
pub open spec fn file_first_verdict(
    cmd: Seq<Seq<char>>,
    capsule_root: Seq<char>,
    resolved_root: Seq<char>,
    resolved_target: Seq<char>,
    exists: bool,
    is_file: bool,
) -> Result<(), Seq<char>> {
    match file_first_target_spec(cmd, capsule_root) {
        None => Ok(()),
        Some((x, t)) => entrypoint_verdict(x, t, resolved_root, resolved_target, exists, is_file),
    }
}

/// Check a command against the file-first rule, given the capsule root and
/// the entrypoint file as resolved on disk (each itself where it cannot be
/// resolved) and whether that file exists and is a regular file.
pub fn validate_file_first(
    cmd: &Vec<String>,
    capsule_root: &str,
    resolved_root: &str,
    resolved_target: &str,
    exists: bool,
    is_file: bool,
) -> (r: Result<(), String>)
    ensures
        match file_first_verdict(
            crate::text::strs_view(cmd@),
            capsule_root@,
            resolved_root@,
            resolved_target@,
            exists,
            is_file,
        ) {
            Ok(_) => r is Ok,
            Err(m) => r matches Err(x) && x@ == m,
        },
{
    match file_first_target(cmd, capsule_root) {
        None => Ok(()),
        Some((x, t)) => check_entrypoint_file(x.as_str(), t.as_str(), resolved_root, resolved_target, exists, is_file),
    }
}

} // verus!
