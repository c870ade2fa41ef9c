//! Running packages without installing them: what is run, and what it is allowed to see.
use crate::db::push_new;
use crate::db;
use crate::download::Fetch;
use crate::paths::{join_path, last_component};
use crate::paths;
use crate::pm::{CommandLine, Process};
use crate::pm;
use crate::text::{ascii_word, chars_of, clone_strings, contains_char, cut_at, cut_at_last, insert_ascending, join_strings, list_contains, no_strings, number_text, parse_number, push_str, push_strs, split_string, starts_with, str_eq, sub_string};
use crate::text;
use crate::utils::{is_safe_pkg_name, shell_quote};
use crate::utils;
use vstd::prelude::*;
use vstd::string::*;

verus! {

// ---------------------------------------------------------------------------------------
// Targets

/// A target in its parts: before and behind its first slash, else its first colon; a Nix
/// reference counts as one of the provider `nix`.
pub open spec fn target_parts(t: Seq<char>) -> (Option<Seq<char>>, Seq<char>) {
    match text::cut(t, '/') {
        Some((p, rest)) => (Some(p), rest),
        None => match text::cut(t, ':') {
            Some((p, rest)) => (Some(p), rest),
            None => if text::begins(t, "nixpkgs#"@) {
                (Some("nix"@), t.skip(8))
            } else {
                (None, t)
            },
        },
    }
}

pub fn parse_target(target: &str) -> (r: (Option<String>, String))
    ensures
        (text::opt_text(r.0), r.1@) == target_parts(target@),
{
    if let Some((p, rest)) = cut_at(target, '/') {
        return (Some(p), rest);
    }
    if let Some((p, rest)) = cut_at(target, ':') {
        return (Some(p), rest);
    }
    if starts_with(target, "nixpkgs#") {
        proof {
            reveal_strlit("nixpkgs#");
        }
        let cs = chars_of(target);
        let rest = sub_string(&cs, 8, cs.len());
        assert(rest@ =~= target@.skip(8));
        return (Some("nix".to_string()), rest);
    }
    (None, target.to_string())
}

/// Providers that run their programs on the host.
pub open spec fn on_host_only(prefix: Option<Seq<char>>) -> bool {
    prefix == Some("nix"@) || prefix == Some("nixpkgs"@) || prefix == Some("pipx"@)
}

pub fn host_only_provider(prefix: Option<&str>) -> (r: bool)
    ensures
        r == on_host_only(
            match prefix {
                Some(p) => Some(p@),
                None => None,
            },
        ),
{
    match prefix {
        Some(p) => str_eq(p, "nix") || str_eq(p, "nixpkgs") || str_eq(p, "pipx"),
        None => false,
    }
}

#[derive(Debug, Clone)]
pub struct TryOptions {
    pub no_sandbox: bool,
    pub share_net: bool,
    pub rw_cwd: bool,
    pub gui: bool,
    pub audio: bool,
    pub bin: Option<String>,
    pub allow_unverified: bool,
    pub is_run_mode: bool,
    pub noconfirm: bool,
}

#[verifier::ext_equal]
pub struct TryView {
    pub no_sandbox: bool,
    pub share_net: bool,
    pub rw_cwd: bool,
    pub gui: bool,
    pub audio: bool,
    pub bin: Option<Seq<char>>,
    pub allow_unverified: bool,
    pub is_run_mode: bool,
    pub noconfirm: bool,
}

impl View for TryOptions {
    type V = TryView;

    open spec fn view(&self) -> TryView {
        TryView {
            no_sandbox: self.no_sandbox,
            share_net: self.share_net,
            rw_cwd: self.rw_cwd,
            gui: self.gui,
            audio: self.audio,
            bin: text::opt_text(self.bin),
            allow_unverified: self.allow_unverified,
            is_run_mode: self.is_run_mode,
            noconfirm: self.noconfirm,
        }
    }
}

impl Default for TryOptions {
    fn default() -> (r: Self)
        ensures
            !r.no_sandbox,
            !r.share_net,
            !r.rw_cwd,
            !r.gui,
            !r.audio,
            r.bin is None,
            !r.allow_unverified,
            !r.is_run_mode,
            !r.noconfirm,
    {
        TryOptions {
            no_sandbox: false,
            share_net: false,
            rw_cwd: false,
            gui: false,
            audio: false,
            bin: None,
            allow_unverified: false,
            is_run_mode: false,
            noconfirm: false,
        }
    }
}

impl TryOptions {
    /// The options of a run on the host.
    pub fn for_run() -> (r: Self)
        ensures
            r.no_sandbox,
            r.share_net,
            r.rw_cwd,
            !r.gui,
            !r.audio,
            r.bin is None,
            !r.allow_unverified,
            r.is_run_mode,
            !r.noconfirm,
    {
        TryOptions {
            no_sandbox: true,
            share_net: true,
            rw_cwd: true,
            gui: false,
            audio: false,
            bin: None,
            allow_unverified: false,
            is_run_mode: true,
            noconfirm: false,
        }
    }
}

/// How a target is run.
#[derive(Debug, Clone)]
pub enum Route {
    Flatpak(String),
    Nix(String),
    Pipx(String),
    Pacman(Option<String>, String),
    Refuse(String),
}

pub open spec fn host_refusal() -> Seq<char> {
    "Nix and Pipx run their programs on the host. Use 'pin run' or pass --no-sandbox to opt in to host execution."@
}

/// Chooses how a target is run. A provider that can only run on the host is refused unless
/// the sandbox is switched off.
pub fn cmd_try(target: &str, no_sandbox: bool) -> (r: Route)
    ensures
        ({
            let (prefix, pkg) = target_parts(target@);
            if prefix == Some("flatpak"@) {
                r is Flatpak && r->Flatpak_0@ == pkg
            } else if on_host_only(prefix) && !no_sandbox {
                r is Refuse && r->Refuse_0@ == host_refusal()
            } else if prefix == Some("nix"@) || prefix == Some("nixpkgs"@) {
                r is Nix && r->Nix_0@ == pkg
            } else if prefix == Some("pipx"@) {
                r is Pipx && r->Pipx_0@ == pkg
            } else {
                r is Pacman && text::opt_text(r->Pacman_0) == prefix && r->Pacman_1@ == pkg
            }
        }),
        r is Nix || r is Pipx ==> no_sandbox,
        no_sandbox ==> !(r is Refuse),
{
    let (prefix, pkg) = parse_target(target);
    if let Some(p) = &prefix {
        if str_eq(p, "flatpak") {
            return Route::Flatpak(pkg);
        }
        if host_only_provider(Some(p.as_str())) && !no_sandbox {
            return Route::Refuse(
                "Nix and Pipx run their programs on the host. Use 'pin run' or pass --no-sandbox to opt in to host execution.".to_string(),
            );
        }
        if str_eq(p, "nix") || str_eq(p, "nixpkgs") {
            return Route::Nix(pkg);
        }
        if str_eq(p, "pipx") {
            return Route::Pipx(pkg);
        }
    }
    Route::Pacman(prefix, pkg)
}

// ---------------------------------------------------------------------------------------
// Flatpak, Nix and Pipx

pub open spec fn flatpak_char(c: char) -> bool {
    text::is_ascii_word(c) || c == '.' || c == '-' || c == '_'
}

pub open spec fn safe_flatpak_id(id: Seq<char>) -> bool {
    id.len() > 0 && forall|i: int| 0 <= i < id.len() ==> flatpak_char(#[trigger] id[i])
}

pub fn is_safe_flatpak_id(id: &str) -> (r: bool)
    ensures
        r == safe_flatpak_id(id@),
{
    let cs = chars_of(id);
    if cs.len() == 0 {
        return false;
    }
    let mut i: usize = 0;
    while i < cs.len()
        invariant
            i <= cs@.len(),
            cs@ == id@,
            forall|j: int| 0 <= j < i ==> flatpak_char(#[trigger] cs@[j]),
        decreases cs@.len() - i,
    {
        let c = cs[i];
        if !(ascii_word(c) || c == '.' || c == '-' || c == '_') {
            return false;
        }
        i += 1;
    }
    true
}

/// Whether a Flatpak application can be run, and why not.
pub fn try_flatpak(app_id: &str, available: bool) -> (r: Result<(), String>)
    ensures
        if !safe_flatpak_id(app_id@) {
            r is Err && r->Err_0@ == "Invalid Flatpak Application ID '"@ + app_id@
                + "'. Flatpak IDs follow reverse-DNS notation, e.g. 'org.gnome.Calculator'."@
        } else if !available {
            r is Err && r->Err_0@
                == "'flatpak' command not found on this system. Install flatpak or enable Flatpak integration in 'pacpin init'."@
        } else {
            r is Ok
        },
{
    if !is_safe_flatpak_id(app_id) {
        let mut e: String = "Invalid Flatpak Application ID '".to_string();
        e.append(app_id);
        e.append("'. Flatpak IDs follow reverse-DNS notation, e.g. 'org.gnome.Calculator'.");
        return Err(e);
    }
    if !available {
        return Err(
            "'flatpak' command not found on this system. Install flatpak or enable Flatpak integration in 'pacpin init'.".to_string(),
        );
    }
    Ok(())
}

/// The command that installs a Flatpak application for the time of one run.
pub fn flatpak_install(app_id: &str) -> (r: CommandLine)
    ensures
        pm::runs(
            r,
            "flatpak"@,
            seq!["install"@, "--user"@, "--noninteractive"@, "-y"@, "flathub"@, app_id@],
        ),
{
    let mut a = no_strings();
    push_str(&mut a, "install");
    push_str(&mut a, "--user");
    push_str(&mut a, "--noninteractive");
    push_str(&mut a, "-y");
    push_str(&mut a, "flathub");
    push_str(&mut a, app_id);
    assert(text::texts(a@) =~= seq![
        "install"@,
        "--user"@,
        "--noninteractive"@,
        "-y"@,
        "flathub"@,
        app_id@,
    ]);
    CommandLine { program: "flatpak".to_string(), args: a }
}

/// The command that removes it again.
pub fn flatpak_uninstall(app_id: &str) -> (r: CommandLine)
    ensures
        pm::runs(r, "flatpak"@, seq!["uninstall"@, "--user"@, "-y"@, app_id@]),
{
    let mut a = no_strings();
    push_str(&mut a, "uninstall");
    push_str(&mut a, "--user");
    push_str(&mut a, "-y");
    push_str(&mut a, app_id);
    assert(text::texts(a@) =~= seq!["uninstall"@, "--user"@, "-y"@, app_id@]);
    CommandLine { program: "flatpak".to_string(), args: a }
}

fn run_words(program: &str, target: &str, args: &Vec<String>) -> (r: CommandLine)
    ensures
        pm::runs(r, program@, seq!["run"@, target@] + text::texts(args@)),
{
    let mut a = no_strings();
    push_str(&mut a, "run");
    push_str(&mut a, target);
    assert(text::texts(a@) =~= seq!["run"@, target@]);
    push_strs(&mut a, args);
    CommandLine { program: program.to_string(), args: a }
}

/// The command that runs a Flatpak application.
pub fn flatpak_run(app_id: &str, args: &Vec<String>) -> (r: CommandLine)
    ensures
        pm::runs(r, "flatpak"@, seq!["run"@, app_id@] + text::texts(args@)),
{
    run_words("flatpak", app_id, args)
}

/// The command that runs a Nix package, and the one to try where it fails.
pub fn try_nix(pkg: &str, args: &Vec<String>, available: bool) -> (r: Result<
    (CommandLine, CommandLine),
    String,
>)
    ensures
        if !utils::safe_pkg_name(pkg@) {
            r is Err && r->Err_0@ == "Invalid Nix package name '"@ + pkg@ + "'."@
        } else if !available {
            r is Err && r->Err_0@ == "'nix' command not found on this system."@
        } else {
            let target = "nixpkgs#"@ + pkg@;
            &&& r is Ok
            &&& pm::runs(
                r->Ok_0.0,
                "nix"@,
                seq!["run"@, target] + (if args@.len() > 0 {
                    seq!["--"@] + text::texts(args@)
                } else {
                    Seq::<Seq<char>>::empty()
                }),
            )
            &&& pm::runs(
                r->Ok_0.1,
                "nix-shell"@,
                seq!["-p"@, pkg@, "--run"@, text::join(quoted_all(seq![pkg@] + text::texts(args@)), " "@)],
            )
        },
{
    if !is_safe_pkg_name(pkg) {
        let mut e: String = "Invalid Nix package name '".to_string();
        e.append(pkg);
        e.append("'.");
        return Err(e);
    }
    if !available {
        return Err("'nix' command not found on this system.".to_string());
    }
    let mut target: String = "nixpkgs#".to_string();
    target.append(pkg);
    let mut a = no_strings();
    push_str(&mut a, "run");
    push_str(&mut a, &target);
    assert(text::texts(a@) =~= seq!["run"@, target@]);
    let ghost head = text::texts(a@);
    if args.len() > 0 {
        push_str(&mut a, "--");
        push_strs(&mut a, args);
        assert(text::texts(a@) =~= head + (seq!["--"@] + text::texts(args@)));
    } else {
        assert(head + Seq::<Seq<char>>::empty() =~= head);
    }
    let mut words = no_strings();
    push_str(&mut words, pkg);
    push_strs(&mut words, args);
    assert(text::texts(words@) =~= seq![pkg@] + text::texts(args@));
    let q = quote_all(&words);
    let line = join_strings(&q, " ");
    let mut b = no_strings();
    push_str(&mut b, "-p");
    push_str(&mut b, pkg);
    push_str(&mut b, "--run");
    push_str(&mut b, &line);
    assert(text::texts(b@) =~= seq!["-p"@, pkg@, "--run"@, line@]);
    Ok(
        (
            CommandLine { program: "nix".to_string(), args: a },
            CommandLine { program: "nix-shell".to_string(), args: b },
        ),
    )
}

/// Each word quoted for a shell.
pub open spec fn quoted_all(words: Seq<Seq<char>>) -> Seq<Seq<char>> {
    Seq::new(words.len(), |i: int| utils::quoted(words[i]))
}

fn quote_all(words: &Vec<String>) -> (r: Vec<String>)
    ensures
        text::texts(r@) == quoted_all(text::texts(words@)),
{
    let mut out: Vec<String> = Vec::new();
    let mut i: usize = 0;
    while i < words.len()
        invariant
            i <= words@.len(),
            out@.len() == i,
            forall|j: int| 0 <= j < i ==> (#[trigger] out@[j])@ == utils::quoted(words@[j]@),
        decreases words@.len() - i,
    {
        out.push(shell_quote(&words[i]));
        i += 1;
    }
    assert(text::texts(out@) =~= quoted_all(text::texts(words@)));
    out
}

/// The command that runs a Pipx package.
pub fn try_pipx(pkg: &str, args: &Vec<String>, available: bool) -> (r: Result<CommandLine, String>)
    ensures
        if !utils::safe_pkg_name(pkg@) {
            r is Err && r->Err_0@ == "Invalid Pipx package name '"@ + pkg@ + "'."@
        } else if !available {
            r is Err && r->Err_0@ == "'pipx' command not found on this system."@
        } else {
            r is Ok && pm::runs(r->Ok_0, "pipx"@, seq!["run"@, pkg@] + text::texts(args@))
        },
{
    if !is_safe_pkg_name(pkg) {
        let mut e: String = "Invalid Pipx package name '".to_string();
        e.append(pkg);
        e.append("'.");
        return Err(e);
    }
    if !available {
        return Err("'pipx' command not found on this system.".to_string());
    }
    Ok(run_words("pipx", pkg, args))
}

// ---------------------------------------------------------------------------------------
// Directories of sandboxes

/// The small hexadecimal digit for a value below sixteen.
pub open spec fn small_hex(v: u8) -> char {
    if v < 10 {
        (48 + v) as u8 as char
    } else {
        (87 + v) as u8 as char
    }
}

pub open spec fn hex_of(bytes: Seq<u8>) -> Seq<char>
    decreases bytes.len(),
{
    if bytes.len() == 0 {
        Seq::empty()
    } else {
        hex_of(bytes.drop_last()).push(small_hex(bytes.last() / 16)).push(
            small_hex(bytes.last() % 16),
        )
    }
}

fn hex_char_small(v: u8) -> (r: char)
    requires
        v < 16,
    ensures
        r == small_hex(v),
{
    if v < 10 {
        (48 + v) as char
    } else {
        (87 + v) as char
    }
}

pub fn hex_text(bytes: &Vec<u8>) -> (r: String)
    ensures
        r@ == hex_of(bytes@),
{
    let mut out: String = String::new();
    let mut i: usize = 0;
    assert(bytes@.take(0) =~= Seq::<u8>::empty());
    while i < bytes.len()
        invariant
            i <= bytes@.len(),
            out@ == hex_of(bytes@.take(i as int)),
        decreases bytes@.len() - i,
    {
        let b: u8 = bytes[i];
        proof {
            assert(bytes@.take(i + 1).drop_last() =~= bytes@.take(i as int));
            assert(bytes@.take(i + 1).last() == b);
        }
        out.push(hex_char_small(b / 16));
        out.push(hex_char_small(b % 16));
        i += 1;
    }
    assert(bytes@.take(bytes@.len() as int) =~= bytes@);
    out
}

/// The name of the directory of a sandbox: a prefix, the process it belongs to, and a random
/// part.
pub open spec fn dir_name(prefix: Seq<char>, pid: u32, random: Seq<u8>) -> Seq<char> {
    prefix + "-pid"@ + text::digits_of(pid as nat) + "-"@ + hex_of(random)
}

pub fn sandbox_dir_name(prefix: &str, pid: u32, random: &Vec<u8>) -> (r: String)
    ensures
        r@ == dir_name(prefix@, pid, random@),
{
    let mut out: String = prefix.to_string();
    out.append("-pid");
    let n = number_text(pid as u64);
    out.append(&n);
    out.append("-");
    let h = hex_text(random);
    out.append(&h);
    out
}

/// The directory below the runtime directory that holds sandboxes of this prefix.
pub fn sandbox_subdir(prefix: &str) -> (r: &'static str)
    ensures
        r@ == if text::begins(prefix@, "pacpin-run"@) {
            "run"@
        } else {
            "try"@
        },
{
    if starts_with(prefix, "pacpin-run") {
        "run"
    } else {
        "try"
    }
}

/// Whom the directory of a sandbox belongs to.
#[derive(Debug, Clone, Copy, PartialEq, Eq, Structural)]
pub enum Owner {
    /// It is no directory of a sandbox.
    Foreign,
    Process(i32),
    /// Its name tells no process.
    Unknown,
}

/// A directory of a sandbox by its name.
pub open spec fn sandbox_name(name: Seq<char>) -> bool {
    text::begins(name, "pacpin-run-"@) || text::begins(name, "pacpin-try-"@)
}

/// The process number in a name: behind the last `-pid`, up to the next hyphen.
pub open spec fn named_pid(name: Seq<char>) -> Option<int> {
    match text::cut_last(name, "-pid"@) {
        Some((_, suffix)) => match text::number(text::split_on(suffix, '-')[0], i32::MAX as int) {
            Some(n) => if n > 0 {
                Some(n)
            } else {
                None
            },
            None => None,
        },
        None => None,
    }
}

pub fn sandbox_owner(name: &str) -> (r: Owner)
    ensures
        match r {
            Owner::Foreign => !sandbox_name(name@),
            Owner::Process(p) => sandbox_name(name@) && named_pid(name@) == Some(p as int) && p > 0,
            Owner::Unknown => sandbox_name(name@) && named_pid(name@) is None,
        },
{
    if !starts_with(name, "pacpin-run-") && !starts_with(name, "pacpin-try-") {
        return Owner::Foreign;
    }
    if let Some((_, suffix)) = cut_at_last(name, "-pid") {
        let parts = split_string(&suffix, '-');
        assert(text::texts(parts@)[0] == parts@[0]@);
        if let Some(n) = parse_number(&parts[0], i32::MAX as u64) {
            if n > 0 {
                return Owner::Process(n as i32);
            }
        }
    }
    Owner::Unknown
}

/// Whether a directory is a stale sandbox: its process is gone, or nobody knows its process
/// and it is at least a day old. `gone` says whether the process is known not to exist,
/// `age_seconds` how old the directory is, if that can be told.
pub fn should_clean_stale_sandbox(name: &str, gone: bool, age_seconds: Option<u64>) -> (r: bool)
    ensures
        r == (sandbox_name(name@) && match named_pid(name@) {
            Some(_) => gone,
            None => match age_seconds {
                Some(a) => a >= 86400,
                None => false,
            },
        }),
        r ==> sandbox_name(name@),
        r && named_pid(name@) is Some ==> gone,
        r && named_pid(name@) is None ==> age_seconds is Some && age_seconds->0 >= 86400,
{
    match sandbox_owner(name) {
        Owner::Foreign => false,
        Owner::Process(_) => gone,
        Owner::Unknown => match age_seconds {
            Some(a) => a >= 86400,
            None => false,
        },
    }
}

proof fn hex_has_no_hyphen(bytes: Seq<u8>)
    ensures
        forall|i: int|
            0 <= i < hex_of(bytes).len() ==> #[trigger] hex_of(bytes)[i] != '-' && hex_of(bytes)[i]
                != 'p',
    decreases bytes.len(),
{
    if bytes.len() > 0 {
        hex_has_no_hyphen(bytes.drop_last());
        let head = hex_of(bytes.drop_last());
        let all = hex_of(bytes);
        assert forall|i: int| 0 <= i < all.len() implies #[trigger] all[i] != '-' && all[i] != 'p' by {
            if i < head.len() {
                assert(all[i] == head[i]);
            }
        }
    }
}

proof fn last_before_is(s: Seq<char>, p: Seq<char>, from: int, at: int)
    requires
        0 <= at <= from,
        text::stands_at(s, p, at),
        forall|i: int| at < i <= from ==> !text::stands_at(s, p, i),
    ensures
        text::last_before(s, p, from) == Some(at),
    decreases from - at,
{
    if from > at {
        assert(!text::stands_at(s, p, from));
        last_before_is(s, p, from - 1, at);
    }
}

proof fn split_first(s: Seq<char>, c: char, start: int, i: int, k: int)
    requires
        0 <= start <= i <= k < s.len(),
        s[k] == c,
        forall|j: int| i <= j < k ==> s[j] != c,
    ensures
        text::split_from(s, c, start, i).len() > 0,
        text::split_from(s, c, start, i)[0] == s.subrange(start, k),
    decreases k - i,
{
    if i < k {
        assert(s[i] != c);
        split_first(s, c, start, i + 1, k);
    }
}

/// The process that a sandbox was made by can be read back from the name of its directory,
/// so the sandbox of a running process is never taken for a stale one.
pub proof fn owner_is_read_back(prefix: Seq<char>, pid: u32, random: Seq<u8>)
    requires
        0 < pid <= i32::MAX,
    ensures
        named_pid(dir_name(prefix, pid, random)) == Some(pid as int),
{
    reveal_strlit("-pid");
    reveal_strlit("-");
    let mark = "-pid"@;
    let d = text::digits_of(pid as nat);
    let h = hex_of(random);
    let s = dir_name(prefix, pid, random);
    let at = prefix.len() as int;
    let tail = d + "-"@ + h;
    hex_has_no_hyphen(random);
    text::digits_read_back(pid as nat);
    assert(s =~= prefix + mark + tail);
    assert(s.subrange(at, at + 4) =~= mark);
    assert forall|i: int| at < i <= s.len() implies !text::stands_at(s, mark, i) by {
        if text::stands_at(s, mark, i) {
            let w = s.subrange(i, i + 4);
            assert(w[0] == s[i] && w[1] == s[i + 1]);
            assert(mark[0] == '-' && mark[1] == 'p');
            if i < at + 4 {
                assert(s[i] == mark[i - at]);
                assert(mark[1] == 'p' && mark[2] == 'i' && mark[3] == 'd');
            } else {
                let j = i - at - 4;
                assert(s[i] == tail[j]);
                assert(s[i + 1] == tail[j + 1]);
                if j < d.len() {
                    assert(tail[j] == d[j]);
                    assert(text::is_digit(d[j]));
                } else if j == d.len() {
                    assert(tail[j + 1] == h[0]);
                } else {
                    assert(tail[j] == h[j - d.len() - 1]);
                }
            }
        }
    }
    last_before_is(s, mark, s.len() as int, at);
    assert(s.skip(at + 4) =~= tail);
    assert(tail[d.len() as int] == '-');
    assert forall|j: int| 0 <= j < d.len() implies tail[j] != '-' by {
        assert(tail[j] == d[j]);
        assert(text::is_digit(d[j]));
    }
    split_first(tail, '-', 0, 0, d.len() as int);
    assert(tail.subrange(0, d.len() as int) =~= d);
    text::number_round_trip(pid as nat, i32::MAX as int);
}

/// What is known of a directory.
#[derive(Debug, Clone, Copy, PartialEq, Eq, Structural)]
pub struct DirFacts {
    pub is_dir: bool,
    pub is_symlink: bool,
    /// It belongs to the user who runs the program.
    pub owned: bool,
    pub mode: u32,
}

/// A directory, no link to one, of the user, that nobody else has any access to.
pub open spec fn private_dir(f: DirFacts) -> bool {
    f.is_dir && !f.is_symlink && f.owned && f.mode % 64 == 0
}

pub fn is_private_dir(f: DirFacts) -> (r: bool)
    ensures
        r == private_dir(f),
{
    f.is_dir && !f.is_symlink && f.owned && f.mode % 64 == 0
}

/// Whether sandboxes may be put below a runtime directory; `facts` tells of the directory,
/// where anything is known of it.
pub fn check_runtime_dir(runtime: &str, facts: Option<DirFacts>) -> (r: Result<(), String>)
    ensures
        if text::begins(runtime@, "/"@) && facts is Some && private_dir(facts->0) {
            r is Ok
        } else {
            r is Err && r->Err_0@
                == "XDG_RUNTIME_DIR must be a private directory owned by the current user"@
        },
{
    let private: bool = match facts {
        Some(f) => is_private_dir(f),
        None => false,
    };
    if starts_with(runtime, "/") && private {
        Ok(())
    } else {
        Err("XDG_RUNTIME_DIR must be a private directory owned by the current user".to_string())
    }
}

/// The directories to be made below the runtime directory, outer one first.
pub fn private_runtime_subdir(runtime: &str, sub: &str) -> (r: (String, String))
    ensures
        r.0@ == paths::joined(runtime@, "pacpin"@),
        r.1@ == paths::joined(paths::joined(runtime@, "pacpin"@), sub@),
{
    let parent = join_path(runtime, "pacpin");
    let child = join_path(&parent, sub);
    (parent, child)
}

/// A name without separators that is neither the directory itself nor its parent.
pub open spec fn plain_component(s: Seq<char>) -> bool {
    &&& s.len() > 0
    &&& s != "."@
    &&& s != ".."@
    &&& !s.contains('/')
    &&& !s.contains('\\')
    &&& !s.contains('\0')
}

pub fn is_plain_component(s: &str) -> (r: bool)
    ensures
        r == plain_component(s@),
{
    !s.is_empty() && !str_eq(s, ".") && !str_eq(s, "..") && !contains_char(s, '/')
        && !contains_char(s, '\\') && !contains_char(s, '\0')
}

/// The socket of a Wayland display to share: its name is a plain one, the runtime directory
/// is private, and what lies there is a socket.
pub fn safe_wayland_socket(
    runtime: &str,
    display: &str,
    facts: Option<DirFacts>,
    is_socket: bool,
) -> (r: Option<String>)
    ensures
        text::opt_text(r) == if plain_component(display@) && facts is Some && private_dir(facts->0)
            && is_socket {
            Some(paths::joined(runtime@, display@))
        } else {
            None
        },
{
    let private: bool = match facts {
        Some(f) => is_private_dir(f),
        None => false,
    };
    if is_plain_component(display) && private && is_socket {
        Some(join_path(runtime, display))
    } else {
        None
    }
}

/// The path `p` is `base` or lies below it; both are absolute and without detours.
pub open spec fn within(p: Seq<char>, base: Seq<char>) -> bool {
    p == base || base == "/"@ || text::begins(p, base + "/"@)
}

fn is_within(p: &str, base: &str) -> (r: bool)
    ensures
        r == within(p@, base@),
{
    if str_eq(p, base) || str_eq(base, "/") {
        return true;
    }
    let mut prefix: String = base.to_string();
    prefix.append("/");
    starts_with(p, &prefix)
}

/// The directories of the system that are never shared as current directory.
pub open spec fn protected_dirs() -> Seq<Seq<char>> {
    seq![
        "/bin"@,
        "/boot"@,
        "/dev"@,
        "/etc"@,
        "/lib"@,
        "/lib64"@,
        "/proc"@,
        "/run"@,
        "/sbin"@,
        "/sys"@,
        "/tmp"@,
        "/usr"@,
        "/var"@,
    ]
}

pub open spec fn protected(p: Seq<char>) -> bool {
    exists|i: int| 0 <= i < protected_dirs().len() && within(p, #[trigger] protected_dirs()[i])
}

/// The current directory may be shared with a sandbox.
pub open spec fn shareable(cwd: Seq<char>, home: Seq<char>) -> bool {
    cwd != "/"@ && !within(cwd, home) && !within(home, cwd) && !protected(cwd)
}

fn is_protected(p: &str) -> (r: bool)
    ensures
        r == protected(p@),
{
    let dirs: Vec<&'static str> = vec![
        "/bin",
        "/boot",
        "/dev",
        "/etc",
        "/lib",
        "/lib64",
        "/proc",
        "/run",
        "/sbin",
        "/sys",
        "/tmp",
        "/usr",
        "/var",
    ];
    let ghost all = protected_dirs();
    let mut i: usize = 0;
    while i < dirs.len()
        invariant
            i <= dirs@.len(),
            dirs@.len() == 13,
            all == protected_dirs(),
            all.len() == 13,
            forall|j: int| 0 <= j < 13 ==> (#[trigger] dirs@[j])@ == all[j],
            forall|j: int| 0 <= j < i ==> !within(p@, #[trigger] all[j]),
        decreases 13 - i,
    {
        if is_within(p, dirs[i]) {
            assert(within(p@, all[i as int]));
            return true;
        }
        i += 1;
    }
    false
}

/// Whether the current directory is shared with a sandbox: never the root, the home
/// directory, anything in it or above it, nor a directory of the system. Both paths are
/// absolute and without detours, and missing where they cannot be told.
pub fn should_bind_cwd(cwd: Option<&str>, home: Option<&str>) -> (r: bool)
    ensures
        r == match (cwd, home) {
            (Some(c), Some(h)) => shareable(c@, h@),
            _ => false,
        },
{
    match (cwd, home) {
        (Some(c), Some(h)) => !str_eq(c, "/") && !is_within(c, h) && !is_within(h, c)
            && !is_protected(c),
        _ => false,
    }
}

/// No directory in the home directory and none that holds it is ever shared.
pub proof fn home_is_never_shared(cwd: Seq<char>, home: Seq<char>)
    requires
        within(cwd, home) || within(home, cwd),
    ensures
        !shareable(cwd, home),
{
}

// ---------------------------------------------------------------------------------------
// Finding the program to run

/// `s` without the leading `lib`, however often it stands there.
pub open spec fn without_lib(s: Seq<char>) -> Seq<char>
    decreases s.len(),
{
    if text::begins(s, "lib"@) && s.len() >= 3 {
        without_lib(s.skip(3))
    } else {
        s
    }
}

fn strip_lib(s: &str) -> (r: String)
    ensures
        r@ == without_lib(s@),
    decreases s@.len(),
{
    proof {
        reveal_strlit("lib");
    }
    if starts_with(s, "lib") {
        let cs = chars_of(s);
        let rest = sub_string(&cs, 3, cs.len());
        assert(rest@ =~= s@.skip(3));
        strip_lib(&rest)
    } else {
        s.to_string()
    }
}

/// A name that can be asked for: plain, and not like a flag.
pub open spec fn askable(name: Seq<char>) -> bool {
    plain_component(name) && !text::begins(name, "-"@)
}

/// The list in ascending order without repetitions.
pub open spec fn sorted_distinct(list: Seq<Seq<char>>, sorted: Seq<Seq<char>>) -> bool {
    text::ascending(sorted) && forall|t: Seq<char>| #[trigger] sorted.contains(t) <==> list.contains(t)
}

fn sort_distinct(list: &Vec<String>) -> (r: Vec<String>)
    ensures
        sorted_distinct(text::texts(list@), text::texts(r@)),
{
    let mut out: Vec<String> = Vec::new();
    let mut i: usize = 0;
    let ghost all = text::texts(list@);
    assert(all.take(0) =~= Seq::<Seq<char>>::empty());
    while i < list.len()
        invariant
            i <= list@.len(),
            all == text::texts(list@),
            text::ascending(text::texts(out@)),
            forall|t: Seq<char>| #[trigger]
                text::texts(out@).contains(t) <==> all.take(i as int).contains(t),
        decreases list@.len() - i,
    {
        let ghost a = all.take(i as int);
        let ghost b = all.take(i + 1);
        insert_ascending(&mut out, list[i].clone());
        proof {
            assert(b =~= a.push(list@[i as int]@));
            assert forall|t: Seq<char>| #[trigger] text::texts(out@).contains(t) <==> b.contains(t) by {
                if a.contains(t) {
                    let k = choose|k: int| 0 <= k < a.len() && a[k] == t;
                    assert(b[k] == t);
                }
                if b.contains(t) {
                    let k = choose|k: int| 0 <= k < b.len() && b[k] == t;
                    if k < i {
                        assert(a[k] == t);
                    }
                }
                if t == list@[i as int]@ {
                    assert(b[i as int] == t);
                }
            }
        }
        i += 1;
    }
    assert(all.take(all.len() as int) =~= all);
    out
}

/// The names of files in a list of paths.
pub open spec fn base_names(paths: Seq<Seq<char>>) -> Seq<Seq<char>> {
    Seq::new(paths.len(), |i: int| paths::base_name(paths[i]))
}

/// The first path from `i` on whose file has this name.
pub open spec fn named_from(paths: Seq<Seq<char>>, name: Seq<char>, i: int) -> Option<int>
    decreases paths.len() - i,
{
    if i < 0 || i >= paths.len() {
        None
    } else if paths::base_name(paths[i]) == name {
        Some(i)
    } else {
        named_from(paths, name, i + 1)
    }
}

/// The program of a package to run, where `executables` are all executable files in the two
/// directories for programs, and `sorted` the same in order: the one that was asked for; else
/// the one that is named like the package; else the only one; else the one that is named like
/// the package without a leading `lib`. Where this decides nothing, the choice is refused.
pub open spec fn program_of(
    dir: Seq<char>,
    pkg: Seq<char>,
    requested: Option<Seq<char>>,
    executables: Seq<Seq<char>>,
    sorted: Seq<Seq<char>>,
) -> Result<Seq<char>, Seq<char>> {
    let bin = paths::joined(paths::joined(dir, "usr"@), "bin"@);
    let sbin = paths::joined(paths::joined(dir, "usr"@), "sbin"@);
    match requested {
        Some(name) => if !askable(name) {
            Err("--bin must name a single executable within the package"@)
        } else if executables.contains(paths::joined(bin, name)) {
            Ok(paths::joined(bin, name))
        } else if executables.contains(paths::joined(sbin, name)) {
            Ok(paths::joined(sbin, name))
        } else {
            Err(
                "Requested binary '"@ + name + "' not found in package usr/bin or usr/sbin."@,
            )
        },
        None => if executables.contains(paths::joined(bin, pkg)) {
            Ok(paths::joined(bin, pkg))
        } else if executables.contains(paths::joined(sbin, pkg)) {
            Ok(paths::joined(sbin, pkg))
        } else if sorted.len() == 0 {
            Err(
                "No executable found for package '"@ + pkg
                    + "' in sandbox (usr/bin or usr/sbin)."@,
            )
        } else if sorted.len() == 1 {
            Ok(sorted[0])
        } else {
            match named_from(sorted, without_lib(pkg), 0) {
                Some(i) => Ok(sorted[i]),
                None => Err(
                    "Package '"@ + pkg + "' provides multiple executables: "@ + text::join(
                        base_names(sorted),
                        ", "@,
                    ) + "\n  Specify which binary to run using: pacpin try --bin <binary> "@ + pkg,
                ),
            }
        },
    }
}

pub fn find_executable(
    sandbox_dir: &str,
    pkg: &str,
    requested_bin: Option<&str>,
    executables: &Vec<String>,
) -> (r: Result<String, String>)
    ensures
        exists|sorted: Seq<Seq<char>>| #[trigger]
            sorted_distinct(text::texts(executables@), sorted) && program_of(
                sandbox_dir@,
                pkg@,
                match requested_bin {
                    Some(b) => Some(b@),
                    None => None,
                },
                text::texts(executables@),
                sorted,
            ) == (match r {
                Ok(p) => Ok::<Seq<char>, Seq<char>>(p@),
                Err(e) => Err::<Seq<char>, Seq<char>>(e@),
            }),
{
    let usr = join_path(sandbox_dir, "usr");
    let bin = join_path(&usr, "bin");
    let sbin = join_path(&usr, "sbin");
    let sorted = sort_distinct(executables);
    let ghost order = text::texts(sorted@);
    assert(sorted_distinct(text::texts(executables@), order));
    if let Some(name) = requested_bin {
        if !is_plain_component(name) || starts_with(name, "-") {
            return Err("--bin must name a single executable within the package".to_string());
        }
        let p1 = join_path(&bin, name);
        if list_contains(executables, &p1) {
            return Ok(p1);
        }
        let p2 = join_path(&sbin, name);
        if list_contains(executables, &p2) {
            return Ok(p2);
        }
        let mut e: String = "Requested binary '".to_string();
        e.append(name);
        e.append("' not found in package usr/bin or usr/sbin.");
        return Err(e);
    }
    let direct = join_path(&bin, pkg);
    if list_contains(executables, &direct) {
        return Ok(direct);
    }
    let direct_sbin = join_path(&sbin, pkg);
    if list_contains(executables, &direct_sbin) {
        return Ok(direct_sbin);
    }
    if sorted.len() == 0 {
        let mut e: String = "No executable found for package '".to_string();
        e.append(pkg);
        e.append("' in sandbox (usr/bin or usr/sbin).");
        return Err(e);
    }
    if sorted.len() == 1 {
        assert(order[0] == sorted@[0]@);
        return Ok(sorted[0].clone());
    }
    let wanted = strip_lib(pkg);
    let mut names: Vec<String> = Vec::new();
    let mut i: usize = 0;
    while i < sorted.len()
        invariant
            i <= sorted@.len(),
            order == text::texts(sorted@),
            wanted@ == without_lib(pkg@),
            requested_bin is None,
            sorted_distinct(text::texts(executables@), order),
            !text::texts(executables@).contains(paths::joined(paths::joined(paths::joined(sandbox_dir@, "usr"@), "bin"@), pkg@)),
            !text::texts(executables@).contains(
                paths::joined(paths::joined(paths::joined(sandbox_dir@, "usr"@), "sbin"@), pkg@),
            ),
            order.len() > 1,
            names@.len() == i,
            forall|j: int| 0 <= j < i ==> (#[trigger] names@[j])@ == paths::base_name(order[j]),
            named_from(order, wanted@, 0) == named_from(order, wanted@, i as int),
        decreases sorted@.len() - i,
    {
        assert(order[i as int] == sorted@[i as int]@);
        let n = last_component(&sorted[i]);
        if str_eq(&n, &wanted) {
            return Ok(sorted[i].clone());
        }
        names.push(n);
        i += 1;
    }
    assert(text::texts(names@) =~= base_names(order));
    let list = join_strings(&names, ", ");
    let mut e: String = "Package '".to_string();
    e.append(pkg);
    e.append("' provides multiple executables: ");
    e.append(&list);
    e.append("\n  Specify which binary to run using: pacpin try --bin <binary> ");
    e.append(pkg);
    Err(e)
}

/// Every program that is run is one of the executables of the package.
pub proof fn program_is_of_the_package(
    dir: Seq<char>,
    pkg: Seq<char>,
    requested: Option<Seq<char>>,
    executables: Seq<Seq<char>>,
    sorted: Seq<Seq<char>>,
)
    requires
        sorted_distinct(executables, sorted),
        program_of(dir, pkg, requested, executables, sorted) is Ok,
    ensures
        executables.contains(program_of(dir, pkg, requested, executables, sorted)->Ok_0),
{
    let p = program_of(dir, pkg, requested, executables, sorted)->Ok_0;
    if !executables.contains(p) {
        if sorted.len() == 1 {
            assert(sorted.contains(sorted[0]));
        } else {
            named_in_range(sorted, without_lib(pkg), 0);
            let i = named_from(sorted, without_lib(pkg), 0)->0;
            assert(sorted.contains(sorted[i]));
        }
    }
}

proof fn named_in_range(paths: Seq<Seq<char>>, name: Seq<char>, i: int)
    requires
        0 <= i <= paths.len(),
    ensures
        match named_from(paths, name, i) {
            Some(k) => i <= k < paths.len() && paths::base_name(paths[k]) == name,
            None => true,
        },
    decreases paths.len() - i,
{
    if i < paths.len() && paths::base_name(paths[i]) != name {
        named_in_range(paths, name, i + 1);
    }
}

/// Whether a file can be executed by anybody.
pub fn is_executable_file(is_file: bool, mode: u32) -> (r: bool)
    ensures
        r == (is_file && (mode % 2 == 1 || mode / 8 % 2 == 1 || mode / 64 % 2 == 1)),
{
    is_file && (mode % 2 == 1 || mode / 8 % 2 == 1 || mode / 64 % 2 == 1)
}

// ---------------------------------------------------------------------------------------
// What has to be removed again

/// The paths that are removed when the program is interrupted.
pub struct CleanupRegistry {
    pub targets: Vec<String>,
    pub terminating: bool,
}

impl CleanupRegistry {
    pub fn new() -> (r: Self)
        ensures
            text::texts(r.targets@) == Seq::<Seq<char>>::empty(),
            !r.terminating,
    {
        CleanupRegistry { targets: no_strings(), terminating: false }
    }
}

pub fn is_terminating(registry: &CleanupRegistry) -> (r: bool)
    ensures
        r == registry.terminating,
{
    registry.terminating
}

/// Takes a path into the registry; where the program is being ended already, the path is to
/// be removed at once instead, which is what `true` says.
pub fn register_cleanup_target(registry: &mut CleanupRegistry, path: &str) -> (r: bool)
    ensures
        r == old(registry).terminating,
        final(registry).terminating == old(registry).terminating,
        text::texts(final(registry).targets@) == if old(registry).terminating {
            text::texts(old(registry).targets@)
        } else {
            db::add_new(text::texts(old(registry).targets@), path@)
        },
{
    if registry.terminating {
        return true;
    }
    push_new(&mut registry.targets, path);
    false
}

/// `s` without `x`.
pub open spec fn without(s: Seq<Seq<char>>, x: Seq<char>, n: int) -> Seq<Seq<char>>
    decreases n,
{
    if n <= 0 {
        Seq::empty()
    } else if s[n - 1] == x {
        without(s, x, n - 1)
    } else {
        without(s, x, n - 1).push(s[n - 1])
    }
}

/// A list without one text.
pub fn without_text(list: &Vec<String>, x: &str) -> (r: Vec<String>)
    ensures
        text::texts(r@) == without(text::texts(list@), x@, list@.len() as int),
{
    let mut out = no_strings();
    let mut i: usize = 0;
    while i < list.len()
        invariant
            i <= list@.len(),
            text::texts(out@) == without(text::texts(list@), x@, i as int),
        decreases list@.len() - i,
    {
        assert(text::texts(list@)[i as int] == list@[i as int]@);
        if !str_eq(&list[i], x) {
            push_str(&mut out, &list[i]);
        }
        i += 1;
    }
    out
}

/// Takes a path out of the registry.
pub fn unregister_cleanup_target(registry: &mut CleanupRegistry, path: &str)
    ensures
        final(registry).terminating == old(registry).terminating,
        text::texts(final(registry).targets@) == without(
            text::texts(old(registry).targets@),
            path@,
            old(registry).targets@.len() as int,
        ),
{
    registry.targets = without_text(&registry.targets, path);
}

/// Empties the registry: what comes back is to be removed.
pub fn cleanup_active_targets(registry: &mut CleanupRegistry) -> (r: Vec<String>)
    ensures
        text::texts(r@) == text::texts(old(registry).targets@),
        text::texts(final(registry).targets@) == Seq::<Seq<char>>::empty(),
        final(registry).terminating == old(registry).terminating,
{
    let out = clone_strings(&registry.targets);
    registry.targets = no_strings();
    out
}

proof fn without_lacks(s: Seq<Seq<char>>, x: Seq<char>, n: int)
    requires
        0 <= n <= s.len(),
    ensures
        !without(s, x, n).contains(x),
    decreases n,
{
    if n > 0 {
        without_lacks(s, x, n - 1);
        let a = without(s, x, n - 1);
        let b = a.push(s[n - 1]);
        if s[n - 1] != x && b.contains(x) {
            let k = choose|k: int| 0 <= k < b.len() && b[k] == x;
            assert(a[k] == x);
        }
    }
}

/// A path that was taken out is not removed by a later cleanup.
pub proof fn unregistered_path_is_kept(targets: Seq<Seq<char>>, path: Seq<char>)
    ensures
        !without(targets, path, targets.len() as int).contains(path),
{
    without_lacks(targets, path, targets.len() as int);
}

/// The directory of a sandbox and the archives that were downloaded for it.
pub struct SandboxGuard {
    pub sandbox_dir: String,
    pub downloaded_tarballs: Vec<String>,
}

impl SandboxGuard {
    /// Begins to guard a directory; `true` in the second place says that it is to be removed
    /// at once, because the program is being ended.
    pub fn new(registry: &mut CleanupRegistry, sandbox_dir: &str) -> (r: (Self, bool))
        ensures
            r.0.sandbox_dir@ == sandbox_dir@,
            text::texts(r.0.downloaded_tarballs@) == Seq::<Seq<char>>::empty(),
            r.1 == old(registry).terminating,
            final(registry).terminating == old(registry).terminating,
            text::texts(final(registry).targets@) == if old(registry).terminating {
                text::texts(old(registry).targets@)
            } else {
                db::add_new(text::texts(old(registry).targets@), sandbox_dir@)
            },
    {
        let now = register_cleanup_target(registry, sandbox_dir);
        (
            SandboxGuard {
                sandbox_dir: sandbox_dir.to_string(),
                downloaded_tarballs: no_strings(),
            },
            now,
        )
    }

    /// Takes an archive into the registry, but only one that was downloaded for this
    /// sandbox: archives of the package cache stay.
    pub fn register_tarball(&self, registry: &mut CleanupRegistry, tarball: &str) -> (r: bool)
        ensures
            r == (old(registry).terminating && text::texts(self.downloaded_tarballs@).contains(tarball@)),
            final(registry).terminating == old(registry).terminating,
            text::texts(final(registry).targets@) == if text::texts(self.downloaded_tarballs@).contains(
                tarball@,
            ) && !old(registry).terminating {
                db::add_new(text::texts(old(registry).targets@), tarball@)
            } else {
                text::texts(old(registry).targets@)
            },
    {
        if list_contains(&self.downloaded_tarballs, tarball) {
            register_cleanup_target(registry, tarball)
        } else {
            false
        }
    }

    /// What is to be removed when the sandbox ends: its directory and its archives.
    pub fn leftovers(&self) -> (r: Vec<String>)
        ensures
            text::texts(r@) == seq![self.sandbox_dir@] + text::texts(self.downloaded_tarballs@),
    {
        let mut out = no_strings();
        push_str(&mut out, &self.sandbox_dir);
        assert(text::texts(out@) =~= seq![self.sandbox_dir@]);
        push_strs(&mut out, &self.downloaded_tarballs);
        out
    }
}

// ---------------------------------------------------------------------------------------
// Downloads side by side

/// How many archives are downloaded at the same time.
pub const MAX_PARALLEL_DOWNLOADS: usize = 2;

/// The end of the batch of downloads that begins at `from`.
pub fn batch_end(from: usize, total: usize) -> (r: usize)
    requires
        from <= total,
    ensures
        r == if total - from > MAX_PARALLEL_DOWNLOADS {
            from + MAX_PARALLEL_DOWNLOADS
        } else {
            total as int
        },
{
    if total - from > MAX_PARALLEL_DOWNLOADS {
        from + MAX_PARALLEL_DOWNLOADS
    } else {
        total
    }
}

/// The result of a download: the archive, or why there is none.
pub open spec fn result_text(r: Result<String, String>) -> Result<Seq<char>, Seq<char>> {
    match r {
        Ok(p) => Ok(p@),
        Err(e) => Err(e@),
    }
}

/// The first failure from `i` on.
pub open spec fn failure_from(rs: Seq<Result<String, String>>, i: int) -> Option<Seq<char>>
    decreases rs.len() - i,
{
    if i < 0 || i >= rs.len() {
        None
    } else {
        match rs[i] {
            Err(e) => Some(e@),
            Ok(_) => failure_from(rs, i + 1),
        }
    }
}

/// The archives of a batch in the order of its targets, or its first failure.
pub fn download_targets_parallel(results: &Vec<Result<String, String>>) -> (r: Result<
    Vec<String>,
    String,
>)
    ensures
        match r {
            Ok(v) => {
                &&& failure_from(results@, 0) is None
                &&& v@.len() == results@.len()
                &&& forall|i: int|
                    0 <= i < results@.len() ==> result_text(#[trigger] results@[i]) == Ok::<
                        Seq<char>,
                        Seq<char>,
                    >(v@[i]@)
            },
            Err(e) => failure_from(results@, 0) == Some(e@),
        },
{
    let mut out: Vec<String> = Vec::new();
    let mut i: usize = 0;
    while i < results.len()
        invariant
            i <= results@.len(),
            failure_from(results@, 0) == failure_from(results@, i as int),
            out@.len() == i,
            forall|j: int|
                0 <= j < i ==> result_text(#[trigger] results@[j]) == Ok::<Seq<char>, Seq<char>>(
                    out@[j]@,
                ),
        decreases results@.len() - i,
    {
        match &results[i] {
            Ok(p) => {
                out.push(p.clone());
            },
            Err(e) => {
                return Err(e.clone());
            },
        }
        i += 1;
    }
    Ok(out)
}

/// What a download has come to, and all files that it has made.
pub open spec fn made_upto(fetched: Seq<(Result<String, String>, Vec<String>)>, n: int) -> Seq<Seq<char>>
    decreases n,
{
    if n <= 0 {
        Seq::empty()
    } else {
        made_upto(fetched, n - 1) + text::texts(fetched[n - 1].1@)
    }
}

pub open spec fn results_of(fetched: Seq<(Result<String, String>, Vec<String>)>) -> Seq<
    Result<String, String>,
> {
    Seq::new(fetched.len(), |i: int| fetched[i].0)
}

/// Takes the downloads of a batch: all files that they have made are the guard's from now on,
/// whether the downloads succeeded or not. The archives in the order of their targets, or the
/// first failure.
pub fn take_batch(guard: &mut SandboxGuard, fetched: &Vec<(Result<String, String>, Vec<String>)>) -> (r:
    Result<Vec<String>, String>)
    ensures
        final(guard).sandbox_dir == old(guard).sandbox_dir,
        text::texts(final(guard).downloaded_tarballs@) == text::texts(
            old(guard).downloaded_tarballs@,
        ) + made_upto(fetched@, fetched@.len() as int),
        match r {
            Ok(v) => {
                &&& failure_from(results_of(fetched@), 0) is None
                &&& v@.len() == fetched@.len()
                &&& forall|i: int|
                    0 <= i < fetched@.len() ==> result_text((#[trigger] fetched@[i]).0) == Ok::<
                        Seq<char>,
                        Seq<char>,
                    >(v@[i]@)
            },
            Err(e) => failure_from(results_of(fetched@), 0) == Some(e@),
        },
{
    let ghost before = text::texts(guard.downloaded_tarballs@);
    let mut results: Vec<Result<String, String>> = Vec::new();
    let mut i: usize = 0;
    assert(before + Seq::<Seq<char>>::empty() =~= before);
    while i < fetched.len()
        invariant
            i <= fetched@.len(),
            guard.sandbox_dir == old(guard).sandbox_dir,
            text::texts(guard.downloaded_tarballs@) == before + made_upto(fetched@, i as int),
            results@.len() == i,
            forall|j: int| 0 <= j < i ==> (#[trigger] results@[j]) == fetched@[j].0,
        decreases fetched@.len() - i,
    {
        push_strs(&mut guard.downloaded_tarballs, &fetched[i].1);
        proof {
            let made = made_upto(fetched@, i as int);
            let own = text::texts(fetched@[i as int].1@);
            assert((before + made) + own =~= before + (made + own));
        }
        results.push(
            match &fetched[i].0 {
                Ok(p) => Ok(p.clone()),
                Err(e) => Err(e.clone()),
            },
        );
        i += 1;
    }
    assert(results@ =~= results_of(fetched@));
    assert(forall|j: int| 0 <= j < fetched@.len() ==> results@[j] == (#[trigger] fetched@[j]).0);
    download_targets_parallel(&results)
}

/// Every file that a download has made is among those of its batch.
pub proof fn made_files_are_kept(fetched: Seq<(Result<String, String>, Vec<String>)>, n: int, i: int, j: int)
    requires
        0 <= i < n <= fetched.len(),
        0 <= j < fetched[i].1@.len(),
    ensures
        made_upto(fetched, n).contains(fetched[i].1@[j]@),
    decreases n,
{
    let before = made_upto(fetched, n - 1);
    let own = text::texts(fetched[n - 1].1@);
    let path = fetched[i].1@[j]@;
    if i < n - 1 {
        made_files_are_kept(fetched, n - 1, i, j);
        let k = choose|k: int| 0 <= k < before.len() && before[k] == path;
        assert((before + own)[k] == path);
    } else {
        assert(own[j] == path);
        assert((before + own)[before.len() + j] == path);
    }
}

/// What to do after some batches of downloads.
#[derive(Debug, Clone)]
pub enum DownloadStep {
    /// Download the targets from the first number up to, but not including, the second.
    Fetch(usize, usize),
    /// All archives, in the order of their targets.
    Done(Vec<String>),
    Fail(String),
}

pub enum DownloadStepView {
    Fetch(int, int),
    Done(Seq<Seq<char>>),
    Fail(Seq<char>),
}

impl View for DownloadStep {
    type V = DownloadStepView;

    open spec fn view(&self) -> DownloadStepView {
        match *self {
            DownloadStep::Fetch(a, b) => DownloadStepView::Fetch(a as int, b as int),
            DownloadStep::Done(v) => DownloadStepView::Done(text::texts(v@)),
            DownloadStep::Fail(e) => DownloadStepView::Fail(e@),
        }
    }
}

/// Goes through the batches from the `i`-th on, with the archives of those before.
pub open spec fn batches_from(
    total: int,
    batches: Seq<Result<Vec<String>, String>>,
    archives: Seq<Seq<char>>,
    i: int,
) -> DownloadStepView
    decreases batches.len() - i,
{
    if i < 0 || i >= batches.len() {
        let n = archives.len() as int;
        if n >= total {
            DownloadStepView::Done(archives)
        } else {
            DownloadStepView::Fetch(
                n,
                if total - n > MAX_PARALLEL_DOWNLOADS {
                    n + MAX_PARALLEL_DOWNLOADS
                } else {
                    total
                },
            )
        }
    } else {
        match batches[i] {
            Ok(v) => batches_from(total, batches, archives + text::texts(v@), i + 1),
            Err(e) => DownloadStepView::Fail(e@),
        }
    }
}

/// Decides, after the batches that were taken so far, which targets to download next: those
/// that follow the archives that are there, a few at a time, and none after a failure.
pub fn download_step(total: usize, batches: &Vec<Result<Vec<String>, String>>) -> (r: DownloadStep)
    ensures
        r@ == batches_from(total as int, batches@, Seq::empty(), 0),
{
    let mut archives = no_strings();
    let mut i: usize = 0;
    assert(text::texts(archives@) =~= Seq::<Seq<char>>::empty());
    while i < batches.len()
        invariant
            i <= batches@.len(),
            batches_from(total as int, batches@, Seq::empty(), 0) == batches_from(
                total as int,
                batches@,
                text::texts(archives@),
                i as int,
            ),
        decreases batches@.len() - i,
    {
        match &batches[i] {
            Ok(v) => {
                push_strs(&mut archives, v);
            },
            Err(e) => {
                return DownloadStep::Fail(e.clone());
            },
        }
        i += 1;
    }
    assert(text::texts(archives@).len() == archives@.len());
    let n: usize = archives.len();
    if n >= total {
        DownloadStep::Done(archives)
    } else {
        DownloadStep::Fetch(n, batch_end(n, total))
    }
}

proof fn failure_ends(
    total: int,
    batches: Seq<Result<Vec<String>, String>>,
    archives: Seq<Seq<char>>,
    i: int,
    k: int,
)
    requires
        0 <= i <= k < batches.len(),
        batches[k] is Err,
    ensures
        batches_from(total, batches, archives, i) is Fail,
    decreases batches.len() - i,
{
    if batches[i] is Ok {
        failure_ends(total, batches, archives + text::texts(batches[i]->Ok_0@), i + 1, k);
    }
}

/// After a failure nothing more is downloaded.
pub proof fn no_batch_after_a_failure(total: int, batches: Seq<Result<Vec<String>, String>>, k: int)
    requires
        0 <= k < batches.len(),
        batches[k] is Err,
    ensures
        batches_from(total, batches, Seq::empty(), 0) is Fail,
{
    failure_ends(total, batches, Seq::empty(), 0, k);
}

} // verus!
