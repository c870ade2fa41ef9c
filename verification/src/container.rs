//! The container that an ephemeral package runs in: what it can see, and its environment.
use crate::install::{blank, is_yes};
use crate::install;
use crate::paths::join_path;
use crate::paths;
use crate::pm::CommandLine;
use crate::pm;
use crate::sandbox::{TryOptions, should_bind_cwd};
use crate::sandbox;
use crate::text::{contains, list_contains, no_strings, push_str, push_strs, str_eq};
use crate::text;
use crate::utils::is_safe_pkg_name;
use crate::utils;
use vstd::prelude::*;
use vstd::string::*;

verus! {

/// The directories of the host that a container gets to see, read-only, where they exist.
pub open spec fn host_dirs() -> Seq<Seq<char>> {
    seq!["/usr"@, "/bin"@, "/sbin"@, "/lib"@, "/lib64"@, "/etc"@]
}

/// Three words of a command line.
pub open spec fn three(a: Seq<char>, b: Seq<char>, c: Seq<char>) -> Seq<Seq<char>> {
    seq![a, b, c]
}

/// The mounts of the first `n` host directories, of those that exist.
pub open spec fn host_mounts_upto(existing: Seq<Seq<char>>, n: int) -> Seq<Seq<char>>
    decreases n,
{
    if n <= 0 {
        Seq::empty()
    } else {
        let d = host_dirs()[n - 1];
        if existing.contains(d) {
            host_mounts_upto(existing, n - 1) + three("--ro-bind"@, d, d)
        } else {
            host_mounts_upto(existing, n - 1)
        }
    }
}

pub open spec fn host_mounts(existing: Seq<Seq<char>>) -> Seq<Seq<char>> {
    host_mounts_upto(existing, 6)
}

fn push3(v: &mut Vec<String>, a: &str, b: &str, c: &str)
    ensures
        text::texts(final(v)@) == text::texts(old(v)@) + three(a@, b@, c@),
{
    let ghost before = text::texts(v@);
    push_str(v, a);
    push_str(v, b);
    push_str(v, c);
    assert(text::texts(v@) =~= before + three(a@, b@, c@));
}

/// Adds the mounts of the host directories that exist.
pub fn add_host_runtime_mounts(args: &mut Vec<String>, existing: &Vec<String>)
    ensures
        text::texts(final(args)@) == text::texts(old(args)@) + host_mounts(text::texts(existing@)),
{
    let dirs: Vec<&'static str> = vec!["/usr", "/bin", "/sbin", "/lib", "/lib64", "/etc"];
    let ghost before = text::texts(args@);
    let ghost have = text::texts(existing@);
    let mut i: usize = 0;
    assert(before + Seq::<Seq<char>>::empty() =~= before);
    while i < dirs.len()
        invariant
            i <= 6,
            dirs@.len() == 6,
            have == text::texts(existing@),
            forall|j: int| 0 <= j < 6 ==> (#[trigger] dirs@[j])@ == host_dirs()[j],
            text::texts(args@) == before + host_mounts_upto(have, i as int),
        decreases 6 - i,
    {
        if list_contains(existing, dirs[i]) {
            let ghost mid = text::texts(args@);
            push3(args, "--ro-bind", dirs[i], dirs[i]);
            proof {
                let d = host_dirs()[i as int];
                assert((before + host_mounts_upto(have, i as int)) + three("--ro-bind"@, d, d)
                    =~= before + (host_mounts_upto(have, i as int) + three("--ro-bind"@, d, d)));
            }
        }
        i += 1;
    }
}

/// What a package brings of data and configuration, and how it can be shown in place.
#[derive(Debug, Clone)]
pub struct PackageData {
    /// Both the package and the host have the directory.
    pub share: bool,
    pub libexec: bool,
    pub etc: bool,
    /// Directories can be laid over each other.
    pub overlay: bool,
    /// The names in the package's `etc` that the host's has too.
    pub etc_entries: Vec<String>,
}

/// The mount of one directory of a package: laid over the host's, or in its place; but the
/// host's `etc` is never replaced as a whole.
pub open spec fn data_mount(dir: Seq<char>, relative: Seq<char>, present: bool, overlay: bool) -> Seq<
    Seq<char>,
> {
    let source = paths::joined(dir, relative);
    let target = "/"@ + relative;
    if !present {
        Seq::empty()
    } else if overlay {
        seq!["--overlay-src"@, target, "--overlay-src"@, source, "--ro-overlay"@, target]
    } else if relative != "etc"@ {
        three("--ro-bind"@, source, target)
    } else {
        Seq::empty()
    }
}

pub open spec fn etc_mounts_upto(dir: Seq<char>, names: Seq<Seq<char>>, n: int) -> Seq<Seq<char>>
    decreases n,
{
    if n <= 0 {
        Seq::empty()
    } else {
        etc_mounts_upto(dir, names, n - 1) + three(
            "--ro-bind"@,
            paths::joined(paths::joined(dir, "etc"@), names[n - 1]),
            paths::joined("/etc"@, names[n - 1]),
        )
    }
}

pub open spec fn data_mounts(dir: Seq<char>, d: PackageData) -> Seq<Seq<char>> {
    data_mount(dir, "usr/share"@, d.share, d.overlay) + data_mount(
        dir,
        "usr/libexec"@,
        d.libexec,
        d.overlay,
    ) + data_mount(dir, "etc"@, d.etc, d.overlay) + (if d.overlay {
        Seq::empty()
    } else {
        etc_mounts_upto(dir, text::texts(d.etc_entries@), d.etc_entries@.len() as int)
    })
}

fn add_data_mount(args: &mut Vec<String>, dir: &str, relative: &str, present: bool, overlay: bool)
    ensures
        text::texts(final(args)@) == text::texts(old(args)@) + data_mount(dir@, relative@, present, overlay),
{
    let ghost before = text::texts(args@);
    if present {
        let source = join_path(dir, relative);
        let mut target: String = "/".to_string();
        target.append(relative);
        if overlay {
            push_str(args, "--overlay-src");
            push_str(args, &target);
            push_str(args, "--overlay-src");
            push_str(args, &source);
            push_str(args, "--ro-overlay");
            push_str(args, &target);
        } else if !str_eq(relative, "etc") {
            push3(args, "--ro-bind", &source, &target);
        }
    }
    assert(text::texts(args@) =~= before + data_mount(dir@, relative@, present, overlay));
}

/// Makes the data and configuration of a package visible at their usual places.
pub fn add_package_data_mounts(args: &mut Vec<String>, sandbox_dir: &str, data: &PackageData)
    ensures
        text::texts(final(args)@) == text::texts(old(args)@) + data_mounts(sandbox_dir@, *data),
{
    let ghost before = text::texts(args@);
    add_data_mount(args, sandbox_dir, "usr/share", data.share, data.overlay);
    add_data_mount(args, sandbox_dir, "usr/libexec", data.libexec, data.overlay);
    add_data_mount(args, sandbox_dir, "etc", data.etc, data.overlay);
    let ghost head = text::texts(args@);
    if !data.overlay {
        let etc = join_path(sandbox_dir, "etc");
        let mut i: usize = 0;
        let ghost names = text::texts(data.etc_entries@);
        assert(head + Seq::<Seq<char>>::empty() =~= head);
        while i < data.etc_entries.len()
            invariant
                i <= data.etc_entries@.len(),
                names == text::texts(data.etc_entries@),
                etc@ == paths::joined(sandbox_dir@, "etc"@),
                text::texts(args@) == head + etc_mounts_upto(sandbox_dir@, names, i as int),
            decreases data.etc_entries@.len() - i,
        {
            assert(names[i as int] == data.etc_entries@[i as int]@);
            let source = join_path(&etc, &data.etc_entries[i]);
            let target = join_path("/etc", &data.etc_entries[i]);
            push3(args, "--ro-bind", &source, &target);
            proof {
                let e = etc_mounts_upto(sandbox_dir@, names, i as int);
                let t = three("--ro-bind"@, source@, target@);
                assert((head + e) + t =~= head + (e + t));
            }
            i += 1;
        }
    }
    assert(text::texts(args@) =~= before + data_mounts(sandbox_dir@, *data));
}

/// All that decides how a container is set up.
#[derive(Debug, Clone)]
pub struct Container {
    pub sandbox_dir: String,
    /// The host directories that exist.
    pub host_dirs: Vec<String>,
    pub data: PackageData,
    pub home: String,
    pub home_exists: bool,
    pub cwd: String,
    /// The current directory and the home directory as absolute paths without detours, where
    /// they can be told.
    pub resolved_cwd: Option<String>,
    pub resolved_home: Option<String>,
    /// The socket directory of X11 and the devices for graphics and sound exist.
    pub x11: bool,
    pub dri: bool,
    pub snd: bool,
    pub display: Option<String>,
    /// The Wayland socket to share and the name of its display.
    pub wayland: Option<(String, String)>,
    pub user: String,
    pub logname: String,
    pub lang: String,
    pub lc_all: String,
    pub term: String,
    pub binary: String,
}

pub open spec fn env_words(name: Seq<char>, value: Seq<char>) -> Seq<Seq<char>> {
    three("--setenv"@, name, value)
}

pub open spec fn usr_dir(dir: Seq<char>, name: Seq<char>) -> Seq<char> {
    paths::joined(paths::joined(dir, "usr"@), name)
}

/// Where programs are looked for.
pub open spec fn search_path(dir: Seq<char>, rest: Seq<char>) -> Seq<char> {
    usr_dir(dir, "bin"@) + ":"@ + usr_dir(dir, "sbin"@) + ":"@ + rest
}

/// Where libraries are looked for.
pub open spec fn library_path(dir: Seq<char>, rest: Seq<char>) -> Seq<char> {
    let own = usr_dir(dir, "lib"@) + ":"@ + usr_dir(dir, "lib64"@);
    if rest.len() == 0 {
        own
    } else {
        own + ":"@ + rest
    }
}

/// Where shared data is looked for.
pub open spec fn data_path(dir: Seq<char>, rest: Seq<char>) -> Seq<char> {
    usr_dir(dir, "share"@) + ":"@ + rest
}

fn usr_path(dir: &str, name: &str) -> (r: String)
    ensures
        r@ == usr_dir(dir@, name@),
{
    let u = join_path(dir, "usr");
    join_path(&u, name)
}

pub fn make_search_path(dir: &str, rest: &str) -> (r: String)
    ensures
        r@ == search_path(dir@, rest@),
{
    let mut out = usr_path(dir, "bin");
    out.append(":");
    let s = usr_path(dir, "sbin");
    out.append(&s);
    out.append(":");
    out.append(rest);
    out
}

pub fn make_library_path(dir: &str, rest: &str) -> (r: String)
    ensures
        r@ == library_path(dir@, rest@),
{
    let mut out = usr_path(dir, "lib");
    out.append(":");
    let s = usr_path(dir, "lib64");
    out.append(&s);
    if !rest.is_empty() {
        out.append(":");
        out.append(rest);
    }
    out
}

pub fn make_data_path(dir: &str, rest: &str) -> (r: String)
    ensures
        r@ == data_path(dir@, rest@),
{
    let mut out = usr_path(dir, "share");
    out.append(":");
    out.append(rest);
    out
}

/// The namespaces: all of them are the container's own, but for the network where it is
/// shared on request. The host's environment is not passed on.
pub open spec fn isolation_words(share_net: bool) -> Seq<Seq<char>> {
    seq!["--clearenv"@, "--die-with-parent"@, "--new-session"@, "--unshare-all"@] + (if share_net {
        seq!["--share-net"@]
    } else {
        Seq::empty()
    })
}

/// File systems of the container's own; the home directory is empty.
pub open spec fn private_words(home: Seq<char>, home_exists: bool) -> Seq<Seq<char>> {
    seq!["--proc"@, "/proc"@, "--dev"@, "/dev"@, "--tmpfs"@, "/tmp"@] + (if home_exists {
        seq!["--tmpfs"@, home]
    } else {
        Seq::empty()
    })
}

/// The current directory is mounted into the container.
pub open spec fn mounts_cwd(c: Container) -> bool {
    match (c.resolved_cwd, c.resolved_home) {
        (Some(cwd), Some(home)) => sandbox::shareable(cwd@, home@),
        _ => false,
    }
}

/// The current directory: shared where that is allowed, to be written to only on request.
pub open spec fn cwd_words(cwd: Seq<char>, bind: bool, writable: bool) -> Seq<Seq<char>> {
    if bind {
        three(
            if writable {
                "--bind"@
            } else {
                "--ro-bind"@
            },
            cwd,
            cwd,
        ) + seq!["--chdir"@, cwd]
    } else {
        seq!["--chdir"@, "/tmp"@]
    }
}

/// What graphical programs need, on request only.
pub open spec fn gui_words(c: Container, gui: bool) -> Seq<Seq<char>> {
    if !gui {
        Seq::empty()
    } else {
        (if c.x11 {
            three("--ro-bind"@, "/tmp/.X11-unix"@, "/tmp/.X11-unix"@)
        } else {
            Seq::empty()
        }) + (if c.dri {
            three("--dev-bind"@, "/dev/dri"@, "/dev/dri"@)
        } else {
            Seq::empty()
        }) + (match c.display {
            Some(d) => env_words("DISPLAY"@, d@),
            None => Seq::empty(),
        }) + (match c.wayland {
            Some((socket, display)) => three(
                "--ro-bind"@,
                socket@,
                paths::joined("/tmp"@, display@),
            ) + env_words("XDG_RUNTIME_DIR"@, "/tmp"@) + env_words(
                "WAYLAND_DISPLAY"@,
                display@,
            ),
            None => Seq::empty(),
        })
    }
}

pub open spec fn audio_words(snd: bool, audio: bool) -> Seq<Seq<char>> {
    if audio && snd {
        three("--dev-bind"@, "/dev/snd"@, "/dev/snd"@)
    } else {
        Seq::empty()
    }
}

/// The whole environment of the container.
pub open spec fn environment_words(c: Container) -> Seq<Seq<char>> {
    let dir = c.sandbox_dir@;
    env_words("PATH"@, search_path(dir, "/usr/local/bin:/usr/bin:/bin"@)) + env_words(
        "LD_LIBRARY_PATH"@,
        library_path(dir, Seq::empty()),
    ) + env_words("XDG_DATA_DIRS"@, data_path(dir, "/usr/local/share:/usr/share"@)) + env_words(
        "USER"@,
        c.user@,
    ) + env_words("LOGNAME"@, c.logname@) + env_words("HOME"@, c.home@) + env_words(
        "LANG"@,
        c.lang@,
    ) + (if c.lc_all@.len() > 0 {
        env_words("LC_ALL"@, c.lc_all@)
    } else {
        Seq::empty()
    }) + env_words("TERM"@, c.term@)
}

/// The arguments of the program that sets up the container.
pub open spec fn container_words(c: Container, o: TryOptions, args: Seq<Seq<char>>) -> Seq<Seq<char>> {
    let dir = c.sandbox_dir@;
    isolation_words(o.share_net) + host_mounts(text::texts(c.host_dirs@)) + data_mounts(dir, c.data)
        + private_words(c.home@, c.home_exists) + cwd_words(c.cwd@, mounts_cwd(c), o.rw_cwd) + three(
        "--ro-bind"@,
        dir,
        dir,
    ) + gui_words(c, o.gui) + audio_words(c.snd, o.audio) + environment_words(c) + seq![c.binary@]
        + args
}

fn push_env(v: &mut Vec<String>, name: &str, value: &str)
    ensures
        text::texts(final(v)@) == text::texts(old(v)@) + env_words(name@, value@),
{
    push3(v, "--setenv", name, value);
}

fn make_isolation(share_net: bool) -> (r: Vec<String>)
    ensures
        text::texts(r@) == isolation_words(share_net),
{
    let mut v = no_strings();
    push_str(&mut v, "--clearenv");
    push_str(&mut v, "--die-with-parent");
    push_str(&mut v, "--new-session");
    push_str(&mut v, "--unshare-all");
    if share_net {
        push_str(&mut v, "--share-net");
    }
    assert(text::texts(v@) =~= isolation_words(share_net));
    v
}

fn make_private(home: &str, home_exists: bool) -> (r: Vec<String>)
    ensures
        text::texts(r@) == private_words(home@, home_exists),
{
    let mut v = no_strings();
    push_str(&mut v, "--proc");
    push_str(&mut v, "/proc");
    push_str(&mut v, "--dev");
    push_str(&mut v, "/dev");
    push_str(&mut v, "--tmpfs");
    push_str(&mut v, "/tmp");
    if home_exists {
        push_str(&mut v, "--tmpfs");
        push_str(&mut v, home);
    }
    assert(text::texts(v@) =~= private_words(home@, home_exists));
    v
}

fn make_cwd(cwd: &str, bind: bool, writable: bool) -> (r: Vec<String>)
    ensures
        text::texts(r@) == cwd_words(cwd@, bind, writable),
{
    let mut v = no_strings();
    if bind {
        let how: &str = if writable {
            "--bind"
        } else {
            "--ro-bind"
        };
        push3(&mut v, how, cwd, cwd);
        push_str(&mut v, "--chdir");
        push_str(&mut v, cwd);
    } else {
        push_str(&mut v, "--chdir");
        push_str(&mut v, "/tmp");
    }
    assert(text::texts(v@) =~= cwd_words(cwd@, bind, writable));
    v
}

fn make_gui(c: &Container, gui: bool) -> (r: Vec<String>)
    ensures
        text::texts(r@) == gui_words(*c, gui),
{
    let mut v = no_strings();
    if gui {
        if c.x11 {
            push3(&mut v, "--ro-bind", "/tmp/.X11-unix", "/tmp/.X11-unix");
        }
        if c.dri {
            push3(&mut v, "--dev-bind", "/dev/dri", "/dev/dri");
        }
        if let Some(d) = &c.display {
            push_env(&mut v, "DISPLAY", d);
        }
        if let Some((socket, display)) = &c.wayland {
            let at = join_path("/tmp", display);
            push3(&mut v, "--ro-bind", socket, &at);
            push_env(&mut v, "XDG_RUNTIME_DIR", "/tmp");
            push_env(&mut v, "WAYLAND_DISPLAY", display);
        }
    }
    assert(text::texts(v@) =~= gui_words(*c, gui));
    v
}

fn make_audio(snd: bool, audio: bool) -> (r: Vec<String>)
    ensures
        text::texts(r@) == audio_words(snd, audio),
{
    let mut v = no_strings();
    if audio && snd {
        push3(&mut v, "--dev-bind", "/dev/snd", "/dev/snd");
    }
    assert(text::texts(v@) =~= audio_words(snd, audio));
    v
}

fn make_environment(c: &Container) -> (r: Vec<String>)
    ensures
        text::texts(r@) == environment_words(*c),
{
    let mut v = no_strings();
    let path = make_search_path(&c.sandbox_dir, "/usr/local/bin:/usr/bin:/bin");
    let libs = make_library_path(&c.sandbox_dir, "");
    let data = make_data_path(&c.sandbox_dir, "/usr/local/share:/usr/share");
    proof {
        reveal_strlit("");
        assert(""@ =~= Seq::<char>::empty());
    }
    push_env(&mut v, "PATH", &path);
    push_env(&mut v, "LD_LIBRARY_PATH", &libs);
    push_env(&mut v, "XDG_DATA_DIRS", &data);
    push_env(&mut v, "USER", &c.user);
    push_env(&mut v, "LOGNAME", &c.logname);
    push_env(&mut v, "HOME", &c.home);
    push_env(&mut v, "LANG", &c.lang);
    if !c.lc_all.as_str().is_empty() {
        push_env(&mut v, "LC_ALL", &c.lc_all);
    }
    push_env(&mut v, "TERM", &c.term);
    assert(text::texts(v@) =~= environment_words(*c));
    v
}

/// The command that runs a program of an ephemeral package in its container.
pub fn try_pacman(c: &Container, o: &TryOptions, args: &Vec<String>) -> (r: CommandLine)
    ensures
        pm::runs(r, "bwrap"@, container_words(*c, *o, text::texts(args@))),
{
    let mut v = make_isolation(o.share_net);
    add_host_runtime_mounts(&mut v, &c.host_dirs);
    add_package_data_mounts(&mut v, &c.sandbox_dir, &c.data);
    let private = make_private(&c.home, c.home_exists);
    push_strs(&mut v, &private);
    let resolved_cwd: Option<&str> = match &c.resolved_cwd {
        Some(d) => Some(d.as_str()),
        None => None,
    };
    let resolved_home: Option<&str> = match &c.resolved_home {
        Some(d) => Some(d.as_str()),
        None => None,
    };
    let cwd = make_cwd(&c.cwd, should_bind_cwd(resolved_cwd, resolved_home), o.rw_cwd);
    push_strs(&mut v, &cwd);
    push3(&mut v, "--ro-bind", &c.sandbox_dir, &c.sandbox_dir);
    let gui = make_gui(c, o.gui);
    push_strs(&mut v, &gui);
    let audio = make_audio(c.snd, o.audio);
    push_strs(&mut v, &audio);
    let env = make_environment(c);
    push_strs(&mut v, &env);
    let ghost head = text::texts(v@);
    push_str(&mut v, &c.binary);
    assert(text::texts(v@) =~= head + seq![c.binary@]);
    push_strs(&mut v, args);
    CommandLine { program: "bwrap".to_string(), args: v }
}

/// Whatever is asked for, the environment of the host is cleared, all namespaces are
/// unshared, and the home directory is replaced by an empty one; and the network is isolated
/// unless sharing it was asked for.
pub proof fn container_is_isolated(c: Container, o: TryOptions, args: Seq<Seq<char>>)
    ensures
        container_words(c, o, args).len() > 4,
        container_words(c, o, args)[0] == "--clearenv"@,
        container_words(c, o, args)[3] == "--unshare-all"@,
        !o.share_net ==> isolation_words(o.share_net) == seq![
            "--clearenv"@,
            "--die-with-parent"@,
            "--new-session"@,
            "--unshare-all"@,
        ],
        c.home_exists ==> private_words(c.home@, c.home_exists).subrange(6, 8) == seq![
            "--tmpfs"@,
            c.home@,
        ],
{
    let iso = isolation_words(o.share_net);
    assert(iso[0] == "--clearenv"@);
    assert(iso[3] == "--unshare-all"@);
    assert(container_words(c, o, args)[0] == iso[0]);
    assert(container_words(c, o, args)[3] == iso[3]);
    if !o.share_net {
        assert(iso =~= seq![
            "--clearenv"@,
            "--die-with-parent"@,
            "--new-session"@,
            "--unshare-all"@,
        ]);
    }
    if c.home_exists {
        assert(private_words(c.home@, true).subrange(6, 8) =~= seq!["--tmpfs"@, c.home@]);
    }
}

/// Nothing in the home directory, no directory that holds it and no directory of the system
/// is mounted as the current directory; the program then starts in a directory of its own.
pub proof fn private_dirs_are_not_mounted(c: Container, o: TryOptions, cwd: String, home: String)
    requires
        c.resolved_cwd == Some(cwd),
        c.resolved_home == Some(home),
        sandbox::within(cwd@, home@) || sandbox::within(home@, cwd@) || sandbox::protected(cwd@),
    ensures
        !mounts_cwd(c),
        cwd_words(c.cwd@, mounts_cwd(c), o.rw_cwd) == seq!["--chdir"@, "/tmp"@],
{
}

/// The arguments that find out whether containers can be set up at all.
pub fn bwrap_probe(existing: &Vec<String>, overlay: bool) -> (r: CommandLine)
    ensures
        pm::runs(
            r,
            "bwrap"@,
            seq!["--unshare-all"@, "--die-with-parent"@, "--new-session"@] + host_mounts(
                text::texts(existing@),
            ) + (if overlay {
                seq![
                    "--overlay-src"@,
                    "/usr/share"@,
                    "--overlay-src"@,
                    "/etc"@,
                    "--ro-overlay"@,
                    "/usr/share"@,
                ]
            } else {
                Seq::<Seq<char>>::empty()
            }) + seq![
                "--proc"@,
                "/proc"@,
                "--dev"@,
                "/dev"@,
                "--tmpfs"@,
                "/tmp"@,
                "--"@,
                "/usr/bin/true"@,
            ],
        ),
{
    let mut v = no_strings();
    push3(&mut v, "--unshare-all", "--die-with-parent", "--new-session");
    assert(text::texts(v@) =~= seq!["--unshare-all"@, "--die-with-parent"@, "--new-session"@]);
    add_host_runtime_mounts(&mut v, existing);
    let ghost a = text::texts(v@);
    if overlay {
        push3(&mut v, "--overlay-src", "/usr/share", "--overlay-src");
        push3(&mut v, "/etc", "--ro-overlay", "/usr/share");
    }
    let ghost mid = if overlay {
        seq![
            "--overlay-src"@,
            "/usr/share"@,
            "--overlay-src"@,
            "/etc"@,
            "--ro-overlay"@,
            "/usr/share"@,
        ]
    } else {
        Seq::<Seq<char>>::empty()
    };
    assert(text::texts(v@) =~= a + mid);
    let ghost b = text::texts(v@);
    push3(&mut v, "--proc", "/proc", "--dev");
    push3(&mut v, "/dev", "--tmpfs", "/tmp");
    push_str(&mut v, "--");
    push_str(&mut v, "/usr/bin/true");
    assert(text::texts(v@) =~= b + seq![
        "--proc"@,
        "/proc"@,
        "--dev"@,
        "/dev"@,
        "--tmpfs"@,
        "/tmp"@,
        "--"@,
        "/usr/bin/true"@,
    ]);
    CommandLine { program: "bwrap".to_string(), args: v }
}

// ---------------------------------------------------------------------------------------
// Whether containers can be used

pub open spec fn namespaces_refused(stderr: Seq<char>) -> bool {
    ||| text::holds(stderr, "Setting up uid map"@)
    ||| text::holds(stderr, "No permissions"@)
    ||| text::holds(stderr, "Permission denied"@)
    ||| text::holds(stderr, "unprivileged_userns_clone"@)
}

/// Why containers cannot be used, after a probe that failed with this error output.
pub fn probe_failure(stderr: &str) -> (r: String)
    ensures
        r@ == if namespaces_refused(stderr@) {
            "Bubblewrap is installed, but kernel unprivileged user namespaces appear restricted or disabled by your system.\n  (e.g., sysctl kernel.unprivileged_userns_clone = 0 or AppArmor restrictions).\n  To run without sandbox container isolation, pass --no-sandbox."@
        } else {
            "Bubblewrap container execution test failed.\n  To bypass sandbox container isolation, pass --no-sandbox."@
        },
{
    if contains(stderr, "Setting up uid map") || contains(stderr, "No permissions") || contains(
        stderr,
        "Permission denied",
    ) || contains(stderr, "unprivileged_userns_clone") {
        "Bubblewrap is installed, but kernel unprivileged user namespaces appear restricted or disabled by your system.\n  (e.g., sysctl kernel.unprivileged_userns_clone = 0 or AppArmor restrictions).\n  To run without sandbox container isolation, pass --no-sandbox.".to_string()
    } else {
        "Bubblewrap container execution test failed.\n  To bypass sandbox container isolation, pass --no-sandbox.".to_string()
    }
}

/// How the probe for containers has ended.
#[derive(Debug, Clone)]
pub enum Probe {
    Works,
    /// The program is not there.
    Missing,
    /// It ended without success, with this error output.
    Refused(String),
    /// It could not be run, for this reason.
    Failed(String),
}

pub open spec fn probe_text(p: Probe) -> Option<Seq<char>> {
    match p {
        Probe::Works => None,
        Probe::Missing => Some("Bubblewrap ('bwrap') is not installed."@),
        Probe::Refused(stderr) => Some(
            if namespaces_refused(stderr@) {
                "Bubblewrap is installed, but kernel unprivileged user namespaces appear restricted or disabled by your system.\n  (e.g., sysctl kernel.unprivileged_userns_clone = 0 or AppArmor restrictions).\n  To run without sandbox container isolation, pass --no-sandbox."@
            } else {
                "Bubblewrap container execution test failed.\n  To bypass sandbox container isolation, pass --no-sandbox."@
            },
        ),
        Probe::Failed(e) => Some("Failed to execute 'bwrap': "@ + e@),
    }
}

/// Whether containers can be used, and why not.
pub fn check_bwrap_capability(probe: &Probe) -> (r: Result<(), String>)
    ensures
        match probe_text(*probe) {
            None => r is Ok,
            Some(e) => r is Err && r->Err_0@ == e,
        },
{
    match probe {
        Probe::Works => Ok(()),
        Probe::Missing => Err("Bubblewrap ('bwrap') is not installed.".to_string()),
        Probe::Refused(stderr) => Err(probe_failure(stderr)),
        Probe::Failed(x) => {
            let mut e: String = "Failed to execute 'bwrap': ".to_string();
            e.append(x);
            Err(e)
        },
    }
}

/// Whether a package may be run now.
#[derive(Debug, Clone)]
pub enum RunGate {
    Ready,
    /// Ask whether to install the program that sets up containers.
    AskInstall,
    Refuse(String),
}

/// Fails closed: without a working container nothing is run, unless the sandbox was switched
/// off on request.
pub fn run_gate(pkg: &str, no_sandbox: bool, probe: &Probe, interactive: bool) -> (r: RunGate)
    ensures
        if !utils::safe_pkg_name(pkg@) {
            r is Refuse && r->Refuse_0@ == "Invalid package name '"@ + pkg@ + "'."@
        } else if no_sandbox || *probe is Works {
            r is Ready
        } else if *probe is Missing {
            if interactive {
                r is AskInstall
            } else {
                r is Refuse && r->Refuse_0@
                    == "Bubblewrap ('bwrap') is not installed on this system.\n  'pacpin try' defaults to fail-closed container isolation for security.\n  To run securely in a sandbox container, install bubblewrap:\n    sudo pacman -S bubblewrap\n  To bypass sandboxing and run directly on your host (UNSAFE), pass --no-sandbox."@
            }
        } else {
            r is Refuse && Some(r->Refuse_0@) == probe_text(*probe)
        },
        r is Ready ==> utils::safe_pkg_name(pkg@) && (no_sandbox || *probe is Works),
        r is AskInstall ==> interactive && *probe is Missing && !no_sandbox,
{
    if !is_safe_pkg_name(pkg) {
        let mut e: String = "Invalid package name '".to_string();
        e.append(pkg);
        e.append("'.");
        return RunGate::Refuse(e);
    }
    if no_sandbox {
        return RunGate::Ready;
    }
    match probe {
        Probe::Missing => {
            if interactive {
                return RunGate::AskInstall;
            }
            return RunGate::Refuse(
                "Bubblewrap ('bwrap') is not installed on this system.\n  'pacpin try' defaults to fail-closed container isolation for security.\n  To run securely in a sandbox container, install bubblewrap:\n    sudo pacman -S bubblewrap\n  To bypass sandboxing and run directly on your host (UNSAFE), pass --no-sandbox.".to_string(),
            );
        },
        _ => {},
    }
    match check_bwrap_capability(probe) {
        Ok(()) => RunGate::Ready,
        Err(e) => RunGate::Refuse(e),
    }
}

/// Whether to install the program that sets up containers: on a yes, or on nothing at all.
pub fn install_answer(answer: Option<&str>) -> (r: Result<(), String>)
    ensures
        match answer {
            None => r is Err && r->Err_0@ == "Failed to read user input. Aborting."@,
            Some(a) => if install::is_blank(a@) || install::says_yes(a@) {
                r is Ok
            } else {
                r is Err && r->Err_0@
                    == "Bubblewrap ('bwrap') is not installed.\n  'pacpin try' defaults to fail-closed container isolation for security.\n  To bypass sandboxing and run directly on your host (UNSAFE), pass --no-sandbox."@
            },
        },
        answer is None ==> r is Err,
{
    match answer {
        None => Err("Failed to read user input. Aborting.".to_string()),
        Some(a) => if blank(a) || is_yes(a) {
            Ok(())
        } else {
            Err(
                "Bubblewrap ('bwrap') is not installed.\n  'pacpin try' defaults to fail-closed container isolation for security.\n  To bypass sandboxing and run directly on your host (UNSAFE), pass --no-sandbox.".to_string(),
            )
        },
    }
}

} // verus!
