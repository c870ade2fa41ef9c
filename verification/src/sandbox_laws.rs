//! What is promised of trying a package: what it is taken from, what it sees of the system,
//! and what is cleaned up behind it.
use crate::container::Container;
use crate::container;
use crate::paths;
use crate::picks;
use crate::sandbox::{DirFacts, DownloadStepView};
use crate::sandbox;
use crate::text;
use crate::text_laws;
use vstd::prelude::*;
use vstd::string::*;

verus! {

// ---------------------------------------------------------------------------------------
// Targets

/// What stands before the first slash of a target is where it is taken from; without a slash,
/// what stands before the first colon.
pub proof fn prefix_tells_the_source(prefix: Seq<char>, rest: Seq<char>)
    requires
        !prefix.contains('/'),
    ensures
        sandbox::target_parts(prefix.push('/') + rest) == (Some(prefix), rest),
        !prefix.contains(':') && !rest.contains('/') ==> sandbox::target_parts(prefix.push(':') + rest)
            == (Some(prefix), rest),
{
    text_laws::cut_takes_apart(prefix, '/', rest);
    let t = prefix.push(':') + rest;
    if !prefix.contains(':') && !rest.contains('/') {
        text_laws::cut_takes_apart(prefix, ':', rest);
        text_laws::text_is_cut_at_the_first(t, '/');
        if text::cut(t, '/') is Some {
            let (a, b) = text::cut(t, '/')->0;
            let n = a.len() as int;
            assert(t[n] == '/');
            if n < prefix.len() {
                assert(prefix[n] == '/');
            } else {
                assert(n != prefix.len());
                assert(rest[n - prefix.len() - 1] == '/');
            }
        }
    }
}

/// A bare name says nothing of its source.
pub proof fn bare_name_has_no_source(t: Seq<char>)
    requires
        !t.contains('/'),
        !t.contains(':'),
        !t.contains('#'),
    ensures
        sandbox::target_parts(t) == (None::<Seq<char>>, t),
{
    reveal_strlit("nixpkgs#");
    text_laws::text_is_cut_at_the_first(t, '/');
    text_laws::text_is_cut_at_the_first(t, ':');
    if text::cut(t, '/') is Some {
        let (a, b) = text::cut(t, '/')->0;
        assert(t[a.len() as int] == '/');
    }
    if text::cut(t, ':') is Some {
        let (a, b) = text::cut(t, ':')->0;
        assert(t[a.len() as int] == ':');
    }
    if text::begins(t, "nixpkgs#"@) {
        assert(t.take(8)[7] == t[7]);
        assert(t[7] == '#');
    }
}

/// Only Nix and Pipx run their programs on the host.
pub proof fn host_providers(prefix: Option<Seq<char>>)
    ensures
        sandbox::on_host_only(prefix) <==> prefix is Some && seq!["nix"@, "nixpkgs"@, "pipx"@].contains(
            prefix->0,
        ),
{
    let s = seq!["nix"@, "nixpkgs"@, "pipx"@];
    assert(s[0] == "nix"@ && s[1] == "nixpkgs"@ && s[2] == "pipx"@);
}

// ---------------------------------------------------------------------------------------
// Directories

/// A directory is private where only its owner, the user, can do anything with it.
pub proof fn private_dir_is_closed_to_others(f: DirFacts)
    requires
        sandbox::private_dir(f),
    ensures
        f.is_dir && f.owned && !f.is_symlink,
        f.mode / 8 % 8 == 0,
        f.mode % 8 == 0,
{
}

/// One path lies below another where it goes on behind a slash.
pub proof fn paths_below(base: Seq<char>, rest: Seq<char>)
    ensures
        sandbox::within(base, base),
        sandbox::within(base.push('/') + rest, base),
        sandbox::within(rest, "/"@),
{
    reveal_strlit("/");
    let p = base.push('/') + rest;
    assert(base + "/"@ =~= base.push('/'));
    assert(p.take((base.len() + 1) as int) =~= base.push('/'));
}

/// Neither the home directory, nor anything below it or above it, nor a directory of the
/// system is handed into the container.
pub proof fn home_and_system_are_not_shared(home: Seq<char>, rest: Seq<char>, i: int)
    requires
        0 <= i < sandbox::protected_dirs().len(),
    ensures
        !sandbox::shareable(home, home),
        !sandbox::shareable(home.push('/') + rest, home),
        !sandbox::shareable(home, home.push('/') + rest),
        !sandbox::shareable("/"@, home),
        !sandbox::shareable(sandbox::protected_dirs()[i], home),
        !sandbox::shareable(sandbox::protected_dirs()[i].push('/') + rest, home),
{
    paths_below(home, rest);
    let d = sandbox::protected_dirs()[i];
    paths_below(d, rest);
    assert(sandbox::within(d, sandbox::protected_dirs()[i]));
    assert(sandbox::within(d.push('/') + rest, sandbox::protected_dirs()[i]));
}

/// The directories of the system that are never handed on.
pub proof fn system_dirs(d: Seq<char>)
    ensures
        sandbox::protected_dirs().contains(d) <==> d == "/bin"@ || d == "/boot"@ || d == "/dev"@ || d
            == "/etc"@ || d == "/lib"@ || d == "/lib64"@ || d == "/proc"@ || d == "/run"@ || d
            == "/sbin"@ || d == "/sys"@ || d == "/tmp"@ || d == "/usr"@ || d == "/var"@,
{
    let s = sandbox::protected_dirs();
    assert(s[0] == "/bin"@ && s[1] == "/boot"@ && s[2] == "/dev"@ && s[3] == "/etc"@ && s[4] == "/lib"@
        && s[5] == "/lib64"@ && s[6] == "/proc"@ && s[7] == "/run"@ && s[8] == "/sbin"@ && s[9]
        == "/sys"@ && s[10] == "/tmp"@ && s[11] == "/usr"@ && s[12] == "/var"@);
}

// ---------------------------------------------------------------------------------------
// The program

/// The program that is asked for by name is the one that is run, if the package has it.
pub proof fn asked_program_is_run(
    dir: Seq<char>,
    pkg: Seq<char>,
    name: Seq<char>,
    executables: Seq<Seq<char>>,
    sorted: Seq<Seq<char>>,
)
    requires
        sandbox::askable(name),
    ensures
        ({
            let bin = paths::joined(paths::joined(paths::joined(dir, "usr"@), "bin"@), name);
            let sbin = paths::joined(paths::joined(paths::joined(dir, "usr"@), "sbin"@), name);
            let r = sandbox::program_of(dir, pkg, Some(name), executables, sorted);
            &&& executables.contains(bin) ==> r == Ok::<Seq<char>, Seq<char>>(bin)
            &&& !executables.contains(bin) && executables.contains(sbin) ==> r == Ok::<
                Seq<char>,
                Seq<char>,
            >(sbin)
            &&& !executables.contains(bin) && !executables.contains(sbin) ==> r is Err
        }),
{
}

/// A name with a slash, one that goes up, and one that looks like an option is no name of a
/// program.
pub proof fn program_names_are_plain(name: Seq<char>)
    ensures
        name.contains('/') || name.contains('\\') ==> !sandbox::askable(name),
        name == ".."@ || name == "."@ || name.len() == 0 ==> !sandbox::askable(name),
        name.len() > 0 && name[0] == '-' ==> !sandbox::askable(name),
{
    reveal_strlit("-");
    if name.len() > 0 && name[0] == '-' {
        assert(name.take(1) =~= "-"@);
    }
}

/// Without a wish the program with the name of the package is run; where there is none, the
/// only one; where there are more, the one with the name without `lib`, or none.
pub proof fn program_of_the_same_name_is_run(
    dir: Seq<char>,
    pkg: Seq<char>,
    executables: Seq<Seq<char>>,
    sorted: Seq<Seq<char>>,
)
    ensures
        ({
            let bin = paths::joined(paths::joined(paths::joined(dir, "usr"@), "bin"@), pkg);
            let sbin = paths::joined(paths::joined(paths::joined(dir, "usr"@), "sbin"@), pkg);
            let r = sandbox::program_of(dir, pkg, None, executables, sorted);
            &&& executables.contains(bin) ==> r == Ok::<Seq<char>, Seq<char>>(bin)
            &&& !executables.contains(bin) && executables.contains(sbin) ==> r == Ok::<
                Seq<char>,
                Seq<char>,
            >(sbin)
            &&& !executables.contains(bin) && !executables.contains(sbin) ==> {
                &&& sorted.len() == 0 ==> r is Err
                &&& sorted.len() == 1 ==> r == Ok::<Seq<char>, Seq<char>>(sorted[0])
                &&& sorted.len() > 1 ==> (r matches Ok(p) ==> paths::base_name(p) == sandbox::without_lib(
                    pkg,
                ))
            }
        }),
{
    named_is_named(sorted, sandbox::without_lib(pkg), 0);
}

proof fn named_is_named(v: Seq<Seq<char>>, name: Seq<char>, i: int)
    requires
        0 <= i,
    ensures
        sandbox::named_from(v, name, i) matches Some(k) ==> i <= k < v.len() && paths::base_name(v[k])
            == name,
    decreases v.len() - i,
{
    if i < v.len() {
        named_is_named(v, name, i + 1);
    }
}

/// However often `lib` stands before a name, it is taken off.
pub proof fn lib_is_taken_off(name: Seq<char>)
    requires
        !text::begins(name, "lib"@),
    ensures
        sandbox::without_lib(name) == name,
        sandbox::without_lib("lib"@ + name) == name,
        sandbox::without_lib("lib"@ + ("lib"@ + name)) == name,
{
    reveal_strlit("lib");
    reveal_with_fuel(sandbox::without_lib, 3);
    let a = "lib"@ + name;
    let b = "lib"@ + a;
    assert(a.take(3) =~= "lib"@);
    assert(a.skip(3) =~= name);
    assert(b.take(3) =~= "lib"@);
    assert(b.skip(3) =~= a);
}

// ---------------------------------------------------------------------------------------
// Cleaning up

/// What is no longer to be cleaned up leaves the list; everything else stays on it, in order.
pub proof fn others_stay_registered(v: Seq<Seq<char>>, x: Seq<char>, n: int)
    requires
        0 <= n <= v.len(),
    ensures
        picks::made_of(sandbox::without(v, x, n), n, |i: int| v[i] != x, |i: int| v[i]),
    decreases n,
{
    let keep = |i: int| v[i] != x;
    let give = |i: int| v[i];
    if n == 0 {
        picks::made_of_none(keep, give);
    } else {
        others_stay_registered(v, x, n - 1);
        picks::made_of_one_more(sandbox::without(v, x, n - 1), n - 1, keep, give);
        assert(keep(n - 1) == (v[n - 1] != x));
        assert(give(n - 1) == v[n - 1]);
    }
}

/// The failure that is told is the first one.
pub proof fn first_failure_is_told(rs: Seq<Result<String, String>>, i: int)
    requires
        0 <= i,
    ensures
        match sandbox::failure_from(rs, i) {
            Some(e) => exists|k: int|
                i <= k < rs.len() && (#[trigger] rs[k]) is Err && rs[k]->Err_0@ == e && forall|j: int|
                    i <= j < k ==> (#[trigger] rs[j]) is Ok,
            None => forall|j: int| i <= j < rs.len() ==> (#[trigger] rs[j]) is Ok,
        },
    decreases rs.len() - i,
{
    if i < rs.len() {
        first_failure_is_told(rs, i + 1);
        if rs[i] is Err {
            assert(rs[i] is Err);
        } else if sandbox::failure_from(rs, i + 1) is Some {
            let e = sandbox::failure_from(rs, i + 1)->0;
            let low = i + 1;
            let k = choose|k: int|
                low <= k < rs.len() && (#[trigger] rs[k]) is Err && rs[k]->Err_0@ == e && forall|j: int|
                    low <= j < k ==> (#[trigger] rs[j]) is Ok;
            assert(rs[k] is Err);
        }
    }
}

/// The archives of the batches that came so far, in order.
pub open spec fn archives_of(batches: Seq<Result<Vec<String>, String>>, n: int) -> Seq<Seq<char>>
    decreases n,
{
    if n <= 0 {
        Seq::empty()
    } else {
        archives_of(batches, n - 1) + text::texts(batches[n - 1]->Ok_0@)
    }
}

proof fn batches_go_on(
    total: int,
    batches: Seq<Result<Vec<String>, String>>,
    i: int,
)
    requires
        0 <= i <= batches.len(),
        forall|j: int| 0 <= j < batches.len() ==> (#[trigger] batches[j]) is Ok,
    ensures
        sandbox::batches_from(total, batches, archives_of(batches, i), i) == sandbox::batches_from(
            total,
            batches,
            archives_of(batches, batches.len() as int),
            batches.len() as int,
        ),
    decreases batches.len() - i,
{
    if i < batches.len() {
        batches_go_on(total, batches, i + 1);
        assert(batches[i] is Ok);
    }
}

/// Downloads go on, two at a time, where the last ones ended, until all are there; then all
/// archives are given back in order.
pub proof fn downloads_go_on_where_they_ended(total: int, batches: Seq<Result<Vec<String>, String>>)
    requires
        forall|j: int| 0 <= j < batches.len() ==> (#[trigger] batches[j]) is Ok,
    ensures
        ({
            let got = archives_of(batches, batches.len() as int);
            match sandbox::batches_from(total, batches, Seq::empty(), 0) {
                DownloadStepView::Done(v) => v == got && got.len() >= total,
                DownloadStepView::Fetch(a, b) => {
                    &&& a == got.len()
                    &&& a < b <= total
                    &&& b <= a + 2
                    &&& b == a + 2 || b == total
                },
                DownloadStepView::Fail(_) => false,
            }
        }),
{
    batches_go_on(total, batches, 0);
    assert(archives_of(batches, 0) =~= Seq::empty());
}

// ---------------------------------------------------------------------------------------
// The container

/// The three words at `i` hand on an existing directory of the host, to be read only.
pub open spec fn read_only_at(w: Seq<Seq<char>>, existing: Seq<Seq<char>>, i: int) -> bool {
    &&& w[i] == "--ro-bind"@
    &&& w[i + 1] == w[i + 2]
    &&& existing.contains(w[i + 1])
}

/// The directories of the host are there to be read only, each under its own name, and only
/// where they exist.
pub proof fn host_is_read_only(existing: Seq<Seq<char>>, n: int)
    requires
        0 <= n <= 6,
    ensures
        ({
            let w = container::host_mounts_upto(existing, n);
            &&& w.len() % 3 == 0
            &&& forall|i: int|
                0 <= i < w.len() && i % 3 == 0 ==> #[trigger] read_only_at(w, existing, i)
        }),
    decreases n,
{
    if n > 0 {
        host_is_read_only(existing, n - 1);
        let before = container::host_mounts_upto(existing, n - 1);
        let w = container::host_mounts_upto(existing, n);
        let d = container::host_dirs()[n - 1];
        if existing.contains(d) {
            assert(w =~= before + container::three("--ro-bind"@, d, d));
            assert forall|i: int| 0 <= i < w.len() && i % 3 == 0 implies #[trigger] read_only_at(
                w,
                existing,
                i,
            ) by {
                if i < before.len() {
                    assert(read_only_at(before, existing, i));
                    assert(i + 2 < before.len());
                    assert(w[i] == before[i] && w[i + 1] == before[i + 1] && w[i + 2] == before[i + 2]);
                } else {
                    assert(i == before.len());
                }
            }
        }
    }
}

/// The network is shared only on request; the working directory is there only where it may
/// be, and can be written to only on request.
pub proof fn sharing_is_by_request(cwd: Seq<char>, bind: bool, writable: bool, net: bool)
    ensures
        container::isolation_words(net).contains("--share-net"@) <==> net,
        container::isolation_words(net).contains("--unshare-all"@),
        bind && !writable ==> container::cwd_words(cwd, bind, writable)[0] == "--ro-bind"@,
        bind && writable ==> container::cwd_words(cwd, bind, writable)[0] == "--bind"@,
        bind ==> container::cwd_words(cwd, bind, writable)[1] == cwd && container::cwd_words(
            cwd,
            bind,
            writable,
        )[2] == cwd,
        !bind ==> !container::cwd_words(cwd, bind, writable).contains("--bind"@)
            && !container::cwd_words(cwd, bind, writable).contains("--ro-bind"@),
{
    reveal_strlit("--clearenv");
    reveal_strlit("--die-with-parent");
    reveal_strlit("--new-session");
    reveal_strlit("--unshare-all");
    reveal_strlit("--share-net");
    reveal_strlit("--chdir");
    reveal_strlit("/tmp");
    reveal_strlit("--bind");
    reveal_strlit("--ro-bind");
    let w = container::isolation_words(net);
    assert(w[0] == "--clearenv"@ && w[1] == "--die-with-parent"@ && w[2] == "--new-session"@ && w[3]
        == "--unshare-all"@);
    if net {
        assert(w[4] == "--share-net"@);
    } else {
        assert(w.len() == 4);
        assert("--share-net"@.len() == 11);
        assert("--clearenv"@.len() == 10);
        assert("--die-with-parent"@.len() == 17);
        assert("--new-session"@.len() == 13);
        assert("--unshare-all"@.len() == 13);
    }
    let c = container::cwd_words(cwd, bind, writable);
    if !bind {
        assert(c[0] == "--chdir"@ && c[1] == "/tmp"@ && c.len() == 2);
        assert("--chdir"@.len() == 7);
        assert("/tmp"@.len() == 4);
        assert("--bind"@.len() == 6);
        assert("--ro-bind"@.len() == 9);
    }
}

/// Without a request nothing of the screen and nothing of the sound is there.
pub proof fn devices_are_by_request(c: Container, snd: bool)
    ensures
        container::gui_words(c, false).len() == 0,
        container::audio_words(snd, false).len() == 0,
        container::audio_words(false, true).len() == 0,
{
}

} // verus!
