//! What is promised of the advice to restart: which processes it concerns and what it tells
//! of them.
use crate::picks;
use crate::restart::{RunningProcess, ServiceView};
use crate::restart;
use crate::text;
use crate::utils;
use vstd::prelude::*;
use vstd::string::*;

verus! {

/// The firmware is no kernel, nor is any part of it.
pub proof fn firmware_is_no_kernel(rest: Seq<char>)
    ensures
        !utils::kernel_package("linux-firmware"@),
        !utils::kernel_package("linux-firmware-"@ + rest),
{
    assert(("linux-firmware-"@ + rest).take("linux-firmware-"@.len() as int) =~= "linux-firmware-"@);
}

/// A kernel of the list and each part of it, told by a hyphen, is a kernel.
pub proof fn kernels_and_their_parts_are_kernels(i: int, rest: Seq<char>)
    requires
        0 <= i < utils::kernel_names().len(),
        ({
            let part = utils::kernel_names()[i] + "-"@ + rest;
            part != "linux-firmware"@ && !text::begins(part, "linux-firmware-"@)
        }),
    ensures
        utils::kernel_package(utils::kernel_names()[i] + "-"@ + rest),
{
    let k = utils::kernel_names()[i];
    let part = k + "-"@ + rest;
    assert(part.take((k + "-"@).len() as int) =~= k + "-"@);
    assert(utils::kernel_or_part(part, utils::kernel_names()[i]));
}

/// The unit of the process itself, not that of the user's session around it.
pub open spec fn is_unit(part: Seq<char>) -> bool {
    text::ends(part, ".service"@) && !text::begins(part, "user@"@)
}

proof fn last_unit(parts: Seq<Seq<char>>, n: int)
    requires
        0 <= n <= parts.len(),
    ensures
        match restart::last_service(parts, n) {
            Some(k) => 0 <= k < n && is_unit(parts[k]) && forall|j: int|
                k < j < n ==> !is_unit(#[trigger] parts[j]),
            None => forall|j: int| 0 <= j < n ==> !is_unit(#[trigger] parts[j]),
        },
    decreases n,
{
    if n > 0 {
        last_unit(parts, n - 1);
    }
}

/// A line of control groups names the innermost unit in it: as a part of the session where it
/// is one, else as a unit of the user or of the system, by the slice it is in.
pub proof fn innermost_unit_is_named(line: Seq<char>, comm: Seq<char>, pid: u32, k: int)
    requires
        ({
            let parts = restart::filled(text::split_on(line, '/'));
            &&& 0 <= k < parts.len()
            &&& is_unit(parts[k])
            &&& forall|j: int| k < j < parts.len() ==> !is_unit(#[trigger] parts[j])
        }),
    ensures
        ({
            let unit = restart::filled(text::split_on(line, '/'))[k];
            restart::line_service(line, comm, pid) == Some(
                if restart::session_component(comm, unit) {
                    ServiceView::SessionComponent(unit)
                } else if text::holds(line, "/user.slice/"@) {
                    ServiceView::SystemdUser(unit)
                } else {
                    ServiceView::SystemdSystem(unit)
                },
            )
        }),
{
    let parts = restart::filled(text::split_on(line, '/'));
    last_unit(parts, parts.len() as int);
    let found = restart::last_service(parts, parts.len() as int);
    assert(found is Some) by {
        if found is None {
            assert(!is_unit(parts[k]));
        }
    }
    let f = found->0;
    if f < k {
        assert(!is_unit(parts[k]));
    }
    if f > k {
        assert(!is_unit(parts[f]));
    }
}

/// A line without a unit tells of a plain process only within the session of a user, and of
/// nothing elsewhere.
pub proof fn line_without_a_unit(line: Seq<char>, comm: Seq<char>, pid: u32)
    requires
        ({
            let parts = restart::filled(text::split_on(line, '/'));
            forall|j: int| 0 <= j < parts.len() ==> !is_unit(#[trigger] parts[j])
        }),
    ensures
        ({
            let parts = restart::filled(text::split_on(line, '/'));
            let session = exists|i: int|
                0 <= i < parts.len() && text::begins(#[trigger] parts[i], "user@"@);
            &&& restart::line_service(line, comm, pid) is Some <==> session
            &&& session && !restart::session_component(comm, parts.last()) && parts.last()
                != "init.scope"@ && !text::begins(parts.last(), "user@"@) ==> restart::line_service(
                line,
                comm,
                pid,
            ) == Some(ServiceView::Process { name: comm, pid })
        }),
{
    let parts = restart::filled(text::split_on(line, '/'));
    last_unit(parts, parts.len() as int);
}

/// Of the parts between slashes those that are empty are passed over.
pub proof fn empty_parts_are_passed_over(parts: Seq<Seq<char>>, n: int)
    requires
        0 <= n <= parts.len(),
    ensures
        picks::made_of(
            restart::filled_upto(parts, n),
            n,
            |i: int| parts[i].len() > 0,
            |i: int| parts[i],
        ),
    decreases n,
{
    let keep = |i: int| parts[i].len() > 0;
    let give = |i: int| parts[i];
    if n == 0 {
        picks::made_of_none(keep, give);
    } else {
        empty_parts_are_passed_over(parts, n - 1);
        picks::made_of_one_more(restart::filled_upto(parts, n - 1), n - 1, keep, give);
        assert(keep(n - 1) == (parts[n - 1].len() > 0));
        assert(give(n - 1) == parts[n - 1]);
    }
}

/// The service of a process is that of the first line that tells of one; where none does, it
/// is the process alone.
pub proof fn first_telling_line_decides(ls: Seq<Seq<char>>, comm: Seq<char>, pid: u32, i: int)
    requires
        0 <= i,
    ensures
        forall|k: int|
            i <= k < ls.len() && restart::line_service(#[trigger] ls[k], comm, pid) is Some && (
            forall|j: int| i <= j < k ==> restart::line_service(#[trigger] ls[j], comm, pid) is None)
                ==> restart::cgroup_service(ls, comm, pid, i) == restart::line_service(
                ls[k],
                comm,
                pid,
            )->0,
        (forall|j: int| i <= j < ls.len() ==> restart::line_service(#[trigger] ls[j], comm, pid) is None)
            ==> restart::cgroup_service(ls, comm, pid, i) == (ServiceView::Process {
            name: comm,
            pid,
        }),
    decreases ls.len() - i,
{
    if i < ls.len() {
        first_telling_line_decides(ls, comm, pid, i + 1);
    }
}

/// A process is affected where one of its mapped files, a shared library below `/usr/lib` or
/// `/usr/bin`, was deleted under it.
pub proof fn process_with_a_deleted_library_is_affected(
    p: RunningProcess,
    my_pid: u32,
    pid: int,
    i: int,
)
    requires
        text::number(p.dir@, u32::MAX as int) == Some(pid),
        pid != my_pid,
        pid != 0,
        p.maps is Some,
        0 <= i < text::lines(p.maps->0@).len(),
        ({
            let line = text::lines(p.maps->0@)[i];
            let w = text::words(line);
            &&& text::ends(line, "(deleted)"@)
            &&& w.len() >= 6
            &&& text::begins(w[5], "/usr/lib"@) || text::begins(w[5], "/usr/bin"@)
            &&& text::holds(w[5], ".so"@)
        }),
        p.comm matches Some(c) ==> !seq!["pacman"@, "paru"@, "yay"@, "sudo"@, "pacpin"@, "pin"@].contains(
            text::trim(c@),
        ),
        p.comm is Some,
    ensures
        restart::affected(p, my_pid),
        restart::service_uses(
            seq![p],
            my_pid,
            1,
            restart::service_key(restart::service_of(p)),
            text::words(text::lines(p.maps->0@)[i])[5],
        ),
{
    let line = text::lines(p.maps->0@)[i];
    let lib = text::words(line)[5];
    assert(restart::deleted_in_line(text::lines(p.maps->0@)[i], lib));
    assert(restart::deleted_in(p.maps->0@, lib));
    let own = seq!["pacman"@, "paru"@, "yay"@, "sudo"@, "pacpin"@, "pin"@];
    assert(own[0] == "pacman"@ && own[1] == "paru"@ && own[2] == "yay"@ && own[3] == "sudo"@ && own[4]
        == "pacpin"@ && own[5] == "pin"@);
    assert(restart::affected(seq![p][0], my_pid));
}

/// A process without a deleted library is not affected, nor is this one, nor are the package
/// managers themselves.
pub proof fn other_processes_are_not_affected(p: RunningProcess, my_pid: u32)
    requires
        ({
            ||| p.maps is None
            ||| p.maps matches Some(m) && forall|i: int|
                0 <= i < text::lines(m@).len() ==> !text::ends(
                    #[trigger] text::lines(m@)[i],
                    "(deleted)"@,
                )
            ||| text::number(p.dir@, u32::MAX as int) is None
            ||| text::number(p.dir@, u32::MAX as int) == Some(my_pid as int)
            ||| p.comm matches Some(c) && seq!["pacman"@, "paru"@, "yay"@, "sudo"@, "pacpin"@, "pin"@].contains(
                text::trim(c@),
            )
        }),
    ensures
        !restart::affected(p, my_pid),
{
    let own = seq!["pacman"@, "paru"@, "yay"@, "sudo"@, "pacpin"@, "pin"@];
    assert(own[0] == "pacman"@ && own[1] == "paru"@ && own[2] == "yay"@ && own[3] == "sudo"@ && own[4]
        == "pacpin"@ && own[5] == "pin"@);
}

proof fn same_tail(a: Seq<char>, x: Seq<char>, y: Seq<char>)
    requires
        a + x == a + y,
    ensures
        x == y,
{
    assert((a + x).skip(a.len() as int) =~= x);
    assert((a + y).skip(a.len() as int) =~= y);
}

proof fn same_named_process(x: Seq<char>, i: nat, y: Seq<char>, j: nat)
    requires
        "proc:"@ + x + ":"@ + text::digits_of(i) == "proc:"@ + y + ":"@ + text::digits_of(j),
    ensures
        x == y,
        i == j,
{
    reveal_strlit(":");
    let p = text::digits_of(i);
    let q = text::digits_of(j);
    text::digits_read_back(i);
    text::digits_read_back(j);
    let a = "proc:"@ + x + ":"@ + p;
    let b = "proc:"@ + y + ":"@ + q;
    let n = a.len() as int;
    let h = "proc:"@.len() as int;
    assert(a[n - p.len() - 1] == ':');
    assert(b[n - q.len() - 1] == ':');
    if p.len() < q.len() {
        assert(b[n - p.len() - 1] == q[q.len() - p.len() - 1]);
        assert(text::is_digit(q[q.len() - p.len() - 1]));
    }
    if q.len() < p.len() {
        assert(a[n - q.len() - 1] == p[p.len() - q.len() - 1]);
        assert(text::is_digit(p[p.len() - q.len() - 1]));
    }
    assert(p =~= q) by {
        assert forall|k: int| 0 <= k < p.len() implies p[k] == q[k] by {
            assert(a[n - p.len() + k] == p[k]);
            assert(b[n - q.len() + k] == q[k]);
        }
    }
    assert(x =~= y) by {
        assert(x.len() == y.len());
        assert forall|k: int| 0 <= k < x.len() implies x[k] == y[k] by {
            assert(a[h + k] == x[k]);
            assert(b[h + k] == y[k]);
        }
    }
}

/// Services that differ have keys that differ: no two of them are told as one.
pub proof fn keys_tell_services_apart(a: ServiceView, b: ServiceView)
    requires
        restart::service_key(a) == restart::service_key(b),
    ensures
        a == b,
{
    reveal_strlit("sys:");
    reveal_strlit("usr:");
    reveal_strlit("session:");
    reveal_strlit("proc:");
    match (a, b) {
        (ServiceView::SystemdSystem(x), ServiceView::SystemdSystem(y)) => {
            same_tail("sys:"@, x, y);
        },
        (ServiceView::SystemdUser(x), ServiceView::SystemdUser(y)) => {
            same_tail("usr:"@, x, y);
        },
        (ServiceView::SessionComponent(x), ServiceView::SessionComponent(y)) => {
            same_tail("session:"@, x, y);
        },
        (ServiceView::Process { name: x, pid: i }, ServiceView::Process { name: y, pid: j }) => {
            same_named_process(x, i as nat, y, j as nat);
        },
        _ => {
            let k = restart::service_key(a);
            let l = restart::service_key(b);
            assert(k[0] == l[0]);
            assert(k[1] == l[1]);
            assert(false);
        },
    }
}

} // verus!
