//! What has to be restarted after an upgrade: the system, services, sessions and programs.
use crate::extract::steps_of;
use crate::extract;
use crate::pm::Process;
use crate::resolver::ResolvedPackage;
use crate::strmap::StrMap;
use crate::strmap;
use crate::style::{Line, Page, Style, padded_end};
use crate::style;
use crate::text::{clone_strings, contains, ends_with, insert_ascending, lines_of, lower_string, no_strings, number_text, parse_u32, push_str, split_string, starts_with, str_eq, text2, text3, trimmed, words_of};
use crate::text;
use crate::utils::is_kernel_package;
use crate::utils;
use vstd::prelude::*;
use vstd::string::*;

verus! {

#[derive(Debug, Clone, PartialEq, Eq)]
pub struct KernelUpdateInfo {
    pub running: String,
    pub installed: String,
}

/// What a process belongs to.
#[derive(Debug, Clone, PartialEq, Eq)]
pub enum ServiceType {
    SystemdSystem(String),
    SystemdUser(String),
    SessionComponent(String),
    Process { name: String, pid: u32 },
}

pub enum ServiceView {
    SystemdSystem(Seq<char>),
    SystemdUser(Seq<char>),
    SessionComponent(Seq<char>),
    Process { name: Seq<char>, pid: u32 },
}

impl View for ServiceType {
    type V = ServiceView;

    open spec fn view(&self) -> ServiceView {
        match *self {
            ServiceType::SystemdSystem(s) => ServiceView::SystemdSystem(s@),
            ServiceType::SystemdUser(s) => ServiceView::SystemdUser(s@),
            ServiceType::SessionComponent(s) => ServiceView::SessionComponent(s@),
            ServiceType::Process { name, pid } => ServiceView::Process { name: name@, pid },
        }
    }
}

/// A service and the deleted libraries that it still uses, in order.
#[derive(Debug, Clone)]
pub struct ProcessRestartInfo {
    pub service: ServiceType,
    pub deleted_files: Vec<String>,
}

/// What is known of a running process; a missing part could not be read.
#[derive(Debug, Clone)]
pub struct RunningProcess {
    /// The name of its directory.
    pub dir: String,
    pub maps: Option<String>,
    pub comm: Option<String>,
    pub cgroup: String,
}

pub struct RestartInspector;

// ---------------------------------------------------------------------------------------
// The kernel

/// An update of a kernel package.
pub open spec fn updates_kernel(us: Seq<ResolvedPackage>) -> bool {
    exists|i: int|
        0 <= i < us.len() && utils::kernel_package((#[trigger] us[i]).name@) && us[i].candidate is Some
}

/// The last of the versions, or a word in its place.
pub open spec fn latest_of(installed: Seq<Seq<char>>) -> Seq<char> {
    if installed.len() == 0 {
        "newer"@
    } else {
        installed.last()
    }
}

// ---------------------------------------------------------------------------------------
// Services

pub open spec fn session_program(comm: Seq<char>) -> bool {
    ||| comm == "gnome-shell"@
    ||| comm == "mutter"@
    ||| text::begins(comm, "mutter-"@)
    ||| comm == "kwin"@
    ||| comm == "kwin_wayland"@
    ||| comm == "kwin_x11"@
    ||| comm == "sway"@
    ||| comm == "hyprland"@
    ||| comm == "wayfire"@
    ||| comm == "cosmic-comp"@
    ||| comm == "gdm"@
    ||| comm == "sddm"@
    ||| comm == "lightdm"@
    ||| comm == "xorg"@
    ||| comm == "xwayland"@
}

pub open spec fn session_service(service: Seq<char>) -> bool {
    ||| text::holds(service, "gnome.shell"@)
    ||| text::holds(service, "kwin"@)
    ||| text::begins(service, "gdm"@)
    ||| text::begins(service, "sddm"@)
    ||| text::begins(service, "lightdm"@)
}

/// A part of the desktop session, which cannot be restarted on its own.
pub open spec fn session_component(comm: Seq<char>, service: Seq<char>) -> bool {
    session_program(text::lower(comm)) || session_service(text::lower(service))
}

/// A service that is not the container of a user's session.
pub open spec fn own_service(part: Seq<char>) -> bool {
    text::ends(part, ".service"@) && !text::begins(part, "user@"@)
}

/// The last of the first `n` parts that is a service of its own.
pub open spec fn last_service(parts: Seq<Seq<char>>, n: int) -> Option<int>
    decreases n,
{
    if n <= 0 {
        None
    } else if own_service(parts[n - 1]) {
        Some(n - 1)
    } else {
        last_service(parts, n - 1)
    }
}

pub open spec fn in_user_session(parts: Seq<Seq<char>>) -> bool {
    exists|i: int| 0 <= i < parts.len() && text::begins(#[trigger] parts[i], "user@"@)
}

pub open spec fn filled_upto(parts: Seq<Seq<char>>, n: int) -> Seq<Seq<char>>
    decreases n,
{
    if n <= 0 {
        Seq::empty()
    } else if parts[n - 1].len() > 0 {
        filled_upto(parts, n - 1).push(parts[n - 1])
    } else {
        filled_upto(parts, n - 1)
    }
}

/// The parts of a path that are not empty.
pub open spec fn filled(parts: Seq<Seq<char>>) -> Seq<Seq<char>> {
    filled_upto(parts, parts.len() as int)
}

/// What one line of a control group says: the service closest to the process, the manager of
/// the user's session, or a program within it. `None` where it says nothing.
pub open spec fn line_service(line: Seq<char>, comm: Seq<char>, pid: u32) -> Option<ServiceView> {
    let parts = filled(text::split_on(line, '/'));
    let n = parts.len() as int;
    match last_service(parts, n) {
        Some(k) => if session_component(comm, parts[k]) {
            Some(ServiceView::SessionComponent(parts[k]))
        } else if text::holds(line, "/user.slice/"@) {
            Some(ServiceView::SystemdUser(parts[k]))
        } else {
            Some(ServiceView::SystemdSystem(parts[k]))
        },
        None => if in_user_session(parts) {
            let leaf = parts.last();
            if session_component(comm, leaf) {
                Some(ServiceView::SessionComponent(comm))
            } else if leaf == "init.scope"@ || text::begins(leaf, "user@"@) {
                Some(ServiceView::SystemdUser("systemd --user"@))
            } else {
                Some(ServiceView::Process { name: comm, pid })
            }
        } else {
            None
        },
    }
}

/// What the lines from the `i`-th on say.
pub open spec fn cgroup_service(ls: Seq<Seq<char>>, comm: Seq<char>, pid: u32, i: int) -> ServiceView
    decreases ls.len() - i,
{
    if i < 0 || i >= ls.len() {
        ServiceView::Process { name: comm, pid }
    } else {
        match line_service(ls[i], comm, pid) {
            Some(s) => s,
            None => cgroup_service(ls, comm, pid, i + 1),
        }
    }
}

fn filled_parts(line: &str) -> (r: Vec<String>)
    ensures
        text::texts(r@) == filled(text::split_on(line@, '/')),
{
    let parts = split_string(line, '/');
    let ghost all = text::texts(parts@);
    let mut out = no_strings();
    let mut i: usize = 0;
    while i < parts.len()
        invariant
            i <= parts@.len(),
            all == text::texts(parts@),
            text::texts(out@) == filled_upto(all, i as int),
        decreases parts@.len() - i,
    {
        assert(all[i as int] == parts@[i as int]@);
        if !parts[i].as_str().is_empty() {
            let ghost before = text::texts(out@);
            push_str(&mut out, &parts[i]);
            assert(text::texts(out@) =~= before.push(all[i as int]));
        }
        i += 1;
    }
    out
}

fn find_service(parts: &Vec<String>) -> (r: Option<usize>)
    ensures
        match r {
            Some(k) => last_service(text::texts(parts@), parts@.len() as int) == Some(k as int) && k
                < parts@.len(),
            None => last_service(text::texts(parts@), parts@.len() as int) is None,
        },
{
    let ghost all = text::texts(parts@);
    let mut i: usize = parts.len();
    while i > 0
        invariant
            i <= parts@.len(),
            all == text::texts(parts@),
            last_service(all, parts@.len() as int) == last_service(all, i as int),
        decreases i,
    {
        assert(all[i - 1] == parts@[i - 1]@);
        if ends_with(&parts[i - 1], ".service") && !starts_with(&parts[i - 1], "user@") {
            return Some(i - 1);
        }
        i -= 1;
    }
    None
}

fn has_user_session(parts: &Vec<String>) -> (r: bool)
    ensures
        r == in_user_session(text::texts(parts@)),
{
    let ghost all = text::texts(parts@);
    let mut i: usize = 0;
    while i < parts.len()
        invariant
            i <= parts@.len(),
            all == text::texts(parts@),
            all.len() == parts@.len(),
            forall|j: int| 0 <= j < i ==> !text::begins(#[trigger] all[j], "user@"@),
        decreases parts@.len() - i,
    {
        assert(all[i as int] == parts@[i as int]@);
        if starts_with(&parts[i], "user@") {
            return true;
        }
        i += 1;
    }
    false
}

fn service_in_line(line: &str, comm: &str, pid: u32) -> (r: Option<ServiceType>)
    ensures
        match r {
            Some(s) => line_service(line@, comm@, pid) == Some(s@),
            None => line_service(line@, comm@, pid) is None,
        },
{
    let parts = filled_parts(line);
    let ghost all = text::texts(parts@);
    let n: usize = parts.len();
    assert(all.len() == n);
    match find_service(&parts) {
        Some(k) => {
            assert(all[k as int] == parts@[k as int]@);
            let s = parts[k].clone();
            if RestartInspector::is_session_component(comm, &s) {
                Some(ServiceType::SessionComponent(s))
            } else if contains(line, "/user.slice/") {
                Some(ServiceType::SystemdUser(s))
            } else {
                Some(ServiceType::SystemdSystem(s))
            }
        },
        None => {
            if !has_user_session(&parts) {
                return None;
            }
            assert(all.last() == parts@[n - 1]@);
            let leaf: &str = parts[n - 1].as_str();
            if RestartInspector::is_session_component(comm, leaf) {
                Some(ServiceType::SessionComponent(comm.to_string()))
            } else if str_eq(leaf, "init.scope") || starts_with(leaf, "user@") {
                Some(ServiceType::SystemdUser("systemd --user".to_string()))
            } else {
                Some(ServiceType::Process { name: comm.to_string(), pid })
            }
        },
    }
}

// ---------------------------------------------------------------------------------------
// Deleted libraries

/// A library that the line shows to be in use although it is deleted.
pub open spec fn deleted_in_line(line: Seq<char>, lib: Seq<char>) -> bool {
    let w = text::words(line);
    &&& text::ends(line, "(deleted)"@)
    &&& w.len() > 5
    &&& w[5] == lib
    &&& text::begins(lib, "/usr/lib"@) || text::begins(lib, "/usr/bin"@)
    &&& text::holds(lib, ".so"@)
}

pub open spec fn deleted_in(maps: Seq<char>, lib: Seq<char>) -> bool {
    exists|i: int| 0 <= i < text::lines(maps).len() && deleted_in_line(#[trigger] text::lines(maps)[i], lib)
}

fn deleted_library(line: &str) -> (r: Option<String>)
    ensures
        match r {
            Some(lib) => forall|t: Seq<char>| #[trigger] deleted_in_line(line@, t) <==> t == lib@,
            None => forall|t: Seq<char>| !(#[trigger] deleted_in_line(line@, t)),
        },
{
    if !ends_with(line, "(deleted)") {
        return None;
    }
    let w = words_of(line);
    let ghost all = text::texts(w@);
    assert(all.len() == w@.len());
    if w.len() <= 5 {
        return None;
    }
    assert(all[5] == w@[5]@);
    if (starts_with(&w[5], "/usr/lib") || starts_with(&w[5], "/usr/bin")) && contains(
        &w[5],
        ".so",
    ) {
        Some(w[5].clone())
    } else {
        None
    }
}

fn deleted_libraries(maps: &str) -> (r: Vec<String>)
    ensures
        text::ascending(text::texts(r@)),
        forall|t: Seq<char>| #[trigger] text::texts(r@).contains(t) <==> deleted_in(maps@, t),
{
    let ls = lines_of(maps);
    let ghost all = text::texts(ls@);
    let mut out = no_strings();
    let mut i: usize = 0;
    while i < ls.len()
        invariant
            i <= ls@.len(),
            all == text::texts(ls@),
            all.len() == ls@.len(),
            text::ascending(text::texts(out@)),
            forall|t: Seq<char>| #[trigger]
                text::texts(out@).contains(t) <==> exists|j: int|
                    0 <= j < i && deleted_in_line(#[trigger] all[j], t),
        decreases ls@.len() - i,
    {
        let ghost before = text::texts(out@);
        assert(all[i as int] == ls@[i as int]@);
        match deleted_library(&ls[i]) {
            Some(lib) => {
                insert_ascending(&mut out, lib);
            },
            None => {},
        }
        proof {
            assert forall|t: Seq<char>| #[trigger] text::texts(out@).contains(t) <==> exists|j: int|
                0 <= j < i + 1 && deleted_in_line(#[trigger] all[j], t) by {
                assert(before.contains(t) <==> exists|j: int|
                    0 <= j < i && deleted_in_line(#[trigger] all[j], t));
                if before.contains(t) {
                    let j = choose|j: int| 0 <= j < i && deleted_in_line(#[trigger] all[j], t);
                    assert(0 <= j < i + 1 && deleted_in_line(all[j], t));
                }
                assert(deleted_in_line(all[i as int], t) ==> text::texts(out@).contains(t));
            }
        }
        i += 1;
    }
    out
}

/// Programs that belong to the upgrade itself.
pub open spec fn upgrades_itself(comm: Seq<char>) -> bool {
    ||| comm == "pacman"@
    ||| comm == "paru"@
    ||| comm == "yay"@
    ||| comm == "sudo"@
    ||| comm == "pacpin"@
    ||| comm == "pin"@
}

pub open spec fn pid_of(p: RunningProcess) -> Option<int> {
    text::number(p.dir@, u32::MAX as int)
}

pub open spec fn comm_of(p: RunningProcess) -> Seq<char> {
    match p.comm {
        Some(c) => text::trim(c@),
        None => "PID "@ + text::digits_of(pid_of(p)->0 as nat),
    }
}

/// The process uses a deleted library, and is neither this one nor part of the upgrade.
pub open spec fn affected(p: RunningProcess, my_pid: u32) -> bool {
    &&& pid_of(p) is Some
    &&& pid_of(p)->0 != my_pid
    &&& pid_of(p)->0 != 0
    &&& p.maps is Some
    &&& exists|lib: Seq<char>| #[trigger] deleted_in(p.maps->0@, lib)
    &&& !upgrades_itself(comm_of(p))
}

pub open spec fn service_of(p: RunningProcess) -> ServiceView {
    cgroup_service(text::lines(p.cgroup@), comm_of(p), pid_of(p)->0 as u32, 0)
}

/// What services are ordered by.
pub open spec fn service_key(s: ServiceView) -> Seq<char> {
    match s {
        ServiceView::SystemdSystem(n) => "sys:"@ + n,
        ServiceView::SystemdUser(n) => "usr:"@ + n,
        ServiceView::SessionComponent(n) => "session:"@ + n,
        ServiceView::Process { name, pid } => "proc:"@ + name + ":"@ + text::digits_of(pid as nat),
    }
}

/// One of the first `n` processes is affected and belongs to the service with this key.
pub open spec fn service_affected(ps: Seq<RunningProcess>, my_pid: u32, n: int, key: Seq<char>) -> bool {
    exists|i: int|
        0 <= i < n && affected(#[trigger] ps[i], my_pid) && service_key(service_of(ps[i])) == key
}

/// A process of that service uses the deleted library.
pub open spec fn service_uses(
    ps: Seq<RunningProcess>,
    my_pid: u32,
    n: int,
    key: Seq<char>,
    lib: Seq<char>,
) -> bool {
    exists|i: int|
        0 <= i < n && affected(#[trigger] ps[i], my_pid) && service_key(service_of(ps[i])) == key
            && deleted_in(ps[i].maps->0@, lib)
}

/// The service with this key and all deleted libraries that its processes use.
pub open spec fn describes(
    info: ProcessRestartInfo,
    ps: Seq<RunningProcess>,
    my_pid: u32,
    n: int,
    key: Seq<char>,
) -> bool {
    &&& service_key(info.service@) == key
    &&& text::ascending(text::texts(info.deleted_files@))
    &&& forall|t: Seq<char>| #[trigger]
        text::texts(info.deleted_files@).contains(t) <==> service_uses(ps, my_pid, n, key, t)
}

pub open spec fn info_keys(v: Seq<ProcessRestartInfo>) -> Seq<Seq<char>> {
    Seq::new(v.len(), |i: int| service_key(v[i].service@))
}

fn key_of_service(s: &ServiceType) -> (r: String)
    ensures
        r@ == service_key(s@),
{
    match s {
        ServiceType::SystemdSystem(n) => text2("sys:", n),
        ServiceType::SystemdUser(n) => text2("usr:", n),
        ServiceType::SessionComponent(n) => text2("session:", n),
        ServiceType::Process { name, pid } => {
            let d = number_text(*pid as u64);
            let mut k = text3("proc:", name, ":");
            k.append(&d);
            k
        },
    }
}

fn same_service(s: &ServiceType) -> (r: ServiceType)
    ensures
        r@ == s@,
{
    match s {
        ServiceType::SystemdSystem(n) => ServiceType::SystemdSystem(n.clone()),
        ServiceType::SystemdUser(n) => ServiceType::SystemdUser(n.clone()),
        ServiceType::SessionComponent(n) => ServiceType::SessionComponent(n.clone()),
        ServiceType::Process { name, pid } => ServiceType::Process { name: name.clone(), pid: *pid },
    }
}

/// The service of an affected process and the libraries it uses.
fn inspect(p: &RunningProcess, my_pid: u32) -> (r: Option<ProcessRestartInfo>)
    ensures
        match r {
            Some(info) => {
                &&& affected(*p, my_pid)
                &&& info.service@ == service_of(*p)
                &&& text::ascending(text::texts(info.deleted_files@))
                &&& forall|t: Seq<char>| #[trigger]
                    text::texts(info.deleted_files@).contains(t) <==> deleted_in(p.maps->0@, t)
            },
            None => !affected(*p, my_pid),
        },
{
    let pid: u32 = match parse_u32(&p.dir) {
        Some(n) => n,
        None => {
            return None;
        },
    };
    if pid == my_pid || pid == 0 {
        return None;
    }
    match &p.maps {
        None => None,
        Some(maps) => {
            let libs = deleted_libraries(maps);
            let ghost all = text::texts(libs@);
            assert(all.len() == libs@.len());
            if libs.len() == 0 {
                proof {
                    assert forall|t: Seq<char>| !(#[trigger] deleted_in(maps@, t)) by {
                        assert(!all.contains(t));
                    }
                }
                return None;
            }
            assert(deleted_in(maps@, all[0])) by {
                assert(all.contains(all[0]));
            }
            let comm: String = match &p.comm {
                Some(c) => trimmed(c),
                None => {
                    let d = number_text(pid as u64);
                    text2("PID ", &d)
                },
            };
            if str_eq(&comm, "pacman") || str_eq(&comm, "paru") || str_eq(&comm, "yay") || str_eq(
                &comm,
                "sudo",
            ) || str_eq(&comm, "pacpin") || str_eq(&comm, "pin") {
                return None;
            }
            let service = RestartInspector::parse_cgroup_service(&p.cgroup, &comm, pid);
            Some(ProcessRestartInfo { service, deleted_files: libs })
        },
    }
}

fn add_libraries(into: &mut Vec<String>, more: &Vec<String>)
    requires
        text::ascending(text::texts(old(into)@)),
    ensures
        text::ascending(text::texts(final(into)@)),
        forall|t: Seq<char>| #[trigger]
            text::texts(final(into)@).contains(t) <==> (text::texts(old(into)@).contains(t) || text::texts(
                more@,
            ).contains(t)),
{
    let ghost start = text::texts(into@);
    let ghost all = text::texts(more@);
    let mut i: usize = 0;
    while i < more.len()
        invariant
            i <= more@.len(),
            all == text::texts(more@),
            all.len() == more@.len(),
            text::ascending(text::texts(into@)),
            forall|t: Seq<char>| #[trigger]
                text::texts(into@).contains(t) <==> (start.contains(t) || all.take(
                    i as int,
                ).contains(t)),
        decreases more@.len() - i,
    {
        let ghost before = text::texts(into@);
        assert(all[i as int] == more@[i as int]@);
        insert_ascending(into, more[i].clone());
        proof {
            let done = all.take(i as int);
            let next = all.take(i + 1);
            assert(next =~= done.push(all[i as int]));
            assert forall|t: Seq<char>| #[trigger] text::texts(into@).contains(t) <==> (start.contains(t)
                || next.contains(t)) by {
                assert(before.contains(t) <==> (start.contains(t) || done.contains(t)));
                if done.contains(t) {
                    let k = choose|k: int| 0 <= k < done.len() && done[k] == t;
                    assert(next[k] == t);
                }
                if next.contains(t) {
                    let k = choose|k: int| 0 <= k < next.len() && next[k] == t;
                    if k < i {
                        assert(done[k] == t);
                    }
                }
                assert(next[i as int] == all[i as int]);
                assert(text::texts(into@).contains(t) <==> (before.contains(t) || t == all[i as int]));
            }
        }
        i += 1;
    }
    assert(all.take(i as int) =~= all);
}

/// The services found so far, by their keys.
pub open spec fn collected(
    entries: Seq<(Seq<char>, ProcessRestartInfo)>,
    ps: Seq<RunningProcess>,
    my_pid: u32,
    n: int,
) -> bool {
    forall|k: Seq<char>|
        match #[trigger] strmap::lookup(entries, k) {
            Some(info) => service_affected(ps, my_pid, n, k) && describes(info, ps, my_pid, n, k),
            None => !service_affected(ps, my_pid, n, k),
        }
}

proof fn collected_skip(
    entries: Seq<(Seq<char>, ProcessRestartInfo)>,
    ps: Seq<RunningProcess>,
    my_pid: u32,
    n: int,
)
    requires
        0 <= n < ps.len(),
        collected(entries, ps, my_pid, n),
        !affected(ps[n], my_pid),
    ensures
        collected(entries, ps, my_pid, n + 1),
{
    assert forall|k: Seq<char>|
        match #[trigger] strmap::lookup(entries, k) {
            Some(info) => service_affected(ps, my_pid, n + 1, k) && describes(
                info,
                ps,
                my_pid,
                n + 1,
                k,
            ),
            None => !service_affected(ps, my_pid, n + 1, k),
        } by {
        other_key(ps, my_pid, n, k);
        match strmap::lookup(entries, k) {
            Some(info) => {
                describes_other(info, ps, my_pid, n, k);
            },
            None => {},
        }
    }
}

proof fn other_key(ps: Seq<RunningProcess>, my_pid: u32, n: int, k: Seq<char>)
    requires
        0 <= n < ps.len(),
        !affected(ps[n], my_pid) || service_key(service_of(ps[n])) != k,
    ensures
        service_affected(ps, my_pid, n + 1, k) == service_affected(ps, my_pid, n, k),
{
    if service_affected(ps, my_pid, n + 1, k) {
        let i = choose|i: int|
            0 <= i < n + 1 && affected(#[trigger] ps[i], my_pid) && service_key(service_of(ps[i]))
                == k;
        assert(i < n);
        assert(affected(ps[i], my_pid));
    }
    if service_affected(ps, my_pid, n, k) {
        let i = choose|i: int|
            0 <= i < n && affected(#[trigger] ps[i], my_pid) && service_key(service_of(ps[i])) == k;
        assert(0 <= i < n + 1 && affected(ps[i], my_pid));
    }
}

proof fn describes_other(
    info: ProcessRestartInfo,
    ps: Seq<RunningProcess>,
    my_pid: u32,
    n: int,
    k: Seq<char>,
)
    requires
        0 <= n < ps.len(),
        !affected(ps[n], my_pid) || service_key(service_of(ps[n])) != k,
        describes(info, ps, my_pid, n, k),
    ensures
        describes(info, ps, my_pid, n + 1, k),
{
    assert forall|t: Seq<char>| #[trigger] text::texts(info.deleted_files@).contains(t) <==> service_uses(
        ps,
        my_pid,
        n + 1,
        k,
        t,
    ) by {
        uses_step(ps, my_pid, n, k, t);
        assert(text::texts(info.deleted_files@).contains(t) <==> service_uses(ps, my_pid, n, k, t));
    }
}

proof fn uses_step(ps: Seq<RunningProcess>, my_pid: u32, n: int, k: Seq<char>, t: Seq<char>)
    requires
        0 <= n < ps.len(),
    ensures
        service_uses(ps, my_pid, n + 1, k, t) == (service_uses(ps, my_pid, n, k, t) || (affected(
            ps[n],
            my_pid,
        ) && service_key(service_of(ps[n])) == k && deleted_in(ps[n].maps->0@, t))),
{
    if service_uses(ps, my_pid, n + 1, k, t) {
        let i = choose|i: int|
            0 <= i < n + 1 && affected(#[trigger] ps[i], my_pid) && service_key(service_of(ps[i]))
                == k && deleted_in(ps[i].maps->0@, t);
        if i < n {
            assert(affected(ps[i], my_pid));
            assert(service_uses(ps, my_pid, n, k, t));
        }
    }
    if service_uses(ps, my_pid, n, k, t) {
        let i = choose|i: int|
            0 <= i < n && affected(#[trigger] ps[i], my_pid) && service_key(service_of(ps[i])) == k
                && deleted_in(ps[i].maps->0@, t);
        assert(0 <= i < n + 1 && affected(ps[i], my_pid));
    }
}

proof fn collected_add(
    before: Seq<(Seq<char>, ProcessRestartInfo)>,
    after: Seq<(Seq<char>, ProcessRestartInfo)>,
    info: ProcessRestartInfo,
    ps: Seq<RunningProcess>,
    my_pid: u32,
    n: int,
    key: Seq<char>,
)
    requires
        0 <= n < ps.len(),
        collected(before, ps, my_pid, n),
        affected(ps[n], my_pid),
        service_key(service_of(ps[n])) == key,
        describes(info, ps, my_pid, n + 1, key),
        strmap::lookup(after, key) == Some(info),
        forall|k: Seq<char>| k != key ==> #[trigger] strmap::lookup(after, k) == strmap::lookup(before, k),
    ensures
        collected(after, ps, my_pid, n + 1),
{
    assert forall|k: Seq<char>|
        match #[trigger] strmap::lookup(after, k) {
            Some(i) => service_affected(ps, my_pid, n + 1, k) && describes(
                i,
                ps,
                my_pid,
                n + 1,
                k,
            ),
            None => !service_affected(ps, my_pid, n + 1, k),
        } by {
        if k == key {
            assert(affected(ps[n], my_pid) && service_key(service_of(ps[n])) == key);
            assert(service_affected(ps, my_pid, n + 1, key));
        } else {
            other_key(ps, my_pid, n, k);
            assert(strmap::lookup(after, k) == strmap::lookup(before, k));
            match strmap::lookup(before, k) {
                Some(i) => {
                    describes_other(i, ps, my_pid, n, k);
                },
                None => {},
            }
        }
    }
}

impl RestartInspector {
    /// Whether the system runs another kernel than the one that is installed now. `installed`
    /// are the kernels whose modules are there, in the order of their versions, if they could
    /// be listed.
    pub fn check_kernel_update(
        updated_pkgs: &Vec<ResolvedPackage>,
        running: Option<&str>,
        running_modules: bool,
        installed: Option<&Vec<String>>,
    ) -> (r: Option<KernelUpdateInfo>)
        ensures
            match r {
                Some(info) => {
                    &&& running is Some
                    &&& installed is Some
                    &&& info.running@ == running->0@
                    &&& info.installed@ == latest_of(text::texts(installed->0@))
                },
                None => true,
            },
            r is Some <==> {
                &&& running is Some
                &&& installed is Some
                &&& !running_modules || updates_kernel(updated_pkgs@)
                &&& latest_of(text::texts(installed->0@)) != running->0@
            },
    {
        let run: &str = match running {
            Some(k) => k,
            None => {
                return None;
            },
        };
        let versions = match installed {
            Some(v) => v,
            None => {
                return None;
            },
        };
        let mut updated: bool = false;
        let mut i: usize = 0;
        while i < updated_pkgs.len()
            invariant
                i <= updated_pkgs@.len(),
                updated == exists|j: int|
                    0 <= j < i && utils::kernel_package((#[trigger] updated_pkgs@[j]).name@)
                        && updated_pkgs@[j].candidate is Some,
            decreases updated_pkgs@.len() - i,
        {
            let ghost before = updated;
            if is_kernel_package(&updated_pkgs[i].name) && updated_pkgs[i].candidate.is_some() {
                updated = true;
                assert(utils::kernel_package(updated_pkgs@[i as int].name@));
            }
            proof {
                if before {
                    let j = choose|j: int|
                        0 <= j < i && utils::kernel_package((#[trigger] updated_pkgs@[j]).name@)
                            && updated_pkgs@[j].candidate is Some;
                    assert(utils::kernel_package(updated_pkgs@[j].name@));
                }
            }
            i += 1;
        }
        if !running_modules || updated {
            let n: usize = versions.len();
            let ghost all = text::texts(versions@);
            assert(all.len() == n);
            let latest: String = if n == 0 {
                "newer".to_string()
            } else {
                assert(all.last() == versions@[n - 1]@);
                versions[n - 1].clone()
            };
            if !str_eq(&latest, run) {
                return Some(KernelUpdateInfo { running: run.to_string(), installed: latest });
            }
        }
        None
    }

    /// The running kernel, out of the file that names it.
    pub fn get_running_kernel(content: Option<&str>) -> (r: Option<String>)
        ensures
            text::opt_text(r) == match content {
                Some(c) => if text::trim(c@).len() > 0 {
                    Some(text::trim(c@))
                } else {
                    None
                },
                None => None,
            },
    {
        match content {
            Some(c) => {
                let t = trimmed(c);
                if t.as_str().is_empty() {
                    None
                } else {
                    Some(t)
                }
            },
            None => None,
        }
    }

    /// Whether a process is part of the desktop session.
    pub fn is_session_component(comm: &str, service_name: &str) -> (r: bool)
        ensures
            r == session_component(comm@, service_name@),
    {
        let c = lower_string(comm);
        let s = lower_string(service_name);
        str_eq(&c, "gnome-shell") || str_eq(&c, "mutter") || starts_with(&c, "mutter-") || str_eq(
            &c,
            "kwin",
        ) || str_eq(&c, "kwin_wayland") || str_eq(&c, "kwin_x11") || str_eq(&c, "sway") || str_eq(
            &c,
            "hyprland",
        ) || str_eq(&c, "wayfire") || str_eq(&c, "cosmic-comp") || str_eq(&c, "gdm") || str_eq(
            &c,
            "sddm",
        ) || str_eq(&c, "lightdm") || str_eq(&c, "xorg") || str_eq(&c, "xwayland") || contains(
            &s,
            "gnome.shell",
        ) || contains(&s, "kwin") || starts_with(&s, "gdm") || starts_with(&s, "sddm")
            || starts_with(&s, "lightdm")
    }

    /// What a process belongs to, by its control group.
    pub fn parse_cgroup_service(cgroup_content: &str, comm: &str, pid: u32) -> (r: ServiceType)
        ensures
            r@ == cgroup_service(text::lines(cgroup_content@), comm@, pid, 0),
    {
        let ls = lines_of(cgroup_content);
        let ghost all = text::texts(ls@);
        let mut i: usize = 0;
        while i < ls.len()
            invariant
                i <= ls@.len(),
                all == text::texts(ls@),
                all.len() == ls@.len(),
                cgroup_service(all, comm@, pid, 0) == cgroup_service(all, comm@, pid, i as int),
                all == text::lines(cgroup_content@),
            decreases ls@.len() - i,
        {
            assert(all[i as int] == ls@[i as int]@);
            match service_in_line(&ls[i], comm, pid) {
                Some(s) => {
                    return s;
                },
                None => {},
            }
            i += 1;
        }
        ServiceType::Process { name: comm.to_string(), pid }
    }

    /// The services that use deleted libraries, each once, in the order of their keys.
    pub fn check_deleted_libraries(processes: &Vec<RunningProcess>, my_pid: u32) -> (r: Vec<
        ProcessRestartInfo,
    >)
        ensures
            text::ascending(info_keys(r@)),
            forall|k: Seq<char>| #[trigger]
                info_keys(r@).contains(k) <==> service_affected(
                    processes@,
                    my_pid,
                    processes@.len() as int,
                    k,
                ),
            forall|i: int|
                0 <= i < r@.len() ==> describes(
                    #[trigger] r@[i],
                    processes@,
                    my_pid,
                    processes@.len() as int,
                    service_key(r@[i].service@),
                ),
    {
        let mut m: StrMap<ProcessRestartInfo> = StrMap::new();
        let mut i: usize = 0;
        while i < processes.len()
            invariant
                i <= processes@.len(),
                m.ordered(),
                collected(m@, processes@, my_pid, i as int),
            decreases processes@.len() - i,
        {
            match inspect(&processes[i], my_pid) {
                None => {
                    proof {
                        collected_skip(m@, processes@, my_pid, i as int);
                    }
                },
                Some(info) => {
                    let key = key_of_service(&info.service);
                    let ghost before = m@;
                    let ghost k = key@;
                    let ghost ps = processes@;
                    let merged: ProcessRestartInfo = match m.get(&key) {
                        Some(known) => {
                            let mut libs = clone_strings(&known.deleted_files);
                            add_libraries(&mut libs, &info.deleted_files);
                            let out = ProcessRestartInfo {
                                service: same_service(&known.service),
                                deleted_files: libs,
                            };
                            proof {
                                assert(describes(*known, ps, my_pid, i as int, k));
                                assert forall|t: Seq<char>| #[trigger]
                                    text::texts(out.deleted_files@).contains(t) <==> service_uses(
                                    ps,
                                    my_pid,
                                    i + 1,
                                    k,
                                    t,
                                ) by {
                                    uses_step(ps, my_pid, i as int, k, t);
                                    assert(text::texts(known.deleted_files@).contains(t) <==> service_uses(
                                        ps,
                                        my_pid,
                                        i as int,
                                        k,
                                        t,
                                    ));
                                    assert(text::texts(info.deleted_files@).contains(t) <==> deleted_in(
                                        ps[i as int].maps->0@,
                                        t,
                                    ));
                                }
                            }
                            out
                        },
                        None => {
                            proof {
                                assert(!service_affected(ps, my_pid, i as int, k));
                                assert forall|t: Seq<char>| #[trigger]
                                    text::texts(info.deleted_files@).contains(t) <==> service_uses(
                                    ps,
                                    my_pid,
                                    i + 1,
                                    k,
                                    t,
                                ) by {
                                    uses_step(ps, my_pid, i as int, k, t);
                                    if service_uses(ps, my_pid, i as int, k, t) {
                                        let j = choose|j: int|
                                            0 <= j < i && affected(#[trigger] ps[j], my_pid)
                                                && service_key(service_of(ps[j])) == k
                                                && deleted_in(ps[j].maps->0@, t);
                                        assert(service_affected(ps, my_pid, i as int, k));
                                    }
                                }
                            }
                            info
                        },
                    };
                    let ghost value = merged;
                    m.insert(key, merged);
                    proof {
                        collected_add(before, m@, value, ps, my_pid, i as int, k);
                    }
                },
            }
            i += 1;
        }
        let mut out: Vec<ProcessRestartInfo> = Vec::new();
        let n: usize = m.len();
        let ghost entries = m@;
        let ghost ps = processes@;
        let mut j: usize = 0;
        while j < n
            invariant
                j <= n,
                n == m@.len(),
                entries == m@,
                ps == processes@,
                m.ordered(),
                collected(entries, ps, my_pid, ps.len() as int),
                out@.len() == j,
                forall|x: int|
                    0 <= x < j ==> describes(
                        #[trigger] out@[x],
                        ps,
                        my_pid,
                        ps.len() as int,
                        entries[x].0,
                    ),
            decreases n - j,
        {
            let info = m.value_at(j);
            proof {
                strmap::lookup_entry(entries, j as int);
                assert(describes(*info, ps, my_pid, ps.len() as int, entries[j as int].0));
            }
            let copy = ProcessRestartInfo {
                service: same_service(&info.service),
                deleted_files: clone_strings(&info.deleted_files),
            };
            proof {
                assert forall|t: Seq<char>| #[trigger]
                    text::texts(copy.deleted_files@).contains(t) <==> service_uses(
                    ps,
                    my_pid,
                    ps.len() as int,
                    entries[j as int].0,
                    t,
                ) by {
                    assert(text::texts(info.deleted_files@).contains(t) <==> service_uses(
                        ps,
                        my_pid,
                        ps.len() as int,
                        entries[j as int].0,
                        t,
                    ));
                }
            }
            out.push(copy);
            j += 1;
        }
        proof {
            assert(info_keys(out@) =~= strmap::keys(entries)) by {
                assert forall|x: int| 0 <= x < out@.len() implies info_keys(out@)[x] == strmap::keys(
                    entries,
                )[x] by {
                    assert(describes(out@[x], ps, my_pid, ps.len() as int, entries[x].0));
                }
            }
            assert forall|k: Seq<char>| #[trigger] info_keys(out@).contains(k)
                <==> service_affected(ps, my_pid, ps.len() as int, k) by {
                let found = strmap::lookup(entries, k);
                if strmap::keys(entries).contains(k) {
                    let x = choose|x: int|
                        0 <= x < strmap::keys(entries).len() && strmap::keys(entries)[x] == k;
                    strmap::lookup_entry(entries, x);
                }
                strmap::lookup_from_found(entries, k, 0);
                if found is Some {
                    let x = choose|x: int|
                        0 <= x < entries.len() && (#[trigger] entries[x]).0 == k;
                    assert(strmap::keys(entries)[x] == k);
                    assert(info_keys(out@)[x] == k);
                }
            }
        }
        out
    }
}

// ---------------------------------------------------------------------------------------
// Advice

/// The file name of a path, or all of it where it has none.
pub open spec fn file_name_of(path: Seq<char>) -> Seq<char> {
    let steps = extract::path_steps(path);
    if steps.len() == 0 || steps.last() == ".."@ {
        path
    } else {
        steps.last()
    }
}

fn file_name_text(path: &str) -> (r: String)
    ensures
        r@ == file_name_of(path@),
{
    let steps = steps_of(path);
    let n: usize = steps.len();
    let ghost all = text::texts(steps@);
    assert(all.len() == n);
    if n == 0 {
        return path.to_string();
    }
    assert(all.last() == steps@[n - 1]@);
    if str_eq(&steps[n - 1], "..") {
        path.to_string()
    } else {
        steps[n - 1].clone()
    }
}

/// The first of the libraries, and how many others there are.
pub open spec fn library_summary(libs: Seq<Seq<char>>) -> Seq<char> {
    let first = if libs.len() == 0 {
        Seq::empty()
    } else {
        file_name_of(libs[0])
    };
    if libs.len() > 1 {
        first + " (+"@ + text::digits_of((libs.len() - 1) as nat) + " others)"@
    } else {
        first
    }
}

/// The name of a service, and what to do about it.
pub open spec fn advice(s: ServiceView) -> ((Seq<char>, Style), (Seq<char>, Style)) {
    match s {
        ServiceView::SystemdSystem(n) => (
            (style::pad_end(n, 34), Style::BoldCyan),
            ("sudo systemctl restart "@ + n, Style::Green),
        ),
        ServiceView::SystemdUser(n) => (
            (style::pad_end(n, 34), Style::BoldCyan),
            (
                if n == "systemd --user"@ {
                    "systemctl --user daemon-reexec"@
                } else {
                    "systemctl --user restart "@ + n
                },
                Style::Green,
            ),
        ),
        ServiceView::SessionComponent(n) => (
            (style::pad_end(n, 34), Style::BoldCyan),
            ("re-login or reboot to apply (desktop session)"@, Style::Yellow),
        ),
        ServiceView::Process { name, pid } => (
            (style::pad_end(name + " (PID "@ + text::digits_of(pid as nat) + ")"@, 34), Style::Cyan),
            ("restart application"@, Style::Dimmed),
        ),
    }
}

pub open spec fn advice_row(info: ProcessRestartInfo) -> Seq<(Seq<char>, Style)> {
    let (name, what) = advice(info.service@);
    style::row6(
        ("    - "@, Style::Plain),
        name,
        (" ["@, Style::Plain),
        (library_summary(text::texts(info.deleted_files@)), Style::Dimmed),
        ("] ➔ "@, Style::Plain),
        what,
    )
}

pub open spec fn advice_rows(infos: Seq<ProcessRestartInfo>, n: int) -> Seq<
    Seq<(Seq<char>, Style)>,
>
    decreases n,
{
    if n <= 0 {
        Seq::empty()
    } else {
        advice_rows(infos, n - 1).push(advice_row(infos[n - 1]))
    }
}

/// The advice after an upgrade; nothing at all where nothing has to be restarted.
pub open spec fn advisory(kernel: Option<KernelUpdateInfo>, infos: Seq<ProcessRestartInfo>) -> Seq<
    Seq<(Seq<char>, Style)>,
> {
    if kernel is None && infos.len() == 0 {
        Seq::empty()
    } else {
        style::page2(
            style::empty_row(),
            style::row1((":: Post-Upgrade Restart Advisory:"@, Style::BoldYellow)),
        ) + (match kernel {
            Some(k) => style::page1(
                style::row10(
                    ("  "@, Style::Plain),
                    ("•"@, Style::Yellow),
                    (" "@, Style::Plain),
                    ("Kernel updated:"@, Style::Bold),
                    (" (running: "@, Style::Plain),
                    (k.running@, Style::Cyan),
                    (", installed: "@, Style::Plain),
                    (k.installed@, Style::Green),
                    (") ➔ "@, Style::Plain),
                    ("System reboot required to boot into new kernel"@, Style::BoldYellow),
                ),
            ),
            None => Seq::empty(),
        }) + (if infos.len() > 0 {
            style::page1(
                style::row4(
                    ("  "@, Style::Plain),
                    ("•"@, Style::Yellow),
                    (" "@, Style::Plain),
                    ("Services running outdated shared libraries in RAM:"@, Style::Bold),
                ),
            ) + advice_rows(infos, infos.len() as int)
        } else {
            Seq::empty()
        }) + style::page1(style::empty_row())
    }
}

/// Where nothing has to be restarted, nothing is said; and where something has to be, something
/// is said.
pub proof fn silent_without_need(kernel: Option<KernelUpdateInfo>, infos: Seq<ProcessRestartInfo>)
    ensures
        advisory(kernel, infos).len() == 0 <==> kernel is None && infos.len() == 0,
{
}

fn summary_of(libs: &Vec<String>) -> (r: String)
    ensures
        r@ == library_summary(text::texts(libs@)),
{
    let n: usize = libs.len();
    let ghost all = text::texts(libs@);
    assert(all.len() == n);
    let first: String = if n == 0 {
        String::new()
    } else {
        assert(all[0] == libs@[0]@);
        file_name_text(&libs[0])
    };
    assert(n == 0 ==> first@ =~= Seq::<char>::empty());
    if n > 1 {
        let d = number_text((n - 1) as u64);
        let mut t = text3(&first, " (+", &d);
        t.append(" others)");
        t
    } else {
        first
    }
}

fn make_advice_row(info: &ProcessRestartInfo) -> (r: Line)
    ensures
        r@ == advice_row(*info),
{
    let libs = summary_of(&info.deleted_files);
    let (name, name_style, what, what_style) = match &info.service {
        ServiceType::SystemdSystem(s) => (
            padded_end(s, 34),
            Style::BoldCyan,
            text2("sudo systemctl restart ", s),
            Style::Green,
        ),
        ServiceType::SystemdUser(s) => (
            padded_end(s, 34),
            Style::BoldCyan,
            if str_eq(s, "systemd --user") {
                "systemctl --user daemon-reexec".to_string()
            } else {
                text2("systemctl --user restart ", s)
            },
            Style::Green,
        ),
        ServiceType::SessionComponent(s) => (
            padded_end(s, 34),
            Style::BoldCyan,
            "re-login or reboot to apply (desktop session)".to_string(),
            Style::Yellow,
        ),
        ServiceType::Process { name, pid } => {
            let d = number_text(*pid as u64);
            let mut t = text3(name, " (PID ", &d);
            t.append(")");
            (padded_end(&t, 34), Style::Cyan, "restart application".to_string(), Style::Dimmed)
        },
    };
    Line::new().with("    - ", Style::Plain).with(&name, name_style).with(" [", Style::Plain).with(
        &libs,
        Style::Dimmed,
    ).with("] ➔ ", Style::Plain).with(&what, what_style)
}

impl RestartInspector {
    /// The advice after an upgrade. It is silent where nothing has to be restarted.
    pub fn print_restart_advisory(
        kernel_update: &Option<KernelUpdateInfo>,
        services: &Vec<ProcessRestartInfo>,
    ) -> (r: Page)
        ensures
            r@ == advisory(*kernel_update, services@),
    {
        if kernel_update.is_none() && services.len() == 0 {
            return Page::new();
        }
        let head = Page::new().gap().line(":: Post-Upgrade Restart Advisory:", Style::BoldYellow);
        let kernel = match kernel_update {
            Some(k) => Page::new().with(
                Line::new().with("  ", Style::Plain).with("•", Style::Yellow).with(
                    " ",
                    Style::Plain,
                ).with("Kernel updated:", Style::Bold).with(" (running: ", Style::Plain).with(
                    &k.running,
                    Style::Cyan,
                ).with(", installed: ", Style::Plain).with(&k.installed, Style::Green).with(
                    ") ➔ ",
                    Style::Plain,
                ).with("System reboot required to boot into new kernel", Style::BoldYellow),
            ),
            None => Page::new(),
        };
        let list = if services.len() > 0 {
            let top = Page::new().with(
                Line::new().with("  ", Style::Plain).with("•", Style::Yellow).with(
                    " ",
                    Style::Plain,
                ).with("Services running outdated shared libraries in RAM:", Style::Bold),
            );
            let mut rows = Page::new();
            let mut i: usize = 0;
            while i < services.len()
                invariant
                    i <= services@.len(),
                    rows@ == advice_rows(services@, i as int),
                decreases services@.len() - i,
            {
                rows = rows.with(make_advice_row(&services[i]));
                i += 1;
            }
            top.and(rows)
        } else {
            Page::new()
        };
        let end = Page::new().gap();
        head.and(kernel).and(list).and(end)
    }
}

} // verus!
