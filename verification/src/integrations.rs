//! Other package managers whose updates are shown and run along: Flatpak, Nix and Pipx.
use crate::config::Config;
use crate::db::{VersionOrder, trimmed_lines};
use crate::db;
use crate::json::{json_members, json_text};
use crate::json;
use crate::paths::join_path;
use crate::paths;
use crate::pm::CommandLine;
use crate::pm;
use crate::resolver;
use crate::text::{join_strings, lines_of, no_strings, push_str, push_strs, split_string, str_eq, trimmed};
use crate::text;
use crate::utils::sanitize_display_text;
use crate::utils;
use vstd::prelude::*;
use vstd::string::*;

verus! {

/// An update that another package manager has.
#[derive(Debug, Clone)]
pub struct ExternalUpdate {
    pub runner: String,
    pub id: String,
    pub name: String,
    pub repo: String,
    pub version: String,
}

#[verifier::ext_equal]
pub struct UpdateView {
    pub runner: Seq<char>,
    pub id: Seq<char>,
    pub name: Seq<char>,
    pub repo: Seq<char>,
    pub version: Seq<char>,
}

impl View for ExternalUpdate {
    type V = UpdateView;

    open spec fn view(&self) -> UpdateView {
        UpdateView {
            runner: self.runner@,
            id: self.id@,
            name: self.name@,
            repo: self.repo@,
            version: self.version@,
        }
    }
}

pub open spec fn update_views(v: Seq<ExternalUpdate>) -> Seq<UpdateView> {
    Seq::new(v.len(), |i: int| v[i]@)
}

pub open spec fn update_ids(v: Seq<ExternalUpdate>) -> Seq<Seq<char>> {
    Seq::new(v.len(), |i: int| v[i].id@)
}

impl ExternalUpdate {
    pub fn dup(&self) -> (r: Self)
        ensures
            r@ == self@,
    {
        ExternalUpdate {
            runner: self.runner.clone(),
            id: self.id.clone(),
            name: self.name.clone(),
            repo: self.repo.clone(),
            version: self.version.clone(),
        }
    }
}

fn push_update(v: &mut Vec<ExternalUpdate>, u: ExternalUpdate)
    ensures
        update_views(final(v)@) == update_views(old(v)@).push(u@),
{
    let ghost before = update_views(v@);
    v.push(u);
    assert(update_views(v@) =~= before.push(u@));
}

fn ids_of(updates: &Vec<ExternalUpdate>) -> (r: Vec<String>)
    ensures
        text::texts(r@) == update_ids(updates@),
{
    let mut out: Vec<String> = Vec::new();
    let mut i: usize = 0;
    while i < updates.len()
        invariant
            i <= updates@.len(),
            out@.len() == i,
            forall|j: int| 0 <= j < i ==> (#[trigger] out@[j])@ == updates@[j].id@,
        decreases updates@.len() - i,
    {
        out.push(updates[i].id.clone());
        i += 1;
    }
    assert(text::texts(out@) =~= update_ids(updates@));
    out
}

/// What is asked of another package manager, as command lines.
pub trait IntegrationProvider {
    /// The name under which its updates run.
    spec fn label(&self) -> Seq<char>;

    /// The command that upgrades, as it is shown.
    spec fn upgrade_text(&self, ids: Seq<Seq<char>>) -> Seq<char>;

    spec fn clean_text(&self) -> Seq<char>;

    spec fn cleans(&self) -> bool;

    fn name(&self) -> (r: &'static str)
        ensures
            r@ == self.label(),
    ;

    fn upgrade_command_str(&self, updates: &Vec<ExternalUpdate>) -> (r: String)
        ensures
            r@ == self.upgrade_text(update_ids(updates@)),
    ;

    fn clean_command_str(&self) -> (r: String)
        ensures
            r@ == self.clean_text(),
    ;

    fn supports_clean(&self) -> (r: bool)
        ensures
            r == self.cleans(),
    ;
}

pub struct FlatpakProvider;

pub struct NixProvider;

pub struct PipxProvider;

impl IntegrationProvider for FlatpakProvider {
    open spec fn label(&self) -> Seq<char> {
        "Flatpak"@
    }

    open spec fn upgrade_text(&self, ids: Seq<Seq<char>>) -> Seq<char> {
        if ids.len() == 0 {
            "flatpak update -y"@
        } else {
            "flatpak update -y -- "@ + text::join(ids, " "@)
        }
    }

    open spec fn clean_text(&self) -> Seq<char> {
        "flatpak uninstall --unused -y"@
    }

    open spec fn cleans(&self) -> bool {
        true
    }

    fn name(&self) -> (r: &'static str) {
        "Flatpak"
    }

    fn upgrade_command_str(&self, updates: &Vec<ExternalUpdate>) -> (r: String) {
        if updates.len() == 0 {
            return "flatpak update -y".to_string();
        }
        let ids = ids_of(updates);
        let list = join_strings(&ids, " ");
        let mut out: String = "flatpak update -y -- ".to_string();
        out.append(&list);
        out
    }

    fn clean_command_str(&self) -> (r: String) {
        "flatpak uninstall --unused -y".to_string()
    }

    fn supports_clean(&self) -> (r: bool) {
        true
    }
}

impl IntegrationProvider for NixProvider {
    open spec fn label(&self) -> Seq<char> {
        "Nix"@
    }

    open spec fn upgrade_text(&self, ids: Seq<Seq<char>>) -> Seq<char> {
        "nix profile upgrade '.*'"@
    }

    open spec fn clean_text(&self) -> Seq<char> {
        "nix-collect-garbage -d"@
    }

    open spec fn cleans(&self) -> bool {
        true
    }

    fn name(&self) -> (r: &'static str) {
        "Nix"
    }

    fn upgrade_command_str(&self, updates: &Vec<ExternalUpdate>) -> (r: String) {
        "nix profile upgrade '.*'".to_string()
    }

    fn clean_command_str(&self) -> (r: String) {
        "nix-collect-garbage -d".to_string()
    }

    fn supports_clean(&self) -> (r: bool) {
        true
    }
}

impl IntegrationProvider for PipxProvider {
    open spec fn label(&self) -> Seq<char> {
        "Pipx"@
    }

    open spec fn upgrade_text(&self, ids: Seq<Seq<char>>) -> Seq<char> {
        "pipx upgrade-all"@
    }

    open spec fn clean_text(&self) -> Seq<char> {
        "pipx list"@
    }

    open spec fn cleans(&self) -> bool {
        false
    }

    fn name(&self) -> (r: &'static str) {
        "Pipx"
    }

    fn upgrade_command_str(&self, updates: &Vec<ExternalUpdate>) -> (r: String) {
        "pipx upgrade-all".to_string()
    }

    fn clean_command_str(&self) -> (r: String) {
        "pipx list".to_string()
    }

    fn supports_clean(&self) -> (r: bool) {
        false
    }
}

/// One of the known package managers.
#[derive(Debug, Clone, Copy, PartialEq, Eq, Structural)]
pub enum Provider {
    Flatpak,
    Nix,
    Pipx,
}

impl IntegrationProvider for Provider {
    open spec fn label(&self) -> Seq<char> {
        match *self {
            Provider::Flatpak => FlatpakProvider.label(),
            Provider::Nix => NixProvider.label(),
            Provider::Pipx => PipxProvider.label(),
        }
    }

    open spec fn upgrade_text(&self, ids: Seq<Seq<char>>) -> Seq<char> {
        match *self {
            Provider::Flatpak => FlatpakProvider.upgrade_text(ids),
            Provider::Nix => NixProvider.upgrade_text(ids),
            Provider::Pipx => PipxProvider.upgrade_text(ids),
        }
    }

    open spec fn clean_text(&self) -> Seq<char> {
        match *self {
            Provider::Flatpak => FlatpakProvider.clean_text(),
            Provider::Nix => NixProvider.clean_text(),
            Provider::Pipx => PipxProvider.clean_text(),
        }
    }

    open spec fn cleans(&self) -> bool {
        match *self {
            Provider::Flatpak => FlatpakProvider.cleans(),
            Provider::Nix => NixProvider.cleans(),
            Provider::Pipx => PipxProvider.cleans(),
        }
    }

    fn name(&self) -> (r: &'static str) {
        match *self {
            Provider::Flatpak => FlatpakProvider.name(),
            Provider::Nix => NixProvider.name(),
            Provider::Pipx => PipxProvider.name(),
        }
    }

    fn upgrade_command_str(&self, updates: &Vec<ExternalUpdate>) -> (r: String) {
        match *self {
            Provider::Flatpak => FlatpakProvider.upgrade_command_str(updates),
            Provider::Nix => NixProvider.upgrade_command_str(updates),
            Provider::Pipx => PipxProvider.upgrade_command_str(updates),
        }
    }

    fn clean_command_str(&self) -> (r: String) {
        match *self {
            Provider::Flatpak => FlatpakProvider.clean_command_str(),
            Provider::Nix => NixProvider.clean_command_str(),
            Provider::Pipx => PipxProvider.clean_command_str(),
        }
    }

    fn supports_clean(&self) -> (r: bool) {
        match *self {
            Provider::Flatpak => FlatpakProvider.supports_clean(),
            Provider::Nix => NixProvider.supports_clean(),
            Provider::Pipx => PipxProvider.supports_clean(),
        }
    }
}

impl Provider {
    /// The command that upgrades the given packages.
    pub fn upgrade_command(&self, updates: &Vec<ExternalUpdate>) -> (r: CommandLine)
        ensures
            match *self {
                Provider::Flatpak => pm::runs(
                    r,
                    "flatpak"@,
                    seq!["update"@, "-y"@, "--"@] + update_ids(updates@),
                ),
                Provider::Nix => pm::runs(r, "nix"@, seq!["profile"@, "upgrade"@, ".*"@]),
                Provider::Pipx => pm::runs(r, "pipx"@, seq!["upgrade-all"@]),
            },
    {
        let mut args = no_strings();
        match *self {
            Provider::Flatpak => {
                push_str(&mut args, "update");
                push_str(&mut args, "-y");
                push_str(&mut args, "--");
                assert(text::texts(args@) =~= seq!["update"@, "-y"@, "--"@]);
                let ids = ids_of(updates);
                push_strs(&mut args, &ids);
                CommandLine { program: "flatpak".to_string(), args }
            },
            Provider::Nix => {
                push_str(&mut args, "profile");
                push_str(&mut args, "upgrade");
                push_str(&mut args, ".*");
                assert(text::texts(args@) =~= seq!["profile"@, "upgrade"@, ".*"@]);
                CommandLine { program: "nix".to_string(), args }
            },
            Provider::Pipx => {
                push_str(&mut args, "upgrade-all");
                assert(text::texts(args@) =~= seq!["upgrade-all"@]);
                CommandLine { program: "pipx".to_string(), args }
            },
        }
    }

    /// The command to try where the first one to upgrade has failed.
    pub fn upgrade_fallback(&self) -> (r: Option<CommandLine>)
        ensures
            match *self {
                Provider::Nix => r is Some && pm::runs(r->0, "nix-env"@, seq!["-u"@]),
                _ => r is None,
            },
    {
        match *self {
            Provider::Nix => {
                let mut args = no_strings();
                push_str(&mut args, "-u");
                assert(text::texts(args@) =~= seq!["-u"@]);
                Some(CommandLine { program: "nix-env".to_string(), args })
            },
            _ => None,
        }
    }

    /// The command that removes what is not used, for those that have one.
    pub fn clean_command(&self) -> (r: Option<CommandLine>)
        ensures
            match *self {
                Provider::Flatpak => r is Some && pm::runs(
                    r->0,
                    "flatpak"@,
                    seq!["uninstall"@, "--unused"@, "-y"@],
                ),
                Provider::Nix => r is Some && pm::runs(r->0, "nix-collect-garbage"@, seq!["-d"@]),
                Provider::Pipx => r is None,
            },
            r is Some == self.cleans(),
    {
        let mut args = no_strings();
        match *self {
            Provider::Flatpak => {
                push_str(&mut args, "uninstall");
                push_str(&mut args, "--unused");
                push_str(&mut args, "-y");
                assert(text::texts(args@) =~= seq!["uninstall"@, "--unused"@, "-y"@]);
                Some(CommandLine { program: "flatpak".to_string(), args })
            },
            Provider::Nix => {
                push_str(&mut args, "-d");
                assert(text::texts(args@) =~= seq!["-d"@]);
                Some(CommandLine { program: "nix-collect-garbage".to_string(), args })
            },
            Provider::Pipx => None,
        }
    }
}

// ---------------------------------------------------------------------------------------
// What the other package managers report

pub open spec fn clean_part(part: Seq<char>) -> Seq<char> {
    utils::sanitized(text::trim(part))
}

pub open spec fn or_else_text(s: Seq<char>, other: Seq<char>) -> Seq<char> {
    if s.len() == 0 {
        other
    } else {
        s
    }
}

/// The update in one line of Flatpak's list: name, identifier, version and origin with tabs
/// between them. A line with fewer parts or without an identifier holds none.
pub open spec fn flatpak_line(line: Seq<char>) -> Option<UpdateView> {
    let parts = text::split_on(line, '\t');
    if parts.len() < 4 || clean_part(parts[1]).len() == 0 {
        None
    } else {
        let id = clean_part(parts[1]);
        Some(
            UpdateView {
                runner: "Flatpak"@,
                id,
                name: or_else_text(clean_part(parts[0]), id),
                repo: or_else_text(clean_part(parts[3]), "flathub"@),
                version: or_else_text(clean_part(parts[2]), "update"@),
            },
        )
    }
}

pub open spec fn flatpak_upto(ls: Seq<Seq<char>>, n: int) -> Seq<UpdateView>
    decreases n,
{
    if n <= 0 {
        Seq::empty()
    } else {
        match flatpak_line(ls[n - 1]) {
            Some(u) => flatpak_upto(ls, n - 1).push(u),
            None => flatpak_upto(ls, n - 1),
        }
    }
}

fn cleaned(part: &str) -> (r: String)
    ensures
        r@ == clean_part(part@),
{
    let t = trimmed(part);
    sanitize_display_text(&t)
}

fn or_else(s: String, other: &str) -> (r: String)
    ensures
        r@ == or_else_text(s@, other@),
{
    if s.as_str().is_empty() {
        other.to_string()
    } else {
        s
    }
}

/// The updates in Flatpak's list.
pub fn parse_flatpak_updates(output: &str) -> (r: Vec<ExternalUpdate>)
    ensures
        update_views(r@) == flatpak_upto(text::lines(output@), text::lines(output@).len() as int),
{
    let ls = lines_of(output);
    let ghost all = text::lines(output@);
    let mut out: Vec<ExternalUpdate> = Vec::new();
    let mut i: usize = 0;
    assert(update_views(out@) =~= Seq::<UpdateView>::empty());
    while i < ls.len()
        invariant
            i <= ls@.len(),
            all == text::lines(output@),
            text::texts(ls@) == all,
            update_views(out@) == flatpak_upto(all, i as int),
        decreases ls@.len() - i,
    {
        assert(all[i as int] == ls@[i as int]@);
        let parts = split_string(&ls[i], '\t');
        assert(text::texts(parts@).len() == parts@.len());
        if parts.len() >= 4 {
            assert(text::texts(parts@)[0] == parts@[0]@);
            assert(text::texts(parts@)[1] == parts@[1]@);
            assert(text::texts(parts@)[2] == parts@[2]@);
            assert(text::texts(parts@)[3] == parts@[3]@);
            let name = cleaned(&parts[0]);
            let id = cleaned(&parts[1]);
            let ver = cleaned(&parts[2]);
            let origin = cleaned(&parts[3]);
            if !id.as_str().is_empty() {
                let u = ExternalUpdate {
                    runner: "Flatpak".to_string(),
                    name: or_else(name, &id),
                    id,
                    repo: or_else(origin, "flathub"),
                    version: or_else(ver, "update"),
                };
                push_update(&mut out, u);
            }
        }
        i += 1;
    }
    out
}

/// Every text of a Flatpak update is free of escapes and control characters.
pub proof fn flatpak_updates_are_visible(line: Seq<char>)
    requires
        flatpak_line(line) is Some,
    ensures
        forall|k: int|
            0 <= k < flatpak_line(line)->0.id.len() ==> !utils::is_hidden(
                #[trigger] flatpak_line(line)->0.id[k],
            ),
        flatpak_line(line)->0.id.len() > 0,
{
    utils::sanitized_is_visible(text::trim(text::split_on(line, '\t')[1]));
}

pub open spec fn nix_upto(ls: Seq<Seq<char>>, n: int) -> Seq<UpdateView>
    decreases n,
{
    if n <= 0 {
        Seq::empty()
    } else {
        let t = ls[n - 1];
        nix_upto(ls, n - 1).push(
            UpdateView {
                runner: "Nix"@,
                id: t,
                name: t,
                repo: "nixpkgs"@,
                version: "latest"@,
            },
        )
    }
}

/// The updates in Nix's list: one in each line that is not blank.
pub fn parse_nix_updates(output: &str) -> (r: Vec<ExternalUpdate>)
    ensures
        update_views(r@) == nix_upto(db::output_lines(output@), db::output_lines(output@).len() as int),
{
    let ls = trimmed_lines(output);
    let ghost all = db::output_lines(output@);
    let mut out: Vec<ExternalUpdate> = Vec::new();
    let mut i: usize = 0;
    assert(update_views(out@) =~= Seq::<UpdateView>::empty());
    while i < ls.len()
        invariant
            i <= ls@.len(),
            all == db::output_lines(output@),
            text::texts(ls@) == all,
            update_views(out@) == nix_upto(all, i as int),
        decreases ls@.len() - i,
    {
        assert(all[i as int] == ls@[i as int]@);
        push_update(
            &mut out,
            ExternalUpdate {
                runner: "Nix".to_string(),
                id: ls[i].clone(),
                name: ls[i].clone(),
                repo: "nixpkgs".to_string(),
                version: "latest".to_string(),
            },
        );
        i += 1;
    }
    out
}

/// An application that Pipx has installed, the latest version that the index has of it, and
/// how that compares with the installed one.
#[derive(Debug, Clone)]
pub struct PipxApp {
    pub name: String,
    pub installed: String,
    pub latest: Option<String>,
    pub versus_installed: VersionOrder,
}

/// The address that describes an application of the Python package index.
pub fn pypi_url(name: &str) -> (r: String)
    ensures
        r@ == "https://pypi.org/pypi/"@ + name@ + "/json"@,
{
    let mut out: String = "https://pypi.org/pypi/".to_string();
    out.append(name);
    out.append("/json");
    out
}

pub open spec fn pipx_update(a: PipxApp) -> Option<UpdateView> {
    match a.latest {
        Some(v) => if a.versus_installed == VersionOrder::Newer {
            Some(
                UpdateView {
                    runner: "Pipx"@,
                    id: a.name@,
                    name: a.name@,
                    repo: "pypi"@,
                    version: v@,
                },
            )
        } else {
            None
        },
        None => None,
    }
}

/// The updates that the queries find when `workers` of them run side by side and each takes
/// every `workers`-th application: those of worker `w` from application `i` on, then those
/// of the workers behind it.
pub open spec fn pipx_from(apps: Seq<PipxApp>, workers: int, w: int, i: int) -> Seq<UpdateView>
    decreases
        workers - w,
        (if i < apps.len() {
            apps.len() - i
        } else {
            0
        }),
{
    if w < 0 || i < 0 || w >= workers {
        Seq::empty()
    } else if i >= apps.len() {
        pipx_from(apps, workers, w + 1, w + 1)
    } else {
        match pipx_update(apps[i]) {
            Some(u) => seq![u] + pipx_from(apps, workers, w, i + workers),
            None => pipx_from(apps, workers, w, i + workers),
        }
    }
}

/// As many workers as there are applications, but at least one and at most four.
pub open spec fn pipx_workers(apps: int) -> int {
    if apps < 1 {
        1
    } else if apps > 4 {
        4
    } else {
        apps
    }
}

/// The applications whose installed version is known, of the first `n`.
pub open spec fn versioned_upto(apps: Seq<(Seq<char>, Seq<char>)>, n: int) -> Seq<
    (Seq<char>, Seq<char>),
>
    decreases n,
{
    if n <= 0 {
        Seq::empty()
    } else if apps[n - 1].1.len() == 0 {
        versioned_upto(apps, n - 1)
    } else {
        versioned_upto(apps, n - 1).push(apps[n - 1])
    }
}

/// Applications with the versions that are known of them.
pub open spec fn known_versions(v: Seq<(Seq<char>, Option<Seq<char>>)>) -> Seq<
    (Seq<char>, Seq<char>),
> {
    Seq::new(
        v.len(),
        |i: int|
            (
                v[i].0,
                match v[i].1 {
                    Some(t) => t,
                    None => Seq::empty(),
                },
            ),
    )
}

/// The applications to ask the index for: those whose installed version is known.
pub fn pipx_targets(apps: &Vec<(String, Option<String>)>) -> (r: Vec<(String, String)>)
    ensures
        resolver::pairs(r@) == versioned_upto(
            known_versions(json::member_views(apps@)),
            apps@.len() as int,
        ),
{
    let ghost all = known_versions(json::member_views(apps@));
    let mut out: Vec<(String, String)> = Vec::new();
    let mut i: usize = 0;
    assert(resolver::pairs(out@) =~= Seq::<(Seq<char>, Seq<char>)>::empty());
    while i < apps.len()
        invariant
            i <= apps@.len(),
            all == known_versions(json::member_views(apps@)),
            resolver::pairs(out@) == versioned_upto(all, i as int),
        decreases apps@.len() - i,
    {
        let ghost entry = all[i as int];
        match &apps[i].1 {
            Some(v) => {
                assert(entry == (apps@[i as int].0@, v@));
                if !v.as_str().is_empty() {
                    let ghost before = resolver::pairs(out@);
                    out.push((apps[i].0.clone(), v.clone()));
                    assert(resolver::pairs(out@) =~= before.push(entry));
                }
            },
            None => {
                assert(entry.1.len() == 0);
            },
        }
        i += 1;
    }
    out
}

/// The applications in Pipx's own list, with their versions.
pub open spec fn listed_apps(list: Seq<u8>) -> Seq<(Seq<char>, Seq<char>)> {
    match json::members_at(list, "/venvs"@, "/metadata/main_package/package_version"@) {
        Some(v) => versioned_upto(known_versions(v), v.len() as int),
        None => Seq::empty(),
    }
}

/// The applications to ask the index for, out of Pipx's own list of them.
pub fn pipx_listed(list: &[u8]) -> (r: Vec<(String, String)>)
    ensures
        resolver::pairs(r@) == listed_apps(list@),
{
    match json_members(list, "/venvs", "/metadata/main_package/package_version") {
        Some(apps) => {
            assert(json::member_views(apps@).len() == apps@.len());
            pipx_targets(&apps)
        },
        None => {
            let none: Vec<(String, String)> = Vec::new();
            assert(resolver::pairs(none@) =~= Seq::<(Seq<char>, Seq<char>)>::empty());
            none
        },
    }
}

/// The latest version of an application, out of the index's answer.
pub fn pypi_version(body: &[u8]) -> (r: Option<String>)
    ensures
        text::opt_text(r) == json::text_at(body@, "/info/version"@),
{
    json_text(body, "/info/version")
}

/// The updates among Pipx's applications: those of which the index has a newer version, in
/// the order in which the workers deliver them.
pub fn pipx_updates(apps: &Vec<PipxApp>) -> (r: Vec<ExternalUpdate>)
    ensures
        update_views(r@) == pipx_from(apps@, pipx_workers(apps@.len() as int), 0, 0),
{
    let n: usize = apps.len();
    let workers: usize = if n < 1 {
        1
    } else if n > 4 {
        4
    } else {
        n
    };
    let ghost goal = pipx_from(apps@, workers as int, 0, 0);
    let mut out: Vec<ExternalUpdate> = Vec::new();
    let mut w: usize = 0;
    assert(update_views(out@) + pipx_from(apps@, workers as int, 0, 0) =~= goal);
    while w < workers
        invariant
            w <= workers <= 4,
            n == apps@.len(),
            update_views(out@) + pipx_from(apps@, workers as int, w as int, w as int) == goal,
        decreases workers - w,
    {
        let mut i: usize = w;
        while i < n
            invariant
                w < workers <= 4,
                i <= n || i == w,
                n == apps@.len(),
                update_views(out@) + pipx_from(apps@, workers as int, w as int, i as int) == goal,
            decreases n - i,
        {
            let a = &apps[i];
            let ghost before = update_views(out@);
            let ghost rest = pipx_from(apps@, workers as int, w as int, i + workers);
            if let Some(v) = &a.latest {
                if a.versus_installed == VersionOrder::Newer {
                    let u = ExternalUpdate {
                        runner: "Pipx".to_string(),
                        id: a.name.clone(),
                        name: a.name.clone(),
                        repo: "pypi".to_string(),
                        version: v.clone(),
                    };
                    proof {
                        assert(before + (seq![u@] + rest) =~= before.push(u@) + rest);
                    }
                    push_update(&mut out, u);
                }
            }
            assert(update_views(out@) + rest == goal);
            if n - i > workers {
                i += workers;
            } else {
                i = n;
            }
        }
        w += 1;
    }
    assert(update_views(out@) + Seq::<UpdateView>::empty() =~= update_views(out@));
    out
}

/// Whether a list of Flatpak updates that was stored this long ago can still be used.
pub fn flatpak_cache_is_fresh(age_seconds: u64) -> (r: bool)
    ensures
        r == (age_seconds < 120),
{
    age_seconds < 120
}

/// Where a list of Flatpak updates is stored.
pub fn flatpak_cache_file(home: &str) -> (r: String)
    ensures
        r@ == paths::joined(paths::joined(paths::joined(home@, ".cache"@), "pacpin"@), "flatpak_updates.json"@),
{
    let a = join_path(home, ".cache");
    let b = join_path(&a, "pacpin");
    join_path(&b, "flatpak_updates.json")
}

// ---------------------------------------------------------------------------------------
// The manager

/// Which package managers can be run.
#[derive(Debug, Clone, Copy, PartialEq, Eq, Structural)]
pub struct Available {
    pub flatpak: bool,
    pub nix: bool,
    pub pipx: bool,
}

pub struct IntegrationsManager;

pub open spec fn wanted(on: bool, p: Provider) -> Seq<Provider> {
    if on {
        seq![p]
    } else {
        Seq::empty()
    }
}

/// The updates of one package manager among all.
pub open spec fn updates_of(label: Seq<char>, all: Seq<ExternalUpdate>, n: int) -> Seq<UpdateView>
    decreases n,
{
    if n <= 0 {
        Seq::empty()
    } else if all[n - 1].runner@ == label {
        updates_of(label, all, n - 1).push(all[n - 1]@)
    } else {
        updates_of(label, all, n - 1)
    }
}

impl IntegrationsManager {
    /// The package managers that are switched on and can be run: none unless integrations
    /// are on at all.
    pub fn get_active_providers(config: &Config, available: Available) -> (r: Vec<Provider>)
        ensures
            r@ == if config.features.integrations {
                wanted(config.integrations.flatpak && available.flatpak, Provider::Flatpak) + wanted(
                    config.integrations.nix && available.nix,
                    Provider::Nix,
                ) + wanted(config.integrations.pipx && available.pipx, Provider::Pipx)
            } else {
                Seq::<Provider>::empty()
            },
    {
        let mut out: Vec<Provider> = Vec::new();
        if !config.features.integrations {
            return out;
        }
        if config.integrations.flatpak && available.flatpak {
            out.push(Provider::Flatpak);
        }
        if config.integrations.nix && available.nix {
            out.push(Provider::Nix);
        }
        if config.integrations.pipx && available.pipx {
            out.push(Provider::Pipx);
        }
        assert(out@ =~= wanted(
            config.integrations.flatpak && available.flatpak,
            Provider::Flatpak,
        ) + wanted(config.integrations.nix && available.nix, Provider::Nix) + wanted(
            config.integrations.pipx && available.pipx,
            Provider::Pipx,
        ));
        out
    }

    /// The updates that one package manager has to run.
    pub fn updates_for(provider: Provider, updates: &Vec<ExternalUpdate>) -> (r: Vec<
        ExternalUpdate,
    >)
        ensures
            update_views(r@) == updates_of(provider.label(), updates@, updates@.len() as int),
    {
        let mut out: Vec<ExternalUpdate> = Vec::new();
        let mut i: usize = 0;
        assert(update_views(out@) =~= Seq::<UpdateView>::empty());
        while i < updates.len()
            invariant
                i <= updates@.len(),
                update_views(out@) == updates_of(provider.label(), updates@, i as int),
            decreases updates@.len() - i,
        {
            if str_eq(&updates[i].runner, provider.name()) {
                push_update(&mut out, updates[i].dup());
            }
            i += 1;
        }
        out
    }

    /// Those that have something to clean up.
    pub fn cleaners(providers: &Vec<Provider>) -> (r: Vec<Provider>)
        ensures
            r@ == providers@.filter(|p: Provider| p.cleans()),
    {
        let mut out: Vec<Provider> = Vec::new();
        let mut i: usize = 0;
        let ghost keep = |p: Provider| p.cleans();
        proof {
            assert(providers@.take(0).filter(keep) =~= Seq::<Provider>::empty()) by {
                reveal(Seq::filter);
            }
        }
        while i < providers.len()
            invariant
                i <= providers@.len(),
                keep == (|p: Provider| p.cleans()),
                out@ == providers@.take(i as int).filter(keep),
            decreases providers@.len() - i,
        {
            proof {
                reveal(Seq::filter);
                let next = providers@.take(i + 1);
                assert(next.drop_last() =~= providers@.take(i as int));
                assert(next.last() == providers@[i as int]);
            }
            if providers[i].supports_clean() {
                out.push(providers[i]);
            }
            i += 1;
        }
        assert(providers@.take(providers@.len() as int) =~= providers@);
        out
    }
}

} // verus!
