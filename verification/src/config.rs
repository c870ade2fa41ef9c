//! The configuration: which features are on, which packages are pinned, excluded or delayed.
use crate::paths::join_path;
use crate::paths;
use crate::strmap::StrMap;
use crate::strmap;
use crate::text::{chars_of, clone_strings, number_text, starts_with, str_eq, trimmed};
use crate::text;
use vstd::prelude::*;
use vstd::string::*;

verus! {

#[derive(Debug, Clone)]
pub struct Options {
    pub helper: String,
}

#[derive(Debug, Clone, Copy, PartialEq, Eq, Structural)]
pub struct Features {
    pub pinning: bool,
    pub stability_delays: bool,
    pub smart_orphans: bool,
    pub integrations: bool,
    pub vendor_stickiness: bool,
    pub shell_aliases: bool,
}

#[derive(Debug, Clone, Copy, PartialEq, Eq, Structural)]
pub struct IntegrationsConfig {
    pub flatpak: bool,
    pub nix: bool,
    pub pipx: bool,
}

#[derive(Debug, Clone)]
pub struct Config {
    pub features: Features,
    pub options: Options,
    pub repo_order: Vec<String>,
    pub pins: StrMap<String>,
    pub exclude: StrMap<Vec<String>>,
    pub delay: StrMap<u32>,
    pub integrations: IntegrationsConfig,
}

pub fn default_helper() -> (r: String)
    ensures
        r@ == "paru"@,
{
    "paru".to_string()
}

pub fn default_true() -> (r: bool)
    ensures
        r,
{
    true
}

pub fn default_false() -> (r: bool)
    ensures
        !r,
{
    false
}

impl Default for Options {
    fn default() -> (r: Self)
        ensures
            r.helper@ == "paru"@,
    {
        Options { helper: default_helper() }
    }
}

impl Default for Features {
    fn default() -> (r: Self)
        ensures
            r == (Features {
                pinning: true,
                stability_delays: false,
                smart_orphans: true,
                integrations: false,
                vendor_stickiness: false,
                shell_aliases: true,
            }),
    {
        Features {
            pinning: true,
            stability_delays: false,
            smart_orphans: true,
            integrations: false,
            vendor_stickiness: false,
            shell_aliases: true,
        }
    }
}

impl Default for IntegrationsConfig {
    fn default() -> (r: Self)
        ensures
            r == (IntegrationsConfig { flatpak: false, nix: false, pipx: false }),
    {
        IntegrationsConfig { flatpak: false, nix: false, pipx: false }
    }
}

impl Config {
    /// The three maps keep their keys in order.
    pub open spec fn ordered(self) -> bool {
        self.pins.ordered() && self.exclude.ordered() && self.delay.ordered()
    }
}

impl Default for Config {
    fn default() -> (r: Self)
        ensures
            r.features.pinning,
            !r.features.stability_delays,
            r.features.smart_orphans,
            !r.features.integrations,
            !r.features.vendor_stickiness,
            r.features.shell_aliases,
            r.options.helper@ == "paru"@,
            r.repo_order@.len() == 0,
            r.pins@.len() == 0,
            r.exclude@.len() == 0,
            r.delay@.len() == 0,
            r.integrations == (IntegrationsConfig { flatpak: false, nix: false, pipx: false }),
            r.ordered(),
    {
        Config {
            features: Features::default(),
            options: Options::default(),
            repo_order: Vec::new(),
            pins: StrMap::new(),
            exclude: StrMap::new(),
            delay: StrMap::new(),
            integrations: IntegrationsConfig::default(),
        }
    }
}

// ---------------------------------------------------------------------------------------
// AUR helpers

/// The helpers that are trusted by name.
pub open spec fn trusted_helper(name: Seq<char>) -> bool {
    ||| name == "paru"@
    ||| name == "yay"@
    ||| name == "pikaur"@
    ||| name == "aurman"@
    ||| name == "pakku"@
    ||| name == "trizen"@
}

/// Characters that no helper may have in its name or path.
pub open spec fn shell_char(c: char) -> bool {
    ||| c == ';'
    ||| c == '&'
    ||| c == '|'
    ||| c == '`'
    ||| c == '$'
    ||| c == ' '
    ||| c == '\t'
    ||| c == '\n'
    ||| c == '\r'
    ||| c == '('
    ||| c == ')'
    ||| c == '{'
    ||| c == '}'
    ||| c == '<'
    ||| c == '>'
    ||| c == '~'
}

pub open spec fn has_shell_char(s: Seq<char>) -> bool {
    exists|i: int| 0 <= i < s.len() && shell_char(#[trigger] s[i])
}

/// What the choice of an AUR helper comes to, where `is_file` says whether its trimmed name
/// is the path of a regular file.
pub open spec fn helper_choice(helper: Seq<char>, is_file: bool) -> Result<Seq<char>, Seq<char>> {
    let t = text::trim(helper);
    if t.len() == 0 {
        Err("AUR helper name cannot be empty."@)
    } else if has_shell_char(t) {
        Err("AUR helper '"@ + t + "' contains illegal shell characters."@)
    } else if trusted_helper(t) || (text::begins(t, "/"@) && is_file) {
        Ok(t)
    } else {
        Err(
            "Untrusted AUR helper '"@ + t
                + "'. Expected one of [\"paru\", \"yay\", \"pikaur\", \"aurman\", \"pakku\", \"trizen\"] or an absolute path to an executable file."@,
        )
    }
}

fn shell_char_in(s: &str) -> (r: bool)
    ensures
        r == has_shell_char(s@),
{
    let cs = chars_of(s);
    let mut i: usize = 0;
    while i < cs.len()
        invariant
            i <= cs@.len(),
            cs@ == s@,
            forall|j: int| 0 <= j < i ==> !shell_char(#[trigger] cs@[j]),
        decreases cs@.len() - i,
    {
        let c = cs[i];
        if c == ';' || c == '&' || c == '|' || c == '`' || c == '$' || c == ' ' || c == '\t' || c
            == '\n' || c == '\r' || c == '(' || c == ')' || c == '{' || c == '}' || c == '<' || c
            == '>' || c == '~' {
            return true;
        }
        i += 1;
    }
    false
}

pub fn is_trusted_helper(name: &str) -> (r: bool)
    ensures
        r == trusted_helper(name@),
{
    str_eq(name, "paru") || str_eq(name, "yay") || str_eq(name, "pikaur") || str_eq(name, "aurman")
        || str_eq(name, "pakku") || str_eq(name, "trizen")
}

/// Accepts a trusted helper by its name, or any other by the absolute path of its file;
/// `is_file` says whether the trimmed name is the path of a regular file.
pub fn validate_helper(helper: &str, is_file: bool) -> (r: Result<String, String>)
    ensures
        match r {
            Ok(h) => helper_choice(helper@, is_file) == Ok::<Seq<char>, Seq<char>>(h@),
            Err(e) => helper_choice(helper@, is_file) == Err::<Seq<char>, Seq<char>>(e@),
        },
{
    let t = trimmed(helper);
    if t.as_str().is_empty() {
        return Err("AUR helper name cannot be empty.".to_string());
    }
    if shell_char_in(&t) {
        let mut e: String = "AUR helper '".to_string();
        e.append(&t);
        e.append("' contains illegal shell characters.");
        return Err(e);
    }
    if is_trusted_helper(&t) {
        return Ok(t);
    }
    if starts_with(&t, "/") && is_file {
        return Ok(t);
    }
    let mut e: String = "Untrusted AUR helper '".to_string();
    e.append(&t);
    e.append("'. Expected one of [\"paru\", \"yay\", \"pikaur\", \"aurman\", \"pakku\", \"trizen\"] or an absolute path to an executable file.");
    Err(e)
}

/// The helper of a configuration that has just been read, and a warning where it was
/// refused and the default took its place.
pub fn settle_helper(helper: &str, is_file: bool) -> (r: (String, Option<String>))
    ensures
        match helper_choice(helper@, is_file) {
            Ok(_) => r.0@ == helper@ && r.1 is None,
            Err(e) => r.0@ == "paru"@ && text::opt_text(r.1) == Some(
                " Warning: "@ + e + " Falling back to 'paru'."@,
            ),
        },
{
    match validate_helper(helper, is_file) {
        Ok(_) => (helper.to_string(), None),
        Err(e) => {
            let mut w: String = " Warning: ".to_string();
            w.append(&e);
            w.append(" Falling back to 'paru'.");
            (default_helper(), Some(w))
        },
    }
}

// ---------------------------------------------------------------------------------------
// Files

/// Below the home directory, unless none is set or it is blank.
pub open spec fn config_path(home: Option<Seq<char>>) -> Option<Seq<char>> {
    match home {
        Some(h) => if text::trim(h).len() == 0 {
            None
        } else {
            Some(paths::joined(paths::joined(paths::joined(h, ".config"@), "pacpin"@), "config.toml"@))
        },
        None => None,
    }
}

/// The path of the configuration file for a home directory; nothing where the home
/// directory is unknown.
pub fn get_config_path(home: Option<&str>) -> (r: Option<String>)
    ensures
        text::opt_text(r) == config_path(
            match home {
                Some(h) => Some(h@),
                None => None,
            },
        ),
{
    match home {
        Some(h) => {
            let t = trimmed(h);
            if t.as_str().is_empty() {
                return None;
            }
            let a = join_path(h, ".config");
            let b = join_path(&a, "pacpin");
            Some(join_path(&b, "config.toml"))
        },
        None => None,
    }
}

/// The name of the file that a new configuration is written to before it is moved into
/// place.
pub fn temp_config_name(pid: u32, nanos: u64) -> (r: String)
    ensures
        r@ == ".config.toml.tmp."@ + text::digits_of(pid as nat) + "_"@ + text::digits_of(nanos as nat),
{
    let mut out: String = ".config.toml.tmp.".to_string();
    let p = number_text(pid as u64);
    out.append(&p);
    out.append("_");
    let n = number_text(nanos);
    out.append(&n);
    out
}

/// An exclusion as it stands in the file: one pattern or a list of them.
#[derive(Debug, Clone)]
pub enum OneOrMany {
    One(String),
    Many(Vec<String>),
}

pub open spec fn patterns_of(value: OneOrMany) -> Seq<Seq<char>> {
    match value {
        OneOrMany::One(s) => seq![s@],
        OneOrMany::Many(v) => text::texts(v@),
    }
}

/// The patterns of an exclusion.
pub fn exclude_patterns(value: &OneOrMany) -> (r: Vec<String>)
    ensures
        text::texts(r@) == patterns_of(*value),
{
    match value {
        OneOrMany::One(s) => {
            let mut v: Vec<String> = Vec::new();
            v.push(s.clone());
            assert(text::texts(v@) =~= seq![s@]);
            v
        },
        OneOrMany::Many(v) => clone_strings(v),
    }
}

/// What a configuration file says; `None` where it is silent.
#[derive(Debug, Clone)]
pub struct ConfigFile {
    pub pinning: Option<bool>,
    pub stability_delays: Option<bool>,
    pub smart_orphans: Option<bool>,
    pub integrations: Option<bool>,
    pub vendor_stickiness: Option<bool>,
    pub shell_aliases: Option<bool>,
    pub helper: Option<String>,
    pub repo_order: Vec<String>,
    pub pins: StrMap<String>,
    pub exclude: StrMap<OneOrMany>,
    pub delay: StrMap<u32>,
    pub flatpak: Option<bool>,
    pub nix: Option<bool>,
    pub pipx: Option<bool>,
}

pub open spec fn or_else(x: Option<bool>, otherwise: bool) -> bool {
    match x {
        Some(b) => b,
        None => otherwise,
    }
}

/// The switches of a configuration file: pinning, the care for orphans and the shell aliases
/// are on unless they are turned off; all others are off unless they are turned on.
pub open spec fn features_of(f: ConfigFile) -> Features {
    Features {
        pinning: or_else(f.pinning, true),
        stability_delays: or_else(f.stability_delays, false),
        smart_orphans: or_else(f.smart_orphans, true),
        integrations: or_else(f.integrations, false),
        vendor_stickiness: or_else(f.vendor_stickiness, false),
        shell_aliases: or_else(f.shell_aliases, true),
    }
}

/// Each exclusion as its list of patterns, under the same name.
pub open spec fn same_exclusions(
    made: Seq<(Seq<char>, Vec<String>)>,
    file: Seq<(Seq<char>, OneOrMany)>,
) -> bool {
    &&& made.len() == file.len()
    &&& forall|i: int|
        0 <= i < made.len() ==> (#[trigger] made[i]).0 == file[i].0 && text::texts(made[i].1@)
            == patterns_of(file[i].1)
}

fn settle(x: Option<bool>, otherwise: bool) -> (r: bool)
    ensures
        r == or_else(x, otherwise),
{
    match x {
        Some(b) => b,
        None => otherwise,
    }
}

fn exclusions(file: &StrMap<OneOrMany>) -> (r: StrMap<Vec<String>>)
    requires
        file.ordered(),
    ensures
        r.ordered(),
        same_exclusions(r@, file@),
{
    let mut out: StrMap<Vec<String>> = StrMap::new();
    let mut i: usize = 0;
    let total: usize = file.len();
    while i < total
        invariant
            i <= total,
            total == file@.len(),
            file.ordered(),
            out.ordered(),
            out@.len() == i,
            forall|j: int|
                0 <= j < i ==> (#[trigger] out@[j]).0 == file@[j].0 && text::texts(out@[j].1@)
                    == patterns_of(file@[j].1),
        decreases total - i,
    {
        let k = file.key_at(i).clone();
        let v = exclude_patterns(file.value_at(i));
        proof {
            if i > 0 {
                assert(text::precedes(strmap::keys(file@)[i - 1], strmap::keys(file@)[i as int]));
                assert(out@[i - 1].0 == file@[i - 1].0);
            }
        }
        out.append(k, v);
        i += 1;
    }
    out
}

/// The configuration that a file gives, or the defaults where there is no file. A helper
/// that is refused gives way to the default one, with a warning; `is_file` says whether its
/// trimmed name is the path of a regular file.
pub fn load_config(file: Option<ConfigFile>, is_file: bool) -> (r: (Config, Option<String>))
    requires
        file matches Some(f) ==> f.pins.ordered() && f.exclude.ordered() && f.delay.ordered(),
    ensures
        r.0.ordered(),
        match file {
            None => {
                &&& r.0.features == (Features {
                    pinning: true,
                    stability_delays: false,
                    smart_orphans: true,
                    integrations: false,
                    vendor_stickiness: false,
                    shell_aliases: true,
                })
                &&& r.0.options.helper@ == "paru"@
                &&& r.1 is None
                &&& r.0.repo_order@.len() == 0
                &&& r.0.pins@.len() == 0
                &&& r.0.exclude@.len() == 0
                &&& r.0.delay@.len() == 0
                &&& r.0.integrations == (IntegrationsConfig {
                    flatpak: false,
                    nix: false,
                    pipx: false,
                })
            },
            Some(f) => {
                &&& r.0.features == features_of(f)
                &&& match f.helper {
                    Some(h) => match helper_choice(h@, is_file) {
                        Ok(_) => r.0.options.helper@ == h@ && r.1 is None,
                        Err(e) => r.0.options.helper@ == "paru"@ && text::opt_text(r.1) == Some(
                            " Warning: "@ + e + " Falling back to 'paru'."@,
                        ),
                    },
                    None => r.0.options.helper@ == "paru"@ && r.1 is None,
                }
                &&& r.0.repo_order == f.repo_order
                &&& r.0.pins == f.pins
                &&& same_exclusions(r.0.exclude@, f.exclude@)
                &&& r.0.delay == f.delay
                &&& r.0.integrations == (IntegrationsConfig {
                    flatpak: or_else(f.flatpak, false),
                    nix: or_else(f.nix, false),
                    pipx: or_else(f.pipx, false),
                })
            },
        },
{
    match file {
        None => (Config::default(), None),
        Some(f) => {
            let features = Features {
                pinning: settle(f.pinning, default_true()),
                stability_delays: settle(f.stability_delays, default_false()),
                smart_orphans: settle(f.smart_orphans, default_true()),
                integrations: settle(f.integrations, default_false()),
                vendor_stickiness: settle(f.vendor_stickiness, default_false()),
                shell_aliases: settle(f.shell_aliases, default_true()),
            };
            let integrations = IntegrationsConfig {
                flatpak: settle(f.flatpak, default_false()),
                nix: settle(f.nix, default_false()),
                pipx: settle(f.pipx, default_false()),
            };
            let (helper, warning) = match f.helper {
                Some(h) => settle_helper(&h, is_file),
                None => (default_helper(), None),
            };
            let exclude = exclusions(&f.exclude);
            let config = Config {
                features,
                options: Options { helper },
                repo_order: f.repo_order,
                pins: f.pins,
                exclude,
                delay: f.delay,
                integrations,
            };
            (config, warning)
        },
    }
}

} // verus!
