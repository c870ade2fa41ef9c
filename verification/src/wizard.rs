//! The setup wizard: which questions it asks, and the configuration it makes of the answers.
use crate::config::{Config, Features, IntegrationsConfig, Options};
use crate::install::{is_no, is_yes};
use crate::install;
use crate::strmap::StrMap;
use crate::strmap;
use crate::text::{clone_strings, contains, list_contains, no_strings, number_text, parse_u32, push_str, text3, trimmed};
use crate::text;
use vstd::prelude::*;
use vstd::string::*;

verus! {

// ---------------------------------------------------------------------------------------
// Answers

/// A yes or a no; anything else, and no answer at all, is the default.
pub open spec fn yes_no(answer: Option<Seq<char>>, default_yes: bool) -> bool {
    match answer {
        None => default_yes,
        Some(a) => if install::says_yes(a) {
            true
        } else if install::says_no(a) {
            false
        } else {
            default_yes
        },
    }
}

pub fn prompt_yn(answer: Option<&str>, default_yes: bool) -> (r: bool)
    ensures
        r == yes_no(
            match answer {
                Some(a) => Some(a@),
                None => None,
            },
            default_yes,
        ),
{
    match answer {
        None => default_yes,
        Some(a) => if is_yes(a) {
            true
        } else if is_no(a) {
            false
        } else {
            default_yes
        },
    }
}

/// The hint at the default of a question.
pub fn yn_hint(default_yes: bool) -> (r: &'static str)
    ensures
        r@ == if default_yes {
            "[Y/n]"@
        } else {
            "[y/N]"@
        },
{
    if default_yes {
        "[Y/n]"
    } else {
        "[y/N]"
    }
}

/// What was entered, or the default where nothing was.
pub open spec fn entered(answer: Option<Seq<char>>, default: Seq<char>) -> Seq<char> {
    match answer {
        None => default,
        Some(a) => if text::trim(a).len() == 0 {
            default
        } else {
            text::trim(a)
        },
    }
}

pub fn prompt_input(answer: Option<&str>, default_val: &str) -> (r: String)
    ensures
        r@ == entered(
            match answer {
                Some(a) => Some(a@),
                None => None,
            },
            default_val@,
        ),
{
    match answer {
        None => default_val.to_string(),
        Some(a) => {
            let t = trimmed(a);
            if t.as_str().is_empty() {
                default_val.to_string()
            } else {
                t
            }
        },
    }
}

// ---------------------------------------------------------------------------------------
// The system

/// The helpers that are looked for, best first.
pub open spec fn helper_names() -> Seq<Seq<char>> {
    seq!["paru"@, "yay"@, "pikaur"@, "trizen"@]
}

/// The first of the helpers, from the `i`-th on, that is installed.
pub open spec fn first_helper(installed: Seq<Seq<char>>, i: int) -> Option<Seq<char>>
    decreases 4 - i,
{
    if i < 0 || i >= 4 {
        None
    } else if installed.contains(helper_names()[i]) {
        Some(helper_names()[i])
    } else {
        first_helper(installed, i + 1)
    }
}

/// The helper to offer, among the programs that are installed.
pub fn detect_aur_helper(installed: &Vec<String>) -> (r: Option<String>)
    ensures
        text::opt_text(r) == first_helper(text::texts(installed@), 0),
{
    let names: Vec<&'static str> = vec!["paru", "yay", "pikaur", "trizen"];
    let ghost have = text::texts(installed@);
    let mut i: usize = 0;
    while i < names.len()
        invariant
            i <= 4,
            names@.len() == 4,
            have == text::texts(installed@),
            forall|j: int| 0 <= j < 4 ==> (#[trigger] names@[j])@ == helper_names()[j],
            first_helper(have, 0) == first_helper(have, i as int),
        decreases 4 - i,
    {
        if list_contains(installed, names[i]) {
            return Some(names[i].to_string());
        }
        i += 1;
    }
    None
}

/// Whether the package manager's configuration names repositories of CachyOS.
pub fn has_cachyos_repos(content: Option<&str>) -> (r: bool)
    ensures
        r == (content is Some && (text::holds(content->0@, "[cachyos]"@) || text::holds(
            content->0@,
            "[cachyos-v3]"@,
        ) || text::holds(content->0@, "[cachyos-core-v3]"@))),
{
    match content {
        Some(c) => contains(c, "[cachyos]") || contains(c, "[cachyos-v3]") || contains(
            c,
            "[cachyos-core-v3]",
        ),
        None => false,
    }
}

/// What the wizard knows of the system and of how it was started.
#[derive(Debug, Clone)]
pub struct WizardFacts {
    /// There is a configuration file.
    pub config_exists: bool,
    pub force: bool,
    pub reset: bool,
    pub cachyos: bool,
    pub helper: Option<String>,
    pub flatpak: bool,
    pub nix: bool,
}

// ---------------------------------------------------------------------------------------
// Questions

/// The questions, in the order in which they are asked.
#[derive(Debug, Clone, Copy, PartialEq, Eq, Structural)]
pub enum Question {
    Reconfigure,
    Pinning,
    Protection,
    Order,
    Delays,
    DelayDays,
    KernelDelay,
    Orphans,
    UseHelper,
    HelperName,
    Flatpak,
    Nix,
}

/// The answers so far.
#[derive(Debug, Clone)]
pub struct WizardAnswers {
    pub reconfigure: bool,
    pub pinning: bool,
    pub protection: bool,
    pub order: bool,
    pub delays: bool,
    pub days: String,
    pub kernel_delay: bool,
    pub orphans: bool,
    pub use_helper: bool,
    pub helper_name: String,
    pub flatpak: bool,
    pub nix: bool,
}

#[verifier::ext_equal]
pub struct AnswersView {
    pub reconfigure: bool,
    pub pinning: bool,
    pub protection: bool,
    pub order: bool,
    pub delays: bool,
    pub days: Seq<char>,
    pub kernel_delay: bool,
    pub orphans: bool,
    pub use_helper: bool,
    pub helper_name: Seq<char>,
    pub flatpak: bool,
    pub nix: bool,
}

impl View for WizardAnswers {
    type V = AnswersView;

    open spec fn view(&self) -> AnswersView {
        AnswersView {
            reconfigure: self.reconfigure,
            pinning: self.pinning,
            protection: self.protection,
            order: self.order,
            delays: self.delays,
            days: self.days@,
            kernel_delay: self.kernel_delay,
            orphans: self.orphans,
            use_helper: self.use_helper,
            helper_name: self.helper_name@,
            flatpak: self.flatpak,
            nix: self.nix,
        }
    }
}

/// Before the first question: what is not asked is not wanted.
pub fn no_answers() -> (r: WizardAnswers)
    ensures
        r@ == (AnswersView {
            reconfigure: true,
            pinning: false,
            protection: false,
            order: false,
            delays: false,
            days: "3"@,
            kernel_delay: false,
            orphans: false,
            use_helper: false,
            helper_name: "paru"@,
            flatpak: false,
            nix: false,
        }),
{
    WizardAnswers {
        reconfigure: true,
        pinning: false,
        protection: false,
        order: false,
        delays: false,
        days: "3".to_string(),
        kernel_delay: false,
        orphans: false,
        use_helper: false,
        helper_name: "paru".to_string(),
        flatpak: false,
        nix: false,
    }
}

/// The question is asked, after these answers.
pub open spec fn asked(q: Question, f: WizardFacts, a: AnswersView) -> bool {
    match q {
        Question::Reconfigure => f.config_exists && !f.reset && !f.force,
        _ => a.reconfigure && match q {
            Question::Protection => a.pinning && f.cachyos,
            Question::Order => a.pinning,
            Question::DelayDays => a.delays,
            Question::KernelDelay => a.delays,
            Question::UseHelper => f.helper is Some,
            Question::HelperName => f.helper is None || !a.use_helper,
            Question::Flatpak => f.flatpak,
            Question::Nix => f.nix,
            _ => true,
        },
    }
}

/// Whether a question is asked.
pub fn is_asked(q: Question, f: &WizardFacts, a: &WizardAnswers) -> (r: bool)
    ensures
        r == asked(q, *f, a@),
{
    match q {
        Question::Reconfigure => f.config_exists && !f.reset && !f.force,
        _ => {
            if !a.reconfigure {
                return false;
            }
            match q {
                Question::Protection => a.pinning && f.cachyos,
                Question::Order => a.pinning,
                Question::DelayDays => a.delays,
                Question::KernelDelay => a.delays,
                Question::UseHelper => f.helper.is_some(),
                Question::HelperName => f.helper.is_none() || !a.use_helper,
                Question::Flatpak => f.flatpak,
                Question::Nix => f.nix,
                _ => true,
            }
        },
    }
}

pub open spec fn question_words(q: Question, helper: Seq<char>) -> Seq<char> {
    match q {
        Question::Reconfigure => "Run setup wizard and reconfigure?"@,
        Question::Pinning => "Enable Repository Pinning?"@,
        Question::Protection => "Add baseline protection pins (amd-ucode, intel-ucode, linux-firmware* to core)?"@,
        Question::Order => "Customize repository search priority order or add repos?"@,
        Question::Delays => "Enable Stability Delay Buffer?"@,
        Question::DelayDays => "Default buffer period for kernel/drivers in days"@,
        Question::KernelDelay => "Apply default delay buffer to 'linux' kernel packages?"@,
        Question::Orphans => "Enable Smart Orphan Management?"@,
        Question::UseHelper => "Use '"@ + helper + "' for AUR packages?"@,
        Question::HelperName => "Enter your preferred AUR helper command"@,
        Question::Flatpak => "  • Enable Flatpak integration (flathub updates & cleanup)?"@,
        Question::Nix => "  • Enable Nix integration (profile updates & garbage collection)?"@,
    }
}

/// The words of a question.
pub fn question_text(q: Question, f: &WizardFacts) -> (r: String)
    ensures
        r@ == question_words(
            q,
            match f.helper {
                Some(h) => h@,
                None => Seq::empty(),
            },
        ),
{
    match q {
        Question::Reconfigure => "Run setup wizard and reconfigure?".to_string(),
        Question::Pinning => "Enable Repository Pinning?".to_string(),
        Question::Protection => "Add baseline protection pins (amd-ucode, intel-ucode, linux-firmware* to core)?".to_string(),
        Question::Order => "Customize repository search priority order or add repos?".to_string(),
        Question::Delays => "Enable Stability Delay Buffer?".to_string(),
        Question::DelayDays => "Default buffer period for kernel/drivers in days".to_string(),
        Question::KernelDelay => "Apply default delay buffer to 'linux' kernel packages?".to_string(),
        Question::Orphans => "Enable Smart Orphan Management?".to_string(),
        Question::UseHelper => {
            let h: String = match &f.helper {
                Some(x) => x.clone(),
                None => String::new(),
            };
            assert(f.helper is None ==> h@ =~= Seq::<char>::empty());
            text3("Use '", &h, "' for AUR packages?")
        },
        Question::HelperName => "Enter your preferred AUR helper command".to_string(),
        Question::Flatpak => "  • Enable Flatpak integration (flathub updates & cleanup)?".to_string(),
        Question::Nix => "  • Enable Nix integration (profile updates & garbage collection)?".to_string(),
    }
}

/// The default of a question that is answered with yes or no.
pub open spec fn default_yes(q: Question) -> bool {
    match q {
        Question::Pinning => true,
        Question::Protection => true,
        Question::KernelDelay => true,
        Question::Orphans => true,
        Question::UseHelper => true,
        _ => false,
    }
}

pub fn is_default_yes(q: Question) -> (r: bool)
    ensures
        r == default_yes(q),
{
    match q {
        Question::Pinning => true,
        Question::Protection => true,
        Question::KernelDelay => true,
        Question::Orphans => true,
        Question::UseHelper => true,
        _ => false,
    }
}

/// The answers with one more.
pub open spec fn answered_with(q: Question, a: AnswersView, answer: Option<Seq<char>>) -> AnswersView {
    let yes = yes_no(answer, default_yes(q));
    match q {
        Question::Reconfigure => AnswersView { reconfigure: yes, ..a },
        Question::Pinning => AnswersView { pinning: yes, ..a },
        Question::Protection => AnswersView { protection: yes, ..a },
        Question::Order => AnswersView { order: yes, ..a },
        Question::Delays => AnswersView { delays: yes, ..a },
        Question::DelayDays => AnswersView { days: entered(answer, "3"@), ..a },
        Question::KernelDelay => AnswersView { kernel_delay: yes, ..a },
        Question::Orphans => AnswersView { orphans: yes, ..a },
        Question::UseHelper => AnswersView { use_helper: yes, ..a },
        Question::HelperName => AnswersView { helper_name: entered(answer, "paru"@), ..a },
        Question::Flatpak => AnswersView { flatpak: yes, ..a },
        Question::Nix => AnswersView { nix: yes, ..a },
    }
}

/// Takes the answer to a question.
pub fn take_answer(q: Question, a: &mut WizardAnswers, answer: Option<&str>)
    ensures
        final(a)@ == answered_with(
            q,
            old(a)@,
            match answer {
                Some(x) => Some(x@),
                None => None,
            },
        ),
{
    let yes: bool = prompt_yn(answer, is_default_yes(q));
    match q {
        Question::Reconfigure => {
            a.reconfigure = yes;
        },
        Question::Pinning => {
            a.pinning = yes;
        },
        Question::Protection => {
            a.protection = yes;
        },
        Question::Order => {
            a.order = yes;
        },
        Question::Delays => {
            a.delays = yes;
        },
        Question::DelayDays => {
            a.days = prompt_input(answer, "3");
        },
        Question::KernelDelay => {
            a.kernel_delay = yes;
        },
        Question::Orphans => {
            a.orphans = yes;
        },
        Question::UseHelper => {
            a.use_helper = yes;
        },
        Question::HelperName => {
            a.helper_name = prompt_input(answer, "paru");
        },
        Question::Flatpak => {
            a.flatpak = yes;
        },
        Question::Nix => {
            a.nix = yes;
        },
    }
}

// ---------------------------------------------------------------------------------------
// The configuration

/// The days of the delay; three where no number was entered.
pub open spec fn delay_days(days: Seq<char>) -> int {
    match text::number(days, u32::MAX as int) {
        Some(n) => n,
        None => 3,
    }
}

/// The pins that keep firmware and microcode in the core repository.
pub open spec fn protected_name(name: Seq<char>) -> bool {
    name == "amd-ucode"@ || name == "intel-ucode"@ || name == "linux-firmware*"@
}

/// The helper that was chosen.
pub open spec fn chosen_helper(f: WizardFacts, a: AnswersView) -> Seq<char> {
    if f.helper is Some && a.use_helper {
        f.helper->0@
    } else {
        a.helper_name
    }
}

/// All pins are kept; protection adds its own.
pub open spec fn pins_configured(
    after: Seq<(Seq<char>, String)>,
    before: Seq<(Seq<char>, String)>,
    protect: bool,
) -> bool {
    forall|k: Seq<char>|
        match #[trigger] strmap::lookup(after, k) {
            Some(repo) => if protect && protected_name(k) {
                repo@ == "core"@
            } else {
                strmap::lookup(before, k) == Some(repo)
            },
            None => !(protect && protected_name(k)) && strmap::lookup(before, k) is None,
        }
}

/// All exclusions are kept; protection sets that of the CachyOS repository.
pub open spec fn exclusions_configured(
    after: Seq<(Seq<char>, Vec<String>)>,
    before: Seq<(Seq<char>, Vec<String>)>,
    protect: bool,
) -> bool {
    forall|k: Seq<char>|
        match #[trigger] strmap::lookup(after, k) {
            Some(pats) => if protect && k == "cachyos"@ {
                text::texts(pats@) == seq!["linux-firmware*"@]
            } else {
                strmap::lookup(before, k) == Some(pats)
            },
            None => !(protect && k == "cachyos"@) && strmap::lookup(before, k) is None,
        }
}

/// All delays are kept; the kernel is held where that was wanted.
pub open spec fn delays_configured(
    after: Seq<(Seq<char>, u32)>,
    before: Seq<(Seq<char>, u32)>,
    hold: bool,
    days: u32,
) -> bool {
    forall|k: Seq<char>| #[trigger]
        strmap::lookup(after, k) == if hold && (k == "linux"@ || k == "linux-cachyos"@) {
            Some(days)
        } else {
            strmap::lookup(before, k)
        }
}

fn protect_pins(pins: &mut StrMap<String>)
    requires
        old(pins).ordered(),
    ensures
        final(pins).ordered(),
        pins_configured(final(pins)@, old(pins)@, true),
{
    pins.insert("amd-ucode".to_string(), "core".to_string());
    pins.insert("intel-ucode".to_string(), "core".to_string());
    pins.insert("linux-firmware*".to_string(), "core".to_string());
}

fn protect_exclusions(exclude: &mut StrMap<Vec<String>>)
    requires
        old(exclude).ordered(),
    ensures
        final(exclude).ordered(),
        exclusions_configured(final(exclude)@, old(exclude)@, true),
{
    let mut pats = no_strings();
    push_str(&mut pats, "linux-firmware*");
    assert(text::texts(pats@) =~= seq!["linux-firmware*"@]);
    exclude.insert("cachyos".to_string(), pats);
}

fn hold_kernel(delay: &mut StrMap<u32>, days: u32)
    requires
        old(delay).ordered(),
    ensures
        final(delay).ordered(),
        delays_configured(final(delay)@, old(delay)@, true, days),
{
    delay.insert("linux".to_string(), days);
    delay.insert("linux-cachyos".to_string(), days);
}

/// What is kept of an existing configuration is its pins, exclusions, delays and order of
/// repositories, and what the wizard does not ask about.
pub open spec fn configured(
    r: Config,
    base: Config,
    f: WizardFacts,
    a: AnswersView,
    new_order: Option<Seq<Seq<char>>>,
) -> bool {
    let protect = a.pinning && f.cachyos && a.protection;
    let hold = a.delays && a.kernel_delay;
    &&& r.features.pinning == a.pinning
    &&& r.features.stability_delays == a.delays
    &&& r.features.smart_orphans == a.orphans
    &&& r.features.vendor_stickiness == base.features.vendor_stickiness
    &&& r.features.shell_aliases == base.features.shell_aliases
    &&& r.integrations.flatpak == (f.flatpak && a.flatpak)
    &&& r.integrations.nix == (f.nix && a.nix)
    &&& r.integrations.pipx == base.integrations.pipx
    &&& r.features.integrations == (r.integrations.flatpak || r.integrations.nix
        || r.integrations.pipx)
    &&& r.options.helper@ == chosen_helper(f, a)
    &&& text::texts(r.repo_order@) == if a.pinning && a.order && new_order is Some {
        new_order->0
    } else {
        text::texts(base.repo_order@)
    }
    &&& pins_configured(r.pins@, base.pins@, protect)
    &&& exclusions_configured(r.exclude@, base.exclude@, protect)
    &&& delays_configured(r.delay@, base.delay@, hold, delay_days(a.days) as u32)
}

pub open spec fn order_texts(order: Option<&Vec<String>>) -> Option<Seq<Seq<char>>> {
    match order {
        Some(v) => Some(text::texts(v@)),
        None => None,
    }
}

/// A configuration without any rules, with the features that are not asked about as they are
/// by default.
pub open spec fn blank_config(c: Config) -> bool {
    &&& c.pins@.len() == 0
    &&& c.exclude@.len() == 0
    &&& c.delay@.len() == 0
    &&& c.repo_order@.len() == 0
    &&& !c.features.vendor_stickiness
    &&& c.features.shell_aliases
    &&& !c.integrations.pipx
}

fn configure(
    base: Config,
    f: &WizardFacts,
    a: &WizardAnswers,
    new_order: Option<&Vec<String>>,
) -> (r: Config)
    requires
        base.ordered(),
    ensures
        r.ordered(),
        configured(r, base, *f, a@, order_texts(new_order)),
{
    let protect: bool = a.pinning && f.cachyos && a.protection;
    let mut pins = base.pins;
    let mut exclude = base.exclude;
    let ghost pins_before = pins@;
    let ghost exclude_before = exclude@;
    if protect {
        protect_pins(&mut pins);
        protect_exclusions(&mut exclude);
    }
    assert(pins_configured(pins@, pins_before, protect));
    assert(exclusions_configured(exclude@, exclude_before, protect));
    let mut delay = base.delay;
    let ghost delay_before = delay@;
    let hold: bool = a.delays && a.kernel_delay;
    let days: u32 = match parse_u32(&a.days) {
        Some(n) => n,
        None => 3,
    };
    if hold {
        hold_kernel(&mut delay, days);
    }
    assert(delays_configured(delay@, delay_before, hold, days));
    let repo_order = match new_order {
        Some(v) => if a.pinning && a.order {
            clone_strings(v)
        } else {
            base.repo_order
        },
        None => base.repo_order,
    };
    let helper: String = match &f.helper {
        Some(h) => if a.use_helper {
            h.clone()
        } else {
            a.helper_name.clone()
        },
        None => a.helper_name.clone(),
    };
    let flatpak: bool = f.flatpak && a.flatpak;
    let nix: bool = f.nix && a.nix;
    let pipx: bool = base.integrations.pipx;
    Config {
        features: Features {
            pinning: a.pinning,
            stability_delays: a.delays,
            smart_orphans: a.orphans,
            integrations: flatpak || nix || pipx,
            vendor_stickiness: base.features.vendor_stickiness,
            shell_aliases: base.features.shell_aliases,
        },
        options: Options { helper },
        repo_order,
        pins,
        exclude,
        delay,
        integrations: IntegrationsConfig { flatpak, nix, pipx },
    }
}

/// The configuration that the answers make of an existing one, or of the default.
pub fn run_first_launch_wizard(
    existing: Option<Config>,
    f: &WizardFacts,
    a: &WizardAnswers,
    new_order: Option<&Vec<String>>,
) -> (r: Config)
    requires
        existing is Some ==> existing->0.ordered(),
    ensures
        r.ordered(),
        match existing {
            Some(base) => configured(r, base, *f, a@, order_texts(new_order)),
            None => exists|base: Config|
                blank_config(base) && #[trigger] configured(
                    r,
                    base,
                    *f,
                    a@,
                    order_texts(new_order),
                ),
        },
{
    match existing {
        Some(base) => configure(base, f, a, new_order),
        None => {
            let base = Config::default();
            let ghost start = base;
            let r = configure(base, f, a, new_order);
            assert(blank_config(start) && configured(r, start, *f, a@, order_texts(new_order)));
            r
        },
    }
}

/// Running the wizard again loses no pin but those that it sets itself.
pub proof fn wizard_keeps_pins(
    r: Config,
    base: Config,
    f: WizardFacts,
    a: AnswersView,
    new_order: Option<Seq<Seq<char>>>,
    name: Seq<char>,
)
    requires
        configured(r, base, f, a, new_order),
        strmap::lookup(base.pins@, name) is Some,
    ensures
        strmap::lookup(r.pins@, name) is Some,
        !protected_name(name) ==> strmap::lookup(r.pins@, name) == strmap::lookup(base.pins@, name),
{
    let found = strmap::lookup(r.pins@, name);
}

// ---------------------------------------------------------------------------------------
// Notes

/// The note on what is kept of an existing configuration, where there is anything to keep.
pub fn preserved_note(c: &Config) -> (r: Option<String>)
    ensures
        text::opt_text(r) == if c.pins@.len() > 0 || c.delay@.len() > 0 || c.repo_order@.len() > 0 {
            Some(
                "ℹ Preserving "@ + text::digits_of(c.pins@.len()) + " existing pin(s), "@ + text::digits_of(
                    c.exclude@.len(),
                ) + " exclusion rule(s), "@ + text::digits_of(c.delay@.len())
                    + " delay rule(s), and custom repo order."@,
            )
        } else {
            None
        },
{
    if c.pins.is_empty() && c.delay.is_empty() && c.repo_order.len() == 0 {
        return None;
    }
    let pins = number_text(c.pins.len() as u64);
    let exclude = number_text(c.exclude.len() as u64);
    let delay = number_text(c.delay.len() as u64);
    let mut t = text3("ℹ Preserving ", &pins, " existing pin(s), ");
    t.append(&exclude);
    t.append(" exclusion rule(s), ");
    t.append(&delay);
    t.append(" delay rule(s), and custom repo order.");
    Some(t)
}

pub open spec fn numbered_repo(repos: Seq<Seq<char>>, i: int) -> Seq<char> {
    "    "@ + text::digits_of((i + 1) as nat) + ". ["@ + repos[i] + "]"@
}

/// The repositories from the `i`-th on, four to a line; `current` is the line being filled.
pub open spec fn repo_lines_from(repos: Seq<Seq<char>>, current: Seq<char>, i: int) -> Seq<Seq<char>>
    decreases repos.len() - i,
{
    if i < 0 || i >= repos.len() {
        Seq::empty()
    } else {
        let line = current + numbered_repo(repos, i);
        if (i + 1) % 4 == 0 || i == repos.len() - 1 {
            seq![line] + repo_lines_from(repos, Seq::empty(), i + 1)
        } else {
            repo_lines_from(repos, line + "  "@, i + 1)
        }
    }
}

/// The repositories that were found, four to a line.
pub fn repo_lines(repos: &Vec<String>) -> (r: Vec<String>)
    ensures
        text::texts(r@) == repo_lines_from(text::texts(repos@), Seq::empty(), 0),
{
    let ghost all = text::texts(repos@);
    let ghost goal = repo_lines_from(all, Seq::empty(), 0);
    let mut out = no_strings();
    let mut current: String = String::new();
    assert(current@ =~= Seq::<char>::empty());
    assert(text::texts(out@) + goal =~= goal);
    let mut i: usize = 0;
    while i < repos.len()
        invariant
            i <= repos@.len(),
            all == text::texts(repos@),
            all.len() == repos@.len(),
            text::texts(out@) + repo_lines_from(all, current@, i as int) == goal,
        decreases repos@.len() - i,
    {
        assert(all[i as int] == repos@[i as int]@);
        let d = number_text(i as u64 + 1);
        let entry = text3("    ", &d, ". [");
        let full = text3(&entry, &repos[i], "]");
        assert(full@ == numbered_repo(all, i as int));
        current.append(&full);
        if (i + 1) % 4 == 0 || i == repos.len() - 1 {
            let ghost before = text::texts(out@);
            let ghost line = current@;
            push_str(&mut out, &current);
            current = String::new();
            proof {
                assert(current@ =~= Seq::<char>::empty());
                let rest = repo_lines_from(all, Seq::empty(), i + 1);
                assert(text::texts(out@) =~= before.push(line));
                assert(before + (seq![line] + rest) =~= before.push(line) + rest);
            }
        } else {
            current.append("  ");
        }
        i += 1;
    }
    assert(text::texts(out@) + Seq::<Seq<char>>::empty() =~= text::texts(out@));
    out
}

} // verus!
