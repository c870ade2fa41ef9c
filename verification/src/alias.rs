//! The short name `pin`: where it is set up, and when the user is told of it.
use crate::journal::TransactionJournal;
use crate::journal;
use crate::paths::join_path;
use crate::paths;
use crate::style::{Line, Page, Style};
use crate::style;
use crate::text::{contains, ends_with, join_strings, str_eq, text3};
use crate::text;
use vstd::prelude::*;
use vstd::string::*;

verus! {

pub struct AliasManager;

/// A start file of a shell.
#[derive(Debug, Clone)]
pub struct ShellFile {
    pub path: String,
    /// How the file is called in messages.
    pub label: String,
    /// It is written in the language of fish.
    pub fish: bool,
}

/// The file has the alias already.
pub open spec fn has_alias(content: Seq<char>, fish: bool) -> bool {
    if fish {
        text::holds(content, "alias pin"@) || text::holds(content, "abbr pin"@)
    } else {
        text::holds(content, "alias pin="@) || text::holds(content, "alias pin "@)
    }
}

/// What is added to a start file: nothing where the alias is there already, and always on
/// lines of its own.
pub open spec fn alias_lines(content: Seq<char>, fish: bool) -> Option<Seq<char>> {
    if has_alias(content, fish) {
        None
    } else {
        Some(
            (if text::ends(content, "\n"@) {
                Seq::empty()
            } else {
                "\n"@
            }) + (if fish {
                "# Added by pacpin\nalias pin \"pacpin\"\nalias pacpin \"pacpin\"\n"@
            } else {
                "# Added by pacpin\nalias pin=\"pacpin\"\nalias pacpin=\"pacpin\"\n"@
            }),
        )
    }
}

impl AliasManager {
    /// The file that marks that the user has been told.
    pub fn marker_path(home: Option<&str>) -> (r: Option<String>)
        ensures
            text::opt_text(r) == match home {
                Some(h) => Some(paths::joined(journal::state_path(h@), "alias_notified"@)),
                None => None,
            },
    {
        match TransactionJournal::state_dir(home) {
            Ok(d) => Some(join_path(&d, "alias_notified")),
            Err(_e) => None,
        }
    }

    /// Whether the user has been told: the marker has a place and is there.
    pub fn is_notified(home: Option<&str>, marker_exists: bool) -> (r: bool)
        ensures
            r == (home is Some && marker_exists),
    {
        home.is_some() && marker_exists
    }

    /// The start files that the alias is added to, where they exist.
    pub fn shell_files(home: &str) -> (r: Vec<ShellFile>)
        ensures
            r@.len() == 3,
            r@[0].path@ == paths::joined(home@, ".bashrc"@),
            r@[0].label@ == "~/.bashrc"@,
            !r@[0].fish,
            r@[1].path@ == paths::joined(home@, ".zshrc"@),
            r@[1].label@ == "~/.zshrc"@,
            !r@[1].fish,
            r@[2].path@ == paths::joined(paths::joined(paths::joined(home@, ".config"@), "fish"@), "config.fish"@),
            r@[2].label@ == "~/.config/fish/config.fish"@,
            r@[2].fish,
    {
        let config = join_path(home, ".config");
        let fish = join_path(&config, "fish");
        let mut v: Vec<ShellFile> = Vec::new();
        v.push(
            ShellFile {
                path: join_path(home, ".bashrc"),
                label: "~/.bashrc".to_string(),
                fish: false,
            },
        );
        v.push(
            ShellFile {
                path: join_path(home, ".zshrc"),
                label: "~/.zshrc".to_string(),
                fish: false,
            },
        );
        v.push(
            ShellFile {
                path: join_path(&fish, "config.fish"),
                label: "~/.config/fish/config.fish".to_string(),
                fish: true,
            },
        );
        v
    }

    /// What to add to a start file with this content.
    pub fn setup_aliases(content: &str, fish: bool) -> (r: Option<String>)
        ensures
            text::opt_text(r) == alias_lines(content@, fish),
    {
        let there: bool = if fish {
            contains(content, "alias pin") || contains(content, "abbr pin")
        } else {
            contains(content, "alias pin=") || contains(content, "alias pin ")
        };
        if there {
            return None;
        }
        let mut out: String = if ends_with(content, "\n") {
            String::new()
        } else {
            "\n".to_string()
        };
        assert(text::ends(content@, "\n"@) ==> out@ =~= Seq::<char>::empty());
        if fish {
            out.append("# Added by pacpin\nalias pin \"pacpin\"\nalias pacpin \"pacpin\"\n");
        } else {
            out.append("# Added by pacpin\nalias pin=\"pacpin\"\nalias pacpin=\"pacpin\"\n");
        }
        Some(out)
    }

    /// The tip on the short name; none for who uses it already.
    pub fn check_and_notify_once(invoked_as: &str, modified: &Vec<String>) -> (r: Page)
        ensures
            r@ == if invoked_as@ == "pin"@ {
                Seq::empty()
            } else {
                style::page3(
                    style::row5(
                        ("::"@, Style::BoldCyan),
                        (" "@, Style::Plain),
                        ("Tip:"@, Style::Bold),
                        (" "@, Style::Plain),
                        (
                            "You can also use 'pin' as a fast shorthand for 'pacpin' (e.g., 'pin check', 'pin -Syu')!"@,
                            Style::Green,
                        ),
                    ),
                    style::row2(
                        ("   "@, Style::Plain),
                        (
                            if modified@.len() > 0 {
                                "Configured aliases in "@ + text::join(text::texts(modified@), ", "@) + "."@
                            } else {
                                "Aliases for 'pin' and 'pacpin' have been configured in your shell."@
                            },
                            Style::Dimmed,
                        ),
                    ),
                    style::empty_row(),
                )
            },
    {
        if str_eq(invoked_as, "pin") {
            return Page::new();
        }
        let second: String = if modified.len() > 0 {
            let j = join_strings(modified, ", ");
            text3("Configured aliases in ", &j, ".")
        } else {
            "Aliases for 'pin' and 'pacpin' have been configured in your shell.".to_string()
        };
        Page::new().with(
            Line::new().with("::", Style::BoldCyan).with(" ", Style::Plain).with(
                "Tip:",
                Style::Bold,
            ).with(" ", Style::Plain).with(
                "You can also use 'pin' as a fast shorthand for 'pacpin' (e.g., 'pin check', 'pin -Syu')!",
                Style::Green,
            ),
        ).with(Line::new().with("   ", Style::Plain).with(&second, Style::Dimmed)).gap()
    }
}

proof fn tail_holds(a: Seq<char>, b: Seq<char>, p: Seq<char>)
    requires
        text::holds(b, p),
    ensures
        text::holds(a + b, p),
{
    let i = choose|i: int| #[trigger] text::stands_at(b, p, i);
    assert((a + b).subrange(a.len() + i, a.len() + i + p.len()) =~= b.subrange(i, i + p.len() as int));
    assert(text::stands_at(a + b, p, a.len() + i));
}

/// Setting up the alias a second time adds nothing.
pub proof fn alias_is_added_once(content: Seq<char>, fish: bool)
    requires
        alias_lines(content, fish) is Some,
    ensures
        alias_lines(content + alias_lines(content, fish)->0, fish) is None,
{
    let lead = if text::ends(content, "\n"@) {
        Seq::empty()
    } else {
        "\n"@
    };
    let fish_lines = "# Added by pacpin\nalias pin \"pacpin\"\nalias pacpin \"pacpin\"\n"@;
    let other_lines = "# Added by pacpin\nalias pin=\"pacpin\"\nalias pacpin=\"pacpin\"\n"@;
    reveal_strlit("# Added by pacpin\nalias pin \"pacpin\"\nalias pacpin \"pacpin\"\n");
    reveal_strlit("# Added by pacpin\nalias pin=\"pacpin\"\nalias pacpin=\"pacpin\"\n");
    reveal_strlit("alias pin");
    reveal_strlit("alias pin=");
    if fish {
        assert(fish_lines.subrange(18, 27) =~= "alias pin"@);
        assert(text::stands_at(fish_lines, "alias pin"@, 18));
        tail_holds(content + lead, fish_lines, "alias pin"@);
        assert(content + (lead + fish_lines) =~= content + lead + fish_lines);
    } else {
        assert(other_lines.subrange(18, 28) =~= "alias pin="@);
        assert(text::stands_at(other_lines, "alias pin="@, 18));
        tail_holds(content + lead, other_lines, "alias pin="@);
        assert(content + (lead + other_lines) =~= content + lead + other_lines);
    }
}

} // verus!
