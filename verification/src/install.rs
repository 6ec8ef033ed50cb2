//! Planning for the self-installation and shell-completion flows.
//!
//! Everything here is a pure decision: which completion files to write and
//! where, whether the `PATH` variable needs the installation directory,
//! what a prompt answer means, which rows a settings summary shows.  The
//! surrounding program performs the file, environment and console work and
//! feeds the answers back as plain values.

use vstd::prelude::*;
use crate::escape::{chars_to_string, str_eq, str_to_chars};

verus! {

/// Options of the self-installation command.
pub struct SelfInstall {
    /// Install the nightly channel of the command-line tools.
    pub nightly: bool,
    /// Enable verbose output.
    pub verbose: bool,
    /// Skip printing messages and confirmation prompts.
    pub quiet: bool,
    /// Disable the confirmation prompt and project initialization.
    pub no_confirm: bool,
    /// Do not configure the `PATH` environment variable.
    pub no_modify_path: bool,
    /// Do not wait for a final key press before exiting.
    pub no_wait_for_exit_prompt: bool,
}

/// A shell with completion support.
#[derive(Clone, Copy, Debug, PartialEq, Eq)]
pub enum Shell {
    Bash,
    Elvish,
    Fish,
    PowerShell,
    Zsh,
}

/// The shell a lowercase name denotes, if any.
pub open spec fn shell_named(v: Seq<char>) -> Option<Shell> {
    if v == "bash"@ {
        Some(Shell::Bash)
    } else if v == "elvish"@ {
        Some(Shell::Elvish)
    } else if v == "fish"@ {
        Some(Shell::Fish)
    } else if v == "powershell"@ {
        Some(Shell::PowerShell)
    } else if v == "zsh"@ {
        Some(Shell::Zsh)
    } else {
        None
    }
}

impl Shell {
    /// Parse a lowercase shell name; any other text is unknown.
    pub fn from_str(v: &str) -> (r: Option<Shell>)
        ensures
            r == shell_named(v@),
    {
        if str_eq(v, "bash") {
            Some(Shell::Bash)
        } else if str_eq(v, "elvish") {
            Some(Shell::Elvish)
        } else if str_eq(v, "fish") {
            Some(Shell::Fish)
        } else if str_eq(v, "powershell") {
            Some(Shell::PowerShell)
        } else if str_eq(v, "zsh") {
            Some(Shell::Zsh)
        } else {
            None
        }
    }
}

/// Options of the completion-generation command.
pub struct GenCompletions {
    /// Print completions for this shell to standard output.
    pub shell: Option<Shell>,
    /// Install every completion file under this prefix directory.
    pub prefix: Option<String>,
    /// Install every completion file under the home directory.
    pub home: bool,
}

/// An error of the completion-generation command.
#[derive(Clone, Copy, Debug, PartialEq, Eq)]
pub enum InstallError {
    /// Neither a shell nor a destination was selected.
    NoTarget,
}

impl InstallError {
    /// The message shown for this error.
    pub fn message(&self) -> (r: &'static str)
        ensures
            r@ == "either `--prefix` or `--shell=` is expected"@,
    {
        "either `--prefix` or `--shell=` is expected"
    }
}

/// What the completion-generation command should do.
pub enum CompletionAction {
    /// Print this shell's completion script to standard output.
    Stdout(Shell),
    /// Write the completion files at these prefix-relative paths under the
    /// given prefix directory.
    Prefix(String, Vec<(Shell, String)>),
    /// Write the completion files at these home-relative paths under the
    /// home directory.
    Home(Vec<(Shell, String)>),
}

/// The completion files installed under the home directory, as pairs of a
/// shell and a home-relative path.
pub fn write_completions_home() -> (r: Vec<(Shell, String)>)
    ensures
        r@.len() == 3,
        r@[0].0 == Shell::Bash,
        r@[0].1@ == ".local/share/bash-completion/completions/edgedb"@,
        r@[1].0 == Shell::Fish,
        r@[1].1@ == ".config/fish/completions/edgedb.fish"@,
        r@[2].0 == Shell::Zsh,
        r@[2].1@ == ".zfunc/_edgedb"@,
{
    let mut r: Vec<(Shell, String)> = Vec::new();
    r.push((Shell::Bash, ".local/share/bash-completion/completions/edgedb".to_owned()));
    r.push((Shell::Fish, ".config/fish/completions/edgedb.fish".to_owned()));
    r.push((Shell::Zsh, ".zfunc/_edgedb".to_owned()));
    r
}

/// The completion files installed under a prefix directory, as pairs of a
/// shell and a prefix-relative path.
pub fn prefix_completion_files() -> (r: Vec<(Shell, String)>)
    ensures
        r@.len() == 3,
        r@[0].0 == Shell::Bash,
        r@[0].1@ == "share/bash-completion/completions/edgedb"@,
        r@[1].0 == Shell::Fish,
        r@[1].1@ == "share/fish/completions/edgedb.fish"@,
        r@[2].0 == Shell::Zsh,
        r@[2].1@ == "share/zsh/site-functions/_edgedb"@,
{
    let mut r: Vec<(Shell, String)> = Vec::new();
    r.push((Shell::Bash, "share/bash-completion/completions/edgedb".to_owned()));
    r.push((Shell::Fish, "share/fish/completions/edgedb.fish".to_owned()));
    r.push((Shell::Zsh, "share/zsh/site-functions/_edgedb".to_owned()));
    r
}

/// Decide what the completion-generation command does: a named shell
/// prints to standard output; else a prefix receives the standard files;
/// else the home directory does; selecting none of the three is an error.
pub fn gen_completions(options: &GenCompletions) -> (r: Result<CompletionAction, InstallError>)
    ensures
        match r {
            Ok(CompletionAction::Stdout(sh)) => options.shell == Some(sh),
            Ok(CompletionAction::Prefix(p, _)) => options.shell is None && (match options.prefix {
                Some(q) => p@ == q@,
                None => false,
            }),
            Ok(CompletionAction::Home(_)) => options.shell is None && options.prefix is None
                && options.home,
            Err(InstallError::NoTarget) => options.shell is None && options.prefix is None
                && !options.home,
        },
{
    match &options.shell {
        Some(shell) => Ok(CompletionAction::Stdout(*shell)),
        None => {
            match &options.prefix {
                Some(prefix) => Ok(
                    CompletionAction::Prefix(prefix.clone(), prefix_completion_files()),
                ),
                None => {
                    if options.home {
                        Ok(CompletionAction::Home(write_completions_home()))
                    } else {
                        Err(InstallError::NoTarget)
                    }
                },
            }
        },
    }
}

/// Whether the installation directory is missing from the `PATH` entries,
/// so that a profile update is called for.
pub fn should_modify_path(dir: &str, path_entries: &Vec<String>) -> (r: bool)
    ensures
        r == !(exists|i: int|
            0 <= i < path_entries@.len() && (#[trigger] path_entries@[i])@ == dir@),
{
    let mut i: usize = 0;
    while i < path_entries.len()
        invariant
            i <= path_entries@.len(),
            forall|j: int| 0 <= j < i ==> (#[trigger] path_entries@[j])@ != dir@,
        decreases path_entries@.len() - i,
    {
        if str_eq(path_entries[i].as_str(), dir) {
            return false;
        }
        i = i + 1;
    }
    true
}

/// What one answer to a yes/no prompt means: an empty answer accepts the
/// default `yes`; anything but the known words asks again.
pub fn parse_yes_no(choice: &str) -> (r: Option<bool>)
    ensures
        r == (if choice@ == ""@ || choice@ == "y"@ || choice@ == "yes"@ {
            Some(true)
        } else if choice@ == "n"@ || choice@ == "no"@ {
            Some(false)
        } else {
            None::<bool>
        }),
{
    if str_eq(choice, "") || str_eq(choice, "y") || str_eq(choice, "yes") {
        Some(true)
    } else if str_eq(choice, "n") || str_eq(choice, "no") {
        Some(false)
    } else {
        None
    }
}

/// One answer to the installation menu.
#[derive(Clone, Copy, Debug, PartialEq, Eq)]
pub enum InstallChoice {
    /// Proceed with the installation (the default).
    Proceed,
    /// Customize the installation first.
    Customize,
    /// Abort the installation.
    Abort,
}

/// What one answer to the installation menu means: empty or `1` proceeds,
/// `2` customizes, anything else aborts.
pub fn parse_install_choice(choice: &str) -> (r: InstallChoice)
    ensures
        r == (if choice@ == ""@ || choice@ == "1"@ {
            InstallChoice::Proceed
        } else if choice@ == "2"@ {
            InstallChoice::Customize
        } else {
            InstallChoice::Abort
        }),
{
    if str_eq(choice, "") || str_eq(choice, "1") {
        InstallChoice::Proceed
    } else if str_eq(choice, "2") {
        InstallChoice::Customize
    } else {
        InstallChoice::Abort
    }
}

/// The profile line that puts the installation directory on `PATH`.
pub fn path_export_line(installation_path: &str) -> (r: String)
    ensures
        r@ == "\nexport PATH=\""@ + installation_path@ + ":$PATH\""@,
{
    let head = "\nexport PATH=\"".to_owned();
    let mid = head.concat(installation_path);
    mid.concat(":$PATH\"")
}

/// The profile files a `PATH` update touches: always `~/.profile`; the zsh
/// profile (under the zsh dot-directory when one is set) for zsh users;
/// and `~/.bash_profile` only when it already exists, since creating it
/// would stop `~/.profile` from being read.
pub fn get_rc_files(
    home: &str,
    zsh: bool,
    zdotdir: Option<&String>,
    bash_profile_exists: bool,
) -> (r: Vec<String>)
    ensures
        r@.len() == 1 + (if zsh {
            1int
        } else {
            0int
        }) + (if bash_profile_exists {
            1int
        } else {
            0int
        }),
        r@[0]@ == home@ + "/.profile"@,
        zsh ==> r@[1]@ == (match zdotdir {
            Some(d) => d@,
            None => home@,
        }) + "/.zprofile"@,
        bash_profile_exists ==> r@[r@.len() - 1]@ == home@ + "/.bash_profile"@,
{
    let mut r: Vec<String> = Vec::new();
    r.push(home.to_owned().concat("/.profile"));
    if zsh {
        let base: &str = match zdotdir {
            Some(d) => d.as_str(),
            None => home,
        };
        r.push(base.to_owned().concat("/.zprofile"));
    }
    if bash_profile_exists {
        r.push(home.to_owned().concat("/.bash_profile"));
    }
    r
}

/// The settings of one installation run.
pub struct Settings {
    /// Whether this is a system-wide installation.
    pub system: bool,
    /// The directory that receives the binary.
    pub installation_path: String,
    /// Whether the `PATH` variable will be updated.
    pub modify_path: bool,
    /// The environment file that records the `PATH` update.
    pub env_file: String,
    /// The profile files the update touches.
    pub rc_files: Vec<String>,
}

/// `items` joined with a newline between consecutive entries.
pub open spec fn joined_lines(items: Seq<Seq<char>>) -> Seq<char>
    decreases items.len(),
{
    if items.len() == 0 {
        Seq::empty()
    } else if items.len() == 1 {
        items[0]
    } else {
        joined_lines(items.drop_last()) + seq!['\n'] + items.last()
    }
}

/// Join strings with newlines.
fn join_lines(items: &Vec<String>) -> (r: String)
    ensures
        r@ == joined_lines(items@.map_values(|s: String| s@)),
{
    let ghost views = items@.map_values(|s: String| s@);
    let mut out: Vec<char> = Vec::new();
    let mut i: usize = 0;
    while i < items.len()
        invariant
            i <= items@.len(),
            views == items@.map_values(|s: String| s@),
            out@ == joined_lines(views.take(i as int)),
        decreases items@.len() - i,
    {
        if i > 0 {
            out.push('\n');
        }
        let cs = str_to_chars(items[i].as_str());
        let mut j: usize = 0;
        while j < cs.len()
            invariant
                j <= cs@.len(),
                cs@ == views[i as int],
                i < views.len(),
                out@ == joined_lines(views.take(i as int)) + (if i > 0 {
                    seq!['\n']
                } else {
                    Seq::<char>::empty()
                }) + cs@.take(j as int),
            decreases cs@.len() - j,
        {
            out.push(cs[j]);
            j = j + 1;
            assert(out@ =~= joined_lines(views.take(i as int)) + (if i > 0 {
                seq!['\n']
            } else {
                Seq::<char>::empty()
            }) + cs@.take(j as int));
        }
        i = i + 1;
        proof {
            let t = views.take(i as int);
            assert(t.drop_last() =~= views.take(i as int - 1));
            assert(cs@.take(cs@.len() as int) =~= cs@);
            assert(out@ =~= joined_lines(views.take(i as int)));
        }
    }
    proof {
        assert(views.take(views.len() as int) =~= views);
    }
    chars_to_string(&out)
}

impl Settings {
    /// The rows of the settings summary table: the installation path,
    /// whether `PATH` is modified, and — only when it is and profile files
    /// are involved — those files, one per line.
    pub fn print_rows(&self) -> (r: Vec<(String, String)>)
        ensures
            r@.len() == (if self.modify_path && self.rc_files@.len() > 0 {
                3int
            } else {
                2int
            }),
            r@[0].0@ == "Installation Path"@,
            r@[0].1@ == self.installation_path@,
            r@[1].0@ == "Modify PATH Variable"@,
            r@[1].1@ == (if self.modify_path {
                "yes"@
            } else {
                "no"@
            }),
            self.modify_path && self.rc_files@.len() > 0 ==> r@[2].0@ == "Profile Files"@
                && r@[2].1@ == joined_lines(self.rc_files@.map_values(|s: String| s@)),
    {
        let mut r: Vec<(String, String)> = Vec::new();
        r.push(("Installation Path".to_owned(), self.installation_path.clone()));
        let flag: &str = if self.modify_path {
            "yes"
        } else {
            "no"
        };
        r.push(("Modify PATH Variable".to_owned(), flag.to_owned()));
        if self.modify_path && self.rc_files.len() > 0 {
            r.push(("Profile Files".to_owned(), join_lines(&self.rc_files)));
        }
        r
    }
}

/// The two bytes of one UTF-16 code unit, least significant first, as the
/// registry stores them.
pub open spec fn char_reg_bytes(c: char) -> Seq<u8> {
    let u = c as u32;
    if u < 0x10000 {
        seq![(u % 256) as u8, ((u / 256) % 256) as u8]
    } else {
        let v = (u - 0x10000) as u32;
        let hi = (0xD800 + v / 0x400) as u32;
        let lo = (0xDC00 + v % 0x400) as u32;
        seq![
            (hi % 256) as u8,
            ((hi / 256) % 256) as u8,
            (lo % 256) as u8,
            ((lo / 256) % 256) as u8,
        ]
    }
}

/// The UTF-16 little-endian bytes of a whole string.
pub open spec fn str_reg_bytes(s: Seq<char>) -> Seq<u8>
    decreases s.len(),
{
    if s.len() == 0 {
        Seq::empty()
    } else {
        str_reg_bytes(s.drop_last()) + char_reg_bytes(s.last())
    }
}

/// Encode a string as a null-terminated UTF-16 little-endian byte string,
/// the form a registry value of text type takes: every code point below
/// `0x10000` becomes one code unit, every other one a surrogate pair, and
/// two zero bytes terminate the value.
pub fn string_to_winreg_bytes(s: &str) -> (r: Vec<u8>)
    ensures
        r@ == str_reg_bytes(s@) + seq![0u8, 0u8],
{
    let cs = str_to_chars(s);
    let mut out: Vec<u8> = Vec::new();
    let mut i: usize = 0;
    while i < cs.len()
        invariant
            i <= cs@.len(),
            cs@ == s@,
            out@ == str_reg_bytes(s@.take(i as int)),
        decreases cs@.len() - i,
    {
        let c = cs[i];
        let u = c as u32;
        if u < 0x10000 {
            out.push((u % 256) as u8);
            out.push(((u / 256) % 256) as u8);
        } else {
            let v = u - 0x10000;
            let hi = 0xD800 + v / 0x400;
            let lo = 0xDC00 + v % 0x400;
            out.push((hi % 256) as u8);
            out.push(((hi / 256) % 256) as u8);
            out.push((lo % 256) as u8);
            out.push(((lo / 256) % 256) as u8);
        }
        i = i + 1;
        proof {
            let t = s@.take(i as int);
            assert(t.drop_last() =~= s@.take(i as int - 1));
            assert(out@ =~= str_reg_bytes(t));
        }
    }
    proof {
        assert(s@.take(cs@.len() as int) =~= s@);
    }
    out.push(0);
    out.push(0);
    proof {
        assert(out@ =~= str_reg_bytes(s@) + seq![0u8, 0u8]);
    }
    out
}

} // verus!
