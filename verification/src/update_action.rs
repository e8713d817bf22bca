use vstd::prelude::*;
use crate::text::{join_strs, join_with, owned, push_str, strings_view, strs_view};
use std::path::PathBuf;

verus! {

/// A path of the file system, carried through unread.
#[verifier::external_type_specification]
#[verifier::external_body]
pub struct ExPathBuf(PathBuf);

/// The error that `shlex` reports when a word cannot be quoted.
#[verifier::external_type_specification]
#[verifier::external_body]
pub struct ExQuoteError(shlex::QuoteError);

/// The platform a standalone installation was made for.
#[derive(Debug, Clone, Copy, PartialEq, Eq, Structural)]
pub enum StandalonePlatform {
    Unix,
    Windows,
}

/// How the running binary was installed.
#[derive(Debug)]
pub enum InstallContext {
    Npm,
    Bun,
    Brew,
    Standalone { platform: StandalonePlatform, release_dir: PathBuf, resources_dir: Option<PathBuf> },
    Other,
}

/// Where the update commands and checks fetch from.
#[derive(Debug)]
pub struct UpdateConfig {
    pub enabled: bool,
    pub latest_release_api_url: String,
    pub release_notes_url: String,
    pub install_options_url: String,
    pub homebrew_cask_api_url: String,
    pub npm_package_url: String,
    pub standalone_unix_installer_url: String,
    pub standalone_windows_installer_url: String,
}

/// Update action the CLI should perform after the TUI exits.
#[derive(Debug, Clone, Copy, PartialEq, Eq, Structural)]
pub enum UpdateAction {
    /// Update via `npm install -g @openai/codex@latest`.
    NpmGlobalLatest,
    /// Update via `bun install -g @openai/codex@latest`.
    BunGlobalLatest,
    /// Update via `brew upgrade codex`.
    BrewUpgrade,
    /// Update via `curl -fsSL https://chatgpt.com/codex/install.sh | sh`.
    StandaloneUnix,
    /// Update via `irm https://chatgpt.com/codex/install.ps1|iex`.
    StandaloneWindows,
}

/// The action that an installation context calls for.
pub open spec fn action_for_context(context: InstallContext) -> Option<UpdateAction> {
    match context {
        InstallContext::Npm => Some(UpdateAction::NpmGlobalLatest),
        InstallContext::Bun => Some(UpdateAction::BunGlobalLatest),
        InstallContext::Brew => Some(UpdateAction::BrewUpgrade),
        InstallContext::Standalone { platform, .. } => Some(
            match platform {
                StandalonePlatform::Unix => UpdateAction::StandaloneUnix,
                StandalonePlatform::Windows => UpdateAction::StandaloneWindows,
            },
        ),
        InstallContext::Other => None,
    }
}

/// The program that runs an action.
pub open spec fn program_of(action: UpdateAction) -> Seq<char> {
    match action {
        UpdateAction::NpmGlobalLatest => "npm"@,
        UpdateAction::BunGlobalLatest => "bun"@,
        UpdateAction::BrewUpgrade => "brew"@,
        UpdateAction::StandaloneUnix => "sh"@,
        UpdateAction::StandaloneWindows => "powershell"@,
    }
}

/// The shell line that runs a standalone installer found at `url`.
pub open spec fn installer_line(action: UpdateAction, url: Seq<char>) -> Seq<char> {
    match action {
        UpdateAction::StandaloneWindows => "irm "@ + url + "|iex"@,
        _ => "curl -fsSL "@ + url + " | sh"@,
    }
}

/// The arguments that an action passes to its program, with the standalone
/// installers fetched from `unix_url` and `windows_url`.
pub open spec fn args_with_urls(action: UpdateAction, unix_url: Seq<char>, windows_url: Seq<char>) -> Seq<Seq<char>> {
    match action {
        UpdateAction::NpmGlobalLatest => seq!["install"@, "-g"@, "@openai/codex@latest"@],
        UpdateAction::BunGlobalLatest => seq!["install"@, "-g"@, "@openai/codex@latest"@],
        UpdateAction::BrewUpgrade => seq!["upgrade"@, "codex"@],
        UpdateAction::StandaloneUnix => seq!["-c"@, installer_line(action, unix_url)],
        UpdateAction::StandaloneWindows => seq!["-c"@, installer_line(action, windows_url)],
    }
}

/// The arguments of an action with the default installer locations.
pub open spec fn default_args(action: UpdateAction) -> Seq<Seq<char>> {
    args_with_urls(action, "https://chatgpt.com/codex/install.sh"@, "https://chatgpt.com/codex/install.ps1"@)
}

/// Whether any of `words` holds a nul character.
pub open spec fn has_nul(words: Seq<Seq<char>>) -> bool {
    exists|i: int, j: int| 0 <= i < words.len() && 0 <= j < words[i].len() && #[trigger] words[i][j] == '\0'
}

/// The words joined by `shlex::try_join`, each quoted where the shell needs it.
pub uninterp spec fn shlex_joined(words: Seq<Seq<char>>) -> Seq<char>;

/// The command line shown for `program` and `args`: the shell-quoted join of
/// the words where they can be quoted, else the words joined by spaces.
pub open spec fn command_line(program: Seq<char>, args: Seq<Seq<char>>) -> Seq<char> {
    let words = seq![program] + args;
    if has_nul(words) {
        program + " "@ + join_with(args, " "@)
    } else {
        shlex_joined(words)
    }
}

/// Wraps `shlex::try_join`. Its source quotes each word (`Quoter::quote`),
/// failing only on a word that holds a nul byte, and joins the quoted words
/// with single spaces; the quoted text itself is named `shlex_joined`.
#[verifier::external_body]
fn shlex_try_join(words: &Vec<&str>) -> (res: Result<String, shlex::QuoteError>)
    ensures
        res is Ok <==> !has_nul(strs_view(words@)),
        res matches Ok(s) ==> s@ == shlex_joined(strs_view(words@)),
{
    shlex::try_join(words.iter().copied())
}

/// The command line for `program` and `args`, given what shell-quoting their
/// words gave (`None` where it failed).
pub fn render_command_line(quoted: Option<String>, program: &str, args: &[&str]) -> (res: String)
    ensures
        quoted matches Some(q) ==> res@ == q@,
        quoted is None ==> res@ == program@ + " "@ + join_with(strs_view(args@), " "@),
{
    match quoted {
        Some(q) => q,
        None => {
            let mut line = owned(program);
            push_str(&mut line, " ");
            let rest = join_strs(args, " ");
            push_str(&mut line, rest.as_str());
            line
        },
    }
}

/// Shell-quotes and joins `program` followed by `args`, falling back to a
/// plain space-joined line where a word cannot be quoted.
fn join_command_line(program: &str, args: &[&str]) -> (res: String)
    ensures
        res@ == command_line(program@, strs_view(args@)),
{
    let mut words: Vec<&str> = Vec::new();
    words.push(program);
    let n = args.len();
    let mut i: usize = 0;
    while i < n
        invariant
            n == args@.len(),
            i <= n,
            words@ == seq![program] + args@.take(i as int),
        decreases n - i,
    {
        words.push(args[i]);
        proof { assert(args@.take(i + 1) == args@.take(i as int).push(args@[i as int])); }
        i = i + 1;
    }
    proof {
        assert(args@.take(n as int) == args@);
        assert(strs_view(words@) == seq![program@] + strs_view(args@));
    }
    let quoted = match shlex_try_join(&words) {
        Ok(s) => Some(s),
        Err(_) => None,
    };
    render_command_line(quoted, program, args)
}

impl UpdateAction {
    /// The action that an installation context calls for; `None` where the
    /// installation method is unknown.
    pub fn from_install_context(context: &InstallContext) -> (res: Option<Self>)
        ensures
            res == action_for_context(*context),
    {
        match context {
            InstallContext::Npm => Some(UpdateAction::NpmGlobalLatest),
            InstallContext::Bun => Some(UpdateAction::BunGlobalLatest),
            InstallContext::Brew => Some(UpdateAction::BrewUpgrade),
            InstallContext::Standalone { platform, .. } => Some(
                match platform {
                    StandalonePlatform::Unix => UpdateAction::StandaloneUnix,
                    StandalonePlatform::Windows => UpdateAction::StandaloneWindows,
                },
            ),
            InstallContext::Other => None,
        }
    }

    /// Returns the list of command-line arguments for invoking the update.
    pub fn command_args(self) -> (res: (&'static str, &'static [&'static str]))
        ensures
            res.0@ == program_of(self),
            strs_view(res.1@) == default_args(self),
    {
        proof {
            reveal_strlit("https://chatgpt.com/codex/install.sh");
            reveal_strlit("curl -fsSL ");
            reveal_strlit(" | sh");
            reveal_strlit("curl -fsSL https://chatgpt.com/codex/install.sh | sh");
            reveal_strlit("https://chatgpt.com/codex/install.ps1");
            reveal_strlit("irm ");
            reveal_strlit("|iex");
            reveal_strlit("irm https://chatgpt.com/codex/install.ps1|iex");
        }
        let res: (&'static str, &'static [&'static str]) = match self {
            UpdateAction::NpmGlobalLatest => ("npm", &["install", "-g", "@openai/codex@latest"]),
            UpdateAction::BunGlobalLatest => ("bun", &["install", "-g", "@openai/codex@latest"]),
            UpdateAction::BrewUpgrade => ("brew", &["upgrade", "codex"]),
            UpdateAction::StandaloneUnix => (
                "sh",
                &["-c", "curl -fsSL https://chatgpt.com/codex/install.sh | sh"],
            ),
            UpdateAction::StandaloneWindows => (
                "powershell",
                &["-c", "irm https://chatgpt.com/codex/install.ps1|iex"],
            ),
        };
        proof {
            assert(installer_line(UpdateAction::StandaloneUnix, "https://chatgpt.com/codex/install.sh"@)
                =~= "curl -fsSL https://chatgpt.com/codex/install.sh | sh"@);
            assert(installer_line(UpdateAction::StandaloneWindows, "https://chatgpt.com/codex/install.ps1"@)
                =~= "irm https://chatgpt.com/codex/install.ps1|iex"@);
            assert(strs_view(res.1@) =~= default_args(self));
        }
        res
    }
}

/// Borrows each string of `v`.
fn as_strs(v: &Vec<String>) -> (res: Vec<&str>)
    ensures
        strs_view(res@) == strings_view(v@),
{
    let mut res: Vec<&str> = Vec::new();
    let n = v.len();
    let mut i: usize = 0;
    while i < n
        invariant
            n == v@.len(),
            i <= n,
            strs_view(res@) == strings_view(v@.take(i as int)),
        decreases n - i,
    {
        res.push(v[i].as_str());
        proof {
            assert(strings_view(v@.take(i + 1)) =~= strings_view(v@.take(i as int)).push(v@[i as int]@));
            assert(strs_view(res@) =~= strs_view(res@.drop_last()).push(res@.last()@));
        }
        i = i + 1;
    }
    proof { assert(v@.take(n as int) == v@); }
    res
}

impl UpdateAction {
    /// Returns string representation of the command-line arguments for invoking the update.
    pub fn command_str(self) -> (res: String)
        ensures
            res@ == command_line(program_of(self), default_args(self)),
            res@ == shlex_joined(seq![program_of(self)] + default_args(self)),
    {
        let (command, args) = self.command_args();
        let res = join_command_line(command, args);
        proof { lemma_default_words_have_no_nul(self); }
        res
    }

    /// Returns command arguments using the configurable update URLs.
    pub fn command_args_with_config(self, update_config: &UpdateConfig) -> (res: (String, Vec<String>))
        ensures
            res.0@ == program_of(self),
            strings_view(res.1@) == args_with_urls(
                self,
                update_config.standalone_unix_installer_url@,
                update_config.standalone_windows_installer_url@,
            ),
    {
        proof {
            reveal_strlit("npm");
        }
        let res = match self {
            UpdateAction::NpmGlobalLatest => (owned("npm"), vec![owned("install"), owned("-g"), owned("@openai/codex@latest")]),
            UpdateAction::BunGlobalLatest => (owned("bun"), vec![owned("install"), owned("-g"), owned("@openai/codex@latest")]),
            UpdateAction::BrewUpgrade => (owned("brew"), vec![owned("upgrade"), owned("codex")]),
            UpdateAction::StandaloneUnix => {
                let mut line = owned("curl -fsSL ");
                push_str(&mut line, update_config.standalone_unix_installer_url.as_str());
                push_str(&mut line, " | sh");
                (owned("sh"), vec![owned("-c"), line])
            },
            UpdateAction::StandaloneWindows => {
                let mut line = owned("irm ");
                push_str(&mut line, update_config.standalone_windows_installer_url.as_str());
                push_str(&mut line, "|iex");
                (owned("powershell"), vec![owned("-c"), line])
            },
        };
        proof {
            assert(strings_view(res.1@) =~= args_with_urls(
                self,
                update_config.standalone_unix_installer_url@,
                update_config.standalone_windows_installer_url@,
            ));
        }
        res
    }

    /// Returns the command string using the configurable update URLs.
    pub fn command_str_with_config(self, update_config: &UpdateConfig) -> (res: String)
        ensures
            res@ == command_line(
                program_of(self),
                args_with_urls(
                    self,
                    update_config.standalone_unix_installer_url@,
                    update_config.standalone_windows_installer_url@,
                ),
            ),
    {
        let (command, args) = self.command_args_with_config(update_config);
        let arg_strs = as_strs(&args);
        join_command_line(command.as_str(), arg_strs.as_slice())
    }
}

/// None of the default words of an action holds a nul character.
proof fn lemma_default_words_have_no_nul(action: UpdateAction)
    ensures
        !has_nul(seq![program_of(action)] + default_args(action)),
{
    reveal_strlit("npm");
    reveal_strlit("bun");
    reveal_strlit("brew");
    reveal_strlit("sh");
    reveal_strlit("powershell");
    reveal_strlit("install");
    reveal_strlit("-g");
    reveal_strlit("@openai/codex@latest");
    reveal_strlit("upgrade");
    reveal_strlit("codex");
    reveal_strlit("-c");
    reveal_strlit("https://chatgpt.com/codex/install.sh");
    reveal_strlit("curl -fsSL ");
    reveal_strlit(" | sh");
    reveal_strlit("https://chatgpt.com/codex/install.ps1");
    reveal_strlit("irm ");
    reveal_strlit("|iex");
    let words = seq![program_of(action)] + default_args(action);
    assert forall|i: int, j: int| 0 <= i < words.len() && 0 <= j < words[i].len() implies #[trigger] words[i][j] != '\0' by {
        if i == 0 {
        } else {
            let a = default_args(action);
            assert(words[i] == a[i - 1]);
        }
    }
}

/// The configured installer locations change only the standalone actions'
/// commands; with the default locations every action's command is the one
/// that `command_args` gives.
pub proof fn law_config_moves_only_installers(action: UpdateAction, unix_url: Seq<char>, windows_url: Seq<char>)
    ensures
        !(action is StandaloneUnix || action is StandaloneWindows) ==> args_with_urls(action, unix_url, windows_url)
            == default_args(action),
        action is StandaloneUnix ==> args_with_urls(action, unix_url, windows_url) == seq![
            "-c"@,
            "curl -fsSL "@ + unix_url + " | sh"@,
        ],
        action is StandaloneWindows ==> args_with_urls(action, unix_url, windows_url) == seq![
            "-c"@,
            "irm "@ + windows_url + "|iex"@,
        ],
{
}

/// Every installation method but an unknown one has an update action.
pub proof fn law_known_installs_update(context: InstallContext)
    ensures
        action_for_context(context) is None <==> context is Other,
{
}

} // verus!
