//! The options of the command line, and what they ask for.

use vstd::prelude::*;
use crate::error::opt_view;
use crate::text::{contains_text, occurs_in};

verus! {

/// When output is coloured.
#[derive(Debug, Clone, Copy, PartialEq, Eq, Structural)]
pub enum ColorChoice {
    /// Where the output goes to a terminal.
    Auto,
    /// Always.
    Always,
    /// Never.
    Never,
}

/// Where output goes.
#[derive(Debug, Clone, Copy, PartialEq, Eq, Structural)]
pub enum Stream {
    /// The standard output.
    Stdout,
}

impl ColorChoice {
    /// Whether output is coloured, given whether it goes to a terminal.
    pub fn colors(&self, terminal: bool) -> (r: bool)
        ensures
            r == match self {
                ColorChoice::Always => true,
                ColorChoice::Never => false,
                ColorChoice::Auto => terminal,
            },
    {
        match self {
            ColorChoice::Always => true,
            ColorChoice::Never => false,
            ColorChoice::Auto => terminal,
        }
    }
}

/// The options that every command takes.
#[derive(Debug)]
pub struct GlobalOpts {
    /// The path of the configuration file, if one is given.
    pub config: Option<String>,
    /// Whether to say what is being done.
    pub verbose: bool,
    /// Whether to say nothing but the result.
    pub quiet: bool,
    /// When to colour the output.
    pub color: ColorChoice,
}

/// The format of a listing.
#[derive(Debug, Clone, Copy, PartialEq, Eq, Structural)]
pub enum OutputFormat {
    /// A table.
    Table,
    /// JSON.
    Json,
    /// YAML.
    Yaml,
    /// Comma-separated values.
    Csv,
}

/// The format of an export from the command line.
#[derive(Debug, Clone, Copy, PartialEq, Eq, Structural)]
pub enum ExportFormat {
    /// JSON.
    Json,
    /// YAML.
    Yaml,
}

/// The options of `parse`.
#[derive(Debug, Clone, Copy, PartialEq, Eq, Structural)]
pub struct ParseArgs {
    /// Show the tree.
    pub tree: bool,
    /// Show the summary.
    pub summary: bool,
    /// Write the configuration as JSON.
    pub json: bool,
}

/// What `parse` shows.
#[derive(Debug, Clone, Copy, PartialEq, Eq, Structural)]
pub enum ParseView {
    /// The configuration as JSON.
    Json,
    /// The tree.
    Tree,
    /// The summary.
    Summary,
    /// The tree, then the summary.
    TreeAndSummary,
}

impl ParseArgs {
    /// What is shown: JSON where it is asked for, else the tree where it is
    /// asked for, else the summary where it is asked for; both tree and
    /// summary where nothing is asked for.
    pub fn view(&self) -> (r: ParseView)
        ensures
            r == if self.json {
                ParseView::Json
            } else if self.tree {
                ParseView::Tree
            } else if self.summary {
                ParseView::Summary
            } else {
                ParseView::TreeAndSummary
            },
    {
        if self.json {
            ParseView::Json
        } else if self.tree {
            ParseView::Tree
        } else if self.summary {
            ParseView::Summary
        } else {
            ParseView::TreeAndSummary
        }
    }
}

/// What `extract` lists, with the options of each listing.
#[derive(Debug)]
pub enum ExtractTarget {
    /// The servers.
    Servers {
        /// Only servers with SSL.
        ssl_only: bool,
        /// Only servers that listen on this port.
        port: Option<u16>,
        /// Only servers with a name that matches this pattern.
        name: Option<String>,
        /// The format, in place of that of the command.
        format: Option<OutputFormat>,
        /// The file to write to, in place of that of the command.
        output: Option<String>,
    },
    /// The access logs.
    Logs {
        /// Add the log formats.
        with_formats: bool,
        /// Only logs whose context holds this text.
        context: Option<String>,
        /// The format, in place of that of the command.
        format: Option<OutputFormat>,
        /// The file to write to, in place of that of the command.
        output: Option<String>,
    },
    /// The locations.
    Locations {
        /// Only locations that pass requests on.
        proxy_only: bool,
        /// Only locations that serve files.
        static_only: bool,
        /// Only locations of servers whose name matches this pattern.
        server: Option<String>,
        /// The format, in place of that of the command.
        format: Option<OutputFormat>,
        /// The file to write to, in place of that of the command.
        output: Option<String>,
    },
}

/// The options of `extract`.
#[derive(Debug)]
pub struct ExtractArgs {
    /// What to list.
    pub target: ExtractTarget,
    /// The format of the listing.
    pub format: OutputFormat,
    /// The file to write to, if any.
    pub output: Option<String>,
}

impl ExtractTarget {
    /// The format given with the target, if any.
    pub open spec fn own_format(self) -> Option<OutputFormat> {
        match self {
            ExtractTarget::Servers { format, .. } => format,
            ExtractTarget::Logs { format, .. } => format,
            ExtractTarget::Locations { format, .. } => format,
        }
    }

    /// The file given with the target, if any.
    pub open spec fn own_output(self) -> Option<Seq<char>> {
        match self {
            ExtractTarget::Servers { output, .. } => opt_view(output),
            ExtractTarget::Logs { output, .. } => opt_view(output),
            ExtractTarget::Locations { output, .. } => opt_view(output),
        }
    }
}

impl ExtractArgs {
    /// The format in force: that of the target where it gives one, that of
    /// the command otherwise.
    pub fn effective_format(&self) -> (r: OutputFormat)
        ensures
            r == match self.target.own_format() {
                Some(f) => f,
                None => self.format,
            },
    {
        let own = match &self.target {
            ExtractTarget::Servers { format, .. } => *format,
            ExtractTarget::Logs { format, .. } => *format,
            ExtractTarget::Locations { format, .. } => *format,
        };
        match own {
            Some(f) => f,
            None => self.format,
        }
    }

    /// The file to write to: that of the target where it gives one, that
    /// of the command otherwise.
    pub fn effective_output(&self) -> (r: Option<&str>)
        ensures
            match r {
                Some(path) => Some(path@) == (match self.target.own_output() {
                    Some(p) => Some(p),
                    None => opt_view(self.output),
                }),
                None => self.target.own_output() is None && self.output is None,
            },
    {
        let own = match &self.target {
            ExtractTarget::Servers { output, .. } => output,
            ExtractTarget::Logs { output, .. } => output,
            ExtractTarget::Locations { output, .. } => output,
        };
        match own {
            Some(path) => Some(path.as_str()),
            None => match &self.output {
                Some(path) => Some(path.as_str()),
                None => None,
            },
        }
    }
}

/// The options of `export`.
#[derive(Debug)]
pub struct ExportArgs {
    /// The format.
    pub format: ExportFormat,
    /// The file to write to, if any.
    pub output: Option<String>,
    /// Whether to pretty-print.
    pub pretty: bool,
}

/// The options of `doctor`.
#[derive(Debug, Clone, Copy, PartialEq, Eq, Structural)]
pub struct DoctorArgs {
    /// Leave the network checks out.
    pub no_network: bool,
    /// Try to fix what is found.
    pub fix: bool,
}

/// What `analyze` looks at, with the options of each analysis.
#[derive(Debug)]
pub enum AnalyzeTarget {
    /// The SSL setup.
    Ssl {
        /// Leave the notes out.
        warnings_only: bool,
        /// Add a note on the certificate files.
        check_certs: bool,
        /// The format of the report.
        format: OutputFormat,
        /// The file to write to, if any.
        output: Option<String>,
    },
    /// The security.
    Security {
        /// The least severity to report: `info`, `warning` or `critical`.
        level: String,
        /// Show how to fix what is found.
        fix: bool,
        /// The format of the report.
        format: OutputFormat,
        /// The file to write to, if any.
        output: Option<String>,
    },
}

/// The options of `analyze`.
#[derive(Debug)]
pub struct AnalyzeArgs {
    /// What to look at.
    pub target: AnalyzeTarget,
}

/// The commands.
#[derive(Debug)]
pub enum Commands {
    /// Parse a configuration and show it.
    Parse(ParseArgs),
    /// List what a configuration declares.
    Extract(ExtractArgs),
    /// Analyse a configuration.
    Analyze(AnalyzeArgs),
    /// Export a configuration.
    Export(ExportArgs),
    /// Diagnose the installation.
    Doctor(DoctorArgs),
    /// Ask what to do, step by step.
    Interactive,
}

/// The command line: the options that every command takes, and a command.
#[derive(Debug)]
pub struct Cli {
    /// The options that every command takes.
    pub global: GlobalOpts,
    /// The command.
    pub command: Commands,
}

/// The shells that completions are written for.
#[derive(Debug, Clone, Copy, PartialEq, Eq, Structural)]
pub enum CompletionShell {
    Bash,
    Zsh,
    Fish,
    PowerShell,
    Elvish,
}

/// The options of the generation of completions.
#[derive(Debug)]
pub struct CompletionsArgs {
    /// The shell.
    pub shell: CompletionShell,
    /// The file to write to, if any.
    pub output: Option<String>,
}

impl CompletionShell {
    /// The shell that the path of a login shell names: `bash`, `zsh` or
    /// `fish`, in that order of preference, and `bash` for anything else.
    pub open spec fn named_in(shell: Option<Seq<char>>) -> CompletionShell {
        match shell {
            None => CompletionShell::Bash,
            Some(s) => if occurs_in("bash"@, s) {
                CompletionShell::Bash
            } else if occurs_in("zsh"@, s) {
                CompletionShell::Zsh
            } else if occurs_in("fish"@, s) {
                CompletionShell::Fish
            } else {
                CompletionShell::Bash
            },
        }
    }

    /// The shell that the path of the login shell names, if there is one.
    pub fn detect(shell: Option<&str>) -> (r: CompletionShell)
        ensures
            r == CompletionShell::named_in(
                match shell {
                    Some(s) => Some(s@),
                    None => None,
                },
            ),
    {
        match shell {
            None => CompletionShell::Bash,
            Some(s) => {
                if contains_text(s, "bash") {
                    CompletionShell::Bash
                } else if contains_text(s, "zsh") {
                    CompletionShell::Zsh
                } else if contains_text(s, "fish") {
                    CompletionShell::Fish
                } else {
                    CompletionShell::Bash
                }
            },
        }
    }

    /// Where under the home directory the completions of the shell go.
    pub open spec fn file_text(self) -> Seq<char> {
        match self {
            CompletionShell::Bash => ".local/share/bash-completion/completions/nginx-discover"@,
            CompletionShell::Zsh => ".zsh/completions/_nginx-discover"@,
            CompletionShell::Fish => ".config/fish/completions/nginx-discover.fish"@,
            CompletionShell::PowerShell =>
                "Documents/PowerShell/Scripts/nginx-discover-completion.ps1"@,
            CompletionShell::Elvish => ".elvish/lib/nginx-discover.elv"@,
        }
    }

    /// Where under the home directory the completions of the shell go.
    pub fn completion_file(&self) -> (r: &'static str)
        ensures
            r@ == self.file_text(),
    {
        match self {
            CompletionShell::Bash => ".local/share/bash-completion/completions/nginx-discover",
            CompletionShell::Zsh => ".zsh/completions/_nginx-discover",
            CompletionShell::Fish => ".config/fish/completions/nginx-discover.fish",
            CompletionShell::PowerShell =>
                "Documents/PowerShell/Scripts/nginx-discover-completion.ps1",
            CompletionShell::Elvish => ".elvish/lib/nginx-discover.elv",
        }
    }
}

/// The lines that say how to install the completions of a shell that were
/// written to the file at `path`.
pub open spec fn installation_lines(shell: CompletionShell, path: Seq<char>) -> Seq<Seq<char>> {
    seq![Seq::empty(), "Installation instructions:"@, Seq::empty()] + (match shell {
        CompletionShell::Bash => seq![
            "  For system-wide installation:"@,
            "    sudo cp "@ + path + " /etc/bash_completion.d/"@,
            Seq::empty(),
            "  For user installation:"@,
            "    mkdir -p ~/.local/share/bash-completion/completions"@,
            "    cp "@ + path + " ~/.local/share/bash-completion/completions/nginx-discover"@,
            Seq::empty(),
            "  Or source it in your ~/.bashrc:"@,
            "    echo 'source "@ + path + "' >> ~/.bashrc"@,
        ],
        CompletionShell::Zsh => seq![
            "  For system-wide installation:"@,
            "    sudo cp "@ + path + " /usr/share/zsh/site-functions/_nginx-discover"@,
            Seq::empty(),
            "  For user installation:"@,
            "    mkdir -p ~/.zsh/completions"@,
            "    cp "@ + path + " ~/.zsh/completions/_nginx-discover"@,
            "    echo 'fpath=(~/.zsh/completions $fpath)' >> ~/.zshrc"@,
            "    echo 'autoload -Uz compinit && compinit' >> ~/.zshrc"@,
        ],
        CompletionShell::Fish => seq![
            "  For system-wide installation:"@,
            "    sudo cp "@ + path + " /usr/share/fish/vendor_completions.d/nginx-discover.fish"@,
            Seq::empty(),
            "  For user installation:"@,
            "    mkdir -p ~/.config/fish/completions"@,
            "    cp "@ + path + " ~/.config/fish/completions/nginx-discover.fish"@,
        ],
        CompletionShell::PowerShell => seq![
            "  Add to your PowerShell profile:"@,
            "    . "@ + path,
            Seq::empty(),
            "  To find your profile location:"@,
            "    echo $PROFILE"@,
        ],
        CompletionShell::Elvish => seq![
            "  Add to your Elvish rc.elv:"@,
            "    eval (cat "@ + path + ")"@,
        ],
    }) + seq![
        Seq::empty(),
        "After installation, restart your shell or source your shell configuration file."@,
    ]
}

fn around(before: &str, path: &str, after: &str) -> (r: String)
    ensures
        r@ == before@ + path@ + after@,
{
    let mut out = String::from_str(before);
    out.append(path);
    out.append(after);
    out
}

fn plain(line: &str) -> (r: String)
    ensures
        r@ == line@,
{
    line.to_owned()
}

fn blank() -> (r: String)
    ensures
        r@ == Seq::<char>::empty(),
{
    String::new()
}

/// The lines that say how to install the completions of a shell that were
/// written to the file at `path`.
pub fn installation_instructions(shell: CompletionShell, path: &str) -> (r: Vec<String>)
    ensures
        crate::ast::directive::strings_view(r@) == installation_lines(shell, path@),
{
    let mut out: Vec<String> = Vec::new();
    out.push(blank());
    out.push(plain("Installation instructions:"));
    out.push(blank());
    match shell {
        CompletionShell::Bash => {
            out.push(plain("  For system-wide installation:"));
            out.push(around("    sudo cp ", path, " /etc/bash_completion.d/"));
            out.push(blank());
            out.push(plain("  For user installation:"));
            out.push(plain("    mkdir -p ~/.local/share/bash-completion/completions"));
            out.push(
                around(
                    "    cp ",
                    path,
                    " ~/.local/share/bash-completion/completions/nginx-discover",
                ),
            );
            out.push(blank());
            out.push(plain("  Or source it in your ~/.bashrc:"));
            out.push(around("    echo 'source ", path, "' >> ~/.bashrc"));
        },
        CompletionShell::Zsh => {
            out.push(plain("  For system-wide installation:"));
            out.push(
                around("    sudo cp ", path, " /usr/share/zsh/site-functions/_nginx-discover"),
            );
            out.push(blank());
            out.push(plain("  For user installation:"));
            out.push(plain("    mkdir -p ~/.zsh/completions"));
            out.push(around("    cp ", path, " ~/.zsh/completions/_nginx-discover"));
            out.push(plain("    echo 'fpath=(~/.zsh/completions $fpath)' >> ~/.zshrc"));
            out.push(plain("    echo 'autoload -Uz compinit && compinit' >> ~/.zshrc"));
        },
        CompletionShell::Fish => {
            out.push(plain("  For system-wide installation:"));
            out.push(
                around(
                    "    sudo cp ",
                    path,
                    " /usr/share/fish/vendor_completions.d/nginx-discover.fish",
                ),
            );
            out.push(blank());
            out.push(plain("  For user installation:"));
            out.push(plain("    mkdir -p ~/.config/fish/completions"));
            out.push(around("    cp ", path, " ~/.config/fish/completions/nginx-discover.fish"));
        },
        CompletionShell::PowerShell => {
            out.push(plain("  Add to your PowerShell profile:"));
            out.push(around("    . ", path, ""));
            out.push(blank());
            out.push(plain("  To find your profile location:"));
            out.push(plain("    echo $PROFILE"));
        },
        CompletionShell::Elvish => {
            out.push(plain("  Add to your Elvish rc.elv:"));
            out.push(around("    eval (cat ", path, ")"));
        },
    }
    out.push(blank());
    out.push(
        plain("After installation, restart your shell or source your shell configuration file."),
    );
    proof {
        reveal_strlit("");
        assert("    . "@ + path@ + ""@ =~= "    . "@ + path@);
        assert(crate::ast::directive::strings_view(out@) =~= installation_lines(shell, path@));
    }
    out
}

} // verus!
