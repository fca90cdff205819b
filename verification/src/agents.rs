//! The coding agents that can resolve conflicts and describe work: which
//! one the user chose, which are installed, and how each is invoked.
use crate::external::{chars_of, string_of};
use crate::git::worktree::opt_view;
use crate::text::{push_str, same_text, trim, trim_chars};
use vstd::prelude::*;

verus! {

/// A coding agent that the app knows how to run.
#[derive(Clone, Copy, Debug, PartialEq, Eq, Structural)]
pub enum AgentKind {
    Amp,
    Codex,
}

/// The user's agent settings.
#[derive(Clone, Copy, Debug, PartialEq, Eq, Structural)]
pub struct AgentSettings {
    pub preferred_agent: Option<AgentKind>,
}

impl AgentSettings {
    /// No agent chosen.
    pub fn new() -> (r: Self)
        ensures
            r.preferred_agent is None,
    {
        AgentSettings { preferred_agent: None }
    }
}

/// The preferred agent as stored: `amp` and `codex` name the built-in
/// agents; anything else (such as an agent of an earlier version that is no
/// longer offered) or nothing means no choice.
pub open spec fn spec_preferred_agent(value: Option<Seq<char>>) -> Option<AgentKind> {
    match value {
        Some(v) => if v == "amp"@ {
            Some(AgentKind::Amp)
        } else if v == "codex"@ {
            Some(AgentKind::Codex)
        } else {
            None
        },
        None => None,
    }
}

/// The preferred agent as stored.
pub fn preferred_agent_from(value: Option<String>) -> (r: Option<AgentKind>)
    ensures
        r == spec_preferred_agent(opt_view(value)),
{
    match value {
        Some(v) => if same_text(v.as_str(), "amp") {
            Some(AgentKind::Amp)
        } else if same_text(v.as_str(), "codex") {
            Some(AgentKind::Codex)
        } else {
            None
        },
        None => None,
    }
}

/// The name an agent is stored under.
pub open spec fn spec_stored_name(kind: AgentKind) -> Seq<char> {
    match kind {
        AgentKind::Amp => "amp"@,
        AgentKind::Codex => "codex"@,
    }
}

/// An agent stored under its name is read back as the same agent.
pub proof fn law_stored_agent_reads_back(kind: AgentKind)
    ensures
        spec_preferred_agent(Some(spec_stored_name(kind))) == Some(kind),
{
    reveal_strlit("amp");
    reveal_strlit("codex");
    assert("amp"@ != "codex"@) by {
        assert("amp"@[0] != "codex"@[0]);
    }
}

/// The name an agent is stored under.
pub fn stored_name(kind: AgentKind) -> (r: &'static str)
    ensures
        r@ == spec_stored_name(kind),
{
    match kind {
        AgentKind::Amp => "amp",
        AgentKind::Codex => "codex",
    }
}

/// The name an agent is shown under.
pub open spec fn spec_label(kind: AgentKind) -> Seq<char> {
    match kind {
        AgentKind::Amp => "Amp"@,
        AgentKind::Codex => "Codex"@,
    }
}

/// The name an agent is shown under.
pub fn label(kind: AgentKind) -> (r: &'static str)
    ensures
        r@ == spec_label(kind),
{
    match kind {
        AgentKind::Amp => "Amp",
        AgentKind::Codex => "Codex",
    }
}

/// The command an agent's executable is looked up by.
pub fn executable_name(kind: AgentKind) -> (r: &'static str)
    ensures
        r@ == match kind {
            AgentKind::Amp => "amp"@,
            AgentKind::Codex => "codex"@,
        },
{
    match kind {
        AgentKind::Amp => "amp",
        AgentKind::Codex => "codex",
    }
}

/// A built-in agent with the executable found for it.
#[derive(Debug)]
pub struct BuiltInAdapter {
    pub kind: AgentKind,
    pub path: String,
}

pub open spec fn strings_view(v: Seq<String>) -> Seq<Seq<char>> {
    v.map_values(|s: String| s@)
}

fn strings(parts: &[&str]) -> (r: Vec<String>)
    ensures
        r.len() == parts.len(),
        forall|i: int| 0 <= i < parts.len() ==> (#[trigger] r@[i])@ == parts@[i]@,
{
    let mut r: Vec<String> = Vec::new();
    let mut i: usize = 0;
    while i < parts.len()
        invariant
            i <= parts.len(),
            r.len() == i,
            forall|k: int| 0 <= k < i ==> (#[trigger] r@[k])@ == parts@[k]@,
        decreases parts.len() - i,
    {
        r.push(parts[i].to_string());
        i = i + 1;
    }
    r
}

/// The arguments an agent is run with to describe work, read-only: Amp
/// without editor or notifications, executing the prompt it reads; Codex
/// executing an ephemeral session in a read-only sandbox that never asks
/// for approval, reading the prompt from standard input.
pub open spec fn spec_metadata_args(kind: AgentKind) -> Seq<Seq<char>> {
    match kind {
        AgentKind::Amp => seq!["--no-ide"@, "--no-notifications"@, "-x"@],
        AgentKind::Codex => seq!["exec"@, "--ephemeral"@, "-s"@, "read-only"@, "-a"@, "never"@, "-"@],
    }
}

/// The arguments an agent is run with to resolve a conflict: as for
/// describing work, but Codex may write to its workspace.
pub open spec fn spec_conflict_args(kind: AgentKind) -> Seq<Seq<char>> {
    match kind {
        AgentKind::Amp => seq!["--no-ide"@, "--no-notifications"@, "-x"@],
        AgentKind::Codex => seq!["exec"@, "--ephemeral"@, "-s"@, "workspace-write"@, "-a"@, "never"@, "-"@],
    }
}

impl BuiltInAdapter {
    /// The agent's name.
    pub fn label(&self) -> (r: &'static str)
        ensures
            r@ == spec_label(self.kind),
    {
        label(self.kind)
    }

    /// The agent's executable.
    pub fn executable(&self) -> (r: &str)
        ensures
            r@ == self.path@,
    {
        self.path.as_str()
    }

    /// The arguments to describe work with.
    pub fn metadata_args(&self) -> (r: Vec<String>)
        ensures
            strings_view(r@) == spec_metadata_args(self.kind),
    {
        let r = match self.kind {
            AgentKind::Amp => strings(&["--no-ide", "--no-notifications", "-x"]),
            AgentKind::Codex => strings(&["exec", "--ephemeral", "-s", "read-only", "-a", "never", "-"]),
        };
        assert(strings_view(r@) =~= spec_metadata_args(self.kind));
        r
    }

    /// The arguments to resolve a conflict with.
    pub fn conflict_args(&self) -> (r: Vec<String>)
        ensures
            strings_view(r@) == spec_conflict_args(self.kind),
    {
        let r = match self.kind {
            AgentKind::Amp => strings(&["--no-ide", "--no-notifications", "-x"]),
            AgentKind::Codex => strings(&["exec", "--ephemeral", "-s", "workspace-write", "-a", "never", "-"]),
        };
        assert(strings_view(r@) =~= spec_conflict_args(self.kind));
        r
    }
}

/// A built-in agent, once its executable is found; an error naming the agent
/// when it is not installed.
pub fn built_in(kind: AgentKind, executable: Option<String>) -> (r: Result<BuiltInAdapter, String>)
    ensures
        match executable {
            Some(p) => r matches Ok(a) && a.kind == kind && a.path@ == p@,
            None => r matches Err(e) && e@ == spec_label(kind) + " is not installed"@,
        },
{
    match executable {
        Some(path) => Ok(BuiltInAdapter { kind, path }),
        None => {
            let mut v = chars_of(label(kind));
            push_str(&mut v, " is not installed");
            Err(string_of(&v))
        },
    }
}

/// The agent to run: the preferred one, with its executable (looked up by
/// `executable_name`); an error when none is chosen or it is not installed.
pub fn selected(settings: &AgentSettings, executable: Option<String>) -> (r: Result<BuiltInAdapter, String>)
    ensures
        settings.preferred_agent is None ==> (r matches Err(e) && e@ == "Choose a coding agent in Shipyard Settings before shipping"@),
        settings.preferred_agent matches Some(kind) ==> match executable {
            Some(p) => r matches Ok(a) && a.kind == kind && a.path@ == p@,
            None => r matches Err(e) && e@ == spec_label(kind) + " is not installed"@,
        },
{
    match settings.preferred_agent {
        Some(kind) => built_in(kind, executable),
        None => Err(String::from_str("Choose a coding agent in Shipyard Settings before shipping")),
    }
}

/// What is known of an installed or missing agent.
#[derive(Debug)]
pub struct AgentInfo {
    pub kind: AgentKind,
    pub label: String,
    pub available: bool,
    pub executable: Option<String>,
    pub version: Option<String>,
}

/// What is known of an agent: available when its executable was found; its
/// version is what `--version` printed, trimmed, when it ran and succeeded.
pub fn detected(kind: AgentKind, executable: Option<String>, version_output: Option<String>) -> (r: AgentInfo)
    ensures
        r.kind == kind,
        r.label@ == spec_label(kind),
        r.available == executable is Some,
        opt_view(r.executable) == opt_view(executable),
        opt_view(r.version) == match (executable, version_output) {
            (Some(_), Some(v)) => Some(trim(v@)),
            _ => None,
        },
{
    let version = match (&executable, version_output) {
        (Some(_), Some(v)) => Some(string_of(&trim_chars(&chars_of(v.as_str())))),
        _ => None,
    };
    AgentInfo { kind, label: label(kind).to_string(), available: executable.is_some(), executable, version }
}

/// The agent settings and what is known of each built-in agent.
#[derive(Debug)]
pub struct AgentConfiguration {
    pub settings: AgentSettings,
    pub agents: Vec<AgentInfo>,
}

/// The agent configuration shown in settings: the settings, then Amp and
/// Codex, in that order.
pub fn configuration(settings: AgentSettings, amp: AgentInfo, codex: AgentInfo) -> (r: AgentConfiguration)
    requires
        amp.kind == AgentKind::Amp,
        codex.kind == AgentKind::Codex,
    ensures
        r.settings == settings,
        r.agents.len() == 2,
        r.agents@[0] == amp,
        r.agents@[1] == codex,
{
    let mut agents: Vec<AgentInfo> = Vec::new();
    agents.push(amp);
    agents.push(codex);
    AgentConfiguration { settings, agents }
}

/// Where the agent settings are kept: `<app data>/agents/settings.json`.
pub fn settings_path(base: &str) -> (r: String)
    ensures
        r@ == crate::git::checkout::join_path(crate::git::checkout::join_path(base@, "agents"@), "settings.json"@),
{
    let mut v = chars_of(base);
    if v.len() > 0 && v[v.len() - 1] != '/' {
        v.push('/');
    }
    push_str(&mut v, "agents");
    let ghost first = v@;
    assert(first =~= crate::git::checkout::join_path(base@, "agents"@));
    v.push('/');
    push_str(&mut v, "settings.json");
    proof {
        reveal_strlit("agents");
    }
    assert(v@ =~= crate::git::checkout::join_path(first, "settings.json"@));
    string_of(&v)
}

} // verus!
