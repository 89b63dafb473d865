//! The commands that the user types, and those that show or change a setting.

use crate::budget::{self, Report};
use crate::config::{self, find_color, remove_color, DirColor, ModelTiers, SandboxMode};
use crate::dup::{copy_texts, dup_opt};
use crate::engine::{self, Engine, EngineView};
use crate::help::{self, help_text};
use crate::number::{self, parse_usize, show, show_hex};
use crate::outbox::{self, Effect, EffectView, Outbox};
use crate::settings::{self, parse_positive};
use crate::shown::{self, quote};
use crate::split::{self, join, split_words};
use crate::text::{
    self, cat2, cat3, cat4, cat5, cat6, cat7, chars_of, empty, find, same, string_of, take_until,
    trim, CharClass,
};
use crate::ui::{AstMode, Named, NamedView, UiUpdate, UiUpdateView};
use vstd::prelude::*;
use vstd::slice::slice_subrange;

verus! {

broadcast use {split::lemma_texts_push, split::lemma_views_push};

// ── Reading a command ───────────────────────────────────────────────────────

/// A command as it was typed: its name in lower case, its words, and
/// everything behind the name.
pub struct Command {
    pub name: String,
    pub args: Vec<String>,
    pub rest: String,
}

/// The model of a command.
#[verifier::ext_equal]
pub struct CommandView {
    pub name: Seq<char>,
    pub args: Seq<Seq<char>>,
    pub rest: Seq<char>,
}

impl View for Command {
    type V = CommandView;

    open spec fn view(&self) -> CommandView {
        CommandView {
            name: self.name@,
            args: split::texts(self.args@),
            rest: self.rest@,
        }
    }
}

/// What follows the first space of a text; empty if there is none.
pub open spec fn behind_name(s: Seq<char>) -> Seq<char> {
    let i = text::find_first(s, text::among(" "@));
    if i < s.len() {
        s.skip(i + 1)
    } else {
        Seq::empty()
    }
}

/// The command that a line holds.
pub open spec fn command_in(raw: Seq<char>) -> CommandView {
    let t = text::trimmed(raw);
    CommandView {
        name: text::lowercase(text::until(t, text::among(" "@))),
        args: split::words(behind_name(t)),
        rest: text::trimmed(behind_name(t)),
    }
}

/// Reads a command.
pub fn parse_command(raw: &str) -> (r: Command)
    ensures
        r@ == command_in(raw@),
{
    let v = chars_of(raw);
    let t = trim(v.as_slice());
    let head = string_of(take_until(t, CharClass::In(" ")));
    let i = find(t, CharClass::In(" "));
    let tail = if i < t.len() {
        assert(t@.subrange(i + 1, t@.len() as int) =~= t@.skip(i + 1));
        slice_subrange(t, i + 1, t.len())
    } else {
        assert(t@.subrange(0, 0) =~= Seq::<char>::empty());
        slice_subrange(t, 0, 0)
    };
    let all = string_of(tail);
    Command {
        name: head.as_str().to_lowercase(),
        args: split_words(all.as_str()),
        rest: string_of(trim(tail)),
    }
}

/// Which command a name stands for.
#[derive(Clone, Copy, Debug, PartialEq, Eq, Structural)]
pub enum Kind {
    Help,
    Clear,
    Compact,
    Provider,
    Model,
    Key,
    Endpoint,
    System,
    Tokens,
    Budget,
    Providers,
    Models,
    Attach,
    Detach,
    Exec,
    Allow,
    Sandbox,
    Permissions,
    Verify,
    Ast,
    CleanEnv,
    Thinking,
    Checkpoints,
    Undo,
    Color,
    Theme,
    UserCommands,
    Tools,
    Mcp,
    Index,
    Search,
    Revert,
    Resume,
    History,
    Cat,
    View,
    Edit,
    DiffMode,
    Ls,
    Cd,
    Pwd,
    Skill,
    Tiers,
    Subagents,
    Config,
    Preflight,
    Export,
    /// One of the user's own, or none at all.
    Other,
}

/// The command that a name stands for.
pub open spec fn kind_named(name: Seq<char>) -> Kind {
    if name == "/help"@ {
        Kind::Help
    } else if name == "/clear"@ {
        Kind::Clear
    } else if name == "/compact"@ {
        Kind::Compact
    } else if name == "/provider"@ || name == "/p"@ {
        Kind::Provider
    } else if name == "/model"@ || name == "/m"@ {
        Kind::Model
    } else if name == "/key"@ {
        Kind::Key
    } else if name == "/endpoint"@ {
        Kind::Endpoint
    } else if name == "/system"@ || name == "/sys"@ {
        Kind::System
    } else if name == "/tokens"@ {
        Kind::Tokens
    } else if name == "/budget"@ {
        Kind::Budget
    } else if name == "/providers"@ {
        Kind::Providers
    } else if name == "/models"@ {
        Kind::Models
    } else if name == "/attach"@ || name == "/a"@ {
        Kind::Attach
    } else if name == "/detach"@ {
        Kind::Detach
    } else if name == "/exec"@ {
        Kind::Exec
    } else if name == "/allow"@ {
        Kind::Allow
    } else if name == "/sandbox"@ {
        Kind::Sandbox
    } else if name == "/permissions"@ {
        Kind::Permissions
    } else if name == "/verify"@ {
        Kind::Verify
    } else if name == "/ast"@ {
        Kind::Ast
    } else if name == "/clean-env"@ {
        Kind::CleanEnv
    } else if name == "/thinking"@ {
        Kind::Thinking
    } else if name == "/checkpoints"@ {
        Kind::Checkpoints
    } else if name == "/undo"@ {
        Kind::Undo
    } else if name == "/color"@ {
        Kind::Color
    } else if name == "/theme"@ {
        Kind::Theme
    } else if name == "/command"@ || name == "/commands"@ {
        Kind::UserCommands
    } else if name == "/tool"@ || name == "/tools"@ {
        Kind::Tools
    } else if name == "/mcp"@ || name == "/mcps"@ {
        Kind::Mcp
    } else if name == "/index"@ {
        Kind::Index
    } else if name == "/search"@ {
        Kind::Search
    } else if name == "/revert"@ {
        Kind::Revert
    } else if name == "/resume"@ {
        Kind::Resume
    } else if name == "/history"@ {
        Kind::History
    } else if name == "/cat"@ {
        Kind::Cat
    } else if name == "/view"@ || name == "/open"@ {
        Kind::View
    } else if name == "/edit"@ {
        Kind::Edit
    } else if name == "/diff-mode"@ {
        Kind::DiffMode
    } else if name == "/ls"@ {
        Kind::Ls
    } else if name == "/cd"@ {
        Kind::Cd
    } else if name == "/pwd"@ {
        Kind::Pwd
    } else if name == "/skill"@ || name == "/skills"@ {
        Kind::Skill
    } else if name == "/tiers"@ {
        Kind::Tiers
    } else if name == "/subagents"@ {
        Kind::Subagents
    } else if name == "/config"@ || name == "/settings"@ {
        Kind::Config
    } else if name == "/preflight"@ {
        Kind::Preflight
    } else if name == "/export"@ {
        Kind::Export
    } else {
        Kind::Other
    }
}

/// The command that a name stands for.
pub fn kind_of(name: &str) -> (r: Kind)
    ensures
        r == kind_named(name@),
{
    if same(name, "/help") {
        Kind::Help
    } else if same(name, "/clear") {
        Kind::Clear
    } else if same(name, "/compact") {
        Kind::Compact
    } else if same(name, "/provider") || same(name, "/p") {
        Kind::Provider
    } else if same(name, "/model") || same(name, "/m") {
        Kind::Model
    } else if same(name, "/key") {
        Kind::Key
    } else if same(name, "/endpoint") {
        Kind::Endpoint
    } else if same(name, "/system") || same(name, "/sys") {
        Kind::System
    } else if same(name, "/tokens") {
        Kind::Tokens
    } else if same(name, "/budget") {
        Kind::Budget
    } else if same(name, "/providers") {
        Kind::Providers
    } else if same(name, "/models") {
        Kind::Models
    } else if same(name, "/attach") || same(name, "/a") {
        Kind::Attach
    } else if same(name, "/detach") {
        Kind::Detach
    } else if same(name, "/exec") {
        Kind::Exec
    } else if same(name, "/allow") {
        Kind::Allow
    } else if same(name, "/sandbox") {
        Kind::Sandbox
    } else if same(name, "/permissions") {
        Kind::Permissions
    } else if same(name, "/verify") {
        Kind::Verify
    } else if same(name, "/ast") {
        Kind::Ast
    } else if same(name, "/clean-env") {
        Kind::CleanEnv
    } else if same(name, "/thinking") {
        Kind::Thinking
    } else if same(name, "/checkpoints") {
        Kind::Checkpoints
    } else if same(name, "/undo") {
        Kind::Undo
    } else if same(name, "/color") {
        Kind::Color
    } else if same(name, "/theme") {
        Kind::Theme
    } else if same(name, "/command") || same(name, "/commands") {
        Kind::UserCommands
    } else if same(name, "/tool") || same(name, "/tools") {
        Kind::Tools
    } else if same(name, "/mcp") || same(name, "/mcps") {
        Kind::Mcp
    } else if same(name, "/index") {
        Kind::Index
    } else if same(name, "/search") {
        Kind::Search
    } else if same(name, "/revert") {
        Kind::Revert
    } else if same(name, "/resume") {
        Kind::Resume
    } else if same(name, "/history") {
        Kind::History
    } else if same(name, "/cat") {
        Kind::Cat
    } else if same(name, "/view") || same(name, "/open") {
        Kind::View
    } else if same(name, "/edit") {
        Kind::Edit
    } else if same(name, "/diff-mode") {
        Kind::DiffMode
    } else if same(name, "/ls") {
        Kind::Ls
    } else if same(name, "/cd") {
        Kind::Cd
    } else if same(name, "/pwd") {
        Kind::Pwd
    } else if same(name, "/skill") || same(name, "/skills") {
        Kind::Skill
    } else if same(name, "/tiers") {
        Kind::Tiers
    } else if same(name, "/subagents") {
        Kind::Subagents
    } else if same(name, "/config") || same(name, "/settings") {
        Kind::Config
    } else if same(name, "/preflight") {
        Kind::Preflight
    } else if same(name, "/export") {
        Kind::Export
    } else {
        Kind::Other
    }
}

/// The word at `i` of a command, if it has so many.
pub open spec fn word(c: CommandView, i: int) -> Option<Seq<char>> {
    if i < c.args.len() {
        Some(c.args[i])
    } else {
        None
    }
}

impl Command {
    /// The word at `i`, if there are so many.
    pub fn word(&self, i: usize) -> (r: Option<&str>)
        ensures
            match r {
                Some(s) => word(self@, i as int) == Some(s@),
                None => word(self@, i as int) is None,
            },
    {
        assert(split::texts(self.args@).len() == self.args@.len());
        if i < self.args.len() {
            assert(split::texts(self.args@)[i as int] == self.args@[i as int]@);
            Some(self.args[i].as_str())
        } else {
            None
        }
    }
}

/// The settings are saved, and the user is told something.
pub open spec fn saved(s: Seq<EffectView>, t: Seq<char>) -> Seq<EffectView> {
    s.push(EffectView::SaveConfig).push(outbox::says(t))
}

fn save_and_say(out: &mut Outbox, t: &str)
    ensures
        final(out)@ == saved(old(out)@, t@),
{
    out.add(Effect::SaveConfig);
    out.say(t);
}

/// "on" or "off".
pub open spec fn on_off(b: bool) -> Seq<char> {
    if b {
        "on"@
    } else {
        "off"@
    }
}

fn show_on_off(b: bool) -> (r: &'static str)
    ensures
        r@ == on_off(b),
{
    if b {
        "on"
    } else {
        "off"
    }
}

// ── Switches ────────────────────────────────────────────────────────────────

/// What a switch with the words `on` and `off` is set to.
pub open spec fn switched(c: CommandView, on: Seq<char>, off: Seq<char>) -> Option<bool> {
    match word(c, 0) {
        Some(w) => if w == on {
            Some(true)
        } else if w == off {
            Some(false)
        } else {
            None
        },
        None => None,
    }
}

fn read_switch(c: &Command, on: &str, off: &str) -> (r: Option<bool>)
    ensures
        r == switched(c@, on@, off@),
{
    match c.word(0) {
        Some(w) => if same(w, on) {
            Some(true)
        } else if same(w, off) {
            Some(false)
        } else {
            None
        },
        None => None,
    }
}

impl Engine {
    /// /permissions
    pub fn cmd_permissions(&mut self, c: &Command, out: &mut Outbox)
        ensures
            match switched(c@, "skip"@, "require"@) {
                Some(b) => final(self)@ == (EngineView {
                    cfg: config::ConfigView { skip_permissions: b, ..old(self)@.cfg },
                    ..old(self)@
                }) && final(out)@ == saved(
                    old(out)@,
                    if b {
                        "Permissions skipped — all operations proceed without checks."@
                    } else {
                        "Permissions required — file and command checks enabled."@
                    },
                ),
                None => final(self)@ == old(self)@ && final(out)@ == old(out)@.push(
                    outbox::says(
                        "Permissions: "@ + (if old(self)@.cfg.skip_permissions {
                            "skip"@
                        } else {
                            "require"@
                        }) + "  (use /permissions skip|require)"@,
                    ),
                ),
            },
            final(self)@ == after_permissions(old(self)@, c@),
    {
        match read_switch(c, "skip", "require") {
            Some(b) => {
                self.cfg.skip_permissions = b;
                save_and_say(
                    out,
                    if b {
                        "Permissions skipped — all operations proceed without checks."
                    } else {
                        "Permissions required — file and command checks enabled."
                    },
                );
            },
            None => {
                let state = if self.cfg.skip_permissions {
                    "skip"
                } else {
                    "require"
                };
                out.sys(cat3("Permissions: ", state, "  (use /permissions skip|require)"));
            },
        }
    }

    /// /clean-env
    pub fn cmd_clean_env(&mut self, c: &Command, out: &mut Outbox)
        ensures
            match switched(c@, "on"@, "off"@) {
                Some(b) => final(self)@ == (EngineView {
                    cfg: config::ConfigView { clean_env: b, ..old(self)@.cfg },
                    ..old(self)@
                }) && final(out)@ == saved(
                    old(out)@,
                    if b {
                        "Clean-env sandboxing ON — subprocesses get a stripped environment."@
                    } else {
                        "Clean-env sandboxing OFF."@
                    },
                ),
                None => final(self)@ == old(self)@ && final(out)@ == old(out)@.push(
                    outbox::says(
                        "Clean-env: "@ + on_off(old(self)@.cfg.clean_env)
                            + "  (use /clean-env on|off)"@,
                    ),
                ),
            },
            final(self)@ == after_clean_env(old(self)@, c@),
    {
        match read_switch(c, "on", "off") {
            Some(b) => {
                self.cfg.clean_env = b;
                save_and_say(
                    out,
                    if b {
                        "Clean-env sandboxing ON — subprocesses get a stripped environment."
                    } else {
                        "Clean-env sandboxing OFF."
                    },
                );
            },
            None => out.sys(
                cat3("Clean-env: ", show_on_off(self.cfg.clean_env), "  (use /clean-env on|off)"),
            ),
        }
    }

    /// /thinking; `brand` is the maker named first among those whose models can.
    pub fn cmd_thinking(&mut self, c: &Command, brand: &str, out: &mut Outbox)
        ensures
            match switched(c@, "on"@, "off"@) {
                Some(b) => final(self)@ == (EngineView {
                    cfg: config::ConfigView { thinking: b, ..old(self)@.cfg },
                    ..old(self)@
                }) && final(out)@ == saved(
                    old(out)@,
                    if b {
                        "Extended thinking ON — the model will reason before answering ("@ + brand@
                            + " extended thinking / OpenAI reasoning models)."@
                    } else {
                        "Extended thinking OFF."@
                    },
                ),
                None => final(self)@ == old(self)@ && final(out)@ == old(out)@.push(
                    outbox::says(
                        "Extended thinking: "@ + on_off(old(self)@.cfg.thinking)
                            + "  (use /thinking on|off)"@,
                    ),
                ),
            },
            final(self)@ == after_thinking(old(self)@, c@),
    {
        match read_switch(c, "on", "off") {
            Some(b) => {
                self.cfg.thinking = b;
                let said = if b {
                    cat3(
                        "Extended thinking ON — the model will reason before answering (",
                        brand,
                        " extended thinking / OpenAI reasoning models).",
                    )
                } else {
                    "Extended thinking OFF.".to_string()
                };
                save_and_say(out, said.as_str());
            },
            None => out.sys(
                cat3(
                    "Extended thinking: ",
                    show_on_off(self.cfg.thinking),
                    "  (use /thinking on|off)",
                ),
            ),
        }
    }

    /// /subagents
    pub fn cmd_subagents(&mut self, c: &Command, out: &mut Outbox)
        ensures
            match switched(c@, "on"@, "off"@) {
                Some(b) => final(self)@ == (EngineView {
                    cfg: config::ConfigView { skill_subagents: b, ..old(self)@.cfg },
                    ..old(self)@
                }) && final(out)@ == saved(
                    old(out)@,
                    if b {
                        "Skill subagents ON — running a skill delegates to a nested agent loop."@
                    } else {
                        "Skill subagents OFF — skills run inline again (old direct-execution behavior)."@
                    },
                ),
                None => final(self)@ == old(self)@ && final(out)@ == old(out)@.push(
                    outbox::says(
                        "Skill subagents: "@ + on_off(old(self)@.cfg.skill_subagents)
                            + "  (use /subagents on|off)"@,
                    ),
                ),
            },
            final(self)@ == after_subagents(old(self)@, c@),
    {
        match read_switch(c, "on", "off") {
            Some(b) => {
                self.cfg.skill_subagents = b;
                save_and_say(
                    out,
                    if b {
                        "Skill subagents ON — running a skill delegates to a nested agent loop."
                    } else {
                        "Skill subagents OFF — skills run inline again (old direct-execution behavior)."
                    },
                );
            },
            None => out.sys(
                cat3(
                    "Skill subagents: ",
                    show_on_off(self.cfg.skill_subagents),
                    "  (use /subagents on|off)",
                ),
            ),
        }
    }

    /// /checkpoints; `git` says whether the work directory is a repository,
    /// without which there are none.
    pub fn cmd_checkpoints(&mut self, c: &Command, git: bool, out: &mut Outbox)
        ensures
            match switched(c@, "on"@, "off"@) {
                Some(true) => if git {
                    final(self)@ == (EngineView {
                        cfg: config::ConfigView { checkpoints: true, ..old(self)@.cfg },
                        ..old(self)@
                    }) && final(out)@ == saved(
                        old(out)@,
                        "Git checkpoints ON — a checkpoint commit is created before each turn; /undo rolls it back."@,
                    )
                } else {
                    final(self)@ == old(self)@ && final(out)@ == old(out)@.push(
                        outbox::warns(
                            "This directory isn't a git repository — checkpoints require git."@,
                        ),
                    )
                },
                Some(false) => final(self)@ == (EngineView {
                    cfg: config::ConfigView { checkpoints: false, ..old(self)@.cfg },
                    ..old(self)@
                }) && final(out)@ == saved(old(out)@, "Git checkpoints OFF."@),
                None => final(self)@ == old(self)@ && final(out)@ == old(out)@.push(
                    outbox::says(
                        "Checkpoints: "@ + on_off(old(self)@.cfg.checkpoints) + "  ("@ + (if git {
                            "git repo detected"@
                        } else {
                            "not a git repo"@
                        }) + ")  — use /checkpoints on|off"@,
                    ),
                ),
            },
            final(self)@ == after_checkpoints(old(self)@, c@, git),
    {
        match read_switch(c, "on", "off") {
            Some(b) => if b && !git {
                out.warn("This directory isn't a git repository — checkpoints require git.");
            } else {
                self.cfg.checkpoints = b;
                save_and_say(
                    out,
                    if b {
                        "Git checkpoints ON — a checkpoint commit is created before each turn; /undo rolls it back."
                    } else {
                        "Git checkpoints OFF."
                    },
                );
            },
            None => {
                let repo = if git {
                    "git repo detected"
                } else {
                    "not a git repo"
                };
                out.sys(
                    cat5(
                        "Checkpoints: ",
                        show_on_off(self.cfg.checkpoints),
                        "  (",
                        repo,
                        ")  — use /checkpoints on|off",
                    ),
                );
            },
        }
    }

    /// Tells the user what /undo came to.
    pub fn undone(&self, res: &Result<String, String>, out: &mut Outbox)
        ensures
            final(out)@ == old(out)@.push(
                match res {
                    Ok(m) => outbox::says("Undo complete: "@ + m@),
                    Err(e) => outbox::warns("Undo failed: "@ + e@),
                },
            ),
    {
        match res {
            Ok(m) => out.sys(cat2("Undo complete: ", m.as_str())),
            Err(e) => out.err(cat2("Undo failed: ", e.as_str())),
        }
    }
}

// ── Model tiers ─────────────────────────────────────────────────────────────

/// How the tiers stand.
pub open spec fn tiers_text(t: Option<config::ModelTiersView>) -> Seq<char> {
    match t {
        Some(t) => if t.enabled {
            let n = number::decimal(t.default_max_difficulty as nat);
            ("enabled\n  default (≤"@ + n + "): "@ + t.default.provider + " / "@
                + t.default.model + "\n  complex (>"@) + (n + "): "@ + t.complex.provider + " / "@
                + t.complex.model + "\n  rater: "@ + (t.rater.provider + " / "@ + t.rater.model))
        } else {
            "disabled"@
        },
        None => "not configured (use /tiers on to enable)"@,
    }
}

/// Tiers that are on or off.
pub open spec fn tiers_set(t: config::ModelTiersView, on: bool) -> config::ModelTiersView {
    config::ModelTiersView { enabled: on, ..t }
}

fn show_tiers(t: &Option<ModelTiers>) -> (r: String)
    ensures
        r@ == tiers_text(crate::dup::opt_view(*t)),
{
    match t {
        Some(t) => if t.enabled {
            let n = show(t.default_max_difficulty as usize);
            let a = cat7(
                "enabled\n  default (≤",
                n.as_str(),
                "): ",
                t.default.provider.as_str(),
                " / ",
                t.default.model.as_str(),
                "\n  complex (>",
            );
            let r = cat3(t.rater.provider.as_str(), " / ", t.rater.model.as_str());
            let b = cat7(
                n.as_str(),
                "): ",
                t.complex.provider.as_str(),
                " / ",
                t.complex.model.as_str(),
                "\n  rater: ",
                r.as_str(),
            );
            cat2(a.as_str(), b.as_str())
        } else {
            "disabled".to_string()
        },
        None => "not configured (use /tiers on to enable)".to_string(),
    }
}

impl Engine {
    /// /tiers; `standard` are the tiers where none are set.
    pub fn cmd_tiers(&mut self, c: &Command, standard: ModelTiers, out: &mut Outbox)
        ensures
            match switched(c@, "on"@, "off"@) {
                Some(true) => final(self)@ == (EngineView {
                    cfg: config::ConfigView {
                        model_tiers: Some(
                            tiers_set(
                                match old(self)@.cfg.model_tiers {
                                    Some(t) => t,
                                    None => standard@,
                                },
                                true,
                            ),
                        ),
                        ..old(self)@.cfg
                    },
                    ..old(self)@
                }) && final(out)@ == saved(
                    old(out)@,
                    "Model tier routing enabled. Edit ~/.marlin/config.json (model_tiers) to configure."@,
                ),
                Some(false) => final(self)@ == (EngineView {
                    cfg: config::ConfigView {
                        model_tiers: match old(self)@.cfg.model_tiers {
                            Some(t) => Some(tiers_set(t, false)),
                            None => None,
                        },
                        ..old(self)@.cfg
                    },
                    ..old(self)@
                }) && final(out)@ == saved(
                    old(out)@,
                    "Model tier routing disabled — using active_provider/active_model."@,
                ),
                None => final(self)@ == old(self)@ && final(out)@ == old(out)@.push(
                    outbox::says(
                        "Model tiers: "@ + tiers_text(old(self)@.cfg.model_tiers)
                            + "\n\nUse /tiers on|off"@,
                    ),
                ),
            },
            final(self)@ == after_tiers(old(self)@, c@, standard@),
    {
        match read_switch(c, "on", "off") {
            Some(b) => {
                let kept = dup_opt(&self.cfg.model_tiers);
                let t = match kept {
                    Some(t) => Some(t),
                    None => if b {
                        Some(standard)
                    } else {
                        None
                    },
                };
                let t = match t {
                    Some(mut t) => {
                        t.enabled = b;
                        Some(t)
                    },
                    None => None,
                };
                self.cfg.model_tiers = t;
                save_and_say(
                    out,
                    if b {
                        "Model tier routing enabled. Edit ~/.marlin/config.json (model_tiers) to configure."
                    } else {
                        "Model tier routing disabled — using active_provider/active_model."
                    },
                );
            },
            None => {
                let t = show_tiers(&self.cfg.model_tiers);
                out.sys(cat3("Model tiers: ", t.as_str(), "\n\nUse /tiers on|off"));
            },
        }
    }
}

// ── Single settings ─────────────────────────────────────────────────────────

/// What /system does without a text.
pub open spec fn system_shown(e: EngineView) -> Seq<char> {
    if e.cfg.system_prompt.len() == 0 {
        "No custom system prompt. Use /system <text> to set one."@
    } else {
        "Custom system prompt: "@ + e.cfg.system_prompt
    }
}

/// The verify command as it is shown.
pub open spec fn verify_shown(e: EngineView) -> Seq<char> {
    match e.cfg.verify_command {
        Some(cmd) => "Verify command: "@ + cmd + "  (use /verify off to clear)"@,
        None => "No verify command set.  Usage: /verify <shell-command>"@,
    }
}

/// What /tokens shows.
pub open spec fn tokens_shown(e: EngineView, r: Report) -> Seq<char> {
    "Max output tokens: "@ + number::decimal(e.cfg.max_tokens as nat)
        + "  (use /tokens <n> to change)\n\nBase prompt injection (target ~"@ + number::decimal(
        budget::WARN_THRESHOLD as nat,
    ) + "t, warning only):\n"@ + budget::report_text(split::views(r.components@), r.total as nat)
}

impl Engine {
    /// /help; `first` is the provider that is named first.
    pub fn cmd_help(&self, first: &str, out: &mut Outbox)
        ensures
            final(out)@ == old(out)@.push(outbox::says(help::help(first@))),
    {
        out.sys(help_text(first));
    }

    /// /clear: the conversation goes, and whatever is attached.
    pub fn cmd_clear(&mut self, out: &mut Outbox)
        ensures
            final(self)@ == (EngineView {
                history: Seq::empty(),
                attachments: Seq::empty(),
                image_attachments: Seq::empty(),
                ..old(self)@
            }),
            final(out)@ == old(out)@.push(outbox::says("Chat cleared."@)),
            final(self)@ == after_clear(old(self)@),
    {
        self.history = Vec::new();
        self.attachments = Vec::new();
        self.image_attachments = Vec::new();
        proof {
            assert(split::views(self.history@) =~= Seq::<crate::message::MessageView>::empty());
            assert(split::views(self.attachments@) =~= Seq::<engine::AttachmentView>::empty());
            assert(split::views(self.image_attachments@)
                =~= Seq::<engine::ImageAttachmentView>::empty());
        }
        out.say("Chat cleared.");
    }

    /// /system
    pub fn cmd_system(&mut self, c: &Command, out: &mut Outbox)
        ensures
            c@.rest.len() == 0 ==> final(self)@ == old(self)@ && final(out)@ == old(out)@.push(
                outbox::says(system_shown(old(self)@)),
            ),
            c@.rest.len() > 0 ==> final(self)@ == (EngineView {
                cfg: config::ConfigView { system_prompt: c@.rest, ..old(self)@.cfg },
                own: config::OwnSettingsView { system_prompt: c@.rest, ..old(self)@.own },
                ..old(self)@
            }) && final(out)@ == saved(old(out)@, "System prompt updated."@),
            final(self)@ == after_system(old(self)@, c@),
    {
        if c.rest.as_str().is_empty() {
            if self.cfg.system_prompt.as_str().is_empty() {
                out.say("No custom system prompt. Use /system <text> to set one.");
            } else {
                out.sys(cat2("Custom system prompt: ", self.cfg.system_prompt.as_str()));
            }
        } else {
            self.cfg.system_prompt = c.rest.as_str().to_string();
            self.own.system_prompt = c.rest.as_str().to_string();
            save_and_say(out, "System prompt updated.");
        }
    }

    /// /tokens; `r` is the estimate of what is sent with every request.
    pub fn cmd_tokens(&mut self, c: &Command, r: &Report, out: &mut Outbox)
        ensures
            match word(c@, 0) {
                Some(w) => match settings::positive(w) {
                    Some(n) => final(self)@ == (EngineView {
                        cfg: config::ConfigView { max_tokens: n, ..old(self)@.cfg },
                        ..old(self)@
                    }) && final(out)@ == saved(
                        old(out)@,
                        "Max tokens: "@ + number::decimal(n as nat),
                    ),
                    None => final(self)@ == old(self)@ && final(out)@ == old(out)@,
                },
                None => final(self)@ == old(self)@ && final(out)@ == old(out)@.push(
                    outbox::says(tokens_shown(old(self)@, *r)),
                ),
            },
            final(self)@ == after_tokens(old(self)@, c@),
    {
        match c.word(0) {
            Some(w) => if let Some(n) = parse_positive(w) {
                self.cfg.max_tokens = n;
                let k = show(n);
                let t = cat2("Max tokens: ", k.as_str());
                save_and_say(out, t.as_str());
            },
            None => {
                let m = show(self.cfg.max_tokens);
                let w = show(budget::WARN_THRESHOLD);
                let body = r.format();
                out.sys(
                    cat6(
                        "Max output tokens: ",
                        m.as_str(),
                        "  (use /tokens <n> to change)\n\nBase prompt injection (target ~",
                        w.as_str(),
                        "t, warning only):\n",
                        body.as_str(),
                    ),
                );
            },
        }
    }

    /// /budget
    pub fn cmd_budget(&mut self, c: &Command, out: &mut Outbox)
        ensures
            match word(c@, 0) {
                Some(w) => match number::parsed(w, usize::MAX as nat) {
                    Some(n) => if n > 0 {
                        final(self)@ == (EngineView {
                            token_budget: n as usize,
                            cfg: config::ConfigView { token_budget: n as usize, ..old(self)@.cfg },
                            ..old(self)@
                        }) && final(out)@ == old(out)@.push(EffectView::SaveConfig).push(
                            EffectView::SendTokenUsage,
                        ).push(
                            outbox::says("Context budget: "@ + number::decimal(n) + " tokens"@),
                        )
                    } else {
                        final(self)@ == old(self)@ && final(out)@ == old(out)@
                    },
                    None => final(self)@ == old(self)@ && final(out)@ == old(out)@.push(
                        outbox::warns("Usage: /budget <n>"@),
                    ),
                },
                None => final(self)@ == old(self)@ && final(out)@ == old(out)@.push(
                    outbox::says(
                        "Context budget: "@ + number::decimal(old(self)@.token_budget as nat)
                            + " tokens (sidebar meter ceiling; use /budget <n> to change)"@,
                    ),
                ),
            },
            final(self)@ == after_budget(old(self)@, c@),
    {
        match c.word(0) {
            Some(w) => match parse_usize(w) {
                Some(n) => if n > 0 {
                    self.token_budget = n;
                    self.cfg.token_budget = n;
                    out.add(Effect::SaveConfig);
                    out.add(Effect::SendTokenUsage);
                    let k = show(n);
                    out.sys(cat3("Context budget: ", k.as_str(), " tokens"));
                },
                None => out.warn("Usage: /budget <n>"),
            },
            None => {
                let k = show(self.token_budget);
                out.sys(
                    cat3(
                        "Context budget: ",
                        k.as_str(),
                        " tokens (sidebar meter ceiling; use /budget <n> to change)",
                    ),
                );
            },
        }
    }

    /// /allow
    pub fn cmd_allow(&mut self, c: &Command, out: &mut Outbox)
        ensures
            c@.args.len() == 0 ==> final(self)@ == old(self)@ && final(out)@ == old(out)@.push(
                outbox::says(
                    if old(self)@.allowed_commands.len() == 0 {
                        "No commands allowed. Use /allow <prefix> to permit."@
                    } else {
                        "Allowed prefixes: "@ + split::joined(
                            old(self)@.allowed_commands,
                            ", "@,
                        )
                    },
                ),
            ),
            c@.args.len() > 0 ==> final(self)@ == (EngineView {
                allowed_commands: old(self)@.allowed_commands.push(c@.rest),
                cfg: config::ConfigView {
                    allowed_commands: old(self)@.allowed_commands.push(c@.rest),
                    ..old(self)@.cfg
                },
                own: config::OwnSettingsView {
                    allowed_commands: old(self)@.own.allowed_commands.push(c@.rest),
                    ..old(self)@.own
                },
                ..old(self)@
            }) && final(out)@ == saved(old(out)@, "Allowed: "@ + shown::quoted(c@.rest)),
            final(self)@ == after_allow(old(self)@, c@),
    {
        assert(split::texts(c.args@).len() == c.args@.len());
        assert(split::texts(self.allowed_commands@).len() == self.allowed_commands@.len());
        if c.args.len() == 0 {
            if self.allowed_commands.len() == 0 {
                out.say("No commands allowed. Use /allow <prefix> to permit.");
            } else {
                let l = join(&self.allowed_commands, ", ");
                out.sys(cat2("Allowed prefixes: ", l.as_str()));
            }
        } else {
            self.allowed_commands.push(c.rest.as_str().to_string());
            self.cfg.allowed_commands = copy_texts(&self.allowed_commands);
            self.own.allowed_commands.push(c.rest.as_str().to_string());
            let q = quote(c.rest.as_str());
            let t = cat2("Allowed: ", q.as_str());
            save_and_say(out, t.as_str());
        }
    }

    /// /verify
    pub fn cmd_verify(&mut self, c: &Command, out: &mut Outbox)
        ensures
            c@.rest.len() == 0 ==> final(self)@ == old(self)@ && final(out)@ == old(out)@.push(
                outbox::says(verify_shown(old(self)@)),
            ),
            c@.rest.len() > 0 && (c@.rest == "off"@ || c@.rest == "none"@) ==> final(self)@ == (
            EngineView {
                cfg: config::ConfigView { verify_command: None, ..old(self)@.cfg },
                own: config::OwnSettingsView { verify_command: None, ..old(self)@.own },
                ..old(self)@
            }) && final(out)@ == saved(old(out)@, "Verify command cleared."@),
            c@.rest.len() > 0 && c@.rest != "off"@ && c@.rest != "none"@ ==> final(self)@ == (
            EngineView {
                cfg: config::ConfigView { verify_command: Some(c@.rest), ..old(self)@.cfg },
                own: config::OwnSettingsView { verify_command: Some(c@.rest), ..old(self)@.own },
                ..old(self)@
            }) && final(out)@ == saved(old(out)@, "Verify command set: "@ + c@.rest),
            final(self)@ == after_verify(old(self)@, c@),
    {
        let rest = c.rest.as_str();
        if rest.is_empty() {
            match &self.cfg.verify_command {
                Some(cmd) => out.sys(
                    cat3("Verify command: ", cmd.as_str(), "  (use /verify off to clear)"),
                ),
                None => out.say("No verify command set.  Usage: /verify <shell-command>"),
            }
        } else if same(rest, "off") || same(rest, "none") {
            self.cfg.verify_command = None;
            self.own.verify_command = None;
            save_and_say(out, "Verify command cleared.");
        } else {
            self.cfg.verify_command = Some(rest.to_string());
            self.own.verify_command = Some(rest.to_string());
            let t = cat2("Verify command set: ", rest);
            save_and_say(out, t.as_str());
        }
    }

    /// /pwd
    pub fn cmd_pwd(&self, out: &mut Outbox)
        ensures
            final(out)@ == old(out)@.push(outbox::says("Directory: "@ + self@.work_dir)),
    {
        out.sys(cat2("Directory: ", self.work_dir.as_str()));
    }

    /// /config
    pub fn cmd_config(&self, out: &mut Outbox)
        ensures
            final(out)@ == old(out)@.push(EffectView::SendConfigState { open: true }),
    {
        out.add(Effect::SendConfigState { open: true });
    }
}

// ── Modes ───────────────────────────────────────────────────────────────────

/// What the user is told of a new AST mode.
pub open spec fn ast_text(m: AstMode) -> Seq<char> {
    match m {
        AstMode::Off => "AST mode off — file reads use raw text."@,
        AstMode::SExpr => "AST mode: SEXPR — file reads deliver compact S-expression ASTs via ast-compiler."@,
        AstMode::Harness => "AST mode: HARNESS — ast_skeleton / ast_get_node / ast_mutate tools now active."@,
    }
}

/// Which sandboxes the machine offers.
pub struct SandboxFacts {
    pub mxc_found: bool,
    pub mxc_binary: String,
    pub docker_found: bool,
}

/// The sandbox mode that a word names, if it can be had; else why not.
pub open spec fn sandbox_asked(w: Seq<char>, f: SandboxFacts) -> Option<
    Result<SandboxMode, Seq<char>>,
> {
    if w == "off"@ {
        Some(Ok(SandboxMode::Off))
    } else if w == "on"@ || w == "permissive"@ {
        Some(Ok(SandboxMode::Permissive))
    } else if w == "mxc"@ {
        Some(
            if f.mxc_found {
                Ok(SandboxMode::Mxc)
            } else {
                Err(settings::mxc_missing(f.mxc_binary@))
            },
        )
    } else if w == "docker"@ {
        Some(
            if f.docker_found {
                Ok(SandboxMode::Docker)
            } else {
                Err(settings::docker_missing())
            },
        )
    } else {
        None
    }
}

/// What the user is told of a new sandbox mode.
pub open spec fn sandbox_text(m: SandboxMode, binary: Seq<char>) -> Seq<char> {
    match m {
        SandboxMode::Off => "Sandbox off — shell commands require /allow."@,
        SandboxMode::Permissive => "Sandbox permissive — all commands allowed, running directly on host."@,
        SandboxMode::Mxc => "Sandbox mxc — AI commands run via Microsoft eXecution Containers ("@
            + binary + ", network blocked, only workdir mounted rw)."@,
        SandboxMode::Docker => "Sandbox docker — AI commands run inside a Docker container (network blocked, only workdir mounted rw)."@,
    }
}

/// How the sandbox stands.
pub open spec fn sandbox_shown(m: SandboxMode, f: SandboxFacts) -> Seq<char> {
    "Sandbox: "@ + config::sandbox_label(m) + "  |  mxc: "@ + ((if f.mxc_found {
        "available ("@
    } else {
        "not found ("@
    }) + f.mxc_binary@ + ")"@) + "  |  docker: "@ + (if f.docker_found {
        "available (docker)"@
    } else {
        "not found (docker)"@
    }) + "\n/sandbox [off|permissive|mxc|docker]"@
}

fn ask_sandbox(w: &str, f: &SandboxFacts) -> (r: Option<Result<SandboxMode, String>>)
    ensures
        (match r {
            Some(Ok(m)) => Some(Ok::<SandboxMode, Seq<char>>(m)),
            Some(Err(e)) => Some(Err::<SandboxMode, Seq<char>>(e@)),
            None => None,
        }) == sandbox_asked(w@, *f),
{
    if same(w, "off") {
        Some(Ok(SandboxMode::Off))
    } else if same(w, "on") || same(w, "permissive") {
        Some(Ok(SandboxMode::Permissive))
    } else if same(w, "mxc") {
        if f.mxc_found {
            Some(Ok(SandboxMode::Mxc))
        } else {
            Some(
                Err(
                    cat3(
                        "MXC binary (",
                        f.mxc_binary.as_str(),
                        ") not found in PATH. Install from https://github.com/microsoft/mxc and retry.",
                    ),
                ),
            )
        }
    } else if same(w, "docker") {
        if f.docker_found {
            Some(Ok(SandboxMode::Docker))
        } else {
            Some(Err("docker CLI not found in PATH. Install Docker and retry.".to_string()))
        }
    } else {
        None
    }
}

fn show_sandbox(m: SandboxMode, binary: &str) -> (r: String)
    ensures
        r@ == sandbox_text(m, binary@),
{
    match m {
        SandboxMode::Off => "Sandbox off — shell commands require /allow.".to_string(),
        SandboxMode::Permissive => "Sandbox permissive — all commands allowed, running directly on host.".to_string(),
        SandboxMode::Mxc => cat3(
            "Sandbox mxc — AI commands run via Microsoft eXecution Containers (",
            binary,
            ", network blocked, only workdir mounted rw).",
        ),
        SandboxMode::Docker => "Sandbox docker — AI commands run inside a Docker container (network blocked, only workdir mounted rw).".to_string(),
    }
}

/// What a word of /sandbox asks for; nothing without a word.
pub open spec fn sandbox_word(c: CommandView, f: SandboxFacts) -> Option<
    Result<SandboxMode, Seq<char>>,
> {
    match word(c, 0) {
        Some(w) => sandbox_asked(w, f),
        None => None,
    }
}

impl Engine {
    /// /sandbox
    pub fn cmd_sandbox(&mut self, c: &Command, f: &SandboxFacts, out: &mut Outbox)
        ensures
            match sandbox_word(c@, *f) {
                Some(Ok(m)) => final(self)@ == (EngineView {
                    cfg: config::ConfigView { sandbox_mode: m, ..old(self)@.cfg },
                    own: config::OwnSettingsView { sandbox_mode: m, ..old(self)@.own },
                    ..old(self)@
                }) && final(out)@ == saved(old(out)@, sandbox_text(m, f.mxc_binary@)),
                Some(Err(e)) => final(self)@ == old(self)@ && final(out)@ == old(out)@.push(
                    outbox::warns(e),
                ),
                None => final(self)@ == old(self)@ && final(out)@ == old(out)@.push(
                    outbox::says(sandbox_shown(old(self)@.cfg.sandbox_mode, *f)),
                ),
            },
            final(self)@ == after_sandbox(old(self)@, c@, *f),
    {
        let asked = match c.word(0) {
            Some(w) => ask_sandbox(w, f),
            None => None,
        };
        match asked {
            Some(Ok(m)) => {
                self.cfg.sandbox_mode = m;
                self.own.sandbox_mode = m;
                let t = show_sandbox(m, f.mxc_binary.as_str());
                save_and_say(out, t.as_str());
            },
            Some(Err(e)) => out.err(e),
            None => {
                let mxc = cat3(
                    if f.mxc_found {
                        "available ("
                    } else {
                        "not found ("
                    },
                    f.mxc_binary.as_str(),
                    ")",
                );
                let docker = if f.docker_found {
                    "available (docker)"
                } else {
                    "not found (docker)"
                };
                out.sys(
                    cat7(
                        "Sandbox: ",
                        self.cfg.sandbox_mode.label(),
                        "  |  mxc: ",
                        mxc.as_str(),
                        "  |  docker: ",
                        docker,
                        "\n/sandbox [off|permissive|mxc|docker]",
                    ),
                );
            },
        }
    }

    /// /ast
    pub fn cmd_ast(&mut self, c: &Command, out: &mut Outbox)
        ensures
            match word(c@, 0) {
                Some(w) => match config::ast_mode_named(w) {
                    Some(m) => final(self)@ == (EngineView {
                        ast_mode: m,
                        cfg: config::ConfigView { ast_mode: m, ..old(self)@.cfg },
                        ..old(self)@
                    }) && final(out)@ == old(out)@.push(EffectView::SaveConfig).push(
                        EffectView::Send(UiUpdateView::AstMode(m)),
                    ).push(outbox::says(ast_text(m))),
                    None => final(self)@ == old(self)@ && final(out)@ == old(out)@.push(
                        outbox::warns(
                            "Unknown AST mode "@ + shown::quoted(w)
                                + " — use: off, sexpr, harness"@,
                        ),
                    ),
                },
                None => final(self)@ == old(self)@ && final(out)@ == old(out)@.push(
                    outbox::says(
                        "AST mode: "@ + config::ast_label(old(self)@.ast_mode)
                            + "  (use /ast off|sexpr|harness)"@,
                    ),
                ),
            },
            final(self)@ == after_ast(old(self)@, c@),
    {
        match c.word(0) {
            Some(w) => match config::parse_ast_mode(w) {
                Some(m) => {
                    self.ast_mode = m;
                    self.cfg.ast_mode = m;
                    out.add(Effect::SaveConfig);
                    out.send(UiUpdate::AstMode(m));
                    match m {
                        AstMode::Off => out.say("AST mode off — file reads use raw text."),
                        AstMode::SExpr => out.say(
                            "AST mode: SEXPR — file reads deliver compact S-expression ASTs via ast-compiler.",
                        ),
                        AstMode::Harness => out.say(
                            "AST mode: HARNESS — ast_skeleton / ast_get_node / ast_mutate tools now active.",
                        ),
                    }
                },
                None => {
                    let q = quote(w);
                    out.err(
                        cat3("Unknown AST mode ", q.as_str(), " — use: off, sexpr, harness"),
                    );
                },
            },
            None => out.sys(
                cat3("AST mode: ", self.ast_mode.label(), "  (use /ast off|sexpr|harness)"),
            ),
        }
    }
}

// ── Colors and themes ───────────────────────────────────────────────────────

/// A color as it is written.
pub open spec fn color_text(c: [u8; 3]) -> Seq<char> {
    "#"@ + number::hex(c[0] as nat, 2) + number::hex(c[1] as nat, 2) + number::hex(
        c[2] as nat,
        2,
    )
}

fn show_color(c: [u8; 3]) -> (r: String)
    ensures
        r@ == color_text(c),
{
    let a = show_hex(c[0] as u64, 2);
    let b = show_hex(c[1] as u64, 2);
    let d = show_hex(c[2] as u64, 2);
    cat4("#", a.as_str(), b.as_str(), d.as_str())
}

/// The color of the work directory as it is shown.
pub open spec fn current_color(e: EngineView) -> Seq<char> {
    match config::color_of(e.cfg.status_colors, e.work_dir) {
        Some(c) => color_text(c),
        None => "default"@,
    }
}

/// The line of a named theme.
pub open spec fn theme_line(t: NamedView) -> Seq<char> {
    "  "@ + t.name + "  —  "@ + t.description
}

/// The lines of the named themes.
pub open spec fn theme_lines(ts: Seq<NamedView>) -> Seq<Seq<char>> {
    ts.map_values(|t: NamedView| theme_line(t))
}

fn show_themes(ts: &Vec<Named>) -> (r: String)
    ensures
        r@ == split::joined(theme_lines(split::views(ts@)), "\n"@),
{
    let ghost all = theme_lines(split::views(ts@));
    let mut out: Vec<String> = Vec::new();
    let mut i: usize = 0;
    while i < ts.len()
        invariant
            i <= ts@.len(),
            all == theme_lines(split::views(ts@)),
            split::texts(out@) =~= all.take(i as int),
        decreases ts@.len() - i,
    {
        let t = &ts[i];
        out.push(cat4("  ", t.name.as_str(), "  —  ", t.description.as_str()));
        assert(all[i as int] == out@.last()@);
        i += 1;
    }
    assert(all.take(i as int) =~= all);
    join(&out, "\n")
}

/// What the user is told where there is no theme of a name.
pub open spec fn theme_missing(name: Seq<char>, ts: Seq<NamedView>) -> Seq<char> {
    if ts.len() == 0 {
        "Theme '"@ + name + "' not found. Add ~/.marlin/themes/"@ + name
            + ".toml to create it."@
    } else {
        "Theme '"@ + name + "' not found. Available named themes:\n"@ + split::joined(
            theme_lines(ts),
            "\n"@,
        )
    }
}

/// The themes as they are shown.
pub open spec fn themes_shown(theme: Seq<char>, ts: Seq<NamedView>) -> Seq<char> {
    "Theme: "@ + theme + "  (use /theme dark|light|<name>)\n\nNamed themes:\n"@ + (if ts.len()
        == 0 {
        "  (none — add .toml files to ~/.marlin/themes/)"@
    } else {
        split::joined(theme_lines(ts), "\n"@)
    })
}

impl Engine {
    /// /color; `rgb` is the color that the first word names, if it does.
    pub fn cmd_color(&mut self, c: &Command, rgb: Option<[u8; 3]>, out: &mut Outbox)
        ensures
            match word(c@, 0) {
                None => final(self)@ == old(self)@ && final(out)@ == old(out)@.push(
                    outbox::says(
                        "Status bar color for this directory: "@ + current_color(old(self)@)
                            + "\nUsage: /color <#rrggbb>  —  or /color off to clear.\nThe color is saved per working directory so you can tell sessions apart."@,
                    ),
                ),
                Some(w) => if w == "off"@ || w == "none"@ || w == "default"@ {
                    final(self)@ == (EngineView {
                        cfg: config::ConfigView {
                            status_colors: config::without_color(
                                old(self)@.cfg.status_colors,
                                old(self)@.work_dir,
                            ),
                            ..old(self)@.cfg
                        },
                        ..old(self)@
                    }) && final(out)@ == old(out)@.push(EffectView::SaveConfig).push(
                        EffectView::SendStatus,
                    ).push(outbox::says("Status bar color cleared (default)."@))
                } else {
                    match rgb {
                        Some(rgb) => final(self)@ == (EngineView {
                            cfg: config::ConfigView {
                                status_colors: config::with_color(
                                    old(self)@.cfg.status_colors,
                                    old(self)@.work_dir,
                                    rgb,
                                ),
                                ..old(self)@.cfg
                            },
                            ..old(self)@
                        }) && final(out)@ == old(out)@.push(EffectView::SaveConfig).push(
                            EffectView::SendStatus,
                        ).push(
                            outbox::says(
                                "Status bar color set to "@ + color_text(rgb)
                                    + " for this directory."@,
                            ),
                        ),
                        None => final(self)@ == old(self)@ && final(out)@ == old(out)@.push(
                            outbox::warns(
                                "Invalid color: "@ + shown::quoted(w)
                                    + " — use a hex value like #ff8800, or /color off to clear."@,
                            ),
                        ),
                    }
                },
            },
            final(self)@ == after_color(old(self)@, c@, rgb),
    {
        match c.word(0) {
            None => {
                let cur = match find_color(&self.cfg.status_colors, self.work_dir.as_str()) {
                    Some(c) => show_color(c),
                    None => "default".to_string(),
                };
                out.sys(
                    cat3(
                        "Status bar color for this directory: ",
                        cur.as_str(),
                        "\nUsage: /color <#rrggbb>  —  or /color off to clear.\nThe color is saved per working directory so you can tell sessions apart.",
                    ),
                );
            },
            Some(w) => if same(w, "off") || same(w, "none") || same(w, "default") {
                let dir = self.work_dir.as_str().to_string();
                remove_color(&mut self.cfg.status_colors, dir.as_str());
                out.add(Effect::SaveConfig);
                out.add(Effect::SendStatus);
                out.say("Status bar color cleared (default).");
            } else {
                match rgb {
                    Some(rgb) => {
                        let dir = self.work_dir.as_str().to_string();
                        remove_color(&mut self.cfg.status_colors, dir.as_str());
                        self.cfg.status_colors.push(DirColor { dir, rgb });
                        out.add(Effect::SaveConfig);
                        out.add(Effect::SendStatus);
                        let t = show_color(rgb);
                        out.sys(
                            cat3("Status bar color set to ", t.as_str(), " for this directory."),
                        );
                    },
                    None => {
                        let q = quote(w);
                        out.err(
                            cat3(
                                "Invalid color: ",
                                q.as_str(),
                                " — use a hex value like #ff8800, or /color off to clear.",
                            ),
                        );
                    },
                }
            },
        }
    }

    /// /theme; `known` says whether there is a theme of the name that the first
    /// word gives, which is then in use, and `ts` are the named themes.
    pub fn cmd_theme(&mut self, c: &Command, known: bool, ts: &Vec<Named>, out: &mut Outbox)
        ensures
            match word(c@, 0) {
                None => final(self)@ == old(self)@ && final(out)@ == old(out)@.push(
                    outbox::says(themes_shown(old(self)@.cfg.theme, split::views(ts@))),
                ),
                Some(w) => if w == "light"@ || w == "dark"@ {
                    final(self)@ == (EngineView {
                        cfg: config::ConfigView { theme: w, ..old(self)@.cfg },
                        ..old(self)@
                    }) && final(out)@ == saved(
                        old(out)@.push(EffectView::UseLightTheme(w == "light"@)),
                        "Theme set to "@ + w + "."@,
                    )
                } else if known {
                    final(self)@ == (EngineView {
                        cfg: config::ConfigView { theme: w, ..old(self)@.cfg },
                        ..old(self)@
                    }) && final(out)@ == saved(
                        old(out)@,
                        "Theme '"@ + w + "' applied (persisted)."@,
                    )
                } else {
                    final(self)@ == old(self)@ && final(out)@ == old(out)@.push(
                        outbox::warns(theme_missing(w, split::views(ts@))),
                    )
                },
            },
            final(self)@ == after_theme(old(self)@, c@, known),
    {
        match c.word(0) {
            None => {
                let l = if ts.len() == 0 {
                    "  (none — add .toml files to ~/.marlin/themes/)".to_string()
                } else {
                    show_themes(ts)
                };
                out.sys(
                    cat4(
                        "Theme: ",
                        self.cfg.theme.as_str(),
                        "  (use /theme dark|light|<name>)\n\nNamed themes:\n",
                        l.as_str(),
                    ),
                );
            },
            Some(w) => if same(w, "light") || same(w, "dark") {
                self.cfg.theme = w.to_string();
                out.add(Effect::UseLightTheme(same(w, "light")));
                let t = cat3("Theme set to ", w, ".");
                save_and_say(out, t.as_str());
            } else if known {
                self.cfg.theme = w.to_string();
                let t = cat3("Theme '", w, "' applied (persisted).");
                save_and_say(out, t.as_str());
            } else if ts.len() == 0 {
                out.err(
                    cat5(
                        "Theme '",
                        w,
                        "' not found. Add ~/.marlin/themes/",
                        w,
                        ".toml to create it.",
                    ),
                );
            } else {
                let l = show_themes(ts);
                out.err(
                    cat4(
                        "Theme '",
                        w,
                        "' not found. Available named themes:\n",
                        l.as_str(),
                    ),
                );
            },
        }
    }
}

// ── Laws of commands ────────────────────────────────────────────────────────

/// A command is its first word, in lower case; what stands behind the blank is its
/// rest, and the words of that are its arguments. Whitespace around it is dropped.
pub proof fn law_command_in(
    before: Seq<char>,
    name: Seq<char>,
    rest: Seq<char>,
    after: Seq<char>,
)
    requires
        text::all_in(before, |c: char| text::char_whitespace(c)),
        text::all_in(after, |c: char| text::char_whitespace(c)),
        name.len() > 0,
        forall|i: int| 0 <= i < name.len() ==> !text::char_whitespace(#[trigger] name[i]),
        rest.len() > 0,
        !text::char_whitespace(rest[0]),
        !text::char_whitespace(rest.last()),
    ensures
        command_in(before + name + after).name == text::lowercase(name),
        command_in(before + name + after).args.len() == 0,
        command_in(before + name + after).rest.len() == 0,
        command_in(before + (name + " "@ + rest) + after).name == text::lowercase(name),
        command_in(before + (name + " "@ + rest) + after).rest == rest,
        command_in(before + (name + " "@ + rest) + after).args == split::words(rest),
{
    let p = text::among(" "@);
    reveal_strlit(" ");
    assert(" "@[0] == ' ');
    assert forall|i: int| 0 <= i < name.len() implies !p(#[trigger] name[i]) by {
        if " "@.contains(name[i]) {
            assert(name[i] == ' ');
        }
    }
    let none = Seq::<char>::empty();
    assert(!text::char_whitespace(name[0]));
    assert(!text::char_whitespace(name[name.len() - 1]));
    text::law_trimmed(before, name, after);
    assert(name + none =~= name);
    text::law_until(name, none, p);
    assert(behind_name(name) =~= none);
    text::law_trimmed_already(none);
    split::law_one_word(none);
    let t = name + " "@ + rest;
    assert(t[0] == name[0] && t.last() == rest.last());
    text::law_trimmed(before, t, after);
    let tail = " "@ + rest;
    assert(t =~= name + tail);
    assert(p(tail[0]));
    text::law_until(name, tail, p);
    assert(t.skip(name.len() as int + 1) =~= rest);
    text::law_trimmed_already(rest);
}

/// Arguments are numbered from 0, and behind the last there is none.
pub proof fn law_words_of_command(c: CommandView, w: Seq<char>, i: int)
    requires
        i >= 0,
    ensures
        word((CommandView { args: c.args.push(w), ..c }), c.args.len() as int) == Some(w),
        i < c.args.len() ==> word((CommandView { args: c.args.push(w), ..c }), i) == word(c, i)
            && word(c, i) == Some(c.args[i]),
        i >= c.args.len() ==> word(c, i) is None,
{
}

/// A switch is on or off by its first word alone; anything else, and no word, says
/// nothing.
pub proof fn law_switched(
    c: CommandView,
    on: Seq<char>,
    off: Seq<char>,
    w: Seq<char>,
    more: Seq<Seq<char>>,
)
    requires
        on != off,
    ensures
        switched((CommandView { args: seq![on] + more, ..c }), on, off) == Some(true),
        switched((CommandView { args: seq![off] + more, ..c }), on, off) == Some(false),
        w != on && w != off ==> switched(
            (CommandView { args: seq![w] + more, ..c }),
            on,
            off,
        ) is None,
        switched((CommandView { args: Seq::empty(), ..c }), on, off) is None,
{
}

/// Routing is switched without touching who takes which tasks.
pub proof fn law_tiers_set(t: config::ModelTiersView, on: bool)
    ensures
        tiers_set(t, on).enabled == on,
        tiers_set(t, on).default == t.default,
        tiers_set(t, on).complex == t.complex,
        tiers_set(t, on).rater == t.rater,
        tiers_set(t, on).default_max_difficulty == t.default_max_difficulty,
        tiers_set(tiers_set(t, on), t.enabled) == t,
{
}

/// A sandbox is switched by its word where its program was found; else the user is
/// told what is missing, and any other word switches nothing.
pub proof fn law_sandbox_asked(c: CommandView, w: Seq<char>, f: SandboxFacts)
    ensures
        ({
            let r = sandbox_word((CommandView { args: seq![w], ..c }), f);
            &&& w == "off"@ ==> r == Some(Ok::<SandboxMode, Seq<char>>(SandboxMode::Off))
            &&& w == "on"@ || w == "permissive"@ ==> r == Some(
                Ok::<SandboxMode, Seq<char>>(SandboxMode::Permissive),
            )
            &&& w == "mxc"@ && f.mxc_found ==> r == Some(
                Ok::<SandboxMode, Seq<char>>(SandboxMode::Mxc),
            )
            &&& w == "mxc"@ && !f.mxc_found ==> r is Some && r->0 is Err
            &&& w == "docker"@ && f.docker_found ==> r == Some(
                Ok::<SandboxMode, Seq<char>>(SandboxMode::Docker),
            )
            &&& w == "docker"@ && !f.docker_found ==> r is Some && r->0 is Err
            &&& r is Some ==> w == "off"@ || w == "on"@ || w == "permissive"@ || w == "mxc"@ || w
                == "docker"@
        }),
        sandbox_word((CommandView { args: Seq::empty(), ..c }), f) is None,
{
    reveal_strlit("off");
    reveal_strlit("on");
    reveal_strlit("permissive");
    reveal_strlit("mxc");
    reveal_strlit("docker");
    assert("off"@.len() == 3 && "permissive"@.len() == 10 && "mxc"@.len() == 3 && "docker"@.len()
        == 6 && "on"@.len() == 2);
    assert("off"@[0] == 'o' && "mxc"@[0] == 'm');
}

/// A color is shown by six digits, and two colors that are shown alike are the same.
pub proof fn law_color_text(c: [u8; 3], d: [u8; 3])
    ensures
        color_text(c).len() == 7,
        color_text(c)[0] == '#',
        color_text(c) == color_text(d) ==> c[0] == d[0] && c[1] == d[1] && c[2] == d[2],
{
    reveal_strlit("#");
    assert(vstd::arithmetic::power::pow(16, 2) == 256) by {
        reveal_with_fuel(vstd::arithmetic::power::pow, 3);
    }
    let x = color_text(c);
    let y = color_text(d);
    lemma_two_digits(c[0]);
    lemma_two_digits(c[1]);
    lemma_two_digits(c[2]);
    lemma_two_digits(d[0]);
    lemma_two_digits(d[1]);
    lemma_two_digits(d[2]);
    if x == y {
        assert(number::hex(c[0] as nat, 2) =~= x.subrange(1, 3));
        assert(number::hex(d[0] as nat, 2) =~= y.subrange(1, 3));
        number::law_hex_tells_apart(c[0] as nat, d[0] as nat, 2);
        assert(number::hex(c[1] as nat, 2) =~= x.subrange(3, 5));
        assert(number::hex(d[1] as nat, 2) =~= y.subrange(3, 5));
        number::law_hex_tells_apart(c[1] as nat, d[1] as nat, 2);
        assert(number::hex(c[2] as nat, 2) =~= x.subrange(5, 7));
        assert(number::hex(d[2] as nat, 2) =~= y.subrange(5, 7));
        number::law_hex_tells_apart(c[2] as nat, d[2] as nat, 2);
    }
}

proof fn lemma_two_digits(n: u8)
    ensures
        number::hex(n as nat, 2).len() == 2,
{
    assert(vstd::arithmetic::power::pow(16, 2) == 256) by {
        reveal_with_fuel(vstd::arithmetic::power::pow, 3);
    }
    number::law_hex_tells_apart(n as nat, n as nat, 2);
}

/// Each theme is offered by its name, also where another was asked for that is not
/// there.
pub proof fn law_themes(name: Seq<char>, theme: Seq<char>, ts: Seq<NamedView>, i: int)
    requires
        0 <= i < ts.len(),
    ensures
        text::occurs(themes_shown(theme, ts), "  "@ + ts[i].name + "  —  "@ + ts[i].description),
        text::occurs(
            theme_missing(name, ts),
            "  "@ + ts[i].name + "  —  "@ + ts[i].description,
        ),
        text::occurs(theme_missing(name, ts), name),
{
    let none = Seq::<char>::empty();
    let l = theme_line(ts[i]);
    let ls = theme_lines(ts);
    split::law_joined_holds_each(ls, "\n"@, i);
    let j = split::joined(ls, "\n"@);
    let a = "Theme: "@ + theme + "  (use /theme dark|light|<name>)\n\nNamed themes:\n"@;
    assert(themes_shown(theme, ts) =~= a + j + none);
    text::law_occurs_within(a, j, none, l);
    let b = "Theme '"@ + name + "' not found. Available named themes:\n"@;
    assert(theme_missing(name, ts) =~= b + j + none);
    text::law_occurs_within(b, j, none, l);
    let rest = "' not found. Available named themes:\n"@ + j;
    assert(theme_missing(name, ts) =~= "Theme '"@ + name + rest);
    text::law_occurs_in_middle("Theme '"@, name, rest);
}

/// A kind of command goes by its own names alone.
pub proof fn law_kinds(n: Seq<char>)
    ensures
        kind_named(n) is Help ==> n == "/help"@,
        kind_named(n) is Clear ==> n == "/clear"@,
        kind_named(n) is Compact ==> n == "/compact"@,
        kind_named(n) is Provider ==> n == "/provider"@ || n == "/p"@,
        kind_named(n) is Model ==> n == "/model"@ || n == "/m"@,
        kind_named(n) is Key ==> n == "/key"@,
        kind_named(n) is Endpoint ==> n == "/endpoint"@,
        kind_named(n) is System ==> n == "/system"@ || n == "/sys"@,
        kind_named(n) is Tokens ==> n == "/tokens"@,
        kind_named(n) is Budget ==> n == "/budget"@,
        kind_named(n) is Providers ==> n == "/providers"@,
        kind_named(n) is Models ==> n == "/models"@,
        kind_named(n) is Attach ==> n == "/attach"@ || n == "/a"@,
        kind_named(n) is Detach ==> n == "/detach"@,
        kind_named(n) is Exec ==> n == "/exec"@,
        kind_named(n) is Allow ==> n == "/allow"@,
        kind_named(n) is Sandbox ==> n == "/sandbox"@,
        kind_named(n) is Permissions ==> n == "/permissions"@,
        kind_named(n) is Verify ==> n == "/verify"@,
        kind_named(n) is Ast ==> n == "/ast"@,
        kind_named(n) is CleanEnv ==> n == "/clean-env"@,
        kind_named(n) is Thinking ==> n == "/thinking"@,
        kind_named(n) is Checkpoints ==> n == "/checkpoints"@,
        kind_named(n) is Undo ==> n == "/undo"@,
        kind_named(n) is Color ==> n == "/color"@,
        kind_named(n) is Theme ==> n == "/theme"@,
        kind_named(n) is UserCommands ==> n == "/command"@ || n == "/commands"@,
        kind_named(n) is Tools ==> n == "/tool"@ || n == "/tools"@,
        kind_named(n) is Mcp ==> n == "/mcp"@ || n == "/mcps"@,
        kind_named(n) is Index ==> n == "/index"@,
        kind_named(n) is Search ==> n == "/search"@,
        kind_named(n) is Revert ==> n == "/revert"@,
        kind_named(n) is Resume ==> n == "/resume"@,
        kind_named(n) is History ==> n == "/history"@,
        kind_named(n) is Cat ==> n == "/cat"@,
        kind_named(n) is View ==> n == "/view"@ || n == "/open"@,
        kind_named(n) is Edit ==> n == "/edit"@,
        kind_named(n) is DiffMode ==> n == "/diff-mode"@,
        kind_named(n) is Ls ==> n == "/ls"@,
        kind_named(n) is Cd ==> n == "/cd"@,
        kind_named(n) is Pwd ==> n == "/pwd"@,
        kind_named(n) is Skill ==> n == "/skill"@ || n == "/skills"@,
        kind_named(n) is Tiers ==> n == "/tiers"@,
        kind_named(n) is Subagents ==> n == "/subagents"@,
        kind_named(n) is Config ==> n == "/config"@ || n == "/settings"@,
        kind_named(n) is Preflight ==> n == "/preflight"@,
        kind_named(n) is Export ==> n == "/export"@,
{
}

/// Every command there is has a kind of its own: only a name that is none of theirs
/// is another's.
pub proof fn law_no_command_is_lost(n: Seq<char>)
    requires
        kind_named(n) is Other,
    ensures
        n != "/help"@ && n != "/clear"@ && n != "/compact"@ && n != "/provider"@ && n != "/p"@,
        n != "/model"@ && n != "/m"@ && n != "/key"@ && n != "/endpoint"@ && n != "/system"@,
        n != "/sys"@ && n != "/tokens"@ && n != "/budget"@ && n != "/providers"@ && n
            != "/models"@,
        n != "/attach"@ && n != "/a"@ && n != "/detach"@ && n != "/exec"@ && n != "/allow"@,
        n != "/sandbox"@ && n != "/permissions"@ && n != "/verify"@ && n != "/ast"@,
        n != "/clean-env"@ && n != "/thinking"@ && n != "/checkpoints"@ && n != "/undo"@,
        n != "/color"@ && n != "/theme"@ && n != "/command"@ && n != "/commands"@,
        n != "/tool"@ && n != "/tools"@ && n != "/mcp"@ && n != "/mcps"@ && n != "/index"@,
        n != "/search"@ && n != "/revert"@ && n != "/resume"@ && n != "/history"@ && n != "/cat"@,
        n != "/view"@ && n != "/open"@ && n != "/edit"@ && n != "/diff-mode"@ && n != "/ls"@,
        n != "/cd"@ && n != "/pwd"@ && n != "/skill"@ && n != "/skills"@ && n != "/tiers"@,
        n != "/subagents"@ && n != "/config"@ && n != "/settings"@ && n != "/preflight"@,
        n != "/export"@,
{
}

// ── What commands leave behind ──────────────────────────────────────────────

/// The engine with other settings.
pub open spec fn configured(e: EngineView, cfg: config::ConfigView) -> EngineView {
    EngineView { cfg, ..e }
}

/// The engine after `/permissions`.
pub open spec fn after_permissions(e: EngineView, c: CommandView) -> EngineView {
    match switched(c, "skip"@, "require"@) {
        Some(b) => configured(e, config::ConfigView { skip_permissions: b, ..e.cfg }),
        None => e,
    }
}

/// The engine after `/clean-env`.
pub open spec fn after_clean_env(e: EngineView, c: CommandView) -> EngineView {
    match switched(c, "on"@, "off"@) {
        Some(b) => configured(e, config::ConfigView { clean_env: b, ..e.cfg }),
        None => e,
    }
}

/// The engine after `/thinking`.
pub open spec fn after_thinking(e: EngineView, c: CommandView) -> EngineView {
    match switched(c, "on"@, "off"@) {
        Some(b) => configured(e, config::ConfigView { thinking: b, ..e.cfg }),
        None => e,
    }
}

/// The engine after `/subagents`.
pub open spec fn after_subagents(e: EngineView, c: CommandView) -> EngineView {
    match switched(c, "on"@, "off"@) {
        Some(b) => configured(e, config::ConfigView { skill_subagents: b, ..e.cfg }),
        None => e,
    }
}

/// The engine after `/checkpoints`, which are to be had only with git.
pub open spec fn after_checkpoints(e: EngineView, c: CommandView, git: bool) -> EngineView {
    match switched(c, "on"@, "off"@) {
        Some(b) => if b && !git {
            e
        } else {
            configured(e, config::ConfigView { checkpoints: b, ..e.cfg })
        },
        None => e,
    }
}

/// The engine after `/tiers`.
pub open spec fn after_tiers(
    e: EngineView,
    c: CommandView,
    standard: config::ModelTiersView,
) -> EngineView {
    match switched(c, "on"@, "off"@) {
        Some(b) => configured(
            e,
            config::ConfigView {
                model_tiers: match e.cfg.model_tiers {
                    Some(t) => Some(tiers_set(t, b)),
                    None => if b {
                        Some(tiers_set(standard, true))
                    } else {
                        None
                    },
                },
                ..e.cfg
            },
        ),
        None => e,
    }
}

/// The engine after `/clear`.
pub open spec fn after_clear(e: EngineView) -> EngineView {
    EngineView {
        history: Seq::empty(),
        attachments: Seq::empty(),
        image_attachments: Seq::empty(),
        ..e
    }
}

/// The engine after `/system`.
pub open spec fn after_system(e: EngineView, c: CommandView) -> EngineView {
    if c.rest.len() == 0 {
        e
    } else {
        EngineView {
            cfg: config::ConfigView { system_prompt: c.rest, ..e.cfg },
            own: config::OwnSettingsView { system_prompt: c.rest, ..e.own },
            ..e
        }
    }
}

/// The engine after `/tokens`.
pub open spec fn after_tokens(e: EngineView, c: CommandView) -> EngineView {
    match word(c, 0) {
        Some(w) => match settings::positive(w) {
            Some(n) => configured(e, config::ConfigView { max_tokens: n, ..e.cfg }),
            None => e,
        },
        None => e,
    }
}

/// The engine after `/budget`.
pub open spec fn after_budget(e: EngineView, c: CommandView) -> EngineView {
    match word(c, 0) {
        Some(w) => match settings::positive(w) {
            Some(n) => EngineView {
                token_budget: n,
                cfg: config::ConfigView { token_budget: n, ..e.cfg },
                ..e
            },
            None => e,
        },
        None => e,
    }
}

/// The engine after `/allow`.
pub open spec fn after_allow(e: EngineView, c: CommandView) -> EngineView {
    if c.args.len() == 0 {
        e
    } else {
        EngineView {
            allowed_commands: e.allowed_commands.push(c.rest),
            cfg: config::ConfigView {
                allowed_commands: e.allowed_commands.push(c.rest),
                ..e.cfg
            },
            own: config::OwnSettingsView {
                allowed_commands: e.own.allowed_commands.push(c.rest),
                ..e.own
            },
            ..e
        }
    }
}

/// The engine after `/verify`.
pub open spec fn after_verify(e: EngineView, c: CommandView) -> EngineView {
    if c.rest.len() == 0 {
        e
    } else {
        let v = if c.rest == "off"@ || c.rest == "none"@ {
            None
        } else {
            Some(c.rest)
        };
        EngineView {
            cfg: config::ConfigView { verify_command: v, ..e.cfg },
            own: config::OwnSettingsView { verify_command: v, ..e.own },
            ..e
        }
    }
}

/// The engine after `/sandbox`.
pub open spec fn after_sandbox(e: EngineView, c: CommandView, f: SandboxFacts) -> EngineView {
    match sandbox_word(c, f) {
        Some(Ok(m)) => EngineView {
            cfg: config::ConfigView { sandbox_mode: m, ..e.cfg },
            own: config::OwnSettingsView { sandbox_mode: m, ..e.own },
            ..e
        },
        _ => e,
    }
}

/// The engine after `/ast`.
pub open spec fn after_ast(e: EngineView, c: CommandView) -> EngineView {
    match word(c, 0) {
        Some(w) => match config::ast_mode_named(w) {
            Some(m) => EngineView {
                ast_mode: m,
                cfg: config::ConfigView { ast_mode: m, ..e.cfg },
                ..e
            },
            None => e,
        },
        None => e,
    }
}

/// The engine after `/color`.
pub open spec fn after_color(e: EngineView, c: CommandView, rgb: Option<[u8; 3]>) -> EngineView {
    match word(c, 0) {
        Some(w) => if w == "off"@ || w == "none"@ || w == "default"@ {
            configured(
                e,
                config::ConfigView {
                    status_colors: config::without_color(e.cfg.status_colors, e.work_dir),
                    ..e.cfg
                },
            )
        } else {
            match rgb {
                Some(rgb) => configured(
                    e,
                    config::ConfigView {
                        status_colors: config::with_color(e.cfg.status_colors, e.work_dir, rgb),
                        ..e.cfg
                    },
                ),
                None => e,
            }
        },
        None => e,
    }
}

/// The engine after `/theme`.
pub open spec fn after_theme(e: EngineView, c: CommandView, known: bool) -> EngineView {
    match word(c, 0) {
        Some(w) => if w == "light"@ || w == "dark"@ || known {
            configured(e, config::ConfigView { theme: w, ..e.cfg })
        } else {
            e
        },
        None => e,
    }
}

/// A command with one word behind its name.
pub open spec fn with_word(c: CommandView, w: Seq<char>) -> CommandView {
    CommandView { args: seq![w], rest: w, ..c }
}

/// A command with nothing behind its name.
pub open spec fn alone(c: CommandView) -> CommandView {
    CommandView { args: Seq::empty(), rest: Seq::empty(), ..c }
}

/// A switch turns its own setting on and off and no other's, and by itself it
/// changes nothing. Checkpoints are not turned on without git.
pub proof fn law_switches(e: EngineView, c: CommandView, git: bool, t: config::ModelTiersView)
    ensures
        after_permissions(e, with_word(c, "skip"@)).cfg.skip_permissions,
        !after_permissions(e, with_word(c, "require"@)).cfg.skip_permissions,
        after_permissions(e, alone(c)) == e,
        after_clean_env(e, with_word(c, "on"@)).cfg.clean_env,
        !after_clean_env(e, with_word(c, "off"@)).cfg.clean_env,
        after_clean_env(e, alone(c)) == e,
        after_thinking(e, with_word(c, "on"@)).cfg.thinking,
        !after_thinking(e, with_word(c, "off"@)).cfg.thinking,
        after_thinking(e, with_word(c, "on"@)).cfg.skip_permissions == e.cfg.skip_permissions,
        after_subagents(e, with_word(c, "on"@)).cfg.skill_subagents,
        !after_subagents(e, with_word(c, "off"@)).cfg.skill_subagents,
        after_checkpoints(e, with_word(c, "on"@), true).cfg.checkpoints,
        after_checkpoints(e, with_word(c, "on"@), false) == e,
        !after_checkpoints(e, with_word(c, "off"@), git).cfg.checkpoints,
        after_tiers(e, with_word(c, "on"@), t).cfg.model_tiers is Some,
        (after_tiers(e, with_word(c, "on"@), t).cfg.model_tiers->0).enabled,
        after_tiers(e, with_word(c, "off"@), t).cfg.model_tiers matches Some(x) ==> !x.enabled,
        after_tiers(e, with_word(c, "off"@), t).cfg.model_tiers is Some
            <==> e.cfg.model_tiers is Some,
        after_tiers(e, alone(c), t) == e,
{
    reveal_strlit("skip");
    reveal_strlit("require");
    reveal_strlit("on");
    reveal_strlit("off");
    assert("skip"@.len() == 4 && "require"@.len() == 7 && "on"@.len() == 2 && "off"@.len() == 3);
}

/// A number sets its limit; zero, and no word, leave it.
pub proof fn law_limits_are_set(e: EngineView, c: CommandView, n: nat)
    ensures
        0 < n <= usize::MAX ==> after_tokens(
            e,
            with_word(c, number::decimal(n)),
        ).cfg.max_tokens == n,
        0 < n <= usize::MAX ==> after_budget(
            e,
            with_word(c, number::decimal(n)),
        ).token_budget == n && after_budget(
            e,
            with_word(c, number::decimal(n)),
        ).cfg.token_budget == n,
        n == 0 ==> after_tokens(e, with_word(c, number::decimal(n))) == e && after_budget(
            e,
            with_word(c, number::decimal(n)),
        ) == e,
        after_tokens(e, with_word(c, number::decimal(n))).token_budget == e.token_budget,
        after_tokens(e, alone(c)) == e,
        after_budget(e, alone(c)) == e,
{
    settings::law_positive(n);
}

/// Instructions, allowed commands and the check after edits are set by the words
/// behind the command, for the session and for good; the words `off` and `none` end
/// the check, and by itself each changes nothing.
pub proof fn law_words_are_set(e: EngineView, c: CommandView, w: Seq<char>, x: Seq<char>)
    requires
        w.len() > 0,
    ensures
        after_system(e, with_word(c, w)).cfg.system_prompt == w,
        after_system(e, with_word(c, w)).own.system_prompt == w,
        after_system(e, alone(c)) == e,
        after_allow(e, with_word(c, w)).allowed_commands.contains(w),
        after_allow(e, with_word(c, w)).own.allowed_commands.contains(w),
        e.allowed_commands.contains(x) ==> after_allow(
            e,
            with_word(c, w),
        ).allowed_commands.contains(x),
        after_allow(e, alone(c)) == e,
        w != "off"@ && w != "none"@ ==> after_verify(e, with_word(c, w)).cfg.verify_command
            == Some(w) && after_verify(e, with_word(c, w)).own.verify_command == Some(w),
        after_verify(e, alone(c)) == e,
        after_verify(e, with_word(c, "off"@)).cfg.verify_command is None,
        after_verify(e, with_word(c, "none"@)).cfg.verify_command is None,
{
    reveal_strlit("off");
    reveal_strlit("none");
    assert("off"@.len() == 3 && "none"@.len() == 4);
    let a = after_allow(e, with_word(c, w));
    assert(a.allowed_commands[e.allowed_commands.len() as int] == w);
    assert(a.own.allowed_commands[e.own.allowed_commands.len() as int] == w);
    if e.allowed_commands.contains(x) {
        let k = choose|k: int| 0 <= k < e.allowed_commands.len() && e.allowed_commands[k] == x;
        assert(a.allowed_commands[k] == x);
    }
}

/// A cleared chat has no messages and nothing attached, and keeps its settings.
pub proof fn law_clear(e: EngineView)
    ensures
        after_clear(e).history.len() == 0,
        after_clear(e).attachments.len() == 0,
        after_clear(e).image_attachments.len() == 0,
        after_clear(e).cfg == e.cfg,
        after_clear(after_clear(e)) == after_clear(e),
{
}

/// The mode for trees is named by its label, the theme by its name where it is known,
/// and the color is that of the directory; an unknown word changes nothing.
pub proof fn law_looks_are_set(
    e: EngineView,
    c: CommandView,
    m: AstMode,
    w: Seq<char>,
    rgb: [u8; 3],
)
    requires
        w != "off"@ && w != "none"@ && w != "default"@,
    ensures
        after_ast(e, with_word(c, config::ast_label(m))).ast_mode == m,
        after_ast(e, with_word(c, config::ast_label(m))).cfg.ast_mode == m,
        config::ast_mode_named(w) is None ==> after_ast(e, with_word(c, w)) == e,
        after_theme(e, with_word(c, w), true).cfg.theme == w,
        after_theme(e, with_word(c, "light"@), false).cfg.theme == "light"@,
        after_theme(e, with_word(c, "dark"@), false).cfg.theme == "dark"@,
        w != "light"@ && w != "dark"@ ==> after_theme(e, with_word(c, w), false) == e,
        config::color_of(
            after_color(e, with_word(c, w), Some(rgb)).cfg.status_colors,
            e.work_dir,
        ) == Some(rgb),
        config::color_of(
            after_color(e, with_word(c, "off"@), Some(rgb)).cfg.status_colors,
            e.work_dir,
        ) is None,
        after_color(e, with_word(c, w), None) == e,
{
    config::law_labels(m, w);
    config::law_color(e.cfg.status_colors, e.work_dir, rgb, e.work_dir);
}

/// A sandbox is in force in the session and kept for good, where its program was
/// found.
pub proof fn law_sandbox_is_kept(e: EngineView, c: CommandView, f: SandboxFacts)
    ensures
        after_sandbox(e, with_word(c, "off"@), f).cfg.sandbox_mode == SandboxMode::Off,
        after_sandbox(e, with_word(c, "off"@), f).own.sandbox_mode == SandboxMode::Off,
        after_sandbox(e, with_word(c, "permissive"@), f).cfg.sandbox_mode
            == SandboxMode::Permissive,
        f.docker_found ==> after_sandbox(e, with_word(c, "docker"@), f).own.sandbox_mode
            == SandboxMode::Docker,
        !f.docker_found ==> after_sandbox(e, with_word(c, "docker"@), f) == e,
        f.mxc_found ==> after_sandbox(e, with_word(c, "mxc"@), f).own.sandbox_mode
            == SandboxMode::Mxc,
        !f.mxc_found ==> after_sandbox(e, with_word(c, "mxc"@), f) == e,
        after_sandbox(e, alone(c), f) == e,
{
    law_sandbox_asked(with_word(c, "off"@), "off"@, f);
    law_sandbox_asked(with_word(c, "permissive"@), "permissive"@, f);
    law_sandbox_asked(with_word(c, "docker"@), "docker"@, f);
    law_sandbox_asked(with_word(c, "mxc"@), "mxc"@, f);
}

/// What is set is shown as it is: the instructions, the check after edits and the
/// limit of tokens.
pub proof fn law_settings_are_shown(e: EngineView, cmd: Seq<char>, r: Report)
    ensures
        e.cfg.system_prompt.len() > 0 ==> e.cfg.system_prompt.is_suffix_of(system_shown(e)),
        e.cfg.verify_command == Some(cmd) ==> text::occurs(verify_shown(e), cmd),
        text::occurs(tokens_shown(e, r), number::decimal(e.cfg.max_tokens as nat)),
        budget::report_text(split::views(r.components@), r.total as nat).is_suffix_of(
            tokens_shown(e, r),
        ),
        on_off(true) == "on"@,
        on_off(false) == "off"@,
{
    let s = system_shown(e);
    let p = e.cfg.system_prompt;
    if p.len() > 0 {
        assert(s.subrange(s.len() - p.len(), s.len() as int) =~= p);
    }
    text::law_occurs_in_middle("Verify command: "@, cmd, "  (use /verify off to clear)"@);
    let d = number::decimal(e.cfg.max_tokens as nat);
    let t = budget::report_text(split::views(r.components@), r.total as nat);
    let mid = "  (use /tokens <n> to change)\n\nBase prompt injection (target ~"@
        + number::decimal(budget::WARN_THRESHOLD as nat) + "t, warning only):\n"@ + t;
    let k = tokens_shown(e, r);
    assert(k =~= "Max output tokens: "@ + d + mid);
    text::law_occurs_in_middle("Max output tokens: "@, d, mid);
    assert(k.subrange(k.len() - t.len(), k.len() as int) =~= t);
}

/// The tiers are shown with their models: the one for easy tasks with the limit, then
/// the one for harder tasks, and last the one that rates.
pub proof fn law_tiers_are_shown(t: config::ModelTiersView)
    ensures
        t.enabled ==> tiers_text(Some(t)) == "enabled\n  default (≤"@ + number::decimal(
            t.default_max_difficulty as nat,
        ) + "): "@ + t.default.provider + " / "@ + t.default.model + "\n  complex (>"@
            + number::decimal(t.default_max_difficulty as nat) + "): "@ + t.complex.provider
            + " / "@ + t.complex.model + "\n  rater: "@ + t.rater.provider + " / "@
            + t.rater.model,
        !t.enabled ==> tiers_text(Some(t)) == "disabled"@,
        tiers_text(None) != "disabled"@,
{
    reveal_strlit("disabled");
    reveal_strlit("not configured (use /tiers on to enable)");
    assert("disabled"@[0] == 'd');
    if t.enabled {
        let n = number::decimal(t.default_max_difficulty as nat);
        lemma_two_parts(
            "enabled\n  default (≤"@ + n + "): "@ + t.default.provider + " / "@ + t.default.model
                + "\n  complex (>"@,
            n,
            "): "@,
            t.complex.provider,
            " / "@,
            t.complex.model,
            "\n  rater: "@,
            t.rater.provider,
            t.rater.model,
        );
    }
}

proof fn lemma_two_parts(
    a: Seq<char>,
    n: Seq<char>,
    b: Seq<char>,
    c: Seq<char>,
    d: Seq<char>,
    e: Seq<char>,
    f: Seq<char>,
    g: Seq<char>,
    h: Seq<char>,
)
    ensures
        a + (n + b + c + d + e + f + (g + d + h)) == a + n + b + c + d + e + f + g + d + h,
{
    assert(a + (n + b + c + d + e + f + (g + d + h)) =~= a + n + b + c + d + e + f + g + d + h);
}

} // verus!
