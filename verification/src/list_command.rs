//! The commands on skills, tools, servers and the user's own commands.

use crate::command::{self, Command, CommandView};
use crate::engine::{
    self, list_commands, list_skills, CommandKind, Engine, EngineView, McpTool, McpToolView,
    SkillInfo, SkillInfoView, UserCommand, UserCommandView,
};
use crate::message::MessageView;
use crate::number::{self, pad, show};
use crate::outbox::{self, EffectView, Outbox};
use crate::settings::listed_in;
use crate::split::{self, join, replace_all};
use crate::text::{
    self, cat2, cat3, cat4, cat5, cat7, chars_of, empty, same, starts_str, string_of, trim_left,
    trim_str, CharClass,
};
use crate::tools::{self, find_skill};
use crate::turn::ToolOutcome;
use crate::ui::{Named, NamedView, UiUpdate, UiUpdateView};
use vstd::prelude::*;

verus! {

broadcast use {split::lemma_texts_push, split::lemma_views_push};

// ── What is asked ───────────────────────────────────────────────────────────

/// What a command on a list is asked to do.
pub enum ListAsk {
    List,
    /// Make one with this name.
    Create(String),
    Reload,
    Run,
    Migrate,
    Suggest,
    /// Something that it cannot do.
    Unknown,
}

/// The model of what a command on a list is asked to do.
#[verifier::ext_equal]
pub enum ListAskView {
    List,
    Create(Seq<char>),
    Reload,
    Run,
    Migrate,
    Suggest,
    Unknown,
}

impl View for ListAsk {
    type V = ListAskView;

    open spec fn view(&self) -> ListAskView {
        match self {
            ListAsk::List => ListAskView::List,
            ListAsk::Create(s) => ListAskView::Create(s@),
            ListAsk::Reload => ListAskView::Reload,
            ListAsk::Run => ListAskView::Run,
            ListAsk::Migrate => ListAskView::Migrate,
            ListAsk::Suggest => ListAskView::Suggest,
            ListAsk::Unknown => ListAskView::Unknown,
        }
    }
}

/// What a command on a list is asked to do; without a word, to list. `standard`
/// is the name of one that is made without a name; the last three are for
/// skills alone.
pub open spec fn list_asked(c: CommandView, standard: Seq<char>, skills: bool) -> ListAskView {
    let sub = match command::word(c, 0) {
        Some(w) => w,
        None => "list"@,
    };
    if sub == "list"@ || sub == "ls"@ {
        ListAskView::List
    } else if sub == "new"@ || sub == "create"@ {
        ListAskView::Create(
            match command::word(c, 1) {
                Some(n) => n,
                None => standard,
            },
        )
    } else if sub == "reload"@ {
        ListAskView::Reload
    } else if skills && (sub == "run"@ || sub == "r"@) {
        ListAskView::Run
    } else if skills && sub == "migrate"@ {
        ListAskView::Migrate
    } else if skills && sub == "suggest"@ {
        ListAskView::Suggest
    } else {
        ListAskView::Unknown
    }
}

/// What a command on a list is asked to do.
pub fn ask_list(c: &Command, standard: &str, skills: bool) -> (r: ListAsk)
    ensures
        r@ == list_asked(c@, standard@, skills),
{
    let sub = match c.word(0) {
        Some(w) => w,
        None => "list",
    };
    if same(sub, "list") || same(sub, "ls") {
        ListAsk::List
    } else if same(sub, "new") || same(sub, "create") {
        match c.word(1) {
            Some(n) => ListAsk::Create(n.to_string()),
            None => ListAsk::Create(standard.to_string()),
        }
    } else if same(sub, "reload") {
        ListAsk::Reload
    } else if skills && (same(sub, "run") || same(sub, "r")) {
        ListAsk::Run
    } else if skills && same(sub, "migrate") {
        ListAsk::Migrate
    } else if skills && same(sub, "suggest") {
        ListAsk::Suggest
    } else {
        ListAsk::Unknown
    }
}

// ── The user's commands ─────────────────────────────────────────────────────

/// The line of a command of the user.
pub open spec fn command_line(c: UserCommandView) -> Seq<char> {
    "  /"@ + c.name + number::padded(
        if c.args.len() == 0 {
            Seq::empty()
        } else {
            " "@ + c.args
        },
        20,
    ) + " — "@ + c.description
}

/// The lines of the user's commands.
pub open spec fn command_lines(cs: Seq<UserCommandView>) -> Seq<Seq<char>> {
    cs.map_values(|c: UserCommandView| command_line(c))
}

/// The template of a command of the user.
pub open spec fn command_template(name: Seq<char>) -> UserCommandView {
    UserCommandView {
        name,
        description: "Describe what this command does"@,
        args: "[optional-args]"@,
        kind: CommandKind::Shell,
        command: "echo {args}"@,
        template: Seq::empty(),
    }
}

/// The template of a command of the user.
pub fn new_command(name: &str) -> (r: UserCommand)
    ensures
        r@ == command_template(name@),
{
    UserCommand {
        name: name.to_string(),
        description: "Describe what this command does".to_string(),
        args: "[optional-args]".to_string(),
        kind: CommandKind::Shell,
        command: "echo {args}".to_string(),
        template: empty(),
    }
}

fn show_commands(cs: &Vec<UserCommand>) -> (r: String)
    ensures
        r@ == split::joined(command_lines(split::views(cs@)), "\n"@),
{
    let ghost all = command_lines(split::views(cs@));
    let mut lines: Vec<String> = Vec::new();
    let mut i: usize = 0;
    while i < cs.len()
        invariant
            i <= cs@.len(),
            all == command_lines(split::views(cs@)),
            split::texts(lines@) =~= all.take(i as int),
        decreases cs@.len() - i,
    {
        let c = &cs[i];
        let hint = if c.args.as_str().is_empty() {
            empty()
        } else {
            cat2(" ", c.args.as_str())
        };
        let p = pad(hint.as_str(), 20);
        lines.push(
            cat5("  /", c.name.as_str(), p.as_str(), " — ", c.description.as_str()),
        );
        assert(all[i as int] == lines@.last()@);
        i += 1;
    }
    assert(all.take(i as int) =~= all);
    join(&lines, "\n")
}

impl Engine {
    /// /command list
    pub fn commands_shown(&self, out: &mut Outbox)
        ensures
            final(out)@ == old(out)@.push(
                outbox::says(
                    if self@.user_commands.len() == 0 {
                        "No user commands. Add TOML files to ~/.marlin/commands/"@
                    } else {
                        "User commands ("@ + number::decimal(self@.user_commands.len())
                            + "):\n"@ + split::joined(
                            command_lines(self@.user_commands),
                            "\n"@,
                        )
                    },
                ),
            ),
    {
        assert(split::views(self.user_commands@).len() == self.user_commands@.len());
        if self.user_commands.len() == 0 {
            out.say("No user commands. Add TOML files to ~/.marlin/commands/");
        } else {
            let n = show(self.user_commands.len());
            let l = show_commands(&self.user_commands);
            out.sys(cat4("User commands (", n.as_str(), "):\n", l.as_str()));
        }
    }

    /// /command new: what saving the template came to, with its path, and the
    /// commands that there are then.
    pub fn command_created(
        &mut self,
        res: &Result<String, String>,
        now: Vec<UserCommand>,
        out: &mut Outbox,
    )
        ensures
            match res {
                Ok(p) => final(self)@ == (EngineView {
                    user_commands: split::views(now@),
                    ..old(self)@
                }) && final(out)@ == old(out)@.push(
                    outbox::says(
                        "Command template created:\n  "@ + p@
                            + "\n\nEdit it, then /command reload to activate."@,
                    ),
                ),
                Err(e) => final(self)@ == old(self)@ && final(out)@ == old(out)@.push(
                    outbox::warns("Failed to create command: "@ + e@),
                ),
            },
    {
        match res {
            Ok(p) => {
                out.sys(
                    cat3(
                        "Command template created:\n  ",
                        p.as_str(),
                        "\n\nEdit it, then /command reload to activate.",
                    ),
                );
                self.user_commands = now;
            },
            Err(e) => out.err(cat2("Failed to create command: ", e.as_str())),
        }
    }

    /// /command reload
    pub fn commands_reloaded(&mut self, now: Vec<UserCommand>, out: &mut Outbox)
        ensures
            final(self)@ == (EngineView { user_commands: split::views(now@), ..old(self)@ }),
            final(out)@ == old(out)@.push(
                EffectView::Send(
                    UiUpdateView::UserCommandsLoaded(engine::command_defs(split::views(now@))),
                ),
            ).push(
                outbox::says("Reloaded "@ + number::decimal(now@.len()) + " user command(s)."@),
            ),
    {
        let defs = list_commands(&now);
        out.send(UiUpdate::UserCommandsLoaded(defs));
        let n = show(now.len());
        out.sys(cat3("Reloaded ", n.as_str(), " user command(s)."));
        self.user_commands = now;
    }

    /// /command, /tool, /mcp or /skill with something that it does not know.
    pub fn list_usage(&self, c: &Command, out: &mut Outbox)
        ensures
            final(out)@ == old(out)@.push(
                outbox::says(
                    if command::kind_named(c@.name) == command::Kind::UserCommands {
                        "Usage: /command [list|new <name>|reload]"@
                    } else if command::kind_named(c@.name) == command::Kind::Tools {
                        "Usage: /tool [list|new <name>|reload]"@
                    } else if command::kind_named(c@.name) == command::Kind::Mcp {
                        "Usage: /mcp [list|new <name> <command> [args...]|reload]"@
                    } else {
                        "Usage: /skill [list|run <name> [query]|new <name>|suggest|reload|migrate]"@
                    },
                ),
            ),
    {
        let k = command::kind_of(c.name.as_str());
        if k == command::Kind::UserCommands {
            out.say("Usage: /command [list|new <name>|reload]");
        } else if k == command::Kind::Tools {
            out.say("Usage: /tool [list|new <name>|reload]");
        } else if k == command::Kind::Mcp {
            out.say("Usage: /mcp [list|new <name> <command> [args...]|reload]");
        } else {
            out.say(
                "Usage: /skill [list|run <name> [query]|new <name>|suggest|reload|migrate]",
            );
        }
    }
}

// ── Tools ───────────────────────────────────────────────────────────────────

/// The line of a tool of the user, or of a skill, its name `w` wide.
pub open spec fn named_line(n: NamedView, w: nat) -> Seq<char> {
    "  "@ + number::padded(n.name, w) + " — "@ + n.description
}

/// The lines of some named things.
pub open spec fn named_lines(ns: Seq<NamedView>, w: nat) -> Seq<Seq<char>> {
    ns.map_values(|n: NamedView| named_line(n, w))
}

fn show_named(ns: &Vec<Named>, w: usize) -> (r: String)
    ensures
        r@ == split::joined(named_lines(split::views(ns@), w as nat), "\n"@),
{
    let ghost all = named_lines(split::views(ns@), w as nat);
    let mut lines: Vec<String> = Vec::new();
    let mut i: usize = 0;
    while i < ns.len()
        invariant
            i <= ns@.len(),
            all == named_lines(split::views(ns@), w as nat),
            split::texts(lines@) =~= all.take(i as int),
        decreases ns@.len() - i,
    {
        let n = &ns[i];
        let p = pad(n.name.as_str(), w);
        lines.push(cat4("  ", p.as_str(), " — ", n.description.as_str()));
        assert(all[i as int] == lines@.last()@);
        i += 1;
    }
    assert(all.take(i as int) =~= all);
    join(&lines, "\n")
}

impl Engine {
    /// /tool list
    pub fn tools_shown(&self, out: &mut Outbox)
        ensures
            final(out)@ == old(out)@.push(
                outbox::says(
                    if self@.external_tools.len() == 0 {
                        "No user tools. Add TOML files to ~/.marlin/tools/"@
                    } else {
                        "User tools ("@ + number::decimal(self@.external_tools.len()) + "):\n"@
                            + split::joined(named_lines(self@.external_tools, 24), "\n"@)
                    },
                ),
            ),
    {
        assert(split::views(self.external_tools@).len() == self.external_tools@.len());
        if self.external_tools.len() == 0 {
            out.say("No user tools. Add TOML files to ~/.marlin/tools/");
        } else {
            let n = show(self.external_tools.len());
            let l = show_named(&self.external_tools, 24);
            out.sys(cat4("User tools (", n.as_str(), "):\n", l.as_str()));
        }
    }

    /// /tool new: what saving the template came to, with its path, and the
    /// tools that there are then.
    pub fn tool_created(
        &mut self,
        res: &Result<String, String>,
        now: Vec<Named>,
        out: &mut Outbox,
    )
        ensures
            match res {
                Ok(p) => final(self)@ == (EngineView {
                    external_tools: split::views(now@),
                    ..old(self)@
                }) && final(out)@ == old(out)@.push(
                    outbox::says(
                        "Tool template created:\n  "@ + p@
                            + "\n\nEdit it, then /tool reload to activate."@,
                    ),
                ),
                Err(e) => final(self)@ == old(self)@ && final(out)@ == old(out)@.push(
                    outbox::warns("Failed to create tool: "@ + e@),
                ),
            },
    {
        match res {
            Ok(p) => {
                out.sys(
                    cat3(
                        "Tool template created:\n  ",
                        p.as_str(),
                        "\n\nEdit it, then /tool reload to activate.",
                    ),
                );
                self.external_tools = now;
            },
            Err(e) => out.err(cat2("Failed to create tool: ", e.as_str())),
        }
    }

    /// /tool reload
    pub fn tools_reloaded(&mut self, now: Vec<Named>, out: &mut Outbox)
        ensures
            final(self)@ == (EngineView { external_tools: split::views(now@), ..old(self)@ }),
            final(out)@ == old(out)@.push(
                outbox::says("Reloaded "@ + number::decimal(now@.len()) + " user tool(s)."@),
            ),
    {
        let n = show(now.len());
        out.sys(cat3("Reloaded ", n.as_str(), " user tool(s)."));
        self.external_tools = now;
    }
}

// ── Servers ─────────────────────────────────────────────────────────────────

/// The names of a server's tools.
pub open spec fn tools_at(ts: Seq<McpToolView>, server: Seq<char>) -> Seq<Seq<char>>
    decreases ts.len(),
{
    if ts.len() == 0 {
        Seq::empty()
    } else if ts.last().server == server {
        tools_at(ts.drop_last(), server).push(ts.last().name)
    } else {
        tools_at(ts.drop_last(), server)
    }
}

/// The line of a server.
pub open spec fn server_line(e: EngineView, server: Seq<char>) -> Seq<char> {
    if e.mcp_connected.contains(server) {
        "  "@ + number::padded(server, 20) + " connected — "@ + split::joined(
            tools_at(e.mcp_tools, server),
            ", "@,
        )
    } else {
        "  "@ + number::padded(server, 20) + " not connected"@
    }
}

/// The lines of the servers.
pub open spec fn server_lines(e: EngineView) -> Seq<Seq<char>> {
    e.mcp_servers.map_values(|s: Seq<char>| server_line(e, s))
}

/// The words of a command from the one at `i` on.
pub open spec fn words_from(c: CommandView, i: int) -> Seq<Seq<char>> {
    if i <= c.args.len() {
        c.args.skip(i)
    } else {
        Seq::empty()
    }
}

/// A server to be configured: its name, command and arguments.
pub struct NewServer {
    pub name: String,
    pub command: String,
    pub args: Vec<String>,
}

fn collect_tools(ts: &Vec<McpTool>, server: &str) -> (r: Vec<String>)
    ensures
        split::texts(r@) == tools_at(split::views(ts@), server@),
{
    let ghost all = split::views(ts@);
    let mut out: Vec<String> = Vec::new();
    let mut i: usize = 0;
    assert(split::texts(out@) =~= tools_at(all.take(0), server@));
    while i < ts.len()
        invariant
            i <= ts@.len(),
            all == split::views(ts@),
            split::texts(out@) == tools_at(all.take(i as int), server@),
        decreases ts@.len() - i,
    {
        assert(all[i as int] == ts@[i as int]@);
        assert(all.take(i + 1).drop_last() =~= all.take(i as int));
        if same(ts[i].server.as_str(), server) {
            out.push(ts[i].name.as_str().to_string());
        }
        i += 1;
    }
    assert(all.take(i as int) =~= all);
    out
}

/// The words of a command from the `i`th on.
pub fn collect_words(c: &Command, i: usize) -> (r: Vec<String>)
    ensures
        split::texts(r@) == words_from(c@, i as int),
{
    let ghost all = c@.args;
    assert(all.len() == c.args@.len());
    let mut out: Vec<String> = Vec::new();
    let mut k: usize = i;
    if i <= c.args.len() {
        assert(split::texts(out@) =~= all.subrange(i as int, i as int));
        while k < c.args.len()
            invariant
                i <= k <= c.args@.len(),
                all == split::texts(c.args@),
                split::texts(out@) == all.subrange(i as int, k as int),
            decreases c.args@.len() - k,
        {
            assert(all[k as int] == c.args@[k as int]@);
            out.push(c.args[k].as_str().to_string());
            assert(all.subrange(i as int, k + 1) =~= all.subrange(i as int, k as int).push(
                all[k as int],
            ));
            k += 1;
        }
        assert(all.subrange(i as int, k as int) =~= all.skip(i as int));
    } else {
        assert(split::texts(out@) =~= Seq::<Seq<char>>::empty());
    }
    out
}

impl Engine {
    /// /mcp list
    pub fn servers_shown(&self, out: &mut Outbox)
        ensures
            final(out)@ == old(out)@.push(
                outbox::says(
                    if self@.mcp_servers.len() == 0 {
                        "No MCP servers configured. Add JSON files to ~/.marlin/mcp/, or /mcp new <name> <command> [args...]."@
                    } else {
                        "MCP servers ("@ + number::decimal(self@.mcp_servers.len()) + "):\n"@
                            + split::joined(server_lines(self@), "\n"@)
                    },
                ),
            ),
    {
        assert(split::texts(self.mcp_servers@).len() == self.mcp_servers@.len());
        if self.mcp_servers.len() == 0 {
            out.say(
                "No MCP servers configured. Add JSON files to ~/.marlin/mcp/, or /mcp new <name> <command> [args...].",
            );
            return;
        }
        let ghost all = server_lines(self@);
        let mut lines: Vec<String> = Vec::new();
        let mut i: usize = 0;
        while i < self.mcp_servers.len()
            invariant
                i <= self.mcp_servers@.len(),
                all == server_lines(self@),
                split::texts(lines@) =~= all.take(i as int),
            decreases self.mcp_servers@.len() - i,
        {
            let s = self.mcp_servers[i].as_str();
            assert(split::texts(self.mcp_servers@)[i as int] == s@);
            let p = pad(s, 20);
            if listed_in(&self.mcp_connected, s) {
                let ts = collect_tools(&self.mcp_tools, s);
                let l = join(&ts, ", ");
                lines.push(cat4("  ", p.as_str(), " connected — ", l.as_str()));
            } else {
                lines.push(cat3("  ", p.as_str(), " not connected"));
            }
            assert(all[i as int] == lines@.last()@);
            i += 1;
        }
        assert(all.take(i as int) =~= all);
        let n = show(self.mcp_servers.len());
        let l = join(&lines, "\n");
        out.sys(cat4("MCP servers (", n.as_str(), "):\n", l.as_str()));
    }

    /// /mcp new: the server to be configured, if it is given a name and a
    /// command.
    pub fn new_server(&self, c: &Command, out: &mut Outbox) -> (r: Option<NewServer>)
        ensures
            match r {
                Some(s) => command::word(c@, 1) == Some(s.name@) && command::word(c@, 2) == Some(
                    s.command@,
                ) && split::texts(s.args@) == words_from(c@, 3) && final(out)@ == old(out)@,
                None => command::word(c@, 2) is None && final(out)@ == old(out)@.push(
                    outbox::says("Usage: /mcp new <name> <command> [args...]"@),
                ),
            },
    {
        match (c.word(1), c.word(2)) {
            (Some(n), Some(cmd)) => Some(
                NewServer {
                    name: n.to_string(),
                    command: cmd.to_string(),
                    args: collect_words(c, 3),
                },
            ),
            _ => {
                out.say("Usage: /mcp new <name> <command> [args...]");
                None
            },
        }
    }

    /// /mcp new: what saving the server came to, with its path, and the servers
    /// that there are then.
    pub fn server_created(
        &mut self,
        res: &Result<String, String>,
        now: Vec<String>,
        out: &mut Outbox,
    )
        ensures
            match res {
                Ok(p) => final(self)@ == (EngineView {
                    mcp_servers: split::texts(now@),
                    ..old(self)@
                }) && final(out)@ == old(out)@.push(
                    outbox::says(
                        "MCP server config created:\n  "@ + p@
                            + "\n\n/mcp reload to connect."@,
                    ),
                ),
                Err(e) => final(self)@ == old(self)@ && final(out)@ == old(out)@.push(
                    outbox::warns("Failed to create MCP server config: "@ + e@),
                ),
            },
    {
        match res {
            Ok(p) => {
                out.sys(
                    cat3(
                        "MCP server config created:\n  ",
                        p.as_str(),
                        "\n\n/mcp reload to connect.",
                    ),
                );
                self.mcp_servers = now;
            },
            Err(e) => out.err(cat2("Failed to create MCP server config: ", e.as_str())),
        }
    }

    /// /mcp reload: the servers that there are, before they are connected.
    pub fn servers_reloading(&mut self, now: Vec<String>)
        ensures
            final(self)@ == (EngineView { mcp_servers: split::texts(now@), ..old(self)@ }),
    {
        self.mcp_servers = now;
    }

    /// /mcp reload: how many servers are connected now.
    pub fn servers_reloaded(&self, out: &mut Outbox)
        ensures
            final(out)@ == old(out)@.push(
                outbox::says(
                    "Reconnected: "@ + number::decimal(self@.mcp_connected.len()) + "/"@
                        + number::decimal(self@.mcp_servers.len()) + " server(s), "@
                        + number::decimal(self@.mcp_tools.len()) + " tool(s) total."@,
                ),
            ),
    {
        assert(split::texts(self.mcp_connected@).len() == self.mcp_connected@.len());
        assert(split::texts(self.mcp_servers@).len() == self.mcp_servers@.len());
        assert(split::views(self.mcp_tools@).len() == self.mcp_tools@.len());
        let a = show(self.mcp_connected.len());
        let b = show(self.mcp_servers.len());
        let t = show(self.mcp_tools.len());
        out.sys(
            cat7(
                "Reconnected: ",
                a.as_str(),
                "/",
                b.as_str(),
                " server(s), ",
                t.as_str(),
                " tool(s) total.",
            ),
        );
    }
}

// ── Skills ──────────────────────────────────────────────────────────────────

/// The line of a skill.
pub open spec fn skill_line(s: SkillInfoView) -> Seq<char> {
    "  "@ + number::padded(s.name, 20) + " — "@ + s.description + (if s.toml {
        " [.toml, deprecated — /skill migrate]"@
    } else {
        Seq::empty()
    })
}

/// The lines of the skills.
pub open spec fn skill_lines(ss: Seq<SkillInfoView>) -> Seq<Seq<char>> {
    ss.map_values(|s: SkillInfoView| skill_line(s))
}

/// Some errors that the user is told of, one after the other.
pub open spec fn all_warned(s: Seq<EffectView>, es: Seq<Seq<char>>) -> Seq<EffectView> {
    s + es.map_values(|e: Seq<char>| outbox::warns(e))
}

/// The text of the last message of the user; empty if there is none.
pub open spec fn last_user_text(h: Seq<MessageView>) -> Seq<char>
    decreases h.len(),
{
    if h.len() == 0 {
        Seq::empty()
    } else if h.last().role == "user"@ {
        h.last().content
    } else {
        last_user_text(h.drop_last())
    }
}

fn warn_all(es: &Vec<String>, out: &mut Outbox)
    ensures
        final(out)@ == all_warned(old(out)@, split::texts(es@)),
{
    let ghost all = split::texts(es@).map_values(|e: Seq<char>| outbox::warns(e));
    let ghost start = out@;
    let mut i: usize = 0;
    assert(start + all.take(0) =~= start);
    while i < es.len()
        invariant
            i <= es@.len(),
            all == split::texts(es@).map_values(|e: Seq<char>| outbox::warns(e)),
            out@ == start + all.take(i as int),
        decreases es@.len() - i,
    {
        out.warn(es[i].as_str());
        assert(all[i as int] == outbox::warns(es@[i as int]@));
        assert(start + all.take(i + 1) =~= (start + all.take(i as int)).push(all[i as int]));
        i += 1;
    }
    assert(all.take(i as int) =~= all);
}

impl Engine {
    /// /skill list
    pub fn skills_shown(&self, out: &mut Outbox)
        ensures
            final(out)@ == old(out)@.push(
                outbox::says(
                    if self@.skills.len() == 0 {
                        "No skills installed. Add .qmd files to ~/.marlin/skills/"@
                    } else {
                        "Skills ("@ + number::decimal(self@.skills.len()) + "):\n"@
                            + split::joined(skill_lines(self@.skills), "\n"@)
                    },
                ),
            ),
    {
        assert(split::views(self.skills@).len() == self.skills@.len());
        if self.skills.len() == 0 {
            out.say("No skills installed. Add .qmd files to ~/.marlin/skills/");
            return;
        }
        let ghost all = skill_lines(self@.skills);
        let mut lines: Vec<String> = Vec::new();
        let mut i: usize = 0;
        while i < self.skills.len()
            invariant
                i <= self.skills@.len(),
                all == skill_lines(self@.skills),
                split::texts(lines@) =~= all.take(i as int),
            decreases self.skills@.len() - i,
        {
            let s = &self.skills[i];
            let p = pad(s.name.as_str(), 20);
            let tag = if s.toml {
                " [.toml, deprecated — /skill migrate]".to_string()
            } else {
                empty()
            };
            lines.push(
                cat5("  ", p.as_str(), " — ", s.description.as_str(), tag.as_str()),
            );
            assert(all[i as int] == lines@.last()@);
            i += 1;
        }
        assert(all.take(i as int) =~= all);
        let n = show(self.skills.len());
        let l = join(&lines, "\n");
        out.sys(cat4("Skills (", n.as_str(), "):\n", l.as_str()));
    }

    /// /skill new: what saving the template came to, with its path, and the
    /// skills that there are then, with the notes on them.
    pub fn skill_created(
        &mut self,
        res: &Result<String, String>,
        now: Vec<SkillInfo>,
        notes: &Vec<String>,
        out: &mut Outbox,
    )
        ensures
            match res {
                Ok(p) => final(self)@ == (EngineView {
                    skills: split::views(now@),
                    ..old(self)@
                }) && final(out)@ == all_warned(
                    old(out)@.push(
                        outbox::says(
                            "Skill template created:\n  "@ + p@
                                + "\n\nEdit the file to customise it, then /skill reload."@,
                        ),
                    ),
                    split::texts(notes@),
                ),
                Err(e) => final(self)@ == old(self)@ && final(out)@ == old(out)@.push(
                    outbox::warns("Failed to create skill: "@ + e@),
                ),
            },
    {
        match res {
            Ok(p) => {
                out.sys(
                    cat3(
                        "Skill template created:\n  ",
                        p.as_str(),
                        "\n\nEdit the file to customise it, then /skill reload.",
                    ),
                );
                warn_all(notes, out);
                self.skills = now;
            },
            Err(e) => out.err(cat2("Failed to create skill: ", e.as_str())),
        }
    }

    /// /skill migrate: how many skills were rewritten, and the skills that there
    /// are then, with the notes on them.
    pub fn skills_migrated(
        &mut self,
        res: &Result<usize, String>,
        now: Vec<SkillInfo>,
        notes: &Vec<String>,
        out: &mut Outbox,
    )
        ensures
            match res {
                Ok(n) => if *n == 0 {
                    final(self)@ == old(self)@ && final(out)@ == old(out)@.push(
                        outbox::says("No .toml skills to migrate."@),
                    )
                } else {
                    final(self)@ == (EngineView { skills: split::views(now@), ..old(self)@ })
                        && final(out)@ == all_warned(
                        old(out)@.push(
                            outbox::says(
                                "Migrated "@ + number::decimal(*n as nat)
                                    + " skill(s) to .qmd."@,
                            ),
                        ),
                        split::texts(notes@),
                    )
                },
                Err(e) => final(self)@ == old(self)@ && final(out)@ == old(out)@.push(
                    outbox::warns("Migration failed: "@ + e@),
                ),
            },
    {
        match res {
            Ok(n) => if *n == 0 {
                out.say("No .toml skills to migrate.");
            } else {
                let k = show(*n);
                out.sys(cat3("Migrated ", k.as_str(), " skill(s) to .qmd."));
                warn_all(notes, out);
                self.skills = now;
            },
            Err(e) => out.err(cat2("Migration failed: ", e.as_str())),
        }
    }

    /// /skill reload
    pub fn skills_reloaded(&mut self, now: Vec<SkillInfo>, notes: &Vec<String>, out: &mut Outbox)
        ensures
            final(self)@ == (EngineView { skills: split::views(now@), ..old(self)@ }),
            final(out)@ == all_warned(
                old(out)@.push(
                    EffectView::Send(
                        UiUpdateView::SkillsLoaded(engine::skill_defs(split::views(now@))),
                    ),
                ),
                split::texts(notes@),
            ).push(outbox::says("Reloaded "@ + number::decimal(now@.len()) + " skill(s)."@)),
    {
        let defs = list_skills(&now);
        out.send(UiUpdate::SkillsLoaded(defs));
        warn_all(notes, out);
        let n = show(now.len());
        out.sys(cat3("Reloaded ", n.as_str(), " skill(s)."));
        self.skills = now;
    }

    /// The text that skills are suggested for: the user's last message.
    pub fn suggestion_context(&self) -> (r: String)
        ensures
            r@ == last_user_text(self@.history),
    {
        let ghost all = split::views(self.history@);
        let mut i: usize = self.history.len();
        assert(all.take(i as int) =~= all);
        while i > 0
            invariant
                i <= self.history@.len(),
                all == split::views(self.history@),
                last_user_text(all) == last_user_text(all.take(i as int)),
            decreases i,
        {
            let m = &self.history[i - 1];
            assert(all[i - 1] == m@);
            assert(all.take(i as int).drop_last() =~= all.take(i - 1));
            if same(m.role.as_str(), "user") {
                return m.content.as_str().to_string();
            }
            i -= 1;
        }
        empty()
    }

    /// /skill suggest: the suggestions that were written down, if they were;
    /// else the skills that fit.
    pub fn suggestions_shown(
        &self,
        written: &Option<Result<String, String>>,
        fitting: &Vec<Named>,
        out: &mut Outbox,
    )
        ensures
            final(out)@ == old(out)@.push(
                match written {
                    Some(Ok(s)) => outbox::says(s@),
                    Some(Err(e)) => outbox::warns("Error reading suggestions: "@ + e@),
                    None => outbox::says(
                        if fitting@.len() == 0 {
                            "No skill suggestions yet. Nightly analysis runs after 20h of activity (requires model_tiers config)."@
                        } else {
                            "Suggested skills:\n"@ + split::joined(
                                named_lines(split::views(fitting@), 20),
                                "\n"@,
                            )
                        },
                    ),
                },
            ),
    {
        match written {
            Some(Ok(s)) => out.say(s.as_str()),
            Some(Err(e)) => out.err(cat2("Error reading suggestions: ", e.as_str())),
            None => if fitting.len() == 0 {
                out.say(
                    "No skill suggestions yet. Nightly analysis runs after 20h of activity (requires model_tiers config).",
                );
            } else {
                let l = show_named(fitting, 20);
                out.sys(cat2("Suggested skills:\n", l.as_str()));
            },
        }
    }
}

/// A skill that is to be run, and what it is asked.
pub struct SkillAsk {
    pub skill: usize,
    pub name: String,
    pub query: String,
}

/// The query of /skill run: the words behind the name, or else the goal.
pub open spec fn skill_query(e: EngineView, c: CommandView) -> Seq<char> {
    if c.args.len() > 2 {
        split::joined(c.args.skip(2), " "@)
    } else {
        e.active_goal
    }
}

/// The user is told that a skill runs.
pub open spec fn skill_running(name: Seq<char>, query: Seq<char>, tail: Seq<char>) -> EffectView {
    outbox::says("Running skill '"@ + name + "' with query: "@ + query + tail)
}

/// What a skill says, under its name.
pub open spec fn skill_says(name: Seq<char>, t: Seq<char>) -> Seq<char> {
    "[skill: "@ + name + "]\n"@ + t
}

impl Engine {
    /// /skill run: the skill that is to be run, if there is one of that name.
    pub fn skill_asked(&self, c: &Command, out: &mut Outbox) -> (r: Option<SkillAsk>)
        ensures
            match command::word(c@, 1) {
                None => r is None && final(out)@ == old(out)@.push(
                    outbox::says("Usage: /skill run <name> [query]"@),
                ),
                Some(n) => if tools::skill_at(self@.skills, n) < self@.skills.len() {
                    r matches Some(a) && a.skill == tools::skill_at(self@.skills, n) && a.name@
                        == n && a.query@ == skill_query(self@, c@) && final(out)@ == old(out)@
                } else {
                    r is None && final(out)@ == old(out)@.push(
                        outbox::warns("Unknown skill '"@ + n + "'.  Use /skill list."@),
                    )
                },
            },
    {
        assert(split::views(self.skills@).len() == self.skills@.len());
        assert(split::texts(c.args@).len() == c.args@.len());
        match c.word(1) {
            None => {
                out.say("Usage: /skill run <name> [query]");
                None
            },
            Some(n) => {
                let k = find_skill(&self.skills, n);
                if k < self.skills.len() {
                    let query = if c.args.len() > 2 {
                        let ws = collect_words(c, 2);
                        join(&ws, " ")
                    } else {
                        self.active_goal.as_str().to_string()
                    };
                    Some(SkillAsk { skill: k, name: n.to_string(), query })
                } else {
                    out.err(cat3("Unknown skill '", n, "'.  Use /skill list."));
                    None
                }
            },
        }
    }

    /// The user is told that a skill runs; `subagent` says whether a subagent
    /// runs it.
    pub fn skill_begins(&self, a: &SkillAsk, subagent: bool, out: &mut Outbox)
        ensures
            final(out)@ == old(out)@.push(
                skill_running(
                    a.name@,
                    a.query@,
                    if subagent {
                        " (subagent)"@
                    } else {
                        Seq::empty()
                    },
                ),
            ),
    {
        let tail = if subagent {
            " (subagent)".to_string()
        } else {
            empty()
        };
        out.sys(
            cat5(
                "Running skill '",
                a.name.as_str(),
                "' with query: ",
                a.query.as_str(),
                tail.as_str(),
            ),
        );
    }

    /// What a skill, or one of its commands, came to.
    pub fn skill_ended(&self, a: &SkillAsk, o: &ToolOutcome, out: &mut Outbox)
        ensures
            final(out)@ == old(out)@.push(
                if o.is_error {
                    outbox::warns(skill_says(a.name@, o@.output))
                } else {
                    outbox::says(skill_says(a.name@, o@.output))
                },
            ),
    {
        let t = cat4("[skill: ", a.name.as_str(), "]\n", o.output.as_str());
        if o.is_error {
            out.err(t);
        } else {
            out.sys(t);
        }
    }

    /// The user refused a command of a skill.
    pub fn skill_denied(&self, a: &SkillAsk, out: &mut Outbox)
        ensures
            final(out)@ == old(out)@.push(outbox::says("[skill: "@ + a.name@ + "] Denied."@)),
    {
        out.sys(cat3("[skill: ", a.name.as_str(), "] Denied."));
    }

    /// The text of a skill, for the user to send, or why there is none.
    pub fn skill_prompt(&self, a: &SkillAsk, res: &Result<String, String>, out: &mut Outbox)
        ensures
            final(out)@ == old(out)@.push(
                match res {
                    Ok(p) => outbox::says(
                        "[skill: "@ + a.name@
                            + "] Expanded prompt — copy and send to run:\n\n"@ + p@,
                    ),
                    Err(e) => outbox::warns("Skill error: "@ + e@),
                },
            ),
    {
        match res {
            Ok(p) => out.sys(
                cat4(
                    "[skill: ",
                    a.name.as_str(),
                    "] Expanded prompt — copy and send to run:\n\n",
                    p.as_str(),
                ),
            ),
            Err(e) => out.err(cat2("Skill error: ", e.as_str())),
        }
    }

    /// A skill without commands and without a text.
    pub fn skill_empty(&self, a: &SkillAsk, out: &mut Outbox)
        ensures
            final(out)@ == old(out)@.push(
                outbox::warns(
                    "skill '"@ + a.name@ + "' has neither a shell chunk nor a prompt body"@,
                ),
            ),
    {
        out.err(
            cat3("skill '", a.name.as_str(), "' has neither a shell chunk nor a prompt body"),
        );
    }
}

// ── Preflight ───────────────────────────────────────────────────────────────

/// Some notes under a heading that counts them.
pub open spec fn note_lines(what: Seq<char>, ns: Seq<Seq<char>>) -> Seq<Seq<char>> {
    seq![what + ": "@ + number::decimal(ns.len()) + " note(s)"@] + ns.map_values(
        |n: Seq<char>| "  "@ + n,
    )
}

/// The lines that /preflight shows of a scope.
pub open spec fn preflight_lines(
    scope: Seq<char>,
    startup: Seq<Seq<char>>,
    skills: Seq<Seq<char>>,
) -> Seq<Seq<char>> {
    (if scope == "startup"@ || scope == "all"@ {
        note_lines("startup"@, startup)
    } else {
        Seq::empty()
    }) + (if scope == "skills"@ || scope == "all"@ {
        note_lines("skills"@, skills)
    } else {
        Seq::empty()
    })
}

fn add_notes(lines: &mut Vec<String>, what: &str, ns: &Vec<String>)
    ensures
        split::texts(final(lines)@) == split::texts(old(lines)@) + note_lines(
            what@,
            split::texts(ns@),
        ),
{
    let ghost start = split::texts(lines@);
    let ghost all = note_lines(what@, split::texts(ns@));
    assert(split::texts(ns@).len() == ns@.len());
    let n = show(ns.len());
    lines.push(cat4(what, ": ", n.as_str(), " note(s)"));
    let mut i: usize = 0;
    assert(split::texts(lines@) =~= start + all.take(1));
    while i < ns.len()
        invariant
            i <= ns@.len(),
            all == note_lines(what@, split::texts(ns@)),
            split::texts(lines@) == start + all.take(i + 1),
        decreases ns@.len() - i,
    {
        lines.push(cat2("  ", ns[i].as_str()));
        assert(all[i + 1] == lines@.last()@);
        assert(start + all.take(i + 2) =~= (start + all.take(i + 1)).push(all[i + 1]));
        i += 1;
    }
    assert(all.take(i + 1) =~= all);
}

impl Engine {
    /// /preflight; the notes of the start and those on the skills.
    pub fn cmd_preflight(
        &self,
        c: &Command,
        startup: &Vec<String>,
        skills: &Vec<String>,
        out: &mut Outbox,
    )
        ensures
            ({
                let scope = match command::word(c@, 0) {
                    Some(w) => w,
                    None => "all"@,
                };
                let lines = preflight_lines(scope, split::texts(startup@), split::texts(skills@));
                final(out)@ == old(out)@.push(
                    outbox::says(
                        if lines.len() == 0 {
                            "preflight: no issues found."@
                        } else {
                            "preflight ["@ + scope + "]:\n"@ + split::joined(lines, "\n"@)
                        },
                    ),
                )
            }),
    {
        let scope = match c.word(0) {
            Some(w) => w,
            None => "all",
        };
        let mut lines: Vec<String> = Vec::new();
        assert(split::texts(lines@) =~= Seq::<Seq<char>>::empty());
        if same(scope, "startup") || same(scope, "all") {
            add_notes(&mut lines, "startup", startup);
        }
        if same(scope, "skills") || same(scope, "all") {
            add_notes(&mut lines, "skills", skills);
        }
        proof {
            assert(split::texts(lines@) =~= preflight_lines(
                scope@,
                split::texts(startup@),
                split::texts(skills@),
            ));
            assert(split::texts(lines@).len() == lines@.len());
        }
        if lines.len() == 0 {
            out.say("preflight: no issues found.");
        } else {
            let l = join(&lines, "\n");
            out.sys(cat4("preflight [", scope, "]:\n", l.as_str()));
        }
    }
}

// ── Running one of the user's commands ──────────────────────────────────────

/// The first command of the user with a name; their number if there is none.
pub open spec fn user_command_at(cs: Seq<UserCommandView>, name: Seq<char>) -> int
    decreases cs.len(),
{
    if cs.len() == 0 {
        0
    } else if cs[0].name == name {
        0
    } else {
        1 + user_command_at(cs.drop_first(), name)
    }
}

/// The name of a command without the slashes before it.
pub open spec fn bare_name(name: Seq<char>) -> Seq<char> {
    text::left_trimmed(name, text::among("/"@))
}

fn strip_slashes(name: &str) -> (r: String)
    ensures
        r@ == bare_name(name@),
{
    let v = chars_of(name);
    string_of(trim_left(v.as_slice(), CharClass::In("/")))
}

impl Engine {
    /// The command of the user that was typed, if there is one; else the user
    /// is told that there is none.
    pub fn find_user_command(&self, c: &Command, out: &mut Outbox) -> (r: Option<usize>)
        ensures
            ({
                let k = user_command_at(self@.user_commands, bare_name(c@.name));
                if k < self@.user_commands.len() {
                    r == Some(k as usize) && final(out)@ == old(out)@ && 0 <= k
                } else {
                    r is None && final(out)@ == old(out)@.push(
                        outbox::warns(
                            "Unknown command: "@ + c@.name + "  (type /help for list)"@,
                        ),
                    )
                }
            }),
    {
        let name = strip_slashes(c.name.as_str());
        let ghost all = split::views(self.user_commands@);
        let mut i: usize = 0;
        assert(all.skip(0) =~= all);
        while i < self.user_commands.len()
            invariant
                i <= self.user_commands@.len(),
                all == split::views(self.user_commands@),
                all == self@.user_commands,
                name@ == bare_name(c@.name),
                user_command_at(all, name@) == i + user_command_at(all.skip(i as int), name@),
                out@ == old(out)@,
            decreases self.user_commands@.len() - i,
        {
            assert(all[i as int] == self.user_commands@[i as int]@);
            assert(all.skip(i as int).drop_first() =~= all.skip(i + 1));
            if same(self.user_commands[i].name.as_str(), name.as_str()) {
                return Some(i);
            }
            i += 1;
        }
        out.err(
            cat3("Unknown command: ", c.name.as_str(), "  (type /help for list)"),
        );
        None
    }

    /// The command line of one of the user's commands, with its arguments, which
    /// are quoted for the shell, in their place.
    pub fn user_command_line(&self, k: usize, quoted: &str) -> (r: String)
        requires
            k < self@.user_commands.len(),
        ensures
            r@ == split::replaced_all(self@.user_commands[k as int].command, "{args}"@, quoted@),
            r@ == filled(self@.user_commands[k as int].command, "{args}"@, quoted@),
    {
        proof {
            reveal_strlit("{args}");
        }
        replace_all(self.user_commands[k].command.as_str(), "{args}", quoted)
    }

    /// The text of one of the user's commands, with what was typed in its place;
    /// the user is told that it is sent.
    pub fn user_prompt(&self, k: usize, c: &Command, out: &mut Outbox) -> (r: String)
        requires
            k < self@.user_commands.len(),
        ensures
            r@ == split::replaced_all(
                self@.user_commands[k as int].template,
                "{input}"@,
                c@.rest,
            ),
            r@ == filled(self@.user_commands[k as int].template, "{input}"@, c@.rest),
            final(out)@ == old(out)@.push(
                outbox::says(
                    "/"@ + self@.user_commands[k as int].name
                        + ": injecting prompt into conversation…"@,
                ),
            ),
    {
        proof {
            reveal_strlit("{input}");
        }
        let u = &self.user_commands[k];
        out.sys(cat3("/", u.name.as_str(), ": injecting prompt into conversation…"));
        replace_all(u.template.as_str(), "{input}", c.rest.as_str())
    }

    /// One of the user's commands runs.
    pub fn user_command_begins(&self, k: usize, line: &str, out: &mut Outbox)
        requires
            k < self@.user_commands.len(),
        ensures
            final(out)@ == old(out)@.push(
                outbox::says(
                    "Running /"@ + self@.user_commands[k as int].name + ": "@ + line@,
                ),
            ),
    {
        out.sys(cat4("Running /", self.user_commands[k].name.as_str(), ": ", line));
    }

    /// What one of the user's commands came to.
    pub fn user_command_ended(&self, k: usize, o: &ToolOutcome, out: &mut Outbox)
        requires
            k < self@.user_commands.len(),
        ensures
            ({
                let t = "[/"@ + self@.user_commands[k as int].name + "]\n"@ + o@.output;
                final(out)@ == old(out)@.push(
                    if o.is_error {
                        outbox::warns(t)
                    } else {
                        outbox::says(t)
                    },
                )
            }),
    {
        let t = cat4("[/", self.user_commands[k].name.as_str(), "]\n", o.output.as_str());
        if o.is_error {
            out.err(t);
        } else {
            out.sys(t);
        }
    }

    /// The user refused one of the commands.
    pub fn user_command_denied(&self, k: usize, out: &mut Outbox)
        requires
            k < self@.user_commands.len(),
        ensures
            final(out)@ == old(out)@.push(
                outbox::says("[/"@ + self@.user_commands[k as int].name + "] Denied."@),
            ),
    {
        out.sys(cat3("[/", self.user_commands[k].name.as_str(), "] Denied."));
    }
}

// ── Steering ────────────────────────────────────────────────────────────────

/// What a note or command typed while the model works is.
pub enum Steer {
    /// Nothing.
    Empty,
    /// The command to condense the conversation.
    Compact,
    /// Another command.
    Command(String),
    /// A note.
    Note(String),
}

/// The model of what was typed while the model works.
#[verifier::ext_equal]
pub enum SteerView {
    Empty,
    Compact,
    Command(Seq<char>),
    Note(Seq<char>),
}

impl View for Steer {
    type V = SteerView;

    open spec fn view(&self) -> SteerView {
        match self {
            Steer::Empty => SteerView::Empty,
            Steer::Compact => SteerView::Compact,
            Steer::Command(s) => SteerView::Command(s@),
            Steer::Note(s) => SteerView::Note(s@),
        }
    }
}

/// The first word of a text in lower case; empty if it has none.
pub open spec fn steer_name(t: Seq<char>) -> Seq<char> {
    let ws = split::words(t);
    if ws.len() > 0 {
        text::lowercase(ws[0])
    } else {
        text::lowercase(Seq::empty())
    }
}

/// What was typed while the model works.
pub open spec fn steer_of(s: Seq<char>) -> SteerView {
    let t = text::trimmed(s);
    if t.len() == 0 {
        SteerView::Empty
    } else if "/"@.is_prefix_of(t) {
        if steer_name(t) == "/compact"@ {
            SteerView::Compact
        } else {
            SteerView::Command(t)
        }
    } else {
        SteerView::Note(t)
    }
}

fn name_of_steer(t: &str) -> (r: String)
    ensures
        r@ == steer_name(t@),
{
    let ws = split::split_words(t);
    assert(split::texts(ws@).len() == ws@.len());
    if ws.len() > 0 {
        assert(split::texts(ws@)[0] == ws@[0]@);
        ws[0].as_str().to_lowercase()
    } else {
        let e = empty();
        e.as_str().to_lowercase()
    }
}

/// Reads what was typed while the model works.
pub fn parse_steer(s: &str) -> (r: Steer)
    ensures
        r@ == steer_of(s@),
{
    let t = trim_str(s);
    if t.as_str().is_empty() {
        return Steer::Empty;
    }
    if starts_str(t.as_str(), "/") {
        let n = name_of_steer(t.as_str());
        if same(n.as_str(), "/compact") {
            return Steer::Compact;
        }
        return Steer::Command(t);
    }
    Steer::Note(t)
}

impl Engine {
    /// A note is shown as it is.
    pub fn note_shown(&self, note: &str, out: &mut Outbox)
        ensures
            final(out)@ == old(out)@.push(outbox::steers(note@)),
    {
        out.steer(note.to_string());
    }

    /// A command typed while the model works came to a text for the model: it
    /// is shown, and no turn begins.
    pub fn steered_prompt(&self, typed: &str, prompt: &str, out: &mut Outbox)
        ensures
            final(out)@ == old(out)@.push(
                outbox::steers(
                    "[steer] /"@ + bare_name(steer_name(typed@)) + " expanded prompt:\n"@
                        + prompt@,
                ),
            ),
    {
        let n = name_of_steer(typed);
        let b = strip_slashes(n.as_str());
        out.steer(cat4("[steer] /", b.as_str(), " expanded prompt:\n", prompt));
    }
}

// ── Laws of lists ───────────────────────────────────────────────────────────

/// The tools listed at a server are those of the server, all of them, in their
/// order.
pub proof fn law_tools_at(ts: Seq<McpToolView>, server: Seq<char>)
    ensures
        tools_at(ts, server) == ts.filter(|t: McpToolView| t.server == server).map_values(
            |t: McpToolView| t.name,
        ),
    decreases ts.len(),
{
    reveal(Seq::filter);
    let p = |t: McpToolView| t.server == server;
    let f = |t: McpToolView| t.name;
    if ts.len() > 0 {
        law_tools_at(ts.drop_last(), server);
        let before = ts.drop_last().filter(p);
        if p(ts.last()) {
            assert(before.push(ts.last()).map_values(f) =~= before.map_values(f).push(
                ts.last().name,
            ));
        }
    }
    assert(tools_at(ts, server) =~= ts.filter(p).map_values(f));
}

/// The last words of the user are those of the last message of the user, whatever
/// came behind it from others; without one there are none.
pub proof fn law_last_user_text(a: Seq<MessageView>, m: MessageView, b: Seq<MessageView>)
    requires
        m.role == "user"@,
        forall|k: int| 0 <= k < b.len() ==> (#[trigger] b[k]).role != "user"@,
    ensures
        last_user_text(a.push(m) + b) == m.content,
        last_user_text(b).len() == 0,
    decreases b.len(),
{
    let all = a.push(m) + b;
    if b.len() == 0 {
        assert(all =~= a.push(m));
    } else {
        let init = b.drop_last();
        assert forall|k: int| 0 <= k < init.len() implies (#[trigger] init[k]).role
            != "user"@ by {
            assert(init[k] == b[k]);
        }
        law_last_user_text(a, m, init);
        assert(all.drop_last() =~= a.push(m) + init);
        assert(b[b.len() - 1].role != "user"@);
    }
}

/// A user's own command is found by its name, the first of that name.
pub proof fn law_user_command(
    a: Seq<UserCommandView>,
    c: UserCommandView,
    b: Seq<UserCommandView>,
)
    requires
        forall|k: int| 0 <= k < a.len() ==> (#[trigger] a[k]).name != c.name,
    ensures
        user_command_at(a.push(c) + b, c.name) == a.len(),
        user_command_at(a, c.name) == a.len(),
    decreases a.len(),
{
    let all = a.push(c) + b;
    if a.len() == 0 {
        assert(all[0] == c);
    } else {
        assert(all[0] == a[0]);
        assert(a[0].name != c.name);
        let r = a.drop_first();
        assert(all.drop_first() =~= r.push(c) + b);
        assert forall|k: int| 0 <= k < r.len() implies (#[trigger] r[k]).name != c.name by {
            assert(r[k] == a[k + 1]);
        }
        law_user_command(r, c, b);
    }
}

/// A command's name is known without the slash in front of it.
pub proof fn law_bare_name(name: Seq<char>)
    requires
        name.len() > 0 ==> name[0] != '/',
    ensures
        bare_name("/"@ + name) == name,
        bare_name(name) == name,
{
    reveal_strlit("/");
    let p = text::among("/"@);
    assert("/"@[0] == '/');
    assert forall|i: int| 0 <= i < "/"@.len() implies p(#[trigger] "/"@[i]) by {}
    if name.len() > 0 && "/"@.contains(name[0]) {
        assert(name[0] == '/');
    }
    text::law_left_trimmed("/"@, name, p);
    let none = Seq::<char>::empty();
    assert(none + name =~= name);
    text::law_left_trimmed(none, name, p);
}

/// The words of a command from some place on are its end.
pub proof fn law_words_from(c: CommandView, a: Seq<Seq<char>>, b: Seq<Seq<char>>, i: int)
    requires
        c.args == a + b,
        i > c.args.len(),
    ensures
        words_from(c, a.len() as int) == b,
        words_from(c, i).len() == 0,
{
    assert((a + b).skip(a.len() as int) =~= b);
}

/// A skill works on the words behind its name, or on the goal where there are none.
pub proof fn law_skill_query(
    e: EngineView,
    c: CommandView,
    x: Seq<char>,
    y: Seq<char>,
    ws: Seq<Seq<char>>,
)
    requires
        c.args == seq![x, y] + ws,
    ensures
        ws.len() > 0 ==> skill_query(e, c) == split::joined(ws, " "@),
        ws.len() == 0 ==> skill_query(e, c) == e.active_goal,
{
    assert(c.args.skip(2) =~= ws);
}

/// What is typed while a turn runs is a note, without whitespace around it, unless
/// it begins with a slash: then it is a command, and one of them condenses. Blanks
/// alone are nothing.
pub proof fn law_steer(before: Seq<char>, t: Seq<char>, after: Seq<char>)
    requires
        text::all_in(before, |c: char| text::char_whitespace(c)),
        text::all_in(after, |c: char| text::char_whitespace(c)),
        t.len() > 0 ==> !text::char_whitespace(t[0]) && !text::char_whitespace(t.last()),
    ensures
        t.len() == 0 ==> steer_of(before + t + after) is Empty,
        t.len() > 0 && t[0] != '/' ==> steer_of(before + t + after) == SteerView::Note(t),
        t.len() > 0 && t[0] == '/' ==> (steer_of(before + t + after) == SteerView::Command(t)
            || steer_of(before + t + after) is Compact),
        t == "/compact"@ ==> steer_of(before + t + after) is Compact,
{
    text::law_trimmed(before, t, after);
    reveal_strlit("/");
    if t.len() > 0 {
        if "/"@.is_prefix_of(t) {
            assert(t.subrange(0, 1)[0] == '/');
        }
        if t[0] == '/' {
            assert(t.subrange(0, 1) =~= "/"@);
        }
    }
    if t == "/compact"@ {
        reveal_strlit("/compact");
        assert forall|i: int| 0 <= i < t.len() implies !text::char_whitespace(#[trigger] t[i])
            && text::ascii_lower(t[i]) == t[i] && (t[i] as u32) < 0x80 by {}
        split::law_one_word(t);
        assert(text::is_ascii(t));
        assert(text::lowercase(t) =~= t);
    }
}

/// Each line of a list names its entry: a command behind a slash, and a skill that is
/// of the old kind with a note.
pub proof fn law_list_lines(
    cs: Seq<UserCommandView>,
    ss: Seq<SkillInfoView>,
    ns: Seq<NamedView>,
    w: nat,
    i: int,
)
    ensures
        command_lines(cs).len() == cs.len(),
        skill_lines(ss).len() == ss.len(),
        named_lines(ns, w).len() == ns.len(),
        0 <= i < cs.len() ==> text::occurs(command_lines(cs)[i], "  /"@ + cs[i].name)
            && cs[i].description.is_suffix_of(command_lines(cs)[i]),
        0 <= i < ss.len() ==> text::occurs(skill_lines(ss)[i], ss[i].name) && text::occurs(
            skill_lines(ss)[i],
            ss[i].description,
        ),
        0 <= i < ss.len() && !ss[i].toml ==> ss[i].description.is_suffix_of(skill_lines(ss)[i]),
        0 <= i < ns.len() ==> text::occurs(named_lines(ns, w)[i], ns[i].name)
            && ns[i].description.is_suffix_of(named_lines(ns, w)[i]),
{
    let none = Seq::<char>::empty();
    if 0 <= i < cs.len() {
        let c = cs[i];
        let args = number::padded(
            if c.args.len() == 0 {
                Seq::empty()
            } else {
                " "@ + c.args
            },
            20,
        );
        lemma_command_line("  /"@ + c.name, args, c.description);
        assert(command_line(c) =~= "  /"@ + c.name + args + " — "@ + c.description);
    }
    if 0 <= i < ss.len() {
        let s = ss[i];
        let tail = if s.toml {
            " [.toml, deprecated — /skill migrate]"@
        } else {
            none
        };
        lemma_named_line(s.name, 20, s.description, tail);
        assert(skill_line(s) =~= "  "@ + number::padded(s.name, 20) + " — "@ + s.description
            + tail);
    }
    if 0 <= i < ns.len() {
        let n = ns[i];
        lemma_named_line(n.name, w, n.description, none);
        assert(named_line(n, w) =~= "  "@ + number::padded(n.name, w) + " — "@
            + n.description + none);
    }
}

proof fn lemma_command_line(head: Seq<char>, args: Seq<char>, d: Seq<char>)
    ensures
        text::occurs(head + args + " — "@ + d, head),
        d.is_suffix_of(head + args + " — "@ + d),
{
    let none = Seq::<char>::empty();
    let l = head + args + " — "@ + d;
    let rest = args + " — "@ + d;
    assert(l =~= none + head + rest);
    text::law_occurs_in_middle(none, head, rest);
    assert(l.subrange(l.len() - d.len(), l.len() as int) =~= d);
}

proof fn lemma_named_line(name: Seq<char>, w: nat, d: Seq<char>, tail: Seq<char>)
    ensures
        ({
            let l = "  "@ + number::padded(name, w) + " — "@ + d + tail;
            &&& text::occurs(l, name)
            &&& text::occurs(l, d)
            &&& tail.len() == 0 ==> d.is_suffix_of(l)
        }),
{
    let p = number::padded(name, w);
    let l = "  "@ + p + " — "@ + d + tail;
    number::law_padded(name, w);
    let gap = p.skip(name.len() as int);
    assert(p =~= name + gap);
    let rest = gap + " — "@ + d + tail;
    assert(l =~= "  "@ + name + rest);
    text::law_occurs_in_middle("  "@, name, rest);
    text::law_occurs_in_middle("  "@ + p + " — "@, d, tail);
    if tail.len() == 0 {
        assert(l.subrange(l.len() - d.len(), l.len() as int) =~= d);
    }
}

/// The notes told are those of what was asked for, or all of them, each with its own
/// line, behind a line with their number.
pub proof fn law_preflight(startup: Seq<Seq<char>>, skills: Seq<Seq<char>>, i: int)
    ensures
        preflight_lines("startup"@, startup, skills).len() == startup.len() + 1,
        preflight_lines("skills"@, startup, skills).len() == skills.len() + 1,
        preflight_lines("all"@, startup, skills) == preflight_lines("startup"@, startup, skills)
            + preflight_lines("skills"@, startup, skills),
        0 <= i < startup.len() ==> preflight_lines("startup"@, startup, skills)[i + 1] == "  "@
            + startup[i],
        0 <= i < skills.len() ==> preflight_lines("skills"@, startup, skills)[i + 1] == "  "@
            + skills[i],
{
    reveal_strlit("startup");
    reveal_strlit("skills");
    reveal_strlit("all");
    assert("startup"@.len() == 7 && "skills"@.len() == 6 && "all"@.len() == 3);
    let none = Seq::<Seq<char>>::empty();
    let a = note_lines("startup"@, startup);
    let b = note_lines("skills"@, skills);
    assert(preflight_lines("startup"@, startup, skills) =~= a);
    assert(preflight_lines("skills"@, startup, skills) =~= b);
    assert(preflight_lines("all"@, startup, skills) =~= a + b);
}

/// A list command lists without a word, makes a new entry under the name that is
/// given, and reloads; only skills are run, migrated and suggested.
pub proof fn law_list_asked(c: CommandView, standard: Seq<char>, name: Seq<char>)
    ensures
        list_asked((CommandView { args: Seq::empty(), ..c }), standard, false) is List,
        list_asked((CommandView { args: seq!["new"@, name], ..c }), standard, false)
            == ListAskView::Create(name),
        list_asked((CommandView { args: seq!["new"@], ..c }), standard, false)
            == ListAskView::Create(standard),
        list_asked((CommandView { args: seq!["reload"@], ..c }), standard, false) is Reload,
        list_asked((CommandView { args: seq!["run"@], ..c }), standard, true) is Run,
        list_asked((CommandView { args: seq!["run"@], ..c }), standard, false) is Unknown,
        list_asked((CommandView { args: seq!["migrate"@], ..c }), standard, true) is Migrate,
        list_asked((CommandView { args: seq!["suggest"@], ..c }), standard, true) is Suggest,
{
    reveal_strlit("list");
    reveal_strlit("ls");
    reveal_strlit("new");
    reveal_strlit("create");
    reveal_strlit("reload");
    reveal_strlit("run");
    reveal_strlit("r");
    reveal_strlit("migrate");
    reveal_strlit("suggest");
    assert("list"@.len() == 4 && "ls"@.len() == 2 && "new"@.len() == 3 && "create"@.len() == 6);
    assert("reload"@.len() == 6 && "run"@.len() == 3 && "r"@.len() == 1);
    assert("migrate"@.len() == 7 && "suggest"@.len() == 7);
    assert("create"@[0] == 'c' && "reload"@[0] == 'r' && "new"@[0] == 'n' && "run"@[0] == 'r');
    assert("migrate"@[0] == 'm' && "suggest"@[0] == 's');
}

/// A server is listed as connected exactly if it is, with its tools.
pub proof fn law_server_lines(e: EngineView, i: int)
    requires
        0 <= i < e.mcp_servers.len(),
    ensures
        server_lines(e).len() == e.mcp_servers.len(),
        e.mcp_connected.contains(e.mcp_servers[i]) ==> split::joined(
            tools_at(e.mcp_tools, e.mcp_servers[i]),
            ", "@,
        ).is_suffix_of(server_lines(e)[i]) && text::occurs(
            server_lines(e)[i],
            " connected — "@,
        ),
        !e.mcp_connected.contains(e.mcp_servers[i]) ==> " not connected"@.is_suffix_of(
            server_lines(e)[i],
        ),
{
    let s = e.mcp_servers[i];
    let l = server_lines(e)[i];
    let j = split::joined(tools_at(e.mcp_tools, s), ", "@);
    let h = "  "@ + number::padded(s, 20);
    if e.mcp_connected.contains(s) {
        assert(l.subrange(l.len() - j.len(), l.len() as int) =~= j);
        text::law_occurs_in_middle(h, " connected — "@, j);
    } else {
        let n = " not connected"@;
        assert(l.subrange(l.len() - n.len(), l.len() as int) =~= n);
    }
}

/// Each warning is told, behind what was to be told before.
pub proof fn law_all_warned(s: Seq<EffectView>, es: Seq<Seq<char>>, i: int)
    requires
        0 <= i < es.len(),
    ensures
        all_warned(s, es).len() == s.len() + es.len(),
        all_warned(s, es).take(s.len() as int) == s,
        all_warned(s, es)[s.len() + i] == outbox::warns(es[i]),
{
    assert(all_warned(s, es).take(s.len() as int) =~= s);
}

/// A template with its place filled in.
pub open spec fn filled(template: Seq<char>, place: Seq<char>, with: Seq<char>) -> Seq<char> {
    split::replaced_all(template, place, with)
}

/// Each place of a template is filled in, and the rest of it stays; without a place
/// the template stays as it is.
pub proof fn law_filled(a: Seq<char>, place: Seq<char>, b: Seq<char>, with: Seq<char>)
    requires
        place.len() > 0,
        forall|i: int| 0 <= i < a.len() ==> !#[trigger] text::occurs_at(a + place + b, place, i),
    ensures
        filled(a + place + b, place, with) == a + with + filled(b, place, with),
        !text::occurs(b, place) ==> filled(a + place + b, place, with) == a + with + b,
{
    split::law_replaced_all(a, place, b, with);
    split::law_replaced_all(b, place, a, with);
}

} // verus!
