//! The list of commands.

use crate::number::{self, byte_size, make_spaces};
use crate::text::{cat3, cat5};
use vstd::prelude::*;
use vstd::string::*;

verus! {

/// The spaces behind a command of `n` bytes: up to column 32, at least one.
pub open spec fn gap(n: nat) -> nat {
    if n < 31 {
        (32 - n) as nat
    } else {
        1
    }
}

/// The line of one command.
pub open spec fn help_line(cmd: Seq<char>, desc: Seq<char>) -> Seq<char> {
    "  "@ + cmd + number::spaces(gap(number::byte_len(cmd))) + desc + "\n"@
}

/// The list of commands. `first` is the provider that is named first among
/// those that can be switched to.
pub open spec fn help(first: Seq<char>) -> Seq<char> {
    "Commands:\n"@
        + help_line("/help"@, "show this help"@)
        + help_line("/config"@, "open the interactive settings menu"@)
        + help_line("/clear"@, "clear chat history and attachments"@)
        + help_line("/compact"@, "manually compact older turns into a summary now"@)
        + help_line("/provider <name>"@, "switch provider ("@ + first + "/ollama/groq/fireworks/moonshot/custom)"@)
        + help_line("/model <name>"@, "switch model"@)
        + help_line("/providers"@, "list all providers and models"@)
        + help_line("/models"@, "list models for current provider"@)
        + help_line("/key <provider> <key>"@, "set API key"@)
        + help_line("/endpoint <provider> <url>"@, "set API endpoint for a provider"@)
        + help_line("/system <prompt>"@, "set additional system prompt"@)
        + help_line("/tokens [n]"@, "no args: show prompt injection budget breakdown; <n>: set max output tokens"@)
        + help_line("/budget [n]"@, "no args: show context budget; <n>: set sidebar meter ceiling (persists)"@)
        + help_line("/attach <file>"@, "attach a file to your next message"@)
        + help_line("/detach [file]"@, "remove attachment(s)"@)
        + help_line("/exec <cmd>"@, "run a shell command (must be /allow-ed first, or /sandbox on)"@)
        + help_line("/allow <prefix>"@, "allow a shell command prefix (e.g. /allow npm)"@)
        + help_line("/sandbox [off|permissive|mxc|docker]"@, "command isolation: off=require /allow, permissive=allow all, mxc=MS eXecution Containers, docker=Docker container"@)
        + help_line("/permissions [skip|require]"@, "skip or require permission checks (persists)"@)
        + help_line("/verify [cmd|off]"@, "set shell command to run after every file edit (Write-Test-Fix)"@)
        + help_line("/ast [off|sexpr|harness]"@, "AST context mode: off=raw, sexpr=S-expr reads, harness=JSON surgery (persists)"@)
        + help_line("/clean-env [on|off]"@, "strip subprocess environment for isolation (persists)"@)
        + help_line("/thinking [on|off]"@, "request extended thinking / chain-of-thought reasoning (persists)"@)
        + help_line("/checkpoints [on|off]"@, "git-checkpoint each turn so /undo can roll it back (persists)"@)
        + help_line("/undo"@, "roll the working tree back to the last checkpoint"@)
        + help_line("/theme [dark|light|<name>]"@, "switch theme (persists); named themes live in ~/.marlin/themes/"@)
        + help_line("/color [<#rrggbb>|off]"@, "set the status bar background color for this directory (persists per workdir)"@)
        + help_line("/command [list|new|reload]"@, "manage user-defined slash commands (~/.marlin/commands/)"@)
        + help_line("/tool [list|new|reload]"@, "manage user-defined LLM tools (~/.marlin/tools/)"@)
        + help_line("/mcp [list|new|reload]"@, "manage MCP server connections (~/.marlin/mcp/)"@)
        + help_line("/index [status]"@, "build (or check) the TF-IDF codebase search index"@)
        + help_line("/search <query>"@, "search the index and show ranked results with snippets"@)
        + help_line("/revert <file> [n]"@, "list file snapshots or restore one"@)
        + help_line("/resume"@, "resume the most recent saved session"@)
        + help_line("/history [n|clear]"@, "list saved sessions, load one by number, or clear all"@)
        + help_line("/cat <file>"@, "print file contents"@)
        + help_line("/view <file>"@, "open a scrollable read-only pane for a file"@)
        + help_line("/open <file>"@, "alias for /view"@)
        + help_line("/diff-mode <file>"@, "show current file vs. its most recent snapshot"@)
        + help_line("/edit <file>"@, "open an editable pane (Ctrl+S save, Esc close)"@)
        + help_line("/ls [dir]"@, "list directory"@)
        + help_line("/cd <dir>"@, "change working directory"@)
        + help_line("/pwd"@, "show working directory"@)
        + help_line("/skill list"@, "list installed skills"@)
        + help_line("/skill run <name> [query]"@, "run a skill"@)
        + help_line("/skill new <name>"@, "create a new skill template"@)
        + help_line("/skill suggest"@, "show skill suggestions from nightly analysis"@)
        + help_line("/skill reload"@, "reload skills from disk"@)
        + help_line("/skill migrate"@, "rewrite deprecated .toml skills to .qmd"@)
        + help_line("/tiers [on|off]"@, "model tier routing (easy→default, hard→complex with backups)"@)
        + help_line("/subagents [on|off]"@, "delegate skill runs to a nested subagent loop (on by default)"@)
        + help_line("/preflight [startup|skills|all]"@, "show startup + skill validation diagnostics"@)
}

fn add_line(s: &mut String, cmd: &str, desc: &str)
    ensures
        final(s)@ == old(s)@ + help_line(cmd@, desc@),
{
    let n = byte_size(cmd);
    let width: usize = if n < 31 {
        32 - n
    } else {
        1
    };
    let pad = make_spaces(width);
    let line = cat5("  ", cmd, pad.as_str(), desc, "\n");
    s.append(line.as_str());
}

/// The list of commands, with `first` before the other providers.
pub fn help_text(first: &str) -> (r: String)
    ensures
        r@ == help(first@),
{
    let mut s = "Commands:\n".to_string();
    add_line(&mut s, "/help", "show this help");
    add_line(&mut s, "/config", "open the interactive settings menu");
    add_line(&mut s, "/clear", "clear chat history and attachments");
    add_line(&mut s, "/compact", "manually compact older turns into a summary now");
    let names = cat3("switch provider (", first, "/ollama/groq/fireworks/moonshot/custom)");
    add_line(&mut s, "/provider <name>", names.as_str());
    add_line(&mut s, "/model <name>", "switch model");
    add_line(&mut s, "/providers", "list all providers and models");
    add_line(&mut s, "/models", "list models for current provider");
    add_line(&mut s, "/key <provider> <key>", "set API key");
    add_line(&mut s, "/endpoint <provider> <url>", "set API endpoint for a provider");
    add_line(&mut s, "/system <prompt>", "set additional system prompt");
    add_line(&mut s, "/tokens [n]", "no args: show prompt injection budget breakdown; <n>: set max output tokens");
    add_line(&mut s, "/budget [n]", "no args: show context budget; <n>: set sidebar meter ceiling (persists)");
    add_line(&mut s, "/attach <file>", "attach a file to your next message");
    add_line(&mut s, "/detach [file]", "remove attachment(s)");
    add_line(&mut s, "/exec <cmd>", "run a shell command (must be /allow-ed first, or /sandbox on)");
    add_line(&mut s, "/allow <prefix>", "allow a shell command prefix (e.g. /allow npm)");
    add_line(&mut s, "/sandbox [off|permissive|mxc|docker]", "command isolation: off=require /allow, permissive=allow all, mxc=MS eXecution Containers, docker=Docker container");
    add_line(&mut s, "/permissions [skip|require]", "skip or require permission checks (persists)");
    add_line(&mut s, "/verify [cmd|off]", "set shell command to run after every file edit (Write-Test-Fix)");
    add_line(&mut s, "/ast [off|sexpr|harness]", "AST context mode: off=raw, sexpr=S-expr reads, harness=JSON surgery (persists)");
    add_line(&mut s, "/clean-env [on|off]", "strip subprocess environment for isolation (persists)");
    add_line(&mut s, "/thinking [on|off]", "request extended thinking / chain-of-thought reasoning (persists)");
    add_line(&mut s, "/checkpoints [on|off]", "git-checkpoint each turn so /undo can roll it back (persists)");
    add_line(&mut s, "/undo", "roll the working tree back to the last checkpoint");
    add_line(&mut s, "/theme [dark|light|<name>]", "switch theme (persists); named themes live in ~/.marlin/themes/");
    add_line(&mut s, "/color [<#rrggbb>|off]", "set the status bar background color for this directory (persists per workdir)");
    add_line(&mut s, "/command [list|new|reload]", "manage user-defined slash commands (~/.marlin/commands/)");
    add_line(&mut s, "/tool [list|new|reload]", "manage user-defined LLM tools (~/.marlin/tools/)");
    add_line(&mut s, "/mcp [list|new|reload]", "manage MCP server connections (~/.marlin/mcp/)");
    add_line(&mut s, "/index [status]", "build (or check) the TF-IDF codebase search index");
    add_line(&mut s, "/search <query>", "search the index and show ranked results with snippets");
    add_line(&mut s, "/revert <file> [n]", "list file snapshots or restore one");
    add_line(&mut s, "/resume", "resume the most recent saved session");
    add_line(&mut s, "/history [n|clear]", "list saved sessions, load one by number, or clear all");
    add_line(&mut s, "/cat <file>", "print file contents");
    add_line(&mut s, "/view <file>", "open a scrollable read-only pane for a file");
    add_line(&mut s, "/open <file>", "alias for /view");
    add_line(&mut s, "/diff-mode <file>", "show current file vs. its most recent snapshot");
    add_line(&mut s, "/edit <file>", "open an editable pane (Ctrl+S save, Esc close)");
    add_line(&mut s, "/ls [dir]", "list directory");
    add_line(&mut s, "/cd <dir>", "change working directory");
    add_line(&mut s, "/pwd", "show working directory");
    add_line(&mut s, "/skill list", "list installed skills");
    add_line(&mut s, "/skill run <name> [query]", "run a skill");
    add_line(&mut s, "/skill new <name>", "create a new skill template");
    add_line(&mut s, "/skill suggest", "show skill suggestions from nightly analysis");
    add_line(&mut s, "/skill reload", "reload skills from disk");
    add_line(&mut s, "/skill migrate", "rewrite deprecated .toml skills to .qmd");
    add_line(&mut s, "/tiers [on|off]", "model tier routing (easy→default, hard→complex with backups)");
    add_line(&mut s, "/subagents [on|off]", "delegate skill runs to a nested subagent loop (on by default)");
    add_line(&mut s, "/preflight [startup|skills|all]", "show startup + skill validation diagnostics");
    s
}

/// A line of help has its command in front and its description at the end, and the
/// descriptions of commands of up to thirty bytes stand below each other.
pub proof fn law_help_line(cmd: Seq<char>, desc: Seq<char>)
    ensures
        ("  "@ + cmd).is_prefix_of(help_line(cmd, desc)),
        (desc + "\n"@).is_suffix_of(help_line(cmd, desc)),
        number::byte_len(cmd) <= 30 ==> number::byte_len(cmd) + gap(number::byte_len(cmd)) == 32,
        gap(number::byte_len(cmd)) >= 1,
{
    let l = help_line(cmd, desc);
    let h = "  "@ + cmd;
    let e = desc + "\n"@;
    assert(l.subrange(0, h.len() as int) =~= h);
    assert(l.subrange(l.len() - e.len(), l.len() as int) =~= e);
}

} // verus!
