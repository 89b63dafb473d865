//! A conversation as text: for summaries, for the chat display, and as a page.

use crate::message::{self, Message, ToolCall};
use crate::number::{self, take_chars};
use crate::split;
use crate::text::{self, cat2, cat3, cat5, empty, same, trim_str};
use crate::ui::{self, HistoryEntry};
use vstd::prelude::*;
use vstd::string::*;

verus! {

broadcast use split::lemma_views_push;

// ── For a summary ───────────────────────────────────────────────────────────

/// The lines of the calls of a message.
pub open spec fn call_lines(calls: Seq<message::ToolCallView>) -> Seq<char>
    decreases calls.len(),
{
    if calls.len() == 0 {
        Seq::empty()
    } else {
        call_lines(calls.drop_last()) + ("  [tool_call] "@ + calls.last().name + "("@
            + number::first_chars(calls.last().input, 200) + ")\n"@)
    }
}

/// A message, cut down for a summary: 300 characters of an answer, 200 of each
/// call's arguments, 400 of a tool's result, 600 of anything else.
pub open spec fn digest(m: message::MessageView) -> Seq<char> {
    if m.role == "assistant"@ && m.tool_calls.len() > 0 {
        (if m.content.len() > 0 {
            "[assistant]: "@ + number::first_chars(m.content, 300) + "\n"@
        } else {
            Seq::empty()
        }) + call_lines(m.tool_calls) + "\n"@
    } else if m.role == "tool"@ {
        "  [tool_result]: "@ + number::first_chars(m.content, 400) + "\n\n"@
    } else {
        "["@ + m.role + "]: "@ + number::first_chars(m.content, 600) + "\n\n"@
    }
}

/// Some messages, cut down for a summary.
pub open spec fn digests(ms: Seq<message::MessageView>) -> Seq<char>
    decreases ms.len(),
{
    if ms.len() == 0 {
        Seq::empty()
    } else {
        digests(ms.drop_last()) + digest(ms.last())
    }
}

fn show_calls(calls: &Vec<ToolCall>) -> (r: String)
    ensures
        r@ == call_lines(split::views(calls@)),
{
    let ghost all = split::views(calls@);
    let mut out = empty();
    let mut i: usize = 0;
    assert(call_lines(all.take(0)) =~= Seq::<char>::empty());
    while i < calls.len()
        invariant
            i <= calls@.len(),
            all == split::views(calls@),
            out@ == call_lines(all.take(i as int)),
        decreases calls@.len() - i,
    {
        let c = &calls[i];
        assert(all[i as int] == c@);
        assert(all.take(i + 1).drop_last() =~= all.take(i as int));
        let snip = take_chars(c.input.as_str(), 200);
        let line = cat5("  [tool_call] ", c.name.as_str(), "(", snip.as_str(), ")\n");
        out.append(line.as_str());
        i += 1;
    }
    assert(all.take(i as int) =~= all);
    out
}

fn show_digest(m: &Message) -> (r: String)
    ensures
        r@ == digest(m@),
{
    assert(split::views(m.tool_calls@).len() == m.tool_calls@.len());
    if same(m.role.as_str(), "assistant") && m.tool_calls.len() > 0 {
        let head = if m.content.as_str().is_empty() {
            empty()
        } else {
            let snip = take_chars(m.content.as_str(), 300);
            cat3("[assistant]: ", snip.as_str(), "\n")
        };
        let calls = show_calls(&m.tool_calls);
        cat3(head.as_str(), calls.as_str(), "\n")
    } else if same(m.role.as_str(), "tool") {
        let snip = take_chars(m.content.as_str(), 400);
        cat3("  [tool_result]: ", snip.as_str(), "\n\n")
    } else {
        let snip = take_chars(m.content.as_str(), 600);
        cat5("[", m.role.as_str(), "]: ", snip.as_str(), "\n\n")
    }
}

/// The first `n` messages of a conversation, cut down for a summary.
pub fn compact_serialize(messages: &Vec<Message>, n: usize) -> (r: String)
    requires
        n <= messages@.len(),
    ensures
        r@ == digests(split::views(messages@).take(n as int)),
{
    let ghost all = split::views(messages@);
    let mut out = empty();
    let mut i: usize = 0;
    assert(digests(all.take(0)) =~= Seq::<char>::empty());
    while i < n
        invariant
            i <= n <= messages@.len(),
            all == split::views(messages@),
            out@ == digests(all.take(i as int)),
        decreases n - i,
    {
        assert(all[i as int] == messages@[i as int]@);
        assert(all.take(i + 1).drop_last() =~= all.take(i as int));
        let d = show_digest(&messages[i]);
        out.append(d.as_str());
        i += 1;
    }
    out
}

// ── For the chat display ────────────────────────────────────────────────────

/// An entry with a role and a text.
pub open spec fn text_entry(
    role: Seq<char>,
    content: Seq<char>,
    is_error: bool,
) -> ui::HistoryEntryView {
    ui::HistoryEntryView {
        role,
        content,
        tool_name: Seq::empty(),
        tool_input: Seq::empty(),
        is_error,
    }
}

/// The entry of a tool call.
pub open spec fn call_entry(c: message::ToolCallView) -> ui::HistoryEntryView {
    ui::HistoryEntryView {
        role: "assistant"@,
        content: Seq::empty(),
        tool_name: c.name,
        tool_input: c.input,
        is_error: false,
    }
}

/// The entries of a message: an answer with calls becomes its text, if it has
/// any, and an entry for each call.
pub open spec fn entries_for(m: message::MessageView) -> Seq<ui::HistoryEntryView> {
    if m.role == "assistant"@ && m.tool_calls.len() > 0 {
        (if text::trimmed(m.content).len() > 0 {
            seq![text_entry("assistant"@, m.content, false)]
        } else {
            Seq::empty()
        }) + m.tool_calls.map_values(|c: message::ToolCallView| call_entry(c))
    } else if m.role == "assistant"@ {
        seq![text_entry("assistant"@, m.content, false)]
    } else if m.role == "tool"@ {
        seq![text_entry("tool"@, m.content, m.is_error)]
    } else {
        seq![text_entry("user"@, m.content, false)]
    }
}

/// The entries of a conversation.
pub open spec fn entries(ms: Seq<message::MessageView>) -> Seq<ui::HistoryEntryView>
    decreases ms.len(),
{
    if ms.len() == 0 {
        Seq::empty()
    } else {
        entries(ms.drop_last()) + entries_for(ms.last())
    }
}

fn make_entry(role: &str, content: &str, is_error: bool) -> (r: HistoryEntry)
    ensures
        r@ == text_entry(role@, content@, is_error),
{
    HistoryEntry {
        role: role.to_string(),
        content: content.to_string(),
        tool_name: empty(),
        tool_input: empty(),
        is_error,
    }
}

fn add_calls(out: &mut Vec<HistoryEntry>, calls: &Vec<ToolCall>)
    ensures
        split::views(final(out)@) == split::views(old(out)@) + split::views(calls@).map_values(
            |c: message::ToolCallView| call_entry(c),
        ),
{
    let ghost all = split::views(calls@).map_values(|c: message::ToolCallView| call_entry(c));
    let ghost start = split::views(out@);
    let mut i: usize = 0;
    assert(start + all.take(0) =~= start);
    while i < calls.len()
        invariant
            i <= calls@.len(),
            all == split::views(calls@).map_values(|c: message::ToolCallView| call_entry(c)),
            split::views(out@) == start + all.take(i as int),
        decreases calls@.len() - i,
    {
        let c = &calls[i];
        assert(all[i as int] == call_entry(c@));
        out.push(
            HistoryEntry {
                role: "assistant".to_string(),
                content: empty(),
                tool_name: c.name.as_str().to_string(),
                tool_input: c.input.as_str().to_string(),
                is_error: false,
            },
        );
        assert(start + all.take(i + 1) =~= (start + all.take(i as int)).push(all[i as int]));
        i += 1;
    }
    assert(all.take(i as int) =~= all);
}

fn add_entries(out: &mut Vec<HistoryEntry>, m: &Message)
    ensures
        split::views(final(out)@) == split::views(old(out)@) + entries_for(m@),
{
    let ghost start = split::views(out@);
    assert(split::views(m.tool_calls@).len() == m.tool_calls@.len());
    if same(m.role.as_str(), "assistant") && m.tool_calls.len() > 0 {
        let t = trim_str(m.content.as_str());
        if !t.as_str().is_empty() {
            out.push(make_entry("assistant", m.content.as_str(), false));
        }
        add_calls(out, &m.tool_calls);
        assert(split::views(out@) =~= start + entries_for(m@));
    } else if same(m.role.as_str(), "assistant") {
        out.push(make_entry("assistant", m.content.as_str(), false));
        assert(split::views(out@) =~= start + entries_for(m@));
    } else if same(m.role.as_str(), "tool") {
        out.push(make_entry("tool", m.content.as_str(), m.is_error));
        assert(split::views(out@) =~= start + entries_for(m@));
    } else {
        out.push(make_entry("user", m.content.as_str(), false));
        assert(split::views(out@) =~= start + entries_for(m@));
    }
}

/// The entries of a conversation, to fill the chat display anew.
pub fn history_entries(messages: &Vec<Message>) -> (r: Vec<HistoryEntry>)
    ensures
        split::views(r@) == entries(split::views(messages@)),
{
    let ghost all = split::views(messages@);
    let mut out: Vec<HistoryEntry> = Vec::new();
    let mut i: usize = 0;
    assert(split::views(out@) =~= entries(all.take(0)));
    while i < messages.len()
        invariant
            i <= messages@.len(),
            all == split::views(messages@),
            split::views(out@) == entries(all.take(i as int)),
        decreases messages@.len() - i,
    {
        assert(all[i as int] == messages@[i as int]@);
        assert(all.take(i + 1).drop_last() =~= all.take(i as int));
        add_entries(&mut out, &messages[i]);
        i += 1;
    }
    assert(all.take(i as int) =~= all);
    out
}

/// Every entry has one of the three roles of the chat display, and only a
/// failed tool result is an error.
pub proof fn law_entry_roles(ms: Seq<message::MessageView>, k: int)
    requires
        0 <= k < entries(ms).len(),
    ensures
        ({
            let e = entries(ms)[k];
            &&& e.role == "user"@ || e.role == "assistant"@ || e.role == "tool"@
            &&& e.is_error ==> e.role == "tool"@
            &&& e.tool_name.len() > 0 ==> e.role == "assistant"@ && e.content.len() == 0
        }),
    decreases ms.len(),
{
    if ms.len() > 0 {
        let before = entries(ms.drop_last());
        if k < before.len() {
            law_entry_roles(ms.drop_last(), k);
        }
    }
}

// ── As a page ───────────────────────────────────────────────────────────────

/// A character as it stands in a page.
pub open spec fn escape_char(c: char) -> Seq<char> {
    if c == '&' {
        "&amp;"@
    } else if c == '<' {
        "&lt;"@
    } else if c == '>' {
        "&gt;"@
    } else if c == '"' {
        "&quot;"@
    } else {
        seq![c]
    }
}

/// A text as it stands in a page.
pub open spec fn escaped(s: Seq<char>) -> Seq<char>
    decreases s.len(),
{
    if s.len() == 0 {
        Seq::empty()
    } else {
        escaped(s.drop_last()) + escape_char(s.last())
    }
}

/// Escapes the characters that mean something in a page.
pub fn html_escape(s: &str) -> (r: String)
    ensures
        r@ == escaped(s@),
{
    let mut out = empty();
    let v = text::chars_of(s);
    let mut i: usize = 0;
    assert(escaped(s@.take(0)) =~= Seq::<char>::empty());
    while i < v.len()
        invariant
            i <= v@.len(),
            v@ == s@,
            out@ == escaped(s@.take(i as int)),
        decreases v@.len() - i,
    {
        assert(s@.take(i + 1).drop_last() =~= s@.take(i as int));
        let c = v[i];
        if c == '&' {
            out.append("&amp;");
        } else if c == '<' {
            out.append("&lt;");
        } else if c == '>' {
            out.append("&gt;");
        } else if c == '"' {
            out.append("&quot;");
        } else {
            out.push(c);
            assert(escaped(s@.take(i as int)) + seq![c] =~= escaped(s@.take(i as int)).push(c));
        }
        i += 1;
    }
    assert(s@.take(i as int) =~= s@);
    out
}

/// An escaped text holds no angle bracket and no quotation mark.
pub proof fn law_escaped_is_inert(s: Seq<char>, k: int)
    requires
        0 <= k < escaped(s).len(),
    ensures
        escaped(s)[k] != '<' && escaped(s)[k] != '>' && escaped(s)[k] != '"',
    decreases s.len(),
{
    if s.len() > 0 {
        let before = escaped(s.drop_last());
        if k < before.len() {
            law_escaped_is_inert(s.drop_last(), k);
        } else {
            reveal_strlit("&amp;");
            reveal_strlit("&lt;");
            reveal_strlit("&gt;");
            reveal_strlit("&quot;");
            assert(escaped(s)[k] == escape_char(s.last())[k - before.len()]);
        }
    }
}

/// The head of a page.
pub const PAGE_HEAD: &'static str = "<!DOCTYPE html>\n<html><head><meta charset=\"utf-8\"><title>Marlin Session</title><style>body{font-family:system-ui,sans-serif;max-width:900px;margin:0 auto;padding:2em;background:#1a1b26;color:#c0caf5;}.user{color:#7aa2f7;margin:1em 0;}.assistant{color:#9ece6a;margin:1em 0;}.tool{color:#e0af68;margin:0.5em 0;font-size:0.9em;}.error{color:#f7768e;margin:0.5em 0;}.system{color:#565f89;margin:0.5em 0;font-size:0.85em;}pre{background:#24283b;padding:0.8em;border-radius:6px;overflow-x:auto;}code{font-family:monospace;}.summary{color:#9ece6a;opacity:0.7;margin:1em 0;font-style:italic;}</style></head><body>\n<h1>Marlin Session</h1>\n";

/// The blocks of the calls of a message.
pub open spec fn call_blocks(calls: Seq<message::ToolCallView>) -> Seq<char>
    decreases calls.len(),
{
    if calls.len() == 0 {
        Seq::empty()
    } else {
        call_blocks(calls.drop_last()) + ("<div class=\"tool\"><strong>🔧 "@ + escaped(
            calls.last().name,
        ) + "</strong><pre>"@ + escaped(calls.last().input) + "</pre></div>\n"@)
    }
}

/// A message as a block of a page. One with another role is left out.
pub open spec fn block(m: message::MessageView) -> Seq<char> {
    let content = escaped(m.content);
    if m.role == "user"@ {
        "<div class=\"user\"><strong>You</strong><pre>"@ + content + "</pre></div>\n"@
    } else if m.role == "assistant"@ {
        call_blocks(m.tool_calls) + (if content.len() > 0 {
            "<div class=\"assistant\"><strong>Marlin</strong><pre>"@ + content
                + "</pre></div>\n"@
        } else {
            Seq::empty()
        })
    } else if m.role == "tool"@ {
        "<div class=\""@ + (if m.is_error {
            "error"@
        } else {
            "tool"@
        }) + "\"><strong>↳ result</strong><pre>"@ + content + "</pre></div>\n"@
    } else {
        Seq::empty()
    }
}

/// Some messages as blocks of a page.
pub open spec fn blocks(ms: Seq<message::MessageView>) -> Seq<char>
    decreases ms.len(),
{
    if ms.len() == 0 {
        Seq::empty()
    } else {
        blocks(ms.drop_last()) + block(ms.last())
    }
}

/// A conversation as a page.
pub open spec fn page(ms: Seq<message::MessageView>) -> Seq<char> {
    PAGE_HEAD@ + blocks(ms) + "</body></html>\n"@
}

fn show_call_blocks(calls: &Vec<ToolCall>) -> (r: String)
    ensures
        r@ == call_blocks(split::views(calls@)),
{
    let ghost all = split::views(calls@);
    let mut out = empty();
    let mut i: usize = 0;
    assert(call_blocks(all.take(0)) =~= Seq::<char>::empty());
    while i < calls.len()
        invariant
            i <= calls@.len(),
            all == split::views(calls@),
            out@ == call_blocks(all.take(i as int)),
        decreases calls@.len() - i,
    {
        let c = &calls[i];
        assert(all[i as int] == c@);
        assert(all.take(i + 1).drop_last() =~= all.take(i as int));
        let n = html_escape(c.name.as_str());
        let a = html_escape(c.input.as_str());
        let b = cat5(
            "<div class=\"tool\"><strong>🔧 ",
            n.as_str(),
            "</strong><pre>",
            a.as_str(),
            "</pre></div>\n",
        );
        out.append(b.as_str());
        i += 1;
    }
    assert(all.take(i as int) =~= all);
    out
}

fn show_block(m: &Message) -> (r: String)
    ensures
        r@ == block(m@),
{
    let content = html_escape(m.content.as_str());
    if same(m.role.as_str(), "user") {
        cat3(
            "<div class=\"user\"><strong>You</strong><pre>",
            content.as_str(),
            "</pre></div>\n",
        )
    } else if same(m.role.as_str(), "assistant") {
        let calls = show_call_blocks(&m.tool_calls);
        let rest = if content.as_str().is_empty() {
            empty()
        } else {
            cat3(
                "<div class=\"assistant\"><strong>Marlin</strong><pre>",
                content.as_str(),
                "</pre></div>\n",
            )
        };
        cat2(calls.as_str(), rest.as_str())
    } else if same(m.role.as_str(), "tool") {
        let class = if m.is_error {
            "error"
        } else {
            "tool"
        };
        cat5(
            "<div class=\"",
            class,
            "\"><strong>↳ result</strong><pre>",
            content.as_str(),
            "</pre></div>\n",
        )
    } else {
        empty()
    }
}

/// A conversation as a page that stands by itself.
pub fn export_html(messages: &Vec<Message>) -> (r: String)
    ensures
        r@ == page(split::views(messages@)),
{
    let ghost all = split::views(messages@);
    let mut out = PAGE_HEAD.to_string();
    let mut i: usize = 0;
    assert(PAGE_HEAD@ + blocks(all.take(0)) =~= PAGE_HEAD@);
    while i < messages.len()
        invariant
            i <= messages@.len(),
            all == split::views(messages@),
            out@ == PAGE_HEAD@ + blocks(all.take(i as int)),
        decreases messages@.len() - i,
    {
        assert(all[i as int] == messages@[i as int]@);
        assert(all.take(i + 1).drop_last() =~= all.take(i as int));
        let b = show_block(&messages[i]);
        let ghost before = blocks(all.take(i as int));
        out.append(b.as_str());
        assert(PAGE_HEAD@ + (before + b@) =~= PAGE_HEAD@ + before + b@);
        i += 1;
    }
    assert(all.take(i as int) =~= all);
    out.append("</body></html>\n");
    out
}

// ── Laws of transcripts ─────────────────────────────────────────────────────

/// Each message is told by itself: what two conversations one behind the other come
/// to is what the first and then what the second comes to.
pub proof fn law_messages_follow_each_other(
    a: Seq<message::MessageView>,
    b: Seq<message::MessageView>,
    m: message::MessageView,
)
    ensures
        digests(a + b) == digests(a) + digests(b),
        entries(a + b) == entries(a) + entries(b),
        blocks(a + b) == blocks(a) + blocks(b),
        digests(seq![m]) == digest(m),
        entries(seq![m]) == entries_for(m),
        blocks(seq![m]) == block(m),
    decreases b.len(),
{
    let one = seq![m];
    assert(one.drop_last() =~= Seq::<message::MessageView>::empty());
    assert(digests(one.drop_last()) + digest(m) =~= digest(m));
    assert(entries(one.drop_last()) + entries_for(m) =~= entries_for(m));
    assert(blocks(one.drop_last()) + block(m) =~= block(m));
    if b.len() == 0 {
        assert(a + b =~= a);
        assert(digests(a) + digests(b) =~= digests(a));
        assert(entries(a) + entries(b) =~= entries(a));
        assert(blocks(a) + blocks(b) =~= blocks(a));
    } else {
        let init = b.drop_last();
        law_messages_follow_each_other(a, init, m);
        assert((a + b).drop_last() =~= a + init);
        assert(digests(a + b) =~= digests(a) + digests(b));
        assert(entries(a + b) =~= entries(a) + entries(b));
        assert(blocks(a + b) =~= blocks(a) + blocks(b));
    }
}

/// The calls of a message follow each other in what is told of them.
pub proof fn law_calls_follow_each_other(
    a: Seq<message::ToolCallView>,
    b: Seq<message::ToolCallView>,
    c: message::ToolCallView,
    more: Seq<char>,
)
    requires
        c.input.len() <= 200,
    ensures
        call_lines(a + b) == call_lines(a) + call_lines(b),
        call_blocks(a + b) == call_blocks(a) + call_blocks(b),
        call_lines(seq![c]) == "  [tool_call] "@ + c.name + "("@ + c.input + ")\n"@,
        c.input.len() == 200 ==> call_lines(
            seq![message::ToolCallView { input: c.input + more, ..c }],
        ) == call_lines(seq![c]),
    decreases b.len(),
{
    let one = seq![c];
    let long = message::ToolCallView { input: c.input + more, ..c };
    let none = Seq::<char>::empty();
    assert(one.drop_last() =~= Seq::<message::ToolCallView>::empty());
    assert(seq![long].drop_last() =~= Seq::<message::ToolCallView>::empty());
    number::law_first_chars(c.input, more);
    let room = Seq::new((200 - c.input.len()) as nat, |i: int| ' ');
    number::law_first_chars(c.input, room);
    let line = "  [tool_call] "@ + c.name + "("@ + c.input + ")\n"@;
    assert(call_lines(one.drop_last()) + line =~= line);
    if b.len() == 0 {
        assert(a + b =~= a);
        assert(call_lines(a) + call_lines(b) =~= call_lines(a));
        assert(call_blocks(a) + call_blocks(b) =~= call_blocks(a));
    } else {
        let init = b.drop_last();
        law_calls_follow_each_other(a, init, c, more);
        assert((a + b).drop_last() =~= a + init);
        assert(call_lines(a + b) =~= call_lines(a) + call_lines(b));
        assert(call_blocks(a + b) =~= call_blocks(a) + call_blocks(b));
    }
}

proof fn lemma_roles()
    ensures
        "tool"@.len() == 4 && "tool"@[0] == 't',
        "user"@.len() == 4 && "user"@[0] == 'u',
        "assistant"@.len() == 9,
{
    reveal_strlit("tool");
    reveal_strlit("user");
    reveal_strlit("assistant");
}

/// A digest tells a short message whole and cuts a longer one: the result of a tool
/// at 400 characters, the words of the user at 600.
pub proof fn law_digest(m: message::MessageView, a: Seq<char>, b: Seq<char>)
    requires
        m.content == a + b,
    ensures
        m.role == "tool"@ && (a.len() == 400 || (a.len() < 400 && b.len() == 0)) ==> digest(m)
            == "  [tool_result]: "@ + a + "\n\n"@,
        m.role == "user"@ && (a.len() == 600 || (a.len() < 600 && b.len() == 0)) ==> digest(m)
            == "["@ + "user"@ + "]: "@ + a + "\n\n"@,
{
    lemma_roles();
    number::law_first_chars(a, b);
    assert(b.len() == 0 ==> a + b =~= a);
    if b.len() == 0 && a.len() < 400 {
        let room = Seq::new((400 - a.len()) as nat, |i: int| ' ');
        number::law_first_chars(a, room);
    }
    if b.len() == 0 && a.len() < 600 {
        let room = Seq::new((600 - a.len()) as nat, |i: int| ' ');
        number::law_first_chars(a, room);
    }
}

/// A message of the user and a result of a tool are one entry each, with the same
/// words; an assistant's message is one for its text, unless that is blank beside
/// calls, and one for each of its calls, in their order.
pub proof fn law_entries_for(m: message::MessageView, k: int)
    requires
        0 <= k < m.tool_calls.len(),
    ensures
        m.role == "user"@ ==> entries_for(m).len() == 1 && entries_for(m)[0].role == "user"@
            && entries_for(m)[0].content == m.content,
        m.role == "tool"@ ==> entries_for(m).len() == 1 && entries_for(m)[0].role == "tool"@
            && entries_for(m)[0].content == m.content && entries_for(m)[0].is_error == m.is_error,
        m.role == "assistant"@ ==> ({
            let es = entries_for(m);
            let n = es.len() - m.tool_calls.len();
            &&& n == (if text::trimmed(m.content).len() > 0 {
                1int
            } else {
                0
            })
            &&& n == 1 ==> es[0].content == m.content && es[0].tool_name.len() == 0
            &&& es[n + k].tool_name == m.tool_calls[k].name
            &&& es[n + k].tool_input == m.tool_calls[k].input
        }),
{
    lemma_roles();
}

/// Escaping works character by character and leaves all but four as they are.
pub proof fn law_escaped(a: Seq<char>, c: char, b: Seq<char>)
    ensures
        escaped(a + b) == escaped(a) + escaped(b),
        escaped(seq!['<']) == "&lt;"@,
        escaped(seq!['>']) == "&gt;"@,
        escaped(seq!['&']) == "&amp;"@,
        escaped(seq!['"']) == "&quot;"@,
        c != '<' && c != '>' && c != '&' && c != '"' ==> escaped(seq![c]) == seq![c],
    decreases b.len(),
{
    lemma_escape_one('<');
    lemma_escape_one('>');
    lemma_escape_one('&');
    lemma_escape_one('"');
    lemma_escape_one(c);
    if b.len() == 0 {
        assert(a + b =~= a);
        assert(escaped(a) + escaped(b) =~= escaped(a));
    } else {
        law_escaped(a, c, b.drop_last());
        assert((a + b).drop_last() =~= a + b.drop_last());
        assert(escaped(a + b) =~= escaped(a) + escaped(b));
    }
}

proof fn lemma_escape_one(c: char)
    ensures
        escaped(seq![c]) == escape_char(c),
{
    let s = seq![c];
    assert(s.drop_last() =~= Seq::<char>::empty());
    assert(escaped(s.drop_last()) + escape_char(c) =~= escape_char(c));
}

/// A page holds the words of each message of the user, of the assistant and of each
/// result of a tool, escaped.
pub proof fn law_page_holds_each_message(ms: Seq<message::MessageView>, i: int)
    requires
        0 <= i < ms.len(),
        ms[i].role == "user"@ || ms[i].role == "assistant"@ || ms[i].role == "tool"@,
    ensures
        text::occurs(page(ms), escaped(ms[i].content)),
        PAGE_HEAD@.is_prefix_of(page(ms)),
        "</body></html>\n"@.is_suffix_of(page(ms)),
{
    let m = ms[i];
    let a = ms.take(i);
    let b = ms.skip(i + 1);
    assert(ms =~= a + seq![m] + b);
    law_messages_follow_each_other(a, seq![m], m);
    law_messages_follow_each_other(a + seq![m], b, m);
    lemma_block_holds(m);
    let c = escaped(m.content);
    let end = "</body></html>\n"@;
    let p = page(ms);
    assert(p =~= (PAGE_HEAD@ + blocks(a)) + block(m) + (blocks(b) + end));
    text::law_occurs_within(PAGE_HEAD@ + blocks(a), block(m), blocks(b) + end, c);
    assert(p.subrange(0, PAGE_HEAD@.len() as int) =~= PAGE_HEAD@);
    assert(p.subrange(p.len() - end.len(), p.len() as int) =~= end);
}

proof fn lemma_block_holds(m: message::MessageView)
    requires
        m.role == "user"@ || m.role == "assistant"@ || m.role == "tool"@,
    ensures
        text::occurs(block(m), escaped(m.content)),
{
    lemma_roles();
    let c = escaped(m.content);
    let none = Seq::<char>::empty();
    let end = "</pre></div>\n"@;
    if m.role == "user"@ {
        text::law_occurs_in_middle("<div class=\"user\"><strong>You</strong><pre>"@, c, end);
    } else if m.role == "assistant"@ {
        let calls = call_blocks(m.tool_calls);
        if c.len() > 0 {
            let head = "<div class=\"assistant\"><strong>Marlin</strong><pre>"@;
            assert(block(m) =~= (calls + head) + c + end);
            text::law_occurs_in_middle(calls + head, c, end);
        } else {
            assert(block(m) =~= none + c + calls);
            text::law_occurs_in_middle(none, c, calls);
        }
    } else {
        let head = "<div class=\""@ + (if m.is_error {
            "error"@
        } else {
            "tool"@
        }) + "\"><strong>↳ result</strong><pre>"@;
        text::law_occurs_in_middle(head, c, end);
    }
}

/// The words of an assistant's message with calls are cut at 300 characters and its
/// calls follow; blank words are not told. Without calls it is cut at 600.
pub proof fn law_digest_of_the_assistant(m: message::MessageView, a: Seq<char>, b: Seq<char>)
    requires
        m.role == "assistant"@,
        m.content == a + b,
    ensures
        m.tool_calls.len() > 0 && a.len() > 0 && (a.len() == 300 || (a.len() < 300 && b.len() == 0))
            ==> digest(m) == "[assistant]: "@ + a + "\n"@ + call_lines(m.tool_calls) + "\n"@,
        m.tool_calls.len() > 0 && m.content.len() == 0 ==> digest(m) == call_lines(m.tool_calls)
            + "\n"@,
        m.tool_calls.len() == 0 && (a.len() == 600 || (a.len() < 600 && b.len() == 0)) ==> digest(m)
            == "["@ + "assistant"@ + "]: "@ + a + "\n\n"@,
{
    lemma_roles();
    number::law_first_chars(a, b);
    assert(b.len() == 0 ==> a + b =~= a);
    let none = Seq::<char>::empty();
    assert(none + call_lines(m.tool_calls) =~= call_lines(m.tool_calls));
    if b.len() == 0 && a.len() < 300 {
        let room = Seq::new((300 - a.len()) as nat, |i: int| ' ');
        number::law_first_chars(a, room);
    }
    if b.len() == 0 && a.len() < 600 {
        let room = Seq::new((600 - a.len()) as nat, |i: int| ' ');
        number::law_first_chars(a, room);
    }
}

} // verus!
