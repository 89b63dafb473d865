//! Estimates the token cost of what is sent with every request: the system
//! prompt and the tool definitions.
//!
//! The estimate warns and never blocks.

use crate::number::{self, byte_size, pad, show};
use crate::split::{self, join};
use crate::text::{self, cat5, cat6};
use vstd::prelude::*;

verus! {

broadcast use {split::lemma_texts_push, split::lemma_views_push};

/// Above this many tokens the report warns.
pub const WARN_THRESHOLD: usize = 4_000;

/// One part of what is sent, with its estimated tokens.
pub struct Component {
    pub name: String,
    pub tokens: usize,
}

/// The model of a component.
pub struct ComponentView {
    pub name: Seq<char>,
    pub tokens: nat,
}

impl View for Component {
    type V = ComponentView;

    open spec fn view(&self) -> ComponentView {
        ComponentView { name: self.name@, tokens: self.tokens as nat }
    }
}

/// The estimate: its components and their total.
pub struct Report {
    pub components: Vec<Component>,
    pub total: usize,
}

/// A named parameter of a tool.
pub struct ToolProperty {
    pub name: String,
    pub description: String,
}

/// A tool as it is described to the model.
pub struct ToolDef {
    pub name: String,
    pub description: String,
    pub properties: Vec<ToolProperty>,
}

/// The model of a tool's parameter.
pub struct ToolPropertyView {
    pub name: Seq<char>,
    pub description: Seq<char>,
}

impl View for ToolProperty {
    type V = ToolPropertyView;

    open spec fn view(&self) -> ToolPropertyView {
        ToolPropertyView { name: self.name@, description: self.description@ }
    }
}

/// The model of a tool.
pub struct ToolDefView {
    pub name: Seq<char>,
    pub description: Seq<char>,
    pub properties: Seq<ToolPropertyView>,
}

impl View for ToolDef {
    type V = ToolDefView;

    open spec fn view(&self) -> ToolDefView {
        ToolDefView {
            name: self.name@,
            description: self.description@,
            properties: split::views(self.properties@),
        }
    }
}

// ── The printed report ──────────────────────────────────────────────────────

/// The line of one component.
pub open spec fn component_line(c: ComponentView) -> Seq<char> {
    "  "@ + number::padded(c.name, 20) + " ~"@ + number::decimal(c.tokens) + "t"@
}

/// The lines of the components.
pub open spec fn component_lines(cs: Seq<ComponentView>) -> Seq<Seq<char>> {
    cs.map_values(|c: ComponentView| component_line(c))
}

/// The line of the total.
pub open spec fn total_line(total: nat) -> Seq<char> {
    "  "@ + number::padded("total"@, 20) + " ~"@ + number::decimal(total) + "t"@ + (if total
        > WARN_THRESHOLD {
        " (over "@ + number::decimal(WARN_THRESHOLD as nat) + "t target)"@
    } else {
        Seq::<char>::empty()
    })
}

/// The report as text: a line per component, then the total.
pub open spec fn report_text(cs: Seq<ComponentView>, total: nat) -> Seq<char> {
    split::joined(component_lines(cs).push(total_line(total)), "\n"@)
}

impl Report {
    /// Whether the total is above the threshold.
    pub fn over_budget(&self) -> (r: bool)
        ensures
            r == (self.total > WARN_THRESHOLD),
            r == is_over(self.total as nat),
    {
        self.total > WARN_THRESHOLD
    }

    /// The report as text.
    pub fn format(&self) -> (r: String)
        ensures
            r@ == report_text(split::views(self.components@), self.total as nat),
    {
        let mut lines: Vec<String> = Vec::new();
        let ghost all = split::views(self.components@);
        let mut i: usize = 0;
        assert(component_lines(all.take(0)) =~= split::texts(lines@));
        while i < self.components.len()
            invariant
                i <= self.components@.len(),
                all == split::views(self.components@),
                split::texts(lines@) == component_lines(all.take(i as int)),
            decreases self.components@.len() - i,
        {
            let c = &self.components[i];
            let name = pad(c.name.as_str(), 20);
            let tokens = show(c.tokens);
            lines.push(cat5("  ", name.as_str(), " ~", tokens.as_str(), "t"));
            proof {
                assert(all[i as int] == c@);
                assert(component_lines(all.take(i + 1)) =~= component_lines(
                    all.take(i as int),
                ).push(component_line(all[i as int])));
            }
            i += 1;
        }
        assert(all.take(i as int) =~= all);
        let name = pad("total", 20);
        let total = show(self.total);
        let over = if self.over_budget() {
            let limit = show(WARN_THRESHOLD);
            text::cat3(" (over ", limit.as_str(), "t target)")
        } else {
            text::empty()
        };
        lines.push(cat6("  ", name.as_str(), " ~", total.as_str(), "t", over.as_str()));
        join(&lines, "\n")
    }
}

// ── The estimate ────────────────────────────────────────────────────────────

/// The tokens of a text: a token for every four bytes, rounded up. The sum is
/// cut off at the largest `usize`.
pub open spec fn token_count(s: Seq<char>) -> nat {
    let n = number::byte_len(s) + 3;
    (if n > usize::MAX {
        usize::MAX as nat
    } else {
        n
    }) / 4
}

/// The tokens of a tool's parameters: 4 more than its texts for each.
pub open spec fn property_tokens(ps: Seq<ToolPropertyView>) -> nat
    decreases ps.len(),
{
    if ps.len() == 0 {
        0
    } else {
        property_tokens(ps.drop_last()) + token_count(ps.last().name) + token_count(
            ps.last().description,
        ) + 4
    }
}

/// The tokens of a tool: 8 more than its texts and parameters.
pub open spec fn tool_tokens(t: ToolDefView) -> nat {
    token_count(t.name) + token_count(t.description) + property_tokens(t.properties) + 8
}

/// The components of the estimate: the system prompt, then each tool.
pub open spec fn estimate(prompt: Seq<char>, tools: Seq<ToolDefView>) -> Seq<ComponentView> {
    seq![ComponentView { name: "system_prompt"@, tokens: token_count(prompt) }] + tools.map_values(
        |t: ToolDefView| ComponentView { name: t.name, tokens: tool_tokens(t) },
    )
}

/// The sum of the components' tokens.
pub open spec fn sum_tokens(cs: Seq<ComponentView>) -> nat
    decreases cs.len(),
{
    if cs.len() == 0 {
        0
    } else {
        sum_tokens(cs.drop_last()) + cs.last().tokens
    }
}

/// A part of the components sums to no more than all of them.
proof fn lemma_sum_prefix(cs: Seq<ComponentView>, i: int)
    requires
        0 <= i <= cs.len(),
    ensures
        sum_tokens(cs.take(i)) <= sum_tokens(cs),
    decreases cs.len(),
{
    if i < cs.len() {
        lemma_sum_prefix(cs.drop_last(), i);
        assert(cs.drop_last().take(i) =~= cs.take(i));
    } else {
        assert(cs.take(i) =~= cs);
    }
}

proof fn lemma_property_prefix(ps: Seq<ToolPropertyView>, i: int)
    requires
        0 <= i <= ps.len(),
    ensures
        property_tokens(ps.take(i)) <= property_tokens(ps),
    decreases ps.len(),
{
    if i < ps.len() {
        lemma_property_prefix(ps.drop_last(), i);
        assert(ps.drop_last().take(i) =~= ps.take(i));
    } else {
        assert(ps.take(i) =~= ps);
    }
}

/// The tokens of a text, by the rule of four bytes to a token.
pub fn count(s: &str) -> (r: usize)
    ensures
        r == token_count(s@),
{
    byte_size(s).saturating_add(3) / 4
}

fn count_properties(ps: &Vec<ToolProperty>) -> (r: usize)
    requires
        property_tokens(split::views(ps@)) <= usize::MAX,
    ensures
        r == property_tokens(split::views(ps@)),
{
    let ghost all = split::views(ps@);
    let mut sum: usize = 0;
    let mut i: usize = 0;
    while i < ps.len()
        invariant
            i <= ps@.len(),
            all == split::views(ps@),
            property_tokens(all) <= usize::MAX,
            sum == property_tokens(all.take(i as int)),
        decreases ps@.len() - i,
    {
        let p = &ps[i];
        proof {
            assert(all[i as int] == p@);
            assert(all.take(i + 1).drop_last() =~= all.take(i as int));
            lemma_property_prefix(all, i + 1);
        }
        sum = sum + (count(p.name.as_str()) + count(p.description.as_str()) + 4);
        i += 1;
    }
    assert(all.take(i as int) =~= all);
    sum
}

/// The estimate for a system prompt and the tools sent with it.
pub fn compute(system_prompt: &str, tools: &Vec<ToolDef>) -> (r: Report)
    requires
        sum_tokens(estimate(system_prompt@, split::views(tools@))) <= usize::MAX,
    ensures
        split::views(r.components@) == estimate(system_prompt@, split::views(tools@)),
        r.total == sum_tokens(estimate(system_prompt@, split::views(tools@))),
{
    let ghost ts = split::views(tools@);
    let ghost all = estimate(system_prompt@, ts);
    let mut components: Vec<Component> = Vec::new();
    let first = count(system_prompt);
    components.push(Component { name: "system_prompt".to_string(), tokens: first });
    let mut total: usize = first;
    let mut i: usize = 0;
    proof {
        reveal_with_fuel(sum_tokens, 2);
        assert(split::views(components@) =~= all.take(1));
    }
    while i < tools.len()
        invariant
            i <= tools@.len(),
            ts == split::views(tools@),
            all == estimate(system_prompt@, ts),
            sum_tokens(all) <= usize::MAX,
            split::views(components@) == all.take(i + 1),
            total == sum_tokens(all.take(i + 1)),
        decreases tools@.len() - i,
    {
        let t = &tools[i];
        proof {
            assert(ts[i as int] == t@);
            assert(all[i + 1] == (ComponentView { name: t.name@, tokens: tool_tokens(t@) }));
            assert(all.take(i + 2).drop_last() =~= all.take(i + 1));
            lemma_sum_prefix(all, i + 2);
        }
        let props = count_properties(&t.properties);
        let tokens = count(t.name.as_str()) + count(t.description.as_str()) + props + 8;
        components.push(Component { name: t.name.as_str().to_string(), tokens });
        total = total + tokens;
        assert(all.take(i + 2) =~= all.take(i + 1).push(all[i + 1]));
        i += 1;
    }
    assert(all.take(i + 1) =~= all);
    Report { components, total }
}

/// The badge that a report puts in the status bar: the total when it is over
/// the threshold.
pub fn badge(r: &Report) -> (b: Option<usize>)
    ensures
        b == (if r.total > WARN_THRESHOLD {
            Some(r.total)
        } else {
            None
        }),
        b is Some <==> is_over(r.total as nat),
{
    if r.over_budget() {
        Some(r.total)
    } else {
        None
    }
}

// ── Laws of the budget ──────────────────────────────────────────────────────

/// Whether a total lies over the target.
pub open spec fn is_over(total: nat) -> bool {
    total > WARN_THRESHOLD
}

/// A total is over the target from four thousand and one tokens on.
pub proof fn law_target(total: nat, more: nat)
    requires
        total <= more,
    ensures
        is_over(total) <==> total >= 4001,
        is_over(total) ==> is_over(more),
{
}

/// A text counts for as many tokens as it has groups of four bytes, the last
/// perhaps not full.
pub proof fn law_four_bytes_a_token(s: Seq<char>)
    requires
        number::byte_len(s) + 3 <= usize::MAX,
    ensures
        4 * token_count(s) >= number::byte_len(s),
        4 * token_count(s) < number::byte_len(s) + 4,
        s.len() == 0 ==> token_count(s) == 0,
{
}

/// The tokens of two lists add up, and each property of a tool counts with its
/// name, its description and four more; each tool has eight more.
pub proof fn law_tokens_add_up(
    a: Seq<ComponentView>,
    b: Seq<ComponentView>,
    c: ComponentView,
    ps: Seq<ToolPropertyView>,
    p: ToolPropertyView,
    t: ToolDefView,
)
    requires
        t.properties == ps.push(p),
    ensures
        sum_tokens(a + b) == sum_tokens(a) + sum_tokens(b),
        sum_tokens(seq![c]) == c.tokens,
        tool_tokens(t) == tool_tokens(ToolDefView { properties: ps, ..t }) + token_count(p.name)
            + token_count(p.description) + 4,
        tool_tokens(ToolDefView { properties: Seq::empty(), ..t }) == token_count(t.name)
            + token_count(t.description) + 8,
    decreases b.len(),
{
    assert(ps.push(p).drop_last() =~= ps);
    assert(seq![c].drop_last() =~= Seq::<ComponentView>::empty());
    assert(sum_tokens(seq![c].drop_last()) == 0);
    if b.len() == 0 {
        assert(a + b =~= a);
    } else {
        law_tokens_add_up(a, b.drop_last(), c, ps, p, t);
        assert((a + b).drop_last() =~= a + b.drop_last());
    }
}

/// The estimate has the prompt first and then each tool under its name, and one
/// more tool adds its tokens to the total.
pub proof fn law_estimate(prompt: Seq<char>, tools: Seq<ToolDefView>, t: ToolDefView)
    ensures
        estimate(prompt, tools).len() == tools.len() + 1,
        estimate(prompt, tools)[0].tokens == token_count(prompt),
        estimate(prompt, tools.push(t)).last().name == t.name,
        estimate(prompt, tools.push(t)).drop_last() == estimate(prompt, tools),
        sum_tokens(estimate(prompt, tools.push(t))) == sum_tokens(estimate(prompt, tools))
            + tool_tokens(t),
        sum_tokens(estimate(prompt, Seq::empty())) == token_count(prompt),
{
    let e = estimate(prompt, tools);
    let f = estimate(prompt, tools.push(t));
    assert(f.drop_last() =~= e);
    let first = estimate(prompt, Seq::empty());
    assert(first =~= seq![ComponentView { name: "system_prompt"@, tokens: token_count(prompt) }]);
    assert(first.drop_last() =~= Seq::<ComponentView>::empty());
    assert(sum_tokens(first.drop_last()) == 0);
}

/// The report has the line of each component, with its name and its tokens, and
/// ends with the total, which carries a warning exactly above 4000 tokens.
pub proof fn law_report(cs: Seq<ComponentView>, total: nat, i: int)
    requires
        0 <= i < cs.len(),
    ensures
        text::occurs(report_text(cs, total), component_line(cs[i])),
        text::occurs(component_line(cs[i]), cs[i].name),
        text::occurs(component_line(cs[i]), " ~"@ + number::decimal(cs[i].tokens) + "t"@),
        text::occurs(report_text(cs, total), " ~"@ + number::decimal(total) + "t"@),
        total > 4000 ==> report_text(cs, total).last() == ')',
        total <= 4000 ==> report_text(cs, total).last() == 't',
{
    let v = component_lines(cs).push(total_line(total));
    split::law_joined_holds_each(v, "\n"@, i);
    assert(v[i] == component_line(cs[i]));
    let n = cs.len() as int;
    split::law_joined_holds_each(v, "\n"@, n);
    assert(v[n] == total_line(total));
    let none = Seq::<char>::empty();
    lemma_line(cs[i].name, cs[i].tokens, none);
    lemma_line("total"@, total, total_tail(total));
    assert(component_line(cs[i]) =~= component_line(cs[i]) + none);
    assert(total_line(total) =~= "  "@ + number::padded("total"@, 20) + " ~"@ + number::decimal(
        total,
    ) + "t"@ + total_tail(total));
    lemma_within(report_text(cs, total), total_line(total), " ~"@ + number::decimal(total) + "t"@);
    assert(v.drop_last() =~= component_lines(cs));
    reveal_strlit("t");
    reveal_strlit("t target)");
    assert(total_line(total).len() > 0);
    assert(report_text(cs, total).last() == total_line(total).last());
}

spec fn total_tail(total: nat) -> Seq<char> {
    if total > WARN_THRESHOLD {
        " (over "@ + number::decimal(WARN_THRESHOLD as nat) + "t target)"@
    } else {
        Seq::<char>::empty()
    }
}

proof fn lemma_within(s: Seq<char>, m: Seq<char>, x: Seq<char>)
    requires
        text::occurs(s, m),
        text::occurs(m, x),
    ensures
        text::occurs(s, x),
{
    text::law_occurs(s, m);
    let (a, b) = choose|a: Seq<char>, b: Seq<char>| s == #[trigger] (a + m + b);
    text::law_occurs_within(a, m, b, x);
}

proof fn lemma_line(name: Seq<char>, tokens: nat, tail: Seq<char>)
    ensures
        ({
            let line = "  "@ + number::padded(name, 20) + " ~"@ + number::decimal(tokens) + "t"@
                + tail;
            &&& text::occurs(line, name)
            &&& text::occurs(line, " ~"@ + number::decimal(tokens) + "t"@)
        }),
{
    let p = number::padded(name, 20);
    let d = number::decimal(tokens);
    let line = "  "@ + p + " ~"@ + d + "t"@ + tail;
    let m = " ~"@ + d + "t"@;
    assert(line =~= ("  "@ + p) + m + tail);
    text::law_occurs_in_middle("  "@ + p, m, tail);
    let rest = p.skip(name.len() as int);
    number::law_padded(name, 20);
    assert(p =~= name + rest);
    assert(line =~= "  "@ + name + (rest + m + tail));
    text::law_occurs_in_middle("  "@, name, rest + m + tail);
}

} // verus!
