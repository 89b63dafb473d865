//! Condensing the older part of a conversation into a summary.

use crate::dup::Dup;
use crate::engine::{Engine, EngineView};
use crate::message::{self, Message, MessageView};
use crate::number::{self, show};
use crate::outbox::{self, Outbox};
use crate::split;
use crate::text::{self, cat2, cat3, cat4, cat5, contains_str, trim_str};
use crate::transcript::{self, compact_serialize};
use vstd::prelude::*;

verus! {

broadcast use {split::lemma_texts_push, split::lemma_views_push};

/// How many of the last messages stay as they are.
pub const KEEP_RECENT: usize = 8;

/// How many tokens a conversation must grow before it is condensed again.
pub const REGROWTH: usize = 5_000;

/// What the model is asked when it is to condense a conversation.
pub const SUMMARY_REQUEST: &'static str = "Produce a dense technical summary of this coding session fragment for an AI coding assistant. Include: files created/modified (with key changes), commands run and their outcomes, errors encountered and how they were resolved, decisions made, and current task state. Be precise and comprehensive — this summary replaces the original turns in context.\n\n";

/// How many messages are condensed now, of a conversation of `tokens` tokens:
/// all but the last, where it has reached `threshold` and has grown enough
/// since the last time. None if it stays as it is.
pub open spec fn due(e: EngineView, tokens: int, threshold: int) -> Option<int> {
    if tokens < threshold || e.history.len() <= KEEP_RECENT || (e.compact_guard_tokens > 0
        && tokens < e.compact_guard_tokens + REGROWTH) {
        None
    } else {
        Some(e.history.len() - KEEP_RECENT)
    }
}

/// The message that takes the place of the first `n`.
pub open spec fn summary_message(n: int, summary: Seq<char>) -> MessageView {
    message::user_message(
        "[Marlin Context Summary — "@ + number::decimal(n as nat) + " turns condensed]\n"@
            + text::trimmed(summary),
    )
}

/// A conversation whose first `n` messages are condensed.
pub open spec fn condensed(
    h: Seq<MessageView>,
    n: int,
    summary: Seq<char>,
) -> Seq<MessageView> {
    seq![summary_message(n, summary)] + h.skip(n)
}

/// The first model of the list whose name holds `part`; the length of the list
/// if there is none.
pub open spec fn model_with(ms: Seq<Seq<char>>, part: Seq<char>) -> int
    decreases ms.len(),
{
    if ms.len() == 0 {
        0
    } else if text::occurs(ms[0], part) {
        0
    } else {
        1 + model_with(ms.drop_first(), part)
    }
}

/// The model that condenses: a haiku, else a sonnet, else the first of the
/// active provider's models; the active model where the provider has none or
/// is not there.
pub open spec fn cheapest_of(e: EngineView, models: Option<Seq<Seq<char>>>) -> Seq<char> {
    match models {
        Some(ms) => {
            let h = model_with(ms, "haiku"@);
            let s = model_with(ms, "sonnet"@);
            if h < ms.len() {
                ms[h]
            } else if s < ms.len() {
                ms[s]
            } else if ms.len() > 0 {
                ms[0]
            } else {
                e.cfg.active_model
            }
        },
        None => e.cfg.active_model,
    }
}

/// The texts of an optional list of strings.
pub open spec fn opt_texts(v: Option<Vec<String>>) -> Option<Seq<Seq<char>>> {
    match v {
        Some(v) => Some(split::texts(v@)),
        None => None,
    }
}

fn find_model(ms: &Vec<String>, part: &str) -> (r: usize)
    ensures
        r == model_with(split::texts(ms@), part@),
        r <= ms@.len(),
{
    let ghost all = split::texts(ms@);
    let mut i: usize = 0;
    assert(all.skip(0) =~= all);
    while i < ms.len()
        invariant
            i <= ms@.len(),
            all == split::texts(ms@),
            model_with(all, part@) == i + model_with(all.skip(i as int), part@),
        decreases ms@.len() - i,
    {
        assert(all[i as int] == ms@[i as int]@);
        assert(all.skip(i as int).drop_first() =~= all.skip(i + 1));
        if contains_str(ms[i].as_str(), part) {
            return i;
        }
        i += 1;
    }
    i
}

impl Engine {
    /// How many messages are condensed now, if any.
    pub fn compaction_due(&self, tokens: usize, threshold: usize) -> (r: Option<usize>)
        ensures
            match r {
                Some(n) => due(self@, tokens as int, threshold as int) == Some(n as int),
                None => due(self@, tokens as int, threshold as int) is None,
            },
    {
        assert(split::views(self.history@).len() == self.history@.len());
        let guard = self.compact_guard_tokens;
        if tokens < threshold || self.history.len() <= KEEP_RECENT {
            return None;
        }
        if guard > 0 && (tokens < guard || tokens - guard < REGROWTH) {
            return None;
        }
        Some(self.history.len() - KEEP_RECENT)
    }

    /// The model that condenses, given the models of the active provider, if it
    /// is there.
    pub fn cheapest_model(&self, models: &Option<Vec<String>>) -> (r: (String, String))
        ensures
            r.0@ == self@.cfg.active_provider,
            r.1@ == cheapest_of(self@, opt_texts(*models)),
    {
        let p = self.cfg.active_provider.as_str().to_string();
        let own = self.cfg.active_model.as_str().to_string();
        let m = match models {
            Some(ms) => {
                assert(split::texts(ms@).len() == ms@.len());
                let h = find_model(ms, "haiku");
                let s = find_model(ms, "sonnet");
                if h < ms.len() {
                    ms[h].as_str().to_string()
                } else if s < ms.len() {
                    ms[s].as_str().to_string()
                } else if ms.len() > 0 {
                    ms[0].as_str().to_string()
                } else {
                    own
                }
            },
            None => own,
        };
        (p, m)
    }

    /// The message that asks for a summary of the first `n` messages.
    pub fn summary_request(&self, n: usize) -> (r: Message)
        requires
            n <= self@.history.len(),
        ensures
            r@ == message::user_message(
                SUMMARY_REQUEST@ + transcript::digests(self@.history.take(n as int)),
            ),
    {
        let ctx = compact_serialize(&self.history, n);
        Message::new_user(cat2(SUMMARY_REQUEST, ctx.as_str()))
    }

    /// Tells the user that the conversation is being condensed.
    pub fn announce_compaction(&self, tokens: usize, n: usize, out: &mut Outbox)
        ensures
            final(out)@ == old(out)@.push(
                outbox::says(
                    "Compacting context (~"@ + number::decimal(tokens as nat)
                        + " tokens) — summarizing "@ + number::decimal(n as nat)
                        + " older turns…"@,
                ),
            ),
    {
        let t = show(tokens);
        let k = show(n);
        out.sys(
            cat5(
                "Compacting context (~",
                t.as_str(),
                " tokens) — summarizing ",
                k.as_str(),
                " older turns…",
            ),
        );
    }

    /// Puts a summary in the place of the first `n` messages. An empty summary
    /// changes nothing, and the result says so.
    pub fn apply_summary(&mut self, n: usize, summary: &str) -> (r: bool)
        requires
            n <= old(self)@.history.len(),
        ensures
            r == (text::trimmed(summary@).len() > 0),
            !r ==> final(self)@ == old(self)@,
            r ==> final(self)@ == (EngineView {
                history: condensed(old(self)@.history, n as int, summary@),
                ..old(self)@
            }),
    {
        let t = trim_str(summary);
        if t.as_str().is_empty() {
            return false;
        }
        let ghost all = split::views(self.history@);
        let k = show(n);
        let head = Message::new_user(
            cat4(
                "[Marlin Context Summary — ",
                k.as_str(),
                " turns condensed]\n",
                t.as_str(),
            ),
        );
        let ghost first = head@;
        let mut h: Vec<Message> = Vec::new();
        h.push(head);
        let mut i: usize = n;
        assert(split::views(h@) =~= seq![first] + all.subrange(n as int, n as int));
        while i < self.history.len()
            invariant
                n <= i <= self.history@.len(),
                all == split::views(self.history@),
                split::views(h@) == seq![first] + all.subrange(n as int, i as int),
            decreases self.history@.len() - i,
        {
            assert(all[i as int] == self.history@[i as int]@);
            h.push(self.history[i].dup());
            assert(split::views(h@) =~= seq![first] + all.subrange(n as int, i + 1));
            i += 1;
        }
        assert(all.subrange(n as int, i as int) =~= all.skip(n as int));
        self.history = h;
        true
    }

    /// Notes the size of the condensed conversation and tells the user.
    pub fn report_compaction(&mut self, n: usize, tokens: usize, out: &mut Outbox)
        ensures
            final(self)@ == (EngineView { compact_guard_tokens: tokens, ..old(self)@ }),
            final(out)@ == old(out)@.push(
                outbox::says(
                    "Context compacted: "@ + number::decimal(n as nat)
                        + " turns → 1 summary (~"@ + number::decimal(tokens as nat)
                        + " tokens now)."@,
                ),
            ),
    {
        self.compact_guard_tokens = tokens;
        let k = show(n);
        let t = show(tokens);
        out.sys(
            cat5(
                "Context compacted: ",
                k.as_str(),
                " turns → 1 summary (~",
                t.as_str(),
                " tokens now).",
            ),
        );
    }

    // ── At the user's word ──────────────────────────────────────────────────

    /// How many messages are condensed at the user's word: all but the last
    /// eight. None, with a note, where there are no more than those.
    pub fn manual_compaction(&self, out: &mut Outbox) -> (r: Option<usize>)
        ensures
            match r {
                Some(n) => self@.history.len() > KEEP_RECENT && n == self@.history.len()
                    - KEEP_RECENT && final(out)@ == old(out)@,
                None => self@.history.len() <= KEEP_RECENT && final(out)@ == old(out)@.push(
                    outbox::steers(
                        "[compact] nothing to compact — only "@ + number::decimal(
                            self@.history.len(),
                        ) + " turn(s) in context."@,
                    ),
                ),
            },
            r is Some <==> older_turns(self@) > 0,
            r matches Some(n) ==> n == older_turns(self@),
    {
        assert(split::views(self.history@).len() == self.history@.len());
        if self.history.len() <= KEEP_RECENT {
            let n = show(self.history.len());
            out.steer(
                cat3(
                    "[compact] nothing to compact — only ",
                    n.as_str(),
                    " turn(s) in context.",
                ),
            );
            return None;
        }
        Some(self.history.len() - KEEP_RECENT)
    }

    /// Tells the user that the provider is not there.
    pub fn compaction_unavailable(&self, provider: &str, out: &mut Outbox)
        ensures
            final(out)@ == old(out)@.push(
                outbox::steers("[compact] failed: provider '"@ + provider@ + "' unavailable."@),
            ),
    {
        out.steer(cat3("[compact] failed: provider '", provider, "' unavailable."));
    }

    /// Tells the user that `n` messages are being condensed.
    pub fn manual_compaction_begins(&self, n: usize, out: &mut Outbox)
        ensures
            final(out)@ == old(out)@.push(
                outbox::steers(
                    "[compact] summarizing "@ + number::decimal(n as nat) + " older turns…"@,
                ),
            ),
    {
        let k = show(n);
        out.steer(cat3("[compact] summarizing ", k.as_str(), " older turns…"));
    }

    /// Tells the user that the request failed.
    pub fn manual_compaction_failed(&self, error: &str, out: &mut Outbox)
        ensures
            final(out)@ == old(out)@.push(outbox::steers("[compact] failed: "@ + error@)),
    {
        out.steer(cat2("[compact] failed: ", error));
    }

    /// Puts a summary in the place of the first `n` messages, or tells the user
    /// that it is empty.
    pub fn manual_summary(&mut self, n: usize, summary: &str, out: &mut Outbox) -> (r: bool)
        requires
            n <= old(self)@.history.len(),
        ensures
            r == (text::trimmed(summary@).len() > 0),
            !r ==> final(self)@ == old(self)@ && final(out)@ == old(out)@.push(
                outbox::steers("[compact] failed: model returned an empty summary."@),
            ),
            r ==> final(out)@ == old(out)@ && final(self)@ == (EngineView {
                history: condensed(old(self)@.history, n as int, summary@),
                ..old(self)@
            }),
    {
        if self.apply_summary(n, summary) {
            true
        } else {
            out.steer("[compact] failed: model returned an empty summary.".to_string());
            false
        }
    }

    /// Notes the size of the condensed conversation and tells the user.
    pub fn manual_compaction_done(&mut self, n: usize, tokens: usize, out: &mut Outbox)
        ensures
            final(self)@ == (EngineView { compact_guard_tokens: tokens, ..old(self)@ }),
            final(out)@ == old(out)@.push(
                outbox::steers(
                    "[compact] done: "@ + number::decimal(n as nat) + " turns → 1 summary (~"@
                        + number::decimal(tokens as nat) + " tokens now)."@,
                ),
            ),
    {
        self.compact_guard_tokens = tokens;
        let k = show(n);
        let t = show(tokens);
        out.steer(
            cat5(
                "[compact] done: ",
                k.as_str(),
                " turns → 1 summary (~",
                t.as_str(),
                " tokens now).",
            ),
        );
    }
}

/// Condensing keeps the last eight messages as they are, behind one message
/// with the summary.
pub proof fn law_recent_stay(e: EngineView, tokens: int, threshold: int, summary: Seq<char>)
    requires
        due(e, tokens, threshold) is Some,
    ensures
        ({
            let n = due(e, tokens, threshold)->0;
            let h = condensed(e.history, n, summary);
            &&& h.len() == KEEP_RECENT + 1
            &&& h.skip(1) == e.history.skip(n)
            &&& h.skip(1).len() == KEEP_RECENT
            &&& h[0] == summary_message(n, summary)
        }),
{
    let n = due(e, tokens, threshold)->0;
    let h = condensed(e.history, n, summary);
    assert(h.skip(1) =~= e.history.skip(n));
}

/// A conversation is not condensed again before it has grown by the required
/// tokens since the last time.
pub proof fn law_no_immediate_repeat(e: EngineView, size: usize, tokens: int, threshold: int)
    requires
        size > 0,
        tokens < size + REGROWTH,
    ensures
        due((EngineView { compact_guard_tokens: size, ..e }), tokens, threshold) is None,
{
}

/// How many messages are old enough to be condensed.
pub open spec fn older_turns(e: EngineView) -> int {
    if e.history.len() > KEEP_RECENT {
        e.history.len() - KEEP_RECENT
    } else {
        0
    }
}

/// All but the last eight messages are old enough, and one message more makes one
/// more of them.
pub proof fn law_older_turns(e: EngineView, m: MessageView)
    ensures
        e.history.len() <= 8 ==> older_turns(e) == 0,
        e.history.len() >= 8 ==> older_turns(e) + 8 == e.history.len() && older_turns(
            EngineView { history: e.history.push(m), ..e },
        ) == older_turns(e) + 1,
{
}

/// Condensing falls due exactly once the threshold is reached, with more than eight
/// messages, and, after an earlier time, five thousand tokens later; all but the
/// last eight messages go. What is due stays due as the conversation grows.
pub proof fn law_due(e: EngineView, tokens: int, more: int, threshold: int)
    requires
        tokens <= more,
    ensures
        due(e, tokens, threshold) is Some <==> tokens >= threshold && e.history.len() > 8 && (
        e.compact_guard_tokens == 0 || tokens - e.compact_guard_tokens >= 5000),
        due(e, tokens, threshold) is Some ==> due(e, tokens, threshold)->0 + 8 == e.history.len(),
        due(e, tokens, threshold) is Some ==> due(e, more, threshold) == due(e, tokens, threshold),
{
}

/// The summary takes the place of the messages in front and tells how many they
/// were; the messages behind stay.
pub proof fn law_condensed(a: Seq<MessageView>, b: Seq<MessageView>, summary: Seq<char>)
    ensures
        condensed(a + b, a.len() as int, summary).len() == b.len() + 1,
        condensed(a + b, a.len() as int, summary).drop_first() == b,
        condensed(a + b, a.len() as int, summary)[0] == message::user_message(
            "[Marlin Context Summary — "@ + number::decimal(a.len())
                + " turns condensed]\n"@ + text::trimmed(summary),
        ),
{
    assert(condensed(a + b, a.len() as int, summary).drop_first() =~= b);
}

/// The first model of a list whose name holds a part is found.
proof fn lemma_model_with(a: Seq<Seq<char>>, m: Seq<char>, b: Seq<Seq<char>>, part: Seq<char>)
    requires
        forall|k: int| 0 <= k < a.len() ==> !text::occurs(#[trigger] a[k], part),
        text::occurs(m, part),
    ensures
        model_with(a.push(m) + b, part) == a.len(),
    decreases a.len(),
{
    let all = a.push(m) + b;
    if a.len() > 0 {
        assert(all[0] == a[0]);
        assert(all.drop_first() =~= a.drop_first().push(m) + b);
        assert forall|k: int| 0 <= k < a.drop_first().len() implies !text::occurs(
            #[trigger] a.drop_first()[k],
            part,
        ) by {
            assert(a.drop_first()[k] == a[k + 1]);
        }
        lemma_model_with(a.drop_first(), m, b, part);
    } else {
        assert(all[0] == m);
    }
}

proof fn lemma_no_model(a: Seq<Seq<char>>, part: Seq<char>)
    requires
        forall|k: int| 0 <= k < a.len() ==> !text::occurs(#[trigger] a[k], part),
    ensures
        model_with(a, part) == a.len(),
    decreases a.len(),
{
    if a.len() > 0 {
        assert(!text::occurs(a[0], part));
        assert forall|k: int| 0 <= k < a.drop_first().len() implies !text::occurs(
            #[trigger] a.drop_first()[k],
            part,
        ) by {
            assert(a.drop_first()[k] == a[k + 1]);
        }
        lemma_no_model(a.drop_first(), part);
    }
}

/// The cheapest model is the first of the small family; without one, the first of
/// the middle family; without either, the first of the list. Without a list, or
/// with an empty one, it is the model in use.
pub proof fn law_cheapest(
    e: EngineView,
    a: Seq<Seq<char>>,
    m: Seq<char>,
    b: Seq<Seq<char>>,
)
    ensures
        (forall|k: int| 0 <= k < a.len() ==> !text::occurs(#[trigger] a[k], "haiku"@))
            && text::occurs(m, "haiku"@) ==> cheapest_of(e, Some(a.push(m) + b)) == m,
        (forall|k: int|
            0 <= k < (a.push(m) + b).len() ==> !text::occurs(
                #[trigger] (a.push(m) + b)[k],
                "haiku"@,
            )) && (forall|k: int| 0 <= k < a.len() ==> !text::occurs(#[trigger] a[k], "sonnet"@))
            && text::occurs(m, "sonnet"@) ==> cheapest_of(e, Some(a.push(m) + b)) == m,
        (forall|k: int|
            0 <= k < b.len() ==> !text::occurs(#[trigger] b[k], "haiku"@) && !text::occurs(
                b[k],
                "sonnet"@,
            )) && b.len() > 0 ==> cheapest_of(e, Some(b)) == b[0],
        cheapest_of(e, Some(Seq::empty())) == e.cfg.active_model,
        cheapest_of(e, None) == e.cfg.active_model,
{
    let all = a.push(m) + b;
    assert(all[a.len() as int] == m);
    if (forall|k: int| 0 <= k < a.len() ==> !text::occurs(#[trigger] a[k], "haiku"@))
        && text::occurs(m, "haiku"@) {
        lemma_model_with(a, m, b, "haiku"@);
    }
    if (forall|k: int| 0 <= k < all.len() ==> !text::occurs(#[trigger] all[k], "haiku"@)) && (
    forall|k: int| 0 <= k < a.len() ==> !text::occurs(#[trigger] a[k], "sonnet"@)) && text::occurs(
        m,
        "sonnet"@,
    ) {
        lemma_no_model(all, "haiku"@);
        lemma_model_with(a, m, b, "sonnet"@);
    }
    if forall|k: int|
        0 <= k < b.len() ==> !text::occurs(#[trigger] b[k], "haiku"@) && !text::occurs(
            b[k],
            "sonnet"@,
        ) {
        lemma_no_model(b, "haiku"@);
        lemma_no_model(b, "sonnet"@);
    }
}

} // verus!
