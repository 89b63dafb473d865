//! The commands on providers, models and keys.

use crate::command::{self, Command, CommandView};
use crate::config::{self, find_provider};
use crate::engine::{Engine, EngineView};
use crate::outbox::{self, Effect, EffectView, Outbox};
use crate::settings::{self, listed_in, UserProvider, UserProviderView};
use crate::split::{self, join};
use crate::text::{self, cat2, cat3, cat4, cat5, empty, same, same_ignoring_case};
use vstd::prelude::*;

verus! {

broadcast use {split::lemma_texts_push, split::lemma_views_push};

// ── /provider ───────────────────────────────────────────────────────────────

/// What /provider is asked to do.
pub enum ProviderAsk {
    /// Say how it is used.
    Usage,
    List,
    /// Make the template of a provider with this name.
    Create(String),
    /// Switch to this provider.
    Switch(String),
}

/// The model of what /provider is asked to do.
#[verifier::ext_equal]
pub enum ProviderAskView {
    Usage,
    List,
    Create(Seq<char>),
    Switch(Seq<char>),
}

impl View for ProviderAsk {
    type V = ProviderAskView;

    open spec fn view(&self) -> ProviderAskView {
        match self {
            ProviderAsk::Usage => ProviderAskView::Usage,
            ProviderAsk::List => ProviderAskView::List,
            ProviderAsk::Create(s) => ProviderAskView::Create(s@),
            ProviderAsk::Switch(s) => ProviderAskView::Switch(s@),
        }
    }
}

/// What /provider is asked to do. The first word counts in lower case.
pub open spec fn provider_asked(c: CommandView) -> ProviderAskView {
    match command::word(c, 0) {
        None => ProviderAskView::Usage,
        Some(w) => {
            let sub = text::lowercase(w);
            if sub == "list"@ || sub == "ls"@ {
                ProviderAskView::List
            } else if sub == "new"@ || sub == "create"@ {
                ProviderAskView::Create(
                    match command::word(c, 1) {
                        Some(n) => n,
                        None => "my_provider"@,
                    },
                )
            } else {
                ProviderAskView::Switch(sub)
            }
        },
    }
}

/// What /provider is asked to do.
pub fn ask_provider(c: &Command) -> (r: ProviderAsk)
    ensures
        r@ == provider_asked(c@),
{
    match c.word(0) {
        None => ProviderAsk::Usage,
        Some(w) => {
            let sub = w.to_lowercase();
            let s = sub.as_str();
            if same(s, "list") || same(s, "ls") {
                ProviderAsk::List
            } else if same(s, "new") || same(s, "create") {
                match c.word(1) {
                    Some(n) => ProviderAsk::Create(n.to_string()),
                    None => ProviderAsk::Create("my_provider".to_string()),
                }
            } else {
                ProviderAsk::Switch(sub)
            }
        },
    }
}

/// The lines of the providers, the active one marked.
pub open spec fn provider_lines(names: Seq<Seq<char>>, active: Seq<char>) -> Seq<Seq<char>> {
    names.map_values(
        |n: Seq<char>|
            "  "@ + n + (if n == active {
                " *"@
            } else {
                Seq::empty()
            }),
    )
}

/// The lines of the user's providers that are not in use yet.
pub open spec fn idle_lines(us: Seq<UserProviderView>, names: Seq<Seq<char>>) -> Seq<Seq<char>>
    decreases us.len(),
{
    if us.len() == 0 {
        Seq::empty()
    } else {
        let before = idle_lines(us.drop_last(), names);
        if names.contains(us.last().name) {
            before
        } else {
            before.push("  "@ + us.last().name + " (user, restart to activate)"@)
        }
    }
}

/// The models that a provider lists; None if it is not there.
pub struct ProviderModels {
    pub name: String,
    pub models: Option<Vec<String>>,
}

/// The model of what a provider lists.
#[verifier::ext_equal]
pub struct ProviderModelsView {
    pub name: Seq<char>,
    pub models: Option<Seq<Seq<char>>>,
}

impl View for ProviderModels {
    type V = ProviderModelsView;

    open spec fn view(&self) -> ProviderModelsView {
        ProviderModelsView {
            name: self.name@,
            models: crate::compact::opt_texts(self.models),
        }
    }
}

/// At most the first two of a list.
pub open spec fn first_two(ms: Seq<Seq<char>>) -> Seq<Seq<char>> {
    if ms.len() > 2 {
        ms.take(2)
    } else {
        ms
    }
}

/// The lines of the providers with a glimpse of their models, the active one
/// marked. One that is not there has no line.
pub open spec fn glimpses(ps: Seq<ProviderModelsView>, active: Seq<char>) -> Seq<Seq<char>>
    decreases ps.len(),
{
    if ps.len() == 0 {
        Seq::empty()
    } else {
        let before = glimpses(ps.drop_last(), active);
        match ps.last().models {
            Some(ms) => before.push(
                (if ps.last().name == active {
                    "▶ "@
                } else {
                    "  "@
                }) + ps.last().name + "  ["@ + split::joined(first_two(ms), ", "@) + "...]"@,
            ),
            None => before,
        }
    }
}

fn show_first_two(ms: &Vec<String>) -> (r: String)
    ensures
        r@ == split::joined(first_two(split::texts(ms@)), ", "@),
{
    let ghost all = split::texts(ms@);
    let mut v: Vec<String> = Vec::new();
    if ms.len() > 0 {
        v.push(ms[0].as_str().to_string());
    }
    if ms.len() > 1 {
        v.push(ms[1].as_str().to_string());
    }
    assert(split::texts(v@) =~= first_two(all));
    join(&v, ", ")
}

impl Engine {
    /// /provider without a word.
    pub fn provider_usage(&self, names: &Vec<String>, out: &mut Outbox)
        ensures
            final(out)@ == old(out)@.push(
                outbox::says(
                    "Usage: /provider <name|list|new <name>>  — available: "@ + split::joined(
                        split::texts(names@),
                        ", "@,
                    ),
                ),
            ),
    {
        let l = join(names, ", ");
        out.sys(
            cat2("Usage: /provider <name|list|new <name>>  — available: ", l.as_str()),
        );
    }

    /// /provider list
    pub fn provider_list(&self, names: &Vec<String>, us: &Vec<UserProvider>, out: &mut Outbox)
        ensures
            final(out)@ == old(out)@.push(
                outbox::says(
                    "Providers:\n"@ + split::joined(
                        provider_lines(split::texts(names@), self@.cfg.active_provider)
                            + idle_lines(split::views(us@), split::texts(names@)),
                        "\n"@,
                    ),
                ),
            ),
    {
        let ghost ns = split::texts(names@);
        let ghost users = split::views(us@);
        let ghost first = provider_lines(ns, self@.cfg.active_provider);
        let mut lines: Vec<String> = Vec::new();
        let mut i: usize = 0;
        while i < names.len()
            invariant
                i <= names@.len(),
                ns == split::texts(names@),
                first == provider_lines(ns, self@.cfg.active_provider),
                split::texts(lines@) =~= first.take(i as int),
            decreases names@.len() - i,
        {
            assert(ns[i as int] == names@[i as int]@);
            let n = names[i].as_str();
            let mark = if same(n, self.cfg.active_provider.as_str()) {
                " *".to_string()
            } else {
                empty()
            };
            lines.push(cat3("  ", n, mark.as_str()));
            assert(first[i as int] == lines@.last()@);
            i += 1;
        }
        assert(first.take(i as int) =~= first);
        let mut j: usize = 0;
        assert(first + idle_lines(users.take(0), ns) =~= first);
        while j < us.len()
            invariant
                j <= us@.len(),
                ns == split::texts(names@),
                users == split::views(us@),
                split::texts(lines@) == first + idle_lines(users.take(j as int), ns),
            decreases us@.len() - j,
        {
            let u = &us[j];
            assert(users[j as int] == u@);
            assert(users.take(j + 1).drop_last() =~= users.take(j as int));
            if !listed_in(names, u.name.as_str()) {
                let l = cat3("  ", u.name.as_str(), " (user, restart to activate)");
                let ghost lv = l@;
                lines.push(l);
                assert(first + idle_lines(users.take(j as int), ns).push(lv) =~= (first
                    + idle_lines(users.take(j as int), ns)).push(lv));
            }
            j += 1;
        }
        assert(users.take(j as int) =~= users);
        let body = join(&lines, "\n");
        out.sys(cat2("Providers:\n", body.as_str()));
    }

    /// /provider new: what making the template came to, with its path.
    pub fn provider_created(&self, res: &Result<String, String>, out: &mut Outbox)
        ensures
            final(out)@ == old(out)@.push(
                match res {
                    Ok(p) => outbox::says(
                        "Provider template created:\n  "@ + p@
                            + "\n\nEdit it and restart Marlin to activate."@,
                    ),
                    Err(e) => outbox::warns("Failed to create provider: "@ + e@),
                },
            ),
    {
        match res {
            Ok(p) => out.sys(
                cat3(
                    "Provider template created:\n  ",
                    p.as_str(),
                    "\n\nEdit it and restart Marlin to activate.",
                ),
            ),
            Err(e) => out.err(cat2("Failed to create provider: ", e.as_str())),
        }
    }

    /// /provider with a name; `known` says whether it is there.
    pub fn provider_switch(&mut self, name: &str, known: bool, out: &mut Outbox)
        ensures
            !known ==> final(self)@ == old(self)@ && final(out)@ == old(out)@.push(
                outbox::warns("Unknown provider: "@ + name@),
            ),
            known ==> final(self)@ == settings::on_provider(old(self)@, name@) && final(out)@
                == command::saved(
                old(out)@,
                "Switched to provider: "@ + name@ + "  model: "@ + config::kept_model(
                    old(self)@.cfg.providers,
                    name@,
                ),
            ).push(EffectView::SendStatus),
    {
        if !known {
            out.err(cat2("Unknown provider: ", name));
            return;
        }
        let model = self.switch_provider(name);
        out.add(Effect::SaveConfig);
        out.sys(cat4("Switched to provider: ", name, "  model: ", model.as_str()));
        out.add(Effect::SendStatus);
    }

    /// /model; `models` are those of the active provider, if it is there.
    pub fn cmd_model(&mut self, c: &Command, models: &Option<Vec<String>>, out: &mut Outbox)
        ensures
            match command::word(c@, 0) {
                None => final(self)@ == old(self)@ && final(out)@ == (
                match crate::compact::opt_texts(*models) {
                    Some(ms) => old(out)@.push(
                        outbox::says("Available models: "@ + split::joined(ms, ", "@)),
                    ),
                    None => old(out)@,
                }),
                Some(m) => final(self)@ == settings::on_model(old(self)@, m) && final(out)@
                    == command::saved(
                    old(out)@.push(
                        EffectView::RememberModel {
                            provider: old(self)@.cfg.active_provider,
                            model: m,
                        },
                    ),
                    "Model set to: "@ + m,
                ).push(EffectView::SendStatus),
            },
    {
        match c.word(0) {
            None => if let Some(ms) = models {
                let l = join(ms, ", ");
                out.sys(cat2("Available models: ", l.as_str()));
            },
            Some(m) => {
                self.switch_model(m);
                out.add(
                    Effect::RememberModel {
                        provider: self.cfg.active_provider.as_str().to_string(),
                        model: m.to_string(),
                    },
                );
                out.add(Effect::SaveConfig);
                out.sys(cat2("Model set to: ", m));
                out.add(Effect::SendStatus);
            },
        }
    }

    /// /providers
    pub fn cmd_providers(&self, ps: &Vec<ProviderModels>, out: &mut Outbox)
        ensures
            final(out)@ == old(out)@.push(
                outbox::says(
                    "Providers:\n"@ + split::joined(
                        glimpses(split::views(ps@), self@.cfg.active_provider),
                        "\n"@,
                    ),
                ),
            ),
    {
        let ghost all = split::views(ps@);
        let mut lines: Vec<String> = Vec::new();
        let mut i: usize = 0;
        assert(split::texts(lines@) =~= glimpses(all.take(0), self@.cfg.active_provider));
        while i < ps.len()
            invariant
                i <= ps@.len(),
                all == split::views(ps@),
                split::texts(lines@) == glimpses(all.take(i as int), self@.cfg.active_provider),
            decreases ps@.len() - i,
        {
            let p = &ps[i];
            assert(all[i as int] == p@);
            assert(all.take(i + 1).drop_last() =~= all.take(i as int));
            if let Some(ms) = &p.models {
                let mark = if same(p.name.as_str(), self.cfg.active_provider.as_str()) {
                    "▶ "
                } else {
                    "  "
                };
                let l = show_first_two(ms);
                lines.push(cat5(mark, p.name.as_str(), "  [", l.as_str(), "...]"));
            }
            i += 1;
        }
        assert(all.take(i as int) =~= all);
        let body = join(&lines, "\n");
        out.sys(cat2("Providers:\n", body.as_str()));
    }

    /// /models; the models of the active provider, or why it is not there.
    pub fn cmd_models(&self, models: &Result<Vec<String>, String>, out: &mut Outbox)
        ensures
            final(out)@ == old(out)@.push(
                match models {
                    Ok(ms) => outbox::says(
                        "Models for "@ + self@.cfg.active_provider + ":\n"@ + split::joined(
                            split::texts(ms@),
                            "\n"@,
                        ),
                    ),
                    Err(e) => outbox::warns(e@),
                },
            ),
    {
        match models {
            Ok(ms) => {
                let l = join(ms, "\n");
                out.sys(
                    cat4("Models for ", self.cfg.active_provider.as_str(), ":\n", l.as_str()),
                );
            },
            Err(e) => out.warn(e.as_str()),
        }
    }
}

// ── Keys and endpoints ──────────────────────────────────────────────────────

/// What /key or /endpoint is given: a provider, in lower case, and a value.
pub struct Pair {
    pub provider: String,
    pub value: String,
}

/// The provider and the value that a command gives; None if it gives less.
pub open spec fn pair_in(c: CommandView) -> Option<(Seq<char>, Seq<char>)> {
    match (command::word(c, 0), command::word(c, 1)) {
        (Some(p), Some(v)) => Some((text::lowercase(p), v)),
        _ => None,
    }
}

/// The provider and the value that a command gives.
pub fn read_pair(c: &Command) -> (r: Option<Pair>)
    ensures
        match r {
            Some(p) => pair_in(c@) == Some((p.provider@, p.value@)),
            None => pair_in(c@) is None,
        },
{
    match (c.word(0), c.word(1)) {
        (Some(p), Some(v)) => Some(Pair { provider: p.to_lowercase(), value: v.to_string() }),
        _ => None,
    }
}

/// Whether a provider of the user with that name has a key.
pub open spec fn user_has_key(us: Seq<UserProviderView>, name: Seq<char>) -> bool {
    exists|k: int|
        0 <= k < us.len() && text::same_but_case((#[trigger] us[k]).name, name)
            && us[k].api_key.len() > 0
}

/// Whether a key of a provider is kept.
pub open spec fn has_key(e: EngineView, us: Seq<UserProviderView>, name: Seq<char>) -> bool {
    (config::provider_of(e.cfg.providers, name) matches Some(p) && p.api_key.len() > 0)
        || user_has_key(us, name)
}

fn find_user_with_key(us: &Vec<UserProvider>, name: &str) -> (r: bool)
    ensures
        r == user_has_key(split::views(us@), name@),
{
    let ghost all = split::views(us@);
    let mut i: usize = 0;
    while i < us.len()
        invariant
            i <= us@.len(),
            all == split::views(us@),
            forall|k: int|
                0 <= k < i ==> !(text::same_but_case((#[trigger] all[k]).name, name@)
                    && all[k].api_key.len() > 0),
        decreases us@.len() - i,
    {
        assert(all[i as int] == us@[i as int]@);
        if same_ignoring_case(us[i].name.as_str(), name) && !us[i].api_key.as_str().is_empty() {
            assert(text::same_but_case(all[i as int].name, name@));
            return true;
        }
        i += 1;
    }
    false
}

/// What is done where a key was to be kept: with a provider of the user it is
/// already, else it is kept in the settings.
pub open spec fn key_effects(
    s: Seq<EffectView>,
    provider: Seq<char>,
    key: Seq<char>,
    res: Result<bool, String>,
) -> Seq<EffectView> {
    match res {
        Err(e) => s.push(outbox::warns("Failed to save API key: "@ + e@)),
        Ok(kept) => (if kept {
            s
        } else {
            s.push(EffectView::StoreKey { provider, key }).push(EffectView::SaveConfig)
        }).push(EffectView::RebuildRegistry).push(
            outbox::says("API key saved for "@ + provider + "."@),
        ),
    }
}

/// What is done where an endpoint was to be kept. Where a key is kept too and
/// the endpoint is not private, the user is warned.
pub open spec fn endpoint_effects(
    s: Seq<EffectView>,
    provider: Seq<char>,
    url: Seq<char>,
    res: Result<bool, String>,
    keyed: bool,
    private: bool,
) -> Seq<EffectView> {
    match res {
        Err(e) => s.push(outbox::warns("Failed to save endpoint: "@ + e@)),
        Ok(kept) => {
            let s = if kept {
                s
            } else {
                s.push(EffectView::StoreEndpoint { provider, url }).push(EffectView::SaveConfig)
            };
            let s = s.push(EffectView::RebuildRegistry).push(
                outbox::says("Endpoint updated for "@ + provider + ": "@ + url),
            );
            if keyed && !private {
                s.push(
                    outbox::says(
                        "⚠ "@ + provider + " has a saved API key — it will now be sent to "@ + url
                            + " on every request. Only proceed if you trust this endpoint."@,
                    ),
                )
            } else {
                s
            }
        },
    }
}

impl Engine {
    /// /key or /endpoint without a provider and a value.
    pub fn pair_usage(&self, key: bool, out: &mut Outbox)
        ensures
            final(out)@ == old(out)@.push(
                outbox::says(
                    if key {
                        "Usage: /key <provider> <api-key>"@
                    } else {
                        "Usage: /endpoint <provider> <url>"@
                    },
                ),
            ),
    {
        out.say(
            if key {
                "Usage: /key <provider> <api-key>"
            } else {
                "Usage: /endpoint <provider> <url>"
            },
        );
    }

    /// /key; `res` says whether a provider of the user took the key.
    pub fn key_given(&self, p: &Pair, res: &Result<bool, String>, out: &mut Outbox)
        ensures
            final(out)@ == key_effects(old(out)@, p.provider@, p.value@, *res),
    {
        match res {
            Err(e) => out.err(cat2("Failed to save API key: ", e.as_str())),
            Ok(kept) => {
                if !*kept {
                    out.add(
                        Effect::StoreKey {
                            provider: p.provider.as_str().to_string(),
                            key: p.value.as_str().to_string(),
                        },
                    );
                    out.add(Effect::SaveConfig);
                }
                out.add(Effect::RebuildRegistry);
                out.sys(cat3("API key saved for ", p.provider.as_str(), "."));
            },
        }
    }

    /// /endpoint with one that is not valid.
    pub fn endpoint_invalid(&self, error: &str, out: &mut Outbox)
        ensures
            final(out)@ == old(out)@.push(outbox::warns("Invalid endpoint: "@ + error@)),
    {
        out.err(cat2("Invalid endpoint: ", error));
    }

    /// Whether a key of a provider is kept.
    pub fn has_saved_key(&self, us: &Vec<UserProvider>, name: &str) -> (r: bool)
        ensures
            r == has_key(self@, split::views(us@), name@),
    {
        let k = find_provider(&self.cfg.providers, name);
        assert(split::views(self.cfg.providers@).len() == self.cfg.providers@.len());
        if k < self.cfg.providers.len() {
            let p = &self.cfg.providers[k];
            assert(split::views(self.cfg.providers@)[k as int] == p@);
            if !p.api_key.as_str().is_empty() {
                return true;
            }
        }
        find_user_with_key(us, name)
    }

    /// /endpoint; `res` says whether a provider of the user took the endpoint,
    /// `keyed` whether a key was kept before, `private` whether the endpoint is
    /// on a private host.
    pub fn endpoint_given(
        &self,
        p: &Pair,
        res: &Result<bool, String>,
        keyed: bool,
        private: bool,
        out: &mut Outbox,
    )
        ensures
            final(out)@ == endpoint_effects(
                old(out)@,
                p.provider@,
                p.value@,
                *res,
                keyed,
                private,
            ),
    {
        match res {
            Err(e) => out.err(cat2("Failed to save endpoint: ", e.as_str())),
            Ok(kept) => {
                if !*kept {
                    out.add(
                        Effect::StoreEndpoint {
                            provider: p.provider.as_str().to_string(),
                            url: p.value.as_str().to_string(),
                        },
                    );
                    out.add(Effect::SaveConfig);
                }
                out.add(Effect::RebuildRegistry);
                out.sys(
                    cat4(
                        "Endpoint updated for ",
                        p.provider.as_str(),
                        ": ",
                        p.value.as_str(),
                    ),
                );
                if keyed && !private {
                    out.sys(
                        cat5(
                            "⚠ ",
                            p.provider.as_str(),
                            " has a saved API key — it will now be sent to ",
                            p.value.as_str(),
                            " on every request. Only proceed if you trust this endpoint.",
                        ),
                    );
                }
            },
        }
    }
}

// ── Laws of providers ───────────────────────────────────────────────────────

/// Each provider has its line, and exactly the one in use carries the mark.
pub proof fn law_provider_lines(names: Seq<Seq<char>>, active: Seq<char>, i: int)
    requires
        0 <= i < names.len(),
    ensures
        provider_lines(names, active).len() == names.len(),
        names[i] == active ==> provider_lines(names, active)[i] == "  "@ + names[i] + " *"@,
        names[i] != active ==> provider_lines(names, active)[i] == "  "@ + names[i],
{
    let none = Seq::<char>::empty();
    assert("  "@ + names[i] + none =~= "  "@ + names[i]);
}

/// The user's providers that are not loaded are told, in their order, and those
/// that are loaded are not.
pub proof fn law_idle_lines(us: Seq<UserProviderView>, names: Seq<Seq<char>>)
    ensures
        idle_lines(us, names) == us.filter(
            |u: UserProviderView| !names.contains(u.name),
        ).map_values(|u: UserProviderView| "  "@ + u.name + " (user, restart to activate)"@),
    decreases us.len(),
{
    reveal(Seq::filter);
    let p = |u: UserProviderView| !names.contains(u.name);
    let f = |u: UserProviderView| "  "@ + u.name + " (user, restart to activate)"@;
    if us.len() > 0 {
        law_idle_lines(us.drop_last(), names);
        let before = us.drop_last().filter(p);
        if p(us.last()) {
            assert(before.push(us.last()).map_values(f) =~= before.map_values(f).push(
                f(us.last()),
            ));
        }
    }
    assert(idle_lines(us, names) =~= us.filter(p).map_values(f));
}

/// Of the models of a provider the first two are shown, and all where they are no
/// more.
pub proof fn law_first_two(a: Seq<char>, b: Seq<char>, more: Seq<Seq<char>>)
    ensures
        first_two(seq![a, b] + more) == seq![a, b],
        first_two(seq![a]) == seq![a],
        first_two(Seq::empty()).len() == 0,
{
    assert(first_two(seq![a, b] + more) =~= seq![a, b]);
}

/// Providers are told by themselves, one behind the other; one whose models are not
/// known is not told.
pub proof fn law_glimpses(
    a: Seq<ProviderModelsView>,
    b: Seq<ProviderModelsView>,
    p: ProviderModelsView,
    active: Seq<char>,
)
    ensures
        glimpses(a + b, active) == glimpses(a, active) + glimpses(b, active),
        p.models is None ==> glimpses(seq![p], active).len() == 0,
        p.models is Some ==> glimpses(seq![p], active).len() == 1 && text::occurs(
            glimpses(seq![p], active)[0],
            p.name,
        ),
        p.models is Some && p.name == active ==> "▶ "@.is_prefix_of(
            glimpses(seq![p], active)[0],
        ),
    decreases b.len(),
{
    let one = seq![p];
    assert(one.drop_last() =~= Seq::<ProviderModelsView>::empty());
    assert(glimpses(one.drop_last(), active) =~= Seq::<Seq<char>>::empty());
    if let Some(ms) = p.models {
        let mark = if p.name == active {
            "▶ "@
        } else {
            "  "@
        };
        let tail = "  ["@ + split::joined(first_two(ms), ", "@) + "...]"@;
        let l = glimpses(one, active)[0];
        assert(l =~= mark + p.name + tail);
        text::law_occurs_in_middle(mark, p.name, tail);
        assert(l.subrange(0, mark.len() as int) =~= mark);
    }
    if b.len() == 0 {
        assert(a + b =~= a);
        assert(glimpses(a, active) + glimpses(b, active) =~= glimpses(a, active));
    } else {
        let init = b.drop_last();
        law_glimpses(a, init, p, active);
        assert((a + b).drop_last() =~= a + init);
        assert(glimpses(a + b, active) =~= glimpses(a, active) + glimpses(b, active));
    }
}

/// A provider and a value are read from the first two words, and from fewer nothing.
pub proof fn law_pair(c: CommandView, p: Seq<char>, v: Seq<char>, more: Seq<Seq<char>>)
    ensures
        pair_in((CommandView { args: seq![p, v] + more, ..c })) == Some((text::lowercase(p), v)),
        pair_in((CommandView { args: seq![p], ..c })) is None,
        pair_in((CommandView { args: Seq::empty(), ..c })) is None,
{
}

/// A provider has a key if its own entry or one of the user's of that name, in any
/// case, has one that is not empty.
pub proof fn law_has_key(e: EngineView, us: Seq<UserProviderView>, u: UserProviderView)
    requires
        u.api_key.len() > 0,
    ensures
        has_key(e, us.push(u), u.name),
        config::provider_of(e.cfg.providers, u.name) is None ==> !has_key(e, Seq::empty(), u.name),
{
    assert(us.push(u)[us.len() as int] == u);
    assert(text::same_but_case(u.name, u.name));
}

/// A word behind the command is the provider to switch to, in lower case, unless it
/// asks for the list or for a new one.
pub proof fn law_provider_asked(c: CommandView, w: Seq<char>, n: Seq<char>)
    ensures
        ({
            let low = text::lowercase(w);
            let r = provider_asked((CommandView { args: seq![w, n], ..c }));
            &&& low == "list"@ || low == "ls"@ ==> r is List
            &&& low == "new"@ || low == "create"@ ==> r == ProviderAskView::Create(n)
            &&& low != "list"@ && low != "ls"@ && low != "new"@ && low != "create"@ ==> r
                == ProviderAskView::Switch(low)
        }),
        provider_asked((CommandView { args: Seq::empty(), ..c })) is Usage,
{
    reveal_strlit("list");
    reveal_strlit("ls");
    reveal_strlit("new");
    reveal_strlit("create");
    assert("list"@.len() == 4 && "ls"@.len() == 2 && "new"@.len() == 3 && "create"@.len() == 6);
}

/// A key that could not be kept is told and not stored elsewhere; one that no file of
/// the user's keeps goes into the settings, and then the providers are made anew.
pub proof fn law_key_effects(s: Seq<EffectView>, provider: Seq<char>, key: Seq<char>, e: String)
    ensures
        key_effects(s, provider, key, Err(e)).len() == s.len() + 1,
        key_effects(s, provider, key, Ok(false))[s.len() as int] == (EffectView::StoreKey {
            provider,
            key,
        }),
        key_effects(s, provider, key, Ok(false))[s.len() as int + 1] == EffectView::SaveConfig,
        key_effects(s, provider, key, Ok(true))[s.len() as int] == EffectView::RebuildRegistry,
        key_effects(s, provider, key, Ok(false))[s.len() as int + 2]
            == EffectView::RebuildRegistry,
{
}

/// The user is warned that a key goes to a new address exactly if there is a key and
/// the address is not private.
pub proof fn law_endpoint_warning(
    s: Seq<EffectView>,
    provider: Seq<char>,
    url: Seq<char>,
    kept: bool,
)
    ensures
        ({
            let quiet = endpoint_effects(s, provider, url, Ok(kept), false, false);
            &&& endpoint_effects(s, provider, url, Ok(kept), true, true) == quiet
            &&& endpoint_effects(s, provider, url, Ok(kept), false, true) == quiet
            &&& endpoint_effects(s, provider, url, Ok(kept), true, false).len() == quiet.len() + 1
            &&& quiet.last() == outbox::says("Endpoint updated for "@ + provider + ": "@ + url)
            &&& !kept ==> quiet[s.len() as int] == (EffectView::StoreEndpoint { provider, url })
        }),
{
}

} // verus!
