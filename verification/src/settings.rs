//! The settings as the configuration menu shows and changes them.

use crate::config::{self, find_provider, SandboxMode};
use crate::dup::Dup;
use crate::engine::{Engine, EngineView};
use crate::number::{self, parse_usize};
use crate::outbox::{self, Effect, EffectView, Outbox};
use crate::split;
use crate::text::{
    self, cat2, cat3, chars_of, empty, find, same, same_ignoring_case, string_of, take_until, trim,
    CharClass,
};
use crate::ui::{AstMode, ConfigState, ConfigStateView, UiUpdate, UiUpdateView};
use vstd::prelude::*;
use vstd::slice::slice_subrange;

verus! {

broadcast use {split::lemma_texts_push, split::lemma_views_push};

// ── What the menu shows ─────────────────────────────────────────────────────

/// A provider that the user defined, with its key.
pub struct UserProvider {
    pub name: String,
    pub api_key: String,
}

/// The model of a provider that the user defined.
#[verifier::ext_equal]
pub struct UserProviderView {
    pub name: Seq<char>,
    pub api_key: Seq<char>,
}

impl View for UserProvider {
    type V = UserProviderView;

    open spec fn view(&self) -> UserProviderView {
        UserProviderView { name: self.name@, api_key: self.api_key@ }
    }
}

/// The key of the first provider of the user with that name, whatever its
/// case; empty if there is none.
pub open spec fn user_key(us: Seq<UserProviderView>, name: Seq<char>) -> Seq<char>
    decreases us.len(),
{
    if us.len() == 0 {
        Seq::empty()
    } else if text::same_but_case(us[0].name, name) {
        us[0].api_key
    } else {
        user_key(us.drop_first(), name)
    }
}

/// The key of the active provider: the one in the settings, or else that of a
/// provider of the user.
pub open spec fn active_key(e: EngineView, us: Seq<UserProviderView>) -> Seq<char> {
    match config::provider_of(e.cfg.providers, e.cfg.active_provider) {
        Some(p) => if p.api_key.len() > 0 {
            p.api_key
        } else {
            user_key(us, e.cfg.active_provider)
        },
        None => user_key(us, e.cfg.active_provider),
    }
}

/// Some models, and those of `extra` that are not among them yet.
pub open spec fn merged(ms: Seq<Seq<char>>, extra: Seq<Seq<char>>) -> Seq<Seq<char>>
    decreases extra.len(),
{
    if extra.len() == 0 {
        ms
    } else {
        let before = merged(ms, extra.drop_last());
        if before.contains(extra.last()) {
            before
        } else {
            before.push(extra.last())
        }
    }
}

/// The models on offer for the active provider.
pub open spec fn models_on_offer(e: EngineView, listed: Seq<Seq<char>>) -> Seq<Seq<char>> {
    match config::provider_of(e.cfg.providers, e.cfg.active_provider) {
        Some(p) => merged(listed, p.extra_models),
        None => listed,
    }
}

/// What the menu shows.
pub open spec fn settings_of(
    e: EngineView,
    providers: Seq<Seq<char>>,
    listed: Seq<Seq<char>>,
    us: Seq<UserProviderView>,
    themes: Seq<Seq<char>>,
) -> ConfigStateView {
    ConfigStateView {
        provider: e.cfg.active_provider,
        providers,
        api_key: active_key(e, us),
        model: e.cfg.active_model,
        models: models_on_offer(e, listed),
        theme: e.cfg.theme,
        named_themes: themes,
        sandbox_mode: config::sandbox_label(e.cfg.sandbox_mode),
        skip_permissions: e.cfg.skip_permissions,
        clean_env: e.cfg.clean_env,
        ast_mode: config::ast_label(e.ast_mode),
        skill_subagents: e.cfg.skill_subagents,
        max_tokens: e.cfg.max_tokens,
        tool_call_limit: e.cfg.tool_call_limit,
    }
}

/// Whether a text is in a list.
pub fn listed_in(v: &Vec<String>, s: &str) -> (r: bool)
    ensures
        r == split::texts(v@).contains(s@),
{
    let ghost all = split::texts(v@);
    let mut i: usize = 0;
    while i < v.len()
        invariant
            i <= v@.len(),
            all == split::texts(v@),
            forall|k: int| 0 <= k < i ==> #[trigger] all[k] != s@,
        decreases v@.len() - i,
    {
        assert(all[i as int] == v@[i as int]@);
        if same(v[i].as_str(), s) {
            assert(all[i as int] == s@);
            return true;
        }
        i += 1;
    }
    false
}

fn merge(ms: Vec<String>, extra: &Vec<String>) -> (r: Vec<String>)
    ensures
        split::texts(r@) == merged(split::texts(ms@), split::texts(extra@)),
{
    let ghost base = split::texts(ms@);
    let ghost all = split::texts(extra@);
    let mut out = ms;
    let mut i: usize = 0;
    while i < extra.len()
        invariant
            i <= extra@.len(),
            all == split::texts(extra@),
            split::texts(out@) == merged(base, all.take(i as int)),
        decreases extra@.len() - i,
    {
        assert(all[i as int] == extra@[i as int]@);
        assert(all.take(i + 1).drop_last() =~= all.take(i as int));
        if !listed_in(&out, extra[i].as_str()) {
            out.push(extra[i].as_str().to_string());
        }
        i += 1;
    }
    assert(all.take(i as int) =~= all);
    out
}

fn find_user_key(us: &Vec<UserProvider>, name: &str) -> (r: String)
    ensures
        r@ == user_key(split::views(us@), name@),
{
    let ghost all = split::views(us@);
    let mut i: usize = 0;
    assert(all.skip(0) =~= all);
    while i < us.len()
        invariant
            i <= us@.len(),
            all == split::views(us@),
            user_key(all, name@) == user_key(all.skip(i as int), name@),
        decreases us@.len() - i,
    {
        assert(all[i as int] == us@[i as int]@);
        assert(all.skip(i as int).drop_first() =~= all.skip(i + 1));
        if same_ignoring_case(us[i].name.as_str(), name) {
            return us[i].api_key.as_str().to_string();
        }
        i += 1;
    }
    empty()
}

impl Engine {
    /// The key of the active provider.
    pub fn provider_api_key(&self, us: &Vec<UserProvider>) -> (r: String)
        ensures
            r@ == active_key(self@, split::views(us@)),
    {
        let k = find_provider(&self.cfg.providers, self.cfg.active_provider.as_str());
        assert(split::views(self.cfg.providers@).len() == self.cfg.providers@.len());
        if k < self.cfg.providers.len() {
            let p = &self.cfg.providers[k];
            assert(split::views(self.cfg.providers@)[k as int] == p@);
            if !p.api_key.as_str().is_empty() {
                return p.api_key.as_str().to_string();
            }
        }
        find_user_key(us, self.cfg.active_provider.as_str())
    }

    /// What the menu shows, given the names of all providers, the models that
    /// the active one lists, the providers of the user and the named themes.
    pub fn config_state(
        &self,
        providers: Vec<String>,
        listed: Vec<String>,
        us: &Vec<UserProvider>,
        themes: Vec<String>,
    ) -> (r: ConfigState)
        ensures
            r@ == settings_of(
                self@,
                split::texts(providers@),
                split::texts(listed@),
                split::views(us@),
                split::texts(themes@),
            ),
    {
        let k = find_provider(&self.cfg.providers, self.cfg.active_provider.as_str());
        assert(split::views(self.cfg.providers@).len() == self.cfg.providers@.len());
        let models = if k < self.cfg.providers.len() {
            let p = &self.cfg.providers[k];
            assert(split::views(self.cfg.providers@)[k as int] == p@);
            merge(listed, &p.extra_models)
        } else {
            listed
        };
        ConfigState {
            provider: self.cfg.active_provider.as_str().to_string(),
            providers,
            api_key: self.provider_api_key(us),
            model: self.cfg.active_model.as_str().to_string(),
            models,
            theme: self.cfg.theme.as_str().to_string(),
            named_themes: themes,
            sandbox_mode: self.cfg.sandbox_mode.label().to_string(),
            skip_permissions: self.cfg.skip_permissions,
            clean_env: self.cfg.clean_env,
            ast_mode: self.ast_mode.label().to_string(),
            skill_subagents: self.cfg.skill_subagents,
            max_tokens: self.cfg.max_tokens,
            tool_call_limit: self.cfg.tool_call_limit,
        }
    }
}

// ── A new provider ──────────────────────────────────────────────────────────

/// A provider to be made.
pub struct NewProvider {
    pub name: String,
    pub endpoint: String,
    pub model: String,
    pub api_key: String,
}

/// The model of a provider to be made.
#[verifier::ext_equal]
pub struct NewProviderView {
    pub name: Seq<char>,
    pub endpoint: Seq<char>,
    pub model: Seq<char>,
    pub api_key: Seq<char>,
}

impl View for NewProvider {
    type V = NewProviderView;

    open spec fn view(&self) -> NewProviderView {
        NewProviderView {
            name: self.name@,
            endpoint: self.endpoint@,
            model: self.model@,
            api_key: self.api_key@,
        }
    }
}

/// What follows the first line of a text; empty if there is but one.
pub open spec fn after_line(s: Seq<char>) -> Seq<char> {
    let i = text::find_first(s, text::among("\n"@));
    if i < s.len() {
        s.skip(i + 1)
    } else {
        Seq::empty()
    }
}

/// The first line of a text, trimmed.
pub open spec fn first_line(s: Seq<char>) -> Seq<char> {
    text::trimmed(text::until(s, text::among("\n"@)))
}

/// The provider that four lines describe: its name, endpoint, model and key.
/// What goes beyond four lines belongs to the last.
pub open spec fn new_provider_of(s: Seq<char>) -> NewProviderView {
    let b = after_line(s);
    let c = after_line(b);
    let d = after_line(c);
    NewProviderView {
        name: first_line(s),
        endpoint: first_line(b),
        model: first_line(c),
        api_key: text::trimmed(d),
    }
}

fn skip_line<'a>(s: &'a [char]) -> (r: &'a [char])
    ensures
        r@ == after_line(s@),
{
    let i = find(s, CharClass::In("\n"));
    if i < s.len() {
        assert(s@.subrange(i + 1, s@.len() as int) =~= s@.skip(i + 1));
        slice_subrange(s, i + 1, s.len())
    } else {
        assert(s@.subrange(0, 0) =~= Seq::<char>::empty());
        slice_subrange(s, 0, 0)
    }
}

fn line_of(s: &[char]) -> (r: String)
    ensures
        r@ == first_line(s@),
{
    string_of(trim(take_until(s, CharClass::In("\n"))))
}

/// The provider that four lines describe.
pub fn parse_new_provider(s: &str) -> (r: NewProvider)
    ensures
        r@ == new_provider_of(s@),
{
    let v = chars_of(s);
    let a = v.as_slice();
    let b = skip_line(a);
    let c = skip_line(b);
    let d = skip_line(c);
    NewProvider {
        name: line_of(a),
        endpoint: line_of(b),
        model: line_of(c),
        api_key: string_of(trim(d)),
    }
}

// ── Changing a setting ──────────────────────────────────────────────────────

/// What is known outside of the engine about a change of a setting.
pub struct SettingFacts {
    /// Whether the provider that is named is there.
    pub provider_known: bool,
    /// What making a new provider came to: the first of its models.
    pub created: Result<String, String>,
    /// What keeping a key with a provider of the user came to: whether there
    /// is such a provider.
    pub key_stored: Result<bool, String>,
    /// Whether there is a theme of that name.
    pub theme_known: bool,
    pub mxc_found: bool,
    pub mxc_binary: String,
    pub docker_found: bool,
}

/// The engine on another provider, with the model last used there.
pub open spec fn on_provider(e: EngineView, name: Seq<char>) -> EngineView {
    EngineView {
        cfg: config::ConfigView {
            active_provider: name,
            active_model: config::kept_model(e.cfg.providers, name),
            ..e.cfg
        },
        ..e
    }
}

/// The engine on another model of its provider.
pub open spec fn on_model(e: EngineView, model: Seq<char>) -> EngineView {
    EngineView {
        cfg: config::ConfigView {
            active_model: model,
            providers: config::with_model(e.cfg.providers, e.cfg.active_provider, model),
            ..e.cfg
        },
        ..e
    }
}

/// The number that a setting is to have: above 0.
pub open spec fn positive(s: Seq<char>) -> Option<usize> {
    match number::parsed(s, usize::MAX as nat) {
        Some(n) => if n > 0 {
            Some(n as usize)
        } else {
            None
        },
        None => None,
    }
}

/// The number that a setting is to have: above 0.
pub fn parse_positive(s: &str) -> (r: Option<usize>)
    ensures
        r == positive(s@),
{
    match parse_usize(s) {
        Some(n) => if n > 0 {
            Some(n)
        } else {
            None
        },
        None => None,
    }
}

/// The engine after a change of a setting in the menu. An unknown key, or a
/// value that does not fit, changes nothing.
pub open spec fn setting_changed(
    e: EngineView,
    key: Seq<char>,
    value: Seq<char>,
    f: SettingFacts,
) -> EngineView {
    let c = e.cfg;
    if key == "provider"@ {
        if f.provider_known {
            on_provider(e, value)
        } else {
            e
        }
    } else if key == "new_provider"@ {
        let n = new_provider_of(value);
        match f.created {
            Ok(model) => if n.name.len() > 0 && !f.provider_known {
                EngineView {
                    cfg: config::ConfigView { active_provider: n.name, active_model: model@, ..c },
                    ..e
                }
            } else {
                e
            },
            Err(_) => e,
        }
    } else if key == "model"@ {
        on_model(e, value)
    } else if key == "api_key"@ {
        e
    } else if key == "theme"@ {
        if value == "dark"@ || value == "light"@ || f.theme_known {
            EngineView { cfg: config::ConfigView { theme: value, ..c }, ..e }
        } else {
            e
        }
    } else if key == "sandbox"@ {
        match sandbox_wanted(value, f) {
            Some(m) => EngineView {
                cfg: config::ConfigView { sandbox_mode: m, ..c },
                own: config::OwnSettingsView { sandbox_mode: m, ..e.own },
                ..e
            },
            None => e,
        }
    } else if key == "permissions"@ {
        EngineView { cfg: config::ConfigView { skip_permissions: value == "skip"@, ..c }, ..e }
    } else if key == "clean_env"@ {
        EngineView { cfg: config::ConfigView { clean_env: value == "on"@, ..c }, ..e }
    } else if key == "ast"@ {
        match config::ast_mode_named(value) {
            Some(m) => EngineView {
                ast_mode: m,
                cfg: config::ConfigView { ast_mode: m, ..c },
                ..e
            },
            None => e,
        }
    } else if key == "subagents"@ {
        EngineView { cfg: config::ConfigView { skill_subagents: value == "on"@, ..c }, ..e }
    } else if key == "max_tokens"@ {
        match positive(value) {
            Some(n) => EngineView { cfg: config::ConfigView { max_tokens: n, ..c }, ..e },
            None => e,
        }
    } else if key == "tool_call_limit"@ {
        match positive(value) {
            Some(n) => EngineView { cfg: config::ConfigView { tool_call_limit: n, ..c }, ..e },
            None => e,
        }
    } else {
        e
    }
}

/// The sandbox mode that a value names, if it can be had.
pub open spec fn sandbox_wanted(value: Seq<char>, f: SettingFacts) -> Option<SandboxMode> {
    if value == "off"@ {
        Some(SandboxMode::Off)
    } else if value == "permissive"@ {
        Some(SandboxMode::Permissive)
    } else if value == "mxc"@ && f.mxc_found {
        Some(SandboxMode::Mxc)
    } else if value == "mxc"@ {
        None
    } else if value == "docker"@ && f.docker_found {
        Some(SandboxMode::Docker)
    } else {
        None
    }
}

/// What the user is told where execution containers are not installed.
pub open spec fn mxc_missing(binary: Seq<char>) -> Seq<char> {
    "MXC binary ("@ + binary
        + ") not found in PATH. Install from https://github.com/microsoft/mxc and retry."@
}

/// What the user is told where Docker is not installed.
pub open spec fn docker_missing() -> Seq<char> {
    "docker CLI not found in PATH. Install Docker and retry."@
}

/// What is done outside for a change of a setting, before the menu is told.
pub open spec fn setting_effects(
    s: Seq<EffectView>,
    e: EngineView,
    key: Seq<char>,
    value: Seq<char>,
    f: SettingFacts,
) -> Seq<EffectView> {
    let quiet = EffectView::SaveConfigQuietly;
    if key == "provider"@ {
        if f.provider_known {
            s.push(quiet).push(EffectView::SendStatus)
        } else {
            s.push(outbox::warns("Unknown provider: "@ + value))
        }
    } else if key == "new_provider"@ {
        let n = new_provider_of(value);
        if n.name.len() == 0 {
            s
        } else if f.provider_known {
            s.push(outbox::warns("Provider already exists: "@ + n.name))
        } else {
            match f.created {
                Ok(_) => s.push(EffectView::RebuildRegistry).push(quiet).push(
                    EffectView::SendStatus,
                ).push(outbox::says("Provider '"@ + n.name + "' created and selected."@)),
                Err(err) => s.push(outbox::warns("Failed to create provider: "@ + err@)),
            }
        }
    } else if key == "model"@ {
        s.push(
            EffectView::RememberModel { provider: e.cfg.active_provider, model: value },
        ).push(quiet).push(EffectView::SendStatus)
    } else if key == "api_key"@ {
        (match f.key_stored {
            Ok(true) => s,
            Ok(false) => s.push(
                EffectView::StoreKey { provider: e.cfg.active_provider, key: value },
            ).push(quiet),
            Err(err) => s.push(outbox::warns("Failed to save API key: "@ + err@)),
        }).push(EffectView::RebuildRegistry)
    } else if key == "theme"@ {
        if value == "dark"@ || value == "light"@ {
            s.push(EffectView::UseLightTheme(value == "light"@)).push(quiet)
        } else if f.theme_known {
            s.push(quiet)
        } else {
            s
        }
    } else if key == "sandbox"@ {
        if sandbox_wanted(value, f) is Some {
            s.push(quiet)
        } else if value == "mxc"@ {
            s.push(outbox::warns(mxc_missing(f.mxc_binary@)))
        } else if value == "docker"@ {
            s.push(outbox::warns(docker_missing()))
        } else {
            s
        }
    } else if key == "permissions"@ || key == "clean_env"@ {
        s.push(quiet)
    } else if key == "ast"@ {
        match config::ast_mode_named(value) {
            Some(m) => s.push(quiet).push(EffectView::Send(UiUpdateView::AstMode(m))),
            None => s,
        }
    } else if key == "subagents"@ {
        s.push(quiet)
    } else if key == "max_tokens"@ || key == "tool_call_limit"@ {
        if positive(value) is Some {
            s.push(quiet)
        } else {
            s
        }
    } else {
        s
    }
}

impl Engine {
    /// Switches to a provider, with the model last used there.
    pub fn switch_provider(&mut self, name: &str) -> (model: String)
        ensures
            final(self)@ == on_provider(old(self)@, name@),
            model@ == config::kept_model(old(self)@.cfg.providers, name@),
    {
        let k = find_provider(&self.cfg.providers, name);
        assert(split::views(self.cfg.providers@).len() == self.cfg.providers@.len());
        let model = if k < self.cfg.providers.len() {
            let p = &self.cfg.providers[k];
            assert(split::views(self.cfg.providers@)[k as int] == p@);
            p.model.as_str().to_string()
        } else {
            empty()
        };
        self.cfg.active_provider = name.to_string();
        self.cfg.active_model = model.as_str().to_string();
        model
    }

    /// Switches to a model of the active provider.
    pub fn switch_model(&mut self, model: &str)
        ensures
            final(self)@ == on_model(old(self)@, model@),
    {
        let ghost before = split::views(self.cfg.providers@);
        let k = find_provider(&self.cfg.providers, self.cfg.active_provider.as_str());
        assert(split::views(self.cfg.providers@).len() == self.cfg.providers@.len());
        let mut ps = crate::dup::dup_all(&self.cfg.providers);
        assert(split::views(ps@).len() == ps@.len());
        if k < ps.len() {
            let mut p = ps[k].dup();
            assert(before[k as int] == split::views(ps@)[k as int]);
            p.model = model.to_string();
            let ghost pv = p@;
            ps.set(k, p);
            assert(split::views(ps@) =~= before.update(k as int, pv));
        }
        self.cfg.providers = ps;
        self.cfg.active_model = model.to_string();
    }

    fn set_sandbox(&mut self, value: &str, f: &SettingFacts, out: &mut Outbox)
        ensures
            final(self)@ == (match sandbox_wanted(value@, *f) {
                Some(m) => EngineView {
                    cfg: config::ConfigView { sandbox_mode: m, ..old(self)@.cfg },
                    own: config::OwnSettingsView { sandbox_mode: m, ..old(self)@.own },
                    ..old(self)@
                },
                None => old(self)@,
            }),
            final(out)@ == (if sandbox_wanted(value@, *f) is Some {
                old(out)@.push(EffectView::SaveConfigQuietly)
            } else if value@ == "mxc"@ {
                old(out)@.push(outbox::warns(mxc_missing(f.mxc_binary@)))
            } else if value@ == "docker"@ {
                old(out)@.push(outbox::warns(docker_missing()))
            } else {
                old(out)@
            }),
    {
        let mode = if same(value, "off") {
            Some(SandboxMode::Off)
        } else if same(value, "permissive") {
            Some(SandboxMode::Permissive)
        } else if same(value, "mxc") && f.mxc_found {
            Some(SandboxMode::Mxc)
        } else if same(value, "mxc") {
            out.err(
                cat3(
                    "MXC binary (",
                    f.mxc_binary.as_str(),
                    ") not found in PATH. Install from https://github.com/microsoft/mxc and retry.",
                ),
            );
            None
        } else if same(value, "docker") && f.docker_found {
            Some(SandboxMode::Docker)
        } else if same(value, "docker") {
            out.warn("docker CLI not found in PATH. Install Docker and retry.");
            None
        } else {
            None
        };
        if let Some(m) = mode {
            self.cfg.sandbox_mode = m;
            self.own.sandbox_mode = m;
            out.add(Effect::SaveConfigQuietly);
        }
    }

    /// Applies a change of a setting in the menu, and tells the menu how the
    /// settings then stand.
    pub fn apply_config_set(&mut self, key: &str, value: &str, f: &SettingFacts, out: &mut Outbox)
        ensures
            final(self)@ == setting_changed(old(self)@, key@, value@, *f),
            final(out)@ == setting_effects(old(out)@, old(self)@, key@, value@, *f).push(
                EffectView::SendConfigState { open: false },
            ),
    {
        self.change_setting(key, value, f, out);
        out.add(Effect::SendConfigState { open: false });
    }

    fn change_setting(&mut self, key: &str, value: &str, f: &SettingFacts, out: &mut Outbox)
        ensures
            final(self)@ == setting_changed(old(self)@, key@, value@, *f),
            final(out)@ == setting_effects(old(out)@, old(self)@, key@, value@, *f),
    {
        if same(key, "provider") {
            if f.provider_known {
                let _model = self.switch_provider(value);
                out.add(Effect::SaveConfigQuietly);
                out.add(Effect::SendStatus);
            } else {
                out.err(cat2("Unknown provider: ", value));
            }
        } else if same(key, "new_provider") {
            let n = parse_new_provider(value);
            if n.name.as_str().is_empty() {
                return;
            }
            if f.provider_known {
                out.err(cat2("Provider already exists: ", n.name.as_str()));
                return;
            }
            match &f.created {
                Ok(model) => {
                    out.add(Effect::RebuildRegistry);
                    self.cfg.active_provider = n.name.as_str().to_string();
                    self.cfg.active_model = model.as_str().to_string();
                    out.add(Effect::SaveConfigQuietly);
                    out.add(Effect::SendStatus);
                    out.sys(cat3("Provider '", n.name.as_str(), "' created and selected."));
                },
                Err(e) => out.err(cat2("Failed to create provider: ", e.as_str())),
            }
        } else if same(key, "model") {
            self.switch_model(value);
            out.add(
                Effect::RememberModel {
                    provider: self.cfg.active_provider.as_str().to_string(),
                    model: value.to_string(),
                },
            );
            out.add(Effect::SaveConfigQuietly);
            out.add(Effect::SendStatus);
        } else if same(key, "api_key") {
            match &f.key_stored {
                Ok(kept) => if !*kept {
                    out.add(
                        Effect::StoreKey {
                            provider: self.cfg.active_provider.as_str().to_string(),
                            key: value.to_string(),
                        },
                    );
                    out.add(Effect::SaveConfigQuietly);
                },
                Err(e) => out.err(cat2("Failed to save API key: ", e.as_str())),
            }
            out.add(Effect::RebuildRegistry);
        } else if same(key, "theme") {
            if same(value, "dark") || same(value, "light") {
                self.cfg.theme = value.to_string();
                out.add(Effect::UseLightTheme(same(value, "light")));
                out.add(Effect::SaveConfigQuietly);
            } else if f.theme_known {
                self.cfg.theme = value.to_string();
                out.add(Effect::SaveConfigQuietly);
            }
        } else if same(key, "sandbox") {
            self.set_sandbox(value, f, out);
        } else {
            self.change_simple(key, value, f, out);
        }
    }

    fn change_simple(&mut self, key: &str, value: &str, f: &SettingFacts, out: &mut Outbox)
        requires
            key@ != "provider"@,
            key@ != "new_provider"@,
            key@ != "model"@,
            key@ != "api_key"@,
            key@ != "theme"@,
            key@ != "sandbox"@,
        ensures
            final(self)@ == setting_changed(old(self)@, key@, value@, *f),
            final(out)@ == setting_effects(old(out)@, old(self)@, key@, value@, *f),
    {
        if same(key, "permissions") {
            self.cfg.skip_permissions = same(value, "skip");
            out.add(Effect::SaveConfigQuietly);
        } else if same(key, "clean_env") {
            self.cfg.clean_env = same(value, "on");
            out.add(Effect::SaveConfigQuietly);
        } else if same(key, "ast") {
            if let Some(m) = config::parse_ast_mode(value) {
                self.ast_mode = m;
                self.cfg.ast_mode = m;
                out.add(Effect::SaveConfigQuietly);
                out.send(UiUpdate::AstMode(m));
            }
        } else if same(key, "subagents") {
            self.cfg.skill_subagents = same(value, "on");
            out.add(Effect::SaveConfigQuietly);
        } else if same(key, "max_tokens") {
            if let Some(n) = parse_positive(value) {
                self.cfg.max_tokens = n;
                out.add(Effect::SaveConfigQuietly);
            }
        } else if same(key, "tool_call_limit") {
            if let Some(n) = parse_positive(value) {
                self.cfg.tool_call_limit = n;
                out.add(Effect::SaveConfigQuietly);
            }
        }
    }
}

/// The menu never leaves the limits on tokens and calls at 0, if they were not
/// so before, and the AST mode of the engine is that of the settings.
pub proof fn law_settings_stay_usable(
    e: EngineView,
    key: Seq<char>,
    value: Seq<char>,
    f: SettingFacts,
)
    requires
        e.cfg.max_tokens > 0,
        e.cfg.tool_call_limit > 0,
        e.ast_mode == e.cfg.ast_mode,
    ensures
        setting_changed(e, key, value, f).cfg.max_tokens > 0,
        setting_changed(e, key, value, f).cfg.tool_call_limit > 0,
        setting_changed(e, key, value, f).ast_mode == setting_changed(e, key, value, f).cfg.ast_mode,
{
}

// ── Laws of settings ────────────────────────────────────────────────────────

/// The key in use is that of the provider's own entry where it has one, else that
/// of the first of the user's providers with its name, in any case; else none.
pub proof fn law_key_in_use(
    e: EngineView,
    a: Seq<UserProviderView>,
    u: UserProviderView,
    b: Seq<UserProviderView>,
)
    requires
        forall|k: int|
            0 <= k < a.len() ==> !text::same_but_case(
                (#[trigger] a[k]).name,
                e.cfg.active_provider,
            ),
        text::same_but_case(u.name, e.cfg.active_provider),
    ensures
        user_key(a.push(u) + b, e.cfg.active_provider) == u.api_key,
        user_key(a, e.cfg.active_provider).len() == 0,
        config::provider_of(e.cfg.providers, e.cfg.active_provider) is None ==> active_key(
            e,
            a.push(u) + b,
        ) == u.api_key,
        config::provider_of(e.cfg.providers, e.cfg.active_provider) matches Some(p) ==> {
            &&& p.api_key.len() > 0 ==> active_key(e, a.push(u) + b) == p.api_key
            &&& p.api_key.len() == 0 ==> active_key(e, a.push(u) + b) == u.api_key
        },
{
    lemma_user_key(a, u, b, e.cfg.active_provider);
}

proof fn lemma_user_key(
    a: Seq<UserProviderView>,
    u: UserProviderView,
    b: Seq<UserProviderView>,
    name: Seq<char>,
)
    requires
        forall|k: int| 0 <= k < a.len() ==> !text::same_but_case((#[trigger] a[k]).name, name),
        text::same_but_case(u.name, name),
    ensures
        user_key(a.push(u) + b, name) == u.api_key,
        user_key(a, name).len() == 0,
    decreases a.len(),
{
    let all = a.push(u) + b;
    if a.len() == 0 {
        assert(all[0] == u);
    } else {
        assert(all[0] == a[0]);
        assert(!text::same_but_case(a[0].name, name));
        assert(all.drop_first() =~= a.drop_first().push(u) + b);
        assert forall|k: int| 0 <= k < a.drop_first().len() implies !text::same_but_case(
            (#[trigger] a.drop_first()[k]).name,
            name,
        ) by {
            assert(a.drop_first()[k] == a[k + 1]);
        }
        lemma_user_key(a.drop_first(), u, b, name);
    }
}

/// Models on offer are those listed, in their order, and behind them those beside
/// them that are not listed already: each model of either list is there, and none
/// that was not listed is there twice.
pub proof fn law_merged(ms: Seq<Seq<char>>, extra: Seq<Seq<char>>, m: Seq<char>)
    ensures
        ms.is_prefix_of(merged(ms, extra)),
        merged(ms, extra).contains(m) <==> ms.contains(m) || extra.contains(m),
        ms.no_duplicates() ==> merged(ms, extra).no_duplicates(),
    decreases extra.len(),
{
    let r = merged(ms, extra);
    if extra.len() == 0 {
        assert(r.subrange(0, ms.len() as int) =~= ms);
    } else {
        let init = extra.drop_last();
        let x = extra.last();
        law_merged(ms, init, m);
        law_merged(ms, init, x);
        let before = merged(ms, init);
        assert(extra =~= init.push(x));
        assert(extra.contains(m) <==> init.contains(m) || x == m) by {
            if x == m {
                assert(extra[extra.len() - 1] == m);
            }
            if init.contains(m) {
                let k = choose|k: int| 0 <= k < init.len() && init[k] == m;
                assert(extra[k] == m);
            }
            if extra.contains(m) && x != m {
                let k = choose|k: int| 0 <= k < extra.len() && extra[k] == m;
                assert(init[k] == m);
            }
        }
        if !before.contains(x) {
            assert(r =~= before.push(x));
            assert(before.subrange(0, ms.len() as int) =~= ms);
            assert(r.subrange(0, ms.len() as int) =~= ms);
            if before.contains(m) {
                let k = choose|k: int| 0 <= k < before.len() && before[k] == m;
                assert(r[k] == m);
            }
            if x == m {
                assert(r[before.len() as int] == m);
            }
            if r.contains(m) && x != m {
                let k = choose|k: int| 0 <= k < r.len() && r[k] == m;
                assert(before[k] == m);
            }
        }
    }
}

/// Numbers that set a limit are positive: the decimal form of each positive number
/// is read, and zero is not.
pub proof fn law_positive(n: nat)
    ensures
        0 < n <= usize::MAX ==> positive(number::decimal(n)) == Some(n as usize),
        n == 0 || n > usize::MAX ==> positive(number::decimal(n)) is None,
{
    number::law_decimal_reads_back(n, usize::MAX as nat);
}

/// A new provider is read from four lines: its name, its address, its model and
/// its key, each without whitespace around it.
pub proof fn law_new_provider(
    name: Seq<char>,
    endpoint: Seq<char>,
    model: Seq<char>,
    key: Seq<char>,
)
    requires
        forall|i: int| 0 <= i < name.len() ==> #[trigger] name[i] != '\n',
        forall|i: int| 0 <= i < endpoint.len() ==> #[trigger] endpoint[i] != '\n',
        forall|i: int| 0 <= i < model.len() ==> #[trigger] model[i] != '\n',
    ensures
        ({
            let p = new_provider_of(
                name + "\n"@ + (endpoint + "\n"@ + (model + "\n"@ + key)),
            );
            &&& p.name == text::trimmed(name)
            &&& p.endpoint == text::trimmed(endpoint)
            &&& p.model == text::trimmed(model)
            &&& p.api_key == text::trimmed(key)
        }),
        new_provider_of(name).name == text::trimmed(name),
        new_provider_of(name).endpoint.len() == 0,
{
    let c = model + "\n"@ + key;
    let b = endpoint + "\n"@ + c;
    lemma_line(name, b);
    lemma_line(endpoint, c);
    lemma_line(model, key);
    let none = Seq::<char>::empty();
    let p = text::among("\n"@);
    assert forall|i: int| 0 <= i < name.len() implies !p(#[trigger] name[i]) by {
        lemma_feed(name[i]);
    }
    assert(name + none =~= name);
    text::law_until(name, none, p);
    assert(after_line(name) =~= none);
    text::law_until(none, none, p);
    assert(none + none =~= none);
    text::law_trimmed_already(none);
}

proof fn lemma_feed(c: char)
    ensures
        text::among("\n"@)(c) <==> c == '\n',
{
    reveal_strlit("\n");
    assert("\n"@[0] == '\n');
}

proof fn lemma_line(a: Seq<char>, b: Seq<char>)
    requires
        forall|i: int| 0 <= i < a.len() ==> #[trigger] a[i] != '\n',
    ensures
        first_line(a + "\n"@ + b) == text::trimmed(a),
        after_line(a + "\n"@ + b) == b,
{
    reveal_strlit("\n");
    let p = text::among("\n"@);
    assert forall|i: int| 0 <= i < a.len() implies !p(#[trigger] a[i]) by {
        lemma_feed(a[i]);
    }
    lemma_feed('\n');
    let rest = "\n"@ + b;
    assert(a + "\n"@ + b =~= a + rest);
    text::law_until(a, rest, p);
    assert((a + rest).skip(a.len() as int + 1) =~= b);
}

/// A number sets its own limit and leaves the other; a model sets the model in use
/// and not the provider.
pub proof fn law_numbers_and_models_are_set(
    e: EngineView,
    value: Seq<char>,
    f: SettingFacts,
    n: nat,
)
    requires
        0 < n <= usize::MAX,
    ensures
        setting_changed(e, "max_tokens"@, number::decimal(n), f).cfg.max_tokens == n,
        setting_changed(e, "max_tokens"@, number::decimal(n), f).cfg.tool_call_limit
            == e.cfg.tool_call_limit,
        setting_changed(e, "tool_call_limit"@, number::decimal(n), f).cfg.tool_call_limit == n,
        setting_changed(e, "tool_call_limit"@, number::decimal(n), f).cfg.max_tokens
            == e.cfg.max_tokens,
        setting_changed(e, "model"@, value, f).cfg.active_model == value,
        setting_changed(e, "model"@, value, f).cfg.active_provider == e.cfg.active_provider,
{
    law_positive(n);
    lemma_setting_names();
    lemma_number_settings(e, number::decimal(n), f);
}

proof fn lemma_number_settings(e: EngineView, v: Seq<char>, f: SettingFacts)
    requires
        positive(v) is Some,
    ensures
        setting_changed(e, "max_tokens"@, v, f).cfg.max_tokens == positive(v)->0,
        setting_changed(e, "max_tokens"@, v, f).cfg.tool_call_limit == e.cfg.tool_call_limit,
        setting_changed(e, "tool_call_limit"@, v, f).cfg.tool_call_limit == positive(v)->0,
        setting_changed(e, "tool_call_limit"@, v, f).cfg.max_tokens == e.cfg.max_tokens,
{
    lemma_setting_names();
}

/// A switch is on by its one word and off by any other.
pub proof fn law_switches_are_set(e: EngineView, value: Seq<char>, f: SettingFacts)
    ensures
        setting_changed(e, "permissions"@, value, f).cfg.skip_permissions <==> value == "skip"@,
        setting_changed(e, "clean_env"@, value, f).cfg.clean_env <==> value == "on"@,
        setting_changed(e, "subagents"@, value, f).cfg.skill_subagents <==> value == "on"@,
{
    lemma_setting_names();
}

/// A setting changes nothing that has another name, and never the conversation or
/// the work directory.
#[verifier::rlimit(40)]
pub proof fn law_settings_are_apart(
    e: EngineView,
    key: Seq<char>,
    value: Seq<char>,
    f: SettingFacts,
)
    ensures
        setting_changed(e, key, value, f).history == e.history,
        setting_changed(e, key, value, f).cfg.work_dir == e.cfg.work_dir,
        key != "permissions"@ ==> setting_changed(e, key, value, f).cfg.skip_permissions
            == e.cfg.skip_permissions,
        key != "sandbox"@ ==> setting_changed(e, key, value, f).cfg.sandbox_mode
            == e.cfg.sandbox_mode,
{
}

proof fn lemma_setting_names()
    ensures
        "max_tokens"@.len() == 10,
        "tool_call_limit"@.len() == 15,
        "model"@.len() == 5 && "model"@[0] == 'm',
        "permissions"@.len() == 11,
        "clean_env"@.len() == 9 && "clean_env"@[0] == 'c',
        "subagents"@.len() == 9 && "subagents"@[0] == 's',
        "provider"@.len() == 8,
        "new_provider"@.len() == 12,
        "api_key"@.len() == 7 && "api_key"@[0] == 'a',
        "theme"@.len() == 5 && "theme"@[0] == 't',
        "sandbox"@.len() == 7 && "sandbox"@[0] == 's',
        "ast"@.len() == 3,
{
    reveal_strlit("max_tokens");
    reveal_strlit("tool_call_limit");
    reveal_strlit("model");
    reveal_strlit("permissions");
    reveal_strlit("clean_env");
    reveal_strlit("subagents");
    reveal_strlit("provider");
    reveal_strlit("new_provider");
    reveal_strlit("api_key");
    reveal_strlit("theme");
    reveal_strlit("sandbox");
    reveal_strlit("ast");
}

/// Commands go into a container only where it was found; the two ways to run on
/// the host are always to be had.
pub proof fn law_sandbox_needs_its_program(e: EngineView, value: Seq<char>, f: SettingFacts)
    ensures
        setting_changed(e, "sandbox"@, value, f).cfg.sandbox_mode == SandboxMode::Mxc
            && e.cfg.sandbox_mode != SandboxMode::Mxc ==> f.mxc_found,
        setting_changed(e, "sandbox"@, value, f).cfg.sandbox_mode == SandboxMode::Docker
            && e.cfg.sandbox_mode != SandboxMode::Docker ==> f.docker_found,
        setting_changed(e, "sandbox"@, "off"@, f).cfg.sandbox_mode == SandboxMode::Off,
        setting_changed(e, "sandbox"@, "permissive"@, f).cfg.sandbox_mode
            == SandboxMode::Permissive,
        f.mxc_found ==> setting_changed(e, "sandbox"@, "mxc"@, f).cfg.sandbox_mode
            == SandboxMode::Mxc,
        f.docker_found ==> setting_changed(e, "sandbox"@, "docker"@, f).cfg.sandbox_mode
            == SandboxMode::Docker,
{
    lemma_setting_names();
    reveal_strlit("off");
    reveal_strlit("permissive");
    reveal_strlit("mxc");
    reveal_strlit("docker");
    assert("off"@.len() == 3 && "permissive"@.len() == 10 && "mxc"@.len() == 3 && "docker"@.len()
        == 6);
    assert("off"@[0] == 'o' && "mxc"@[0] == 'm');
}

/// Switching to a provider takes up the model last used with it, and switching to
/// a model keeps it for the provider in use: coming back finds it again.
pub proof fn law_model_is_kept(e: EngineView, other: Seq<char>, model: Seq<char>)
    requires
        config::provider_of(e.cfg.providers, e.cfg.active_provider) is Some,
    ensures
        on_provider(on_provider(on_model(e, model), other), e.cfg.active_provider).cfg.active_model
            == model,
        on_provider(e, other).cfg.active_provider == other,
        on_model(e, model).cfg.active_model == model,
        on_provider(e, other).cfg.providers == e.cfg.providers,
{
    let ps = e.cfg.providers;
    let name = e.cfg.active_provider;
    config::law_model_is_kept(ps, name, model);
}

/// Whatever a setting changes is saved, and what was to be done before is still
/// done first.
#[verifier::rlimit(40)]
pub proof fn law_changes_are_saved(
    s: Seq<EffectView>,
    e: EngineView,
    key: Seq<char>,
    value: Seq<char>,
    f: SettingFacts,
)
    ensures
        s.is_prefix_of(setting_effects(s, e, key, value, f)),
        setting_changed(e, key, value, f) != e ==> setting_effects(s, e, key, value, f).contains(
            EffectView::SaveConfigQuietly,
        ),
{
    let t = setting_effects(s, e, key, value, f);
    assert(t.subrange(0, s.len() as int) =~= s);
    if setting_changed(e, key, value, f) != e {
        let n = s.len() as int;
        assert(t.len() > n);
        assert(t[n] == EffectView::SaveConfigQuietly || t[n + 1]
            == EffectView::SaveConfigQuietly);
    }
}

/// A provider that is not there is told and nothing is saved for it.
pub proof fn law_unknown_provider(
    s: Seq<EffectView>,
    e: EngineView,
    value: Seq<char>,
    f: SettingFacts,
)
    requires
        !f.provider_known,
    ensures
        setting_changed(e, "provider"@, value, f) == e,
        setting_effects(s, e, "provider"@, value, f) == s.push(
            outbox::warns("Unknown provider: "@ + value),
        ),
        f.key_stored == Ok::<bool, String>(false) ==> setting_effects(
            s,
            e,
            "api_key"@,
            value,
            f,
        )[s.len() as int] == (EffectView::StoreKey {
            provider: e.cfg.active_provider,
            key: value,
        }),
        setting_effects(s, e, "api_key"@, value, f).last() == EffectView::RebuildRegistry,
{
    lemma_setting_names();
}

/// The settings shown are those in force.
pub proof fn law_settings_shown(
    e: EngineView,
    providers: Seq<Seq<char>>,
    listed: Seq<Seq<char>>,
    us: Seq<UserProviderView>,
    themes: Seq<Seq<char>>,
)
    ensures
        ({
            let c = settings_of(e, providers, listed, us, themes);
            &&& c.provider == e.cfg.active_provider
            &&& c.model == e.cfg.active_model
            &&& c.providers == providers
            &&& c.api_key == active_key(e, us)
            &&& listed.is_prefix_of(c.models)
            &&& c.theme == e.cfg.theme
            &&& c.max_tokens == e.cfg.max_tokens
            &&& c.tool_call_limit == e.cfg.tool_call_limit
            &&& c.skip_permissions == e.cfg.skip_permissions
            &&& c.clean_env == e.cfg.clean_env
            &&& c.skill_subagents == e.cfg.skill_subagents
            &&& c.sandbox_mode == config::sandbox_label(e.cfg.sandbox_mode)
            &&& c.ast_mode == config::ast_label(e.ast_mode)
        }),
{
    if let Some(p) = config::provider_of(e.cfg.providers, e.cfg.active_provider) {
        law_merged(listed, p.extra_models, Seq::empty());
    } else {
        assert(listed.subrange(0, listed.len() as int) =~= listed);
    }
}

} // verus!
