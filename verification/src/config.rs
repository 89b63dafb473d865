//! The settings.

use crate::dup::{self, copy_opt, copy_texts, dup_all, dup_opt, Dup};
use crate::split;
use crate::text::{self, same};
use crate::ui::AstMode;
use vstd::prelude::*;

verus! {

/// Where the commands of the model run.
#[derive(Clone, Copy, Debug, PartialEq, Eq, Structural)]
pub enum SandboxMode {
    /// On the host, after the user allowed them.
    Off,
    /// On the host, all of them allowed.
    Permissive,
    /// In execution containers.
    Mxc,
    /// In a Docker container.
    Docker,
}

/// The name of a sandbox mode.
pub open spec fn sandbox_label(m: SandboxMode) -> Seq<char> {
    match m {
        SandboxMode::Off => "off"@,
        SandboxMode::Permissive => "permissive"@,
        SandboxMode::Mxc => "mxc"@,
        SandboxMode::Docker => "docker"@,
    }
}

impl SandboxMode {
    /// The name of the mode.
    pub fn label(&self) -> (r: &'static str)
        ensures
            r@ == sandbox_label(*self),
    {
        match self {
            SandboxMode::Off => "off",
            SandboxMode::Permissive => "permissive",
            SandboxMode::Mxc => "mxc",
            SandboxMode::Docker => "docker",
        }
    }
}

/// The name of an AST mode.
pub open spec fn ast_label(m: AstMode) -> Seq<char> {
    match m {
        AstMode::Off => "off"@,
        AstMode::SExpr => "sexpr"@,
        AstMode::Harness => "harness"@,
    }
}

impl AstMode {
    /// The name of the mode.
    pub fn label(&self) -> (r: &'static str)
        ensures
            r@ == ast_label(*self),
    {
        match self {
            AstMode::Off => "off",
            AstMode::SExpr => "sexpr",
            AstMode::Harness => "harness",
        }
    }
}

/// The AST mode with a name.
pub open spec fn ast_mode_named(s: Seq<char>) -> Option<AstMode> {
    if s == "off"@ {
        Some(AstMode::Off)
    } else if s == "sexpr"@ {
        Some(AstMode::SExpr)
    } else if s == "harness"@ {
        Some(AstMode::Harness)
    } else {
        None
    }
}

/// The AST mode with a name.
pub fn parse_ast_mode(s: &str) -> (r: Option<AstMode>)
    ensures
        r == ast_mode_named(s@),
{
    if same(s, "off") {
        Some(AstMode::Off)
    } else if same(s, "sexpr") {
        Some(AstMode::SExpr)
    } else if same(s, "harness") {
        Some(AstMode::Harness)
    } else {
        None
    }
}

/// What is kept of a provider.
#[derive(Debug)]
pub struct ProviderEntry {
    pub name: String,
    pub api_key: String,
    /// The model last used with it; empty if none.
    pub model: String,
    /// Models beside those that the provider lists.
    pub extra_models: Vec<String>,
}

/// The model of [`ProviderEntry`].
#[verifier::ext_equal]
pub struct ProviderEntryView {
    pub name: Seq<char>,
    pub api_key: Seq<char>,
    pub model: Seq<char>,
    pub extra_models: Seq<Seq<char>>,
}

impl View for ProviderEntry {
    type V = ProviderEntryView;

    open spec fn view(&self) -> ProviderEntryView {
        ProviderEntryView {
            name: self.name@,
            api_key: self.api_key@,
            model: self.model@,
            extra_models: split::texts(self.extra_models@),
        }
    }
}

impl Dup for ProviderEntry {
    fn dup(&self) -> (r: ProviderEntry) {
        ProviderEntry {
            name: self.name.as_str().to_string(),
            api_key: self.api_key.as_str().to_string(),
            model: self.model.as_str().to_string(),
            extra_models: copy_texts(&self.extra_models),
        }
    }
}

/// The color of the status bar in a directory.
#[derive(Debug)]
pub struct DirColor {
    pub dir: String,
    pub rgb: [u8; 3],
}

/// The model of [`DirColor`].
#[verifier::ext_equal]
pub struct DirColorView {
    pub dir: Seq<char>,
    pub rgb: [u8; 3],
}

impl View for DirColor {
    type V = DirColorView;

    open spec fn view(&self) -> DirColorView {
        DirColorView {
            dir: self.dir@,
            rgb: self.rgb,
        }
    }
}

impl Dup for DirColor {
    fn dup(&self) -> (r: DirColor) {
        DirColor {
            dir: self.dir.as_str().to_string(),
            rgb: self.rgb,
        }
    }
}

/// Instructions for one provider.
#[derive(Debug)]
pub struct ProviderPrompt {
    pub provider: String,
    pub prompt: String,
}

/// The model of [`ProviderPrompt`].
#[verifier::ext_equal]
pub struct ProviderPromptView {
    pub provider: Seq<char>,
    pub prompt: Seq<char>,
}

impl View for ProviderPrompt {
    type V = ProviderPromptView;

    open spec fn view(&self) -> ProviderPromptView {
        ProviderPromptView {
            provider: self.provider@,
            prompt: self.prompt@,
        }
    }
}

impl Dup for ProviderPrompt {
    fn dup(&self) -> (r: ProviderPrompt) {
        ProviderPrompt {
            provider: self.provider.as_str().to_string(),
            prompt: self.prompt.as_str().to_string(),
        }
    }
}

/// A provider and model, and those that stand in for them.
#[derive(Debug)]
pub struct ModelTier {
    pub provider: String,
    pub model: String,
    pub backup_provider: String,
    pub backup_model: String,
}

/// The model of [`ModelTier`].
#[verifier::ext_equal]
pub struct ModelTierView {
    pub provider: Seq<char>,
    pub model: Seq<char>,
    pub backup_provider: Seq<char>,
    pub backup_model: Seq<char>,
}

impl View for ModelTier {
    type V = ModelTierView;

    open spec fn view(&self) -> ModelTierView {
        ModelTierView {
            provider: self.provider@,
            model: self.model@,
            backup_provider: self.backup_provider@,
            backup_model: self.backup_model@,
        }
    }
}

impl Dup for ModelTier {
    fn dup(&self) -> (r: ModelTier) {
        ModelTier {
            provider: self.provider.as_str().to_string(),
            model: self.model.as_str().to_string(),
            backup_provider: self.backup_provider.as_str().to_string(),
            backup_model: self.backup_model.as_str().to_string(),
        }
    }
}

/// Which model takes which tasks.
#[derive(Debug)]
pub struct ModelTiers {
    pub enabled: bool,
    /// The hardest task that goes to `default`.
    pub default_max_difficulty: u8,
    pub default: ModelTier,
    pub complex: ModelTier,
    /// Rates the tasks.
    pub rater: ModelTier,
}

/// The model of [`ModelTiers`].
#[verifier::ext_equal]
pub struct ModelTiersView {
    pub enabled: bool,
    pub default_max_difficulty: u8,
    pub default: ModelTierView,
    pub complex: ModelTierView,
    pub rater: ModelTierView,
}

impl View for ModelTiers {
    type V = ModelTiersView;

    open spec fn view(&self) -> ModelTiersView {
        ModelTiersView {
            enabled: self.enabled,
            default_max_difficulty: self.default_max_difficulty,
            default: self.default@,
            complex: self.complex@,
            rater: self.rater@,
        }
    }
}

impl Dup for ModelTiers {
    fn dup(&self) -> (r: ModelTiers) {
        ModelTiers {
            enabled: self.enabled,
            default_max_difficulty: self.default_max_difficulty,
            default: self.default.dup(),
            complex: self.complex.dup(),
            rater: self.rater.dup(),
        }
    }
}

/// The settings.
#[derive(Debug)]
pub struct Config {
    pub active_provider: String,
    pub active_model: String,
    pub providers: Vec<ProviderEntry>,
    pub work_dir: String,
    pub allowed_commands: Vec<String>,
    pub ast_mode: AstMode,
    pub token_budget: usize,
    pub system_prompt: String,
    /// Runs after each edit of a file.
    pub verify_command: Option<String>,
    pub sandbox_mode: SandboxMode,
    pub status_colors: Vec<DirColor>,
    pub tool_call_limit: usize,
    pub skill_subagents: bool,
    pub max_tokens: usize,
    pub thinking: bool,
    pub model_tiers: Option<ModelTiers>,
    pub theme: String,
    pub skip_permissions: bool,
    pub clean_env: bool,
    pub provider_system_prompts: Vec<ProviderPrompt>,
    pub checkpoints: bool,
}

/// The model of [`Config`].
pub struct ConfigView {
    pub active_provider: Seq<char>,
    pub active_model: Seq<char>,
    pub providers: Seq<ProviderEntryView>,
    pub work_dir: Seq<char>,
    pub allowed_commands: Seq<Seq<char>>,
    pub ast_mode: AstMode,
    pub token_budget: usize,
    pub system_prompt: Seq<char>,
    pub verify_command: Option<Seq<char>>,
    pub sandbox_mode: SandboxMode,
    pub status_colors: Seq<DirColorView>,
    pub tool_call_limit: usize,
    pub skill_subagents: bool,
    pub max_tokens: usize,
    pub thinking: bool,
    pub model_tiers: Option<ModelTiersView>,
    pub theme: Seq<char>,
    pub skip_permissions: bool,
    pub clean_env: bool,
    pub provider_system_prompts: Seq<ProviderPromptView>,
    pub checkpoints: bool,
}

impl View for Config {
    type V = ConfigView;

    open spec fn view(&self) -> ConfigView {
        ConfigView {
            active_provider: self.active_provider@,
            active_model: self.active_model@,
            providers: split::views(self.providers@),
            work_dir: self.work_dir@,
            allowed_commands: split::texts(self.allowed_commands@),
            ast_mode: self.ast_mode,
            token_budget: self.token_budget,
            system_prompt: self.system_prompt@,
            verify_command: split::opt_text(self.verify_command),
            sandbox_mode: self.sandbox_mode,
            status_colors: split::views(self.status_colors@),
            tool_call_limit: self.tool_call_limit,
            skill_subagents: self.skill_subagents,
            max_tokens: self.max_tokens,
            thinking: self.thinking,
            model_tiers: dup::opt_view(self.model_tiers),
            theme: self.theme@,
            skip_permissions: self.skip_permissions,
            clean_env: self.clean_env,
            provider_system_prompts: split::views(self.provider_system_prompts@),
            checkpoints: self.checkpoints,
        }
    }
}

/// The user's own value of each setting that a project may override for the
/// session.
#[derive(Debug)]
pub struct OwnSettings {
    pub system_prompt: String,
    pub allowed_commands: Vec<String>,
    pub verify_command: Option<String>,
    pub sandbox_mode: SandboxMode,
}

/// The model of [`OwnSettings`].
pub struct OwnSettingsView {
    pub system_prompt: Seq<char>,
    pub allowed_commands: Seq<Seq<char>>,
    pub verify_command: Option<Seq<char>>,
    pub sandbox_mode: SandboxMode,
}

impl View for OwnSettings {
    type V = OwnSettingsView;

    open spec fn view(&self) -> OwnSettingsView {
        OwnSettingsView {
            system_prompt: self.system_prompt@,
            allowed_commands: split::texts(self.allowed_commands@),
            verify_command: split::opt_text(self.verify_command),
            sandbox_mode: self.sandbox_mode,
        }
    }
}

/// What settings hold of those that a project may override.
pub open spec fn own_of(c: ConfigView) -> OwnSettingsView {
    OwnSettingsView {
        system_prompt: c.system_prompt,
        allowed_commands: c.allowed_commands,
        verify_command: c.verify_command,
        sandbox_mode: c.sandbox_mode,
    }
}

/// Settings with the user's own values in place of a project's.
pub open spec fn with_own(c: ConfigView, o: OwnSettingsView) -> ConfigView {
    ConfigView {
        system_prompt: o.system_prompt,
        allowed_commands: o.allowed_commands,
        verify_command: o.verify_command,
        sandbox_mode: o.sandbox_mode,
        ..c
    }
}

impl Config {
    /// What the settings hold of those that a project may override.
    pub fn own_settings(&self) -> (r: OwnSettings)
        ensures
            r@ == own_of(self@),
    {
        OwnSettings {
            system_prompt: self.system_prompt.as_str().to_string(),
            allowed_commands: copy_texts(&self.allowed_commands),
            verify_command: copy_opt(&self.verify_command),
            sandbox_mode: self.sandbox_mode,
        }
    }
}

impl Dup for Config {
    fn dup(&self) -> (r: Config) {
        Config {
            active_provider: self.active_provider.as_str().to_string(),
            active_model: self.active_model.as_str().to_string(),
            providers: dup_all(&self.providers),
            work_dir: self.work_dir.as_str().to_string(),
            allowed_commands: copy_texts(&self.allowed_commands),
            ast_mode: self.ast_mode,
            token_budget: self.token_budget,
            system_prompt: self.system_prompt.as_str().to_string(),
            verify_command: copy_opt(&self.verify_command),
            sandbox_mode: self.sandbox_mode,
            status_colors: dup_all(&self.status_colors),
            tool_call_limit: self.tool_call_limit,
            skill_subagents: self.skill_subagents,
            max_tokens: self.max_tokens,
            thinking: self.thinking,
            model_tiers: dup_opt(&self.model_tiers),
            theme: self.theme.as_str().to_string(),
            skip_permissions: self.skip_permissions,
            clean_env: self.clean_env,
            provider_system_prompts: dup_all(&self.provider_system_prompts),
            checkpoints: self.checkpoints,
        }
    }
}

/// The settings that a project brings along.
#[derive(Debug)]
pub struct ProjectConfig {
    pub system_prompt: String,
    pub allowed_commands: Vec<String>,
    pub verify_command: Option<String>,
    pub sandbox_mode: Option<String>,
}

/// The model of [`ProjectConfig`].
#[verifier::ext_equal]
pub struct ProjectConfigView {
    pub system_prompt: Seq<char>,
    pub allowed_commands: Seq<Seq<char>>,
    pub verify_command: Option<Seq<char>>,
    pub sandbox_mode: Option<Seq<char>>,
}

impl View for ProjectConfig {
    type V = ProjectConfigView;

    open spec fn view(&self) -> ProjectConfigView {
        ProjectConfigView {
            system_prompt: self.system_prompt@,
            allowed_commands: split::texts(self.allowed_commands@),
            verify_command: split::opt_text(self.verify_command),
            sandbox_mode: split::opt_text(self.sandbox_mode),
        }
    }
}

impl Dup for ProjectConfig {
    fn dup(&self) -> (r: ProjectConfig) {
        ProjectConfig {
            system_prompt: self.system_prompt.as_str().to_string(),
            allowed_commands: copy_texts(&self.allowed_commands),
            verify_command: copy_opt(&self.verify_command),
            sandbox_mode: copy_opt(&self.sandbox_mode),
        }
    }
}

// ── Looking up ──────────────────────────────────────────────────────────────

/// The first entry of a provider; the number of entries if there is none.
pub open spec fn provider_at(ps: Seq<ProviderEntryView>, name: Seq<char>) -> int
    decreases ps.len(),
{
    if ps.len() == 0 {
        0
    } else if ps[0].name == name {
        0
    } else {
        1 + provider_at(ps.drop_first(), name)
    }
}

/// `provider_at` is the first place with that name.
pub proof fn lemma_provider_at(ps: Seq<ProviderEntryView>, name: Seq<char>)
    ensures
        0 <= provider_at(ps, name) <= ps.len(),
        provider_at(ps, name) < ps.len() ==> ps[provider_at(ps, name)].name == name,
    decreases ps.len(),
{
    if ps.len() > 0 && ps[0].name != name {
        lemma_provider_at(ps.drop_first(), name);
        let k = provider_at(ps.drop_first(), name);
        if k < ps.drop_first().len() {
            assert(ps.drop_first()[k] == ps[k + 1]);
        }
    }
}

/// What is kept of a provider.
pub open spec fn provider_of(ps: Seq<ProviderEntryView>, name: Seq<char>) -> Option<
    ProviderEntryView,
> {
    let k = provider_at(ps, name);
    if k < ps.len() {
        Some(ps[k])
    } else {
        None
    }
}

/// The model last used with a provider; empty if none.
pub open spec fn kept_model(ps: Seq<ProviderEntryView>, name: Seq<char>) -> Seq<char> {
    match provider_of(ps, name) {
        Some(p) => p.model,
        None => Seq::empty(),
    }
}

/// The entries with another model for a provider that has one.
pub open spec fn with_model(
    ps: Seq<ProviderEntryView>,
    name: Seq<char>,
    model: Seq<char>,
) -> Seq<ProviderEntryView> {
    let k = provider_at(ps, name);
    if k < ps.len() {
        ps.update(k, ProviderEntryView { model, ..ps[k] })
    } else {
        ps
    }
}

/// Finds the entry of a provider.
pub fn find_provider(ps: &Vec<ProviderEntry>, name: &str) -> (r: usize)
    ensures
        r == provider_at(split::views(ps@), name@),
        r <= ps@.len(),
{
    let ghost all = split::views(ps@);
    let mut i: usize = 0;
    assert(all.skip(0) =~= all);
    while i < ps.len()
        invariant
            i <= ps@.len(),
            all == split::views(ps@),
            provider_at(all, name@) == i + provider_at(all.skip(i as int), name@),
        decreases ps@.len() - i,
    {
        assert(all[i as int] == ps@[i as int]@);
        assert(all.skip(i as int).drop_first() =~= all.skip(i + 1));
        if same(ps[i].name.as_str(), name) {
            return i;
        }
        i += 1;
    }
    i
}

/// The color of a directory.
pub open spec fn color_of(cs: Seq<DirColorView>, dir: Seq<char>) -> Option<[u8; 3]>
    decreases cs.len(),
{
    if cs.len() == 0 {
        None
    } else if cs[0].dir == dir {
        Some(cs[0].rgb)
    } else {
        color_of(cs.drop_first(), dir)
    }
}

/// The color of a directory.
pub fn find_color(cs: &Vec<DirColor>, dir: &str) -> (r: Option<[u8; 3]>)
    ensures
        r == color_of(split::views(cs@), dir@),
{
    let ghost all = split::views(cs@);
    let mut i: usize = 0;
    assert(all.skip(0) =~= all);
    while i < cs.len()
        invariant
            i <= cs@.len(),
            all == split::views(cs@),
            color_of(all, dir@) == color_of(all.skip(i as int), dir@),
        decreases cs@.len() - i,
    {
        assert(all[i as int] == cs@[i as int]@);
        assert(all.skip(i as int).drop_first() =~= all.skip(i + 1));
        if same(cs[i].dir.as_str(), dir) {
            return Some(cs[i].rgb);
        }
        i += 1;
    }
    None
}

/// The colors without those of a directory.
pub open spec fn without_color(cs: Seq<DirColorView>, dir: Seq<char>) -> Seq<DirColorView>
    decreases cs.len(),
{
    if cs.len() == 0 {
        Seq::empty()
    } else if cs.last().dir == dir {
        without_color(cs.drop_last(), dir)
    } else {
        without_color(cs.drop_last(), dir).push(cs.last())
    }
}

/// The colors with a new one for a directory.
pub open spec fn with_color(
    cs: Seq<DirColorView>,
    dir: Seq<char>,
    rgb: [u8; 3],
) -> Seq<DirColorView> {
    without_color(cs, dir).push(DirColorView { dir, rgb })
}

/// Takes the color of a directory away.
pub fn remove_color(cs: &mut Vec<DirColor>, dir: &str)
    ensures
        split::views(final(cs)@) == without_color(split::views(old(cs)@), dir@),
{
    broadcast use split::lemma_views_push;

    let mut out: Vec<DirColor> = Vec::new();
    let ghost all = split::views(cs@);
    let mut i: usize = 0;
    assert(split::views(out@) =~= without_color(all.take(0), dir@));
    while i < cs.len()
        invariant
            i <= cs@.len(),
            all == split::views(cs@),
            split::views(out@) == without_color(all.take(i as int), dir@),
        decreases cs@.len() - i,
    {
        assert(all[i as int] == cs@[i as int]@);
        assert(all.take(i + 1).drop_last() =~= all.take(i as int));
        if !same(cs[i].dir.as_str(), dir) {
            out.push(cs[i].dup());
        }
        i += 1;
    }
    assert(all.take(i as int) =~= all);
    *cs = out;
}

/// A directory keeps the color that it was given last, and other directories
/// keep theirs.
pub proof fn law_color(cs: Seq<DirColorView>, dir: Seq<char>, rgb: [u8; 3], other: Seq<char>)
    ensures
        color_of(with_color(cs, dir, rgb), dir) == Some(rgb),
        color_of(without_color(cs, dir), dir) is None,
        other != dir ==> color_of(with_color(cs, dir, rgb), other) == color_of(cs, other),
        other != dir ==> color_of(without_color(cs, dir), other) == color_of(cs, other),
{
    lemma_without_color(cs, dir, other);
    lemma_color_push(without_color(cs, dir), DirColorView { dir, rgb }, dir);
    lemma_color_push(without_color(cs, dir), DirColorView { dir, rgb }, other);
}

proof fn lemma_color_push(cs: Seq<DirColorView>, c: DirColorView, dir: Seq<char>)
    ensures
        color_of(cs.push(c), dir) == (match color_of(cs, dir) {
            Some(rgb) => Some(rgb),
            None => if c.dir == dir {
                Some(c.rgb)
            } else {
                None
            },
        }),
    decreases cs.len(),
{
    if cs.len() == 0 {
        assert(cs.push(c).drop_first() =~= Seq::<DirColorView>::empty());
        assert(color_of(cs.push(c).drop_first(), dir) is None);
    } else {
        assert(cs.push(c).drop_first() =~= cs.drop_first().push(c));
        lemma_color_push(cs.drop_first(), c, dir);
    }
}

proof fn lemma_without_color(cs: Seq<DirColorView>, dir: Seq<char>, other: Seq<char>)
    ensures
        color_of(without_color(cs, dir), dir) is None,
        other != dir ==> color_of(without_color(cs, dir), other) == color_of(cs, other),
    decreases cs.len(),
{
    if cs.len() > 0 {
        let init = cs.drop_last();
        lemma_without_color(init, dir, other);
        assert(init.push(cs.last()) =~= cs);
        lemma_color_push(init, cs.last(), other);
        lemma_color_push(without_color(init, dir), cs.last(), other);
        lemma_color_push(without_color(init, dir), cs.last(), dir);
    }
}

/// The instructions for a provider; empty if there are none.
pub open spec fn prompt_of(ps: Seq<ProviderPromptView>, provider: Seq<char>) -> Seq<char>
    decreases ps.len(),
{
    if ps.len() == 0 {
        Seq::empty()
    } else if ps[0].provider == provider {
        ps[0].prompt
    } else {
        prompt_of(ps.drop_first(), provider)
    }
}

/// The instructions for a provider; empty if there are none.
pub fn find_prompt(ps: &Vec<ProviderPrompt>, provider: &str) -> (r: String)
    ensures
        r@ == prompt_of(split::views(ps@), provider@),
{
    let ghost all = split::views(ps@);
    let mut i: usize = 0;
    assert(all.skip(0) =~= all);
    while i < ps.len()
        invariant
            i <= ps@.len(),
            all == split::views(ps@),
            prompt_of(all, provider@) == prompt_of(all.skip(i as int), provider@),
        decreases ps@.len() - i,
    {
        assert(all[i as int] == ps@[i as int]@);
        assert(all.skip(i as int).drop_first() =~= all.skip(i + 1));
        if same(ps[i].provider.as_str(), provider) {
            return ps[i].prompt.as_str().to_string();
        }
        i += 1;
    }
    text::empty()
}

/// A provider is found at its first entry, and its entries behind do not count; one
/// without an entry is not found.
pub proof fn law_provider_is_found(
    a: Seq<ProviderEntryView>,
    p: ProviderEntryView,
    b: Seq<ProviderEntryView>,
    name: Seq<char>,
    model: Seq<char>,
)
    requires
        forall|k: int| 0 <= k < a.len() ==> (#[trigger] a[k]).name != name,
        p.name == name,
    ensures
        provider_of(a.push(p) + b, name) == Some(p),
        provider_of(a, name) is None,
        kept_model(a.push(p) + b, name) == p.model,
        kept_model(a, name).len() == 0,
        with_model(a, name, model) == a,
        with_model(a.push(p) + b, name, model) == a.push(ProviderEntryView { model, ..p }) + b,
        kept_model(with_model(a.push(p) + b, name, model), name) == model,
{
    let all = a.push(p) + b;
    lemma_found_at(a, p, b, name);
    lemma_first_at(a, name);
    let q = ProviderEntryView { model, ..p };
    assert(with_model(all, name, model) =~= a.push(q) + b);
    lemma_found_at(a, q, b, name);
}

proof fn lemma_first_at(ps: Seq<ProviderEntryView>, name: Seq<char>)
    ensures
        0 <= provider_at(ps, name) <= ps.len(),
        provider_at(ps, name) < ps.len() ==> ps[provider_at(ps, name)].name == name,
        forall|j: int| 0 <= j < provider_at(ps, name) ==> (#[trigger] ps[j]).name != name,
    decreases ps.len(),
{
    if ps.len() > 0 {
        let rest = ps.drop_first();
        lemma_first_at(rest, name);
        assert forall|j: int| 0 <= j < provider_at(ps, name) implies (#[trigger] ps[j]).name
            != name by {
            if j > 0 {
                assert(rest[j - 1] == ps[j]);
            }
        }
        if 0 < provider_at(ps, name) < ps.len() {
            assert(rest[provider_at(rest, name)] == ps[provider_at(ps, name)]);
        }
    }
}

proof fn lemma_found_at(
    a: Seq<ProviderEntryView>,
    p: ProviderEntryView,
    b: Seq<ProviderEntryView>,
    name: Seq<char>,
)
    requires
        forall|k: int| 0 <= k < a.len() ==> (#[trigger] a[k]).name != name,
        p.name == name,
    ensures
        provider_at(a.push(p) + b, name) == a.len(),
        (a.push(p) + b)[a.len() as int] == p,
{
    let all = a.push(p) + b;
    lemma_first_at(all, name);
    let k = provider_at(all, name);
    assert(all[a.len() as int] == p);
    if k < a.len() {
        assert(all[k] == a[k]);
    }
}

/// The instructions for a provider are those of its first entry; without an entry
/// there are none.
pub proof fn law_prompt_of(
    a: Seq<ProviderPromptView>,
    p: ProviderPromptView,
    b: Seq<ProviderPromptView>,
    provider: Seq<char>,
)
    requires
        forall|k: int| 0 <= k < a.len() ==> (#[trigger] a[k]).provider != provider,
        p.provider == provider,
    ensures
        prompt_of(a.push(p) + b, provider) == p.prompt,
        prompt_of(a, provider).len() == 0,
    decreases a.len(),
{
    let all = a.push(p) + b;
    if a.len() == 0 {
        assert(all[0] == p);
    } else {
        assert(all[0] == a[0]);
        assert(a[0].provider != provider);
        assert(all.drop_first() =~= a.drop_first().push(p) + b);
        assert forall|k: int| 0 <= k < a.drop_first().len() implies (
        #[trigger] a.drop_first()[k]).provider != provider by {
            assert(a.drop_first()[k] == a[k + 1]);
        }
        law_prompt_of(a.drop_first(), p, b, provider);
    }
}

/// The label of a mode names the mode, and no other text does.
pub proof fn law_labels(m: AstMode, s: Seq<char>)
    ensures
        ast_mode_named(ast_label(m)) == Some(m),
        ast_mode_named(s) is Some ==> ast_label(ast_mode_named(s)->0) == s,
{
    reveal_strlit("off");
    reveal_strlit("sexpr");
    reveal_strlit("harness");
    assert("off"@.len() == 3 && "sexpr"@.len() == 5 && "harness"@.len() == 7);
}

/// The labels of two sandboxes differ.
pub proof fn law_sandbox_labels(m: SandboxMode, n: SandboxMode)
    requires
        m != n,
    ensures
        sandbox_label(m) != sandbox_label(n),
{
    reveal_strlit("off");
    reveal_strlit("permissive");
    reveal_strlit("mxc");
    reveal_strlit("docker");
    assert("off"@.len() == 3 && "permissive"@.len() == 10 && "mxc"@.len() == 3 && "docker"@.len()
        == 6);
    assert("off"@[0] == 'o' && "mxc"@[0] == 'm');
}

/// The user's own values come back when they are put in place of a project's, and
/// nothing else changes.
pub proof fn law_own_settings(c: ConfigView, o: OwnSettingsView)
    ensures
        own_of(with_own(c, o)) == o,
        with_own(c, own_of(c)) == c,
        with_own(c, o).active_model == c.active_model,
        with_own(c, o).max_tokens == c.max_tokens,
        with_own(c, o).providers == c.providers,
        with_own(c, o).work_dir == c.work_dir,
{
}

/// The model set for a provider that has an entry is the one kept with it.
pub proof fn law_model_is_kept(ps: Seq<ProviderEntryView>, name: Seq<char>, model: Seq<char>)
    requires
        provider_of(ps, name) is Some,
    ensures
        kept_model(with_model(ps, name, model), name) == model,
{
    let k = provider_at(ps, name);
    lemma_first_at(ps, name);
    let a = ps.take(k);
    let b = ps.skip(k + 1);
    assert(ps =~= a.push(ps[k]) + b);
    assert forall|j: int| 0 <= j < a.len() implies (#[trigger] a[j]).name != name by {
        assert(a[j] == ps[j]);
    }
    law_provider_is_found(a, ps[k], b, name, model);
}

} // verus!
