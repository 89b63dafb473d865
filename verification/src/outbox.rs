//! What a step of the engine leaves to be done outside, in order.

use crate::split;
use crate::text::cat3;
use crate::ui::{self, UiUpdate};
use vstd::prelude::*;

verus! {

broadcast use split::lemma_views_push;

/// One thing to be done outside the engine.
#[derive(Debug)]
pub enum Effect {
    /// Tell the front end.
    Send(UiUpdate),
    /// Save the settings, and report it if that fails.
    SaveConfig,
    /// Save the settings.
    SaveConfigQuietly,
    /// Tell the front end the current status.
    SendStatus,
    /// Tell the front end the current settings.
    SendConfigState { open: bool },
    /// Tell the front end how much of the budget the conversation takes.
    SendTokenUsage,
    /// Set the providers up anew.
    RebuildRegistry,
    /// Keep a model among those of a provider.
    RememberModel { provider: String, model: String },
    /// Keep the key of a provider in the settings.
    StoreKey { provider: String, key: String },
    /// Keep the endpoint of a provider in the settings.
    StoreEndpoint { provider: String, url: String },
    /// Switch between the light and the dark theme.
    UseLightTheme(bool),
    /// Save the conversation.
    SaveSession,
    /// Show a notification on the desktop.
    Notify { title: String, body: String },
}

/// The model of [`Effect`].
#[verifier::ext_equal]
pub enum EffectView {
    Send(ui::UiUpdateView),
    SaveConfig,
    SaveConfigQuietly,
    SendStatus,
    SendConfigState { open: bool },
    SendTokenUsage,
    RebuildRegistry,
    RememberModel { provider: Seq<char>, model: Seq<char> },
    StoreKey { provider: Seq<char>, key: Seq<char> },
    StoreEndpoint { provider: Seq<char>, url: Seq<char> },
    UseLightTheme(bool),
    SaveSession,
    Notify { title: Seq<char>, body: Seq<char> },
}

impl View for Effect {
    type V = EffectView;

    open spec fn view(&self) -> EffectView {
        match self {
            Effect::Send(x) => EffectView::Send(x@),
            Effect::SaveConfig => EffectView::SaveConfig,
            Effect::SaveConfigQuietly => EffectView::SaveConfigQuietly,
            Effect::SendStatus => EffectView::SendStatus,
            Effect::SendConfigState { open } => EffectView::SendConfigState {
                open: *open,
            },
            Effect::SendTokenUsage => EffectView::SendTokenUsage,
            Effect::RebuildRegistry => EffectView::RebuildRegistry,
            Effect::RememberModel { provider, model } => EffectView::RememberModel {
                provider: provider@,
                model: model@,
            },
            Effect::StoreKey { provider, key } => EffectView::StoreKey {
                provider: provider@,
                key: key@,
            },
            Effect::StoreEndpoint { provider, url } => EffectView::StoreEndpoint {
                provider: provider@,
                url: url@,
            },
            Effect::UseLightTheme(x) => EffectView::UseLightTheme(*x),
            Effect::SaveSession => EffectView::SaveSession,
            Effect::Notify { title, body } => EffectView::Notify {
                title: title@,
                body: body@,
            },
        }
    }
}

/// The things to be done outside, in order.
pub struct Outbox {
    pub effects: Vec<Effect>,
}

impl View for Outbox {
    type V = Seq<EffectView>;

    open spec fn view(&self) -> Seq<EffectView> {
        split::views(self.effects@)
    }
}

/// Telling the user something.
pub open spec fn says(s: Seq<char>) -> EffectView {
    EffectView::Send(ui::UiUpdateView::SystemMsg(s))
}

/// Telling the user of an error.
pub open spec fn warns(s: Seq<char>) -> EffectView {
    EffectView::Send(ui::UiUpdateView::ErrorMsg(s))
}

/// Showing the outcome of something done while the model worked.
pub open spec fn steers(s: Seq<char>) -> EffectView {
    EffectView::Send(ui::UiUpdateView::SteerResult(s))
}

impl Outbox {
    /// Nothing to be done.
    pub fn new() -> (r: Outbox)
        ensures
            r@ == Seq::<EffectView>::empty(),
    {
        let r = Outbox { effects: Vec::new() };
        assert(r@ =~= Seq::<EffectView>::empty());
        r
    }

    /// Adds one thing to be done.
    pub fn add(&mut self, e: Effect)
        ensures
            final(self)@ == old(self)@.push(e@),
    {
        self.effects.push(e);
    }

    /// Tells the front end.
    pub fn send(&mut self, u: UiUpdate)
        ensures
            final(self)@ == old(self)@.push(EffectView::Send(u@)),
    {
        self.add(Effect::Send(u));
    }

    /// Tells the user something.
    pub fn sys(&mut self, s: String)
        ensures
            final(self)@ == old(self)@.push(says(s@)),
    {
        self.add(Effect::Send(UiUpdate::SystemMsg(s)));
    }

    /// Tells the user something.
    pub fn say(&mut self, s: &str)
        ensures
            final(self)@ == old(self)@.push(says(s@)),
    {
        self.add(Effect::Send(UiUpdate::SystemMsg(s.to_string())));
    }

    /// Tells the user of an error.
    pub fn err(&mut self, s: String)
        ensures
            final(self)@ == old(self)@.push(warns(s@)),
    {
        self.add(Effect::Send(UiUpdate::ErrorMsg(s)));
    }

    /// Tells the user of an error.
    pub fn warn(&mut self, s: &str)
        ensures
            final(self)@ == old(self)@.push(warns(s@)),
    {
        self.add(Effect::Send(UiUpdate::ErrorMsg(s.to_string())));
    }

    /// Shows the outcome of something done while the model worked.
    pub fn steer(&mut self, s: String)
        ensures
            final(self)@ == old(self)@.push(steers(s@)),
    {
        self.add(Effect::Send(UiUpdate::SteerResult(s)));
    }
}

/// What the user is told where the settings could not be saved.
pub fn save_failed(e: &str) -> (r: UiUpdate)
    ensures
        r@ == ui::UiUpdateView::ErrorMsg(
            "Failed to save ~/.marlin/config.json: "@ + e@
                + " — this change will be lost on restart"@,
        ),
{
    UiUpdate::ErrorMsg(
        cat3(
            "Failed to save ~/.marlin/config.json: ",
            e,
            " — this change will be lost on restart",
        ),
    )
}

} // verus!
