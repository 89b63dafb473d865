//! The screen: its bars, its areas, and where what the user does goes.

use crate::chat::{ChatModel, ChatView};
use crate::dup::{copy_opt, dup_all};
use crate::index::Timestamp;
use crate::number::{self, take_chars};
use crate::split;
use crate::text::{cat2, chars_of, empty};
use crate::ui::{self, AstMode, TaskStep, TaskStepView, UiUpdate};
use vstd::prelude::*;

verus! {

/// The bar at the top.
#[derive(Debug)]
pub struct StatusBar {
    pub provider: String,
    pub model: String,
    pub git_branch: Option<String>,
    /// How many background processes run.
    pub bg_count: usize,
    pub ast_mode: AstMode,
    pub active_tool: String,
    pub streaming: bool,
    /// The tokens sent with every request, where they are too many.
    pub prompt_budget_over: Option<usize>,
    /// What the screen shows.
    pub mode: String,
    pub width: u16,
    pub frame: u64,
}

/// The model of [`StatusBar`].
#[verifier::ext_equal]
pub struct StatusBarView {
    pub provider: Seq<char>,
    pub model: Seq<char>,
    pub git_branch: Option<Seq<char>>,
    pub bg_count: usize,
    pub ast_mode: AstMode,
    pub active_tool: Seq<char>,
    pub streaming: bool,
    pub prompt_budget_over: Option<usize>,
    pub mode: Seq<char>,
    pub width: u16,
    pub frame: u64,
}

impl View for StatusBar {
    type V = StatusBarView;

    open spec fn view(&self) -> StatusBarView {
        StatusBarView {
            provider: self.provider@,
            model: self.model@,
            git_branch: split::opt_text(self.git_branch),
            bg_count: self.bg_count,
            ast_mode: self.ast_mode,
            active_tool: self.active_tool@,
            streaming: self.streaming,
            prompt_budget_over: self.prompt_budget_over,
            mode: self.mode@,
            width: self.width,
            frame: self.frame,
        }
    }
}

/// What the bar at the side shows, but for the agents and the token curve.
#[derive(Debug)]
pub struct Sidebar {
    pub token_used: usize,
    pub token_budget: usize,
    pub tasks: Vec<TaskStep>,
    pub plan: Vec<TaskStep>,
    pub selected_category: Option<usize>,
    /// Whether the keys go to it.
    pub focused: bool,
}

/// The model of [`Sidebar`].
#[verifier::ext_equal]
pub struct SidebarView {
    pub token_used: usize,
    pub token_budget: usize,
    pub tasks: Seq<TaskStepView>,
    pub plan: Seq<TaskStepView>,
    pub selected_category: Option<usize>,
    pub focused: bool,
}

impl View for Sidebar {
    type V = SidebarView;

    open spec fn view(&self) -> SidebarView {
        SidebarView {
            token_used: self.token_used,
            token_budget: self.token_budget,
            tasks: split::views(self.tasks@),
            plan: split::views(self.plan@),
            selected_category: self.selected_category,
            focused: self.focused,
        }
    }
}

/// What a word from the engine adds to the agents and the token curve.
#[derive(Debug)]
pub enum SidebarEvent {
    Nothing,
    TokenSample(usize),
    SubagentStarted { id: String, label: String },
    SubagentToolCall { id: String, name: String },
    SubagentFinished { id: String, ok: bool },
}

/// The model of [`SidebarEvent`].
#[verifier::ext_equal]
pub enum SidebarEventView {
    Nothing,
    TokenSample(usize),
    SubagentStarted { id: Seq<char>, label: Seq<char> },
    SubagentToolCall { id: Seq<char>, name: Seq<char> },
    SubagentFinished { id: Seq<char>, ok: bool },
}

impl View for SidebarEvent {
    type V = SidebarEventView;

    open spec fn view(&self) -> SidebarEventView {
        match self {
            SidebarEvent::Nothing => SidebarEventView::Nothing,
            SidebarEvent::TokenSample(x) => SidebarEventView::TokenSample(*x),
            SidebarEvent::SubagentStarted { id, label } => SidebarEventView::SubagentStarted {
                id: id@,
                label: label@,
            },
            SidebarEvent::SubagentToolCall { id, name } => SidebarEventView::SubagentToolCall {
                id: id@,
                name: name@,
            },
            SidebarEvent::SubagentFinished { id, ok } => SidebarEventView::SubagentFinished {
                id: id@,
                ok: *ok,
            },
        }
    }
}

/// Everything that is shown.
#[derive(Debug)]
pub struct Screen {
    pub bar: StatusBar,
    pub sidebar: Sidebar,
    pub chat: ChatView,
    /// Whether the greeting is still up.
    pub splash: bool,
    /// Whether every cell is to be drawn anew.
    pub redraw: bool,
}

/// The model of [`Screen`].
pub struct ScreenModel {
    pub bar: StatusBarView,
    pub sidebar: SidebarView,
    pub chat: ChatModel,
    pub splash: bool,
    pub redraw: bool,
}

impl View for Screen {
    type V = ScreenModel;

    open spec fn view(&self) -> ScreenModel {
        ScreenModel {
            bar: self.bar@,
            sidebar: self.sidebar@,
            chat: self.chat@,
            splash: self.splash,
            redraw: self.redraw,
        }
    }
}

/// A key, as far as the screen tells keys apart.
#[derive(Clone, Copy, Debug, PartialEq, Eq, Structural)]
pub enum KeyCode {
    Char(char),
    Left,
    Right,
    Up,
    Down,
    Esc,
    Enter,
    Other,
}

/// A key with what was held down beside it.
#[derive(Clone, Copy, Debug, PartialEq, Eq, Structural)]
pub struct Key {
    pub code: KeyCode,
    pub ctrl: bool,
    pub shift: bool,
}

/// What the user did.
#[derive(Clone, Copy, Debug, PartialEq, Eq, Structural)]
pub enum Input {
    Key(Key),
    Paste,
    Resize { width: u16, height: u16 },
    FocusGained,
    /// The wheel was turned.
    Scroll { up: bool },
    Other,
}

/// Where an input goes.
#[derive(Clone, Copy, Debug, PartialEq, Eq, Structural)]
pub enum Route {
    /// Nowhere: it is dealt with.
    Done,
    /// The program ends.
    Quit,
    /// To the chat, as it is.
    Chat,
    /// To the list of the sidebar, which moves by so many lines.
    MoveSelection(i32),
    /// To the list of the sidebar, which opens or closes the line.
    ToggleExpand,
}

/// A part of the screen.
#[derive(Clone, Copy, Debug, PartialEq, Eq, Structural)]
pub struct Area {
    pub x: u16,
    pub y: u16,
    pub width: u16,
    pub height: u16,
}

impl Area {
    /// Whether the area ends within the coordinates of a screen.
    pub open spec fn fits(self) -> bool {
        self.x + self.width <= u16::MAX && self.y + self.height <= u16::MAX
    }
}

/// The parts of the screen while the chat is shown.
#[derive(Clone, Copy, Debug, PartialEq, Eq, Structural)]
pub struct Areas {
    pub status: Area,
    pub chat: Area,
    pub sidebar: Option<Area>,
}

/// How much room the chat keeps beside a sidebar.
pub const CHAT_WIDTH: u16 = 40;

/// The least and the greatest width of a dialog.
pub const DIALOG_MIN_WIDTH: u16 = 40;

pub const DIALOG_MAX_WIDTH: u16 = 72;

/// The height of the dialog that asks whether a command may run.
pub const APPROVAL_HEIGHT: u16 = 7;

/// The height of the dialog that shows a question of the model.
pub const ASK_HEIGHT: u16 = 8;

impl StatusBarView {
    /// The bar after a word from the engine.
    pub open spec fn after(self, update: ui::UiUpdateView) -> StatusBarView {
        match update {
            ui::UiUpdateView::StatusUpdate(info) => StatusBarView {
                provider: info.provider,
                model: info.model,
                git_branch: info.git_branch,
                bg_count: info.bg_count,
                ..self
            },
            ui::UiUpdateView::AstMode(mode) => StatusBarView { ast_mode: mode, ..self },
            ui::UiUpdateView::ToolCall { name, .. } => StatusBarView {
                active_tool: name,
                streaming: true,
                ..self
            },
            ui::UiUpdateView::StreamChunk(_) => StatusBarView { streaming: true, ..self },
            ui::UiUpdateView::GoalComplete { .. } => StatusBarView {
                active_tool: Seq::empty(),
                streaming: false,
                ..self
            },
            ui::UiUpdateView::PromptBudget(over) => StatusBarView {
                prompt_budget_over: over,
                ..self
            },
            _ => self,
        }
    }
}

impl StatusBar {
    /// Takes a word from the engine.
    pub fn take(&mut self, update: &UiUpdate)
        ensures
            final(self)@ == old(self)@.after(update@),
    {
        match update {
            UiUpdate::StatusUpdate(info) => {
                self.provider = info.provider.as_str().to_string();
                self.model = info.model.as_str().to_string();
                self.git_branch = copy_opt(&info.git_branch);
                self.bg_count = info.bg_count;
            },
            UiUpdate::AstMode(mode) => {
                self.ast_mode = *mode;
            },
            UiUpdate::ToolCall { name, .. } => {
                self.active_tool = name.as_str().to_string();
                self.streaming = true;
            },
            UiUpdate::StreamChunk(_) => {
                self.streaming = true;
            },
            UiUpdate::GoalComplete { .. } => {
                self.active_tool = empty();
                self.streaming = false;
            },
            UiUpdate::PromptBudget(over) => {
                self.prompt_budget_over = *over;
            },
            _ => {},
        }
    }
}

impl SidebarView {
    /// The sidebar after a word from the engine.
    pub open spec fn after(self, update: ui::UiUpdateView) -> SidebarView {
        match update {
            ui::UiUpdateView::TaskUpdate(steps) => SidebarView { tasks: steps, ..self },
            ui::UiUpdateView::PlanUpdate(steps) => SidebarView { plan: steps, ..self },
            ui::UiUpdateView::TokenUsage { used, budget } => SidebarView {
                token_used: used,
                token_budget: budget,
                ..self
            },
            _ => self,
        }
    }
}

/// What a word from the engine adds to the agents and the token curve.
pub open spec fn event_of(update: ui::UiUpdateView) -> SidebarEventView {
    match update {
        ui::UiUpdateView::TokenUsage { used, .. } => SidebarEventView::TokenSample(used),
        ui::UiUpdateView::SubagentStarted { id, label } => SidebarEventView::SubagentStarted {
            id,
            label,
        },
        ui::UiUpdateView::SubagentToolCall { id, name } => SidebarEventView::SubagentToolCall {
            id,
            name,
        },
        ui::UiUpdateView::SubagentFinished { id, ok } => SidebarEventView::SubagentFinished {
            id,
            ok,
        },
        _ => SidebarEventView::Nothing,
    }
}

impl Sidebar {
    /// Takes a word from the engine, and says what it adds to the agents and the
    /// token curve.
    pub fn take(&mut self, update: &UiUpdate) -> (r: SidebarEvent)
        ensures
            final(self)@ == old(self)@.after(update@),
            r@ == event_of(update@),
    {
        match update {
            UiUpdate::TaskUpdate(steps) => {
                self.tasks = dup_all(steps);
                SidebarEvent::Nothing
            },
            UiUpdate::PlanUpdate(steps) => {
                self.plan = dup_all(steps);
                SidebarEvent::Nothing
            },
            UiUpdate::TokenUsage { used, budget } => {
                self.token_used = *used;
                self.token_budget = *budget;
                SidebarEvent::TokenSample(*used)
            },
            UiUpdate::SubagentStarted { id, label } => SidebarEvent::SubagentStarted {
                id: id.as_str().to_string(),
                label: label.as_str().to_string(),
            },
            UiUpdate::SubagentToolCall { id, name } => SidebarEvent::SubagentToolCall {
                id: id.as_str().to_string(),
                name: name.as_str().to_string(),
            },
            UiUpdate::SubagentFinished { id, ok } => SidebarEvent::SubagentFinished {
                id: id.as_str().to_string(),
                ok: *ok,
            },
            _ => SidebarEvent::Nothing,
        }
    }
}

/// Whether a key ends the program, whatever is shown.
pub open spec fn quits(key: Key) -> bool {
    key.code == KeyCode::Char('q') && key.ctrl
}

/// `n` less one, but not below 0.
pub open spec fn one_less(n: u16) -> u16 {
    if n == 0 {
        0
    } else {
        (n - 1) as u16
    }
}

impl ScreenModel {
    /// The screen with the chat shown.
    pub open spec fn entered(self) -> ScreenModel {
        ScreenModel {
            splash: false,
            bar: StatusBarView { mode: "chat"@, ..self.bar },
            ..self
        }
    }

    /// The screen after a word from the engine that came at `now`.
    pub open spec fn after(self, update: ui::UiUpdateView, now: Timestamp) -> ScreenModel {
        ScreenModel {
            bar: self.bar.after(update),
            sidebar: self.sidebar.after(update),
            chat: self.chat.after(update, now),
            ..self
        }
    }

    /// The screen after a key, and where the key goes.
    pub open spec fn after_key(self, key: Key) -> (ScreenModel, Route) {
        if quits(key) {
            (self, Route::Quit)
        } else if self.splash {
            (self.entered(), Route::Done)
        } else if key.code == KeyCode::Right && key.shift {
            (
                ScreenModel {
                    sidebar: SidebarView {
                        focused: true,
                        selected_category: match self.sidebar.selected_category {
                            Some(i) => Some(i),
                            None => Some(0),
                        },
                        ..self.sidebar
                    },
                    ..self
                },
                Route::Done,
            )
        } else if self.sidebar.focused {
            if key.code == KeyCode::Esc || key.code == KeyCode::Left && key.shift {
                (
                    ScreenModel { sidebar: SidebarView { focused: false, ..self.sidebar }, ..self },
                    Route::Done,
                )
            } else if key.code == KeyCode::Up {
                (self, Route::MoveSelection(-1 as i32))
            } else if key.code == KeyCode::Down {
                (self, Route::MoveSelection(1))
            } else if key.code == KeyCode::Enter {
                (self, Route::ToggleExpand)
            } else {
                (self, Route::Done)
            }
        } else {
            (self, Route::Chat)
        }
    }

    /// The screen after what the user did, and where that goes. While the greeting
    /// is up, only keys count, and the first lets the chat in.
    pub open spec fn after_input(self, input: Input) -> (ScreenModel, Route) {
        match input {
            Input::Key(key) => self.after_key(key),
            Input::Resize { width, height } => (
                ScreenModel {
                    bar: StatusBarView { width, ..self.bar },
                    chat: ChatModel { width, height: one_less(height), ..self.chat },
                    ..self
                },
                Route::Done,
            ),
            Input::FocusGained => (ScreenModel { redraw: true, ..self }, Route::Done),
            Input::Paste => (
                self,
                if self.splash {
                    Route::Done
                } else {
                    Route::Chat
                },
            ),
            Input::Scroll { .. } => (
                self,
                if self.splash {
                    Route::Done
                } else {
                    Route::Chat
                },
            ),
            Input::Other => (self, Route::Done),
        }
    }
}

impl Screen {
    /// Takes a word from the engine that came at `now`, and says what it adds to
    /// the agents and the token curve of the sidebar.
    pub fn take(&mut self, update: UiUpdate, now: Timestamp) -> (r: SidebarEvent)
        requires
            update@ is ToolCall ==> old(self).chat.tool_iterations < usize::MAX,
        ensures
            final(self)@ == old(self)@.after(update@, now),
            r@ == event_of(update@),
    {
        self.bar.take(&update);
        let event = self.sidebar.take(&update);
        self.chat.apply_update(update, now);
        event
    }

    /// Lets the chat in once the greeting is over.
    pub fn greet(&mut self, over: bool)
        ensures
            final(self)@ == (if old(self).splash && over {
                old(self)@.entered()
            } else {
                old(self)@
            }),
    {
        if self.splash && over {
            self.enter();
        }
    }

    fn enter(&mut self)
        ensures
            final(self)@ == old(self)@.entered(),
    {
        self.splash = false;
        self.bar.mode = "chat".to_string();
    }

    /// Counts a second of a pause down where one has passed, and says whether the
    /// clock starts anew.
    pub fn count_down(&mut self, passed: bool) -> (r: bool)
        ensures
            r == (old(self).chat.rate_limited && passed),
            final(self)@ == (if r {
                ScreenModel { chat: old(self)@.chat.ticked(), ..old(self)@ }
            } else {
                old(self)@
            }),
    {
        if self.chat.rate_limited && passed {
            let _ = self.chat.tick_rate_limit();
            true
        } else {
            false
        }
    }

    /// Whether every cell is to be drawn anew, which is then done with.
    pub fn takes_redraw(&mut self) -> (r: bool)
        ensures
            r == old(self).redraw,
            final(self)@ == (ScreenModel { redraw: false, ..old(self)@ }),
    {
        let r = self.redraw;
        self.redraw = false;
        r
    }

    /// Makes the status bar ready for the next frame of the chat.
    pub fn next_frame(&mut self)
        ensures
            final(self)@ == (ScreenModel {
                bar: StatusBarView {
                    streaming: old(self).chat.streaming,
                    frame: if old(self).bar.frame == u64::MAX {
                        0
                    } else {
                        (old(self).bar.frame + 1) as u64
                    },
                    ..old(self)@.bar
                },
                ..old(self)@
            }),
    {
        self.bar.streaming = self.chat.streaming;
        let frame: u64 = self.bar.frame;
        self.bar.frame = frame.wrapping_add(1);
    }

    /// Takes what the user did, and says where it goes.
    pub fn route(&mut self, input: Input) -> (r: Route)
        ensures
            (final(self)@, r) == old(self)@.after_input(input),
    {
        match input {
            Input::Key(key) => self.route_key(key),
            Input::Resize { width, height } => {
                self.bar.width = width;
                let h: u16 = if height == 0 {
                    0
                } else {
                    height - 1
                };
                self.chat.resize(width, h);
                Route::Done
            },
            Input::FocusGained => {
                self.redraw = true;
                Route::Done
            },
            Input::Paste | Input::Scroll { .. } => if self.splash {
                Route::Done
            } else {
                Route::Chat
            },
            Input::Other => Route::Done,
        }
    }

    fn route_key(&mut self, key: Key) -> (r: Route)
        ensures
            (final(self)@, r) == old(self)@.after_key(key),
    {
        if key.code == KeyCode::Char('q') && key.ctrl {
            return Route::Quit;
        }
        if self.splash {
            self.enter();
            return Route::Done;
        }
        if key.code == KeyCode::Right && key.shift {
            self.sidebar.focused = true;
            if self.sidebar.selected_category.is_none() {
                self.sidebar.selected_category = Some(0);
            }
            return Route::Done;
        }
        if !self.sidebar.focused {
            return Route::Chat;
        }
        if key.code == KeyCode::Esc || (key.code == KeyCode::Left && key.shift) {
            self.sidebar.focused = false;
            Route::Done
        } else if key.code == KeyCode::Up {
            Route::MoveSelection(-1)
        } else if key.code == KeyCode::Down {
            Route::MoveSelection(1)
        } else if key.code == KeyCode::Enter {
            Route::ToggleExpand
        } else {
            Route::Done
        }
    }
}

/// A key reaches the chat only while the chat is shown and the sidebar does not
/// have the keys, and then it changes nothing on the way.
pub proof fn law_keys_reach_the_chat(v: ScreenModel, key: Key)
    ensures
        v.after_key(key).1 == Route::Chat ==> !v.splash && !v.sidebar.focused && v.after_key(key).0
            == v,
{
}

/// Whatever has the keys, the one that quits does.
pub proof fn law_quit_always_works(v: ScreenModel, key: Key)
    requires
        quits(key),
    ensures
        v.after_input(Input::Key(key)) == (v, Route::Quit),
{
}

/// Shift with an arrow gives the keys to the sidebar and takes them back again.
pub proof fn law_focus_goes_and_comes(v: ScreenModel)
    requires
        !v.splash,
    ensures
        ({
            let right = Key { code: KeyCode::Right, ctrl: false, shift: true };
            let left = Key { code: KeyCode::Left, ctrl: false, shift: true };
            &&& v.after_key(right).0.sidebar.focused
            &&& v.after_key(right).0.sidebar.selected_category is Some
            &&& !v.after_key(right).0.after_key(left).0.sidebar.focused
        }),
{
}

/// An area split from left to right into one part of at least `least` columns and
/// one of `side` columns. Where there is not room for both, the first part is
/// served first; where there is more than that, it takes the rest.
pub open spec fn columns_of(area: Area, least: u16, side: u16) -> (Area, Area) {
    let left = if least + side <= area.width {
        (area.width - side) as u16
    } else if least <= area.width {
        least
    } else {
        area.width
    };
    (
        Area { width: left, ..area },
        Area { x: (area.x + left) as u16, width: (area.width - left) as u16, ..area },
    )
}

/// `ratatui`'s `Layout` splits an area from left to right by the constraints
/// `Min(least)` and `Length(side)`. Its solver keeps both parts within the area
/// and without a gap; of the two wishes the least width weighs most, then the
/// length, then that the first part fills the area, which leaves one solution.
/// The least width is taken as a signed number.
#[verifier::external_body]
fn split_across(area: Area, least: u16, side: u16) -> (r: (Area, Area))
    requires
        area.fits(),
        least <= i16::MAX,
    ensures
        r == columns_of(area, least, side),
{
    let parts = ratatui::layout::Layout::default()
        .direction(ratatui::layout::Direction::Horizontal)
        .constraints([
            ratatui::layout::Constraint::Min(least),
            ratatui::layout::Constraint::Length(side),
        ])
        .split(ratatui::layout::Rect { x: area.x, y: area.y, width: area.width, height: area.height });
    (
        Area { x: parts[0].x, y: parts[0].y, width: parts[0].width, height: parts[0].height },
        Area { x: parts[1].x, y: parts[1].y, width: parts[1].width, height: parts[1].height },
    )
}

/// What is left of the screen under the status bar.
pub open spec fn body_of(area: Area) -> Area {
    Area {
        x: area.x,
        y: (area.y + 1) as u16,
        width: area.width,
        height: one_less(area.height),
    }
}

/// The parts of a screen whose body was split into `parts`: a screen that is too
/// narrow has no sidebar.
pub open spec fn areas_of(area: Area, min_sidebar_width: u16, parts: (Area, Area)) -> Areas {
    let status = Area { x: area.x, y: area.y, width: area.width, height: 1 };
    if area.width >= min_sidebar_width {
        Areas { status, chat: parts.0, sidebar: Some(parts.1) }
    } else {
        Areas { status, chat: body_of(area), sidebar: None }
    }
}

/// The parts of a screen whose body was split into `parts`.
pub fn place_areas(area: Area, min_sidebar_width: u16, parts: (Area, Area)) -> (r: Areas)
    requires
        area.y < u16::MAX,
    ensures
        r == areas_of(area, min_sidebar_width, parts),
{
    let status = Area { x: area.x, y: area.y, width: area.width, height: 1 };
    if area.width >= min_sidebar_width {
        Areas { status, chat: parts.0, sidebar: Some(parts.1) }
    } else {
        Areas { status, chat: body(area), sidebar: None }
    }
}

fn body(area: Area) -> (r: Area)
    requires
        area.y < u16::MAX,
    ensures
        r == body_of(area),
{
    Area {
        x: area.x,
        y: area.y + 1,
        width: area.width,
        height: if area.height == 0 {
            0
        } else {
            area.height - 1
        },
    }
}

/// The parts of a screen. The status bar is its first line; the sidebar, where
/// there is room for one, stands beside the chat and is as high as it.
pub fn areas(area: Area, min_sidebar_width: u16, sidebar_width: u16) -> (r: Areas)
    requires
        area.fits(),
        area.y < u16::MAX,
    ensures
        r == areas_of(
            area,
            min_sidebar_width,
            columns_of(body_of(area), CHAT_WIDTH, sidebar_width),
        ),
{
    let under = body(area);
    let parts = if area.width >= min_sidebar_width {
        split_across(under, CHAT_WIDTH, sidebar_width)
    } else {
        (under, under)
    };
    place_areas(area, min_sidebar_width, parts)
}

/// The chat and the sidebar lie side by side and fill the screen under the status
/// bar, and the chat has its least width wherever the screen is that wide.
pub proof fn law_columns_fill_the_body(area: Area, sidebar_width: u16)
    requires
        area.fits(),
        area.y < u16::MAX,
    ensures
        ({
            let b = body_of(area);
            let c = columns_of(b, CHAT_WIDTH, sidebar_width);
            &&& c.0.x == b.x && c.1.x == c.0.x + c.0.width
            &&& c.0.width + c.1.width == b.width
            &&& c.0.y == b.y && c.1.y == b.y && c.0.height == b.height && c.1.height == b.height
            &&& b.width >= CHAT_WIDTH ==> c.0.width >= CHAT_WIDTH
            &&& b.width >= CHAT_WIDTH + sidebar_width ==> c.1.width == sidebar_width
        }),
{
}

/// `n`, or the nearer of the bounds where it is out of them.
pub open spec fn bounded(n: int, least: int, most: int) -> int {
    if n < least {
        least
    } else if n > most {
        most
    } else {
        n
    }
}

/// How far in something of size `inner` stands to be in the middle.
pub open spec fn margin(outer: int, inner: int) -> int {
    if outer > inner {
        (outer - inner) / 2
    } else {
        0
    }
}

/// Where a dialog of the given height stands: in the middle of the area, as wide
/// as the area within the bounds of a dialog.
pub open spec fn dialog_of(area: Area, height: u16) -> Area {
    let width = bounded(area.width as int, DIALOG_MIN_WIDTH as int, DIALOG_MAX_WIDTH as int);
    Area {
        x: (area.x + margin(area.width as int, width)) as u16,
        y: (area.y + margin(area.height as int, height as int)) as u16,
        width: width as u16,
        height,
    }
}

/// Where a dialog of the given height stands.
pub fn dialog_area(area: Area, height: u16) -> (r: Area)
    requires
        area.fits(),
    ensures
        r == dialog_of(area, height),
{
    let width: u16 = if area.width < DIALOG_MIN_WIDTH {
        DIALOG_MIN_WIDTH
    } else if area.width > DIALOG_MAX_WIDTH {
        DIALOG_MAX_WIDTH
    } else {
        area.width
    };
    let left: u16 = if area.width > width {
        (area.width - width) / 2
    } else {
        0
    };
    let top: u16 = if area.height > height {
        (area.height - height) / 2
    } else {
        0
    };
    Area { x: area.x + left, y: area.y + top, width, height }
}

/// A dialog stands within the area wherever the area is large enough for it.
pub proof fn law_dialog_stands_within(area: Area, height: u16)
    requires
        area.fits(),
        area.width >= DIALOG_MIN_WIDTH,
        area.height >= height,
    ensures
        ({
            let r = dialog_of(area, height);
            &&& area.x <= r.x && r.x + r.width <= area.x + area.width
            &&& area.y <= r.y && r.y + r.height <= area.y + area.height
        }),
{
}

/// A text cut to a width, with a mark where something is missing.
pub open spec fn cut_text(s: Seq<char>, width: nat) -> Seq<char> {
    if s.len() > width {
        number::first_chars(
            s,
            if width == 0 {
                0
            } else {
                (width - 1) as nat
            },
        ) + "…"@
    } else {
        s
    }
}

/// The text of a dialog, cut to what its inside holds with a column free on each
/// side.
pub fn dialog_text(s: &str, inner_width: u16) -> (r: String)
    ensures
        r@ == cut_text(
            s@,
            if inner_width < 2 {
                0
            } else {
                (inner_width - 2) as nat
            },
        ),
{
    let room: u16 = if inner_width < 2 {
        0
    } else {
        inner_width - 2
    };
    let v = chars_of(s);
    if v.len() > room as usize {
        let kept: usize = if room == 0 {
            0
        } else {
            room as usize - 1
        };
        cat2(take_chars(s, kept).as_str(), "…")
    } else {
        s.to_string()
    }
}

/// The text of a dialog is no longer than the room for it, where there is any.
pub proof fn law_cut_text_fits(s: Seq<char>, width: nat)
    requires
        width > 0,
    ensures
        cut_text(s, width).len() <= width,
        s.len() <= width ==> cut_text(s, width) == s,
{
    reveal_strlit("…");
}

// ── More laws of the screen ─────────────────────────────────────────────────

/// In the sidebar the arrows move the selection, up by one less and down by one
/// more, the enter key opens an entry, and leaving it gives the keys back.
pub proof fn law_sidebar_keys(v: ScreenModel, key: Key)
    requires
        !quits(key),
        !v.splash,
        v.sidebar.focused,
    ensures
        key.code == KeyCode::Up ==> v.after_key(key) == (v, Route::MoveSelection(-1i32)),
        key.code == KeyCode::Down ==> v.after_key(key) == (v, Route::MoveSelection(1)),
        key.code == KeyCode::Enter ==> v.after_key(key) == (v, Route::ToggleExpand),
        key.code == KeyCode::Esc ==> !v.after_key(key).0.sidebar.focused,
        v.after_key(key).0.chat == v.chat,
        v.after_key(key).1 != Route::Chat,
{
}

/// The first key leaves the opening screen for the chat and does nothing else; what
/// is pasted or scrolled there is lost.
pub proof fn law_opening_screen(v: ScreenModel, key: Key)
    requires
        v.splash,
        !quits(key),
    ensures
        !v.after_key(key).0.splash,
        v.after_key(key).0.bar.mode == "chat"@,
        v.after_key(key).0.chat == v.chat,
        v.after_key(key).1 == Route::Done,
        v.after_input(Input::Paste) == (v, Route::Done),
        (ScreenModel { splash: false, ..v }).after_input(Input::Paste).1 == Route::Chat,
{
}

/// After a change of size the bar has the new width, and the chat has it too and one
/// line less than the screen.
pub proof fn law_resize(v: ScreenModel, width: u16, height: u16)
    ensures
        ({
            let w = v.after_input(Input::Resize { width, height }).0;
            &&& w.bar.width == width
            &&& w.chat.width == width
            &&& height > 0 ==> w.chat.height + 1 == height
            &&& height == 0 ==> w.chat.height == 0
            &&& w.chat.entries == v.chat.entries
            &&& w.sidebar == v.sidebar
        }),
        v.after_input(Input::FocusGained).0.redraw,
{
}

/// The bar shows the tool at work from its call to the end of the goal, and the
/// provider and model of the last status.
pub proof fn law_bar(
    b: StatusBarView,
    name: Seq<char>,
    input: Seq<char>,
    n: usize,
    info: ui::StatusInfoView,
)
    ensures
        b.after(ui::UiUpdateView::ToolCall { name, input }).active_tool == name,
        b.after(ui::UiUpdateView::ToolCall { name, input }).streaming,
        b.after(ui::UiUpdateView::StreamChunk(input)).streaming,
        b.after(ui::UiUpdateView::StreamChunk(input)).active_tool == b.active_tool,
        b.after(ui::UiUpdateView::GoalComplete { tool_count: n }).active_tool.len() == 0,
        !b.after(ui::UiUpdateView::GoalComplete { tool_count: n }).streaming,
        b.after(ui::UiUpdateView::StatusUpdate(info)).provider == info.provider,
        b.after(ui::UiUpdateView::StatusUpdate(info)).model == info.model,
        b.after(ui::UiUpdateView::StatusUpdate(info)).git_branch == info.git_branch,
        b.after(ui::UiUpdateView::StatusUpdate(info)).bg_count == info.bg_count,
        b.after(ui::UiUpdateView::SystemMsg(input)) == b,
{
}

/// The sidebar shows the last steps, the last plan and the last count of tokens, and
/// each count is drawn.
pub proof fn law_sidebar(s: SidebarView, steps: Seq<ui::TaskStepView>, used: usize, budget: usize)
    ensures
        s.after(ui::UiUpdateView::TaskUpdate(steps)).tasks == steps,
        s.after(ui::UiUpdateView::TaskUpdate(steps)).plan == s.plan,
        s.after(ui::UiUpdateView::PlanUpdate(steps)).plan == steps,
        s.after(ui::UiUpdateView::PlanUpdate(steps)).tasks == s.tasks,
        s.after(ui::UiUpdateView::TokenUsage { used, budget }).token_used == used,
        s.after(ui::UiUpdateView::TokenUsage { used, budget }).token_budget == budget,
        event_of(ui::UiUpdateView::TokenUsage { used, budget }) == SidebarEventView::TokenSample(
            used,
        ),
{
}

/// An update reaches each part of the screen, and each takes its own from it.
pub proof fn law_updates_reach_all(v: ScreenModel, u: ui::UiUpdateView, now: Timestamp)
    ensures
        v.after(u, now).bar == v.bar.after(u),
        v.after(u, now).sidebar == v.sidebar.after(u),
        v.after(u, now).chat == v.chat.after(u, now),
        v.after(u, now).splash == v.splash,
{
}

/// The body lies below the bar and takes up the rest of the screen; the sidebar is
/// shown exactly where there is room for it.
pub proof fn law_areas(area: Area, min_sidebar_width: u16, parts: (Area, Area))
    requires
        area.fits(),
        area.height > 0,
    ensures
        ({
            let a = areas_of(area, min_sidebar_width, parts);
            &&& a.status.height == 1 && a.status.y == area.y && a.status.width == area.width
            &&& body_of(area).y == area.y + 1
            &&& body_of(area).height + 1 == area.height
            &&& body_of(area).width == area.width
            &&& a.sidebar is Some <==> area.width >= min_sidebar_width
            &&& a.sidebar is None ==> a.chat == body_of(area)
            &&& a.sidebar is Some ==> a.chat == parts.0 && a.sidebar == Some(parts.1)
        }),
{
}

/// The program ends by one key alone, with the control key held.
pub proof fn law_only_one_key_quits(v: ScreenModel, key: Key)
    ensures
        v.after_key(key).1 == Route::Quit <==> key.code == KeyCode::Char('q') && key.ctrl,
        v.after_key(key).1 == Route::Quit ==> v.after_key(key).0 == v,
{
}

/// A dialog stands in the middle: what is free on its two sides is the same, or one
/// more on the right and below. It is as wide as its bounds allow.
pub proof fn law_dialog_is_centered(area: Area, height: u16)
    requires
        area.fits(),
        area.width >= 40,
        area.height >= height,
    ensures
        ({
            let r = dialog_of(area, height);
            let left = r.x - area.x;
            let right = area.x + area.width - (r.x + r.width);
            let above = r.y - area.y;
            let below = area.y + area.height - (r.y + r.height);
            &&& right == left || right == left + 1
            &&& below == above || below == above + 1
            &&& r.height == height
            &&& area.width <= 72 ==> r.width == area.width
            &&& area.width > 72 ==> r.width == 72
        }),
{
}

/// On a screen that is too narrow a dialog keeps its least width.
pub proof fn law_dialog_keeps_its_width(area: Area, height: u16)
    requires
        area.width < 40,
    ensures
        dialog_of(area, height).width == 40,
        dialog_of(area, height).x == area.x,
{
}

/// A subagent is followed in the sidebar from its start over its calls to its end,
/// under its id and with how it ended.
pub proof fn law_subagents_are_followed(id: Seq<char>, x: Seq<char>, ok: bool)
    ensures
        event_of(ui::UiUpdateView::SubagentStarted { id, label: x })
            == (SidebarEventView::SubagentStarted { id, label: x }),
        event_of(ui::UiUpdateView::SubagentToolCall { id, name: x })
            == (SidebarEventView::SubagentToolCall { id, name: x }),
        event_of(ui::UiUpdateView::SubagentFinished { id, ok })
            == (SidebarEventView::SubagentFinished { id, ok }),
        event_of(ui::UiUpdateView::SystemMsg(x)) is Nothing,
{
}

/// Beside the sidebar the chat keeps forty columns, where the screen has them, and
/// the two together fill it.
pub proof fn law_chat_keeps_its_columns(area: Area, side: u16)
    requires
        area.fits(),
    ensures
        ({
            let p = columns_of(area, CHAT_WIDTH, side);
            &&& area.width >= 40 ==> p.0.width >= 40
            &&& area.width >= 40 + side ==> p.1.width == side
            &&& p.0.width + p.1.width == area.width
            &&& p.1.x == p.0.x + p.0.width
        }),
{
}

} // verus!
