//! Screen definitions.

use vstd::prelude::*;

use crate::gui::canvas::{Align, Area, Canvas, DrawOp, Font};
use crate::gui::clear_display;
use crate::gui::menu::{create_main_menu, create_source_menu, Menu, MenuAction};
use crate::gui::widgets::{
    AudioSource, ClipWarning, LargeVolumeDisplay, LevelMeter, ProgressBar, SignalStatus, StatusBar,
};

verus! {

/// Screens.
#[derive(Debug, Clone, Copy, PartialEq, Eq, Structural)]
pub enum ScreenId {
    Boot,
    Home,
    MainMenu,
    SourceSelect,
    Equalizer,
    Settings,
    VolumeAdjust,
}

/// Application state shared with the GUI.
#[derive(Debug, Clone, Copy, PartialEq, Eq, Structural)]
pub struct AppState {
    pub volume: u8,
    pub muted: bool,
    pub source: AudioSource,
    pub source_locked: bool,
    pub signal_status: SignalStatus,
    pub sample_rate: u32,
    pub eq_enabled: bool,
    /// Meter bars (0 to 100).
    pub level_left: u8,
    pub level_right: u8,
    /// Held peaks (0 to 100).
    pub peak_left: u8,
    pub peak_right: u8,
    /// Clip warning active.
    pub clipping: bool,
    /// Alternates for the flashing effect.
    pub clip_flash: bool,
}

impl AppState {
    pub open spec fn initial() -> AppState {
        AppState {
            volume: 50,
            muted: false,
            source: AudioSource::NoSource,
            source_locked: false,
            signal_status: SignalStatus::NoSignal,
            sample_rate: crate::hw::pins::audio::SAMPLE_RATE,
            eq_enabled: false,
            level_left: 0,
            level_right: 0,
            peak_left: 0,
            peak_right: 0,
            clipping: false,
            clip_flash: false,
        }
    }
}

impl Default for AppState {
    fn default() -> (state: Self)
        ensures
            state == AppState::initial(),
    {
        AppState {
            volume: 50,
            muted: false,
            source: AudioSource::NoSource,
            source_locked: false,
            signal_status: SignalStatus::NoSignal,
            sample_rate: crate::hw::pins::audio::SAMPLE_RATE,
            eq_enabled: false,
            level_left: 0,
            level_right: 0,
            peak_left: 0,
            peak_right: 0,
            clipping: false,
            clip_flash: false,
        }
    }
}

/// Actions that screens can request.
#[derive(Debug, Clone, Copy, PartialEq, Eq, Structural)]
pub enum ScreenAction {
    /// Navigate to another screen.
    GoTo(ScreenId),
    /// Go back to the home screen.
    Back,
    /// Update the volume of the amplifier.
    UpdateVolume(u8),
    ToggleMute,
    ChangeSource(AudioSource),
    /// Refresh the display.
    Refresh,
    /// Restart as a USB drive.
    EnterUsbConfigMode,
}

/// A centred title.
pub open spec fn title(text: Seq<char>) -> crate::gui::canvas::Figure {
    crate::gui::canvas::Figure::Text {
        text,
        x: 64,
        y: 12,
        font: Font::Title,
        align: Align::Center,
        on: true,
    }
}

/// The volume, or the CLIP warning while it flashes.
pub open spec fn volume_area(state: AppState) -> Seq<crate::gui::canvas::Figure> {
    if state.clipping && state.clip_flash {
        crate::gui::widgets::clip_warning(43)
    } else {
        seq![LargeVolumeDisplay { volume: state.volume, muted: state.muted }.figure(48)]
    }
}

pub open spec fn meter_of(state: AppState) -> LevelMeter {
    LevelMeter {
        left_level: state.level_left,
        right_level: state.level_right,
        left_peak: state.peak_left,
        right_peak: state.peak_right,
    }
}

fn draw_volume_area(canvas: &mut Canvas, state: &AppState)
    ensures
        final(canvas)@ == old(canvas)@ + volume_area(*state),
{
    if state.clipping && state.clip_flash {
        ClipWarning::draw(canvas, 43);
    } else {
        let display = LargeVolumeDisplay::new(state.volume, state.muted);
        display.draw_at(canvas, 48);
    }
    assert(canvas@ =~= old(canvas)@ + volume_area(*state));
}

/// Volume after one step of the encoder: two percent up, to at most 100, or two
/// down.
pub open spec fn volume_step(volume: u8, direction: i8) -> u8 {
    if direction > 0 {
        if volume > 98 {
            100
        } else {
            (volume + 2) as u8
        }
    } else if volume < 2 {
        0
    } else {
        (volume - 2) as u8
    }
}

/// Home screen: levels, volume and source.
pub struct HomeScreen {
    pub show_menu_hint: bool,
}

impl HomeScreen {
    pub fn new() -> (screen: Self)
        ensures
            screen.show_menu_hint,
    {
        HomeScreen { show_menu_hint: true }
    }

    pub open spec fn figures(self, state: AppState) -> Seq<crate::gui::canvas::Figure> {
        seq![crate::gui::blank()] + StatusBar {
            source: state.source,
            sample_rate: state.sample_rate,
            signal_status: state.signal_status,
        }.figures() + meter_of(state).figures(15) + volume_area(state) + (if self.show_menu_hint {
            seq![crate::gui::canvas::plain("Press for menu"@, 64, 62, Align::Center)]
        } else {
            Seq::empty()
        })
    }

    pub fn draw(&self, canvas: &mut Canvas, state: &AppState)
        ensures
            final(canvas)@ == old(canvas)@ + self.figures(*state),
    {
        clear_display(canvas);
        let status = StatusBar::new(state.source, state.sample_rate, state.signal_status);
        status.draw(canvas);
        let meter = LevelMeter::new(
            state.level_left,
            state.level_right,
            state.peak_left,
            state.peak_right,
        );
        meter.draw(canvas, 15);
        draw_volume_area(canvas, state);
        if self.show_menu_hint {
            canvas.text("Press for menu", 64, 62, Align::Center);
        }
        assert(canvas@ =~= old(canvas)@ + self.figures(*state));
    }

    /// Redraws only the inside of the meter bars.
    pub fn draw_meters(&self, canvas: &mut Canvas, state: &AppState)
        ensures
            final(canvas)@ == old(canvas)@ + meters_redrawn(*state),
    {
        canvas.push(DrawOp::Clear { area: Area { x: 11, y: 16, width: 114, height: 4 } });
        canvas.push(DrawOp::Clear { area: Area { x: 11, y: 23, width: 114, height: 4 } });
        let meter = LevelMeter::new(
            state.level_left,
            state.level_right,
            state.peak_left,
            state.peak_right,
        );
        meter.draw_fills(canvas, 15);
        assert(canvas@ =~= old(canvas)@ + meters_redrawn(*state));
    }

    /// Redraws only the area of the volume and the CLIP warning.
    pub fn draw_clip_region(&self, canvas: &mut Canvas, state: &AppState)
        ensures
            final(canvas)@ == old(canvas)@ + volume_redrawn(*state),
    {
        canvas.push(DrawOp::Clear { area: Area { x: 0, y: 30, width: 128, height: 26 } });
        draw_volume_area(canvas, state);
        assert(canvas@ =~= old(canvas)@ + volume_redrawn(*state));
    }

    /// Adjusts the volume directly.
    pub fn on_encoder_rotate(&mut self, direction: i8, state: &mut AppState) -> (action: Option<
        ScreenAction,
    >)
        ensures
            *final(self) == *old(self),
            *final(state) == (AppState {
                volume: volume_step(old(state).volume, direction),
                ..*old(state)
            }),
            action == if final(state).volume != old(state).volume {
                Some(ScreenAction::UpdateVolume(final(state).volume))
            } else {
                None
            },
    {
        let new_vol: u8 = if direction > 0 {
            if state.volume > 98 {
                100
            } else {
                state.volume + 2
            }
        } else {
            state.volume.saturating_sub(2)
        };
        if new_vol != state.volume {
            state.volume = new_vol;
            Some(ScreenAction::UpdateVolume(new_vol))
        } else {
            None
        }
    }

    pub fn on_encoder_press(&mut self, state: &mut AppState) -> (action: Option<ScreenAction>)
        ensures
            *final(self) == *old(self),
            *final(state) == *old(state),
            action == Some(ScreenAction::GoTo(ScreenId::MainMenu)),
    {
        Some(ScreenAction::GoTo(ScreenId::MainMenu))
    }

    pub fn on_encoder_long_press(&mut self, state: &mut AppState) -> (action: Option<ScreenAction>)
        ensures
            *final(self) == *old(self),
            *final(state) == *old(state),
            action == Some(ScreenAction::ToggleMute),
    {
        Some(ScreenAction::ToggleMute)
    }
}

/// What redraws the meter bars.
pub open spec fn meters_redrawn(state: AppState) -> Seq<crate::gui::canvas::Figure> {
    seq![
        crate::gui::canvas::Figure::Clear { area: Area { x: 11, y: 16, width: 114, height: 4 } },
        crate::gui::canvas::Figure::Clear { area: Area { x: 11, y: 23, width: 114, height: 4 } },
    ] + meter_of(state).fills(15)
}

/// What redraws the volume.
pub open spec fn volume_redrawn(state: AppState) -> Seq<crate::gui::canvas::Figure> {
    seq![
        crate::gui::canvas::Figure::Clear { area: Area { x: 0, y: 30, width: 128, height: 26 } },
    ] + volume_area(state)
}

/// A menu under a title.
pub open spec fn menu_figures(text: Seq<char>, menu: crate::gui::menu::MenuModel) -> Seq<
    crate::gui::canvas::Figure,
> {
    seq![crate::gui::blank(), title(text)] + menu.figures(16)
}

/// What a press does in the main menu.
pub open spec fn main_menu_press(action: MenuAction) -> Option<ScreenAction> {
    match action {
        MenuAction::AdjustVolume => Some(ScreenAction::GoTo(ScreenId::Home)),
        MenuAction::GoToScreen(screen) => Some(ScreenAction::GoTo(screen)),
        MenuAction::ToggleMute => Some(ScreenAction::ToggleMute),
        MenuAction::Back => Some(ScreenAction::Back),
        _ => None,
    }
}

/// Main menu screen.
pub struct MainMenuScreen {
    pub menu: Menu,
}

impl MainMenuScreen {
    pub fn new() -> (screen: Self)
        ensures
            screen.menu@.wf(),
            screen.menu@ == (crate::gui::menu::MenuModel {
                items: crate::gui::menu::main_menu_items(),
                ..crate::gui::menu::MenuModel::empty("Menu"@)
            }),
            screen.menu.heading() == "Menu"@,
    {
        MainMenuScreen { menu: create_main_menu() }
    }

    pub fn draw(&self, canvas: &mut Canvas, state: &AppState)
        requires
            self.menu@.wf(),
        ensures
            final(canvas)@ == old(canvas)@ + menu_figures("MENU"@, self.menu@),
    {
        clear_display(canvas);
        canvas.text_in("MENU", 64, 12, Font::Title, Align::Center, true);
        self.menu.draw(canvas, 16);
        assert(canvas@ =~= old(canvas)@ + menu_figures("MENU"@, self.menu@));
    }

    pub fn on_encoder_rotate(&mut self, direction: i8, state: &mut AppState) -> (action: Option<
        ScreenAction,
    >)
        requires
            old(self).menu@.wf(),
        ensures
            final(self).menu@.wf(),
            final(self).menu@ == if direction > 0 {
                old(self).menu@.next()
            } else {
                old(self).menu@.previous()
            },
            final(self).menu.heading() == old(self).menu.heading(),
            *final(state) == *old(state),
            action == Some(ScreenAction::Refresh),
    {
        if direction > 0 {
            self.menu.select_next();
        } else {
            self.menu.select_previous();
        }
        Some(ScreenAction::Refresh)
    }

    pub fn on_encoder_press(&mut self, state: &mut AppState) -> (action: Option<ScreenAction>)
        requires
            old(self).menu@.wf(),
        ensures
            *final(self) == *old(self),
            *final(state) == *old(state),
            action == main_menu_press(old(self).menu@.action()),
    {
        match self.menu.selected_action() {
            MenuAction::AdjustVolume => Some(ScreenAction::GoTo(ScreenId::Home)),
            MenuAction::GoToScreen(screen) => Some(ScreenAction::GoTo(screen)),
            MenuAction::ToggleMute => Some(ScreenAction::ToggleMute),
            MenuAction::Back => Some(ScreenAction::Back),
            _ => None,
        }
    }

    pub fn on_encoder_long_press(&mut self, state: &mut AppState) -> (action: Option<ScreenAction>)
        ensures
            *final(self) == *old(self),
            *final(state) == *old(state),
            action == Some(ScreenAction::GoTo(ScreenId::Home)),
    {
        Some(ScreenAction::GoTo(ScreenId::Home))
    }
}

/// Source selection screen.
pub struct SourceSelectScreen {
    pub menu: Menu,
}

/// The application state after a press in the source menu.
pub open spec fn source_menu_state(state: AppState, action: MenuAction) -> AppState {
    match action {
        MenuAction::SelectSource(source) => AppState {
            source,
            source_locked: source != AudioSource::NoSource,
            ..state
        },
        _ => state,
    }
}

/// What a press does in the source menu.
pub open spec fn source_menu_press(action: MenuAction) -> Option<ScreenAction> {
    match action {
        MenuAction::SelectSource(source) => Some(ScreenAction::ChangeSource(source)),
        MenuAction::Back => Some(ScreenAction::GoTo(ScreenId::MainMenu)),
        _ => None,
    }
}

impl SourceSelectScreen {
    pub fn new() -> (screen: Self)
        ensures
            screen.menu@.wf(),
            screen.menu@ == (crate::gui::menu::MenuModel {
                items: crate::gui::menu::source_menu_items(),
                ..crate::gui::menu::MenuModel::empty("Source"@)
            }),
            screen.menu.heading() == "Source"@,
    {
        SourceSelectScreen { menu: create_source_menu() }
    }

    pub fn draw(&self, canvas: &mut Canvas, state: &AppState)
        requires
            self.menu@.wf(),
        ensures
            final(canvas)@ == old(canvas)@ + menu_figures("SOURCE"@, self.menu@),
    {
        clear_display(canvas);
        canvas.text_in("SOURCE", 64, 12, Font::Title, Align::Center, true);
        self.menu.draw(canvas, 16);
        assert(canvas@ =~= old(canvas)@ + menu_figures("SOURCE"@, self.menu@));
    }

    pub fn on_encoder_rotate(&mut self, direction: i8, state: &mut AppState) -> (action: Option<
        ScreenAction,
    >)
        requires
            old(self).menu@.wf(),
        ensures
            final(self).menu@.wf(),
            final(self).menu@ == if direction > 0 {
                old(self).menu@.next()
            } else {
                old(self).menu@.previous()
            },
            final(self).menu.heading() == old(self).menu.heading(),
            *final(state) == *old(state),
            action == Some(ScreenAction::Refresh),
    {
        if direction > 0 {
            self.menu.select_next();
        } else {
            self.menu.select_previous();
        }
        Some(ScreenAction::Refresh)
    }

    pub fn on_encoder_press(&mut self, state: &mut AppState) -> (action: Option<ScreenAction>)
        requires
            old(self).menu@.wf(),
        ensures
            *final(self) == *old(self),
            *final(state) == source_menu_state(*old(state), old(self).menu@.action()),
            action == source_menu_press(old(self).menu@.action()),
    {
        match self.menu.selected_action() {
            MenuAction::SelectSource(source) => {
                state.source = source;
                state.source_locked = source != AudioSource::NoSource;
                Some(ScreenAction::ChangeSource(source))
            },
            MenuAction::Back => Some(ScreenAction::GoTo(ScreenId::MainMenu)),
            _ => None,
        }
    }

    pub fn on_encoder_long_press(&mut self, state: &mut AppState) -> (action: Option<ScreenAction>)
        ensures
            *final(self) == *old(self),
            *final(state) == *old(state),
            action == Some(ScreenAction::GoTo(ScreenId::Home)),
    {
        Some(ScreenAction::GoTo(ScreenId::Home))
    }
}

/// Boot screen with progress bar.
pub struct BootScreen {
    pub progress: u8,
    pub status: &'static str,
}

impl BootScreen {
    pub fn new() -> (screen: Self)
        ensures
            screen.progress == 0,
            screen.status@ == "Starting..."@,
    {
        BootScreen { progress: 0, status: "Starting..." }
    }

    pub fn set_progress(&mut self, progress: u8, status: &'static str)
        ensures
            final(self).progress == progress,
            final(self).status@ == status@,
    {
        self.progress = progress;
        self.status = status;
    }

    pub open spec fn figures(self) -> Seq<crate::gui::canvas::Figure> {
        seq![
            crate::gui::blank(),
            title("OtterAmp"@),
            crate::gui::canvas::plain("Active Speaker System"@, 64, 24, Align::Center),
            crate::gui::canvas::plain("by Faited & Lucia"@, 64, 34, Align::Center),
        ] + crate::gui::widgets::progress_bar(self.progress, self.status@, 48)
    }

    pub fn draw(&self, canvas: &mut Canvas, state: &AppState)
        ensures
            final(canvas)@ == old(canvas)@ + self.figures(),
    {
        clear_display(canvas);
        canvas.text_in("OtterAmp", 64, 12, Font::Title, Align::Center, true);
        canvas.text("Active Speaker System", 64, 24, Align::Center);
        canvas.text("by Faited & Lucia", 64, 34, Align::Center);
        let bar = ProgressBar::new(self.progress, self.status);
        bar.draw(canvas, 48);
        assert(canvas@ =~= old(canvas)@ + self.figures());
    }
}

/// A screen that has nothing to offer yet.
pub open spec fn placeholder(text: Seq<char>) -> Seq<crate::gui::canvas::Figure> {
    seq![
        crate::gui::blank(),
        title(text),
        crate::gui::canvas::plain("Coming soon..."@, 64, 36, Align::Center),
        crate::gui::canvas::plain("Press to go back"@, 64, 56, Align::Center),
    ]
}

fn draw_placeholder(canvas: &mut Canvas, text: &'static str)
    ensures
        final(canvas)@ == old(canvas)@ + placeholder(text@),
{
    clear_display(canvas);
    canvas.text_in(text, 64, 12, Font::Title, Align::Center, true);
    canvas.text("Coming soon...", 64, 36, Align::Center);
    canvas.text("Press to go back", 64, 56, Align::Center);
    assert(canvas@ =~= old(canvas)@ + placeholder(text@));
}

/// Equalizer screen.
pub struct EqualizerScreen;

impl EqualizerScreen {
    pub fn new() -> (screen: Self)
        ensures
            screen == EqualizerScreen,
    {
        EqualizerScreen
    }

    pub fn draw(&self, canvas: &mut Canvas, state: &AppState)
        ensures
            final(canvas)@ == old(canvas)@ + placeholder("EQUALIZER"@),
    {
        draw_placeholder(canvas, "EQUALIZER")
    }

    pub fn on_encoder_rotate(&mut self, direction: i8, state: &mut AppState) -> (action: Option<
        ScreenAction,
    >)
        ensures
            *final(state) == *old(state),
            action is None,
    {
        None
    }

    pub fn on_encoder_press(&mut self, state: &mut AppState) -> (action: Option<ScreenAction>)
        ensures
            *final(state) == *old(state),
            action == Some(ScreenAction::GoTo(ScreenId::MainMenu)),
    {
        Some(ScreenAction::GoTo(ScreenId::MainMenu))
    }

    pub fn on_encoder_long_press(&mut self, state: &mut AppState) -> (action: Option<ScreenAction>)
        ensures
            *final(state) == *old(state),
            action == Some(ScreenAction::GoTo(ScreenId::Home)),
    {
        Some(ScreenAction::GoTo(ScreenId::Home))
    }
}

/// Settings screen.
pub struct SettingsScreen;

impl SettingsScreen {
    pub fn new() -> (screen: Self)
        ensures
            screen == SettingsScreen,
    {
        SettingsScreen
    }

    pub fn draw(&self, canvas: &mut Canvas, state: &AppState)
        ensures
            final(canvas)@ == old(canvas)@ + placeholder("SETTINGS"@),
    {
        draw_placeholder(canvas, "SETTINGS")
    }

    pub fn on_encoder_rotate(&mut self, direction: i8, state: &mut AppState) -> (action: Option<
        ScreenAction,
    >)
        ensures
            *final(state) == *old(state),
            action is None,
    {
        None
    }

    pub fn on_encoder_press(&mut self, state: &mut AppState) -> (action: Option<ScreenAction>)
        ensures
            *final(state) == *old(state),
            action == Some(ScreenAction::GoTo(ScreenId::MainMenu)),
    {
        Some(ScreenAction::GoTo(ScreenId::MainMenu))
    }

    pub fn on_encoder_long_press(&mut self, state: &mut AppState) -> (action: Option<ScreenAction>)
        ensures
            *final(state) == *old(state),
            action == Some(ScreenAction::GoTo(ScreenId::Home)),
    {
        Some(ScreenAction::GoTo(ScreenId::Home))
    }
}

/// Turning the encoder on the home screen keeps the volume within 0 and 100.
pub proof fn law_volume_stays_in_range(volume: u8, direction: i8)
    requires
        volume <= 100,
    ensures
        volume_step(volume, direction) <= 100,
        direction > 0 ==> volume_step(volume, direction) >= volume,
        direction <= 0 ==> volume_step(volume, direction) <= volume,
{
}

proof fn lemma_decimal_len(n: nat)
    requires
        n < 10_000_000,
    ensures
        crate::gui::canvas::decimal_chars(n).len() <= 7,
{
    reveal_with_fuel(crate::gui::canvas::decimal_chars, 8);
}

/// The volume can be drawn, by itself as on the home screen.
pub proof fn lemma_volume_fits(state: AppState)
    ensures
        crate::gui::render::all_fit(volume_area(state)),
        crate::gui::render::all_fit(volume_redrawn(state)),
{
    reveal_strlit("MUTE");
    reveal_strlit("CLIP");
    lemma_decimal_len(state.volume as nat);
}

/// The meters can be drawn, by themselves as on the home screen.
pub proof fn lemma_meters_fit(state: AppState)
    ensures
        crate::gui::render::all_fit(meter_of(state).figures(15)),
        crate::gui::render::all_fit(meters_redrawn(state)),
{
    reveal_strlit("L");
    reveal_strlit("R");
}

/// The home screen can be drawn.
pub proof fn lemma_home_fits(screen: HomeScreen, state: AppState)
    ensures
        crate::gui::render::all_fit(screen.figures(state)),
{
    reveal_strlit("LINE");
    reveal_strlit("S/PDIF");
    reveal_strlit("USB");
    reveal_strlit("---");
    reveal_strlit("44.1kHz");
    reveal_strlit("NO SIG");
    reveal_strlit("SIG OK");
    reveal_strlit("CLIP");
    reveal_strlit("Press for menu");
    lemma_decimal_len((state.sample_rate / 1000) as nat);
    lemma_volume_fits(state);
    lemma_meters_fit(state);
}

/// The placeholder screens can be drawn.
pub proof fn lemma_placeholders_fit()
    ensures
        crate::gui::render::all_fit(placeholder("EQUALIZER"@)),
        crate::gui::render::all_fit(placeholder("SETTINGS"@)),
{
    reveal_strlit("EQUALIZER");
    reveal_strlit("SETTINGS");
    reveal_strlit("Coming soon...");
    reveal_strlit("Press to go back");
}

/// Menus with short labels can be drawn under a short title.
pub proof fn lemma_menu_fits(text: Seq<char>, menu: crate::gui::menu::MenuModel)
    requires
        menu.wf(),
        text.len() <= crate::gui::render::MAX_TEXT,
        forall|i: int|
            0 <= i < menu.items.len() ==> (#[trigger] menu.items[i]).label@.len()
                <= crate::gui::render::MAX_TEXT,
    ensures
        crate::gui::render::all_fit(menu_figures(text, menu)),
{
    reveal_strlit("^");
    reveal_strlit("v");
    lemma_rows_fit(menu, menu.visible_end());
}

proof fn lemma_rows_fit(menu: crate::gui::menu::MenuModel, end: int)
    requires
        menu.wf(),
        end <= menu.visible_end(),
        forall|i: int|
            0 <= i < menu.items.len() ==> (#[trigger] menu.items[i]).label@.len()
                <= crate::gui::render::MAX_TEXT,
    ensures
        crate::gui::render::all_fit(menu.rows(end, 16)),
    decreases end,
{
    if end > menu.scroll && end > 0 {
        lemma_rows_fit(menu, end - 1);
    }
}

/// The two menus can be drawn.
pub proof fn lemma_menus_fit(
    main_menu: crate::gui::menu::MenuModel,
    source_menu: crate::gui::menu::MenuModel,
)
    requires
        main_menu.wf(),
        main_menu.items == crate::gui::menu::main_menu_items(),
        source_menu.wf(),
        source_menu.items == crate::gui::menu::source_menu_items(),
    ensures
        crate::gui::render::all_fit(menu_figures("MENU"@, main_menu)),
        crate::gui::render::all_fit(menu_figures("SOURCE"@, source_menu)),
{
    reveal_strlit("MENU");
    reveal_strlit("SOURCE");
    reveal_strlit("Volume");
    reveal_strlit("Source");
    reveal_strlit("EQ");
    reveal_strlit("Settings");
    reveal_strlit("Auto");
    reveal_strlit("Line In");
    reveal_strlit("S/PDIF");
    reveal_strlit("USB Audio");
    reveal_strlit("< Back");
    lemma_menu_fits("MENU"@, main_menu);
    lemma_menu_fits("SOURCE"@, source_menu);
}

/// A step is two percent, less only to stop at 0 and 100; a step down undoes a
/// step up wherever neither is cut short.
pub proof fn law_volume_steps(volume: u8, up: i8, down: i8)
    requires
        up > 0,
        down <= 0,
    ensures
        volume <= 98 ==> volume_step(volume, up) == volume + 2,
        volume >= 99 ==> volume_step(volume, up) == 100,
        volume >= 2 ==> volume_step(volume, down) == volume - 2,
        volume <= 1 ==> volume_step(volume, down) == 0,
        volume <= 98 ==> volume_step(volume_step(volume, up), down) == volume,
        2 <= volume <= 100 ==> volume_step(volume_step(volume, down), up) == volume,
{
}

/// What a press on each item of the main menu leads to.
pub proof fn law_main_menu_leads(m: crate::gui::menu::MenuModel)
    requires
        m.wf(),
        m.items == crate::gui::menu::main_menu_items(),
    ensures
        main_menu_press(m.action()) is Some && (main_menu_press(m.action())->0 matches
            ScreenAction::GoTo(screen) && screen == if m.selected == 0 {
            ScreenId::Home
        } else if m.selected == 1 {
            ScreenId::SourceSelect
        } else if m.selected == 2 {
            ScreenId::Equalizer
        } else {
            ScreenId::Settings
        }),
{
    crate::gui::menu::law_main_menu(m.selected);
}

/// What a press in a menu can ask for.
pub proof fn law_menu_presses(action: MenuAction)
    ensures
        action == MenuAction::ToggleMute ==> main_menu_press(action) == Some(
            ScreenAction::ToggleMute,
        ),
        action == MenuAction::Back ==> main_menu_press(action) == Some(ScreenAction::Back),
        action matches MenuAction::GoToScreen(screen) ==> main_menu_press(action) == Some(
            ScreenAction::GoTo(screen),
        ),
        action == MenuAction::NoAction ==> main_menu_press(action) is None && source_menu_press(
            action,
        ) is None,
        action is SelectSource ==> main_menu_press(action) is None,
        source_menu_press(action) is Some <==> action is SelectSource || action == MenuAction::Back,
{
}

/// A press on an item of the source menu changes to its source and locks it; the
/// first one leaves the choice open, the last one goes back and changes nothing.
pub proof fn law_source_menu_chooses(m: crate::gui::menu::MenuModel, state: AppState)
    requires
        m.wf(),
        m.items == crate::gui::menu::source_menu_items(),
    ensures
        ({
            let after = source_menu_state(state, m.action());
            let asked = source_menu_press(m.action());
            let source = if m.selected == 1 {
                AudioSource::LineIn
            } else if m.selected == 2 {
                AudioSource::Spdif
            } else if m.selected == 3 {
                AudioSource::Usb
            } else {
                AudioSource::NoSource
            };
            &&& m.selected < 4 ==> asked == Some(ScreenAction::ChangeSource(source))
            &&& m.selected < 4 ==> after.source == source
            &&& m.selected < 4 ==> (after.source_locked <==> m.selected > 0)
            &&& m.selected == 4 ==> asked == Some(ScreenAction::GoTo(ScreenId::MainMenu)) && after
                == state
            &&& after == (AppState {
                source: after.source,
                source_locked: after.source_locked,
                ..state
            })
        }),
{
    crate::gui::menu::law_source_menu(m.selected);
}

/// The warning takes the place of the volume only while it is due and its flash
/// is on.
pub proof fn law_volume_area(state: AppState)
    ensures
        state.clipping && state.clip_flash <==> volume_area(state).len() == 2,
        state.clipping && state.clip_flash ==> volume_area(state)
            == crate::gui::widgets::clip_warning(43),
        !(state.clipping && state.clip_flash) ==> volume_area(state).len() == 1
            && crate::gui::widgets::says(
            volume_area(state)[0],
            if state.muted {
                "MUTE"@
            } else {
                crate::gui::widgets::percent(state.volume)
            },
            64,
            48,
        ),
{
}

/// The meters show the levels of their own channels.
pub proof fn law_meters_of_state(state: AppState)
    ensures
        meter_of(state).left_level == state.level_left,
        meter_of(state).right_level == state.level_right,
        meter_of(state).left_peak == state.peak_left,
        meter_of(state).right_peak == state.peak_right,
{
}

/// The home screen starts from a dark display with the status bar on top, and
/// ends with the hint, if it is to be shown.
pub proof fn law_home_screen(screen: HomeScreen, state: AppState)
    ensures
        ({
            let f = screen.figures(state);
            let rest = meter_of(state).figures(15) + volume_area(state);
            &&& f[0] matches crate::gui::canvas::Figure::Fill { area, on } && !on && area.x == 0
                && area.y == 0 && area.width == 128 && area.height == 64
            &&& crate::gui::widgets::says(f[1], state.source.brief_name(), 2, 10)
            &&& crate::gui::widgets::says(
                f[2],
                crate::gui::widgets::rate_label(state.sample_rate),
                64,
                10,
            )
            &&& crate::gui::widgets::says(f[3], state.signal_status.label(), 126, 10)
            &&& f.subrange(5, 5 + rest.len() as int) == rest
            &&& f.len() == 5 + rest.len() + (if screen.show_menu_hint {
                1int
            } else {
                0
            })
            &&& screen.show_menu_hint ==> crate::gui::widgets::says(
                f.last(),
                "Press for menu"@,
                64,
                62,
            )
        }),
{
    let f = screen.figures(state);
    let rest = meter_of(state).figures(15) + volume_area(state);
    assert(f.subrange(5, 5 + rest.len() as int) =~= rest);
}

/// Redrawing clears the inside of each bar of the home screen, four rows below the
/// top of its frame, before it is filled.
pub proof fn law_meters_cleared(state: AppState)
    ensures
        ({
            let f = meters_redrawn(state);
            &&& f[0] matches crate::gui::canvas::Figure::Clear { area } && area.x == 11 && area.y
                == 16 && area.width == 114 && area.height == 4
            &&& f[1] matches crate::gui::canvas::Figure::Clear { area } && area.x == 11 && area.y
                == 23 && area.width == 114 && area.height == 4
            &&& f.skip(2) == meter_of(state).fills(15)
            &&& volume_redrawn(state)[0] matches crate::gui::canvas::Figure::Clear { area }
                && area.x == 0 && area.y == 30 && area.width == 128 && area.height == 26
            &&& volume_redrawn(state).skip(1) == volume_area(state)
        }),
{
    assert(meters_redrawn(state).skip(2) =~= meter_of(state).fills(15));
    assert(volume_redrawn(state).skip(1) =~= volume_area(state));
}

/// A menu is drawn on a dark display, below its title.
pub proof fn law_menu_screen(text: Seq<char>, menu: crate::gui::menu::MenuModel)
    ensures
        menu_figures(text, menu)[0] == crate::gui::blank(),
        crate::gui::widgets::says(menu_figures(text, menu)[1], text, 64, 12),
        menu_figures(text, menu).skip(2) == menu.figures(16),
{
    assert(menu_figures(text, menu).skip(2) =~= menu.figures(16));
}

/// The boot screen shows name, credits and, below them, how far it got.
pub proof fn law_boot_screen(screen: BootScreen)
    ensures
        ({
            let f = screen.figures();
            &&& f[0] == crate::gui::blank()
            &&& crate::gui::widgets::says(f[1], "OtterAmp"@, 64, 12)
            &&& crate::gui::widgets::says(f[2], "Active Speaker System"@, 64, 24)
            &&& crate::gui::widgets::says(f[3], "by Faited & Lucia"@, 64, 34)
            &&& f.skip(4) == crate::gui::widgets::progress_bar(screen.progress, screen.status@, 48)
        }),
{
    assert(screen.figures().skip(4) =~= crate::gui::widgets::progress_bar(
        screen.progress,
        screen.status@,
        48,
    ));
}

/// A placeholder shows its title and how to leave it.
pub proof fn law_placeholder(text: Seq<char>)
    ensures
        placeholder(text).len() == 4,
        placeholder(text)[0] == crate::gui::blank(),
        crate::gui::widgets::says(placeholder(text)[1], text, 64, 12),
        crate::gui::widgets::says(placeholder(text)[2], "Coming soon..."@, 64, 36),
        crate::gui::widgets::says(placeholder(text)[3], "Press to go back"@, 64, 56),
{
}

/// The application starts at half volume, without a source or a signal.
pub proof fn law_initial_state()
    ensures
        ({
            let s = AppState::initial();
            &&& s.volume == 50 && !s.muted
            &&& s.source == AudioSource::NoSource && !s.source_locked
            &&& s.signal_status == SignalStatus::NoSignal
            &&& s.sample_rate == 96000
            &&& s.level_left == 0 && s.level_right == 0 && s.peak_left == 0 && s.peak_right == 0
            &&& !s.clipping && !s.clip_flash && !s.eq_enabled
        }),
{
}

/// Turning on the home screen changes the volume by two percent and tells the new
/// one; it changes nothing else.
pub proof fn law_home_turns(
    screen: &mut HomeScreen,
    direction: i8,
    state: &mut AppState,
    action: Option<ScreenAction>,
)
    requires
        old(state).volume <= 100,
        call_ensures(HomeScreen::on_encoder_rotate, (screen, direction, state), action),
    ensures
        direction > 0 && old(state).volume <= 98 ==> final(state).volume == old(state).volume + 2,
        direction > 0 && old(state).volume > 98 ==> final(state).volume == 100,
        direction <= 0 && old(state).volume >= 2 ==> final(state).volume == old(state).volume - 2,
        direction <= 0 && old(state).volume < 2 ==> final(state).volume == 0,
        action is Some <==> final(state).volume != old(state).volume,
        action is Some ==> action->0 == ScreenAction::UpdateVolume(final(state).volume),
        *final(state) == (AppState { volume: final(state).volume, ..*old(state) }),
{
}

/// Presses on the home screen: short ones open the menu, long ones toggle mute.
pub proof fn law_home_presses(
    a: &mut HomeScreen,
    s: &mut AppState,
    short: Option<ScreenAction>,
    b: &mut HomeScreen,
    t: &mut AppState,
    long: Option<ScreenAction>,
)
    requires
        call_ensures(HomeScreen::on_encoder_press, (a, s), short),
        call_ensures(HomeScreen::on_encoder_long_press, (b, t), long),
    ensures
        short == Some(ScreenAction::GoTo(ScreenId::MainMenu)),
        long == Some(ScreenAction::ToggleMute),
        *final(s) == *old(s) && *final(t) == *old(t),
{
}

/// Presses in the menus: on an item as it says, and long ones lead home.
pub proof fn law_menu_screens(
    m: &mut MainMenuScreen,
    a: &mut AppState,
    pressed: Option<ScreenAction>,
    s: &mut SourceSelectScreen,
    b: &mut AppState,
    chosen: Option<ScreenAction>,
    n: &mut MainMenuScreen,
    c: &mut AppState,
    direction: i8,
    turned: Option<ScreenAction>,
)
    requires
        old(m).menu@.wf(),
        old(m).menu@.items == crate::gui::menu::main_menu_items(),
        old(s).menu@.wf(),
        old(s).menu@.items == crate::gui::menu::source_menu_items(),
        old(n).menu@.wf(),
        call_ensures(MainMenuScreen::on_encoder_press, (m, a), pressed),
        call_ensures(SourceSelectScreen::on_encoder_press, (s, b), chosen),
        call_ensures(MainMenuScreen::on_encoder_rotate, (n, direction, c), turned),
    ensures
        pressed is Some && (pressed->0 matches ScreenAction::GoTo(screen) && screen == if old(
            m).menu@.selected == 0 {
            ScreenId::Home
        } else if old(m).menu@.selected == 1 {
            ScreenId::SourceSelect
        } else if old(m).menu@.selected == 2 {
            ScreenId::Equalizer
        } else {
            ScreenId::Settings
        }),
        *final(a) == *old(a),
        old(s).menu@.selected == 4 ==> chosen == Some(ScreenAction::GoTo(ScreenId::MainMenu))
            && *final(b) == *old(b),
        old(s).menu@.selected < 4 ==> chosen == Some(ScreenAction::ChangeSource(final(b).source)),
        old(s).menu@.selected == 0 ==> final(b).source == AudioSource::NoSource && !final(
            b).source_locked,
        old(s).menu@.selected == 1 ==> final(b).source == AudioSource::LineIn && final(
            b).source_locked,
        old(s).menu@.selected == 2 ==> final(b).source == AudioSource::Spdif && final(
            b).source_locked,
        old(s).menu@.selected == 3 ==> final(b).source == AudioSource::Usb && final(
            b).source_locked,
        turned == Some(ScreenAction::Refresh),
        direction > 0 && old(n).menu@.selected + 1 < old(n).menu@.items.len() ==> final(
            n).menu@.selected == old(n).menu@.selected + 1,
        direction <= 0 && old(n).menu@.selected > 0 ==> final(n).menu@.selected == old(
            n).menu@.selected - 1,
{
    law_main_menu_leads(old(m).menu@);
    law_source_menu_chooses(old(s).menu@, *old(b));
    crate::gui::menu::law_steps(old(n).menu@);
}

/// The home screen draws itself whole, or its meters or its volume alone.
pub proof fn law_home_draws(
    screen: HomeScreen,
    state: AppState,
    whole: &mut Canvas,
    meters: &mut Canvas,
    volume: &mut Canvas,
)
    requires
        call_ensures(HomeScreen::draw, (&screen, whole, &state), ()),
        call_ensures(HomeScreen::draw_meters, (&screen, meters, &state), ()),
        call_ensures(HomeScreen::draw_clip_region, (&screen, volume, &state), ()),
    ensures
        final(whole)@ == old(whole)@ + screen.figures(state),
        final(meters)@ == old(meters)@ + meters_redrawn(state),
        final(volume)@ == old(volume)@ + volume_redrawn(state),
{
}

} // verus!
