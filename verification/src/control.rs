//! The main loop: source arbitration, user input, level metering, display
//! refresh and saving of settings.
//!
//! Times are in microseconds.

use vstd::prelude::*;

use crate::audio::output::{SOURCE_LINEIN, SOURCE_SPDIF, SOURCE_USB};
use crate::drivers::encoder::EncoderEvent;
use crate::drivers::settings::PersistedSettings;
use crate::gui::canvas::Canvas;
use crate::gui::display::Sh1106;
use crate::gui::render::draw_canvas;
use crate::gui::screens::{
    AppState, EqualizerScreen, HomeScreen, MainMenuScreen, ScreenAction, ScreenId, SettingsScreen,
    SourceSelectScreen,
};
use crate::gui::widgets::{AudioSource, SignalStatus};
use crate::hw::pins::audio::{SAMPLE_RATE, USB_SAMPLE_RATE};

verus! {

/// Value of the scratch register that asks for a restart as a USB drive.
pub const CONFIG_MODE_MAGIC: u32 = 0x0CF6_70DE;

/// Peaks above this level, 99 % of full scale, count as clipping.
pub const CLIP_LEVEL: u32 = 2_126_008_810;

/// Settings are saved this long after their last change.
pub const SAVE_DELAY_US: u64 = 2_000_000;

/// Passes of the main loop between two looks at the levels.
pub const METER_INTERVAL: u8 = 30;

/// Looks at the levels between two steps of the decay of held peaks.
pub const DECAY_INTERVAL: u8 = 2;

/// Looks at the levels for which a clip warning is held.
pub const CLIP_HOLD: u8 = 33;

/// Looks at the levels between two flashes of the clip warning.
pub const FLASH_INTERVAL: u8 = 6;

/// State update messages.
#[derive(Debug, Clone, Copy, PartialEq, Eq, Structural)]
pub enum AppStateUpdate {
    VolumeChanged(u8),
    MuteToggled(bool),
    SourceChanged(AudioSource),
    SignalDetected(bool),
    SampleRateChanged(u32),
    EncoderPress,
    EncoderLongPress,
    EncoderRotate(i8),
}

/// What an encoder event is reported as. A press is told on release, so that a
/// long press is not taken for a short one first.
pub open spec fn reported(event: EncoderEvent) -> Option<AppStateUpdate> {
    match event {
        EncoderEvent::Increment => Some(AppStateUpdate::EncoderRotate(1)),
        EncoderEvent::Decrement => Some(AppStateUpdate::EncoderRotate(-1i8)),
        EncoderEvent::Press => None,
        EncoderEvent::Release => Some(AppStateUpdate::EncoderPress),
        EncoderEvent::LongPress => Some(AppStateUpdate::EncoderLongPress),
    }
}

pub fn encoder_update(event: EncoderEvent) -> (update: Option<AppStateUpdate>)
    ensures
        update == reported(event),
{
    match event {
        EncoderEvent::Increment => Some(AppStateUpdate::EncoderRotate(1)),
        EncoderEvent::Decrement => Some(AppStateUpdate::EncoderRotate(-1)),
        EncoderEvent::Press => None,
        EncoderEvent::Release => Some(AppStateUpdate::EncoderPress),
        EncoderEvent::LongPress => Some(AppStateUpdate::EncoderLongPress),
    }
}

// Source arbitration

/// The source that becomes active when connections change: what was connected
/// last, and on a disconnection what is left.
pub open spec fn chosen(
    prev_spdif: bool,
    prev_vbus: bool,
    spdif: bool,
    vbus: bool,
) -> Option<AudioSource> {
    if vbus != prev_vbus {
        Some(
            if vbus {
                AudioSource::Usb
            } else if spdif {
                AudioSource::Spdif
            } else {
                AudioSource::LineIn
            },
        )
    } else if spdif != prev_spdif {
        Some(
            if spdif {
                AudioSource::Spdif
            } else if vbus {
                AudioSource::Usb
            } else {
                AudioSource::LineIn
            },
        )
    } else {
        None
    }
}

/// Code of a source.
pub open spec fn source_code(source: AudioSource) -> u8 {
    match source {
        AudioSource::Spdif => SOURCE_SPDIF,
        AudioSource::Usb => SOURCE_USB,
        _ => SOURCE_LINEIN,
    }
}

/// Output rate that a source asks for; S/PDIF asks for its own once detected.
pub open spec fn source_rate(source: AudioSource) -> Option<u32> {
    match source {
        AudioSource::Usb => Some(USB_SAMPLE_RATE),
        AudioSource::LineIn => Some(SAMPLE_RATE),
        _ => None,
    }
}

/// A change of the active source.
#[derive(Debug, Clone, Copy, PartialEq, Eq, Structural)]
pub struct SourceChange {
    pub source: AudioSource,
    /// Code for the audio tasks.
    pub code: u8,
    /// Output rate to request.
    pub rate: Option<u32>,
}

/// Watches the connections of the sources.
#[derive(Debug, Clone, Copy, PartialEq, Eq, Structural)]
pub struct SourceArbiter {
    pub prev_spdif: bool,
    pub prev_vbus: bool,
}

impl SourceArbiter {
    pub fn new(vbus: bool) -> (arbiter: Self)
        ensures
            arbiter == (SourceArbiter { prev_spdif: false, prev_vbus: vbus }),
    {
        SourceArbiter { prev_spdif: false, prev_vbus: vbus }
    }

    /// Takes the current connections; tells the change, if there is one.
    pub fn update(&mut self, spdif: bool, vbus: bool) -> (change: Option<SourceChange>)
        ensures
            *final(self) == (SourceArbiter { prev_spdif: spdif, prev_vbus: vbus }),
            change == match chosen(old(self).prev_spdif, old(self).prev_vbus, spdif, vbus) {
                Some(source) => Some(
                    SourceChange { source, code: source_code(source), rate: source_rate(source) },
                ),
                None => None,
            },
    {
        let mut change: Option<SourceChange> = None;
        if spdif && !self.prev_spdif {
            change = Some(spdif_change());
        }
        if !spdif && self.prev_spdif {
            change = if vbus {
                Some(usb_change())
            } else {
                Some(line_in_change())
            };
        }
        if vbus && !self.prev_vbus {
            change = Some(usb_change());
        }
        if !vbus && self.prev_vbus {
            change = if spdif {
                Some(spdif_change())
            } else {
                Some(line_in_change())
            };
        }
        self.prev_spdif = spdif;
        self.prev_vbus = vbus;
        change
    }
}

fn spdif_change() -> (change: SourceChange)
    ensures
        change == (SourceChange {
            source: AudioSource::Spdif,
            code: SOURCE_SPDIF,
            rate: None,
        }),
{
    SourceChange { source: AudioSource::Spdif, code: SOURCE_SPDIF, rate: None }
}

fn usb_change() -> (change: SourceChange)
    ensures
        change == (SourceChange {
            source: AudioSource::Usb,
            code: SOURCE_USB,
            rate: Some(USB_SAMPLE_RATE),
        }),
{
    SourceChange { source: AudioSource::Usb, code: SOURCE_USB, rate: Some(USB_SAMPLE_RATE) }
}

fn line_in_change() -> (change: SourceChange)
    ensures
        change == (SourceChange {
            source: AudioSource::LineIn,
            code: SOURCE_LINEIN,
            rate: Some(SAMPLE_RATE),
        }),
{
    SourceChange { source: AudioSource::LineIn, code: SOURCE_LINEIN, rate: Some(SAMPLE_RATE) }
}

/// The source at start: USB if it is connected.
pub fn boot_source(vbus: bool) -> (change: Option<SourceChange>)
    ensures
        change == if vbus {
            Some(
                SourceChange {
                    source: AudioSource::Usb,
                    code: SOURCE_USB,
                    rate: Some(USB_SAMPLE_RATE),
                },
            )
        } else {
            None
        },
{
    if vbus {
        Some(usb_change())
    } else {
        None
    }
}

/// A source is connected; line-in always is.
pub open spec fn connected(source: AudioSource, spdif: bool, vbus: bool) -> bool {
    match source {
        AudioSource::Spdif => spdif,
        AudioSource::Usb => vbus,
        _ => true,
    }
}

/// However connections change, the active source is one that is connected, and
/// line-in is fallen back to only if nothing else is.
pub proof fn law_active_source_is_connected(
    active: AudioSource,
    prev_spdif: bool,
    prev_vbus: bool,
    spdif: bool,
    vbus: bool,
)
    requires
        connected(active, prev_spdif, prev_vbus),
    ensures
        ({
            let choice = chosen(prev_spdif, prev_vbus, spdif, vbus);
            let next = match choice {
                Some(source) => source,
                None => active,
            };
            &&& connected(next, spdif, vbus)
            &&& choice == Some(AudioSource::LineIn) ==> !spdif && !vbus
        }),
{
}

/// The source that was connected last wins.
pub proof fn law_last_connected_wins(other: bool)
    ensures
        chosen(false, other, true, other) == Some(AudioSource::Spdif),
        chosen(other, false, other, true) == Some(AudioSource::Usb),
{
}

// Level metering

/// State of the level meter.
#[derive(Debug, Clone, Copy, PartialEq, Eq, Structural)]
pub struct Meter {
    pub refresh_counter: u8,
    pub hold_left: u8,
    pub hold_right: u8,
    pub decay_counter: u8,
    pub clip_hold: u8,
    pub flash_counter: u8,
    pub flash_on: bool,
}

/// Peak levels since the last look, raw and on the meter's scale (0 to 100).
#[derive(Debug, Clone, Copy, PartialEq, Eq, Structural)]
pub struct Levels {
    pub raw_left: u32,
    pub raw_right: u32,
    pub left: u8,
    pub right: u8,
}

/// A held peak after a new level; every other look it decays by one.
pub open spec fn held(hold: u8, level: u8, decays: bool) -> u8 {
    let top = if hold < level {
        level
    } else {
        hold
    };
    if decays && top > 0 {
        (top - 1) as u8
    } else {
        top
    }
}

impl Meter {
    pub open spec fn fresh() -> Meter {
        Meter {
            refresh_counter: 0,
            hold_left: 0,
            hold_right: 0,
            decay_counter: 0,
            clip_hold: 0,
            flash_counter: 0,
            flash_on: false,
        }
    }

    pub open spec fn wf(self) -> bool {
        &&& self.refresh_counter < METER_INTERVAL
        &&& self.decay_counter < DECAY_INTERVAL
        &&& self.flash_counter < FLASH_INTERVAL
        &&& self.clip_hold <= CLIP_HOLD
    }

    /// Looks for which the warning is still held, before this one is counted.
    pub open spec fn warning(self, levels: Levels) -> int {
        if levels.raw_left > CLIP_LEVEL || levels.raw_right > CLIP_LEVEL {
            CLIP_HOLD as int
        } else {
            self.clip_hold as int
        }
    }

    /// The meter after a look at the levels.
    pub open spec fn measured(self, levels: Levels) -> Meter {
        let decays = self.decay_counter + 1 >= DECAY_INTERVAL;
        let warns = self.warning(levels) > 0;
        let flips = self.flash_counter + 1 >= FLASH_INTERVAL;
        Meter {
            hold_left: held(self.hold_left, levels.left, decays),
            hold_right: held(self.hold_right, levels.right, decays),
            decay_counter: if decays {
                0
            } else {
                (self.decay_counter + 1) as u8
            },
            clip_hold: if warns {
                (self.warning(levels) - 1) as u8
            } else {
                0
            },
            flash_counter: if warns && !flips {
                (self.flash_counter + 1) as u8
            } else {
                0
            },
            flash_on: warns && (if flips {
                !self.flash_on
            } else {
                self.flash_on
            }),
            ..self
        }
    }

    /// Signal status after a look at the levels.
    pub open spec fn status(self, levels: Levels) -> SignalStatus {
        if self.warning(levels) > 0 {
            SignalStatus::Clip
        } else if levels.raw_left > 0 || levels.raw_right > 0 {
            SignalStatus::Present
        } else {
            SignalStatus::NoSignal
        }
    }

    pub fn new() -> (meter: Self)
        ensures
            meter == Meter::fresh(),
            meter.wf(),
    {
        Meter {
            refresh_counter: 0,
            hold_left: 0,
            hold_right: 0,
            decay_counter: 0,
            clip_hold: 0,
            flash_counter: 0,
            flash_on: false,
        }
    }

    /// Counts a pass of the main loop; tells whether to look at the levels.
    pub fn tick(&mut self) -> (due: bool)
        requires
            old(self).wf(),
        ensures
            final(self).wf(),
            due == (old(self).refresh_counter + 1 == METER_INTERVAL),
            *final(self) == (Meter {
                refresh_counter: if due {
                    0
                } else {
                    (old(self).refresh_counter + 1) as u8
                },
                ..*old(self)
            }),
    {
        self.refresh_counter = self.refresh_counter + 1;
        if self.refresh_counter >= METER_INTERVAL {
            self.refresh_counter = 0;
            true
        } else {
            false
        }
    }

    /// Takes the levels into the meter and the application state. Returns
    /// whether the signal status changed.
    pub fn measure(&mut self, levels: Levels, state: &mut AppState) -> (status_changed: bool)
        requires
            old(self).wf(),
        ensures
            final(self).wf(),
            *final(self) == old(self).measured(levels),
            *final(state) == metered(*old(self), levels, *old(state)),
            status_changed == (final(state).signal_status != old(state).signal_status),
    {
        state.level_left = levels.left;
        state.level_right = levels.right;
        if self.hold_left < levels.left {
            self.hold_left = levels.left;
        }
        if self.hold_right < levels.right {
            self.hold_right = levels.right;
        }
        self.decay_counter = self.decay_counter + 1;
        if self.decay_counter >= DECAY_INTERVAL {
            self.decay_counter = 0;
            self.hold_left = self.hold_left.saturating_sub(1);
            self.hold_right = self.hold_right.saturating_sub(1);
        }
        state.peak_left = self.hold_left;
        state.peak_right = self.hold_right;
        if levels.raw_left > CLIP_LEVEL || levels.raw_right > CLIP_LEVEL {
            self.clip_hold = CLIP_HOLD;
        }
        if self.clip_hold > 0 {
            self.clip_hold = self.clip_hold - 1;
            state.clipping = true;
            self.flash_counter = self.flash_counter + 1;
            if self.flash_counter >= FLASH_INTERVAL {
                self.flash_counter = 0;
                self.flash_on = !self.flash_on;
            }
            state.clip_flash = self.flash_on;
        } else {
            state.clipping = false;
            state.clip_flash = false;
            self.flash_on = false;
            self.flash_counter = 0;
        }
        let status: SignalStatus = if state.clipping {
            SignalStatus::Clip
        } else if levels.raw_left > 0 || levels.raw_right > 0 {
            SignalStatus::Present
        } else {
            SignalStatus::NoSignal
        };
        let changed: bool = status != state.signal_status;
        state.signal_status = status;
        changed
    }
}

/// The application state after a look at the levels.
pub open spec fn metered(meter: Meter, levels: Levels, state: AppState) -> AppState {
    let after = meter.measured(levels);
    AppState {
        level_left: levels.left,
        level_right: levels.right,
        peak_left: after.hold_left,
        peak_right: after.hold_right,
        clipping: meter.warning(levels) > 0,
        clip_flash: after.flash_on,
        signal_status: meter.status(levels),
        ..state
    }
}

/// The meter after `n` looks at the same levels.
pub open spec fn measured_times(meter: Meter, levels: Levels, n: nat) -> Meter
    decreases n,
{
    if n == 0 {
        meter
    } else {
        measured_times(meter, levels, (n - 1) as nat).measured(levels)
    }
}

/// A clip warning is held for 33 looks, the one that saw the clip included, and
/// then ends unless there is another one.
pub proof fn law_clip_warning_is_held(meter: Meter, clip: Levels, quiet: Levels, n: nat)
    requires
        meter.wf(),
        clip.raw_left > CLIP_LEVEL || clip.raw_right > CLIP_LEVEL,
        quiet.raw_left <= CLIP_LEVEL,
        quiet.raw_right <= CLIP_LEVEL,
    ensures
        meter.status(clip) == SignalStatus::Clip,
        (measured_times(meter.measured(clip), quiet, n).status(quiet) == SignalStatus::Clip) == (n
            < 32),
    decreases n,
{
    lemma_hold_runs_down(meter.measured(clip), quiet, n);
}

proof fn lemma_hold_runs_down(meter: Meter, quiet: Levels, n: nat)
    requires
        quiet.raw_left <= CLIP_LEVEL,
        quiet.raw_right <= CLIP_LEVEL,
    ensures
        measured_times(meter, quiet, n).clip_hold == if meter.clip_hold > n {
            meter.clip_hold - n
        } else {
            0
        },
    decreases n,
{
    if n > 0 {
        lemma_hold_runs_down(meter, quiet, (n - 1) as nat);
    }
}

/// A held peak is never below the level but by one step of its decay, and never
/// leaves the meter's scale.
pub proof fn law_peak_covers_level(hold: u8, level: u8, decays: bool)
    requires
        hold <= 100,
        level <= 100,
    ensures
        held(hold, level, decays) <= 100,
        held(hold, level, decays) + 1 >= level,
        held(hold, level, false) >= level,
{
}

// User interface

/// A command for the amplifier.
#[derive(Debug, Clone, Copy, PartialEq, Eq, Structural)]
pub enum AmpCommand {
    SetVolume(u8),
    Mute,
    Unmute,
}

/// The user interface as the main loop sees it.
#[verifier::ext_equal]
pub struct UiModel {
    pub state: AppState,
    pub screen: ScreenId,
    pub main_menu: crate::gui::menu::MenuModel,
    pub source_menu: crate::gui::menu::MenuModel,
    /// Encoder ticks not yet taken for a step in a menu.
    pub ticks: int,
    /// The display has to be redrawn.
    pub display_dirty: bool,
    /// The volume has to be redrawn.
    pub volume_dirty: bool,
    /// Time at which the settings are to be saved.
    pub save_at: Option<u64>,
    /// State of the clip warning that the home screen shows.
    pub shown_flash: bool,
}

/// What an update asks of the rest of the system.
pub struct UiEffect {
    pub amp: Option<AmpCommand>,
    pub restart: bool,
}

pub open spec fn mute_command(muted: bool) -> AmpCommand {
    if muted {
        AmpCommand::Mute
    } else {
        AmpCommand::Unmute
    }
}

impl UiModel {
    pub open spec fn wf(self) -> bool {
        &&& self.main_menu.wf()
        &&& self.main_menu.title == "Menu"@
        &&& self.main_menu.items == crate::gui::menu::main_menu_items()
        &&& self.source_menu.wf()
        &&& self.source_menu.title == "Source"@
        &&& self.source_menu.items == crate::gui::menu::source_menu_items()
        &&& -2 < self.ticks < 2
    }

    /// Volume or mute state changed at time `now`.
    pub open spec fn volume_touched(self, now: u64) -> UiModel {
        UiModel {
            volume_dirty: self.volume_dirty || self.screen == ScreenId::Home,
            save_at: Some((now + SAVE_DELAY_US) as u64),
            ..self
        }
    }

    /// The encoder was turned: the volume on the home screen, the selection in
    /// menus, where every second tick counts.
    pub open spec fn rotated(self, dir: i8) -> (UiModel, Option<ScreenAction>) {
        if self.screen == ScreenId::Home {
            let volume = crate::gui::screens::volume_step(self.state.volume, dir);
            (
                UiModel { state: AppState { volume, ..self.state }, ..self },
                if volume != self.state.volume {
                    Some(ScreenAction::UpdateVolume(volume))
                } else {
                    None
                },
            )
        } else {
            let total = self.ticks + dir;
            if -2 < total < 2 {
                (UiModel { ticks: total, ..self }, None)
            } else if self.screen == ScreenId::MainMenu {
                (
                    UiModel {
                        ticks: 0,
                        main_menu: if total > 0 {
                            self.main_menu.next()
                        } else {
                            self.main_menu.previous()
                        },
                        ..self
                    },
                    Some(ScreenAction::Refresh),
                )
            } else if self.screen == ScreenId::SourceSelect {
                (
                    UiModel {
                        ticks: 0,
                        source_menu: if total > 0 {
                            self.source_menu.next()
                        } else {
                            self.source_menu.previous()
                        },
                        ..self
                    },
                    Some(ScreenAction::Refresh),
                )
            } else {
                (UiModel { ticks: 0, ..self }, None)
            }
        }
    }

    /// The encoder was pressed.
    pub open spec fn pressed(self) -> (UiModel, Option<ScreenAction>) {
        match self.screen {
            ScreenId::Home => (self, Some(ScreenAction::GoTo(ScreenId::MainMenu))),
            ScreenId::MainMenu => (
                self,
                crate::gui::screens::main_menu_press(self.main_menu.action()),
            ),
            ScreenId::SourceSelect => (
                UiModel {
                    state: crate::gui::screens::source_menu_state(
                        self.state,
                        self.source_menu.action(),
                    ),
                    ..self
                },
                crate::gui::screens::source_menu_press(self.source_menu.action()),
            ),
            ScreenId::Equalizer | ScreenId::Settings => (
                self,
                Some(ScreenAction::GoTo(ScreenId::MainMenu)),
            ),
            _ => (self, None),
        }
    }

    /// The encoder was pressed long.
    pub open spec fn pressed_long(self) -> (UiModel, Option<ScreenAction>) {
        match self.screen {
            ScreenId::Home => (self, Some(ScreenAction::ToggleMute)),
            ScreenId::MainMenu | ScreenId::SourceSelect | ScreenId::Equalizer
            | ScreenId::Settings => (self, Some(ScreenAction::GoTo(ScreenId::Home))),
            _ => (self, None),
        }
    }

    /// A screen asked for an action.
    pub open spec fn acted(self, action: Option<ScreenAction>, now: u64) -> (
        UiModel,
        Option<AmpCommand>,
        bool,
    ) {
        match action {
            None => (self, None, false),
            Some(ScreenAction::GoTo(screen)) => (
                UiModel { screen, ticks: 0, display_dirty: true, ..self },
                None,
                false,
            ),
            Some(ScreenAction::Back) => (
                UiModel { screen: ScreenId::Home, ticks: 0, display_dirty: true, ..self },
                None,
                false,
            ),
            Some(ScreenAction::UpdateVolume(volume)) => (
                self.volume_touched(now),
                Some(AmpCommand::SetVolume(volume)),
                false,
            ),
            Some(ScreenAction::ToggleMute) => (
                UiModel {
                    state: AppState { muted: !self.state.muted, ..self.state },
                    ..self
                }.volume_touched(now),
                Some(mute_command(!self.state.muted)),
                false,
            ),
            Some(ScreenAction::ChangeSource(_)) | Some(ScreenAction::Refresh) => (
                UiModel { display_dirty: true, ..self },
                None,
                false,
            ),
            Some(ScreenAction::EnterUsbConfigMode) => (self, None, true),
        }
    }

    /// An update arrived.
    pub open spec fn updated(self, update: AppStateUpdate, now: u64) -> (
        UiModel,
        Option<AmpCommand>,
        bool,
    ) {
        match update {
            AppStateUpdate::VolumeChanged(volume) => (
                UiModel { state: AppState { volume, ..self.state }, ..self }.volume_touched(now),
                Some(AmpCommand::SetVolume(volume)),
                false,
            ),
            AppStateUpdate::MuteToggled(muted) => (
                UiModel { state: AppState { muted, ..self.state }, ..self }.volume_touched(now),
                Some(mute_command(muted)),
                false,
            ),
            AppStateUpdate::SampleRateChanged(sample_rate) => (
                UiModel {
                    state: AppState { sample_rate, ..self.state },
                    display_dirty: self.display_dirty || self.screen == ScreenId::Home,
                    ..self
                },
                None,
                false,
            ),
            AppStateUpdate::EncoderRotate(dir) => self.rotated(dir).0.acted(
                self.rotated(dir).1,
                now,
            ),
            AppStateUpdate::EncoderPress => self.pressed().0.acted(self.pressed().1, now),
            AppStateUpdate::EncoderLongPress => self.pressed_long().0.acted(
                self.pressed_long().1,
                now,
            ),
            AppStateUpdate::SourceChanged(_) | AppStateUpdate::SignalDetected(_) => (
                UiModel { display_dirty: true, ..self },
                None,
                false,
            ),
        }
    }

    /// The active source changed.
    pub open spec fn switched(self, change: SourceChange) -> UiModel {
        UiModel {
            state: AppState {
                source: change.source,
                sample_rate: match change.rate {
                    Some(rate) => rate,
                    None => self.state.sample_rate,
                },
                ..self.state
            },
            display_dirty: true,
            ..self
        }
    }

    /// The figures of the current screen.
    pub open spec fn screen_figures(self) -> Seq<crate::gui::canvas::Figure> {
        match self.screen {
            ScreenId::Home => HomeScreen { show_menu_hint: true }.figures(self.state),
            ScreenId::MainMenu => crate::gui::screens::menu_figures("MENU"@, self.main_menu),
            ScreenId::SourceSelect => crate::gui::screens::menu_figures(
                "SOURCE"@,
                self.source_menu,
            ),
            ScreenId::Equalizer => crate::gui::screens::placeholder("EQUALIZER"@),
            ScreenId::Settings => crate::gui::screens::placeholder("SETTINGS"@),
            _ => Seq::empty(),
        }
    }

    /// What has to be drawn: everything, or only the volume on the home screen.
    pub open spec fn redraw_figures(self) -> Seq<crate::gui::canvas::Figure> {
        if self.display_dirty {
            self.screen_figures()
        } else if self.volume_dirty && self.screen == ScreenId::Home {
            crate::gui::screens::volume_redrawn(self.state)
        } else {
            Seq::empty()
        }
    }

    pub open spec fn redrawn(self) -> UiModel {
        if self.display_dirty || self.screen == ScreenId::Home {
            UiModel { display_dirty: false, volume_dirty: false, ..self }
        } else {
            self
        }
    }
}

/// What is drawn after a look at the levels: nothing but on the home screen,
/// and the volume area only if the clip warning shown changes.
pub open spec fn meter_figures(home: bool, shown: bool, state: AppState) -> Seq<
    crate::gui::canvas::Figure,
> {
    if !home {
        Seq::empty()
    } else if state.clip_flash != shown {
        crate::gui::screens::meters_redrawn(state) + crate::gui::screens::volume_redrawn(state)
    } else {
        crate::gui::screens::meters_redrawn(state)
    }
}

/// Everything that the user interface draws can be drawn.
pub proof fn lemma_ui_fits(ui: UiModel)
    requires
        ui.wf(),
    ensures
        crate::gui::render::all_fit(ui.redraw_figures()),
{
    crate::gui::screens::lemma_home_fits(HomeScreen { show_menu_hint: true }, ui.state);
    crate::gui::screens::lemma_volume_fits(ui.state);
    crate::gui::screens::lemma_menus_fit(ui.main_menu, ui.source_menu);
    crate::gui::screens::lemma_placeholders_fit();
}

/// The user interface.
pub struct Ui {
    state: AppState,
    screen: ScreenId,
    home: HomeScreen,
    main_menu: MainMenuScreen,
    source_select: SourceSelectScreen,
    equalizer: EqualizerScreen,
    settings: SettingsScreen,
    ticks: i8,
    display_dirty: bool,
    volume_dirty: bool,
    shown_flash: bool,
    save_at: Option<u64>,
}

impl View for Ui {
    type V = UiModel;

    closed spec fn view(&self) -> UiModel {
        UiModel {
            state: self.state,
            screen: self.screen,
            main_menu: self.main_menu.menu@,
            source_menu: self.source_select.menu@,
            ticks: self.ticks as int,
            display_dirty: self.display_dirty,
            volume_dirty: self.volume_dirty,
            save_at: self.save_at,
            shown_flash: self.shown_flash,
        }
    }
}

impl Ui {
    pub closed spec fn wf(self) -> bool {
        &&& self@.wf()
        &&& self.home.show_menu_hint
    }

    /// A well-formed user interface has a well-formed model.
    pub proof fn law_model(&self)
        requires
            self.wf(),
        ensures
            self@.wf(),
    {
    }

    /// The home screen with saved settings.
    pub fn new(saved: PersistedSettings) -> (ui: Self)
        ensures
            ui.wf(),
            ui@ == (UiModel {
                state: AppState {
                    volume: saved.volume,
                    muted: saved.muted,
                    source: AudioSource::LineIn,
                    signal_status: SignalStatus::Present,
                    ..AppState::initial()
                },
                screen: ScreenId::Home,
                main_menu: crate::gui::menu::MenuModel {
                    items: crate::gui::menu::main_menu_items(),
                    ..crate::gui::menu::MenuModel::empty("Menu"@)
                },
                source_menu: crate::gui::menu::MenuModel {
                    items: crate::gui::menu::source_menu_items(),
                    ..crate::gui::menu::MenuModel::empty("Source"@)
                },
                ticks: 0,
                display_dirty: true,
                volume_dirty: false,
                save_at: None,
                shown_flash: false,
            }),
    {
        let mut state = AppState::default();
        state.volume = saved.volume;
        state.muted = saved.muted;
        state.source = AudioSource::LineIn;
        state.signal_status = SignalStatus::Present;
        Ui {
            state,
            screen: ScreenId::Home,
            home: HomeScreen::new(),
            main_menu: MainMenuScreen::new(),
            source_select: SourceSelectScreen::new(),
            equalizer: EqualizerScreen::new(),
            settings: SettingsScreen::new(),
            ticks: 0,
            display_dirty: true,
            volume_dirty: false,
            shown_flash: false,
            save_at: None,
        }
    }

    pub fn state(&self) -> (state: AppState)
        ensures
            state == self@.state,
    {
        self.state
    }

    pub fn screen(&self) -> (screen: ScreenId)
        ensures
            screen == self@.screen,
    {
        self.screen
    }

    /// USB was connected at start.
    pub fn start_with_usb(&mut self)
        requires
            old(self).wf(),
        ensures
            final(self).wf(),
            final(self)@ == (UiModel {
                state: AppState { source: AudioSource::Usb, ..old(self)@.state },
                ..old(self)@
            }),
    {
        self.state.source = AudioSource::Usb;
    }

    /// Takes a change of the active source.
    pub fn switch_source(&mut self, change: SourceChange)
        requires
            old(self).wf(),
        ensures
            final(self).wf(),
            final(self)@ == old(self)@.switched(change),
    {
        self.state.source = change.source;
        if let Some(rate) = change.rate {
            self.state.sample_rate = rate;
        }
        self.display_dirty = true;
    }

    fn touch_volume(&mut self, now: u64)
        requires
            old(self).wf(),
            now + SAVE_DELAY_US <= u64::MAX,
        ensures
            final(self).wf(),
            final(self)@ == old(self)@.volume_touched(now),
    {
        if self.screen == ScreenId::Home {
            self.volume_dirty = true;
        }
        self.save_at = Some(now + SAVE_DELAY_US);
    }

    /// Takes an update from one of the tasks, at time `now`.
    pub fn handle_update(&mut self, update: AppStateUpdate, now: u64) -> (effect: UiEffect)
        requires
            old(self).wf(),
            now + SAVE_DELAY_US <= u64::MAX,
        ensures
            final(self).wf(),
            (final(self)@, effect.amp, effect.restart) == old(self)@.updated(update, now),
    {
        let action: Option<ScreenAction> = match update {
            AppStateUpdate::VolumeChanged(volume) => {
                self.state.volume = volume;
                self.touch_volume(now);
                return UiEffect { amp: Some(AmpCommand::SetVolume(volume)), restart: false };
            },
            AppStateUpdate::MuteToggled(muted) => {
                self.state.muted = muted;
                self.touch_volume(now);
                return UiEffect { amp: Some(self.mute_state()), restart: false };
            },
            AppStateUpdate::SampleRateChanged(rate) => {
                self.state.sample_rate = rate;
                if self.screen == ScreenId::Home {
                    self.display_dirty = true;
                }
                None
            },
            AppStateUpdate::EncoderRotate(dir) => self.on_rotate(dir),
            AppStateUpdate::EncoderPress => self.on_press(),
            AppStateUpdate::EncoderLongPress => self.on_long_press(),
            AppStateUpdate::SourceChanged(_) => {
                self.display_dirty = true;
                None
            },
            AppStateUpdate::SignalDetected(_) => {
                self.display_dirty = true;
                None
            },
        };
        self.act(action, now)
    }

    fn mute_state(&self) -> (command: AmpCommand)
        ensures
            command == mute_command(self@.state.muted),
    {
        if self.state.muted {
            AmpCommand::Mute
        } else {
            AmpCommand::Unmute
        }
    }

    fn on_rotate(&mut self, dir: i8) -> (action: Option<ScreenAction>)
        requires
            old(self).wf(),
        ensures
            final(self).wf(),
            (final(self)@, action) == old(self)@.rotated(dir),
    {
        if self.screen == ScreenId::Home {
            return self.home.on_encoder_rotate(dir, &mut self.state);
        }
        let total: i16 = self.ticks as i16 + dir as i16;
        if total > -2 && total < 2 {
            self.ticks = total as i8;
            return None;
        }
        self.ticks = 0;
        let menu_dir: i8 = if total > 0 {
            1
        } else {
            -1
        };
        match self.screen {
            ScreenId::MainMenu => self.main_menu.on_encoder_rotate(menu_dir, &mut self.state),
            ScreenId::SourceSelect => self.source_select.on_encoder_rotate(
                menu_dir,
                &mut self.state,
            ),
            ScreenId::Equalizer => self.equalizer.on_encoder_rotate(menu_dir, &mut self.state),
            ScreenId::Settings => self.settings.on_encoder_rotate(menu_dir, &mut self.state),
            _ => None,
        }
    }

    fn on_press(&mut self) -> (action: Option<ScreenAction>)
        requires
            old(self).wf(),
        ensures
            final(self).wf(),
            (final(self)@, action) == old(self)@.pressed(),
    {
        match self.screen {
            ScreenId::Home => self.home.on_encoder_press(&mut self.state),
            ScreenId::MainMenu => self.main_menu.on_encoder_press(&mut self.state),
            ScreenId::SourceSelect => self.source_select.on_encoder_press(&mut self.state),
            ScreenId::Equalizer => self.equalizer.on_encoder_press(&mut self.state),
            ScreenId::Settings => self.settings.on_encoder_press(&mut self.state),
            _ => None,
        }
    }

    fn on_long_press(&mut self) -> (action: Option<ScreenAction>)
        requires
            old(self).wf(),
        ensures
            final(self).wf(),
            (final(self)@, action) == old(self)@.pressed_long(),
    {
        match self.screen {
            ScreenId::Home => self.home.on_encoder_long_press(&mut self.state),
            ScreenId::MainMenu => self.main_menu.on_encoder_long_press(&mut self.state),
            ScreenId::SourceSelect => self.source_select.on_encoder_long_press(&mut self.state),
            ScreenId::Equalizer => self.equalizer.on_encoder_long_press(&mut self.state),
            ScreenId::Settings => self.settings.on_encoder_long_press(&mut self.state),
            _ => None,
        }
    }

    fn act(&mut self, action: Option<ScreenAction>, now: u64) -> (effect: UiEffect)
        requires
            old(self).wf(),
            now + SAVE_DELAY_US <= u64::MAX,
        ensures
            final(self).wf(),
            (final(self)@, effect.amp, effect.restart) == old(self)@.acted(action, now),
    {
        let mut amp: Option<AmpCommand> = None;
        let mut restart: bool = false;
        if let Some(action) = action {
            match action {
                ScreenAction::GoTo(screen) => {
                    self.screen = screen;
                    self.ticks = 0;
                    self.display_dirty = true;
                },
                ScreenAction::Back => {
                    self.screen = ScreenId::Home;
                    self.ticks = 0;
                    self.display_dirty = true;
                },
                ScreenAction::UpdateVolume(volume) => {
                    amp = Some(AmpCommand::SetVolume(volume));
                    self.touch_volume(now);
                },
                ScreenAction::ToggleMute => {
                    self.state.muted = !self.state.muted;
                    amp = Some(self.mute_state());
                    self.touch_volume(now);
                },
                ScreenAction::ChangeSource(_) => {
                    self.display_dirty = true;
                },
                ScreenAction::Refresh => {
                    self.display_dirty = true;
                },
                ScreenAction::EnterUsbConfigMode => {
                    restart = true;
                },
            }
        }
        UiEffect { amp, restart }
    }

    /// Takes the levels. On the home screen, draws the meter bars, and the
    /// volume area if the clip warning changed.
    pub fn meter(&mut self, meter: &mut Meter, levels: Levels, canvas: &mut Canvas)
        requires
            old(self).wf(),
            old(meter).wf(),
        ensures
            final(self).wf(),
            final(meter).wf(),
            *final(meter) == old(meter).measured(levels),
            ({
                let state = metered(*old(meter), levels, old(self)@.state);
                let home = old(self)@.screen == ScreenId::Home;
                &&& final(self)@ == (UiModel {
                    state,
                    display_dirty: old(self)@.display_dirty || state.signal_status != old(
                        self,
                    )@.state.signal_status,
                    shown_flash: if home {
                        state.clip_flash
                    } else {
                        old(self)@.shown_flash
                    },
                    ..old(self)@
                })
                &&& final(canvas)@ == old(canvas)@ + meter_figures(
                    home,
                    old(self)@.shown_flash,
                    state,
                )
            }),
    {
        if meter.measure(levels, &mut self.state) {
            self.display_dirty = true;
        }
        if self.screen == ScreenId::Home {
            self.home.draw_meters(canvas, &self.state);
            if self.state.clip_flash != self.shown_flash {
                self.shown_flash = self.state.clip_flash;
                self.home.draw_clip_region(canvas, &self.state);
            }
        }
        proof {
            let state = metered(*old(meter), levels, old(self)@.state);
            let home = old(self)@.screen == ScreenId::Home;
            assert(canvas@ =~= old(canvas)@ + meter_figures(home, old(self)@.shown_flash, state));
        }
    }

    /// Draws what has changed.
    pub fn redraw(&mut self, canvas: &mut Canvas)
        requires
            old(self).wf(),
        ensures
            final(self).wf(),
            final(self)@ == old(self)@.redrawn(),
            final(canvas)@ == old(canvas)@ + old(self)@.redraw_figures(),
    {
        if self.volume_dirty && !self.display_dirty && self.screen == ScreenId::Home {
            self.volume_dirty = false;
            self.home.draw_clip_region(canvas, &self.state);
        }
        if self.display_dirty {
            self.display_dirty = false;
            self.volume_dirty = false;
            match self.screen {
                ScreenId::Home => self.home.draw(canvas, &self.state),
                ScreenId::MainMenu => self.main_menu.draw(canvas, &self.state),
                ScreenId::SourceSelect => self.source_select.draw(canvas, &self.state),
                ScreenId::Equalizer => self.equalizer.draw(canvas, &self.state),
                ScreenId::Settings => self.settings.draw(canvas, &self.state),
                _ => {},
            }
        }
        assert(self@ =~= old(self)@.redrawn());
        assert(canvas@ =~= old(canvas)@ + old(self)@.redraw_figures());
    }

    /// Draws what has changed into the frame buffer.
    pub fn show(&mut self, display: &mut Sh1106)
        requires
            old(self).wf(),
        ensures
            final(self).wf(),
            final(self)@ == old(self)@.redrawn(),
            final(display)@ == crate::gui::render::drawn_all(
                old(display)@,
                old(self)@.redraw_figures(),
            ),
            crate::gui::render::all_placed(old(self)@.redraw_figures()),
    {
        let mut canvas = Canvas::new();
        self.redraw(&mut canvas);
        proof {
            lemma_ui_fits(old(self)@);
            assert(canvas@ =~= old(self)@.redraw_figures());
        }
        draw_canvas(display, &canvas);
    }

    /// Takes the levels. On the home screen, draws the meter bars into the
    /// frame buffer, and the volume area if the clip warning changed.
    pub fn show_meter(&mut self, meter: &mut Meter, levels: Levels, display: &mut Sh1106)
        requires
            old(self).wf(),
            old(meter).wf(),
        ensures
            final(self).wf(),
            final(meter).wf(),
            *final(meter) == old(meter).measured(levels),
            ({
                let state = metered(*old(meter), levels, old(self)@.state);
                let home = old(self)@.screen == ScreenId::Home;
                &&& final(self)@ == (UiModel {
                    state,
                    display_dirty: old(self)@.display_dirty || state.signal_status != old(
                        self,
                    )@.state.signal_status,
                    shown_flash: if home {
                        state.clip_flash
                    } else {
                        old(self)@.shown_flash
                    },
                    ..old(self)@
                })
                &&& final(display)@ == crate::gui::render::drawn_all(
                    old(display)@,
                    meter_figures(home, old(self)@.shown_flash, state),
                )
                &&& crate::gui::render::all_placed(
                    meter_figures(home, old(self)@.shown_flash, state),
                )
            }),
    {
        let mut canvas = Canvas::new();
        self.meter(meter, levels, &mut canvas);
        proof {
            let state = self@.state;
            crate::gui::screens::lemma_meters_fit(state);
            crate::gui::screens::lemma_volume_fits(state);
            assert(canvas@ =~= meter_figures(
                old(self)@.screen == ScreenId::Home,
                old(self)@.shown_flash,
                state,
            ));
        }
        draw_canvas(display, &canvas);
    }

    /// The settings to save, once it is time to.
    pub fn save_due(&mut self, now: u64) -> (settings: Option<PersistedSettings>)
        requires
            old(self).wf(),
        ensures
            final(self).wf(),
            ({
                let due = old(self)@.save_at matches Some(at) && at <= now;
                &&& settings == if due {
                    Some(
                        PersistedSettings {
                            volume: old(self)@.state.volume,
                            muted: old(self)@.state.muted,
                        },
                    )
                } else {
                    None
                }
                &&& final(self)@ == if due {
                    UiModel { save_at: None, ..old(self)@ }
                } else {
                    old(self)@
                }
            }),
    {
        if let Some(at) = self.save_at {
            if now >= at {
                self.save_at = None;
                return Some(
                    PersistedSettings { volume: self.state.volume, muted: self.state.muted },
                );
            }
        }
        None
    }
}

/// Whether the scratch register asks for a restart as a USB drive.
pub fn is_config_request(scratch: u32) -> (yes: bool)
    ensures
        yes == (scratch == CONFIG_MODE_MAGIC),
{
    scratch == CONFIG_MODE_MAGIC
}

/// Every update leaves the user interface well-formed: selections on their
/// items, and no more than one tick waiting.
pub proof fn law_updates_keep_ui(ui: UiModel, update: AppStateUpdate, now: u64)
    requires
        ui.wf(),
    ensures
        ui.updated(update, now).0.wf(),
{
    match update {
        AppStateUpdate::EncoderRotate(dir) => {
            assert(ui.rotated(dir).0.wf());
        },
        AppStateUpdate::EncoderPress => {
            assert(ui.pressed().0.wf());
        },
        AppStateUpdate::EncoderLongPress => {
            assert(ui.pressed_long().0.wf());
        },
        _ => {},
    }
}

/// Every change of volume or mute state is passed to the amplifier and saved
/// two seconds later, and nothing else is.
pub proof fn law_volume_changes_are_saved(ui: UiModel, update: AppStateUpdate, now: u64)
    requires
        ui.wf(),
        now + SAVE_DELAY_US <= u64::MAX,
    ensures
        ({
            let (after, amp, restart) = ui.updated(update, now);
            &&& amp is Some ==> after.save_at == Some((now + SAVE_DELAY_US) as u64)
            &&& amp is None ==> after.save_at == ui.save_at
            &&& after.state.volume != ui.state.volume || after.state.muted != ui.state.muted ==> amp
                is Some
            &&& amp matches Some(AmpCommand::SetVolume(volume)) ==> volume == after.state.volume
            &&& amp == Some(AmpCommand::Mute) ==> after.state.muted
            &&& amp == Some(AmpCommand::Unmute) ==> !after.state.muted
        }),
{
    match update {
        AppStateUpdate::EncoderRotate(dir) => {
            let (turned, action) = ui.rotated(dir);
            assert(turned.save_at == ui.save_at);
            assert(action matches Some(ScreenAction::UpdateVolume(volume)) ==> volume
                == turned.state.volume);
            assert(action is None || action == Some(ScreenAction::Refresh) ==> turned.state
                == ui.state);
            lemma_actions_are_saved(turned, action, now);
        },
        AppStateUpdate::EncoderPress => {
            lemma_actions_are_saved(ui.pressed().0, ui.pressed().1, now);
        },
        AppStateUpdate::EncoderLongPress => {
            lemma_actions_are_saved(ui, ui.pressed_long().1, now);
        },
        _ => {},
    }
}

proof fn lemma_actions_are_saved(ui: UiModel, action: Option<ScreenAction>, now: u64)
    ensures
        ({
            let (after, amp, restart) = ui.acted(action, now);
            let changes = action == Some(ScreenAction::ToggleMute) || action matches Some(
                ScreenAction::UpdateVolume(_),
            );
            &&& amp is Some == changes
            &&& after.save_at == if changes {
                Some((now + SAVE_DELAY_US) as u64)
            } else {
                ui.save_at
            }
            &&& after.state.volume == ui.state.volume
            &&& action matches Some(ScreenAction::UpdateVolume(volume)) ==> amp == Some(
                AmpCommand::SetVolume(volume),
            )
            &&& if action == Some(ScreenAction::ToggleMute) {
                &&& after.state.muted == !ui.state.muted
                &&& amp == Some(mute_command(after.state.muted))
            } else {
                after.state.muted == ui.state.muted
            }
        }),
{
}

/// A long press on the home screen toggles mute, and a second one undoes it.
pub proof fn law_mute_toggles_back(ui: UiModel, now: u64, later: u64)
    requires
        ui.wf(),
        ui.screen == ScreenId::Home,
    ensures
        ({
            let once = ui.updated(AppStateUpdate::EncoderLongPress, now).0;
            let twice = once.updated(AppStateUpdate::EncoderLongPress, later).0;
            &&& once.state.muted == !ui.state.muted
            &&& twice.state == ui.state
        }),
{
}

/// From every screen that can be reached, a long press leads to the home
/// screen.
pub proof fn law_long_press_leads_home(ui: UiModel, now: u64)
    requires
        ui.screen == ScreenId::Home || ui.screen == ScreenId::MainMenu || ui.screen
            == ScreenId::SourceSelect || ui.screen == ScreenId::Equalizer || ui.screen
            == ScreenId::Settings,
    ensures
        ui.updated(AppStateUpdate::EncoderLongPress, now).0.screen == ScreenId::Home,
{
}

/// Turning tells its direction, and only letting go or holding on tells a press.
pub proof fn law_encoder_reports(event: EncoderEvent)
    ensures
        event == EncoderEvent::Increment ==> reported(event) is Some && (reported(event)->0 matches
            AppStateUpdate::EncoderRotate(dir) && dir == 1),
        event == EncoderEvent::Decrement ==> reported(event) is Some && (reported(event)->0 matches
            AppStateUpdate::EncoderRotate(dir) && dir == -1),
        event == EncoderEvent::Press <==> reported(event) is None,
        event == EncoderEvent::Release <==> reported(event) == Some(AppStateUpdate::EncoderPress),
        event == EncoderEvent::LongPress <==> reported(event) == Some(
            AppStateUpdate::EncoderLongPress,
        ),
{
}

/// When each source is switched to: USB as it is connected or S/PDIF leaves, S/PDIF
/// as it is connected or USB leaves, line-in as the last of them leaves.
pub proof fn law_source_choice(prev_spdif: bool, prev_vbus: bool, spdif: bool, vbus: bool)
    ensures
        ({
            let choice = chosen(prev_spdif, prev_vbus, spdif, vbus);
            &&& choice is None <==> spdif == prev_spdif && vbus == prev_vbus
            &&& choice == Some(AudioSource::Usb) <==> vbus && (!prev_vbus || prev_spdif && !spdif)
            &&& choice == Some(AudioSource::Spdif) <==> spdif && (prev_vbus && !vbus || !prev_spdif
                && prev_vbus == vbus)
            &&& choice == Some(AudioSource::LineIn) <==> !spdif && !vbus && (prev_spdif
                || prev_vbus)
        }),
{
}

/// Each source has its own code; line-in and USB ask for 96 kHz, S/PDIF for nothing
/// until its rate is known.
pub proof fn law_source_codes(source: AudioSource)
    ensures
        source == AudioSource::Usb <==> source_code(source) == 2,
        source == AudioSource::Spdif <==> source_code(source) == 1,
        source == AudioSource::LineIn ==> source_code(source) == 0,
        source == AudioSource::Usb || source == AudioSource::LineIn <==> source_rate(source) == Some(
            96000u32,
        ),
        source == AudioSource::Spdif ==> source_rate(source) is None,
{
}

/// Peaks count as clipping from 99 % of full scale on.
pub proof fn law_clip_level(raw: u32)
    ensures
        raw > CLIP_LEVEL <==> 100 * raw > 99 * 0x7FFF_FFFF,
{
}

/// Without decay, a held peak is the larger of what was held and the level; with
/// it, one less, but never below zero.
pub proof fn law_held(hold: u8, level: u8)
    ensures
        held(hold, level, false) >= hold && held(hold, level, false) >= level,
        held(hold, level, false) == hold || held(hold, level, false) == level,
        held(hold, level, false) > 0 ==> held(hold, level, true) + 1 == held(hold, level, false),
        held(hold, level, false) == 0 ==> held(hold, level, true) == 0,
{
}

/// In silence a held peak falls by one every second look.
#[verifier::rlimit(50)]
#[verifier::spinoff_prover]
pub proof fn law_peaks_fall(meter: Meter, silence: Levels, n: nat)
    requires
        meter.wf(),
        meter.decay_counter == 0,
        silence.left == 0,
        silence.right == 0,
    ensures
        ({
            let after = measured_times(meter, silence, 2 * n);
            &&& after.decay_counter == 0
            &&& after.hold_left == if meter.hold_left > n {
                meter.hold_left - n
            } else {
                0
            }
            &&& after.hold_right == if meter.hold_right > n {
                meter.hold_right - n
            } else {
                0
            }
        }),
    decreases n,
{
    if n > 0 {
        let k = (n - 1) as nat;
        law_peaks_fall(meter, silence, k);
        let before = measured_times(meter, silence, 2 * k);
        let mid = before.measured(silence);
        assert(measured_times(meter, silence, 2 * k + 1) == mid) by {
            assert((2 * k + 1 - 1) as nat == 2 * k);
        }
        assert(measured_times(meter, silence, 2 * n) == mid.measured(silence)) by {
            assert((2 * n - 1) as nat == 2 * k + 1);
        }
    }
}

/// Each channel is measured by itself: a look takes its level, and the peak that is
/// shown is the one held.
pub proof fn law_channels_are_separate(meter: Meter, levels: Levels, state: AppState)
    requires
        meter.wf(),
    ensures
        ({
            let m = meter.measured(levels);
            let s = metered(meter, levels, state);
            &&& s.level_left == levels.left && s.level_right == levels.right
            &&& s.peak_left == m.hold_left && s.peak_right == m.hold_right
            &&& m.hold_left + 1 >= levels.left && m.hold_left + 1 >= meter.hold_left
            &&& m.hold_right + 1 >= levels.right && m.hold_right + 1 >= meter.hold_right
            &&& m.hold_left <= levels.left || m.hold_left <= meter.hold_left
            &&& m.hold_right <= levels.right || m.hold_right <= meter.hold_right
            &&& m.decay_counter != meter.decay_counter && m.decay_counter < 2
            &&& m.refresh_counter == meter.refresh_counter
            &&& s == (AppState {
                level_left: s.level_left,
                level_right: s.level_right,
                peak_left: s.peak_left,
                peak_right: s.peak_right,
                clipping: s.clipping,
                clip_flash: s.clip_flash,
                signal_status: s.signal_status,
                ..state
            })
        }),
{
}

/// The status tells a clip, seen now or still held, before a signal, and a signal
/// on either channel before silence. Only a clip flashes.
pub proof fn law_signal_status(meter: Meter, levels: Levels, state: AppState)
    ensures
        ({
            let s = metered(meter, levels, state);
            let clips = levels.raw_left > 2126008810 || levels.raw_right > 2126008810
                || meter.clip_hold > 0;
            &&& s.signal_status == SignalStatus::Clip <==> clips
            &&& s.clipping <==> clips
            &&& s.clip_flash ==> clips
            &&& s.signal_status == SignalStatus::NoSignal <==> !clips && levels.raw_left == 0
                && levels.raw_right == 0
        }),
{
}

/// While a warning is on, it goes on and off every six looks; without one it is
/// off and starts anew.
#[verifier::rlimit(50)]
#[verifier::spinoff_prover]
pub proof fn law_warning_flashes(meter: Meter, clip: Levels, n: nat)
    requires
        meter.wf(),
        meter.flash_counter == 0,
        clip.raw_left > CLIP_LEVEL || clip.raw_right > CLIP_LEVEL,
    ensures
        ({
            let after = measured_times(meter, clip, n);
            &&& after.flash_counter == n % 6
            &&& after.flash_on == (meter.flash_on != (n / 6 % 2 == 1))
        }),
    decreases n,
{
    if n > 0 {
        law_warning_flashes(meter, clip, (n - 1) as nat);
        let k = (n - 1) as nat;
        if k % 6 == 5 {
            assert(n % 6 == 0 && n / 6 == k / 6 + 1);
        } else {
            assert(n % 6 == k % 6 + 1 && n / 6 == k / 6);
        }
    }
}

/// Once a warning ends, its flash is off and its counter starts over.
pub proof fn law_flash_ends(meter: Meter, quiet: Levels)
    requires
        meter.clip_hold == 0,
        quiet.raw_left <= CLIP_LEVEL,
        quiet.raw_right <= CLIP_LEVEL,
    ensures
        !meter.measured(quiet).flash_on,
        meter.measured(quiet).flash_counter == 0,
        meter.measured(quiet).clip_hold == 0,
{
}

/// A fresh meter holds nothing.
pub proof fn law_fresh_meter(quiet: Levels)
    requires
        quiet.raw_left <= CLIP_LEVEL,
        quiet.raw_right <= CLIP_LEVEL,
    ensures
        Meter::fresh().wf(),
        Meter::fresh().hold_left == 0 && Meter::fresh().hold_right == 0,
        Meter::fresh().status(quiet) != SignalStatus::Clip,
        Meter::fresh().refresh_counter == 0 && Meter::fresh().decay_counter == 0
            && Meter::fresh().flash_counter == 0 && !Meter::fresh().flash_on,
{
}

/// How often things are done: a look at the levels every 30 passes, a save two
/// seconds after the last change.
pub proof fn law_intervals(ui: UiModel, now: u64)
    requires
        now <= u64::MAX - 2_000_000,
    ensures
        METER_INTERVAL == 30,
        ui.volume_touched(now).save_at is Some && ui.volume_touched(now).save_at->0 == now
            + 2_000_000,
        ui.volume_touched(now).volume_dirty <==> ui.volume_dirty || ui.screen == ScreenId::Home,
        ui.volume_touched(now) == (UiModel {
            volume_dirty: ui.volume_touched(now).volume_dirty,
            save_at: ui.volume_touched(now).save_at,
            ..ui
        }),
{
}

/// On the home screen a turn changes the volume by up to two percent in its
/// direction, tells the amplifier the new volume, and touches no menu.
pub proof fn law_turn_on_home(ui: UiModel, dir: i8, now: u64)
    requires
        ui.wf(),
        ui.screen == ScreenId::Home,
        ui.state.volume <= 100,
        now <= u64::MAX - 2_000_000,
    ensures
        ({
            let (after, amp, restart) = ui.updated(AppStateUpdate::EncoderRotate(dir), now);
            &&& dir > 0 && ui.state.volume <= 98 ==> after.state.volume == ui.state.volume + 2
            &&& dir > 0 && ui.state.volume > 98 ==> after.state.volume == 100
            &&& dir <= 0 && ui.state.volume >= 2 ==> after.state.volume == ui.state.volume - 2
            &&& dir <= 0 && ui.state.volume < 2 ==> after.state.volume == 0
            &&& after.state.volume != ui.state.volume ==> amp == Some(
                AmpCommand::SetVolume(after.state.volume),
            ) && after.volume_dirty
            &&& after.state.volume == ui.state.volume ==> amp is None && after == ui
            &&& after.screen == ui.screen && after.ticks == ui.ticks && after.main_menu
                == ui.main_menu && after.source_menu == ui.source_menu && after.state.muted
                == ui.state.muted
            &&& !restart
        }),
{
}

/// In a menu one tick only waits; the next in its direction moves the selection by
/// one item, and one against it takes the wait back.
pub proof fn law_ticks_in_menus(ui: UiModel, dir: i8)
    requires
        ui.wf(),
        ui.screen == ScreenId::MainMenu || ui.screen == ScreenId::SourceSelect,
        ui.ticks == 0,
        dir == 1 || dir == -1,
    ensures
        ({
            let (one, none) = ui.rotated(dir);
            let (two, action) = one.rotated(dir);
            let (back, nothing) = one.rotated((-dir) as i8);
            let before = if ui.screen == ScreenId::MainMenu {
                ui.main_menu
            } else {
                ui.source_menu
            };
            let moved = if ui.screen == ScreenId::MainMenu {
                two.main_menu
            } else {
                two.source_menu
            };
            &&& none is None && nothing is None
            &&& one == (UiModel { ticks: dir as int, ..ui })
            &&& back == ui
            &&& action == Some(ScreenAction::Refresh)
            &&& two.ticks == 0
            &&& two.state == ui.state && two.screen == ui.screen
            &&& ui.screen == ScreenId::MainMenu ==> two.source_menu == ui.source_menu
            &&& ui.screen == ScreenId::SourceSelect ==> two.main_menu == ui.main_menu
            &&& 0 <= before.selected + dir < before.items.len() ==> moved.selected
                == before.selected + dir
            &&& !(0 <= before.selected + dir < before.items.len()) ==> moved == before
        }),
{
    let back = ui.rotated(dir).0.rotated((-dir) as i8).0;
    assert(back =~= ui);
}

/// On the other screens turning changes nothing but the tick that waits.
pub proof fn law_turn_elsewhere(ui: UiModel, dir: i8)
    requires
        ui.screen != ScreenId::Home,
        ui.screen != ScreenId::MainMenu,
        ui.screen != ScreenId::SourceSelect,
    ensures
        ui.rotated(dir).1 is None,
        ui.rotated(dir).0 == (UiModel { ticks: ui.rotated(dir).0.ticks, ..ui }),
        -2 < ui.rotated(dir).0.ticks < 2,
{
}

/// Where a press leads from each screen.
pub proof fn law_press_leads(ui: UiModel, now: u64)
    requires
        ui.wf(),
    ensures
        ({
            let (after, amp, restart) = ui.updated(AppStateUpdate::EncoderPress, now);
            &&& ui.screen == ScreenId::Home ==> after.screen == ScreenId::MainMenu
            &&& ui.screen == ScreenId::Equalizer || ui.screen == ScreenId::Settings ==> after.screen
                == ScreenId::MainMenu
            &&& ui.screen == ScreenId::MainMenu ==> after.screen == if ui.main_menu.selected == 0 {
                ScreenId::Home
            } else if ui.main_menu.selected == 1 {
                ScreenId::SourceSelect
            } else if ui.main_menu.selected == 2 {
                ScreenId::Equalizer
            } else {
                ScreenId::Settings
            }
            &&& ui.screen == ScreenId::SourceSelect && ui.source_menu.selected == 4 ==> after.screen
                == ScreenId::MainMenu && after.state == ui.state
            &&& ui.screen == ScreenId::SourceSelect && ui.source_menu.selected < 4 ==> after.screen
                == ScreenId::SourceSelect && after.state.source == (
            if ui.source_menu.selected == 1 {
                AudioSource::LineIn
            } else if ui.source_menu.selected == 2 {
                AudioSource::Spdif
            } else if ui.source_menu.selected == 3 {
                AudioSource::Usb
            } else {
                AudioSource::NoSource
            }) && (after.state.source_locked <==> ui.source_menu.selected > 0)
            &&& ui.screen != ScreenId::SourceSelect ==> after.state == ui.state
            &&& ui.screen != ScreenId::Boot && ui.screen != ScreenId::VolumeAdjust
                ==> after.display_dirty
            &&& after.main_menu == ui.main_menu && after.source_menu == ui.source_menu
            &&& amp is None && !restart
        }),
{
    crate::gui::menu::law_main_menu(ui.main_menu.selected);
    crate::gui::menu::law_source_menu(ui.source_menu.selected);
    if ui.screen == ScreenId::MainMenu {
        crate::gui::screens::law_main_menu_leads(ui.main_menu);
    }
    if ui.screen == ScreenId::SourceSelect {
        crate::gui::screens::law_source_menu_chooses(ui.source_menu, ui.state);
    }
}

/// A long press on the home screen changes nothing but the mute state; from the
/// menus it leads home and changes no setting.
pub proof fn law_long_press(ui: UiModel, now: u64)
    ensures
        ({
            let (after, amp, restart) = ui.updated(AppStateUpdate::EncoderLongPress, now);
            &&& ui.screen == ScreenId::Home ==> after.state.muted == !ui.state.muted
                && after.state.volume == ui.state.volume && after.state.source == ui.state.source
                && after.display_dirty == ui.display_dirty && amp == Some(
                mute_command(!ui.state.muted),
            )
            &&& ui.screen != ScreenId::Home ==> after.state == ui.state && amp is None
            &&& after.screen != ui.screen ==> after.display_dirty && after.ticks == 0
            &&& !restart
        }),
{
}

/// Going to a screen shows it anew and drops a tick that waits; asking for the
/// drive restarts; nothing else does either.
pub proof fn law_actions(ui: UiModel, action: Option<ScreenAction>, now: u64)
    ensures
        ({
            let (after, amp, restart) = ui.acted(action, now);
            &&& action matches Some(ScreenAction::GoTo(screen)) ==> after.screen == screen
            &&& action == Some(ScreenAction::Back) ==> after.screen == ScreenId::Home
            &&& action is Some && (action->0 is GoTo || action->0 == ScreenAction::Back)
                ==> after.ticks == 0 && after.display_dirty && after.state == ui.state
            &&& !(action is Some && (action->0 is GoTo || action->0 == ScreenAction::Back))
                ==> after.screen == ui.screen && after.ticks == ui.ticks
            &&& restart <==> action == Some(ScreenAction::EnterUsbConfigMode)
            &&& action is None ==> after == ui && amp is None
            &&& action == Some(ScreenAction::Refresh) || (action is Some && action->0
                is ChangeSource) ==> after == (UiModel { display_dirty: true, ..ui }) && amp is None
            &&& action matches Some(ScreenAction::UpdateVolume(volume)) ==> amp == Some(
                AmpCommand::SetVolume(volume),
            ) && after.state == ui.state
            &&& action == Some(ScreenAction::ToggleMute) ==> after.state == (AppState {
                muted: !ui.state.muted,
                ..ui.state
            }) && amp == Some(
                if ui.state.muted {
                    AmpCommand::Unmute
                } else {
                    AmpCommand::Mute
                },
            )
            &&& after.main_menu == ui.main_menu && after.source_menu == ui.source_menu
        }),
{
}

/// Updates that are no input of the user set what they tell and stay on the screen.
pub proof fn law_told_updates(ui: UiModel, update: AppStateUpdate, now: u64)
    requires
        !(update is EncoderRotate),
        !(update is EncoderPress),
        !(update is EncoderLongPress),
    ensures
        ({
            let (after, amp, restart) = ui.updated(update, now);
            &&& after.screen == ui.screen && after.ticks == ui.ticks && !restart
            &&& after.main_menu == ui.main_menu && after.source_menu == ui.source_menu
            &&& update matches AppStateUpdate::VolumeChanged(volume) ==> after.state == (AppState {
                volume,
                ..ui.state
            }) && amp == Some(AmpCommand::SetVolume(volume))
            &&& update matches AppStateUpdate::MuteToggled(muted) ==> after.state == (AppState {
                muted,
                ..ui.state
            }) && (amp == Some(AmpCommand::Mute) <==> muted) && (amp == Some(AmpCommand::Unmute)
                <==> !muted)
            &&& update matches AppStateUpdate::SampleRateChanged(rate) ==> after.state
                == (AppState { sample_rate: rate, ..ui.state }) && amp is None && (
            after.display_dirty <==> ui.display_dirty || ui.screen == ScreenId::Home)
            &&& update is SourceChanged || update is SignalDetected ==> after.state == ui.state
                && after.display_dirty && amp is None
        }),
{
}

/// A change of source is shown, with its rate if it has one; nothing else of the
/// state changes.
pub proof fn law_switching(ui: UiModel, change: SourceChange)
    ensures
        ui.switched(change).state.source == change.source,
        change.rate is Some ==> ui.switched(change).state.sample_rate == change.rate->0,
        change.rate is None ==> ui.switched(change).state.sample_rate == ui.state.sample_rate,
        ui.switched(change).display_dirty,
        ui.switched(change).state == (AppState {
            source: change.source,
            sample_rate: ui.switched(change).state.sample_rate,
            ..ui.state
        }),
        ui.switched(change) == (UiModel {
            state: ui.switched(change).state,
            display_dirty: true,
            ..ui
        }),
{
}

/// What was redrawn is not drawn again, and nothing is drawn unless it is asked
/// for: the whole screen, or on the home screen the volume alone.
pub proof fn law_redraw_settles(ui: UiModel)
    ensures
        ui.redrawn().redraw_figures().len() == 0,
        ui.display_dirty ==> ui.redraw_figures() == ui.screen_figures(),
        !ui.display_dirty && ui.volume_dirty && ui.screen == ScreenId::Home ==> ui.redraw_figures()
            == crate::gui::screens::volume_redrawn(ui.state),
        !ui.display_dirty && (!ui.volume_dirty || ui.screen != ScreenId::Home)
            ==> ui.redraw_figures().len() == 0,
        ui.redrawn() == (UiModel {
            display_dirty: false,
            volume_dirty: ui.redrawn().volume_dirty,
            ..ui
        }),
        ui.redrawn().volume_dirty ==> ui.volume_dirty && ui.screen != ScreenId::Home,
{
}

/// Each screen shows what is its own, from a dark display on.
pub proof fn law_screens(ui: UiModel)
    ensures
        ui.screen == ScreenId::Home ==> ui.screen_figures() == (HomeScreen {
            show_menu_hint: true,
        }).figures(ui.state),
        ui.screen == ScreenId::MainMenu ==> ui.screen_figures().skip(2) == ui.main_menu.figures(16)
            && crate::gui::widgets::says(ui.screen_figures()[1], "MENU"@, 64, 12),
        ui.screen == ScreenId::SourceSelect ==> ui.screen_figures().skip(2)
            == ui.source_menu.figures(16) && crate::gui::widgets::says(
            ui.screen_figures()[1],
            "SOURCE"@,
            64,
            12,
        ),
        ui.screen == ScreenId::Equalizer ==> crate::gui::widgets::says(
            ui.screen_figures()[1],
            "EQUALIZER"@,
            64,
            12,
        ),
        ui.screen == ScreenId::Settings ==> crate::gui::widgets::says(
            ui.screen_figures()[1],
            "SETTINGS"@,
            64,
            12,
        ),
        ui.screen == ScreenId::Boot || ui.screen == ScreenId::VolumeAdjust
            || ui.screen_figures()[0] == crate::gui::blank(),
{
    if ui.screen == ScreenId::MainMenu {
        assert(ui.screen_figures().skip(2) =~= ui.main_menu.figures(16));
    }
    if ui.screen == ScreenId::SourceSelect {
        assert(ui.screen_figures().skip(2) =~= ui.source_menu.figures(16));
    }
}

/// A look at the levels draws the meters on the home screen, and the volume after
/// them only if the warning went on or off; elsewhere it draws nothing.
pub proof fn law_meter_drawing(home: bool, shown: bool, state: AppState)
    ensures
        ({
            let f = meter_figures(home, shown, state);
            let meters = crate::gui::screens::meters_redrawn(state);
            let n = meters.len() as int;
            &&& !home ==> f.len() == 0
            &&& home ==> f.take(n) == meters
            &&& home && shown == state.clip_flash ==> f.len() == n
            &&& home && shown != state.clip_flash ==> f.skip(n)
                == crate::gui::screens::volume_redrawn(state)
        }),
{
    let f = meter_figures(home, shown, state);
    let meters = crate::gui::screens::meters_redrawn(state);
    let n = meters.len() as int;
    if home {
        assert(f.take(n) =~= meters);
        if shown != state.clip_flash {
            assert(f.skip(n) =~= crate::gui::screens::volume_redrawn(state));
        }
    }
}

/// How connections decide: what was connected last wins, on a disconnection what is
/// left, and a change tells the source with its code and rate.
pub proof fn law_arbitration(
    arbiter: &mut SourceArbiter,
    spdif: bool,
    vbus: bool,
    change: Option<SourceChange>,
)
    requires
        call_ensures(SourceArbiter::update, (arbiter, spdif, vbus), change),
    ensures
        change is None <==> spdif == old(arbiter).prev_spdif && vbus == old(arbiter).prev_vbus,
        vbus && !old(arbiter).prev_vbus ==> change is Some && (change->0).source
            == AudioSource::Usb,
        spdif && !old(arbiter).prev_spdif && vbus == old(arbiter).prev_vbus ==> change is Some && (
        change->0).source == AudioSource::Spdif,
        !vbus && old(arbiter).prev_vbus && spdif ==> change is Some && (change->0).source
            == AudioSource::Spdif,
        !spdif && old(arbiter).prev_spdif && vbus ==> change is Some && (change->0).source
            == AudioSource::Usb,
        change is Some && !spdif && !vbus ==> (change->0).source == AudioSource::LineIn,
        change matches Some(c) ==> {
            &&& c.source == AudioSource::LineIn ==> c.code == 0 && c.rate == Some(96000u32)
            &&& c.source == AudioSource::Spdif ==> c.code == 1 && c.rate is None
            &&& c.source == AudioSource::Usb ==> c.code == 2 && c.rate == Some(96000u32)
        },
        final(arbiter).prev_spdif == spdif && final(arbiter).prev_vbus == vbus,
{
}

/// At start USB is chosen if it is there; and the scratch register asks for the
/// drive with one value only.
pub proof fn law_starting(
    vbus: bool,
    change: Option<SourceChange>,
    scratch: u32,
    asked: bool,
    event: EncoderEvent,
    update: Option<AppStateUpdate>,
)
    requires
        call_ensures(boot_source, (vbus,), change),
        call_ensures(is_config_request, (scratch,), asked),
        call_ensures(encoder_update, (event,), update),
    ensures
        change is Some <==> vbus,
        change matches Some(c) ==> c.source == AudioSource::Usb && c.code == 2 && c.rate == Some(
            96000u32,
        ),
        asked <==> scratch == 0x0CF6_70DE,
        event == EncoderEvent::Press <==> update is None,
        event == EncoderEvent::Increment ==> update == Some(AppStateUpdate::EncoderRotate(1i8)),
        event == EncoderEvent::Decrement ==> update is Some && (update->0 matches
            AppStateUpdate::EncoderRotate(dir) && dir == -1),
        event == EncoderEvent::Release <==> update == Some(AppStateUpdate::EncoderPress),
        event == EncoderEvent::LongPress <==> update == Some(AppStateUpdate::EncoderLongPress),
{
}

/// A look at the levels is due every 30th pass.
pub proof fn law_ticking(meter: &mut Meter, due: bool)
    requires
        old(meter).wf(),
        call_ensures(Meter::tick, (meter,), due),
    ensures
        due <==> old(meter).refresh_counter == 29,
        due ==> final(meter).refresh_counter == 0,
        !due ==> final(meter).refresh_counter == old(meter).refresh_counter + 1,
        final(meter).hold_left == old(meter).hold_left && final(meter).hold_right == old(
            meter).hold_right && final(meter).clip_hold == old(meter).clip_hold,
{
}

/// A look at the levels: each channel's level and held peak, and the status.
#[verifier::rlimit(50)]
#[verifier::spinoff_prover]
pub proof fn law_measuring(
    meter: &mut Meter,
    levels: Levels,
    state: &mut AppState,
    changed: bool,
)
    requires
        old(meter).wf(),
        call_ensures(Meter::measure, (meter, levels, state), changed),
    ensures
        ({
            let clips = levels.raw_left > 2126008810 || levels.raw_right > 2126008810 || old(
                meter).clip_hold > 0;
            let s = *final(state);
            let m = *final(meter);
            &&& s.level_left == levels.left && s.level_right == levels.right
            &&& s.peak_left == m.hold_left && s.peak_right == m.hold_right
            &&& m.hold_left + 1 >= levels.left && m.hold_left + 1 >= old(meter).hold_left
            &&& m.hold_right + 1 >= levels.right && m.hold_right + 1 >= old(meter).hold_right
            &&& m.hold_left <= levels.left || m.hold_left <= old(meter).hold_left
            &&& m.hold_right <= levels.right || m.hold_right <= old(meter).hold_right
            &&& s.clipping <==> clips
            &&& s.signal_status == SignalStatus::Clip <==> clips
            &&& s.signal_status == SignalStatus::NoSignal <==> !clips && levels.raw_left == 0
                && levels.raw_right == 0
            &&& changed <==> s.signal_status != old(state).signal_status
            &&& s.volume == old(state).volume && s.muted == old(state).muted && s.source == old(
                state).source && s.sample_rate == old(state).sample_rate
            &&& levels.raw_left > 2126008810 || levels.raw_right > 2126008810 ==> m.clip_hold == 32
            &&& !clips ==> m.clip_hold == 0 && !s.clip_flash
        }),
{
    law_channels_are_separate(*old(meter), levels, *old(state));
    law_signal_status(*old(meter), levels, *old(state));
}

/// What a turn does on the home screen.
#[verifier::rlimit(50)]
#[verifier::spinoff_prover]
pub proof fn law_handling_turns(ui: &mut Ui, dir: i8, now: u64, effect: UiEffect)
    requires
        old(ui).wf(),
        now <= u64::MAX - 2_000_000,
        old(ui)@.screen == ScreenId::Home,
        old(ui)@.state.volume <= 100,
        call_ensures(Ui::handle_update, (ui, AppStateUpdate::EncoderRotate(dir), now), effect),
    ensures
        ({
            let was = old(ui)@.state.volume;
            let volume = final(ui)@.state.volume;
            &&& dir > 0 && was <= 98 ==> volume == was + 2
            &&& dir > 0 && was > 98 ==> volume == 100
            &&& dir <= 0 && was >= 2 ==> volume == was - 2
            &&& dir <= 0 && was < 2 ==> volume == 0
            &&& volume != was ==> effect.amp == Some(AmpCommand::SetVolume(volume)) && final(
                ui)@.save_at is Some && final(ui)@.save_at->0 == now + 2_000_000
            &&& volume == was ==> effect.amp is None && final(ui)@ == old(ui)@
            &&& !effect.restart
        }),
{
    law_turn_on_home(old(ui)@, dir, now);
    law_volume_changes_are_saved(old(ui)@, AppStateUpdate::EncoderRotate(dir), now);
}

/// What a press does on each screen.
#[verifier::rlimit(50)]
#[verifier::spinoff_prover]
pub proof fn law_handling_presses(ui: &mut Ui, now: u64, effect: UiEffect)
    requires
        old(ui).wf(),
        now <= u64::MAX - 2_000_000,
        call_ensures(Ui::handle_update, (ui, AppStateUpdate::EncoderPress, now), effect),
    ensures
        ({
            let was = old(ui)@;
            let after = final(ui)@;
            &&& was.screen == ScreenId::Home ==> after.screen == ScreenId::MainMenu
            &&& was.screen == ScreenId::MainMenu ==> after.screen == if was.main_menu.selected
                == 0 {
                ScreenId::Home
            } else if was.main_menu.selected == 1 {
                ScreenId::SourceSelect
            } else if was.main_menu.selected == 2 {
                ScreenId::Equalizer
            } else {
                ScreenId::Settings
            }
            &&& was.screen == ScreenId::Equalizer || was.screen == ScreenId::Settings
                ==> after.screen == ScreenId::MainMenu
            &&& was.screen == ScreenId::SourceSelect && was.source_menu.selected == 4
                ==> after.screen == ScreenId::MainMenu
            &&& was.screen == ScreenId::SourceSelect && was.source_menu.selected < 4 ==> (
            after.state.source_locked <==> was.source_menu.selected > 0)
            &&& was.screen != ScreenId::SourceSelect ==> after.state == was.state
            &&& after.state.volume == was.state.volume && after.state.muted == was.state.muted
            &&& effect.amp is None && !effect.restart
        }),
{
    law_press_leads(old(ui)@, now);
    law_volume_changes_are_saved(old(ui)@, AppStateUpdate::EncoderPress, now);
}

/// What a long press does on each screen.
#[verifier::rlimit(50)]
#[verifier::spinoff_prover]
pub proof fn law_handling_long_presses(ui: &mut Ui, now: u64, effect: UiEffect)
    requires
        old(ui).wf(),
        now <= u64::MAX - 2_000_000,
        call_ensures(Ui::handle_update, (ui, AppStateUpdate::EncoderLongPress, now), effect),
    ensures
        ({
            let was = old(ui)@;
            let after = final(ui)@;
            &&& was.screen == ScreenId::Home ==> after.screen == ScreenId::Home && effect.amp
                == Some(
                if was.state.muted {
                    AmpCommand::Unmute
                } else {
                    AmpCommand::Mute
                },
            ) && after.state == (AppState { muted: !was.state.muted, ..was.state })
            &&& was.screen == ScreenId::MainMenu || was.screen == ScreenId::SourceSelect
                || was.screen == ScreenId::Equalizer || was.screen == ScreenId::Settings
                ==> after.screen == ScreenId::Home && after.state == was.state && after.display_dirty
                && effect.amp is None
            &&& !effect.restart
        }),
{
}

/// What the user interface takes over from the tasks.
pub proof fn law_handling_reports(ui: &mut Ui, update: AppStateUpdate, now: u64, effect: UiEffect)
    requires
        old(ui).wf(),
        now <= u64::MAX - 2_000_000,
        !(update is EncoderRotate),
        !(update is EncoderPress),
        !(update is EncoderLongPress),
        call_ensures(Ui::handle_update, (ui, update, now), effect),
    ensures
        ({
            let was = old(ui)@;
            let after = final(ui)@;
            &&& update matches AppStateUpdate::VolumeChanged(volume) ==> after.state == (AppState {
                volume,
                ..was.state
            }) && effect.amp == Some(AmpCommand::SetVolume(volume))
            &&& update matches AppStateUpdate::MuteToggled(muted) ==> after.state == (AppState {
                muted,
                ..was.state
            }) && (effect.amp == Some(AmpCommand::Mute) <==> muted) && effect.amp is Some
            &&& update matches AppStateUpdate::SampleRateChanged(rate) ==> after.state
                == (AppState { sample_rate: rate, ..was.state }) && effect.amp is None
            &&& update is SourceChanged || update is SignalDetected ==> after.display_dirty
                && after.state == was.state && effect.amp is None
            &&& after.screen == was.screen && !effect.restart
        }),
{
    law_told_updates(old(ui)@, update, now);
}

/// Two ticks of the encoder in a menu move its selection by one.
pub proof fn law_menu_ticks(
    a: &mut Ui,
    b: &mut Ui,
    dir: i8,
    now: u64,
    first: UiEffect,
    second: UiEffect,
)
    requires
        old(a).wf(),
        now <= u64::MAX - 2_000_000,
        old(a)@.screen == ScreenId::MainMenu,
        old(a)@.ticks == 0,
        dir == 1 || dir == -1,
        *final(a) == *old(b),
        call_ensures(Ui::handle_update, (a, AppStateUpdate::EncoderRotate(dir), now), first),
        call_ensures(Ui::handle_update, (b, AppStateUpdate::EncoderRotate(dir), now), second),
    ensures
        final(a)@.main_menu == old(a)@.main_menu,
        0 <= old(a)@.main_menu.selected + dir < old(a)@.main_menu.items.len() ==> final(
            b)@.main_menu.selected == old(a)@.main_menu.selected + dir,
        final(b)@.ticks == 0 && final(b)@.display_dirty,
        final(b)@.state == old(a)@.state,
{
    law_ticks_in_menus(old(a)@, dir);
}

/// A change of source is shown at once; the settings are handed out to be saved when
/// they are due, and once.
pub proof fn law_sources_and_saves(
    switched: &mut Ui,
    change: SourceChange,
    saving: &mut Ui,
    now: u64,
    settings: Option<PersistedSettings>,
)
    requires
        old(switched).wf(),
        old(saving).wf(),
        call_ensures(Ui::switch_source, (switched, change), ()),
        call_ensures(Ui::save_due, (saving, now), settings),
    ensures
        final(switched)@.state.source == change.source && final(switched)@.display_dirty,
        change.rate is Some ==> final(switched)@.state.sample_rate == change.rate->0,
        change.rate is None ==> final(switched)@.state.sample_rate == old(
            switched)@.state.sample_rate,
        final(switched)@.state.volume == old(switched)@.state.volume,
        settings is Some <==> old(saving)@.save_at is Some && old(saving)@.save_at->0 <= now,
        settings matches Some(s) ==> s.volume == old(saving)@.state.volume && s.muted == old(
            saving)@.state.muted && final(saving)@.save_at is None,
        settings is None ==> final(saving)@ == old(saving)@,
{
}

/// A fresh user interface shows the home screen with the saved settings.
pub proof fn law_fresh_interface(saved: PersistedSettings, ui: Ui)
    requires
        call_ensures(Ui::new, (saved,), ui),
    ensures
        ui@.state.volume == saved.volume && ui@.state.muted == saved.muted,
        ui@.state.source == AudioSource::LineIn,
        ui@.screen == ScreenId::Home,
        ui@.display_dirty && ui@.save_at is None && ui@.ticks == 0,
        ui@.main_menu.selected == 0 && ui@.source_menu.selected == 0,
{
}

/// Showing draws what is due, and then nothing is; a look at the levels draws on the
/// home screen only.
pub proof fn law_showing(
    ui: &mut Ui,
    canvas: &mut Canvas,
    other: &mut Ui,
    meter: &mut Meter,
    levels: Levels,
    drawn: &mut Canvas,
)
    requires
        old(ui).wf(),
        old(other).wf(),
        old(meter).wf(),
        call_ensures(Ui::redraw, (ui, canvas), ()),
        call_ensures(Ui::meter, (other, meter, levels, drawn), ()),
    ensures
        old(ui)@.display_dirty ==> final(canvas)@ == old(canvas)@ + old(ui)@.screen_figures(),
        !old(ui)@.display_dirty && old(ui)@.volume_dirty && old(ui)@.screen == ScreenId::Home
            ==> final(canvas)@ == old(canvas)@ + crate::gui::screens::volume_redrawn(
            old(ui)@.state),
        !old(ui)@.display_dirty && !old(ui)@.volume_dirty ==> final(canvas)@ == old(canvas)@,
        final(ui)@.redraw_figures().len() == 0,
        final(ui)@.state == old(ui)@.state && final(ui)@.screen == old(ui)@.screen,
        old(other)@.screen != ScreenId::Home ==> final(drawn)@ == old(drawn)@,
        old(other)@.screen == ScreenId::Home ==> (old(drawn)@
            + crate::gui::screens::meters_redrawn(final(other)@.state)).is_prefix_of(
            final(drawn)@),
        final(other)@.state.level_left == levels.left && final(other)@.state.level_right
            == levels.right,
        final(other)@.screen == old(other)@.screen,
        final(other)@.state.signal_status != old(other)@.state.signal_status ==> final(
            other)@.display_dirty,
{
    law_redraw_settles(old(ui)@);
    if !old(ui)@.display_dirty && !old(ui)@.volume_dirty {
        assert(final(canvas)@ =~= old(canvas)@);
    }
    let state = metered(*old(meter), levels, old(other)@.state);
    law_meter_drawing(old(other)@.screen == ScreenId::Home, old(other)@.shown_flash, state);
    let whole = old(drawn)@ + crate::gui::screens::meters_redrawn(state);
    if old(other)@.screen == ScreenId::Home {
        assert(whole =~= final(drawn)@.take(whole.len() as int));
    } else {
        assert(final(drawn)@ =~= old(drawn)@);
    }
}

} // verus!
