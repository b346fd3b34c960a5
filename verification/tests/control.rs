use otteramp_dsp::audio::output::{SOURCE_LINEIN, SOURCE_SPDIF, SOURCE_USB};
use otteramp_dsp::control::{
    boot_source, encoder_update, is_config_request, AmpCommand, AppStateUpdate, Levels, Meter,
    SourceArbiter, Ui, CLIP_LEVEL, CONFIG_MODE_MAGIC,
};
use otteramp_dsp::drivers::encoder::EncoderEvent;
use otteramp_dsp::drivers::settings::PersistedSettings;
use otteramp_dsp::gui::canvas::Canvas;
use otteramp_dsp::gui::display::Sh1106;
use otteramp_dsp::gui::screens::{AppState, ScreenId};
use otteramp_dsp::gui::widgets::{AudioSource, SignalStatus};

fn ui() -> Ui {
    Ui::new(PersistedSettings { volume: 40, muted: false })
}

#[test]
fn encoder_events_are_reported() {
    assert_eq!(encoder_update(EncoderEvent::Increment), Some(AppStateUpdate::EncoderRotate(1)));
    assert_eq!(encoder_update(EncoderEvent::Decrement), Some(AppStateUpdate::EncoderRotate(-1)));
    assert_eq!(encoder_update(EncoderEvent::Press), None);
    assert_eq!(encoder_update(EncoderEvent::Release), Some(AppStateUpdate::EncoderPress));
    assert_eq!(encoder_update(EncoderEvent::LongPress), Some(AppStateUpdate::EncoderLongPress));
}

#[test]
fn last_connected_source_wins() {
    let mut arbiter = SourceArbiter::new(false);
    assert_eq!(arbiter.update(false, false), None);
    let change = arbiter.update(true, false).unwrap();
    assert_eq!((change.source, change.code, change.rate), (AudioSource::Spdif, SOURCE_SPDIF, None));
    let change = arbiter.update(true, true).unwrap();
    assert_eq!(
        (change.source, change.code, change.rate),
        (AudioSource::Usb, SOURCE_USB, Some(96_000))
    );
    assert_eq!(arbiter.update(true, true), None);
    let change = arbiter.update(true, false).unwrap();
    assert_eq!(change.source, AudioSource::Spdif);
    let change = arbiter.update(false, false).unwrap();
    assert_eq!(
        (change.source, change.code, change.rate),
        (AudioSource::LineIn, SOURCE_LINEIN, Some(96_000))
    );
    arbiter.update(true, true);
    assert_eq!(arbiter.update(false, true).unwrap().source, AudioSource::Usb);
    assert_eq!(arbiter.update(false, false).unwrap().source, AudioSource::LineIn);
    // Both at once: USB is looked at last.
    assert_eq!(arbiter.update(true, true).unwrap().source, AudioSource::Usb);
    assert_eq!(arbiter.update(false, false).unwrap().source, AudioSource::LineIn);
}

#[test]
fn usb_at_start() {
    assert_eq!(boot_source(false), None);
    assert_eq!(boot_source(true).unwrap().code, SOURCE_USB);
    assert_eq!(SourceArbiter::new(true).update(false, true), None);
    let mut ui = ui();
    assert_eq!(ui.state().source, AudioSource::LineIn);
    ui.start_with_usb();
    assert_eq!(ui.state().source, AudioSource::Usb);
}

const QUIET: Levels = Levels { raw_left: 0, raw_right: 0, left: 0, right: 0 };

#[test]
fn levels_are_looked_at_every_thirty_passes() {
    let mut meter = Meter::new();
    for _ in 0..3 {
        for _ in 0..29 {
            assert!(!meter.tick());
        }
        assert!(meter.tick());
    }
}

#[test]
fn peaks_decay_slowly() {
    let mut meter = Meter::new();
    let mut state = AppState::default();
    let loud = Levels { raw_left: 9, raw_right: 8, left: 80, right: 20 };
    assert!(meter.measure(loud, &mut state));
    assert_eq!(state.signal_status, SignalStatus::Present);
    assert_eq!((state.level_left, state.peak_left, state.peak_right), (80, 80, 20));
    assert!(meter.measure(QUIET, &mut state));
    assert_eq!(state.signal_status, SignalStatus::NoSignal);
    assert_eq!((state.level_left, state.peak_left, state.peak_right), (0, 79, 19));
    assert!(!meter.measure(QUIET, &mut state));
    assert_eq!(state.peak_left, 79);
    meter.measure(QUIET, &mut state);
    assert_eq!(state.peak_left, 78);
}

#[test]
fn clip_warning_is_held() {
    let mut meter = Meter::new();
    let mut state = AppState::default();
    let clip = Levels { raw_left: 0, raw_right: CLIP_LEVEL + 1, left: 0, right: 100 };
    let edge = Levels { raw_left: CLIP_LEVEL, raw_right: 0, left: 99, right: 0 };
    meter.measure(edge, &mut state);
    assert!(!state.clipping);
    meter.measure(clip, &mut state);
    assert_eq!(state.signal_status, SignalStatus::Clip);
    let mut flashes = 0;
    let mut last = state.clip_flash;
    for _ in 0..32 {
        meter.measure(QUIET, &mut state);
        assert!(state.clipping);
        if state.clip_flash != last {
            flashes += 1;
            last = state.clip_flash;
        }
    }
    assert_eq!(flashes, 5);
    meter.measure(QUIET, &mut state);
    assert!(!state.clipping && !state.clip_flash);
    assert_eq!(state.signal_status, SignalStatus::NoSignal);
}

#[test]
fn volume_is_turned_and_saved() {
    let mut ui = ui();
    let effect = ui.handle_update(AppStateUpdate::EncoderRotate(1), 1_000);
    assert_eq!(effect.amp, Some(AmpCommand::SetVolume(42)));
    assert!(!effect.restart);
    assert_eq!(ui.save_due(2_000_999), None);
    // A later change puts the save off.
    ui.handle_update(AppStateUpdate::EncoderRotate(-1), 1_000_000);
    assert_eq!(ui.save_due(2_001_000), None);
    assert_eq!(
        ui.save_due(3_000_000),
        Some(PersistedSettings { volume: 40, muted: false })
    );
    assert_eq!(ui.save_due(9_000_000), None);
}

#[test]
fn host_controls_volume() {
    let mut ui = ui();
    let effect = ui.handle_update(AppStateUpdate::VolumeChanged(70), 0);
    assert_eq!(effect.amp, Some(AmpCommand::SetVolume(70)));
    let effect = ui.handle_update(AppStateUpdate::MuteToggled(true), 0);
    assert_eq!(effect.amp, Some(AmpCommand::Mute));
    let effect = ui.handle_update(AppStateUpdate::MuteToggled(false), 0);
    assert_eq!(effect.amp, Some(AmpCommand::Unmute));
    assert_eq!(ui.state().volume, 70);
    assert_eq!(
        ui.save_due(2_000_000),
        Some(PersistedSettings { volume: 70, muted: false })
    );
}

#[test]
fn mute_is_toggled() {
    let mut ui = ui();
    let effect = ui.handle_update(AppStateUpdate::EncoderLongPress, 0);
    assert_eq!(effect.amp, Some(AmpCommand::Mute));
    assert!(ui.state().muted);
    let effect = ui.handle_update(AppStateUpdate::EncoderLongPress, 0);
    assert_eq!(effect.amp, Some(AmpCommand::Unmute));
    assert!(!ui.state().muted);
}

#[test]
fn menus_are_walked() {
    let mut ui = ui();
    let turn = AppStateUpdate::EncoderRotate(1);
    ui.handle_update(AppStateUpdate::EncoderPress, 0);
    assert_eq!(ui.screen(), ScreenId::MainMenu);
    // Every second tick counts.
    ui.handle_update(turn, 0);
    ui.handle_update(turn, 0);
    ui.handle_update(turn, 0);
    let effect = ui.handle_update(AppStateUpdate::EncoderPress, 0);
    assert_eq!(effect.amp, None);
    assert_eq!(ui.screen(), ScreenId::SourceSelect);
    ui.handle_update(turn, 0);
    ui.handle_update(turn, 0);
    ui.handle_update(AppStateUpdate::EncoderPress, 0);
    assert_eq!(ui.state().source, AudioSource::LineIn);
    assert!(ui.state().source_locked);
    ui.handle_update(AppStateUpdate::EncoderLongPress, 0);
    assert_eq!(ui.screen(), ScreenId::Home);
    assert_eq!(ui.save_due(u64::MAX), None);
}

#[test]
fn changes_are_drawn() {
    let mut ui = ui();
    let mut canvas = Canvas::new();
    ui.redraw(&mut canvas);
    let full = canvas.ops.len();
    assert!(full > 10);
    ui.redraw(&mut canvas);
    assert_eq!(canvas.ops.len(), full);
    // The volume alone: clear the area, write the number.
    ui.handle_update(AppStateUpdate::EncoderRotate(1), 0);
    let mut canvas = Canvas::new();
    ui.redraw(&mut canvas);
    assert_eq!(canvas.ops.len(), 2);
    ui.handle_update(AppStateUpdate::SampleRateChanged(44_100), 0);
    assert_eq!(ui.state().sample_rate, 44_100);
    let mut canvas = Canvas::new();
    ui.redraw(&mut canvas);
    assert_eq!(canvas.ops.len(), full);
    ui.handle_update(AppStateUpdate::SignalDetected(false), 0);
    let mut canvas = Canvas::new();
    ui.redraw(&mut canvas);
    assert_eq!(canvas.ops.len(), full);
    for update in [AppStateUpdate::EncoderPress, AppStateUpdate::SourceChanged(AudioSource::Usb)] {
        ui.handle_update(update, 0);
        let mut canvas = Canvas::new();
        ui.redraw(&mut canvas);
        assert_eq!(canvas.ops.len(), 7);
    }
}

#[test]
fn source_changes_are_shown() {
    let mut ui = ui();
    let mut arbiter = SourceArbiter::new(false);
    ui.handle_update(AppStateUpdate::SampleRateChanged(192_000), 0);
    ui.switch_source(arbiter.update(true, false).unwrap());
    assert_eq!(ui.state().source, AudioSource::Spdif);
    assert_eq!(ui.state().sample_rate, 192_000);
    ui.switch_source(arbiter.update(false, false).unwrap());
    assert_eq!(ui.state().sample_rate, 96_000);
}

#[test]
fn meters_are_drawn_on_the_home_screen() {
    let mut ui = ui();
    let mut meter = Meter::new();
    let mut canvas = Canvas::new();
    ui.redraw(&mut canvas);
    let level = Levels { raw_left: 5, raw_right: 5, left: 50, right: 50 };
    let mut canvas = Canvas::new();
    ui.meter(&mut meter, level, &mut canvas);
    // Two areas cleared, two bars and two peaks.
    assert_eq!(canvas.ops.len(), 6);
    let clip = Levels { raw_left: u32::MAX, raw_right: 5, left: 50, right: 50 };
    for i in 1..=6 {
        let mut canvas = Canvas::new();
        ui.meter(&mut meter, clip, &mut canvas);
        assert_eq!(canvas.ops.len(), if i == 6 { 9 } else { 6 });
    }
    ui.handle_update(AppStateUpdate::EncoderPress, 0);
    let mut canvas = Canvas::new();
    ui.meter(&mut meter, level, &mut canvas);
    assert!(canvas.ops.is_empty());
    assert_eq!(ui.state().level_left, 50);
}

#[test]
fn config_requests() {
    assert!(is_config_request(CONFIG_MODE_MAGIC));
    assert!(!is_config_request(0));
}

#[test]
fn screens_are_shown() {
    let mut ui = ui();
    let mut display = Sh1106::new();
    display.flush();
    ui.show(&mut display);
    assert_eq!(display.flush().len(), 8);
    // The rule under the status bar.
    assert!((0..128).all(|x| display.page_data(1)[x + 1] & 0x20 != 0));
    ui.show(&mut display);
    assert!(!display.has_dirty_pages());
    let mut meter = Meter::new();
    let level = Levels { raw_left: 5, raw_right: 5, left: 50, right: 50 };
    ui.show_meter(&mut meter, level, &mut display);
    assert_eq!(display.flush(), vec![2, 3]);
    ui.handle_update(AppStateUpdate::EncoderRotate(1), 0);
    ui.show(&mut display);
    assert_eq!(display.flush(), vec![3, 4, 5, 6]);
    ui.handle_update(AppStateUpdate::EncoderPress, 0);
    ui.show_meter(&mut meter, level, &mut display);
    assert!(!display.has_dirty_pages());
    ui.show(&mut display);
    assert_eq!(display.flush().len(), 8);
    assert!((0..128).all(|x| display.page_data(2)[x + 1] != 0));
}
