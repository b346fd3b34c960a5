use otteramp_dsp::gui::canvas::{Align, Area, Canvas, Caption, DrawOp, Font};
use otteramp_dsp::gui::clear_display;
use otteramp_dsp::gui::display::Sh1106;
use otteramp_dsp::gui::menu::{
    create_main_menu, create_source_menu, Menu, MenuAction, MenuItem, MAX_MENU_ITEMS,
};
use otteramp_dsp::gui::render::{draw_canvas, draw_figure, is_drawable};
use otteramp_dsp::gui::screens::{
    AppState, BootScreen, EqualizerScreen, HomeScreen, MainMenuScreen, ScreenAction, ScreenId,
    SettingsScreen, SourceSelectScreen,
};
use otteramp_dsp::gui::widgets::{
    AudioSource, ClipWarning, LargeVolumeDisplay, LevelMeter, ProgressBar, SignalStatus,
    SourceIndicator, StatusBar, VolumeBar,
};

fn rect(area: &Area) -> String {
    format!("{},{} {}x{}", area.x, area.y, area.width, area.height)
}

fn describe(op: &DrawOp) -> String {
    match op {
        DrawOp::Fill { area, on } => format!("{} {}", if *on { "fill" } else { "dark" }, rect(area)),
        DrawOp::Outline { area } => format!("box {}", rect(area)),
        DrawOp::Rounded { area, radius } => format!("round {} {}", radius, rect(area)),
        DrawOp::Clear { area } => format!("clear {}", rect(area)),
        DrawOp::Text { caption, x, y, font, align, on } => {
            let text = match caption {
                Caption::Label(label) => label.to_string(),
                Caption::Percent(text) => text.as_str().to_string(),
                Caption::Rate(text) => text.as_str().to_string(),
            };
            let align = match align {
                Align::Left => "left",
                Align::Center => "center",
                Align::Right => "right",
            };
            let font = match font {
                Font::Small => "small",
                Font::Normal => "normal",
                Font::Title => "title",
                Font::Large => "large",
            };
            format!("{:?} {},{} {} {} {}", text, x, y, align, font, if *on { "on" } else { "off" })
        }
    }
}

fn described(canvas: &Canvas) -> Vec<String> {
    canvas.ops.iter().map(describe).collect()
}

#[test]
fn status_bars() {
    let mut canvas = Canvas::new();
    StatusBar::new(AudioSource::Spdif, 192_000, SignalStatus::Present).draw(&mut canvas);
    assert_eq!(
        described(&canvas),
        vec![
            "\"S/PDIF\" 2,10 left normal on",
            "\"192kHz\" 64,10 center normal on",
            "\"SIG OK\" 126,10 right normal on",
            "fill 0,13 128x1",
        ]
    );
    for (rate, text) in [(44_100, "44.1kHz"), (88_200, "88kHz"), (0, "0kHz"), (u32::MAX, "4294967kHz")] {
        let mut canvas = Canvas::new();
        StatusBar::new(AudioSource::NoSource, rate, SignalStatus::Clip).draw(&mut canvas);
        assert_eq!(described(&canvas)[1], format!("{:?} 64,10 center normal on", text));
        assert_eq!(described(&canvas)[2], "\"CLIP\" 126,10 right normal on");
    }
    let mut canvas = Canvas::new();
    StatusBar::new(AudioSource::LineIn, 96_000, SignalStatus::NoSignal).draw(&mut canvas);
    assert_eq!(described(&canvas)[0], "\"LINE\" 2,10 left normal on");
    assert_eq!(described(&canvas)[2], "\"NO SIG\" 126,10 right normal on");
}

#[test]
fn source_names() {
    assert_eq!(AudioSource::LineIn.name(), "LINE IN");
    assert_eq!(AudioSource::Usb.name(), "USB");
    assert_eq!(AudioSource::NoSource.name(), "---");
    assert_eq!(AudioSource::LineIn.short_name(), "LINE");
    assert_eq!(AudioSource::Spdif.short_name(), "S/PDIF");
}

#[test]
fn volume_bars() {
    let mut canvas = Canvas::new();
    VolumeBar::new(55, false).draw(&mut canvas, 4, 10);
    assert_eq!(
        described(&canvas),
        vec![
            "\"VOL\" 4,26 left normal on",
            "round 3 18,18 104x16",
            "fill 20,20 55x12",
            "\"55%\" 124,26 right normal on",
        ]
    );
    let mut canvas = Canvas::new();
    VolumeBar::new(55, true).draw(&mut canvas, 0, 0);
    assert_eq!(
        described(&canvas),
        vec![
            "\"VOL\" 0,16 left normal on",
            "round 3 14,8 104x16",
            "\"MUTE\" 66,19 center normal on",
            "\"---\" 120,16 right normal on",
        ]
    );
    let mut canvas = Canvas::new();
    VolumeBar::new(0, false).draw(&mut canvas, 0, 0);
    assert_eq!(canvas.ops.len(), 3);
    assert_eq!(described(&canvas)[2], "\"0%\" 120,16 right normal on");
}

#[test]
fn source_indicators() {
    let mut canvas = Canvas::new();
    SourceIndicator::new(AudioSource::Usb, true).draw(&mut canvas, 1, 2);
    SourceIndicator::new(AudioSource::LineIn, false).draw(&mut canvas, 1, 2);
    assert_eq!(
        described(&canvas),
        vec![
            "\"USB\" 1,12 left normal on",
            "fill 51,6 6x6",
            "\"LINE IN\" 1,12 left normal on",
            "box 51,6 6x6",
        ]
    );
}

#[test]
fn large_volumes() {
    let mut canvas = Canvas::new();
    LargeVolumeDisplay::new(100, false).draw(&mut canvas);
    LargeVolumeDisplay::new(7, false).draw_at(&mut canvas, 48);
    LargeVolumeDisplay::new(255, false).draw_at(&mut canvas, 48);
    LargeVolumeDisplay::new(7, true).draw_at(&mut canvas, 48);
    assert_eq!(
        described(&canvas),
        vec![
            "\"100%\" 64,42 center large on",
            "\"7%\" 64,48 center large on",
            "\"255%\" 64,48 center large on",
            "\"MUTE\" 64,48 center large on",
        ]
    );
}

#[test]
fn level_meters() {
    let mut canvas = Canvas::new();
    LevelMeter::new(50, 0, 75, 100).draw(&mut canvas, 15);
    assert_eq!(
        described(&canvas),
        vec![
            "\"L\" 2,20 left small on",
            "box 10,15 116x6",
            "fill 11,16 57x4",
            "fill 96,16 1x4",
            "\"R\" 2,27 left small on",
            "box 10,22 116x6",
            "fill 124,23 1x4",
        ]
    );
    let mut canvas = Canvas::new();
    LevelMeter::new(100, 1, 0, 0).draw_fills(&mut canvas, 15);
    assert_eq!(described(&canvas), vec!["fill 11,16 114x4", "fill 11,23 1x4"]);
}

#[test]
fn clip_warnings_and_progress() {
    let mut canvas = Canvas::new();
    ClipWarning::draw(&mut canvas, 43);
    ProgressBar::new(20, "Init amp...").draw(&mut canvas, 48);
    ProgressBar::new(0, "x").draw(&mut canvas, 48);
    assert_eq!(
        described(&canvas),
        vec![
            "fill 34,31 60x24",
            "\"CLIP\" 64,49 center large off",
            "\"Init amp...\" 64,48 center normal on",
            "box 12,52 104x12",
            "fill 14,54 20x8",
            "\"x\" 64,48 center normal on",
            "box 12,52 104x12",
        ]
    );
}

#[test]
fn home_screen() {
    let mut screen = HomeScreen::new();
    let mut state = AppState::default();
    let mut canvas = Canvas::new();
    screen.draw(&mut canvas, &state);
    let lines = described(&canvas);
    assert_eq!(lines[0], "dark 0,0 128x64");
    assert_eq!(lines[1], "\"---\" 2,10 left normal on");
    assert_eq!(lines[lines.len() - 2], "\"50%\" 64,48 center large on");
    assert_eq!(lines[lines.len() - 1], "\"Press for menu\" 64,62 center normal on");

    state.clipping = true;
    state.clip_flash = true;
    state.level_left = 10;
    let mut canvas = Canvas::new();
    screen.draw_meters(&mut canvas, &state);
    screen.draw_clip_region(&mut canvas, &state);
    assert_eq!(
        described(&canvas),
        vec![
            "clear 11,16 114x4",
            "clear 11,23 114x4",
            "fill 11,16 11x4",
            "clear 0,30 128x26",
            "fill 34,31 60x24",
            "\"CLIP\" 64,49 center large off",
        ]
    );

    assert_eq!(screen.on_encoder_rotate(1, &mut state), Some(ScreenAction::UpdateVolume(52)));
    assert_eq!(state.volume, 52);
    assert_eq!(screen.on_encoder_rotate(-1, &mut state), Some(ScreenAction::UpdateVolume(50)));
    state.volume = 99;
    assert_eq!(screen.on_encoder_rotate(1, &mut state), Some(ScreenAction::UpdateVolume(100)));
    assert_eq!(screen.on_encoder_rotate(1, &mut state), None);
    state.volume = 1;
    assert_eq!(screen.on_encoder_rotate(-1, &mut state), Some(ScreenAction::UpdateVolume(0)));
    assert_eq!(screen.on_encoder_rotate(-1, &mut state), None);
    assert_eq!(
        screen.on_encoder_press(&mut state),
        Some(ScreenAction::GoTo(ScreenId::MainMenu))
    );
    assert_eq!(screen.on_encoder_long_press(&mut state), Some(ScreenAction::ToggleMute));
}

#[test]
fn main_menu_screen() {
    let mut screen = MainMenuScreen::new();
    let mut state = AppState::default();
    let mut canvas = Canvas::new();
    screen.draw(&mut canvas, &state);
    assert_eq!(
        described(&canvas),
        vec![
            "dark 0,0 128x64",
            "\"MENU\" 64,12 center title on",
            "fill 0,16 128x12",
            "\"Volume\" 4,26 left normal off",
            "\"Source\" 4,38 left normal on",
            "\"EQ\" 4,50 left normal on",
            "\"Settings\" 4,62 left normal on",
        ]
    );
    assert_eq!(screen.on_encoder_press(&mut state), Some(ScreenAction::GoTo(ScreenId::Home)));
    assert_eq!(screen.on_encoder_rotate(-1, &mut state), Some(ScreenAction::Refresh));
    let mut seen = Vec::new();
    for _ in 0..4 {
        seen.push(screen.on_encoder_press(&mut state));
        screen.on_encoder_rotate(1, &mut state);
    }
    assert_eq!(
        seen,
        vec![
            Some(ScreenAction::GoTo(ScreenId::Home)),
            Some(ScreenAction::GoTo(ScreenId::SourceSelect)),
            Some(ScreenAction::GoTo(ScreenId::Equalizer)),
            Some(ScreenAction::GoTo(ScreenId::Settings)),
        ]
    );
    assert_eq!(
        screen.on_encoder_long_press(&mut state),
        Some(ScreenAction::GoTo(ScreenId::Home))
    );
}

#[test]
fn source_screen() {
    let mut screen = SourceSelectScreen::new();
    let mut state = AppState::default();
    assert_eq!(
        screen.on_encoder_press(&mut state),
        Some(ScreenAction::ChangeSource(AudioSource::NoSource))
    );
    assert!(!state.source_locked);
    for _ in 0..3 {
        assert_eq!(screen.on_encoder_rotate(1, &mut state), Some(ScreenAction::Refresh));
    }
    assert_eq!(
        screen.on_encoder_press(&mut state),
        Some(ScreenAction::ChangeSource(AudioSource::Usb))
    );
    assert_eq!(state.source, AudioSource::Usb);
    assert!(state.source_locked);
    screen.on_encoder_rotate(1, &mut state);
    let mut canvas = Canvas::new();
    screen.draw(&mut canvas, &state);
    let lines = described(&canvas);
    assert_eq!(lines[1], "\"SOURCE\" 64,12 center title on");
    assert_eq!(lines[2], "\"Line In\" 4,26 left normal on");
    assert_eq!(lines[5], "fill 0,52 128x12");
    assert_eq!(lines[6], "\"< Back\" 4,62 left normal off");
    assert_eq!(lines[7], "\"^\" 120,24 left normal on");
    assert_eq!(
        screen.on_encoder_press(&mut state),
        Some(ScreenAction::GoTo(ScreenId::MainMenu))
    );
    assert_eq!(
        screen.on_encoder_long_press(&mut state),
        Some(ScreenAction::GoTo(ScreenId::Home))
    );
}

#[test]
fn boot_and_placeholder_screens() {
    let state = AppState::default();
    let mut boot = BootScreen::new();
    let mut canvas = Canvas::new();
    boot.draw(&mut canvas, &state);
    assert_eq!(
        described(&canvas),
        vec![
            "dark 0,0 128x64",
            "\"OtterAmp\" 64,12 center title on",
            "\"Active Speaker System\" 64,24 center normal on",
            "\"by Faited & Lucia\" 64,34 center normal on",
            "\"Starting...\" 64,48 center normal on",
            "box 12,52 104x12",
        ]
    );
    boot.set_progress(100, "Ready!");
    let mut canvas = Canvas::new();
    boot.draw(&mut canvas, &state);
    assert_eq!(described(&canvas)[6], "fill 14,54 100x8");

    let mut state = state;
    let mut canvas = Canvas::new();
    let mut equalizer = EqualizerScreen::new();
    equalizer.draw(&mut canvas, &state);
    assert_eq!(
        described(&canvas),
        vec![
            "dark 0,0 128x64",
            "\"EQUALIZER\" 64,12 center title on",
            "\"Coming soon...\" 64,36 center normal on",
            "\"Press to go back\" 64,56 center normal on",
        ]
    );
    assert_eq!(equalizer.on_encoder_rotate(1, &mut state), None);
    assert_eq!(
        equalizer.on_encoder_press(&mut state),
        Some(ScreenAction::GoTo(ScreenId::MainMenu))
    );
    let mut settings = SettingsScreen::new();
    let mut canvas = Canvas::new();
    settings.draw(&mut canvas, &state);
    assert_eq!(described(&canvas)[1], "\"SETTINGS\" 64,12 center title on");
    assert_eq!(
        settings.on_encoder_long_press(&mut state),
        Some(ScreenAction::GoTo(ScreenId::Home))
    );
}

#[test]
fn menus() {
    let mut menu = Menu::new("Test");
    assert_eq!(menu.title(), "Test");
    assert!(menu.is_empty());
    assert!(menu.selected_item().is_none());
    assert_eq!(menu.selected_action(), MenuAction::NoAction);
    menu.select_next();
    menu.select_previous();
    assert_eq!(menu.selected_index(), 0);
    for _ in 0..10 {
        menu.add_item(MenuItem::new("Item", MenuAction::Back));
    }
    assert_eq!(menu.len(), MAX_MENU_ITEMS);
    for _ in 0..10 {
        menu.select_next();
    }
    assert_eq!(menu.selected_index(), 7);
    let mut canvas = Canvas::new();
    menu.draw(&mut canvas, 16);
    let lines = described(&canvas);
    assert_eq!(lines.len(), 6);
    assert_eq!(lines[3], "fill 0,52 128x12");
    assert_eq!(lines[5], "\"^\" 120,24 left normal on");
    menu.set_selected(3);
    assert_eq!(menu.selected_index(), 3);
    menu.set_selected(8);
    assert_eq!(menu.selected_index(), 3);
    menu.set_selected(0);
    let mut canvas = Canvas::new();
    menu.draw(&mut canvas, 16);
    assert_eq!(described(&canvas)[5], "\"v\" 120,60 left normal on");
    menu.clear();
    assert_eq!(menu.len(), 0);
    menu.add_item(MenuItem::disabled("Off", MenuAction::ToggleMute));
    assert_eq!(menu.selected_action(), MenuAction::NoAction);
    assert_eq!(menu.selected_item().unwrap().label, "Off");
}

#[test]
fn menu_contents() {
    let menu = create_main_menu();
    assert_eq!((menu.title(), menu.len()), ("Menu", 4));
    assert_eq!(menu.selected_action(), MenuAction::AdjustVolume);
    let mut menu = create_source_menu();
    assert_eq!((menu.title(), menu.len()), ("Source", 5));
    menu.set_selected(2);
    assert_eq!(menu.selected_action(), MenuAction::SelectSource(AudioSource::Spdif));
    menu.set_selected(4);
    assert_eq!(menu.selected_action(), MenuAction::Back);
    menu.clear();
    assert_eq!((menu.title(), menu.len()), ("Source", 0));
}

#[test]
fn menu_screens_keep_their_titles() {
    let mut state = AppState::default();
    let mut main_menu = MainMenuScreen::new();
    let mut sources = SourceSelectScreen::new();
    for direction in [1, 1, -1] {
        main_menu.on_encoder_rotate(direction, &mut state);
        sources.on_encoder_rotate(direction, &mut state);
        assert_eq!((main_menu.menu.title(), sources.menu.title()), ("Menu", "Source"));
    }
}

#[test]
fn widgets_reach_the_ends_of_the_range() {
    let mut canvas = Canvas::new();
    VolumeBar::new(50, false).draw(&mut canvas, i32::MAX - 120, i32::MAX - 16);
    VolumeBar::new(50, true).draw(&mut canvas, i32::MIN, i32::MAX - 19);
    LevelMeter::new(1, 2, 3, 4).draw(&mut canvas, i32::MAX - 12);
    ClipWarning::draw(&mut canvas, i32::MIN + 12);
    create_main_menu().draw(&mut canvas, i32::MAX - 46);
    Menu::new("").draw(&mut canvas, i32::MAX);
    assert!(!canvas.ops.is_empty());
}

#[test]
fn display_is_cleared() {
    let mut canvas = Canvas::new();
    clear_display(&mut canvas);
    assert_eq!(described(&canvas), vec!["dark 0,0 128x64"]);
}

#[test]
fn display_commands() {
    let mut messages = Vec::new();
    let mut i = 0;
    while let Some(message) = Sh1106::init_message(i) {
        messages.push(message);
        i += 1;
    }
    assert_eq!(messages.len(), 16);
    assert_eq!(messages[0], vec![0x00, 0xAE]);
    assert_eq!(messages[1], vec![0x00, 0xD5, 0x80]);
    assert_eq!(messages[10], vec![0x00, 0x81, 0xCF]);
    assert_eq!(messages[15], vec![0x00, 0xAF]);
    let mut display = Sh1106::new();
    assert_eq!(display.disable_display(), None);
    assert_eq!(display.enable_display(), Some(0xAF));
    assert_eq!(display.enable_display(), None);
    assert_eq!(display.disable_display(), Some(0xAE));
    display.initialized();
    assert_eq!(display.enable_display(), None);
}

#[test]
fn dirty_pages_are_flushed() {
    let mut display = Sh1106::new();
    assert!(display.has_dirty_pages());
    assert_eq!(display.flush(), vec![0, 1, 2, 3, 4, 5, 6, 7]);
    assert!(!display.has_dirty_pages());
    assert!(display.flush().is_empty());
    assert_eq!(display.flush_one_page(), None);
    display.set_pixel(5, 17, true);
    display.set_pixel(127, 63, true);
    display.set_pixel(-1, 0, true);
    display.set_pixel(128, 0, true);
    display.set_pixel(0, 64, true);
    assert_eq!(display.flush_one_page(), Some(2));
    assert_eq!(display.flush(), vec![7]);
    let data = display.page_data(2);
    assert_eq!(data.len(), 129);
    assert_eq!(data[0], 0x40);
    assert_eq!(data[6], 0x02);
    assert_eq!(data[5], 0x00);
    assert_eq!(display.page_data(7)[128], 0x80);
    let command: Vec<u8> = Sh1106::page_command(3).to_vec();
    assert_eq!(command, vec![0x00, 0xB3, 0x02, 0x10]);
    display.set_pixel(5, 17, false);
    assert_eq!(display.page_data(2)[6], 0);
    assert_eq!(display.flush_all().len(), 8);
}

#[test]
fn regions_are_cleared() {
    let mut display = Sh1106::new();
    display.clear_all(true);
    display.flush();
    display.clear_region(126, 15, 10, 2);
    assert_eq!(display.flush(), vec![1, 2]);
    let data = display.page_data(1);
    assert_eq!((data[126], data[127], data[128]), (0xFF, 0x7F, 0x7F));
    let data = display.page_data(2);
    assert_eq!((data[126], data[127], data[128]), (0xFF, 0xFE, 0xFE));
    display.clear_region(0, 64, 10, 5);
    assert!(!display.has_dirty_pages());
    display.clear_all(false);
    assert_eq!(display.page_data(0)[1], 0);
}

/// Whether a pixel of the frame buffer is lit.
fn pixel(display: &Sh1106, x: usize, y: usize) -> bool {
    display.page_data((y / 8) as u8)[x + 1] >> (y % 8) & 1 == 1
}

/// A part of the frame buffer as lines of text.
fn picture(display: &Sh1106, x: usize, y: usize, width: usize, height: usize) -> Vec<String> {
    (y..y + height)
        .map(|row| {
            (x..x + width).map(|col| if pixel(display, col, row) { '#' } else { '.' }).collect()
        })
        .collect()
}

#[test]
fn rectangles_are_rendered() {
    let mut display = Sh1106::new();
    display.flush();
    let mut canvas = Canvas::new();
    canvas.outline(1, 1, 5, 4);
    canvas.fill(7, 0, 2, 3);
    draw_canvas(&mut display, &canvas);
    assert_eq!(
        picture(&display, 0, 0, 10, 6),
        vec![".......##.", ".#####.##.", ".#...#.##.", ".#...#....", ".#####....", ".........."]
    );
    assert_eq!(display.flush(), vec![0]);
    // Outside the display nothing is drawn.
    let mut canvas = Canvas::new();
    canvas.fill(-3, 60, 5, 100);
    canvas.outline(126, -5, 10, 7);
    canvas.fill(200, 0, 5, 5);
    canvas.fill(i32::MIN, i32::MIN, u32::MAX, 5);
    draw_canvas(&mut display, &canvas);
    assert_eq!(display.flush(), vec![0, 7]);
    assert_eq!(
        picture(&display, 0, 59, 4, 5),
        vec!["....", "##..", "##..", "##..", "##.."]
    );
    assert_eq!(picture(&display, 124, 0, 4, 3), vec!["..#.", "..##", "...."]);
}

#[test]
fn outlines_of_thin_rectangles() {
    for (width, height) in [(1u32, 1u32), (1, 5), (4, 1), (2, 2), (0, 4), (3, 0)] {
        let mut display = Sh1106::new();
        let mut canvas = Canvas::new();
        canvas.outline(3, 3, width, height);
        draw_canvas(&mut display, &canvas);
        let lit = (0..64 * 128).filter(|i| pixel(&display, i % 128, i / 128)).count();
        assert_eq!(lit as u32, width * height);
    }
}

#[test]
fn texts_are_rendered() {
    let mut display = Sh1106::new();
    let mut canvas = Canvas::new();
    canvas.text_in("L", 2, 20, Font::Small, Align::Left, true);
    draw_canvas(&mut display, &canvas);
    assert_eq!(
        picture(&display, 2, 14, 6, 9),
        vec![
            "......", ".#....", ".#....", ".#....", ".#....", ".#....", ".####.", "......", "......",
        ]
    );
    // Dark on lit, the same glyph.
    let mut inverse = Sh1106::new();
    inverse.clear_all(true);
    let mut canvas = Canvas::new();
    canvas.text_in("L", 2, 20, Font::Small, Align::Left, false);
    draw_canvas(&mut inverse, &canvas);
    for y in 0..64 {
        for x in 0..128 {
            assert_eq!(pixel(&display, x, y), !pixel(&inverse, x, y));
        }
    }
}

/// Columns and rows that the lit pixels span.
fn extent(display: &Sh1106) -> (usize, usize, usize, usize) {
    let lit: Vec<(usize, usize)> = (0..64 * 128)
        .map(|i| (i % 128, i / 128))
        .filter(|p| pixel(display, p.0, p.1))
        .collect();
    (
        lit.iter().map(|p| p.0).min().unwrap(),
        lit.iter().map(|p| p.0).max().unwrap(),
        lit.iter().map(|p| p.1).min().unwrap(),
        lit.iter().map(|p| p.1).max().unwrap(),
    )
}

#[test]
fn texts_keep_to_their_cells() {
    for (font, width, height, baseline) in [
        (Font::Small, 6usize, 9usize, 6usize),
        (Font::Normal, 6, 10, 7),
        (Font::Title, 9, 15, 11),
        (Font::Large, 10, 20, 15),
    ] {
        for (label, align, left, chars) in [
            ("#Qgj|", Align::Left, 50usize, 5usize),
            ("#Qgj|", Align::Center, 50 - (5 * width - 1) / 2, 5),
            ("#Qgj", Align::Right, 50 + 1 - 4 * width, 4),
        ] {
            let mut display = Sh1106::new();
            let mut canvas = Canvas::new();
            canvas.text_in(label, 50, 30, font, align, true);
            draw_canvas(&mut display, &canvas);
            let (x0, x1, y0, y1) = extent(&display);
            assert!(x0 >= left && x1 < left + chars * width);
            assert!(y0 >= 30 - baseline && y1 < 30 - baseline + height);
        }
    }
}

#[test]
fn rounded_corners_are_rendered() {
    let mut display = Sh1106::new();
    let area = Area { x: 2, y: 3, width: 10, height: 7 };
    draw_figure(&mut display, &DrawOp::Rounded { area, radius: 3 });
    assert_eq!(extent(&display), (2, 11, 3, 9));
    assert!(!pixel(&display, 2, 3) && !pixel(&display, 11, 9));
    assert!(pixel(&display, 6, 3) && pixel(&display, 2, 6) && !pixel(&display, 6, 6));
}

#[test]
fn figures_out_of_range() {
    let area = Area { x: 2000, y: 3, width: 10, height: 7 };
    assert!(!is_drawable(&DrawOp::Rounded { area, radius: 3 }));
    assert!(is_drawable(&DrawOp::Fill { area, on: true }));
    assert!(is_drawable(&DrawOp::Clear { area }));
    let area = Area { x: -1, y: 3, width: 10, height: 7 };
    assert!(!is_drawable(&DrawOp::Clear { area }));
    let mut canvas = Canvas::new();
    canvas.text("x", 5, 2000, Align::Left);
    canvas.text("x", 5, 20, Align::Left);
    assert!(!is_drawable(&canvas.ops[0]));
    assert!(is_drawable(&canvas.ops[1]));
}

fn rendered(canvas: &Canvas) -> Sh1106 {
    let mut display = Sh1106::new();
    draw_canvas(&mut display, canvas);
    display
}

#[test]
fn meters_are_redrawn_alone() {
    let screen = HomeScreen::new();
    let mut state = AppState::default();
    state.level_left = 80;
    state.level_right = 20;
    state.peak_left = 100;
    state.peak_right = 60;
    let mut canvas = Canvas::new();
    screen.draw(&mut canvas, &state);
    let mut partial = rendered(&canvas);
    partial.flush();
    state.level_left = 3;
    state.level_right = 99;
    state.peak_left = 50;
    state.peak_right = 0;
    let mut canvas = Canvas::new();
    screen.draw_meters(&mut canvas, &state);
    draw_canvas(&mut partial, &canvas);
    let mut canvas = Canvas::new();
    screen.draw(&mut canvas, &state);
    let full = rendered(&canvas);
    assert_eq!(picture(&partial, 0, 0, 128, 64), picture(&full, 0, 0, 128, 64));
    assert_eq!(partial.flush(), vec![2, 3]);
}

#[test]
fn volume_is_redrawn_alone() {
    let screen = HomeScreen::new();
    let mut state = AppState::default();
    let mut canvas = Canvas::new();
    screen.draw(&mut canvas, &state);
    let mut partial = rendered(&canvas);
    partial.flush();
    for (volume, muted, clip) in [(77u8, false, false), (5, true, false), (5, false, true)] {
        state.volume = volume;
        state.muted = muted;
        state.clipping = clip;
        state.clip_flash = clip;
        let mut canvas = Canvas::new();
        screen.draw_clip_region(&mut canvas, &state);
        draw_canvas(&mut partial, &canvas);
        let mut canvas = Canvas::new();
        screen.draw(&mut canvas, &state);
        let full = rendered(&canvas);
        assert_eq!(picture(&partial, 0, 0, 128, 55), picture(&full, 0, 0, 128, 55));
        assert_eq!(picture(&partial, 0, 56, 128, 8), picture(&full, 0, 56, 128, 8));
        assert_eq!(partial.flush(), vec![3, 4, 5, 6]);
    }
}

#[test]
fn portions_are_drawn_like_the_whole() {
    let mut a = Canvas::new();
    a.fill(0, 0, 20, 20);
    a.text_in("ab", 2, 12, Font::Title, Align::Left, false);
    let mut b = Canvas::new();
    b.outline(3, 3, 10, 10);
    let mut parts = rendered(&a);
    draw_canvas(&mut parts, &b);
    a.outline(3, 3, 10, 10);
    assert_eq!(picture(&parts, 0, 0, 30, 30), picture(&rendered(&a), 0, 0, 30, 30));
}
