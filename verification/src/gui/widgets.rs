//! Widgets for the OLED display.

use vstd::prelude::*;

use crate::gui::canvas::{percent_text, rate_text, Align, Area, Canvas, Caption, DrawOp, Font};

verus! {

/// Audio input source.
#[derive(Debug, Clone, Copy, PartialEq, Eq, Structural)]
pub enum AudioSource {
    /// Analog line input.
    LineIn,
    /// S/PDIF digital input.
    Spdif,
    /// USB audio.
    Usb,
    /// No active source.
    NoSource,
}

impl AudioSource {
    pub open spec fn full_name(self) -> Seq<char> {
        match self {
            AudioSource::LineIn => "LINE IN"@,
            AudioSource::Spdif => "S/PDIF"@,
            AudioSource::Usb => "USB"@,
            AudioSource::NoSource => "---"@,
        }
    }

    pub open spec fn brief_name(self) -> Seq<char> {
        match self {
            AudioSource::LineIn => "LINE"@,
            AudioSource::Spdif => "S/PDIF"@,
            AudioSource::Usb => "USB"@,
            AudioSource::NoSource => "---"@,
        }
    }

    pub fn name(&self) -> (name: &'static str)
        ensures
            name@ == self.full_name(),
    {
        match self {
            AudioSource::LineIn => "LINE IN",
            AudioSource::Spdif => "S/PDIF",
            AudioSource::Usb => "USB",
            AudioSource::NoSource => "---",
        }
    }

    pub fn short_name(&self) -> (name: &'static str)
        ensures
            name@ == self.brief_name(),
    {
        match self {
            AudioSource::LineIn => "LINE",
            AudioSource::Spdif => "S/PDIF",
            AudioSource::Usb => "USB",
            AudioSource::NoSource => "---",
        }
    }
}

/// A volume as a percentage.
pub open spec fn percent(volume: u8) -> Seq<char> {
    crate::gui::canvas::decimal_chars(volume as nat).push('%')
}

/// The figure, unless the width is zero.
pub open spec fn bar(x: int, y: int, width: int, height: int) -> Seq<crate::gui::canvas::Figure> {
    if width > 0 {
        seq![crate::gui::canvas::filled(x, y, width, height)]
    } else {
        Seq::empty()
    }
}

fn draw_bar(canvas: &mut Canvas, x: i32, y: i32, width: u32, height: u32)
    ensures
        final(canvas)@ == old(canvas)@ + bar(x as int, y as int, width as int, height as int),
{
    if width > 0 {
        canvas.fill(x, y, width, height);
    }
    assert(canvas@ =~= old(canvas)@ + bar(x as int, y as int, width as int, height as int));
}

/// Horizontal volume bar with percentage.
#[derive(Debug, Clone, Copy, PartialEq, Eq, Structural)]
pub struct VolumeBar {
    /// Volume in percent.
    pub volume: u8,
    pub muted: bool,
}

impl VolumeBar {
    pub fn new(volume: u8, muted: bool) -> (w: Self)
        ensures
            w == (VolumeBar { volume, muted }),
    {
        VolumeBar { volume, muted }
    }

    pub open spec fn figures(self, x: int, y: int) -> Seq<crate::gui::canvas::Figure> {
        seq![
            crate::gui::canvas::plain("VOL"@, x, y + 16, Align::Left),
            crate::gui::canvas::Figure::Rounded {
                area: Area { x: (x + 14) as i32, y: (y + 8) as i32, width: 104, height: 16 },
                radius: 3,
            },
        ] + (if self.muted {
            seq![crate::gui::canvas::plain("MUTE"@, x + 66, y + 19, Align::Center)]
        } else {
            bar(x + 16, y + 10, self.volume as int, 12)
        }) + seq![
            crate::gui::canvas::plain(
                if self.muted {
                    "---"@
                } else {
                    percent(self.volume)
                },
                x + 120,
                y + 16,
                Align::Right,
            ),
        ]
    }

    /// Draws the bar; it takes 120x24 pixels.
    pub fn draw(&self, canvas: &mut Canvas, x: i32, y: i32)
        requires
            x + 120 <= i32::MAX,
            y + (if self.muted {
                19int
            } else {
                16int
            }) <= i32::MAX,
        ensures
            final(canvas)@ == old(canvas)@ + self.figures(x as int, y as int),
    {
        let bar_width: u32 = 100;
        let bar_height: u32 = 12;
        let bar_x: i32 = x + 14;
        let bar_y: i32 = y + 8;
        canvas.text("VOL", x, y + 16, Align::Left);
        canvas.push(
            DrawOp::Rounded {
                area: Area { x: bar_x, y: bar_y, width: bar_width + 4, height: bar_height + 4 },
                radius: 3,
            },
        );
        if self.muted {
            canvas.text("MUTE", bar_x + 52, bar_y + 11, Align::Center);
        } else {
            draw_bar(
                canvas,
                bar_x + 2,
                bar_y + 2,
                (self.volume as u32 * bar_width) / 100,
                bar_height,
            );
        }
        let caption: Caption = if self.muted {
            Caption::Label("---")
        } else {
            Caption::Percent(percent_text(self.volume))
        };
        canvas.push(
            DrawOp::Text {
                caption,
                x: x + 120,
                y: y + 16,
                font: Font::Normal,
                align: Align::Right,
                on: true,
            },
        );
        assert(canvas@ =~= old(canvas)@ + self.figures(x as int, y as int));
    }
}

/// The current audio source with a signal indicator.
#[derive(Debug, Clone, Copy, PartialEq, Eq, Structural)]
pub struct SourceIndicator {
    pub source: AudioSource,
    pub signal_detected: bool,
}

impl SourceIndicator {
    pub fn new(source: AudioSource, signal_detected: bool) -> (w: Self)
        ensures
            w == (SourceIndicator { source, signal_detected }),
    {
        SourceIndicator { source, signal_detected }
    }

    pub open spec fn figures(self, x: int, y: int) -> Seq<crate::gui::canvas::Figure> {
        seq![
            crate::gui::canvas::plain(self.source.full_name(), x, y + 10, Align::Left),
            if self.signal_detected {
                crate::gui::canvas::filled(x + 50, y + 4, 6, 6)
            } else {
                crate::gui::canvas::outlined(x + 50, y + 4, 6, 6)
            },
        ]
    }

    /// Draws the indicator; it takes about 60x12 pixels.
    pub fn draw(&self, canvas: &mut Canvas, x: i32, y: i32)
        requires
            x + 50 <= i32::MAX,
            y + 10 <= i32::MAX,
        ensures
            final(canvas)@ == old(canvas)@ + self.figures(x as int, y as int),
    {
        canvas.text(self.source.name(), x, y + 10, Align::Left);
        if self.signal_detected {
            canvas.fill(x + 50, y + 4, 6, 6);
        } else {
            canvas.outline(x + 50, y + 4, 6, 6);
        }
        assert(canvas@ =~= old(canvas)@ + self.figures(x as int, y as int));
    }
}

/// Signal status for the status bar.
#[derive(Debug, Clone, Copy, PartialEq, Eq, Structural)]
pub enum SignalStatus {
    /// Connected but receiving silence.
    NoSignal,
    /// Signal present.
    Present,
    Clip,
}

impl SignalStatus {
    pub open spec fn label(self) -> Seq<char> {
        match self {
            SignalStatus::NoSignal => "NO SIG"@,
            SignalStatus::Present => "SIG OK"@,
            SignalStatus::Clip => "CLIP"@,
        }
    }
}

/// Status bar at the top of the screen.
#[derive(Debug, Clone, Copy, PartialEq, Eq, Structural)]
pub struct StatusBar {
    pub source: AudioSource,
    pub sample_rate: u32,
    pub signal_status: SignalStatus,
}

/// A sample rate in kHz, rounded down but for 44.1 kHz.
pub open spec fn rate_label(sample_rate: u32) -> Seq<char> {
    if sample_rate == 44100 {
        "44.1kHz"@
    } else {
        crate::gui::canvas::decimal_chars((sample_rate / 1000) as nat).push('k').push('H').push('z')
    }
}

impl StatusBar {
    pub fn new(source: AudioSource, sample_rate: u32, signal_status: SignalStatus) -> (w: Self)
        ensures
            w == (StatusBar { source, sample_rate, signal_status }),
    {
        StatusBar { source, sample_rate, signal_status }
    }

    pub open spec fn figures(self) -> Seq<crate::gui::canvas::Figure> {
        seq![
            crate::gui::canvas::plain(self.source.brief_name(), 2, 10, Align::Left),
            crate::gui::canvas::plain(rate_label(self.sample_rate), 64, 10, Align::Center),
            crate::gui::canvas::plain(self.signal_status.label(), 126, 10, Align::Right),
            crate::gui::canvas::filled(0, 13, 128, 1),
        ]
    }

    /// Draws the bar, full width and 14 pixels high.
    pub fn draw(&self, canvas: &mut Canvas)
        ensures
            final(canvas)@ == old(canvas)@ + self.figures(),
    {
        canvas.text(self.source.short_name(), 2, 10, Align::Left);
        let caption: Caption = if self.sample_rate == 44100 {
            Caption::Label("44.1kHz")
        } else {
            Caption::Rate(rate_text(self.sample_rate / 1000))
        };
        canvas.push(
            DrawOp::Text {
                caption,
                x: 64,
                y: 10,
                font: Font::Normal,
                align: Align::Center,
                on: true,
            },
        );
        let status: &'static str = match self.signal_status {
            SignalStatus::NoSignal => "NO SIG",
            SignalStatus::Present => "SIG OK",
            SignalStatus::Clip => "CLIP",
        };
        canvas.text(status, 126, 10, Align::Right);
        canvas.fill(0, 13, 128, 1);
        assert(canvas@ =~= old(canvas)@ + self.figures());
    }
}

/// Large volume display for the home screen.
#[derive(Debug, Clone, Copy, PartialEq, Eq, Structural)]
pub struct LargeVolumeDisplay {
    pub volume: u8,
    pub muted: bool,
}

impl LargeVolumeDisplay {
    pub fn new(volume: u8, muted: bool) -> (w: Self)
        ensures
            w == (LargeVolumeDisplay { volume, muted }),
    {
        LargeVolumeDisplay { volume, muted }
    }

    pub open spec fn figure(self, y: i32) -> crate::gui::canvas::Figure {
        crate::gui::canvas::Figure::Text {
            text: if self.muted {
                "MUTE"@
            } else {
                percent(self.volume)
            },
            x: 64,
            y,
            font: Font::Large,
            align: Align::Center,
            on: true,
        }
    }

    /// Draws the display at its default position.
    pub fn draw(&self, canvas: &mut Canvas)
        ensures
            final(canvas)@ == old(canvas)@.push(self.figure(42)),
    {
        self.draw_at(canvas, 42)
    }

    /// Draws the display, centred, at another height.
    pub fn draw_at(&self, canvas: &mut Canvas, y: i32)
        ensures
            final(canvas)@ == old(canvas)@.push(self.figure(y)),
    {
        let caption: Caption = if self.muted {
            Caption::Label("MUTE")
        } else {
            Caption::Percent(percent_text(self.volume))
        };
        canvas.push(
            DrawOp::Text { caption, x: 64, y, font: Font::Large, align: Align::Center, on: true },
        );
    }
}

/// Level meter: a bar for each channel, with a line for the held peak.
#[derive(Debug, Clone, Copy, PartialEq, Eq, Structural)]
pub struct LevelMeter {
    pub left_level: u8,
    pub right_level: u8,
    pub left_peak: u8,
    pub right_peak: u8,
}

/// Width of a full meter bar.
pub const METER_WIDTH: u32 = 114;

/// Column of the peak line within the bar.
pub open spec fn peak_column(peak: u8) -> int {
    if peak * 114 / 100 < 113 {
        peak * 114 / 100
    } else {
        113
    }
}

/// Fill and peak line of a bar.
pub open spec fn meter_fill(level: u8, peak: u8, y: int) -> Seq<crate::gui::canvas::Figure> {
    bar(11, y + 1, level * 114 / 100, 4) + bar(
        11 + peak_column(peak),
        y + 1,
        if peak > 0 {
            1
        } else {
            0
        },
        4,
    )
}

/// Label, outline, fill and peak line of a bar.
pub open spec fn meter_channel(label: Seq<char>, level: u8, peak: u8, y: int) -> Seq<
    crate::gui::canvas::Figure,
> {
    seq![
        crate::gui::canvas::Figure::Text {
            text: label,
            x: 2,
            y: (y + 5) as i32,
            font: Font::Small,
            align: Align::Left,
            on: true,
        },
        crate::gui::canvas::outlined(10, y, 116, 6),
    ] + meter_fill(level, peak, y)
}

impl LevelMeter {
    pub fn new(left_level: u8, right_level: u8, left_peak: u8, right_peak: u8) -> (w: Self)
        ensures
            w == (LevelMeter { left_level, right_level, left_peak, right_peak }),
    {
        LevelMeter { left_level, right_level, left_peak, right_peak }
    }

    pub open spec fn figures(self, y: int) -> Seq<crate::gui::canvas::Figure> {
        meter_channel("L"@, self.left_level, self.left_peak, y) + meter_channel(
            "R"@,
            self.right_level,
            self.right_peak,
            y + 7,
        )
    }

    pub open spec fn fills(self, y: int) -> Seq<crate::gui::canvas::Figure> {
        meter_fill(self.left_level, self.left_peak, y) + meter_fill(
            self.right_level,
            self.right_peak,
            y + 7,
        )
    }

    /// Draws both channels; they take about 14 rows.
    pub fn draw(&self, canvas: &mut Canvas, y: i32)
        requires
            y + 12 <= i32::MAX,
        ensures
            final(canvas)@ == old(canvas)@ + self.figures(y as int),
    {
        draw_channel(canvas, "L", self.left_level, self.left_peak, y);
        draw_channel(canvas, "R", self.right_level, self.right_peak, y + 7);
        assert(canvas@ =~= old(canvas)@ + self.figures(y as int));
    }

    /// Draws only fills and peak lines, for fast updates.
    pub fn draw_fills(&self, canvas: &mut Canvas, y: i32)
        requires
            y + 8 <= i32::MAX,
        ensures
            final(canvas)@ == old(canvas)@ + self.fills(y as int),
    {
        draw_fill(canvas, self.left_level, self.left_peak, y);
        draw_fill(canvas, self.right_level, self.right_peak, y + 7);
        assert(canvas@ =~= old(canvas)@ + self.fills(y as int));
    }
}

fn draw_fill(canvas: &mut Canvas, level: u8, peak: u8, y: i32)
    requires
        i32::MIN <= y + 1 <= i32::MAX,
    ensures
        final(canvas)@ == old(canvas)@ + meter_fill(level, peak, y as int),
{
    draw_bar(canvas, 11, y + 1, (level as u32 * METER_WIDTH) / 100, 4);
    let column: u32 = peak as u32 * METER_WIDTH / 100;
    let peak_x: i32 = 11 + (if column < METER_WIDTH - 1 {
        column
    } else {
        METER_WIDTH - 1
    }) as i32;
    draw_bar(
        canvas,
        peak_x,
        y + 1,
        if peak > 0 {
            1
        } else {
            0
        },
        4,
    );
    assert(canvas@ =~= old(canvas)@ + meter_fill(level, peak, y as int));
}

fn draw_channel(canvas: &mut Canvas, label: &'static str, level: u8, peak: u8, y: i32)
    requires
        i32::MIN <= y && y + 5 <= i32::MAX,
    ensures
        final(canvas)@ == old(canvas)@ + meter_channel(label@, level, peak, y as int),
{
    canvas.text_in(label, 2, y + 5, Font::Small, Align::Left, true);
    canvas.outline(10, y, METER_WIDTH + 2, 6);
    draw_fill(canvas, level, peak, y);
    assert(canvas@ =~= old(canvas)@ + meter_channel(label@, level, peak, y as int));
}

/// CLIP warning, which takes the place of the volume.
pub struct ClipWarning;

/// The warning centred at a height.
pub open spec fn clip_warning(y_center: int) -> Seq<crate::gui::canvas::Figure> {
    seq![
        crate::gui::canvas::filled(34, y_center - 12, 60, 24),
        crate::gui::canvas::Figure::Text {
            text: "CLIP"@,
            x: 64,
            y: (y_center + 6) as i32,
            font: Font::Large,
            align: Align::Center,
            on: false,
        },
    ]
}

impl ClipWarning {
    /// Draws the warning, dark on a lit background.
    pub fn draw(canvas: &mut Canvas, y_center: i32)
        requires
            i32::MIN <= y_center - 12,
            y_center + 6 <= i32::MAX,
        ensures
            final(canvas)@ == old(canvas)@ + clip_warning(y_center as int),
    {
        canvas.fill(34, y_center - 12, 60, 24);
        canvas.text_in("CLIP", 64, y_center + 6, Font::Large, Align::Center, false);
        assert(canvas@ =~= old(canvas)@ + clip_warning(y_center as int));
    }
}

/// Progress bar for loading screens.
#[derive(Debug, Clone, Copy)]
pub struct ProgressBar {
    /// Progress in percent.
    pub progress: u8,
    pub label: &'static str,
}

/// A progress bar at a height.
pub open spec fn progress_bar(progress: u8, label: Seq<char>, y: int) -> Seq<
    crate::gui::canvas::Figure,
> {
    seq![
        crate::gui::canvas::plain(label, 64, y, Align::Center),
        crate::gui::canvas::outlined(12, y + 4, 104, 12),
    ] + bar(14, y + 6, progress as int, 8)
}

impl ProgressBar {
    pub fn new(progress: u8, label: &'static str) -> (w: Self)
        ensures
            w.progress == progress,
            w.label@ == label@,
    {
        ProgressBar { progress, label }
    }

    /// Draws the bar, centred, at a height.
    pub fn draw(&self, canvas: &mut Canvas, y: i32)
        requires
            y + 6 <= i32::MAX,
        ensures
            final(canvas)@ == old(canvas)@ + progress_bar(self.progress, self.label@, y as int),
    {
        canvas.text(self.label, 64, y, Align::Center);
        canvas.outline(12, y + 4, 104, 12);
        draw_bar(canvas, 14, y + 6, (self.progress as u32 * 100) / 100, 8);
        assert(canvas@ =~= old(canvas)@ + progress_bar(self.progress, self.label@, y as int));
    }
}

/// Fill and peak line never leave the bar, at levels up to 100.
pub proof fn law_meter_stays_in_bar(level: u8, peak: u8)
    requires
        level <= 100,
        peak <= 100,
    ensures
        0 <= level * 114 / 100 <= METER_WIDTH,
        0 <= peak_column(peak) < METER_WIDTH,
        level == 100 ==> level * 114 / 100 == METER_WIDTH,
{
}

/// A figure that is a text.
pub open spec fn says(f: crate::gui::canvas::Figure, s: Seq<char>, px: int, py: int) -> bool {
    f matches crate::gui::canvas::Figure::Text { text, x, y, .. } && text == s && x == px && y == py
}

/// The volume bar: the lit part is as many columns as percent, two pixels inside
/// its frame; a muted one is empty. The number stands at the right.
pub proof fn law_volume_bar(w: VolumeBar, x: int, y: int)
    requires
        -1000 <= x <= 1000,
        -1000 <= y <= 1000,
    ensures
        ({
            let f = w.figures(x, y);
            let n = f.len() as int;
            &&& n == if !w.muted && w.volume == 0 {
                3
            } else {
                4int
            }
            &&& says(f[0], "VOL"@, x, y + 16)
            &&& f[1] matches crate::gui::canvas::Figure::Rounded { area, radius } && radius == 3
                && area.x == x + 14 && area.y == y + 8 && area.width == 104 && area.height == 16
            &&& w.muted ==> says(f[2], "MUTE"@, x + 66, y + 19)
            &&& !w.muted && w.volume > 0 ==> (f[2] matches crate::gui::canvas::Figure::Fill {
                area,
                on,
            } && on && area.x == x + 16 && area.y == y + 10 && area.width == w.volume
                && area.height == 12)
            &&& says(
                f[n - 1],
                if w.muted {
                    "---"@
                } else {
                    percent(w.volume)
                },
                x + 120,
                y + 16,
            )
        }),
{
}

/// A percentage is its number and a percent sign.
pub proof fn law_percentages(volume: u8)
    ensures
        percent(volume).last() == '%',
        crate::gui::canvas::number_of(percent(volume).drop_last()) == volume,
{
    crate::gui::canvas::law_decimal_digits(volume as nat, 0);
    assert(percent(volume).drop_last() =~= crate::gui::canvas::decimal_chars(volume as nat));
}

/// A rate is the whole kilohertz and `kHz`; only 44.1 kHz has a fraction.
pub proof fn law_rate_labels(rate: u32)
    ensures
        ({
            let s = rate_label(rate);
            let n = s.len() as int;
            &&& rate == 44100 ==> s == "44.1kHz"@
            &&& rate != 44100 ==> s[n - 3] == 'k' && s[n - 2] == 'H' && s[n - 1] == 'z'
                && 1000 * crate::gui::canvas::number_of(s.take(n - 3)) <= rate < 1000
                * crate::gui::canvas::number_of(s.take(n - 3)) + 1000
        }),
{
    let d = crate::gui::canvas::decimal_chars((rate / 1000) as nat);
    crate::gui::canvas::law_decimal_digits((rate / 1000) as nat, 0);
    if rate != 44100 {
        assert(rate_label(rate).take(rate_label(rate).len() - 3) =~= d);
    }
}

/// What each source is called, in full and in the status bar.
pub proof fn law_source_names(source: AudioSource)
    ensures
        source == AudioSource::LineIn <==> source.full_name() == "LINE IN"@,
        source == AudioSource::LineIn <==> source.brief_name() == "LINE"@,
        source == AudioSource::Spdif <==> source.full_name() == "S/PDIF"@,
        source == AudioSource::Usb <==> source.full_name() == "USB"@,
        source == AudioSource::NoSource <==> source.full_name() == "---"@,
        source != AudioSource::LineIn ==> source.brief_name() == source.full_name(),
{
    reveal_strlit("LINE IN");
    reveal_strlit("LINE");
    reveal_strlit("S/PDIF");
    reveal_strlit("USB");
    reveal_strlit("---");
    assert("LINE IN"@.len() == 7 && "LINE"@.len() == 4 && "S/PDIF"@.len() == 6);
    assert("USB"@.len() == 3 && "---"@.len() == 3);
    assert("USB"@[0] != "---"@[0]);
}

/// What each signal status is called.
pub proof fn law_status_names(status: SignalStatus)
    ensures
        status == SignalStatus::Present <==> status.label() == "SIG OK"@,
        status == SignalStatus::NoSignal <==> status.label() == "NO SIG"@,
        status == SignalStatus::Clip <==> status.label() == "CLIP"@,
{
    reveal_strlit("SIG OK");
    reveal_strlit("NO SIG");
    reveal_strlit("CLIP");
    assert("SIG OK"@[0] != "NO SIG"@[0]);
}

/// The status bar: source at the left, rate in the middle, status at the right,
/// and a line across the display below them.
pub proof fn law_status_bar(w: StatusBar)
    ensures
        ({
            let f = w.figures();
            &&& f.len() == 4
            &&& says(f[0], w.source.brief_name(), 2, 10)
            &&& f[0] matches crate::gui::canvas::Figure::Text { align, .. } && align == Align::Left
            &&& says(f[1], rate_label(w.sample_rate), 64, 10)
            &&& f[1] matches crate::gui::canvas::Figure::Text { align, .. } && align
                == Align::Center
            &&& says(f[2], w.signal_status.label(), 126, 10)
            &&& f[2] matches crate::gui::canvas::Figure::Text { align, .. } && align == Align::Right
            &&& f[3] matches crate::gui::canvas::Figure::Fill { area, on } && on && area.x == 0
                && area.y == 13 && area.width == 128 && area.height == 1
        }),
{
}

/// A source indicator: its name, and a mark that is filled if there is a signal.
pub proof fn law_source_indicator(w: SourceIndicator, x: int, y: int)
    requires
        -1000 <= x <= 1000,
        -1000 <= y <= 1000,
    ensures
        w.figures(x, y).len() == 2,
        says(w.figures(x, y)[0], w.source.full_name(), x, y + 10),
        w.signal_detected <==> w.figures(x, y)[1] is Fill,
        !w.signal_detected <==> w.figures(x, y)[1] is Outline,
        w.figures(x, y)[1] == crate::gui::canvas::filled(x + 50, y + 4, 6, 6) || w.figures(x, y)[1]
            == crate::gui::canvas::outlined(x + 50, y + 4, 6, 6),
{
}

/// The large volume shows the number, or that the output is muted.
pub proof fn law_large_volume(w: LargeVolumeDisplay, y: i32)
    ensures
        says(
            w.figure(y),
            if w.muted {
                "MUTE"@
            } else {
                percent(w.volume)
            },
            64,
            y as int,
        ),
        w.figure(y) matches crate::gui::canvas::Figure::Text { font, align, on, .. } && font
            == Font::Large && align == Align::Center && on,
{
}

/// The lit part of a meter has its level's share of the 114 columns, rounded down;
/// none at zero. The peak line is one column, at its share, and shows above zero.
pub proof fn law_meter_shares(level: u8, peak: u8, y: int)
    requires
        level <= 100,
        peak <= 100,
        -1000 <= y <= 1000,
    ensures
        ({
            let f = meter_fill(level, peak, y);
            let n = f.len() as int;
            &&& level > 0 ==> (f[0] matches crate::gui::canvas::Figure::Fill { area, on } && on
                && area.x == 11 && area.y == y + 1 && area.height == 4 && 100 * area.width <= 114
                * level && 114 * level < 100 * area.width + 100)
            &&& peak > 0 ==> n > 0 && (f[n - 1] matches crate::gui::canvas::Figure::Fill { area, on }
                && on && area.y == y + 1 && area.height == 4 && area.width == 1 && 11 <= area.x
                <= 124 && 100 * (area.x - 11) <= 114 * peak && (area.x == 124 || 114 * peak < 100
                * (area.x - 11) + 100))
            &&& n == (if level > 0 {
                1int
            } else {
                0
            }) + (if peak > 0 {
                1int
            } else {
                0
            })
        }),
{
}

/// Both channels of a meter look alike, the right one seven rows further down, and
/// a redraw of the fills draws what the whole meter has of them.
pub proof fn law_meter_channels(w: LevelMeter, y: int)
    requires
        -1000 <= y <= 1000,
    ensures
        w.figures(y) == seq![
            crate::gui::canvas::Figure::Text {
                text: "L"@,
                x: 2,
                y: (y + 5) as i32,
                font: Font::Small,
                align: Align::Left,
                on: true,
            },
            crate::gui::canvas::outlined(10, y, 116, 6),
        ] + meter_fill(w.left_level, w.left_peak, y) + seq![
            crate::gui::canvas::Figure::Text {
                text: "R"@,
                x: 2,
                y: (y + 12) as i32,
                font: Font::Small,
                align: Align::Left,
                on: true,
            },
            crate::gui::canvas::outlined(10, y + 7, 116, 6),
        ] + meter_fill(w.right_level, w.right_peak, y + 7),
        w.fills(y) == meter_fill(w.left_level, w.left_peak, y) + meter_fill(
            w.right_level,
            w.right_peak,
            y + 7,
        ),
{
    assert(w.figures(y) =~= seq![
        crate::gui::canvas::Figure::Text {
            text: "L"@,
            x: 2,
            y: (y + 5) as i32,
            font: Font::Small,
            align: Align::Left,
            on: true,
        },
        crate::gui::canvas::outlined(10, y, 116, 6),
    ] + meter_fill(w.left_level, w.left_peak, y) + seq![
        crate::gui::canvas::Figure::Text {
            text: "R"@,
            x: 2,
            y: (y + 12) as i32,
            font: Font::Small,
            align: Align::Left,
            on: true,
        },
        crate::gui::canvas::outlined(10, y + 7, 116, 6),
    ] + meter_fill(w.right_level, w.right_peak, y + 7));
}

/// The warning is dark text in the middle of a lit field that is centred on the
/// display and at its height.
pub proof fn law_clip_warning(y_center: int)
    requires
        -1000 <= y_center <= 1000,
    ensures
        ({
            let f = clip_warning(y_center);
            &&& f.len() == 2
            &&& f[0] matches crate::gui::canvas::Figure::Fill { area, on } && on && 2 * area.x
                + area.width == 128 && 2 * area.y + area.height == 2 * y_center && area.width == 60
                && area.height == 24
            &&& says(f[1], "CLIP"@, 64, y_center + 6)
            &&& f[1] matches crate::gui::canvas::Figure::Text { font, align, on, .. } && font
                == Font::Large && align == Align::Center && !on
        }),
{
}

/// A progress bar is lit by as many columns as percent, two pixels inside its
/// frame, which is centred on the display below the label.
pub proof fn law_progress(progress: u8, label: Seq<char>, y: int)
    requires
        -1000 <= y <= 1000,
    ensures
        ({
            let f = progress_bar(progress, label, y);
            &&& f.len() == if progress > 0 {
                3
            } else {
                2int
            }
            &&& says(f[0], label, 64, y)
            &&& f[1] matches crate::gui::canvas::Figure::Outline { area } && 2 * area.x + area.width
                == 128 && area.width == 104 && area.y == y + 4 && area.height == 12
            &&& progress > 0 ==> (f[2] matches crate::gui::canvas::Figure::Fill { area, on } && on
                && area.x == 14 && area.y == y + 6 && area.width == progress && area.height == 8)
        }),
{
}

/// Widgets add their figures behind what is on the canvas.
pub proof fn law_widgets_draw(
    bar: VolumeBar,
    a: &mut Canvas,
    source: SourceIndicator,
    b: &mut Canvas,
    status: StatusBar,
    c: &mut Canvas,
    volume: LargeVolumeDisplay,
    d: &mut Canvas,
    meter: LevelMeter,
    e: &mut Canvas,
    f: &mut Canvas,
    x: i32,
    y: i32,
)
    requires
        -1000 <= x <= 1000,
        -1000 <= y <= 1000,
        call_ensures(VolumeBar::draw, (&bar, a, x, y), ()),
        call_ensures(SourceIndicator::draw, (&source, b, x, y), ()),
        call_ensures(StatusBar::draw, (&status, c), ()),
        call_ensures(LargeVolumeDisplay::draw_at, (&volume, d, y), ()),
        call_ensures(LevelMeter::draw, (&meter, e, y), ()),
        call_ensures(LevelMeter::draw_fills, (&meter, f, y), ()),
    ensures
        final(a)@ == old(a)@ + bar.figures(x as int, y as int),
        final(b)@ == old(b)@ + source.figures(x as int, y as int),
        final(c)@ == old(c)@ + status.figures(),
        final(d)@ == old(d)@.push(volume.figure(y)),
        final(e)@ == old(e)@ + meter.figures(y as int),
        final(f)@ == old(f)@ + meter_fill(meter.left_level, meter.left_peak, y as int) + meter_fill(
            meter.right_level,
            meter.right_peak,
            y + 7,
        ),
{
    assert(final(f)@ =~= old(f)@ + meter_fill(meter.left_level, meter.left_peak, y as int)
        + meter_fill(meter.right_level, meter.right_peak, y + 7));
}

/// So do the warning and the progress bar; and sources tell their names.
pub proof fn law_messages_draw(
    a: &mut Canvas,
    bar: ProgressBar,
    b: &mut Canvas,
    y: i32,
    source: AudioSource,
    full: &'static str,
    brief: &'static str,
)
    requires
        -1000 <= y <= 1000,
        call_ensures(ClipWarning::draw, (a, y), ()),
        call_ensures(ProgressBar::draw, (&bar, b, y), ()),
        call_ensures(AudioSource::name, (&source,), full),
        call_ensures(AudioSource::short_name, (&source,), brief),
    ensures
        final(a)@ == old(a)@ + clip_warning(y as int),
        final(b)@ == old(b)@ + progress_bar(bar.progress, bar.label@, y as int),
        source == AudioSource::LineIn ==> full@ == "LINE IN"@ && brief@ == "LINE"@,
        source == AudioSource::Spdif ==> full@ == "S/PDIF"@ && brief@ == "S/PDIF"@,
        source == AudioSource::Usb ==> full@ == "USB"@ && brief@ == "USB"@,
        source == AudioSource::NoSource ==> full@ == "---"@ && brief@ == "---"@,
{
}

} // verus!
