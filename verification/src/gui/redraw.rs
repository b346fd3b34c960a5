//! Partial redraws of the home screen: what they leave on the display, and
//! which pages they touch.

use vstd::prelude::*;

use crate::gui::canvas::{Align, Font};
use crate::gui::screens::{AppState, HomeScreen};
use crate::gui::widgets::{LargeVolumeDisplay, StatusBar};

verus! {

/// Whether a pixel is lit after figures were drawn.
pub open spec fn lit_after(
    figures: Seq<crate::gui::canvas::Figure>,
    x: int,
    y: int,
    before: bool,
) -> bool
    decreases figures.len(),
{
    if figures.len() == 0 {
        before
    } else if crate::gui::render::has_pixel(figures.last(), x, y) {
        crate::gui::render::is_lit(figures.last())
    } else {
        lit_after(figures.drop_last(), x, y, before)
    }
}

/// No figure has the pixel.
pub open spec fn untouched(figures: Seq<crate::gui::canvas::Figure>, x: int, y: int) -> bool {
    forall|i: int|
        0 <= i < figures.len() ==> !crate::gui::render::has_pixel(#[trigger] figures[i], x, y)
}

proof fn lemma_lit(
    d: crate::gui::display::DisplayModel,
    figures: Seq<crate::gui::canvas::Figure>,
    x: int,
    y: int,
)
    requires
        crate::gui::display::on_display(x, y),
    ensures
        crate::gui::render::drawn_all(d, figures).lit.contains((x, y)) == lit_after(
            figures,
            x,
            y,
            d.lit.contains((x, y)),
        ),
    decreases figures.len(),
{
    if figures.len() > 0 {
        lemma_lit(d, figures.drop_last(), x, y);
    }
}

/// Outside the display nothing is ever lit.
proof fn lemma_lit_on_display(
    d: crate::gui::display::DisplayModel,
    figures: Seq<crate::gui::canvas::Figure>,
    p: (int, int),
)
    requires
        forall|q: (int, int)| #[trigger]
            d.lit.contains(q) ==> crate::gui::display::on_display(q.0, q.1),
        crate::gui::render::drawn_all(d, figures).lit.contains(p),
    ensures
        crate::gui::display::on_display(p.0, p.1),
    decreases figures.len(),
{
    if figures.len() > 0 {
        if crate::gui::render::drawn_all(d, figures.drop_last()).lit.contains(p) {
            lemma_lit_on_display(d, figures.drop_last(), p);
        }
    }
}

proof fn lemma_concat(
    a: Seq<crate::gui::canvas::Figure>,
    b: Seq<crate::gui::canvas::Figure>,
    x: int,
    y: int,
    v: bool,
)
    ensures
        lit_after(a + b, x, y, v) == lit_after(b, x, y, lit_after(a, x, y, v)),
    decreases b.len(),
{
    if b.len() == 0 {
        assert(a + b =~= a);
    } else {
        lemma_concat(a, b.drop_last(), x, y, v);
        assert((a + b).drop_last() =~= a + b.drop_last());
    }
}

proof fn lemma_untouched(
    figures: Seq<crate::gui::canvas::Figure>,
    x: int,
    y: int,
    v: bool,
)
    requires
        untouched(figures, x, y),
    ensures
        lit_after(figures, x, y, v) == v,
    decreases figures.len(),
{
    if figures.len() > 0 {
        let rest = figures.drop_last();
        assert forall|i: int| 0 <= i < rest.len() implies !crate::gui::render::has_pixel(
            #[trigger] rest[i],
            x,
            y,
        ) by {
            assert(figures[i] == rest[i]);
        }
        lemma_untouched(rest, x, y, v);
    }
}

proof fn lemma_digits_do_not_break(n: nat)
    ensures
        forall|i: int|
            0 <= i < crate::gui::canvas::decimal_chars(n).len()
                ==> #[trigger] crate::gui::canvas::decimal_chars(n)[i] != '\n',
    decreases n,
{
    let last = (48 + n % 10) as char;
    assert(last as int == 48 + n % 10);
    assert('\n' as int == 10);
    assert(last != '\n');
    if n >= 10 {
        lemma_digits_do_not_break(n / 10);
        let rest = crate::gui::canvas::decimal_chars(n / 10);
        assert(crate::gui::canvas::decimal_chars(n) == rest.push(last));
        assert forall|i: int| 0 <= i < rest.push(last).len() implies #[trigger] rest.push(last)[i]
            != '\n' by {
            if i < rest.len() {
                assert(rest[i] != '\n');
            }
        }
    } else {
        assert(crate::gui::canvas::decimal_chars(n) == seq![last]);
    }
}

/// None of the texts of the home screen has a line break.
proof fn lemma_texts_do_not_break(state: AppState)
    ensures
        !state.source.brief_name().contains('\n'),
        !crate::gui::widgets::rate_label(state.sample_rate).contains('\n'),
        !state.signal_status.label().contains('\n'),
        !crate::gui::widgets::percent(state.volume).contains('\n'),
        !"MUTE"@.contains('\n'),
        !"CLIP"@.contains('\n'),
        !"L"@.contains('\n'),
        !"R"@.contains('\n'),
        "L"@.len() == 1,
        "R"@.len() == 1,
        !"Press for menu"@.contains('\n'),
{
    reveal_strlit("LINE");
    reveal_strlit("S/PDIF");
    reveal_strlit("USB");
    reveal_strlit("---");
    reveal_strlit("44.1kHz");
    reveal_strlit("NO SIG");
    reveal_strlit("SIG OK");
    reveal_strlit("CLIP");
    reveal_strlit("MUTE");
    reveal_strlit("L");
    reveal_strlit("R");
    reveal_strlit("Press for menu");
    lemma_digits_do_not_break((state.sample_rate / 1000) as nat);
    lemma_digits_do_not_break(state.volume as nat);
}

/// A pixel inside one of the meter bars.
pub open spec fn in_bars(x: int, y: int) -> bool {
    11 <= x < 125 && (16 <= y < 20 || 23 <= y < 27)
}

/// Levels and peaks on the meter's scale.
pub open spec fn on_scale(state: AppState) -> bool {
    state.level_left <= 100 && state.level_right <= 100 && state.peak_left <= 100
        && state.peak_right <= 100
}

/// The home screen's parts before, of and after the meters.
pub open spec fn above_meters(state: AppState) -> Seq<crate::gui::canvas::Figure> {
    seq![crate::gui::blank()] + StatusBar {
        source: state.source,
        sample_rate: state.sample_rate,
        signal_status: state.signal_status,
    }.figures()
}

pub open spec fn hint() -> Seq<crate::gui::canvas::Figure> {
    seq![crate::gui::canvas::plain("Press for menu"@, 64, 62, Align::Center)]
}

pub open spec fn home(state: AppState) -> Seq<crate::gui::canvas::Figure> {
    HomeScreen { show_menu_hint: true }.figures(state)
}

proof fn lemma_home_parts(state: AppState)
    ensures
        home(state) == above_meters(state) + crate::gui::screens::meter_of(state).figures(15)
            + crate::gui::screens::volume_area(state) + hint(),
{
    assert(home(state) =~= above_meters(state) + crate::gui::screens::meter_of(state).figures(15)
        + crate::gui::screens::volume_area(state) + hint());
}

/// The value of a pixel of the home screen, part by part.
proof fn lemma_home_lit(state: AppState, x: int, y: int, v: bool)
    ensures
        lit_after(home(state), x, y, v) == lit_after(
            hint(),
            x,
            y,
            lit_after(
                crate::gui::screens::volume_area(state),
                x,
                y,
                lit_after(
                    crate::gui::screens::meter_of(state).figures(15),
                    x,
                    y,
                    lit_after(above_meters(state), x, y, v),
                ),
            ),
        ),
{
    lemma_home_parts(state);
    let a = above_meters(state);
    let b = crate::gui::screens::meter_of(state).figures(15);
    let c = crate::gui::screens::volume_area(state);
    lemma_concat(a + b + c, hint(), x, y, v);
    lemma_concat(a + b, c, x, y, v);
    lemma_concat(a, b, x, y, v);
}

/// The fill and peak line of a bar stay inside it.
proof fn lemma_fill_in_bar(level: u8, peak: u8, top: int, x: int, y: int)
    requires
        level <= 100,
        peak <= 100,
        0 <= top <= 100,
        !(11 <= x < 125 && top + 1 <= y < top + 5),
    ensures
        untouched(crate::gui::widgets::meter_fill(level, peak, top), x, y),
{
    crate::gui::widgets::law_meter_stays_in_bar(level, peak);
}

/// Label and outline of a bar.
pub open spec fn frame(label: Seq<char>, top: int) -> Seq<crate::gui::canvas::Figure> {
    seq![
        crate::gui::canvas::Figure::Text {
            text: label,
            x: 2,
            y: (top + 5) as i32,
            font: Font::Small,
            align: Align::Left,
            on: true,
        },
        crate::gui::canvas::outlined(10, top, 116, 6),
    ]
}

/// The value of a pixel of the meters: frames and fills.
proof fn lemma_meters_lit(state: AppState, x: int, y: int, v: bool)
    ensures
        ({
            let left = crate::gui::widgets::meter_fill(state.level_left, state.peak_left, 15);
            let right = crate::gui::widgets::meter_fill(state.level_right, state.peak_right, 22);
            lit_after(crate::gui::screens::meter_of(state).figures(15), x, y, v) == lit_after(
                right,
                x,
                y,
                lit_after(
                    frame("R"@, 22),
                    x,
                    y,
                    lit_after(left, x, y, lit_after(frame("L"@, 15), x, y, v)),
                ),
            )
        }),
{
    let left = crate::gui::widgets::meter_fill(state.level_left, state.peak_left, 15);
    let right = crate::gui::widgets::meter_fill(state.level_right, state.peak_right, 22);
    let l = frame("L"@, 15);
    let r = frame("R"@, 22);
    assert(crate::gui::screens::meter_of(state).figures(15) =~= l + left + (r + right));
    lemma_concat(l + left, r + right, x, y, v);
    lemma_concat(l, left, x, y, v);
    lemma_concat(r, right, x, y, lit_after(l + left, x, y, v));
}

/// Inside the bars, the home screen shows the fills alone.
proof fn lemma_home_in_bars(state: AppState, x: int, y: int, v: bool)
    requires
        in_bars(x, y),
        on_scale(state),
        crate::gui::render::all_placed(home(state)),
    ensures
        lit_after(home(state), x, y, v) == lit_after(
            crate::gui::screens::meter_of(state).fills(15),
            x,
            y,
            false,
        ),
{
    let above = above_meters(state);
    let meters = crate::gui::screens::meter_of(state).figures(15);
    let volume = crate::gui::screens::volume_area(state);
    let left = crate::gui::widgets::meter_fill(state.level_left, state.peak_left, 15);
    let right = crate::gui::widgets::meter_fill(state.level_right, state.peak_right, 22);
    lemma_home_lit(state, x, y, v);
    lemma_home_parts(state);
    lemma_texts_do_not_break(state);
    lemma_meters_lit(state, x, y, false);
    assert(crate::gui::display::on_display(x, y));
    lemma_placed_parts(state);
    // Blank and status bar.
    let status = above.drop_first();
    assert(above =~= seq![crate::gui::blank()] + status);
    lemma_concat(seq![crate::gui::blank()], status, x, y, v);
    assert(lit_after(seq![crate::gui::blank()], x, y, v) == false) by {
        assert(seq![crate::gui::blank()].last() == crate::gui::blank());
    }
    assert(untouched(status, x, y)) by {
        assert(crate::gui::render::placed(above[1]));
        assert(crate::gui::render::placed(above[2]));
        assert(crate::gui::render::placed(above[3]));
    }
    lemma_untouched(status, x, y, false);
    // Frames.
    assert(untouched(frame("L"@, 15), x, y)) by {
        assert(frame("L"@, 15)[0] == meters[0]);
        assert(crate::gui::render::placed(meters[0]));
    }
    assert(untouched(frame("R"@, 22), x, y)) by {
        let k = 2 + left.len() as int;
        assert(frame("R"@, 22)[0] == meters[k]);
        assert(crate::gui::render::placed(meters[k]));
    }
    lemma_untouched(frame("L"@, 15), x, y, false);
    lemma_untouched(frame("R"@, 22), x, y, lit_after(left, x, y, false));
    assert(crate::gui::screens::meter_of(state).fills(15) =~= left + right);
    lemma_concat(left, right, x, y, false);
    // Volume and hint.
    lemma_volume_rows(state, x, y);
    assert(untouched(hint(), x, y)) by {
        assert(crate::gui::render::placed(hint()[0]));
    }
    let shown = lit_after(meters, x, y, false);
    lemma_untouched(volume, x, y, shown);
    lemma_untouched(hint(), x, y, shown);
}

/// Parts of a screen whose texts are placed have placed texts.
proof fn lemma_placed_parts(state: AppState)
    requires
        crate::gui::render::all_placed(home(state)),
    ensures
        crate::gui::render::all_placed(above_meters(state)),
        crate::gui::render::all_placed(crate::gui::screens::meter_of(state).figures(15)),
        crate::gui::render::all_placed(crate::gui::screens::volume_area(state)),
        crate::gui::render::all_placed(hint()),
{
    lemma_home_parts(state);
    let a = above_meters(state);
    let b = crate::gui::screens::meter_of(state).figures(15);
    let c = crate::gui::screens::volume_area(state);
    let all = home(state);
    assert forall|i: int| 0 <= i < a.len() implies crate::gui::render::placed(#[trigger] a[i]) by {
        assert(all[i] == a[i]);
    }
    assert forall|i: int| 0 <= i < b.len() implies crate::gui::render::placed(#[trigger] b[i]) by {
        assert(all[a.len() + i] == b[i]);
    }
    assert forall|i: int| 0 <= i < c.len() implies crate::gui::render::placed(#[trigger] c[i]) by {
        assert(all[a.len() + b.len() + i] == c[i]);
    }
    assert forall|i: int| 0 <= i < hint().len() implies crate::gui::render::placed(
        #[trigger] hint()[i],
    ) by {
        assert(all[a.len() + b.len() + c.len() + i] == hint()[i]);
    }
}

/// The volume area has no pixels outside rows 30 to 54.
proof fn lemma_volume_rows(state: AppState, x: int, y: int)
    requires
        crate::gui::render::all_placed(crate::gui::screens::volume_area(state)),
        crate::gui::display::on_display(x, y),
        !(30 <= y < 55),
    ensures
        untouched(crate::gui::screens::volume_area(state), x, y),
{
    lemma_texts_do_not_break(state);
    let volume = crate::gui::screens::volume_area(state);
    if state.clipping && state.clip_flash {
        assert(crate::gui::render::placed(volume[1]));
    } else {
        assert(crate::gui::render::placed(volume[0]));
        assert(volume[0] == LargeVolumeDisplay { volume: state.volume, muted: state.muted }.figure(
            48,
        ));
    }
}

/// Redrawing only the meter bars leaves what redrawing the home screen would,
/// if nothing but levels and peaks changed.
pub proof fn law_meters_are_redrawn(
    d: crate::gui::display::DisplayModel,
    before: AppState,
    after: AppState,
)
    requires
        forall|p: (int, int)| #[trigger]
            d.lit.contains(p) ==> crate::gui::display::on_display(p.0, p.1),
        after == (AppState {
            level_left: after.level_left,
            level_right: after.level_right,
            peak_left: after.peak_left,
            peak_right: after.peak_right,
            ..before
        }),
        on_scale(before),
        on_scale(after),
        crate::gui::render::all_placed(home(after)),
    ensures
        crate::gui::render::drawn_all(
            d,
            home(before) + crate::gui::screens::meters_redrawn(after),
        ).lit == crate::gui::render::drawn_all(d, home(after)).lit,
{
    let partial = home(before) + crate::gui::screens::meters_redrawn(after);
    let a = crate::gui::render::drawn_all(d, partial).lit;
    let b = crate::gui::render::drawn_all(d, home(after)).lit;
    assert forall|p: (int, int)| a.contains(p) == b.contains(p) by {
        let x = p.0;
        let y = p.1;
        if crate::gui::display::on_display(x, y) {
            lemma_lit(d, partial, x, y);
            lemma_lit(d, home(after), x, y);
            lemma_meters_pixel(before, after, x, y, d.lit.contains(p));
        } else {
            if a.contains(p) {
                lemma_lit_on_display(d, partial, p);
            }
            if b.contains(p) {
                lemma_lit_on_display(d, home(after), p);
            }
        }
    }
    assert(a =~= b);
}

proof fn lemma_meters_pixel(before: AppState, after: AppState, x: int, y: int, v: bool)
    requires
        crate::gui::display::on_display(x, y),
        after == (AppState {
            level_left: after.level_left,
            level_right: after.level_right,
            peak_left: after.peak_left,
            peak_right: after.peak_right,
            ..before
        }),
        on_scale(before),
        on_scale(after),
        crate::gui::render::all_placed(home(after)),
    ensures
        lit_after(home(before) + crate::gui::screens::meters_redrawn(after), x, y, v) == lit_after(
            home(after),
            x,
            y,
            v,
        ),
{
    let fills = crate::gui::screens::meter_of(after).fills(15);
    let redrawn = crate::gui::screens::meters_redrawn(after);
    let cleared = redrawn.take(2);
    assert(redrawn =~= cleared + fills);
    let base = lit_after(home(before), x, y, v);
    lemma_concat(home(before), redrawn, x, y, v);
    lemma_concat(cleared, fills, x, y, base);
    assert(cleared.drop_last() =~= seq![cleared[0]]);
    assert(cleared.drop_last().drop_last() =~= Seq::empty());
    reveal_with_fuel(lit_after, 3);
    if in_bars(x, y) {
        assert(lit_after(cleared, x, y, base) == false);
        lemma_home_in_bars(after, x, y, v);
    } else {
        assert(untouched(cleared, x, y));
        lemma_untouched(cleared, x, y, base);
        lemma_fills_outside(after, x, y);
        lemma_untouched(fills, x, y, base);
        lemma_fills_outside(before, x, y);
        lemma_home_lit(before, x, y, v);
        lemma_home_lit(after, x, y, v);
        let top = lit_after(above_meters(after), x, y, v);
        lemma_meters_lit(before, x, y, top);
        lemma_meters_lit(after, x, y, top);
        lemma_frames_only(before, x, y, top);
        lemma_frames_only(after, x, y, top);
    }
}

proof fn lemma_fills_outside(state: AppState, x: int, y: int)
    requires
        on_scale(state),
        !in_bars(x, y),
    ensures
        untouched(
            crate::gui::widgets::meter_fill(state.level_left, state.peak_left, 15),
            x,
            y,
        ),
        untouched(
            crate::gui::widgets::meter_fill(state.level_right, state.peak_right, 22),
            x,
            y,
        ),
        untouched(crate::gui::screens::meter_of(state).fills(15), x, y),
{
    lemma_fill_in_bar(state.level_left, state.peak_left, 15, x, y);
    lemma_fill_in_bar(state.level_right, state.peak_right, 22, x, y);
    let left = crate::gui::widgets::meter_fill(state.level_left, state.peak_left, 15);
    let right = crate::gui::widgets::meter_fill(state.level_right, state.peak_right, 22);
    let fills = crate::gui::screens::meter_of(state).fills(15);
    assert forall|i: int| 0 <= i < fills.len() implies !crate::gui::render::has_pixel(
        #[trigger] fills[i],
        x,
        y,
    ) by {
        if i < left.len() {
            assert(fills[i] == left[i]);
        } else {
            assert(fills[i] == right[i - left.len()]);
        }
    }
}

/// Outside the bars, the meters are their frames.
proof fn lemma_frames_only(state: AppState, x: int, y: int, v: bool)
    requires
        on_scale(state),
        !in_bars(x, y),
    ensures
        lit_after(crate::gui::screens::meter_of(state).figures(15), x, y, v) == lit_after(
            frame("R"@, 22),
            x,
            y,
            lit_after(frame("L"@, 15), x, y, v),
        ),
{
    let left = crate::gui::widgets::meter_fill(state.level_left, state.peak_left, 15);
    let right = crate::gui::widgets::meter_fill(state.level_right, state.peak_right, 22);
    lemma_meters_lit(state, x, y, v);
    lemma_fills_outside(state, x, y);
    let first = lit_after(frame("L"@, 15), x, y, v);
    lemma_untouched(left, x, y, first);
    lemma_untouched(right, x, y, lit_after(frame("R"@, 22), x, y, first));
}

/// Redrawing only the volume leaves what redrawing the home screen would, if
/// nothing but volume, mute state and clip warning changed, except in the row
/// where the cleared region meets the hint below.
pub proof fn law_volume_is_redrawn(
    d: crate::gui::display::DisplayModel,
    before: AppState,
    after: AppState,
    x: int,
    y: int,
)
    requires
        crate::gui::display::on_display(x, y),
        y != 55,
        after == (AppState {
            volume: after.volume,
            muted: after.muted,
            clipping: after.clipping,
            clip_flash: after.clip_flash,
            ..before
        }),
        crate::gui::render::all_placed(home(before)),
        crate::gui::render::all_placed(home(after)),
    ensures
        crate::gui::render::drawn_all(
            d,
            home(before) + crate::gui::screens::volume_redrawn(after),
        ).lit.contains((x, y)) == crate::gui::render::drawn_all(d, home(after)).lit.contains(
            (x, y),
        ),
{
    let redrawn = crate::gui::screens::volume_redrawn(after);
    let volume = crate::gui::screens::volume_area(after);
    let cleared = seq![redrawn[0]];
    assert(redrawn =~= cleared + volume);
    let partial = home(before) + redrawn;
    let v = d.lit.contains((x, y));
    lemma_lit(d, partial, x, y);
    lemma_lit(d, home(after), x, y);
    let base = lit_after(home(before), x, y, v);
    lemma_concat(home(before), redrawn, x, y, v);
    lemma_concat(cleared, volume, x, y, base);
    assert(cleared.last() == redrawn[0]);
    assert(cleared.drop_last() =~= Seq::empty());
    lemma_home_lit(before, x, y, v);
    lemma_home_lit(after, x, y, v);
    lemma_placed_parts(before);
    lemma_placed_parts(after);
    lemma_texts_do_not_break(after);
    let above = above_meters(after);
    let meters = crate::gui::screens::meter_of(after).figures(15);
    assert(above == above_meters(before));
    assert(meters == crate::gui::screens::meter_of(before).figures(15));
    let under = lit_after(meters, x, y, lit_after(above, x, y, v));
    if 30 <= y < 55 {
        // Everything but blank and volume lies elsewhere.
        let status = above.drop_first();
        assert(above =~= seq![crate::gui::blank()] + status);
        lemma_concat(seq![crate::gui::blank()], status, x, y, v);
        assert(seq![crate::gui::blank()].last() == crate::gui::blank());
        assert(lit_after(seq![crate::gui::blank()], x, y, v) == false);
        assert(untouched(status, x, y)) by {
            assert(crate::gui::render::placed(above[1]));
            assert(crate::gui::render::placed(above[2]));
            assert(crate::gui::render::placed(above[3]));
        }
        lemma_untouched(status, x, y, false);
        lemma_meters_rows(after, x, y);
        lemma_untouched(meters, x, y, false);
        assert(untouched(hint(), x, y)) by {
            assert(crate::gui::render::placed(hint()[0]));
        }
        lemma_untouched(hint(), x, y, lit_after(volume, x, y, false));
        assert(lit_after(cleared, x, y, base) == false);
    } else {
        assert(untouched(cleared, x, y));
        lemma_untouched(cleared, x, y, base);
        lemma_volume_rows(after, x, y);
        lemma_volume_rows(before, x, y);
        lemma_untouched(volume, x, y, base);
        lemma_untouched(volume, x, y, under);
        lemma_untouched(crate::gui::screens::volume_area(before), x, y, under);
    }
}

/// The meters have no pixels from row 30 on.
proof fn lemma_meters_rows(state: AppState, x: int, y: int)
    requires
        crate::gui::display::on_display(x, y),
        30 <= y,
        crate::gui::render::all_placed(crate::gui::screens::meter_of(state).figures(15)),
    ensures
        untouched(crate::gui::screens::meter_of(state).figures(15), x, y),
{
    lemma_texts_do_not_break(state);
    let meters = crate::gui::screens::meter_of(state).figures(15);
    assert forall|i: int| 0 <= i < meters.len() implies !crate::gui::render::has_pixel(
        #[trigger] meters[i],
        x,
        y,
    ) by {
        assert(crate::gui::render::placed(meters[i]));
    }
}

/// Rows that a figure reaches.
pub open spec fn in_rows(figure: crate::gui::canvas::Figure, low: int, high: int) -> bool {
    match figure {
        crate::gui::canvas::Figure::Clear { area } => low <= area.y && area.y + area.height <= high,
        _ => forall|x: int, y: int|
            crate::gui::display::on_display(x, y) && #[trigger] crate::gui::render::has_pixel(
                figure,
                x,
                y,
            ) ==> low <= y < high,
    }
}

/// Only the pages of the rows that figures reach become dirty.
pub proof fn law_pages_of_rows(
    d: crate::gui::display::DisplayModel,
    figures: Seq<crate::gui::canvas::Figure>,
    low: int,
    high: int,
    page: int,
)
    requires
        0 <= low,
        forall|i: int| 0 <= i < figures.len() ==> in_rows(#[trigger] figures[i], low, high),
        crate::gui::render::drawn_all(d, figures).dirty.contains(page),
    ensures
        d.dirty.contains(page) || low / 8 <= page <= (high - 1) / 8,
    decreases figures.len(),
{
    if figures.len() > 0 {
        let rest = figures.drop_last();
        let figure = figures.last();
        assert(figures[figures.len() - 1] == figure);
        assert forall|i: int| 0 <= i < rest.len() implies in_rows(#[trigger] rest[i], low, high) by {
            assert(figures[i] == rest[i]);
        }
        let before = crate::gui::render::drawn_all(d, rest);
        if before.dirty.contains(page) {
            law_pages_of_rows(d, rest, low, high, page);
        } else if !(figure is Clear) {
            let pixels = crate::gui::render::pixels_of(figure);
            let p = choose|p: (int, int)| #[trigger] pixels.contains(p) && p.1 / 8 == page;
            assert(crate::gui::render::has_pixel(figure, p.0, p.1));
            assert(low <= p.1 < high);
        }
    }
}

/// Redrawing the meter bars touches only the two pages that they lie in.
pub proof fn law_meters_touch_two_pages(
    d: crate::gui::display::DisplayModel,
    state: AppState,
    page: int,
)
    requires
        crate::gui::render::drawn_all(
            d,
            crate::gui::screens::meters_redrawn(state),
        ).dirty.contains(page),
    ensures
        d.dirty.contains(page) || page == 2 || page == 3,
{
    let figures = crate::gui::screens::meters_redrawn(state);
    assert forall|i: int| 0 <= i < figures.len() implies in_rows(#[trigger] figures[i], 16, 27) by {
    }
    law_pages_of_rows(d, figures, 16, 27, page);
}

/// Redrawing the volume touches only the pages that its area lies in.
pub proof fn law_volume_touches_its_pages(
    d: crate::gui::display::DisplayModel,
    state: AppState,
    page: int,
)
    requires
        crate::gui::render::all_placed(crate::gui::screens::volume_redrawn(state)),
        crate::gui::render::drawn_all(
            d,
            crate::gui::screens::volume_redrawn(state),
        ).dirty.contains(page),
    ensures
        d.dirty.contains(page) || 3 <= page <= 6,
{
    let figures = crate::gui::screens::volume_redrawn(state);
    lemma_texts_do_not_break(state);
    assert forall|i: int| 0 <= i < figures.len() implies in_rows(#[trigger] figures[i], 30, 56) by {
        assert(crate::gui::render::placed(figures[i]));
    }
    law_pages_of_rows(d, figures, 30, 56, page);
}

} // verus!
