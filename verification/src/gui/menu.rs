//! Menu system for navigation.

use vstd::prelude::*;

use crate::gui::canvas::{Align, Canvas, Font};
use crate::gui::screens::ScreenId;
use crate::gui::widgets::AudioSource;

verus! {

/// Most items of a menu.
pub const MAX_MENU_ITEMS: usize = 8;

/// Items visible at a time.
pub const VISIBLE_ITEMS: usize = 4;

/// Action triggered by a menu item.
#[derive(Debug, Clone, Copy, PartialEq, Eq, Structural)]
pub enum MenuAction {
    GoToScreen(ScreenId),
    AdjustVolume,
    ToggleMute,
    SelectSource(AudioSource),
    AdjustEq,
    LoadDspPreset,
    Settings,
    Back,
    NoAction,
}

/// A menu item.
#[derive(Debug, Clone, Copy)]
pub struct MenuItem {
    pub label: &'static str,
    pub action: MenuAction,
    pub enabled: bool,
}

impl MenuItem {
    pub fn new(label: &'static str, action: MenuAction) -> (item: Self)
        ensures
            item == (MenuItem { label, action, enabled: true }),
    {
        MenuItem { label, action, enabled: true }
    }

    pub fn disabled(label: &'static str, action: MenuAction) -> (item: Self)
        ensures
            item == (MenuItem { label, action, enabled: false }),
    {
        MenuItem { label, action, enabled: false }
    }
}

/// The items of a menu, in order.
pub uninterp spec fn items_of(list: heapless::Vec<MenuItem, 8>) -> Seq<MenuItem>;

/// `heapless::Vec::new`: the new list is empty.
#[verifier::external_body]
fn new_items() -> (list: heapless::Vec<MenuItem, 8>)
    ensures
        items_of(list) == Seq::<MenuItem>::empty(),
{
    heapless::Vec::new()
}

/// `heapless::Vec::push`: appends the item, or hands it back and leaves the
/// list alone if the capacity of 8 is used up.
#[verifier::external_body]
fn push_item(list: &mut heapless::Vec<MenuItem, 8>, item: MenuItem) -> (result: Result<(), MenuItem>)
    ensures
        items_of(*old(list)).len() < 8 ==> result is Ok && items_of(*final(list)) == items_of(
            *old(list),
        ).push(item),
        items_of(*old(list)).len() >= 8 ==> result is Err && result->Err_0 == item && items_of(
            *final(list),
        ) == items_of(*old(list)),
{
    list.push(item)
}

/// `heapless::Vec::clear`: removes all items.
#[verifier::external_body]
fn clear_items(list: &mut heapless::Vec<MenuItem, 8>)
    ensures
        items_of(*final(list)) == Seq::<MenuItem>::empty(),
{
    list.clear()
}

/// `heapless::Vec::as_slice`: the items in order. There are never more than the
/// capacity.
#[verifier::external_body]
fn items_slice(list: &heapless::Vec<MenuItem, 8>) -> (slice: &[MenuItem])
    ensures
        slice@ == items_of(*list),
        slice@.len() <= 8,
{
    list.as_slice()
}

/// A menu as its users see it.
#[verifier::ext_equal]
pub struct MenuModel {
    pub title: Seq<char>,
    pub items: Seq<MenuItem>,
    pub selected: int,
    /// First visible item.
    pub scroll: int,
}

impl MenuModel {
    /// The selection is one of the items, or the first of none, and visible.
    pub open spec fn wf(self) -> bool {
        &&& self.items.len() <= MAX_MENU_ITEMS
        &&& 0 <= self.selected
        &&& self.selected < self.items.len() || self.selected == 0
        &&& 0 <= self.scroll <= self.selected < self.scroll + VISIBLE_ITEMS
    }

    pub open spec fn empty(title: Seq<char>) -> MenuModel {
        MenuModel { title, items: Seq::empty(), selected: 0, scroll: 0 }
    }

    /// Another item selected; the menu scrolls as far as needed to show it.
    pub open spec fn with_selected(self, index: int) -> MenuModel {
        MenuModel {
            selected: index,
            scroll: if index < self.scroll {
                index
            } else if index >= self.scroll + VISIBLE_ITEMS {
                index - VISIBLE_ITEMS + 1
            } else {
                self.scroll
            },
            ..self
        }
    }

    pub open spec fn previous(self) -> MenuModel {
        if self.selected > 0 {
            self.with_selected(self.selected - 1)
        } else {
            self
        }
    }

    pub open spec fn next(self) -> MenuModel {
        if self.selected + 1 < self.items.len() {
            self.with_selected(self.selected + 1)
        } else {
            self
        }
    }

    /// The action of the selected item, if it is enabled.
    pub open spec fn action(self) -> MenuAction {
        if self.selected < self.items.len() && self.items[self.selected].enabled {
            self.items[self.selected].action
        } else {
            MenuAction::NoAction
        }
    }

    /// The figures of item `i`: the selected one is dark on a lit row.
    pub open spec fn row(self, i: int, y0: int) -> Seq<crate::gui::canvas::Figure> {
        let y = y0 + 12 * (i - self.scroll);
        if i == self.selected {
            seq![
                crate::gui::canvas::filled(0, y, 128, 12),
                crate::gui::canvas::Figure::Text {
                    text: self.items[i].label@,
                    x: 4,
                    y: (y + 10) as i32,
                    font: Font::Normal,
                    align: Align::Left,
                    on: false,
                },
            ]
        } else {
            seq![crate::gui::canvas::plain(self.items[i].label@, 4, y + 10, Align::Left)]
        }
    }

    /// The figures of the visible items before item `end`.
    pub open spec fn rows(self, end: int, y0: int) -> Seq<crate::gui::canvas::Figure>
        decreases end,
    {
        if end <= self.scroll || end <= 0 {
            Seq::empty()
        } else {
            self.rows(end - 1, y0) + self.row(end - 1, y0)
        }
    }

    /// End of the visible items.
    pub open spec fn visible_end(self) -> int {
        if self.scroll + VISIBLE_ITEMS < self.items.len() {
            self.scroll + VISIBLE_ITEMS
        } else {
            self.items.len() as int
        }
    }

    /// The menu: visible items, and marks where there are more above or below.
    pub open spec fn figures(self, y0: int) -> Seq<crate::gui::canvas::Figure> {
        self.rows(self.visible_end(), y0) + (if self.scroll > 0 {
            seq![crate::gui::canvas::plain("^"@, 120, y0 + 8, Align::Left)]
        } else {
            Seq::empty()
        }) + (if self.scroll + VISIBLE_ITEMS < self.items.len() {
            seq![crate::gui::canvas::plain("v"@, 120, y0 + 44, Align::Left)]
        } else {
            Seq::empty()
        })
    }
}

/// Menu with scrollable items.
pub struct Menu {
    items: heapless::Vec<MenuItem, 8>,
    selected: usize,
    scroll_offset: usize,
    title: &'static str,
}

impl View for Menu {
    type V = MenuModel;

    closed spec fn view(&self) -> MenuModel {
        MenuModel {
            title: self.title@,
            items: items_of(self.items),
            selected: self.selected as int,
            scroll: self.scroll_offset as int,
        }
    }
}

impl Menu {
    /// An empty menu.
    pub fn new(title: &'static str) -> (menu: Self)
        ensures
            menu@ == MenuModel::empty(title@),
    {
        let menu = Menu { items: new_items(), selected: 0, scroll_offset: 0, title };
        assert(menu@ =~= MenuModel::empty(title@));
        menu
    }

    pub open spec fn heading(self) -> Seq<char> {
        self@.title
    }

    pub fn title(&self) -> (title: &'static str)
        ensures
            title@ == self.heading(),
    {
        self.title
    }

    /// Adds an item; a full menu takes none.
    pub fn add_item(&mut self, item: MenuItem)
        requires
            old(self)@.wf(),
        ensures
            final(self)@.wf(),
            final(self)@ == if old(self)@.items.len() < MAX_MENU_ITEMS {
                MenuModel { items: old(self)@.items.push(item), ..old(self)@ }
            } else {
                old(self)@
            },
    {
        let _ = push_item(&mut self.items, item);
    }

    /// Removes all items.
    pub fn clear(&mut self)
        ensures
            final(self)@ == MenuModel::empty(old(self).heading()),
    {
        clear_items(&mut self.items);
        self.selected = 0;
        self.scroll_offset = 0;
        assert(self@ =~= MenuModel::empty(old(self).heading()));
    }

    pub fn len(&self) -> (len: usize)
        ensures
            len == self@.items.len(),
    {
        items_slice(&self.items).len()
    }

    pub fn is_empty(&self) -> (empty: bool)
        ensures
            empty == (self@.items.len() == 0),
    {
        items_slice(&self.items).len() == 0
    }

    /// Moves the selection up.
    pub fn select_previous(&mut self)
        requires
            old(self)@.wf(),
        ensures
            final(self)@.wf(),
            final(self)@ == old(self)@.previous(),
    {
        if self.selected > 0 {
            self.selected = self.selected - 1;
            if self.selected < self.scroll_offset {
                self.scroll_offset = self.selected;
            }
        }
        assert(self@ =~= old(self)@.previous());
    }

    /// Moves the selection down.
    pub fn select_next(&mut self)
        requires
            old(self)@.wf(),
        ensures
            final(self)@.wf(),
            final(self)@ == old(self)@.next(),
    {
        let last: usize = self.len().saturating_sub(1);
        if self.selected < last {
            self.selected = self.selected + 1;
            if self.selected >= self.scroll_offset + VISIBLE_ITEMS {
                self.scroll_offset = self.selected - VISIBLE_ITEMS + 1;
            }
        }
        assert(self@ =~= old(self)@.next());
    }

    /// The selected item.
    pub fn selected_item(&self) -> (item: Option<&MenuItem>)
        requires
            self@.wf(),
        ensures
            match item {
                Some(item) => self@.selected < self@.items.len() && *item
                    == self@.items[self@.selected],
                None => self@.items.len() == 0,
            },
    {
        let items: &[MenuItem] = items_slice(&self.items);
        if self.selected < items.len() {
            Some(&items[self.selected])
        } else {
            None
        }
    }

    /// The action of the selected item.
    pub fn selected_action(&self) -> (action: MenuAction)
        requires
            self@.wf(),
        ensures
            action == self@.action(),
    {
        match self.selected_item() {
            Some(item) => if item.enabled {
                item.action
            } else {
                MenuAction::NoAction
            },
            None => MenuAction::NoAction,
        }
    }

    /// Index of the selected item.
    pub fn selected_index(&self) -> (index: usize)
        ensures
            index == self@.selected,
    {
        self.selected
    }

    /// Selects an item; an index beyond the last is ignored.
    pub fn set_selected(&mut self, index: usize)
        requires
            old(self)@.wf(),
        ensures
            final(self)@.wf(),
            final(self)@ == if index < old(self)@.items.len() {
                old(self)@.with_selected(index as int)
            } else {
                old(self)@
            },
    {
        if index < self.len() {
            self.selected = index;
            if self.selected < self.scroll_offset {
                self.scroll_offset = self.selected;
            } else if self.selected >= self.scroll_offset + VISIBLE_ITEMS {
                self.scroll_offset = self.selected - VISIBLE_ITEMS + 1;
            }
        }
        assert(self@ =~= if index < old(self)@.items.len() {
            old(self)@.with_selected(index as int)
        } else {
            old(self)@
        });
    }

    /// Draws the menu from height `y_offset` on.
    pub fn draw(&self, canvas: &mut Canvas, y_offset: i32)
        requires
            self@.wf(),
            y_offset + 12 * (self@.visible_end() - self@.scroll) - 2 <= i32::MAX,
        ensures
            final(canvas)@ == old(canvas)@ + self@.figures(y_offset as int),
    {
        let items: &[MenuItem] = items_slice(&self.items);
        let end: usize = if self.scroll_offset + VISIBLE_ITEMS < items.len() {
            self.scroll_offset + VISIBLE_ITEMS
        } else {
            items.len()
        };
        let ghost m = self@;
        let mut i: usize = self.scroll_offset;
        assert(canvas@ =~= old(canvas)@ + m.rows(i as int, y_offset as int));
        while i < end
            invariant
                m == self@,
                m.wf(),
                self.scroll_offset <= i <= end,
                end <= self.scroll_offset + VISIBLE_ITEMS,
                end <= items@.len() <= 8,
                items@ == m.items,
                end == m.visible_end(),
                y_offset + 12 * (m.visible_end() - m.scroll) - 2 <= i32::MAX,
                canvas@ == old(canvas)@ + m.rows(i as int, y_offset as int),
            decreases end - i,
        {
            let y: i32 = y_offset + (i - self.scroll_offset) as i32 * 12;
            let label: &'static str = items[i].label;
            let ghost before = canvas@;
            if i == self.selected {
                canvas.fill(0, y, 128, 12);
                canvas.text_in(label, 4, y + 10, Font::Normal, Align::Left, false);
            } else {
                canvas.text(label, 4, y + 10, Align::Left);
            }
            proof {
                assert(canvas@ =~= before + m.row(i as int, y_offset as int));
                assert(canvas@ =~= old(canvas)@ + m.rows(i + 1, y_offset as int));
            }
            i = i + 1;
        }
        if self.scroll_offset > 0 {
            canvas.text("^", 120, y_offset + 8, Align::Left);
        }
        if self.scroll_offset + VISIBLE_ITEMS < items.len() {
            canvas.text("v", 120, y_offset + 44, Align::Left);
        }
        assert(canvas@ =~= old(canvas)@ + m.figures(y_offset as int));
    }
}

/// The items of the main menu.
pub open spec fn main_menu_items() -> Seq<MenuItem> {
    seq![
        MenuItem { label: "Volume", action: MenuAction::AdjustVolume, enabled: true },
        MenuItem {
            label: "Source",
            action: MenuAction::GoToScreen(ScreenId::SourceSelect),
            enabled: true,
        },
        MenuItem {
            label: "EQ",
            action: MenuAction::GoToScreen(ScreenId::Equalizer),
            enabled: true,
        },
        MenuItem {
            label: "Settings",
            action: MenuAction::GoToScreen(ScreenId::Settings),
            enabled: true,
        },
    ]
}

/// The main menu.
pub fn create_main_menu() -> (menu: Menu)
    ensures
        menu@.wf(),
        menu@ == (MenuModel { items: main_menu_items(), ..MenuModel::empty("Menu"@) }),
{
    let mut menu = Menu::new("Menu");
    menu.add_item(MenuItem::new("Volume", MenuAction::AdjustVolume));
    menu.add_item(MenuItem::new("Source", MenuAction::GoToScreen(ScreenId::SourceSelect)));
    menu.add_item(MenuItem::new("EQ", MenuAction::GoToScreen(ScreenId::Equalizer)));
    menu.add_item(MenuItem::new("Settings", MenuAction::GoToScreen(ScreenId::Settings)));
    assert(menu@.items =~= main_menu_items());
    menu
}

/// The items of the source menu.
pub open spec fn source_menu_items() -> Seq<MenuItem> {
    seq![
        MenuItem {
            label: "Auto",
            action: MenuAction::SelectSource(AudioSource::NoSource),
            enabled: true,
        },
        MenuItem {
            label: "Line In",
            action: MenuAction::SelectSource(AudioSource::LineIn),
            enabled: true,
        },
        MenuItem {
            label: "S/PDIF",
            action: MenuAction::SelectSource(AudioSource::Spdif),
            enabled: true,
        },
        MenuItem {
            label: "USB Audio",
            action: MenuAction::SelectSource(AudioSource::Usb),
            enabled: true,
        },
        MenuItem { label: "< Back", action: MenuAction::Back, enabled: true },
    ]
}

/// The source selection menu.
pub fn create_source_menu() -> (menu: Menu)
    ensures
        menu@.wf(),
        menu@ == (MenuModel { items: source_menu_items(), ..MenuModel::empty("Source"@) }),
{
    let mut menu = Menu::new("Source");
    menu.add_item(MenuItem::new("Auto", MenuAction::SelectSource(AudioSource::NoSource)));
    menu.add_item(MenuItem::new("Line In", MenuAction::SelectSource(AudioSource::LineIn)));
    menu.add_item(MenuItem::new("S/PDIF", MenuAction::SelectSource(AudioSource::Spdif)));
    menu.add_item(MenuItem::new("USB Audio", MenuAction::SelectSource(AudioSource::Usb)));
    menu.add_item(MenuItem::new("< Back", MenuAction::Back));
    assert(menu@.items =~= source_menu_items());
    menu
}

/// Moving the selection keeps it on an item and on the screen, and one step
/// down is undone by one step up, as far as the selection goes.
pub proof fn law_selection_moves(m: MenuModel)
    requires
        m.wf(),
    ensures
        m.next().wf(),
        m.previous().wf(),
        m.selected + 1 < m.items.len() ==> m.next().previous().selected == m.selected,
        m.selected > 0 ==> m.previous().next().selected == m.selected,
{
}

/// The menu scrolls no further than it takes to show the selected item, which is
/// then the first or the last visible one; a visible one does not scroll.
pub proof fn law_least_scrolling(m: MenuModel, index: int)
    requires
        m.wf(),
        0 <= index < m.items.len(),
    ensures
        ({
            let after = m.with_selected(index);
            &&& after.selected == index
            &&& after.scroll <= index <= after.scroll + 3
            &&& m.scroll <= index <= m.scroll + 3 ==> after.scroll == m.scroll
            &&& index < m.scroll ==> after.scroll == index
            &&& index > m.scroll + 3 ==> after.scroll + 3 == index
            &&& after.items == m.items && after.title == m.title
        }),
{
}

/// One step moves the selection by one item, and none beyond the first and the
/// last.
pub proof fn law_steps(m: MenuModel)
    requires
        m.wf(),
    ensures
        m.next().selected == if m.selected + 1 < m.items.len() {
            m.selected + 1
        } else {
            m.selected
        },
        m.previous().selected == if m.selected > 0 {
            m.selected - 1
        } else {
            0
        },
        m.next().items == m.items && m.previous().items == m.items,
        m.selected + 1 >= m.items.len() ==> m.next() == m,
        m.selected == 0 ==> m.previous() == m,
{
}

/// The action is that of the selected item; a disabled item, and an empty menu,
/// have none.
pub proof fn law_selected_action(m: MenuModel)
    requires
        m.wf(),
    ensures
        m.items.len() == 0 ==> m.action() == MenuAction::NoAction,
        m.items.len() > 0 && m.items[m.selected].enabled ==> m.action()
            == m.items[m.selected].action,
        m.items.len() > 0 && !m.items[m.selected].enabled ==> m.action() == MenuAction::NoAction,
{
}

/// Items are twelve rows apart from the first visible one on. The selected one is
/// dark on a lit row, the others are lit.
pub proof fn law_rows(m: MenuModel, i: int, y0: int)
    requires
        m.wf(),
        m.scroll <= i < m.visible_end(),
        -1000 <= y0 <= 1000,
    ensures
        m.row(i, y0).last() matches crate::gui::canvas::Figure::Text {
            text,
            x,
            y,
            font,
            align,
            on,
        } && text == m.items[i].label@ && x == 4 && y == y0 + 12 * (i - m.scroll) + 10 && font
            == Font::Normal && align == Align::Left && on == (i != m.selected),
        i != m.selected ==> m.row(i, y0).len() == 1,
        i == m.selected ==> m.row(i, y0).len() == 2 && (m.row(i, y0)[0] matches
            crate::gui::canvas::Figure::Fill { area, on } && on && area.x == 0 && area.y == y0 + 12
            * (i - m.scroll) && area.width == 128 && area.height == 12),
{
}

/// At most four items are visible, from the scroll position on, and all of a short
/// menu.
pub proof fn law_visible(m: MenuModel)
    requires
        m.wf(),
    ensures
        m.visible_end() <= m.items.len(),
        m.visible_end() <= m.scroll + 4,
        m.visible_end() == m.items.len() || m.visible_end() == m.scroll + 4,
        m.items.len() > 0 ==> m.scroll <= m.selected < m.visible_end(),
{
}

/// Rows are drawn in the order of their items, each of the visible ones once.
pub proof fn law_rows_in_order(m: MenuModel, i: int, y0: int)
    requires
        m.wf(),
        m.scroll <= i,
    ensures
        m.rows(m.scroll, y0).len() == 0,
        m.rows(i + 1, y0) == m.rows(i, y0) + m.row(i, y0),
{
}

/// A mark above shows that items are hidden there, one below likewise.
pub proof fn law_marks(m: MenuModel, y0: int)
    requires
        m.wf(),
        -1000 <= y0 <= 1000,
    ensures
        ({
            let rows = m.rows(m.visible_end(), y0);
            let f = m.figures(y0);
            let n = f.len() as int;
            let above = m.scroll > 0;
            let below = m.visible_end() < m.items.len();
            &&& n == rows.len() + (if above {
                1int
            } else {
                0
            }) + (if below {
                1int
            } else {
                0
            })
            &&& f.take(rows.len() as int) == rows
            &&& above ==> f[rows.len() as int] == crate::gui::canvas::plain(
                "^"@,
                120,
                y0 + 8,
                Align::Left,
            )
            &&& below ==> f[n - 1] == crate::gui::canvas::plain("v"@, 120, y0 + 44, Align::Left)
        }),
{
    let rows = m.rows(m.visible_end(), y0);
    assert(m.figures(y0).take(rows.len() as int) =~= rows);
}

/// The items of the main menu lead to their screens.
pub proof fn law_main_menu(i: int)
    requires
        0 <= i < 4,
    ensures
        main_menu_items().len() == 4,
        main_menu_items()[i].enabled,
        main_menu_items()[i].action == if i == 0 {
            MenuAction::AdjustVolume
        } else {
            MenuAction::GoToScreen(
                if i == 1 {
                    ScreenId::SourceSelect
                } else if i == 2 {
                    ScreenId::Equalizer
                } else {
                    ScreenId::Settings
                },
            )
        },
{
}

/// The items of the source menu choose their sources, the first none in
/// particular, and the last goes back.
pub proof fn law_source_menu(i: int)
    requires
        0 <= i < 5,
    ensures
        source_menu_items().len() == 5,
        source_menu_items()[i].enabled,
        source_menu_items()[i].action == if i == 4 {
            MenuAction::Back
        } else {
            MenuAction::SelectSource(
                if i == 0 {
                    AudioSource::NoSource
                } else if i == 1 {
                    AudioSource::LineIn
                } else if i == 2 {
                    AudioSource::Spdif
                } else {
                    AudioSource::Usb
                },
            )
        },
{
}

/// The selection moves by one item in the direction asked for, no further than the
/// ends, and a chosen index is selected if there is such an item.
pub proof fn law_selecting(
    up: &mut Menu,
    down: &mut Menu,
    chosen: &mut Menu,
    index: usize,
)
    requires
        old(up)@.wf(),
        old(down)@.wf(),
        old(chosen)@.wf(),
        call_ensures(Menu::select_previous, (up,), ()),
        call_ensures(Menu::select_next, (down,), ()),
        call_ensures(Menu::set_selected, (chosen, index), ()),
    ensures
        final(up)@.selected == if old(up)@.selected > 0 {
            old(up)@.selected - 1
        } else {
            0
        },
        old(down)@.selected + 1 < old(down)@.items.len() ==> final(down)@.selected == old(
            down)@.selected + 1,
        old(down)@.selected + 1 >= old(down)@.items.len() ==> final(down)@ == old(down)@,
        index < old(chosen)@.items.len() ==> final(chosen)@.selected == index,
        index >= old(chosen)@.items.len() ==> final(chosen)@ == old(chosen)@,
        final(up)@.items == old(up)@.items && final(down)@.items == old(down)@.items && final(
            chosen)@.items == old(chosen)@.items,
        final(up)@.scroll <= final(up)@.selected <= final(up)@.scroll + 3,
        final(down)@.scroll <= final(down)@.selected <= final(down)@.scroll + 3,
        final(chosen)@.scroll <= final(chosen)@.selected <= final(chosen)@.scroll + 3,
{
    law_steps(old(up)@);
    law_steps(old(down)@);
}

/// Items are added at the end, up to eight; clearing removes all but the title.
pub proof fn law_filling(menu: &mut Menu, item: MenuItem, cleared: &mut Menu)
    requires
        old(menu)@.wf(),
        call_ensures(Menu::add_item, (menu, item), ()),
        call_ensures(Menu::clear, (cleared,), ()),
    ensures
        old(menu)@.items.len() < 8 ==> final(menu)@.items == old(menu)@.items.push(item),
        old(menu)@.items.len() >= 8 ==> final(menu)@.items == old(menu)@.items,
        final(menu)@.selected == old(menu)@.selected && final(menu)@.scroll == old(menu)@.scroll,
        final(cleared)@.items.len() == 0 && final(cleared)@.selected == 0,
        final(cleared)@.title == old(cleared)@.title,
{
}

/// What is selected, and what a menu draws.
pub proof fn law_selected(
    menu: Menu,
    item: Option<&MenuItem>,
    action: MenuAction,
    canvas: &mut Canvas,
    y: i32,
)
    requires
        menu@.wf(),
        -1000 <= y <= 1000,
        call_ensures(Menu::selected_item, (&menu,), item),
        call_ensures(Menu::selected_action, (&menu,), action),
        call_ensures(Menu::draw, (&menu, canvas, y), ()),
    ensures
        item is None <==> menu@.items.len() == 0,
        item matches Some(i) ==> *i == menu@.items[menu@.selected] && action == if i.enabled {
            i.action
        } else {
            MenuAction::NoAction
        },
        item is None ==> action == MenuAction::NoAction,
        final(canvas)@ == old(canvas)@ + menu@.figures(y as int),
{
}

} // verus!
