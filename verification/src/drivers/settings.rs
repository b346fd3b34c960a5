//! Persistent settings in the last sector of the flash.
//!
//! The sector is an append-log: each save writes a 4-byte entry to the next
//! free slot, and the sector is erased only when it is full. A write takes far
//! less time than an erase and causes no audible stutter.

use vstd::prelude::*;

use crate::storage::FlashOp;

verus! {

/// The settings sector.
pub const SETTINGS_OFFSET: u32 = 0x7F_F000;

/// Size of an entry.
pub const ENTRY_SIZE: usize = 4;

/// Entries in the sector.
pub const MAX_ENTRIES: usize = 1024;

/// First byte of a valid entry.
pub const MAGIC: u8 = 0xA5;

/// Settings that outlive a restart.
#[derive(Debug, Clone, Copy, PartialEq, Eq, Structural)]
pub struct PersistedSettings {
    pub volume: u8,
    pub muted: bool,
}

impl PersistedSettings {
    pub open spec fn initial() -> PersistedSettings {
        PersistedSettings { volume: 50, muted: false }
    }
}

impl Default for PersistedSettings {
    fn default() -> (s: Self)
        ensures
            s == PersistedSettings::initial(),
    {
        PersistedSettings { volume: 50, muted: false }
    }
}

/// First free slot from slot `i` on: the first whose first byte is erased, or
/// the number of slots.
pub open spec fn free_slot(sector: Seq<u8>, i: int) -> int
    decreases sector.len() - 4 * i,
{
    if 4 * i + 4 > sector.len() || sector[4 * i] == 0xFF {
        i
    } else {
        free_slot(sector, i + 1)
    }
}

/// Last of the first `n` slots that holds a valid entry.
pub open spec fn last_valid(sector: Seq<u8>, n: int) -> Option<int>
    decreases n,
{
    if n <= 0 {
        None
    } else if sector[4 * (n - 1)] == MAGIC {
        Some(n - 1)
    } else {
        last_valid(sector, n - 1)
    }
}

/// The entry in force: the last valid one before the first free slot.
pub open spec fn current_entry(sector: Seq<u8>) -> Option<int> {
    last_valid(sector, free_slot(sector, 0))
}

/// The settings in an entry.
pub open spec fn entry_settings(sector: Seq<u8>, i: int) -> PersistedSettings {
    PersistedSettings {
        volume: if sector[4 * i + 1] < 100 {
            sector[4 * i + 1]
        } else {
            100
        },
        muted: sector[4 * i + 2] != 0,
    }
}

/// The settings in a sector.
pub open spec fn settings_of(sector: Seq<u8>) -> PersistedSettings {
    match current_entry(sector) {
        Some(i) => entry_settings(sector, i),
        None => PersistedSettings::initial(),
    }
}

proof fn lemma_free_slot(sector: Seq<u8>, i: int)
    requires
        0 <= i,
        4 * i <= sector.len(),
    ensures
        i <= free_slot(sector, i),
        4 * free_slot(sector, i) <= sector.len(),
        4 * free_slot(sector, i) + 4 <= sector.len() ==> sector[4 * free_slot(sector, i)] == 0xFF,
        forall|j: int| i <= j < free_slot(sector, i) ==> #[trigger] sector[4 * j] != 0xFF,
    decreases sector.len() - 4 * i,
{
    if 4 * i + 4 <= sector.len() && sector[4 * i] != 0xFF {
        lemma_free_slot(sector, i + 1);
    }
}

proof fn lemma_last_valid(sector: Seq<u8>, n: int)
    ensures
        last_valid(sector, n) matches Some(i) ==> 0 <= i < n && sector[4 * i] == MAGIC,
    decreases n,
{
    if n > 0 && sector[4 * (n - 1)] != MAGIC {
        lemma_last_valid(sector, n - 1);
    }
}

fn find_free_slot(sector: &[u8]) -> (slot: usize)
    requires
        sector@.len() <= crate::storage::ERASE_SIZE,
    ensures
        slot == free_slot(sector@, 0),
        4 * slot <= sector@.len(),
{
    let mut i: usize = 0;
    while i < sector.len() / 4 && sector[i * 4] != 0xFF
        invariant
            i <= sector@.len() / 4,
            sector@.len() <= crate::storage::ERASE_SIZE,
            free_slot(sector@, 0) == free_slot(sector@, i as int),
        decreases sector@.len() / 4 - i,
    {
        i = i + 1;
    }
    i
}

/// Finds the entry in force in the sector, or in as much of it as could be
/// read.
pub fn find_last_entry(sector: &[u8]) -> (entry: Option<usize>)
    requires
        sector@.len() <= crate::storage::ERASE_SIZE,
    ensures
        match entry {
            Some(i) => current_entry(sector@) == Some(i as int) && 4 * i + 4 <= sector@.len(),
            None => current_entry(sector@) is None,
        },
{
    let end: usize = find_free_slot(sector);
    let mut n: usize = end;
    while n > 0
        invariant
            n <= end,
            4 * end <= sector@.len() <= crate::storage::ERASE_SIZE,
            last_valid(sector@, end as int) == last_valid(sector@, n as int),
            end == free_slot(sector@, 0),
        decreases n,
    {
        if sector[(n - 1) * 4] == MAGIC {
            return Some(n - 1);
        }
        n = n - 1;
    }
    None
}

/// Loads the settings, the defaults if no valid entry is found.
pub fn load(sector: &[u8]) -> (settings: PersistedSettings)
    requires
        sector@.len() <= crate::storage::ERASE_SIZE,
    ensures
        settings == settings_of(sector@),
{
    match find_last_entry(sector) {
        Some(i) => {
            let volume: u8 = sector[i * 4 + 1];
            PersistedSettings {
                volume: if volume < 100 {
                    volume
                } else {
                    100
                },
                muted: sector[i * 4 + 2] != 0,
            }
        },
        None => PersistedSettings::default(),
    }
}

/// The bytes of an entry.
pub open spec fn entry_of(settings: PersistedSettings) -> Seq<u8> {
    seq![
        MAGIC,
        settings.volume,
        if settings.muted {
            1
        } else {
            0
        },
        0xFF,
    ]
}

/// Whether a save erases the sector first: if it holds no valid entry but
/// something else, or no slot is free behind the valid entries.
pub open spec fn needs_erase(sector: Seq<u8>) -> bool {
    match current_entry(sector) {
        Some(_) => free_slot(sector, 0) >= MAX_ENTRIES,
        None => sector.len() > 0 && sector[0] != 0xFF,
    }
}

/// The slot that a save writes.
pub open spec fn save_slot(sector: Seq<u8>) -> int {
    if needs_erase(sector) || current_entry(sector) is None {
        0
    } else {
        free_slot(sector, 0)
    }
}

pub open spec fn save_steps(
    sector: Seq<u8>,
    settings: PersistedSettings,
) -> Seq<crate::storage::FlashStep> {
    let write = crate::storage::FlashStep::Write {
        offset: SETTINGS_OFFSET + 4 * save_slot(sector),
        bytes: entry_of(settings),
    };
    if needs_erase(sector) {
        seq![
            crate::storage::FlashStep::Erase {
                from: SETTINGS_OFFSET as int,
                to: SETTINGS_OFFSET + crate::storage::ERASE_SIZE,
            },
            write,
        ]
    } else {
        seq![write]
    }
}

/// The operations that save settings, given the sector, or as much of it as
/// could be read.
pub fn save(sector: &[u8], settings: &PersistedSettings) -> (ops: Vec<FlashOp>)
    requires
        sector@.len() <= crate::storage::ERASE_SIZE,
    ensures
        crate::storage::steps(ops@) == save_steps(sector@, *settings),
{
    let mut erase: bool = false;
    let mut slot: usize = 0;
    match find_last_entry(sector) {
        Some(_) => {
            slot = find_free_slot(sector);
            if slot >= MAX_ENTRIES {
                erase = true;
                slot = 0;
            }
        },
        None => {
            if sector.len() > 0 && sector[0] != 0xFF {
                erase = true;
            }
        },
    }
    let mut bytes: Vec<u8> = Vec::new();
    bytes.push(MAGIC);
    bytes.push(settings.volume);
    bytes.push(
        if settings.muted {
            1
        } else {
            0
        },
    );
    bytes.push(0xFF);
    assert(bytes@ =~= entry_of(*settings));
    let mut ops: Vec<FlashOp> = Vec::new();
    if erase {
        ops.push(
            FlashOp::Erase {
                from: SETTINGS_OFFSET,
                to: SETTINGS_OFFSET + crate::storage::ERASE_SIZE as u32,
            },
        );
    }
    ops.push(FlashOp::Write { offset: SETTINGS_OFFSET + (slot * ENTRY_SIZE) as u32, bytes });
    assert(crate::storage::steps(ops@) =~= save_steps(sector@, *settings));
    ops
}

/// The settings sector of a flash.
pub open spec fn sector_of(flash: Seq<u8>) -> Seq<u8> {
    flash.subrange(SETTINGS_OFFSET as int, SETTINGS_OFFSET + crate::storage::ERASE_SIZE)
}

/// The flash after settings were saved.
pub open spec fn saved(flash: Seq<u8>, settings: PersistedSettings) -> Seq<u8> {
    crate::storage::run(flash, save_steps(sector_of(flash), settings))
}

/// Settings as they are read back: a volume above 100 is read as 100.
pub open spec fn limited(settings: PersistedSettings) -> PersistedSettings {
    PersistedSettings {
        volume: if settings.volume < 100 {
            settings.volume
        } else {
            100
        },
        ..settings
    }
}

/// The sector is a log of `n` entries: valid ones in the first `n` slots, and
/// nothing but erased bytes behind them.
pub open spec fn is_log(sector: Seq<u8>, n: int) -> bool {
    &&& sector.len() == crate::storage::ERASE_SIZE
    &&& 0 <= n <= MAX_ENTRIES
    &&& forall|j: int| 0 <= j < n ==> #[trigger] sector[4 * j] == MAGIC
    &&& crate::storage::erased(sector, 4 * n, 4096)
}

proof fn lemma_log(sector: Seq<u8>, n: int)
    requires
        is_log(sector, n),
    ensures
        free_slot(sector, 0) == n,
        current_entry(sector) == if n == 0 {
            None
        } else {
            Some(n - 1)
        },
{
    lemma_free_slot(sector, 0);
    let f = free_slot(sector, 0);
    if f < n {
        assert(sector[4 * f] == MAGIC);
    } else if f > n {
        assert(sector[4 * n] == 0xFF);
    }
    if n > 0 {
        assert(sector[4 * (n - 1)] == MAGIC);
    }
}

/// A save without an erase is sound: the slot taken is erased throughout, and
/// no valid entry stands right behind it.
pub open spec fn clean_slot(sector: Seq<u8>) -> bool {
    let slot = save_slot(sector);
    &&& crate::storage::erased(sector, 4 * slot, 4 * slot + 4)
    &&& forall|j: int|
        slot < j < free_slot(sector, slot + 1) ==> #[trigger] sector[4 * j] != MAGIC
}

/// Once saved, settings are what is loaded, whatever the sector held before: a
/// corrupt or full one is erased, and otherwise the slot taken has to be clean.
pub proof fn law_load_gives_back_save(flash: Seq<u8>, settings: PersistedSettings)
    requires
        flash.len() == crate::storage::FLASH_SIZE,
        needs_erase(sector_of(flash)) || clean_slot(sector_of(flash)),
    ensures
        settings_of(sector_of(saved(flash, settings))) == limited(settings),
{
    let sector = sector_of(flash);
    let slot = save_slot(sector);
    let steps = save_steps(sector, settings);
    let entry = entry_of(settings);
    lemma_free_slot(sector, 0);
    lemma_last_valid(sector, free_slot(sector, 0));
    let base = if needs_erase(sector) {
        crate::storage::stepped(flash, steps[0])
    } else {
        flash
    };
    let at = SETTINGS_OFFSET + 4 * slot;
    assert(crate::storage::erased(base, at, at + 4)) by {
        if !needs_erase(sector) {
            assert forall|i: int| at <= i < at + 4 implies #[trigger] base[i] == 0xFF by {
                assert(sector[i - SETTINGS_OFFSET] == 0xFF);
            }
        }
    }
    crate::storage::lemma_write_erased(base, at, entry);
    let after = crate::bytes::spliced(base, at, entry);
    reveal_with_fuel(crate::storage::run, 3);
    if needs_erase(sector) {
        assert(steps.skip(1)[0] == steps[1]);
        assert(steps.skip(1).skip(1) =~= Seq::empty());
        assert(saved(flash, settings) == after);
    } else {
        assert(steps.skip(1) =~= Seq::empty());
        assert(saved(flash, settings) == after);
    }
    let result = sector_of(after);
    assert(result[4 * slot] == MAGIC);
    assert(forall|j: int| 0 <= j < slot ==> #[trigger] result[4 * j] == sector[4 * j]);
    lemma_free_behind(result, 0, slot + 1);
    lemma_free_slot(result, slot + 1);
    if needs_erase(sector) {
        if free_slot(result, 1) > 1 {
            assert(result[4 * (slot + 1)] != 0xFF);
        }
    } else {
        lemma_free_same(result, sector, slot + 1);
    }
    assert forall|j: int| slot < j < free_slot(result, 0) implies #[trigger] result[4 * j]
        != MAGIC by {
        if !needs_erase(sector) {
            assert(sector[4 * j] != MAGIC);
        }
    }
    lemma_newest_from(result, slot, free_slot(result, 0));
}

/// Taken slots do not stop the search.
proof fn lemma_free_behind(sector: Seq<u8>, from: int, to: int)
    requires
        0 <= from <= to,
        4 * to <= sector.len(),
        forall|j: int| from <= j < to ==> #[trigger] sector[4 * j] != 0xFF,
    ensures
        free_slot(sector, from) == free_slot(sector, to),
    decreases to - from,
{
    if from < to {
        assert(sector[4 * from] != 0xFF);
        lemma_free_behind(sector, from + 1, to);
    }
}

proof fn lemma_free_same(a: Seq<u8>, b: Seq<u8>, from: int)
    requires
        0 <= from,
        a.len() == b.len(),
        forall|j: int| from <= j && 4 * j < a.len() ==> #[trigger] a[4 * j] == b[4 * j],
    ensures
        free_slot(a, from) == free_slot(b, from),
        4 * from <= a.len() ==> 4 * free_slot(b, from) <= a.len(),
    decreases a.len() - 4 * from,
{
    if 4 * from + 4 <= a.len() {
        assert(a[4 * from] == b[4 * from]);
        if a[4 * from] != 0xFF {
            lemma_free_same(a, b, from + 1);
        }
    }
}

/// The entry at `slot` is in force if no valid entry follows it.
proof fn lemma_newest_from(sector: Seq<u8>, slot: int, n: int)
    requires
        0 <= slot < n,
        sector[4 * slot] == MAGIC,
        forall|j: int| slot < j < n ==> #[trigger] sector[4 * j] != MAGIC,
    ensures
        last_valid(sector, n) == Some(slot),
    decreases n,
{
    if n > slot + 1 {
        assert(sector[4 * (n - 1)] != MAGIC);
        lemma_newest_from(sector, slot, n - 1);
    }
}

/// Saving keeps the sector a log: it grows by one entry, and once it is full it
/// starts over with one.
pub proof fn law_save_keeps_log(flash: Seq<u8>, settings: PersistedSettings, n: int)
    requires
        flash.len() == crate::storage::FLASH_SIZE,
        is_log(sector_of(flash), n),
    ensures
        needs_erase(sector_of(flash)) == (n == MAX_ENTRIES),
        is_log(
            sector_of(saved(flash, settings)),
            if n == MAX_ENTRIES {
                1
            } else {
                n + 1
            },
        ),
        settings_of(sector_of(saved(flash, settings))) == limited(settings),
{
    let sector = sector_of(flash);
    lemma_log(sector, n);
    let slot = save_slot(sector);
    if n == 0 {
        assert(sector[0] == 0xFF);
    }
    if n < MAX_ENTRIES {
        assert(slot == n);
        assert(crate::storage::erased(sector, 4 * slot, 4 * slot + 4));
        lemma_free_slot(sector, slot + 1);
        if free_slot(sector, slot + 1) > slot + 1 {
            assert(sector[4 * (slot + 1)] == 0xFF);
        }
        assert(clean_slot(sector));
    }
    law_load_gives_back_save(flash, settings);
    let steps = save_steps(sector, settings);
    let base = if needs_erase(sector) {
        crate::storage::stepped(flash, steps[0])
    } else {
        flash
    };
    let at = SETTINGS_OFFSET + 4 * slot;
    assert(crate::storage::erased(base, at, at + 4)) by {
        if !needs_erase(sector) {
            assert forall|i: int| at <= i < at + 4 implies #[trigger] base[i] == 0xFF by {
                assert(sector[i - SETTINGS_OFFSET] == 0xFF);
            }
        }
    }
    crate::storage::lemma_write_erased(base, at, entry_of(settings));
    reveal_with_fuel(crate::storage::run, 3);
    let after = crate::bytes::spliced(base, at, entry_of(settings));
    if needs_erase(sector) {
        assert(steps.skip(1)[0] == steps[1]);
        assert(steps.skip(1).skip(1) =~= Seq::empty());
    } else {
        assert(steps.skip(1) =~= Seq::empty());
    }
    assert(saved(flash, settings) == after);
    let result = sector_of(after);
    assert forall|i: int| 4 * (slot + 1) <= i < 4096 implies #[trigger] result[i] == 0xFF by {
        if !needs_erase(sector) {
            assert(sector[i] == 0xFF);
        }
    }
    assert forall|j: int| 0 <= j < slot + 1 implies #[trigger] result[4 * j] == MAGIC by {
        if j < slot {
            assert(sector[4 * j] == MAGIC);
        }
    }
}

/// An entry is four bytes: 0xA5, the volume, the mute flag and one that stays
/// erased. Reading it, wherever it stands, gives the settings back, with a volume
/// above 100 read as 100.
pub proof fn law_entries(settings: PersistedSettings, sector: Seq<u8>, i: int)
    requires
        0 <= i,
        4 * i + 4 <= sector.len(),
        sector.subrange(4 * i, 4 * i + 4) == entry_of(settings),
    ensures
        entry_of(settings).len() == 4,
        entry_of(settings)[0] == 0xA5,
        entry_of(settings)[1] == settings.volume,
        entry_of(settings)[2] == 0 <==> !settings.muted,
        entry_of(settings)[3] == 0xFF,
        entry_settings(sector, i).muted == settings.muted,
        settings.volume <= 100 ==> entry_settings(sector, i) == settings,
        settings.volume > 100 ==> entry_settings(sector, i).volume == 100,
        entry_settings(sector, i) == limited(settings),
{
    let entry = entry_of(settings);
    assert(sector.subrange(4 * i, 4 * i + 4)[1] == sector[4 * i + 1]);
    assert(sector.subrange(4 * i, 4 * i + 4)[2] == sector[4 * i + 2]);
}

/// The first free slot is erased in its first byte and no slot before it is; the
/// entry in force is the last valid one before it.
pub proof fn law_entry_in_force(sector: Seq<u8>, j: int)
    requires
        0 <= j,
        4 * j + 4 <= sector.len(),
    ensures
        j < free_slot(sector, 0) ==> sector[4 * j] != 0xFF,
        j == free_slot(sector, 0) ==> sector[4 * j] == 0xFF,
        match current_entry(sector) {
            Some(i) => {
                &&& 0 <= i < free_slot(sector, 0)
                &&& sector[4 * i] == 0xA5
                &&& i < j < free_slot(sector, 0) ==> sector[4 * j] != 0xA5
            },
            None => j < free_slot(sector, 0) ==> sector[4 * j] != 0xA5,
        },
        0 <= free_slot(sector, 0) <= sector.len() as int / 4,
{
    lemma_free_slot(sector, 0);
    lemma_last_valid(sector, free_slot(sector, 0));
    lemma_no_later_valid(sector, free_slot(sector, 0), j);
}

proof fn lemma_no_later_valid(sector: Seq<u8>, n: int, j: int)
    requires
        0 <= j < n || n <= j,
    ensures
        j < n && sector[4 * j] == MAGIC ==> (last_valid(sector, n) matches Some(i) && i >= j),
    decreases n,
{
    if 0 <= j < n && sector[4 * (n - 1)] != MAGIC {
        if j < n - 1 {
            lemma_no_later_valid(sector, n - 1, j);
        }
    }
}

/// Without an entry the settings are half volume, not muted. Loaded settings are
/// never above 100 %.
pub proof fn law_loaded_settings(sector: Seq<u8>)
    ensures
        current_entry(sector) is None ==> settings_of(sector).volume == 50 && !settings_of(
            sector,
        ).muted,
        settings_of(sector).volume <= 100,
{
}

/// A sector that holds anything but valid entries is erased before it is written,
/// and so is a full one; an empty one and one with room are not.
pub proof fn law_when_erased(sector: Seq<u8>)
    requires
        sector.len() == 4096,
    ensures
        sector[0] == 0xFF ==> !needs_erase(sector) && save_slot(sector) == 0,
        sector[0] != 0xFF && current_entry(sector) is None ==> needs_erase(sector),
        current_entry(sector) is Some ==> (needs_erase(sector) <==> free_slot(sector, 0) == 1024),
        needs_erase(sector) ==> save_slot(sector) == 0,
        current_entry(sector) is Some && !needs_erase(sector) ==> save_slot(sector) == free_slot(
            sector,
            0,
        ),
        0 <= save_slot(sector) < 1024,
{
    lemma_free_slot(sector, 0);
    lemma_last_valid(sector, free_slot(sector, 0));
    if sector[0] == 0xFF {
        assert(sector[0] == 0xFF);
        assert(free_slot(sector, 0) == 0);
    }
}

/// Saving changes nothing outside the last sector of the flash, from 0x7FF000 on.
pub proof fn law_save_stays_in_sector(flash: Seq<u8>, settings: PersistedSettings, i: int)
    requires
        flash.len() == crate::storage::FLASH_SIZE,
        0 <= i < 0x7F_F000,
    ensures
        saved(flash, settings).len() == flash.len(),
        saved(flash, settings)[i] == flash[i],
{
    let steps = save_steps(sector_of(flash), settings);
    lemma_free_slot(sector_of(flash), 0);
    reveal_with_fuel(crate::storage::run, 3);
    if needs_erase(sector_of(flash)) {
        assert(steps.skip(1)[0] == steps[1]);
        assert(steps.skip(1).skip(1) =~= Seq::empty());
    } else {
        assert(steps.skip(1) =~= Seq::empty());
    }
}

/// What is loaded from a sector, and what the accesses that save settings do.
pub proof fn law_loading_and_saving(
    sector: &[u8],
    loaded: PersistedSettings,
    entry: Option<usize>,
    settings: PersistedSettings,
    ops: Vec<FlashOp>,
    flash: Seq<u8>,
)
    requires
        flash.len() == crate::storage::FLASH_SIZE,
        sector@ == sector_of(flash),
        needs_erase(sector@) || clean_slot(sector@),
        call_ensures(load, (sector,), loaded),
        call_ensures(find_last_entry, (sector,), entry),
        call_ensures(save, (sector, &settings), ops),
    ensures
        entry is None ==> loaded.volume == 50 && !loaded.muted,
        entry is Some ==> sector@[4 * entry->0] == 0xA5 && loaded.volume <= sector@[4 * entry->0
            + 1] && loaded.volume <= 100 && (loaded.volume == 100 || loaded.volume == sector@[4
            * entry->0 + 1]) && (loaded.muted <==> sector@[4 * entry->0 + 2] != 0),
        settings_of(sector_of(crate::storage::run(flash, crate::storage::steps(ops@)))).muted
            == settings.muted,
        settings.volume <= 100 ==> settings_of(
            sector_of(crate::storage::run(flash, crate::storage::steps(ops@))),
        ).volume == settings.volume,
{
    law_load_gives_back_save(flash, settings);
    if entry is Some {
        law_entry_in_force(sector@, entry->0 as int);
    }
}

} // verus!
