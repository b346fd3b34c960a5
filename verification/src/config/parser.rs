//! INI-like configuration parser.
//!
//! Parses `[section]`, `key = value` and `# comment` lines into a
//! [`DspConfigFile`]. Lines that make no sense are skipped.

use vstd::prelude::*;
use vstd::string::StringSliceAdditionalSpecFns;

use crate::config::number::{
    find, parse_decimal, parse_hex_u8, parse_i16, parse_u32, parse_u8,
};
use crate::config::pairs::{pairs_full, push_pair};
use crate::config::DspConfigFile;
use crate::drivers::tas5830::{Decimal, FilterType, Gain923, MixerGains, MixerMode};

verus! {

/// Parse error with its line.
#[derive(Debug, Clone, Copy, PartialEq, Eq, Structural)]
pub struct ParseError {
    pub line: u16,
    pub kind: ParseErrorKind,
}

#[derive(Debug, Clone, Copy, PartialEq, Eq, Structural)]
pub enum ParseErrorKind {
    InvalidSection,
    InvalidKeyValue,
    InvalidNumber,
    InvalidFilterType,
    InvalidMixerMode,
    TooManyProcessingPairs,
}

/// Section of the file.
#[derive(Debug, Clone, Copy, PartialEq, Eq, Structural)]
pub enum Section {
    /// Before the first section.
    Outside,
    Unknown,
    Device,
    Mixer,
    ChannelVolume,
    Volume,
    Eq,
    EqBand(u8),
    Processing,
}

// Lines

/// End of the line that starts at `pos`: the next line feed, or the end.
pub open spec fn line_end(data: Seq<u8>, pos: int) -> int {
    crate::config::number::position_of(data, 0x0A, pos)
}

/// The line that starts at `pos`, without its line feed and one carriage return
/// before it.
pub open spec fn line_at(data: Seq<u8>, pos: int) -> Seq<u8> {
    let end = line_end(data, pos);
    data.subrange(
        pos,
        if end > pos && data[end - 1] == 0x0D {
            end - 1
        } else {
            end
        },
    )
}

/// Start of the line after the one at `pos`.
pub open spec fn next_line(data: Seq<u8>, pos: int) -> int {
    let end = line_end(data, pos);
    if end < data.len() {
        end + 1
    } else {
        end
    }
}

/// The lines from `pos` on.
pub open spec fn lines_from(data: Seq<u8>, pos: int) -> Seq<Seq<u8>>
    decreases data.len() - pos,
    when 0 <= pos
{
    if pos >= data.len() {
        Seq::empty()
    } else {
        proof {
            lemma_next_line(data, pos);
        }
        seq![line_at(data, pos)] + lines_from(data, next_line(data, pos))
    }
}

pub proof fn lemma_next_line(data: Seq<u8>, pos: int)
    requires
        0 <= pos < data.len(),
    ensures
        pos <= line_end(data, pos) <= data.len(),
        pos < next_line(data, pos) <= data.len(),
{
    crate::config::number::lemma_position(data, 0x0A, pos);
}

/// Lines of a byte slice.
pub struct LineIter<'a> {
    data: &'a [u8],
    pos: usize,
}

impl<'a> LineIter<'a> {
    pub closed spec fn bytes(self) -> Seq<u8> {
        self.data@
    }

    pub closed spec fn at(self) -> int {
        self.pos as int
    }

    pub closed spec fn wf(self) -> bool {
        self.pos <= self.data@.len()
    }

    /// The lines still to come.
    pub open spec fn rest(self) -> Seq<Seq<u8>> {
        lines_from(self.bytes(), self.at())
    }

    pub fn new(data: &'a [u8]) -> (iter: Self)
        ensures
            iter.wf(),
            iter.bytes() == data@,
            iter.at() == 0,
    {
        LineIter { data, pos: 0 }
    }

    /// The next line.
    pub fn next(&mut self) -> (line: Option<&'a [u8]>)
        requires
            old(self).wf(),
        ensures
            final(self).wf(),
            final(self).bytes() == old(self).bytes(),
            match line {
                None => old(self).rest().len() == 0 && final(self).at() == old(self).at(),
                Some(line) => {
                    &&& old(self).rest() == seq![line@] + final(self).rest()
                    &&& final(self).at() > old(self).at()
                    &&& final(self).at() <= old(self).bytes().len()
                },
            },
    {
        if self.pos >= self.data.len() {
            return None;
        }
        let start: usize = self.pos;
        proof {
            lemma_next_line(self.data@, start as int);
        }
        let mut end: usize = start;
        while end < self.data.len() && self.data[end] != 0x0A
            invariant
                start <= end <= self.data@.len(),
                *self == *old(self),
                line_end(self.data@, start as int) == line_end(self.data@, end as int),
            decreases self.data@.len() - end,
        {
            end = end + 1;
        }
        assert(end == line_end(self.data@, start as int));
        self.pos = if end < self.data.len() {
            end + 1
        } else {
            end
        };
        if end > start && self.data[end - 1] == 0x0D {
            end = end - 1;
        }
        let line: &'a [u8] = &self.data[start..end];
        assert(line@ =~= line_at(self.data@, start as int));
        Some(line)
    }
}

/// ASCII whitespace: space, tab, line feed, form feed, carriage return.
pub open spec fn is_space(b: u8) -> bool {
    b == 0x20 || b == 0x09 || b == 0x0A || b == 0x0C || b == 0x0D
}

fn space(b: u8) -> (yes: bool)
    ensures
        yes == is_space(b),
{
    b == 0x20 || b == 0x09 || b == 0x0A || b == 0x0C || b == 0x0D
}

/// `s` without its leading whitespace.
pub open spec fn trim_start(s: Seq<u8>) -> Seq<u8>
    decreases s.len(),
{
    if s.len() > 0 && is_space(s[0]) {
        trim_start(s.skip(1))
    } else {
        s
    }
}

/// `s` without its trailing whitespace.
pub open spec fn trim_end(s: Seq<u8>) -> Seq<u8>
    decreases s.len(),
{
    if s.len() > 0 && is_space(s.last()) {
        trim_end(s.drop_last())
    } else {
        s
    }
}

pub open spec fn trimmed(s: Seq<u8>) -> Seq<u8> {
    trim_end(trim_start(s))
}

/// Trims leading and trailing ASCII whitespace.
pub fn trim(s: &[u8]) -> (t: &[u8])
    ensures
        t@ == trimmed(s@),
{
    let mut start: usize = 0;
    assert(s@.skip(0) =~= s@);
    while start < s.len() && space(s[start])
        invariant
            start <= s@.len(),
            trim_start(s@) == trim_start(s@.skip(start as int)),
        decreases s@.len() - start,
    {
        assert(s@.skip(start as int).skip(1) =~= s@.skip(start + 1));
        start = start + 1;
    }
    let ghost body = s@.skip(start as int);
    assert(trim_start(s@) == body);
    let mut end: usize = s.len();
    assert(body.take(end - start) =~= body);
    while end > start && space(s[end - 1])
        invariant
            start <= end <= s@.len(),
            body == s@.skip(start as int),
            trim_end(body) == trim_end(body.take(end - start)),
        decreases end,
    {
        assert(body.take(end - start).drop_last() =~= body.take(end - start - 1));
        end = end - 1;
    }
    let t: &[u8] = &s[start..end];
    assert(t@ =~= body.take(end - start));
    t
}

/// The trimmed key and value around the first `=`; the key may not be empty.
pub open spec fn key_value(line: Seq<u8>) -> Option<(Seq<u8>, Seq<u8>)> {
    let at = crate::config::number::position_of(line, 0x3D, 0);
    if at < line.len() && trimmed(line.take(at)).len() > 0 {
        Some((trimmed(line.take(at)), trimmed(line.skip(at + 1))))
    } else {
        None
    }
}

/// Splits `key = value`, returning trimmed key and value.
pub fn split_kv(line: &[u8]) -> (kv: Option<(&[u8], &[u8])>)
    ensures
        match kv {
            Some((key, value)) => key_value(line@) == Some((key@, value@)),
            None => key_value(line@) is None,
        },
{
    let at: usize = find(line, 0x3D);
    if at >= line.len() {
        return None;
    }
    let left: &[u8] = &line[0..at];
    let right: &[u8] = &line[at + 1..line.len()];
    assert(left@ =~= line@.take(at as int));
    assert(right@ =~= line@.skip(at + 1));
    let key: &[u8] = trim(left);
    let value: &[u8] = trim(right);
    if key.len() == 0 {
        return None;
    }
    Some((key, value))
}

/// Compares two byte slices (case-sensitive).
pub fn eq_bytes(a: &[u8], b: &[u8]) -> (same: bool)
    ensures
        same == (a@ == b@),
{
    if a.len() != b.len() {
        return false;
    }
    let mut i: usize = 0;
    while i < a.len()
        invariant
            i <= a@.len(),
            a@.len() == b@.len(),
            forall|j: int| 0 <= j < i ==> a@[j] == b@[j],
        decreases a@.len() - i,
    {
        if a[i] != b[i] {
            return false;
        }
        i = i + 1;
    }
    assert(a@ =~= b@);
    true
}

/// Whether `a` starts with `prefix`.
pub fn starts_with(a: &[u8], prefix: &[u8]) -> (yes: bool)
    ensures
        yes == (prefix@.len() <= a@.len() && a@.take(prefix@.len() as int) == prefix@),
{
    if a.len() < prefix.len() {
        return false;
    }
    let head: &[u8] = &a[0..prefix.len()];
    assert(head@ =~= a@.take(prefix@.len() as int));
    eq_bytes(head, prefix)
}

// Sections

/// The section that a header line names.
pub open spec fn section_of(line: Seq<u8>) -> Section {
    let end = crate::config::number::position_of(line, 0x5D, 0);
    let inner = line.subrange(1, end);
    if end >= line.len() {
        Section::Unknown
    } else if inner == "device".spec_bytes() {
        Section::Device
    } else if inner == "mixer".spec_bytes() {
        Section::Mixer
    } else if inner == "channel_volume".spec_bytes() {
        Section::ChannelVolume
    } else if inner == "volume".spec_bytes() {
        Section::Volume
    } else if inner == "eq".spec_bytes() {
        Section::Eq
    } else if inner == "processing".spec_bytes() {
        Section::Processing
    } else if "eq.".spec_bytes().len() <= inner.len() && inner.take(
        "eq.".spec_bytes().len() as int,
    ) == "eq.".spec_bytes() {
        match crate::config::number::unsigned_in(inner.skip(3), 23) {
            Some(n) => Section::EqBand(n as u8),
            None => Section::Unknown,
        }
    } else {
        Section::Unknown
    }
}

/// Parses a section header, a line that starts with `[`.
pub fn parse_section(line: &[u8]) -> (section: Section)
    requires
        line@.len() > 0,
        line@[0] == 0x5B,
    ensures
        section == section_of(line@),
{
    let end: usize = find(line, 0x5D);
    if end >= line.len() {
        return Section::Unknown;
    }
    let inner: &[u8] = &line[1..end];
    assert(inner@ =~= line@.subrange(1, end as int));
    if eq_bytes(inner, "device".as_bytes()) {
        Section::Device
    } else if eq_bytes(inner, "mixer".as_bytes()) {
        Section::Mixer
    } else if eq_bytes(inner, "channel_volume".as_bytes()) {
        Section::ChannelVolume
    } else if eq_bytes(inner, "volume".as_bytes()) {
        Section::Volume
    } else if eq_bytes(inner, "eq".as_bytes()) {
        Section::Eq
    } else if eq_bytes(inner, "processing".as_bytes()) {
        Section::Processing
    } else if starts_with(inner, "eq.".as_bytes()) {
        proof {
            reveal_strlit("eq.");
            vstd::string::is_ascii_spec_bytes("eq.");
        }
        let number: &[u8] = &inner[3..inner.len()];
        assert(number@ =~= inner@.skip(3));
        match parse_u8(number) {
            Some(n) => if n < 24 {
                Section::EqBand(n)
            } else {
                Section::Unknown
            },
            None => Section::Unknown,
        }
    } else {
        Section::Unknown
    }
}

// Keys

pub open spec fn device_set(
    c: crate::config::ConfigModel,
    key: Seq<u8>,
    value: Seq<u8>,
) -> crate::config::ConfigModel {
    match crate::config::number::unsigned_in(value, u32::MAX as nat) {
        Some(rate) => if key == "sample_rate".spec_bytes() {
            crate::config::ConfigModel { sample_rate: rate as u32, ..c }
        } else {
            c
        },
        None => c,
    }
}

pub fn parse_device(key: &[u8], value: &[u8], config: &mut DspConfigFile)
    ensures
        final(config)@ == device_set(old(config)@, key@, value@),
{
    if eq_bytes(key, "sample_rate".as_bytes()) {
        if let Some(v) = parse_u32(value) {
            config.sample_rate = v;
        }
    }
}

/// The preset that a mixer mode names; an unknown name is stereo.
pub open spec fn mode_of(value: Seq<u8>) -> MixerMode {
    if value == "stereo".spec_bytes() {
        MixerMode::Stereo
    } else if value == "mono".spec_bytes() {
        MixerMode::Mono
    } else if value == "left_only".spec_bytes() {
        MixerMode::LeftOnly
    } else if value == "right_only".spec_bytes() {
        MixerMode::RightOnly
    } else {
        MixerMode::Stereo
    }
}

pub open spec fn mixer_set(
    c: crate::config::ConfigModel,
    key: Seq<u8>,
    value: Seq<u8>,
) -> crate::config::ConfigModel {
    let base = match c.mixer_gains {
        Some(gains) => gains,
        None => MixerMode::Stereo.gains(),
    };
    if key == "mode".spec_bytes() {
        crate::config::ConfigModel { mixer: mode_of(value), ..c }
    } else {
        match crate::config::number::signed16_in(value) {
            None => c,
            Some(db) => {
                let gain = Gain923(crate::drivers::tas5830::dsp::gain_of_db(db) as u32);
                if key == "l2l".spec_bytes() {
                    crate::config::ConfigModel {
                        mixer_gains: Some(MixerGains { l2l: gain, ..base }),
                        ..c
                    }
                } else if key == "r2l".spec_bytes() {
                    crate::config::ConfigModel {
                        mixer_gains: Some(MixerGains { r2l: gain, ..base }),
                        ..c
                    }
                } else if key == "l2r".spec_bytes() {
                    crate::config::ConfigModel {
                        mixer_gains: Some(MixerGains { l2r: gain, ..base }),
                        ..c
                    }
                } else if key == "r2r".spec_bytes() {
                    crate::config::ConfigModel {
                        mixer_gains: Some(MixerGains { r2r: gain, ..base }),
                        ..c
                    }
                } else {
                    c
                }
            },
        }
    }
}

pub fn parse_mixer(key: &[u8], value: &[u8], config: &mut DspConfigFile)
    ensures
        final(config)@ == mixer_set(old(config)@, key@, value@),
{
    if eq_bytes(key, "mode".as_bytes()) {
        config.mixer = if eq_bytes(value, "stereo".as_bytes()) {
            MixerMode::Stereo
        } else if eq_bytes(value, "mono".as_bytes()) {
            MixerMode::Mono
        } else if eq_bytes(value, "left_only".as_bytes()) {
            MixerMode::LeftOnly
        } else if eq_bytes(value, "right_only".as_bytes()) {
            MixerMode::RightOnly
        } else {
            MixerMode::Stereo
        };
        return ;
    }
    if let Some(db) = parse_i16(value) {
        let gain = Gain923::from_db(db);
        let mut gains = match config.mixer_gains {
            Some(gains) => gains,
            None => MixerGains::stereo(),
        };
        if eq_bytes(key, "l2l".as_bytes()) {
            gains.l2l = gain;
            config.mixer_gains = Some(gains);
        } else if eq_bytes(key, "r2l".as_bytes()) {
            gains.r2l = gain;
            config.mixer_gains = Some(gains);
        } else if eq_bytes(key, "l2r".as_bytes()) {
            gains.l2r = gain;
            config.mixer_gains = Some(gains);
        } else if eq_bytes(key, "r2r".as_bytes()) {
            gains.r2r = gain;
            config.mixer_gains = Some(gains);
        }
    }
}

pub open spec fn channel_volume_set(
    c: crate::config::ConfigModel,
    key: Seq<u8>,
    value: Seq<u8>,
) -> crate::config::ConfigModel {
    match crate::config::number::signed16_in(value) {
        None => c,
        Some(db) => if key == "left_db".spec_bytes() || key == "tweeter_db".spec_bytes() {
            crate::config::ConfigModel { left_db: db as i16, ..c }
        } else if key == "right_db".spec_bytes() || key == "woofer_db".spec_bytes() {
            crate::config::ConfigModel { right_db: db as i16, ..c }
        } else {
            c
        },
    }
}

pub fn parse_channel_volume(key: &[u8], value: &[u8], config: &mut DspConfigFile)
    ensures
        final(config)@ == channel_volume_set(old(config)@, key@, value@),
{
    if eq_bytes(key, "left_db".as_bytes()) || eq_bytes(key, "tweeter_db".as_bytes()) {
        if let Some(db) = parse_i16(value) {
            config.channel_volume_left_db = db;
        }
    } else if eq_bytes(key, "right_db".as_bytes()) || eq_bytes(key, "woofer_db".as_bytes()) {
        if let Some(db) = parse_i16(value) {
            config.channel_volume_right_db = db;
        }
    }
}

/// Register value of a volume in dB: half a dB of attenuation per step.
pub open spec fn digital_volume_of(db: int) -> u8 {
    if -2 * db < 0 {
        0
    } else if -2 * db > 255 {
        255
    } else {
        (-2 * db) as u8
    }
}

pub open spec fn volume_set(
    c: crate::config::ConfigModel,
    key: Seq<u8>,
    value: Seq<u8>,
) -> crate::config::ConfigModel {
    if key == "digital_db".spec_bytes() {
        match crate::config::number::signed16_in(value) {
            Some(db) => crate::config::ConfigModel { digital_volume: digital_volume_of(db), ..c },
            None => c,
        }
    } else if key == "analog_gain".spec_bytes() {
        match crate::config::number::unsigned_in(value, 255) {
            Some(v) => crate::config::ConfigModel {
                analog_gain: if v < 31 {
                    v as u8
                } else {
                    31
                },
                ..c
            },
            None => c,
        }
    } else {
        c
    }
}

pub fn parse_volume(key: &[u8], value: &[u8], config: &mut DspConfigFile)
    ensures
        final(config)@ == volume_set(old(config)@, key@, value@),
{
    if eq_bytes(key, "digital_db".as_bytes()) {
        if let Some(db) = parse_i16(value) {
            let reg: i32 = -(db as i32) * 2;
            config.digital_volume = if reg < 0 {
                0
            } else if reg > 255 {
                255
            } else {
                reg as u8
            };
        }
    } else if eq_bytes(key, "analog_gain".as_bytes()) {
        if let Some(v) = parse_u8(value) {
            config.analog_gain = if v < 31 {
                v
            } else {
                31
            };
        }
    }
}

pub open spec fn eq_global_set(
    c: crate::config::ConfigModel,
    key: Seq<u8>,
    value: Seq<u8>,
) -> crate::config::ConfigModel {
    if key == "bypass".spec_bytes() {
        crate::config::ConfigModel { eq_bypass: value == "true".spec_bytes(), ..c }
    } else {
        c
    }
}

pub fn parse_eq_global(key: &[u8], value: &[u8], config: &mut DspConfigFile)
    ensures
        final(config)@ == eq_global_set(old(config)@, key@, value@),
{
    if eq_bytes(key, "bypass".as_bytes()) {
        config.eq_bypass = eq_bytes(value, "true".as_bytes());
    }
}

/// A non-negative decimal.
pub open spec fn decimal(integer: u32, fraction: u32, divisor: u32) -> Decimal {
    Decimal { negative: false, integer, fraction, divisor }
}

/// The filter that a type names, with its initial values: 1 kHz, 0 dB, and a Q
/// of 1.41 for a peaking filter, 0.707 for the others.
pub open spec fn filter_named(value: Seq<u8>) -> FilterType {
    let freq_hz = decimal(1000, 0, 1);
    let gain_db = decimal(0, 0, 1);
    let q = decimal(0, 707, 1000);
    if value == "peaking".spec_bytes() {
        FilterType::Peaking { freq_hz, gain_db, q: decimal(1, 41, 100) }
    } else if value == "low_pass".spec_bytes() {
        FilterType::LowPass { freq_hz, q }
    } else if value == "high_pass".spec_bytes() {
        FilterType::HighPass { freq_hz, q }
    } else if value == "low_shelf".spec_bytes() {
        FilterType::LowShelf { freq_hz, gain_db, q }
    } else if value == "high_shelf".spec_bytes() {
        FilterType::HighShelf { freq_hz, gain_db, q }
    } else if value == "band_pass".spec_bytes() {
        FilterType::BandPass { freq_hz, q }
    } else if value == "notch".spec_bytes() {
        FilterType::Notch { freq_hz, q }
    } else if value == "all_pass".spec_bytes() {
        FilterType::AllPass { freq_hz, q }
    } else {
        FilterType::Bypass
    }
}

/// `filter` with another frequency; a bypassed band has none.
pub open spec fn with_freq(filter: FilterType, freq_hz: Decimal) -> FilterType {
    match filter {
        FilterType::Peaking { gain_db, q, .. } => FilterType::Peaking { freq_hz, gain_db, q },
        FilterType::LowPass { q, .. } => FilterType::LowPass { freq_hz, q },
        FilterType::HighPass { q, .. } => FilterType::HighPass { freq_hz, q },
        FilterType::LowShelf { gain_db, q, .. } => FilterType::LowShelf { freq_hz, gain_db, q },
        FilterType::HighShelf { gain_db, q, .. } => FilterType::HighShelf { freq_hz, gain_db, q },
        FilterType::BandPass { q, .. } => FilterType::BandPass { freq_hz, q },
        FilterType::Notch { q, .. } => FilterType::Notch { freq_hz, q },
        FilterType::AllPass { q, .. } => FilterType::AllPass { freq_hz, q },
        FilterType::Bypass => FilterType::Bypass,
    }
}

/// `filter` with another gain, where it has one.
pub open spec fn with_gain(filter: FilterType, gain_db: Decimal) -> FilterType {
    match filter {
        FilterType::Peaking { freq_hz, q, .. } => FilterType::Peaking { freq_hz, gain_db, q },
        FilterType::LowShelf { freq_hz, q, .. } => FilterType::LowShelf { freq_hz, gain_db, q },
        FilterType::HighShelf { freq_hz, q, .. } => FilterType::HighShelf { freq_hz, gain_db, q },
        other => other,
    }
}

/// `filter` with another Q; a bypassed band has none.
pub open spec fn with_q(filter: FilterType, q: Decimal) -> FilterType {
    match filter {
        FilterType::Peaking { freq_hz, gain_db, .. } => FilterType::Peaking { freq_hz, gain_db, q },
        FilterType::LowPass { freq_hz, .. } => FilterType::LowPass { freq_hz, q },
        FilterType::HighPass { freq_hz, .. } => FilterType::HighPass { freq_hz, q },
        FilterType::LowShelf { freq_hz, gain_db, .. } => FilterType::LowShelf {
            freq_hz,
            gain_db,
            q,
        },
        FilterType::HighShelf { freq_hz, gain_db, .. } => FilterType::HighShelf {
            freq_hz,
            gain_db,
            q,
        },
        FilterType::BandPass { freq_hz, .. } => FilterType::BandPass { freq_hz, q },
        FilterType::Notch { freq_hz, .. } => FilterType::Notch { freq_hz, q },
        FilterType::AllPass { freq_hz, .. } => FilterType::AllPass { freq_hz, q },
        FilterType::Bypass => FilterType::Bypass,
    }
}

/// A band's filter after a key of its section was read.
pub open spec fn filter_set(filter: FilterType, key: Seq<u8>, value: Seq<u8>) -> FilterType {
    if key == "type".spec_bytes() {
        filter_named(value)
    } else {
        match crate::config::number::decimal_in(value) {
            None => filter,
            Some(v) => if key == "freq".spec_bytes() {
                with_freq(filter, v)
            } else if key == "gain_db".spec_bytes() {
                with_gain(filter, v)
            } else if key == "q".spec_bytes() {
                with_q(filter, v)
            } else {
                filter
            },
        }
    }
}

pub open spec fn eq_band_set(
    c: crate::config::ConfigModel,
    band: int,
    key: Seq<u8>,
    value: Seq<u8>,
) -> crate::config::ConfigModel {
    crate::config::ConfigModel {
        eq_bands: c.eq_bands.update(band, filter_set(c.eq_bands[band], key, value)),
        ..c
    }
}

fn named_filter(value: &[u8]) -> (filter: FilterType)
    ensures
        filter == filter_named(value@),
{
    let freq_hz = Decimal::new(1000, 0, 1);
    let gain_db = Decimal::new(0, 0, 1);
    let q = Decimal::new(0, 707, 1000);
    if eq_bytes(value, "peaking".as_bytes()) {
        FilterType::Peaking { freq_hz, gain_db, q: Decimal::new(1, 41, 100) }
    } else if eq_bytes(value, "low_pass".as_bytes()) {
        FilterType::LowPass { freq_hz, q }
    } else if eq_bytes(value, "high_pass".as_bytes()) {
        FilterType::HighPass { freq_hz, q }
    } else if eq_bytes(value, "low_shelf".as_bytes()) {
        FilterType::LowShelf { freq_hz, gain_db, q }
    } else if eq_bytes(value, "high_shelf".as_bytes()) {
        FilterType::HighShelf { freq_hz, gain_db, q }
    } else if eq_bytes(value, "band_pass".as_bytes()) {
        FilterType::BandPass { freq_hz, q }
    } else if eq_bytes(value, "notch".as_bytes()) {
        FilterType::Notch { freq_hz, q }
    } else if eq_bytes(value, "all_pass".as_bytes()) {
        FilterType::AllPass { freq_hz, q }
    } else {
        FilterType::Bypass
    }
}

pub fn set_filter_freq(filter: &mut FilterType, freq_hz: Decimal)
    ensures
        *final(filter) == with_freq(*old(filter), freq_hz),
{
    *filter = match *filter {
        FilterType::Peaking { gain_db, q, .. } => FilterType::Peaking { freq_hz, gain_db, q },
        FilterType::LowPass { q, .. } => FilterType::LowPass { freq_hz, q },
        FilterType::HighPass { q, .. } => FilterType::HighPass { freq_hz, q },
        FilterType::LowShelf { gain_db, q, .. } => FilterType::LowShelf { freq_hz, gain_db, q },
        FilterType::HighShelf { gain_db, q, .. } => FilterType::HighShelf { freq_hz, gain_db, q },
        FilterType::BandPass { q, .. } => FilterType::BandPass { freq_hz, q },
        FilterType::Notch { q, .. } => FilterType::Notch { freq_hz, q },
        FilterType::AllPass { q, .. } => FilterType::AllPass { freq_hz, q },
        FilterType::Bypass => FilterType::Bypass,
    };
}

pub fn set_filter_gain(filter: &mut FilterType, gain_db: Decimal)
    ensures
        *final(filter) == with_gain(*old(filter), gain_db),
{
    *filter = match *filter {
        FilterType::Peaking { freq_hz, q, .. } => FilterType::Peaking { freq_hz, gain_db, q },
        FilterType::LowShelf { freq_hz, q, .. } => FilterType::LowShelf { freq_hz, gain_db, q },
        FilterType::HighShelf { freq_hz, q, .. } => FilterType::HighShelf { freq_hz, gain_db, q },
        other => other,
    };
}

pub fn set_filter_q(filter: &mut FilterType, q: Decimal)
    ensures
        *final(filter) == with_q(*old(filter), q),
{
    *filter = match *filter {
        FilterType::Peaking { freq_hz, gain_db, .. } => FilterType::Peaking { freq_hz, gain_db, q },
        FilterType::LowPass { freq_hz, .. } => FilterType::LowPass { freq_hz, q },
        FilterType::HighPass { freq_hz, .. } => FilterType::HighPass { freq_hz, q },
        FilterType::LowShelf { freq_hz, gain_db, .. } => FilterType::LowShelf {
            freq_hz,
            gain_db,
            q,
        },
        FilterType::HighShelf { freq_hz, gain_db, .. } => FilterType::HighShelf {
            freq_hz,
            gain_db,
            q,
        },
        FilterType::BandPass { freq_hz, .. } => FilterType::BandPass { freq_hz, q },
        FilterType::Notch { freq_hz, .. } => FilterType::Notch { freq_hz, q },
        FilterType::AllPass { freq_hz, .. } => FilterType::AllPass { freq_hz, q },
        FilterType::Bypass => FilterType::Bypass,
    };
}

pub fn parse_eq_band(band: u8, key: &[u8], value: &[u8], config: &mut DspConfigFile)
    requires
        band < 24,
    ensures
        final(config)@ == eq_band_set(old(config)@, band as int, key@, value@),
{
    let mut filter: FilterType = config.eq_bands[band as usize];
    if eq_bytes(key, "type".as_bytes()) {
        filter = named_filter(value);
    } else if eq_bytes(key, "freq".as_bytes()) {
        if let Some(f) = parse_decimal(value) {
            set_filter_freq(&mut filter, f);
        }
    } else if eq_bytes(key, "gain_db".as_bytes()) {
        if let Some(g) = parse_decimal(value) {
            set_filter_gain(&mut filter, g);
        }
    } else if eq_bytes(key, "q".as_bytes()) {
        if let Some(q) = parse_decimal(value) {
            set_filter_q(&mut filter, q);
        }
    }
    config.eq_bands[band as usize] = filter;
    assert(config@ =~= eq_band_set(old(config)@, band as int, key@, value@));
}

/// The register pair that a line of the processing section holds.
pub open spec fn pair_in(key: Seq<u8>, value: Seq<u8>) -> Option<(u8, u8)> {
    match (crate::config::number::hex_in(key), crate::config::number::hex_in(value)) {
        (Some(reg), Some(val)) => Some((reg, val)),
        _ => None,
    }
}

pub open spec fn processing_set(
    c: crate::config::ConfigModel,
    key: Seq<u8>,
    value: Seq<u8>,
) -> crate::config::ConfigModel {
    match pair_in(key, value) {
        Some(pair) => if c.processing.len() < 512 {
            crate::config::ConfigModel { processing: c.processing.push(pair), ..c }
        } else {
            c
        },
        None => c,
    }
}

/// Adds a register pair, both in hexadecimal: `reg = val`.
pub fn parse_processing(key: &[u8], value: &[u8], config: &mut DspConfigFile) -> (result: Result<
    (),
    ParseError,
>)
    requires
        old(config)@.processing.len() <= 512,
    ensures
        final(config)@ == processing_set(old(config)@, key@, value@),
        match result {
            Ok(()) => pair_in(key@, value@) is Some && old(config)@.processing.len() < 512,
            Err(e) => e.line == 0 && (match e.kind {
                ParseErrorKind::InvalidNumber => pair_in(key@, value@) is None,
                ParseErrorKind::TooManyProcessingPairs => pair_in(key@, value@) is Some && old(
                    config,
                )@.processing.len() == 512,
                _ => false,
            }),
        },
{
    let reg: u8 = match parse_hex_u8(key) {
        Some(reg) => reg,
        None => return Err(ParseError { line: 0, kind: ParseErrorKind::InvalidNumber }),
    };
    let val: u8 = match parse_hex_u8(value) {
        Some(val) => val,
        None => return Err(ParseError { line: 0, kind: ParseErrorKind::InvalidNumber }),
    };
    if pairs_full(&config.processing) {
        return Err(ParseError { line: 0, kind: ParseErrorKind::TooManyProcessingPairs });
    }
    let _ = push_pair(&mut config.processing, (reg, val));
    assert(config@ =~= processing_set(old(config)@, key@, value@));
    Ok(())
}

// The file

/// The configuration after a key of a section was read.
pub open spec fn key_set(
    section: Section,
    c: crate::config::ConfigModel,
    key: Seq<u8>,
    value: Seq<u8>,
) -> crate::config::ConfigModel {
    match section {
        Section::Device => device_set(c, key, value),
        Section::Mixer => mixer_set(c, key, value),
        Section::ChannelVolume => channel_volume_set(c, key, value),
        Section::Volume => volume_set(c, key, value),
        Section::Eq => eq_global_set(c, key, value),
        Section::EqBand(n) => eq_band_set(c, n as int, key, value),
        Section::Processing => processing_set(c, key, value),
        Section::Outside | Section::Unknown => c,
    }
}

/// Section and configuration after a line was read.
#[verifier::opaque]
pub open spec fn line_read(
    section: Section,
    c: crate::config::ConfigModel,
    line: Seq<u8>,
) -> (Section, crate::config::ConfigModel) {
    let t = trimmed(line);
    if t.len() == 0 || t[0] == 0x23 {
        (section, c)
    } else if t[0] == 0x5B {
        (section_of(t), c)
    } else {
        match key_value(t) {
            None => (section, c),
            Some((key, value)) => (section, key_set(section, c, key, value)),
        }
    }
}

/// Section and configuration after some lines were read, in order.
pub open spec fn lines_read(
    section: Section,
    c: crate::config::ConfigModel,
    lines: Seq<Seq<u8>>,
) -> (Section, crate::config::ConfigModel)
    decreases lines.len(),
{
    if lines.len() == 0 {
        (section, c)
    } else {
        let (s, d) = line_read(section, c, lines[0]);
        lines_read(s, d, lines.skip(1))
    }
}

/// The configuration in a file.
pub open spec fn parsed(data: Seq<u8>) -> crate::config::ConfigModel {
    lines_read(
        Section::Outside,
        crate::config::ConfigModel::initial(),
        lines_from(data, 0),
    ).1
}

/// Parses a configuration file. Every line either takes effect or is skipped,
/// so that there is always a configuration.
pub fn parse(data: &[u8]) -> (result: Result<DspConfigFile, ParseError>)
    ensures
        result is Ok,
        result->Ok_0@ == parsed(data@),
{
    let mut config = DspConfigFile::default();
    let mut section = Section::Outside;
    let mut lines = LineIter::new(data);
    loop
        invariant
            lines.wf(),
            lines.bytes() == data@,
            0 <= lines.at() <= data@.len(),
            section matches Section::EqBand(n) ==> n < 24,
            config@.processing.len() <= 512,
            lines_read(section, config@, lines.rest()).1 == parsed(data@),
        ensures
            config@ == parsed(data@),
        decreases data@.len() - lines.at(),
    {
        let ghost before = lines.rest();
        let next: Option<&[u8]> = lines.next();
        let line: &[u8] = match next {
            Some(line) => line,
            None => break,
        };
        proof {
            reveal(line_read);
            assert(before[0] =~= line@);
            assert(before.skip(1) =~= lines.rest());
        }
        let line: &[u8] = trim(line);
        if line.len() == 0 || line[0] == 0x23 {
            continue ;
        }
        if line[0] == 0x5B {
            section = parse_section(line);
            continue ;
        }
        if let Some((key, value)) = split_kv(line) {
            match section {
                Section::Device => parse_device(key, value, &mut config),
                Section::Mixer => parse_mixer(key, value, &mut config),
                Section::ChannelVolume => parse_channel_volume(key, value, &mut config),
                Section::Volume => parse_volume(key, value, &mut config),
                Section::Eq => parse_eq_global(key, value, &mut config),
                Section::EqBand(n) => parse_eq_band(n, key, value, &mut config),
                Section::Processing => {
                    let _ = parse_processing(key, value, &mut config);
                },
                Section::Outside | Section::Unknown => {},
            }
        }
    }
    Ok(config)
}

/// What every parsed configuration satisfies.
pub open spec fn valid(c: crate::config::ConfigModel) -> bool {
    &&& c.eq_bands.len() == 24
    &&& c.analog_gain <= 31
    &&& c.processing.len() <= 512
}

/// Whatever a file holds, the configuration in it is valid.
pub proof fn law_parsed_is_valid(data: Seq<u8>)
    ensures
        valid(parsed(data)),
{
    lemma_lines_keep_valid(
        Section::Outside,
        crate::config::ConfigModel::initial(),
        lines_from(data, 0),
    );
}

proof fn lemma_mixer_keeps_valid(c: crate::config::ConfigModel, key: Seq<u8>, value: Seq<u8>)
    requires
        valid(c),
    ensures
        valid(mixer_set(c, key, value)),
{
}

proof fn lemma_volume_keeps_valid(c: crate::config::ConfigModel, key: Seq<u8>, value: Seq<u8>)
    requires
        valid(c),
    ensures
        valid(volume_set(c, key, value)),
{
}

proof fn lemma_channel_volume_keeps_valid(c: crate::config::ConfigModel, key: Seq<u8>, value: Seq<u8>)
    requires
        valid(c),
    ensures
        valid(channel_volume_set(c, key, value)),
{
}

proof fn lemma_eq_band_keeps_valid(
    c: crate::config::ConfigModel,
    band: int,
    key: Seq<u8>,
    value: Seq<u8>,
)
    requires
        valid(c),
        0 <= band < 24,
    ensures
        valid(eq_band_set(c, band, key, value)),
{
}

proof fn lemma_processing_keeps_valid(c: crate::config::ConfigModel, key: Seq<u8>, value: Seq<u8>)
    requires
        valid(c),
    ensures
        valid(processing_set(c, key, value)),
{
}

proof fn lemma_lines_keep_valid(
    section: Section,
    c: crate::config::ConfigModel,
    lines: Seq<Seq<u8>>,
)
    requires
        valid(c),
        section matches Section::EqBand(n) ==> n < 24,
    ensures
        valid(lines_read(section, c, lines).1),
    decreases lines.len(),
{
    if lines.len() > 0 {
        reveal(line_read);
        let (s, d) = line_read(section, c, lines[0]);
        let t = trimmed(lines[0]);
        if key_value(t) is Some {
            let (key, value) = key_value(t)->0;
            lemma_mixer_keeps_valid(c, key, value);
            lemma_volume_keeps_valid(c, key, value);
            lemma_channel_volume_keeps_valid(c, key, value);
            lemma_processing_keeps_valid(c, key, value);
            if let Section::EqBand(n) = section {
                lemma_eq_band_keeps_valid(c, n as int, key, value);
            }
        }
        lemma_lines_keep_valid(s, d, lines.skip(1));
    }
}

/// Reading lines in two portions is the same as reading them at once.
proof fn lemma_lines_in_portions(
    section: Section,
    c: crate::config::ConfigModel,
    a: Seq<Seq<u8>>,
    b: Seq<Seq<u8>>,
)
    ensures
        ({
            let (s, d) = lines_read(section, c, a);
            lines_read(section, c, a + b) == lines_read(s, d, b)
        }),
    decreases a.len(),
{
    if a.len() == 0 {
        assert(a + b =~= b);
    } else {
        let (s, d) = line_read(section, c, a[0]);
        lemma_lines_in_portions(s, d, a.skip(1), b);
        assert((a + b).skip(1) =~= a.skip(1) + b);
        assert((a + b)[0] == a[0]);
    }
}

/// Text behind complete lines reads as it does on its own.
proof fn lemma_lines_behind(a: Seq<u8>, b: Seq<u8>, pos: int)
    requires
        0 <= pos <= b.len(),
    ensures
        lines_from(a + b, a.len() + pos) == lines_from(b, pos),
    decreases b.len() - pos,
{
    if pos < b.len() {
        let whole = a + b;
        let at = a.len() + pos;
        lemma_next_line(b, pos);
        lemma_position_behind(a, b, 0x0A, pos);
        assert(line_end(whole, at) == a.len() + line_end(b, pos));
        assert(line_at(whole, at) =~= line_at(b, pos));
        lemma_lines_behind(a, b, next_line(b, pos));
    }
}

proof fn lemma_position_behind(a: Seq<u8>, b: Seq<u8>, byte: u8, pos: int)
    requires
        0 <= pos <= b.len(),
    ensures
        crate::config::number::position_of(a + b, byte, a.len() + pos) == a.len()
            + crate::config::number::position_of(b, byte, pos),
    decreases b.len() - pos,
{
    if pos < b.len() && b[pos] != byte {
        lemma_position_behind(a, b, byte, pos + 1);
    }
}

proof fn lemma_position_before(a: Seq<u8>, b: Seq<u8>, byte: u8, pos: int)
    requires
        0 <= pos < a.len(),
        a.last() == byte,
    ensures
        crate::config::number::position_of(a + b, byte, pos)
            == crate::config::number::position_of(a, byte, pos),
        crate::config::number::position_of(a, byte, pos) < a.len(),
    decreases a.len() - pos,
{
    if a[pos] != byte {
        lemma_position_before(a, b, byte, pos + 1);
    }
}

proof fn lemma_lines_before(a: Seq<u8>, b: Seq<u8>, pos: int)
    requires
        0 <= pos <= a.len(),
        a.len() > 0 ==> a.last() == 0x0A,
    ensures
        lines_from(a + b, pos) == lines_from(a, pos) + lines_from(b, 0),
    decreases a.len() - pos,
{
    if pos == a.len() {
        lemma_lines_behind(a, b, 0);
        assert(lines_from(a, pos) + lines_from(b, 0) =~= lines_from(b, 0));
    } else {
        lemma_next_line(a, pos);
        lemma_position_before(a, b, 0x0A, pos);
        assert(line_at(a + b, pos) =~= line_at(a, pos));
        lemma_lines_before(a, b, next_line(a, pos));
        assert(lines_from(a, pos) + lines_from(b, 0) =~= seq![line_at(a, pos)] + (lines_from(
            a,
            next_line(a, pos),
        ) + lines_from(b, 0)));
    }
}

/// A file is read line by line: what follows complete lines continues in the
/// section, and from the configuration, that those have reached.
pub proof fn law_files_concatenate(a: Seq<u8>, b: Seq<u8>)
    requires
        a.len() > 0 ==> a.last() == 0x0A,
    ensures
        ({
            let (section, c) = lines_read(
                Section::Outside,
                crate::config::ConfigModel::initial(),
                lines_from(a, 0),
            );
            parsed(a + b) == lines_read(section, c, lines_from(b, 0)).1
        }),
{
    lemma_lines_before(a, b, 0);
    lemma_lines_in_portions(
        Section::Outside,
        crate::config::ConfigModel::initial(),
        lines_from(a, 0),
        lines_from(b, 0),
    );
}

/// A line means the same whether it ends in a line feed, or in a carriage
/// return and a line feed.
pub proof fn law_line_endings(text: Seq<u8>)
    requires
        forall|i: int| 0 <= i < text.len() ==> text[i] != 0x0A,
        text.len() > 0 ==> text.last() != 0x0D,
    ensures
        lines_from(text.push(0x0A), 0) == seq![text],
        lines_from(text.push(0x0D).push(0x0A), 0) == seq![text],
{
    let lf = text.push(0x0A);
    let crlf = text.push(0x0D).push(0x0A);
    crate::config::number::lemma_position(lf, 0x0A, 0);
    crate::config::number::lemma_position(crlf, 0x0A, 0);
    let e = line_end(lf, 0);
    assert(e == text.len()) by {
        assert(lf[text.len() as int] == 0x0A);
        if e < text.len() {
            assert(lf[e] == text[e]);
        }
    }
    let f = line_end(crlf, 0);
    assert(f == text.len() + 1) by {
        assert(crlf[text.len() as int + 1] == 0x0A);
        assert(crlf[text.len() as int] == 0x0D);
        if f < text.len() {
            assert(crlf[f] == text[f]);
        }
    }
    assert(line_at(lf, 0) =~= text) by {
        if text.len() > 0 {
            assert(lf[e - 1] == text.last());
        }
    }
    assert(line_at(crlf, 0) =~= text);
    assert(lines_from(lf, next_line(lf, 0)) =~= Seq::empty());
    assert(lines_from(crlf, next_line(crlf, 0)) =~= Seq::empty());
    assert(lines_from(lf, 0) =~= seq![text]);
    assert(lines_from(crlf, 0) =~= seq![text]);
}

/// A line that is empty but for whitespace, or a comment, changes nothing.
pub proof fn law_comments_are_skipped(
    section: Section,
    c: crate::config::ConfigModel,
    line: Seq<u8>,
)
    requires
        is_skipped(line),
    ensures
        line_read(section, c, line) == (section, c),
{
    reveal(line_read);
}

/// Trimmed text has no whitespace at either end.
pub proof fn law_trimmed(s: Seq<u8>)
    ensures
        trimmed(s).len() > 0 ==> !is_space(trimmed(s)[0]) && !is_space(trimmed(s).last()),
        trimmed(trimmed(s)) == trimmed(s),
{
    lemma_trim_start(s);
    lemma_trim_end(trim_start(s));
}

proof fn lemma_trim_start(s: Seq<u8>)
    ensures
        trim_start(s).len() > 0 ==> !is_space(trim_start(s)[0]),
    decreases s.len(),
{
    if s.len() > 0 && is_space(s[0]) {
        lemma_trim_start(s.skip(1));
    }
}

proof fn lemma_trim_end(s: Seq<u8>)
    ensures
        trim_end(s).len() > 0 ==> !is_space(trim_end(s).last()) && trim_end(s)[0] == s[0],
    decreases s.len(),
{
    if s.len() > 0 && is_space(s.last()) {
        lemma_trim_end(s.drop_last());
    }
}

/// Whether a line has no meaning: whitespace alone, or a comment.
pub open spec fn is_skipped(line: Seq<u8>) -> bool {
    trimmed(line).len() == 0 || trimmed(line)[0] == 0x23
}

/// The lines that have a meaning, in order and trimmed.
pub open spec fn meaning(lines: Seq<Seq<u8>>) -> Seq<Seq<u8>>
    decreases lines.len(),
{
    if lines.len() == 0 {
        Seq::empty()
    } else if is_skipped(lines[0]) {
        meaning(lines.skip(1))
    } else {
        seq![trimmed(lines[0])] + meaning(lines.skip(1))
    }
}

/// The first line of a text without its line feed.
pub open spec fn first_line(text: Seq<u8>) -> Seq<u8> {
    text.take(line_end(text, 0))
}

/// The text behind its first line.
pub open spec fn behind_first(text: Seq<u8>) -> Seq<u8> {
    text.skip(next_line(text, 0))
}

/// Whether `to` is `from` with other line ends and other skipped lines: each
/// line is one of `from`, in order, which may have got a carriage return, or a
/// line put in that is skipped.
pub open spec fn reformatted(from: Seq<u8>, to: Seq<u8>) -> bool
    decreases to.len(),
{
    if to.len() == 0 {
        from.len() == 0
    } else {
        proof {
            lemma_next_line(to, 0);
        }
        ||| is_skipped(first_line(to)) && reformatted(from, behind_first(to))
        ||| {
            &&& from.len() > 0
            &&& first_line(to) == first_line(from) || first_line(to) == first_line(from).push(0x0D)
            &&& reformatted(behind_first(from), behind_first(to))
        }
    }
}

/// Two files whose lines have the same meaning are the same configuration.
pub proof fn law_meaning_counts(a: Seq<u8>, b: Seq<u8>)
    requires
        meaning(lines_from(a, 0)) == meaning(lines_from(b, 0)),
    ensures
        parsed(a) == parsed(b),
{
    let c = crate::config::ConfigModel::initial();
    lemma_meaning_read(Section::Outside, c, lines_from(a, 0));
    lemma_meaning_read(Section::Outside, c, lines_from(b, 0));
}

/// A file is the same configuration with line feeds or with carriage returns
/// and line feeds at the ends of its lines, and with any empty lines, lines of
/// whitespace and comments put in between.
pub proof fn law_reformatted_alike(from: Seq<u8>, to: Seq<u8>)
    requires
        reformatted(from, to),
    ensures
        parsed(to) == parsed(from),
{
    lemma_reformatted(from, to);
    law_meaning_counts(from, to);
}

/// The text of some lines, each ended by a line feed or, with `crlf`, by a
/// carriage return and a line feed.
pub open spec fn text_of(lines: Seq<Seq<u8>>, crlf: bool) -> Seq<u8>
    decreases lines.len(),
{
    if lines.len() == 0 {
        Seq::empty()
    } else {
        let line = if crlf {
            lines[0].push(0x0D)
        } else {
            lines[0]
        };
        line.push(0x0A) + text_of(lines.skip(1), crlf)
    }
}

/// A text has the meaning of its lines, whichever way they end.
pub proof fn law_lines_of_text(lines: Seq<Seq<u8>>, crlf: bool)
    requires
        forall|i: int, j: int|
            0 <= i < lines.len() && 0 <= j < lines[i].len() ==> #[trigger] lines[i][j] != 0x0A,
    ensures
        meaning(lines_from(text_of(lines, crlf), 0)) == meaning(lines),
    decreases lines.len(),
{
    if lines.len() > 0 {
        let rest = lines.skip(1);
        assert forall|i: int, j: int|
            0 <= i < rest.len() && 0 <= j < rest[i].len() implies #[trigger] rest[i][j] != 0x0A by {
            assert(rest[i][j] == lines[i + 1][j]);
        }
        law_lines_of_text(rest, crlf);
        let line = if crlf {
            lines[0].push(0x0D)
        } else {
            lines[0]
        };
        let text = text_of(lines, crlf);
        let end = line_end(text, 0);
        crate::config::number::lemma_position(text, 0x0A, 0);
        assert(text[line.len() as int] == 0x0A);
        assert(end == line.len()) by {
            if end < line.len() {
                assert(text[end] == line[end]);
                if end < lines[0].len() {
                    assert(lines[0][end] != 0x0A);
                }
            }
        }
        assert(first_line(text) =~= line);
        assert(behind_first(text) =~= text_of(rest, crlf));
        lemma_first_line(text);
        lemma_trimmed_push(lines[0], 0x0D);
        let read = lines_from(text, 0);
        assert(trimmed(read[0]) == trimmed(lines[0]));
        assert(read.skip(1) =~= lines_from(text_of(rest, crlf), 0));
    }
}

/// A skipped line that is put in anywhere leaves the meaning as it is.
pub proof fn law_skipped_lines_vanish(a: Seq<Seq<u8>>, line: Seq<u8>, b: Seq<Seq<u8>>)
    requires
        is_skipped(line),
    ensures
        meaning(a.push(line) + b) == meaning(a + b),
    decreases a.len(),
{
    let more = a.push(line) + b;
    if a.len() == 0 {
        assert(more[0] == line);
        assert(more.skip(1) =~= a + b);
    } else {
        law_skipped_lines_vanish(a.skip(1), line, b);
        assert(more[0] == a[0]);
        assert((a + b)[0] == a[0]);
        assert(more.skip(1) =~= a.skip(1).push(line) + b);
        assert((a + b).skip(1) =~= a.skip(1) + b);
    }
}

/// An empty file is the default configuration.
pub proof fn law_empty_file()
    ensures
        parsed(Seq::empty()) == crate::config::ConfigModel::initial(),
{
}

/// Only the lines that have a meaning count, and of them what is not
/// whitespace at their ends.
proof fn lemma_meaning_read(
    section: Section,
    c: crate::config::ConfigModel,
    lines: Seq<Seq<u8>>,
)
    ensures
        lines_read(section, c, lines) == lines_read(section, c, meaning(lines)),
    decreases lines.len(),
{
    if lines.len() > 0 {
        let rest = lines.skip(1);
        if is_skipped(lines[0]) {
            law_comments_are_skipped(section, c, lines[0]);
            lemma_meaning_read(section, c, rest);
        } else {
            law_trimmed(lines[0]);
            reveal(line_read);
            let (s, d) = line_read(section, c, lines[0]);
            assert(line_read(section, c, trimmed(lines[0])) == (s, d));
            lemma_meaning_read(s, d, rest);
            let short = meaning(lines);
            assert(short[0] == trimmed(lines[0]));
            assert(short.skip(1) =~= meaning(rest));
        }
    }
}

/// The lines of a text are its first line and the lines behind it.
proof fn lemma_first_line(text: Seq<u8>)
    requires
        text.len() > 0,
    ensures
        lines_from(text, 0) == seq![line_at(text, 0)] + lines_from(behind_first(text), 0),
        trimmed(line_at(text, 0)) == trimmed(first_line(text)),
{
    lemma_next_line(text, 0);
    let next = next_line(text, 0);
    let head = text.take(next);
    assert(head + text.skip(next) =~= text);
    lemma_lines_behind(head, text.skip(next), 0);
    let end = line_end(text, 0);
    if end > 0 && text[end - 1] == 0x0D {
        lemma_trimmed_push(line_at(text, 0), 0x0D);
        assert(line_at(text, 0).push(0x0D) =~= first_line(text));
    } else {
        assert(line_at(text, 0) =~= first_line(text));
    }
}

/// Whitespace at the end is trimmed.
proof fn lemma_trimmed_push(s: Seq<u8>, b: u8)
    requires
        is_space(b),
    ensures
        trimmed(s.push(b)) == trimmed(s),
{
    lemma_trim_start_push(s, b);
    if trim_start(s).len() > 0 {
        assert(trim_start(s).push(b).drop_last() =~= trim_start(s));
    }
}

proof fn lemma_trim_start_push(s: Seq<u8>, b: u8)
    requires
        is_space(b),
    ensures
        trim_start(s.push(b)) == if trim_start(s).len() > 0 {
            trim_start(s).push(b)
        } else {
            Seq::empty()
        },
    decreases s.len(),
{
    let more = s.push(b);
    if s.len() == 0 {
        assert(more.skip(1) =~= Seq::empty());
        assert(trim_start(more) == trim_start(more.skip(1)));
        assert(trim_start(s) == s);
    } else {
        assert(more[0] == s[0]);
        if is_space(s[0]) {
            assert(more.skip(1) =~= s.skip(1).push(b));
            lemma_trim_start_push(s.skip(1), b);
        }
    }
}

proof fn lemma_reformatted(from: Seq<u8>, to: Seq<u8>)
    requires
        reformatted(from, to),
    ensures
        meaning(lines_from(from, 0)) == meaning(lines_from(to, 0)),
    decreases to.len(),
{
    if to.len() > 0 {
        lemma_next_line(to, 0);
        lemma_first_line(to);
        let lines = lines_from(to, 0);
        assert(lines[0] == line_at(to, 0));
        assert(lines.skip(1) =~= lines_from(behind_first(to), 0));
        if is_skipped(first_line(to)) && reformatted(from, behind_first(to)) {
            lemma_reformatted(from, behind_first(to));
        } else {
            lemma_reformatted(behind_first(from), behind_first(to));
            lemma_first_line(from);
            lemma_trimmed_push(first_line(from), 0x0D);
            let before = lines_from(from, 0);
            assert(before[0] == line_at(from, 0));
            assert(before.skip(1) =~= lines_from(behind_first(from), 0));
            assert(trimmed(lines[0]) == trimmed(before[0]));
        }
    }
}

/// The kind of a filter, as a number.
pub open spec fn kind_of(filter: FilterType) -> int {
    match filter {
        FilterType::Bypass => 0,
        FilterType::Peaking { .. } => 1,
        FilterType::LowPass { .. } => 2,
        FilterType::HighPass { .. } => 3,
        FilterType::LowShelf { .. } => 4,
        FilterType::HighShelf { .. } => 5,
        FilterType::BandPass { .. } => 6,
        FilterType::Notch { .. } => 7,
        FilterType::AllPass { .. } => 8,
    }
}

/// The frequency of a filter.
pub open spec fn freq_of(filter: FilterType) -> Option<Decimal> {
    match filter {
        FilterType::Bypass => None,
        FilterType::Peaking { freq_hz, .. } => Some(freq_hz),
        FilterType::LowPass { freq_hz, .. } => Some(freq_hz),
        FilterType::HighPass { freq_hz, .. } => Some(freq_hz),
        FilterType::LowShelf { freq_hz, .. } => Some(freq_hz),
        FilterType::HighShelf { freq_hz, .. } => Some(freq_hz),
        FilterType::BandPass { freq_hz, .. } => Some(freq_hz),
        FilterType::Notch { freq_hz, .. } => Some(freq_hz),
        FilterType::AllPass { freq_hz, .. } => Some(freq_hz),
    }
}

/// The gain of a filter that has one.
pub open spec fn gain_of(filter: FilterType) -> Option<Decimal> {
    match filter {
        FilterType::Peaking { gain_db, .. } => Some(gain_db),
        FilterType::LowShelf { gain_db, .. } => Some(gain_db),
        FilterType::HighShelf { gain_db, .. } => Some(gain_db),
        _ => None,
    }
}

/// The Q of a filter.
pub open spec fn q_of(filter: FilterType) -> Option<Decimal> {
    match filter {
        FilterType::Bypass => None,
        FilterType::Peaking { q, .. } => Some(q),
        FilterType::LowPass { q, .. } => Some(q),
        FilterType::HighPass { q, .. } => Some(q),
        FilterType::LowShelf { q, .. } => Some(q),
        FilterType::HighShelf { q, .. } => Some(q),
        FilterType::BandPass { q, .. } => Some(q),
        FilterType::Notch { q, .. } => Some(q),
        FilterType::AllPass { q, .. } => Some(q),
    }
}

/// Setting the gain sets it on peaking and shelving filters, and changes neither
/// kind nor frequency nor Q of any filter.
pub proof fn law_filter_gain(filter: FilterType, v: Decimal)
    ensures
        gain_of(filter) is Some <==> kind_of(filter) == 1 || kind_of(filter) == 4 || kind_of(filter)
            == 5,
        gain_of(filter) is Some ==> gain_of(with_gain(filter, v)) == Some(v),
        gain_of(filter) is None ==> with_gain(filter, v) == filter,
        kind_of(with_gain(filter, v)) == kind_of(filter),
        freq_of(with_gain(filter, v)) == freq_of(filter),
        q_of(with_gain(filter, v)) == q_of(filter),
{
}

/// Setting the frequency sets it on every filter but a bypassed band, and changes
/// neither kind nor gain nor Q.
pub proof fn law_filter_freq(filter: FilterType, v: Decimal)
    ensures
        kind_of(filter) != 0 ==> freq_of(with_freq(filter, v)) == Some(v),
        kind_of(filter) == 0 ==> with_freq(filter, v) == filter,
        kind_of(with_freq(filter, v)) == kind_of(filter),
        gain_of(with_freq(filter, v)) == gain_of(filter),
        q_of(with_freq(filter, v)) == q_of(filter),
{
}

/// Setting the Q sets it on every filter but a bypassed band, and changes neither
/// kind nor frequency nor gain.
pub proof fn law_filter_q(filter: FilterType, v: Decimal)
    ensures
        kind_of(filter) != 0 ==> q_of(with_q(filter, v)) == Some(v),
        kind_of(filter) == 0 ==> with_q(filter, v) == filter,
        kind_of(with_q(filter, v)) == kind_of(filter),
        freq_of(with_q(filter, v)) == freq_of(filter),
        gain_of(with_q(filter, v)) == gain_of(filter),
{
}

/// Each filter type has its name; any other text is a bypassed band. A new filter
/// is at 1 kHz and 0 dB, with a Q of 1.41 if it is peaking and of 0.707 if not.
pub proof fn law_filter_names(value: Seq<u8>)
    ensures
        value == "peaking".spec_bytes() ==> kind_of(filter_named(value)) == 1,
        value == "low_pass".spec_bytes() ==> kind_of(filter_named(value)) == 2,
        value == "high_pass".spec_bytes() ==> kind_of(filter_named(value)) == 3,
        value == "low_shelf".spec_bytes() ==> kind_of(filter_named(value)) == 4,
        value == "high_shelf".spec_bytes() ==> kind_of(filter_named(value)) == 5,
        value == "band_pass".spec_bytes() ==> kind_of(filter_named(value)) == 6,
        value == "notch".spec_bytes() ==> kind_of(filter_named(value)) == 7,
        value == "all_pass".spec_bytes() ==> kind_of(filter_named(value)) == 8,
        kind_of(filter_named(value)) == 0 <==> !(value == "peaking".spec_bytes() || value == "low_pass".spec_bytes() || value == "high_pass".spec_bytes() || value == "low_shelf".spec_bytes() || value == "high_shelf".spec_bytes() || value == "band_pass".spec_bytes() || value == "notch".spec_bytes() || value == "all_pass".spec_bytes()),
        kind_of(filter_named(value)) != 0 ==> freq_of(filter_named(value)) == Some(
            decimal(1000, 0, 1),
        ),
        gain_of(filter_named(value)) is Some ==> gain_of(filter_named(value)) == Some(
            decimal(0, 0, 1),
        ),
        kind_of(filter_named(value)) == 1 ==> q_of(filter_named(value)) == Some(decimal(1, 41, 100)),
        kind_of(filter_named(value)) > 1 ==> q_of(filter_named(value)) == Some(
            decimal(0, 707, 1000),
        ),
{
    lemma_filter_names();
}

proof fn lemma_filter_names()
    ensures
        "peaking".spec_bytes().len() == 7,
        "peaking".spec_bytes()[0] == 112,
        "peaking".spec_bytes()[6] == 103,
        "peaking".spec_bytes()[2] == 97,
        "low_pass".spec_bytes().len() == 8,
        "low_pass".spec_bytes()[0] == 108,
        "low_pass".spec_bytes()[7] == 115,
        "low_pass".spec_bytes()[2] == 119,
        "high_pass".spec_bytes().len() == 9,
        "high_pass".spec_bytes()[0] == 104,
        "high_pass".spec_bytes()[8] == 115,
        "high_pass".spec_bytes()[2] == 103,
        "low_shelf".spec_bytes().len() == 9,
        "low_shelf".spec_bytes()[0] == 108,
        "low_shelf".spec_bytes()[8] == 102,
        "low_shelf".spec_bytes()[2] == 119,
        "high_shelf".spec_bytes().len() == 10,
        "high_shelf".spec_bytes()[0] == 104,
        "high_shelf".spec_bytes()[9] == 102,
        "high_shelf".spec_bytes()[2] == 103,
        "band_pass".spec_bytes().len() == 9,
        "band_pass".spec_bytes()[0] == 98,
        "band_pass".spec_bytes()[8] == 115,
        "band_pass".spec_bytes()[2] == 110,
        "notch".spec_bytes().len() == 5,
        "notch".spec_bytes()[0] == 110,
        "notch".spec_bytes()[4] == 104,
        "notch".spec_bytes()[2] == 116,
        "all_pass".spec_bytes().len() == 8,
        "all_pass".spec_bytes()[0] == 97,
        "all_pass".spec_bytes()[7] == 115,
        "all_pass".spec_bytes()[2] == 108,
{
    reveal_strlit("peaking");
    vstd::string::is_ascii_spec_bytes("peaking");
    reveal_strlit("low_pass");
    vstd::string::is_ascii_spec_bytes("low_pass");
    reveal_strlit("high_pass");
    vstd::string::is_ascii_spec_bytes("high_pass");
    reveal_strlit("low_shelf");
    vstd::string::is_ascii_spec_bytes("low_shelf");
    reveal_strlit("high_shelf");
    vstd::string::is_ascii_spec_bytes("high_shelf");
    reveal_strlit("band_pass");
    vstd::string::is_ascii_spec_bytes("band_pass");
    reveal_strlit("notch");
    vstd::string::is_ascii_spec_bytes("notch");
    reveal_strlit("all_pass");
    vstd::string::is_ascii_spec_bytes("all_pass");
}

/// The keys of a band: its type replaces the filter, and a number sets frequency,
/// gain or Q. Anything else leaves the filter as it is, and no other band is
/// touched.
pub proof fn law_band_keys(
    c: crate::config::ConfigModel,
    band: int,
    other: int,
    key: Seq<u8>,
    value: Seq<u8>,
)
    requires
        c.eq_bands.len() == 24,
        0 <= band < 24,
        0 <= other < 24,
    ensures
        ({
            let after = eq_band_set(c, band, key, value);
            let v = crate::config::number::decimal_in(value);
            &&& after == (crate::config::ConfigModel { eq_bands: after.eq_bands, ..c })
            &&& after.eq_bands.len() == 24
            &&& other != band ==> after.eq_bands[other] == c.eq_bands[other]
            &&& key == "type".spec_bytes() ==> after.eq_bands[band] == filter_named(value)
            &&& key == "freq".spec_bytes() && v is Some && kind_of(c.eq_bands[band]) != 0
                ==> freq_of(after.eq_bands[band]) == v
            &&& key == "gain_db".spec_bytes() && v is Some && gain_of(c.eq_bands[band]) is Some
                ==> gain_of(after.eq_bands[band]) == v
            &&& key == "q".spec_bytes() && v is Some && kind_of(c.eq_bands[band]) != 0 ==> q_of(
                after.eq_bands[band],
            ) == v
            &&& key != "type".spec_bytes() ==> kind_of(after.eq_bands[band]) == kind_of(
                c.eq_bands[band],
            )
            &&& key != "type".spec_bytes() && v is None ==> after.eq_bands[band]
                == c.eq_bands[band]
            &&& key != "type".spec_bytes() && key != "freq".spec_bytes() ==> freq_of(
                after.eq_bands[band],
            ) == freq_of(c.eq_bands[band])
            &&& key != "type".spec_bytes() && key != "gain_db".spec_bytes() ==> gain_of(
                after.eq_bands[band],
            ) == gain_of(c.eq_bands[band])
            &&& key != "type".spec_bytes() && key != "q".spec_bytes() ==> q_of(after.eq_bands[band])
                == q_of(c.eq_bands[band])
        }),
{
    reveal_strlit("type");
    vstd::string::is_ascii_spec_bytes("type");
    reveal_strlit("freq");
    vstd::string::is_ascii_spec_bytes("freq");
    reveal_strlit("gain_db");
    vstd::string::is_ascii_spec_bytes("gain_db");
    reveal_strlit("q");
    vstd::string::is_ascii_spec_bytes("q");
    assert("type".spec_bytes().len() == 4 && "freq".spec_bytes().len() == 4);
    assert("gain_db".spec_bytes().len() == 7 && "q".spec_bytes().len() == 1);
    assert("type".spec_bytes()[0] == 0x74 && "freq".spec_bytes()[0] == 0x66);
    if let Some(v) = crate::config::number::decimal_in(value) {
        law_filter_freq(c.eq_bands[band], v);
        law_filter_gain(c.eq_bands[band], v);
        law_filter_q(c.eq_bands[band], v);
    }
}

/// Each mixer preset has its name; any other text is stereo.
pub proof fn law_mode_names(value: Seq<u8>)
    ensures
        mode_of(value) == MixerMode::Mono <==> value == "mono".spec_bytes(),
        mode_of(value) == MixerMode::LeftOnly <==> value == "left_only".spec_bytes(),
        mode_of(value) == MixerMode::RightOnly <==> value == "right_only".spec_bytes(),
        value == "stereo".spec_bytes() ==> mode_of(value) == MixerMode::Stereo,
{
    reveal_strlit("stereo");
    vstd::string::is_ascii_spec_bytes("stereo");
    reveal_strlit("mono");
    vstd::string::is_ascii_spec_bytes("mono");
    reveal_strlit("left_only");
    vstd::string::is_ascii_spec_bytes("left_only");
    reveal_strlit("right_only");
    vstd::string::is_ascii_spec_bytes("right_only");
    assert("stereo".spec_bytes().len() == 6 && "mono".spec_bytes().len() == 4);
    assert("left_only".spec_bytes().len() == 9 && "right_only".spec_bytes().len() == 10);
}

/// The keys of the mixer: a level in dB on one path sets the gain of that path
/// and of no other, on top of the gains set before, or of stereo. The mode is
/// kept apart, and gains that were set are in force over it.
#[verifier::rlimit(50)]
#[verifier::spinoff_prover]
pub proof fn law_mixer_keys(c: crate::config::ConfigModel, key: Seq<u8>, value: Seq<u8>)
    ensures
        ({
            let after = mixer_set(c, key, value);
            let base = if c.mixer_gains is Some {
                c.mixer_gains->0
            } else {
                MixerMode::Stereo.gains()
            };
            let now = after.gains();
            let level = crate::config::number::signed16_in(value);
            let gain = crate::drivers::tas5830::dsp::gain_of_db(level->0);
            let path = key == "l2l".spec_bytes() || key == "r2l".spec_bytes() || key
                == "l2r".spec_bytes() || key == "r2r".spec_bytes();
            &&& after == (crate::config::ConfigModel {
                mixer: after.mixer,
                mixer_gains: after.mixer_gains,
                ..c
            })
            &&& key == "mode".spec_bytes() ==> after.mixer == mode_of(value) && after.mixer_gains
                == c.mixer_gains
            &&& key != "mode".spec_bytes() ==> after.mixer == c.mixer
            &&& path && level is Some ==> {
                &&& after.mixer_gains is Some
                &&& now.l2l.0 == if key == "l2l".spec_bytes() {
                    gain
                } else {
                    base.l2l.0 as int
                }
                &&& now.r2l.0 == if key == "r2l".spec_bytes() {
                    gain
                } else {
                    base.r2l.0 as int
                }
                &&& now.l2r.0 == if key == "l2r".spec_bytes() {
                    gain
                } else {
                    base.l2r.0 as int
                }
                &&& now.r2r.0 == if key == "r2r".spec_bytes() {
                    gain
                } else {
                    base.r2r.0 as int
                }
            }
            &&& !path || level is None ==> after.mixer_gains == c.mixer_gains
            &&& after.mixer_gains is None ==> now == after.mixer.gains()
        }),
{
    reveal_strlit("mode");
    vstd::string::is_ascii_spec_bytes("mode");
    reveal_strlit("l2l");
    vstd::string::is_ascii_spec_bytes("l2l");
    reveal_strlit("r2l");
    vstd::string::is_ascii_spec_bytes("r2l");
    reveal_strlit("l2r");
    vstd::string::is_ascii_spec_bytes("l2r");
    reveal_strlit("r2r");
    vstd::string::is_ascii_spec_bytes("r2r");
    assert("mode".spec_bytes().len() == 4 && "l2l".spec_bytes().len() == 3);
    assert("r2l".spec_bytes().len() == 3 && "l2r".spec_bytes().len() == 3);
    assert("r2r".spec_bytes().len() == 3);
    assert("l2l".spec_bytes()[0] == 0x6C && "l2l".spec_bytes()[2] == 0x6C);
    assert("r2l".spec_bytes()[0] == 0x72 && "r2l".spec_bytes()[2] == 0x6C);
    assert("l2r".spec_bytes()[0] == 0x6C && "l2r".spec_bytes()[2] == 0x72);
    assert("r2r".spec_bytes()[0] == 0x72 && "r2r".spec_bytes()[2] == 0x72);
    if let Some(db) = crate::config::number::signed16_in(value) {
        crate::drivers::tas5830::dsp::lemma_gain_fits(db);
    }
}

/// The keys of the channel volume: left and tweeter are one channel, right and
/// woofer the other, and each sets its own.
pub proof fn law_channel_volume_keys(c: crate::config::ConfigModel, key: Seq<u8>, value: Seq<u8>)
    ensures
        ({
            let after = channel_volume_set(c, key, value);
            let level = crate::config::number::signed16_in(value);
            let left = key == "left_db".spec_bytes() || key == "tweeter_db".spec_bytes();
            let right = key == "right_db".spec_bytes() || key == "woofer_db".spec_bytes();
            &&& after == (crate::config::ConfigModel {
                left_db: after.left_db,
                right_db: after.right_db,
                ..c
            })
            &&& left && level is Some ==> after.left_db == level->0 && after.right_db == c.right_db
            &&& right && level is Some ==> after.right_db == level->0 && after.left_db == c.left_db
            &&& !left && !right || level is None ==> after == c
        }),
{
    reveal_strlit("left_db");
    vstd::string::is_ascii_spec_bytes("left_db");
    reveal_strlit("tweeter_db");
    vstd::string::is_ascii_spec_bytes("tweeter_db");
    reveal_strlit("right_db");
    vstd::string::is_ascii_spec_bytes("right_db");
    reveal_strlit("woofer_db");
    vstd::string::is_ascii_spec_bytes("woofer_db");
    assert("left_db".spec_bytes().len() == 7 && "tweeter_db".spec_bytes().len() == 10);
    assert("right_db".spec_bytes().len() == 8 && "woofer_db".spec_bytes().len() == 9);
}

/// The digital volume counts half decibels of attenuation, from none for 0 dB and
/// above to 255 for -127.5 dB and below.
pub proof fn law_digital_volume(db: int, louder: int)
    requires
        db <= louder,
    ensures
        -127 <= db <= 0 ==> digital_volume_of(db) == -2 * db,
        db >= 0 ==> digital_volume_of(db) == 0,
        db <= -128 ==> digital_volume_of(db) == 255,
        digital_volume_of(louder) <= digital_volume_of(db),
{
}

/// The keys of the volume: the digital volume in dB, and the analog gain up to 31.
pub proof fn law_volume_keys(c: crate::config::ConfigModel, key: Seq<u8>, value: Seq<u8>)
    ensures
        ({
            let after = volume_set(c, key, value);
            let level = crate::config::number::signed16_in(value);
            let gain = crate::config::number::unsigned_in(value, 255);
            &&& after == (crate::config::ConfigModel {
                digital_volume: after.digital_volume,
                analog_gain: after.analog_gain,
                ..c
            })
            &&& key == "digital_db".spec_bytes() && level is Some ==> after.digital_volume
                == digital_volume_of(level->0)
            &&& key != "digital_db".spec_bytes() || level is None ==> after.digital_volume
                == c.digital_volume
            &&& key == "analog_gain".spec_bytes() && gain is Some ==> after.analog_gain <= 31
                && after.analog_gain <= gain->0 && (after.analog_gain == gain->0
                || after.analog_gain == 31)
            &&& key != "analog_gain".spec_bytes() || gain is None ==> after.analog_gain
                == c.analog_gain
        }),
{
    reveal_strlit("digital_db");
    vstd::string::is_ascii_spec_bytes("digital_db");
    reveal_strlit("analog_gain");
    vstd::string::is_ascii_spec_bytes("analog_gain");
    assert("digital_db".spec_bytes().len() == 10 && "analog_gain".spec_bytes().len() == 11);
}

/// The keys of the device, of the EQ as a whole and of the raw pairs.
pub proof fn law_other_keys(c: crate::config::ConfigModel, key: Seq<u8>, value: Seq<u8>)
    ensures
        ({
            let d = device_set(c, key, value);
            let rate = crate::config::number::unsigned_in(value, u32::MAX as nat);
            &&& d == (crate::config::ConfigModel { sample_rate: d.sample_rate, ..c })
            &&& key == "sample_rate".spec_bytes() && rate is Some ==> d.sample_rate == rate->0
            &&& key != "sample_rate".spec_bytes() || rate is None ==> d == c
        }),
        ({
            let e = eq_global_set(c, key, value);
            &&& e == (crate::config::ConfigModel { eq_bypass: e.eq_bypass, ..c })
            &&& key == "bypass".spec_bytes() ==> (e.eq_bypass <==> value == "true".spec_bytes())
            &&& key != "bypass".spec_bytes() ==> e == c
        }),
        ({
            let p = processing_set(c, key, value);
            let reg = crate::config::number::hex_in(key);
            let val = crate::config::number::hex_in(value);
            &&& p == (crate::config::ConfigModel { processing: p.processing, ..c })
            &&& reg is Some && val is Some && c.processing.len() < 512 ==> p.processing
                == c.processing.push((reg->0, val->0))
            &&& reg is None || val is None || c.processing.len() >= 512 ==> p == c
        }),
{
}

/// Each section has its own keys: a key touches nothing of another section, and
/// none has an effect outside a known section.
pub proof fn law_sections_are_separate(
    section: Section,
    c: crate::config::ConfigModel,
    key: Seq<u8>,
    value: Seq<u8>,
)
    requires
        c.eq_bands.len() == 24,
        section matches Section::EqBand(n) ==> n < 24,
    ensures
        ({
            let after = key_set(section, c, key, value);
            &&& section == Section::Outside || section == Section::Unknown ==> after == c
            &&& section != Section::Device ==> after.sample_rate == c.sample_rate
            &&& section != Section::Mixer ==> after.mixer == c.mixer && after.mixer_gains
                == c.mixer_gains
            &&& section != Section::ChannelVolume ==> after.left_db == c.left_db && after.right_db
                == c.right_db
            &&& section != Section::Volume ==> after.digital_volume == c.digital_volume
                && after.analog_gain == c.analog_gain
            &&& section != Section::Eq ==> after.eq_bypass == c.eq_bypass
            &&& !(section is EqBand) ==> after.eq_bands == c.eq_bands
            &&& section != Section::Processing ==> after.processing == c.processing
        }),
        section == Section::Device ==> key_set(section, c, key, value) == device_set(c, key, value),
        section == Section::Mixer ==> key_set(section, c, key, value) == mixer_set(c, key, value),
        section == Section::ChannelVolume ==> key_set(section, c, key, value)
            == channel_volume_set(c, key, value),
        section == Section::Volume ==> key_set(section, c, key, value) == volume_set(c, key, value),
        section == Section::Eq ==> key_set(section, c, key, value) == eq_global_set(c, key, value),
        section == Section::Processing ==> key_set(section, c, key, value) == processing_set(
            c,
            key,
            value,
        ),
        section matches Section::EqBand(n) ==> key_set(section, c, key, value) == eq_band_set(
            c,
            n as int,
            key,
            value,
        ),
{
    law_mixer_keys(c, key, value);
    law_channel_volume_keys(c, key, value);
    law_volume_keys(c, key, value);
    law_other_keys(c, key, value);
    if let Section::EqBand(n) = section {
        law_band_keys(c, n as int, n as int, key, value);
    }
}

/// A header names its section between the brackets; what follows the closing one
/// does not matter. `eq.` and a number below 24 name a band.
#[verifier::rlimit(50)]
#[verifier::spinoff_prover]
pub proof fn law_section_headers(name: Seq<u8>, rest: Seq<u8>, number: Seq<u8>)
    requires
        forall|i: int| 0 <= i < name.len() ==> name[i] != 0x5D,
    ensures
        ({
            let section = section_of(seq![0x5Bu8] + name + seq![0x5Du8] + rest);
            &&& section == Section::Device <==> name == "device".spec_bytes()
            &&& section == Section::Mixer <==> name == "mixer".spec_bytes()
            &&& section == Section::ChannelVolume <==> name == "channel_volume".spec_bytes()
            &&& section == Section::Volume <==> name == "volume".spec_bytes()
            &&& section == Section::Eq <==> name == "eq".spec_bytes()
            &&& section == Section::Processing <==> name == "processing".spec_bytes()
            &&& name == "eq.".spec_bytes() + number ==> {
                let n = crate::config::number::unsigned_in(number, 23);
                &&& n is Some ==> section == Section::EqBand(n->0 as u8)
                &&& n is None ==> section == Section::Unknown
            }
            &&& section matches Section::EqBand(n) ==> n < 24
            &&& section != Section::Outside
        }),
        section_of(seq![0x5Bu8] + name) == Section::Unknown,
{
    reveal_strlit("device");
    vstd::string::is_ascii_spec_bytes("device");
    reveal_strlit("mixer");
    vstd::string::is_ascii_spec_bytes("mixer");
    reveal_strlit("channel_volume");
    vstd::string::is_ascii_spec_bytes("channel_volume");
    reveal_strlit("volume");
    vstd::string::is_ascii_spec_bytes("volume");
    reveal_strlit("eq");
    vstd::string::is_ascii_spec_bytes("eq");
    reveal_strlit("processing");
    vstd::string::is_ascii_spec_bytes("processing");
    reveal_strlit("eq.");
    vstd::string::is_ascii_spec_bytes("eq.");
    assert("device".spec_bytes().len() == 6);
    assert("mixer".spec_bytes().len() == 5);
    assert("channel_volume".spec_bytes().len() == 14);
    assert("volume".spec_bytes().len() == 6);
    assert("eq".spec_bytes().len() == 2);
    assert("processing".spec_bytes().len() == 10);
    assert("eq.".spec_bytes().len() == 3);
    assert("device".spec_bytes()[0] == 0x64 && "volume".spec_bytes()[0] == 0x76);
    assert("eq".spec_bytes()[0] == 0x65 && "eq.".spec_bytes()[0] == 0x65);
    assert("mixer".spec_bytes()[0] == 0x6D && "processing".spec_bytes()[0] == 0x70);
    assert("channel_volume".spec_bytes()[0] == 0x63);
    assert("eq.".spec_bytes()[2] == 0x2E);
    let line = seq![0x5Bu8] + name + seq![0x5Du8] + rest;
    let open = seq![0x5Bu8] + name;
    crate::config::number::lemma_position(line, 0x5D, 0);
    crate::config::number::lemma_position(open, 0x5D, 0);
    let end = crate::config::number::position_of(line, 0x5D, 0);
    let miss = crate::config::number::position_of(open, 0x5D, 0);
    assert(line[name.len() as int + 1] == 0x5D);
    if end < name.len() + 1 {
        assert(line[end] == if end == 0 {
            0x5Bu8
        } else {
            name[end - 1]
        });
    }
    if miss < open.len() {
        assert(open[miss] == if miss == 0 {
            0x5Bu8
        } else {
            name[miss - 1]
        });
    }
    assert(end == name.len() + 1);
    let inner = line.subrange(1, end);
    assert(inner =~= name);
    if name == "eq.".spec_bytes() + number {
        assert(name[0] == 0x65 && name[1] == "eq.".spec_bytes()[1] && name[2] == 0x2E);
        assert(name.take(3) =~= "eq.".spec_bytes());
        assert(name.skip(3) =~= number);
    }
    if 3 <= name.len() && name.take(3) == "eq.".spec_bytes() {
        assert(name.take(3)[0] == name[0]);
        assert(name[0] == 0x65);
    }
}

/// A key ends at the first equals sign, and the value is what follows it, both
/// without the whitespace around them; a line without a key or without an equals
/// sign holds neither.
pub proof fn law_key_value(key: Seq<u8>, value: Seq<u8>)
    requires
        forall|i: int| 0 <= i < key.len() ==> key[i] != 0x3D,
    ensures
        trimmed(key).len() > 0 ==> key_value(key + seq![0x3Du8] + value) == Some(
            (trimmed(key), trimmed(value)),
        ),
        trimmed(key).len() == 0 ==> key_value(key + seq![0x3Du8] + value) is None,
        key_value(key) is None,
{
    let line = key + seq![0x3Du8] + value;
    crate::config::number::lemma_position(line, 0x3D, 0);
    crate::config::number::lemma_position(key, 0x3D, 0);
    let at = crate::config::number::position_of(line, 0x3D, 0);
    assert(line[key.len() as int] == 0x3D);
    if at < key.len() {
        assert(line[at] == key[at]);
    }
    assert(line.take(at) =~= key);
    assert(line.skip(at + 1) =~= value);
}

/// What trimming leaves is the middle of the text: before and behind it there is
/// nothing but whitespace.
pub proof fn law_trimmed_is_the_middle(s: Seq<u8>)
    ensures
        exists|i: int, j: int|
            0 <= i <= j <= s.len() && trimmed(s) == #[trigger] s.subrange(i, j) && (forall|k: int|
                0 <= k < i || j <= k < s.len() ==> is_space(#[trigger] s[k])),
{
    let i = lemma_start(s);
    let t = trim_start(s);
    let n = lemma_end(t);
    assert(t.take(n) =~= s.subrange(i, i + n));
    assert forall|k: int| 0 <= k < i || i + n <= k < s.len() implies is_space(#[trigger] s[k]) by {
        if k >= i {
            assert(t[k - i] == s[k]);
        }
    }
}

proof fn lemma_start(s: Seq<u8>) -> (i: int)
    ensures
        0 <= i <= s.len(),
        trim_start(s) == s.skip(i),
        forall|k: int| 0 <= k < i ==> is_space(#[trigger] s[k]),
    decreases s.len(),
{
    if s.len() > 0 && is_space(s[0]) {
        let rest = s.skip(1);
        let j = lemma_start(rest);
        assert(rest.skip(j) =~= s.skip(j + 1));
        assert forall|k: int| 0 <= k < j + 1 implies is_space(#[trigger] s[k]) by {
            if k > 0 {
                assert(rest[k - 1] == s[k]);
            }
        }
        j + 1
    } else {
        assert(s.skip(0) =~= s);
        0
    }
}

proof fn lemma_end(s: Seq<u8>) -> (n: int)
    ensures
        0 <= n <= s.len(),
        trim_end(s) == s.take(n),
        forall|k: int| n <= k < s.len() ==> is_space(#[trigger] s[k]),
    decreases s.len(),
{
    if s.len() > 0 && is_space(s.last()) {
        let rest = s.drop_last();
        let n = lemma_end(rest);
        assert(rest.take(n) =~= s.take(n));
        assert forall|k: int| n <= k < s.len() implies is_space(#[trigger] s[k]) by {
            if k < s.len() - 1 {
                assert(rest[k] == s[k]);
            }
        }
        n
    } else {
        assert(s.take(s.len() as int) =~= s);
        s.len() as int
    }
}

/// Whitespace is the space, the tab, the line feed, the form feed and the carriage
/// return.
pub proof fn law_whitespace(b: u8)
    ensures
        is_space(b) <==> b == 32 || b == 9 || b == 10 || b == 12 || b == 13,
{
}

/// A line with a bracket in front changes the section and nothing else; any other
/// line stays in its section, and without a key it changes nothing.
pub proof fn law_lines(section: Section, c: crate::config::ConfigModel, line: Seq<u8>)
    requires
        !is_skipped(line),
    ensures
        ({
            let t = trimmed(line);
            let (s, d) = line_read(section, c, line);
            &&& t[0] == 0x5B ==> s == section_of(t) && d == c
            &&& t[0] != 0x5B ==> s == section
            &&& t[0] != 0x5B && key_value(t) is None ==> d == c
            &&& t[0] != 0x5B && key_value(t) is Some ==> d == key_set(
                section,
                c,
                (key_value(t)->0).0,
                (key_value(t)->0).1,
            )
        }),
{
    reveal(line_read);
}

/// A configuration starts without filters, in stereo, at 0 dB on both channels
/// and -24 dB overall, for 96 kHz.
pub proof fn law_initial_config(i: int)
    ensures
        ({
            let c = crate::config::ConfigModel::initial();
            &&& c.eq_bands.len() == 24
            &&& 0 <= i < 24 ==> c.eq_bands[i] == FilterType::Bypass
            &&& !c.eq_bypass
            &&& c.gains() == MixerMode::Stereo.gains()
            &&& c.left_db == 0 && c.right_db == 0
            &&& c.digital_volume == digital_volume_of(-24)
            &&& c.analog_gain == 0
            &&& c.sample_rate == 96000
            &&& c.processing.len() == 0
        }),
{
}

/// Setting the gain of a filter that has one gives it that gain; kind, frequency and
/// Q stay, and so does every other filter.
pub proof fn law_setting_gain(filter: &mut FilterType, gain_db: Decimal)
    requires
        call_ensures(set_filter_gain, (filter, gain_db), ()),
    ensures
        kind_of(*old(filter)) == 1 || kind_of(*old(filter)) == 4 || kind_of(*old(filter)) == 5
            ==> gain_of(*final(filter)) == Some(gain_db),
        kind_of(*old(filter)) != 1 && kind_of(*old(filter)) != 4 && kind_of(*old(filter)) != 5
            ==> *final(filter) == *old(filter),
        kind_of(*final(filter)) == kind_of(*old(filter)),
        freq_of(*final(filter)) == freq_of(*old(filter)),
        q_of(*final(filter)) == q_of(*old(filter)),
{
    law_filter_gain(*old(filter), gain_db);
}

/// Setting the frequency or the Q of a filter sets that and nothing else; a bypassed
/// band has neither.
pub proof fn law_setting_freq_and_q(
    tuned: &mut FilterType,
    freq_hz: Decimal,
    shaped: &mut FilterType,
    q: Decimal,
)
    requires
        call_ensures(set_filter_freq, (tuned, freq_hz), ()),
        call_ensures(set_filter_q, (shaped, q), ()),
    ensures
        kind_of(*old(tuned)) == 0 ==> *final(tuned) == *old(tuned),
        kind_of(*old(tuned)) != 0 ==> freq_of(*final(tuned)) == Some(freq_hz),
        kind_of(*final(tuned)) == kind_of(*old(tuned)),
        gain_of(*final(tuned)) == gain_of(*old(tuned)),
        q_of(*final(tuned)) == q_of(*old(tuned)),
        kind_of(*old(shaped)) == 0 ==> *final(shaped) == *old(shaped),
        kind_of(*old(shaped)) != 0 ==> q_of(*final(shaped)) == Some(q),
        kind_of(*final(shaped)) == kind_of(*old(shaped)),
        gain_of(*final(shaped)) == gain_of(*old(shaped)),
        freq_of(*final(shaped)) == freq_of(*old(shaped)),
{
    law_filter_freq(*old(tuned), freq_hz);
    law_filter_q(*old(shaped), q);
}

/// A key of a band changes that band alone: its type, or one value of its filter.
#[verifier::rlimit(50)]
#[verifier::spinoff_prover]
pub proof fn law_band_lines(
    band: u8,
    key: &[u8],
    value: &[u8],
    config: &mut DspConfigFile,
    other: int,
)
    requires
        band < 24,
        0 <= other < 24,
        call_ensures(parse_eq_band, (band, key, value, config), ()),
    ensures
        ({
            let was = old(config)@.eq_bands[band as int];
            let is = final(config)@.eq_bands[band as int];
            let v = crate::config::number::decimal_in(value@);
            &&& other != band ==> final(config)@.eq_bands[other] == old(config)@.eq_bands[other]
            &&& key@ == "type".spec_bytes() ==> is == filter_named(value@)
            &&& key@ == "gain_db".spec_bytes() && v is Some && gain_of(was) is Some ==> gain_of(is)
                == v && freq_of(is) == freq_of(was) && q_of(is) == q_of(was)
            &&& key@ == "freq".spec_bytes() && v is Some && kind_of(was) != 0 ==> freq_of(is) == v
                && gain_of(is) == gain_of(was) && q_of(is) == q_of(was)
            &&& key@ == "q".spec_bytes() && v is Some && kind_of(was) != 0 ==> q_of(is) == v
                && gain_of(is) == gain_of(was) && freq_of(is) == freq_of(was)
            &&& key@ != "type".spec_bytes() ==> kind_of(is) == kind_of(was)
            &&& key@ != "type".spec_bytes() && v is None ==> is == was
            &&& final(config)@ == (crate::config::ConfigModel {
                eq_bands: final(config)@.eq_bands,
                ..old(config)@
            })
        }),
{
    law_band_keys(old(config)@, band as int, other, key@, value@);
    reveal_strlit("type");
    vstd::string::is_ascii_spec_bytes("type");
    reveal_strlit("freq");
    vstd::string::is_ascii_spec_bytes("freq");
    reveal_strlit("gain_db");
    vstd::string::is_ascii_spec_bytes("gain_db");
    reveal_strlit("q");
    vstd::string::is_ascii_spec_bytes("q");
    assert("type".spec_bytes().len() == 4 && "freq".spec_bytes().len() == 4);
    assert("gain_db".spec_bytes().len() == 7 && "q".spec_bytes().len() == 1);
    assert("type".spec_bytes()[0] == 0x74 && "freq".spec_bytes()[0] == 0x66);
}

/// The other keys, section by section.
#[verifier::rlimit(50)]
#[verifier::spinoff_prover]
pub proof fn law_setting_lines(
    key: &[u8],
    value: &[u8],
    device: &mut DspConfigFile,
    channels: &mut DspConfigFile,
    volume: &mut DspConfigFile,
    eq: &mut DspConfigFile,
)
    requires
        call_ensures(parse_device, (key, value, device), ()),
        call_ensures(parse_channel_volume, (key, value, channels), ()),
        call_ensures(parse_volume, (key, value, volume), ()),
        call_ensures(parse_eq_global, (key, value, eq), ()),
    ensures
        ({
            let rate = crate::config::number::unsigned_in(value@, u32::MAX as nat);
            let level = crate::config::number::signed16_in(value@);
            let gain = crate::config::number::unsigned_in(value@, 255);
            let left = key@ == "left_db".spec_bytes() || key@ == "tweeter_db".spec_bytes();
            let right = key@ == "right_db".spec_bytes() || key@ == "woofer_db".spec_bytes();
            &&& key@ == "sample_rate".spec_bytes() && rate is Some ==> final(device)@.sample_rate
                == rate->0
            &&& key@ != "sample_rate".spec_bytes() || rate is None ==> final(device)@ == old(
                device)@
            &&& left && level is Some ==> final(channels)@.left_db == level->0 && final(
                channels)@.right_db == old(channels)@.right_db
            &&& right && level is Some ==> final(channels)@.right_db == level->0 && final(
                channels)@.left_db == old(channels)@.left_db
            &&& !left && !right || level is None ==> final(channels)@ == old(channels)@
            &&& key@ == "digital_db".spec_bytes() && level is Some && -127 <= level->0 <= 0
                ==> final(volume)@.digital_volume == -2 * level->0
            &&& key@ == "analog_gain".spec_bytes() && gain is Some && gain->0 <= 31 ==> final(
                volume)@.analog_gain == gain->0
            &&& key@ == "analog_gain".spec_bytes() && gain is Some && gain->0 > 31 ==> final(
                volume)@.analog_gain == 31
            &&& key@ == "bypass".spec_bytes() ==> (final(eq)@.eq_bypass <==> value@
                == "true".spec_bytes())
            &&& key@ != "bypass".spec_bytes() ==> final(eq)@ == old(eq)@
        }),
{
    law_other_keys(old(device)@, key@, value@);
    law_other_keys(old(eq)@, key@, value@);
    law_channel_volume_keys(old(channels)@, key@, value@);
    law_volume_keys(old(volume)@, key@, value@);
    if let Some(level) = crate::config::number::signed16_in(value@) {
        law_digital_volume(level, level);
    }
}

/// A level on a path of the mixer sets the gain of that path alone; a mode replaces
/// the mode alone.
#[verifier::rlimit(50)]
#[verifier::spinoff_prover]
pub proof fn law_mixer_lines(key: &[u8], value: &[u8], config: &mut DspConfigFile)
    requires
        call_ensures(parse_mixer, (key, value, config), ()),
    ensures
        ({
            let was = old(config)@;
            let is = final(config)@;
            let base = if was.mixer_gains is Some {
                was.mixer_gains->0
            } else {
                MixerMode::Stereo.gains()
            };
            let level = crate::config::number::signed16_in(value@);
            let gain = crate::drivers::tas5830::dsp::gain_of_db(level->0);
            &&& key@ == "mode".spec_bytes() ==> is == (crate::config::ConfigModel {
                mixer: mode_of(value@),
                ..was
            })
            &&& key@ == "l2l".spec_bytes() && level is Some ==> is.gains().l2l.0 == gain
                && is.gains() == (MixerGains { l2l: is.gains().l2l, ..base })
            &&& key@ == "r2l".spec_bytes() && level is Some ==> is.gains().r2l.0 == gain
                && is.gains() == (MixerGains { r2l: is.gains().r2l, ..base })
            &&& key@ == "l2r".spec_bytes() && level is Some ==> is.gains().l2r.0 == gain
                && is.gains() == (MixerGains { l2r: is.gains().l2r, ..base })
            &&& key@ == "r2r".spec_bytes() && level is Some ==> is.gains().r2r.0 == gain
                && is.gains() == (MixerGains { r2r: is.gains().r2r, ..base })
            &&& key@ != "mode".spec_bytes() && level is None ==> is == was
        }),
{
    law_mixer_keys(old(config)@, key@, value@);
    reveal_strlit("mode");
    vstd::string::is_ascii_spec_bytes("mode");
    reveal_strlit("l2l");
    vstd::string::is_ascii_spec_bytes("l2l");
    reveal_strlit("r2l");
    vstd::string::is_ascii_spec_bytes("r2l");
    reveal_strlit("l2r");
    vstd::string::is_ascii_spec_bytes("l2r");
    reveal_strlit("r2r");
    vstd::string::is_ascii_spec_bytes("r2r");
    assert("mode".spec_bytes().len() == 4 && "l2l".spec_bytes().len() == 3);
    assert("r2l".spec_bytes().len() == 3 && "l2r".spec_bytes().len() == 3);
    assert("r2r".spec_bytes().len() == 3);
    assert("l2l".spec_bytes()[0] == 0x6C && "l2l".spec_bytes()[2] == 0x6C);
    assert("r2l".spec_bytes()[0] == 0x72 && "r2l".spec_bytes()[2] == 0x6C);
    assert("l2r".spec_bytes()[0] == 0x6C && "l2r".spec_bytes()[2] == 0x72);
    assert("r2r".spec_bytes()[0] == 0x72 && "r2r".spec_bytes()[2] == 0x72);
}

/// A register pair is added behind the others; what is no pair, and what a full list
/// has no room for, is refused and changes nothing.
pub proof fn law_pair_lines(
    key: &[u8],
    value: &[u8],
    config: &mut DspConfigFile,
    result: Result<(), ParseError>,
)
    requires
        old(config)@.processing.len() <= 512,
        call_ensures(parse_processing, (key, value, config), result),
    ensures
        ({
            let reg = crate::config::number::hex_in(key@);
            let val = crate::config::number::hex_in(value@);
            &&& result is Ok <==> reg is Some && val is Some && old(config)@.processing.len() < 512
            &&& result is Ok ==> final(config)@.processing == old(config)@.processing.push(
                (reg->0, val->0),
            )
            &&& result is Err ==> final(config)@ == old(config)@
            &&& result matches Err(e) ==> (e.kind is InvalidNumber <==> reg is None || val is None)
            &&& result matches Err(e) ==> (e.kind is TooManyProcessingPairs <==> reg is Some && val
                is Some)
        }),
{
    law_other_keys(old(config)@, key@, value@);
}

/// What a header line is taken for.
pub proof fn law_header_lines(
    line: &[u8],
    section: Section,
    name: Seq<u8>,
    rest: Seq<u8>,
    number: Seq<u8>,
)
    requires
        line@ == seq![0x5Bu8] + name + seq![0x5Du8] + rest,
        forall|i: int| 0 <= i < name.len() ==> name[i] != 0x5D,
        call_ensures(parse_section, (line,), section),
    ensures
        section == Section::Device <==> name == "device".spec_bytes(),
        section == Section::Mixer <==> name == "mixer".spec_bytes(),
        section == Section::ChannelVolume <==> name == "channel_volume".spec_bytes(),
        section == Section::Volume <==> name == "volume".spec_bytes(),
        section == Section::Eq <==> name == "eq".spec_bytes(),
        section == Section::Processing <==> name == "processing".spec_bytes(),
        name == "eq.".spec_bytes() + number ==> {
            let n = crate::config::number::unsigned_in(number, 23);
            &&& n is Some ==> section == Section::EqBand(n->0 as u8)
            &&& n is None ==> section == Section::Unknown
        },
{
    law_section_headers(name, rest, number);
}

/// Keys and values, and what is trimmed off them.
pub proof fn law_splitting(
    line: &[u8],
    kv: Option<(&[u8], &[u8])>,
    left: Seq<u8>,
    right: Seq<u8>,
    s: &[u8],
    t: &[u8],
)
    requires
        line@ == left + seq![0x3Du8] + right,
        forall|i: int| 0 <= i < left.len() ==> left[i] != 0x3D,
        call_ensures(split_kv, (line,), kv),
        call_ensures(trim, (s,), t),
    ensures
        kv is Some <==> trimmed(left).len() > 0,
        kv is Some ==> (kv->0).0@ == trimmed(left) && (kv->0).1@ == trimmed(right),
        t@.len() > 0 ==> !is_space(t@[0]) && !is_space(t@.last()),
        exists|i: int, j: int|
            0 <= i <= j <= s@.len() && t@ == #[trigger] s@.subrange(i, j) && (forall|k: int|
                0 <= k < i || j <= k < s@.len() ==> is_space(#[trigger] s@[k])),
{
    law_key_value(left, right);
    law_trimmed_is_the_middle(s@);
    law_trimmed(s@);
}

/// Lines are read one after the other: what the first ones left is what the next
/// ones start from.
pub proof fn law_lines_in_order(
    section: Section,
    c: crate::config::ConfigModel,
    a: Seq<Seq<u8>>,
    b: Seq<Seq<u8>>,
)
    ensures
        lines_read(section, c, a + b) == lines_read(
            lines_read(section, c, a).0,
            lines_read(section, c, a).1,
            b,
        ),
        a.len() == 0 ==> lines_read(section, c, a) == (section, c),
        a.len() == 1 ==> lines_read(section, c, a) == line_read(section, c, a[0]),
    decreases a.len(),
{
    if a.len() == 0 {
        assert(a + b =~= b);
    } else {
        let (s, d) = line_read(section, c, a[0]);
        assert((a + b).skip(1) =~= a.skip(1) + b);
        law_lines_in_order(s, d, a.skip(1), b);
        if a.len() == 1 {
            assert(a.skip(1).len() == 0);
        }
    }
}

/// A file always parses: to the settings of an empty file, changed by its lines in
/// order from outside any section on.
pub proof fn law_parsing(data: &[u8], result: Result<DspConfigFile, ParseError>, i: int)
    requires
        call_ensures(parse, (data,), result),
    ensures
        result is Ok,
        result->Ok_0@ == lines_read(
            Section::Outside,
            crate::config::ConfigModel::initial(),
            lines_from(data@, 0),
        ).1,
        data@.len() == 0 ==> result->Ok_0@.digital_volume == 48 && result->Ok_0@.sample_rate
            == 96000 && result->Ok_0@.gains() == MixerMode::Stereo.gains()
            && !result->Ok_0@.eq_bypass && (0 <= i < 24 ==> result->Ok_0@.eq_bands[i]
            == FilterType::Bypass),
        result->Ok_0@.analog_gain <= 31,
        result->Ok_0@.processing.len() <= 512,
{
    law_parsed_is_valid(data@);
    law_initial_config(i);
    law_digital_volume(-24, -24);
}

} // verus!
