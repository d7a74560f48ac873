//! The catalog of transmission modes.
//!
//! A mode descriptor fixes the geometry of the picture and the timing of a
//! scanline. Durations are whole nanoseconds; the window factor is held in
//! hundredths (234 stands for 2.34).

use crate::timing::MAX_DURATION;
use vstd::prelude::*;

verus! {

/// The colour model of a mode: what its channels carry, and in which order.
#[derive(Debug, Clone, Copy, PartialEq, Eq, Structural)]
pub enum ColFmt {
    RGB,
    GBR,
    YUV,
    BW,
}

/// The descriptor of one transmission mode.
#[derive(Debug, Clone)]
pub struct Spec {
    pub name: String,
    pub color: ColFmt,
    pub line_width: usize,
    pub line_count: usize,
    pub scan_time: u64,
    pub half_scan_time: u64,
    pub sync_pulse: u64,
    pub sync_porch: u64,
    pub sep_pulse: u64,
    pub sep_porch: u64,
    pub chan_count: usize,
    pub chan_sync: usize,
    pub chan_time: u64,
    pub half_chan_time: u64,
    pub chan_offsets: Vec<u64>,
    pub line_time: u64,
    pub pixel_time: u64,
    pub half_pixel_time: u64,
    pub window_factor: u32,
    pub has_start_sync: bool,
    pub has_half_scan: bool,
    pub has_alt_scan: bool,
}

/// The mathematical content of a mode descriptor.
pub struct SpecView {
    pub name: Seq<char>,
    pub color: ColFmt,
    pub line_width: nat,
    pub line_count: nat,
    pub scan_time: nat,
    pub half_scan_time: nat,
    pub sync_pulse: nat,
    pub sync_porch: nat,
    pub sep_pulse: nat,
    pub sep_porch: nat,
    pub chan_count: nat,
    pub chan_sync: nat,
    pub chan_time: nat,
    pub half_chan_time: nat,
    pub chan_offsets: Seq<nat>,
    pub line_time: nat,
    pub pixel_time: nat,
    pub half_pixel_time: nat,
    pub window_factor: nat,
    pub has_start_sync: bool,
    pub has_half_scan: bool,
    pub has_alt_scan: bool,
}

impl View for Spec {
    type V = SpecView;

    open spec fn view(&self) -> SpecView {
        SpecView {
            name: self.name@,
            color: self.color,
            line_width: self.line_width as nat,
            line_count: self.line_count as nat,
            scan_time: self.scan_time as nat,
            half_scan_time: self.half_scan_time as nat,
            sync_pulse: self.sync_pulse as nat,
            sync_porch: self.sync_porch as nat,
            sep_pulse: self.sep_pulse as nat,
            sep_porch: self.sep_porch as nat,
            chan_count: self.chan_count as nat,
            chan_sync: self.chan_sync as nat,
            chan_time: self.chan_time as nat,
            half_chan_time: self.half_chan_time as nat,
            chan_offsets: self.chan_offsets@.map_values(|t: u64| t as nat),
            line_time: self.line_time as nat,
            pixel_time: self.pixel_time as nat,
            half_pixel_time: self.half_pixel_time as nat,
            window_factor: self.window_factor as nat,
            has_start_sync: self.has_start_sync,
            has_half_scan: self.has_half_scan,
            has_alt_scan: self.has_alt_scan,
        }
    }
}

impl SpecView {
    /// What the decoder relies on: the picture is not empty across, its pixel
    /// buffer has a 32-bit size, there are one to three channels with one
    /// offset each, one of them bears the sync pulse, and no duration is
    /// beyond `MAX_DURATION`. Where adjacent lines share their chroma, the
    /// lines come in pairs.
    pub open spec fn wf(self) -> bool {
        &&& 1 <= self.line_width <= u32::MAX
        &&& self.line_count <= u32::MAX
        &&& 3 * self.line_count * self.line_width <= u32::MAX
        &&& 1 <= self.chan_count <= 3
        &&& self.chan_sync < self.chan_count
        &&& self.chan_offsets.len() == self.chan_count
        &&& forall|c: int|
            0 <= c < self.chan_offsets.len() ==> #[trigger] self.chan_offsets[c] <= MAX_DURATION
        &&& self.scan_time <= MAX_DURATION
        &&& self.sync_pulse <= MAX_DURATION
        &&& self.line_time <= MAX_DURATION
        &&& self.pixel_time <= MAX_DURATION
        &&& self.half_pixel_time <= MAX_DURATION
        &&& self.window_factor <= u32::MAX
        &&& self.has_alt_scan ==> self.line_count % 2 == 0
    }
}

/// The Martin family: green, blue, red, each scan after a separator pulse,
/// the sync pulse before the first.
pub open spec fn martin_mode(name: Seq<char>, scan_time: nat, window_factor: nat) -> SpecView {
    let sep_pulse: nat = 572_000;
    let sync_pulse: nat = 4_862_000;
    let sync_porch: nat = 572_000;
    let chan_time: nat = sep_pulse + scan_time;
    SpecView {
        name,
        color: ColFmt::GBR,
        line_width: 320,
        line_count: 256,
        scan_time,
        half_scan_time: 0,
        sync_pulse,
        sync_porch,
        sep_pulse,
        sep_porch: 0,
        chan_count: 3,
        chan_sync: 0,
        chan_time,
        half_chan_time: 0,
        chan_offsets: seq![
            sync_pulse + sync_porch,
            sync_pulse + sync_porch + chan_time,
            sync_pulse + sync_porch + 2 * chan_time,
        ],
        line_time: sync_pulse + sync_porch + 3 * chan_time,
        pixel_time: scan_time / 320,
        half_pixel_time: 0,
        window_factor,
        has_start_sync: false,
        has_half_scan: false,
        has_alt_scan: false,
    }
}

/// The Scottie family: green, blue, then the sync pulse and red; one sync
/// pulse more stands before the first line.
pub open spec fn scottie_mode(name: Seq<char>, scan_time: nat, window_factor: nat) -> SpecView {
    let sync_pulse: nat = 9_000_000;
    let sep_pulse: nat = 1_500_000;
    let sync_porch: nat = 1_500_000;
    let chan_time: nat = sep_pulse + scan_time;
    SpecView {
        name,
        color: ColFmt::GBR,
        line_width: 320,
        line_count: 256,
        scan_time,
        half_scan_time: 0,
        sync_pulse,
        sync_porch,
        sep_pulse,
        sep_porch: 0,
        chan_count: 3,
        chan_sync: 2,
        chan_time,
        half_chan_time: 0,
        chan_offsets: seq![
            sync_pulse + sync_porch + chan_time,
            sync_pulse + sync_porch + 2 * chan_time,
            sync_pulse + sync_porch,
        ],
        line_time: sync_pulse + 3 * chan_time,
        pixel_time: scan_time / 320,
        half_pixel_time: 0,
        window_factor,
        has_start_sync: true,
        has_half_scan: false,
        has_alt_scan: false,
    }
}

/// Robot 36: luminance, then one chroma scan of half the length, which two
/// adjacent lines share.
pub open spec fn robot36_mode() -> SpecView {
    let scan_time: nat = 88_000_000;
    let half_scan_time: nat = 44_000_000;
    let sync_pulse: nat = 9_000_000;
    let sync_porch: nat = 3_000_000;
    let sep_pulse: nat = 4_500_000;
    let sep_porch: nat = 1_500_000;
    let chan_time: nat = sep_pulse + scan_time;
    SpecView {
        name: "Robot 36"@,
        color: ColFmt::YUV,
        line_width: 320,
        line_count: 240,
        scan_time,
        half_scan_time,
        sync_pulse,
        sync_porch,
        sep_pulse,
        sep_porch,
        chan_count: 2,
        chan_sync: 0,
        chan_time,
        half_chan_time: 0,
        chan_offsets: seq![
            sync_pulse + sync_porch,
            sync_pulse + sync_porch + chan_time + sep_porch,
        ],
        line_time: sync_pulse + sync_porch + chan_time + sep_porch + half_scan_time,
        pixel_time: scan_time / 320,
        half_pixel_time: half_scan_time / 320,
        window_factor: 770,
        has_start_sync: false,
        has_half_scan: true,
        has_alt_scan: true,
    }
}

/// Robot 72: luminance, then two chroma scans of half the length.
pub open spec fn robot72_mode() -> SpecView {
    let scan_time: nat = 138_000_000;
    let half_scan_time: nat = 69_000_000;
    let sync_pulse: nat = 9_000_000;
    let sync_porch: nat = 3_000_000;
    let sep_pulse: nat = 4_500_000;
    let sep_porch: nat = 1_500_000;
    let chan_time: nat = sep_pulse + scan_time;
    let half_chan_time: nat = sep_pulse + half_scan_time;
    SpecView {
        name: "Robot 72"@,
        color: ColFmt::YUV,
        line_width: 320,
        line_count: 240,
        scan_time,
        half_scan_time,
        sync_pulse,
        sync_porch,
        sep_pulse,
        sep_porch,
        chan_count: 3,
        chan_sync: 0,
        chan_time,
        half_chan_time,
        chan_offsets: seq![
            sync_pulse + sync_porch,
            sync_pulse + sync_porch + chan_time + sep_porch,
            sync_pulse + sync_porch + chan_time + sep_porch + half_chan_time + sep_porch,
        ],
        line_time: sync_pulse + sync_porch + chan_time + sep_porch + half_chan_time + sep_porch
            + half_scan_time,
        pixel_time: scan_time / 320,
        half_pixel_time: half_scan_time / 320,
        window_factor: 488,
        has_start_sync: false,
        has_half_scan: true,
        has_alt_scan: false,
    }
}

/// The mode that an identification code stands for, if it stands for one.
pub open spec fn catalog(code: int) -> Option<SpecView> {
    if code == 8 {
        Some(robot36_mode())
    } else if code == 12 {
        Some(robot72_mode())
    } else if code == 40 {
        Some(martin_mode("Martin 2"@, 73_216_000, 468))
    } else if code == 44 {
        Some(martin_mode("Martin 1"@, 146_432_000, 234))
    } else if code == 56 {
        Some(scottie_mode("Scottie 2"@, 88_064_000, 382))
    } else if code == 60 {
        Some(scottie_mode("Scottie 1"@, 138_240_000, 248))
    } else if code == 76 {
        Some(scottie_mode("Scottie DX"@, 345_600_000, 98))
    } else {
        None
    }
}

/// Every mode of the catalog has one offset for each of its channels, and
/// meets what the decoder relies on. Where no channel is scanned at half
/// length, a line lasts at least as long as its sync pulse and its channels
/// together.
pub proof fn lemma_catalog_geometry(code: int)
    requires
        catalog(code) is Some,
    ensures
        catalog(code)->0.wf(),
        catalog(code)->0.chan_offsets.len() == catalog(code)->0.chan_count,
        !catalog(code)->0.has_half_scan ==> catalog(code)->0.line_time >= catalog(code)->0.sync_pulse
            + catalog(code)->0.chan_count * catalog(code)->0.chan_time,
{
}

fn martin(name: &str, scan_time: u64, window_factor: u32) -> (mode: Spec)
    requires
        scan_time <= 1_000_000_000,
    ensures
        mode@ == martin_mode(name@, scan_time as nat, window_factor as nat),
{
    let sep_pulse: u64 = 572_000;
    let sync_pulse: u64 = 4_862_000;
    let sync_porch: u64 = 572_000;
    let line_width: usize = 320;
    let chan_time: u64 = sep_pulse + scan_time;
    let mut chan_offsets: Vec<u64> = Vec::new();
    chan_offsets.push(sync_pulse + sync_porch);
    chan_offsets.push(sync_pulse + sync_porch + chan_time);
    chan_offsets.push(sync_pulse + sync_porch + chan_time * 2);
    let mode = Spec {
        name: name.to_owned(),
        color: ColFmt::GBR,
        line_width,
        line_count: 256,
        scan_time,
        half_scan_time: 0,
        sync_pulse,
        sync_porch,
        sep_pulse,
        sep_porch: 0,
        chan_count: 3,
        chan_sync: 0,
        chan_time,
        half_chan_time: 0,
        chan_offsets,
        line_time: sync_pulse + sync_porch + 3 * chan_time,
        pixel_time: scan_time / (line_width as u64),
        half_pixel_time: 0,
        window_factor,
        has_start_sync: false,
        has_half_scan: false,
        has_alt_scan: false,
    };
    assert(mode@.chan_offsets =~= martin_mode(
        name@,
        scan_time as nat,
        window_factor as nat,
    ).chan_offsets);
    mode
}

fn scottie(name: &str, scan_time: u64, window_factor: u32) -> (mode: Spec)
    requires
        scan_time <= 1_000_000_000,
    ensures
        mode@ == scottie_mode(name@, scan_time as nat, window_factor as nat),
{
    let sync_pulse: u64 = 9_000_000;
    let sep_pulse: u64 = 1_500_000;
    let sync_porch: u64 = 1_500_000;
    let line_width: usize = 320;
    let chan_time: u64 = sep_pulse + scan_time;
    let mut chan_offsets: Vec<u64> = Vec::new();
    chan_offsets.push(sync_pulse + sync_porch + chan_time);
    chan_offsets.push(sync_pulse + sync_porch + chan_time * 2);
    chan_offsets.push(sync_pulse + sync_porch);
    let mode = Spec {
        name: name.to_owned(),
        color: ColFmt::GBR,
        line_width,
        line_count: 256,
        scan_time,
        half_scan_time: 0,
        sync_pulse,
        sync_porch,
        sep_pulse,
        sep_porch: 0,
        chan_count: 3,
        chan_sync: 2,
        chan_time,
        half_chan_time: 0,
        chan_offsets,
        line_time: sync_pulse + 3 * chan_time,
        pixel_time: scan_time / (line_width as u64),
        half_pixel_time: 0,
        window_factor,
        has_start_sync: true,
        has_half_scan: false,
        has_alt_scan: false,
    };
    assert(mode@.chan_offsets =~= scottie_mode(
        name@,
        scan_time as nat,
        window_factor as nat,
    ).chan_offsets);
    mode
}

pub struct M1;

pub struct M2;

pub struct S1;

pub struct S2;

pub struct SDX;

pub struct R36;

pub struct R72;

impl M1 {
    /// Martin 1.
    pub fn new() -> (mode: Spec)
        ensures
            catalog(44) == Some(mode@),
    {
        martin("Martin 1", 146_432_000, 234)
    }
}

impl M2 {
    /// Martin 2.
    pub fn new() -> (mode: Spec)
        ensures
            catalog(40) == Some(mode@),
    {
        martin("Martin 2", 73_216_000, 468)
    }
}

impl S1 {
    /// Scottie 1.
    pub fn new() -> (mode: Spec)
        ensures
            catalog(60) == Some(mode@),
    {
        scottie("Scottie 1", 138_240_000, 248)
    }
}

impl S2 {
    /// Scottie 2.
    pub fn new() -> (mode: Spec)
        ensures
            catalog(56) == Some(mode@),
    {
        scottie("Scottie 2", 88_064_000, 382)
    }
}

impl SDX {
    /// Scottie DX.
    pub fn new() -> (mode: Spec)
        ensures
            catalog(76) == Some(mode@),
    {
        scottie("Scottie DX", 345_600_000, 98)
    }
}

impl R36 {
    /// Robot 36.
    pub fn new() -> (mode: Spec)
        ensures
            catalog(8) == Some(mode@),
    {
        let scan_time: u64 = 88_000_000;
        let line_width: usize = 320;
        let half_scan_time: u64 = 44_000_000;
        let sync_porch: u64 = 3_000_000;
        let sep_pulse: u64 = 4_500_000;
        let sep_porch: u64 = 1_500_000;
        let chan_time: u64 = sep_pulse + scan_time;
        let sync_pulse: u64 = 9_000_000;
        let pixel_time: u64 = scan_time / (line_width as u64);
        let mut chan_offsets: Vec<u64> = Vec::new();
        chan_offsets.push(sync_pulse + sync_porch);
        chan_offsets.push(sync_pulse + sync_porch + chan_time + sep_porch);
        let line_time: u64 = chan_offsets[1] + half_scan_time;
        let mode = Spec {
            name: "Robot 36".to_owned(),
            color: ColFmt::YUV,
            line_width,
            line_count: 240,
            scan_time,
            half_scan_time,
            sync_pulse,
            sync_porch,
            sep_pulse,
            sep_porch,
            chan_count: 2,
            chan_sync: 0,
            chan_time,
            half_chan_time: 0,
            chan_offsets,
            line_time,
            pixel_time,
            half_pixel_time: half_scan_time / (line_width as u64),
            window_factor: 770,
            has_start_sync: false,
            has_half_scan: true,
            has_alt_scan: true,
        };
        assert(mode@.chan_offsets =~= robot36_mode().chan_offsets);
        mode
    }
}

impl R72 {
    /// Robot 72.
    pub fn new() -> (mode: Spec)
        ensures
            catalog(12) == Some(mode@),
    {
        let scan_time: u64 = 138_000_000;
        let line_width: usize = 320;
        let half_scan_time: u64 = 69_000_000;
        let sync_porch: u64 = 3_000_000;
        let sep_pulse: u64 = 4_500_000;
        let sep_porch: u64 = 1_500_000;
        let chan_time: u64 = sep_pulse + scan_time;
        let sync_pulse: u64 = 9_000_000;
        let half_chan_time: u64 = sep_pulse + half_scan_time;
        let mut chan_offsets: Vec<u64> = Vec::new();
        chan_offsets.push(sync_pulse + sync_porch);
        chan_offsets.push(sync_pulse + sync_porch + chan_time + sep_porch);
        chan_offsets.push(
            sync_pulse + sync_porch + chan_time + sep_porch + half_chan_time + sep_porch,
        );
        let line_time: u64 = chan_offsets[2] + half_scan_time;
        let mode = Spec {
            name: "Robot 72".to_owned(),
            color: ColFmt::YUV,
            line_width,
            line_count: 240,
            scan_time,
            half_scan_time,
            sync_pulse,
            sync_porch,
            sep_pulse,
            sep_porch,
            chan_count: 3,
            chan_sync: 0,
            chan_time,
            half_chan_time,
            chan_offsets,
            line_time,
            pixel_time: scan_time / (line_width as u64),
            half_pixel_time: half_scan_time / (line_width as u64),
            window_factor: 488,
            has_start_sync: false,
            has_half_scan: true,
            has_alt_scan: false,
        };
        assert(mode@.chan_offsets =~= robot72_mode().chan_offsets);
        mode
    }
}

/// The mode that the identification code `vis` stands for. The codes of the
/// catalog are 8, 12, 40, 44, 56, 60 and 76; any other is refused.
#[allow(non_snake_case)]
pub fn VIS_MAP(vis: usize) -> (found: Result<Spec, String>)
    ensures
        match found {
            Ok(mode) => catalog(vis as int) == Some(mode@),
            Err(reason) => catalog(vis as int) is None && reason@ == "Not found"@,
        },
{
    match vis {
        8 => Ok(R36::new()),
        12 => Ok(R72::new()),
        40 => Ok(M2::new()),
        44 => Ok(M1::new()),
        56 => Ok(S2::new()),
        60 => Ok(S1::new()),
        76 => Ok(SDX::new()),
        _ => Err("Not found".to_owned()),
    }
}

} // verus!
