//! The amateur bands and the frequencies that they span.

use vstd::prelude::*;
use crate::frequency::FrequencyHz;

verus! {

/// An amateur band.
#[derive(Debug, Clone, Copy, PartialEq, Eq, Hash, Structural)]
pub enum Band {
    Meter160,
    Meter80,
    Meter60,
    Meter40,
    Meter30,
    Meter20,
    Meter17,
    Meter15,
    Meter12,
    Meter10,
    Meter6,
    Meter2,
    Meter1_25,
    Centimeter70,
}

/// A band with its name and the frequencies that it spans, both ends included.
#[derive(Debug, Clone, Copy, PartialEq, Eq, Hash)]
pub struct BandDefinition {
    pub band: Band,
    pub label: &'static str,
    pub low_hz: u64,
    pub high_hz: u64,
}

impl BandDefinition {
    /// Whether `hz` lies in the band.
    pub open spec fn spans(self, hz: u64) -> bool {
        self.low_hz <= hz <= self.high_hz
    }

    /// Whether `hz` lies in the band.
    pub fn contains(&self, hz: u64) -> (inside: bool)
        ensures
            inside == self.spans(hz),
    {
        hz >= self.low_hz && hz <= self.high_hz
    }
}

/// The first band of `table` that spans `hz`.
pub open spec fn first_spanning(table: Seq<BandDefinition>, hz: u64) -> Option<Band>
    decreases table.len(),
{
    if table.len() == 0 {
        None
    } else if table[0].spans(hz) {
        Some(table[0].band)
    } else {
        first_spanning(table.skip(1), hz)
    }
}

impl Band {
    /// The bands from the longest wave to the shortest.
    pub open spec fn table() -> Seq<BandDefinition> {
        seq![
            BandDefinition { band: Band::Meter160, label: "160m", low_hz: 1_800_000, high_hz: 2_000_000 },
            BandDefinition { band: Band::Meter80, label: "80m", low_hz: 3_500_000, high_hz: 4_000_000 },
            BandDefinition { band: Band::Meter60, label: "60m", low_hz: 5_351_500, high_hz: 5_366_500 },
            BandDefinition { band: Band::Meter40, label: "40m", low_hz: 7_000_000, high_hz: 7_300_000 },
            BandDefinition { band: Band::Meter30, label: "30m", low_hz: 10_100_000, high_hz: 10_150_000 },
            BandDefinition { band: Band::Meter20, label: "20m", low_hz: 14_000_000, high_hz: 14_350_000 },
            BandDefinition { band: Band::Meter17, label: "17m", low_hz: 18_068_000, high_hz: 18_168_000 },
            BandDefinition { band: Band::Meter15, label: "15m", low_hz: 21_000_000, high_hz: 21_450_000 },
            BandDefinition { band: Band::Meter12, label: "12m", low_hz: 24_890_000, high_hz: 24_990_000 },
            BandDefinition { band: Band::Meter10, label: "10m", low_hz: 28_000_000, high_hz: 29_700_000 },
            BandDefinition { band: Band::Meter6, label: "6m", low_hz: 50_000_000, high_hz: 54_000_000 },
            BandDefinition { band: Band::Meter2, label: "2m", low_hz: 144_000_000, high_hz: 148_000_000 },
            BandDefinition { band: Band::Meter1_25, label: "1.25m", low_hz: 222_000_000, high_hz: 225_000_000 },
            BandDefinition { band: Band::Centimeter70, label: "70cm", low_hz: 420_000_000, high_hz: 450_000_000 },
        ]
    }

    /// The band in which `hz` lies, where it lies in one.
    pub open spec fn of(hz: u64) -> Option<Band> {
        first_spanning(Band::table(), hz)
    }

    /// The name of the band.
    pub open spec fn name(self) -> &'static str {
        match self {
            Band::Meter160 => "160m",
            Band::Meter80 => "80m",
            Band::Meter60 => "60m",
            Band::Meter40 => "40m",
            Band::Meter30 => "30m",
            Band::Meter20 => "20m",
            Band::Meter17 => "17m",
            Band::Meter15 => "15m",
            Band::Meter12 => "12m",
            Band::Meter10 => "10m",
            Band::Meter6 => "6m",
            Band::Meter2 => "2m",
            Band::Meter1_25 => "1.25m",
            Band::Centimeter70 => "70cm",
        }
    }

    /// The bands from the longest wave to the shortest.
    pub fn definitions() -> (out: Vec<BandDefinition>)
        ensures
            out@ == Band::table(),
    {
        let mut out: Vec<BandDefinition> = Vec::new();
        out.push(BandDefinition { band: Band::Meter160, label: "160m", low_hz: 1_800_000, high_hz: 2_000_000 });
        out.push(BandDefinition { band: Band::Meter80, label: "80m", low_hz: 3_500_000, high_hz: 4_000_000 });
        out.push(BandDefinition { band: Band::Meter60, label: "60m", low_hz: 5_351_500, high_hz: 5_366_500 });
        out.push(BandDefinition { band: Band::Meter40, label: "40m", low_hz: 7_000_000, high_hz: 7_300_000 });
        out.push(BandDefinition { band: Band::Meter30, label: "30m", low_hz: 10_100_000, high_hz: 10_150_000 });
        out.push(BandDefinition { band: Band::Meter20, label: "20m", low_hz: 14_000_000, high_hz: 14_350_000 });
        out.push(BandDefinition { band: Band::Meter17, label: "17m", low_hz: 18_068_000, high_hz: 18_168_000 });
        out.push(BandDefinition { band: Band::Meter15, label: "15m", low_hz: 21_000_000, high_hz: 21_450_000 });
        out.push(BandDefinition { band: Band::Meter12, label: "12m", low_hz: 24_890_000, high_hz: 24_990_000 });
        out.push(BandDefinition { band: Band::Meter10, label: "10m", low_hz: 28_000_000, high_hz: 29_700_000 });
        out.push(BandDefinition { band: Band::Meter6, label: "6m", low_hz: 50_000_000, high_hz: 54_000_000 });
        out.push(BandDefinition { band: Band::Meter2, label: "2m", low_hz: 144_000_000, high_hz: 148_000_000 });
        out.push(BandDefinition { band: Band::Meter1_25, label: "1.25m", low_hz: 222_000_000, high_hz: 225_000_000 });
        out.push(BandDefinition { band: Band::Centimeter70, label: "70cm", low_hz: 420_000_000, high_hz: 450_000_000 });
        assert(out@ =~= Band::table());
        out
    }

    /// The band in which `freq` lies, where it lies in one.
    pub fn from_frequency(freq: FrequencyHz) -> (band: Option<Self>)
        ensures
            band == Band::of(freq.0),
    {
        let hz = freq.0;
        let table = Band::definitions();
        let mut i: usize = 0;
        assert(table@.skip(0) =~= table@);
        while i < table.len()
            invariant
                i <= table.len(),
                table@ == Band::table(),
                hz == freq.0,
                Band::of(hz) == first_spanning(table@.skip(i as int), hz),
            decreases table.len() - i,
        {
            assert(table@.skip(i as int)[0] == table@[i as int]);
            if table[i].contains(hz) {
                assert(first_spanning(table@.skip(i as int), hz) == Some(table@[i as int].band));
                return Some(table[i].band);
            }
            assert(table@.skip(i as int).skip(1) =~= table@.skip(i + 1));
            i += 1;
        }
        None
    }

    /// The name of the band.
    pub fn label(&self) -> (out: &'static str)
        ensures
            out == self.name(),
    {
        match self {
            Band::Meter160 => "160m",
            Band::Meter80 => "80m",
            Band::Meter60 => "60m",
            Band::Meter40 => "40m",
            Band::Meter30 => "30m",
            Band::Meter20 => "20m",
            Band::Meter17 => "17m",
            Band::Meter15 => "15m",
            Band::Meter12 => "12m",
            Band::Meter10 => "10m",
            Band::Meter6 => "6m",
            Band::Meter2 => "2m",
            Band::Meter1_25 => "1.25m",
            Band::Centimeter70 => "70cm",
        }
    }
}

/// Each band of the table goes by the name that the table gives it, and a
/// frequency that a band of the table spans lies in that band and in no other.
pub proof fn lemma_band_table(i: int, hz: u64)
    requires
        0 <= i < Band::table().len(),
    ensures
        Band::table()[i].band.name() == Band::table()[i].label,
        Band::table()[i].spans(hz) ==> Band::of(hz) == Some(Band::table()[i].band),
        Band::of(hz) == Some(Band::table()[i].band) ==> Band::table()[i].spans(hz),
{
    reveal_with_fuel(first_spanning, 16);
    let t = Band::table();
    assert(t.skip(1)[0] == t[1]);
    assert(t.skip(1).skip(1) =~= t.skip(2));
    assert(t.skip(2).skip(1) =~= t.skip(3));
    assert(t.skip(3).skip(1) =~= t.skip(4));
    assert(t.skip(4).skip(1) =~= t.skip(5));
    assert(t.skip(5).skip(1) =~= t.skip(6));
    assert(t.skip(6).skip(1) =~= t.skip(7));
    assert(t.skip(7).skip(1) =~= t.skip(8));
    assert(t.skip(8).skip(1) =~= t.skip(9));
    assert(t.skip(9).skip(1) =~= t.skip(10));
    assert(t.skip(10).skip(1) =~= t.skip(11));
    assert(t.skip(11).skip(1) =~= t.skip(12));
    assert(t.skip(12).skip(1) =~= t.skip(13));
    assert(t.skip(13).skip(1) =~= t.skip(14));
}

} // verus!
