//! The last-known GPU reading and the parser for the external GPU query
//! tool's output.
//!
//! The tool prints one line of four comma-separated numeric fields:
//! utilization percent, temperature in degrees Celsius, total memory in
//! MB, used memory in MB, in that order. A line with fewer than four
//! fields leaves the previous reading unchanged; within a line of at
//! least four fields, each malformed field independently falls back to
//! zero while the well-formed fields still update.

use vstd::prelude::*;

use crate::metrics::percent_centi;
use crate::metrics::percent_centi_spec;
use crate::num::parse_centi;
use crate::num::parse_centi_spec;
use crate::num::parse_i32;
use crate::num::parse_i32_spec;
use crate::text::split_commas;
use crate::text::split_on_commas;
use crate::text::trim;
use crate::text::trim_spec;

verus! {

/// Last-known snapshot of GPU utilization, temperature and VRAM usage.
/// Percentages are in centi-percent, VRAM sizes in MB.
#[derive(Clone, Copy, PartialEq, Eq, Structural, Debug)]
pub struct GpuReading {
    pub usage_centi: u64,
    pub mem_pct_centi: u64,
    pub temp_c: i32,
    pub vram_used_mb: u64,
    pub vram_total_mb: u64,
}

/// The all-zero reading a monitor starts from.
pub open spec fn zero_reading() -> GpuReading {
    GpuReading {
        usage_centi: 0,
        mem_pct_centi: 0,
        temp_c: 0,
        vram_used_mb: 0,
        vram_total_mb: 0,
    }
}

/// The fields of one output line: the line trimmed, split on commas,
/// each field trimmed again.
pub open spec fn gpu_fields(line: Seq<u8>) -> Seq<Seq<u8>> {
    split_commas(trim_spec(line)).map_values(|f: Seq<u8>| trim_spec(f))
}

/// A field's centi value, or the zero fallback when it is malformed.
pub open spec fn centi_or_zero(f: Seq<u8>) -> u64 {
    match parse_centi_spec(f) {
        Some(v) => v,
        None => 0u64,
    }
}

/// A field's integer value, or the zero fallback when it is malformed.
pub open spec fn i32_or_zero(f: Seq<u8>) -> i32 {
    match parse_i32_spec(f) {
        Some(v) => v,
        None => 0i32,
    }
}

/// The reading that results from applying one output line to the
/// previous reading: unchanged if the line has fewer than four fields,
/// otherwise rebuilt with per-field zero fallbacks. The memory
/// percentage comes from the used and total fields, with a zero total
/// read as "no data".
pub open spec fn updated_reading(prev: GpuReading, line: Seq<u8>) -> GpuReading {
    let fs = gpu_fields(line);
    if fs.len() < 4 {
        prev
    } else {
        let used = centi_or_zero(fs[3]);
        let total = centi_or_zero(fs[2]);
        GpuReading {
            usage_centi: centi_or_zero(fs[0]),
            mem_pct_centi: percent_centi_spec(used, total),
            temp_c: i32_or_zero(fs[1]),
            vram_used_mb: used / 100,
            vram_total_mb: total / 100,
        }
    }
}

impl GpuReading {
    /// The all-zero reading.
    pub fn new_zero() -> (r: GpuReading)
        ensures
            r == zero_reading(),
    {
        GpuReading {
            usage_centi: 0,
            mem_pct_centi: 0,
            temp_c: 0,
            vram_used_mb: 0,
            vram_total_mb: 0,
        }
    }

    /// Apply one line of the external tool's output to this reading.
    pub fn updated_with(&self, line: &Vec<u8>) -> (r: GpuReading)
        ensures
            r == updated_reading(*self, line@),
    {
        let trimmed = trim(line);
        let raw_fields = split_on_commas(&trimmed);
        if raw_fields.len() < 4 {
            return *self;
        }
        let f0 = trim(&raw_fields[0]);
        let f1 = trim(&raw_fields[1]);
        let f2 = trim(&raw_fields[2]);
        let f3 = trim(&raw_fields[3]);
        proof {
            let base = split_commas(trim_spec(line@));
            assert(raw_fields@[0].deep_view() =~= raw_fields@[0]@);
            assert(raw_fields@[1].deep_view() =~= raw_fields@[1]@);
            assert(raw_fields@[2].deep_view() =~= raw_fields@[2]@);
            assert(raw_fields@[3].deep_view() =~= raw_fields@[3]@);
            assert(base[0] == raw_fields@[0]@);
            assert(base[1] == raw_fields@[1]@);
            assert(base[2] == raw_fields@[2]@);
            assert(base[3] == raw_fields@[3]@);
            assert(f0@ == gpu_fields(line@)[0]);
            assert(f1@ == gpu_fields(line@)[1]);
            assert(f2@ == gpu_fields(line@)[2]);
            assert(f3@ == gpu_fields(line@)[3]);
        }
        let usage = match parse_centi(&f0) {
            Some(v) => v,
            None => 0,
        };
        let temp = match parse_i32(&f1) {
            Some(v) => v,
            None => 0,
        };
        let total = match parse_centi(&f2) {
            Some(v) => v,
            None => 0,
        };
        let used = match parse_centi(&f3) {
            Some(v) => v,
            None => 0,
        };
        GpuReading {
            usage_centi: usage,
            mem_pct_centi: percent_centi(used, total),
            temp_c: temp,
            vram_used_mb: used / 100,
            vram_total_mb: total / 100,
        }
    }
}

impl Default for GpuReading {
    /// The all-zero reading.
    fn default() -> (r: GpuReading)
        ensures
            r == zero_reading(),
    {
        GpuReading::new_zero()
    }
}

} // verus!
