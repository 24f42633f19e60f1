//! Selection of a CPU temperature from the available sensor readings.
//!
//! Labels are matched case-insensitively (ASCII) against CPU-package
//! indicators. The first sensor whose label matches wins, even when it
//! reports no value (it then yields the zero fallback); only when no
//! label matches does the first sensor reporting any value win; if none
//! does, the result is zero.

use vstd::prelude::*;

use crate::text::ascii_lower;
use crate::text::contains_seq;
use crate::text::contains_subslice;
use crate::text::to_ascii_lower;

verus! {

/// One temperature sensor: its label and its reading, if it reports
/// one, in hundredths of a degree Celsius.
#[derive(Debug)]
pub struct SensorReading {
    pub label: Vec<u8>,
    pub temp_centi: Option<i64>,
}

/// The bytes of the label pattern "tctl".
pub open spec fn tctl_pattern() -> Seq<u8> {
    seq![116u8, 99u8, 116u8, 108u8]
}

/// The bytes of the label pattern "package".
pub open spec fn package_pattern() -> Seq<u8> {
    seq![112u8, 97u8, 99u8, 107u8, 97u8, 103u8, 101u8]
}

/// Whether a sensor label names the CPU package: folded to ASCII lower
/// case, it contains "tctl" or "package".
pub open spec fn label_matches(label: Seq<u8>) -> bool {
    contains_seq(ascii_lower(label), tctl_pattern()) || contains_seq(
        ascii_lower(label),
        package_pattern(),
    )
}

/// The value of the first sensor whose label matches, with a missing
/// reading falling back to zero; `None` when no label matches.
pub open spec fn first_label_match(sensors: Seq<SensorReading>) -> Option<i64>
    decreases sensors.len(),
{
    if sensors.len() == 0 {
        None
    } else if label_matches(sensors[0].label@) {
        match sensors[0].temp_centi {
            Some(t) => Some(t),
            None => Some(0i64),
        }
    } else {
        first_label_match(sensors.drop_first())
    }
}

/// The first reported value in enumeration order; `None` when no sensor
/// reports one.
pub open spec fn first_reported(sensors: Seq<SensorReading>) -> Option<i64>
    decreases sensors.len(),
{
    if sensors.len() == 0 {
        None
    } else {
        match sensors[0].temp_centi {
            Some(t) => Some(t),
            None => first_reported(sensors.drop_first()),
        }
    }
}

/// The selected CPU temperature: the first label match wins over the
/// first-reported fallback, and zero stands for "no sensor at all".
pub open spec fn selected_temp(sensors: Seq<SensorReading>) -> i64 {
    match first_label_match(sensors) {
        Some(t) => t,
        None => match first_reported(sensors) {
            Some(t) => t,
            None => 0i64,
        },
    }
}

proof fn lemma_label_match_skip(s: Seq<SensorReading>, k: int)
    requires
        0 <= k <= s.len(),
        first_label_match(s.take(k)) is None,
    ensures
        first_label_match(s) == first_label_match(s.skip(k)),
    decreases k,
{
    if k == 0 {
        assert(s.skip(0) =~= s);
    } else {
        assert(s.take(k)[0] == s[0]);
        assert(s.take(k).drop_first() =~= s.drop_first().take(k - 1));
        lemma_label_match_skip(s.drop_first(), k - 1);
        assert(s.drop_first().skip(k - 1) =~= s.skip(k));
    }
}

proof fn lemma_reported_skip(s: Seq<SensorReading>, k: int)
    requires
        0 <= k <= s.len(),
        first_reported(s.take(k)) is None,
    ensures
        first_reported(s) == first_reported(s.skip(k)),
    decreases k,
{
    if k == 0 {
        assert(s.skip(0) =~= s);
    } else {
        assert(s.take(k)[0] == s[0]);
        assert(s.take(k).drop_first() =~= s.drop_first().take(k - 1));
        lemma_reported_skip(s.drop_first(), k - 1);
        assert(s.drop_first().skip(k - 1) =~= s.skip(k));
    }
}

fn tctl_pattern_vec() -> (r: Vec<u8>)
    ensures
        r@ == tctl_pattern(),
{
    let mut v: Vec<u8> = Vec::new();
    v.push(116);
    v.push(99);
    v.push(116);
    v.push(108);
    proof {
        assert(v@ =~= tctl_pattern());
    }
    v
}

fn package_pattern_vec() -> (r: Vec<u8>)
    ensures
        r@ == package_pattern(),
{
    let mut v: Vec<u8> = Vec::new();
    v.push(112);
    v.push(97);
    v.push(99);
    v.push(107);
    v.push(97);
    v.push(103);
    v.push(101);
    proof {
        assert(v@ =~= package_pattern());
    }
    v
}

/// Select the CPU temperature from the sensor list, label matches
/// first, first reported value second, zero last.
pub fn select_cpu_temp(sensors: &Vec<SensorReading>) -> (r: i64)
    ensures
        r == selected_temp(sensors@),
{
    let tctl = tctl_pattern_vec();
    let package = package_pattern_vec();
    let mut i: usize = 0;
    while i < sensors.len()
        invariant
            i <= sensors@.len(),
            tctl@ == tctl_pattern(),
            package@ == package_pattern(),
            first_label_match(sensors@.take(i as int)) is None,
        decreases sensors@.len() - i,
    {
        let lower = to_ascii_lower(&sensors[i].label);
        let hit = contains_subslice(&lower, &tctl) || contains_subslice(&lower, &package);
        if hit {
            proof {
                lemma_label_match_skip(sensors@, i as int);
                assert(sensors@.skip(i as int)[0] == sensors@[i as int]);
            }
            return match sensors[i].temp_centi {
                Some(t) => t,
                None => 0,
            };
        }
        proof {
            assert(sensors@.take(i + 1).take(i as int) =~= sensors@.take(i as int));
            lemma_label_match_skip(sensors@.take(i + 1), i as int);
            assert(sensors@.take(i + 1).skip(i as int) =~= seq![sensors@[i as int]]);
            assert(seq![sensors@[i as int]].drop_first() =~= Seq::<SensorReading>::empty());
            assert(!label_matches(sensors@[i as int].label@));
            assert(seq![sensors@[i as int]][0] == sensors@[i as int]);
            assert(first_label_match(Seq::<SensorReading>::empty()) is None);
            assert(first_label_match(seq![sensors@[i as int]]) is None);
        }
        i = i + 1;
    }
    proof {
        assert(sensors@.take(sensors@.len() as int) =~= sensors@);
    }
    let mut j: usize = 0;
    while j < sensors.len()
        invariant
            j <= sensors@.len(),
            first_label_match(sensors@) is None,
            first_reported(sensors@.take(j as int)) is None,
        decreases sensors@.len() - j,
    {
        match sensors[j].temp_centi {
            Some(t) => {
                proof {
                    lemma_reported_skip(sensors@, j as int);
                    assert(sensors@.skip(j as int)[0] == sensors@[j as int]);
                }
                return t;
            },
            None => {},
        }
        proof {
            assert(sensors@.take(j + 1).take(j as int) =~= sensors@.take(j as int));
            lemma_reported_skip(sensors@.take(j + 1), j as int);
            assert(sensors@.take(j + 1).skip(j as int) =~= seq![sensors@[j as int]]);
            assert(seq![sensors@[j as int]].drop_first() =~= Seq::<SensorReading>::empty());
            assert(seq![sensors@[j as int]][0] == sensors@[j as int]);
            assert(sensors@[j as int].temp_centi is None);
            assert(first_reported(Seq::<SensorReading>::empty()) is None);
            assert(first_reported(seq![sensors@[j as int]]) is None);
        }
        j = j + 1;
    }
    proof {
        assert(sensors@.take(sensors@.len() as int) =~= sensors@);
    }
    0
}

} // verus!
