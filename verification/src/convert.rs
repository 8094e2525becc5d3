//! The registry-to-export converter.
//!
//! Walks the gathered registry and produces one export-ready metric point
//! per time series, every point carrying the single run timestamp. Family
//! names are stored as compound `name_unit` strings for wire compatibility;
//! the converter splits them on the last separator to recover a bare metric
//! name and a unit.

use vstd::prelude::*;

use crate::labels::LabelSet;
use crate::registry::{FamilyModel, MetricKind, Registry, SeriesModel};
use crate::value::MetricValue;

verus! {

/// Model of one export-ready metric point.
pub struct MetricPointModel {
    pub name: Seq<char>,
    pub description: Seq<char>,
    pub unit: Seq<char>,
    pub kind: MetricKind,
    pub labels: Seq<(Seq<char>, Seq<char>)>,
    pub value: int,
    pub start_time: Option<u64>,
    pub observation_time: u64,
    pub is_monotonic: bool,
}

/// One export-ready metric point: a data point with attributes, value,
/// timestamps, and monotonicity flag.
#[derive(Debug)]
pub struct MetricPoint {
    pub name: String,
    pub description: String,
    pub unit: String,
    pub kind: MetricKind,
    pub labels: LabelSet,
    pub value: MetricValue,
    pub start_time: Option<u64>,
    pub observation_time: u64,
    pub is_monotonic: bool,
}

impl View for MetricPoint {
    type V = MetricPointModel;

    open spec fn view(&self) -> MetricPointModel {
        MetricPointModel {
            name: self.name@,
            description: self.description@,
            unit: self.unit@,
            kind: self.kind,
            labels: self.labels@,
            value: self.value.raw as int,
            start_time: self.start_time,
            observation_time: self.observation_time,
            is_monotonic: self.is_monotonic,
        }
    }
}

/// The models of a sequence of points.
pub open spec fn points_view(ps: Seq<MetricPoint>) -> Seq<MetricPointModel> {
    ps.map_values(|p: MetricPoint| p@)
}

/// The position of the last separator in a compound name, if any.
pub open spec fn last_sep_index(s: Seq<char>) -> Option<int>
    decreases s.len(),
{
    if s.len() == 0 {
        None
    } else if s[s.len() - 1] == '_' {
        Some(s.len() - 1)
    } else {
        last_sep_index(s.drop_last())
    }
}

/// Splitting a compound `name_unit` string: everything before the last
/// separator is the name, everything after it is the unit; a string with no
/// separator is all name, with an empty unit.
pub open spec fn split_name_unit(s: Seq<char>) -> (Seq<char>, Seq<char>) {
    match last_sep_index(s) {
        Some(i) => (s.take(i), s.skip(i + 1)),
        None => (s, Seq::empty()),
    }
}

/// What `last_sep_index` finds: the last separator position, or a guarantee
/// that the string has none.
pub proof fn lemma_last_sep_index_spec(s: Seq<char>)
    ensures
        match last_sep_index(s) {
            Some(i) => 0 <= i < s.len() && s[i] == '_' && forall|j: int|
                i < j < s.len() ==> s[j] != '_',
            None => forall|j: int| 0 <= j < s.len() ==> s[j] != '_',
        },
    decreases s.len(),
{
    if s.len() > 0 && s[s.len() - 1] != '_' {
        lemma_last_sep_index_spec(s.drop_last());
        assert(forall|j: int| 0 <= j < s.len() - 1 ==> s.drop_last()[j] == s[j]);
    }
}

/// Round trip of the name/unit split: for a name containing the separator,
/// rejoining name, separator and unit reproduces the whole string; for a
/// name with no separator, the unit is empty and the name is unchanged.
pub proof fn lemma_split_round_trip(s: Seq<char>)
    ensures
        (exists|i: int| 0 <= i < s.len() && s[i] == '_') ==> split_name_unit(s).0 + seq!['_']
            + split_name_unit(s).1 == s,
        !(exists|i: int| 0 <= i < s.len() && s[i] == '_') ==> split_name_unit(s) == (
            s,
            Seq::<char>::empty(),
        ),
{
    lemma_last_sep_index_spec(s);
    match last_sep_index(s) {
        Some(i) => {
            assert(split_name_unit(s).0 + seq!['_'] + split_name_unit(s).1 =~= s);
        },
        None => {
            if exists|i: int| 0 <= i < s.len() && s[i] == '_' {
                let i = choose|i: int| 0 <= i < s.len() && s[i] == '_';
                assert(false);
            }
        },
    }
}

/// Splits a compound `name_unit` metric name into its bare name and unit.
pub fn get_otlp_name_and_unit_from_prom_name(name: &str) -> (r: (String, String))
    ensures
        r.0@ == split_name_unit(name@).0,
        r.1@ == split_name_unit(name@).1,
{
    let n = name.unicode_len();
    let mut sep: Option<usize> = None;
    let mut i: usize = 0;
    while i < n
        invariant
            n == name@.len(),
            0 <= i <= n,
            match sep {
                Some(k) => k < i && name@[k as int] == '_' && forall|j: int|
                    k < j < i ==> name@[j] != '_',
                None => forall|j: int| 0 <= j < i ==> name@[j] != '_',
            },
        decreases n - i,
    {
        if name.get_char(i) == '_' {
            sep = Some(i);
        }
        i += 1;
    }
    proof {
        lemma_last_sep_index_spec(name@);
        match sep {
            Some(k) => {
                assert(last_sep_index(name@) matches Some(i2) && i2 == k) by {
                    match last_sep_index(name@) {
                        Some(i2) => {
                            if i2 < k {
                                assert(name@[k as int] == '_');
                                assert(false);
                            }
                            if i2 > k {
                                assert(name@[i2] == '_');
                                assert(false);
                            }
                        },
                        None => {
                            assert(name@[k as int] == '_');
                            assert(false);
                        },
                    }
                }
            },
            None => {
                assert(last_sep_index(name@) is None) by {
                    match last_sep_index(name@) {
                        Some(i2) => {
                            assert(name@[i2] == '_');
                            assert(false);
                        },
                        None => {},
                    }
                }
            },
        }
    }
    match sep {
        Some(k) => {
            let head = name.substring_char(0, k);
            let tail = name.substring_char(k + 1, n);
            proof {
                assert(head@ =~= name@.take(k as int));
                assert(tail@ =~= name@.skip(k + 1));
            }
            (head.to_owned(), tail.to_owned())
        },
        None => (name.to_owned(), String::new()),
    }
}

/// The point one series contributes, under its family's split name.
pub open spec fn spec_point_of(f: FamilyModel, s: SeriesModel, run_ts: u64) -> MetricPointModel {
    MetricPointModel {
        name: split_name_unit(f.name).0,
        description: f.description,
        unit: split_name_unit(f.name).1,
        kind: f.kind,
        labels: s.labels,
        value: s.value,
        start_time: None,
        observation_time: run_ts,
        is_monotonic: f.kind == MetricKind::Counter,
    }
}

/// The points of one family, in series insertion order.
pub open spec fn spec_family_points(f: FamilyModel, run_ts: u64) -> Seq<MetricPointModel> {
    Seq::new(f.series.len(), |j: int| spec_point_of(f, f.series[j], run_ts))
}

/// The export batch of a whole registry: every family's points, in family
/// declaration order.
pub open spec fn spec_convert(fams: Seq<FamilyModel>, run_ts: u64) -> Seq<MetricPointModel>
    decreases fams.len(),
{
    if fams.len() == 0 {
        Seq::empty()
    } else {
        spec_convert(fams.drop_last(), run_ts) + spec_family_points(fams.last(), run_ts)
    }
}

/// Converts the gathered registry into the run's export batch: one point
/// per series, counters monotonic, every point carrying the run timestamp.
/// A pure read: the registry is not touched.
pub fn registry_to_metric_points(registry: &Registry, run_ts: u64) -> (r: Vec<MetricPoint>)
    ensures
        points_view(r@) == spec_convert(registry@, run_ts),
{
    let mut out: Vec<MetricPoint> = Vec::new();
    let families = registry.gather();
    let nf = families.len();
    proof {
        assert(points_view(out@) =~= spec_convert(registry@.take(0), run_ts));
    }
    let mut i: usize = 0;
    while i < nf
        invariant
            nf == families@.len(),
            crate::registry::fams_view(families@) == registry@,
            registry@.len() == nf,
            0 <= i <= nf,
            points_view(out@) == spec_convert(registry@.take(i as int), run_ts),
        decreases nf - i,
    {
        proof {
            assert(registry@[i as int] == families@[i as int]@);
        }
        let fam = &families[i];
        let (bare, unit) = get_otlp_name_and_unit_from_prom_name(fam.name.as_str());
        let desc = fam.description.clone();
        let kind = fam.kind;
        let is_counter = match fam.kind {
            MetricKind::Counter => true,
            MetricKind::Gauge => false,
        };
        let ns = fam.series.len();
        let ghost fm = registry@[i as int];
        let mut j: usize = 0;
        while j < ns
            invariant
                nf == families@.len(),
                crate::registry::fams_view(families@) == registry@,
                registry@.len() == nf,
                0 <= i < nf,
                fm == registry@[i as int],
                fm == families@[i as int]@,
                ns == fm.series.len(),
                ns == families@[i as int].series@.len(),
                bare@ == split_name_unit(fm.name).0,
                unit@ == split_name_unit(fm.name).1,
                desc@ == fm.description,
                kind == fm.kind,
                is_counter == (fm.kind == MetricKind::Counter),
                0 <= j <= ns,
                points_view(out@) == spec_convert(registry@.take(i as int), run_ts)
                    + spec_family_points(fm, run_ts).take(j as int),
            decreases ns - j,
        {
            proof {
                assert(fm.series[j as int] == families@[i as int].series@[j as int]@);
            }
            let series = &families[i].series[j];
            let ghost out0 = points_view(out@);
            out.push(
                MetricPoint {
                    name: bare.clone(),
                    description: desc.clone(),
                    unit: unit.clone(),
                    kind,
                    labels: series.labels.duplicate(),
                    value: series.value,
                    start_time: None,
                    observation_time: run_ts,
                    is_monotonic: is_counter,
                },
            );
            proof {
                let p = out@.last();
                let q = spec_point_of(fm, fm.series[j as int], run_ts);
                assert(p.name@ == q.name);
                assert(p.description@ == q.description);
                assert(p.unit@ == q.unit);
                assert(p.kind == q.kind);
                assert(p.labels@ == q.labels);
                assert(p.value.raw as int == q.value);
                assert(p.start_time == q.start_time);
                assert(p.observation_time == q.observation_time);
                assert(p.is_monotonic == q.is_monotonic);
                assert(p@ == q);
                assert(points_view(out@) =~= out0.push(spec_point_of(fm, fm.series[j as int], run_ts)));
                assert(spec_family_points(fm, run_ts).take(j + 1) =~= spec_family_points(
                    fm,
                    run_ts,
                ).take(j as int).push(spec_point_of(fm, fm.series[j as int], run_ts)));
                assert(points_view(out@) =~= spec_convert(registry@.take(i as int), run_ts)
                    + spec_family_points(fm, run_ts).take(j + 1));
            }
            j += 1;
        }
        proof {
            assert(spec_family_points(fm, run_ts).take(ns as int) =~= spec_family_points(
                fm,
                run_ts,
            ));
            assert(registry@.take(i + 1).drop_last() =~= registry@.take(i as int));
            assert(registry@.take(i + 1).last() == fm);
            assert(points_view(out@) =~= spec_convert(registry@.take(i + 1), run_ts));
        }
        i += 1;
    }
    proof {
        assert(registry@.take(nf as int) =~= registry@);
    }
    out
}

} // verus!
