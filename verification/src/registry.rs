//! The metric registry: named counter and gauge families, each holding one
//! time series per distinct label combination seen during a run.
//!
//! A registry is created fresh per run, populated by the domain adapters,
//! read once by the converter, then discarded. Counters are monotonically
//! increased through [`Registry::counter_add`]; gauges are overwritten
//! through [`Registry::gauge_set`]. Redeclaring a name with the same kind is
//! idempotent; redeclaring it with the other kind is a `KindConflict`.

use vstd::prelude::*;

use crate::errors::MetricsError;
use crate::labels::{keys_distinct, label_map, LabelSet};
use crate::value::MetricValue;

verus! {

/// The two metric kinds.
#[derive(Clone, Copy, Debug, PartialEq, Eq, Structural)]
pub enum MetricKind {
    Counter,
    Gauge,
}

/// Mathematical model of one time series.
pub struct SeriesModel {
    pub labels: Seq<(Seq<char>, Seq<char>)>,
    pub value: int,
}

/// Mathematical model of one metric family.
pub struct FamilyModel {
    pub name: Seq<char>,
    pub description: Seq<char>,
    pub kind: MetricKind,
    pub series: Seq<SeriesModel>,
}

/// One time series: a label combination and its accumulated value.
#[derive(Debug)]
pub struct Series {
    pub labels: LabelSet,
    pub value: MetricValue,
}

impl View for Series {
    type V = SeriesModel;

    open spec fn view(&self) -> SeriesModel {
        SeriesModel { labels: self.labels@, value: self.value.raw as int }
    }
}

/// One metric family: a name, a kind, and its series.
#[derive(Debug)]
pub struct Family {
    pub name: String,
    pub description: String,
    pub kind: MetricKind,
    pub series: Vec<Series>,
}

/// The models of a sequence of series.
pub open spec fn series_view(ss: Seq<Series>) -> Seq<SeriesModel> {
    ss.map_values(|s: Series| s@)
}

impl View for Family {
    type V = FamilyModel;

    open spec fn view(&self) -> FamilyModel {
        FamilyModel {
            name: self.name@,
            description: self.description@,
            kind: self.kind,
            series: series_view(self.series@),
        }
    }
}

/// The models of a sequence of families.
pub open spec fn fams_view(fs: Seq<Family>) -> Seq<FamilyModel> {
    fs.map_values(|f: Family| f@)
}

/// Every series has distinct label keys, and no two series of the family
/// denote the same label mapping.
pub open spec fn family_wf(f: FamilyModel) -> bool {
    &&& forall|i: int| 0 <= i < f.series.len() ==> keys_distinct(#[trigger] f.series[i].labels)
    &&& forall|i: int, j: int|
        0 <= i < j < f.series.len() ==> label_map(f.series[i].labels) != label_map(
            f.series[j].labels,
        )
}

/// Every family is well-formed and no two families share a name.
pub open spec fn registry_wf(fams: Seq<FamilyModel>) -> bool {
    &&& forall|i: int| 0 <= i < fams.len() ==> family_wf(#[trigger] fams[i])
    &&& forall|i: int, j: int| 0 <= i < j < fams.len() ==> fams[i].name != fams[j].name
}

/// The first family with the name, if any.
pub open spec fn find_family(fams: Seq<FamilyModel>, name: Seq<char>) -> Option<int>
    decreases fams.len(),
{
    if fams.len() == 0 {
        None
    } else if fams[0].name == name {
        Some(0int)
    } else {
        match find_family(fams.drop_first(), name) {
            Some(i) => Some(i + 1),
            None => None,
        }
    }
}

/// What `find_family` finds: the first family carrying the name, or a
/// guarantee that no family carries it.
pub proof fn lemma_find_family_spec(fams: Seq<FamilyModel>, name: Seq<char>)
    ensures
        match find_family(fams, name) {
            Some(i) => 0 <= i < fams.len() && fams[i].name == name && forall|j: int|
                0 <= j < i ==> fams[j].name != name,
            None => forall|j: int| 0 <= j < fams.len() ==> fams[j].name != name,
        },
    decreases fams.len(),
{
    if fams.len() > 0 && fams[0].name != name {
        lemma_find_family_spec(fams.drop_first(), name);
        assert(forall|j: int| 0 < j < fams.len() ==> fams[j] == fams.drop_first()[j - 1]);
    }
}

/// The first series denoting the label mapping, if any.
pub open spec fn find_series(ss: Seq<SeriesModel>, m: Map<Seq<char>, Seq<char>>) -> Option<int>
    decreases ss.len(),
{
    if ss.len() == 0 {
        None
    } else if label_map(ss[0].labels) == m {
        Some(0int)
    } else {
        match find_series(ss.drop_first(), m) {
            Some(i) => Some(i + 1),
            None => None,
        }
    }
}

/// What `find_series` finds: the first series denoting the mapping, or a
/// guarantee that no series denotes it.
pub proof fn lemma_find_series_spec(ss: Seq<SeriesModel>, m: Map<Seq<char>, Seq<char>>)
    ensures
        match find_series(ss, m) {
            Some(i) => 0 <= i < ss.len() && label_map(ss[i].labels) == m && forall|j: int|
                0 <= j < i ==> label_map(#[trigger] ss[j].labels) != m,
            None => forall|j: int| 0 <= j < ss.len() ==> label_map(#[trigger] ss[j].labels) != m,
        },
    decreases ss.len(),
{
    if ss.len() > 0 && label_map(ss[0].labels) != m {
        lemma_find_series_spec(ss.drop_first(), m);
        assert(forall|j: int| 0 < j < ss.len() ==> ss[j] == ss.drop_first()[j - 1]);
    }
}

/// If the mapping first occurs at position `i`, `find_series` says so.
pub proof fn lemma_find_series_at(ss: Seq<SeriesModel>, m: Map<Seq<char>, Seq<char>>, i: int)
    requires
        0 <= i < ss.len(),
        label_map(ss[i].labels) == m,
        forall|j: int| 0 <= j < i ==> label_map(#[trigger] ss[j].labels) != m,
    ensures
        find_series(ss, m) == Some(i),
    decreases ss.len(),
{
    if i > 0 {
        assert(forall|j: int|
            0 <= j < i - 1 ==> ss.drop_first()[j] == ss[j + 1]);
        assert(ss.drop_first()[i - 1] == ss[i]);
        lemma_find_series_at(ss.drop_first(), m, i - 1);
    }
}

/// If no series denotes the mapping, `find_series` finds nothing.
pub proof fn lemma_find_series_none(ss: Seq<SeriesModel>, m: Map<Seq<char>, Seq<char>>)
    requires
        forall|j: int| 0 <= j < ss.len() ==> label_map(#[trigger] ss[j].labels) != m,
    ensures
        find_series(ss, m) is None,
    decreases ss.len(),
{
    if ss.len() > 0 {
        assert(forall|j: int|
            0 <= j < ss.len() - 1 ==> ss.drop_first()[j] == ss[j + 1]);
        lemma_find_series_none(ss.drop_first(), m);
    }
}

/// Effect of declaring a family: an existing family of the same kind is
/// reused; a fresh one is appended; the other kind is a conflict.
pub open spec fn spec_declare(
    fams: Seq<FamilyModel>,
    name: Seq<char>,
    description: Seq<char>,
    kind: MetricKind,
) -> Result<(Seq<FamilyModel>, int), MetricsError> {
    match find_family(fams, name) {
        Some(i) => if fams[i].kind == kind {
            Ok((fams, i))
        } else {
            Err(MetricsError::KindConflict)
        },
        None => Ok(
            (
                fams.push(FamilyModel { name, description, kind, series: Seq::empty() }),
                fams.len() as int,
            ),
        ),
    }
}

/// Effect of an `add` on the series of one family: the series denoting the
/// mapping grows by the delta; a missing series is created at the delta.
pub open spec fn spec_series_add(
    ss: Seq<SeriesModel>,
    labels: Seq<(Seq<char>, Seq<char>)>,
    delta: int,
) -> Seq<SeriesModel> {
    match find_series(ss, label_map(labels)) {
        Some(j) => ss.update(
            j,
            SeriesModel { labels: ss[j].labels, value: ss[j].value + delta },
        ),
        None => ss.push(SeriesModel { labels, value: delta }),
    }
}

/// Whether an `add` of the delta would leave the representable value range.
pub open spec fn series_add_overflows(
    ss: Seq<SeriesModel>,
    m: Map<Seq<char>, Seq<char>>,
    delta: int,
) -> bool {
    match find_series(ss, m) {
        Some(j) => ss[j].value + delta > i64::MAX,
        None => false,
    }
}

/// Effect of a `set` on the series of one family: the series denoting the
/// mapping is overwritten; a missing series is created at the value.
pub open spec fn spec_series_set(
    ss: Seq<SeriesModel>,
    labels: Seq<(Seq<char>, Seq<char>)>,
    value: int,
) -> Seq<SeriesModel> {
    match find_series(ss, label_map(labels)) {
        Some(j) => ss.update(j, SeriesModel { labels: ss[j].labels, value }),
        None => ss.push(SeriesModel { labels, value }),
    }
}

/// Effect of `counter_add` on the whole registry.
pub open spec fn counter_add_result(
    fams: Seq<FamilyModel>,
    i: int,
    labels: Seq<(Seq<char>, Seq<char>)>,
    delta: int,
) -> Result<Seq<FamilyModel>, MetricsError> {
    if delta < 0 {
        Err(MetricsError::InvalidValue)
    } else if series_add_overflows(fams[i].series, label_map(labels), delta) {
        Err(MetricsError::InvalidValue)
    } else {
        Ok(
            fams.update(
                i,
                FamilyModel { series: spec_series_add(fams[i].series, labels, delta), ..fams[i] },
            ),
        )
    }
}

/// Effect of `gauge_set` on the whole registry.
pub open spec fn gauge_set_result(
    fams: Seq<FamilyModel>,
    i: int,
    labels: Seq<(Seq<char>, Seq<char>)>,
    value: int,
) -> Seq<FamilyModel> {
    fams.update(
        i,
        FamilyModel { series: spec_series_set(fams[i].series, labels, value), ..fams[i] },
    )
}

/// A handle to a counter family obtained from `declare_counter`.
#[derive(Clone, Copy, Debug)]
pub struct CounterHandle {
    index: usize,
}

impl View for CounterHandle {
    type V = int;

    closed spec fn view(&self) -> int {
        self.index as int
    }
}

/// A handle to a gauge family obtained from `declare_gauge`.
#[derive(Clone, Copy, Debug)]
pub struct GaugeHandle {
    index: usize,
}

impl View for GaugeHandle {
    type V = int;

    closed spec fn view(&self) -> int {
        self.index as int
    }
}

/// An in-memory collection of metric families, fresh per run.
#[derive(Debug)]
pub struct Registry {
    families: Vec<Family>,
}

impl View for Registry {
    type V = Seq<FamilyModel>;

    closed spec fn view(&self) -> Seq<FamilyModel> {
        fams_view(self.families@)
    }
}

/// The first position in a vector of families carrying the name.
fn find_family_idx(families: &Vec<Family>, name: &String) -> (r: Option<usize>)
    ensures
        match r {
            Some(u) => u < families@.len() && find_family(fams_view(families@), name@) == Some(
                u as int,
            ),
            None => find_family(fams_view(families@), name@) is None,
        },
{
    let n = families.len();
    let mut i: usize = 0;
    while i < n
        invariant
            n == families@.len(),
            0 <= i <= n,
            forall|j: int| 0 <= j < i ==> fams_view(families@)[j].name != name@,
        decreases n - i,
    {
        if families[i].name == *name {
            proof {
                assert(fams_view(families@)[i as int] == families@[i as int]@);
                lemma_find_family_spec(fams_view(families@), name@);
            }
            return Some(i);
        }
        proof {
            assert(fams_view(families@)[i as int] == families@[i as int]@);
        }
        i += 1;
    }
    proof {
        lemma_find_family_spec(fams_view(families@), name@);
    }
    None
}

/// The first position in a vector of series denoting the label mapping.
fn find_series_idx(series: &Vec<Series>, labels: &LabelSet) -> (r: Option<usize>)
    requires
        labels.wf(),
        forall|i: int|
            0 <= i < series@.len() ==> keys_distinct(#[trigger] series_view(series@)[i].labels),
    ensures
        match r {
            Some(u) => u < series@.len() && find_series(
                series_view(series@),
                labels.map_view(),
            ) == Some(u as int),
            None => find_series(series_view(series@), labels.map_view()) is None,
        },
{
    let n = series.len();
    let mut i: usize = 0;
    while i < n
        invariant
            n == series@.len(),
            labels.wf(),
            forall|j: int|
                0 <= j < n ==> keys_distinct(#[trigger] series_view(series@)[j].labels),
            0 <= i <= n,
            forall|j: int|
                0 <= j < i ==> label_map(#[trigger] series_view(series@)[j].labels)
                    != labels.map_view(),
        decreases n - i,
    {
        proof {
            assert(series_view(series@)[i as int] == series@[i as int]@);
        }
        if series[i].labels.same_labels(labels) {
            proof {
                lemma_find_series_spec(series_view(series@), labels.map_view());
            }
            return Some(i);
        }
        i += 1;
    }
    proof {
        lemma_find_series_spec(series_view(series@), labels.map_view());
    }
    None
}

impl Registry {
    /// Well-formedness of the whole registry.
    pub open spec fn wf(&self) -> bool {
        registry_wf(self@)
    }

    /// An empty registry.
    pub fn new() -> (r: Registry)
        ensures
            r@ == Seq::<FamilyModel>::empty(),
            r.wf(),
    {
        let r = Registry { families: Vec::new() };
        proof {
            assert(r@ =~= Seq::<FamilyModel>::empty());
        }
        r
    }

    /// The families accumulated so far, in declaration order; each family's
    /// series stand in insertion order. A pure read.
    pub fn gather(&self) -> (r: &Vec<Family>)
        ensures
            fams_view(r@) == self@,
    {
        &self.families
    }

    /// Declares a counter family: idempotent for an existing counter of the
    /// same name, a `KindConflict` for an existing gauge.
    pub fn declare_counter(&mut self, name: String, description: String) -> (r: Result<
        CounterHandle,
        MetricsError,
    >)
        requires
            old(self).wf(),
        ensures
            final(self).wf(),
            match spec_declare(old(self)@, name@, description@, MetricKind::Counter) {
                Ok((fams, i)) => r matches Ok(h) && h@ == i && 0 <= i < final(self)@.len() && final(self)@ == fams && final(self)@[i].kind == MetricKind::Counter,
                Err(e) => r == Err::<CounterHandle, MetricsError>(e) && final(self)@ == old(self)@,
            },
    {
        match self.declare(name, description, MetricKind::Counter) {
            Ok(i) => Ok(CounterHandle { index: i }),
            Err(e) => Err(e),
        }
    }

    /// Declares a gauge family: idempotent for an existing gauge of the same
    /// name, a `KindConflict` for an existing counter.
    pub fn declare_gauge(&mut self, name: String, description: String) -> (r: Result<
        GaugeHandle,
        MetricsError,
    >)
        requires
            old(self).wf(),
        ensures
            final(self).wf(),
            match spec_declare(old(self)@, name@, description@, MetricKind::Gauge) {
                Ok((fams, i)) => r matches Ok(h) && h@ == i && 0 <= i < final(self)@.len() && final(self)@ == fams && final(self)@[i].kind == MetricKind::Gauge,
                Err(e) => r == Err::<GaugeHandle, MetricsError>(e) && final(self)@ == old(self)@,
            },
    {
        match self.declare(name, description, MetricKind::Gauge) {
            Ok(i) => Ok(GaugeHandle { index: i }),
            Err(e) => Err(e),
        }
    }

    /// Shared declaration path for both kinds.
    fn declare(&mut self, name: String, description: String, kind: MetricKind) -> (r: Result<
        usize,
        MetricsError,
    >)
        requires
            old(self).wf(),
        ensures
            final(self).wf(),
            match spec_declare(old(self)@, name@, description@, kind) {
                Ok((fams, i)) => r matches Ok(u) && u as int == i && 0 <= i < final(self)@.len() && final(self)@ == fams && final(self)@[i].kind == kind,
                Err(e) => r == Err::<usize, MetricsError>(e) && final(self)@ == old(self)@,
            },
    {
        let ghost fams0 = self@;
        match find_family_idx(&self.families, &name) {
            Some(i) => {
                if self.families[i].kind == kind {
                    Ok(i)
                } else {
                    Err(MetricsError::KindConflict)
                }
            },
            None => {
                let n = self.families.len();
                proof {
                    lemma_find_family_spec(fams0, name@);
                }
                let ghost nm = name@;
                let ghost ds = description@;
                self.families.push(Family { name, description, kind, series: Vec::new() });
                proof {
                    let fam = FamilyModel { name: nm, description: ds, kind, series: Seq::empty() };
                    assert(series_view(Seq::<Series>::empty()) =~= Seq::<SeriesModel>::empty());
                    assert(self@ =~= fams0.push(fam));
                    assert(forall|j: int| 0 <= j < fams0.len() ==> self@[j] == fams0[j]);
                    assert(family_wf(fam));
                }
                Ok(n)
            },
        }
    }

    /// Adds a non-negative delta to the counter series for the labels,
    /// creating the series at the delta on first use. A negative delta, or a
    /// delta the value range cannot take, is an `InvalidValue` and leaves
    /// the registry unchanged.
    pub fn counter_add(&mut self, h: CounterHandle, labels: &LabelSet, delta: MetricValue) -> (r:
        Result<(), MetricsError>)
        requires
            old(self).wf(),
            labels.wf(),
            0 <= h@ < old(self)@.len(),
            old(self)@[h@].kind == MetricKind::Counter,
        ensures
            final(self).wf(),
            match counter_add_result(old(self)@, h@, labels@, delta.raw as int) {
                Ok(fams) => r is Ok && final(self)@ == fams,
                Err(e) => r == Err::<(), MetricsError>(e) && final(self)@ == old(self)@,
            },
    {
        if delta.is_negative() {
            return Err(MetricsError::InvalidValue);
        }
        let i = h.index;
        self.write_series(i, labels, delta, true)
    }

    /// Overwrites the gauge series for the labels, creating it on first use.
    /// Last write wins within a run.
    pub fn gauge_set(&mut self, h: GaugeHandle, labels: &LabelSet, value: MetricValue) -> (r:
        Result<(), MetricsError>)
        requires
            old(self).wf(),
            labels.wf(),
            0 <= h@ < old(self)@.len(),
            old(self)@[h@].kind == MetricKind::Gauge,
        ensures
            final(self).wf(),
            r is Ok,
            final(self)@ == gauge_set_result(old(self)@, h@, labels@, value.raw as int),
    {
        let i = h.index;
        let r = self.write_series(i, labels, value, false);
        proof {
            assert(r is Ok);
        }
        r
    }

    /// Shared series write: `accumulate` adds (checking the range), else
    /// overwrites.
    fn write_series(&mut self, i: usize, labels: &LabelSet, v: MetricValue, accumulate: bool) -> (r:
        Result<(), MetricsError>)
        requires
            old(self).wf(),
            labels.wf(),
            i < old(self)@.len(),
            accumulate ==> v.raw >= 0,
        ensures
            final(self).wf(),
            accumulate && series_add_overflows(
                old(self)@[i as int].series,
                labels.map_view(),
                v.raw as int,
            ) ==> r == Err::<(), MetricsError>(MetricsError::InvalidValue) && final(self)@ == old(self)@,
            accumulate && !series_add_overflows(
                old(self)@[i as int].series,
                labels.map_view(),
                v.raw as int,
            ) ==> r is Ok && final(self)@ == old(self)@.update(
                i as int,
                FamilyModel {
                    series: spec_series_add(old(self)@[i as int].series, labels@, v.raw as int),
                    ..old(self)@[i as int]
                },
            ),
            !accumulate ==> r is Ok && final(self)@ == gauge_set_result(
                old(self)@,
                i as int,
                labels@,
                v.raw as int,
            ),
    {
        let ghost fams0 = self@;
        let ghost fv0 = self.families@;
        let ghost m = labels.map_view();
        proof {
            assert(fams0[i as int] == self.families@[i as int]@);
        }
        let found = find_series_idx(&self.families[i].series, labels);
        match found {
            Some(j) => {
                let cur = self.families[i].series[j].value;
                let nv = if accumulate {
                    match cur.checked_add(&v) {
                        Some(s) => s,
                        None => {
                            proof {
                                lemma_find_series_spec(fams0[i as int].series, m);
                            }
                            return Err(MetricsError::InvalidValue);
                        },
                    }
                } else {
                    v
                };
                self.families[i].series[j].value = nv;
                proof {
                    lemma_find_series_spec(fams0[i as int].series, m);
                    let s0 = fams0[i as int].series;
                    let s1 = s0.update(
                        j as int,
                        SeriesModel { labels: s0[j as int].labels, value: nv.raw as int },
                    );
                    assert(series_view(self.families@[i as int].series@) =~= s1) by {
                        assert(forall|k: int|
                            0 <= k < s0.len() ==> series_view(fv0[i as int].series@)[k] == fv0[
                                i as int
                            ].series@[k]@);
                        assert(forall|k: int|
                            0 <= k < s0.len() ==> series_view(self.families@[i as int].series@)[k]
                                == self.families@[i as int].series@[k]@);
                    }
                    let target = fams0.update(
                        i as int,
                        FamilyModel { series: s1, ..fams0[i as int] },
                    );
                    assert forall|k: int| 0 <= k < self@.len() implies self@[k] == target[k] by {
                        assert(self@[k] == self.families@[k]@);
                        if k != i {
                            assert(self.families@[k] == fv0[k]);
                            assert(fams0[k] == fv0[k]@);
                        }
                    }
                    assert(self@ =~= target);
                    assert(family_wf(self@[i as int])) by {
                        assert(forall|k: int|
                            0 <= k < s1.len() ==> s1[k].labels == s0[k].labels);
                    }
                    assert(registry_wf(self@)) by {
                        assert(forall|k: int|
                            0 <= k < self@.len() && k != i ==> self@[k] == fams0[k]);
                        assert(forall|k: int|
                            0 <= k < self@.len() ==> (#[trigger] self@[k]).name == fams0[k].name);
                    }
                }
                Ok(())
            },
            None => {
                proof {
                    lemma_find_series_spec(fams0[i as int].series, m);
                }
                let dup = labels.duplicate();
                self.families[i].series.push(Series { labels: dup, value: v });
                proof {
                    let s0 = fams0[i as int].series;
                    let s1 = s0.push(SeriesModel { labels: labels@, value: v.raw as int });
                    assert(series_view(self.families@[i as int].series@) =~= s1) by {
                        assert(forall|k: int|
                            0 <= k < s0.len() ==> series_view(fv0[i as int].series@)[k] == fv0[
                                i as int
                            ].series@[k]@);
                        assert(forall|k: int|
                            0 <= k <= s0.len() ==> series_view(self.families@[i as int].series@)[k]
                                == self.families@[i as int].series@[k]@);
                    }
                    let target = fams0.update(
                        i as int,
                        FamilyModel { series: s1, ..fams0[i as int] },
                    );
                    assert forall|k: int| 0 <= k < self@.len() implies self@[k] == target[k] by {
                        assert(self@[k] == self.families@[k]@);
                        if k != i {
                            assert(self.families@[k] == fv0[k]);
                            assert(fams0[k] == fv0[k]@);
                        }
                    }
                    assert(self@ =~= target);
                    assert(family_wf(self@[i as int])) by {
                        assert(forall|k: int| 0 <= k < s0.len() ==> s1[k] == s0[k]);
                        assert(s1[s0.len() as int].labels == labels@);
                        assert(forall|k: int|
                            0 <= k < s0.len() ==> label_map(#[trigger] s1[k].labels) != label_map(
                                labels@,
                            ));
                    }
                    assert(registry_wf(self@)) by {
                        assert(forall|k: int|
                            0 <= k < self@.len() && k != i ==> self@[k] == fams0[k]);
                        assert(forall|k: int|
                            0 <= k < self@.len() ==> (#[trigger] self@[k]).name == fams0[k].name);
                    }
                }
                Ok(())
            },
        }
    }
}

} // verus!
