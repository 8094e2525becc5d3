//! Laws of the metric registry, stated over the same model functions that
//! the registry's contracts use.

use vstd::prelude::*;

use crate::labels::label_map;
use crate::registry::{
    find_series, lemma_find_series_at, lemma_find_series_none, lemma_find_series_spec,
    spec_series_add, spec_series_set, SeriesModel,
};

verus! {

/// The sum of a sequence of deltas.
pub open spec fn seq_sum(s: Seq<int>) -> int
    decreases s.len(),
{
    if s.len() == 0 {
        0
    } else {
        seq_sum(s.drop_last()) + s.last()
    }
}

/// Effect of a run of `add` calls on one family's series, all with the same
/// labels.
pub open spec fn apply_deltas(
    ss: Seq<SeriesModel>,
    labels: Seq<(Seq<char>, Seq<char>)>,
    deltas: Seq<int>,
) -> Seq<SeriesModel>
    decreases deltas.len(),
{
    if deltas.len() == 0 {
        ss
    } else {
        spec_series_add(apply_deltas(ss, labels, deltas.drop_last()), labels, deltas.last())
    }
}

/// Counter monotonicity: a run of `add` calls with non-negative deltas on
/// one (family, labels) pair leaves the series at exactly the sum of the
/// deltas — one series, created by the first call, accumulated by the rest.
pub proof fn lemma_counter_adds_accumulate(
    ss: Seq<SeriesModel>,
    labels: Seq<(Seq<char>, Seq<char>)>,
    deltas: Seq<int>,
)
    requires
        find_series(ss, label_map(labels)) is None,
        deltas.len() > 0,
        forall|i: int| 0 <= i < deltas.len() ==> deltas[i] >= 0,
    ensures
        apply_deltas(ss, labels, deltas) == ss.push(
            SeriesModel { labels, value: seq_sum(deltas) },
        ),
    decreases deltas.len(),
{
    let m = label_map(labels);
    lemma_find_series_spec(ss, m);
    if deltas.len() == 1 {
        assert(deltas.drop_last().len() == 0);
        assert(apply_deltas(ss, labels, deltas.drop_last()) == ss);
        assert(deltas.last() == deltas[0]);
        assert(apply_deltas(ss, labels, deltas) == spec_series_add(ss, labels, deltas[0]));
        assert(seq_sum(deltas) == seq_sum(deltas.drop_last()) + deltas[0]);
        assert(ss.push(SeriesModel { labels, value: deltas[0] }) =~= ss.push(
            SeriesModel { labels, value: seq_sum(deltas) },
        ));
    } else {
        assert(forall|i: int| 0 <= i < deltas.len() - 1 ==> deltas.drop_last()[i] == deltas[i]);
        lemma_counter_adds_accumulate(ss, labels, deltas.drop_last());
        let mid = ss.push(SeriesModel { labels, value: seq_sum(deltas.drop_last()) });
        assert(forall|j: int| 0 <= j < ss.len() ==> mid[j] == ss[j]);
        lemma_find_series_at(mid, m, ss.len() as int);
        let end = mid.update(
            ss.len() as int,
            SeriesModel {
                labels: mid[ss.len() as int].labels,
                value: mid[ss.len() as int].value + deltas.last(),
            },
        );
        assert(apply_deltas(ss, labels, deltas) == end);
        assert(end =~= ss.push(SeriesModel { labels, value: seq_sum(deltas) }));
    }
}

/// Gauge idempotence: setting the same value for the same labels twice
/// leaves the same series as setting it once.
pub proof fn lemma_gauge_set_idempotent(
    ss: Seq<SeriesModel>,
    labels: Seq<(Seq<char>, Seq<char>)>,
    v: int,
)
    ensures
        spec_series_set(spec_series_set(ss, labels, v), labels, v) == spec_series_set(
            ss,
            labels,
            v,
        ),
{
    let m = label_map(labels);
    lemma_find_series_spec(ss, m);
    match find_series(ss, m) {
        Some(j) => {
            let ss1 = ss.update(j, SeriesModel { labels: ss[j].labels, value: v });
            assert(forall|k: int|
                0 <= k < ss1.len() ==> (#[trigger] ss1[k]).labels == ss[k].labels);
            lemma_find_series_at(ss1, m, j);
            assert(ss1.update(j, SeriesModel { labels: ss1[j].labels, value: v }) =~= ss1);
        },
        None => {
            let ss1 = ss.push(SeriesModel { labels, value: v });
            assert(forall|k: int| 0 <= k < ss.len() ==> ss1[k] == ss[k]);
            lemma_find_series_at(ss1, m, ss.len() as int);
            let j = ss.len() as int;
            assert(ss1.update(j, SeriesModel { labels: ss1[j].labels, value: v }) =~= ss1);
        },
    }
}

/// Label-set identity: two label sets denoting the same key-to-value
/// mapping identify the same series. A write through the second never
/// creates a duplicate series beside the first, and lands exactly where a
/// write through the first would.
pub proof fn lemma_label_set_identity(
    ss: Seq<SeriesModel>,
    a: Seq<(Seq<char>, Seq<char>)>,
    b: Seq<(Seq<char>, Seq<char>)>,
    v: int,
    w: int,
)
    requires
        label_map(a) == label_map(b),
    ensures
        spec_series_set(spec_series_set(ss, a, v), b, w) == spec_series_set(
            spec_series_set(ss, a, v),
            a,
            w,
        ),
        spec_series_set(spec_series_set(ss, a, v), b, w).len() == spec_series_set(
            ss,
            a,
            v,
        ).len(),
{
    let m = label_map(a);
    lemma_find_series_spec(ss, m);
    let ss1 = spec_series_set(ss, a, v);
    match find_series(ss, m) {
        Some(j) => {
            assert(forall|k: int|
                0 <= k < ss1.len() ==> (#[trigger] ss1[k]).labels == ss[k].labels);
            lemma_find_series_at(ss1, m, j);
        },
        None => {
            assert(forall|k: int| 0 <= k < ss.len() ==> ss1[k] == ss[k]);
            lemma_find_series_at(ss1, m, ss.len() as int);
        },
    }
}

} // verus!
