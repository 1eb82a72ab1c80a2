//! Aggregate statistics over a snapshot of artifacts: counts per category
//! label, total and average weight, and the average condition score.
//!
//! The report is computed on demand from the snapshot it is given and is
//! not maintained incrementally. All averages are integer quotients: the
//! measurements are integers, so the mean is reported as the floor of the
//! exact mean.

use crate::model::{condition_label, material_label, period_label, Artifact, ArtifactModel};
use vstd::prelude::*;

verus! {

/// The models of a snapshot of artifacts, in snapshot order.
pub open spec fn models(s: Seq<Artifact>) -> Seq<ArtifactModel> {
    s.map_values(|a: Artifact| a@)
}

/// How many positions of `labels` hold exactly `l`.
pub open spec fn count_eq(labels: Seq<Seq<char>>, l: Seq<char>) -> nat
    decreases labels.len(),
{
    if labels.len() == 0 {
        0
    } else {
        count_eq(labels.drop_last(), l) + if labels.last() == l {
            1nat
        } else {
            0nat
        }
    }
}

/// The material label of each artifact, in order.
pub open spec fn material_labels(s: Seq<ArtifactModel>) -> Seq<Seq<char>> {
    s.map_values(|a: ArtifactModel| material_label(a.details.material))
}

/// The period label of each artifact, in order.
pub open spec fn period_labels(s: Seq<ArtifactModel>) -> Seq<Seq<char>> {
    s.map_values(|a: ArtifactModel| period_label(a.details.period))
}

/// The condition label of each artifact, in order.
pub open spec fn condition_labels(s: Seq<ArtifactModel>) -> Seq<Seq<char>> {
    s.map_values(|a: ArtifactModel| condition_label(a.details.condition))
}

/// The site name of each artifact, in order.
pub open spec fn site_names(s: Seq<ArtifactModel>) -> Seq<Seq<char>> {
    s.map_values(|a: ArtifactModel| a.details.site)
}

/// The sum of the weights that are present in `s`, in grams.
pub open spec fn weight_sum(s: Seq<ArtifactModel>) -> int
    decreases s.len(),
{
    if s.len() == 0 {
        0
    } else {
        weight_sum(s.drop_last()) + match s.last().details.measurements.weight_g {
            Some(w) => w as int,
            None => 0,
        }
    }
}

/// How many artifacts of `s` carry a weight.
pub open spec fn weight_count(s: Seq<ArtifactModel>) -> nat
    decreases s.len(),
{
    if s.len() == 0 {
        0
    } else {
        weight_count(s.drop_last()) + if s.last().details.measurements.weight_g is Some {
            1nat
        } else {
            0nat
        }
    }
}

/// The sum of the condition quality scores of `s`.
pub open spec fn score_sum(s: Seq<ArtifactModel>) -> int
    decreases s.len(),
{
    if s.len() == 0 {
        0
    } else {
        score_sum(s.drop_last()) + s.last().details.condition.spec_score()
    }
}

/// The model of a count table: each entry's label as a character sequence,
/// beside its count.
pub open spec fn counts_model(c: Seq<(String, usize)>) -> Seq<(Seq<char>, usize)> {
    c.map_values(|p: (String, usize)| (p.0@, p.1))
}

/// `counts` tabulates `labels` exactly: its keys are distinct, each key's
/// count says how often that label occurs, and a key is present exactly for
/// the labels that occur at all.
pub open spec fn tabulates(counts: Seq<(Seq<char>, usize)>, labels: Seq<Seq<char>>) -> bool {
    &&& forall|i: int, j: int|
        0 <= i < j < counts.len() ==> (#[trigger] counts[i]).0 != (#[trigger] counts[j]).0
    &&& forall|i: int|
        0 <= i < counts.len() ==> (#[trigger] counts[i]).1 == count_eq(labels, counts[i].0)
    &&& forall|l: Seq<char>|
        #[trigger] count_eq(labels, l) > 0 ==> exists|i: int|
            0 <= i < counts.len() && (#[trigger] counts[i]).0 == l
    &&& forall|i: int| 0 <= i < counts.len() ==> count_eq(labels, (#[trigger] counts[i]).0) > 0
}

/// The report `r` describes the snapshot `s`: every table tabulates its
/// labels, the totals are the sums, and the averages are the integer means
/// (absent or zero, as documented, when there is nothing to average).
pub open spec fn report_describes(r: StatisticsReport, s: Seq<ArtifactModel>) -> bool {
    &&& r.total == s.len()
    &&& tabulates(counts_model(r.per_material@), material_labels(s))
    &&& tabulates(counts_model(r.per_period@), period_labels(s))
    &&& tabulates(counts_model(r.per_site@), site_names(s))
    &&& tabulates(counts_model(r.per_condition@), condition_labels(s))
    &&& r.weight_total == weight_sum(s)
    &&& r.weight_count == weight_count(s)
    &&& (r.average_weight is Some <==> weight_count(s) > 0)
    &&& (weight_count(s) > 0 ==> r.average_weight == Some(
        (weight_sum(s) / (weight_count(s) as int)) as u128,
    ))
    &&& r.score_total == score_sum(s)
    &&& (s.len() == 0 ==> r.average_score == 0)
    &&& (s.len() > 0 ==> r.average_score == (score_sum(s) / (s.len() as int)) as u128)
}

/// The aggregate report over one snapshot of artifacts.
pub struct StatisticsReport {
    /// How many artifacts the snapshot holds.
    pub total: usize,
    /// How often each material label occurs.
    pub per_material: Vec<(String, usize)>,
    /// How often each period label occurs.
    pub per_period: Vec<(String, usize)>,
    /// How often each site name occurs.
    pub per_site: Vec<(String, usize)>,
    /// How often each condition label occurs.
    pub per_condition: Vec<(String, usize)>,
    /// The sum of all present weights, in grams.
    pub weight_total: u128,
    /// How many artifacts carry a weight.
    pub weight_count: usize,
    /// The mean of the present weights, absent when none is present.
    pub average_weight: Option<u128>,
    /// The sum of all condition quality scores.
    pub score_total: u128,
    /// The mean condition score, zero for an empty snapshot.
    pub average_score: u128,
}

/// Counting one more label raises exactly that label's count by one.
proof fn lemma_count_eq_step(labels: Seq<Seq<char>>, l: Seq<char>, i: int)
    requires
        0 <= i < labels.len(),
    ensures
        count_eq(labels.take(i + 1), l) == count_eq(labels.take(i), l) + if labels[i] == l {
            1int
        } else {
            0int
        },
{
    let t = labels.take(i + 1);
    assert(t.drop_last() =~= labels.take(i));
    assert(t.last() == labels[i]);
    assert(count_eq(t, l) == count_eq(labels.take(i), l) + if labels[i] == l {
        1nat
    } else {
        0nat
    });
}

/// A label's count never exceeds the number of labels.
proof fn lemma_count_eq_le_len(labels: Seq<Seq<char>>, l: Seq<char>)
    ensures
        count_eq(labels, l) <= labels.len(),
    decreases labels.len(),
{
    if labels.len() > 0 {
        lemma_count_eq_le_len(labels.drop_last(), l);
    }
}

/// The position of `key` in the count table, if present.
fn find_key(out: &Vec<(String, usize)>, key: &String) -> (r: Option<usize>)
    ensures
        match r {
            Some(j) => j < out@.len() && (#[trigger] counts_model(out@)[j as int]).0 == key@,
            None => forall|m: int|
                0 <= m < out@.len() ==> (#[trigger] counts_model(out@)[m]).0 != key@,
        },
{
    let mut j: usize = 0;
    while j < out.len()
        invariant
            j <= out@.len(),
            forall|m: int| 0 <= m < j ==> (#[trigger] counts_model(out@)[m]).0 != key@,
        decreases out@.len() - j,
    {
        if out[j].0 == *key {
            return Some(j);
        }
        j = j + 1;
    }
    None
}

/// Builds the count table of a label list.
fn label_counts(labels: &Vec<String>) -> (r: Vec<(String, usize)>)
    ensures
        tabulates(counts_model(r@), labels.deep_view()),
{
    let ghost all = labels.deep_view();
    let mut out: Vec<(String, usize)> = Vec::new();
    let mut i: usize = 0;
    proof {
        assert(all.take(0) =~= Seq::<Seq<char>>::empty());
        assert(counts_model(out@) =~= Seq::<(Seq<char>, usize)>::empty());
    }
    while i < labels.len()
        invariant
            i <= labels@.len(),
            all == labels.deep_view(),
            all.len() == labels@.len(),
            tabulates(counts_model(out@), all.take(i as int)),
        decreases labels@.len() - i,
    {
        let ghost prefix = all.take(i as int);
        let ghost label = all[i as int];
        proof {
            assert(label == labels@[i as int]@);
        }
        let search = find_key(&out, &labels[i]);
        let ghost before = counts_model(out@);
        if let Some(j) = search {
            proof {
                assert(before[j as int].0 == label);
                assert(before[j as int].1 == count_eq(prefix, label));
                lemma_count_eq_le_len(prefix, label);
            }
            let pair = out.remove(j);
            let key = pair.0;
            let v = pair.1;
            out.insert(j, (key, v + 1));
            proof {
                let after = counts_model(out@);
                assert(after =~= before.update(j as int, (label, (v + 1) as usize)));
                assert forall|m: int| 0 <= m < after.len() implies (#[trigger] after[m]).1
                    == count_eq(all.take(i + 1), after[m].0) by {
                    lemma_count_eq_step(all, after[m].0, i as int);
                    if m != j {
                        assert(after[m] == before[m]);
                        assert(before[m].0 != label);
                    }
                }
                assert forall|l: Seq<char>| #[trigger] count_eq(all.take(i + 1), l) > 0 implies exists|
                    m: int,
                | 0 <= m < after.len() && (#[trigger] after[m]).0 == l by {
                    lemma_count_eq_step(all, l, i as int);
                    if l == label {
                        assert(after[j as int].0 == l);
                    } else {
                        assert(count_eq(prefix, l) > 0);
                        let m = choose|m: int|
                            0 <= m < before.len() && (#[trigger] before[m]).0 == l;
                        assert(after[m].0 == l);
                    }
                }
                assert forall|m: int| 0 <= m < after.len() implies count_eq(
                    all.take(i + 1),
                    (#[trigger] after[m]).0,
                ) > 0 by {
                    lemma_count_eq_step(all, after[m].0, i as int);
                    if m != j {
                        assert(after[m] == before[m]);
                    }
                }
                assert(tabulates(after, all.take(i + 1)));
            }
        } else {
            proof {
                if count_eq(prefix, label) > 0 {
                    let m = choose|m: int|
                        0 <= m < before.len() && (#[trigger] before[m]).0 == label;
                    assert(false);
                }
                assert(count_eq(prefix, label) == 0);
            }
            let key = labels[i].clone();
            out.push((key, 1));
            proof {
                let after = counts_model(out@);
                assert(after =~= before.push((label, 1usize)));
                assert forall|m: int| 0 <= m < after.len() implies (#[trigger] after[m]).1
                    == count_eq(all.take(i + 1), after[m].0) by {
                    lemma_count_eq_step(all, after[m].0, i as int);
                    if m < before.len() {
                        assert(after[m] == before[m]);
                        assert(before[m].0 != label);
                    } else {
                        assert(after[m] == (label, 1usize));
                    }
                }
                assert forall|l: Seq<char>| #[trigger] count_eq(all.take(i + 1), l) > 0 implies exists|
                    m: int,
                | 0 <= m < after.len() && (#[trigger] after[m]).0 == l by {
                    lemma_count_eq_step(all, l, i as int);
                    if l == label {
                        assert(after[before.len() as int].0 == l);
                    } else {
                        assert(count_eq(prefix, l) > 0);
                        let m = choose|m: int|
                            0 <= m < before.len() && (#[trigger] before[m]).0 == l;
                        assert(after[m].0 == l);
                    }
                }
                assert forall|m: int| 0 <= m < after.len() implies count_eq(
                    all.take(i + 1),
                    (#[trigger] after[m]).0,
                ) > 0 by {
                    lemma_count_eq_step(all, after[m].0, i as int);
                    if m < before.len() {
                        assert(after[m] == before[m]);
                    }
                }
                assert(tabulates(after, all.take(i + 1)));
            }
        }
        i = i + 1;
    }
    proof {
        assert(all.take(all.len() as int) =~= all);
    }
    out
}


/// One more artifact adds its weight (when present) to the sum and, when
/// present, one to the weight count.
proof fn lemma_weight_step(s: Seq<ArtifactModel>, i: int)
    requires
        0 <= i < s.len(),
    ensures
        weight_sum(s.take(i + 1)) == weight_sum(s.take(i)) + match s[i].details.measurements.weight_g {
            Some(w) => w as int,
            None => 0int,
        },
        weight_count(s.take(i + 1)) == weight_count(s.take(i)) + if s[i].details.measurements.weight_g is Some {
            1int
        } else {
            0int
        },
{
    let t = s.take(i + 1);
    assert(t.drop_last() =~= s.take(i));
    assert(t.last() == s[i]);
    assert(weight_sum(t) == weight_sum(s.take(i)) + match s[i].details.measurements.weight_g {
        Some(w) => w as int,
        None => 0int,
    });
    assert(weight_count(t) == weight_count(s.take(i)) + if s[i].details.measurements.weight_g is Some {
        1nat
    } else {
        0nat
    });
}

/// One more artifact adds its condition score to the score sum.
proof fn lemma_score_step(s: Seq<ArtifactModel>, i: int)
    requires
        0 <= i < s.len(),
    ensures
        score_sum(s.take(i + 1)) == score_sum(s.take(i)) + s[i].details.condition.spec_score(),
{
    let t = s.take(i + 1);
    assert(t.drop_last() =~= s.take(i));
    assert(t.last() == s[i]);
    assert(score_sum(t) == score_sum(s.take(i)) + s[i].details.condition.spec_score());
}

/// The material label of each artifact, as owned strings.
fn material_label_vec(artifacts: &Vec<Artifact>) -> (r: Vec<String>)
    ensures
        r.deep_view() == material_labels(models(artifacts@)),
{
    let mut r: Vec<String> = Vec::new();
    let mut i: usize = 0;
    while i < artifacts.len()
        invariant
            i <= artifacts@.len(),
            r@.len() == i as int,
            forall|k: int|
                0 <= k < i ==> (#[trigger] r@[k])@ == material_label(
                    artifacts@[k]@.details.material,
                ),
        decreases artifacts@.len() - i,
    {
        let l = artifacts[i].details.material.label();
        r.push(l);
        i = i + 1;
    }
    proof {
        assert(r.deep_view() =~= material_labels(models(artifacts@)));
    }
    r
}

/// The period label of each artifact, as owned strings.
fn period_label_vec(artifacts: &Vec<Artifact>) -> (r: Vec<String>)
    ensures
        r.deep_view() == period_labels(models(artifacts@)),
{
    let mut r: Vec<String> = Vec::new();
    let mut i: usize = 0;
    while i < artifacts.len()
        invariant
            i <= artifacts@.len(),
            r@.len() == i as int,
            forall|k: int|
                0 <= k < i ==> (#[trigger] r@[k])@ == period_label(artifacts@[k]@.details.period),
        decreases artifacts@.len() - i,
    {
        let l = artifacts[i].details.period.label();
        r.push(l);
        i = i + 1;
    }
    proof {
        assert(r.deep_view() =~= period_labels(models(artifacts@)));
    }
    r
}

/// The condition label of each artifact, as owned strings.
fn condition_label_vec(artifacts: &Vec<Artifact>) -> (r: Vec<String>)
    ensures
        r.deep_view() == condition_labels(models(artifacts@)),
{
    let mut r: Vec<String> = Vec::new();
    let mut i: usize = 0;
    while i < artifacts.len()
        invariant
            i <= artifacts@.len(),
            r@.len() == i as int,
            forall|k: int|
                0 <= k < i ==> (#[trigger] r@[k])@ == condition_label(
                    artifacts@[k]@.details.condition,
                ),
        decreases artifacts@.len() - i,
    {
        let l = artifacts[i].details.condition.label();
        r.push(l);
        i = i + 1;
    }
    proof {
        assert(r.deep_view() =~= condition_labels(models(artifacts@)));
    }
    r
}

/// The site name of each artifact, as owned strings.
fn site_name_vec(artifacts: &Vec<Artifact>) -> (r: Vec<String>)
    ensures
        r.deep_view() == site_names(models(artifacts@)),
{
    let mut r: Vec<String> = Vec::new();
    let mut i: usize = 0;
    while i < artifacts.len()
        invariant
            i <= artifacts@.len(),
            r@.len() == i as int,
            forall|k: int| 0 <= k < i ==> (#[trigger] r@[k])@ == artifacts@[k]@.details.site,
        decreases artifacts@.len() - i,
    {
        let l = artifacts[i].details.site.clone();
        r.push(l);
        i = i + 1;
    }
    proof {
        assert(r.deep_view() =~= site_names(models(artifacts@)));
    }
    r
}

/// Sums the present weights and counts how many there are.
fn weight_totals(artifacts: &Vec<Artifact>) -> (r: (u128, usize))
    ensures
        r.0 == weight_sum(models(artifacts@)),
        r.1 == weight_count(models(artifacts@)),
{
    let ghost all = models(artifacts@);
    let mut total: u128 = 0;
    let mut count: usize = 0;
    let mut i: usize = 0;
    proof {
        assert(all.take(0) =~= Seq::<ArtifactModel>::empty());
    }
    while i < artifacts.len()
        invariant
            i <= artifacts@.len(),
            all == models(artifacts@),
            all.len() == artifacts@.len(),
            total == weight_sum(all.take(i as int)),
            count == weight_count(all.take(i as int)),
            count <= i,
            total as int <= i as int * 0xffff_ffff,
        decreases artifacts@.len() - i,
    {
        proof {
            lemma_weight_step(all, i as int);
        }
        match artifacts[i].details.measurements.weight_g {
            Some(w) => {
                proof {
                    assert((i as int + 1) * 0xffff_ffff <= (usize::MAX as int + 1) * 0xffff_ffff)
                        by (nonlinear_arith)
                        requires
                            i as int + 1 <= usize::MAX as int + 1,
                    ;
                }
                total = total + (w as u128);
                count = count + 1;
            },
            None => {
            },
        }
        i = i + 1;
    }
    proof {
        assert(all.take(all.len() as int) =~= all);
    }
    (total, count)
}

/// Sums the condition quality scores.
fn score_totals(artifacts: &Vec<Artifact>) -> (r: u128)
    ensures
        r == score_sum(models(artifacts@)),
{
    let ghost all = models(artifacts@);
    let mut total: u128 = 0;
    let mut i: usize = 0;
    proof {
        assert(all.take(0) =~= Seq::<ArtifactModel>::empty());
    }
    while i < artifacts.len()
        invariant
            i <= artifacts@.len(),
            all == models(artifacts@),
            all.len() == artifacts@.len(),
            total == score_sum(all.take(i as int)),
            total as int <= i as int * 5,
        decreases artifacts@.len() - i,
    {
        proof {
            lemma_score_step(all, i as int);
        }
        let s = artifacts[i].details.condition.score();
        total = total + (s as u128);
        i = i + 1;
    }
    proof {
        assert(all.take(all.len() as int) =~= all);
    }
    total
}

/// Computes the aggregate report of a snapshot of artifacts: how often
/// each material, period, site and condition label occurs, the total and
/// mean weight, and the total and mean condition score. The mean weight is
/// absent exactly when no artifact carries a weight; the mean condition
/// score is zero for an empty snapshot.
pub fn generate_report(artifacts: &Vec<Artifact>) -> (r: StatisticsReport)
    ensures
        report_describes(r, models(artifacts@)),
{
    let total = artifacts.len();
    let m_labels = material_label_vec(artifacts);
    let per_material = label_counts(&m_labels);
    let p_labels = period_label_vec(artifacts);
    let per_period = label_counts(&p_labels);
    let s_labels = site_name_vec(artifacts);
    let per_site = label_counts(&s_labels);
    let c_labels = condition_label_vec(artifacts);
    let per_condition = label_counts(&c_labels);
    let (weight_total, weight_count) = weight_totals(artifacts);
    let average_weight = if weight_count > 0 {
        Some(weight_total / (weight_count as u128))
    } else {
        None
    };
    let score_total = score_totals(artifacts);
    let average_score = if total > 0 {
        score_total / (total as u128)
    } else {
        0
    };
    StatisticsReport {
        total,
        per_material,
        per_period,
        per_site,
        per_condition,
        weight_total,
        weight_count,
        average_weight,
        score_total,
        average_score,
    }
}

/// Law: no artifact carries a weight exactly when the weight count is
/// zero; together with the report contract, the average weight is absent
/// exactly when no artifact in the snapshot has a weight, and otherwise it
/// is the floor of the arithmetic mean of the present weights.
pub proof fn lemma_average_weight_absent(s: Seq<ArtifactModel>)
    ensures
        weight_count(s) == 0 <==> (forall|i: int|
            0 <= i < s.len() ==> (#[trigger] s[i]).details.measurements.weight_g is None),
    decreases s.len(),
{
    if s.len() > 0 {
        lemma_average_weight_absent(s.drop_last());
        if weight_count(s) == 0 {
            assert forall|i: int|
                0 <= i < s.len() implies (#[trigger] s[i]).details.measurements.weight_g
                is None by {
                if i < s.len() - 1 {
                    assert(s.drop_last()[i] == s[i]);
                } else {
                    assert(s[i] == s.last());
                }
            }
        }
        if forall|i: int|
            0 <= i < s.len() ==> (#[trigger] s[i]).details.measurements.weight_g is None {
            assert forall|i: int|
                0 <= i < s.drop_last().len() implies (
                #[trigger] s.drop_last()[i]).details.measurements.weight_g is None by {
                assert(s.drop_last()[i] == s[i]);
            }
            assert(s.last() == s[s.len() - 1]);
            assert(weight_count(s) == 0);
        }
    }
}

} // verus!
