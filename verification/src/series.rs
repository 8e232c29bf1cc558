//! The streaming time-series aggregator.  Samples arrive in batches, one
//! batch per data line; each sample is appended to the series of its
//! name, a series being created at the name's first appearance with a
//! freshly chosen color.  A shared tick counter advances once per batch,
//! so every series' index axis stays aligned.  Series keep first-seen
//! order, names are unique, and a series' name and color never change.

use crate::parse::{Sample, SampleV};
use rand::Rng;
use vstd::prelude::*;

verus! {

/// A series' color, one 32-bit intensity per channel; the presentation
/// layer scales each channel to the unit interval.
#[derive(Debug, Clone, Copy, PartialEq, Eq, Structural)]
pub struct Color {
    pub red: u32,
    pub green: u32,
    pub blue: u32,
}

/// One plotted point: the tick it was recorded at and the sample's value
/// bytes.
#[derive(Debug)]
pub struct PointEntry {
    pub tick: u64,
    pub value: Vec<u8>,
}

/// The mathematical shadow of a `PointEntry`.
#[verifier::ext_equal]
pub ghost struct PointV {
    pub tick: int,
    pub value: Seq<u8>,
}

impl View for PointEntry {
    type V = PointV;

    open spec fn view(&self) -> PointV {
        PointV { tick: self.tick as int, value: self.value@ }
    }
}

/// One named series: its immutable name, its color chosen at creation,
/// and its append-only points.
#[derive(Debug)]
pub struct Series {
    pub name: Vec<u8>,
    pub color: Color,
    pub points: Vec<PointEntry>,
}

/// The mathematical shadow of a `Series`.
#[verifier::ext_equal]
pub ghost struct SeriesV {
    pub name: Seq<u8>,
    pub color: Color,
    pub points: Seq<PointV>,
}

impl View for Series {
    type V = SeriesV;

    open spec fn view(&self) -> SeriesV {
        SeriesV { name: self.name@, color: self.color, points: self.points@.map_values(|p: PointEntry| p@) }
    }
}

/// The names of the series, in display order.
pub open spec fn names_of(ss: Seq<SeriesV>) -> Seq<Seq<u8>> {
    ss.map_values(|s: SeriesV| s.name)
}

/// Some series in `ss` bears the name `n`.
pub open spec fn contains_name(ss: Seq<SeriesV>, n: Seq<u8>) -> bool {
    exists|k: int| 0 <= k < ss.len() && ss[k].name == n
}

/// Series names are pairwise distinct.
pub open spec fn wf_series(ss: Seq<SeriesV>) -> bool {
    forall|i: int, j: int| 0 <= i < j < ss.len() ==> ss[i].name != ss[j].name
}

/// The points a batch contributes to the series named `name`, all at
/// tick `t`, in batch order.
pub open spec fn points_for(b: Seq<SampleV>, name: Seq<u8>, t: int) -> Seq<PointV>
    decreases b.len(),
{
    if b.len() == 0 {
        Seq::<PointV>::empty()
    } else {
        (if b[0].name == name {
            seq![PointV { tick: t, value: b[0].value }]
        } else {
            Seq::<PointV>::empty()
        }) + points_for(b.skip(1), name, t)
    }
}

/// The names a batch introduces, in first-appearance order, given the
/// names `ex` that already exist.
pub open spec fn new_names(ex: Seq<Seq<u8>>, b: Seq<SampleV>) -> Seq<Seq<u8>>
    decreases b.len(),
{
    if b.len() == 0 {
        Seq::<Seq<u8>>::empty()
    } else if ex.contains(b[0].name) {
        new_names(ex, b.skip(1))
    } else {
        seq![b[0].name] + new_names(ex.push(b[0].name), b.skip(1))
    }
}

proof fn lemma_points_for_push(b: Seq<SampleV>, s: SampleV, name: Seq<u8>, t: int)
    ensures
        points_for(b.push(s), name, t) == points_for(b, name, t) + (if s.name == name {
            seq![PointV { tick: t, value: s.value }]
        } else {
            Seq::<PointV>::empty()
        }),
    decreases b.len(),
{
    reveal_with_fuel(points_for, 3);
    let bp = b.push(s);
    if b.len() == 0 {
        assert(bp[0] == s);
        assert(bp.skip(1) =~= Seq::<SampleV>::empty());
        assert(points_for(bp, name, t) =~= points_for(b, name, t) + (if s.name == name {
            seq![PointV { tick: t, value: s.value }]
        } else {
            Seq::<PointV>::empty()
        }));
    } else {
        assert(bp[0] == b[0]);
        assert(bp.skip(1) =~= b.skip(1).push(s));
        lemma_points_for_push(b.skip(1), s, name, t);
        assert(points_for(bp, name, t) =~= points_for(b, name, t) + (if s.name == name {
            seq![PointV { tick: t, value: s.value }]
        } else {
            Seq::<PointV>::empty()
        }));
    }
}

proof fn lemma_new_names_push(ex: Seq<Seq<u8>>, b: Seq<SampleV>, s: SampleV)
    ensures
        new_names(ex, b.push(s)) == (if ex.contains(s.name) || new_names(ex, b).contains(s.name) {
            new_names(ex, b)
        } else {
            new_names(ex, b).push(s.name)
        }),
    decreases b.len(),
{
    reveal_with_fuel(new_names, 3);
    let bp = b.push(s);
    let nn = new_names(ex, b);
    if b.len() == 0 {
        assert(bp[0] == s);
        assert(bp.skip(1) =~= Seq::<SampleV>::empty());
        if !ex.contains(s.name) {
            assert(new_names(ex, bp) =~= nn.push(s.name));
        }
    } else {
        assert(bp[0] == b[0]);
        assert(bp.skip(1) =~= b.skip(1).push(s));
        if ex.contains(b[0].name) {
            lemma_new_names_push(ex, b.skip(1), s);
        } else {
            let ex2 = ex.push(b[0].name);
            lemma_new_names_push(ex2, b.skip(1), s);
            let nn2 = new_names(ex2, b.skip(1));
            assert(nn == seq![b[0].name] + nn2);
            assert(ex2.contains(s.name) <==> (ex.contains(s.name) || b[0].name == s.name)) by {
                if ex.contains(s.name) {
                    let k = choose|k: int| 0 <= k < ex.len() && ex[k] == s.name;
                    assert(ex2[k] == s.name);
                }
                if b[0].name == s.name {
                    assert(ex2[ex.len() as int] == s.name);
                }
                if ex2.contains(s.name) && !(ex.contains(s.name) || b[0].name == s.name) {
                    let k = choose|k: int| 0 <= k < ex2.len() && ex2[k] == s.name;
                    assert(k < ex.len() ==> ex[k] == s.name);
                }
            };
            assert(nn.contains(s.name) <==> (b[0].name == s.name || nn2.contains(s.name))) by {
                if nn2.contains(s.name) {
                    let k = choose|k: int| 0 <= k < nn2.len() && nn2[k] == s.name;
                    assert(nn[k + 1] == s.name);
                }
                if b[0].name == s.name {
                    assert(nn[0] == s.name);
                }
                if nn.contains(s.name) && b[0].name != s.name {
                    let k = choose|k: int| 0 <= k < nn.len() && nn[k] == s.name;
                    assert(k > 0 && nn2[k - 1] == s.name);
                }
            };
            if ex2.contains(s.name) || nn2.contains(s.name) {
                assert(new_names(ex, bp) == seq![b[0].name] + nn2);
            } else {
                assert(new_names(ex, bp) == seq![b[0].name] + nn2.push(s.name));
                assert(seq![b[0].name] + nn2.push(s.name) =~= nn.push(s.name));
            }
        }
    }
}

proof fn lemma_points_for_untracked(ex: Seq<Seq<u8>>, b: Seq<SampleV>, name: Seq<u8>, t: int)
    requires
        !ex.contains(name),
        !new_names(ex, b).contains(name),
    ensures
        points_for(b, name, t) == Seq::<PointV>::empty(),
    decreases b.len(),
{
    reveal_with_fuel(points_for, 2);
    reveal_with_fuel(new_names, 2);
    if b.len() > 0 {
        let nn = new_names(ex, b);
        if b[0].name == name {
            if ex.contains(b[0].name) {
                assert(false);
            } else {
                assert(nn[0] == name);
                assert(nn.contains(name));
                assert(false);
            }
        } else {
            if ex.contains(b[0].name) {
                lemma_points_for_untracked(ex, b.skip(1), name, t);
            } else {
                let ex2 = ex.push(b[0].name);
                let nn2 = new_names(ex2, b.skip(1));
                assert(!ex2.contains(name)) by {
                    if ex2.contains(name) {
                        let k = choose|k: int| 0 <= k < ex2.len() && ex2[k] == name;
                        assert(k < ex.len() ==> ex[k] == name);
                    }
                };
                assert(!nn2.contains(name)) by {
                    if nn2.contains(name) {
                        let k = choose|k: int| 0 <= k < nn2.len() && nn2[k] == name;
                        assert(nn[k + 1] == name);
                    }
                };
                lemma_points_for_untracked(ex2, b.skip(1), name, t);
            }
            assert(points_for(b, name, t) =~= points_for(b.skip(1), name, t));
        }
    }
}

/// Relies on rand::thread_rng and rand::Rng::gen: a freshly drawn random
/// 32-bit value.  Nothing is promised of a random result.
#[verifier::external_body]
fn random_u32() -> u32 {
    rand::thread_rng().gen()
}

/// The mathematical shadow of the aggregator: its series in display
/// order and its tick counter.
#[verifier::ext_equal]
pub ghost struct AggV {
    pub series: Seq<SeriesV>,
    pub tick: int,
}

/// The aggregator: every series by first-seen order, and the shared tick
/// counter that advances once per ingested batch.
pub struct SeriesAggregator {
    series: Vec<Series>,
    tick: u64,
}

impl View for SeriesAggregator {
    type V = AggV;

    closed spec fn view(&self) -> AggV {
        AggV { series: self.series@.map_values(|s: Series| s@), tick: self.tick as int }
    }
}

impl SeriesAggregator {
    /// Series names are pairwise distinct.
    pub open spec fn wf(&self) -> bool {
        wf_series(self@.series)
    }

    /// An empty aggregator at tick zero.
    pub fn new() -> (r: SeriesAggregator)
        ensures
            r@.series == Seq::<SeriesV>::empty(),
            r@.tick == 0,
            r.wf(),
    {
        let r = SeriesAggregator { series: Vec::new(), tick: 0 };
        proof {
            assert(r@.series =~= Seq::<SeriesV>::empty());
        }
        r
    }

    /// Drop every series and reset the tick counter to zero.
    pub fn clear(&mut self)
        ensures
            final(self)@.series == Seq::<SeriesV>::empty(),
            final(self)@.tick == 0,
            final(self).wf(),
    {
        self.series.clear();
        self.tick = 0;
        proof {
            assert(self@.series =~= Seq::<SeriesV>::empty());
        }
    }

    /// How many series exist.
    pub fn series_count(&self) -> (r: usize)
        ensures
            r == self@.series.len(),
    {
        self.series.len()
    }

    /// The current tick counter.
    pub fn tick(&self) -> (r: u64)
        ensures
            r == self@.tick,
    {
        self.tick
    }

    /// The name of the series at display position `i`.
    pub fn series_name(&self, i: usize) -> (r: &Vec<u8>)
        requires
            i < self@.series.len(),
        ensures
            r@ == self@.series[i as int].name,
    {
        &self.series[i].name
    }

    /// The color of the series at display position `i`.
    pub fn series_color(&self, i: usize) -> (r: Color)
        requires
            i < self@.series.len(),
        ensures
            r == self@.series[i as int].color,
    {
        self.series[i].color
    }

    /// The points of the series at display position `i`.
    pub fn series_points(&self, i: usize) -> (r: &Vec<PointEntry>)
        requires
            i < self@.series.len(),
        ensures
            r@.map_values(|p: PointEntry| p@) == self@.series[i as int].points,
    {
        &self.series[i].points
    }

    fn find_series(&self, name: &Vec<u8>) -> (r: Option<usize>)
        ensures
            (match r {
                Some(i) => i < self@.series.len() && self@.series[i as int].name == name@,
                None => !contains_name(self@.series, name@),
            }),
    {
        let mut i: usize = 0;
        while i < self.series.len()
            invariant
                i <= self@.series.len(),
                forall|k: int| 0 <= k < i ==> self@.series[k].name != name@,
            decreases self@.series.len() - i,
        {
            if crate::bytes::bytes_eq(&self.series[i].name, name) {
                return Some(i);
            }
            i = i + 1;
        }
        None
    }

    /// Ingest one batch: each sample is appended, at the current tick, to
    /// the series of its name; a name seen for the first time gains a new
    /// series, placed after all existing ones in batch order, with a
    /// freshly chosen color.  Existing series keep their name, color and
    /// points, gaining exactly the batch's points for their name.  The
    /// tick advances by one, once, however many samples the batch holds.
    #[verifier::rlimit(100)]
    pub fn ingest(&mut self, batch: &Vec<Sample>)
        requires
            old(self).wf(),
            old(self)@.tick < u64::MAX,
        ensures
            final(self).wf(),
            final(self)@.tick == old(self)@.tick + 1,
            final(self)@.series.len() == old(self)@.series.len() + new_names(
                names_of(old(self)@.series),
                batch@.map_values(|s: Sample| s@),
            ).len(),
            forall|i: int| 0 <= i < old(self)@.series.len()
                ==> (#[trigger] final(self)@.series[i]).name == old(self)@.series[i].name
                && final(self)@.series[i].color == old(self)@.series[i].color
                && final(self)@.series[i].points == old(self)@.series[i].points + points_for(
                    batch@.map_values(|s: Sample| s@),
                    old(self)@.series[i].name,
                    old(self)@.tick,
                ),
            forall|j: int|
                old(self)@.series.len() <= j < final(self)@.series.len()
                ==> (#[trigger] final(self)@.series[j]).name == new_names(
                    names_of(old(self)@.series),
                    batch@.map_values(|s: Sample| s@),
                )[j - old(self)@.series.len()] && final(self)@.series[j].points == points_for(
                    batch@.map_values(|s: Sample| s@),
                    final(self)@.series[j].name,
                    old(self)@.tick,
                ) && !contains_name(old(self)@.series, final(self)@.series[j].name),
    {
        let ghost ss0 = old(self)@.series;
        let ghost names0 = names_of(ss0);
        let ghost batchv = batch@.map_values(|s: Sample| s@);
        let t0 = self.tick;
        let mut k: usize = 0;
        proof {
            assert(batchv.take(0) =~= Seq::<SampleV>::empty());
            assert(forall|i: int| 0 <= i < ss0.len() ==> #[trigger] ss0[i].points + points_for(
                batchv.take(0),
                ss0[i].name,
                t0 as int,
            ) =~= ss0[i].points);
        }
        while k < batch.len()
            invariant
                k <= batch.len(),
                batchv == batch@.map_values(|s: Sample| s@),
                names0 == names_of(ss0),
                self@.tick == t0 as int,
                old(self)@.tick == t0 as int,
                wf_series(self@.series),
                self@.series.len() == ss0.len() + new_names(names0, batchv.take(k as int)).len(),
                forall|i: int| 0 <= i < ss0.len() ==> (#[trigger] self@.series[i]).name == ss0[i].name
                    && self@.series[i].color == ss0[i].color && self@.series[i].points
                    == ss0[i].points + points_for(batchv.take(k as int), ss0[i].name, t0 as int),
                forall|j: int|
                    ss0.len() <= j < self@.series.len() ==> (#[trigger] self@.series[j]).name
                        == new_names(names0, batchv.take(k as int))[j - ss0.len()]
                        && self@.series[j].points == points_for(
                        batchv.take(k as int),
                        self@.series[j].name,
                        t0 as int,
                    ) && !contains_name(ss0, self@.series[j].name),
            decreases batch.len() - k,
        {
            let ghost curv = self@.series;
            let ghost nn_k = new_names(names0, batchv.take(k as int));
            let sample = &batch[k];
            proof {
                assert(batchv[k as int] == sample@);
                assert(batchv.take(k + 1) =~= batchv.take(k as int).push(batchv[k as int]));
                lemma_new_names_push(names0, batchv.take(k as int), batchv[k as int]);
                assert forall|n: Seq<u8>| #[trigger] points_for(batchv.take(k + 1), n, t0 as int)
                    == points_for(batchv.take(k as int), n, t0 as int) + (if batchv[k as int].name
                    == n {
                    seq![PointV { tick: t0 as int, value: batchv[k as int].value }]
                } else {
                    Seq::<PointV>::empty()
                }) by {
                    lemma_points_for_push(batchv.take(k as int), batchv[k as int], n, t0 as int);
                }
            }
            let value = crate::bytes::subrange_vec(&sample.value, 0, sample.value.len());
            proof {
                assert(value@ =~= sample@.value);
            }
            match self.find_series(&sample.name) {
                Some(i) => {
                    proof {
                        assert(i < curv.len());
                        assert(curv[i as int].name == sample@.name);
                    }
                    self.series[i].points.push(PointEntry { tick: t0, value });
                    proof {
                        assert(self@.series.len() == curv.len());
                        assert(self@.series[i as int].points =~~= curv[i as int].points.push(
                            PointV { tick: t0 as int, value: batchv[k as int].value },
                        ));
                        assert(self@.series[i as int].name == curv[i as int].name);
                        assert(self@.series[i as int].color == curv[i as int].color);
                        assert(forall|m: int| 0 <= m < curv.len() && m != i ==> self@.series[m]
                            == #[trigger] curv[m]);
                        assert(names0.contains(curv[i as int].name) || new_names(
                            names0,
                            batchv.take(k as int),
                        ).contains(curv[i as int].name)) by {
                            if i < ss0.len() {
                                assert(names0[i as int] == curv[i as int].name);
                            } else {
                                assert(nn_k[i - ss0.len()] == curv[i as int].name);
                            }
                        };
                        assert(new_names(names0, batchv.take(k + 1)) == nn_k);
                        assert(forall|m: int| 0 <= m < curv.len() && m != i ==> (#[trigger] curv[m]).name
                            != curv[i as int].name);
                        assert forall|m: int| 0 <= m < ss0.len() implies (#[trigger] self@.series[m]).points
                            =~~= ss0[m].points + points_for(batchv.take(k + 1), ss0[m].name, t0 as int) by {
                            assert(curv[m].points == ss0[m].points + points_for(
                                batchv.take(k as int),
                                ss0[m].name,
                                t0 as int,
                            ));
                            assert(curv[m].name == ss0[m].name);
                            if m == i {
                                assert(batchv[k as int].name == ss0[m].name);
                            } else {
                                assert(self@.series[m].points == curv[m].points);
                                assert(batchv[k as int].name != ss0[m].name);
                            }
                        }
                        assert forall|j: int| ss0.len() <= j < self@.series.len() implies (#[trigger] self@.series[j]).points
                            =~~= points_for(batchv.take(k + 1), self@.series[j].name, t0 as int) by {
                            assert(self@.series[j].name == curv[j].name);
                            assert(curv[j].points == points_for(
                                batchv.take(k as int),
                                curv[j].name,
                                t0 as int,
                            ));
                            if j == i {
                                assert(batchv[k as int].name == curv[j].name);
                            } else {
                                assert(self@.series[j].points == curv[j].points);
                                assert(curv[j].name != curv[i as int].name);
                                assert(batchv[k as int].name != curv[j].name);
                            }
                        }
                        assert(forall|m: int| 0 <= m < curv.len() ==> (#[trigger] self@.series[m]).name
                            == curv[m].name && self@.series[m].color == curv[m].color);
                        assert(wf_series(self@.series));
                        assert(forall|m: int| 0 <= m < ss0.len() ==> (#[trigger] self@.series[m]).name
                            == ss0[m].name && self@.series[m].color == ss0[m].color
                            && self@.series[m].points == ss0[m].points + points_for(
                            batchv.take(k + 1),
                            ss0[m].name,
                            t0 as int,
                        ));
                        assert(forall|j: int| ss0.len() <= j < self@.series.len() ==> (#[trigger] self@.series[j]).name
                            == new_names(names0, batchv.take(k + 1))[j - ss0.len()]
                            && self@.series[j].points == points_for(
                            batchv.take(k + 1),
                            self@.series[j].name,
                            t0 as int,
                        ) && !contains_name(ss0, self@.series[j].name));
                    }
                },
                None => {
                    let name = crate::bytes::subrange_vec(&sample.name, 0, sample.name.len());
                    proof {
                        assert(name@ =~= sample@.name);
                    }
                    let color = Color { red: random_u32(), green: 0, blue: random_u32() };
                    let mut points: Vec<PointEntry> = Vec::new();
                    points.push(PointEntry { tick: t0, value });
                    let new_series = Series { name, color, points };
                    let ghost nsv = new_series@;
                    proof {
                        assert(nsv.name == batchv[k as int].name);
                        assert(nsv.points =~~= seq![
                            PointV { tick: t0 as int, value: batchv[k as int].value },
                        ]);
                    }
                    self.series.push(new_series);
                    proof {
                        assert(self@.series.len() == curv.len() + 1);
                        assert(self@.series[curv.len() as int] == nsv);
                        assert(forall|m: int| 0 <= m < curv.len() ==> (#[trigger] self@.series[m])
                            == curv[m]);
                        assert(!names0.contains(batchv[k as int].name)) by {
                            if names0.contains(batchv[k as int].name) {
                                let m = choose|m: int|
                                    0 <= m < names0.len() && names0[m] == batchv[k as int].name;
                                assert(curv[m].name == batchv[k as int].name);
                                assert(contains_name(curv, batchv[k as int].name));
                            }
                        };
                        assert(!nn_k.contains(batchv[k as int].name)) by {
                            if nn_k.contains(batchv[k as int].name) {
                                let m = choose|m: int|
                                    0 <= m < nn_k.len() && nn_k[m] == batchv[k as int].name;
                                assert(curv[ss0.len() + m].name == batchv[k as int].name);
                                assert(contains_name(curv, batchv[k as int].name));
                            }
                        };
                        assert(!contains_name(ss0, batchv[k as int].name)) by {
                            if contains_name(ss0, batchv[k as int].name) {
                                let m = choose|m: int|
                                    0 <= m < ss0.len() && ss0[m].name == batchv[k as int].name;
                                assert(names0[m] == batchv[k as int].name);
                                assert(names0.contains(batchv[k as int].name));
                            }
                        };
                        assert(new_names(names0, batchv.take(k + 1)) == nn_k.push(
                            batchv[k as int].name,
                        ));
                        lemma_points_for_untracked(
                            names0,
                            batchv.take(k as int),
                            batchv[k as int].name,
                            t0 as int,
                        );
                        assert(points_for(
                            batchv.take(k as int),
                            batchv[k as int].name,
                            t0 as int,
                        ) == Seq::<PointV>::empty());
                        assert(self@.series[curv.len() as int].points =~~= points_for(
                            batchv.take(k + 1),
                            batchv[k as int].name,
                            t0 as int,
                        ));
                        assert(forall|m: int| 0 <= m < curv.len() ==> (#[trigger] curv[m]).name
                            != batchv[k as int].name);
                        assert forall|m: int| 0 <= m < ss0.len() implies (#[trigger] self@.series[m]).points
                            =~~= ss0[m].points + points_for(batchv.take(k + 1), ss0[m].name, t0 as int) by {
                            assert(self@.series[m].points == curv[m].points);
                            assert(curv[m].points == ss0[m].points + points_for(
                                batchv.take(k as int),
                                ss0[m].name,
                                t0 as int,
                            ));
                            assert(curv[m].name == ss0[m].name);
                            assert(batchv[k as int].name != ss0[m].name);
                        }
                        assert forall|j: int| ss0.len() <= j < curv.len() implies (#[trigger] self@.series[j]).points
                            =~~= points_for(batchv.take(k + 1), self@.series[j].name, t0 as int) by {
                            assert(self@.series[j].points == curv[j].points);
                            assert(self@.series[j].name == curv[j].name);
                            assert(curv[j].points == points_for(
                                batchv.take(k as int),
                                curv[j].name,
                                t0 as int,
                            ));
                            assert(batchv[k as int].name != curv[j].name);
                        }
                        assert(wf_series(self@.series)) by {
                            assert forall|a: int, b: int| 0 <= a < b < self@.series.len() implies
                                (#[trigger] self@.series[a]).name != (#[trigger] self@.series[b]).name by {
                                if b < curv.len() {
                                    assert(self@.series[a] == curv[a]);
                                    assert(self@.series[b] == curv[b]);
                                    assert(curv[a].name != curv[b].name);
                                } else {
                                    assert(self@.series[a] == curv[a]);
                                    assert(self@.series[b] == nsv);
                                    assert(curv[a].name != batchv[k as int].name);
                                }
                            }
                        };
                        assert(forall|m: int| 0 <= m < ss0.len() ==> (#[trigger] self@.series[m]).name
                            == ss0[m].name && self@.series[m].color == ss0[m].color
                            && self@.series[m].points == ss0[m].points + points_for(
                            batchv.take(k + 1),
                            ss0[m].name,
                            t0 as int,
                        ));
                        assert(forall|j: int| ss0.len() <= j < self@.series.len() ==> (#[trigger] self@.series[j]).name
                            == new_names(names0, batchv.take(k + 1))[j - ss0.len()]
                            && self@.series[j].points == points_for(
                            batchv.take(k + 1),
                            self@.series[j].name,
                            t0 as int,
                        ) && !contains_name(ss0, self@.series[j].name));
                    }
                },
            }
            k = k + 1;
        }
        proof {
            assert(batchv.take(batch@.len() as int) =~= batchv);
        }
        self.tick = self.tick + 1;
    }
}

} // verus!
