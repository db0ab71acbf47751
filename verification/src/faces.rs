//! Tracking faces across the frames of a video.
//!
//! Each frame's detections are reduced to their centres. The history maps a
//! centre to the number of frames in which a face was seen there: an entry
//! survives a frame when some current centre lies within a distance of 10
//! pixels (its count then goes up by one), and every current centre that is
//! not yet in the history enters it with a count of 1. Faces seen over more
//! frames are drawn with more confidence.
use vstd::prelude::*;
use crate::geometry::{Point, Rect, dist2};

verus! {

/// Two centres are close enough to be the same face: their squared
/// distance is below 100.
pub open spec fn near(a: Point, b: Point) -> bool {
    dist2(a, b) < 100
}

/// The centre of a detection as a point.
pub open spec fn center_point(r: Rect) -> Point {
    Point { x: r.center_spec().0 as i32, y: r.center_spec().1 as i32 }
}

/// The centres of a frame's detections.
pub open spec fn detection_centers(ds: Seq<Rect>) -> Set<Point> {
    Set::new(|p: Point| exists|i: int| 0 <= i < ds.len() && center_point(ds[i]) == p)
}

/// Some centre of `cs` is near `k`.
pub open spec fn seen_near(k: Point, cs: Set<Point>) -> bool {
    exists|c: Point| cs.contains(c) && near(k, c)
}

/// The history after a frame whose detections have the centres `cs`.
pub open spec fn advance_history(old: Map<Point, i32>, cs: Set<Point>) -> Map<Point, i32> {
    Map::new(
        |k: Point| (old.dom().contains(k) && seen_near(k, cs)) || cs.contains(k),
        |k: Point|
            if old.dom().contains(k) && seen_near(k, cs) {
                (old[k] + 1) as i32
            } else {
                1i32
            },
    )
}

/// Every count in the history is below `limit`.
pub open spec fn counts_below(m: Map<Point, i32>, limit: int) -> bool {
    forall|k: Point| m.dom().contains(k) ==> m[k] < limit
}

/// Every count in the history is at least 1.
pub open spec fn counts_positive(m: Map<Point, i32>) -> bool {
    forall|k: Point| m.dom().contains(k) ==> m[k] >= 1
}

/// The value stored for `k` in a list of entries; a later entry hides an
/// earlier one with the same key.
pub open spec fn lookup(s: Seq<(Point, i32)>, k: Point) -> Option<i32>
    decreases s.len(),
{
    if s.len() == 0 {
        None
    } else if s.last().0 == k {
        Some(s.last().1)
    } else {
        lookup(s.drop_last(), k)
    }
}

pub open spec fn entries_map(s: Seq<(Point, i32)>) -> Map<Point, i32> {
    Map::new(|k: Point| lookup(s, k) is Some, |k: Point| lookup(s, k)->0)
}

pub open spec fn keys_distinct(s: Seq<(Point, i32)>) -> bool {
    forall|i: int, j: int| 0 <= i < j < s.len() ==> s[i].0 != s[j].0
}

proof fn lemma_lookup_push(s: Seq<(Point, i32)>, e: (Point, i32), k: Point)
    ensures
        lookup(s.push(e), k) == (if e.0 == k {
            Some(e.1)
        } else {
            lookup(s, k)
        }),
{
    assert(s.push(e).drop_last() =~= s);
}

proof fn lemma_lookup_none(s: Seq<(Point, i32)>, k: Point)
    ensures
        (lookup(s, k) is None) <==> (forall|j: int| 0 <= j < s.len() ==> s[j].0 != k),
        lookup(s, k) is Some ==> exists|j: int| 0 <= j < s.len() && s[j] == (k, lookup(s, k)->0),
    decreases s.len(),
{
    if s.len() > 0 {
        lemma_lookup_none(s.drop_last(), k);
        if lookup(s, k) is None {
            assert forall|j: int| 0 <= j < s.len() implies s[j].0 != k by {
                if j < s.len() - 1 {
                    assert(s[j] == s.drop_last()[j]);
                }
            }
        }
        if s.last().0 == k {
            assert(s[s.len() - 1] == (k, lookup(s, k)->0));
        } else if lookup(s, k) is Some {
            let j = choose|j: int|
                0 <= j < s.drop_last().len() && s.drop_last()[j] == (k, lookup(s.drop_last(), k)->0);
            assert(s[j] == (k, lookup(s, k)->0));
        }
    }
}

proof fn lemma_lookup_distinct(s: Seq<(Point, i32)>, i: int)
    requires
        keys_distinct(s),
        0 <= i < s.len(),
    ensures
        lookup(s, s[i].0) == Some(s[i].1),
    decreases s.len(),
{
    if i < s.len() - 1 {
        assert(s[i] == s.drop_last()[i]);
        lemma_lookup_distinct(s.drop_last(), i);
    }
}

/// Every face detected in a frame is tracked after that frame.
pub proof fn lemma_detections_tracked(old: Map<Point, i32>, ds: Seq<Rect>, i: int)
    requires
        0 <= i < ds.len(),
    ensures
        advance_history(old, detection_centers(ds)).dom().contains(center_point(ds[i])),
{
    assert(detection_centers(ds).contains(center_point(ds[i])));
}

/// Every centre tracked after a frame lies near a face detected in that
/// frame.
pub proof fn lemma_tracked_near_detection(old: Map<Point, i32>, cs: Set<Point>, k: Point)
    requires
        advance_history(old, cs).dom().contains(k),
    ensures
        seen_near(k, cs),
{
    if cs.contains(k) {
        assert(near(k, k));
    }
}

/// A face seen again at a tracked centre has its count go up by one.
pub proof fn lemma_seen_again_counts_up(old: Map<Point, i32>, cs: Set<Point>, c: Point)
    requires
        cs.contains(c),
        old.dom().contains(c),
        old[c] < i32::MAX,
    ensures
        advance_history(old, cs)[c] == old[c] + 1,
{
    assert(near(c, c));
}

/// A frame without detections empties the history.
pub proof fn lemma_no_detection_clears(old: Map<Point, i32>)
    ensures
        advance_history(old, Set::empty()) == Map::<Point, i32>::empty(),
{
    assert(advance_history(old, Set::empty()) =~= Map::<Point, i32>::empty());
}

/// Counts stay positive from frame to frame.
pub proof fn lemma_counts_stay_positive(old: Map<Point, i32>, cs: Set<Point>)
    requires
        counts_positive(old),
        counts_below(old, i32::MAX as int),
    ensures
        counts_positive(advance_history(old, cs)),
{
}

/// How many frames each face centre has been seen in.
pub struct FaceHistory {
    entries: Vec<(Point, i32)>,
}

impl View for FaceHistory {
    type V = Map<Point, i32>;

    closed spec fn view(&self) -> Map<Point, i32> {
        entries_map(self.entries@)
    }
}

fn contains_key(s: &Vec<(Point, i32)>, k: Point) -> (res: bool)
    ensures
        res == (lookup(s@, k) is Some),
{
    proof {
        lemma_lookup_none(s@, k);
    }
    let mut i: usize = 0;
    while i < s.len()
        invariant
            i <= s@.len(),
            forall|j: int| 0 <= j < i ==> s@[j].0 != k,
        decreases s@.len() - i,
    {
        if s[i].0 == k {
            proof {
                lemma_lookup_none(s@, k);
            }
            assert(s@[i as int].0 == k);
            return true;
        }
        i = i + 1;
    }
    false
}

/// Whether the two points are near, computed without overflow.
fn is_near(a: Point, b: Point) -> (res: bool)
    ensures
        res == near(a, b),
{
    let dx = (b.x as i64) - (a.x as i64);
    let dy = (b.y as i64) - (a.y as i64);
    if dx <= -10 || dx >= 10 || dy <= -10 || dy >= 10 {
        assert(dist2(a, b) >= 100) by (nonlinear_arith)
            requires
                dx <= -10 || dx >= 10 || dy <= -10 || dy >= 10,
                dx == b.x - a.x,
                dy == b.y - a.y,
        ;
        false
    } else {
        assert(dx * dx + dy * dy == dist2(a, b)) by (nonlinear_arith)
            requires
                dx == b.x - a.x,
                dy == b.y - a.y,
        ;
        assert(0 <= dx * dx <= 100 && 0 <= dy * dy <= 100) by (nonlinear_arith)
            requires
                -10 < dx < 10,
                -10 < dy < 10,
        ;
        dx * dx + dy * dy < 100
    }
}

fn near_any(k: Point, cs: &Vec<Point>) -> (res: bool)
    ensures
        res == exists|j: int| 0 <= j < cs@.len() && near(k, cs@[j]),
{
    let mut i: usize = 0;
    while i < cs.len()
        invariant
            i <= cs@.len(),
            forall|j: int| 0 <= j < i ==> !near(k, cs@[j]),
        decreases cs@.len() - i,
    {
        if is_near(k, cs[i]) {
            return true;
        }
        i = i + 1;
    }
    false
}

/// How a face is drawn, by the number of frames it has been seen in.
#[derive(Clone, Copy, Debug, PartialEq, Eq, Structural)]
pub enum FaceStatus {
    /// Seen in more than 10 frames.
    Steady,
    /// Seen in more than 2 frames.
    Recent,
    /// Seen in at most 2 frames.
    New,
}

/// The status of a face seen in `count` frames.
pub fn face_status(count: i32) -> (s: FaceStatus)
    ensures
        count > 10 ==> s == FaceStatus::Steady,
        2 < count <= 10 ==> s == FaceStatus::Recent,
        count <= 2 ==> s == FaceStatus::New,
{
    if count > 10 {
        FaceStatus::Steady
    } else if count > 2 {
        FaceStatus::Recent
    } else {
        FaceStatus::New
    }
}

impl FaceHistory {
    #[verifier::type_invariant]
    spec fn inv(self) -> bool {
        &&& keys_distinct(self.entries@)
        &&& forall|j: int| 0 <= j < self.entries@.len() ==> self.entries@[j].1 >= 1
    }

    /// An empty history.
    pub fn new() -> (h: FaceHistory)
        ensures
            h@ == Map::<Point, i32>::empty(),
    {
        let h = FaceHistory { entries: Vec::new() };
        assert(h@ =~= Map::<Point, i32>::empty());
        h
    }

    /// The number of frames the face centred at `center` has been seen in.
    pub fn count_at(&self, center: Point) -> (res: Option<i32>)
        ensures
            res == (if self@.dom().contains(center) {
                Some(self@[center])
            } else {
                None
            }),
            res matches Some(c) ==> c >= 1,
    {
        proof {
            use_type_invariant(self);
            lemma_lookup_none(self.entries@, center);
        }
        let mut i: usize = 0;
        while i < self.entries.len()
            invariant
                i <= self.entries@.len(),
                keys_distinct(self.entries@),
                forall|j: int| 0 <= j < i ==> self.entries@[j].0 != center,
            decreases self.entries@.len() - i,
        {
            if self.entries[i].0 == center {
                proof {
                    lemma_lookup_distinct(self.entries@, i as int);
                    use_type_invariant(self);
                }
                return Some(self.entries[i].1);
            }
            i = i + 1;
        }
        None
    }

    /// The number of centres in the history.
    pub fn len(&self) -> (n: usize)
        ensures
            n == self@.dom().len(),
    {
        proof {
            use_type_invariant(self);
            self.lemma_dom_len();
        }
        self.entries.len()
    }

    proof fn lemma_dom_len(&self)
        requires
            keys_distinct(self.entries@),
        ensures
            self@.dom().len() == self.entries@.len(),
            self@.dom().finite(),
    {
        let s = self.entries@;
        let keys = s.map_values(|e: (Point, i32)| e.0);
        assert(keys.no_duplicates()) by {
            assert forall|i: int, j: int| 0 <= i < keys.len() && 0 <= j < keys.len() && i != j
                implies keys[i] != keys[j] by {
                if i < j {
                } else {
                }
            }
        }
        assert forall|k: Point| self@.dom().contains(k) <==> keys.to_set().contains(k) by {
            lemma_lookup_none(s, k);
            if self@.dom().contains(k) {
                let j = choose|j: int| 0 <= j < s.len() && s[j].0 == k;
                assert(keys[j] == k);
            }
            if keys.to_set().contains(k) {
                let j = choose|j: int| 0 <= j < keys.len() && keys[j] == k;
                assert(s[j].0 == k);
            }
        }
        assert(self@.dom() =~= keys.to_set());
        keys.unique_seq_to_set();
    }

    /// Records a frame whose detections are `detections`: entries near some
    /// current centre are kept with their count increased by one, the others
    /// are dropped, and current centres not yet present enter with count 1.
    pub fn update(&mut self, detections: &Vec<Rect>)
        requires
            forall|i: int| 0 <= i < detections@.len() ==> (#[trigger] detections@[i]).center_fits(),
            counts_below(old(self)@, i32::MAX as int),
        ensures
            final(self)@ == advance_history(old(self)@, detection_centers(detections@)),
            counts_positive(final(self)@),
    {
        proof {
            use_type_invariant(&*self);
        }
        let ghost old_entries = self.entries@;
        let ghost cs = detection_centers(detections@);
        // The centres of the current detections.
        let mut centers: Vec<Point> = Vec::new();
        let mut d: usize = 0;
        while d < detections.len()
            invariant
                d <= detections@.len(),
                forall|i: int| 0 <= i < detections@.len() ==> (#[trigger] detections@[i]).center_fits(),
                centers@.len() == d,
                forall|j: int| 0 <= j < d ==> centers@[j] == center_point(#[trigger] detections@[j]),
            decreases detections@.len() - d,
        {
            let c = detections[d].center();
            centers.push(c);
            d = d + 1;
        }
        assert forall|p: Point| cs.contains(p) <==> centers@.contains(p) by {
            if cs.contains(p) {
                let i = choose|i: int| 0 <= i < detections@.len() && center_point(detections@[i]) == p;
                assert(centers@[i] == p);
            }
            if centers@.contains(p) {
                let j = choose|j: int| 0 <= j < centers@.len() && centers@[j] == p;
                assert(center_point(detections@[j]) == p);
            }
        }
        assert forall|k: Point| seen_near(k, cs) <==> exists|j: int| 0 <= j < centers@.len() && near(k, centers@[j]) by {
            if seen_near(k, cs) {
                let c = choose|c: Point| cs.contains(c) && near(k, c);
                assert(centers@.contains(c));
            }
            if exists|j: int| 0 <= j < centers@.len() && near(k, centers@[j]) {
                let j = choose|j: int| 0 <= j < centers@.len() && near(k, centers@[j]);
                assert(cs.contains(centers@[j]));
            }
        }
        // Keep the entries that are near a current centre, one frame older.
        let mut kept: Vec<(Point, i32)> = Vec::new();
        let mut i: usize = 0;
        while i < self.entries.len()
            invariant
                self.entries@ == old_entries,
                i <= old_entries.len(),
                keys_distinct(old_entries),
                forall|j: int| 0 <= j < old_entries.len() ==> old_entries[j].1 >= 1,
                counts_below(entries_map(old_entries), i32::MAX as int),
                forall|k: Point| #[trigger]
                    lookup(kept@, k) == (if lookup(old_entries.take(i as int), k) is Some
                        && seen_near(k, cs) {
                        Some((lookup(old_entries.take(i as int), k)->0 + 1) as i32)
                    } else {
                        None::<i32>
                    }),
                keys_distinct(kept@),
                forall|j: int| 0 <= j < kept@.len() ==> kept@[j].1 >= 1,
                forall|k: Point| seen_near(k, cs) <==> exists|j: int| 0 <= j < centers@.len() && near(k, centers@[j]),
            decreases old_entries.len() - i,
        {
            let e = self.entries[i];
            let ghost pre = old_entries.take(i as int);
            assert(old_entries.take(i as int + 1) =~= pre.push(e));
            proof {
                lemma_lookup_distinct(old_entries, i as int);
                assert(lookup(pre, e.0) is None) by {
                    lemma_lookup_none(pre, e.0);
                }
            }
            if near_any(e.0, &centers) {
                assert(entries_map(old_entries).dom().contains(e.0));
                assert(entries_map(old_entries)[e.0] == e.1);
                assert(e.1 < i32::MAX);
                proof {
                    lemma_lookup_none(kept@, e.0);
                    assert forall|k: Point| #[trigger]
                        lookup(kept@.push((e.0, (e.1 + 1) as i32)), k) == (if lookup(pre.push(e), k) is Some
                            && seen_near(k, cs) {
                            Some((lookup(pre.push(e), k)->0 + 1) as i32)
                        } else {
                            None::<i32>
                        }) by {
                        lemma_lookup_push(kept@, (e.0, (e.1 + 1) as i32), k);
                        lemma_lookup_push(pre, e, k);
                    }
                }
                kept.push((e.0, e.1 + 1));
            } else {
                proof {
                    assert forall|k: Point| #[trigger]
                        lookup(kept@, k) == (if lookup(pre.push(e), k) is Some && seen_near(k, cs) {
                            Some((lookup(pre.push(e), k)->0 + 1) as i32)
                        } else {
                            None::<i32>
                        }) by {
                        lemma_lookup_push(pre, e, k);
                    }
                }
            }
            i = i + 1;
        }
        assert(old_entries.take(old_entries.len() as int) =~= old_entries);
        // Add the current centres that are not tracked yet.
        let mut out = kept;
        let ghost kept_s = out@;
        let mut t: usize = 0;
        while t < centers.len()
            invariant
                t <= centers@.len(),
                forall|k: Point| #[trigger]
                    lookup(out@, k) == (if lookup(kept_s, k) is Some {
                        lookup(kept_s, k)
                    } else if centers@.take(t as int).contains(k) {
                        Some(1i32)
                    } else {
                        None::<i32>
                    }),
                keys_distinct(out@),
                forall|j: int| 0 <= j < out@.len() ==> out@[j].1 >= 1,
            decreases centers@.len() - t,
        {
            let c = centers[t];
            assert(centers@.take(t as int + 1) =~= centers@.take(t as int).push(c));
            if !contains_key(&out, c) {
                proof {
                    lemma_lookup_none(out@, c);
                    assert forall|k: Point| #[trigger]
                        lookup(out@.push((c, 1i32)), k) == (if lookup(kept_s, k) is Some {
                            lookup(kept_s, k)
                        } else if centers@.take(t as int + 1).contains(k) {
                            Some(1i32)
                        } else {
                            None::<i32>
                        }) by {
                        lemma_lookup_push(out@, (c, 1i32), k);
                        if k == c {
                            assert(centers@.take(t as int + 1)[t as int] == c);
                        }
                        if centers@.take(t as int).contains(k) {
                            let pre = centers@.take(t as int);
                            let j = choose|j: int| 0 <= j < pre.len() && pre[j] == k;
                            assert(centers@.take(t as int + 1)[j] == k);
                        }
                        if centers@.take(t as int + 1).contains(k) && k != c {
                            let nxt = centers@.take(t as int + 1);
                            let j = choose|j: int| 0 <= j < nxt.len() && nxt[j] == k;
                            assert(centers@.take(t as int)[j] == k);
                        }
                    }
                }
                out.push((c, 1));
            } else {
                proof {
                    assert forall|k: Point| #[trigger]
                        lookup(out@, k) == (if lookup(kept_s, k) is Some {
                            lookup(kept_s, k)
                        } else if centers@.take(t as int + 1).contains(k) {
                            Some(1i32)
                        } else {
                            None::<i32>
                        }) by {
                        if k == c {
                            assert(centers@.take(t as int + 1)[t as int] == c);
                        }
                        if centers@.take(t as int).contains(k) {
                            let pre = centers@.take(t as int);
                            let j = choose|j: int| 0 <= j < pre.len() && pre[j] == k;
                            assert(centers@.take(t as int + 1)[j] == k);
                        }
                        if centers@.take(t as int + 1).contains(k) && k != c {
                            let nxt = centers@.take(t as int + 1);
                            let j = choose|j: int| 0 <= j < nxt.len() && nxt[j] == k;
                            assert(centers@.take(t as int)[j] == k);
                        }
                    }
                }
            }
            t = t + 1;
        }
        assert(centers@.take(centers@.len() as int) =~= centers@);
        proof {
            let m = entries_map(out@);
            let target = advance_history(entries_map(old_entries), cs);
            assert forall|k: Point| m.dom().contains(k) <==> target.dom().contains(k) by {
                if cs.contains(k) {
                    assert(near(k, k));
                }
            }
            assert forall|k: Point| m.dom().contains(k) implies m[k] == target[k] by {
                if cs.contains(k) {
                    assert(near(k, k));
                }
            }
            assert(m =~= target);
            assert forall|k: Point| m.dom().contains(k) implies m[k] >= 1 by {
                lemma_lookup_none(out@, k);
            }
        }
        self.entries = out;
    }
}

} // verus!
