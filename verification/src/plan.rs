//! The collision-aware rename plan: an ordered map from canonical
//! timestamp to rename entry, and the batch accumulator that detects every
//! duplicate timestamp before any rename is performed.

use vstd::prelude::*;

use crate::text::compare_keys;
use crate::text::lemma_lex_transitive;
use crate::text::lemma_lex_trichotomy;
use crate::text::lex_lt;
use crate::text::KeyOrder;

verus! {

/// One planned rename: the file at `path` is to become `new_name`, keyed
/// by its resolved canonical `timestamp`.
pub struct PlanEntry {
    pub timestamp: String,
    pub path: String,
    pub new_name: String,
}

/// The mathematical image of a plan entry.
pub ghost struct PlanEntryView {
    pub timestamp: Seq<char>,
    pub path: Seq<char>,
    pub new_name: Seq<char>,
}

impl View for PlanEntry {
    type V = PlanEntryView;

    open spec fn view(&self) -> PlanEntryView {
        PlanEntryView { timestamp: self.timestamp@, path: self.path@, new_name: self.new_name@ }
    }
}

/// A reported duplicate: the file already holding the timestamp and the
/// file that tried to claim it again.
pub struct Collision {
    pub timestamp: String,
    pub existing_path: String,
    pub incoming_path: String,
}

/// The mathematical image of a reported duplicate.
pub ghost struct CollisionView {
    pub timestamp: Seq<char>,
    pub existing_path: Seq<char>,
    pub incoming_path: Seq<char>,
}

impl View for Collision {
    type V = CollisionView;

    open spec fn view(&self) -> CollisionView {
        CollisionView {
            timestamp: self.timestamp@,
            existing_path: self.existing_path@,
            incoming_path: self.incoming_path@,
        }
    }
}

/// The entries stand in strictly increasing timestamp order, so keys are
/// unique by construction.
pub open spec fn plan_ordered(s: Seq<PlanEntryView>) -> bool {
    forall|i: int, j: int|
        0 <= i < j < s.len() ==> lex_lt(#[trigger] s[i].timestamp, #[trigger] s[j].timestamp)
}

/// The associative reading of an entry sequence: timestamp to entry.
pub open spec fn map_of(s: Seq<PlanEntryView>) -> Map<Seq<char>, PlanEntryView>
    decreases s.len(),
{
    if s.len() == 0 {
        Map::empty()
    } else {
        map_of(s.drop_first()).insert(s[0].timestamp, s[0])
    }
}

proof fn lemma_map_of_dom(s: Seq<PlanEntryView>, k: Seq<char>)
    ensures
        map_of(s).dom().contains(k) <==> exists|i: int| 0 <= i < s.len() && s[i].timestamp == k,
    decreases s.len(),
{
    if s.len() > 0 {
        lemma_map_of_dom(s.drop_first(), k);
        if exists|i: int| 0 <= i < s.len() && s[i].timestamp == k {
            let i = choose|i: int| 0 <= i < s.len() && s[i].timestamp == k;
            if i > 0 {
                assert(s.drop_first()[i - 1].timestamp == k);
            }
        }
        if map_of(s.drop_first()).dom().contains(k) {
            let i = choose|i: int| 0 <= i < s.drop_first().len() && s.drop_first()[i].timestamp == k;
            assert(s[i + 1].timestamp == k);
        }
    }
}

proof fn lemma_map_of_lookup(s: Seq<PlanEntryView>, i: int)
    requires
        plan_ordered(s),
        0 <= i < s.len(),
    ensures
        map_of(s).dom().contains(s[i].timestamp),
        map_of(s)[s[i].timestamp] == s[i],
    decreases s.len(),
{
    if i == 0 {
    } else {
        assert(plan_ordered(s.drop_first())) by {
            assert forall|a: int, b: int|
                0 <= a < b < s.drop_first().len() implies lex_lt(
                #[trigger] s.drop_first()[a].timestamp,
                #[trigger] s.drop_first()[b].timestamp,
            ) by {
                assert(s.drop_first()[a] == s[a + 1]);
                assert(s.drop_first()[b] == s[b + 1]);
            }
        }
        lemma_map_of_lookup(s.drop_first(), i - 1);
        assert(s.drop_first()[i - 1] == s[i]);
        lemma_lex_trichotomy(s[0].timestamp, s[i].timestamp);
    }
}

proof fn lemma_map_of_insert(s: Seq<PlanEntryView>, i: int, e: PlanEntryView)
    requires
        0 <= i <= s.len(),
        forall|k: int| 0 <= k < s.len() ==> (#[trigger] s[k].timestamp) != e.timestamp,
    ensures
        map_of(s.insert(i, e)) =~= map_of(s).insert(e.timestamp, e),
    decreases i,
{
    if i == 0 {
        assert(s.insert(0, e).drop_first() =~= s);
    } else {
        let t = s.insert(i, e);
        assert(t[0] == s[0]);
        assert(t.drop_first() =~= s.drop_first().insert(i - 1, e));
        assert forall|k: int| 0 <= k < s.drop_first().len() implies (
        #[trigger] s.drop_first()[k].timestamp) != e.timestamp by {
            assert(s.drop_first()[k] == s[k + 1]);
        }
        lemma_map_of_insert(s.drop_first(), i - 1, e);
        assert(map_of(t) =~= map_of(s.drop_first()).insert(e.timestamp, e).insert(
            s[0].timestamp,
            s[0],
        ));
        assert(s[0].timestamp != e.timestamp);
    }
}

/// The plan: entries in strictly increasing timestamp order.  Its view is
/// the map from timestamp to entry; `entries_seq` gives the order.
pub struct RenamePlan {
    entries: Vec<PlanEntry>,
}

impl View for RenamePlan {
    type V = Map<Seq<char>, PlanEntryView>;

    closed spec fn view(&self) -> Map<Seq<char>, PlanEntryView> {
        map_of(self.entries_seq())
    }
}

impl RenamePlan {
    /// The entries as they stand, in timestamp order.
    pub closed spec fn entries_seq(&self) -> Seq<PlanEntryView> {
        self.entries@.map_values(|e: PlanEntry| e@)
    }

    /// Well-formedness: strictly sorted, hence duplicate-free.
    pub open spec fn wf(&self) -> bool {
        plan_ordered(self.entries_seq())
    }

    pub fn new() -> (r: RenamePlan)
        ensures
            r.wf(),
            r@ =~= Map::<Seq<char>, PlanEntryView>::empty(),
            r.entries_seq() == Seq::<PlanEntryView>::empty(),
    {
        let r = RenamePlan { entries: Vec::new() };
        proof {
            assert(r.entries_seq() =~= Seq::<PlanEntryView>::empty());
        }
        r
    }

    /// Inserts an entry at its place in timestamp order.  A duplicate
    /// timestamp is a hard error: the plan is left unchanged and the path
    /// of the file already holding the timestamp is reported.
    pub fn insert(&mut self, e: PlanEntry) -> (r: Result<(), String>)
        requires
            old(self).wf(),
        ensures
            final(self).wf(),
            match r {
                Ok(_) => !old(self)@.dom().contains(e@.timestamp) && final(self)@ =~= old(
                    self,
                )@.insert(e@.timestamp, e@) && exists|i: int|
                    0 <= i <= old(self).entries_seq().len() && final(self).entries_seq() == old(
                        self,
                    ).entries_seq().insert(i, e@),
                Err(p) => old(self)@.dom().contains(e@.timestamp) && p@ == old(
                    self,
                )@[e@.timestamp].path && final(self)@ == old(self)@ && final(self).entries_seq()
                    == old(self).entries_seq(),
            },
    {
        let ghost s = self.entries_seq();
        let n: usize = self.entries.len();
        let mut i: usize = 0;
        proof {
            assert(s.len() == n);
        }
        while i < n
            invariant
                self == old(self),
                s == self.entries_seq(),
                plan_ordered(s),
                n == s.len(),
                i <= n,
                forall|k: int| 0 <= k < i ==> lex_lt(#[trigger] s[k].timestamp, e@.timestamp),
            decreases n - i,
        {
            proof {
                assert(s[i as int] == self.entries@[i as int]@);
            }
            match compare_keys(self.entries[i].timestamp.as_str(), e.timestamp.as_str()) {
                KeyOrder::Less => {
                    i += 1;
                },
                KeyOrder::Equal => {
                    let p = self.entries[i].path.clone();
                    proof {
                        lemma_map_of_lookup(s, i as int);
                    }
                    return Err(p);
                },
                KeyOrder::Greater => {
                    proof {
                        lemma_plan_insert_position(s, e@, i as int);
                    }
                    self.entries.insert(i, e);
                    proof {
                        assert(self.entries_seq() =~= s.insert(i as int, e@));
                    }
                    return Ok(());
                },
            }
        }
        proof {
            lemma_plan_insert_position(s, e@, n as int);
        }
        self.entries.insert(n, e);
        proof {
            assert(self.entries_seq() =~= s.insert(n as int, e@));
        }
        Ok(())
    }

    /// The planned entries in timestamp order, for the executor.
    pub fn entries(&self) -> (r: &Vec<PlanEntry>)
        ensures
            r@.map_values(|e: PlanEntry| e@) == self.entries_seq(),
    {
        &self.entries
    }
}

/// Inserting at the position found by the ordered scan keeps the plan
/// sorted, and the new timestamp was not present before.
proof fn lemma_plan_insert_position(s: Seq<PlanEntryView>, e: PlanEntryView, i: int)
    requires
        plan_ordered(s),
        0 <= i <= s.len(),
        forall|k: int| 0 <= k < i ==> lex_lt(#[trigger] s[k].timestamp, e.timestamp),
        i < s.len() ==> lex_lt(e.timestamp, s[i].timestamp),
    ensures
        plan_ordered(s.insert(i, e)),
        forall|k: int| 0 <= k < s.len() ==> (#[trigger] s[k].timestamp) != e.timestamp,
        map_of(s.insert(i, e)) =~= map_of(s).insert(e.timestamp, e),
        !map_of(s).dom().contains(e.timestamp),
{
    assert forall|k: int| 0 <= k < s.len() implies (#[trigger] s[k].timestamp) != e.timestamp by {
        if k < i {
            lemma_lex_trichotomy(s[k].timestamp, e.timestamp);
        } else {
            if k > i {
                assert(lex_lt(s[i as int].timestamp, s[k].timestamp));
            }
            if i < s.len() && s[k].timestamp == e.timestamp {
                if k > i {
                    lemma_lex_transitive(e.timestamp, s[i as int].timestamp, s[k].timestamp);
                }
                lemma_lex_trichotomy(e.timestamp, s[k].timestamp);
            }
        }
    }
    let t = s.insert(i, e);
    assert forall|a: int, b: int| 0 <= a < b < t.len() implies lex_lt(
        #[trigger] t[a].timestamp,
        #[trigger] t[b].timestamp,
    ) by {
        if a < i && b < i {
            assert(t[a] == s[a] && t[b] == s[b]);
        } else if a < i && b == i {
            assert(t[a] == s[a]);
        } else if a < i && b > i {
            assert(t[a] == s[a] && t[b] == s[b - 1]);
            if b - 1 > i || i == s.len() {
                if b - 1 >= i && i < s.len() {
                    if b - 1 == i {
                        assert(lex_lt(t[a].timestamp, t[b].timestamp)) by {
                            lemma_lex_transitive(s[a].timestamp, e.timestamp, s[i].timestamp);
                        }
                    }
                }
            }
            if b - 1 == i {
                lemma_lex_transitive(s[a].timestamp, e.timestamp, s[b - 1].timestamp);
            } else {
                assert(lex_lt(s[a].timestamp, s[b - 1].timestamp));
            }
        } else if a == i {
            assert(t[b] == s[b - 1]);
            if b - 1 == i {
                assert(lex_lt(e.timestamp, s[i].timestamp));
            } else {
                lemma_lex_transitive(e.timestamp, s[i].timestamp, s[b - 1].timestamp);
            }
        } else {
            assert(t[a] == s[a - 1] && t[b] == s[b - 1]);
        }
    }
    lemma_map_of_insert(s, i, e);
    lemma_map_of_dom(s, e.timestamp);
}

/// What one directory entry contributes to the batch: a resolved rename,
/// or nothing but a warning (unreadable entry, unsupported extension, or
/// no timestamp found), which asks for confirmation.
pub enum BatchItem {
    Resolved(PlanEntry),
    Excluded,
}

/// The mathematical image of a batch contribution.
pub ghost enum BatchItemView {
    Resolved(PlanEntryView),
    Excluded,
}

impl View for BatchItem {
    type V = BatchItemView;

    open spec fn view(&self) -> BatchItemView {
        match self {
            BatchItem::Resolved(e) => BatchItemView::Resolved(e@),
            BatchItem::Excluded => BatchItemView::Excluded,
        }
    }
}

/// The mathematical state of a batch in progress.
pub ghost struct BatchModel {
    pub plan: Map<Seq<char>, PlanEntryView>,
    pub collisions: Seq<CollisionView>,
    pub needs_confirmation: bool,
    pub must_abort: bool,
}

pub open spec fn batch_init() -> BatchModel {
    BatchModel {
        plan: Map::empty(),
        collisions: Seq::empty(),
        needs_confirmation: false,
        must_abort: false,
    }
}

/// How one contribution changes the batch: an excluded file only raises
/// the confirmation flag; a resolved file joins the plan unless its
/// timestamp is already taken, which records the collision — naming both
/// files — and marks the whole batch to abort, while iteration goes on so
/// every collision is surfaced.
pub open spec fn batch_step(m: BatchModel, it: BatchItemView) -> BatchModel {
    match it {
        BatchItemView::Excluded => BatchModel { needs_confirmation: true, ..m },
        BatchItemView::Resolved(e) => {
            if m.plan.dom().contains(e.timestamp) {
                BatchModel {
                    collisions: m.collisions.push(
                        CollisionView {
                            timestamp: e.timestamp,
                            existing_path: m.plan[e.timestamp].path,
                            incoming_path: e.path,
                        },
                    ),
                    must_abort: true,
                    ..m
                }
            } else {
                BatchModel { plan: m.plan.insert(e.timestamp, e), ..m }
            }
        },
    }
}

/// A whole batch, as the fold of `batch_step` over the contributions.
pub open spec fn batch_run(m: BatchModel, items: Seq<BatchItemView>) -> BatchModel
    decreases items.len(),
{
    if items.len() == 0 {
        m
    } else {
        batch_run(batch_step(m, items[0]), items.drop_first())
    }
}

/// Every path named by some reported collision, on either side.
pub open spec fn collision_paths(m: BatchModel) -> Set<Seq<char>> {
    Set::new(
        |p: Seq<char>|
            exists|k: int|
                0 <= k < m.collisions.len() && ((#[trigger] m.collisions[k]).existing_path == p
                    || m.collisions[k].incoming_path == p),
    )
}

/// The timestamp is in the plan, and the path is its holder or already
/// stands in a reported collision.
pub open spec fn holds_key(m: BatchModel, ts: Seq<char>, p: Seq<char>) -> bool {
    m.plan.dom().contains(ts) && (m.plan[ts].path == p || collision_paths(m).contains(p))
}

proof fn lemma_step_preserves(m: BatchModel, it: BatchItemView)
    ensures
        m.must_abort ==> batch_step(m, it).must_abort,
        forall|p: Seq<char>|
            collision_paths(m).contains(p) ==> collision_paths(batch_step(m, it)).contains(p),
        forall|ts: Seq<char>, p: Seq<char>|
            holds_key(m, ts, p) ==> holds_key(batch_step(m, it), ts, p),
{
    let m1 = batch_step(m, it);
    assert forall|p: Seq<char>| collision_paths(m).contains(p) implies collision_paths(
        m1,
    ).contains(p) by {
        let k = choose|k: int|
            0 <= k < m.collisions.len() && ((#[trigger] m.collisions[k]).existing_path == p
                || m.collisions[k].incoming_path == p);
        assert(m1.collisions[k] == m.collisions[k]);
    }
    assert forall|ts: Seq<char>, p: Seq<char>| holds_key(m, ts, p) implies holds_key(
        m1,
        ts,
        p,
    ) by {
        match it {
            BatchItemView::Excluded => {},
            BatchItemView::Resolved(e) => {
                if !m.plan.dom().contains(e.timestamp) {
                    assert(e.timestamp != ts);
                }
            },
        }
    }
}

proof fn lemma_run_preserves(m: BatchModel, items: Seq<BatchItemView>)
    ensures
        m.must_abort ==> batch_run(m, items).must_abort,
        forall|p: Seq<char>|
            collision_paths(m).contains(p) ==> collision_paths(batch_run(m, items)).contains(p),
        forall|ts: Seq<char>, p: Seq<char>|
            holds_key(m, ts, p) ==> holds_key(batch_run(m, items), ts, p),
    decreases items.len(),
{
    if items.len() > 0 {
        lemma_step_preserves(m, items[0]);
        lemma_run_preserves(batch_step(m, items[0]), items.drop_first());
    }
}

proof fn lemma_collision_reported(
    m: BatchModel,
    items: Seq<BatchItemView>,
    j: int,
    ts: Seq<char>,
    p1: Seq<char>,
)
    requires
        holds_key(m, ts, p1),
        0 <= j < items.len(),
        items[j] is Resolved,
        items[j]->Resolved_0.timestamp == ts,
    ensures
        batch_run(m, items).must_abort,
        collision_paths(batch_run(m, items)).contains(p1),
        collision_paths(batch_run(m, items)).contains(items[j]->Resolved_0.path),
    decreases j,
{
    let m1 = batch_step(m, items[0]);
    if j == 0 {
        let e = items[0]->Resolved_0;
        let k = m.collisions.len() as int;
        assert(m1.collisions[k].incoming_path == e.path);
        assert(collision_paths(m1).contains(e.path));
        if m.plan[ts].path == p1 {
            assert(m1.collisions[k].existing_path == p1);
            assert(collision_paths(m1).contains(p1));
        } else {
            lemma_step_preserves(m, items[0]);
        }
        lemma_run_preserves(m1, items.drop_first());
    } else {
        lemma_step_preserves(m, items[0]);
        lemma_collision_reported(m1, items.drop_first(), j - 1, ts, p1);
        assert(items.drop_first()[j - 1] == items[j]);
    }
}

/// For any two files whose resolved canonical timestamps are equal, the
/// finished batch is marked to abort — the executor is then handed
/// nothing — and both files' paths appear among the reported collisions,
/// whatever else the batch holds.
pub proof fn lemma_duplicate_timestamps_abort(
    m0: BatchModel,
    items: Seq<BatchItemView>,
    i: int,
    j: int,
)
    requires
        0 <= i < j < items.len(),
        items[i] is Resolved,
        items[j] is Resolved,
        items[i]->Resolved_0.timestamp == items[j]->Resolved_0.timestamp,
    ensures
        batch_run(m0, items).must_abort,
        collision_paths(batch_run(m0, items)).contains(items[i]->Resolved_0.path),
        collision_paths(batch_run(m0, items)).contains(items[j]->Resolved_0.path),
    decreases i,
{
    let m1 = batch_step(m0, items[0]);
    if i == 0 {
        let e1 = items[0]->Resolved_0;
        if m0.plan.dom().contains(e1.timestamp) {
            let k = m0.collisions.len() as int;
            assert(m1.collisions[k].incoming_path == e1.path);
            assert(collision_paths(m1).contains(e1.path));
        }
        assert(holds_key(m1, e1.timestamp, e1.path));
        lemma_collision_reported(m1, items.drop_first(), j - 1, e1.timestamp, e1.path);
        assert(items.drop_first()[j - 1] == items[j]);
    } else {
        lemma_duplicate_timestamps_abort(m1, items.drop_first(), i - 1, j - 1);
        assert(items.drop_first()[i - 1] == items[i]);
        assert(items.drop_first()[j - 1] == items[j]);
    }
}

/// The batch accumulator: the plan so far, every collision found so far,
/// and the two batch-wide flags.
pub struct Batch {
    plan: RenamePlan,
    collisions: Vec<Collision>,
    needs_confirmation: bool,
    must_abort: bool,
}

impl View for Batch {
    type V = BatchModel;

    closed spec fn view(&self) -> BatchModel {
        BatchModel {
            plan: self.plan@,
            collisions: self.collisions@.map_values(|c: Collision| c@),
            needs_confirmation: self.needs_confirmation,
            must_abort: self.must_abort,
        }
    }
}

impl Batch {
    pub closed spec fn wf(&self) -> bool {
        self.plan.wf()
    }

    pub fn new() -> (r: Batch)
        ensures
            r.wf(),
            r@ =~= batch_init(),
    {
        let r = Batch {
            plan: RenamePlan::new(),
            collisions: Vec::new(),
            needs_confirmation: false,
            must_abort: false,
        };
        proof {
            assert(r@.collisions =~= batch_init().collisions);
            assert(r@.plan =~= batch_init().plan);
        }
        r
    }

    /// Folds one file's contribution into the batch.
    pub fn record(&mut self, item: BatchItem)
        requires
            old(self).wf(),
        ensures
            final(self).wf(),
            final(self)@ == batch_step(old(self)@, item@),
    {
        match item {
            BatchItem::Excluded => {
                self.needs_confirmation = true;
            },
            BatchItem::Resolved(e) => {
                let ts = e.timestamp.clone();
                let path = e.path.clone();
                let ghost pre = self@;
                match self.plan.insert(e) {
                    Ok(_) => {
                        proof {
                            assert(self@.plan == batch_step(pre, item@).plan);
                        }
                    },
                    Err(existing) => {
                        let ghost precol = self.collisions@;
                        self.collisions.push(
                            Collision { timestamp: ts, existing_path: existing, incoming_path: path },
                        );
                        self.must_abort = true;
                        proof {
                            assert(self@.collisions =~= batch_step(pre, item@).collisions);
                        }
                    },
                }
            },
        }
    }

    /// Whether any warning accumulated, so the operator must confirm.
    pub fn needs_confirmation(&self) -> (r: bool)
        ensures
            r == self@.needs_confirmation,
    {
        self.needs_confirmation
    }

    /// Whether a duplicate timestamp was found, which forbids all renames.
    pub fn must_abort(&self) -> (r: bool)
        ensures
            r == self@.must_abort,
    {
        self.must_abort
    }

    /// Every collision found, for reporting.
    pub fn collisions(&self) -> (r: &Vec<Collision>)
        ensures
            r@.map_values(|c: Collision| c@) == self@.collisions,
    {
        &self.collisions
    }

    /// The validated plan, in timestamp order, for the executor — and
    /// nothing at all when the batch is marked to abort: a colliding batch
    /// performs zero renames.
    pub fn validated_entries(&self) -> (r: Option<&Vec<PlanEntry>>)
        requires
            self.wf(),
        ensures
            match r {
                Some(v) => !self@.must_abort && plan_ordered(
                    v@.map_values(|e: PlanEntry| e@),
                ) && map_of(v@.map_values(|e: PlanEntry| e@)) == self@.plan,
                None => self@.must_abort,
            },
    {
        if self.must_abort {
            None
        } else {
            Some(self.plan.entries())
        }
    }
}

} // verus!
