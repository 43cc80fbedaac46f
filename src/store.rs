//! An in-memory store of class and badge rows that enforces the schema's keys:
//! unique ids in each table, and every badge referring to an existing class.
use vstd::prelude::*;
use vstd::string::StringSliceAdditionalSpecFns;
use crate::handler::{
    base58_decoded, base58_in_range, plan_instruction, plan_of, AccountKey, BadgeRow, BadgeRowView, ClassRow,
    ClassRowView, ControlSignal, HandleError, Plan, PlanView, StorageError,
};

verus! {

pub struct StoreView {
    pub classes: Seq<ClassRowView>,
    pub badges: Seq<BadgeRowView>,
}

pub open spec fn has_class(s: StoreView, id: u64) -> bool {
    exists|i: int| 0 <= i < s.classes.len() && #[trigger] s.classes[i].id == id
}

pub open spec fn has_badge(s: StoreView, id: u64) -> bool {
    exists|i: int| 0 <= i < s.badges.len() && #[trigger] s.badges[i].id == id
}

/// Ids are unique in each table, and each badge's class exists.
pub open spec fn store_wf(s: StoreView) -> bool {
    &&& forall|i: int, j: int|
        0 <= i < j < s.classes.len() ==> #[trigger] s.classes[i].id != #[trigger] s.classes[j].id
    &&& forall|i: int, j: int|
        0 <= i < j < s.badges.len() ==> #[trigger] s.badges[i].id != #[trigger] s.badges[j].id
    &&& forall|i: int| 0 <= i < s.badges.len() ==> has_class(s, #[trigger] s.badges[i].class_id)
}

/// Inserting a class row: refused when its id is taken.
pub open spec fn insert_class_outcome(s: StoreView, row: ClassRowView) -> (StoreView, Result<(), StorageError>) {
    if has_class(s, row.id) {
        (s, Err(StorageError::DuplicateKey))
    } else {
        (StoreView { classes: s.classes.push(row), badges: s.badges }, Ok(()))
    }
}

/// Inserting a badge row: refused when its id is taken, or else when its class
/// has no row.
pub open spec fn insert_badge_outcome(s: StoreView, row: BadgeRowView) -> (StoreView, Result<(), StorageError>) {
    if has_badge(s, row.id) {
        (s, Err(StorageError::DuplicateKey))
    } else if !has_class(s, row.class_id) {
        (s, Err(StorageError::MissingClass))
    } else {
        (StoreView { classes: s.classes, badges: s.badges.push(row) }, Ok(()))
    }
}

pub open spec fn write_signal(r: Result<(), StorageError>) -> ControlSignal {
    match r {
        Ok(()) => ControlSignal::Continue,
        Err(e) => ControlSignal::Abort(HandleError::Storage(e)),
    }
}

/// Carrying out a plan: skips and aborts leave the store as it is; a write that
/// storage refuses aborts with storage's error.
pub open spec fn apply_outcome(s: StoreView, p: PlanView) -> (StoreView, ControlSignal) {
    match p {
        PlanView::Skip => (s, ControlSignal::Skip),
        PlanView::Abort(e) => (s, ControlSignal::Abort(e)),
        PlanView::InsertClass(row) => {
            let (s2, r) = insert_class_outcome(s, row);
            (s2, write_signal(r))
        },
        PlanView::InsertBadge(row) => {
            let (s2, r) = insert_badge_outcome(s, row);
            (s2, write_signal(r))
        },
    }
}

/// Handling the decoded bytes of an instruction against a store.
pub open spec fn handle_outcome(s: StoreView, data: Seq<u8>, accounts: Seq<AccountKey>) -> (StoreView, ControlSignal) {
    apply_outcome(s, plan_of(data, accounts))
}

/// Class and badge rows, held in insertion order.
pub struct MemoryStore {
    classes: Vec<ClassRow>,
    badges: Vec<BadgeRow>,
}

impl View for MemoryStore {
    type V = StoreView;

    closed spec fn view(&self) -> StoreView {
        StoreView {
            classes: self.classes@.map_values(|r: ClassRow| r@),
            badges: self.badges@.map_values(|r: BadgeRow| r@),
        }
    }
}

impl MemoryStore {
    /// An empty store.
    pub fn new() -> (r: MemoryStore)
        ensures
            r@.classes.len() == 0,
            r@.badges.len() == 0,
    {
        MemoryStore { classes: Vec::new(), badges: Vec::new() }
    }

    /// Whether a class row with this id exists.
    pub fn contains_class(&self, id: u64) -> (r: bool)
        ensures
            r == has_class(self@, id),
    {
        let mut i: usize = 0;
        while i < self.classes.len()
            invariant
                i <= self.classes@.len(),
                self@.classes.len() == self.classes@.len(),
                forall|k: int| 0 <= k < i ==> self@.classes[k].id != id,
            decreases self.classes@.len() - i,
        {
            assert(self@.classes[i as int].id == self.classes@[i as int].id);
            if self.classes[i].id == id {
                return true;
            }
            i = i + 1;
        }
        false
    }

    /// Whether a badge row with this id exists.
    pub fn contains_badge(&self, id: u64) -> (r: bool)
        ensures
            r == has_badge(self@, id),
    {
        let mut i: usize = 0;
        while i < self.badges.len()
            invariant
                i <= self.badges@.len(),
                self@.badges.len() == self.badges@.len(),
                forall|k: int| 0 <= k < i ==> self@.badges[k].id != id,
            decreases self.badges@.len() - i,
        {
            assert(self@.badges[i as int].id == self.badges@[i as int].id);
            if self.badges[i].id == id {
                return true;
            }
            i = i + 1;
        }
        false
    }

    /// Inserts a class row unless its id is taken.
    pub fn insert_class(&mut self, row: ClassRow) -> (r: Result<(), StorageError>)
        ensures
            (final(self)@, r) == insert_class_outcome(old(self)@, row@),
    {
        if self.contains_class(row.id) {
            return Err(StorageError::DuplicateKey);
        }
        let ghost row_view = row@;
        self.classes.push(row);
        assert(self@.classes =~= old(self)@.classes.push(row_view));
        assert(self@.badges =~= old(self)@.badges);
        Ok(())
    }

    /// Inserts a badge row unless its id is taken or its class has no row.
    pub fn insert_badge(&mut self, row: BadgeRow) -> (r: Result<(), StorageError>)
        ensures
            (final(self)@, r) == insert_badge_outcome(old(self)@, row@),
    {
        if self.contains_badge(row.id) {
            return Err(StorageError::DuplicateKey);
        }
        if !self.contains_class(row.class_id) {
            return Err(StorageError::MissingClass);
        }
        let ghost row_view = row@;
        self.badges.push(row);
        assert(self@.badges =~= old(self)@.badges.push(row_view));
        assert(self@.classes =~= old(self)@.classes);
        Ok(())
    }

    /// Carries out a plan.
    pub fn apply(&mut self, plan: Plan) -> (r: ControlSignal)
        ensures
            (final(self)@, r) == apply_outcome(old(self)@, plan@),
    {
        match plan {
            Plan::Skip => ControlSignal::Skip,
            Plan::Abort(e) => ControlSignal::Abort(e),
            Plan::InsertClass(row) => match self.insert_class(row) {
                Ok(()) => ControlSignal::Continue,
                Err(e) => ControlSignal::Abort(HandleError::Storage(e)),
            },
            Plan::InsertBadge(row) => match self.insert_badge(row) {
                Ok(()) => ControlSignal::Continue,
                Err(e) => ControlSignal::Abort(HandleError::Storage(e)),
            },
        }
    }
}

/// Handles an instruction whose data is base58 text against a store: plans it,
/// then carries out the plan.
pub fn handle_instruction(store: &mut MemoryStore, data: &str, accounts: &Vec<AccountKey>) -> (r: ControlSignal)
    ensures
        base58_decoded(data@) is None ==> r is Skip && final(store)@ == old(store)@,
        !base58_in_range(data.spec_bytes()) ==> r is Skip && final(store)@ == old(store)@,
        base58_in_range(data.spec_bytes()) ==> (base58_decoded(data@) matches Some(b) ==> (
        final(store)@, r) == handle_outcome(old(store)@, b, accounts@)),
{
    let plan = plan_instruction(data, accounts);
    store.apply(plan)
}

/// Every insertion keeps the store's keys consistent.
pub proof fn lemma_apply_keeps_wf(s: StoreView, p: PlanView)
    requires
        store_wf(s),
    ensures
        store_wf(apply_outcome(s, p).0),
{
    let s2 = apply_outcome(s, p).0;
    match p {
        PlanView::InsertClass(row) => {
            if !has_class(s, row.id) {
                assert forall|i: int| 0 <= i < s2.badges.len() implies has_class(
                    s2,
                    #[trigger] s2.badges[i].class_id,
                ) by {
                    let c = s.badges[i].class_id;
                    let k = choose|k: int| 0 <= k < s.classes.len() && #[trigger] s.classes[k].id == c;
                    assert(s2.classes[k].id == c);
                }
            }
        },
        PlanView::InsertBadge(row) => {
            if !has_badge(s, row.id) && has_class(s, row.class_id) {
                assert forall|i: int| 0 <= i < s2.badges.len() implies has_class(
                    s2,
                    #[trigger] s2.badges[i].class_id,
                ) by {
                    assert(s2.classes == s.classes);
                    if i < s.badges.len() {
                        assert(s2.badges[i] == s.badges[i]);
                        assert(has_class(s, s.badges[i].class_id));
                    } else {
                        assert(s2.badges[i] == row);
                    }
                    let c = s2.badges[i].class_id;
                    let k = choose|k: int| 0 <= k < s.classes.len() && #[trigger] s.classes[k].id == c;
                    assert(s2.classes[k].id == c);
                }
            }
        },
        _ => {},
    }
}

/// A badge whose class has no row is refused: the store is left as it was and the
/// instruction aborts with a storage error, the missing class unless the badge's
/// id was already taken.
pub proof fn lemma_orphan_badge_aborts(s: StoreView, row: BadgeRowView)
    requires
        !has_class(s, row.class_id),
    ensures
        apply_outcome(s, PlanView::InsertBadge(row)).0 == s,
        apply_outcome(s, PlanView::InsertBadge(row)).1 matches ControlSignal::Abort(
            HandleError::Storage(_),
        ),
        !has_badge(s, row.id) ==> apply_outcome(s, PlanView::InsertBadge(row)).1
            == ControlSignal::Abort(HandleError::Storage(StorageError::MissingClass)),
{
}

/// Handling the same mint instruction a second time, right after it was stored,
/// is refused as a duplicate key.
pub proof fn lemma_duplicate_mint_rejected(s: StoreView, data: Seq<u8>, accounts: Seq<AccountKey>)
    requires
        plan_of(data, accounts) is InsertBadge,
        handle_outcome(s, data, accounts).1 is Continue,
    ensures
        ({
            let s2 = handle_outcome(s, data, accounts).0;
            handle_outcome(s2, data, accounts) == (s2, ControlSignal::Abort(
                HandleError::Storage(StorageError::DuplicateKey),
            ))
        }),
{
    let row = plan_of(data, accounts)->InsertBadge_0;
    let s2 = handle_outcome(s, data, accounts).0;
    assert(s2.badges[s2.badges.len() - 1].id == row.id);
    assert(has_badge(s2, row.id));
}

} // verus!
