//! The mapping table: an exact-match map from key fingerprints to
//! runtime actions, with the generation tag used by the window-scope
//! arbiter.

use vstd::prelude::*;
use vstd::map::*;
use std::rc::Rc;
use crate::keys::{Key, KeyAction, KeyValue};
use crate::modifiers::ModifierMask;

verus! {

/// The lookup key of the mapping table: a key, a direction, and the
/// coarse modifier mask under which the mapping fires. A given
/// fingerprint has at most one binding.
#[derive(Clone, Copy, PartialEq, Eq, Structural, Debug, Hash)]
pub struct KeyFingerprint {
    pub key: Key,
    pub value: KeyValue,
    pub modifiers: ModifierMask,
}

/// An opaque handle to a host-language callable. The driver that
/// embeds the engine keeps the table from handles to real callables;
/// the engine only carries the handle.
#[derive(Clone, Copy, PartialEq, Eq, Structural, Debug)]
pub struct CallbackHandle {
    pub id: u64,
}

/// One step of a compiled action sequence: either a literal key event
/// to emit, or a modifier reconciliation directive
/// `(from_mask, to_mask, restore_type)`.
#[derive(Clone, Debug)]
pub enum RuntimeKeyAction {
    KeyAction(KeyAction),
    ReleaseRestoreModifiers(ModifierMask, ModifierMask, KeyValue),
}

/// What a mapping does when it fires.
#[derive(Clone, Debug)]
pub enum RuntimeAction {
    ActionSequence(Vec<RuntimeKeyAction>),
    HostCallback(CallbackHandle),
    NoOp,
}

/// A table entry: the action, and the window cycle the mapping was
/// authored under (`None` for mappings added outside any window-change
/// flow).
#[derive(Clone, Debug)]
pub struct MappingEntry {
    pub action: Rc<RuntimeAction>,
    pub cycle: Option<u64>,
}

struct MappingRow {
    from: KeyFingerprint,
    entry: MappingEntry,
}

/// The mapping table. Insertion order is irrelevant; replacing an
/// existing fingerprint is allowed; lookup is exact, with no fallback
/// to a masked or wildcarded fingerprint.
pub struct Mappings {
    rows: Vec<MappingRow>,
}

spec fn distinct_rows(rows: Seq<MappingRow>) -> bool {
    forall|i: int, j: int| 0 <= i < j < rows.len() ==> rows[i].from != rows[j].from
}

spec fn rows_map(rows: Seq<MappingRow>) -> Map<KeyFingerprint, MappingEntry>
    decreases rows.len(),
{
    if rows.len() == 0 {
        Map::empty()
    } else {
        rows_map(rows.drop_last()).insert(rows.last().from, rows.last().entry)
    }
}

proof fn lemma_rows_map_char(rows: Seq<MappingRow>)
    ensures
        forall|fp: KeyFingerprint| #[trigger]
            rows_map(rows).contains_key(fp) <==> exists|i: int|
                0 <= i < rows.len() && rows[i].from == fp,
        distinct_rows(rows) ==> forall|i: int|
            0 <= i < rows.len() ==> rows_map(rows)[(#[trigger] rows[i]).from] == rows[i].entry,
    decreases rows.len(),
{
    if rows.len() > 0 {
        lemma_rows_map_char(rows.drop_last());
        assert forall|fp: KeyFingerprint| #[trigger]
            rows_map(rows).contains_key(fp) implies exists|i: int|
            0 <= i < rows.len() && rows[i].from == fp by {
            if fp == rows.last().from {
                assert(rows[rows.len() - 1].from == fp);
            } else {
                let i = choose|i: int| 0 <= i < rows.len() - 1 && rows.drop_last()[i].from == fp;
                assert(rows[i].from == fp);
            }
        }
        assert forall|fp: KeyFingerprint|
            (exists|i: int| 0 <= i < rows.len() && rows[i].from == fp) implies #[trigger]
            rows_map(rows).contains_key(fp) by {
            let i = choose|i: int| 0 <= i < rows.len() && rows[i].from == fp;
            if i < rows.len() - 1 {
                assert(rows.drop_last()[i].from == fp);
            }
        }
        if distinct_rows(rows) {
            assert forall|i: int| 0 <= i < rows.len() implies rows_map(rows)[(#[trigger] rows[i]).from]
                == rows[i].entry by {
                if i < rows.len() - 1 {
                    assert(rows[i].from != rows.last().from);
                    assert(rows.drop_last()[i] == rows[i]);
                }
            }
        }
    }
}

impl View for Mappings {
    type V = Map<KeyFingerprint, MappingEntry>;

    closed spec fn view(&self) -> Map<KeyFingerprint, MappingEntry> {
        rows_map(self.rows@)
    }
}

impl Mappings {
    /// Internal well-formedness: each fingerprint occurs on at most
    /// one row. Constructors establish it and every method keeps it.
    pub closed spec fn wf(&self) -> bool {
        distinct_rows(self.rows@)
    }

    /// The empty table.
    pub fn new() -> (r: Mappings)
        ensures
            r.wf(),
            r@ == Map::<KeyFingerprint, MappingEntry>::empty(),
    {
        Mappings { rows: Vec::new() }
    }

    fn find_row(&self, from: &KeyFingerprint) -> (r: Option<usize>)
        ensures
            match r {
                Some(i) => 0 <= i < self.rows@.len() && self.rows@[i as int].from == *from,
                None => forall|i: int| 0 <= i < self.rows@.len() ==> self.rows@[i].from != *from,
            },
    {
        let n = self.rows.len();
        let mut i: usize = 0;
        while i < n
            invariant
                n == self.rows@.len(),
                0 <= i <= n,
                forall|j: int| 0 <= j < i ==> self.rows@[j].from != *from,
            decreases n - i,
        {
            if self.rows[i].from == *from {
                return Some(i);
            }
            i = i + 1;
        }
        None
    }

    /// Sets or overwrites the binding for `from`.
    pub fn insert(&mut self, from: KeyFingerprint, action: Rc<RuntimeAction>, cycle: Option<u64>)
        requires
            old(self).wf(),
        ensures
            final(self).wf(),
            final(self)@ == old(self)@.insert(from, MappingEntry { action, cycle }),
    {
        let entry = MappingEntry { action, cycle };
        let found = self.find_row(&from);
        match found {
            Some(i) => {
                proof {
                    lemma_rows_map_char(self.rows@);
                }
                let ghost rows0 = self.rows@;
                self.rows[i] = MappingRow { from, entry };
                proof {
                    let rows1 = self.rows@;
                    assert(forall|j: int| 0 <= j < rows1.len() ==> rows1[j].from == rows0[j].from);
                    lemma_rows_map_char(rows1);
                    assert_maps_equal!(
                        rows_map(rows1),
                        rows_map(rows0).insert(from, MappingEntry { action, cycle }),
                        fp => {
                            if rows_map(rows1).contains_key(fp) {
                                let j = choose|j: int| 0 <= j < rows1.len() && rows1[j].from == fp;
                                assert(rows0[j].from == fp);
                                if fp != from {
                                    assert(j != i);
                                    assert(rows1[j] == rows0[j]);
                                    assert(rows_map(rows1)[fp] == rows0[j].entry);
                                    assert(rows_map(rows0)[fp] == rows0[j].entry);
                                }
                            }
                            if rows_map(rows0).insert(from, MappingEntry { action, cycle }).contains_key(fp) {
                                if fp == from {
                                    assert(rows1[i as int].from == fp);
                                } else {
                                    let j = choose|j: int| 0 <= j < rows0.len() && rows0[j].from == fp;
                                    assert(rows1[j].from == fp);
                                }
                            }
                        }
                    );
                }
            }
            None => {
                let ghost rows0 = self.rows@;
                self.rows.push(MappingRow { from, entry });
                proof {
                    assert(self.rows@.drop_last() =~= rows0);
                }
            }
        }
    }

    /// Exact-match lookup: the binding inserted under `from`, and no
    /// other.
    pub fn lookup(&self, from: &KeyFingerprint) -> (r: Option<&Rc<RuntimeAction>>)
        requires
            self.wf(),
        ensures
            match r {
                Some(a) => self@.contains_key(*from) && *a == self@[*from].action,
                None => !self@.contains_key(*from),
            },
    {
        proof {
            lemma_rows_map_char(self.rows@);
        }
        let found = self.find_row(from);
        match found {
            Some(i) => Some(&self.rows[i].entry.action),
            None => None,
        }
    }

    /// Drops the binding for `from`, if any.
    pub fn remove(&mut self, from: &KeyFingerprint)
        requires
            old(self).wf(),
        ensures
            final(self).wf(),
            final(self)@ == old(self)@.remove(*from),
    {
        proof {
            lemma_rows_map_char(self.rows@);
        }
        let found = self.find_row(from);
        match found {
            Some(i) => {
                let ghost rows0 = self.rows@;
                self.rows.swap_remove(i);
                proof {
                    let rows1 = self.rows@;
                    lemma_rows_map_char(rows1);
                    assert(forall|j: int|
                        0 <= j < rows1.len() ==> exists|l: int|
                            0 <= l < rows0.len() && l != i && rows0[l] == #[trigger] rows1[j]);
                    assert_maps_equal!(
                        rows_map(rows1),
                        rows_map(rows0).remove(*from),
                        fp => {
                            if rows_map(rows1).contains_key(fp) {
                                let j = choose|j: int| 0 <= j < rows1.len() && rows1[j].from == fp;
                                let l = choose|l: int| 0 <= l < rows0.len() && l != i && rows0[l] == rows1[j];
                                assert(rows0[l].from == fp);
                                assert(rows_map(rows0)[fp] == rows0[l].entry);
                                assert(rows_map(rows1)[fp] == rows1[j].entry);
                            }
                            if rows_map(rows0).remove(*from).contains_key(fp) {
                                let l = choose|l: int| 0 <= l < rows0.len() && rows0[l].from == fp;
                                assert(l != i);
                                if l == rows0.len() - 1 {
                                    assert(rows1[i as int] == rows0[l]);
                                } else {
                                    assert(rows1[l] == rows0[l]);
                                }
                            }
                        }
                    );
                }
            }
            None => {
                proof {
                    assert(!self@.contains_key(*from));
                    assert_maps_equal!(self@, self@.remove(*from));
                }
            }
        }
    }

    /// The set of fingerprints whose binding was added outside any
    /// window-change flow.
    pub open spec fn untagged_keys(m: Map<KeyFingerprint, MappingEntry>) -> Set<KeyFingerprint> {
        Set::new(|fp: KeyFingerprint| m.contains_key(fp) && m[fp].cycle is None)
    }

    /// Drops every mapping that belongs to a window cycle, keeping the
    /// mappings added outside any window-change flow.
    pub fn clear_cycle_mappings(&mut self)
        requires
            old(self).wf(),
        ensures
            final(self).wf(),
            final(self)@ == old(self)@.restrict(Self::untagged_keys(old(self)@)),
    {
        let ghost m0 = self@;
        proof {
            lemma_rows_map_finite(self.rows@);
        }
        loop
            invariant
                self.wf(),
                self@.dom().finite(),
                forall|fp: KeyFingerprint|
                    #[trigger] self@.contains_key(fp) ==> m0.contains_key(fp) && self@[fp]
                        == m0[fp],
                forall|fp: KeyFingerprint|
                    m0.contains_key(fp) && (#[trigger] m0[fp]).cycle is None
                        ==> self@.contains_key(fp),
            ensures
                forall|fp: KeyFingerprint|
                    #[trigger] self@.contains_key(fp) ==> m0.contains_key(fp) && self@[fp]
                        == m0[fp] && self@[fp].cycle is None,
                forall|fp: KeyFingerprint|
                    m0.contains_key(fp) && (#[trigger] m0[fp]).cycle is None
                        ==> self@.contains_key(fp),
            decreases self@.dom().len(),
        {
            let tagged = self.find_tagged();
            match tagged {
                Some(fp) => {
                    proof {
                        vstd::set::axiom_set_remove_len(self@.dom(), fp);
                    }
                    self.remove(&fp);
                }
                None => {
                    break;
                }
            }
        }
        proof {
            assert_maps_equal!(
                self@,
                m0.restrict(Self::untagged_keys(m0)),
                fp => {
                    if self@.contains_key(fp) {
                        assert(m0.contains_key(fp) && self@[fp] == m0[fp]);
                    }
                }
            );
        }
    }

    /// Some fingerprint carrying a cycle tag, when one exists.
    fn find_tagged(&self) -> (r: Option<KeyFingerprint>)
        requires
            self.wf(),
        ensures
            match r {
                Some(fp) => self@.contains_key(fp) && self@[fp].cycle is Some,
                None => forall|fp: KeyFingerprint|
                    #[trigger] self@.contains_key(fp) ==> self@[fp].cycle is None,
            },
    {
        proof {
            lemma_rows_map_char(self.rows@);
        }
        let n = self.rows.len();
        let mut i: usize = 0;
        while i < n
            invariant
                self.wf(),
                n == self.rows@.len(),
                0 <= i <= n,
                forall|j: int| 0 <= j < i ==> (#[trigger] self.rows@[j]).entry.cycle is None,
            decreases n - i,
        {
            match self.rows[i].entry.cycle {
                Option::Some(_) => {
                    proof {
                        lemma_rows_map_char(self.rows@);
                    }
                    return Some(self.rows[i].from);
                }
                Option::None => {}
            }
            i = i + 1;
        }
        proof {
            lemma_rows_map_char(self.rows@);
            assert forall|fp: KeyFingerprint| #[trigger]
                self@.contains_key(fp) implies self@[fp].cycle is None by {
                let j = choose|j: int| 0 <= j < self.rows@.len() && self.rows@[j].from == fp;
                assert(self@[fp] == self.rows@[j].entry);
            }
        }
        None
    }
}

proof fn lemma_rows_map_finite(rows: Seq<MappingRow>)
    ensures
        rows_map(rows).dom().finite(),
    decreases rows.len(),
{
    if rows.len() > 0 {
        lemma_rows_map_finite(rows.drop_last());
    }
}

/// Mapping table lookup is exact: after inserting a binding under a
/// fingerprint, looking that fingerprint up yields exactly the inserted
/// binding, and every other fingerprint keeps the binding it had.
pub proof fn lemma_lookup_exact(
    m: Map<KeyFingerprint, MappingEntry>,
    fp: KeyFingerprint,
    e: MappingEntry,
)
    ensures
        m.insert(fp, e).contains_key(fp),
        m.insert(fp, e)[fp] == e,
        forall|other: KeyFingerprint|
            other != fp ==> (m.insert(fp, e).contains_key(other) <==> m.contains_key(other)),
        forall|other: KeyFingerprint|
            other != fp && m.contains_key(other) ==> m.insert(fp, e)[other] == m[other],
{
}

} // verus!
