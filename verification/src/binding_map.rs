//! The binding map: stable indices for the top-level data fields of one
//! template, and the record of fields that must not be read incrementally.

use vstd::prelude::*;
use crate::str_map::{
    entries_map, has_key, keys_distinct, lemma_entries_push, lemma_entry_lookup, position_of, StrMap,
};

verus! {

/// What the collector knows of one field.
#[derive(Debug, Clone, Copy, PartialEq, Eq)]
pub enum BindingMapField {
    /// The field has this index.
    Mapped(usize),
    /// The field was seen where it cannot be indexed; it stays so.
    Disabled,
}

/// The mathematical content of a [`BindingMapCollector`].
pub struct BindingMapView {
    /// The state of every field seen so far.
    pub fields: Map<Seq<char>, BindingMapField>,
    /// The index that the next new field gets.
    pub next_index: nat,
}

impl BindingMapView {
    /// The collector before any field was seen.
    pub open spec fn empty() -> BindingMapView {
        BindingMapView { fields: Map::empty(), next_index: 0 }
    }

    /// `field` has an index.
    pub open spec fn is_mapped(self, field: Seq<char>) -> bool {
        self.fields.contains_key(field) && self.fields[field] is Mapped
    }

    /// `field` was disabled.
    pub open spec fn is_disabled(self, field: Seq<char>) -> bool {
        self.fields.contains_key(field) && self.fields[field] is Disabled
    }

    /// The index that a request for `field` yields: the one it has, the next
    /// free one if the field is new, none if it is disabled.
    pub open spec fn index_for(self, field: Seq<char>) -> Option<usize> {
        if !self.fields.contains_key(field) {
            Some(self.next_index as usize)
        } else {
            match self.fields[field] {
                BindingMapField::Mapped(i) => Some(i),
                BindingMapField::Disabled => None,
            }
        }
    }

    /// The collector after a request for `field`.
    pub open spec fn add_field(self, field: Seq<char>) -> BindingMapView {
        if self.fields.contains_key(field) {
            self
        } else {
            BindingMapView {
                fields: self.fields.insert(
                    field,
                    BindingMapField::Mapped(self.next_index as usize),
                ),
                next_index: self.next_index + 1,
            }
        }
    }

    /// The collector after `field` was disabled.
    pub open spec fn disable_field(self, field: Seq<char>) -> BindingMapView {
        BindingMapView {
            fields: self.fields.insert(field, BindingMapField::Disabled),
            next_index: self.next_index,
        }
    }

    /// The fields that have an index, each with its index.
    pub open spec fn mapped(self) -> Map<Seq<char>, usize> {
        Map::new(|k: Seq<char>| self.is_mapped(k), |k: Seq<char>| self.fields[k]->Mapped_0)
    }

    /// Every index handed out lies below `next_index`, which fits the machine,
    /// and no two fields share an index.
    pub open spec fn valid(self) -> bool {
        &&& self.next_index <= usize::MAX
        &&& forall|k: Seq<char>| #[trigger]
            self.is_mapped(k) ==> self.fields[k]->Mapped_0 < self.next_index
        &&& forall|j: Seq<char>, k: Seq<char>|
            #![trigger self.is_mapped(j), self.is_mapped(k)]
            self.is_mapped(j) && self.is_mapped(k) && j != k ==> self.fields[j]->Mapped_0
                != self.fields[k]->Mapped_0
    }
}

/// A request keeps a valid collector valid, as long as an index is left.
pub proof fn lemma_add_field_valid(v: BindingMapView, field: Seq<char>)
    requires
        v.valid(),
        v.fields.contains_key(field) || v.next_index < usize::MAX,
    ensures
        v.add_field(field).valid(),
{
    let w = v.add_field(field);
    if !v.fields.contains_key(field) {
        assert forall|k: Seq<char>| #[trigger] w.is_mapped(k) implies w.fields[k]->Mapped_0
            < w.next_index by {
            if k != field {
                assert(v.is_mapped(k));
            }
        }
        assert forall|j: Seq<char>, k: Seq<char>|
            #![trigger w.is_mapped(j), w.is_mapped(k)]
            w.is_mapped(j) && w.is_mapped(k) && j != k implies w.fields[j]->Mapped_0
            != w.fields[k]->Mapped_0 by {
            if j != field {
                assert(v.is_mapped(j));
            }
            if k != field {
                assert(v.is_mapped(k));
            }
        }
    }
}

/// Disabling a field keeps a valid collector valid.
pub proof fn lemma_disable_field_valid(v: BindingMapView, field: Seq<char>)
    requires
        v.valid(),
    ensures
        v.disable_field(field).valid(),
{
    let w = v.disable_field(field);
    assert forall|k: Seq<char>| #[trigger] w.is_mapped(k) implies w.fields[k]->Mapped_0
        < w.next_index by {
        assert(v.is_mapped(k));
    }
    assert forall|j: Seq<char>, k: Seq<char>|
        #![trigger w.is_mapped(j), w.is_mapped(k)]
        w.is_mapped(j) && w.is_mapped(k) && j != k implies w.fields[j]->Mapped_0
        != w.fields[k]->Mapped_0 by {
        assert(v.is_mapped(j));
        assert(v.is_mapped(k));
    }
}

/// One call on a collector.
pub enum BindingMapOp {
    /// A request for the index of a field.
    Add(Seq<char>),
    /// A field is disabled.
    Disable(Seq<char>),
}

impl BindingMapView {
    /// The collector after one call.
    pub open spec fn apply(self, op: BindingMapOp) -> BindingMapView {
        match op {
            BindingMapOp::Add(f) => self.add_field(f),
            BindingMapOp::Disable(f) => self.disable_field(f),
        }
    }

    /// The collector after a run of calls, the first of `ops` first.
    pub open spec fn apply_all(self, ops: Seq<BindingMapOp>) -> BindingMapView
        decreases ops.len(),
    {
        if ops.len() == 0 {
            self
        } else {
            self.apply_all(ops.drop_last()).apply(ops.last())
        }
    }
}

/// A second request for a field, right after the first, yields the same index
/// as the first and changes nothing.
pub proof fn law_request_idempotent(v: BindingMapView, field: Seq<char>)
    ensures
        v.add_field(field).index_for(field) == v.index_for(field),
        v.add_field(field).add_field(field) == v.add_field(field),
{
}

/// A field that has an index keeps it through any later calls: after them it
/// has the same index, unless it was disabled meanwhile.
pub proof fn law_index_stable(v: BindingMapView, field: Seq<char>, ops: Seq<BindingMapOp>)
    requires
        v.is_mapped(field),
    ensures
        v.apply_all(ops).is_disabled(field) || (v.apply_all(ops).is_mapped(field)
            && v.apply_all(ops).index_for(field) == v.index_for(field)),
    decreases ops.len(),
{
    if ops.len() > 0 {
        law_index_stable(v, field, ops.drop_last());
    }
}

/// Once a field is disabled, whatever calls follow, a request for it yields no
/// index and the field is not among the mapped ones.
pub proof fn law_disable_permanent(v: BindingMapView, field: Seq<char>, ops: Seq<BindingMapOp>)
    ensures
        v.disable_field(field).apply_all(ops).is_disabled(field),
        v.disable_field(field).apply_all(ops).index_for(field) is None,
        !v.disable_field(field).apply_all(ops).mapped().contains_key(field),
    decreases ops.len(),
{
    if ops.len() > 0 {
        law_disable_permanent(v, field, ops.drop_last());
    }
}

/// Any run of calls keeps a valid collector valid, as long as indices are left.
pub proof fn law_calls_keep_valid(v: BindingMapView, ops: Seq<BindingMapOp>)
    requires
        v.valid(),
        v.next_index + ops.len() <= usize::MAX,
    ensures
        v.apply_all(ops).valid(),
        v.apply_all(ops).next_index <= v.next_index + ops.len(),
    decreases ops.len(),
{
    if ops.len() > 0 {
        law_calls_keep_valid(v, ops.drop_last());
        let w = v.apply_all(ops.drop_last());
        match ops.last() {
            BindingMapOp::Add(f) => lemma_add_field_valid(w, f),
            BindingMapOp::Disable(f) => lemma_disable_field_valid(w, f),
        }
    }
}

/// `k` is one of the first `i` keys.
pub open spec fn seen_before(keys: Seq<Seq<char>>, i: int, k: Seq<char>) -> bool {
    exists|p: int| 0 <= p < i && keys[p] == k
}

/// Hands out indices for the data fields of one template.
#[derive(Debug)]
pub struct BindingMapCollector {
    fields: StrMap<BindingMapField>,
    next_index: usize,
}

impl View for BindingMapCollector {
    type V = BindingMapView;

    closed spec fn view(&self) -> BindingMapView {
        BindingMapView { fields: self.fields@, next_index: self.next_index as nat }
    }
}

impl BindingMapCollector {
    #[verifier::type_invariant]
    spec fn inv(&self) -> bool {
        &&& self.next_index <= self.fields.keys().len()
        &&& self@.valid()
    }

    /// A collector that has seen no field.
    pub fn new() -> (r: Self)
        ensures
            r@ == BindingMapView::empty(),
    {
        BindingMapCollector { fields: StrMap::new(), next_index: 0 }
    }

    /// Asks for the index of `field`. The first request for a field gives it
    /// the next free index, counted from 0; later requests give the same
    /// index. A disabled field has none.
    pub fn add_field(&mut self, field: &str) -> (r: Option<usize>)
        ensures
            r == old(self)@.index_for(field@),
            final(self)@ == old(self)@.add_field(field@),
            final(self)@.valid(),
    {
        proof {
            use_type_invariant(&*self);
        }
        match self.fields.get(field) {
            Some(BindingMapField::Mapped(i)) => Some(*i),
            Some(BindingMapField::Disabled) => None,
            None => {
                let mut taken = BindingMapCollector::new();
                std::mem::swap(&mut taken, self);
                let BindingMapCollector { mut fields, next_index } = taken;
                fields.insert(field.to_owned(), BindingMapField::Mapped(next_index));
                proof {
                    lemma_add_field_valid(old(self)@, field@);
                }
                *self = BindingMapCollector { fields, next_index: next_index + 1 };
                Some(next_index)
            },
        }
    }

    /// Marks `field` as disabled, whatever it was before.
    pub fn disable_field(&mut self, field: &str)
        ensures
            final(self)@ == old(self)@.disable_field(field@),
            final(self)@.valid(),
    {
        proof {
            use_type_invariant(&*self);
        }
        let mut taken = BindingMapCollector::new();
        std::mem::swap(&mut taken, self);
        let BindingMapCollector { mut fields, next_index } = taken;
        fields.insert(field.to_owned(), BindingMapField::Disabled);
        proof {
            lemma_disable_field_valid(old(self)@, field@);
        }
        *self = BindingMapCollector { fields, next_index };
    }

    /// Whether `field` has an index.
    pub fn get_field(&self, field: &str) -> (r: Option<()>)
        ensures
            r is Some <==> self@.is_mapped(field@),
    {
        match self.fields.get(field) {
            Some(BindingMapField::Mapped(_)) => Some(()),
            _ => None,
        }
    }

    /// Whether `field` was disabled.
    pub fn is_disabled(&self, field: &str) -> (r: bool)
        ensures
            r == self@.is_disabled(field@),
    {
        match self.fields.get(field) {
            Some(BindingMapField::Disabled) => true,
            _ => false,
        }
    }

    /// The fields that have an index, each once, with its index.
    pub fn list_fields(&self) -> (r: Vec<(String, usize)>)
        ensures
            keys_distinct(r@),
            entries_map(r@) == self@.mapped(),
            self@.valid(),
    {
        proof {
            use_type_invariant(self);
        }
        let mut out: Vec<(String, usize)> = Vec::new();
        let n = self.fields.len();
        let ghost keys = self.fields.keys();
        let mut i: usize = 0;
        while i < n
            invariant
                i <= n,
                n == keys.len(),
                keys == self.fields.keys(),
                self.fields.keys_match(),
                keys_distinct(out@),
                forall|j: int| 0 <= j < out@.len() ==> seen_before(keys, i as int, #[trigger] out@[j].0@),
                forall|j: int|
                    0 <= j < out@.len() ==> self@.is_mapped(#[trigger] out@[j].0@)
                        && self@.fields[out@[j].0@] == BindingMapField::Mapped(out@[j].1),
                forall|p: int|
                    0 <= p < i && self@.is_mapped(#[trigger] keys[p]) ==> has_key(out@, keys[p]),
            decreases n - i,
        {
            let key = self.fields.key_at(i);
            match self.fields.value_at(i) {
                BindingMapField::Mapped(x) => {
                    let ghost before = out@;
                    let name = key.clone();
                    proof {
                        if has_key(before, name@) {
                            let j = position_of(before, name@);
                            assert(seen_before(keys, i as int, before[j].0@));
                            let p = choose|p: int| 0 <= p < i && keys[p] == before[j].0@;
                            assert(keys[p] != keys[i as int]);
                        }
                        lemma_entries_push(before, name, *x);
                    }
                    out.push((name, *x));
                    proof {
                        assert forall|j: int| 0 <= j < out@.len() implies seen_before(
                            keys,
                            i + 1,
                            #[trigger] out@[j].0@,
                        ) by {
                            if j < before.len() {
                                assert(seen_before(keys, i as int, before[j].0@));
                                let p = choose|p: int| 0 <= p < i && keys[p] == before[j].0@;
                                assert(keys[p] == out@[j].0@);
                            } else {
                                assert(keys[i as int] == out@[j].0@);
                            }
                        }
                        assert forall|p: int|
                            0 <= p < i + 1 && self@.is_mapped(#[trigger] keys[p]) implies has_key(
                            out@,
                            keys[p],
                        ) by {
                            if p < i {
                                let j = position_of(before, keys[p]);
                                assert(out@[j].0@ == keys[p]);
                            } else {
                                assert(out@[before.len() as int].0@ == keys[p]);
                            }
                        }
                    }
                },
                BindingMapField::Disabled => {
                    proof {
                        assert forall|j: int| 0 <= j < out@.len() implies seen_before(
                            keys,
                            i + 1,
                            #[trigger] out@[j].0@,
                        ) by {
                            assert(seen_before(keys, i as int, out@[j].0@));
                            let p = choose|p: int| 0 <= p < i && keys[p] == out@[j].0@;
                            assert(keys[p] == out@[j].0@);
                        }
                    }
                },
            }
            i = i + 1;
        }
        proof {
            assert forall|k: Seq<char>| self@.mapped().contains_key(k) implies entries_map(
                out@,
            ).contains_key(k) by {
                assert(keys.contains(k));
                let p = choose|p: int| 0 <= p < keys.len() && keys[p] == k;
                assert(self@.is_mapped(keys[p]));
            }
            assert forall|k: Seq<char>| entries_map(out@).contains_key(k) implies self@.mapped().contains_key(
                k,
            ) && self@.mapped()[k] == entries_map(out@)[k] by {
                let j = position_of(out@, k);
                lemma_entry_lookup(out@, j);
            }
            assert(entries_map(out@) =~= self@.mapped());
        }
        out
    }
}

/// The fields, each with its index, that one dynamic value was found to
/// depend on.
#[derive(Debug, PartialEq)]
pub struct BindingMapKeys {
    keys: Vec<(String, usize)>,
}

impl View for BindingMapKeys {
    type V = Seq<(Seq<char>, usize)>;

    closed spec fn view(&self) -> Seq<(Seq<char>, usize)> {
        Seq::new(self.keys@.len(), |i: int| (self.keys@[i].0@, self.keys@[i].1))
    }
}

impl BindingMapKeys {
    /// An empty list of keys.
    pub fn new() -> (r: Self)
        ensures
            r@ == Seq::<(Seq<char>, usize)>::empty(),
    {
        let r = BindingMapKeys { keys: Vec::new() };
        assert(r@ =~= Seq::<(Seq<char>, usize)>::empty());
        r
    }

    /// Records that the value depends on `key`, which has `index`.
    pub fn add(&mut self, key: &str, index: usize)
        ensures
            final(self)@ == old(self)@.push((key@, index)),
    {
        self.keys.push((key.to_owned(), index));
        assert(self@ =~= old(self)@.push((key@, index)));
    }

    /// Whether none of the recorded fields has an index in `bmc` any more.
    pub fn is_empty(&self, bmc: &BindingMapCollector) -> (r: bool)
        ensures
            r == forall|i: int| 0 <= i < self@.len() ==> !bmc@.is_mapped(#[trigger] self@[i].0),
    {
        let mut i: usize = 0;
        while i < self.keys.len()
            invariant
                i <= self.keys.len(),
                self@.len() == self.keys.len(),
                forall|j: int| 0 <= j < i ==> !bmc@.is_mapped(#[trigger] self@[j].0),
            decreases self.keys.len() - i,
        {
            assert(self@[i as int].0 == self.keys@[i as int].0@);
            if bmc.get_field(self.keys[i].0.as_str()).is_some() {
                return false;
            }
            i = i + 1;
        }
        true
    }
}

} // verus!
