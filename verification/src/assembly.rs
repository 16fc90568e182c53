//! Runtime model of the generated builder: what the synthesized code does
//! when the generated program runs.
//!
//! Field values are opaque to the builder, which only stores and hands them
//! back: a plain or wrapped-optional field holds an optional value, a repeated
//! field accumulates a collection. Assembly succeeds exactly when every plain
//! field is set, and otherwise fails naming the first unset one in declaration
//! order.

use vstd::prelude::*;
use crate::text::text_copy;

verus! {

/// The runtime classification of one builder field.
pub enum Shape {
    Plain,
    Optional,
    Repeated,
}

/// One field of the builder: its name and runtime classification.
pub struct BuilderField {
    pub name: Vec<char>,
    pub shape: Shape,
}

/// The storage of one field: an optional value, or an accumulated collection.
pub enum Slot<V> {
    Value(Option<V>),
    List(Vec<V>),
}

/// One field of an assembled record.
pub enum FieldValue<V> {
    One(V),
    Opt(Option<V>),
    Many(Vec<V>),
}

/// The error of an assembly that found a required field unset: it names
/// exactly that field.
#[derive(Debug)]
pub struct MissingField {
    pub field: Vec<char>,
}

/// A slot's storage fits its field's classification.
pub open spec fn slot_fits<V>(shape: Shape, s: Slot<V>) -> bool {
    match shape {
        Shape::Plain => s is Value,
        Shape::Optional => s is Value,
        Shape::Repeated => s is List,
    }
}

/// An unset required field: plain, with an absent stored value.
pub open spec fn spec_unset_required<V>(
    fields: Seq<BuilderField>,
    slots: Seq<Slot<V>>,
    j: int,
) -> bool {
    &&& fields[j].shape is Plain
    &&& slots[j] matches Slot::Value(o) && o is None
}

/// The position of the first unset required field among the first `n`, if
/// any.
pub open spec fn spec_missing_upto<V>(
    fields: Seq<BuilderField>,
    slots: Seq<Slot<V>>,
    n: int,
) -> Option<int>
    decreases n,
{
    if n <= 0 {
        None
    } else {
        match spec_missing_upto(fields, slots, n - 1) {
            Some(v) => Some(v),
            None => if spec_unset_required(fields, slots, n - 1) {
                Some(n - 1)
            } else {
                None
            },
        }
    }
}

/// What the first unset required field is: absent exactly when every required
/// field is set, and otherwise the earliest unset one.
pub proof fn lemma_missing_charac<V>(fields: Seq<BuilderField>, slots: Seq<Slot<V>>, n: int)
    ensures
        match spec_missing_upto(fields, slots, n) {
            None => forall|j: int| 0 <= j < n ==> !spec_unset_required(fields, slots, j),
            Some(m) => {
                &&& 0 <= m < n
                &&& spec_unset_required(fields, slots, m)
                &&& forall|j: int| 0 <= j < m ==> !spec_unset_required(fields, slots, j)
            },
        },
    decreases n,
{
    if n > 0 {
        lemma_missing_charac(fields, slots, n - 1);
    }
}

/// The first unset required field is what a forward walk finds: an unset one
/// after a prefix with every required field set.
pub proof fn lemma_missing_found<V>(
    fields: Seq<BuilderField>,
    slots: Seq<Slot<V>>,
    m: int,
    n: int,
)
    requires
        0 <= m < n,
        spec_unset_required(fields, slots, m),
        forall|j: int| 0 <= j < m ==> !spec_unset_required(fields, slots, j),
    ensures
        spec_missing_upto(fields, slots, n) == Some(m),
    decreases n,
{
    if n - 1 > m {
        lemma_missing_found(fields, slots, m, n - 1);
    } else {
        lemma_none_upto(fields, slots, m);
    }
}

/// With every required field among the first `n` set, no failure is found
/// there.
pub proof fn lemma_none_upto<V>(fields: Seq<BuilderField>, slots: Seq<Slot<V>>, n: int)
    requires
        forall|j: int| 0 <= j < n ==> !spec_unset_required(fields, slots, j),
    ensures
        spec_missing_upto(fields, slots, n) is None,
    decreases n,
{
    if n > 0 {
        lemma_none_upto(fields, slots, n - 1);
    }
}

/// What assembly emits for one field: a plain field's stored value unwrapped,
/// a wrapped-optional field's optional value unchanged, a repeated field's
/// accumulated collection unchanged.
pub open spec fn spec_assembled<V>(shape: Shape, s: Slot<V>, out: FieldValue<V>) -> bool {
    match shape {
        Shape::Plain => s matches Slot::Value(o) && o matches Some(x) && out
            matches FieldValue::One(y) && y == x,
        Shape::Optional => s matches Slot::Value(o) && out matches FieldValue::Opt(o2) && o2 == o,
        Shape::Repeated => s matches Slot::List(l) && out matches FieldValue::Many(l2) && l2@
            == l@,
    }
}

/// A builder in progress: one slot for each field.
pub struct Builder<V> {
    pub fields: Vec<BuilderField>,
    pub slots: Vec<Slot<V>>,
}

impl<V> Builder<V> {
    /// Every slot fits its field's classification.
    pub open spec fn wf(self) -> bool {
        &&& self.slots@.len() == self.fields@.len()
        &&& forall|i: int|
            0 <= i < self.fields@.len() ==> slot_fits(
                self.fields@[i].shape,
                #[trigger] self.slots@[i],
            )
    }

    /// The first unset required field of this builder, if any.
    pub open spec fn spec_first_missing(self) -> Option<int> {
        spec_missing_upto(self.fields@, self.slots@, self.fields@.len() as int)
    }

    /// The factory: every repeated field starts as an empty collection and
    /// every other field as absent.
    pub fn new(fields: Vec<BuilderField>) -> (b: Builder<V>)
        ensures
            b.wf(),
            b.fields == fields,
            forall|i: int|
                0 <= i < fields@.len() ==> match fields@[i].shape {
                    Shape::Repeated => (#[trigger] b.slots@[i]) matches Slot::List(l) && l@.len()
                        == 0,
                    _ => b.slots@[i] matches Slot::Value(o) && o is None,
                },
    {
        let mut slots: Vec<Slot<V>> = Vec::new();
        let mut i: usize = 0;
        while i < fields.len()
            invariant
                i <= fields@.len(),
                slots@.len() == i,
                forall|j: int|
                    0 <= j < i ==> match fields@[j].shape {
                        Shape::Repeated => (#[trigger] slots@[j]) matches Slot::List(l) && l@.len()
                            == 0,
                        _ => slots@[j] matches Slot::Value(o) && o is None,
                    },
            decreases fields@.len() - i,
        {
            match &fields[i].shape {
                Shape::Repeated => {
                    slots.push(Slot::List(Vec::new()));
                },
                _ => {
                    slots.push(Slot::Value(None));
                },
            }
            i = i + 1;
        }
        Builder { fields, slots }
    }

    /// Plain and wrapped-optional setter: stores the value as present; no
    /// other slot changes.
    pub fn set_value(&mut self, i: usize, v: V)
        requires
            old(self).wf(),
            i < old(self).fields@.len(),
            !(old(self).fields@[i as int].shape is Repeated),
        ensures
            final(self).wf(),
            final(self).fields == old(self).fields,
            final(self).slots@.len() == old(self).slots@.len(),
            final(self).slots@[i as int] matches Slot::Value(o) && o matches Some(x) && x == v,
            forall|j: int|
                0 <= j < old(self).slots@.len() && j != i ==> final(self).slots@[j] == old(
                    self,
                ).slots@[j],
    {
        self.slots.set(i, Slot::Value(Some(v)));
    }

    /// Bulk collection setter: replaces the whole accumulated collection.
    pub fn set_collection(&mut self, i: usize, vs: Vec<V>)
        requires
            old(self).wf(),
            i < old(self).fields@.len(),
            old(self).fields@[i as int].shape is Repeated,
        ensures
            final(self).wf(),
            final(self).fields == old(self).fields,
            final(self).slots@.len() == old(self).slots@.len(),
            final(self).slots@[i as int] matches Slot::List(l) && l@ == vs@,
            forall|j: int|
                0 <= j < old(self).slots@.len() && j != i ==> final(self).slots@[j] == old(
                    self,
                ).slots@[j],
    {
        self.slots.set(i, Slot::List(vs));
    }

    /// Element-appending setter: appends exactly one element, in call order;
    /// no other slot changes.
    pub fn append_element(&mut self, i: usize, v: V)
        requires
            old(self).wf(),
            i < old(self).fields@.len(),
            old(self).fields@[i as int].shape is Repeated,
        ensures
            final(self).wf(),
            final(self).fields == old(self).fields,
            final(self).slots@.len() == old(self).slots@.len(),
            old(self).slots@[i as int] matches Slot::List(l0) && final(self).slots@[
                i as int
            ] matches Slot::List(l) && l@ == l0@.push(v),
            forall|j: int|
                0 <= j < old(self).slots@.len() && j != i ==> final(self).slots@[j] == old(
                    self,
                ).slots@[j],
    {
        let s = self.slots.remove(i);
        let mut l = match s {
            Slot::List(l) => l,
            Slot::Value(_) => {
                proof {
                    assert(false);
                }
                Vec::new()
            },
        };
        l.push(v);
        self.slots.insert(i, Slot::List(l));
        proof {
            assert forall|j: int|
                0 <= j < old(self).slots@.len() && j != i implies self.slots@[j] == old(
                    self,
                ).slots@[j] by {}
        }
    }

    /// Assembly: plain fields must be present and are unwrapped; wrapped-
    /// optional and repeated fields pass through unchanged, absence and an
    /// empty collection both being legitimate final values. On failure the
    /// error names exactly the first unset required field in declaration
    /// order.
    pub fn build(self) -> (r: Result<Vec<FieldValue<V>>, MissingField>)
        requires
            self.wf(),
        ensures
            match r {
                Ok(out) => {
                    &&& self.spec_first_missing() is None
                    &&& out@.len() == self.fields@.len()
                    &&& forall|i: int|
                        0 <= i < self.fields@.len() ==> spec_assembled(
                            self.fields@[i].shape,
                            self.slots@[i],
                            #[trigger] out@[i],
                        )
                },
                Err(e) => self.spec_first_missing() matches Some(m) && e.field@ == self.fields@[
                    m
                ].name@,
            },
    {
        let mut i: usize = 0;
        while i < self.fields.len()
            invariant
                i <= self.fields@.len(),
                self.fields@.len() == self.slots@.len(),
                spec_missing_upto(self.fields@, self.slots@, i as int) is None,
            decreases self.fields@.len() - i,
        {
            let mut unset = false;
            match &self.fields[i].shape {
                Shape::Plain => {
                    match &self.slots[i] {
                        Slot::Value(o) => {
                            match o {
                                None => {
                                    unset = true;
                                },
                                Some(_) => {},
                            }
                        },
                        Slot::List(_) => {},
                    }
                },
                _ => {},
            }
            if unset {
                proof {
                    lemma_missing_charac(self.fields@, self.slots@, i as int);
                    lemma_missing_found(
                        self.fields@,
                        self.slots@,
                        i as int,
                        self.fields@.len() as int,
                    );
                }
                return Err(MissingField { field: text_copy(&self.fields[i].name) });
            }
            i = i + 1;
        }
        let ghost ofields = self.fields@;
        let ghost oslots = self.slots@;
        proof {
            lemma_missing_charac(ofields, oslots, ofields.len() as int);
        }
        let Builder { fields, slots } = self;
        let total = fields.len();
        let mut rest = slots;
        let mut out: Vec<FieldValue<V>> = Vec::new();
        let mut k: usize = 0;
        proof {
            assert(rest@ =~= oslots.skip(0));
        }
        while rest.len() > 0
            invariant
                total == ofields.len(),
                fields@ == ofields,
                ofields.len() == oslots.len(),
                k as int + rest@.len() == oslots.len(),
                rest@ =~= oslots.skip(k as int),
                out@.len() == k,
                spec_missing_upto(ofields, oslots, oslots.len() as int) is None,
                forall|j: int| 0 <= j < oslots.len() ==> !spec_unset_required(ofields, oslots, j),
                forall|j: int|
                    0 <= j < oslots.len() ==> slot_fits(ofields[j].shape, #[trigger] oslots[j]),
                forall|j: int|
                    0 <= j < k ==> spec_assembled(ofields[j].shape, oslots[j], #[trigger] out@[j]),
            decreases rest@.len(),
        {
            proof {
                assert(rest@[0] == oslots.skip(k as int)[0]);
                assert(oslots.skip(k as int)[0] == oslots[k as int]);
                assert(!spec_unset_required(ofields, oslots, k as int));
                assert(slot_fits(ofields[k as int].shape, oslots[k as int]));
            }
            let s = rest.remove(0);
            proof {
                assert(rest@ =~= oslots.skip(k as int + 1));
            }
            match &fields[k].shape {
                Shape::Plain => {
                    match s {
                        Slot::Value(o) => {
                            match o {
                                Some(x) => {
                                    out.push(FieldValue::One(x));
                                },
                                None => {
                                    proof {
                                        assert(false);
                                    }
                                },
                            }
                        },
                        Slot::List(_) => {
                            proof {
                                assert(false);
                            }
                        },
                    }
                },
                Shape::Optional => {
                    match s {
                        Slot::Value(o) => {
                            out.push(FieldValue::Opt(o));
                        },
                        Slot::List(_) => {
                            proof {
                                assert(false);
                            }
                        },
                    }
                },
                Shape::Repeated => {
                    match s {
                        Slot::List(l) => {
                            out.push(FieldValue::Many(l));
                        },
                        Slot::Value(_) => {
                            proof {
                                assert(false);
                            }
                        },
                    }
                },
            }
            k = k + 1;
        }
        Ok(out)
    }
}

/// A builder whose required fields are all set assembles successfully: with
/// every plain field present, nothing is missing, so assembly yields exactly
/// the record built directly from the stored field values.
pub proof fn lemma_full_builder_assembles<V>(b: Builder<V>)
    requires
        b.wf(),
        forall|i: int|
            0 <= i < b.fields@.len() ==> ((#[trigger] b.fields@[i]).shape is Plain ==> (b.slots@[
                i
            ] matches Slot::Value(o) && o is Some)),
    ensures
        b.spec_first_missing() is None,
{
    assert forall|j: int| 0 <= j < b.fields@.len() implies !spec_unset_required(
        b.fields@,
        b.slots@,
        j,
    ) by {}
    lemma_none_upto(b.fields@, b.slots@, b.fields@.len() as int);
}

/// An assembly failure always names a required (plain) field: wrapped-optional
/// and repeated fields never block assembly, whether set or not.
pub proof fn lemma_missing_is_required<V>(b: Builder<V>)
    requires
        b.spec_first_missing() matches Some(m),
    ensures
        b.spec_first_missing() matches Some(m) && 0 <= m < b.fields@.len() && b.fields@[
            m
        ].shape is Plain,
{
    lemma_missing_charac(b.fields@, b.slots@, b.fields@.len() as int);
}

/// The failure names exactly the first unset required field in declaration
/// order: an unset required field behind it is never reported.
pub proof fn lemma_first_unset_reported<V>(b: Builder<V>, m: int)
    requires
        0 <= m < b.fields@.len(),
        spec_unset_required(b.fields@, b.slots@, m),
        forall|j: int| 0 <= j < m ==> !spec_unset_required(b.fields@, b.slots@, j),
    ensures
        b.spec_first_missing() == Some(m),
{
    lemma_missing_found(b.fields@, b.slots@, m, b.fields@.len() as int);
}

} // verus!
