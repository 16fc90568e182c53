//! Canonical-order validation: the seen-list walk shared by the sum-type mode
//! and the dispatch-construct mode, and the sum-type mode itself.
//!
//! A sequence of keys is walked once; the first key that sorts strictly before
//! its predecessor is the offender, and a binary search over the sorted prefix
//! gives the position it should move to. The diagnostic names the offender and
//! the key now standing at that position.

use vstd::prelude::*;
use crate::diag::{DiagMessage, DiagView, Diagnostic, MsgView};
use crate::model::{Declaration, SumTypeDecl};
use crate::text::{
    lemma_lex_asymmetric,
    lemma_lex_irreflexive,
    lemma_lex_leq_lt_transitive,
    lemma_lex_leq_transitive,
    lemma_lex_lt_leq_transitive,
    lex_leq,
    lex_lt,
    text_copy,
    text_lt,
};

verus! {

/// Keys in non-decreasing canonical order, at every pair of positions.
pub open spec fn spec_sorted(keys: Seq<Seq<char>>) -> bool {
    forall|i: int, j: int| 0 <= i <= j < keys.len() ==> lex_leq(keys[i], keys[j])
}

/// Every key no earlier than its predecessor.
pub open spec fn spec_adj_sorted(keys: Seq<Seq<char>>) -> bool {
    forall|k: int| 0 < k < keys.len() ==> lex_leq(#[trigger] keys[k - 1], keys[k])
}

proof fn lemma_leq_chain(keys: Seq<Seq<char>>, i: int, j: int)
    requires
        spec_adj_sorted(keys),
        0 <= i <= j < keys.len(),
    ensures
        lex_leq(keys[i], keys[j]),
    decreases j - i,
{
    if i == j {
        lemma_lex_irreflexive(keys[i]);
    } else {
        lemma_leq_chain(keys, i, j - 1);
        lemma_lex_leq_transitive(keys[i], keys[j - 1], keys[j]);
    }
}

/// Pairwise order follows from the stepwise one.
pub proof fn lemma_adj_sorted_is_sorted(keys: Seq<Seq<char>>)
    requires
        spec_adj_sorted(keys),
    ensures
        spec_sorted(keys),
{
    assert forall|i: int, j: int| 0 <= i <= j < keys.len() implies lex_leq(keys[i], keys[j]) by {
        lemma_leq_chain(keys, i, j);
    }
}

/// The position of the first key that sorts strictly before its predecessor,
/// if any.
pub open spec fn spec_first_violation(keys: Seq<Seq<char>>) -> Option<int>
    decreases keys.len(),
{
    if keys.len() <= 1 {
        None
    } else {
        match spec_first_violation(keys.drop_last()) {
            Some(v) => Some(v),
            None => if lex_lt(keys[keys.len() - 1], keys[keys.len() - 2]) {
                Some(keys.len() - 1)
            } else {
                None
            },
        }
    }
}

/// What the first violation is: absent exactly when the keys are in order, and
/// otherwise a position whose key steps back while everything before it is in
/// order.
pub proof fn lemma_first_violation(keys: Seq<Seq<char>>)
    ensures
        match spec_first_violation(keys) {
            None => spec_adj_sorted(keys),
            Some(v) => {
                &&& 0 < v < keys.len()
                &&& lex_lt(keys[v], keys[v - 1])
                &&& spec_adj_sorted(keys.take(v))
            },
        },
    decreases keys.len(),
{
    if keys.len() > 1 {
        let n = keys.len() as int;
        lemma_first_violation(keys.drop_last());
        match spec_first_violation(keys.drop_last()) {
            Some(v) => {
                assert(keys.drop_last()[v] == keys[v]);
                assert(keys.drop_last()[v - 1] == keys[v - 1]);
                assert(keys.take(v) =~= keys.drop_last().take(v));
            },
            None => {
                if lex_lt(keys[n - 1], keys[n - 2]) {
                    assert(keys.take(n - 1) =~= keys.drop_last());
                } else {
                    assert forall|k: int| 0 < k < n implies lex_leq(
                        #[trigger] keys[k - 1],
                        keys[k],
                    ) by {
                        if k < n - 1 {
                            assert(lex_leq(keys.drop_last()[k - 1], keys.drop_last()[k]));
                        }
                    }
                }
            },
        }
    }
}

/// The first violation is the one the walk finds: a step back after an ordered
/// prefix.
pub proof fn lemma_first_violation_at(keys: Seq<Seq<char>>, v: int)
    requires
        0 < v < keys.len(),
        lex_lt(keys[v], keys[v - 1]),
        spec_adj_sorted(keys.take(v)),
    ensures
        spec_first_violation(keys) == Some(v),
    decreases keys.len(),
{
    if v == keys.len() - 1 {
        assert(keys.drop_last() =~= keys.take(v));
        lemma_first_violation(keys.drop_last());
        match spec_first_violation(keys.drop_last()) {
            Some(w) => {
                assert(lex_leq(keys.take(v)[w - 1], keys.take(v)[w]));
                assert(false);
            },
            None => {},
        }
    } else {
        assert(keys.drop_last().take(v) =~= keys.take(v));
        lemma_first_violation_at(keys.drop_last(), v);
    }
}

/// In-order keys have no violation.
pub proof fn lemma_sorted_no_violation(keys: Seq<Seq<char>>)
    requires
        spec_adj_sorted(keys),
    ensures
        spec_first_violation(keys) is None,
{
    lemma_first_violation(keys);
    match spec_first_violation(keys) {
        Some(v) => {
            assert(lex_leq(keys[v - 1], keys[v]));
            assert(false);
        },
        None => {},
    }
}

/// How many keys sort strictly before `key`. Over a sorted list this is the
/// insertion position a binary search reports.
pub open spec fn spec_count_lt(keys: Seq<Seq<char>>, key: Seq<char>) -> int
    decreases keys.len(),
{
    if keys.len() == 0 {
        0
    } else {
        spec_count_lt(keys.drop_last(), key) + if lex_lt(keys.last(), key) {
            1int
        } else {
            0int
        }
    }
}

/// Over a sorted list, everything before the count sorts strictly before the
/// key and nothing at or after it does.
pub proof fn lemma_count_lt_partition(keys: Seq<Seq<char>>, key: Seq<char>)
    requires
        spec_sorted(keys),
    ensures
        0 <= spec_count_lt(keys, key) <= keys.len(),
        forall|i: int| 0 <= i < spec_count_lt(keys, key) ==> lex_lt(keys[i], key),
        forall|i: int|
            spec_count_lt(keys, key) <= i < keys.len() ==> lex_leq(key, keys[i]),
    decreases keys.len(),
{
    if keys.len() > 0 {
        let n = keys.len() as int;
        let prefix = keys.drop_last();
        assert(spec_sorted(prefix)) by {
            assert forall|i: int, j: int| 0 <= i <= j < prefix.len() implies lex_leq(
                prefix[i],
                prefix[j],
            ) by {
                assert(prefix[i] == keys[i]);
                assert(prefix[j] == keys[j]);
            }
        }
        lemma_count_lt_partition(prefix, key);
        let c = spec_count_lt(prefix, key);
        let last = keys[n - 1];
        if lex_lt(last, key) {
            assert(c == n - 1) by {
                if c < n - 1 {
                    assert(lex_leq(key, prefix[c]));
                    assert(prefix[c] == keys[c]);
                    assert(lex_leq(keys[c], keys[n - 1]));
                    lemma_lex_lt_leq_transitive(last, key, keys[c]);
                    lemma_lex_lt_leq_transitive(last, keys[c], last);
                    lemma_lex_irreflexive(last);
                }
            }
            assert forall|i: int| 0 <= i < spec_count_lt(keys, key) implies lex_lt(
                #[trigger] keys[i],
                key,
            ) by {
                if i < n - 1 {
                    assert(lex_lt(prefix[i], key));
                    assert(prefix[i] == keys[i]);
                }
            }
        } else {
            assert forall|i: int| 0 <= i < spec_count_lt(keys, key) implies lex_lt(
                #[trigger] keys[i],
                key,
            ) by {
                assert(lex_lt(prefix[i], key));
                assert(prefix[i] == keys[i]);
            }
            assert forall|i: int| spec_count_lt(keys, key) <= i < n implies lex_leq(
                key,
                #[trigger] keys[i],
            ) by {
                if i < n - 1 {
                    assert(lex_leq(key, prefix[i]));
                    assert(prefix[i] == keys[i]);
                }
            }
        }
    }
}

/// One element of the walk: a comparison key and the source position of what
/// carries it.
pub struct Keyed {
    pub key: Vec<char>,
    pub loc: u64,
}

/// The keys of a walk, in order.
pub open spec fn keys_of(items: Seq<Keyed>) -> Seq<Seq<char>> {
    items.map_values(|k: Keyed| k.key@)
}

/// Binary search for the insertion position of `key` in the sorted prefix
/// `items[..hi]`.
fn lower_bound(items: &Vec<Keyed>, hi: usize, key: &Vec<char>) -> (p: usize)
    requires
        hi <= items@.len(),
        spec_sorted(keys_of(items@).take(hi as int)),
    ensures
        p <= hi,
        p as int == spec_count_lt(keys_of(items@).take(hi as int), key@),
{
    let ghost keys = keys_of(items@).take(hi as int);
    let mut lo: usize = 0;
    let mut up: usize = hi;
    while lo < up
        invariant
            lo <= up <= hi <= items@.len(),
            keys == keys_of(items@).take(hi as int),
            spec_sorted(keys),
            forall|i: int| 0 <= i < lo ==> lex_lt(keys[i], key@),
            forall|i: int| up <= i < hi ==> lex_leq(key@, keys[i]),
        decreases up - lo,
    {
        let mid = lo + (up - lo) / 2;
        if text_lt(&items[mid].key, key) {
            proof {
                assert forall|i: int| 0 <= i < mid + 1 implies lex_lt(keys[i], key@) by {
                    if i < mid {
                        lemma_lex_leq_lt_transitive(keys[i], keys[mid as int], key@);
                    }
                }
            }
            lo = mid + 1;
        } else {
            proof {
                assert forall|i: int| mid <= i < hi implies lex_leq(key@, keys[i]) by {
                    if i > mid {
                        lemma_lex_leq_transitive(key@, keys[mid as int], keys[i]);
                    }
                }
            }
            up = mid;
        }
    }
    proof {
        let c = spec_count_lt(keys, key@);
        lemma_count_lt_partition(keys, key@);
        if (lo as int) < c {
            lemma_lex_lt_leq_transitive(keys[lo as int], key@, keys[lo as int]);
            lemma_lex_irreflexive(keys[lo as int]);
        }
        if (lo as int) > c {
            lemma_lex_lt_leq_transitive(keys[c], key@, keys[c]);
            lemma_lex_irreflexive(keys[c]);
        }
    }
    lo
}

/// Walks the keys once and reports the first one that steps back, naming the
/// key at its correct insertion position; reports nothing when the keys are in
/// canonical order.
pub fn first_order_violation(items: &Vec<Keyed>) -> (r: Option<Diagnostic>)
    ensures
        match r {
            None => spec_first_violation(keys_of(items@)) is None,
            Some(d) => spec_first_violation(keys_of(items@)) matches Some(v) && {
                let keys = keys_of(items@);
                let p = spec_count_lt(keys.take(v), keys[v]);
                &&& 0 <= p < v
                &&& d@.loc == items@[v].loc
                &&& d@.message == (MsgView::ShouldSortBefore {
                    offender: keys[v],
                    earlier: keys[p],
                })
            },
        },
{
    let ghost keys = keys_of(items@);
    if items.len() == 0 {
        return None;
    }
    let mut i: usize = 1;
    while i < items.len()
        invariant
            1 <= i <= items@.len(),
            keys == keys_of(items@),
            spec_adj_sorted(keys.take(i as int)),
        decreases items@.len() - i,
    {
        if text_lt(&items[i].key, &items[i - 1].key) {
            proof {
                lemma_first_violation_at(keys, i as int);
                lemma_adj_sorted_is_sorted(keys.take(i as int));
                lemma_count_lt_partition(keys.take(i as int), keys[i as int]);
                let p = spec_count_lt(keys.take(i as int), keys[i as int]);
                if p == i as int {
                    lemma_lex_asymmetric(keys[i as int], keys[i as int - 1]);
                }
            }
            let p = lower_bound(items, i, &items[i].key);
            return Some(
                Diagnostic {
                    loc: items[i].loc,
                    message: DiagMessage::ShouldSortBefore {
                        offender: text_copy(&items[i].key),
                        earlier: text_copy(&items[p].key),
                    },
                },
            );
        }
        proof {
            assert forall|k: int| 0 < k < i + 1 implies lex_leq(
                #[trigger] keys.take(i as int + 1)[k - 1],
                keys.take(i as int + 1)[k],
            ) by {
                assert(keys.take(i as int + 1)[k - 1] == keys[k - 1]);
                assert(keys.take(i as int + 1)[k] == keys[k]);
            }
        }
        i = i + 1;
    }
    proof {
        assert(keys.take(items@.len() as int) =~= keys);
        lemma_sorted_no_violation(keys);
    }
    None
}

/// The comparison keys of a sum-type declaration: its variant names, in
/// declaration order.
pub open spec fn variant_keys(decl: SumTypeDecl) -> Seq<Seq<char>> {
    decl.variants@.map_values(|v: crate::model::Variant| v.name@)
}

/// What the sum-type mode reports of a declaration: nothing when the variants
/// are in canonical order, and otherwise exactly one diagnostic anchored at
/// the first out-of-order variant, naming it and the variant at its correct
/// insertion position.
pub open spec fn sum_type_verdict(decl: SumTypeDecl, r: Option<Diagnostic>) -> bool {
    match r {
        None => spec_first_violation(variant_keys(decl)) is None,
        Some(d) => spec_first_violation(variant_keys(decl)) matches Some(v) && {
            let keys = variant_keys(decl);
            let p = spec_count_lt(keys.take(v), keys[v]);
            &&& 0 <= p < v
            &&& d@.loc == decl.variants@[v].loc
            &&& d@.message == (MsgView::ShouldSortBefore { offender: keys[v], earlier: keys[p] })
        },
    }
}

/// Sum-type mode: checks that the variants are in canonical order and reports
/// at most one diagnostic, anchored at the first out-of-order variant. Empty
/// and single-variant declarations are trivially valid.
pub fn validate_sum_type(decl: &SumTypeDecl) -> (r: Option<Diagnostic>)
    ensures
        sum_type_verdict(*decl, r),
{
    let mut items: Vec<Keyed> = Vec::new();
    let mut i: usize = 0;
    while i < decl.variants.len()
        invariant
            i <= decl.variants@.len(),
            items@.len() == i,
            forall|j: int| 0 <= j < i ==> items@[j].loc == decl.variants@[j].loc,
            keys_of(items@) =~= variant_keys(*decl).take(i as int),
        decreases decl.variants@.len() - i,
    {
        let v = &decl.variants[i];
        items.push(Keyed { key: text_copy(&v.name), loc: v.loc });
        i = i + 1;
    }
    let r = first_order_violation(&items);
    proof {
        assert(keys_of(items@) == variant_keys(*decl)) by {
            assert(keys_of(items@) =~= variant_keys(*decl));
        }
        match r {
            None => {},
            Some(ref d) => {
                lemma_first_violation(variant_keys(*decl));
                match spec_first_violation(variant_keys(*decl)) {
                    Some(v) => {
                        assert(items@[v].loc == decl.variants@[v].loc);
                    },
                    None => {},
                }
            },
        }
    }
    r
}

/// Item-level entry of the order validator: a sum-type declaration is checked,
/// and any other declaration shape is refused with a single diagnostic at the
/// invocation site. A valid declaration passes through with no diagnostic, and
/// the declaration itself is never altered.
pub fn validate_declaration(decl: &Declaration, site: u64) -> (r: Option<Diagnostic>)
    ensures
        match decl {
            Declaration::SumType(s) => sum_type_verdict(*s, r),
            _ => r matches Some(d) && d@ == (DiagView {
                loc: site,
                message: MsgView::ExpectedSumType,
            }),
        },
{
    match decl {
        Declaration::SumType(s) => validate_sum_type(s),
        _ => Some(Diagnostic { loc: site, message: DiagMessage::ExpectedSumType }),
    }
}

} // verus!
