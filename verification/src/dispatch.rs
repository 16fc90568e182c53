//! Dispatch-construct mode of the order validator.
//!
//! A dispatch construct is checked only when it carries the recognized
//! directive annotation, and the directive is always removed from the emitted
//! construct, valid or not. Branch keys are pattern paths joined with `::` or
//! plain binding names; exactly one catch-all branch is permitted and must
//! stand last. All of a construct's diagnostics are reported together: every
//! unsupported branch, every misplaced catch-all, and the first ordering
//! violation among the keyed branches.

use vstd::prelude::*;
use crate::diag::{push_diag, DiagMessage, DiagView, Diagnostic, MsgView};
use crate::model::{AnnotationDecl, Branch, DispatchDecl, Pattern};
use crate::order::{
    first_order_violation,
    keys_of,
    lemma_first_violation,
    spec_count_lt,
    spec_first_violation,
    Keyed,
};
use crate::text::{push_str_chars, push_text, text_copy, text_eq};

verus! {

/// The views of a list of path segments.
pub open spec fn seg_views(segs: Seq<Vec<char>>) -> Seq<Seq<char>> {
    segs.map_values(|s: Vec<char>| s@)
}

/// Path segments joined with `::`.
pub open spec fn spec_join_path(segs: Seq<Seq<char>>) -> Seq<char>
    decreases segs.len(),
{
    if segs.len() == 0 {
        Seq::empty()
    } else if segs.len() == 1 {
        segs[0]
    } else {
        spec_join_path(segs.drop_last()) + "::"@ + segs.last()
    }
}

/// Renders a pattern path as its comparison key.
pub fn join_path(segs: &Vec<Vec<char>>) -> (r: Vec<char>)
    ensures
        r@ == spec_join_path(seg_views(segs@)),
{
    let ghost sv = seg_views(segs@);
    let mut r: Vec<char> = Vec::new();
    let mut i: usize = 0;
    while i < segs.len()
        invariant
            i <= segs@.len(),
            sv == seg_views(segs@),
            r@ == spec_join_path(sv.take(i as int)),
        decreases segs@.len() - i,
    {
        if i > 0 {
            push_str_chars(&mut r, "::");
        }
        push_text(&mut r, &segs[i]);
        proof {
            assert(sv.take(i as int + 1).drop_last() =~= sv.take(i as int));
            assert(sv.take(i as int + 1).last() == sv[i as int]);
            if i == 0 {
                assert(r@ =~= sv[0]);
            }
        }
        i = i + 1;
    }
    proof {
        assert(sv.take(segs@.len() as int) =~= sv);
    }
    r
}

/// The comparison key a branch pattern offers, when it offers one: a pattern
/// path joined with `::`, or a plain binding name. The catch-all and
/// unsupported shapes offer none.
pub open spec fn spec_pattern_key(p: Pattern) -> Option<Seq<char>> {
    match p {
        Pattern::Path(segs) => Some(spec_join_path(seg_views(segs@))),
        Pattern::Binding(name) => Some(name@),
        Pattern::Wildcard => None,
        Pattern::Other => None,
    }
}

/// The keys of the first `n` branches that offer one, each with its position.
pub open spec fn spec_keyed_upto(arms: Seq<Branch>, n: int) -> Seq<(Seq<char>, u64)>
    decreases n,
{
    if n <= 0 {
        Seq::empty()
    } else {
        let rest = spec_keyed_upto(arms, n - 1);
        match spec_pattern_key(arms[n - 1].pattern) {
            Some(k) => rest.push((k, arms[n - 1].loc)),
            None => rest,
        }
    }
}

/// The keyed branches of a dispatch construct, in order.
pub open spec fn spec_keyed(arms: Seq<Branch>) -> Seq<(Seq<char>, u64)> {
    spec_keyed_upto(arms, arms.len() as int)
}

/// The diagnostics for unsupported branch patterns among the first `n`
/// branches.
pub open spec fn spec_unsupported_upto(arms: Seq<Branch>, n: int) -> Seq<DiagView>
    decreases n,
{
    if n <= 0 {
        Seq::empty()
    } else {
        let rest = spec_unsupported_upto(arms, n - 1);
        if arms[n - 1].pattern is Other {
            rest.push(DiagView { loc: arms[n - 1].loc, message: MsgView::UnsupportedPattern })
        } else {
            rest
        }
    }
}

/// A catch-all branch is misplaced when a keyed branch follows it or another
/// catch-all precedes it.
pub open spec fn spec_wild_offending(arms: Seq<Branch>, i: int) -> bool {
    &&& 0 <= i < arms.len()
    &&& arms[i].pattern is Wildcard
    &&& ((exists|j: int| i < j < arms.len() && !((#[trigger] arms[j]).pattern is Wildcard))
        || (exists|j: int| 0 <= j < i && (#[trigger] arms[j]).pattern is Wildcard))
}

/// The diagnostics for misplaced catch-all branches among the first `n`
/// branches.
pub open spec fn spec_wild_upto(arms: Seq<Branch>, n: int) -> Seq<DiagView>
    decreases n,
{
    if n <= 0 {
        Seq::empty()
    } else {
        let rest = spec_wild_upto(arms, n - 1);
        if spec_wild_offending(arms, n - 1) {
            rest.push(
                DiagView { loc: arms[n - 1].loc, message: MsgView::WildcardShouldComeLast },
            )
        } else {
            rest
        }
    }
}

/// The ordering diagnostic of the keyed branches: at most one, for the first
/// key that steps back.
pub open spec fn spec_order_diags(arms: Seq<Branch>) -> Seq<DiagView> {
    let ks = spec_keyed(arms);
    let keys = ks.map_values(|p: (Seq<char>, u64)| p.0);
    match spec_first_violation(keys) {
        None => Seq::empty(),
        Some(v) => {
            let p = spec_count_lt(keys.take(v), keys[v]);
            seq![
                DiagView {
                    loc: ks[v].1,
                    message: MsgView::ShouldSortBefore { offender: keys[v], earlier: keys[p] },
                },
            ]
        },
    }
}

/// Everything a marked dispatch construct reports: unsupported branches, then
/// misplaced catch-alls, then the ordering violation.
pub open spec fn spec_dispatch_diags(arms: Seq<Branch>) -> Seq<DiagView> {
    spec_unsupported_upto(arms, arms.len() as int) + spec_wild_upto(arms, arms.len() as int)
        + spec_order_diags(arms)
}

/// Whether some annotation carries the given name.
pub open spec fn spec_marked(anns: Seq<AnnotationDecl>, name: Seq<char>) -> bool {
    exists|i: int| 0 <= i < anns.len() && (#[trigger] anns[i]).name@ == name
}

/// The annotations with every one named `name` removed.
pub open spec fn spec_strip_upto(anns: Seq<AnnotationDecl>, name: Seq<char>, n: int) -> Seq<
    AnnotationDecl,
>
    decreases n,
{
    if n <= 0 {
        Seq::empty()
    } else {
        let rest = spec_strip_upto(anns, name, n - 1);
        if anns[n - 1].name@ == name {
            rest
        } else {
            rest.push(anns[n - 1])
        }
    }
}

/// The annotations with the directive removed.
pub open spec fn spec_strip(anns: Seq<AnnotationDecl>, name: Seq<char>) -> Seq<AnnotationDecl> {
    spec_strip_upto(anns, name, anns.len() as int)
}

/// The directive never survives stripping, whether or not diagnostics were
/// produced.
pub proof fn lemma_strip_removes_directive(anns: Seq<AnnotationDecl>, name: Seq<char>)
    ensures
        !spec_marked(spec_strip(anns, name), name),
{
    lemma_strip_upto_unmarked(anns, name, anns.len() as int);
}

proof fn lemma_strip_upto_unmarked(anns: Seq<AnnotationDecl>, name: Seq<char>, n: int)
    requires
        n <= anns.len(),
    ensures
        !spec_marked(spec_strip_upto(anns, name, n), name),
    decreases n,
{
    if n > 0 {
        lemma_strip_upto_unmarked(anns, name, n - 1);
        let rest = spec_strip_upto(anns, name, n - 1);
        let s = spec_strip_upto(anns, name, n);
        if spec_marked(s, name) {
            let i = choose|i: int| 0 <= i < s.len() && (#[trigger] s[i]).name@ == name;
            if anns[n - 1].name@ != name {
                if i < rest.len() {
                    assert(s[i] == rest[i]);
                    assert(spec_marked(rest, name));
                } else {
                    assert(s[i] == anns[n - 1]);
                }
            }
            assert(false);
        }
    }
}

/// The validator is idempotent: its output carries no directive, so stripping
/// it again changes nothing and a second run reports nothing.
pub proof fn lemma_validator_idempotent(anns: Seq<AnnotationDecl>, name: Seq<char>)
    ensures
        !spec_marked(spec_strip(anns, name), name),
        spec_strip(spec_strip(anns, name), name) == spec_strip(anns, name),
{
    lemma_strip_removes_directive(anns, name);
    lemma_strip_absent(spec_strip(anns, name), name);
}

/// Stripping an absent directive keeps the annotations exactly as they are.
pub proof fn lemma_strip_absent(anns: Seq<AnnotationDecl>, name: Seq<char>)
    requires
        !spec_marked(anns, name),
    ensures
        spec_strip(anns, name) == anns,
{
    lemma_strip_upto_absent(anns, name, anns.len() as int);
    assert(anns.take(anns.len() as int) =~= anns);
}

proof fn lemma_strip_upto_absent(anns: Seq<AnnotationDecl>, name: Seq<char>, n: int)
    requires
        !spec_marked(anns, name),
        0 <= n <= anns.len(),
    ensures
        spec_strip_upto(anns, name, n) == anns.take(n),
    decreases n,
{
    if n > 0 {
        lemma_strip_upto_absent(anns, name, n - 1);
        assert(anns[n - 1].name@ != name);
        assert(anns.take(n) =~= anns.take(n - 1).push(anns[n - 1]));
    } else {
        assert(anns.take(0) =~= Seq::<AnnotationDecl>::empty());
    }
}

/// Decides whether the construct carries the directive.
pub fn is_marked(anns: &Vec<AnnotationDecl>, name: &Vec<char>) -> (r: bool)
    ensures
        r == spec_marked(anns@, name@),
{
    let mut i: usize = 0;
    while i < anns.len()
        invariant
            i <= anns@.len(),
            forall|j: int| 0 <= j < i ==> (#[trigger] anns@[j]).name@ != name@,
        decreases anns@.len() - i,
    {
        if text_eq(&anns[i].name, name) {
            return true;
        }
        i = i + 1;
    }
    false
}

/// Removes every annotation named `directive`, keeping the rest in order.
pub fn strip_directive(anns: Vec<AnnotationDecl>, directive: &Vec<char>) -> (r: Vec<
    AnnotationDecl,
>)
    ensures
        r@ == spec_strip(anns@, directive@),
{
    let ghost orig = anns@;
    let total = anns.len();
    let mut rest = anns;
    let mut out: Vec<AnnotationDecl> = Vec::new();
    let mut i: usize = 0;
    while rest.len() > 0
        invariant
            orig.len() == total,
            i as int + rest@.len() == orig.len(),
            rest@ =~= orig.skip(i as int),
            out@ =~= spec_strip_upto(orig, directive@, i as int),
        decreases rest@.len(),
    {
        proof {
            assert(rest@[0] == orig.skip(i as int)[0]);
            assert(orig.skip(i as int)[0] == orig[i as int]);
        }
        let a = rest.remove(0);
        proof {
            assert(rest@ =~= orig.skip(i as int + 1));
        }
        if text_eq(&a.name, directive) {
        } else {
            out.push(a);
        }
        i = i + 1;
    }
    proof {
        assert(i as int == orig.len());
    }
    out
}

/// Collects a diagnostic for every unsupported branch pattern, in branch
/// order.
fn collect_unsupported(arms: &Vec<Branch>, diags: &mut Vec<Diagnostic>)
    ensures
        final(diags).deep_view() == old(diags).deep_view() + spec_unsupported_upto(
            arms@,
            arms@.len() as int,
        ),
{
    let ghost base = diags.deep_view();
    let mut i: usize = 0;
    proof {
        assert(diags.deep_view() =~= base + spec_unsupported_upto(arms@, 0));
    }
    while i < arms.len()
        invariant
            i <= arms@.len(),
            base == old(diags).deep_view(),
            diags.deep_view() =~= base + spec_unsupported_upto(arms@, i as int),
        decreases arms@.len() - i,
    {
        match &arms[i].pattern {
            Pattern::Other => {
                push_diag(
                    diags,
                    Diagnostic { loc: arms[i].loc, message: DiagMessage::UnsupportedPattern },
                );
            },
            _ => {},
        }
        proof {
            assert(diags.deep_view() =~= base + spec_unsupported_upto(arms@, i as int + 1));
        }
        i = i + 1;
    }
}

/// The position of the last branch that is not a catch-all, if any.
fn last_non_wildcard(arms: &Vec<Branch>) -> (r: Option<usize>)
    ensures
        match r {
            None => forall|j: int|
                0 <= j < arms@.len() ==> (#[trigger] arms@[j]).pattern is Wildcard,
            Some(k) => {
                &&& (k as int) < arms@.len()
                &&& !(arms@[k as int].pattern is Wildcard)
                &&& forall|j: int|
                    k < j < arms@.len() ==> (#[trigger] arms@[j]).pattern is Wildcard
            },
        },
{
    let mut r: Option<usize> = None;
    let mut i: usize = 0;
    while i < arms.len()
        invariant
            i <= arms@.len(),
            match r {
                None => forall|j: int| 0 <= j < i ==> (#[trigger] arms@[j]).pattern is Wildcard,
                Some(k) => {
                    &&& (k as int) < i
                    &&& !(arms@[k as int].pattern is Wildcard)
                    &&& forall|j: int| k < j < i ==> (#[trigger] arms@[j]).pattern is Wildcard
                },
            },
        decreases arms@.len() - i,
    {
        match &arms[i].pattern {
            Pattern::Wildcard => {},
            _ => {
                r = Some(i);
            },
        }
        i = i + 1;
    }
    r
}

/// The position of the first catch-all branch, if any.
fn first_wildcard(arms: &Vec<Branch>) -> (r: Option<usize>)
    ensures
        match r {
            None => forall|j: int|
                0 <= j < arms@.len() ==> !((#[trigger] arms@[j]).pattern is Wildcard),
            Some(k) => {
                &&& (k as int) < arms@.len()
                &&& arms@[k as int].pattern is Wildcard
                &&& forall|j: int| 0 <= j < k ==> !((#[trigger] arms@[j]).pattern is Wildcard)
            },
        },
{
    let mut i: usize = 0;
    while i < arms.len()
        invariant
            i <= arms@.len(),
            forall|j: int| 0 <= j < i ==> !((#[trigger] arms@[j]).pattern is Wildcard),
        decreases arms@.len() - i,
    {
        match &arms[i].pattern {
            Pattern::Wildcard => {
                return Some(i);
            },
            _ => {},
        }
        i = i + 1;
    }
    None
}

/// Collects a diagnostic for every misplaced catch-all branch, in branch
/// order.
fn collect_wild(arms: &Vec<Branch>, diags: &mut Vec<Diagnostic>)
    ensures
        final(diags).deep_view() == old(diags).deep_view() + spec_wild_upto(
            arms@,
            arms@.len() as int,
        ),
{
    let last_nw = last_non_wildcard(arms);
    let first_w = first_wildcard(arms);
    let ghost base = diags.deep_view();
    let mut i: usize = 0;
    proof {
        assert(diags.deep_view() =~= base + spec_wild_upto(arms@, 0));
    }
    while i < arms.len()
        invariant
            i <= arms@.len(),
            base == old(diags).deep_view(),
            diags.deep_view() =~= base + spec_wild_upto(arms@, i as int),
            match last_nw {
                None => forall|j: int|
                    0 <= j < arms@.len() ==> (#[trigger] arms@[j]).pattern is Wildcard,
                Some(k) => {
                    &&& (k as int) < arms@.len()
                    &&& !(arms@[k as int].pattern is Wildcard)
                    &&& forall|j: int|
                        k < j < arms@.len() ==> (#[trigger] arms@[j]).pattern is Wildcard
                },
            },
            match first_w {
                None => forall|j: int|
                    0 <= j < arms@.len() ==> !((#[trigger] arms@[j]).pattern is Wildcard),
                Some(k) => {
                    &&& (k as int) < arms@.len()
                    &&& arms@[k as int].pattern is Wildcard
                    &&& forall|j: int|
                        0 <= j < k ==> !((#[trigger] arms@[j]).pattern is Wildcard)
                },
            },
        decreases arms@.len() - i,
    {
        let is_wild = match &arms[i].pattern {
            Pattern::Wildcard => true,
            _ => false,
        };
        let mut offending = false;
        if is_wild {
            match last_nw {
                Some(k) => if k > i {
                    offending = true;
                },
                None => {},
            }
            match first_w {
                Some(f) => if f < i {
                    offending = true;
                },
                None => {},
            }
        }
        proof {
            if offending {
                assert(spec_wild_offending(arms@, i as int)) by {
                    match last_nw {
                        Some(k) => if (k as int) > i as int {
                            assert(i < k < arms@.len() && !((#[trigger] arms@[
                                k as int
                            ]).pattern is Wildcard));
                        },
                        None => {},
                    }
                    match first_w {
                        Some(f) => if (f as int) < i as int {
                            assert(0 <= f < i as int && (#[trigger] arms@[
                                f as int
                            ]).pattern is Wildcard);
                        },
                        None => {},
                    }
                }
            } else {
                assert(!spec_wild_offending(arms@, i as int)) by {
                    if is_wild {
                        assert forall|j: int| i < j < arms@.len() implies (
                        #[trigger] arms@[j]).pattern is Wildcard by {
                            match last_nw {
                                None => {},
                                Some(k) => {},
                            }
                        }
                        assert forall|j: int| 0 <= j < i implies !((
                        #[trigger] arms@[j]).pattern is Wildcard) by {
                            match first_w {
                                None => {},
                                Some(f) => {},
                            }
                        }
                    }
                }
            }
        }
        if offending {
            push_diag(
                diags,
                Diagnostic { loc: arms[i].loc, message: DiagMessage::WildcardShouldComeLast },
            );
        }
        proof {
            assert(diags.deep_view() =~= base + spec_wild_upto(arms@, i as int + 1));
        }
        i = i + 1;
    }
}

/// Extracts the keyed branches in order, rendering each comparison key.
fn collect_keyed(arms: &Vec<Branch>) -> (items: Vec<Keyed>)
    ensures
        items@.map_values(|k: Keyed| (k.key@, k.loc)) == spec_keyed(arms@),
{
    let mut items: Vec<Keyed> = Vec::new();
    let mut i: usize = 0;
    proof {
        assert(items@.map_values(|k: Keyed| (k.key@, k.loc)) =~= spec_keyed_upto(arms@, 0));
    }
    while i < arms.len()
        invariant
            i <= arms@.len(),
            items@.map_values(|k: Keyed| (k.key@, k.loc)) =~= spec_keyed_upto(arms@, i as int),
        decreases arms@.len() - i,
    {
        match &arms[i].pattern {
            Pattern::Path(segs) => {
                let key = join_path(segs);
                items.push(Keyed { key, loc: arms[i].loc });
            },
            Pattern::Binding(name) => {
                items.push(Keyed { key: text_copy(name), loc: arms[i].loc });
            },
            Pattern::Wildcard => {},
            Pattern::Other => {},
        }
        proof {
            assert(items@.map_values(|k: Keyed| (k.key@, k.loc)) =~= spec_keyed_upto(
                arms@,
                i as int + 1,
            ));
        }
        i = i + 1;
    }
    proof {
        assert(items@.map_values(|k: Keyed| (k.key@, k.loc)) =~= spec_keyed(arms@));
    }
    items
}

/// Collects the ordering diagnostic of the keyed branches, if there is one.
fn collect_order(arms: &Vec<Branch>, diags: &mut Vec<Diagnostic>)
    ensures
        final(diags).deep_view() == old(diags).deep_view() + spec_order_diags(arms@),
{
    let ghost base = diags.deep_view();
    let items = collect_keyed(arms);
    let ghost ks = spec_keyed(arms@);
    let ghost keys = ks.map_values(|p: (Seq<char>, u64)| p.0);
    proof {
        assert(keys_of(items@) =~= keys);
    }
    let r = first_order_violation(&items);
    match r {
        Some(d) => {
            proof {
                lemma_first_violation(keys);
            }
            push_diag(diags, d);
            proof {
                assert(diags.deep_view() =~= base + spec_order_diags(arms@));
            }
        },
        None => {
            proof {
                assert(diags.deep_view() =~= base + spec_order_diags(arms@));
            }
        },
    }
}

/// Dispatch mode of the order validator.
///
/// The construct is checked only when it carries the directive annotation; the
/// directive is removed from the emitted construct in every case, and the
/// branches pass through unchanged. Diagnostics are computed over the
/// unchanged branches: every unsupported pattern, every misplaced catch-all,
/// and the first ordering violation among the keyed branches.
pub fn validate_dispatch(d: DispatchDecl, directive: &Vec<char>) -> (r: (
    DispatchDecl,
    Vec<Diagnostic>,
))
    ensures
        r.0.branches == d.branches,
        r.0.loc == d.loc,
        r.0.annotations@ == spec_strip(d.annotations@, directive@),
        r.1.deep_view() == if spec_marked(d.annotations@, directive@) {
            spec_dispatch_diags(d.branches@)
        } else {
            Seq::<DiagView>::empty()
        },
{
    let DispatchDecl { annotations, branches, loc } = d;
    let marked = is_marked(&annotations, directive);
    let stripped = strip_directive(annotations, directive);
    let mut diags: Vec<Diagnostic> = Vec::new();
    proof {
        assert(diags.deep_view() =~= Seq::<DiagView>::empty());
    }
    if marked {
        collect_unsupported(&branches, &mut diags);
        collect_wild(&branches, &mut diags);
        collect_order(&branches, &mut diags);
        proof {
            assert(diags.deep_view() =~= spec_dispatch_diags(branches@));
        }
    }
    (DispatchDecl { annotations: stripped, branches, loc }, diags)
}

/// A marked dispatch construct whose branches all carry supported patterns,
/// whose keys stand in canonical order, and whose only catch-all (if any)
/// stands last, draws no diagnostics at all.
pub proof fn lemma_clean_dispatch(arms: Seq<Branch>)
    requires
        forall|i: int| 0 <= i < arms.len() ==> !((#[trigger] arms[i]).pattern is Other),
        forall|i: int| 0 <= i < arms.len() - 1 ==> !((#[trigger] arms[i]).pattern is Wildcard),
        crate::order::spec_adj_sorted(
            spec_keyed(arms).map_values(|p: (Seq<char>, u64)| p.0),
        ),
    ensures
        spec_dispatch_diags(arms) == Seq::<DiagView>::empty(),
{
    lemma_no_unsupported(arms, arms.len() as int);
    lemma_no_wild_offense(arms, arms.len() as int);
    crate::order::lemma_sorted_no_violation(
        spec_keyed(arms).map_values(|p: (Seq<char>, u64)| p.0),
    );
    assert(spec_dispatch_diags(arms) =~= Seq::<DiagView>::empty());
}

proof fn lemma_no_unsupported(arms: Seq<Branch>, n: int)
    requires
        n <= arms.len(),
        forall|i: int| 0 <= i < arms.len() ==> !((#[trigger] arms[i]).pattern is Other),
    ensures
        spec_unsupported_upto(arms, n) == Seq::<DiagView>::empty(),
    decreases n,
{
    if n > 0 {
        lemma_no_unsupported(arms, n - 1);
    }
}

proof fn lemma_no_wild_offense(arms: Seq<Branch>, n: int)
    requires
        n <= arms.len(),
        forall|i: int| 0 <= i < arms.len() - 1 ==> !((#[trigger] arms[i]).pattern is Wildcard),
    ensures
        spec_wild_upto(arms, n) == Seq::<DiagView>::empty(),
    decreases n,
{
    if n > 0 {
        lemma_no_wild_offense(arms, n - 1);
        if spec_wild_offending(arms, n - 1) {
            assert(n - 1 == arms.len() - 1);
            if exists|j: int| n - 1 < j < arms.len() && !((#[trigger] arms[j]).pattern
                is Wildcard) {
                let j = choose|j: int|
                    n - 1 < j < arms.len() && !((#[trigger] arms[j]).pattern is Wildcard);
                assert(false);
            }
            if exists|j: int| 0 <= j < n - 1 && (#[trigger] arms[j]).pattern is Wildcard {
                let j = choose|j: int| 0 <= j < n - 1 && (#[trigger] arms[j]).pattern is Wildcard;
                assert(false);
            }
            assert(false);
        }
    }
}

} // verus!
