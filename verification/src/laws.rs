//! The library's general guarantees, stated and proved over the spec
//! functions the executable contracts are written against.
use vstd::prelude::*;

use crate::codegen::{cmp_end_label, cmp_true_label, scoped_label};
use crate::strutil::{dec_rep, lemma_dec_rep_injective, lemma_dec_rep_val};

verus! {

/// Label names are scoped: two functions with different names that each
/// define the same label name emit two distinct label symbols.
pub proof fn lemma_scoped_labels_distinct(f1: Seq<char>, f2: Seq<char>, l: Seq<char>)
    requires
        f1 != f2,
    ensures
        scoped_label(Some(f1), l) != scoped_label(Some(f2), l),
{
    let s1 = f1 + "$"@ + l;
    let s2 = f2 + "$"@ + l;
    if s1 == s2 {
        assert(s1.len() == f1.len() + "$"@.len() + l.len());
        assert(s2.len() == f2.len() + "$"@.len() + l.len());
        assert(f1.len() == f2.len());
        assert forall|i: int| 0 <= i < f1.len() implies f1[i] == f2[i] by {
            assert(s1[i] == f1[i]);
            assert(s2[i] == f2[i]);
        }
        assert(f1 =~= f2);
    }
}

/// A prefix followed by a decimal rendering is injective in the number.
proof fn lemma_prefixed_number_injective(p: Seq<char>, n1: nat, n2: nat)
    requires
        p + dec_rep(n1) == p + dec_rep(n2),
    ensures
        n1 == n2,
{
    let a = dec_rep(n1);
    let b = dec_rep(n2);
    assert((p + a).len() == p.len() + a.len());
    assert((p + b).len() == p.len() + b.len());
    assert(a.len() == b.len());
    assert forall|i: int| 0 <= i < a.len() implies a[i] == b[i] by {
        assert((p + a)[p.len() + i] == a[i]);
        assert((p + b)[p.len() + i] == b[i]);
    }
    assert(a =~= b);
    lemma_dec_rep_injective(n1, n2);
}

/// A true-path label is never a continuation label, whatever the counters:
/// the two families differ in their fixed prefix.
pub proof fn lemma_cmp_families_distinct(n1: nat, n2: nat)
    ensures
        cmp_true_label(n1) != cmp_end_label(n2),
{
    reveal_strlit("CMP_TRUE_");
    reveal_strlit("CMP_END_");
    lemma_dec_rep_val(n1);
    lemma_dec_rep_val(n2);
    let s1 = cmp_true_label(n1);
    let s2 = cmp_end_label(n2);
    assert(s1[4] == 'T');
    assert(s2[4] == 'E');
}

/// Two comparison instructions never reuse a label symbol: distinct counter
/// values mint two fully distinct label pairs, even when the instructions
/// are textually identical.
pub proof fn lemma_comparison_labels_fresh(n1: nat, n2: nat)
    requires
        n1 != n2,
    ensures
        cmp_true_label(n1) != cmp_true_label(n2),
        cmp_end_label(n1) != cmp_end_label(n2),
        cmp_true_label(n1) != cmp_end_label(n2),
        cmp_end_label(n1) != cmp_true_label(n2),
{
    if cmp_true_label(n1) == cmp_true_label(n2) {
        lemma_prefixed_number_injective("CMP_TRUE_"@, n1, n2);
    }
    if cmp_end_label(n1) == cmp_end_label(n2) {
        lemma_prefixed_number_injective("CMP_END_"@, n1, n2);
    }
    lemma_cmp_families_distinct(n1, n2);
    lemma_cmp_families_distinct(n2, n1);
}

/// Two call instructions never reuse a return-address label: distinct
/// counter values mint distinct symbols.
pub proof fn lemma_return_labels_fresh(n1: nat, n2: nat)
    requires
        n1 != n2,
    ensures
        crate::codegen::return_label(n1) != crate::codegen::return_label(n2),
{
    if crate::codegen::return_label(n1) == crate::codegen::return_label(n2) {
        lemma_prefixed_number_injective("RET_ADDRESS_CALL"@, n1, n2);
    }
}

/// Translation is deterministic: a run is a pure function of the source
/// text and the starting context, so byte-identical input with the same
/// logical source name yields byte-identical output.
pub proof fn lemma_translation_deterministic(
    s1: Seq<char>,
    n1: Seq<char>,
    s2: Seq<char>,
    n2: Seq<char>,
)
    requires
        s1 == s2,
        n1 == n2,
    ensures
        crate::spec_run(s1, n1) == crate::spec_run(s2, n2),
{
}

} // verus!
