use vstd::prelude::*;

use crate::function::{
    occurrences, reloaded, subscribers, FunctionRegistry, FunctionView,
};

verus! {

/// A subject that a list holds occurs in it at least once.
pub proof fn lemma_listed_subject_occurs(subjects: Seq<Seq<char>>, s: Seq<char>)
    requires
        subjects.contains(s),
    ensures
        occurrences(subjects, s) >= 1,
    decreases subjects.len(),
{
    let i = choose|i: int| 0 <= i < subjects.len() && subjects[i] == s;
    if subjects.last() != s {
        assert(i < subjects.len() - 1);
        assert(subjects.drop_last()[i] == s);
        lemma_listed_subject_occurs(subjects.drop_last(), s);
    }
}

/// Registering a record leaves what every subject reached before in place
/// and appends the new record after it, once for each time it lists the
/// subject; so each subject it lists now ends with it.
pub proof fn lemma_register_appends(recs: Seq<FunctionView>, rec: FunctionView, s: Seq<char>)
    ensures
        subscribers(recs.push(rec), s) == subscribers(recs, s) + Seq::new(
            occurrences(rec.trigger_subjects, s),
            |_i: int| rec,
        ),
        rec.trigger_subjects.contains(s) ==> subscribers(recs.push(rec), s).len()
            > subscribers(recs, s).len() && subscribers(recs.push(rec), s).last() == rec,
{
    assert(recs.push(rec).drop_last() =~= recs);
    if rec.trigger_subjects.contains(s) {
        lemma_listed_subject_occurs(rec.trigger_subjects, s);
    }
}

/// Fan-out follows registration order: after `f1` and then `f2` are
/// registered, a subject reaches the earlier subscribers first, then `f1`,
/// then `f2`.
pub proof fn lemma_fan_out_order(recs: Seq<FunctionView>, f1: FunctionView, f2: FunctionView, x: Seq<char>)
    requires
        f1.trigger_subjects.contains(x),
        f2.trigger_subjects.contains(x),
    ensures
        ({
            let before = subscribers(recs, x);
            let after = subscribers(recs.push(f1).push(f2), x);
            let n1 = occurrences(f1.trigger_subjects, x);
            let n2 = occurrences(f2.trigger_subjects, x);
            &&& n1 >= 1 && n2 >= 1
            &&& after.len() == before.len() + n1 + n2
            &&& after.subrange(0, before.len() as int) == before
            &&& forall|i: int| before.len() <= i < before.len() + n1 ==> after[i] == f1
            &&& forall|i: int| before.len() + n1 <= i < after.len() ==> after[i] == f2
        }),
{
    lemma_register_appends(recs, f1, x);
    lemma_register_appends(recs.push(f1), f2, x);
    lemma_listed_subject_occurs(f1.trigger_subjects, x);
    lemma_listed_subject_occurs(f2.trigger_subjects, x);
    let before = subscribers(recs, x);
    let after = subscribers(recs.push(f1).push(f2), x);
    assert(after.subrange(0, before.len() as int) =~= before);
}

/// A subject that no record lists reaches nothing.
pub proof fn lemma_no_subscribers(recs: Seq<FunctionView>, s: Seq<char>)
    requires
        forall|i: int| 0 <= i < recs.len() ==> !(#[trigger] recs[i]).trigger_subjects.contains(s),
    ensures
        subscribers(recs, s).len() == 0,
    decreases recs.len(),
{
    if recs.len() > 0 {
        let rest = recs.drop_last();
        assert forall|i: int| 0 <= i < rest.len() implies !(#[trigger] rest[i]).trigger_subjects.contains(s) by {
            assert(rest[i] == recs[i]);
        }
        lemma_no_subscribers(rest, s);
        lemma_no_occurrences(recs.last().trigger_subjects, s);
    }
}

proof fn lemma_no_occurrences(subjects: Seq<Seq<char>>, s: Seq<char>)
    requires
        !subjects.contains(s),
    ensures
        occurrences(subjects, s) == 0,
    decreases subjects.len(),
{
    if subjects.len() > 0 {
        assert(subjects.last() == subjects[subjects.len() - 1]);
        assert(!subjects.drop_last().contains(s)) by {
            if subjects.drop_last().contains(s) {
                let i = choose|i: int| 0 <= i < subjects.drop_last().len() && subjects.drop_last()[i] == s;
                assert(subjects[i] == s);
            }
        }
        lemma_no_occurrences(subjects.drop_last(), s);
    }
}

/// What a registry lists loads back unchanged: `load_functions` on the
/// listing succeeds and rebuilds the same records, field for field, in the
/// same order.
pub proof fn lemma_listing_reloads(reg: &FunctionRegistry)
    requires
        reg.wf(),
    ensures
        reloaded(reg@) == Some(reg@),
{
}

} // verus!
