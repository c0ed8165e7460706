//! What holds of the check of the platform: every requirement gets its result, and every result is
//! told.
use vstd::prelude::*;

use crate::autoload::file_laws::{lemma_parts, lemma_within};
use crate::commands::check_platform_reqs::{
    candidate_result, first_unmet, report_lines, requirement_json_view, result_json_view,
    result_line, result_names, result_versions, results_from, results_of, status_word,
    target_results, widest, RequirementView, ResultView, Status, Target, Verdict,
};
use crate::holding::{lemma_infix_plus, lemma_plus};
use crate::json::JsonView;
use crate::text::{byte_len, has_infix, padded};

verus! {

/// The candidate meets all that is asked.
pub open spec fn is_enough(t: Target, c: int) -> bool {
    forall|l: int| 0 <= l < t.requirements@.len() ==> #[trigger] t.verdicts@[c]@[l] is Met
}

/// Who provides what is asked for, where that is not the thing itself.
pub open spec fn provider_told(package: Seq<char>, name: Seq<char>) -> Option<Seq<char>> {
    if package == name {
        None
    } else {
        Some("provided by "@ + package)
    }
}

/// The result says that a candidate fails, and at which requirement: the first that it does not
/// meet.
pub open spec fn fails_at(t: Target, c: int, r: ResultView) -> bool {
    &&& r.name == t.name@
    &&& r.version == t.candidates@[c]@.version
    &&& r.status == Status::Failed
    &&& r.provider == provider_told(t.candidates@[c]@.package_name, t.name@)
    &&& exists|l: int|
        0 <= l < t.requirements@.len() && r.failed_requirement == Some(t.requirements@[l]@) && !(
        #[trigger] t.verdicts@[c]@[l] is Met) && (forall|k: int|
            0 <= k < l ==> #[trigger] t.verdicts@[c]@[k] is Met)
}

/// The result says that a candidate is enough.
pub open spec fn succeeds_with(t: Target, c: int, r: ResultView) -> bool {
    &&& r.name == t.name@
    &&& r.version == t.candidates@[c]@.version
    &&& r.status == Status::Success
    &&& r.failed_requirement is None
    &&& r.provider == provider_told(t.candidates@[c]@.package_name, t.name@)
}

proof fn lemma_unmet(v: Seq<Verdict>, from: int)
    requires
        0 <= from <= v.len(),
    ensures
        from <= first_unmet(v, from) <= v.len(),
        forall|l: int| from <= l < first_unmet(v, from) ==> #[trigger] v[l] is Met,
        first_unmet(v, from) < v.len() ==> !(v[first_unmet(v, from)] is Met),
    decreases v.len() - from,
{
    if from < v.len() && v[from] is Met {
        lemma_unmet(v, from + 1);
    }
}

/// The results say of one candidate after the other that it fails.
pub open spec fn all_fail(t: Target, failed: Seq<ResultView>) -> bool {
    forall|k: int|
        0 <= k < failed.len() ==> fails_at(t, k, #[trigger] failed[k]) && !is_enough(t, k)
}

proof fn lemma_one_more_fails(t: Target, failed: Seq<ResultView>, one: ResultView)
    requires
        all_fail(t, failed),
        fails_at(t, failed.len() as int, one),
        !is_enough(t, failed.len() as int),
    ensures
        all_fail(t, failed.push(one)),
{
    let more = failed.push(one);
    assert forall|k: int| 0 <= k < more.len() implies fails_at(t, k, #[trigger] more[k])
        && !is_enough(t, k) by {
        if k < failed.len() {
            assert(more[k] == failed[k]);
        }
    }
}

proof fn lemma_from(t: Target, c: int, failed: Seq<ResultView>)
    requires
        t.wf(),
        0 <= c <= t.candidates@.len(),
        failed.len() == c,
        all_fail(t, failed),
    ensures
        results_from(t, c, failed) matches Ok(r) ==> {
            ||| r.len() == 1 && exists|k: int|
                c <= k < t.candidates@.len() && #[trigger] is_enough(t, k) && succeeds_with(
                    t,
                    k,
                    r[0],
                ) && (forall|j: int| 0 <= j < k ==> !#[trigger] is_enough(t, j))
            ||| r.len() == t.candidates@.len() && all_fail(t, r)
        },
        results_from(t, c, failed) is Err ==> exists|k: int, l: int|
            c <= k < t.candidates@.len() && 0 <= l < t.requirements@.len()
                && #[trigger] t.verdicts@[k]@[l] is Invalid,
    decreases t.candidates@.len() - c,
{
    if c < t.candidates@.len() {
        let v = t.verdicts@[c]@;
        lemma_unmet(v, 0);
        let l = first_unmet(v, 0);
        if l >= v.len() {
            assert(is_enough(t, c));
            let r = results_from(t, c, failed)->Ok_0;
            assert(r[0] == candidate_result(t, c, None));
            assert(succeeds_with(t, c, r[0]));
            assert forall|j: int| 0 <= j < c implies !#[trigger] is_enough(t, j) by {
                assert(fails_at(t, j, failed[j]));
            }
        } else {
            assert(!(t.verdicts@[c]@[l] is Met));
            assert(!is_enough(t, c));
            if !(v[l] is Invalid) {
                let one = candidate_result(t, c, Some(t.requirements@[l]@));
                assert(fails_at(t, c, one));
                lemma_one_more_fails(t, failed, one);
                lemma_from(t, c + 1, failed.push(one));
            } else {
                assert(t.verdicts@[c]@[l] is Invalid);
            }
        }
    }
}

/// What is asked for and offered by nobody is missing, and said so, with the first that asks for
/// it.
pub proof fn law_what_nobody_offers_is_missing(t: Target)
    requires
        t.candidates@.len() == 0,
    ensures
        target_results(t) matches Ok(r) && r.len() == 1 && r[0].name == t.name@ && r[0].status
            == Status::Missing && r[0].provider is None && (t.requirements@.len() > 0
            ==> r[0].failed_requirement == Some(t.requirements@[0]@)),
{
}

/// What is offered comes out well with the first candidate that meets all that is asked; where no
/// candidate does, every one of them is told to fail, each at the first requirement that it does
/// not meet.
pub proof fn law_every_candidate_is_judged(t: Target)
    requires
        t.wf(),
        t.candidates@.len() > 0,
    ensures
        target_results(t) matches Ok(r) ==> {
            ||| r.len() == 1 && exists|k: int|
                0 <= k < t.candidates@.len() && #[trigger] is_enough(t, k) && succeeds_with(
                    t,
                    k,
                    r[0],
                ) && (forall|j: int| 0 <= j < k ==> !#[trigger] is_enough(t, j))
            ||| r.len() == t.candidates@.len() && all_fail(t, r)
        },
        target_results(t) is Err ==> exists|k: int, l: int|
            0 <= k < t.candidates@.len() && 0 <= l < t.requirements@.len()
                && #[trigger] t.verdicts@[k]@[l] is Invalid,
{
    lemma_from(t, 0, Seq::empty());
}

/// The results are those of all that is asked for, and no others.
pub proof fn law_everything_asked_for_has_its_results(targets: Seq<Target>, n: int, x: ResultView)
    requires
        0 <= n <= targets.len(),
    ensures
        results_of(targets, n) matches Ok(r) ==> (r.contains(x) <==> exists|i: int|
            0 <= i < n && target_results(#[trigger] targets[i])->Ok_0.contains(x)),
        results_of(targets, n) is Ok <==> forall|i: int|
            0 <= i < n ==> target_results(#[trigger] targets[i]) is Ok,
    decreases n,
{
    if n > 0 {
        law_everything_asked_for_has_its_results(targets, n - 1, x);
        if results_of(targets, n) is Ok {
            lemma_plus(
                results_of(targets, n - 1)->Ok_0,
                target_results(targets[n - 1])->Ok_0,
                x,
            );
        }
    }
}

proof fn lemma_widest(texts: Seq<Seq<char>>, n: int, k: int)
    requires
        0 <= k < n <= texts.len(),
    ensures
        widest(texts, n) >= byte_len(texts[k]),
        exists|j: int| 0 <= j < n && widest(texts, n) == byte_len(#[trigger] texts[j]),
    decreases n,
{
    if n > 1 {
        if k < n - 1 {
            lemma_widest(texts, n - 1, k);
        } else {
            lemma_widest(texts, n - 1, 0);
        }
        let j = choose|j: int| 0 <= j < n - 1 && widest(texts, n - 1) == byte_len(#[trigger] texts[j]);
        assert(widest(texts, n - 1) == byte_len(texts[j]));
        assert(widest(texts, n) == byte_len(texts[n - 1]) || widest(texts, n) == byte_len(
            texts[j],
        ));
    } else {
        assert(widest(texts, 0) == 0);
        assert(widest(texts, 1) == byte_len(texts[0]));
    }
}

/// The columns are as wide as the widest text in them.
pub proof fn law_columns_are_wide_enough(texts: Seq<Seq<char>>, k: int)
    requires
        0 <= k < texts.len(),
    ensures
        widest(texts, texts.len() as int) >= byte_len(texts[k]),
        exists|j: int|
            0 <= j < texts.len() && widest(texts, texts.len() as int) == byte_len(
                #[trigger] texts[j],
            ),
{
    lemma_widest(texts, texts.len() as int, k);
}

/// What is told of a result: the name and the version, what it fails at and the word for how it
/// comes out.
pub open spec fn told(r: ResultView, names: usize, versions: usize) -> Seq<char> {
    padded(r.name, names as nat) + " "@ + padded(r.version, versions as nat) + " "@ + padded(
        match r.failed_requirement {
            Some(q) => q.source + " "@ + q.kind + " "@ + q.target + " ("@ + q.constraint + ")"@,
            None => ""@,
        },
        48,
    ) + " "@ + (match r.status {
        Status::Success => "success"@,
        Status::Failed => "failed"@,
        Status::Missing => "missing"@,
    })
}

proof fn lemma_line(r: ResultView, names: usize, versions: usize)
    ensures
        has_infix(result_line(r, names, versions), told(r, names, versions)),
        r.provider matches Some(p) ==> has_infix(result_line(r, names, versions), p),
{
    let t = told(r, names, versions);
    lemma_infix_plus(t, t, t);
    if let Some(p) = r.provider {
        lemma_parts(t, " "@);
        lemma_parts(t + " "@, p);
        lemma_within(t + " "@ + p, t + " "@, t);
    }
}

proof fn lemma_report(v: Seq<ResultView>, n: int, k: int)
    requires
        0 <= k < n <= v.len(),
    ensures
        has_infix(
            report_lines(v, n),
            result_line(
                v[k],
                widest(result_names(v), v.len() as int),
                widest(result_versions(v), v.len() as int),
            ),
        ),
    decreases n,
{
    let names = widest(result_names(v), v.len() as int);
    let versions = widest(result_versions(v), v.len() as int);
    let head = report_lines(v, n - 1);
    let line = result_line(v[n - 1], names, versions);
    lemma_parts(head, line);
    lemma_parts(head + line, "\n"@);
    let whole = report_lines(v, n);
    if k < n - 1 {
        lemma_report(v, n - 1, k);
        let x = result_line(v[k], names, versions);
        lemma_within(head + line, head, x);
        lemma_within(whole, head + line, x);
    } else {
        lemma_within(whole, head + line, line);
    }
}

/// Every result has its line in the report, with who provides it.
pub proof fn law_every_result_has_its_line(v: Seq<ResultView>, k: int)
    requires
        0 <= k < v.len(),
    ensures
        has_infix(
            report_lines(v, v.len() as int),
            told(
                v[k],
                widest(result_names(v), v.len() as int),
                widest(result_versions(v), v.len() as int),
            ),
        ),
        v[k].provider matches Some(p) ==> has_infix(report_lines(v, v.len() as int), p),
{
    let names = widest(result_names(v), v.len() as int);
    let versions = widest(result_versions(v), v.len() as int);
    lemma_report(v, v.len() as int, k);
    lemma_line(v[k], names, versions);
    let whole = report_lines(v, v.len() as int);
    let line = result_line(v[k], names, versions);
    lemma_within(whole, line, told(v[k], names, versions));
    if let Some(p) = v[k].provider {
        lemma_within(whole, line, p);
    }
}

/// A result in JSON has every field, and so has the requirement that fails.
pub proof fn law_json_result_has_every_field(r: ResultView, q: RequirementView)
    ensures
        result_json_view(r) matches JsonView::Object(o) && {
            &&& o.contains(("name"@, JsonView::Text(r.name)))
            &&& o.contains(("version"@, JsonView::Text(r.version)))
            &&& o.contains(("status"@, JsonView::Text(status_word(r.status))))
            &&& r.failed_requirement == Some(q) ==> o.contains(
                ("failed_requirement"@, requirement_json_view(q)),
            )
            &&& r.failed_requirement is None ==> o.contains(("failed_requirement"@, JsonView::Null))
            &&& r.provider is Some ==> o.contains(("provider"@, JsonView::Text(r.provider->0)))
            &&& r.provider is None ==> o.contains(("provider"@, JsonView::Null))
        },
        requirement_json_view(q) matches JsonView::Object(o) && {
            &&& o.contains(("source"@, JsonView::Text(q.source)))
            &&& o.contains(("type"@, JsonView::Text(q.kind)))
            &&& o.contains(("target"@, JsonView::Text(q.target)))
            &&& o.contains(("constraint"@, JsonView::Text(q.constraint)))
        },
{
    let o = result_json_view(r)->Object_0;
    assert(o.len() == 5);
    assert(o[0].0 == "name"@ && o[1].0 == "version"@ && o[2].0 == "status"@);
    assert(o[3].0 == "failed_requirement"@ && o[4].0 == "provider"@);
    let p = requirement_json_view(q)->Object_0;
    assert(p.len() == 4);
    assert(p[0].0 == "source"@ && p[1].0 == "type"@ && p[2].0 == "target"@);
    assert(p[3].0 == "constraint"@);
}

} // verus!
