//! What holds of the reports of an audit: every advisory and every abandoned package is in them.
use vstd::prelude::*;

use crate::autoload::file_laws::{lemma_parts, lemma_within};
use crate::commands::audit::{
    advisory_view, count_line, findings_entries, json_report, map_view, plain_abandoned,
    plain_advisories, plain_advisory, plain_findings, plain_report, replacement_entries,
    severity_of, table_abandoned, table_advisories, table_advisory, table_findings, table_report,
    total_of, LineView, SecurityAdvisory, Severity,
};
use crate::holding::{lemma_after, lemma_infix_plus, lemma_one_more};
use crate::json::{lemma_with_entry, value_of, JsonView};
use crate::lock::{opt, LockedPackage};
use crate::text::{decimal, has_infix};

verus! {

/// The findings: for each package its advisories.
pub type Findings = Seq<(Seq<char>, Seq<SecurityAdvisory>)>;

/// The text, or another where there is none.
pub open spec fn or_text(v: Option<String>, other: Seq<char>) -> Seq<char> {
    match v {
        Some(s) => s@,
        None => other,
    }
}

/// What is said of an advisory in plain text.
pub open spec fn said(a: SecurityAdvisory) -> Seq<char> {
    "Package: "@ + a.package_name@ + "\nSeverity: "@ + or_text(a.severity, ""@)
        + "\nAdvisory ID: "@ + a.advisory_id@ + "\nCVE: "@ + or_text(a.cve, "NO CVE"@)
        + "\nTitle: "@ + a.title@ + "\nURL: "@ + or_text(a.link, ""@) + "\nAffected versions: "@
        + a.affected_versions@ + "\nReported at: "@ + a.reported_at@ + "\n"@
}

/// What is said of an abandoned package.
pub open spec fn advised(p: LockedPackage) -> Seq<char> {
    match p.abandoned@ {
        JsonView::Text(t) if t.len() > 0 => "Use "@ + t + " instead"@,
        _ => "No replacement was suggested"@,
    }
}

proof fn lemma_plain_advisory(out: Seq<char>, a: SecurityAdvisory, first: bool)
    ensures
        has_infix(plain_advisory(out, a, first), out),
        has_infix(plain_advisory(out, a, first), said(a)),
{
    let t = if first {
        out
    } else {
        out + "--------\n"@
    };
    let a0 = "Package: "@;
    let a1 = a0 + a.package_name@;
    let a2 = a1 + "\nSeverity: "@;
    let a3 = a2 + or_text(a.severity, ""@);
    let a4 = a3 + "\nAdvisory ID: "@;
    let a5 = a4 + a.advisory_id@;
    let a6 = a5 + "\nCVE: "@;
    let a7 = a6 + or_text(a.cve, "NO CVE"@);
    let a8 = a7 + "\nTitle: "@;
    let a9 = a8 + a.title@;
    let a10 = a9 + "\nURL: "@;
    let a11 = a10 + or_text(a.link, ""@);
    let a12 = a11 + "\nAffected versions: "@;
    let a13 = a12 + a.affected_versions@;
    let a14 = a13 + "\nReported at: "@;
    let a15 = a14 + a.reported_at@;
    let a16 = a15 + "\n"@;
    lemma_after(t, a0, a.package_name@);
    lemma_after(t, a1, "\nSeverity: "@);
    lemma_after(t, a2, or_text(a.severity, ""@));
    lemma_after(t, a3, "\nAdvisory ID: "@);
    lemma_after(t, a4, a.advisory_id@);
    lemma_after(t, a5, "\nCVE: "@);
    lemma_after(t, a6, or_text(a.cve, "NO CVE"@));
    lemma_after(t, a7, "\nTitle: "@);
    lemma_after(t, a8, a.title@);
    lemma_after(t, a9, "\nURL: "@);
    lemma_after(t, a10, or_text(a.link, ""@));
    lemma_after(t, a11, "\nAffected versions: "@);
    lemma_after(t, a12, a.affected_versions@);
    lemma_after(t, a13, "\nReported at: "@);
    lemma_after(t, a14, a.reported_at@);
    lemma_after(t, a15, "\n"@);
    assert(said(a) == a16);
    let whole = plain_advisory(out, a, first);
    assert(whole == t + a16);
    lemma_parts(t, a16);
    lemma_parts(out, "--------\n"@);
    lemma_infix_plus(out, out, out);
    lemma_within(whole, t, out);
}

proof fn lemma_plain_advisories(
    out: Seq<char>,
    list: Seq<SecurityAdvisory>,
    n: int,
    first: bool,
    m: int,
)
    requires
        0 <= n <= list.len(),
    ensures
        has_infix(plain_advisories(out, list, n, first), out),
        0 <= m < n ==> has_infix(plain_advisories(out, list, n, first), said(list[m])),
    decreases n,
{
    lemma_infix_plus(out, out, out);
    if n > 0 {
        lemma_plain_advisories(out, list, n - 1, first, m);
        let t = plain_advisories(out, list, n - 1, first);
        let whole = plain_advisories(out, list, n, first);
        lemma_plain_advisory(t, list[n - 1], first && n == 1);
        lemma_within(whole, t, out);
        if 0 <= m < n - 1 {
            lemma_within(whole, t, said(list[m]));
        }
    }
}

proof fn lemma_plain_findings(out: Seq<char>, f: Findings, n: int, k: int, m: int)
    requires
        0 <= n <= f.len(),
    ensures
        has_infix(plain_findings(out, f, n), out),
        0 <= k < n && 0 <= m < f[k].1.len() ==> has_infix(
            plain_findings(out, f, n),
            said(f[k].1[m]),
        ),
    decreases n,
{
    lemma_infix_plus(out, out, out);
    if n > 0 {
        lemma_plain_findings(out, f, n - 1, k, m);
        let t = plain_findings(out, f, n - 1);
        let whole = plain_findings(out, f, n);
        let list = f[n - 1].1;
        lemma_plain_advisories(t, list, list.len() as int, total_of(f, n - 1) == 0, m);
        lemma_within(whole, t, out);
        if 0 <= k < n - 1 && 0 <= m < f[k].1.len() {
            lemma_within(whole, t, said(f[k].1[m]));
        }
    }
}

proof fn lemma_plain_abandoned(out: Seq<char>, packages: Seq<LockedPackage>, n: int, k: int)
    requires
        0 <= n <= packages.len(),
    ensures
        has_infix(plain_abandoned(out, packages, n), out),
        0 <= k < n ==> has_infix(
            plain_abandoned(out, packages, n),
            packages[k].name@ + " is abandoned. "@ + advised(packages[k]) + "\n"@,
        ),
    decreases n,
{
    lemma_infix_plus(out, out, out);
    if n > 0 {
        lemma_plain_abandoned(out, packages, n - 1, k);
        let t = plain_abandoned(out, packages, n - 1);
        let p = packages[n - 1];
        let x = p.name@ + " is abandoned. "@ + advised(p) + "\n"@;
        lemma_after(t, p.name@, " is abandoned. "@);
        lemma_after(t, p.name@ + " is abandoned. "@, advised(p));
        lemma_after(t, p.name@ + " is abandoned. "@ + advised(p), "\n"@);
        let whole = plain_abandoned(out, packages, n);
        assert(whole == t + x);
        lemma_parts(t, x);
        lemma_within(whole, t, out);
        if 0 <= k < n - 1 {
            lemma_within(
                whole,
                t,
                packages[k].name@ + " is abandoned. "@ + advised(packages[k]) + "\n"@,
            );
        }
    }
}

proof fn lemma_total(f: Findings, n: int, k: int)
    requires
        0 <= n <= f.len(),
    ensures
        0 <= k < n ==> total_of(f, n) >= f[k].1.len(),
        total_of(f, n) == 0 <==> forall|i: int| 0 <= i < n ==> (#[trigger] f[i]).1.len() == 0,
    decreases n,
{
    if n > 0 {
        lemma_total(f, n - 1, k);
    }
}

proof fn lemma_total_prefix(f: Findings, g: Findings, n: int)
    requires
        0 <= n <= f.len(),
        n <= g.len(),
        forall|i: int| 0 <= i < n ==> #[trigger] f[i] == g[i],
    ensures
        total_of(f, n) == total_of(g, n),
    decreases n,
{
    if n > 0 {
        lemma_total_prefix(f, g, n - 1);
    }
}

/// Every advisory of every package counts once.
pub proof fn law_every_advisory_counts(f: Findings, name: Seq<char>, more: Seq<SecurityAdvisory>)
    ensures
        total_of(f.push((name, more)), (f.len() + 1) as int) == total_of(f, f.len() as int) + more.len(),
        total_of(Findings::empty(), 0) == 0,
{
    lemma_total_prefix(f, f.push((name, more)), f.len() as int);
}

/// Every advisory is in the report in plain text, whole; the report starts with their number, and
/// where there is none it says so.
pub proof fn law_plain_report_has_every_advisory(
    f: Findings,
    abandoned: Seq<LockedPackage>,
    k: int,
    m: int,
)
    ensures
        0 <= k < f.len() && 0 <= m < f[k].1.len() ==> has_infix(
            plain_report(f, abandoned),
            said(f[k].1[m]),
        ),
        total_of(f, f.len() as int) == 0 ==> has_infix(
            plain_report(f, abandoned),
            "No security vulnerability advisories found.\n"@,
        ),
        total_of(f, f.len() as int) > 0 ==> has_infix(
            plain_report(f, abandoned),
            "Found "@ + decimal(total_of(f, f.len() as int)) + " security vulnerability advisor"@,
        ),
{
    lemma_plain(f, abandoned, k, m, 0);
}

/// Every abandoned package is in the report in plain text, with what replaces it.
pub proof fn law_plain_report_has_every_abandoned_package(
    f: Findings,
    abandoned: Seq<LockedPackage>,
    k: int,
)
    requires
        0 <= k < abandoned.len(),
    ensures
        has_infix(
            plain_report(f, abandoned),
            abandoned[k].name@ + " is abandoned. "@ + advised(abandoned[k]) + "\n"@,
        ),
{
    lemma_plain(f, abandoned, 0, 0, k);
}

proof fn lemma_count_line(total: nat, packages: nat, end: Seq<char>)
    ensures
        has_infix(
            count_line(total, packages, end),
            "Found "@ + decimal(total) + " security vulnerability advisor"@,
        ),
{
    let x = "Found "@ + decimal(total) + " security vulnerability advisor"@;
    let b1 = x + (if total == 1 {
        "y"@
    } else {
        "ies"@
    });
    let b2 = b1 + " affecting "@;
    let b3 = b2 + decimal(packages);
    let b4 = b3 + " package"@;
    let e4 = if packages == 1 {
        ""@
    } else {
        "s"@
    };
    let b5 = b4 + e4;
    lemma_infix_plus(x, x, x);
    lemma_infix_plus(
        x,
        if total == 1 {
            "y"@
        } else {
            "ies"@
        },
        x,
    );
    lemma_infix_plus(b1, " affecting "@, x);
    lemma_infix_plus(b2, decimal(packages), x);
    lemma_infix_plus(b3, " package"@, x);
    lemma_infix_plus(b4, e4, x);
    lemma_infix_plus(b5, end, x);
    assert(count_line(total, packages, end) == b5 + end);
}

proof fn lemma_plain(f: Findings, abandoned: Seq<LockedPackage>, k: int, m: int, j: int)
    ensures
        0 <= k < f.len() && 0 <= m < f[k].1.len() ==> has_infix(
            plain_report(f, abandoned),
            said(f[k].1[m]),
        ),
        total_of(f, f.len() as int) == 0 ==> has_infix(
            plain_report(f, abandoned),
            "No security vulnerability advisories found.\n"@,
        ),
        total_of(f, f.len() as int) > 0 ==> has_infix(
            plain_report(f, abandoned),
            "Found "@ + decimal(total_of(f, f.len() as int)) + " security vulnerability advisor"@,
        ),
        0 <= j < abandoned.len() ==> has_infix(
            plain_report(f, abandoned),
            abandoned[j].name@ + " is abandoned. "@ + advised(abandoned[j]) + "\n"@,
        ),
{
    let total = total_of(f, f.len() as int);
    let none = "No security vulnerability advisories found.\n"@;
    let line = count_line(total, f.len(), ":"@);
    let x = "Found "@ + decimal(total) + " security vulnerability advisor"@;
    let t = if total > 0 {
        plain_findings(line + "\n"@, f, f.len() as int)
    } else {
        none
    };
    lemma_total(f, f.len() as int, k);
    lemma_plain_findings(line + "\n"@, f, f.len() as int, k, m);
    lemma_count_line(total, f.len(), ":"@);
    lemma_infix_plus(line, "\n"@, x);
    lemma_infix_plus(none, none, none);
    if total > 0 {
        lemma_within(t, line + "\n"@, x);
    }
    let whole = plain_report(f, abandoned);
    let more = "Found "@ + decimal(abandoned.len()) + " abandoned package"@ + (if abandoned.len() > 1 {
        "s"@
    } else {
        ""@
    }) + ":"@;
    let head = t + more + "\n"@;
    lemma_infix_plus(t, t, t);
    if abandoned.len() > 0 {
        lemma_plain_abandoned(head, abandoned, abandoned.len() as int, j);
        lemma_parts(t, more);
        lemma_parts(t + more, "\n"@);
        lemma_within(head, t + more, t);
        assert(whole == plain_abandoned(head, abandoned, abandoned.len() as int));
        lemma_within(whole, head, t);
    }
    assert(has_infix(whole, t));
    if total > 0 {
        lemma_within(whole, t, x);
        if 0 <= k < f.len() && 0 <= m < f[k].1.len() {
            lemma_within(whole, t, said(f[k].1[m]));
        }
    } else {
        lemma_within(whole, t, none);
    }
}

// ---------------------------------------------------------------------------
// The table
// ---------------------------------------------------------------------------
/// What the table says of an advisory stands in the lines.
pub open spec fn tabled(lines: Seq<LineView>, a: SecurityAdvisory) -> bool {
    &&& lines.contains(LineView::Field("Package"@, a.package_name@))
    &&& lines.contains(LineView::Field("Advisory ID"@, a.advisory_id@))
    &&& lines.contains(LineView::Field("CVE"@, or_text(a.cve, "NO CVE"@)))
    &&& lines.contains(LineView::Field("Title"@, a.title@))
    &&& a.link is Some ==> lines.contains(LineView::Field("URL"@, a.link->0@))
    &&& lines.contains(LineView::Field("Affected versions"@, a.affected_versions@))
    &&& lines.contains(LineView::Field("Reported at"@, a.reported_at@))
    &&& lines.contains(LineView::Severity(severity_of(opt(a.severity))))
}

spec fn holds_all(lines: Seq<LineView>, others: Seq<LineView>) -> bool {
    forall|x: LineView| others.contains(x) ==> #[trigger] lines.contains(x)
}

proof fn lemma_pushed(out: Seq<LineView>, l: LineView)
    ensures
        holds_all(out.push(l), out),
        out.push(l).contains(l),
{
    assert forall|x: LineView| out.contains(x) implies #[trigger] out.push(l).contains(x) by {
        lemma_one_more(out, l, x);
    }
    lemma_one_more(out, l, l);
}

proof fn lemma_table_advisory(out: Seq<LineView>, a: SecurityAdvisory)
    ensures
        holds_all(table_advisory(out, a), out),
        tabled(table_advisory(out, a), a),
{
    let l1 = LineView::Rule;
    let l2 = LineView::Field("Package"@, a.package_name@);
    let l3 = LineView::Severity(severity_of(opt(a.severity)));
    let l4 = LineView::Field("Advisory ID"@, a.advisory_id@);
    let l5 = LineView::Field("CVE"@, or_text(a.cve, "NO CVE"@));
    let l6 = LineView::Field("Title"@, a.title@);
    let o1 = out.push(l1);
    let o2 = o1.push(l2);
    let o3 = o2.push(l3);
    let o4 = o3.push(l4);
    let o5 = o4.push(l5);
    let o6 = o5.push(l6);
    let o7 = match a.link {
        Some(l) => o6.push(LineView::Field("URL"@, l@)),
        None => o6,
    };
    let l8 = LineView::Field("Affected versions"@, a.affected_versions@);
    let l9 = LineView::Field("Reported at"@, a.reported_at@);
    let o8 = o7.push(l8);
    let o9 = o8.push(l9);
    lemma_pushed(out, l1);
    lemma_pushed(o1, l2);
    lemma_pushed(o2, l3);
    lemma_pushed(o3, l4);
    lemma_pushed(o4, l5);
    lemma_pushed(o5, l6);
    if let Some(l) = a.link {
        lemma_pushed(o6, LineView::Field("URL"@, l@));
    }
    lemma_pushed(o7, l8);
    lemma_pushed(o8, l9);
    lemma_pushed(o9, LineView::Blank);
    assert(table_advisory(out, a) == o9.push(LineView::Blank));
}

proof fn lemma_tabled_stays(lines: Seq<LineView>, others: Seq<LineView>, a: SecurityAdvisory)
    requires
        holds_all(lines, others),
        tabled(others, a),
    ensures
        tabled(lines, a),
{
}

proof fn lemma_table_advisories(out: Seq<LineView>, list: Seq<SecurityAdvisory>, n: int, m: int)
    requires
        0 <= n <= list.len(),
    ensures
        holds_all(table_advisories(out, list, n), out),
        0 <= m < n ==> tabled(table_advisories(out, list, n), list[m]),
    decreases n,
{
    if n > 0 {
        lemma_table_advisories(out, list, n - 1, m);
        lemma_table_advisory(table_advisories(out, list, n - 1), list[n - 1]);
        if 0 <= m < n - 1 {
            lemma_tabled_stays(
                table_advisories(out, list, n),
                table_advisories(out, list, n - 1),
                list[m],
            );
        }
    }
}

proof fn lemma_table_findings(out: Seq<LineView>, f: Findings, n: int, k: int, m: int)
    requires
        0 <= n <= f.len(),
    ensures
        holds_all(table_findings(out, f, n), out),
        0 <= k < n && 0 <= m < f[k].1.len() ==> tabled(table_findings(out, f, n), f[k].1[m]),
    decreases n,
{
    if n > 0 {
        lemma_table_findings(out, f, n - 1, k, m);
        let list = f[n - 1].1;
        lemma_table_advisories(table_findings(out, f, n - 1), list, list.len() as int, m);
        if 0 <= k < n - 1 && 0 <= m < f[k].1.len() {
            lemma_tabled_stays(
                table_findings(out, f, n),
                table_findings(out, f, n - 1),
                f[k].1[m],
            );
        }
    }
}

proof fn lemma_table_abandoned(out: Seq<LineView>, packages: Seq<LockedPackage>, n: int, k: int)
    requires
        0 <= n <= packages.len(),
    ensures
        holds_all(table_abandoned(out, packages, n), out),
        0 <= k < n ==> table_abandoned(out, packages, n).contains(
            LineView::Abandoned(packages[k].name@, advised(packages[k])),
        ),
    decreases n,
{
    if n > 0 {
        lemma_table_abandoned(out, packages, n - 1, k);
        lemma_pushed(
            table_abandoned(out, packages, n - 1),
            LineView::Abandoned(packages[n - 1].name@, advised(packages[n - 1])),
        );
    }
}

/// Every advisory is in the table, field by field, and every abandoned package with what replaces
/// it.
pub proof fn law_table_has_everything(
    f: Findings,
    abandoned: Seq<LockedPackage>,
    k: int,
    m: int,
    j: int,
)
    ensures
        0 <= k < f.len() && 0 <= m < f[k].1.len() ==> tabled(
            table_report(f, abandoned),
            f[k].1[m],
        ),
        0 <= j < abandoned.len() ==> table_report(f, abandoned).contains(
            LineView::Abandoned(abandoned[j].name@, advised(abandoned[j])),
        ),
        total_of(f, f.len() as int) == 0 ==> table_report(f, abandoned).contains(
            LineView::Calm("No security vulnerability advisories found."@),
        ),
        total_of(f, f.len() as int) > 0 ==> table_report(f, abandoned).contains(
            LineView::Alarm(count_line(total_of(f, f.len() as int), f.len(), ":"@)),
        ),
{
    let total = total_of(f, f.len() as int);
    let alarm = LineView::Alarm(count_line(total, f.len(), ":"@));
    let calm = LineView::Calm("No security vulnerability advisories found."@);
    let none = Seq::<LineView>::empty();
    let head = none.push(alarm).push(LineView::Blank);
    let t = if total > 0 {
        table_findings(head, f, f.len() as int)
    } else {
        none.push(calm)
    };
    lemma_total(f, f.len() as int, k);
    lemma_pushed(none, alarm);
    lemma_pushed(none.push(alarm), LineView::Blank);
    lemma_pushed(none, calm);
    lemma_table_findings(head, f, f.len() as int, k, m);
    let notice = LineView::Notice(
        "Found "@ + decimal(abandoned.len()) + " abandoned package"@ + (if abandoned.len() > 1 {
            "s"@
        } else {
            ""@
        }) + ":"@,
    );
    let start = t.push(notice).push(LineView::Blank);
    lemma_pushed(t, notice);
    lemma_pushed(t.push(notice), LineView::Blank);
    lemma_table_abandoned(start, abandoned, abandoned.len() as int, j);
    let whole = table_report(f, abandoned);
    if abandoned.len() > 0 {
        assert(whole == table_abandoned(start, abandoned, abandoned.len() as int));
    } else {
        assert(whole == t);
    }
    assert(holds_all(whole, t));
    if 0 <= k < f.len() && 0 <= m < f[k].1.len() {
        lemma_tabled_stays(whole, t, f[k].1[m]);
    }
}

/// Each word for a severity has its own, and whatever is no such word has none.
pub proof fn law_severities_have_their_words(word: Seq<char>)
    ensures
        severity_of(Some("critical"@)) == Severity::Critical,
        severity_of(Some("high"@)) == Severity::High,
        severity_of(Some("medium"@)) == Severity::Medium,
        severity_of(Some("low"@)) == Severity::Low,
        severity_of(None) == Severity::Unknown,
        word != "critical"@ && word != "high"@ && word != "medium"@ && word != "low"@
            ==> severity_of(Some(word)) == Severity::Unknown,
{
    reveal_strlit("critical");
    reveal_strlit("high");
    reveal_strlit("medium");
    reveal_strlit("low");
    assert("critical"@.len() == 8 && "high"@.len() == 4 && "medium"@.len() == 6 && "low"@.len()
        == 3);
}

// ---------------------------------------------------------------------------
// JSON
// ---------------------------------------------------------------------------
/// A text, or `null` where there is none.
pub open spec fn text_or_null(v: Option<String>) -> JsonView {
    match v {
        Some(t) => JsonView::Text(t@),
        None => JsonView::Null,
    }
}

/// An advisory in JSON has every field.
pub proof fn law_json_advisory_has_every_field(a: SecurityAdvisory, k: int)
    ensures
        advisory_view(a) matches JsonView::Object(o) && {
            &&& o.contains(("advisoryId"@, JsonView::Text(a.advisory_id@)))
            &&& o.contains(("packageName"@, JsonView::Text(a.package_name@)))
            &&& o.contains(("title"@, JsonView::Text(a.title@)))
            &&& o.contains(("cve"@, text_or_null(a.cve)))
            &&& o.contains(("link"@, text_or_null(a.link)))
            &&& o.contains(("severity"@, text_or_null(a.severity)))
            &&& o.contains(("affectedVersions"@, JsonView::Text(a.affected_versions@)))
            &&& o.contains(("reportedAt"@, JsonView::Text(a.reported_at@)))
        },
{
    let o = advisory_view(a)->Object_0;
    assert(o[0] == ("advisoryId"@, JsonView::Text(a.advisory_id@)));
    assert(o[1] == ("packageName"@, JsonView::Text(a.package_name@)));
    assert(o[2] == ("title"@, JsonView::Text(a.title@)));
    assert(o[3] == ("cve"@, text_or_null(a.cve)));
    assert(o[4] == ("link"@, text_or_null(a.link)));
    assert(o[5] == ("severity"@, text_or_null(a.severity)));
    assert(o[6] == ("affectedVersions"@, JsonView::Text(a.affected_versions@)));
    assert(o[7] == ("reportedAt"@, JsonView::Text(a.reported_at@)));
    assert(o.len() == 9);
}

proof fn lemma_replacements(packages: Seq<LockedPackage>, n: int, k: int)
    requires
        0 <= n <= packages.len(),
    ensures
        0 <= k < n && (forall|j: int|
            k < j < n ==> (#[trigger] packages[j]).name@ != packages[k].name@) ==> value_of(
            replacement_entries(packages, n),
            packages[k].name@,
        ) == Some(
            match packages[k].abandoned@ {
                JsonView::Text(t) if t.len() > 0 => JsonView::Text(t),
                _ => JsonView::Null,
            },
        ),
    decreases n,
{
    if n > 0 {
        lemma_replacements(packages, n - 1, k);
        let p = packages[n - 1];
        let v = match p.abandoned@ {
            JsonView::Text(t) if t.len() > 0 => JsonView::Text(t),
            _ => JsonView::Null,
        };
        lemma_with_entry(replacement_entries(packages, n - 1), p.name@, v, p.name@);
        if 0 <= k < n {
            lemma_with_entry(replacement_entries(packages, n - 1), p.name@, v, packages[k].name@);
        }
    }
}

/// The report in JSON has every package with its advisories, in the same order, and every abandoned
/// package with what replaces it.
pub proof fn law_json_report_has_everything(f: Findings, abandoned: Seq<LockedPackage>, j: int)
    ensures
        findings_entries(f).len() == f.len(),
        forall|k: int|
            0 <= k < f.len() ==> (#[trigger] findings_entries(f)[k]).0 == f[k].0 && (
            findings_entries(f)[k].1 matches JsonView::Array(list) && list.len() == f[k].1.len() && (
            forall|m: int|
                0 <= m < f[k].1.len() ==> #[trigger] list[m] == advisory_view(f[k].1[m]))),
        json_report(f, abandoned) matches JsonView::Object(o) && {
            &&& f.len() > 0 ==> o.contains(
                ("advisories"@, JsonView::Object(findings_entries(f))),
            )
            &&& f.len() == 0 ==> o.contains(("advisories"@, JsonView::Array(Seq::empty())))
        },
        0 <= j < abandoned.len() && (forall|i: int|
            j < i < abandoned.len() ==> (#[trigger] abandoned[i]).name@ != abandoned[j].name@)
            ==> value_of(
            replacement_entries(abandoned, abandoned.len() as int),
            abandoned[j].name@,
        ) == Some(
            match abandoned[j].abandoned@ {
                JsonView::Text(t) if t.len() > 0 => JsonView::Text(t),
                _ => JsonView::Null,
            },
        ),
{
    let o = json_report(f, abandoned)->Object_0;
    assert(o[0] == ("advisories"@, map_view(findings_entries(f))));
    lemma_replacements(abandoned, abandoned.len() as int, j);
}

} // verus!
