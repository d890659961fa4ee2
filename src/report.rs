//! The ranked, human-readable report.
use vstd::prelude::*;
use vstd::string::StringExecFns;
use crate::outcome::TestResult;
use crate::rank::{is_stable_ranking_of, sort_results};
use crate::text::{decimal, decimal_string};

verus! {

/// Nanoseconds in a millisecond.
pub const NANOS_PER_MILLI: u128 = 1_000_000;

/// The title line and the separator line that open the report.
pub open spec fn header_text() -> Seq<char> {
    "🚀 网络速度测试结果\n"@ + "============================================================\n"@
}

/// The lines for one error text, if there is one.
pub open spec fn error_line_text(error: Option<String>) -> Seq<char> {
    match error {
        Some(e) => "    错误: "@ + e@ + "\n"@,
        None => Seq::empty(),
    }
}

/// The entry of outcome `r` at 1-based rank `rank`, ending in a blank line:
/// the latency in whole milliseconds for a success, the error for a failure.
pub open spec fn entry_text(rank: nat, r: TestResult) -> Seq<char> {
    match r.response_time {
        Some(t) => "#"@ + decimal(rank) + " 🟢 "@ + r.name@ + " - "@ + decimal(
            (t / NANOS_PER_MILLI) as nat,
        ) + "ms\n"@ + "    URL: "@ + r.url@ + "\n"@ + "\n"@,
        None => "#"@ + decimal(rank) + " 🔴 "@ + r.name@ + " - 失败\n"@ + "    URL: "@ + r.url@
            + "\n"@ + error_line_text(r.error) + "\n"@,
    }
}

/// The entries of `rs`, ranked 1, 2, ... in sequence order.
pub open spec fn entries_text(rs: Seq<TestResult>) -> Seq<char>
    decreases rs.len(),
{
    if rs.len() == 0 {
        Seq::empty()
    } else {
        entries_text(rs.drop_last()) + entry_text(rs.len() as nat, rs.last())
    }
}

/// The whole report of `rs`, in the order given.
pub open spec fn report_text(rs: Seq<TestResult>) -> Seq<char> {
    header_text() + entries_text(rs)
}

/// Renders the entry of `r` at rank `rank`.
pub fn render_entry(rank: usize, r: &TestResult) -> (s: String)
    ensures
        s@ == entry_text(rank as nat, *r),
{
    let mut s = String::from_str("#");
    let rank_digits = decimal_string(rank as u128);
    s.append(rank_digits.as_str());
    match &r.response_time {
        Some(t) => {
            s.append(" 🟢 ");
            s.append(r.name.as_str());
            s.append(" - ");
            let ms = decimal_string(*t / NANOS_PER_MILLI);
            s.append(ms.as_str());
            s.append("ms\n");
            s.append("    URL: ");
            s.append(r.url.as_str());
            s.append("\n");
            s.append("\n");
        },
        None => {
            s.append(" 🔴 ");
            s.append(r.name.as_str());
            s.append(" - 失败\n");
            s.append("    URL: ");
            s.append(r.url.as_str());
            s.append("\n");
            match &r.error {
                Some(e) => {
                    s.append("    错误: ");
                    s.append(e.as_str());
                    s.append("\n");
                },
                None => {},
            }
            s.append("\n");
        },
    }
    assert(s@ =~= entry_text(rank as nat, *r));
    s
}

/// Renders `results` as the report, ranking them 1, 2, ... in the order given.
pub fn render_report(results: &Vec<TestResult>) -> (s: String)
    ensures
        s@ == report_text(results@),
{
    let mut s = String::from_str("🚀 网络速度测试结果\n");
    s.append("============================================================\n");
    let mut i: usize = 0;
    assert(results@.subrange(0, 0) =~= Seq::<TestResult>::empty());
    while i < results.len()
        invariant
            i <= results@.len(),
            s@ == header_text() + entries_text(results@.subrange(0, i as int)),
        decreases results@.len() - i,
    {
        let entry = render_entry(i + 1, &results[i]);
        s.append(entry.as_str());
        proof {
            let pre = results@.subrange(0, i as int);
            let next = results@.subrange(0, i + 1);
            assert(next.drop_last() =~= pre);
            assert(next.last() == results@[i as int]);
            assert(s@ =~= header_text() + entries_text(next));
        }
        i = i + 1;
    }
    assert(results@.subrange(0, results@.len() as int) =~= results@);
    s
}

/// Ranks `results` and renders the report of the ranked outcomes. The stable
/// ranking is unique (see `lemma_stable_ranking_unique`), so the text is too.
pub fn print_results(results: Vec<TestResult>) -> (s: String)
    ensures
        exists|ranked: Seq<TestResult>|
            is_stable_ranking_of(ranked, results@) && s@ == report_text(ranked),
{
    let ranked = sort_results(results);
    render_report(&ranked)
}

/// Rendering depends on the outcomes alone: rendering the same outcomes
/// twice gives the same text.
pub proof fn lemma_render_deterministic(a: Seq<TestResult>, b: Seq<TestResult>, s: String, t: String)
    requires
        a == b,
        s@ == report_text(a),
        t@ == report_text(b),
    ensures
        s@ == t@,
{
}

} // verus!
