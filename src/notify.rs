//! One notification for all services of a run.

use crate::service::{ServiceResult, ServiceResults};
use crate::size::{decimal, decimal_string};
use vstd::prelude::*;

verus! {

/// Overall state of a run: `Alert` where some deletion failed, else `Good`.
#[derive(Clone, Copy, Debug, PartialEq, Eq, Structural)]
pub enum NotificationColor {
    Good,
    Alert,
}

impl NotificationColor {
    /// The attachment color code.
    pub fn code(&self) -> (r: &'static str)
        ensures
            *self == NotificationColor::Good ==> r@ == "#2EB67D"@,
            *self == NotificationColor::Alert ==> r@ == "#E01E5A"@,
    {
        match self {
            NotificationColor::Good => "#2EB67D",
            NotificationColor::Alert => "#E01E5A",
        }
    }
}

/// The message that reports a run.
#[derive(Clone, Debug)]
pub struct Notification {
    pub color: NotificationColor,
    pub title: String,
    pub title_link: Option<String>,
    pub text: String,
}

/// The parts separated by `sep`.
pub open spec fn join(parts: Seq<Seq<char>>, sep: Seq<char>) -> Seq<char>
    decreases parts.len(),
{
    if parts.len() == 0 {
        seq![]
    } else if parts.len() == 1 {
        parts[0]
    } else {
        join(parts.drop_last(), sep) + sep + parts.last()
    }
}

pub open spec fn status_mark(ok: bool) -> Seq<char> {
    if ok {
        ":white_check_mark:"@
    } else {
        ":x:"@
    }
}

/// A service's status line.
pub open spec fn short_line(r: ServiceResults) -> Seq<char> {
    r.total_human_readable_msg@ + " - "@ + status_mark(r.failures == 0)
}

/// One line per deletion: a done one with its size, a failed one without.
pub open spec fn detail_line(key: Seq<char>, d: ServiceResult) -> Seq<char> {
    if d.success {
        status_mark(true) + " - "@ + d.name@ + " ("@ + key + ") - size: "@ + decimal(d.size as nat)
            + " bytes"@
    } else {
        status_mark(false) + " - "@ + d.name@ + " ("@ + key + ")"@
    }
}

pub open spec fn row_lines(rows: Seq<(String, String)>) -> Seq<Seq<char>> {
    Seq::new(rows.len(), |i: int| rows[i].0@ + ": "@ + rows[i].1@)
}

/// A service's pre-cleanup summary block.
pub open spec fn report_block(key: Seq<char>, rows: Seq<(String, String)>) -> Seq<char> {
    "Summary for "@ + key + " (pre-cleanup):\n"@ + join(row_lines(rows), "\n"@) + "\n"@
}

pub open spec fn short_lines(rs: Seq<(String, ServiceResults)>) -> Seq<Seq<char>>
    decreases rs.len(),
{
    if rs.len() == 0 {
        seq![]
    } else {
        short_lines(rs.drop_last()).push(short_line(rs.last().1))
    }
}

pub open spec fn service_detail_lines(key: Seq<char>, ds: Seq<ServiceResult>) -> Seq<Seq<char>> {
    Seq::new(ds.len(), |j: int| detail_line(key, ds[j]))
}

pub open spec fn detail_lines(rs: Seq<(String, ServiceResults)>) -> Seq<Seq<char>>
    decreases rs.len(),
{
    if rs.len() == 0 {
        seq![]
    } else {
        detail_lines(rs.drop_last()) + service_detail_lines(rs.last().0@, rs.last().1.deletes@)
    }
}

/// Summary blocks of the services that have summary rows.
pub open spec fn report_blocks(rs: Seq<(String, ServiceResults)>) -> Seq<Seq<char>>
    decreases rs.len(),
{
    if rs.len() == 0 {
        seq![]
    } else if rs.last().1.reports@.len() > 0 {
        report_blocks(rs.drop_last()).push(report_block(rs.last().0@, rs.last().1.reports@))
    } else {
        report_blocks(rs.drop_last())
    }
}

/// The body: status lines, then the summary blocks, then the deletion lines.
pub open spec fn notification_text(rs: Seq<(String, ServiceResults)>) -> Seq<char> {
    join(short_lines(rs), "\n"@) + (if report_blocks(rs).len() > 0 {
        "\n\n"@ + join(report_blocks(rs), "\n"@)
    } else {
        seq![]
    }) + (if detail_lines(rs).len() > 0 {
        "\n\nDetails:\n\n"@ + join(detail_lines(rs), "\n"@)
    } else {
        "\n\nNot found any old indices by pre-defined rules."@
    })
}

/// Whether some service recorded a failed deletion.
pub open spec fn any_failure(rs: Seq<(String, ServiceResults)>) -> bool {
    exists|i: int| 0 <= i < rs.len() && (#[trigger] rs[i]).1.failures > 0
}

/// Adds one part to `acc`, which holds the join of the earlier parts.
fn push_part(acc: &mut String, parts: Ghost<Seq<Seq<char>>>, first: bool, part: &str, sep: &str)
    requires
        old(acc)@ == join(parts@, sep@),
        first == (parts@.len() == 0),
    ensures
        final(acc)@ == join(parts@.push(part@), sep@),
{
    assert(parts@.push(part@).drop_last() =~= parts@);
    if first {
        *acc = String::from_str(part);
    } else {
        acc.append(sep);
        acc.append(part);
    }
}

fn make_detail_line(key: &String, d: &ServiceResult) -> (r: String)
    ensures
        r@ == detail_line(key@, *d),
{
    let mut s = if d.success {
        String::from_str(":white_check_mark:")
    } else {
        String::from_str(":x:")
    };
    s.append(" - ");
    s.append(d.name.as_str());
    s.append(" (");
    s.append(key.as_str());
    if d.success {
        s.append(") - size: ");
        s.append(decimal_string(d.size).as_str());
        s.append(" bytes");
    } else {
        s.append(")");
    }
    s
}

fn make_report_block(key: &String, rows: &Vec<(String, String)>) -> (r: String)
    ensures
        r@ == report_block(key@, rows@),
{
    let mut body = String::new();
    let ghost mut parts: Seq<Seq<char>> = seq![];
    let mut i: usize = 0;
    while i < rows.len()
        invariant
            i <= rows@.len(),
            parts == row_lines(rows@).take(i as int),
            body@ == join(parts, "\n"@),
        decreases rows.len() - i,
    {
        let mut line = rows[i].0.clone();
        line.append(": ");
        line.append(rows[i].1.as_str());
        push_part(&mut body, Ghost(parts), i == 0, line.as_str(), "\n");
        proof {
            parts = parts.push(line@);
        }
        assert(parts =~= row_lines(rows@).take(i + 1));
        i = i + 1;
    }
    assert(parts =~= row_lines(rows@));
    let mut s = String::from_str("Summary for ");
    s.append(key.as_str());
    s.append(" (pre-cleanup):\n");
    s.append(body.as_str());
    s.append("\n");
    s
}

/// Builds the notification of a run from each service's name and results,
/// in order, and the project name; an empty link gives none.
pub fn build_notification(
    all_results: &Vec<(String, ServiceResults)>,
    project: &String,
    title_link: &String,
) -> (r: Notification)
    ensures
        r.text@ == notification_text(all_results@),
        r.title@ == project@ + " - Opensearch index cleanup"@,
        r.color == (if any_failure(all_results@) {
            NotificationColor::Alert
        } else {
            NotificationColor::Good
        }),
        title_link@.len() == 0 ==> r.title_link is None,
        title_link@.len() > 0 ==> (r.title_link matches Some(l) && l@ == title_link@),
{
    let ghost rs = all_results@;
    let mut shorts = String::new();
    let mut details = String::new();
    let mut reports = String::new();
    let mut any_details = false;
    let mut any_reports = false;
    let mut has_failures = false;
    let mut i: usize = 0;
    while i < all_results.len()
        invariant
            i <= rs.len(),
            rs == all_results@,
            shorts@ == join(short_lines(rs.take(i as int)), "\n"@),
            short_lines(rs.take(i as int)).len() == i,
            details@ == join(detail_lines(rs.take(i as int)), "\n"@),
            reports@ == join(report_blocks(rs.take(i as int)), "\n"@),
            any_details == (detail_lines(rs.take(i as int)).len() > 0),
            any_reports == (report_blocks(rs.take(i as int)).len() > 0),
            has_failures == exists|i2: int| 0 <= i2 < i && (#[trigger] rs[i2]).1.failures > 0,
        decreases all_results.len() - i,
    {
        let key = &all_results[i].0;
        let res = &all_results[i].1;
        let ghost before = rs.take(i as int);
        assert(rs.take(i + 1).drop_last() =~= before);
        let mut line = res.total_human_readable_msg.clone();
        line.append(" - ");
        if res.failures == 0 {
            line.append(":white_check_mark:");
        } else {
            line.append(":x:");
            has_failures = true;
        }
        push_part(&mut shorts, Ghost(short_lines(before)), i == 0, line.as_str(), "\n");
        let ghost mut parts = detail_lines(before);
        let mut j: usize = 0;
        while j < res.deletes.len()
            invariant
                j <= res.deletes@.len(),
                parts == detail_lines(before) + service_detail_lines(key@, res.deletes@).take(j as int),
                details@ == join(parts, "\n"@),
                any_details == (parts.len() > 0),
            decreases res.deletes.len() - j,
        {
            let d = make_detail_line(key, &res.deletes[j]);
            push_part(&mut details, Ghost(parts), !any_details, d.as_str(), "\n");
            proof {
                parts = parts.push(d@);
            }
            assert(parts =~= detail_lines(before) + service_detail_lines(key@, res.deletes@).take(j + 1));
            any_details = true;
            j = j + 1;
        }
        assert(service_detail_lines(key@, res.deletes@).take(res.deletes@.len() as int)
            =~= service_detail_lines(key@, res.deletes@));
        if res.reports.len() > 0 {
            let block = make_report_block(key, &res.reports);
            push_part(&mut reports, Ghost(report_blocks(before)), !any_reports, block.as_str(), "\n");
            any_reports = true;
        }
        i = i + 1;
    }
    assert(rs.take(rs.len() as int) =~= rs);
    let mut text = shorts;
    if any_reports {
        text.append("\n\n");
        text.append(reports.as_str());
    }
    if any_details {
        text.append("\n\nDetails:\n\n");
        text.append(details.as_str());
    } else {
        text.append("\n\nNot found any old indices by pre-defined rules.");
    }
    let mut title = project.clone();
    title.append(" - Opensearch index cleanup");
    let link = if title_link.as_str().unicode_len() == 0 {
        None
    } else {
        Some(title_link.clone())
    };
    Notification {
        color: if has_failures {
            NotificationColor::Alert
        } else {
            NotificationColor::Good
        },
        title,
        title_link: link,
        text,
    }
}

} // verus!
