use chrono::{Datelike, NaiveDate};
use index_retention::age::{date_suffix, days_between_today_and_date, index_age};
use index_retention::engine::{plan_retention, Rule, Selection};
use index_retention::notify::{build_notification, NotificationColor};
use index_retention::pattern::{filter_indices_by_pattern, ConfigError, IndexRef};
use index_retention::service::{
    cleanup_service, deletion_requests, summarize, ServiceResult, ServiceResults, SummaryReport,
};
use index_retention::size::{decimal_string, sizeof_fmt};

fn day(y: i32, m: u32, d: u32) -> i32 {
    NaiveDate::from_ymd_opt(y, m, d).unwrap().num_days_from_ce()
}

fn idx(name: &str, size: u64) -> IndexRef {
    IndexRef { index_name: name.to_string(), size }
}

fn rule(pattern: &str, age: i64, date_pattern: Option<&str>) -> Rule {
    Rule {
        index_pattern: pattern.to_string(),
        age_threshold: age,
        date_pattern: date_pattern.map(|p| p.to_string()),
    }
}

fn sample_indices() -> Vec<IndexRef> {
    vec![idx("logs-2023.01.01", 1024), idx("logs-2024.06.01", 2048), idx(".kibana", 512)]
}

fn unit_rank(s: &str) -> usize {
    let units = ["Ki", "Mi", "Gi", "Ti", "Pi", "Ei", "Zi", "Yi"];
    let body = &s[..s.len() - 1];
    for (i, u) in units.iter().enumerate() {
        if body.ends_with(u) {
            return i + 1;
        }
    }
    0
}

#[test]
fn format_zero_bytes() {
    assert_eq!(sizeof_fmt(0), "0B");
}

#[test]
fn format_truncates_after_one_division() {
    assert_eq!(sizeof_fmt(1536), "1KiB");
}

#[test]
fn format_unit_boundaries() {
    assert_eq!(sizeof_fmt(1023), "1023B");
    assert_eq!(sizeof_fmt(1024), "1KiB");
    assert_eq!(sizeof_fmt(1024 * 1024 - 1), "1023KiB");
    assert_eq!(sizeof_fmt(1024 * 1024), "1MiB");
    assert_eq!(sizeof_fmt(5 * 1024 * 1024 * 1024), "5GiB");
    assert_eq!(sizeof_fmt(u64::MAX), "15EiB");
}

#[test]
fn format_unit_never_shrinks() {
    let samples = [0u64, 1, 1023, 1024, 1536, 1048575, 1048576, 1 << 30, 1 << 40, 1 << 50, 1 << 60, u64::MAX];
    for w in samples.windows(2) {
        assert!(unit_rank(&sizeof_fmt(w[0])) <= unit_rank(&sizeof_fmt(w[1])));
    }
}

#[test]
fn decimal_digits() {
    assert_eq!(decimal_string(0), "0");
    assert_eq!(decimal_string(907), "907");
    assert_eq!(decimal_string(u64::MAX), "18446744073709551615");
}

#[test]
fn filter_matches_whole_name() {
    let v = sample_indices();
    let m = filter_indices_by_pattern(&v, &"logs-*".to_string()).unwrap();
    let names: Vec<&str> = m.iter().map(|i| i.index_name.as_str()).collect();
    assert_eq!(names, vec!["logs-2023.01.01", "logs-2024.06.01"]);
    let m = filter_indices_by_pattern(&v, &"logs".to_string()).unwrap();
    assert!(m.is_empty());
    let m = filter_indices_by_pattern(&v, &"logs-202?.0[16].01".to_string()).unwrap();
    assert_eq!(m.len(), 2);
}

#[test]
fn filter_rejects_invalid_pattern() {
    let v = sample_indices();
    match filter_indices_by_pattern(&v, &"logs-[".to_string()) {
        Err(ConfigError::InvalidPattern(p)) => assert_eq!(p, "logs-["),
        Ok(_) => panic!("pattern accepted"),
    }
}

#[test]
fn days_between_counts_whole_days() {
    let today = day(2023, 1, 31);
    assert_eq!(days_between_today_and_date("%Y.%m.%d", "2023.01.01", today).unwrap(), 30);
    assert_eq!(days_between_today_and_date("%Y.%m.%d", "2023.02.10", today).unwrap(), -10);
}

#[test]
fn days_between_rejects_bad_token() {
    let e = days_between_today_and_date("%Y.%m.%d", "2023-01-01", day(2023, 1, 31)).unwrap_err();
    assert_eq!(e.token, "2023-01-01");
    assert_eq!(e.pattern, "%Y.%m.%d");
}

#[test]
fn suffix_of_name() {
    assert_eq!(date_suffix("logs-2023.01.01", 10).unwrap(), "2023.01.01");
    assert!(date_suffix("short", 10).is_none());
}

#[test]
fn age_uses_pattern_width() {
    let today = day(2024, 1, 20);
    assert_eq!(index_age("app-20240115", "%Y%m%d", today), Some(5));
    assert_eq!(index_age("logs-2024.01.10", "%Y.%m.%d", today), Some(10));
    assert_eq!(index_age("logs-current", "%Y.%m.%d", today), None);
}

#[test]
fn scenario_one_old_index() {
    let v = sample_indices();
    let rules = vec![rule("logs-*", 30, None)];
    let today = day(2024, 6, 15);
    let plan = plan_retention(&v, &rules, today).unwrap();
    assert_eq!(plan.selected, vec![Selection { position: 0, rule: 0 }]);
    let res = cleanup_service(&"search".to_string(), &v, &rules, &vec![], today, false, &vec![true]).unwrap();
    assert_eq!(res.deletes.len(), 1);
    assert_eq!(res.deletes[0].name, "logs-2023.01.01");
    assert!(res.deletes[0].success);
    assert_eq!(res.total, 1024);
    assert_eq!(sizeof_fmt(res.total), "1KiB");
    assert_eq!(res.total_remaining, 2560);
    assert_eq!(res.failures, 0);
    assert_eq!(
        res.total_human_readable_msg,
        "Cleanup finished for search service: 1KiB data has been deleted. (Remaining data size: 2KiB)"
    );
}

#[test]
fn protected_index_never_selected() {
    let v = vec![idx(".kibana-2020.01.01", 10), idx("logs-2020.01.01", 20)];
    let rules = vec![rule("*", 1, None)];
    let plan = plan_retention(&v, &rules, day(2024, 1, 1)).unwrap();
    assert_eq!(plan.selected, vec![Selection { position: 1, rule: 0 }]);
}

#[test]
fn first_matching_rule_claims_index() {
    let v = vec![idx("logs-2020.01.01", 10), idx("logs-2023.12.01", 20)];
    let rules = vec![rule("logs-2020*", 5, None), rule("logs-*", 1, None)];
    let plan = plan_retention(&v, &rules, day(2024, 1, 1)).unwrap();
    assert_eq!(
        plan.selected,
        vec![Selection { position: 0, rule: 0 }, Selection { position: 1, rule: 1 }]
    );
    let res = cleanup_service(&"s".to_string(), &v, &rules, &vec![], day(2024, 1, 1), true, &vec![]).unwrap();
    assert_eq!(res.deletes.len(), 2);
    assert_eq!(res.total + res.total_remaining, 30);
}

#[test]
fn young_index_kept_by_earlier_rule_can_go_later() {
    let v = vec![idx("logs-2023.12.20", 10)];
    let rules = vec![rule("logs-*", 30, None), rule("logs-*", 5, None)];
    let plan = plan_retention(&v, &rules, day(2024, 1, 1)).unwrap();
    assert_eq!(plan.selected, vec![Selection { position: 0, rule: 1 }]);
}

#[test]
fn unreadable_date_is_recorded_not_deleted() {
    let v = vec![idx("logs-latest", 10), idx("logs-2020.01.01", 5)];
    let rules = vec![rule("logs-*", 1, None)];
    let res = cleanup_service(&"s".to_string(), &v, &rules, &vec![], day(2024, 1, 1), false, &vec![true]).unwrap();
    assert_eq!(res.date_errors, vec!["logs-latest".to_string()]);
    assert_eq!(res.total, 5);
    assert_eq!(res.total_remaining, 10);
}

#[test]
fn custom_date_pattern_width() {
    let v = vec![idx("metrics-20200101", 7)];
    let rules = vec![rule("metrics-*", 10, Some("%Y%m%d"))];
    let plan = plan_retention(&v, &rules, day(2024, 1, 1)).unwrap();
    assert_eq!(plan.selected.len(), 1);
}

#[test]
fn failed_delete_recorded_and_counted() {
    let v = vec![idx("logs-2020.01.01", 100), idx("logs-2020.01.02", 50), idx("other", 7)];
    let rules = vec![rule("logs-*", 1, None)];
    let res = cleanup_service(&"s".to_string(), &v, &rules, &vec![], day(2024, 1, 1), false, &vec![true, false]).unwrap();
    assert!(res.deletes[0].success);
    assert!(!res.deletes[1].success);
    assert_eq!(res.failures, 1);
    assert_eq!(res.total, 150);
    assert_eq!(res.total_remaining, 7);
}

#[test]
fn dry_run_matches_real_accounting() {
    let v = vec![idx("logs-2020.01.01", 100), idx("logs-2020.01.02", 50), idx("other", 7)];
    let rules = vec![rule("logs-*", 1, None)];
    let today = day(2024, 1, 1);
    let dry = cleanup_service(&"s".to_string(), &v, &rules, &vec![], today, true, &vec![]).unwrap();
    let real = cleanup_service(&"s".to_string(), &v, &rules, &vec![], today, false, &vec![false, false]).unwrap();
    assert!(dry.deletes.iter().all(|d| d.success));
    assert_eq!(dry.failures, 0);
    let dn: Vec<(&str, u64)> = dry.deletes.iter().map(|d| (d.name.as_str(), d.size)).collect();
    let rn: Vec<(&str, u64)> = real.deletes.iter().map(|d| (d.name.as_str(), d.size)).collect();
    assert_eq!(dn, rn);
    assert_eq!(dry.total, real.total);
    assert_eq!(dry.total_remaining, real.total_remaining);
    assert!(deletion_requests(&v, &rules, today, true).unwrap().is_empty());
    assert_eq!(
        deletion_requests(&v, &rules, today, false).unwrap(),
        vec!["logs-2020.01.01".to_string(), "logs-2020.01.02".to_string()]
    );
}

#[test]
fn invalid_rule_pattern_is_config_error() {
    let v = sample_indices();
    let rules = vec![rule("logs-*", 1, None), rule("[x", 1, None)];
    match plan_retention(&v, &rules, day(2024, 1, 1)) {
        Err(ConfigError::InvalidPattern(p)) => assert_eq!(p, "[x"),
        Ok(_) => panic!("pattern accepted"),
    }
    assert!(cleanup_service(&"s".to_string(), &v, &rules, &vec![], day(2024, 1, 1), true, &vec![]).is_err());
}

#[test]
fn summary_rows_in_order_with_zero() {
    let v = sample_indices();
    let specs = vec![
        SummaryReport { pattern: "logs-*".to_string(), name: "Logs".to_string() },
        SummaryReport { pattern: "nothing-*".to_string(), name: "Nothing".to_string() },
    ];
    let rows = summarize(&v, &specs).unwrap();
    assert_eq!(
        rows,
        vec![("Logs".to_string(), "3KiB".to_string()), ("Nothing".to_string(), "0B".to_string())]
    );
}

fn results(msg: &str, failures: u64, deletes: Vec<ServiceResult>, reports: Vec<(String, String)>) -> ServiceResults {
    ServiceResults {
        deletes,
        total: 0,
        total_remaining: 0,
        total_human_readable_msg: msg.to_string(),
        failures,
        reports,
        date_errors: vec![],
    }
}

#[test]
fn notification_with_details_and_reports() {
    let all = vec![
        (
            "a".to_string(),
            results(
                "A done",
                1,
                vec![
                    ServiceResult { name: "i1".to_string(), size: 10, success: true },
                    ServiceResult { name: "i2".to_string(), size: 5, success: false },
                ],
                vec![("L".to_string(), "1KiB".to_string()), ("M".to_string(), "0B".to_string())],
            ),
        ),
        ("b".to_string(), results("B done", 0, vec![], vec![])),
    ];
    let n = build_notification(&all, &"proj".to_string(), &"".to_string());
    assert_eq!(n.color, NotificationColor::Alert);
    assert_eq!(n.color.code(), "#E01E5A");
    assert_eq!(n.title, "proj - Opensearch index cleanup");
    assert!(n.title_link.is_none());
    assert_eq!(
        n.text,
        "A done - :x:\nB done - :white_check_mark:\n\nSummary for a (pre-cleanup):\nL: 1KiB\nM: 0B\n\n\nDetails:\n\n:white_check_mark: - i1 (a) - size: 10 bytes\n:x: - i2 (a)"
    );
}

#[test]
fn notification_without_deletions() {
    let all = vec![("a".to_string(), results("A done", 0, vec![], vec![]))];
    let n = build_notification(&all, &"p".to_string(), &"http://x".to_string());
    assert_eq!(n.color, NotificationColor::Good);
    assert_eq!(n.color.code(), "#2EB67D");
    assert_eq!(n.title_link, Some("http://x".to_string()));
    assert_eq!(n.text, "A done - :white_check_mark:\n\nNot found any old indices by pre-defined rules.");
}
