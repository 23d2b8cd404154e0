use schemetry::export_layout::{
    clip_for_excel, per_server_layout, report_csv, report_header_row, report_row, report_style, single_sheet_layout, ReportStyle,
};
use schemetry::models::{Discrepancy, QueryServerResult};

fn result(server: &str, cols: &[&str], rows: Vec<Vec<Option<&str>>>) -> QueryServerResult {
    QueryServerResult {
        server_name: server.to_string(),
        columns: cols.iter().map(|c| c.to_string()).collect(),
        column_types: cols.iter().map(|_| "VARCHAR2".to_string()).collect(),
        rows: rows.into_iter().map(|r| r.into_iter().map(|c| c.map(|s| s.to_string())).collect()).collect(),
        error: None,
        duration_ms: 1,
    }
}

#[test]
fn clip_keeps_short_values() {
    assert_eq!(clip_for_excel("abc"), "abc");
    let s = "é".repeat(20000);
    assert_eq!(clip_for_excel(&s), s);
}

#[test]
fn clip_cuts_long_values_by_characters() {
    let s = "a".repeat(40000);
    assert_eq!(clip_for_excel(&s).len(), 32767);
}

#[test]
fn per_server_sheets_skip_empty_results() {
    let results = vec![
        result("a-very-long-server-name-over-thirty-one-chars", &["ID", "NAME"], vec![vec![Some("1"), None]]),
        result("empty", &[], vec![]),
        result("b", &["ID"], vec![]),
    ];
    let sheets = per_server_layout(&results);
    assert_eq!(sheets.len(), 2);
    assert_eq!(sheets[0].name, "a-very-long-server-name-over-th");
    assert_eq!(sheets[0].header, vec!["ID".to_string(), "NAME".to_string()]);
    assert_eq!(sheets[0].rows, vec![vec!["1".to_string(), String::new()]]);
    assert_eq!(sheets[0].filter, Some((1, 1)));
    assert_eq!(sheets[1].name, "b");
    assert_eq!(sheets[1].filter, None);
}

#[test]
fn single_sheet_combines_servers() {
    let results = vec![
        result("none", &[], vec![]),
        result("s1", &["ID"], vec![vec![Some("1")], vec![Some("2")]]),
        result("s2", &["ID"], vec![vec![None]]),
    ];
    let sheet = single_sheet_layout(&results).unwrap();
    assert_eq!(sheet.name, "All Servers");
    assert_eq!(sheet.header, vec!["Server".to_string(), "ID".to_string()]);
    assert_eq!(
        sheet.rows,
        vec![
            vec!["s1".to_string(), "1".to_string()],
            vec!["s1".to_string(), "2".to_string()],
            vec!["s2".to_string(), String::new()],
        ]
    );
    assert_eq!(sheet.filter, Some((3, 1)));
    assert!(single_sheet_layout(&vec![result("x", &[], vec![])]).is_none());
}

#[test]
fn report_rows_and_styles() {
    let d = Discrepancy {
        difference: "MISSING".to_string(),
        element: "TABLE".to_string(),
        table_name: "EMP".to_string(),
        column_name: String::new(),
        server_name: "S2".to_string(),
        details: "gone".to_string(),
    };
    assert_eq!(report_header_row(), vec!["DIFFERENCE", "TABLE_NAME", "COLUMN_NAME", "SERVER_NAME", "DETAILS"]);
    assert_eq!(report_row(&d), vec!["MISSING", "EMP", "", "S2", "gone"]);
    assert_eq!(report_style("MISSING"), ReportStyle::Bad);
    assert_eq!(report_style("DIFFERENT"), ReportStyle::Neutral);
    assert_eq!(report_style("missing"), ReportStyle::Plain);
}

fn disc(difference: &str, table: &str, details: &str) -> Discrepancy {
    Discrepancy {
        difference: difference.to_string(),
        element: "COLUMN".to_string(),
        table_name: table.to_string(),
        column_name: "ID".to_string(),
        server_name: "DEV".to_string(),
        details: details.to_string(),
    }
}

#[test]
fn csv_report_has_header_and_rows() {
    let csv = report_csv(&[disc("MISSING", "T1", "absent")]);
    assert_eq!(csv, "DIFFERENCE;TABLE_NAME;COLUMN_NAME;SERVER_NAME;DETAILS\nMISSING;T1;ID;DEV;absent\n");
}

#[test]
fn csv_report_of_nothing_is_the_header() {
    assert_eq!(report_csv(&[]), "DIFFERENCE;TABLE_NAME;COLUMN_NAME;SERVER_NAME;DETAILS\n");
}

#[test]
fn csv_report_quotes_fields_that_need_it() {
    let csv = report_csv(&[disc("DIFFERENT", "T;2", "say \"hi\"\nthere")]);
    assert_eq!(
        csv,
        "DIFFERENCE;TABLE_NAME;COLUMN_NAME;SERVER_NAME;DETAILS\nDIFFERENT;\"T;2\";ID;DEV;\"say \"\"hi\"\"\nthere\"\n"
    );
}
