use file_cloud::config::{LogLevel, LogsConfig};

fn logs(warn: &str, error: &str, info: &str, debug: &str, trace: &str) -> LogsConfig {
    LogsConfig {
        global: "info".to_string(),
        error: error.to_string(),
        warn: warn.to_string(),
        info: info.to_string(),
        debug: debug.to_string(),
        trace: trace.to_string(),
    }
}

#[test]
fn module_filters_in_order_of_application() {
    let filters = logs("a,b", "c", "", "d", "e,f").module_filters();
    let got: Vec<(String, LogLevel)> = filters.into_iter().map(|f| (f.module, f.level)).collect();
    assert_eq!(
        got,
        vec![
            ("a".to_string(), LogLevel::Warn),
            ("b".to_string(), LogLevel::Warn),
            ("c".to_string(), LogLevel::Error),
            ("d".to_string(), LogLevel::Debug),
            ("e".to_string(), LogLevel::Trace),
            ("f".to_string(), LogLevel::Trace),
        ]
    );
}

#[test]
fn no_lists_no_filters() {
    assert!(logs("", "", "", "", "").module_filters().is_empty());
    let filters = logs("", "", "sqlx,", "", "").module_filters();
    let got: Vec<(String, LogLevel)> = filters.into_iter().map(|f| (f.module, f.level)).collect();
    assert_eq!(got, vec![("sqlx".to_string(), LogLevel::Info), ("".to_string(), LogLevel::Info)]);
}
