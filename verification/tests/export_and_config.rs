use windowed_statements::config::{export_file_name, login_info_file, Account, Config};
use windowed_statements::export::{export_rows, header_row, ExportError};
use windowed_statements::record::{StatementRecord, TaggedRecord};

fn account(phone: &str) -> Account {
    Account {
        phone: phone.to_string(),
        password: "pw".to_string(),
        device_id: "dev".to_string(),
        pin: "0000".to_string(),
        otp: None,
    }
}

#[test]
fn header_row_titles() {
    let h = header_row();
    assert_eq!(h.date, "date");
    assert_eq!(h.amount, "amount");
    assert_eq!(h.balance, "balance");
    assert_eq!(h.particular, "particular");
    assert_eq!(h.txn_type, "txn_type");
}

#[test]
fn export_projects_rows_in_order() {
    let records = vec![
        TaggedRecord {
            sequence_index: 0,
            record: StatementRecord {
                date: Some("2024-03-29".to_string()),
                amount: Some("100.00".to_string()),
                balance: Some("1100.00".to_string()),
                particular: Some("salary".to_string()),
                txn_type: Some("credit".to_string()),
            },
        },
        TaggedRecord {
            sequence_index: 1,
            record: StatementRecord {
                date: Some("2024-02-10".to_string()),
                amount: Some("25.50".to_string()),
                balance: Some("1000.00".to_string()),
                particular: Some("groceries".to_string()),
                txn_type: Some("debit".to_string()),
            },
        },
    ];
    let rows = export_rows(&records).expect("all fields present");
    assert_eq!(rows.len(), 3);
    assert_eq!(rows[0].date, "date");
    assert_eq!(rows[1].date, "2024-03-29");
    assert_eq!(rows[1].amount, "100.00");
    assert_eq!(rows[1].txn_type, "credit");
    assert_eq!(rows[2].particular, "groceries");
    assert_eq!(rows[2].balance, "1000.00");
}

#[test]
fn export_refuses_incomplete_record() {
    let records = vec![TaggedRecord {
        sequence_index: 0,
        record: StatementRecord {
            date: Some("2024-03-29".to_string()),
            amount: Some("100.00".to_string()),
            balance: None,
            particular: Some("salary".to_string()),
            txn_type: Some("credit".to_string()),
        },
    }];
    assert_eq!(export_rows(&records).unwrap_err(), ExportError::MissingField);
}

#[test]
fn export_of_nothing_is_only_the_header() {
    let rows = export_rows(&Vec::new()).expect("nothing to refuse");
    assert_eq!(rows.len(), 1);
    assert_eq!(rows[0].date, "date");
}

#[test]
fn config_selects_account() {
    let config = Config {
        use_account_idx: 1,
        accounts: vec![account("9800000000"), account("9811111111")],
    };
    assert!(config.account_index_valid());
    assert_eq!(config.account().phone, "9811111111");
    let bad = Config {
        use_account_idx: 2,
        accounts: vec![account("9800000000")],
    };
    assert!(!bad.account_index_valid());
}

#[test]
fn cache_file_names() {
    let config = Config {
        use_account_idx: 0,
        accounts: vec![account("9800000000")],
    };
    assert_eq!(login_info_file(&config), "cache/s_9800000000.json");
    assert_eq!(export_file_name(&config), "cache/statements_9800000000.xlsx");
}

#[test]
fn otp_presence() {
    let mut a = account("9800000000");
    assert!(!a.has_otp());
    a.otp = Some("1234".to_string());
    assert!(a.has_otp());
}
