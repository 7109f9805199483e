use file_cloud::access::{
    allowed_without_grant, authorize, find_grant, is_permitted, plan_grant, GrantPlan, Operation,
    RightType, RightsTable, UserBucket,
};
use file_cloud::errors::AppError;

fn expected(pub_read: bool, pub_write: bool, grant: Option<RightType>, op: Operation) -> bool {
    let by_flag = match op {
        Operation::Read => pub_read,
        Operation::Write => pub_write,
    };
    let by_grant = match (grant, op) {
        (Some(RightType::Read), Operation::Read) => true,
        (Some(RightType::Write), Operation::Write) => true,
        (Some(RightType::ReadWrite), _) => true,
        _ => false,
    };
    by_flag || by_grant
}

#[test]
fn rights_matrix() {
    let flags = [(false, false), (true, false), (false, true), (true, true)];
    let grants = [
        None,
        Some(RightType::Read),
        Some(RightType::Write),
        Some(RightType::ReadWrite),
    ];
    let ops = [Operation::Read, Operation::Write];
    let mut cases = 0;
    for (pub_read, pub_write) in flags {
        for grant in grants {
            for op in ops {
                let allowed = is_permitted(false, pub_read, pub_write, grant, op);
                assert_eq!(allowed, expected(pub_read, pub_write, grant, op));
                assert_eq!(authorize(false, pub_read, pub_write, grant, op).is_ok(), allowed);
                cases += 1;
            }
        }
    }
    assert_eq!(cases, 32);
}

#[test]
fn rights_matrix_spelled_out_for_a_private_bucket() {
    assert!(!is_permitted(false, false, false, None, Operation::Read));
    assert!(!is_permitted(false, false, false, None, Operation::Write));
    assert!(is_permitted(false, false, false, Some(RightType::Read), Operation::Read));
    assert!(!is_permitted(false, false, false, Some(RightType::Read), Operation::Write));
    assert!(!is_permitted(false, false, false, Some(RightType::Write), Operation::Read));
    assert!(is_permitted(false, false, false, Some(RightType::Write), Operation::Write));
    assert!(is_permitted(false, false, false, Some(RightType::ReadWrite), Operation::Read));
    assert!(is_permitted(false, false, false, Some(RightType::ReadWrite), Operation::Write));
}

#[test]
fn public_flags_open_one_operation_each() {
    assert!(is_permitted(false, true, false, None, Operation::Read));
    assert!(!is_permitted(false, true, false, None, Operation::Write));
    assert!(!is_permitted(false, false, true, None, Operation::Read));
    assert!(is_permitted(false, false, true, None, Operation::Write));
    assert!(allowed_without_grant(false, true, false, Operation::Read));
    assert!(!allowed_without_grant(false, true, false, Operation::Write));
}

#[test]
fn administrator_is_always_allowed() {
    for op in [Operation::Read, Operation::Write] {
        assert!(is_permitted(true, false, false, None, op));
        assert!(allowed_without_grant(true, false, false, op));
        assert!(authorize(true, false, false, None, op).is_ok());
    }
}

#[test]
fn refusal_is_permission_denied() {
    match authorize(false, false, false, None, Operation::Write) {
        Err(AppError::PermissionDenied(text)) => assert_eq!(text, "no.right"),
        other => panic!("unexpected {:?}", other),
    }
}

#[test]
fn right_codes_and_words() {
    assert_eq!(RightType::Read.code(), 0);
    assert_eq!(RightType::Write.code(), 1);
    assert_eq!(RightType::ReadWrite.code(), 2);
    assert_eq!(RightType::from_code(0), Some(RightType::Read));
    assert_eq!(RightType::from_code(1), Some(RightType::Write));
    assert_eq!(RightType::from_code(2), Some(RightType::ReadWrite));
    assert_eq!(RightType::from_code(3), None);
    assert_eq!(RightType::from_code(-1), None);
    assert_eq!(RightType::Read.as_str(), "read");
    assert_eq!(RightType::Write.as_str(), "write");
    assert_eq!(RightType::ReadWrite.as_str(), "read_write");
}

#[test]
fn grant_inserts_then_updates_without_duplicates() {
    let mut table = RightsTable::new();
    assert_eq!(table.len(), 0);
    table.grant(7, 3, RightType::Read, 100);
    assert_eq!(table.len(), 1);
    assert_eq!(table.find(7, 3).map(|r| (r.id, r.right)), Some((100, RightType::Read)));

    table.grant(7, 3, RightType::ReadWrite, 101);
    assert_eq!(table.len(), 1);
    assert_eq!(table.find(7, 3).map(|r| (r.id, r.right)), Some((100, RightType::ReadWrite)));

    table.grant(7, 4, RightType::Write, 102);
    table.grant(8, 3, RightType::Read, 103);
    assert_eq!(table.len(), 3);
    assert_eq!(table.find(7, 3).map(|r| r.right), Some(RightType::ReadWrite));
    assert_eq!(table.find(7, 4).map(|r| r.right), Some(RightType::Write));
    assert_eq!(table.find(8, 3).map(|r| r.right), Some(RightType::Read));
    assert!(table.find(8, 4).is_none());

    for _ in 0..5 {
        table.grant(8, 3, RightType::Write, 104);
    }
    assert_eq!(table.len(), 3);
    assert_eq!(table.find(8, 3).map(|r| (r.id, r.right)), Some((103, RightType::Write)));
}

#[test]
fn grant_rows_fetched_from_the_catalog() {
    let rows = vec![
        UserBucket { id: 1, user_id: 7, bucket_id: 3, right: RightType::Read },
        UserBucket { id: 2, user_id: 7, bucket_id: 4, right: RightType::Write },
    ];
    assert_eq!(find_grant(&rows, 7, 4).map(|r| r.id), Some(2));
    assert_eq!(find_grant(&rows, 7, 3).map(|r| r.right), Some(RightType::Read));
    assert!(find_grant(&rows, 8, 3).is_none());
    assert!(find_grant(&Vec::new(), 7, 3).is_none());
}

#[test]
fn plan_grant_updates_the_existing_row() {
    let row = UserBucket { id: 55, user_id: 1, bucket_id: 2, right: RightType::Read };
    match plan_grant(Some(row), 1, 2, RightType::Write) {
        GrantPlan::Update { row_id, right } => {
            assert_eq!(row_id, 55);
            assert_eq!(right, RightType::Write);
        }
        other => panic!("unexpected {:?}", other),
    }
    match plan_grant(None, 1, 2, RightType::Write) {
        GrantPlan::Insert { user_id, bucket_id, right } => {
            assert_eq!((user_id, bucket_id), (1, 2));
            assert_eq!(right, RightType::Write);
        }
        other => panic!("unexpected {:?}", other),
    }
}
