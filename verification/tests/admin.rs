use file_cloud::admin::{
    change_password, flag_text, new_user, reset_password, save_bucket, BucketChange, BucketSaveDto,
    UserChangePass, UserNewDto, UserUpPass,
};
use file_cloud::errors::AppError;
use file_cloud::session::UserInfo;

fn biz(r: Result<String, AppError>) -> String {
    match r {
        Err(AppError::BizError(text)) => text,
        other => panic!("unexpected {:?}", other),
    }
}

#[test]
fn new_users_need_a_name_and_a_password() {
    let full = UserNewDto { user_name: Some("ann".to_string()), password: Some("123456".to_string()) };
    let user = new_user(&full, 9, "ak".to_string(), "sk".to_string(), "now").unwrap();
    assert_eq!(user.id, 9);
    assert!(user.is_admin);
    assert_eq!(user.user_name, "ann");
    assert_eq!(user.password, "e10adc3949ba59abbe56e057f20f883e");
    assert_eq!(user.access_key, "ak");
    assert_eq!(user.secret_key, "sk");
    assert_eq!(user.create_time, "now");

    let nameless = UserNewDto { user_name: None, password: Some("x".to_string()) };
    match new_user(&nameless, 9, "ak".to_string(), "sk".to_string(), "now") {
        Err(AppError::BizError(text)) => assert_eq!(text, "user_name.is.null"),
        other => panic!("unexpected {:?}", other),
    }
    let open = UserNewDto { user_name: Some("ann".to_string()), password: None };
    match new_user(&open, 9, "ak".to_string(), "sk".to_string(), "now") {
        Err(AppError::BizError(text)) => assert_eq!(text, "password.is.null"),
        other => panic!("unexpected {:?}", other),
    }
}

fn ann() -> UserInfo {
    UserInfo {
        id: 1,
        is_admin: false,
        user_name: "ann".to_string(),
        password: "e10adc3949ba59abbe56e057f20f883e".to_string(),
        access_key: "ak".to_string(),
        secret_key: "sk".to_string(),
        create_time: "t".to_string(),
    }
}

fn change(old: Option<&str>, new: Option<&str>) -> Result<String, AppError> {
    let request = UserChangePass {
        user_name: "ann".to_string(),
        old_password: old.map(|s| s.to_string()),
        new_password: new.map(|s| s.to_string()),
    };
    change_password(&ann(), &request)
}

#[test]
fn changing_a_password() {
    assert_eq!(change(Some("123456"), Some("abc")).unwrap(), "900150983cd24fb0d6963f7d28e17f72");
    assert_eq!(biz(change(None, Some("abc"))), "old_password.is.null");
    assert_eq!(biz(change(Some("wrong"), Some("abc"))), "old_password.is.not.correct");
    assert_eq!(biz(change(Some("123456"), None)), "new_password.is.null");
    assert_eq!(biz(change(Some("wrong"), None)), "old_password.is.not.correct");
}

#[test]
fn setting_a_password() {
    let request = UserUpPass { user_name: "ann".to_string(), password: Some("abc".to_string()) };
    assert_eq!(reset_password(&request).unwrap(), "900150983cd24fb0d6963f7d28e17f72");
    let request = UserUpPass { user_name: "ann".to_string(), password: None };
    assert_eq!(biz(reset_password(&request)), "new_password.is.null");
}

#[test]
fn saving_buckets() {
    let add = BucketSaveDto { id: 0, name: "photos".to_string(), quota: 10, pub_read: true, pub_write: false };
    match save_bucket(&add, 500, "now").unwrap() {
        BucketChange::Insert { bucket } => {
            assert_eq!(bucket.id, 500);
            assert_eq!(bucket.name, "photos");
            assert_eq!(bucket.quota, 10);
            assert_eq!(bucket.current_quota, 0);
            assert!(bucket.pub_read);
            assert!(!bucket.pub_write);
            assert_eq!(bucket.create_time, "now");
        }
        other => panic!("unexpected {:?}", other),
    }
    let edit = BucketSaveDto { id: 7, name: "photos".to_string(), quota: 11, pub_read: false, pub_write: true };
    match save_bucket(&edit, 500, "now").unwrap() {
        BucketChange::Update { id, name, quota, pub_read, pub_write } => {
            assert_eq!((id, quota, pub_read, pub_write), (7, 11, false, true));
            assert_eq!(name, "photos");
        }
        other => panic!("unexpected {:?}", other),
    }
    let nameless = BucketSaveDto { id: 0, name: String::new(), quota: 1, pub_read: false, pub_write: false };
    assert!(matches!(save_bucket(&nameless, 1, "now"), Err(AppError::ValidateError(_))));
    let long = BucketSaveDto { id: 0, name: "b".repeat(33), quota: 1, pub_read: false, pub_write: false };
    assert!(matches!(save_bucket(&long, 1, "now"), Err(AppError::ValidateError(_))));
    assert_eq!(flag_text(true), "1");
    assert_eq!(flag_text(false), "0");
}
