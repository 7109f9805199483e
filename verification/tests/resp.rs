use file_cloud::resp::{BaseResponse, ResponsePage};

#[test]
fn plain_results() {
    let r = BaseResponse::ok_no_result();
    assert!(r.success && r.code.is_none() && r.msg.is_none() && r.data.is_none());
    let r = BaseResponse::ok_result();
    assert!(r.success && r.code.is_none() && r.msg.is_none());
    assert_eq!(r.data, Some("None".to_string()));
    let r = BaseResponse::ok_result_msg("done");
    assert!(r.success && r.code.is_none());
    assert_eq!(r.msg, Some("done".to_string()));
    assert_eq!(r.data, Some("None".to_string()));
    let r = BaseResponse::ok_result_code("7".to_string(), "seven".to_string());
    assert!(r.success);
    assert_eq!(r.code, Some("7".to_string()));
    assert_eq!(r.msg, Some("seven".to_string()));
    assert_eq!(r.data, Some("None".to_string()));
    let r = BaseResponse::err_result_code("8".to_string(), "eight".to_string());
    assert!(!r.success);
    assert_eq!(r.code, Some("8".to_string()));
    assert_eq!(r.msg, Some("eight".to_string()));
    assert_eq!(r.data, Some("None".to_string()));
}

#[test]
fn results_with_data() {
    let r = BaseResponse::ok_result_data(vec![1, 2, 3]);
    assert!(r.success && r.code.is_none() && r.msg.is_none());
    assert_eq!(r.data, Some(vec![1, 2, 3]));
    let r: BaseResponse<u8> = BaseResponse::ok_result_none();
    assert!(r.success && r.code.is_none() && r.msg.is_none() && r.data.is_none());
    let r: BaseResponse<u8> = BaseResponse::err_result_msg("no.right");
    assert!(!r.success && r.data.is_none());
    assert_eq!(r.code, Some("999".to_string()));
    assert_eq!(r.msg, Some("no.right".to_string()));
}

#[test]
fn pages() {
    let r = ResponsePage::ok_result_page(vec!["a"], 41);
    assert!(r.success);
    assert_eq!(r.code, 0);
    assert_eq!(r.msg, "操作成功");
    assert_eq!(r.total, 41);
    assert_eq!(r.data, Some(vec!["a"]));
    let r = ResponsePage::err_result_page(vec!["a"], "broken".to_string());
    assert!(!r.success);
    assert_eq!(r.code, 1);
    assert_eq!(r.msg, "broken");
    assert_eq!(r.total, 0);
    assert_eq!(r.data, Some(vec!["a"]));
}
