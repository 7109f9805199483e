//! The envelopes in which results are handed to a client.

use vstd::prelude::*;

verus! {

/// The code sent with an error that carries no code of its own.
pub open spec fn default_error_code() -> Seq<char> {
    "999"@
}

/// The placeholder sent as data where a result has none.
pub open spec fn no_data() -> Seq<char> {
    "None"@
}

/// The message of a page that was fetched.
pub open spec fn page_ok_message() -> Seq<char> {
    "操作成功"@
}

/// The text of an optional string.
pub open spec fn text_of(value: Option<String>) -> Option<Seq<char>> {
    match value {
        Some(s) => Some(s@),
        None => None,
    }
}

/// The envelope of a single result.
#[derive(Debug)]
pub struct BaseResponse<T> {
    pub code: Option<String>,
    pub msg: Option<String>,
    pub success: bool,
    pub data: Option<T>,
}

impl BaseResponse<String> {
    /// Success, with nothing to say.
    pub fn ok_no_result() -> (r: BaseResponse<String>)
        ensures
            r.success,
            r.code is None,
            r.msg is None,
            r.data is None,
    {
        BaseResponse { msg: None, code: None, success: true, data: None }
    }

    /// Success, with the placeholder as data.
    pub fn ok_result() -> (r: BaseResponse<String>)
        ensures
            r.success,
            r.code is None,
            r.msg is None,
            text_of(r.data) == Some(no_data()),
    {
        BaseResponse { msg: None, code: None, success: true, data: Some(String::from_str("None")) }
    }

    /// Success, with a message.
    pub fn ok_result_msg(msg: &str) -> (r: BaseResponse<String>)
        ensures
            r.success,
            r.code is None,
            text_of(r.msg) == Some(msg@),
            text_of(r.data) == Some(no_data()),
    {
        BaseResponse {
            msg: Some(String::from_str(msg)),
            code: None,
            success: true,
            data: Some(String::from_str("None")),
        }
    }

    /// Success, with a code and a message.
    pub fn ok_result_code(code: String, msg: String) -> (r: BaseResponse<String>)
        ensures
            r.success,
            text_of(r.code) == Some(code@),
            text_of(r.msg) == Some(msg@),
            text_of(r.data) == Some(no_data()),
    {
        BaseResponse {
            msg: Some(msg),
            code: Some(code),
            success: true,
            data: Some(String::from_str("None")),
        }
    }

    /// Failure, with a code and a message.
    pub fn err_result_code(code: String, msg: String) -> (r: BaseResponse<String>)
        ensures
            !r.success,
            text_of(r.code) == Some(code@),
            text_of(r.msg) == Some(msg@),
            text_of(r.data) == Some(no_data()),
    {
        BaseResponse {
            msg: Some(msg),
            code: Some(code),
            success: false,
            data: Some(String::from_str("None")),
        }
    }
}

impl<T> BaseResponse<T> {
    /// Success, with data.
    pub fn ok_result_data(data: T) -> (r: BaseResponse<T>)
        ensures
            r.success,
            r.code is None,
            r.msg is None,
            r.data == Some(data),
    {
        BaseResponse { msg: None, code: None, success: true, data: Some(data) }
    }

    /// Success, without data.
    pub fn ok_result_none() -> (r: BaseResponse<T>)
        ensures
            r.success,
            r.code is None,
            r.msg is None,
            r.data is None,
    {
        BaseResponse { msg: None, code: None, success: true, data: None }
    }

    /// Failure, with a message and the default error code.
    pub fn err_result_msg(msg: &str) -> (r: BaseResponse<T>)
        ensures
            !r.success,
            text_of(r.code) == Some(default_error_code()),
            text_of(r.msg) == Some(msg@),
            r.data is None,
    {
        BaseResponse {
            msg: Some(String::from_str(msg)),
            code: Some(String::from_str("999")),
            success: false,
            data: None,
        }
    }
}

/// The envelope of one page of results.
#[derive(Debug)]
pub struct ResponsePage<T> {
    pub code: i32,
    pub msg: String,
    pub total: u64,
    pub success: bool,
    pub data: Option<T>,
}

impl<T> ResponsePage<T> {
    /// A page that was fetched, with the number of rows in all.
    pub fn ok_result_page(data: T, total: u64) -> (r: ResponsePage<T>)
        ensures
            r.success,
            r.code == 0,
            r.msg@ == page_ok_message(),
            r.total == total,
            r.data == Some(data),
    {
        ResponsePage {
            msg: String::from_str("操作成功"),
            code: 0,
            success: true,
            data: Some(data),
            total,
        }
    }

    /// A page that could not be fetched.
    pub fn err_result_page(data: T, msg: String) -> (r: ResponsePage<T>)
        ensures
            !r.success,
            r.code == 1,
            r.msg@ == msg@,
            r.total == 0,
            r.data == Some(data),
    {
        ResponsePage { msg, code: 1, success: false, data: Some(data), total: 0 }
    }
}

} // verus!
