//! The rules behind the administration of users and buckets: what a
//! request must hold, and what it leaves in the catalog.

use crate::errors::{AppError, ErrorKind};
use crate::ident::{build_md5, md5_hex, password_matches};
use crate::models::{valid_bucket_name, validate_bucket_name, Bucket};
use crate::session::UserInfo;
use vstd::prelude::*;

verus! {

/// A request to add a user.
#[derive(Debug)]
pub struct UserNewDto {
    pub user_name: Option<String>,
    pub password: Option<String>,
}

/// A request of a user to change the password.
#[derive(Debug)]
pub struct UserChangePass {
    pub user_name: String,
    pub old_password: Option<String>,
    pub new_password: Option<String>,
}

/// A request of an administrator to set a user's password.
#[derive(Debug)]
pub struct UserUpPass {
    pub user_name: String,
    pub password: Option<String>,
}

/// Mathematical model of a [`UserInfo`].
pub struct UserModel {
    pub id: i64,
    pub is_admin: bool,
    pub user_name: Seq<char>,
    pub password: Seq<char>,
    pub access_key: Seq<char>,
    pub secret_key: Seq<char>,
    pub create_time: Seq<char>,
}

/// The model of a user.
pub open spec fn user_model(user: UserInfo) -> UserModel {
    UserModel {
        id: user.id,
        is_admin: user.is_admin,
        user_name: user.user_name@,
        password: user.password@,
        access_key: user.access_key@,
        secret_key: user.secret_key@,
        create_time: user.create_time@,
    }
}

/// Makes the record of a new user: the request must name the user and
/// give a password. The password is stored as its digest. A user added
/// this way is an administrator.
pub fn new_user(
    request: &UserNewDto,
    id: i64,
    access_key: String,
    secret_key: String,
    now: &str,
) -> (r: Result<UserInfo, AppError>)
    ensures
        r is Ok <==> request.user_name is Some && request.password is Some,
        r is Ok ==> user_model(r->Ok_0) == (UserModel {
            id,
            is_admin: true,
            user_name: request.user_name->0@,
            password: md5_hex(request.password->0@),
            access_key: access_key@,
            secret_key: secret_key@,
            create_time: now@,
        }),
        r is Err ==> r->Err_0.kind() == ErrorKind::BizError && r->Err_0.text() == (
        if request.user_name is None {
            "user_name.is.null"@
        } else {
            "password.is.null"@
        }),
{
    let user_name = match &request.user_name {
        Some(name) => name.clone(),
        None => {
            return Err(AppError::BizError(String::from_str("user_name.is.null")));
        },
    };
    let password = match &request.password {
        Some(password) => build_md5(password.as_str()),
        None => {
            return Err(AppError::BizError(String::from_str("password.is.null")));
        },
    };
    Ok(
        UserInfo {
            id,
            is_admin: true,
            user_name,
            password,
            access_key,
            secret_key,
            create_time: String::from_str(now),
        },
    )
}

/// What a change of password stores, or why it is refused.
pub open spec fn password_change(
    stored: Seq<char>,
    old_password: Option<Seq<char>>,
    new_password: Option<Seq<char>>,
) -> Result<Seq<char>, Seq<char>> {
    match old_password {
        None => Err("old_password.is.null"@),
        Some(old) => if stored != md5_hex(old) {
            Err("old_password.is.not.correct"@)
        } else {
            match new_password {
                None => Err("new_password.is.null"@),
                Some(new) => Ok(md5_hex(new)),
            }
        },
    }
}

/// The text of an optional string.
pub open spec fn opt_text(value: Option<String>) -> Option<Seq<char>> {
    match value {
        Some(s) => Some(s@),
        None => None,
    }
}

/// Decides a user's request to change the password: the old password
/// must be given and be the one stored, and a new one must be given. The
/// result is the digest to store.
pub fn change_password(user: &UserInfo, request: &UserChangePass) -> (r: Result<String, AppError>)
    ensures
        match password_change(
            user.password@,
            opt_text(request.old_password),
            opt_text(request.new_password),
        ) {
            Ok(digest) => r is Ok && r->Ok_0@ == digest,
            Err(text) => r is Err && r->Err_0.kind() == ErrorKind::BizError && r->Err_0.text()
                == text,
        },
{
    let old_password = match &request.old_password {
        Some(old) => old,
        None => {
            return Err(AppError::BizError(String::from_str("old_password.is.null")));
        },
    };
    if !password_matches(user.password.as_str(), old_password.as_str()) {
        return Err(AppError::BizError(String::from_str("old_password.is.not.correct")));
    }
    match &request.new_password {
        Some(new) => Ok(build_md5(new.as_str())),
        None => Err(AppError::BizError(String::from_str("new_password.is.null"))),
    }
}

/// Decides an administrator's request to set a password: one must be
/// given. The result is the digest to store.
pub fn reset_password(request: &UserUpPass) -> (r: Result<String, AppError>)
    ensures
        r is Ok <==> request.password is Some,
        r is Ok ==> r->Ok_0@ == md5_hex(request.password->0@),
        r is Err ==> r->Err_0.kind() == ErrorKind::BizError && r->Err_0.text()
            == "new_password.is.null"@,
{
    match &request.password {
        Some(new) => Ok(build_md5(new.as_str())),
        None => Err(AppError::BizError(String::from_str("new_password.is.null"))),
    }
}

/// A request to add or change a bucket; `id` is 0 for a bucket to add.
#[derive(Debug)]
pub struct BucketSaveDto {
    pub id: i64,
    pub name: String,
    pub quota: i32,
    pub pub_read: bool,
    pub pub_write: bool,
}

/// What the catalog has to do for a bucket.
#[derive(Debug)]
pub enum BucketChange {
    /// Add the bucket.
    Insert { bucket: Bucket },
    /// Set name, quota and flags of the bucket with this id.
    Update { id: i64, name: String, quota: i32, pub_read: bool, pub_write: bool },
}

/// Mathematical model of a [`BucketChange`].
pub enum BucketChangeModel {
    Insert {
        id: i64,
        name: Seq<char>,
        quota: i32,
        current_quota: i32,
        pub_read: bool,
        pub_write: bool,
        create_time: Seq<char>,
    },
    Update { id: i64, name: Seq<char>, quota: i32, pub_read: bool, pub_write: bool },
}

impl View for BucketChange {
    type V = BucketChangeModel;

    open spec fn view(&self) -> BucketChangeModel {
        match self {
            BucketChange::Insert { bucket } => BucketChangeModel::Insert {
                id: bucket.id,
                name: bucket.name@,
                quota: bucket.quota,
                current_quota: bucket.current_quota,
                pub_read: bucket.pub_read,
                pub_write: bucket.pub_write,
                create_time: bucket.create_time@,
            },
            BucketChange::Update { id, name, quota, pub_read, pub_write } => BucketChangeModel::Update {
                id: *id,
                name: name@,
                quota: *quota,
                pub_read: *pub_read,
                pub_write: *pub_write,
            },
        }
    }
}

/// Decides a request to save a bucket. The name must have between 1 and
/// 32 characters. A bucket without id is added under `fresh_id`, with
/// nothing used of its quota; a bucket with an id is changed.
pub fn save_bucket(request: &BucketSaveDto, fresh_id: i64, now: &str) -> (r: Result<
    BucketChange,
    AppError,
>)
    ensures
        r is Ok <==> valid_bucket_name(request.name@),
        r is Ok ==> r->Ok_0@ == if request.id == 0 {
            BucketChangeModel::Insert {
                id: fresh_id,
                name: request.name@,
                quota: request.quota,
                current_quota: 0,
                pub_read: request.pub_read,
                pub_write: request.pub_write,
                create_time: now@,
            }
        } else {
            BucketChangeModel::Update {
                id: request.id,
                name: request.name@,
                quota: request.quota,
                pub_read: request.pub_read,
                pub_write: request.pub_write,
            }
        },
        r is Err ==> r->Err_0.kind() == ErrorKind::ValidateError,
{
    match validate_bucket_name(request.name.as_str()) {
        Err(e) => {
            return Err(e);
        },
        Ok(_) => {},
    }
    if request.id == 0 {
        Ok(
            BucketChange::Insert {
                bucket: Bucket {
                    id: fresh_id,
                    name: request.name.clone(),
                    quota: request.quota,
                    current_quota: 0,
                    pub_read: request.pub_read,
                    pub_write: request.pub_write,
                    create_time: String::from_str(now),
                },
            },
        )
    } else {
        Ok(
            BucketChange::Update {
                id: request.id,
                name: request.name.clone(),
                quota: request.quota,
                pub_read: request.pub_read,
                pub_write: request.pub_write,
            },
        )
    }
}

/// The word the catalog stores for a flag.
pub fn flag_text(flag: bool) -> (s: &'static str)
    ensures
        s@ == if flag {
            "1"@
        } else {
            "0"@
        },
{
    if flag {
        "1"
    } else {
        "0"
    }
}

} // verus!
