//! Access control: who may read from or write to a bucket, and the table of
//! grants that decides it.

use crate::errors::{AppError, ErrorKind};
use vstd::prelude::*;

verus! {

/// The grant one user holds on one bucket.
#[derive(Clone, Copy, Debug, PartialEq, Eq, Structural)]
pub enum RightType {
    Read,
    Write,
    ReadWrite,
}

/// What a request wants to do with a bucket.
#[derive(Clone, Copy, Debug, PartialEq, Eq, Structural)]
pub enum Operation {
    Read,
    Write,
}

impl RightType {
    /// Whether this grant covers the operation: `Read` covers reading only,
    /// `Write` covers writing only, `ReadWrite` covers both.
    pub open spec fn covers(self, op: Operation) -> bool {
        match (self, op) {
            (RightType::Read, Operation::Read) => true,
            (RightType::Write, Operation::Write) => true,
            (RightType::ReadWrite, _) => true,
            _ => false,
        }
    }

    /// Executable form of [`RightType::covers`].
    pub fn allows(&self, op: Operation) -> (r: bool)
        ensures
            r == self.covers(op),
    {
        match (*self, op) {
            (RightType::Read, Operation::Read) => true,
            (RightType::Write, Operation::Write) => true,
            (RightType::ReadWrite, _) => true,
            _ => false,
        }
    }

    /// The number a grant is stored and cached under: 0 for `Read`, 1 for
    /// `Write`, 2 for `ReadWrite`.
    pub open spec fn code_of(self) -> i32 {
        match self {
            RightType::Read => 0,
            RightType::Write => 1,
            RightType::ReadWrite => 2,
        }
    }

    /// Executable form of [`RightType::code_of`].
    pub fn code(&self) -> (c: i32)
        ensures
            c == self.code_of(),
    {
        match self {
            RightType::Read => 0,
            RightType::Write => 1,
            RightType::ReadWrite => 2,
        }
    }

    /// The grant stored under a number, if the number stands for one.
    pub fn from_code(code: i32) -> (r: Option<RightType>)
        ensures
            r is Some <==> 0 <= code <= 2,
            r is Some ==> r->0.code_of() == code,
    {
        if code == 0 {
            Some(RightType::Read)
        } else if code == 1 {
            Some(RightType::Write)
        } else if code == 2 {
            Some(RightType::ReadWrite)
        } else {
            None
        }
    }

    /// The word the catalog stores for this grant.
    pub open spec fn word(self) -> Seq<char> {
        match self {
            RightType::Read => "read"@,
            RightType::Write => "write"@,
            RightType::ReadWrite => "read_write"@,
        }
    }

    /// Executable form of [`RightType::word`].
    pub fn as_str(&self) -> (s: &'static str)
        ensures
            s@ == self.word(),
    {
        match self {
            RightType::Read => "read",
            RightType::Write => "write",
            RightType::ReadWrite => "read_write",
        }
    }

    /// The grant that a stored word stands for, if it stands for one.
    pub fn parse(word: &str) -> (r: Option<RightType>)
        ensures
            r is Some ==> r->0.word() == word@,
            r is None ==> forall|right: RightType| #[trigger] right.word() != word@,
    {
        if crate::text::same_text(word, "read") {
            Some(RightType::Read)
        } else if crate::text::same_text(word, "write") {
            Some(RightType::Write)
        } else if crate::text::same_text(word, "read_write") {
            Some(RightType::ReadWrite)
        } else {
            None
        }
    }
}

/// The access rule. An administrator may do anything. Anyone may read a
/// bucket that is public for reading, and write to one that is public for
/// writing. Otherwise the user needs a grant on the bucket that covers
/// the operation.
pub open spec fn permitted(
    is_admin: bool,
    pub_read: bool,
    pub_write: bool,
    grant: Option<RightType>,
    op: Operation,
) -> bool {
    ||| is_admin
    ||| op == Operation::Read && pub_read
    ||| op == Operation::Write && pub_write
    ||| grant is Some && grant->0.covers(op)
}

/// Whether the rule is settled without looking at the user's grant:
/// the user is an administrator, or the bucket is public for the operation.
pub open spec fn open_to(is_admin: bool, pub_read: bool, pub_write: bool, op: Operation) -> bool {
    permitted(is_admin, pub_read, pub_write, None, op)
}

/// Decides before any lookup: `true` when the request is allowed whatever
/// grant the user holds, so that the catalog need not be asked.
pub fn allowed_without_grant(is_admin: bool, pub_read: bool, pub_write: bool, op: Operation) -> (r:
    bool)
    ensures
        r == open_to(is_admin, pub_read, pub_write, op),
{
    if is_admin {
        return true;
    }
    match op {
        Operation::Read => pub_read,
        Operation::Write => pub_write,
    }
}

/// Decides a request, given the grant the user holds on the bucket, if any.
pub fn is_permitted(
    is_admin: bool,
    pub_read: bool,
    pub_write: bool,
    grant: Option<RightType>,
    op: Operation,
) -> (r: bool)
    ensures
        r == permitted(is_admin, pub_read, pub_write, grant, op),
{
    if allowed_without_grant(is_admin, pub_read, pub_write, op) {
        return true;
    }
    match grant {
        Some(right) => right.allows(op),
        None => false,
    }
}

/// Like [`is_permitted`], with the refusal as an error.
pub fn authorize(
    is_admin: bool,
    pub_read: bool,
    pub_write: bool,
    grant: Option<RightType>,
    op: Operation,
) -> (r: Result<(), AppError>)
    ensures
        r is Ok <==> permitted(is_admin, pub_read, pub_write, grant, op),
        r is Err ==> r->Err_0.kind() == ErrorKind::PermissionDenied && r->Err_0.text()
            == "no.right"@,
{
    if is_permitted(is_admin, pub_read, pub_write, grant, op) {
        Ok(())
    } else {
        Err(AppError::PermissionDenied(String::from_str("no.right")))
    }
}

/// One row of the grant table: the right of one user on one bucket.
#[derive(Clone, Copy, Debug)]
pub struct UserBucket {
    pub id: i64,
    pub user_id: i64,
    pub bucket_id: i64,
    pub right: RightType,
}

impl UserBucket {
    /// Whether the row is about this user and this bucket.
    pub open spec fn is_for(self, user_id: i64, bucket_id: i64) -> bool {
        self.user_id == user_id && self.bucket_id == bucket_id
    }
}

/// No two rows are about the same user and bucket.
pub open spec fn unique_pairs(rows: Seq<UserBucket>) -> bool {
    forall|i: int, j: int|
        0 <= i < j < rows.len() ==> !(#[trigger] rows[i]).is_for(
            (#[trigger] rows[j]).user_id,
            rows[j].bucket_id,
        )
}

/// The row of the table for a user and a bucket, if there is one (the last
/// one, should the table hold several).
pub open spec fn grant_row(rows: Seq<UserBucket>, user_id: i64, bucket_id: i64) -> Option<
    UserBucket,
>
    decreases rows.len(),
{
    if rows.len() == 0 {
        None
    } else if rows.last().is_for(user_id, bucket_id) {
        Some(rows.last())
    } else {
        grant_row(rows.drop_last(), user_id, bucket_id)
    }
}

/// The right a user holds on a bucket according to the table.
pub open spec fn granted(rows: Seq<UserBucket>, user_id: i64, bucket_id: i64) -> Option<
    RightType,
> {
    match grant_row(rows, user_id, bucket_id) {
        Some(row) => Some(row.right),
        None => None,
    }
}

/// A row that is found is a row of the table, and about the pair asked for.
pub proof fn lemma_grant_row_is_member(rows: Seq<UserBucket>, user_id: i64, bucket_id: i64)
    ensures
        grant_row(rows, user_id, bucket_id) is Some ==> exists|i: int|
            0 <= i < rows.len() && #[trigger] rows[i] == grant_row(
                rows,
                user_id,
                bucket_id,
            )->0 && rows[i].is_for(user_id, bucket_id),
        grant_row(rows, user_id, bucket_id) is None ==> forall|i: int|
            0 <= i < rows.len() ==> !(#[trigger] rows[i]).is_for(user_id, bucket_id),
    decreases rows.len(),
{
    if rows.len() > 0 {
        if rows.last().is_for(user_id, bucket_id) {
            assert(rows[rows.len() - 1] == rows.last());
        } else {
            lemma_grant_row_is_member(rows.drop_last(), user_id, bucket_id);
            if grant_row(rows, user_id, bucket_id) is Some {
                let i = choose|i: int|
                    0 <= i < rows.drop_last().len() && #[trigger] rows.drop_last()[i] == grant_row(
                        rows.drop_last(),
                        user_id,
                        bucket_id,
                    )->0 && rows.drop_last()[i].is_for(user_id, bucket_id);
                assert(rows[i] == rows.drop_last()[i]);
            } else {
                assert forall|i: int| 0 <= i < rows.len() implies !(#[trigger] rows[i]).is_for(
                    user_id,
                    bucket_id,
                ) by {
                    if i < rows.len() - 1 {
                        assert(rows[i] == rows.drop_last()[i]);
                    }
                }
            }
        }
    }
}

/// Looks up the row for a user and a bucket.
pub fn find_grant(rows: &Vec<UserBucket>, user_id: i64, bucket_id: i64) -> (r: Option<UserBucket>)
    ensures
        r == grant_row(rows@, user_id, bucket_id),
{
    let mut i: usize = rows.len();
    proof {
        assert(rows@.take(i as int) =~= rows@);
    }
    while i > 0
        invariant
            i <= rows.len(),
            grant_row(rows@, user_id, bucket_id) == grant_row(
                rows@.take(i as int),
                user_id,
                bucket_id,
            ),
        decreases i,
    {
        let row = rows[i - 1];
        proof {
            assert(rows@.take(i as int).last() == rows@[i as int - 1]);
            assert(rows@.take(i as int).drop_last() =~= rows@.take(i as int - 1));
        }
        if row.user_id == user_id && row.bucket_id == bucket_id {
            return Some(row);
        }
        i -= 1;
    }
    None
}

/// What the catalog has to do to record a grant.
#[derive(Clone, Copy, Debug)]
pub enum GrantPlan {
    /// Change the right of the existing row with this id.
    Update { row_id: i64, right: RightType },
    /// Add a row for the pair.
    Insert { user_id: i64, bucket_id: i64, right: RightType },
}

/// Plans a grant: the existing row for the pair is changed; only where
/// there is none, a row is added. So no pair ever gets a second row.
pub fn plan_grant(existing: Option<UserBucket>, user_id: i64, bucket_id: i64, right: RightType) -> (p:
    GrantPlan)
    ensures
        p == match existing {
            Some(row) => GrantPlan::Update { row_id: row.id, right },
            None => GrantPlan::Insert { user_id, bucket_id, right },
        },
{
    match existing {
        Some(row) => GrantPlan::Update { row_id: row.id, right },
        None => GrantPlan::Insert { user_id, bucket_id, right },
    }
}

proof fn lemma_granted_after_update(
    rows: Seq<UserBucket>,
    at: int,
    right: RightType,
    user_id: i64,
    bucket_id: i64,
)
    requires
        0 <= at < rows.len(),
        unique_pairs(rows),
    ensures
        granted(rows.update(at, UserBucket { right, ..rows[at] }), user_id, bucket_id) == if rows[at].is_for(
            user_id,
            bucket_id,
        ) {
            Some(right)
        } else {
            granted(rows, user_id, bucket_id)
        },
    decreases rows.len(),
{
    let changed = rows.update(at, UserBucket { right, ..rows[at] });
    let last = rows.len() - 1;
    if at == last {
        assert(changed.drop_last() =~= rows.drop_last());
    } else {
        assert(changed.drop_last() =~= rows.drop_last().update(
            at,
            UserBucket { right, ..rows.drop_last()[at] },
        ));
        assert(changed.last() == rows.last());
        assert(unique_pairs(rows.drop_last())) by {
            assert forall|i: int, j: int| 0 <= i < j < rows.drop_last().len() implies !(
            #[trigger] rows.drop_last()[i]).is_for(
                (#[trigger] rows.drop_last()[j]).user_id,
                rows.drop_last()[j].bucket_id,
            ) by {
                assert(rows.drop_last()[i] == rows[i]);
                assert(rows.drop_last()[j] == rows[j]);
            }
        }
        if rows.last().is_for(user_id, bucket_id) {
            assert(!rows[at].is_for(rows[last].user_id, rows[last].bucket_id));
        } else {
            lemma_granted_after_update(rows.drop_last(), at, right, user_id, bucket_id);
        }
    }
}

/// The grants of all users on all buckets, held in memory. No user has
/// two rows for one bucket.
#[derive(Debug)]
pub struct RightsTable {
    rows: Vec<UserBucket>,
}

impl View for RightsTable {
    type V = Seq<UserBucket>;

    closed spec fn view(&self) -> Seq<UserBucket> {
        self.rows@
    }
}

impl RightsTable {
    /// No two rows are about the same user and bucket.
    pub open spec fn well_formed(&self) -> bool {
        unique_pairs(self@)
    }

    /// A table without grants.
    pub fn new() -> (out: Self)
        ensures
            out@ == Seq::<UserBucket>::empty(),
            out.well_formed(),
    {
        RightsTable { rows: Vec::new() }
    }

    /// Number of rows.
    pub fn len(&self) -> (n: usize)
        ensures
            n == self@.len(),
    {
        self.rows.len()
    }

    /// The row for a user and a bucket.
    pub fn find(&self, user_id: i64, bucket_id: i64) -> (r: Option<UserBucket>)
        ensures
            r == grant_row(self@, user_id, bucket_id),
    {
        find_grant(&self.rows, user_id, bucket_id)
    }

    /// Grants a user a right on a bucket: the row for the pair gets the
    /// new right, or, if the pair has no row, one is added under
    /// `fresh_id`. No other pair is touched, and no pair ever gets a
    /// second row.
    pub fn grant(&mut self, user_id: i64, bucket_id: i64, right: RightType, fresh_id: i64)
        requires
            old(self).well_formed(),
        ensures
            final(self).well_formed(),
            forall|u: i64, b: i64|
                #[trigger] granted(final(self)@, u, b) == if u == user_id && b == bucket_id {
                    Some(right)
                } else {
                    granted(old(self)@, u, b)
                },
            final(self)@.len() == old(self)@.len() + if granted(old(self)@, user_id, bucket_id)
                is None {
                1int
            } else {
                0int
            },
    {
        grant_right(&mut self.rows, user_id, bucket_id, right, fresh_id);
    }
}

fn grant_right(
    rows: &mut Vec<UserBucket>,
    user_id: i64,
    bucket_id: i64,
    right: RightType,
    fresh_id: i64,
)
    requires
        unique_pairs(old(rows)@),
    ensures
        unique_pairs(final(rows)@),
        forall|u: i64, b: i64|
            #[trigger] granted(final(rows)@, u, b) == if u == user_id && b == bucket_id {
                Some(right)
            } else {
                granted(old(rows)@, u, b)
            },
        final(rows)@.len() == old(rows)@.len() + if granted(old(rows)@, user_id, bucket_id)
            is None {
            1int
        } else {
            0int
        },
{
    let mut i: usize = rows.len();
    proof {
        assert(rows@.take(i as int) =~= rows@);
    }
    while i > 0
        invariant
            i <= rows.len(),
            rows@ == old(rows)@,
            unique_pairs(rows@),
            grant_row(rows@, user_id, bucket_id) == grant_row(
                rows@.take(i as int),
                user_id,
                bucket_id,
            ),
        decreases i,
    {
        let row = rows[i - 1];
        proof {
            assert(rows@.take(i as int).last() == rows@[i as int - 1]);
            assert(rows@.take(i as int).drop_last() =~= rows@.take(i as int - 1));
        }
        if row.user_id == user_id && row.bucket_id == bucket_id {
            let ghost before = rows@;
            rows.set(i - 1, UserBucket { right, ..row });
            proof {
                assert forall|u: i64, b: i64| #[trigger]
                    granted(rows@, u, b) == if u == user_id && b == bucket_id {
                        Some(right)
                    } else {
                        granted(before, u, b)
                    } by {
                    lemma_granted_after_update(before, i as int - 1, right, u, b);
                }
                assert forall|x: int, y: int| 0 <= x < y < rows@.len() implies !(
                #[trigger] rows@[x]).is_for((#[trigger] rows@[y]).user_id, rows@[y].bucket_id) by {
                    assert(rows@[x].is_for(rows@[y].user_id, rows@[y].bucket_id) == before[x].is_for(
                        before[y].user_id,
                        before[y].bucket_id,
                    ));
                }
            }
            return ;
        }
        i -= 1;
    }
    let ghost before = rows@;
    rows.push(UserBucket { id: fresh_id, user_id, bucket_id, right });
    proof {
        assert(rows@.drop_last() =~= before);
        lemma_grant_row_is_member(before, user_id, bucket_id);
        assert forall|x: int, y: int| 0 <= x < y < rows@.len() implies !(#[trigger] rows@[x]).is_for(
            (#[trigger] rows@[y]).user_id,
            rows@[y].bucket_id,
        ) by {
            if y < before.len() {
                assert(rows@[x] == before[x] && rows@[y] == before[y]);
            } else {
                assert(rows@[x] == before[x]);
            }
        }
    }
}

} // verus!
