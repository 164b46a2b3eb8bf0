use vstd::prelude::*;

use crate::access::AccessLevel;
use crate::coordinator::{apply_set_level, apply_user_add, cookie_set_allowed};
use crate::store::{
    code_idx, codes_distinct, cookies_of, has_code, has_cookie, has_user, lemma_code_idx_is,
    lemma_code_update_distinct, lemma_user_idx_is, lemma_user_push_distinct,
    lemma_user_update_distinct, mark_code, set_cookie, user_idx, users_distinct,
};
use crate::types::{CodeV, CookieV, UserV};

verus! {

/// One caller-visible operation on a single identity, in the order the
/// coordinator serialized it.
pub enum UserOp {
    Add,
    Approve(AccessLevel),
    Revoke,
}

/// The user table after a serialized run of operations on one identity.
pub open spec fn run_user_ops(users: Seq<UserV>, id: i64, ops: Seq<UserOp>) -> Seq<UserV>
    decreases ops.len(),
{
    if ops.len() == 0 {
        users
    } else {
        let pre = run_user_ops(users, id, ops.drop_last());
        match ops.last() {
            UserOp::Add => apply_user_add(pre, id),
            UserOp::Approve(level) => apply_set_level(pre, id, level),
            UserOp::Revoke => apply_set_level(pre, id, AccessLevel::NoAccess),
        }
    }
}

/// The level written by the last approval or revocation of a run, if any:
/// an approval writes exactly the approved level, a revocation writes the
/// lowest level.
pub open spec fn last_written_level(ops: Seq<UserOp>) -> Option<i32>
    decreases ops.len(),
{
    if ops.len() == 0 {
        None
    } else {
        match ops.last() {
            UserOp::Approve(level) => Some(level.value()),
            UserOp::Revoke => Some(0i32),
            UserOp::Add => last_written_level(ops.drop_last()),
        }
    }
}

/// Setting a level keeps the keys unique, the identity present, and leaves
/// its stored value at exactly the written level.
proof fn lemma_set_level(users: Seq<UserV>, id: i64, level: AccessLevel)
    requires
        users_distinct(users),
    ensures
        users_distinct(apply_set_level(users, id, level)),
        has_user(apply_set_level(users, id, level), id),
        apply_set_level(users, id, level)[user_idx(apply_set_level(users, id, level), id)]
            == (UserV { id, authorized: level.value() }),
        apply_set_level(users, id, level).len() == if has_user(users, id) {
            users.len()
        } else {
            users.len() + 1
        },
{
    let u = UserV { id, authorized: level.value() };
    if has_user(users, id) {
        let j = user_idx(users, id);
        assert(0 <= j < users.len() && users[j].id == id);
        lemma_user_update_distinct(users, j, u);
        lemma_user_idx_is(users.update(j, u), id, j);
    } else {
        lemma_user_push_distinct(users, u);
        lemma_user_idx_is(users.push(u), id, users.len() as int);
    }
}

/// A run of operations keeps the user table's keys unique.
proof fn lemma_run_user_ops_distinct(users: Seq<UserV>, id: i64, ops: Seq<UserOp>)
    requires
        users_distinct(users),
    ensures
        users_distinct(run_user_ops(users, id, ops)),
    decreases ops.len(),
{
    if ops.len() != 0 {
        lemma_run_user_ops_distinct(users, id, ops.drop_last());
        let pre = run_user_ops(users, id, ops.drop_last());
        match ops.last() {
            UserOp::Add => {
                if !has_user(pre, id) {
                    lemma_user_push_distinct(pre, UserV { id, authorized: 0 });
                }
            },
            UserOp::Approve(level) => {
                lemma_set_level(pre, id, level);
            },
            UserOp::Revoke => {
                lemma_set_level(pre, id, AccessLevel::NoAccess);
            },
        }
    }
}

/// For every serialized run of first-contact, approval and revocation
/// operations on one identity that contains at least one approval or
/// revocation, the stored level afterwards is exactly the level written by
/// the last approval or revocation of the run — independent of how the
/// callers interleaved before serialization, since the run is the
/// serialization order itself.
pub proof fn lemma_last_writer_wins(users: Seq<UserV>, id: i64, ops: Seq<UserOp>)
    requires
        users_distinct(users),
        last_written_level(ops) is Some,
    ensures
        users_distinct(run_user_ops(users, id, ops)),
        has_user(run_user_ops(users, id, ops), id),
        run_user_ops(users, id, ops)[user_idx(run_user_ops(users, id, ops), id)].authorized
            == last_written_level(ops).unwrap(),
    decreases ops.len(),
{
    lemma_run_user_ops_distinct(users, id, ops);
    let pre = run_user_ops(users, id, ops.drop_last());
    match ops.last() {
        UserOp::Approve(level) => {
            lemma_run_user_ops_distinct(users, id, ops.drop_last());
            lemma_set_level(pre, id, level);
        },
        UserOp::Revoke => {
            lemma_run_user_ops_distinct(users, id, ops.drop_last());
            lemma_set_level(pre, id, AccessLevel::NoAccess);
        },
        UserOp::Add => {
            lemma_last_writer_wins(users, id, ops.drop_last());
            assert(has_user(pre, id));
            assert(run_user_ops(users, id, ops) == pre);
        },
    }
}

/// Finalizing a code is idempotent: marking a token finalized twice leaves
/// the same code table as marking it once.
pub proof fn lemma_finalize_idempotent(codes: Seq<CodeV>, code: Seq<char>)
    requires
        codes_distinct(codes),
    ensures
        mark_code(mark_code(codes, code, true), code, true) == mark_code(codes, code, true),
{
    if has_code(codes, code) {
        let j = code_idx(codes, code);
        assert(0 <= j < codes.len() && codes[j].code == code);
        let marked = CodeV { code, fr: true, message_id: codes[j].message_id };
        lemma_code_update_distinct(codes, j, marked);
        let m1 = mark_code(codes, code, true);
        lemma_code_idx_is(m1, code, j);
        assert(mark_code(m1, code, true) =~= m1);
    }
}

/// One upsert request: the credential identifier and the two tokens.
pub struct CookieSetReq {
    pub id: Seq<char>,
    pub csrf: Seq<char>,
    pub session: Seq<char>,
}

/// The cookie table after a serialized run of upsert requests for one
/// owner, each turn applying the capacity/ownership test and, when it
/// passes, the write.
pub open spec fn run_cookie_sets(
    cookies: Seq<CookieV>,
    user: i64,
    ceiling: nat,
    reqs: Seq<CookieSetReq>,
) -> Seq<CookieV>
    decreases reqs.len(),
{
    if reqs.len() == 0 {
        cookies
    } else {
        let pre = run_cookie_sets(cookies, user, ceiling, reqs.drop_last());
        let q = reqs.last();
        if cookie_set_allowed(pre, user, q.id, ceiling) {
            set_cookie(pre, user, q.csrf, q.session, q.id)
        } else {
            pre
        }
    }
}

/// How many requests of the run were accepted.
pub open spec fn count_cookie_set_successes(
    cookies: Seq<CookieV>,
    user: i64,
    ceiling: nat,
    reqs: Seq<CookieSetReq>,
) -> nat
    decreases reqs.len(),
{
    if reqs.len() == 0 {
        0
    } else {
        let pre = run_cookie_sets(cookies, user, ceiling, reqs.drop_last());
        let n = count_cookie_set_successes(cookies, user, ceiling, reqs.drop_last());
        if cookie_set_allowed(pre, user, reqs.last().id, ceiling) {
            n + 1
        } else {
            n
        }
    }
}

/// For a serialized run of upsert requests with pairwise-distinct fresh
/// identifiers, all for one owner, exactly as many requests are accepted
/// as the owner has room for under the ceiling — whatever the arrival
/// order, since every order is such a run. With a ceiling of two, an owner
/// starting at zero, and three distinct identifiers: exactly two are
/// accepted and one is refused.
pub proof fn lemma_cookie_capacity(
    cookies: Seq<CookieV>,
    user: i64,
    ceiling: nat,
    reqs: Seq<CookieSetReq>,
)
    requires
        forall|i: int| 0 <= i < reqs.len() ==> !has_cookie(cookies, (#[trigger] reqs[i]).id),
        forall|i: int, j: int|
            0 <= i < j < reqs.len() ==> (#[trigger] reqs[i]).id != (#[trigger] reqs[j]).id,
    ensures
        ({
            let c0 = cookies_of(cookies, user).len();
            &&& cookies_of(run_cookie_sets(cookies, user, ceiling, reqs), user).len() == c0
                + count_cookie_set_successes(cookies, user, ceiling, reqs)
            &&& forall|x: Seq<char>|
                #[trigger] has_cookie(run_cookie_sets(cookies, user, ceiling, reqs), x)
                    ==> has_cookie(cookies, x) || (exists|i: int|
                    0 <= i < reqs.len() && (#[trigger] reqs[i]).id == x)
            &&& count_cookie_set_successes(cookies, user, ceiling, reqs) == (if ceiling <= c0 {
                0nat
            } else if reqs.len() <= ceiling - c0 {
                reqs.len()
            } else {
                (ceiling - c0) as nat
            })
        }),
    decreases reqs.len(),
{
    let c0 = cookies_of(cookies, user).len();
    if reqs.len() != 0 {
        lemma_cookie_capacity(cookies, user, ceiling, reqs.drop_last());
        let pre = run_cookie_sets(cookies, user, ceiling, reqs.drop_last());
        let npre = count_cookie_set_successes(cookies, user, ceiling, reqs.drop_last());
        let q = reqs.last();
        assert(q == reqs[reqs.len() - 1]);
        assert(!has_cookie(cookies, q.id));
        assert(!has_cookie(pre, q.id)) by {
            if has_cookie(pre, q.id) {
                let i = choose|i: int| 0 <= i < reqs.drop_last().len() && (#[trigger] reqs.drop_last()[i]).id == q.id;
                assert(reqs[i].id != reqs[reqs.len() - 1].id);
            }
        }
        if cookie_set_allowed(pre, user, q.id, ceiling) {
            let fresh = CookieV {
                id: q.id,
                csrf_token: q.csrf,
                session_id: q.session,
                last_login: 0,
                belong: user,
                enabled: true,
            };
            let post = pre.push(fresh);
            assert(run_cookie_sets(cookies, user, ceiling, reqs) == post);
            assert(post.drop_last() =~= pre);
            assert(post.last() == fresh);
            assert(cookies_of(post, user) == cookies_of(pre, user).push(fresh));
            assert forall|x: Seq<char>| #[trigger] has_cookie(post, x) implies has_cookie(
                cookies,
                x,
            ) || (exists|i: int| 0 <= i < reqs.len() && (#[trigger] reqs[i]).id == x) by {
                let k = choose|k: int| 0 <= k < post.len() && post[k].id == x;
                if k < pre.len() {
                    assert(has_cookie(pre, x));
                } else {
                    assert(reqs[reqs.len() - 1].id == x);
                }
            }
        } else {
            assert(run_cookie_sets(cookies, user, ceiling, reqs) == pre);
        }
    }
}

} // verus!
