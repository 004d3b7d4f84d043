//! The admin console's guard rails: an admin cannot suspend their own
//! account or change their own role, and the last active admin cannot be
//! demoted.
use vstd::prelude::*;
use crate::error::{AppError, ErrorView};
use crate::text::{cat, str_equal};

verus! {

/// The guard of the admin routes, given the signed-in user's role (`None`
/// when nobody is signed in): only the `admin` role passes.
pub fn require_admin(user_role: Option<&str>) -> (r: Result<(), AppError>)
    ensures
        match user_role {
            None => r matches Err(e) && e@ == ErrorView::Unauthorized,
            Some(role) => if role@ == "admin"@ {
                r is Ok
            } else {
                r matches Err(e) && e@ == ErrorView::Forbidden
            },
        },
{
    match user_role {
        None => Err(AppError::Unauthorized),
        Some(role) => if str_equal(role, "admin") {
            Ok(())
        } else {
            Err(AppError::Forbidden)
        },
    }
}

pub struct UserStatusForm {
    pub is_active: bool,
}

/// The check of a status change before the user is looked up: an admin
/// may not suspend themselves.
pub fn status_precheck(target: u128, admin: u128, form: &UserStatusForm) -> (r: Result<(), AppError>)
    ensures
        target == admin && !form.is_active ==> (r matches Err(e) && e@ == ErrorView::Unprocessable(
            "You cannot suspend your own account."@,
        )),
        !(target == admin && !form.is_active) ==> r is Ok,
{
    if target == admin && !form.is_active {
        return Err(AppError::Unprocessable("You cannot suspend your own account.".to_string()));
    }
    Ok(())
}

/// Whether the status is written (and audited): only a real change is.
pub fn status_changes(was_active: bool, form: &UserStatusForm) -> (r: bool)
    ensures
        r == (was_active != form.is_active),
{
    was_active != form.is_active
}

pub struct UserRoleForm {
    pub role: String,
}

pub open spec fn is_role(r: Seq<char>) -> bool {
    r == "admin"@ || r == "user"@
}

/// The checks of a role change before the user is looked up: the role is
/// `admin` or `user`, and the admin is not changing their own role.
pub fn role_precheck(target: u128, admin: u128, form: &UserRoleForm) -> (r: Result<(), AppError>)
    ensures
        !is_role(form.role@) ==> (r matches Err(e) && e@ == ErrorView::Unprocessable(
            "Invalid role: "@ + form.role@,
        )),
        is_role(form.role@) && target == admin ==> (r matches Err(e) && e@
            == ErrorView::Unprocessable("You cannot change your own role."@)),
        is_role(form.role@) && target != admin ==> r is Ok,
{
    if !str_equal(form.role.as_str(), "admin") && !str_equal(form.role.as_str(), "user") {
        return Err(AppError::Unprocessable(cat("Invalid role: ", form.role.as_str())));
    }
    if target == admin {
        return Err(AppError::Unprocessable("You cannot change your own role.".to_string()));
    }
    Ok(())
}

/// What a role change needs once the user's current role is known.
#[derive(Debug, Clone, Copy, PartialEq, Eq, Structural)]
pub enum RoleStep {
    /// The role is already the requested one; nothing is written.
    Unchanged,
    /// An admin is being demoted: the active admins must be counted first.
    CountAdmins,
    /// The role is written.
    Apply,
}

pub fn role_step(old_role: &str, form: &UserRoleForm) -> (r: RoleStep)
    ensures
        old_role@ == form.role@ ==> r == RoleStep::Unchanged,
        old_role@ != form.role@ && form.role@ != "admin"@ && old_role@ == "admin"@ ==> r
            == RoleStep::CountAdmins,
        old_role@ != form.role@ && !(form.role@ != "admin"@ && old_role@ == "admin"@) ==> r
            == RoleStep::Apply,
{
    if str_equal(old_role, form.role.as_str()) {
        RoleStep::Unchanged
    } else if !str_equal(form.role.as_str(), "admin") && str_equal(old_role, "admin") {
        RoleStep::CountAdmins
    } else {
        RoleStep::Apply
    }
}

/// A demotion goes through only while another active admin remains, so
/// at least one active admin is left afterwards.
pub fn demotion_check(active_admins: i64) -> (r: Result<(), AppError>)
    ensures
        active_admins <= 1 ==> (r matches Err(e) && e@ == ErrorView::Unprocessable(
            "Cannot demote the last active admin."@,
        )),
        r is Ok ==> active_admins - 1 >= 1,
        active_admins > 1 ==> r is Ok,
{
    if active_admins <= 1 {
        return Err(AppError::Unprocessable("Cannot demote the last active admin.".to_string()));
    }
    Ok(())
}

// ---------------------------------------------------------------------
// The role change on the users table
// ---------------------------------------------------------------------

/// A user as the admin console sees it.
#[derive(Debug, Clone)]
pub struct UserRow {
    pub id: u128,
    pub role: String,
    pub is_active: bool,
}

/// A user row as plain values: id, role, whether active.
pub open spec fn user_view(u: UserRow) -> (u128, Seq<char>, bool) {
    (u.id, u.role@, u.is_active)
}

pub open spec fn users_view(us: Seq<UserRow>) -> Seq<(u128, Seq<char>, bool)> {
    us.map_values(|u: UserRow| user_view(u))
}

pub open spec fn is_active_admin(u: (u128, Seq<char>, bool)) -> bool {
    u.1 == "admin"@ && u.2
}

/// The number of active admins.
pub open spec fn active_admin_count(us: Seq<(u128, Seq<char>, bool)>) -> int
    decreases us.len(),
{
    if us.len() == 0 {
        0
    } else {
        active_admin_count(us.drop_last()) + if is_active_admin(us.last()) {
            1int
        } else {
            0int
        }
    }
}

/// Index of the first user with the id, or -1.
pub open spec fn user_index(us: Seq<(u128, Seq<char>, bool)>, id: u128) -> int
    decreases us.len(),
{
    if us.len() == 0 {
        -1
    } else if user_index(us.drop_last(), id) >= 0 {
        user_index(us.drop_last(), id)
    } else if us.last().0 == id {
        us.len() - 1
    } else {
        -1
    }
}

/// What setting a user's role does to the users table: the checks before
/// the lookup, an unknown user, no change when the role is already the
/// requested one, the refusal to demote the last active admin, and
/// otherwise the table with that user's role replaced.
pub open spec fn role_change(us: Seq<(u128, Seq<char>, bool)>, admin: u128, target: u128, role: Seq<char>) -> Result<
    Seq<(u128, Seq<char>, bool)>,
    ErrorView,
> {
    if !is_role(role) {
        Err(ErrorView::Unprocessable("Invalid role: "@ + role))
    } else if target == admin {
        Err(ErrorView::Unprocessable("You cannot change your own role."@))
    } else if user_index(us, target) < 0 {
        Err(ErrorView::NotFound)
    } else {
        let k = user_index(us, target);
        let old = us[k].1;
        if old == role {
            Ok(us)
        } else if role != "admin"@ && old == "admin"@ && active_admin_count(us) <= 1 {
            Err(ErrorView::Unprocessable("Cannot demote the last active admin."@))
        } else {
            Ok(us.update(k, (target, role, us[k].2)))
        }
    }
}

proof fn lemma_user_index(us: Seq<(u128, Seq<char>, bool)>, id: u128)
    ensures
        -1 <= user_index(us, id) < us.len(),
        user_index(us, id) >= 0 ==> us[user_index(us, id)].0 == id,
        user_index(us, id) < 0 ==> forall|i: int| 0 <= i < us.len() ==> us[i].0 != id,
        user_index(us, id) >= 0 ==> forall|i: int| 0 <= i < user_index(us, id) ==> us[i].0 != id,
    decreases us.len(),
{
    if us.len() > 0 {
        lemma_user_index(us.drop_last(), id);
        assert forall|i: int| 0 <= i < us.len() - 1 implies us[i] == us.drop_last()[i] by {}
    }
}

proof fn lemma_count_update(us: Seq<(u128, Seq<char>, bool)>, k: int, x: (u128, Seq<char>, bool))
    requires
        0 <= k < us.len(),
    ensures
        active_admin_count(us.update(k, x)) == active_admin_count(us) - (if is_active_admin(us[k]) {
            1int
        } else {
            0int
        }) + (if is_active_admin(x) {
            1int
        } else {
            0int
        }),
    decreases us.len(),
{
    let u = us.update(k, x);
    if k == us.len() - 1 {
        assert(u.drop_last() =~= us.drop_last());
    } else {
        assert(u.drop_last() =~= us.drop_last().update(k, x));
        lemma_count_update(us.drop_last(), k, x);
    }
}

proof fn lemma_count_bounds(us: Seq<(u128, Seq<char>, bool)>)
    ensures
        0 <= active_admin_count(us) <= us.len(),
    decreases us.len(),
{
    if us.len() > 0 {
        lemma_count_bounds(us.drop_last());
    }
}

/// The last active admin is never demoted: a role change that goes through
/// leaves at least one active admin whenever there was one before.
pub proof fn role_change_keeps_an_admin(us: Seq<(u128, Seq<char>, bool)>, admin: u128, target: u128, role: Seq<char>)
    requires
        active_admin_count(us) >= 1,
        role_change(us, admin, target, role) is Ok,
    ensures
        active_admin_count(role_change(us, admin, target, role)->Ok_0) >= 1,
{
    lemma_user_index(us, target);
    let k = user_index(us, target);
    if k >= 0 && us[k].1 != role {
        lemma_count_update(us, k, (target, role, us[k].2));
    }
}

/// Setting a user's role on the users table (see `role_change`); the
/// table is returned as it is afterwards.
pub fn set_user_role(users: &Vec<UserRow>, admin: u128, target: u128, form: &UserRoleForm) -> (r: Result<
    Vec<UserRow>,
    AppError,
>)
    requires
        users@.len() < i64::MAX,
    ensures
        match (r, role_change(users_view(users@), admin, target, form.role@)) {
            (Ok(after), Ok(v)) => users_view(after@) == v,
            (Err(e), Err(v)) => e@ == v,
            _ => false,
        },
{
    let ghost uv = users_view(users@);
    proof {
        lemma_user_index(uv, target);
    }
    role_precheck(target, admin, form)?;
    let mut k: usize = 0;
    while k < users.len()
        invariant
            uv == users_view(users@),
            k <= users@.len(),
            forall|i: int| 0 <= i < k ==> uv[i].0 != target,
        ensures
            k <= users@.len(),
            forall|i: int| 0 <= i < k ==> uv[i].0 != target,
            k < users@.len() ==> uv[k as int].0 == target,
        decreases users@.len() - k,
    {
        if users[k].id == target {
            assert(uv[k as int] == user_view(users@[k as int]));
            break;
        }
        assert(uv[k as int] == user_view(users@[k as int]));
        k = k + 1;
    }
    if k == users.len() {
        assert(user_index(uv, target) < 0) by {
            if user_index(uv, target) >= 0 {
                assert(uv[user_index(uv, target)].0 == target);
            }
        }
        return Err(AppError::NotFound);
    }
    assert(uv[k as int].0 == target);
    assert(user_index(uv, target) == k) by {
        if user_index(uv, target) < 0 {
            assert(uv[k as int].0 != target);
        }
    }
    let old_role = users[k].role.clone();
    assert(old_role@ == uv[k as int].1);
    match role_step(old_role.as_str(), form) {
        RoleStep::Unchanged => {
            let mut same: Vec<UserRow> = Vec::new();
            for i in 0..users.len()
                invariant
                    users_view(same@) == uv.subrange(0, i as int),
                    uv == users_view(users@),
            {
                let u = &users[i];
                let ghost before = same@;
                same.push(UserRow { id: u.id, role: u.role.clone(), is_active: u.is_active });
                assert(uv[i as int] == user_view(users@[i as int]));
                assert(same@ == before.push(same@.last()));
                assert(users_view(same@) =~= users_view(before).push(user_view(same@.last())));
                assert(users_view(same@) =~= uv.subrange(0, i + 1));
            }
            assert(uv.subrange(0, uv.len() as int) =~= uv);
            return Ok(same);
        },
        RoleStep::CountAdmins => {
            let mut count: i64 = 0;
            for i in 0..users.len()
                invariant
                    uv == users_view(users@),
                    count == active_admin_count(uv.subrange(0, i as int)),
                    0 <= count <= i,
                    users@.len() < i64::MAX,
            {
                assert(uv.subrange(0, i + 1).drop_last() =~= uv.subrange(0, i as int));
                if users[i].is_active && str_equal(users[i].role.as_str(), "admin") {
                    count = count + 1;
                }
            }
            assert(uv.subrange(0, uv.len() as int) =~= uv);
            demotion_check(count)?;
        },
        RoleStep::Apply => {},
    }
    let mut after: Vec<UserRow> = Vec::new();
    for i in 0..users.len()
        invariant
            uv == users_view(users@),
            k < users@.len(),
            users_view(after@) == uv.update(k as int, (target, form.role@, uv[k as int].2)).subrange(
                0,
                i as int,
            ),
    {
        let u = &users[i];
        let ghost before = after@;
        assert(uv[i as int] == user_view(users@[i as int]));
        if i == k {
            after.push(UserRow { id: target, role: form.role.clone(), is_active: u.is_active });
        } else {
            after.push(UserRow { id: u.id, role: u.role.clone(), is_active: u.is_active });
        }
        assert(users_view(after@) =~= users_view(before).push(user_view(after@.last())));
        assert(users_view(after@) =~= uv.update(k as int, (target, form.role@, uv[k as int].2)).subrange(
            0,
            i + 1,
        ));
    }
    assert(uv.update(k as int, (target, form.role@, uv[k as int].2)).subrange(0, uv.len() as int)
        =~= uv.update(k as int, (target, form.role@, uv[k as int].2)));
    Ok(after)
}

} // verus!
