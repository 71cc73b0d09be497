//! Account administration: who may act as administrator, what a profile update changes, how an
//! administrator's change to an account is written, and when the first administrator is made.
use vstd::prelude::*;

use crate::server::UserSettings;
use crate::session::is_admin;
use crate::text::{chars_eq, chars_of, ends_with, starts_with};

verus! {

broadcast use vstd::string::group_string_axioms;

/// Why an administrative request is refused.
#[derive(Debug)]
pub enum AdminRefusal {
    /// The caller is not an administrator (403).
    Forbidden,
    /// An administrator asked to delete their own account (400).
    SelfDeletion,
}

impl AdminRefusal {
    /// The HTTP status of the refusal.
    pub fn status(&self) -> (s: u16)
        ensures
            s == match *self {
                AdminRefusal::Forbidden => 403u16,
                AdminRefusal::SelfDeletion => 400u16,
            },
    {
        match self {
            AdminRefusal::Forbidden => 403,
            AdminRefusal::SelfDeletion => 400,
        }
    }
}

/// Every administrative route first checks the caller's role.
pub fn check_admin(role: &str) -> (r: Result<(), AdminRefusal>)
    ensures
        r is Ok <==> role@ == "admin"@,
        r is Err ==> r == Err::<(), AdminRefusal>(AdminRefusal::Forbidden),
{
    if is_admin(role) {
        Ok(())
    } else {
        Err(AdminRefusal::Forbidden)
    }
}

/// Deleting an account: only an administrator may, and not their own account.
pub fn check_user_deletion(role: &str, caller_id: &str, target_id: &str) -> (r: Result<
    (),
    AdminRefusal,
>)
    ensures
        role@ != "admin"@ ==> r == Err::<(), AdminRefusal>(AdminRefusal::Forbidden),
        role@ == "admin"@ && caller_id@ == target_id@ ==> r == Err::<(), AdminRefusal>(
            AdminRefusal::SelfDeletion,
        ),
        r is Ok <==> role@ == "admin"@ && caller_id@ != target_id@,
{
    if !is_admin(role) {
        return Err(AdminRefusal::Forbidden);
    }
    let a = chars_of(caller_id);
    let b = chars_of(target_id);
    if chars_eq(&a, &b) {
        Err(AdminRefusal::SelfDeletion)
    } else {
        Ok(())
    }
}

/// The password an administrator's reset gives an account.
pub fn reset_password_value() -> (r: &'static str)
    ensures
        r@ == "Reset@123456"@,
{
    let r = "Reset@123456";
    proof {
        reveal_strlit("Reset@123456");
    }
    r
}

/// The first administrator is made only while there is no account at all.
pub fn admin_seed_needed(user_count: i64) -> (r: bool)
    ensures
        r == (user_count <= 0),
{
    user_count <= 0
}

/// A value bound into an administrator's update of an account.
pub enum UserUpdateBind {
    /// A text: the role, the name, or the account's id.
    Text(String),
    /// The new storage quota, a number the caller binds.
    Quota,
}

/// A bound value as a plain value: `Some(text)` for a text, `None` for the quota.
pub open spec fn bind_view(b: UserUpdateBind) -> Option<Seq<char>> {
    match b {
        UserUpdateBind::Text(s) => Some(s@),
        UserUpdateBind::Quota => None,
    }
}

/// The statement an administrator's update of an account runs: the update time always, then
/// the role, the quota and the name where they are given, for the account `id`.
pub open spec fn user_update_sql(has_role: bool, has_quota: bool, has_name: bool) -> Seq<char> {
    "UPDATE user SET updated_at = CURRENT_TIMESTAMP"@ + (if has_role {
        ", role = ?"@
    } else {
        seq![]
    }) + (if has_quota {
        ", storage_quota = ?"@
    } else {
        seq![]
    }) + (if has_name {
        ", name = ?"@
    } else {
        seq![]
    }) + " WHERE id = ?"@
}

/// The values bound to that statement's placeholders, in order.
pub open spec fn user_update_binds(
    role: Option<String>,
    has_quota: bool,
    name: Option<String>,
    id: Seq<char>,
) -> Seq<Option<Seq<char>>> {
    (match role {
        Some(r) => seq![Some(r@)],
        None => seq![],
    }) + (if has_quota {
        seq![None::<Seq<char>>]
    } else {
        seq![]
    }) + (match name {
        Some(n) => seq![Some(n@)],
        None => seq![],
    }) + seq![Some(id)]
}

/// Each field given to an account update is set, whatever else is given: the statement always
/// starts by stamping the update time and ends with the account's id; a given role is set
/// first and bound first; a given quota is set; a given name is set last, just before the id,
/// and bound just before the id; with nothing given only the time is stamped.
pub proof fn lemma_user_update_sets_each_field(role: Option<String>, has_quota: bool, name: Option<String>, id: Seq<char>)
    ensures
        starts_with(user_update_sql(role is Some, has_quota, name is Some), "UPDATE user SET updated_at = CURRENT_TIMESTAMP"@),
        ends_with(user_update_sql(role is Some, has_quota, name is Some), " WHERE id = ?"@),
        role is Some ==> starts_with(
            user_update_sql(role is Some, has_quota, name is Some),
            "UPDATE user SET updated_at = CURRENT_TIMESTAMP, role = ?"@,
        ),
        has_quota ==> exists|i: int|
            0 <= i && i + 19 <= user_update_sql(role is Some, has_quota, name is Some).len()
                && #[trigger] user_update_sql(role is Some, has_quota, name is Some).subrange(i, i + 19)
                == ", storage_quota = ?"@,
        name is Some ==> ends_with(user_update_sql(role is Some, has_quota, name is Some), ", name = ? WHERE id = ?"@),
        role is None && !has_quota && name is None ==> user_update_sql(false, false, false)
            == "UPDATE user SET updated_at = CURRENT_TIMESTAMP WHERE id = ?"@,
        user_update_binds(role, has_quota, name, id).len() == 1 + (if role is Some { 1int } else { 0 }) + (if has_quota {
            1int
        } else {
            0
        }) + (if name is Some { 1int } else { 0 }),
        user_update_binds(role, has_quota, name, id).last() == Some(id),
        role matches Some(r) ==> user_update_binds(role, has_quota, name, id)[0] == Some(r@),
        has_quota ==> user_update_binds(role, has_quota, name, id).contains(None),
        name matches Some(n) ==> user_update_binds(role, has_quota, name, id)[user_update_binds(role, has_quota, name, id).len() - 2]
            == Some(n@),
{
    reveal_strlit("UPDATE user SET updated_at = CURRENT_TIMESTAMP");
    reveal_strlit("UPDATE user SET updated_at = CURRENT_TIMESTAMP, role = ?");
    reveal_strlit("UPDATE user SET updated_at = CURRENT_TIMESTAMP WHERE id = ?");
    reveal_strlit(", role = ?");
    reveal_strlit(", storage_quota = ?");
    reveal_strlit(", name = ?");
    reveal_strlit(" WHERE id = ?");
    reveal_strlit(", name = ? WHERE id = ?");
    let head = "UPDATE user SET updated_at = CURRENT_TIMESTAMP"@;
    let rp: Seq<char> = if role is Some { ", role = ?"@ } else { seq![] };
    let qp: Seq<char> = if has_quota { ", storage_quota = ?"@ } else { seq![] };
    let np: Seq<char> = if name is Some { ", name = ?"@ } else { seq![] };
    let tail = " WHERE id = ?"@;
    let sql = user_update_sql(role is Some, has_quota, name is Some);
    assert(sql == head + rp + qp + np + tail);
    assert(sql.subrange(0, head.len() as int) =~= head);
    assert(sql.subrange(sql.len() - tail.len(), sql.len() as int) =~= tail);
    if role is Some {
        assert(sql.subrange(0, 56) =~= "UPDATE user SET updated_at = CURRENT_TIMESTAMP, role = ?"@);
    }
    if has_quota {
        let i: int = (head.len() + rp.len()) as int;
        assert(sql.subrange(i, i + 19) =~= ", storage_quota = ?"@);
    }
    if name is Some {
        assert(sql.subrange(sql.len() - 23, sql.len() as int) =~= ", name = ? WHERE id = ?"@);
    }
    if role is None && !has_quota && name is None {
        assert(sql =~= "UPDATE user SET updated_at = CURRENT_TIMESTAMP WHERE id = ?"@);
    }
    let b = user_update_binds(role, has_quota, name, id);
    if has_quota {
        let k = if role is Some { 1int } else { 0 };
        assert(b[k] == None::<Seq<char>>);
    }
}

/// An administrator's update of an account: the statement and its bound values.
pub fn user_update_query(role: Option<String>, has_quota: bool, name: Option<String>, id: String) -> (r: (
    String,
    Vec<UserUpdateBind>,
))
    ensures
        r.0@ == user_update_sql(role is Some, has_quota, name is Some),
        r.1@.map_values(|b: UserUpdateBind| bind_view(b)) == user_update_binds(
            role,
            has_quota,
            name,
            id@,
        ),
{
    let ghost role0 = role;
    let ghost name0 = name;
    let ghost id0 = id@;
    let mut sql = String::from_str("UPDATE user SET updated_at = CURRENT_TIMESTAMP");
    let mut binds: Vec<UserUpdateBind> = Vec::new();
    let ghost want_role: Seq<Option<Seq<char>>> = match role0 {
        Some(x) => seq![Some(x@)],
        None => seq![],
    };
    let ghost want_quota: Seq<Option<Seq<char>>> = if has_quota {
        seq![None::<Seq<char>>]
    } else {
        seq![]
    };
    let ghost want_name: Seq<Option<Seq<char>>> = match name0 {
        Some(x) => seq![Some(x@)],
        None => seq![],
    };
    proof {
        reveal_strlit("UPDATE user SET updated_at = CURRENT_TIMESTAMP");
        reveal_strlit(", role = ?");
        reveal_strlit(", storage_quota = ?");
        reveal_strlit(", name = ?");
        reveal_strlit(" WHERE id = ?");
    }
    match role {
        Some(x) => {
            sql.append(", role = ?");
            binds.push(UserUpdateBind::Text(x));
        },
        None => {},
    }
    assert(binds@.map_values(|b: UserUpdateBind| bind_view(b)) =~= want_role);
    if has_quota {
        sql.append(", storage_quota = ?");
        binds.push(UserUpdateBind::Quota);
    }
    assert(binds@.map_values(|b: UserUpdateBind| bind_view(b)) =~= want_role + want_quota);
    match name {
        Some(x) => {
            sql.append(", name = ?");
            binds.push(UserUpdateBind::Text(x));
        },
        None => {},
    }
    assert(binds@.map_values(|b: UserUpdateBind| bind_view(b)) =~= want_role + want_quota
        + want_name);
    sql.append(" WHERE id = ?");
    binds.push(UserUpdateBind::Text(id));
    assert(binds@.map_values(|b: UserUpdateBind| bind_view(b)) =~= want_role + want_quota
        + want_name + seq![Some(id0)]);
    assert(sql@ =~= user_update_sql(role0 is Some, has_quota, name0 is Some));
    (sql, binds)
}

/// The parts of an account that its owner edits.
pub struct UserProfile {
    pub name: String,
    pub avatar: Option<String>,
    pub settings: UserSettings,
}

/// A profile update: each field that is given replaces the one stored; the others stay.
pub fn apply_profile_update(
    profile: UserProfile,
    name: Option<String>,
    avatar: Option<String>,
    settings: Option<UserSettings>,
) -> (r: UserProfile)
    ensures
        r.name == (match name {
            Some(n) => n,
            None => profile.name,
        }),
        r.avatar == (match avatar {
            Some(a) => Some(a),
            None => profile.avatar,
        }),
        r.settings == (match settings {
            Some(s) => s,
            None => profile.settings,
        }),
{
    let UserProfile { name: old_name, avatar: old_avatar, settings: old_settings } = profile;
    UserProfile {
        name: match name {
            Some(n) => n,
            None => old_name,
        },
        avatar: match avatar {
            Some(a) => Some(a),
            None => old_avatar,
        },
        settings: match settings {
            Some(s) => s,
            None => old_settings,
        },
    }
}

} // verus!
