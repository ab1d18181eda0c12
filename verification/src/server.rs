//! Sign-in, tokens, user accounts and the route tree of the web API.

use crate::db::{md5_hex, md5_hex_of};
use crate::text::{chars_of, i64_to_text, int_text, lemma_int_text_parses, parse_i64, parse_int};
use crate::tree::{build_forest, forest_cut, Key, TreeNode};
use vstd::prelude::*;

verus! {

/// The API form of a database user id: its decimal text.
pub fn to_api_user_id(db_id: i64) -> (r: String)
    ensures
        r@ == int_text(db_id as int),
{
    i64_to_text(db_id)
}

/// The database id of an API user id: its value as an `i64`, if it is one.
pub fn from_api_user_id(user_id: &str) -> (r: Option<i64>)
    ensures
        match r {
            Some(v) => parse_int(user_id@, true, i64::MIN as int, i64::MAX as int) == Some(v as int),
            None => parse_int(user_id@, true, i64::MIN as int, i64::MAX as int) is None,
        },
{
    let c = chars_of(user_id);
    parse_i64(c.as_slice())
}

/// Every database id survives the trip through its API form.
pub proof fn law_user_id_roundtrip(db_id: i64)
    ensures
        parse_int(int_text(db_id as int), true, i64::MIN as int, i64::MAX as int) == Some(
            db_id as int,
        ),
{
    lemma_int_text_parses(db_id as int, i64::MIN as int, i64::MAX as int);
}

// ---------------------------------------------------------------------------
// Sign-in and tokens
// ---------------------------------------------------------------------------

/// Why a sign-in or account request was refused.
#[derive(PartialEq, Eq, Structural, Clone, Copy, Debug)]
pub enum AuthError {
    InvalidParams,
    BadCredentials,
    TokenMissing,
    UserInfoInvalid,
    RefreshInvalid,
    PasswordRequired,
}

impl AuthError {
    /// The API error code; 66666 asks the client to refresh its token.
    pub fn code(&self) -> (r: i64)
        ensures
            r == match self {
                AuthError::InvalidParams => 10000int,
                AuthError::BadCredentials => 1000int,
                AuthError::TokenMissing => 66666int,
                AuthError::UserInfoInvalid => 66666int,
                AuthError::RefreshInvalid => 3000int,
                AuthError::PasswordRequired => 10000int,
            },
    {
        match self {
            AuthError::InvalidParams => 10000,
            AuthError::BadCredentials => 1000,
            AuthError::TokenMissing => 66666,
            AuthError::UserInfoInvalid => 66666,
            AuthError::RefreshInvalid => 3000,
            AuthError::PasswordRequired => 10000,
        }
    }

    /// The message shown to the user.
    pub fn message(&self) -> (r: &'static str)
        ensures
            r@ == match self {
                AuthError::InvalidParams => "参数校验失败！"@,
                AuthError::BadCredentials => "用户名或密码错误！"@,
                AuthError::TokenMissing => "用户已失效或不存在！"@,
                AuthError::UserInfoInvalid => "用户信息异常！"@,
                AuthError::RefreshInvalid => "用户已失效或不存在！"@,
                AuthError::PasswordRequired => "请设置登录密码！"@,
            },
    {
        match self {
            AuthError::InvalidParams => "参数校验失败！",
            AuthError::BadCredentials => "用户名或密码错误！",
            AuthError::TokenMissing => "用户已失效或不存在！",
            AuthError::UserInfoInvalid => "用户信息异常！",
            AuthError::RefreshInvalid => "用户已失效或不存在！",
            AuthError::PasswordRequired => "请设置登录密码！",
        }
    }
}

/// The text of an optional string, empty when absent.
pub open spec fn text_or_empty(v: Option<String>) -> Seq<char> {
    match v {
        Some(s) => s@,
        None => Seq::empty(),
    }
}

/// What a sign-in looks up: the user name and the MD5 hex digest of the
/// password. Both must be given and not empty.
pub fn login_params(user_name: Option<String>, password: Option<String>) -> (r: Result<
    (String, String),
    AuthError,
>)
    ensures
        text_or_empty(user_name).len() == 0 || text_or_empty(password).len() == 0 ==> r == Err::<
            (String, String),
            AuthError,
        >(AuthError::InvalidParams),
        text_or_empty(user_name).len() > 0 && text_or_empty(password).len() > 0 ==> (r matches Ok(
            (u, h),
        ) && u@ == text_or_empty(user_name) && h@ == md5_hex_of(text_or_empty(password))),
{
    let u = match user_name {
        Some(u) => u,
        None => String::new(),
    };
    let p = match password {
        Some(p) => p,
        None => String::new(),
    };
    if u.as_str().is_empty() || p.as_str().is_empty() {
        return Err(AuthError::InvalidParams);
    }
    let h = md5_hex(p.as_str());
    Ok((u, h))
}

/// The access and refresh tokens made from two fresh UUIDs:
/// `__TOKEN_<uuid>__` and `__REFRESH_TOKEN_<uuid>__`.
pub fn token_pair(token_uuid: &str, refresh_uuid: &str) -> (r: (String, String))
    ensures
        r.0@ == "__TOKEN_"@ + token_uuid@ + "__"@,
        r.1@ == "__REFRESH_TOKEN_"@ + refresh_uuid@ + "__"@,
{
    let mut t = String::from_str("__TOKEN_");
    t.append(token_uuid);
    t.append("__");
    let mut f = String::from_str("__REFRESH_TOKEN_");
    f.append(refresh_uuid);
    f.append("__");
    (t, f)
}

/// A request for the user's information must carry a token.
pub fn check_token(token: &str) -> (r: Result<(), AuthError>)
    ensures
        token@.len() == 0 <==> r == Err::<(), AuthError>(AuthError::TokenMissing),
        token@.len() > 0 <==> r is Ok,
{
    if token.is_empty() {
        Err(AuthError::TokenMissing)
    } else {
        Ok(())
    }
}

/// The route a user lands on: the role's home route, or `dashboard_analysis`.
pub fn home_route(home: Option<String>) -> (r: String)
    ensures
        r@ == match home {
            Some(h) => h@,
            None => "dashboard_analysis"@,
        },
{
    match home {
        Some(h) => h,
        None => String::from_str("dashboard_analysis"),
    }
}

/// The database id of the user whose routes are asked for; a missing or
/// non-numeric id is refused.
pub fn routes_user_id(user_id: Option<String>) -> (r: Result<i64, AuthError>)
    ensures
        match parse_int(text_or_empty(user_id), true, i64::MIN as int, i64::MAX as int) {
            Some(v) => (r matches Ok(x) && x == v),
            None => r == Err::<i64, AuthError>(AuthError::InvalidParams),
        },
{
    let u = match user_id {
        Some(u) => u,
        None => String::new(),
    };
    match from_api_user_id(u.as_str()) {
        Some(v) => Ok(v),
        None => Err(AuthError::InvalidParams),
    }
}

// ---------------------------------------------------------------------------
// User accounts
// ---------------------------------------------------------------------------

/// An account to insert.
pub struct NewUser {
    pub user_name: String,
    pub password_hash: String,
    pub user_status: String,
    pub role_id: i64,
}

/// Checks a new account: a user name and a password are required; the password
/// is stored as its MD5 hex digest, the status defaults to `1` and the role to 3.
pub fn new_user(
    user_name: Option<String>,
    password: Option<String>,
    user_status: Option<String>,
    role_id: Option<i64>,
) -> (r: Result<NewUser, AuthError>)
    ensures
        text_or_empty(user_name).len() == 0 ==> r == Err::<NewUser, AuthError>(
            AuthError::InvalidParams,
        ),
        text_or_empty(user_name).len() > 0 && text_or_empty(password).len() == 0 ==> r == Err::<
            NewUser,
            AuthError,
        >(AuthError::PasswordRequired),
        text_or_empty(user_name).len() > 0 && text_or_empty(password).len() > 0 ==> (r matches Ok(
            u,
        ) && u.user_name@ == text_or_empty(user_name) && u.password_hash@ == md5_hex_of(
            text_or_empty(password),
        ) && u.user_status@ == match user_status {
            Some(s) => s@,
            None => "1"@,
        } && u.role_id == match role_id {
            Some(x) => x,
            None => 3,
        }),
{
    let name = match user_name {
        Some(u) => u,
        None => String::new(),
    };
    if name.as_str().is_empty() {
        return Err(AuthError::InvalidParams);
    }
    let raw = match password {
        Some(p) => p,
        None => String::new(),
    };
    if raw.as_str().is_empty() {
        return Err(AuthError::PasswordRequired);
    }
    let hash = md5_hex(raw.as_str());
    let status = match user_status {
        Some(s) => s,
        None => String::from_str("1"),
    };
    let role = match role_id {
        Some(x) => x,
        None => 3,
    };
    Ok(NewUser { user_name: name, password_hash: hash, user_status: status, role_id: role })
}

/// The password hash an account update stores: only a password that is given
/// and not empty replaces the old one.
pub fn password_update(password: Option<String>) -> (r: Option<String>)
    ensures
        text_or_empty(password).len() == 0 <==> r is None,
        r matches Some(h) ==> h@ == md5_hex_of(text_or_empty(password)),
{
    match password {
        Some(p) => {
            if p.as_str().is_empty() {
                None
            } else {
                Some(md5_hex(p.as_str()))
            }
        },
        None => None,
    }
}

/// The name the user list shows: the nickname, else the user name.
pub fn shown_user_name(nick_name: Option<String>, user_name: String) -> (r: String)
    ensures
        r@ == match nick_name {
            Some(n) => n@,
            None => user_name@,
        },
{
    match nick_name {
        Some(n) => n,
        None => user_name,
    }
}

// ---------------------------------------------------------------------------
// The route tree
// ---------------------------------------------------------------------------

/// The keys of menu records `(id, parent id)`, the parent always present.
pub open spec fn menu_keys(menus: Seq<(i64, i64)>) -> Seq<Key> {
    menus.map_values(|m: (i64, i64)| (m.0, Some(m.1)))
}

/// The route tree below `parent_id` of menu records given as `(id, parent id)`,
/// in record order (top-level menus have parent 0).
pub fn build_route_tree(menus: &Vec<(i64, i64)>, parent_id: i64) -> (r: Vec<TreeNode>)
    ensures
        forest_cut(menu_keys(menus@), Some(parent_id), r@, menus@.len()),
{
    let mut keys: Vec<Key> = Vec::new();
    let mut i: usize = 0;
    while i < menus.len()
        invariant
            i <= menus@.len(),
            keys@ == menu_keys(menus@.take(i as int)),
        decreases menus.len() - i,
    {
        let (id, parent) = menus[i];
        keys.push((id, Some(parent)));
        i += 1;
        assert(keys@ =~= menu_keys(menus@.take(i as int)));
    }
    assert(menus@.take(menus@.len() as int) =~= menus@);
    build_forest(&keys, Some(parent_id))
}

/// The meta flags of a route: whether it requires sign-in, whether it is hidden,
/// and its order when it is positive.
pub struct RouteFlags {
    pub requires_auth: bool,
    pub hide: bool,
    pub order: Option<i64>,
}

/// The meta flags stored for a menu: sign-in and hiding are on when stored as 1,
/// and only a positive order is shown.
pub fn route_flags(requires_auth: i64, hide: i64, order_num: i64) -> (r: RouteFlags)
    ensures
        r.requires_auth == (requires_auth == 1),
        r.hide == (hide == 1),
        r.order == if order_num > 0 {
            Some(order_num)
        } else {
            None::<i64>
        },
{
    RouteFlags {
        requires_auth: requires_auth == 1,
        hide: hide == 1,
        order: if order_num > 0 {
            Some(order_num)
        } else {
            None
        },
    }
}

} // verus!
