//! Members of the WeChat Work corporation, looked up through a cache.
use vstd::prelude::*;
use vstd::string::StringExecFns;

verus! {

/// A member as the API's `user/get` describes it.
#[derive(Debug, Clone, PartialEq, Eq)]
pub struct User {
    pub errcode: i32,
    pub errmsg: String,
    pub userid: Option<String>,
    pub name: Option<String>,
    pub department: Option<Vec<String>>,
    pub order: Option<Vec<String>>,
    pub position: Option<String>,
    pub mobile: Option<String>,
    pub gender: Option<String>,
    pub email: Option<String>,
    pub biz_mail: Option<String>,
    pub is_leader_in_dept: Option<Vec<String>>,
    pub direct_leader: Option<Vec<i32>>,
    pub avatar: Option<String>,
    pub thumb_avatar: Option<String>,
    pub telephone: Option<String>,
    pub alias: Option<String>,
    pub status: Option<i32>,
    pub address: Option<String>,
    pub open_userid: Option<String>,
    pub main_department: Option<String>,
}

/// Looks members up, keeping what the API answers in a cache.
#[derive(Debug, Clone, Copy, Default)]
pub struct UserService {}

/// How long, in seconds, a member is kept in the cache.
pub const USER_CACHE_TTL_SECS: u64 = 1800;

/// The prefix of the cache keys of members.
pub open spec fn user_cache_prefix() -> Seq<char> {
    "App:Message:U:"@
}

/// The cache key of a member is the fixed prefix followed by the whole
/// member id, so different ids have different keys.
pub proof fn lemma_cache_key_parts(id: Seq<char>, other: Seq<char>)
    ensures
        (user_cache_prefix() + id).subrange(0, user_cache_prefix().len() as int) == user_cache_prefix(),
        (user_cache_prefix() + id).subrange(
            user_cache_prefix().len() as int,
            (user_cache_prefix() + id).len() as int,
        ) == id,
        id != other ==> user_cache_prefix() + id != user_cache_prefix() + other,
{
    let p = user_cache_prefix();
    assert((p + id).subrange(0, p.len() as int) =~= p);
    assert((p + id).subrange(p.len() as int, (p + id).len() as int) =~= id);
    if p + id == p + other {
        assert((p + other).subrange(p.len() as int, (p + other).len() as int) =~= other);
    }
}

impl UserService {
    /// The cache key of member `id`.
    pub fn cache_key(id: &str) -> (r: String)
        ensures
            r@ == user_cache_prefix() + id@,
    {
        let mut key = String::from_str("App:Message:U:");
        key.append(id);
        key
    }

    /// Decides on a member that the API answered with: accepted (and to be
    /// cached) where the answer carries error code 0, otherwise refused with
    /// the answer's error message.
    pub fn accept_fetched(user: User) -> (r: Result<User, String>)
        ensures
            user.errcode == 0 ==> r == Ok::<User, String>(user),
            user.errcode != 0 ==> (r matches Err(e) && e == user.errmsg),
    {
        if user.errcode != 0 {
            return Err(user.errmsg);
        }
        Ok(user)
    }
}

} // verus!
