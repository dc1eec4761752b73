//! The names of the users and groups that own files.
use ::users::UsersCache as SystemUsers;
use vstd::prelude::*;

verus! {

#[verifier::external_type_specification]
#[verifier::external_body]
pub struct ExSystemUsers(SystemUsers);

/// `users::UsersCache::new`: a cache that has asked the system nothing yet.
#[verifier::external_body]
fn system_users() -> SystemUsers {
    SystemUsers::new()
}

/// `users::Users::get_user_by_uid` on the cache, and `users::User::name` on
/// what it finds: the name that the system has for the user, as the cache
/// remembers it or as the system gives it at this moment. Nothing is known
/// of it in advance.
#[verifier::external_body]
fn cached_user_name(cache: &SystemUsers, uid: u32) -> Option<String> {
    match ::users::Users::get_user_by_uid(cache, uid) {
        Some(user) => Some(user.name().to_string_lossy().into_owned()),
        None => None,
    }
}

/// `users::Groups::get_group_by_gid` on the cache, and `users::Group::name`
/// on what it finds. Nothing is known of it in advance.
#[verifier::external_body]
fn cached_group_name(cache: &SystemUsers, gid: u32) -> Option<String> {
    match ::users::Groups::get_group_by_gid(cache, gid) {
        Some(group) => Some(group.name().to_string_lossy().into_owned()),
        None => None,
    }
}

/// Who resolves the numbers of users and groups into names: the system,
/// each number asked for once, or nobody, on a machine that has no such
/// names.
pub struct UsersCache {
    pub system: Option<SystemUsers>,
}

impl UsersCache {
    /// A resolver that asks the system.
    pub fn new() -> (c: Self)
        ensures
            c.system is Some,
    {
        UsersCache { system: Some(system_users()) }
    }

    /// A resolver that never finds a name.
    pub fn without_system() -> (c: Self)
        ensures
            c.system is None,
    {
        UsersCache { system: None }
    }

    /// The name of the user with this number, if the system knows one;
    /// never a name without the system.
    pub fn get_user_by_uid(&self, uid: u32) -> (r: Option<String>)
        ensures
            self.system is None ==> r is None,
    {
        match &self.system {
            Some(cache) => cached_user_name(cache, uid),
            None => None,
        }
    }

    /// The name of the group with this number, if the system knows one;
    /// never a name without the system.
    pub fn get_group_by_gid(&self, gid: u32) -> (r: Option<String>)
        ensures
            self.system is None ==> r is None,
    {
        match &self.system {
            Some(cache) => cached_group_name(cache, gid),
            None => None,
        }
    }
}

} // verus!
