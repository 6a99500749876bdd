//! Cache key formats: the strings under which per-user actions, per-chat
//! admin lists and per-chat language settings are stored.

use vstd::prelude::*;
use vstd::string::StringExecFns;
use crate::text::{dec_int, i64_to_dec};

verus! {

/// The cache key for the pending actions of a user in a chat.
pub fn get_action_key(user: i64, chat: i64) -> (r: String)
    ensures
        r@ == "act:"@ + dec_int(user as int) + ":"@ + dec_int(chat as int),
{
    let mut r = "act:".to_owned();
    r.append(i64_to_dec(user).as_str());
    r.append(":");
    r.append(i64_to_dec(chat).as_str());
    r
}

/// The cache key for a chat's admin list.
pub fn get_chat_admin_cache_key(chat: i64) -> (r: String)
    ensures
        r@ == "ca:"@ + dec_int(chat as int),
{
    let mut r = "ca:".to_owned();
    r.append(i64_to_dec(chat).as_str());
    r
}

/// The cache key for a chat's language setting.
pub fn get_lang_key(chat: i64) -> (r: String)
    ensures
        r@ == "lang:"@ + dec_int(chat as int),
{
    let mut r = "lang:".to_owned();
    r.append(i64_to_dec(chat).as_str());
    r
}

} // verus!
