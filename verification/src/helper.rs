use vstd::prelude::*;

use crate::error::EError;
use crate::model::{project_post, sp_project_post, Post};
use crate::store::{PostRecord, Store, UserRecord};

verus! {

/// Helper methods used throughout the application.
pub struct Helper;

/// The number of seconds that one unit of the given name lasts, or `None`
/// for an unknown unit name. A month counts as 30 days, a year as 365.
pub open spec fn sp_unit_factor(unit: Seq<char>) -> Option<int> {
    if unit == "seconds"@ {
        Some(1int)
    } else if unit == "minutes"@ {
        Some(60int)
    } else if unit == "hours"@ {
        Some(3600int)
    } else if unit == "days"@ {
        Some(86400int)
    } else if unit == "weeks"@ {
        Some(604800int)
    } else if unit == "months"@ {
        Some(2592000int)
    } else if unit == "years"@ {
        Some(31536000int)
    } else {
        None
    }
}

/// An ASCII decimal digit.
pub open spec fn sp_is_digit(c: u8) -> bool {
    48 <= c && c <= 57
}

/// All bytes of `s` are ASCII decimal digits.
pub open spec fn sp_all_digits(s: Seq<u8>) -> bool {
    forall|i: int| 0 <= i < s.len() ==> sp_is_digit(#[trigger] s[i])
}

/// The value of `s` read as a decimal numeral, most significant digit
/// first.
pub open spec fn sp_decimal_value(s: Seq<u8>) -> int
    decreases s.len(),
{
    if s.len() == 0 {
        0
    } else {
        sp_decimal_value(s.drop_last()) * 10 + (s.last() - 48)
    }
}

/// A decimal numeral's value is never negative.
pub proof fn lemma_decimal_nonneg(s: Seq<u8>)
    requires
        sp_all_digits(s),
    ensures
        sp_decimal_value(s) >= 0,
    decreases s.len(),
{
    if s.len() > 0 {
        assert(forall|i: int| 0 <= i < s.drop_last().len() ==> sp_is_digit(#[trigger] s[i]));
        lemma_decimal_nonneg(s.drop_last());
    }
}

/// Extending a decimal numeral can only grow its value.
pub proof fn lemma_decimal_prefix(s: Seq<u8>, i: int)
    requires
        sp_all_digits(s),
        0 <= i <= s.len(),
    ensures
        sp_decimal_value(s.take(i)) <= sp_decimal_value(s),
    decreases s.len(),
{
    if i == s.len() {
        assert(s.take(i) =~= s);
    } else {
        assert(forall|k: int| 0 <= k < s.drop_last().len() ==> sp_is_digit(#[trigger] s[k]));
        assert(s.take(i) =~= s.drop_last().take(i));
        lemma_decimal_prefix(s.drop_last(), i);
        lemma_decimal_nonneg(s.drop_last());
    }
}

impl Helper {
    /// Converts a value given in the named unit to seconds.
    pub fn value_to_seconds(value: i64, unit: String) -> (r: i64)
        requires
            sp_unit_factor(unit@) is Some,
            i64::MIN <= value * sp_unit_factor(unit@).unwrap() <= i64::MAX,
        ensures
            r == value * sp_unit_factor(unit@).unwrap(),
    {
        if unit == String::from_str("seconds") {
            value
        } else if unit == String::from_str("minutes") {
            value * 60
        } else if unit == String::from_str("hours") {
            value * 3600
        } else if unit == String::from_str("days") {
            value * 86400
        } else if unit == String::from_str("weeks") {
            value * 604800
        } else if unit == String::from_str("months") {
            value * 2592000
        } else if unit == String::from_str("years") {
            value * 31536000
        } else {
            vstd::pervasive::unreached()
        }
    }

    /// Reads a post id from its decimal representation, handed over as
    /// bytes. Anything but a plain numeral that fits the id type is a
    /// `BadRequest`.
    pub fn parse_post_id(s: &Vec<u8>) -> (r: Result<i32, EError>)
        ensures
            r is Ok <==> (s@.len() > 0 && sp_all_digits(s@) && sp_decimal_value(s@) <= i32::MAX),
            r matches Ok(v) ==> v == sp_decimal_value(s@),
            r matches Err(e) ==> e is BadRequest,
    {
        if s.len() == 0 {
            return Err(EError::BadRequest(String::from_str("Invalid post id")));
        }
        let mut acc: i64 = 0;
        let mut i: usize = 0;
        while i < s.len()
            invariant
                0 < s@.len(),
                i <= s@.len(),
                0 <= acc <= i32::MAX,
                acc == sp_decimal_value(s@.take(i as int)),
                forall|k: int| 0 <= k < i ==> sp_is_digit(#[trigger] s@[k]),
            decreases s@.len() - i,
        {
            let c = s[i];
            proof {
                assert(s@.take(i + 1 as int).drop_last() =~= s@.take(i as int));
                assert(s@.take(i + 1 as int).last() == s@[i as int]);
            }
            if !(48 <= c && c <= 57) {
                return Err(EError::BadRequest(String::from_str("Invalid post id")));
            }
            let next = acc * 10 + ((c - 48) as i64);
            if next > i32::MAX as i64 {
                proof {
                    if sp_all_digits(s@) {
                        lemma_decimal_prefix(s@, i + 1);
                    }
                }
                return Err(EError::BadRequest(String::from_str("Invalid post id")));
            }
            acc = next;
            i += 1;
        }
        proof {
            assert(s@.take(s@.len() as int) =~= s@);
        }
        Ok(acc as i32)
    }

    /// Looks the user up by id; `NotFound` when no row holds it.
    pub fn get_user_by_id<'a>(store: &'a Store, user_id: i32) -> (r: Result<&'a UserRecord, EError>)
        requires
            store.wf_users(),
        ensures
            r is Ok <==> store.sp_has_user_id(user_id),
            r matches Ok(u) ==> *u == store.sp_user(user_id) && u.user_id == user_id,
            r matches Err(e) ==> e is NotFound,
    {
        match store.find_user_index(user_id) {
            Some(k) => {
                proof {
                    store.lemma_user_at(k as int);
                }
                Ok(&store.users[k])
            },
            None => Err(EError::NotFound(String::from_str("User not found"))),
        }
    }

    /// Looks the user up by username; `NotFound` when no row holds it.
    pub fn get_user_by_name<'a>(store: &'a Store, username: &String) -> (r: Result<
        &'a UserRecord,
        EError,
    >)
        requires
            store.wf_users(),
        ensures
            r is Ok <==> store.sp_has_username(username@),
            r matches Ok(u) ==> *u == store.sp_user_by_name(username@) && u.username@ == username@,
            r matches Err(e) ==> e is NotFound,
    {
        match store.find_user_index_by_name(username) {
            Some(k) => {
                proof {
                    store.lemma_user_at_name(k as int);
                }
                Ok(&store.users[k])
            },
            None => Err(EError::NotFound(String::from_str("User not found"))),
        }
    }

    /// Looks the post up by id; `NotFound` when no row holds it.
    pub fn fetch_post<'a>(store: &'a Store, post_id: i32) -> (r: Result<&'a PostRecord, EError>)
        requires
            store.wf_posts(),
        ensures
            r is Ok <==> store.sp_has_post(post_id),
            r matches Ok(p) ==> *p == store.sp_post(post_id) && p.post_id == post_id,
            r matches Err(e) ==> e is NotFound,
    {
        match store.find_post_index(post_id) {
            Some(k) => {
                proof {
                    store.lemma_post_at(k as int);
                }
                Ok(&store.posts[k])
            },
            None => Err(EError::NotFound(String::from_str("Post not found"))),
        }
    }

    /// Projects `post` for the viewing user and appends it to the list.
    pub fn push_post(
        store: &Store,
        posts: &mut Vec<Post>,
        post: &PostRecord,
        user_id: i32,
        tz_hours: i32,
    )
        requires
            store.wf(),
            store.sp_has_user_id(post.author_id),
        ensures
            final (posts)@ == old(posts)@.push(
                sp_project_post(*store, *post, Some(user_id), tz_hours),
            ),
    {
        let dto = project_post(store, post, Some(user_id), tz_hours);
        posts.push(dto);
    }
}

} // verus!
