//! User permissions are a small bit set: bit 0 grants adding recipes, bit 1
//! grants deleting them and bit 2 grants managing other users.

use vstd::prelude::*;

verus! {

/// A flag as it arrives in a permissions form: `0` (denied) or `1` (granted).
pub open spec fn is_flag(x: i16) -> bool {
    x == 0 || x == 1
}

/// The word that `calculate_permission` computes: the three values or-ed
/// together after shifting `can_delete` by one bit and `can_alter_users` by two.
pub open spec fn packed_permissions(can_write: i16, can_delete: i16, can_alter_users: i16) -> i16 {
    can_write | ((2 * can_delete) as i16) | ((4 * can_alter_users) as i16)
}

/// The permission word for three flags read as the digits of a binary number.
pub open spec fn permission_word(can_write: i16, can_delete: i16, can_alter_users: i16) -> int {
    can_write + 2 * can_delete + 4 * can_alter_users
}

pub open spec fn has_write_bit(permissions: i16) -> bool {
    permissions & 1 != 0
}

pub open spec fn has_delete_bit(permissions: i16) -> bool {
    permissions & 2 != 0
}

pub open spec fn has_user_admin_bit(permissions: i16) -> bool {
    permissions & 4 != 0
}

/// Packs the three permission flags into one word: `can_write` in bit 0,
/// `can_delete` in bit 1 and `can_alter_users` in bit 2.
pub fn calculate_permission(can_write: i16, can_delete: i16, can_alter_users: i16) -> (permissions: i16)
    requires
        i16::MIN <= 2 * can_delete <= i16::MAX,
        i16::MIN <= 4 * can_alter_users <= i16::MAX,
    ensures
        permissions == packed_permissions(can_write, can_delete, can_alter_users),
        is_flag(can_write) && is_flag(can_delete) && is_flag(can_alter_users) ==> permissions
            == permission_word(can_write, can_delete, can_alter_users),
{
    let permissions = can_write | (2 * can_delete) | (4 * can_alter_users);
    proof {
        if is_flag(can_write) && is_flag(can_delete) && is_flag(can_alter_users) {
            lemma_flags_round_trip(can_write, can_delete, can_alter_users);
        }
    }
    permissions
}

/// Whether a permission word grants adding recipes (bit 0).
pub fn grants_write(permissions: i16) -> (granted: bool)
    ensures
        granted == has_write_bit(permissions),
{
    permissions & 1 != 0
}

/// Whether a permission word grants deleting recipes (bit 1).
pub fn grants_delete(permissions: i16) -> (granted: bool)
    ensures
        granted == has_delete_bit(permissions),
{
    permissions & 2 != 0
}

/// Whether a permission word grants managing other users (bit 2).
pub fn grants_user_admin(permissions: i16) -> (granted: bool)
    ensures
        granted == has_user_admin_bit(permissions),
{
    permissions & 4 != 0
}

/// Whether the user that a permission lookup found may add recipes: only a
/// user that exists and whose word has the write bit.
pub fn user_may_write(found: Option<i16>) -> (allowed: bool)
    ensures
        allowed == (found matches Some(permissions) && has_write_bit(permissions)),
{
    match found {
        Some(permissions) => grants_write(permissions),
        None => false,
    }
}

/// Whether the user that a permission lookup found may delete recipes: only
/// a user that exists and whose word has the delete bit.
pub fn user_may_delete(found: Option<i16>) -> (allowed: bool)
    ensures
        allowed == (found matches Some(permissions) && has_delete_bit(permissions)),
{
    match found {
        Some(permissions) => grants_delete(permissions),
        None => false,
    }
}

/// Packing is faithful: for flags given as `0` or `1`, the packed word is the
/// binary number the flags spell, lies in `0..8`, and each flag is read back
/// from its own bit whatever the other two are.
pub proof fn lemma_flags_round_trip(can_write: i16, can_delete: i16, can_alter_users: i16)
    requires
        is_flag(can_write),
        is_flag(can_delete),
        is_flag(can_alter_users),
    ensures
        ({
            let p = packed_permissions(can_write, can_delete, can_alter_users);
            &&& p == permission_word(can_write, can_delete, can_alter_users)
            &&& 0 <= p < 8
            &&& has_write_bit(p) == (can_write == 1)
            &&& has_delete_bit(p) == (can_delete == 1)
            &&& has_user_admin_bit(p) == (can_alter_users == 1)
        }),
{
    let d2 = (2 * can_delete) as i16;
    let a4 = (4 * can_alter_users) as i16;
    assert(d2 == 0 || d2 == 2);
    assert(a4 == 0 || a4 == 4);
    assert((can_write == 0 || can_write == 1) && (d2 == 0 || d2 == 2) && (a4 == 0 || a4 == 4) ==> {
        let p = can_write | d2 | a4;
        &&& p == can_write + d2 + a4
        &&& (p & 1 != 0) == (can_write == 1)
        &&& (p & 2 != 0) == (d2 == 2)
        &&& (p & 4 != 0) == (a4 == 4)
    }) by (bit_vector);
}

/// Distinct flag combinations give distinct permission words: the word
/// determines the three flags.
pub proof fn lemma_permission_word_injective(w1: i16, d1: i16, a1: i16, w2: i16, d2: i16, a2: i16)
    requires
        is_flag(w1),
        is_flag(d1),
        is_flag(a1),
        is_flag(w2),
        is_flag(d2),
        is_flag(a2),
        packed_permissions(w1, d1, a1) == packed_permissions(w2, d2, a2),
    ensures
        w1 == w2,
        d1 == d2,
        a1 == a2,
{
    lemma_flags_round_trip(w1, d1, a1);
    lemma_flags_round_trip(w2, d2, a2);
}

} // verus!
