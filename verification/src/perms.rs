//! Permission bitmasks with the administrator-overrides-all rule.

use vstd::prelude::*;

verus! {

/// A 64-bit permission bitmask. The administrator bit grants every permission.
#[derive(Debug, Clone, Copy, PartialEq, Eq, Structural)]
pub struct Permissions(pub i64);

pub const MANAGE_CHANNELS: i64 = 1;
pub const MANAGE_SERVER: i64 = 2;
pub const KICK_MEMBERS: i64 = 4;
pub const BAN_MEMBERS: i64 = 8;
pub const SEND_MESSAGES: i64 = 16;
pub const ADMINISTRATOR: i64 = 32;
pub const MANAGE_MESSAGES: i64 = 64;

/// A mask grants a permission exactly when it carries the administrator bit
/// or the requested bit itself.
pub open spec fn mask_has(mask: i64, permission: i64) -> bool {
    (mask & ADMINISTRATOR) != 0 || (mask & permission) != 0
}

impl Permissions {
    pub fn new(bits: i64) -> (r: Self)
        ensures
            r.0 == bits,
    {
        Permissions(bits)
    }

    pub fn bits(&self) -> (r: i64)
        ensures
            r == self.0,
    {
        self.0
    }

    /// True iff the mask grants `permission`: the administrator bit overrides
    /// every check, otherwise the requested bit must be set.
    pub fn has(&self, permission: i64) -> (r: bool)
        ensures
            r == mask_has(self.0, permission),
    {
        (self.0 & ADMINISTRATOR) != 0 || (self.0 & permission) != 0
    }

    pub fn add(&mut self, permission: i64)
        ensures
            final(self).0 == old(self).0 | permission,
    {
        self.0 = self.0 | permission;
    }

    pub fn remove(&mut self, permission: i64)
        ensures
            final(self).0 == old(self).0 & !permission,
    {
        self.0 = self.0 & !permission;
    }
}

/// For every mask and bit, the grant test agrees with the bitwise rule:
/// granted iff the administrator bit is set or the requested bit is set.
pub proof fn lemma_permission_algebra(mask: i64, bit: i64)
    ensures
        mask_has(mask, bit) <==> ((mask & ADMINISTRATOR) != 0 || (mask & bit) != 0),
{
}

/// The bitwise OR of a member's role masks with the server's default mask.
pub open spec fn spec_effective(default_mask: i64, roles: Seq<i64>) -> i64
    decreases roles.len(),
{
    if roles.len() == 0 {
        default_mask
    } else {
        spec_effective(default_mask | roles[0], roles.skip(1))
    }
}

/// A member's effective permissions: the server's default (everyone) mask
/// OR-ed with each of the member's role masks.
pub fn effective_permissions(default_mask: i64, roles: &Vec<i64>) -> (r: Permissions)
    ensures
        r.0 == spec_effective(default_mask, roles@),
{
    let mut acc: i64 = default_mask;
    let mut i: usize = 0;
    proof {
        assert(roles@.skip(0) =~= roles@);
    }
    while i < roles.len()
        invariant
            i <= roles.len(),
            spec_effective(acc, roles@.skip(i as int)) == spec_effective(default_mask, roles@),
        decreases roles.len() - i,
    {
        proof {
            assert(roles@.skip(i as int)[0] == roles@[i as int]);
            assert(roles@.skip(i as int).skip(1) =~= roles@.skip(i as int + 1));
        }
        acc = acc | roles[i];
        i = i + 1;
    }
    Permissions(acc)
}

} // verus!
