use vstd::prelude::*;

verus! {

/// Bitwise capability value granting permission for specific operations.
#[derive(Clone, Copy, Debug, PartialEq, Eq, Structural)]
pub enum AccessLevel {
    NoAccess,
    Cookie,
    Send,
    All,
}

impl AccessLevel {
    /// The numeric value stored for this capability. `All` is the reserved
    /// all-access sentinel, chosen so that its bits overlap every request.
    pub open spec fn value(self) -> i32 {
        match self {
            AccessLevel::NoAccess => 0,
            AccessLevel::Cookie => 1,
            AccessLevel::Send => 2,
            AccessLevel::All => 31,
        }
    }

    /// The capability a stored numeric value denotes; unrecognized values
    /// fall back to `NoAccess`.
    pub open spec fn from_value(v: i32) -> AccessLevel {
        if v == 1 {
            AccessLevel::Cookie
        } else if v == 2 {
            AccessLevel::Send
        } else if v == 31 {
            AccessLevel::All
        } else {
            AccessLevel::NoAccess
        }
    }

    pub fn i32(&self) -> (r: i32)
        ensures
            r == self.value(),
    {
        match self {
            AccessLevel::NoAccess => 0,
            AccessLevel::Cookie => 1,
            AccessLevel::Send => 2,
            AccessLevel::All => 31,
        }
    }

    /// The authorization test: a stored value satisfies this requested
    /// capability iff the bitwise or of the two is positive.
    pub fn required(&self, input: i32) -> (r: bool)
        ensures
            r == ((self.value() | input) > 0),
    {
        (self.i32() | input) > 0
    }

    pub fn f_i32(input: i32) -> (r: AccessLevel)
        ensures
            r == AccessLevel::from_value(input),
    {
        if input == 1 {
            AccessLevel::Cookie
        } else if input == 2 {
            AccessLevel::Send
        } else if input == 31 {
            AccessLevel::All
        } else {
            AccessLevel::NoAccess
        }
    }
}

/// Whether an identity stands on the administrator list.
pub fn check_admin(admins: &Vec<i64>, id: i64) -> (r: bool)
    ensures
        r == admins@.contains(id),
{
    let mut k: usize = 0;
    while k < admins.len()
        invariant
            k <= admins@.len(),
            forall|j: int| 0 <= j < k ==> admins@[j] != id,
        decreases admins@.len() - k,
    {
        if admins[k] == id {
            return true;
        }
        k += 1;
    }
    proof {
        if admins@.contains(id) {
            let j = choose|j: int| 0 <= j < admins@.len() && admins@[j] == id;
            assert(admins@[j] != id);
        }
    }
    false
}

impl Default for AccessLevel {
    fn default() -> (r: Self)
        ensures
            r == AccessLevel::NoAccess,
    {
        AccessLevel::NoAccess
    }
}

} // verus!
