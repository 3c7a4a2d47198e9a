use vstd::prelude::*;

verus! {

/// An opaque principal identifier: an account comes into existence implicitly
/// the first time it receives a balance entry.
#[derive(Clone, Copy, Debug, PartialEq, Eq, Structural, Hash)]
pub struct AccountId(pub u64);

/// The authorization oracle's verdicts for a single call: the set of
/// principals the caller has genuinely authenticated as.  The ledger consults
/// this value before any privileged mutation and treats a negative answer as
/// a fatal abort of the whole operation.
#[derive(Debug)]
pub struct Auth {
    principals: Vec<AccountId>,
}

impl Auth {
    /// Whether the current call is authorized to act as principal `account`.
    pub closed spec fn granted(self, account: AccountId) -> bool {
        self.principals@.contains(account)
    }

    /// An oracle that vouches for nobody.
    pub fn deny_all() -> (auth: Auth)
        ensures
            forall|a: AccountId| !auth.granted(a),
    {
        Auth { principals: Vec::new() }
    }

    /// Extends the oracle's verdicts: the caller also authenticates as
    /// principal `account`.
    pub fn grant(&mut self, account: AccountId)
        ensures
            forall|b: AccountId| final(self).granted(b) == (old(self).granted(b) || b == account),
    {
        self.principals.push(account);
        proof {
            let s0 = old(self).principals@;
            let s1 = self.principals@;
            assert forall|b: AccountId|
                s1.contains(b) == (s0.contains(b) || b == account) by {
                if s1.contains(b) {
                    let i = choose|i: int| 0 <= i < s1.len() && s1[i] == b;
                    if i < s0.len() {
                        assert(s0[i] == b);
                    }
                }
                if s0.contains(b) {
                    let i = choose|i: int| 0 <= i < s0.len() && s0[i] == b;
                    assert(s1[i] == b);
                }
                if b == account {
                    assert(s1[s0.len() as int] == b);
                }
            }
        }
    }

    /// Asks the oracle whether the call authenticates as `account`.
    pub fn allows(&self, account: AccountId) -> (r: bool)
        ensures
            r == self.granted(account),
    {
        let mut i: usize = 0;
        while i < self.principals.len()
            invariant
                i <= self.principals.len(),
                forall|j: int| 0 <= j < i ==> self.principals@[j] != account,
            decreases self.principals.len() - i,
        {
            if self.principals[i] == account {
                return true;
            }
            i = i + 1;
        }
        proof {
            if self.principals@.contains(account) {
                let j = choose|j: int|
                    0 <= j < self.principals@.len() && self.principals@[j] == account;
                assert(false);
            }
        }
        false
    }
}

} // verus!
