use vstd::prelude::*;

use crate::types::{AssetId, Principal};

verus! {

/// The scheme record as mathematical values.
pub struct SchemeView {
    pub admin: Principal,
    pub members: Seq<Principal>,
    pub contribution_amount: i128,
    pub token: AssetId,
    pub current_round: u32,
    pub paid_members: Seq<Principal>,
    pub round_duration: u64,
    pub round_deadline: u64,
    pub defaulters: Seq<Principal>,
}

/// The members (in membership order) that do not occur in `paid`.
pub open spec fn absent(members: Seq<Principal>, paid: Seq<Principal>) -> Seq<Principal>
    decreases members.len(),
{
    if members.len() == 0 {
        Seq::empty()
    } else {
        let rest = absent(members.drop_last(), paid);
        if paid.contains(members.last()) {
            rest
        } else {
            rest.push(members.last())
        }
    }
}

/// Membership in `absent(members, paid)` is membership in `members` and not
/// in `paid`; it holds each member at most once when `members` does.
pub proof fn lemma_absent(members: Seq<Principal>, paid: Seq<Principal>)
    ensures
        forall|x: Principal|
            #[trigger] absent(members, paid).contains(x) <==> members.contains(x) && !paid.contains(
                x,
            ),
        members.no_duplicates() ==> absent(members, paid).no_duplicates(),
    decreases members.len(),
{
    if members.len() > 0 {
        let init = members.drop_last();
        let last = members.last();
        lemma_absent(init, paid);
        assert forall|x: Principal| members.contains(x) <==> init.contains(x) || x == last by {
            if members.contains(x) {
                let i = choose|i: int| 0 <= i < members.len() && members[i] == x;
                if i < members.len() - 1 {
                    assert(init[i] == x);
                }
            }
            if init.contains(x) {
                let i = choose|i: int| 0 <= i < init.len() && init[i] == x;
                assert(members[i] == x);
            }
            if x == last {
                assert(members[members.len() - 1] == x);
            }
        }
        let rest = absent(init, paid);
        assert forall|x: Principal| rest.push(last).contains(x) <==> rest.contains(x) || x == last by {
            if rest.push(last).contains(x) {
                let i = choose|i: int| 0 <= i < rest.len() + 1 && rest.push(last)[i] == x;
                if i < rest.len() {
                    assert(rest[i] == x);
                }
            }
            if rest.contains(x) {
                let i = choose|i: int| 0 <= i < rest.len() && rest[i] == x;
                assert(rest.push(last)[i] == x);
            }
            if x == last {
                assert(rest.push(last)[rest.len() as int] == x);
            }
        }
        assert forall|x: Principal| #[trigger] absent(members, paid).contains(x) <==> members.contains(x)
            && !paid.contains(x) by {
            assert(absent(init, paid).contains(x) <==> init.contains(x) && !paid.contains(x));
        }
        if members.no_duplicates() {
            assert(init.no_duplicates()) by {
                assert forall|i: int, j: int| 0 <= i < init.len() && 0 <= j < init.len() && i != j
                    implies init[i] != init[j] by {
                    assert(members[i] == init[i] && members[j] == init[j]);
                }
            }
            assert(!init.contains(last)) by {
                if init.contains(last) {
                    let i = choose|i: int| 0 <= i < init.len() && init[i] == last;
                    assert(members[i] == members[members.len() - 1]);
                }
            }
            if !paid.contains(last) {
                let r = rest.push(last);
                assert forall|i: int, j: int| 0 <= i < r.len() && 0 <= j < r.len() && i != j
                    implies r[i] != r[j] by {
                    if i < rest.len() && j < rest.len() {
                        assert(r[i] == rest[i] && r[j] == rest[j]);
                    } else if i < rest.len() {
                        assert(rest.contains(r[i]));
                    } else {
                        assert(rest.contains(r[j]));
                    }
                }
            }
        }
    }
}

/// Every principal of `part` is one of `whole`.
pub open spec fn all_in(part: Seq<Principal>, whole: Seq<Principal>) -> bool {
    forall|i: int| 0 <= i < part.len() ==> whole.contains(#[trigger] part[i])
}

/// The arguments of a first initialization are acceptable: members are
/// non-empty and distinct, the amount and the duration are positive, the
/// full pot fits in `i128` and the first deadline fits in `u64`.
pub open spec fn params_ok(
    members: Seq<Principal>,
    contribution_amount: i128,
    round_duration: u64,
    now: u64,
) -> bool {
    &&& members.len() > 0
    &&& members.no_duplicates()
    &&& contribution_amount > 0
    &&& contribution_amount * members.len() <= i128::MAX
    &&& round_duration > 0
    &&& now + round_duration <= u64::MAX
}

impl SchemeView {
    /// The record invariant.
    pub open spec fn wf(self) -> bool {
        &&& self.members.len() > 0
        &&& self.members.no_duplicates()
        &&& self.contribution_amount > 0
        &&& self.contribution_amount * self.members.len() <= i128::MAX
        &&& self.round_duration > 0
        &&& self.paid_members.no_duplicates()
        &&& all_in(self.paid_members, self.members)
        &&& self.paid_members.len() < self.members.len()
        &&& self.defaulters.no_duplicates()
        &&& all_in(self.defaulters, self.members)
    }

    /// The record that a first initialization creates at time `now`.
    pub open spec fn initial(
        admin: Principal,
        members: Seq<Principal>,
        contribution_amount: i128,
        token: AssetId,
        round_duration: u64,
        now: u64,
    ) -> SchemeView {
        SchemeView {
            admin,
            members,
            contribution_amount,
            token,
            current_round: 0,
            paid_members: Seq::empty(),
            round_duration,
            round_deadline: (now + round_duration) as u64,
            defaulters: Seq::empty(),
        }
    }

    /// The member paid out at the end of the current round.
    pub open spec fn recipient(self) -> Principal {
        self.members[self.current_round as int % self.members.len() as int]
    }

    /// A contribution by one more member completes the round.
    pub open spec fn completes(self) -> bool {
        self.paid_members.len() + 1 == self.members.len()
    }

    /// The next round can start at time `now` without the round counter or
    /// the deadline overflowing.
    pub open spec fn can_advance(self, now: u64) -> bool {
        &&& self.current_round < u32::MAX
        &&& now + self.round_duration <= u64::MAX
    }

    /// The record with the next round started at time `now`.
    pub open spec fn next_round(self, now: u64) -> SchemeView {
        SchemeView {
            current_round: (self.current_round + 1) as u32,
            paid_members: Seq::empty(),
            round_deadline: (now + self.round_duration) as u64,
            ..self
        }
    }

    /// The record after `contributor` paid at time `now`.
    pub open spec fn after_contribution(self, contributor: Principal, now: u64) -> SchemeView {
        if self.completes() {
            self.next_round(now)
        } else {
            SchemeView { paid_members: self.paid_members.push(contributor), ..self }
        }
    }

    /// The record after the admin force-closed the round at time `now`.
    pub open spec fn after_close(self, now: u64) -> SchemeView {
        SchemeView { defaulters: absent(self.members, self.paid_members), ..self.next_round(now) }
    }
}

/// The persisted scheme record.
#[derive(Debug)]
pub struct Scheme {
    pub admin: Principal,
    pub members: Vec<Principal>,
    pub contribution_amount: i128,
    pub token: AssetId,
    pub current_round: u32,
    pub paid_members: Vec<Principal>,
    pub round_duration: u64,
    pub round_deadline: u64,
    pub defaulters: Vec<Principal>,
}

impl View for Scheme {
    type V = SchemeView;

    open spec fn view(&self) -> SchemeView {
        SchemeView {
            admin: self.admin,
            members: self.members@,
            contribution_amount: self.contribution_amount,
            token: self.token,
            current_round: self.current_round,
            paid_members: self.paid_members@,
            round_duration: self.round_duration,
            round_deadline: self.round_deadline,
            defaulters: self.defaulters@,
        }
    }
}

/// Whether `p` occurs in `v`.
pub fn contains(v: &Vec<Principal>, p: Principal) -> (r: bool)
    ensures
        r == v@.contains(p),
{
    let mut i: usize = 0;
    while i < v.len()
        invariant
            i <= v.len(),
            forall|j: int| 0 <= j < i ==> v@[j] != p,
        decreases v.len() - i,
    {
        if v[i] == p {
            return true;
        }
        i = i + 1;
    }
    false
}

/// A copy of `v`.
pub fn copy_principals(v: &Vec<Principal>) -> (r: Vec<Principal>)
    ensures
        r@ == v@,
{
    let mut r: Vec<Principal> = Vec::new();
    let mut i: usize = 0;
    while i < v.len()
        invariant
            i <= v.len(),
            r@ == v@.subrange(0, i as int),
        decreases v.len() - i,
    {
        r.push(v[i]);
        i = i + 1;
        assert(r@ =~= v@.subrange(0, i as int));
    }
    assert(r@ =~= v@);
    r
}

/// The members of `members`, in order, that do not occur in `paid`.
pub fn absent_members(members: &Vec<Principal>, paid: &Vec<Principal>) -> (r: Vec<Principal>)
    ensures
        r@ == absent(members@, paid@),
{
    let mut r: Vec<Principal> = Vec::new();
    let mut i: usize = 0;
    while i < members.len()
        invariant
            i <= members.len(),
            r@ == absent(members@.subrange(0, i as int), paid@),
        decreases members.len() - i,
    {
        let m = members[i];
        let ghost head = members@.subrange(0, i as int + 1);
        assert(head.drop_last() =~= members@.subrange(0, i as int));
        assert(head.last() == m);
        if !contains(paid, m) {
            r.push(m);
        }
        i = i + 1;
    }
    assert(members@.subrange(0, members.len() as int) =~= members@);
    r
}

/// Whether no principal occurs twice in `v`.
pub fn distinct(v: &Vec<Principal>) -> (r: bool)
    ensures
        r == v@.no_duplicates(),
{
    let mut i: usize = 0;
    while i < v.len()
        invariant
            i <= v.len(),
            forall|a: int, b: int| 0 <= a < b < v.len() && a < i ==> v@[a] != v@[b],
        decreases v.len() - i,
    {
        let mut j: usize = i + 1;
        while j < v.len()
            invariant
                i < v.len(),
                i + 1 <= j <= v.len(),
                forall|a: int, b: int| 0 <= a < b < v.len() && a < i ==> v@[a] != v@[b],
                forall|b: int| i < b < j ==> v@[i as int] != v@[b],
            decreases v.len() - j,
        {
            if v[i] == v[j] {
                return false;
            }
            j = j + 1;
        }
        i = i + 1;
    }
    true
}

impl Scheme {
    /// Whether the arguments are acceptable for a first initialization at
    /// time `now`.
    pub fn params_valid(
        members: &Vec<Principal>,
        contribution_amount: i128,
        round_duration: u64,
        now: u64,
    ) -> (r: bool)
        ensures
            r == params_ok(members@, contribution_amount, round_duration, now),
    {
        if members.len() == 0 || contribution_amount <= 0 || round_duration == 0 {
            return false;
        }
        if round_duration > u64::MAX - now {
            return false;
        }
        if members.len() as u128 > i128::MAX as u128 / contribution_amount as u128 {
            assert(contribution_amount * members.len() > i128::MAX) by (nonlinear_arith)
                requires
                    members.len() > i128::MAX as u128 / contribution_amount as u128,
                    contribution_amount > 0,
            ;
            return false;
        }
        proof {
            let n = members.len() as int;
            let a = contribution_amount as int;
            let q = i128::MAX as int / a;
            assert(n <= q);
            assert(a * q <= i128::MAX) by (nonlinear_arith)
                requires
                    q == i128::MAX as int / a,
                    a > 0,
            ;
            assert(a * n <= a * q) by (nonlinear_arith)
                requires
                    n <= q,
                    a > 0,
            ;
        }
        distinct(members)
    }
}

} // verus!
