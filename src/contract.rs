use vstd::prelude::*;

use crate::scheme::{
    absent, absent_members, contains, copy_principals, lemma_absent, params_ok, Scheme,
    SchemeView,
};
use crate::types::{Account, AssetId, Principal, RoscaError, Transfer};

verus! {

/// The transfers that an accepted contribution asks of the host: the
/// contributor's deposit into custody and, when the contribution completes the
/// round, the payout of the pot to the round's recipient.
#[derive(Clone, Copy, Debug, PartialEq, Eq, Structural)]
pub struct ContributionEffects {
    pub deposit: Transfer,
    pub payout: Option<Transfer>,
}

/// The notification of a force-closed round: its number and its defaulters.
#[derive(Debug)]
pub struct RoundClosed {
    pub round: u32,
    pub defaulters: Vec<Principal>,
}

/// The round engine. It owns the scheme record, which is absent until the
/// first successful `init`.
#[derive(Debug)]
pub struct AhjoorContract {
    pub scheme: Option<Scheme>,
}

impl View for AhjoorContract {
    type V = Option<SchemeView>;

    open spec fn view(&self) -> Option<SchemeView> {
        match self.scheme {
            Some(s) => Some(s@),
            None => None,
        }
    }
}

/// The failure of `init` on a store holding `v`, if any.
pub open spec fn init_error(v: Option<SchemeView>) -> Option<RoscaError> {
    if v is Some {
        Some(RoscaError::AlreadyInitialized)
    } else {
        None
    }
}

/// The failure of `contribute`, if any, checked in order: authentication,
/// initialization, deadline, membership, prior payment in this round.
pub open spec fn contribute_error(
    v: Option<SchemeView>,
    caller: Principal,
    contributor: Principal,
    now: u64,
) -> Option<RoscaError> {
    if caller != contributor {
        Some(RoscaError::Unauthorized)
    } else {
        match v {
            None => Some(RoscaError::NotInitialized),
            Some(s) => if now > s.round_deadline {
                Some(RoscaError::DeadlinePassed)
            } else if !s.members.contains(contributor) {
                Some(RoscaError::NotAMember)
            } else if s.paid_members.contains(contributor) {
                Some(RoscaError::AlreadyContributed)
            } else {
                None
            },
        }
    }
}

/// The pot of the current round once `contributor` has paid: the
/// contribution times the number of members who actually paid this round.
pub open spec fn pot(s: SchemeView) -> int {
    s.contribution_amount * (s.paid_members.len() + 1)
}

/// The payout of the round that one more contribution completes.
pub open spec fn payout_of(s: SchemeView) -> Transfer {
    Transfer {
        asset: s.token,
        from: Account::Custody,
        to: Account::Party(s.recipient()),
        amount: pot(s) as i128,
    }
}

/// The transfers owed when `contributor` pays into the scheme `s`.
pub open spec fn effects_of(s: SchemeView, contributor: Principal) -> ContributionEffects {
    ContributionEffects {
        deposit: Transfer {
            asset: s.token,
            from: Account::Party(contributor),
            to: Account::Custody,
            amount: s.contribution_amount,
        },
        payout: if s.completes() {
            Some(payout_of(s))
        } else {
            None
        },
    }
}

/// The failure of `close_round`, if any, checked in order: initialization,
/// authentication as the admin, deadline.
pub open spec fn close_error(v: Option<SchemeView>, caller: Principal, now: u64) -> Option<
    RoscaError,
> {
    match v {
        None => Some(RoscaError::NotInitialized),
        Some(s) => if caller != s.admin {
            Some(RoscaError::Unauthorized)
        } else if now <= s.round_deadline {
            Some(RoscaError::DeadlineNotYetPassed)
        } else {
            None
        },
    }
}

/// Pays the pot of the round that the contribution being recorded completes
/// to the round's recipient, and starts the next round at time `now`.
fn complete_round_payout(s: &mut Scheme, now: u64) -> (payout: Transfer)
    requires
        old(s)@.wf(),
        old(s)@.completes(),
        old(s)@.can_advance(now),
    ensures
        payout == payout_of(old(s)@),
        final(s)@ == old(s)@.next_round(now),
        final(s)@.wf(),
{
    let idx = (s.current_round as usize) % s.members.len();
    let recipient = s.members[idx];
    let payers = s.paid_members.len() + 1;
    assert(s.contribution_amount * payers <= i128::MAX);
    assert(s.contribution_amount * payers >= 0) by (nonlinear_arith)
        requires
            s.contribution_amount > 0,
            payers >= 0,
    ;
    let total_pot = s.contribution_amount * (payers as i128);
    s.current_round = s.current_round + 1;
    s.paid_members = Vec::new();
    s.round_deadline = now + s.round_duration;
    proof {
        assert(s.paid_members@ =~= Seq::<Principal>::empty());
    }
    Transfer {
        asset: s.token,
        from: Account::Custody,
        to: Account::Party(recipient),
        amount: total_pot,
    }
}

impl AhjoorContract {
    /// The store is empty or holds a well-formed record.
    pub open spec fn wf(self) -> bool {
        self@ matches Some(s) ==> s.wf()
    }

    /// An engine whose store holds no scheme yet.
    pub fn new() -> (r: AhjoorContract)
        ensures
            r@ is None,
            r.wf(),
    {
        AhjoorContract { scheme: None }
    }

    /// Creates the scheme at time `now`: round 0, nobody paid, no
    /// defaulters, first deadline `now + round_duration`. Fails with
    /// `AlreadyInitialized`, whatever the arguments, once a scheme exists.
    pub fn init(
        &mut self,
        admin: Principal,
        members: Vec<Principal>,
        contribution_amount: i128,
        token: AssetId,
        round_duration: u64,
        now: u64,
    ) -> (r: Result<(), RoscaError>)
        requires
            old(self).wf(),
            old(self)@ is None ==> params_ok(members@, contribution_amount, round_duration, now),
        ensures
            final(self).wf(),
            init_error(old(self)@) matches Some(e) ==> r == Err::<(), RoscaError>(e) && final(self)@ == old(self)@,
            init_error(old(self)@) is None ==> r is Ok && final(self)@ == Some(
                SchemeView::initial(
                    admin,
                    members@,
                    contribution_amount,
                    token,
                    round_duration,
                    now,
                ),
            ),
    {
        if self.scheme.is_some() {
            return Err(RoscaError::AlreadyInitialized);
        }
        let scheme = Scheme {
            admin,
            members,
            contribution_amount,
            token,
            current_round: 0,
            paid_members: Vec::new(),
            round_duration,
            round_deadline: now + round_duration,
            defaulters: Vec::new(),
        };
        self.scheme = Some(scheme);
        proof {
            assert(self@->Some_0.paid_members =~= Seq::<Principal>::empty());
            assert(self@->Some_0.defaulters =~= Seq::<Principal>::empty());
        }
        Ok(())
    }

    /// Records a contribution by `contributor`, the authenticated `caller`,
    /// at time `now`, and returns the transfers the host must perform within
    /// the same operation. When this contribution completes the round, the
    /// pot goes to the round's recipient and the next round starts. A
    /// rejected contribution changes nothing.
    pub fn contribute(&mut self, caller: Principal, contributor: Principal, now: u64) -> (r: Result<
        ContributionEffects,
        RoscaError,
    >)
        requires
            old(self).wf(),
            contribute_error(old(self)@, caller, contributor, now) is None && old(self)@->Some_0.completes() ==> old(self)@->Some_0.can_advance(now),
        ensures
            final(self).wf(),
            contribute_error(old(self)@, caller, contributor, now) matches Some(e) ==> r == Err::<
                ContributionEffects,
                RoscaError,
            >(e) && final(self)@ == old(self)@,
            contribute_error(old(self)@, caller, contributor, now) is None ==> r == Ok::<
                ContributionEffects,
                RoscaError,
            >(effects_of(old(self)@->Some_0, contributor)) && final(self)@ == Some(
                old(self)@->Some_0.after_contribution(contributor, now),
            ),
    {
        if caller != contributor {
            return Err(RoscaError::Unauthorized);
        }
        match &mut self.scheme {
            None => Err(RoscaError::NotInitialized),
            Some(s) => {
                if now > s.round_deadline {
                    return Err(RoscaError::DeadlinePassed);
                }
                if !contains(&s.members, contributor) {
                    return Err(RoscaError::NotAMember);
                }
                if contains(&s.paid_members, contributor) {
                    return Err(RoscaError::AlreadyContributed);
                }
                let deposit = Transfer {
                    asset: s.token,
                    from: Account::Party(contributor),
                    to: Account::Custody,
                    amount: s.contribution_amount,
                };
                let paid_count = s.paid_members.len();
                let member_count = s.members.len();
                assert(paid_count < member_count);
                if paid_count + 1 == member_count {
                    let payout = complete_round_payout(s, now);
                    Ok(ContributionEffects { deposit, payout: Some(payout) })
                } else {
                    s.paid_members.push(contributor);
                    Ok(ContributionEffects { deposit, payout: None })
                }
            },
        }
    }

    /// Force-closes the current round at time `now`, on behalf of the
    /// authenticated `caller`, who must be the admin. Records as defaulters
    /// the members who had not paid, starts the next round with deadline
    /// `now + round_duration` and returns the notification of the closed
    /// round. Funds already in custody stay there. A rejected call changes
    /// nothing.
    pub fn close_round(&mut self, caller: Principal, now: u64) -> (r: Result<
        RoundClosed,
        RoscaError,
    >)
        requires
            old(self).wf(),
            close_error(old(self)@, caller, now) is None ==> old(self)@->Some_0.can_advance(now),
        ensures
            final(self).wf(),
            close_error(old(self)@, caller, now) matches Some(e) ==> r == Err::<
                RoundClosed,
                RoscaError,
            >(e) && final(self)@ == old(self)@,
            close_error(old(self)@, caller, now) is None ==> (r matches Ok(c) && c.round == old(self)@->Some_0.current_round
                && c.defaulters@ == absent(old(self)@->Some_0.members, old(self)@->Some_0.paid_members)),
            close_error(old(self)@, caller, now) is None ==> final(self)@ == Some(old(self)@->Some_0.after_close(now)),
    {
        match &mut self.scheme {
            None => Err(RoscaError::NotInitialized),
            Some(s) => {
                if caller != s.admin {
                    return Err(RoscaError::Unauthorized);
                }
                if now <= s.round_deadline {
                    return Err(RoscaError::DeadlineNotYetPassed);
                }
                let defaulters = absent_members(&s.members, &s.paid_members);
                proof {
                    lemma_absent(s.members@, s.paid_members@);
                    assert forall|i: int| 0 <= i < defaulters@.len() implies s.members@.contains(
                        #[trigger] defaulters@[i],
                    ) by {
                        assert(defaulters@.contains(defaulters@[i]));
                    }
                }
                let round = s.current_round;
                s.defaulters = copy_principals(&defaulters);
                s.current_round = s.current_round + 1;
                s.paid_members = Vec::new();
                s.round_deadline = now + s.round_duration;
                proof {
                    assert(s.paid_members@ =~= Seq::<Principal>::empty());
                }
                Ok(RoundClosed { round, defaulters })
            },
        }
    }

    /// The current round, the members who paid in it (in order of payment)
    /// and its deadline; `(0, [], 0)` before initialization.
    pub fn get_state(&self) -> (r: (u32, Vec<Principal>, u64))
        ensures
            self@ is None ==> r.0 == 0 && r.1@ == Seq::<Principal>::empty() && r.2 == 0,
            self@ matches Some(s) ==> r.0 == s.current_round && r.1@ == s.paid_members && r.2
                == s.round_deadline,
    {
        match &self.scheme {
            None => (0, Vec::new(), 0),
            Some(s) => (s.current_round, copy_principals(&s.paid_members), s.round_deadline),
        }
    }
}

} // verus!
