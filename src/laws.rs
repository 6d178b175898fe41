//! Properties of the round engine that relate its operations, stated over the
//! spec functions that the operations' contracts use.
use vstd::prelude::*;

use crate::contract::{close_error, contribute_error, effects_of, init_error};
use crate::scheme::{lemma_absent, params_ok, SchemeView};
use crate::types::{Account, AssetId, Principal, RoscaError, Transfer};

verus! {

/// A valid initialization starts a well-formed scheme in round 0 with nobody
/// paid.
pub proof fn law_init_starts_round_zero(
    admin: Principal,
    members: Seq<Principal>,
    contribution_amount: i128,
    token: AssetId,
    round_duration: u64,
    now: u64,
)
    requires
        params_ok(members, contribution_amount, round_duration, now),
    ensures
        ({
            let s = SchemeView::initial(admin, members, contribution_amount, token, round_duration, now);
            &&& s.wf()
            &&& s.current_round == 0
            &&& s.paid_members.len() == 0
        }),
{
}

/// Once a scheme exists, every further initialization fails with
/// `AlreadyInitialized`, whatever its arguments.
pub proof fn law_init_only_once(
    admin: Principal,
    members: Seq<Principal>,
    contribution_amount: i128,
    token: AssetId,
    round_duration: u64,
    now: u64,
)
    ensures
        init_error(
            Some(SchemeView::initial(admin, members, contribution_amount, token, round_duration, now)),
        ) == Some(RoscaError::AlreadyInitialized),
{
}

/// An authenticated contribution before the deadline by a principal that is
/// not a member fails with `NotAMember` (and so moves no funds).
pub proof fn law_non_member_rejected(s: SchemeView, contributor: Principal, now: u64)
    requires
        now <= s.round_deadline,
        !s.members.contains(contributor),
    ensures
        contribute_error(Some(s), contributor, contributor, now) == Some(RoscaError::NotAMember),
{
}

/// A member that contributed cannot contribute again in the same round: the
/// second call fails with `AlreadyContributed`.
pub proof fn law_no_second_contribution(s: SchemeView, contributor: Principal, first: u64, second: u64)
    requires
        s.wf(),
        contribute_error(Some(s), contributor, contributor, first) is None,
        !s.completes(),
        second <= s.round_deadline,
    ensures
        contribute_error(
            Some(s.after_contribution(contributor, first)),
            contributor,
            contributor,
            second,
        ) == Some(RoscaError::AlreadyContributed),
{
    assert(s.paid_members.push(contributor).last() == contributor);
    assert(s.paid_members.push(contributor)[s.paid_members.len() as int] == contributor);
}

/// After the deadline an authenticated contribution fails with
/// `DeadlinePassed`, whether or not the member has paid.
pub proof fn law_late_contribution_rejected(s: SchemeView, contributor: Principal, now: u64)
    requires
        now > s.round_deadline,
    ensures
        contribute_error(Some(s), contributor, contributor, now) == Some(RoscaError::DeadlinePassed),
{
}

/// The contribution that completes a round pays the full pot, the
/// contribution times the number of members, to the member at index
/// `current_round mod |members|`, and starts the next round with nobody paid,
/// all within that one contribution.
pub proof fn law_last_contribution_pays_out(s: SchemeView, contributor: Principal, now: u64)
    requires
        s.wf(),
        contribute_error(Some(s), contributor, contributor, now) is None,
        s.completes(),
        s.can_advance(now),
    ensures
        ({
            let t = s.after_contribution(contributor, now);
            &&& t.wf()
            &&& t.current_round == s.current_round + 1
            &&& t.paid_members.len() == 0
            &&& t.round_deadline == now + s.round_duration
        }),
        effects_of(s, contributor).payout == Some(
            Transfer {
                asset: s.token,
                from: Account::Custody,
                to: Account::Party(s.members[s.current_round as int % s.members.len() as int]),
                amount: (s.contribution_amount * s.members.len()) as i128,
            },
        ),
{
}

/// Closing a round is refused with `DeadlineNotYetPassed` up to and including
/// its deadline, even for the admin.
pub proof fn law_no_early_close(s: SchemeView, now: u64)
    requires
        now <= s.round_deadline,
    ensures
        close_error(Some(s), s.admin, now) == Some(RoscaError::DeadlineNotYetPassed),
{
}

/// Closing a round after its deadline records as defaulters exactly the
/// members that had not paid, starts the next round with nobody paid, and
/// sets the next deadline from the closing time.
pub proof fn law_close_records_defaulters(s: SchemeView, now: u64)
    requires
        s.wf(),
        close_error(Some(s), s.admin, now) is None,
        s.can_advance(now),
    ensures
        ({
            let t = s.after_close(now);
            &&& t.wf()
            &&& forall|x: Principal|
                #[trigger] t.defaulters.contains(x) <==> s.members.contains(x)
                    && !s.paid_members.contains(x)
            &&& t.current_round == s.current_round + 1
            &&& t.paid_members.len() == 0
            &&& t.round_deadline == now + s.round_duration
        }),
{
    lemma_absent(s.members, s.paid_members);
    let t = s.after_close(now);
    assert forall|i: int| 0 <= i < t.defaulters.len() implies s.members.contains(
        #[trigger] t.defaulters[i],
    ) by {
        assert(t.defaulters.contains(t.defaulters[i]));
    }
}

} // verus!
