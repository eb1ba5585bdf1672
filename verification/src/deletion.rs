//! Deletion planning and outcome summary.
//!
//! The executor deletes every interface in `Available` status. This module
//! holds the two decisions of that batch: which identifiers to target (and
//! which candidates to record as lacking one), and, once the caller has issued
//! the delete calls and gathered their results, what the run's aggregate
//! outcome is.

use vstd::prelude::*;
use crate::model::{EniRecord, EniView, StatusKey, classify, spec_classify};

verus! {

/// The identifiers of the interfaces in `Available` status that carry one,
/// in list order.
pub open spec fn spec_targets(s: Seq<EniView>) -> Seq<Seq<char>>
    decreases s.len(),
{
    if s.len() == 0 {
        Seq::empty()
    } else {
        let rest = spec_targets(s.drop_last());
        let e = s.last();
        if spec_classify(e.status) == StatusKey::Available && e.id is Some {
            rest.push(e.id->0)
        } else {
            rest
        }
    }
}

/// How many interfaces of `s` are in `Available` status but carry no
/// identifier.
pub open spec fn spec_missing_count(s: Seq<EniView>) -> nat
    decreases s.len(),
{
    if s.len() == 0 {
        0
    } else {
        spec_missing_count(s.drop_last()) + if spec_classify(s.last().status)
            == StatusKey::Available && s.last().id is None {
            1nat
        } else {
            0nat
        }
    }
}

/// The number of interfaces lacking an identifier never exceeds the list
/// length.
pub proof fn lemma_missing_le_len(s: Seq<EniView>)
    ensures
        spec_missing_count(s) <= s.len(),
    decreases s.len(),
{
    if s.len() > 0 {
        lemma_missing_le_len(s.drop_last());
    }
}

/// The deletable subset of a listing: the identifiers to delete, and how many
/// `Available` interfaces had to be skipped for want of an identifier.
pub struct DeletionPlan {
    pub targets: Vec<String>,
    pub missing: usize,
}

/// Filters the listing to the delete batch.
///
/// An interface is targeted exactly when its status classifies to `Available`
/// and it carries an identifier; an `Available` interface without one is
/// counted as missing instead, and no other interface affects the plan.
pub fn plan_deletion(enis: &Vec<EniRecord>) -> (p: DeletionPlan)
    ensures
        p.targets.deep_view() == spec_targets(enis.deep_view()),
        p.missing == spec_missing_count(enis.deep_view()),
{
    let ghost all: Seq<EniView> = enis.deep_view();
    let mut targets: Vec<String> = Vec::new();
    let mut missing: usize = 0;
    let mut i: usize = 0;
    while i < enis.len()
        invariant
            i <= enis.len(),
            all == enis.deep_view(),
            all.len() == enis@.len(),
            targets.deep_view() == spec_targets(all.take(i as int)),
            missing == spec_missing_count(all.take(i as int)),
        decreases enis.len() - i,
    {
        proof {
            assert(all.take(i + 1).drop_last() =~= all.take(i as int));
            assert(all.take(i + 1).last() == enis@[i as int]@);
            lemma_missing_le_len(all.take(i as int));
        }
        let k = classify(&enis[i].status);
        if k == StatusKey::Available {
            match &enis[i].id {
                Option::Some(id) => {
                    targets.push(id.clone());
                    proof {
                        assert(targets.deep_view() =~= spec_targets(all.take(i + 1)));
                    }
                },
                Option::None => {
                    missing = missing + 1;
                },
            }
        }
        i = i + 1;
    }
    proof {
        assert(all.take(enis@.len() as int) =~= all);
    }
    DeletionPlan { targets, missing }
}

/// Every targeted identifier belongs to an interface in `Available` status:
/// the plan never issues a delete for an interface in any other status.
pub proof fn lemma_targets_only_available(s: Seq<EniView>, j: int)
    requires
        0 <= j < spec_targets(s).len(),
    ensures
        exists|i: int|
            0 <= i < s.len() && #[trigger] spec_classify(s[i].status) == StatusKey::Available
                && s[i].id == Some(spec_targets(s)[j]),
    decreases s.len(),
{
    let e = s.last();
    let rest = spec_targets(s.drop_last());
    if spec_classify(e.status) == StatusKey::Available && e.id is Some && j == rest.len() {
        assert(spec_classify(s[s.len() - 1].status) == StatusKey::Available);
        assert(s[s.len() - 1].id == Some(spec_targets(s)[j]));
    } else {
        lemma_targets_only_available(s.drop_last(), j);
        let i = choose|i: int|
            0 <= i < s.drop_last().len() && #[trigger] spec_classify(s.drop_last()[i].status)
                == StatusKey::Available && s.drop_last()[i].id == Some(rest[j]);
        assert(spec_classify(s[i].status) == StatusKey::Available);
        assert(s[i].id == Some(spec_targets(s)[j]));
    }
}

/// An `Available` interface without an identifier is recorded as missing, is
/// not targeted, and does not affect which other interfaces are targeted:
/// dropping it from the list leaves the targets unchanged and lowers the
/// missing count by exactly one.
pub proof fn lemma_missing_excluded_without_blocking(s: Seq<EniView>, i: int)
    requires
        0 <= i < s.len(),
        spec_classify(s[i].status) == StatusKey::Available,
        s[i].id is None,
    ensures
        spec_targets(s.remove(i)) == spec_targets(s),
        spec_missing_count(s) == spec_missing_count(s.remove(i)) + 1,
    decreases s.len(),
{
    if i == s.len() - 1 {
        assert(s.remove(i) =~= s.drop_last());
    } else {
        assert(s.remove(i).drop_last() =~= s.drop_last().remove(i));
        assert(s.remove(i).last() == s.last());
        assert(s.drop_last()[i] == s[i]);
        lemma_missing_excluded_without_blocking(s.drop_last(), i);
    }
}

/// The result of one attempted delete call: the targeted identifier and the
/// error the call surfaced, absent on success.
pub struct DeleteAttempt {
    pub id: String,
    pub error: Option<String>,
}

/// The mathematical view of a [`DeleteAttempt`].
pub ghost struct AttemptView {
    pub id: Seq<char>,
    pub error: Option<Seq<char>>,
}

impl View for DeleteAttempt {
    type V = AttemptView;

    open spec fn view(&self) -> AttemptView {
        AttemptView { id: self.id@, error: self.error.deep_view() }
    }
}

impl DeepView for DeleteAttempt {
    type V = AttemptView;

    open spec fn deep_view(&self) -> AttemptView {
        self@
    }
}

/// Why a run that attempted deletions did not end cleanly.
#[derive(Clone, Debug, PartialEq, Eq)]
pub enum RunError {
    /// An `Available` interface carried no identifier to target.
    MissingIdentifier,
    /// A delete call failed; carries the targeted identifier and the error's
    /// description.
    ApiError { id: String, message: String },
}

impl RunError {
    /// A one-line description of the error, for the operator.
    pub fn describe(&self) -> (r: String)
        ensures
            (self is MissingIdentifier ==> r@ == "available ENI has no network_interface_id"@),
            (self matches RunError::ApiError { id, message } ==> r@ == "delete failed for "@
                + id@ + ": "@ + message@),
    {
        match self {
            RunError::MissingIdentifier => {
                "available ENI has no network_interface_id".to_owned()
            },
            RunError::ApiError { id, message } => {
                let mut s = "delete failed for ".to_owned();
                s.append(id.as_str());
                s.append(": ");
                s.append(message.as_str());
                s
            },
        }
    }
}

/// The last attempt in `rs` that failed, if any failed at all.
pub open spec fn last_api_failure(rs: Seq<AttemptView>) -> Option<AttemptView>
    decreases rs.len(),
{
    if rs.len() == 0 {
        Option::None
    } else if rs.last().error is Some {
        Option::Some(rs.last())
    } else {
        last_api_failure(rs.drop_last())
    }
}

/// Reduces the per-item outcomes of the delete batch, together with the count
/// of candidates skipped for want of an identifier, to the run's aggregate
/// result.
///
/// The run succeeds exactly when no candidate was skipped and every attempt
/// succeeded. When any attempt failed, the result carries the last observed
/// failure; when none failed but a candidate was skipped, it reports the
/// missing identifier.
pub fn summarize_deletion(missing: usize, attempts: &Vec<DeleteAttempt>) -> (r: Result<
    (),
    RunError,
>)
    ensures
        r is Ok <==> (missing == 0 && last_api_failure(attempts.deep_view()) is None),
        (match last_api_failure(attempts.deep_view()) {
            Option::Some(a) => (r matches Err(RunError::ApiError { id, message }) && id@ == a.id
                && a.error == Some(message@)),
            Option::None => missing > 0 ==> r == Err::<(), RunError>(RunError::MissingIdentifier),
        }),
{
    let ghost all: Seq<AttemptView> = attempts.deep_view();
    let mut r: Result<(), RunError> = if missing > 0 {
        Err(RunError::MissingIdentifier)
    } else {
        Ok(())
    };
    let mut i: usize = 0;
    while i < attempts.len()
        invariant
            i <= attempts.len(),
            all == attempts.deep_view(),
            all.len() == attempts@.len(),
            r is Ok <==> (missing == 0 && last_api_failure(all.take(i as int)) is None),
            (match last_api_failure(all.take(i as int)) {
                Option::Some(a) => (r matches Err(RunError::ApiError { id, message }) && id@
                    == a.id && a.error == Some(message@)),
                Option::None => missing > 0 ==> r == Err::<(), RunError>(
                    RunError::MissingIdentifier,
                ),
            }),
        decreases attempts.len() - i,
    {
        proof {
            assert(all.take(i + 1).drop_last() =~= all.take(i as int));
            assert(all.take(i + 1).last() == attempts@[i as int]@);
        }
        match &attempts[i].error {
            Option::Some(message) => {
                r = Err(RunError::ApiError { id: attempts[i].id.clone(), message: message.clone() });
            },
            Option::None => {},
        }
        i = i + 1;
    }
    proof {
        assert(all.take(attempts@.len() as int) =~= all);
    }
    r
}

} // verus!
