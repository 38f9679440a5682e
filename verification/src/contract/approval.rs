//! Approval vocabulary: the decisions exchanged over the approval seam.
use vstd::prelude::*;

verus! {

/// One decision on a gated tool call.
#[derive(Debug, PartialEq, Eq)]
pub enum Approval {
    /// The call executes.
    Approved,
    /// The call never executes; the rejection is returned to the model as an
    /// error result, with the approver's reason where one was given.
    Rejected {
        comment: Option<String>,
    },
}

/// What a [`Approval`] holds.
#[verifier::ext_equal]
pub enum ApprovalView {
    Approved,
    Rejected { comment: Option<Seq<char>> },
}

impl View for Approval {
    type V = ApprovalView;

    open spec fn view(&self) -> ApprovalView {
        match *self {
            Approval::Approved => ApprovalView::Approved,
            Approval::Rejected { comment } => ApprovalView::Rejected {
                comment: comment.deep_view(),
            },
        }
    }
}

impl DeepView for Approval {
    type V = ApprovalView;

    open spec fn deep_view(&self) -> ApprovalView {
        self@
    }
}

impl Clone for Approval {
    fn clone(&self) -> (r: Self)
        ensures
            r@ == self@,
    {
        match self {
            Approval::Approved => Approval::Approved,
            Approval::Rejected { comment } => Approval::Rejected {
                comment: comment.clone(),
            },
        }
    }
}

} // verus!
