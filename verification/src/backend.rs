//! What a parity check between two routing backends reports when they
//! disagree: where their results first differ, or which backend failed.
use vstd::prelude::*;
use crate::text::{decimal, push_decimal, push_text};
use crate::types::{RouteError, route_error_text};

verus! {

/// Where two backends' routing results first differ, and how many results
/// each returned.
#[derive(Clone, Copy, Debug, PartialEq, Eq, Structural)]
pub struct BackendMismatch {
    pub first_mismatch_index: usize,
    pub reference_len: usize,
    pub candidate_len: usize,
}

impl BackendMismatch {
    /// The mismatch of a reference and a candidate result list of the given
    /// lengths, from the verdicts on the pairs of results compared in step
    /// (as many as the shorter list holds): the first pair that does not
    /// match, or the shorter length when every compared pair matches.
    pub fn from_pair_verdicts(pair_matches: &Vec<bool>, reference_len: usize, candidate_len: usize) -> (r:
        BackendMismatch)
        requires
            pair_matches.len() == if reference_len < candidate_len {
                reference_len
            } else {
                candidate_len
            },
        ensures
            r.first_mismatch_index <= pair_matches.len(),
            forall|i: int| 0 <= i < r.first_mismatch_index ==> #[trigger] pair_matches[i],
            r.first_mismatch_index < pair_matches.len() ==> !pair_matches[r.first_mismatch_index as int],
            r.reference_len == reference_len,
            r.candidate_len == candidate_len,
    {
        let mut i: usize = 0;
        while i < pair_matches.len() && pair_matches[i]
            invariant
                i <= pair_matches.len(),
                forall|j: int| 0 <= j < i ==> #[trigger] pair_matches[j],
            decreases pair_matches.len() - i,
        {
            i = i + 1;
        }
        BackendMismatch { first_mismatch_index: i, reference_len, candidate_len }
    }
}

/// Why a parity check between two routing backends failed.
#[derive(Clone, Debug)]
pub enum BackendParityError {
    ReferenceRoute { backend: String, source: RouteError },
    CandidateRoute { backend: String, source: RouteError },
    Mismatch { reference_backend: String, candidate_backend: String, mismatch: BackendMismatch },
}

/// The message of a parity failure.
pub open spec fn parity_error_text(e: BackendParityError) -> Seq<char> {
    match e {
        BackendParityError::ReferenceRoute { backend, source } => "reference backend "@ + backend@
            + " failed: "@ + route_error_text(source),
        BackendParityError::CandidateRoute { backend, source } => "candidate backend "@ + backend@
            + " failed: "@ + route_error_text(source),
        BackendParityError::Mismatch { reference_backend, candidate_backend, mismatch } =>
            "backend parity mismatch "@ + reference_backend@ + " vs "@ + candidate_backend@
            + ": first_mismatch="@ + decimal(mismatch.first_mismatch_index as nat)
            + " reference_len="@ + decimal(mismatch.reference_len as nat) + " candidate_len="@
            + decimal(mismatch.candidate_len as nat),
    }
}

impl BackendParityError {
    /// The failure's message.
    pub fn to_string(&self) -> (r: String)
        ensures
            r@ == parity_error_text(*self),
    {
        let mut out = String::new();
        match self {
            BackendParityError::ReferenceRoute { backend, source } => {
                push_text(&mut out, "reference backend ");
                push_text(&mut out, backend.as_str());
                push_text(&mut out, " failed: ");
                let text = source.to_string();
                push_text(&mut out, text.as_str());
            },
            BackendParityError::CandidateRoute { backend, source } => {
                push_text(&mut out, "candidate backend ");
                push_text(&mut out, backend.as_str());
                push_text(&mut out, " failed: ");
                let text = source.to_string();
                push_text(&mut out, text.as_str());
            },
            BackendParityError::Mismatch { reference_backend, candidate_backend, mismatch } => {
                push_text(&mut out, "backend parity mismatch ");
                push_text(&mut out, reference_backend.as_str());
                push_text(&mut out, " vs ");
                push_text(&mut out, candidate_backend.as_str());
                push_text(&mut out, ": first_mismatch=");
                push_decimal(&mut out, mismatch.first_mismatch_index as u64);
                push_text(&mut out, " reference_len=");
                push_decimal(&mut out, mismatch.reference_len as u64);
                push_text(&mut out, " candidate_len=");
                push_decimal(&mut out, mismatch.candidate_len as u64);
            },
        }
        assert(out@ =~= parity_error_text(*self));
        out
    }
}

} // verus!
