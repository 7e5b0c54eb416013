use vstd::prelude::*;
use crate::types::NPRSResult;
use crate::codec::check_code_params;

verus! {

/// The largest number of validators: the size of the field GF(2^16).
pub const MAX_VALIDATORS: usize = 65536;

/// The number of chunks from which a payload can be recovered when it was
/// spread over `n` validators: one more than the number of faulty validators
/// that `n` tolerates.
pub open spec fn threshold(n: nat) -> nat {
    ((n - 1) as nat) / 3 + 1
}

/// Whether `n` validators can be served at all.
pub open spec fn valid_validator_count(n: nat) -> bool {
    2 <= n <= MAX_VALIDATORS
}

/// The error for a validator count that cannot be served.
pub open spec fn validator_count_error(n: nat) -> NPRSResult {
    if n > MAX_VALIDATORS {
        NPRSResult::TooManyValidators
    } else {
        NPRSResult::NotEnoughValidators
    }
}

/// Obtain a threshold of chunks that should be enough to recover the data.
pub fn recovery_threshold(n_validators: usize) -> (r: Result<usize, NPRSResult>)
    ensures
        valid_validator_count(n_validators as nat) <==> r is Ok,
        r is Ok ==> r->Ok_0 == threshold(n_validators as nat),
        r is Err ==> r->Err_0 == validator_count_error(n_validators as nat),
{
    if n_validators > MAX_VALIDATORS {
        return Err(NPRSResult::TooManyValidators);
    }
    if n_validators <= 1 {
        return Err(NPRSResult::NotEnoughValidators);
    }
    let needed = (n_validators - 1) / 3;
    Ok(needed + 1)
}

/// Parameters of the code for one call: `n` chunks, of which any `k` recover
/// the payload.
#[derive(Debug, Clone, Copy, PartialEq, Eq, Structural)]
pub struct CodeParams {
    pub n: usize,
    pub k: usize,
}

impl CodeParams {
    /// The parameters that serve `n` validators.
    pub open spec fn wf(&self) -> bool {
        &&& valid_validator_count(self.n as nat)
        &&& self.k == threshold(self.n as nat)
    }
}

/// Derive the code parameters for `n_validators`, as checked by the codec.
pub fn code_params(n_validators: usize) -> (r: Result<CodeParams, NPRSResult>)
    ensures
        valid_validator_count(n_validators as nat) <==> r is Ok,
        r is Ok ==> r->Ok_0.n == n_validators && r->Ok_0.wf(),
        r is Err ==> r->Err_0 == validator_count_error(n_validators as nat),
{
    let k_wanted = match recovery_threshold(n_validators) {
        Ok(k) => k,
        Err(e) => return Err(e),
    };
    if n_validators > MAX_VALIDATORS {
        return Err(NPRSResult::TooManyValidators);
    }
    match check_code_params(n_validators, k_wanted) {
        Ok(()) => Ok(CodeParams { n: n_validators, k: k_wanted }),
        Err(novelpoly_error) => Err(match novelpoly_error {
            reed_solomon_novelpoly::Error::WantedShardCountTooHigh(_) => NPRSResult::TooManyValidators,
            reed_solomon_novelpoly::Error::WantedShardCountTooLow(_) => NPRSResult::NotEnoughValidators,
            _ => NPRSResult::UnknownCodeParam,
        }),
    }
}

} // verus!
