use vstd::prelude::*;

verus! {

/// A 32-byte account address.
#[derive(Clone, Copy, Debug, PartialEq, Eq)]
pub struct Pubkey(pub [u8; 32]);

/// The on-chain record of a transfer request.
#[derive(Clone, Copy, Debug, PartialEq, Eq)]
pub struct TransferRequest {
    pub requested_by: Pubkey,
    pub from_user_id: u64,
    pub to_user_id: u64,
    pub amount: u64,
    pub approved: bool,
    pub completed: bool,
    pub approved_by: Option<Pubkey>,
}

/// The accounts of a `submit_transfer` instruction: the freshly created
/// request and the signer who pays for it.
pub struct SubmitTransfer {
    pub transfer_request: TransferRequest,
    pub user: Pubkey,
}

/// The accounts of an `approve_transfer` instruction: the request and the
/// approving signer.
pub struct ApproveTransfer {
    pub transfer_request: TransferRequest,
    pub manager: Pubkey,
}

/// Why the program rejects an instruction.
#[derive(Clone, Copy, Debug, PartialEq, Eq, Structural)]
pub enum BankingError {
    InvalidAmount,
    AlreadyApproved,
    AlreadyCompleted,
}

impl BankingError {
    /// The message the program reports with the error.
    pub fn message(&self) -> (r: &'static str)
        ensures
            r@ == match *self {
                BankingError::InvalidAmount => "Amount must be greater than zero"@,
                BankingError::AlreadyApproved => "Transfer already approved"@,
                BankingError::AlreadyCompleted => "Transfer already completed"@,
            },
    {
        match self {
            BankingError::InvalidAmount => "Amount must be greater than zero",
            BankingError::AlreadyApproved => "Transfer already approved",
            BankingError::AlreadyCompleted => "Transfer already completed",
        }
    }
}

/// What `submit_transfer` does: a zero amount is rejected and, the
/// instruction failing, nothing is written; otherwise the request records
/// the signer, the two users and the amount, neither approved nor completed.
pub open spec fn submit_transfer_post(
    ctx0: SubmitTransfer,
    ctx1: SubmitTransfer,
    from_user_id: u64,
    to_user_id: u64,
    amount: u64,
    r: Result<(), BankingError>,
) -> bool {
    &&& ctx1.user == ctx0.user
    &&& if amount == 0 {
        r == Err::<(), BankingError>(BankingError::InvalidAmount) && ctx1.transfer_request
            == ctx0.transfer_request
    } else {
        r is Ok && ctx1.transfer_request == TransferRequest {
            requested_by: ctx0.user,
            from_user_id,
            to_user_id,
            amount,
            approved: false,
            completed: false,
            approved_by: None,
        }
    }
}

/// What `approve_transfer` does: an approved request is rejected, then a
/// completed one, and nothing is written; otherwise the request becomes
/// approved and completed by the signer, the rest kept.
pub open spec fn approve_transfer_post(ctx0: ApproveTransfer, ctx1: ApproveTransfer, r: Result<(), BankingError>) -> bool {
    &&& ctx1.manager == ctx0.manager
    &&& if ctx0.transfer_request.approved {
        r == Err::<(), BankingError>(BankingError::AlreadyApproved) && ctx1.transfer_request
            == ctx0.transfer_request
    } else if ctx0.transfer_request.completed {
        r == Err::<(), BankingError>(BankingError::AlreadyCompleted) && ctx1.transfer_request
            == ctx0.transfer_request
    } else {
        r is Ok && ctx1.transfer_request == TransferRequest {
            approved: true,
            completed: true,
            approved_by: Some(ctx0.manager),
            ..ctx0.transfer_request
        }
    }
}

/// Records a transfer request of `amount` from `from_user_id` to
/// `to_user_id`, made by the signer.
pub fn submit_transfer(ctx: &mut SubmitTransfer, from_user_id: u64, to_user_id: u64, amount: u64) -> (r: Result<(), BankingError>)
    ensures
        submit_transfer_post(*old(ctx), *final(ctx), from_user_id, to_user_id, amount, r),
{
    if amount == 0 {
        return Err(BankingError::InvalidAmount);
    }
    ctx.transfer_request = TransferRequest {
        requested_by: ctx.user,
        from_user_id,
        to_user_id,
        amount,
        approved: false,
        completed: false,
        approved_by: None,
    };
    Ok(())
}

/// Approves and completes a transfer request on behalf of the signer.
pub fn approve_transfer(ctx: &mut ApproveTransfer) -> (r: Result<(), BankingError>)
    ensures
        approve_transfer_post(*old(ctx), *final(ctx), r),
{
    if ctx.transfer_request.approved {
        return Err(BankingError::AlreadyApproved);
    }
    if ctx.transfer_request.completed {
        return Err(BankingError::AlreadyCompleted);
    }
    ctx.transfer_request.approved = true;
    ctx.transfer_request.completed = true;
    ctx.transfer_request.approved_by = Some(ctx.manager);
    Ok(())
}

/// A request is approved exactly when it is completed, and names its
/// approver exactly then.
pub open spec fn request_consistent(t: TransferRequest) -> bool {
    &&& t.approved == t.completed
    &&& (t.approved_by is Some <==> t.approved)
}

/// Every request that `submit_transfer` writes is consistent, and every
/// approval keeps it so.
pub proof fn lemma_requests_stay_consistent(
    s0: SubmitTransfer,
    s1: SubmitTransfer,
    from_user_id: u64,
    to_user_id: u64,
    amount: u64,
    r: Result<(), BankingError>,
    a0: ApproveTransfer,
    a1: ApproveTransfer,
    q: Result<(), BankingError>,
)
    requires
        submit_transfer_post(s0, s1, from_user_id, to_user_id, amount, r),
        r is Ok,
        approve_transfer_post(a0, a1, q),
    ensures
        request_consistent(s1.transfer_request),
        request_consistent(a0.transfer_request) ==> request_consistent(a1.transfer_request),
{
}

/// A submitted request, once approved, is approved and completed by the
/// approving signer and keeps what was submitted.
pub proof fn lemma_submit_then_approve(
    s0: SubmitTransfer,
    s1: SubmitTransfer,
    from_user_id: u64,
    to_user_id: u64,
    amount: u64,
    r: Result<(), BankingError>,
    a1: ApproveTransfer,
    q: Result<(), BankingError>,
    a0: ApproveTransfer,
)
    requires
        submit_transfer_post(s0, s1, from_user_id, to_user_id, amount, r),
        amount > 0,
        a0.transfer_request == s1.transfer_request,
        approve_transfer_post(a0, a1, q),
    ensures
        q is Ok,
        a1.transfer_request.approved,
        a1.transfer_request.completed,
        a1.transfer_request.approved_by == Some(a0.manager),
        a1.transfer_request.requested_by == s0.user,
        a1.transfer_request.from_user_id == from_user_id,
        a1.transfer_request.to_user_id == to_user_id,
        a1.transfer_request.amount == amount,
{
}

/// An approved request cannot be approved again: a second approval fails
/// with `AlreadyApproved` and changes nothing.
pub proof fn lemma_approval_is_final(
    a0: ApproveTransfer,
    a1: ApproveTransfer,
    q1: Result<(), BankingError>,
    a2: ApproveTransfer,
    a3: ApproveTransfer,
    q2: Result<(), BankingError>,
)
    requires
        approve_transfer_post(a0, a1, q1),
        q1 is Ok,
        a2.transfer_request == a1.transfer_request,
        approve_transfer_post(a2, a3, q2),
    ensures
        q2 == Err::<(), BankingError>(BankingError::AlreadyApproved),
        a3.transfer_request == a1.transfer_request,
{
}

} // verus!
