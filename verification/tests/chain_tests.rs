use rust_banking::blockchain::{
    approve_transfer_instruction_data, submit_transfer_instruction_data, ClientError,
};
use rust_banking::program::{
    approve_transfer, submit_transfer, ApproveTransfer, BankingError, Pubkey, SubmitTransfer,
    TransferRequest,
};

fn blank() -> TransferRequest {
    TransferRequest {
        requested_by: Pubkey([0; 32]),
        from_user_id: 0,
        to_user_id: 0,
        amount: 0,
        approved: false,
        completed: false,
        approved_by: None,
    }
}

#[test]
fn submit_records_the_request() {
    let mut ctx = SubmitTransfer { transfer_request: blank(), user: Pubkey([7; 32]) };
    assert_eq!(submit_transfer(&mut ctx, 1, 3, 150000), Ok(()));
    assert_eq!(
        ctx.transfer_request,
        TransferRequest {
            requested_by: Pubkey([7; 32]),
            from_user_id: 1,
            to_user_id: 3,
            amount: 150000,
            approved: false,
            completed: false,
            approved_by: None,
        }
    );
}

#[test]
fn submit_refuses_zero() {
    let mut ctx = SubmitTransfer { transfer_request: blank(), user: Pubkey([7; 32]) };
    assert_eq!(submit_transfer(&mut ctx, 1, 3, 0), Err(BankingError::InvalidAmount));
    assert_eq!(ctx.transfer_request, blank());
    assert_eq!(BankingError::InvalidAmount.message(), "Amount must be greater than zero");
}

#[test]
fn approval_happens_once() {
    let mut s = SubmitTransfer { transfer_request: blank(), user: Pubkey([7; 32]) };
    submit_transfer(&mut s, 2, 4, 99).unwrap();
    let mut a = ApproveTransfer { transfer_request: s.transfer_request, manager: Pubkey([9; 32]) };
    assert_eq!(approve_transfer(&mut a), Ok(()));
    assert!(a.transfer_request.approved);
    assert!(a.transfer_request.completed);
    assert_eq!(a.transfer_request.approved_by, Some(Pubkey([9; 32])));
    assert_eq!(a.transfer_request.amount, 99);
    let after = a.transfer_request;
    assert_eq!(approve_transfer(&mut a), Err(BankingError::AlreadyApproved));
    assert_eq!(a.transfer_request, after);
    assert_eq!(BankingError::AlreadyApproved.message(), "Transfer already approved");
}

#[test]
fn completed_request_is_refused() {
    let mut r = blank();
    r.completed = true;
    let mut a = ApproveTransfer { transfer_request: r, manager: Pubkey([9; 32]) };
    assert_eq!(approve_transfer(&mut a), Err(BankingError::AlreadyCompleted));
    assert_eq!(a.transfer_request, r);
    assert_eq!(BankingError::AlreadyCompleted.message(), "Transfer already completed");
}

#[test]
fn submit_payload_layout() {
    let d = submit_transfer_instruction_data(1, 3, 150000).unwrap();
    let mut expected = vec![131u8, 57, 253, 234, 98, 101, 37, 157];
    expected.extend_from_slice(&1u64.to_le_bytes());
    expected.extend_from_slice(&3u64.to_le_bytes());
    expected.extend_from_slice(&150000u64.to_le_bytes());
    assert_eq!(d, expected);
    let d = submit_transfer_instruction_data(u64::MAX, 0x0102030405060708, 1).unwrap();
    assert_eq!(&d[8..16], &[255u8; 8]);
    assert_eq!(&d[16..24], &[8u8, 7, 6, 5, 4, 3, 2, 1]);
    assert_eq!(d.len(), 32);
}

#[test]
fn submit_payload_refuses_zero() {
    assert_eq!(submit_transfer_instruction_data(1, 3, 0), Err(ClientError::ZeroAmount));
    assert_eq!(ClientError::ZeroAmount.message(), "Amount must be greater than zero");
}

#[test]
fn approve_payload_is_the_selector() {
    assert_eq!(approve_transfer_instruction_data(), vec![198u8, 217, 247, 150, 208, 60, 169, 244]);
}
