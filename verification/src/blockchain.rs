use vstd::prelude::*;

verus! {

/// Why a request is not sent to the chain.
#[derive(Clone, Copy, Debug, PartialEq, Eq, Structural)]
pub enum ClientError {
    /// A transfer request of zero is refused before it is sent.
    ZeroAmount,
}

impl ClientError {
    /// The message reported with the error.
    pub fn message(&self) -> (r: &'static str)
        ensures
            r@ == "Amount must be greater than zero"@,
    {
        "Amount must be greater than zero"
    }
}

/// The `n` low bytes of `x`, least significant first.
pub open spec fn le_bytes(x: nat, n: nat) -> Seq<u8>
    decreases n,
{
    if n == 0 {
        seq![]
    } else {
        seq![(x % 256) as u8] + le_bytes(x / 256, (n - 1) as nat)
    }
}

/// The selector that the program's interface gives `submit_transfer`.
pub open spec fn submit_transfer_selector() -> Seq<u8> {
    seq![131u8, 57u8, 253u8, 234u8, 98u8, 101u8, 37u8, 157u8]
}

/// The selector that the program's interface gives `approve_transfer`.
pub open spec fn approve_transfer_selector() -> Seq<u8> {
    seq![198u8, 217u8, 247u8, 150u8, 208u8, 60u8, 169u8, 244u8]
}

/// The instruction data of `submit_transfer`: the selector, then the two
/// user ids and the amount, each as eight little-endian bytes.
pub open spec fn submit_transfer_data(from_user_id: u64, to_user_id: u64, amount: u64) -> Seq<u8> {
    submit_transfer_selector() + le_bytes(from_user_id as nat, 8) + le_bytes(to_user_id as nat, 8)
        + le_bytes(amount as nat, 8)
}

/// Appends the eight little-endian bytes of `x`, as `x.to_le_bytes()` gives them.
fn push_le_u64(data: &mut Vec<u8>, x: u64)
    ensures
        final(data)@ == old(data)@ + le_bytes(x as nat, 8),
{
    let ghost d0 = data@;
    let mut v: u64 = x;
    let mut k: u64 = 0;
    while k < 8
        invariant
            k <= 8,
            data@ + le_bytes(v as nat, (8 - k) as nat) == d0 + le_bytes(x as nat, 8),
        decreases 8 - k,
    {
        let ghost before = data@;
        proof {
            assert(le_bytes(v as nat, (8 - k) as nat) == seq![(v % 256) as u8] + le_bytes((v / 256) as nat, (8 - k - 1) as nat));
        }
        data.push((v % 256) as u8);
        proof {
            assert(data@ + le_bytes((v / 256) as nat, (8 - k - 1) as nat) =~= before + (seq![(v % 256) as u8] + le_bytes((v / 256) as nat, (8 - k - 1) as nat)));
        }
        v = v / 256;
        k = k + 1;
    }
    assert(le_bytes(v as nat, 0) =~= seq![]);
    assert(data@ =~= d0 + le_bytes(x as nat, 8));
}

fn push_selector(data: &mut Vec<u8>, b: [u8; 8])
    ensures
        final(data)@ == old(data)@ + b@,
{
    let ghost d0 = data@;
    let mut i: usize = 0;
    while i < 8
        invariant
            i <= 8,
            data@ == d0 + b@.take(i as int),
        decreases 8 - i,
    {
        data.push(b[i]);
        assert(b@.take(i + 1) =~= b@.take(i as int).push(b@[i as int]));
        i = i + 1;
    }
    assert(b@.take(8) =~= b@);
}

/// The instruction data of a `submit_transfer` request; a zero amount is
/// refused and nothing is built.
pub fn submit_transfer_instruction_data(from_user_id: u64, to_user_id: u64, amount: u64) -> (r: Result<Vec<u8>, ClientError>)
    ensures
        amount == 0 ==> r == Err::<Vec<u8>, ClientError>(ClientError::ZeroAmount),
        amount != 0 ==> (r matches Ok(d) && d@ == submit_transfer_data(from_user_id, to_user_id, amount)),
{
    if amount == 0 {
        return Err(ClientError::ZeroAmount);
    }
    let mut data: Vec<u8> = Vec::new();
    push_selector(&mut data, [131, 57, 253, 234, 98, 101, 37, 157]);
    push_le_u64(&mut data, from_user_id);
    push_le_u64(&mut data, to_user_id);
    push_le_u64(&mut data, amount);
    assert(data@ =~= submit_transfer_data(from_user_id, to_user_id, amount));
    Ok(data)
}

/// The instruction data of an `approve_transfer` request: the selector alone.
pub fn approve_transfer_instruction_data() -> (r: Vec<u8>)
    ensures
        r@ == approve_transfer_selector(),
{
    let mut data: Vec<u8> = Vec::new();
    push_selector(&mut data, [198, 217, 247, 150, 208, 60, 169, 244]);
    assert(data@ =~= approve_transfer_selector());
    data
}

} // verus!
