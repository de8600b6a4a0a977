//! The rules of the deposit program: a program of the ledger that keeps
//! funds in deposit accounts which it owns.
//!
//! The rules work on the accounts as plain values. Whoever runs the program
//! on the ledger reads the accounts into that form, applies the rules and
//! writes the balances back.

use crate::transaction::Address;
use vstd::prelude::*;

verus! {

/// What the deposit program can be asked to do.
#[derive(Clone, Copy, Debug, PartialEq, Eq)]
pub enum DepositInstruction {
    ProcessCreateDeposit,
    ProcessDepositTranfer { amount: u64 },
    ProcessWithdraw { amount: u64 },
    ProcessBalance,
}

/// Why the deposit program refuses an instruction.
#[derive(Clone, Copy, Debug, PartialEq, Eq)]
pub enum DepositError {
    /// The instruction's data is empty, starts with an unknown tag, or holds
    /// an amount of another length than eight bytes.
    InvalidInstructionData,
    /// The instruction names fewer accounts than it needs.
    NotEnoughAccountKeys,
    /// The user account did not sign.
    MissingRequiredSignature,
    /// The deposit account is not owned by the program.
    IncorrectProgramId,
    /// The account to be charged holds less than the amount.
    InsufficientFunds,
    /// The account to be credited would hold more than can be counted.
    ArithmeticOverflow,
}

/// An account as the program sees it.
#[derive(Clone, Copy, Debug, PartialEq, Eq)]
pub struct Account {
    pub key: Address,
    /// The program that owns the account.
    pub owner: Address,
    /// Whether the account signed the transaction.
    pub is_signer: bool,
    /// The balance, in base units.
    pub lamports: u64,
}

/// The request to create a deposit account, which the system program
/// fulfils: `payer` funds the new account `account`, which holds `space`
/// bytes of data and is owned by `owner`.
#[derive(Clone, Copy, Debug, PartialEq, Eq)]
pub struct CreateDeposit {
    pub payer: Address,
    pub account: Address,
    pub space: u64,
    pub owner: Address,
}

/// What the program did for an instruction that it accepted.
#[derive(Clone, Copy, Debug, PartialEq, Eq)]
pub enum Processed {
    /// The accounts are in order; the deposit account is to be created.
    CreateDeposit(CreateDeposit),
    /// The amount was moved from the user account to the deposit account.
    Deposited,
    /// The amount was moved from the deposit account to the user account.
    Withdrew,
    /// The balance of the deposit account.
    Balance(u64),
}

/// The number that eight bytes denote, lowest byte first.
pub open spec fn le_u64(bytes: Seq<u8>) -> int {
    bytes[0] + bytes[1] * 0x100 + bytes[2] * 0x1_0000 + bytes[3] * 0x100_0000 + bytes[4]
        * 0x1_0000_0000 + bytes[5] * 0x100_0000_0000 + bytes[6] * 0x1_0000_0000_0000 + bytes[7]
        * 0x100_0000_0000_0000
}

/// The amount that follows the tag of an instruction: exactly eight bytes.
pub open spec fn unpacked_amount(rest: Seq<u8>) -> Result<u64, DepositError> {
    if rest.len() == 8 {
        Ok(le_u64(rest) as u64)
    } else {
        Err(DepositError::InvalidInstructionData)
    }
}

/// The instruction that the bytes `input` denote. The first byte is the tag:
/// 0 creates a deposit account, 1 withdraws, 2 asks for the balance and 3
/// deposits. A withdrawal and a deposit carry their amount in the eight bytes
/// that follow; the other two ignore what follows.
pub open spec fn unpacked(input: Seq<u8>) -> Result<DepositInstruction, DepositError> {
    if input.len() == 0 {
        Err(DepositError::InvalidInstructionData)
    } else if input[0] == 0 {
        Ok(DepositInstruction::ProcessCreateDeposit)
    } else if input[0] == 1 {
        match unpacked_amount(input.skip(1)) {
            Ok(amount) => Ok(DepositInstruction::ProcessWithdraw { amount }),
            Err(e) => Err(e),
        }
    } else if input[0] == 2 {
        Ok(DepositInstruction::ProcessBalance)
    } else if input[0] == 3 {
        match unpacked_amount(input.skip(1)) {
            Ok(amount) => Ok(DepositInstruction::ProcessDepositTranfer { amount }),
            Err(e) => Err(e),
        }
    } else {
        Err(DepositError::InvalidInstructionData)
    }
}

/// Reads the amount that follows the tag of `input`.
fn unpack_amount(input: &[u8]) -> (result: Result<u64, DepositError>)
    requires
        input@.len() >= 1,
    ensures
        result == unpacked_amount(input@.skip(1)),
{
    if input.len() != 9 {
        return Err(DepositError::InvalidInstructionData);
    }
    let ghost rest = input@.skip(1);
    assert(forall|i: int| 0 <= i < 8 ==> rest[i] == input@[i + 1]);
    let amount: u64 = input[1] as u64 + input[2] as u64 * 0x100 + input[3] as u64 * 0x1_0000
        + input[4] as u64 * 0x100_0000 + input[5] as u64 * 0x1_0000_0000 + input[6] as u64
        * 0x100_0000_0000 + input[7] as u64 * 0x1_0000_0000_0000 + input[8] as u64
        * 0x100_0000_0000_0000;
    Ok(amount)
}

impl DepositInstruction {
    /// Reads an instruction from its bytes: see [`unpacked`].
    pub fn unpack(input: &[u8]) -> (result: Result<DepositInstruction, DepositError>)
        ensures
            result == unpacked(input@),
    {
        if input.len() == 0 {
            return Err(DepositError::InvalidInstructionData);
        }
        let tag = input[0];
        if tag == 0 {
            Ok(DepositInstruction::ProcessCreateDeposit)
        } else if tag == 1 {
            match unpack_amount(input) {
                Ok(amount) => Ok(DepositInstruction::ProcessWithdraw { amount }),
                Err(e) => Err(e),
            }
        } else if tag == 2 {
            Ok(DepositInstruction::ProcessBalance)
        } else if tag == 3 {
            match unpack_amount(input) {
                Ok(amount) => Ok(DepositInstruction::ProcessDepositTranfer { amount }),
                Err(e) => Err(e),
            }
        } else {
            Err(DepositError::InvalidInstructionData)
        }
    }
}

/// Whether two addresses hold the same bytes.
pub fn same_address(a: &Address, b: &Address) -> (same: bool)
    ensures
        same == (a@ == b@),
{
    let mut i: usize = 0;
    while i < 32
        invariant
            i <= 32,
            forall|j: int| 0 <= j < i ==> a.bytes@[j] == b.bytes@[j],
        decreases 32 - i,
    {
        if a.bytes[i] != b.bytes[i] {
            return false;
        }
        i = i + 1;
    }
    assert(a@ =~= b@);
    true
}

/// `account` with the balance `lamports`.
pub open spec fn with_balance(account: Account, lamports: int) -> Account {
    Account { lamports: lamports as u64, ..account }
}

/// What a deposit of `lamports` does to `accounts`, of which the first is the
/// deposit account and the second the user account: the accounts after it, or
/// why it is refused. The user must have signed, the program must own the
/// deposit account, the user must hold the amount, and the deposit account
/// must have room for it.
pub open spec fn deposited(program_id: Address, accounts: Seq<Account>, lamports: u64) -> Result<
    Seq<Account>,
    DepositError,
> {
    if accounts.len() < 2 {
        Err(DepositError::NotEnoughAccountKeys)
    } else if !accounts[1].is_signer {
        Err(DepositError::MissingRequiredSignature)
    } else if accounts[0].owner@ != program_id@ {
        Err(DepositError::IncorrectProgramId)
    } else if accounts[1].lamports < lamports {
        Err(DepositError::InsufficientFunds)
    } else if accounts[0].lamports + lamports > u64::MAX {
        Err(DepositError::ArithmeticOverflow)
    } else {
        Ok(
            accounts.update(1, with_balance(accounts[1], accounts[1].lamports - lamports)).update(
                0,
                with_balance(accounts[0], accounts[0].lamports + lamports),
            ),
        )
    }
}

/// What a withdrawal of `lamports` does to `accounts`, of which the first is
/// the deposit account and the second the user account. The user must have
/// signed, the program must own the deposit account, the deposit account must
/// hold the amount, and the user account must have room for it.
pub open spec fn withdrawn(program_id: Address, accounts: Seq<Account>, lamports: u64) -> Result<
    Seq<Account>,
    DepositError,
> {
    if accounts.len() < 2 {
        Err(DepositError::NotEnoughAccountKeys)
    } else if !accounts[1].is_signer {
        Err(DepositError::MissingRequiredSignature)
    } else if accounts[0].owner@ != program_id@ {
        Err(DepositError::IncorrectProgramId)
    } else if accounts[0].lamports < lamports {
        Err(DepositError::InsufficientFunds)
    } else if accounts[1].lamports + lamports > u64::MAX {
        Err(DepositError::ArithmeticOverflow)
    } else {
        Ok(
            accounts.update(0, with_balance(accounts[0], accounts[0].lamports - lamports)).update(
                1,
                with_balance(accounts[1], accounts[1].lamports + lamports),
            ),
        )
    }
}

/// The balance of the deposit account, the first of `accounts`, which the
/// program must own.
pub open spec fn balance_of(program_id: Address, accounts: Seq<Account>) -> Result<
    u64,
    DepositError,
> {
    if accounts.len() < 1 {
        Err(DepositError::NotEnoughAccountKeys)
    } else if accounts[0].owner@ != program_id@ {
        Err(DepositError::IncorrectProgramId)
    } else {
        Ok(accounts[0].lamports)
    }
}

/// The request to create the deposit account. The accounts are the deposit
/// account, the user account, which pays and must have signed, and the system
/// program. The new account holds no data and is owned by the program.
pub open spec fn creation_of(program_id: Address, accounts: Seq<Account>) -> Result<
    CreateDeposit,
    DepositError,
> {
    if accounts.len() < 3 {
        Err(DepositError::NotEnoughAccountKeys)
    } else if !accounts[1].is_signer {
        Err(DepositError::MissingRequiredSignature)
    } else {
        Ok(
            CreateDeposit {
                payer: accounts[1].key,
                account: accounts[0].key,
                space: 0,
                owner: program_id,
            },
        )
    }
}

/// What the program does for the instruction in `data`: what it answers, and
/// the accounts afterwards.
pub open spec fn processed(program_id: Address, accounts: Seq<Account>, data: Seq<u8>) -> (
    Result<Processed, DepositError>,
    Seq<Account>,
) {
    match unpacked(data) {
        Err(_) => (Err(DepositError::InvalidInstructionData), accounts),
        Ok(DepositInstruction::ProcessCreateDeposit) => match creation_of(program_id, accounts) {
            Ok(request) => (Ok(Processed::CreateDeposit(request)), accounts),
            Err(e) => (Err(e), accounts),
        },
        Ok(DepositInstruction::ProcessWithdraw { amount }) => match withdrawn(
            program_id,
            accounts,
            amount,
        ) {
            Ok(after) => (Ok(Processed::Withdrew), after),
            Err(e) => (Err(e), accounts),
        },
        Ok(DepositInstruction::ProcessDepositTranfer { amount }) => match deposited(
            program_id,
            accounts,
            amount,
        ) {
            Ok(after) => (Ok(Processed::Deposited), after),
            Err(e) => (Err(e), accounts),
        },
        Ok(DepositInstruction::ProcessBalance) => match balance_of(program_id, accounts) {
            Ok(balance) => (Ok(Processed::Balance(balance)), accounts),
            Err(e) => (Err(e), accounts),
        },
    }
}

/// Checks the accounts of a request to create a deposit account, and gives
/// the request that the system program is to fulfil: see [`creation_of`].
pub fn process_create_deposit(program_id: &Address, accounts: &Vec<Account>) -> (result: Result<
    CreateDeposit,
    DepositError,
>)
    ensures
        result == creation_of(*program_id, accounts@),
{
    if accounts.len() < 3 {
        return Err(DepositError::NotEnoughAccountKeys);
    }
    let deposit_account = accounts[0];
    let user_account = accounts[1];
    if !user_account.is_signer {
        return Err(DepositError::MissingRequiredSignature);
    }
    Ok(
        CreateDeposit {
            payer: user_account.key,
            account: deposit_account.key,
            space: 0,
            owner: *program_id,
        },
    )
}

/// Reads the balance of the deposit account: see [`balance_of`].
pub fn process_balance(program_id: &Address, accounts: &Vec<Account>) -> (result: Result<
    u64,
    DepositError,
>)
    ensures
        result == balance_of(*program_id, accounts@),
{
    if accounts.len() < 1 {
        return Err(DepositError::NotEnoughAccountKeys);
    }
    let deposit_account = accounts[0];
    if !same_address(&deposit_account.owner, program_id) {
        return Err(DepositError::IncorrectProgramId);
    }
    Ok(deposit_account.lamports)
}

/// Moves `lamports` from the user account to the deposit account: see
/// [`deposited`]. A refused deposit leaves the accounts as they are.
pub fn process_deposit(program_id: &Address, accounts: &mut Vec<Account>, lamports: u64) -> (result:
    Result<(), DepositError>)
    ensures
        match deposited(*program_id, old(accounts)@, lamports) {
            Ok(after) => result is Ok && final(accounts)@ == after,
            Err(e) => result == Err::<(), DepositError>(e) && final(accounts)@ == old(accounts)@,
        },
{
    if accounts.len() < 2 {
        return Err(DepositError::NotEnoughAccountKeys);
    }
    let deposit_account = accounts[0];
    let user_account = accounts[1];
    if !user_account.is_signer {
        return Err(DepositError::MissingRequiredSignature);
    }
    if !same_address(&deposit_account.owner, program_id) {
        return Err(DepositError::IncorrectProgramId);
    }
    if user_account.lamports < lamports {
        return Err(DepositError::InsufficientFunds);
    }
    let credited = match deposit_account.lamports.checked_add(lamports) {
        Some(credited) => credited,
        None => {
            return Err(DepositError::ArithmeticOverflow);
        },
    };
    accounts.set(1, Account { lamports: user_account.lamports - lamports, ..user_account });
    accounts.set(0, Account { lamports: credited, ..deposit_account });
    Ok(())
}

/// Moves `lamports` from the deposit account to the user account: see
/// [`withdrawn`]. A refused withdrawal leaves the accounts as they are.
pub fn process_withdraw(program_id: &Address, accounts: &mut Vec<Account>, lamports: u64) -> (result:
    Result<(), DepositError>)
    ensures
        match withdrawn(*program_id, old(accounts)@, lamports) {
            Ok(after) => result is Ok && final(accounts)@ == after,
            Err(e) => result == Err::<(), DepositError>(e) && final(accounts)@ == old(accounts)@,
        },
{
    if accounts.len() < 2 {
        return Err(DepositError::NotEnoughAccountKeys);
    }
    let deposit_account = accounts[0];
    let user_account = accounts[1];
    if !user_account.is_signer {
        return Err(DepositError::MissingRequiredSignature);
    }
    if !same_address(&deposit_account.owner, program_id) {
        return Err(DepositError::IncorrectProgramId);
    }
    if deposit_account.lamports < lamports {
        return Err(DepositError::InsufficientFunds);
    }
    let credited = match user_account.lamports.checked_add(lamports) {
        Some(credited) => credited,
        None => {
            return Err(DepositError::ArithmeticOverflow);
        },
    };
    accounts.set(0, Account { lamports: deposit_account.lamports - lamports, ..deposit_account });
    accounts.set(1, Account { lamports: credited, ..user_account });
    Ok(())
}

/// Carries out the instruction in `instruction_data` on `accounts`: see
/// [`processed`]. Data that is no instruction is refused as
/// [`DepositError::InvalidInstructionData`]; a refused instruction leaves the
/// accounts as they are.
pub fn process_instruction(
    program_id: &Address,
    accounts: &mut Vec<Account>,
    instruction_data: &[u8],
) -> (result: Result<Processed, DepositError>)
    ensures
        (result, final(accounts)@) == processed(*program_id, old(accounts)@, instruction_data@),
{
    let instruction = match DepositInstruction::unpack(instruction_data) {
        Ok(instruction) => instruction,
        Err(_) => {
            return Err(DepositError::InvalidInstructionData);
        },
    };
    match instruction {
        DepositInstruction::ProcessCreateDeposit => match process_create_deposit(
            program_id,
            accounts,
        ) {
            Ok(request) => Ok(Processed::CreateDeposit(request)),
            Err(e) => Err(e),
        },
        DepositInstruction::ProcessWithdraw { amount } => match process_withdraw(
            program_id,
            accounts,
            amount,
        ) {
            Ok(_) => Ok(Processed::Withdrew),
            Err(e) => Err(e),
        },
        DepositInstruction::ProcessDepositTranfer { amount } => match process_deposit(
            program_id,
            accounts,
            amount,
        ) {
            Ok(_) => Ok(Processed::Deposited),
            Err(e) => Err(e),
        },
        DepositInstruction::ProcessBalance => match process_balance(program_id, accounts) {
            Ok(balance) => Ok(Processed::Balance(balance)),
            Err(e) => Err(e),
        },
    }
}

/// A deposit and a withdrawal leave the sum of the two balances as it was.
pub proof fn transfers_keep_the_total(program_id: Address, accounts: Seq<Account>, lamports: u64)
    ensures
        deposited(program_id, accounts, lamports) matches Ok(after) ==> after[0].lamports
            + after[1].lamports == accounts[0].lamports + accounts[1].lamports,
        withdrawn(program_id, accounts, lamports) matches Ok(after) ==> after[0].lamports
            + after[1].lamports == accounts[0].lamports + accounts[1].lamports,
{
}

} // verus!
