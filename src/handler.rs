//! Turning one instruction into a planned write: base58 text to bytes, classification,
//! payload decoding, and selection of the authorising account by its role flags.
use vstd::prelude::*;
use vstd::string::StringSliceAdditionalSpecFns;
use crate::instruction::{classify, Instruction};
use crate::payload::{parse_mint_badge, parse_register, DecodeError, MintBadge, Register};

verus! {

/// An account referenced by the instruction's transaction.
#[derive(Debug, Clone, PartialEq, Eq)]
pub struct AccountKey {
    pub pubkey: String,
    pub signer: bool,
    pub writable: bool,
}

/// A row of the `class` table.
#[derive(Debug, Clone, PartialEq, Eq)]
pub struct ClassRow {
    pub id: u64,
    pub controller_id: u64,
    pub register: String,
}

/// A row of the `badge` table.
#[derive(Debug, Clone, PartialEq, Eq)]
pub struct BadgeRow {
    pub id: u64,
    pub class_id: u64,
    pub publisher: String,
}

pub struct ClassRowView {
    pub id: u64,
    pub controller_id: u64,
    pub register: Seq<char>,
}

pub struct BadgeRowView {
    pub id: u64,
    pub class_id: u64,
    pub publisher: Seq<char>,
}

impl View for ClassRow {
    type V = ClassRowView;

    open spec fn view(&self) -> ClassRowView {
        ClassRowView { id: self.id, controller_id: self.controller_id, register: self.register@ }
    }
}

impl View for BadgeRow {
    type V = BadgeRowView;

    open spec fn view(&self) -> BadgeRowView {
        BadgeRowView { id: self.id, class_id: self.class_id, publisher: self.publisher@ }
    }
}

/// Why storage refused a write.
#[derive(Debug, Clone, PartialEq, Eq)]
pub enum StorageError {
    /// A row with the same primary key exists.
    DuplicateKey,
    /// The badge's class has no row.
    MissingClass,
    /// The storage backend failed; its message.
    Backend(String),
}

/// Why an instruction could not be applied.
#[derive(Debug, Clone, PartialEq, Eq)]
pub enum HandleError {
    /// A recognised instruction whose payload does not decode.
    Decode(DecodeError),
    /// No account has the role the instruction needs.
    MissingAccount,
    /// Storage refused the write.
    Storage(StorageError),
}

/// What to do with an instruction.
#[derive(Debug, Clone, PartialEq, Eq)]
pub enum Plan {
    Skip,
    Abort(HandleError),
    InsertClass(ClassRow),
    InsertBadge(BadgeRow),
}

pub enum PlanView {
    Skip,
    Abort(HandleError),
    InsertClass(ClassRowView),
    InsertBadge(BadgeRowView),
}

impl View for Plan {
    type V = PlanView;

    open spec fn view(&self) -> PlanView {
        match self {
            Plan::Skip => PlanView::Skip,
            Plan::Abort(e) => PlanView::Abort(*e),
            Plan::InsertClass(row) => PlanView::InsertClass(row@),
            Plan::InsertBadge(row) => PlanView::InsertBadge(row@),
        }
    }
}

/// The outcome of one instruction or transaction, for the caller's loop.
#[derive(Debug, Clone, PartialEq, Eq)]
pub enum ControlSignal {
    Continue,
    Skip,
    Abort(HandleError),
}

pub open spec fn has_role(a: AccountKey, signer: bool, writable: bool) -> bool {
    a.signer == signer && a.writable == writable
}

/// The first account with the given flags.
pub open spec fn first_with_role(accounts: Seq<AccountKey>, signer: bool, writable: bool) -> Option<int>
    decreases accounts.len(),
{
    if accounts.len() == 0 {
        None
    } else if has_role(accounts[0], signer, writable) {
        Some(0)
    } else {
        match first_with_role(accounts.drop_first(), signer, writable) {
            None => None,
            Some(i) => Some(i + 1),
        }
    }
}

/// The plan for the decoded bytes of an instruction. A badge's publisher is the
/// first account that signs and is not writable; a class's register is the first
/// account that signs and is writable.
pub open spec fn plan_of(data: Seq<u8>, accounts: Seq<AccountKey>) -> PlanView {
    let (kind, payload) = classify(data);
    match kind {
        Instruction::Unknow => PlanView::Skip,
        Instruction::MintBadge => match parse_mint_badge(payload) {
            None => PlanView::Abort(HandleError::Decode(DecodeError::InvalidData)),
            Some((m, _)) => match first_with_role(accounts, true, false) {
                None => PlanView::Abort(HandleError::MissingAccount),
                Some(i) => PlanView::InsertBadge(
                    BadgeRowView { id: m.badge_id, class_id: m.class_id, publisher: accounts[i].pubkey@ },
                ),
            },
        },
        Instruction::Register => match parse_register(payload) {
            None => PlanView::Abort(HandleError::Decode(DecodeError::InvalidData)),
            Some((m, _)) => match first_with_role(accounts, true, true) {
                None => PlanView::Abort(HandleError::MissingAccount),
                Some(i) => PlanView::InsertClass(
                    ClassRowView { id: m.class_id, controller_id: m.profile_id, register: accounts[i].pubkey@ },
                ),
            },
        },
    }
}

/// What base58 decoding yields for a text: its bytes, or nothing if it is not base58.
pub uninterp spec fn base58_decoded(s: Seq<char>) -> Option<Seq<u8>>;

/// Texts on which base58 decoding is safe to run: up to 131 bytes, or not starting
/// with `'1'` (a leading `'1'` stands for a leading zero byte).
pub open spec fn base58_in_range(b: Seq<u8>) -> bool {
    b.len() <= 131 || b[0] != 49
}

/// Relies on `base58::FromBase58::from_base58` for `str`: the bytes a text encodes,
/// or an error when it holds a non-base58 character or encodes too many bytes. It
/// can panic on a long text of leading `'1'`s, which `requires` leaves out.
#[verifier::external_body]
fn from_base58(s: &str) -> (r: Option<Vec<u8>>)
    requires
        base58_in_range(s.spec_bytes()),
    ensures
        r is None <==> base58_decoded(s@) is None,
        r matches Some(b) ==> base58_decoded(s@) == Some(b@),
{
    base58::FromBase58::from_base58(s).ok()
}

/// Index of the first account with the given flags.
pub fn find_account(accounts: &Vec<AccountKey>, signer: bool, writable: bool) -> (r: Option<usize>)
    ensures
        r matches Some(i) ==> i < accounts@.len() && first_with_role(accounts@, signer, writable)
            == Some(i as int),
        r is None ==> first_with_role(accounts@, signer, writable) is None,
{
    let mut i: usize = 0;
    assert(accounts@.skip(0) =~= accounts@);
    while i < accounts.len()
        invariant
            i <= accounts@.len(),
            first_with_role(accounts@, signer, writable) == match first_with_role(
                accounts@.skip(i as int),
                signer,
                writable,
            ) {
                None => None,
                Some(j) => Some(j + i),
            },
        decreases accounts@.len() - i,
    {
        let ghost rest = accounts@.skip(i as int);
        assert(rest.drop_first() =~= accounts@.skip(i + 1));
        if accounts[i].signer == signer && accounts[i].writable == writable {
            return Some(i);
        }
        i = i + 1;
    }
    None
}

/// Plans the write for the decoded bytes of an instruction.
pub fn plan_bytes(data: &[u8], accounts: &Vec<AccountKey>) -> (r: Plan)
    ensures
        r@ == plan_of(data@, accounts@),
{
    let (kind, payload) = Instruction::new(data);
    match kind {
        Instruction::Unknow => Plan::Skip,
        Instruction::MintBadge => {
            let m = match MintBadge::deserialize(payload) {
                Err(e) => return Plan::Abort(HandleError::Decode(e)),
                Ok(m) => m,
            };
            match find_account(accounts, true, false) {
                None => Plan::Abort(HandleError::MissingAccount),
                Some(i) => Plan::InsertBadge(
                    BadgeRow {
                        id: m.badge_id,
                        class_id: m.class_id,
                        publisher: accounts[i].pubkey.clone(),
                    },
                ),
            }
        },
        Instruction::Register => {
            let m = match Register::deserialize(payload) {
                Err(e) => return Plan::Abort(HandleError::Decode(e)),
                Ok(m) => m,
            };
            match find_account(accounts, true, true) {
                None => Plan::Abort(HandleError::MissingAccount),
                Some(i) => Plan::InsertClass(
                    ClassRow {
                        id: m.class_id,
                        controller_id: m.profile_id,
                        register: accounts[i].pubkey.clone(),
                    },
                ),
            }
        },
    }
}

/// Plans the write for an instruction whose data is base58 text; text that is not
/// base58 is noise and skipped. A long text with a leading `'1'` is skipped without
/// decoding: its bytes would start with a zero, which begins no discriminator.
pub fn plan_instruction(data: &str, accounts: &Vec<AccountKey>) -> (r: Plan)
    ensures
        !base58_in_range(data.spec_bytes()) ==> r is Skip,
        base58_decoded(data@) is None ==> r is Skip,
        base58_in_range(data.spec_bytes()) ==> (base58_decoded(data@) matches Some(b) ==> r@
            == plan_of(b, accounts@)),
{
    let text = data.as_bytes();
    if text.len() > 131 && text[0] == 49 {
        return Plan::Skip;
    }
    match from_base58(data) {
        None => Plan::Skip,
        Some(bytes) => plan_bytes(bytes.as_slice(), accounts),
    }
}

/// The signal for a transaction's final status: a failed transaction is skipped.
pub fn signature_signal(failed: bool) -> (r: ControlSignal)
    ensures
        failed ==> r is Skip,
        !failed ==> r is Continue,
{
    if failed {
        ControlSignal::Skip
    } else {
        ControlSignal::Continue
    }
}

/// Plans an instruction of a transaction whose final status is known: every
/// instruction of a failed transaction is skipped before its data is looked at.
pub fn plan_in_transaction(failed: bool, data: &str, accounts: &Vec<AccountKey>) -> (r: Plan)
    ensures
        failed ==> r is Skip,
        !base58_in_range(data.spec_bytes()) ==> r is Skip,
        base58_decoded(data@) is None ==> r is Skip,
        !failed && base58_in_range(data.spec_bytes()) ==> (base58_decoded(data@) matches Some(b)
            ==> r@ == plan_of(b, accounts@)),
{
    if failed {
        return Plan::Skip;
    }
    plan_instruction(data, accounts)
}

} // verus!
