//! Shared vocabulary of the ledger: identifiers, amounts, rates, roles,
//! user records, the error taxonomy and the events of the audit trail.
//!
//! Amounts are whole numbers of the ledger's smallest currency unit. They are
//! signed so that a caller can hand in a negative amount and have it
//! rejected; a stored balance is never negative. Rates are fixed-point
//! fractions counted in parts per [`RATE_SCALE`].
use vstd::prelude::*;

verus! {

/// Identifier of a registered user. Identifiers are handed out in increasing
/// order, starting at 1, and never reused.
pub type UserId = u64;

/// An amount of money, in the ledger's smallest unit.
pub type Balance = i64;

/// A rate, in parts per [`RATE_SCALE`].
pub type Rate = i64;

/// A session credential: the digest of a user name and a password.
pub type HashResult = u64;

/// What an operation of the bank returns.
pub type BankResult<T> = Result<T, BankingError>;

/// The number of parts that make a rate of one (100%).
pub const RATE_SCALE: Rate = 1_000_000;

/// The interest rate of a fresh ledger: 1%.
pub const INTEREST_RATE: Rate = 10_000;

/// The tax rate of a fresh ledger: 2%.
pub const TAX_RATE: Rate = 20_000;

/// The existential deposit of a fresh ledger: the least balance an account
/// may hold.
pub const ED: Balance = 5;

/// What a user may do. A role is given at registration and never changes.
#[derive(Debug, Copy, Clone, PartialEq, Eq, Structural)]
pub enum Role {
    Customer,
    Manager,
    Auditor,
}

/// A registered user.
#[derive(Debug, Clone, PartialEq, Eq)]
pub struct User {
    pub id: UserId,
    pub username: String,
    pub role: Role,
}

/// What a [`User`] record says, with the name as a sequence of characters.
pub struct UserView {
    pub id: UserId,
    pub username: Seq<char>,
    pub role: Role,
}

impl View for User {
    type V = UserView;

    open spec fn view(&self) -> UserView {
        UserView { id: self.id, username: self.username@, role: self.role }
    }
}

/// One line of the report: a user, and beside a customer what it holds.
#[derive(Debug, Clone, PartialEq, Eq)]
pub struct ReportEntry {
    pub user: User,
    pub balance: Option<Balance>,
}

/// What a [`ReportEntry`] says.
pub struct ReportEntryView {
    pub user: UserView,
    pub balance: Option<Balance>,
}

impl View for ReportEntry {
    type V = ReportEntryView;

    open spec fn view(&self) -> ReportEntryView {
        ReportEntryView { user: self.user@, balance: self.balance }
    }
}

/// Why an operation was refused. A refused operation changes nothing.
#[derive(Debug, Copy, Clone, PartialEq, Eq, Structural)]
pub enum BankingError {
    Unauthorized,
    InsufficientBalance,
    InvalidAmount,
    FailedLogin,
    NoUserFound,
    AmountTooSmall,
    InvalidUserId,
    InvalidTaxRate,
    InvalidInterestRate,
    UserAlreadyExist,
}

impl BankingError {
    /// The user-facing sentence for each kind of failure.
    pub open spec fn message_text(self) -> Seq<char> {
        match self {
            BankingError::Unauthorized => "Current user is not authorized to do this operation."@,
            BankingError::InsufficientBalance => "User does not have enough balance."@,
            BankingError::InvalidAmount => "The amount given is not valid."@,
            BankingError::FailedLogin => "Login failed! The username or password is not correct."@,
            BankingError::NoUserFound => "Error, User does not exist."@,
            BankingError::AmountTooSmall => "Error, the amount given is too small."@,
            BankingError::InvalidUserId => "Error, user ID is not exist."@,
            BankingError::InvalidTaxRate => "Error, tax rate must be between 0 and 1."@,
            BankingError::InvalidInterestRate => "Error, interest rate could not be nagitive."@,
            BankingError::UserAlreadyExist => "Error, this user is already exist."@,
        }
    }

    /// Returns the user-facing sentence for this failure.
    pub fn message(&self) -> (text: &'static str)
        ensures
            text@ == self.message_text(),
    {
        match self {
            BankingError::Unauthorized => "Current user is not authorized to do this operation.",
            BankingError::InsufficientBalance => "User does not have enough balance.",
            BankingError::InvalidAmount => "The amount given is not valid.",
            BankingError::FailedLogin => "Login failed! The username or password is not correct.",
            BankingError::NoUserFound => "Error, User does not exist.",
            BankingError::AmountTooSmall => "Error, the amount given is too small.",
            BankingError::InvalidUserId => "Error, user ID is not exist.",
            BankingError::InvalidTaxRate => "Error, tax rate must be between 0 and 1.",
            BankingError::InvalidInterestRate => "Error, interest rate could not be nagitive.",
            BankingError::UserAlreadyExist => "Error, this user is already exist.",
        }
    }
}

/// One entry of the audit trail. Every variant names the acting user; a
/// transfer also names the recipient.
#[derive(Debug, Copy, Clone, PartialEq, Eq, Structural)]
pub enum Event {
    Deposit { id: UserId, amount: Balance },
    Withdrawal { id: UserId, amount: Balance },
    AccountReaped { id: UserId, dust: Balance },
    Transfer { id: UserId, to_id: UserId, amount: Balance },
    Interest { id: UserId, interest: Balance },
    Tax { id: UserId, tax: Balance },
    InterestRate { id: UserId, interest_rate: Rate },
    TaxRate { id: UserId, tax_rate: Rate },
}

impl Event {
    /// The user whose action the event records.
    pub open spec fn actor(self) -> UserId {
        match self {
            Event::Deposit { id, .. } => id,
            Event::Withdrawal { id, .. } => id,
            Event::AccountReaped { id, .. } => id,
            Event::Transfer { id, .. } => id,
            Event::Interest { id, .. } => id,
            Event::Tax { id, .. } => id,
            Event::InterestRate { id, .. } => id,
            Event::TaxRate { id, .. } => id,
        }
    }

    /// Whether the event belongs to the history of `target`: the target
    /// acted, or received a transfer.
    pub open spec fn concerns(self, target: UserId) -> bool {
        self.actor() == target || (self matches Event::Transfer { to_id, .. } && to_id == target)
    }

    /// Decides whether the event belongs to the history of `target`.
    pub fn involves(&self, target: UserId) -> (r: bool)
        ensures
            r == self.concerns(target),
    {
        match self {
            Event::Deposit { id, .. } => *id == target,
            Event::Withdrawal { id, .. } => *id == target,
            Event::AccountReaped { id, .. } => *id == target,
            Event::Transfer { id, to_id, .. } => *id == target || *to_id == target,
            Event::Interest { id, .. } => *id == target,
            Event::Tax { id, .. } => *id == target,
            Event::InterestRate { id, .. } => *id == target,
            Event::TaxRate { id, .. } => *id == target,
        }
    }
}

} // verus!
