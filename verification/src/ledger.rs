//! The ledger as a mathematical object: its state, and each operation as a
//! function from a state and the operation's arguments to the next state or
//! to the error that refuses it.
//!
//! The executable bank is specified against these functions, and the laws of
//! the ledger are proved about them.
use vstd::prelude::*;
use std::collections::hash_map::DefaultHasher;
use vstd::std_specs::hash::DefaultHasherAdditionalSpecFns;
use crate::primitives::{
    Balance, BankingError, Event, HashResult, Rate, ReportEntryView, Role, UserId, UserView, ED,
    INTEREST_RATE, RATE_SCALE, TAX_RATE,
};
use crate::rates::{after_tax, credited, interest_on, tax_on, with_interest};

verus! {

/// The byte that closes each string fed to the hasher. No UTF-8 text holds
/// it, so the two strings of a credential cannot run into each other.
pub const STRING_END: u8 = 0xff;

/// The credential of a user name and a password: the digest that the
/// standard hasher gives after the name, [`STRING_END`], the password and
/// [`STRING_END`] were written to it, as UTF-8.
pub open spec fn credential_of(username: Seq<char>, password: Seq<char>) -> HashResult {
    DefaultHasher::spec_finish(
        seq![
            vstd::utf8::encode_utf8(username),
            seq![STRING_END],
            vstd::utf8::encode_utf8(password),
            seq![STRING_END],
        ],
    )
}

/// The events that paying interest to the accounts `order` appends: for each
/// account, in that order, one event with what the account gained.
pub open spec fn interest_events(order: Seq<UserId>, balances: Map<UserId, Balance>, rate: Rate)
    -> Seq<Event> {
    Seq::new(
        order.len(),
        |i: int| Event::Interest { id: order[i], interest: interest_on(balances[order[i]], rate) },
    )
}

/// The events that taxing one account appends: the tax, and the reaping of
/// the account where the tax leaves it under the existential deposit.
pub open spec fn tax_events_of(id: UserId, balance: Balance, rate: Rate, ed: Balance) -> Seq<
    Event,
> {
    let taxed = seq![Event::Tax { id, tax: tax_on(balance, rate) }];
    if after_tax(balance, rate) < ed {
        taxed.push(Event::AccountReaped { id, dust: after_tax(balance, rate) })
    } else {
        taxed
    }
}

/// The events that taxing the accounts `order` appends, one account after
/// the other.
pub open spec fn tax_events(
    order: Seq<UserId>,
    balances: Map<UserId, Balance>,
    rate: Rate,
    ed: Balance,
) -> Seq<Event>
    decreases order.len(),
{
    if order.len() == 0 {
        Seq::empty()
    } else {
        tax_events(order.drop_last(), balances, rate, ed) + tax_events_of(
            order.last(),
            balances[order.last()],
            rate,
            ed,
        )
    }
}

/// The part of `events` that concerns the user `id`, in the same order.
pub open spec fn history_of(events: Seq<Event>, id: UserId) -> Seq<Event> {
    events.filter(|event: Event| event.concerns(id))
}

/// The history of a log with one more event is the history of the log, with
/// that event at its end where it concerns the user.
pub proof fn lemma_history_push(events: Seq<Event>, event: Event, id: UserId)
    ensures
        history_of(events.push(event), id) == if event.concerns(id) {
            history_of(events, id).push(event)
        } else {
            history_of(events, id)
        },
{
    reveal(Seq::filter);
    assert(events.push(event).drop_last() =~= events);
}

/// A call that may change the ledger, with its arguments. The two operations
/// that go through all accounts also name the order in which they take them.
pub enum Operation {
    CreateUser { username: Seq<char>, password: Seq<char>, role: Role },
    ChangePassword { user: HashResult, new_password: Seq<char> },
    Deposit { user: HashResult, amount: Balance },
    Withdraw { user: HashResult, amount: Balance },
    Transfer { user: HashResult, amount: Balance, target: UserId },
    SetInterestRate { user: HashResult, rate: Rate },
    SetTaxRate { user: HashResult, rate: Rate },
    PayInterest { user: HashResult, order: Seq<UserId> },
    TakeTax { user: HashResult, order: Seq<UserId> },
}

/// The state of the ledger.
#[verifier::ext_equal]
pub struct Ledger {
    /// The directory: each credential in use, and the user it stands for.
    pub users: Map<HashResult, UserView>,
    /// The balance store. A user without an entry holds nothing.
    pub balances: Map<UserId, Balance>,
    /// The event log, oldest event first.
    pub events: Seq<Event>,
    pub interest_rate: Rate,
    pub tax_rate: Rate,
    pub existential_deposit: Balance,
    /// The identifier that was handed out last; 0 before the first
    /// registration.
    pub user_id_counter: UserId,
}

impl Ledger {
    /// The ledger before anything happened.
    pub open spec fn initial() -> Ledger {
        Ledger {
            users: Map::empty(),
            balances: Map::empty(),
            events: Seq::empty(),
            interest_rate: INTEREST_RATE,
            tax_rate: TAX_RATE,
            existential_deposit: ED,
            user_id_counter: 0,
        }
    }

    /// No two directory entries share a user name.
    pub open spec fn usernames_unique(self) -> bool {
        forall|c1: HashResult, c2: HashResult|
            #![trigger self.users[c1], self.users[c2]]
            self.users.contains_key(c1) && self.users.contains_key(c2) && c1 != c2
                ==> self.users[c1].username != self.users[c2].username
    }

    /// Every identifier in the directory was handed out, and to one entry
    /// only.
    pub open spec fn ids_unique(self) -> bool {
        &&& forall|c: HashResult| #[trigger]
            self.users.contains_key(c) ==> 1 <= self.users[c].id <= self.user_id_counter
        &&& forall|c1: HashResult, c2: HashResult|
            #![trigger self.users[c1], self.users[c2]]
            self.users.contains_key(c1) && self.users.contains_key(c2) && c1 != c2
                ==> self.users[c1].id != self.users[c2].id
    }

    /// Every balance that is stored is at least the existential deposit.
    pub open spec fn floor_holds(self) -> bool {
        forall|id: UserId| #[trigger]
            self.balances.contains_key(id) ==> self.balances[id] >= self.existential_deposit
    }

    /// Every account belongs to an identifier that was handed out. So a user
    /// that registers now finds no account under its identifier.
    pub open spec fn accounts_registered(self) -> bool {
        forall|id: UserId| #[trigger]
            self.balances.contains_key(id) ==> 1 <= id <= self.user_id_counter
    }

    /// The rates and the existential deposit are in their ranges.
    pub open spec fn config_valid(self) -> bool {
        &&& 0 <= self.existential_deposit
        &&& 0 <= self.interest_rate
        &&& 0 <= self.tax_rate <= RATE_SCALE
    }

    /// The invariant of the ledger. It holds of the initial state and every
    /// operation keeps it.
    pub open spec fn wf(self) -> bool {
        &&& self.usernames_unique()
        &&& self.ids_unique()
        &&& self.floor_holds()
        &&& self.accounts_registered()
        &&& self.config_valid()
    }

    /// What the user `id` holds: the stored balance, or nothing.
    pub open spec fn balance_of(self, id: UserId) -> Balance {
        if self.balances.contains_key(id) {
            self.balances[id]
        } else {
            0
        }
    }

    /// Whether some directory entry carries the name `username`.
    pub open spec fn has_username(self, username: Seq<char>) -> bool {
        exists|c: HashResult| #[trigger]
            self.users.contains_key(c) && self.users[c].username == username
    }

    /// Whether `id` is the identifier of a customer in the directory.
    pub open spec fn is_customer_id(self, id: UserId) -> bool {
        exists|c: HashResult| #[trigger]
            self.users.contains_key(c) && self.users[c].id == id && self.users[c].role
                == Role::Customer
    }

    /// The role check: the identifier behind the credential `user`,
    /// where that user has the role `role`.
    pub open spec fn assert_role(self, user: HashResult, role: Role) -> Result<
        UserId,
        BankingError,
    > {
        if !self.users.contains_key(user) {
            Err(BankingError::NoUserFound)
        } else if self.users[user].role != role {
            Err(BankingError::Unauthorized)
        } else {
            Ok(self.users[user].id)
        }
    }

    /// The role check of the operations that a manager and an auditor share:
    /// the credential `user` must be known, and the role that the caller
    /// names must be its own and not that of a customer.
    pub open spec fn assert_staff(self, user: HashResult, role: Role) -> Result<
        UserId,
        BankingError,
    > {
        match self.assert_role(user, role) {
            Err(e) => Err(e),
            Ok(id) => if role == Role::Customer {
                Err(BankingError::Unauthorized)
            } else {
                Ok(id)
            },
        }
    }

    /// The ledger with one more event at the end of its log.
    pub open spec fn logged(self, event: Event) -> Ledger {
        Ledger { events: self.events.push(event), ..self }
    }

    /// Registration: refused where the name is taken; else the user gets the
    /// next identifier and is stored under the credential of name and
    /// password.
    pub open spec fn create_user(
        self,
        username: Seq<char>,
        password: Seq<char>,
        role: Role,
    ) -> Result<Ledger, BankingError> {
        if self.has_username(username) {
            Err(BankingError::UserAlreadyExist)
        } else {
            let id = (self.user_id_counter + 1) as UserId;
            Ok(
                Ledger {
                    users: self.users.insert(
                        credential_of(username, password),
                        UserView { id, username, role },
                    ),
                    user_id_counter: id,
                    ..self
                },
            )
        }
    }

    /// Login: the credential of name and password, and the role of the user
    /// stored under it.
    pub open spec fn login(self, username: Seq<char>, password: Seq<char>) -> Result<
        (HashResult, Role),
        BankingError,
    > {
        let credential = credential_of(username, password);
        if self.users.contains_key(credential) {
            Ok((credential, self.users[credential].role))
        } else {
            Err(BankingError::FailedLogin)
        }
    }

    /// Change of password: the user moves from the old credential to the
    /// credential of its name and the new password.
    pub open spec fn change_password(self, user: HashResult, new_password: Seq<char>) -> Result<
        Ledger,
        BankingError,
    > {
        if !self.users.contains_key(user) {
            Err(BankingError::NoUserFound)
        } else {
            let record = self.users[user];
            Ok(
                Ledger {
                    users: self.users.remove(user).insert(
                        credential_of(record.username, new_password),
                        record,
                    ),
                    ..self
                },
            )
        }
    }

    /// The ledger after `amount` left the account of `id`. Where less than
    /// the existential deposit is left, the account is reaped: its entry
    /// goes, and an event records what was left as dust.
    pub open spec fn debited(self, id: UserId, amount: Balance) -> Ledger {
        let rest = (self.balance_of(id) - amount) as Balance;
        if rest >= self.existential_deposit {
            Ledger { balances: self.balances.insert(id, rest), ..self }
        } else {
            Ledger { balances: self.balances.remove(id), ..self }.logged(
                Event::AccountReaped { id, dust: rest },
            )
        }
    }

    /// Deposit by a customer. The caller is checked first, then the amount.
    pub open spec fn deposit(self, user: HashResult, amount: Balance) -> Result<
        Ledger,
        BankingError,
    > {
        match self.assert_role(user, Role::Customer) {
            Err(e) => Err(e),
            Ok(id) => if amount <= 0 {
                Err(BankingError::InvalidAmount)
            } else if !self.balances.contains_key(id) && amount < self.existential_deposit {
                Err(BankingError::AmountTooSmall)
            } else {
                Ok(
                    Ledger {
                        balances: self.balances.insert(id, credited(self.balance_of(id), amount)),
                        ..self
                    }.logged(Event::Deposit { id, amount }),
                )
            },
        }
    }

    /// Withdrawal by a customer. The caller is checked first, then the
    /// amount.
    pub open spec fn withdraw(self, user: HashResult, amount: Balance) -> Result<
        Ledger,
        BankingError,
    > {
        match self.assert_role(user, Role::Customer) {
            Err(e) => Err(e),
            Ok(id) => if amount <= 0 {
                Err(BankingError::InvalidAmount)
            } else if !self.balances.contains_key(id) || self.balances[id] < amount {
                Err(BankingError::InsufficientBalance)
            } else {
                Ok(self.logged(Event::Withdrawal { id, amount }).debited(id, amount))
            },
        }
    }

    /// Transfer from a customer to the customer `target`. A transfer to
    /// oneself succeeds and changes nothing, whatever the amount.
    pub open spec fn transfer(self, user: HashResult, amount: Balance, target: UserId) -> Result<
        Ledger,
        BankingError,
    > {
        match self.assert_role(user, Role::Customer) {
            Err(e) => Err(e),
            Ok(id) => if id == target {
                Ok(self)
            } else if amount <= 0 {
                Err(BankingError::InvalidAmount)
            } else if amount < self.existential_deposit {
                Err(BankingError::AmountTooSmall)
            } else if !self.is_customer_id(target) {
                Err(BankingError::InvalidUserId)
            } else if !self.balances.contains_key(id) || self.balances[id] < amount {
                Err(BankingError::InsufficientBalance)
            } else {
                let paid = self.debited(id, amount);
                Ok(
                    Ledger {
                        balances: paid.balances.insert(
                            target,
                            credited(self.balance_of(target), amount),
                        ),
                        ..paid
                    }.logged(Event::Transfer { id, to_id: target, amount }),
                )
            },
        }
    }

    /// Balance inquiry by a customer.
    pub open spec fn check_balance(self, user: HashResult) -> Result<Balance, BankingError> {
        match self.assert_role(user, Role::Customer) {
            Err(e) => Err(e),
            Ok(id) => Ok(self.balance_of(id)),
        }
    }

    /// A manager sets the interest rate. The caller is checked first, then
    /// the rate.
    pub open spec fn set_interest_rate(self, user: HashResult, rate: Rate) -> Result<
        Ledger,
        BankingError,
    > {
        match self.assert_role(user, Role::Manager) {
            Err(e) => Err(e),
            Ok(id) => if rate < 0 {
                Err(BankingError::InvalidInterestRate)
            } else {
                Ok(
                    Ledger { interest_rate: rate, ..self }.logged(
                        Event::InterestRate { id, interest_rate: rate },
                    ),
                )
            },
        }
    }

    /// An auditor sets the tax rate. The caller is checked first, then the
    /// rate.
    pub open spec fn set_tax_rate(self, user: HashResult, rate: Rate) -> Result<
        Ledger,
        BankingError,
    > {
        match self.assert_role(user, Role::Auditor) {
            Err(e) => Err(e),
            Ok(id) => if rate < 0 || rate > RATE_SCALE {
                Err(BankingError::InvalidTaxRate)
            } else {
                Ok(
                    Ledger { tax_rate: rate, ..self }.logged(
                        Event::TaxRate { id, tax_rate: rate },
                    ),
                )
            },
        }
    }

    /// Whether `order` names every account of the balance store once.
    pub open spec fn walks_balances(self, order: Seq<UserId>) -> bool {
        order.no_duplicates() && order.to_set() == self.balances.dom()
    }

    /// Whether `order` names every credential of the directory once.
    pub open spec fn walks_users(self, order: Seq<HashResult>) -> bool {
        order.no_duplicates() && order.to_set() == self.users.dom()
    }

    /// The ledger after interest was paid to every account, the accounts
    /// taken in the order `order`: each balance has grown by the interest
    /// rate, and each account has one event with what it gained.
    pub open spec fn interest_paid(self, order: Seq<UserId>) -> Ledger {
        Ledger {
            balances: self.balances.map_values(
                |balance: Balance| with_interest(balance, self.interest_rate),
            ),
            events: self.events + interest_events(order, self.balances, self.interest_rate),
            ..self
        }
    }

    /// A manager pays interest to all accounts, in the order `order`.
    pub open spec fn pay_interest(self, user: HashResult, order: Seq<UserId>) -> Result<
        Ledger,
        BankingError,
    > {
        match self.assert_role(user, Role::Manager) {
            Err(e) => Err(e),
            Ok(_) => Ok(self.interest_paid(order)),
        }
    }

    /// The ledger after tax was taken from every account, the accounts taken
    /// in the order `order`: each balance has shrunk by the tax, an account
    /// left under the existential deposit is gone, and each account has its
    /// tax event, followed by its reaping where it was reaped.
    pub open spec fn tax_taken(self, order: Seq<UserId>) -> Ledger {
        Ledger {
            balances: Map::new(
                |id: UserId|
                    self.balances.contains_key(id) && after_tax(self.balances[id], self.tax_rate)
                        >= self.existential_deposit,
                |id: UserId| after_tax(self.balances[id], self.tax_rate),
            ),
            events: self.events + tax_events(
                order,
                self.balances,
                self.tax_rate,
                self.existential_deposit,
            ),
            ..self
        }
    }

    /// An auditor takes tax from all accounts, in the order `order`.
    pub open spec fn take_tax(self, user: HashResult, order: Seq<UserId>) -> Result<
        Ledger,
        BankingError,
    > {
        match self.assert_role(user, Role::Auditor) {
            Err(e) => Err(e),
            Ok(_) => Ok(self.tax_taken(order)),
        }
    }

    /// The part of the log that concerns the user `id`, in the log's order.
    pub open spec fn events_of(self, id: UserId) -> Seq<Event> {
        history_of(self.events, id)
    }

    /// A customer asks for its own history.
    pub open spec fn print_event(self, user: HashResult) -> Result<Seq<Event>, BankingError> {
        match self.assert_role(user, Role::Customer) {
            Err(e) => Err(e),
            Ok(id) => Ok(self.events_of(id)),
        }
    }

    /// A manager or an auditor asks for the history of the customer
    /// `user_id`.
    pub open spec fn print_a_user_event(self, user: HashResult, role: Role, user_id: UserId)
        -> Result<Seq<Event>, BankingError> {
        match self.assert_staff(user, role) {
            Err(e) => Err(e),
            Ok(_) => if self.is_customer_id(user_id) {
                Ok(self.events_of(user_id))
            } else {
                Err(BankingError::InvalidUserId)
            },
        }
    }

    /// A manager or an auditor asks for the whole log.
    pub open spec fn print_all_events(self, user: HashResult, role: Role) -> Result<
        Seq<Event>,
        BankingError,
    > {
        match self.assert_staff(user, role) {
            Err(e) => Err(e),
            Ok(_) => Ok(self.events),
        }
    }

    /// Who may ask for the report: any user but a customer.
    pub open spec fn may_report(self, user: HashResult) -> Result<(), BankingError> {
        if !self.users.contains_key(user) {
            Err(BankingError::NoUserFound)
        } else if self.users[user].role == Role::Customer {
            Err(BankingError::Unauthorized)
        } else {
            Ok(())
        }
    }

    /// The line of the report for the user stored under `credential`: the
    /// user, and beside a customer what it holds.
    pub open spec fn report_line(self, credential: HashResult) -> ReportEntryView {
        let user = self.users[credential];
        ReportEntryView {
            user,
            balance: if user.role == Role::Customer {
                Some(self.balance_of(user.id))
            } else {
                None
            },
        }
    }

    /// A manager or an auditor asks for the report: one line for each user,
    /// the users taken in the order `order` of their credentials.
    pub open spec fn report(self, user: HashResult, order: Seq<HashResult>) -> Result<
        Seq<ReportEntryView>,
        BankingError,
    > {
        match self.may_report(user) {
            Err(e) => Err(e),
            Ok(_) => Ok(Seq::new(order.len(), |i: int| self.report_line(order[i]))),
        }
    }

    /// What the operation `op` makes of the ledger: the next state, or the
    /// error that refuses it.
    pub open spec fn apply(self, op: Operation) -> Result<Ledger, BankingError> {
        match op {
            Operation::CreateUser { username, password, role } => self.create_user(
                username,
                password,
                role,
            ),
            Operation::ChangePassword { user, new_password } => self.change_password(
                user,
                new_password,
            ),
            Operation::Deposit { user, amount } => self.deposit(user, amount),
            Operation::Withdraw { user, amount } => self.withdraw(user, amount),
            Operation::Transfer { user, amount, target } => self.transfer(user, amount, target),
            Operation::SetInterestRate { user, rate } => self.set_interest_rate(user, rate),
            Operation::SetTaxRate { user, rate } => self.set_tax_rate(user, rate),
            Operation::PayInterest { user, order } => self.pay_interest(user, order),
            Operation::TakeTax { user, order } => self.take_tax(user, order),
        }
    }

    /// The ledger after the operation `op`: the next state, or the same
    /// state where the operation is refused.
    pub open spec fn after(self, op: Operation) -> Ledger {
        match self.apply(op) {
            Ok(next) => next,
            Err(_) => self,
        }
    }

    /// The ledger after the operations `ops`, one after the other.
    pub open spec fn after_all(self, ops: Seq<Operation>) -> Ledger
        decreases ops.len(),
    {
        if ops.len() == 0 {
            self
        } else {
            self.after_all(ops.drop_last()).after(ops.last())
        }
    }
}

} // verus!
