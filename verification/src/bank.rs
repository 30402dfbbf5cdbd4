//! The executable ledger. Every operation is specified by the function of
//! the same name on [`Ledger`], taken at the bank's view.
use vstd::prelude::*;
use std::collections::hash_map::DefaultHasher;
use std::collections::HashMap;
use std::hash::Hasher;
use vstd::std_specs::iter::IteratorSpec;
use crate::laws::{
    lemma_change_password_wf, lemma_create_user_wf, lemma_deposit_wf, lemma_interest_paid_wf,
    lemma_tax_taken_wf, lemma_transfer_wf, lemma_withdraw_wf,
};
use crate::ledger::{
    credential_of, history_of, interest_events, lemma_history_push, tax_events, Ledger,
    STRING_END,
};
use crate::primitives::{
    Balance, BankResult, BankingError, Event, HashResult, Rate, ReportEntry, ReportEntryView,
    Role, User, UserId, ED, INTEREST_RATE, RATE_SCALE, TAX_RATE,
};
use crate::rates::{accrue, after_tax, credit, levy, with_interest};

verus! {

broadcast use vstd::std_specs::hash::group_hash_axioms;

/// The ledger: the directory of users, the balance store, the event log and
/// the configuration, owned as one value.
pub struct Bank {
    users: HashMap<HashResult, User>,
    balances: HashMap<UserId, Balance>,
    events: Vec<Event>,
    interest_rate: Rate,
    tax_rate: Rate,
    existential_deposit: Balance,
    user_id_counter: UserId,
}

impl View for Bank {
    type V = Ledger;

    closed spec fn view(&self) -> Ledger {
        Ledger {
            users: self.users@.map_values(|user: User| user@),
            balances: self.balances@,
            events: self.events@,
            interest_rate: self.interest_rate,
            tax_rate: self.tax_rate,
            existential_deposit: self.existential_deposit,
            user_id_counter: self.user_id_counter,
        }
    }
}

impl Default for Bank {
    /// An empty ledger with the default rates and existential deposit.
    fn default() -> (bank: Self)
        ensures
            bank@ == Ledger::initial(),
            bank.wf(),
    {
        let bank = Bank {
            users: HashMap::new(),
            balances: HashMap::new(),
            events: Vec::new(),
            interest_rate: INTEREST_RATE,
            tax_rate: TAX_RATE,
            existential_deposit: ED,
            user_id_counter: 0,
        };
        bank
    }
}

impl Bank {
    /// The invariant of the bank: that of the ledger it stands for.
    pub open spec fn wf(&self) -> bool {
        self@.wf()
    }

    /// Resolves the credential `user` and checks that the user has the role
    /// `role`. Returns the user's identifier.
    fn assert_role(&self, user: HashResult, role: Role) -> (r: BankResult<UserId>)
        ensures
            r == self@.assert_role(user, role),
    {
        match self.users.get(&user) {
            Some(u) => {
                if u.role == role {
                    Ok(u.id)
                } else {
                    Err(BankingError::Unauthorized)
                }
            },
            None => Err(BankingError::NoUserFound),
        }
    }

    /// Appends `event` to the log.
    fn deposit_event(&mut self, event: Event)
        ensures
            final(self)@ == old(self)@.logged(event),
    {
        self.events.push(event);
    }

    /// Computes the credential of a user name and a password.
    pub fn hash(username: &String, password: &String) -> (credential: HashResult)
        ensures
            credential == credential_of(username@, password@),
    {
        let end: [u8; 1] = [STRING_END];
        let mut hasher = DefaultHasher::new();
        hasher.write(username.as_str().as_bytes());
        hasher.write(end.as_slice());
        hasher.write(password.as_str().as_bytes());
        hasher.write(end.as_slice());
        proof {
            assert(end@ =~= seq![STRING_END]);
            assert(hasher@ =~= seq![
                vstd::utf8::encode_utf8(username@),
                seq![STRING_END],
                vstd::utf8::encode_utf8(password@),
                seq![STRING_END],
            ]);
        }
        hasher.finish()
    }

    /// Hands out the next user identifier.
    fn generate_next_user_id(&mut self) -> (id: UserId)
        requires
            old(self).user_id_counter < UserId::MAX,
        ensures
            id == old(self).user_id_counter + 1,
            final(self)@ == (Ledger { user_id_counter: id, ..old(self)@ }),
    {
        self.user_id_counter += 1u64;
        self.user_id_counter
    }

    /// Tells whether some registered user carries the name `username`.
    pub fn has_username(&self, username: &String) -> (found: bool)
        ensures
            found == self@.has_username(username@),
    {
        let ghost walk = self.users.iter().remaining();
        for entry in it: self.users.iter()
            invariant
                it.seq() == walk,
                walk == self.users.iter().remaining(),
                forall|j: int| 0 <= j < it.index() ==> (*walk[j].1).username@ != username@,
        {
            let (_, user) = entry;
            if user.username == *username {
                proof {
                    let credential = *walk[it.index()].0;
                    assert(self@.users.contains_key(credential));
                }
                return true;
            }
        }
        false
    }

    /// Registers a user under the credential of `username` and `password`
    /// and gives it the next identifier. Refused with `UserAlreadyExist`
    /// just where the name is taken, whatever the password and the role; a
    /// refusal uses up no identifier. A user that was registered starts
    /// without an account.
    ///
    /// The one demand on the caller is a limit of the machine: where the
    /// name is free, an identifier must be left to hand out.
    pub fn create_user(&mut self, username: String, password: String, role: Role) -> (r:
        BankResult<()>)
        requires
            old(self).wf(),
            !old(self)@.has_username(username@) ==> old(self)@.user_id_counter < UserId::MAX,
        ensures
            final(self).wf(),
            match old(self)@.create_user(username@, password@, role) {
                Ok(next) => r is Ok && final(self)@ == next,
                Err(e) => r == Err::<(), BankingError>(e) && final(self)@ == old(self)@,
            },
            r is Err <==> old(self)@.has_username(username@),
            r is Err ==> r == Err::<(), BankingError>(BankingError::UserAlreadyExist),
            final(self)@.user_id_counter >= old(self)@.user_id_counter,
            r is Ok ==> final(self)@.user_id_counter == old(self)@.user_id_counter + 1
                && !final(self)@.balances.contains_key(final(self)@.user_id_counter),
    {
        if self.has_username(&username) {
            return Err(BankingError::UserAlreadyExist);
        }
        let hash_result = Self::hash(&username, &password);
        let new_user = User { id: self.generate_next_user_id(), username, role };
        self.users.insert(hash_result, new_user);
        proof {
            let next = old(self)@.create_user(username@, password@, role)->Ok_0;
            assert(self@.users =~= next.users);
            lemma_create_user_wf(old(self)@, username@, password@, role);
        }
        Ok(())
    }

    /// Finds the user registered under the credential of `username` and
    /// `password`, and returns the credential with the user's role. Fails
    /// with `FailedLogin` where the directory has no such entry, be it for
    /// the name or for the password.
    pub fn login(&self, username: String, password: String) -> (r: BankResult<(HashResult, Role)>)
        ensures
            r == self@.login(username@, password@),
    {
        let hash_result = Self::hash(&username, &password);
        match self.users.get(&hash_result) {
            Some(u) => Ok((hash_result, u.role)),
            None => Err(BankingError::FailedLogin),
        }
    }

    /// Moves the user behind the credential `user` to the credential of its
    /// name and `new_password`. The old credential is void from then on.
    /// Fails with `NoUserFound` where the credential is unknown.
    pub fn change_password(&mut self, user: HashResult, new_password: String) -> (r: BankResult<
        (),
    >)
        requires
            old(self).wf(),
        ensures
            final(self).wf(),
            match old(self)@.change_password(user, new_password@) {
                Ok(next) => r is Ok && final(self)@ == next,
                Err(e) => r == Err::<(), BankingError>(e) && final(self)@ == old(self)@,
            },
    {
        let user_data = match self.users.remove(&user) {
            Some(u) => u,
            None => {
                assert(self@ =~= old(self)@);
                return Err(BankingError::NoUserFound);
            },
        };
        let new_hash = Self::hash(&user_data.username, &new_password);
        self.users.insert(new_hash, user_data);
        proof {
            let next = old(self)@.change_password(user, new_password@)->Ok_0;
            assert(self@.users =~= next.users);
            lemma_change_password_wf(old(self)@, user, new_password@);
        }
        Ok(())
    }

    /// Tells whether `id` is the identifier of a registered customer.
    fn is_customer_id(&self, id: UserId) -> (found: bool)
        ensures
            found == self@.is_customer_id(id),
    {
        let ghost walk = self.users.iter().remaining();
        for entry in it: self.users.iter()
            invariant
                it.seq() == walk,
                walk == self.users.iter().remaining(),
                forall|j: int|
                    0 <= j < it.index() ==> !((*walk[j].1).id == id && (*walk[j].1).role
                        == Role::Customer),
        {
            let (_, user) = entry;
            if user.id == id && user.role == Role::Customer {
                proof {
                    let credential = *walk[it.index()].0;
                    assert(self@.users.contains_key(credential));
                }
                return true;
            }
        }
        false
    }

    /// What the user `id` holds: the stored balance, or nothing.
    fn balance_of(&self, id: UserId) -> (balance: Balance)
        ensures
            balance == self@.balance_of(id),
    {
        match self.balances.get(&id) {
            Some(balance) => *balance,
            None => 0,
        }
    }

    /// Takes `amount` from the account of `id`, which covers it. Where less
    /// than the existential deposit is left, the account is reaped and the
    /// rest is logged as dust.
    fn debit(&mut self, id: UserId, amount: Balance)
        requires
            old(self)@.balances.contains_key(id),
            0 < amount <= old(self)@.balances[id],
        ensures
            final(self)@ == old(self)@.debited(id, amount),
    {
        let new_balance = self.balance_of(id) - amount;
        if new_balance >= self.existential_deposit {
            self.balances.insert(id, new_balance);
        } else {
            self.balances.remove(&id);
            self.deposit_event(Event::AccountReaped { id, dust: new_balance });
        }
    }

    /// Moves `amount` from the caller's account to that of the customer
    /// `target`; the caller is a customer too. A transfer to oneself
    /// succeeds and does nothing, whatever the amount. Else the amount must
    /// be positive (`InvalidAmount`) and no less than the existential
    /// deposit (`AmountTooSmall`), the target a registered customer
    /// (`InvalidUserId`), and the caller's balance must cover the amount
    /// (`InsufficientBalance`). An account that is left under the
    /// existential deposit is reaped. The recipient's balance stops at the
    /// largest representable amount.
    pub fn transfer(&mut self, user: HashResult, amount: Balance, target: UserId) -> (r:
        BankResult<()>)
        requires
            old(self).wf(),
        ensures
            final(self).wf(),
            match old(self)@.transfer(user, amount, target) {
                Ok(next) => r is Ok && final(self)@ == next,
                Err(e) => r == Err::<(), BankingError>(e) && final(self)@ == old(self)@,
            },
    {
        let id = self.assert_role(user, Role::Customer)?;
        if id == target {
            return Ok(());
        }
        if amount <= 0 {
            return Err(BankingError::InvalidAmount);
        }
        if amount < self.existential_deposit {
            return Err(BankingError::AmountTooSmall);
        }
        if !self.is_customer_id(target) {
            return Err(BankingError::InvalidUserId);
        }
        let to_user_balance = self.balance_of(target);
        match self.balances.get(&id) {
            Some(balance) => {
                if *balance < amount {
                    return Err(BankingError::InsufficientBalance);
                }
            },
            None => {
                return Err(BankingError::InsufficientBalance);
            },
        }
        self.debit(id, amount);
        self.balances.insert(target, credit(to_user_balance, amount));
        self.deposit_event(Event::Transfer { id, to_id: target, amount });
        proof {
            lemma_transfer_wf(old(self)@, user, amount, target);
        }
        Ok(())
    }

    /// Takes `amount` from the caller's account; the caller is a customer,
    /// which is checked first. The amount must be positive (`InvalidAmount`)
    /// and covered by the balance (`InsufficientBalance`). The withdrawal is logged; an account
    /// that is left under the existential deposit is then reaped.
    pub fn withdraw(&mut self, user: HashResult, amount: Balance) -> (r: BankResult<()>)
        requires
            old(self).wf(),
        ensures
            final(self).wf(),
            match old(self)@.withdraw(user, amount) {
                Ok(next) => r is Ok && final(self)@ == next,
                Err(e) => r == Err::<(), BankingError>(e) && final(self)@ == old(self)@,
            },
    {
        let id = self.assert_role(user, Role::Customer)?;
        if amount <= 0 {
            return Err(BankingError::InvalidAmount);
        }
        match self.balances.get(&id) {
            Some(balance) => {
                if *balance < amount {
                    return Err(BankingError::InsufficientBalance);
                }
            },
            None => {
                return Err(BankingError::InsufficientBalance);
            },
        }
        self.deposit_event(Event::Withdrawal { id, amount });
        self.debit(id, amount);
        proof {
            lemma_withdraw_wf(old(self)@, user, amount);
        }
        Ok(())
    }

    /// Adds `amount` to the caller's account; the caller is a customer, which
    /// is checked first. The amount must be positive (`InvalidAmount`), and
    /// where the caller has
    /// no account yet, no less than the existential deposit
    /// (`AmountTooSmall`). The balance stops at the largest representable
    /// amount.
    pub fn deposit(&mut self, user: HashResult, amount: Balance) -> (r: BankResult<()>)
        requires
            old(self).wf(),
        ensures
            final(self).wf(),
            match old(self)@.deposit(user, amount) {
                Ok(next) => r is Ok && final(self)@ == next,
                Err(e) => r == Err::<(), BankingError>(e) && final(self)@ == old(self)@,
            },
    {
        let id = self.assert_role(user, Role::Customer)?;
        if amount <= 0 {
            return Err(BankingError::InvalidAmount);
        }
        let new_balance = match self.balances.get(&id) {
            Some(balance) => credit(*balance, amount),
            None => {
                if amount < self.existential_deposit {
                    return Err(BankingError::AmountTooSmall);
                }
                amount
            },
        };
        self.balances.insert(id, new_balance);
        self.deposit_event(Event::Deposit { id, amount });
        proof {
            lemma_deposit_wf(old(self)@, user, amount);
        }
        Ok(())
    }

    /// Returns what the caller holds; the caller is a customer. A customer
    /// without an account holds nothing.
    pub fn check_balance(&self, user: HashResult) -> (r: BankResult<Balance>)
        ensures
            r == self@.check_balance(user),
    {
        let id = self.assert_role(user, Role::Customer)?;
        Ok(self.balance_of(id))
    }

    /// Sets the interest rate; the caller is a manager, which is checked
    /// first. A negative rate is refused with `InvalidInterestRate`.
    pub fn set_interest_rate(&mut self, user: HashResult, rate: Rate) -> (r: BankResult<()>)
        requires
            old(self).wf(),
        ensures
            final(self).wf(),
            match old(self)@.set_interest_rate(user, rate) {
                Ok(next) => r is Ok && final(self)@ == next,
                Err(e) => r == Err::<(), BankingError>(e) && final(self)@ == old(self)@,
            },
    {
        let id = self.assert_role(user, Role::Manager)?;
        if rate < 0 {
            return Err(BankingError::InvalidInterestRate);
        }
        self.interest_rate = rate;
        self.deposit_event(Event::InterestRate { id, interest_rate: rate });
        Ok(())
    }

    /// Sets the tax rate; the caller is an auditor, which is checked first. A
    /// rate under nothing or over the whole is refused with
    /// `InvalidTaxRate`.
    pub fn set_tax_rate(&mut self, user: HashResult, rate: Rate) -> (r: BankResult<()>)
        requires
            old(self).wf(),
        ensures
            final(self).wf(),
            match old(self)@.set_tax_rate(user, rate) {
                Ok(next) => r is Ok && final(self)@ == next,
                Err(e) => r == Err::<(), BankingError>(e) && final(self)@ == old(self)@,
            },
    {
        let id = self.assert_role(user, Role::Auditor)?;
        if rate < 0 || rate > RATE_SCALE {
            return Err(BankingError::InvalidTaxRate);
        }
        self.tax_rate = rate;
        self.deposit_event(Event::TaxRate { id, tax_rate: rate });
        Ok(())
    }

    /// Lists the accounts of the balance store, each once, in the order in
    /// which the store hands them out.
    fn account_ids(&self) -> (ids: Vec<UserId>)
        ensures
            self@.walks_balances(ids@),
    {
        let mut ids: Vec<UserId> = Vec::new();
        let ghost walk = self.balances.keys().remaining();
        for id in it: self.balances.keys()
            invariant
                it.seq() == walk,
                ids@.len() == it.index(),
                forall|j: int| 0 <= j < ids@.len() ==> ids@[j] == *walk[j],
        {
            ids.push(*id);
        }
        assert(ids@ =~= walk.unref());
        ids
    }

    /// Pays interest to the accounts `order`, one after the other.
    fn pay_interest_to(&mut self, order: &Vec<UserId>)
        requires
            old(self).wf(),
            old(self)@.walks_balances(order@),
        ensures
            final(self)@ == old(self)@.interest_paid(order@),
    {
        let rate = self.interest_rate;
        let ghost before = self@;
        let mut i: usize = 0;
        while i < order.len()
            invariant
                i <= order.len(),
                before.wf(),
                before.walks_balances(order@),
                rate == before.interest_rate,
                self@.users == before.users,
                self@.interest_rate == before.interest_rate,
                self@.tax_rate == before.tax_rate,
                self@.existential_deposit == before.existential_deposit,
                self@.user_id_counter == before.user_id_counter,
                self@.balances.dom() == before.balances.dom(),
                forall|j: int|
                    0 <= j < i ==> self@.balances[#[trigger] order@[j]] == with_interest(
                        before.balances[order@[j]],
                        rate,
                    ),
                forall|j: int|
                    i <= j < order.len() ==> self@.balances[#[trigger] order@[j]]
                        == before.balances[order@[j]],
                self@.events == before.events + interest_events(
                    order@.take(i as int),
                    before.balances,
                    rate,
                ),
            decreases order.len() - i,
        {
            let id = order[i];
            let balance = self.balance_of(id);
            let new_balance = accrue(balance, rate);
            let interest = new_balance - balance;
            self.balances.insert(id, new_balance);
            self.deposit_event(Event::Interest { id, interest });
            i += 1;
        }
    }

    /// Pays interest to every account; the caller is a manager. Each balance
    /// grows by the interest rate, rounded down, and stops at the largest
    /// representable amount; each account gets one event with what it
    /// gained. The accounts are taken in the order in which the balance
    /// store hands them out.
    pub fn pay_interest(&mut self, user: HashResult) -> (r: BankResult<()>)
        requires
            old(self).wf(),
        ensures
            final(self).wf(),
            match old(self)@.assert_role(user, Role::Manager) {
                Ok(_) => r is Ok && exists|order: Seq<UserId>|
                    old(self)@.walks_balances(order) && final(self)@ == #[trigger] old(
                        self,
                    )@.interest_paid(order),
                Err(e) => r == Err::<(), BankingError>(e) && final(self)@ == old(self)@,
            },
    {
        self.assert_role(user, Role::Manager)?;
        let order = self.account_ids();
        self.pay_interest_to(&order);
        proof {
            lemma_interest_paid_wf(old(self)@, order@);
        }
        Ok(())
    }

    /// Takes tax from the accounts `order`, one after the other.
    fn take_tax_from(&mut self, order: &Vec<UserId>)
        requires
            old(self).wf(),
            old(self)@.walks_balances(order@),
        ensures
            final(self)@ == old(self)@.tax_taken(order@),
    {
        let rate = self.tax_rate;
        let ed = self.existential_deposit;
        let ghost before = self@;
        let mut i: usize = 0;
        while i < order.len()
            invariant
                i <= order.len(),
                before.wf(),
                before.walks_balances(order@),
                rate == before.tax_rate,
                ed == before.existential_deposit,
                self@.users == before.users,
                self@.interest_rate == before.interest_rate,
                self@.tax_rate == before.tax_rate,
                self@.existential_deposit == before.existential_deposit,
                self@.user_id_counter == before.user_id_counter,
                forall|id: UserId| #[trigger]
                    self@.balances.contains_key(id) ==> before.balances.contains_key(id),
                forall|j: int|
                    0 <= j < i ==> (self@.balances.contains_key(#[trigger] order@[j]) <==> after_tax(
                        before.balances[order@[j]],
                        rate,
                    ) >= ed),
                forall|j: int|
                    0 <= j < i && self@.balances.contains_key(#[trigger] order@[j])
                        ==> self@.balances[order@[j]] == after_tax(
                        before.balances[order@[j]],
                        rate,
                    ),
                forall|j: int|
                    i <= j < order.len() ==> self@.balances.contains_key(#[trigger] order@[j])
                        && self@.balances[order@[j]] == before.balances[order@[j]],
                self@.events == before.events + tax_events(
                    order@.take(i as int),
                    before.balances,
                    rate,
                    ed,
                ),
            decreases order.len() - i,
        {
            let id = order[i];
            let balance = self.balance_of(id);
            let tax = levy(balance, rate);
            let new_balance = balance - tax;
            self.deposit_event(Event::Tax { id, tax });
            if new_balance < ed {
                self.balances.remove(&id);
                self.deposit_event(Event::AccountReaped { id, dust: new_balance });
            } else {
                self.balances.insert(id, new_balance);
            }
            assert(order@.take(i + 1).drop_last() =~= order@.take(i as int));
            i += 1;
        }
        assert(order@.take(order.len() as int) =~= order@);
    }

    /// Takes tax from every account; the caller is an auditor. Each balance
    /// loses the tax rate's share of it, rounded down, and each account gets
    /// one event with the tax. An account that is left under the existential
    /// deposit is reaped, with an event of its own after its tax event. The
    /// accounts are taken in the order in which the balance store hands them
    /// out.
    pub fn take_tax(&mut self, user: HashResult) -> (r: BankResult<()>)
        requires
            old(self).wf(),
        ensures
            final(self).wf(),
            match old(self)@.assert_role(user, Role::Auditor) {
                Ok(_) => r is Ok && exists|order: Seq<UserId>|
                    old(self)@.walks_balances(order) && final(self)@ == #[trigger] old(
                        self,
                    )@.tax_taken(order),
                Err(e) => r == Err::<(), BankingError>(e) && final(self)@ == old(self)@,
            },
    {
        self.assert_role(user, Role::Auditor)?;
        let order = self.account_ids();
        self.take_tax_from(&order);
        proof {
            lemma_tax_taken_wf(old(self)@, order@);
        }
        Ok(())
    }

    /// Lists all users, each once, with the balance of each customer; the
    /// caller is a manager or an auditor. The users come in the order in
    /// which the directory hands them out.
    pub fn report(&self, user: HashResult) -> (r: BankResult<Vec<ReportEntry>>)
        ensures
            match self@.may_report(user) {
                Ok(_) => r is Ok && exists|order: Seq<HashResult>|
                    self@.walks_users(order) && Ok::<Seq<ReportEntryView>, BankingError>(
                        r->Ok_0@.map_values(|line: ReportEntry| line@),
                    ) == #[trigger] self@.report(user, order),
                Err(e) => r == Err::<Vec<ReportEntry>, BankingError>(e),
            },
    {
        match self.users.get(&user) {
            Some(u) => {
                if u.role == Role::Customer {
                    return Err(BankingError::Unauthorized);
                }
            },
            None => {
                return Err(BankingError::NoUserFound);
            },
        }
        let mut lines: Vec<ReportEntry> = Vec::new();
        let ghost walk = self.users.iter().remaining();
        let ghost order = Seq::new(walk.len(), |i: int| *walk[i].0);
        for entry in it: self.users.iter()
            invariant
                it.seq() == walk,
                walk == self.users.iter().remaining(),
                order == Seq::new(walk.len(), |i: int| *walk[i].0),
                lines@.len() == it.index(),
                forall|j: int| 0 <= j < lines@.len() ==> lines@[j]@ == self@.report_line(order[j]),
        {
            let (_, user) = entry;
            let balance = if user.role == Role::Customer {
                Some(self.balance_of(user.id))
            } else {
                None
            };
            lines.push(
                ReportEntry {
                    user: User { id: user.id, username: user.username.clone(), role: user.role },
                    balance,
                },
            );
        }
        proof {
            assert forall|c: HashResult| self@.users.contains_key(c) implies order.contains(
                c,
            ) by {
                assert(walk.contains((&c, &self.users@[c])));
                let i = choose|i: int| 0 <= i < walk.len() && walk[i] == (&c, &self.users@[c]);
                assert(order[i] == c);
            }
            assert(order.to_set() =~= self@.users.dom());
            assert(lines@.map_values(|line: ReportEntry| line@) =~= self@.report(
                user,
                order,
            )->Ok_0);
        }
        Ok(lines)
    }

    /// Collects the events that concern the user `target_id`, in the order
    /// of the log.
    fn iter_event(&self, target_id: UserId) -> (found: Vec<Event>)
        ensures
            found@ == self@.events_of(target_id),
    {
        let mut found: Vec<Event> = Vec::new();
        let mut i: usize = 0;
        proof {
            reveal(Seq::filter);
        }
        while i < self.events.len()
            invariant
                i <= self.events.len(),
                found@ == history_of(self.events@.take(i as int), target_id),
            decreases self.events.len() - i,
        {
            let event = self.events[i];
            proof {
                lemma_history_push(self.events@.take(i as int), event, target_id);
                assert(self.events@.take(i as int).push(event) =~= self.events@.take(i + 1));
            }
            if event.involves(target_id) {
                found.push(event);
            }
            i += 1;
        }
        assert(self.events@.take(self.events.len() as int) =~= self.events@);
        found
    }

    /// Returns the events that concern the caller, in the order of the log;
    /// the caller is a customer.
    pub fn print_event(&self, user: HashResult) -> (r: BankResult<Vec<Event>>)
        ensures
            match self@.print_event(user) {
                Ok(events) => r is Ok && r->Ok_0@ == events,
                Err(e) => r == Err::<Vec<Event>, BankingError>(e),
            },
    {
        let id = self.assert_role(user, Role::Customer)?;
        Ok(self.iter_event(id))
    }

    /// Returns the events that concern the customer `user_id`, in the order
    /// of the log. The caller is a manager or an auditor and names its own
    /// role, which is checked first; `user_id` must be a registered customer
    /// (`InvalidUserId`).
    pub fn print_a_user_event(&self, user: HashResult, role: Role, user_id: UserId) -> (r:
        BankResult<Vec<Event>>)
        ensures
            match self@.print_a_user_event(user, role, user_id) {
                Ok(events) => r is Ok && r->Ok_0@ == events,
                Err(e) => r == Err::<Vec<Event>, BankingError>(e),
            },
    {
        self.assert_role(user, role)?;
        if role == Role::Customer {
            return Err(BankingError::Unauthorized);
        }
        if !self.is_customer_id(user_id) {
            return Err(BankingError::InvalidUserId);
        }
        Ok(self.iter_event(user_id))
    }

    /// Returns the whole log, oldest event first. The caller is a manager or
    /// an auditor and names its own role.
    pub fn print_all_events(&self, user: HashResult, role: Role) -> (r: BankResult<Vec<Event>>)
        ensures
            match self@.print_all_events(user, role) {
                Ok(events) => r is Ok && r->Ok_0@ == events,
                Err(e) => r == Err::<Vec<Event>, BankingError>(e),
            },
    {
        self.assert_role(user, role)?;
        if role == Role::Customer {
            return Err(BankingError::Unauthorized);
        }
        let mut all: Vec<Event> = Vec::new();
        let mut i: usize = 0;
        while i < self.events.len()
            invariant
                i <= self.events.len(),
                all@ == self.events@.take(i as int),
            decreases self.events.len() - i,
        {
            all.push(self.events[i]);
            i += 1;
        }
        Ok(all)
    }

    /// The event log, oldest event first.
    pub fn events(&self) -> (events: &Vec<Event>)
        ensures
            events@ == self@.events,
    {
        &self.events
    }

    /// The user registered under the credential `user`, if there is one.
    pub fn find_user(&self, user: HashResult) -> (found: Option<&User>)
        ensures
            match found {
                Some(record) => self@.users.contains_key(user) && self@.users[user] == record@,
                None => !self@.users.contains_key(user),
            },
    {
        self.users.get(&user)
    }

    /// The interest rate in force.
    pub fn interest_rate(&self) -> (rate: Rate)
        ensures
            rate == self@.interest_rate,
    {
        self.interest_rate
    }

    /// The tax rate in force.
    pub fn tax_rate(&self) -> (rate: Rate)
        ensures
            rate == self@.tax_rate,
    {
        self.tax_rate
    }

    /// The least balance that an account may hold.
    pub fn existential_deposit(&self) -> (ed: Balance)
        ensures
            ed == self@.existential_deposit,
    {
        self.existential_deposit
    }

    /// The identifier that was handed out last; 0 before the first
    /// registration.
    pub fn user_id_counter(&self) -> (id: UserId)
        ensures
            id == self@.user_id_counter,
    {
        self.user_id_counter
    }
}

} // verus!
