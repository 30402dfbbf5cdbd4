//! What holds of the ledger whatever is done to it: every operation keeps
//! the invariant, the log only grows, and a refused operation changes
//! nothing.
use vstd::prelude::*;
use crate::ledger::{
    credential_of, history_of, interest_events, lemma_history_push, tax_events, tax_events_of,
    Ledger, Operation,
};
use crate::primitives::{Balance, BankingError, Event, HashResult, Rate, Role, UserId};
use crate::rates::{after_tax, interest_on, lemma_share_bounds, tax_on};

verus! {

/// The ledger before anything happened is well formed.
pub proof fn lemma_initial_wf()
    ensures
        Ledger::initial().wf(),
{
}

/// Registration keeps the invariant, as long as an identifier is left to
/// hand out.
pub proof fn lemma_create_user_wf(
    ledger: Ledger,
    username: Seq<char>,
    password: Seq<char>,
    role: Role,
)
    requires
        ledger.wf(),
        ledger.user_id_counter < UserId::MAX,
        ledger.create_user(username, password, role) is Ok,
    ensures
        ledger.create_user(username, password, role)->Ok_0.wf(),
{
}

/// A change of password keeps the invariant.
pub proof fn lemma_change_password_wf(ledger: Ledger, user: HashResult, new_password: Seq<char>)
    requires
        ledger.wf(),
        ledger.change_password(user, new_password) is Ok,
    ensures
        ledger.change_password(user, new_password)->Ok_0.wf(),
{
}

/// Taking an amount that the account covers keeps the invariant: the
/// account keeps at least the existential deposit, or it is gone.
pub proof fn lemma_debited_wf(ledger: Ledger, id: UserId, amount: Balance)
    requires
        ledger.wf(),
        ledger.balances.contains_key(id),
        0 < amount <= ledger.balances[id],
    ensures
        ledger.debited(id, amount).wf(),
        ledger.debited(id, amount).users == ledger.users,
{
}

/// A deposit keeps the invariant.
pub proof fn lemma_deposit_wf(ledger: Ledger, user: HashResult, amount: Balance)
    requires
        ledger.wf(),
        ledger.deposit(user, amount) is Ok,
    ensures
        ledger.deposit(user, amount)->Ok_0.wf(),
{
}

/// A withdrawal keeps the invariant.
pub proof fn lemma_withdraw_wf(ledger: Ledger, user: HashResult, amount: Balance)
    requires
        ledger.wf(),
        ledger.withdraw(user, amount) is Ok,
    ensures
        ledger.withdraw(user, amount)->Ok_0.wf(),
{
    let id = ledger.assert_role(user, Role::Customer)->Ok_0;
    lemma_debited_wf(ledger.logged(Event::Withdrawal { id, amount }), id, amount);
}

/// A transfer keeps the invariant.
pub proof fn lemma_transfer_wf(ledger: Ledger, user: HashResult, amount: Balance, target: UserId)
    requires
        ledger.wf(),
        ledger.transfer(user, amount, target) is Ok,
    ensures
        ledger.transfer(user, amount, target)->Ok_0.wf(),
{
    let id = ledger.assert_role(user, Role::Customer)->Ok_0;
    if id != target {
        lemma_debited_wf(ledger, id, amount);
    }
}

/// Setting the interest rate keeps the invariant.
pub proof fn lemma_set_interest_rate_wf(ledger: Ledger, user: HashResult, rate: Rate)
    requires
        ledger.wf(),
        ledger.set_interest_rate(user, rate) is Ok,
    ensures
        ledger.set_interest_rate(user, rate)->Ok_0.wf(),
{
}

/// Setting the tax rate keeps the invariant.
pub proof fn lemma_set_tax_rate_wf(ledger: Ledger, user: HashResult, rate: Rate)
    requires
        ledger.wf(),
        ledger.set_tax_rate(user, rate) is Ok,
    ensures
        ledger.set_tax_rate(user, rate)->Ok_0.wf(),
{
}

/// Paying interest keeps the invariant: no balance shrinks.
pub proof fn lemma_interest_paid_wf(ledger: Ledger, order: Seq<UserId>)
    requires
        ledger.wf(),
    ensures
        ledger.interest_paid(order).wf(),
{
    let next = ledger.interest_paid(order);
    assert forall|id: UserId| #[trigger] next.balances.contains_key(id) implies next.balances[id]
        >= next.existential_deposit by {
        lemma_share_bounds(ledger.balances[id], ledger.interest_rate);
    }
}

/// Taking tax keeps the invariant: an account that the tax leaves under the
/// existential deposit is gone.
pub proof fn lemma_tax_taken_wf(ledger: Ledger, order: Seq<UserId>)
    requires
        ledger.wf(),
    ensures
        ledger.tax_taken(order).wf(),
{
}

/// Every operation keeps the invariant, as long as a registration finds an
/// identifier left to hand out.
pub proof fn lemma_operation_keeps_wf(ledger: Ledger, op: Operation)
    requires
        ledger.wf(),
        op is CreateUser ==> ledger.user_id_counter < UserId::MAX,
    ensures
        ledger.after(op).wf(),
{
    if ledger.apply(op) is Ok {
        match op {
            Operation::CreateUser { username, password, role } => {
                lemma_create_user_wf(ledger, username, password, role);
            },
            Operation::ChangePassword { user, new_password } => {
                lemma_change_password_wf(ledger, user, new_password);
            },
            Operation::Deposit { user, amount } => {
                lemma_deposit_wf(ledger, user, amount);
            },
            Operation::Withdraw { user, amount } => {
                lemma_withdraw_wf(ledger, user, amount);
            },
            Operation::Transfer { user, amount, target } => {
                lemma_transfer_wf(ledger, user, amount, target);
            },
            Operation::SetInterestRate { user, rate } => {
                lemma_set_interest_rate_wf(ledger, user, rate);
            },
            Operation::SetTaxRate { user, rate } => {
                lemma_set_tax_rate_wf(ledger, user, rate);
            },
            Operation::PayInterest { user, order } => {
                lemma_interest_paid_wf(ledger, order);
            },
            Operation::TakeTax { user, order } => {
                lemma_tax_taken_wf(ledger, order);
            },
        }
    }
}

/// No two users of a well-formed ledger share a name.
pub proof fn lemma_usernames_distinct(ledger: Ledger, c1: HashResult, c2: HashResult)
    requires
        ledger.wf(),
        ledger.users.contains_key(c1),
        ledger.users.contains_key(c2),
        c1 != c2,
    ensures
        ledger.users[c1].username != ledger.users[c2].username,
        ledger.users[c1].id != ledger.users[c2].id,
{
}

/// Once a name is registered, registering it again fails, whatever the
/// password and the role.
pub proof fn lemma_second_registration_fails(
    ledger: Ledger,
    username: Seq<char>,
    password: Seq<char>,
    role: Role,
    other_password: Seq<char>,
    other_role: Role,
)
    requires
        ledger.create_user(username, password, role) is Ok,
    ensures
        ledger.create_user(username, password, role)->Ok_0.create_user(
            username,
            other_password,
            other_role,
        ) == Err::<Ledger, BankingError>(BankingError::UserAlreadyExist),
{
    let next = ledger.create_user(username, password, role)->Ok_0;
    assert(next.users.contains_key(credential_of(username, password)));
}

/// A registration is refused just where the name is taken, whatever the
/// password and the role, and then with `UserAlreadyExist`.
pub proof fn lemma_registration_refused_iff_name_taken(
    ledger: Ledger,
    username: Seq<char>,
    password: Seq<char>,
    role: Role,
)
    ensures
        ledger.create_user(username, password, role) is Err <==> ledger.has_username(username),
        ledger.create_user(username, password, role) is Err ==> ledger.create_user(
            username,
            password,
            role,
        ) == Err::<Ledger, BankingError>(BankingError::UserAlreadyExist),
{
}

/// The names of the directory stay pairwise distinct through every
/// registration, whatever its outcome.
pub proof fn lemma_registration_keeps_names_distinct(
    ledger: Ledger,
    username: Seq<char>,
    password: Seq<char>,
    role: Role,
)
    requires
        ledger.usernames_unique(),
    ensures
        ledger.after(Operation::CreateUser { username, password, role }).usernames_unique(),
{
}

/// Through every registration, whatever its outcome, names and identifiers
/// stay pairwise distinct, every identifier stays at most the counter, and
/// the counter does not fall, as long as an identifier is left to hand out.
/// A registration that is refused changes nothing, so it uses up no
/// identifier.
pub proof fn lemma_registration_keeps_directory(
    ledger: Ledger,
    username: Seq<char>,
    password: Seq<char>,
    role: Role,
)
    requires
        ledger.usernames_unique(),
        ledger.ids_unique(),
        ledger.user_id_counter < UserId::MAX,
    ensures
        ({
            let next = ledger.after(Operation::CreateUser { username, password, role });
            &&& next.usernames_unique()
            &&& next.ids_unique()
            &&& next.user_id_counter >= ledger.user_id_counter
            &&& ledger.create_user(username, password, role) is Err ==> next == ledger
        }),
{
}

/// A registration hands out the identifier after the last one, which no
/// user in the directory has and under which no account stands: the new
/// user holds nothing. The new user can log in at once with the name and
/// password it registered. The balances, the log and the rates stay as they
/// were, and so does every user stored under another credential.
pub proof fn lemma_registration_is_fresh(
    ledger: Ledger,
    username: Seq<char>,
    password: Seq<char>,
    role: Role,
)
    requires
        ledger.wf(),
        ledger.user_id_counter < UserId::MAX,
        ledger.create_user(username, password, role) is Ok,
    ensures
        ({
            let next = ledger.create_user(username, password, role)->Ok_0;
            let credential = credential_of(username, password);
            &&& next.user_id_counter == ledger.user_id_counter + 1
            &&& next.users[credential].id == ledger.user_id_counter + 1
            &&& forall|c: HashResult| #[trigger]
                ledger.users.contains_key(c) ==> ledger.users[c].id < next.users[credential].id
            &&& next.login(username, password) == Ok::<(HashResult, Role), BankingError>(
                (credential, role),
            )
            &&& !next.balances.contains_key(next.users[credential].id)
            &&& next.balance_of(next.users[credential].id) == 0
            &&& next.balances == ledger.balances
            &&& next.events == ledger.events
            &&& next.interest_rate == ledger.interest_rate
            &&& next.tax_rate == ledger.tax_rate
            &&& next.existential_deposit == ledger.existential_deposit
            &&& forall|c: HashResult|
                c != credential ==> (#[trigger] next.users.contains_key(c)
                    <==> ledger.users.contains_key(c)) && (ledger.users.contains_key(c)
                    ==> next.users[c] == ledger.users[c])
        }),
{
}

/// A change of password moves the user: the new credential gives the same
/// user, the name logs in with the new password, and the old credential,
/// where it differs from the new one, is unknown from then on.
pub proof fn lemma_password_change_moves_user(
    ledger: Ledger,
    user: HashResult,
    new_password: Seq<char>,
)
    requires
        ledger.change_password(user, new_password) is Ok,
    ensures
        ({
            let next = ledger.change_password(user, new_password)->Ok_0;
            let record = ledger.users[user];
            let credential = credential_of(record.username, new_password);
            &&& next.users.contains_key(credential)
            &&& next.users[credential] == record
            &&& next.login(record.username, new_password) == Ok::<
                (HashResult, Role),
                BankingError,
            >((credential, record.role))
            &&& credential != user ==> !next.users.contains_key(user)
        }),
{
}

/// A name stays taken through every operation that does not store another
/// user under the credential of the name's holder. (Only a registration or
/// a change of password whose new credential happens to be that very
/// credential does.)
pub proof fn lemma_name_stays_taken(ledger: Ledger, holder: HashResult, op: Operation)
    requires
        ledger.users.contains_key(holder),
        op matches Operation::CreateUser { username, password, .. } ==> credential_of(
            username,
            password,
        ) != holder,
        op matches Operation::ChangePassword { user, new_password } ==> user == holder || !(
        ledger.users.contains_key(user)) || credential_of(
            ledger.users[user].username,
            new_password,
        ) != holder,
    ensures
        ledger.after(op).has_username(ledger.users[holder].username),
{
    let next = ledger.after(op);
    match op {
        Operation::ChangePassword { user, new_password } => {
            if ledger.users.contains_key(user) && user == holder {
                assert(next.users.contains_key(
                    credential_of(ledger.users[user].username, new_password),
                ));
            } else {
                assert(next.users.contains_key(holder));
            }
        },
        _ => {
            assert(next.users.contains_key(holder));
        },
    }
}

/// The floor under the balances outlasts every operation: where every
/// stored balance is at least the existential deposit, the same holds
/// after the operation.
pub proof fn lemma_floor_outlasts_operation(ledger: Ledger, op: Operation)
    requires
        ledger.floor_holds(),
        ledger.config_valid(),
    ensures
        ledger.after(op).floor_holds(),
        ledger.after(op).config_valid(),
{
    if op is PayInterest && ledger.apply(op) is Ok {
        let next = ledger.after(op);
        assert forall|id: UserId| #[trigger] next.balances.contains_key(id) implies next.balances[id]
            >= next.existential_deposit by {
            lemma_share_bounds(ledger.balances[id], ledger.interest_rate);
        }
    }
}

/// The floor under the balances outlasts every sequence of operations.
pub proof fn lemma_floor_outlasts_all(ledger: Ledger, ops: Seq<Operation>)
    requires
        ledger.floor_holds(),
        ledger.config_valid(),
    ensures
        ledger.after_all(ops).floor_holds(),
        ledger.after_all(ops).config_valid(),
    decreases ops.len(),
{
    if ops.len() > 0 {
        lemma_floor_outlasts_all(ledger, ops.drop_last());
        lemma_floor_outlasts_operation(ledger.after_all(ops.drop_last()), ops.last());
    }
}

/// What taking an amount does to an account that covers it. Where at least
/// the existential deposit is left, the account holds the rest and nothing
/// is logged. Where less is left, the account is gone, and the log has one
/// more event: the reaping of the account, with the rest as dust.
pub proof fn lemma_debit_reaps_under_floor(ledger: Ledger, id: UserId, amount: Balance)
    requires
        ledger.balances.contains_key(id),
        0 < amount <= ledger.balances[id],
    ensures
        ({
            let rest = (ledger.balances[id] - amount) as Balance;
            let next = ledger.debited(id, amount);
            if rest >= ledger.existential_deposit {
                &&& next.balances == ledger.balances.insert(id, rest)
                &&& next.events == ledger.events
            } else {
                &&& next.balances == ledger.balances.remove(id)
                &&& next.events == ledger.events.push(Event::AccountReaped { id, dust: rest })
            }
        }),
{
}

/// What a withdrawal appends to the log: the withdrawal, and after it the
/// one event of the account's reaping where less than the existential
/// deposit was left, with the rest as dust. The account is gone just then.
pub proof fn lemma_withdraw_events(ledger: Ledger, user: HashResult, amount: Balance)
    requires
        ledger.withdraw(user, amount) is Ok,
    ensures
        ({
            let next = ledger.withdraw(user, amount)->Ok_0;
            let id = ledger.users[user].id;
            let rest = (ledger.balances[id] - amount) as Balance;
            let withdrawal = Event::Withdrawal { id, amount };
            if rest >= ledger.existential_deposit {
                &&& next.events == ledger.events.push(withdrawal)
                &&& next.balances == ledger.balances.insert(id, rest)
            } else {
                &&& next.events == ledger.events.push(withdrawal).push(
                    Event::AccountReaped { id, dust: rest },
                )
                &&& next.balances == ledger.balances.remove(id)
            }
        }),
{
}

/// What a transfer to another customer appends to the log: the one event
/// of the sender's reaping where less than the existential deposit was left
/// to it, with the rest as dust, and then the transfer.
pub proof fn lemma_transfer_events(
    ledger: Ledger,
    user: HashResult,
    amount: Balance,
    target: UserId,
)
    requires
        ledger.transfer(user, amount, target) is Ok,
        ledger.users[user].id != target,
    ensures
        ({
            let next = ledger.transfer(user, amount, target)->Ok_0;
            let id = ledger.users[user].id;
            let rest = (ledger.balances[id] - amount) as Balance;
            let transfer = Event::Transfer { id, to_id: target, amount };
            if rest >= ledger.existential_deposit {
                &&& next.events == ledger.events.push(transfer)
                &&& next.balances.contains_key(id) && next.balances[id] == rest
            } else {
                &&& next.events == ledger.events.push(
                    Event::AccountReaped { id, dust: rest },
                ).push(transfer)
                &&& !next.balances.contains_key(id)
            }
        }),
{
}

/// A transfer between two customers moves money and makes none: what the
/// two hold after it, and the dust of the sender's account where it was
/// reaped, add up to what the two held before. The balances of all others
/// stay as they were. This is stated of a transfer that does not push the
/// recipient's balance to the cap.
pub proof fn lemma_transfer_conserves(
    ledger: Ledger,
    user: HashResult,
    amount: Balance,
    target: UserId,
)
    requires
        ledger.wf(),
        ledger.transfer(user, amount, target) is Ok,
        ledger.balance_of(target) + amount <= Balance::MAX,
    ensures
        ({
            let next = ledger.transfer(user, amount, target)->Ok_0;
            let id = ledger.users[user].id;
            let rest = ledger.balance_of(id) - amount;
            let dust = if id != target && rest < ledger.existential_deposit {
                rest
            } else {
                0
            };
            &&& next.balance_of(id) + next.balance_of(target) + dust == ledger.balance_of(id)
                + ledger.balance_of(target)
            &&& forall|other: UserId|
                other != id && other != target ==> #[trigger] next.balance_of(other)
                    == ledger.balance_of(other)
        }),
{
}

/// A transfer of a customer to itself succeeds and changes nothing,
/// whatever the amount.
pub proof fn lemma_self_transfer_is_noop(ledger: Ledger, user: HashResult, amount: Balance)
    requires
        ledger.assert_role(user, Role::Customer) is Ok,
    ensures
        ledger.transfer(user, amount, ledger.users[user].id) == Ok::<Ledger, BankingError>(
            ledger,
        ),
{
}

/// The log only grows: after every operation the log begins with the log
/// from before. An operation that is refused leaves the whole ledger as it
/// was.
pub proof fn lemma_log_only_grows(ledger: Ledger, op: Operation)
    ensures
        ledger.events.is_prefix_of(ledger.after(op).events),
        ledger.apply(op) is Err ==> ledger.after(op) == ledger,
{
}

/// The log only grows over every sequence of operations.
pub proof fn lemma_log_only_grows_over_all(ledger: Ledger, ops: Seq<Operation>)
    ensures
        ledger.events.is_prefix_of(ledger.after_all(ops).events),
    decreases ops.len(),
{
    if ops.len() > 0 {
        lemma_log_only_grows_over_all(ledger, ops.drop_last());
        lemma_log_only_grows(ledger.after_all(ops.drop_last()), ops.last());
    }
}

/// The history of a user in two logs put together is its history in the
/// first, followed by its history in the second.
pub proof fn lemma_history_concat(first: Seq<Event>, second: Seq<Event>, id: UserId)
    ensures
        history_of(first + second, id) == history_of(first, id) + history_of(second, id),
{
    Seq::filter_distributes_over_add(first, second, |event: Event| event.concerns(id));
}

/// No user has a history in an empty log.
pub proof fn lemma_history_empty(id: UserId)
    ensures
        history_of(Seq::empty(), id) == Seq::<Event>::empty(),
{
    reveal(Seq::filter);
}

/// Where a sequence without repetition ends in `id`, nothing before its end
/// is `id`; where it ends in another value, `id` is in it just when it is
/// before its end.
pub proof fn lemma_last_of_walk(order: Seq<UserId>, id: UserId)
    requires
        order.no_duplicates(),
        order.len() > 0,
    ensures
        order.drop_last().no_duplicates(),
        order.last() == id ==> order.contains(id) && !order.drop_last().contains(id),
        order.last() != id ==> (order.contains(id) <==> order.drop_last().contains(id)),
{
    if order.last() != id && order.contains(id) {
        let j = choose|j: int| 0 <= j < order.len() && order[j] == id;
        assert(order.drop_last()[j] == id);
    }
}

/// Among the events that paying interest appends, each account finds one
/// event of its own, with what it gained, and a user without an account
/// finds none.
pub proof fn lemma_interest_events_one_each(
    order: Seq<UserId>,
    balances: Map<UserId, Balance>,
    rate: Rate,
    id: UserId,
)
    requires
        order.no_duplicates(),
    ensures
        history_of(interest_events(order, balances, rate), id) == if order.contains(id) {
            seq![Event::Interest { id, interest: interest_on(balances[id], rate) }]
        } else {
            Seq::empty()
        },
    decreases order.len(),
{
    if order.len() == 0 {
        lemma_history_empty(id);
    } else {
        let front = order.drop_last();
        let event = Event::Interest {
            id: order.last(),
            interest: interest_on(balances[order.last()], rate),
        };
        assert(interest_events(order, balances, rate) =~= interest_events(
            front,
            balances,
            rate,
        ).push(event));
        lemma_last_of_walk(order, id);
        lemma_interest_events_one_each(front, balances, rate, id);
        lemma_history_push(interest_events(front, balances, rate), event, id);
    }
}

/// The events of taxing one account concern that account and no other.
pub proof fn lemma_tax_events_of_concern_owner(
    owner: UserId,
    balance: Balance,
    rate: Rate,
    ed: Balance,
    id: UserId,
)
    ensures
        history_of(tax_events_of(owner, balance, rate, ed), id) == if owner == id {
            tax_events_of(owner, balance, rate, ed)
        } else {
            Seq::empty()
        },
{
    let tax = Event::Tax { id: owner, tax: tax_on(balance, rate) };
    let reaped = Event::AccountReaped { id: owner, dust: after_tax(balance, rate) };
    lemma_history_empty(id);
    lemma_history_push(Seq::empty(), tax, id);
    lemma_history_push(seq![tax], reaped, id);
}

/// Among the events that taking tax appends, each account finds its own:
/// one tax event, and after it the reaping of the account where the tax
/// left it under the existential deposit, and none else. A user without an
/// account finds none.
pub proof fn lemma_tax_events_one_each(
    order: Seq<UserId>,
    balances: Map<UserId, Balance>,
    rate: Rate,
    ed: Balance,
    id: UserId,
)
    requires
        order.no_duplicates(),
    ensures
        history_of(tax_events(order, balances, rate, ed), id) == if order.contains(id) {
            tax_events_of(id, balances[id], rate, ed)
        } else {
            Seq::empty()
        },
    decreases order.len(),
{
    if order.len() == 0 {
        lemma_history_empty(id);
    } else {
        let front = order.drop_last();
        let last = tax_events_of(order.last(), balances[order.last()], rate, ed);
        let before = tax_events(front, balances, rate, ed);
        lemma_last_of_walk(order, id);
        lemma_tax_events_one_each(front, balances, rate, ed, id);
        lemma_history_concat(before, last, id);
        lemma_tax_events_of_concern_owner(order.last(), balances[order.last()], rate, ed, id);
    }
}

/// Paying interest adds to the history of each account one event, with
/// what the account gained, and nothing to the history of any other user.
pub proof fn lemma_interest_paid_history(ledger: Ledger, order: Seq<UserId>, id: UserId)
    requires
        ledger.walks_balances(order),
    ensures
        ledger.interest_paid(order).events_of(id) == ledger.events_of(id) + (
        if ledger.balances.contains_key(id) {
            seq![
                Event::Interest {
                    id,
                    interest: interest_on(ledger.balances[id], ledger.interest_rate),
                },
            ]
        } else {
            Seq::empty()
        }),
{
    lemma_history_concat(
        ledger.events,
        interest_events(order, ledger.balances, ledger.interest_rate),
        id,
    );
    lemma_interest_events_one_each(order, ledger.balances, ledger.interest_rate, id);
}

/// Taking tax adds to the history of each account its tax event, and after
/// it the one event of its reaping where the account was reaped, with what
/// the tax had left as dust. It adds nothing to the history of any other
/// user.
pub proof fn lemma_tax_taken_history(ledger: Ledger, order: Seq<UserId>, id: UserId)
    requires
        ledger.walks_balances(order),
    ensures
        ledger.tax_taken(order).events_of(id) == ledger.events_of(id) + (
        if ledger.balances.contains_key(id) {
            tax_events_of(id, ledger.balances[id], ledger.tax_rate, ledger.existential_deposit)
        } else {
            Seq::empty()
        }),
        ledger.balances.contains_key(id) ==> (ledger.tax_taken(order).balances.contains_key(id)
            <==> after_tax(ledger.balances[id], ledger.tax_rate) >= ledger.existential_deposit),
{
    lemma_history_concat(
        ledger.events,
        tax_events(order, ledger.balances, ledger.tax_rate, ledger.existential_deposit),
        id,
    );
    lemma_tax_events_one_each(
        order,
        ledger.balances,
        ledger.tax_rate,
        ledger.existential_deposit,
        id,
    );
}

} // verus!
