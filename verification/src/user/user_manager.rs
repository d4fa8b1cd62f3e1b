//! The pool of accounts.
//!
//! Every operation of the pool is the same operation on each account in turn. What one
//! account meets at the venue changes nothing for another.

use crate::error::MintError;
use crate::exchange::an_exchange::AnExchange;
use crate::exchange::api_credentials::ApiCredentials;
use crate::exchange::kucoin::exchange_info::KucoinPrecisionInfo;
use crate::exchange::kucoin::token_info::SymbolInfo;
use crate::exchange::order::Order;
use crate::user::laws::{lemma_clean_pass_finishes, lemma_unfinished_pass_spends_budget};
use crate::user::state::{admitted, budget, clean, priced, BuyOutcome, SellOutcome, UserState};
use crate::user::user::User;
use vstd::prelude::*;

verus! {

/// How long the settlement loop waits, in milliseconds, before it tries again.
pub const SETTLE_RETRY_MILLIS: u64 = 50;

/// How long the pool is left alone, in seconds, between two refreshes.
pub const REFRESH_INTERVAL_SECS: u64 = 600;

/// Whether what holds of an account holds of every account of the pool.
pub open spec fn pool_inv(users: Seq<UserState>) -> bool {
    forall|i: int| 0 <= i < users.len() ==> (#[trigger] users[i]).inv()
}

/// The pool after a buy phase in which the attempts of the account at `i` ended as
/// `outcomes[i]`.
pub open spec fn pool_bought(users: Seq<UserState>, outcomes: Seq<Seq<BuyOutcome>>) -> Seq<
    UserState,
> {
    Seq::new(users.len(), |i: int| users[i].bought(outcomes[i]))
}

/// The pool after a settlement pass over `symbols` in which the attempts of the account
/// at `i` ended as `outcomes[i]`.
pub open spec fn pool_settled(
    users: Seq<UserState>,
    symbols: Seq<SymbolInfo>,
    outcomes: Seq<Seq<SellOutcome>>,
) -> Seq<UserState> {
    Seq::new(users.len(), |i: int| users[i].settled(symbols, outcomes[i]))
}

/// The pool after a refresh in which the venue stated `tables[i]` to the account at `i`
/// and the account read `balances[i]`, or failed to where these are `None`.
pub open spec fn pool_refreshed(
    users: Seq<UserState>,
    tables: Seq<Option<Map<Seq<char>, KucoinPrecisionInfo>>>,
    balances: Seq<Option<Seq<char>>>,
) -> Seq<UserState> {
    Seq::new(users.len(), |i: int| users[i].refreshed(tables[i], balances[i]))
}

/// Whether the attempts of a buy phase for `symbols` can end as `outcomes`, account by
/// account.
pub open spec fn pool_buys_possible(
    users: Seq<UserState>,
    symbols: Seq<SymbolInfo>,
    outcomes: Seq<Seq<BuyOutcome>>,
) -> bool {
    &&& outcomes.len() == users.len()
    &&& forall|i: int|
        0 <= i < users.len() ==> (#[trigger] users[i]).buys_possible(symbols, outcomes[i])
}

/// Whether the attempts of a round of settlement over `symbols` can end as `outcomes`,
/// account by account.
pub open spec fn pool_sells_possible(
    users: Seq<UserState>,
    symbols: Seq<SymbolInfo>,
    outcomes: Seq<Seq<SellOutcome>>,
) -> bool {
    &&& outcomes.len() == users.len()
    &&& forall|i: int|
        0 <= i < users.len() ==> (#[trigger] users[i]).sells_possible(symbols, outcomes[i])
}

/// Whether every account of the pool has nothing left to do in this cycle.
pub open spec fn pool_finished(users: Seq<UserState>) -> bool {
    forall|i: int| 0 <= i < users.len() ==> (#[trigger] users[i]).finished()
}

/// The symbols whose price was found, in the order in which they were asked for.
pub open spec fn found_prices(loaded: Seq<Result<SymbolInfo, MintError>>) -> Seq<SymbolInfo> {
    loaded.filter_map(
        |r: Result<SymbolInfo, MintError>|
            match r {
                Ok(symbol) => Some(symbol),
                Err(_) => None,
            },
    )
}

/// The orders that a run of attempts placed, as the registry admits them.
pub open spec fn placed_orders(outcomes: Seq<BuyOutcome>) -> Seq<Order> {
    Seq::new(outcomes.len(), |i: int| admitted(outcomes[i]->Placed_0))
}

/// A live account whose every attempt to buy is taken by the venue admits every order,
/// in turn, and loses no health.
proof fn lemma_placed_buys_fill_registry(state: UserState, outcomes: Seq<BuyOutcome>)
    requires
        state.alive,
        forall|i: int| 0 <= i < outcomes.len() ==> #[trigger] outcomes[i] is Placed,
    ensures
        state.after_buys(outcomes) == (UserState {
            orders: state.orders + placed_orders(outcomes),
            ..state
        }),
    decreases outcomes.len(),
{
    if outcomes.len() > 0 {
        lemma_placed_buys_fill_registry(state, outcomes.drop_last());
        assert(state.orders + placed_orders(outcomes) =~= (state.orders + placed_orders(
            outcomes.drop_last(),
        )).push(admitted(outcomes.last()->Placed_0)));
    } else {
        assert(state.orders + placed_orders(outcomes) =~= state.orders);
    }
}

/// One account's failures are its own. In a buy phase, what becomes of an account
/// depends on its own state and on what the venue answered to it, and on nothing that
/// another account met: so where one account places no order at all, every other live
/// account whose orders the venue takes still admits them all.
pub proof fn lemma_failing_account_leaves_the_rest(
    users: Seq<UserState>,
    outcomes: Seq<Seq<BuyOutcome>>,
    failing: int,
    other: int,
)
    requires
        0 <= failing < users.len(),
        0 <= other < users.len(),
        other != failing,
        forall|i: int|
            0 <= i < outcomes[failing].len() ==> !(#[trigger] outcomes[failing][i] is Placed),
        users[other].alive,
        forall|i: int| 0 <= i < outcomes[other].len() ==> #[trigger] outcomes[other][i] is Placed,
    ensures
        pool_bought(users, outcomes)[other] == (UserState {
            orders: users[other].orders + placed_orders(outcomes[other]),
            all_sold: false,
            ..users[other]
        }),
        forall|others: Seq<Seq<BuyOutcome>>|
            others[other] == outcomes[other] ==> (#[trigger] pool_bought(users, others))[other]
                == pool_bought(users, outcomes)[other],
{
    lemma_placed_buys_fill_registry(
        UserState { all_sold: false, ..users[other] },
        outcomes[other],
    );
}

/// A round of settlement in which no attempt of a live account fails is the last one:
/// after it every account has nothing left to do.
pub proof fn lemma_clean_round_finishes(
    users: Seq<UserState>,
    symbols: Seq<SymbolInfo>,
    outcomes: Seq<Seq<SellOutcome>>,
)
    requires
        forall|i: int|
            0 <= i < users.len() && (#[trigger] users[i]).alive ==> clean(
                users[i].orders,
                symbols,
                outcomes[i],
            ),
    ensures
        pool_finished(pool_settled(users, symbols, outcomes)),
{
    assert forall|i: int| 0 <= i < users.len() implies (#[trigger] pool_settled(
        users,
        symbols,
        outcomes,
    )[i]).finished() by {
        if users[i].alive {
            lemma_clean_pass_finishes(users[i], symbols, outcomes[i]);
        }
    }
}

/// A dead account never keeps a round of settlement from ending: where every account
/// that was alive before the round is finished after it, every account is.
pub proof fn lemma_dead_accounts_do_not_block(
    users: Seq<UserState>,
    symbols: Seq<SymbolInfo>,
    outcomes: Seq<Seq<SellOutcome>>,
)
    requires
        forall|i: int|
            0 <= i < users.len() && (#[trigger] users[i]).alive ==> users[i].settled(
                symbols,
                outcomes[i],
            ).finished(),
    ensures
        pool_finished(pool_settled(users, symbols, outcomes)),
        forall|i: int|
            0 <= i < users.len() && !(#[trigger] users[i]).alive ==> pool_settled(
                users,
                symbols,
                outcomes,
            )[i] == users[i],
{
    assert forall|i: int| 0 <= i < users.len() implies (#[trigger] pool_settled(
        users,
        symbols,
        outcomes,
    )[i]).finished() by {
        assert(users[i].alive ==> users[i].settled(symbols, outcomes[i]).finished());
    }
}

/// What is left of the budgets of the pool: what is left of those of each account.
pub open spec fn pool_budget(users: Seq<UserState>) -> int
    decreases users.len(),
{
    if users.len() == 0 {
        0
    } else {
        pool_budget(users.drop_last()) + budget(users.last())
    }
}

/// A round of settlement adds nothing to the budgets of the first `upto` accounts, and
/// takes something from them where one of these accounts is not finished after it.
proof fn lemma_round_spends_budget(
    users: Seq<UserState>,
    symbols: Seq<SymbolInfo>,
    outcomes: Seq<Seq<SellOutcome>>,
    upto: int,
)
    requires
        0 <= upto <= users.len(),
        pool_inv(users),
        forall|i: int| 0 <= i < users.len() ==> (#[trigger] users[i]).orders.len() <= usize::MAX,
    ensures
        0 <= pool_budget(pool_settled(users, symbols, outcomes).take(upto)) <= pool_budget(
            users.take(upto),
        ),
        !pool_finished(pool_settled(users, symbols, outcomes).take(upto)) ==> pool_budget(
            pool_settled(users, symbols, outcomes).take(upto),
        ) < pool_budget(users.take(upto)),
    decreases upto,
{
    let after = pool_settled(users, symbols, outcomes);
    if upto > 0 {
        lemma_round_spends_budget(users, symbols, outcomes, upto - 1);
        lemma_unfinished_pass_spends_budget(users[upto - 1], symbols, outcomes[upto - 1]);
        assert(after.take(upto).drop_last() =~= after.take(upto - 1));
        assert(users.take(upto).drop_last() =~= users.take(upto - 1));
        assert(after.take(upto).last() == users[upto - 1].settled(symbols, outcomes[upto - 1]));
        assert(users.take(upto).last() == users[upto - 1]);
        if !pool_finished(after.take(upto)) {
            let i = choose|i: int| 0 <= i < upto && !(#[trigger] after.take(upto)[i]).finished();
            if i < upto - 1 {
                assert(!after.take(upto - 1)[i].finished());
            }
        }
    }
}

/// The settlement loop ends. A round of settlement adds nothing to what is left of the
/// budgets of the pool, and a round after which some account is not finished takes
/// something from them: so the loop makes no more rounds than the pool has budget left
/// when it starts.
pub proof fn lemma_unfinished_round_spends_budget(
    users: Seq<UserState>,
    symbols: Seq<SymbolInfo>,
    outcomes: Seq<Seq<SellOutcome>>,
)
    requires
        pool_inv(users),
        forall|i: int| 0 <= i < users.len() ==> (#[trigger] users[i]).orders.len() <= usize::MAX,
    ensures
        0 <= pool_budget(pool_settled(users, symbols, outcomes)) <= pool_budget(users),
        !pool_finished(pool_settled(users, symbols, outcomes)) ==> pool_budget(
            pool_settled(users, symbols, outcomes),
        ) < pool_budget(users),
{
    let after = pool_settled(users, symbols, outcomes);
    lemma_round_spends_budget(users, symbols, outcomes, users.len() as int);
    assert(after.take(users.len() as int) =~= after);
    assert(users.take(users.len() as int) =~= users);
}

/// A copy of a batch.
fn clone_batch(symbols: &Vec<SymbolInfo>) -> (copy: Vec<SymbolInfo>)
    ensures
        copy@ == symbols@,
{
    let mut copy: Vec<SymbolInfo> = Vec::new();
    let mut i: usize = 0;
    while i < symbols.len()
        invariant
            i <= symbols@.len(),
            copy@ == symbols@.take(i as int),
        decreases symbols@.len() - i,
    {
        copy.push(symbols[i].clone());
        proof {
            assert(symbols@.take(i + 1) =~= symbols@.take(i as int).push(symbols@[i as int]));
        }
        i += 1;
    }
    proof {
        assert(symbols@.take(symbols@.len() as int) =~= symbols@);
    }
    copy
}

/// The pool of accounts.
pub struct UserManager<E: AnExchange> {
    users: Vec<User<E>>,
}

impl<E: AnExchange> View for UserManager<E> {
    type V = Seq<UserState>;

    closed spec fn view(&self) -> Seq<UserState> {
        Seq::new(self.users@.len(), |i: int| self.users@[i]@)
    }
}

impl<E: AnExchange> UserManager<E> {
    /// The pool of the given accounts.
    pub fn from_users(users: Vec<User<E>>) -> (pool: Self)
        ensures
            pool@.len() == users@.len(),
            forall|i: int| 0 <= i < users@.len() ==> #[trigger] pool@[i] == users@[i]@,
    {
        UserManager { users }
    }

    /// The accounts of the pool.
    pub fn into_users(self) -> (users: Vec<User<E>>)
        ensures
            users@.len() == self@.len(),
            forall|i: int| 0 <= i < users@.len() ==> #[trigger] users@[i]@ == self@[i],
    {
        self.users
    }

    /// The accounts of the pool.
    pub fn users(&self) -> (users: &Vec<User<E>>)
        ensures
            users@.len() == self@.len(),
            forall|i: int| 0 <= i < users@.len() ==> #[trigger] users@[i]@ == self@[i],
    {
        &self.users
    }

    /// Opens one account for each of `credentials`, in turn. The first account that
    /// cannot be opened ends the attempt, and its error is returned. A pool without
    /// accounts asks nothing of the venue and is always made.
    pub fn new(credentials: Vec<ApiCredentials>) -> (made: Result<Self, MintError>)
        ensures
            credentials@.len() == 0 ==> made is Ok,
            made matches Ok(pool) ==> {
                &&& pool@.len() == credentials@.len()
                &&& pool_inv(pool@)
                &&& forall|i: int|
                    0 <= i < pool@.len() ==> #[trigger] pool@[i] == UserState::fresh(
                        credentials@[i],
                        pool@[i].balance,
                        pool@[i].precision,
                    )
            },
    {
        let mut users: Vec<User<E>> = Vec::new();
        let mut i: usize = 0;
        while i < credentials.len()
            invariant
                i <= credentials@.len(),
                users@.len() == i,
                forall|j: int|
                    0 <= j < i ==> (#[trigger] users@[j])@ == UserState::fresh(
                        credentials@[j],
                        users@[j]@.balance,
                        users@[j]@.precision,
                    ) && users@[j]@.inv(),
            decreases credentials@.len() - i,
        {
            match User::new(credentials[i].clone()) {
                Ok(user) => {
                    users.push(user);
                },
                Err(e) => {
                    return Err(e);
                },
            }
            i += 1;
        }
        Ok(UserManager { users })
    }

    /// Refreshes every account, in turn.
    pub fn refresh_users(&mut self)
        requires
            pool_inv(old(self)@),
        ensures
            pool_inv(final(self)@),
            exists|
                tables: Seq<Option<Map<Seq<char>, KucoinPrecisionInfo>>>,
                balances: Seq<Option<Seq<char>>>,
            |
                tables.len() == old(self)@.len() && balances.len() == old(self)@.len() && (forall|
                    i: int,
                |
                    0 <= i < tables.len() && (#[trigger] tables[i]) is None ==> balances[i] is None)
                    && final(self)@ == #[trigger] pool_refreshed(old(self)@, tables, balances),
    {
        proof {
            assert forall|j: int| 0 <= j < self.users@.len() implies (#[trigger] self.users@[j])@.inv() by {
                assert(self@[j].inv());
            }
        }
        let ghost mut tables: Seq<Option<Map<Seq<char>, KucoinPrecisionInfo>>> = Seq::empty();
        let ghost mut balances: Seq<Option<Seq<char>>> = Seq::empty();
        let mut i: usize = 0;
        while i < self.users.len()
            invariant
                i <= self.users@.len() == old(self).users@.len(),
                tables.len() == i,
                balances.len() == i,
                forall|j: int| 0 <= j < i && (#[trigger] tables[j]) is None ==> balances[j] is None,
                forall|j: int|
                    0 <= j < i ==> (#[trigger] self.users@[j])@ == old(self).users@[j]@.refreshed(
                        tables[j],
                        balances[j],
                    ),
                forall|j: int|
                    i <= j < self.users@.len() ==> (#[trigger] self.users@[j])@ == old(
                        self,
                    ).users@[j]@,
                forall|j: int| 0 <= j < self.users@.len() ==> (#[trigger] self.users@[j])@.inv(),
            decreases self.users@.len() - i,
        {
            let ghost before = self.users@[i as int]@;
            assert(before == old(self)@[i as int]);
            self.users[i].refresh();
            proof {
                let (table, balance) = choose|
                    table: Option<Map<Seq<char>, KucoinPrecisionInfo>>,
                    balance: Option<Seq<char>>,
                |
                    (table is None ==> balance is None) && self.users@[i as int]@
                        == #[trigger] before.refreshed(table, balance);
                tables = tables.push(table);
                balances = balances.push(balance);
            }
            i += 1;
        }
        assert(self@ =~= pool_refreshed(old(self)@, tables, balances));
    }

    /// The buy phase of a batch: every account buys each symbol in turn, the account at
    /// `i` for `funds[i]`.
    pub fn buy_tokens(&mut self, symbols: Vec<SymbolInfo>, funds: &Vec<String>)
        requires
            pool_inv(old(self)@),
            funds@.len() == old(self)@.len(),
        ensures
            pool_inv(final(self)@),
            exists|outcomes: Seq<Seq<BuyOutcome>>|
                pool_buys_possible(old(self)@, symbols@, outcomes) && final(self)@
                    == #[trigger] pool_bought(old(self)@, outcomes),
    {
        proof {
            assert forall|j: int| 0 <= j < self.users@.len() implies (#[trigger] self.users@[j])@.inv() by {
                assert(self@[j].inv());
            }
        }
        let ghost mut outcomes: Seq<Seq<BuyOutcome>> = Seq::empty();
        let mut i: usize = 0;
        while i < self.users.len()
            invariant
                i <= self.users@.len() == old(self).users@.len(),
                funds@.len() == self.users@.len(),
                outcomes.len() == i,
                forall|j: int|
                    0 <= j < i ==> (#[trigger] old(self)@[j]).buys_possible(symbols@, outcomes[j]),
                forall|j: int|
                    0 <= j < i ==> (#[trigger] self.users@[j])@ == old(self).users@[j]@.bought(
                        outcomes[j],
                    ),
                forall|j: int|
                    i <= j < self.users@.len() ==> (#[trigger] self.users@[j])@ == old(
                        self,
                    ).users@[j]@,
                forall|j: int| 0 <= j < self.users@.len() ==> (#[trigger] self.users@[j])@.inv(),
            decreases self.users@.len() - i,
        {
            let ghost before = self.users@[i as int]@;
            assert(before == old(self)@[i as int]);
            let batch = clone_batch(&symbols);
            self.users[i].buy_tokens(batch, funds[i].as_str());
            proof {
                let met = choose|met: Seq<BuyOutcome>|
                    before.buys_possible(batch@, met) && self.users@[i as int]@
                        == #[trigger] before.bought(met);
                assert(before.buys_possible(symbols@, met));
                outcomes = outcomes.push(met);
            }
            i += 1;
        }
        assert(self@ =~= pool_bought(old(self)@, outcomes));
    }

    /// One round of settlement: every account makes one settlement pass over `symbols`.
    /// Returns whether every account has nothing left to do; where it does not, the
    /// round is to be made again after [`SETTLE_RETRY_MILLIS`].
    pub fn resolve_place_sell_order(&mut self, symbols: &Vec<SymbolInfo>) -> (all_finished: bool)
        requires
            pool_inv(old(self)@),
            forall|i: int|
                0 <= i < old(self)@.len() && (#[trigger] old(self)@[i]).alive ==> priced(
                    old(self)@[i].orders,
                    symbols@,
                ),
        ensures
            pool_inv(final(self)@),
            exists|outcomes: Seq<Seq<SellOutcome>>|
                pool_sells_possible(old(self)@, symbols@, outcomes) && final(self)@
                    == #[trigger] pool_settled(old(self)@, symbols@, outcomes),
            all_finished == pool_finished(final(self)@),
    {
        proof {
            assert forall|j: int| 0 <= j < self.users@.len() implies (#[trigger] self.users@[j])@.inv() by {
                assert(self@[j].inv());
            }
        }
        let ghost mut outcomes: Seq<Seq<SellOutcome>> = Seq::empty();
        let mut all_finished = true;
        let mut i: usize = 0;
        while i < self.users.len()
            invariant
                i <= self.users@.len() == old(self).users@.len(),
                outcomes.len() == i,
                forall|j: int|
                    0 <= j < i ==> (#[trigger] old(self)@[j]).sells_possible(symbols@, outcomes[j]),
                forall|j: int|
                    0 <= j < i ==> (#[trigger] self.users@[j])@ == old(self).users@[j]@.settled(
                        symbols@,
                        outcomes[j],
                    ),
                forall|j: int|
                    i <= j < self.users@.len() ==> (#[trigger] self.users@[j])@ == old(
                        self,
                    ).users@[j]@,
                forall|j: int| 0 <= j < self.users@.len() ==> (#[trigger] self.users@[j])@.inv(),
                forall|j: int|
                    0 <= j < old(self)@.len() && (#[trigger] old(self)@[j]).alive ==> priced(
                        old(self)@[j].orders,
                        symbols@,
                    ),
                all_finished == (forall|j: int|
                    0 <= j < i ==> (#[trigger] self.users@[j])@.finished()),
            decreases self.users@.len() - i,
        {
            let ghost before = self.users@[i as int]@;
            assert(before == old(self)@[i as int]);
            let ghost done = self.users@;
            if !self.users[i].try_place_sell_limit(symbols) {
                all_finished = false;
            }
            proof {
                let met = choose|met: Seq<SellOutcome>|
                    before.sells_possible(symbols@, met) && self.users@[i as int]@
                        == #[trigger] before.settled(symbols@, met);
                outcomes = outcomes.push(met);
                assert forall|j: int| 0 <= j < i implies self.users@[j] == done[j] by {}
            }
            i += 1;
        }
        assert(self@ =~= pool_settled(old(self)@, symbols@, outcomes));
        proof {
            if all_finished {
                assert forall|j: int| 0 <= j < self@.len() implies (#[trigger] self@[j]).finished() by {
                    assert(self.users@[j]@.finished());
                }
            } else {
                let j = choose|j: int| 0 <= j < i && !(#[trigger] self.users@[j])@.finished();
                assert(!self@[j].finished());
            }
        }
        all_finished
    }

    /// Keeps the symbols whose price was found, in the order in which they were asked
    /// for, and drops the others.
    pub fn load_prices(loaded: Vec<Result<SymbolInfo, MintError>>) -> (found: Vec<SymbolInfo>)
        ensures
            found@ == found_prices(loaded@),
    {
        let ghost all = loaded@;
        let mut found: Vec<SymbolInfo> = Vec::new();
        for result in it: loaded
            invariant
                it.seq() == all,
                found@ == found_prices(all.take(it.index() as int)),
        {
            proof {
                assert(all.take(it.index() + 1).drop_last() =~= all.take(it.index() as int));
            }
            match result {
                Ok(symbol) => {
                    found.push(symbol);
                },
                Err(_) => {},
            }
        }
        proof {
            assert(all.take(all.len() as int) =~= all);
        }
        found
    }
}

} // verus!
