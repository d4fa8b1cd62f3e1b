//! What holds of an account, whatever the venue answers.

use crate::exchange::api_credentials::ApiCredentials;
use crate::exchange::kucoin::exchange_info::KucoinPrecisionInfo;
use crate::exchange::kucoin::token_info::SymbolInfo;
use crate::exchange::order::Order;
use crate::user::state::{
    attempted, budget, charged_to_account, clean, due, is_alive, only_survivors, order_budget,
    same_handle, sell_errors, unfinished, BuyOutcome, SellOutcome, SettleTally, UserState,
    INITIAL_HEALTH,
};
use vstd::prelude::*;
use vstd::seq_lib::*;

verus! {

/// Purging the first `k + 1` orders keeps what purging the first `k` keeps, and the order
/// at `k` where it is alive.
pub proof fn lemma_purge_step(orders: Seq<Order>, k: int)
    requires
        0 <= k < orders.len(),
    ensures
        orders.take(k + 1).filter(is_alive()) == if orders[k].alive {
            orders.take(k).filter(is_alive()).push(orders[k])
        } else {
            orders.take(k).filter(is_alive())
        },
{
    reveal(Seq::filter);
    assert(orders.take(k + 1).drop_last() =~= orders.take(k));
}

/// The errors among the first `upto` positions depend on the first `upto` outcomes alone,
/// and there is at most one for each position.
pub proof fn lemma_sell_errors_prefix(
    orders: Seq<Order>,
    symbols: Seq<SymbolInfo>,
    a: Seq<SellOutcome>,
    b: Seq<SellOutcome>,
    upto: nat,
)
    requires
        forall|j: int| 0 <= j < upto ==> a[j] == b[j],
    ensures
        sell_errors(orders, symbols, a, upto) == sell_errors(orders, symbols, b, upto),
        sell_errors(orders, symbols, a, upto) <= upto,
    decreases upto,
{
    if upto > 0 {
        lemma_sell_errors_prefix(orders, symbols, a, b, (upto - 1) as nat);
    }
}

/// An account is alive exactly while some health is left, and every operation keeps it
/// so: what holds of an account before a charge, a buy, a settlement pass or a refresh
/// holds of it afterwards, however the venue answered.
pub proof fn lemma_operations_keep_inv(
    state: UserState,
    amount: nat,
    bought: Seq<BuyOutcome>,
    symbols: Seq<SymbolInfo>,
    sold: Seq<SellOutcome>,
    precision: Option<Map<Seq<char>, KucoinPrecisionInfo>>,
    balance: Option<Seq<char>>,
)
    requires
        state.inv(),
    ensures
        state.lowered(amount as int).inv(),
        state.bought(bought).inv(),
        state.settled(symbols, sold).inv(),
        state.refreshed(precision, balance).inv(),
        state.purged().inv(),
{
    lemma_after_buys_keep_inv(UserState { all_sold: false, ..state }, bought);
    lemma_purged_keeps_inv(state);
    if state.alive {
        let tried = UserState { orders: attempted(state.orders, symbols, sold), ..state };
        let tally = SettleTally {
            errors: sell_errors(state.orders, symbols, sold, state.orders.len()) as usize,
            retry: unfinished(state.orders, symbols, sold, state.orders.len()),
        };
        assert(tried.inv());
        let charged = if tally.errors > 0 {
            tried.lowered(tally.errors as int)
        } else {
            tried
        };
        lemma_purged_keeps_inv(
            UserState { all_sold: tally.errors == 0 && !tally.retry, ..charged },
        );
    }
    let reopened = match precision {
        Some(p) => UserState { precision: p, ..state },
        None => state,
    };
    match balance {
        Some(b) => lemma_purged_keeps_inv(UserState { balance: b, ..reopened }),
        None => lemma_purged_keeps_inv(reopened.lowered(1)),
    }
}

/// Purging keeps what holds of an account.
proof fn lemma_purged_keeps_inv(state: UserState)
    requires
        state.inv(),
    ensures
        state.purged().inv(),
{
    let kept = state.orders.filter(is_alive());
    assert forall|j: int| 0 <= j < kept.len() && (#[trigger] kept[j]).alive implies 0
        < kept[j].health by {
        state.orders.lemma_filter_contains_rev(is_alive(), kept[j]);
    }
}

/// A run of attempts to buy keeps what holds of an account, and adds no health to it.
proof fn lemma_after_buys_keep_inv(state: UserState, outcomes: Seq<BuyOutcome>)
    requires
        state.inv(),
    ensures
        state.after_buys(outcomes).inv(),
        state.after_buys(outcomes).health <= state.health,
        state.after_buys(outcomes).precision == state.precision,
        state.health > 0 ==> state.after_buys(outcomes).health >= 0,
    decreases outcomes.len(),
{
    if outcomes.len() > 0 {
        lemma_after_buys_keep_inv(state, outcomes.drop_last());
    }
}

/// A new account, charged one failure at a time, is dead exactly after the tenth failure
/// and not before.
pub proof fn lemma_dead_after_tenth_failure(
    credentials: ApiCredentials,
    balance: Seq<char>,
    precision: Map<Seq<char>, KucoinPrecisionInfo>,
    failures: nat,
)
    ensures
        UserState::fresh(credentials, balance, precision).after_failures(failures).alive == (
        failures < 10),
        UserState::fresh(credentials, balance, precision).after_failures(failures).health == if INITIAL_HEALTH
            - failures >= i8::MIN {
            INITIAL_HEALTH - failures
        } else {
            i8::MIN as int
        },
    decreases failures,
{
    if failures > 0 {
        lemma_dead_after_tenth_failure(credentials, balance, precision, (failures - 1) as nat);
    }
}

/// A new account none of whose attempts to buy places an order is alive after the
/// attempts exactly if they were fewer than ten; the attempts after the tenth change
/// nothing.
pub proof fn lemma_failed_buys_spend_budget(
    credentials: ApiCredentials,
    balance: Seq<char>,
    precision: Map<Seq<char>, KucoinPrecisionInfo>,
    outcomes: Seq<BuyOutcome>,
)
    requires
        forall|i: int| 0 <= i < outcomes.len() ==> !(#[trigger] outcomes[i] is Placed),
    ensures
        UserState::fresh(credentials, balance, precision).after_buys(outcomes).alive == (
        outcomes.len() < 10),
        UserState::fresh(credentials, balance, precision).after_buys(outcomes).health == if outcomes.len()
            < 10 {
            INITIAL_HEALTH - outcomes.len()
        } else {
            0
        },
        UserState::fresh(credentials, balance, precision).after_buys(outcomes).orders.len() == 0,
    decreases outcomes.len(),
{
    if outcomes.len() > 0 {
        lemma_failed_buys_spend_budget(credentials, balance, precision, outcomes.drop_last());
    }
}

/// Every attempt of a live account to buy either admits an order or costs one health,
/// and a refresh that does not get as far as the balance costs one health.
pub proof fn lemma_failure_charges_one(state: UserState, outcome: BuyOutcome)
    requires
        state.alive,
    ensures
        match outcome {
            BuyOutcome::Placed(order) => state.after_buy(outcome).orders.len() == state.orders.len()
                + 1 && state.after_buy(outcome).health == state.health,
            _ => state.after_buy(outcome) == state.lowered(1),
        },
        state.refreshed(None, None) == state.lowered(1).purged(),
        state.lowered(1) == state.after_failures(1),
        state.inv() ==> state.lowered(1).health == state.health - 1,
{
    reveal_with_fuel(UserState::after_failures, 2);
}

/// Orders that cleanup has removed do not come back: after a settlement pass or a
/// refresh, whatever the venue answered and whichever symbols the pass was for, the
/// registry holds only orders that are alive, each of them an order that was alive in the
/// registry before.
pub proof fn lemma_purged_orders_stay_out(
    state: UserState,
    symbols: Seq<SymbolInfo>,
    outcomes: Seq<SellOutcome>,
    precision: Option<Map<Seq<char>, KucoinPrecisionInfo>>,
    balance: Option<Seq<char>>,
)
    ensures
        only_survivors(state.orders, state.purged().orders),
        state.alive ==> only_survivors(state.orders, state.settled(symbols, outcomes).orders),
        only_survivors(state.orders, state.refreshed(precision, balance).orders),
        state.purged().purged() == state.purged(),
{
    lemma_purge_survivors(state.orders, state.orders);
    let tried = attempted(state.orders, symbols, outcomes);
    lemma_purge_survivors(state.orders, tried);
    lemma_purge_fixpoint(state.orders);
}

/// Purging a registry in which nothing has come to life since `earlier` leaves only
/// survivors of `earlier`.
proof fn lemma_purge_survivors(earlier: Seq<Order>, tried: Seq<Order>)
    requires
        tried.len() == earlier.len(),
        forall|i: int|
            0 <= i < tried.len() ==> ((#[trigger] tried[i]).alive ==> earlier[i].alive
                && same_handle(earlier[i], tried[i]) && tried[i].health <= earlier[i].health),
    ensures
        only_survivors(earlier, tried.filter(is_alive())),
{
    let later = tried.filter(is_alive());
    tried.lemma_filter_len(is_alive());
    assert forall|j: int| 0 <= j < later.len() implies (#[trigger] later[j]).alive && exists|i: int|
        0 <= i < earlier.len() && (#[trigger] earlier[i]).alive && same_handle(earlier[i], later[j])
            && later[j].health <= earlier[i].health by {
        tried.lemma_filter_pred(is_alive(), j);
        tried.lemma_filter_contains_rev(is_alive(), later[j]);
        let i = choose|i: int| 0 <= i < tried.len() && tried[i] == later[j];
        assert(earlier[i].alive);
    }
}

/// A registry that has been purged is not changed by purging it again.
proof fn lemma_purge_fixpoint(orders: Seq<Order>)
    ensures
        orders.filter(is_alive()).filter(is_alive()) == orders.filter(is_alive()),
    decreases orders.len(),
{
    reveal(Seq::filter);
    if orders.len() > 0 {
        lemma_purge_fixpoint(orders.drop_last());
        let kept = orders.drop_last().filter(is_alive());
        if orders.last().alive {
            assert(kept.push(orders.last()).drop_last() =~= kept);
        }
    }
}

/// There are no errors among the first `upto` positions exactly if the sell order of no
/// position among them that was due was refused or could not be sent.
proof fn lemma_no_sell_errors(
    orders: Seq<Order>,
    symbols: Seq<SymbolInfo>,
    outcomes: Seq<SellOutcome>,
    upto: nat,
)
    ensures
        sell_errors(orders, symbols, outcomes, upto) == 0 <==> forall|i: int|
            0 <= i < upto && due(#[trigger] orders[i], symbols) ==> !charged_to_account(
                outcomes[i],
            ),
    decreases upto,
{
    if upto > 0 {
        lemma_no_sell_errors(orders, symbols, outcomes, (upto - 1) as nat);
    }
}

/// A registry from which every order that was due has been retired and purged holds no
/// order that is due.
proof fn lemma_sold_orders_are_gone(
    orders: Seq<Order>,
    symbols: Seq<SymbolInfo>,
    outcomes: Seq<SellOutcome>,
)
    requires
        clean(orders, symbols, outcomes),
    ensures
        forall|j: int|
            0 <= j < attempted(orders, symbols, outcomes).filter(is_alive()).len() ==> !due(
                #[trigger] attempted(orders, symbols, outcomes).filter(is_alive())[j],
                symbols,
            ),
{
    let tried = attempted(orders, symbols, outcomes);
    let later = tried.filter(is_alive());
    assert forall|j: int| 0 <= j < later.len() implies !due(#[trigger] later[j], symbols) by {
        tried.lemma_filter_pred(is_alive(), j);
        tried.lemma_filter_contains_rev(is_alive(), later[j]);
        let i = choose|i: int| 0 <= i < tried.len() && tried[i] == later[j];
        if due(orders[i], symbols) {
            assert(outcomes[i] == SellOutcome::Sold);
            assert(!tried[i].alive);
        }
    }
}

/// A settlement pass in which every position that was due is sold finishes a live
/// account: it counts as sold, it loses no health, and no position of a symbol of the
/// pass is left in the registry.
pub proof fn lemma_clean_pass_finishes(
    state: UserState,
    symbols: Seq<SymbolInfo>,
    outcomes: Seq<SellOutcome>,
)
    requires
        state.alive,
        clean(state.orders, symbols, outcomes),
    ensures
        state.settled(symbols, outcomes) == (UserState {
            all_sold: true,
            orders: attempted(state.orders, symbols, outcomes).filter(is_alive()),
            ..state
        }),
        state.settled(symbols, outcomes).finished(),
        forall|j: int|
            0 <= j < state.settled(symbols, outcomes).orders.len() ==> !due(
                #[trigger] state.settled(symbols, outcomes).orders[j],
                symbols,
            ),
{
    lemma_no_sell_errors(state.orders, symbols, outcomes, state.orders.len());
    lemma_sold_orders_are_gone(state.orders, symbols, outcomes);
}

/// A settlement pass deals with every position that is due. Whatever the venue answers,
/// the position is retired, or a failure is charged to it, or the position stays as it is
/// and a failure is charged to the account: no attempt leaves everything as it was. The
/// account loses one health for each position whose sell order was refused or could not
/// be sent, and no other.
pub proof fn lemma_every_due_order_is_dealt_with(
    state: UserState,
    symbols: Seq<SymbolInfo>,
    outcomes: Seq<SellOutcome>,
    i: int,
)
    requires
        state.inv(),
        state.alive,
        state.orders.len() <= usize::MAX,
        0 <= i < state.orders.len(),
        due(state.orders[i], symbols),
    ensures
        match outcomes[i] {
            SellOutcome::Sold => !attempted(state.orders, symbols, outcomes)[i].alive,
            SellOutcome::QueryFailed => attempted(state.orders, symbols, outcomes)[i].health
                == state.orders[i].health - 1,
            _ => attempted(state.orders, symbols, outcomes)[i] == state.orders[i]
                && state.settled(symbols, outcomes).health < state.health,
        },
        state.settled(symbols, outcomes).health == if state.health - sell_errors(
            state.orders,
            symbols,
            outcomes,
            state.orders.len(),
        ) < i8::MIN {
            i8::MIN as int
        } else {
            state.health - sell_errors(state.orders, symbols, outcomes, state.orders.len())
        },
{
    lemma_no_sell_errors(state.orders, symbols, outcomes, state.orders.len());
    lemma_sell_errors_prefix(state.orders, symbols, outcomes, outcomes, state.orders.len());
}

/// A live account that holds, after a settlement pass, a position of one of the symbols
/// of the pass is not finished: the pass returns `false`.
pub proof fn lemma_open_position_keeps_pass_unfinished(
    state: UserState,
    symbols: Seq<SymbolInfo>,
    outcomes: Seq<SellOutcome>,
    j: int,
)
    requires
        state.alive,
        state.settled(symbols, outcomes).alive,
        0 <= j < state.settled(symbols, outcomes).orders.len(),
        due(state.settled(symbols, outcomes).orders[j], symbols),
    ensures
        !state.settled(symbols, outcomes).finished(),
{
    let n = state.orders.len();
    lemma_no_sell_errors(state.orders, symbols, outcomes, n);
    if sell_errors(state.orders, symbols, outcomes, n) as usize == 0 && !unfinished(
        state.orders,
        symbols,
        outcomes,
        n,
    ) {
        assert(clean(state.orders, symbols, outcomes));
        lemma_sold_orders_are_gone(state.orders, symbols, outcomes);
    }
}

/// Within a cycle the account counts as sold for good: once a settlement pass has left
/// nothing to try again, every later pass over the same symbols leaves nothing either,
/// whatever the venue answers, as long as nothing is bought in between.
pub proof fn lemma_sold_stays_sold(
    state: UserState,
    symbols: Seq<SymbolInfo>,
    first: Seq<SellOutcome>,
    later: Seq<SellOutcome>,
)
    requires
        state.alive,
        state.settled(symbols, first).all_sold,
    ensures
        state.settled(symbols, first).settled(symbols, later).all_sold,
        state.settled(symbols, first).settled(symbols, later).orders == state.settled(
            symbols,
            first,
        ).orders,
        state.settled(symbols, first).settled(symbols, later).health == state.settled(
            symbols,
            first,
        ).health,
{
    let n = state.orders.len();
    lemma_no_sell_errors(state.orders, symbols, first, n);
    assert(clean(state.orders, symbols, first));
    lemma_sold_orders_are_gone(state.orders, symbols, first);
    let mid = state.settled(symbols, first);
    lemma_no_sell_errors(mid.orders, symbols, later, mid.orders.len());
    assert(attempted(mid.orders, symbols, later) =~= mid.orders);
    lemma_purge_fixpoint(attempted(state.orders, symbols, first));
}

/// Purging removes nothing from the budgets of a registry.
proof fn lemma_purge_keeps_budget(orders: Seq<Order>)
    ensures
        order_budget(orders.filter(is_alive())) == order_budget(orders),
    decreases orders.len(),
{
    reveal(Seq::filter);
    if orders.len() > 0 {
        lemma_purge_keeps_budget(orders.drop_last());
        let kept = orders.drop_last().filter(is_alive());
        if orders.last().alive {
            assert(kept.push(orders.last()).drop_last() =~= kept);
        }
    }
}

/// The attempts of a pass add nothing to the budgets of a registry, and a failed query
/// takes something from them.
proof fn lemma_attempts_spend_budget(
    orders: Seq<Order>,
    symbols: Seq<SymbolInfo>,
    outcomes: Seq<SellOutcome>,
    upto: int,
)
    requires
        0 <= upto <= orders.len(),
        forall|i: int| 0 <= i < orders.len() ==> ((#[trigger] orders[i]).alive ==> 0 < orders[i].health),
    ensures
        0 <= order_budget(attempted(orders, symbols, outcomes).take(upto)) <= order_budget(
            orders.take(upto),
        ),
        (exists|i: int|
            0 <= i < upto && due(#[trigger] orders[i], symbols) && outcomes[i]
                == SellOutcome::QueryFailed) ==> order_budget(
            attempted(orders, symbols, outcomes).take(upto),
        ) < order_budget(orders.take(upto)),
    decreases upto,
{
    let tried = attempted(orders, symbols, outcomes);
    if upto > 0 {
        lemma_attempts_spend_budget(orders, symbols, outcomes, upto - 1);
        assert(tried.take(upto).drop_last() =~= tried.take(upto - 1));
        assert(orders.take(upto).drop_last() =~= orders.take(upto - 1));
        assert(tried.take(upto).last() == tried[upto - 1]);
        assert(orders.take(upto).last() == orders[upto - 1]);
    }
}

/// The settlement loop ends. A settlement pass adds nothing to what is left of the
/// budgets of an account, and a pass after which the account is not finished takes
/// something from them: so an account can make no more unfinished passes in a row than
/// it has budget left.
pub proof fn lemma_unfinished_pass_spends_budget(
    state: UserState,
    symbols: Seq<SymbolInfo>,
    outcomes: Seq<SellOutcome>,
)
    requires
        state.inv(),
        state.orders.len() <= usize::MAX,
    ensures
        0 <= budget(state.settled(symbols, outcomes)) <= budget(state),
        !state.settled(symbols, outcomes).finished() ==> budget(
            state.settled(symbols, outcomes),
        ) < budget(state),
{
    let n = state.orders.len() as int;
    let tried = attempted(state.orders, symbols, outcomes);
    lemma_attempts_spend_budget(state.orders, symbols, outcomes, n);
    assert(tried.take(n) =~= tried);
    assert(state.orders.take(n) =~= state.orders);
    lemma_purge_keeps_budget(tried);
    lemma_purge_keeps_budget(state.orders);
    lemma_no_sell_errors(state.orders, symbols, outcomes, n as nat);
    lemma_sell_errors_prefix(state.orders, symbols, outcomes, outcomes, n as nat);
    let after = state.settled(symbols, outcomes);
    if state.alive && !after.finished() {
        let errors = sell_errors(state.orders, symbols, outcomes, n as nat);
        if errors == 0 {
            assert(unfinished(state.orders, symbols, outcomes, n as nat));
            let i = choose|i: int|
                0 <= i < n && due(#[trigger] state.orders[i], symbols) && outcomes[i]
                    != SellOutcome::Sold;
            assert(!charged_to_account(outcomes[i]));
            assert(due(state.orders[i], symbols) && outcomes[i] == SellOutcome::QueryFailed);
        }
    }
}

} // verus!
