//! What holds of every position: theorems about the model of the engine.
//!
//! Each is stated over the spec functions that the contracts of
//! [`compute`](crate::engine::compute) and [`evaluate`](crate::pricing::evaluate)
//! use, so it holds of whatever those functions return.

use crate::engine::{
    computation_of, first_invalid, is_number, number_at, place_of, terms_of, Texts,
};
use crate::pricing::{
    constant_fee_sale, evaluation_of, figures_of, initial_brokerage_of, net_per_share,
    percentage_fee_sale, result_value, sale_for, CalculationError, Field, Outcome, Terms,
};
use vstd::prelude::*;

verus! {

/// `t` with another share count.
pub open spec fn with_shares(t: Terms, num_shares: real) -> Terms {
    Terms {
        current_price: t.current_price,
        num_shares,
        desired_profit_pct: t.desired_profit_pct,
        desired_loss_pct: t.desired_loss_pct,
        brokerage_constant: t.brokerage_constant,
        brokerage_pct: t.brokerage_pct,
    }
}

/// The engine is a function of its six texts: two results for the same
/// texts hold the same values, be they figures or an error.
pub proof fn law_same_texts_same_result(
    texts: Texts,
    first: Result<Outcome, CalculationError>,
    second: Result<Outcome, CalculationError>,
)
    requires
        result_value(first) == computation_of(texts),
        result_value(second) == computation_of(texts),
    ensures
        result_value(first) == result_value(second),
{
}

/// A text that is not a number is reported before any number is looked at:
/// where `field` is the first such text in reading order, the result is
/// `InvalidNumber` for that field, whatever the other texts hold.
pub proof fn law_invalid_text_reported_first(texts: Texts, field: Field)
    requires
        !is_number(texts, field),
        forall|earlier: Field| place_of(earlier) < place_of(field) ==> is_number(texts, earlier),
    ensures
        first_invalid(texts) == Some(field),
        computation_of(texts) == Err::<crate::pricing::Figures, CalculationError>(
            CalculationError::InvalidNumber { field },
        ),
{
    assert(place_of(Field::CurrentPrice) == 0);
    assert(place_of(Field::NumShares) == 1);
    assert(place_of(Field::DesiredProfitPct) == 2);
    assert(place_of(Field::DesiredLossPct) == 3);
    assert(place_of(Field::BrokerageConstant) == 4);
    assert(place_of(Field::BrokeragePct) == 5);
}

/// The brokerage percentage is looked at only when all six texts are
/// numbers: a range error means that none of them was malformed.
pub proof fn law_range_errors_need_six_numbers(texts: Texts)
    requires
        computation_of(texts) is Err,
        !(computation_of(texts)->Err_0 is InvalidNumber),
    ensures
        forall|field: Field| is_number(texts, field),
{
    assert forall|field: Field| is_number(texts, field) by {
        match field {
            Field::CurrentPrice => {},
            Field::NumShares => {},
            Field::DesiredProfitPct => {},
            Field::DesiredLossPct => {},
            Field::BrokerageConstant => {},
            Field::BrokeragePct => {},
        }
    }
}

/// Figures are given exactly where all six texts are numbers and the
/// brokerage percentage is neither below zero nor 100; nothing else is asked
/// of a position.
pub proof fn law_figures_exactly_on_valid_input(texts: Texts)
    ensures
        computation_of(texts) is Ok <==> {
            &&& forall|field: Field| is_number(texts, field)
            &&& number_at(texts, Field::BrokeragePct) >= 0real
            &&& number_at(texts, Field::BrokeragePct) != 100real
        },
{
    if first_invalid(texts) is None {
        assert forall|field: Field| is_number(texts, field) by {
            match field {
                Field::CurrentPrice => {},
                Field::NumShares => {},
                Field::DesiredProfitPct => {},
                Field::DesiredLossPct => {},
                Field::BrokerageConstant => {},
                Field::BrokeragePct => {},
            }
        }
        assert(terms_of(texts) is Ok);
    } else {
        assert(!is_number(texts, first_invalid(texts)->0));
    }
}

/// A brokerage percentage of 100 is rejected, whatever the other five
/// quantities are.
pub proof fn law_hundred_percent_rejected(t: Terms)
    requires
        t.brokerage_pct == 100real,
    ensures
        evaluation_of(t) == Err::<crate::pricing::Figures, CalculationError>(
            CalculationError::BrokeragePercentageIsHundred,
        ),
{
}

/// Six numbers of which the brokerage percentage is 100 give
/// `BrokeragePercentageIsHundred`.
pub proof fn law_hundred_percent_rejected_in_text(texts: Texts)
    requires
        first_invalid(texts) is None,
        number_at(texts, Field::BrokeragePct) == 100real,
    ensures
        computation_of(texts) == Err::<crate::pricing::Figures, CalculationError>(
            CalculationError::BrokeragePercentageIsHundred,
        ),
{
    assert(terms_of(texts) is Ok);
    law_hundred_percent_rejected(terms_of(texts)->Ok_0);
}

/// A brokerage percentage below zero is rejected, whatever the other five
/// quantities are.
pub proof fn law_negative_percentage_rejected(t: Terms)
    requires
        t.brokerage_pct < 0real,
    ensures
        evaluation_of(t) == Err::<crate::pricing::Figures, CalculationError>(
            CalculationError::NegativeBrokeragePercentage,
        ),
{
}

/// Every position with a brokerage percentage from 0 up to, but not, 100,
/// or above 100, has figures.
pub proof fn law_other_percentages_accepted(t: Terms)
    requires
        t.brokerage_pct >= 0real,
        t.brokerage_pct != 100real,
    ensures
        evaluation_of(t) == Ok::<crate::pricing::Figures, CalculationError>(figures_of(t)),
{
}

/// The sale chosen for a target is the cheaper of the two candidates, and
/// its fee is that of the schedule it comes from.
pub proof fn law_cheaper_sale_is_chosen(t: Terms, target_pct: real)
    ensures
        sale_for(t, target_pct).price <= percentage_fee_sale(t, target_pct).price,
        sale_for(t, target_pct).price <= constant_fee_sale(t, target_pct).price,
        sale_for(t, target_pct) == percentage_fee_sale(t, target_pct) || sale_for(t, target_pct)
            == constant_fee_sale(t, target_pct),
{
}

/// With the price, the targets and the fees fixed, the totals are linear in
/// the share count, and the two sale prices do not depend on it.
pub proof fn law_totals_scale_with_shares(t: Terms, factor: real)
    ensures
        figures_of(with_shares(t, factor * t.num_shares)).total_profit == factor * figures_of(
            t,
        ).total_profit,
        figures_of(with_shares(t, factor * t.num_shares)).total_loss == factor * figures_of(
            t,
        ).total_loss,
        figures_of(with_shares(t, factor * t.num_shares)).total_invested == factor * figures_of(
            t,
        ).total_invested,
        figures_of(with_shares(t, factor * t.num_shares)).profit_price == figures_of(
            t,
        ).profit_price,
        figures_of(with_shares(t, factor * t.num_shares)).loss_price == figures_of(t).loss_price,
{
    let scaled = with_shares(t, factor * t.num_shares);
    let profit = sale_for(t, t.desired_profit_pct);
    let loss = sale_for(t, -t.desired_loss_pct);
    assert(sale_for(scaled, scaled.desired_profit_pct) == profit);
    assert(sale_for(scaled, -scaled.desired_loss_pct) == loss);
    let n = t.num_shares;
    let p = t.current_price;
    let gain = net_per_share(t, profit);
    let drop = net_per_share(t, loss);
    assert(net_per_share(scaled, profit) == gain);
    assert(net_per_share(scaled, loss) == drop);
    assert((factor * n) * gain == factor * (n * gain)) by (nonlinear_arith);
    assert((factor * n) * drop == factor * (n * drop)) by (nonlinear_arith);
    assert(p * (factor * n) == factor * (p * n)) by (nonlinear_arith);
}

/// The totals are what is left of the chosen sale, per share, after the
/// purchase price, the fee on the purchase and the fee on the sale, times
/// the share count.
pub proof fn law_totals_are_net_of_fees(t: Terms)
    ensures
        evaluation_of(t) matches Ok(f) ==> {
            let initial = initial_brokerage_of(
                t.current_price,
                t.brokerage_constant,
                t.brokerage_pct,
            );
            let profit = sale_for(t, t.desired_profit_pct);
            let loss = sale_for(t, -t.desired_loss_pct);
            &&& f.profit_price == profit.price
            &&& f.loss_price == loss.price
            &&& (f.profit_price - t.current_price - initial - profit.brokerage) * t.num_shares
                == f.total_profit
            &&& (f.loss_price - t.current_price - initial - loss.brokerage) * t.num_shares
                == f.total_loss
        },
{
    let initial = initial_brokerage_of(t.current_price, t.brokerage_constant, t.brokerage_pct);
    let profit = sale_for(t, t.desired_profit_pct);
    let loss = sale_for(t, -t.desired_loss_pct);
    let n = t.num_shares;
    let gain = profit.price - t.current_price - initial - profit.brokerage;
    let drop = loss.price - t.current_price - initial - loss.brokerage;
    assert(gain * n == n * gain) by (nonlinear_arith);
    assert(drop * n == n * drop) by (nonlinear_arith);
}

/// Either candidate sale leaves, per share, exactly the target percentage
/// of the purchase price.
pub proof fn law_candidates_meet_target(t: Terms, target_pct: real)
    requires
        t.brokerage_pct != 100real,
    ensures
        net_per_share(t, percentage_fee_sale(t, target_pct)) == t.current_price * target_pct
            / 100real,
        net_per_share(t, constant_fee_sale(t, target_pct)) == t.current_price * target_pct
            / 100real,
{
    let p = t.current_price;
    let b = t.brokerage_pct;
    let c = t.brokerage_constant;
    let i = initial_brokerage_of(p, c, b);
    let kept = 100real - b;
    let sp = ((100real + target_pct) / kept) * p + (100real * i) / kept;
    assert(sp - p - i - (b / 100real) * sp == p * target_pct / 100real) by (nonlinear_arith)
        requires
            kept == 100real - b,
            kept != 0real,
            sp == ((100real + target_pct) / kept) * p + (100real * i) / kept,
    ;
    let sc = ((100real + target_pct) / 100real) * p + i + c;
    assert(sc - p - i - c == p * target_pct / 100real) by (nonlinear_arith)
        requires
            sc == ((100real + target_pct) / 100real) * p + i + c,
    ;
}

/// The figures reach the targets exactly: the total profit is the desired
/// percentage of what was invested, and the total loss is the desired
/// percentage of it, below zero.
pub proof fn law_targets_are_met(t: Terms)
    requires
        evaluation_of(t) is Ok,
    ensures
        figures_of(t).total_profit == t.num_shares * (t.current_price * t.desired_profit_pct
            / 100real),
        figures_of(t).total_loss == t.num_shares * (t.current_price * (-t.desired_loss_pct)
            / 100real),
{
    law_candidates_meet_target(t, t.desired_profit_pct);
    law_candidates_meet_target(t, -t.desired_loss_pct);
}

} // verus!
