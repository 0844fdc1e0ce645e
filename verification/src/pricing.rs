//! Target sale prices for a stock position under a two-part brokerage
//! schedule.
//!
//! A trade is charged either a flat fee or a percentage of the price. Given
//! the purchase price, the share count, a desired profit and a desired loss
//! (both in percent) and the two parts of the schedule, the engine finds the
//! sale price that reaches each target and the total gained or lost there.
//!
//! The model is stated over real numbers ([`Terms`], [`Figures`]); the
//! executable code computes the same values exactly, over [`Rational`].

use crate::rational::Rational;
use vstd::prelude::*;

verus! {

/// One of the six quantities that describe a position.
#[derive(Clone, Copy, Debug, PartialEq, Eq, Structural)]
pub enum Field {
    CurrentPrice,
    NumShares,
    DesiredProfitPct,
    DesiredLossPct,
    BrokerageConstant,
    BrokeragePct,
}

/// Why no figures can be given for a position.
#[derive(Clone, Copy, Debug, PartialEq, Eq, Structural)]
pub enum CalculationError {
    /// The text of `field` is not a number.
    InvalidNumber { field: Field },
    /// The brokerage percentage is below zero.
    NegativeBrokeragePercentage,
    /// The brokerage percentage is 100, which leaves nothing of a sale.
    BrokeragePercentageIsHundred,
}

/// The fee schedule that a sale is charged under.
#[derive(Clone, Copy, Debug, PartialEq, Eq, Structural)]
pub enum FeeRule {
    Percentage,
    Constant,
}

/// The six quantities of a position, as real numbers. Percentages are whole
/// numbers: 10 stands for ten percent.
pub struct Terms {
    pub current_price: real,
    pub num_shares: real,
    pub desired_profit_pct: real,
    pub desired_loss_pct: real,
    pub brokerage_constant: real,
    pub brokerage_pct: real,
}

/// A sale price with the fee charged on that sale, as real numbers.
pub struct SaleValue {
    pub price: real,
    pub brokerage: real,
    pub rule: FeeRule,
}

/// What the engine reports of a position, as real numbers.
pub struct Figures {
    pub total_invested: real,
    pub profit_price: real,
    pub total_profit: real,
    pub loss_price: real,
    pub total_loss: real,
}

/// The fee on the purchase, per share: nothing where no percentage is
/// charged, the flat fee where the price lies above the price at which the
/// two fees meet, the percentage of the price otherwise.
pub open spec fn initial_brokerage_of(price: real, constant: real, pct: real) -> real {
    if pct == 0real {
        0real
    } else if price > (constant * 100real) / pct {
        constant
    } else {
        (pct * price) / 100real
    }
}

/// The sale price that reaches `target_pct` when the sale is charged the
/// percentage fee.
pub open spec fn percentage_fee_price(price: real, target_pct: real, initial: real, pct: real) -> real {
    ((100real + target_pct) / (100real - pct)) * price + (100real * initial) / (100real - pct)
}

/// The sale price that reaches `target_pct` when the sale is charged the
/// flat fee.
pub open spec fn constant_fee_price(
    price: real,
    target_pct: real,
    initial: real,
    constant: real,
) -> real {
    ((100real + target_pct) / 100real) * price + initial + constant
}

/// The sale under the percentage fee that reaches `target_pct`.
pub open spec fn percentage_fee_sale(t: Terms, target_pct: real) -> SaleValue {
    let initial = initial_brokerage_of(t.current_price, t.brokerage_constant, t.brokerage_pct);
    let price = percentage_fee_price(t.current_price, target_pct, initial, t.brokerage_pct);
    SaleValue { price, brokerage: (t.brokerage_pct / 100real) * price, rule: FeeRule::Percentage }
}

/// The sale under the flat fee that reaches `target_pct`.
pub open spec fn constant_fee_sale(t: Terms, target_pct: real) -> SaleValue {
    let initial = initial_brokerage_of(t.current_price, t.brokerage_constant, t.brokerage_pct);
    let price = constant_fee_price(t.current_price, target_pct, initial, t.brokerage_constant);
    SaleValue { price, brokerage: t.brokerage_constant, rule: FeeRule::Constant }
}

/// Of the two candidate sales the one with the lower price; the percentage
/// fee where the prices are equal.
pub open spec fn cheaper_of_value(percentage: SaleValue, constant: SaleValue) -> SaleValue {
    if percentage.price > constant.price {
        constant
    } else {
        percentage
    }
}

/// The sale that reaches `target_pct`: a profit where it is positive, a loss
/// where it is negative.
pub open spec fn sale_for(t: Terms, target_pct: real) -> SaleValue {
    cheaper_of_value(percentage_fee_sale(t, target_pct), constant_fee_sale(t, target_pct))
}

/// What is left of a sale, per share, after the purchase price and both fees.
pub open spec fn net_per_share(t: Terms, sale: SaleValue) -> real {
    sale.price - t.current_price - initial_brokerage_of(
        t.current_price,
        t.brokerage_constant,
        t.brokerage_pct,
    ) - sale.brokerage
}

/// The figures of a position whose brokerage percentage is not 100.
pub open spec fn figures_of(t: Terms) -> Figures {
    let profit = sale_for(t, t.desired_profit_pct);
    let loss = sale_for(t, -t.desired_loss_pct);
    Figures {
        total_invested: t.current_price * t.num_shares,
        profit_price: profit.price,
        total_profit: t.num_shares * net_per_share(t, profit),
        loss_price: loss.price,
        total_loss: t.num_shares * net_per_share(t, loss),
    }
}

/// The result for a position: a negative brokerage percentage is rejected
/// first, then one of 100; every other position has figures.
pub open spec fn evaluation_of(t: Terms) -> Result<Figures, CalculationError> {
    if t.brokerage_pct < 0real {
        Err(CalculationError::NegativeBrokeragePercentage)
    } else if 100real - t.brokerage_pct == 0real {
        Err(CalculationError::BrokeragePercentageIsHundred)
    } else {
        Ok(figures_of(t))
    }
}

/// The six quantities of a position.
#[derive(Debug)]
pub struct Inputs {
    pub current_price: Rational,
    pub num_shares: Rational,
    pub desired_profit_pct: Rational,
    pub desired_loss_pct: Rational,
    pub brokerage_constant: Rational,
    pub brokerage_pct: Rational,
}

impl View for Inputs {
    type V = Terms;

    open spec fn view(&self) -> Terms {
        Terms {
            current_price: self.current_price@,
            num_shares: self.num_shares@,
            desired_profit_pct: self.desired_profit_pct@,
            desired_loss_pct: self.desired_loss_pct@,
            brokerage_constant: self.brokerage_constant@,
            brokerage_pct: self.brokerage_pct@,
        }
    }
}

/// A sale price with the fee charged on that sale and the schedule it
/// comes from.
#[derive(Debug)]
pub struct Sale {
    pub price: Rational,
    pub brokerage: Rational,
    pub rule: FeeRule,
}

impl View for Sale {
    type V = SaleValue;

    open spec fn view(&self) -> SaleValue {
        SaleValue { price: self.price@, brokerage: self.brokerage@, rule: self.rule }
    }
}

/// What the engine reports of a position.
#[derive(Debug)]
pub struct Outcome {
    pub total_invested: Rational,
    pub profit_price: Rational,
    pub total_profit: Rational,
    pub loss_price: Rational,
    pub total_loss: Rational,
}

impl View for Outcome {
    type V = Figures;

    open spec fn view(&self) -> Figures {
        Figures {
            total_invested: self.total_invested@,
            profit_price: self.profit_price@,
            total_profit: self.total_profit@,
            loss_price: self.loss_price@,
            total_loss: self.total_loss@,
        }
    }
}

/// The values of a result.
pub open spec fn result_value(r: Result<Outcome, CalculationError>) -> Result<
    Figures,
    CalculationError,
> {
    match r {
        Ok(outcome) => Ok(outcome@),
        Err(e) => Err(e),
    }
}

/// The fee on the purchase, per share.
pub fn initial_brokerage(price: &Rational, constant: &Rational, pct: &Rational) -> (r: Rational)
    ensures
        r@ == initial_brokerage_of(price@, constant@, pct@),
{
    let hundred = Rational::from_i64(100);
    if pct.is_zero() {
        Rational::from_i64(0)
    } else {
        let threshold = constant.times(&hundred).divided_by(pct);
        if price.gt(&threshold) {
            constant.clone()
        } else {
            pct.times(price).divided_by(&hundred)
        }
    }
}

/// The sale under the percentage fee that reaches `target_pct`, for a
/// brokerage percentage other than 100.
pub fn sale_at_percentage_fee(inputs: &Inputs, target_pct: &Rational) -> (r: Sale)
    requires
        inputs@.brokerage_pct != 100real,
    ensures
        r@ == percentage_fee_sale(inputs@, target_pct@),
{
    let hundred = Rational::from_i64(100);
    let initial = initial_brokerage(
        &inputs.current_price,
        &inputs.brokerage_constant,
        &inputs.brokerage_pct,
    );
    let kept = hundred.minus(&inputs.brokerage_pct);
    let price = hundred.plus(target_pct).divided_by(&kept).times(&inputs.current_price).plus(
        &hundred.times(&initial).divided_by(&kept),
    );
    let brokerage = inputs.brokerage_pct.divided_by(&hundred).times(&price);
    Sale { price, brokerage, rule: FeeRule::Percentage }
}

/// The sale under the flat fee that reaches `target_pct`.
pub fn sale_at_constant_fee(inputs: &Inputs, target_pct: &Rational) -> (r: Sale)
    ensures
        r@ == constant_fee_sale(inputs@, target_pct@),
{
    let hundred = Rational::from_i64(100);
    let initial = initial_brokerage(
        &inputs.current_price,
        &inputs.brokerage_constant,
        &inputs.brokerage_pct,
    );
    let price = hundred.plus(target_pct).divided_by(&hundred).times(&inputs.current_price).plus(
        &initial,
    ).plus(&inputs.brokerage_constant);
    Sale { price, brokerage: inputs.brokerage_constant.clone(), rule: FeeRule::Constant }
}

/// Of the two candidate sales the one with the lower price; the percentage
/// fee where the prices are equal.
pub fn cheaper_of(percentage: Sale, constant: Sale) -> (r: Sale)
    ensures
        r@ == cheaper_of_value(percentage@, constant@),
{
    if percentage.price.gt(&constant.price) {
        constant
    } else {
        percentage
    }
}

/// The sale that reaches `target_pct`, for a brokerage percentage other than
/// 100.
pub fn sale_for_target(inputs: &Inputs, target_pct: &Rational) -> (r: Sale)
    requires
        inputs@.brokerage_pct != 100real,
    ensures
        r@ == sale_for(inputs@, target_pct@),
{
    cheaper_of(sale_at_percentage_fee(inputs, target_pct), sale_at_constant_fee(inputs, target_pct))
}

/// The total gained or lost at `sale`: what is left per share, times the
/// share count.
pub fn total_at(inputs: &Inputs, sale: &Sale) -> (r: Rational)
    ensures
        r@ == inputs@.num_shares * net_per_share(inputs@, sale@),
{
    let initial = initial_brokerage(
        &inputs.current_price,
        &inputs.brokerage_constant,
        &inputs.brokerage_pct,
    );
    let per_share = sale.price.minus(&inputs.current_price).minus(&initial).minus(&sale.brokerage);
    inputs.num_shares.times(&per_share)
}

/// The figures of a position, or the reason why it has none.
pub fn evaluate(inputs: &Inputs) -> (r: Result<Outcome, CalculationError>)
    ensures
        result_value(r) == evaluation_of(inputs@),
{
    if inputs.brokerage_pct.is_negative() {
        return Err(CalculationError::NegativeBrokeragePercentage);
    }
    let hundred = Rational::from_i64(100);
    if hundred.minus(&inputs.brokerage_pct).is_zero() {
        return Err(CalculationError::BrokeragePercentageIsHundred);
    }
    let total_invested = inputs.current_price.times(&inputs.num_shares);
    let profit = sale_for_target(inputs, &inputs.desired_profit_pct);
    let loss = sale_for_target(inputs, &inputs.desired_loss_pct.negated());
    let total_profit = total_at(inputs, &profit);
    let total_loss = total_at(inputs, &loss);
    Ok(
        Outcome {
            total_invested,
            profit_price: profit.price,
            total_profit,
            loss_price: loss.price,
            total_loss,
        },
    )
}

} // verus!
