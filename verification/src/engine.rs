//! The engine as its callers see it: six texts in, five figures or one
//! error out.
//!
//! The texts are read in a fixed order, and the first that is not a number
//! is reported. Only when all six are numbers is the brokerage percentage
//! looked at.

use crate::decimal::{number_of, parse_number};
use crate::pricing::{
    evaluate, evaluation_of, result_value, CalculationError, Field, Figures, Inputs, Outcome,
    Terms,
};
use vstd::prelude::*;
use vstd::string::StringExecFns;

verus! {

/// The six quantities of a position, as written.
pub struct Texts {
    pub current_price: Seq<char>,
    pub num_shares: Seq<char>,
    pub desired_profit_pct: Seq<char>,
    pub desired_loss_pct: Seq<char>,
    pub brokerage_constant: Seq<char>,
    pub brokerage_pct: Seq<char>,
}

/// The text of `field`.
pub open spec fn text_of(texts: Texts, field: Field) -> Seq<char> {
    match field {
        Field::CurrentPrice => texts.current_price,
        Field::NumShares => texts.num_shares,
        Field::DesiredProfitPct => texts.desired_profit_pct,
        Field::DesiredLossPct => texts.desired_loss_pct,
        Field::BrokerageConstant => texts.brokerage_constant,
        Field::BrokeragePct => texts.brokerage_pct,
    }
}

/// The place of `field` in the order in which the texts are read.
pub open spec fn place_of(field: Field) -> int {
    match field {
        Field::CurrentPrice => 0,
        Field::NumShares => 1,
        Field::DesiredProfitPct => 2,
        Field::DesiredLossPct => 3,
        Field::BrokerageConstant => 4,
        Field::BrokeragePct => 5,
    }
}

/// Whether the text of `field` is a number.
pub open spec fn is_number(texts: Texts, field: Field) -> bool {
    number_of(text_of(texts, field)) is Some
}

/// The number written for `field`.
pub open spec fn number_at(texts: Texts, field: Field) -> real {
    number_of(text_of(texts, field))->0
}

/// The first field, in reading order, whose text is not a number.
pub open spec fn first_invalid(texts: Texts) -> Option<Field> {
    if !is_number(texts, Field::CurrentPrice) {
        Some(Field::CurrentPrice)
    } else if !is_number(texts, Field::NumShares) {
        Some(Field::NumShares)
    } else if !is_number(texts, Field::DesiredProfitPct) {
        Some(Field::DesiredProfitPct)
    } else if !is_number(texts, Field::DesiredLossPct) {
        Some(Field::DesiredLossPct)
    } else if !is_number(texts, Field::BrokerageConstant) {
        Some(Field::BrokerageConstant)
    } else if !is_number(texts, Field::BrokeragePct) {
        Some(Field::BrokeragePct)
    } else {
        None
    }
}

/// The quantities written in `texts`, or the first text that is not a
/// number.
pub open spec fn terms_of(texts: Texts) -> Result<Terms, CalculationError> {
    match first_invalid(texts) {
        Some(field) => Err(CalculationError::InvalidNumber { field }),
        None => Ok(
            Terms {
                current_price: number_at(texts, Field::CurrentPrice),
                num_shares: number_at(texts, Field::NumShares),
                desired_profit_pct: number_at(texts, Field::DesiredProfitPct),
                desired_loss_pct: number_at(texts, Field::DesiredLossPct),
                brokerage_constant: number_at(texts, Field::BrokerageConstant),
                brokerage_pct: number_at(texts, Field::BrokeragePct),
            },
        ),
    }
}

/// The result for the position written in `texts`.
pub open spec fn computation_of(texts: Texts) -> Result<Figures, CalculationError> {
    match terms_of(texts) {
        Ok(terms) => evaluation_of(terms),
        Err(e) => Err(e),
    }
}

/// The values of quantities that were read, or the error.
pub open spec fn inputs_value(r: Result<Inputs, CalculationError>) -> Result<
    Terms,
    CalculationError,
> {
    match r {
        Ok(inputs) => Ok(inputs@),
        Err(e) => Err(e),
    }
}

/// The name of `field` in messages.
pub open spec fn label_of(field: Field) -> Seq<char> {
    match field {
        Field::CurrentPrice => "Current Price"@,
        Field::NumShares => "Number of Shares"@,
        Field::DesiredProfitPct => "Profit %"@,
        Field::DesiredLossPct => "Loss %"@,
        Field::BrokerageConstant => "Brokerage Constant"@,
        Field::BrokeragePct => "Brokerage Percentage"@,
    }
}

/// The message for `error`.
pub open spec fn message_of(error: CalculationError) -> Seq<char> {
    match error {
        CalculationError::InvalidNumber { field } => "Invalid numeric value for "@ + label_of(
            field,
        ),
        CalculationError::NegativeBrokeragePercentage => "Brokerage percentage cannot be negative"@,
        CalculationError::BrokeragePercentageIsHundred => "Brokerage percentage cannot be 100%"@,
    }
}

impl Field {
    /// The name of the field in messages.
    pub fn label(&self) -> (r: &'static str)
        ensures
            r@ == label_of(*self),
    {
        match self {
            Field::CurrentPrice => "Current Price",
            Field::NumShares => "Number of Shares",
            Field::DesiredProfitPct => "Profit %",
            Field::DesiredLossPct => "Loss %",
            Field::BrokerageConstant => "Brokerage Constant",
            Field::BrokeragePct => "Brokerage Percentage",
        }
    }
}

impl CalculationError {
    /// The message that tells a user what to correct.
    pub fn message(&self) -> (r: String)
        ensures
            r@ == message_of(*self),
    {
        match self {
            CalculationError::InvalidNumber { field } => String::from_str(
                "Invalid numeric value for ",
            ).concat(field.label()),
            CalculationError::NegativeBrokeragePercentage => String::from_str(
                "Brokerage percentage cannot be negative",
            ),
            CalculationError::BrokeragePercentageIsHundred => String::from_str(
                "Brokerage percentage cannot be 100%",
            ),
        }
    }
}

/// The texts of a position, put together.
pub open spec fn texts(
    current_price: Seq<char>,
    num_shares: Seq<char>,
    desired_profit_pct: Seq<char>,
    desired_loss_pct: Seq<char>,
    brokerage_constant: Seq<char>,
    brokerage_pct: Seq<char>,
) -> Texts {
    Texts {
        current_price,
        num_shares,
        desired_profit_pct,
        desired_loss_pct,
        brokerage_constant,
        brokerage_pct,
    }
}

/// Reads the six quantities of a position, in this order; the first text
/// that is not a number is the error.
pub fn parse_inputs(
    current_price: &str,
    num_shares: &str,
    desired_profit_pct: &str,
    desired_loss_pct: &str,
    brokerage_constant: &str,
    brokerage_pct: &str,
) -> (r: Result<Inputs, CalculationError>)
    ensures
        inputs_value(r) == terms_of(
            texts(
                current_price@,
                num_shares@,
                desired_profit_pct@,
                desired_loss_pct@,
                brokerage_constant@,
                brokerage_pct@,
            ),
        ),
{
    let current_price = match parse_number(current_price) {
        Some(v) => v,
        None => {
            return Err(CalculationError::InvalidNumber { field: Field::CurrentPrice });
        },
    };
    let num_shares = match parse_number(num_shares) {
        Some(v) => v,
        None => {
            return Err(CalculationError::InvalidNumber { field: Field::NumShares });
        },
    };
    let desired_profit_pct = match parse_number(desired_profit_pct) {
        Some(v) => v,
        None => {
            return Err(CalculationError::InvalidNumber { field: Field::DesiredProfitPct });
        },
    };
    let desired_loss_pct = match parse_number(desired_loss_pct) {
        Some(v) => v,
        None => {
            return Err(CalculationError::InvalidNumber { field: Field::DesiredLossPct });
        },
    };
    let brokerage_constant = match parse_number(brokerage_constant) {
        Some(v) => v,
        None => {
            return Err(CalculationError::InvalidNumber { field: Field::BrokerageConstant });
        },
    };
    let brokerage_pct = match parse_number(brokerage_pct) {
        Some(v) => v,
        None => {
            return Err(CalculationError::InvalidNumber { field: Field::BrokeragePct });
        },
    };
    Ok(
        Inputs {
            current_price,
            num_shares,
            desired_profit_pct,
            desired_loss_pct,
            brokerage_constant,
            brokerage_pct,
        },
    )
}

/// The figures of the position written in the six texts, or the reason why
/// it has none.
pub fn compute(
    current_price: &str,
    num_shares: &str,
    desired_profit_pct: &str,
    desired_loss_pct: &str,
    brokerage_constant: &str,
    brokerage_pct: &str,
) -> (r: Result<Outcome, CalculationError>)
    ensures
        result_value(r) == computation_of(
            texts(
                current_price@,
                num_shares@,
                desired_profit_pct@,
                desired_loss_pct@,
                brokerage_constant@,
                brokerage_pct@,
            ),
        ),
{
    match parse_inputs(
        current_price,
        num_shares,
        desired_profit_pct,
        desired_loss_pct,
        brokerage_constant,
        brokerage_pct,
    ) {
        Ok(inputs) => evaluate(&inputs),
        Err(e) => Err(e),
    }
}

} // verus!
