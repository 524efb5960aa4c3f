//! Bitget UTA order identity and constraints: position mode, the
//! executable-product boundary and the position side an order names.

use vstd::prelude::*;
use crate::bitget_uta_config::BitgetUtaCategory;
use crate::error::{ErrorView, ExchangeError};
use crate::orders::{opposite_side, OrderSide};
use crate::text::{debug_quote, debug_quoted, push_str, str_eq};

verus! {

#[derive(Clone, Copy, Debug, PartialEq, Eq, Structural)]
pub enum BitgetPositionMode {
    OneWay,
    Hedge,
}

pub open spec fn position_mode_text(m: BitgetPositionMode) -> Seq<char> {
    match m {
        BitgetPositionMode::OneWay => "one_way_mode"@,
        BitgetPositionMode::Hedge => "hedge_mode"@,
    }
}

/// A validation failure as the order compiler reports it.
pub open spec fn validation_error_view(message: Seq<char>) -> ErrorView {
    ErrorView::Api { exchange: "bitget"@, code: "validation"@, message }
}

pub fn validation_error(message: String) -> (e: ExchangeError)
    ensures
        e@ == validation_error_view(message@),
{
    ExchangeError::Api { exchange: "bitget".to_owned(), code: "validation".to_owned(), message }
}

/// The message for a hold mode that is neither one-way nor hedge.
pub open spec fn unsupported_hold_mode(raw: Seq<char>) -> Seq<char> {
    "unsupported Bitget holdMode "@ + debug_quoted(raw)
}

impl BitgetPositionMode {
    /// Reads Bitget's `holdMode`.
    pub fn parse(raw: &str) -> (r: Result<Self, ExchangeError>)
        ensures
            match r {
                Ok(m) => position_mode_text(m) == raw@,
                Err(e) => raw@ != position_mode_text(BitgetPositionMode::OneWay) && raw@
                    != position_mode_text(BitgetPositionMode::Hedge) && e@
                    == validation_error_view(unsupported_hold_mode(raw@)),
            },
    {
        if str_eq(raw, "one_way_mode") {
            Ok(BitgetPositionMode::OneWay)
        } else if str_eq(raw, "hedge_mode") {
            Ok(BitgetPositionMode::Hedge)
        } else {
            let mut message = String::new();
            push_str(&mut message, "unsupported Bitget holdMode ");
            let quoted = debug_quote(raw);
            push_str(&mut message, quoted.as_str());
            Err(validation_error(message))
        }
    }

    /// The wire value of the mode.
    pub fn as_str(self) -> (r: &'static str)
        ensures
            r@ == position_mode_text(self),
    {
        match self {
            BitgetPositionMode::OneWay => "one_way_mode",
            BitgetPositionMode::Hedge => "hedge_mode",
        }
    }
}

/// The products on which orders may be placed.
pub open spec fn is_executable_category(c: BitgetUtaCategory) -> bool {
    c is UsdtFutures || c is UsdcFutures || c is Spot
}

/// Why an instrument may not take orders, in the order the checks run.
pub open spec fn execution_boundary_error(
    category: BitgetUtaCategory,
    native_symbol: Seq<char>,
    execution_supported: bool,
    trading: bool,
) -> Option<Seq<char>> {
    if !execution_supported {
        Some(native_symbol + " is observation-only: inverse/Reality sizing is not supported"@)
    } else if !is_executable_category(category) {
        Some(native_symbol + " category is not an executable UTA product"@)
    } else if !trading {
        Some(native_symbol + " is not online for execution"@)
    } else {
        None
    }
}

/// Refuses instruments that are observation-only, not an executable product,
/// or not listed for trading.
pub fn validate_execution_boundary(
    category: BitgetUtaCategory,
    native_symbol: &str,
    execution_supported: bool,
    trading: bool,
) -> (r: Result<(), ExchangeError>)
    ensures
        match r {
            Ok(()) => execution_boundary_error(
                category,
                native_symbol@,
                execution_supported,
                trading,
            ).is_none(),
            Err(e) => match execution_boundary_error(
                category,
                native_symbol@,
                execution_supported,
                trading,
            ) {
                Some(m) => e@ == validation_error_view(m),
                None => false,
            },
        },
{
    let mut message = String::new();
    push_str(&mut message, native_symbol);
    if !execution_supported {
        push_str(&mut message, " is observation-only: inverse/Reality sizing is not supported");
        return Err(validation_error(message));
    }
    let executable = match category {
        BitgetUtaCategory::UsdtFutures | BitgetUtaCategory::UsdcFutures
        | BitgetUtaCategory::Spot => true,
        BitgetUtaCategory::CoinFutures => false,
    };
    if !executable {
        push_str(&mut message, " category is not an executable UTA product");
        return Err(validation_error(message));
    }
    if !trading {
        push_str(&mut message, " is not online for execution");
        return Err(validation_error(message));
    }
    Ok(())
}

/// The hedge-mode position an order acts on: buying to open and selling to
/// close act on the long side, the other two on the short side.
pub open spec fn hedge_side_is_long(side: OrderSide, reduce_only: bool) -> bool {
    (side is Buy && !reduce_only) || (side is Sell && reduce_only)
}

/// In hedge mode a closing order acts on the side that the opposite opening
/// order opened: selling to close reaches the long side that buying opened,
/// and buying to close the short side that selling opened.
pub proof fn hedge_close_targets_opened_side(side: OrderSide)
    ensures
        hedge_side_is_long(side, true) == hedge_side_is_long(opposite_side(side), false),
        hedge_side_is_long(side, false) != hedge_side_is_long(side, true),
{
}

/// The two hold modes have distinct wire values, so the mode read back from
/// a mode's wire value is that mode.
pub proof fn hold_mode_text_identifies_mode(a: BitgetPositionMode, b: BitgetPositionMode)
    ensures
        position_mode_text(a) == position_mode_text(b) <==> a == b,
{
    reveal_strlit("one_way_mode");
    reveal_strlit("hedge_mode");
    assert("one_way_mode"@.len() != "hedge_mode"@.len());
}

/// A hold mode's wire value reads back, on the position lists, as that
/// mode.
pub proof fn hold_mode_text_reads_back(m: BitgetPositionMode)
    ensures
        crate::bitget_uta_private_data::hold_mode_of(position_mode_text(m)) == Some(
            match m {
                BitgetPositionMode::OneWay => crate::bitget_uta_private_data::BitgetHoldMode::OneWay,
                BitgetPositionMode::Hedge => crate::bitget_uta_private_data::BitgetHoldMode::Hedge,
            },
        ),
{
    reveal_strlit("one_way_mode");
    reveal_strlit("hedge_mode");
    assert(crate::text::lower("one_way_mode"@) =~= "one_way_mode"@);
    assert(crate::text::lower("hedge_mode"@) =~= "hedge_mode"@);
    crate::bitget_uta_private_data::position_words_name_their_mode_and_side(position_mode_text(m));
}

/// In hedge mode an opening order acts on the side it trades: buying opens
/// the long side and selling the short side.
pub proof fn hedge_opening_acts_on_its_own_side(side: OrderSide)
    ensures
        hedge_side_is_long(side, false) <==> side is Buy,
        hedge_side_is_long(side, true) <==> side is Sell,
{
}

/// The `posSide` and `reduceOnly` an order carries in a position mode: hedge
/// mode names the side and never sets reduce-only, one-way mode names no side
/// and passes reduce-only through.
pub fn position_fields(mode: BitgetPositionMode, side: OrderSide, reduce_only: bool) -> (r: (
    Option<&'static str>,
    bool,
))
    ensures
        mode is OneWay ==> r.0 is None && r.1 == reduce_only,
        mode is Hedge ==> !r.1 && r.0 is Some && (r.0->0@ == (if hedge_side_is_long(
            side,
            reduce_only,
        ) {
            "long"@
        } else {
            "short"@
        })),
{
    match mode {
        BitgetPositionMode::OneWay => (None, reduce_only),
        BitgetPositionMode::Hedge => {
            let long = match (side, reduce_only) {
                (OrderSide::Buy, false) | (OrderSide::Sell, true) => true,
                (OrderSide::Sell, false) | (OrderSide::Buy, true) => false,
            };
            (
                Some(
                    if long {
                        "long"
                    } else {
                        "short"
                    },
                ),
                false,
            )
        },
    }
}

} // verus!
