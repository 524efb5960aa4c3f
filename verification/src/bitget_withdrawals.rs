//! Bitget UTA withdrawal submission and finality evidence: what a request
//! must hold before it is sent, what the venue's acknowledgement must say,
//! and what a withdrawal record proves.
//!
//! Official contracts:
//! - <https://www.bitget.com/api-doc/uta/account/withdrawal>
//! - <https://www.bitget.com/api-doc/uta/account/withdrawal/Get-Withdrawal-Records>
//! - <https://www.bitget.com/api-doc/uta/account/Get-Account-Assets>

use vstd::prelude::*;
use crate::bitget_response::{
    empty_data_error, ensure_ok_result, list_envelope, object_envelope, parse_list_envelope,
    parse_object_envelope,
};
use crate::bitget_transfers::{
    canonical_network, canonical_network_id, decimal_text_value, decode_text_record,
    form_query, form_query_text, is_solana, non_empty, non_empty_text, opt_text, pairs_view,
    parse_rust_decimal, record_texts, solana_network, text_views, Amount,
};
use crate::json::{field, get_field, is_struct_shaped, json_document, str_views, struct_shaped, JsonValue};
use crate::error::{ErrorView, ExchangeError};
use crate::json_out::{push_text_member, quoted};
use crate::text::{
    int_text, int_to_string, push_char, eq_ignore_ascii_case, eq_ignore_case, parse_u64, parse_u64_text, push_str, str_eq, to_upper,
    trim, trimmed, upper,
};

verus! {

pub const WITHDRAW_PATH: &'static str = "/api/v3/account/withdrawal";
pub const WITHDRAW_HISTORY_PATH: &'static str = "/api/v3/account/withdrawal-records";
pub const ACCOUNT_ASSETS_PATH: &'static str = "/api/v3/account/assets";
/// How far before the submission time the records are searched.
pub const WITHDRAW_HISTORY_CLOCK_SKEW_MS: i64 = 300000;

#[derive(Debug, Clone, Copy, PartialEq, Eq, Structural)]
pub enum WithdrawalWalletType {
    Spot,
    Funding,
}

#[derive(Debug, Clone, Copy, PartialEq, Eq, Structural)]
pub enum WithdrawalStatus {
    Pending,
    Completed,
    Failed,
}

/// A withdrawal to submit.
#[derive(Debug, Clone)]
pub struct WithdrawalSubmitRequest {
    pub venue: String,
    pub currency: String,
    pub network: String,
    pub address: String,
    pub tag: Option<String>,
    pub amount: Amount,
    pub client_withdrawal_id: String,
    pub wallet_type: WithdrawalWalletType,
    pub max_fee: Option<Amount>,
}

/// A submitted withdrawal to look up.
#[derive(Debug, Clone)]
pub struct WithdrawalStatusRequest {
    pub venue: String,
    pub currency: String,
    pub network: String,
    pub address: String,
    pub client_withdrawal_id: String,
    pub tag: Option<String>,
    pub provider_withdrawal_id: Option<String>,
    pub submitted_at_ms: i64,
}

/// One row of the venue's withdrawal records.
#[derive(Debug, Clone)]
pub struct WithdrawHistoryRow {
    pub order_id: String,
    pub client_oid: String,
    pub record_id: String,
    pub coin: String,
    pub operation_type: String,
    pub dest: String,
    pub size: String,
    pub status: String,
    pub to_address: String,
    pub chain: String,
    pub fee: String,
    pub confirm: String,
}

/// What the venue's records show of a withdrawal.
#[derive(Debug, Clone)]
pub struct WithdrawalStatusEvidence {
    pub venue: String,
    pub provider_withdrawal_id: String,
    pub client_withdrawal_id: String,
    pub currency: String,
    pub network: String,
    pub address: String,
    pub amount: Amount,
    pub transaction_fee: Amount,
    pub status: WithdrawalStatus,
    pub transaction_id: Option<String>,
    pub confirmations: Option<u64>,
    pub checked_at_ms: i64,
    pub source_url: String,
    pub problem: Option<String>,
}

pub ghost struct WithdrawalEvidenceView {
    pub venue: Seq<char>,
    pub provider_withdrawal_id: Seq<char>,
    pub client_withdrawal_id: Seq<char>,
    pub currency: Seq<char>,
    pub network: Seq<char>,
    pub address: Seq<char>,
    pub amount: Amount,
    pub transaction_fee: Amount,
    pub status: WithdrawalStatus,
    pub transaction_id: Option<Seq<char>>,
    pub confirmations: Option<u64>,
    pub checked_at_ms: i64,
    pub source_url: Seq<char>,
    pub problem: Option<Seq<char>>,
}

impl View for WithdrawalStatusEvidence {
    type V = WithdrawalEvidenceView;

    open spec fn view(&self) -> WithdrawalEvidenceView {
        WithdrawalEvidenceView {
            venue: self.venue@,
            provider_withdrawal_id: self.provider_withdrawal_id@,
            client_withdrawal_id: self.client_withdrawal_id@,
            currency: self.currency@,
            network: self.network@,
            address: self.address@,
            amount: self.amount,
            transaction_fee: self.transaction_fee,
            status: self.status,
            transaction_id: opt_text(self.transaction_id),
            confirmations: self.confirmations,
            checked_at_ms: self.checked_at_ms,
            source_url: self.source_url@,
            problem: opt_text(self.problem),
        }
    }
}

/// The error for a blank required field of a withdrawal.
pub open spec fn blank_field_error(field: Seq<char>) -> Seq<char> {
    "bitget withdrawal "@ + field + " is empty"@
}

fn blank_field(field: &str) -> (r: ExchangeError)
    ensures
        r@ == ErrorView::Parse(blank_field_error(field@)),
{
    let mut m = String::new();
    push_str(&mut m, "bitget withdrawal ");
    push_str(&mut m, field);
    push_str(&mut m, " is empty");
    ExchangeError::Parse(m)
}

/// The trimmed text of a required field, or its blank-field error.
pub open spec fn required_of(field: Seq<char>, value: Seq<char>) -> Result<Seq<char>, Seq<char>> {
    if trim(value).len() == 0 {
        Err(blank_field_error(field))
    } else {
        Ok(trim(value))
    }
}

/// The trimmed text of a required field.
pub fn required_text(field: &str, value: &str) -> (r: Result<String, ExchangeError>)
    ensures
        match required_of(field@, value@) {
            Ok(t) => r matches Ok(s) && s@ == t,
            Err(m) => r matches Err(e) && e@ == ErrorView::Parse(m),
        },
{
    let t = trimmed(value);
    if t.unicode_len() == 0 {
        Err(blank_field(field))
    } else {
        Ok(t)
    }
}

/// Why a venue name is not Bitget's.
pub open spec fn venue_error(venue: Seq<char>) -> Option<ErrorView> {
    if eq_ignore_case(trim(venue), "bitget"@) {
        None
    } else {
        Some(ErrorView::UnsupportedSymbol("bitget withdrawal venue="@ + venue))
    }
}

/// Checks that a request is addressed to Bitget.
pub fn validate_venue(venue: &str) -> (r: Result<(), ExchangeError>)
    ensures
        match venue_error(venue@) {
            Some(e) => r matches Err(x) && x@ == e,
            None => r is Ok,
        },
{
    let v = trimmed(venue);
    if eq_ignore_ascii_case(v.as_str(), "bitget") {
        Ok(())
    } else {
        let mut m = String::new();
        push_str(&mut m, "bitget withdrawal venue=");
        push_str(&mut m, venue);
        Err(ExchangeError::UnsupportedSymbol(m))
    }
}

/// The first of the four texts of a withdrawal that is blank, as its error.
pub open spec fn texts_error(
    currency: Seq<char>,
    network: Seq<char>,
    address: Seq<char>,
    client_id: Seq<char>,
) -> Option<ErrorView> {
    if trim(currency).len() == 0 {
        Some(ErrorView::Parse(blank_field_error("currency"@)))
    } else if trim(network).len() == 0 {
        Some(ErrorView::Parse(blank_field_error("network"@)))
    } else if trim(address).len() == 0 {
        Some(ErrorView::Parse(blank_field_error("address"@)))
    } else if trim(client_id).len() == 0 {
        Some(ErrorView::Parse(blank_field_error("clientOid"@)))
    } else {
        None
    }
}

fn check_texts(currency: &str, network: &str, address: &str, client_id: &str) -> (r: Result<
    (),
    ExchangeError,
>)
    ensures
        match texts_error(currency@, network@, address@, client_id@) {
            Some(e) => r matches Err(x) && x@ == e,
            None => r is Ok,
        },
{
    required_text("currency", currency)?;
    required_text("network", network)?;
    required_text("address", address)?;
    required_text("clientOid", client_id)?;
    Ok(())
}

/// Why a withdrawal may not be submitted, in the order the checks run.
pub open spec fn submit_error(r: WithdrawalSubmitRequest) -> Option<ErrorView> {
    match venue_error(r.venue@) {
        Some(e) => Some(e),
        None => match texts_error(r.currency@, r.network@, r.address@, r.client_withdrawal_id@) {
            Some(e) => Some(e),
            None => if r.wallet_type != WithdrawalWalletType::Spot {
                Some(ErrorView::UnsupportedCapability("bitget UTA funding-wallet withdrawal"@))
            } else if r.amount.mantissa <= 0 {
                Some(ErrorView::Parse("bitget withdrawal amount must be positive"@))
            } else {
                None
            },
        },
    }
}

/// Checks a withdrawal before it is submitted: a Bitget venue, the four
/// texts present, the unified (spot) wallet, and a positive amount.
pub fn validate_submit(request: &WithdrawalSubmitRequest) -> (r: Result<(), ExchangeError>)
    ensures
        match submit_error(*request) {
            Some(e) => r matches Err(x) && x@ == e,
            None => r is Ok,
        },
{
    validate_venue(request.venue.as_str())?;
    check_texts(
        request.currency.as_str(),
        request.network.as_str(),
        request.address.as_str(),
        request.client_withdrawal_id.as_str(),
    )?;
    if request.wallet_type != WithdrawalWalletType::Spot {
        return Err(
            ExchangeError::UnsupportedCapability("bitget UTA funding-wallet withdrawal".to_owned()),
        );
    }
    if request.amount.mantissa <= 0 {
        return Err(ExchangeError::Parse("bitget withdrawal amount must be positive".to_owned()));
    }
    Ok(())
}

/// Why a withdrawal may not be looked up, in the order the checks run.
pub open spec fn status_error(r: WithdrawalStatusRequest) -> Option<ErrorView> {
    match venue_error(r.venue@) {
        Some(e) => Some(e),
        None => match texts_error(r.currency@, r.network@, r.address@, r.client_withdrawal_id@) {
            Some(e) => Some(e),
            None => if r.submitted_at_ms <= 0 {
                Some(ErrorView::Parse("bitget withdrawal submittedAtMs must be positive"@))
            } else {
                None
            },
        },
    }
}

/// Checks a withdrawal lookup: a Bitget venue, the four texts present and a
/// positive submission time.
pub fn validate_status(request: &WithdrawalStatusRequest) -> (r: Result<(), ExchangeError>)
    ensures
        match status_error(*request) {
            Some(e) => r matches Err(x) && x@ == e,
            None => r is Ok,
        },
{
    validate_venue(request.venue.as_str())?;
    check_texts(
        request.currency.as_str(),
        request.network.as_str(),
        request.address.as_str(),
        request.client_withdrawal_id.as_str(),
    )?;
    if request.submitted_at_ms <= 0 {
        return Err(
            ExchangeError::Parse("bitget withdrawal submittedAtMs must be positive".to_owned()),
        );
    }
    Ok(())
}

/// The records' time window for a valid lookup: from five minutes before
/// the submission (never before the epoch) to now, or to the submission if
/// the clock is behind it.
pub open spec fn withdrawal_window(r: WithdrawalStatusRequest, now_ms: i64) -> Result<
    (i64, i64),
    ErrorView,
> {
    match status_error(r) {
        Some(e) => Err(e),
        None => Ok(
            (
                if r.submitted_at_ms - WITHDRAW_HISTORY_CLOCK_SKEW_MS < 0 {
                    0
                } else {
                    (r.submitted_at_ms - WITHDRAW_HISTORY_CLOCK_SKEW_MS) as i64
                },
                if now_ms >= r.submitted_at_ms {
                    now_ms
                } else {
                    r.submitted_at_ms
                },
            ),
        ),
    }
}

/// Checks a lookup and gives the start and end of the records' window.
pub fn withdrawal_history_window(request: &WithdrawalStatusRequest, now_ms: i64) -> (r: Result<
    (i64, i64),
    ExchangeError,
>)
    ensures
        match withdrawal_window(*request, now_ms) {
            Ok(w) => r == Ok::<(i64, i64), ExchangeError>(w),
            Err(e) => r matches Err(x) && x@ == e,
        },
{
    validate_status(request)?;
    let start = if request.submitted_at_ms < WITHDRAW_HISTORY_CLOCK_SKEW_MS {
        0
    } else {
        request.submitted_at_ms - WITHDRAW_HISTORY_CLOCK_SKEW_MS
    };
    let end = if now_ms >= request.submitted_at_ms {
        now_ms
    } else {
        request.submitted_at_ms
    };
    Ok((start, end))
}

pub open spec fn withdrawal_identity_mismatch() -> Seq<char> {
    "bitget withdrawal history identity does not match the authorized request"@
}

/// A withdrawal record is the authorized withdrawal: an on-chain withdraw of
/// the requested coin, on the requested network family, to the requested
/// address (exactly on Solana, ignoring ASCII case elsewhere).
pub open spec fn is_authorized_row(row: WithdrawHistoryRow, r: WithdrawalStatusRequest) -> bool {
    let address_matches = if is_solana(row.chain@) {
        trim(row.to_address@) == trim(r.address@)
    } else {
        eq_ignore_case(trim(row.to_address@), trim(r.address@))
    };
    &&& eq_ignore_case(row.operation_type@, "withdraw"@)
    &&& eq_ignore_case(row.dest@, "on_chain"@)
    &&& eq_ignore_case(row.coin@, trim(r.currency@))
    &&& canonical_network(row.chain@) == canonical_network(r.network@)
    &&& address_matches
}

fn authorized_row(row: &WithdrawHistoryRow, request: &WithdrawalStatusRequest) -> (r: bool)
    ensures
        r == is_authorized_row(*row, *request),
{
    let to = trimmed(row.to_address.as_str());
    let expected = trimmed(request.address.as_str());
    let address_matches = if solana_network(row.chain.as_str()) {
        str_eq(to.as_str(), expected.as_str())
    } else {
        eq_ignore_ascii_case(to.as_str(), expected.as_str())
    };
    eq_ignore_ascii_case(row.operation_type.as_str(), "withdraw") && eq_ignore_ascii_case(
        row.dest.as_str(),
        "on_chain",
    ) && eq_ignore_ascii_case(row.coin.as_str(), trimmed(request.currency.as_str()).as_str())
        && str_eq(
        canonical_network_id(row.chain.as_str()).as_str(),
        canonical_network_id(request.network.as_str()).as_str(),
    ) && address_matches
}

/// A withdrawal record's status and the problem it reports.
pub open spec fn withdrawal_state(status: Seq<char>) -> Option<(WithdrawalStatus, Option<Seq<char>>)> {
    let s = crate::text::lower(trim(status));
    if s == "pending"@ {
        Some((WithdrawalStatus::Pending, Some("Bitget 提币仍在处理中"@)))
    } else if s == "success"@ {
        Some((WithdrawalStatus::Completed, None))
    } else if s == "fail"@ {
        Some((WithdrawalStatus::Failed, Some("Bitget 官方提币记录报告失败"@)))
    } else {
        None
    }
}

/// A record's decimal field read by `rust_decimal`.
pub open spec fn withdrawal_decimal(field: Seq<char>, value: Seq<char>) -> Result<Amount, Seq<char>> {
    match decimal_text_value(trim(value)) {
        Ok((m, sc)) => Ok(Amount { mantissa: m, scale: sc }),
        Err(e) => Err("bitget withdrawal "@ + field + ": "@ + e),
    }
}

fn parse_decimal(field: &str, value: &str) -> (r: Result<Amount, ExchangeError>)
    ensures
        match withdrawal_decimal(field@, value@) {
            Ok(a) => r == Ok::<Amount, ExchangeError>(a) && -0x1_0000_0000_0000_0000_0000_0000
                < a.mantissa && a.mantissa < 0x1_0000_0000_0000_0000_0000_0000,
            Err(m) => r matches Err(e) && e@ == ErrorView::Parse(m),
        },
{
    let t = trimmed(value);
    match parse_rust_decimal(t.as_str()) {
        Ok(a) => Ok(a),
        Err(e) => {
            let mut m = String::new();
            push_str(&mut m, "bitget withdrawal ");
            push_str(&mut m, field);
            push_str(&mut m, ": ");
            push_str(&mut m, e.as_str());
            Err(ExchangeError::Parse(m))
        },
    }
}

/// The magnitude of an amount.
pub open spec fn amount_abs(a: Amount) -> Amount {
    Amount {
        mantissa: if a.mantissa < 0 {
            (0 - a.mantissa) as i128
        } else {
            a.mantissa
        },
        scale: a.scale,
    }
}

/// The evidence a withdrawal record gives of the authorized withdrawal, or
/// why it gives none.
pub open spec fn withdrawal_evidence(
    row: WithdrawHistoryRow,
    r: WithdrawalStatusRequest,
    source_url: Seq<char>,
    checked_at_ms: i64,
) -> Result<WithdrawalEvidenceView, Seq<char>> {
    if !is_authorized_row(row, r) {
        Err(withdrawal_identity_mismatch())
    } else {
        match withdrawal_state(row.status@) {
            None => Err(
                "bitget withdrawal status is unsupported: "@ + crate::text::lower(trim(row.status@)),
            ),
            Some((status, problem)) => match required_of("orderId"@, row.order_id@) {
                Err(m) => Err(m),
                Ok(provider_id) => match withdrawal_decimal("size"@, row.size@) {
                    Err(m) => Err(m),
                    Ok(amount) => match withdrawal_decimal("fee"@, row.fee@) {
                        Err(m) => Err(m),
                        Ok(fee) => Ok(
                            WithdrawalEvidenceView {
                                venue: "bitget"@,
                                provider_withdrawal_id: provider_id,
                                client_withdrawal_id: row.client_oid@,
                                currency: upper(trim(row.coin@)),
                                network: trim(row.chain@),
                                address: trim(row.to_address@),
                                amount,
                                transaction_fee: amount_abs(fee),
                                status,
                                transaction_id: if eq_ignore_case(row.dest@, "on_chain"@) {
                                    non_empty_text(row.record_id@)
                                } else {
                                    None
                                },
                                confirmations: parse_u64_text(trim(row.confirm@)),
                                checked_at_ms,
                                source_url,
                                problem,
                            },
                        ),
                    },
                },
            },
        }
    }
}

/// Reads what a withdrawal record shows of the authorized withdrawal.
pub fn withdrawal_status(
    row: &WithdrawHistoryRow,
    request: &WithdrawalStatusRequest,
    source_url: &str,
    checked_at_ms: i64,
) -> (r: Result<WithdrawalStatusEvidence, ExchangeError>)
    ensures
        match withdrawal_evidence(*row, *request, source_url@, checked_at_ms) {
            Ok(v) => r matches Ok(e) && e@ == v,
            Err(m) => r matches Err(e) && e@ == ErrorView::Parse(m),
        },
{
    if !authorized_row(row, request) {
        return Err(
            ExchangeError::Parse(
                "bitget withdrawal history identity does not match the authorized request".to_owned(),
            ),
        );
    }
    let state = crate::text::to_lower(trimmed(row.status.as_str()).as_str());
    let (status, problem) = if str_eq(state.as_str(), "pending") {
        (WithdrawalStatus::Pending, Some("Bitget 提币仍在处理中".to_owned()))
    } else if str_eq(state.as_str(), "success") {
        (WithdrawalStatus::Completed, None)
    } else if str_eq(state.as_str(), "fail") {
        (WithdrawalStatus::Failed, Some("Bitget 官方提币记录报告失败".to_owned()))
    } else {
        let mut m = String::new();
        push_str(&mut m, "bitget withdrawal status is unsupported: ");
        push_str(&mut m, state.as_str());
        return Err(ExchangeError::Parse(m));
    };
    let provider_withdrawal_id = required_text("orderId", row.order_id.as_str())?;
    let amount = parse_decimal("size", row.size.as_str())?;
    let fee = parse_decimal("fee", row.fee.as_str())?;
    let transaction_fee = Amount {
        mantissa: if fee.mantissa < 0 {
            0 - fee.mantissa
        } else {
            fee.mantissa
        },
        scale: fee.scale,
    };
    let transaction_id = if eq_ignore_ascii_case(row.dest.as_str(), "on_chain") {
        non_empty(row.record_id.as_str())
    } else {
        None
    };
    Ok(
        WithdrawalStatusEvidence {
            venue: "bitget".to_owned(),
            provider_withdrawal_id,
            client_withdrawal_id: row.client_oid.clone(),
            currency: to_upper(trimmed(row.coin.as_str()).as_str()),
            network: trimmed(row.chain.as_str()),
            address: trimmed(row.to_address.as_str()),
            amount,
            transaction_fee,
            status,
            transaction_id,
            confirmations: parse_u64(trimmed(row.confirm.as_str()).as_str()),
            checked_at_ms,
            source_url: source_url.to_owned(),
            problem,
        },
    )
}

/// Each withdrawal record status word names one status, trimmed and in any
/// case: only `pending` is pending, only `success` completed, only `fail`
/// failed; every other word names none. A failure or a pending record
/// carries its problem; a completed one carries none.
pub proof fn withdrawal_words_name_their_status(status: Seq<char>)
    ensures
        withdrawal_state(status) matches Some((s, _)) && s == WithdrawalStatus::Pending
            <==> crate::text::lower(trim(status)) == "pending"@,
        withdrawal_state(status) matches Some((s, _)) && s == WithdrawalStatus::Completed
            <==> crate::text::lower(trim(status)) == "success"@,
        withdrawal_state(status) matches Some((s, _)) && s == WithdrawalStatus::Failed
            <==> crate::text::lower(trim(status)) == "fail"@,
        withdrawal_state(status) matches Some((s, p)) ==> (p is None <==> s
            == WithdrawalStatus::Completed),
        withdrawal_state(status) is Some <==> (crate::text::lower(trim(status)) == "pending"@
            || crate::text::lower(trim(status)) == "success"@ || crate::text::lower(trim(status))
            == "fail"@),
{
    reveal_strlit("pending");
    reveal_strlit("success");
    reveal_strlit("fail");
    assert("pending"@.len() == 7);
    assert("success"@.len() == 7);
    assert("pending"@[0] != "success"@[0]);
    assert("fail"@.len() == 4);
}

/// The evidence a withdrawal record gives carries the status its word
/// names: failed exactly for `fail`, pending exactly for `pending`,
/// completed exactly for `success`.
pub proof fn withdrawal_evidence_reports_its_row_status(
    row: WithdrawHistoryRow,
    r: WithdrawalStatusRequest,
    source_url: Seq<char>,
    checked_at_ms: i64,
)
    ensures
        withdrawal_evidence(row, r, source_url, checked_at_ms) matches Ok(v) ==> {
            let l = crate::text::lower(trim(row.status@));
            &&& (v.status == WithdrawalStatus::Failed <==> l == "fail"@)
            &&& (v.status == WithdrawalStatus::Pending <==> l == "pending"@)
            &&& (v.status == WithdrawalStatus::Completed <==> l == "success"@)
        },
{
    withdrawal_words_name_their_status(row.status@);
}

/// A withdrawal may be submitted exactly when it is addressed to Bitget (in
/// any case, around white space), its currency, network, address and client
/// id are not blank, it draws on the unified (spot) wallet and its amount is
/// positive.
pub proof fn submissions_pass_exactly_the_checks(r: WithdrawalSubmitRequest)
    ensures
        submit_error(r) is None <==> {
            &&& eq_ignore_case(trim(r.venue@), "bitget"@)
            &&& trim(r.currency@).len() > 0
            &&& trim(r.network@).len() > 0
            &&& trim(r.address@).len() > 0
            &&& trim(r.client_withdrawal_id@).len() > 0
            &&& r.wallet_type == WithdrawalWalletType::Spot
            &&& r.amount.mantissa > 0
        },
{
}

/// A withdrawal may be looked up exactly when it is addressed to Bitget, its
/// four texts are not blank and its submission time is positive; its
/// records are then read from five minutes before the submission (never
/// before the epoch) to now, or to the submission when the clock is behind.
pub proof fn lookups_cover_the_submission(r: WithdrawalStatusRequest, now_ms: i64)
    ensures
        status_error(r) is None <==> {
            &&& eq_ignore_case(trim(r.venue@), "bitget"@)
            &&& trim(r.currency@).len() > 0
            &&& trim(r.network@).len() > 0
            &&& trim(r.address@).len() > 0
            &&& trim(r.client_withdrawal_id@).len() > 0
            &&& r.submitted_at_ms > 0
        },
        withdrawal_window(r, now_ms) is Ok <==> status_error(r) is None,
        withdrawal_window(r, now_ms) matches Ok((start, end)) ==> {
            &&& start >= 0
            &&& start <= r.submitted_at_ms <= end
            &&& now_ms <= end
            &&& (end == now_ms || end == r.submitted_at_ms)
            &&& (r.submitted_at_ms >= 300_000 ==> start == r.submitted_at_ms - 300_000)
            &&& (r.submitted_at_ms < 300_000 ==> start == 0)
        },
{
}

/// The evidence a withdrawal record gives is the authorized withdrawal's:
/// only an authorized record gives any, and it carries the record's trimmed
/// provider id (never blank), client id, upper-cased coin, chain and
/// address, the magnitude of the record's fee, the time it was checked and
/// the address of the records.
pub proof fn withdrawal_evidence_carries_its_record(
    row: WithdrawHistoryRow,
    r: WithdrawalStatusRequest,
    source_url: Seq<char>,
    checked_at_ms: i64,
)
    ensures
        withdrawal_evidence(row, r, source_url, checked_at_ms) matches Ok(v) ==> {
            &&& is_authorized_row(row, r)
            &&& v.venue == "bitget"@
            &&& v.provider_withdrawal_id == trim(row.order_id@)
            &&& v.provider_withdrawal_id.len() > 0
            &&& v.client_withdrawal_id == row.client_oid@
            &&& v.currency == upper(trim(row.coin@))
            &&& v.network == trim(row.chain@)
            &&& v.address == trim(row.to_address@)
            &&& match withdrawal_decimal("fee"@, row.fee@) {
                Ok(f) => f.mantissa > i128::MIN ==> {
                    &&& v.transaction_fee.mantissa >= 0
                    &&& v.transaction_fee.scale == f.scale
                    &&& (v.transaction_fee.mantissa == f.mantissa || v.transaction_fee.mantissa
                        == -f.mantissa)
                },
                Err(_) => true,
            }
            &&& v.checked_at_ms == checked_at_ms
            &&& v.source_url == source_url
        },
        !is_authorized_row(row, r) ==> withdrawal_evidence(row, r, source_url, checked_at_ms)
            == Err::<WithdrawalEvidenceView, Seq<char>>(withdrawal_identity_mismatch()),
{
}

/// The first record carrying the request's client id, if any.
pub open spec fn first_with_client_id(rows: Seq<WithdrawHistoryRow>, client_id: Seq<char>) -> Option<
    WithdrawHistoryRow,
>
    decreases rows.len(),
{
    if rows.len() == 0 {
        None
    } else if rows[0].client_oid@ == client_id {
        Some(rows[0])
    } else {
        first_with_client_id(rows.drop_first(), client_id)
    }
}

/// What the withdrawal records show: nothing when no record carries the
/// request's client id, else what the first such record proves.
pub fn withdrawal_records_status(
    rows: &[WithdrawHistoryRow],
    request: &WithdrawalStatusRequest,
    source_url: &str,
    checked_at_ms: i64,
) -> (r: Result<Option<WithdrawalStatusEvidence>, ExchangeError>)
    ensures
        match first_with_client_id(rows@, request.client_withdrawal_id@) {
            None => r matches Ok(None),
            Some(row) => match withdrawal_evidence(row, *request, source_url@, checked_at_ms) {
                Ok(v) => r matches Ok(Some(e)) && e@ == v,
                Err(m) => r matches Err(e) && e@ == ErrorView::Parse(m),
            },
        },
{
    let n = rows.len();
    let mut i: usize = 0;
    assert(rows@.subrange(0, n as int) =~= rows@);
    while i < n
        invariant
            n == rows@.len(),
            i <= n,
            first_with_client_id(rows@, request.client_withdrawal_id@) == first_with_client_id(
                rows@.subrange(i as int, n as int),
                request.client_withdrawal_id@,
            ),
        decreases n - i,
    {
        let ghost rest = rows@.subrange(i as int, n as int);
        assert(rest[0] == rows@[i as int]);
        assert(rest.drop_first() =~= rows@.subrange(i + 1, n as int));
        if str_eq(rows[i].client_oid.as_str(), request.client_withdrawal_id.as_str()) {
            return match withdrawal_status(&rows[i], request, source_url, checked_at_ms) {
                Ok(e) => Ok(Some(e)),
                Err(e) => Err(e),
            };
        }
        i = i + 1;
    }
    assert(rows@.subrange(n as int, n as int).len() == 0);
    Ok(None)
}

/// The acknowledged submission of a withdrawal.
#[derive(Debug, Clone)]
pub struct WithdrawalSubmission {
    pub venue: String,
    pub provider_withdrawal_id: String,
    pub client_withdrawal_id: String,
    pub submitted_at_ms: i64,
    pub source_url: String,
    pub problem: Option<String>,
}

/// What the venue's acknowledgement makes of a submission: it must echo the
/// client id exactly and carry a provider id.
pub open spec fn submission_of(
    request: WithdrawalSubmitRequest,
    order_id: Seq<char>,
    client_oid: Seq<char>,
) -> Result<Seq<char>, Seq<char>> {
    if client_oid != request.client_withdrawal_id@ {
        Err("bitget withdrawal ack returned a different clientOid"@)
    } else {
        required_of("orderId"@, order_id)
    }
}

/// Checks the venue's acknowledgement of a submitted withdrawal and records
/// the submission.
pub fn withdrawal_submission(
    request: &WithdrawalSubmitRequest,
    order_id: &str,
    client_oid: &str,
    submitted_at_ms: i64,
    source_url: &str,
) -> (r: Result<WithdrawalSubmission, ExchangeError>)
    ensures
        match submission_of(*request, order_id@, client_oid@) {
            Ok(id) => r matches Ok(s) && s.provider_withdrawal_id@ == id && s.venue@ == "bitget"@
                && s.client_withdrawal_id@ == client_oid@ && s.submitted_at_ms == submitted_at_ms
                && s.source_url@ == source_url@ && s.problem is None,
            Err(m) => r matches Err(e) && e@ == ErrorView::Parse(m),
        },
{
    if !str_eq(client_oid, request.client_withdrawal_id.as_str()) {
        return Err(
            ExchangeError::Parse("bitget withdrawal ack returned a different clientOid".to_owned()),
        );
    }
    let provider_withdrawal_id = required_text("orderId", order_id)?;
    Ok(
        WithdrawalSubmission {
            venue: "bitget".to_owned(),
            provider_withdrawal_id,
            client_withdrawal_id: client_oid.to_owned(),
            submitted_at_ms,
            source_url: source_url.to_owned(),
            problem: None,
        },
    )
}

/// What `rust_decimal` writes for an amount in normal form:
/// `Decimal::try_from_i128_with_scale`, then `normalize` and `to_string`;
/// nothing when the mantissa or scale is out of its range.
pub uninterp spec fn decimal_normal_text(mantissa: i128, scale: u32) -> Option<Seq<char>>;

/// Calls `rust_decimal::Decimal::try_from_i128_with_scale` and writes the
/// value's `normalize()` with `to_string()`; `None` when the constructor
/// refuses the mantissa or scale. The contract claims only that the text is
/// a function of the mantissa and scale.
#[verifier::external_body]
fn normal_amount_text(amount: &Amount) -> (r: Option<String>)
    ensures
        match r {
            Some(t) => decimal_normal_text(amount.mantissa, amount.scale) == Some(t@),
            None => decimal_normal_text(amount.mantissa, amount.scale) is None,
        },
{
    match rust_decimal::Decimal::try_from_i128_with_scale(amount.mantissa, amount.scale) {
        Ok(d) => Some(d.normalize().to_string()),
        Err(_) => None,
    }
}

/// A JSON object member with a string value.
pub open spec fn text_member(key: Seq<char>, value: Seq<char>) -> Seq<char> {
    quoted(key) + seq![':'] + quoted(value)
}

/// The submission body: coin, chain, `on_chain`, address, the tag when one
/// is given, the amount in normal form, the client id and the unified
/// account, the texts trimmed; nothing when the amount cannot be written.
pub open spec fn withdraw_body_of(r: WithdrawalSubmitRequest) -> Option<Seq<char>> {
    match decimal_normal_text(r.amount.mantissa, r.amount.scale) {
        None => None,
        Some(size) => Some(body_head(r) + body_tag(r) + body_tail(r, size)),
    }
}

pub open spec fn body_head(r: WithdrawalSubmitRequest) -> Seq<char> {
    seq!['{'] + text_member("coin"@, trim(r.currency@)) + seq![','] + text_member(
        "chain"@,
        trim(r.network@),
    ) + seq![','] + text_member("transferType"@, "on_chain"@) + seq![','] + text_member(
        "address"@,
        trim(r.address@),
    )
}

pub open spec fn body_tag(r: WithdrawalSubmitRequest) -> Seq<char> {
    match r.tag {
        Some(t) if trim(t@).len() > 0 => seq![','] + text_member("tag"@, trim(t@)),
        _ => Seq::empty(),
    }
}

pub open spec fn body_tail(r: WithdrawalSubmitRequest, size: Seq<char>) -> Seq<char> {
    seq![','] + text_member("size"@, size) + seq![','] + text_member(
        "clientOid"@,
        trim(r.client_withdrawal_id@),
    ) + seq![','] + text_member("accountType"@, "uta"@) + seq!['}']
}

/// The JSON body of a withdrawal submission.
pub fn withdraw_body(request: &WithdrawalSubmitRequest) -> (r: Result<String, ExchangeError>)
    ensures
        match withdraw_body_of(*request) {
            Some(b) => r matches Ok(t) && t@ == b,
            None => r matches Err(e) && e@ == ErrorView::Parse(
                "bitget withdrawal body: amount out of range"@,
            ),
        },
{
    let size = match normal_amount_text(&request.amount) {
        Some(t) => t,
        None => {
            return Err(
                ExchangeError::Parse("bitget withdrawal body: amount out of range".to_owned()),
            );
        },
    };
    let mut out = String::new();
    push_char(&mut out, '{');
    push_text_member(&mut out, "coin", trimmed(request.currency.as_str()).as_str());
    push_char(&mut out, ',');
    push_text_member(&mut out, "chain", trimmed(request.network.as_str()).as_str());
    push_char(&mut out, ',');
    push_text_member(&mut out, "transferType", "on_chain");
    push_char(&mut out, ',');
    push_text_member(&mut out, "address", trimmed(request.address.as_str()).as_str());
    assert(out@ =~= body_head(*request));
    let mut tag_part = String::new();
    match &request.tag {
        Some(t) => {
            let tag = trimmed(t.as_str());
            if tag.unicode_len() > 0 {
                push_char(&mut tag_part, ',');
                push_text_member(&mut tag_part, "tag", tag.as_str());
            }
        },
        None => {},
    }
    assert(tag_part@ =~= body_tag(*request));
    let mut tail = String::new();
    push_char(&mut tail, ',');
    push_text_member(&mut tail, "size", size.as_str());
    push_char(&mut tail, ',');
    push_text_member(&mut tail, "clientOid", trimmed(request.client_withdrawal_id.as_str()).as_str());
    push_char(&mut tail, ',');
    push_text_member(&mut tail, "accountType", "uta");
    push_char(&mut tail, '}');
    assert(tail@ =~= body_tail(*request, size@));
    push_str(&mut out, tag_part.as_str());
    push_str(&mut out, tail.as_str());
    Ok(out)
}

/// A question about the balance a withdrawal would draw on.
#[derive(Debug, Clone)]
pub struct WithdrawalSourceBalanceRequest {
    pub venue: String,
    pub currency: String,
    pub wallet_type: WithdrawalWalletType,
}

/// One coin of the unified account's assets.
#[derive(Debug, Clone)]
pub struct AccountAssetRow {
    pub coin: String,
    pub available: String,
}

/// The balance a withdrawal would draw on.
#[derive(Debug, Clone)]
pub struct WithdrawalSourceBalance {
    pub venue: String,
    pub currency: String,
    pub wallet_type: WithdrawalWalletType,
    pub available: Amount,
    pub checked_at_ms: i64,
    pub source_url: String,
}

/// Why a balance question cannot be answered, in the order the checks run:
/// not Bitget, no currency, or a wallet other than the unified one.
pub open spec fn source_balance_error(r: WithdrawalSourceBalanceRequest) -> Option<ErrorView> {
    match venue_error(r.venue@) {
        Some(e) => Some(e),
        None => if trim(r.currency@).len() == 0 {
            Some(ErrorView::Parse(blank_field_error("currency"@)))
        } else if r.wallet_type != WithdrawalWalletType::Spot {
            Some(
                ErrorView::UnsupportedCapability("bitget UTA funding-wallet withdrawal balance"@),
            )
        } else {
            None
        },
    }
}

/// Checks a balance question before the assets are read.
pub fn validate_source_balance(request: &WithdrawalSourceBalanceRequest) -> (r: Result<
    (),
    ExchangeError,
>)
    ensures
        match source_balance_error(*request) {
            Some(e) => r matches Err(x) && x@ == e,
            None => r is Ok,
        },
{
    validate_venue(request.venue.as_str())?;
    required_text("currency", request.currency.as_str())?;
    if request.wallet_type != WithdrawalWalletType::Spot {
        return Err(
            ExchangeError::UnsupportedCapability(
                "bitget UTA funding-wallet withdrawal balance".to_owned(),
            ),
        );
    }
    Ok(())
}

/// The first asset row of the requested coin, compared ignoring ASCII case.
pub open spec fn coin_row(rows: Seq<AccountAssetRow>, currency: Seq<char>) -> Option<AccountAssetRow>
    decreases rows.len(),
{
    if rows.len() == 0 {
        None
    } else if eq_ignore_case(rows[0].coin@, trim(currency)) {
        Some(rows[0])
    } else {
        coin_row(rows.drop_first(), currency)
    }
}

/// The balance the assets show for the request, or why they show none.
pub open spec fn source_balance_of(
    r: WithdrawalSourceBalanceRequest,
    rows: Seq<AccountAssetRow>,
    source_url: Seq<char>,
    checked_at_ms: i64,
) -> Result<(Seq<char>, Amount), Seq<char>> {
    match coin_row(rows, r.currency@) {
        None => Err("bitget account assets has no "@ + upper(trim(r.currency@)) + " row"@),
        Some(row) => match withdrawal_decimal("available"@, row.available@) {
            Err(m) => Err(m),
            Ok(a) => Ok((upper(trim(row.coin@)), a)),
        },
    }
}

/// Reads the balance a withdrawal would draw on from the account's assets.
pub fn source_balance(
    request: &WithdrawalSourceBalanceRequest,
    rows: &[AccountAssetRow],
    source_url: &str,
    checked_at_ms: i64,
) -> (r: Result<WithdrawalSourceBalance, ExchangeError>)
    ensures
        match source_balance_of(*request, rows@, source_url@, checked_at_ms) {
            Ok((currency, available)) => r matches Ok(b) && b.currency@ == currency && b.available
                == available && b.venue@ == "bitget"@ && b.wallet_type == request.wallet_type
                && b.checked_at_ms == checked_at_ms && b.source_url@ == source_url@,
            Err(m) => r matches Err(e) && e@ == ErrorView::Parse(m),
        },
{
    let wanted = trimmed(request.currency.as_str());
    let n = rows.len();
    let mut i: usize = 0;
    assert(rows@.subrange(0, n as int) =~= rows@);
    while i < n
        invariant
            n == rows@.len(),
            i <= n,
            wanted@ == trim(request.currency@),
            coin_row(rows@, request.currency@) == coin_row(
                rows@.subrange(i as int, n as int),
                request.currency@,
            ),
        decreases n - i,
    {
        let ghost rest = rows@.subrange(i as int, n as int);
        assert(rest[0] == rows@[i as int]);
        assert(rest.drop_first() =~= rows@.subrange(i + 1, n as int));
        if eq_ignore_ascii_case(rows[i].coin.as_str(), wanted.as_str()) {
            let available = parse_decimal("available", rows[i].available.as_str())?;
            return Ok(
                WithdrawalSourceBalance {
                    venue: "bitget".to_owned(),
                    currency: to_upper(trimmed(rows[i].coin.as_str()).as_str()),
                    wallet_type: request.wallet_type,
                    available,
                    checked_at_ms,
                    source_url: source_url.to_owned(),
                },
            );
        }
        i = i + 1;
    }
    assert(rows@.subrange(n as int, n as int).len() == 0);
    let mut m = String::new();
    push_str(&mut m, "bitget account assets has no ");
    push_str(&mut m, to_upper(wanted.as_str()).as_str());
    push_str(&mut m, " row");
    Err(ExchangeError::Parse(m))
}

// ---------------------------------------------------------------------------
// Requests and replies
// ---------------------------------------------------------------------------

/// The query of the withdrawal records: coin, client id, time window and
/// page size.
pub open spec fn withdrawal_history_params(
    r: WithdrawalStatusRequest,
    start_ms: i64,
    end_ms: i64,
) -> Seq<(Seq<char>, Seq<char>)> {
    seq![
        ("coin"@, r.currency@),
        ("clientOid"@, r.client_withdrawal_id@),
        ("startTime"@, int_text(start_ms as int)),
        ("endTime"@, int_text(end_ms as int)),
        ("limit"@, "100"@),
    ]
}

/// The path and query of the withdrawal records.
pub fn withdrawal_history_path(request: &WithdrawalStatusRequest, start_ms: i64, end_ms: i64) -> (r:
    String)
    ensures
        r@ == WITHDRAW_HISTORY_PATH@ + "?"@ + form_query_text(
            withdrawal_history_params(*request, start_ms, end_ms),
        ),
{
    let mut params: Vec<(String, String)> = Vec::new();
    params.push(("coin".to_owned(), request.currency.clone()));
    params.push(("clientOid".to_owned(), request.client_withdrawal_id.clone()));
    params.push(("startTime".to_owned(), int_to_string(start_ms)));
    params.push(("endTime".to_owned(), int_to_string(end_ms)));
    params.push(("limit".to_owned(), "100".to_owned()));
    assert(pairs_view(params@) =~= withdrawal_history_params(*request, start_ms, end_ms));
    let mut path = WITHDRAW_HISTORY_PATH.to_owned();
    push_str(&mut path, "?");
    let q = form_query(&params);
    push_str(&mut path, q.as_str());
    path
}

/// The members of a withdrawal record, in order.
pub open spec fn withdrawal_keys() -> Seq<Seq<char>> {
    seq![
        "orderId"@,
        "clientOid"@,
        "recordId"@,
        "coin"@,
        "type"@,
        "dest"@,
        "size"@,
        "status"@,
        "toAddress"@,
        "chain"@,
        "fee"@,
        "confirm"@,
    ]
}

pub open spec fn withdrawal_row_texts(r: WithdrawHistoryRow) -> Seq<Seq<char>> {
    seq![
        r.order_id@,
        r.client_oid@,
        r.record_id@,
        r.coin@,
        r.operation_type@,
        r.dest@,
        r.size@,
        r.status@,
        r.to_address@,
        r.chain@,
        r.fee@,
        r.confirm@,
    ]
}

/// Reads one withdrawal record: twelve string members.
pub fn decode_withdrawal_row(v: &JsonValue) -> (r: Option<WithdrawHistoryRow>)
    ensures
        match r {
            Some(w) => record_texts(*v, withdrawal_keys()) == Some(withdrawal_row_texts(w)),
            None => record_texts(*v, withdrawal_keys()) is None,
        },
{
    let keys: [&str; 12] = [
        "orderId",
        "clientOid",
        "recordId",
        "coin",
        "type",
        "dest",
        "size",
        "status",
        "toAddress",
        "chain",
        "fee",
        "confirm",
    ];
    assert(str_views(keys@) =~= withdrawal_keys());
    let t = decode_text_record(v, &keys)?;
    assert(record_texts(*v, withdrawal_keys()) is Some);
    assert(text_views(t@).len() == 12);
    let w = WithdrawHistoryRow {
        order_id: t[0].clone(),
        client_oid: t[1].clone(),
        record_id: t[2].clone(),
        coin: t[3].clone(),
        operation_type: t[4].clone(),
        dest: t[5].clone(),
        size: t[6].clone(),
        status: t[7].clone(),
        to_address: t[8].clone(),
        chain: t[9].clone(),
        fee: t[10].clone(),
        confirm: t[11].clone(),
    };
    assert(text_views(t@) =~= withdrawal_row_texts(w));
    Some(w)
}

pub open spec fn withdrawal_records_error() -> Seq<char> {
    "bitget withdrawal records: invalid payload"@
}

/// The withdrawal records a body holds, or why it holds none.
pub open spec fn withdrawal_records_of(body: Seq<char>) -> Result<Seq<Seq<Seq<char>>>, ErrorView> {
    match json_document(body) {
        None => Err(ErrorView::Parse(withdrawal_records_error())),
        Some(doc) => match list_envelope(doc) {
            None => Err(ErrorView::Parse(withdrawal_records_error())),
            Some((code, msg, data)) => if forall|i: int|
                0 <= i < data.len() ==> (#[trigger] record_texts(data[i], withdrawal_keys())) is Some {
                match ensure_ok_result(code, msg, "withdrawal records"@) {
                    Some(e) => Err(e),
                    None => Ok(
                        data.map_values(|v: JsonValue| record_texts(v, withdrawal_keys())->Some_0),
                    ),
                }
            } else {
                Err(ErrorView::Parse(withdrawal_records_error()))
            },
        },
    }
}

pub open spec fn withdrawal_rows_texts(rows: Seq<WithdrawHistoryRow>) -> Seq<Seq<Seq<char>>> {
    rows.map_values(|w: WithdrawHistoryRow| withdrawal_row_texts(w))
}

/// Reads the withdrawal records.
pub fn withdrawal_records_from_body(body: &str) -> (r: Result<Vec<WithdrawHistoryRow>, ExchangeError>)
    ensures
        match r {
            Ok(rows) => withdrawal_records_of(body@) == Ok::<Seq<Seq<Seq<char>>>, ErrorView>(
                withdrawal_rows_texts(rows@),
            ),
            Err(e) => withdrawal_records_of(body@) == Err::<Seq<Seq<Seq<char>>>, ErrorView>(e@),
        },
{
    let env = match parse_list_envelope(body) {
        Some(e) => e,
        None => {
            return Err(ExchangeError::Parse("bitget withdrawal records: invalid payload".to_owned()));
        },
    };
    let mut rows: Vec<WithdrawHistoryRow> = Vec::new();
    let n = env.data.len();
    let mut i: usize = 0;
    while i < n
        invariant
            n == env.data@.len(),
            i <= n,
            rows@.len() == i,
            match json_document(body@) {
                Some(doc) => list_envelope(doc) == Some((env.code@, env.msg@, env.data@)),
                None => false,
            },
            forall|k: int| 0 <= k < i ==> (#[trigger] record_texts(env.data@[k], withdrawal_keys())) is Some,
            forall|k: int|
                0 <= k < i ==> record_texts(env.data@[k], withdrawal_keys()) == Some(
                    withdrawal_row_texts(#[trigger] rows@[k]),
                ),
        decreases n - i,
    {
        match decode_withdrawal_row(&env.data[i]) {
            Some(w) => rows.push(w),
            None => {
                assert(!(record_texts(env.data@[i as int], withdrawal_keys()) is Some));
                return Err(
                    ExchangeError::Parse("bitget withdrawal records: invalid payload".to_owned()),
                );
            },
        }
        i = i + 1;
    }
    assert(withdrawal_rows_texts(rows@) =~= env.data@.map_values(
        |v: JsonValue| record_texts(v, withdrawal_keys())->Some_0,
    ));
    match env.into_data("withdrawal records") {
        Ok(_) => Ok(rows),
        Err(e) => Err(e),
    }
}

pub open spec fn ack_keys() -> Seq<Seq<char>> {
    seq!["orderId"@, "clientOid"@]
}

/// The order id and client id a withdrawal acknowledgement carries, or why
/// it carries none.
pub open spec fn withdrawal_ack_of(body: Seq<char>) -> Result<Seq<Seq<char>>, ErrorView> {
    let invalid = ErrorView::Parse("bitget withdrawal ack: invalid payload"@);
    match json_document(body) {
        None => Err(invalid),
        Some(doc) => match object_envelope(doc) {
            None => Err(invalid),
            Some((code, msg, data)) => {
                let ack = match data {
                    Some(d) => record_texts(d, ack_keys()),
                    None => None,
                };
                if data is Some && ack is None {
                    Err(invalid)
                } else {
                    match ensure_ok_result(code, msg, "withdrawal"@) {
                        Some(e) => Err(e),
                        None => match ack {
                            Some(a) => Ok(a),
                            None => Err(empty_data_error("withdrawal"@)),
                        },
                    }
                }
            },
        },
    }
}

/// Reads the venue's acknowledgement of a withdrawal: its order id and
/// client id.
pub fn withdrawal_ack_from_body(body: &str) -> (r: Result<(String, String), ExchangeError>)
    ensures
        match r {
            Ok((order_id, client_oid)) => withdrawal_ack_of(body@) == Ok::<
                Seq<Seq<char>>,
                ErrorView,
            >(seq![order_id@, client_oid@]),
            Err(e) => withdrawal_ack_of(body@) == Err::<Seq<Seq<char>>, ErrorView>(e@),
        },
{
    let env = match parse_object_envelope(body) {
        Some(e) => e,
        None => return Err(ExchangeError::Parse("bitget withdrawal ack: invalid payload".to_owned())),
    };
    let keys: [&str; 2] = ["orderId", "clientOid"];
    assert(str_views(keys@) =~= ack_keys());
    let ack = match &env.data {
        None => None,
        Some(d) => match decode_text_record(d, &keys) {
            Some(t) => {
                assert(text_views(t@).len() == 2);
                assert(text_views(t@) =~= seq![t@[0]@, t@[1]@]);
                Some((t[0].clone(), t[1].clone()))
            },
            None => return Err(ExchangeError::Parse("bitget withdrawal ack: invalid payload".to_owned())),
        },
    };
    match env.into_result("withdrawal") {
        Err(e) => Err(e),
        Ok(_) => match ack {
            Some(a) => Ok(a),
            None => Err(ExchangeError::Parse("bitget withdrawal ack: invalid payload".to_owned())),
        },
    }
}

pub open spec fn asset_keys() -> Seq<Seq<char>> {
    seq!["coin"@, "available"@]
}

pub open spec fn asset_rows_texts(rows: Seq<AccountAssetRow>) -> Seq<Seq<Seq<char>>> {
    rows.map_values(|a: AccountAssetRow| seq![a.coin@, a.available@])
}

/// The asset rows of an account assets payload: `assets` is a required
/// array of rows with a string coin and available balance.
pub open spec fn asset_payload_rows(d: JsonValue) -> Option<Seq<Seq<Seq<char>>>> {
    if !struct_shaped(d, 1) {
        None
    } else {
        match field(d, 0, "assets"@) {
            Some(JsonValue::Array(items)) => if forall|i: int|
                0 <= i < items@.len() ==> (#[trigger] record_texts(items@[i], asset_keys())) is Some {
                Some(items@.map_values(|v: JsonValue| record_texts(v, asset_keys())->Some_0))
            } else {
                None
            },
            _ => None,
        }
    }
}

/// The asset rows a body holds, or why it holds none.
pub open spec fn account_assets_of(body: Seq<char>) -> Result<Seq<Seq<Seq<char>>>, ErrorView> {
    let invalid = ErrorView::Parse("bitget account assets: invalid payload"@);
    match json_document(body) {
        None => Err(invalid),
        Some(doc) => match object_envelope(doc) {
            None => Err(invalid),
            Some((code, msg, data)) => {
                let rows = match data {
                    Some(d) => asset_payload_rows(d),
                    None => None,
                };
                if data is Some && rows is None {
                    Err(invalid)
                } else {
                    match ensure_ok_result(code, msg, "account assets"@) {
                        Some(e) => Err(e),
                        None => match rows {
                            Some(r) => Ok(r),
                            None => Err(empty_data_error("account assets"@)),
                        },
                    }
                }
            },
        },
    }
}

fn assets_invalid() -> (e: ExchangeError)
    ensures
        e@ == ErrorView::Parse("bitget account assets: invalid payload"@),
{
    ExchangeError::Parse("bitget account assets: invalid payload".to_owned())
}

/// Reads the unified account's asset rows.
pub fn account_assets_from_body(body: &str) -> (r: Result<Vec<AccountAssetRow>, ExchangeError>)
    ensures
        match r {
            Ok(rows) => account_assets_of(body@) == Ok::<Seq<Seq<Seq<char>>>, ErrorView>(
                asset_rows_texts(rows@),
            ),
            Err(e) => account_assets_of(body@) == Err::<Seq<Seq<Seq<char>>>, ErrorView>(e@),
        },
{
    let env = match parse_object_envelope(body) {
        Some(e) => e,
        None => return Err(assets_invalid()),
    };
    let ghost data = env.data;
    let keys: [&str; 2] = ["coin", "available"];
    assert(str_views(keys@) =~= asset_keys());
    let rows = match &env.data {
        None => None,
        Some(d) => {
            if !is_struct_shaped(d, 1) {
                return Err(assets_invalid());
            }
            let items = match get_field(d, 0, "assets") {
                Some(JsonValue::Array(items)) => items,
                _ => return Err(assets_invalid()),
            };
            let n = items.len();
            let mut out: Vec<AccountAssetRow> = Vec::new();
            let mut i: usize = 0;
            while i < n
                invariant
                    n == items@.len(),
                    i <= n,
                    out@.len() == i,
                    str_views(keys@) == asset_keys(),
                    match json_document(body@) {
                        Some(doc) => object_envelope(doc) == Some((env.code@, env.msg@, env.data)),
                        None => false,
                    },
                    env.data == Some(*d),
                    struct_shaped(*d, 1),
                    field(*d, 0, "assets"@) == Some(JsonValue::Array(*items)),
                    forall|k: int| 0 <= k < i ==> (#[trigger] record_texts(items@[k], asset_keys())) is Some,
                    forall|k: int|
                        0 <= k < i ==> record_texts(items@[k], asset_keys()) == Some(
                            seq![(#[trigger] out@[k]).coin@, out@[k].available@],
                        ),
                decreases n - i,
            {
                match decode_text_record(&items[i], &keys) {
                    Some(t) => {
                        assert(text_views(t@).len() == 2);
                        let row = AccountAssetRow { coin: t[0].clone(), available: t[1].clone() };
                        assert(text_views(t@) =~= seq![row.coin@, row.available@]);
                        out.push(row);
                    },
                    None => {
                        assert(!(record_texts(items@[i as int], asset_keys()) is Some));
                        return Err(assets_invalid());
                    },
                }
                i = i + 1;
            }
            assert(asset_rows_texts(out@) =~= items@.map_values(
                |v: JsonValue| record_texts(v, asset_keys())->Some_0,
            ));
            Some(out)
        },
    };
    assert(rows matches Some(r) ==> data matches Some(dv) && asset_payload_rows(dv) == Some(
        asset_rows_texts(r@),
    ));
    match env.into_result("account assets") {
        Err(e) => Err(e),
        Ok(_) => match rows {
            Some(r) => Ok(r),
            None => Err(assets_invalid()),
        },
    }
}

} // verus!
