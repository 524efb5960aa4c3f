//! Bitget UTA transfer evidence: the deposit address, the withdraw address
//! book, and the finality of a deposit in the deposit records.
//!
//! Official contracts:
//! - <https://www.bitget.com/api-doc/uta/account/deposit/Get-Deposit-Address>
//! - <https://www.bitget.com/api-doc/uta/account/deposit/Get-Deposit-Records>
//! - <https://www.bitget.com/api-doc/uta/account/withdrawal/Get-Withdraw-Address>
//!
//! The requests themselves are I/O and stay with the caller; every decision
//! between two requests (what to ask next, when to stop, which row proves
//! what) is a function here.

use vstd::prelude::*;
use crate::bitget_response::{
    empty_data_error, ensure_ok_result, list_envelope, object_envelope, parse_list_envelope,
    parse_object_envelope,
};
use crate::error::{ErrorView, ExchangeError};
use crate::json::{
    decode_optional_text_field, decode_required_text_field, decode_text_field, field, get_field,
    is_struct_shaped, json_document, list_or_default, optional_text, required_text,
    str_views, struct_shaped, text_or_default, JsonValue,
};
use crate::text::{
    int_text, int_to_string, eq_ignore_ascii_case, eq_ignore_case, i64_error_message, i64_error_text, lower, nat_text,
    parse_i64, parse_i64_text, parse_u128, parse_u128_text, push_nat128, push_str, str_eq,
    to_lower, to_upper, trim, trimmed, upper,
};

verus! {

pub const DEPOSIT_ADDRESS_PATH: &'static str = "/api/v3/account/deposit-address";
pub const DEPOSIT_HISTORY_PATH: &'static str = "/api/v3/account/deposit-records";
pub const WITHDRAW_ADDRESS_PATH: &'static str = "/api/v3/account/withdraw-address";
/// How far before the submission time the records are searched.
pub const HISTORY_CLOCK_SKEW_MS: i64 = 300000;
/// The page size asked of the deposit records.
pub const HISTORY_PAGE_LIMIT: usize = 100;
/// How many deposit record pages are read at most.
pub const MAX_HISTORY_PAGES: usize = 5;
/// The page size asked of the withdraw address book.
pub const WITHDRAW_ADDRESS_PAGE_LIMIT: usize = 10;
/// How many address book pages are read at most.
pub const MAX_WITHDRAW_ADDRESS_PAGES: usize = 5;
/// The pause between two address book pages.
pub const WITHDRAW_ADDRESS_RATE_LIMIT_MS: u64 = 1050;

// ---------------------------------------------------------------------------
// Amounts and networks
// ---------------------------------------------------------------------------

/// An exact decimal amount as `rust_decimal` holds it: `mantissa / 10^scale`.
#[derive(Debug, Clone, Copy, PartialEq, Eq, Structural)]
pub struct Amount {
    pub mantissa: i128,
    pub scale: u32,
}

/// What `rust_decimal::Decimal::from_str` gives for a text: the mantissa and
/// scale of the value, or the error's message.
pub uninterp spec fn decimal_text_value(text: Seq<char>) -> Result<(i128, u32), Seq<char>>;

/// Calls `<rust_decimal::Decimal as FromStr>::from_str` and hands back the
/// value's mantissa and scale, or the error's `Display` text. The contract
/// claims that the outcome is a function of the text, and that a mantissa
/// has at most 96 bits of magnitude (`Decimal::mantissa` assembles it from
/// three `u32` words).
#[verifier::external_body]
pub(crate) fn parse_rust_decimal(text: &str) -> (r: Result<Amount, String>)
    ensures
        match r {
            Ok(a) => decimal_text_value(text@) == Ok::<(i128, u32), Seq<char>>((a.mantissa, a.scale))
                && -0x1_0000_0000_0000_0000_0000_0000 < a.mantissa
                && a.mantissa < 0x1_0000_0000_0000_0000_0000_0000,
            Err(e) => decimal_text_value(text@) == Err::<(i128, u32), Seq<char>>(e@),
        },
{
    match <rust_decimal::Decimal as core::str::FromStr>::from_str(text) {
        Ok(d) => Ok(Amount { mantissa: d.mantissa(), scale: d.scale() }),
        Err(e) => Err(e.to_string()),
    }
}

/// The network family a venue chain name belongs to, so that two spellings
/// of one chain compare equal: `SOL` is `solana`, `ERC20` is `ethereum`, and
/// any other name is itself, trimmed and in lower case.
pub open spec fn canonical_network(network: Seq<char>) -> Seq<char> {
    let n = lower(trim(network));
    if n == "sol"@ {
        "solana"@
    } else if n == "erc20"@ {
        "ethereum"@
    } else {
        n
    }
}

/// The network family of a venue chain name.
pub fn canonical_network_id(network: &str) -> (r: String)
    ensures
        r@ == canonical_network(network@),
{
    let t = trimmed(network);
    let n = to_lower(t.as_str());
    if str_eq(n.as_str(), "sol") {
        "solana".to_owned()
    } else if str_eq(n.as_str(), "erc20") {
        "ethereum".to_owned()
    } else {
        n
    }
}

/// Whether a network is Solana, whose addresses and signatures are case
/// sensitive.
pub open spec fn is_solana(network: Seq<char>) -> bool {
    canonical_network(network) == "solana"@
}

pub fn solana_network(network: &str) -> (r: bool)
    ensures
        r == is_solana(network@),
{
    let c = canonical_network_id(network);
    str_eq(c.as_str(), "solana")
}

/// Two addresses (or transaction ids) name the same thing on `network`:
/// exactly on Solana, ignoring ASCII case elsewhere, both trimmed.
pub open spec fn same_on_network(actual: Seq<char>, expected: Seq<char>, network: Seq<char>) -> bool {
    if is_solana(network) {
        trim(actual) == trim(expected)
    } else {
        eq_ignore_case(trim(actual), trim(expected))
    }
}

/// Whether two addresses or transaction ids agree on `network`.
pub fn addresses_match(actual: &str, expected: &str, network: &str) -> (r: bool)
    ensures
        r == same_on_network(actual@, expected@, network@),
{
    let a = trimmed(actual);
    let e = trimmed(expected);
    if solana_network(network) {
        str_eq(a.as_str(), e.as_str())
    } else {
        eq_ignore_ascii_case(a.as_str(), e.as_str())
    }
}

/// A chain name names its network family, trimmed and in any case: `sol`
/// and `solana` are Solana, `erc20` and `ethereum` are Ethereum, and every
/// other name is its own family. Addresses agree exactly on Solana and
/// ignoring ASCII case elsewhere, both trimmed.
pub proof fn chain_names_name_their_family(network: Seq<char>, actual: Seq<char>, expected: Seq<char>)
    ensures
        is_solana(network) <==> (lower(trim(network)) == "sol"@ || lower(trim(network))
            == "solana"@),
        canonical_network(network) == "ethereum"@ <==> (lower(trim(network)) == "erc20"@ || lower(
            trim(network),
        ) == "ethereum"@),
        lower(trim(network)) != "sol"@ && lower(trim(network)) != "erc20"@ ==> canonical_network(
            network,
        ) == lower(trim(network)),
        is_solana(network) ==> (same_on_network(actual, expected, network) <==> trim(actual)
            == trim(expected)),
        !is_solana(network) ==> (same_on_network(actual, expected, network) <==> lower(trim(actual))
            == lower(trim(expected))),
{
    reveal_strlit("sol");
    reveal_strlit("solana");
    reveal_strlit("erc20");
    reveal_strlit("ethereum");
    assert("sol"@.len() == 3);
    assert("solana"@.len() == 6);
    assert("erc20"@.len() == 5);
    assert("ethereum"@.len() == 8);
}

/// A memo matches the expected tag: equal once trimmed, or empty when no
/// tag (or a blank one) is expected.
pub open spec fn tag_matches(actual: Seq<char>, expected: Option<Seq<char>>) -> bool {
    match expected {
        Some(e) if trim(e).len() > 0 => trim(actual) == trim(e),
        _ => trim(actual).len() == 0,
    }
}

/// Whether a memo matches the expected tag.
pub fn tags_match(actual: &str, expected: &Option<String>) -> (r: bool)
    ensures
        r == tag_matches(actual@, opt_text(*expected)),
{
    let a = trimmed(actual);
    match expected {
        Some(e) => {
            let t = trimmed(e.as_str());
            if t.unicode_len() > 0 {
                str_eq(a.as_str(), t.as_str())
            } else {
                a.unicode_len() == 0
            }
        },
        None => a.unicode_len() == 0,
    }
}

pub open spec fn opt_text(o: Option<String>) -> Option<Seq<char>> {
    match o {
        Some(s) => Some(s@),
        None => None,
    }
}

/// The trimmed text, or nothing when it is blank.
pub open spec fn non_empty_text(value: Seq<char>) -> Option<Seq<char>> {
    if trim(value).len() > 0 {
        Some(trim(value))
    } else {
        None
    }
}

/// The trimmed text, or nothing when it is blank.
pub fn non_empty(value: &str) -> (r: Option<String>)
    ensures
        opt_text(r) == non_empty_text(value@),
{
    let t = trimmed(value);
    if t.unicode_len() > 0 {
        Some(t)
    } else {
        None
    }
}

pub open spec fn is_hex_char(c: char) -> bool {
    ('0' <= c && c <= '9') || ('a' <= c && c <= 'f') || ('A' <= c && c <= 'F')
}

/// An EVM address: `0x` and forty hexadecimal digits. (The venue's test is
/// on bytes; a text of that shape is all ASCII, so bytes and chars agree.)
pub open spec fn is_evm(value: Seq<char>) -> bool {
    &&& value.len() == 42
    &&& value[0] == '0'
    &&& value[1] == 'x'
    &&& forall|i: int| 2 <= i < 42 ==> is_hex_char(#[trigger] value[i])
}

/// Whether an address is an EVM address.
pub fn is_evm_address(value: &str) -> (r: bool)
    ensures
        r == is_evm(value@),
{
    let n = value.unicode_len();
    if n != 42 {
        return false;
    }
    if value.get_char(0) != '0' || value.get_char(1) != 'x' {
        return false;
    }
    let mut i: usize = 2;
    while i < 42
        invariant
            n == 42,
            value@.len() == 42,
            2 <= i <= 42,
            forall|k: int| 2 <= k < i ==> is_hex_char(#[trigger] value@[k]),
        decreases 42 - i,
    {
        let c = value.get_char(i);
        if !(('0' <= c && c <= '9') || ('a' <= c && c <= 'f') || ('A' <= c && c <= 'F')) {
            return false;
        }
        i = i + 1;
    }
    true
}

// ---------------------------------------------------------------------------
// Transfer destinations
// ---------------------------------------------------------------------------

#[derive(Debug, Clone, Copy, PartialEq, Eq, Structural)]
pub enum TransferDirection {
    DepositToVenue,
    WithdrawToChain,
}

#[derive(Debug, Clone, Copy, PartialEq, Eq, Structural)]
pub enum TransferDestinationStatus {
    Verified,
    Missing,
}

/// A question about where a transfer goes: the venue's deposit address, or
/// whether an address is in the withdraw address book.
#[derive(Debug, Clone)]
pub struct TransferDestinationRequest {
    pub currency: String,
    pub network: String,
    pub direction: TransferDirection,
    pub expected_address: Option<String>,
    pub expected_tag: Option<String>,
    pub amount: Option<Amount>,
}

/// The venue's answer about a transfer destination.
#[derive(Debug, Clone)]
pub struct TransferDestinationEvidence {
    pub venue: String,
    pub currency: String,
    pub network: String,
    pub direction: TransferDirection,
    pub address: Option<String>,
    pub tag: Option<String>,
    pub status: TransferDestinationStatus,
    pub allowlisted: Option<bool>,
    pub checked_at_ms: i64,
    pub source_url: String,
    pub problem: Option<String>,
}

pub ghost struct DestinationView {
    pub venue: Seq<char>,
    pub currency: Seq<char>,
    pub network: Seq<char>,
    pub direction: TransferDirection,
    pub address: Option<Seq<char>>,
    pub tag: Option<Seq<char>>,
    pub status: TransferDestinationStatus,
    pub allowlisted: Option<bool>,
    pub checked_at_ms: i64,
    pub source_url: Seq<char>,
    pub problem: Option<Seq<char>>,
}

impl View for TransferDestinationEvidence {
    type V = DestinationView;

    open spec fn view(&self) -> DestinationView {
        DestinationView {
            venue: self.venue@,
            currency: self.currency@,
            network: self.network@,
            direction: self.direction,
            address: opt_text(self.address),
            tag: opt_text(self.tag),
            status: self.status,
            allowlisted: self.allowlisted,
            checked_at_ms: self.checked_at_ms,
            source_url: self.source_url@,
            problem: opt_text(self.problem),
        }
    }
}

/// The error for a blank required field of a transfer request.
pub open spec fn empty_field_error(field: Seq<char>) -> Seq<char> {
    "bitget deposit "@ + field + " is empty"@
}

fn empty_field(field: &str) -> (r: ExchangeError)
    ensures
        r@ == ErrorView::Parse(empty_field_error(field@)),
{
    let mut m = String::new();
    push_str(&mut m, "bitget deposit ");
    push_str(&mut m, field);
    push_str(&mut m, " is empty");
    ExchangeError::Parse(m)
}

/// The address book query for a withdrawal destination: the trimmed expected
/// address and the book's address type for it.
#[derive(Debug, Clone)]
pub struct WithdrawAddressQuery {
    pub expected_address: String,
    pub address_type: String,
}

/// The query a withdrawal destination check makes, or why the request is
/// refused: a blank currency, network or expected address.
pub open spec fn withdraw_query_of(request: TransferDestinationRequest) -> Result<
    (Seq<char>, Seq<char>),
    Seq<char>,
> {
    if trim(request.currency@).len() == 0 {
        Err(empty_field_error("currency"@))
    } else if trim(request.network@).len() == 0 {
        Err(empty_field_error("network"@))
    } else {
        match request.expected_address {
            Some(a) if trim(a@).len() > 0 => Ok(
                (trim(a@), if is_evm(trim(a@)) {
                    "EVM"@
                } else {
                    "regular"@
                }),
            ),
            _ => Err("bitget expected withdrawal address is empty"@),
        }
    }
}

/// Checks a withdrawal destination request and gives the address book query
/// to make: the expected address and `EVM` or `regular` as its type.
pub fn withdraw_address_query(request: &TransferDestinationRequest) -> (r: Result<
    WithdrawAddressQuery,
    ExchangeError,
>)
    ensures
        match withdraw_query_of(*request) {
            Ok((a, t)) => r matches Ok(q) && q.expected_address@ == a && q.address_type@ == t,
            Err(m) => r matches Err(e) && e@ == ErrorView::Parse(m),
        },
{
    if trimmed(request.currency.as_str()).unicode_len() == 0 {
        return Err(empty_field("currency"));
    }
    if trimmed(request.network.as_str()).unicode_len() == 0 {
        return Err(empty_field("network"));
    }
    let expected = match &request.expected_address {
        Some(a) => trimmed(a.as_str()),
        None => String::new(),
    };
    if expected.unicode_len() == 0 {
        return Err(ExchangeError::Parse("bitget expected withdrawal address is empty".to_owned()));
    }
    let address_type = if is_evm_address(expected.as_str()) {
        "EVM".to_owned()
    } else {
        "regular".to_owned()
    };
    Ok(WithdrawAddressQuery { expected_address: expected, address_type })
}

/// One row of the withdraw address book.
#[derive(Debug, Clone)]
pub struct WithdrawAddressRow {
    pub coin: String,
    pub chain: String,
    pub address: String,
    pub memo: String,
}

/// One page of the withdraw address book.
#[derive(Debug, Clone)]
pub struct WithdrawAddressPage {
    pub address_list: Vec<WithdrawAddressRow>,
    pub cursor: Option<String>,
}

/// A book row is the requested destination: same coin, same network
/// family, same address on that network, and the expected memo.
pub open spec fn row_is_destination(
    row: WithdrawAddressRow,
    request: TransferDestinationRequest,
    expected_address: Seq<char>,
) -> bool {
    &&& eq_ignore_case(row.coin@, trim(request.currency@))
    &&& canonical_network(row.chain@) == canonical_network(request.network@)
    &&& same_on_network(row.address@, expected_address, row.chain@)
    &&& tag_matches(row.memo@, opt_text(request.expected_tag))
}

/// The first row of `rows` that is the requested destination.
pub open spec fn first_destination(
    rows: Seq<WithdrawAddressRow>,
    request: TransferDestinationRequest,
    expected_address: Seq<char>,
) -> Option<WithdrawAddressRow>
    decreases rows.len(),
{
    if rows.len() == 0 {
        None
    } else if row_is_destination(rows[0], request, expected_address) {
        Some(rows[0])
    } else {
        first_destination(rows.drop_first(), request, expected_address)
    }
}

pub open spec fn missing_destination_problem() -> Seq<char> {
    "Bitget 官方提币地址簿未找到完全一致的币种、网络、地址与 memo"@
}

/// The evidence that a book row is the destination.
pub open spec fn found_destination(
    row: WithdrawAddressRow,
    request: TransferDestinationRequest,
    source_url: Seq<char>,
    checked_at_ms: i64,
) -> DestinationView {
    DestinationView {
        venue: "bitget"@,
        currency: upper(trim(row.coin@)),
        network: trim(row.chain@),
        direction: request.direction,
        address: Some(trim(row.address@)),
        tag: non_empty_text(row.memo@),
        status: TransferDestinationStatus::Verified,
        allowlisted: Some(true),
        checked_at_ms,
        source_url,
        problem: None,
    }
}

/// The evidence that the book holds no such destination.
pub open spec fn missing_destination(
    request: TransferDestinationRequest,
    expected_address: Seq<char>,
    source_url: Seq<char>,
    checked_at_ms: i64,
) -> DestinationView {
    DestinationView {
        venue: "bitget"@,
        currency: upper(trim(request.currency@)),
        network: trim(request.network@),
        direction: request.direction,
        address: Some(expected_address),
        tag: opt_text(request.expected_tag),
        status: TransferDestinationStatus::Missing,
        allowlisted: Some(false),
        checked_at_ms,
        source_url,
        problem: Some(missing_destination_problem()),
    }
}

/// The evidence that the address book holds no row for the request, once
/// the pages are exhausted or the page budget is spent.
pub fn withdraw_destination_missing(
    request: &TransferDestinationRequest,
    expected_address: &str,
    source_url: &str,
    checked_at_ms: i64,
) -> (r: TransferDestinationEvidence)
    ensures
        r@ == missing_destination(*request, expected_address@, source_url@, checked_at_ms),
{
    TransferDestinationEvidence {
        venue: "bitget".to_owned(),
        currency: to_upper(trimmed(request.currency.as_str()).as_str()),
        network: trimmed(request.network.as_str()),
        direction: request.direction,
        address: Some(expected_address.to_owned()),
        tag: request.expected_tag.clone(),
        status: TransferDestinationStatus::Missing,
        allowlisted: Some(false),
        checked_at_ms,
        source_url: source_url.to_owned(),
        problem: Some("Bitget 官方提币地址簿未找到完全一致的币种、网络、地址与 memo".to_owned()),
    }
}

/// What to do after one page of the address book.
#[derive(Debug, Clone)]
pub enum WithdrawStep {
    /// A row is the destination: this is the evidence.
    Found(TransferDestinationEvidence),
    /// Ask for the next page with this cursor (none: from the start).
    Next(Option<String>),
    /// The book ends here without the destination: this is the evidence.
    Missing(TransferDestinationEvidence),
}

pub ghost enum WithdrawStepView {
    Found(DestinationView),
    Next(Option<Seq<char>>),
    Missing(DestinationView),
}

impl View for WithdrawStep {
    type V = WithdrawStepView;

    open spec fn view(&self) -> WithdrawStepView {
        match self {
            WithdrawStep::Found(e) => WithdrawStepView::Found(e@),
            WithdrawStep::Next(c) => WithdrawStepView::Next(opt_text(*c)),
            WithdrawStep::Missing(e) => WithdrawStepView::Missing(e@),
        }
    }
}

/// The step after page `page_index` (from 0): the first destination row is
/// found; otherwise the book ends when the page is short, its cursor repeats
/// the one asked with, or the page budget is spent, and else the next page
/// is asked for with the page's cursor.
pub open spec fn withdraw_step(
    request: TransferDestinationRequest,
    expected_address: Seq<char>,
    page: WithdrawAddressPage,
    cursor: Option<Seq<char>>,
    page_index: usize,
    source_url: Seq<char>,
    checked_at_ms: i64,
) -> WithdrawStepView {
    match first_destination(page.address_list@, request, expected_address) {
        Some(row) => WithdrawStepView::Found(
            found_destination(row, request, source_url, checked_at_ms),
        ),
        None => {
            let next = match page.cursor {
                Some(c) => non_empty_text(c@),
                None => None,
            };
            if page.address_list@.len() < WITHDRAW_ADDRESS_PAGE_LIMIT || next == cursor
                || page_index + 1 >= MAX_WITHDRAW_ADDRESS_PAGES {
                WithdrawStepView::Missing(
                    missing_destination(request, expected_address, source_url, checked_at_ms),
                )
            } else {
                WithdrawStepView::Next(next)
            }
        },
    }
}

fn opt_str_eq(a: &Option<String>, b: &Option<String>) -> (r: bool)
    ensures
        r == (opt_text(*a) == opt_text(*b)),
{
    match (a, b) {
        (Some(x), Some(y)) => str_eq(x.as_str(), y.as_str()),
        (None, None) => true,
        _ => false,
    }
}

/// Decides what one page of the withdraw address book means for the request.
pub fn withdraw_page_step(
    request: &TransferDestinationRequest,
    expected_address: &str,
    page: &WithdrawAddressPage,
    cursor: &Option<String>,
    page_index: usize,
    source_url: &str,
    checked_at_ms: i64,
) -> (r: WithdrawStep)
    ensures
        r@ == withdraw_step(
            *request,
            expected_address@,
            *page,
            opt_text(*cursor),
            page_index,
            source_url@,
            checked_at_ms,
        ),
{
    let rows = &page.address_list;
    let n = rows.len();
    let mut i: usize = 0;
    assert(rows@.subrange(0, n as int) =~= rows@);
    while i < n
        invariant
            n == rows@.len(),
            rows@ == page.address_list@,
            i <= n,
            first_destination(rows@, *request, expected_address@) == first_destination(
                rows@.subrange(i as int, n as int),
                *request,
                expected_address@,
            ),
        decreases n - i,
    {
        let row = &rows[i];
        let ghost rest = rows@.subrange(i as int, n as int);
        assert(rest[0] == *row);
        assert(rest.drop_first() =~= rows@.subrange(i + 1, n as int));
        let is_row = eq_ignore_ascii_case(row.coin.as_str(), trimmed(request.currency.as_str()).as_str())
            && str_eq(
            canonical_network_id(row.chain.as_str()).as_str(),
            canonical_network_id(request.network.as_str()).as_str(),
        ) && addresses_match(row.address.as_str(), expected_address, row.chain.as_str())
            && tags_match(row.memo.as_str(), &request.expected_tag);
        if is_row {
            let evidence = TransferDestinationEvidence {
                venue: "bitget".to_owned(),
                currency: to_upper(trimmed(row.coin.as_str()).as_str()),
                network: trimmed(row.chain.as_str()),
                direction: request.direction,
                address: Some(trimmed(row.address.as_str())),
                tag: non_empty(row.memo.as_str()),
                status: TransferDestinationStatus::Verified,
                allowlisted: Some(true),
                checked_at_ms,
                source_url: source_url.to_owned(),
                problem: None,
            };
            return WithdrawStep::Found(evidence);
        }
        i = i + 1;
    }
    assert(rows@.subrange(n as int, n as int).len() == 0);
    let next = match &page.cursor {
        Some(c) => non_empty(c.as_str()),
        None => None,
    };
    if n < WITHDRAW_ADDRESS_PAGE_LIMIT || opt_str_eq(&next, cursor) || page_index
        >= MAX_WITHDRAW_ADDRESS_PAGES - 1 {
        WithdrawStep::Missing(
            withdraw_destination_missing(request, expected_address, source_url, checked_at_ms),
        )
    } else {
        WithdrawStep::Next(next)
    }
}

// ---------------------------------------------------------------------------
// Deposit finality
// ---------------------------------------------------------------------------

#[derive(Debug, Clone, Copy, PartialEq, Eq, Structural)]
pub enum DepositStatus {
    Pending,
    Completed,
    Failed,
}

/// A deposit to prove: the venue, where it was sent, its chain transaction
/// id, its amount and when it was sent.
#[derive(Debug, Clone)]
pub struct DepositStatusRequest {
    pub venue: String,
    pub currency: String,
    pub network: String,
    pub address: String,
    pub tag: Option<String>,
    pub transaction_id: String,
    pub amount: Amount,
    pub submitted_at_ms: i64,
}

/// One row of the venue's deposit records.
#[derive(Debug, Clone)]
pub struct DepositRecord {
    pub order_id: String,
    pub record_id: String,
    pub coin: String,
    pub operation_type: String,
    pub dest: String,
    pub size: String,
    pub status: String,
    pub to_address: String,
    pub chain: String,
    pub created_time: String,
}

/// What the venue's records show of a deposit.
#[derive(Debug, Clone)]
pub struct DepositStatusEvidence {
    pub venue: String,
    pub currency: String,
    pub network: String,
    pub address: String,
    pub tag: Option<String>,
    pub amount: Amount,
    pub deposit_fee: Option<Amount>,
    pub status: DepositStatus,
    pub transaction_id: String,
    pub confirmations: Option<u64>,
    pub checked_at_ms: i64,
    pub source_url: String,
    pub problem: Option<String>,
}

pub ghost struct DepositEvidenceView {
    pub venue: Seq<char>,
    pub currency: Seq<char>,
    pub network: Seq<char>,
    pub address: Seq<char>,
    pub tag: Option<Seq<char>>,
    pub amount: Amount,
    pub deposit_fee: Option<Amount>,
    pub status: DepositStatus,
    pub transaction_id: Seq<char>,
    pub confirmations: Option<u64>,
    pub checked_at_ms: i64,
    pub source_url: Seq<char>,
    pub problem: Option<Seq<char>>,
}

impl View for DepositStatusEvidence {
    type V = DepositEvidenceView;

    open spec fn view(&self) -> DepositEvidenceView {
        DepositEvidenceView {
            venue: self.venue@,
            currency: self.currency@,
            network: self.network@,
            address: self.address@,
            tag: opt_text(self.tag),
            amount: self.amount,
            deposit_fee: self.deposit_fee,
            status: self.status,
            transaction_id: self.transaction_id@,
            confirmations: self.confirmations,
            checked_at_ms: self.checked_at_ms,
            source_url: self.source_url@,
            problem: opt_text(self.problem),
        }
    }
}

/// Why a deposit request cannot be proved, in the order the checks run.
pub open spec fn status_request_error(r: DepositStatusRequest) -> Option<ErrorView> {
    if !eq_ignore_case(trim(r.venue@), "bitget"@) {
        Some(ErrorView::UnsupportedSymbol("bitget deposit venue="@ + r.venue@))
    } else if trim(r.currency@).len() == 0 {
        Some(ErrorView::Parse(empty_field_error("currency"@)))
    } else if trim(r.network@).len() == 0 {
        Some(ErrorView::Parse(empty_field_error("network"@)))
    } else if trim(r.address@).len() == 0 {
        Some(ErrorView::Parse(empty_field_error("address"@)))
    } else if trim(r.transaction_id@).len() == 0 {
        Some(ErrorView::Parse(empty_field_error("transactionId"@)))
    } else if (match r.tag {
        Some(t) => trim(t@).len() > 0,
        None => false,
    }) {
        Some(ErrorView::UnsupportedCapability("bitget deposit history tag verification"@))
    } else if r.amount.mantissa <= 0 || r.submitted_at_ms <= 0 {
        Some(ErrorView::Parse("bitget deposit amount and submittedAtMs must be positive"@))
    } else {
        None
    }
}

/// Checks that a deposit request can be proved from the records: a Bitget
/// venue, the four texts present, no tag, a positive amount and time.
pub fn validate_status_request(request: &DepositStatusRequest) -> (r: Result<(), ExchangeError>)
    ensures
        match status_request_error(*request) {
            Some(e) => r matches Err(x) && x@ == e,
            None => r is Ok,
        },
{
    let venue = trimmed(request.venue.as_str());
    if !eq_ignore_ascii_case(venue.as_str(), "bitget") {
        let mut m = String::new();
        push_str(&mut m, "bitget deposit venue=");
        push_str(&mut m, request.venue.as_str());
        return Err(ExchangeError::UnsupportedSymbol(m));
    }
    if trimmed(request.currency.as_str()).unicode_len() == 0 {
        return Err(empty_field("currency"));
    }
    if trimmed(request.network.as_str()).unicode_len() == 0 {
        return Err(empty_field("network"));
    }
    if trimmed(request.address.as_str()).unicode_len() == 0 {
        return Err(empty_field("address"));
    }
    if trimmed(request.transaction_id.as_str()).unicode_len() == 0 {
        return Err(empty_field("transactionId"));
    }
    let tagged = match &request.tag {
        Some(t) => trimmed(t.as_str()).unicode_len() > 0,
        None => false,
    };
    if tagged {
        return Err(
            ExchangeError::UnsupportedCapability(
                "bitget deposit history tag verification".to_owned(),
            ),
        );
    }
    if request.amount.mantissa <= 0 || request.submitted_at_ms <= 0 {
        return Err(
            ExchangeError::Parse(
                "bitget deposit amount and submittedAtMs must be positive".to_owned(),
            ),
        );
    }
    Ok(())
}

/// The records' time window for a valid request: from five minutes before
/// the submission (never before the epoch) to now, or to the submission if
/// the clock is behind it.
pub open spec fn history_window(r: DepositStatusRequest, now_ms: i64) -> Result<(i64, i64), ErrorView> {
    match status_request_error(r) {
        Some(e) => Err(e),
        None => Ok(
            (
                if r.submitted_at_ms - HISTORY_CLOCK_SKEW_MS < 0 {
                    0
                } else {
                    (r.submitted_at_ms - HISTORY_CLOCK_SKEW_MS) as i64
                },
                if now_ms >= r.submitted_at_ms {
                    now_ms
                } else {
                    r.submitted_at_ms
                },
            ),
        ),
    }
}

/// Checks a deposit request and gives the start and end of the records'
/// time window to search.
pub fn deposit_history_window(request: &DepositStatusRequest, now_ms: i64) -> (r: Result<
    (i64, i64),
    ExchangeError,
>)
    ensures
        match history_window(*request, now_ms) {
            Ok(w) => r == Ok::<(i64, i64), ExchangeError>(w),
            Err(e) => r matches Err(x) && x@ == e,
        },
{
    match validate_status_request(request) {
        Err(e) => return Err(e),
        Ok(()) => {},
    }
    let start = if request.submitted_at_ms < HISTORY_CLOCK_SKEW_MS {
        0
    } else {
        request.submitted_at_ms - HISTORY_CLOCK_SKEW_MS
    };
    let end = if now_ms >= request.submitted_at_ms {
        now_ms
    } else {
        request.submitted_at_ms
    };
    Ok((start, end))
}

pub open spec fn saturating_sub_i64(a: i64, b: i64) -> int {
    if a - b < i64::MIN {
        i64::MIN as int
    } else {
        a - b
    }
}

pub open spec fn identity_mismatch() -> Seq<char> {
    "bitget deposit history identity does not match the authorized chain transfer"@
}

/// Why a record is not the requested deposit: an unreadable creation time,
/// or any of kind, destination, coin, network family, address or time
/// disagreeing with the request.
pub open spec fn identity_error(row: DepositRecord, r: DepositStatusRequest) -> Option<Seq<char>> {
    match parse_i64_text(trim(row.created_time@)) {
        None => Some("bitget deposit createdTime: "@ + i64_error_text(trim(row.created_time@))),
        Some(created) => if eq_ignore_case(row.operation_type@, "deposit"@) && eq_ignore_case(
            row.dest@,
            "on_chain"@,
        ) && eq_ignore_case(row.coin@, trim(r.currency@)) && canonical_network(row.chain@)
            == canonical_network(r.network@) && same_on_network(row.to_address@, r.address@, row.chain@)
            && created >= saturating_sub_i64(r.submitted_at_ms, HISTORY_CLOCK_SKEW_MS) {
            None
        } else {
            Some(identity_mismatch())
        },
    }
}

fn history_identity(row: &DepositRecord, request: &DepositStatusRequest) -> (r: Result<
    (),
    ExchangeError,
>)
    ensures
        match identity_error(*row, *request) {
            Some(m) => r matches Err(e) && e@ == ErrorView::Parse(m),
            None => r is Ok,
        },
{
    let created_text = trimmed(row.created_time.as_str());
    let created = match parse_i64(created_text.as_str()) {
        Some(t) => t,
        None => {
            let mut m = String::new();
            push_str(&mut m, "bitget deposit createdTime: ");
            let e = i64_error_message(created_text.as_str());
            push_str(&mut m, e.as_str());
            return Err(ExchangeError::Parse(m));
        },
    };
    let earliest: i64 = if request.submitted_at_ms < i64::MIN + HISTORY_CLOCK_SKEW_MS {
        i64::MIN
    } else {
        request.submitted_at_ms - HISTORY_CLOCK_SKEW_MS
    };
    let matches = eq_ignore_ascii_case(row.operation_type.as_str(), "deposit")
        && eq_ignore_ascii_case(row.dest.as_str(), "on_chain") && eq_ignore_ascii_case(
        row.coin.as_str(),
        trimmed(request.currency.as_str()).as_str(),
    ) && str_eq(
        canonical_network_id(row.chain.as_str()).as_str(),
        canonical_network_id(request.network.as_str()).as_str(),
    ) && addresses_match(row.to_address.as_str(), request.address.as_str(), row.chain.as_str())
        && created >= earliest;
    if matches {
        Ok(())
    } else {
        Err(
            ExchangeError::Parse(
                "bitget deposit history identity does not match the authorized chain transfer".to_owned(),
            ),
        )
    }
}

/// A deposit record's status and the problem it reports.
pub open spec fn deposit_state(status: Seq<char>) -> Option<(DepositStatus, Option<Seq<char>>)> {
    let s = lower(trim(status));
    if s == "pending"@ {
        Some((DepositStatus::Pending, Some("Bitget 充值记录仍在链上确认中"@)))
    } else if s == "success"@ {
        Some((DepositStatus::Completed, None))
    } else if s == "fail"@ {
        Some((DepositStatus::Failed, Some("Bitget 官方充值记录报告失败"@)))
    } else {
        None
    }
}

/// Each deposit record status word names one status, trimmed and in any
/// case: only `pending` is pending, only `success` completed, only `fail`
/// failed; every other word names none.
pub proof fn deposit_words_name_their_status(status: Seq<char>)
    ensures
        deposit_state(status) matches Some((s, _)) && s == DepositStatus::Pending <==> lower(
            trim(status),
        ) == "pending"@,
        deposit_state(status) matches Some((s, _)) && s == DepositStatus::Completed <==> lower(
            trim(status),
        ) == "success"@,
        deposit_state(status) matches Some((s, _)) && s == DepositStatus::Failed <==> lower(
            trim(status),
        ) == "fail"@,
        deposit_state(status) matches Some((s, p)) ==> (p is None <==> s == DepositStatus::Completed),
        deposit_state(status) is Some <==> (lower(trim(status)) == "pending"@ || lower(trim(status))
            == "success"@ || lower(trim(status)) == "fail"@),
{
    reveal_strlit("pending");
    reveal_strlit("success");
    reveal_strlit("fail");
    assert("pending"@.len() == 7);
    assert("success"@.len() == 7);
    assert("pending"@[0] != "success"@[0]);
    assert("fail"@.len() == 4);
}

/// The evidence a deposit record gives carries the status its word names:
/// failed exactly for `fail`, pending exactly for `pending`, completed
/// exactly for `success`.
pub proof fn deposit_evidence_reports_its_row_status(
    row: DepositRecord,
    r: DepositStatusRequest,
    source_url: Seq<char>,
    checked_at_ms: i64,
)
    ensures
        deposit_evidence(row, r, source_url, checked_at_ms) matches Ok(v) ==> {
            let l = lower(trim(row.status@));
            &&& (v.status == DepositStatus::Failed <==> l == "fail"@)
            &&& (v.status == DepositStatus::Pending <==> l == "pending"@)
            &&& (v.status == DepositStatus::Completed <==> l == "success"@)
        },
{
    deposit_words_name_their_status(row.status@);
}

/// A deposit can be proved from the records exactly when it is addressed to
/// Bitget (in any case, around white space), its currency, network, address
/// and transaction id are not blank, it carries no tag, and its amount and
/// submission time are positive; its records are then read from five
/// minutes before the submission (never before the epoch) to now, or to the
/// submission when the clock is behind.
pub proof fn deposit_lookups_cover_the_submission(r: DepositStatusRequest, now_ms: i64)
    ensures
        status_request_error(r) is None <==> {
            &&& eq_ignore_case(trim(r.venue@), "bitget"@)
            &&& trim(r.currency@).len() > 0
            &&& trim(r.network@).len() > 0
            &&& trim(r.address@).len() > 0
            &&& trim(r.transaction_id@).len() > 0
            &&& (r.tag matches Some(t) ==> trim(t@).len() == 0)
            &&& r.amount.mantissa > 0
            &&& r.submitted_at_ms > 0
        },
        history_window(r, now_ms) is Ok <==> status_request_error(r) is None,
        history_window(r, now_ms) matches Ok((start, end)) ==> {
            &&& start >= 0
            &&& start <= r.submitted_at_ms <= end
            &&& now_ms <= end
            &&& (end == now_ms || end == r.submitted_at_ms)
            &&& (r.submitted_at_ms >= 300_000 ==> start == r.submitted_at_ms - 300_000)
            &&& (r.submitted_at_ms < 300_000 ==> start == 0)
        },
{
}

/// The evidence a deposit record gives is the requested deposit's: an
/// on-chain deposit of the requested coin on the requested network family,
/// created no earlier than five minutes before the submission; it carries
/// the record's upper-cased coin, trimmed chain, address and transaction id,
/// an amount that is never negative, no tag, fee or confirmations, the time
/// it was checked and the address of the records.
pub proof fn deposit_evidence_carries_its_record(
    row: DepositRecord,
    r: DepositStatusRequest,
    source_url: Seq<char>,
    checked_at_ms: i64,
)
    ensures
        deposit_evidence(row, r, source_url, checked_at_ms) matches Ok(v) ==> {
            &&& eq_ignore_case(row.operation_type@, "deposit"@)
            &&& eq_ignore_case(row.dest@, "on_chain"@)
            &&& eq_ignore_case(row.coin@, trim(r.currency@))
            &&& canonical_network(row.chain@) == canonical_network(r.network@)
            &&& (parse_i64_text(trim(row.created_time@)) matches Some(c) && c + 300_000
                >= r.submitted_at_ms)
            &&& v.venue == "bitget"@
            &&& v.currency == upper(trim(row.coin@))
            &&& v.network == trim(row.chain@)
            &&& v.address == trim(row.to_address@)
            &&& v.transaction_id == trim(row.record_id@)
            &&& v.amount.mantissa >= 0
            &&& v.tag is None
            &&& v.deposit_fee is None
            &&& v.confirmations is None
            &&& v.checked_at_ms == checked_at_ms
            &&& v.source_url == source_url
        },
{
}

/// A record's size as an amount: read by `rust_decimal`, never negative.
pub open spec fn size_amount(size: Seq<char>) -> Result<Amount, Seq<char>> {
    match decimal_text_value(trim(size)) {
        Ok((m, sc)) => if m < 0 {
            Err("bitget deposit size is negative"@)
        } else {
            Ok(Amount { mantissa: m, scale: sc })
        },
        Err(e) => Err("bitget deposit size: "@ + e),
    }
}

/// The evidence a record gives of the requested deposit, or why it gives
/// none.
pub open spec fn deposit_evidence(
    row: DepositRecord,
    r: DepositStatusRequest,
    source_url: Seq<char>,
    checked_at_ms: i64,
) -> Result<DepositEvidenceView, Seq<char>> {
    match identity_error(row, r) {
        Some(m) => Err(m),
        None => match deposit_state(row.status@) {
            None => Err("bitget deposit status is unsupported: "@ + lower(trim(row.status@))),
            Some((status, problem)) => match size_amount(row.size@) {
                Err(m) => Err(m),
                Ok(amount) => Ok(
                    DepositEvidenceView {
                        venue: "bitget"@,
                        currency: upper(trim(row.coin@)),
                        network: trim(row.chain@),
                        address: trim(row.to_address@),
                        tag: None,
                        amount,
                        deposit_fee: None,
                        status,
                        transaction_id: trim(row.record_id@),
                        confirmations: None,
                        checked_at_ms,
                        source_url,
                        problem,
                    },
                ),
            },
        },
    }
}

/// Reads what a deposit record shows of the requested deposit.
pub fn parse_status(
    row: &DepositRecord,
    request: &DepositStatusRequest,
    source_url: &str,
    checked_at_ms: i64,
) -> (r: Result<DepositStatusEvidence, ExchangeError>)
    ensures
        match deposit_evidence(*row, *request, source_url@, checked_at_ms) {
            Ok(v) => r matches Ok(e) && e@ == v,
            Err(m) => r matches Err(e) && e@ == ErrorView::Parse(m),
        },
{
    match history_identity(row, request) {
        Err(e) => return Err(e),
        Ok(()) => {},
    }
    let state = to_lower(trimmed(row.status.as_str()).as_str());
    let (status, problem) = if str_eq(state.as_str(), "pending") {
        (DepositStatus::Pending, Some("Bitget 充值记录仍在链上确认中".to_owned()))
    } else if str_eq(state.as_str(), "success") {
        (DepositStatus::Completed, None)
    } else if str_eq(state.as_str(), "fail") {
        (DepositStatus::Failed, Some("Bitget 官方充值记录报告失败".to_owned()))
    } else {
        let mut m = String::new();
        push_str(&mut m, "bitget deposit status is unsupported: ");
        push_str(&mut m, state.as_str());
        return Err(ExchangeError::Parse(m));
    };
    let size = trimmed(row.size.as_str());
    let amount = match parse_rust_decimal(size.as_str()) {
        Ok(a) => {
            if a.mantissa < 0 {
                return Err(ExchangeError::Parse("bitget deposit size is negative".to_owned()));
            }
            a
        },
        Err(e) => {
            let mut m = String::new();
            push_str(&mut m, "bitget deposit size: ");
            push_str(&mut m, e.as_str());
            return Err(ExchangeError::Parse(m));
        },
    };
    Ok(
        DepositStatusEvidence {
            venue: "bitget".to_owned(),
            currency: to_upper(trimmed(row.coin.as_str()).as_str()),
            network: trimmed(row.chain.as_str()),
            address: trimmed(row.to_address.as_str()),
            tag: None,
            amount,
            deposit_fee: None,
            status,
            transaction_id: trimmed(row.record_id.as_str()),
            confirmations: None,
            checked_at_ms,
            source_url: source_url.to_owned(),
            problem,
        },
    )
}

/// A record carries the requested transaction id.
pub open spec fn is_candidate(row: DepositRecord, r: DepositStatusRequest) -> bool {
    same_on_network(row.record_id@, r.transaction_id@, r.network@)
}

/// How many records carry the requested transaction id.
pub open spec fn candidate_count(rows: Seq<DepositRecord>, r: DepositStatusRequest) -> nat
    decreases rows.len(),
{
    if rows.len() == 0 {
        0
    } else {
        candidate_count(rows.drop_last(), r) + if is_candidate(rows.last(), r) {
            1nat
        } else {
            0nat
        }
    }
}

/// The records that carry the requested transaction id and are the
/// requested deposit, in order.
pub open spec fn matching_rows(rows: Seq<DepositRecord>, r: DepositStatusRequest) -> Seq<DepositRecord>
    decreases rows.len(),
{
    if rows.len() == 0 {
        Seq::empty()
    } else {
        let prev = matching_rows(rows.drop_last(), r);
        if is_candidate(rows.last(), r) && identity_error(rows.last(), r) is None {
            prev.push(rows.last())
        } else {
            prev
        }
    }
}

pub open spec fn ambiguous_records() -> Seq<char> {
    "bitget deposit history has ambiguous matching records"@
}

/// What the records show of the requested deposit: nothing when no record
/// carries its transaction id, an identity error when such records exist
/// but none is the deposit, an ambiguity error when two are, and else the
/// evidence of the one that is.
pub open spec fn matching_outcome(
    rows: Seq<DepositRecord>,
    r: DepositStatusRequest,
    source_url: Seq<char>,
    checked_at_ms: i64,
) -> Result<Option<DepositEvidenceView>, Seq<char>> {
    let m = matching_rows(rows, r);
    if m.len() == 0 {
        if candidate_count(rows, r) > 0 {
            Err(identity_mismatch())
        } else {
            Ok(None)
        }
    } else if m.len() > 1 {
        Err(ambiguous_records())
    } else {
        match deposit_evidence(m[0], r, source_url, checked_at_ms) {
            Ok(v) => Ok(Some(v)),
            Err(e) => Err(e),
        }
    }
}

/// Finds the requested deposit in the records read so far.
pub fn matching_status(
    history: &[DepositRecord],
    request: &DepositStatusRequest,
    source_url: &str,
    checked_at_ms: i64,
) -> (r: Result<Option<DepositStatusEvidence>, ExchangeError>)
    ensures
        match matching_outcome(history@, *request, source_url@, checked_at_ms) {
            Ok(Some(v)) => r matches Ok(Some(e)) && e@ == v,
            Ok(None) => r matches Ok(None),
            Err(m) => r matches Err(e) && e@ == ErrorView::Parse(m),
        },
{
    let n = history.len();
    let mut candidates: usize = 0;
    let mut matches: usize = 0;
    let mut first: usize = 0;
    let mut i: usize = 0;
    assert(history@.subrange(0, 0) =~= Seq::<DepositRecord>::empty());
    while i < n
        invariant
            n == history@.len(),
            i <= n,
            candidates <= i,
            matches <= i,
            candidates == candidate_count(history@.subrange(0, i as int), *request),
            matches == matching_rows(history@.subrange(0, i as int), *request).len(),
            matches > 0 ==> first < n && matching_rows(history@.subrange(0, i as int), *request)[0]
                == history@[first as int],
        decreases n - i,
    {
        let row = &history[i];
        let ghost prev = history@.subrange(0, i as int);
        let ghost next = history@.subrange(0, i + 1);
        assert(next.drop_last() =~= prev);
        assert(next.last() == *row);
        if addresses_match(row.record_id.as_str(), request.transaction_id.as_str(), request.network.as_str()) {
            candidates = candidates + 1;
            match history_identity(row, request) {
                Ok(()) => {
                    if matches == 0 {
                        first = i;
                    }
                    matches = matches + 1;
                },
                Err(_) => {},
            }
        }
        i = i + 1;
    }
    assert(history@.subrange(0, n as int) =~= history@);
    if matches == 0 {
        if candidates > 0 {
            return Err(
                ExchangeError::Parse(
                    "bitget deposit history identity does not match the authorized chain transfer".to_owned(),
                ),
            );
        }
        return Ok(None);
    }
    if matches > 1 {
        return Err(
            ExchangeError::Parse("bitget deposit history has ambiguous matching records".to_owned()),
        );
    }
    match parse_status(&history[first], request, source_url, checked_at_ms) {
        Ok(e) => Ok(Some(e)),
        Err(e) => Err(e),
    }
}

/// The smallest record id among the records whose id reads as a `u128`.
pub open spec fn min_order_id(rows: Seq<DepositRecord>) -> Option<u128>
    decreases rows.len(),
{
    if rows.len() == 0 {
        None
    } else {
        let prev = min_order_id(rows.drop_last());
        match parse_u128_text(trim(rows.last().order_id@)) {
            None => prev,
            Some(v) => match prev {
                None => Some(v),
                Some(q) => Some(
                    if v < q {
                        v
                    } else {
                        q
                    },
                ),
            },
        }
    }
}

/// The cursor for the page after `rows`: the smallest record id, in decimal.
pub open spec fn history_cursor_of(rows: Seq<DepositRecord>) -> Option<Seq<char>> {
    match min_order_id(rows) {
        Some(v) => Some(nat_text(v as nat)),
        None => None,
    }
}

/// The cursor for the page after `rows`.
pub fn history_cursor(rows: &[DepositRecord]) -> (r: Option<String>)
    ensures
        opt_text(r) == history_cursor_of(rows@),
{
    let n = rows.len();
    let mut best: Option<u128> = None;
    let mut i: usize = 0;
    assert(rows@.subrange(0, 0) =~= Seq::<DepositRecord>::empty());
    while i < n
        invariant
            n == rows@.len(),
            i <= n,
            best == min_order_id(rows@.subrange(0, i as int)),
        decreases n - i,
    {
        let ghost prev = rows@.subrange(0, i as int);
        let ghost next = rows@.subrange(0, i + 1);
        assert(next.drop_last() =~= prev);
        assert(next.last() == rows@[i as int]);
        let id = trimmed(rows[i].order_id.as_str());
        match parse_u128(id.as_str()) {
            None => {},
            Some(v) => {
                best = match best {
                    None => Some(v),
                    Some(q) => Some(
                        if v < q {
                            v
                        } else {
                            q
                        },
                    ),
                };
            },
        }
        i = i + 1;
    }
    assert(rows@.subrange(0, n as int) =~= rows@);
    match best {
        Some(v) => {
            let mut t = String::new();
            push_nat128(&mut t, v);
            assert(t@ =~= nat_text(v as nat));
            Some(t)
        },
        None => None,
    }
}

/// What to do after one page of deposit records.
#[derive(Debug, Clone, PartialEq, Eq)]
pub enum DepositStep {
    /// The records end with this page: decide with `matching_status`.
    Complete,
    /// Ask for the page after this cursor.
    Next(String),
    /// The pages go on but the cursor cannot move, or the page budget is
    /// spent: the records cannot prove a unique deposit.
    Stalled,
}

pub ghost enum DepositStepView {
    Complete,
    Next(Seq<char>),
    Stalled,
}

impl View for DepositStep {
    type V = DepositStepView;

    open spec fn view(&self) -> DepositStepView {
        match self {
            DepositStep::Complete => DepositStepView::Complete,
            DepositStep::Next(c) => DepositStepView::Next(c@),
            DepositStep::Stalled => DepositStepView::Stalled,
        }
    }
}

/// The step after page `page_index` (from 0), `rows`, read with `cursor`: a
/// page longer than asked for is refused; a short page ends the records; a
/// full page moves to the smallest record id, unless there is none, it
/// repeats `cursor`, or the page budget is spent.
pub open spec fn deposit_step(
    rows: Seq<DepositRecord>,
    cursor: Option<Seq<char>>,
    page_index: usize,
) -> Result<DepositStepView, Seq<char>> {
    if rows.len() > HISTORY_PAGE_LIMIT {
        Err("bitget deposit page exceeds requested limit"@)
    } else if rows.len() < HISTORY_PAGE_LIMIT {
        Ok(DepositStepView::Complete)
    } else {
        match history_cursor_of(rows) {
            None => Ok(DepositStepView::Stalled),
            Some(c) => if Some(c) == cursor || page_index + 1 >= MAX_HISTORY_PAGES {
                Ok(DepositStepView::Stalled)
            } else {
                Ok(DepositStepView::Next(c))
            },
        }
    }
}

/// Takes one page of deposit records, read with `cursor`: a page within the
/// limit joins `history`, and the step says what to do next.
pub fn deposit_page_step(
    history: &mut Vec<DepositRecord>,
    rows: Vec<DepositRecord>,
    cursor: &Option<String>,
    page_index: usize,
) -> (r: Result<DepositStep, ExchangeError>)
    ensures
        match deposit_step(rows@, opt_text(*cursor), page_index) {
            Ok(v) => r matches Ok(s) && s@ == v && final(history)@ == old(history)@ + rows@,
            Err(m) => r matches Err(e) && e@ == ErrorView::Parse(m) && final(history)@ == old(
                history,
            )@,
        },
{
    let page_len = rows.len();
    if page_len > HISTORY_PAGE_LIMIT {
        return Err(ExchangeError::Parse("bitget deposit page exceeds requested limit".to_owned()));
    }
    let next = history_cursor(rows.as_slice());
    let mut rows = rows;
    history.append(&mut rows);
    if page_len < HISTORY_PAGE_LIMIT {
        return Ok(DepositStep::Complete);
    }
    match next {
        None => Ok(DepositStep::Stalled),
        Some(c) => {
            let repeats = match cursor {
                Some(p) => str_eq(c.as_str(), p.as_str()),
                None => false,
            };
            if repeats || page_index >= MAX_HISTORY_PAGES - 1 {
                Ok(DepositStep::Stalled)
            } else {
                Ok(DepositStep::Next(c))
            }
        },
    }
}

/// The error when the page budget runs out, or the cursor stalls, before
/// the records end.
pub fn deposit_history_incomplete() -> (r: ExchangeError)
    ensures
        r@ == ErrorView::Parse(
            "bitget deposit history pagination is incomplete; cannot prove a unique deposit"@,
        ),
{
    ExchangeError::Parse(
        "bitget deposit history pagination is incomplete; cannot prove a unique deposit".to_owned(),
    )
}

/// The venue's deposit address for a coin and chain.
#[derive(Debug, Clone)]
pub struct DepositAddressRow {
    pub address: String,
    pub chain: String,
    pub coin: String,
    pub tag: Option<String>,
}

/// What the deposit address row says of the requested destination: it must
/// be for the requested coin and chain; a blank address is reported missing.
pub open spec fn deposit_destination_of(
    row: DepositAddressRow,
    request: TransferDestinationRequest,
    source_url: Seq<char>,
    checked_at_ms: i64,
) -> Result<DestinationView, Seq<char>> {
    if !eq_ignore_case(row.coin@, trim(request.currency@)) || !eq_ignore_case(
        row.chain@,
        trim(request.network@),
    ) {
        Err("bitget deposit address identity does not match requested coin and chain"@)
    } else {
        let address = non_empty_text(row.address@);
        let status = if address is Some {
            TransferDestinationStatus::Verified
        } else {
            TransferDestinationStatus::Missing
        };
        Ok(
            DestinationView {
                venue: "bitget"@,
                currency: upper(trim(row.coin@)),
                network: trim(row.chain@),
                direction: request.direction,
                address,
                tag: match row.tag {
                    Some(t) => non_empty_text(t@),
                    None => None,
                },
                status,
                allowlisted: None,
                checked_at_ms,
                source_url,
                problem: if address is Some {
                    None
                } else {
                    Some("Bitget 官方接口未返回充值地址"@)
                },
            },
        )
    }
}

/// Reads the venue's deposit address row as evidence for the request.
pub fn deposit_destination(
    row: &DepositAddressRow,
    request: &TransferDestinationRequest,
    source_url: &str,
    checked_at_ms: i64,
) -> (r: Result<TransferDestinationEvidence, ExchangeError>)
    ensures
        match deposit_destination_of(*row, *request, source_url@, checked_at_ms) {
            Ok(v) => r matches Ok(e) && e@ == v,
            Err(m) => r matches Err(e) && e@ == ErrorView::Parse(m),
        },
{
    if !eq_ignore_ascii_case(row.coin.as_str(), trimmed(request.currency.as_str()).as_str())
        || !eq_ignore_ascii_case(row.chain.as_str(), trimmed(request.network.as_str()).as_str()) {
        return Err(
            ExchangeError::Parse(
                "bitget deposit address identity does not match requested coin and chain".to_owned(),
            ),
        );
    }
    let address = non_empty(row.address.as_str());
    let found = address.is_some();
    let tag = match &row.tag {
        Some(t) => non_empty(t.as_str()),
        None => None,
    };
    Ok(
        TransferDestinationEvidence {
            venue: "bitget".to_owned(),
            currency: to_upper(trimmed(row.coin.as_str()).as_str()),
            network: trimmed(row.chain.as_str()),
            direction: request.direction,
            address,
            tag,
            status: if found {
                TransferDestinationStatus::Verified
            } else {
                TransferDestinationStatus::Missing
            },
            allowlisted: None,
            checked_at_ms,
            source_url: source_url.to_owned(),
            problem: if found {
                None
            } else {
                Some("Bitget 官方接口未返回充值地址".to_owned())
            },
        },
    )
}

// ---------------------------------------------------------------------------
// Reading the deposit records
// ---------------------------------------------------------------------------

/// The members of a deposit record, in order.
pub open spec fn deposit_keys() -> Seq<Seq<char>> {
    seq![
        "orderId"@,
        "recordId"@,
        "coin"@,
        "type"@,
        "dest"@,
        "size"@,
        "status"@,
        "toAddress"@,
        "chain"@,
        "createdTime"@,
    ]
}

/// The texts of a record whose every member in `keys` is a string.
pub open spec fn record_texts(v: JsonValue, keys: Seq<Seq<char>>) -> Option<Seq<Seq<char>>> {
    if struct_shaped(v, keys.len()) && forall|i: int|
        0 <= i < keys.len() ==> (#[trigger] required_text(field(v, i as nat, keys[i]))) is Ok {
        Some(Seq::new(keys.len(), |i: int| required_text(field(v, i as nat, keys[i]))->Ok_0))
    } else {
        None
    }
}

/// The texts of a deposit record, in the order of `deposit_keys`.
pub open spec fn deposit_record_texts(r: DepositRecord) -> Seq<Seq<char>> {
    seq![
        r.order_id@,
        r.record_id@,
        r.coin@,
        r.operation_type@,
        r.dest@,
        r.size@,
        r.status@,
        r.to_address@,
        r.chain@,
        r.created_time@,
    ]
}

proof fn lemma_missing_member(v: JsonValue, keys: Seq<Seq<char>>, i: int)
    requires
        0 <= i < keys.len(),
        !(required_text(field(v, i as nat, keys[i])) is Ok),
    ensures
        record_texts(v, keys) is None,
{
}

/// Reads one deposit record: ten string members.
pub fn decode_deposit_record(v: &JsonValue) -> (r: Option<DepositRecord>)
    ensures
        match r {
            Some(d) => record_texts(*v, deposit_keys()) == Some(deposit_record_texts(d)),
            None => record_texts(*v, deposit_keys()) is None,
        },
{
    let ghost k = deposit_keys();
    if !is_struct_shaped(v, 10) {
        return None;
    }
    let order_id = match decode_required_text_field(v, 0, "orderId") {
        Ok(t) => t,
        Err(_) => {
            proof { lemma_missing_member(*v, k, 0); }
            return None;
        },
    };
    let record_id = match decode_required_text_field(v, 1, "recordId") {
        Ok(t) => t,
        Err(_) => {
            proof { lemma_missing_member(*v, k, 1); }
            return None;
        },
    };
    let coin = match decode_required_text_field(v, 2, "coin") {
        Ok(t) => t,
        Err(_) => {
            proof { lemma_missing_member(*v, k, 2); }
            return None;
        },
    };
    let operation_type = match decode_required_text_field(v, 3, "type") {
        Ok(t) => t,
        Err(_) => {
            proof { lemma_missing_member(*v, k, 3); }
            return None;
        },
    };
    let dest = match decode_required_text_field(v, 4, "dest") {
        Ok(t) => t,
        Err(_) => {
            proof { lemma_missing_member(*v, k, 4); }
            return None;
        },
    };
    let size = match decode_required_text_field(v, 5, "size") {
        Ok(t) => t,
        Err(_) => {
            proof { lemma_missing_member(*v, k, 5); }
            return None;
        },
    };
    let status = match decode_required_text_field(v, 6, "status") {
        Ok(t) => t,
        Err(_) => {
            proof { lemma_missing_member(*v, k, 6); }
            return None;
        },
    };
    let to_address = match decode_required_text_field(v, 7, "toAddress") {
        Ok(t) => t,
        Err(_) => {
            proof { lemma_missing_member(*v, k, 7); }
            return None;
        },
    };
    let chain = match decode_required_text_field(v, 8, "chain") {
        Ok(t) => t,
        Err(_) => {
            proof { lemma_missing_member(*v, k, 8); }
            return None;
        },
    };
    let created_time = match decode_required_text_field(v, 9, "createdTime") {
        Ok(t) => t,
        Err(_) => {
            proof { lemma_missing_member(*v, k, 9); }
            return None;
        },
    };
    let d = DepositRecord {
        order_id,
        record_id,
        coin,
        operation_type,
        dest,
        size,
        status,
        to_address,
        chain,
        created_time,
    };
    assert(forall|i: int|
        0 <= i < k.len() ==> (#[trigger] required_text(field(*v, i as nat, k[i]))) is Ok) by {
        assert forall|i: int| 0 <= i < k.len() implies (#[trigger] required_text(
            field(*v, i as nat, k[i]),
        )) is Ok by {
            assert(required_text(field(*v, i as nat, k[i])) == Ok::<Seq<char>, ()>(
                deposit_record_texts(d)[i],
            ));
        }
    }
    assert(record_texts(*v, k) =~= Some(deposit_record_texts(d))) by {
        assert(Seq::new(k.len(), |i: int| required_text(field(*v, i as nat, k[i]))->Ok_0)
            =~= deposit_record_texts(d));
    }
    Some(d)
}

pub open spec fn text_views(v: Seq<String>) -> Seq<Seq<char>> {
    v.map_values(|t: String| t@)
}

/// Reads a record whose every member in `keys` is a string, in key order.
pub fn decode_text_record(v: &JsonValue, keys: &[&str]) -> (r: Option<Vec<String>>)
    ensures
        match r {
            Some(t) => record_texts(*v, str_views(keys@)) == Some(text_views(t@)),
            None => record_texts(*v, str_views(keys@)) is None,
        },
{
    let ghost k = str_views(keys@);
    let n = keys.len();
    if !is_struct_shaped(v, n) {
        return None;
    }
    let mut out: Vec<String> = Vec::new();
    let mut i: usize = 0;
    while i < n
        invariant
            n == keys@.len(),
            k == str_views(keys@),
            i <= n,
            out@.len() == i,
            forall|j: int|
                0 <= j < i ==> required_text(field(*v, j as nat, k[j])) == Ok::<Seq<char>, ()>(
                    #[trigger] out@[j]@,
                ),
        decreases n - i,
    {
        match decode_required_text_field(v, i, keys[i]) {
            Ok(t) => out.push(t),
            Err(_) => {
                proof {
                    lemma_missing_member(*v, k, i as int);
                }
                return None;
            },
        }
        i = i + 1;
    }
    assert forall|j: int| 0 <= j < k.len() implies (#[trigger] required_text(
        field(*v, j as nat, k[j]),
    )) is Ok by {
        assert(required_text(field(*v, j as nat, k[j])) == Ok::<Seq<char>, ()>(out@[j]@));
    }
    assert(Seq::new(k.len(), |j: int| required_text(field(*v, j as nat, k[j]))->Ok_0) =~= text_views(
        out@,
    ));
    Some(out)
}

pub open spec fn records_error() -> Seq<char> {
    "bitget deposit records: invalid payload"@
}

/// The deposit records a body holds, or why it holds none: a body that is
/// not a list envelope of deposit records, or the venue's refusal.
pub open spec fn deposit_records_of(body: Seq<char>) -> Result<Seq<Seq<Seq<char>>>, ErrorView> {
    match json_document(body) {
        None => Err(ErrorView::Parse(records_error())),
        Some(doc) => match list_envelope(doc) {
            None => Err(ErrorView::Parse(records_error())),
            Some((code, msg, data)) => if forall|i: int|
                0 <= i < data.len() ==> (#[trigger] record_texts(data[i], deposit_keys())) is Some {
                match ensure_ok_result(code, msg, "deposit records"@) {
                    Some(e) => Err(e),
                    None => Ok(data.map_values(|v: JsonValue| record_texts(v, deposit_keys())->Some_0)),
                }
            } else {
                Err(ErrorView::Parse(records_error()))
            },
        },
    }
}

/// Reads a page of deposit records.
pub fn deposit_records_from_body(body: &str) -> (r: Result<Vec<DepositRecord>, ExchangeError>)
    ensures
        match r {
            Ok(rows) => deposit_records_of(body@) == Ok::<Seq<Seq<Seq<char>>>, ErrorView>(
                rows@.map_values(|d: DepositRecord| deposit_record_texts(d)),
            ),
            Err(e) => deposit_records_of(body@) == Err::<Seq<Seq<Seq<char>>>, ErrorView>(e@),
        },
{
    let env = match parse_list_envelope(body) {
        Some(e) => e,
        None => {
            return Err(ExchangeError::Parse("bitget deposit records: invalid payload".to_owned()));
        },
    };
    let mut rows: Vec<DepositRecord> = Vec::new();
    let n = env.data.len();
    let mut i: usize = 0;
    while i < n
        invariant
            n == env.data@.len(),
            i <= n,
            rows@.len() == i,
            match json_document(body@) {
                Some(doc) => list_envelope(doc) == Some((env.code@, env.msg@, env.data@)),
                None => false,
            },
            forall|k: int| 0 <= k < i ==> (#[trigger] record_texts(env.data@[k], deposit_keys())) is Some,
            forall|k: int|
                0 <= k < i ==> record_texts(env.data@[k], deposit_keys()) == Some(
                    deposit_record_texts(#[trigger] rows@[k]),
                ),
        decreases n - i,
    {
        match decode_deposit_record(&env.data[i]) {
            Some(d) => rows.push(d),
            None => {
                assert(!(record_texts(env.data@[i as int], deposit_keys()) is Some));
                return Err(ExchangeError::Parse("bitget deposit records: invalid payload".to_owned()));
            },
        }
        i = i + 1;
    }
    assert(rows@.map_values(|d: DepositRecord| deposit_record_texts(d)) =~= env.data@.map_values(
        |v: JsonValue| record_texts(v, deposit_keys())->Some_0,
    ));
    match env.into_data("deposit records") {
        Ok(_) => Ok(rows),
        Err(e) => Err(e),
    }
}

// ---------------------------------------------------------------------------
// Reading the withdraw address book
// ---------------------------------------------------------------------------

/// The coin, chain, address and memo of a book row; the memo defaults to
/// empty.
pub open spec fn address_row_texts(v: JsonValue) -> Option<Seq<Seq<char>>> {
    if !struct_shaped(v, 4) {
        None
    } else {
        match (
            required_text(field(v, 0, "coin"@)),
            required_text(field(v, 1, "chain"@)),
            required_text(field(v, 2, "address"@)),
            text_or_default(field(v, 3, "memo"@)),
        ) {
            (Ok(c), Ok(ch), Ok(a), Ok(m)) => Some(seq![c, ch, a, m]),
            _ => None,
        }
    }
}

pub open spec fn address_row_fields(r: WithdrawAddressRow) -> Seq<Seq<char>> {
    seq![r.coin@, r.chain@, r.address@, r.memo@]
}

pub open spec fn address_rows_fields(rows: Seq<WithdrawAddressRow>) -> Seq<Seq<Seq<char>>> {
    rows.map_values(|w: WithdrawAddressRow| address_row_fields(w))
}

/// Reads one row of the withdraw address book.
pub fn decode_address_row(v: &JsonValue) -> (r: Option<WithdrawAddressRow>)
    ensures
        match r {
            Some(row) => address_row_texts(*v) == Some(address_row_fields(row)),
            None => address_row_texts(*v) is None,
        },
{
    if !is_struct_shaped(v, 4) {
        return None;
    }
    let coin = match decode_required_text_field(v, 0, "coin") {
        Ok(t) => t,
        Err(_) => return None,
    };
    let chain = match decode_required_text_field(v, 1, "chain") {
        Ok(t) => t,
        Err(_) => return None,
    };
    let address = match decode_required_text_field(v, 2, "address") {
        Ok(t) => t,
        Err(_) => return None,
    };
    let memo = match decode_text_field(v, 3, "memo") {
        Ok(t) => t,
        Err(_) => return None,
    };
    Some(WithdrawAddressRow { coin, chain, address, memo })
}

/// The rows and cursor of an address book page: `addressList` defaults to
/// empty and `cursor` to none.
pub open spec fn address_page_texts(d: JsonValue) -> Option<(Seq<Seq<Seq<char>>>, Option<Seq<char>>)> {
    if !struct_shaped(d, 2) {
        None
    } else {
        match (list_or_default(field(d, 0, "addressList"@)), optional_text(field(d, 1, "cursor"@))) {
            (Some(items), Ok(c)) => if forall|i: int|
                0 <= i < items.len() ==> (#[trigger] address_row_texts(items[i])) is Some {
                Some((items.map_values(|v: JsonValue| address_row_texts(v)->Some_0), c))
            } else {
                None
            },
            _ => None,
        }
    }
}

pub open spec fn address_book_error() -> Seq<char> {
    "bitget withdraw address book: invalid payload"@
}

/// The address book page a body holds, or why it holds none.
pub open spec fn address_book_page_of(body: Seq<char>) -> Result<
    (Seq<Seq<Seq<char>>>, Option<Seq<char>>),
    ErrorView,
> {
    match json_document(body) {
        None => Err(ErrorView::Parse(address_book_error())),
        Some(doc) => match object_envelope(doc) {
            None => Err(ErrorView::Parse(address_book_error())),
            Some((code, msg, data)) => {
                let page = match data {
                    Some(d) => address_page_texts(d),
                    None => None,
                };
                if data is Some && page is None {
                    Err(ErrorView::Parse(address_book_error()))
                } else {
                    match ensure_ok_result(code, msg, "withdraw address book"@) {
                        Some(e) => Err(e),
                        None => match page {
                            Some(p) => Ok(p),
                            None => Err(empty_data_error("withdraw address book"@)),
                        },
                    }
                }
            },
        },
    }
}

fn address_book_invalid() -> (r: ExchangeError)
    ensures
        r@ == ErrorView::Parse(address_book_error()),
{
    ExchangeError::Parse("bitget withdraw address book: invalid payload".to_owned())
}

/// Reads a page of the withdraw address book.
pub fn withdraw_address_page_from_body(body: &str) -> (r: Result<WithdrawAddressPage, ExchangeError>)
    ensures
        match r {
            Ok(p) => address_book_page_of(body@) == Ok::<
                (Seq<Seq<Seq<char>>>, Option<Seq<char>>),
                ErrorView,
            >(
                (
                    address_rows_fields(p.address_list@),
                    opt_text(p.cursor),
                ),
            ),
            Err(e) => address_book_page_of(body@) == Err::<
                (Seq<Seq<Seq<char>>>, Option<Seq<char>>),
                ErrorView,
            >(e@),
        },
{
    let env = match parse_object_envelope(body) {
        Some(e) => e,
        None => return Err(address_book_invalid()),
    };
    let ghost data = env.data;
    let page = match &env.data {
        None => None,
        Some(d) => {
            if !is_struct_shaped(d, 2) {
                return Err(address_book_invalid());
            }
            let empty: Vec<JsonValue> = Vec::new();
            let items: &Vec<JsonValue> = match get_field(d, 0, "addressList") {
                None => &empty,
                Some(JsonValue::Array(items)) => items,
                Some(_) => return Err(address_book_invalid()),
            };
            let cursor = match decode_optional_text_field(d, 1, "cursor") {
                Ok(c) => c,
                Err(_) => return Err(address_book_invalid()),
            };
            let n = items.len();
            let mut rows: Vec<WithdrawAddressRow> = Vec::new();
            let mut i: usize = 0;
            assert(list_or_default(field(*d, 0, "addressList"@)) == Some(items@));
            while i < n
                invariant
                    n == items@.len(),
                    i <= n,
                    rows@.len() == i,
                    match json_document(body@) {
                        Some(doc) => object_envelope(doc) == Some((env.code@, env.msg@, env.data)),
                        None => false,
                    },
                    env.data == Some(*d),
                    struct_shaped(*d, 2),
                    list_or_default(field(*d, 0, "addressList"@)) == Some(items@),
                    optional_text(field(*d, 1, "cursor"@)) == Ok::<Option<Seq<char>>, ()>(
                        opt_text(cursor),
                    ),
                    forall|k: int| 0 <= k < i ==> (#[trigger] address_row_texts(items@[k])) is Some,
                    forall|k: int|
                        0 <= k < i ==> address_row_texts(items@[k]) == Some(
                            address_row_fields(#[trigger] rows@[k]),
                        ),
                decreases n - i,
            {
                match decode_address_row(&items[i]) {
                    Some(row) => rows.push(row),
                    None => {
                        assert(!(address_row_texts(items@[i as int]) is Some));
                        return Err(address_book_invalid());
                    },
                }
                i = i + 1;
            }
            assert(address_rows_fields(rows@) =~= items@.map_values(|v: JsonValue| address_row_texts(v)->Some_0));
            let p = WithdrawAddressPage { address_list: rows, cursor };
            assert(address_page_texts(*d) == Some(
                (
                    address_rows_fields(p.address_list@),
                    opt_text(p.cursor),
                ),
            ));
            Some(p)
        },
    };
    assert(page matches Some(p) ==> data matches Some(dv) && address_page_texts(dv) == Some(
        (
            address_rows_fields(p.address_list@),
            opt_text(p.cursor),
        ),
    ));
    match env.into_result("withdraw address book") {
        Err(e) => Err(e),
        Ok(_) => match page {
            Some(p) => Ok(p),
            None => Err(address_book_invalid()),
        },
    }
}

// ---------------------------------------------------------------------------
// Request paths
// ---------------------------------------------------------------------------

pub open spec fn pairs_view(pairs: Seq<(String, String)>) -> Seq<(Seq<char>, Seq<char>)> {
    pairs.map_values(|p: (String, String)| (p.0@, p.1@))
}

/// What `url::form_urlencoded::Serializer` writes for a list of pairs.
pub uninterp spec fn form_query_text(pairs: Seq<(Seq<char>, Seq<char>)>) -> Seq<char>;

/// Calls `url::form_urlencoded::Serializer::extend_pairs` on the pairs, in
/// order, and `finish`. The contract claims only that the query text is a
/// function of the pairs.
#[verifier::external_body]
pub(crate) fn form_query(pairs: &Vec<(String, String)>) -> (r: String)
    ensures
        r@ == form_query_text(pairs_view(pairs@)),
{
    let mut serializer = url::form_urlencoded::Serializer::new(String::new());
    serializer.extend_pairs(pairs.iter());
    serializer.finish()
}

fn pair(key: &str, value: &str) -> (r: (String, String))
    ensures
        r.0@ == key@,
        r.1@ == value@,
{
    (key.to_owned(), value.to_owned())
}

/// The query of an address book page: coin, address type, page size, and the
/// cursor when there is one.
pub open spec fn withdraw_address_params(
    currency: Seq<char>,
    address_type: Seq<char>,
    cursor: Option<Seq<char>>,
) -> Seq<(Seq<char>, Seq<char>)> {
    seq![("coin"@, currency), ("type"@, address_type), ("limit"@, "10"@)] + match cursor {
        Some(c) => seq![("cursor"@, c)],
        None => Seq::empty(),
    }
}

/// The path and query of an address book page.
pub fn withdraw_address_path(
    request: &TransferDestinationRequest,
    query: &WithdrawAddressQuery,
    cursor: &Option<String>,
) -> (r: String)
    ensures
        r@ == WITHDRAW_ADDRESS_PATH@ + "?"@ + form_query_text(
            withdraw_address_params(request.currency@, query.address_type@, opt_text(*cursor)),
        ),
{
    let mut params: Vec<(String, String)> = Vec::new();
    params.push(pair("coin", request.currency.as_str()));
    params.push(pair("type", query.address_type.as_str()));
    params.push(pair("limit", "10"));
    match cursor {
        Some(c) => params.push(pair("cursor", c.as_str())),
        None => {},
    }
    assert(pairs_view(params@) =~= withdraw_address_params(
        request.currency@,
        query.address_type@,
        opt_text(*cursor),
    ));
    let mut path = WITHDRAW_ADDRESS_PATH.to_owned();
    push_str(&mut path, "?");
    let q = form_query(&params);
    push_str(&mut path, q.as_str());
    path
}

/// The query of a deposit records page: coin, time window, page size, and
/// the cursor when there is one.
pub open spec fn deposit_history_params(
    currency: Seq<char>,
    start_ms: i64,
    end_ms: i64,
    cursor: Option<Seq<char>>,
) -> Seq<(Seq<char>, Seq<char>)> {
    seq![
        ("coin"@, currency),
        ("startTime"@, int_text(start_ms as int)),
        ("endTime"@, int_text(end_ms as int)),
        ("limit"@, "100"@),
    ] + match cursor {
        Some(c) => seq![("cursor"@, c)],
        None => Seq::empty(),
    }
}

/// The path and query of a deposit records page.
pub fn deposit_history_path(
    request: &DepositStatusRequest,
    start_ms: i64,
    end_ms: i64,
    cursor: &Option<String>,
) -> (r: String)
    ensures
        r@ == DEPOSIT_HISTORY_PATH@ + "?"@ + form_query_text(
            deposit_history_params(request.currency@, start_ms, end_ms, opt_text(*cursor)),
        ),
{
    let mut params: Vec<(String, String)> = Vec::new();
    params.push(pair("coin", request.currency.as_str()));
    let start = int_to_string(start_ms);
    params.push(pair("startTime", start.as_str()));
    let end = int_to_string(end_ms);
    params.push(pair("endTime", end.as_str()));
    params.push(pair("limit", "100"));
    match cursor {
        Some(c) => params.push(pair("cursor", c.as_str())),
        None => {},
    }
    assert(pairs_view(params@) =~= deposit_history_params(
        request.currency@,
        start_ms,
        end_ms,
        opt_text(*cursor),
    ));
    let mut path = DEPOSIT_HISTORY_PATH.to_owned();
    push_str(&mut path, "?");
    let q = form_query(&params);
    push_str(&mut path, q.as_str());
    path
}

/// How long to wait before asking for address book page `page_index`: the
/// venue's rate limit between pages, nothing before the first.
pub fn address_book_pause_ms(page_index: usize) -> (r: u64)
    ensures
        r == (if page_index > 0 {
            WITHDRAW_ADDRESS_RATE_LIMIT_MS
        } else {
            0
        }),
{
    if page_index > 0 {
        WITHDRAW_ADDRESS_RATE_LIMIT_MS
    } else {
        0
    }
}

// ---------------------------------------------------------------------------
// Reading the deposit address
// ---------------------------------------------------------------------------

/// The address, chain, coin and tag of a deposit address row; the tag is
/// optional.
pub open spec fn deposit_address_texts(d: JsonValue) -> Option<(Seq<Seq<char>>, Option<Seq<char>>)> {
    if !struct_shaped(d, 4) {
        None
    } else {
        match (
            required_text(field(d, 0, "address"@)),
            required_text(field(d, 1, "chain"@)),
            required_text(field(d, 2, "coin"@)),
            optional_text(field(d, 3, "tag"@)),
        ) {
            (Ok(a), Ok(ch), Ok(c), Ok(t)) => Some((seq![a, ch, c], t)),
            _ => None,
        }
    }
}

pub open spec fn deposit_address_fields(r: DepositAddressRow) -> (Seq<Seq<char>>, Option<Seq<char>>) {
    (seq![r.address@, r.chain@, r.coin@], opt_text(r.tag))
}

/// The deposit address row a body holds, or why it holds none.
pub open spec fn deposit_address_of(body: Seq<char>) -> Result<
    (Seq<Seq<char>>, Option<Seq<char>>),
    ErrorView,
> {
    let invalid = ErrorView::Parse("bitget deposit address: invalid payload"@);
    match json_document(body) {
        None => Err(invalid),
        Some(doc) => match object_envelope(doc) {
            None => Err(invalid),
            Some((code, msg, data)) => {
                let row = match data {
                    Some(d) => deposit_address_texts(d),
                    None => None,
                };
                if data is Some && row is None {
                    Err(invalid)
                } else {
                    match ensure_ok_result(code, msg, "deposit address"@) {
                        Some(e) => Err(e),
                        None => match row {
                            Some(r) => Ok(r),
                            None => Err(empty_data_error("deposit address"@)),
                        },
                    }
                }
            },
        },
    }
}

fn deposit_address_invalid() -> (e: ExchangeError)
    ensures
        e@ == ErrorView::Parse("bitget deposit address: invalid payload"@),
{
    ExchangeError::Parse("bitget deposit address: invalid payload".to_owned())
}

/// Reads the venue's deposit address row.
pub fn deposit_address_from_body(body: &str) -> (r: Result<DepositAddressRow, ExchangeError>)
    ensures
        match r {
            Ok(row) => deposit_address_of(body@) == Ok::<
                (Seq<Seq<char>>, Option<Seq<char>>),
                ErrorView,
            >(deposit_address_fields(row)),
            Err(e) => deposit_address_of(body@) == Err::<
                (Seq<Seq<char>>, Option<Seq<char>>),
                ErrorView,
            >(e@),
        },
{
    let env = match parse_object_envelope(body) {
        Some(e) => e,
        None => return Err(deposit_address_invalid()),
    };
    let row = match &env.data {
        None => None,
        Some(d) => {
            if !is_struct_shaped(d, 4) {
                return Err(deposit_address_invalid());
            }
            let address = match decode_required_text_field(d, 0, "address") {
                Ok(t) => t,
                Err(_) => return Err(deposit_address_invalid()),
            };
            let chain = match decode_required_text_field(d, 1, "chain") {
                Ok(t) => t,
                Err(_) => return Err(deposit_address_invalid()),
            };
            let coin = match decode_required_text_field(d, 2, "coin") {
                Ok(t) => t,
                Err(_) => return Err(deposit_address_invalid()),
            };
            let tag = match decode_optional_text_field(d, 3, "tag") {
                Ok(t) => t,
                Err(_) => return Err(deposit_address_invalid()),
            };
            let r = DepositAddressRow { address, chain, coin, tag };
            assert(deposit_address_texts(*d) == Some(deposit_address_fields(r)));
            Some(r)
        },
    };
    match env.into_result("deposit address") {
        Err(e) => Err(e),
        Ok(_) => match row {
            Some(r) => Ok(r),
            None => Err(deposit_address_invalid()),
        },
    }
}

/// The path and query of the deposit address: coin and chain as asked.
pub open spec fn deposit_address_params(request: TransferDestinationRequest) -> Seq<(Seq<char>, Seq<char>)> {
    seq![("coin"@, request.currency@), ("chain"@, request.network@)]
}

/// Checks a deposit address request (currency and network present) and
/// gives the path and query to read it from.
pub fn deposit_address_path(request: &TransferDestinationRequest) -> (r: Result<String, ExchangeError>)
    ensures
        if trim(request.currency@).len() == 0 {
            r matches Err(e) && e@ == ErrorView::Parse(empty_field_error("currency"@))
        } else if trim(request.network@).len() == 0 {
            r matches Err(e) && e@ == ErrorView::Parse(empty_field_error("network"@))
        } else {
            r matches Ok(p) && p@ == DEPOSIT_ADDRESS_PATH@ + "?"@ + form_query_text(
                deposit_address_params(*request),
            )
        },
{
    if trimmed(request.currency.as_str()).unicode_len() == 0 {
        return Err(empty_field("currency"));
    }
    if trimmed(request.network.as_str()).unicode_len() == 0 {
        return Err(empty_field("network"));
    }
    let mut params: Vec<(String, String)> = Vec::new();
    params.push(pair("coin", request.currency.as_str()));
    params.push(pair("chain", request.network.as_str()));
    assert(pairs_view(params@) =~= deposit_address_params(*request));
    let mut path = DEPOSIT_ADDRESS_PATH.to_owned();
    push_str(&mut path, "?");
    let q = form_query(&params);
    push_str(&mut path, q.as_str());
    Ok(path)
}

// ---------------------------------------------------------------------------
// Laws
// ---------------------------------------------------------------------------

/// Evidence of a deposit comes from the one record that is the deposit, and
/// names the requested transaction.
pub proof fn deposit_evidence_names_the_requested_transaction(
    rows: Seq<DepositRecord>,
    r: DepositStatusRequest,
    source_url: Seq<char>,
    checked_at_ms: i64,
)
    ensures
        matching_outcome(rows, r, source_url, checked_at_ms) matches Ok(Some(v)) ==> {
            &&& matching_rows(rows, r).len() == 1
            &&& same_on_network(v.transaction_id, r.transaction_id@, r.network@)
        },
{
    lemma_matching_rows_are_candidates(rows, r);
    let m = matching_rows(rows, r);
    if m.len() == 1 {
        let row = m[0];
        crate::text::lemma_trim_idempotent(row.record_id@);
    }
}

proof fn lemma_matching_rows_are_candidates(rows: Seq<DepositRecord>, r: DepositStatusRequest)
    ensures
        forall|i: int|
            0 <= i < matching_rows(rows, r).len() ==> is_candidate(
                #[trigger] matching_rows(rows, r)[i],
                r,
            ),
    decreases rows.len(),
{
    if rows.len() > 0 {
        lemma_matching_rows_are_candidates(rows.drop_last(), r);
        let prev = matching_rows(rows.drop_last(), r);
        if is_candidate(rows.last(), r) && identity_error(rows.last(), r) is None {
            assert forall|i: int| 0 <= i < prev.push(rows.last()).len() implies is_candidate(
                #[trigger] prev.push(rows.last())[i],
                r,
            ) by {
                if i < prev.len() {
                    assert(prev.push(rows.last())[i] == prev[i]);
                }
            }
        }
    }
}

/// Paging never asks twice with the same cursor and never past its budget: a
/// step that moves on moves to a cursor other than the one just used, from a
/// page before the last one allowed, for deposit records and for the
/// withdraw address book alike.
pub proof fn paging_moves_to_a_new_cursor(
    rows: Seq<DepositRecord>,
    cursor: Option<Seq<char>>,
    request: TransferDestinationRequest,
    expected_address: Seq<char>,
    page: WithdrawAddressPage,
    page_index: usize,
    source_url: Seq<char>,
    checked_at_ms: i64,
)
    ensures
        deposit_step(rows, cursor, page_index) matches Ok(DepositStepView::Next(c)) ==> Some(c)
            != cursor && page_index + 1 < MAX_HISTORY_PAGES,
        withdraw_step(request, expected_address, page, cursor, page_index, source_url, checked_at_ms)
            matches WithdrawStepView::Next(c) ==> c != cursor && page_index + 1
            < MAX_WITHDRAW_ADDRESS_PAGES,
{
}

} // verus!
