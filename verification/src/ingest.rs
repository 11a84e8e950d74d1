//! The rules by which the replies of a node and the pages of the transfer
//! index are read. Asking the node and decoding what it sends is left to
//! whoever calls; here it is decided what a reply means.

use vstd::prelude::*;
use crate::quantity::{decimal_u64, hex_u64, parse_decimal_u64, parse_hex_u64};

verus! {

/// The code of a fault that names none.
pub const DEFAULT_FAULT_CODE: i64 = 0;

/// The message of a fault that gives none.
pub const DEFAULT_FAULT_MESSAGE: &'static str = "Unknown error";

/// What a reply says of a fault, as far as it says it.
#[derive(Debug)]
pub struct RpcFault {
    pub code: Option<i64>,
    pub message: Option<String>,
}

/// What a reply holds as its result.
#[derive(Debug)]
pub enum RpcResult {
    /// The reply has no result.
    Missing,
    /// The result is null.
    Null,
    /// The result is a text.
    Text(String),
    /// The result is anything else.
    Other,
}

/// Why a reply gives nothing to work with.
#[derive(Debug, PartialEq, Eq)]
pub enum ReplyError {
    /// The node reports a fault, with its code and message.
    Rpc(i64, String),
    /// The block number is no hexadecimal quantity; the text is kept.
    ParseInt(String),
    /// The reply has no block number, or none that is a text.
    EmptyBlockNumber,
    /// The reply has no result.
    EmptyBlockResult,
    /// The node knows no transaction with this hash.
    TxNotFound(String),
}

/// A reply error as plain values.
pub ghost enum ReplyErrorView {
    Rpc(i64, Seq<char>),
    ParseInt(Seq<char>),
    EmptyBlockNumber,
    EmptyBlockResult,
    TxNotFound(Seq<char>),
}

impl View for ReplyError {
    type V = ReplyErrorView;

    open spec fn view(&self) -> ReplyErrorView {
        match *self {
            ReplyError::Rpc(code, message) => ReplyErrorView::Rpc(code, message@),
            ReplyError::ParseInt(text) => ReplyErrorView::ParseInt(text@),
            ReplyError::EmptyBlockNumber => ReplyErrorView::EmptyBlockNumber,
            ReplyError::EmptyBlockResult => ReplyErrorView::EmptyBlockResult,
            ReplyError::TxNotFound(hash) => ReplyErrorView::TxNotFound(hash@),
        }
    }
}

/// The error that a fault stands for: its code, or zero, and its message, or
/// the words for an unknown error.
pub open spec fn fault_error(fault: RpcFault) -> ReplyErrorView {
    ReplyErrorView::Rpc(
        match fault.code {
            Some(code) => code,
            None => DEFAULT_FAULT_CODE,
        },
        match fault.message {
            Some(message) => message@,
            None => DEFAULT_FAULT_MESSAGE@,
        },
    )
}

/// What a reply to the question for the latest block number means. A fault
/// comes first; then the result has to be a text, and the text a hexadecimal
/// quantity of up to 64 bits.
pub open spec fn block_number_reply(fault: Option<RpcFault>, result: RpcResult) -> Result<
    u64,
    ReplyErrorView,
> {
    match fault {
        Some(fault) => Err(fault_error(fault)),
        None => match result {
            RpcResult::Text(text) => match hex_u64(text@) {
                Some(number) => Ok(number),
                None => Err(ReplyErrorView::ParseInt(text@)),
            },
            _ => Err(ReplyErrorView::EmptyBlockNumber),
        },
    }
}

/// What stands in the way of decoding the block of a reply: a fault, or that
/// the reply has no result.
pub open spec fn block_reply(fault: Option<RpcFault>, result: RpcResult) -> Option<
    ReplyErrorView,
> {
    match fault {
        Some(fault) => Some(fault_error(fault)),
        None => match result {
            RpcResult::Missing => Some(ReplyErrorView::EmptyBlockResult),
            _ => None,
        },
    }
}

/// What stands in the way of decoding the transaction of a reply: a fault,
/// that the reply has no result, or that the result is null, which means that
/// the node knows no transaction with the hash asked for.
pub open spec fn transaction_reply(
    fault: Option<RpcFault>,
    result: RpcResult,
    hash: Seq<char>,
) -> Option<ReplyErrorView> {
    match fault {
        Some(fault) => Some(fault_error(fault)),
        None => match result {
            RpcResult::Missing => Some(ReplyErrorView::EmptyBlockResult),
            RpcResult::Null => Some(ReplyErrorView::TxNotFound(hash)),
            _ => None,
        },
    }
}

/// The views of a result and of what may stand in the way.
pub open spec fn error_view(error: Option<ReplyError>) -> Option<ReplyErrorView> {
    match error {
        Some(e) => Some(e@),
        None => None,
    }
}

/// The view of a number or the error in its place.
pub open spec fn number_view(outcome: Result<u64, ReplyError>) -> Result<u64, ReplyErrorView> {
    match outcome {
        Ok(n) => Ok(n),
        Err(e) => Err(e@),
    }
}

fn error_of_fault(fault: RpcFault) -> (error: ReplyError)
    ensures
        error@ == fault_error(fault),
{
    let code = match fault.code {
        Some(code) => code,
        None => DEFAULT_FAULT_CODE,
    };
    let message = match fault.message {
        Some(message) => message,
        None => DEFAULT_FAULT_MESSAGE.to_owned(),
    };
    ReplyError::Rpc(code, message)
}

/// Reads the reply to the question for the latest block number.
pub fn read_block_number(fault: Option<RpcFault>, result: RpcResult) -> (outcome: Result<
    u64,
    ReplyError,
>)
    ensures
        number_view(outcome) == block_number_reply(fault, result),
{
    match fault {
        Some(fault) => Err(error_of_fault(fault)),
        None => match result {
            RpcResult::Text(text) => match parse_hex_u64(text.as_str()) {
                Some(number) => Ok(number),
                None => Err(ReplyError::ParseInt(text)),
            },
            _ => Err(ReplyError::EmptyBlockNumber),
        },
    }
}

/// Says what stands in the way of decoding the block of a reply, if anything.
pub fn check_block_reply(fault: Option<RpcFault>, result: &RpcResult) -> (error: Option<
    ReplyError,
>)
    ensures
        error_view(error) == block_reply(fault, *result),
{
    match fault {
        Some(fault) => Some(error_of_fault(fault)),
        None => match result {
            RpcResult::Missing => Some(ReplyError::EmptyBlockResult),
            _ => None,
        },
    }
}

/// Says what stands in the way of decoding the transaction of a reply, if anything.
pub fn check_transaction_reply(fault: Option<RpcFault>, result: &RpcResult, hash: &str) -> (error:
    Option<ReplyError>)
    ensures
        error_view(error) == transaction_reply(fault, *result, hash@),
{
    match fault {
        Some(fault) => Some(error_of_fault(fault)),
        None => match result {
            RpcResult::Missing => Some(ReplyError::EmptyBlockResult),
            RpcResult::Null => Some(ReplyError::TxNotFound(hash.to_owned())),
            _ => None,
        },
    }
}

/// The block from which the page after a page that was not empty is asked:
/// the block number of the last transfer of the page, read as a decimal
/// number; where it does not read as one, the block after `start_block`, if
/// there is one.
pub open spec fn start_of_next_page(start_block: u64, last_block_number: Seq<char>) -> Option<
    u64,
> {
    match decimal_u64(last_block_number) {
        Some(number) => Some(number),
        None => if start_block < u64::MAX {
            Some((start_block + 1) as u64)
        } else {
            None
        },
    }
}

/// Says from which block the next page is asked.
pub fn next_start_block(start_block: u64, last_block_number: &str) -> (next: Option<u64>)
    ensures
        next == start_of_next_page(start_block, last_block_number@),
{
    match parse_decimal_u64(last_block_number) {
        Some(number) => Some(number),
        None => start_block.checked_add(1),
    }
}

} // verus!
