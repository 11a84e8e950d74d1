use netraflow::ingest::{
    check_block_reply, check_transaction_reply, next_start_block, read_block_number, ReplyError,
    RpcFault, RpcResult, DEFAULT_FAULT_CODE, DEFAULT_FAULT_MESSAGE,
};

fn fault(code: Option<i64>, message: Option<&str>) -> Option<RpcFault> {
    Some(RpcFault { code, message: message.map(|m| m.to_string()) })
}

fn text(value: &str) -> RpcResult {
    RpcResult::Text(value.to_string())
}

#[test]
fn reply_with_a_fault_is_that_fault_whatever_the_result() {
    let expected = Err(ReplyError::Rpc(-32000, "header not found".to_string()));
    assert_eq!(read_block_number(fault(Some(-32000), Some("header not found")), text("0x10")), expected);
    assert_eq!(
        read_block_number(fault(Some(-32000), Some("header not found")), RpcResult::Missing),
        expected
    );
    assert_eq!(
        check_block_reply(fault(Some(1), Some("m")), &RpcResult::Other),
        Some(ReplyError::Rpc(1, "m".to_string()))
    );
    assert_eq!(
        check_transaction_reply(fault(Some(1), Some("m")), &RpcResult::Null, "0xh"),
        Some(ReplyError::Rpc(1, "m".to_string()))
    );
}

#[test]
fn reply_fault_without_code_or_message_gets_the_defaults() {
    assert_eq!(DEFAULT_FAULT_CODE, 0);
    assert_eq!(DEFAULT_FAULT_MESSAGE, "Unknown error");
    assert_eq!(
        read_block_number(fault(None, None), text("0x10")),
        Err(ReplyError::Rpc(0, "Unknown error".to_string()))
    );
    assert_eq!(
        read_block_number(fault(Some(7), None), text("0x10")),
        Err(ReplyError::Rpc(7, "Unknown error".to_string()))
    );
    assert_eq!(
        read_block_number(fault(None, Some("boom")), text("0x10")),
        Err(ReplyError::Rpc(0, "boom".to_string()))
    );
}

#[test]
fn reply_block_number_is_read_as_a_hexadecimal_quantity() {
    assert_eq!(read_block_number(None, text("0x10")), Ok(16));
    assert_eq!(read_block_number(None, text("0x14b9a3c")), Ok(21_731_900));
    assert_eq!(read_block_number(None, text("ff")), Ok(255));
}

#[test]
fn reply_block_number_that_does_not_read_keeps_the_text() {
    assert_eq!(
        read_block_number(None, text("latest")),
        Err(ReplyError::ParseInt("latest".to_string()))
    );
    assert_eq!(read_block_number(None, text("0x")), Err(ReplyError::ParseInt("0x".to_string())));
    assert_eq!(
        read_block_number(None, text("0x10000000000000000")),
        Err(ReplyError::ParseInt("0x10000000000000000".to_string()))
    );
}

#[test]
fn reply_without_a_text_has_no_block_number() {
    assert_eq!(read_block_number(None, RpcResult::Missing), Err(ReplyError::EmptyBlockNumber));
    assert_eq!(read_block_number(None, RpcResult::Null), Err(ReplyError::EmptyBlockNumber));
    assert_eq!(read_block_number(None, RpcResult::Other), Err(ReplyError::EmptyBlockNumber));
}

#[test]
fn reply_for_a_block_needs_a_result() {
    assert_eq!(check_block_reply(None, &RpcResult::Missing), Some(ReplyError::EmptyBlockResult));
    assert_eq!(check_block_reply(None, &RpcResult::Null), None);
    assert_eq!(check_block_reply(None, &RpcResult::Other), None);
    assert_eq!(check_block_reply(None, &text("x")), None);
}

#[test]
fn reply_for_a_transaction_needs_a_result_that_is_not_null() {
    assert_eq!(
        check_transaction_reply(None, &RpcResult::Missing, "0xh"),
        Some(ReplyError::EmptyBlockResult)
    );
    assert_eq!(
        check_transaction_reply(None, &RpcResult::Null, "0xh"),
        Some(ReplyError::TxNotFound("0xh".to_string()))
    );
    assert_eq!(check_transaction_reply(None, &RpcResult::Other, "0xh"), None);
    assert_eq!(check_transaction_reply(None, &text("x"), "0xh"), None);
}

#[test]
fn next_page_starts_at_the_block_of_the_last_transfer() {
    assert_eq!(next_start_block(5, "12999999"), Some(12_999_999));
    assert_eq!(next_start_block(5, "5"), Some(5));
    assert_eq!(next_start_block(5, "0"), Some(0));
    assert_eq!(next_start_block(u64::MAX, "7"), Some(7));
}

#[test]
fn next_page_starts_one_block_on_where_the_number_does_not_read() {
    assert_eq!(next_start_block(5, ""), Some(6));
    assert_eq!(next_start_block(5, "0x10"), Some(6));
    assert_eq!(next_start_block(0, "latest"), Some(1));
    assert_eq!(next_start_block(5, "18446744073709551616"), Some(6));
    assert_eq!(next_start_block(u64::MAX - 1, "x"), Some(u64::MAX));
    assert_eq!(next_start_block(u64::MAX, "x"), None);
}
