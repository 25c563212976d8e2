//! Laws of the block explorer: what is asked, and what replies mean.

use crate::api::{
    broadcast_result, get_request, inscription_result, is_success, reply_result, status_text,
    transaction_of_hex, OutSpend, Reply,
};
use crate::encoding::{hex_bytes, hex_refusal, hex_text, lemma_hex_round_trip};
use crate::tx::{transaction_decoded, TransactionView};
use vstd::prelude::*;

verus! {

/// A request that asks has the address that it was made with, and nothing else.
pub proof fn law_get_request(url: Seq<char>)
    ensures
        get_request(url).url == url,
        !get_request(url).post,
        get_request(url).body is None,
        get_request(url).content_type is None,
{
}

/// A status stands for success if and only if its hundreds are two.
pub proof fn law_success(status: u16)
    ensures
        is_success(status) <==> status / 100 == 2,
{
}

/// A reply brings a value if and only if the status stands for success and the value could
/// be read, and then it is that value; otherwise it brings the first thing that went wrong:
/// the request, the status or the reading.
pub proof fn law_reply<T>(reply: Reply<T>, body_prefix: Seq<char>)
    ensures
        match reply {
            Reply::RequestFailed(e) => reply_result(reply, body_prefix) == Err::<T, Seq<char>>(
                "Request failed: "@ + e@,
            ),
            Reply::Answered { status, body } => {
                &&& status / 100 != 2 ==> reply_result(reply, body_prefix) == Err::<T, Seq<char>>(
                    "API error: "@ + status_text(status),
                )
                &&& status / 100 == 2 ==> match body {
                    Ok(value) => reply_result(reply, body_prefix) == Ok::<T, Seq<char>>(value),
                    Err(e) => reply_result(reply, body_prefix) == Err::<T, Seq<char>>(
                        body_prefix + e@,
                    ),
                }
            },
        },
{
}

/// A reply to a broadcast brings its text as the identifier if the status stands for
/// success, and as the reason of the refusal otherwise.
pub proof fn law_broadcast_reply(reply: Reply<String>)
    ensures
        match reply {
            Reply::RequestFailed(e) => broadcast_result(reply) == Err::<Seq<char>, Seq<char>>(
                "Request failed: "@ + e@,
            ),
            Reply::Answered { status, body } => match body {
                Ok(text) => broadcast_result(reply) == if status / 100 == 2 {
                    Ok::<Seq<char>, Seq<char>>(text@)
                } else {
                    Err("Broadcast failed: "@ + text@)
                },
                Err(e) => broadcast_result(reply) == if status / 100 == 2 {
                    Err::<Seq<char>, Seq<char>>("Failed to read response: "@ + e@)
                } else {
                    Err("Broadcast failed: "@)
                },
            },
        },
{
}

/// A reply shows an inscription if and only if the status stands for success and what was
/// read names one; only a failed request is an error.
pub proof fn law_inscription_reply(reply: Reply<OutSpend>)
    ensures
        match reply {
            Reply::RequestFailed(e) => inscription_result(reply) == Err::<bool, Seq<char>>(
                "Request failed: "@ + e@,
            ),
            Reply::Answered { status, body } => match body {
                Ok(outspend) => inscription_result(reply) == Ok::<bool, Seq<char>>(
                    status / 100 == 2 && outspend.inscription is Some,
                ),
                Err(_) => inscription_result(reply) == Ok::<bool, Seq<char>>(false),
            },
        },
{
}

/// A transaction in hexadecimal reads as the transaction that its bytes encode.
pub proof fn law_transaction_of_hex(bytes: Seq<u8>, text: Seq<char>)
    ensures
        match transaction_decoded(bytes) {
            Ok(content) => transaction_of_hex(hex_text(bytes)) matches Ok(tx) && tx.bytes == bytes
                && tx.unsigned_tx == content.unsigned_tx && tx.witnesses == content.witnesses,
            Err(e) => transaction_of_hex(hex_text(bytes)) == Err::<TransactionView, Seq<char>>(
                "Failed to parse transaction: "@ + e,
            ),
        },
        hex_bytes(text) is None ==> transaction_of_hex(text) == Err::<TransactionView, Seq<char>>(
            "Failed to decode hex: "@ + hex_refusal(text),
        ),
        hex_bytes(text) matches Some(read) ==> (transaction_of_hex(text) matches Ok(tx) ==> tx.bytes
            == read),
{
    lemma_hex_round_trip(bytes);
}

} // verus!
