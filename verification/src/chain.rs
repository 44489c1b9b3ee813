//! Hashes, blocks and transactions, and the calls into `bitcoin` for them.

use vstd::prelude::*;
use crate::error::{error_text, is_refusal, RpcError};
use crate::json::{Json, JsonView};
use crate::wire::{import, read_string, string_refusal, value_json};

verus! {

/// The number that a hexadecimal digit stands for.
pub open spec fn digit_value(c: char) -> Option<int> {
    if '0' <= c <= '9' {
        Some(c as int - '0' as int)
    } else if 'a' <= c <= 'f' {
        Some(c as int - 'a' as int + 10)
    } else if 'A' <= c <= 'F' {
        Some(c as int - 'A' as int + 10)
    } else {
        None
    }
}

/// The lower-case hexadecimal digit for a number below sixteen.
pub open spec fn lower_digit(n: int) -> char {
    if n < 10 {
        ('0' as int + n) as char
    } else {
        ('a' as int + n - 10) as char
    }
}

/// Bytes as lower-case hexadecimal text, two digits for each byte.
pub open spec fn lower_hex(bytes: Seq<u8>) -> Seq<char> {
    Seq::new(
        2 * bytes.len(),
        |i: int|
            if i % 2 == 0 {
                lower_digit(bytes[i / 2] as int / 16)
            } else {
                lower_digit(bytes[i / 2] as int % 16)
            },
    )
}

/// The text form of a hash: its bytes from the last to the first, as
/// lower-case hexadecimal text.
pub open spec fn hash_text(bytes: Seq<u8>) -> Seq<char> {
    lower_hex(bytes.reverse())
}

/// `text` is sixty-four hexadecimal digits.
pub open spec fn is_hash_text(text: Seq<char>) -> bool {
    &&& text.len() == 64
    &&& forall|i: int| 0 <= i < 64 ==> #[trigger] digit_value(text[i]) is Some
}

/// The bytes of the hash that `text` is a text form of.
pub open spec fn hash_bytes(text: Seq<char>) -> Option<Seq<u8>> {
    if is_hash_text(text) {
        Some(
            Seq::new(
                32,
                |i: int|
                    (digit_value(text[62 - 2 * i])->0 * 16 + digit_value(text[63 - 2 * i])->0) as u8,
            ),
        )
    } else {
        None
    }
}

/// The bytes of the hash that a JSON value is: a string in a hash's text form.
pub open spec fn hash_of_json(json: JsonView) -> Option<Seq<u8>> {
    match json {
        JsonView::String(text) => hash_bytes(text),
        _ => None,
    }
}

/// The JSON value is a list of hashes.
pub open spec fn is_hash_list(json: JsonView) -> bool {
    json matches JsonView::Array(items) && forall|i: int|
        0 <= i < items.len() ==> #[trigger] hash_of_json(items[i]) is Some
}

/// A block hash.
#[derive(Clone, Copy, Debug, PartialEq, Eq)]
pub struct BlockHash {
    /// The bytes of the hash, in the order in which they are hashed.
    pub bytes: [u8; 32],
}

/// A transaction ID.
#[derive(Clone, Copy, Debug, PartialEq, Eq)]
pub struct Txid {
    /// The bytes of the hash, in the order in which they are hashed.
    pub bytes: [u8; 32],
}

impl View for BlockHash {
    type V = Seq<u8>;

    open spec fn view(&self) -> Seq<u8> {
        self.bytes@
    }
}

impl View for Txid {
    type V = Seq<u8>;

    open spec fn view(&self) -> Seq<u8> {
        self.bytes@
    }
}

/// A hash reads back from its text form.
pub proof fn law_hash_text_reads_back(bytes: Seq<u8>)
    requires
        bytes.len() == 32,
    ensures
        hash_bytes(hash_text(bytes)) == Some(bytes),
{
    let text = hash_text(bytes);
    assert forall|i: int| 0 <= i < 64 implies #[trigger] digit_value(text[i]) is Some by {}
    let back = hash_bytes(text)->0;
    assert forall|i: int| 0 <= i < 32 implies back[i] == bytes[i] by {
        let hi = 62 - 2 * i;
        assert(bytes.reverse()[31 - i] == bytes[i]);
        assert(hi / 2 == 31 - i && (hi + 1) / 2 == 31 - i);
        assert(digit_value(text[hi]) == Some(bytes[i] as int / 16));
        assert(digit_value(text[hi + 1]) == Some(bytes[i] as int % 16));
    }
    assert(back =~= bytes);
}

/// The text form of a hash without upper-case digits is written back as it was
/// read: a hash that came from the server goes out in the same form.
pub proof fn law_hash_text_is_kept(text: Seq<char>)
    requires
        is_hash_text(text),
        forall|i: int| 0 <= i < 64 ==> !('A' <= #[trigger] text[i] <= 'F'),
    ensures
        hash_bytes(text) matches Some(bytes) && hash_text(bytes) == text,
{
    let bytes = hash_bytes(text)->0;
    let back = hash_text(bytes);
    assert forall|i: int| 0 <= i < 64 implies back[i] == text[i] by {
        let k = i / 2;
        let hi = digit_value(text[2 * k])->0;
        let lo = digit_value(text[2 * k + 1])->0;
        assert(digit_value(text[2 * k]) is Some && digit_value(text[2 * k + 1]) is Some);
        assert(bytes.reverse()[k] == bytes[31 - k]);
        assert(bytes[31 - k] == (hi * 16 + lo) as u8);
        assert(lower_digit(hi) == text[2 * k] && lower_digit(lo) == text[2 * k + 1]);
        assert(i == 2 * k || i == 2 * k + 1);
    }
    assert(back =~= text);
}

/// The message of the error with which `serde_json::from_value` refuses a value
/// that is not a `bitcoin::BlockHash`.
pub uninterp spec fn block_hash_refusal(json: JsonView) -> Seq<char>;

/// The message of the error with which `serde_json::from_value` refuses a value
/// that is not a list of `bitcoin::Txid`.
pub uninterp spec fn txids_refusal(json: JsonView) -> Seq<char>;

/// Calls `serde_json::to_value` on a `bitcoin::BlockHash` of these bytes. It
/// succeeds, with a string that holds the hash's text form.
#[verifier::external_body]
fn block_hash_to_value(bytes: &[u8; 32]) -> (r: Result<serde_json::Value, serde_json::Error>)
    ensures
        match r {
            Ok(value) => value_json(value) == JsonView::String(hash_text(bytes@)),
            Err(_) => false,
        },
{
    serde_json::to_value(<bitcoin::BlockHash as bitcoin::hashes::Hash>::from_byte_array(*bytes))
}

/// Calls `serde_json::to_value` on a `bitcoin::Txid` of these bytes. It
/// succeeds, with a string that holds the hash's text form.
#[verifier::external_body]
fn txid_to_value(bytes: &[u8; 32]) -> (r: Result<serde_json::Value, serde_json::Error>)
    ensures
        match r {
            Ok(value) => value_json(value) == JsonView::String(hash_text(bytes@)),
            Err(_) => false,
        },
{
    serde_json::to_value(<bitcoin::Txid as bitcoin::hashes::Hash>::from_byte_array(*bytes))
}

/// Calls `serde_json::from_value` for a `bitcoin::BlockHash`. It succeeds on a
/// string that is the text form of a hash and on nothing else. The message of
/// its error is a function of the value.
#[verifier::external_body]
fn block_hash_from_value(value: serde_json::Value) -> (r: Result<[u8; 32], serde_json::Error>)
    ensures
        match r {
            Ok(bytes) => hash_of_json(value_json(value)) == Some(bytes@),
            Err(e) => hash_of_json(value_json(value)) is None && error_text(e)
                == block_hash_refusal(value_json(value)),
        },
{
    serde_json::from_value::<bitcoin::BlockHash>(value).map(
        |hash| bitcoin::hashes::Hash::to_byte_array(hash),
    )
}

/// Calls `serde_json::from_value` for a `Vec` of `bitcoin::Txid`. It succeeds
/// on an array of strings that are each the text form of a hash and on nothing
/// else, and keeps their order. The message of its error is a function of the
/// value.
#[verifier::external_body]
fn txids_from_value(value: serde_json::Value) -> (r: Result<Vec<[u8; 32]>, serde_json::Error>)
    ensures
        match r {
            Ok(list) => value_json(value) matches JsonView::Array(items) && list@.len()
                == items.len() && forall|i: int|
                0 <= i < items.len() ==> hash_of_json(#[trigger] items[i]) == Some(list@[i]@),
            Err(e) => !is_hash_list(value_json(value)) && error_text(e) == txids_refusal(
                value_json(value),
            ),
        },
{
    serde_json::from_value::<Vec<bitcoin::Txid>>(value).map(
        |list| list.into_iter().map(|txid| bitcoin::hashes::Hash::to_byte_array(txid)).collect(),
    )
}

/// `bitcoin::Block`, carried through unread.
#[verifier::external_type_specification]
#[verifier::external_body]
pub struct ExBlock(bitcoin::Block);

/// `bitcoin::Transaction`, carried through unread.
#[verifier::external_type_specification]
#[verifier::external_body]
pub struct ExTransaction(bitcoin::Transaction);

/// How many bytes `bitcoin` reads at most when it decodes a transaction
/// (`bitcoin::consensus::encode::MAX_VEC_SIZE`).
pub const MAX_DECODED_LEN: usize = 4_000_000;

/// The block whose consensus encoding a hexadecimal text is, or the error with
/// which `bitcoin::consensus::encode::deserialize_hex` refuses the text.
pub uninterp spec fn hex_block(hex: Seq<char>) -> Result<
    bitcoin::Block,
    bitcoin::consensus::encode::FromHexError,
>;

/// The transaction whose consensus encoding a hexadecimal text is, or the error
/// with which `bitcoin::consensus::encode::deserialize_hex` refuses the text.
pub uninterp spec fn hex_transaction(hex: Seq<char>) -> Result<
    bitcoin::Transaction,
    bitcoin::consensus::encode::FromHexError,
>;

/// A hexadecimal text decodes to that transaction.
pub open spec fn decodes_to(hex: Seq<char>, tx: bitcoin::Transaction) -> bool {
    hex_transaction(hex) matches Ok(found) && found == tx
}

/// The consensus encoding of a transaction.
pub uninterp spec fn transaction_encoding(tx: bitcoin::Transaction) -> Seq<u8>;

/// Calls `bitcoin::consensus::encode::deserialize_hex` for a `bitcoin::Block`.
/// What it decodes, and else the error that it gives, is a function of the text
/// alone.
#[verifier::external_body]
fn block_from_hex(hex: &str) -> (r: Result<
    bitcoin::Block,
    bitcoin::consensus::encode::FromHexError,
>)
    ensures
        r == hex_block(hex@),
{
    bitcoin::consensus::encode::deserialize_hex(hex)
}

/// Calls `bitcoin::consensus::encode::deserialize_hex` for a
/// `bitcoin::Transaction`. What it decodes, and else the error that it gives, is
/// a function of the text alone.
#[verifier::external_body]
fn transaction_from_hex(hex: &str) -> (r: Result<
    bitcoin::Transaction,
    bitcoin::consensus::encode::FromHexError,
>)
    ensures
        r == hex_transaction(hex@),
{
    bitcoin::consensus::encode::deserialize_hex(hex)
}

/// Calls `bitcoin::consensus::encode::serialize_hex` on a
/// `bitcoin::Transaction`: its consensus encoding as lower-case hexadecimal
/// text. `bitcoin::consensus::encode::deserialize_hex` gives the transaction
/// back from that text, where the encoding is not longer than it reads.
#[verifier::external_body]
fn transaction_to_hex(tx: &bitcoin::Transaction) -> (r: String)
    ensures
        r@ == lower_hex(transaction_encoding(*tx)),
        transaction_encoding(*tx).len() <= MAX_DECODED_LEN ==> decodes_to(r@, *tx),
{
    bitcoin::consensus::encode::serialize_hex(tx)
}

/// Calls `to_lower_hex_string` of `bitcoin::hex::DisplayHex` on bytes: two
/// lower-case hexadecimal digits for each byte.
#[verifier::external_body]
fn bytes_to_hex(bytes: &[u8]) -> (r: String)
    ensures
        r@ == lower_hex(bytes@),
{
    bitcoin::hex::DisplayHex::to_lower_hex_string(bytes)
}

/// What decoding a block from hexadecimal text gives.
pub open spec fn block_or_error(hex: Seq<char>) -> Result<bitcoin::Block, RpcError> {
    match hex_block(hex) {
        Ok(block) => Ok(block),
        Err(e) => Err(RpcError::BitcoinSerialization(e)),
    }
}

/// What decoding a transaction from hexadecimal text gives.
pub open spec fn transaction_or_error(hex: Seq<char>) -> Result<bitcoin::Transaction, RpcError> {
    match hex_transaction(hex) {
        Ok(tx) => Ok(tx),
        Err(e) => Err(RpcError::BitcoinSerialization(e)),
    }
}

/// Decodes a block from hexadecimal text.
pub fn decode_block(hex: &str) -> (r: Result<bitcoin::Block, RpcError>)
    ensures
        r == block_or_error(hex@),
{
    match block_from_hex(hex) {
        Ok(block) => Ok(block),
        Err(e) => Err(RpcError::BitcoinSerialization(e)),
    }
}

/// Decodes a transaction from hexadecimal text.
pub fn decode_transaction(hex: &str) -> (r: Result<bitcoin::Transaction, RpcError>)
    ensures
        r == transaction_or_error(hex@),
{
    match transaction_from_hex(hex) {
        Ok(tx) => Ok(tx),
        Err(e) => Err(RpcError::BitcoinSerialization(e)),
    }
}

/// Reads a reply that is a block as hexadecimal text.
pub fn read_block(value: serde_json::Value) -> (r: Result<bitcoin::Block, RpcError>)
    ensures
        match value_json(value) {
            JsonView::String(hex) => r == block_or_error(hex),
            _ => r matches Err(e) && is_refusal(e, string_refusal(value_json(value))),
        },
{
    match read_string(value) {
        Ok(hex) => decode_block(hex.as_str()),
        Err(e) => Err(e),
    }
}

/// Reads a reply that is a transaction as hexadecimal text.
pub fn read_transaction(value: serde_json::Value) -> (r: Result<bitcoin::Transaction, RpcError>)
    ensures
        match value_json(value) {
            JsonView::String(hex) => r == transaction_or_error(hex),
            _ => r matches Err(e) && is_refusal(e, string_refusal(value_json(value))),
        },
{
    match read_string(value) {
        Ok(hex) => decode_transaction(hex.as_str()),
        Err(e) => Err(e),
    }
}

/// Reads a reply that is a list of transaction IDs.
pub fn read_txids(value: serde_json::Value) -> (r: Result<Vec<Txid>, RpcError>)
    ensures
        match r {
            Ok(list) => is_hash_list(value_json(value)) && list@.len()
                == value_json(value)->Array_0.len() && forall|i: int|
                0 <= i < list@.len() ==> hash_of_json(value_json(value)->Array_0[i]) == Some(
                    #[trigger] list@[i]@,
                ),
            Err(e) => !is_hash_list(value_json(value)) && is_refusal(
                e,
                txids_refusal(value_json(value)),
            ),
        },
{
    let found = match txids_from_value(value) {
        Ok(found) => found,
        Err(e) => {
            return Err(RpcError::Json(e));
        },
    };
    let ghost items = value_json(value)->Array_0;
    let mut list: Vec<Txid> = Vec::new();
    let mut i: usize = 0;
    while i < found.len()
        invariant
            i <= found@.len(),
            list@.len() == i,
            forall|j: int| 0 <= j < i ==> (#[trigger] list@[j])@ == found@[j]@,
        decreases found@.len() - i,
    {
        list.push(Txid { bytes: found[i] });
        i += 1;
    }
    assert forall|j: int| 0 <= j < list@.len() implies hash_of_json(items[j]) == Some(
        #[trigger] list@[j]@,
    ) by {
        assert(hash_of_json(items[j]) == Some(found@[j]@));
    }
    Ok(list)
}

impl BlockHash {
    /// The hash as a JSON value.
    pub fn to_json(&self) -> (r: Json)
        ensures
            r@ == JsonView::String(hash_text(self@)),
    {
        match block_hash_to_value(&self.bytes) {
            Ok(value) => import(value),
            Err(_) => Json::Null,
        }
    }

    /// The hash that a JSON value is.
    pub fn from_json(value: serde_json::Value) -> (r: Result<Self, RpcError>)
        ensures
            match r {
                Ok(hash) => hash_of_json(value_json(value)) == Some(hash@),
                Err(e) => hash_of_json(value_json(value)) is None && is_refusal(
                    e,
                    block_hash_refusal(value_json(value)),
                ),
            },
    {
        match block_hash_from_value(value) {
            Ok(bytes) => Ok(BlockHash { bytes }),
            Err(e) => Err(RpcError::Json(e)),
        }
    }
}

impl Txid {
    /// The ID as a JSON value.
    pub fn to_json(&self) -> (r: Json)
        ensures
            r@ == JsonView::String(hash_text(self@)),
    {
        match txid_to_value(&self.bytes) {
            Ok(value) => import(value),
            Err(_) => Json::Null,
        }
    }
}

/// Used to pass raw transactions into calls.
pub trait RawTx: Sized + Clone {
    /// The hexadecimal text of the transaction.
    spec fn hex_text(self) -> Seq<char>;

    /// Gives the hexadecimal text of the transaction.
    fn raw_hex(self) -> (r: String)
        ensures
            r@ == self.hex_text(),
    ;
}

impl<'a> RawTx for &'a bitcoin::Transaction {
    open spec fn hex_text(self) -> Seq<char> {
        lower_hex(transaction_encoding(*self))
    }

    fn raw_hex(self) -> (r: String)
        ensures
            transaction_encoding(*self).len() <= MAX_DECODED_LEN ==> decodes_to(r@, *self),
    {
        transaction_to_hex(self)
    }
}

impl<'a> RawTx for &'a [u8] {
    open spec fn hex_text(self) -> Seq<char> {
        lower_hex(self@)
    }

    fn raw_hex(self) -> (r: String) {
        bytes_to_hex(self)
    }
}

impl<'a> RawTx for &'a Vec<u8> {
    open spec fn hex_text(self) -> Seq<char> {
        lower_hex(self@)
    }

    fn raw_hex(self) -> (r: String) {
        bytes_to_hex(self.as_slice())
    }
}

impl<'a> RawTx for &'a str {
    open spec fn hex_text(self) -> Seq<char> {
        self@
    }

    fn raw_hex(self) -> (r: String) {
        self.to_owned()
    }
}

impl RawTx for String {
    open spec fn hex_text(self) -> Seq<char> {
        self@
    }

    fn raw_hex(self) -> (r: String) {
        self
    }
}

/// A transaction's own hexadecimal text decodes to that transaction: whatever
/// `raw_hex` gives for it, `decode_transaction` gives it back. Left out are
/// transactions whose encoding is longer than the decoder reads.
pub proof fn law_transaction_reads_back(
    tx: &bitcoin::Transaction,
    hex: String,
    text: &str,
    r: Result<bitcoin::Transaction, RpcError>,
)
    requires
        transaction_encoding(*tx).len() <= MAX_DECODED_LEN,
        call_ensures(<&bitcoin::Transaction as RawTx>::raw_hex, (tx,), hex),
        text@ == hex@,
        call_ensures(decode_transaction, (text,), r),
    ensures
        r == Ok::<bitcoin::Transaction, RpcError>(*tx),
{
}

/// All ways of giving one transaction agree on its hexadecimal text: the
/// transaction itself, its encoding as bytes, and that text.
pub proof fn law_raw_forms_agree(
    tx: &bitcoin::Transaction,
    bytes: &Vec<u8>,
    slice: &[u8],
    text: &str,
    string: String,
)
    requires
        bytes@ == transaction_encoding(*tx),
        slice@ == transaction_encoding(*tx),
        text@ == tx.hex_text(),
        string@ == tx.hex_text(),
    ensures
        bytes.hex_text() == tx.hex_text(),
        slice.hex_text() == tx.hex_text(),
        text.hex_text() == tx.hex_text(),
        string.hex_text() == tx.hex_text(),
{
}

/// The character is the hexadecimal digit for `n`, in lower or in upper case.
pub open spec fn is_digit_for(c: char, n: int) -> bool {
    c == "0123456789abcdef"@[n] || c == "0123456789ABCDEF"@[n]
}

/// The text writes the bytes as lower-case hexadecimal digits, two for each, the
/// first byte first.
pub open spec fn writes_out(text: Seq<char>, bytes: Seq<u8>) -> bool {
    &&& text.len() == 2 * bytes.len()
    &&& forall|i: int|
        0 <= i < bytes.len() ==> text[2 * i] == "0123456789abcdef"@[(#[trigger] bytes[i]) as int
            / 16] && text[2 * i + 1] == "0123456789abcdef"@[bytes[i] as int % 16]
}

/// The text spells a hash of these bytes: two hexadecimal digits for each, the
/// last byte first, in either case.
pub open spec fn spells(text: Seq<char>, bytes: Seq<u8>) -> bool {
    &&& text.len() == 64
    &&& bytes.len() == 32
    &&& forall|i: int|
        0 <= i < 32 ==> is_digit_for(text[62 - 2 * i], (#[trigger] bytes[i]) as int / 16)
            && is_digit_for(text[63 - 2 * i], bytes[i] as int % 16)
}

/// The JSON value is a string that spells a hash of these bytes.
pub open spec fn is_spelled(json: JsonView, bytes: Seq<u8>) -> bool {
    json matches JsonView::String(text) && spells(text, bytes)
}

/// The JSON value spells no hash at all.
pub open spec fn spells_nothing(json: JsonView) -> bool {
    forall|bytes: Seq<u8>| !is_spelled(json, bytes)
}

/// Which character is the digit for which number.
proof fn lemma_digit(c: char, n: int)
    requires
        0 <= n < 16,
    ensures
        is_digit_for(c, n) <==> digit_value(c) == Some(n),
        lower_digit(n) == "0123456789abcdef"@[n],
{
    reveal_strlit("0123456789abcdef");
    reveal_strlit("0123456789ABCDEF");
    assert("0123456789abcdef"@[0] == '0');
    assert("0123456789abcdef"@[1] == '1');
    assert("0123456789abcdef"@[2] == '2');
    assert("0123456789abcdef"@[3] == '3');
    assert("0123456789abcdef"@[4] == '4');
    assert("0123456789abcdef"@[5] == '5');
    assert("0123456789abcdef"@[6] == '6');
    assert("0123456789abcdef"@[7] == '7');
    assert("0123456789abcdef"@[8] == '8');
    assert("0123456789abcdef"@[9] == '9');
    assert("0123456789abcdef"@[10] == 'a');
    assert("0123456789abcdef"@[11] == 'b');
    assert("0123456789abcdef"@[12] == 'c');
    assert("0123456789abcdef"@[13] == 'd');
    assert("0123456789abcdef"@[14] == 'e');
    assert("0123456789abcdef"@[15] == 'f');
    assert("0123456789ABCDEF"@[0] == '0');
    assert("0123456789ABCDEF"@[1] == '1');
    assert("0123456789ABCDEF"@[2] == '2');
    assert("0123456789ABCDEF"@[3] == '3');
    assert("0123456789ABCDEF"@[4] == '4');
    assert("0123456789ABCDEF"@[5] == '5');
    assert("0123456789ABCDEF"@[6] == '6');
    assert("0123456789ABCDEF"@[7] == '7');
    assert("0123456789ABCDEF"@[8] == '8');
    assert("0123456789ABCDEF"@[9] == '9');
    assert("0123456789ABCDEF"@[10] == 'A');
    assert("0123456789ABCDEF"@[11] == 'B');
    assert("0123456789ABCDEF"@[12] == 'C');
    assert("0123456789ABCDEF"@[13] == 'D');
    assert("0123456789ABCDEF"@[14] == 'E');
    assert("0123456789ABCDEF"@[15] == 'F');
    if n == 0 {
    } else if n == 1 {
    } else if n == 2 {
    } else if n == 3 {
    } else if n == 4 {
    } else if n == 5 {
    } else if n == 6 {
    } else if n == 7 {
    } else if n == 8 {
    } else if n == 9 {
    } else if n == 10 {
    } else if n == 11 {
    } else if n == 12 {
    } else if n == 13 {
    } else if n == 14 {
    } else {
        assert(n == 15);
    }
}

/// A text is read as a hash of just those bytes that it spells.
pub proof fn law_hash_is_what_its_text_spells(text: Seq<char>, bytes: Seq<u8>)
    ensures
        hash_bytes(text) == Some(bytes) <==> spells(text, bytes),
{
    if spells(text, bytes) {
        assert forall|i: int| 0 <= i < 64 implies #[trigger] digit_value(text[i]) is Some by {
            let k = 31 - i / 2;
            lemma_digit(text[62 - 2 * k], bytes[k] as int / 16);
            lemma_digit(text[63 - 2 * k], bytes[k] as int % 16);
            assert(i == 62 - 2 * k || i == 63 - 2 * k);
        }
        let found = hash_bytes(text)->0;
        assert forall|i: int| 0 <= i < 32 implies found[i] == bytes[i] by {
            lemma_digit(text[62 - 2 * i], bytes[i] as int / 16);
            lemma_digit(text[63 - 2 * i], bytes[i] as int % 16);
        }
        assert(found =~= bytes);
    }
    if hash_bytes(text) == Some(bytes) {
        assert forall|i: int| 0 <= i < 32 implies is_digit_for(
            text[62 - 2 * i],
            (#[trigger] bytes[i]) as int / 16,
        ) && is_digit_for(text[63 - 2 * i], bytes[i] as int % 16) by {
            let hi = digit_value(text[62 - 2 * i])->0;
            let lo = digit_value(text[63 - 2 * i])->0;
            assert(digit_value(text[62 - 2 * i]) is Some && digit_value(text[63 - 2 * i]) is Some);
            assert(bytes[i] == (hi * 16 + lo) as u8);
            lemma_digit(text[62 - 2 * i], hi);
            lemma_digit(text[63 - 2 * i], lo);
        }
    }
}

/// Hexadecimal text writes out its bytes.
pub proof fn law_hex_writes_out(bytes: Seq<u8>)
    ensures
        writes_out(lower_hex(bytes), bytes),
{
    let text = lower_hex(bytes);
    assert forall|i: int| 0 <= i < bytes.len() implies text[2 * i]
        == "0123456789abcdef"@[(#[trigger] bytes[i]) as int / 16] && text[2 * i + 1]
        == "0123456789abcdef"@[bytes[i] as int % 16] by {
        assert((2 * i) % 2 == 0 && (2 * i) / 2 == i && (2 * i + 1) % 2 == 1 && (2 * i + 1) / 2 == i);
        lemma_digit('0', bytes[i] as int / 16);
        lemma_digit('0', bytes[i] as int % 16);
    }
}

/// A block hash is passed as the text that writes out its bytes, the last byte
/// first.
pub proof fn law_block_hash_as_json(hash: &BlockHash, r: Json)
    requires
        call_ensures(BlockHash::to_json, (hash,), r),
    ensures
        r@ matches JsonView::String(text) && writes_out(text, hash.bytes@.reverse()),
{
    law_hex_writes_out(hash.bytes@.reverse());
}

/// A transaction ID is passed as the text that writes out its bytes, the last
/// byte first.
pub proof fn law_txid_as_json(txid: &Txid, r: Json)
    requires
        call_ensures(Txid::to_json, (txid,), r),
    ensures
        r@ matches JsonView::String(text) && writes_out(text, txid.bytes@.reverse()),
{
    law_hex_writes_out(txid.bytes@.reverse());
}

/// A block hash is read from a string that spells it, and from nothing else.
pub proof fn law_block_hash_is_read(value: serde_json::Value, r: Result<BlockHash, RpcError>)
    requires
        call_ensures(BlockHash::from_json, (value,), r),
    ensures
        forall|bytes: Seq<u8>| #[trigger]
            is_spelled(value_json(value), bytes) <==> (r matches Ok(hash) && hash.bytes@ == bytes),
        r matches Err(e) ==> (e matches RpcError::Json(inner) && error_text(inner)
            == block_hash_refusal(value_json(value))),
{
    assert forall|bytes: Seq<u8>| #[trigger]
        is_spelled(value_json(value), bytes) <==> (r matches Ok(hash) && hash.bytes@ == bytes) by {
        if let JsonView::String(text) = value_json(value) {
            law_hash_is_what_its_text_spells(text, bytes);
        }
    }
}

/// Transaction IDs are read from an array of strings that spell them: one ID
/// for each element, in the same order. Anything else is refused.
pub proof fn law_txids_are_read(value: serde_json::Value, r: Result<Vec<Txid>, RpcError>)
    requires
        call_ensures(read_txids, (value,), r),
    ensures
        match r {
            Ok(list) => value_json(value) matches JsonView::Array(items) && items.len()
                == list@.len() && forall|i: int|
                0 <= i < items.len() ==> is_spelled(#[trigger] items[i], list@[i].bytes@),
            Err(e) => (e matches RpcError::Json(inner) && error_text(inner) == txids_refusal(
                value_json(value),
            )) && (value_json(value) matches JsonView::Array(items) ==> exists|i: int|
                0 <= i < items.len() && spells_nothing(#[trigger] items[i])),
        },
{
    if let JsonView::Array(items) = value_json(value) {
        match r {
            Ok(list) => {
                assert forall|i: int| 0 <= i < items.len() implies is_spelled(
                    #[trigger] items[i],
                    list@[i].bytes@,
                ) by {
                    assert(hash_of_json(items[i]) == Some(list@[i]@));
                    law_hash_is_what_its_text_spells(items[i]->String_0, list@[i].bytes@);
                }
            },
            Err(e) => {
                let i = choose|i: int| 0 <= i < items.len() && hash_of_json(items[i]) is None;
                assert forall|bytes: Seq<u8>| !is_spelled(items[i], bytes) by {
                    if let JsonView::String(text) = items[i] {
                        law_hash_is_what_its_text_spells(text, bytes);
                    }
                }
                assert(spells_nothing(items[i]));
            },
        }
    }
}

/// Whatever `bitcoin` decodes a hexadecimal text to is the block that comes out,
/// and its error is passed on, whatever the length of the text.
pub proof fn law_block_is_what_its_text_decodes_to(
    hex: &str,
    r: Result<bitcoin::Block, RpcError>,
)
    requires
        call_ensures(decode_block, (hex,), r),
    ensures
        hex_block(hex@) matches Ok(block) ==> r == Ok::<bitcoin::Block, RpcError>(block),
        hex_block(hex@) matches Err(e) ==> r == Err::<bitcoin::Block, RpcError>(
            RpcError::BitcoinSerialization(e),
        ),
{
}

/// Whatever `bitcoin` decodes a hexadecimal text to is the transaction that
/// comes out, and its error is passed on, whatever the length of the text.
pub proof fn law_transaction_is_what_its_text_decodes_to(
    hex: &str,
    r: Result<bitcoin::Transaction, RpcError>,
)
    requires
        call_ensures(decode_transaction, (hex,), r),
    ensures
        hex_transaction(hex@) matches Ok(tx) ==> r == Ok::<bitcoin::Transaction, RpcError>(tx),
        hex_transaction(hex@) matches Err(e) ==> r == Err::<bitcoin::Transaction, RpcError>(
            RpcError::BitcoinSerialization(e),
        ),
{
}

/// A reply that is the text of a block gives that block.
pub proof fn law_block_is_read(
    value: serde_json::Value,
    hex: Seq<char>,
    r: Result<bitcoin::Block, RpcError>,
)
    requires
        value_json(value) == JsonView::String(hex),
        call_ensures(read_block, (value,), r),
    ensures
        hex_block(hex) matches Ok(block) ==> r == Ok::<bitcoin::Block, RpcError>(block),
        hex_block(hex) matches Err(e) ==> r == Err::<bitcoin::Block, RpcError>(
            RpcError::BitcoinSerialization(e),
        ),
{
}

/// A reply that is the text of a transaction gives that transaction.
pub proof fn law_transaction_is_read(
    value: serde_json::Value,
    hex: Seq<char>,
    r: Result<bitcoin::Transaction, RpcError>,
)
    requires
        value_json(value) == JsonView::String(hex),
        call_ensures(read_transaction, (value,), r),
    ensures
        hex_transaction(hex) matches Ok(tx) ==> r == Ok::<bitcoin::Transaction, RpcError>(tx),
        hex_transaction(hex) matches Err(e) ==> r == Err::<bitcoin::Transaction, RpcError>(
            RpcError::BitcoinSerialization(e),
        ),
{
}

/// A transaction that is given as such is passed as the text that writes out
/// its encoding.
pub proof fn law_transaction_as_hex(tx: &bitcoin::Transaction, r: String)
    requires
        call_ensures(<&bitcoin::Transaction as RawTx>::raw_hex, (tx,), r),
    ensures
        writes_out(r@, transaction_encoding(*tx)),
{
    law_hex_writes_out(transaction_encoding(*tx));
}

/// A transaction that is given as bytes is passed as the text that writes them
/// out.
pub proof fn law_bytes_as_hex(slice: &[u8], vec: &Vec<u8>, of_slice: String, of_vec: String)
    requires
        call_ensures(<&[u8] as RawTx>::raw_hex, (slice,), of_slice),
        call_ensures(<&Vec<u8> as RawTx>::raw_hex, (vec,), of_vec),
    ensures
        writes_out(of_slice@, slice@),
        writes_out(of_vec@, vec@),
{
    law_hex_writes_out(slice@);
    law_hex_writes_out(vec@);
}

/// A transaction that is given as text is passed as it is.
pub proof fn law_text_is_passed_as_it_is(text: &str, string: String, a: String, b: String)
    requires
        call_ensures(<&str as RawTx>::raw_hex, (text,), a),
        call_ensures(<String as RawTx>::raw_hex, (string,), b),
    ensures
        a@ == text@,
        b@ == string@,
{
}

} // verus!
