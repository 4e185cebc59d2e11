//! Encoding of CoAP option values, through `coap_lite::option_value`.
use vstd::prelude::*;

verus! {

/// Minimal big-endian encoding of `v`: no leading zero bytes, and no bytes at all for zero.
pub open spec fn be_minimal(v: nat) -> Seq<u8>
    decreases v,
{
    if v == 0 {
        Seq::empty()
    } else {
        be_minimal(v / 256).push((v % 256) as u8)
    }
}

/// The unsigned integer that big-endian `bytes` denote.
pub open spec fn be_value(bytes: Seq<u8>) -> nat
    decreases bytes.len(),
{
    if bytes.len() == 0 {
        0
    } else {
        be_value(bytes.drop_last()) * 256 + bytes.last() as nat
    }
}

/// Encodes a `u32` option value (such as an Observe sequence number) through
/// `coap_lite::option_value::OptionValueU32`.
///
/// Trusted: coap-lite's `option_from_uint` yields no bytes for zero and otherwise the
/// big-endian bytes of the value without leading zeros.
#[verifier::external_body]
pub(crate) fn encode_u32_option(v: u32) -> (r: Vec<u8>)
    ensures
        r@ == be_minimal(v as nat),
{
    Vec::<u8>::from(coap_lite::option_value::OptionValueU32(v))
}

/// Decodes a `u32` option value through `coap_lite::option_value::OptionValueU32`.
///
/// Trusted: coap-lite's `option_to_uint` rejects more than four bytes and otherwise folds the
/// bytes big-endian; the rejection message is not carried over.
#[verifier::external_body]
pub(crate) fn decode_u32_option(bytes: &Vec<u8>) -> (r: Option<u32>)
    ensures
        r is Some <==> bytes@.len() <= 4,
        r matches Some(v) ==> v as nat == be_value(bytes@),
{
    match coap_lite::option_value::OptionValueU32::try_from(bytes.clone()) {
        Ok(v) => Some(v.0),
        Err(_) => None,
    }
}

/// What `coap_lite::option_value::OptionValueString::try_from` makes of an option value's
/// bytes: the decoded text, or the message of the format error (a function of the bytes).
pub uninterp spec fn string_option_value(bytes: Seq<u8>) -> Result<Seq<char>, Seq<char>>;

/// Decodes a string option value (such as a Uri-Path or Uri-Query segment) through
/// `coap_lite::option_value::OptionValueString`, which decodes UTF-8 with `String::from_utf8`
/// and reports a failure as `IncompatibleOptionValueFormat` carrying the decoder's message.
///
/// Trusted: the result is named, not stated: it is `string_option_value` of the bytes.
#[verifier::external_body]
pub(crate) fn decode_string_option(bytes: &Vec<u8>) -> (r: Result<String, String>)
    ensures
        string_option_value(bytes@) == match r {
            Ok(s) => Ok::<Seq<char>, Seq<char>>(s@),
            Err(m) => Err::<Seq<char>, Seq<char>>(m@),
        },
{
    match coap_lite::option_value::OptionValueString::try_from(bytes.clone()) {
        Ok(v) => Ok(v.0),
        Err(e) => Err(e.message),
    }
}

/// Round trip of the option value codec: decoding an encoded value gives it back, and the
/// encoding always fits the four bytes the decoder accepts.
pub proof fn law_u32_option_round_trip(v: u32)
    ensures
        be_minimal(v as nat).len() <= 4,
        be_value(be_minimal(v as nat)) == v as nat,
{
    lemma_be_round_trip(v as nat);
    assert(pow256(4) == 0x1_0000_0000) by {
        reveal_with_fuel(pow256, 5);
    }
    lemma_be_minimal_len(v as nat, 4);
}

proof fn lemma_be_round_trip(v: nat)
    ensures
        be_value(be_minimal(v)) == v,
    decreases v,
{
    if v > 0 {
        lemma_be_round_trip(v / 256);
        assert(be_minimal(v).drop_last() =~= be_minimal(v / 256));
    }
}

proof fn lemma_be_minimal_len(v: nat, n: nat)
    requires
        v < pow256(n),
    ensures
        be_minimal(v).len() <= n,
    decreases n,
{
    if v > 0 {
        assert(n > 0) by {
            if n == 0 {
                assert(pow256(0) == 1);
            }
        }
        assert(v / 256 < pow256((n - 1) as nat)) by (nonlinear_arith)
            requires
                v < pow256(n),
                n > 0,
                pow256(n) == 256 * pow256((n - 1) as nat),
        ;
        lemma_be_minimal_len(v / 256, (n - 1) as nat);
    }
}

spec fn pow256(n: nat) -> nat
    decreases n,
{
    if n == 0 {
        1
    } else {
        256 * pow256((n - 1) as nat)
    }
}

} // verus!
