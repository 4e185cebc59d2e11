//! Sizing of block-wise transfers from the link MTU.
use vstd::prelude::*;

verus! {

/// The largest total message size of `coap_lite`'s default block handler configuration.
///
/// Trusted: `BlockHandlerConfig::default()` sets `max_total_message_size` to
/// `DEFAULT_MAX_TOTAL_MESSAGE_SIZE`, which coap-lite defines as 1152.
#[verifier::external_body]
fn default_max_message_size() -> (r: usize)
    ensures
        r == 1152,
{
    coap_lite::BlockHandlerConfig::default().max_total_message_size
}

/// The largest total message size for block-wise transfer: the link's MTU when it is known,
/// otherwise the block handler's default of 1152 bytes.
pub fn block_message_size(mtu: Option<u32>) -> (r: usize)
    ensures
        r == match mtu {
            Some(m) => m as nat,
            None => 1152,
        },
{
    match mtu {
        Some(m) => m as usize,
        None => default_max_message_size(),
    }
}

} // verus!
