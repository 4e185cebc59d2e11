//! The application's packet handling decisions: what an incoming packet asks for, how a
//! request finds its resource, and how the resources are assembled into the routing table.
use vstd::prelude::*;
use vstd::string::StringExecFns;

use crate::app::app_builder::ConfigBuilder;
use crate::app::assoc::map_of_pairs;
use crate::app::codes::{code_class, code_class_spec, CodeClass, MessageType, ResponseType};
use crate::app::error::CoapError;
use crate::app::option_value::{decode_string_option, string_option_value};
use crate::app::path_matcher::{path_key, segs, PathMatcher};
use crate::app::resource_builder::{handler_built_from, Resource, ResourceBuilder};
use crate::app::resource_handler::ResourceHandler;
use crate::app::retransmission_manager::MessageHeader;

verus! {

/// What to do with an incoming packet.
#[derive(Debug, Copy, Clone, PartialEq, Eq, Structural)]
pub enum PacketAction {
    /// A request: route it to its resource.
    HandleRequest,
    /// A response nobody asked for: ignore it.
    IgnoreSpuriousResponse,
    /// An empty Acknowledgement or Reset: it may answer one of our Confirmable messages.
    HandleReply,
    /// An empty Confirmable message, the usual CoAP "ping": answer with this Reset.
    Pong(MessageHeader),
    /// An empty Non-confirmable message: ignore it.
    IgnoreEmptyNonConfirmable,
    /// A reserved code: ignore it.
    IgnoreUnhandledCode,
}

/// The action for a packet with message code `code`, of type `message_type` and id
/// `message_id`.
pub open spec fn packet_action_spec(code: u8, message_type: MessageType, message_id: u16) -> PacketAction {
    match code_class_spec(code) {
        CodeClass::Request => PacketAction::HandleRequest,
        CodeClass::Response => PacketAction::IgnoreSpuriousResponse,
        CodeClass::Empty => match message_type {
            MessageType::Acknowledgement => PacketAction::HandleReply,
            MessageType::Reset => PacketAction::HandleReply,
            MessageType::Confirmable => PacketAction::Pong(
                MessageHeader { message_type: MessageType::Reset, message_id },
            ),
            MessageType::NonConfirmable => PacketAction::IgnoreEmptyNonConfirmable,
        },
        CodeClass::Reserved => PacketAction::IgnoreUnhandledCode,
    }
}

/// Decides what an incoming packet asks for.
pub fn classify_packet(code: u8, message_type: MessageType, message_id: u16) -> (r: PacketAction)
    ensures
        r == packet_action_spec(code, message_type, message_id),
{
    match code_class(code) {
        CodeClass::Request => PacketAction::HandleRequest,
        CodeClass::Response => PacketAction::IgnoreSpuriousResponse,
        CodeClass::Empty => match message_type {
            MessageType::Acknowledgement | MessageType::Reset => PacketAction::HandleReply,
            MessageType::Confirmable => PacketAction::Pong(
                MessageHeader { message_type: MessageType::Reset, message_id },
            ),
            MessageType::NonConfirmable => PacketAction::IgnoreEmptyNonConfirmable,
        },
        CodeClass::Reserved => PacketAction::IgnoreUnhandledCode,
    }
}

/// The path segments of a request, from its Uri-Path option values: `Ok` with the decoded
/// segments when every value is text, else the first decoding failure's message.
pub open spec fn path_of(options: Seq<Seq<u8>>) -> Result<Seq<Seq<char>>, Seq<char>>
    decreases options.len(),
{
    if options.len() == 0 {
        Ok(Seq::empty())
    } else {
        match path_of(options.drop_last()) {
            Err(m) => Err(m),
            Ok(segments) => match string_option_value(options.last()) {
                Ok(s) => Ok(segments.push(s)),
                Err(m) => Err(m),
            },
        }
    }
}

/// The message of the 4.00 answer to an undecodable path: the option format error as
/// `coap_lite` displays it.
pub open spec fn bad_path_message(m: Seq<char>) -> Seq<char> {
    "Incompatible option value: "@ + m
}

/// Decodes a request's path from its Uri-Path option values; a value that is not text gives
/// a 4.00 Bad Request.
pub fn decode_path(options: &Vec<Vec<u8>>) -> (r: Result<Vec<String>, CoapError>)
    ensures
        match path_of(options@.map_values(|o: Vec<u8>| o@)) {
            Ok(p) => r matches Ok(v) && segs(v@) == p,
            Err(m) => r matches Err(e) && e.code == Some(ResponseType::BadRequest) && e.message@
                == bad_path_message(m),
        },
{
    let ghost ov = options@.map_values(|o: Vec<u8>| o@);
    let mut segments: Vec<String> = Vec::new();
    let mut i: usize = 0;
    assert(ov.take(0) =~= Seq::<Seq<u8>>::empty());
    assert(segs(segments@) =~= Seq::<Seq<char>>::empty());
    while i < options.len()
        invariant
            i <= options@.len(),
            ov == options@.map_values(|o: Vec<u8>| o@),
            path_of(ov.take(i as int)) == Ok::<Seq<Seq<char>>, Seq<char>>(segs(segments@)),
        decreases options@.len() - i,
    {
        assert(ov.take(i as int + 1).drop_last() =~= ov.take(i as int));
        assert(ov.take(i as int + 1).last() == options@[i as int]@);
        match decode_string_option(&options[i]) {
            Ok(s) => {
                let ghost before = segments@;
                segments.push(s);
                assert(segs(segments@) =~= segs(before).push(segments@.last()@));
            },
            Err(m) => {
                proof {
                    lemma_path_of_error_stays(ov, i as int + 1);
                }
                let mut msg = String::from_str("Incompatible option value: ");
                msg.append(m.as_str());
                return Err(CoapError::bad_request(msg.as_str()));
            },
        }
        i = i + 1;
    }
    assert(ov.take(i as int) =~= ov);
    Ok(segments)
}

proof fn lemma_path_of_error_stays(ov: Seq<Seq<u8>>, n: int)
    requires
        0 <= n <= ov.len(),
        path_of(ov.take(n)) is Err,
    ensures
        path_of(ov) == path_of(ov.take(n)),
    decreases ov.len() - n,
{
    if n < ov.len() {
        assert(ov.take(n + 1).drop_last() =~= ov.take(n));
        lemma_path_of_error_stays(ov, n + 1);
    } else {
        assert(ov.take(n) =~= ov);
    }
}

/// Routes a request path to the resource whose path is the longest prefix of it; the rest of
/// the path is the unmatched part handed to the resource.  4.04 Not Found when no resource
/// path is a prefix.
pub fn route<'a, V>(matcher: &'a PathMatcher<V>, path: &Vec<String>) -> (r: Result<(&'a V, Vec<String>), CoapError>)
    requires
        matcher.wf(),
    ensures
        match r {
            Ok((v, rest)) => exists|d: int|
                #![trigger segs(path@).take(d)]
                {
                    &&& 0 <= d <= path@.len()
                    &&& matcher.view().contains_key(segs(path@).take(d))
                    &&& *v == matcher.view()[segs(path@).take(d)]
                    &&& segs(rest@) == segs(path@).skip(d)
                    &&& forall|e: int|
                        d < e <= path@.len() ==> !matcher.view().contains_key(#[trigger] segs(path@).take(e))
                },
            Err(e) => {
                &&& e.code == Some(ResponseType::NotFound)
                &&& e.message@ == "Not found"@
                &&& forall|d: int| 0 <= d <= path@.len() ==> !matcher.view().contains_key(#[trigger] segs(path@).take(d))
            },
        },
{
    match matcher.lookup(path.as_slice()) {
        Some(m) => {
            let mut rest: Vec<String> = Vec::new();
            let mut i: usize = m.matched_index;
            while i < path.len()
                invariant
                    m.matched_index <= i <= path@.len(),
                    segs(rest@) == segs(path@).subrange(m.matched_index as int, i as int),
                decreases path@.len() - i,
            {
                let ghost before = rest@;
                rest.push(path[i].clone());
                assert(segs(rest@) =~= segs(before).push(path@[i as int]@));
                assert(segs(path@).subrange(m.matched_index as int, i as int + 1) =~= segs(path@).subrange(
                    m.matched_index as int,
                    i as int,
                ).push(path@[i as int]@));
                i = i + 1;
            }
            assert(segs(path@).subrange(m.matched_index as int, path@.len() as int) =~= segs(path@).skip(
                m.matched_index as int,
            ));
            let ghost d = m.matched_index as int;
            assert(segs(path@).take(d) == segs(path@).take(d));
            Ok((m.value, rest))
        },
        None => Err(CoapError::not_found()),
    }
}

/// The response code an error answer gets: the error's code, provided a response was
/// prepared for the request and the error has a code; otherwise no answer is sent.
pub fn error_reply_code(error: &CoapError, response_prepared: bool) -> (r: Option<ResponseType>)
    ensures
        r == (if response_prepared {
            error.code
        } else {
            None
        }),
{
    if response_prepared {
        error.code
    } else {
        None
    }
}

/// The path under which resource discovery is served.
pub open spec fn core_path() -> Seq<char> {
    "/.well-known/core"@
}

/// The `/.well-known/core` resource: `core_handler` answers its Get requests, under the app's
/// settings.
pub fn core_resource<H, O>(core_handler: H, app: ConfigBuilder) -> (r: (String, ResourceHandler<H, O>))
    ensures
        r.0@ == core_path(),
        r.1.handlers.wf(),
        r.1.handlers@ == Map::<nat, H>::empty().insert(1, core_handler),
        r.1.observable is None,
        r.1.block_transfer == app.block_transfer.unwrap_or(true),
{
    let b = ResourceBuilder::<H, O>::new("/.well-known/core").get(core_handler);
    let Resource { path, discoverable: _, handler } = b.build(app);
    (path, handler)
}

/// The routing table: every resource by its path (a later resource with the same path
/// replaces an earlier one), with the discovery resource added last when there is one.
pub fn assemble_handlers<H, O>(
    handlers: Vec<(String, ResourceHandler<H, O>)>,
    core: Option<(String, ResourceHandler<H, O>)>,
) -> (r: PathMatcher<ResourceHandler<H, O>>)
    ensures
        r.wf(),
        r.view() == map_of_pairs(
            (match core {
                Some(c) => handlers@.push(c),
                None => handlers@,
            }).map_values(|p: (String, ResourceHandler<H, O>)| (path_key(p.0@), p.1)),
        ),
{
    let mut all = handlers;
    match core {
        Some(c) => {
            all.push(c);
        },
        None => {},
    }
    PathMatcher::from_path_strings(all)
}

/// What an incoming packet asks for is decided by its code class, and by the message type
/// only for empty messages: every request is handled whatever its type; every response is
/// ignored; an empty Acknowledgement or Reset goes to reliable delivery; an empty Confirmable
/// message (a ping) is answered by a Reset with the same message id; reserved codes are
/// ignored.
pub proof fn law_packet_actions(code: u8, t: MessageType, id: u16, t2: MessageType, id2: u16)
    ensures
        code_class_spec(code) == CodeClass::Request ==> packet_action_spec(code, t, id) == PacketAction::HandleRequest,
        code_class_spec(code) != CodeClass::Empty ==> packet_action_spec(code, t, id) == packet_action_spec(code, t2, id2),
        code_class_spec(code) == CodeClass::Response ==> packet_action_spec(code, t, id)
            == PacketAction::IgnoreSpuriousResponse,
        code_class_spec(code) == CodeClass::Reserved ==> packet_action_spec(code, t, id)
            == PacketAction::IgnoreUnhandledCode,
        packet_action_spec(code, t, id) == PacketAction::HandleReply <==> (code == 0 && (t == MessageType::Acknowledgement
            || t == MessageType::Reset)),
        (packet_action_spec(code, t, id) is Pong) <==> (code == 0 && t == MessageType::Confirmable),
        packet_action_spec(code, t, id) matches PacketAction::Pong(h) ==> h.message_id == id && h.message_type
            == MessageType::Reset,
        1 <= code <= 7 ==> packet_action_spec(code, t, id) == PacketAction::HandleRequest,
{
}

} // verus!
