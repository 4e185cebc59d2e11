use coap_server::app::app_builder::AppBuilder;
use coap_server::app::app_handler::{
    assemble_handlers, classify_packet, core_resource, decode_path, error_reply_code, route, PacketAction,
};
use coap_server::app::block_handler_util::block_message_size;
use coap_server::app::codes::{MessageType, RequestType, ResponseType};
use coap_server::app::core_link::{core_payload, LinkAttributeValue};
use coap_server::app::error::CoapError;
use coap_server::app::observers::NotificationState;
use coap_server::app::path_matcher::key_from_path;
use coap_server::app::request::default_response_code;
use coap_server::app::resource_builder::ResourceBuilder;
use coap_server::app::resource_handler::{
    handler_answers, notification_observe_value, notification_peer, notification_step, session_after_send,
    NotificationStep, SessionControl,
};
use coap_server::app::retransmission_manager::MessageHeader;
use coap_server::app::u24::u24;

#[test]
fn classify_packets() {
    assert_eq!(classify_packet(0x01, MessageType::Confirmable, 3), PacketAction::HandleRequest);
    assert_eq!(classify_packet(0x45, MessageType::Acknowledgement, 3), PacketAction::IgnoreSpuriousResponse);
    assert_eq!(classify_packet(0x00, MessageType::Acknowledgement, 3), PacketAction::HandleReply);
    assert_eq!(classify_packet(0x00, MessageType::Reset, 3), PacketAction::HandleReply);
    assert_eq!(
        classify_packet(0x00, MessageType::Confirmable, 77),
        PacketAction::Pong(MessageHeader { message_type: MessageType::Reset, message_id: 77 })
    );
    assert_eq!(classify_packet(0x00, MessageType::NonConfirmable, 3), PacketAction::IgnoreEmptyNonConfirmable);
    assert_eq!(classify_packet(0xE0, MessageType::Confirmable, 3), PacketAction::IgnoreUnhandledCode);
}

#[test]
fn decode_path_checks_utf8() {
    let ok = decode_path(&vec![b"a".to_vec(), b"b".to_vec()]).unwrap();
    assert_eq!(ok, vec!["a".to_string(), "b".to_string()]);
    assert_eq!(decode_path(&vec![]).unwrap(), Vec::<String>::new());
    let err = decode_path(&vec![b"a".to_vec(), vec![0xff]]).unwrap_err();
    assert_eq!(err.code, Some(ResponseType::BadRequest));
    assert!(err.message.starts_with("Incompatible option value: "));
    assert!(err.message.len() > "Incompatible option value: ".len());
}

type Builder = ResourceBuilder<&'static str, ()>;

#[test]
fn build_and_route() {
    let app = AppBuilder::new()
        .resource(Builder::new("/a/b").get("ab-get").post("ab-post"))
        .resource(Builder::new("/c").default_handler("c-any").not_discoverable());
    let built = app.build_resources();
    assert!(built.serve_core);
    assert_eq!(built.discoverable.len(), 1);
    assert_eq!(built.handlers.len(), 2);
    let core = core_resource::<&'static str, ()>("core", coap_server::app::app_builder::ConfigBuilder::new());
    assert_eq!(core.0, "/.well-known/core");
    let matcher = assemble_handlers(built.handlers, Some(core));

    let (h, rest) = route(&matcher, &key_from_path("/a/b/x/y")).unwrap();
    assert_eq!(rest, vec!["x".to_string(), "y".to_string()]);
    assert_eq!(*h.handler_for(RequestType::Get).unwrap(), "ab-get");
    assert_eq!(*h.handler_for(RequestType::Post).unwrap(), "ab-post");
    let e = h.handler_for(RequestType::Delete).unwrap_err();
    assert_eq!(e.code, Some(ResponseType::MethodNotAllowed));
    assert_eq!(e.message, "Method not allowed");
    assert!(h.block_transfer);

    let (c, rest) = route(&matcher, &key_from_path("/c")).unwrap();
    assert!(rest.is_empty());
    assert_eq!(*c.handler_for(RequestType::Delete).unwrap(), "c-any");

    let (core, _) = route(&matcher, &key_from_path("/.well-known/core")).unwrap();
    assert_eq!(*core.handler_for(RequestType::Get).unwrap(), "core");

    let nf = route(&matcher, &key_from_path("/nothing")).err().unwrap();
    assert_eq!(nf.code, Some(ResponseType::NotFound));
    assert_eq!(nf.message, "Not found");
}

#[test]
fn app_settings_are_resource_defaults() {
    let app = AppBuilder::new()
        .not_discoverable()
        .disable_block_transfer()
        .resources(vec![Builder::new("/x").get("x"), Builder::new("/y").get("y").enable_block_transfer()]);
    let built = app.build_resources();
    assert!(!built.serve_core);
    assert!(built.discoverable.is_empty());
    assert!(!built.handlers[0].1.block_transfer);
    assert!(built.handlers[1].1.block_transfer);
}

#[test]
fn discovery_links_of_built_resources() {
    let app = AppBuilder::new().discoverable().block_transfer().resources(vec![
        Builder::new("/t").get("t").link_attr("rt", LinkAttributeValue::Text("temp".to_string())),
        Builder::new("/o").get("o").observable(()),
    ]);
    let built = app.build_resources();
    assert_eq!(core_payload(&built.discoverable, &vec![]), r#"</t>;rt="temp",</o>;obs="#);
    assert!(built.handlers[1].1.observable.is_some());
    assert!(built.handlers[0].1.observable.is_none());
}

#[test]
fn later_handler_for_a_method_replaces_the_earlier() {
    let b = Builder::new("/r").get("first").method_handler(RequestType::Get, "second");
    let res = b.build(coap_server::app::app_builder::ConfigBuilder::new());
    assert_eq!(*res.handler.handler_for(RequestType::Get).unwrap(), "second");
    assert_eq!(res.path, "/r");
}

#[test]
fn every_method_builder() {
    let b = Builder::new("/m").get("g").post("p").put("u").delete("d").fetch("f").patch("pa").ipatch("ip");
    let res = b.build(coap_server::app::app_builder::ConfigBuilder::new());
    let h = &res.handler;
    assert_eq!(*h.handler_for(RequestType::Put).unwrap(), "u");
    assert_eq!(*h.handler_for(RequestType::Fetch).unwrap(), "f");
    assert_eq!(*h.handler_for(RequestType::Patch).unwrap(), "pa");
    assert_eq!(*h.handler_for(RequestType::IPatch).unwrap(), "ip");
    assert!(h.handler_for(RequestType::UnKnown).is_err());
}

#[test]
fn error_reply_needs_a_prepared_response() {
    let e = CoapError::bad_request("bad");
    assert_eq!(error_reply_code(&e, true), Some(ResponseType::BadRequest));
    assert_eq!(error_reply_code(&e, false), None);
    assert_eq!(e.describe(), "Handling error Some(BadRequest): bad");
    assert_eq!(CoapError::internal("x").code, Some(ResponseType::InternalServerError));
}

#[test]
fn default_response_codes() {
    assert_eq!(default_response_code(RequestType::Get), ResponseType::Content);
    assert_eq!(default_response_code(RequestType::Post), ResponseType::Created);
    assert_eq!(default_response_code(RequestType::Put), ResponseType::Changed);
    assert_eq!(default_response_code(RequestType::Delete), ResponseType::Valid);
}

#[test]
fn notifications() {
    assert_eq!(notification_step(NotificationState::InitialSequence(u24::from(1u8))), NotificationStep::AlreadyAnswered);
    assert_eq!(
        notification_step(NotificationState::ResourceChanged(u24::from(2u8))),
        NotificationStep::Notify(u24::from(2u8))
    );
    assert_eq!(notification_observe_value(None, u24::from(0x0102u16)), Some(vec![1, 2]));
    assert_eq!(notification_observe_value(None, u24::from(0u8)), Some(vec![]));
    assert_eq!(notification_observe_value(Some(&vec![9]), u24::from(5u8)), None);
}

#[test]
fn block_sizes() {
    assert_eq!(block_message_size(Some(512)), 512);
    assert_eq!(block_message_size(None), 1152);
}

#[test]
fn observe_session_steps() {
    assert!(handler_answers(false));
    assert!(!handler_answers(true));
    assert_eq!(notification_peer(true, Some(4)), Some(4));
    assert_eq!(notification_peer(false, Some(4)), None);
    assert_eq!(notification_peer::<i32>(true, None), None);
    assert_eq!(session_after_send::<&str>(&Ok(())), SessionControl::Continue);
    assert_eq!(session_after_send(&Err("no reply")), SessionControl::Stop);
}
