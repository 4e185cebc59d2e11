//! Application layer: resources, routing, observe support and reliable delivery.
pub mod text;
pub mod app_builder;
pub mod app_handler;
pub mod assoc;
pub mod block_handler_util;
pub mod codes;
pub mod core_link;
pub mod error;
pub mod observe_handler;
pub mod observers;
pub mod option_value;
pub mod path_matcher;
pub mod request;
pub mod request_type_key;
pub mod resource_builder;
pub mod resource_handler;
pub mod retransmission_manager;
pub mod u24;
