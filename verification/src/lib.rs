//! Verified core of the Denpie browser client: the protobuf wire format of
//! the `/api/v1` envelope, request/response classification, the mapping of
//! API results into UI rows, and the small text rules the UI relies on.

pub mod wire;
pub mod codec;
pub mod text;
pub mod pb;
pub mod pb_req;
pub mod pb_card;
pub mod pb_resp;
pub mod client;
pub mod ops;
pub mod rows;
pub mod settings;
pub mod data_url;
pub mod account_switch;
pub mod toast;
pub mod labels;
pub mod ui;
pub mod route;
pub mod search;
pub mod dates;
pub mod forms;

use vstd::prelude::*;

verus! {

} // verus!
