//! Core logic of a terminal mail client: the OAuth2 authorization-code flow
//! with PKCE, durable token persistence, the loopback callback listener's
//! bookkeeping, and the shared inbox state that a background fetch fills.

use vstd::prelude::*;

mod callback;
mod errors;
mod flow;
mod gmail;
mod inbox;
mod json;
mod pkce;
mod store;
mod token;
mod uiview;
mod urlenc;

pub use callback::{confirmation_page, AuthorizationResult, CallbackListener, ListenerStage};
pub use errors::AuthError;
pub use flow::{connect_oauth, token_response, FlowStage, LoginFlow};
pub use gmail::{build_rfc2822, is_success, list_url, message_url, send_request_body, send_url};
pub use inbox::{build_message, header_value, sample_messages, InboxState, SimpleMail};
pub use json::JsonValue;
pub use uiview::{
    bar_col, format_row, handle_key, menu_down, menu_up, provider_of_index, select_next,
    select_prev, separator, subject_col_width, truncate_pad, NavKey, Provider,
};
pub use pkce::challenge_s256;
pub use store::StoreDisk;
pub use token::{token_file, token_from_json, token_to_json, SavedToken};
pub use urlenc::{authorize_url, percent_encode, redirect_uri_for_port, token_request_body};

verus! {

} // verus!
