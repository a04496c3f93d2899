use vstd::prelude::*;

use crate::protocol::packets::handshake::serverbound::{Handshake, Intent};
use crate::protocol::packets::routing::ServerState;

verus! {

/// The state that the handshake's intent leads to.
pub open spec fn state_after_handshake(intent: Intent) -> ServerState {
    match intent {
        Intent::Status => ServerState::Status,
        Intent::Login => ServerState::Login,
        Intent::Transfer => ServerState::Login,
    }
}

/// Only a handshake with the status intent leads to the status state; one
/// with the login or the transfer intent leads to the login state.
pub proof fn lemma_handshake_intents(intent: Intent)
    ensures
        (state_after_handshake(intent) == ServerState::Status) <==> (intent == Intent::Status),
        intent == Intent::Login ==> state_after_handshake(intent) == ServerState::Login,
        intent == Intent::Transfer ==> state_after_handshake(intent) == ServerState::Login,
{
}

/// Sets the connection's state to the one the handshake asks for.
pub fn handle_handshake(handshake: Handshake, server_state: &mut ServerState)
    ensures
        *final(server_state) == state_after_handshake(handshake.intent),
        (*final(server_state) == ServerState::Status) <==> (handshake.intent == Intent::Status),
        handshake.intent != Intent::Status ==> *final(server_state) == ServerState::Login,
{
    match handshake.intent {
        Intent::Status => *server_state = ServerState::Status,
        Intent::Login => *server_state = ServerState::Login,
        Intent::Transfer => *server_state = ServerState::Login,
    }
}

} // verus!
