//! Operations of the dashboard API.

use vstd::prelude::*;

use crate::broadcaster::{CommandView, DashboardCommand};
use crate::client_stat::{find_client, has_client, is_client};
use crate::seq_util::{first_index, lemma_first_index_some};
use crate::api_error::{is_error, ApiError, CONFLICT};
use crate::console_logger::ConsoleMessage;
use crate::state::{
    only_clients_changed, only_console_changed, only_dashboard_commands_changed, Client, ClientId, State,
};
use crate::text::join3;

verus! {

/// Root of the dashboard mutations.
#[derive(Clone, Copy, Debug)]
pub struct MutationsRoot;

/// Message of a client added twice.
pub open spec fn duplicate_client_message(id: Seq<char>) -> Seq<char> {
    "Client with id = "@ + id + " already exists"@
}

impl State {
    /// Adds the client `client_id`, not protected and without statistics;
    /// an error, and nothing, where it is watched already.
    pub fn add_client(&mut self, client_id: &ClientId) -> (r: Result<(), String>)
        ensures
            only_clients_changed(*old(self), *final(self)),
            has_client(old(self).clients@, client_id@) ==> {
                &&& r matches Err(e)
                &&& e@ == duplicate_client_message(client_id@)
                &&& final(self).clients == old(self).clients
            },
            !has_client(old(self).clients@, client_id@) ==> {
                &&& r is Ok
                &&& final(self).clients@.len() == old(self).clients@.len() + 1
                &&& final(self).clients@.drop_last() == old(self).clients@
                &&& final(self).clients@.last().id@ == client_id@
                &&& !final(self).clients@.last().is_protected
                &&& final(self).clients@.last().statistics is None
            },
            final(self).restreams == old(self).restreams,
            final(self).console_log == old(self).console_log,
    {
        match find_client(&self.clients, client_id) {
            Some(i) => {
                proof {
                    lemma_first_index_some(self.clients@, is_client(client_id@));
                    assert(self.clients@[i as int].id@ == client_id@);
                }
                Err(join3("Client with id = ", client_id.0.as_str(), " already exists"))
            },
            None => {
                let ghost before = self.clients@;
                self.clients.push(Client { id: client_id.duplicate(), is_protected: false, statistics: None });
                assert(self.clients@.drop_last() =~= before);
                Ok(())
            },
        }
    }
}

impl MutationsRoot {
    /// Adds the client `client_id` (see [`State::add_client`]): `true`, or a
    /// conflict where it is watched already.
    pub fn add_client(client_id: &ClientId, state: &mut State) -> (r: Result<Option<bool>, ApiError>)
        ensures
            only_clients_changed(*old(state), *final(state)),
            has_client(old(state).clients@, client_id@) ==> {
                &&& r matches Err(e)
                &&& is_error(e, "DUPLICATE_CLIENT"@, 409, duplicate_client_message(client_id@))
                &&& final(state).clients == old(state).clients
            },
            !has_client(old(state).clients@, client_id@) ==> {
                &&& r == Ok::<Option<bool>, ApiError>(Some(true))
                &&& final(state).clients@.len() == old(state).clients@.len() + 1
                &&& final(state).clients@.drop_last() == old(state).clients@
                &&& final(state).clients@.last().id@ == client_id@
                &&& !final(state).clients@.last().is_protected
                &&& final(state).clients@.last().statistics is None
            },
            final(state).restreams == old(state).restreams,
    {
        match state.add_client(client_id) {
            Ok(()) => Ok(Some(true)),
            Err(e) => Err(ApiError::new("DUPLICATE_CLIENT", CONFLICT, e)),
        }
    }

    /// Removes the first client with the identity `client_id`. Returns
    /// `None` if there is no such client.
    pub fn remove_client(client_id: &ClientId, state: &mut State) -> (r: Option<bool>)
        ensures
            only_clients_changed(*old(state), *final(state)),
            match first_index(old(state).clients@, is_client(client_id@)) {
                Some(i) => r == Some(true) && final(state).clients@ == old(state).clients@.remove(i),
                None => r is None && final(state).clients == old(state).clients,
            },
            final(state).restreams == old(state).restreams,
            final(state).console_log == old(state).console_log,
    {
        match find_client(&state.clients, client_id) {
            Some(i) => {
                let _ = state.clients.remove(i);
                Some(true)
            },
            None => None,
        }
    }

    /// Removes all clients.
    pub fn remove_all_clients(state: &mut State) -> (r: Option<bool>)
        ensures
            only_clients_changed(*old(state), *final(state)),
            r == Some(true),
            final(state).clients@.len() == 0,
            final(state).restreams == old(state).restreams,
            final(state).console_log == old(state).console_log,
    {
        state.clients.clear();
        Some(true)
    }

    /// Removes all messages from the console.
    pub fn console_clear(state: &mut State) -> (r: Option<bool>)
        ensures
            only_console_changed(*old(state), *final(state)),
            r == Some(true),
            final(state).console_log@.len() == 0,
            final(state).clients == old(state).clients,
            final(state).restreams == old(state).restreams,
    {
        state.console_log.clear();
        Some(true)
    }

    /// Asks the clients to play the file whose name starts with
    /// `name_prefix`.
    pub fn broadcast_play_file(name_prefix: String, state: &mut State) -> (r: Option<bool>)
        ensures
            only_dashboard_commands_changed(*old(state), *final(state)),
            r == Some(true),
            final(state).dashboard_commands@.drop_last() == old(state).dashboard_commands@,
            final(state).dashboard_commands@.last()@ == CommandView::StartPlayingFile(name_prefix@),
            final(state).dashboard_commands@.len() == old(state).dashboard_commands@.len() + 1,
            final(state).clients == old(state).clients,
            final(state).restreams == old(state).restreams,
    {
        let ghost p = name_prefix@;
        state.dashboard_commands.push(DashboardCommand::StartPlayingFile(name_prefix));
        assert(state.dashboard_commands@.drop_last() =~= old(state).dashboard_commands@);
        Some(true)
    }

    /// Asks the clients to stop playing the file whose name starts with
    /// `name_prefix`.
    pub fn broadcast_stop_playing_file(name_prefix: String, state: &mut State) -> (r: Option<bool>)
        ensures
            only_dashboard_commands_changed(*old(state), *final(state)),
            r == Some(true),
            final(state).dashboard_commands@.drop_last() == old(state).dashboard_commands@,
            final(state).dashboard_commands@.last()@ == CommandView::StopPlayingFile(name_prefix@),
            final(state).dashboard_commands@.len() == old(state).dashboard_commands@.len() + 1,
            final(state).clients == old(state).clients,
            final(state).restreams == old(state).restreams,
    {
        state.dashboard_commands.push(DashboardCommand::StopPlayingFile(name_prefix));
        assert(state.dashboard_commands@.drop_last() =~= old(state).dashboard_commands@);
        Some(true)
    }

    /// Asks the clients to enable all their outputs.
    pub fn enable_all_outputs_for_clients(state: &mut State) -> (r: Option<bool>)
        ensures
            only_dashboard_commands_changed(*old(state), *final(state)),
            r == Some(true),
            final(state).dashboard_commands@ == old(state).dashboard_commands@.push(
                DashboardCommand::EnableAllOutputs(),
            ),
            final(state).clients == old(state).clients,
            final(state).restreams == old(state).restreams,
    {
        state.dashboard_commands.push(DashboardCommand::EnableAllOutputs());
        Some(true)
    }

    /// Asks the clients to disable all their outputs.
    pub fn disable_all_outputs_for_clients(state: &mut State) -> (r: Option<bool>)
        ensures
            only_dashboard_commands_changed(*old(state), *final(state)),
            r == Some(true),
            final(state).dashboard_commands@ == old(state).dashboard_commands@.push(
                DashboardCommand::DisableAllOutputs(),
            ),
            final(state).clients == old(state).clients,
            final(state).restreams == old(state).restreams,
    {
        state.dashboard_commands.push(DashboardCommand::DisableAllOutputs());
        Some(true)
    }
}

/// Root of the dashboard queries.
#[derive(Clone, Copy, Debug)]
pub struct QueriesRoot;

impl QueriesRoot {
    /// The clients watched, with their statistics.
    pub fn statistics(state: &State) -> (r: &Vec<Client>)
        ensures
            *r == state.clients,
    {
        &state.clients
    }
}

/// A client added is watched: adding it again is refused as a duplicate
/// (see [`State::add_client`]).
pub proof fn lemma_added_client_watched(old: Seq<Client>, new: Seq<Client>, id: Seq<char>)
    requires
        new.len() == old.len() + 1,
        new.drop_last() == old,
        new.last().id@ == id,
    ensures
        has_client(new, id),
{
    assert(new[new.len() - 1].id@ == id);
}

/// Whether no two of the clients `cs` have the same identity.
pub open spec fn client_ids_distinct(cs: Seq<Client>) -> bool {
    forall|a: int, b: int| 0 <= a < b < cs.len() ==> (#[trigger] cs[a]).id@ != (#[trigger] cs[b]).id@
}

/// Adding a client (see [`State::add_client`]) keeps the identities of the
/// clients distinct: a client watched already is refused.
pub proof fn lemma_add_client_keeps_distinct(old: Seq<Client>, new: Seq<Client>, id: Seq<char>)
    requires
        client_ids_distinct(old),
        has_client(old, id) ==> new == old,
        !has_client(old, id) ==> new.len() == old.len() + 1 && new.drop_last() == old && new.last().id@ == id,
    ensures
        client_ids_distinct(new),
{
    if !has_client(old, id) {
        assert forall|a: int, b: int| 0 <= a < b < new.len() implies (#[trigger] new[a]).id@ != (
        #[trigger] new[b]).id@ by {
            assert(new[a] == old[a]);
            if b < old.len() {
                assert(new[b] == old[b]);
            } else {
                if old[a].id@ == id {
                    assert(has_client(old, id));
                }
            }
        }
    }
}

/// Removing a client (see [`MutationsRoot::remove_client`]) from clients
/// of distinct identities leaves none with its identity, and the others
/// distinct.
pub proof fn lemma_remove_client_removes_it(old: Seq<Client>, new: Seq<Client>, id: Seq<char>)
    requires
        client_ids_distinct(old),
        match first_index(old, is_client(id)) {
            Some(i) => new == old.remove(i),
            None => new == old,
        },
    ensures
        client_ids_distinct(new),
        !has_client(new, id),
{
    lemma_first_index_some(old, is_client(id));
    match first_index(old, is_client(id)) {
        Some(i) => {
            assert forall|a: int, b: int| 0 <= a < b < new.len() implies (#[trigger] new[a]).id@ != (
            #[trigger] new[b]).id@ by {
                let a0 = if a < i { a } else { a + 1 };
                let b0 = if b < i { b } else { b + 1 };
                assert(new[a] == old[a0]);
                assert(new[b] == old[b0]);
                assert(old[a0].id@ != old[b0].id@);
            }
            if has_client(new, id) {
                let k = choose|k: int| 0 <= k < new.len() && new[k].id@ == id;
                let k0 = if k < i { k } else { k + 1 };
                assert(new[k] == old[k0]);
                assert(is_client(id)(old[i]));
                if k0 < i {
                    assert(old[k0].id@ != old[i].id@);
                } else {
                    assert(old[i].id@ != old[k0].id@);
                }
            }
        },
        None => {
            if has_client(new, id) {
                let k = choose|k: int| 0 <= k < new.len() && new[k].id@ == id;
                assert(is_client(id)(old[k]));
            }
        },
    }
}

/// Root of the dashboard subscriptions: each method gives what an update of
/// its subscription carries, as the state stands.
#[derive(Clone, Copy, Debug)]
pub struct SubscriptionsRoot;

impl SubscriptionsRoot {
    /// The clients watched, with their statistics.
    pub fn statistics(state: &State) -> (r: &Vec<Client>)
        ensures
            *r == state.clients,
    {
        &state.clients
    }

    /// The messages of the console.
    pub fn console_log(state: &State) -> (r: &Vec<ConsoleMessage>)
        ensures
            *r == state.console_log,
    {
        &state.console_log
    }
}

} // verus!
