//! Commands of the dashboard broadcast to its clients.

use vstd::prelude::*;

use crate::client_stat::find_client;
use crate::client_stat::is_client;
use crate::seq_util::first_index;
use crate::state::{
    only_clients_changed, only_dashboard_commands_changed, Client, ClientId, ClientStatisticsResponse, State,
};
use crate::text::{join2, join4};

verus! {

broadcast use vstd::seq_lib::group_seq_properties;

/// Commands of the dashboard that are broadcast to its clients.
#[derive(Debug)]
pub enum DashboardCommand {
    /// Enable all outputs of all restreams.
    EnableAllOutputs(),
    /// Disable all outputs of all restreams.
    DisableAllOutputs(),
    /// Start playing the file whose name starts with the given prefix.
    StartPlayingFile(String),
    /// Stop playing the file whose name starts with the given prefix.
    StopPlayingFile(String),
}

/// Abstract value of a [`DashboardCommand`].
pub enum CommandView {
    /// Enable all outputs of all restreams.
    EnableAllOutputs,
    /// Disable all outputs of all restreams.
    DisableAllOutputs,
    /// Start playing the file whose name starts with the given prefix.
    StartPlayingFile(Seq<char>),
    /// Stop playing the file whose name starts with the given prefix.
    StopPlayingFile(Seq<char>),
}

impl View for DashboardCommand {
    type V = CommandView;

    open spec fn view(&self) -> CommandView {
        match self {
            DashboardCommand::EnableAllOutputs() => CommandView::EnableAllOutputs,
            DashboardCommand::DisableAllOutputs() => CommandView::DisableAllOutputs,
            DashboardCommand::StartPlayingFile(p) => CommandView::StartPlayingFile(p@),
            DashboardCommand::StopPlayingFile(p) => CommandView::StopPlayingFile(p@),
        }
    }
}

impl DashboardCommand {
    /// Copies this command.
    pub fn duplicate(&self) -> (r: DashboardCommand)
        ensures
            r@ == self@,
    {
        match self {
            DashboardCommand::EnableAllOutputs() => DashboardCommand::EnableAllOutputs(),
            DashboardCommand::DisableAllOutputs() => DashboardCommand::DisableAllOutputs(),
            DashboardCommand::StartPlayingFile(p) => DashboardCommand::StartPlayingFile(p.clone()),
            DashboardCommand::StopPlayingFile(p) => DashboardCommand::StopPlayingFile(p.clone()),
        }
    }
}

/// Abstract value of a list of commands.
pub open spec fn commands_view(cmds: Seq<DashboardCommand>) -> Seq<CommandView> {
    cmds.map_values(|c: DashboardCommand| c@)
}

/// Abstract value of a list of sends of commands to clients.
pub open spec fn jobs_view(jobs: Seq<(ClientId, DashboardCommand)>) -> Seq<(Seq<char>, CommandView)> {
    jobs.map_values(|j: (ClientId, DashboardCommand)| (j.0@, j.1@))
}

/// Sends of the given commands to the given clients: to each client protected
/// by a password, in order, each command, in order.
pub open spec fn broadcast_jobs(clients: Seq<Client>, cmds: Seq<CommandView>) -> Seq<(Seq<char>, CommandView)>
    decreases clients.len(),
{
    if clients.len() == 0 {
        seq![]
    } else {
        broadcast_jobs(clients.drop_last(), cmds) + if clients.last().is_protected {
            cmds.map_values(|c: CommandView| (clients.last().id@, c))
        } else {
            seq![]
        }
    }
}

/// Takes all pending commands of the dashboard `state` and lists their
/// sends: to each client protected by a password, in order, each command,
/// in order.
pub fn take_command_jobs(state: &mut State) -> (jobs: Vec<(ClientId, DashboardCommand)>)
    ensures
        only_dashboard_commands_changed(*old(state), *final(state)),
        final(state).dashboard_commands@.len() == 0,
        final(state).clients == old(state).clients,
        final(state).restreams == old(state).restreams,
        jobs_view(jobs@) == broadcast_jobs(
            old(state).clients@,
            commands_view(old(state).dashboard_commands@),
        ),
{
    let mut commands: Vec<DashboardCommand> = Vec::new();
    std::mem::swap(&mut commands, &mut state.dashboard_commands);
    let ghost cmds = commands_view(commands@);
    let clients = &state.clients;
    let mut jobs: Vec<(ClientId, DashboardCommand)> = Vec::new();
    let mut i: usize = 0;
    while i < clients.len()
        invariant
            i <= clients.len(),
            cmds == commands_view(commands@),
            jobs_view(jobs@) == broadcast_jobs(clients@.take(i as int), cmds),
        decreases clients.len() - i,
    {
        let c = &clients[i];
        assert(clients@.take(i + 1).drop_last() =~= clients@.take(i as int));
        let ghost before = jobs_view(jobs@);
        if c.is_protected {
            let mut k: usize = 0;
            while k < commands.len()
                invariant
                    k <= commands.len(),
                    cmds == commands_view(commands@),
                    jobs_view(jobs@) == before + cmds.take(k as int).map_values(|x: CommandView| (c.id@, x)),
                decreases commands.len() - k,
            {
                let ghost prev = jobs_view(jobs@);
                jobs.push((c.id.duplicate(), commands[k].duplicate()));
                assert(jobs_view(jobs@) =~= prev.push((c.id@, cmds[k as int])));
                assert(cmds.take(k + 1).map_values(|x: CommandView| (c.id@, x)) =~= cmds.take(
                    k as int,
                ).map_values(|x: CommandView| (c.id@, x)).push((c.id@, cmds[k as int])));
                k = k + 1;
            }
            assert(cmds.take(commands.len() as int) =~= cmds);
        } else {
            assert(jobs_view(jobs@) =~= before + Seq::<(Seq<char>, CommandView)>::empty());
        }
        i = i + 1;
    }
    assert(clients@.take(clients.len() as int) =~= clients@);
    jobs
}

/// Whether one of `clients` protected by a password has the identity `id`.
pub open spec fn protected_client(clients: Seq<Client>, id: Seq<char>) -> bool {
    exists|i: int| 0 <= i < clients.len() && (#[trigger] clients[i]).is_protected && clients[i].id@ == id
}

/// Commands go only to clients protected by a password, and to each of
/// them every command: every send pairs a protected client with one of the
/// commands, and every protected client is sent every command.
pub proof fn lemma_broadcast_only_protected(clients: Seq<Client>, cmds: Seq<CommandView>)
    ensures
        forall|x: int|
            0 <= x < broadcast_jobs(clients, cmds).len() ==> protected_client(
                clients,
                (#[trigger] broadcast_jobs(clients, cmds)[x]).0,
            ) && cmds.contains(broadcast_jobs(clients, cmds)[x].1),
        forall|i: int, k: int|
            0 <= i < clients.len() && (#[trigger] clients[i]).is_protected && 0 <= k < cmds.len()
                ==> broadcast_jobs(clients, cmds).contains((clients[i].id@, #[trigger] cmds[k])),
    decreases clients.len(),
{
    if clients.len() > 0 {
        let p = clients.drop_last();
        let c = clients.last();
        lemma_broadcast_only_protected(p, cmds);
        let before = broadcast_jobs(p, cmds);
        let extra = if c.is_protected {
            cmds.map_values(|x: CommandView| (c.id@, x))
        } else {
            seq![]
        };
        assert(broadcast_jobs(clients, cmds) == before + extra);
        assert forall|x: int| 0 <= x < broadcast_jobs(clients, cmds).len() implies protected_client(
            clients,
            (#[trigger] broadcast_jobs(clients, cmds)[x]).0,
        ) && cmds.contains(broadcast_jobs(clients, cmds)[x].1) by {
            if x < before.len() {
                assert(broadcast_jobs(clients, cmds)[x] == before[x]);
                let i = choose|i: int| 0 <= i < p.len() && (#[trigger] p[i]).is_protected && p[i].id@ == before[x].0;
                assert(clients[i] == p[i]);
            } else {
                let k = x - before.len();
                assert(broadcast_jobs(clients, cmds)[x] == extra[k]);
                assert(cmds.contains(cmds[k]));
                assert(clients[clients.len() - 1] == c);
            }
        }
        assert forall|i: int, k: int|
            0 <= i < clients.len() && (#[trigger] clients[i]).is_protected && 0 <= k < cmds.len()
                implies broadcast_jobs(clients, cmds).contains((clients[i].id@, #[trigger] cmds[k])) by {
            if i < p.len() {
                assert(clients[i] == p[i]);
                let y = choose|y: int| 0 <= y < before.len() && before[y] == (p[i].id@, cmds[k]);
                assert(broadcast_jobs(clients, cmds)[y] == before[y]);
            } else {
                assert(clients[i] == c);
                assert(broadcast_jobs(clients, cmds)[before.len() + k] == extra[k]);
            }
        }
    } else {
        assert(broadcast_jobs(clients, cmds) =~= Seq::<(Seq<char>, CommandView)>::empty());
    }
}

/// Broadcasts dashboard commands to clients.
#[derive(Debug)]
pub struct Broadcaster {
    /// State of the dashboard.
    pub state: State,
}

impl Broadcaster {
    /// Creates a broadcaster over the given state.
    pub fn new(state: State) -> (b: Broadcaster)
        ensures
            b.state == state,
    {
        Broadcaster { state }
    }

    /// Takes all pending commands and lists their sends: to each client
    /// protected by a password, in order, each command, in order (see
    /// [`take_command_jobs`]).
    pub fn handle_commands(&mut self) -> (jobs: Vec<(ClientId, DashboardCommand)>)
        ensures
            only_dashboard_commands_changed(old(self).state, final(self).state),
            final(self).state.dashboard_commands@.len() == 0,
            jobs_view(jobs@) == broadcast_jobs(
                old(self).state.clients@,
                commands_view(old(self).state.dashboard_commands@),
            ),
    {
        take_command_jobs(&mut self.state)
    }

    /// Stores the errors of a command sent to the first client with the
    /// identity `client_id`; its statistics are dropped. Nothing changes if
    /// no client has that identity.
    pub fn save_command_error(client_id: &ClientId, error_messages: Vec<String>, state: &mut State)
        ensures
            only_clients_changed(*old(state), *final(state)),
            match first_index(old(state).clients@, is_client(client_id@)) {
                Some(i) => final(state).clients@ == old(state).clients@.update(
                    i,
                    Client {
                        statistics: Some(ClientStatisticsResponse { data: None, errors: Some(error_messages) }),
                        ..old(state).clients@[i]
                    },
                ),
                None => final(state).clients == old(state).clients,
            },
            final(state).restreams == old(state).restreams,
            final(state).files == old(state).files,
    {
        match find_client(&state.clients, client_id) {
            Some(i) => {
                let mut c = state.clients.remove(i);
                c.statistics = Some(ClientStatisticsResponse { data: None, errors: Some(error_messages) });
                state.clients.insert(i, c);
                assert(state.clients@ =~= old(state).clients@.update(
                    i as int,
                    Client {
                        statistics: Some(ClientStatisticsResponse { data: None, errors: Some(error_messages) }),
                        ..old(state).clients@[i as int]
                    },
                ));
            },
            None => {},
        }
    }

    /// Stores the errors a client answered a command with, if it answered
    /// with any.
    pub fn handle_errors(client_id: &ClientId, state: &mut State, errors: Option<Vec<String>>)
        ensures
            only_clients_changed(*old(state), *final(state)),
            match errors {
                Some(es) => match first_index(old(state).clients@, is_client(client_id@)) {
                    Some(i) => final(state).clients@ == old(state).clients@.update(
                        i,
                        Client {
                            statistics: Some(ClientStatisticsResponse { data: None, errors: Some(es) }),
                            ..old(state).clients@[i]
                        },
                    ),
                    None => final(state).clients == old(state).clients,
                },
                None => final(state).clients == old(state).clients,
            },
            final(state).restreams == old(state).restreams,
            final(state).files == old(state).files,
    {
        match errors {
            Some(es) => Self::save_command_error(client_id, es, state),
            None => {},
        }
    }
}

/// The GraphQL operation a command is sent to a client as, with its query:
/// the mutations that enable or disable all outputs of all its re-streams;
/// none for the commands about files, which no client is sent.
pub open spec fn command_operation(c: CommandView) -> Option<(Seq<char>, Seq<char>)> {
    match c {
        CommandView::EnableAllOutputs => Some(
            (
                "EnableAllOutputsOfRestreams"@,
                "mutation EnableAllOutputsOfRestreams { enableAllOutputsOfRestreams }"@,
            ),
        ),
        CommandView::DisableAllOutputs => Some(
            (
                "DisableAllOutputsOfRestreams"@,
                "mutation DisableAllOutputsOfRestreams { disableAllOutputsOfRestreams }"@,
            ),
        ),
        _ => None,
    }
}

/// A request that sends a command to a client.
#[derive(Debug)]
pub struct CommandRequest {
    /// URL the request is posted to.
    pub url: String,
    /// Name of the GraphQL operation.
    pub operation: String,
    /// GraphQL query of the operation.
    pub query: String,
}

/// The request that sends the command `cmd` to the client `client_id`: the
/// operation of the command (see [`command_operation`]) posted to the API
/// of the client (see [`client_api_url`]); none where the command is sent
/// to no client.
pub fn command_request(client_id: &ClientId, cmd: &DashboardCommand) -> (r: Option<CommandRequest>)
    ensures
        match command_operation(cmd@) {
            Some((op, q)) => r matches Some(req) && req.url@ == client_id@ + "api"@ && req.operation@ == op
                && req.query@ == q,
            None => r is None,
        },
{
    match cmd {
        DashboardCommand::EnableAllOutputs() => Some(
            CommandRequest {
                url: client_api_url(client_id),
                operation: String::from_str("EnableAllOutputsOfRestreams"),
                query: String::from_str("mutation EnableAllOutputsOfRestreams { enableAllOutputsOfRestreams }"),
            },
        ),
        DashboardCommand::DisableAllOutputs() => Some(
            CommandRequest {
                url: client_api_url(client_id),
                operation: String::from_str("DisableAllOutputsOfRestreams"),
                query: String::from_str("mutation DisableAllOutputsOfRestreams { disableAllOutputsOfRestreams }"),
            },
        ),
        _ => None,
    }
}

/// URL of the API of the client `client_id`.
pub fn client_api_url(client_id: &ClientId) -> (u: String)
    ensures
        u@ == client_id@ + "api"@,
{
    join2(client_id.0.as_str(), "api")
}

/// Message of a command that could not be sent to a client.
pub fn command_error_message(client_id: &ClientId, err: &str) -> (m: String)
    ensures
        m@ == "Error sending command for client "@ + client_id@ + ". "@ + err@,
{
    join4("Error sending command for client ", client_id.0.as_str(), ". ", err)
}

} // verus!
