//! Statistics of the clients watched by the dashboard: which statistics jobs
//! run, and how the answers of the clients are stored.

use vstd::prelude::*;

use crate::seq_util::{first_index, lemma_first_index, lemma_first_index_some};
use crate::text::{join2, join4};
use crate::state::{
    only_clients_changed, Client, ClientId, ClientStatistics, ClientStatisticsResponse, ServerInfo, State, Status,
    StatusStatistics,
};

verus! {

broadcast use vstd::seq_lib::group_seq_properties;

/// Identities of the given clients, in order.
pub open spec fn client_ids(cs: Seq<Client>) -> Seq<Seq<char>> {
    cs.map_values(|c: Client| c.id@)
}

/// Identities of the given client identities, in order.
pub open spec fn ids_view(ids: Seq<ClientId>) -> Seq<Seq<char>> {
    ids.map_values(|c: ClientId| c@)
}

/// Elements of `s` without repetitions, in the order of their first
/// occurrence.
pub open spec fn distinct(s: Seq<Seq<char>>) -> Seq<Seq<char>>
    decreases s.len(),
{
    if s.len() == 0 {
        s
    } else {
        let d = distinct(s.drop_last());
        if d.contains(s.last()) {
            d
        } else {
            d.push(s.last())
        }
    }
}

/// An element occurs in the distinct elements of `s` exactly when it occurs
/// in `s`.
pub proof fn lemma_distinct_contains(s: Seq<Seq<char>>, x: Seq<char>)
    ensures
        distinct(s).contains(x) == s.contains(x),
    decreases s.len(),
{
    if s.len() > 0 {
        lemma_distinct_contains(s.drop_last(), x);
        let d = distinct(s.drop_last());
        if s.contains(x) && !s.drop_last().contains(x) {
            assert(s.last() == x) by {
                let k = choose|k: int| 0 <= k < s.len() && s[k] == x;
                if k < s.len() - 1 {
                    assert(s.drop_last()[k] == x);
                }
            }
            if !d.contains(s.last()) {
                assert(d.push(s.last())[d.len() as int] == x);
            }
        }
        if s.drop_last().contains(x) {
            let k = choose|k: int| 0 <= k < s.drop_last().len() && s.drop_last()[k] == x;
            assert(s[k] == x);
        }
        if !d.contains(s.last()) && d.push(s.last()).contains(x) && x != s.last() {
            let k = choose|k: int| 0 <= k < d.len() + 1 && d.push(s.last())[k] == x;
            assert(d[k] == x);
        }
    }
}

/// What the statistics pool does for a client.
#[derive(Clone, Copy, Debug, PartialEq, Eq, Structural)]
pub enum JobDecision {
    /// Its running statistics job is kept.
    Keep,
    /// A new statistics job is started for it.
    Start,
}

/// Pool of statistics jobs, one per client.
#[derive(Debug)]
pub struct ClientJobsPool {
    /// Identities of the clients whose jobs run.
    pool: Vec<ClientId>,
}

/// Whether `ids` holds `id`.
fn ids_have(ids: &Vec<ClientId>, id: &ClientId) -> (r: bool)
    ensures
        r == ids_view(ids@).contains(id@),
{
    let mut k: usize = 0;
    while k < ids.len()
        invariant
            k <= ids.len(),
            forall|m: int| 0 <= m < k ==> (#[trigger] ids@[m])@ != id@,
        decreases ids.len() - k,
    {
        if ids[k].0 == id.0 {
            assert(ids_view(ids@)[k as int] == id@);
            return true;
        }
        k = k + 1;
    }
    proof {
        if ids_view(ids@).contains(id@) {
            let m = choose|m: int| 0 <= m < ids_view(ids@).len() && ids_view(ids@)[m] == id@;
            assert(ids@[m]@ == id@);
        }
    }
    false
}

impl ClientJobsPool {
    /// Identities of the clients whose jobs run.
    pub closed spec fn job_ids(&self) -> Seq<Seq<char>> {
        ids_view(self.pool@)
    }

    /// Creates an empty pool.
    pub fn new() -> (p: ClientJobsPool)
        ensures
            p.job_ids() == Seq::<Seq<char>>::empty(),
    {
        let p = ClientJobsPool { pool: Vec::new() };
        assert(p.job_ids() =~= Seq::<Seq<char>>::empty());
        p
    }

    /// Whether a job runs for the client `id`.
    pub fn has_job(&self, id: &ClientId) -> (r: bool)
        ensures
            r == self.job_ids().contains(id@),
    {
        ids_have(&self.pool, id)
    }

    /// Adjusts the pool to the given clients: the job of a client is kept if
    /// it ran before and no earlier client of the list has the same identity;
    /// otherwise a new job starts. Afterwards, jobs run for exactly the given
    /// clients, each identity once; the jobs of other clients stop.
    pub fn start_statistics_loop(&mut self, clients: &Vec<Client>) -> (d: Vec<JobDecision>)
        ensures
            d@.len() == clients@.len(),
            forall|i: int| 0 <= i < clients@.len() ==> #[trigger] d@[i] == if old(self).job_ids().contains(
                client_ids(clients@)[i],
            ) && !client_ids(clients@).take(i).contains(client_ids(clients@)[i]) {
                JobDecision::Keep
            } else {
                JobDecision::Start
            },
            final(self).job_ids() == distinct(client_ids(clients@)),
    {
        let ghost ids = client_ids(clients@);
        let mut new_pool: Vec<ClientId> = Vec::new();
        let mut d: Vec<JobDecision> = Vec::new();
        let mut i: usize = 0;
        while i < clients.len()
            invariant
                i <= clients.len(),
                ids == client_ids(clients@),
                d@.len() == i,
                forall|k: int| 0 <= k < i ==> #[trigger] d@[k] == if old(self).job_ids().contains(ids[k])
                    && !ids.take(k).contains(ids[k]) {
                    JobDecision::Keep
                } else {
                    JobDecision::Start
                },
                ids_view(new_pool@) == distinct(ids.take(i as int)),
                self.job_ids() == old(self).job_ids(),
            decreases clients.len() - i,
        {
            let id = &clients[i].id;
            assert(ids[i as int] == id@);
            let seen = ids_have(&new_pool, id);
            proof {
                lemma_distinct_contains(ids.take(i as int), id@);
            }
            let was_running = ids_have(&self.pool, id);
            if was_running && !seen {
                d.push(JobDecision::Keep);
            } else {
                d.push(JobDecision::Start);
            }
            assert(ids.take(i + 1).drop_last() =~= ids.take(i as int));
            if !seen {
                new_pool.push(id.duplicate());
                assert(ids_view(new_pool@) =~= distinct(ids.take(i as int)).push(id@));
            }
            i = i + 1;
        }
        assert(ids.take(clients.len() as int) =~= ids);
        self.pool = new_pool;
        d
    }
}

/// Whether the client `c` has the identity `id`.
pub open spec fn is_client(id: Seq<char>) -> spec_fn(Client) -> bool {
    |c: Client| c.id@ == id
}

/// Whether some client has the identity `id`.
pub open spec fn has_client(cs: Seq<Client>, id: Seq<char>) -> bool {
    exists|i: int| 0 <= i < cs.len() && cs[i].id@ == id
}

/// Finds the first client with the identity `id`.
pub fn find_client(clients: &Vec<Client>, id: &ClientId) -> (r: Option<usize>)
    ensures
        r matches Some(i) ==> i < clients.len(),
        match r {
            Some(i) => first_index(clients@, is_client(id@)) == Some(i as int),
            None => first_index(clients@, is_client(id@)) is None && !has_client(clients@, id@),
        },
{
    let mut i: usize = 0;
    while i < clients.len()
        invariant
            i <= clients.len(),
            forall|j: int| 0 <= j < i ==> !is_client(id@)(#[trigger] clients@[j]),
        decreases clients.len() - i,
    {
        if clients[i].id.0 == id.0 {
            proof {
                lemma_first_index(clients@, is_client(id@), i as int);
            }
            return Some(i);
        }
        i = i + 1;
    }
    proof {
        lemma_first_index(clients@, is_client(id@), i as int);
        if has_client(clients@, id@) {
            let k = choose|k: int| 0 <= k < clients@.len() && clients@[k].id@ == id@;
            assert(!is_client(id@)(clients@[k]));
        }
    }
    None
}

/// Replaces the statistics of the client at position `i`.
fn set_client_statistics(clients: &mut Vec<Client>, i: usize, stats: ClientStatisticsResponse)
    requires
        i < old(clients).len(),
    ensures
        final(clients)@ == old(clients)@.update(
            i as int,
            Client { statistics: Some(stats), ..old(clients)@[i as int] },
        ),
{
    let mut c = clients.remove(i);
    c.statistics = Some(stats);
    clients.insert(i, c);
    assert(clients@ =~= old(clients)@.update(i as int, Client { statistics: Some(stats), ..old(clients)@[i as int] }));
}

/// Stores the errors of a statistics request in the first client with the
/// identity `client_id`; its statistics are dropped.
pub fn save_client_error(client_id: &ClientId, error_messages: Vec<String>, state: &mut State)
    requires
        has_client(old(state).clients@, client_id@),
    ensures
        only_clients_changed(*old(state), *final(state)),
        first_index(old(state).clients@, is_client(client_id@)) matches Some(i) && final(state).clients@
            == old(state).clients@.update(
            i,
            Client {
                statistics: Some(ClientStatisticsResponse { data: None, errors: Some(error_messages) }),
                ..old(state).clients@[i]
            },
        ),
        final(state).restreams == old(state).restreams,
        final(state).files == old(state).files,
{
    let i = find_client(&state.clients, client_id).unwrap();
    set_client_statistics(
        &mut state.clients,
        i,
        ClientStatisticsResponse { data: None, errors: Some(error_messages) },
    );
}

/// Status reported by a client, as its statistics API names it.
#[derive(Debug)]
pub enum QueryStatus {
    /// Online.
    Online,
    /// Offline.
    Offline,
    /// Initializing.
    Initializing,
    /// Unstable.
    Unstable,
    /// A status this server does not know.
    Other(String),
}

/// The status for a reported one.
pub open spec fn status_of(s: QueryStatus) -> Status {
    match s {
        QueryStatus::Online => Status::Online,
        QueryStatus::Offline => Status::Offline,
        QueryStatus::Initializing => Status::Initializing,
        _ => Status::Unstable,
    }
}

/// Converts a reported status; an unknown status is refused.
pub fn status_from(status: QueryStatus) -> (s: Status)
    requires
        !(status is Other),
    ensures
        s == status_of(status),
{
    match status {
        QueryStatus::Online => Status::Online,
        QueryStatus::Offline => Status::Offline,
        QueryStatus::Initializing => Status::Initializing,
        QueryStatus::Unstable => Status::Unstable,
        QueryStatus::Other(_) => Status::Unstable,
    }
}

/// Count of inputs or outputs in a status, as reported by a client.
#[derive(Debug)]
pub struct QueryStatusCount {
    /// Reported status.
    pub status: QueryStatus,
    /// Reported count.
    pub count: i64,
}

/// Converts a reported count; the count is truncated to 32 bits.
pub fn status_statistics_from(item: QueryStatusCount) -> (s: StatusStatistics)
    requires
        !(item.status is Other),
    ensures
        s == (StatusStatistics { status: status_of(item.status), count: item.count as i32 }),
{
    StatusStatistics { status: status_from(item.status), count: item.count as i32 }
}

/// Load of a client's machine, as reported by the client; fractional
/// readings are bit patterns of `f64` values.
#[derive(Debug)]
pub struct QueryServerInfo {
    /// CPU usage.
    pub cpu_usage: Option<u64>,
    /// Number of CPU cores.
    pub cpu_cores: Option<i64>,
    /// Total RAM.
    pub ram_total: Option<u64>,
    /// Free RAM.
    pub ram_free: Option<u64>,
    /// Received traffic delta.
    pub rx_delta: Option<u64>,
    /// Sent traffic delta.
    pub tx_delta: Option<u64>,
    /// Error message.
    pub error_msg: Option<String>,
}

/// Converts a reported load: a missing core count becomes 0, and the count
/// is truncated to 32 bits.
pub fn server_info_from(item: QueryServerInfo) -> (s: ServerInfo)
    ensures
        s == (ServerInfo {
            cpu_usage: item.cpu_usage,
            cpu_cores: Some(
                match item.cpu_cores {
                    Some(c) => c,
                    None => 0,
                } as i32,
            ),
            ram_total: item.ram_total,
            ram_free: item.ram_free,
            rx_delta: item.rx_delta,
            tx_delta: item.tx_delta,
            error_msg: item.error_msg,
        }),
{
    let cores: i64 = match item.cpu_cores {
        Some(c) => c,
        None => 0,
    };
    ServerInfo {
        cpu_usage: item.cpu_usage,
        cpu_cores: Some(cores as i32),
        ram_total: item.ram_total,
        ram_free: item.ram_free,
        rx_delta: item.rx_delta,
        tx_delta: item.tx_delta,
        error_msg: item.error_msg,
    }
}

/// Statistics of a client, as reported by it.
#[derive(Debug)]
pub struct QueryStatistics {
    /// Title of the client.
    pub client_title: String,
    /// Inputs counted by status.
    pub inputs: Vec<QueryStatusCount>,
    /// Outputs counted by status.
    pub outputs: Vec<QueryStatusCount>,
    /// Load of the client's machine.
    pub server_info: QueryServerInfo,
}

/// Whether every reported status is a known one.
pub open spec fn known_statuses(items: Seq<QueryStatusCount>) -> bool {
    forall|k: int| 0 <= k < items.len() ==> !(#[trigger] items[k].status is Other)
}

/// The stored count for a reported one.
pub open spec fn stored_count(item: QueryStatusCount) -> StatusStatistics {
    StatusStatistics { status: status_of(item.status), count: item.count as i32 }
}

/// Converts reported counts, in order.
pub fn status_statistics_all(items: Vec<QueryStatusCount>) -> (r: Vec<StatusStatistics>)
    requires
        known_statuses(items@),
    ensures
        r@ == items@.map_values(|item: QueryStatusCount| stored_count(item)),
{
    let ghost orig = items@;
    let mut items = items;
    let mut out: Vec<StatusStatistics> = Vec::new();
    let n = items.len();
    let mut k: usize = 0;
    while items.len() > 0
        invariant
            k + items.len() == n,
            n == orig.len(),
            items@ == orig.skip(k as int),
            known_statuses(orig),
            out@ == orig.take(k as int).map_values(|item: QueryStatusCount| stored_count(item)),
        decreases items.len(),
    {
        let item = items.remove(0);
        assert(items@ =~= orig.skip(k + 1));
        assert(orig[k as int] == item) by {
            assert(orig.skip(k as int)[0] == orig[k as int]);
        }
        out.push(status_statistics_from(item));
        assert(out@ =~= orig.take(k + 1).map_values(|item: QueryStatusCount| stored_count(item)));
        k = k + 1;
    }
    assert(orig.take(n as int) =~= orig);
    out
}

impl ClientStatistics {
    /// Creates statistics out of their parts.
    pub fn new(
        client_title: String,
        inputs: Vec<StatusStatistics>,
        outputs: Vec<StatusStatistics>,
        server_info: ServerInfo,
    ) -> (s: ClientStatistics)
        ensures
            s == (ClientStatistics { client_title, inputs, outputs, server_info }),
    {
        ClientStatistics { client_title, inputs, outputs, server_info }
    }
}

/// Whether reported statistics can be stored: all their statuses are known.
pub open spec fn storable(data: Option<QueryStatistics>) -> bool {
    match data {
        Some(d) => known_statuses(d.inputs@) && known_statuses(d.outputs@),
        None => true,
    }
}

/// The stored form of reported statistics.
pub open spec fn stored_statistics(st: ClientStatistics, d: QueryStatistics) -> bool {
    &&& st.client_title == d.client_title
    &&& st.inputs@ == d.inputs@.map_values(|item: QueryStatusCount| stored_count(item))
    &&& st.outputs@ == d.outputs@.map_values(|item: QueryStatusCount| stored_count(item))
    &&& st.server_info == (ServerInfo {
        cpu_usage: d.server_info.cpu_usage,
        cpu_cores: Some(
            match d.server_info.cpu_cores {
                Some(c) => c,
                None => 0,
            } as i32,
        ),
        ram_total: d.server_info.ram_total,
        ram_free: d.server_info.ram_free,
        rx_delta: d.server_info.rx_delta,
        tx_delta: d.server_info.tx_delta,
        error_msg: d.server_info.error_msg,
    })
}

/// Whether `s` is the status of the same name as the reported `q`.
pub open spec fn same_named(q: QueryStatus, s: Status) -> bool {
    match q {
        QueryStatus::Online => s == Status::Online,
        QueryStatus::Offline => s == Status::Offline,
        QueryStatus::Initializing => s == Status::Initializing,
        QueryStatus::Unstable => s == Status::Unstable,
        QueryStatus::Other(_) => false,
    }
}

/// Stored statistics keep each reported count of inputs and outputs, in
/// order, with the status of the same name and the same count (truncated
/// to 32 bits).
pub proof fn lemma_stored_statuses(st: ClientStatistics, d: QueryStatistics)
    requires
        stored_statistics(st, d),
        known_statuses(d.inputs@),
        known_statuses(d.outputs@),
    ensures
        st.inputs@.len() == d.inputs@.len(),
        st.outputs@.len() == d.outputs@.len(),
        forall|k: int|
            0 <= k < d.inputs@.len() ==> same_named(d.inputs@[k].status, #[trigger] st.inputs@[k].status)
                && st.inputs@[k].count == d.inputs@[k].count as i32,
        forall|k: int|
            0 <= k < d.outputs@.len() ==> same_named(d.outputs@[k].status, #[trigger] st.outputs@[k].status)
                && st.outputs@[k].count == d.outputs@[k].count as i32,
{
    assert forall|k: int| 0 <= k < d.inputs@.len() implies same_named(
        d.inputs@[k].status,
        #[trigger] st.inputs@[k].status,
    ) && st.inputs@[k].count == d.inputs@[k].count as i32 by {
        assert(!(d.inputs@[k].status is Other));
    }
    assert forall|k: int| 0 <= k < d.outputs@.len() implies same_named(
        d.outputs@[k].status,
        #[trigger] st.outputs@[k].status,
    ) && st.outputs@[k].count == d.outputs@[k].count as i32 by {
        assert(!(d.outputs@[k].status is Other));
    }
}

/// The stored answer to a statistics request: the converted statistics, if
/// any, and the errors, none if absent.
pub open spec fn stored_response(
    stored: Option<ClientStatisticsResponse>,
    data: Option<QueryStatistics>,
    errors: Option<Vec<String>>,
) -> bool {
    match stored {
        Some(resp) => {
            &&& resp.errors is Some
            &&& resp.errors->0@ == match errors {
                Some(e) => e@,
                None => Seq::<String>::empty(),
            }
            &&& match data {
                None => resp.data is None,
                Some(d) => resp.data is Some && stored_statistics(resp.data->0, d),
            }
        },
        None => false,
    }
}

/// Stores the answer of a client to a statistics request in the first client
/// with the identity `client_id`: its statistics (if any) converted, and its
/// errors (none if absent).
pub fn save_client_statistics(
    client_id: &ClientId,
    data: Option<QueryStatistics>,
    errors: Option<Vec<String>>,
    state: &mut State,
)
    requires
        has_client(old(state).clients@, client_id@),
        storable(data),
    ensures
        only_clients_changed(*old(state), *final(state)),
        match first_index(old(state).clients@, is_client(client_id@)) {
            Some(i) => {
                &&& final(state).clients@.len() == old(state).clients@.len()
                &&& forall|j: int| 0 <= j < old(state).clients@.len() && j != i
                    ==> #[trigger] final(state).clients@[j] == old(state).clients@[j]
                &&& final(state).clients@[i].id == old(state).clients@[i].id
                &&& final(state).clients@[i].is_protected == old(state).clients@[i].is_protected
                &&& stored_response(final(state).clients@[i].statistics, data, errors)
            },
            None => false,
        },
        final(state).restreams == old(state).restreams,
        final(state).files == old(state).files,
{
    let response_errors: Vec<String> = match errors {
        Some(e) => e,
        None => Vec::new(),
    };
    let i = find_client(&state.clients, client_id).unwrap();
    let stats = match data {
        Some(d) => {
            let inputs = status_statistics_all(d.inputs);
            let outputs = status_statistics_all(d.outputs);
            let server_info = server_info_from(d.server_info);
            ClientStatisticsResponse {
                data: Some(ClientStatistics::new(d.client_title, inputs, outputs, server_info)),
                errors: Some(response_errors),
            }
        },
        None => ClientStatisticsResponse { data: None, errors: Some(response_errors) },
    };
    proof {
        lemma_first_index_some(old(state).clients@, is_client(client_id@));
    }
    set_client_statistics(&mut state.clients, i, stats);
}

/// URL of the statistics API of the client `client_id`.
pub fn statistics_url(client_id: &ClientId) -> (u: String)
    ensures
        u@ == client_id@ + "api-statistics"@,
{
    join2(client_id.0.as_str(), "api-statistics")
}

/// GraphQL query a client is asked for its statistics with: its title,
/// its inputs and outputs counted by status, and the load of its machine.
pub open spec fn statistics_query_text() -> Seq<char> {
    "query StatisticsQuery { statistics { clientTitle inputs { status count } outputs { status count } serverInfo { cpuUsage cpuCores ramTotal ramFree txDelta rxDelta errorMsg } } }"@
}

/// The GraphQL query a client is asked for its statistics with (see
/// [`statistics_query_text`]).
pub fn statistics_query() -> (q: String)
    ensures
        q@ == statistics_query_text(),
{
    String::from_str(
        "query StatisticsQuery { statistics { clientTitle inputs { status count } outputs { status count } serverInfo { cpuUsage cpuCores ramTotal ramFree txDelta rxDelta errorMsg } } }",
    )
}

/// Message of a statistics request that failed.
pub fn statistics_error_message(client_id: &ClientId, err: &str) -> (m: String)
    ensures
        m@ == "Error retrieving data for client "@ + client_id@ + ". "@ + err@,
{
    join4("Error retrieving data for client ", client_id.0.as_str(), ". ", err)
}

/// Outcome of one statistics request of a job.
#[derive(Debug)]
pub enum FetchOutcome {
    /// The client answered, with statistics or not, and with errors or not.
    Answered {
        /// The statistics, if any.
        data: Option<QueryStatistics>,
        /// The errors, if any.
        errors: Option<Vec<String>>,
    },
    /// The request failed; the failure rendered.
    Failed(String),
}

/// Periodic job that gathers the statistics of one client; `app/` runs it
/// every two seconds and hands each outcome to [`ClientJob::record`].
#[derive(Debug)]
pub struct ClientJob {
    /// The client whose statistics are gathered.
    pub client_id: ClientId,
}

impl ClientJob {
    /// The job that gathers the statistics of the client `id`.
    pub fn gather_statistics(id: ClientId) -> (j: ClientJob)
        ensures
            j.client_id == id,
    {
        ClientJob { client_id: id }
    }

    /// Stores the outcome of one request of this job in the client's
    /// statistics: the answer, or the failure as its only error.
    pub fn record(&self, outcome: FetchOutcome, state: &mut State)
        requires
            has_client(old(state).clients@, self.client_id@),
            outcome matches FetchOutcome::Answered { data, .. } ==> storable(data),
        ensures
            only_clients_changed(*old(state), *final(state)),
            final(state).restreams == old(state).restreams,
            final(state).files == old(state).files,
            match first_index(old(state).clients@, is_client(self.client_id@)) {
                Some(i) => {
                    &&& final(state).clients@.len() == old(state).clients@.len()
                    &&& forall|j: int| 0 <= j < old(state).clients@.len() && j != i
                        ==> #[trigger] final(state).clients@[j] == old(state).clients@[j]
                    &&& final(state).clients@[i].id == old(state).clients@[i].id
                    &&& match outcome {
                        FetchOutcome::Answered { data, errors } => stored_response(
                            final(state).clients@[i].statistics,
                            data,
                            errors,
                        ),
                        FetchOutcome::Failed(e) => {
                            &&& final(state).clients@[i].statistics matches Some(r)
                            &&& r.data is None
                            &&& r.errors matches Some(es)
                            &&& es@.len() == 1
                            &&& es@[0]@ == "Error retrieving data for client "@ + self.client_id@ + ". "@ + e@
                        },
                    }
                },
                None => false,
            },
    {
        match outcome {
            FetchOutcome::Answered { data, errors } => {
                save_client_statistics(&self.client_id, data, errors, state);
            },
            FetchOutcome::Failed(e) => {
                let m = statistics_error_message(&self.client_id, e.as_str());
                let mut es: Vec<String> = Vec::new();
                es.push(m);
                save_client_error(&self.client_id, es, state);
                proof {
                    lemma_first_index_some(old(state).clients@, is_client(self.client_id@));
                }
            },
        }
    }
}

/// Adjusting the statistics jobs twice to the same clients keeps, the
/// second time, the job of each client at its first occurrence, and starts
/// none for them: after the first time jobs run for exactly the clients
/// given (see [`ClientJobsPool::start_statistics_loop`]).
pub proof fn lemma_statistics_loop_again(ids: Seq<Seq<char>>)
    ensures
        forall|i: int|
            0 <= i < ids.len() ==> (distinct(ids).contains(#[trigger] ids[i]) && !ids.take(i).contains(ids[i]))
                == !ids.take(i).contains(ids[i]),
{
    assert forall|i: int| 0 <= i < ids.len() implies (distinct(ids).contains(#[trigger] ids[i]) && !ids.take(
        i,
    ).contains(ids[i])) == !ids.take(i).contains(ids[i]) by {
        lemma_distinct_contains(ids, ids[i]);
        assert(ids.contains(ids[i]));
    }
}

} // verus!
