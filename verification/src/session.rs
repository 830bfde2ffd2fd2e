//! The session with one camera: where to connect, who logs in, and the
//! numbering of requests.

use vstd::prelude::*;
use crate::connection::BcConnection;
use crate::discovery::{DiscoveryMethods, SocketAddress};
use crate::errors::Error;

verus! {

/// How status messages such as battery levels are printed.
#[derive(Clone, Copy, Debug, PartialEq, Eq, Structural)]
pub enum PrintFormat {
    /// Nothing is printed.
    Quiet,
    /// Readable text.
    Human,
    /// XML.
    Xml,
}

/// Where a camera is to be reached.
#[derive(Debug, PartialEq, Eq)]
pub enum SocketAddrOrUid {
    /// At a resolved address, over TCP.
    SocketAddr(SocketAddress),
    /// By UID: the UID, addresses to probe besides the local network if any
    /// are known, and how far discovery may go.
    Uid(String, Option<Vec<SocketAddress>>, DiscoveryMethods),
}

/// The user that logs in. The password is kept as given: logging out and
/// deriving the AES key need it.
#[derive(Debug, PartialEq, Eq)]
pub struct Credentials {
    pub username: String,
    pub password: Option<String>,
}

impl Credentials {
    /// Credentials of a user, with or without a password.
    pub fn new(username: String, password: Option<String>) -> (credentials: Credentials)
        ensures
            credentials.username == username,
            credentials.password == password,
    {
        Credentials { username, password }
    }
}

/// What to attempt in order to open a session: the endpoints to try, first
/// to last, and the parameters of the session.
#[derive(Debug, PartialEq, Eq)]
pub struct ConnectPlan {
    pub candidates: Vec<SocketAddrOrUid>,
    pub channel_id: u8,
    pub username: String,
    pub passwd: Option<String>,
    pub aux_info_format: PrintFormat,
}

/// The endpoints for a list of resolved addresses, in the same order.
pub open spec fn address_candidates(addrs: Seq<SocketAddress>) -> Seq<SocketAddrOrUid> {
    Seq::new(addrs.len(), |i: int| SocketAddrOrUid::SocketAddr(addrs[i]))
}

/// The endpoints for a text that is a host name or a UID: the addresses it
/// resolved to if it resolved, and otherwise the text itself taken as a UID.
pub open spec fn addr_or_uid_candidates(
    host: String,
    resolved: Option<Vec<SocketAddress>>,
    fallback: DiscoveryMethods,
) -> Seq<SocketAddrOrUid> {
    match resolved {
        Some(addrs) => address_candidates(addrs@),
        None => seq![SocketAddrOrUid::Uid(host, None, fallback)],
    }
}

/// Candidates for a text that may be a host name or a UID. Name resolution
/// comes first: what the text resolved to is tried as addresses. A text that
/// did not resolve (`resolved` is `None`) is tried as a UID, with discovery
/// as far as `fallback` allows.
pub fn to_socket_addrs_or_uid(
    host: String,
    resolved: Option<Vec<SocketAddress>>,
    fallback: DiscoveryMethods,
) -> (candidates: Vec<SocketAddrOrUid>)
    ensures
        candidates@ == addr_or_uid_candidates(host, resolved, fallback),
{
    let mut candidates: Vec<SocketAddrOrUid> = Vec::new();
    match resolved {
        Some(addrs) => {
            let mut i: usize = 0;
            while i < addrs.len()
                invariant
                    i <= addrs@.len(),
                    candidates@ =~= address_candidates(addrs@.take(i as int)),
                decreases addrs@.len() - i,
            {
                candidates.push(SocketAddrOrUid::SocketAddr(addrs[i]));
                i += 1;
            }
            assert(addrs@.take(i as int) =~= addrs@);
        },
        None => {
            candidates.push(SocketAddrOrUid::Uid(host, None, fallback));
            assert(candidates@ =~= seq![SocketAddrOrUid::Uid(host, None, fallback)]);
        },
    }
    candidates
}

/// Connecting to candidate `i` succeeds according to `connects`.
pub open spec fn succeeds(connects: Seq<bool>, i: int) -> bool {
    0 <= i < connects.len() && connects[i]
}

/// The message number that follows `num`: one more, and zero after the last.
pub open spec fn next_message_num(num: u16) -> u16 {
    if num == u16::MAX {
        0u16
    } else {
        (num + 1) as u16
    }
}

/// The number handed out by the `n`-th allocation after the counter stood at
/// `start`, counting from zero.
pub open spec fn nth_message_num(start: u16, n: nat) -> u16 {
    ((start + n) % 0x1_0000) as u16
}

impl ConnectPlan {
    /// Which candidate to try after `failed` of them have been tried in vain:
    /// the next in order, and `CannotInitCamera` once none is left.
    pub fn next_attempt(&self, failed: usize) -> (next: Result<usize, Error>)
        ensures
            match next {
                Ok(i) => i == failed && failed < self.candidates@.len(),
                Err(e) => e == Error::CannotInitCamera && failed >= self.candidates@.len(),
            },
    {
        if failed < self.candidates.len() {
            Ok(failed)
        } else {
            Err(Error::CannotInitCamera)
        }
    }

    /// The candidate that a run of attempts ends with, given for each
    /// candidate in order whether connecting to it succeeds (a candidate that
    /// `connects` does not reach counts as failing): the first that succeeds,
    /// and `CannotInitCamera` if none does.
    pub fn first_success(&self, connects: &Vec<bool>) -> (chosen: Result<usize, Error>)
        ensures
            match chosen {
                Ok(i) => i < self.candidates@.len() && succeeds(connects@, i as int)
                    && forall|j: int| 0 <= j < i ==> !succeeds(connects@, j),
                Err(e) => e == Error::CannotInitCamera && forall|j: int|
                    0 <= j < self.candidates@.len() ==> !succeeds(connects@, j),
            },
    {
        let total: usize = self.candidates.len();
        let mut tried: usize = 0;
        loop
            invariant
                total == self.candidates@.len(),
                tried <= total,
                forall|j: int| 0 <= j < tried ==> !succeeds(connects@, j),
            decreases total - tried,
        {
            match self.next_attempt(tried) {
                Ok(i) => {
                    if i < connects.len() && connects[i] {
                        return Ok(i);
                    }
                    tried = i + 1;
                },
                Err(e) => {
                    return Err(e);
                },
            }
        }
    }
}

/// A session with a camera.
#[derive(Debug)]
pub struct BcCamera {
    channel_id: u8,
    connection: BcConnection,
    logged_in: bool,
    message_num: u16,
    // Logging out needs the user name and the password in plain text.
    credentials: Credentials,
}

impl BcCamera {
    /// The channel of the device on a recorder; zero for a camera by itself.
    pub closed spec fn channel(&self) -> u8 {
        self.channel_id
    }

    /// The connection's routing state.
    pub closed spec fn conn(&self) -> BcConnection {
        self.connection
    }

    /// Whether login has succeeded.
    pub closed spec fn logged(&self) -> bool {
        self.logged_in
    }

    /// The message number that the next request gets.
    pub closed spec fn counter(&self) -> u16 {
        self.message_num
    }

    /// The user of the session.
    pub closed spec fn creds(&self) -> Credentials {
        self.credentials
    }

    /// The plan for a camera at a host name or address: every address that
    /// the name resolved to is a candidate, in the order of resolution.
    /// `resolved` is `None` when the name did not resolve, and the error says so.
    pub fn new_with_addr(
        resolved: Option<Vec<SocketAddress>>,
        channel_id: u8,
        username: String,
        passwd: Option<String>,
        aux_info_format: PrintFormat,
    ) -> (plan: Result<ConnectPlan, Error>)
        ensures
            match plan {
                Ok(plan) => resolved is Some && plan.candidates@ == address_candidates(
                    resolved.unwrap()@,
                ) && plan.channel_id == channel_id && plan.username == username && plan.passwd
                    == passwd && plan.aux_info_format == aux_info_format,
                Err(e) => resolved is None && e == Error::AddrResolutionError,
            },
    {
        match resolved {
            Some(addrs) => {
                let mut candidates: Vec<SocketAddrOrUid> = Vec::new();
                let mut i: usize = 0;
                while i < addrs.len()
                    invariant
                        i <= addrs@.len(),
                        candidates@ =~= address_candidates(addrs@.take(i as int)),
                    decreases addrs@.len() - i,
                {
                    candidates.push(SocketAddrOrUid::SocketAddr(addrs[i]));
                    i += 1;
                }
                assert(addrs@.take(i as int) =~= addrs@);
                Ok(ConnectPlan { candidates, channel_id, username, passwd, aux_info_format })
            },
            None => Err(Error::AddrResolutionError),
        }
    }

    /// The plan for a camera known by its UID alone: discovery as far as
    /// `discovery_method` allows, with no address to probe.
    pub fn new_with_uid(
        uid: String,
        channel_id: u8,
        username: String,
        passwd: Option<String>,
        discovery_method: DiscoveryMethods,
        aux_info_format: PrintFormat,
    ) -> (plan: ConnectPlan)
        ensures
            plan.candidates@ == seq![SocketAddrOrUid::Uid(uid, None, discovery_method)],
            plan.channel_id == channel_id,
            plan.username == username,
            plan.passwd == passwd,
            plan.aux_info_format == aux_info_format,
    {
        let mut candidates: Vec<SocketAddrOrUid> = Vec::new();
        candidates.push(SocketAddrOrUid::Uid(uid, None, discovery_method));
        assert(candidates@ =~= seq![SocketAddrOrUid::Uid(uid, None, discovery_method)]);
        ConnectPlan { candidates, channel_id, username, passwd, aux_info_format }
    }

    /// The plan for a camera known by its UID and by an address: discovery
    /// probes the addresses that the host resolved to as well. `resolved` is
    /// `None` when the name did not resolve, and the error says so.
    pub fn new_with_uid_and_addr(
        uid: String,
        resolved: Option<Vec<SocketAddress>>,
        channel_id: u8,
        username: String,
        passwd: Option<String>,
        discovery_method: DiscoveryMethods,
        aux_info_format: PrintFormat,
    ) -> (plan: Result<ConnectPlan, Error>)
        ensures
            match plan {
                Ok(plan) => resolved is Some && plan.candidates@ == seq![
                    SocketAddrOrUid::Uid(uid, resolved, discovery_method),
                ] && plan.channel_id == channel_id && plan.username == username && plan.passwd
                    == passwd && plan.aux_info_format == aux_info_format,
                Err(e) => resolved is None && e == Error::AddrResolutionError,
            },
    {
        match resolved {
            Some(addrs) => {
                let mut candidates: Vec<SocketAddrOrUid> = Vec::new();
                candidates.push(SocketAddrOrUid::Uid(uid, Some(addrs), discovery_method));
                assert(candidates@ =~= seq![SocketAddrOrUid::Uid(uid, resolved, discovery_method)]);
                Ok(ConnectPlan { candidates, channel_id, username, passwd, aux_info_format })
            },
            None => Err(Error::AddrResolutionError),
        }
    }

    /// The plan for a camera given by a text that is a host name or a UID:
    /// the candidates are whatever the text resolved to, addresses first, in
    /// the order given. `resolved` is `None` when it resolved to nothing.
    pub fn new_with_addr_or_uid(
        resolved: Option<Vec<SocketAddrOrUid>>,
        channel_id: u8,
        username: String,
        passwd: Option<String>,
        aux_info_format: PrintFormat,
    ) -> (plan: Result<ConnectPlan, Error>)
        ensures
            match plan {
                Ok(plan) => resolved == Some(plan.candidates) && plan.channel_id == channel_id
                    && plan.username == username && plan.passwd == passwd
                    && plan.aux_info_format == aux_info_format,
                Err(e) => resolved is None && e == Error::AddrResolutionError,
            },
    {
        match resolved {
            Some(candidates) => Ok(
                ConnectPlan { candidates, channel_id, username, passwd, aux_info_format },
            ),
            None => Err(Error::AddrResolutionError),
        }
    }

    /// A fresh session over an established connection: not logged in, and
    /// numbering its requests from zero.
    pub fn new(
        connection: BcConnection,
        channel_id: u8,
        username: String,
        passwd: Option<String>,
    ) -> (camera: BcCamera)
        ensures
            camera.conn() == connection,
            camera.channel() == channel_id,
            !camera.logged(),
            camera.counter() == 0,
            camera.creds().username == username,
            camera.creds().password == passwd,
    {
        BcCamera {
            connection,
            message_num: 0,
            channel_id,
            logged_in: false,
            credentials: Credentials::new(username, passwd),
        }
    }

    /// Hands out a message number and advances the counter, which wraps to
    /// zero after the last number.
    pub fn new_message_num(&mut self) -> (num: u16)
        ensures
            num == old(self).counter(),
            final(self).counter() == next_message_num(old(self).counter()),
            final(self).conn() == old(self).conn(),
            final(self).channel() == old(self).channel(),
            final(self).logged() == old(self).logged(),
            final(self).creds() == old(self).creds(),
    {
        let num: u16 = self.message_num;
        self.message_num = num.wrapping_add(1);
        num
    }

    /// The connection's routing state.
    pub fn get_connection(&self) -> (connection: &BcConnection)
        ensures
            *connection == self.conn(),
    {
        &self.connection
    }

    /// The connection's routing state, to register waiters and route frames.
    pub fn get_connection_mut(&mut self) -> (connection: &mut BcConnection)
        ensures
            *connection == old(self).conn(),
            final(self).conn() == *final(connection),
            final(self).channel() == old(self).channel(),
            final(self).logged() == old(self).logged(),
            final(self).counter() == old(self).counter(),
            final(self).creds() == old(self).creds(),
    {
        &mut self.connection
    }

    /// The user name and password of the session.
    pub fn get_credentials(&self) -> (credentials: &Credentials)
        ensures
            *credentials == self.creds(),
    {
        &self.credentials
    }

    /// The channel of the device on a recorder.
    pub fn channel_id(&self) -> (channel_id: u8)
        ensures
            channel_id == self.channel(),
    {
        self.channel_id
    }

    /// Whether login has succeeded.
    pub fn is_logged_in(&self) -> (logged_in: bool)
        ensures
            logged_in == self.logged(),
    {
        self.logged_in
    }

    /// Records the outcome of a login or a logout.
    pub fn set_logged_in(&mut self, logged_in: bool)
        ensures
            final(self).logged() == logged_in,
            final(self).conn() == old(self).conn(),
            final(self).channel() == old(self).channel(),
            final(self).counter() == old(self).counter(),
            final(self).creds() == old(self).creds(),
    {
        self.logged_in = logged_in;
    }
}

/// Unanswered pings in a row after which the session has failed.
pub const KEEPALIVE_LOSS_THRESHOLD: u8 = 3;

/// The count of unanswered pings after one more ping: an answer clears it, a
/// miss adds one, and a session that has failed stays failed.
pub open spec fn missed_after(missed: u8, acknowledged: bool) -> u8 {
    if missed >= KEEPALIVE_LOSS_THRESHOLD {
        missed
    } else if acknowledged {
        0u8
    } else {
        (missed + 1) as u8
    }
}

/// Watches over the keep-alive pings of a session.
#[derive(Clone, Copy, Debug, PartialEq, Eq)]
pub struct KeepAlive {
    missed: u8,
}

impl KeepAlive {
    /// Pings that went unanswered in a row.
    pub closed spec fn missed(&self) -> u8 {
        self.missed
    }

    /// Whether the session still counts as alive.
    pub open spec fn alive(&self) -> bool {
        self.missed() < KEEPALIVE_LOSS_THRESHOLD
    }

    /// A watch with no ping missed.
    pub fn new() -> (watch: KeepAlive)
        ensures
            watch.missed() == 0,
    {
        KeepAlive { missed: 0 }
    }

    /// Records whether a ping was acknowledged and says whether the session
    /// is still alive: it has failed once three pings in a row went
    /// unanswered.
    pub fn record(&mut self, acknowledged: bool) -> (alive: bool)
        ensures
            final(self).missed() == missed_after(old(self).missed(), acknowledged),
            alive == final(self).alive(),
    {
        if self.missed < KEEPALIVE_LOSS_THRESHOLD {
            if acknowledged {
                self.missed = 0;
            } else {
                self.missed = self.missed + 1;
            }
        }
        self.missed < KEEPALIVE_LOSS_THRESHOLD
    }
}

/// Pings that are answered leave no trace: after any number of answered
/// pings in a row the watch stands where it stood after the first.
pub proof fn lemma_answered_pings_idempotent(missed: u8)
    ensures
        missed_after(missed_after(missed, true), true) == missed_after(missed, true),
        missed < KEEPALIVE_LOSS_THRESHOLD ==> missed_after(missed, true) == 0,
{
}

/// The count of unanswered pings after a series of pings, each answered or
/// not, on a fresh watch.
pub open spec fn missed_over(results: Seq<bool>) -> u8
    decreases results.len(),
{
    if results.len() == 0 {
        0u8
    } else {
        missed_after(missed_over(results.drop_last()), results.last())
    }
}

/// Three pings in a row, the first of them at position `at`, went unanswered.
pub open spec fn three_missed_at(results: Seq<bool>, at: int) -> bool {
    0 <= at && at + 3 <= results.len() && !results[at] && !results[at + 1] && !results[at + 2]
}

/// The pings unanswered in a row at the end of a series.
pub open spec fn trailing_misses(results: Seq<bool>) -> nat
    decreases results.len(),
{
    if results.len() == 0 || results.last() {
        0
    } else {
        1 + trailing_misses(results.drop_last())
    }
}

/// A session fails exactly when three pings in a row have gone unanswered:
/// after any series of pings the watch reports failure if and only if
/// somewhere in the series three consecutive pings were missed. Until then
/// it counts the misses at the end of the series.
pub proof fn lemma_fails_on_three_misses(results: Seq<bool>)
    ensures
        missed_over(results) <= KEEPALIVE_LOSS_THRESHOLD,
        missed_over(results) == KEEPALIVE_LOSS_THRESHOLD <==> exists|at: int|
            three_missed_at(results, at),
        missed_over(results) < KEEPALIVE_LOSS_THRESHOLD ==> missed_over(results)
            == trailing_misses(results),
    decreases results.len(),
{
    if results.len() > 0 {
        let earlier = results.drop_last();
        lemma_fails_on_three_misses(earlier);
        let n = earlier.len() as int;
        assert forall|at: int| three_missed_at(earlier, at) implies three_missed_at(
            results,
            at,
        ) by {
            assert(earlier[at] == results[at]);
            assert(earlier[at + 1] == results[at + 1]);
            assert(earlier[at + 2] == results[at + 2]);
        }
        if missed_over(earlier) < KEEPALIVE_LOSS_THRESHOLD {
            if !results.last() {
                if missed_over(earlier) == 2 {
                    // The two pings before the last were missed as well.
                    assert(trailing_misses(earlier) == 2);
                    assert(!earlier.last());
                    assert(trailing_misses(earlier.drop_last()) == 1);
                    assert(!earlier.drop_last().last());
                    assert(earlier.drop_last().last() == results[n - 2]);
                    assert(earlier.last() == results[n - 1]);
                    assert(three_missed_at(results, n - 2));
                }
            }
            if missed_over(results) < KEEPALIVE_LOSS_THRESHOLD {
                // No three in a row end at the last ping, nor earlier.
                assert forall|at: int| !three_missed_at(results, at) by {
                    if three_missed_at(results, at) {
                        if at + 3 <= n {
                            assert(earlier[at] == results[at]);
                            assert(earlier[at + 1] == results[at + 1]);
                            assert(earlier[at + 2] == results[at + 2]);
                            assert(three_missed_at(earlier, at));
                        } else {
                            assert(at == n - 2);
                            assert(!results.last());
                            assert(earlier.last() == results[n - 1]);
                            assert(trailing_misses(earlier) >= 1);
                            assert(earlier.drop_last().last() == results[n - 2]);
                            assert(trailing_misses(earlier.drop_last()) >= 1);
                            assert(trailing_misses(earlier) >= 2);
                        }
                    }
                }
            }
        }
    }
}

/// Allocating `n` times from a counter at `start` leaves it where the `n`-th
/// allocation will read it: the numbers handed out are `start`, `start + 1`
/// and so on, modulo 65536.
pub proof fn lemma_nth_message_num_step(start: u16, n: nat)
    ensures
        nth_message_num(start, 0) == start,
        nth_message_num(start, n + 1) == next_message_num(nth_message_num(start, n)),
{
}

/// Requests that are outstanding together carry different message numbers:
/// two allocations fewer than 65536 apart never hand out the same number.
pub proof fn lemma_message_nums_distinct(start: u16, i: nat, j: nat)
    requires
        i < j,
        j - i < 0x1_0000,
    ensures
        nth_message_num(start, i) != nth_message_num(start, j),
{
    let a = start + i;
    let b = start + j;
    if a % 0x1_0000 == b % 0x1_0000 {
        assert(false) by (nonlinear_arith)
            requires
                a < b,
                b - a < 0x1_0000,
                a % 0x1_0000 == b % 0x1_0000,
                a >= 0,
        {
            assert(a == 0x1_0000 * (a / 0x1_0000) + a % 0x1_0000);
            assert(b == 0x1_0000 * (b / 0x1_0000) + b % 0x1_0000);
            assert(b - a == 0x1_0000 * ((b / 0x1_0000) - (a / 0x1_0000)));
        }
    }
}

/// After exactly 65536 allocations the counter has come round: the number
/// handed out is the one handed out 65536 allocations before.
pub proof fn lemma_message_num_wraps(start: u16, n: nat)
    ensures
        nth_message_num(start, n + 0x1_0000) == nth_message_num(start, n),
{
    let a = start + n;
    assert((a + 0x1_0000) % 0x1_0000 == a % 0x1_0000) by (nonlinear_arith)
        requires
            a >= 0,
    ;
}

} // verus!
