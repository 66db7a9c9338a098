//! The message bus daemon's decisions: where its socket lives, who holds a
//! socket path, the table of connected sessions, what each session handler
//! does with the lines it reads and the lines broadcast to it, and when the
//! daemon stops.

use vstd::prelude::*;
use crate::slots::SlotTable;
use crate::text::{decimal, push_decimal, push_text};

verus! {

/// Socket-path prefix of the production bus.
pub const DEFAULT_SOCKET_PREFIX: &'static str = "dialectic-daemon";

/// Seconds between two probes of the owner's liveness.
pub const OWNER_PROBE_INTERVAL_SECS: u64 = 5;

/// Seconds between two sweeps for finished session handlers.
pub const REAP_INTERVAL_SECS: u64 = 1;

/// Lines the broadcast channel keeps for a lagging subscriber.
pub const BROADCAST_BACKLOG: usize = 1000;

/// The socket path of the bus for `owner_id`: `/tmp/<prefix>-<owner_id>.sock`.
pub open spec fn socket_path_spec(prefix: Seq<char>, owner_id: nat) -> Seq<char> {
    "/tmp/"@ + prefix + "-"@ + decimal(owner_id) + ".sock"@
}

/// The socket path of the bus for `owner_id`.
pub fn socket_path(prefix: &str, owner_id: u32) -> (r: String)
    ensures
        r@ == socket_path_spec(prefix@, owner_id as nat),
{
    let mut r = "/tmp/".to_owned();
    push_text(&mut r, prefix);
    push_text(&mut r, "-");
    push_decimal(&mut r, owner_id);
    push_text(&mut r, ".sock");
    proof {
        assert(r@ =~= socket_path_spec(prefix@, owner_id as nat));
    }
    r
}

/// Why a socket could not be claimed.
pub enum ClaimError {
    /// Another daemon holds the path: fatal, and not to be retried.
    AlreadyClaimed { path: String },
    /// The bind failed for another reason.
    Io { path: String, reason: String },
}

/// What binding a socket path reported.
pub enum BindOutcome {
    Bound,
    AddressInUse,
    Failed(String),
}

/// The claim that a bind outcome amounts to: an address in use is the
/// distinguishable conflict, any other failure an I/O error.
pub fn claim_from_bind(path: String, outcome: BindOutcome) -> (r: Result<(), ClaimError>)
    ensures
        outcome is Bound <==> r is Ok,
        outcome is AddressInUse <==> (r matches Err(ClaimError::AlreadyClaimed { path: p })
            && p@ == path@),
        outcome is Failed <==> r matches Err(ClaimError::Io { .. }),
{
    match outcome {
        BindOutcome::Bound => Ok(()),
        BindOutcome::AddressInUse => Err(ClaimError::AlreadyClaimed { path }),
        BindOutcome::Failed(reason) => Err(ClaimError::Io { path, reason }),
    }
}

/// The process exit status of a daemon run: 0 after a graceful stop, 1 when
/// the socket could not be claimed or the run failed.
pub fn exit_status(r: &Result<(), ClaimError>) -> (code: i32)
    ensures
        r is Ok ==> code == 0,
        r is Err ==> code == 1,
{
    match r {
        Ok(()) => 0,
        Err(_) => 1,
    }
}

/// The socket paths held by running daemons, keyed by path, so that
/// several owners can coexist in one process.
pub struct ClaimTable {
    held: SlotTable<()>,
}

impl ClaimTable {
    /// The held paths.
    pub closed spec fn view(&self) -> Set<Seq<char>> {
        self.held@.dom()
    }

    pub closed spec fn wf(&self) -> bool {
        self.held.wf()
    }

    /// A table where nothing is held.
    pub fn new() -> (r: Self)
        ensures
            r.wf(),
            r@ == Set::<Seq<char>>::empty(),
    {
        let r = ClaimTable { held: SlotTable::new() };
        assert(r@ =~= Set::<Seq<char>>::empty());
        r
    }

    /// Claims `path`: succeeds exactly when nobody holds it.
    pub fn claim(&mut self, path: String) -> (r: Result<(), ClaimError>)
        requires
            old(self).wf(),
        ensures
            final(self).wf(),
            (final(self)@, r is Ok) == claim_spec(old(self)@, path@),
            r matches Err(e) ==> (e matches ClaimError::AlreadyClaimed { path: p } && p@ == path@),
    {
        if self.held.contains(&path) {
            Err(ClaimError::AlreadyClaimed { path })
        } else {
            let _ = self.held.insert(path, ());
            proof {
                assert(self@ =~= old(self)@.insert(path@));
            }
            Ok(())
        }
    }

    /// Releases `path` when its daemon stops.
    pub fn release(&mut self, path: &String)
        requires
            old(self).wf(),
        ensures
            final(self).wf(),
            final(self)@ == old(self)@.remove(path@),
    {
        let _ = self.held.take(path);
        proof {
            assert(self@ =~= old(self)@.remove(path@));
        }
    }

    /// Whether `path` is held.
    pub fn is_claimed(&self, path: &String) -> (r: bool)
        requires
            self.wf(),
        ensures
            r == self@.contains(path@),
    {
        self.held.contains(path)
    }
}

/// The held paths after claiming `path`, and whether the claim succeeded.
pub open spec fn claim_spec(held: Set<Seq<char>>, path: Seq<char>) -> (Set<Seq<char>>, bool) {
    if held.contains(path) {
        (held, false)
    } else {
        (held.insert(path), true)
    }
}

/// Exclusive claim: a free path is claimed once; a second claim of the same
/// path while the first holder runs fails; a claim of another owner's path
/// is not affected; once the holder releases the path it can be claimed
/// again.
pub proof fn lemma_claim_is_exclusive(held: Set<Seq<char>>, path: Seq<char>, other: Seq<char>)
    requires
        !held.contains(path),
        other != path,
    ensures
        claim_spec(held, path).1,
        !claim_spec(claim_spec(held, path).0, path).1,
        claim_spec(claim_spec(held, path).0, other).1 == !held.contains(other),
        claim_spec(claim_spec(held, path).0.remove(path), path).1,
{
    assert(held.insert(path).remove(path) =~= held);
}

/// The sessions connected to the daemon, by ordinal, in order of arrival.
pub struct SessionTable<H> {
    entries: Vec<(u64, H)>,
    next: u64,
}

/// The entries whose flag in `finished` is false, in order.
pub open spec fn unfinished<H>(e: Seq<(u64, H)>, finished: Seq<bool>) -> Seq<(u64, H)>
    decreases e.len(),
{
    if e.len() == 0 {
        Seq::empty()
    } else {
        let rest = unfinished(e.drop_last(), finished);
        if finished[e.len() - 1] {
            rest
        } else {
            rest.push(e.last())
        }
    }
}

/// The ordinals of the entries whose flag in `finished` is true, in order.
pub open spec fn finished_ordinals<H>(e: Seq<(u64, H)>, finished: Seq<bool>) -> Seq<u64>
    decreases e.len(),
{
    if e.len() == 0 {
        Seq::empty()
    } else {
        let rest = finished_ordinals(e.drop_last(), finished);
        if finished[e.len() - 1] {
            rest.push(e.last().0)
        } else {
            rest
        }
    }
}

impl<H> SessionTable<H> {
    /// The (ordinal, handle) entries in order of arrival.
    pub closed spec fn view(&self) -> Seq<(u64, H)> {
        self.entries@
    }

    /// The ordinal the next session gets.
    pub closed spec fn next_ordinal(&self) -> u64 {
        self.next
    }

    /// Ordinals increase strictly and lie below the next ordinal.
    pub closed spec fn wf(&self) -> bool {
        &&& forall|i: int, j: int|
            0 <= i < j < self.entries@.len() ==> self.entries@[i].0 < self.entries@[j].0
        &&& forall|i: int| 0 <= i < self.entries@.len() ==> self.entries@[i].0 < self.next
    }

    pub fn new() -> (r: Self)
        ensures
            r.wf(),
            r@ == Seq::<(u64, H)>::empty(),
            r.next_ordinal() == 0,
    {
        SessionTable { entries: Vec::new(), next: 0 }
    }

    pub fn len(&self) -> (n: usize)
        ensures
            n == self@.len(),
    {
        self.entries.len()
    }

    /// The handle of the entry at `i`.
    pub fn handle_at(&self, i: usize) -> (h: &H)
        requires
            i < self@.len(),
        ensures
            *h == self@[i as int].1,
    {
        &self.entries[i].1
    }

    /// Adds the handler of a newly accepted session and returns its ordinal.
    pub fn accept(&mut self, h: H) -> (ordinal: u64)
        requires
            old(self).wf(),
            old(self).next_ordinal() < u64::MAX,
        ensures
            final(self).wf(),
            ordinal == old(self).next_ordinal(),
            final(self).next_ordinal() == ordinal + 1,
            final(self)@ == old(self)@.push((ordinal, h)),
    {
        let ordinal = self.next;
        self.entries.push((ordinal, h));
        self.next = ordinal + 1;
        ordinal
    }

    /// Drops the entries whose handler has finished (`finished[i]` tells
    /// for the entry at `i`) and returns their ordinals.
    pub fn reap(&mut self, finished: &Vec<bool>) -> (gone: Vec<u64>)
        requires
            old(self).wf(),
            finished@.len() == old(self)@.len(),
        ensures
            final(self).wf(),
            final(self).next_ordinal() == old(self).next_ordinal(),
            final(self)@ == unfinished(old(self)@, finished@),
            gone@ == finished_ordinals(old(self)@, finished@),
    {
        let ghost e = self.entries@;
        let mut old_entries: Vec<(u64, H)> = Vec::new();
        std::mem::swap(&mut old_entries, &mut self.entries);
        let mut kept: Vec<(u64, H)> = Vec::new();
        let mut gone: Vec<u64> = Vec::new();
        let mut rest = old_entries;
        let n = rest.len();
        let mut i: usize = 0;
        while i < n
            invariant
                n == e.len(),
                finished@.len() == n,
                i <= n,
                rest@.len() == n - i,
                rest@ == e.subrange(i as int, n as int),
                kept@ == unfinished(e.subrange(0, i as int), finished@),
                gone@ == finished_ordinals(e.subrange(0, i as int), finished@),
                forall|a: int, b: int| 0 <= a < b < e.len() ==> e[a].0 < e[b].0,
                forall|a: int| 0 <= a < e.len() ==> e[a].0 < self.next,
                self.next == old(self).next,
            decreases n - i,
        {
            let entry = rest.remove(0);
            proof {
                assert(entry == e[i as int]);
                assert(e.subrange(0, i + 1).drop_last() =~= e.subrange(0, i as int));
            }
            if finished[i] {
                gone.push(entry.0);
            } else {
                kept.push(entry);
            }
            i = i + 1;
        }
        proof {
            assert(e.subrange(0, n as int) =~= e);
            lemma_unfinished_ordered(e, finished@);
        }
        self.entries = kept;
        gone
    }

    /// Takes every entry out, for aborting their handlers at shutdown.
    pub fn drain(&mut self) -> (all: Vec<(u64, H)>)
        requires
            old(self).wf(),
        ensures
            final(self).wf(),
            final(self)@ == Seq::<(u64, H)>::empty(),
            final(self).next_ordinal() == old(self).next_ordinal(),
            all@ == old(self)@,
    {
        let mut all: Vec<(u64, H)> = Vec::new();
        std::mem::swap(&mut all, &mut self.entries);
        all
    }
}

proof fn lemma_unfinished_sub<H>(e: Seq<(u64, H)>, finished: Seq<bool>)
    ensures
        forall|k: int|
            0 <= k < unfinished(e, finished).len() ==> exists|j: int|
                0 <= j < e.len() && #[trigger] unfinished(e, finished)[k] == e[j],
        unfinished(e, finished).len() <= e.len(),
    decreases e.len(),
{
    if e.len() > 0 {
        lemma_unfinished_sub(e.drop_last(), finished);
        let u = unfinished(e, finished);
        let r = unfinished(e.drop_last(), finished);
        assert forall|k: int| 0 <= k < u.len() implies exists|j: int|
            0 <= j < e.len() && #[trigger] u[k] == e[j] by {
            if k < r.len() {
                assert(u[k] == r[k]);
                let j = choose|j: int| 0 <= j < e.drop_last().len() && r[k] == e.drop_last()[j];
                assert(u[k] == e[j]);
            } else {
                assert(u[k] == e[e.len() - 1]);
            }
        }
    }
}

proof fn lemma_unfinished_ordered<H>(e: Seq<(u64, H)>, finished: Seq<bool>)
    requires
        forall|a: int, b: int| 0 <= a < b < e.len() ==> e[a].0 < e[b].0,
    ensures
        forall|a: int, b: int|
            0 <= a < b < unfinished(e, finished).len() ==> unfinished(e, finished)[a].0
                < unfinished(e, finished)[b].0,
        forall|k: int|
            0 <= k < unfinished(e, finished).len() ==> exists|j: int|
                0 <= j < e.len() && #[trigger] unfinished(e, finished)[k] == e[j],
    decreases e.len(),
{
    lemma_unfinished_sub(e, finished);
    if e.len() > 0 {
        let d = e.drop_last();
        lemma_unfinished_ordered(d, finished);
        lemma_unfinished_sub(d, finished);
        let u = unfinished(e, finished);
        let r = unfinished(d, finished);
        if !finished[e.len() - 1] {
            assert forall|a: int, b: int| 0 <= a < b < u.len() implies u[a].0 < u[b].0 by {
                if b < r.len() {
                    assert(u[a] == r[a] && u[b] == r[b]);
                } else {
                    assert(u[a] == r[a]);
                    let j = choose|j: int| 0 <= j < d.len() && r[a] == d[j];
                    assert(e[j] == d[j]);
                }
            }
        }
    }
}

/// What a session handler reacts to.
pub enum SessionEvent {
    /// A line read from the peer, terminator included.
    LineRead(String),
    /// The peer closed its end.
    PeerClosed,
    /// Reading from the peer failed.
    ReadFailed,
    /// A line was published on the bus.
    Published(String),
    /// This subscriber lagged and missed some lines.
    Lagged,
    /// The broadcast channel is gone.
    ChannelClosed,
    /// Writing to the peer failed.
    WriteFailed,
}

/// What a session handler does next.
pub enum SessionAction {
    /// Publish this line to every subscriber, this session included.
    Publish(String),
    /// Write this text to the peer.
    Deliver(String),
    /// Nothing to do; keep serving.
    Continue,
    /// End both directions of this session.
    Disconnect,
}

/// The text that `str::trim` leaves of `s`.
pub uninterp spec fn trimmed(s: Seq<char>) -> Seq<char>;

/// Relies on str::trim: the text without leading and trailing whitespace.
/// An empty text stays empty.
#[verifier::external_body]
fn trim_text(s: &str) -> (r: String)
    ensures
        r@ == trimmed(s@),
        s@.len() == 0 ==> r@.len() == 0,
{
    s.trim().to_string()
}

/// The action for a line read from the peer, given its trimmed text: a
/// non-empty line is published verbatim, an empty one is skipped.
pub fn inbound_action(trimmed_line: String) -> (r: SessionAction)
    ensures
        trimmed_line@.len() > 0 ==> r == SessionAction::Publish(trimmed_line),
        trimmed_line@.len() == 0 ==> r == SessionAction::Continue,
{
    if trimmed_line.unicode_len() > 0 {
        SessionAction::Publish(trimmed_line)
    } else {
        SessionAction::Continue
    }
}

/// The action for a line published on the bus: it goes to the peer with a
/// newline terminator.
pub fn outbound_action(line: &str) -> (r: SessionAction)
    ensures
        r matches SessionAction::Deliver(t) && t@ == line@.push('\n'),
{
    SessionAction::Deliver(crate::wire::frame_line(line))
}

/// The spec of one session handler step.
pub open spec fn session_step_spec(ev: SessionEvent, r: SessionAction) -> bool {
    match ev {
        SessionEvent::LineRead(l) => if trimmed(l@).len() > 0 {
            r matches SessionAction::Publish(t) && t@ == trimmed(l@)
        } else {
            r == SessionAction::Continue
        },
        SessionEvent::Published(m) => r matches SessionAction::Deliver(t) && t@ == m@.push('\n'),
        SessionEvent::Lagged => r == SessionAction::Continue,
        _ => r == SessionAction::Disconnect,
    }
}

/// One step of a session handler: lines read are published after trimming
/// (empty ones skipped), published lines go to the peer, a lagging
/// subscriber just misses lines, and any end or failure disconnects this
/// session only.
pub fn session_step(ev: SessionEvent) -> (r: SessionAction)
    ensures
        session_step_spec(ev, r),
{
    match ev {
        SessionEvent::LineRead(l) => inbound_action(trim_text(l.as_str())),
        SessionEvent::Published(m) => outbound_action(m.as_str()),
        SessionEvent::Lagged => SessionAction::Continue,
        _ => SessionAction::Disconnect,
    }
}

/// Fan-out: a non-empty line read from one session is published as its
/// trimmed text, and every session handler that receives the published
/// line (the sender's included) delivers that text to its peer with a
/// newline terminator.
pub proof fn lemma_fan_out(line: String, published: SessionAction)
    requires
        trimmed(line@).len() > 0,
        session_step_spec(SessionEvent::LineRead(line), published),
    ensures
        published matches SessionAction::Publish(t) && t@ == trimmed(line@) && forall|
            d: SessionAction,
        |
            #[trigger] session_step_spec(SessionEvent::Published(t), d) ==> (d matches SessionAction::Deliver(x)
                && x@ == trimmed(line@).push('\n')),
{
}

/// What probing the owner process reported.
pub enum Liveness {
    Alive,
    /// No such process: the owner has exited.
    Gone,
    /// The probe itself failed; the owner may still be there.
    ProbeFailed,
}

/// A running daemon: its socket path, its sessions and whether it still runs.
pub struct Daemon<H> {
    path: String,
    sessions: SessionTable<H>,
    running: bool,
}

/// What the daemon does when it stops: abort these handlers, then remove
/// the socket file at this path.
pub struct Shutdown<H> {
    pub handlers: Vec<(u64, H)>,
    pub remove_path: String,
}

impl<H> Daemon<H> {
    pub closed spec fn path(&self) -> Seq<char> {
        self.path@
    }

    pub closed spec fn sessions(&self) -> Seq<(u64, H)> {
        self.sessions@
    }

    pub closed spec fn next_ordinal(&self) -> u64 {
        self.sessions.next_ordinal()
    }

    pub closed spec fn running(&self) -> bool {
        self.running
    }

    pub closed spec fn wf(&self) -> bool {
        self.sessions.wf()
    }

    /// A daemon that has claimed `path` and has no session yet.
    pub fn new(path: String) -> (r: Self)
        ensures
            r.wf(),
            r.running(),
            r.path() == path@,
            r.sessions() == Seq::<(u64, H)>::empty(),
            r.next_ordinal() == 0,
    {
        Daemon { path, sessions: SessionTable::new(), running: true }
    }

    pub fn is_running(&self) -> (r: bool)
        ensures
            r == self.running(),
    {
        self.running
    }

    pub fn session_count(&self) -> (n: usize)
        ensures
            n == self.sessions().len(),
    {
        self.sessions.len()
    }

    pub fn session_handle(&self, i: usize) -> (h: &H)
        requires
            i < self.sessions().len(),
        ensures
            *h == self.sessions()[i as int].1,
    {
        self.sessions.handle_at(i)
    }

    /// Whether another session can still be numbered.
    pub fn can_accept(&self) -> (r: bool)
        ensures
            r == (self.next_ordinal() < u64::MAX),
    {
        self.sessions.next < u64::MAX
    }

    /// Records the handler of a newly accepted session.
    pub fn accept(&mut self, h: H) -> (ordinal: u64)
        requires
            old(self).wf(),
            old(self).next_ordinal() < u64::MAX,
        ensures
            final(self).wf(),
            ordinal == old(self).next_ordinal(),
            final(self).next_ordinal() == ordinal + 1,
            final(self).sessions() == old(self).sessions().push((ordinal, h)),
            final(self).path() == old(self).path(),
            final(self).running() == old(self).running(),
    {
        self.sessions.accept(h)
    }

    /// Forgets the sessions whose handler has finished.
    pub fn reap(&mut self, finished: &Vec<bool>) -> (gone: Vec<u64>)
        requires
            old(self).wf(),
            finished@.len() == old(self).sessions().len(),
        ensures
            final(self).wf(),
            final(self).sessions() == unfinished(old(self).sessions(), finished@),
            gone@ == finished_ordinals(old(self).sessions(), finished@),
            final(self).next_ordinal() == old(self).next_ordinal(),
            final(self).path() == old(self).path(),
            final(self).running() == old(self).running(),
    {
        self.sessions.reap(finished)
    }

    /// Stops the daemon: every handler is handed out for aborting, and the
    /// socket path for removal.
    pub fn stop(&mut self) -> (s: Shutdown<H>)
        requires
            old(self).wf(),
        ensures
            final(self).wf(),
            !final(self).running(),
            final(self).sessions() == Seq::<(u64, H)>::empty(),
            s.handlers@ == old(self).sessions(),
            s.remove_path@ == old(self).path(),
    {
        self.running = false;
        let handlers = self.sessions.drain();
        Shutdown { handlers, remove_path: self.path.clone() }
    }

    /// Acts on a liveness probe of the owner: the daemon stops when the
    /// owner is gone and keeps running otherwise (a failed probe is not
    /// taken as death).
    pub fn on_probe(&mut self, probe: Liveness) -> (r: Option<Shutdown<H>>)
        requires
            old(self).wf(),
        ensures
            final(self).wf(),
            probe is Gone ==> (r matches Some(s) && s.handlers@ == old(self).sessions()
                && s.remove_path@ == old(self).path() && !final(self).running()
                && final(self).sessions() == Seq::<(u64, H)>::empty()),
            !(probe is Gone) ==> (r is None && *final(self) == *old(self)),
    {
        match probe {
            Liveness::Gone => Some(self.stop()),
            _ => None,
        }
    }
}

} // verus!
