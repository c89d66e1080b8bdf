//! Resolving a URL to a local artifact: the decisions of one `resolve` call,
//! as a state machine. Each step names one piece of outside work (create the
//! directory, download, sleep, delete, rename, ...); whoever drives the
//! machine performs it and reports the outcome as the next event.
use vstd::prelude::*;

use crate::config::InferaConfig;
use crate::error::InferaError;
use crate::evict::{evict_count_from, target_size, Evictor, EvictorView};
use crate::index::{admitted, in_eviction_order, is_artifact_name, list_entries, ScannedFile};
use crate::key::{
    artifact_path, artifact_path_of, artifact_suffix, part_marker, temp_path, temp_path_of, token_path,
    token_path_of,
};
use crate::text::{decimal_of, decimal_text, lemma_decimal_ends_with_digit, trim, trimmed_of};

verus! {

/// How the status of a download attempt's response is read.
#[derive(Debug, Clone, Copy, PartialEq, Eq, Structural)]
pub enum ResponseKind {
    /// The server confirmed the cached copy: no body to write.
    NotModified,
    /// A new body follows, to be written to the attempt's temporary file.
    Body,
    /// The attempt failed.
    Rejected,
}

/// A 2xx status brings a body; a 304 confirms the cached copy, but only
/// where a token was presented; any other status is a failure.
pub open spec fn response_kind(status: int, token_sent: bool) -> ResponseKind {
    if 200 <= status < 300 {
        ResponseKind::Body
    } else if status == 304 && token_sent {
        ResponseKind::NotModified
    } else {
        ResponseKind::Rejected
    }
}

/// Reads the status of a response to a request that carried `token` (an
/// empty token is not sent).
pub fn classify_status(status: u16, token: &str) -> (r: ResponseKind)
    ensures
        r == response_kind(status as int, token@.len() > 0),
{
    if 200 <= status && status < 300 {
        ResponseKind::Body
    } else if status == 304 && token.unicode_len() > 0 {
        ResponseKind::NotModified
    } else {
        ResponseKind::Rejected
    }
}

/// The pause after failed attempt `attempt` of `max`, in milliseconds:
/// `base * attempt` (at most `u64::MAX`) while attempts remain, none after
/// the last.
pub open spec fn retry_pause(attempt: int, max: int, base: int) -> Option<int> {
    if attempt < max {
        Some(if base * attempt <= u64::MAX { base * attempt } else { u64::MAX as int })
    } else {
        None
    }
}

/// The pause after a failed attempt, or `None` when no attempt remains.
pub fn pause_after(attempt: u32, max: u32, base: u64) -> (r: Option<u64>)
    ensures
        r matches Some(d) ==> retry_pause(attempt as int, max as int, base as int) == Some(d as int),
        r is None ==> retry_pause(attempt as int, max as int, base as int) is None,
{
    if attempt < max {
        assert((base as int) * (attempt as int) <= 0xFFFF_FFFF_FFFF_FFFFint * 0xFFFF_FFFFint)
            by (nonlinear_arith)
            requires
                base <= 0xFFFF_FFFF_FFFF_FFFFint,
                attempt <= 0xFFFF_FFFFint,
        ;
        let p = (base as u128) * (attempt as u128);
        if p <= u64::MAX as u128 {
            Some(p as u64)
        } else {
            Some(u64::MAX)
        }
    } else {
        None
    }
}

/// With every attempt failing, attempts 1 to `max` are made: after each but
/// the last the machine pauses `base * attempt` milliseconds (a pause that
/// grows with each attempt while `base > 0` and it stays under `u64::MAX`),
/// and after the last it gives up.
pub proof fn lemma_retry_schedule(max: int, base: int)
    requires
        max >= 1,
        base >= 0,
    ensures
        forall|a: int| 1 <= a < max ==> #[trigger] retry_pause(a, max, base) is Some,
        retry_pause(max, max, base) is None,
        forall|a: int|
            #![trigger retry_pause(a, max, base)]
            1 <= a < max - 1 && base > 0 && base * (a + 1) <= u64::MAX ==> retry_pause(a, max, base)->0
                < retry_pause(a + 1, max, base)->0,
{
    assert forall|a: int|
        #![trigger retry_pause(a, max, base)]
        1 <= a < max - 1 && base > 0 && base * (a + 1) <= u64::MAX implies retry_pause(a, max, base)->0
            < retry_pause(a + 1, max, base)->0 by {
        assert(base * (a + 1) == base * a + base) by (nonlinear_arith);
    }
}

/// Where the machine stands.
#[derive(Debug, Clone, Copy, PartialEq, Eq, Structural)]
pub enum Phase {
    /// Waiting for the cache directory to be created.
    CreatingDir,
    /// Waiting to learn whether the artifact exists and what token is on disk.
    Probing,
    /// Waiting for a download attempt.
    Fetching,
    /// Waiting for a failed attempt's temporary file to be removed.
    CleaningUp,
    /// Waiting out the pause before the next attempt.
    Waiting,
    /// Waiting for the size of the downloaded file.
    Measuring,
    /// Waiting for a listing of the cache directory.
    Scanning,
    /// Waiting for an old entry to be deleted.
    Evicting,
    /// Waiting for the downloaded file to be renamed into place.
    Committing,
    /// Waiting for the new token to be saved.
    SavingToken,
    /// Waiting for the artifact's access time to be updated.
    Touching,
    /// Waiting for the temporary file to be removed after a failure.
    Discarding,
    /// Done: the last action carried the result.
    Finished,
}

/// The outcome of the last action, reported by whoever performed it.
#[derive(Debug)]
pub enum Event {
    /// The action succeeded.
    Done,
    /// The action failed, with this message.
    Failed(String),
    /// Whether the artifact exists, and the contents of the token file where
    /// it could be read.
    Probed { artifact_exists: bool, token: Option<String> },
    /// The server confirmed the cached copy.
    NotModified,
    /// The body was written to the temporary file; the server's new token
    /// (empty where it gave none).
    Fetched { token: String },
    /// The download attempt failed.
    FetchFailed(InferaError),
    /// The size of the downloaded file in bytes.
    Size(u64),
    /// A listing of the cache directory (empty where it does not exist) and
    /// the current time in nanoseconds since the epoch.
    Listing { files: Vec<ScannedFile>, now: u128 },
}

/// The outside work that the machine asks for next.
#[derive(Debug)]
pub enum Action {
    /// Create the cache directory and its parents where missing.
    CreateDir { dir: String },
    /// Report whether `artifact` exists, and read `token_file` where it can be read.
    Probe { artifact: String, token_file: String },
    /// Download `url` into `temp` within `timeout_secs`, presenting `token`
    /// where it is not empty.
    Fetch { url: String, temp: String, timeout_secs: u64, token: String },
    /// Remove `temp`; a failure is ignored.
    RemoveTemp { temp: String },
    /// Sleep for `millis` milliseconds.
    Sleep { millis: u64 },
    /// Report the size of `temp`.
    MeasureTemp { temp: String },
    /// List the cache directory.
    ScanCache { dir: String },
    /// Delete the cache entry at `path`.
    Delete { path: String },
    /// Rename `temp` to `artifact`, atomically.
    Commit { temp: String, artifact: String },
    /// Write `token` to `token_file`; a failure is ignored.
    SaveToken { token_file: String, token: String },
    /// Set the access time of `artifact` to now.
    Touch { artifact: String },
    /// The call is over, with this result.
    Finish { result: Result<String, InferaError> },
}

/// The identifier of attempt `attempt` of the run `run_id`.
pub open spec fn attempt_id_of(run_id: Seq<char>, attempt: int) -> Seq<char> {
    run_id + seq!['-'] + decimal_of(attempt as nat)
}

/// The machine of one `resolve` call.
pub struct Resolver {
    phase: Phase,
    url: String,
    dir: String,
    artifact: String,
    token_file: String,
    run_id: String,
    token: String,
    new_token: String,
    attempt: u32,
    max_attempts: u32,
    base_delay_ms: u64,
    timeout_secs: u64,
    limit: u64,
    incoming: u64,
    temp: String,
    error: Option<InferaError>,
    evictor: Option<Evictor>,
    pass: Ghost<EvictorView>,
}

/// What the machine stands for.
pub struct ResolverView {
    pub phase: Phase,
    pub url: Seq<char>,
    pub dir: Seq<char>,
    pub artifact: Seq<char>,
    pub token_file: Seq<char>,
    pub run_id: Seq<char>,
    pub token: Seq<char>,
    pub new_token: Seq<char>,
    pub attempt: int,
    pub max_attempts: int,
    pub base_delay: int,
    pub timeout: int,
    pub limit: int,
    pub incoming: int,
    pub temp: Seq<char>,
    pub error: Option<InferaError>,
    /// The eviction pass as it stood after its last step.
    pub pass: EvictorView,
}

impl View for Resolver {
    type V = ResolverView;

    closed spec fn view(&self) -> ResolverView {
        ResolverView {
            phase: self.phase,
            url: self.url@,
            dir: self.dir@,
            artifact: self.artifact@,
            token_file: self.token_file@,
            run_id: self.run_id@,
            token: self.token@,
            new_token: self.new_token@,
            attempt: self.attempt as int,
            max_attempts: self.max_attempts as int,
            base_delay: self.base_delay_ms as int,
            timeout: self.timeout_secs as int,
            limit: self.limit as int,
            incoming: self.incoming as int,
            temp: self.temp@,
            error: self.error,
            pass: self.pass@,
        }
    }
}

/// Whether the phase holds a temporary file of the current attempt.
pub open spec fn holds_temp(p: Phase) -> bool {
    p == Phase::Fetching || p == Phase::CleaningUp || p == Phase::Measuring || p
        == Phase::Scanning || p == Phase::Evicting || p == Phase::Committing || p
        == Phase::Discarding
}

/// Whether, in this phase, a temporary file may have been written that is
/// neither committed nor being removed.
pub open spec fn may_leave_temp(p: Phase) -> bool {
    p == Phase::Fetching || p == Phase::Measuring || p == Phase::Scanning || p == Phase::Evicting
        || p == Phase::Committing
}

/// The events that each phase takes.
pub open spec fn accepts(p: Phase, e: Event) -> bool {
    match p {
        Phase::Probing => e is Probed,
        Phase::Fetching => e is NotModified || e is Fetched || e is FetchFailed,
        Phase::Measuring => e is Size || e is Failed,
        Phase::Scanning => e is Listing || e is Failed,
        Phase::Finished => false,
        _ => e is Done || e is Failed,
    }
}

/// The token presented after a probe: the trimmed contents of the token file
/// where the artifact exists and the file could be read, else empty.
pub open spec fn probed_token(artifact_exists: bool, token: Option<String>) -> Seq<char> {
    match token {
        Some(t) => if artifact_exists {
            trimmed_of(t@)
        } else {
            Seq::empty()
        },
        None => Seq::empty(),
    }
}

pub open spec fn asks_fetch(a: Action, v: ResolverView) -> bool {
    a matches Action::Fetch { url, temp, timeout_secs, token } && url@ == v.url && temp@ == v.temp
        && timeout_secs == v.timeout && token@ == v.token
}

pub open spec fn asks_remove_temp(a: Action, v: ResolverView) -> bool {
    a matches Action::RemoveTemp { temp } && temp@ == v.temp
}

pub open spec fn asks_commit(a: Action, v: ResolverView) -> bool {
    a matches Action::Commit { temp, artifact } && temp@ == v.temp && artifact@ == v.artifact
}

pub open spec fn finishes_ok(a: Action, v: ResolverView) -> bool {
    a matches Action::Finish { result: Ok(p) } && p@ == v.artifact
}

pub open spec fn finishes_err(a: Action, e: InferaError) -> bool {
    a matches Action::Finish { result: Err(x) } && x == e
}

/// After a step of the eviction pass `n.pass`: the next victim while
/// space is wanted and an entry is left; else the commit where the cache now
/// fits; else, a deletion having failed, the removal of the temporary file,
/// after which the call fails with that deletion's error.
pub open spec fn eviction_outcome(a: Action, n: ResolverView) -> bool {
    let p = n.pass;
    if p.next < p.entries.len() && p.current - p.freed > p.target {
        &&& n.phase == Phase::Evicting
        &&& a matches Action::Delete { path } && path@ == p.entries[p.next].path
    } else if p.current - p.freed <= p.target {
        &&& n.phase == Phase::Committing
        &&& asks_commit(a, n)
    } else {
        &&& p.failed
        &&& n.phase == Phase::Discarding
        &&& n.error == p.last_error
        &&& asks_remove_temp(a, n)
    }
}

/// Where no deletion of the pass failed and it is over, it removed exactly
/// the least number of oldest entries that makes room.
pub open spec fn evicted_just_enough(n: ResolverView) -> bool {
    let p = n.pass;
    !p.failed && n.phase != Phase::Evicting ==> p.next == evict_count_from(
        p.entries,
        0,
        p.current,
        p.target,
    )
}

/// One step of the machine: from view `o`, taking event `e`, to view `n`,
/// asking for action `a`.
pub open spec fn stepped(o: ResolverView, e: Event, n: ResolverView, a: Action) -> bool {
    &&& n.url == o.url
    &&& n.dir == o.dir
    &&& n.artifact == o.artifact
    &&& n.token_file == o.token_file
    &&& n.run_id == o.run_id
    &&& n.max_attempts == o.max_attempts
    &&& n.base_delay == o.base_delay
    &&& n.timeout == o.timeout
    &&& n.limit == o.limit
    &&& a is Finish <==> n.phase == Phase::Finished
    &&& a matches Action::Finish { result: Ok(p) } ==> p@ == artifact_path_of(o.dir, o.url)
    &&& may_leave_temp(o.phase) ==> !(a is Finish)
    &&& o.phase == Phase::CleaningUp && a is Finish ==> o.attempt == o.max_attempts
    &&& a is Fetch ==> n.attempt == if o.phase == Phase::Probing {
        1
    } else {
        o.attempt + 1
    }
    &&& match o.phase {
        Phase::CreatingDir => match e {
            Event::Failed(m) => finishes_err(a, InferaError::CacheDirError(m)),
            _ => n.phase == Phase::Probing && (a matches Action::Probe {
                artifact,
                token_file,
            } && artifact@ == o.artifact && token_file@ == o.token_file),
        },
        Phase::Probing => match e {
            Event::Probed { artifact_exists, token } => {
                &&& n.token == probed_token(artifact_exists, token)
                &&& if o.max_attempts >= 1 {
                    n.phase == Phase::Fetching && n.attempt == 1 && asks_fetch(a, n)
                } else {
                    a matches Action::Finish { result: Err(InferaError::HttpRequestError(_)) }
                }
            },
            _ => false,
        },
        Phase::Fetching => match e {
            Event::NotModified => n.phase == Phase::Touching && (a matches Action::Touch {
                artifact,
            } && artifact@ == o.artifact),
            Event::Fetched { token } => n.phase == Phase::Measuring && n.new_token
                == token@ && n.temp == o.temp && (a matches Action::MeasureTemp {
                temp,
            } && temp@ == o.temp),
            Event::FetchFailed(err) => n.phase == Phase::CleaningUp && n.error == Some(err)
                && n.attempt == o.attempt && asks_remove_temp(a, o),
            _ => false,
        },
        Phase::CleaningUp => match retry_pause(o.attempt, o.max_attempts, o.base_delay) {
            Some(d) => n.phase == Phase::Waiting && n.attempt == o.attempt && n.token
                == o.token && (a matches Action::Sleep { millis } && millis == d),
            None => finishes_err(a, o.error->0),
        },
        Phase::Waiting => n.phase == Phase::Fetching && n.attempt == o.attempt + 1
            && n.token == o.token && asks_fetch(a, n),
        Phase::Measuring => match e {
            Event::Size(size) => n.phase == Phase::Scanning && n.incoming == size
                && n.temp == o.temp && (a matches Action::ScanCache { dir } && dir@
                == o.dir),
            Event::Failed(m) => n.phase == Phase::Discarding && n.error == Some(
                InferaError::IoError(m),
            ) && asks_remove_temp(a, o),
            _ => false,
        },
        Phase::Scanning => match e {
            Event::Listing { files, now } => {
                &&& in_eviction_order(n.pass.entries)
                &&& n.pass.entries.to_multiset() == admitted(
                    o.dir,
                    files@,
                    now as int,
                ).to_multiset()
                &&& n.pass.next == 0
                &&& n.pass.freed == 0
                &&& !n.pass.failed
                &&& n.pass.target == target_size(o.limit, o.incoming)
                &&& n.temp == o.temp
                &&& eviction_outcome(a, n)
                &&& evicted_just_enough(n)
            },
            Event::Failed(m) => n.phase == Phase::Discarding && n.error == Some(
                InferaError::IoError(m),
            ) && asks_remove_temp(a, o),
            _ => false,
        },
        Phase::Evicting => {
            &&& n.pass.entries == o.pass.entries
            &&& n.pass.current == o.pass.current
            &&& n.pass.target == o.pass.target
            &&& n.pass.next == o.pass.next + 1
            &&& n.temp == o.temp
            &&& e is Done ==> n.pass.freed == o.pass.freed + o.pass.entries[o.pass.next].size
                && n.pass.failed == o.pass.failed
            &&& e matches Event::Failed(m) ==> n.pass.freed == o.pass.freed && n.pass.failed
                && n.pass.last_error == Some(InferaError::IoError(m))
            &&& eviction_outcome(a, n)
            &&& evicted_just_enough(n)
        },
        Phase::Committing => match e {
            Event::Failed(m) => n.phase == Phase::Discarding && n.error == Some(
                InferaError::IoError(m),
            ) && asks_remove_temp(a, o),
            _ => n.phase == Phase::SavingToken && (a matches Action::SaveToken {
                token_file,
                token,
            } && token_file@ == o.token_file && token@ == o.new_token),
        },
        Phase::SavingToken => finishes_ok(a, o),
        Phase::Touching => match e {
            Event::Failed(m) => finishes_err(a, InferaError::IoError(m)),
            _ => finishes_ok(a, o),
        },
        Phase::Discarding => finishes_err(a, o.error->0),
        Phase::Finished => false,
    }
}

impl Resolver {
    /// The machine's invariant.
    pub closed spec fn wf(&self) -> bool {
        let v = self@;
        &&& v.artifact == artifact_path_of(v.dir, v.url)
        &&& v.token_file == token_path_of(v.dir, v.url)
        &&& holds_temp(v.phase) || v.phase == Phase::Waiting ==> 1 <= v.attempt <= v.max_attempts
        &&& holds_temp(v.phase) ==> v.temp == temp_path_of(
            v.artifact,
            attempt_id_of(v.run_id, v.attempt),
        )
        &&& v.phase == Phase::Waiting ==> v.attempt < v.max_attempts
        &&& (v.phase == Phase::CleaningUp || v.phase == Phase::Discarding) ==> v.error is Some
        &&& v.phase == Phase::Evicting ==> {
            &&& self.evictor matches Some(e)
            &&& e.wf()
            &&& e.wants_more()
            &&& e@ == v.pass
        }
    }

    /// Whether the machine takes event `e` now.
    pub open spec fn takes(&self, e: Event) -> bool {
        accepts(self@.phase, e)
    }

    /// The phase the machine is in.
    pub fn phase(&self) -> (r: Phase)
        ensures
            r == self@.phase,
    {
        self.phase
    }

    /// Whether the machine takes event `e` now; a driver checks this before
    /// each `step`.
    pub fn takes_event(&self, e: &Event) -> (r: bool)
        ensures
            r == self.takes(*e),
    {
        match self.phase {
            Phase::Probing => matches!(e, Event::Probed { .. }),
            Phase::Fetching => matches!(e, Event::NotModified | Event::Fetched { .. } | Event::FetchFailed(_)),
            Phase::Measuring => matches!(e, Event::Size(_) | Event::Failed(_)),
            Phase::Scanning => matches!(e, Event::Listing { .. } | Event::Failed(_)),
            Phase::Finished => false,
            _ => matches!(e, Event::Done | Event::Failed(_)),
        }
    }

    /// Starts resolving `url` under `config`; `run_id` tells this call's
    /// temporary files apart from those of any other call. The first action
    /// creates the cache directory.
    pub fn start(config: &InferaConfig, url: &str, run_id: &str) -> (r: (Resolver, Action))
        ensures
            r.0.wf(),
            r.0@.phase == Phase::CreatingDir,
            r.0@.url == url@,
            r.0@.dir == config.cache_dir@,
            r.0@.run_id == run_id@,
            r.0@.artifact == artifact_path_of(config.cache_dir@, url@),
            r.0@.token_file == token_path_of(config.cache_dir@, url@),
            r.0@.max_attempts == config.http_retry_attempts,
            r.0@.base_delay == config.http_retry_delay_ms,
            r.0@.timeout == config.http_timeout_secs,
            r.0@.limit == config.cache_size_limit,
            r.1 matches Action::CreateDir { dir } && dir@ == config.cache_dir@,
    {
        let dir = config.cache_dir.clone();
        let m = Resolver {
            phase: Phase::CreatingDir,
            url: String::from_str(url),
            dir: config.cache_dir.clone(),
            artifact: artifact_path(config.cache_dir.as_str(), url),
            token_file: token_path(config.cache_dir.as_str(), url),
            run_id: String::from_str(run_id),
            token: String::new(),
            new_token: String::new(),
            attempt: 0,
            max_attempts: config.http_retry_attempts,
            base_delay_ms: config.http_retry_delay_ms,
            timeout_secs: config.http_timeout_secs,
            limit: config.cache_size_limit,
            incoming: 0,
            temp: String::new(),
            error: None,
            evictor: None,
            pass: Ghost(
                EvictorView {
                    entries: Seq::empty(),
                    next: 0,
                    current: 0,
                    freed: 0,
                    target: 0,
                    failed: false,
                    last_error: None,
                },
            ),
        };
        (m, Action::CreateDir { dir })
    }

    /// Takes the outcome of the last action and names the next one.
    pub fn step(&mut self, event: Event) -> (a: Action)
        requires
            old(self).wf(),
            old(self).takes(event),
        ensures
            final(self).wf(),
            stepped(old(self)@, event, final(self)@, a),
    {
        match self.phase {
            Phase::CreatingDir => match event {
                Event::Failed(m) => {
                    self.phase = Phase::Finished;
                    Action::Finish { result: Err(InferaError::CacheDirError(m)) }
                },
                _ => {
                    self.phase = Phase::Probing;
                    Action::Probe {
                        artifact: self.artifact.clone(),
                        token_file: self.token_file.clone(),
                    }
                },
            },
            Phase::Probing => match event {
                Event::Probed { artifact_exists, token } => {
                    self.token = match token {
                        Some(t) => if artifact_exists {
                            trim(t.as_str())
                        } else {
                            String::new()
                        },
                        None => String::new(),
                    };
                    if self.max_attempts >= 1 {
                        self.begin_attempt(1)
                    } else {
                        self.phase = Phase::Finished;
                        Action::Finish {
                            result: Err(
                                InferaError::HttpRequestError(
                                    String::from_str("no download attempt is allowed"),
                                ),
                            ),
                        }
                    }
                },
                _ => {
                    proof {
                        assert(false);
                    }
                    self.phase = Phase::Finished;
                    Action::Finish { result: Err(InferaError::MemoryError) }
                },
            },
            Phase::Fetching => match event {
                Event::NotModified => {
                    self.phase = Phase::Touching;
                    Action::Touch { artifact: self.artifact.clone() }
                },
                Event::Fetched { token } => {
                    self.new_token = token;
                    self.phase = Phase::Measuring;
                    Action::MeasureTemp { temp: self.temp.clone() }
                },
                Event::FetchFailed(e) => {
                    self.error = Some(e);
                    self.phase = Phase::CleaningUp;
                    Action::RemoveTemp { temp: self.temp.clone() }
                },
                _ => {
                    proof {
                        assert(false);
                    }
                    self.phase = Phase::Finished;
                    Action::Finish { result: Err(InferaError::MemoryError) }
                },
            },
            Phase::CleaningUp => match pause_after(
                self.attempt,
                self.max_attempts,
                self.base_delay_ms,
            ) {
                Some(d) => {
                    self.phase = Phase::Waiting;
                    Action::Sleep { millis: d }
                },
                None => {
                    self.phase = Phase::Finished;
                    match self.error.take() {
                        Some(e) => Action::Finish { result: Err(e) },
                        None => {
                            proof {
                                assert(false);
                            }
                            Action::Finish { result: Err(InferaError::MemoryError) }
                        },
                    }
                },
            },
            Phase::Waiting => {
                let next = self.attempt + 1;
                self.begin_attempt(next)
            },
            Phase::Measuring => match event {
                Event::Size(size) => {
                    self.incoming = size;
                    self.phase = Phase::Scanning;
                    Action::ScanCache { dir: self.dir.clone() }
                },
                Event::Failed(m) => self.discard(InferaError::IoError(m)),
                _ => {
                    proof {
                        assert(false);
                    }
                    self.phase = Phase::Finished;
                    Action::Finish { result: Err(InferaError::MemoryError) }
                },
            },
            Phase::Scanning => match event {
                Event::Listing { files, now } => {
                    let entries = list_entries(self.dir.as_str(), &files, now);
                    let ev = Evictor::new(entries, self.limit, self.incoming);
                    self.continue_eviction(ev)
                },
                Event::Failed(m) => self.discard(InferaError::IoError(m)),
                _ => {
                    proof {
                        assert(false);
                    }
                    self.phase = Phase::Finished;
                    Action::Finish { result: Err(InferaError::MemoryError) }
                },
            },
            Phase::Evicting => {
                let taken = self.evictor.take();
                self.phase = Phase::Scanning;
                match taken {
                    Some(ev) => {
                        let mut ev = ev;
                        match event {
                            Event::Failed(m) => ev.record(Err(InferaError::IoError(m))),
                            _ => ev.record(Ok(())),
                        }
                        self.continue_eviction(ev)
                    },
                    None => {
                        proof {
                            assert(false);
                        }
                        self.phase = Phase::Finished;
                        Action::Finish { result: Err(InferaError::MemoryError) }
                    },
                }
            },
            Phase::Committing => match event {
                Event::Failed(m) => self.discard(InferaError::IoError(m)),
                _ => {
                    self.phase = Phase::SavingToken;
                    Action::SaveToken {
                        token_file: self.token_file.clone(),
                        token: self.new_token.clone(),
                    }
                },
            },
            Phase::SavingToken => {
                self.phase = Phase::Finished;
                Action::Finish { result: Ok(self.artifact.clone()) }
            },
            Phase::Touching => {
                self.phase = Phase::Finished;
                match event {
                    Event::Failed(m) => Action::Finish { result: Err(InferaError::IoError(m)) },
                    _ => Action::Finish { result: Ok(self.artifact.clone()) },
                }
            },
            Phase::Discarding => {
                self.phase = Phase::Finished;
                match self.error.take() {
                    Some(e) => Action::Finish { result: Err(e) },
                    None => {
                        proof {
                            assert(false);
                        }
                        Action::Finish { result: Err(InferaError::MemoryError) }
                    },
                }
            },
            Phase::Finished => {
                proof {
                    assert(false);
                }
                Action::Finish { result: Err(InferaError::MemoryError) }
            },
        }
    }

    /// Moves to attempt `attempt` and asks for its download.
    fn begin_attempt(&mut self, attempt: u32) -> (a: Action)
        requires
            old(self).wf(),
            1 <= attempt <= old(self)@.max_attempts,
            old(self)@.phase == Phase::Probing || old(self)@.phase == Phase::Waiting,
        ensures
            final(self).wf(),
            final(self)@ == (ResolverView {
                phase: Phase::Fetching,
                attempt: attempt as int,
                temp: temp_path_of(old(self)@.artifact, attempt_id_of(old(self)@.run_id, attempt as int)),
                ..old(self)@
            }),
            asks_fetch(a, final(self)@),
    {
        proof {
            reveal_strlit("-");
        }
        let mut id = String::from_str(self.run_id.as_str());
        id.append("-");
        let n = decimal_text(attempt);
        id.append(n.as_str());
        assert(id@ =~= attempt_id_of(self@.run_id, attempt as int));
        self.temp = temp_path(self.artifact.as_str(), id.as_str());
        self.attempt = attempt;
        self.phase = Phase::Fetching;
        Action::Fetch {
            url: self.url.clone(),
            temp: self.temp.clone(),
            timeout_secs: self.timeout_secs,
            token: self.token.clone(),
        }
    }

    /// Gives up on the downloaded file with `error`: asks for the temporary
    /// file's removal, after which the call fails.
    fn discard(&mut self, error: InferaError) -> (a: Action)
        requires
            old(self).wf(),
            holds_temp(old(self)@.phase),
        ensures
            final(self).wf(),
            final(self)@ == (ResolverView {
                phase: Phase::Discarding,
                error: Some(error),
                ..old(self)@
            }),
            asks_remove_temp(a, final(self)@),
    {
        self.error = Some(error);
        self.phase = Phase::Discarding;
        Action::RemoveTemp { temp: self.temp.clone() }
    }

    /// Continues an eviction pass: the next victim, or the end of the pass.
    fn continue_eviction(&mut self, ev: Evictor) -> (a: Action)
        requires
            old(self).wf(),
            ev.wf(),
            old(self)@.phase == Phase::Scanning || old(self)@.phase == Phase::Evicting,
        ensures
            final(self).wf(),
            final(self)@ == (ResolverView {
                phase: final(self)@.phase,
                error: final(self)@.error,
                pass: ev@,
                ..old(self)@
            }),
            eviction_outcome(a, final(self)@),
            evicted_just_enough(final(self)@),
    {
        self.pass = Ghost(ev@);
        match ev.next_victim() {
            Some(path) => {
                self.evictor = Some(ev);
                self.phase = Phase::Evicting;
                Action::Delete { path }
            },
            None => {
                self.evictor = None;
                self.phase = Phase::Committing;
                match ev.finish() {
                    Ok(()) => {
                        Action::Commit { temp: self.temp.clone(), artifact: self.artifact.clone() }
                    },
                    Err(e) => self.discard(e),
                }
            },
        }
    }
}

/// The file that a download attempt writes, `<name>.part-<run>-<attempt>`,
/// never follows the artifact naming convention: no listing admits it, so
/// no eviction pass can delete the incoming file before its commit.
pub proof fn lemma_temp_file_not_admitted(name: Seq<char>, run_id: Seq<char>, attempt: nat)
    ensures
        !is_artifact_name(name + part_marker() + attempt_id_of(run_id, attempt as int)),
{
    let t = name + part_marker() + attempt_id_of(run_id, attempt as int);
    lemma_decimal_ends_with_digit(attempt);
    assert(t.last() == decimal_of(attempt).last());
    if is_artifact_name(t) {
        let n = artifact_suffix().len();
        assert(t.subrange(t.len() - n, t.len() as int)[n - 1] == t.last());
        assert(artifact_suffix()[n - 1] == 't');
    }
}

/// The number of downloads among the first `k` actions.
pub open spec fn fetch_count(a: Seq<Action>, k: int) -> int
    decreases k,
{
    if k <= 0 {
        0
    } else {
        fetch_count(a, k - 1) + if a[k - 1] is Fetch {
            1int
        } else {
            0int
        }
    }
}

/// A run of the machine: views `s`, events `e` and actions `a`, where step
/// `i` takes `s[i]` with `e[i]` to `s[i + 1]` asking for `a[i]`.
pub open spec fn is_run(s: Seq<ResolverView>, e: Seq<Event>, a: Seq<Action>) -> bool {
    &&& s.len() == e.len() + 1
    &&& a.len() == e.len()
    &&& forall|i: int| 0 <= i < e.len() ==> #[trigger] stepped(s[i], e[i], s[i + 1], a[i])
}

/// The shape of a run in which every download fails, after `k` steps.
spec fn failing_so_far(s: Seq<ResolverView>, a: Seq<Action>, k: int) -> bool {
    let v = s[k];
    &&& v.max_attempts == s[0].max_attempts
    &&& v.base_delay == s[0].base_delay
    &&& v.phase == Phase::Fetching || v.phase == Phase::CleaningUp || v.phase == Phase::Waiting
        || v.phase == Phase::Finished
    &&& v.phase != Phase::Finished ==> fetch_count(a, k) == v.attempt
    &&& v.phase == Phase::Finished ==> fetch_count(a, k) == s[0].max_attempts
    &&& v.phase == Phase::Fetching ==> asks_fetch(a[k - 1], v)
    &&& forall|i: int|
        0 <= i < k ==> (#[trigger] a[i] is Fetch || a[i] is RemoveTemp || a[i] is Sleep || a[i] is Finish)
}

proof fn lemma_failing_steps(s: Seq<ResolverView>, e: Seq<Event>, a: Seq<Action>, k: int)
    requires
        is_run(s, e, a),
        s[0].phase == Phase::Probing,
        s[0].max_attempts >= 1,
        e.len() >= 1,
        e[0] is Probed,
        forall|i: int| 1 <= i < e.len() ==> (#[trigger] e[i] is FetchFailed || e[i] is Done),
        1 <= k <= e.len(),
    ensures
        failing_so_far(s, a, k),
    decreases k,
{
    let j = k - 1;
    assert(stepped(s[j], e[j], s[j + 1], a[j]));
    if k == 1 {
        assert(fetch_count(a, 0) == 0);
    } else {
        lemma_failing_steps(s, e, a, k - 1);
        assert forall|i: int| 0 <= i < k implies (#[trigger] a[i] is Fetch || a[i] is RemoveTemp
            || a[i] is Sleep || a[i] is Finish) by {
            if i < k - 1 {
                assert(failing_so_far(s, a, k - 1));
            }
        }
    }
}

/// A server that fails every download: from the probe on, where each
/// download fails and each removal and pause is reported done, the machine
/// asks for exactly `max_attempts` downloads, asks after each for the removal
/// of the temporary file it was to write, pauses `base * n` milliseconds
/// (at most `u64::MAX`) after the `n`-th, never commits, deletes or saves
/// anything, and ends with the error of the last download.
pub proof fn lemma_failing_server(s: Seq<ResolverView>, e: Seq<Event>, a: Seq<Action>)
    requires
        is_run(s, e, a),
        s[0].phase == Phase::Probing,
        s[0].max_attempts >= 1,
        e.len() >= 1,
        e[0] is Probed,
        forall|i: int| 1 <= i < e.len() ==> (#[trigger] e[i] is FetchFailed || e[i] is Done),
        a.last() is Finish,
    ensures
        fetch_count(a, a.len() as int) == s[0].max_attempts,
        forall|i: int|
            0 <= i < a.len() ==> (#[trigger] a[i] is Fetch || a[i] is RemoveTemp || a[i] is Sleep
                || a[i] is Finish),
        forall|i: int|
            0 <= i < a.len() && #[trigger] a[i] is Fetch ==> i + 1 < a.len() && (a[i + 1] matches Action::RemoveTemp {
                temp,
            } && temp@ == a[i]->Fetch_temp@),
        forall|i: int|
            0 <= i < a.len() && #[trigger] a[i] is Sleep ==> a[i]->millis == retry_pause(
                fetch_count(a, i),
                s[0].max_attempts,
                s[0].base_delay,
            )->0,
        e.len() >= 2 && (a.last() matches Action::Finish { result: Err(x) } && e[e.len() - 2] matches Event::FetchFailed(y) && x == y),
{
    let n = e.len() as int;
    lemma_failing_steps(s, e, a, n);
    assert forall|i: int|
        0 <= i < a.len() && #[trigger] a[i] is Fetch implies i + 1 < a.len() && (a[i + 1] matches Action::RemoveTemp {
            temp,
        } && temp@ == a[i]->Fetch_temp@) by {
        lemma_failing_steps(s, e, a, i + 1);
        assert(stepped(s[i], e[i], s[i + 1], a[i]));
        if i + 1 < n {
            let j = i + 1;
            assert(stepped(s[j], e[j], s[j + 1], a[j]));
        }
    }
    assert forall|i: int|
        0 <= i < a.len() && #[trigger] a[i] is Sleep implies a[i]->millis == retry_pause(
            fetch_count(a, i),
            s[0].max_attempts,
            s[0].base_delay,
        )->0 by {
        assert(stepped(s[i], e[i], s[i + 1], a[i]));
        if i >= 1 {
            lemma_failing_steps(s, e, a, i);
        }
    }
    let last = n - 1;
    assert(stepped(s[last], e[last], s[last + 1], a[last]));
    if n >= 2 {
        lemma_failing_steps(s, e, a, n - 1);
        let prev = n - 2;
        assert(stepped(s[prev], e[prev], s[prev + 1], a[prev]));
        if n >= 3 {
            lemma_failing_steps(s, e, a, n - 2);
        }
    }
}

/// In a run, the URL, the directory and the limits never change.
pub proof fn lemma_run_keeps_settings(s: Seq<ResolverView>, e: Seq<Event>, a: Seq<Action>, k: int)
    requires
        is_run(s, e, a),
        0 <= k < s.len(),
    ensures
        s[k].url == s[0].url,
        s[k].dir == s[0].dir,
        s[k].max_attempts == s[0].max_attempts,
        s[k].base_delay == s[0].base_delay,
        s[k].limit == s[0].limit,
    decreases k,
{
    if k > 0 {
        lemma_run_keeps_settings(s, e, a, k - 1);
        let j = k - 1;
        assert(stepped(s[j], e[j], s[j + 1], a[j]));
    }
}

spec fn step_into_facts(o: ResolverView, e: Event, n: ResolverView, a: Action) -> bool {
    &&& a matches Action::Finish { result: Ok(_) } ==> o.phase == Phase::SavingToken || (o.phase
        == Phase::Touching && !(e is Failed))
    &&& n.phase == Phase::SavingToken ==> o.phase == Phase::Committing && !(e is Failed)
        && a is SaveToken
    &&& n.phase == Phase::Touching ==> o.phase == Phase::Fetching && e is NotModified && a is Touch
    &&& n.phase == Phase::Committing ==> a is Commit
    &&& n.phase == Phase::Fetching ==> a is Fetch
}

proof fn lemma_step_into(o: ResolverView, e: Event, n: ResolverView, a: Action)
    requires
        stepped(o, e, n, a),
    ensures
        step_into_facts(o, e, n, a),
{
    match o.phase {
        Phase::CreatingDir => {},
        Phase::Probing => {},
        Phase::Fetching => {},
        Phase::CleaningUp => {},
        Phase::Waiting => {},
        Phase::Measuring => {},
        Phase::Scanning => {},
        Phase::Evicting => {},
        Phase::Committing => {},
        Phase::SavingToken => {},
        Phase::Touching => {},
        Phase::Discarding => {},
        Phase::Finished => {},
    }
}

/// A path is returned only for a complete artifact: in a run from the start,
/// the call succeeds only right after the downloaded file was renamed into
/// place (the rename reported done), or after the server confirmed the
/// cached copy and its access time was updated; the path returned is the
/// URL's artifact path.
pub proof fn lemma_success_only_after_commit_or_hit(
    s: Seq<ResolverView>,
    e: Seq<Event>,
    a: Seq<Action>,
    i: int,
)
    requires
        is_run(s, e, a),
        s[0].phase == Phase::CreatingDir,
        0 <= i < a.len(),
        a[i] matches Action::Finish { result: Ok(_) },
    ensures
        a[i]->Finish_result->Ok_0@ == artifact_path_of(s[0].dir, s[0].url),
        i >= 2,
        (a[i - 2] is Commit && !(e[i - 1] is Failed) && a[i - 1] is SaveToken) || (a[i - 2] is Fetch
            && e[i - 1] is NotModified && a[i - 1] is Touch && !(e[i] is Failed)),
{
    lemma_run_keeps_settings(s, e, a, i);
    assert(stepped(s[i], e[i], s[i + 1], a[i]));
    lemma_step_into(s[i], e[i], s[i + 1], a[i]);
    let j = i - 1;
    assert(stepped(s[j], e[j], s[j + 1], a[j]));
    lemma_step_into(s[j], e[j], s[j + 1], a[j]);
    let h = i - 2;
    assert(stepped(s[h], e[h], s[h + 1], a[h]));
    lemma_step_into(s[h], e[h], s[h + 1], a[h]);
}

/// A cache hit is not downloaded again: where the artifact exists with a
/// token on disk and the server confirms it, the machine sends one
/// conditional request with the trimmed token, updates the artifact's
/// access time, and returns the artifact's path, with no body written,
/// nothing renamed and no eviction.
pub proof fn lemma_revalidated_hit(s: Seq<ResolverView>, e: Seq<Event>, a: Seq<Action>, token: String)
    requires
        is_run(s, e, a),
        s[0].phase == Phase::Probing,
        s[0].max_attempts >= 1,
        e.len() == 3,
        e[0] == (Event::Probed { artifact_exists: true, token: Some(token) }),
        e[1] is NotModified,
        e[2] is Done,
    ensures
        a[0] matches Action::Fetch { token: t, .. } && t@ == trimmed_of(token@),
        a[1] matches Action::Touch { artifact } && artifact@ == s[0].artifact,
        a[2] matches Action::Finish { result: Ok(p) } && p@ == s[0].artifact,
{
    let z: int = 0;
    assert(stepped(s[z], e[z], s[z + 1], a[z]));
    let o: int = 1;
    assert(stepped(s[o], e[o], s[o + 1], a[o]));
    let t: int = 2;
    assert(stepped(s[t], e[t], s[t + 1], a[t]));
}

} // verus!
