//! Integration with the Rerun data visualizer.
//!
//! A Rerun node owns a Rerun recording stream; publishers created from it
//! log data to the same stream.  Creating a stream (saving to a file,
//! connecting to a viewer, spawning a viewer) and logging to it are done by
//! the caller; the node and publishers keep the stream and what is needed
//! to log to it.

use vstd::prelude::*;

use std::marker::PhantomData;

use quanta::{Clock, Instant};
use rerun::RecordingStream;

use crate::clock::{clock_now, new_clock};

verus! {

#[verifier::external_type_specification]
#[verifier::external_body]
pub struct ExRecordingStream(rerun::RecordingStream);

/// Calls `rerun::RecordingStream::clone`, which makes another handle to the
/// same recording stream (a clone of the shared pointer inside it); the
/// contract claims the handle is the same stream as the one cloned.
#[verifier::external_body]
fn clone_stream(stream: &RecordingStream) -> (r: RecordingStream)
    ensures
        r == *stream,
{
    stream.clone()
}

/// Calls `quanta::Instant::duration_since` and reads the result in whole
/// nanoseconds.  Nothing is claimed of the reading.
#[verifier::external_body]
fn nanos_since(later: Instant, earlier: Instant) -> u128 {
    later.duration_since(earlier).as_nanos()
}

/// The update delay of a Rerun node, in microseconds: ten seconds.
pub open spec fn rerun_update_delay_us() -> u128 {
    10_000_000
}

/// A timestamp in nanoseconds as Rerun logs it: the low 64 bits of the
/// count, read as a signed number.
pub open spec fn log_nanos(ns: u128) -> i64 {
    ns as i64
}

/// The logged timestamp is the nanosecond count itself, not a scaled one,
/// whenever the count fits in a signed 64-bit number; one more nanosecond
/// logs one more.
pub proof fn lemma_log_nanos_exact(ns: u128)
    requires
        ns < 0x7fff_ffff_ffff_ffff,
    ensures
        log_nanos(ns) as int == ns as int,
        log_nanos((ns + 1) as u128) as int == log_nanos(ns) as int + 1,
{
}

/// Rerun publisher that logs data to a given path, stamped with the time
/// since the publisher was started.
pub struct RerunPublisher<Path, Arch> {
    /// The quanta reference clock for publishing.
    clock: Clock,
    /// The start instant as a reference for publishing.
    start_instant: Instant,
    /// The Rerun stream to log to.
    stream: RecordingStream,
    /// The path to log data to.
    path: Path,
    /// The type of data published via this publisher.
    _phantom: PhantomData<Arch>,
}

impl<Path: Clone, Arch> RerunPublisher<Path, Arch> {
    /// The path the publisher logs to.
    pub closed spec fn log_path(&self) -> Path {
        self.path
    }

    /// The recording stream the publisher logs to.
    pub closed spec fn recording(&self) -> RecordingStream {
        self.stream
    }

    /// Create a new Rerun publisher for a stream and a path.
    pub fn new(stream: RecordingStream, path: Path) -> (p: Self)
        ensures
            p.recording() == stream,
            p.log_path() == path,
    {
        let clock = new_clock();
        let start_instant = clock_now(&clock);
        RerunPublisher { clock, start_instant, stream, path, _phantom: PhantomData }
    }

    /// Reset the start instant of the reference clock.
    pub fn start(&mut self)
        ensures
            final(self).log_path() == old(self).log_path(),
    {
        self.start_instant = clock_now(&self.clock);
    }

    /// The stream the publisher logs to.
    pub fn stream(&self) -> (s: &RecordingStream)
        ensures
            *s == self.recording(),
    {
        &self.stream
    }

    /// The path the publisher logs to.
    pub fn path(&self) -> (p: &Path)
        ensures
            *p == self.log_path(),
    {
        &self.path
    }

    /// `ns` is a reading, in whole nanoseconds, of the time from the
    /// publisher's start instant to an instant its clock gave.
    pub closed spec fn elapsed_nanos_reading(&self, ns: u128) -> bool {
        exists|now: Instant|
            #[trigger] call_ensures(clock_now, (&self.clock,), now) && call_ensures(nanos_since, (now, self.start_instant), ns)
    }

    /// The time since the publisher was started, in nanoseconds, as Rerun
    /// logs it: a reading of the publisher's clock, taken as nanoseconds
    /// since the start instant.
    pub fn timestamp_nanos(&self) -> (t: i64)
        ensures
            exists|ns: u128| #[trigger] self.elapsed_nanos_reading(ns) && t == log_nanos(ns),
    {
        let now = clock_now(&self.clock);
        let ns = nanos_since(now, self.start_instant);
        assert(self.elapsed_nanos_reading(ns));
        to_log_nanos(ns)
    }
}

/// A timestamp in nanoseconds as Rerun logs it (see `log_nanos`).
pub fn to_log_nanos(ns: u128) -> (t: i64)
    ensures
        t == log_nanos(ns),
{
    ns as i64
}

/// Rerun publisher that logs data at a timestamp given with each piece of
/// published data.
pub struct RerunTimestampedPublisher<Path, Arch> {
    /// The Rerun stream to log to.
    stream: RecordingStream,
    /// The path to log data to.
    path: Path,
    /// The type of data published via this publisher.
    _phantom: PhantomData<Arch>,
}

impl<Path: Clone, Arch> RerunTimestampedPublisher<Path, Arch> {
    /// The path the publisher logs to.
    pub closed spec fn log_path(&self) -> Path {
        self.path
    }

    /// The recording stream the publisher logs to.
    pub closed spec fn recording(&self) -> RecordingStream {
        self.stream
    }

    /// Create a new timestamped Rerun publisher for a stream and a path.
    pub fn new(stream: RecordingStream, path: Path) -> (p: Self)
        ensures
            p.recording() == stream,
            p.log_path() == path,
    {
        RerunTimestampedPublisher { stream, path, _phantom: PhantomData }
    }

    /// The stream the publisher logs to.
    pub fn stream(&self) -> (s: &RecordingStream)
        ensures
            *s == self.recording(),
    {
        &self.stream
    }

    /// The path the publisher logs to.
    pub fn path(&self) -> (p: &Path)
        ensures
            *p == self.log_path(),
    {
        &self.path
    }
}

/// The Rerun node: gives NComm applications a common stream to log data
/// for visualization.
pub struct RerunNode<Id, Path> {
    /// The identifier of the node.
    id: Id,
    /// The Rerun recording stream.
    stream: RecordingStream,
    /// The file to save the collected data to when the node shuts down.
    output_path: Option<Path>,
}

impl<Id: PartialEq + Clone + Send + 'static, Path: Clone + Send + 'static> RerunNode<Id, Path> {
    /// The identifier of the node.
    pub closed spec fn node_id(&self) -> Id {
        self.id
    }

    /// The node's recording stream.
    pub closed spec fn recording(&self) -> RecordingStream {
        self.stream
    }

    /// The file the node saves to when it shuts down, if any.
    pub closed spec fn save_path(&self) -> Option<Path> {
        self.output_path
    }

    /// Create a Rerun node for a stream that already logs to a file; the
    /// node saves nowhere else when it shuts down.
    pub fn new(stream: RecordingStream, id: Id) -> (n: Self)
        ensures
            n.recording() == stream,
            n.node_id() == id,
            n.save_path() == None::<Path>,
    {
        RerunNode { id, stream, output_path: None }
    }

    /// Create a Rerun node for a stream connected to the default remote
    /// Rerun server, saving to `output_path` when it shuts down.
    pub fn new_remote_default(stream: RecordingStream, output_path: Option<Path>, id: Id) -> (n: Self)
        ensures
            n.recording() == stream,
            n.node_id() == id,
            n.save_path() == output_path,
    {
        RerunNode { id, stream, output_path }
    }

    /// Create a Rerun node for a stream connected to a given remote Rerun
    /// server, saving to `output_path` when it shuts down.
    pub fn new_remote(stream: RecordingStream, output_path: Option<Path>, id: Id) -> (n: Self)
        ensures
            n.recording() == stream,
            n.node_id() == id,
            n.save_path() == output_path,
    {
        RerunNode { id, stream, output_path }
    }

    /// Create a Rerun node for a stream to a freshly spawned local viewer,
    /// saving to `output_path` when it shuts down.
    pub fn new_rerun_spawn(stream: RecordingStream, output_path: Option<Path>, id: Id) -> (n: Self)
        ensures
            n.recording() == stream,
            n.node_id() == id,
            n.save_path() == output_path,
    {
        RerunNode { id, stream, output_path }
    }

    /// Create a Rerun node for a stream served over a websocket to a web
    /// viewer, saving to `output_path` when it shuts down.
    pub fn new_rerun_server(stream: RecordingStream, output_path: Option<Path>, id: Id) -> (n: Self)
        ensures
            n.recording() == stream,
            n.node_id() == id,
            n.save_path() == output_path,
    {
        RerunNode { id, stream, output_path }
    }

    /// Create a publisher on this node's stream that stamps data with the
    /// time of publishing.
    pub fn create_rerun_publisher<LogPath: Clone, Arch>(&mut self, path: LogPath) -> (p: RerunPublisher<LogPath, Arch>)
        ensures
            p.log_path() == path,
            p.recording() == old(self).recording(),
            final(self).node_id() == old(self).node_id(),
            final(self).save_path() == old(self).save_path(),
            final(self).recording() == old(self).recording(),
    {
        RerunPublisher::new(clone_stream(&self.stream), path)
    }

    /// Create a publisher on this node's stream that stamps data with a
    /// timestamp supplied with the data.
    pub fn create_rerun_timestamped_publisher<LogPath: Clone, Arch>(&mut self, path: LogPath) -> (p: RerunTimestampedPublisher<LogPath, Arch>)
        ensures
            p.log_path() == path,
            p.recording() == old(self).recording(),
            final(self).node_id() == old(self).node_id(),
            final(self).save_path() == old(self).save_path(),
            final(self).recording() == old(self).recording(),
    {
        RerunTimestampedPublisher::new(clone_stream(&self.stream), path)
    }

    /// The identifier of the node.
    pub fn get_id(&self) -> (id: Id)
        ensures
            cloned(self.node_id(), id),
    {
        self.id.clone()
    }

    /// The node's update delay: ten seconds, in microseconds.
    pub fn get_update_delay_us(&self) -> (d: u128)
        ensures
            d == rerun_update_delay_us(),
    {
        10_000_000
    }

    /// The stream of this node.
    pub fn stream(&self) -> (s: &RecordingStream)
        ensures
            *s == self.recording(),
    {
        &self.stream
    }

    /// The file the node saves to when it shuts down, if any.
    pub fn output_path(&self) -> (p: &Option<Path>)
        ensures
            *p == self.save_path(),
    {
        &self.output_path
    }
}


} // verus!
