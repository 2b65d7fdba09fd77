//! What is done with the responses and the datagrams of an end-to-end connection.
//!
//! A receiver is told what the HTTP/3 connection, a file or a datagram queue gave and answers what
//! to do next. `F` is an open file and `T` a point in time.

use std::collections::HashMap;

use vstd::prelude::*;

use crate::args;
use crate::dgrams;
use crate::dgrams::retrieve_dgram;
use crate::e2e;
use crate::e2e::{dgram_path, response_path, timing_path, E2eClientConfig};
use crate::varint;
use crate::varint::get_varint;

verus! {

broadcast use vstd::std_specs::hash::group_hash_axioms;

/// Logging-related HTTP/3 parameters.
pub struct LoggingContext<F, T> {
    pub results_dir: Option<String>,
    pub request_start_time: Option<T>,
    pub log_stats: bool,
    pub keep_resp: bool,
    /// The open file of each stream.
    pub resp_map: HashMap<u64, F>,
    /// The open file of each datagram flow.
    pub dgram_map: HashMap<u64, F>,
    /// How many body bytes came on each stream.
    pub bytes_received: HashMap<u64, u64>,
}

/// What a logging context knows.
#[verifier::ext_equal]
pub struct LoggingView<F, T> {
    pub results_dir: Option<Seq<char>>,
    pub request_start_time: Option<T>,
    pub log_stats: bool,
    pub keep_resp: bool,
    pub resp_map: Map<u64, F>,
    pub dgram_map: Map<u64, F>,
    pub bytes_received: Map<u64, u64>,
}

impl<F, T> View for LoggingContext<F, T> {
    type V = LoggingView<F, T>;

    open spec fn view(&self) -> LoggingView<F, T> {
        LoggingView {
            results_dir: args::opt_text(self.results_dir),
            request_start_time: self.request_start_time,
            log_stats: self.log_stats,
            keep_resp: self.keep_resp,
            resp_map: self.resp_map@,
            dgram_map: self.dgram_map@,
            bytes_received: self.bytes_received@,
        }
    }
}

impl<F, T> LoggingView<F, T> {
    /// How many body bytes came on a stream.
    pub open spec fn count(self, stream_id: u64) -> u64 {
        if self.bytes_received.contains_key(stream_id) {
            self.bytes_received[stream_id]
        } else {
            0
        }
    }
}

/// What polling an HTTP/3 connection gave.
#[derive(Debug, Clone, Copy, PartialEq, Eq, Structural)]
pub enum Polled {
    Headers(u64),
    Data(u64),
    Finished(u64),
    Reset(u64),
    PriorityUpdate(u64),
    GoAway(u64),
    Done,
    Error,
}

/// What reading the body of a response gave.
#[derive(Debug, Clone, Copy, PartialEq, Eq, Structural)]
pub enum BodyRead {
    /// That many bytes.
    Bytes(u64),
    Done,
    Error,
}

/// What reading from the datagram queue gave.
#[derive(Debug, Clone, PartialEq, Eq)]
pub enum DgramRead {
    Dgram(Vec<u8>),
    Done,
    Error,
}

/// What reading from the datagram queue gave, by its view.
pub enum DgramReadView {
    Dgram(Seq<u8>),
    Done,
    Error,
}

impl View for DgramRead {
    type V = DgramReadView;

    open spec fn view(&self) -> DgramReadView {
        match self {
            DgramRead::Dgram(bytes) => DgramReadView::Dgram(bytes@),
            DgramRead::Done => DgramReadView::Done,
            DgramRead::Error => DgramReadView::Error,
        }
    }
}

/// What happened to a receiver.
pub enum ReceiverEvent<F> {
    /// The connection may have something to read.
    Readable,
    /// The connection was polled.
    Polled(Polled),
    /// The file was opened, or opening it failed.
    Opened(Option<F>),
    /// The body was read.
    Body(BodyRead),
    /// The file was written to.
    Written,
    /// The request was reported on.
    Reported,
    /// The datagram queue was read.
    Dgram(DgramRead),
}

/// What happened to a receiver, by its view.
pub enum ReceiverEventView<F> {
    Readable,
    Polled(Polled),
    Opened(Option<F>),
    Body(BodyRead),
    Written,
    Reported,
    Dgram(DgramReadView),
}

impl<F> View for ReceiverEvent<F> {
    type V = ReceiverEventView<F>;

    open spec fn view(&self) -> ReceiverEventView<F> {
        match self {
            ReceiverEvent::Readable => ReceiverEventView::Readable,
            ReceiverEvent::Polled(polled) => ReceiverEventView::Polled(*polled),
            ReceiverEvent::Opened(file) => ReceiverEventView::Opened(*file),
            ReceiverEvent::Body(read) => ReceiverEventView::Body(*read),
            ReceiverEvent::Written => ReceiverEventView::Written,
            ReceiverEvent::Reported => ReceiverEventView::Reported,
            ReceiverEvent::Dgram(read) => ReceiverEventView::Dgram(read@),
        }
    }
}

/// What a receiver does next.
pub enum ReceiverAction<T> {
    /// Poll the connection.
    Poll,
    /// Open this file, empty, for the response on the stream.
    OpenResponse(u64, String),
    /// Read from the body of the response on the stream.
    ReadBody(u64),
    /// Write what was read to the file of the stream.
    WriteBody(u64),
    /// The request that started then is over.
    Report(RequestReport<T>),
    /// Read from the datagram queue.
    ReadDgram,
    /// Open this file, empty, for the datagram flow.
    OpenDgrams(u64, String),
    /// Write a payload to the file of the datagram flow.
    WriteDgram(u64, Vec<u8>),
    /// There is nothing more to read.
    Return,
}

/// A request that is over.
pub struct RequestReport<T> {
    pub stream_id: u64,
    pub start_time: T,
    /// The file that the report goes to, and how many bytes it reports. None where statistics are
    /// not kept.
    pub timing: Option<(String, u64)>,
}

/// What a receiver does, by its view.
pub enum ReceiverActionView<T> {
    Poll,
    OpenResponse(u64, Seq<char>),
    ReadBody(u64),
    WriteBody(u64),
    Report { stream_id: u64, start_time: T, timing: Option<(Seq<char>, u64)> },
    ReadDgram,
    OpenDgrams(u64, Seq<char>),
    WriteDgram(u64, Seq<u8>),
    Return,
}

impl<T> View for ReceiverAction<T> {
    type V = ReceiverActionView<T>;

    open spec fn view(&self) -> ReceiverActionView<T> {
        match self {
            ReceiverAction::Poll => ReceiverActionView::Poll,
            ReceiverAction::OpenResponse(id, path) => ReceiverActionView::OpenResponse(*id, path@),
            ReceiverAction::ReadBody(id) => ReceiverActionView::ReadBody(*id),
            ReceiverAction::WriteBody(id) => ReceiverActionView::WriteBody(*id),
            ReceiverAction::Report(report) => ReceiverActionView::Report {
                stream_id: report.stream_id,
                start_time: report.start_time,
                timing: match report.timing {
                    Some((path, bytes)) => Some((path@, bytes)),
                    None => None,
                },
            },
            ReceiverAction::ReadDgram => ReceiverActionView::ReadDgram,
            ReceiverAction::OpenDgrams(id, path) => ReceiverActionView::OpenDgrams(*id, path@),
            ReceiverAction::WriteDgram(id, payload) => ReceiverActionView::WriteDgram(*id, payload@),
            ReceiverAction::Return => ReceiverActionView::Return,
        }
    }
}

/// What a receiver is at.
#[derive(Debug, Clone, Copy, PartialEq, Eq, Structural)]
pub enum ReceiverPhase {
    /// Nothing is read.
    Idle,
    /// Polling the connection.
    Polling,
    /// Opening a file for the response on a stream.
    Opening(u64),
    /// Reading the body of the response on a stream.
    Reading(u64),
    /// Writing a part of that body.
    Writing(u64),
    /// Reporting on a request.
    Reporting,
    /// Reading from the datagram queue.
    Draining,
    /// Opening a file for a datagram flow.
    OpeningDgrams(u64),
    /// Writing a datagram.
    WritingDgram,
}

/// Reads what an end-to-end connection has to offer, and keeps what is to be kept.
pub struct Receiver<F, T> {
    pub logging: LoggingContext<F, T>,
    flow_id: u64,
    scid: String,
    phase: ReceiverPhase,
    /// The payload that waits for its file.
    pending: Vec<u8>,
}

/// What a receiver knows.
#[verifier::ext_equal]
pub struct ReceiverView<F, T> {
    pub logging: LoggingView<F, T>,
    pub flow_id: u64,
    pub scid: Seq<char>,
    pub phase: ReceiverPhase,
    pub pending: Seq<u8>,
}

impl<F, T> View for Receiver<F, T> {
    type V = ReceiverView<F, T>;

    closed spec fn view(&self) -> ReceiverView<F, T> {
        ReceiverView {
            logging: self.logging@,
            flow_id: self.flow_id,
            scid: self.scid@,
            phase: self.phase,
            pending: self.pending@,
        }
    }
}

impl<F, T> ReceiverView<F, T> {
    /// Whether this can happen to the receiver. The bytes of a stream are counted in 64 bits.
    pub open spec fn accepts(self, event: ReceiverEventView<F>) -> bool {
        match self.phase {
            ReceiverPhase::Idle => event is Readable,
            ReceiverPhase::Polling => event is Polled,
            ReceiverPhase::Opening(_) => event is Opened,
            ReceiverPhase::Reading(stream_id) => event matches ReceiverEventView::Body(read) && (
            read matches BodyRead::Bytes(n) ==> self.logging.count(stream_id) + n <= u64::MAX),
            ReceiverPhase::Writing(_) => event is Written,
            ReceiverPhase::Reporting => event is Reported,
            ReceiverPhase::Draining => event is Dgram,
            ReceiverPhase::OpeningDgrams(_) => event is Opened,
            ReceiverPhase::WritingDgram => event is Written,
        }
    }

    /// The receiver in another phase, and what it does.
    pub open spec fn go(self, phase: ReceiverPhase, action: ReceiverActionView<T>) -> (
        ReceiverView<F, T>,
        ReceiverActionView<T>,
    ) {
        (ReceiverView { phase, ..self }, action)
    }

    /// Polls the connection.
    pub open spec fn poll(self) -> (ReceiverView<F, T>, ReceiverActionView<T>) {
        self.go(ReceiverPhase::Polling, ReceiverActionView::Poll)
    }

    /// Reads the body of the response on a stream.
    pub open spec fn read_body(self, stream_id: u64) -> (
        ReceiverView<F, T>,
        ReceiverActionView<T>,
    ) {
        self.go(ReceiverPhase::Reading(stream_id), ReceiverActionView::ReadBody(stream_id))
    }

    /// Reads from the datagram queue.
    pub open spec fn drain(self) -> (ReceiverView<F, T>, ReceiverActionView<T>) {
        self.go(ReceiverPhase::Draining, ReceiverActionView::ReadDgram)
    }

    /// What is done where a stream has data: its file is opened first, where responses are kept and
    /// it is not open yet.
    pub open spec fn on_data(self, stream_id: u64) -> (ReceiverView<F, T>, ReceiverActionView<T>) {
        match self.logging.results_dir {
            Some(dir) => if self.logging.keep_resp && !self.logging.resp_map.contains_key(
                stream_id,
            ) {
                self.go(
                    ReceiverPhase::Opening(stream_id),
                    ReceiverActionView::OpenResponse(
                        stream_id,
                        e2e::data_path(dir, self.flow_id, "_stream_"@, stream_id),
                    ),
                )
            } else {
                self.read_body(stream_id)
            },
            None => self.read_body(stream_id),
        }
    }

    /// What is done where a stream is over: its file is closed. The first stream that is over ends
    /// the request, which is reported on.
    pub open spec fn on_finished(self, stream_id: u64) -> (
        ReceiverView<F, T>,
        ReceiverActionView<T>,
    ) {
        let closed = LoggingView {
            resp_map: self.logging.resp_map.remove(stream_id),
            ..self.logging
        };
        match self.logging.request_start_time {
            Some(start_time) => {
                let ended = LoggingView { request_start_time: None, ..closed };
                match self.logging.results_dir {
                    Some(dir) => if self.logging.log_stats {
                        let counted = LoggingView {
                            bytes_received: self.logging.bytes_received.remove(stream_id),
                            ..ended
                        };
                        (ReceiverView { logging: counted, ..self }).go(
                            ReceiverPhase::Reporting,
                            ReceiverActionView::Report {
                                stream_id,
                                start_time,
                                timing: Some(
                                    (
                                        e2e::timing_path_text(dir, self.scid),
                                        self.logging.count(stream_id),
                                    ),
                                ),
                            },
                        )
                    } else {
                        (ReceiverView { logging: ended, ..self }).go(
                            ReceiverPhase::Reporting,
                            ReceiverActionView::Report { stream_id, start_time, timing: None },
                        )
                    },
                    None => (ReceiverView { logging: ended, ..self }).go(
                        ReceiverPhase::Reporting,
                        ReceiverActionView::Report { stream_id, start_time, timing: None },
                    ),
                }
            },
            None => (ReceiverView { logging: closed, ..self }).poll(),
        }
    }

    /// What is done about what polling the connection gave.
    pub open spec fn on_polled(self, polled: Polled) -> (ReceiverView<F, T>, ReceiverActionView<T>) {
        match polled {
            Polled::Data(stream_id) => self.on_data(stream_id),
            Polled::Finished(stream_id) => self.on_finished(stream_id),
            Polled::Reset(stream_id) => (ReceiverView {
                logging: LoggingView {
                    resp_map: self.logging.resp_map.remove(stream_id),
                    bytes_received: self.logging.bytes_received.remove(stream_id),
                    ..self.logging
                },
                ..self
            }).poll(),
            Polled::Done => self.drain(),
            Polled::Error => self.drain(),
            _ => self.poll(),
        }
    }

    /// What is done about what reading a body gave: the bytes are counted and, where the stream has
    /// a file, written.
    pub open spec fn on_body(self, stream_id: u64, read: BodyRead) -> (
        ReceiverView<F, T>,
        ReceiverActionView<T>,
    ) {
        match read {
            BodyRead::Bytes(n) => if n == 0 {
                self.poll()
            } else {
                let counted = ReceiverView {
                    logging: LoggingView {
                        bytes_received: self.logging.bytes_received.insert(
                            stream_id,
                            (self.logging.count(stream_id) + n) as u64,
                        ),
                        ..self.logging
                    },
                    ..self
                };
                if self.logging.resp_map.contains_key(stream_id) {
                    counted.go(
                        ReceiverPhase::Writing(stream_id),
                        ReceiverActionView::WriteBody(stream_id),
                    )
                } else {
                    counted.read_body(stream_id)
                }
            },
            BodyRead::Done => self.poll(),
            BodyRead::Error => self.read_body(stream_id),
        }
    }

    /// What is done about what the datagram queue gave. A datagram starts with a flow ID; without
    /// one, or where nothing is kept, it is dropped.
    pub open spec fn on_dgram(self, read: DgramReadView) -> (
        ReceiverView<F, T>,
        ReceiverActionView<T>,
    ) {
        match read {
            DgramReadView::Dgram(dgram) => match (
                varint::decode(dgram),
                self.logging.results_dir,
            ) {
                (Some((id, size)), Some(dir)) => {
                    let payload = dgrams::dgram_payload(dgram.skip(size as int));
                    if !self.logging.keep_resp {
                        self.drain()
                    } else if self.logging.dgram_map.contains_key(id as u64) {
                        self.go(
                            ReceiverPhase::WritingDgram,
                            ReceiverActionView::WriteDgram(id as u64, payload),
                        )
                    } else {
                        (ReceiverView { pending: payload, ..self }).go(
                            ReceiverPhase::OpeningDgrams(id as u64),
                            ReceiverActionView::OpenDgrams(
                                id as u64,
                                e2e::data_path(dir, self.flow_id, "_dgram_"@, id as u64),
                            ),
                        )
                    }
                },
                _ => self.drain(),
            },
            _ => self.go(ReceiverPhase::Idle, ReceiverActionView::Return),
        }
    }

    /// What is done about a file that was opened, or not.
    pub open spec fn on_opened(self, file: Option<F>) -> (
        ReceiverView<F, T>,
        ReceiverActionView<T>,
    ) {
        match self.phase {
            ReceiverPhase::OpeningDgrams(id) => {
                let taken = ReceiverView { pending: Seq::empty(), ..self };
                match file {
                    Some(file) => (ReceiverView {
                        logging: LoggingView {
                            dgram_map: self.logging.dgram_map.insert(id, file),
                            ..self.logging
                        },
                        ..taken
                    }).go(
                        ReceiverPhase::WritingDgram,
                        ReceiverActionView::WriteDgram(id, self.pending),
                    ),
                    None => taken.drain(),
                }
            },
            ReceiverPhase::Opening(stream_id) => match file {
                Some(file) => (ReceiverView {
                    logging: LoggingView {
                        resp_map: self.logging.resp_map.insert(stream_id, file),
                        ..self.logging
                    },
                    ..self
                }).read_body(stream_id),
                None => self.read_body(stream_id),
            },
            _ => self.poll(),
        }
    }

    /// What an event changes, and what is done about it.
    pub open spec fn step(self, event: ReceiverEventView<F>) -> (
        ReceiverView<F, T>,
        ReceiverActionView<T>,
    ) {
        match event {
            ReceiverEventView::Readable => self.poll(),
            ReceiverEventView::Polled(polled) => self.on_polled(polled),
            ReceiverEventView::Opened(file) => self.on_opened(file),
            ReceiverEventView::Body(read) => match self.phase {
                ReceiverPhase::Reading(stream_id) => self.on_body(stream_id, read),
                _ => self.poll(),
            },
            ReceiverEventView::Written => match self.phase {
                ReceiverPhase::Writing(stream_id) => self.read_body(stream_id),
                _ => self.drain(),
            },
            ReceiverEventView::Reported => self.poll(),
            ReceiverEventView::Dgram(read) => self.on_dgram(read),
        }
    }

    /// What a list of events, one after another, changes, and what is done about each.
    pub open spec fn run(self, events: Seq<ReceiverEventView<F>>) -> (
        ReceiverView<F, T>,
        Seq<ReceiverActionView<T>>,
    )
        decreases events.len(),
    {
        if events.len() == 0 {
            (self, Seq::empty())
        } else {
            let (before, actions) = self.run(events.drop_last());
            let (after, action) = before.step(events.last());
            (after, actions.push(action))
        }
    }
}

impl<F, T> Receiver<F, T> {
    /// A receiver for the connection `scid` in the tunnel of a flow.
    pub fn new(config: &E2eClientConfig, flow_id: u64, scid: &str) -> (receiver: Self)
        ensures
            receiver@ == (ReceiverView::<F, T> {
                logging: LoggingView::<F, T> {
                    results_dir: args::opt_text(config.results_dir),
                    request_start_time: None,
                    log_stats: config.log_stats,
                    keep_resp: config.keep_resp,
                    resp_map: Map::empty(),
                    dgram_map: Map::empty(),
                    bytes_received: Map::empty(),
                },
                flow_id,
                scid: scid@,
                phase: ReceiverPhase::Idle,
                pending: Seq::empty(),
            }),
    {
        let logging = LoggingContext {
            results_dir: config.results_dir.clone(),
            request_start_time: None,
            log_stats: config.log_stats,
            keep_resp: config.keep_resp,
            resp_map: HashMap::new(),
            dgram_map: HashMap::new(),
            bytes_received: HashMap::new(),
        };
        Receiver {
            logging,
            flow_id,
            scid: scid.to_owned(),
            phase: ReceiverPhase::Idle,
            pending: Vec::new(),
        }
    }

    /// The request starts now.
    pub fn start_request(&mut self, now: T)
        ensures
            final(self)@ == (ReceiverView {
                logging: LoggingView { request_start_time: Some(now), ..old(self)@.logging },
                ..old(self)@
            }),
    {
        self.logging.request_start_time = Some(now);
    }

    fn poll(&mut self) -> (action: ReceiverAction<T>)
        ensures
            (final(self)@, action@) == old(self)@.poll(),
    {
        self.phase = ReceiverPhase::Polling;
        ReceiverAction::Poll
    }

    fn read_body(&mut self, stream_id: u64) -> (action: ReceiverAction<T>)
        ensures
            (final(self)@, action@) == old(self)@.read_body(stream_id),
    {
        self.phase = ReceiverPhase::Reading(stream_id);
        ReceiverAction::ReadBody(stream_id)
    }

    fn drain(&mut self) -> (action: ReceiverAction<T>)
        ensures
            (final(self)@, action@) == old(self)@.drain(),
    {
        self.phase = ReceiverPhase::Draining;
        ReceiverAction::ReadDgram
    }

    fn on_data(&mut self, stream_id: u64) -> (action: ReceiverAction<T>)
        ensures
            (final(self)@, action@) == old(self)@.on_data(stream_id),
    {
        let path: Option<String> = match &self.logging.results_dir {
            Some(dir) => if self.logging.keep_resp && !self.logging.resp_map.contains_key(
                &stream_id,
            ) {
                Some(response_path(dir.as_str(), self.flow_id, stream_id))
            } else {
                None
            },
            None => None,
        };
        match path {
            Some(path) => {
                self.phase = ReceiverPhase::Opening(stream_id);
                ReceiverAction::OpenResponse(stream_id, path)
            },
            None => self.read_body(stream_id),
        }
    }

    fn take_count(&mut self, stream_id: u64) -> (bytes: u64)
        ensures
            bytes == old(self)@.logging.count(stream_id),
            final(self)@ == (ReceiverView {
                logging: LoggingView {
                    bytes_received: old(self)@.logging.bytes_received.remove(stream_id),
                    ..old(self)@.logging
                },
                ..old(self)@
            }),
    {
        match self.logging.bytes_received.remove(&stream_id) {
            Some(bytes) => bytes,
            None => 0,
        }
    }

    fn on_finished(&mut self, stream_id: u64) -> (action: ReceiverAction<T>)
        ensures
            (final(self)@, action@) == old(self)@.on_finished(stream_id),
    {
        // Closes the file of this stream.
        let _ = self.logging.resp_map.remove(&stream_id);
        let mut start_time: Option<T> = None;
        std::mem::swap(&mut start_time, &mut self.logging.request_start_time);
        match start_time {
            Some(start_time) => {
                let path: Option<String> = match &self.logging.results_dir {
                    Some(dir) => if self.logging.log_stats {
                        Some(timing_path(dir.as_str(), self.scid.as_str()))
                    } else {
                        None
                    },
                    None => None,
                };
                let timing: Option<(String, u64)> = match path {
                    Some(path) => Some((path, self.take_count(stream_id))),
                    None => None,
                };
                self.phase = ReceiverPhase::Reporting;
                ReceiverAction::Report(RequestReport { stream_id, start_time, timing })
            },
            None => self.poll(),
        }
    }

    fn on_polled(&mut self, polled: Polled) -> (action: ReceiverAction<T>)
        ensures
            (final(self)@, action@) == old(self)@.on_polled(polled),
    {
        match polled {
            Polled::Data(stream_id) => self.on_data(stream_id),
            Polled::Finished(stream_id) => self.on_finished(stream_id),
            Polled::Reset(stream_id) => {
                let _ = self.logging.resp_map.remove(&stream_id);
                let _ = self.logging.bytes_received.remove(&stream_id);
                self.poll()
            },
            Polled::Done => self.drain(),
            Polled::Error => self.drain(),
            _ => self.poll(),
        }
    }

    fn on_body(&mut self, stream_id: u64, read: BodyRead) -> (action: ReceiverAction<T>)
        requires
            read matches BodyRead::Bytes(n) ==> old(self)@.logging.count(stream_id) + n <= u64::MAX,
        ensures
            (final(self)@, action@) == old(self)@.on_body(stream_id, read),
    {
        match read {
            BodyRead::Bytes(n) => {
                if n == 0 {
                    return self.poll();
                }
                let before: u64 = self.take_count(stream_id);
                self.logging.bytes_received.insert(stream_id, before + n);
                assert(self@.logging.bytes_received
                    =~= old(self)@.logging.bytes_received.insert(stream_id, (before + n) as u64));
                if self.logging.resp_map.contains_key(&stream_id) {
                    self.phase = ReceiverPhase::Writing(stream_id);
                    ReceiverAction::WriteBody(stream_id)
                } else {
                    self.read_body(stream_id)
                }
            },
            BodyRead::Done => self.poll(),
            BodyRead::Error => self.read_body(stream_id),
        }
    }

    fn on_dgram(&mut self, read: DgramRead) -> (action: ReceiverAction<T>)
        ensures
            (final(self)@, action@) == old(self)@.on_dgram(read@),
    {
        let mut dgram: Vec<u8> = match read {
            DgramRead::Dgram(dgram) => dgram,
            _ => {
                self.phase = ReceiverPhase::Idle;
                return ReceiverAction::Return;
            },
        };
        if !self.logging.keep_resp {
            return self.drain();
        }
        let (id, size): (u64, usize) = match get_varint(dgram.as_slice()) {
            Some(parsed) => parsed,
            None => {
                return self.drain();
            },
        };
        let (_, rest) = dgram.as_mut_slice().split_at_mut(size);
        let payload: Vec<u8> = vstd::slice::slice_to_vec(retrieve_dgram(rest));
        let path: String = match &self.logging.results_dir {
            Some(dir) => dgram_path(dir.as_str(), self.flow_id, id),
            None => {
                return self.drain();
            },
        };
        if self.logging.dgram_map.contains_key(&id) {
            self.phase = ReceiverPhase::WritingDgram;
            ReceiverAction::WriteDgram(id, payload)
        } else {
            self.pending = payload;
            self.phase = ReceiverPhase::OpeningDgrams(id);
            ReceiverAction::OpenDgrams(id, path)
        }
    }

    fn on_opened(&mut self, file: Option<F>) -> (action: ReceiverAction<T>)
        ensures
            (final(self)@, action@) == old(self)@.on_opened(file),
    {
        match self.phase {
            ReceiverPhase::OpeningDgrams(id) => {
                let mut payload: Vec<u8> = Vec::new();
                std::mem::swap(&mut payload, &mut self.pending);
                match file {
                    Some(file) => {
                        self.logging.dgram_map.insert(id, file);
                        self.phase = ReceiverPhase::WritingDgram;
                        ReceiverAction::WriteDgram(id, payload)
                    },
                    None => self.drain(),
                }
            },
            ReceiverPhase::Opening(stream_id) => {
                if let Some(file) = file {
                    self.logging.resp_map.insert(stream_id, file);
                }
                self.read_body(stream_id)
            },
            _ => self.poll(),
        }
    }

    /// Whether this can happen to the receiver.
    pub fn accepts_event(&self, event: &ReceiverEvent<F>) -> (accepted: bool)
        ensures
            accepted == self@.accepts(event@),
    {
        match self.phase {
            ReceiverPhase::Idle => matches!(event, ReceiverEvent::Readable),
            ReceiverPhase::Polling => matches!(event, ReceiverEvent::Polled(_)),
            ReceiverPhase::Opening(_) => matches!(event, ReceiverEvent::Opened(_)),
            ReceiverPhase::Reading(stream_id) => match event {
                ReceiverEvent::Body(BodyRead::Bytes(n)) => {
                    let before: u64 = match self.logging.bytes_received.get(&stream_id) {
                        Some(bytes) => *bytes,
                        None => 0,
                    };
                    before <= u64::MAX - *n
                },
                ReceiverEvent::Body(_) => true,
                _ => false,
            },
            ReceiverPhase::Writing(_) => matches!(event, ReceiverEvent::Written),
            ReceiverPhase::Reporting => matches!(event, ReceiverEvent::Reported),
            ReceiverPhase::Draining => matches!(event, ReceiverEvent::Dgram(_)),
            ReceiverPhase::OpeningDgrams(_) => matches!(event, ReceiverEvent::Opened(_)),
            ReceiverPhase::WritingDgram => matches!(event, ReceiverEvent::Written),
        }
    }

    /// Tells the receiver what happened and asks what to do next.
    pub fn step(&mut self, event: ReceiverEvent<F>) -> (action: ReceiverAction<T>)
        requires
            old(self)@.accepts(event@),
        ensures
            (final(self)@, action@) == old(self)@.step(event@),
    {
        match event {
            ReceiverEvent::Readable => self.poll(),
            ReceiverEvent::Polled(polled) => self.on_polled(polled),
            ReceiverEvent::Opened(file) => self.on_opened(file),
            ReceiverEvent::Body(read) => match self.phase {
                ReceiverPhase::Reading(stream_id) => self.on_body(stream_id, read),
                _ => self.poll(),
            },
            ReceiverEvent::Written => match self.phase {
                ReceiverPhase::Writing(stream_id) => self.read_body(stream_id),
                _ => self.drain(),
            },
            ReceiverEvent::Reported => self.poll(),
            ReceiverEvent::Dgram(read) => self.on_dgram(read),
        }
    }
}

/// Whatever is to be written has a file that it goes to.
pub proof fn law_writes_have_files<F, T>(receiver: ReceiverView<F, T>, event: ReceiverEventView<F>)
    ensures
        ({
            let (after, action) = receiver.step(event);
            &&& action matches ReceiverActionView::WriteBody(stream_id)
                ==> after.logging.resp_map.contains_key(stream_id)
            &&& action matches ReceiverActionView::WriteDgram(id, _)
                ==> after.logging.dgram_map.contains_key(id)
        }),
{
}

/// How many requests are reported on.
pub open spec fn reports<T>(actions: Seq<ReceiverActionView<T>>) -> nat
    decreases actions.len(),
{
    if actions.len() == 0 {
        0
    } else {
        reports(actions.drop_last()) + if actions.last() is Report {
            1nat
        } else {
            0
        }
    }
}

/// A request is reported on at most once after it was started, however many streams are over.
pub proof fn law_request_reported_once<F, T>(
    receiver: ReceiverView<F, T>,
    events: Seq<ReceiverEventView<F>>,
)
    ensures
        ({
            let (after, actions) = receiver.run(events);
            &&& reports(actions) <= 1
            &&& receiver.logging.request_start_time is None ==> {
                &&& reports(actions) == 0
                &&& after.logging.request_start_time is None
            }
            &&& receiver.logging.request_start_time is Some ==> (reports(actions) == 1
                <==> after.logging.request_start_time is None)
        }),
    decreases events.len(),
{
    if events.len() > 0 {
        law_request_reported_once(receiver, events.drop_last());
        let (before, actions) = receiver.run(events.drop_last());
        let (after, action) = before.step(events.last());
        assert(actions.push(action).drop_last() =~= actions);
    }
}

/// Parts of a body, each followed by the report that it was written, where the stream has a file.
pub open spec fn body_events<F>(parts: Seq<u64>, has_file: bool) -> Seq<ReceiverEventView<F>>
    decreases parts.len(),
{
    if parts.len() == 0 {
        Seq::empty()
    } else {
        let read = body_events(parts.drop_last(), has_file).push(
            ReceiverEventView::Body(BodyRead::Bytes(parts.last())),
        );
        if has_file {
            read.push(ReceiverEventView::Written)
        } else {
            read
        }
    }
}

/// The sum of the parts of a body.
pub open spec fn body_size(parts: Seq<u64>) -> nat
    decreases parts.len(),
{
    if parts.len() == 0 {
        0
    } else {
        body_size(parts.drop_last()) + parts.last() as nat
    }
}

/// Every byte of a body is counted, whether the response is kept or not.
pub proof fn law_body_bytes_add_up<F, T>(
    receiver: ReceiverView<F, T>,
    stream_id: u64,
    parts: Seq<u64>,
)
    requires
        receiver.phase == ReceiverPhase::Reading(stream_id),
        forall|i: int| 0 <= i < parts.len() ==> #[trigger] parts[i] > 0,
        receiver.logging.count(stream_id) + body_size(parts) <= u64::MAX,
    ensures
        ({
            let has_file = receiver.logging.resp_map.contains_key(stream_id);
            let (after, _) = receiver.run(body_events(parts, has_file));
            &&& after.phase == receiver.phase
            &&& after.logging.count(stream_id) == receiver.logging.count(stream_id) + body_size(
                parts,
            )
            &&& after.logging.resp_map == receiver.logging.resp_map
        }),
    decreases parts.len(),
{
    if parts.len() > 0 {
        let has_file = receiver.logging.resp_map.contains_key(stream_id);
        let earlier = parts.drop_last();
        assert(parts[parts.len() - 1] > 0);
        assert(forall|i: int| 0 <= i < earlier.len() ==> earlier[i] == parts[i]);
        law_body_bytes_add_up(receiver, stream_id, earlier);
        let read = body_events::<F>(earlier, has_file).push(
            ReceiverEventView::Body(BodyRead::Bytes(parts.last())),
        );
        assert(read.drop_last() =~= body_events::<F>(earlier, has_file));
        assert(read.push(ReceiverEventView::Written).drop_last() =~= read);
        assert(receiver.run(read).0 == receiver.run(read.drop_last()).0.step(read.last()).0);
    }
}

/// A datagram that carries a payload on a flow is written as that payload to the file of that
/// flow, which is opened first where it is not open.
pub proof fn law_dgram_is_kept<F, T>(
    receiver: ReceiverView<F, T>,
    id: u64,
    payload: Seq<u8>,
    file: F,
)
    requires
        receiver.logging.keep_resp,
        receiver.logging.results_dir is Some,
        id <= varint::MAX_VARINT,
    ensures
        ({
            let dgram = varint::encode(id as nat) + dgrams::dgram_bytes(payload);
            let (received, action) = receiver.step(
                ReceiverEventView::Dgram(DgramReadView::Dgram(dgram)),
            );
            let written = ReceiverActionView::<T>::WriteDgram(id, payload);
            if receiver.logging.dgram_map.contains_key(id) {
                action == written
            } else {
                &&& action is OpenDgrams
                &&& received.step(ReceiverEventView::Opened(Some(file))).1 == written
                &&& received.step(ReceiverEventView::Opened(Some(file))).0.logging.dgram_map
                    == receiver.logging.dgram_map.insert(id, file)
            }
        }),
{
    let dgram = varint::encode(id as nat) + dgrams::dgram_bytes(payload);
    varint::law_roundtrip(id as nat, dgrams::dgram_bytes(payload));
    varint::lemma_encode_size(id as nat);
    dgrams::law_dgram_roundtrip(payload);
    assert(dgram.skip(varint::size_of(id as nat) as int) =~= dgrams::dgram_bytes(payload));
}

/// Whether an action opens a file or writes to one.
pub open spec fn touches_files<T>(action: ReceiverActionView<T>) -> bool {
    action is OpenResponse || action is OpenDgrams || action is WriteBody || action is WriteDgram
}

/// Where responses are not to be kept, or the results directory is not known, no file is opened and
/// none is written to, whatever happens.
pub proof fn law_nothing_is_kept_unasked<F, T>(
    receiver: ReceiverView<F, T>,
    events: Seq<ReceiverEventView<F>>,
)
    requires
        !receiver.logging.keep_resp || receiver.logging.results_dir is None,
        receiver.phase is Idle,
        receiver.logging.resp_map == Map::<u64, F>::empty(),
        receiver.logging.dgram_map == Map::<u64, F>::empty(),
    ensures
        ({
            let (after, actions) = receiver.run(events);
            &&& forall|i: int| 0 <= i < actions.len() ==> !touches_files(#[trigger] actions[i])
            &&& after.logging.resp_map == Map::<u64, F>::empty()
            &&& after.logging.dgram_map == Map::<u64, F>::empty()
            &&& after.logging.keep_resp == receiver.logging.keep_resp
            &&& after.logging.results_dir == receiver.logging.results_dir
            &&& !(after.phase is Opening || after.phase is OpeningDgrams)
        }),
    decreases events.len(),
{
    if events.len() > 0 {
        let earlier = events.drop_last();
        law_nothing_is_kept_unasked(receiver, earlier);
        let (before, actions) = receiver.run(earlier);
        let (after, action) = before.step(events.last());
        assert forall|i: int| 0 <= i < actions.push(action).len() implies !touches_files(
            #[trigger] actions.push(action)[i],
        ) by {
            if i < actions.len() {
                assert(actions.push(action)[i] == actions[i]);
            }
        }
        assert(forall|id: u64| #[trigger]
            Map::<u64, F>::empty().remove(id) =~= Map::<u64, F>::empty());
    }
}

/// Data on a stream opens a file for it exactly where responses are kept, the results directory is
/// known and the stream has no file yet: a file in that directory, named after the flow and the
/// stream. Otherwise the body is read at once. Nothing is counted or forgotten yet.
pub proof fn law_data_opens_file<F, T>(receiver: ReceiverView<F, T>, stream_id: u64)
    ensures
        ({
            let (after, action) = receiver.step(
                ReceiverEventView::Polled(Polled::Data(stream_id)),
            );
            &&& after.logging == receiver.logging
            &&& action is OpenResponse <==> receiver.logging.keep_resp
                && receiver.logging.results_dir is Some && !receiver.logging.resp_map.contains_key(
                stream_id,
            )
            &&& action matches ReceiverActionView::OpenResponse(id, path) ==> id == stream_id
                && path == e2e::data_path(
                receiver.logging.results_dir->0,
                receiver.flow_id,
                "_stream_"@,
                stream_id,
            )
            &&& !(action is OpenResponse) ==> action == ReceiverActionView::<T>::ReadBody(stream_id)
        }),
{
}

/// A file that was opened for a stream is the file of that stream and of no other, and the body is
/// read whether it could be opened or not.
pub proof fn law_opened_file_is_of_stream<F, T>(
    receiver: ReceiverView<F, T>,
    stream_id: u64,
    file: Option<F>,
)
    requires
        receiver.phase == ReceiverPhase::Opening(stream_id),
    ensures
        ({
            let (after, action) = receiver.step(ReceiverEventView::Opened(file));
            &&& action == ReceiverActionView::<T>::ReadBody(stream_id)
            &&& file matches Some(f) ==> after.logging.resp_map.contains_key(stream_id)
                && after.logging.resp_map[stream_id] == f
            &&& file is None ==> after.logging.resp_map == receiver.logging.resp_map
            &&& forall|other: u64|
                other != stream_id ==> (#[trigger] after.logging.resp_map.contains_key(other)
                    <==> receiver.logging.resp_map.contains_key(other))
                    && after.logging.resp_map[other] == receiver.logging.resp_map[other]
            &&& after.logging.dgram_map == receiver.logging.dgram_map
            &&& after.logging.bytes_received == receiver.logging.bytes_received
        }),
{
}

/// Bytes of a body are added to the count of their stream and of no other. They are written exactly
/// where the stream has a file; the body is read on until it gives nothing more, errors or not.
pub proof fn law_body_is_counted_and_written<F, T>(
    receiver: ReceiverView<F, T>,
    stream_id: u64,
    read: BodyRead,
)
    requires
        receiver.phase == ReceiverPhase::Reading(stream_id),
        receiver.accepts(ReceiverEventView::Body(read)),
    ensures
        ({
            let (after, action) = receiver.step(ReceiverEventView::Body(read));
            &&& read == BodyRead::Bytes(0) || read is Done ==> action is Poll && after.logging
                == receiver.logging
            &&& read is Error ==> action == ReceiverActionView::<T>::ReadBody(stream_id)
                && after.logging == receiver.logging
            &&& read matches BodyRead::Bytes(n) ==> {
                &&& after.logging.count(stream_id) == receiver.logging.count(stream_id) + n
                &&& n > 0 ==> action == if receiver.logging.resp_map.contains_key(stream_id) {
                    ReceiverActionView::<T>::WriteBody(stream_id)
                } else {
                    ReceiverActionView::<T>::ReadBody(stream_id)
                }
            }
            &&& forall|other: u64|
                other != stream_id ==> #[trigger] after.logging.count(other)
                    == receiver.logging.count(other)
            &&& after.logging.resp_map == receiver.logging.resp_map
            &&& after.logging.request_start_time == receiver.logging.request_start_time
        }),
{
}

/// The count of a stream is what was counted, and 0 where nothing was.
pub proof fn law_count_starts_at_zero<F, T>(logging: LoggingView<F, T>, stream_id: u64)
    ensures
        !logging.bytes_received.contains_key(stream_id) ==> logging.count(stream_id) == 0,
        logging.bytes_received.contains_key(stream_id) ==> logging.count(stream_id)
            == logging.bytes_received[stream_id],
{
}

/// A stream that is over closes its own file and no other. It is reported on exactly where a request
/// was started and not reported on yet: with the time at which it was started, and, where statistics
/// are kept and the results directory is known, with the bytes that came on this stream.
pub proof fn law_finished_stream_is_reported<F, T>(receiver: ReceiverView<F, T>, stream_id: u64)
    ensures
        ({
            let (after, action) = receiver.step(
                ReceiverEventView::Polled(Polled::Finished(stream_id)),
            );
            &&& after.logging.resp_map == receiver.logging.resp_map.remove(stream_id)
            &&& after.logging.dgram_map == receiver.logging.dgram_map
            &&& after.logging.request_start_time is None
            &&& receiver.logging.request_start_time is None ==> action is Poll
            &&& receiver.logging.request_start_time matches Some(started) ==> (
            action matches ReceiverActionView::Report { stream_id: id, start_time, timing } && {
                &&& id == stream_id
                &&& start_time == started
                &&& timing is Some <==> receiver.logging.log_stats
                    && receiver.logging.results_dir is Some
                &&& timing matches Some((path, bytes)) ==> {
                    &&& bytes == receiver.logging.count(stream_id)
                    &&& path == receiver.logging.results_dir->0 + "/e2e-"@ + receiver.scid
                        + ".timing.json"@
                    &&& after.logging.count(stream_id) == 0
                }
                &&& timing is None ==> after.logging.bytes_received
                    == receiver.logging.bytes_received
            })
            &&& forall|other: u64|
                other != stream_id ==> #[trigger] after.logging.count(other)
                    == receiver.logging.count(other)
        }),
{
}

/// A stream that is reset closes its own file, is counted from 0 again and is not reported on; no
/// other stream is touched and the request goes on.
pub proof fn law_reset_stream_is_forgotten<F, T>(receiver: ReceiverView<F, T>, stream_id: u64)
    ensures
        ({
            let (after, action) = receiver.step(
                ReceiverEventView::Polled(Polled::Reset(stream_id)),
            );
            &&& action is Poll
            &&& after.logging.resp_map == receiver.logging.resp_map.remove(stream_id)
            &&& after.logging.count(stream_id) == 0
            &&& forall|other: u64|
                other != stream_id ==> #[trigger] after.logging.count(other)
                    == receiver.logging.count(other)
            &&& after.logging.dgram_map == receiver.logging.dgram_map
            &&& after.logging.request_start_time == receiver.logging.request_start_time
        }),
{
}

/// The connection is polled until it gives nothing more, then the datagram queue is read until it
/// gives nothing more. What needs nothing done changes nothing.
pub proof fn law_receiver_reads_all<F, T>(
    receiver: ReceiverView<F, T>,
    event: ReceiverEventView<F>,
)
    requires
        receiver.accepts(event),
    ensures
        ({
            let (after, action) = receiver.step(event);
            &&& event is Readable || event is Reported ==> action is Poll && after.logging
                == receiver.logging
            &&& event matches ReceiverEventView::Polled(polled) ==> {
                &&& polled is Headers || polled is PriorityUpdate || polled is GoAway
                    ==> action is Poll && after.logging == receiver.logging
                &&& polled is Done || polled is Error ==> action is ReadDgram && after.logging
                    == receiver.logging
            }
            &&& event is Written ==> after.logging == receiver.logging && (
            if receiver.phase is Writing {
                action == ReceiverActionView::<T>::ReadBody(receiver.phase->Writing_0)
            } else {
                action is ReadDgram
            })
            &&& action is Return <==> event == ReceiverEventView::<F>::Dgram(DgramReadView::Done)
                || event == ReceiverEventView::<F>::Dgram(DgramReadView::Error)
            &&& event matches ReceiverEventView::Dgram(_) ==> after.logging == receiver.logging
            &&& after.flow_id == receiver.flow_id && after.scid == receiver.scid
            &&& after.logging.keep_resp == receiver.logging.keep_resp
            &&& after.logging.log_stats == receiver.logging.log_stats
            &&& after.logging.results_dir == receiver.logging.results_dir
        }),
{
}

/// A datagram is dropped where it does not start with a flow ID, where responses are not kept and
/// where there is no results directory. It is kept otherwise, under its own flow ID, in a file that
/// is named after both flows.
pub proof fn law_dgram_is_dropped_or_kept<F, T>(receiver: ReceiverView<F, T>, dgram: Seq<u8>)
    ensures
        ({
            let (after, action) = receiver.step(
                ReceiverEventView::Dgram(DgramReadView::Dgram(dgram)),
            );
            let kept = varint::decode(dgram) is Some && receiver.logging.keep_resp
                && receiver.logging.results_dir is Some;
            &&& !kept ==> action is ReadDgram
            &&& kept ==> {
                let id = (varint::decode(dgram)->0).0 as u64;
                &&& action is WriteDgram <==> receiver.logging.dgram_map.contains_key(id)
                &&& action is OpenDgrams <==> !receiver.logging.dgram_map.contains_key(id)
                &&& action matches ReceiverActionView::WriteDgram(to, _) ==> to == id
                &&& action matches ReceiverActionView::OpenDgrams(to, path) ==> to == id && path
                    == e2e::data_path(
                    receiver.logging.results_dir->0,
                    receiver.flow_id,
                    "_dgram_"@,
                    id,
                )
            }
        }),
{
}

/// A datagram whose file cannot be opened is dropped, and the next one is read.
pub proof fn law_unopened_dgrams_are_dropped<F, T>(receiver: ReceiverView<F, T>, id: u64, file: F)
    requires
        receiver.phase == ReceiverPhase::OpeningDgrams(id),
    ensures
        receiver.step(ReceiverEventView::Opened(None)).1 is ReadDgram,
        receiver.step(ReceiverEventView::Opened(None)).0.logging == receiver.logging,
        receiver.step(ReceiverEventView::Opened(Some(file))).1 == ReceiverActionView::<
            T,
        >::WriteDgram(id, receiver.pending),
{
}

/// A receiver is told next of what it asked for, and of nothing else. The only thing that it cannot
/// be told of are more bytes of a stream than 64 bits can count.
pub proof fn law_receiver_is_told_what_it_asked_for<F, T>(
    receiver: ReceiverView<F, T>,
    event: ReceiverEventView<F>,
    reply: ReceiverEventView<F>,
)
    requires
        receiver.accepts(event),
    ensures
        ({
            let (after, action) = receiver.step(event);
            after.accepts(reply) <==> match action {
                ReceiverActionView::Poll => reply is Polled,
                ReceiverActionView::OpenResponse(_, _) => reply is Opened,
                ReceiverActionView::ReadBody(stream_id) => reply matches ReceiverEventView::Body(
                    read,
                ) && (read matches BodyRead::Bytes(n) ==> after.logging.count(stream_id) + n
                    <= 0xffff_ffff_ffff_ffff),
                ReceiverActionView::WriteBody(_) => reply is Written,
                ReceiverActionView::Report { .. } => reply is Reported,
                ReceiverActionView::ReadDgram => reply is Dgram,
                ReceiverActionView::OpenDgrams(_, _) => reply is Opened,
                ReceiverActionView::WriteDgram(_, _) => reply is Written,
                ReceiverActionView::Return => reply is Readable,
            }
        }),
{
}

} // verus!
