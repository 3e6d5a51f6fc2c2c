//! What a pipe does after its sockets were read from or written to.
use vstd::prelude::*;

use crate::ready::{Readiness, Ready, Token};
use crate::session::{
    SessionMetrics, SessionResult, SocketResult, TimeoutContainer, TimerOrder,
};

use super::{ConnectionStatus, Pipe, PipeModel};

verus! {

/// Why a session ended other than well.
#[derive(Debug, Clone, Copy, PartialEq, Eq, Structural)]
pub enum AccessError {
    FrontRead,
    FrontWrite,
    BackRead,
    BackWrite,
    FrontTimeout,
    BackTimeout,
    InvalidToken,
}

/// What is written to the access log.
#[derive(Debug, Clone, Copy, PartialEq, Eq, Structural)]
pub enum AccessLog {
    Silent,
    Success,
    Error(AccessError),
}

/// What came of a step of a pipe.
#[derive(Debug, Clone, Copy, PartialEq, Eq, Structural)]
pub struct Report {
    pub result: SessionResult,
    pub log: AccessLog,
    /// counts as an error of pipes
    pub pipe_error: bool,
}

impl Report {
    /// The session goes on.
    pub open spec fn going_on() -> Report {
        Report { result: SessionResult::Continue, log: AccessLog::Silent, pipe_error: false }
    }

    /// The session ends well.
    pub open spec fn ended() -> Report {
        Report { result: SessionResult::CloseSession, log: AccessLog::Success, pipe_error: false }
    }

    /// The session ends because of a socket.
    pub open spec fn failed(error: AccessError) -> Report {
        Report {
            result: SessionResult::CloseSession,
            log: AccessLog::Error(error),
            pipe_error: true,
        }
    }

    /// The session ends because of a timer.
    pub open spec fn timed_out(error: AccessError) -> Report {
        Report {
            result: SessionResult::CloseSession,
            log: AccessLog::Error(error),
            pipe_error: false,
        }
    }

    fn go_on() -> (r: Report)
        ensures
            r == Report::going_on(),
    {
        Report { result: SessionResult::Continue, log: AccessLog::Silent, pipe_error: false }
    }

    fn end() -> (r: Report)
        ensures
            r == Report::ended(),
    {
        Report { result: SessionResult::CloseSession, log: AccessLog::Success, pipe_error: false }
    }

    fn fail(error: AccessError) -> (r: Report)
        ensures
            r == Report::failed(error),
    {
        Report {
            result: SessionResult::CloseSession,
            log: AccessLog::Error(error),
            pipe_error: true,
        }
    }

    fn time_out(error: AccessError) -> (r: Report)
        ensures
            r == Report::timed_out(error),
    {
        Report {
            result: SessionResult::CloseSession,
            log: AccessLog::Error(error),
            pipe_error: false,
        }
    }
}

/// What comes after a write: more of the same, or the end of the step.
#[derive(Debug, Clone, Copy, PartialEq, Eq, Structural)]
pub enum WriteStep {
    /// there is data left, and `sent` bytes of this step are gone
    More { sent: usize },
    Done(Report),
}

/// Only that there is something to read.
pub open spec fn read() -> Ready {
    Ready { readable: true, ..Ready::none() }
}

/// Only that there is room to write.
pub open spec fn write() -> Ready {
    Ready { writable: true, ..Ready::none() }
}

impl SessionMetrics {
    pub open spec fn stopped(self) -> SessionMetrics {
        SessionMetrics { service_stopped: true, ..self }
    }
}

impl PipeModel {
    /// The pipe without any event or interest.
    pub open spec fn at_rest(self) -> PipeModel {
        PipeModel {
            frontend_readiness: Readiness::nothing(),
            backend_readiness: Readiness::nothing(),
            ..self
        }
    }

    /// The pipe that looks for data of the frontend, because all of it was sent to the backend.
    pub open spec fn wanting_front_data(self) -> PipeModel {
        PipeModel {
            frontend_readiness: self.frontend_readiness.with_interest(read()),
            backend_readiness: self.backend_readiness.without_interest(write()),
            ..self
        }
    }

    /// The pipe that looks for data of the backend, because all of it was sent to the frontend.
    pub open spec fn wanting_back_data(self) -> PipeModel {
        PipeModel {
            backend_readiness: self.backend_readiness.with_interest(read()),
            frontend_readiness: self.frontend_readiness.without_interest(write()),
            ..self
        }
    }

    /// The pipe that took in what the frontend sent. No byte and no obstacle mean that the frontend
    /// does not send any more.
    pub open spec fn with_front_data(self, bytes: Seq<u8>, res: SocketResult) -> PipeModel {
        if bytes.len() > 0 {
            PipeModel {
                frontend_buffer: self.frontend_buffer.filled(bytes),
                frontend_readiness: if self.frontend_buffer.filled(bytes).space() == 0 {
                    self.frontend_readiness.without_interest(read())
                } else {
                    self.frontend_readiness
                },
                backend_readiness: self.backend_readiness.with_interest(write()),
                ..self
            }
        } else {
            PipeModel {
                frontend_readiness: self.frontend_readiness.without_event(read()),
                frontend_status: if res == SocketResult::Continue {
                    self.frontend_status.without_reading()
                } else {
                    self.frontend_status
                },
                ..self
            }
        }
    }

    /// What the result of a read from the frontend means for the session.
    pub open spec fn after_front_data(self, metrics: SessionMetrics, res: SocketResult) -> (
        PipeModel,
        SessionMetrics,
        Report,
    ) {
        let wanting = PipeModel {
            backend_readiness: self.backend_readiness.with_interest(write()),
            ..self
        };
        if !self.goes_on() || res == SocketResult::Closed {
            (self.at_rest(), metrics.stopped(), Report::ended())
        } else if res == SocketResult::Error {
            (self.at_rest(), metrics.stopped(), Report::failed(AccessError::FrontRead))
        } else if res == SocketResult::WouldBlock {
            (
                PipeModel {
                    frontend_readiness: wanting.frontend_readiness.without_event(read()),
                    ..wanting
                },
                metrics,
                Report::going_on(),
            )
        } else {
            (wanting, metrics, Report::going_on())
        }
    }

    /// After the frontend was to be read. There is nothing in `got` where the buffer has no room.
    pub open spec fn after_front_read(
        self,
        metrics: SessionMetrics,
        got: Option<(Seq<u8>, SocketResult)>,
    ) -> (PipeModel, SessionMetrics, Report) {
        let pipe = self.with_timeouts(TimerOrder::Reset);
        match got {
            None => (
                PipeModel {
                    frontend_readiness: pipe.frontend_readiness.without_interest(read()),
                    backend_readiness: pipe.backend_readiness.with_interest(write()),
                    ..pipe
                },
                metrics,
                Report::going_on(),
            ),
            Some((bytes, res)) => pipe.with_front_data(bytes, res).after_front_data(
                SessionMetrics { bin: (metrics.bin + bytes.len()) as usize, ..metrics },
                res,
            ),
        }
    }

    /// Before anything is written to the frontend.
    pub open spec fn before_front_write(self, metrics: SessionMetrics) -> (
        PipeModel,
        SessionMetrics,
        WriteStep,
    ) {
        if self.backend_buffer.data.len() == 0 {
            (self.wanting_back_data(), metrics, WriteStep::Done(Report::going_on()))
        } else {
            (self, metrics, WriteStep::More { sent: 0 })
        }
    }

    /// After `n` bytes were written to the frontend. `sent` bytes of the same step went before them.
    pub open spec fn after_front_write(
        self,
        metrics: SessionMetrics,
        sent: usize,
        n: usize,
        res: SocketResult,
    ) -> (PipeModel, SessionMetrics, WriteStep) {
        let pipe = PipeModel {
            backend_buffer: self.backend_buffer.consumed(n as nat),
            frontend_status: if n == 0 && res == SocketResult::Continue {
                self.frontend_status.without_writing()
            } else {
                self.frontend_status
            },
            ..self
        };
        let sent = (sent + n) as usize;
        let counted = SessionMetrics { bout: (metrics.bout + sent) as usize, ..metrics };
        if !pipe.goes_on() {
            (pipe.at_rest(), counted.stopped(), WriteStep::Done(Report::ended()))
        } else if res == SocketResult::Continue {
            if pipe.backend_buffer.data.len() == 0 {
                (pipe.wanting_back_data(), counted, WriteStep::Done(Report::going_on()))
            } else {
                (pipe, metrics, WriteStep::More { sent })
            }
        } else {
            let pipe = if sent > 0 {
                PipeModel {
                    backend_readiness: pipe.backend_readiness.with_interest(read()),
                    ..pipe
                }
            } else {
                pipe
            };
            match res {
                SocketResult::Error => (
                    pipe.at_rest(),
                    counted.stopped(),
                    WriteStep::Done(Report::failed(AccessError::FrontWrite)),
                ),
                SocketResult::Closed => (
                    pipe.at_rest(),
                    counted.stopped(),
                    WriteStep::Done(Report::ended()),
                ),
                _ => (
                    PipeModel {
                        frontend_readiness: pipe.frontend_readiness.without_event(write()),
                        ..pipe
                    },
                    counted,
                    WriteStep::Done(Report::going_on()),
                ),
            }
        }
    }

    /// After everything that could be written to the backend was written, `sent` bytes in all.
    pub open spec fn after_back_writes(
        self,
        metrics: SessionMetrics,
        sent: usize,
        res: SocketResult,
    ) -> (PipeModel, SessionMetrics, WriteStep) {
        let counted = SessionMetrics {
            backend_bout: (metrics.backend_bout + sent) as usize,
            ..metrics
        };
        if !self.goes_on() {
            (self.at_rest(), counted.stopped(), WriteStep::Done(Report::ended()))
        } else {
            match res {
                SocketResult::Error => (
                    self.at_rest(),
                    counted.stopped(),
                    WriteStep::Done(Report::failed(AccessError::BackWrite)),
                ),
                SocketResult::Closed => (
                    self.at_rest(),
                    counted.stopped(),
                    WriteStep::Done(Report::ended()),
                ),
                SocketResult::WouldBlock => (
                    PipeModel {
                        backend_readiness: self.backend_readiness.without_event(write()),
                        ..self
                    },
                    counted,
                    WriteStep::Done(Report::going_on()),
                ),
                SocketResult::Continue => (
                    self,
                    counted,
                    WriteStep::Done(Report::going_on()),
                ),
            }
        }
    }

    /// Before anything is written to the backend. Where there is no backend, nothing can be.
    pub open spec fn before_back_write(self, metrics: SessionMetrics) -> (
        PipeModel,
        SessionMetrics,
        WriteStep,
    ) {
        if self.frontend_buffer.data.len() == 0 {
            (self.wanting_front_data(), metrics, WriteStep::Done(Report::going_on()))
        } else if !self.backend {
            self.after_back_writes(metrics, 0, SocketResult::Continue)
        } else {
            (self, metrics, WriteStep::More { sent: 0 })
        }
    }

    /// After `n` bytes were written to the backend. `sent` bytes of the same step went before them.
    /// Bytes that empty the buffer without any obstacle are not counted.
    pub open spec fn after_back_write(
        self,
        metrics: SessionMetrics,
        sent: usize,
        n: usize,
        res: SocketResult,
    ) -> (PipeModel, SessionMetrics, WriteStep) {
        let pipe = PipeModel {
            frontend_buffer: self.frontend_buffer.consumed(n as nat),
            backend_status: if n == 0 && res == SocketResult::Continue {
                self.backend_status.without_writing()
            } else {
                self.backend_status
            },
            ..self
        };
        let sent = (sent + n) as usize;
        if res != SocketResult::Continue {
            pipe.after_back_writes(metrics, sent, res)
        } else if pipe.frontend_buffer.data.len() == 0 {
            (pipe.wanting_front_data(), metrics, WriteStep::Done(Report::going_on()))
        } else {
            (pipe, metrics, WriteStep::More { sent })
        }
    }

    /// The pipe that took in what the backend sent. No byte and a closed connection mean that the
    /// backend does not send any more.
    pub open spec fn with_back_data(self, bytes: Seq<u8>, res: SocketResult) -> PipeModel {
        PipeModel {
            backend_buffer: self.backend_buffer.filled(bytes),
            backend_readiness: if res != SocketResult::Continue || bytes.len() == 0 {
                self.backend_readiness.without_event(read())
            } else {
                self.backend_readiness
            },
            frontend_readiness: if bytes.len() > 0 {
                self.frontend_readiness.with_interest(write())
            } else {
                self.frontend_readiness
            },
            backend_status: if bytes.len() == 0 && res == SocketResult::Closed {
                self.backend_status.without_reading()
            } else {
                self.backend_status
            },
            ..self
        }
    }

    /// What the result of a read from the backend means for the session.
    pub open spec fn after_back_data(self, metrics: SessionMetrics, res: SocketResult) -> (
        PipeModel,
        SessionMetrics,
        Report,
    ) {
        if res == SocketResult::Closed && !self.goes_on() {
            (self.at_rest(), metrics.stopped(), Report::ended())
        } else if res == SocketResult::Error {
            (self.at_rest(), metrics.stopped(), Report::failed(AccessError::BackRead))
        } else {
            (self, metrics, Report::going_on())
        }
    }

    /// After the backend was to be read. There is nothing in `got` where the buffer has no room or
    /// there is no backend.
    pub open spec fn after_back_read(
        self,
        metrics: SessionMetrics,
        got: Option<(Seq<u8>, SocketResult)>,
    ) -> (PipeModel, SessionMetrics, Report) {
        let pipe = self.with_timeouts(TimerOrder::Reset);
        match got {
            None => if pipe.backend_buffer.space() == 0 {
                (
                    PipeModel {
                        backend_readiness: pipe.backend_readiness.without_interest(read()),
                        ..pipe
                    },
                    metrics,
                    Report::going_on(),
                )
            } else {
                (pipe, metrics, Report::going_on())
            },
            Some((bytes, res)) => pipe.with_back_data(bytes, res).after_back_data(
                SessionMetrics {
                    backend_bin: (metrics.backend_bin + bytes.len()) as usize,
                    ..metrics
                },
                res,
            ),
        }
    }

    /// After the backend hung up. What it has sent is still forwarded.
    pub open spec fn after_back_hup(self) -> (PipeModel, Report) {
        let pipe = PipeModel { backend_status: ConnectionStatus::Closed, ..self };
        let more = pipe.backend_readiness.event.readable;
        if pipe.backend_buffer.data.len() == 0 && !more {
            (pipe, Report::ended())
        } else {
            (
                PipeModel {
                    backend_readiness: if more {
                        pipe.backend_readiness.with_interest(read())
                    } else {
                        pipe.backend_readiness
                    },
                    frontend_readiness: if pipe.backend_buffer.data.len() > 0 {
                        pipe.frontend_readiness.with_interest(write())
                    } else {
                        pipe.frontend_readiness
                    },
                    ..pipe
                },
                Report::going_on(),
            )
        }
    }

    /// After a timer went off.
    pub open spec fn after_timeout(self, token: Token) -> (PipeModel, Report) {
        let forgotten = |timeout: Option<TimeoutContainer>|
            match timeout {
                Some(_) => Some(TimeoutContainer { order: TimerOrder::Forget }),
                None => None,
            };
        if self.frontend_token == token {
            (
                PipeModel { frontend_timeout: forgotten(self.frontend_timeout), ..self },
                Report::timed_out(AccessError::FrontTimeout),
            )
        } else if self.backend_token == Some(token) {
            (
                PipeModel { backend_timeout: forgotten(self.backend_timeout), ..self },
                Report::timed_out(AccessError::BackTimeout),
            )
        } else {
            (self, Report::timed_out(AccessError::InvalidToken))
        }
    }
}

impl Pipe {
    /// Drops all events and interests.
    fn rest(&mut self)
        ensures
            final(self)@ == old(self)@.at_rest(),
    {
        self.frontend_readiness.reset();
        self.backend_readiness.reset();
    }

    /// The frontend hung up.
    pub fn frontend_hup(&mut self) -> (r: Report)
        ensures
            final(self)@ == (PipeModel {
                frontend_status: ConnectionStatus::Closed,
                ..old(self)@
            }),
            r == Report::ended(),
    {
        self.frontend_status = ConnectionStatus::Closed;
        Report::end()
    }

    /// The backend hung up.
    pub fn backend_hup(&mut self) -> (r: Report)
        ensures
            (final(self)@, r) == old(self)@.after_back_hup(),
    {
        self.backend_status = ConnectionStatus::Closed;
        if self.backend_buffer.available_data() == 0 {
            if self.backend_readiness.event.readable {
                self.backend_readiness = self.backend_readiness.interested_in(Ready::readable());
                Report::go_on()
            } else {
                Report::end()
            }
        } else {
            self.frontend_readiness = self.frontend_readiness.interested_in(Ready::writable());
            if self.backend_readiness.event.readable {
                self.backend_readiness = self.backend_readiness.interested_in(Ready::readable());
            }
            Report::go_on()
        }
    }

    /// The room for data of the frontend.
    pub fn room_for_frontend(&self) -> (r: usize)
        ensures
            r == self@.frontend_buffer.space(),
    {
        self.frontend_buffer.available_space()
    }

    /// The room for data of the backend.
    pub fn room_for_backend(&self) -> (r: usize)
        ensures
            r == self@.backend_buffer.space(),
    {
        self.backend_buffer.available_space()
    }

    fn take_front_data(&mut self, bytes: &Vec<u8>, res: SocketResult)
        requires
            bytes@.len() <= old(self)@.frontend_buffer.space(),
        ensures
            final(self)@ == old(self)@.with_front_data(bytes@, res),
    {
        if bytes.len() > 0 {
            self.frontend_buffer.fill(bytes);
            let room = self.frontend_buffer.available_space();
            if room == 0 {
                self.frontend_readiness = self.frontend_readiness.bored_by(Ready::readable());
            }
            self.backend_readiness = self.backend_readiness.interested_in(Ready::writable());
        } else {
            self.frontend_readiness = self.frontend_readiness.done_with(Ready::readable());
            if res == SocketResult::Continue {
                self.frontend_status = self.frontend_status.stop_reading();
            }
        }
    }

    fn settle_front_read(&mut self, metrics: &mut SessionMetrics, res: SocketResult) -> (r: Report)
        ensures
            (final(self)@, *final(metrics), r) == old(self)@.after_front_data(*old(metrics), res),
    {
        if !self.check_connections() {
            metrics.service_stop();
            self.rest();
            return Report::end();
        }
        match res {
            SocketResult::Error => {
                metrics.service_stop();
                self.rest();
                return Report::fail(AccessError::FrontRead);
            },
            SocketResult::Closed => {
                metrics.service_stop();
                self.rest();
                return Report::end();
            },
            SocketResult::WouldBlock => {
                self.frontend_readiness = self.frontend_readiness.done_with(Ready::readable());
            },
            SocketResult::Continue => {},
        }
        self.backend_readiness = self.backend_readiness.interested_in(Ready::writable());
        Report::go_on()
    }

    /// Takes in what was read from the frontend. Nothing is read where there is no room.
    pub fn readable(
        &mut self,
        metrics: &mut SessionMetrics,
        got: Option<(Vec<u8>, SocketResult)>,
    ) -> (r: Report)
        requires
            match got {
                None => old(self)@.frontend_buffer.space() == 0,
                Some((bytes, _)) => 0 < old(self)@.frontend_buffer.space() && bytes@.len() <= old(
                    self,
                )@.frontend_buffer.space() && old(metrics).bin + bytes@.len() <= usize::MAX,
            },
        ensures
            (final(self)@, *final(metrics), r) == old(self)@.after_front_read(
                *old(metrics),
                match got {
                    None => None,
                    Some((bytes, res)) => Some((bytes@, res)),
                },
            ),
    {
        self.reset_timeouts();
        match got {
            None => {
                self.frontend_readiness = self.frontend_readiness.bored_by(Ready::readable());
                self.backend_readiness = self.backend_readiness.interested_in(Ready::writable());
                Report::go_on()
            },
            Some((bytes, res)) => {
                self.take_front_data(&bytes, res);
                metrics.bin = metrics.bin + bytes.len();
                self.settle_front_read(metrics, res)
            },
        }
    }

    /// Looks for something to write to the frontend.
    pub fn start_writing(&mut self, metrics: &SessionMetrics) -> (r: WriteStep)
        ensures
            (final(self)@, *metrics, r) == old(self)@.before_front_write(*metrics),
    {
        if self.backend_buffer.available_data() == 0 {
            self.backend_readiness = self.backend_readiness.interested_in(Ready::readable());
            self.frontend_readiness = self.frontend_readiness.bored_by(Ready::writable());
            return WriteStep::Done(Report::go_on());
        }
        WriteStep::More { sent: 0 }
    }

    /// Goes on after `n` bytes of [`Pipe::data_for_frontend`] were written to the frontend.
    pub fn writable(
        &mut self,
        metrics: &mut SessionMetrics,
        sent: usize,
        n: usize,
        res: SocketResult,
    ) -> (r: WriteStep)
        requires
            old(metrics).bout + sent + n <= usize::MAX,
        ensures
            (final(self)@, *final(metrics), r) == old(self)@.after_front_write(
                *old(metrics),
                sent,
                n,
                res,
            ),
    {
        self.backend_buffer.consume(n);
        let sent: usize = sent + n;
        if n == 0 && res == SocketResult::Continue {
            self.frontend_status = self.frontend_status.stop_writing();
        }
        if !self.check_connections() {
            metrics.bout = metrics.bout + sent;
            metrics.service_stop();
            self.rest();
            return WriteStep::Done(Report::end());
        }
        if res == SocketResult::Continue {
            if self.backend_buffer.available_data() == 0 {
                metrics.bout = metrics.bout + sent;
                self.backend_readiness = self.backend_readiness.interested_in(Ready::readable());
                self.frontend_readiness = self.frontend_readiness.bored_by(Ready::writable());
                return WriteStep::Done(Report::go_on());
            }
            return WriteStep::More { sent };
        }
        if sent > 0 {
            self.backend_readiness = self.backend_readiness.interested_in(Ready::readable());
            metrics.bout = metrics.bout + sent;
        }
        match res {
            SocketResult::Error => {
                metrics.service_stop();
                self.rest();
                return WriteStep::Done(Report::fail(AccessError::FrontWrite));
            },
            SocketResult::Closed => {
                metrics.service_stop();
                self.rest();
                return WriteStep::Done(Report::end());
            },
            SocketResult::WouldBlock => {
                self.frontend_readiness = self.frontend_readiness.done_with(Ready::writable());
            },
            SocketResult::Continue => {},
        }
        WriteStep::Done(Report::go_on())
    }

    fn finish_back_writes(&mut self, metrics: &mut SessionMetrics, sent: usize, res: SocketResult)
        -> (r: WriteStep)
        requires
            old(metrics).backend_bout + sent <= usize::MAX,
        ensures
            (final(self)@, *final(metrics), r) == old(self)@.after_back_writes(
                *old(metrics),
                sent,
                res,
            ),
    {
        metrics.backend_bout = metrics.backend_bout + sent;
        if !self.check_connections() {
            metrics.service_stop();
            self.rest();
            return WriteStep::Done(Report::end());
        }
        match res {
            SocketResult::Error => {
                metrics.service_stop();
                self.rest();
                return WriteStep::Done(Report::fail(AccessError::BackWrite));
            },
            SocketResult::Closed => {
                metrics.service_stop();
                self.rest();
                return WriteStep::Done(Report::end());
            },
            SocketResult::WouldBlock => {
                self.backend_readiness = self.backend_readiness.done_with(Ready::writable());
            },
            SocketResult::Continue => {},
        }
        WriteStep::Done(Report::go_on())
    }

    /// Looks for something to write to the backend.
    pub fn start_backend_writing(&mut self, metrics: &mut SessionMetrics) -> (r: WriteStep)
        ensures
            (final(self)@, *final(metrics), r) == old(self)@.before_back_write(*old(metrics)),
    {
        if self.frontend_buffer.available_data() == 0 {
            self.frontend_readiness = self.frontend_readiness.interested_in(Ready::readable());
            self.backend_readiness = self.backend_readiness.bored_by(Ready::writable());
            return WriteStep::Done(Report::go_on());
        }
        if !self.backend {
            return self.finish_back_writes(metrics, 0, SocketResult::Continue);
        }
        WriteStep::More { sent: 0 }
    }

    /// Goes on after `n` bytes of [`Pipe::data_for_backend`] were written to the backend.
    pub fn backend_writable(
        &mut self,
        metrics: &mut SessionMetrics,
        sent: usize,
        n: usize,
        res: SocketResult,
    ) -> (r: WriteStep)
        requires
            old(metrics).backend_bout + sent + n <= usize::MAX,
        ensures
            (final(self)@, *final(metrics), r) == old(self)@.after_back_write(
                *old(metrics),
                sent,
                n,
                res,
            ),
    {
        self.frontend_buffer.consume(n);
        let sent: usize = sent + n;
        if n == 0 && res == SocketResult::Continue {
            self.backend_status = self.backend_status.stop_writing();
        }
        if res != SocketResult::Continue {
            return self.finish_back_writes(metrics, sent, res);
        }
        if self.frontend_buffer.available_data() == 0 {
            self.frontend_readiness = self.frontend_readiness.interested_in(Ready::readable());
            self.backend_readiness = self.backend_readiness.bored_by(Ready::writable());
            return WriteStep::Done(Report::go_on());
        }
        WriteStep::More { sent }
    }

    fn take_back_data(&mut self, bytes: &Vec<u8>, res: SocketResult)
        requires
            bytes@.len() <= old(self)@.backend_buffer.space(),
        ensures
            final(self)@ == old(self)@.with_back_data(bytes@, res),
    {
        self.backend_buffer.fill(bytes);
        if res != SocketResult::Continue || bytes.len() == 0 {
            self.backend_readiness = self.backend_readiness.done_with(Ready::readable());
        }
        if bytes.len() > 0 {
            self.frontend_readiness = self.frontend_readiness.interested_in(Ready::writable());
        }
        if bytes.len() == 0 && res == SocketResult::Closed {
            self.backend_status = self.backend_status.stop_reading();
        }
    }

    /// Takes in what was read from the backend. Nothing is read where there is no room or no
    /// backend.
    pub fn backend_readable(
        &mut self,
        metrics: &mut SessionMetrics,
        got: Option<(Vec<u8>, SocketResult)>,
    ) -> (r: Report)
        requires
            match got {
                None => old(self)@.backend_buffer.space() == 0 || !old(self)@.backend,
                Some((bytes, _)) => 0 < old(self)@.backend_buffer.space() && old(self)@.backend
                    && bytes@.len() <= old(self)@.backend_buffer.space() && old(metrics).backend_bin
                    + bytes@.len() <= usize::MAX,
            },
        ensures
            (final(self)@, *final(metrics), r) == old(self)@.after_back_read(
                *old(metrics),
                match got {
                    None => None,
                    Some((bytes, res)) => Some((bytes@, res)),
                },
            ),
    {
        self.reset_timeouts();
        match got {
            None => {
                if self.backend_buffer.available_space() == 0 {
                    self.backend_readiness = self.backend_readiness.bored_by(Ready::readable());
                }
                Report::go_on()
            },
            Some((bytes, res)) => {
                self.take_back_data(&bytes, res);
                metrics.backend_bin = metrics.backend_bin + bytes.len();
                match res {
                    SocketResult::Error => {
                        metrics.service_stop();
                        self.rest();
                        Report::fail(AccessError::BackRead)
                    },
                    SocketResult::Closed => {
                        if !self.check_connections() {
                            metrics.service_stop();
                            self.rest();
                            return Report::end();
                        }
                        Report::go_on()
                    },
                    _ => Report::go_on(),
                }
            },
        }
    }

    /// The timer of a token went off.
    pub fn timeout(&mut self, token: Token) -> (r: Report)
        ensures
            (final(self)@, r) == old(self)@.after_timeout(token),
    {
        if self.frontend_token == token {
            if let Some(timeout) = &mut self.frontend_timeout {
                timeout.triggered();
            }
            Report::time_out(AccessError::FrontTimeout)
        } else if self.backend_token == Some(token) {
            if let Some(timeout) = &mut self.backend_timeout {
                timeout.triggered();
            }
            Report::time_out(AccessError::BackTimeout)
        } else {
            Report::time_out(AccessError::InvalidToken)
        }
    }
}

} // verus!
