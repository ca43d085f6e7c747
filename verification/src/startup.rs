//! Startup sequencing: from a resolved configuration to a running engine.
//! The machine decides, step by step, what the process may touch next; the
//! caller performs each returned action and reports what happened. The
//! single-instance guard is consulted before anything else, the encoding
//! label is resolved before any file is opened, and the output is opened
//! last — an unrecognized label or a duplicate instance therefore stops the
//! process before it opens the output or creates any directory.

use vstd::prelude::*;

use crate::config::Config;
use crate::encoding::{label_known, Decoder};
use crate::engine::Engine;
use crate::position::{initial_cursor, resolved_cursor};

verus! {

/// Why startup stopped instead of reaching the tailing loop.
#[derive(Clone, Copy, Debug)]
pub enum ExitReason {
    /// Another instance with the identical configuration already runs.
    DuplicateInstance,
    /// The configured encoding label names no supported encoding.
    UnsupportedEncoding,
    /// The input file could not be opened for reading.
    InputUnavailable,
    /// The output file could not be opened for appending.
    OutputUnavailable,
}

/// Where in the startup sequence the machine stands.
#[derive(Clone, Copy, Debug, PartialEq, Eq, Structural)]
pub enum StartPhase {
    CheckingGuard,
    OpeningInput,
    ReadingPosition,
    OpeningOutput,
    Ready,
    Stopped,
}

/// What the caller observed while performing the last action.
pub enum StartEvent {
    /// Whether this process is the only instance under its fingerprint.
    GuardChecked(bool),
    /// Whether the input file opened for reading.
    InputOpened(bool),
    /// The position record's bytes, or None when there is no readable record.
    PositionRecord(Option<Vec<u8>>),
    /// Whether the output file opened for appending.
    OutputOpened(bool),
}

/// What the caller must do next.
pub enum StartAction {
    /// Acquire the instance lock under the configuration's fingerprint and
    /// report whether this process is the only holder.
    CheckGuard,
    /// Open the input file for reading.
    OpenInput,
    /// Read the position record.
    ReadPositionRecord,
    /// Create the output's parent directory if missing and open the output
    /// for appending.
    OpenOutput,
    /// Seek the input to the machine's cursor and run the engine.
    BeginTailing,
    /// Stop the process with the reason's exit status.
    Terminate(ExitReason),
}

/// Which observation each phase is waiting for.
pub open spec fn event_expected(phase: StartPhase, ev: StartEvent) -> bool {
    match ev {
        StartEvent::GuardChecked(_) => phase is CheckingGuard,
        StartEvent::InputOpened(_) => phase is OpeningInput,
        StartEvent::PositionRecord(_) => phase is ReadingPosition,
        StartEvent::OutputOpened(_) => phase is OpeningOutput,
    }
}

/// The startup machine: the configuration, the phase, and what has been
/// resolved so far.
pub struct Startup {
    cfg: Config,
    phase: StartPhase,
    decoder: Option<Decoder>,
    cursor: u64,
}

impl Startup {
    pub closed spec fn phase(self) -> StartPhase {
        self.phase
    }

    pub closed spec fn cfg(self) -> Config {
        self.cfg
    }

    pub closed spec fn cursor(self) -> u64 {
        self.cursor
    }

    /// Past the guard-and-resolve step, the machine always carries a decode
    /// capability for the configured label — in particular, the label is
    /// recognized in every phase that touches a file.
    pub closed spec fn wf(self) -> bool {
        (self.phase is OpeningInput || self.phase is ReadingPosition || self.phase
            is OpeningOutput || self.phase is Ready) ==> (self.decoder matches Option::Some(d)
            && d.wf() && d.label() == self.cfg.encoding@)
    }

    /// A fresh machine for one invocation: nothing touched yet.
    pub fn new(cfg: Config) -> (r: Startup)
        ensures
            r.wf(),
            r.phase() is CheckingGuard,
            r.cfg() == cfg,
    {
        Startup { cfg, phase: StartPhase::CheckingGuard, decoder: Option::None, cursor: 0 }
    }

    /// The first thing a process does: consult the guard, before any file is
    /// touched.
    pub fn first_action(&self) -> (a: StartAction)
        requires
            self.phase() is CheckingGuard,
        ensures
            a is CheckGuard,
    {
        StartAction::CheckGuard
    }

    /// One startup step. A duplicate instance and an unrecognized encoding
    /// label each stop the machine at once with their reason; OpenOutput and
    /// BeginTailing are only ever returned when the label is recognized, so
    /// an encoding rejection always precedes any write-side file action.
    pub fn on_event(&mut self, ev: StartEvent) -> (a: StartAction)
        requires
            old(self).wf(),
            event_expected(old(self).phase(), ev),
        ensures
            final(self).wf(),
            final(self).cfg() == old(self).cfg(),
            ev matches StartEvent::GuardChecked(single) && !single ==> (a matches
                StartAction::Terminate(r) && r is DuplicateInstance && final(self).phase()
                is Stopped),
            ev matches StartEvent::GuardChecked(single) && single && !label_known(
                old(self).cfg().encoding@,
            ) ==> (a matches StartAction::Terminate(r) && r is UnsupportedEncoding
                && final(self).phase() is Stopped),
            ev matches StartEvent::GuardChecked(single) && single && label_known(
                old(self).cfg().encoding@,
            ) ==> a is OpenInput && final(self).phase() is OpeningInput,
            ev matches StartEvent::InputOpened(ok) && !ok ==> (a matches StartAction::Terminate(r)
                && r is InputUnavailable && final(self).phase() is Stopped),
            ev matches StartEvent::InputOpened(ok) && ok ==> a is ReadPositionRecord
                && final(self).phase() is ReadingPosition,
            ev matches StartEvent::PositionRecord(rec) ==> a is OpenOutput && final(self).phase()
                is OpeningOutput && final(self).cursor() == resolved_cursor(
                match rec {
                    Option::None => Option::None,
                    Option::Some(v) => Option::Some(v@),
                },
            ),
            ev matches StartEvent::OutputOpened(ok) && !ok ==> (a matches StartAction::Terminate(r)
                && r is OutputUnavailable && final(self).phase() is Stopped),
            ev matches StartEvent::OutputOpened(ok) && ok ==> a is BeginTailing
                && final(self).phase() is Ready,
            !(ev is PositionRecord) ==> final(self).cursor() == old(self).cursor(),
            a is OpenInput || a is OpenOutput || a is BeginTailing ==> label_known(
                old(self).cfg().encoding@,
            ),
    {
        match ev {
            StartEvent::GuardChecked(single) => {
                if !single {
                    self.phase = StartPhase::Stopped;
                    StartAction::Terminate(ExitReason::DuplicateInstance)
                } else {
                    match Decoder::resolve(self.cfg.encoding.as_str()) {
                        Result::Ok(d) => {
                            self.decoder = Option::Some(d);
                            self.phase = StartPhase::OpeningInput;
                            StartAction::OpenInput
                        },
                        Result::Err(_) => {
                            self.phase = StartPhase::Stopped;
                            StartAction::Terminate(ExitReason::UnsupportedEncoding)
                        },
                    }
                }
            },
            StartEvent::InputOpened(ok) => {
                if ok {
                    self.phase = StartPhase::ReadingPosition;
                    StartAction::ReadPositionRecord
                } else {
                    self.phase = StartPhase::Stopped;
                    StartAction::Terminate(ExitReason::InputUnavailable)
                }
            },
            StartEvent::PositionRecord(rec) => {
                proof {
                    match &self.decoder {
                        Option::Some(d) => crate::encoding::lemma_decoder_label_known(*d),
                        Option::None => (),
                    }
                }
                self.cursor = initial_cursor(&rec);
                self.phase = StartPhase::OpeningOutput;
                StartAction::OpenOutput
            },
            StartEvent::OutputOpened(ok) => {
                proof {
                    match &self.decoder {
                        Option::Some(d) => crate::encoding::lemma_decoder_label_known(*d),
                        Option::None => (),
                    }
                }
                if ok {
                    self.phase = StartPhase::Ready;
                    StartAction::BeginTailing
                } else {
                    self.phase = StartPhase::Stopped;
                    StartAction::Terminate(ExitReason::OutputUnavailable)
                }
            },
        }
    }

    /// Hands the session over to the engine, at the cursor the position
    /// record resolved to.
    pub fn into_engine(self) -> (r: Engine)
        requires
            self.wf(),
            self.phase() is Ready,
        ensures
            r.wf(),
            r.cursor() == self.cursor(),
            r.label() == self.cfg().encoding@,
    {
        match self.decoder {
            Option::Some(d) => Engine::new(d, self.cursor),
            Option::None => vstd::pervasive::unreached(),
        }
    }
}

/// The process exit status for each way startup can stop: the duplicate
/// instance condition has its own distinguished status, every other startup
/// failure shares the general one, and neither is the success status.
pub fn exit_code(reason: &ExitReason) -> (r: u8)
    ensures
        reason is DuplicateInstance <==> r == 2,
        !(reason is DuplicateInstance) ==> r == 1,
        r != 0,
{
    match reason {
        ExitReason::DuplicateInstance => 2,
        ExitReason::UnsupportedEncoding => 1,
        ExitReason::InputUnavailable => 1,
        ExitReason::OutputUnavailable => 1,
    }
}

} // verus!
