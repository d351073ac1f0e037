use vstd::prelude::*;

use crate::errors::{Status, WriteError};
use crate::lines::{encode_line, encoded_line, line_clean, lines_of, lemma_no_interleaving};

verus! {

/// What the slot knows: the installed process, whether its input stream is
/// open, and the bytes handed to that stream so far.
#[verifier::ext_equal]
pub struct SlotModel<P> {
    pub proc: Option<P>,
    pub input_open: bool,
    pub sent: Seq<u8>,
}

/// The occupancy a status call reports: only slot presence, the operating
/// system is not probed.
pub open spec fn status_of<P>(m: SlotModel<P>) -> Status {
    if m.proc is Some {
        Status::Running
    } else {
        Status::Stopped
    }
}

/// The outcome a write decides: `NoProcess` on an empty slot, `StreamClosed`
/// when the installed process has no open input stream, otherwise the framed
/// block that goes to the stream.
pub open spec fn write_result<P>(m: SlotModel<P>, data: Seq<u8>) -> Result<Seq<u8>, WriteError> {
    if m.proc is None {
        Err(WriteError::NoProcess)
    } else if !m.input_open {
        Err(WriteError::StreamClosed)
    } else {
        Ok(encoded_line(data))
    }
}

/// How a write changes the slot: a successful one appends its whole frame to
/// the stream, a failed one changes nothing.
pub open spec fn write_state<P>(m: SlotModel<P>, data: Seq<u8>) -> SlotModel<P> {
    if m.proc is Some && m.input_open {
        SlotModel { sent: m.sent + encoded_line(data), ..m }
    } else {
        m
    }
}

/// After terminate the slot is empty and nothing more can be sent.
pub open spec fn terminate_state<P>(m: SlotModel<P>) -> SlotModel<P> {
    SlotModel { proc: None, input_open: false, sent: Seq::empty() }
}

/// After install the slot holds exactly the new process, with a fresh stream.
pub open spec fn install_state<P>(m: SlotModel<P>, p: P, input_open: bool) -> SlotModel<P> {
    SlotModel { proc: Some(p), input_open: input_open, sent: Seq::empty() }
}

/// The single slot that owns at most one live bridge process. `P` is the
/// host's handle to the operating-system process together with its captured
/// input stream; the slot decides every operation, the host performs the
/// input/output it is told to. The host guards the slot with one lock, so
/// write, status, restart and terminate are serialised.
pub struct BridgeProcess<P> {
    proc: Option<P>,
    input_open: bool,
    sent: Ghost<Seq<u8>>,
}

impl<P> View for BridgeProcess<P> {
    type V = SlotModel<P>;

    closed spec fn view(&self) -> SlotModel<P> {
        SlotModel { proc: self.proc, input_open: self.input_open, sent: self.sent@ }
    }
}

impl<P> BridgeProcess<P> {
    /// A slot created at host startup: it holds the first spawn's process, or
    /// nothing when every spawn attempt failed and the host runs without a
    /// bridge. A process handed in here is taken to have its input stream
    /// captured.
    pub fn new(proc: Option<P>) -> (slot: Self)
        ensures
            slot@.proc == proc,
            slot@.input_open == proc is Some,
            slot@.sent == Seq::<u8>::empty(),
    {
        let input_open = proc.is_some();
        BridgeProcess { proc, input_open, sent: Ghost(Seq::empty()) }
    }

    /// Non-blocking read of slot occupancy.
    pub fn status(&self) -> (s: Status)
        ensures
            s == status_of(self@),
    {
        match &self.proc {
            Some(_) => Status::Running,
            None => Status::Stopped,
        }
    }

    /// Decides one write of a command line. On success the returned block —
    /// the payload with its one terminator — is what the host must hand to the
    /// child's input stream, whole and in the order this call was granted the
    /// lock. On an empty slot the call fails with `NoProcess`; on a closed
    /// input stream with `StreamClosed`; neither failure changes the slot.
    pub fn write_line(&mut self, data: &Vec<u8>) -> (r: Result<Vec<u8>, WriteError>)
        ensures
            final(self)@ == write_state(old(self)@, data@),
            (match r {
                Ok(block) => write_result(old(self)@, data@) == Ok::<Seq<u8>, WriteError>(block@),
                Err(e) => write_result(old(self)@, data@) == Err::<Seq<u8>, WriteError>(e),
            }),
    {
        match &self.proc {
            None => Err(WriteError::NoProcess),
            Some(_) => {
                if !self.input_open {
                    Err(WriteError::StreamClosed)
                } else {
                    let block = encode_line(data);
                    proof {
                        self.sent@ = self.sent@ + encoded_line(data@);
                    }
                    Ok(block)
                }
            },
        }
    }

    /// The host found the installed process's input stream missing or broken
    /// (a write to the operating system failed): record that later writes must
    /// fail with `StreamClosed`. The process stays installed; only a restart
    /// replaces it.
    pub fn input_closed(&mut self)
        ensures
            final(self)@ == (SlotModel { input_open: false, ..old(self)@ }),
    {
        self.input_open = false;
    }

    /// Empties the slot, handing back the process — if one is installed — for
    /// the host to terminate. Used on shutdown, and by restart before the
    /// pipeline runs again.
    pub fn terminate(&mut self) -> (p: Option<P>)
        ensures
            p == old(self)@.proc,
            final(self)@ == terminate_state(old(self)@),
    {
        let mut p: Option<P> = None;
        core::mem::swap(&mut p, &mut self.proc);
        self.input_open = false;
        proof {
            self.sent@ = Seq::empty();
        }
        p
    }

    /// Installs a freshly spawned process, returning whatever the slot held —
    /// `None` after a terminate, or a process the host still has to kill. The
    /// host says whether it captured the new process's input stream.
    pub fn install(&mut self, p: P, input_open: bool) -> (prev: Option<P>)
        ensures
            prev == old(self)@.proc,
            final(self)@ == install_state(old(self)@, p, input_open),
    {
        let mut prev: Option<P> = Some(p);
        core::mem::swap(&mut prev, &mut self.proc);
        self.input_open = input_open;
        proof {
            self.sent@ = Seq::empty();
        }
        prev
    }
}

/// Law: on an empty slot every operation answers with the no-process outcome
/// at once — a write returns `NoProcess` and changes nothing, status reports
/// `Stopped`, terminate hands back no process.
pub proof fn lemma_empty_slot_rejects<P>(m: SlotModel<P>, data: Seq<u8>)
    requires
        m.proc is None,
    ensures
        write_result(m, data) == Err::<Seq<u8>, WriteError>(WriteError::NoProcess),
        write_state(m, data) == m,
        status_of(m) == Status::Stopped,
        terminate_state(m).proc is None,
{
}

/// Law: a restart cycle — terminate the installed process, then install the
/// replacement — hands the old process out exactly once, answers `NoProcess`
/// to any write that lands between the two steps, and reports `Running` with
/// the new process installed afterwards.
pub proof fn lemma_restart_cycle<P>(m: SlotModel<P>, p: P, data: Seq<u8>)
    requires
        m.proc is Some,
    ensures
        ({
            let emptied = terminate_state(m);
            let replaced = install_state(emptied, p, true);
            &&& status_of(emptied) == Status::Stopped
            &&& write_result(emptied, data) == Err::<Seq<u8>, WriteError>(WriteError::NoProcess)
            &&& write_state(emptied, data) == emptied
            &&& status_of(replaced) == Status::Running
            &&& replaced.proc == Some(p)
        }),
{
}

/// Law: writes are serialised by the slot's lock, so two commands extend the
/// stream with two whole frames, in whichever order the lock granted them, and
/// the stream decodes back to exactly those two commands — never to an
/// interleaving of their bytes.
pub proof fn lemma_writes_not_interleaved<P>(m: SlotModel<P>, a: Seq<u8>, b: Seq<u8>)
    requires
        m.proc is Some,
        m.input_open,
        m.sent == Seq::<u8>::empty(),
        line_clean(a),
        line_clean(b),
    ensures
        write_state(write_state(m, a), b).sent == encoded_line(a) + encoded_line(b),
        lines_of(write_state(write_state(m, a), b).sent) == seq![a, b],
        write_state(write_state(m, b), a).sent == encoded_line(b) + encoded_line(a),
        lines_of(write_state(write_state(m, b), a).sent) == seq![b, a],
{
    lemma_no_interleaving(a, b);
    assert(write_state(write_state(m, a), b).sent =~= encoded_line(a) + encoded_line(b));
    assert(write_state(write_state(m, b), a).sent =~= encoded_line(b) + encoded_line(a));
}

} // verus!
