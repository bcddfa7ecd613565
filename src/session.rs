//! One injection run as a state machine. The caller performs each call that
//! the machine asks for (open the device, inject one byte, close the device)
//! and reports how it went; the machine decides what comes next. It opens the
//! device once, injects the bytes in order, stops at the first refused byte,
//! and closes the device on every path on which it was opened.

use vstd::prelude::*;
use crate::device_path::{ends_with_terminator, is_valid_path, normalize_path, normalized, valid_path};
use crate::payload::{CARRIAGE_RETURN, ends_with_carriage_return, prepare_payload, prepared};

verus! {

/// Why a run failed.
#[derive(Clone, Copy, Debug, PartialEq, Eq, Structural)]
pub enum InjectError {
    /// The device could not be opened; nothing was injected.
    DeviceOpenFailure,
    /// The device refused a byte; `injected` bytes before it were taken.
    InjectionFailure { injected: usize },
    /// The path names nothing that can be opened: it is empty, or holds a
    /// zero byte before its end.
    InvalidInput,
}

/// A call on the device that the machine asks its caller to perform.
#[derive(Clone, Copy, Debug, PartialEq, Eq, Structural)]
pub enum Call {
    /// Open the device at the normalized path, for reading and writing.
    Open,
    /// Push one byte into the terminal's input queue.
    Inject(u8),
    /// Release the device.
    Close,
}

/// What the caller reports to the machine.
#[derive(Clone, Copy, Debug, PartialEq, Eq, Structural)]
pub enum Event {
    /// Start the run.
    Begin,
    /// The device was opened.
    Opened,
    /// The open call failed.
    OpenFailed,
    /// The device took the byte.
    Injected,
    /// The device refused the byte.
    InjectFailed,
    /// The device was released.
    Closed,
}

/// What the machine answers: a call to perform, or the run's result.
#[derive(Clone, Copy, Debug, PartialEq, Eq)]
pub enum Step {
    Perform(Call),
    Finish(Result<(), InjectError>),
}

/// Where a run stands.
#[derive(Clone, Copy, Debug, PartialEq, Eq)]
pub enum Stage {
    /// Nothing asked for yet.
    Ready,
    /// The open call is out.
    Opening,
    /// The device is open and the injection of the byte at `sent` is out.
    Injecting,
    /// The close call is out; the run ends with the result held.
    Closing(Result<(), InjectError>),
    /// The run has ended with the result held.
    Done(Result<(), InjectError>),
}

/// Whether the machine in stage `stage` takes event `e`.
pub open spec fn accepts_event(stage: Stage, e: Event) -> bool {
    match stage {
        Stage::Ready => e == Event::Begin,
        Stage::Opening => e == Event::Opened || e == Event::OpenFailed,
        Stage::Injecting => e == Event::Injected || e == Event::InjectFailed,
        Stage::Closing(_) => e == Event::Closed,
        Stage::Done(_) => false,
    }
}

/// The machine's move on event `e`, from stage `stage` with `sent` bytes
/// taken by the device, over `payload`: the next stage, the next count, and
/// the answer.
pub open spec fn next(stage: Stage, sent: nat, payload: Seq<u8>, e: Event) -> (Stage, nat, Step) {
    match stage {
        Stage::Ready => (Stage::Opening, 0, Step::Perform(Call::Open)),
        Stage::Opening => if e == Event::OpenFailed {
            (
                Stage::Done(Err(InjectError::DeviceOpenFailure)),
                0,
                Step::Finish(Err(InjectError::DeviceOpenFailure)),
            )
        } else if payload.len() == 0 {
            (Stage::Closing(Ok(())), 0, Step::Perform(Call::Close))
        } else {
            (Stage::Injecting, 0, Step::Perform(Call::Inject(payload[0])))
        },
        Stage::Injecting => if e == Event::InjectFailed {
            (
                Stage::Closing(Err(InjectError::InjectionFailure { injected: sent as usize })),
                sent,
                Step::Perform(Call::Close),
            )
        } else if sent + 1 == payload.len() {
            (Stage::Closing(Ok(())), sent + 1, Step::Perform(Call::Close))
        } else {
            (Stage::Injecting, sent + 1, Step::Perform(Call::Inject(payload[sent + 1int])))
        },
        Stage::Closing(r) => (Stage::Done(r), sent, Step::Finish(r)),
        Stage::Done(r) => (Stage::Done(r), sent, Step::Finish(r)),
    }
}

/// The bytes of the injection calls in `calls`, in order.
pub open spec fn injected(calls: Seq<Call>) -> Seq<u8>
    decreases calls.len(),
{
    if calls.len() == 0 {
        Seq::empty()
    } else {
        let rest = injected(calls.drop_last());
        match calls.last() {
            Call::Inject(b) => rest.push(b),
            _ => rest,
        }
    }
}

/// How many times `c` occurs in `calls`.
pub open spec fn count(calls: Seq<Call>, c: Call) -> nat
    decreases calls.len(),
{
    if calls.len() == 0 {
        0
    } else {
        count(calls.drop_last(), c) + if calls.last() == c {
            1nat
        } else {
            0nat
        }
    }
}

proof fn lemma_calls_push(calls: Seq<Call>, c: Call)
    ensures
        injected(calls.push(c)) == match c {
            Call::Inject(b) => injected(calls).push(b),
            _ => injected(calls),
        },
        forall|d: Call| #[trigger] count(calls.push(c), d) == count(calls, d) + if c == d {
            1nat
        } else {
            0nat
        },
{
    assert(calls.push(c).drop_last() =~= calls);
}

/// One run of injecting a message into a terminal device.
pub struct Injection {
    path: Vec<u8>,
    payload: Vec<u8>,
    sent: usize,
    stage: Stage,
    data: Ghost<Seq<u8>>,
    new_line: Ghost<bool>,
    calls: Ghost<Seq<Call>>,
}

impl Injection {
    /// The path handed to the open call.
    pub closed spec fn path(&self) -> Seq<u8> {
        self.path@
    }

    /// The bytes to inject, in order.
    pub closed spec fn payload(&self) -> Seq<u8> {
        self.payload@
    }

    /// The message the run was made for.
    pub closed spec fn data(&self) -> Seq<u8> {
        self.data@
    }

    /// Whether the run was asked to end the message as a line.
    pub closed spec fn new_line(&self) -> bool {
        self.new_line@
    }

    /// How many bytes the device has taken.
    pub closed spec fn sent(&self) -> nat {
        self.sent as nat
    }

    pub closed spec fn stage(&self) -> Stage {
        self.stage
    }

    /// Every call that the machine has asked for so far, in order.
    pub closed spec fn calls(&self) -> Seq<Call> {
        self.calls@
    }

    /// How many injection calls have been asked for in the current stage.
    pub open spec fn issued(&self) -> nat {
        match self.stage() {
            Stage::Injecting => self.sent() + 1,
            Stage::Closing(r) | Stage::Done(r) => match r {
                Ok(()) => self.payload().len(),
                Err(InjectError::InjectionFailure { injected }) => injected as nat + 1,
                Err(_) => 0,
            },
            _ => 0,
        }
    }

    /// Whether the device has been opened in this run.
    pub open spec fn opened(&self) -> bool {
        match self.stage() {
            Stage::Ready | Stage::Opening => false,
            Stage::Done(Err(InjectError::DeviceOpenFailure)) => false,
            _ => true,
        }
    }

    /// The machine's invariant. The path is one the open call can take; the
    /// payload is the prepared message; the calls asked for so far are one
    /// open (once it has been asked for), the injections of the payload's
    /// first bytes in order, and one close, last, once the device was opened
    /// and the run is closing or done.
    pub closed spec fn wf(&self) -> bool {
        &&& ends_with_terminator(self.path@)
        &&& valid_path(self.path@)
        &&& self.payload@ == prepared(self.data@, self.new_line@)
        &&& self.sent <= self.payload@.len()
        &&& match self.stage {
            Stage::Ready => self.sent == 0 && self.calls@.len() == 0,
            Stage::Opening => self.sent == 0 && self.calls@ == seq![Call::Open],
            Stage::Injecting => self.sent < self.payload@.len(),
            Stage::Closing(r) | Stage::Done(r) => match r {
                Ok(()) => self.sent == self.payload@.len(),
                Err(InjectError::InjectionFailure { injected }) => injected == self.sent
                    && self.sent < self.payload@.len(),
                Err(InjectError::DeviceOpenFailure) => self.stage is Done && self.sent == 0
                    && self.calls@ == seq![Call::Open],
                Err(InjectError::InvalidInput) => false,
            },
        }
        &&& self.calls@.len() > 0 ==> self.calls@[0] == Call::Open
        &&& self.issued() <= self.payload@.len()
        &&& injected(self.calls@) == self.payload@.take(self.issued() as int)
        &&& count(self.calls@, Call::Open) == if self.stage is Ready {
            0nat
        } else {
            1nat
        }
        &&& count(self.calls@, Call::Close) == if self.opened() && (self.stage is Closing
            || self.stage is Done) {
            1nat
        } else {
            0nat
        }
        &&& (self.opened() && (self.stage is Closing || self.stage is Done)) ==> self.calls@.last()
            == Call::Close
    }

    /// Prepares a run that injects `data`, ended by a carriage return where
    /// `new_line` asks for one, into the terminal at `tty`. Fails with
    /// `InvalidInput` exactly when `tty` names nothing that can be opened.
    pub fn new(tty: Vec<u8>, data: Vec<u8>, new_line: bool) -> (r: Result<Injection, InjectError>)
        ensures
            r is Err <==> !valid_path(tty@),
            r is Err ==> r == Err::<Injection, InjectError>(InjectError::InvalidInput),
            r matches Ok(inj) ==> {
                &&& inj.wf()
                &&& inj.path() == normalized(tty@)
                &&& inj.data() == data@
                &&& inj.new_line() == new_line
                &&& inj.payload() == prepared(data@, new_line)
                &&& inj.stage() == Stage::Ready
                &&& inj.sent() == 0
                &&& inj.calls() == Seq::<Call>::empty()
            },
    {
        if !is_valid_path(&tty) {
            return Err(InjectError::InvalidInput);
        }
        let ghost tty_in = tty@;
        let ghost data_in = data@;
        let path = normalize_path(tty);
        proof {
            crate::device_path::lemma_normalize_keeps_body(tty_in);
        }
        let payload = prepare_payload(data, new_line);
        let inj = Injection {
            path,
            payload,
            sent: 0,
            stage: Stage::Ready,
            data: Ghost(data_in),
            new_line: Ghost(new_line),
            calls: Ghost(Seq::empty()),
        };
        assert(inj.payload@.take(0) =~= Seq::<u8>::empty());
        Ok(inj)
    }

    /// The path to hand to the open call: the given path with its terminator.
    pub fn device_path(&self) -> (r: &Vec<u8>)
        ensures
            r@ == self.path(),
    {
        &self.path
    }

    /// Whether the machine takes event `e` now.
    pub fn accepts(&self, e: Event) -> (r: bool)
        ensures
            r == accepts_event(self.stage(), e),
    {
        match self.stage {
            Stage::Ready => e == Event::Begin,
            Stage::Opening => e == Event::Opened || e == Event::OpenFailed,
            Stage::Injecting => e == Event::Injected || e == Event::InjectFailed,
            Stage::Closing(_) => e == Event::Closed,
            Stage::Done(_) => false,
        }
    }

    /// Takes the caller's report `e` and answers with the next call to
    /// perform, or with the run's result once the device is released (or was
    /// never opened). Each call asked for is added to the record of calls.
    pub fn step(&mut self, e: Event) -> (r: Step)
        requires
            old(self).wf(),
            accepts_event(old(self).stage(), e),
        ensures
            final(self).wf(),
            (final(self).stage(), final(self).sent(), r) == next(
                old(self).stage(),
                old(self).sent(),
                old(self).payload(),
                e,
            ),
            final(self).calls() == match r {
                Step::Perform(c) => old(self).calls().push(c),
                Step::Finish(_) => old(self).calls(),
            },
            final(self).path() == old(self).path(),
            final(self).payload() == old(self).payload(),
            final(self).data() == old(self).data(),
            final(self).new_line() == old(self).new_line(),
    {
        let ghost before = self.calls@;
        let r = match self.stage {
            Stage::Ready => {
                self.stage = Stage::Opening;
                Step::Perform(Call::Open)
            },
            Stage::Opening => {
                if e == Event::OpenFailed {
                    self.stage = Stage::Done(Err(InjectError::DeviceOpenFailure));
                    Step::Finish(Err(InjectError::DeviceOpenFailure))
                } else if self.payload.len() == 0 {
                    self.stage = Stage::Closing(Ok(()));
                    Step::Perform(Call::Close)
                } else {
                    self.stage = Stage::Injecting;
                    Step::Perform(Call::Inject(self.payload[0]))
                }
            },
            Stage::Injecting => {
                if e == Event::InjectFailed {
                    self.stage = Stage::Closing(Err(InjectError::InjectionFailure { injected: self.sent }));
                    Step::Perform(Call::Close)
                } else if self.sent == self.payload.len() - 1 {
                    self.sent = self.sent + 1;
                    self.stage = Stage::Closing(Ok(()));
                    Step::Perform(Call::Close)
                } else {
                    self.sent = self.sent + 1;
                    Step::Perform(Call::Inject(self.payload[self.sent]))
                }
            },
            Stage::Closing(r) => {
                self.stage = Stage::Done(r);
                Step::Finish(r)
            },
            Stage::Done(r) => Step::Finish(r),
        };
        proof {
            if let Step::Perform(c) = r {
                self.calls@ = before.push(c);
                lemma_calls_push(before, c);
                if c == Call::Open {
                    assert(before.push(c) =~= seq![Call::Open]);
                }
            }
            assert(self.payload@.take(self.issued() as int) =~= match r {
                Step::Perform(Call::Inject(b)) => self.payload@.take(self.issued() - 1).push(b),
                _ => self.payload@.take(self.issued() as int),
            });
        }
        r
    }
}

/// A finished run has handed the device the message's bytes in order, ended
/// by a carriage return exactly when one was asked for and the message did
/// not already end with one: all of them on success; on a refused byte, those
/// before it and then the refused one; none when the device did not open.
pub proof fn lemma_run_injects_message(inj: &Injection)
    requires
        inj.wf(),
        inj.stage() is Done,
    ensures
        ({
            let expected = if inj.new_line() && !ends_with_carriage_return(inj.data()) {
                inj.data().push(CARRIAGE_RETURN)
            } else {
                inj.data()
            };
            &&& inj.stage()->Done_0 is Ok ==> injected(inj.calls()) == expected
            &&& inj.stage() matches Stage::Done(Err(InjectError::InjectionFailure { injected: k }))
                ==> k < expected.len() && injected(inj.calls()) == expected.take(k + 1)
            &&& inj.stage() == Stage::Done(Err::<(), InjectError>(InjectError::DeviceOpenFailure))
                ==> injected(inj.calls()) == Seq::<u8>::empty()
        }),
{
    assert(inj.payload().take(inj.payload().len() as int) =~= inj.payload());
    assert(inj.payload().take(0) =~= Seq::<u8>::empty());
}

/// An empty message with a line asked for makes the device take a lone
/// carriage return once it is open; without a line asked for, nothing is
/// injected and the run cannot fail on an injection.
pub proof fn lemma_empty_message(inj: &Injection)
    requires
        inj.wf(),
        inj.stage() is Done,
        inj.data().len() == 0,
    ensures
        inj.new_line() && inj.opened() ==> injected(inj.calls()) == seq![CARRIAGE_RETURN],
        !inj.new_line() ==> injected(inj.calls()) == Seq::<u8>::empty(),
        !inj.new_line() ==> inj.stage()->Done_0 is Ok || inj.stage()->Done_0 == Err::<(), InjectError>(
            InjectError::DeviceOpenFailure,
        ),
{
    crate::payload::lemma_prepared_empty();
    assert(inj.payload().take(0) =~= Seq::<u8>::empty());
    assert(seq![CARRIAGE_RETURN].take(1) =~= seq![CARRIAGE_RETURN]);
    if !inj.new_line() {
        assert(inj.payload().len() == 0);
    }
}

/// Every finished run opened the device once, as its first call. Where the
/// open failed nothing else was asked for and no close either; on every other
/// path the device was closed exactly once, as the last call.
pub proof fn lemma_device_released_once(inj: &Injection)
    requires
        inj.wf(),
        inj.stage() is Done,
    ensures
        count(inj.calls(), Call::Open) == 1,
        inj.calls()[0] == Call::Open,
        inj.stage() == Stage::Done(Err::<(), InjectError>(InjectError::DeviceOpenFailure)) ==> {
            &&& inj.calls() == seq![Call::Open]
            &&& count(inj.calls(), Call::Close) == 0
        },
        inj.stage() != Stage::Done(Err::<(), InjectError>(InjectError::DeviceOpenFailure)) ==> {
            &&& count(inj.calls(), Call::Close) == 1
            &&& inj.calls().last() == Call::Close
        },
{
    if inj.calls().len() == 0 {
        assert(count(inj.calls(), Call::Open) == 0);
    }
}

} // verus!
