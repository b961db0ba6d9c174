//! The recording session: the displays that can be recorded, what is handed
//! to the native capture engine, and the state of the one session that may
//! record.

use crate::error::{class_of, Error, ErrorClass, ErrorKind};
use crate::native::has_nul;
use crate::text::{decimal, format_decimal, lemma_parse_decimal_round_trip, parse_u32, parsed_u32};
use vstd::prelude::*;
use vstd::string::*;

verus! {

/// A display as the operating system lists it.
#[derive(Clone, Copy, Debug, PartialEq, Eq, Structural)]
pub struct Display {
    pub id: u32,
    pub width: u32,
    pub height: u32,
}

/// A display as it is offered for recording.
#[derive(Clone, Debug, PartialEq, Eq)]
pub struct ScreenInfo {
    pub id: String,
    pub name: String,
    pub width: u32,
    pub height: u32,
    pub is_primary: bool,
}

/// The name under which the display at position `i` is offered.
pub open spec fn screen_name(i: nat) -> Seq<char> {
    "Display "@ + decimal(i + 1)
}

impl ScreenInfo {
    /// Whether this is what is offered for `display`, listed at position `i`:
    /// its identifier written in decimal, a name by its position, its size,
    /// and the first of the list as the primary one.
    pub open spec fn describes(&self, display: Display, i: nat) -> bool {
        &&& self.id@ == decimal(display.id as nat)
        &&& self.name@ == screen_name(i)
        &&& self.width == display.width
        &&& self.height == display.height
        &&& self.is_primary == (i == 0)
    }
}

/// Turns the list of active displays into what is offered for recording.
/// `status` is what the operating system said of its listing: zero where
/// it went well. The identifier of each screen is one that `capture_request`
/// reads back as that display.
pub fn get_screens(status: i32, displays: &Vec<Display>) -> (r: Result<Vec<ScreenInfo>, Error>)
    ensures
        r is Ok <==> status == 0,
        match r {
            Ok(screens) => {
                &&& screens@.len() == displays@.len()
                &&& forall|i: int|
                    0 <= i < screens@.len() ==> (#[trigger] screens@[i]).describes(
                        displays@[i],
                        i as nat,
                    )
                &&& forall|i: int|
                    0 <= i < screens@.len() ==> parsed_u32((#[trigger] screens@[i]).id@) == Some(
                        displays@[i].id,
                    )
            },
            Err(e) => e.kind == ErrorKind::EnumerationFailed && e.detail@.len() == 0,
        },
{
    if status != 0 {
        return Err(Error::new(ErrorKind::EnumerationFailed));
    }
    let mut screens: Vec<ScreenInfo> = Vec::new();
    let mut i: usize = 0;
    while i < displays.len()
        invariant
            i <= displays.len(),
            screens@.len() == i,
            forall|k: int|
                0 <= k < i ==> (#[trigger] screens@[k]).describes(displays@[k], k as nat),
            forall|k: int|
                0 <= k < i ==> parsed_u32((#[trigger] screens@[k]).id@) == Some(displays@[k].id),
        decreases displays.len() - i,
    {
        let display = displays[i];
        let mut name = String::from_str("Display ");
        let number = format_decimal((i + 1) as u64);
        name.append(number.as_str());
        proof {
            lemma_parse_decimal_round_trip(display.id);
        }
        screens.push(
            ScreenInfo {
                id: format_decimal(display.id as u64),
                name,
                width: display.width,
                height: display.height,
                is_primary: i == 0,
            },
        );
        i += 1;
    }
    Ok(screens)
}

/// What is handed to the native capture engine to start a recording. The
/// place and size of the picture in the picture are fractions of the frame
/// in millionths.
#[derive(Debug, PartialEq, Eq)]
pub struct CaptureRequest {
    pub display_id: u32,
    pub include_audio: bool,
    pub include_webcam: bool,
    pub pip_shape: i32,
    pub pip_x: u32,
    pub pip_y: u32,
    pub pip_size: u32,
    pub output_path: String,
}

/// The value of an option, or `default` where it is absent.
pub open spec fn or_default<T>(value: Option<T>, default: T) -> T {
    match value {
        Some(v) => v,
        None => default,
    }
}

/// Why no capture can be asked for with this screen identifier and this
/// output path, if so: the identifier has to be a display number, and the
/// path must hold no NUL.
pub open spec fn request_fault(screen_id: Seq<char>, output_path: Seq<char>) -> Option<ErrorKind> {
    if parsed_u32(screen_id) is None {
        Some(ErrorKind::InvalidScreenId)
    } else if output_path.contains('\0') {
        Some(ErrorKind::InvalidOutputPath)
    } else {
        None
    }
}

/// Makes the request for the native capture engine. Where the caller did
/// not say how to draw the picture in the picture, it is drawn as the
/// first shape, in the lower right corner, at a fifth of the frame.
pub fn capture_request(
    screen_id: &str,
    include_audio: bool,
    include_webcam: bool,
    pip_shape: Option<i32>,
    pip_x: Option<u32>,
    pip_y: Option<u32>,
    pip_size: Option<u32>,
    output_path: &str,
) -> (r: Result<CaptureRequest, Error>)
    ensures
        match r {
            Ok(request) => {
                &&& request_fault(screen_id@, output_path@) is None
                &&& Some(request.display_id) == parsed_u32(screen_id@)
                &&& request.include_audio == include_audio
                &&& request.include_webcam == include_webcam
                &&& request.pip_shape == or_default(pip_shape, 0)
                &&& request.pip_x == or_default(pip_x, 800_000)
                &&& request.pip_y == or_default(pip_y, 800_000)
                &&& request.pip_size == or_default(pip_size, 200_000)
                &&& request.output_path@ == output_path@
            },
            Err(e) => request_fault(screen_id@, output_path@) == Some(e.kind) && e.detail@.len()
                == 0,
        },
{
    let display_id: u32 = match parse_u32(screen_id) {
        Some(id) => id,
        None => {
            return Err(Error::new(ErrorKind::InvalidScreenId));
        },
    };
    if has_nul(output_path) {
        return Err(Error::new(ErrorKind::InvalidOutputPath));
    }
    Ok(
        CaptureRequest {
            display_id,
            include_audio,
            include_webcam,
            pip_shape: match pip_shape {
                Some(shape) => shape,
                None => 0,
            },
            pip_x: match pip_x {
                Some(x) => x,
                None => 800_000,
            },
            pip_y: match pip_y {
                Some(y) => y,
                None => 800_000,
            },
            pip_size: match pip_size {
                Some(size) => size,
                None => 200_000,
            },
            output_path: String::from_str(output_path),
        },
    )
}

/// What the native capture engine answers to a start or a stop. The
/// message has been read out of its buffer.
#[derive(Debug, PartialEq, Eq)]
pub struct CaptureResult {
    pub success: bool,
    pub error_message: String,
}

/// The one recording session.
#[derive(Debug, PartialEq, Eq)]
pub struct RecordingState {
    pub is_recording: bool,
    /// Where the recording goes, while there is one.
    pub output_path: Option<String>,
}

/// The recording session as a mathematical value.
pub struct Session {
    pub recording: bool,
    pub path: Option<Seq<char>>,
}

/// One use of the session, together with what the native engine answers
/// if it is asked.
pub enum Call {
    Start { path: Seq<char>, native_ok: bool },
    Stop { native_ok: bool },
}

impl Session {
    /// The session at rest.
    pub open spec fn idle() -> Session {
        Session { recording: false, path: None }
    }

    /// Whether the session has its path exactly while it records.
    pub open spec fn wf(self) -> bool {
        self.recording == self.path is Some
    }

    /// Why the session turns a start away, if it does: it starts only at
    /// rest.
    pub open spec fn start_refusal(self) -> Option<ErrorKind> {
        if self.recording {
            Some(ErrorKind::AlreadyRecording)
        } else {
            None
        }
    }

    /// Why the session turns a stop away, if it does: it stops only while
    /// recording.
    pub open spec fn stop_refusal(self) -> Option<ErrorKind> {
        if self.recording {
            None
        } else {
            Some(ErrorKind::NotRecording)
        }
    }

    /// Why the session turns the call away without asking the native
    /// engine, if it does.
    pub open spec fn refusal(self, call: Call) -> Option<ErrorKind> {
        match call {
            Call::Start { .. } => self.start_refusal(),
            Call::Stop { .. } => self.stop_refusal(),
        }
    }

    /// Whether the call gets as far as the native engine.
    pub open spec fn asks_native(self, call: Call) -> bool {
        self.refusal(call) is None
    }

    /// Whether the call succeeds: the session lets it through and the
    /// native engine does its part.
    pub open spec fn succeeds(self, call: Call) -> bool {
        self.asks_native(call) && match call {
            Call::Start { native_ok, .. } => native_ok,
            Call::Stop { native_ok } => native_ok,
        }
    }

    /// The session after the call: changed by a call that succeeds, and by
    /// no other.
    pub open spec fn after(self, call: Call) -> Session {
        if self.succeeds(call) {
            match call {
                Call::Start { path, .. } => Session { recording: true, path: Some(path) },
                Call::Stop { .. } => Session::idle(),
            }
        } else {
            self
        }
    }

    /// The session after all of `calls`, in order.
    pub open spec fn after_all(self, calls: Seq<Call>) -> Session
        decreases calls.len(),
    {
        if calls.len() == 0 {
            self
        } else {
            self.after_all(calls.drop_last()).after(calls.last())
        }
    }
}

impl View for RecordingState {
    type V = Session;

    open spec fn view(&self) -> Session {
        Session {
            recording: self.is_recording,
            path: match self.output_path {
                Some(p) => Some(p@),
                None => None,
            },
        }
    }
}

impl RecordingState {
    /// Whether the session has its path exactly while it records.
    pub open spec fn wf(&self) -> bool {
        self@.wf()
    }

    /// Tells whether the session has its path exactly while it records.
    pub fn is_well_formed(&self) -> (b: bool)
        ensures
            b == self.wf(),
    {
        self.is_recording == self.output_path.is_some()
    }

    /// The session at rest.
    pub fn new() -> (state: RecordingState)
        ensures
            state@ == Session::idle(),
            state.wf(),
    {
        RecordingState { is_recording: false, output_path: None }
    }

    /// Decides whether a start may go on to the native engine: not while a
    /// recording is in progress.
    pub fn admit_start(&self) -> (r: Result<(), Error>)
        ensures
            r is Ok <==> !self.is_recording,
            match r {
                Ok(_) => self@.start_refusal() is None,
                Err(e) => self@.start_refusal() == Some(e.kind) && e.detail@.len() == 0,
            },
    {
        if self.is_recording {
            Err(Error::new(ErrorKind::AlreadyRecording))
        } else {
            Ok(())
        }
    }

    /// Takes the native engine's answer to a start that records to
    /// `output_path`. Where the engine started, the session records from
    /// now on, and the path is handed back. Where it did not, or another
    /// recording has begun in the meantime, the session stays as it was.
    pub fn commit_start(&mut self, output_path: String, answer: &CaptureResult) -> (r: Result<
        String,
        Error,
    >)
        requires
            old(self).wf(),
        ensures
            final(self).wf(),
            final(self)@ == old(self)@.after(
                Call::Start { path: output_path@, native_ok: answer.success },
            ),
            match r {
                Ok(path) => {
                    &&& !old(self).is_recording
                    &&& answer.success
                    &&& path@ == output_path@
                    &&& final(self)@ == (Session { recording: true, path: Some(output_path@) })
                },
                Err(e) => {
                    &&& *final(self) == *old(self)
                    &&& if old(self).is_recording {
                        e.kind == ErrorKind::AlreadyRecording && e.detail@.len() == 0
                    } else {
                        !answer.success && e.kind == ErrorKind::NativeStartFailed && e.detail@
                            == answer.error_message@
                    }
                },
            },
    {
        if self.is_recording {
            return Err(Error::new(ErrorKind::AlreadyRecording));
        }
        if !answer.success {
            return Err(
                Error::with_detail(ErrorKind::NativeStartFailed, answer.error_message.as_str()),
            );
        }
        self.is_recording = true;
        self.output_path = Some(output_path.clone());
        Ok(output_path)
    }

    /// Decides whether a stop may go on to the native engine: only while a
    /// recording is in progress.
    pub fn admit_stop(&self) -> (r: Result<(), Error>)
        ensures
            r is Ok <==> self.is_recording,
            match r {
                Ok(_) => self@.stop_refusal() is None,
                Err(e) => self@.stop_refusal() == Some(e.kind) && e.detail@.len() == 0,
            },
    {
        if self.is_recording {
            Ok(())
        } else {
            Err(Error::new(ErrorKind::NotRecording))
        }
    }

    /// Takes the native engine's answer to a stop. Where the engine
    /// stopped, the session is at rest from now on, and the path of the
    /// recording is handed back. Where it did not, the session goes on
    /// recording, so that the stop can be tried again.
    pub fn commit_stop(&mut self, answer: &CaptureResult) -> (r: Result<String, Error>)
        requires
            old(self).wf(),
        ensures
            final(self).wf(),
            final(self)@ == old(self)@.after(Call::Stop { native_ok: answer.success }),
            match r {
                Ok(path) => {
                    &&& old(self).is_recording
                    &&& answer.success
                    &&& Some(path@) == old(self)@.path
                    &&& final(self)@ == Session::idle()
                },
                Err(e) => {
                    &&& *final(self) == *old(self)
                    &&& if old(self).is_recording {
                        !answer.success && e.kind == ErrorKind::NativeStopFailed && e.detail@
                            == answer.error_message@
                    } else {
                        e.kind == ErrorKind::NotRecording && e.detail@.len() == 0
                    }
                },
            },
    {
        if !self.is_recording {
            return Err(Error::new(ErrorKind::NotRecording));
        }
        if !answer.success {
            return Err(
                Error::with_detail(ErrorKind::NativeStopFailed, answer.error_message.as_str()),
            );
        }
        self.is_recording = false;
        match self.output_path.take() {
            Some(path) => Ok(path),
            None => unreached(),
        }
    }
}

/// Tells whether a recording is in progress: what the native engine says
/// where it can be asked, what the session holds where it cannot.
pub fn check_is_recording(state: &RecordingState, native: Option<bool>) -> (b: bool)
    ensures
        b == or_default(native, state.is_recording),
{
    match native {
        Some(active) => active,
        None => state.is_recording,
    }
}

/// Tells whether the display may be recorded. `native` is what the
/// platform's permission system said of it; a platform without one grants
/// every display. Where there is such a system, a screen identifier that
/// names no display is an error.
pub fn check_screen_recording_permission(screen_id: &str, native: Option<bool>) -> (r: Result<
    bool,
    Error,
>)
    ensures
        match native {
            None => r == Ok::<bool, Error>(true),
            Some(granted) => match r {
                Ok(b) => parsed_u32(screen_id@) is Some && b == granted,
                Err(e) => parsed_u32(screen_id@) is None && e.kind == ErrorKind::InvalidScreenId
                    && e.detail@.len() == 0,
            },
        },
{
    match native {
        None => Ok(true),
        Some(granted) => match parse_u32(screen_id) {
            Some(_) => Ok(granted),
            None => Err(Error::new(ErrorKind::InvalidScreenId)),
        },
    }
}

/// The session at the moment of the call with number `i`: after the calls
/// before it.
pub open spec fn session_before(calls: Seq<Call>, i: int) -> Session {
    Session::idle().after_all(calls.take(i))
}

/// Each call finds the session as the call before it left it.
pub proof fn lemma_session_steps(calls: Seq<Call>, i: int)
    requires
        0 <= i < calls.len(),
    ensures
        session_before(calls, i + 1) == session_before(calls, i).after(calls[i]),
{
    assert(calls.take(i + 1).drop_last() == calls.take(i));
}

/// Whatever is called, and in whatever order, the session has its path
/// exactly while it records.
pub proof fn lemma_session_stays_well_formed(calls: Seq<Call>)
    ensures
        Session::idle().after_all(calls).wf(),
    decreases calls.len(),
{
    if calls.len() > 0 {
        lemma_session_stays_well_formed(calls.drop_last());
    }
}

/// In every sequence of calls, the session records after a start that
/// succeeds and is at rest after a stop that succeeds; a start while it
/// records is turned away as a conflict of state, does not reach the native
/// engine and changes nothing; so is a stop while it is at rest.
pub proof fn lemma_session_follows_calls(calls: Seq<Call>, i: int)
    requires
        0 <= i < calls.len(),
    ensures
        ({
            let before = session_before(calls, i);
            let after = session_before(calls, i + 1);
            &&& before.wf() && after.wf()
            &&& before.succeeds(calls[i]) ==> after.recording == (calls[i] is Start)
            &&& calls[i] is Start && before.recording ==> {
                &&& before.refusal(calls[i]) == Some(ErrorKind::AlreadyRecording)
                &&& !before.asks_native(calls[i])
                &&& after == before
            }
            &&& calls[i] is Stop && !before.recording ==> {
                &&& before.refusal(calls[i]) == Some(ErrorKind::NotRecording)
                &&& !before.asks_native(calls[i])
                &&& after == before
            }
            &&& before.refusal(calls[i]) matches Some(kind) ==> class_of(kind)
                == ErrorClass::StateConflict
        }),
{
    lemma_session_steps(calls, i);
    lemma_session_stays_well_formed(calls.take(i));
    lemma_session_stays_well_formed(calls.take(i + 1));
}

/// A session that records goes on recording until a stop succeeds.
proof fn lemma_recording_lasts(calls: Seq<Call>, i: int, m: int)
    requires
        0 <= i < m <= calls.len(),
        session_before(calls, i + 1).recording,
        forall|k: int|
            i < k < m ==> !(calls[k] is Stop && #[trigger] session_before(calls, k).succeeds(
                calls[k],
            )),
    ensures
        session_before(calls, m).recording,
    decreases m - i,
{
    if m > i + 1 {
        lemma_recording_lasts(calls, i, m - 1);
        lemma_session_steps(calls, m - 1);
        assert(!(calls[m - 1] is Stop && session_before(calls, m - 1).succeeds(calls[m - 1])));
    }
}

/// The native engine is never asked to start twice for one recording:
/// between a start that succeeded and the next start that reaches the
/// engine, a stop has succeeded.
pub proof fn lemma_no_second_native_start(calls: Seq<Call>, i: int, j: int)
    requires
        0 <= i < j < calls.len(),
        calls[i] is Start,
        calls[j] is Start,
        session_before(calls, i).succeeds(calls[i]),
        session_before(calls, j).asks_native(calls[j]),
    ensures
        exists|k: int|
            i < k < j && calls[k] is Stop && #[trigger] session_before(calls, k).succeeds(calls[k]),
{
    lemma_session_steps(calls, i);
    if !(exists|k: int|
        i < k < j && calls[k] is Stop && #[trigger] session_before(calls, k).succeeds(calls[k])) {
        lemma_recording_lasts(calls, i, j);
    }
}

} // verus!
