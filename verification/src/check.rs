//! The response-matching logic of a check: sending is encoding (the codec)
//! plus one write, and reading is a loop of read attempts. Each attempt
//! yields an event — a chunk of bytes, a timeout, or a connection failure —
//! and this module decides, for every event, how the accumulated response
//! grows and whether the loop is over. The loop itself is also here, over
//! any finite trace of events; the live connection in front of it only
//! performs the reads and hands the events in.

use vstd::prelude::*;
use vstd::string::StrSliceExecFns;
use vstd::string::StringExecFns;
use crate::codec::{TextFormat, decoded_chunk, lower_of, radix_string, to_lowercase_string};
use crate::model::TestCaseSettings;
use crate::string_util::{str_eq, str_starts_with};

verus! {

/// Comparison and encoding knobs of one check.
#[derive(Clone, Copy, Debug)]
pub struct CheckSettings {
    /// Compare the response case-insensitively.
    pub ignore_case: bool,
    /// How the input content is encoded before sending.
    pub input_format: TextFormat,
    /// How received bytes are rendered before comparing.
    pub output_format: TextFormat,
}

/// The settings a check runs under when none are given.
pub open spec fn default_check_settings() -> CheckSettings {
    CheckSettings {
        ignore_case: false,
        input_format: TextFormat::Text,
        output_format: TextFormat::Text,
    }
}

impl Default for CheckSettings {
    fn default() -> (r: CheckSettings)
        ensures
            r == default_check_settings(),
    {
        CheckSettings {
            ignore_case: false,
            input_format: TextFormat::Text,
            output_format: TextFormat::Text,
        }
    }
}

impl CheckSettings {
    /// The check settings a test case's settings carry.
    pub fn from_test_settings(settings: &TestCaseSettings) -> (r: CheckSettings)
        ensures
            r.ignore_case == settings.ignore_case,
            r.input_format == settings.input_format,
            r.output_format == settings.output_format,
    {
        CheckSettings {
            ignore_case: settings.ignore_case,
            input_format: settings.input_format,
            output_format: settings.output_format,
        }
    }
}

/// What one read attempt on the connection yielded.
pub enum ReadEvent {
    /// Bytes arrived.
    Data(Vec<u8>),
    /// The read timed out before any byte arrived.
    TimedOut,
    /// The read failed with a connection-level error.
    Failed,
}

/// The mathematical content of a read event.
pub enum ReadEventView {
    Data(Seq<u8>),
    TimedOut,
    Failed,
}

impl View for ReadEvent {
    type V = ReadEventView;

    open spec fn view(&self) -> ReadEventView {
        match self {
            ReadEvent::Data(bytes) => ReadEventView::Data(bytes@),
            ReadEvent::TimedOut => ReadEventView::TimedOut,
            ReadEvent::Failed => ReadEventView::Failed,
        }
    }
}

/// The views of a sequence of read events.
pub open spec fn events_views(events: Seq<ReadEvent>) -> Seq<ReadEventView> {
    Seq::new(events.len(), |i: int| events[i]@)
}

/// How a check ends without a verdict on the response: no byte at all
/// arrived before the timeout, or the connection itself failed. A timeout
/// with an empty response is distinguished from a mismatch on purpose.
#[derive(Clone, Copy, PartialEq, Eq, Structural, Debug)]
pub enum CheckError {
    /// The read timed out with nothing accumulated.
    Timeout,
    /// A read failed with a connection-level error.
    Connection,
}

/// What one event tells the loop to do next.
#[derive(Clone, Copy, PartialEq, Eq, Structural, Debug)]
pub enum StepVerdict {
    /// The response may still grow into the desired one: read again.
    Continue,
    /// The loop is over; the verdict is read off the response.
    Finished,
    /// The distinguished empty-response timeout.
    TimeoutError,
    /// A fatal connection error to propagate.
    ConnectionError,
}

/// The text a chunk of received bytes contributes to the response:
/// rendered under the output format and lower-cased when comparing
/// case-insensitively.
pub open spec fn chunk_text(bytes: Seq<u8>, settings: CheckSettings) -> Seq<char> {
    if settings.ignore_case {
        lower_of(decoded_chunk(bytes, settings.output_format))
    } else {
        decoded_chunk(bytes, settings.output_format)
    }
}

/// The response after one event: data appends its text, anything else
/// leaves the response as it is.
pub open spec fn step_response(
    response: Seq<char>,
    settings: CheckSettings,
    event: ReadEventView,
) -> Seq<char> {
    match event {
        ReadEventView::Data(bytes) => response + chunk_text(bytes, settings),
        _ => response,
    }
}

/// The loop decision after one event. After data the loop goes on exactly
/// when the grown response is a proper prefix of the desired one: on
/// equality, and the moment the response can no longer grow into the
/// desired one, the loop is over. A timeout finishes the loop, except with
/// an empty response, which is the distinguished timeout error; a failed
/// read is fatal.
pub open spec fn step_verdict(
    response: Seq<char>,
    desired: Seq<char>,
    settings: CheckSettings,
    event: ReadEventView,
) -> StepVerdict {
    match event {
        ReadEventView::Data(bytes) => {
            let grown = response + chunk_text(bytes, settings);
            if grown == desired {
                StepVerdict::Finished
            } else if !grown.is_prefix_of(desired) {
                StepVerdict::Finished
            } else {
                StepVerdict::Continue
            }
        },
        ReadEventView::TimedOut => {
            if response.len() == 0 {
                StepVerdict::TimeoutError
            } else {
                StepVerdict::Finished
            }
        },
        ReadEventView::Failed => StepVerdict::ConnectionError,
    }
}

/// Prefix-match early termination: the loop goes on after a chunk only
/// while the grown response is a proper prefix of the desired one, so the
/// moment a match can no longer be reached, reading stops.
pub proof fn lemma_continue_is_proper_prefix(
    response: Seq<char>,
    desired: Seq<char>,
    settings: CheckSettings,
    event: ReadEventView,
)
    requires
        step_verdict(response, desired, settings, event) == StepVerdict::Continue,
    ensures
        step_response(response, settings, event).is_prefix_of(desired),
        step_response(response, settings, event) != desired,
{
}

/// The verdict of a finished check is exactly whether the accumulated
/// response equals the desired one.
pub proof fn lemma_matched_iff_equal(
    response: Seq<char>,
    desired: Seq<char>,
    settings: CheckSettings,
    events: Seq<ReadEventView>,
    i: int,
    matched: bool,
    final_response: Seq<char>,
)
    requires
        check_outcome(response, desired, settings, events, i) == Ok::<
            (bool, Seq<char>),
            CheckError,
        >((matched, final_response)),
    ensures
        matched == (final_response == desired),
    decreases events.len() - i,
{
    if 0 <= i < events.len() {
        if step_verdict(response, desired, settings, events[i]) == StepVerdict::Continue {
            lemma_matched_iff_equal(
                step_response(response, settings, events[i]),
                desired,
                settings,
                events,
                i + 1,
                matched,
                final_response,
            );
        }
    }
}

/// Applies one read event to the accumulated response and decides whether
/// the read loop goes on.
pub fn check_step(
    response: &mut String,
    desired: &str,
    settings: &CheckSettings,
    event: &ReadEvent,
) -> (v: StepVerdict)
    ensures
        final(response)@ == step_response(old(response)@, *settings, event@),
        v == step_verdict(old(response)@, desired@, *settings, event@),
{
    match event {
        ReadEvent::Data(bytes) => {
            let text = radix_string(bytes.as_slice(), settings.output_format);
            let chunk = if settings.ignore_case {
                to_lowercase_string(text.as_str())
            } else {
                text
            };
            response.append(chunk.as_str());
            if str_eq(response.as_str(), desired) {
                StepVerdict::Finished
            } else if !str_starts_with(desired, response.as_str()) {
                StepVerdict::Finished
            } else {
                StepVerdict::Continue
            }
        },
        ReadEvent::TimedOut => {
            if response.as_str().unicode_len() == 0 {
                StepVerdict::TimeoutError
            } else {
                StepVerdict::Finished
            }
        },
        ReadEvent::Failed => StepVerdict::ConnectionError,
    }
}

/// The outcome of the read loop run from `response` over the events from
/// `i` on: the matched flag and the final response, or the error that
/// ended the loop. A trace that runs out of events ends like a final
/// timeout: a silent connection stops yielding data.
pub open spec fn check_outcome(
    response: Seq<char>,
    desired: Seq<char>,
    settings: CheckSettings,
    events: Seq<ReadEventView>,
    i: int,
) -> Result<(bool, Seq<char>), CheckError>
    decreases events.len() - i,
{
    if i < 0 || i >= events.len() {
        if response.len() == 0 {
            Err(CheckError::Timeout)
        } else {
            Ok((response == desired, response))
        }
    } else {
        let grown = step_response(response, settings, events[i]);
        match step_verdict(response, desired, settings, events[i]) {
            StepVerdict::Continue => check_outcome(grown, desired, settings, events, i + 1),
            StepVerdict::Finished => Ok((grown == desired, grown)),
            StepVerdict::TimeoutError => Err(CheckError::Timeout),
            StepVerdict::ConnectionError => Err(CheckError::Connection),
        }
    }
}

/// Runs the whole read-and-compare loop of a check over a trace of read
/// events: chunks are appended in arrival order, the loop ends on
/// equality, on a prefix mismatch, on a timeout or on a failure, and the
/// verdict is whether the response equals the desired one.
pub fn check_read_events(
    desired: &str,
    settings: &CheckSettings,
    events: &Vec<ReadEvent>,
) -> (r: Result<(bool, String), CheckError>)
    ensures
        ({
            let outcome = check_outcome(
                Seq::<char>::empty(),
                desired@,
                *settings,
                events_views(events@),
                0,
            );
            match r {
                Ok((matched, response)) => outcome == Ok::<(bool, Seq<char>), CheckError>(
                    (matched, response@),
                ),
                Err(e) => outcome == Err::<(bool, Seq<char>), CheckError>(e),
            }
        }),
{
    let ghost evs = events_views(events@);
    let mut response = String::new();
    let mut i: usize = 0;
    while i < events.len()
        invariant
            i <= events@.len(),
            evs == events_views(events@),
            check_outcome(Seq::<char>::empty(), desired@, *settings, evs, 0) == check_outcome(
                response@,
                desired@,
                *settings,
                evs,
                i as int,
            ),
        decreases events@.len() - i,
    {
        let verdict = check_step(&mut response, desired, settings, &events[i]);
        match verdict {
            StepVerdict::Continue => {},
            StepVerdict::Finished => {
                let matched = str_eq(response.as_str(), desired);
                return Ok((matched, response));
            },
            StepVerdict::TimeoutError => {
                return Err(CheckError::Timeout);
            },
            StepVerdict::ConnectionError => {
                return Err(CheckError::Connection);
            },
        }
        i = i + 1;
    }
    if response.as_str().unicode_len() == 0 {
        Err(CheckError::Timeout)
    } else {
        let matched = str_eq(response.as_str(), desired);
        Ok((matched, response))
    }
}

/// The loop decision of the accumulate-until-length read after one event:
/// reading goes on until the response holds `min_length` characters; a
/// timeout with an empty response is the distinguished timeout error, a
/// later one finishes with what arrived, and a failed read is fatal.
pub open spec fn read_min_verdict(
    response: Seq<char>,
    min_length: int,
    format: TextFormat,
    event: ReadEventView,
) -> StepVerdict {
    match event {
        ReadEventView::Data(bytes) => {
            if response.len() + decoded_chunk(bytes, format).len() >= min_length {
                StepVerdict::Finished
            } else {
                StepVerdict::Continue
            }
        },
        ReadEventView::TimedOut => {
            if response.len() == 0 {
                StepVerdict::TimeoutError
            } else {
                StepVerdict::Finished
            }
        },
        ReadEventView::Failed => StepVerdict::ConnectionError,
    }
}

/// The response after one event of the accumulate-until-length read.
pub open spec fn read_min_response(
    response: Seq<char>,
    format: TextFormat,
    event: ReadEventView,
) -> Seq<char> {
    match event {
        ReadEventView::Data(bytes) => response + decoded_chunk(bytes, format),
        _ => response,
    }
}

/// Applies one read event to the accumulate-until-length read and decides
/// whether the read loop goes on.
pub fn read_min_step(
    response: &mut String,
    min_length: usize,
    format: TextFormat,
    event: &ReadEvent,
) -> (v: StepVerdict)
    ensures
        final(response)@ == read_min_response(old(response)@, format, event@),
        v == read_min_verdict(old(response)@, min_length as int, format, event@),
{
    match event {
        ReadEvent::Data(bytes) => {
            let text = radix_string(bytes.as_slice(), format);
            response.append(text.as_str());
            if response.as_str().unicode_len() >= min_length {
                StepVerdict::Finished
            } else {
                StepVerdict::Continue
            }
        },
        ReadEvent::TimedOut => {
            if response.as_str().unicode_len() == 0 {
                StepVerdict::TimeoutError
            } else {
                StepVerdict::Finished
            }
        },
        ReadEvent::Failed => StepVerdict::ConnectionError,
    }
}

/// The response after the accumulate-until-length loop run from
/// `response` over the events from `i` on: chunks are appended until the
/// response holds at least `min_length` characters; a timeout with an
/// empty response is the distinguished timeout error, a later one returns
/// what arrived, and a failure is fatal. A trace that runs out of events
/// ends like a final timeout.
pub open spec fn read_min_outcome(
    response: Seq<char>,
    min_length: int,
    format: TextFormat,
    events: Seq<ReadEventView>,
    i: int,
) -> Result<Seq<char>, CheckError>
    decreases events.len() - i,
{
    if i < 0 || i >= events.len() {
        if response.len() == 0 {
            Err(CheckError::Timeout)
        } else {
            Ok(response)
        }
    } else {
        match events[i] {
            ReadEventView::Data(bytes) => {
                let grown = response + decoded_chunk(bytes, format);
                if grown.len() >= min_length {
                    Ok(grown)
                } else {
                    read_min_outcome(grown, min_length, format, events, i + 1)
                }
            },
            ReadEventView::TimedOut => {
                if response.len() == 0 {
                    Err(CheckError::Timeout)
                } else {
                    Ok(response)
                }
            },
            ReadEventView::Failed => Err(CheckError::Connection),
        }
    }
}

/// Reads chunks from a trace of read events until the accumulated text
/// holds at least `min_length` characters, rendering each chunk under
/// `format`.
pub fn read_min_events(
    min_length: usize,
    format: TextFormat,
    events: &Vec<ReadEvent>,
) -> (r: Result<String, CheckError>)
    ensures
        ({
            let outcome = read_min_outcome(
                Seq::<char>::empty(),
                min_length as int,
                format,
                events_views(events@),
                0,
            );
            match r {
                Ok(response) => outcome == Ok::<Seq<char>, CheckError>(response@),
                Err(e) => outcome == Err::<Seq<char>, CheckError>(e),
            }
        }),
{
    let ghost evs = events_views(events@);
    let mut response = String::new();
    let mut i: usize = 0;
    while i < events.len()
        invariant
            i <= events@.len(),
            evs == events_views(events@),
            read_min_outcome(Seq::<char>::empty(), min_length as int, format, evs, 0)
                == read_min_outcome(response@, min_length as int, format, evs, i as int),
        decreases events@.len() - i,
    {
        match &events[i] {
            ReadEvent::Data(bytes) => {
                let text = radix_string(bytes.as_slice(), format);
                response.append(text.as_str());
                if response.as_str().unicode_len() >= min_length {
                    return Ok(response);
                }
            },
            ReadEvent::TimedOut => {
                if response.as_str().unicode_len() == 0 {
                    return Err(CheckError::Timeout);
                }
                return Ok(response);
            },
            ReadEvent::Failed => {
                return Err(CheckError::Connection);
            },
        }
        i = i + 1;
    }
    if response.as_str().unicode_len() == 0 {
        Err(CheckError::Timeout)
    } else {
        Ok(response)
    }
}

} // verus!
