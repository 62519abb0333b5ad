//! What the C interface does on each call: argument checks, results, and the
//! message of the last error.
//!
//! A pointer argument is an `Option`: `None` is null. An argument that a result
//! is written to is a mutable reference in an `Option`. What such a place held
//! before is overwritten and not freed: C code may hand in a place whose contents
//! it copied, or that was never filled.
use vstd::prelude::*;

use crate::c_layout::{ffi_metrics, ffi_soc_info, macmon_metrics_t, macmon_soc_info_t};
use crate::c_text::{make_c_string, CText};
use crate::metrics::Metrics;
use crate::soc::SocInfo;

verus! {

/// The result of a call.
#[allow(non_camel_case_types)]
#[derive(Debug, Clone, Copy, PartialEq, Eq, Structural)]
pub enum macmon_status_t {
    MACMON_STATUS_OK,
    MACMON_STATUS_INVALID_ARGUMENT,
    MACMON_STATUS_INIT_FAILED,
    MACMON_STATUS_SAMPLE_FAILED,
    MACMON_STATUS_PANIC,
}

impl macmon_status_t {
    /// The number that C code sees.
    pub open spec fn number(self) -> i32 {
        match self {
            macmon_status_t::MACMON_STATUS_OK => 0,
            macmon_status_t::MACMON_STATUS_INVALID_ARGUMENT => 1,
            macmon_status_t::MACMON_STATUS_INIT_FAILED => 2,
            macmon_status_t::MACMON_STATUS_SAMPLE_FAILED => 3,
            macmon_status_t::MACMON_STATUS_PANIC => 4,
        }
    }

    /// The number that C code sees.
    pub fn code(self) -> (r: i32)
        ensures
            r == self.number(),
    {
        match self {
            macmon_status_t::MACMON_STATUS_OK => 0,
            macmon_status_t::MACMON_STATUS_INVALID_ARGUMENT => 1,
            macmon_status_t::MACMON_STATUS_INIT_FAILED => 2,
            macmon_status_t::MACMON_STATUS_SAMPLE_FAILED => 3,
            macmon_status_t::MACMON_STATUS_PANIC => 4,
        }
    }
}

/// C code can tell success by the number 0 alone, and the failures apart.
pub proof fn status_numbers_differ(a: macmon_status_t, b: macmon_status_t)
    ensures
        a.number() == 0 <==> a == macmon_status_t::MACMON_STATUS_OK,
        a.number() == b.number() <==> a == b,
{
}

/// What a C caller knows of a sampler: nothing but pointers to it.
#[allow(non_camel_case_types)]
pub struct macmon_sampler_t {
    _private: [u8; 0],
}

/// Why a call failed.
#[derive(Debug)]
pub struct FfiError {
    pub status: macmon_status_t,
    pub message: String,
}

/// The result of the steps of a call.
pub type FfiResult<T> = Result<T, FfiError>;

impl FfiError {
    /// An error is no success.
    pub open spec fn wf(self) -> bool {
        self.status != macmon_status_t::MACMON_STATUS_OK
    }
}

/// Makes an error.
pub fn ffi_error(status: macmon_status_t, message: String) -> (r: FfiError)
    ensures
        r.status == status,
        r.message == message,
{
    FfiError { status, message }
}

/// Whether an error is of a kind and says a text.
pub open spec fn says<T>(r: FfiResult<T>, status: macmon_status_t, message: Seq<char>) -> bool {
    r matches Err(e) && e.status == status && e.message@ == message
}

/// The message of the last failed call of a thread.
#[derive(Debug)]
pub struct LastError {
    pub message: Option<CText>,
}

impl LastError {
    /// The message by its characters.
    pub open spec fn shown(&self) -> Option<Seq<char>> {
        match self.message {
            Some(text) => Some(text@),
            None => None,
        }
    }

    /// No call failed yet.
    pub fn new() -> (r: Self)
        ensures
            r.shown() is None,
    {
        LastError { message: None }
    }
}

/// Keeps the message of a failed call.
pub fn set_last_error(slot: &mut LastError, message: &str)
    ensures
        final(slot).shown() == Some(crate::c_text::sanitized(message@)),
{
    slot.message = Some(make_c_string(message));
}

/// Forgets the message of an earlier call.
pub fn clear_last_error(slot: &mut LastError)
    ensures
        final(slot).shown() is None,
{
    slot.message = None;
}

/// The message that C code is shown, or null.
pub fn macmon_last_error_message(slot: &LastError) -> (r: Option<&CText>)
    ensures
        match r {
            Some(text) => slot.shown() == Some(text@),
            None => slot.shown() is None,
        },
{
    match &slot.message {
        Some(text) => Some(text),
        None => None,
    }
}

/// How a call ended.
#[derive(Debug)]
pub enum Outcome {
    Done,
    Failed(FfiError),
    Panicked,
}

/// The status that a call returns.
pub open spec fn status_of(outcome: Outcome) -> macmon_status_t {
    match outcome {
        Outcome::Done => macmon_status_t::MACMON_STATUS_OK,
        Outcome::Failed(e) => e.status,
        Outcome::Panicked => macmon_status_t::MACMON_STATUS_PANIC,
    }
}

/// The message that is kept of a call that returns a status.
pub open spec fn message_of(outcome: Outcome) -> Option<Seq<char>> {
    match outcome {
        Outcome::Done => None,
        Outcome::Failed(e) => Some(crate::c_text::sanitized(e.message@)),
        Outcome::Panicked => Some(crate::c_text::sanitized("panic across FFI boundary"@)),
    }
}

/// The status that a call returns; a failure's message is kept, and a success
/// clears the one kept before.
pub fn ffi_status(outcome: Outcome, slot: &mut LastError) -> (r: macmon_status_t)
    ensures
        r == status_of(outcome),
        final(slot).shown() == message_after(old(slot).shown(), Call::Status(outcome)),
{
    match outcome {
        Outcome::Done => {
            clear_last_error(slot);
            macmon_status_t::MACMON_STATUS_OK
        },
        Outcome::Failed(e) => {
            set_last_error(slot, e.message.as_str());
            e.status
        },
        Outcome::Panicked => {
            set_last_error(slot, "panic across FFI boundary");
            macmon_status_t::MACMON_STATUS_PANIC
        },
    }
}

/// Ends a call that frees something: such a call returns no status, and leaves
/// a message only if it panicked.
pub fn ffi_freed(panicked: bool, slot: &mut LastError)
    ensures
        final(slot).shown() == message_after(old(slot).shown(), Call::Freed(panicked)),
        !panicked ==> *final(slot) == *old(slot),
{
    if panicked {
        set_last_error(slot, "panic across FFI boundary");
    }
}

/// A call of the C interface, by how it ended.
pub enum Call {
    /// One that returns a status.
    Status(Outcome),
    /// One that frees something, and whether it panicked.
    Freed(bool),
    /// One that asks for the message.
    Asked,
}

/// The message that a thread is shown after a call of its own.
pub open spec fn message_after(before: Option<Seq<char>>, call: Call) -> Option<Seq<char>> {
    match call {
        Call::Status(outcome) => message_of(outcome),
        Call::Freed(true) => Some(crate::c_text::sanitized("panic across FFI boundary"@)),
        Call::Freed(false) => before,
        Call::Asked => before,
    }
}

/// The message that a thread is shown after some calls, each made by the thread
/// whose number stands beside it. Every thread has a slot of its own.
pub open spec fn message_in(calls: Seq<(int, Call)>, thread: int) -> Option<Seq<char>>
    decreases calls.len(),
{
    if calls.len() == 0 {
        None
    } else {
        let before = message_in(calls.drop_last(), thread);
        if calls.last().0 == thread {
            message_after(before, calls.last().1)
        } else {
            before
        }
    }
}

/// How the latest of a thread's calls that return a status ended, if it made
/// any.
pub open spec fn latest_status(calls: Seq<(int, Call)>, thread: int) -> Option<Outcome>
    decreases calls.len(),
{
    if calls.len() == 0 {
        None
    } else {
        match calls.last() {
            (t, Call::Status(outcome)) => if t == thread {
                Some(outcome)
            } else {
                latest_status(calls.drop_last(), thread)
            },
            _ => latest_status(calls.drop_last(), thread),
        }
    }
}

/// The message that a thread is shown is that of its latest call that returns a
/// status: there is none exactly if it made no such call yet or the latest one
/// returned OK, and else it is what that call failed with. Calls that free
/// something and do not panic, asking for the message, and the calls of other
/// threads change nothing.
pub proof fn message_is_of_latest_status(calls: Seq<(int, Call)>, thread: int)
    requires
        forall|i: int| 0 <= i < calls.len() ==> (#[trigger] calls[i]).1 != Call::Freed(true),
        forall|i: int|
            0 <= i < calls.len() ==> ((#[trigger] calls[i]).1 matches Call::Status(
                Outcome::Failed(e),
            ) ==> e.wf()),
    ensures
        message_in(calls, thread) == match latest_status(calls, thread) {
            Some(outcome) => message_of(outcome),
            None => None,
        },
        message_in(calls, thread) is None <==> match latest_status(calls, thread) {
            Some(outcome) => status_of(outcome) == macmon_status_t::MACMON_STATUS_OK,
            None => true,
        },
    decreases calls.len(),
{
    if calls.len() > 0 {
        let less = calls.drop_last();
        assert forall|i: int| 0 <= i < less.len() implies (#[trigger] less[i]) == calls[i] by {}
        message_is_of_latest_status(less, thread);
        assert(calls[calls.len() - 1] == calls.last());
    }
}

/// Overwrites a place. What it held is not dropped.
fn overwrite<T>(place: &mut T, value: T)
    ensures
        *final(place) == value,
{
    let mut value = value;
    std::mem::swap(place, &mut value);
    let _ = std::mem::ManuallyDrop::new(value);
}

/// The sampler that a pointer names; null names none.
pub fn sampler_mut<S>(sampler: Option<&mut S>) -> (r: FfiResult<&mut S>)
    ensures
        match sampler {
            Some(s) => r matches Ok(p) && *p == *s && *final(s) == *final(p),
            None => says(
                r,
                macmon_status_t::MACMON_STATUS_INVALID_ARGUMENT,
                "sampler must not be null"@,
            ),
        },
{
    match sampler {
        Some(s) => Ok(s),
        None => Err(
            ffi_error(
                macmon_status_t::MACMON_STATUS_INVALID_ARGUMENT,
                "sampler must not be null".to_owned(),
            ),
        ),
    }
}

/// Starts making a sampler: the slot for it must not be null, and holds null
/// until there is one. A sampler that it held is not freed.
pub fn macmon_sampler_new<S>(out_sampler: Option<&mut Option<S>>) -> (r: FfiResult<()>)
    ensures
        match out_sampler {
            Some(slot) => r is Ok && *final(slot) is None,
            None => says(
                r,
                macmon_status_t::MACMON_STATUS_INVALID_ARGUMENT,
                "out_sampler must not be null"@,
            ),
        },
{
    match out_sampler {
        Some(slot) => {
            overwrite(slot, None);
            Ok(())
        },
        None => Err(
            ffi_error(
                macmon_status_t::MACMON_STATUS_INVALID_ARGUMENT,
                "out_sampler must not be null".to_owned(),
            ),
        ),
    }
}

/// Ends making a sampler: a new one goes into the slot, a failure leaves the
/// slot as it was.
pub fn deliver_sampler<S>(slot: &mut Option<S>, made: Result<S, String>) -> (r: FfiResult<()>)
    ensures
        match made {
            Ok(s) => r is Ok && *final(slot) == Some(s),
            Err(e) => says(r, macmon_status_t::MACMON_STATUS_INIT_FAILED, e@) && *final(slot)
                == *old(slot),
        },
{
    match made {
        Ok(s) => {
            overwrite(slot, Some(s));
            Ok(())
        },
        Err(e) => Err(ffi_error(macmon_status_t::MACMON_STATUS_INIT_FAILED, e)),
    }
}

/// Starts describing the chip: the place for the description must not be null,
/// and is overwritten with an empty one. What it held is not freed.
pub fn macmon_get_soc_info(out_info: Option<&mut macmon_soc_info_t>) -> (r: FfiResult<()>)
    ensures
        match out_info {
            Some(info) => r is Ok && final(info).is_empty(),
            None => says(
                r,
                macmon_status_t::MACMON_STATUS_INVALID_ARGUMENT,
                "out_info must not be null"@,
            ),
        },
{
    match out_info {
        Some(info) => {
            overwrite(info, macmon_soc_info_t::default());
            Ok(())
        },
        None => Err(
            ffi_error(
                macmon_status_t::MACMON_STATUS_INVALID_ARGUMENT,
                "out_info must not be null".to_owned(),
            ),
        ),
    }
}

/// Ends describing the chip: the description is written, a failure leaves the
/// place as it was.
pub fn deliver_soc_info(out: &mut macmon_soc_info_t, found: Result<SocInfo, String>) -> (r:
    FfiResult<()>)
    ensures
        match found {
            Ok(info) => r is Ok && crate::c_layout::shows_soc(*final(out), info),
            Err(e) => says(r, macmon_status_t::MACMON_STATUS_INIT_FAILED, e@) && *final(out) == *old(
                out,
            ),
        },
{
    match found {
        Ok(info) => {
            overwrite(out, ffi_soc_info(info));
            Ok(())
        },
        Err(e) => Err(ffi_error(macmon_status_t::MACMON_STATUS_INIT_FAILED, e)),
    }
}

/// Starts a measurement: the place for it must not be null and is overwritten
/// with an empty one, without freeing what it held; then the sampler must not be
/// null.
pub fn macmon_sampler_get_metrics<'a, S, F: Default>(
    sampler: Option<&'a mut S>,
    out_metrics: Option<&mut macmon_metrics_t<F>>,
) -> (r: FfiResult<&'a mut S>)
    ensures
        out_metrics matches Some(m) ==> final(m).is_empty(),
        match (out_metrics, sampler) {
            (None, _) => says(
                r,
                macmon_status_t::MACMON_STATUS_INVALID_ARGUMENT,
                "out_metrics must not be null"@,
            ),
            (Some(_), None) => says(
                r,
                macmon_status_t::MACMON_STATUS_INVALID_ARGUMENT,
                "sampler must not be null"@,
            ),
            (Some(_), Some(s)) => r matches Ok(p) && *p == *s && *final(s) == *final(p),
        },
{
    match out_metrics {
        Some(m) => {
            overwrite(m, macmon_metrics_t::default());
        },
        None => {
            return Err(
                ffi_error(
                    macmon_status_t::MACMON_STATUS_INVALID_ARGUMENT,
                    "out_metrics must not be null".to_owned(),
                ),
            );
        },
    }
    sampler_mut(sampler)
}

/// Ends a measurement: it is written, a failure leaves the place as it was.
pub fn deliver_metrics<F: Copy>(
    out: &mut macmon_metrics_t<F>,
    sampled: Result<Metrics<F>, String>,
) -> (r: FfiResult<()>)
    ensures
        match sampled {
            Ok(m) => r is Ok && crate::c_layout::shows_metrics(*final(out), m),
            Err(e) => says(r, macmon_status_t::MACMON_STATUS_SAMPLE_FAILED, e@) && *final(out)
                == *old(out),
        },
{
    match sampled {
        Ok(m) => {
            overwrite(out, ffi_metrics(m));
            Ok(())
        },
        Err(e) => Err(ffi_error(macmon_status_t::MACMON_STATUS_SAMPLE_FAILED, e)),
    }
}

/// The numbers that C code is told.
pub proof fn status_numbers_are_fixed(s: macmon_status_t, n: i32)
    requires
        call_ensures(macmon_status_t::code, (s,), n),
    ensures
        s is MACMON_STATUS_OK <==> n == 0,
        s is MACMON_STATUS_INVALID_ARGUMENT <==> n == 1,
        s is MACMON_STATUS_INIT_FAILED <==> n == 2,
        s is MACMON_STATUS_SAMPLE_FAILED <==> n == 3,
        s is MACMON_STATUS_PANIC <==> n == 4,
{
}

/// Whether `shown` is a text as C code is shown it.
pub open spec fn shown_to_c(text: Seq<char>, shown: Seq<char>) -> bool {
    &&& shown.len() == text.len()
    &&& forall|i: int|
        0 <= i < text.len() ==> #[trigger] shown[i] == (if text[i] == '\0' {
            ' '
        } else {
            text[i]
        })
}

/// A call that succeeded returns OK and leaves no message; one that failed
/// returns the status of its error and leaves its message; one that panicked
/// says so.
pub proof fn status_and_message_tell_how_a_call_ended(
    outcome: Outcome,
    slot: &mut LastError,
    r: macmon_status_t,
)
    requires
        call_ensures(ffi_status, (outcome, slot), r),
    ensures
        outcome is Done ==> r is MACMON_STATUS_OK && final(slot).message is None,
        outcome matches Outcome::Failed(e) ==> r == e.status && final(slot).message is Some
            && shown_to_c(e.message@, final(slot).message->0@),
        outcome is Panicked ==> r is MACMON_STATUS_PANIC && final(slot).message is Some
            && shown_to_c("panic across FFI boundary"@, final(slot).message->0@),
{
}

/// A call that frees something leaves the message alone unless it panicked.
pub proof fn freeing_leaves_the_message(panicked: bool, slot: &mut LastError)
    requires
        call_ensures(ffi_freed, (panicked, slot), ()),
    ensures
        !panicked ==> *final(slot) == *old(slot),
        panicked ==> final(slot).message is Some && shown_to_c(
            "panic across FFI boundary"@,
            final(slot).message->0@,
        ),
{
}

/// The message that C code is shown is the one that is kept.
pub proof fn kept_message_is_shown(slot: &LastError, r: Option<&CText>)
    requires
        call_ensures(macmon_last_error_message, (slot,), r),
    ensures
        r is None <==> slot.message is None,
        r is Some ==> r->0@ == slot.message->0@,
{
}

/// Whether a call failed as one that was handed a null argument.
pub open spec fn refused<T>(r: FfiResult<T>, message: Seq<char>) -> bool {
    &&& r is Err
    &&& r->Err_0.status is MACMON_STATUS_INVALID_ARGUMENT
    &&& r->Err_0.message@ == message
}

/// A null pointer in place of a result or of a sampler is an invalid argument,
/// and the message names it. The place for the result is looked at first.
pub proof fn null_arguments_are_named<S, F: Default>(
    made: FfiResult<()>,
    described: FfiResult<()>,
    measured: FfiResult<&mut S>,
    sampler: Option<&mut S>,
    unsampled: FfiResult<&mut S>,
    out: &mut macmon_metrics_t<F>,
)
    requires
        call_ensures(macmon_sampler_new::<S>, (None::<&mut Option<S>>,), made),
        call_ensures(macmon_get_soc_info, (None::<&mut macmon_soc_info_t>,), described),
        call_ensures(
            macmon_sampler_get_metrics::<S, F>,
            (sampler, None::<&mut macmon_metrics_t<F>>),
            measured,
        ),
        call_ensures(
            macmon_sampler_get_metrics::<S, F>,
            (None::<&mut S>, Some(out)),
            unsampled,
        ),
    ensures
        refused(made, "out_sampler must not be null"@),
        refused(described, "out_info must not be null"@),
        refused(measured, "out_metrics must not be null"@),
        refused(unsampled, "sampler must not be null"@),
{
}

/// A sampler that was made goes into its slot, which was null before; one that
/// could not be made leaves the slot as it was, and the error is its own.
pub proof fn sampler_is_delivered<S>(
    slot: &mut Option<S>,
    started: FfiResult<()>,
    place: &mut Option<S>,
    made: Result<S, String>,
    r: FfiResult<()>,
)
    requires
        call_ensures(macmon_sampler_new::<S>, (Some(slot),), started),
        call_ensures(deliver_sampler::<S>, (place, made), r),
    ensures
        started is Ok && *final(slot) is None,
        made matches Ok(s) ==> r is Ok && *final(place) == Some(s),
        made matches Err(e) ==> r is Err && r->Err_0.status is MACMON_STATUS_INIT_FAILED
            && r->Err_0.message@ == e@ && *final(place) == *old(place),
{
}

/// What was found of the chip and what was sampled is written to its place; a
/// failure leaves the place as it was, and the error is its own.
pub proof fn results_are_delivered<F: Copy>(
    info: &mut macmon_soc_info_t,
    found: Result<SocInfo, String>,
    described: FfiResult<()>,
    metrics: &mut macmon_metrics_t<F>,
    sampled: Result<Metrics<F>, String>,
    measured: FfiResult<()>,
)
    requires
        call_ensures(deliver_soc_info, (info, found), described),
        call_ensures(deliver_metrics::<F>, (metrics, sampled), measured),
    ensures
        found matches Ok(soc) ==> described is Ok && crate::c_layout::shows_soc(*final(info), soc),
        found matches Err(e) ==> described is Err
            && described->Err_0.status is MACMON_STATUS_INIT_FAILED && described->Err_0.message@
            == e@ && *final(info) == *old(info),
        sampled matches Ok(m) ==> measured is Ok && crate::c_layout::shows_metrics(
            *final(metrics),
            m,
        ),
        sampled matches Err(e) ==> measured is Err
            && measured->Err_0.status is MACMON_STATUS_SAMPLE_FAILED && measured->Err_0.message@
            == e@ && *final(metrics) == *old(metrics),
{
}

} // verus!
