//! Error types for the job queue.

use vstd::prelude::*;
use vstd::string::*;

verus! {

/// Errors that can occur when using the job queue.
#[derive(Debug)]
pub enum JobQueueError {
    /// Queue requires at least one worker.
    WorkersMustBePositive,
    /// Queue requires a non-zero poll interval.
    PollIntervalMustBePositive,
    /// Queue requires at least one configured storage backend.
    MissingStorages,
    /// A worker panicked during execution.
    WorkerPanicked { reason: String },
}

/// The character that writes decimal digit `d`.
pub open spec fn digit_char(d: nat) -> char {
    if d == 0 {
        '0'
    } else if d == 1 {
        '1'
    } else if d == 2 {
        '2'
    } else if d == 3 {
        '3'
    } else if d == 4 {
        '4'
    } else if d == 5 {
        '5'
    } else if d == 6 {
        '6'
    } else if d == 7 {
        '7'
    } else if d == 8 {
        '8'
    } else {
        '9'
    }
}

/// `n` written in decimal, most significant digit first, without leading zeros.
pub open spec fn decimal(n: nat) -> Seq<char>
    decreases n,
{
    if n < 10 {
        seq![digit_char(n)]
    } else {
        decimal(n / 10).push(digit_char(n % 10))
    }
}

/// The reason recorded when worker `index` ended abnormally with `cause`.
pub open spec fn panic_reason(index: nat, cause: Seq<char>) -> Seq<char> {
    "Worker "@ + decimal(index) + " panicked: "@ + cause
}

impl JobQueueError {
    /// The human-readable message of the error.
    pub open spec fn message(&self) -> Seq<char> {
        match self {
            JobQueueError::WorkersMustBePositive => "Invalid configuration: workers must be greater than 0"@,
            JobQueueError::PollIntervalMustBePositive => "Invalid configuration: poll_interval must be greater than 0"@,
            JobQueueError::MissingStorages => "Invalid configuration: at least one storage must be configured"@,
            JobQueueError::WorkerPanicked { reason } => "Worker panicked: "@ + reason@,
        }
    }

    /// Renders the error as its message.
    pub fn to_string(&self) -> (s: String)
        ensures
            s@ == self.message(),
    {
        match self {
            JobQueueError::WorkersMustBePositive => String::from_str(
                "Invalid configuration: workers must be greater than 0",
            ),
            JobQueueError::PollIntervalMustBePositive => String::from_str(
                "Invalid configuration: poll_interval must be greater than 0",
            ),
            JobQueueError::MissingStorages => String::from_str(
                "Invalid configuration: at least one storage must be configured",
            ),
            JobQueueError::WorkerPanicked { reason } => String::from_str("Worker panicked: ").concat(
                reason.as_str(),
            ),
        }
    }
}

/// The string that writes the decimal digit `d`.
fn digit_str(d: usize) -> (s: &'static str)
    requires
        d < 10,
    ensures
        s@ == seq![digit_char(d as nat)],
{
    if d == 0 {
        proof { reveal_strlit("0"); }
        "0"
    } else if d == 1 {
        proof { reveal_strlit("1"); }
        "1"
    } else if d == 2 {
        proof { reveal_strlit("2"); }
        "2"
    } else if d == 3 {
        proof { reveal_strlit("3"); }
        "3"
    } else if d == 4 {
        proof { reveal_strlit("4"); }
        "4"
    } else if d == 5 {
        proof { reveal_strlit("5"); }
        "5"
    } else if d == 6 {
        proof { reveal_strlit("6"); }
        "6"
    } else if d == 7 {
        proof { reveal_strlit("7"); }
        "7"
    } else if d == 8 {
        proof { reveal_strlit("8"); }
        "8"
    } else {
        proof { reveal_strlit("9"); }
        "9"
    }
}

/// Appends `n` in decimal to `s`.
fn push_decimal(s: &mut String, n: usize)
    ensures
        final(s)@ == old(s)@ + decimal(n as nat),
    decreases n,
{
    if n < 10 {
        s.append(digit_str(n));
    } else {
        push_decimal(s, n / 10);
        s.append(digit_str(n % 10));
        assert(old(s)@ + decimal(n as nat) =~= old(s)@ + decimal((n / 10) as nat) + seq![
            digit_char((n % 10) as nat),
        ]);
    }
}

/// Writes `n` in decimal.
pub fn decimal_string(n: usize) -> (s: String)
    ensures
        s@ == decimal(n as nat),
{
    let mut s = String::new();
    push_decimal(&mut s, n);
    assert(s@ =~= decimal(n as nat));
    s
}

/// The error reported when worker `index` ended abnormally; `cause` is what
/// the runtime said of it.
pub fn worker_panicked(index: usize, cause: &str) -> (e: JobQueueError)
    ensures
        e matches JobQueueError::WorkerPanicked { reason } && reason@ == panic_reason(
            index as nat,
            cause@,
        ),
{
    let reason = String::from_str("Worker ").concat(decimal_string(index).as_str()).concat(
        " panicked: ",
    ).concat(cause);
    JobQueueError::WorkerPanicked { reason }
}

} // verus!
