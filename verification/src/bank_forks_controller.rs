//! Commands that other threads hand to the replay stage, and how the sender of one waits for
//! the response.

use crate::time::{Duration, Instant};
use solana_clock::Slot;
use vstd::prelude::*;

verus! {

/// How many commands may wait for the replay stage.
pub const CHANNEL_SIZE: usize = 16;

/// A public key.
pub type Pubkey = [u8; 32];

/// Why a command did not succeed.
#[derive(Clone, Copy, Debug, PartialEq, Eq, Structural)]
pub enum BankForksControllerError {
    /// The replay stage is gone.
    Disconnected,
    /// The bank for this slot was too old to be inserted.
    UnableToInsertStaleBank(Slot),
}

/// The decimal digits of a number, highest first.
pub open spec fn decimal(n: nat) -> Seq<char>
    decreases n,
{
    if n < 10 {
        seq![digit(n)]
    } else {
        decimal(n / 10).push(digit(n % 10))
    }
}

/// The character for a number below ten.
pub open spec fn digit(n: nat) -> char {
    ('0' as nat + n) as char
}

/// Appends a digit to `text`.
fn push_digit(text: &mut String, n: u64)
    requires
        n < 10,
    ensures
        final(text)@ == old(text)@.push(digit(n as nat)),
{
    proof {
        reveal_strlit("0");
        reveal_strlit("1");
        reveal_strlit("2");
        reveal_strlit("3");
        reveal_strlit("4");
        reveal_strlit("5");
        reveal_strlit("6");
        reveal_strlit("7");
        reveal_strlit("8");
        reveal_strlit("9");
    }
    let shown = match n {
        0 => "0",
        1 => "1",
        2 => "2",
        3 => "3",
        4 => "4",
        5 => "5",
        6 => "6",
        7 => "7",
        8 => "8",
        _ => "9",
    };
    text.append(shown);
    assert(text@ =~= old(text)@.push(digit(n as nat)));
}

/// Appends the decimal digits of `n` to `text`.
fn push_decimal(text: &mut String, n: u64)
    ensures
        final(text)@ == old(text)@ + decimal(n as nat),
    decreases n,
{
    if n >= 10 {
        push_decimal(text, n / 10);
    }
    push_digit(text, n % 10);
    assert(text@ =~= old(text)@ + decimal(n as nat));
}

impl BankForksControllerError {
    /// What the error says.
    pub open spec fn text(self) -> Seq<char> {
        match self {
            BankForksControllerError::Disconnected => "bank forks controller is disconnected"@,
            BankForksControllerError::UnableToInsertStaleBank(slot) => "bank to insert for slot "@
                + decimal(slot as nat) + " was stale, failed to insert"@,
        }
    }

    /// The error in words.
    pub fn message(&self) -> (message: String)
        ensures
            message@ == self.text(),
    {
        match self {
            BankForksControllerError::Disconnected => String::from_str(
                "bank forks controller is disconnected",
            ),
            BankForksControllerError::UnableToInsertStaleBank(slot) => {
                let mut message = String::from_str("bank to insert for slot ");
                push_decimal(&mut message, *slot);
                message.append(" was stale, failed to insert");
                message
            },
        }
    }
}

/// What the replay stage is asked to do.
#[derive(Clone, Copy, Debug, PartialEq, Eq)]
pub enum BankForksCommand {
    /// Insert a bank.
    InsertBank {
        /// The slot of the bank.
        bank_slot: Slot,
    },
    /// Make a slot the new root.
    SetRoot {
        my_pubkey: Pubkey,
        parent_slot: Slot,
        new_root: Slot,
        highest_super_majority_root: Option<Slot>,
    },
    /// Forget the bank of a slot.
    ClearBank { slot: Slot },
}

impl BankForksCommand {
    /// The slot that a command is about.
    pub open spec fn subject(self) -> Slot {
        match self {
            BankForksCommand::InsertBank { bank_slot } => bank_slot,
            BankForksCommand::SetRoot { new_root, .. } => new_root,
            BankForksCommand::ClearBank { slot } => slot,
        }
    }

    /// The slot that a command is reported under.
    pub fn metric_slot(&self) -> (slot: Slot)
        ensures
            slot == self.subject(),
    {
        match self {
            BankForksCommand::InsertBank { bank_slot } => *bank_slot,
            BankForksCommand::SetRoot { new_root, .. } => *new_root,
            BankForksCommand::ClearBank { slot } => *slot,
        }
    }

    /// The name that a command is reported under.
    pub open spec fn label(self) -> Seq<char> {
        match self {
            BankForksCommand::InsertBank { .. } => "insert_bank"@,
            BankForksCommand::SetRoot { .. } => "set_root"@,
            BankForksCommand::ClearBank { .. } => "clear_bank"@,
        }
    }

    /// The name that a command is reported under.
    pub fn name(&self) -> (name: &'static str)
        ensures
            name@ == self.label(),
    {
        match self {
            BankForksCommand::InsertBank { .. } => "insert_bank",
            BankForksCommand::SetRoot { .. } => "set_root",
            BankForksCommand::ClearBank { .. } => "clear_bank",
        }
    }
}

/// What is reported of a command that was answered. Spans are in microseconds.
#[derive(Clone, Copy, Debug, PartialEq, Eq)]
pub struct CommandDatapoint {
    pub command: &'static str,
    pub slot: i64,
    pub queue_len_before_send: i64,
    pub send_us: i64,
    pub response_wait_us: i64,
    pub total_us: i64,
}

/// The whole microseconds from `start` to `end`, none if `end` comes first, as they are reported:
/// in the low 64 bits.
pub open spec fn elapsed_us(start: Instant, end: Instant) -> i64 {
    if start@ <= end@ {
        ((end@ - start@) / 1_000) as i64
    } else {
        0
    }
}

/// Measures the whole microseconds from `start` to `end`.
fn measure_us(start: Instant, end: Instant) -> (micros: i64)
    ensures
        micros == elapsed_us(start, end),
{
    let micros: u128 = end.saturating_duration_since(start).as_micros();
    #[verifier::truncate]
    (micros as i64)
}

/// A command that is being handed to the replay stage.
pub struct SendingCommand {
    pub command: BankForksCommand,
    /// Commands that waited for the replay stage before this one.
    pub queue_len_before_send: usize,
    /// When the handling of the command began.
    pub total_start: Instant,
    /// When the handing over began.
    pub send_start: Instant,
}

/// A command that the replay stage has, and that was not answered yet.
pub struct AwaitedCommand {
    pub command: BankForksCommand,
    /// Commands that waited for the replay stage before this one.
    pub queue_len_before_send: usize,
    /// When the handling of the command began.
    pub total_start: Instant,
    /// How long the handing over took.
    pub send_us: i64,
    /// When the wait for the response began.
    pub response_wait_start: Instant,
}

/// What came of waiting for a response for a while.
pub enum ReceiveOutcome<T> {
    /// The response.
    Response(T),
    /// The replay stage will send no response.
    Disconnected,
    /// There is no response yet.
    TimedOut,
}

/// What the sender of a command does next.
pub enum WaitStep<T> {
    /// It returns the response and reports how the command went.
    Finish { response: T, datapoint: CommandDatapoint },
    /// It returns an error.
    Fail(BankForksControllerError),
    /// It warns that replay has been stuck for this many milliseconds, and waits on.
    WarnAndWait { waited_ms: u128 },
}

impl SendingCommand {
    /// Goes on once the replay stage has been handed the command at `sent_at`, or was found to
    /// be gone. The wait for the response begins at `response_wait_start`.
    pub fn sent(
        self,
        delivered: bool,
        sent_at: Instant,
        response_wait_start: Instant,
    ) -> (awaited: Result<AwaitedCommand, BankForksControllerError>)
        ensures
            awaited == if delivered {
                Ok::<AwaitedCommand, BankForksControllerError>(
                    AwaitedCommand {
                        command: self.command,
                        queue_len_before_send: self.queue_len_before_send,
                        total_start: self.total_start,
                        send_us: elapsed_us(self.send_start, sent_at),
                        response_wait_start,
                    },
                )
            } else {
                Err(BankForksControllerError::Disconnected)
            },
    {
        if !delivered {
            return Err(BankForksControllerError::Disconnected);
        }
        Ok(
            AwaitedCommand {
                command: self.command,
                queue_len_before_send: self.queue_len_before_send,
                total_start: self.total_start,
                send_us: measure_us(self.send_start, sent_at),
                response_wait_start,
            },
        )
    }
}

impl AwaitedCommand {
    /// How long to wait for a response before the next warning.
    pub fn poll_interval(&self) -> (span: Duration)
        ensures
            span@ == 100_000_000,
    {
        Duration::from_millis(100)
    }

    /// What is reported of this command if its response was there at `received_at` and it was
    /// done at `done_at`.
    pub open spec fn report(
        &self,
        received_at: Instant,
        done_at: Instant,
        datapoint: CommandDatapoint,
    ) -> bool {
        &&& datapoint.command@ == self.command.label()
        &&& datapoint.slot == self.command.subject() as i64
        &&& datapoint.queue_len_before_send == self.queue_len_before_send as i64
        &&& datapoint.send_us == self.send_us
        &&& datapoint.response_wait_us == elapsed_us(self.response_wait_start, received_at)
        &&& datapoint.total_us == elapsed_us(self.total_start, done_at)
    }

    /// Decides what to do about what came of waiting until `now`. A response is reported with
    /// `done_at` as the end of the command.
    pub fn received<T>(&self, outcome: ReceiveOutcome<T>, now: Instant, done_at: Instant) -> (step:
        WaitStep<T>)
        ensures
            match outcome {
                ReceiveOutcome::Response(value) => step matches WaitStep::Finish {
                    response,
                    datapoint,
                } && response == value && self.report(now, done_at, datapoint),
                ReceiveOutcome::Disconnected => step == WaitStep::<T>::Fail(
                    BankForksControllerError::Disconnected,
                ),
                ReceiveOutcome::TimedOut => step == (WaitStep::<T>::WarnAndWait {
                    waited_ms: if self.response_wait_start@ <= now@ {
                        ((now@ - self.response_wait_start@) / 1_000_000) as u128
                    } else {
                        0
                    },
                }),
            },
    {
        match outcome {
            ReceiveOutcome::Response(response) => {
                let datapoint = CommandDatapoint {
                    command: self.command.name(),
                    slot: #[verifier::truncate]
                    (self.command.metric_slot() as i64),
                    queue_len_before_send: #[verifier::truncate]
                    (self.queue_len_before_send as i64),
                    send_us: self.send_us,
                    response_wait_us: measure_us(self.response_wait_start, now),
                    total_us: measure_us(self.total_start, done_at),
                };
                WaitStep::Finish { response, datapoint }
            },
            ReceiveOutcome::Disconnected => WaitStep::Fail(BankForksControllerError::Disconnected),
            ReceiveOutcome::TimedOut => WaitStep::WarnAndWait {
                waited_ms: now.saturating_duration_since(self.response_wait_start).as_millis(),
            },
        }
    }
}

/// The result of inserting the bank of `bank_slot`, from the response of the replay stage, which
/// is `None` for a stale bank.
pub fn inserted_bank<W>(
    bank_slot: Slot,
    response: Result<Option<W>, BankForksControllerError>,
) -> (inserted: Result<W, BankForksControllerError>)
    ensures
        inserted == match response {
            Ok(Some(bank)) => Ok::<W, BankForksControllerError>(bank),
            Ok(None) => Err(BankForksControllerError::UnableToInsertStaleBank(bank_slot)),
            Err(error) => Err(error),
        },
{
    match response {
        Ok(Some(bank)) => Ok(bank),
        Ok(None) => Err(BankForksControllerError::UnableToInsertStaleBank(bank_slot)),
        Err(error) => Err(error),
    }
}

/// The reported time is the number of whole microseconds from the start to the end, none if the end
/// comes first, as long as an `i64` can hold it. A longer wait is never reported as a shorter one.
pub proof fn reported_time_counts_whole_microseconds(
    start: Instant,
    end: Instant,
    later: Instant,
    micros: i64,
    later_micros: i64,
)
    requires
        micros == elapsed_us(start, end),
        later_micros == elapsed_us(start, later),
    ensures
        end@ <= start@ ==> micros == 0,
        start@ <= end@ && end@ - start@ < 1_000 * 0x8000_0000_0000_0000 ==> micros * 1_000 <= end@
            - start@ < (micros + 1) * 1_000,
        start@ <= end@ <= later@ && later@ - start@ < 1_000 * 0x8000_0000_0000_0000 ==> micros
            <= later_micros,
{
}

/// The reported time wraps round where an `i64` cannot hold the number of microseconds: it leaves
/// the same as that number when it is divided by `2^64`.
pub proof fn reported_time_wraps_round(start: Instant, end: Instant, micros: i64)
    requires
        micros == elapsed_us(start, end),
        start@ <= end@ <= u128::MAX,
    ensures
        (end@ - start@) as int / 1_000 % 0x1_0000_0000_0000_0000 == micros as int
            % 0x1_0000_0000_0000_0000,
{
    let whole = ((end@ - start@) / 1_000) as u128;
    low_bits_are_kept(whole);
    assert(whole as int == (end@ - start@) / 1_000);
    assert(micros == whole as i64);
}

/// A number that does not fit an `i64` is wrapped round to one that leaves the same when it is
/// divided by `2^64`.
proof fn low_bits_are_kept(number: u128)
    ensures
        number as int % 0x1_0000_0000_0000_0000 == (number as i64) as int
            % 0x1_0000_0000_0000_0000,
{
    let kept = number as i64;
    let low = number as u64;
    assert(number % 0x1_0000_0000_0000_0000u128 == low as u128) by (bit_vector)
        requires
            low == number as u64,
    ;
    assert(kept == low as i64) by (bit_vector)
        requires
            low == number as u64,
            kept == number as i64,
    ;
    half_of_the_numbers_are_kept(low);
}

/// A number of 64 bits is kept as an `i64` if it is one, and is `2^64` too large otherwise.
proof fn half_of_the_numbers_are_kept(number: u64)
    ensures
        number < 0x8000_0000_0000_0000 ==> (number as i64) as int == number as int,
        number >= 0x8000_0000_0000_0000 ==> (number as i64) as int == number as int
            - 0x1_0000_0000_0000_0000,
{
    let kept = number as i64;
    assert(number >= 0x8000_0000_0000_0000 ==> kept == number - 0x1_0000_0000_0000_0000)
        by (bit_vector)
        requires
            kept == number as i64,
    ;
}

/// A command that was handed over is awaited as it is, with the whole microseconds that this took.
/// One that could not be handed over fails because the replay stage is gone.
pub proof fn delivered_commands_are_awaited(
    sending: SendingCommand,
    delivered: bool,
    sent_at: Instant,
    response_wait_start: Instant,
    sent: Result<AwaitedCommand, BankForksControllerError>,
)
    requires
        call_ensures(
            SendingCommand::sent,
            (sending, delivered, sent_at, response_wait_start),
            sent,
        ),
    ensures
        !delivered <==> sent is Err,
        sent matches Err(error) ==> error == BankForksControllerError::Disconnected,
        sent matches Ok(awaited) ==> {
            &&& awaited.command == sending.command
            &&& awaited.queue_len_before_send == sending.queue_len_before_send
            &&& awaited.total_start == sending.total_start
            &&& awaited.response_wait_start == response_wait_start
            &&& sent_at@ <= sending.send_start@ ==> awaited.send_us == 0
            &&& sending.send_start@ <= sent_at@ && sent_at@ - sending.send_start@ < 1_000
                * 0x8000_0000_0000_0000 ==> awaited.send_us * 1_000 <= sent_at@
                - sending.send_start@ < (awaited.send_us + 1) * 1_000
            &&& sending.send_start@ <= sent_at@ <= u128::MAX ==> (sent_at@
                - sending.send_start@) as int / 1_000 % 0x1_0000_0000_0000_0000
                == awaited.send_us as int % 0x1_0000_0000_0000_0000
        },
{
    if let Ok(awaited) = sent {
        if sending.send_start@ <= sent_at@ <= u128::MAX {
            reported_time_wraps_round(sending.send_start, sent_at, awaited.send_us);
        }
    }
}

/// A response ends the wait, is handed on as it is, and is reported: under the name and the slot of
/// the command, with the whole microseconds of the wait and of the whole command, and with what was
/// known when the command was handed over. Numbers beyond an `i64` wrap round.
pub proof fn responses_are_reported<T>(
    awaited: &AwaitedCommand,
    value: T,
    now: Instant,
    done_at: Instant,
    step: WaitStep<T>,
)
    requires
        call_ensures(
            AwaitedCommand::received::<T>,
            (awaited, ReceiveOutcome::Response(value), now, done_at),
            step,
        ),
    ensures
        step matches WaitStep::Finish { response, datapoint } && {
            &&& response == value
            &&& datapoint.send_us == awaited.send_us
            &&& datapoint.queue_len_before_send == if awaited.queue_len_before_send
                < 0x8000_0000_0000_0000 {
                awaited.queue_len_before_send as int
            } else {
                awaited.queue_len_before_send - 0x1_0000_0000_0000_0000
            }
            &&& match awaited.command {
                BankForksCommand::InsertBank { .. } => datapoint.command@ == "insert_bank"@,
                BankForksCommand::SetRoot { .. } => datapoint.command@ == "set_root"@,
                BankForksCommand::ClearBank { .. } => datapoint.command@ == "clear_bank"@,
            }
            &&& ({
                let slot = match awaited.command {
                    BankForksCommand::InsertBank { bank_slot } => bank_slot,
                    BankForksCommand::SetRoot { new_root, .. } => new_root,
                    BankForksCommand::ClearBank { slot } => slot,
                };
                datapoint.slot == if slot < 0x8000_0000_0000_0000 {
                    slot as int
                } else {
                    slot - 0x1_0000_0000_0000_0000
                }
            })
            &&& now@ <= awaited.response_wait_start@ ==> datapoint.response_wait_us == 0
            &&& awaited.response_wait_start@ <= now@ && now@ - awaited.response_wait_start@ < 1_000
                * 0x8000_0000_0000_0000 ==> datapoint.response_wait_us * 1_000 <= now@
                - awaited.response_wait_start@ < (datapoint.response_wait_us + 1) * 1_000
            &&& done_at@ <= awaited.total_start@ ==> datapoint.total_us == 0
            &&& awaited.total_start@ <= done_at@ && done_at@ - awaited.total_start@ < 1_000
                * 0x8000_0000_0000_0000 ==> datapoint.total_us * 1_000 <= done_at@
                - awaited.total_start@ < (datapoint.total_us + 1) * 1_000
            &&& awaited.response_wait_start@ <= now@ <= u128::MAX ==> (now@
                - awaited.response_wait_start@) as int / 1_000 % 0x1_0000_0000_0000_0000
                == datapoint.response_wait_us as int % 0x1_0000_0000_0000_0000
            &&& awaited.total_start@ <= done_at@ <= u128::MAX ==> (done_at@
                - awaited.total_start@) as int / 1_000 % 0x1_0000_0000_0000_0000
                == datapoint.total_us as int % 0x1_0000_0000_0000_0000
        },
{
    half_of_the_numbers_are_kept(awaited.command.subject());
    half_of_the_numbers_are_kept(awaited.queue_len_before_send as u64);
    if let WaitStep::Finish { datapoint, .. } = step {
        if awaited.response_wait_start@ <= now@ <= u128::MAX {
            reported_time_wraps_round(
                awaited.response_wait_start,
                now,
                datapoint.response_wait_us,
            );
        }
        if awaited.total_start@ <= done_at@ <= u128::MAX {
            reported_time_wraps_round(awaited.total_start, done_at, datapoint.total_us);
        }
    }
}

/// Without a response the sender fails if none will come, and otherwise warns with the whole
/// milliseconds that it has waited and waits on, for a tenth of a second.
pub proof fn wait_ends_only_when_no_response_will_come<T>(
    awaited: &AwaitedCommand,
    now: Instant,
    done_at: Instant,
    lost: WaitStep<T>,
    early: WaitStep<T>,
    interval: Duration,
)
    requires
        call_ensures(
            AwaitedCommand::received::<T>,
            (awaited, ReceiveOutcome::Disconnected, now, done_at),
            lost,
        ),
        call_ensures(
            AwaitedCommand::received::<T>,
            (awaited, ReceiveOutcome::TimedOut, now, done_at),
            early,
        ),
        call_ensures(AwaitedCommand::poll_interval, (awaited,), interval),
    ensures
        lost matches WaitStep::Fail(error) && error == BankForksControllerError::Disconnected,
        early matches WaitStep::WarnAndWait { waited_ms } && {
            &&& now@ <= awaited.response_wait_start@ ==> waited_ms == 0
            &&& awaited.response_wait_start@ <= now@ && now@ <= u128::MAX ==> waited_ms * 1_000_000
                <= now@ - awaited.response_wait_start@ < (waited_ms + 1) * 1_000_000
        },
        interval@ * 10 == 1_000_000_000,
{
}

/// A bank is inserted if the replay stage hands it back. Without one it was stale, and an error of
/// the replay stage is passed on.
pub proof fn stale_banks_are_not_inserted<W>(
    bank_slot: Slot,
    bank: W,
    error: BankForksControllerError,
    inserted: Result<W, BankForksControllerError>,
    stale: Result<W, BankForksControllerError>,
    failed: Result<W, BankForksControllerError>,
)
    requires
        call_ensures(inserted_bank::<W>, (bank_slot, Ok(Some(bank))), inserted),
        call_ensures(inserted_bank::<W>, (bank_slot, Ok(None)), stale),
        call_ensures(inserted_bank::<W>, (bank_slot, Err(error)), failed),
    ensures
        inserted matches Ok(handed_on) && handed_on == bank,
        stale matches Err(reason) && reason == BankForksControllerError::UnableToInsertStaleBank(
            bank_slot,
        ),
        failed matches Err(reason) && reason == error,
{
}

/// A command is reported under its own name and under the slot that it is about: that of the bank,
/// the new root, or the one that is cleared.
pub proof fn commands_have_names_and_slots(
    command: &BankForksCommand,
    name: &'static str,
    slot: Slot,
)
    requires
        call_ensures(BankForksCommand::name, (command,), name),
        call_ensures(BankForksCommand::metric_slot, (command,), slot),
    ensures
        command matches BankForksCommand::InsertBank { bank_slot } ==> name@ == "insert_bank"@
            && slot == bank_slot,
        command matches BankForksCommand::SetRoot { new_root, .. } ==> name@ == "set_root"@ && slot
            == new_root,
        command matches BankForksCommand::ClearBank { slot: cleared } ==> name@ == "clear_bank"@
            && slot == cleared,
{
}

/// The message for a stale bank names its slot in decimal: the digits for a slot are those for a
/// tenth of it, which are none for a slot below ten, and then the one for what is left. Also
/// returns the digits that come before the last one.
pub proof fn messages_name_the_slot(
    slot: Slot,
    message: String,
    tenth: String,
    disconnected: String,
) -> (digits: Seq<char>)
    requires
        call_ensures(
            BankForksControllerError::message,
            (&BankForksControllerError::UnableToInsertStaleBank(slot),),
            message,
        ),
        call_ensures(
            BankForksControllerError::message,
            (&BankForksControllerError::UnableToInsertStaleBank(slot / 10),),
            tenth,
        ),
        call_ensures(
            BankForksControllerError::message,
            (&BankForksControllerError::Disconnected,),
            disconnected,
        ),
    ensures
        message@ == "bank to insert for slot "@ + digits.push(
            ('0' as int + slot % 10) as char,
        ) + " was stale, failed to insert"@,
        slot < 10 ==> digits.len() == 0,
        slot >= 10 ==> tenth@ == "bank to insert for slot "@ + digits
            + " was stale, failed to insert"@,
        disconnected@ == "bank forks controller is disconnected"@,
{
    if slot < 10 {
        assert(decimal(slot as nat) =~= Seq::<char>::empty().push(digit(slot as nat)));
        Seq::empty()
    } else {
        decimal(slot as nat / 10)
    }
}

} // verus!
