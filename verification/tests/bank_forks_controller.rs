use votor::bank_forks_controller::{
    inserted_bank, BankForksCommand, BankForksControllerError, CommandDatapoint, ReceiveOutcome,
    SendingCommand, WaitStep, CHANNEL_SIZE,
};
use votor::time::{Duration, Instant};

fn at_micros(micros: u64) -> Instant {
    Instant::since_epoch(Duration::from_micros(micros))
}

fn set_root() -> BankForksCommand {
    BankForksCommand::SetRoot {
        my_pubkey: [9; 32],
        parent_slot: 4,
        new_root: 5,
        highest_super_majority_root: Some(3),
    }
}

fn sending(command: BankForksCommand) -> SendingCommand {
    SendingCommand {
        command,
        queue_len_before_send: 2,
        total_start: at_micros(100),
        send_start: at_micros(103),
    }
}

#[test]
fn commands_are_reported_by_name_and_slot() {
    let insert = BankForksCommand::InsertBank { bank_slot: 8 };
    assert_eq!(insert.name(), "insert_bank");
    assert_eq!(insert.metric_slot(), 8);
    assert_eq!(set_root().name(), "set_root");
    assert_eq!(set_root().metric_slot(), 5);
    let clear = BankForksCommand::ClearBank { slot: 6 };
    assert_eq!(clear.name(), "clear_bank");
    assert_eq!(clear.metric_slot(), 6);
}

#[test]
fn errors_in_words() {
    assert_eq!(
        BankForksControllerError::Disconnected.message(),
        "bank forks controller is disconnected"
    );
    for slot in [0, 7, 10, 1234567890, u64::MAX] {
        assert_eq!(
            BankForksControllerError::UnableToInsertStaleBank(slot).message(),
            format!("bank to insert for slot {slot} was stale, failed to insert")
        );
    }
}

#[test]
fn undelivered_command_fails() {
    let result = sending(set_root()).sent(false, at_micros(110), at_micros(111));
    assert!(matches!(result, Err(BankForksControllerError::Disconnected)));
}

#[test]
fn answered_command_is_reported() {
    let command = BankForksCommand::ClearBank { slot: u64::MAX };
    let awaited = match sending(command).sent(true, at_micros(110), at_micros(112)) {
        Ok(awaited) => awaited,
        Err(_) => panic!("the command was delivered"),
    };
    assert_eq!(awaited.poll_interval(), Duration::from_millis(100));
    match awaited.received(ReceiveOutcome::<u8>::TimedOut, at_micros(100_112), at_micros(0)) {
        WaitStep::WarnAndWait { waited_ms } => assert_eq!(waited_ms, 100),
        _ => panic!("a timeout does not end the wait"),
    }
    match awaited.received(ReceiveOutcome::Response(3u8), at_micros(150_112), at_micros(150_113)) {
        WaitStep::Finish {
            response,
            datapoint,
        } => {
            assert_eq!(response, 3);
            assert_eq!(
                datapoint,
                CommandDatapoint {
                    command: "clear_bank",
                    slot: -1,
                    queue_len_before_send: 2,
                    send_us: 7,
                    response_wait_us: 150_000,
                    total_us: 150_013,
                }
            );
        }
        _ => panic!("a response ends the wait"),
    }
}

#[test]
fn lost_responder_fails_the_command() {
    let awaited = match sending(set_root()).sent(true, at_micros(110), at_micros(112)) {
        Ok(awaited) => awaited,
        Err(_) => panic!("the command was delivered"),
    };
    let step = awaited.received(ReceiveOutcome::<u8>::Disconnected, at_micros(120), at_micros(121));
    assert!(matches!(
        step,
        WaitStep::Fail(BankForksControllerError::Disconnected)
    ));
}

#[test]
fn stale_bank_is_an_error() {
    assert_eq!(inserted_bank(9, Ok(Some('b'))), Ok('b'));
    assert_eq!(
        inserted_bank::<char>(9, Ok(None)),
        Err(BankForksControllerError::UnableToInsertStaleBank(9))
    );
    assert_eq!(
        inserted_bank::<char>(9, Err(BankForksControllerError::Disconnected)),
        Err(BankForksControllerError::Disconnected)
    );
}

#[test]
fn channel_holds_sixteen_commands() {
    assert_eq!(CHANNEL_SIZE, 16);
}
