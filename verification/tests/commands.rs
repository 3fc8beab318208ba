use ssd1351::async_interface::{DisplayError, Phase};
use ssd1351::command::Command;
use ssd1351::recording::RecordingInterface;

fn sent(command: Command) -> Vec<(Phase, Vec<u8>)> {
    let mut bus = RecordingInterface::new();
    assert_eq!(command.send_async(&mut bus), Ok(()));
    bus.into_records().into_iter().map(|r| (r.phase, r.bytes)).collect()
}

#[test]
fn encode_commands_with_one_parameter() {
    assert_eq!(Command::CommandLock(0x12).encode(), (0xFD, [0x12, 0, 0, 0, 0, 0], 1));
    assert_eq!(Command::ClockDiv(0xF1).encode(), (0xB3, [0xF1, 0, 0, 0, 0, 0], 1));
    assert_eq!(Command::MuxRatio(127).encode(), (0xCA, [127, 0, 0, 0, 0, 0], 1));
    assert_eq!(Command::StartLine(3).encode(), (0xA1, [3, 0, 0, 0, 0, 0], 1));
    assert_eq!(Command::DisplayOffset(4).encode(), (0xA2, [4, 0, 0, 0, 0, 0], 1));
    assert_eq!(Command::SetGpio(5).encode(), (0xB5, [5, 0, 0, 0, 0, 0], 1));
    assert_eq!(Command::FunctionSelect(1).encode(), (0xAB, [1, 0, 0, 0, 0, 0], 1));
    assert_eq!(Command::PreCharge(0x32).encode(), (0xB1, [0x32, 0, 0, 0, 0, 0], 1));
    assert_eq!(Command::Vcomh(5).encode(), (0xBE, [5, 0, 0, 0, 0, 0], 1));
    assert_eq!(Command::ContrastCurrent(0x0F).encode(), (0xC7, [0x0F, 0, 0, 0, 0, 0], 1));
    assert_eq!(Command::PreCharge2(1).encode(), (0xB6, [1, 0, 0, 0, 0, 0], 1));
}

#[test]
fn encode_commands_without_parameters() {
    assert_eq!(Command::DisplayOn(true).encode(), (0xAF, [0; 6], 0));
    assert_eq!(Command::DisplayOn(false).encode(), (0xAE, [0; 6], 0));
    assert_eq!(Command::Invert(true).encode(), (0xA7, [0; 6], 0));
    assert_eq!(Command::Invert(false).encode(), (0xA6, [0; 6], 0));
    assert_eq!(Command::WriteRam.encode(), (0x5C, [0; 6], 0));
}

#[test]
fn encode_commands_with_several_parameters() {
    assert_eq!(Command::Column(2, 127).encode(), (0x15, [2, 127, 0, 0, 0, 0], 2));
    assert_eq!(Command::Row(7, 95).encode(), (0x75, [7, 95, 0, 0, 0, 0], 2));
    assert_eq!(Command::Contrast(0x8F).encode(), (0xC1, [0xC8, 0x8F, 0xC8, 0, 0, 0], 3));
    assert_eq!(Command::SetVsl.encode(), (0xB4, [0xA0, 0xB5, 0x55, 0, 0, 0], 3));
}

#[test]
fn encode_remap_sets_one_bit_for_each_flag() {
    assert_eq!(Command::SetRemap(false, false, false).encode(), (0xA0, [0x24, 0, 0, 0, 0, 0], 1));
    assert_eq!(Command::SetRemap(true, false, false).encode(), (0xA0, [0x25, 0, 0, 0, 0, 0], 1));
    assert_eq!(Command::SetRemap(false, true, false).encode(), (0xA0, [0x26, 0, 0, 0, 0, 0], 1));
    assert_eq!(Command::SetRemap(false, false, true).encode(), (0xA0, [0x34, 0, 0, 0, 0, 0], 1));
    assert_eq!(Command::SetRemap(true, true, true).encode(), (0xA0, [0x37, 0, 0, 0, 0, 0], 1));
}

#[test]
fn encode_is_the_same_every_time() {
    let commands = [
        Command::CommandLock(0xB1),
        Command::SetRemap(true, false, true),
        Command::Column(0, 127),
        Command::Contrast(1),
        Command::SetVsl,
        Command::WriteRam,
    ];
    for command in commands {
        let first = command.encode();
        let second = command.encode();
        assert_eq!(first, second);
        assert!(first.2 <= 6);
    }
}

#[test]
fn command_goes_out_as_opcode_then_parameters() {
    assert_eq!(
        sent(Command::Contrast(0x8F)),
        vec![(Phase::Command, vec![0xC1]), (Phase::Data, vec![0xC8, 0x8F, 0xC8])]
    );
    assert_eq!(
        sent(Command::Column(0, 127)),
        vec![(Phase::Command, vec![0x15]), (Phase::Data, vec![0, 127])]
    );
}

#[test]
fn command_without_parameters_goes_out_as_opcode_alone() {
    assert_eq!(sent(Command::WriteRam), vec![(Phase::Command, vec![0x5C])]);
    assert_eq!(sent(Command::DisplayOn(true)), vec![(Phase::Command, vec![0xAF])]);
}

#[test]
fn command_stops_when_the_opcode_is_refused() {
    let mut bus = RecordingInterface::failing_after(0, DisplayError::DCError);
    assert_eq!(Command::ClockDiv(1).send_async(&mut bus), Err(DisplayError::DCError));
    assert_eq!(bus.last_fault(), Some(DisplayError::DCError));
    assert!(bus.records().is_empty());
}

#[test]
fn command_stops_when_the_parameters_are_refused() {
    let mut bus = RecordingInterface::failing_after(1, DisplayError::BusWriteError);
    assert_eq!(Command::ClockDiv(1).send_async(&mut bus), Err(DisplayError::BusWriteError));
    let records = bus.into_records();
    assert_eq!(records.len(), 1);
    assert_eq!(records[0].phase, Phase::Command);
    assert_eq!(records[0].bytes, vec![0xB3]);
}
