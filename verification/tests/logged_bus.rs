use std::collections::VecDeque;

use axdriver_aic8800::device::Aic8800Product;
use axdriver_aic8800::logged_bus::{AicRawBus, LoggedBus};
use axdriver_aic8800::response::{AicResponseError, read_config_response, receive_pending_frame};
use axdriver_aic8800::sdio::AicCommandIo;

#[derive(Clone, Debug, Eq, PartialEq)]
enum Access {
    ReadRegister(u8, u32),
    WriteRegister(u8, u32, u8),
    WriteFifo(u8, u32, Vec<u8>),
    ReadFifo(u8, u32, usize),
    DelayMs(u32),
}

struct RawDevice {
    statuses: VecDeque<u8>,
    frames: VecDeque<Vec<u8>>,
    accesses: Vec<Access>,
    fail_writes: bool,
}

impl AicRawBus for RawDevice {
    type Error = ();

    fn set_block_size(&mut self, _function: u8, _size: u16) -> Result<(), Self::Error> {
        Ok(())
    }

    fn enable_function(&mut self, _function: u8) -> Result<(), Self::Error> {
        Ok(())
    }

    fn write_register(&mut self, function: u8, address: u32, value: u8) -> Result<(), Self::Error> {
        self.accesses.push(Access::WriteRegister(function, address, value));
        if self.fail_writes { Err(()) } else { Ok(()) }
    }

    fn read_register(&mut self, function: u8, address: u32) -> Result<u8, Self::Error> {
        self.accesses.push(Access::ReadRegister(function, address));
        Ok(match (function, address) {
            (1, 0x04) => self.statuses.pop_front().unwrap_or(0),
            (1, 0x01) => 0x03,
            _ => 0,
        })
    }

    fn write_fifo(&mut self, function: u8, address: u32, data: &mut [u8]) -> Result<(), Self::Error> {
        self.accesses.push(Access::WriteFifo(function, address, data.to_vec()));
        Ok(())
    }

    fn read_fifo(&mut self, function: u8, address: u32, output: &mut [u8]) -> Result<(), Self::Error> {
        self.accesses.push(Access::ReadFifo(function, address, output.len()));
        let frame = self.frames.pop_front().unwrap_or_default();
        let length = frame.len().min(output.len());
        output[..length].copy_from_slice(&frame[..length]);
        Ok(())
    }

    fn delay_us(&mut self, _microseconds: u32) {}

    fn delay_ms(&mut self, milliseconds: u32) {
        self.accesses.push(Access::DelayMs(milliseconds));
    }
}

fn config_response_frame(id: u16, parameter: &[u8]) -> Vec<u8> {
    let packet_length = 12 + parameter.len();
    let mut frame = vec![0_u8; 4 + packet_length];
    frame[0..2].copy_from_slice(&(packet_length as u16).to_le_bytes());
    frame[2] = 0x11;
    frame[4..6].copy_from_slice(&id.to_le_bytes());
    frame[10..12].copy_from_slice(&(parameter.len() as u16).to_le_bytes());
    frame[16..16 + parameter.len()].copy_from_slice(parameter);
    frame.resize(512, 0);
    frame
}

#[test]
fn logged_bus_hands_the_device_the_reads_and_their_data() {
    let device = RawDevice {
        statuses: VecDeque::from([1]),
        frames: VecDeque::from([config_response_frame(0x0025, &[0, 7, 0, 0])]),
        accesses: Vec::new(),
        fail_writes: false,
    };
    let mut bus = LoggedBus::new(device);
    let mut output = [0_u8; 512];

    let response =
        read_config_response(&mut bus, Aic8800Product::Aic8800D80, 0x0025, &mut output, 2).unwrap();
    assert_eq!(response.id, 0x0025);
    assert_eq!(response.parameter, &[0, 7, 0, 0]);

    let device = bus.into_inner();
    assert_eq!(device.accesses[0], Access::ReadRegister(1, 0x04));
    assert_eq!(
        device
            .accesses
            .iter()
            .filter(|access| matches!(access, Access::ReadFifo(..)))
            .count(),
        1
    );
}

#[test]
fn logged_bus_times_out_after_one_poll_per_millisecond() {
    let device = RawDevice {
        statuses: VecDeque::new(),
        frames: VecDeque::new(),
        accesses: Vec::new(),
        fail_writes: false,
    };
    let mut bus = LoggedBus::new(device);
    let mut output = [0_u8; 512];

    assert_eq!(
        read_config_response(&mut bus, Aic8800Product::Aic8800D80, 0x0401, &mut output, 2),
        Err(AicResponseError::Timeout { milliseconds: 2 })
    );
    assert_eq!(
        bus.into_inner().accesses,
        vec![
            Access::ReadRegister(1, 0x04),
            Access::DelayMs(1),
            Access::ReadRegister(1, 0x04),
            Access::DelayMs(1),
            Access::ReadRegister(1, 0x04),
        ]
    );
}

#[test]
fn logged_bus_writes_the_fifo_data_unchanged() {
    let device = RawDevice {
        statuses: VecDeque::new(),
        frames: VecDeque::new(),
        accesses: Vec::new(),
        fail_writes: false,
    };
    let mut bus = LoggedBus::new(device);
    let mut data = [7_u8; 512];

    assert_eq!(AicCommandIo::write_fifo(&mut bus, 1, 0x07, &mut data), Ok(()));
    assert_eq!(data, [7_u8; 512]);
    assert_eq!(bus.into_inner().accesses, vec![Access::WriteFifo(1, 0x07, vec![7_u8; 512])]);
}

#[test]
fn receive_stops_at_the_failed_pending_write() {
    let device = RawDevice {
        statuses: VecDeque::from([0x81]),
        frames: VecDeque::new(),
        accesses: Vec::new(),
        fail_writes: true,
    };
    let mut bus = LoggedBus::new(device);
    let mut output = [0_u8; 512];

    assert_eq!(
        receive_pending_frame(&mut bus, Aic8800Product::Aic8800D80, &mut output),
        Err(AicResponseError::Io(()))
    );
    assert_eq!(
        bus.into_inner().accesses,
        vec![
            Access::ReadRegister(1, 0x04),
            Access::ReadRegister(1, 0x01),
            Access::WriteRegister(1, 0x01, 0x02),
        ]
    );
}
