//! A device handle that keeps the bus log itself: it wraps an adapter that only performs
//! raw bus accesses and records each one, with its answer, as it passes through, so the
//! driver's contracts hold of the adapter with nothing assumed of it.
use vstd::prelude::*;

use crate::response::AicResponseIo;
use crate::sdio::{AicBusLog, AicCommandIo, AicSdioIo, BusOperation};

verus! {

/// The raw bus accesses of an SDIO host adapter, with nothing stated of their answers.
pub trait AicRawBus {
    type Error;

    fn set_block_size(&mut self, function: u8, size: u16) -> Result<(), Self::Error>;

    fn enable_function(&mut self, function: u8) -> Result<(), Self::Error>;

    fn write_register(&mut self, function: u8, address: u32, value: u8) -> Result<(), Self::Error>;

    fn read_register(&mut self, function: u8, address: u32) -> Result<u8, Self::Error>;

    fn write_fifo(&mut self, function: u8, address: u32, data: &mut [u8]) -> Result<(), Self::Error>;

    fn read_fifo(&mut self, function: u8, address: u32, output: &mut [u8]) -> Result<(), Self::Error>;

    fn delay_us(&mut self, microseconds: u32);

    fn delay_ms(&mut self, milliseconds: u32);
}

/// A raw bus adapter together with the log of the operations performed through it.
pub struct LoggedBus<D> {
    device: D,
    log: Ghost<Seq<BusOperation>>,
}

impl<D: AicRawBus> LoggedBus<D> {
    /// Wraps `device`, with nothing performed through it yet.
    pub fn new(device: D) -> (bus: Self)
        ensures
            bus.bus_log() == Seq::<BusOperation>::empty(),
    {
        LoggedBus { device, log: Ghost(Seq::empty()) }
    }

    /// The wrapped adapter.
    pub fn into_inner(self) -> D {
        self.device
    }

    fn raw_read_register(&mut self, function: u8, address: u32) -> (result: Result<u8, D::Error>)
        ensures
            final(self).bus_log() == old(self).bus_log().push(
                BusOperation::ReadRegister {
                    function,
                    address,
                    value: match result {
                        Ok(v) => Some(v),
                        Err(_) => None,
                    },
                },
            ),
    {
        let result = self.device.read_register(function, address);
        let ghost value = match result {
            Ok(v) => Some(v),
            Err(_) => None,
        };
        self.log = Ghost(self.log@.push(BusOperation::ReadRegister { function, address, value }));
        result
    }

    fn raw_write_register(&mut self, function: u8, address: u32, value: u8) -> (result: Result<
        (),
        D::Error,
    >)
        ensures
            final(self).bus_log() == old(self).bus_log().push(
                BusOperation::WriteRegister { function, address, value, succeeded: result is Ok },
            ),
    {
        let result = self.device.write_register(function, address, value);
        self.log = Ghost(
            self.log@.push(
                BusOperation::WriteRegister { function, address, value, succeeded: result is Ok },
            ),
        );
        result
    }

    fn raw_delay_us(&mut self, microseconds: u32)
        ensures
            final(self).bus_log() == old(self).bus_log().push(
                BusOperation::DelayUs { microseconds },
            ),
    {
        self.device.delay_us(microseconds);
        self.log = Ghost(self.log@.push(BusOperation::DelayUs { microseconds }));
    }

    fn raw_delay_ms(&mut self, milliseconds: u32)
        ensures
            final(self).bus_log() == old(self).bus_log().push(
                BusOperation::DelayMs { milliseconds },
            ),
    {
        self.device.delay_ms(milliseconds);
        self.log = Ghost(self.log@.push(BusOperation::DelayMs { milliseconds }));
    }
}

impl<D> AicBusLog for LoggedBus<D> {
    closed spec fn bus_log(&self) -> Seq<BusOperation> {
        self.log@
    }
}

impl<D: AicRawBus> AicSdioIo for LoggedBus<D> {
    type Error = D::Error;

    fn set_block_size(&mut self, function: u8, size: u16) -> (result: Result<(), Self::Error>) {
        let result = self.device.set_block_size(function, size);
        self.log = Ghost(
            self.log@.push(BusOperation::SetBlockSize { function, size, succeeded: result is Ok }),
        );
        result
    }

    fn enable_function(&mut self, function: u8) -> (result: Result<(), Self::Error>) {
        let result = self.device.enable_function(function);
        self.log = Ghost(
            self.log@.push(BusOperation::EnableFunction { function, succeeded: result is Ok }),
        );
        result
    }

    fn write_register(&mut self, function: u8, address: u32, value: u8) -> (result: Result<
        (),
        Self::Error,
    >) {
        self.raw_write_register(function, address, value)
    }

    fn read_register(&mut self, function: u8, address: u32) -> (result: Result<u8, Self::Error>) {
        self.raw_read_register(function, address)
    }

    fn delay_us(&mut self, microseconds: u32) {
        self.raw_delay_us(microseconds)
    }

    fn delay_ms(&mut self, milliseconds: u32) {
        self.raw_delay_ms(milliseconds)
    }
}

impl<D: AicRawBus> AicCommandIo for LoggedBus<D> {
    type Error = D::Error;

    fn read_register(&mut self, function: u8, address: u32) -> (result: Result<u8, Self::Error>) {
        self.raw_read_register(function, address)
    }

    /// The adapter is handed a copy of `data`, which therefore keeps its contents.
    fn write_fifo(&mut self, function: u8, address: u32, data: &mut [u8]) -> (result: Result<
        (),
        Self::Error,
    >) {
        let mut buffer: Vec<u8> = Vec::new();
        let mut i: usize = 0;
        while i < data.len()
            invariant
                i <= data@.len(),
                buffer@ == data@.take(i as int),
            decreases data@.len() - i,
        {
            buffer.push(data[i]);
            i = i + 1;
            assert(buffer@ =~= data@.take(i as int));
        }
        assert(buffer@ =~= data@);
        let result = self.device.write_fifo(function, address, buffer.as_mut_slice());
        self.log = Ghost(
            self.log@.push(
                BusOperation::WriteFifo { function, address, data: data@, succeeded: result is Ok },
            ),
        );
        result
    }

    fn delay_us(&mut self, microseconds: u32) {
        self.raw_delay_us(microseconds)
    }

    fn delay_ms(&mut self, milliseconds: u32) {
        self.raw_delay_ms(milliseconds)
    }
}

impl<D: AicRawBus> AicResponseIo for LoggedBus<D> {
    type Error = D::Error;

    fn read_register(&mut self, function: u8, address: u32) -> (result: Result<u8, Self::Error>) {
        self.raw_read_register(function, address)
    }

    fn write_register(&mut self, function: u8, address: u32, value: u8) -> (result: Result<
        (),
        Self::Error,
    >) {
        self.raw_write_register(function, address, value)
    }

    /// The adapter reads into a buffer of the same length, which is then copied into
    /// `output`: what the log records is what `output` holds.
    fn read_fifo(&mut self, function: u8, address: u32, output: &mut [u8]) -> (result: Result<
        (),
        Self::Error,
    >) {
        let ghost length = output@.len();
        let mut buffer: Vec<u8> = vec![0u8; output.len()];
        let result = self.device.read_fifo(function, address, buffer.as_mut_slice());
        let mut i: usize = 0;
        while i < output.len() && i < buffer.len()
            invariant
                output@.len() == length,
            decreases output@.len() - i,
        {
            output[i] = buffer[i];
            i = i + 1;
        }
        let ghost data = if result is Ok {
            Some(output@)
        } else {
            None
        };
        self.log = Ghost(
            self.log@.push(BusOperation::ReadFifo { function, address, length, data }),
        );
        result
    }

    fn delay_ms(&mut self, milliseconds: u32) {
        self.raw_delay_ms(milliseconds)
    }
}

} // verus!
