use axdriver_aic8800::association::{AicAssociationClient, EthernetSendError};
use axdriver_aic8800::device::Aic8800Product;
use axdriver_aic8800::response::AicResponseIo;
use axdriver_aic8800::sdio::{AicBusLog, AicCommandIo};
use axdriver_aic8800::tx::{DataSendError, DataTransmitError};

/// A device whose data flow-control register reports `credit` buffers.
struct DataDevice {
    credit: u8,
    written: Vec<Vec<u8>>,
    flow_reads: usize,
}

impl AicBusLog for DataDevice {
    fn bus_log(&self) -> vstd::seq::Seq<axdriver_aic8800::sdio::BusOperation> {
        vstd::seq::Seq::empty()
    }
}

impl AicCommandIo for DataDevice {
    type Error = ();

    fn read_register(&mut self, _function: u8, _address: u32) -> Result<u8, Self::Error> {
        self.flow_reads += 1;
        Ok(self.credit)
    }

    fn write_fifo(
        &mut self,
        _function: u8,
        _address: u32,
        data: &mut [u8],
    ) -> Result<(), Self::Error> {
        self.written.push(data.to_vec());
        Ok(())
    }

    fn delay_us(&mut self, _microseconds: u32) {}

    fn delay_ms(&mut self, _milliseconds: u32) {}
}

impl AicResponseIo for DataDevice {
    type Error = ();

    fn read_register(&mut self, _function: u8, _address: u32) -> Result<u8, Self::Error> {
        Ok(0)
    }

    fn write_register(
        &mut self,
        _function: u8,
        _address: u32,
        _value: u8,
    ) -> Result<(), Self::Error> {
        unreachable!()
    }

    fn read_fifo(
        &mut self,
        _function: u8,
        _address: u32,
        _output: &mut [u8],
    ) -> Result<(), Self::Error> {
        unreachable!()
    }

    fn delay_ms(&mut self, _milliseconds: u32) {}
}

fn ethernet_frame(payload: &[u8]) -> Vec<u8> {
    let mut frame = vec![1, 2, 3, 4, 5, 6, 7, 8, 9, 10, 11, 12, 0x08, 0x00];
    frame.extend_from_slice(payload);
    frame
}

#[test]
fn sends_an_ethernet_frame_as_one_data_transfer() {
    let mut device = DataDevice {
        credit: 3,
        written: Vec::new(),
        flow_reads: 0,
    };
    let mut parameter = [0_u8; 8];
    let mut transmit = [0_u8; 2048];
    let mut receive = [0_u8; 512];
    let mut client = AicAssociationClient::new(
        &mut device,
        Aic8800Product::Aic8800D80,
        &mut parameter,
        &mut transmit,
        &mut receive,
        10,
    );
    let lengths = client
        .send_ethernet_frame(&ethernet_frame(&[0xab; 10]), 1, 2, 7)
        .unwrap();
    assert_eq!(lengths.frame_length, 42);
    assert_eq!(lengths.transfer_length, 512);
    assert_eq!(device.flow_reads, 1);
    assert_eq!(device.written.len(), 1);
    let transfer = &device.written[0];
    assert_eq!(transfer.len(), 512);
    assert_eq!(&transfer[0..3], &[38, 0, 0x01]);
    assert_eq!(&transfer[4..6], &10_u16.to_le_bytes());
    assert_eq!(&transfer[8..12], &(0x8000_0007_u32).to_le_bytes());
    assert_eq!(&transfer[12..18], &[1, 2, 3, 4, 5, 6]);
    assert_eq!(&transfer[18..24], &[7, 8, 9, 10, 11, 12]);
    assert_eq!(&transfer[24..26], &[0x08, 0x00]);
    assert_eq!(&transfer[26..30], &[1, 0, 1, 2]);
    assert_eq!(&transfer[32..42], &[0xab; 10]);
    assert!(transfer[42..].iter().all(|&byte| byte == 0));
}

#[test]
fn ethernet_send_reports_each_error_before_or_at_the_bus() {
    let mut device = DataDevice {
        credit: 2,
        written: Vec::new(),
        flow_reads: 0,
    };
    let mut parameter = [0_u8; 8];
    let mut transmit = [0_u8; 8192];
    let mut receive = [0_u8; 512];
    let mut client = AicAssociationClient::new(
        &mut device,
        Aic8800Product::Aic8800D80,
        &mut parameter,
        &mut transmit,
        &mut receive,
        10,
    );
    assert_eq!(
        client.send_ethernet_frame(&[0u8; 13], 0, 0, 0),
        Err(EthernetSendError::TruncatedFrame {
            required: 14,
            available: 13
        })
    );
    assert_eq!(
        client.send_ethernet_frame(&ethernet_frame(&[0u8; 4068]), 0, 0, 0),
        Err(EthernetSendError::Encode(DataTransmitError::PayloadTooLong {
            maximum: 4067,
            actual: 4068
        }))
    );
    assert_eq!(
        client.send_ethernet_frame(&ethernet_frame(&[0u8; 4]), 0, 0, 0),
        Err(EthernetSendError::Send(
            DataSendError::InsufficientFlowControl { buffer_count: 2 }
        ))
    );
    assert_eq!(device.flow_reads, 51);
    assert!(device.written.is_empty());
}
