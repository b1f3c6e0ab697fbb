use axdriver_aic8800::device::Aic8800Product;
use axdriver_aic8800::management::{
    AicManagementClient, AicManagementError, MM_GET_FIRMWARE_VERSION_CONFIRM,
    MM_GET_FIRMWARE_VERSION_REQUEST, MM_SET_STACK_START_CONFIRM, MM_SET_STACK_START_REQUEST,
    ManagementDecodeError,
};
use axdriver_aic8800::protocol::ProtocolError;
use axdriver_aic8800::response::{AicResponseError, AicResponseIo};
use axdriver_aic8800::sdio::{AicBusLog, AicCommandIo};
use axdriver_aic8800::transaction::AicTransactionError;

/// A device that answers each request with a prepared confirmation, or stays silent.
struct ScriptedDevice {
    stack_start_reply: Vec<u8>,
    version_reply: Vec<u8>,
    silent: bool,
    response: [u8; 512],
    requests: Vec<(u16, Vec<u8>)>,
    waited_ms: u32,
}

impl ScriptedDevice {
    fn new(stack_start_reply: &[u8], version_reply: &[u8]) -> Self {
        Self {
            stack_start_reply: stack_start_reply.to_vec(),
            version_reply: version_reply.to_vec(),
            silent: false,
            response: [0; 512],
            requests: Vec::new(),
            waited_ms: 0,
        }
    }

    fn prepare(&mut self, id: u16, parameter: &[u8]) {
        self.response.fill(0);
        self.response[0..2].copy_from_slice(&(12_u16 + parameter.len() as u16).to_le_bytes());
        self.response[2] = 0x11;
        self.response[4..6].copy_from_slice(&id.to_le_bytes());
        self.response[10..12].copy_from_slice(&(parameter.len() as u16).to_le_bytes());
        self.response[16..16 + parameter.len()].copy_from_slice(parameter);
    }
}

impl AicBusLog for ScriptedDevice {
    fn bus_log(&self) -> vstd::seq::Seq<axdriver_aic8800::sdio::BusOperation> {
        vstd::seq::Seq::empty()
    }
}

impl AicCommandIo for ScriptedDevice {
    type Error = ();

    fn read_register(&mut self, _function: u8, _address: u32) -> Result<u8, Self::Error> {
        Ok(1)
    }

    fn write_fifo(
        &mut self,
        _function: u8,
        _address: u32,
        data: &mut [u8],
    ) -> Result<(), Self::Error> {
        let request = u16::from_le_bytes(data[8..10].try_into().unwrap());
        let parameter_length = usize::from(u16::from_le_bytes(data[14..16].try_into().unwrap()));
        self.requests
            .push((request, data[16..16 + parameter_length].to_vec()));
        match request {
            MM_SET_STACK_START_REQUEST => {
                let reply = self.stack_start_reply.clone();
                self.prepare(MM_SET_STACK_START_CONFIRM, &reply);
            }
            MM_GET_FIRMWARE_VERSION_REQUEST => {
                let reply = self.version_reply.clone();
                self.prepare(MM_GET_FIRMWARE_VERSION_CONFIRM, &reply);
            }
            value => panic!("unexpected request {value:#06x}"),
        }
        Ok(())
    }

    fn delay_us(&mut self, _microseconds: u32) {}

    fn delay_ms(&mut self, _milliseconds: u32) {}
}

impl AicResponseIo for ScriptedDevice {
    type Error = ();

    fn read_register(&mut self, _function: u8, _address: u32) -> Result<u8, Self::Error> {
        Ok(if self.silent { 0 } else { 1 })
    }

    fn write_register(
        &mut self,
        _function: u8,
        _address: u32,
        _value: u8,
    ) -> Result<(), Self::Error> {
        unreachable!()
    }

    fn read_fifo(
        &mut self,
        _function: u8,
        _address: u32,
        output: &mut [u8],
    ) -> Result<(), Self::Error> {
        output.copy_from_slice(&self.response[..output.len()]);
        Ok(())
    }

    fn delay_ms(&mut self, milliseconds: u32) {
        self.waited_ms += milliseconds;
    }
}

#[test]
fn starts_the_d80_stack_and_reads_the_build_version_text() {
    let mut device = ScriptedDevice::new(&[1, 0x5a], &[5, b'v', b'6', b'.', b'4', b'3']);
    let mut transmit = [0_u8; 1024];
    let mut receive = [0_u8; 512];
    let mut client = AicManagementClient::new(
        &mut device,
        Aic8800Product::Aic8800D80,
        &mut transmit,
        &mut receive,
        100,
    );

    let stack = client.start_d80_stack().unwrap();
    assert!(stack.supports_5ghz);
    assert_eq!(stack.vendor_info, 0x5a);
    let version = client.read_firmware_build_version().unwrap();
    assert_eq!(version.as_bytes(), b"v6.43");

    assert_eq!(
        device.requests,
        vec![
            (MM_SET_STACK_START_REQUEST, vec![1, 0, 0x20, 0]),
            (MM_GET_FIRMWARE_VERSION_REQUEST, vec![0]),
        ]
    );
}

#[test]
fn management_client_reports_decode_errors_and_timeouts() {
    let mut device = ScriptedDevice::new(&[1], &[70]);
    let mut transmit = [0_u8; 1024];
    let mut receive = [0_u8; 512];
    let mut client = AicManagementClient::new(
        &mut device,
        Aic8800Product::Aic8800D80,
        &mut transmit,
        &mut receive,
        3,
    );
    assert_eq!(
        client.start_d80_stack(),
        Err(AicManagementError::Decode(
            ManagementDecodeError::TruncatedStackStart {
                required: 2,
                available: 1
            }
        ))
    );
    assert_eq!(
        client.read_firmware_build_version(),
        Err(AicManagementError::Decode(
            ManagementDecodeError::FirmwareVersionTextTooLong {
                length: 70,
                capacity: 63
            }
        ))
    );

    let mut silent = ScriptedDevice::new(&[1, 0], &[0]);
    silent.silent = true;
    let mut client = AicManagementClient::new(
        &mut silent,
        Aic8800Product::Aic8800D80,
        &mut transmit,
        &mut receive,
        3,
    );
    assert_eq!(
        client.start_d80_stack(),
        Err(AicManagementError::Transaction(AicTransactionError::Receive(
            AicResponseError::Timeout { milliseconds: 3 }
        )))
    );
    assert_eq!(silent.waited_ms, 3);
}

#[test]
fn commands_that_do_not_fit_transmit_storage_fail_before_the_bus() {
    let mut device = ScriptedDevice::new(&[1, 0], &[0]);
    let mut small = [0_u8; 10];
    let mut receive = [0_u8; 512];
    let mut client = AicManagementClient::new(
        &mut device,
        Aic8800Product::Aic8800D80,
        &mut small,
        &mut receive,
        3,
    );
    assert_eq!(
        client.start_d80_stack(),
        Err(AicManagementError::Transaction(AicTransactionError::Protocol(
            ProtocolError::OutputTooShort {
                required: 20,
                available: 10
            }
        )))
    );
    let mut one_frame = [0_u8; 100];
    let mut client = AicManagementClient::new(
        &mut device,
        Aic8800Product::Aic8800D80,
        &mut one_frame,
        &mut receive,
        3,
    );
    assert_eq!(
        client.start_d80_stack(),
        Err(AicManagementError::Transaction(AicTransactionError::Protocol(
            ProtocolError::OutputTooShort {
                required: 512,
                available: 100
            }
        )))
    );
    assert!(device.requests.is_empty());
    assert_eq!(device.waited_ms, 0);
}
