//! Booting a D80: uploading the Bluetooth images and applying the patch table, uploading
//! the Wi-Fi firmware, pointing its patch structure at the Wi-Fi patch, and starting it.
use vstd::prelude::*;

use crate::patch_table::{
    AicPatchApplyError, AicPatchMemory, AicPatchTable, AicPatchTableError, D80PatchInfoView,
    MemoryOperation, apply_d80_bt_patch_table, apply_plan, d80_sdio_bt_default_patch_settings,
    memory_log_extends, parse_d80_patch_info, spec_d80_sdio_bt_default_patch_settings,
    spec_parse_d80_patch_info, steps_executed, table_sections,
};

verus! {

/// Address of the chip version register.
pub const D80_CHIP_VERSION_ADDRESS: u32 = 0x4050_0000;

/// Where the Wi-Fi firmware is loaded and started.
pub const D80_WIFI_FIRMWARE_ADDRESS: u32 = 0x0012_0000;

/// Boot type that lets the firmware pick its start.
pub const D80_HOST_START_APP_AUTO: u32 = 1;

/// Firmware word that points at the configuration base.
pub const D80_PATCH_POINTER_ADDRESS: u32 = 0x0012_0198;

/// Firmware word that points at the patch structure.
pub const D80_PATCH_STRUCTURE_POINTER_ADDRESS: u32 = 0x0012_01a0;

/// Firmware word that points at the patch buffer of newer firmware.
pub const D80_PATCH_BUFFER_POINTER_ADDRESS: u32 = 0x0012_01a4;

/// Firmware word holding the firmware version.
pub const D80_FIRMWARE_VERSION_ADDRESS: u32 = 0x0012_001c;

/// Firmware newer than this version says where its patch buffer is.
pub const D80_NEW_PATCH_BUFFER_VERSION: u32 = 0x0609_0100;

/// The patch buffer of older firmware.
pub const D80_LEGACY_PATCH_BUFFER_ADDRESS: u32 = 0x0016_f800;

/// Words that mark a patch structure.
pub const AIC_PATCH_MAGIC: u32 = 0x4843_5450;

pub const AIC_PATCH_MAGIC_2: u32 = 0x5054_4348;

/// The memory access that booting a D80 needs, on top of word writes. Every method adds
/// the one operation it performed, with its answer, to the memory log.
pub trait D80FirmwareIo: AicPatchMemory {
    fn read_word(&mut self, address: u32) -> (result: Result<u32, Self::Error>)
        ensures
            final(self).memory_log() == old(self).memory_log().push(
                MemoryOperation::ReadWord {
                    address,
                    value: match result {
                        Ok(value) => Some(value),
                        Err(_) => None,
                    },
                },
            ),
    ;

    fn upload_image(&mut self, address: u32, image: &[u8]) -> (result: Result<(), Self::Error>)
        ensures
            final(self).memory_log() == old(self).memory_log().push(
                MemoryOperation::UploadImage { address, image: image@, succeeded: result is Ok },
            ),
    ;

    fn start_app(&mut self, address: u32, boot_type: u32) -> (result: Result<u32, Self::Error>)
        ensures
            final(self).memory_log() == old(self).memory_log().push(
                MemoryOperation::StartApp {
                    address,
                    boot_type,
                    status: match result {
                        Ok(status) => Some(status),
                        Err(_) => None,
                    },
                },
            ),
    ;
}

/// An extension patch image with the identifier the patch table must list for it.
#[derive(Clone, Copy, Debug, Eq, PartialEq)]
pub struct D80ExtPatchImage<'a> {
    pub id: u32,
    pub bytes: &'a [u8],
}

#[derive(Clone, Copy, Debug, Eq, PartialEq, Structural)]
pub enum D80FirmwareOperation {
    UploadAdid,
    UploadBluetoothPatch,
    UploadBluetoothExtension,
    UploadWifi,
    ReadConfigBase,
    ReadPatchStructure,
    ReadFirmwareVersion,
    ReadPatchBuffer,
    WritePatchStructure,
    WritePatchPair,
    WritePatchBlockSize,
    StartWifi,
}

#[derive(Clone, Copy, Debug, Eq, PartialEq)]
pub enum D80FirmwareError<E> {
    PatchTable(AicPatchTableError),
    ExtensionCount { required: usize, available: usize },
    ExtensionId { index: usize, required: u32, actual: u32 },
    AddressOverflow,
    Operation { operation: D80FirmwareOperation, source: E },
    PatchApply(AicPatchApplyError<E>),
}

/// Appending to a log appends to what follows any prefix of it.
proof fn lemma_log_push(log: Seq<MemoryOperation>, start: Seq<MemoryOperation>, operation: MemoryOperation)
    requires
        memory_log_extends(start, log),
    ensures
        memory_log_extends(start, log.push(operation)),
        log.push(operation).skip(start.len() as int) == log.skip(start.len() as int).push(operation),
{
    assert(log.push(operation).take(start.len() as int) =~= log.take(start.len() as int));
    assert(log.push(operation).skip(start.len() as int) =~= log.skip(start.len() as int).push(
        operation,
    ));
}

/// A log extended twice extends the first.
proof fn lemma_log_chain(a: Seq<MemoryOperation>, b: Seq<MemoryOperation>, c: Seq<MemoryOperation>)
    requires
        memory_log_extends(a, b),
        memory_log_extends(b, c),
    ensures
        memory_log_extends(a, c),
        c.skip(a.len() as int) == b.skip(a.len() as int) + c.skip(b.len() as int),
{
    assert(c.take(a.len() as int) =~= c.take(b.len() as int).take(a.len() as int));
    assert(b.take(a.len() as int) == a);
    assert(c.skip(a.len() as int) =~= b.skip(a.len() as int) + c.skip(b.len() as int)) by {
        assert(c =~= c.take(b.len() as int) + c.skip(b.len() as int));
    }
}

// ---------------------------------------------------------------------------
// The Wi-Fi patch configuration.
// ---------------------------------------------------------------------------

/// A word write of the Wi-Fi patch configuration, its address and value computed without
/// wrapping, and the operation it belongs to.
pub struct PlannedWrite {
    pub address: int,
    pub value: int,
    pub operation: D80FirmwareOperation,
}

/// The writes of the Wi-Fi patch configuration: the two magic words, the patch buffer
/// and pair count into the patch structure; the three (configuration address, value)
/// pairs into the patch buffer; and four zero block sizes.
pub open spec fn wifi_patch_plan(config_base: u32, patch_structure: u32, patch_buffer: u32) -> Seq<
    PlannedWrite,
> {
    let s = D80FirmwareOperation::WritePatchStructure;
    let p = D80FirmwareOperation::WritePatchPair;
    let b = D80FirmwareOperation::WritePatchBlockSize;
    seq![
        PlannedWrite { address: patch_structure + 0, value: AIC_PATCH_MAGIC as int, operation: s },
        PlannedWrite { address: patch_structure + 8, value: AIC_PATCH_MAGIC_2 as int, operation: s },
        PlannedWrite { address: patch_structure + 4, value: patch_buffer as int, operation: s },
        PlannedWrite { address: patch_structure + 12, value: 3, operation: s },
        PlannedWrite { address: patch_buffer + 0, value: config_base + 0x00b4, operation: p },
        PlannedWrite { address: patch_buffer + 4, value: 0xf301_0000, operation: p },
        PlannedWrite { address: patch_buffer + 8, value: config_base + 0x0170, operation: p },
        PlannedWrite { address: patch_buffer + 12, value: 0x0100_000a, operation: p },
        PlannedWrite { address: patch_buffer + 16, value: config_base + 0x0188, operation: p },
        PlannedWrite { address: patch_buffer + 20, value: 3, operation: p },
        PlannedWrite { address: patch_structure + 48, value: 0, operation: b },
        PlannedWrite { address: patch_structure + 52, value: 0, operation: b },
        PlannedWrite { address: patch_structure + 56, value: 0, operation: b },
        PlannedWrite { address: patch_structure + 60, value: 0, operation: b },
    ]
}

/// Whether a planned write's address and value fit in 32 bits.
pub open spec fn write_fits(write: PlannedWrite) -> bool {
    0 <= write.address <= u32::MAX && 0 <= write.value <= u32::MAX
}

/// The operation a planned write is recorded as.
pub open spec fn planned_operation(write: PlannedWrite, succeeded: bool) -> MemoryOperation {
    MemoryOperation::WriteWord {
        address: write.address as u32,
        value: write.value as u32,
        succeeded,
    }
}

/// The first `n` planned writes, all succeeded.
pub open spec fn writes_done(plan: Seq<PlannedWrite>, n: int) -> Seq<MemoryOperation> {
    Seq::new(n as nat, |i: int| planned_operation(plan[i], true))
}

/// Whether `operations` and `result` are what carrying out `plan` gives: every write in
/// order, stopping with an overflow error before a write that does not fit, or with the
/// write's operation at the first refused write.
pub open spec fn planned_writes_executed<E>(
    plan: Seq<PlannedWrite>,
    operations: Seq<MemoryOperation>,
    result: Result<(), D80FirmwareError<E>>,
) -> bool {
    let n = operations.len() as int;
    match result {
        Ok(_) => n == plan.len() && (forall|i: int| 0 <= i < n ==> write_fits(#[trigger] plan[i]))
            && operations == writes_done(plan, n),
        Err(D80FirmwareError::AddressOverflow) => n < plan.len() && (forall|i: int|
            0 <= i < n ==> write_fits(#[trigger] plan[i])) && !write_fits(plan[n]) && operations
            == writes_done(plan, n),
        Err(D80FirmwareError::Operation { operation, .. }) => 1 <= n <= plan.len() && (forall|i: int|
            0 <= i < n ==> write_fits(#[trigger] plan[i])) && operations == writes_done(plan, n - 1).push(
            planned_operation(plan[n - 1], false),
        ) && operation == plan[n - 1].operation,
        Err(_) => false,
    }
}

/// The address of read `i` of the patch configuration: configuration base, patch
/// structure, firmware version, then patch buffer.
pub open spec fn wifi_patch_read_address(i: int) -> u32 {
    if i == 0 {
        D80_PATCH_POINTER_ADDRESS
    } else if i == 1 {
        D80_PATCH_STRUCTURE_POINTER_ADDRESS
    } else if i == 2 {
        D80_FIRMWARE_VERSION_ADDRESS
    } else {
        D80_PATCH_BUFFER_POINTER_ADDRESS
    }
}

/// The operation of read `i` of the patch configuration.
pub open spec fn wifi_patch_read_operation(i: int) -> D80FirmwareOperation {
    if i == 0 {
        D80FirmwareOperation::ReadConfigBase
    } else if i == 1 {
        D80FirmwareOperation::ReadPatchStructure
    } else if i == 2 {
        D80FirmwareOperation::ReadFirmwareVersion
    } else {
        D80FirmwareOperation::ReadPatchBuffer
    }
}

/// The value a read answered, if it is a read and was answered.
pub open spec fn read_value(operation: MemoryOperation) -> Option<u32> {
    match operation {
        MemoryOperation::ReadWord { value, .. } => value,
        _ => None,
    }
}

/// Whether `operation` is a read of `address`.
pub open spec fn is_read_of(operation: MemoryOperation, address: u32) -> bool {
    operation matches MemoryOperation::ReadWord { address: a, .. } && a == address
}

/// Whether the first `n` operations are the first `n` reads of the patch configuration,
/// each answered.
pub open spec fn reads_answered(operations: Seq<MemoryOperation>, n: int) -> bool {
    &&& 0 <= n <= operations.len()
    &&& forall|i: int|
        0 <= i < n ==> is_read_of(#[trigger] operations[i], wifi_patch_read_address(i))
            && read_value(operations[i]) is Some
}

/// How many reads a successful read phase takes when the firmware reports `version`:
/// newer firmware also says where its patch buffer is.
pub open spec fn wifi_patch_read_count(version: u32) -> int {
    if version > D80_NEW_PATCH_BUFFER_VERSION {
        4
    } else {
        3
    }
}

/// Whether the reads at the start of `operations` all succeeded.
pub open spec fn reads_succeeded(operations: Seq<MemoryOperation>) -> bool {
    reads_answered(operations, 3) && reads_answered(
        operations,
        wifi_patch_read_count(read_value(operations[2])->0),
    )
}

/// Configuration base, patch structure and patch buffer, as the reads answered.
pub open spec fn wifi_patch_locations(operations: Seq<MemoryOperation>) -> (u32, u32, u32) {
    (
        read_value(operations[0])->0,
        read_value(operations[1])->0,
        if read_value(operations[2])->0 > D80_NEW_PATCH_BUFFER_VERSION {
            read_value(operations[3])->0
        } else {
            D80_LEGACY_PATCH_BUFFER_ADDRESS
        },
    )
}

/// Whether `operations` and `result` are a run of the Wi-Fi patch configuration: the
/// reads, stopping at the first refused one, then the planned writes for what they
/// answered.
pub open spec fn wifi_patch_run<E>(
    operations: Seq<MemoryOperation>,
    result: Result<(), D80FirmwareError<E>>,
) -> bool {
    if reads_succeeded(operations) {
        let count = wifi_patch_read_count(read_value(operations[2])->0);
        let (config_base, patch_structure, patch_buffer) = wifi_patch_locations(operations);
        planned_writes_executed(
            wifi_patch_plan(config_base, patch_structure, patch_buffer),
            operations.skip(count),
            result,
        )
    } else {
        let n = operations.len() as int;
        &&& 1 <= n <= 4
        &&& reads_answered(operations, n - 1)
        &&& is_read_of(operations[n - 1], wifi_patch_read_address(n - 1))
        &&& read_value(operations[n - 1]) is None
        &&& (n == 4 ==> read_value(operations[2])->0 > D80_NEW_PATCH_BUFFER_VERSION)
        &&& result matches Err(D80FirmwareError::Operation { operation, .. }) && operation
            == wifi_patch_read_operation(n - 1)
    }
}

/// Reads one word, naming the operation on failure.
fn read_for<M: D80FirmwareIo>(io: &mut M, address: u32, operation: D80FirmwareOperation) -> (result:
    Result<u32, D80FirmwareError<M::Error>>)
    ensures
        final(io).memory_log() == old(io).memory_log().push(
            MemoryOperation::ReadWord {
                address,
                value: match result {
                    Ok(value) => Some(value),
                    Err(_) => None,
                },
            },
        ),
        result matches Err(error) ==> error matches D80FirmwareError::Operation { operation: o, .. }
            && o == operation,
{
    match io.read_word(address) {
        Ok(value) => Ok(value),
        Err(source) => Err(D80FirmwareError::Operation { operation, source }),
    }
}

/// Carries out the writes of a plan given as 64-bit sums, stopping before a write that
/// does not fit 32 bits or at the first refused one.
fn run_planned_writes<M: D80FirmwareIo>(
    io: &mut M,
    addresses: &[u64],
    values: &[u64],
    operations: &[D80FirmwareOperation],
    Ghost(plan): Ghost<Seq<PlannedWrite>>,
) -> (result: Result<(), D80FirmwareError<M::Error>>)
    requires
        addresses@.len() == plan.len(),
        values@.len() == plan.len(),
        operations@.len() == plan.len(),
        forall|i: int|
            0 <= i < plan.len() ==> (#[trigger] plan[i]).address == addresses@[i] && plan[i].value
                == values@[i] && plan[i].operation == operations@[i],
    ensures
        memory_log_extends(old(io).memory_log(), final(io).memory_log()),
        planned_writes_executed(
            plan,
            final(io).memory_log().skip(old(io).memory_log().len() as int),
            result,
        ),
{
    let ghost start = io.memory_log();
    let mut i: usize = 0;
    proof {
        assert(start.take(start.len() as int) =~= start);
        assert(start.skip(start.len() as int) =~= writes_done(plan, 0));
    }
    while i < addresses.len()
        invariant
            start == old(io).memory_log(),
            i <= plan.len(),
            addresses@.len() == plan.len(),
            values@.len() == plan.len(),
            operations@.len() == plan.len(),
            forall|k: int|
                0 <= k < plan.len() ==> (#[trigger] plan[k]).address == addresses@[k]
                    && plan[k].value == values@[k] && plan[k].operation == operations@[k],
            forall|k: int| 0 <= k < i ==> write_fits(#[trigger] plan[k]),
            memory_log_extends(start, io.memory_log()),
            io.memory_log().skip(start.len() as int) == writes_done(plan, i as int),
        decreases plan.len() - i,
    {
        assert(plan[i as int].address == addresses@[i as int]);
        if addresses[i] > 0xffff_ffff || values[i] > 0xffff_ffff {
            return Err(D80FirmwareError::AddressOverflow);
        }
        let ghost before = io.memory_log();
        let written = io.write_word(addresses[i] as u32, values[i] as u32);
        proof {
            lemma_log_push(before, start, io.memory_log().last());
        }
        match written {
            Err(source) => {
                assert(io.memory_log().skip(start.len() as int) =~= writes_done(plan, i as int).push(
                    planned_operation(plan[i as int], false),
                ));
                return Err(D80FirmwareError::Operation { operation: operations[i], source });
            },
            Ok(()) => {
                assert(io.memory_log().skip(start.len() as int) =~= writes_done(plan, i + 1));
            },
        }
        i = i + 1;
    }
    Ok(())
}

/// Points the Wi-Fi firmware's patch structure at the Wi-Fi patch: reads where the
/// configuration, the patch structure and the patch buffer are, then writes the patch
/// structure, the three patch pairs and zero block sizes, stopping at the first failure
/// or at an address that would not fit 32 bits.
pub fn configure_d80_wifi_patch<M: D80FirmwareIo>(io: &mut M) -> (result: Result<
    (),
    D80FirmwareError<M::Error>,
>)
    ensures
        memory_log_extends(old(io).memory_log(), final(io).memory_log()),
        wifi_patch_run(final(io).memory_log().skip(old(io).memory_log().len() as int), result),
{
    let ghost start = io.memory_log();
    proof {
        assert(start.take(start.len() as int) =~= start);
    }
    let ghost before = io.memory_log();
    let read = read_for(io, D80_PATCH_POINTER_ADDRESS, D80FirmwareOperation::ReadConfigBase);
    proof {
        lemma_log_push(before, start, io.memory_log().last());
    }
    let config_base = match read {
        Ok(value) => value,
        Err(error) => return Err(error),
    };
    let ghost before = io.memory_log();
    let read = read_for(
        io,
        D80_PATCH_STRUCTURE_POINTER_ADDRESS,
        D80FirmwareOperation::ReadPatchStructure,
    );
    proof {
        lemma_log_push(before, start, io.memory_log().last());
    }
    let patch_structure = match read {
        Ok(value) => value,
        Err(error) => return Err(error),
    };
    let ghost before = io.memory_log();
    let read = read_for(io, D80_FIRMWARE_VERSION_ADDRESS, D80FirmwareOperation::ReadFirmwareVersion);
    proof {
        lemma_log_push(before, start, io.memory_log().last());
    }
    let firmware_version = match read {
        Ok(value) => value,
        Err(error) => return Err(error),
    };
    let patch_buffer = if firmware_version > D80_NEW_PATCH_BUFFER_VERSION {
        let ghost before = io.memory_log();
        let read = read_for(
            io,
            D80_PATCH_BUFFER_POINTER_ADDRESS,
            D80FirmwareOperation::ReadPatchBuffer,
        );
        proof {
            lemma_log_push(before, start, io.memory_log().last());
        }
        match read {
            Ok(value) => value,
            Err(error) => return Err(error),
        }
    } else {
        D80_LEGACY_PATCH_BUFFER_ADDRESS
    };
    let ghost reads = io.memory_log().skip(start.len() as int);
    assert(reads_succeeded(reads));
    assert(wifi_patch_locations(reads) == (config_base, patch_structure, patch_buffer));
    let ghost plan = wifi_patch_plan(config_base, patch_structure, patch_buffer);
    let s = patch_structure as u64;
    let b = patch_buffer as u64;
    let c = config_base as u64;
    let addresses: [u64; 14] = [
        s,
        s + 8,
        s + 4,
        s + 12,
        b,
        b + 4,
        b + 8,
        b + 12,
        b + 16,
        b + 20,
        s + 48,
        s + 52,
        s + 56,
        s + 60,
    ];
    let values: [u64; 14] = [
        AIC_PATCH_MAGIC as u64,
        AIC_PATCH_MAGIC_2 as u64,
        b,
        3,
        c + 0x00b4,
        0xf301_0000,
        c + 0x0170,
        0x0100_000a,
        c + 0x0188,
        3,
        0,
        0,
        0,
        0,
    ];
    let structure = D80FirmwareOperation::WritePatchStructure;
    let pair = D80FirmwareOperation::WritePatchPair;
    let block = D80FirmwareOperation::WritePatchBlockSize;
    let operations: [D80FirmwareOperation; 14] = [
        structure,
        structure,
        structure,
        structure,
        pair,
        pair,
        pair,
        pair,
        pair,
        pair,
        block,
        block,
        block,
        block,
    ];
    let ghost middle = io.memory_log();
    let written = run_planned_writes(io, &addresses, &values, &operations, Ghost(plan));
    proof {
        lemma_log_chain(start, middle, io.memory_log());
        let operations_now = io.memory_log().skip(start.len() as int);
        assert(operations_now.skip(reads.len() as int) =~= io.memory_log().skip(middle.len() as int));
        assert(operations_now.take(reads.len() as int) =~= reads);
        assert(reads_succeeded(operations_now)) by {
            assert forall|i: int| 0 <= i < reads.len() implies operations_now[i] == reads[i] by {}
        }
    }
    written
}

// ---------------------------------------------------------------------------
// Booting.
// ---------------------------------------------------------------------------

/// Whether `result` is the failure of the memory operation `operation`.
pub open spec fn failed_with<T, E>(
    result: Result<T, D80FirmwareError<E>>,
    operation: D80FirmwareOperation,
) -> bool {
    result matches Err(D80FirmwareError::Operation { operation: o, .. }) && o == operation
}

/// Uploads the Wi-Fi firmware, configures its patch and starts it; returns the status
/// the start confirmation carries.
pub fn load_d80_wifi_and_start<M: D80FirmwareIo>(io: &mut M, wifi_firmware: &[u8]) -> (result: Result<
    u32,
    D80FirmwareError<M::Error>,
>)
    ensures
        memory_log_extends(old(io).memory_log(), final(io).memory_log()),
        ({
            let operations = final(io).memory_log().skip(old(io).memory_log().len() as int);
            let n = operations.len() as int;
            let uploaded = MemoryOperation::UploadImage {
                address: D80_WIFI_FIRMWARE_ADDRESS,
                image: wifi_firmware@,
                succeeded: true,
            };
            &&& n >= 1
            &&& operations[0] matches MemoryOperation::UploadImage { address, image, succeeded } && address
                == D80_WIFI_FIRMWARE_ADDRESS && image == wifi_firmware@
            &&& (operations[0] == MemoryOperation::UploadImage {
                address: D80_WIFI_FIRMWARE_ADDRESS,
                image: wifi_firmware@,
                succeeded: false,
            }) ==> n == 1 && failed_with(result, D80FirmwareOperation::UploadWifi)
            &&& result matches Ok(status) ==> operations[0] == uploaded && wifi_patch_run(
                operations.subrange(1, n - 1),
                Ok::<(), D80FirmwareError<M::Error>>(()),
            ) && operations[n - 1] == (MemoryOperation::StartApp {
                address: D80_WIFI_FIRMWARE_ADDRESS,
                boot_type: D80_HOST_START_APP_AUTO,
                status: Some(status),
            })
            &&& failed_with(result, D80FirmwareOperation::StartWifi) ==> operations[0] == uploaded
                && wifi_patch_run(
                operations.subrange(1, n - 1),
                Ok::<(), D80FirmwareError<M::Error>>(()),
            ) && operations[n - 1] == (MemoryOperation::StartApp {
                address: D80_WIFI_FIRMWARE_ADDRESS,
                boot_type: D80_HOST_START_APP_AUTO,
                status: None,
            })
            &&& (result is Err && !failed_with(result, D80FirmwareOperation::StartWifi) && !failed_with(
                result,
                D80FirmwareOperation::UploadWifi,
            )) ==> operations[0] == uploaded && wifi_patch_run(
                operations.skip(1),
                Err::<(), D80FirmwareError<M::Error>>(result->Err_0),
            )
        }),
{
    let ghost start = io.memory_log();
    proof {
        assert(start.take(start.len() as int) =~= start);
    }
    let uploaded = io.upload_image(D80_WIFI_FIRMWARE_ADDRESS, wifi_firmware);
    proof {
        lemma_log_push(start, start, io.memory_log().last());
    }
    if let Err(source) = uploaded {
        return Err(D80FirmwareError::Operation { operation: D80FirmwareOperation::UploadWifi, source });
    }
    let ghost after_upload = io.memory_log();
    let configured = configure_d80_wifi_patch(io);
    let ghost after_configure = io.memory_log();
    proof {
        lemma_log_chain(start, after_upload, after_configure);
        let operations = after_configure.skip(start.len() as int);
        assert(operations.skip(1) =~= after_configure.skip(after_upload.len() as int));
    }
    if let Err(error) = configured {
        return Err(error);
    }
    let started = io.start_app(D80_WIFI_FIRMWARE_ADDRESS, D80_HOST_START_APP_AUTO);
    proof {
        lemma_log_push(after_configure, start, io.memory_log().last());
        let operations = io.memory_log().skip(start.len() as int);
        assert(operations.subrange(1, operations.len() - 1) =~= after_configure.skip(
            after_upload.len() as int,
        ));
    }
    match started {
        Ok(status) => Ok(status),
        Err(source) => Err(D80FirmwareError::Operation { operation: D80FirmwareOperation::StartWifi, source }),
    }
}

/// An extension patch image as plain values.
pub struct ExtPatchImageView {
    pub id: u32,
    pub bytes: Seq<u8>,
}

impl<'a> View for D80ExtPatchImage<'a> {
    type V = ExtPatchImageView;

    open spec fn view(&self) -> ExtPatchImageView {
        ExtPatchImageView { id: self.id, bytes: self.bytes@ }
    }
}

/// An image upload of the Bluetooth boot and the operation it belongs to.
pub struct PlannedUpload {
    pub address: u32,
    pub image: Seq<u8>,
    pub operation: D80FirmwareOperation,
}

/// The uploads of the Bluetooth boot: the ADID image, the patch image, then each
/// extension image to the address the patch information gives it.
pub open spec fn bluetooth_uploads(
    info: D80PatchInfoView,
    adid: Seq<u8>,
    patch: Seq<u8>,
    images: Seq<ExtPatchImageView>,
) -> Seq<PlannedUpload> {
    seq![
        PlannedUpload {
            address: info.adid_address,
            image: adid,
            operation: D80FirmwareOperation::UploadAdid,
        },
        PlannedUpload {
            address: info.patch_address,
            image: patch,
            operation: D80FirmwareOperation::UploadBluetoothPatch,
        },
    ] + Seq::new(
        images.len(),
        |i: int|
            PlannedUpload {
                address: info.ext_patches[i].1,
                image: images[i].bytes,
                operation: D80FirmwareOperation::UploadBluetoothExtension,
            },
    )
}

/// The operation an upload is recorded as.
pub open spec fn upload_operation(upload: PlannedUpload, succeeded: bool) -> MemoryOperation {
    MemoryOperation::UploadImage { address: upload.address, image: upload.image, succeeded }
}

/// The first `n` uploads, all succeeded.
pub open spec fn uploads_done(plan: Seq<PlannedUpload>, n: int) -> Seq<MemoryOperation> {
    Seq::new(n as nat, |i: int| upload_operation(plan[i], true))
}

/// Whether the first `n` extension images carry the identifiers the patch information
/// lists.
pub open spec fn ids_match(info: D80PatchInfoView, images: Seq<ExtPatchImageView>, n: int) -> bool {
    forall|i: int| 0 <= i < n ==> (#[trigger] images[i]).id == info.ext_patches[i].0
}

/// Whether `operations` and `result` are a Bluetooth boot with patch information `info`:
/// the uploads in order, each extension image's identifier checked before its upload,
/// stopping at the first mismatch or refused upload; then the patch table applied.
pub open spec fn bluetooth_run<E>(
    info: D80PatchInfoView,
    adid: Seq<u8>,
    patch: Seq<u8>,
    images: Seq<ExtPatchImageView>,
    patch_steps: Seq<crate::patch_table::PatchStep>,
    operations: Seq<MemoryOperation>,
    result: Result<(), D80FirmwareError<E>>,
) -> bool {
    let plan = bluetooth_uploads(info, adid, patch, images);
    let n = operations.len() as int;
    match result {
        Err(D80FirmwareError::ExtensionId { index, required, actual }) => index < images.len()
            && ids_match(info, images, index as int) && required == info.ext_patches[index as int].0
            && actual == images[index as int].id && actual != required && operations
            == uploads_done(plan, 2 + index),
        Err(D80FirmwareError::Operation { operation, .. }) => 1 <= n <= plan.len() && ids_match(
            info,
            images,
            n - 2,
        ) && operations == uploads_done(plan, n - 1).push(upload_operation(plan[n - 1], false))
            && operation == plan[n - 1].operation,
        Err(D80FirmwareError::PatchApply(AicPatchApplyError::Write { section_type, pair_index, .. })) => {
            let applied = operations.skip(plan.len() as int);
            &&& ids_match(info, images, images.len() as int)
            &&& n >= plan.len()
            &&& operations.take(plan.len() as int) == uploads_done(plan, plan.len() as int)
            &&& steps_executed(patch_steps, applied, false)
            &&& section_type == patch_steps[applied.len() - 1].section_type
            &&& pair_index == patch_steps[applied.len() - 1].pair_index
        },
        Ok(_) => ids_match(info, images, images.len() as int) && n >= plan.len() && operations.take(
            plan.len() as int,
        ) == uploads_done(plan, plan.len() as int) && steps_executed(
            patch_steps,
            operations.skip(plan.len() as int),
            true,
        ),
        Err(_) => false,
    }
}

/// Uploads the D80 Bluetooth images where the patch table's information section says,
/// checking each extension image's identifier, then applies the patch table with the
/// SDIO Bluetooth settings.
pub fn load_d80_bluetooth<M: D80FirmwareIo>(
    io: &mut M,
    patch_table: &AicPatchTable<'_>,
    adid: &[u8],
    patch: &[u8],
    extension_images: &[D80ExtPatchImage<'_>],
) -> (result: Result<(), D80FirmwareError<M::Error>>)
    ensures
        memory_log_extends(old(io).memory_log(), final(io).memory_log()),
        ({
            let operations = final(io).memory_log().skip(old(io).memory_log().len() as int);
            let sections = table_sections(patch_table.spec_bytes());
            match spec_parse_d80_patch_info(sections) {
                Err(error) => result == Err::<(), D80FirmwareError<M::Error>>(
                    D80FirmwareError::PatchTable(error),
                ) && operations.len() == 0,
                Ok(info) => if extension_images@.len() != info.ext_patch_count {
                    result == Err::<(), D80FirmwareError<M::Error>>(
                        D80FirmwareError::ExtensionCount {
                            required: info.ext_patch_count as usize,
                            available: extension_images@.len() as usize,
                        },
                    ) && operations.len() == 0
                } else {
                    bluetooth_run(
                        info,
                        adid@,
                        patch@,
                        extension_images@.map_values(|image: D80ExtPatchImage| image@),
                        apply_plan(sections, spec_d80_sdio_bt_default_patch_settings()),
                        operations,
                        result,
                    )
                },
            }
        }),
{
    let ghost start = io.memory_log();
    proof {
        assert(start.take(start.len() as int) =~= start);
        assert(start.skip(start.len() as int) =~= Seq::<MemoryOperation>::empty());
    }
    let info = match parse_d80_patch_info(patch_table) {
        Ok(info) => info,
        Err(error) => return Err(D80FirmwareError::PatchTable(error)),
    };
    let required_extensions = info.ext_patch_count() as usize;
    if extension_images.len() != required_extensions {
        return Err(
            D80FirmwareError::ExtensionCount {
                required: required_extensions,
                available: extension_images.len(),
            },
        );
    }
    proof {
        info.lemma_fields();
    }
    let ghost images = extension_images@.map_values(|image: D80ExtPatchImage| image@);
    let ghost plan = bluetooth_uploads(info@, adid@, patch@, images);
    assert(info@.ext_patches.len() == required_extensions);
    let ghost before = io.memory_log();
    let uploaded = io.upload_image(info.adid_address, adid);
    proof {
        lemma_log_push(before, start, io.memory_log().last());
    }
    if let Err(source) = uploaded {
        assert(io.memory_log().skip(start.len() as int) =~= uploads_done(plan, 0).push(
            upload_operation(plan[0], false),
        ));
        return Err(D80FirmwareError::Operation { operation: D80FirmwareOperation::UploadAdid, source });
    }
    assert(io.memory_log().skip(start.len() as int) =~= uploads_done(plan, 1));
    let ghost before = io.memory_log();
    let uploaded = io.upload_image(info.patch_address, patch);
    proof {
        lemma_log_push(before, start, io.memory_log().last());
    }
    if let Err(source) = uploaded {
        assert(io.memory_log().skip(start.len() as int) =~= uploads_done(plan, 1).push(
            upload_operation(plan[1], false),
        ));
        return Err(
            D80FirmwareError::Operation { operation: D80FirmwareOperation::UploadBluetoothPatch, source },
        );
    }
    assert(io.memory_log().skip(start.len() as int) =~= uploads_done(plan, 2));
    let mut extensions = info.ext_patches();
    let mut index: usize = 0;
    while index < extension_images.len()
        invariant
            start == old(io).memory_log(),
            spec_parse_d80_patch_info(table_sections(patch_table.spec_bytes())) == Ok::<
                D80PatchInfoView,
                AicPatchTableError,
            >(info@),
            extension_images@.len() == info@.ext_patch_count,
            index <= extension_images@.len(),
            extension_images@.len() == info@.ext_patches.len(),
            images == extension_images@.map_values(|image: D80ExtPatchImage| image@),
            plan == bluetooth_uploads(info@, adid@, patch@, images),
            extensions@ == info@.ext_patches.skip(index as int),
            ids_match(info@, images, index as int),
            memory_log_extends(start, io.memory_log()),
            io.memory_log().skip(start.len() as int) == uploads_done(plan, 2 + index),
        decreases extension_images@.len() - index,
    {
        let (required_id, address) = extensions.next().unwrap();
        assert(info@.ext_patches[index as int] == (required_id, address));
        let image = &extension_images[index];
        assert(images[index as int] == image@);
        if image.id != required_id {
            return Err(D80FirmwareError::ExtensionId { index, required: required_id, actual: image.id });
        }
        let ghost before = io.memory_log();
        let uploaded = io.upload_image(address, image.bytes);
        proof {
            lemma_log_push(before, start, io.memory_log().last());
        }
        assert(plan[2 + index] == (PlannedUpload {
            address,
            image: image.bytes@,
            operation: D80FirmwareOperation::UploadBluetoothExtension,
        }));
        if let Err(source) = uploaded {
            assert(io.memory_log().skip(start.len() as int) =~= uploads_done(plan, 2 + index).push(
                upload_operation(plan[2 + index], false),
            ));
            return Err(
                D80FirmwareError::Operation {
                    operation: D80FirmwareOperation::UploadBluetoothExtension,
                    source,
                },
            );
        }
        assert(io.memory_log().skip(start.len() as int) =~= uploads_done(plan, 2 + index + 1));
        assert(extensions@ =~= info@.ext_patches.skip(index + 1));
        index = index + 1;
    }
    let ghost uploads_end = io.memory_log();
    let applied = apply_d80_bt_patch_table(io, patch_table, d80_sdio_bt_default_patch_settings());
    proof {
        lemma_log_chain(start, uploads_end, io.memory_log());
        let operations = io.memory_log().skip(start.len() as int);
        assert(operations.take(plan.len() as int) =~= uploads_end.skip(start.len() as int));
        assert(operations.skip(plan.len() as int) =~= io.memory_log().skip(uploads_end.len() as int));
    }
    match applied {
        Ok(()) => Ok(()),
        Err(error) => Err(D80FirmwareError::PatchApply(error)),
    }
}

} // verus!
