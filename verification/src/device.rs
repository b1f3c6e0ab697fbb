//! The chip variants the driver knows and the per-variant SDIO register maps.
use vstd::prelude::*;

use crate::protocol::CommandHeaderMode;

verus! {

/// Size of one SDIO block in bytes.
pub const SDIO_BLOCK_SIZE: usize = 512;

/// The AIC8800 variants recognised by their SDIO vendor and device identifiers.
#[derive(Clone, Copy, Debug, Eq, PartialEq, Structural)]
pub enum Aic8800Product {
    Aic8801,
    Aic8800Dc,
    Aic8800D80,
    Aic8800D80X2,
}

/// The function-one register addresses used by a chip generation.
#[derive(Clone, Copy, Debug, Eq, PartialEq, Structural)]
pub struct RegisterMap {
    pub byte_mode_length: u8,
    pub interrupt: u8,
    pub sleep_or_pending: u8,
    pub wake_or_to_device: u8,
    pub flow_control: u8,
    pub register_block: Option<u8>,
    pub byte_mode_enable: u8,
    pub block_count: Option<u8>,
    pub miscellaneous_interrupt_status: Option<u8>,
    pub read_fifo: u8,
    pub write_fifo: u8,
}

/// Register map of the AIC8801 and AIC8800DC.
pub open spec fn spec_classic_registers() -> RegisterMap {
    RegisterMap {
    byte_mode_length: 0x02,
    interrupt: 0x04,
    sleep_or_pending: 0x05,
    wake_or_to_device: 0x09,
    flow_control: 0x0a,
    register_block: Some(0x0b),
    byte_mode_enable: 0x11,
    block_count: Some(0x12),
    miscellaneous_interrupt_status: None,
    read_fifo: 0x08,
    write_fifo: 0x07,
    }
}

/// Register map of the AIC8800D80 family.
pub open spec fn spec_v3_registers() -> RegisterMap {
    RegisterMap {
    byte_mode_length: 0x05,
    interrupt: 0x00,
    sleep_or_pending: 0x01,
    wake_or_to_device: 0x02,
    flow_control: 0x03,
    register_block: None,
    byte_mode_enable: 0x07,
    block_count: None,
    miscellaneous_interrupt_status: Some(0x04),
    read_fifo: 0x0f,
    write_fifo: 0x10,
    }
}

/// Register map of the AIC8801 and AIC8800DC.
pub fn classic_registers() -> (map: RegisterMap)
    ensures
        map == spec_classic_registers(),
{
    RegisterMap {
        byte_mode_length: 0x02,
        interrupt: 0x04,
        sleep_or_pending: 0x05,
        wake_or_to_device: 0x09,
        flow_control: 0x0a,
        register_block: Some(0x0b),
        byte_mode_enable: 0x11,
        block_count: Some(0x12),
        miscellaneous_interrupt_status: None,
        read_fifo: 0x08,
        write_fifo: 0x07,
    }
}

/// Register map of the AIC8800D80 family.
pub fn v3_registers() -> (map: RegisterMap)
    ensures
        map == spec_v3_registers(),
{
    RegisterMap {
        byte_mode_length: 0x05,
        interrupt: 0x00,
        sleep_or_pending: 0x01,
        wake_or_to_device: 0x02,
        flow_control: 0x03,
        register_block: None,
        byte_mode_enable: 0x07,
        block_count: None,
        miscellaneous_interrupt_status: Some(0x04),
        read_fifo: 0x0f,
        write_fifo: 0x10,
    }
}

/// Whether the product belongs to the D80 (third register generation) family.
pub open spec fn is_d80_family(product: Aic8800Product) -> bool {
    product is Aic8800D80 || product is Aic8800D80X2
}

/// The product that a vendor/device identifier pair names, if any.
pub open spec fn spec_product_from_sdio_id(vendor: u16, device: u16) -> Option<Aic8800Product> {
    if vendor == 0x5449 && device == 0x0145 {
        Some(Aic8800Product::Aic8801)
    } else if vendor == 0xc8a1 && device == 0xc08d {
        Some(Aic8800Product::Aic8800Dc)
    } else if vendor == 0xc8a1 && device == 0x0082 {
        Some(Aic8800Product::Aic8800D80)
    } else if vendor == 0xc8a1 && device == 0x2082 {
        Some(Aic8800Product::Aic8800D80X2)
    } else {
        None
    }
}

/// The register map of a product.
pub open spec fn spec_registers(product: Aic8800Product) -> RegisterMap {
    if is_d80_family(product) {
        spec_v3_registers()
    } else {
        spec_classic_registers()
    }
}

/// The command header checksum rule of a product.
pub open spec fn spec_command_header_mode(product: Aic8800Product) -> CommandHeaderMode {
    if is_d80_family(product) {
        CommandHeaderMode::Crc8Polynomial0x107
    } else {
        CommandHeaderMode::ReservedZero
    }
}

impl Aic8800Product {
    /// Recognises a product from its SDIO vendor and device identifiers.
    pub fn from_sdio_id(vendor: u16, device: u16) -> (product: Option<Self>)
        ensures
            product == spec_product_from_sdio_id(vendor, device),
    {
        if vendor == 0x5449 && device == 0x0145 {
            Some(Self::Aic8801)
        } else if vendor == 0xc8a1 && device == 0xc08d {
            Some(Self::Aic8800Dc)
        } else if vendor == 0xc8a1 && device == 0x0082 {
            Some(Self::Aic8800D80)
        } else if vendor == 0xc8a1 && device == 0x2082 {
            Some(Self::Aic8800D80X2)
        } else {
            None
        }
    }

    /// The register map used by this product.
    pub fn registers(self) -> (map: RegisterMap)
        ensures
            map == spec_registers(self),
    {
        match self {
            Self::Aic8801 | Self::Aic8800Dc => classic_registers(),
            Self::Aic8800D80 | Self::Aic8800D80X2 => v3_registers(),
        }
    }

    /// The checksum rule for the fourth byte of a command header.
    pub fn command_header_mode(self) -> (mode: CommandHeaderMode)
        ensures
            mode == spec_command_header_mode(self),
    {
        match self {
            Self::Aic8801 | Self::Aic8800Dc => CommandHeaderMode::ReservedZero,
            Self::Aic8800D80 | Self::Aic8800D80X2 => CommandHeaderMode::Crc8Polynomial0x107,
        }
    }
}

} // verus!
