use axdriver_aic8800::device::{Aic8800Product, classic_registers, SDIO_BLOCK_SIZE, v3_registers};
use axdriver_aic8800::protocol::CommandHeaderMode;

#[test]
fn recognizes_only_the_ids_listed_by_the_fixed_sdk_driver() {
    assert_eq!(
        Aic8800Product::from_sdio_id(0x5449, 0x0145),
        Some(Aic8800Product::Aic8801)
    );
    assert_eq!(
        Aic8800Product::from_sdio_id(0xc8a1, 0xc08d),
        Some(Aic8800Product::Aic8800Dc)
    );
    assert_eq!(
        Aic8800Product::from_sdio_id(0xc8a1, 0x0082),
        Some(Aic8800Product::Aic8800D80)
    );
    assert_eq!(
        Aic8800Product::from_sdio_id(0xc8a1, 0x2082),
        Some(Aic8800Product::Aic8800D80X2)
    );
    assert_eq!(Aic8800Product::from_sdio_id(0xc8a1, 0x0182), None);
    assert_eq!(Aic8800Product::from_sdio_id(0x0000, 0x0000), None);
}

#[test]
fn maps_products_to_the_driver_register_and_header_rules() {
    assert_eq!(Aic8800Product::Aic8801.registers(), classic_registers());
    assert_eq!(Aic8800Product::Aic8800Dc.registers(), classic_registers());
    assert_eq!(Aic8800Product::Aic8800D80.registers(), v3_registers());
    assert_eq!(Aic8800Product::Aic8800D80X2.registers(), v3_registers());
    assert_eq!(
        Aic8800Product::Aic8801.command_header_mode(),
        CommandHeaderMode::ReservedZero
    );
    assert_eq!(
        Aic8800Product::Aic8800D80.command_header_mode(),
        CommandHeaderMode::Crc8Polynomial0x107
    );
    assert_eq!(SDIO_BLOCK_SIZE, 512);
}

#[test]
fn register_maps_match_the_fixed_sdk_header() {
    assert_eq!(classic_registers().byte_mode_length, 0x02);
    assert_eq!(classic_registers().interrupt, 0x04);
    assert_eq!(classic_registers().flow_control, 0x0a);
    assert_eq!(classic_registers().register_block, Some(0x0b));
    assert_eq!(classic_registers().byte_mode_enable, 0x11);
    assert_eq!(classic_registers().read_fifo, 0x08);
    assert_eq!(classic_registers().write_fifo, 0x07);

    assert_eq!(v3_registers().byte_mode_length, 0x05);
    assert_eq!(v3_registers().interrupt, 0x00);
    assert_eq!(v3_registers().flow_control, 0x03);
    assert_eq!(v3_registers().register_block, None);
    assert_eq!(v3_registers().byte_mode_enable, 0x07);
    assert_eq!(v3_registers().read_fifo, 0x0f);
    assert_eq!(v3_registers().write_fifo, 0x10);
}
