use embassy_usb_driver as driver;
use stm32_metapac::usb::regs;
use stm32_metapac::usb::vals;
use stm32_usb::btable;
use stm32_usb::buffer::{align_len_up, calc_out_len};
use stm32_usb::epr::{convert_type, invariant_word};
use stm32_usb::{Direction, EndpointAddress, EndpointType, EpType, Op, PacketBuffer, UsbRam};

const ALL: [UsbRam; 5] = [
    UsbRam::Ram16x1_512,
    UsbRam::Ram16x2_512,
    UsbRam::Ram16x2_1024,
    UsbRam::Ram32_1024,
    UsbRam::Ram32_2048,
];

#[test]
fn addresses_agree_with_the_driver_crate() {
    for raw in 0..=255u8 {
        let ours = EndpointAddress { raw };
        let theirs = driver::EndpointAddress::from(raw);
        assert_eq!(ours.index(), theirs.index());
        let dir = match theirs.direction() {
            driver::Direction::In => Direction::In,
            driver::Direction::Out => Direction::Out,
        };
        assert_eq!(ours.direction(), dir);
        assert_eq!(EndpointAddress::from_parts(ours.index(), dir), ours);
    }
}

#[test]
fn address_values() {
    assert_eq!(EndpointAddress::from_parts(3, Direction::In).raw, 0x83);
    assert_eq!(EndpointAddress::from_parts(3, Direction::Out).raw, 0x03);
    for index in [0usize, 127, 128, 255, 256, 259, 1000] {
        let theirs = driver::EndpointAddress::from_parts(index, driver::Direction::In);
        assert_eq!(EndpointAddress::from_parts(index, Direction::In).raw, u8::from(theirs));
        let theirs = driver::EndpointAddress::from_parts(index, driver::Direction::Out);
        assert_eq!(EndpointAddress::from_parts(index, Direction::Out).raw, u8::from(theirs));
    }
    assert_eq!(EndpointAddress { raw: 0x83 }.index(), 3);
    assert_eq!(EndpointAddress { raw: 0x83 }.direction(), Direction::In);
}

#[test]
fn invariant_word_agrees_with_the_register_crate() {
    for low in 0..=0xffffu32 {
        for high in [0u32, 0x0555_0000] {
            let mut r = regs::Epr(high | low);
            r.set_ctr_rx(true);
            r.set_ctr_tx(true);
            r.set_dtog_rx(false);
            r.set_dtog_tx(false);
            r.set_stat_rx(vals::Stat::from_bits(0));
            r.set_stat_tx(vals::Stat::from_bits(0));
            assert_eq!(invariant_word(high | low), r.0);
        }
    }
}

#[test]
fn invariant_word_values() {
    assert_eq!(invariant_word(0), 0x8080);
    assert_eq!(invariant_word(0xffff), 0x8f8f);
    assert_eq!(invariant_word(0x7070), 0x8080);
    assert_eq!(invariant_word(0x0623), 0x8683);
}

#[test]
fn types_are_converted() {
    assert_eq!(convert_type(EndpointType::Bulk), EpType::Bulk);
    assert_eq!(convert_type(EndpointType::Control), EpType::Control);
    assert_eq!(convert_type(EndpointType::Interrupt), EpType::Interrupt);
    assert_eq!(convert_type(EndpointType::Isochronous), EpType::Iso);
}

#[test]
fn ram_sizes() {
    let sizes: Vec<usize> = ALL.iter().map(|r| r.size()).collect();
    assert_eq!(sizes, vec![512, 512, 1024, 1024, 2048]);
    let aligns: Vec<usize> = ALL.iter().map(|r| r.align()).collect();
    assert_eq!(aligns, vec![2, 2, 2, 4, 4]);
}

#[test]
fn lengths_are_aligned() {
    assert_eq!(align_len_up(UsbRam::Ram16x2_512, 7), 8);
    assert_eq!(align_len_up(UsbRam::Ram16x2_512, 8), 8);
    assert_eq!(align_len_up(UsbRam::Ram32_2048, 5), 8);
    assert_eq!(align_len_up(UsbRam::Ram32_2048, 0), 0);
    assert_eq!(align_len_up(UsbRam::Ram32_2048, 65533), 0);
    assert_eq!(align_len_up(UsbRam::Ram16x2_512, 65535), 0);
    assert_eq!(align_len_up(UsbRam::Ram16x2_512, 65533), 65534);
}

#[test]
fn out_lengths() {
    assert_eq!(calc_out_len(UsbRam::Ram16x2_512, 2), (2, 0x0400));
    assert_eq!(calc_out_len(UsbRam::Ram16x2_512, 59), (60, 30 << 10));
    assert_eq!(calc_out_len(UsbRam::Ram32_2048, 2), (4, 0x0800));
    assert_eq!(calc_out_len(UsbRam::Ram32_2048, 60), (60, 30 << 10));
    assert_eq!(calc_out_len(UsbRam::Ram16x2_512, 61), (64, 0x8400));
    assert_eq!(calc_out_len(UsbRam::Ram16x2_512, 64), (64, 0x8400));
    assert_eq!(calc_out_len(UsbRam::Ram16x2_512, 65), (96, 0x8800));
    assert_eq!(calc_out_len(UsbRam::Ram32_2048, 1023), (1024, 0xfc00));
    assert_eq!(calc_out_len(UsbRam::Ram32_2048, 1024), (1024, 0xfc00));
}

#[test]
fn out_length_fields_make_room() {
    for ram in ALL {
        for len in 2..=1024u16 {
            let (actual, bits) = calc_out_len(ram, len);
            let blocks = ((bits >> 10) & 0x1f) as u32;
            let room = if bits & 0x8000 != 0 { (blocks + 1) * 32 } else { blocks * 2 };
            assert_eq!(room, actual as u32);
            assert!(actual >= len);
            assert_eq!(actual as usize % ram.align(), 0);
        }
    }
}

#[test]
fn table_with_narrow_words() {
    let ram = UsbRam::Ram16x2_1024;
    let mut ops = Vec::new();
    btable::write_in_tx(ram, 3, 0x100, &mut ops);
    btable::write_in_rx(ram, 3, 0x102, &mut ops);
    btable::write_in_len_tx(ram, 3, 0x100, 9, &mut ops);
    btable::write_in_len_rx(ram, 3, 0x100, 10, &mut ops);
    btable::write_out_rx(ram, 3, 0x104, 0x8400, &mut ops);
    btable::write_out_tx(ram, 3, 0x106, 0x8800, &mut ops);
    assert_eq!(
        ops,
        vec![
            Op::WriteMem(12, 0x100),
            Op::WriteMem(14, 0x102),
            Op::WriteMem(13, 9),
            Op::WriteMem(15, 10),
            Op::WriteMem(14, 0x104),
            Op::WriteMem(15, 0x8400),
            Op::WriteMem(12, 0x106),
            Op::WriteMem(13, 0x8800),
        ]
    );
    assert_eq!(btable::out_len_word(ram, 3, PacketBuffer::Tx), 13);
    assert_eq!(btable::out_len_word(ram, 3, PacketBuffer::Rx), 15);
    assert_eq!(btable::read_out_len(ram, 0x8412), 0x8412);
}

#[test]
fn table_with_wide_words() {
    let ram = UsbRam::Ram32_2048;
    let mut ops = Vec::new();
    btable::write_in_len_tx(ram, 3, 0x100, 9, &mut ops);
    btable::write_in_len_rx(ram, 3, 0x100, 10, &mut ops);
    btable::write_out_rx(ram, 3, 0x104, 0x8400, &mut ops);
    btable::write_out_tx(ram, 3, 0x106, 0x8800, &mut ops);
    assert_eq!(
        ops,
        vec![
            Op::WriteMem(6, 0x0009_0100),
            Op::WriteMem(7, 0x000a_0100),
            Op::WriteMem(7, 0x8400_0104),
            Op::WriteMem(6, 0x8800_0106),
        ]
    );
    assert_eq!(btable::out_len_word(ram, 3, PacketBuffer::Tx), 6);
    assert_eq!(btable::out_len_word(ram, 3, PacketBuffer::Rx), 7);
    assert_eq!(btable::read_out_len(ram, 0x8412_0100), 0x8412);
}

#[test]
fn lengths_are_read_back_from_the_table() {
    for ram in ALL {
        let mut mem = vec![0u32; 512];
        let mut ops = Vec::new();
        for index in 0..8usize {
            btable::write_out_rx(ram, index, 64, 0x8400 + index as u16, &mut ops);
            btable::write_out_tx(ram, index, 64, 0x8800 + index as u16, &mut ops);
        }
        for op in ops {
            match op {
                Op::WriteMem(word, val) => mem[word] = val,
                _ => unreachable!(),
            }
        }
        for index in 0..8usize {
            let rx = mem[btable::out_len_word(ram, index, PacketBuffer::Rx)];
            let tx = mem[btable::out_len_word(ram, index, PacketBuffer::Tx)];
            assert_eq!(btable::read_out_len(ram, rx), 0x8400 + index as u16);
            assert_eq!(btable::read_out_len(ram, tx), 0x8800 + index as u16);
        }
    }
}

#[test]
fn largest_lengths_that_are_aligned() {
    assert_eq!(align_len_up(UsbRam::Ram16x2_512, 0xfffe), 0xfffe);
    assert_eq!(align_len_up(UsbRam::Ram16x2_512, 0xffff), 0);
    assert_eq!(align_len_up(UsbRam::Ram32_2048, 0xfffc), 0xfffc);
    assert_eq!(align_len_up(UsbRam::Ram32_2048, 0xfffd), 0);
}
