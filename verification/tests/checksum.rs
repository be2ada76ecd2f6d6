use audioinfo::checksum::{format_crc32, pcm16_le_bytes, pcm24_le_bytes};
use audioinfo::AudioInfo;

#[test]
fn a_16_bit_sample_is_written_low_byte_first() {
    assert_eq!(pcm16_le_bytes(&vec![0x1234]), vec![0x34, 0x12]);
    assert_eq!(pcm16_le_bytes(&vec![-2, 1]), vec![0xFE, 0xFF, 0x01, 0x00]);
    assert_eq!(pcm16_le_bytes(&vec![i16::MIN, i16::MAX]), vec![0x00, 0x80, 0xFF, 0x7F]);
}

#[test]
fn the_checksum_of_one_16_bit_sample_is_that_of_its_two_bytes() {
    let expected = format!("{:08X}", crc32fast::hash(&[0x34, 0x12]));
    assert_eq!(AudioInfo::generate_crc32_16bit(&vec![0x1234]), expected);
    assert_eq!(AudioInfo::generate_crc32_16bit(&vec![0x1234]), "094A9040");
}

#[test]
fn the_checksum_of_a_16_bit_stream() {
    let samples: Vec<i16> = vec![1, -1, 32_767, -32_768];
    assert_eq!(AudioInfo::generate_crc32_16bit(&samples), "EB38190B");
}

#[test]
fn the_checksum_of_no_samples_is_zero() {
    assert_eq!(AudioInfo::generate_crc32_16bit(&Vec::new()), "00000000");
    assert_eq!(AudioInfo::generate_crc32_24bit(&Vec::new()), "00000000");
}

#[test]
fn a_24_bit_sample_is_written_in_three_bytes() {
    assert_eq!(pcm24_le_bytes(&vec![0x12_3456]), vec![0x56, 0x34, 0x12]);
    assert_eq!(pcm24_le_bytes(&vec![-1]), vec![0xFF, 0xFF, 0xFF]);
    assert_eq!(
        pcm24_le_bytes(&vec![8_388_607, -8_388_608]),
        vec![0xFF, 0xFF, 0x7F, 0x00, 0x00, 0x80]
    );
}

#[test]
fn the_checksum_of_a_24_bit_stream() {
    assert_eq!(AudioInfo::generate_crc32_24bit(&vec![0x12_3456]), "DFE309AF");
    let samples: Vec<i32> = vec![-1, 8_388_607, -8_388_608];
    assert_eq!(AudioInfo::generate_crc32_24bit(&samples), "EB7F0B99");
}

#[test]
fn stray_high_bits_of_the_container_do_not_reach_the_checksum() {
    let clean: Vec<i32> = vec![0x12_3456, -1, 0x7F_FFFF];
    let stray: Vec<i32> = vec![0x7F12_3456, 0x00FF_FFFF, 0x557F_FFFF];
    assert_eq!(pcm24_le_bytes(&stray), pcm24_le_bytes(&clean));
    assert_eq!(
        AudioInfo::generate_crc32_24bit(&stray),
        AudioInfo::generate_crc32_24bit(&clean)
    );
    let expected = format!(
        "{:08X}",
        crc32fast::hash(&[0x56, 0x34, 0x12, 0xFF, 0xFF, 0xFF, 0xFF, 0xFF, 0x7F])
    );
    assert_eq!(AudioInfo::generate_crc32_24bit(&stray), expected);
}

#[test]
fn a_checksum_is_eight_uppercase_hex_digits() {
    assert_eq!(format_crc32(0), "00000000");
    assert_eq!(format_crc32(1), "00000001");
    assert_eq!(format_crc32(0xCBF4_3926), "CBF43926");
    assert_eq!(format_crc32(0x0ABC_DEF0), "0ABCDEF0");
    assert_eq!(format_crc32(u32::MAX), "FFFFFFFF");
}

#[test]
fn the_content_checksum_is_lowercase_hex() {
    assert_eq!(AudioInfo::md5_text(&vec![0x01, 0xAB, 0x00, 0xFF]), "01ab00ff");
    assert_eq!(AudioInfo::md5_text(&Vec::new()), "");
    let md5: Vec<u8> = (0u8..16).collect();
    assert_eq!(AudioInfo::md5_text(&md5), "000102030405060708090a0b0c0d0e0f");
}
