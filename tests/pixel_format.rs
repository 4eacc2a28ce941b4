use tachyscope::pixel_format::{bits_per_pixel, DxgiFormat, PixelFormatError};

#[test]
fn block_compressed_8_byte_layout_counts_whole_blocks() {
    // 5x5 texels cover a 2x2 grid of 4x4 blocks of 8 bytes.
    assert_eq!(DxgiFormat::BC1_UNORM.calculate_pitch(5, 5), Ok((16, 32)));
    assert_eq!(DxgiFormat::BC4_SNORM.calculate_pitch(5, 5), Ok((16, 32)));
}

#[test]
fn block_compressed_16_byte_layout() {
    assert_eq!(DxgiFormat::BC7_UNORM_SRGB.calculate_pitch(5, 5), Ok((32, 64)));
    assert_eq!(DxgiFormat::BC3_UNORM.calculate_pitch(8, 4), Ok((32, 32)));
}

#[test]
fn block_compressed_layout_has_at_least_one_block() {
    assert_eq!(DxgiFormat::BC1_UNORM.calculate_pitch(0, 0), Ok((8, 8)));
    assert_eq!(DxgiFormat::BC5_UNORM.calculate_pitch(1, 1), Ok((16, 16)));
}

#[test]
fn linear_layout_32_bits_per_pixel() {
    assert_eq!(DxgiFormat::R8G8B8A8_UNORM.calculate_pitch(3, 2), Ok((12, 24)));
}

#[test]
fn linear_layout_rounds_rows_up_to_bytes() {
    // 3 texels of 1 bit take one byte per row.
    assert_eq!(DxgiFormat::R1_UNORM.calculate_pitch(3, 5), Ok((1, 5)));
    // 3 texels of 12 bits take 36 bits, 5 bytes.
    assert_eq!(DxgiFormat::NV12.calculate_pitch(3, 2), Ok((5, 10)));
}

#[test]
fn layout_of_unsized_format_is_refused() {
    assert_eq!(
        DxgiFormat::Unknown.calculate_pitch(4, 4),
        Err(PixelFormatError::FormatOutOfRange(0))
    );
}

#[test]
fn bits_per_pixel_of_catalog_values() {
    assert_eq!(bits_per_pixel(2), Ok(128));
    assert_eq!(bits_per_pixel(6), Ok(96));
    assert_eq!(bits_per_pixel(28), Ok(32));
    assert_eq!(bits_per_pixel(71), Ok(4));
    assert_eq!(bits_per_pixel(98), Ok(8));
    assert_eq!(bits_per_pixel(66), Ok(1));
    assert_eq!(bits_per_pixel(115), Ok(16));
}

#[test]
fn bits_per_pixel_refuses_reserved_values() {
    for v in [116u32, 120, 129, 133, 134, 1000, u32::MAX] {
        assert_eq!(bits_per_pixel(v), Err(PixelFormatError::FormatOutOfRange(v)));
    }
    // Values of the catalog whose size is undefined are refused as well.
    for v in [0u32, 130, 131, 132] {
        assert_eq!(bits_per_pixel(v), Err(PixelFormatError::FormatOutOfRange(v)));
    }
}

#[test]
fn bits_per_pixel_is_total_over_the_catalog() {
    let mut sized = 0;
    for v in (0u32..=115).chain(130..=132) {
        let f = DxgiFormat::from_code(v).expect("catalog value");
        assert_eq!(f.code(), v);
        if f.bpp().is_ok() {
            sized += 1;
        }
    }
    assert_eq!(sized, 115);
}

#[test]
fn from_code_refuses_values_outside_the_catalog() {
    assert_eq!(DxgiFormat::from_code(116), Err(PixelFormatError::FormatOutOfRange(116)));
    assert_eq!(DxgiFormat::from_code(129), Err(PixelFormatError::FormatOutOfRange(129)));
    assert_eq!(DxgiFormat::from_code(133), Err(PixelFormatError::FormatOutOfRange(133)));
    assert_eq!(DxgiFormat::from_code(130), Ok(DxgiFormat::P208));
}

#[test]
fn srgb_and_compression_flags() {
    assert!(DxgiFormat::BC1_UNORM_SRGB.is_srgb());
    assert!(DxgiFormat::BC1_UNORM_SRGB.is_compressed());
    assert!(!DxgiFormat::BC1_UNORM.is_srgb());
    assert!(DxgiFormat::R8G8B8A8_UNORM_SRGB.is_srgb());
    assert!(!DxgiFormat::R8G8B8A8_UNORM_SRGB.is_compressed());
    assert_eq!(DxgiFormat::BC6H_SF16.block_bytes(), Some(16));
    assert_eq!(DxgiFormat::BC4_UNORM.block_bytes(), Some(8));
    assert_eq!(DxgiFormat::R32_FLOAT.block_bytes(), None);
}

#[test]
fn bpp_of_each_family() {
    assert_eq!(DxgiFormat::R32G32B32A32_FLOAT.bpp(), Ok(128));
    assert_eq!(DxgiFormat::R16G16B16A16_FLOAT.bpp(), Ok(64));
    assert_eq!(DxgiFormat::P010.bpp(), Ok(24));
    assert_eq!(DxgiFormat::B5G6R5_UNORM.bpp(), Ok(16));
    assert_eq!(DxgiFormat::FORCE_UINT.bpp(), Err(PixelFormatError::FormatOutOfRange(u32::MAX)));
    assert_eq!(DxgiFormat::V408.bpp(), Err(PixelFormatError::FormatOutOfRange(132)));
}

#[test]
fn layout_of_the_largest_header_dimensions() {
    // Texture headers store dimensions in 16 bits.
    assert_eq!(DxgiFormat::BC7_UNORM.calculate_pitch(65535, 65535), Ok((262144, 4294967296)));
    assert_eq!(DxgiFormat::R32G32B32A32_FLOAT.calculate_pitch(65535, 1), Ok((1048560, 1048560)));
}
