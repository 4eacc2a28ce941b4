//! The catalog of pixel formats: sizes, flags and surface layouts.
use vstd::prelude::*;

verus! {

/// Error of the pixel-format catalog.
#[derive(Debug, Clone, Copy, PartialEq, Eq, Structural)]
pub enum PixelFormatError {
    /// The numeric value, or the enumerant's value, lies outside every known range.
    FormatOutOfRange(u32),
}

/// A GPU pixel encoding, as stored in a texture header.
#[allow(non_camel_case_types)]
#[derive(Debug, Clone, Copy, PartialEq, Eq, Structural, Hash)]
    pub enum DxgiFormat {
        Unknown,
        R32G32B32A32_TYPELESS,
        R32G32B32A32_FLOAT,
        R32G32B32A32_UINT,
        R32G32B32A32_SINT,
        R32G32B32_TYPELESS,
        R32G32B32_FLOAT,
        R32G32B32_UINT,
        R32G32B32_SINT,
        R16G16B16A16_TYPELESS,
        R16G16B16A16_FLOAT,
        R16G16B16A16_UNORM,
        R16G16B16A16_UINT,
        R16G16B16A16_SNORM,
        R16G16B16A16_SINT,
        R32G32_TYPELESS,
        R32G32_FLOAT,
        R32G32_UINT,
        R32G32_SINT,
        R32G8X24_TYPELESS,
        D32_FLOAT_S8X24_UINT,
        R32_FLOAT_X8X24_TYPELESS,
        X32_TYPELESS_G8X24_UINT,
        R10G10B10A2_TYPELESS,
        R10G10B10A2_UNORM,
        R10G10B10A2_UINT,
        R11G11B10_FLOAT,
        R8G8B8A8_TYPELESS,
        R8G8B8A8_UNORM,
        R8G8B8A8_UNORM_SRGB,
        R8G8B8A8_UINT,
        R8G8B8A8_SNORM,
        R8G8B8A8_SINT,
        R16G16_TYPELESS,
        R16G16_FLOAT,
        R16G16_UNORM,
        R16G16_UINT,
        R16G16_SNORM,
        R16G16_SINT,
        R32_TYPELESS,
        D32_FLOAT,
        R32_FLOAT,
        R32_UINT,
        R32_SINT,
        R24G8_TYPELESS,
        D24_UNORM_S8_UINT,
        R24_UNORM_X8_TYPELESS,
        X24_TYPELESS_G8_UINT,
        R8G8_TYPELESS,
        R8G8_UNORM,
        R8G8_UINT,
        R8G8_SNORM,
        R8G8_SINT,
        R16_TYPELESS,
        R16_FLOAT,
        D16_UNORM,
        R16_UNORM,
        R16_UINT,
        R16_SNORM,
        R16_SINT,
        R8_TYPELESS,
        R8_UNORM,
        R8_UINT,
        R8_SNORM,
        R8_SINT,
        A8_UNORM,
        R1_UNORM,
        R9G9B9E5_SHAREDEXP,
        R8G8_B8G8_UNORM,
        G8R8_G8B8_UNORM,
        BC1_TYPELESS,
        BC1_UNORM,
        BC1_UNORM_SRGB,
        BC2_TYPELESS,
        BC2_UNORM,
        BC2_UNORM_SRGB,
        BC3_TYPELESS,
        BC3_UNORM,
        BC3_UNORM_SRGB,
        BC4_TYPELESS,
        BC4_UNORM,
        BC4_SNORM,
        BC5_TYPELESS,
        BC5_UNORM,
        BC5_SNORM,
        B5G6R5_UNORM,
        B5G5R5A1_UNORM,
        B8G8R8A8_UNORM,
        B8G8R8X8_UNORM,
        R10G10B10_XR_BIAS_A2_UNORM,
        B8G8R8A8_TYPELESS,
        B8G8R8A8_UNORM_SRGB,
        B8G8R8X8_TYPELESS,
        B8G8R8X8_UNORM_SRGB,
        BC6H_TYPELESS,
        BC6H_UF16,
        BC6H_SF16,
        BC7_TYPELESS,
        BC7_UNORM,
        BC7_UNORM_SRGB,
        AYUV,
        Y410,
        Y416,
        NV12,
        P010,
        P016,
        OPAQUE420,
        YUY2,
        Y210,
        Y216,
        NV11,
        AI44,
        IA44,
        P8,
        A8P8,
        B4G4R4A4_UNORM,
        P208,
        V208,
        V408,
        SAMPLER_FEEDBACK_MIN_MIP_OPAQUE,
        SAMPLER_FEEDBACK_MIP_REGION_USED_OPAQUE,
        FORCE_UINT,
    }
/// The numeric values that name an enumerant of the catalog.
pub open spec fn is_catalog_code(value: u32) -> bool {
    value <= 115 || (130 <= value && value <= 132)
}

/// Number of 4-texel blocks covering `n` texels, at least one.
pub open spec fn block_count(n: nat) -> nat {
    if (n + 3) / 4 >= 1 {
        ((n + 3) / 4) as nat
    } else {
        1
    }
}

impl DxgiFormat {
    /// The enumerant's numeric value on the wire.
    pub open spec fn code_spec(self) -> u32 {
        match self {
            DxgiFormat::Unknown => 0u32,
            DxgiFormat::R32G32B32A32_TYPELESS => 1u32,
            DxgiFormat::R32G32B32A32_FLOAT => 2u32,
            DxgiFormat::R32G32B32A32_UINT => 3u32,
            DxgiFormat::R32G32B32A32_SINT => 4u32,
            DxgiFormat::R32G32B32_TYPELESS => 5u32,
            DxgiFormat::R32G32B32_FLOAT => 6u32,
            DxgiFormat::R32G32B32_UINT => 7u32,
            DxgiFormat::R32G32B32_SINT => 8u32,
            DxgiFormat::R16G16B16A16_TYPELESS => 9u32,
            DxgiFormat::R16G16B16A16_FLOAT => 10u32,
            DxgiFormat::R16G16B16A16_UNORM => 11u32,
            DxgiFormat::R16G16B16A16_UINT => 12u32,
            DxgiFormat::R16G16B16A16_SNORM => 13u32,
            DxgiFormat::R16G16B16A16_SINT => 14u32,
            DxgiFormat::R32G32_TYPELESS => 15u32,
            DxgiFormat::R32G32_FLOAT => 16u32,
            DxgiFormat::R32G32_UINT => 17u32,
            DxgiFormat::R32G32_SINT => 18u32,
            DxgiFormat::R32G8X24_TYPELESS => 19u32,
            DxgiFormat::D32_FLOAT_S8X24_UINT => 20u32,
            DxgiFormat::R32_FLOAT_X8X24_TYPELESS => 21u32,
            DxgiFormat::X32_TYPELESS_G8X24_UINT => 22u32,
            DxgiFormat::R10G10B10A2_TYPELESS => 23u32,
            DxgiFormat::R10G10B10A2_UNORM => 24u32,
            DxgiFormat::R10G10B10A2_UINT => 25u32,
            DxgiFormat::R11G11B10_FLOAT => 26u32,
            DxgiFormat::R8G8B8A8_TYPELESS => 27u32,
            DxgiFormat::R8G8B8A8_UNORM => 28u32,
            DxgiFormat::R8G8B8A8_UNORM_SRGB => 29u32,
            DxgiFormat::R8G8B8A8_UINT => 30u32,
            DxgiFormat::R8G8B8A8_SNORM => 31u32,
            DxgiFormat::R8G8B8A8_SINT => 32u32,
            DxgiFormat::R16G16_TYPELESS => 33u32,
            DxgiFormat::R16G16_FLOAT => 34u32,
            DxgiFormat::R16G16_UNORM => 35u32,
            DxgiFormat::R16G16_UINT => 36u32,
            DxgiFormat::R16G16_SNORM => 37u32,
            DxgiFormat::R16G16_SINT => 38u32,
            DxgiFormat::R32_TYPELESS => 39u32,
            DxgiFormat::D32_FLOAT => 40u32,
            DxgiFormat::R32_FLOAT => 41u32,
            DxgiFormat::R32_UINT => 42u32,
            DxgiFormat::R32_SINT => 43u32,
            DxgiFormat::R24G8_TYPELESS => 44u32,
            DxgiFormat::D24_UNORM_S8_UINT => 45u32,
            DxgiFormat::R24_UNORM_X8_TYPELESS => 46u32,
            DxgiFormat::X24_TYPELESS_G8_UINT => 47u32,
            DxgiFormat::R8G8_TYPELESS => 48u32,
            DxgiFormat::R8G8_UNORM => 49u32,
            DxgiFormat::R8G8_UINT => 50u32,
            DxgiFormat::R8G8_SNORM => 51u32,
            DxgiFormat::R8G8_SINT => 52u32,
            DxgiFormat::R16_TYPELESS => 53u32,
            DxgiFormat::R16_FLOAT => 54u32,
            DxgiFormat::D16_UNORM => 55u32,
            DxgiFormat::R16_UNORM => 56u32,
            DxgiFormat::R16_UINT => 57u32,
            DxgiFormat::R16_SNORM => 58u32,
            DxgiFormat::R16_SINT => 59u32,
            DxgiFormat::R8_TYPELESS => 60u32,
            DxgiFormat::R8_UNORM => 61u32,
            DxgiFormat::R8_UINT => 62u32,
            DxgiFormat::R8_SNORM => 63u32,
            DxgiFormat::R8_SINT => 64u32,
            DxgiFormat::A8_UNORM => 65u32,
            DxgiFormat::R1_UNORM => 66u32,
            DxgiFormat::R9G9B9E5_SHAREDEXP => 67u32,
            DxgiFormat::R8G8_B8G8_UNORM => 68u32,
            DxgiFormat::G8R8_G8B8_UNORM => 69u32,
            DxgiFormat::BC1_TYPELESS => 70u32,
            DxgiFormat::BC1_UNORM => 71u32,
            DxgiFormat::BC1_UNORM_SRGB => 72u32,
            DxgiFormat::BC2_TYPELESS => 73u32,
            DxgiFormat::BC2_UNORM => 74u32,
            DxgiFormat::BC2_UNORM_SRGB => 75u32,
            DxgiFormat::BC3_TYPELESS => 76u32,
            DxgiFormat::BC3_UNORM => 77u32,
            DxgiFormat::BC3_UNORM_SRGB => 78u32,
            DxgiFormat::BC4_TYPELESS => 79u32,
            DxgiFormat::BC4_UNORM => 80u32,
            DxgiFormat::BC4_SNORM => 81u32,
            DxgiFormat::BC5_TYPELESS => 82u32,
            DxgiFormat::BC5_UNORM => 83u32,
            DxgiFormat::BC5_SNORM => 84u32,
            DxgiFormat::B5G6R5_UNORM => 85u32,
            DxgiFormat::B5G5R5A1_UNORM => 86u32,
            DxgiFormat::B8G8R8A8_UNORM => 87u32,
            DxgiFormat::B8G8R8X8_UNORM => 88u32,
            DxgiFormat::R10G10B10_XR_BIAS_A2_UNORM => 89u32,
            DxgiFormat::B8G8R8A8_TYPELESS => 90u32,
            DxgiFormat::B8G8R8A8_UNORM_SRGB => 91u32,
            DxgiFormat::B8G8R8X8_TYPELESS => 92u32,
            DxgiFormat::B8G8R8X8_UNORM_SRGB => 93u32,
            DxgiFormat::BC6H_TYPELESS => 94u32,
            DxgiFormat::BC6H_UF16 => 95u32,
            DxgiFormat::BC6H_SF16 => 96u32,
            DxgiFormat::BC7_TYPELESS => 97u32,
            DxgiFormat::BC7_UNORM => 98u32,
            DxgiFormat::BC7_UNORM_SRGB => 99u32,
            DxgiFormat::AYUV => 100u32,
            DxgiFormat::Y410 => 101u32,
            DxgiFormat::Y416 => 102u32,
            DxgiFormat::NV12 => 103u32,
            DxgiFormat::P010 => 104u32,
            DxgiFormat::P016 => 105u32,
            DxgiFormat::OPAQUE420 => 106u32,
            DxgiFormat::YUY2 => 107u32,
            DxgiFormat::Y210 => 108u32,
            DxgiFormat::Y216 => 109u32,
            DxgiFormat::NV11 => 110u32,
            DxgiFormat::AI44 => 111u32,
            DxgiFormat::IA44 => 112u32,
            DxgiFormat::P8 => 113u32,
            DxgiFormat::A8P8 => 114u32,
            DxgiFormat::B4G4R4A4_UNORM => 115u32,
            DxgiFormat::P208 => 130u32,
            DxgiFormat::V208 => 131u32,
            DxgiFormat::V408 => 132u32,
            DxgiFormat::SAMPLER_FEEDBACK_MIN_MIP_OPAQUE => 133u32,
            DxgiFormat::SAMPLER_FEEDBACK_MIP_REGION_USED_OPAQUE => 134u32,
            DxgiFormat::FORCE_UINT => 4294967295u32,
        }
    }

    /// Bits per pixel, for the enumerants that have a known size.
    pub open spec fn bpp_spec(self) -> Option<nat> {
        match self {
            DxgiFormat::R32G32B32A32_TYPELESS
            | DxgiFormat::R32G32B32A32_FLOAT
            | DxgiFormat::R32G32B32A32_UINT
            | DxgiFormat::R32G32B32A32_SINT => Some(128nat),
            DxgiFormat::R32G32B32_TYPELESS
            | DxgiFormat::R32G32B32_FLOAT
            | DxgiFormat::R32G32B32_UINT
            | DxgiFormat::R32G32B32_SINT => Some(96nat),
            DxgiFormat::R16G16B16A16_TYPELESS
            | DxgiFormat::R16G16B16A16_FLOAT
            | DxgiFormat::R16G16B16A16_UNORM
            | DxgiFormat::R16G16B16A16_UINT
            | DxgiFormat::R16G16B16A16_SNORM
            | DxgiFormat::R16G16B16A16_SINT
            | DxgiFormat::R32G32_TYPELESS
            | DxgiFormat::R32G32_FLOAT
            | DxgiFormat::R32G32_UINT
            | DxgiFormat::R32G32_SINT
            | DxgiFormat::R32G8X24_TYPELESS
            | DxgiFormat::D32_FLOAT_S8X24_UINT
            | DxgiFormat::R32_FLOAT_X8X24_TYPELESS
            | DxgiFormat::X32_TYPELESS_G8X24_UINT
            | DxgiFormat::Y416
            | DxgiFormat::Y210
            | DxgiFormat::Y216 => Some(64nat),
            DxgiFormat::R10G10B10A2_TYPELESS
            | DxgiFormat::R10G10B10A2_UNORM
            | DxgiFormat::R10G10B10A2_UINT
            | DxgiFormat::R11G11B10_FLOAT
            | DxgiFormat::R8G8B8A8_TYPELESS
            | DxgiFormat::R8G8B8A8_UNORM
            | DxgiFormat::R8G8B8A8_UNORM_SRGB
            | DxgiFormat::R8G8B8A8_UINT
            | DxgiFormat::R8G8B8A8_SNORM
            | DxgiFormat::R8G8B8A8_SINT
            | DxgiFormat::R16G16_TYPELESS
            | DxgiFormat::R16G16_FLOAT
            | DxgiFormat::R16G16_UNORM
            | DxgiFormat::R16G16_UINT
            | DxgiFormat::R16G16_SNORM
            | DxgiFormat::R16G16_SINT
            | DxgiFormat::R32_TYPELESS
            | DxgiFormat::D32_FLOAT
            | DxgiFormat::R32_FLOAT
            | DxgiFormat::R32_UINT
            | DxgiFormat::R32_SINT
            | DxgiFormat::R24G8_TYPELESS
            | DxgiFormat::D24_UNORM_S8_UINT
            | DxgiFormat::R24_UNORM_X8_TYPELESS
            | DxgiFormat::X24_TYPELESS_G8_UINT
            | DxgiFormat::R9G9B9E5_SHAREDEXP
            | DxgiFormat::R8G8_B8G8_UNORM
            | DxgiFormat::G8R8_G8B8_UNORM
            | DxgiFormat::B8G8R8A8_UNORM
            | DxgiFormat::B8G8R8X8_UNORM
            | DxgiFormat::R10G10B10_XR_BIAS_A2_UNORM
            | DxgiFormat::B8G8R8A8_TYPELESS
            | DxgiFormat::B8G8R8A8_UNORM_SRGB
            | DxgiFormat::B8G8R8X8_TYPELESS
            | DxgiFormat::B8G8R8X8_UNORM_SRGB
            | DxgiFormat::AYUV
            | DxgiFormat::Y410
            | DxgiFormat::YUY2 => Some(32nat),
            DxgiFormat::P010
            | DxgiFormat::P016 => Some(24nat),
            DxgiFormat::R8G8_TYPELESS
            | DxgiFormat::R8G8_UNORM
            | DxgiFormat::R8G8_UINT
            | DxgiFormat::R8G8_SNORM
            | DxgiFormat::R8G8_SINT
            | DxgiFormat::R16_TYPELESS
            | DxgiFormat::R16_FLOAT
            | DxgiFormat::D16_UNORM
            | DxgiFormat::R16_UNORM
            | DxgiFormat::R16_UINT
            | DxgiFormat::R16_SNORM
            | DxgiFormat::R16_SINT
            | DxgiFormat::B5G6R5_UNORM
            | DxgiFormat::B5G5R5A1_UNORM
            | DxgiFormat::A8P8
            | DxgiFormat::B4G4R4A4_UNORM => Some(16nat),
            DxgiFormat::NV12
            | DxgiFormat::OPAQUE420
            | DxgiFormat::NV11 => Some(12nat),
            DxgiFormat::R8_TYPELESS
            | DxgiFormat::R8_UNORM
            | DxgiFormat::R8_UINT
            | DxgiFormat::R8_SNORM
            | DxgiFormat::R8_SINT
            | DxgiFormat::A8_UNORM
            | DxgiFormat::BC2_TYPELESS
            | DxgiFormat::BC2_UNORM
            | DxgiFormat::BC2_UNORM_SRGB
            | DxgiFormat::BC3_TYPELESS
            | DxgiFormat::BC3_UNORM
            | DxgiFormat::BC3_UNORM_SRGB
            | DxgiFormat::BC5_TYPELESS
            | DxgiFormat::BC5_UNORM
            | DxgiFormat::BC5_SNORM
            | DxgiFormat::BC6H_TYPELESS
            | DxgiFormat::BC6H_UF16
            | DxgiFormat::BC6H_SF16
            | DxgiFormat::BC7_TYPELESS
            | DxgiFormat::BC7_UNORM
            | DxgiFormat::BC7_UNORM_SRGB
            | DxgiFormat::AI44
            | DxgiFormat::IA44
            | DxgiFormat::P8 => Some(8nat),
            DxgiFormat::BC1_TYPELESS
            | DxgiFormat::BC1_UNORM
            | DxgiFormat::BC1_UNORM_SRGB
            | DxgiFormat::BC4_TYPELESS
            | DxgiFormat::BC4_UNORM
            | DxgiFormat::BC4_SNORM => Some(4nat),
            DxgiFormat::R1_UNORM => Some(1nat),
            _ => None,
        }
    }

    pub open spec fn is_srgb_spec(self) -> bool {
        match self {
            DxgiFormat::R8G8B8A8_UNORM_SRGB
            | DxgiFormat::BC1_UNORM_SRGB
            | DxgiFormat::BC2_UNORM_SRGB
            | DxgiFormat::BC3_UNORM_SRGB
            | DxgiFormat::B8G8R8A8_UNORM_SRGB
            | DxgiFormat::B8G8R8X8_UNORM_SRGB
            | DxgiFormat::BC7_UNORM_SRGB => true,
            _ => false,
        }
    }

    /// Bytes per 4x4 block, for the block-compressed enumerants.
    pub open spec fn block_bytes_spec(self) -> Option<nat> {
        match self {
            DxgiFormat::BC1_TYPELESS
            | DxgiFormat::BC1_UNORM
            | DxgiFormat::BC1_UNORM_SRGB
            | DxgiFormat::BC4_TYPELESS
            | DxgiFormat::BC4_UNORM
            | DxgiFormat::BC4_SNORM => Some(8nat),
            DxgiFormat::BC2_TYPELESS
            | DxgiFormat::BC2_UNORM
            | DxgiFormat::BC2_UNORM_SRGB
            | DxgiFormat::BC3_TYPELESS
            | DxgiFormat::BC3_UNORM
            | DxgiFormat::BC3_UNORM_SRGB
            | DxgiFormat::BC5_TYPELESS
            | DxgiFormat::BC5_UNORM
            | DxgiFormat::BC5_SNORM
            | DxgiFormat::BC6H_TYPELESS
            | DxgiFormat::BC6H_UF16
            | DxgiFormat::BC6H_SF16
            | DxgiFormat::BC7_TYPELESS
            | DxgiFormat::BC7_UNORM
            | DxgiFormat::BC7_UNORM_SRGB => Some(16nat),
            _ => None,
        }
    }

    pub open spec fn is_compressed_spec(self) -> bool {
        self.block_bytes_spec() is Some
    }

    /// `(row pitch, total bytes)` of a `width` x `height` surface, if the format has a size.
    pub open spec fn surface_layout_spec(self, width: nat, height: nat) -> Option<(nat, nat)> {
        match self.block_bytes_spec() {
            Some(block) => {
                let pitch = block_count(width) * block;
                Some((pitch, pitch * block_count(height)))
            },
            None => match self.bpp_spec() {
                Some(bpp) => {
                    let pitch = ((width * bpp + 7) / 8) as nat;
                    Some((pitch, pitch * height))
                },
                None => None,
            },
        }
    }

    /// The surface's sizes, and the intermediate product of the linear formula, fit in a `usize`.
    pub open spec fn layout_fits(self, width: nat, height: nat) -> bool {
        match self.surface_layout_spec(width, height) {
            Some((pitch, total)) => {
                &&& pitch <= usize::MAX
                &&& total <= usize::MAX
                &&& (self.block_bytes_spec() is None ==> width * self.bpp_spec()->0 <= usize::MAX)
            },
            None => true,
        }
    }

    /// The enumerant's numeric value.
    pub fn code(&self) -> (r: u32)
        ensures
            r == self.code_spec(),
    {
        match self {
            DxgiFormat::Unknown => 0,
            DxgiFormat::R32G32B32A32_TYPELESS => 1,
            DxgiFormat::R32G32B32A32_FLOAT => 2,
            DxgiFormat::R32G32B32A32_UINT => 3,
            DxgiFormat::R32G32B32A32_SINT => 4,
            DxgiFormat::R32G32B32_TYPELESS => 5,
            DxgiFormat::R32G32B32_FLOAT => 6,
            DxgiFormat::R32G32B32_UINT => 7,
            DxgiFormat::R32G32B32_SINT => 8,
            DxgiFormat::R16G16B16A16_TYPELESS => 9,
            DxgiFormat::R16G16B16A16_FLOAT => 10,
            DxgiFormat::R16G16B16A16_UNORM => 11,
            DxgiFormat::R16G16B16A16_UINT => 12,
            DxgiFormat::R16G16B16A16_SNORM => 13,
            DxgiFormat::R16G16B16A16_SINT => 14,
            DxgiFormat::R32G32_TYPELESS => 15,
            DxgiFormat::R32G32_FLOAT => 16,
            DxgiFormat::R32G32_UINT => 17,
            DxgiFormat::R32G32_SINT => 18,
            DxgiFormat::R32G8X24_TYPELESS => 19,
            DxgiFormat::D32_FLOAT_S8X24_UINT => 20,
            DxgiFormat::R32_FLOAT_X8X24_TYPELESS => 21,
            DxgiFormat::X32_TYPELESS_G8X24_UINT => 22,
            DxgiFormat::R10G10B10A2_TYPELESS => 23,
            DxgiFormat::R10G10B10A2_UNORM => 24,
            DxgiFormat::R10G10B10A2_UINT => 25,
            DxgiFormat::R11G11B10_FLOAT => 26,
            DxgiFormat::R8G8B8A8_TYPELESS => 27,
            DxgiFormat::R8G8B8A8_UNORM => 28,
            DxgiFormat::R8G8B8A8_UNORM_SRGB => 29,
            DxgiFormat::R8G8B8A8_UINT => 30,
            DxgiFormat::R8G8B8A8_SNORM => 31,
            DxgiFormat::R8G8B8A8_SINT => 32,
            DxgiFormat::R16G16_TYPELESS => 33,
            DxgiFormat::R16G16_FLOAT => 34,
            DxgiFormat::R16G16_UNORM => 35,
            DxgiFormat::R16G16_UINT => 36,
            DxgiFormat::R16G16_SNORM => 37,
            DxgiFormat::R16G16_SINT => 38,
            DxgiFormat::R32_TYPELESS => 39,
            DxgiFormat::D32_FLOAT => 40,
            DxgiFormat::R32_FLOAT => 41,
            DxgiFormat::R32_UINT => 42,
            DxgiFormat::R32_SINT => 43,
            DxgiFormat::R24G8_TYPELESS => 44,
            DxgiFormat::D24_UNORM_S8_UINT => 45,
            DxgiFormat::R24_UNORM_X8_TYPELESS => 46,
            DxgiFormat::X24_TYPELESS_G8_UINT => 47,
            DxgiFormat::R8G8_TYPELESS => 48,
            DxgiFormat::R8G8_UNORM => 49,
            DxgiFormat::R8G8_UINT => 50,
            DxgiFormat::R8G8_SNORM => 51,
            DxgiFormat::R8G8_SINT => 52,
            DxgiFormat::R16_TYPELESS => 53,
            DxgiFormat::R16_FLOAT => 54,
            DxgiFormat::D16_UNORM => 55,
            DxgiFormat::R16_UNORM => 56,
            DxgiFormat::R16_UINT => 57,
            DxgiFormat::R16_SNORM => 58,
            DxgiFormat::R16_SINT => 59,
            DxgiFormat::R8_TYPELESS => 60,
            DxgiFormat::R8_UNORM => 61,
            DxgiFormat::R8_UINT => 62,
            DxgiFormat::R8_SNORM => 63,
            DxgiFormat::R8_SINT => 64,
            DxgiFormat::A8_UNORM => 65,
            DxgiFormat::R1_UNORM => 66,
            DxgiFormat::R9G9B9E5_SHAREDEXP => 67,
            DxgiFormat::R8G8_B8G8_UNORM => 68,
            DxgiFormat::G8R8_G8B8_UNORM => 69,
            DxgiFormat::BC1_TYPELESS => 70,
            DxgiFormat::BC1_UNORM => 71,
            DxgiFormat::BC1_UNORM_SRGB => 72,
            DxgiFormat::BC2_TYPELESS => 73,
            DxgiFormat::BC2_UNORM => 74,
            DxgiFormat::BC2_UNORM_SRGB => 75,
            DxgiFormat::BC3_TYPELESS => 76,
            DxgiFormat::BC3_UNORM => 77,
            DxgiFormat::BC3_UNORM_SRGB => 78,
            DxgiFormat::BC4_TYPELESS => 79,
            DxgiFormat::BC4_UNORM => 80,
            DxgiFormat::BC4_SNORM => 81,
            DxgiFormat::BC5_TYPELESS => 82,
            DxgiFormat::BC5_UNORM => 83,
            DxgiFormat::BC5_SNORM => 84,
            DxgiFormat::B5G6R5_UNORM => 85,
            DxgiFormat::B5G5R5A1_UNORM => 86,
            DxgiFormat::B8G8R8A8_UNORM => 87,
            DxgiFormat::B8G8R8X8_UNORM => 88,
            DxgiFormat::R10G10B10_XR_BIAS_A2_UNORM => 89,
            DxgiFormat::B8G8R8A8_TYPELESS => 90,
            DxgiFormat::B8G8R8A8_UNORM_SRGB => 91,
            DxgiFormat::B8G8R8X8_TYPELESS => 92,
            DxgiFormat::B8G8R8X8_UNORM_SRGB => 93,
            DxgiFormat::BC6H_TYPELESS => 94,
            DxgiFormat::BC6H_UF16 => 95,
            DxgiFormat::BC6H_SF16 => 96,
            DxgiFormat::BC7_TYPELESS => 97,
            DxgiFormat::BC7_UNORM => 98,
            DxgiFormat::BC7_UNORM_SRGB => 99,
            DxgiFormat::AYUV => 100,
            DxgiFormat::Y410 => 101,
            DxgiFormat::Y416 => 102,
            DxgiFormat::NV12 => 103,
            DxgiFormat::P010 => 104,
            DxgiFormat::P016 => 105,
            DxgiFormat::OPAQUE420 => 106,
            DxgiFormat::YUY2 => 107,
            DxgiFormat::Y210 => 108,
            DxgiFormat::Y216 => 109,
            DxgiFormat::NV11 => 110,
            DxgiFormat::AI44 => 111,
            DxgiFormat::IA44 => 112,
            DxgiFormat::P8 => 113,
            DxgiFormat::A8P8 => 114,
            DxgiFormat::B4G4R4A4_UNORM => 115,
            DxgiFormat::P208 => 130,
            DxgiFormat::V208 => 131,
            DxgiFormat::V408 => 132,
            DxgiFormat::SAMPLER_FEEDBACK_MIN_MIP_OPAQUE => 133,
            DxgiFormat::SAMPLER_FEEDBACK_MIP_REGION_USED_OPAQUE => 134,
            DxgiFormat::FORCE_UINT => 4294967295,
        }
    }

    /// The enumerant whose numeric value is `value`; reserved values are refused.
    pub fn from_code(value: u32) -> (r: Result<DxgiFormat, PixelFormatError>)
        ensures
            match r {
                Ok(f) => is_catalog_code(value) && f.code_spec() == value,
                Err(e) => !is_catalog_code(value) && e == PixelFormatError::FormatOutOfRange(value),
            },
    {
        let f = match value {
            0 => DxgiFormat::Unknown,
            1 => DxgiFormat::R32G32B32A32_TYPELESS,
            2 => DxgiFormat::R32G32B32A32_FLOAT,
            3 => DxgiFormat::R32G32B32A32_UINT,
            4 => DxgiFormat::R32G32B32A32_SINT,
            5 => DxgiFormat::R32G32B32_TYPELESS,
            6 => DxgiFormat::R32G32B32_FLOAT,
            7 => DxgiFormat::R32G32B32_UINT,
            8 => DxgiFormat::R32G32B32_SINT,
            9 => DxgiFormat::R16G16B16A16_TYPELESS,
            10 => DxgiFormat::R16G16B16A16_FLOAT,
            11 => DxgiFormat::R16G16B16A16_UNORM,
            12 => DxgiFormat::R16G16B16A16_UINT,
            13 => DxgiFormat::R16G16B16A16_SNORM,
            14 => DxgiFormat::R16G16B16A16_SINT,
            15 => DxgiFormat::R32G32_TYPELESS,
            16 => DxgiFormat::R32G32_FLOAT,
            17 => DxgiFormat::R32G32_UINT,
            18 => DxgiFormat::R32G32_SINT,
            19 => DxgiFormat::R32G8X24_TYPELESS,
            20 => DxgiFormat::D32_FLOAT_S8X24_UINT,
            21 => DxgiFormat::R32_FLOAT_X8X24_TYPELESS,
            22 => DxgiFormat::X32_TYPELESS_G8X24_UINT,
            23 => DxgiFormat::R10G10B10A2_TYPELESS,
            24 => DxgiFormat::R10G10B10A2_UNORM,
            25 => DxgiFormat::R10G10B10A2_UINT,
            26 => DxgiFormat::R11G11B10_FLOAT,
            27 => DxgiFormat::R8G8B8A8_TYPELESS,
            28 => DxgiFormat::R8G8B8A8_UNORM,
            29 => DxgiFormat::R8G8B8A8_UNORM_SRGB,
            30 => DxgiFormat::R8G8B8A8_UINT,
            31 => DxgiFormat::R8G8B8A8_SNORM,
            32 => DxgiFormat::R8G8B8A8_SINT,
            33 => DxgiFormat::R16G16_TYPELESS,
            34 => DxgiFormat::R16G16_FLOAT,
            35 => DxgiFormat::R16G16_UNORM,
            36 => DxgiFormat::R16G16_UINT,
            37 => DxgiFormat::R16G16_SNORM,
            38 => DxgiFormat::R16G16_SINT,
            39 => DxgiFormat::R32_TYPELESS,
            40 => DxgiFormat::D32_FLOAT,
            41 => DxgiFormat::R32_FLOAT,
            42 => DxgiFormat::R32_UINT,
            43 => DxgiFormat::R32_SINT,
            44 => DxgiFormat::R24G8_TYPELESS,
            45 => DxgiFormat::D24_UNORM_S8_UINT,
            46 => DxgiFormat::R24_UNORM_X8_TYPELESS,
            47 => DxgiFormat::X24_TYPELESS_G8_UINT,
            48 => DxgiFormat::R8G8_TYPELESS,
            49 => DxgiFormat::R8G8_UNORM,
            50 => DxgiFormat::R8G8_UINT,
            51 => DxgiFormat::R8G8_SNORM,
            52 => DxgiFormat::R8G8_SINT,
            53 => DxgiFormat::R16_TYPELESS,
            54 => DxgiFormat::R16_FLOAT,
            55 => DxgiFormat::D16_UNORM,
            56 => DxgiFormat::R16_UNORM,
            57 => DxgiFormat::R16_UINT,
            58 => DxgiFormat::R16_SNORM,
            59 => DxgiFormat::R16_SINT,
            60 => DxgiFormat::R8_TYPELESS,
            61 => DxgiFormat::R8_UNORM,
            62 => DxgiFormat::R8_UINT,
            63 => DxgiFormat::R8_SNORM,
            64 => DxgiFormat::R8_SINT,
            65 => DxgiFormat::A8_UNORM,
            66 => DxgiFormat::R1_UNORM,
            67 => DxgiFormat::R9G9B9E5_SHAREDEXP,
            68 => DxgiFormat::R8G8_B8G8_UNORM,
            69 => DxgiFormat::G8R8_G8B8_UNORM,
            70 => DxgiFormat::BC1_TYPELESS,
            71 => DxgiFormat::BC1_UNORM,
            72 => DxgiFormat::BC1_UNORM_SRGB,
            73 => DxgiFormat::BC2_TYPELESS,
            74 => DxgiFormat::BC2_UNORM,
            75 => DxgiFormat::BC2_UNORM_SRGB,
            76 => DxgiFormat::BC3_TYPELESS,
            77 => DxgiFormat::BC3_UNORM,
            78 => DxgiFormat::BC3_UNORM_SRGB,
            79 => DxgiFormat::BC4_TYPELESS,
            80 => DxgiFormat::BC4_UNORM,
            81 => DxgiFormat::BC4_SNORM,
            82 => DxgiFormat::BC5_TYPELESS,
            83 => DxgiFormat::BC5_UNORM,
            84 => DxgiFormat::BC5_SNORM,
            85 => DxgiFormat::B5G6R5_UNORM,
            86 => DxgiFormat::B5G5R5A1_UNORM,
            87 => DxgiFormat::B8G8R8A8_UNORM,
            88 => DxgiFormat::B8G8R8X8_UNORM,
            89 => DxgiFormat::R10G10B10_XR_BIAS_A2_UNORM,
            90 => DxgiFormat::B8G8R8A8_TYPELESS,
            91 => DxgiFormat::B8G8R8A8_UNORM_SRGB,
            92 => DxgiFormat::B8G8R8X8_TYPELESS,
            93 => DxgiFormat::B8G8R8X8_UNORM_SRGB,
            94 => DxgiFormat::BC6H_TYPELESS,
            95 => DxgiFormat::BC6H_UF16,
            96 => DxgiFormat::BC6H_SF16,
            97 => DxgiFormat::BC7_TYPELESS,
            98 => DxgiFormat::BC7_UNORM,
            99 => DxgiFormat::BC7_UNORM_SRGB,
            100 => DxgiFormat::AYUV,
            101 => DxgiFormat::Y410,
            102 => DxgiFormat::Y416,
            103 => DxgiFormat::NV12,
            104 => DxgiFormat::P010,
            105 => DxgiFormat::P016,
            106 => DxgiFormat::OPAQUE420,
            107 => DxgiFormat::YUY2,
            108 => DxgiFormat::Y210,
            109 => DxgiFormat::Y216,
            110 => DxgiFormat::NV11,
            111 => DxgiFormat::AI44,
            112 => DxgiFormat::IA44,
            113 => DxgiFormat::P8,
            114 => DxgiFormat::A8P8,
            115 => DxgiFormat::B4G4R4A4_UNORM,
            130 => DxgiFormat::P208,
            131 => DxgiFormat::V208,
            132 => DxgiFormat::V408,
            _ => {
                return Err(PixelFormatError::FormatOutOfRange(value));
            },
        };
        Ok(f)
    }

    /// Bits per pixel; an enumerant without a known size is out of range.
    pub fn bpp(&self) -> (r: Result<usize, PixelFormatError>)
        ensures
            match self.bpp_spec() {
                Some(n) => r == Ok::<usize, PixelFormatError>(n as usize),
                None => r == Err::<usize, PixelFormatError>(PixelFormatError::FormatOutOfRange(self.code_spec())),
            },
    {
        match self {
            DxgiFormat::R32G32B32A32_TYPELESS
            | DxgiFormat::R32G32B32A32_FLOAT
            | DxgiFormat::R32G32B32A32_UINT
            | DxgiFormat::R32G32B32A32_SINT => Ok(128),
            DxgiFormat::R32G32B32_TYPELESS
            | DxgiFormat::R32G32B32_FLOAT
            | DxgiFormat::R32G32B32_UINT
            | DxgiFormat::R32G32B32_SINT => Ok(96),
            DxgiFormat::R16G16B16A16_TYPELESS
            | DxgiFormat::R16G16B16A16_FLOAT
            | DxgiFormat::R16G16B16A16_UNORM
            | DxgiFormat::R16G16B16A16_UINT
            | DxgiFormat::R16G16B16A16_SNORM
            | DxgiFormat::R16G16B16A16_SINT
            | DxgiFormat::R32G32_TYPELESS
            | DxgiFormat::R32G32_FLOAT
            | DxgiFormat::R32G32_UINT
            | DxgiFormat::R32G32_SINT
            | DxgiFormat::R32G8X24_TYPELESS
            | DxgiFormat::D32_FLOAT_S8X24_UINT
            | DxgiFormat::R32_FLOAT_X8X24_TYPELESS
            | DxgiFormat::X32_TYPELESS_G8X24_UINT
            | DxgiFormat::Y416
            | DxgiFormat::Y210
            | DxgiFormat::Y216 => Ok(64),
            DxgiFormat::R10G10B10A2_TYPELESS
            | DxgiFormat::R10G10B10A2_UNORM
            | DxgiFormat::R10G10B10A2_UINT
            | DxgiFormat::R11G11B10_FLOAT
            | DxgiFormat::R8G8B8A8_TYPELESS
            | DxgiFormat::R8G8B8A8_UNORM
            | DxgiFormat::R8G8B8A8_UNORM_SRGB
            | DxgiFormat::R8G8B8A8_UINT
            | DxgiFormat::R8G8B8A8_SNORM
            | DxgiFormat::R8G8B8A8_SINT
            | DxgiFormat::R16G16_TYPELESS
            | DxgiFormat::R16G16_FLOAT
            | DxgiFormat::R16G16_UNORM
            | DxgiFormat::R16G16_UINT
            | DxgiFormat::R16G16_SNORM
            | DxgiFormat::R16G16_SINT
            | DxgiFormat::R32_TYPELESS
            | DxgiFormat::D32_FLOAT
            | DxgiFormat::R32_FLOAT
            | DxgiFormat::R32_UINT
            | DxgiFormat::R32_SINT
            | DxgiFormat::R24G8_TYPELESS
            | DxgiFormat::D24_UNORM_S8_UINT
            | DxgiFormat::R24_UNORM_X8_TYPELESS
            | DxgiFormat::X24_TYPELESS_G8_UINT
            | DxgiFormat::R9G9B9E5_SHAREDEXP
            | DxgiFormat::R8G8_B8G8_UNORM
            | DxgiFormat::G8R8_G8B8_UNORM
            | DxgiFormat::B8G8R8A8_UNORM
            | DxgiFormat::B8G8R8X8_UNORM
            | DxgiFormat::R10G10B10_XR_BIAS_A2_UNORM
            | DxgiFormat::B8G8R8A8_TYPELESS
            | DxgiFormat::B8G8R8A8_UNORM_SRGB
            | DxgiFormat::B8G8R8X8_TYPELESS
            | DxgiFormat::B8G8R8X8_UNORM_SRGB
            | DxgiFormat::AYUV
            | DxgiFormat::Y410
            | DxgiFormat::YUY2 => Ok(32),
            DxgiFormat::P010
            | DxgiFormat::P016 => Ok(24),
            DxgiFormat::R8G8_TYPELESS
            | DxgiFormat::R8G8_UNORM
            | DxgiFormat::R8G8_UINT
            | DxgiFormat::R8G8_SNORM
            | DxgiFormat::R8G8_SINT
            | DxgiFormat::R16_TYPELESS
            | DxgiFormat::R16_FLOAT
            | DxgiFormat::D16_UNORM
            | DxgiFormat::R16_UNORM
            | DxgiFormat::R16_UINT
            | DxgiFormat::R16_SNORM
            | DxgiFormat::R16_SINT
            | DxgiFormat::B5G6R5_UNORM
            | DxgiFormat::B5G5R5A1_UNORM
            | DxgiFormat::A8P8
            | DxgiFormat::B4G4R4A4_UNORM => Ok(16),
            DxgiFormat::NV12
            | DxgiFormat::OPAQUE420
            | DxgiFormat::NV11 => Ok(12),
            DxgiFormat::R8_TYPELESS
            | DxgiFormat::R8_UNORM
            | DxgiFormat::R8_UINT
            | DxgiFormat::R8_SNORM
            | DxgiFormat::R8_SINT
            | DxgiFormat::A8_UNORM
            | DxgiFormat::BC2_TYPELESS
            | DxgiFormat::BC2_UNORM
            | DxgiFormat::BC2_UNORM_SRGB
            | DxgiFormat::BC3_TYPELESS
            | DxgiFormat::BC3_UNORM
            | DxgiFormat::BC3_UNORM_SRGB
            | DxgiFormat::BC5_TYPELESS
            | DxgiFormat::BC5_UNORM
            | DxgiFormat::BC5_SNORM
            | DxgiFormat::BC6H_TYPELESS
            | DxgiFormat::BC6H_UF16
            | DxgiFormat::BC6H_SF16
            | DxgiFormat::BC7_TYPELESS
            | DxgiFormat::BC7_UNORM
            | DxgiFormat::BC7_UNORM_SRGB
            | DxgiFormat::AI44
            | DxgiFormat::IA44
            | DxgiFormat::P8 => Ok(8),
            DxgiFormat::BC1_TYPELESS
            | DxgiFormat::BC1_UNORM
            | DxgiFormat::BC1_UNORM_SRGB
            | DxgiFormat::BC4_TYPELESS
            | DxgiFormat::BC4_UNORM
            | DxgiFormat::BC4_SNORM => Ok(4),
            DxgiFormat::R1_UNORM => Ok(1),
            _ => Err(PixelFormatError::FormatOutOfRange(self.code())),
        }
    }

    pub fn is_srgb(&self) -> (r: bool)
        ensures
            r == self.is_srgb_spec(),
    {
        match self {
            DxgiFormat::R8G8B8A8_UNORM_SRGB
            | DxgiFormat::BC1_UNORM_SRGB
            | DxgiFormat::BC2_UNORM_SRGB
            | DxgiFormat::BC3_UNORM_SRGB
            | DxgiFormat::B8G8R8A8_UNORM_SRGB
            | DxgiFormat::B8G8R8X8_UNORM_SRGB
            | DxgiFormat::BC7_UNORM_SRGB => true,
            _ => false,
        }
    }

    pub fn is_compressed(&self) -> (r: bool)
        ensures
            r == self.is_compressed_spec(),
    {
        match self {
            DxgiFormat::BC1_TYPELESS
            | DxgiFormat::BC1_UNORM
            | DxgiFormat::BC1_UNORM_SRGB
            | DxgiFormat::BC4_TYPELESS
            | DxgiFormat::BC4_UNORM
            | DxgiFormat::BC4_SNORM => true,
            DxgiFormat::BC2_TYPELESS
            | DxgiFormat::BC2_UNORM
            | DxgiFormat::BC2_UNORM_SRGB
            | DxgiFormat::BC3_TYPELESS
            | DxgiFormat::BC3_UNORM
            | DxgiFormat::BC3_UNORM_SRGB
            | DxgiFormat::BC5_TYPELESS
            | DxgiFormat::BC5_UNORM
            | DxgiFormat::BC5_SNORM
            | DxgiFormat::BC6H_TYPELESS
            | DxgiFormat::BC6H_UF16
            | DxgiFormat::BC6H_SF16
            | DxgiFormat::BC7_TYPELESS
            | DxgiFormat::BC7_UNORM
            | DxgiFormat::BC7_UNORM_SRGB => true,
            _ => false,
        }
    }

    /// Bytes per 4x4 block of a block-compressed format, `None` for the others.
    pub fn block_bytes(&self) -> (r: Option<usize>)
        ensures
            match self.block_bytes_spec() {
                Some(n) => r == Some(n as usize),
                None => r is None,
            },
    {
        match self {
            DxgiFormat::BC1_TYPELESS
            | DxgiFormat::BC1_UNORM
            | DxgiFormat::BC1_UNORM_SRGB
            | DxgiFormat::BC4_TYPELESS
            | DxgiFormat::BC4_UNORM
            | DxgiFormat::BC4_SNORM => Some(8),
            DxgiFormat::BC2_TYPELESS
            | DxgiFormat::BC2_UNORM
            | DxgiFormat::BC2_UNORM_SRGB
            | DxgiFormat::BC3_TYPELESS
            | DxgiFormat::BC3_UNORM
            | DxgiFormat::BC3_UNORM_SRGB
            | DxgiFormat::BC5_TYPELESS
            | DxgiFormat::BC5_UNORM
            | DxgiFormat::BC5_SNORM
            | DxgiFormat::BC6H_TYPELESS
            | DxgiFormat::BC6H_UF16
            | DxgiFormat::BC6H_SF16
            | DxgiFormat::BC7_TYPELESS
            | DxgiFormat::BC7_UNORM
            | DxgiFormat::BC7_UNORM_SRGB => Some(16),
            _ => None,
        }
    }
}

/// Number of 4-texel blocks covering `n` texels, at least one.
fn blocks_of(n: usize) -> (r: usize)
    ensures
        r == block_count(n as nat),
{
    let q = n / 4;
    let blocks = if n % 4 != 0 { q + 1 } else { q };
    if blocks == 0 { 1 } else { blocks }
}

impl DxgiFormat {
    /// `(row pitch, total bytes)` of a `width` x `height` surface: block-compressed formats
    /// count whole 4x4 blocks, the others whole bytes per row.
    pub fn calculate_pitch(&self, width: usize, height: usize) -> (r: Result<(usize, usize), PixelFormatError>)
        requires
            self.layout_fits(width as nat, height as nat),
        ensures
            match self.surface_layout_spec(width as nat, height as nat) {
                Some((pitch, total)) => r == Ok::<(usize, usize), PixelFormatError>((pitch as usize, total as usize)),
                None => r == Err::<(usize, usize), PixelFormatError>(PixelFormatError::FormatOutOfRange(self.code_spec())),
            },
    {
        match self.block_bytes() {
            Some(block) => {
                let nbw = blocks_of(width);
                let nbh = blocks_of(height);
                let pitch = nbw * block;
                Ok((pitch, pitch * nbh))
            },
            None => {
                let bpp = self.bpp()?;
                let bits = width * bpp;
                let pitch = if bits % 8 != 0 { bits / 8 + 1 } else { bits / 8 };
                assert(pitch == (bits + 7) / 8);
                Ok((pitch, pitch * height))
            },
        }
    }
}

/// Bits per pixel of the format with numeric value `value`.
pub fn bits_per_pixel(value: u32) -> (r: Result<usize, PixelFormatError>)
    ensures
        match r {
            Ok(n) => exists|f: DxgiFormat| f.code_spec() == value && f.bpp_spec() == Some(n as nat),
            Err(e) => e == PixelFormatError::FormatOutOfRange(value)
                && forall|f: DxgiFormat| f.code_spec() == value ==> f.bpp_spec() is None,
        },
{
    let f = DxgiFormat::from_code(value)?;
    f.bpp()
}

/// Every enumerant of the catalog has a bit count, but for the four whose size the
/// catalog leaves undefined; and no enumerant carries a reserved numeric value, so such
/// a value is refused.
pub proof fn lemma_bits_per_pixel_total(f: DxgiFormat, value: u32)
    ensures
        is_catalog_code(f.code_spec()) && f != DxgiFormat::Unknown && f != DxgiFormat::P208
            && f != DxgiFormat::V208 && f != DxgiFormat::V408 ==> f.bpp_spec() is Some,
        !is_catalog_code(value) ==> forall|g: DxgiFormat| #[trigger] g.code_spec() == value ==> g.bpp_spec() is None,
{
}

} // verus!
