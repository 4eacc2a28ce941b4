//! Texture headers and the gathering of their pixel payload.
use vstd::prelude::*;
use crate::address::WideHash;
use crate::decoder::{lookup, lookup_spec, DecodeError, Lookup};
use crate::pixel_format::{is_catalog_code, DxgiFormat, PixelFormatError};
use crate::store::{StoreModel, TagStore};
use crate::wire::{lemma_byte_limit_8, read_uint, uint_at, Endian};

verus! {

/// Header of a texture: its sizes, its pixel format, and the address of the large
/// buffer that, when present, comes before the texture's own data.
#[derive(Debug, Clone, Copy, PartialEq, Eq, Structural)]
pub struct TextureHeader {
    pub data_size: u32,
    pub format: DxgiFormat,
    pub width: u16,
    pub height: u16,
    pub depth: u16,
    pub array_size: u16,
    pub large_buffer: u32,
}

impl TextureHeader {
    /// Declared size of the record.
    pub const SIZE: usize = 0x40;

    /// Reads the header at `pos`; a pixel-format value outside the catalog is refused.
    pub fn read(blob: &[u8], pos: usize, e: Endian) -> (r: Result<TextureHeader, DecodeError>)
        ensures
            pos + TextureHeader::SIZE > blob@.len() ==> r == Err::<TextureHeader, DecodeError>(DecodeError::UnexpectedEndOfData),
            pos + TextureHeader::SIZE <= blob@.len() ==> {
                let code = uint_at(blob@, pos + 4, 4, e)->0;
                match r {
                    Ok(h) => {
                        &&& is_catalog_code(code as u32)
                        &&& h.format.code_spec() == code
                        &&& h.data_size == uint_at(blob@, pos as int, 4, e)->0
                        &&& h.width == uint_at(blob@, pos + 0x22, 2, e)->0
                        &&& h.height == uint_at(blob@, pos + 0x24, 2, e)->0
                        &&& h.depth == uint_at(blob@, pos + 0x26, 2, e)->0
                        &&& h.array_size == uint_at(blob@, pos + 0x28, 2, e)->0
                        &&& h.large_buffer == uint_at(blob@, pos + 0x3c, 4, e)->0
                    },
                    Err(x) => !is_catalog_code(code as u32) && x == DecodeError::FormatOutOfRange(code as u32),
                }
            },
    {
        if pos > blob.len() || blob.len() - pos < TextureHeader::SIZE {
            return Err(DecodeError::UnexpectedEndOfData);
        }
        proof {
            lemma_byte_limit_8();
        }
        let data_size = read_uint(blob, pos, 4, e).unwrap() as u32;
        let code = read_uint(blob, pos + 4, 4, e).unwrap() as u32;
        let format = match DxgiFormat::from_code(code) {
            Ok(f) => f,
            Err(PixelFormatError::FormatOutOfRange(v)) => {
                return Err(DecodeError::FormatOutOfRange(v));
            },
        };
        let width = read_uint(blob, pos + 0x22, 2, e).unwrap() as u16;
        let height = read_uint(blob, pos + 0x24, 2, e).unwrap() as u16;
        let depth = read_uint(blob, pos + 0x26, 2, e).unwrap() as u16;
        let array_size = read_uint(blob, pos + 0x28, 2, e).unwrap() as u16;
        let large_buffer = read_uint(blob, pos + 0x3c, 4, e).unwrap() as u32;
        Ok(TextureHeader { data_size, format, width, height, depth, array_size, large_buffer })
    }
}

/// The pixel payload of a texture whose own data is stored under `data`: the large
/// buffer's bytes followed by the texture's data where the header names a large buffer,
/// else the texture's data alone.
pub open spec fn payload_spec(st: StoreModel, header: TextureHeader, data: u32) -> Result<Seq<u8>, DecodeError> {
    let own = if st.blobs.contains_key(data) {
        Ok(st.blobs[data])
    } else {
        Err(DecodeError::StoreMiss(WideHash::Hash32(data)))
    };
    match lookup_spec(st.table, WideHash::Hash32(header.large_buffer)) {
        Lookup::Read(b) => if !st.blobs.contains_key(b) {
            Err(DecodeError::StoreMiss(WideHash::Hash32(b)))
        } else {
            match own {
                Ok(o) => Ok(st.blobs[b] + o),
                Err(x) => Err(x),
            }
        },
        _ => own,
    }
}

/// Gathers the pixel payload of a texture from the store.
pub fn texture_payload(store: &TagStore, header: &TextureHeader, data: u32) -> (r: Result<Vec<u8>, DecodeError>)
    ensures
        match r {
            Ok(v) => payload_spec(store@, *header, data) == Ok::<Seq<u8>, DecodeError>(v@),
            Err(x) => payload_spec(store@, *header, data) == Err::<Seq<u8>, DecodeError>(x),
        },
{
    let mut out: Vec<u8> = Vec::new();
    match lookup(store, WideHash::Hash32(header.large_buffer)) {
        Lookup::Read(b) => match store.read_by_hash32(b) {
            Some(bytes) => {
                out.extend_from_slice(bytes.as_slice());
                assert(out@ =~= store@.blobs[b]);
            },
            None => {
                return Err(DecodeError::StoreMiss(WideHash::Hash32(b)));
            },
        },
        _ => {
            assert(out@ =~= Seq::<u8>::empty());
        },
    }
    match store.read_by_hash32(data) {
        Some(bytes) => {
            let ghost before = out@;
            out.extend_from_slice(bytes.as_slice());
            assert(out@ =~= before + bytes@);
            assert(Seq::<u8>::empty() + bytes@ =~= bytes@);
            Ok(out)
        },
        None => Err(DecodeError::StoreMiss(WideHash::Hash32(data))),
    }
}

} // verus!
