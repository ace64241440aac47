pub mod cursor;
pub mod element;
pub mod error;
pub mod header;
pub mod parser;
pub mod scalars;
pub mod varint;

pub use cursor::Cursor;
pub use error::EbmlError;
pub use varint::{VarInt, VarIntLength, VintModel};
pub use varint::{be_value, ones_first_octet, pow256, vint_decode, vint_length_of, vint_max};
pub use varint::{
    lemma_all_ones_pattern, lemma_be_value_bounds, lemma_length_boundaries, lemma_pow256_mono,
    lemma_pow256_pos, lemma_pow256_values, lemma_shortest_length, lemma_vint_decode_bounds,
};
pub use element::{EbmlElement, ElementModel};
pub use element::{elem_id_decode, get_data, get_data_size, get_element_id, header_decode};
pub use scalars::{EbmlBinary, EbmlString, EbmlUnsignedInteger, StringModel};
pub use scalars::{compact_str_bytes, str_decode, str_end, str_valid, uint_decode};
pub use header::{DocType, DocTypeExtension, DocTypeExtensionName, DocTypeExtensionVersion};
pub use header::{DocTypeReadVersion, DocTypeVersion, Ebml, EbmlMaxIdLength, EbmlMaxSizeLength};
pub use header::{EbmlHeader, EbmlReadVersion, EbmlVersion, ExtensionModel, HeaderModel};
pub use header::{empty_header_model, ext_pair_decode, header_parse, scalar_payload};
pub use header::{scan_children, scan_step, with_extension};
pub use header::{
    group_child, lemma_extension_order_independent, lemma_parse_deterministic,
    lemma_scan_step_progress,
};
pub use parser::{BaseParser, Crc32, ElementParse, ElementReader, ElementValueModel};
pub use parser::{HeaderElement, Void, base_parse};
