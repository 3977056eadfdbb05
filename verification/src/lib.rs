//! Codec for the boot logo embedded in classic handheld cartridge images.
//!
//! A cartridge image carries a 48-byte packed bitmap at a fixed offset; the
//! console's boot sequence unpacks it into a 48x8 monochrome picture through
//! a fixed nibble-to-block permutation. This crate models that permutation
//! in both directions, proves the two transforms are mutual inverses, and
//! wraps the cartridge-image window handling around them. The PNG container
//! format at the crate's edge is the image crate's business, reached through
//! a small trusted boundary.

mod codec;
mod container;
mod raster;

pub use codec::bit_val;
pub use codec::decode_logo;
pub use codec::decoded;
pub use codec::decoded_pixel;
pub use codec::encode_gray;
pub use codec::encode_logo;
pub use codec::encoded;
pub use codec::grid_nibble;
pub use codec::lemma_decode_of_encode;
pub use codec::lemma_decode_of_encode_binary;
pub use codec::lemma_encode_of_decode;
pub use codec::logo_nibble;
pub use codec::nibble_bit;
pub use codec::nibble_index;
pub use codec::pixel_on;
pub use codec::run_base;
pub use container::lemma_window_isolation;
pub use container::logo_grid_of_png;
pub use container::spliced;
pub use container::Logoboy;
pub use raster::png_gray_of;
pub use raster::png_luma_48x8;
pub use raster::png_readable;
