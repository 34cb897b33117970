pub mod bits;
pub mod buffer;
pub mod codec;
pub mod gray_alpha;
pub mod laws;
pub mod layout;
pub mod parity;
pub mod rgb;
pub mod rgba;
pub mod token;

pub use bits::{get_bit, set_bit};
pub use buffer::PixelBuffer;
pub use codec::Codec;
pub use gray_alpha::{GrayAlphaCodec, GrayAlphaMode};
pub use parity::{adjust, fix_u8, RandomBit};
pub use rgb::{RgbCodec, RgbMode};
pub use rgba::{RgbaCodec, RgbaMode};
