//! The cartridge image and its fixed logo window.
//!
//! A cartridge image of at least 0x014F bytes carries the packed boot logo
//! at byte offsets [0x0104, 0x0134). The container validates the length
//! once, hands the window out, and splices replacements back in without
//! touching any byte outside the window.

use crate::codec::decode_logo;
use crate::codec::decoded;
use crate::codec::encode_gray;
use crate::codec::encoded;
use crate::raster::png_gray_of;
use crate::raster::png_luma_48x8;
use crate::raster::png_readable;
use crate::raster::read_png_gray;
use crate::raster::write_png_gray;
use vstd::prelude::*;
use vstd::slice::slice_subrange;
use vstd::slice::slice_to_vec;

verus! {

/// The cartridge image with its logo window replaced by the first 48 bytes
/// of `logo`: everything before and after the window is carried over.
pub open spec fn spliced(rom: Seq<u8>, logo: Seq<u8>) -> Seq<u8>
    recommends
        rom.len() >= 0x014f,
        logo.len() >= 48,
{
    rom.subrange(0, 0x0104) + logo.subrange(0, 48) + rom.subrange(0x0134, rom.len() as int)
}

/// Replacing the logo window touches nothing else: the spliced image keeps
/// its length, every byte outside [0x0104, 0x0134) keeps its value, and the
/// window itself holds exactly the first 48 replacement bytes.
pub proof fn lemma_window_isolation(rom: Seq<u8>, logo: Seq<u8>)
    requires
        rom.len() >= 0x014f,
        logo.len() >= 48,
    ensures
        spliced(rom, logo).len() == rom.len(),
        forall|i: int|
            0 <= i < rom.len() && !(0x0104 <= i < 0x0134) ==> spliced(rom, logo)[i] == rom[i],
        forall|i: int| 0x0104 <= i < 0x0134 ==> spliced(rom, logo)[i] == logo[i - 0x0104],
{
}

/// A cartridge image holding the embedded boot logo window.
#[derive(Debug, PartialEq)]
pub struct Logoboy {
    rom: Vec<u8>,
}

impl View for Logoboy {
    type V = Seq<u8>;

    closed spec fn view(&self) -> Seq<u8> {
        self.rom@
    }
}

impl Logoboy {
    /// The cartridge image is always long enough to hold the header and the
    /// logo window.
    #[verifier::type_invariant]
    spec fn rom_covers_header(self) -> bool {
        self.rom@.len() >= 0x014f
    }

    /// Wrap a cartridge image, rejecting one too short to hold the header.
    pub fn new(rom: Vec<u8>) -> (r: Result<Logoboy, &'static str>)
        ensures
            rom@.len() >= 0x014f ==> (r matches Ok(lb) && lb@ == rom@),
            rom@.len() < 0x014f ==> (r matches Err(e) && e@ == "ROM too small"@),
    {
        if rom.len() < 0x014f {
            return Err("ROM too small");
        }
        Ok(Logoboy { rom })
    }

    /// Hand back a copy of the whole cartridge image.
    pub fn get_rom(&mut self) -> (r: Result<Vec<u8>, &'static str>)
        ensures
            final(self)@ == old(self)@,
            r matches Ok(v) && v@ == old(self)@,
    {
        Ok(slice_to_vec(self.rom.as_slice()))
    }

    /// Copy the 48 packed logo bytes out of their fixed window.
    pub fn get_logo_raw(&mut self) -> (r: Result<Vec<u8>, &'static str>)
        ensures
            final(self)@ == old(self)@,
            r matches Ok(v) && v@ == old(self)@.subrange(0x0104, 0x0134),
    {
        proof {
            use_type_invariant(&*self);
        }
        Ok(slice_to_vec(slice_subrange(self.rom.as_slice(), 0x0104, 0x0134)))
    }

    /// Replace the logo window with the first 48 bytes of `logo`, leaving
    /// every byte outside the window and the overall length unchanged, and
    /// hand the written window back; a replacement shorter than 48 bytes is
    /// rejected.
    pub fn set_logo_raw(&mut self, logo: Vec<u8>) -> (r: Result<Vec<u8>, &'static str>)
        ensures
            logo@.len() < 48 ==> (r matches Err(e) && e@ == "Logo too small"@ && final(self)@
                == old(self)@),
            logo@.len() >= 48 ==> (r matches Ok(v) && v@ == logo@.subrange(0, 48) && final(self)@
                == spliced(old(self)@, logo@)),
    {
        if logo.len() < 48 {
            return Err("Logo too small");
        }
        proof {
            use_type_invariant(&*self);
        }
        let mut rom: Vec<u8> = slice_to_vec(slice_subrange(self.rom.as_slice(), 0, 0x0104));
        let mut window: Vec<u8> = slice_to_vec(slice_subrange(logo.as_slice(), 0, 48));
        let mut back: Vec<u8> = slice_to_vec(
            slice_subrange(self.rom.as_slice(), 0x0134, self.rom.len()),
        );
        rom.append(&mut window);
        rom.append(&mut back);
        *self = Logoboy { rom };
        Ok(slice_to_vec(slice_subrange(logo.as_slice(), 0, 48)))
    }

    /// Render the embedded logo as a PNG: unpack the window into the 48x8
    /// grid and serialize it through the raster collaborator. This always
    /// succeeds, and equal cartridge images render to identical bytes.
    pub fn get_logo(&mut self) -> (r: Result<Vec<u8>, &'static str>)
        ensures
            final(self)@ == old(self)@,
            r matches Ok(v) && v@ == png_luma_48x8(decoded(old(self)@.subrange(0x0104, 0x0134))),
    {
        proof {
            use_type_invariant(&*self);
        }
        let raw = slice_to_vec(slice_subrange(self.rom.as_slice(), 0x0104, 0x0134));
        let pixels = decode_logo(&raw);
        Ok(write_png_gray(&pixels))
    }

    /// Replace the embedded logo from a PNG: parse it through the raster
    /// collaborator, demand an exactly 48x8 single-channel image, pack the
    /// grid, and write it into the window.
    pub fn set_logo(&mut self, bytes: Vec<u8>) -> (r: Result<Vec<u8>, &'static str>)
        ensures
            (logo_grid_of_png(bytes@) matches Some(g) ==> r matches Ok(v) && v@ == encoded(g)
                && final(self)@ == spliced(old(self)@, encoded(g))),
            (logo_grid_of_png(bytes@) is None ==> final(self)@ == old(self)@ && (r matches Err(e)
                && e@ == (if png_readable(bytes@) {
                "Image must be 48x8, 1-bit grayscale"@
            } else {
                "Could not read image"@
            }))),
    {
        let parsed = match read_png_gray(&bytes) {
            Some(p) => p,
            None => {
                return Err("Could not read image");
            },
        };
        let (width, height, pixels) = match parsed {
            Some(t) => t,
            None => {
                return Err("Image must be 48x8, 1-bit grayscale");
            },
        };
        let logo = match encode_gray(width, height, &pixels) {
            Ok(l) => l,
            Err(e) => {
                return Err(e);
            },
        };
        self.set_logo_raw(logo)
    }
}

/// The 48x8 grid carried by a PNG that the raster collaborator decodes to
/// an 8-bit single-channel image of exactly that shape; `None` for every
/// other input.
pub open spec fn logo_grid_of_png(bytes: Seq<u8>) -> Option<Seq<u8>> {
    if png_readable(bytes) {
        match png_gray_of(bytes) {
            Some(t) => if t.0 == 48 && t.1 == 8 {
                Some(t.2)
            } else {
                None
            },
            None => None,
        }
    } else {
        None
    }
}

} // verus!
