//! The binary portable-pixmap container for a raster.
use vstd::prelude::*;
use crate::raster::grid::{raster_len, raster_size};
use crate::raster::RasterGenerator;

verus! {

/// Why a raster cannot be framed as a pixmap.
#[derive(Debug, Clone, Copy, PartialEq, Eq)]
pub enum PpmError {
    /// The width or the height is zero.
    ZeroDimension,
    /// `width * height * 3` does not fit in a `usize`.
    TooLarge,
    /// The raster does not hold exactly `width * height * 3` bytes.
    LengthMismatch,
}

impl PpmError {
    /// The reason in words.
    pub open spec fn text(self) -> Seq<char> {
        match self {
            PpmError::ZeroDimension => "width and height must be > 0"@,
            PpmError::TooLarge => "image dimensions too large"@,
            PpmError::LengthMismatch => "raster length must be width * height * 3"@,
        }
    }

    /// The reason in words.
    pub fn message(&self) -> (text: &'static str)
        ensures
            text@ == self.text(),
    {
        match self {
            PpmError::ZeroDimension => "width and height must be > 0",
            PpmError::TooLarge => "image dimensions too large",
            PpmError::LengthMismatch => "raster length must be width * height * 3",
        }
    }
}

/// What a pixmap is: its dimensions and its bytes.
pub struct Pixmap {
    pub width: u16,
    pub height: u16,
    pub raster: Seq<u8>,
}

/// A pixmap is framed when neither dimension is zero and the raster holds
/// three bytes for each pixel.
pub open spec fn framed(pixmap: Pixmap) -> bool {
    &&& pixmap.width > 0
    &&& pixmap.height > 0
    &&& pixmap.raster.len() == raster_size(pixmap.width as int, pixmap.height as int)
}

/// The first reason, if any, for which `len` bytes are no `width` by
/// `height` pixmap: the dimensions are judged before the size, and the size
/// before the length.
pub open spec fn frame_error(width: u16, height: u16, len: nat) -> Option<PpmError> {
    if width == 0 || height == 0 {
        Some(PpmError::ZeroDimension)
    } else if raster_size(width as int, height as int) > usize::MAX {
        Some(PpmError::TooLarge)
    } else if len != raster_size(width as int, height as int) {
        Some(PpmError::LengthMismatch)
    } else {
        None
    }
}

/// The decimal digits of `n` in ASCII, most significant first, without
/// leading zeros.
pub open spec fn decimal(n: nat) -> Seq<u8>
    decreases n,
{
    if n < 10 {
        seq![(0x30 + n) as u8]
    } else {
        decimal(n / 10).push((0x30 + n % 10) as u8)
    }
}

/// The number that a run of ASCII digits denotes.
pub open spec fn denoted(digits: Seq<u8>) -> nat
    decreases digits.len(),
{
    if digits.len() == 0 {
        0
    } else {
        (10 * denoted(digits.drop_last()) + (digits.last() - 0x30)) as nat
    }
}

/// The pixmap header: the magic number `P6`, the width and the height in
/// decimal, and the maximum channel value 255, each followed by one byte of
/// white space.
pub open spec fn header(width: u16, height: u16) -> Seq<u8> {
    seq![0x50u8, 0x36u8, 0x0au8] + decimal(width as nat) + seq![0x20u8] + decimal(height as nat)
        + seq![0x0au8, 0x32u8, 0x35u8, 0x35u8, 0x0au8]
}

/// The encoded pixmap: the header, then the raster bytes as they are.
pub open spec fn encoding(pixmap: Pixmap) -> Seq<u8> {
    header(pixmap.width, pixmap.height) + pixmap.raster
}

/// The digits of `decimal` are ASCII digits, at least one of them, with no
/// leading zero but for zero itself, and they denote the number.
pub proof fn lemma_decimal_denotes(n: nat)
    ensures
        decimal(n).len() >= 1,
        forall|i: int| 0 <= i < decimal(n).len() ==> 0x30 <= #[trigger] decimal(n)[i] <= 0x39,
        decimal(n)[0] == 0x30 <==> n == 0,
        denoted(decimal(n)) == n,
    decreases n,
{
    if n < 10 {
        assert(decimal(n).drop_last() =~= Seq::<u8>::empty());
        assert(denoted(decimal(n).drop_last()) == 0);
    } else {
        lemma_decimal_denotes(n / 10);
        assert(decimal(n).drop_last() =~= decimal(n / 10));
    }
}

/// Appends the decimal digits of `n` to `out`.
fn push_decimal(out: &mut Vec<u8>, n: u16)
    ensures
        final(out)@ == old(out)@ + decimal(n as nat),
    decreases n,
{
    if n >= 10 {
        push_decimal(out, n / 10);
    }
    let digit: u8 = 0x30 + (n % 10) as u8;
    out.push(digit);
    assert(out@ =~= old(out)@ + decimal(n as nat));
}

/// A raster together with the dimensions that it was checked against.
pub struct PPMImageBuffer {
    width: u16,
    height: u16,
    raster: Vec<u8>,
}

impl View for PPMImageBuffer {
    type V = Pixmap;

    closed spec fn view(&self) -> Pixmap {
        Pixmap { width: self.width, height: self.height, raster: self.raster@ }
    }
}

impl PPMImageBuffer {
    #[verifier::type_invariant]
    spec fn well_framed(&self) -> bool {
        framed(self@)
    }

    /// Frames `raster` as a `width` by `height` pixmap, or says why it is
    /// none.
    pub fn new(width: u16, height: u16, raster: Vec<u8>) -> (built: Result<Self, PpmError>)
        ensures
            match frame_error(width, height, raster@.len()) {
                Some(e) => built == Err::<Self, PpmError>(e),
                None => (built matches Ok(buffer) && buffer@ == (Pixmap {
                    width,
                    height,
                    raster: raster@,
                }) && framed(buffer@)),
            },
    {
        if width == 0 || height == 0 {
            return Err(PpmError::ZeroDimension);
        }
        let expected: usize = match raster_len(width, height) {
            Some(expected) => expected,
            None => {
                return Err(PpmError::TooLarge);
            },
        };
        if raster.len() != expected {
            return Err(PpmError::LengthMismatch);
        }
        Ok(PPMImageBuffer { width, height, raster })
    }

    /// Runs `generator` for a `width` by `height` raster and frames what it
    /// returns. A generator never disagrees with the frame on the length, so
    /// the only failures are those of the dimensions themselves.
    pub fn render<G: RasterGenerator>(generator: &G, width: u16, height: u16) -> (built: Result<
        Self,
        PpmError,
    >)
        ensures
            width == 0 || height == 0 ==> built == Err::<Self, PpmError>(PpmError::ZeroDimension),
            width > 0 && height > 0 && raster_size(width as int, height as int) > usize::MAX
                ==> built == Err::<Self, PpmError>(PpmError::TooLarge),
            width > 0 && height > 0 && raster_size(width as int, height as int) <= usize::MAX
                ==> (built matches Ok(buffer) && buffer@.width == width && buffer@.height == height
                && framed(buffer@) && generator.rendering(width, height, buffer@.raster)),
    {
        match raster_len(width, height) {
            Some(_) => {
                let raster: Vec<u8> = generator.generate(width, height);
                PPMImageBuffer::new(width, height, raster)
            },
            None => {
                assert(width > 0 && height > 0) by (nonlinear_arith)
                    requires
                        raster_size(width as int, height as int) > usize::MAX,
                ;
                Err(PpmError::TooLarge)
            },
        }
    }

    /// The width in pixels, never zero.
    pub fn width(&self) -> (width: u16)
        ensures
            width == self@.width,
            width > 0,
    {
        proof {
            use_type_invariant(self);
        }
        self.width
    }

    /// The height in pixels, never zero.
    pub fn height(&self) -> (height: u16)
        ensures
            height == self@.height,
            height > 0,
    {
        proof {
            use_type_invariant(self);
        }
        self.height
    }

    /// The raster bytes, three for each pixel.
    pub fn raster(&self) -> (raster: &Vec<u8>)
        ensures
            raster@ == self@.raster,
            framed(self@),
    {
        proof {
            use_type_invariant(self);
        }
        &self.raster
    }

    /// The bytes of the pixmap file: the header, then the raster.
    pub fn encode(&self) -> (bytes: Vec<u8>)
        ensures
            bytes@ == encoding(self@),
    {
        let mut bytes: Vec<u8> = Vec::new();
        bytes.push(0x50u8);
        bytes.push(0x36u8);
        bytes.push(0x0au8);
        push_decimal(&mut bytes, self.width);
        bytes.push(0x20u8);
        push_decimal(&mut bytes, self.height);
        bytes.push(0x0au8);
        bytes.push(0x32u8);
        bytes.push(0x35u8);
        bytes.push(0x35u8);
        bytes.push(0x0au8);
        assert(bytes@ =~= header(self.width, self.height));
        let mut i: usize = 0;
        while i < self.raster.len()
            invariant
                i <= self.raster@.len(),
                bytes@ == header(self.width, self.height) + self.raster@.subrange(0, i as int),
            decreases self.raster@.len() - i,
        {
            bytes.push(self.raster[i]);
            i = i + 1;
            assert(bytes@ =~= header(self.width, self.height) + self.raster@.subrange(0, i as int));
        }
        assert(self.raster@.subrange(0, i as int) =~= self.raster@);
        bytes
    }
}

} // verus!
