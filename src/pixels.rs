//! The pixel buffer of a PixelPusher: one RGB triple per pixel, strips laid
//! out one after another at a fixed stride.
use crate::device::PixelPusherHeader;
use vstd::prelude::*;

verus! {

/// Strips the buffer has room for.
pub const MAX_STRIPS: usize = 8;

/// Pixels per strip the buffer has room for.
pub const MAX_PIXELS_PER_STRIP: usize = 480;

/// Bytes per pixel: red, green, blue.
pub const CHANNELS: usize = 3;

/// Bytes from the start of one strip to the start of the next.
pub const STRIP_STRIDE: usize = 1440;

/// Bytes in the whole buffer.
pub const BUFFER_LEN: usize = 11520;

#[derive(Debug, Clone, Copy, PartialEq, Eq, Structural)]
pub struct Color {
    pub red: u8,
    pub green: u8,
    pub blue: u8,
}

#[derive(Debug, Clone, Copy, PartialEq, Eq, Structural)]
pub enum PixelError {
    /// The strip or pixel lies outside what the device declared or the buffer holds.
    OutOfRange,
}

/// Whether a pixel exists on the device and in the buffer.
pub open spec fn addressable(h: PixelPusherHeader, strip: u8, pixel: u8) -> bool {
    &&& strip < h.strips_attached
    &&& (pixel as int) < (h.pixels_per_strip as int)
    &&& (strip as int) < MAX_STRIPS
    &&& (pixel as int) < MAX_PIXELS_PER_STRIP
}

/// Position in the buffer of a pixel's red byte.
pub open spec fn offset(strip: u8, pixel: u8) -> int {
    strip as int * STRIP_STRIDE as int + pixel as int * CHANNELS as int
}

/// The three bytes of an addressable pixel lie inside its own strip's region
/// of the buffer, never in a neighbouring strip's.
pub proof fn lemma_pixel_within_strip(h: PixelPusherHeader, strip: u8, pixel: u8)
    requires
        addressable(h, strip, pixel),
    ensures
        strip as int * STRIP_STRIDE as int <= offset(strip, pixel),
        offset(strip, pixel) + 2 < (strip as int + 1) * STRIP_STRIDE as int,
        offset(strip, pixel) + 2 < BUFFER_LEN,
{
}

/// A PixelPusher controller and the colours waiting to be sent to it.
pub struct PixelPusher {
    header: PixelPusherHeader,
    buffer: Vec<u8>,
}

impl PixelPusher {
    pub closed spec fn spec_header(&self) -> PixelPusherHeader {
        self.header
    }

    /// The bytes of the buffer.
    pub closed spec fn pixels(&self) -> Seq<u8> {
        self.buffer@
    }

    /// The buffer holds room for every strip the layout allows.
    pub open spec fn wf(&self) -> bool {
        self.pixels().len() == BUFFER_LEN
    }

    /// A controller with every pixel black.
    pub fn new(header: PixelPusherHeader) -> (r: PixelPusher)
        ensures
            r.wf(),
            r.spec_header() == header,
            r.pixels() == Seq::new(BUFFER_LEN as nat, |i: int| 0u8),
    {
        let mut buffer: Vec<u8> = Vec::new();
        let mut i: usize = 0;
        while i < BUFFER_LEN
            invariant
                i <= BUFFER_LEN,
                buffer@ == Seq::new(i as nat, |k: int| 0u8),
            decreases BUFFER_LEN - i,
        {
            buffer.push(0u8);
            i = i + 1;
            assert(buffer@ =~= Seq::new(i as nat, |k: int| 0u8));
        }
        PixelPusher { header, buffer }
    }

    pub fn header(&self) -> (r: PixelPusherHeader)
        ensures
            r == self.spec_header(),
    {
        self.header
    }

    /// Writes one pixel's colour. A pixel outside the declared strips or
    /// pixels per strip is refused, and the buffer is left as it was.
    pub fn set_color(&mut self, strip: u8, pixel: u8, color: Color) -> (r: Result<(), PixelError>)
        requires
            old(self).wf(),
        ensures
            final(self).wf(),
            final(self).spec_header() == old(self).spec_header(),
            r is Ok <==> addressable(old(self).spec_header(), strip, pixel),
            r is Ok ==> final(self).pixels() == old(self).pixels().update(
                offset(strip, pixel),
                color.red,
            ).update(offset(strip, pixel) + 1, color.green).update(
                offset(strip, pixel) + 2,
                color.blue,
            ),
            r is Err ==> r == Err::<(), PixelError>(PixelError::OutOfRange) && final(self).pixels()
                == old(self).pixels(),
            forall|i: int|
                0 <= i < BUFFER_LEN && !(strip as int * STRIP_STRIDE as int <= i < (strip as int + 1)
                    * STRIP_STRIDE as int) ==> #[trigger] final(self).pixels()[i] == old(
                    self,
                ).pixels()[i],
    {
        if strip >= self.header.strips_attached || pixel as u16 >= self.header.pixels_per_strip
            || strip as usize >= MAX_STRIPS || pixel as usize >= MAX_PIXELS_PER_STRIP {
            return Err(PixelError::OutOfRange);
        }
        proof {
            lemma_pixel_within_strip(self.header, strip, pixel);
        }
        let index = STRIP_STRIDE * (strip as usize) + CHANNELS * (pixel as usize);
        self.buffer.set(index, color.red);
        self.buffer.set(index + 1, color.green);
        self.buffer.set(index + 2, color.blue);
        Ok(())
    }

    /// The colour of a pixel, if it is addressable.
    pub fn color_at(&self, strip: u8, pixel: u8) -> (r: Option<Color>)
        requires
            self.wf(),
        ensures
            r is Some <==> addressable(self.spec_header(), strip, pixel),
            r is Some ==> r == Some(
                Color {
                    red: self.pixels()[offset(strip, pixel)],
                    green: self.pixels()[offset(strip, pixel) + 1],
                    blue: self.pixels()[offset(strip, pixel) + 2],
                },
            ),
    {
        if strip >= self.header.strips_attached || pixel as u16 >= self.header.pixels_per_strip
            || strip as usize >= MAX_STRIPS || pixel as usize >= MAX_PIXELS_PER_STRIP {
            return None;
        }
        let index = STRIP_STRIDE * (strip as usize) + CHANNELS * (pixel as usize);
        Some(Color { red: self.buffer[index], green: self.buffer[index + 1], blue: self.buffer[index + 2] })
    }
}

} // verus!
