//! The RGB pixel grid.

use vstd::prelude::*;

verus! {

/// One pixel.
#[derive(Debug, Clone, Copy, PartialEq, Eq, Structural)]
pub struct RGB {
    pub r: u8,
    pub g: u8,
    pub b: u8,
}

/// A picture: three bytes for each pixel, row after row.
pub struct Image {
    height: u32,
    width: u32,
    data: Vec<u8>,
}

/// Where the pixel in column `x` of row `y` starts in the buffer of a
/// picture that is `width` pixels across.
pub open spec fn pixel_offset(width: int, x: int, y: int) -> int {
    (y * width * 3) + (x * 3)
}

/// What is kept of a colour component: its low eight bits.
pub open spec fn low_byte(component: usize) -> u8 {
    (component % 256) as u8
}

impl Image {
    /// The buffer holds exactly the pixels, and its size fits in 32 bits.
    #[verifier::type_invariant]
    spec fn wf(&self) -> bool {
        &&& self.data@.len() == 3 * self.height * self.width
        &&& 3 * self.height * self.width <= u32::MAX
    }

    /// Number of rows.
    pub closed spec fn spec_height(&self) -> nat {
        self.height as nat
    }

    /// Number of columns.
    pub closed spec fn spec_width(&self) -> nat {
        self.width as nat
    }

    /// The bytes of the picture.
    pub closed spec fn bytes(&self) -> Seq<u8> {
        self.data@
    }

    /// A black picture of the given size.
    pub fn new(height: u32, width: u32) -> (image: Image)
        requires
            3 * height * width <= u32::MAX,
        ensures
            image.spec_height() == height,
            image.spec_width() == width,
            image.bytes().len() == 3 * height * width,
            forall|i: int| 0 <= i < image.bytes().len() ==> image.bytes()[i] == 0,
    {
        assert(3 * height * width >= 0 && 3 * height * width == 3 * (height * width))
            by (nonlinear_arith);
        assert(3 * height <= u32::MAX || width == 0) by (nonlinear_arith)
            requires
                3 * height * width <= u32::MAX,
                width >= 0,
                height >= 0,
        ;
        let size: u32 = if width == 0 {
            0
        } else {
            3 * height * width
        };
        let mut data: Vec<u8> = Vec::new();
        let mut i: u32 = 0;
        while i < size
            invariant
                i <= size,
                data@.len() == i,
                forall|k: int| 0 <= k < i ==> data@[k] == 0,
            decreases size - i,
        {
            data.push(0);
            i = i + 1;
        }
        Image { height, width, data }
    }

    /// The picture that a buffer of pixels holds, if the buffer has three
    /// bytes for each pixel and a size of 32 bits.
    pub fn from_data(height: u32, width: u32, data: Vec<u8>) -> (found: Option<Image>)
        ensures
            match found {
                Some(image) => image.spec_height() == height && image.spec_width() == width
                    && image.bytes() == data@,
                None => data@.len() != 3 * height * width || 3 * height * width > u32::MAX,
            },
    {
        assert(0 <= height * width <= 0xffff_ffff * 0xffff_ffff) by (nonlinear_arith)
            requires
                0 <= height <= 0xffff_ffff,
                0 <= width <= 0xffff_ffff,
        ;
        assert(3 * height * width == 3 * (height * width)) by (nonlinear_arith);
        let size: u128 = 3 * ((height as u128) * (width as u128));
        if size <= 0xffff_ffff && data.len() as u128 == size {
            Some(Image { height, width, data })
        } else {
            None
        }
    }

    /// Number of rows.
    pub fn height(&self) -> (rows: u32)
        ensures
            rows == self.spec_height(),
    {
        self.height
    }

    /// Number of columns.
    pub fn width(&self) -> (columns: u32)
        ensures
            columns == self.spec_width(),
    {
        self.width
    }

    /// The bytes of the picture.
    pub fn data(&self) -> (bytes: &Vec<u8>)
        ensures
            bytes@ == self.bytes(),
    {
        &self.data
    }

    /// Size of the buffer in bytes.
    pub fn buffer_size(&self) -> (size: u32)
        ensures
            size == 3 * self.spec_height() * self.spec_width(),
            size == self.bytes().len(),
    {
        proof {
            use_type_invariant(self);
        }
        self.data.len() as u32
    }

    /// Start of a pixel in the buffer, where that lies inside the buffer.
    pub fn get_offset(&self, x: u32, y: u32) -> (found: Option<usize>)
        ensures
            match found {
                Some(offset) => offset == pixel_offset(self.spec_width() as int, x as int, y as int)
                    && offset + 2 < self.bytes().len(),
                None => pixel_offset(self.spec_width() as int, x as int, y as int)
                    >= self.bytes().len(),
            },
    {
        proof {
            use_type_invariant(self);
        }
        assert(0 <= y * self.width <= 0xffff_ffff * 0xffff_ffff) by (nonlinear_arith)
            requires
                0 <= y <= 0xffff_ffff,
                0 <= self.width <= 0xffff_ffff,
        ;
        let row: u128 = (y as u128) * (self.width as u128);
        let offset: u128 = row * 3 + (x as u128) * 3;
        assert(3 * self.height * self.width == 3 * (self.height * self.width))
            by (nonlinear_arith);
        if offset < self.data.len() as u128 {
            Some(offset as usize)
        } else {
            None
        }
    }

    /// The pixel in column `x` of row `y`.
    pub fn get_pixel(&self, x: u32, y: u32) -> (found: Option<RGB>)
        ensures
            match found {
                Some(pixel) => {
                    let offset = pixel_offset(self.spec_width() as int, x as int, y as int);
                    &&& offset + 2 < self.bytes().len()
                    &&& pixel.r == self.bytes()[offset]
                    &&& pixel.g == self.bytes()[offset + 1]
                    &&& pixel.b == self.bytes()[offset + 2]
                },
                None => pixel_offset(self.spec_width() as int, x as int, y as int)
                    >= self.bytes().len(),
            },
    {
        proof {
            use_type_invariant(self);
        }
        match self.get_offset(x, y) {
            Some(offset) => {
                let r: u8 = self.data[offset];
                let g: u8 = self.data[offset + 1];
                let b: u8 = self.data[offset + 2];
                Some(RGB { r, g, b })
            },
            None => None,
        }
    }

    /// Sets the pixel in column `x` of row `y` to the low bytes of the three
    /// components, and says whether there is such a pixel.
    pub fn set_pixel_usize(&mut self, x: u32, y: u32, color: (usize, usize, usize)) -> (done: bool)
        ensures
            final(self).spec_height() == old(self).spec_height(),
            final(self).spec_width() == old(self).spec_width(),
            done == (pixel_offset(old(self).spec_width() as int, x as int, y as int) < old(
                self,
            ).bytes().len()),
            done ==> {
                let offset = pixel_offset(old(self).spec_width() as int, x as int, y as int);
                final(self).bytes() == old(self).bytes().update(offset, low_byte(color.0)).update(
                    offset + 1,
                    low_byte(color.1),
                ).update(offset + 2, low_byte(color.2))
            },
            !done ==> final(self).bytes() == old(self).bytes(),
    {
        proof {
            use_type_invariant(&*self);
        }
        match self.get_offset(x, y) {
            Some(offset) => {
                self.data[offset] = (color.0 % 256) as u8;
                self.data[offset + 1] = (color.1 % 256) as u8;
                self.data[offset + 2] = (color.2 % 256) as u8;
                true
            },
            None => false,
        }
    }
}

} // verus!
