use vstd::prelude::*;

verus! {

/// Color channels stored per pixel (red, green, blue).
pub const CHANNELS: usize = 3;

/// Why a frame size is rejected.
#[derive(PartialEq, Eq, Structural, Clone, Copy, Debug)]
pub enum FrameError {
    /// The width is zero.
    ZeroWidth,
    /// The height is zero.
    ZeroHeight,
    /// A buffer of `width * height * CHANNELS` values cannot be addressed.
    TooLarge,
}

/// Dimensions of a frame that has at least one pixel and whose RGB buffer
/// length fits in `usize`.
#[derive(PartialEq, Eq, Structural, Clone, Copy, Debug)]
pub struct FrameSize {
    pub width: u32,
    pub height: u32,
}

/// Number of values in a row-major RGB buffer of the given dimensions.
pub open spec fn buffer_len_of(width: nat, height: nat) -> nat {
    (width * height * CHANNELS) as nat
}

/// Position of channel `c` of pixel `(x, y)` in a row-major RGB buffer whose
/// rows hold `width` pixels; the origin is the top-left pixel.
pub open spec fn channel_index(width: nat, x: nat, y: nat, c: nat) -> nat {
    ((y * width + x) * CHANNELS + c) as nat
}

impl FrameSize {
    pub open spec fn wf(self) -> bool {
        &&& self.width > 0
        &&& self.height > 0
        &&& buffer_len_of(self.width as nat, self.height as nat) <= usize::MAX
    }

    /// Values in one row of the RGB buffer.
    pub open spec fn row_len_spec(self) -> nat {
        (self.width as nat * CHANNELS) as nat
    }

    /// Values in the whole RGB buffer.
    pub open spec fn buffer_len_spec(self) -> nat {
        buffer_len_of(self.width as nat, self.height as nat)
    }

    /// Checks the dimensions of a frame: both must be positive and the whole
    /// RGB buffer must be addressable.
    pub fn new(width: u32, height: u32) -> (r: Result<FrameSize, FrameError>)
        ensures
            width == 0 ==> r == Err::<FrameSize, FrameError>(FrameError::ZeroWidth),
            width > 0 && height == 0 ==> r == Err::<FrameSize, FrameError>(FrameError::ZeroHeight),
            width > 0 && height > 0 && buffer_len_of(width as nat, height as nat) > usize::MAX
                ==> r == Err::<FrameSize, FrameError>(FrameError::TooLarge),
            width > 0 && height > 0 && buffer_len_of(width as nat, height as nat) <= usize::MAX
                ==> r == Ok::<FrameSize, FrameError>(FrameSize { width, height }),
            r matches Ok(f) ==> f.wf(),
    {
        if width == 0 {
            return Err(FrameError::ZeroWidth);
        }
        if height == 0 {
            return Err(FrameError::ZeroHeight);
        }
        let w = width as usize;
        let h = height as usize;
        proof {
            assert(buffer_len_of(width as nat, height as nat) == (width as nat * CHANNELS) * height) by (nonlinear_arith);
            assert((width as nat * CHANNELS) * height >= width as nat * CHANNELS) by (nonlinear_arith)
                requires height > 0;
        }
        match w.checked_mul(CHANNELS) {
            None => Err(FrameError::TooLarge),
            Some(row) => match row.checked_mul(h) {
                None => Err(FrameError::TooLarge),
                Some(_) => Ok(FrameSize { width, height }),
            },
        }
    }

    /// Values in one row of the RGB buffer.
    pub fn row_len(&self) -> (r: usize)
        requires
            self.wf(),
        ensures
            r == self.row_len_spec(),
    {
        proof {
            assert(self.row_len_spec() <= self.buffer_len_spec()) by (nonlinear_arith)
                requires self.height > 0, self.row_len_spec() == self.width as nat * CHANNELS,
                    self.buffer_len_spec() == self.width as nat * self.height as nat * CHANNELS;
        }
        self.width as usize * CHANNELS
    }

    /// Values in the whole RGB buffer.
    pub fn buffer_len(&self) -> (r: usize)
        requires
            self.wf(),
        ensures
            r == self.buffer_len_spec(),
    {
        proof {
            assert(self.width as nat * self.height as nat <= self.buffer_len_spec()) by (nonlinear_arith)
                requires self.buffer_len_spec() == self.width as nat * self.height as nat * CHANNELS;
        }
        self.width as usize * self.height as usize * CHANNELS
    }
}

/// Joins the rows of a frame, top row first, into one row-major buffer.
/// Each row belongs to exactly one slot of `rows`, so the rows can be
/// computed independently (in parallel) and placed here in order: channel
/// `c` of pixel `(x, y)` ends up at `channel_index(width, x, y, c)`.
pub fn assemble_rows<T: Copy>(size: FrameSize, rows: &Vec<Vec<T>>) -> (r: Vec<T>)
    requires
        size.wf(),
        rows@.len() == size.height,
        forall|y: int| 0 <= y < rows@.len() ==> (#[trigger] rows@[y])@.len() == size.row_len_spec(),
    ensures
        r@.len() == size.buffer_len_spec(),
        forall|y: int, i: int|
            0 <= y < size.height && 0 <= i < size.row_len_spec() ==> r@[y * size.row_len_spec() + i]
                == #[trigger] rows@[y]@[i],
        forall|x: nat, y: nat, c: nat|
            x < size.width && y < size.height && c < CHANNELS ==> r@[channel_index(size.width as nat, x, y, c) as int]
                == #[trigger] rows@[y as int]@[(x * CHANNELS + c) as int],
{
    let row_len = size.row_len();
    let total = size.buffer_len();
    let height = size.height as usize;
    let mut out: Vec<T> = Vec::with_capacity(total);
    let mut y: usize = 0;
    proof {
        assert(size.buffer_len_spec() == height * row_len) by (nonlinear_arith)
            requires size.buffer_len_spec() == size.width as nat * size.height as nat * CHANNELS,
                row_len == size.width as nat * CHANNELS, height == size.height;
    }
    while y < height
        invariant
            size.wf(),
            height == size.height,
            row_len == size.row_len_spec(),
            size.buffer_len_spec() == height * row_len,
            rows@.len() == height,
            forall|k: int| 0 <= k < rows@.len() ==> (#[trigger] rows@[k])@.len() == row_len,
            y <= height,
            out@.len() == y * row_len,
            forall|k: int, i: int|
                0 <= k < y && 0 <= i < row_len ==> out@[k * row_len + i] == #[trigger] rows@[k]@[i],
        decreases height - y,
    {
        let row = &rows[y];
        let mut i: usize = 0;
        proof {
            assert((y + 1) * row_len <= height * row_len) by (nonlinear_arith)
                requires y < height;
        }
        while i < row_len
            invariant
                y < height,
                row_len == size.row_len_spec(),
                size.buffer_len_spec() == height * row_len,
                (y + 1) * row_len <= height * row_len,
                row@ == rows@[y as int]@,
                row@.len() == row_len,
                i <= row_len,
                out@.len() == y * row_len + i,
                forall|k: int, j: int|
                    0 <= k < y && 0 <= j < row_len ==> out@[k * row_len + j] == #[trigger] rows@[k]@[j],
                forall|j: int| 0 <= j < i ==> out@[y * row_len + j] == #[trigger] rows@[y as int]@[j],
            decreases row_len - i,
        {
            proof {
                assert(y * row_len + i < (y + 1) * row_len) by (nonlinear_arith)
                    requires i < row_len;
            }
            let ghost prev = out@;
            out.push(row[i]);
            proof {
                assert forall|k: int, j: int|
                    0 <= k < y && 0 <= j < row_len implies out@[k * row_len + j] == #[trigger] rows@[k]@[j] by {
                    assert(k * row_len + j < y * row_len) by (nonlinear_arith)
                        requires 0 <= k < y, 0 <= j < row_len;
                    assert(out@[k * row_len + j] == prev[k * row_len + j]);
                }
            }
            i = i + 1;
        }
        proof {
            assert(out@.len() == (y + 1) * row_len) by (nonlinear_arith)
                requires out@.len() == y * row_len + row_len;
        }
        y = y + 1;
    }
    proof {
        assert forall|x: nat, y: nat, c: nat|
            x < size.width && y < size.height && c < CHANNELS implies out@[channel_index(size.width as nat, x, y, c) as int]
                == #[trigger] rows@[y as int]@[(x * CHANNELS + c) as int] by {
            let i = (x * CHANNELS + c) as int;
            assert(channel_index(size.width as nat, x, y, c) == y * row_len + i && i < row_len) by (nonlinear_arith)
                requires row_len == size.width * CHANNELS, x < size.width, c < CHANNELS, i == x * CHANNELS + c,
                    channel_index(size.width as nat, x, y, c) == (y * size.width + x) * CHANNELS + c;
        }
    }
    out
}

/// The color buffer that goes on to 8-bit conversion after the denoise
/// step: the denoiser's output when it produced one of the frame's length,
/// and otherwise (the denoiser failed or returned a buffer of the wrong
/// size) the color buffer as rendered.
pub fn denoised_or_rendered<T>(size: FrameSize, color: Vec<T>, denoised: Option<Vec<T>>) -> (r: Vec<T>)
    requires
        size.wf(),
        color@.len() == size.buffer_len_spec(),
    ensures
        r@.len() == size.buffer_len_spec(),
        (denoised matches Some(d) && d@.len() == size.buffer_len_spec()) ==> r == denoised.unwrap(),
        !(denoised matches Some(d) && d@.len() == size.buffer_len_spec()) ==> r == color,
{
    match denoised {
        Some(d) => {
            if d.len() == size.buffer_len() {
                d
            } else {
                color
            }
        },
        None => color,
    }
}

} // verus!
