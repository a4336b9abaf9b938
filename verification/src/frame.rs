use vstd::prelude::*;

verus! {

/// One raw image frame: a row-major, interleaved pixel buffer together with
/// its declared width, height and channel count.
///
/// A frame is well formed when the buffer holds exactly
/// `width * height * channels` bytes; the preprocessor checks this at run
/// time, so a frame value itself may be malformed.
#[derive(Debug)]
pub struct Frame {
    pub buffer: Vec<u8>,
    pub width: usize,
    pub height: usize,
    pub channels: usize,
}

impl Frame {
    /// The declared byte count of this frame's buffer.
    pub open spec fn declared_len(&self) -> int {
        self.width * self.height * self.channels
    }

    /// The frame's invariant: the buffer length matches its declared
    /// dimensions.
    pub open spec fn wf(&self) -> bool {
        self.buffer@.len() == self.declared_len()
    }

    pub fn new(buffer: Vec<u8>, width: usize, height: usize, channels: usize) -> (r: Frame)
        ensures
            r == (Frame { buffer, width, height, channels }),
    {
        Frame { buffer, width, height, channels }
    }

    /// Whether the buffer length matches the declared dimensions, decided at
    /// run time for any frame value.
    pub fn check_shape(&self) -> (r: bool)
        ensures
            r == self.wf(),
    {
        let blen = self.buffer.len();
        if self.width == 0 || self.height == 0 || self.channels == 0 {
            proof {
                assert(self.declared_len() == 0) by (nonlinear_arith)
                    requires
                        self.width == 0 || self.height == 0 || self.channels == 0,
                ;
            }
            return blen == 0;
        }
        let w = self.width as u128;
        let h = self.height as u128;
        let c = self.channels as u128;
        proof {
            assert(w * h <= 0xffff_ffff_ffff_ffffu128 * 0xffff_ffff_ffff_ffffu128)
                by (nonlinear_arith)
                requires
                    w <= 0xffff_ffff_ffff_ffffu128,
                    h <= 0xffff_ffff_ffff_ffffu128,
            ;
        }
        let wh = w * h;
        if wh > usize::MAX as u128 {
            proof {
                assert(w * h * c >= w * h) by (nonlinear_arith)
                    requires
                        c >= 1,
                        w * h >= 0,
                ;
            }
            return false;
        }
        proof {
            assert(wh * c <= 0xffff_ffff_ffff_ffffu128 * 0xffff_ffff_ffff_ffffu128)
                by (nonlinear_arith)
                requires
                    wh <= 0xffff_ffff_ffff_ffffu128,
                    c <= 0xffff_ffff_ffff_ffffu128,
            ;
        }
        let whc = wh * c;
        if whc > usize::MAX as u128 {
            return false;
        }
        blen as u128 == whc
    }

    /// A field-by-field copy of this frame.
    pub fn duplicate(&self) -> (r: Frame)
        ensures
            r.buffer@ == self.buffer@,
            r.width == self.width,
            r.height == self.height,
            r.channels == self.channels,
    {
        Frame {
            buffer: copy_bytes(&self.buffer),
            width: self.width,
            height: self.height,
            channels: self.channels,
        }
    }
}

/// A fresh vector holding the same bytes as `src`.
pub fn copy_bytes(src: &Vec<u8>) -> (r: Vec<u8>)
    ensures
        r@ == src@,
{
    let mut out: Vec<u8> = Vec::new();
    let mut i: usize = 0;
    while i < src.len()
        invariant
            i <= src@.len(),
            out@ == src@.subrange(0, i as int),
        decreases src@.len() - i,
    {
        out.push(src[i]);
        i = i + 1;
        proof {
            assert(out@ =~= src@.subrange(0, i as int));
        }
    }
    proof {
        assert(out@ =~= src@);
    }
    out
}

/// A vector of `n` zero bytes.
pub fn zero_bytes(n: usize) -> (r: Vec<u8>)
    ensures
        r@ == Seq::new(n as nat, |i: int| 0u8),
{
    let mut out: Vec<u8> = Vec::new();
    let mut i: usize = 0;
    while i < n
        invariant
            i <= n,
            out@ == Seq::new(i as nat, |j: int| 0u8),
        decreases n - i,
    {
        out.push(0u8);
        i = i + 1;
        proof {
            assert(out@ =~= Seq::new(i as nat, |j: int| 0u8));
        }
    }
    out
}

} // verus!
