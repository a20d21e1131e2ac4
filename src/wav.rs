//! The header of a PCM WAVE file.
use vstd::prelude::*;

verus! {

pub open spec fn le16(x: u16) -> Seq<u8> {
    seq![(x % 256) as u8, (x / 256) as u8]
}

pub open spec fn le32(x: u32) -> Seq<u8> {
    seq![(x % 256) as u8, ((x / 256) % 256) as u8, ((x / 65536) % 256) as u8, (x / 16777216) as u8]
}

pub open spec fn ascii4(a: char, b: char, c: char, d: char) -> Seq<u8> {
    seq![a as u8, b as u8, c as u8, d as u8]
}

/// The format of the samples that follow the header.
#[derive(Clone, Copy, Debug, PartialEq, Eq, Structural)]
pub struct WaveDesc {
    pub channels: u16,
    pub samplerate: u32,
    pub bits_per_sample: u16,
}

impl WaveDesc {
    /// Bytes per second of sound.
    pub open spec fn byte_rate(&self) -> int {
        self.samplerate as int * self.channels as int * self.bits_per_sample as int / 8
    }

    /// Bytes per frame (one sample of every channel).
    pub open spec fn block_align(&self) -> int {
        self.channels as int * self.bits_per_sample as int / 8
    }

    /// Whether every header field fits its width, for `data_len` bytes of samples.
    pub open spec fn fits(&self, data_len: int) -> bool {
        &&& data_len + 36 <= u32::MAX
        &&& self.byte_rate() <= u32::MAX
        &&& self.block_align() <= u16::MAX
    }

    /// The 44-byte header for `data_len` bytes of samples.
    pub open spec fn header(&self, data_len: int) -> Seq<u8> {
        ascii4('R', 'I', 'F', 'F') + le32((data_len + 36) as u32) + ascii4('W', 'A', 'V', 'E')
            + ascii4('f', 'm', 't', ' ') + le32(16) + le16(1) + le16(self.channels) + le32(
            self.samplerate,
        ) + le32(self.byte_rate() as u32) + le16(self.block_align() as u16) + le16(
            self.bits_per_sample,
        ) + ascii4('d', 'a', 't', 'a') + le32(data_len as u32)
    }

    pub fn from_data(channels: u16, samplerate: u32, bits_per_sample: u16) -> (r: Self)
        ensures
            r == (WaveDesc { channels, samplerate, bits_per_sample }),
    {
        WaveDesc { channels, samplerate, bits_per_sample }
    }

    fn byte_rate_exec(&self) -> (r: u32)
        requires
            self.byte_rate() <= u32::MAX,
        ensures
            r == self.byte_rate(),
    {
        let a = self.samplerate as u64;
        let b = self.channels as u64;
        let c = self.bits_per_sample as u64;
        assert(a * b <= 0xffff_ffffu64 * 0xffffu64) by (nonlinear_arith)
            requires
                a <= 0xffff_ffffu64,
                b <= 0xffffu64,
        ;
        assert(a * b * c <= 0xffff_ffffu64 * 0xffffu64 * 0xffffu64) by (nonlinear_arith)
            requires
                a * b <= 0xffff_ffffu64 * 0xffffu64,
                c <= 0xffffu64,
        ;
        (a * b * c / 8) as u32
    }

    fn block_align_exec(&self) -> (r: u16)
        requires
            self.block_align() <= u16::MAX,
        ensures
            r == self.block_align(),
    {
        let b = self.channels as u32;
        let c = self.bits_per_sample as u32;
        assert(b * c <= 0xffffu32 * 0xffffu32) by (nonlinear_arith)
            requires
                b <= 0xffffu32,
                c <= 0xffffu32,
        ;
        (b * c / 8) as u16
    }

    /// The header for `data_len` bytes of samples.
    pub fn header_bytes(&self, data_len: u32) -> (r: Vec<u8>)
        requires
            self.fits(data_len as int),
        ensures
            r@ == self.header(data_len as int),
    {
        let mut h: Vec<u8> = Vec::new();
        push_tag(&mut h, 'R', 'I', 'F', 'F');
        assert(h@ =~= ascii4('R', 'I', 'F', 'F'));
        push_le32(&mut h, data_len + 36);
        push_tag(&mut h, 'W', 'A', 'V', 'E');
        push_tag(&mut h, 'f', 'm', 't', ' ');
        push_le32(&mut h, 16);
        push_le16(&mut h, 1);
        push_le16(&mut h, self.channels);
        push_le32(&mut h, self.samplerate);
        push_le32(&mut h, self.byte_rate_exec());
        push_le16(&mut h, self.block_align_exec());
        push_le16(&mut h, self.bits_per_sample);
        push_tag(&mut h, 'd', 'a', 't', 'a');
        push_le32(&mut h, data_len);
        h
    }

    /// Appends the header and then the sample bytes to `out`.
    pub fn write(&self, data: &[u8], out: &mut Vec<u8>)
        requires
            self.fits(data@.len() as int),
        ensures
            final(out)@ == old(out)@ + self.header(data@.len() as int) + data@,
    {
        let mut h = self.header_bytes(data.len() as u32);
        out.append(&mut h);
        let ghost o = out@;
        let mut i: usize = 0;
        while i < data.len()
            invariant
                i <= data@.len(),
                out@ == o + data@.subrange(0, i as int),
            decreases data@.len() - i,
        {
            out.push(data[i]);
            i = i + 1;
            assert(out@ =~= o + data@.subrange(0, i as int));
        }
        assert(data@.subrange(0, data@.len() as int) =~= data@);
    }
}

fn push_tag(out: &mut Vec<u8>, a: char, b: char, c: char, d: char)
    requires
        a as u32 <= 127 && b as u32 <= 127 && c as u32 <= 127 && d as u32 <= 127,
    ensures
        final(out)@ == old(out)@ + ascii4(a, b, c, d),
{
    let ghost o = out@;
    out.push(a as u8);
    out.push(b as u8);
    out.push(c as u8);
    out.push(d as u8);
    assert(out@ =~= o + ascii4(a, b, c, d));
}

fn push_le16(out: &mut Vec<u8>, x: u16)
    ensures
        final(out)@ == old(out)@ + le16(x),
{
    let ghost o = out@;
    out.push((x % 256) as u8);
    out.push((x / 256) as u8);
    assert(out@ =~= o + le16(x));
}

fn push_le32(out: &mut Vec<u8>, x: u32)
    ensures
        final(out)@ == old(out)@ + le32(x),
{
    let ghost o = out@;
    out.push((x % 256) as u8);
    out.push(((x / 256) % 256) as u8);
    out.push(((x / 65536) % 256) as u8);
    out.push((x / 16777216) as u8);
    assert(out@ =~= o + le32(x));
}

} // verus!
