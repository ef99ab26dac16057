//! Clipboard formats and pictures.
use ironrdp_cliprdr_format::bitmap::BitmapError;
use vstd::prelude::*;

verus! {

/// Plain text in the system's code page.
pub const CF_TEXT: u32 = 1;

/// A device independent bitmap.
pub const CF_DIB: u32 = 8;

/// Text in UTF-16.
pub const CF_UNICODETEXT: u32 = 13;

/// A device independent bitmap with the fifth version of the header.
pub const CF_DIBV5: u32 = 17;

/// The largest clipboard content that is taken over, in bytes.
pub const MAX_CLIPBOARD_SIZE: usize = 0x400_0000;

/// A format that one end offers.
#[derive(Debug, PartialEq, Eq)]
pub struct ClipboardFormat {
    pub id: u32,
    pub name: Option<String>,
}

/// Content that waits to become the desktop's selection.
#[derive(Debug, PartialEq, Eq)]
pub enum PendingWrite {
    /// Text in UTF-8.
    Text(Vec<u8>),
    /// A PNG picture.
    Image(Vec<u8>),
}

/// Content by its bytes.
pub enum Content {
    Text(Seq<u8>),
    Image(Seq<u8>),
}

impl PendingWrite {
    /// The content by its bytes.
    pub open spec fn view(&self) -> Content {
        match self {
            PendingWrite::Text(v) => Content::Text(v@),
            PendingWrite::Image(v) => Content::Image(v@),
        }
    }
}

/// The error of a bitmap conversion.
#[verifier::external_type_specification]
#[verifier::external_body]
pub struct ExBitmapError(BitmapError);

/// The PNG picture of a bitmap, where it can be converted.
pub uninterp spec fn png_of_dib(data: Seq<u8>) -> Option<Seq<u8>>;

/// Conversion of a bitmap by `ironrdp_cliprdr_format::bitmap::dib_to_png`. What
/// the picture is depends on the bitmap's bytes alone.
#[verifier::external_body]
pub(crate) fn dib_to_png(data: &[u8]) -> (r: Result<Vec<u8>, BitmapError>)
    ensures
        match r {
            Ok(png) => png_of_dib(data@) == Some(png@),
            Err(_) => png_of_dib(data@) is None,
        },
{
    ironrdp_cliprdr_format::bitmap::dib_to_png(data)
}

/// The PNG picture of a version 5 bitmap, where it can be converted.
pub uninterp spec fn png_of_dibv5(data: Seq<u8>) -> Option<Seq<u8>>;

/// Conversion of a version 5 bitmap by
/// `ironrdp_cliprdr_format::bitmap::dibv5_to_png`. What the picture is depends on
/// the bitmap's bytes alone.
#[verifier::external_body]
pub(crate) fn dibv5_to_png(data: &[u8]) -> (r: Result<Vec<u8>, BitmapError>)
    ensures
        match r {
            Ok(png) => png_of_dibv5(data@) == Some(png@),
            Err(_) => png_of_dibv5(data@) is None,
        },
{
    ironrdp_cliprdr_format::bitmap::dibv5_to_png(data)
}

/// The little-endian number in the four bytes at `at`.
pub open spec fn dword(data: Seq<u8>, at: int) -> int {
    data[at] + data[at + 1] * 0x100 + data[at + 2] * 0x1_0000 + data[at + 3] * 0x100_0000
}

/// A bitmap whose colours are given by masks behind its header, in the usual
/// order of blue, green and red.
pub open spec fn has_usual_masks(data: Seq<u8>) -> bool {
    &&& data.len() >= 52
    &&& dword(data, 0) == 40
    &&& dword(data, 16) == 3
    &&& dword(data, 40) == 0x00ff_0000
    &&& dword(data, 44) == 0x0000_ff00
    &&& dword(data, 48) == 0x0000_00ff
}

/// A bitmap with masks as the plain bitmap that it amounts to.
pub open spec fn without_masks(data: Seq<u8>) -> Seq<u8> {
    data.subrange(0, 16) + seq![0u8, 0u8, 0u8, 0u8] + data.subrange(20, 40) + data.skip(52)
}

/// A plain bitmap as the one with the usual masks that amounts to it.
pub open spec fn with_masks(data: Seq<u8>) -> Seq<u8> {
    data.subrange(0, 16) + seq![3u8, 0u8, 0u8, 0u8] + data.subrange(20, 40) + seq![
        0u8, 0u8, 0xffu8, 0u8, 0u8, 0xffu8, 0u8, 0u8, 0xffu8, 0u8, 0u8, 0u8,
    ] + data.skip(40)
}

fn read_dword(data: &[u8], at: usize) -> (r: u32)
    requires
        at + 4 <= data.len(),
    ensures
        r == dword(data@, at as int),
{
    data[at] as u32 + data[at + 1] as u32 * 0x100 + data[at + 2] as u32 * 0x1_0000 + data[at
        + 3] as u32 * 0x100_0000
}

fn push_range(out: &mut Vec<u8>, data: &[u8], from: usize, to: usize)
    requires
        from <= to <= data.len(),
    ensures
        final(out)@ == old(out)@ + data@.subrange(from as int, to as int),
{
    let mut i: usize = from;
    assert(out@ =~= old(out)@ + data@.subrange(from as int, from as int));
    while i < to
        invariant
            from <= i <= to <= data.len(),
            out@ == old(out)@ + data@.subrange(from as int, i as int),
        decreases to - i,
    {
        out.push(data[i]);
        i = i + 1;
        assert(out@ =~= old(out)@ + data@.subrange(from as int, i as int));
    }
}

/// Makes a bitmap with the usual masks a plain one.
pub fn fix_bitfields_dib(data: &[u8]) -> (r: Option<Vec<u8>>)
    ensures
        match r {
            Some(v) => has_usual_masks(data@) && v@ == without_masks(data@),
            None => !has_usual_masks(data@),
        },
{
    if data.len() < 52 {
        return None;
    }
    if read_dword(data, 0) != 40 || read_dword(data, 16) != 3 || read_dword(data, 40) != 0x00ff_0000
        || read_dword(data, 44) != 0x0000_ff00 || read_dword(data, 48) != 0x0000_00ff {
        return None;
    }
    let mut out: Vec<u8> = Vec::new();
    push_range(&mut out, data, 0, 16);
    out.push(0);
    out.push(0);
    out.push(0);
    out.push(0);
    push_range(&mut out, data, 20, 40);
    push_range(&mut out, data, 52, data.len());
    assert(out@ =~= without_masks(data@));
    Some(out)
}

/// Taking the masks out of a plain bitmap that was given them gives the bitmap
/// back.
pub proof fn fixing_undoes_the_masks(data: Seq<u8>)
    requires
        data.len() >= 40,
        dword(data, 0) == 40,
        data.subrange(16, 20) == seq![0u8, 0u8, 0u8, 0u8],
    ensures
        has_usual_masks(with_masks(data)),
        without_masks(with_masks(data)) == data,
{
    let m = with_masks(data);
    assert(m.len() == data.len() + 12);
    assert(forall|i: int| 0 <= i < 4 ==> data[16 + i] == #[trigger] data.subrange(16, 20)[i]);
    assert(data[16] == data.subrange(16, 20)[0]);
    assert(data[17] == data.subrange(16, 20)[1]);
    assert(data[18] == data.subrange(16, 20)[2]);
    assert(data[19] == data.subrange(16, 20)[3]);
    assert(without_masks(m) =~= data);
}

} // verus!
