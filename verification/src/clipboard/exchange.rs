//! What passes between the two clipboards.
use vstd::prelude::*;
use vstd::utf8::encode_utf8;

use super::backend::{content, preferred, HyprCliprdrBackend};
use super::formats::{
    fixing_undoes_the_masks, has_usual_masks, png_of_dib, png_of_dibv5, with_masks,
    without_masks, ClipboardFormat, Content,
};
use super::unicode::{lf_only, utf8_text, wire_data, wire_round_trip, wire_text};

verus! {

/// A client that offers text is asked for text; one that offers pictures only is asked
/// for the newer kind of bitmap before the older one; of anything else nothing is asked.
pub proof fn what_a_client_is_asked_for(formats: Seq<ClipboardFormat>)
    ensures
        ({
            let text = exists|i: int| 0 <= i < formats.len() && (#[trigger] formats[i]).id == 13;
            let newer = exists|i: int| 0 <= i < formats.len() && (#[trigger] formats[i]).id == 17;
            let older = exists|i: int| 0 <= i < formats.len() && (#[trigger] formats[i]).id == 8;
            &&& text ==> preferred(formats) == Some(13u32)
            &&& !text && newer ==> preferred(formats) == Some(17u32)
            &&& !text && !newer && older ==> preferred(formats) == Some(8u32)
            &&& !text && !newer && !older ==> preferred(formats) is None
        }),
{
}

/// What the desktop offers is what it holds: text, then a picture.
pub proof fn what_the_desktop_offers(c: HyprCliprdrBackend)
    ensures
        ({
            let text = c.clipboard_data is Some && c.clipboard_data->0@.len() > 0;
            let image = c.clipboard_image is Some && c.clipboard_image->0@.len() > 0;
            &&& text && image ==> c.offered() == seq![13u32, 8u32]
            &&& text && !image ==> c.offered() == seq![13u32]
            &&& !text && image ==> c.offered() == seq![8u32]
            &&& !text && !image ==> c.offered() == Seq::<u32>::empty()
        }),
{
    assert(Seq::<u32>::empty() + seq![8u32] =~= seq![8u32]);
    assert(seq![13u32] + Seq::<u32>::empty() =~= seq![13u32]);
    assert(seq![13u32] + seq![8u32] =~= seq![13u32, 8u32]);
    assert(Seq::<u32>::empty() + Seq::<u32>::empty() =~= Seq::<u32>::empty());
}

/// A client that asks for text is given the desktop's, as it would read it back; one that
/// asks for a picture is given the desktop's bytes; one that asks for what is not there,
/// or for anything else, is refused.
pub proof fn what_a_client_is_given(c: HyprCliprdrBackend, format: u32)
    ensures
        c.answer_to(13) is Some <==> c.clipboard_data is Some && c.clipboard_data->0@.len() > 0,
        c.answer_to(13) is Some && (forall|i: int|
            0 <= i < utf8_text(c.clipboard_data->0@).len() ==> #[trigger] utf8_text(
                c.clipboard_data->0@,
            )[i] != '\0') ==> wire_text(c.answer_to(13)->0) == utf8_text(c.clipboard_data->0@),
        c.answer_to(8) is Some <==> c.clipboard_image is Some && c.clipboard_image->0@.len() > 0,
        c.answer_to(8) is Some ==> c.answer_to(8)->0 == c.clipboard_image->0@,
        format != 13 && format != 8 ==> c.answer_to(format) is None,
{
    if c.answer_to(13) is Some && (forall|i: int|
        0 <= i < utf8_text(c.clipboard_data->0@).len() ==> #[trigger] utf8_text(
            c.clipboard_data->0@,
        )[i] != '\0') {
        wire_round_trip(utf8_text(c.clipboard_data->0@));
    }
}

/// An answer that is an error, empty, too long, or to no request or to one that is not
/// ours brings nothing.
pub proof fn what_brings_nothing(c: HyprCliprdrBackend, is_error: bool, data: Seq<u8>, max: usize)
    requires
        ({
            ||| is_error
            ||| data.len() == 0
            ||| data.len() > max
            ||| c.last_requested_format is None
            ||| c.last_requested_format != Some(13u32) && c.last_requested_format != Some(8u32)
                && c.last_requested_format != Some(17u32)
        }),
    ensures
        c.brought(is_error, data, max) is None,
{
}

/// A bitmap that was asked for brings the picture that it is converted to, by the
/// converter for its kind, unless it is the desktop's own. An older bitmap that cannot be
/// converted for its usual masks brings that of the plain bitmap that it amounts to.
pub proof fn what_a_bitmap_brings(c: HyprCliprdrBackend, data: Seq<u8>, max: usize)
    requires
        0 < data.len() <= max,
        c.clipboard_image is None || c.clipboard_image->0@ != data,
    ensures
        c.last_requested_format == Some(17u32) ==> match png_of_dibv5(data) {
            Some(png) => c.brought(false, data, max) == Some(Content::Image(png)),
            None => c.brought(false, data, max) is None,
        },
        c.last_requested_format == Some(8u32) && png_of_dib(data) is Some ==> c.brought(
            false,
            data,
            max,
        ) == Some(Content::Image(png_of_dib(data)->0)),
{
}

/// An older bitmap with the usual masks, where it cannot be converted as it is, brings
/// the picture of the plain bitmap.
pub proof fn what_a_masked_bitmap_brings(c: HyprCliprdrBackend, plain: Seq<u8>, max: usize)
    requires
        c.last_requested_format == Some(8u32),
        plain.len() >= 40,
        plain[0] == 40 && plain[1] == 0 && plain[2] == 0 && plain[3] == 0,
        plain[16] == 0 && plain[17] == 0 && plain[18] == 0 && plain[19] == 0,
        plain.len() + 12 <= max,
        c.clipboard_image is None || c.clipboard_image->0@ != with_masks(plain),
        png_of_dib(with_masks(plain)) is None,
    ensures
        with_masks(plain).len() == plain.len() + 12,
        match png_of_dib(plain) {
            Some(png) => c.brought(false, with_masks(plain), max) == Some(Content::Image(png)),
            None => c.brought(false, with_masks(plain), max) is None,
        },
{
    assert(plain.subrange(16, 20) =~= seq![0u8, 0u8, 0u8, 0u8]);
    fixing_undoes_the_masks(plain);
}

/// The masks stand between the header and the colours: red, green and blue from the
/// high byte down, and the header says that they are there.
pub proof fn where_the_masks_stand(plain: Seq<u8>, i: int)
    requires
        plain.len() >= 40,
    ensures
        ({
            let m = with_masks(plain);
            &&& m.len() == plain.len() + 12
            &&& 0 <= i < 16 || 20 <= i < 40 ==> m[i] == plain[i]
            &&& m[16] == 3 && m[17] == 0 && m[18] == 0 && m[19] == 0
            &&& m[40] == 0 && m[41] == 0 && m[42] == 255 && m[43] == 0
            &&& m[44] == 0 && m[45] == 255 && m[46] == 0 && m[47] == 0
            &&& m[48] == 255 && m[49] == 0 && m[50] == 0 && m[51] == 0
            &&& 40 <= i < plain.len() ==> m[i + 12] == plain[i]
        }),
{
}

/// Text that was asked for becomes the desktop's selection in UTF-8 with plain line
/// endings, unless there is none or it is the desktop's own apart from line endings.
pub proof fn what_text_brings(c: HyprCliprdrBackend, text: Seq<char>, max: usize)
    requires
        c.last_requested_format == Some(13u32),
        forall|i: int| 0 <= i < text.len() ==> #[trigger] text[i] != '\0',
        wire_data(text).len() <= max,
    ensures
        ({
            let own = c.clipboard_data is Some && lf_only(
                encode_utf8(utf8_text(c.clipboard_data->0@)),
            ) == lf_only(encode_utf8(text));
            c.brought(false, wire_data(text), max) == if text.len() == 0 || own {
                None
            } else {
                Some(Content::Text(lf_only(encode_utf8(text))))
            }
        }),
{
    wire_round_trip(text);
}

/// New content waits to become the desktop's selection, in place of what waited before,
/// and the change that it makes there is marked as our own. Without new content nothing
/// changes.
pub proof fn what_new_content_changes(
    before: HyprCliprdrBackend,
    after: HyprCliprdrBackend,
    new: Option<Content>,
)
    requires
        after.received(before, new),
    ensures
        after.remote_formats@ == before.remote_formats@,
        after.clipboard_data == before.clipboard_data,
        after.clipboard_image == before.clipboard_image,
        new is Some ==> after.suppress_watcher && after.pending_write is Some
            && after.pending_write->0@ == new->0,
        new is None ==> after.suppress_watcher == before.suppress_watcher && (
        after.pending_write is Some <==> before.pending_write is Some) && (
        before.pending_write is Some ==> after.pending_write->0@ == before.pending_write->0@),
{
    assert(content(after.pending_write) is Some <==> after.pending_write is Some);
    assert(content(before.pending_write) is Some <==> before.pending_write is Some);
}

/// Only the usual masks are taken out: of a plain header that says that masks follow,
/// red, green and blue from the high byte down. Then the header says that none follow,
/// and the colours come right behind it; everything else is kept.
pub proof fn which_masks_are_taken_out(data: Seq<u8>, i: int)
    ensures
        has_usual_masks(data) <==> {
            &&& data.len() >= 52
            &&& data[0] == 40 && data[1] == 0 && data[2] == 0 && data[3] == 0
            &&& data[16] == 3 && data[17] == 0 && data[18] == 0 && data[19] == 0
            &&& data[40] == 0 && data[41] == 0 && data[42] == 255 && data[43] == 0
            &&& data[44] == 0 && data[45] == 255 && data[46] == 0 && data[47] == 0
            &&& data[48] == 255 && data[49] == 0 && data[50] == 0 && data[51] == 0
        },
        has_usual_masks(data) ==> {
            let plain = without_masks(data);
            &&& plain.len() == data.len() - 12
            &&& plain[16] == 0 && plain[17] == 0 && plain[18] == 0 && plain[19] == 0
            &&& 0 <= i < 16 || 20 <= i < 40 ==> plain[i] == data[i]
            &&& 40 <= i < plain.len() ==> plain[i] == data[i + 12]
        },
{
}

} // verus!
