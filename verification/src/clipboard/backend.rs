//! The clipboard between a client and the desktop.
use ironrdp_cliprdr::pdu::FormatDataResponse;
use vstd::prelude::*;
use vstd::utf8::encode_utf8;

use super::formats::{
    dib_to_png, dibv5_to_png, fix_bitfields_dib, has_usual_masks, png_of_dib, png_of_dibv5,
    without_masks, ClipboardFormat, Content, PendingWrite, CF_DIB, CF_DIBV5, CF_UNICODETEXT,
    MAX_CLIPBOARD_SIZE,
};
use super::response::{
    data_response, error_response, response_bytes, response_data, response_failed,
    response_is_error, text_response,
};
use super::unicode::{
    lf_only, normalize_line_endings, repaired_text, utf16le_to_utf8, utf8_text,
    wire_data, wire_round_trip, wire_text,
};

verus! {

/// The state of the clipboard of one client.
#[derive(Debug)]
pub struct HyprCliprdrBackend {
    /// What the client offers.
    pub remote_formats: Vec<ClipboardFormat>,
    /// Whether the next change of the desktop's selection is our own.
    pub suppress_watcher: bool,
    /// The desktop's text, in UTF-8.
    pub clipboard_data: Option<Vec<u8>>,
    /// The desktop's picture, as a bitmap.
    pub clipboard_image: Option<Vec<u8>>,
    /// The client's content that is to become the desktop's selection.
    pub pending_write: Option<PendingWrite>,
    /// The format that the client was last asked for.
    pub last_requested_format: Option<u32>,
}

/// Optional content by its bytes.
pub open spec fn content(w: Option<PendingWrite>) -> Option<Content> {
    match w {
        Some(w) => Some(w@),
        None => None,
    }
}

/// Whether there is content, and not an empty one.
pub open spec fn holds_content(v: Option<Vec<u8>>) -> bool {
    v is Some && v->0@.len() > 0
}

/// Whether a format is among those offered.
pub open spec fn offers(formats: Seq<ClipboardFormat>, id: u32) -> bool {
    exists|i: int| 0 <= i < formats.len() && #[trigger] formats[i].id == id
}

/// The format to ask for: text before pictures, and the newer bitmap before the
/// older one.
pub open spec fn preferred(formats: Seq<ClipboardFormat>) -> Option<u32> {
    if offers(formats, CF_UNICODETEXT) {
        Some(CF_UNICODETEXT)
    } else if offers(formats, CF_DIBV5) {
        Some(CF_DIBV5)
    } else if offers(formats, CF_DIB) {
        Some(CF_DIB)
    } else {
        None
    }
}

/// The picture of a bitmap, with usual masks taken out where it cannot be
/// converted as it is.
pub open spec fn picture_of(data: Seq<u8>) -> Option<Seq<u8>> {
    if png_of_dib(data) is Some {
        png_of_dib(data)
    } else if has_usual_masks(data) {
        png_of_dib(without_masks(data))
    } else {
        None
    }
}

/// Text as it is put on the desktop: UTF-8 with plain line endings.
pub open spec fn desktop_text(text: Seq<char>) -> Seq<u8> {
    lf_only(encode_utf8(text))
}

/// Content of a picture that was converted.
pub open spec fn image_content(png: Option<Seq<u8>>) -> Option<Content> {
    match png {
        Some(png) => Some(Content::Image(png)),
        None => None,
    }
}

fn has_content(v: &Option<Vec<u8>>) -> (r: bool)
    ensures
        r == holds_content(*v),
{
    match v {
        Some(data) => data.len() > 0,
        None => false,
    }
}

fn offers_format(formats: &[ClipboardFormat], id: u32) -> (r: bool)
    ensures
        r == offers(formats@, id),
{
    let mut i: usize = 0;
    while i < formats.len()
        invariant
            i <= formats.len(),
            forall|j: int| 0 <= j < i ==> #[trigger] formats@[j].id != id,
        decreases formats.len() - i,
    {
        if formats[i].id == id {
            assert(formats@[i as int].id == id);
            return true;
        }
        i = i + 1;
    }
    false
}

fn same_bytes(a: &[u8], b: &[u8]) -> (r: bool)
    ensures
        r == (a@ == b@),
{
    if a.len() != b.len() {
        return false;
    }
    let mut i: usize = 0;
    while i < a.len()
        invariant
            a.len() == b.len(),
            i <= a.len(),
            forall|j: int| 0 <= j < i ==> a@[j] == b@[j],
        decreases a.len() - i,
    {
        if a[i] != b[i] {
            return false;
        }
        i = i + 1;
    }
    assert(a@ =~= b@);
    true
}

fn copy_slice(data: &[u8]) -> (r: Vec<u8>)
    ensures
        r@ == data@,
{
    let mut out: Vec<u8> = Vec::new();
    out.extend_from_slice(data);
    assert(out@ =~= data@);
    out
}

fn copy_formats(formats: &[ClipboardFormat]) -> (r: Vec<ClipboardFormat>)
    ensures
        r@ == formats@,
{
    let mut out: Vec<ClipboardFormat> = Vec::new();
    let mut i: usize = 0;
    while i < formats.len()
        invariant
            i <= formats.len(),
            out@.len() == i,
            forall|j: int| 0 <= j < i ==> #[trigger] out@[j] == formats@[j],
        decreases formats.len() - i,
    {
        let name = match &formats[i].name {
            Some(name) => Some(name.clone()),
            None => None,
        };
        out.push(ClipboardFormat { id: formats[i].id, name });
        i = i + 1;
    }
    assert(out@ =~= formats@);
    out
}

impl HyprCliprdrBackend {
    /// A clipboard that nothing was copied to.
    pub fn new() -> (r: Self)
        ensures
            r.remote_formats@ == Seq::<ClipboardFormat>::empty(),
            !r.suppress_watcher,
            r.clipboard_data is None,
            r.clipboard_image is None,
            r.pending_write is None,
            r.last_requested_format is None,
    {
        HyprCliprdrBackend {
            remote_formats: Vec::new(),
            suppress_watcher: false,
            clipboard_data: None,
            clipboard_image: None,
            pending_write: None,
            last_requested_format: None,
        }
    }

    /// What the desktop can offer.
    pub open spec fn offered(&self) -> Seq<u32> {
        let text: Seq<u32> = if holds_content(self.clipboard_data) {
            seq![CF_UNICODETEXT]
        } else {
            seq![]
        };
        let image: Seq<u32> = if holds_content(self.clipboard_image) {
            seq![CF_DIB]
        } else {
            seq![]
        };
        text + image
    }

    /// The formats to announce to the client; nothing is announced of an empty
    /// clipboard.
    pub fn on_request_format_list(&self) -> (r: Option<Vec<u32>>)
        ensures
            match r {
                Some(formats) => formats@ == self.offered() && self.offered().len() > 0,
                None => self.offered().len() == 0,
            },
    {
        let mut formats: Vec<u32> = Vec::new();
        if has_content(&self.clipboard_data) {
            formats.push(CF_UNICODETEXT);
        }
        if has_content(&self.clipboard_image) {
            formats.push(CF_DIB);
        }
        assert(formats@ =~= self.offered());
        if formats.len() > 0 {
            Some(formats)
        } else {
            None
        }
    }

    /// The client offers new content: remembers what, and gives the format that
    /// it is to be asked for. An earlier request is forgotten.
    pub fn on_remote_copy(&mut self, available_formats: &[ClipboardFormat]) -> (r: Option<u32>)
        ensures
            r == preferred(available_formats@),
            final(self).remote_formats@ == available_formats@,
            final(self).last_requested_format == r,
            final(self).suppress_watcher == old(self).suppress_watcher,
            final(self).clipboard_data == old(self).clipboard_data,
            final(self).clipboard_image == old(self).clipboard_image,
            final(self).pending_write == old(self).pending_write,
    {
        self.remote_formats = copy_formats(available_formats);
        let format = if offers_format(available_formats, CF_UNICODETEXT) {
            Some(CF_UNICODETEXT)
        } else if offers_format(available_formats, CF_DIBV5) {
            Some(CF_DIBV5)
        } else if offers_format(available_formats, CF_DIB) {
            Some(CF_DIB)
        } else {
            None
        };
        self.last_requested_format = format;
        format
    }

    /// What a client that asks for `format` is given.
    pub open spec fn answer_to(&self, format: u32) -> Option<Seq<u8>> {
        if format == CF_UNICODETEXT && holds_content(self.clipboard_data) {
            Some(wire_data(utf8_text(self.clipboard_data->0@)))
        } else if format == CF_DIB && holds_content(self.clipboard_image) {
            Some(self.clipboard_image->0@)
        } else {
            None
        }
    }

    /// Answers the client's request for content: the desktop's text or picture,
    /// and an error for anything else.
    pub fn on_format_data_request(&self, format: u32) -> (r: FormatDataResponse<'static>)
        ensures
            match self.answer_to(format) {
                Some(data) => !response_failed(r) && response_bytes(r) == data,
                None => response_failed(r),
            },
    {
        if format == CF_UNICODETEXT {
            match &self.clipboard_data {
                Some(data) => {
                    if data.len() > 0 {
                        let text = repaired_text(data.as_slice());
                        return text_response(text.as_str());
                    }
                },
                None => {},
            }
        } else if format == CF_DIB {
            match &self.clipboard_image {
                Some(data) => {
                    if data.len() > 0 {
                        return data_response(copy_slice(data.as_slice()));
                    }
                },
                None => {},
            }
        }
        error_response()
    }

    /// Whether text is the desktop's own, apart from line endings.
    pub open spec fn echoes_text(&self, text: Seq<char>) -> bool {
        self.clipboard_data is Some && desktop_text(utf8_text(self.clipboard_data->0@))
            == desktop_text(text)
    }

    /// Whether a bitmap is the desktop's own.
    pub open spec fn echoes_image(&self, data: Seq<u8>) -> bool {
        self.clipboard_image is Some && self.clipboard_image->0@ == data
    }

    /// The content that an answer brings. Errors, empty and oversized answers,
    /// answers that were not asked for, and the desktop's own content bring
    /// nothing.
    pub open spec fn brought(&self, is_error: bool, data: Seq<u8>, max: usize) -> Option<Content> {
        if is_error || data.len() == 0 || data.len() > max {
            None
        } else if self.last_requested_format == Some(CF_DIBV5) {
            if self.echoes_image(data) {
                None
            } else {
                image_content(png_of_dibv5(data))
            }
        } else if self.last_requested_format == Some(CF_DIB) {
            if self.echoes_image(data) {
                None
            } else {
                image_content(picture_of(data))
            }
        } else if self.last_requested_format == Some(CF_UNICODETEXT) {
            let text = wire_text(data);
            if text.len() == 0 || self.echoes_text(text) {
                None
            } else {
                Some(Content::Text(desktop_text(text)))
            }
        } else {
            None
        }
    }

    /// `self` is the clipboard `before` once `new` content has come in.
    pub open spec fn received(&self, before: HyprCliprdrBackend, new: Option<Content>) -> bool {
        &&& content(self.pending_write) == if new is Some {
            new
        } else {
            content(before.pending_write)
        }
        &&& self.suppress_watcher == (before.suppress_watcher || new is Some)
        &&& self.remote_formats == before.remote_formats
        &&& self.clipboard_data == before.clipboard_data
        &&& self.clipboard_image == before.clipboard_image
    }

    fn is_cached_image(&self, data: &[u8]) -> (r: bool)
        ensures
            r == self.echoes_image(data@),
    {
        match &self.clipboard_image {
            Some(cached) => same_bytes(cached.as_slice(), data),
            None => false,
        }
    }

    /// Takes over a picture of the client, where it could be converted.
    pub fn take_image(&mut self, png: Option<Vec<u8>>)
        ensures
            final(self).received(
                *old(self),
                match png {
                    Some(png) => Some(Content::Image(png@)),
                    None => None,
                },
            ),
            final(self).last_requested_format == old(self).last_requested_format,
    {
        if let Some(png) = png {
            self.suppress_watcher = true;
            self.pending_write = Some(PendingWrite::Image(png));
        }
    }

    /// Takes over text of the client as it came off the wire. `own` is the
    /// desktop's text, where it has one: the same text again is ignored.
    pub fn take_text(&mut self, text: &str, own: Option<String>)
        ensures
            final(self).received(
                *old(self),
                if text@.len() == 0 || (own is Some && desktop_text(own->0@) == desktop_text(
                    text@,
                )) {
                    None
                } else {
                    Some(Content::Text(desktop_text(text@)))
                },
            ),
            final(self).last_requested_format == old(self).last_requested_format,
    {
        if text.is_empty() {
            return ;
        }
        let normalized = normalize_line_endings(text.as_bytes());
        if let Some(own) = own {
            let own = normalize_line_endings(own.as_str().as_bytes());
            if same_bytes(own.as_slice(), normalized.as_slice()) {
                return ;
            }
        }
        self.suppress_watcher = true;
        self.pending_write = Some(PendingWrite::Text(normalized));
    }

    /// Takes over the client's answer to the last request.
    ///
    /// Content that matches the desktop's own is the client echoing our copy back
    /// (for instance a clipboard manager that rewrites the clipboard). Taking it
    /// over would steal the selection from the application that the user just
    /// copied from.
    pub fn take_answer(&mut self, is_error: bool, data: &[u8], max_clipboard_size: usize)
        ensures
            final(self).last_requested_format is None,
            final(self).received(
                *old(self),
                old(self).brought(is_error, data@, max_clipboard_size),
            ),
    {
        let requested_format = self.last_requested_format;
        self.last_requested_format = None;
        if is_error || data.len() == 0 || data.len() > max_clipboard_size {
            return ;
        }
        match requested_format {
            Some(format) => {
                if format == CF_DIBV5 {
                    if self.is_cached_image(data) {
                        return ;
                    }
                    let png = match dibv5_to_png(data) {
                        Ok(png) => Some(png),
                        Err(_) => None,
                    };
                    self.take_image(png);
                } else if format == CF_DIB {
                    if self.is_cached_image(data) {
                        return ;
                    }
                    let png = match dib_to_png(data) {
                        Ok(png) => Some(png),
                        Err(_) => match fix_bitfields_dib(data) {
                            Some(fixed) => match dib_to_png(fixed.as_slice()) {
                                Ok(png) => Some(png),
                                Err(_) => None,
                            },
                            None => None,
                        },
                    };
                    self.take_image(png);
                } else if format == CF_UNICODETEXT {
                    let text = utf16le_to_utf8(data);
                    let own = match &self.clipboard_data {
                        Some(cached) => Some(repaired_text(cached.as_slice())),
                        None => None,
                    };
                    self.take_text(text.as_str(), own);
                }
            },
            None => {},
        }
    }

    /// Takes over the client's answer to the last request, as `take_answer` does.
    pub fn handle_format_data_response(
        &mut self,
        response: FormatDataResponse<'_>,
        max_clipboard_size: usize,
    )
        ensures
            final(self).last_requested_format is None,
            final(self).received(
                *old(self),
                old(self).brought(
                    response_failed(response),
                    response_bytes(response),
                    max_clipboard_size,
                ),
            ),
    {
        let is_error: bool = response_is_error(&response);
        self.take_answer(is_error, response_data(&response), max_clipboard_size);
    }

    /// Takes over the client's answer to the last request, up to the usual size.
    pub fn on_format_data_response(&mut self, response: FormatDataResponse<'_>)
        ensures
            final(self).last_requested_format is None,
            final(self).received(
                *old(self),
                old(self).brought(
                    response_failed(response),
                    response_bytes(response),
                    MAX_CLIPBOARD_SIZE,
                ),
            ),
    {
        self.handle_format_data_response(response, MAX_CLIPBOARD_SIZE);
    }
}

/// A client that sends the desktop's own text back leaves the desktop's selection
/// alone, unless the text holds a zero character, which ends text on the wire.
pub proof fn text_echo_brings_nothing(clipboard: HyprCliprdrBackend, max: usize)
    requires
        clipboard.last_requested_format == Some(CF_UNICODETEXT),
        clipboard.answer_to(CF_UNICODETEXT) is Some,
        forall|i: int|
            0 <= i < utf8_text(clipboard.clipboard_data->0@).len() ==> #[trigger] utf8_text(
                clipboard.clipboard_data->0@,
            )[i] != '\0',
    ensures
        clipboard.brought(false, clipboard.answer_to(CF_UNICODETEXT)->0, max) is None,
{
    wire_round_trip(utf8_text(clipboard.clipboard_data->0@));
}

/// Text that a client copies reaches the desktop as it is, apart from line
/// endings, unless it is empty, too long, or the desktop's own.
pub proof fn client_text_reaches_the_desktop(
    clipboard: HyprCliprdrBackend,
    text: Seq<char>,
    max: usize,
)
    requires
        clipboard.last_requested_format == Some(CF_UNICODETEXT),
        text.len() > 0,
        forall|i: int| 0 <= i < text.len() ==> #[trigger] text[i] != '\0',
        wire_data(text).len() <= max,
        !clipboard.echoes_text(text),
    ensures
        clipboard.brought(false, wire_data(text), max) == Some(
            Content::Text(lf_only(encode_utf8(text))),
        ),
{
    wire_round_trip(text);
}

/// A client that sends the desktop's own picture back leaves the desktop's
/// selection alone.
pub proof fn image_echo_brings_nothing(clipboard: HyprCliprdrBackend, format: u32, max: usize)
    requires
        clipboard.last_requested_format == Some(format),
        format == CF_DIB || format == CF_DIBV5,
        clipboard.answer_to(CF_DIB) is Some,
    ensures
        clipboard.brought(false, clipboard.answer_to(CF_DIB)->0, max) is None,
{
}

/// An answer counts once: a further one without a request between brings nothing.
pub proof fn a_second_answer_brings_nothing(
    clipboard: HyprCliprdrBackend,
    is_error: bool,
    data: Seq<u8>,
    max: usize,
)
    requires
        clipboard.last_requested_format is None,
    ensures
        clipboard.brought(is_error, data, max) is None,
{
}

} // verus!
