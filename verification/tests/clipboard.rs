use std::io::Cursor;

use hypr_rdp::clipboard::backend::HyprCliprdrBackend;
use hypr_rdp::clipboard::formats::{
    fix_bitfields_dib, ClipboardFormat, PendingWrite, CF_DIB, CF_DIBV5, CF_TEXT, CF_UNICODETEXT,
    MAX_CLIPBOARD_SIZE,
};
use hypr_rdp::clipboard::unicode::{normalize_line_endings, repaired_text, utf16le_to_utf8};
use ironrdp_cliprdr::pdu::{ClipboardFormatId, FormatDataResponse};

const ONE_BY_ONE_RGBA_PNG: &[u8] = &[
    0x89, b'P', b'N', b'G', 0x0d, 0x0a, 0x1a, 0x0a, 0x00, 0x00, 0x00, 0x0d, b'I', b'H', b'D', b'R',
    0x00, 0x00, 0x00, 0x01, 0x00, 0x00, 0x00, 0x01, 0x08, 0x06, 0x00, 0x00, 0x00, 0x1f, 0x15, 0xc4,
    0x89, 0x00, 0x00, 0x00, 0x0d, b'I', b'D', b'A', b'T', 0x78, 0x9c, 0x63, 0xf8, 0xcf, 0xc0, 0xf0,
    0x1f, 0x00, 0x05, 0x00, 0x01, 0xff, 0x89, 0x99, 0x3d, 0x1d, 0x00, 0x00, 0x00, 0x00, b'I', b'E',
    b'N', b'D', 0xae, 0x42, 0x60, 0x82,
];

fn format(id: u32) -> ClipboardFormat {
    ClipboardFormat { id, name: None }
}

fn data(data: &[u8]) -> FormatDataResponse<'_> {
    FormatDataResponse::new_data(data)
}

/// The bytes of an answer, unless it is an error.
fn given(response: FormatDataResponse<'_>) -> Option<Vec<u8>> {
    if response.is_error() {
        None
    } else {
        Some(response.data().to_vec())
    }
}

fn utf16le(text: &str) -> Vec<u8> {
    let mut bytes: Vec<u8> = text.encode_utf16().flat_map(u16::to_le_bytes).collect();
    bytes.extend_from_slice(&[0, 0]);
    bytes
}

#[test]
fn format_numbers_are_those_of_the_channel() {
    assert_eq!(ClipboardFormatId::CF_TEXT.value(), CF_TEXT);
    assert_eq!(ClipboardFormatId::CF_DIB.value(), CF_DIB);
    assert_eq!(ClipboardFormatId::CF_UNICODETEXT.value(), CF_UNICODETEXT);
    assert_eq!(ClipboardFormatId::CF_DIBV5.value(), CF_DIBV5);
}

#[test]
fn client_text_echo_of_our_copy_keeps_wayland_selection() {
    let mut backend = HyprCliprdrBackend::new();
    backend.clipboard_data = Some(b"hello\nworld".to_vec());
    backend.last_requested_format = Some(CF_UNICODETEXT);

    let payload = utf16le("hello\r\nworld");
    backend.handle_format_data_response(data(payload.as_slice()), MAX_CLIPBOARD_SIZE);

    assert!(backend.pending_write.is_none());
    assert!(!backend.suppress_watcher);
}

#[test]
fn client_text_copy_is_written_with_normalized_line_endings() {
    let mut backend = HyprCliprdrBackend::new();
    backend.last_requested_format = Some(CF_UNICODETEXT);

    let payload = utf16le("from\r\nclient");
    backend.handle_format_data_response(data(payload.as_slice()), MAX_CLIPBOARD_SIZE);

    let Some(PendingWrite::Text(text)) = backend.pending_write.as_ref() else {
        panic!("expected text pending write");
    };
    assert_eq!(text.as_slice(), b"from\nclient");
}

#[test]
fn client_image_echo_of_our_copy_keeps_wayland_selection() {
    let mut backend = HyprCliprdrBackend::new();
    let dib = ironrdp_cliprdr_format::bitmap::png_to_cf_dib(ONE_BY_ONE_RGBA_PNG)
        .expect("test PNG converts to DIB");
    backend.clipboard_image = Some(dib.clone());
    backend.last_requested_format = Some(CF_DIB);

    backend.handle_format_data_response(data(dib.as_slice()), MAX_CLIPBOARD_SIZE);

    assert!(backend.pending_write.is_none());
    assert!(!backend.suppress_watcher);
}

fn decode_png(data: &[u8]) -> (u32, u32, png::ColorType, Vec<u8>) {
    let decoder = png::Decoder::new(Cursor::new(data));
    let mut reader = decoder.read_info().expect("PNG header decodes");
    let mut buffer = vec![0; reader.output_buffer_size().expect("PNG output buffer size")];
    let info = reader.next_frame(&mut buffer).expect("PNG frame decodes");

    assert_eq!(info.bit_depth, png::BitDepth::Eight);
    buffer.truncate(info.buffer_size());
    (info.width, info.height, info.color_type, buffer)
}

fn rgba_png_pixel(pixel: [u8; 4]) -> Vec<u8> {
    let mut png_data = Vec::new();
    {
        let mut encoder = png::Encoder::new(&mut png_data, 1, 1);
        encoder.set_color(png::ColorType::Rgba);
        encoder.set_depth(png::BitDepth::Eight);
        let mut writer = encoder.write_header().expect("PNG header");
        writer.write_image_data(&pixel).expect("PNG pixel");
    }
    png_data
}

fn assert_pending_image_pixel(
    backend: &HyprCliprdrBackend,
    color_type: png::ColorType,
    pixel: &[u8],
) {
    let PendingWrite::Image(data) = backend.pending_write.as_ref().expect("pending write") else {
        panic!("expected image pending write");
    };
    let (width, height, actual_color_type, actual_pixel) = decode_png(data);

    assert_eq!((width, height), (1, 1));
    assert_eq!(actual_color_type, color_type);
    assert_eq!(actual_pixel, pixel);
}

fn bitfields_dib_from_png() -> Vec<u8> {
    let dib = ironrdp_cliprdr_format::bitmap::png_to_cf_dib(ONE_BY_ONE_RGBA_PNG)
        .expect("test PNG converts to DIB");
    let mut bitfields = Vec::with_capacity(dib.len() + 12);
    bitfields.extend_from_slice(&dib[..16]);
    bitfields.extend_from_slice(&3u32.to_le_bytes());
    bitfields.extend_from_slice(&dib[20..40]);
    bitfields.extend_from_slice(&0x00ff_0000u32.to_le_bytes());
    bitfields.extend_from_slice(&0x0000_ff00u32.to_le_bytes());
    bitfields.extend_from_slice(&0x0000_00ffu32.to_le_bytes());
    bitfields.extend_from_slice(&dib[40..]);
    bitfields
}

#[test]
fn request_format_list_advertises_text_and_image_formats() {
    let mut backend = HyprCliprdrBackend::new();
    backend.clipboard_data = Some(b"hello".to_vec());
    backend.clipboard_image = Some(vec![1, 2, 3, 4]);

    let ids = backend.on_request_format_list().expect("formats are announced");

    assert_eq!(ids, vec![CF_UNICODETEXT, CF_DIB]);
}

#[test]
fn request_format_list_does_not_emit_empty_clipboard() {
    let mut backend = HyprCliprdrBackend::new();

    assert!(backend.on_request_format_list().is_none());

    backend.clipboard_data = Some(Vec::new());
    backend.clipboard_image = Some(Vec::new());
    assert!(backend.on_request_format_list().is_none());
}

#[test]
fn remote_copy_prefers_unicode_then_dibv5_then_dib() {
    for (formats, expected) in [
        (
            vec![format(CF_DIB), format(CF_DIBV5), format(CF_UNICODETEXT)],
            CF_UNICODETEXT,
        ),
        (vec![format(CF_DIB), format(CF_DIBV5)], CF_DIBV5),
        (vec![format(CF_DIB)], CF_DIB),
    ] {
        let mut backend = HyprCliprdrBackend::new();

        let asked = backend.on_remote_copy(&formats);

        assert_eq!(backend.last_requested_format, Some(expected));
        assert_eq!(asked, Some(expected));
    }
}

#[test]
fn remote_copy_ignores_unsupported_formats() {
    let mut backend = HyprCliprdrBackend::new();
    let formats = [format(CF_TEXT)];

    let asked = backend.on_remote_copy(&formats);

    assert_eq!(backend.remote_formats, formats);
    assert_eq!(backend.last_requested_format, None);
    assert!(asked.is_none());
}

#[test]
fn remote_copy_clears_stale_requested_format_when_no_supported_format_exists() {
    let mut backend = HyprCliprdrBackend::new();

    assert_eq!(
        backend.on_remote_copy(&[format(CF_UNICODETEXT)]),
        Some(CF_UNICODETEXT)
    );
    assert_eq!(backend.last_requested_format, Some(CF_UNICODETEXT));

    assert!(backend.on_remote_copy(&[format(CF_TEXT)]).is_none());

    assert_eq!(backend.last_requested_format, None);
}

#[test]
fn format_data_request_returns_unicode_text_response() {
    let mut backend = HyprCliprdrBackend::new();
    backend.clipboard_data = Some("hello".as_bytes().to_vec());

    let response = backend.on_format_data_request(CF_UNICODETEXT);
    assert!(!response.is_error());
    assert_eq!(
        response.data(),
        &[b'h', 0, b'e', 0, b'l', 0, b'l', 0, b'o', 0, 0, 0]
    );
}

#[test]
fn format_data_requests_for_anything_else_are_refused() {
    let mut backend = HyprCliprdrBackend::new();
    assert_eq!(given(backend.on_format_data_request(CF_UNICODETEXT)), None);
    assert_eq!(given(backend.on_format_data_request(CF_DIB)), None);
    backend.clipboard_data = Some(Vec::new());
    assert_eq!(given(backend.on_format_data_request(CF_UNICODETEXT)), None);
    backend.clipboard_image = Some(vec![1, 2]);
    assert_eq!(
        given(backend.on_format_data_request(CF_DIB)),
        Some(vec![1, 2])
    );
    assert_eq!(given(backend.on_format_data_request(CF_DIBV5)), None);
}

#[test]
fn text_beyond_the_basic_plane_goes_out_as_pairs() {
    let mut backend = HyprCliprdrBackend::new();
    backend.clipboard_data = Some("\u{10437}\u{ffff}z".as_bytes().to_vec());
    assert_eq!(
        given(backend.on_format_data_request(CF_UNICODETEXT)),
        Some(vec![0x01, 0xd8, 0x37, 0xdc, 0xff, 0xff, b'z', 0, 0, 0])
    );
}

#[test]
fn format_data_response_writes_text_pending_for_wayland() {
    let mut backend = HyprCliprdrBackend::new();
    backend.last_requested_format = Some(CF_UNICODETEXT);

    backend.on_format_data_response(data(&[b'o', 0, b'k', 0, 0, 0]));

    assert!(backend.suppress_watcher);
    match backend.pending_write.as_ref().expect("pending write") {
        PendingWrite::Text(data) => assert_eq!(data, b"ok"),
        PendingWrite::Image(_) => panic!("expected text pending write"),
    }
}

#[test]
fn format_data_response_without_pending_request_is_ignored() {
    let mut backend = HyprCliprdrBackend::new();

    backend.on_format_data_response(data(&[b'o', 0, b'k', 0, 0, 0]));

    assert!(!backend.suppress_watcher);
    assert!(backend.pending_write.is_none());
}

#[test]
fn late_format_data_response_after_unsupported_copy_is_ignored() {
    let mut backend = HyprCliprdrBackend::new();
    backend.last_requested_format = Some(CF_UNICODETEXT);
    backend.on_remote_copy(&[format(CF_TEXT)]);

    backend.on_format_data_response(data(&[b'o', 0, b'k', 0, 0, 0]));

    assert_eq!(backend.last_requested_format, None);
    assert!(!backend.suppress_watcher);
    assert!(backend.pending_write.is_none());
}

#[test]
fn format_data_response_ignores_oversized_payload_without_mutating_pending_write() {
    let mut backend = HyprCliprdrBackend::new();
    backend.last_requested_format = Some(CF_UNICODETEXT);
    backend.pending_write = Some(PendingWrite::Text(b"old".to_vec()));
    let oversized = [0, 0, 0, 0, 0];

    backend.handle_format_data_response(data(&oversized), 4);

    assert!(!backend.suppress_watcher);
    assert_eq!(backend.last_requested_format, None);
    match backend.pending_write.as_ref().expect("existing pending write remains") {
        PendingWrite::Text(data) => assert_eq!(data, b"old"),
        PendingWrite::Image(_) => panic!("expected existing text pending write"),
    }
}

#[test]
fn format_data_response_errors_and_empty_answers_are_ignored() {
    for response in [
        FormatDataResponse::new_error(),
        data(&[]),
        data(&[0, 0, b'o', 0]),
    ] {
        let mut backend = HyprCliprdrBackend::new();
        backend.last_requested_format = Some(CF_UNICODETEXT);
        backend.on_format_data_response(response);
        assert_eq!(backend.last_requested_format, None);
        assert!(!backend.suppress_watcher);
        assert!(backend.pending_write.is_none());
    }
}

#[test]
fn an_answer_is_taken_over_by_its_bytes() {
    let mut backend = HyprCliprdrBackend::new();
    backend.last_requested_format = Some(CF_UNICODETEXT);
    backend.take_answer(true, &[b'o', 0], 4);
    assert!(backend.pending_write.is_none());
    assert_eq!(backend.last_requested_format, None);
    backend.last_requested_format = Some(CF_UNICODETEXT);
    backend.take_answer(false, &[b'o', 0, b'k', 0], 4);
    assert_eq!(backend.pending_write, Some(PendingWrite::Text(b"ok".to_vec())));
}

#[test]
fn format_data_response_writes_dib_image_pending_for_wayland() {
    let mut backend = HyprCliprdrBackend::new();
    backend.last_requested_format = Some(CF_DIB);
    let dib = ironrdp_cliprdr_format::bitmap::png_to_cf_dib(ONE_BY_ONE_RGBA_PNG)
        .expect("test PNG converts to DIB");

    backend.on_format_data_response(data(&dib));

    assert!(backend.suppress_watcher);
    assert_eq!(backend.last_requested_format, None);
    assert_pending_image_pixel(&backend, png::ColorType::Rgb, &[255, 0, 0]);
}

#[test]
fn format_data_response_writes_dibv5_image_pending_for_wayland() {
    let mut backend = HyprCliprdrBackend::new();
    backend.last_requested_format = Some(CF_DIBV5);
    let dibv5 = ironrdp_cliprdr_format::bitmap::png_to_cf_dibv5(ONE_BY_ONE_RGBA_PNG)
        .expect("test PNG converts to DIBV5");

    backend.on_format_data_response(data(&dibv5));

    assert!(backend.suppress_watcher);
    assert_eq!(backend.last_requested_format, None);
    assert_pending_image_pixel(&backend, png::ColorType::Rgba, &[255, 0, 0, 255]);
}

#[test]
fn format_data_response_preserves_dibv5_transparent_alpha_for_wayland() {
    let mut backend = HyprCliprdrBackend::new();
    backend.last_requested_format = Some(CF_DIBV5);
    let png = rgba_png_pixel([17, 34, 51, 127]);
    let dibv5 =
        ironrdp_cliprdr_format::bitmap::png_to_cf_dibv5(&png).expect("PNG converts to DIBV5");

    backend.on_format_data_response(data(&dibv5));

    assert!(backend.suppress_watcher);
    assert_eq!(backend.last_requested_format, None);
    assert_pending_image_pixel(&backend, png::ColorType::Rgba, &[17, 34, 51, 127]);
}

#[test]
fn format_data_response_writes_dib_alpha_as_rgb_for_wayland() {
    let mut backend = HyprCliprdrBackend::new();
    backend.last_requested_format = Some(CF_DIB);
    let png = rgba_png_pixel([17, 34, 51, 127]);
    let dib = ironrdp_cliprdr_format::bitmap::png_to_cf_dib(&png).expect("PNG converts to DIB");

    backend.on_format_data_response(data(&dib));

    assert!(backend.suppress_watcher);
    assert_eq!(backend.last_requested_format, None);
    assert_pending_image_pixel(&backend, png::ColorType::Rgb, &[17, 34, 51]);
}

#[test]
fn format_data_response_repairs_bitfields_dib_before_png_conversion() {
    let mut backend = HyprCliprdrBackend::new();
    backend.last_requested_format = Some(CF_DIB);
    let dib = bitfields_dib_from_png();

    backend.on_format_data_response(data(&dib));

    assert!(backend.suppress_watcher);
    assert_eq!(backend.last_requested_format, None);
    assert_pending_image_pixel(&backend, png::ColorType::Rgb, &[255, 0, 0]);
}

#[test]
fn format_data_response_ignores_corrupt_dib_without_pending_write() {
    let mut backend = HyprCliprdrBackend::new();
    backend.last_requested_format = Some(CF_DIB);

    backend.on_format_data_response(data(b"not a dib"));

    assert!(!backend.suppress_watcher);
    assert_eq!(backend.last_requested_format, None);
    assert!(backend.pending_write.is_none());
}

#[test]
fn clipboard_image_responses_never_write_an_invalid_png() {
    let mut state = 0x9e37_79b9_7f4a_7c15u64;
    for round in 0..500 {
        let mut bytes = if round % 2 == 0 {
            bitfields_dib_from_png()
        } else {
            ironrdp_cliprdr_format::bitmap::png_to_cf_dibv5(ONE_BY_ONE_RGBA_PNG).unwrap()
        };
        for _ in 0..2 {
            state ^= state << 13;
            state ^= state >> 7;
            state ^= state << 17;
            let at = (state >> 16) as usize % bytes.len();
            bytes[at] = state as u8;
        }
        for requested in [CF_DIB, CF_DIBV5] {
            let mut backend = HyprCliprdrBackend::new();
            backend.last_requested_format = Some(requested);
            backend.handle_format_data_response(data(&bytes), 256);
            if let Some(PendingWrite::Image(png_data)) = backend.pending_write.as_ref() {
                let _ = decode_png(png_data);
                assert!(backend.suppress_watcher);
            }
            assert_eq!(backend.last_requested_format, None);
        }
    }
}

#[test]
fn what_goes_out_and_comes_back_is_ignored() {
    for text in ["plain", "l\r\nf\r\n", "\u{1f600} \u{e000}\u{d7ff}", "\r\r\n"] {
        let mut backend = HyprCliprdrBackend::new();
        backend.clipboard_data = Some(text.as_bytes().to_vec());
        let Some(sent) = given(backend.on_format_data_request(CF_UNICODETEXT)) else {
            panic!("text is given");
        };
        backend.last_requested_format = Some(CF_UNICODETEXT);
        backend.on_format_data_response(data(&sent));
        assert!(backend.pending_write.is_none(), "{text:?}");
    }
    // A zero character ends text on the wire, so such text does not come back.
    let mut backend = HyprCliprdrBackend::new();
    backend.clipboard_data = Some(b"a\0b".to_vec());
    let Some(sent) = given(backend.on_format_data_request(CF_UNICODETEXT)) else {
        panic!("text is given");
    };
    backend.last_requested_format = Some(CF_UNICODETEXT);
    backend.on_format_data_response(data(&sent));
    assert_eq!(backend.pending_write, Some(PendingWrite::Text(b"a".to_vec())));
}

#[test]
fn invalid_text_of_the_desktop_is_repaired() {
    assert_eq!(repaired_text(b"a\xffb"), "a\u{fffd}b");
    assert_eq!(repaired_text("\u{20ac}".as_bytes()), "\u{20ac}");
    let mut backend = HyprCliprdrBackend::new();
    backend.clipboard_data = Some(b"a\xff".to_vec());
    assert_eq!(
        given(backend.on_format_data_request(CF_UNICODETEXT)),
        Some(vec![b'a', 0, 0xfd, 0xff, 0, 0])
    );
}

#[test]
fn wire_text_is_read_up_to_its_end() {
    assert_eq!(utf16le_to_utf8(&[b'a', 0, 0, 0, b'b', 0]), "a");
    assert_eq!(utf16le_to_utf8(&[b'a', 0, b'b']), "a");
    assert_eq!(utf16le_to_utf8(&[0x01, 0xd8, 0x37, 0xdc]), "\u{10437}");
    assert_eq!(utf16le_to_utf8(&[0x01, 0xd8, b'x', 0]), "\u{fffd}x");
    assert_eq!(utf16le_to_utf8(&[0x37, 0xdc, 0x01, 0xd8]), "\u{fffd}\u{fffd}");
    assert_eq!(utf16le_to_utf8(&[0x01, 0xd8, 0x01, 0xd8, 0x37, 0xdc]), "\u{fffd}\u{10437}");
    assert_eq!(utf16le_to_utf8(&[]), "");
}

#[test]
fn line_endings_are_replaced_once() {
    assert_eq!(normalize_line_endings(b"a\r\nb\rc\nd\r\r\ne\r"), b"a\nb\rc\nd\r\ne\r");
    for text in ["", "\r\n", "\r\n\r\n", "\n\r\n\r", "x\r\r\r\ny"] {
        assert_eq!(
            normalize_line_endings(text.as_bytes()),
            text.replace("\r\n", "\n").as_bytes()
        );
    }
}

#[test]
fn only_the_usual_masks_are_taken_out() {
    let masked = bitfields_dib_from_png();
    let plain = ironrdp_cliprdr_format::bitmap::png_to_cf_dib(ONE_BY_ONE_RGBA_PNG).unwrap();
    assert_eq!(fix_bitfields_dib(&masked), Some(plain.clone()));
    assert_eq!(fix_bitfields_dib(&plain), None);
    assert_eq!(fix_bitfields_dib(&masked[..51]), None);
    for at in [0, 16, 40, 44, 48] {
        let mut other = masked.clone();
        other[at] ^= 1;
        assert_eq!(fix_bitfields_dib(&other), None);
    }
}

#[test]
fn converted_pictures_and_decoded_text_are_taken_over() {
    let mut backend = HyprCliprdrBackend::new();
    backend.take_image(None);
    assert!(!backend.suppress_watcher);
    backend.take_image(Some(vec![1]));
    assert!(backend.suppress_watcher);
    assert_eq!(backend.pending_write, Some(PendingWrite::Image(vec![1])));
    backend.take_text("", None);
    assert_eq!(backend.pending_write, Some(PendingWrite::Image(vec![1])));
    backend.take_text("a\r\n", Some("a\n".to_string()));
    assert_eq!(backend.pending_write, Some(PendingWrite::Image(vec![1])));
    backend.take_text("a\r\n", Some("b".to_string()));
    assert_eq!(backend.pending_write, Some(PendingWrite::Text(b"a\n".to_vec())));
}
