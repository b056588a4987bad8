use pinora::geometry::PixelRect;
use pinora::history::{HistoryEntry, HistoryEntryState, HistoryOcrState};
use pinora::history_export::{check_history_load_start, history_image_from_png};
use pinora::model::{AssetGeneration, AssetRef, CorrelationId, ErrorCode, ImageId, JobId, JobKind, JobOwner, JobSpec};
use pinora::ocr;
use pinora::png_codec::{decode_png, encode_png_bytes, encode_png_rgba8, png_color, png_rgba, rgba_from_decode, PngColor, PngDecode, PngEncodeError, PngHeader};

fn rgb_png(width: u32, height: u32, rgb: &[u8]) -> Vec<u8> {
    let mut out = Vec::new();
    {
        let mut encoder = png::Encoder::new(&mut out, width, height);
        encoder.set_color(png::ColorType::Rgb);
        encoder.set_depth(png::BitDepth::Eight);
        let mut writer = encoder.write_header().unwrap();
        writer.write_image_data(rgb).unwrap();
    }
    out
}

fn entry(width: u32, height: u32) -> HistoryEntry {
    HistoryEntry {
        image_id: ImageId::from_raw(1),
        generation: AssetGeneration::from_raw(1).expect("generation"),
        created_at_ms: 1,
        display: "display-1".into(),
        source_rect: PixelRect::new(40, 50, width, height),
        file_name: "img-1.png".into(),
        byte_len: 3,
        digest: [7; 32],
        ocr: HistoryOcrState::Unknown,
        state: HistoryEntryState::Active,
    }
}

#[test]
fn rgba_round_trips_through_png() {
    let pixels: Vec<u8> = (0..24).collect();
    let bytes = encode_png_bytes(3, 2, &pixels).unwrap();
    assert_eq!(&bytes[..8], &[137, 80, 78, 71, 13, 10, 26, 10]);
    assert_eq!(png_rgba(&bytes).unwrap(), (3, 2, pixels.clone()));
    match decode_png(&bytes) {
        PngDecode::Decoded { header, width, height, data } => {
            assert_eq!((header.color_type, header.bit_depth, header.output_size), (6, 8, 24));
            assert_eq!(png_color(header.color_type), Some(PngColor::Rgba));
            assert_eq!((width, height), (3, 2));
            assert_eq!(data, pixels);
        }
        other => panic!("unexpected {other:?}"),
    }
}

#[test]
fn rgb_gains_an_opaque_alpha() {
    let bytes = rgb_png(2, 1, &[1, 2, 3, 4, 5, 6]);
    assert_eq!(png_rgba(&bytes).unwrap(), (2, 1, vec![1, 2, 3, 255, 4, 5, 6, 255]));
}

#[test]
fn broken_pngs_are_internal_errors() {
    let err = png_rgba(b"not a png").unwrap_err();
    assert_eq!(err.code, ErrorCode::Internal);
    assert!(err.message.starts_with("png decode header: "));
    let mut truncated = encode_png_bytes(2, 2, &[9; 16]).unwrap();
    truncated.truncate(truncated.len() - 20);
    let err = png_rgba(&truncated).unwrap_err();
    assert!(err.message.starts_with("png decode frame: "), "{}", err.message);
}

fn header(color_type: u8) -> PngHeader {
    PngHeader { width: 2, height: 1, color_type, bit_depth: 8, output_size: 6 }
}

#[test]
fn decode_outcomes_map_to_rgba_or_named_errors() {
    let rgb = PngDecode::Decoded { header: header(2), width: 2, height: 1, data: vec![1, 2, 3, 4, 5, 6, 7] };
    assert_eq!(rgba_from_decode(rgb).unwrap(), (2, 1, vec![1, 2, 3, 255, 4, 5, 6, 255]));
    let rgba = PngDecode::Decoded { header: header(6), width: 1, height: 1, data: vec![9, 8, 7, 6] };
    assert_eq!(rgba_from_decode(rgba).unwrap(), (1, 1, vec![9, 8, 7, 6]));
    let cases = [
        (PngDecode::HeaderInvalid("bad signature".into()), "png decode header: bad signature"),
        (PngDecode::FrameInvalid(header(2), "eof".into()), "png decode frame: eof"),
        (PngDecode::Decoded { header: header(0), width: 2, height: 1, data: vec![0, 0] }, "unsupported png color type: Grayscale"),
        (PngDecode::Decoded { header: header(3), width: 2, height: 1, data: vec![0, 0] }, "unsupported png color type: Indexed"),
        (PngDecode::Decoded { header: header(4), width: 2, height: 1, data: vec![0; 4] }, "unsupported png color type: GrayscaleAlpha"),
        (PngDecode::Decoded { header: header(5), width: 2, height: 1, data: vec![0; 4] }, "unsupported png color type: "),
    ];
    for (decode, message) in cases {
        let err = rgba_from_decode(decode).unwrap_err();
        assert_eq!(err.code, ErrorCode::Internal);
        assert_eq!(err.message, message);
    }
}

#[test]
fn encoding_refuses_empty_images_and_wrong_buffers() {
    assert!(matches!(encode_png_rgba8(0, 2, &[]), Err(PngEncodeError::Header(_))));
    assert!(matches!(encode_png_rgba8(2, 2, &[0; 15]), Err(PngEncodeError::Data(_))));
    let err = encode_png_bytes(2, 2, &[0; 15]).unwrap_err();
    assert!(err.message.starts_with("png data: "));
    let err = ocr::encode_png_bytes(0, 1, &[]).unwrap_err();
    assert!(err.message.starts_with("ocr png header: "));
    assert_eq!(ocr::encode_png_bytes(1, 1, &[1, 2, 3, 4]).unwrap(), encode_png_bytes(1, 1, &[1, 2, 3, 4]).unwrap());
}

#[test]
fn history_images_must_match_their_entry() {
    let pixels: Vec<u8> = (0..16).collect();
    let bytes = encode_png_bytes(2, 2, &pixels).unwrap();
    assert_eq!(history_image_from_png(&entry(2, 2), &bytes).unwrap(), (2, 2, pixels));
    assert_eq!(
        history_image_from_png(&entry(3, 2), &bytes).unwrap_err(),
        "history image PNG metadata does not match index"
    );
    assert_eq!(history_image_from_png(&entry(2, 2), b"junk").unwrap_err(), "history image PNG header is invalid");
    let rgb = rgb_png(2, 2, &[0; 12]);
    assert_eq!(
        history_image_from_png(&entry(2, 2), &rgb).unwrap_err(),
        "history image PNG metadata does not match index"
    );
}

#[test]
fn history_loads_start_only_for_their_entry() {
    let e = entry(2, 2);
    let asset = AssetRef::new(e.image_id, e.generation);
    let spec = |kind: JobKind, owner: JobOwner, asset: AssetRef| JobSpec::new(
        JobId::from_raw(1),
        CorrelationId::from_raw(1),
        asset,
        owner,
        kind,
        1_000,
    );
    let good = spec(JobKind::HistoryLoad, JobOwner::History(e.image_id), asset);
    assert!(check_history_load_start(false, &good, &e).is_ok());
    let busy = check_history_load_start(true, &good, &e).unwrap_err();
    assert_eq!((busy.code, busy.message.as_str()), (ErrorCode::CommandRejected, "history load worker is still active"));
    let kind = check_history_load_start(false, &spec(JobKind::Export, JobOwner::History(e.image_id), asset), &e).unwrap_err();
    assert_eq!(kind.code, ErrorCode::CommandRejected);
    let owner = check_history_load_start(false, &spec(JobKind::HistoryLoad, JobOwner::History(ImageId::from_raw(9)), asset), &e)
        .unwrap_err();
    assert_eq!((owner.code, owner.message.as_str()), (ErrorCode::InvalidState, "history load JobSpec does not match history entry identity"));
}
