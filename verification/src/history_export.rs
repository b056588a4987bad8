//! The history side of a finished export, and the checks a history image passes before it
//! is shown again: which saves may enter the history, and what is refused of the file and
//! of its PNG on the way back. Reading the file and decoding the PNG happen outside; what
//! they found comes in as plain values.

use crate::export_job::{ExportImageFormat, ExportJobInput};
use crate::geometry::PixelRect;
use crate::history::HistoryEntry;
use crate::history_cleanup::{managed_file_of, managed_history_png_path, managed_name};
use crate::history_cleanup::managed_png_file_name;
use crate::hotkey::join_relative;
use crate::model::{AssetGeneration, AssetRef, ErrorCode, ImageId, JobKind, JobOwner, JobSpec, PinoraError};
use crate::png_codec::{color_of, decode_png, png_decoded, PngColor, PngDecode, PngDecodeView};
use vstd::prelude::*;

verus! {

/// The most bytes a history PNG, or its decoded pixels, may take.
pub const MAX_HISTORY_PNG_BYTES: u64 = 134217728;

/// A finished save that may enter the history once its file is read back.
#[derive(Debug, Clone)]
pub struct HistoryExportCandidate {
    pub owner: JobOwner,
    pub asset: AssetRef,
    pub display: String,
    pub source_rect: PixelRect,
    pub created_at_ms: u64,
    pub file_name: String,
    pub path: String,
}

/// Whether an export input is a PNG save of the image that `asset` names, to a path directly
/// in the managed export directory; the history file name is then `Some`.
pub open spec fn candidate_file(export_dir: Seq<char>, asset: AssetRef, input: ExportJobInput) -> Option<
    Seq<char>,
> {
    match input {
        ExportJobInput::SaveImage { image, path, format, .. } => {
            if format == ExportImageFormat::Png && image == asset.image_id {
                managed_file_of(export_dir, path@)
            } else {
                None
            }
        },
        _ => None,
    }
}

/// The history candidate of a finished export: only a PNG written directly below the managed
/// export directory, of the image the job's asset names, becomes one. `display`,
/// `source_rect` and `captured_at_ms` describe the exported image.
pub fn history_candidate_for_export(
    export_dir: &str,
    owner: JobOwner,
    asset: AssetRef,
    input: &ExportJobInput,
    display: &str,
    source_rect: PixelRect,
    captured_at_ms: u64,
) -> (c: Option<HistoryExportCandidate>)
    ensures
        match candidate_file(export_dir@, asset, *input) {
            None => c is None,
            Some(name) => c matches Some(k) && {
                &&& k.owner == owner
                &&& k.asset == asset
                &&& k.display@ == display@
                &&& k.source_rect == source_rect
                &&& k.created_at_ms == captured_at_ms
                &&& k.file_name@ == name
                &&& input matches ExportJobInput::SaveImage { path, .. } && k.path@ == path@
            },
        },
{
    match input {
        ExportJobInput::SaveImage { image, path, format, .. } => {
            if !(matches!(format, ExportImageFormat::Png)) || image.raw != asset.image_id.raw {
                return None;
            }
            match managed_png_file_name(export_dir, path.as_str()) {
                Some(file_name) => Some(
                    HistoryExportCandidate {
                        owner,
                        asset,
                        display: display.to_owned(),
                        source_rect,
                        created_at_ms: captured_at_ms,
                        file_name,
                        path: path.clone(),
                    },
                ),
                None => None,
            }
        },
        _ => None,
    }
}

/// The path of an entry's image, or the refusal of a file name the history may not hold.
pub fn history_image_path(export_dir: &str, entry: &HistoryEntry) -> (r: Result<String, String>)
    ensures
        managed_name(entry.file_name@) ==> (r matches Ok(p) && p@ == join_relative(
            export_dir@,
            entry.file_name@,
        )),
        !managed_name(entry.file_name@) ==> (r matches Err(m) && m@
            == "history file name is invalid"@),
{
    match managed_history_png_path(export_dir, entry.file_name.as_str()) {
        Some(p) => Ok(p),
        None => Err("history file name is invalid".to_owned()),
    }
}

/// The first refusal of an entry's file, from what its metadata shows; `None` where it
/// passes.
pub open spec fn file_refusal(entry_len: u64, regular_file: bool, symlink: bool, len: u64) -> Option<
    Seq<char>,
> {
    if !regular_file || symlink {
        Some("history image is not a regular file"@)
    } else if len != entry_len {
        Some("history image length does not match index"@)
    } else if entry_len == 0 || entry_len > MAX_HISTORY_PNG_BYTES {
        Some("history image exceeds read limit"@)
    } else {
        None
    }
}

/// Checks an entry's file before it is read: a regular file, not a link, of the length the
/// index holds, and no larger than the read limit.
pub fn check_history_file(entry: &HistoryEntry, regular_file: bool, symlink: bool, len: u64) -> (r:
    Result<(), String>)
    ensures
        match file_refusal(entry.byte_len, regular_file, symlink, len) {
            None => r is Ok,
            Some(m) => r matches Err(e) && e@ == m,
        },
{
    if !regular_file || symlink {
        return Err("history image is not a regular file".to_owned());
    }
    if len != entry.byte_len {
        return Err("history image length does not match index".to_owned());
    }
    if entry.byte_len == 0 || entry.byte_len > MAX_HISTORY_PNG_BYTES {
        return Err("history image exceeds read limit".to_owned());
    }
    Ok(())
}

/// Checks the digest of the bytes read against the one the index holds.
pub fn check_history_digest(entry: &HistoryEntry, digest: &[u8; 32]) -> (r: Result<(), String>)
    ensures
        digest@ == entry.digest@ ==> r is Ok,
        digest@ != entry.digest@ ==> (r matches Err(e) && e@
            == "history image digest does not match index"@),
{
    let mut k: usize = 0;
    while k < 32
        invariant
            k <= 32,
            digest@.len() == 32,
            entry.digest@.len() == 32,
            forall|j: int| 0 <= j < k ==> digest@[j] == entry.digest@[j],
        decreases 32 - k,
    {
        if digest[k] != entry.digest[k] {
            return Err("history image digest does not match index".to_owned());
        }
        k += 1;
    }
    assert(digest@ =~= entry.digest@);
    Ok(())
}

/// The byte length of the RGBA pixels of a `width`×`height` PNG, or why such a PNG is
/// refused: its size overflows 64 bits, or it is empty or past the limits.
pub open spec fn pixel_bytes(width: u32, height: u32) -> Result<int, Seq<char>> {
    let n = width * height * 4;
    if n > u64::MAX {
        Err("history image dimensions overflow"@)
    } else if width == 0 || height == 0 || n > MAX_HISTORY_PNG_BYTES || n > usize::MAX {
        Err("history image dimensions exceed limit"@)
    } else {
        Ok(n)
    }
}

/// The size of the buffer that a PNG header's dimensions call for, within the limits.
pub fn history_png_buffer_len(width: u32, height: u32) -> (r: Result<usize, String>)
    ensures
        match pixel_bytes(width, height) {
            Ok(n) => r matches Ok(k) && k == n,
            Err(m) => r matches Err(e) && e@ == m,
        },
{
    assert(width * height <= 0xffff_ffff * 0xffff_ffff) by (nonlinear_arith)
        requires
            width <= 0xffff_ffff,
            height <= 0xffff_ffff,
    ;
    let pixels = (width as u64) * (height as u64);
    let bytes = pixels.checked_mul(4);
    match bytes {
        None => Err("history image dimensions overflow".to_owned()),
        Some(n) => {
            if width == 0 || height == 0 || n > MAX_HISTORY_PNG_BYTES || n > usize::MAX as u64 {
                Err("history image dimensions exceed limit".to_owned())
            } else {
                Ok(n as usize)
            }
        },
    }
}

/// Whether a decoded frame is what the entry describes: 8-bit RGBA of the entry's size,
/// filling the whole buffer.
pub open spec fn frame_matches(
    entry_rect: PixelRect,
    rgba8: bool,
    width: u32,
    height: u32,
    frame_len: usize,
    buffer_len: usize,
) -> bool {
    &&& rgba8
    &&& width == entry_rect.size.width
    &&& height == entry_rect.size.height
    &&& frame_len == buffer_len
}

/// Checks a decoded frame against the entry. `rgba8` says whether the frame is 8-bit RGBA;
/// `frame_len` is the byte size the decoder reports for it.
pub fn check_history_frame(
    entry: &HistoryEntry,
    rgba8: bool,
    width: u32,
    height: u32,
    frame_len: usize,
    buffer_len: usize,
) -> (r: Result<(), String>)
    ensures
        frame_matches(entry.source_rect, rgba8, width, height, frame_len, buffer_len) ==> r is Ok,
        !frame_matches(entry.source_rect, rgba8, width, height, frame_len, buffer_len) ==> (r matches Err(
            e,
        ) && e@ == "history image PNG metadata does not match index"@),
{
    if !rgba8 || width != entry.source_rect.size.width || height != entry.source_rect.size.height
        || frame_len != buffer_len {
        return Err("history image PNG metadata does not match index".to_owned());
    }
    Ok(())
}

/// What reopening a history image makes of its PNG: the header must decode; its size must
/// not overflow or exceed the limits; the frame must decode into a buffer of exactly
/// `width * height * 4` bytes; and it must be 8-bit RGBA of the entry's size. Each failure
/// has its own message.
pub open spec fn history_png(entry_rect: PixelRect, d: PngDecodeView) -> Result<Seq<u8>, Seq<char>> {
    match d {
        PngDecodeView::HeaderInvalid(_) => Err("history image PNG header is invalid"@),
        PngDecodeView::FrameInvalid(h, _) => match pixel_bytes(h.width, h.height) {
            Err(m) => Err(m),
            Ok(_) => Err("history image PNG data is invalid"@),
        },
        PngDecodeView::Decoded { header: h, width, height, data } => match pixel_bytes(h.width, h.height) {
            Err(m) => Err(m),
            Ok(n) => if h.output_size > n {
                Err("history image PNG data is invalid"@)
            } else if !(color_of(h.color_type) == Some(PngColor::Rgba) && h.bit_depth == 8 && width == entry_rect.size.width
                && height == entry_rect.size.height && data.len() == n) {
                Err("history image PNG metadata does not match index"@)
            } else {
                Ok(data)
            },
        },
    }
}

/// Decodes a history entry's PNG and checks it against the entry, giving the image's size
/// (the entry's) and its RGBA pixels.
pub fn history_image_from_png(entry: &HistoryEntry, bytes: &[u8]) -> (r: Result<(u32, u32, Vec<u8>), String>)
    ensures
        match history_png(entry.source_rect, png_decoded(bytes@)) {
            Ok(d) => (r matches Ok((w, h, px)) && w == entry.source_rect.size.width && h
                == entry.source_rect.size.height && px@ == d),
            Err(m) => (r matches Err(e) && e@ == m),
        },
{
    let (header, frame) = match decode_png(bytes) {
        PngDecode::HeaderInvalid(_) => {
            return Err("history image PNG header is invalid".to_owned());
        },
        PngDecode::FrameInvalid(h, _) => (h, None),
        PngDecode::Decoded { header, width, height, data } => (header, Some((width, height, data))),
    };
    let n = match history_png_buffer_len(header.width, header.height) {
        Ok(n) => n,
        Err(m) => {
            return Err(m);
        },
    };
    let (width, height, data) = match frame {
        None => {
            return Err("history image PNG data is invalid".to_owned());
        },
        Some(f) => f,
    };
    if header.output_size > n {
        return Err("history image PNG data is invalid".to_owned());
    }
    if header.color_type != 6 || header.bit_depth != 8 || width
        != entry.source_rect.size.width || height != entry.source_rect.size.height || data.len() != n {
        return Err("history image PNG metadata does not match index".to_owned());
    }
    Ok((entry.source_rect.size.width, entry.source_rect.size.height, data))
}

/// Why a history load is refused before its worker starts, if it is: one read at a time, a
/// job of the history-load kind, owned by the entry's image and made for the entry's asset.
pub open spec fn load_start_refusal(worker_active: bool, spec: JobSpec, entry_image: ImageId, entry_generation: AssetGeneration) -> Option<(ErrorCode, Seq<char>)> {
    if worker_active {
        Some((ErrorCode::CommandRejected, "history load worker is still active"@))
    } else if spec.kind != JobKind::HistoryLoad {
        Some((ErrorCode::CommandRejected, "history load service accepts only JobKind::HistoryLoad"@))
    } else if spec.owner != JobOwner::History(entry_image) || spec.asset != (AssetRef {
        image_id: entry_image,
        generation: entry_generation,
    }) {
        Some((ErrorCode::InvalidState, "history load JobSpec does not match history entry identity"@))
    } else {
        None
    }
}

/// Checks a history load request before its job is registered.
pub fn check_history_load_start(worker_active: bool, spec: &JobSpec, entry: &HistoryEntry) -> (r: Result<(), PinoraError>)
    ensures
        match load_start_refusal(worker_active, *spec, entry.image_id, entry.generation) {
            None => r is Ok,
            Some((code, m)) => (r matches Err(e) && e.code == code && e.message@ == m),
        },
{
    if worker_active {
        return Err(PinoraError::new(ErrorCode::CommandRejected, "history load worker is still active"));
    }
    if !spec.kind.same_as(&JobKind::HistoryLoad) {
        return Err(
            PinoraError::new(ErrorCode::CommandRejected, "history load service accepts only JobKind::HistoryLoad"),
        );
    }
    let entry_asset = AssetRef::new(entry.image_id, entry.generation);
    if !spec.owner.same_as(&JobOwner::History(entry.image_id)) || !spec.asset.same_as(&entry_asset) {
        return Err(
            PinoraError::new(ErrorCode::InvalidState, "history load JobSpec does not match history entry identity"),
        );
    }
    Ok(())
}

} // verus!
