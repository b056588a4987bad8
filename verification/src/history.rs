//! History entries: what is remembered of each managed PNG export.

use crate::geometry::PixelRect;
use crate::model::{AssetGeneration, ImageId};
use vstd::prelude::*;
use vstd::utf8::encode_utf8;

verus! {

/// Upper bound on the number of entries an index holds.
pub const HISTORY_MAX_ENTRIES: usize = 1_000;

/// Upper bound on the UTF-8 length of a display identity.
pub const HISTORY_MAX_DISPLAY_BYTES: usize = 256;

/// Upper bound on the UTF-8 length of a managed file name.
pub const HISTORY_MAX_FILE_NAME_BYTES: usize = 255;

/// Whether an entry is shown or waits for its file to be removed.
#[derive(Debug, Clone, Copy, PartialEq, Eq, Structural)]
pub enum HistoryEntryState {
    Active,
    Tombstone,
}

/// Whether text recognition has been run on the entry's image.
#[derive(Debug, Clone, Copy, PartialEq, Eq, Structural)]
pub enum HistoryOcrState {
    Unknown,
    Ready,
}

impl HistoryEntryState {
    pub open spec fn wire(self) -> u8 {
        match self {
            HistoryEntryState::Active => 0,
            HistoryEntryState::Tombstone => 1,
        }
    }

    pub fn to_wire(&self) -> (b: u8)
        ensures
            b == self.wire(),
    {
        match self {
            HistoryEntryState::Active => 0,
            HistoryEntryState::Tombstone => 1,
        }
    }

    pub fn from_wire(b: u8) -> (s: Option<HistoryEntryState>)
        ensures
            match s {
                Some(state) => state.wire() == b,
                None => b > 1,
            },
    {
        if b == 0 {
            Some(HistoryEntryState::Active)
        } else if b == 1 {
            Some(HistoryEntryState::Tombstone)
        } else {
            None
        }
    }
}

impl HistoryOcrState {
    pub open spec fn wire(self) -> u8 {
        match self {
            HistoryOcrState::Unknown => 0,
            HistoryOcrState::Ready => 1,
        }
    }

    pub fn to_wire(&self) -> (b: u8)
        ensures
            b == self.wire(),
    {
        match self {
            HistoryOcrState::Unknown => 0,
            HistoryOcrState::Ready => 1,
        }
    }

    pub fn from_wire(b: u8) -> (s: Option<HistoryOcrState>)
        ensures
            match s {
                Some(state) => state.wire() == b,
                None => b > 1,
            },
    {
        if b == 0 {
            Some(HistoryOcrState::Unknown)
        } else if b == 1 {
            Some(HistoryOcrState::Ready)
        } else {
            None
        }
    }
}

/// One remembered export.
#[derive(Debug, Clone, PartialEq, Eq)]
pub struct HistoryEntry {
    pub image_id: ImageId,
    pub generation: AssetGeneration,
    pub created_at_ms: u64,
    /// Identity of the display the image was captured from.
    pub display: String,
    pub source_rect: PixelRect,
    /// Name of the PNG directly below the managed export directory.
    pub file_name: String,
    pub byte_len: u64,
    /// Digest of the PNG's bytes.
    pub digest: [u8; 32],
    pub ocr: HistoryOcrState,
    pub state: HistoryEntryState,
}

/// An entry as plain values.
pub struct HistoryEntryView {
    pub image_id: u64,
    pub generation: u64,
    pub created_at_ms: u64,
    pub display: Seq<char>,
    pub source_rect: PixelRect,
    pub file_name: Seq<char>,
    pub byte_len: u64,
    pub digest: Seq<u8>,
    pub ocr: HistoryOcrState,
    pub state: HistoryEntryState,
}

impl HistoryEntry {
    pub open spec fn view(&self) -> HistoryEntryView {
        HistoryEntryView {
            image_id: self.image_id.raw,
            generation: self.generation.raw,
            created_at_ms: self.created_at_ms,
            display: self.display@,
            source_rect: self.source_rect,
            file_name: self.file_name@,
            byte_len: self.byte_len,
            digest: self.digest@,
            ocr: self.ocr,
            state: self.state,
        }
    }

    pub open spec fn spec_is_active(&self) -> bool {
        self.state == HistoryEntryState::Active
    }

    pub fn is_active(&self) -> (b: bool)
        ensures
            b == self.spec_is_active(),
    {
        match self.state {
            HistoryEntryState::Active => true,
            HistoryEntryState::Tombstone => false,
        }
    }

    /// Checks the limits every stored entry obeys.
    pub fn validate(&self) -> (res: Result<(), String>)
        ensures
            res is Ok <==> valid_entry(self@),
    {
        proof {
            vstd::array::array_len_matches_n(&self.digest);
        }
        if self.generation.raw == 0 {
            return Err("history generation is invalid".to_string());
        }
        if self.display.as_str().as_bytes().len() > HISTORY_MAX_DISPLAY_BYTES {
            return Err("history display id is too long".to_string());
        }
        let name_len = self.file_name.as_str().as_bytes().len();
        if name_len == 0 {
            return Err("history file name is empty".to_string());
        }
        if name_len > HISTORY_MAX_FILE_NAME_BYTES {
            return Err("history file name is too long".to_string());
        }
        Ok(())
    }
}

/// The limits of a stored entry: a non-zero generation, a bounded display identity and a
/// non-empty, bounded file name (lengths in UTF-8 bytes).
pub open spec fn valid_entry(e: HistoryEntryView) -> bool {
    &&& e.generation != 0
    &&& encode_utf8(e.display).len() <= HISTORY_MAX_DISPLAY_BYTES
    &&& 0 < encode_utf8(e.file_name).len() <= HISTORY_MAX_FILE_NAME_BYTES
    &&& e.digest.len() == 32
}

} // verus!
