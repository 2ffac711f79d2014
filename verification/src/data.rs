//! Media and metadata values handed to the downstream consumer.

use vstd::prelude::*;

verus! {

/// Whether a media payload carries video or audio.
#[derive(Clone, Copy, Debug, PartialEq, Eq, Structural)]
pub enum MediaType {
    Video,
    Audio,
}

/// The stream properties a publisher advertises and the downstream pipeline
/// consumes: resolution, frame rate (whole frames per second), audio channel
/// count and sample rate. Fields a publisher did not advertise are `None`.
#[derive(Clone, Copy, Debug)]
pub struct MetaInfo {
    pub video_width: Option<u32>,
    pub video_height: Option<u32>,
    pub video_frame_rate: Option<u32>,
    pub audio_channels: Option<u32>,
    pub audio_sample_rate: Option<u32>,
}

/// One decoded media payload addressed to the downstream consumer.
/// `can_be_dropped` only advises the consumer under backpressure; it never
/// changes how the dispatcher behaves.
pub struct Media {
    pub media_type: MediaType,
    pub data: Vec<u8>,
    pub timestamp: u32,
    pub can_be_dropped: bool,
}

/// Mathematical model of one media payload.
pub struct MediaModel {
    pub media_type: MediaType,
    pub data: Seq<u8>,
    pub timestamp: u32,
    pub can_be_dropped: bool,
}

impl View for Media {
    type V = MediaModel;

    open spec fn view(&self) -> MediaModel {
        MediaModel {
            media_type: self.media_type,
            data: self.data@,
            timestamp: self.timestamp,
            can_be_dropped: self.can_be_dropped,
        }
    }
}

/// One item delivered on the media channel: a media payload or the stream's
/// metadata. Immutable once sent; owned by the consumer thereafter.
pub enum RtmpInput {
    Media(Media),
    Metadata(MetaInfo),
}

/// Mathematical model of one media-channel item.
pub enum InputModel {
    Media(MediaModel),
    Metadata(MetaInfo),
}

impl View for RtmpInput {
    type V = InputModel;

    open spec fn view(&self) -> InputModel {
        match self {
            RtmpInput::Media(m) => InputModel::Media(m@),
            RtmpInput::Metadata(i) => InputModel::Metadata(*i),
        }
    }
}

} // verus!
