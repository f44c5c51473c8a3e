use vstd::prelude::*;

verus! {

/// Tag byte of a packet; the values are fixed by the firmware.
#[derive(Clone, Copy, Debug, PartialEq, Eq, Structural)]
pub enum DataType {
    Time,
    Volume,
    Layout,
    MediaArtist,
    MediaTitle,
    RelayFromDevice,
    RelayToDevice,
}

pub const TIME_TAG: u8 = 0xAA;

pub const VOLUME_TAG: u8 = 0xAB;

pub const LAYOUT_TAG: u8 = 0xAC;

pub const MEDIA_ARTIST_TAG: u8 = 0xAD;

pub const MEDIA_TITLE_TAG: u8 = 0xAE;

pub const RELAY_FROM_DEVICE_TAG: u8 = 0xCC;

pub const RELAY_TO_DEVICE_TAG: u8 = 0xCD;

impl DataType {
    pub open spec fn spec_tag(self) -> u8 {
        match self {
            DataType::Time => TIME_TAG,
            DataType::Volume => VOLUME_TAG,
            DataType::Layout => LAYOUT_TAG,
            DataType::MediaArtist => MEDIA_ARTIST_TAG,
            DataType::MediaTitle => MEDIA_TITLE_TAG,
            DataType::RelayFromDevice => RELAY_FROM_DEVICE_TAG,
            DataType::RelayToDevice => RELAY_TO_DEVICE_TAG,
        }
    }

    /// The byte that identifies this kind of packet on the wire.
    #[verifier::when_used_as_spec(spec_tag)]
    pub fn tag(self) -> (r: u8)
        ensures
            r == self.spec_tag(),
    {
        match self {
            DataType::Time => TIME_TAG,
            DataType::Volume => VOLUME_TAG,
            DataType::Layout => LAYOUT_TAG,
            DataType::MediaArtist => MEDIA_ARTIST_TAG,
            DataType::MediaTitle => MEDIA_TITLE_TAG,
            DataType::RelayFromDevice => RELAY_FROM_DEVICE_TAG,
            DataType::RelayToDevice => RELAY_TO_DEVICE_TAG,
        }
    }
}

} // verus!
