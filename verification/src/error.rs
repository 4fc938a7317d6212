use vstd::prelude::*;

verus! {

/// The flat error taxonomy of the conversion pipeline. Every failure is
/// terminal at the point raised: there is no local recovery or retry.
#[derive(Debug, PartialEq, Eq)]
pub enum ConvError {
    /// (user x, user y): a hotspot coordinate is above 256.
    HotspotOutOfMaxRange(u16, u16),
    /// (user x, user y, canvas width, canvas height): a hotspot coordinate
    /// exceeds the corresponding canvas dimension.
    HotspotOutOfGifRange(u16, u16, u16, u16),
    /// The given animation source path is missing or has the wrong extension.
    InvalidGifPath(String),
    /// The given destination path does not carry the cursor extension.
    InvalidAniExtension(String),
    /// The hotspot string could not be parsed as `x:y`.
    InvalidHotspotDefinition,
    /// The container serialization failed.
    FailedAniEncoding,
    /// The external still-image codec failed. Kept for the command surface;
    /// the verified pipeline never raises it, since the codec cannot fail on
    /// the rasters the frame encoder admits.
    FailedPngEncoding,
    /// The destination sink could not be opened.
    FailedFileCreation,
    /// The external animation decoder failed.
    DecodingError,
    /// Disposal or compositing failed (a delta that does not fit the canvas,
    /// or a pixel index outside the palette).
    GifDisposeError,
    /// The user declined an overwrite, or confirmation input was unreadable.
    UserInputError,
}

} // verus!
