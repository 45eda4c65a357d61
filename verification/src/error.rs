//! The closed set of failures of the cubemap pipeline. Failures of the
//! caller-side loading step (a missing file, a decode failure) are the
//! caller's concern and do not appear here.

use vstd::prelude::*;

verus! {

/// Why cubemap construction failed.
#[derive(Debug, Clone, Copy, PartialEq, Eq, Structural)]
pub enum ImageError {
    /// No colour took a strong majority of the background sample points.
    BackgroundNotDetermined,
    /// A directional scan ran off the image without leaving the background.
    NetNotFound,
    /// Independent measurements of the net disagree beyond tolerance.
    NotAligned,
    /// A face crop would fall outside the source image.
    CopyError,
}

} // verus!
