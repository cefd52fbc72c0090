use vstd::prelude::*;

use crate::error::DcxError;

verus! {

/// The revisions of the native Kraken codec library the pipeline can drive.
#[derive(Debug, Clone, Copy, PartialEq, Eq, Structural)]
pub enum CodecRevision {
    Six,
    Eight,
}

/// The revision the discovery policy selects for a requested compression
/// level, given which revisions are present in the host environment.
///
/// Revision 8 is preferred for level 9 and revision 6 for every other level,
/// each falling back to the other revision when the preferred one is absent;
/// the selection fails only when neither revision is present.
pub open spec fn select_codec(level: int, six: bool, eight: bool) -> Result<
    CodecRevision,
    DcxError,
> {
    if level == 9 {
        if eight {
            Ok(CodecRevision::Eight)
        } else if six {
            Ok(CodecRevision::Six)
        } else {
            Err(DcxError::CodecUnavailable)
        }
    } else {
        if six {
            Ok(CodecRevision::Six)
        } else if eight {
            Ok(CodecRevision::Eight)
        } else {
            Err(DcxError::CodecUnavailable)
        }
    }
}

/// The capability the host process supplies for the proprietary Kraken
/// codec: which native revisions are discoverable, and the foreign
/// decompression entry point itself.
///
/// The pipeline depends only on this behavioural interface. Probing, caching
/// and loading the native libraries is the host's business, and a test suite
/// may substitute any implementation.
pub trait OodleCompressor {
    /// Whether codec revision 6 is discoverable.
    spec fn oodle6_available(&self) -> bool;

    /// Whether codec revision 8 is discoverable.
    spec fn oodle8_available(&self) -> bool;

    fn can_use_oodle6(&self) -> (r: bool)
        ensures
            r == self.oodle6_available(),
    ;

    fn can_use_oodle8(&self) -> (r: bool)
        ensures
            r == self.oodle8_available(),
    ;

    /// Hands `source` to the named native codec revision, expecting exactly
    /// `uncompressed_size` bytes of raw data back. Whether the call succeeds
    /// and what bytes come back is the host codec's business; the host owes
    /// only that a successful answer has the declared raw length.
    fn decompress(&mut self, revision: CodecRevision, source: &[u8], uncompressed_size: usize) -> (r:
        Result<Vec<u8>, DcxError>)
        ensures
            r is Ok ==> r.unwrap()@.len() == uncompressed_size,
    ;
}

/// The discovery policy for the native Kraken codec.
pub struct Oodle {}

impl Oodle {
    /// Selects which discoverable codec revision serves a requested
    /// compression level, or reports that none does.
    pub fn get_oodle_compressor(compression_level: i32, six: bool, eight: bool) -> (r: Result<
        CodecRevision,
        DcxError,
    >)
        ensures
            r == select_codec(compression_level as int, six, eight),
    {
        if compression_level == 9 {
            if eight {
                Ok(CodecRevision::Eight)
            } else if six {
                Ok(CodecRevision::Six)
            } else {
                Err(DcxError::CodecUnavailable)
            }
        } else {
            if six {
                Ok(CodecRevision::Six)
            } else if eight {
                Ok(CodecRevision::Eight)
            } else {
                Err(DcxError::CodecUnavailable)
            }
        }
    }
}

/// The selection succeeds exactly when some revision is present: for every
/// requested level, a revision is chosen if and only if one is discoverable.
pub proof fn lemma_codec_selected_iff_present(level: int, six: bool, eight: bool)
    ensures
        select_codec(level, six, eight) is Ok <==> (six || eight),
{
}

/// When no native backend is present, no codec revision is ever selected,
/// whatever level is requested: a Kraken-tagged payload then fails with
/// `CodecUnavailable`, and keeps failing on every retry until a revision
/// becomes discoverable.
pub proof fn lemma_no_backend_no_codec(level: int)
    ensures
        select_codec(level, false, false) == Err::<CodecRevision, DcxError>(
            DcxError::CodecUnavailable,
        ),
{
}

} // verus!
