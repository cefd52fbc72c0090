use vstd::prelude::*;

verus! {

/// The error taxonomy of the container pipeline.
///
/// Every validation failure anywhere in sniffing, classification or decoding
/// is a typed, recoverable value of this kind; the verified functions of this
/// crate never panic. The first failure aborts the whole decode and is handed
/// to the caller verbatim: no partial output, no silent recovery.
#[derive(Debug, Clone, Copy, PartialEq, Eq, Structural)]
pub enum DcxError {
    /// The buffer does not begin with either container magic.
    NotAContainer,
    /// Classification exhausted every known header shape.
    UnknownContainerFormat,
    /// A fixed header field does not hold one of its permitted values.
    FieldValidation,
    /// A read would reach past the end of the buffer, or a declared size
    /// cannot describe a span inside it.
    OutOfBounds,
    /// The declared chunk table size disagrees with the chunk count.
    ChunkTableSizeMismatch,
    /// The trailing-chunk-size field of a chunked container disagrees with
    /// the declared uncompressed size.
    UnexpectedTrailingChunkSize,
    /// The outer chunk-region-size field disagrees with the chunk count.
    UnexpectedChunkRegionSize,
    /// The underlying inflate call reported a corrupt stream.
    ChecksumOrStream,
    /// No native Kraken backend is discoverable in the host environment.
    CodecUnavailable,
    /// The position stack of a reader was popped while empty.
    CursorStackUnderflow,
}

/// The executable result `r` carries exactly the outcome `s`: the same
/// success or the same error, with the returned bytes viewed as a sequence.
pub open spec fn matches_bytes(r: Result<Vec<u8>, DcxError>, s: Result<Seq<u8>, DcxError>) -> bool {
    &&& r is Ok <==> s is Ok
    &&& r is Ok ==> r.unwrap()@ == s.unwrap()
    &&& r is Err ==> r->Err_0 == s->Err_0
}

} // verus!
