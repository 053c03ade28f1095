use vstd::prelude::*;

use vstd::string::StringSliceAdditionalSpecFns;

use crate::error::Error;

verus! {

/// Container format of a JPEG 2000 stream.
#[derive(Debug, Clone, Copy, PartialEq, Eq, Structural)]
pub enum J2KFormat {
    /// Boxed container (JP2 file format).
    JP2,
    /// Raw codestream.
    J2K,
}

/// Signature that opens a boxed JP2 container.
pub open spec fn jp2_magic() -> Seq<u8> {
    seq![0x00u8, 0x00u8, 0x00u8, 0x0Cu8, 0x6Au8, 0x50u8, 0x20u8, 0x20u8, 0x0Du8, 0x0Au8, 0x87u8, 0x0Au8]
}

/// Marker pair (SOC, SIZ) that opens a raw codestream.
pub open spec fn j2k_magic() -> Seq<u8> {
    seq![0xFFu8, 0x4Fu8, 0xFFu8, 0x51u8]
}

pub open spec fn starts_with(buf: Seq<u8>, prefix: Seq<u8>) -> bool {
    prefix.len() <= buf.len() && buf.subrange(0, prefix.len() as int) == prefix
}

/// The format named by the leading bytes of a buffer, if any.
pub open spec fn format_of_bytes(buf: Seq<u8>) -> Option<J2KFormat> {
    if starts_with(buf, jp2_magic()) {
        Some(J2KFormat::JP2)
    } else if starts_with(buf, j2k_magic()) {
        Some(J2KFormat::J2K)
    } else {
        None
    }
}

/// The format named by a file extension (without the dot), if any.
pub open spec fn format_of_extension(ext: Seq<u8>) -> Option<J2KFormat> {
    if ext == seq![0x6Au8, 0x70u8, 0x32u8] {
        Some(J2KFormat::JP2)
    } else if ext == seq![0x6Au8, 0x32u8, 0x6Bu8] || ext == seq![0x6Au8, 0x32u8, 0x63u8] {
        Some(J2KFormat::J2K)
    } else {
        None
    }
}

/// Fewer than four bytes (a three-byte prefix of either signature, say)
/// name no format.
pub proof fn lemma_short_input_unknown(buf: Seq<u8>)
    requires
        buf.len() < 4,
    ensures
        format_of_bytes(buf) is None,
{
}

/// Detects the container format from the first bytes of `buf`.
pub fn j2k_detect_format(buf: &[u8]) -> (r: Result<J2KFormat, Error>)
    ensures
        match format_of_bytes(buf@) {
            Some(f) => r == Ok::<J2KFormat, Error>(f),
            None => r is Err && r->Err_0 is UnknownFormatError,
        },
{
    let n = buf.len();
    if n >= 12 && buf[0] == 0x00 && buf[1] == 0x00 && buf[2] == 0x00 && buf[3] == 0x0C
        && buf[4] == 0x6A && buf[5] == 0x50 && buf[6] == 0x20 && buf[7] == 0x20
        && buf[8] == 0x0D && buf[9] == 0x0A && buf[10] == 0x87 && buf[11] == 0x0A
    {
        assert(buf@.subrange(0, 12) =~= jp2_magic());
        return Ok(J2KFormat::JP2);
    }
    assert(!starts_with(buf@, jp2_magic())) by {
        if starts_with(buf@, jp2_magic()) {
            assert forall|k: int| 0 <= k < 12 implies #[trigger] buf@[k] == jp2_magic()[k] by {
                assert(buf@.subrange(0, 12)[k] == buf@[k]);
            }
        }
    }
    if n >= 4 && buf[0] == 0xFF && buf[1] == 0x4F && buf[2] == 0xFF && buf[3] == 0x51 {
        assert(buf@.subrange(0, 4) =~= j2k_magic());
        return Ok(J2KFormat::J2K);
    }
    assert(!starts_with(buf@, j2k_magic())) by {
        if starts_with(buf@, j2k_magic()) {
            assert forall|k: int| 0 <= k < 4 implies #[trigger] buf@[k] == j2k_magic()[k] by {
                assert(buf@.subrange(0, 4)[k] == buf@[k]);
            }
        }
    }
    Err(Error::UnknownFormatError("unrecognized magic bytes".to_owned()))
}

/// Detects the container format from a file extension given without its dot:
/// `jp2` names a boxed container, `j2k` and `j2c` a raw codestream.
pub fn j2k_detect_format_from_extension(ext: Option<&str>) -> (r: Result<J2KFormat, Error>)
    ensures
        match ext {
            Some(e) => match format_of_extension(e.spec_bytes()) {
                Some(f) => r == Ok::<J2KFormat, Error>(f),
                None => r is Err && r->Err_0 is UnknownFormatError,
            },
            None => r is Err && r->Err_0 is UnknownFormatError,
        },
{
    match ext {
        None => Err(Error::UnknownFormatError("missing file extension".to_owned())),
        Some(e) => {
            let b = e.as_bytes();
            if b.len() == 3 && b[0] == 0x6Au8 {
                if b[1] == 0x70u8 && b[2] == 0x32u8 {
                    assert(b@ =~= seq![0x6Au8, 0x70u8, 0x32u8]);
                    return Ok(J2KFormat::JP2);
                }
                if b[1] == 0x32u8 && (b[2] == 0x6Bu8 || b[2] == 0x63u8) {
                    assert(b@ =~= seq![0x6Au8, 0x32u8, 0x6Bu8] || b@ =~= seq![0x6Au8, 0x32u8, 0x63u8]);
                    return Ok(J2KFormat::J2K);
                }
            }
            assert(format_of_extension(b@) is None) by {
                if b@ == seq![0x6Au8, 0x70u8, 0x32u8] || b@ == seq![0x6Au8, 0x32u8, 0x6Bu8] || b@ == seq![0x6Au8, 0x32u8, 0x63u8] {
                    assert(b@.len() == 3);
                    assert(b@[0] == 0x6Au8);
                }
            }
            Err(Error::UnknownFormatError("unrecognized file extension".to_owned()))
        },
    }
}

} // verus!
