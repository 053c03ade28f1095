use vstd::prelude::*;

use crate::codec::{DecodeArea, DecodeParameters};
use crate::error::Error;

verus! {

/// Where a decode session stands.
#[derive(Debug, Clone, Copy, PartialEq, Eq, Structural)]
pub enum DecodeStage {
    CreateCodec,
    Setup,
    ReadHeader,
    SetDecodeArea,
    Decode,
    Done,
    Failed,
}

/// The codec call a decode session asks for next.
#[derive(Debug, Clone, Copy, PartialEq, Eq, Structural)]
pub enum DecodeAction {
    /// Create a decompressor for the detected format.
    CreateCodec,
    /// Hand the decode parameters and the strict flag to the codec.
    Setup,
    /// Read the header into a raster with unpopulated samples.
    ReadHeader,
    /// Restrict decoding to this area.
    SetDecodeArea(DecodeArea),
    /// Decode the samples and end decompression, as one step.
    Decode,
    /// Nothing is left to do.
    Stop,
}

/// The stage that follows `stage` once its call reports `ok`; for the header
/// read, `has_image` tells whether the codec produced a raster at all.
pub open spec fn next_decode_stage(
    stage: DecodeStage,
    has_area: bool,
    ok: bool,
    has_image: bool,
) -> DecodeStage {
    match stage {
        DecodeStage::CreateCodec => if ok { DecodeStage::Setup } else { DecodeStage::Failed },
        DecodeStage::Setup => if ok { DecodeStage::ReadHeader } else { DecodeStage::Failed },
        DecodeStage::ReadHeader => if has_image && ok {
            if has_area { DecodeStage::SetDecodeArea } else { DecodeStage::Decode }
        } else {
            DecodeStage::Failed
        },
        DecodeStage::SetDecodeArea => if ok { DecodeStage::Decode } else { DecodeStage::Failed },
        DecodeStage::Decode => if ok { DecodeStage::Done } else { DecodeStage::Failed },
        _ => stage,
    }
}

/// Drives one decode: codec creation, setup, header read, the optional
/// decode area, then decoding. The caller performs each action and reports
/// how it went; every failure ends the session with a typed error.
pub struct DecodeSession {
    stage: DecodeStage,
    area: Option<DecodeArea>,
}

impl View for DecodeSession {
    type V = (DecodeStage, Option<DecodeArea>);

    closed spec fn view(&self) -> (DecodeStage, Option<DecodeArea>) {
        (self.stage, self.area)
    }
}

impl DecodeSession {
    /// A session that starts by creating the codec.
    pub fn new(params: &DecodeParameters) -> (r: Self)
        ensures
            r@ == (DecodeStage::CreateCodec, params@.area),
    {
        DecodeSession { stage: DecodeStage::CreateCodec, area: params.area() }
    }

    pub fn stage(&self) -> (r: DecodeStage)
        ensures
            r == self@.0,
    {
        self.stage
    }

    /// The call to make next.
    pub fn next_action(&self) -> (r: DecodeAction)
        ensures
            r == match self@.0 {
                DecodeStage::CreateCodec => DecodeAction::CreateCodec,
                DecodeStage::Setup => DecodeAction::Setup,
                DecodeStage::ReadHeader => DecodeAction::ReadHeader,
                DecodeStage::SetDecodeArea => match self@.1 {
                    Some(a) => DecodeAction::SetDecodeArea(a),
                    None => DecodeAction::Decode,
                },
                DecodeStage::Decode => DecodeAction::Decode,
                _ => DecodeAction::Stop,
            },
    {
        match self.stage {
            DecodeStage::CreateCodec => DecodeAction::CreateCodec,
            DecodeStage::Setup => DecodeAction::Setup,
            DecodeStage::ReadHeader => DecodeAction::ReadHeader,
            DecodeStage::SetDecodeArea => match self.area {
                Some(a) => DecodeAction::SetDecodeArea(a),
                None => DecodeAction::Decode,
            },
            DecodeStage::Decode => DecodeAction::Decode,
            _ => DecodeAction::Stop,
        }
    }

    /// Records how the last action went: `ok` is its status, `has_image`
    /// whether the header read yielded a raster (ignored otherwise).
    /// A missing raster is a `NullPointerError` whatever the status; a failed
    /// codec creation, setup or area is a `CreateCodecError`; a failed header
    /// read or decode is a `CodecError`.
    pub fn record(&mut self, ok: bool, has_image: bool) -> (r: Result<(), Error>)
        requires
            old(self)@.0 != DecodeStage::Done,
            old(self)@.0 != DecodeStage::Failed,
        ensures
            final(self)@.1 == old(self)@.1,
            final(self)@.0 == next_decode_stage(old(self)@.0, old(self)@.1 is Some, ok, has_image),
            r is Ok <==> final(self)@.0 != DecodeStage::Failed,
            r matches Err(e) ==> match old(self)@.0 {
                DecodeStage::ReadHeader => if has_image {
                    e is CodecError
                } else {
                    e is NullPointerError
                },
                DecodeStage::Decode => e is CodecError,
                _ => e is CreateCodecError,
            },
    {
        match self.stage {
            DecodeStage::CreateCodec => {
                if ok {
                    self.stage = DecodeStage::Setup;
                    Ok(())
                } else {
                    self.stage = DecodeStage::Failed;
                    Err(Error::CreateCodecError("codec not supported".to_owned()))
                }
            },
            DecodeStage::Setup => {
                if ok {
                    self.stage = DecodeStage::ReadHeader;
                    Ok(())
                } else {
                    self.stage = DecodeStage::Failed;
                    Err(Error::CreateCodecError("failed to set up decoder with parameters".to_owned()))
                }
            },
            DecodeStage::ReadHeader => {
                if !has_image {
                    self.stage = DecodeStage::Failed;
                    Err(Error::NullPointerError("header read yielded no image".to_owned()))
                } else if ok {
                    self.stage = if self.area.is_some() {
                        DecodeStage::SetDecodeArea
                    } else {
                        DecodeStage::Decode
                    };
                    Ok(())
                } else {
                    self.stage = DecodeStage::Failed;
                    Err(Error::CodecError("failed to read header".to_owned()))
                }
            },
            DecodeStage::SetDecodeArea => {
                if ok {
                    self.stage = DecodeStage::Decode;
                    Ok(())
                } else {
                    self.stage = DecodeStage::Failed;
                    Err(Error::CreateCodecError("failed to set decode area".to_owned()))
                }
            },
            _ => {
                if ok {
                    self.stage = DecodeStage::Done;
                    Ok(())
                } else {
                    self.stage = DecodeStage::Failed;
                    Err(Error::CodecError("failed to decode image".to_owned()))
                }
            },
        }
    }
}

/// Where an encode session stands.
#[derive(Debug, Clone, Copy, PartialEq, Eq, Structural)]
pub enum EncodeStage {
    CreateCodec,
    Setup,
    Encode,
    Done,
    Failed,
}

/// Drives one encode: codec creation, setup from the prepared raster, then
/// start, encode and end of compression as one step.
pub struct EncodeSession {
    stage: EncodeStage,
}

impl View for EncodeSession {
    type V = EncodeStage;

    closed spec fn view(&self) -> EncodeStage {
        self.stage
    }
}

impl EncodeSession {
    pub fn new() -> (r: Self)
        ensures
            r@ == EncodeStage::CreateCodec,
    {
        EncodeSession { stage: EncodeStage::CreateCodec }
    }

    pub fn stage(&self) -> (r: EncodeStage)
        ensures
            r == self@,
    {
        self.stage
    }

    /// Records the status of the current step. A failed codec creation or
    /// setup is a `CreateCodecError`, a failed encode a `CodecError`.
    pub fn record(&mut self, ok: bool) -> (r: Result<(), Error>)
        requires
            old(self)@ != EncodeStage::Done,
            old(self)@ != EncodeStage::Failed,
        ensures
            final(self)@ == (if !ok {
                EncodeStage::Failed
            } else {
                match old(self)@ {
                    EncodeStage::CreateCodec => EncodeStage::Setup,
                    EncodeStage::Setup => EncodeStage::Encode,
                    _ => EncodeStage::Done,
                }
            }),
            r is Ok <==> ok,
            r matches Err(e) ==> if old(self)@ == EncodeStage::Encode {
                e is CodecError
            } else {
                e is CreateCodecError
            },
    {
        if !ok {
            let err = match self.stage {
                EncodeStage::Encode => Error::CodecError("failed to encode image".to_owned()),
                EncodeStage::Setup => Error::CreateCodecError(
                    "failed to set up encoder with parameters".to_owned(),
                ),
                _ => Error::CreateCodecError("codec not supported".to_owned()),
            };
            self.stage = EncodeStage::Failed;
            return Err(err);
        }
        self.stage = match self.stage {
            EncodeStage::CreateCodec => EncodeStage::Setup,
            EncodeStage::Setup => EncodeStage::Encode,
            _ => EncodeStage::Done,
        };
        Ok(())
    }
}

} // verus!
