//! The local market gateway protocol: newline-delimited JSON frames, each
//! carrying a schema version and one normalized market event. Reading and
//! JSON decoding happen at the edge; this module decides what a line is and
//! whether a decoded frame is accepted.
use vstd::prelude::*;

use crate::market::{MarketAdapterError, NormalizedMarketEvent};
use crate::text::{blank_line, is_blank_line};

verus! {

pub const MARKET_GATEWAY_SCHEMA_VERSION: u16 = 1;

#[verifier::external_type_specification]
#[verifier::external_body]
pub struct ExIoError(std::io::Error);

#[verifier::external_type_specification]
#[verifier::external_body]
pub struct ExJsonError(serde_json::Error);

/// One wire frame.
#[derive(Debug)]
pub struct GatewayFrame {
    pub version: u16,
    pub event: NormalizedMarketEvent,
}

impl GatewayFrame {
    /// A frame of the current schema version.
    pub fn new(event: NormalizedMarketEvent) -> (r: Self)
        ensures
            r.version == MARKET_GATEWAY_SCHEMA_VERSION,
            r.event == event,
    {
        GatewayFrame { version: MARKET_GATEWAY_SCHEMA_VERSION, event }
    }
}

#[derive(Debug)]
pub enum GatewayError {
    Io(std::io::Error),
    Json(serde_json::Error),
    Version { expected: u16, received: u16 },
    Adapter(MarketAdapterError),
}

/// Accept a decoded frame of the current schema version and hand out its
/// event; any other version is refused.
pub fn check_frame(frame: GatewayFrame) -> (r: Result<NormalizedMarketEvent, GatewayError>)
    ensures
        r.is_ok() <==> frame.version == MARKET_GATEWAY_SCHEMA_VERSION,
        match r {
            Ok(e) => e == frame.event,
            Err(e) => e == (GatewayError::Version {
                expected: MARKET_GATEWAY_SCHEMA_VERSION,
                received: frame.version,
            }),
        },
{
    if frame.version != MARKET_GATEWAY_SCHEMA_VERSION {
        return Err(
            GatewayError::Version { expected: MARKET_GATEWAY_SCHEMA_VERSION, received: frame.version },
        );
    }
    Ok(frame.event)
}

/// What a line read from the gateway stream is.
#[derive(Debug, Clone, Copy, PartialEq, Eq, Structural)]
pub enum GatewayLine {
    /// Nothing was read: the stream ended.
    EndOfStream,
    /// A blank line, ignored.
    Skip,
    /// A line to decode as a frame.
    Frame,
}

pub fn classify_line(bytes_read: usize, line: &str) -> (r: GatewayLine)
    ensures
        r == if bytes_read == 0 {
            GatewayLine::EndOfStream
        } else if blank_line(line@) {
            GatewayLine::Skip
        } else {
            GatewayLine::Frame
        },
{
    if bytes_read == 0 {
        GatewayLine::EndOfStream
    } else if is_blank_line(line) {
        GatewayLine::Skip
    } else {
        GatewayLine::Frame
    }
}

/// Streaming decoder state for a gateway pipe, stream or file: the source
/// and a reusable line buffer.
pub struct JsonlGatewayReader<R> {
    reader: R,
    line: String,
}

impl<R> JsonlGatewayReader<R> {
    pub closed spec fn spec_reader(&self) -> R {
        self.reader
    }

    pub closed spec fn spec_line(&self) -> Seq<char> {
        self.line@
    }

    pub fn new(reader: R) -> (r: Self)
        ensures
            r.spec_reader() == reader,
            r.spec_line() == Seq::<char>::empty(),
    {
        JsonlGatewayReader { reader, line: String::new() }
    }

    /// The source and the line buffer, for the edge that reads.
    pub fn parts(&mut self) -> (r: (&mut R, &mut String))
        ensures
            *r.0 == old(self).spec_reader(),
            r.1@ == old(self).spec_line(),
            final(self).spec_reader() == *final(r.0),
            final(self).spec_line() == final(r.1)@,
    {
        (&mut self.reader, &mut self.line)
    }
}

} // verus!
