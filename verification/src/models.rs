//! The target schema: the four telemetry record kinds and the envelope
//! that wraps exactly one of them for delivery.

use vstd::prelude::*;
use crate::convert::{Property, PropV, props_view};

verus! {

/// Defines the level of severity for an event.
#[derive(Clone, Copy, PartialEq, Eq, Structural, Debug)]
pub enum SeverityLevel {
    Verbose,
    Information,
    Warning,
    Error,
    Critical,
}

impl SeverityLevel {
    /// The level's name on the wire.
    pub fn wire_name(&self) -> (r: &'static str)
        ensures
            r@ == match self {
                SeverityLevel::Verbose => "Verbose"@,
                SeverityLevel::Information => "Information"@,
                SeverityLevel::Warning => "Warning"@,
                SeverityLevel::Error => "Error"@,
                SeverityLevel::Critical => "Critical"@,
            },
    {
        match self {
            SeverityLevel::Verbose => "Verbose",
            SeverityLevel::Information => "Information",
            SeverityLevel::Warning => "Warning",
            SeverityLevel::Error => "Error",
            SeverityLevel::Critical => "Critical",
        }
    }
}

/// A Request record: what a Server- or Consumer-kind span becomes.
pub struct RequestData {
    pub ver: u32,
    pub id: String,
    pub name: Option<String>,
    pub duration: String,
    pub response_code: String,
    pub success: bool,
    pub source: Option<String>,
    pub url: Option<String>,
    pub properties: Option<Vec<Property>>,
}

/// Mathematical model of a [`RequestData`].
pub struct RequestDataV {
    pub ver: u32,
    pub id: Seq<char>,
    pub name: Option<Seq<char>>,
    pub duration: Seq<char>,
    pub response_code: Seq<char>,
    pub success: bool,
    pub source: Option<Seq<char>>,
    pub url: Option<Seq<char>>,
    pub properties: Option<Seq<PropV>>,
}

/// The model of an optional string.
pub open spec fn opt_view(s: Option<String>) -> Option<Seq<char>> {
    match s {
        Some(s) => Some(s@),
        None => None,
    }
}

/// The model of an optional property list.
pub open spec fn opt_props_view(ps: Option<Vec<Property>>) -> Option<Seq<PropV>> {
    match ps {
        Some(ps) => Some(props_view(ps@)),
        None => None,
    }
}

impl View for RequestData {
    type V = RequestDataV;

    open spec fn view(&self) -> RequestDataV {
        RequestDataV {
            ver: self.ver,
            id: self.id@,
            name: opt_view(self.name),
            duration: self.duration@,
            response_code: self.response_code@,
            success: self.success,
            source: opt_view(self.source),
            url: opt_view(self.url),
            properties: opt_props_view(self.properties),
        }
    }
}

/// A RemoteDependency record: what a Client-, Producer- or Internal-kind
/// span becomes.
pub struct RemoteDependencyData {
    pub ver: u32,
    pub id: Option<String>,
    pub name: String,
    pub duration: String,
    pub result_code: Option<String>,
    pub success: Option<bool>,
    pub data: Option<String>,
    pub target: Option<String>,
    pub type_: Option<String>,
    pub properties: Option<Vec<Property>>,
}

/// Mathematical model of a [`RemoteDependencyData`].
pub struct RemoteDependencyDataV {
    pub ver: u32,
    pub id: Option<Seq<char>>,
    pub name: Seq<char>,
    pub duration: Seq<char>,
    pub result_code: Option<Seq<char>>,
    pub success: Option<bool>,
    pub data: Option<Seq<char>>,
    pub target: Option<Seq<char>>,
    pub type_: Option<Seq<char>>,
    pub properties: Option<Seq<PropV>>,
}

impl View for RemoteDependencyData {
    type V = RemoteDependencyDataV;

    open spec fn view(&self) -> RemoteDependencyDataV {
        RemoteDependencyDataV {
            ver: self.ver,
            id: opt_view(self.id),
            name: self.name@,
            duration: self.duration@,
            result_code: opt_view(self.result_code),
            success: self.success,
            data: opt_view(self.data),
            target: opt_view(self.target),
            type_: opt_view(self.type_),
            properties: opt_props_view(self.properties),
        }
    }
}

/// One exception inside an Exception record.
pub struct ExceptionDetails {
    pub type_: String,
    pub message: String,
    pub stack: Option<String>,
}

/// Mathematical model of an [`ExceptionDetails`].
pub struct ExceptionDetailsV {
    pub type_: Seq<char>,
    pub message: Seq<char>,
    pub stack: Option<Seq<char>>,
}

impl View for ExceptionDetails {
    type V = ExceptionDetailsV;

    open spec fn view(&self) -> ExceptionDetailsV {
        ExceptionDetailsV {
            type_: self.type_@,
            message: self.message@,
            stack: opt_view(self.stack),
        }
    }
}

/// An Exception record: what an event named `exception` becomes.
pub struct ExceptionData {
    pub ver: u32,
    pub exceptions: Vec<ExceptionDetails>,
    pub properties: Option<Vec<Property>>,
}

/// Mathematical model of an [`ExceptionData`].
pub struct ExceptionDataV {
    pub ver: u32,
    pub exceptions: Seq<ExceptionDetailsV>,
    pub properties: Option<Seq<PropV>>,
}

impl View for ExceptionData {
    type V = ExceptionDataV;

    open spec fn view(&self) -> ExceptionDataV {
        ExceptionDataV {
            ver: self.ver,
            exceptions: Seq::new(self.exceptions@.len(), |i: int| self.exceptions@[i]@),
            properties: opt_props_view(self.properties),
        }
    }
}

/// A Message record: what every other event becomes.
pub struct MessageData {
    pub ver: u32,
    pub message: String,
    pub properties: Option<Vec<Property>>,
}

/// Mathematical model of a [`MessageData`].
pub struct MessageDataV {
    pub ver: u32,
    pub message: Seq<char>,
    pub properties: Option<Seq<PropV>>,
}

impl View for MessageData {
    type V = MessageDataV;

    open spec fn view(&self) -> MessageDataV {
        MessageDataV {
            ver: self.ver,
            message: self.message@,
            properties: opt_props_view(self.properties),
        }
    }
}

/// Exactly one telemetry record, tagged with its kind.
pub enum Data {
    Request(RequestData),
    RemoteDependency(RemoteDependencyData),
    Exception(ExceptionData),
    Message(MessageData),
}

/// Mathematical model of a [`Data`].
pub enum DataV {
    Request(RequestDataV),
    RemoteDependency(RemoteDependencyDataV),
    Exception(ExceptionDataV),
    Message(MessageDataV),
}

impl View for Data {
    type V = DataV;

    open spec fn view(&self) -> DataV {
        match self {
            Data::Request(d) => DataV::Request(d@),
            Data::RemoteDependency(d) => DataV::RemoteDependency(d@),
            Data::Exception(d) => DataV::Exception(d@),
            Data::Message(d) => DataV::Message(d@),
        }
    }
}

/// The telemetry-kind name an envelope carries for each record kind.
pub open spec fn spec_kind_name(d: DataV) -> Seq<char> {
    match d {
        DataV::Request(_) => "Microsoft.ApplicationInsights.Request"@,
        DataV::RemoteDependency(_) => "Microsoft.ApplicationInsights.RemoteDependency"@,
        DataV::Exception(_) => "Microsoft.ApplicationInsights.Exception"@,
        DataV::Message(_) => "Microsoft.ApplicationInsights.Message"@,
    }
}

/// The outer delivery unit: routing metadata and one telemetry record.
pub struct Envelope {
    /// The telemetry-kind name; always consistent with the record variant.
    pub name: String,
    /// ISO-8601 timestamp of the wrapped record's own instant.
    pub time: String,
    /// Sampling percentage, 0 to 100.
    pub sample_rate: u32,
    /// The routing (instrumentation) key.
    pub i_key: String,
    /// Context tags.
    pub tags: Vec<Property>,
    /// The wrapped record.
    pub data: Data,
}

/// Mathematical model of an [`Envelope`].
pub struct EnvelopeV {
    pub name: Seq<char>,
    pub time: Seq<char>,
    pub sample_rate: u32,
    pub i_key: Seq<char>,
    pub tags: Seq<PropV>,
    pub data: DataV,
}

impl View for Envelope {
    type V = EnvelopeV;

    open spec fn view(&self) -> EnvelopeV {
        EnvelopeV {
            name: self.name@,
            time: self.time@,
            sample_rate: self.sample_rate,
            i_key: self.i_key@,
            tags: props_view(self.tags@),
            data: self.data@,
        }
    }
}

} // verus!
