//! The records that the reader hands out, and the errors it reports.

use super::interner::InternError;
use vstd::prelude::*;

verus! {

/// Why a record could not be decoded.
#[derive(Clone, Debug)]
pub enum ProtocolError {
    /// An identifier of the record could not be interned. A string is
    /// interned whatever its text, so a record is refused with this only
    /// when it brings a new text and every identifier has been handed out.
    IDParse(InternError),
    /// The record is not JSON of the expected shape; the text says why.
    JSONParse(String),
    /// The record is of a kind that this reader knows and does not decode.
    Other(String),
}

/// A `ProtocolError` with its texts as sequences of characters.
pub enum ProtocolErrorView {
    IDParse(InternError),
    JSONParse(Seq<char>),
    Other(Seq<char>),
}

impl View for ProtocolError {
    type V = ProtocolErrorView;

    open spec fn view(&self) -> ProtocolErrorView {
        match self {
            ProtocolError::IDParse(e) => ProtocolErrorView::IDParse(*e),
            ProtocolError::JSONParse(m) => ProtocolErrorView::JSONParse(m@),
            ProtocolError::Other(m) => ProtocolErrorView::Other(m@),
        }
    }
}

/// One record of the input: a vertex or an edge of the graph.
#[derive(Clone, Debug)]
pub struct Element {
    /// The record's identifier, interned.
    pub id: u64,
    /// `"vertex"` or `"edge"`, as the record gives it.
    pub el_type: String,
    /// The record's label, as the record gives it.
    pub label: String,
    /// What the record carries; nothing for a vertex whose label is unknown.
    pub payload: Option<Payload>,
}

/// What a record carries, by the kind of record.
#[derive(Clone, Debug)]
pub enum Payload {
    Edge(Edge),
    MetaData(MetaData),
    Range(Range),
    Document(Document),
    ResultSet(ResultSet),
    Moniker(Moniker),
    PackageInformation(PackageInformation),
    Diagnostics(Vec<Diagnostic>),
}

/// An edge: from one vertex to one or several others. An identifier that the
/// record leaves out is 0.
#[derive(Clone, Debug)]
pub struct Edge {
    pub out_v: u64,
    pub in_v: u64,
    pub in_vs: Vec<u64>,
    pub document: u64,
}

#[derive(Clone, Debug)]
pub struct MetaData {
    pub version: String,
    pub project_root: String,
}

/// A range of a document, both ends as line and character.
#[derive(Clone, Copy, Debug, PartialEq, Eq, Structural)]
pub struct Range {
    pub start_line: u32,
    pub start_character: u32,
    pub end_line: u32,
    pub end_character: u32,
}

/// A document, named by its normalised URI.
#[derive(Clone, Debug)]
pub struct Document {
    pub uri: String,
}

#[derive(Clone, Copy, Debug, PartialEq, Eq, Structural)]
pub struct ResultSet {}

#[derive(Clone, Debug)]
pub struct Moniker {
    pub kind: String,
    pub scheme: String,
    pub identifier: String,
}

#[derive(Clone, Debug)]
pub struct PackageInformation {
    pub name: String,
    pub version: String,
}

#[derive(Clone, Debug)]
pub struct Diagnostic {
    pub severity: u64,
    pub code: String,
    pub message: String,
    pub source: String,
    pub start_line: u64,
    pub start_character: u64,
    pub end_line: u64,
    pub end_character: u64,
}

pub struct EdgeView {
    pub out_v: u64,
    pub in_v: u64,
    pub in_vs: Seq<u64>,
    pub document: u64,
}

impl View for Edge {
    type V = EdgeView;

    open spec fn view(&self) -> EdgeView {
        EdgeView {
            out_v: self.out_v,
            in_v: self.in_v,
            in_vs: self.in_vs@,
            document: self.document,
        }
    }
}

pub struct MetaDataView {
    pub version: Seq<char>,
    pub project_root: Seq<char>,
}

impl View for MetaData {
    type V = MetaDataView;

    open spec fn view(&self) -> MetaDataView {
        MetaDataView { version: self.version@, project_root: self.project_root@ }
    }
}

pub struct MonikerView {
    pub kind: Seq<char>,
    pub scheme: Seq<char>,
    pub identifier: Seq<char>,
}

impl View for Moniker {
    type V = MonikerView;

    open spec fn view(&self) -> MonikerView {
        MonikerView { kind: self.kind@, scheme: self.scheme@, identifier: self.identifier@ }
    }
}

pub struct PackageInformationView {
    pub name: Seq<char>,
    pub version: Seq<char>,
}

impl View for PackageInformation {
    type V = PackageInformationView;

    open spec fn view(&self) -> PackageInformationView {
        PackageInformationView { name: self.name@, version: self.version@ }
    }
}

pub struct DiagnosticView {
    pub severity: u64,
    pub code: Seq<char>,
    pub message: Seq<char>,
    pub source: Seq<char>,
    pub start_line: u64,
    pub start_character: u64,
    pub end_line: u64,
    pub end_character: u64,
}

impl View for Diagnostic {
    type V = DiagnosticView;

    open spec fn view(&self) -> DiagnosticView {
        DiagnosticView {
            severity: self.severity,
            code: self.code@,
            message: self.message@,
            source: self.source@,
            start_line: self.start_line,
            start_character: self.start_character,
            end_line: self.end_line,
            end_character: self.end_character,
        }
    }
}

pub enum PayloadView {
    Edge(EdgeView),
    MetaData(MetaDataView),
    Range(Range),
    Document(Seq<char>),
    ResultSet,
    Moniker(MonikerView),
    PackageInformation(PackageInformationView),
    Diagnostics(Seq<DiagnosticView>),
}

impl View for Payload {
    type V = PayloadView;

    open spec fn view(&self) -> PayloadView {
        match self {
            Payload::Edge(e) => PayloadView::Edge(e@),
            Payload::MetaData(m) => PayloadView::MetaData(m@),
            Payload::Range(r) => PayloadView::Range(*r),
            Payload::Document(d) => PayloadView::Document(d.uri@),
            Payload::ResultSet(_) => PayloadView::ResultSet,
            Payload::Moniker(m) => PayloadView::Moniker(m@),
            Payload::PackageInformation(p) => PayloadView::PackageInformation(p@),
            Payload::Diagnostics(ds) => PayloadView::Diagnostics(
                ds@.map_values(|d: Diagnostic| d@),
            ),
        }
    }
}

pub struct ElementView {
    pub id: u64,
    pub el_type: Seq<char>,
    pub label: Seq<char>,
    pub payload: Option<PayloadView>,
}

impl View for Element {
    type V = ElementView;

    open spec fn view(&self) -> ElementView {
        ElementView {
            id: self.id,
            el_type: self.el_type@,
            label: self.label@,
            payload: match self.payload {
                Some(p) => Some(p@),
                None => None,
            },
        }
    }
}

/// The outcome of decoding one record, as a mathematical value.
pub open spec fn outcome_view(r: Result<Element, ProtocolError>) -> Result<
    ElementView,
    ProtocolErrorView,
> {
    match r {
        Ok(e) => Ok(e@),
        Err(e) => Err(e@),
    }
}

/// The outcome of decoding what a record carries, as a mathematical value.
pub open spec fn payload_view(r: Result<Payload, ProtocolError>) -> Result<
    PayloadView,
    ProtocolErrorView,
> {
    match r {
        Ok(p) => Ok(p@),
        Err(e) => Err(e@),
    }
}

} // verus!
