//! The records of a dump as an indexer writes them: each vertex and edge of
//! the graph with its constructor.

use crate::reader::json::{parse_uri, uri_text};
use vstd::pervasive::unreached;
use vstd::prelude::*;

verus! {

/// What every record of a dump has: its identifier, and whether it is a
/// vertex or an edge.
#[derive(Clone, Debug)]
pub struct Element {
    pub id: u64,
    pub el_type: ElementType,
}

#[derive(Clone, Copy, Debug, PartialEq, Eq, Structural)]
pub enum ElementType {
    Vertex,
    Edge,
}

#[derive(Clone, Debug)]
pub struct Vertex {
    pub el: Element,
    pub label: VertexLabel,
}

#[derive(Clone, Copy, Debug, PartialEq, Eq, Structural)]
pub enum VertexLabel {
    Metadata,
    Project,
    Range,
    Location,
    Document,
    Moniker,
    PackageInfo,
    ResultSet,
    DocumentSymbolResult,
    FoldingRangeResult,
    DiagnosticResult,
    DeclarationResult,
    DefinitionResult,
    TypeDefinitionResult,
    HoverResult,
    ReferenceResult,
    ImplementationResult,
}

#[derive(Clone, Debug)]
pub struct Edge {
    pub el: Element,
    pub label: EdgeLabel,
}

#[derive(Clone, Copy, Debug, PartialEq, Eq, Structural)]
pub enum EdgeLabel {
    Contains,
    Item,
    Next,
    Moniker,
    NextMoniker,
    PackageInfo,
    TextDocDocumentSymbol,
    TextDocFoldingRange,
    TextDocDocumentLink,
    TextDocDiagnostic,
    TextDocDefinition,
    TextDocDeclaration,
    TextDocTypeDefinition,
    TextDocHover,
    TextDocReferences,
    TextDocImplementation,
}

/// The vertex with the given identifier and label.
pub open spec fn vertex(id: u64, label: VertexLabel) -> Vertex {
    Vertex { el: Element { id, el_type: ElementType::Vertex }, label }
}

/// The edge with the given identifier and label.
pub open spec fn edge(id: u64, label: EdgeLabel) -> Edge {
    Edge { el: Element { id, el_type: ElementType::Edge }, label }
}

fn new_vertex(id: u64, label: VertexLabel) -> (r: Vertex)
    ensures
        r == vertex(id, label),
{
    Vertex { el: Element { id, el_type: ElementType::Vertex }, label }
}

fn new_edge(id: u64, label: EdgeLabel) -> (r: Edge)
    ensures
        r == edge(id, label),
{
    Edge { el: Element { id, el_type: ElementType::Edge }, label }
}

#[derive(Clone, Debug)]
pub struct Contains {
    pub edge: Edge,
    pub out_v: u64,
    pub in_vs: Vec<u64>,
}

impl Contains {
    pub fn new(id: u64, out_v: u64, in_vs: Vec<u64>) -> (r: Contains)
        ensures
            r == (Contains { edge: edge(id, EdgeLabel::Contains), out_v, in_vs }),
    {
        Contains { edge: new_edge(id, EdgeLabel::Contains), out_v, in_vs }
    }
}

#[derive(Clone, Debug)]
pub struct DefinitionResult {
    pub vertex: Vertex,
}

impl DefinitionResult {
    pub fn new(id: u64) -> (r: DefinitionResult)
        ensures
            r == (DefinitionResult { vertex: vertex(id, VertexLabel::DefinitionResult) }),
    {
        DefinitionResult { vertex: new_vertex(id, VertexLabel::DefinitionResult) }
    }
}

#[derive(Clone, Debug)]
pub struct TextDocumentDefinition {
    pub edge: Edge,
    pub out_v: u64,
    pub in_v: u64,
}

impl TextDocumentDefinition {
    pub fn new(id: u64, out_v: u64, in_v: u64) -> (r: TextDocumentDefinition)
        ensures
            r == (TextDocumentDefinition {
                edge: edge(id, EdgeLabel::TextDocDefinition),
                out_v,
                in_v,
            }),
    {
        TextDocumentDefinition { edge: new_edge(id, EdgeLabel::TextDocDefinition), out_v, in_v }
    }
}

/// A document, named by its URI in the normal form of a URL.
#[derive(Clone, Debug)]
pub struct Document {
    pub vertex: Vertex,
    pub uri: String,
    pub language_id: String,
}

impl Document {
    /// The document with the given URI, which must be a URL.
    pub fn new(id: u64, language_id: &str, uri: &str) -> (r: Document)
        requires
            uri_text(uri@) is Ok,
        ensures
            r.vertex == vertex(id, VertexLabel::Document),
            r.uri@ == uri_text(uri@)->Ok_0,
            r.language_id@ == language_id@,
    {
        match parse_uri(uri) {
            Ok(normal) => Document {
                vertex: new_vertex(id, VertexLabel::Document),
                uri: normal,
                language_id: language_id.to_owned(),
            },
            Err(_) => unreached(),
        }
    }

    /// The document with the given URI where that is a URL, and nothing
    /// where it is none.
    pub fn try_new(id: u64, language_id: &str, uri: &str) -> (r: Option<Document>)
        ensures
            match r {
                Some(d) => uri_text(uri@) == Ok::<Seq<char>, Seq<char>>(d.uri@) && d.vertex
                    == vertex(id, VertexLabel::Document) && d.language_id@ == language_id@,
                None => uri_text(uri@) is Err,
            },
    {
        match parse_uri(uri) {
            Ok(_) => Some(Document::new(id, language_id, uri)),
            Err(_) => None,
        }
    }
}

/// A piece of hover text: plain, or code in a named language.
#[derive(Clone, Debug)]
pub enum MarkedString {
    String(String),
    LanguageString(LanguageString),
}

#[derive(Clone, Debug)]
pub struct LanguageString {
    pub language: String,
    pub value: String,
}

#[derive(Clone, Debug)]
pub struct HoverResult {
    pub vertex: Vertex,
    pub result: HoverResultContent,
}

#[derive(Clone, Debug)]
pub struct HoverResultContent {
    pub contents: Vec<MarkedString>,
}

impl HoverResult {
    pub fn new(id: u64, contents: Vec<MarkedString>) -> (r: HoverResult)
        ensures
            r == (HoverResult {
                vertex: vertex(id, VertexLabel::HoverResult),
                result: HoverResultContent { contents },
            }),
    {
        HoverResult {
            vertex: new_vertex(id, VertexLabel::HoverResult),
            result: HoverResultContent { contents },
        }
    }
}

#[derive(Clone, Debug)]
pub struct TextDocumentHover {
    pub edge: Edge,
    pub out_v: u64,
    pub in_v: u64,
}

impl TextDocumentHover {
    pub fn new(id: u64, out_v: u64, in_v: u64) -> (r: TextDocumentHover)
        ensures
            r == (TextDocumentHover { edge: edge(id, EdgeLabel::TextDocHover), out_v, in_v }),
    {
        TextDocumentHover { edge: new_edge(id, EdgeLabel::TextDocHover), out_v, in_v }
    }
}

#[derive(Clone, Debug)]
pub struct Item {
    pub edge: Edge,
    pub out_v: u64,
    pub in_vs: Vec<u64>,
    pub document: u64,
    pub property: String,
}

impl Item {
    /// An item edge with no property.
    pub fn new(id: u64, out_v: u64, in_vs: Vec<u64>, document: u64) -> (r: Item)
        ensures
            r.edge == edge(id, EdgeLabel::Item),
            r.out_v == out_v,
            r.in_vs == in_vs,
            r.document == document,
            r.property@ == ""@,
    {
        Item::with_property(id, out_v, in_vs, document, "".to_owned())
    }

    /// An item edge with the property that `property` converts into.
    pub fn new_with_property<T: Into<String>>(
        id: u64,
        out_v: u64,
        in_vs: Vec<u64>,
        document: u64,
        property: T,
    ) -> (r: Item)
        ensures
            r.edge == edge(id, EdgeLabel::Item),
            r.out_v == out_v,
            r.in_vs == in_vs,
            r.document == document,
            call_ensures(T::into, (property,), r.property),
    {
        Item::with_property(id, out_v, in_vs, document, property.into())
    }

    /// An item edge with the property `definitions`.
    pub fn new_of_definition(id: u64, out_v: u64, in_vs: Vec<u64>, document: u64) -> (r: Item)
        ensures
            r.edge == edge(id, EdgeLabel::Item),
            r.out_v == out_v,
            r.in_vs == in_vs,
            r.document == document,
            r.property@ == "definitions"@,
    {
        Item::with_property(id, out_v, in_vs, document, "definitions".to_owned())
    }

    /// An item edge with the property `references`.
    pub fn new_of_references(id: u64, out_v: u64, in_vs: Vec<u64>, document: u64) -> (r: Item)
        ensures
            r.edge == edge(id, EdgeLabel::Item),
            r.out_v == out_v,
            r.in_vs == in_vs,
            r.document == document,
            r.property@ == "references"@,
    {
        Item::with_property(id, out_v, in_vs, document, "references".to_owned())
    }

    fn with_property(id: u64, out_v: u64, in_vs: Vec<u64>, document: u64, property: String) -> (r:
        Item)
        ensures
            r == (Item { edge: edge(id, EdgeLabel::Item), out_v, in_vs, document, property }),
    {
        Item { edge: new_edge(id, EdgeLabel::Item), out_v, in_vs, document, property }
    }
}

/// The version of the format that a dump is written in.
pub const VERSION: &'static str = "0.4.3";

/// How the positions of a dump count characters.
pub const POSITION_ENCODING: &'static str = "utf-16";

#[derive(Clone, Debug)]
pub struct MetaData {
    pub vertex: Vertex,
    pub version: &'static str,
    pub project_root: String,
    pub position_encoding: &'static str,
    pub tool_info: ToolInfo,
}

/// The tool that wrote a dump.
#[derive(Clone, Debug)]
pub struct ToolInfo {
    pub name: String,
    pub version: &'static str,
    pub args: Vec<String>,
}

impl MetaData {
    pub fn new(id: u64, root: String, info: ToolInfo) -> (r: MetaData)
        ensures
            r == (MetaData {
                vertex: vertex(id, VertexLabel::Metadata),
                version: VERSION,
                project_root: root,
                position_encoding: POSITION_ENCODING,
                tool_info: info,
            }),
    {
        MetaData {
            vertex: new_vertex(id, VertexLabel::Metadata),
            version: VERSION,
            project_root: root,
            position_encoding: POSITION_ENCODING,
            tool_info: info,
        }
    }
}

#[derive(Clone, Debug)]
pub struct Moniker {
    pub vertex: Vertex,
    pub kind: String,
    pub scheme: String,
    pub identifier: String,
}

impl Moniker {
    /// The moniker whose texts are what the arguments convert into.
    pub fn new<T: Into<String>>(id: u64, kind: T, scheme: T, identifier: T) -> (r: Moniker)
        ensures
            r.vertex == vertex(id, VertexLabel::Moniker),
            call_ensures(T::into, (kind,), r.kind),
            call_ensures(T::into, (scheme,), r.scheme),
            call_ensures(T::into, (identifier,), r.identifier),
    {
        Moniker {
            vertex: new_vertex(id, VertexLabel::Moniker),
            kind: kind.into(),
            scheme: scheme.into(),
            identifier: identifier.into(),
        }
    }
}

#[derive(Clone, Debug)]
pub struct MonikerEdge {
    pub edge: Edge,
    pub out_v: u64,
    pub in_v: u64,
}

impl MonikerEdge {
    pub fn new(id: u64, out_v: u64, in_v: u64) -> (r: MonikerEdge)
        ensures
            r == (MonikerEdge { edge: edge(id, EdgeLabel::Moniker), out_v, in_v }),
    {
        MonikerEdge { edge: new_edge(id, EdgeLabel::Moniker), out_v, in_v }
    }
}

#[derive(Clone, Debug)]
pub struct NextMonikerEdge {
    pub edge: Edge,
    pub out_v: u64,
    pub in_v: u64,
}

impl NextMonikerEdge {
    pub fn new(id: u64, out_v: u64, in_v: u64) -> (r: NextMonikerEdge)
        ensures
            r == (NextMonikerEdge { edge: edge(id, EdgeLabel::NextMoniker), out_v, in_v }),
    {
        NextMonikerEdge { edge: new_edge(id, EdgeLabel::NextMoniker), out_v, in_v }
    }
}

#[derive(Clone, Debug)]
pub struct Next {
    pub edge: Edge,
    pub out_v: u64,
    pub in_v: u64,
}

impl Next {
    pub fn new(id: u64, out_v: u64, in_v: u64) -> (r: Next)
        ensures
            r == (Next { edge: edge(id, EdgeLabel::Next), out_v, in_v }),
    {
        Next { edge: new_edge(id, EdgeLabel::Next), out_v, in_v }
    }
}

#[derive(Clone, Debug)]
pub struct PackageInfo {
    pub vertex: Vertex,
    pub name: String,
    pub manager: String,
    pub version: String,
}

impl PackageInfo {
    /// The package whose texts are what the arguments convert into.
    pub fn new<T: Into<String>>(id: u64, name: T, manager: T, version: T) -> (r: PackageInfo)
        ensures
            r.vertex == vertex(id, VertexLabel::PackageInfo),
            call_ensures(T::into, (name,), r.name),
            call_ensures(T::into, (manager,), r.manager),
            call_ensures(T::into, (version,), r.version),
    {
        PackageInfo {
            vertex: new_vertex(id, VertexLabel::PackageInfo),
            name: name.into(),
            manager: manager.into(),
            version: version.into(),
        }
    }
}

#[derive(Clone, Debug)]
pub struct PackageInfoEdge {
    pub edge: Edge,
    pub out_v: u64,
    pub in_v: u64,
}

impl PackageInfoEdge {
    pub fn new(id: u64, out_v: u64, in_v: u64) -> (r: PackageInfoEdge)
        ensures
            r == (PackageInfoEdge { edge: edge(id, EdgeLabel::PackageInfo), out_v, in_v }),
    {
        PackageInfoEdge { edge: new_edge(id, EdgeLabel::PackageInfo), out_v, in_v }
    }
}

#[derive(Clone, Debug)]
pub struct Project {
    pub vertex: Vertex,
    pub kind: String,
}

impl Project {
    /// The project whose kind is what `language_id` converts into.
    pub fn new<T: Into<String>>(id: u64, language_id: T) -> (r: Project)
        ensures
            r.vertex == vertex(id, VertexLabel::Project),
            call_ensures(T::into, (language_id,), r.kind),
    {
        Project { vertex: new_vertex(id, VertexLabel::Project), kind: language_id.into() }
    }
}

/// A place in a document: a line and a character of it, both counted from 0.
#[derive(Clone, Copy, Debug, PartialEq, Eq, Structural)]
pub struct Position {
    pub line: u32,
    pub character: u32,
}

#[derive(Clone, Debug)]
pub struct Range {
    pub vertex: Vertex,
    pub start: Position,
    pub end: Position,
}

impl Range {
    pub fn new(id: u64, start: Position, end: Position) -> (r: Range)
        ensures
            r == (Range { vertex: vertex(id, VertexLabel::Range), start, end }),
    {
        Range { vertex: new_vertex(id, VertexLabel::Range), start, end }
    }
}

#[derive(Clone, Debug)]
pub struct ResultSet {
    pub vertex: Vertex,
}

impl ResultSet {
    pub fn new(id: u64) -> (r: ResultSet)
        ensures
            r == (ResultSet { vertex: vertex(id, VertexLabel::ResultSet) }),
    {
        ResultSet { vertex: new_vertex(id, VertexLabel::ResultSet) }
    }

    pub fn new_reference_result(id: u64) -> (r: ResultSet)
        ensures
            r == (ResultSet { vertex: vertex(id, VertexLabel::ReferenceResult) }),
    {
        ResultSet { vertex: new_vertex(id, VertexLabel::ReferenceResult) }
    }
}

#[derive(Clone, Debug)]
pub struct TextDocumentReferences {
    pub edge: Edge,
    pub out_v: u64,
    pub in_v: u64,
}

impl TextDocumentReferences {
    pub fn new(id: u64, out_v: u64, in_v: u64) -> (r: TextDocumentReferences)
        ensures
            r == (TextDocumentReferences { edge: edge(id, EdgeLabel::TextDocReferences), out_v, in_v }),
    {
        TextDocumentReferences { edge: new_edge(id, EdgeLabel::TextDocReferences), out_v, in_v }
    }
}

} // verus!
