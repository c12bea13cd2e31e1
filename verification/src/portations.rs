//! Portations of a repository: the files that data of pipeline nodes is imported from or exported
//! to, known by their identifier, and the repository context that holds them.
use vstd::prelude::*;
use crate::context_helpers::{NodeType, PortationDirectionType, ContextError, build_node_typed_name, build_portation_id,
    parse_portation_id, parse_node_typed_name, spec_portation_id, spec_typed_node_name, spec_parse_portation_id,
    spec_parse_node_typed_name, spec_split_once};
use crate::json_schema::{HoliumJsonSchema, PortationSchemaError, portation_json_schema,
    spec_parse_json_schema};
use crate::codecs::json_text_decoding;
use crate::local_helpers::PortationFileFormat;

verus! {

broadcast use vstd::std_specs::vec::group_vec_axioms;

/// A portation: its identifier (the direction and the typed name of its node), the path of its
/// file relative to the project root, and the format of that file.
pub struct Portation {
    pub id: String,
    pub file_path: String,
    pub file_format: PortationFileFormat,
}

/// Mathematical model of a [`Portation`].
pub struct SpecPortation {
    pub id: Seq<char>,
    pub file_path: Seq<char>,
    pub file_format: PortationFileFormat,
}

impl View for Portation {
    type V = SpecPortation;

    open spec fn view(&self) -> SpecPortation {
        SpecPortation { id: self.id@, file_path: self.file_path@, file_format: self.file_format }
    }
}

impl Portation {
    /// A copy of the portation.
    pub fn copy(&self) -> (r: Portation)
        ensures r@ == self@,
    {
        Portation {
            id: String::from_str(self.id.as_str()),
            file_path: String::from_str(self.file_path.as_str()),
            file_format: self.file_format,
        }
    }
}

/// The portations of a repository, each known by its identifier. They are held as a list in
/// which no identifier occurs twice (see [`distinct_ids`]), so that a lookup by identifier has one
/// answer: a map keyed by text identifiers would give no more, as vstd models the contents of a
/// std map keyed by `String` in no way that a contract can use.
pub struct Portations {
    pub items: Vec<Portation>,
}

/// The models of some portations.
pub open spec fn view_portations(items: Seq<Portation>) -> Seq<SpecPortation> {
    Seq::new(items.len(), |i: int| items[i]@)
}

/// The position of the first portation of a given identifier, if there is one.
pub open spec fn spec_portation_position(items: Seq<SpecPortation>, id: Seq<char>) -> Option<int>
    decreases items.len(),
{
    if items.len() == 0 {
        None
    } else {
        match spec_portation_position(items.drop_last(), id) {
            Some(i) => Some(i),
            None => if items.last().id == id { Some(items.len() - 1) } else { None },
        }
    }
}

/// The first portation of a given identifier is where the identifier stands and does not stand
/// before.
proof fn lemma_portation_position(items: Seq<SpecPortation>, id: Seq<char>, k: int)
    requires
        0 <= k <= items.len(),
        forall|j: int| 0 <= j < k ==> items[j].id != id,
        k == items.len() || items[k].id == id,
    ensures spec_portation_position(items, id) == (if k < items.len() { Some(k) } else { None::<int> }),
    decreases items.len(),
{
    if items.len() > 0 {
        let t = items.drop_last();
        if k < t.len() {
            lemma_portation_position(t, id, k);
        } else {
            lemma_portation_position(t, id, t.len() as int);
        }
    }
}

/// No two portations share an identifier.
pub open spec fn distinct_ids(items: Seq<SpecPortation>) -> bool {
    forall|i: int, j: int| 0 <= i < j < items.len() ==> items[i].id != items[j].id
}

impl Portations {
    /// The models of the portations.
    pub open spec fn spec_items(&self) -> Seq<SpecPortation> {
        view_portations(self.items@)
    }

    /// Whether no two portations share an identifier, as the keys of a map do.
    pub fn has_distinct_ids(&self) -> (r: bool)
        ensures r == distinct_ids(self.spec_items()),
    {
        let n = self.items.len();
        let mut i: usize = 0;
        while i < n
            invariant
                i <= n,
                n == self.items.len(),
                forall|a: int, b: int| 0 <= a < b < n && a < i ==> self.spec_items()[a].id != self.spec_items()[b].id,
            decreases n - i,
        {
            let mut j: usize = i + 1;
            while j < n
                invariant
                    i < j <= n,
                    n == self.items.len(),
                    forall|a: int, b: int| 0 <= a < b < n && a < i ==> self.spec_items()[a].id != self.spec_items()[b].id,
                    forall|b: int| i < b < j ==> self.spec_items()[i as int].id != self.spec_items()[b].id,
                decreases n - j,
            {
                if crate::values::str_eq(self.items[i].id.as_str(), self.items[j].id.as_str()) {
                    proof { assert(self.spec_items()[i as int].id == self.spec_items()[j as int].id); }
                    return false;
                }
                j = j + 1;
            }
            i = i + 1;
        }
        true
    }

    /// The portation of a given identifier: the first one, if there are several.
    pub fn get(&self, id: &str) -> (r: Option<&Portation>)
        ensures
            match spec_portation_position(self.spec_items(), id@) {
                Some(i) => r is Some && r->0@ == self.spec_items()[i],
                None => r is None,
            },
    {
        let mut i: usize = 0;
        while i < self.items.len()
            invariant
                i <= self.items.len(),
                forall|j: int| 0 <= j < i ==> self.spec_items()[j].id != id@,
            decreases self.items.len() - i,
        {
            if crate::values::str_eq(self.items[i].id.as_str(), id) {
                proof { lemma_portation_position(self.spec_items(), id@, i as int); }
                return Some(&self.items[i]);
            }
            i = i + 1;
        }
        proof { lemma_portation_position(self.spec_items(), id@, i as int); }
        None
    }
}

/// Context structure helping accessing the repository area in a consistent way throughout the
/// commands: the portations of the repository.
pub struct RepositoryContext {
    pub portations: Portations,
}

impl RepositoryContext {
    /// A repository context holding the portations of a repository, as read from its portations
    /// file, where they are known by their identifiers: no two share one (see
    /// [`Portations::has_distinct_ids`]).
    pub fn new(portations: Portations) -> (r: RepositoryContext)
        requires distinct_ids(portations.spec_items()),
        ensures r.portations.spec_items() == portations.spec_items(),
    {
        RepositoryContext { portations }
    }
}

/// Check from a repository context object if the portation of a node in a given direction can be
/// found, and give a copy of it.
pub fn get_portation(repo_context: &RepositoryContext, node_type: &NodeType, node_name: &str,
    direction: &PortationDirectionType) -> (r: Option<Portation>)
    ensures
        match spec_portation_position(repo_context.portations.spec_items(),
            spec_portation_id(*direction, spec_typed_node_name(*node_type, node_name@))) {
            Some(i) => r is Some && r->0@ == repo_context.portations.spec_items()[i],
            None => r is None,
        },
{
    let id = build_portation_id(*direction, build_node_typed_name(*node_type, node_name).as_str());
    match repo_context.portations.get(id.as_str()) {
        Some(p) => Some(p.copy()),
        None => None,
    }
}

/// The direction of a portation, and the type and name of its node, read from its identifier.
pub fn portation_node(portation: &Portation) -> (r: Result<(PortationDirectionType, NodeType, String), ContextError>)
    ensures
        match spec_parse_portation_id(portation.id@) {
            None => r is Err && (r->Err_0 matches ContextError::InvalidPortationId(x) && x@ == portation.id@),
            Some((d, typed_name)) => match spec_parse_node_typed_name(typed_name) {
                Ok((t, n)) => r is Ok && r->Ok_0.0 == d && r->Ok_0.1 == t && r->Ok_0.2@ == n,
                Err(e) => r is Err && (match r->Err_0 {
                    ContextError::InvalidTypedName(x) => spec_split_once(typed_name, ':') is None && x@ == e,
                    ContextError::InvalidNodeType(x) => spec_split_once(typed_name, ':') is Some && x@ == e,
                    _ => false,
                }),
            },
        },
{
    let (direction, node_typed_name) = parse_portation_id(portation.id.as_str())?;
    let (node_type, node_name) = parse_node_typed_name(node_typed_name.as_str())?;
    Ok((direction, node_type, node_name))
}

/// The JSON schema literal a portation follows, among those of its node: the only schema of a
/// source or a shaper (`json_schema`); the input schema (`json_schema`) of a transformation for a
/// portation into the Holium area, and its output schema (`json_schema_out`) otherwise.
pub open spec fn spec_portation_schema_literal(direction: PortationDirectionType, node_type: NodeType,
    json_schema: Seq<char>, json_schema_out: Seq<char>) -> Seq<char> {
    if node_type == NodeType::Transformation && direction == PortationDirectionType::FromHolium {
        json_schema_out
    } else {
        json_schema
    }
}

/// Get the JSON schema a portation follows, from the schemata of its node: the literal that the
/// direction of the portation selects is parsed as a root Holium JSON schema.
pub fn portation_json_schema_of_node(direction: PortationDirectionType, node_type: NodeType, json_schema: &str,
    json_schema_out: &str) -> (r: Result<HoliumJsonSchema, PortationSchemaError>)
    ensures ({
        let literal = spec_portation_schema_literal(direction, node_type, json_schema@, json_schema_out@);
        match json_text_decoding(literal) {
            None => r is Err && r->Err_0 is JsonSchemaParseFailed,
            Some(v) => match spec_parse_json_schema(None, v) {
                Ok(s) => r is Ok && r->Ok_0@ == s,
                Err(e) => r is Err && (r->Err_0 matches PortationSchemaError::InvalidSchema(x) && x@ == e),
            },
        }
    }),
{
    let literal = match (node_type, direction) {
        (NodeType::Transformation, PortationDirectionType::FromHolium) => json_schema_out,
        _ => json_schema,
    };
    portation_json_schema(literal)
}

} // verus!
