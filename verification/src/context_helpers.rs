//! The types of the pipeline nodes of the local Holium area, their typed names, the identifiers of
//! connections and portations, and the check that a node exists.
use vstd::prelude::*;

verus! {

broadcast use vstd::std_specs::vec::group_vec_axioms;

/// The types of pipeline nodes handled in the local Holium area.
#[derive(Clone, Copy, Debug, PartialEq, Eq, Structural)]
pub enum NodeType {
    Shaper,
    Source,
    Transformation,
}

/// The name of a node type.
pub open spec fn spec_node_type_name(t: NodeType) -> Seq<char> {
    match t {
        NodeType::Shaper => "shaper"@,
        NodeType::Source => "source"@,
        NodeType::Transformation => "transformation"@,
    }
}

/// The code of the lower case of an ASCII letter; the code of other characters.
pub open spec fn ascii_lower(c: char) -> u32 {
    if 'A' <= c && c <= 'Z' { ((c as u32) + 32) as u32 } else { c as u32 }
}

/// Whether two texts are equal, ASCII letters compared without regard to case.
pub open spec fn eq_ignore_ascii_case(a: Seq<char>, b: Seq<char>) -> bool {
    a.len() == b.len() && forall|i: int| 0 <= i < a.len() ==> ascii_lower(#[trigger] a[i]) == ascii_lower(b[i])
}

fn lower(c: char) -> (r: u32)
    ensures r == ascii_lower(c),
{
    if 'A' <= c && c <= 'Z' {
        (c as u32) + 32
    } else {
        c as u32
    }
}

fn str_eq_ignore_ascii_case(a: &str, b: &str) -> (r: bool)
    ensures r == eq_ignore_ascii_case(a@, b@),
{
    let n = a.unicode_len();
    if n != b.unicode_len() {
        return false;
    }
    let mut i: usize = 0;
    while i < n
        invariant
            i <= n,
            n == a@.len(),
            n == b@.len(),
            forall|j: int| 0 <= j < i ==> ascii_lower(#[trigger] a@[j]) == ascii_lower(b@[j]),
        decreases n - i,
    {
        if lower(a.get_char(i)) != lower(b.get_char(i)) {
            return false;
        }
        i = i + 1;
    }
    true
}

/// The node type a text names, its letters compared without regard to case.
pub open spec fn spec_parse_node_type(s: Seq<char>) -> Option<NodeType> {
    if eq_ignore_ascii_case(s, "shaper"@) {
        Some(NodeType::Shaper)
    } else if eq_ignore_ascii_case(s, "source"@) {
        Some(NodeType::Source)
    } else if eq_ignore_ascii_case(s, "transformation"@) {
        Some(NodeType::Transformation)
    } else {
        None
    }
}

/// Errors of the helpers of the local context.
#[derive(Debug, PartialEq, Eq)]
pub enum ContextError {
    InvalidNodeType(String),
    NoPipelineNodeWithName(String, String),
    InvalidTypedName(String),
    InvalidConnectionId(String),
    InvalidPortationId(String),
}

impl ContextError {
    /// Human readable description of the error.
    pub fn message(&self) -> (r: String)
        ensures
            match self {
                ContextError::InvalidNodeType(t) => r@ == "invalid pipeline node type: "@ + t@,
                ContextError::NoPipelineNodeWithName(t, n) => r@ == "no "@ + t@ + " node found with name: "@ + n@,
                ContextError::InvalidTypedName(s) => r@ == "invalid node typed name: "@ + s@,
                ContextError::InvalidConnectionId(s) => r@ == "invalid connection id: "@ + s@,
                ContextError::InvalidPortationId(s) => r@ == "invalid portation id: "@ + s@,
            },
    {
        match self {
            ContextError::InvalidNodeType(t) => {
                let mut m = String::from_str("invalid pipeline node type: ");
                m.append(t.as_str());
                m
            },
            ContextError::NoPipelineNodeWithName(t, n) => {
                let mut m = String::from_str("no ");
                m.append(t.as_str());
                m.append(" node found with name: ");
                m.append(n.as_str());
                m
            },
            ContextError::InvalidTypedName(s) => {
                let mut m = String::from_str("invalid node typed name: ");
                m.append(s.as_str());
                m
            },
            ContextError::InvalidConnectionId(s) => {
                let mut m = String::from_str("invalid connection id: ");
                m.append(s.as_str());
                m
            },
            ContextError::InvalidPortationId(s) => {
                let mut m = String::from_str("invalid portation id: ");
                m.append(s.as_str());
                m
            },
        }
    }
}

impl NodeType {
    /// Read a node type from its name, its letters compared without regard to case.
    pub fn parse(s: &str) -> (r: Result<NodeType, ContextError>)
        ensures
            match spec_parse_node_type(s@) {
                Some(t) => r == Ok::<NodeType, ContextError>(t),
                None => r is Err && (r->Err_0 matches ContextError::InvalidNodeType(x) && x@ == s@),
            },
    {
        if str_eq_ignore_ascii_case(s, "shaper") {
            Ok(NodeType::Shaper)
        } else if str_eq_ignore_ascii_case(s, "source") {
            Ok(NodeType::Source)
        } else if str_eq_ignore_ascii_case(s, "transformation") {
            Ok(NodeType::Transformation)
        } else {
            Err(ContextError::InvalidNodeType(String::from_str(s)))
        }
    }

    /// The name of the node type.
    pub fn name(&self) -> (r: String)
        ensures r@ == spec_node_type_name(*self),
    {
        match self {
            NodeType::Shaper => String::from_str("shaper"),
            NodeType::Source => String::from_str("source"),
            NodeType::Transformation => String::from_str("transformation"),
        }
    }
}

/// Separator used in a node typed name (the `:` in `source:my-source`).
pub const TYPED_NODE_NAME_SEPARATOR: &'static str = ":";
/// Separator used in a connection identifier (the `→` in
/// `source:my-source→transformation:my-transformation`).
pub const CONNECTION_ID_SEPARATOR: &'static str = "\u{2192}";
/// Separator after the prefix that gives the direction of a portation (the `:` in
/// `from:transformation:my-transformation`).
pub const PORTATION_PREFIX_SEPARATOR: &'static str = ":";
/// Prefix of the portations out of the Holium area.
pub const PORTATION_FROM_HOLIUM_PREFIX: &'static str = "from";
/// Prefix of the portations into the Holium area.
pub const PORTATION_TO_HOLIUM_PREFIX: &'static str = "to";

/// The position of the first occurrence of a character in a text; its length where there is none.
pub open spec fn first_index_of(s: Seq<char>, c: char) -> nat
    decreases s.len(),
{
    if s.len() == 0 {
        0
    } else {
        let k = first_index_of(s.drop_last(), c);
        if k < s.len() - 1 {
            k
        } else if s.last() == c {
            (s.len() - 1) as nat
        } else {
            s.len()
        }
    }
}

/// The first occurrence of a character in a text is where the character stands and does not
/// stand before.
pub proof fn lemma_first_index_of(s: Seq<char>, c: char, k: int)
    requires
        0 <= k <= s.len(),
        forall|j: int| 0 <= j < k ==> s[j] != c,
        k == s.len() || s[k] == c,
    ensures first_index_of(s, c) == k,
    decreases s.len(),
{
    if s.len() > 0 {
        let t = s.drop_last();
        if k < s.len() {
            if k < t.len() {
                lemma_first_index_of(t, c, k);
            } else {
                lemma_first_index_of(t, c, t.len() as int);
            }
        } else {
            lemma_first_index_of(t, c, t.len() as int);
        }
    }
}

/// The position of the first occurrence of a character in a text; its length where there is none.
fn find_char(s: &str, c: char) -> (r: usize)
    ensures r == first_index_of(s@, c),
{
    let n = s.unicode_len();
    let mut i: usize = 0;
    while i < n
        invariant
            i <= n,
            n == s@.len(),
            forall|j: int| 0 <= j < i ==> s@[j] != c,
        decreases n - i,
    {
        if s.get_char(i) == c {
            proof { lemma_first_index_of(s@, c, i as int); }
            return i;
        }
        i = i + 1;
    }
    proof { lemma_first_index_of(s@, c, n as int); }
    n
}

/// The parts of a text before and after the first occurrence of a separator, if it holds one.
pub open spec fn spec_split_once(s: Seq<char>, c: char) -> Option<(Seq<char>, Seq<char>)> {
    let k = first_index_of(s, c);
    if k < s.len() {
        Some((s.subrange(0, k as int), s.subrange(k as int + 1, s.len() as int)))
    } else {
        None
    }
}

fn split_once(s: &str, c: char) -> (r: Option<(String, String)>)
    ensures
        match spec_split_once(s@, c) {
            Some((a, b)) => match r {
                Some((x, y)) => x@ == a && y@ == b,
                None => false,
            },
            None => r is None,
        },
{
    let k = find_char(s, c);
    let n = s.unicode_len();
    if k < n {
        Some((String::from_str(s.substring_char(0, k)), String::from_str(s.substring_char(k + 1, n))))
    } else {
        None
    }
}

/// The typed name of a pipeline node: its type, a colon, its name.
pub open spec fn spec_typed_node_name(node_type: NodeType, node_name: Seq<char>) -> Seq<char> {
    spec_node_type_name(node_type) + ":"@ + node_name
}

/// Build the typed name of a pipeline node: its type, a colon, its name.
pub fn build_node_typed_name(node_type: NodeType, node_name: &str) -> (r: String)
    ensures r@ == spec_typed_node_name(node_type, node_name@),
{
    let mut r = node_type.name();
    r.append(TYPED_NODE_NAME_SEPARATOR);
    r.append(node_name);
    r
}

/// The type and name of a pipeline node read from its typed name: what stands before its first
/// colon names the type, the rest is the name.
pub open spec fn spec_parse_node_typed_name(typed_name: Seq<char>) -> Result<(NodeType, Seq<char>), Seq<char>> {
    match spec_split_once(typed_name, ':') {
        None => Err(typed_name),
        Some((t, n)) => match spec_parse_node_type(t) {
            Some(node_type) => Ok((node_type, n)),
            None => Err(t),
        },
    }
}

/// Read the type and name of a pipeline node from its typed name. A typed name without colon is
/// refused, and so is one whose type is unknown.
pub fn parse_node_typed_name(typed_name: &str) -> (r: Result<(NodeType, String), ContextError>)
    ensures
        match spec_parse_node_typed_name(typed_name@) {
            Ok((t, n)) => r is Ok && r->Ok_0.0 == t && r->Ok_0.1@ == n,
            Err(e) => r is Err && (match r->Err_0 {
                ContextError::InvalidTypedName(x) => spec_split_once(typed_name@, ':') is None && x@ == e,
                ContextError::InvalidNodeType(x) => spec_split_once(typed_name@, ':') is Some && x@ == e,
                _ => false,
            }),
        },
{
    match split_once(typed_name, ':') {
        None => Err(ContextError::InvalidTypedName(String::from_str(typed_name))),
        Some((t, n)) => {
            let node_type = NodeType::parse(t.as_str())?;
            Ok((node_type, n))
        },
    }
}

/// The name of a node type holds no colon, and reads back as that type.
proof fn lemma_node_type_name(t: NodeType)
    ensures
        first_index_of(spec_node_type_name(t), ':') == spec_node_type_name(t).len(),
        first_index_of(spec_node_type_name(t), '\u{2192}') == spec_node_type_name(t).len(),
        spec_parse_node_type(spec_node_type_name(t)) == Some(t),
{
    reveal_strlit("shaper");
    reveal_strlit("source");
    reveal_strlit("transformation");
    let s = spec_node_type_name(t);
    lemma_first_index_of(s, ':', s.len() as int);
    lemma_first_index_of(s, '\u{2192}', s.len() as int);
    if t == NodeType::Source {
        assert(ascii_lower("source"@[1]) != ascii_lower("shaper"@[1]));
    } else if t == NodeType::Transformation {
        assert("transformation"@.len() != "shaper"@.len());
        assert("transformation"@.len() != "source"@.len());
    }
}

/// The first occurrence of a character in a concatenation that the first part does not hold.
proof fn lemma_first_index_after(a: Seq<char>, c: char, b: Seq<char>)
    requires first_index_of(a, c) == a.len(),
    ensures first_index_of(a + seq![c] + b, c) == a.len(),
    decreases a.len(),
{
    let s = a + seq![c] + b;
    assert forall|j: int| 0 <= j < a.len() implies s[j] != c by {
        lemma_no_char_before_first(a, c, j);
    }
    lemma_first_index_of(s, c, a.len() as int);
}

/// Before its first occurrence, a character does not stand in a text.
proof fn lemma_no_char_before_first(s: Seq<char>, c: char, j: int)
    requires 0 <= j < first_index_of(s, c), first_index_of(s, c) <= s.len(),
    ensures s[j] != c,
    decreases s.len(),
{
    let t = s.drop_last();
    let k = first_index_of(t, c);
    lemma_first_index_bound(t, c);
    if j < t.len() && j < k {
        lemma_no_char_before_first(t, c, j);
    }
}

/// The first occurrence of a character is within the text, or its length.
proof fn lemma_first_index_bound(s: Seq<char>, c: char)
    ensures first_index_of(s, c) <= s.len(),
    decreases s.len(),
{
    if s.len() > 0 {
        lemma_first_index_bound(s.drop_last(), c);
    }
}

/// A typed name reads back as the type and name it was built of.
pub proof fn law_node_typed_name_round_trip(node_type: NodeType, node_name: Seq<char>)
    ensures spec_parse_node_typed_name(spec_typed_node_name(node_type, node_name)) == Ok::<(NodeType, Seq<char>), Seq<char>>((node_type, node_name)),
{
    reveal_strlit(":");
    let a = spec_node_type_name(node_type);
    lemma_node_type_name(node_type);
    let s = spec_typed_node_name(node_type, node_name);
    assert(s =~= a + seq![':'] + node_name);
    lemma_first_index_after(a, ':', node_name);
    assert(s.subrange(0, a.len() as int) =~= a);
    assert(s.subrange(a.len() as int + 1, s.len() as int) =~= node_name);
}

/// The identifier of a connection: the typed names of its tail and head nodes, with `→` between
/// them.
pub open spec fn spec_connection_id(tail: Seq<char>, head: Seq<char>) -> Seq<char> {
    tail + seq!['\u{2192}'] + head
}

/// Build the identifier of a connection from the typed names of its tail and head nodes.
pub fn build_connection_id(tail_typed_name: &str, head_typed_name: &str) -> (r: String)
    ensures r@ == spec_connection_id(tail_typed_name@, head_typed_name@),
{
    let mut r = String::from_str(tail_typed_name);
    r.append(CONNECTION_ID_SEPARATOR);
    r.append(head_typed_name);
    proof { reveal_strlit("\u{2192}"); }
    r
}

/// Read the typed names of the tail and head nodes of a connection from its identifier: what
/// stands before its first `→`, and the rest. An identifier without `→` is refused.
pub fn parse_connection_id(id: &str) -> (r: Result<(String, String), ContextError>)
    ensures
        match spec_split_once(id@, '\u{2192}') {
            Some((t, h)) => r is Ok && r->Ok_0.0@ == t && r->Ok_0.1@ == h,
            None => r is Err && (r->Err_0 matches ContextError::InvalidConnectionId(x) && x@ == id@),
        },
{
    match split_once(id, '\u{2192}') {
        Some(p) => Ok(p),
        None => Err(ContextError::InvalidConnectionId(String::from_str(id))),
    }
}

/// A connection identifier reads back as the typed names it was built of, where the tail's holds
/// no `→` (node names cannot hold one, and neither can node types).
pub proof fn law_connection_id_round_trip(tail: Seq<char>, head: Seq<char>)
    requires forall|i: int| 0 <= i < tail.len() ==> tail[i] != '\u{2192}',
    ensures spec_split_once(spec_connection_id(tail, head), '\u{2192}') == Some((tail, head)),
{
    lemma_first_index_of(tail, '\u{2192}', tail.len() as int);
    lemma_first_index_after(tail, '\u{2192}', head);
    let s = spec_connection_id(tail, head);
    assert(s.subrange(0, tail.len() as int) =~= tail);
    assert(s.subrange(tail.len() as int + 1, s.len() as int) =~= head);
}

/// The directions of a portation: out of the Holium area, or into it.
#[derive(Clone, Copy, Debug, PartialEq, Eq, Structural)]
pub enum PortationDirectionType {
    FromHolium,
    ToHolium,
}

/// The prefix of a portation direction.
pub open spec fn spec_direction_prefix(d: PortationDirectionType) -> Seq<char> {
    match d {
        PortationDirectionType::FromHolium => "from"@,
        PortationDirectionType::ToHolium => "to"@,
    }
}

/// The identifier of a portation: the prefix of its direction, a colon, the typed name of its
/// node.
pub open spec fn spec_portation_id(direction: PortationDirectionType, typed_name: Seq<char>) -> Seq<char> {
    spec_direction_prefix(direction) + ":"@ + typed_name
}

/// Build the identifier of a portation from its direction and the typed name of its node.
pub fn build_portation_id(direction: PortationDirectionType, node_typed_name: &str) -> (r: String)
    ensures r@ == spec_portation_id(direction, node_typed_name@),
{
    let mut r = match direction {
        PortationDirectionType::FromHolium => String::from_str(PORTATION_FROM_HOLIUM_PREFIX),
        PortationDirectionType::ToHolium => String::from_str(PORTATION_TO_HOLIUM_PREFIX),
    };
    r.append(PORTATION_PREFIX_SEPARATOR);
    r.append(node_typed_name);
    r
}

/// The direction and typed name of a portation read from its identifier: what stands before its
/// first colon is the prefix of the direction, the rest is the typed name.
pub open spec fn spec_parse_portation_id(id: Seq<char>) -> Option<(PortationDirectionType, Seq<char>)> {
    match spec_split_once(id, ':') {
        None => None,
        Some((p, n)) => if p == "from"@ {
            Some((PortationDirectionType::FromHolium, n))
        } else if p == "to"@ {
            Some((PortationDirectionType::ToHolium, n))
        } else {
            None
        },
    }
}

/// Read the direction and the typed name of the node of a portation from its identifier.
pub fn parse_portation_id(id: &str) -> (r: Result<(PortationDirectionType, String), ContextError>)
    ensures
        match spec_parse_portation_id(id@) {
            Some((d, n)) => r is Ok && r->Ok_0.0 == d && r->Ok_0.1@ == n,
            None => r is Err && (r->Err_0 matches ContextError::InvalidPortationId(x) && x@ == id@),
        },
{
    match split_once(id, ':') {
        Some((p, n)) => if crate::values::str_eq(p.as_str(), PORTATION_FROM_HOLIUM_PREFIX) {
            Ok((PortationDirectionType::FromHolium, n))
        } else if crate::values::str_eq(p.as_str(), PORTATION_TO_HOLIUM_PREFIX) {
            Ok((PortationDirectionType::ToHolium, n))
        } else {
            Err(ContextError::InvalidPortationId(String::from_str(id)))
        },
        None => Err(ContextError::InvalidPortationId(String::from_str(id))),
    }
}

/// A portation identifier reads back as the direction and typed name it was built of.
pub proof fn law_portation_id_round_trip(direction: PortationDirectionType, typed_name: Seq<char>)
    ensures spec_parse_portation_id(spec_portation_id(direction, typed_name)) == Some((direction, typed_name)),
{
    reveal_strlit("from");
    reveal_strlit("to");
    reveal_strlit(":");
    let a = spec_direction_prefix(direction);
    lemma_first_index_of(a, ':', a.len() as int);
    let s = spec_portation_id(direction, typed_name);
    assert(s =~= a + seq![':'] + typed_name);
    lemma_first_index_after(a, ':', typed_name);
    assert(s.subrange(0, a.len() as int) =~= a);
    assert(s.subrange(a.len() as int + 1, s.len() as int) =~= typed_name);
    if direction == PortationDirectionType::ToHolium {
        assert("to"@.len() != "from"@.len());
    }
}

/// Check that a pipeline node exists in the local Holium area, and give its typed name.
/// `node_exists` tells whether the store of the nodes of its type holds one of that name.
pub fn pipeline_node_existence(node_type: NodeType, node_name: &str, node_exists: bool) -> (r: Result<String, ContextError>)
    ensures
        node_exists ==> r is Ok && r->Ok_0@ == spec_typed_node_name(node_type, node_name@),
        !node_exists ==> r is Err && (r->Err_0 matches ContextError::NoPipelineNodeWithName(t, n)
            && t@ == spec_node_type_name(node_type) && n@ == node_name@),
{
    if !node_exists {
        return Err(ContextError::NoPipelineNodeWithName(node_type.name(), String::from_str(node_name)));
    }
    Ok(build_node_typed_name(node_type, node_name))
}

/// The node types whose stores hold the nodes of a pipeline, in the order they are visited:
/// sources, shapers, transformations.
pub fn nodes_tree_types() -> (r: Vec<NodeType>)
    ensures r@ == seq![NodeType::Source, NodeType::Shaper, NodeType::Transformation],
{
    let mut r: Vec<NodeType> = Vec::new();
    r.push(NodeType::Source);
    r.push(NodeType::Shaper);
    r.push(NodeType::Transformation);
    r
}

} // verus!
