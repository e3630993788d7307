//! The LSF node tree of a save (a `.lsf` resource inside an `.lsv` package),
//! held as plain values, with its attribute getters, searches and the text dump.
//!
//! A resource is an arena of nodes. Each node has a name, a kind, named
//! attributes and named lists of child indices into the arena; a region is a
//! named entry point into the arena. Attribute and child lists are keyed by
//! name: a lookup takes the first entry with that key, and in a well-formed
//! node (`Node::wf`) no key occurs twice.
use vstd::prelude::*;
use vstd::string::StringExecFns;
use crate::keyed::{find_key, lemma_key_index, lookup, unique_keys};
use crate::text::{
    decimal, hex2, push_decimal, push_hex2, push_repeat, push_signed, push_str, repeat, signed_decimal,
    str_eq, string_from_chars,
};

verus! {

/// The value of a node attribute. Values that the library only prints are held
/// by their printed text: floating-point values by what `Display` writes for them,
/// vector components likewise, and kinds that are not listed by what `Debug`
/// writes for them.
#[derive(Debug, Clone, PartialEq)]
pub enum NodeAttributeValue {
    String(String),
    /// A translated string, by the text its `Display` implementation writes.
    TranslatedString(String),
    Bytes(Vec<u8>),
    /// A UUID, by its hyphenated text.
    Uuid(String),
    Bool(bool),
    Int(i32),
    UInt(u32),
    Short(i16),
    UShort(u16),
    Byte(u8),
    I8(i8),
    Int64(i64),
    UInt64(u64),
    Float(String),
    Double(String),
    Vec3(String, String, String),
    Vec4(String, String, String, String),
    Other(String),
}

/// A typed attribute: `ty` is the name of its type as `Debug` writes it.
#[derive(Debug, Clone, PartialEq)]
pub struct NodeAttribute {
    pub ty: String,
    pub value: NodeAttributeValue,
}

/// Whether a node heads a region.
#[derive(Debug, Clone, PartialEq)]
pub enum NodeKind {
    Region { name: String },
    Node,
}

/// A node of the tree.
#[derive(Debug, Clone, PartialEq)]
pub struct Node {
    pub name: String,
    pub kind: NodeKind,
    pub attributes: Vec<(String, NodeAttribute)>,
    /// Child lists by name; each holds indices into the arena.
    pub children: Vec<(String, Vec<usize>)>,
}

/// All nodes of a resource and its region entry points.
#[derive(Debug, Clone, PartialEq)]
pub struct RegionArena {
    pub node_instances: Vec<Node>,
    pub regions_indices: Vec<(String, usize)>,
}

/// A parsed LSF resource.
#[derive(Debug, Clone, PartialEq)]
pub struct Resource {
    pub regions: RegionArena,
}

// ---------------------------------------------------------------------------
// Arena access
// ---------------------------------------------------------------------------

impl Node {
    /// Attribute and child-list names are unique.
    pub open spec fn wf(&self) -> bool {
        unique_keys(self.attributes@) && unique_keys(self.children@)
    }
}

impl RegionArena {
    /// The node at `idx`, if there is one.
    pub open spec fn node_at(&self, idx: int) -> Option<Node> {
        if 0 <= idx < self.node_instances@.len() {
            Some(self.node_instances@[idx])
        } else {
            None
        }
    }

    /// The node at `idx`, if there is one.
    pub fn get_node(&self, idx: usize) -> (r: Option<&Node>)
        ensures
            match r {
                Some(n) => self.node_at(idx as int) == Some(*n),
                None => self.node_at(idx as int) is None,
            },
    {
        if idx < self.node_instances.len() {
            Some(&self.node_instances[idx])
        } else {
            None
        }
    }

    /// The number of regions.
    pub fn region_count(&self) -> (r: usize)
        ensures
            r == self.regions_indices@.len(),
    {
        self.regions_indices.len()
    }
}

// ---------------------------------------------------------------------------
// Attribute getters
// ---------------------------------------------------------------------------

/// The value of the attribute `name` of `node`.
pub open spec fn attr_value(node: Node, name: Seq<char>) -> Option<NodeAttributeValue> {
    match lookup(node.attributes@, name) {
        Some(a) => Some(a.value),
        None => None,
    }
}

/// The value of the attribute `name` of `node`.
pub fn attribute_value<'a>(node: &'a Node, name: &str) -> (r: Option<&'a NodeAttributeValue>)
    ensures
        match r {
            Some(v) => attr_value(*node, name@) == Some(*v),
            None => attr_value(*node, name@) is None,
        },
{
    proof {
        lemma_key_index(node.attributes@, name@, 0);
    }
    match find_key(&node.attributes, name) {
        Some(i) => Some(&node.attributes[i].1.value),
        None => None,
    }
}

/// A string attribute.
pub open spec fn string_attr(node: Node, name: Seq<char>) -> Option<Seq<char>> {
    match attr_value(node, name) {
        Some(NodeAttributeValue::String(s)) => Some(s@),
        _ => None,
    }
}

/// A translated string attribute, or a string attribute; a translated string whose
/// text is empty or `Option::None` counts as absent.
pub open spec fn translated_string_attr(node: Node, name: Seq<char>) -> Option<Seq<char>> {
    match attr_value(node, name) {
        Some(NodeAttributeValue::TranslatedString(t)) => if t@ == "Option::None"@ || t@.len() == 0 {
            None
        } else {
            Some(t@)
        },
        Some(NodeAttributeValue::String(s)) => Some(s@),
        _ => None,
    }
}

/// A signed integer attribute, widening 16- and 8-bit values.
pub open spec fn int_attr(node: Node, name: Seq<char>) -> Option<i32> {
    match attr_value(node, name) {
        Some(NodeAttributeValue::Int(v)) => Some(v),
        Some(NodeAttributeValue::Short(v)) => Some(v as i32),
        Some(NodeAttributeValue::Byte(v)) => Some(v as i32),
        Some(NodeAttributeValue::I8(v)) => Some(v as i32),
        _ => None,
    }
}

/// An unsigned integer attribute, widening 16- and 8-bit values.
pub open spec fn uint_attr(node: Node, name: Seq<char>) -> Option<u32> {
    match attr_value(node, name) {
        Some(NodeAttributeValue::UInt(v)) => Some(v),
        Some(NodeAttributeValue::UShort(v)) => Some(v as u32),
        Some(NodeAttributeValue::Byte(v)) => Some(v as u32),
        _ => None,
    }
}

/// A UUID attribute by its text, or a string attribute.
pub open spec fn uuid_attr(node: Node, name: Seq<char>) -> Option<Seq<char>> {
    match attr_value(node, name) {
        Some(NodeAttributeValue::Uuid(u)) => Some(u@),
        Some(NodeAttributeValue::String(s)) => Some(s@),
        _ => None,
    }
}

/// A 64-bit unsigned attribute, widening 32-bit values.
pub open spec fn uint64_attr(node: Node, name: Seq<char>) -> Option<u64> {
    match attr_value(node, name) {
        Some(NodeAttributeValue::UInt64(v)) => Some(v),
        Some(NodeAttributeValue::UInt(v)) => Some(v as u64),
        _ => None,
    }
}

/// A byte-array attribute.
pub open spec fn bytes_attr(node: Node, name: Seq<char>) -> Option<Seq<u8>> {
    match attr_value(node, name) {
        Some(NodeAttributeValue::Bytes(b)) => Some(b@),
        _ => None,
    }
}

/// A boolean attribute.
pub open spec fn bool_attr(node: Node, name: Seq<char>) -> Option<bool> {
    match attr_value(node, name) {
        Some(NodeAttributeValue::Bool(b)) => Some(b),
        _ => None,
    }
}

/// Get a string attribute value from a node, if it exists.
pub fn get_string_attr(node: &Node, name: &str) -> (r: Option<String>)
    ensures
        opt_view(r) == string_attr(*node, name@),
{
    match attribute_value(node, name) {
        Some(NodeAttributeValue::String(s)) => Some(s.clone()),
        _ => None,
    }
}

/// The view of an optional string.
pub open spec fn opt_view(o: Option<String>) -> Option<Seq<char>> {
    match o {
        Some(s) => Some(s@),
        None => None,
    }
}

/// Get a translated string attribute value from a node.
pub fn get_translated_string_attr(node: &Node, name: &str) -> (r: Option<String>)
    ensures
        opt_view(r) == translated_string_attr(*node, name@),
{
    match attribute_value(node, name) {
        Some(NodeAttributeValue::TranslatedString(ts)) => {
            if str_eq(ts.as_str(), "Option::None") || ts.as_str().is_empty() {
                None
            } else {
                Some(ts.clone())
            }
        },
        Some(NodeAttributeValue::String(s)) => Some(s.clone()),
        _ => None,
    }
}

/// Get an integer attribute value from a node.
pub fn get_int_attr(node: &Node, name: &str) -> (r: Option<i32>)
    ensures
        r == int_attr(*node, name@),
{
    match attribute_value(node, name) {
        Some(NodeAttributeValue::Int(v)) => Some(*v),
        Some(NodeAttributeValue::Short(v)) => Some(*v as i32),
        Some(NodeAttributeValue::Byte(v)) => Some(*v as i32),
        Some(NodeAttributeValue::I8(v)) => Some(*v as i32),
        _ => None,
    }
}

/// Get an unsigned integer attribute value from a node.
pub fn get_uint_attr(node: &Node, name: &str) -> (r: Option<u32>)
    ensures
        r == uint_attr(*node, name@),
{
    match attribute_value(node, name) {
        Some(NodeAttributeValue::UInt(v)) => Some(*v),
        Some(NodeAttributeValue::UShort(v)) => Some(*v as u32),
        Some(NodeAttributeValue::Byte(v)) => Some(*v as u32),
        _ => None,
    }
}

/// Get a UUID attribute value from a node.
pub fn get_uuid_attr(node: &Node, name: &str) -> (r: Option<String>)
    ensures
        opt_view(r) == uuid_attr(*node, name@),
{
    match attribute_value(node, name) {
        Some(NodeAttributeValue::Uuid(u)) => Some(u.clone()),
        Some(NodeAttributeValue::String(s)) => Some(s.clone()),
        _ => None,
    }
}

/// Get a u64 attribute value from a node.
pub fn get_uint64_attr(node: &Node, name: &str) -> (r: Option<u64>)
    ensures
        r == uint64_attr(*node, name@),
{
    match attribute_value(node, name) {
        Some(NodeAttributeValue::UInt64(v)) => Some(*v),
        Some(NodeAttributeValue::UInt(v)) => Some(*v as u64),
        _ => None,
    }
}

/// Get bytes attribute value from a node.
pub fn get_bytes_attr(node: &Node, name: &str) -> (r: Option<Vec<u8>>)
    ensures
        match r {
            Some(b) => bytes_attr(*node, name@) == Some(b@),
            None => bytes_attr(*node, name@) is None,
        },
{
    match attribute_value(node, name) {
        Some(NodeAttributeValue::Bytes(b)) => {
            let mut out: Vec<u8> = Vec::new();
            let mut i: usize = 0;
            while i < b.len()
                invariant
                    i <= b.len(),
                    out@ =~= b@.subrange(0, i as int),
                decreases b.len() - i,
            {
                out.push(b[i]);
                i = i + 1;
            }
            Some(out)
        },
        _ => None,
    }
}

/// Get a bool attribute value from a node.
pub fn get_bool_attr(node: &Node, name: &str) -> (r: Option<bool>)
    ensures
        r == bool_attr(*node, name@),
{
    match attribute_value(node, name) {
        Some(NodeAttributeValue::Bool(v)) => Some(*v),
        _ => None,
    }
}

// ---------------------------------------------------------------------------
// Searches
// ---------------------------------------------------------------------------

/// The nodes among `nodes` named `name`, in order.
pub open spec fn nodes_named(nodes: Seq<Node>, name: Seq<char>) -> Seq<Node>
    decreases nodes.len(),
{
    if nodes.len() == 0 {
        Seq::empty()
    } else {
        nodes_named(nodes.drop_last(), name) + if nodes.last().name@ == name {
            seq![nodes.last()]
        } else {
            Seq::empty()
        }
    }
}

/// The nodes a sequence of references refers to.
pub open spec fn deref_nodes(v: Seq<&Node>) -> Seq<Node>
    decreases v.len(),
{
    if v.len() == 0 {
        Seq::empty()
    } else {
        deref_nodes(v.drop_last()).push(*v.last())
    }
}

/// Find all nodes with a given name across the entire arena.
pub fn find_nodes_by_name<'a>(arena: &'a RegionArena, name: &str) -> (r: Vec<&'a Node>)
    ensures
        deref_nodes(r@) == nodes_named(arena.node_instances@, name@),
{
    let nodes = &arena.node_instances;
    let mut out: Vec<&'a Node> = Vec::new();
    let mut i: usize = 0;
    while i < nodes.len()
        invariant
            i <= nodes.len(),
            nodes@ == arena.node_instances@,
            deref_nodes(out@) == nodes_named(nodes@.subrange(0, i as int), name@),
        decreases nodes.len() - i,
    {
        assert(nodes@.subrange(0, i + 1).drop_last() =~= nodes@.subrange(0, i as int));
        let ghost prev = out@;
        if str_eq(nodes[i].name.as_str(), name) {
            out.push(&nodes[i]);
            assert(out@.drop_last() =~= prev);
        }
        assert(deref_nodes(out@) =~= nodes_named(nodes@.subrange(0, i + 1), name@));
        i = i + 1;
    }
    assert(nodes@.subrange(0, nodes@.len() as int) =~= nodes@);
    out
}

/// The indices of the regions named `name`, in order.
pub open spec fn regions_named(regions: Seq<(String, usize)>, name: Seq<char>) -> Seq<usize>
    decreases regions.len(),
{
    if regions.len() == 0 {
        Seq::empty()
    } else {
        regions_named(regions.drop_last(), name) + if regions.last().0@ == name {
            seq![regions.last().1]
        } else {
            Seq::empty()
        }
    }
}

/// The indices below `n` of the nodes named `name`, in order.
pub open spec fn indices_named(nodes: Seq<Node>, name: Seq<char>, n: int) -> Seq<usize>
    decreases n,
{
    if n <= 0 {
        Seq::empty()
    } else {
        indices_named(nodes, name, n - 1) + if nodes[n - 1].name@ == name {
            seq![(n - 1) as usize]
        } else {
            Seq::empty()
        }
    }
}

/// Where a path search starts: the regions named like the first element, or,
/// when there is none, every node named so.
pub open spec fn path_start(arena: RegionArena, first: Seq<char>) -> Seq<usize> {
    let r = regions_named(arena.regions_indices@, first);
    if r.len() > 0 {
        r
    } else {
        indices_named(arena.node_instances@, first, arena.node_instances@.len() as int)
    }
}

/// The children named `seg` of the node at `idx`.
pub open spec fn children_named(arena: RegionArena, idx: usize, seg: Seq<char>) -> Seq<usize> {
    match arena.node_at(idx as int) {
        Some(n) => match lookup(n.children@, seg) {
            Some(c) => c@,
            None => Seq::empty(),
        },
        None => Seq::empty(),
    }
}

/// One step of a path search: the children named `seg` of each current node.
pub open spec fn path_step(arena: RegionArena, cur: Seq<usize>, seg: Seq<char>) -> Seq<usize>
    decreases cur.len(),
{
    if cur.len() == 0 {
        Seq::empty()
    } else {
        path_step(arena, cur.drop_last(), seg) + children_named(arena, cur.last(), seg)
    }
}

/// The path search from `cur` along the segments `segs`.
pub open spec fn path_walk(arena: RegionArena, cur: Seq<usize>, segs: Seq<Seq<char>>) -> Seq<usize>
    decreases segs.len(),
{
    if segs.len() == 0 {
        cur
    } else {
        path_walk(arena, path_step(arena, cur, segs[0]), segs.drop_first())
    }
}

/// The nodes at the indices that exist, in order.
pub open spec fn nodes_at(arena: RegionArena, idxs: Seq<usize>) -> Seq<Node>
    decreases idxs.len(),
{
    if idxs.len() == 0 {
        Seq::empty()
    } else {
        nodes_at(arena, idxs.drop_last()) + match arena.node_at(idxs.last() as int) {
            Some(n) => seq![n],
            None => Seq::empty(),
        }
    }
}

/// The texts of a path.
pub open spec fn path_texts(path: Seq<&str>) -> Seq<Seq<char>>
    decreases path.len(),
{
    if path.len() == 0 {
        Seq::empty()
    } else {
        path_texts(path.drop_last()).push(path.last()@)
    }
}

/// The nodes a path like `Globals/Party/Characters` reaches.
pub open spec fn nodes_on_path(arena: RegionArena, path: Seq<Seq<char>>) -> Seq<Node> {
    if path.len() == 0 {
        Seq::empty()
    } else {
        nodes_at(arena, path_walk(arena, path_start(arena, path[0]), path.drop_first()))
    }
}

fn start_indices(arena: &RegionArena, first: &str) -> (r: Vec<usize>)
    ensures
        r@ == path_start(*arena, first@),
{
    let regions = &arena.regions_indices;
    let mut out: Vec<usize> = Vec::new();
    let mut i: usize = 0;
    while i < regions.len()
        invariant
            i <= regions.len(),
            regions@ == arena.regions_indices@,
            out@ == regions_named(regions@.subrange(0, i as int), first@),
        decreases regions.len() - i,
    {
        assert(regions@.subrange(0, i + 1).drop_last() =~= regions@.subrange(0, i as int));
        if str_eq(regions[i].0.as_str(), first) {
            out.push(regions[i].1);
        }
        assert(out@ =~= regions_named(regions@.subrange(0, i + 1), first@));
        i = i + 1;
    }
    assert(regions@.subrange(0, regions@.len() as int) =~= regions@);
    if out.len() > 0 {
        return out;
    }
    let nodes = &arena.node_instances;
    let mut j: usize = 0;
    while j < nodes.len()
        invariant
            j <= nodes.len(),
            nodes@ == arena.node_instances@,
            out@ == indices_named(nodes@, first@, j as int),
        decreases nodes.len() - j,
    {
        if str_eq(nodes[j].name.as_str(), first) {
            out.push(j);
        }
        assert(out@ =~= indices_named(nodes@, first@, j + 1));
        j = j + 1;
    }
    out
}

fn step_indices(arena: &RegionArena, cur: &Vec<usize>, seg: &str) -> (r: Vec<usize>)
    ensures
        r@ == path_step(*arena, cur@, seg@),
{
    let mut next: Vec<usize> = Vec::new();
    let mut i: usize = 0;
    while i < cur.len()
        invariant
            i <= cur.len(),
            next@ == path_step(*arena, cur@.subrange(0, i as int), seg@),
        decreases cur.len() - i,
    {
        assert(cur@.subrange(0, i + 1).drop_last() =~= cur@.subrange(0, i as int));
        let ghost before = next@;
        if let Some(node) = arena.get_node(cur[i]) {
            proof {
                lemma_key_index(node.children@, seg@, 0);
            }
            if let Some(k) = find_key(&node.children, seg) {
                let children = &node.children[k].1;
                let mut c: usize = 0;
                while c < children.len()
                    invariant
                        c <= children.len(),
                        next@ == before + children@.subrange(0, c as int),
                    decreases children.len() - c,
                {
                    next.push(children[c]);
                    assert(next@ =~= before + children@.subrange(0, c + 1));
                    c = c + 1;
                }
                assert(children@.subrange(0, children@.len() as int) =~= children@);
            }
        }
        assert(next@ =~= path_step(*arena, cur@.subrange(0, i + 1), seg@));
        i = i + 1;
    }
    assert(cur@.subrange(0, cur@.len() as int) =~= cur@);
    next
}

/// Walk the tree to find nodes matching a path like "Globals/Party/Characters":
/// start at the regions named like the first element (or, without such a
/// region, at every node named so), then follow the child lists named by the
/// other elements in turn.
pub fn find_nodes_by_path<'a>(arena: &'a RegionArena, path: &[&str]) -> (r: Vec<&'a Node>)
    ensures
        deref_nodes(r@) == nodes_on_path(*arena, path_texts(path@)),
{
    let ghost segs = path_texts(path@);
    proof {
        lemma_path_texts(path@);
    }
    if path.len() == 0 {
        return Vec::new();
    }
    let mut current = start_indices(arena, path[0]);
    let mut i: usize = 1;
    assert(segs.drop_first() =~= segs.subrange(1, segs.len() as int));
    while i < path.len()
        invariant
            1 <= i <= path.len(),
            segs.len() == path@.len(),
            forall|k: int| 0 <= k < segs.len() ==> #[trigger] segs[k] == path@[k]@,
            path_walk(*arena, current@, segs.subrange(i as int, segs.len() as int))
                == path_walk(*arena, path_start(*arena, segs[0]), segs.drop_first()),
        decreases path.len() - i,
    {
        let next = step_indices(arena, &current, path[i]);
        assert(segs.subrange(i as int, segs.len() as int).drop_first() =~= segs.subrange(i + 1, segs.len() as int));
        current = next;
        i = i + 1;
    }
    assert(segs.subrange(i as int, segs.len() as int) =~= Seq::<Seq<char>>::empty());
    let mut out: Vec<&'a Node> = Vec::new();
    let mut k: usize = 0;
    while k < current.len()
        invariant
            k <= current.len(),
            deref_nodes(out@) == nodes_at(*arena, current@.subrange(0, k as int)),
        decreases current.len() - k,
    {
        assert(current@.subrange(0, k + 1).drop_last() =~= current@.subrange(0, k as int));
        let ghost prev = out@;
        if let Some(n) = arena.get_node(current[k]) {
            out.push(n);
            assert(out@.drop_last() =~= prev);
        }
        assert(deref_nodes(out@) =~= nodes_at(*arena, current@.subrange(0, k + 1)));
        k = k + 1;
    }
    assert(current@.subrange(0, current@.len() as int) =~= current@);
    out
}

/// The texts of a path, element by element.
proof fn lemma_path_texts(path: Seq<&str>)
    ensures
        path_texts(path).len() == path.len(),
        forall|k: int| 0 <= k < path.len() ==> #[trigger] path_texts(path)[k] == path[k]@,
    decreases path.len(),
{
    if path.len() > 0 {
        lemma_path_texts(path.drop_last());
    }
}

// ---------------------------------------------------------------------------
// Text dump
// ---------------------------------------------------------------------------

/// Byte values as `{:02x?}` writes a list of them, without the brackets:
/// two lowercase hex digits each, separated by `, `.
pub open spec fn hex_items(b: Seq<u8>) -> Seq<char>
    decreases b.len(),
{
    if b.len() == 0 {
        Seq::empty()
    } else if b.len() == 1 {
        hex2(b[0])
    } else {
        hex_items(b.drop_last()) + ", "@ + hex2(b.last())
    }
}

/// A byte list as `{:02x?}` writes it.
pub open spec fn hex_list(b: Seq<u8>) -> Seq<char> {
    "["@ + hex_items(b) + "]"@
}

/// The display text of an attribute value: strings quoted (translated ones
/// prefixed with `t`), byte arrays by their length and bytes (only the first
/// 16 when there are more than 32), numbers in decimal, vectors as tuples, and
/// the rest by their held text.
#[verifier::opaque]
pub open spec fn attribute_text(v: NodeAttributeValue) -> Seq<char> {
    match v {
        NodeAttributeValue::String(s) => "\""@ + s@ + "\""@,
        NodeAttributeValue::TranslatedString(t) => "t\""@ + t@ + "\""@,
        NodeAttributeValue::Bytes(b) => if b@.len() > 32 {
            "["@ + decimal(b@.len()) + " bytes: "@ + hex_list(b@.subrange(0, 16)) + "...]"@
        } else {
            "["@ + decimal(b@.len()) + " bytes: "@ + hex_list(b@) + "]"@
        },
        NodeAttributeValue::Uuid(u) => u@,
        NodeAttributeValue::Bool(b) => if b { "true"@ } else { "false"@ },
        NodeAttributeValue::Int(v) => signed_decimal(v as int),
        NodeAttributeValue::UInt(v) => decimal(v as nat),
        NodeAttributeValue::Short(v) => signed_decimal(v as int),
        NodeAttributeValue::UShort(v) => decimal(v as nat),
        NodeAttributeValue::Byte(v) => decimal(v as nat),
        NodeAttributeValue::I8(v) => signed_decimal(v as int),
        NodeAttributeValue::Float(t) => t@,
        NodeAttributeValue::Double(t) => t@,
        NodeAttributeValue::Int64(v) => signed_decimal(v as int),
        NodeAttributeValue::UInt64(v) => decimal(v as nat),
        NodeAttributeValue::Vec3(a, b, c) => "("@ + a@ + ", "@ + b@ + ", "@ + c@ + ")"@,
        NodeAttributeValue::Vec4(a, b, c, d) => "("@ + a@ + ", "@ + b@ + ", "@ + c@ + ", "@ + d@ + ")"@,
        NodeAttributeValue::Other(t) => t@,
    }
}

/// Appends `[<b0>, <b1>, ...]` for the first `n` bytes of `b`.
fn push_hex_list(out: &mut Vec<char>, b: &Vec<u8>, n: usize)
    requires
        n <= b.len(),
    ensures
        final(out)@ == old(out)@ + hex_list(b@.subrange(0, n as int)),
{
    broadcast use crate::text::lemma_add_assoc;
    push_str(out, "[");
    let ghost start = out@;
    let mut i: usize = 0;
    while i < n
        invariant
            i <= n,
            n <= b.len(),
            out@ == start + hex_items(b@.subrange(0, i as int)),
        decreases n - i,
    {
        assert(b@.subrange(0, i + 1).drop_last() =~= b@.subrange(0, i as int));
        if i > 0 {
            push_str(out, ", ");
        }
        push_hex2(out, b[i]);
        if i == 0 {
            assert(hex_items(b@.subrange(0, 1)) == hex2(b@[0]));
            assert(out@ =~= start + hex_items(b@.subrange(0, i + 1)));
        }
        i = i + 1;
    }
    push_str(out, "]");
}

/// Appends the display text of an attribute value.
pub fn push_attribute_value(out: &mut Vec<char>, value: &NodeAttributeValue)
    ensures
        final(out)@ == old(out)@ + attribute_text(*value),
{
    broadcast use crate::text::lemma_add_assoc;
    reveal(attribute_text);
    match value {
        NodeAttributeValue::String(s) => {
            push_str(out, "\"");
            push_str(out, s.as_str());
            push_str(out, "\"");
        },
        NodeAttributeValue::TranslatedString(t) => {
            push_str(out, "t\"");
            push_str(out, t.as_str());
            push_str(out, "\"");
        },
        NodeAttributeValue::Bytes(b) => {
            push_str(out, "[");
            push_decimal(out, b.len() as u64);
            push_str(out, " bytes: ");
            if b.len() > 32 {
                push_hex_list(out, b, 16);
                push_str(out, "...]");
            } else {
                push_hex_list(out, b, b.len());
                assert(b@.subrange(0, b@.len() as int) =~= b@);
                push_str(out, "]");
            }
        },
        NodeAttributeValue::Uuid(u) => push_str(out, u.as_str()),
        NodeAttributeValue::Bool(v) => {
            if *v {
                push_str(out, "true");
            } else {
                push_str(out, "false");
            }
        },
        NodeAttributeValue::Int(v) => push_signed(out, *v as i64),
        NodeAttributeValue::UInt(v) => push_decimal(out, *v as u64),
        NodeAttributeValue::Short(v) => push_signed(out, *v as i64),
        NodeAttributeValue::UShort(v) => push_decimal(out, *v as u64),
        NodeAttributeValue::Byte(v) => push_decimal(out, *v as u64),
        NodeAttributeValue::I8(v) => push_signed(out, *v as i64),
        NodeAttributeValue::Float(t) => push_str(out, t.as_str()),
        NodeAttributeValue::Double(t) => push_str(out, t.as_str()),
        NodeAttributeValue::Int64(v) => push_signed(out, *v),
        NodeAttributeValue::UInt64(v) => push_decimal(out, *v),
        NodeAttributeValue::Vec3(a, b, c) => {
            push_str(out, "(");
            push_str(out, a.as_str());
            push_str(out, ", ");
            push_str(out, b.as_str());
            push_str(out, ", ");
            push_str(out, c.as_str());
            push_str(out, ")");
        },
        NodeAttributeValue::Vec4(a, b, c, d) => {
            push_str(out, "(");
            push_str(out, a.as_str());
            push_str(out, ", ");
            push_str(out, b.as_str());
            push_str(out, ", ");
            push_str(out, c.as_str());
            push_str(out, ", ");
            push_str(out, d.as_str());
            push_str(out, ")");
        },
        NodeAttributeValue::Other(t) => push_str(out, t.as_str()),
    }
}

/// Format an attribute value for display, truncating large byte arrays.
pub fn format_attribute_value(value: &NodeAttributeValue) -> (r: String)
    ensures
        r@ == attribute_text(*value),
{
    let mut out: Vec<char> = Vec::new();
    push_attribute_value(&mut out, value);
    assert(out@ =~= attribute_text(*value));
    string_from_chars(out)
}

/// The heading line of a node at `depth`: indentation, name, and the region
/// name for a region node.
pub open spec fn node_header(node: Node, depth: nat) -> Seq<char> {
    repeat("  "@, depth) + node.name@ + " "@ + match node.kind {
        NodeKind::Region { name } => "[Region: "@ + name@ + "]"@,
        NodeKind::Node => Seq::empty(),
    } + "\n"@
}

/// One line per attribute: `@<name>: <type> = <value>`, indented below its node.
pub open spec fn attribute_lines(attrs: Seq<(String, NodeAttribute)>, depth: nat) -> Seq<char>
    decreases attrs.len(),
{
    if attrs.len() == 0 {
        Seq::empty()
    } else {
        attribute_lines(attrs.drop_last(), depth) + repeat("  "@, depth) + "  @"@ + attrs.last().0@ + ": "@
            + attrs.last().1.ty@ + " = "@ + attribute_text(attrs.last().1.value) + "\n"@
    }
}

/// The dump of a node at `depth` and, below it, of its children, down to
/// `max` (nothing beyond).
pub open spec fn dump_node(arena: RegionArena, node: Node, depth: nat, max: nat) -> Seq<char>
    decreases max + 1 - depth, 2int, 0int,
{
    if depth > max {
        Seq::empty()
    } else {
        node_header(node, depth) + attribute_lines(node.attributes@, depth) + dump_lists(arena, node.children@, depth + 1, max)
    }
}

/// The dumps of the children in each child list, list after list.
pub open spec fn dump_lists(arena: RegionArena, lists: Seq<(String, Vec<usize>)>, depth: nat, max: nat) -> Seq<char>
    decreases max + 2 - depth, 1int, lists.len(),
{
    if lists.len() == 0 {
        Seq::empty()
    } else {
        dump_lists(arena, lists.drop_last(), depth, max) + dump_indices(arena, lists.last().1@, depth, max)
    }
}

/// The dumps of the nodes at `idxs` that exist.
pub open spec fn dump_indices(arena: RegionArena, idxs: Seq<usize>, depth: nat, max: nat) -> Seq<char>
    decreases max + 2 - depth, 0int, idxs.len(),
{
    if idxs.len() == 0 {
        Seq::empty()
    } else {
        dump_indices(arena, idxs.drop_last(), depth, max) + if depth <= max {
            match arena.node_at(idxs.last() as int) {
                Some(n) => dump_node(arena, n, depth, max),
                None => Seq::empty(),
            }
        } else {
            Seq::empty()
        }
    }
}

/// `dump_node` unfolded once.
proof fn lemma_dump_node_unfold(arena: RegionArena, node: Node, depth: nat, max: nat)
    ensures
        depth > max ==> dump_node(arena, node, depth, max) == Seq::<char>::empty(),
        depth <= max ==> dump_node(arena, node, depth, max) == node_header(node, depth)
            + attribute_lines(node.attributes@, depth) + dump_lists(arena, node.children@, depth + 1, max),
{
}

/// `dump_lists` of a prefix one list longer.
proof fn lemma_dump_lists_step(arena: RegionArena, lists: Seq<(String, Vec<usize>)>, i: int, depth: nat, max: nat)
    requires
        0 <= i < lists.len(),
    ensures
        dump_lists(arena, lists.subrange(0, i + 1), depth, max) == dump_lists(arena, lists.subrange(0, i), depth, max)
            + dump_indices(arena, lists[i].1@, depth, max),
{
    assert(lists.subrange(0, i + 1).drop_last() =~= lists.subrange(0, i));
    assert(lists.subrange(0, i + 1).last() == lists[i]);
}

/// `dump_indices` of a prefix one index longer.
proof fn lemma_dump_indices_step(arena: RegionArena, idxs: Seq<usize>, j: int, depth: nat, max: nat)
    requires
        0 <= j < idxs.len(),
        depth <= max,
    ensures
        dump_indices(arena, idxs.subrange(0, j + 1), depth, max) == dump_indices(arena, idxs.subrange(0, j), depth, max)
            + match arena.node_at(idxs[j] as int) {
                Some(n) => dump_node(arena, n, depth, max),
                None => Seq::empty(),
            },
{
    assert(idxs.subrange(0, j + 1).drop_last() =~= idxs.subrange(0, j));
    assert(idxs.subrange(0, j + 1).last() == idxs[j]);
}

/// The dump of no lists or no indices is empty.
proof fn lemma_dump_empty(arena: RegionArena, lists: Seq<(String, Vec<usize>)>, idxs: Seq<usize>, depth: nat, max: nat)
    ensures
        lists.len() == 0 ==> dump_lists(arena, lists, depth, max) == Seq::<char>::empty(),
        idxs.len() == 0 ==> dump_indices(arena, idxs, depth, max) == Seq::<char>::empty(),
{
}

/// Below the maximum depth nothing is dumped.
proof fn lemma_dump_lists_too_deep(arena: RegionArena, lists: Seq<(String, Vec<usize>)>, depth: nat, max: nat)
    requires
        depth > max,
    ensures
        dump_lists(arena, lists, depth, max) == Seq::<char>::empty(),
    decreases lists.len(),
{
    if lists.len() > 0 {
        lemma_dump_lists_too_deep(arena, lists.drop_last(), depth, max);
        lemma_dump_indices_too_deep(arena, lists.last().1@, depth, max);
    }
}

proof fn lemma_dump_indices_too_deep(arena: RegionArena, idxs: Seq<usize>, depth: nat, max: nat)
    requires
        depth > max,
    ensures
        dump_indices(arena, idxs, depth, max) == Seq::<char>::empty(),
    decreases idxs.len(),
{
    if idxs.len() > 0 {
        lemma_dump_indices_too_deep(arena, idxs.drop_last(), depth, max);
        assert(dump_indices(arena, idxs, depth, max) =~= Seq::<char>::empty());
    }
}

fn push_attribute_lines(out: &mut Vec<char>, attrs: &Vec<(String, NodeAttribute)>, depth: usize)
    ensures
        final(out)@ == old(out)@ + attribute_lines(attrs@, depth as nat),
{
    broadcast use crate::text::lemma_add_assoc;
    let mut i: usize = 0;
    while i < attrs.len()
        invariant
            i <= attrs.len(),
            out@ == old(out)@ + attribute_lines(attrs@.subrange(0, i as int), depth as nat),
        decreases attrs.len() - i,
    {
        assert(attrs@.subrange(0, i + 1).drop_last() =~= attrs@.subrange(0, i as int));
        push_repeat(out, "  ", depth);
        push_str(out, "  @");
        push_str(out, attrs[i].0.as_str());
        push_str(out, ": ");
        push_str(out, attrs[i].1.ty.as_str());
        push_str(out, " = ");
        push_attribute_value(out, &attrs[i].1.value);
        push_str(out, "\n");
        i = i + 1;
    }
    assert(attrs@.subrange(0, attrs@.len() as int) =~= attrs@);
}

fn push_node_header(output: &mut Vec<char>, node: &Node, depth: usize)
    ensures
        final(output)@ == old(output)@ + node_header(*node, depth as nat),
{
    broadcast use crate::text::lemma_add_assoc;
    push_repeat(output, "  ", depth);
    push_str(output, node.name.as_str());
    push_str(output, " ");
    match &node.kind {
        NodeKind::Region { name } => {
            push_str(output, "[Region: ");
            push_str(output, name.as_str());
            push_str(output, "]");
        },
        NodeKind::Node => {
            assert(output@ + Seq::<char>::empty() =~= output@);
        },
    }
    push_str(output, "\n");
}

/// Appends the dump of `node` at `depth` and of its children down to `max_depth`.
#[verifier::spinoff_prover]
#[verifier::rlimit(40)]
fn dump_node_recursive(arena: &RegionArena, node: &Node, depth: usize, max_depth: usize, output: &mut Vec<char>)
    ensures
        final(output)@ == old(output)@ + dump_node(*arena, *node, depth as nat, max_depth as nat),
    decreases max_depth + 1 - depth,
{
    broadcast use crate::text::lemma_add_assoc;
    proof {
        lemma_dump_node_unfold(*arena, *node, depth as nat, max_depth as nat);
    }
    if depth > max_depth {
        assert(output@ + Seq::<char>::empty() =~= output@);
        return;
    }
    push_node_header(output, node, depth);
    push_attribute_lines(output, &node.attributes, depth);
    let ghost before_children = output@;
    if depth < max_depth {
        let lists = &node.children;
        let mut i: usize = 0;
        proof {
            lemma_dump_empty(*arena, lists@.subrange(0, 0), Seq::empty(), depth as nat + 1, max_depth as nat);
        }
        assert(output@ + Seq::<char>::empty() =~= output@);
        while i < lists.len()
            invariant
                i <= lists.len(),
                depth < max_depth,
                output@ == before_children + dump_lists(*arena, lists@.subrange(0, i as int), depth as nat + 1, max_depth as nat),
            decreases lists.len() - i,
        {
            proof {
                lemma_dump_lists_step(*arena, lists@, i as int, depth as nat + 1, max_depth as nat);
            }
            let idxs = &lists[i].1;
            let ghost before_list = output@;
            let mut j: usize = 0;
            proof {
                lemma_dump_empty(*arena, Seq::empty(), idxs@.subrange(0, 0), depth as nat + 1, max_depth as nat);
            }
            assert(output@ + Seq::<char>::empty() =~= output@);
            while j < idxs.len()
                invariant
                    j <= idxs.len(),
                    depth < max_depth,
                    output@ == before_list + dump_indices(*arena, idxs@.subrange(0, j as int), depth as nat + 1, max_depth as nat),
                decreases idxs.len() - j,
            {
                proof {
                    lemma_dump_indices_step(*arena, idxs@, j as int, depth as nat + 1, max_depth as nat);
                }
                if let Some(child) = arena.get_node(idxs[j]) {
                    dump_node_recursive(arena, child, depth + 1, max_depth, output);
                } else {
                    assert(output@ + Seq::<char>::empty() =~= output@);
                }
                j = j + 1;
            }
            assert(idxs@.subrange(0, idxs@.len() as int) =~= idxs@);
            i = i + 1;
        }
        assert(lists@.subrange(0, lists@.len() as int) =~= lists@);
    } else {
        proof {
            lemma_dump_lists_too_deep(*arena, node.children@, depth as nat + 1, max_depth as nat);
        }
        assert(output@ + Seq::<char>::empty() =~= output@);
    }
}

/// The region indices, in order.
pub open spec fn region_indices(regions: Seq<(String, usize)>) -> Seq<usize>
    decreases regions.len(),
{
    if regions.len() == 0 {
        Seq::empty()
    } else {
        region_indices(regions.drop_last()).push(regions.last().1)
    }
}

/// The dumps of `nodes` from depth 0, one after the other.
pub open spec fn dump_roots(arena: RegionArena, nodes: Seq<Node>, max: nat) -> Seq<char>
    decreases nodes.len(),
{
    if nodes.len() == 0 {
        Seq::empty()
    } else {
        dump_roots(arena, nodes.drop_last(), max) + dump_node(arena, nodes.last(), 0, max)
    }
}

impl RegionArena {
    /// The nodes that head the regions, in region order (regions whose node
    /// does not exist are skipped).
    pub fn get_region_nodes(&self) -> (r: Vec<&Node>)
        ensures
            deref_nodes(r@) == nodes_at(*self, region_indices(self.regions_indices@)),
    {
        let mut out: Vec<&Node> = Vec::new();
        let ghost idxs = region_indices(self.regions_indices@);
        let mut i: usize = 0;
        while i < self.regions_indices.len()
            invariant
                i <= self.regions_indices.len(),
                deref_nodes(out@) == nodes_at(*self, region_indices(self.regions_indices@.subrange(0, i as int))),
            decreases self.regions_indices.len() - i,
        {
            let ghost prev = out@;
            let ghost pre = self.regions_indices@.subrange(0, i as int);
            let ghost post = self.regions_indices@.subrange(0, i + 1);
            assert(post.drop_last() =~= pre);
            assert(region_indices(post).drop_last() =~= region_indices(pre));
            if let Some(n) = self.get_node(self.regions_indices[i].1) {
                out.push(n);
                assert(out@.drop_last() =~= prev);
            }
            assert(deref_nodes(out@) =~= nodes_at(*self, region_indices(post)));
            i = i + 1;
        }
        assert(self.regions_indices@.subrange(0, self.regions_indices@.len() as int) =~= self.regions_indices@);
        out
    }
}

/// Recursively dump the node tree for debugging/exploration: each region's
/// node and its descendants down to `max_depth`, one line per node and per
/// attribute, indented two spaces per level.
pub fn dump_tree(arena: &RegionArena, max_depth: usize) -> (r: String)
    ensures
        r@ == dump_roots(*arena, nodes_at(*arena, region_indices(arena.regions_indices@)), max_depth as nat),
{
    let roots = arena.get_region_nodes();
    let mut output: Vec<char> = Vec::new();
    let mut i: usize = 0;
    while i < roots.len()
        invariant
            i <= roots.len(),
            output@ == dump_roots(*arena, deref_nodes(roots@.subrange(0, i as int)), max_depth as nat),
        decreases roots.len() - i,
    {
        broadcast use crate::text::lemma_add_assoc;
        assert(roots@.subrange(0, i + 1).drop_last() =~= roots@.subrange(0, i as int));
        assert(deref_nodes(roots@.subrange(0, i + 1)).drop_last() =~= deref_nodes(roots@.subrange(0, i as int)));
        assert(deref_nodes(roots@.subrange(0, i + 1)).last() == *roots@[i as int]);
        dump_node_recursive(arena, roots[i], 0, max_depth, &mut output);
        i = i + 1;
    }
    assert(roots@.subrange(0, roots@.len() as int) =~= roots@);
    string_from_chars(output)
}

} // verus!
