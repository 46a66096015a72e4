//! Identities of cluster nodes and message sequence numbers.
use vstd::prelude::*;
use vstd::string::StringSliceAdditionalSpecFns;

verus! {

/// The value of a decimal digit byte.
pub open spec fn digit_value(b: u8) -> nat {
    (b - 48u8) as nat
}

pub open spec fn is_digit(b: u8) -> bool {
    48u8 <= b <= 57u8
}

/// The number that a string of decimal digits denotes.
pub open spec fn decimal_value(s: Seq<u8>) -> nat
    decreases s.len(),
{
    if s.len() == 0 {
        0
    } else {
        decimal_value(s.drop_last()) * 10 + digit_value(s.last())
    }
}

/// A label of the form `n<index>`: the letter `n` followed by one or more
/// decimal digits.
pub open spec fn is_node_label(b: Seq<u8>) -> bool {
    &&& b.len() >= 2
    &&& b[0] == 110u8
    &&& forall|i: int| 1 <= i < b.len() ==> is_digit(#[trigger] b[i])
}

/// The index that a node label denotes, when it is a label and the index fits
/// in a `usize`.
pub open spec fn label_index(b: Seq<u8>) -> Option<usize> {
    if is_node_label(b) && decimal_value(b.drop_first()) <= usize::MAX {
        Some(decimal_value(b.drop_first()) as usize)
    } else {
        None
    }
}

/// The identity of a cluster node, `n<index>`. Index 0 is the hub.
#[derive(Clone, Copy, Debug, PartialEq, Eq, Hash, Structural)]
pub struct NodeId {
    pub index: usize,
}

impl NodeId {
    pub open spec fn is_hub(self) -> bool {
        self.index == 0
    }

    pub fn new(id: usize) -> (r: NodeId)
        ensures
            r.index == id,
    {
        NodeId { index: id }
    }

    /// The numeric index of this node.
    pub fn id_number(&self) -> (r: usize)
        ensures
            r == self.index,
    {
        self.index
    }

    /// The numeric index of this node.
    pub fn index(&self) -> (r: usize)
        ensures
            r == self.index,
    {
        self.index
    }

    /// Whether this node is the hub, the node of index 0.
    pub fn is_hub_node(&self) -> (r: bool)
        ensures
            r == self.is_hub(),
    {
        self.index == 0
    }

    /// Reads a label `n<index>` with a decimal index of any number of digits.
    /// Anything else, or an index that does not fit in a `usize`, gives
    /// `None`.
    pub fn parse(label: &str) -> (r: Option<NodeId>)
        ensures
            r == (match label_index(label.spec_bytes()) {
                Some(i) => Some(NodeId { index: i }),
                None => None::<NodeId>,
            }),
    {
        let bytes = label.as_bytes();
        match parse_label_bytes(bytes) {
            Some(i) => Some(NodeId { index: i }),
            None => None,
        }
    }
}

proof fn lemma_decimal_push(s: Seq<u8>, b: u8)
    ensures
        decimal_value(s.push(b)) == decimal_value(s) * 10 + digit_value(b),
{
    assert(s.push(b).drop_last() =~= s);
}

/// Reads the index of a node label given as bytes.
pub fn parse_label_bytes(b: &[u8]) -> (r: Option<usize>)
    ensures
        r == label_index(b@),
{
    let n = b.len();
    if n < 2 || b[0] != 110u8 {
        return None;
    }
    let mut value: usize = 0;
    let mut i: usize = 1;
    while i < n
        invariant
            1 <= i <= n,
            n == b@.len(),
            b@[0] == 110u8,
            forall|j: int| 1 <= j < i ==> is_digit(#[trigger] b@[j]),
            value as nat == decimal_value(b@.subrange(1, i as int)),
        decreases n - i,
    {
        let c = b[i];
        if c < 48u8 || c > 57u8 {
            assert(!is_node_label(b@));
            return None;
        }
        let d: usize = (c - 48u8) as usize;
        proof {
            assert(b@.subrange(1, i as int + 1) =~= b@.subrange(1, i as int).push(c));
            lemma_decimal_push(b@.subrange(1, i as int), c);
        }
        if value > (usize::MAX - d) / 10 {
            proof {
                assert(decimal_value(b@.subrange(1, i as int + 1)) > usize::MAX) by (nonlinear_arith)
                    requires
                        value > (usize::MAX - d) / 10,
                        decimal_value(b@.subrange(1, i as int + 1)) == value * 10 + d,
                        d <= 9,
                ;
                lemma_prefix_bound(b@, i as int + 1);
            }
            return None;
        }
        value = value * 10 + d;
        i = i + 1;
    }
    assert(b@.subrange(1, n as int) =~= b@.drop_first());
    Some(value)
}

/// The value of a digit string is at least that of each of its prefixes.
proof fn lemma_prefix_bound(b: Seq<u8>, k: int)
    requires
        1 <= k <= b.len(),
        forall|j: int| 1 <= j < k ==> is_digit(#[trigger] b[j]),
    ensures
        is_node_label(b) ==> decimal_value(b.drop_first()) >= decimal_value(b.subrange(1, k)),
    decreases b.len() - k,
{
    if k < b.len() && is_node_label(b) {
        lemma_prefix_bound(b, k + 1);
        assert(b.subrange(1, k + 1) =~= b.subrange(1, k).push(b[k]));
        lemma_decimal_push(b.subrange(1, k), b[k]);
    } else if k == b.len() {
        assert(b.subrange(1, k) =~= b.drop_first());
    }
}

/// A message sequence number.
#[derive(Clone, Copy, Debug, PartialEq, Eq, Hash, Structural)]
pub struct MessageId {
    pub id: usize,
}

impl MessageId {
    pub fn new(id: usize) -> (r: MessageId)
        ensures
            r.id == id,
    {
        MessageId { id }
    }

    /// The next sequence number.
    pub fn increment(&self) -> (r: MessageId)
        requires
            self.id < usize::MAX,
        ensures
            r.id == self.id + 1,
    {
        MessageId { id: self.id + 1 }
    }
}

} // verus!
