//! The nodes of a trie path as they are handed in, and their description
//! line by line for a reader: every label with the value that stands
//! behind it, byte strings in hexadecimal.

use vstd::prelude::*;

verus! {

/// The kind of change that a proof is about.
#[derive(Clone, Copy, Debug, PartialEq, Eq, Structural)]
pub enum MPTProofType {
    Disabled,
    NonceChanged,
    BalanceChanged,
    CodeHashChanged,
    AccountDestructed,
    AccountDoesNotExist,
    StorageChanged,
    StorageDoesNotExist,
    AccountCreate,
}

/// The node that opens a proof.
#[derive(Debug)]
pub struct StartNode {
    pub proof_type: MPTProofType,
    pub disable_preimage_check: bool,
}

/// The extension part of a branch.
#[derive(Debug)]
pub struct ExtensionNode {
    pub list_rlp_bytes: Vec<u8>,
}

/// The branch part of a branch.
#[derive(Debug)]
pub struct BranchNode {
    pub modified_index: usize,
    pub drifted_index: usize,
    pub list_rlp_bytes: [Vec<u8>; 2],
}

/// A branch with its extension.
#[derive(Debug)]
pub struct ExtensionBranchNode {
    pub is_extension: bool,
    pub is_placeholder: [bool; 2],
    pub extension: ExtensionNode,
    pub branch: BranchNode,
}

/// An account leaf.
#[derive(Debug)]
pub struct AccountNode {
    pub address: Vec<u8>,
    pub key: Vec<u8>,
    pub list_rlp_bytes: [Vec<u8>; 2],
    pub value_rlp_bytes: [Vec<u8>; 2],
    pub value_list_rlp_bytes: [Vec<u8>; 2],
    pub drifted_rlp_bytes: Vec<u8>,
    pub wrong_rlp_bytes: Vec<u8>,
}

/// A storage leaf.
#[derive(Debug)]
pub struct StorageNode {
    pub address: Vec<u8>,
    pub key: Vec<u8>,
    pub list_rlp_bytes: [Vec<u8>; 2],
    pub value_rlp_bytes: [Vec<u8>; 2],
    pub drifted_rlp_bytes: Vec<u8>,
    pub wrong_rlp_bytes: Vec<u8>,
}

/// One node of a trie path.
#[derive(Debug)]
pub struct Node {
    pub start: Option<StartNode>,
    pub extension_branch: Option<ExtensionBranchNode>,
    pub account: Option<AccountNode>,
    pub storage: Option<StorageNode>,
    pub values: Vec<Vec<u8>>,
    pub keccak_data: Vec<Vec<u8>>,
}

/// What stands behind the label of a line.
#[derive(Debug, PartialEq, Eq)]
pub enum Shown {
    /// Nothing: the line is a heading.
    Heading,
    /// A kind of proof.
    Proof(MPTProofType),
    /// A flag.
    Flag(bool),
    /// A pair of flags, for the S and the C side.
    Flags(bool, bool),
    /// A number.
    Number(usize),
    /// A byte string in hexadecimal.
    Hex(String),
    /// An entry of a list: its position and its bytes in hexadecimal.
    Item(usize, String),
}

/// What stands behind the label of a line, with its text as characters.
pub enum ShownView {
    Heading,
    Proof(MPTProofType),
    Flag(bool),
    Flags(bool, bool),
    Number(usize),
    Hex(Seq<char>),
    Item(usize, Seq<char>),
}

/// One line of a description.
#[derive(Debug, PartialEq, Eq)]
pub struct Line {
    /// The label with its indentation.
    pub label: &'static str,
    pub shown: Shown,
}

/// One line of a description, with its texts as characters.
pub struct LineView {
    pub label: Seq<char>,
    pub shown: ShownView,
}

impl View for Shown {
    type V = ShownView;

    open spec fn view(&self) -> ShownView {
        match *self {
            Shown::Heading => ShownView::Heading,
            Shown::Proof(p) => ShownView::Proof(p),
            Shown::Flag(b) => ShownView::Flag(b),
            Shown::Flags(s, c) => ShownView::Flags(s, c),
            Shown::Number(n) => ShownView::Number(n),
            Shown::Hex(h) => ShownView::Hex(h@),
            Shown::Item(i, h) => ShownView::Item(i, h@),
        }
    }
}

impl View for Line {
    type V = LineView;

    open spec fn view(&self) -> LineView {
        LineView { label: self.label@, shown: self.shown@ }
    }
}

/// The views of a sequence of lines.
pub open spec fn views(lines: Seq<Line>) -> Seq<LineView> {
    lines.map_values(|l: Line| l@)
}

/// The lowercase hexadecimal digit of a value below 16.
pub open spec fn hex_digit(v: int) -> char {
    seq!['0', '1', '2', '3', '4', '5', '6', '7', '8', '9', 'a', 'b', 'c', 'd', 'e', 'f'][v]
}

/// A byte string in hexadecimal: two lowercase digits for each byte, the
/// high half first.
pub open spec fn hex_text(bytes: Seq<u8>) -> Seq<char> {
    Seq::new(
        2 * bytes.len(),
        |i: int|
            hex_digit(
                if i % 2 == 0 {
                    bytes[i / 2] as int / 16
                } else {
                    bytes[i / 2] as int % 16
                },
            ),
    )
}

/// `hex::encode`: each byte of the input as two lowercase hexadecimal
/// digits, the high half first, so that the text is twice as long as the
/// input.
#[verifier::external_body]
fn hex_encode(bytes: &[u8]) -> (text: String)
    ensures
        text@ == hex_text(bytes@),
{
    hex::encode(bytes)
}

/// A heading.
pub open spec fn heading(label: &'static str) -> LineView {
    LineView { label: label@, shown: ShownView::Heading }
}

/// A line with a byte string.
pub open spec fn hex_line(label: &'static str, bytes: Seq<u8>) -> LineView {
    LineView { label: label@, shown: ShownView::Hex(hex_text(bytes)) }
}

/// The lines of an opening node.
pub open spec fn start_lines(start: StartNode) -> Seq<LineView> {
    seq![
        heading("   start:"),
        LineView { label: "      proof_type: "@, shown: ShownView::Proof(start.proof_type) },
        LineView {
            label: "      disable_preimage_check: "@,
            shown: ShownView::Flag(start.disable_preimage_check),
        },
    ]
}

/// The lines of a branch with its extension.
pub open spec fn extension_branch_lines(node: ExtensionBranchNode) -> Seq<LineView> {
    seq![
        heading("   extension_branch:"),
        LineView { label: "      is_extension: "@, shown: ShownView::Flag(node.is_extension) },
        LineView {
            label: "      is_placeholder: "@,
            shown: ShownView::Flags(node.is_placeholder@[0], node.is_placeholder@[1]),
        },
        heading("      extension:"),
        hex_line("         list_rlp_bytes: ", node.extension.list_rlp_bytes@),
        heading("      branch:"),
        LineView {
            label: "         modified_index: "@,
            shown: ShownView::Number(node.branch.modified_index),
        },
        LineView {
            label: "         drifted_index: "@,
            shown: ShownView::Number(node.branch.drifted_index),
        },
        hex_line("         list_rlp_bytes[0]: ", node.branch.list_rlp_bytes@[0]@),
        hex_line("         list_rlp_bytes[1]: ", node.branch.list_rlp_bytes@[1]@),
    ]
}

/// The lines of an account leaf.
pub open spec fn account_lines(node: AccountNode) -> Seq<LineView> {
    seq![
        heading("   account:"),
        hex_line("       address: ", node.address@),
        hex_line("       key: ", node.key@),
        hex_line("       list_rlp_bytes[0]: ", node.list_rlp_bytes@[0]@),
        hex_line("       list_rlp_bytes[1]: ", node.list_rlp_bytes@[1]@),
        hex_line("       value_rlp_bytes[0]: ", node.value_rlp_bytes@[0]@),
        hex_line("       value_rlp_bytes[1]: ", node.value_rlp_bytes@[1]@),
        hex_line("       value_list_rlp_bytes[0]: ", node.value_list_rlp_bytes@[0]@),
        hex_line("       value_list_rlp_bytes[1]: ", node.value_list_rlp_bytes@[1]@),
        hex_line("       drifted_rlp_bytes: ", node.drifted_rlp_bytes@),
        hex_line("       wrong_rlp_bytes: ", node.wrong_rlp_bytes@),
    ]
}

/// The lines of a storage leaf.
pub open spec fn storage_lines(node: StorageNode) -> Seq<LineView> {
    seq![
        heading("   storage:"),
        hex_line("       address: ", node.address@),
        hex_line("       key: ", node.key@),
        hex_line("       list_rlp_bytes[0]: ", node.list_rlp_bytes@[0]@),
        hex_line("       list_rlp_bytes[1]: ", node.list_rlp_bytes@[1]@),
        hex_line("       value_rlp_bytes[0]: ", node.value_rlp_bytes@[0]@),
        hex_line("       value_rlp_bytes[1]: ", node.value_rlp_bytes@[1]@),
        hex_line("       drifted_rlp_bytes: ", node.drifted_rlp_bytes@),
        hex_line("       wrong_rlp_bytes: ", node.wrong_rlp_bytes@),
    ]
}

/// The lines of a list of byte strings under a heading: one line for each
/// entry, with its position.
pub open spec fn list_lines(title: &'static str, list: Seq<Vec<u8>>) -> Seq<LineView> {
    seq![heading(title)] + Seq::new(
        list.len(),
        |i: int| LineView { label: "      "@, shown: ShownView::Item(i as usize, hex_text(list[i]@)) },
    )
}

/// The lines of a node: its heading, then each part that it has, then its
/// values and the data to be hashed.
pub open spec fn node_lines(node: Node) -> Seq<LineView> {
    seq![heading("node:")] + (match node.start {
        Some(start) => start_lines(start),
        None => Seq::empty(),
    }) + (match node.extension_branch {
        Some(branch) => extension_branch_lines(branch),
        None => Seq::empty(),
    }) + (match node.account {
        Some(account) => account_lines(account),
        None => Seq::empty(),
    }) + (match node.storage {
        Some(storage) => storage_lines(storage),
        None => Seq::empty(),
    }) + list_lines("   values:", node.values@) + list_lines("   keccak_data:", node.keccak_data@)
}

/// The lines of a path, node after node.
pub open spec fn path_lines(nodes: Seq<Node>) -> Seq<LineView>
    decreases nodes.len(),
{
    if nodes.len() == 0 {
        Seq::empty()
    } else {
        path_lines(nodes.drop_last()) + node_lines(nodes.last())
    }
}

fn heading_line(label: &'static str) -> (line: Line)
    ensures
        line@ == heading(label),
{
    Line { label, shown: Shown::Heading }
}

fn hex_of(label: &'static str, bytes: &Vec<u8>) -> (line: Line)
    ensures
        line@ == hex_line(label, bytes@),
{
    Line { label, shown: Shown::Hex(hex_encode(bytes.as_slice())) }
}

/// The lines of an opening node.
pub fn describe_start(start: &StartNode) -> (lines: Vec<Line>)
    ensures
        views(lines@) == start_lines(*start),
{
    let mut lines: Vec<Line> = Vec::new();
    lines.push(heading_line("   start:"));
    lines.push(Line { label: "      proof_type: ", shown: Shown::Proof(start.proof_type) });
    lines.push(
        Line {
            label: "      disable_preimage_check: ",
            shown: Shown::Flag(start.disable_preimage_check),
        },
    );
    assert(views(lines@) =~= start_lines(*start));
    lines
}

/// The lines of a branch with its extension.
pub fn describe_extension_branch(node: &ExtensionBranchNode) -> (lines: Vec<Line>)
    ensures
        views(lines@) == extension_branch_lines(*node),
{
    let mut lines: Vec<Line> = Vec::new();
    lines.push(heading_line("   extension_branch:"));
    lines.push(Line { label: "      is_extension: ", shown: Shown::Flag(node.is_extension) });
    lines.push(
        Line {
            label: "      is_placeholder: ",
            shown: Shown::Flags(node.is_placeholder[0], node.is_placeholder[1]),
        },
    );
    lines.push(heading_line("      extension:"));
    lines.push(hex_of("         list_rlp_bytes: ", &node.extension.list_rlp_bytes));
    lines.push(heading_line("      branch:"));
    lines.push(
        Line { label: "         modified_index: ", shown: Shown::Number(node.branch.modified_index) },
    );
    lines.push(
        Line { label: "         drifted_index: ", shown: Shown::Number(node.branch.drifted_index) },
    );
    lines.push(hex_of("         list_rlp_bytes[0]: ", &node.branch.list_rlp_bytes[0]));
    lines.push(hex_of("         list_rlp_bytes[1]: ", &node.branch.list_rlp_bytes[1]));
    assert(views(lines@) =~= extension_branch_lines(*node));
    lines
}

/// The lines of an account leaf.
pub fn describe_account(node: &AccountNode) -> (lines: Vec<Line>)
    ensures
        views(lines@) == account_lines(*node),
{
    let mut lines: Vec<Line> = Vec::new();
    lines.push(heading_line("   account:"));
    lines.push(hex_of("       address: ", &node.address));
    lines.push(hex_of("       key: ", &node.key));
    lines.push(hex_of("       list_rlp_bytes[0]: ", &node.list_rlp_bytes[0]));
    lines.push(hex_of("       list_rlp_bytes[1]: ", &node.list_rlp_bytes[1]));
    lines.push(hex_of("       value_rlp_bytes[0]: ", &node.value_rlp_bytes[0]));
    lines.push(hex_of("       value_rlp_bytes[1]: ", &node.value_rlp_bytes[1]));
    lines.push(hex_of("       value_list_rlp_bytes[0]: ", &node.value_list_rlp_bytes[0]));
    lines.push(hex_of("       value_list_rlp_bytes[1]: ", &node.value_list_rlp_bytes[1]));
    lines.push(hex_of("       drifted_rlp_bytes: ", &node.drifted_rlp_bytes));
    lines.push(hex_of("       wrong_rlp_bytes: ", &node.wrong_rlp_bytes));
    assert(views(lines@) =~= account_lines(*node));
    lines
}

/// The lines of a storage leaf.
pub fn describe_storage(node: &StorageNode) -> (lines: Vec<Line>)
    ensures
        views(lines@) == storage_lines(*node),
{
    let mut lines: Vec<Line> = Vec::new();
    lines.push(heading_line("   storage:"));
    lines.push(hex_of("       address: ", &node.address));
    lines.push(hex_of("       key: ", &node.key));
    lines.push(hex_of("       list_rlp_bytes[0]: ", &node.list_rlp_bytes[0]));
    lines.push(hex_of("       list_rlp_bytes[1]: ", &node.list_rlp_bytes[1]));
    lines.push(hex_of("       value_rlp_bytes[0]: ", &node.value_rlp_bytes[0]));
    lines.push(hex_of("       value_rlp_bytes[1]: ", &node.value_rlp_bytes[1]));
    lines.push(hex_of("       drifted_rlp_bytes: ", &node.drifted_rlp_bytes));
    lines.push(hex_of("       wrong_rlp_bytes: ", &node.wrong_rlp_bytes));
    assert(views(lines@) =~= storage_lines(*node));
    lines
}

/// The lines of a list of byte strings under a heading.
pub fn describe_list(title: &'static str, list: &Vec<Vec<u8>>) -> (lines: Vec<Line>)
    ensures
        views(lines@) == list_lines(title, list@),
{
    let mut lines: Vec<Line> = Vec::new();
    lines.push(heading_line(title));
    let n: usize = list.len();
    let mut i: usize = 0;
    while i < n
        invariant
            i <= n,
            n == list@.len(),
            lines@.len() == 1 + i,
            lines@[0]@ == heading(title),
            forall|j: int|
                0 <= j < i ==> (#[trigger] lines@[1 + j])@ == (LineView {
                    label: "      "@,
                    shown: ShownView::Item(j as usize, hex_text(list@[j]@)),
                }),
        decreases n - i,
    {
        lines.push(Line { label: "      ", shown: Shown::Item(i, hex_encode(list[i].as_slice())) });
        i = i + 1;
    }
    assert(views(lines@) =~= list_lines(title, list@)) by {
        assert forall|k: int| 0 <= k < lines@.len() implies views(lines@)[k] == list_lines(
            title,
            list@,
        )[k] by {
            if k > 0 {
                assert(lines@[1 + (k - 1)]@ == list_lines(title, list@)[k]);
            }
        }
    }
    lines
}

/// Adds the lines of `more` to `lines`.
fn extend(lines: &mut Vec<Line>, more: Vec<Line>)
    ensures
        views(final(lines)@) == views(old(lines)@) + views(more@),
{
    let ghost added = more@;
    let mut more = more;
    lines.append(&mut more);
    assert(views(lines@) =~= views(old(lines)@) + views(added));
}

/// The lines of a node.
pub fn describe_node(node: &Node) -> (lines: Vec<Line>)
    ensures
        views(lines@) == node_lines(*node),
{
    let mut lines: Vec<Line> = Vec::new();
    lines.push(heading_line("node:"));
    assert(views(lines@) =~= seq![heading("node:")]);
    match &node.start {
        Some(start) => extend(&mut lines, describe_start(start)),
        None => {
            assert(views(lines@) + Seq::<LineView>::empty() =~= views(lines@));
        },
    }
    match &node.extension_branch {
        Some(branch) => extend(&mut lines, describe_extension_branch(branch)),
        None => {
            assert(views(lines@) + Seq::<LineView>::empty() =~= views(lines@));
        },
    }
    match &node.account {
        Some(account) => extend(&mut lines, describe_account(account)),
        None => {
            assert(views(lines@) + Seq::<LineView>::empty() =~= views(lines@));
        },
    }
    match &node.storage {
        Some(storage) => extend(&mut lines, describe_storage(storage)),
        None => {
            assert(views(lines@) + Seq::<LineView>::empty() =~= views(lines@));
        },
    }
    extend(&mut lines, describe_list("   values:", &node.values));
    extend(&mut lines, describe_list("   keccak_data:", &node.keccak_data));
    lines
}

/// The lines of a path, node after node.
pub fn describe_nodes(nodes: &Vec<Node>) -> (lines: Vec<Line>)
    ensures
        views(lines@) == path_lines(nodes@),
{
    let mut lines: Vec<Line> = Vec::new();
    let n: usize = nodes.len();
    let mut i: usize = 0;
    assert(views(lines@) =~= path_lines(nodes@.subrange(0, 0)));
    while i < n
        invariant
            i <= n,
            n == nodes@.len(),
            views(lines@) == path_lines(nodes@.subrange(0, i as int)),
        decreases n - i,
    {
        extend(&mut lines, describe_node(&nodes[i]));
        proof {
            let next = nodes@.subrange(0, i + 1);
            assert(next.drop_last() =~= nodes@.subrange(0, i as int));
            assert(next.last() == nodes@[i as int]);
        }
        i = i + 1;
    }
    assert(nodes@.subrange(0, n as int) =~= nodes@);
    lines
}

} // verus!
