//! The directory-tree text serialization that LIST sends: for a directory,
//! the name followed by its entries between '{' and '}'; for a file, the name
//! followed by ','.
//!
//! The tree itself is a value: whoever walks a real filesystem builds an
//! `FsNode` first, and the serializer — and everything proved about it —
//! works on that value alone.

use vstd::prelude::*;
use crate::bytes::push_bytes;

verus! {

/// ASCII '{': opens a directory's entry list.
pub const LBRACE: u8 = 123;

/// ASCII '}': closes a directory's entry list.
pub const RBRACE: u8 = 125;

/// ASCII ',': ends a file name.
pub const COMMA: u8 = 44;

/// One node of a directory tree: a file, or a directory with its entries in
/// listing order.
pub enum FsNode {
    File { name: Vec<u8> },
    Dir { name: Vec<u8>, entries: Vec<FsNode> },
}

/// The serialization of one node.
pub open spec fn spec_serialize(node: FsNode) -> Seq<u8>
    decreases node,
{
    match node {
        FsNode::File { name } => name@ + seq![COMMA],
        FsNode::Dir { name, entries } => name@ + seq![LBRACE] + spec_serialize_entries(entries@)
            + seq![RBRACE],
    }
}

/// The serialization of a list of entries, in order.
pub open spec fn spec_serialize_entries(s: Seq<FsNode>) -> Seq<u8>
    decreases s,
{
    if s.len() == 0 {
        Seq::empty()
    } else {
        spec_serialize_entries(s.drop_last()) + spec_serialize(s.last())
    }
}

/// Serializes the tree under `node`, appending to `result`: directory names
/// are followed by their entries between '{' and '}', file names by ','.
pub fn tree_serialization(node: &FsNode, result: &mut Vec<u8>)
    ensures
        final(result)@ == old(result)@ + spec_serialize(*node),
    decreases *node,
{
    match node {
        FsNode::File { name } => {
            push_bytes(result, name);
            result.push(COMMA);
            proof {
                assert(result@ =~= old(result)@ + spec_serialize(*node));
            }
        },
        FsNode::Dir { name, entries } => {
            push_bytes(result, name);
            result.push(LBRACE);
            serialize_entries(entries, result);
            result.push(RBRACE);
            proof {
                assert(result@ =~= old(result)@ + spec_serialize(*node));
            }
        },
    }
}

/// Serializes a list of entries in order, appending to `result`.
fn serialize_entries(entries: &Vec<FsNode>, result: &mut Vec<u8>)
    ensures
        final(result)@ == old(result)@ + spec_serialize_entries(entries@),
    decreases *entries,
{
    proof {
        assert(entries@.take(0) =~= Seq::<FsNode>::empty());
        assert(result@ =~= old(result)@ + spec_serialize_entries(entries@.take(0)));
    }
    let mut i: usize = 0;
    while i < entries.len()
        invariant
            i <= entries@.len(),
            result@ == old(result)@ + spec_serialize_entries(entries@.take(i as int)),
        decreases entries@.len() - i,
    {
        proof {
            broadcast use vstd::std_specs::vec::group_vec_axioms;

            assert(decreases_to!(*entries => entries@[i as int]));
        }
        tree_serialization(&entries[i], result);
        i = i + 1;
        proof {
            let t = entries@.take(i as int);
            assert(t.drop_last() =~= entries@.take(i as int - 1));
            assert(t.last() == entries@[i as int - 1]);
            assert(result@ =~= old(result)@ + spec_serialize_entries(t));
        }
    }
    proof {
        assert(entries@.take(entries@.len() as int) =~= entries@);
    }
}

/// How many times byte `b` occurs in `s`.
pub open spec fn spec_count_byte(s: Seq<u8>, b: u8) -> int
    decreases s.len(),
{
    if s.len() == 0 {
        0
    } else {
        spec_count_byte(s.drop_last(), b) + if s.last() == b {
            1int
        } else {
            0int
        }
    }
}

/// Counting distributes over concatenation.
pub proof fn lemma_count_byte_concat(a: Seq<u8>, t: Seq<u8>, b: u8)
    ensures
        spec_count_byte(a + t, b) == spec_count_byte(a, b) + spec_count_byte(t, b),
    decreases t.len(),
{
    if t.len() == 0 {
        assert(a + t =~= a);
    } else {
        assert((a + t).drop_last() =~= a + t.drop_last());
        assert((a + t).last() == t.last());
        lemma_count_byte_concat(a, t.drop_last(), b);
    }
}

/// Counting in a one-byte sequence.
proof fn lemma_count_byte_single(c: u8, b: u8)
    ensures
        spec_count_byte(seq![c], b) == if c == b {
            1int
        } else {
            0int
        },
{
    assert(seq![c].drop_last() =~= Seq::<u8>::empty());
    assert(spec_count_byte(Seq::<u8>::empty(), b) == 0);
    assert(seq![c].last() == c);
}

/// A byte that occurs nowhere in `s` counts zero times.
pub proof fn lemma_count_byte_absent(s: Seq<u8>, b: u8)
    requires
        forall|i: int| 0 <= i < s.len() ==> s[i] != b,
    ensures
        spec_count_byte(s, b) == 0,
    decreases s.len(),
{
    if s.len() > 0 {
        lemma_count_byte_absent(s.drop_last(), b);
    }
}

/// A name that uses neither brace; the bracket-balance law holds for trees
/// whose names are all of this kind.
pub open spec fn spec_name_clean(name: Seq<u8>) -> bool {
    forall|i: int| 0 <= i < name.len() ==> name[i] != LBRACE && name[i] != RBRACE
}

/// Every name in the tree is free of braces.
pub open spec fn spec_tree_clean(node: FsNode) -> bool
    decreases node,
{
    match node {
        FsNode::File { name } => spec_name_clean(name@),
        FsNode::Dir { name, entries } => spec_name_clean(name@) && (forall|i: int|
            0 <= i < entries@.len() ==> spec_tree_clean(#[trigger] entries@[i])),
    }
}

/// Law: the serialization of a tree whose names hold no brace bytes has as
/// many opening braces as closing ones.
pub proof fn lemma_serialization_balanced(node: FsNode)
    requires
        spec_tree_clean(node),
    ensures
        spec_count_byte(spec_serialize(node), LBRACE) == spec_count_byte(
            spec_serialize(node),
            RBRACE,
        ),
    decreases node,
{
    match node {
        FsNode::File { name } => {
            lemma_count_byte_absent(name@, LBRACE);
            lemma_count_byte_absent(name@, RBRACE);
            lemma_count_byte_concat(name@, seq![COMMA], LBRACE);
            lemma_count_byte_concat(name@, seq![COMMA], RBRACE);
            lemma_count_byte_single(COMMA, LBRACE);
            lemma_count_byte_single(COMMA, RBRACE);
        },
        FsNode::Dir { name, entries } => {
            let inner = spec_serialize_entries(entries@);
            lemma_serialization_entries_balanced(entries@);
            lemma_count_byte_absent(name@, LBRACE);
            lemma_count_byte_absent(name@, RBRACE);
            lemma_count_byte_concat(name@, seq![LBRACE], LBRACE);
            lemma_count_byte_concat(name@, seq![LBRACE], RBRACE);
            lemma_count_byte_concat(name@ + seq![LBRACE], inner, LBRACE);
            lemma_count_byte_concat(name@ + seq![LBRACE], inner, RBRACE);
            lemma_count_byte_concat(name@ + seq![LBRACE] + inner, seq![RBRACE], LBRACE);
            lemma_count_byte_concat(name@ + seq![LBRACE] + inner, seq![RBRACE], RBRACE);
            lemma_count_byte_single(LBRACE, LBRACE);
            lemma_count_byte_single(LBRACE, RBRACE);
            lemma_count_byte_single(RBRACE, LBRACE);
            lemma_count_byte_single(RBRACE, RBRACE);
        },
    }
}

/// The balance law, over a list of entries.
proof fn lemma_serialization_entries_balanced(s: Seq<FsNode>)
    requires
        forall|i: int| 0 <= i < s.len() ==> spec_tree_clean(#[trigger] s[i]),
    ensures
        spec_count_byte(spec_serialize_entries(s), LBRACE) == spec_count_byte(
            spec_serialize_entries(s),
            RBRACE,
        ),
    decreases s,
{
    if s.len() > 0 {
        assert forall|i: int| 0 <= i < s.drop_last().len() implies spec_tree_clean(
            #[trigger] s.drop_last()[i],
        ) by {
            assert(s.drop_last()[i] == s[i]);
        }
        lemma_serialization_entries_balanced(s.drop_last());
        assert(spec_tree_clean(s.last()));
        lemma_serialization_balanced(s.last());
        lemma_count_byte_concat(
            spec_serialize_entries(s.drop_last()),
            spec_serialize(s.last()),
            LBRACE,
        );
        lemma_count_byte_concat(
            spec_serialize_entries(s.drop_last()),
            spec_serialize(s.last()),
            RBRACE,
        );
    }
}

/// The names in the tree under `node`, in listing order: the node's own name
/// first.
pub open spec fn spec_tree_names(node: FsNode) -> Seq<Seq<u8>>
    decreases node,
{
    match node {
        FsNode::File { name } => seq![name@],
        FsNode::Dir { name, entries } => seq![name@] + spec_entries_names(entries@),
    }
}

/// The names in a list of entries, in order.
pub open spec fn spec_entries_names(s: Seq<FsNode>) -> Seq<Seq<u8>>
    decreases s,
{
    if s.len() == 0 {
        Seq::empty()
    } else {
        spec_entries_names(s.drop_last()) + spec_tree_names(s.last())
    }
}

/// `needle` occurs somewhere in `hay` as a contiguous run of bytes.
pub open spec fn spec_occurs(hay: Seq<u8>, needle: Seq<u8>) -> bool {
    exists|k: int|
        0 <= k && k + needle.len() <= hay.len() && #[trigger] hay.subrange(k, k + needle.len())
            == needle
}

/// An occurrence survives surrounding the haystack with more bytes.
proof fn lemma_occurs_extend(pre: Seq<u8>, hay: Seq<u8>, post: Seq<u8>, needle: Seq<u8>)
    requires
        spec_occurs(hay, needle),
    ensures
        spec_occurs(pre + hay + post, needle),
{
    let k = choose|k: int|
        0 <= k && k + needle.len() <= hay.len() && #[trigger] hay.subrange(k, k + needle.len())
            == needle;
    let k2 = pre.len() as int + k;
    assert((pre + hay + post).subrange(k2, k2 + needle.len()) =~= hay.subrange(
        k,
        k + needle.len(),
    ));
}

/// Law: the serialization of a tree mentions every file and directory name in
/// the tree — each one occurs in the output.
pub proof fn lemma_serialization_mentions_names(node: FsNode)
    ensures
        forall|i: int|
            0 <= i < spec_tree_names(node).len() ==> spec_occurs(
                spec_serialize(node),
                #[trigger] spec_tree_names(node)[i],
            ),
    decreases node,
{
    match node {
        FsNode::File { name } => {
            let out = spec_serialize(node);
            assert(spec_occurs(out, name@)) by {
                let k: int = 0;
                assert(out.subrange(k, k + name@.len()) =~= name@);
            }
            assert(spec_tree_names(node) == seq![name@]);
        },
        FsNode::Dir { name, entries } => {
            let out = spec_serialize(node);
            let inner = spec_serialize_entries(entries@);
            assert(spec_occurs(out, name@)) by {
                let k: int = 0;
                assert(out.subrange(k, k + name@.len()) =~= name@);
            }
            lemma_entries_mention_names(entries@);
            assert forall|i: int|
                1 <= i < spec_tree_names(node).len() implies spec_occurs(
                out,
                #[trigger] spec_tree_names(node)[i],
            ) by {
                let nm = spec_tree_names(node)[i];
                assert(nm == spec_entries_names(entries@)[i - 1]);
                assert(spec_occurs(inner, nm));
                lemma_occurs_extend(name@ + seq![LBRACE], inner, seq![RBRACE], nm);
                assert(name@ + seq![LBRACE] + inner + seq![RBRACE] =~= out);
            }
        },
    }
}

/// The mention law, over a list of entries.
proof fn lemma_entries_mention_names(s: Seq<FsNode>)
    ensures
        forall|i: int|
            0 <= i < spec_entries_names(s).len() ==> spec_occurs(
                spec_serialize_entries(s),
                #[trigger] spec_entries_names(s)[i],
            ),
    decreases s,
{
    if s.len() > 0 {
        let front = spec_serialize_entries(s.drop_last());
        let back = spec_serialize(s.last());
        let names_front = spec_entries_names(s.drop_last());
        let names_back = spec_tree_names(s.last());
        lemma_entries_mention_names(s.drop_last());
        lemma_serialization_mentions_names(s.last());
        assert forall|i: int|
            0 <= i < spec_entries_names(s).len() implies spec_occurs(
            spec_serialize_entries(s),
            #[trigger] spec_entries_names(s)[i],
        ) by {
            let nm = spec_entries_names(s)[i];
            if i < names_front.len() {
                assert(nm == names_front[i]);
                assert(spec_occurs(front, nm));
                lemma_occurs_extend(Seq::empty(), front, back, nm);
                assert(Seq::<u8>::empty() + front + back =~= front + back);
            } else {
                assert(nm == names_back[i - names_front.len()]);
                assert(spec_occurs(back, nm));
                lemma_occurs_extend(front, back, Seq::empty(), nm);
                assert(front + back + Seq::<u8>::empty() =~= front + back);
            }
        }
    }
}

} // verus!
