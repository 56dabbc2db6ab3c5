//! YAML documents as a flat preorder stream of tokens, and navigation over it.
//!
//! A document is read into a sequence of tokens in preorder: an array token
//! carrying `n` is followed by its `n` items, a hash token carrying `n` is
//! followed by its `n` key/value pairs (key first). The stream starts with an
//! array token whose items are the documents of the text.
//!
//! Positions are indices into the stream; the position one past the end stands
//! for a node that is not there, and reads as `BadValue`.
use vstd::prelude::*;
use yaml_rust::{ScanError, Yaml, YamlLoader};
use yaml_rust::Yaml::{Array, BadValue, Integer, Real};
use yaml_rust::Yaml::String as Text;

verus! {

broadcast use vstd::string::group_string_axioms;

/// One node of a YAML document, without its children.
#[derive(Debug, PartialEq)]
pub enum YamlToken {
    /// A float, kept as the text it was written with.
    Real(String),
    Integer(i64),
    Str(String),
    /// An array; the number of items that follow.
    Array(usize),
    /// A mapping; the number of key/value pairs that follow.
    Hash(usize),
    /// What is looked up and is not there.
    BadValue,
    /// A boolean, an alias or null: a node that is read as none of the above.
    Other,
}

/// A YAML node with its children, as yaml-rust reads it.
#[derive(Debug, PartialEq)]
pub enum YamlNode {
    /// A float, kept as the text it was written with.
    Real(String),
    Integer(i64),
    Str(String),
    Boolean(bool),
    Array(Vec<YamlNode>),
    /// A mapping: its key/value pairs in the order of the text.
    Hash(Vec<(YamlNode, YamlNode)>),
    Alias(usize),
    Null,
    BadValue,
}

#[verifier::external_type_specification]
#[verifier::external_body]
pub struct ExScanError(ScanError);

#[verifier::external_type_specification]
#[verifier::external_body]
pub struct ExYaml(Yaml);

/// The documents of the YAML text `text`, or `None` where the text does not scan.
pub uninterp spec fn yaml_documents(text: Seq<char>) -> Option<Seq<YamlNode>>;

/// Calls `yaml_rust::YamlLoader::load_from_str` and converts each document it
/// returns with `yaml_node`. The contract claims only that the documents, or
/// the failure, are a function of the text; nothing is stated of what the YAML
/// grammar makes of a given text.
#[verifier::external_body]
fn load_documents(text: &str) -> (r: Result<Vec<YamlNode>, ScanError>)
    ensures
        match r {
            Ok(docs) => yaml_documents(text@) == Some(docs@),
            Err(_) => yaml_documents(text@) is None,
        },
{
    Ok(YamlLoader::load_from_str(text)?.into_iter().map(yaml_node).collect())
}

/// Converts a `yaml_rust::Yaml` node into a `YamlNode`: each variant into the
/// one of the same name, children in their order. Nothing is stated of it:
/// `load_documents` names what the two give together.
#[verifier::external_body]
fn yaml_node(node: Yaml) -> YamlNode {
    match node {
        Real(s) => YamlNode::Real(s),
        Integer(i) => YamlNode::Integer(i),
        Text(s) => YamlNode::Str(s),
        Yaml::Boolean(b) => YamlNode::Boolean(b),
        Array(items) => YamlNode::Array(items.into_iter().map(yaml_node).collect()),
        Yaml::Hash(map) => YamlNode::Hash(map.into_iter().map(|(k, v)| (yaml_node(k), yaml_node(v))).collect()),
        Yaml::Alias(n) => YamlNode::Alias(n),
        Yaml::Null => YamlNode::Null,
        BadValue => YamlNode::BadValue,
    }
}

/// The tokens of `node` in preorder: its own token, then those of its
/// children (of a mapping, each key before its value). Booleans, aliases and
/// nulls give `Other`.
pub open spec fn node_tokens(node: YamlNode) -> Seq<YamlToken>
    decreases node,
{
    match node {
        YamlNode::Real(s) => seq![YamlToken::Real(s)],
        YamlNode::Integer(i) => seq![YamlToken::Integer(i)],
        YamlNode::Str(s) => seq![YamlToken::Str(s)],
        YamlNode::Array(items) => seq![YamlToken::Array(items.len())] + items_tokens(items@),
        YamlNode::Hash(pairs) => seq![YamlToken::Hash(pairs.len())] + pairs_tokens(pairs@),
        YamlNode::BadValue => seq![YamlToken::BadValue],
        _ => seq![YamlToken::Other],
    }
}

/// The tokens of `items`, one node after another.
pub open spec fn items_tokens(items: Seq<YamlNode>) -> Seq<YamlToken>
    decreases items,
{
    if items.len() == 0 {
        Seq::empty()
    } else {
        items_tokens(items.subrange(0, items.len() - 1)) + node_tokens(items[items.len() - 1])
    }
}

/// The tokens of `pairs`, each key followed by its value.
pub open spec fn pairs_tokens(pairs: Seq<(YamlNode, YamlNode)>) -> Seq<YamlToken>
    decreases pairs,
{
    if pairs.len() == 0 {
        Seq::empty()
    } else {
        pairs_tokens(pairs.subrange(0, pairs.len() - 1)) + node_tokens(pairs[pairs.len() - 1].0)
            + node_tokens(pairs[pairs.len() - 1].1)
    }
}

/// The token stream of the documents `docs`: an array token carrying their
/// number, then the tokens of each.
pub open spec fn document_tokens(docs: Seq<YamlNode>) -> Seq<YamlToken> {
    seq![YamlToken::Array(docs.len() as usize)] + items_tokens(docs)
}

/// The token stream of the YAML text `text`, or `None` where the text does not scan.
pub open spec fn yaml_token_stream(text: Seq<char>) -> Option<Seq<YamlToken>> {
    match yaml_documents(text) {
        Some(docs) => Some(document_tokens(docs)),
        None => None,
    }
}

/// Appends the tokens of `node`.
fn push_node_tokens(node: &YamlNode, out: &mut Vec<YamlToken>)
    ensures
        final(out)@ == old(out)@ + node_tokens(*node),
    decreases node,
{
    match node {
        YamlNode::Real(s) => out.push(YamlToken::Real(s.clone())),
        YamlNode::Integer(i) => out.push(YamlToken::Integer(*i)),
        YamlNode::Str(s) => out.push(YamlToken::Str(s.clone())),
        YamlNode::Array(items) => {
            out.push(YamlToken::Array(items.len()));
            push_items_tokens(items, out);
        },
        YamlNode::Hash(pairs) => {
            out.push(YamlToken::Hash(pairs.len()));
            push_pairs_tokens(pairs, out);
        },
        YamlNode::BadValue => out.push(YamlToken::BadValue),
        _ => out.push(YamlToken::Other),
    }
}

/// Appends the tokens of `pairs`, each key followed by its value.
fn push_pairs_tokens(pairs: &Vec<(YamlNode, YamlNode)>, out: &mut Vec<YamlToken>)
    ensures
        final(out)@ == old(out)@ + pairs_tokens(pairs@),
    decreases pairs,
{
    let ghost start = out@;
    let mut i: usize = 0;
    while i < pairs.len()
        invariant
            i <= pairs@.len(),
            out@ == start + pairs_tokens(pairs@.take(i as int)),
        decreases pairs@.len() - i,
    {
        assert(pairs@.take(i + 1).subrange(0, i as int) =~= pairs@.take(i as int));
        push_node_tokens(&pairs[i].0, out);
        push_node_tokens(&pairs[i].1, out);
        i = i + 1;
    }
    assert(pairs@.take(pairs@.len() as int) =~= pairs@);
}

/// Appends the tokens of `items`, one node after another.
fn push_items_tokens(items: &Vec<YamlNode>, out: &mut Vec<YamlToken>)
    ensures
        final(out)@ == old(out)@ + items_tokens(items@),
    decreases items,
{
    let ghost start = out@;
    let mut i: usize = 0;
    while i < items.len()
        invariant
            i <= items@.len(),
            out@ == start + items_tokens(items@.take(i as int)),
        decreases items@.len() - i,
    {
        assert(items@.take(i + 1).subrange(0, i as int) =~= items@.take(i as int));
        push_node_tokens(&items[i], out);
        i = i + 1;
    }
    assert(items@.take(items@.len() as int) =~= items@);
}

/// The token stream of the documents `docs` (see `document_tokens`).
pub fn flatten_documents(docs: &Vec<YamlNode>) -> (r: Vec<YamlToken>)
    ensures
        r@ == document_tokens(docs@),
{
    let mut out = vec![YamlToken::Array(docs.len())];
    push_items_tokens(docs, &mut out);
    out
}

/// Scans `text`; `Err(())` where the YAML text does not scan.
pub fn tokenize(text: &str) -> (r: Result<Vec<YamlToken>, ()>)
    ensures
        match r {
            Ok(tokens) => yaml_token_stream(text@) == Some(tokens@),
            Err(_) => yaml_token_stream(text@) is None,
        },
{
    match load_documents(text) {
        Ok(docs) => Ok(flatten_documents(&docs)),
        Err(_) => Err(()),
    }
}

/// The token at `pos`; `BadValue` outside the stream.
pub open spec fn tok(t: Seq<YamlToken>, pos: int) -> YamlToken {
    if 0 <= pos < t.len() {
        t[pos]
    } else {
        YamlToken::BadValue
    }
}

/// How many nodes follow a token as its children.
pub open spec fn arity(token: YamlToken) -> int {
    match token {
        YamlToken::Array(n) => n as int,
        YamlToken::Hash(n) => 2 * n,
        _ => 0,
    }
}

/// The position just past `remaining` complete nodes that start at `pos`.
pub open spec fn skip_nodes(t: Seq<YamlToken>, pos: int, remaining: int) -> Option<int>
    decreases t.len() - pos,
{
    if remaining <= 0 {
        Some(pos)
    } else if pos < 0 || pos >= t.len() {
        None
    } else {
        skip_nodes(t, pos + 1, remaining - 1 + arity(t[pos]))
    }
}

/// The position just past the node at `pos`.
pub open spec fn node_end(t: Seq<YamlToken>, pos: int) -> Option<int> {
    skip_nodes(t, pos, 1)
}

/// Among `count` key/value pairs from `pos`, the position of the value of the
/// first pair whose key is the string `key`.
pub open spec fn find_entry(t: Seq<YamlToken>, pos: int, count: int, key: Seq<char>) -> Option<int>
    decreases count,
{
    if count <= 0 {
        None
    } else {
        match node_end(t, pos) {
            None => None,
            Some(key_end) => if tok(t, pos) matches YamlToken::Str(s) && s@ == key {
                Some(key_end)
            } else {
                match node_end(t, key_end) {
                    None => None,
                    Some(value_end) => find_entry(t, value_end, count - 1, key),
                }
            },
        }
    }
}

/// The position of `node[key]`: the value under `key` where `node` is a
/// mapping that has it, else the position past the stream.
pub open spec fn lookup(t: Seq<YamlToken>, node: int, key: Seq<char>) -> int {
    match tok(t, node) {
        YamlToken::Hash(n) => match find_entry(t, node + 1, n as int, key) {
            Some(v) => v,
            None => t.len() as int,
        },
        _ => t.len() as int,
    }
}

/// `node[key]` is there and is not `BadValue`.
pub open spec fn present(t: Seq<YamlToken>, node: int, key: Seq<char>) -> bool {
    !(tok(t, lookup(t, node, key)) is BadValue)
}

/// The number of items of the node at `pos` where it is an array, else 0.
pub open spec fn item_count(t: Seq<YamlToken>, pos: int) -> int {
    match tok(t, pos) {
        YamlToken::Array(n) => n as int,
        _ => 0,
    }
}

pub proof fn lemma_skip_bounds(t: Seq<YamlToken>, pos: int, remaining: int)
    requires
        0 <= pos,
    ensures
        remaining <= 0 ==> skip_nodes(t, pos, remaining) == Some(pos),
        remaining > 0 ==> (skip_nodes(t, pos, remaining) matches Some(e) ==> pos < e <= t.len()),
    decreases t.len() - pos,
{
    if remaining > 0 && pos < t.len() {
        lemma_skip_bounds(t, pos + 1, remaining - 1 + arity(t[pos]));
    }
}

pub proof fn lemma_skip_too_many(t: Seq<YamlToken>, pos: int, remaining: int)
    requires
        0 <= pos <= t.len(),
        remaining > t.len() - pos,
    ensures
        skip_nodes(t, pos, remaining) is None,
    decreases t.len() - pos,
{
    if pos < t.len() {
        lemma_skip_too_many(t, pos + 1, remaining - 1 + arity(t[pos]));
    }
}

pub proof fn lemma_find_entry_after(t: Seq<YamlToken>, pos: int, count: int, key: Seq<char>)
    requires
        0 <= pos,
    ensures
        find_entry(t, pos, count, key) matches Some(v) ==> pos < v <= t.len(),
    decreases count,
{
    if count > 0 {
        lemma_skip_bounds(t, pos, 1);
        if let Some(key_end) = node_end(t, pos) {
            lemma_skip_bounds(t, key_end, 1);
            if let Some(value_end) = node_end(t, key_end) {
                lemma_find_entry_after(t, value_end, count - 1, key);
            }
        }
    }
}

/// A value found under a key lies after the mapping and within the stream.
pub proof fn lemma_lookup_after(t: Seq<YamlToken>, node: int, key: Seq<char>)
    requires
        0 <= node,
    ensures
        node < lookup(t, node, key) <= t.len() || lookup(t, node, key) == t.len(),
        0 <= lookup(t, node, key) <= t.len(),
{
    if let YamlToken::Hash(n) = tok(t, node) {
        lemma_find_entry_after(t, node + 1, n as int, key);
    }
}

/// The position just past the node at `pos`, or `None` where the stream ends first.
pub fn end_of_node(t: &Vec<YamlToken>, pos: usize) -> (r: Option<usize>)
    ensures
        match r {
            Some(e) => node_end(t@, pos as int) == Some(e as int),
            None => node_end(t@, pos as int) is None,
        },
{
    if pos >= t.len() {
        return None;
    }
    let mut p = pos;
    let mut remaining: usize = 1;
    while remaining > 0
        invariant
            p <= t.len(),
            remaining <= t.len() - p,
            skip_nodes(t@, pos as int, 1) == skip_nodes(t@, p as int, remaining as int),
        decreases t.len() - p,
    {
        let slack = (t.len() - p) - remaining;
        let added: usize = match &t[p] {
            YamlToken::Array(n) => {
                if *n > slack {
                    proof {
                        lemma_skip_too_many(t@, p + 1, remaining - 1 + arity(t@[p as int]));
                    }
                    return None;
                }
                *n
            },
            YamlToken::Hash(n) => {
                if *n > slack / 2 {
                    proof {
                        lemma_skip_too_many(t@, p + 1, remaining - 1 + arity(t@[p as int]));
                    }
                    return None;
                }
                2 * *n
            },
            _ => 0,
        };
        assert(added == arity(t@[p as int]));
        remaining = remaining - 1 + added;
        p = p + 1;
    }
    Some(p)
}

/// `text` spells `literal`.
pub fn text_equals(text: &String, literal: &str) -> (r: bool)
    ensures
        r == (text@ == literal@),
{
    let owned = literal.to_string();
    *text == owned
}

/// `text` ends with `suffix`.
pub open spec fn has_suffix(text: Seq<char>, suffix: Seq<char>) -> bool {
    suffix.len() <= text.len() && text.subrange(text.len() - suffix.len(), text.len() as int)
        == suffix
}

/// `text` ends with `suffix`.
pub fn ends_with(text: &String, suffix: &str) -> (r: bool)
    ensures
        r == has_suffix(text@, suffix@),
{
    let whole = text.as_str();
    let n = whole.unicode_len();
    let m = suffix.unicode_len();
    if m > n {
        return false;
    }
    let mut i: usize = 0;
    while i < m
        invariant
            n == text@.len(),
            m == suffix@.len(),
            whole@ == text@,
            m <= n,
            i <= m,
            forall|j: int| 0 <= j < i ==> text@[n - m + j] == suffix@[j],
        decreases m - i,
    {
        if whole.get_char(n - m + i) != suffix.get_char(i) {
            assert(text@.subrange(n - m, n as int)[i as int] != suffix@[i as int]);
            return false;
        }
        i = i + 1;
    }
    assert(text@.subrange(n - m, n as int) =~= suffix@);
    true
}

/// The position of `node[key]` (see `lookup`).
pub fn lookup_key(t: &Vec<YamlToken>, node: usize, key: &str) -> (r: usize)
    ensures
        r == lookup(t@, node as int, key@),
{
    if node >= t.len() {
        return t.len();
    }
    let count = match &t[node] {
        YamlToken::Hash(n) => *n,
        _ => {
            return t.len();
        },
    };
    let ghost total = find_entry(t@, node + 1, count as int, key@);
    let mut pos: usize = node + 1;
    let mut left: usize = count;
    while left > 0
        invariant
            total == find_entry(t@, node + 1, count as int, key@),
            total == find_entry(t@, pos as int, left as int, key@),
            pos <= t.len(),
            lookup(t@, node as int, key@) == match total {
                Some(v) => v,
                None => t@.len() as int,
            },
        decreases left,
    {
        let key_end = match end_of_node(t, pos) {
            Some(e) => e,
            None => {
                return t.len();
            },
        };
        proof {
            lemma_skip_bounds(t@, pos as int, 1);
        }
        let matched = match &t[pos] {
            YamlToken::Str(s) => text_equals(s, key),
            _ => false,
        };
        if matched {
            return key_end;
        }
        let value_end = match end_of_node(t, key_end) {
            Some(e) => e,
            None => {
                return t.len();
            },
        };
        proof {
            lemma_skip_bounds(t@, key_end as int, 1);
        }
        pos = value_end;
        left = left - 1;
    }
    t.len()
}

/// `node[key]` is there and is not `BadValue`.
pub fn is_present(t: &Vec<YamlToken>, node: usize, key: &str) -> (r: bool)
    ensures
        r == present(t@, node as int, key@),
{
    let v = lookup_key(t, node, key);
    !is_bad_value(t, v)
}

/// The node at `pos` reads as `BadValue`.
pub fn is_bad_value(t: &Vec<YamlToken>, pos: usize) -> (r: bool)
    ensures
        r == (tok(t@, pos as int) is BadValue),
{
    if pos >= t.len() {
        true
    } else {
        match &t[pos] {
            YamlToken::BadValue => true,
            _ => false,
        }
    }
}

/// The number of items of the array at `pos`, 0 for any other node.
pub fn items_of(t: &Vec<YamlToken>, pos: usize) -> (r: usize)
    ensures
        r == item_count(t@, pos as int),
{
    if pos >= t.len() {
        0
    } else {
        match &t[pos] {
            YamlToken::Array(n) => *n,
            _ => 0,
        }
    }
}

} // verus!
