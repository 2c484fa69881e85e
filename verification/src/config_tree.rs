//! The settings as a JSON document, read and changed by dotted keys
//! (`translation.llm.max_tokens`) from the command line.
use crate::cli::{decimal, push_decimal, Coerced, ValueKind};
use crate::text::{append_str, owned, split_on, split_str, str_eq};
use vstd::prelude::*;

verus! {

/// One value of the settings document.
pub enum TreeNode {
    Null,
    Bool(bool),
    /// A number, by its JSON text; `integer` when it is a whole number.
    Number { text: String, integer: bool },
    Text(String),
    /// The elements, by node index.
    Array(Vec<usize>),
    /// The members in document order, each with its node index.
    Object(Vec<(String, usize)>),
}

/// The settings document: nodes refer to their children by index, and node 0
/// is the root.
pub struct ConfigTree {
    pub nodes: Vec<TreeNode>,
}

/// Why a dotted key names no value.
#[derive(Debug, Clone, Copy, PartialEq, Eq, Structural)]
pub enum PathError {
    /// The key's segment at this position is not a member of its object.
    Missing(usize),
    /// The key goes through a value that is not an object.
    NotObject,
}

/// The index of the first member of `f` named `k`.
pub open spec fn find_field(f: Seq<(String, usize)>, k: Seq<char>) -> Option<int>
    decreases f.len(),
{
    if f.len() == 0 {
        None
    } else {
        match find_field(f.drop_last(), k) {
            Some(i) => Some(i),
            None => if f.last().0@ == k {
                Some(f.len() - 1)
            } else {
                None
            },
        }
    }
}

/// Following `path[pos..]` from node `cur`: each segment must name a member
/// of an object.
pub open spec fn walk(nodes: Seq<TreeNode>, cur: int, path: Seq<Seq<char>>, pos: int) -> Result<
    int,
    PathError,
>
    decreases path.len() - pos,
{
    if !(0 <= cur < nodes.len()) {
        Err(PathError::NotObject)
    } else if pos >= path.len() {
        Ok(cur)
    } else {
        match nodes[cur] {
            TreeNode::Object(f) => match find_field(f@, path[pos]) {
                Some(i) => walk(nodes, f@[i].1 as int, path, pos + 1),
                None => Err(PathError::Missing(pos as usize)),
            },
            _ => Err(PathError::NotObject),
        }
    }
}

/// The node a dotted key names.
pub open spec fn lookup_spec(nodes: Seq<TreeNode>, key: Seq<char>) -> Result<int, PathError> {
    walk(nodes, 0, split_on(key, '.'), 0)
}

/// The kind of value a node holds.
pub open spec fn kind_spec(n: TreeNode) -> ValueKind {
    match n {
        TreeNode::Null => ValueKind::Null,
        TreeNode::Bool(_) => ValueKind::Bool,
        TreeNode::Number { integer, .. } => if integer {
            ValueKind::Integer
        } else {
            ValueKind::Float
        },
        TreeNode::Text(_) => ValueKind::Text,
        TreeNode::Array(_) | TreeNode::Object(_) => ValueKind::Compound,
    }
}

/// The text a scalar node is shown as; none for arrays and objects.
pub open spec fn scalar_text_spec(n: TreeNode) -> Option<Seq<char>> {
    match n {
        TreeNode::Null => Some("null"@),
        TreeNode::Bool(b) => Some(
            if b {
                "true"@
            } else {
                "false"@
            },
        ),
        TreeNode::Number { text, .. } => Some(text@),
        TreeNode::Text(t) => Some(t@),
        TreeNode::Array(_) | TreeNode::Object(_) => None,
    }
}

/// The message for a key that names no value.
pub open spec fn path_message(e: PathError, key: Seq<char>) -> Seq<char> {
    match e {
        PathError::Missing(i) => "키를 찾을 수 없습니다: "@ + key + " (segment: "@ + split_on(
            key,
            '.',
        )[i as int] + ")"@,
        PathError::NotObject => "키 경로가 객체가 아닙니다: "@ + key,
    }
}

proof fn lemma_find_prefix(f: Seq<(String, usize)>, n: int, k: Seq<char>)
    requires
        0 <= n <= f.len(),
        find_field(f.subrange(0, n), k) is Some,
    ensures
        find_field(f, k) == find_field(f.subrange(0, n), k),
    decreases f.len(),
{
    if n == f.len() {
        assert(f.subrange(0, n) =~= f);
    } else {
        assert(f.drop_last().subrange(0, n) =~= f.subrange(0, n));
        lemma_find_prefix(f.drop_last(), n, k);
    }
}

proof fn lemma_find_bound(f: Seq<(String, usize)>, k: Seq<char>)
    ensures
        match find_field(f, k) {
            Some(i) => 0 <= i < f.len() && f[i].0@ == k,
            None => true,
        },
    decreases f.len(),
{
    if f.len() > 0 {
        lemma_find_bound(f.drop_last(), k);
    }
}

proof fn lemma_walk_missing(nodes: Seq<TreeNode>, cur: int, path: Seq<Seq<char>>, pos: int)
    requires
        0 <= pos,
        path.len() <= usize::MAX,
    ensures
        walk(nodes, cur, path, pos) matches Err(PathError::Missing(i)) ==> pos <= i < path.len(),
    decreases path.len() - pos,
{
    if 0 <= cur < nodes.len() && pos < path.len() {
        match nodes[cur] {
            TreeNode::Object(f) => match find_field(f@, path[pos]) {
                Some(i) => lemma_walk_missing(nodes, f@[i].1 as int, path, pos + 1),
                None => {},
            },
            _ => {},
        }
    }
}

/// The index of the first member of `f` named `k`.
fn find_field_index(f: &Vec<(String, usize)>, k: &str) -> (r: Option<usize>)
    ensures
        match r {
            Some(i) => find_field(f@, k@) == Some(i as int),
            None => find_field(f@, k@) is None,
        },
{
    let mut i: usize = 0;
    assert(f@.subrange(0, 0) =~= Seq::<(String, usize)>::empty());
    while i < f.len()
        invariant
            i <= f@.len(),
            find_field(f@.subrange(0, i as int), k@) is None,
        decreases f@.len() - i,
    {
        let ghost t = f@.subrange(0, i + 1);
        assert(t.drop_last() =~= f@.subrange(0, i as int));
        if str_eq(f[i].0.as_str(), k) {
            proof {
                lemma_find_prefix(f@, i + 1, k@);
            }
            return Some(i);
        }
        i = i + 1;
    }
    assert(f@.subrange(0, f@.len() as int) =~= f@);
    None
}

impl ConfigTree {
    /// The node at the segments of `path`, from the root.
    pub fn lookup_path(&self, path: &Vec<String>) -> (r: Result<usize, PathError>)
        ensures
            match (r, walk(self.nodes@, 0, path@.map_values(|s: String| s@), 0)) {
                (Ok(i), Ok(j)) => i == j,
                (Err(e), Err(f)) => e == f,
                _ => false,
            },
    {
        let ghost p = path@.map_values(|s: String| s@);
        let mut cur: usize = 0;
        let mut pos: usize = 0;
        while pos <= path.len()
            invariant
                pos <= path@.len(),
                p == path@.map_values(|s: String| s@),
                walk(self.nodes@, 0, p, 0) == walk(self.nodes@, cur as int, p, pos as int),
            decreases path@.len() - pos,
        {
            if cur >= self.nodes.len() {
                return Err(PathError::NotObject);
            }
            if pos == path.len() {
                return Ok(cur);
            }
            match &self.nodes[cur] {
                TreeNode::Object(f) => {
                    match find_field_index(f, path[pos].as_str()) {
                        Some(i) => {
                            proof {
                                lemma_find_bound(f@, p[pos as int]);
                            }
                            cur = f[i].1;
                            pos = pos + 1;
                        },
                        None => {
                            return Err(PathError::Missing(pos));
                        },
                    }
                },
                _ => {
                    return Err(PathError::NotObject);
                },
            }
        }
        Err(PathError::NotObject)
    }

    /// The node a dotted key names, or the message saying why there is none.
    pub fn locate(&self, key: &str) -> (r: Result<usize, String>)
        ensures
            match (r, lookup_spec(self.nodes@, key@)) {
                (Ok(i), Ok(j)) => i == j,
                (Err(m), Err(e)) => m@ == path_message(e, key@),
                _ => false,
            },
    {
        let path = split_str(key, '.');
        let n = path.len();
        proof {
            assert(path@.map_values(|s: String| s@).len() == path@.len());
            assert(split_on(key@, '.').len() == n);
            lemma_walk_missing(self.nodes@, 0, split_on(key@, '.'), 0);
        }
        match self.lookup_path(&path) {
            Ok(i) => Ok(i),
            Err(e) => Err(path_error_message(e, key, &path)),
        }
    }

    /// The kind of value node `i` holds.
    pub fn kind_at(&self, i: usize) -> (r: ValueKind)
        requires
            i < self.nodes@.len(),
        ensures
            r == kind_spec(self.nodes@[i as int]),
    {
        match &self.nodes[i] {
            TreeNode::Null => ValueKind::Null,
            TreeNode::Bool(_) => ValueKind::Bool,
            TreeNode::Number { integer, .. } => if *integer {
                ValueKind::Integer
            } else {
                ValueKind::Float
            },
            TreeNode::Text(_) => ValueKind::Text,
            TreeNode::Array(_) | TreeNode::Object(_) => ValueKind::Compound,
        }
    }

    /// The text node `i` is shown as, when it is a scalar.
    pub fn scalar_text(&self, i: usize) -> (r: Option<String>)
        requires
            i < self.nodes@.len(),
        ensures
            match (r, scalar_text_spec(self.nodes@[i as int])) {
                (Some(s), Some(t)) => s@ == t,
                (None, None) => true,
                _ => false,
            },
    {
        match &self.nodes[i] {
            TreeNode::Null => Some(owned("null")),
            TreeNode::Bool(b) => Some(
                owned(
                    if *b {
                        "true"
                    } else {
                        "false"
                    },
                ),
            ),
            TreeNode::Number { text, .. } => Some(owned(text.as_str())),
            TreeNode::Text(t) => Some(owned(t.as_str())),
            TreeNode::Array(_) | TreeNode::Object(_) => None,
        }
    }

    /// Puts `node` in place of node `i`.
    pub fn replace(&mut self, i: usize, node: TreeNode)
        requires
            i < old(self).nodes@.len(),
        ensures
            final(self).nodes@ == old(self).nodes@.update(i as int, node),
    {
        self.nodes.set(i, node);
    }
}

fn path_error_message(e: PathError, key: &str, path: &Vec<String>) -> (r: String)
    requires
        path@.map_values(|s: String| s@) == split_on(key@, '.'),
        match e {
            PathError::Missing(i) => i < path@.len(),
            PathError::NotObject => true,
        },
    ensures
        r@ == path_message(e, key@),
{
    match e {
        PathError::Missing(i) => {
            let mut m = owned("키를 찾을 수 없습니다: ");
            append_str(&mut m, key);
            append_str(&mut m, " (segment: ");
            append_str(&mut m, path[i].as_str());
            append_str(&mut m, ")");
            proof {
                assert(path@.map_values(|s: String| s@)[i as int] == path@[i as int]@);
            }
            m
        },
        PathError::NotObject => {
            let mut m = owned("키 경로가 객체가 아닙니다: ");
            append_str(&mut m, key);
            m
        },
    }
}

/// The node holding a converted command-line value; integers are written in
/// decimal.
pub fn coerced_node(c: Coerced) -> (r: TreeNode)
    ensures
        match c {
            Coerced::Bool(b) => r == TreeNode::Bool(b),
            Coerced::Integer(n) => r matches TreeNode::Number { text, integer } && integer
                && text@ == decimal(n as int),
            Coerced::Text(t) => r == TreeNode::Text(t),
        },
{
    match c {
        Coerced::Bool(b) => TreeNode::Bool(b),
        Coerced::Integer(n) => {
            let mut text = String::new();
            push_decimal(&mut text, n);
            TreeNode::Number { text, integer: true }
        },
        Coerced::Text(t) => TreeNode::Text(t),
    }
}

} // verus!
