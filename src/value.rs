use vstd::prelude::*;

verus! {

broadcast use vstd::std_specs::vec::group_vec_axioms;

/// An integer as the format holds it.
#[derive(Clone, Copy, Debug, PartialEq, Eq, Structural)]
pub enum Integer {
    U64(u64),
    I64(i64),
}

/// A float as the format holds it, by its IEEE 754 bit pattern.
#[derive(Clone, Copy, Debug, PartialEq, Eq, Structural)]
pub enum Float {
    F32(u32),
    F64(u64),
}

/// A self-describing value tree: arrays and maps own their children,
/// and a map keeps its entries in order, duplicates included.
#[derive(Debug, PartialEq)]
pub enum Value {
    Nil,
    Boolean(bool),
    Integer(Integer),
    Float(Float),
    String(String),
    Binary(Vec<u8>),
    Array(Vec<Value>),
    Object(Vec<(Value, Value)>),
    Ext(i8, Vec<u8>),
}

/// The mathematical form of a `Value`.
pub enum Tree {
    Nil,
    Boolean(bool),
    Integer(Integer),
    Float(Float),
    String(Seq<char>),
    Binary(Seq<u8>),
    Array(Seq<Tree>),
    Object(Seq<(Tree, Tree)>),
    Ext(i8, Seq<u8>),
}

impl Value {
    /// The tree that this value stands for.
    pub open spec fn tree(&self) -> Tree
        decreases self,
    {
        match self {
            Value::Nil => Tree::Nil,
            Value::Boolean(b) => Tree::Boolean(*b),
            Value::Integer(n) => Tree::Integer(*n),
            Value::Float(f) => Tree::Float(*f),
            Value::String(s) => Tree::String(s@),
            Value::Binary(b) => Tree::Binary(b@),
            Value::Array(vs) => Tree::Array(
                Seq::new(vs.len() as nat, |i: int| if 0 <= i < vs.len() { vs[i].tree() } else { Tree::Nil }),
            ),
            Value::Object(ps) => Tree::Object(
                Seq::new(ps.len() as nat, |i: int| if 0 <= i < ps.len() { (ps[i].0.tree(), ps[i].1.tree()) } else { (Tree::Nil, Tree::Nil) }),
            ),
            Value::Ext(t, b) => Tree::Ext(*t, b@),
        }
    }
}

/// The trees of a sequence of values, in order.
pub open spec fn trees(vs: Seq<Value>) -> Seq<Tree> {
    vs.map_values(|v: Value| v.tree())
}

/// The trees of a sequence of value pairs, in order.
pub open spec fn tree_pairs(ps: Seq<(Value, Value)>) -> Seq<(Tree, Tree)> {
    ps.map_values(|p: (Value, Value)| (p.0.tree(), p.1.tree()))
}

/// The tree of an array is the sequence of its elements' trees.
pub proof fn lemma_array_tree(vs: Vec<Value>)
    ensures
        Value::Array(vs).tree() == Tree::Array(trees(vs@)),
{
    assert(Value::Array(vs).tree()->Array_0 =~= trees(vs@));
}

/// The tree of a map is the sequence of its entries' trees.
pub proof fn lemma_object_tree(ps: Vec<(Value, Value)>)
    ensures
        Value::Object(ps).tree() == Tree::Object(tree_pairs(ps@)),
{
    assert(Value::Object(ps).tree()->Object_0 =~= tree_pairs(ps@));
}

/// The same items, last first.
pub fn reversed<T>(v: Vec<T>) -> (r: Vec<T>)
    ensures
        r@ == v@.reverse(),
{
    let ghost orig = v@;
    let mut v = v;
    let mut r: Vec<T> = Vec::new();
    while v.len() > 0
        invariant
            r.len() + v.len() == orig.len(),
            v@ == orig.take(v.len() as int),
            forall|i: int| 0 <= i < r.len() ==> r@[i] == orig[orig.len() - 1 - i],
        decreases v.len(),
    {
        let x = v.pop().unwrap();
        r.push(x);
    }
    assert(r@ =~= orig.reverse());
    r
}

} // verus!
