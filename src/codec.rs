use vstd::prelude::*;
use crate::decode::{Deserializer, Error, Visit, is_end_of_stream};
use crate::encode::{Frame, Serializer};
use crate::value::{Float, Integer, Tree, Value, trees, tree_pairs, reversed};

verus! {

broadcast use vstd::std_specs::vec::group_vec_axioms;

/// The tree is built from primitives, arrays and maps only: no extension
/// anywhere in it.
pub open spec fn mapped(t: Tree) -> bool
    decreases t,
{
    match t {
        Tree::Ext(_, _) => false,
        Tree::Array(s) => all_mapped(s),
        Tree::Object(s) => all_mapped_pairs(s),
        _ => true,
    }
}

/// Every tree of the sequence is `mapped`.
pub open spec fn all_mapped(s: Seq<Tree>) -> bool
    decreases s,
{
    if s.len() == 0 {
        true
    } else {
        mapped(s[0]) && all_mapped(s.subrange(1, s.len() as int))
    }
}

/// Every key and value of the sequence is `mapped`.
pub open spec fn all_mapped_pairs(s: Seq<(Tree, Tree)>) -> bool
    decreases s,
{
    if s.len() == 0 {
        true
    } else {
        mapped(s[0].0) && mapped(s[0].1) && all_mapped_pairs(s.subrange(1, s.len() as int))
    }
}

/// Each tree of an `all_mapped` sequence is `mapped`.
proof fn lemma_all_mapped_index(s: Seq<Tree>, k: int)
    requires
        all_mapped(s),
        0 <= k < s.len(),
    ensures
        mapped(s[k]),
    decreases k,
{
    if k > 0 {
        lemma_all_mapped_index(s.subrange(1, s.len() as int), k - 1);
    }
}

/// Each key and value of an `all_mapped_pairs` sequence is `mapped`.
proof fn lemma_all_mapped_pairs_index(s: Seq<(Tree, Tree)>, k: int)
    requires
        all_mapped_pairs(s),
        0 <= k < s.len(),
    ensures
        mapped(s[k].0),
        mapped(s[k].1),
    decreases k,
{
    if k > 0 {
        lemma_all_mapped_pairs_index(s.subrange(1, s.len() as int), k - 1);
    }
}

/// Drives `ser` with the notifications of a traversal of `v`: one finished
/// value more on its stack, which stands for `v`.
pub fn encode(v: Value, ser: &mut Serializer)
    requires
        mapped(v.tree()),
    ensures
        final(ser).stack() == old(ser).stack().push(Frame::Done(v.tree())),
    decreases v.tree(),
{
    let ghost t = v.tree();
    match v {
        Value::Nil => ser.serialize_unit(),
        Value::Boolean(b) => ser.serialize_bool(b),
        Value::Integer(Integer::I64(n)) => ser.serialize_i64(n),
        Value::Integer(Integer::U64(n)) => ser.serialize_u64(n),
        Value::Float(Float::F32(b)) => ser.serialize_f32(b),
        Value::Float(Float::F64(b)) => ser.serialize_f64(b),
        Value::String(s) => ser.serialize_str(s.as_str()),
        Value::Binary(b) => ser.serialize_bytes(b),
        Value::Array(vs) => {
            proof {
                crate::value::lemma_array_tree(vs);
            }
            let ghost base = ser.stack();
            let ghost items = vs@;
            let ghost whole = vs;
            ser.serialize_seq_begin();
            let mut rest = reversed(vs);
            let mut k: usize = 0;
            assert(trees(items.take(0)) =~= Seq::<Tree>::empty());
            while rest.len() > 0
                invariant
                    k + rest.len() == items.len(),
                    forall|i: int| 0 <= i < rest.len() ==> rest@[i] == items[items.len() - 1 - i],
                    ser.stack() == base.push(Frame::Array(trees(items.take(k as int)))),
                    t == Tree::Array(trees(items)),
                    mapped(t),
                    t == v.tree(),
                    items == whole@,
                    v == Value::Array(whole),
                    items.len() <= usize::MAX,
                decreases rest.len(),
            {
                let x = rest.pop().unwrap();
                proof {
                    assert(x == whole[k as int]);
                    let s = trees(items);
                    assert(decreases_to!(t => s));
                    assert(decreases_to!(s => s[k as int]));
                    assert(s[k as int] == x.tree());
                    assert(decreases_to!(t => x.tree()));
                    lemma_all_mapped_index(s, k as int);
                }
                encode(x, ser);
                ser.serialize_seq_elt();
                assert(trees(items.take(k + 1)) =~= trees(items.take(k as int)).push(x.tree()));
                assert(base.push(Frame::Array(trees(items.take(k as int)))).push(Frame::Done(x.tree())).take(
                    base.len() as int,
                ) =~= base);
                k = k + 1;
            }
            assert(items.take(k as int) =~= items);
            ser.serialize_seq_end();
            assert(base.push(Frame::Array(trees(items))).drop_last() =~= base);
        },
        Value::Object(ps) => {
            proof {
                crate::value::lemma_object_tree(ps);
            }
            let ghost base = ser.stack();
            let ghost items = ps@;
            let ghost whole = ps;
            ser.serialize_map_begin();
            let mut rest = reversed(ps);
            let mut k: usize = 0;
            assert(tree_pairs(items.take(0)) =~= Seq::<(Tree, Tree)>::empty());
            while rest.len() > 0
                invariant
                    k + rest.len() == items.len(),
                    forall|i: int| 0 <= i < rest.len() ==> rest@[i] == items[items.len() - 1 - i],
                    ser.stack() == base.push(Frame::Object(tree_pairs(items.take(k as int)))),
                    t == Tree::Object(tree_pairs(items)),
                    mapped(t),
                    t == v.tree(),
                    items == whole@,
                    v == Value::Object(whole),
                    items.len() <= usize::MAX,
                decreases rest.len(),
            {
                let (key, value) = rest.pop().unwrap();
                proof {
                    assert((key, value) == whole[k as int]);
                    assert(decreases_to!(whole => whole[k as int]));
                    assert(decreases_to!(v => whole[k as int]));
                    assert(decreases_to!(whole[k as int] => whole[k as int].0));
                    assert(decreases_to!(whole[k as int] => whole[k as int].1));
                    let s = tree_pairs(items);
                    lemma_all_mapped_pairs_index(s, k as int);
                }
                encode(key, ser);
                encode(value, ser);
                ser.serialize_map_elt();
                assert(tree_pairs(items.take(k + 1)) =~= tree_pairs(items.take(k as int)).push(
                    (key.tree(), value.tree()),
                ));
                assert(base.push(Frame::Object(tree_pairs(items.take(k as int)))).push(
                    Frame::Done(key.tree()),
                ).push(Frame::Done(value.tree())).take(base.len() as int) =~= base);
                k = k + 1;
            }
            assert(items.take(k as int) =~= items);
            ser.serialize_map_end();
            assert(base.push(Frame::Object(tree_pairs(items))).drop_last() =~= base);
        },
        Value::Ext(_, _) => {
            assert(false);
        },
    }
}

/// Reads the tree `t` held in `de` back as a value.
fn decode_tree(de: &mut Deserializer, Ghost(t): Ghost<Tree>) -> (r: Value)
    requires
        old(de).held() == Some(t),
        mapped(t),
    ensures
        final(de).held() is None,
        r.tree() == t,
    decreases t,
{
    match de.deserialize() {
        Ok(Visit::Nil) => Value::Nil,
        Ok(Visit::Bool(b)) => Value::Boolean(b),
        Ok(Visit::I64(n)) => Value::Integer(Integer::I64(n)),
        Ok(Visit::U64(n)) => Value::Integer(Integer::U64(n)),
        Ok(Visit::F32(b)) => Value::Float(Float::F32(b)),
        Ok(Visit::F64(b)) => Value::Float(Float::F64(b)),
        Ok(Visit::Str(s)) => Value::String(s),
        Ok(Visit::Bytes(b)) => Value::Binary(b),
        Ok(Visit::Sequence(mut sv)) => {
            let ghost s = t->Array_0;
            let mut out: Vec<Value> = Vec::new();
            assert(trees(out@) + sv.rest() =~= s);
            loop
                invariant
                    sv.wf(),
                    trees(out@) + sv.rest() == s,
                    t == Tree::Array(s),
                    mapped(t),
                    de.held() is None,
                ensures
                    sv.wf(),
                    trees(out@) == s,
                    sv.rest().len() == 0,
                    de.held() is None,
                decreases sv.rest().len(),
            {
                let ghost k = out.len() as int;
                if !sv.visit(de) {
                    assert(trees(out@) + sv.rest() =~= trees(out@));
                    break;
                }
                proof {
                    lemma_all_mapped_index(s, k);
                    assert(decreases_to!(t => s));
                    assert(decreases_to!(s => s[k]));
                }
                let x = decode_tree(de, Ghost(s[k]));
                out.push(x);
                assert(trees(out@) + sv.rest() =~= s);
            }
            match sv.end() {
                Ok(()) => {},
                Err(_) => {
                    assert(false);
                },
            }
            proof {
                crate::value::lemma_array_tree(out);
            }
            Value::Array(out)
        },
        Ok(Visit::Entries(mut mv)) => {
            let ghost s = t->Object_0;
            let mut out: Vec<(Value, Value)> = Vec::new();
            assert(tree_pairs(out@) + mv.rest() =~= s);
            loop
                invariant
                    mv.wf(),
                    mv.pending() is None,
                    tree_pairs(out@) + mv.rest() == s,
                    t == Tree::Object(s),
                    mapped(t),
                    de.held() is None,
                ensures
                    mv.wf(),
                    tree_pairs(out@) == s,
                    mv.rest().len() == 0,
                    de.held() is None,
                decreases mv.rest().len(),
            {
                let ghost k = out.len() as int;
                if !mv.visit_key(de) {
                    assert(tree_pairs(out@) + mv.rest() =~= tree_pairs(out@));
                    break;
                }
                proof {
                    assert(mv.pending() == Some(s[k].1));
                    lemma_all_mapped_pairs_index(s, k);
                    assert(decreases_to!(t => s));
                    assert(decreases_to!(s => s[k]));
                    assert(decreases_to!(s[k] => s[k].0));
                    assert(decreases_to!(s[k] => s[k].1));
                }
                let key = decode_tree(de, Ghost(s[k].0));
                mv.visit_value(de);
                let value = decode_tree(de, Ghost(s[k].1));
                out.push((key, value));
                assert(tree_pairs(out@) + mv.rest() =~= s);
            }
            match mv.end() {
                Ok(()) => {},
                Err(_) => {
                    assert(false);
                },
            }
            proof {
                crate::value::lemma_object_tree(out);
            }
            Value::Object(out)
        },
        Err(_) => {
            assert(false);
            Value::Nil
        },
    }
}

/// Reads the value held in `de` back as a value tree, driving the
/// accessors over every array and map to their end.
pub fn decode(de: &mut Deserializer) -> (r: Result<Value, Error>)
    requires
        old(de).held() matches Some(t) ==> mapped(t),
    ensures
        final(de).held() is None,
        old(de).held() is None ==> (r matches Err(e) && is_end_of_stream(e)),
        old(de).held() matches Some(t) ==> (r matches Ok(w) && w.tree() == t),
{
    match de.deserialize_option() {
        Err(e) => Err(e),
        Ok(_) => {
            let ghost t = de.held()->Some_0;
            Ok(decode_tree(de, Ghost(t)))
        },
    }
}

/// Encodes a value through the tree builder.
pub fn to_value(v: Value) -> (r: Value)
    requires
        mapped(v.tree()),
    ensures
        r.tree() == v.tree(),
{
    let mut ser = Serializer::new();
    encode(v, &mut ser);
    ser.unwrap()
}

/// Decodes a value through the tree walker.
pub fn from_value(v: Value) -> (r: Result<Value, Error>)
    requires
        mapped(v.tree()),
    ensures
        r matches Ok(w) && w.tree() == v.tree(),
{
    let mut de = Deserializer::new(v);
    decode(&mut de)
}

} // verus!
