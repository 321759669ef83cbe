use vstd::prelude::*;
use vstd::string::StringExecFns;
use crate::marker::{Marker, Type, marker_of};
use crate::value::{Float, Integer, Tree, Value, trees, tree_pairs, reversed};

verus! {

/// What can go wrong while reading a value tree.
#[derive(Debug, PartialEq)]
pub enum Error {
    /// The target asked for a shape that the value does not have.
    TypeMismatch(Marker),
    /// A container held another number of elements than the target took.
    LengthMismatch(u32),
    /// Any other failure: the end of the input, a missing or unknown field,
    /// a message of the target.
    Uncategorized(String),
    /// The target found the traversal malformed.
    Syntax(String),
}

/// The error that reports the end of the input.
pub open spec fn is_end_of_stream(e: Error) -> bool {
    e matches Error::Uncategorized(m) && m@ == "end of stream"@
}

impl Error {
    pub fn invalid_value(msg: &str) -> (r: Error)
        ensures
            r matches Error::Syntax(m) && m@ == "syntax error: "@ + msg@,
    {
        let mut s = "syntax error: ".to_owned();
        s.append(msg);
        Error::Syntax(s)
    }

    /// The length is reported in 32 bits, truncated.
    pub fn invalid_length(len: usize) -> (r: Error)
        ensures
            r == Error::LengthMismatch(len as u32),
    {
        Error::LengthMismatch(len as u32)
    }

    pub fn invalid_type(ty: Type) -> (r: Error)
        ensures
            r == Error::TypeMismatch(marker_of(ty)),
    {
        let m = match ty {
            Type::Bool => Marker::True,
            Type::Usize => Marker::FixPos(0),
            Type::U8 => Marker::U8,
            Type::U16 => Marker::U16,
            Type::U32 => Marker::U32,
            Type::U64 => Marker::U64,
            Type::Isize => Marker::FixNeg(0),
            Type::I8 => Marker::I8,
            Type::I16 => Marker::I16,
            Type::I32 => Marker::I32,
            Type::I64 => Marker::I64,
            Type::F32 => Marker::F32,
            Type::F64 => Marker::F64,
            Type::Char | Type::Str | Type::String | Type::FieldName | Type::VariantName => Marker::Str32,
            Type::Unit | Type::Option | Type::UnitStruct => Marker::Null,
            Type::Mapping | Type::Struct | Type::StructVariant => Marker::Map32,
            Type::Sequence | Type::NewtypeStruct | Type::TupleStruct | Type::Tuple | Type::Enum
            | Type::TupleVariant | Type::UnitVariant | Type::Bytes => Marker::Array32,
        };
        Error::TypeMismatch(m)
    }

    pub fn end_of_stream() -> (r: Error)
        ensures
            is_end_of_stream(r),
    {
        Error::Uncategorized("end of stream".to_owned())
    }

    pub fn missing_field(_field: &str) -> (r: Error)
        ensures
            r matches Error::Uncategorized(m) && m@ == "missing field"@,
    {
        Error::Uncategorized("missing field".to_owned())
    }

    pub fn unknown_field(_field: &str) -> (r: Error)
        ensures
            r matches Error::Uncategorized(m) && m@ == "unknown field"@,
    {
        Error::Uncategorized("unknown field".to_owned())
    }

    pub fn custom(msg: String) -> (r: Error)
        ensures
            r == Error::Uncategorized(msg),
    {
        Error::Uncategorized(msg)
    }
}

/// Holds at most one value, which the next read takes.
pub struct Deserializer {
    value: Option<Value>,
}

/// What a read found: a primitive to hand on, or an accessor over a container.
pub enum Visit {
    Nil,
    Bool(bool),
    I64(i64),
    U64(u64),
    /// A 32-bit float, by its bit pattern.
    F32(u32),
    /// A 64-bit float, by its bit pattern.
    F64(u64),
    Str(String),
    Bytes(Vec<u8>),
    Sequence(SeqVisitor),
    Entries(MapVisitor),
}

impl Visit {
    /// This is what a read of the tree `t` hands on.
    pub open spec fn shows(&self, t: Tree) -> bool {
        match self {
            Visit::Nil => t == Tree::Nil,
            Visit::Bool(b) => t == Tree::Boolean(*b),
            Visit::I64(n) => t == Tree::Integer(Integer::I64(*n)),
            Visit::U64(n) => t == Tree::Integer(Integer::U64(*n)),
            Visit::F32(b) => t == Tree::Float(Float::F32(*b)),
            Visit::F64(b) => t == Tree::Float(Float::F64(*b)),
            Visit::Str(s) => t == Tree::String(s@),
            Visit::Bytes(b) => t == Tree::Binary(b@),
            Visit::Sequence(sv) => t == Tree::Array(sv.rest()) && sv.declared() == sv.rest().len() && sv.wf(),
            Visit::Entries(mv) => {
                &&& t == Tree::Object(mv.rest())
                &&& mv.declared() == mv.rest().len()
                &&& mv.pending() is None
                &&& mv.wf()
            },
        }
    }
}

impl Deserializer {
    /// The value held, if any.
    pub closed spec fn held(&self) -> Option<Tree> {
        match self.value {
            Some(v) => Some(v.tree()),
            None => None,
        }
    }

    pub fn new(value: Value) -> (r: Deserializer)
        ensures
            r.held() == Some(value.tree()),
    {
        Deserializer { value: Some(value) }
    }

    /// Whether the value held is an extension, which reads do not support.
    pub fn holds_ext(&self) -> (r: bool)
        ensures
            r == (self.held() matches Some(t) && t is Ext),
    {
        matches!(self.value, Some(Value::Ext(_, _)))
    }

    /// Takes the value held and tells what it is; an array or a map comes
    /// out as an accessor over its elements, in order.
    pub fn deserialize(&mut self) -> (r: Result<Visit, Error>)
        requires
            !(old(self).held() matches Some(t) && t is Ext),
        ensures
            final(self).held() is None,
            old(self).held() is None ==> (r matches Err(e) && is_end_of_stream(e)),
            old(self).held() matches Some(t) ==> (r matches Ok(v) && v.shows(t)),
    {
        let value = match self.value.take() {
            Some(value) => value,
            None => return Err(Error::end_of_stream()),
        };
        let ghost t = value.tree();
        let visit = match value {
            Value::Nil => Visit::Nil,
            Value::Boolean(b) => Visit::Bool(b),
            Value::Integer(Integer::I64(n)) => Visit::I64(n),
            Value::Integer(Integer::U64(n)) => Visit::U64(n),
            Value::Float(Float::F32(b)) => Visit::F32(b),
            Value::Float(Float::F64(b)) => Visit::F64(b),
            Value::String(s) => Visit::Str(s),
            Value::Binary(b) => Visit::Bytes(b),
            Value::Array(vs) => Visit::Sequence(SeqVisitor::new(vs)),
            Value::Object(ps) => Visit::Entries(MapVisitor::new(ps)),
            Value::Ext(_, _) => {
                assert(false);
                Visit::Nil
            },
        };
        Ok(visit)
    }

    /// Takes the value held for a target that demands a sequence: an array
    /// gives an accessor over its elements; anything else is a type mismatch
    /// that names the sequence shape.
    pub fn deserialize_seq(&mut self) -> (r: Result<SeqVisitor, Error>)
        ensures
            final(self).held() is None,
            old(self).held() is None ==> (r matches Err(e) && is_end_of_stream(e)),
            old(self).held() matches Some(t) ==> match t {
                Tree::Array(s) => r matches Ok(sv) && sv.rest() == s && sv.declared() == s.len() && sv.wf(),
                _ => r == Err::<SeqVisitor, Error>(Error::TypeMismatch(marker_of(Type::Sequence))),
            },
    {
        match self.value.take() {
            Some(Value::Array(vs)) => Ok(SeqVisitor::new(vs)),
            Some(_) => Err(Error::invalid_type(Type::Sequence)),
            None => Err(Error::end_of_stream()),
        }
    }

    /// Takes the value held for a target that demands a map: a map gives an
    /// accessor over its entries; anything else is a type mismatch that names
    /// the map shape.
    pub fn deserialize_map(&mut self) -> (r: Result<MapVisitor, Error>)
        ensures
            final(self).held() is None,
            old(self).held() is None ==> (r matches Err(e) && is_end_of_stream(e)),
            old(self).held() matches Some(t) ==> match t {
                Tree::Object(s) => {
                    &&& r matches Ok(mv)
                    &&& mv.rest() == s
                    &&& mv.declared() == s.len()
                    &&& mv.pending() is None
                    &&& mv.wf()
                },
                _ => r == Err::<MapVisitor, Error>(Error::TypeMismatch(marker_of(Type::Mapping))),
            },
    {
        match self.value.take() {
            Some(Value::Object(ps)) => Ok(MapVisitor::new(ps)),
            Some(_) => Err(Error::invalid_type(Type::Mapping)),
            None => Err(Error::end_of_stream()),
        }
    }

    /// Tells, without taking it, whether the value held is present (not nil).
    pub fn deserialize_option(&self) -> (r: Result<bool, Error>)
        ensures
            self.held() is None ==> (r matches Err(e) && is_end_of_stream(e)),
            self.held() matches Some(t) ==> r == Ok::<bool, Error>(t != Tree::Nil),
    {
        match &self.value {
            Some(Value::Nil) => Ok(false),
            Some(_) => Ok(true),
            None => Err(Error::end_of_stream()),
        }
    }
}

/// Hands out the elements of an array one at a time.
pub struct SeqVisitor {
    /// The elements not taken yet, last first.
    iter: Vec<Value>,
    len: usize,
    actual: usize,
}

impl SeqVisitor {
    /// The count of elements left matches the elements held.
    pub closed spec fn wf(&self) -> bool {
        self.len == self.iter.len() && self.len <= self.actual
    }

    /// The elements not taken yet, in order.
    pub closed spec fn rest(&self) -> Seq<Tree> {
        trees(self.iter@.reverse())
    }

    /// How many elements the array had.
    pub closed spec fn declared(&self) -> nat {
        self.actual as nat
    }

    fn new(vs: Vec<Value>) -> (r: SeqVisitor)
        ensures
            Value::Array(vs).tree() == Tree::Array(r.rest()),
            r.declared() == vs.len(),
            r.wf(),
    {
        let ghost orig = vs@;
        let n = vs.len();
        let iter = reversed(vs);
        proof {
            crate::value::lemma_array_tree(vs);
            assert(iter@.reverse() =~= orig);
        }
        SeqVisitor { iter, len: n, actual: n }
    }

    /// Puts the next element, if any, in `de` for the next read.
    pub fn visit(&mut self, de: &mut Deserializer) -> (r: bool)
        requires
            old(self).wf(),
        ensures
            final(self).wf(),
            r == (old(self).rest().len() > 0),
            final(self).declared() == old(self).declared(),
            r ==> final(de).held() == Some(old(self).rest()[0]),
            r ==> final(self).rest() == old(self).rest().drop_first(),
            !r ==> final(de).held() == old(de).held() && final(self).rest() == old(self).rest(),
    {
        let ghost before = self.iter@;
        match self.iter.pop() {
            Some(value) => {
                self.len = self.len - 1;
                assert(before.reverse() =~= seq![value].add(self.iter@.reverse()));
                assert(trees(before.reverse()).drop_first() =~= trees(self.iter@.reverse()));
                de.value = Some(value);
                true
            },
            None => false,
        }
    }

    /// Succeeds when every element was taken; else reports the array's length.
    pub fn end(&self) -> (r: Result<(), Error>)
        requires
            self.wf(),
        ensures
            r is Ok <==> self.rest().len() == 0,
            r is Err ==> r == Err::<(), Error>(Error::LengthMismatch(self.declared() as u32)),
    {
        if self.len == 0 {
            Ok(())
        } else {
            Err(Error::LengthMismatch(self.actual as u32))
        }
    }

    /// How many elements are left, exactly.
    pub fn size_hint(&self) -> (r: (usize, Option<usize>))
        requires
            self.wf(),
        ensures
            r.0 == self.rest().len(),
            r.1 == Some(r.0),
    {
        (self.len, Some(self.len))
    }
}

/// Hands out the entries of a map one at a time, key then value.
pub struct MapVisitor {
    /// The entries not taken yet, last first.
    iter: Vec<(Value, Value)>,
    /// The value of the entry whose key was taken last.
    value: Option<Value>,
    len: usize,
    actual: usize,
}

impl MapVisitor {
    /// The count of elements left matches the elements held.
    pub closed spec fn wf(&self) -> bool {
        self.len == self.iter.len() && self.len <= self.actual
    }

    /// The entries not taken yet, in order.
    pub closed spec fn rest(&self) -> Seq<(Tree, Tree)> {
        tree_pairs(self.iter@.reverse())
    }

    /// The value whose key was taken and which was not taken yet.
    pub closed spec fn pending(&self) -> Option<Tree> {
        match self.value {
            Some(v) => Some(v.tree()),
            None => None,
        }
    }

    /// How many entries the map had.
    pub closed spec fn declared(&self) -> nat {
        self.actual as nat
    }

    fn new(ps: Vec<(Value, Value)>) -> (r: MapVisitor)
        ensures
            Value::Object(ps).tree() == Tree::Object(r.rest()),
            r.declared() == ps.len(),
            r.wf(),
            r.pending() is None,
    {
        let ghost orig = ps@;
        let n = ps.len();
        let iter = reversed(ps);
        proof {
            crate::value::lemma_object_tree(ps);
            assert(iter@.reverse() =~= orig);
        }
        MapVisitor { iter, value: None, len: n, actual: n }
    }

    /// Puts the next key, if any, in `de` for the next read, and keeps its value aside.
    pub fn visit_key(&mut self, de: &mut Deserializer) -> (r: bool)
        requires
            old(self).wf(),
        ensures
            final(self).wf(),
            r == (old(self).rest().len() > 0),
            final(self).declared() == old(self).declared(),
            r ==> final(de).held() == Some(old(self).rest()[0].0),
            r ==> final(self).pending() == Some(old(self).rest()[0].1),
            r ==> final(self).rest() == old(self).rest().drop_first(),
            !r ==> final(de).held() == old(de).held() && final(self).rest() == old(self).rest()
                && final(self).pending() == old(self).pending(),
    {
        let ghost before = self.iter@;
        match self.iter.pop() {
            Some((key, value)) => {
                self.len = self.len - 1;
                assert(before.reverse() =~= seq![(key, value)].add(self.iter@.reverse()));
                assert(tree_pairs(before.reverse()).drop_first() =~= tree_pairs(self.iter@.reverse()));
                self.value = Some(value);
                de.value = Some(key);
                true
            },
            None => false,
        }
    }

    /// Puts the value kept aside by `visit_key` in `de` for the next read.
    pub fn visit_value(&mut self, de: &mut Deserializer)
        requires
            old(self).wf(),
            old(self).pending() is Some,
        ensures
            final(self).wf(),
            final(de).held() == old(self).pending(),
            final(self).pending() is None,
            final(self).rest() == old(self).rest(),
            final(self).declared() == old(self).declared(),
    {
        let value = self.value.take().unwrap();
        de.value = Some(value);
    }

    /// Whether `visit_value` may be called.
    pub fn has_pending_value(&self) -> (r: bool)
        ensures
            r == self.pending() is Some,
    {
        self.value.is_some()
    }

    /// Succeeds when every entry was taken; else reports the map's length.
    pub fn end(&self) -> (r: Result<(), Error>)
        requires
            self.wf(),
        ensures
            r is Ok <==> self.rest().len() == 0,
            r is Err ==> r == Err::<(), Error>(Error::LengthMismatch(self.declared() as u32)),
    {
        if self.len == 0 {
            Ok(())
        } else {
            Err(Error::LengthMismatch(self.actual as u32))
        }
    }

    /// How many entries are left, exactly.
    pub fn size_hint(&self) -> (r: (usize, Option<usize>))
        requires
            self.wf(),
        ensures
            r.0 == self.rest().len(),
            r.1 == Some(r.0),
    {
        (self.len, Some(self.len))
    }
}

} // verus!
