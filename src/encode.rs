use vstd::prelude::*;
use crate::value::{Float, Integer, Tree, Value, trees, tree_pairs, lemma_array_tree, lemma_object_tree};

verus! {

/// What can go wrong while building a value tree.
#[derive(Debug, PartialEq)]
pub enum Error {
    /// A failure that the value being encoded reported.
    Custom(String),
}

impl Error {
    pub fn custom(msg: String) -> (r: Error)
        ensures
            r == Error::Custom(msg),
    {
        Error::Custom(msg)
    }
}

/// One entry of the builder's stack.
#[derive(Debug)]
pub enum State {
    /// A finished value.
    Value(Value),
    /// The elements of an array gathered so far.
    Array(Vec<Value>),
    /// The entries of a map gathered so far.
    Object(Vec<(Value, Value)>),
}

/// What a stack entry stands for.
pub enum Frame {
    Done(Tree),
    Array(Seq<Tree>),
    Object(Seq<(Tree, Tree)>),
}

impl State {
    pub open spec fn frame(&self) -> Frame {
        match self {
            State::Value(v) => Frame::Done(v.tree()),
            State::Array(vs) => Frame::Array(trees(vs@)),
            State::Object(ps) => Frame::Object(tree_pairs(ps@)),
        }
    }
}

/// The stack ends in a finished value over an array being gathered.
pub open spec fn seq_elt_ready(st: Seq<Frame>) -> bool {
    &&& st.len() >= 2
    &&& st.last() is Done
    &&& st[st.len() - 2] is Array
}

/// The stack ends in two finished values (key, then value) over a map being gathered.
pub open spec fn map_elt_ready(st: Seq<Frame>) -> bool {
    &&& st.len() >= 3
    &&& st.last() is Done
    &&& st[st.len() - 2] is Done
    &&& st[st.len() - 3] is Object
}

/// The stack holds exactly one finished value.
pub open spec fn complete(st: Seq<Frame>) -> bool {
    st.len() == 1 && st[0] is Done
}

/// Builds one value tree from a stream of traversal notifications.
pub struct Serializer {
    state: Vec<State>,
}

impl Serializer {
    /// The stack, bottom first.
    pub closed spec fn stack(&self) -> Seq<Frame> {
        self.state@.map_values(|s: State| s.frame())
    }

    pub fn new() -> (r: Serializer)
        ensures
            r.stack() == Seq::<Frame>::empty(),
    {
        let r = Serializer { state: Vec::new() };
        assert(r.stack() =~= Seq::<Frame>::empty());
        r
    }

    fn push_state(&mut self, s: State)
        ensures
            final(self).stack() == old(self).stack().push(s.frame()),
    {
        self.state.push(s);
        assert(self.stack() =~= old(self).stack().push(s.frame()));
    }

    fn pop_state(&mut self) -> (r: State)
        requires
            old(self).stack().len() > 0,
        ensures
            old(self).stack() == final(self).stack().push(r.frame()),
    {
        let r = self.state.pop().unwrap();
        assert(old(self).stack() =~= self.stack().push(r.frame()));
        r
    }

    /// Takes the finished value out of a complete build.
    pub fn unwrap(self) -> (r: Value)
        requires
            complete(self.stack()),
        ensures
            self.stack()[0] == Frame::Done(r.tree()),
    {
        let mut s = self;
        let top = s.pop_state();
        match top {
            State::Value(v) => v,
            _ => {
                assert(false);
                Value::Nil
            },
        }
    }

    /// Whether the build is complete, so that `unwrap` may be called.
    pub fn is_complete(&self) -> (r: bool)
        ensures
            r == complete(self.stack()),
    {
        self.state.len() == 1 && matches!(self.state[0], State::Value(_))
    }

    pub fn serialize_unit(&mut self)
        ensures
            final(self).stack() == old(self).stack().push(Frame::Done(Tree::Nil)),
    {
        self.push_state(State::Value(Value::Nil));
    }

    /// An absent optional becomes nil.
    pub fn serialize_none(&mut self)
        ensures
            final(self).stack() == old(self).stack().push(Frame::Done(Tree::Nil)),
    {
        self.serialize_unit();
    }

    pub fn serialize_bool(&mut self, value: bool)
        ensures
            final(self).stack() == old(self).stack().push(Frame::Done(Tree::Boolean(value))),
    {
        self.push_state(State::Value(Value::Boolean(value)));
    }

    pub fn serialize_i64(&mut self, value: i64)
        ensures
            final(self).stack() == old(self).stack().push(Frame::Done(Tree::Integer(Integer::I64(value)))),
    {
        self.push_state(State::Value(Value::Integer(Integer::I64(value))));
    }

    pub fn serialize_u64(&mut self, value: u64)
        ensures
            final(self).stack() == old(self).stack().push(Frame::Done(Tree::Integer(Integer::U64(value)))),
    {
        self.push_state(State::Value(Value::Integer(Integer::U64(value))));
    }

    /// A 32-bit float, given by its bit pattern.
    pub fn serialize_f32(&mut self, bits: u32)
        ensures
            final(self).stack() == old(self).stack().push(Frame::Done(Tree::Float(Float::F32(bits)))),
    {
        self.push_state(State::Value(Value::Float(Float::F32(bits))));
    }

    /// A 64-bit float, given by its bit pattern.
    pub fn serialize_f64(&mut self, bits: u64)
        ensures
            final(self).stack() == old(self).stack().push(Frame::Done(Tree::Float(Float::F64(bits)))),
    {
        self.push_state(State::Value(Value::Float(Float::F64(bits))));
    }

    /// A character becomes a string of that one character.
    pub fn serialize_char(&mut self, value: char)
        ensures
            final(self).stack() == old(self).stack().push(Frame::Done(Tree::String(seq![value]))),
    {
        let mut s = String::new();
        push_char(&mut s, value);
        assert(s@ =~= seq![value]);
        self.push_state(State::Value(Value::String(s)));
    }

    pub fn serialize_str(&mut self, value: &str)
        ensures
            final(self).stack() == old(self).stack().push(Frame::Done(Tree::String(value@))),
    {
        self.push_state(State::Value(Value::String(value.to_owned())));
    }

    pub fn serialize_bytes(&mut self, value: Vec<u8>)
        ensures
            final(self).stack() == old(self).stack().push(Frame::Done(Tree::Binary(value@))),
    {
        self.push_state(State::Value(Value::Binary(value)));
    }

    /// Opens an array: its elements follow, each ended by `serialize_seq_elt`.
    pub fn serialize_seq_begin(&mut self)
        ensures
            final(self).stack() == old(self).stack().push(Frame::Array(Seq::empty())),
    {
        let vs: Vec<Value> = Vec::new();
        proof {
            assert(trees(vs@) =~= Seq::<Tree>::empty());
        }
        self.push_state(State::Array(vs));
    }

    /// Moves the finished value on top into the array below it.
    pub fn serialize_seq_elt(&mut self)
        requires
            seq_elt_ready(old(self).stack()),
        ensures
            ({
                let st = old(self).stack();
                let n = st.len() - 2;
                final(self).stack() == st.take(n).push(
                    Frame::Array(st[n]->Array_0.push(st.last()->Done_0)),
                )
            }),
    {
        let ghost st = self.stack();
        let top = self.pop_state();
        let below = self.pop_state();
        assert(self.stack() =~= st.take(st.len() - 2));
        match (top, below) {
            (State::Value(v), State::Array(mut vs)) => {
                vs.push(v);
                assert(trees(vs@) =~= st[st.len() - 2]->Array_0.push(st.last()->Done_0));
                self.push_state(State::Array(vs));
            },
            _ => {
                assert(false);
            },
        }
    }

    /// Whether `serialize_seq_elt` may be called.
    pub fn is_seq_elt_ready(&self) -> (r: bool)
        ensures
            r == seq_elt_ready(self.stack()),
    {
        let n = self.state.len();
        n >= 2 && matches!(self.state[n - 1], State::Value(_)) && matches!(self.state[n - 2], State::Array(_))
    }

    /// Closes the array on top: it becomes a finished value.
    pub fn serialize_seq_end(&mut self)
        requires
            old(self).stack().len() > 0,
            old(self).stack().last() is Array,
        ensures
            ({
                let st = old(self).stack();
                final(self).stack() == st.drop_last().push(Frame::Done(Tree::Array(st.last()->Array_0)))
            }),
    {
        let top = self.pop_state();
        match top {
            State::Array(vs) => {
                proof {
                    lemma_array_tree(vs);
                }
                self.push_state(State::Value(Value::Array(vs)));
            },
            _ => {
                assert(false);
            },
        }
    }

    /// Whether `serialize_seq_end` may be called.
    pub fn is_seq_open(&self) -> (r: bool)
        ensures
            r == (self.stack().len() > 0 && self.stack().last() is Array),
    {
        let n = self.state.len();
        n >= 1 && matches!(self.state[n - 1], State::Array(_))
    }

    /// Opens a map: its entries follow, each ended by `serialize_map_elt`.
    pub fn serialize_map_begin(&mut self)
        ensures
            final(self).stack() == old(self).stack().push(Frame::Object(Seq::empty())),
    {
        let ps: Vec<(Value, Value)> = Vec::new();
        proof {
            assert(tree_pairs(ps@) =~= Seq::<(Tree, Tree)>::empty());
        }
        self.push_state(State::Object(ps));
    }

    /// Moves the finished key and value on top into the map below them.
    pub fn serialize_map_elt(&mut self)
        requires
            map_elt_ready(old(self).stack()),
        ensures
            ({
                let st = old(self).stack();
                let n = st.len() - 3;
                final(self).stack() == st.take(n).push(
                    Frame::Object(st[n]->Object_0.push((st[n + 1]->Done_0, st[n + 2]->Done_0))),
                )
            }),
    {
        let ghost st = self.stack();
        let value = self.pop_state();
        let key = self.pop_state();
        let below = self.pop_state();
        assert(self.stack() =~= st.take(st.len() - 3));
        match (key, value, below) {
            (State::Value(k), State::Value(v), State::Object(mut ps)) => {
                ps.push((k, v));
                assert(tree_pairs(ps@) =~= st[st.len() - 3]->Object_0.push(
                    (st[st.len() - 2]->Done_0, st[st.len() - 1]->Done_0),
                ));
                self.push_state(State::Object(ps));
            },
            _ => {
                assert(false);
            },
        }
    }

    /// Whether `serialize_map_elt` may be called.
    pub fn is_map_elt_ready(&self) -> (r: bool)
        ensures
            r == map_elt_ready(self.stack()),
    {
        let n = self.state.len();
        n >= 3 && matches!(self.state[n - 1], State::Value(_)) && matches!(self.state[n - 2], State::Value(_))
            && matches!(self.state[n - 3], State::Object(_))
    }

    /// Closes the map on top: it becomes a finished value.
    pub fn serialize_map_end(&mut self)
        requires
            old(self).stack().len() > 0,
            old(self).stack().last() is Object,
        ensures
            ({
                let st = old(self).stack();
                final(self).stack() == st.drop_last().push(Frame::Done(Tree::Object(st.last()->Object_0)))
            }),
    {
        let top = self.pop_state();
        match top {
            State::Object(ps) => {
                proof {
                    lemma_object_tree(ps);
                }
                self.push_state(State::Value(Value::Object(ps)));
            },
            _ => {
                assert(false);
            },
        }
    }

    /// Whether `serialize_map_end` may be called.
    pub fn is_map_open(&self) -> (r: bool)
        ensures
            r == (self.stack().len() > 0 && self.stack().last() is Object),
    {
        let n = self.state.len();
        n >= 1 && matches!(self.state[n - 1], State::Object(_))
    }
}

/// Relies on String::push: appends the one character to the string.
#[verifier::external_body]
fn push_char(s: &mut String, c: char)
    ensures
        final(s)@ == old(s)@.push(c),
{
    s.push(c)
}

} // verus!
