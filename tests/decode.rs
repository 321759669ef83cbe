use rmp_serde::codec::{decode, from_value, to_value};
use rmp_serde::decode::{Deserializer, Error, Visit};
use rmp_serde::marker::{Marker, Type};
use rmp_serde::value::{Float, Integer, Value};

fn s(text: &str) -> Value {
    Value::String(text.to_string())
}

fn u(n: u64) -> Value {
    Value::Integer(Integer::U64(n))
}

fn end_of_stream() -> Error {
    Error::Uncategorized("end of stream".to_string())
}

#[test]
fn read_takes_the_value_once() {
    let mut de = Deserializer::new(Value::Boolean(true));
    assert!(matches!(de.deserialize(), Ok(Visit::Bool(true))));
    assert!(matches!(de.deserialize(), Err(e) if e == end_of_stream()));
}

#[test]
fn primitives_read_as_their_visits() {
    let mut de = Deserializer::new(Value::Nil);
    assert!(matches!(de.deserialize(), Ok(Visit::Nil)));
    let mut de = Deserializer::new(Value::Integer(Integer::I64(-3)));
    assert!(matches!(de.deserialize(), Ok(Visit::I64(-3))));
    let mut de = Deserializer::new(u(9));
    assert!(matches!(de.deserialize(), Ok(Visit::U64(9))));
    let mut de = Deserializer::new(Value::Float(Float::F32(7)));
    assert!(matches!(de.deserialize(), Ok(Visit::F32(7))));
    let mut de = Deserializer::new(Value::Float(Float::F64(8)));
    assert!(matches!(de.deserialize(), Ok(Visit::F64(8))));
    let mut de = Deserializer::new(s("hi"));
    assert!(matches!(de.deserialize(), Ok(Visit::Str(t)) if t == "hi"));
    let mut de = Deserializer::new(Value::Binary(vec![4, 5]));
    assert!(matches!(de.deserialize(), Ok(Visit::Bytes(b)) if b == vec![4, 5]));
}

#[test]
fn optional_nil_reads_as_absent() {
    let de = Deserializer::new(Value::Nil);
    assert_eq!(de.deserialize_option(), Ok(false));
    let de = Deserializer::new(u(0));
    assert_eq!(de.deserialize_option(), Ok(true));
    let mut de = Deserializer::new(u(0));
    let _ = de.deserialize();
    assert_eq!(de.deserialize_option(), Err(end_of_stream()));
}

#[test]
fn optional_check_leaves_the_value_held() {
    let mut de = Deserializer::new(u(5));
    assert_eq!(de.deserialize_option(), Ok(true));
    assert!(matches!(de.deserialize(), Ok(Visit::U64(5))));
}

#[test]
fn extension_is_reported_as_held() {
    let de = Deserializer::new(Value::Ext(1, vec![0]));
    assert!(de.holds_ext());
    let de = Deserializer::new(Value::Nil);
    assert!(!de.holds_ext());
}

#[test]
fn sequence_from_primitive_is_type_mismatch() {
    let mut de = Deserializer::new(Value::Boolean(true));
    assert!(matches!(de.deserialize_seq(), Err(Error::TypeMismatch(Marker::Array32))));
    let mut de = Deserializer::new(Value::Object(vec![]));
    assert!(matches!(de.deserialize_seq(), Err(Error::TypeMismatch(Marker::Array32))));
    let mut de = Deserializer::new(Value::Ext(2, vec![]));
    assert!(matches!(de.deserialize_seq(), Err(Error::TypeMismatch(Marker::Array32))));
}

#[test]
fn map_from_primitive_is_type_mismatch() {
    let mut de = Deserializer::new(u(1));
    assert!(matches!(de.deserialize_map(), Err(Error::TypeMismatch(Marker::Map32))));
    let mut de = Deserializer::new(Value::Array(vec![]));
    assert!(matches!(de.deserialize_map(), Err(Error::TypeMismatch(Marker::Map32))));
}

#[test]
fn container_read_from_empty_walker_is_end_of_stream() {
    let mut de = Deserializer::new(Value::Nil);
    let _ = de.deserialize();
    assert!(matches!(de.deserialize_seq(), Err(e) if e == end_of_stream()));
    assert!(matches!(de.deserialize_map(), Err(e) if e == end_of_stream()));
}

#[test]
fn empty_array_reads_no_element_and_ends() {
    let mut de = Deserializer::new(Value::Array(vec![]));
    let mut sv = match de.deserialize_seq() {
        Ok(sv) => sv,
        Err(_) => panic!("expected an accessor"),
    };
    assert_eq!(sv.size_hint(), (0, Some(0)));
    assert!(!sv.visit(&mut de));
    assert_eq!(sv.end(), Ok(()));
}

#[test]
fn short_read_of_array_is_length_mismatch() {
    let mut de = Deserializer::new(Value::Array(vec![u(1), u(2), u(3)]));
    let mut sv = match de.deserialize_seq() {
        Ok(sv) => sv,
        Err(_) => panic!("expected an accessor"),
    };
    assert!(sv.visit(&mut de));
    assert!(matches!(de.deserialize(), Ok(Visit::U64(1))));
    assert_eq!(sv.size_hint(), (2, Some(2)));
    assert_eq!(sv.end(), Err(Error::LengthMismatch(3)));
}

#[test]
fn array_elements_come_in_order_then_stop() {
    let mut de = Deserializer::new(Value::Array(vec![u(1), u(2)]));
    let mut sv = match de.deserialize() {
        Ok(Visit::Sequence(sv)) => sv,
        _ => panic!("expected an accessor"),
    };
    assert!(sv.visit(&mut de));
    assert!(matches!(de.deserialize(), Ok(Visit::U64(1))));
    assert!(sv.visit(&mut de));
    assert!(matches!(de.deserialize(), Ok(Visit::U64(2))));
    assert!(!sv.visit(&mut de));
    assert_eq!(sv.end(), Ok(()));
}

#[test]
fn short_read_of_map_is_length_mismatch() {
    let mut de = Deserializer::new(Value::Object(vec![(s("a"), u(1)), (s("b"), u(2))]));
    let mut mv = match de.deserialize_map() {
        Ok(mv) => mv,
        Err(_) => panic!("expected an accessor"),
    };
    assert!(mv.visit_key(&mut de));
    assert!(mv.has_pending_value());
    assert_eq!(mv.end(), Err(Error::LengthMismatch(2)));
}

#[test]
fn map_entries_read_in_order() {
    let mut de = Deserializer::new(Value::Object(vec![(s("a"), u(1)), (s("b"), u(2)), (s("c"), u(3))]));
    let mut mv = match de.deserialize_map() {
        Ok(mv) => mv,
        Err(_) => panic!("expected an accessor"),
    };
    assert_eq!(mv.size_hint(), (3, Some(3)));
    let mut seen = Vec::new();
    while mv.visit_key(&mut de) {
        let key = match de.deserialize() {
            Ok(Visit::Str(k)) => k,
            _ => panic!("expected a string key"),
        };
        assert!(mv.has_pending_value());
        mv.visit_value(&mut de);
        assert!(!mv.has_pending_value());
        let value = match de.deserialize() {
            Ok(Visit::U64(v)) => v,
            _ => panic!("expected an integer value"),
        };
        seen.push((key, value));
    }
    assert_eq!(
        seen,
        vec![("a".to_string(), 1), ("b".to_string(), 2), ("c".to_string(), 3)]
    );
    assert_eq!(mv.end(), Ok(()));
}

#[test]
fn structure_reads_back_its_three_fields() {
    let v = Value::Object(vec![
        (s("name"), s("a")),
        (s("tags"), Value::Array(vec![s("x"), s("y")])),
        (s("count"), Value::Integer(Integer::I64(2))),
    ]);
    let mut de = Deserializer::new(v);
    let mut mv = match de.deserialize_map() {
        Ok(mv) => mv,
        Err(_) => panic!("expected a map"),
    };
    let mut name = String::new();
    let mut tags: Vec<String> = Vec::new();
    let mut count = 0i64;
    while mv.visit_key(&mut de) {
        let key = match de.deserialize() {
            Ok(Visit::Str(k)) => k,
            _ => panic!("expected a field name"),
        };
        mv.visit_value(&mut de);
        match key.as_str() {
            "name" => match de.deserialize() {
                Ok(Visit::Str(t)) => name = t,
                _ => panic!("expected a string"),
            },
            "tags" => {
                let mut sv = match de.deserialize_seq() {
                    Ok(sv) => sv,
                    Err(_) => panic!("expected a sequence"),
                };
                while sv.visit(&mut de) {
                    match de.deserialize() {
                        Ok(Visit::Str(t)) => tags.push(t),
                        _ => panic!("expected a string"),
                    }
                }
                assert_eq!(sv.end(), Ok(()));
            }
            "count" => match de.deserialize() {
                Ok(Visit::I64(n)) => count = n,
                _ => panic!("expected an integer"),
            },
            _ => panic!("unknown field"),
        }
    }
    assert_eq!(mv.end(), Ok(()));
    assert_eq!(name, "a");
    assert_eq!(tags, vec!["x".to_string(), "y".to_string()]);
    assert_eq!(count, 2);
}

#[test]
fn nested_value_round_trips() {
    let make = || {
        Value::Array(vec![
            Value::Nil,
            Value::Boolean(false),
            Value::Integer(Integer::I64(-1)),
            Value::Float(Float::F64(2.5f64.to_bits())),
            Value::Binary(vec![9]),
            Value::Object(vec![
                (s("k"), Value::Array(vec![])),
                (u(7), Value::Object(vec![])),
                (s("k"), s("dup")),
            ]),
        ])
    };
    let encoded = to_value(make());
    assert_eq!(encoded, make());
    assert_eq!(from_value(encoded), Ok(make()));
}

#[test]
fn decode_of_empty_walker_is_end_of_stream() {
    let mut de = Deserializer::new(Value::Nil);
    assert_eq!(decode(&mut de), Ok(Value::Nil));
    assert_eq!(decode(&mut de), Err(end_of_stream()));
}

#[test]
fn error_constructors_build_their_kinds() {
    assert_eq!(Error::invalid_value("bad"), Error::Syntax("syntax error: bad".to_string()));
    assert_eq!(Error::invalid_length(4), Error::LengthMismatch(4));
    assert_eq!(Error::invalid_length((1usize << 32) + 5), Error::LengthMismatch(5));
    assert_eq!(Error::end_of_stream(), end_of_stream());
    assert_eq!(Error::missing_field("f"), Error::Uncategorized("missing field".to_string()));
    assert_eq!(Error::unknown_field("f"), Error::Uncategorized("unknown field".to_string()));
    assert_eq!(Error::custom("m".to_string()), Error::Uncategorized("m".to_string()));
}

#[test]
fn type_mismatch_names_the_demanded_shape() {
    assert_eq!(Error::invalid_type(Type::Sequence), Error::TypeMismatch(Marker::Array32));
    assert_eq!(Error::invalid_type(Type::Mapping), Error::TypeMismatch(Marker::Map32));
    assert_eq!(Error::invalid_type(Type::Bool), Error::TypeMismatch(Marker::True));
    assert_eq!(Error::invalid_type(Type::Usize), Error::TypeMismatch(Marker::FixPos(0)));
    assert_eq!(Error::invalid_type(Type::Isize), Error::TypeMismatch(Marker::FixNeg(0)));
    assert_eq!(Error::invalid_type(Type::Char), Error::TypeMismatch(Marker::Str32));
    assert_eq!(Error::invalid_type(Type::Option), Error::TypeMismatch(Marker::Null));
    assert_eq!(Error::invalid_type(Type::Struct), Error::TypeMismatch(Marker::Map32));
    assert_eq!(Error::invalid_type(Type::Bytes), Error::TypeMismatch(Marker::Array32));
    assert_eq!(Error::invalid_type(Type::F64), Error::TypeMismatch(Marker::F64));
}
