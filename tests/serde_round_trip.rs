use heap_array::array::Array;
use heap_array::codec::{DecodeAction, SeqEvent, SequenceDecoder};
use serde::de::{SeqAccess, Visitor};
use serde::{Deserialize, Deserializer, Serialize, Serializer};
use std::marker::PhantomData;

#[derive(Debug, Clone, Copy, PartialEq, Eq, PartialOrd)]
struct Example {
    a: u8,
    b: u16,
    c: u32,
    d: u64,
    e: u128,
    f: i8,
    g: i16,
    h: i32,
    i: i64,
    j: i128,
}

type ExampleFields = (u8, u16, u32, u64, u128, i8, i16, i32, i64, i128);

impl Serialize for Example {
    fn serialize<S: Serializer>(&self, serializer: S) -> Result<S::Ok, S::Error> {
        let fields: ExampleFields = (
            self.a, self.b, self.c, self.d, self.e, self.f, self.g, self.h, self.i, self.j,
        );
        fields.serialize(serializer)
    }
}

impl<'de> Deserialize<'de> for Example {
    fn deserialize<D: Deserializer<'de>>(deserializer: D) -> Result<Self, D::Error> {
        let (a, b, c, d, e, f, g, h, i, j) = ExampleFields::deserialize(deserializer)?;
        Ok(Example { a, b, c, d, e, f, g, h, i, j })
    }
}

/// An array as the encoding framework sees it: a sequence of its elements.
struct SeqArray<T: Copy>(Array<T>);

impl<T: Copy + Serialize> Serialize for SeqArray<T> {
    fn serialize<S: Serializer>(&self, serializer: S) -> Result<S::Ok, S::Error> {
        let elements: Vec<T> = self
            .0
            .encode_sequence()
            .into_iter()
            .filter_map(|event| match event {
                SeqEvent::Element(x) => Some(x),
                _ => None,
            })
            .collect();
        serializer.collect_seq(elements.iter())
    }
}

struct SeqArrayVisitor<T>(PhantomData<T>);

impl<'de, T: Copy + Deserialize<'de>> Visitor<'de> for SeqArrayVisitor<T> {
    type Value = SeqArray<T>;

    fn expecting(&self, formatter: &mut std::fmt::Formatter) -> std::fmt::Result {
        formatter.write_str("a sequence of elements")
    }

    fn visit_seq<A: SeqAccess<'de>>(self, mut seq: A) -> Result<Self::Value, A::Error> {
        let mut decoder = SequenceDecoder::with_size_hint(seq.size_hint());
        loop {
            match seq.next_element::<T>()? {
                Some(x) => {
                    decoder.accept(SeqEvent::Element(x));
                }
                None => {
                    assert_eq!(decoder.accept(SeqEvent::End), DecodeAction::Complete);
                    return Ok(SeqArray(decoder.finish().unwrap()));
                }
            }
        }
    }
}

impl<'de, T: Copy + Deserialize<'de>> Deserialize<'de> for SeqArray<T> {
    fn deserialize<D: Deserializer<'de>>(deserializer: D) -> Result<Self, D::Error> {
        deserializer.deserialize_seq(SeqArrayVisitor(PhantomData))
    }
}

fn example_of(i: u8) -> Example {
    Example {
        a: 1_u8,
        b: i as u16,
        c: i as u32,
        d: i as u64,
        e: i as u128,
        f: 1_i8,
        g: i as i16,
        h: i as i32,
        i: i as i64,
        j: i as i128,
    }
}

fn extreme_example_of(i: u8) -> Example {
    Example {
        a: i,
        b: u16::MAX,
        c: u32::MAX,
        d: u64::MAX,
        e: u128::MAX,
        f: i as i8,
        g: i16::MIN,
        h: i32::MAX,
        i: i64::MIN,
        j: i128::MAX,
    }
}

#[test]
fn deserialize_json_serialize() {
    let example = Array::from_boxed_slice(
        (1..10).map(example_of).collect::<Vec<Example>>().into_boxed_slice(),
    );
    let expected = SeqArray(example);

    let value = serde_json::to_string(&expected).unwrap();

    let result: SeqArray<Example> = serde_json::from_slice(value.as_bytes()).unwrap();
    assert_eq!(
        result.0.get(0),
        Some(&Example {
            a: 1_u8,
            b: 1_u16,
            c: 1_u32,
            d: 1_u64,
            e: 1_u128,
            f: 1_i8,
            g: 1_i16,
            h: 1_i32,
            i: 1_i64,
            j: 1_i128,
        })
    );
    assert_eq!(
        result.0.get(8),
        Some(&Example {
            a: 1_u8,
            b: 9_u16,
            c: 9_u32,
            d: 9_u64,
            e: 9_u128,
            f: 1_i8,
            g: 9_i16,
            h: 9_i32,
            i: 9_i64,
            j: 9_i128,
        })
    );
    assert_eq!(expected.0, result.0)
}

#[test]
fn deserialize_serialize_ten_times() {
    let example: Array<Example> = Array::from_boxed_slice(
        (1..10).map(extreme_example_of).collect::<Vec<Example>>().into_boxed_slice(),
    );
    let expected = SeqArray(example);
    let mut result: SeqArray<Example> = SeqArray(expected.0.clone());
    for _i in 0..10 {
        let value = serde_json::to_string(&result).unwrap();
        result = serde_json::from_slice(value.as_bytes()).unwrap();
    }
    assert_eq!(
        result.0.get(0),
        Some(&Example {
            a: 1,
            b: u16::MAX,
            c: u32::MAX,
            d: u64::MAX,
            e: u128::MAX,
            f: 1,
            g: i16::MIN,
            h: i32::MAX,
            i: i64::MIN,
            j: i128::MAX,
        })
    );
    assert_eq!(
        result.0.get(8),
        Some(&Example {
            a: 9,
            b: u16::MAX,
            c: u32::MAX,
            d: u64::MAX,
            e: u128::MAX,
            f: 9,
            g: i16::MIN,
            h: i32::MAX,
            i: i64::MIN,
            j: i128::MAX,
        })
    );
    assert!(result.0 == expected.0)
}

#[test]
fn empty_array_json_round_trip() {
    let empty: SeqArray<Example> = SeqArray(Array::from_vec(Vec::new()));
    let value = serde_json::to_string(&empty).unwrap();
    assert_eq!(value, "[]");
    let result: SeqArray<Example> = serde_json::from_slice(value.as_bytes()).unwrap();
    assert_eq!(result.0.len(), 0);
    assert!(result.0.get(0).is_none());
}

#[test]
fn malformed_json_element_fails_decode() {
    let bad = "[[1,1,1,1,1,1,1,1,1,1],\"oops\"]";
    let result: Result<SeqArray<Example>, _> = serde_json::from_slice(bad.as_bytes());
    assert!(result.is_err());
}
