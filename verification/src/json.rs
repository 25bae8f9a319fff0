//! The parsed form of a configuration file and the check of its content
//! against a caller-supplied shape.
//!
//! A shape declares the fields a configuration must have, each with a
//! type. A parsed value conforms to a shape when it is an object, every
//! field of the object is declared in the shape with a value of the
//! declared type, and every declared field is present. Anything else is a
//! deserialization failure: an unknown field is an error, not silently
//! dropped, so that a typo in a configuration file is caught.

use vstd::prelude::*;

verus! {

/// A value read from a configuration file. Numbers are integers: the
/// configuration format of this library has no floating-point values.
#[derive(Debug, PartialEq, Eq)]
pub enum JsonValue {
    Null,
    Bool(bool),
    Int(i64),
    UInt(u64),
    Text(String),
    Array(Vec<JsonValue>),
    Object(Vec<(String, JsonValue)>),
}

/// The type a declared field must have.
#[derive(Debug, Clone, Copy, PartialEq, Eq)]
pub enum FieldType {
    Bool,
    Int,
    UInt,
    Text,
}

/// One declared field of a shape: its name and its type.
#[derive(Debug)]
pub struct Field {
    pub name: String,
    pub ty: FieldType,
}

/// The shape a configuration must match: the declared fields, all of them
/// required, and no others allowed.
#[derive(Debug)]
pub struct Shape {
    pub fields: Vec<Field>,
}

/// A configuration that matched a shape: the fields of the object, in the
/// order the parser delivered them.
#[derive(Debug)]
pub struct Record {
    pub entries: Vec<(String, JsonValue)>,
}

/// Whether a value fits a declared field type. An integer counts for a
/// signed or an unsigned field whenever it is in that field's range.
pub open spec fn type_matches(v: JsonValue, t: FieldType) -> bool {
    match t {
        FieldType::Bool => v matches JsonValue::Bool(_),
        FieldType::Int => (v matches JsonValue::Int(_)) || (v matches JsonValue::UInt(u)
            && u <= i64::MAX as u64),
        FieldType::UInt => (v matches JsonValue::UInt(_)) || (v matches JsonValue::Int(i) && i
            >= 0),
        FieldType::Text => v matches JsonValue::Text(_),
    }
}

/// The type of the first declared field with the given name, if any.
pub open spec fn field_lookup(fields: Seq<Field>, name: Seq<char>) -> Option<FieldType>
    decreases fields.len(),
{
    if fields.len() == 0 {
        None
    } else if fields[0].name@ == name {
        Some(fields[0].ty)
    } else {
        field_lookup(fields.drop_first(), name)
    }
}

/// The value of the first object field with the given name, if any.
pub open spec fn pair_lookup(pairs: Seq<(String, JsonValue)>, name: Seq<char>) -> Option<
    JsonValue,
>
    decreases pairs.len(),
{
    if pairs.len() == 0 {
        None
    } else if pairs[0].0@ == name {
        Some(pairs[0].1)
    } else {
        pair_lookup(pairs.drop_first(), name)
    }
}

/// The description given when the parsed value is not an object.
pub open spec fn msg_not_object() -> Seq<char> {
    "expected an object"@
}

/// The description given when the object holds a field the shape does not
/// declare.
pub open spec fn msg_unknown_field() -> Seq<char> {
    "unknown field"@
}

/// The description given when a field's value has the wrong type.
pub open spec fn msg_type_mismatch() -> Seq<char> {
    "field value of wrong type"@
}

/// The description given when a declared field is absent.
pub open spec fn msg_missing_field() -> Seq<char> {
    "missing field"@
}

/// The first failure among the object's fields, scanned in order: an
/// undeclared name, or a value that does not fit the declared type.
pub open spec fn check_pairs(fields: Seq<Field>, pairs: Seq<(String, JsonValue)>) -> Option<
    Seq<char>,
>
    decreases pairs.len(),
{
    if pairs.len() == 0 {
        None
    } else {
        match field_lookup(fields, pairs[0].0@) {
            None => Some(msg_unknown_field()),
            Some(t) => if !type_matches(pairs[0].1, t) {
                Some(msg_type_mismatch())
            } else {
                check_pairs(fields, pairs.drop_first())
            },
        }
    }
}

/// The first declared field absent from the object, scanned in declaration
/// order.
pub open spec fn check_fields(fields: Seq<Field>, pairs: Seq<(String, JsonValue)>) -> Option<
    Seq<char>,
>
    decreases fields.len(),
{
    if fields.len() == 0 {
        None
    } else if pair_lookup(pairs, fields[0].name@) is None {
        Some(msg_missing_field())
    } else {
        check_fields(fields.drop_first(), pairs)
    }
}

/// What decoding a parsed value against a shape yields: the object's
/// fields when the value conforms, else the description of the first
/// failure.
pub open spec fn decode_result(fields: Seq<Field>, v: JsonValue) -> Result<
    Seq<(String, JsonValue)>,
    Seq<char>,
> {
    match v {
        JsonValue::Object(pairs) => match check_pairs(fields, pairs@) {
            Some(m) => Err(m),
            None => match check_fields(fields, pairs@) {
                Some(m) => Err(m),
                None => Ok(pairs@),
            },
        },
        _ => Err(msg_not_object()),
    }
}

/// A field scan fails whenever some object field is bad: undeclared, or
/// of the wrong type.
proof fn lemma_check_pairs_bad(fields: Seq<Field>, pairs: Seq<(String, JsonValue)>, j: int)
    requires
        0 <= j < pairs.len(),
        !(field_lookup(fields, pairs[j].0@) matches Some(t) && type_matches(pairs[j].1, t)),
    ensures
        check_pairs(fields, pairs) is Some,
    decreases j,
{
    if field_lookup(fields, pairs[0].0@) matches Some(t) && type_matches(pairs[0].1, t) {
        assert(j > 0);
        assert(pairs.drop_first()[j - 1] == pairs[j]);
        lemma_check_pairs_bad(fields, pairs.drop_first(), j - 1);
    }
}

/// A presence scan fails whenever some declared field is absent from the
/// object.
proof fn lemma_check_fields_missing(fields: Seq<Field>, pairs: Seq<(String, JsonValue)>, k: int)
    requires
        0 <= k < fields.len(),
        pair_lookup(pairs, fields[k].name@) is None,
    ensures
        check_fields(fields, pairs) is Some,
    decreases k,
{
    if pair_lookup(pairs, fields[0].name@) is Some {
        assert(k > 0);
        assert(fields.drop_first()[k - 1] == fields[k]);
        lemma_check_fields_missing(fields.drop_first(), pairs, k - 1);
    }
}

/// An object that holds a field the shape does not declare never decodes:
/// an unknown field is an error, not silently dropped.
pub proof fn lemma_unknown_field_rejected(fields: Seq<Field>, v: JsonValue, j: int)
    requires
        v matches JsonValue::Object(ps) && 0 <= j < ps@.len() && field_lookup(
            fields,
            ps@[j].0@,
        ) is None,
    ensures
        decode_result(fields, v) is Err,
{
    let ps = v->Object_0;
    lemma_check_pairs_bad(fields, ps@, j);
}

/// An object that omits a declared field never decodes: every field of
/// the shape is required.
pub proof fn lemma_missing_field_rejected(fields: Seq<Field>, v: JsonValue, k: int)
    requires
        v matches JsonValue::Object(ps) && 0 <= k < fields.len() && pair_lookup(
            ps@,
            fields[k].name@,
        ) is None,
    ensures
        decode_result(fields, v) is Err,
{
    let ps = v->Object_0;
    lemma_check_fields_missing(fields, ps@, k);
}

/// Compare two strings by their characters.
fn string_eq(a: &String, b: &String) -> (r: bool)
    ensures
        r == (a@ == b@),
{
    a.eq(b)
}

/// Decide whether a value fits a declared field type.
pub fn value_matches_type(v: &JsonValue, t: FieldType) -> (r: bool)
    ensures
        r == type_matches(*v, t),
{
    match t {
        FieldType::Bool => match v {
            JsonValue::Bool(_) => true,
            _ => false,
        },
        FieldType::Int => match v {
            JsonValue::Int(_) => true,
            JsonValue::UInt(u) => *u <= i64::MAX as u64,
            _ => false,
        },
        FieldType::UInt => match v {
            JsonValue::UInt(_) => true,
            JsonValue::Int(i) => *i >= 0,
            _ => false,
        },
        FieldType::Text => match v {
            JsonValue::Text(_) => true,
            _ => false,
        },
    }
}

/// Find the declared type of a field name in a shape.
pub fn find_field(fields: &Vec<Field>, name: &String) -> (r: Option<FieldType>)
    ensures
        r == field_lookup(fields@, name@),
{
    let n = fields.len();
    let mut j: usize = 0;
    proof {
        assert(fields@.skip(0) =~= fields@);
    }
    while j < n
        invariant
            j <= n,
            n == fields.len(),
            field_lookup(fields@, name@) == field_lookup(fields@.skip(j as int), name@),
        decreases n - j,
    {
        proof {
            assert(fields@.skip(j as int)[0] == fields@[j as int]);
        }
        let f = &fields[j];
        if string_eq(&f.name, name) {
            return Some(f.ty);
        }
        proof {
            assert(fields@.skip(j as int).drop_first() =~= fields@.skip(j as int + 1));
        }
        j += 1;
    }
    None
}

/// Find the value of a field name among an object's fields.
pub fn find_pair<'a>(pairs: &'a Vec<(String, JsonValue)>, name: &String) -> (r: Option<
    &'a JsonValue,
>)
    ensures
        (match r {
            Some(v) => pair_lookup(pairs@, name@) == Some(*v),
            None => pair_lookup(pairs@, name@) is None,
        }),
{
    let n = pairs.len();
    let mut j: usize = 0;
    proof {
        assert(pairs@.skip(0) =~= pairs@);
    }
    while j < n
        invariant
            j <= n,
            n == pairs.len(),
            pair_lookup(pairs@, name@) == pair_lookup(pairs@.skip(j as int), name@),
        decreases n - j,
    {
        proof {
            assert(pairs@.skip(j as int)[0] == pairs@[j as int]);
        }
        let p = &pairs[j];
        if string_eq(&p.0, name) {
            return Some(&p.1);
        }
        proof {
            assert(pairs@.skip(j as int).drop_first() =~= pairs@.skip(j as int + 1));
        }
        j += 1;
    }
    None
}

/// Check a parsed value against a shape. On success the result holds the
/// object's fields; on failure, a description of the first mismatch.
pub fn decode(shape: &Shape, v: JsonValue) -> (r: Result<Record, String>)
    ensures
        (match r {
            Ok(rec) => decode_result(shape.fields@, v) == Ok::<
                Seq<(String, JsonValue)>,
                Seq<char>,
            >(rec.entries@),
            Err(m) => decode_result(shape.fields@, v) == Err::<
                Seq<(String, JsonValue)>,
                Seq<char>,
            >(m@),
        }),
{
    let pairs: Vec<(String, JsonValue)> = match v {
        JsonValue::Object(pairs) => pairs,
        _ => {
            return Err("expected an object".to_owned());
        },
    };
    let n = pairs.len();
    let mut i: usize = 0;
    proof {
        assert(pairs@.skip(0) =~= pairs@);
    }
    while i < n
        invariant
            i <= n,
            n == pairs.len(),
            v matches JsonValue::Object(q) && q == pairs,
            check_pairs(shape.fields@, pairs@) == check_pairs(
                shape.fields@,
                pairs@.skip(i as int),
            ),
        decreases n - i,
    {
        proof {
            assert(pairs@.skip(i as int)[0] == pairs@[i as int]);
        }
        let p = &pairs[i];
        match find_field(&shape.fields, &p.0) {
            None => {
                return Err("unknown field".to_owned());
            },
            Some(t) => {
                if !value_matches_type(&p.1, t) {
                    return Err("field value of wrong type".to_owned());
                }
            },
        }
        proof {
            assert(pairs@.skip(i as int).drop_first() =~= pairs@.skip(i as int + 1));
        }
        i += 1;
    }
    proof {
        assert(pairs@.skip(n as int) =~= Seq::<(String, JsonValue)>::empty());
    }
    let m = shape.fields.len();
    let mut k: usize = 0;
    proof {
        assert(shape.fields@.skip(0) =~= shape.fields@);
    }
    while k < m
        invariant
            k <= m,
            m == shape.fields.len(),
            v matches JsonValue::Object(q) && q == pairs,
            check_pairs(shape.fields@, pairs@) is None,
            check_fields(shape.fields@, pairs@) == check_fields(
                shape.fields@.skip(k as int),
                pairs@,
            ),
        decreases m - k,
    {
        proof {
            assert(shape.fields@.skip(k as int)[0] == shape.fields@[k as int]);
        }
        let f = &shape.fields[k];
        match find_pair(&pairs, &f.name) {
            None => {
                return Err("missing field".to_owned());
            },
            Some(_) => {},
        }
        proof {
            assert(shape.fields@.skip(k as int).drop_first() =~= shape.fields@.skip(k as int + 1));
        }
        k += 1;
    }
    proof {
        assert(shape.fields@.skip(m as int) =~= Seq::<Field>::empty());
    }
    Ok(Record { entries: pairs })
}

impl Record {
    /// The value of a field, by name.
    pub fn get<'a>(&'a self, name: &String) -> (r: Option<&'a JsonValue>)
        ensures
            (match r {
                Some(v) => pair_lookup(self.entries@, name@) == Some(*v),
                None => pair_lookup(self.entries@, name@) is None,
            }),
    {
        find_pair(&self.entries, name)
    }

    /// The value of a boolean field, by name.
    pub fn get_bool(&self, name: &String) -> (r: Option<bool>)
        ensures
            (match pair_lookup(self.entries@, name@) {
                Some(JsonValue::Bool(b)) => r == Some(b),
                _ => r is None,
            }),
    {
        match self.get(name) {
            Some(JsonValue::Bool(b)) => Some(*b),
            _ => None,
        }
    }

    /// The value of a signed integer field, by name. An unsigned value in
    /// the signed range counts.
    pub fn get_i64(&self, name: &String) -> (r: Option<i64>)
        ensures
            (match pair_lookup(self.entries@, name@) {
                Some(JsonValue::Int(i)) => r == Some(i),
                Some(JsonValue::UInt(u)) => r == (if u <= i64::MAX as u64 {
                    Some(u as i64)
                } else {
                    None::<i64>
                }),
                _ => r is None,
            }),
    {
        match self.get(name) {
            Some(JsonValue::Int(i)) => Some(*i),
            Some(JsonValue::UInt(u)) => if *u <= i64::MAX as u64 {
                Some(*u as i64)
            } else {
                None
            },
            _ => None,
        }
    }

    /// The value of an unsigned integer field, by name. A non-negative
    /// signed value counts.
    pub fn get_u64(&self, name: &String) -> (r: Option<u64>)
        ensures
            (match pair_lookup(self.entries@, name@) {
                Some(JsonValue::UInt(u)) => r == Some(u),
                Some(JsonValue::Int(i)) => r == (if i >= 0 {
                    Some(i as u64)
                } else {
                    None::<u64>
                }),
                _ => r is None,
            }),
    {
        match self.get(name) {
            Some(JsonValue::UInt(u)) => Some(*u),
            Some(JsonValue::Int(i)) => if *i >= 0 {
                Some(*i as u64)
            } else {
                None
            },
            _ => None,
        }
    }

    /// The value of a text field, by name.
    pub fn get_text<'a>(&'a self, name: &String) -> (r: Option<&'a String>)
        ensures
            (match pair_lookup(self.entries@, name@) {
                Some(JsonValue::Text(s)) => r matches Some(t) && t@ == s@,
                _ => r is None,
            }),
    {
        match self.get(name) {
            Some(JsonValue::Text(s)) => Some(s),
            _ => None,
        }
    }
}

} // verus!
