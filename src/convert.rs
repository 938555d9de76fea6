//! Decisions taken while converting values between host and guest: how a
//! guest value is read according to its tag, and the build plan that turns a
//! host value into guest values.

use vstd::prelude::*;
use crate::value::{JsValue, ValueError, keys_unique, properties_well_formed, well_formed};

verus! {

/// Tag of a big integer.
pub const TAG_BIG_INT: i64 = -10;
/// Tag of a string.
pub const TAG_STRING: i64 = -7;
/// Tag of an object.
pub const TAG_OBJECT: i64 = -1;
/// Tag of a 32-bit integer.
pub const TAG_INT: i64 = 0;
/// Tag of a boolean.
pub const TAG_BOOL: i64 = 1;
/// Tag of `null`.
pub const TAG_NULL: i64 = 2;
/// Tag of `undefined`.
pub const TAG_UNDEFINED: i64 = 3;
/// Tag of the exception sentinel.
pub const TAG_EXCEPTION: i64 = 6;
/// Tag of a double.
pub const TAG_FLOAT64: i64 = 7;

/// How a guest value is read, decided from its tag.
#[derive(Clone, Copy, Debug, PartialEq, Eq)]
pub enum TagKind {
    Int,
    Bool,
    Null,
    Undefined,
    Float,
    String,
    Object,
    BigInt,
    Exception,
    /// Kept as an unconverted guest reference.
    Opaque,
}

/// The reading of a tag. A tag that names none of the known kinds is still
/// read as a double where the runtime reports it as one.
pub open spec fn tag_kind(tag: i64, reports_float: bool) -> TagKind {
    if tag == TAG_INT {
        TagKind::Int
    } else if tag == TAG_BOOL {
        TagKind::Bool
    } else if tag == TAG_NULL {
        TagKind::Null
    } else if tag == TAG_UNDEFINED {
        TagKind::Undefined
    } else if tag == TAG_FLOAT64 {
        TagKind::Float
    } else if tag == TAG_STRING {
        TagKind::String
    } else if tag == TAG_OBJECT {
        TagKind::Object
    } else if tag == TAG_BIG_INT {
        TagKind::BigInt
    } else if tag == TAG_EXCEPTION {
        TagKind::Exception
    } else if reports_float {
        TagKind::Float
    } else {
        TagKind::Opaque
    }
}

/// Decides how to read a guest value with tag `tag`; `reports_float` is
/// whether the runtime reports the value as a double.
pub fn classify_tag(tag: i64, reports_float: bool) -> (r: TagKind)
    ensures
        r == tag_kind(tag, reports_float),
{
    if tag == TAG_INT {
        TagKind::Int
    } else if tag == TAG_BOOL {
        TagKind::Bool
    } else if tag == TAG_NULL {
        TagKind::Null
    } else if tag == TAG_UNDEFINED {
        TagKind::Undefined
    } else if tag == TAG_FLOAT64 {
        TagKind::Float
    } else if tag == TAG_STRING {
        TagKind::String
    } else if tag == TAG_OBJECT {
        TagKind::Object
    } else if tag == TAG_BIG_INT {
        TagKind::BigInt
    } else if tag == TAG_EXCEPTION {
        TagKind::Exception
    } else if reports_float {
        TagKind::Float
    } else {
        TagKind::Opaque
    }
}

/// What the runtime reports of a guest object.
#[derive(Clone, Copy, Debug, PartialEq, Eq)]
pub struct ObjectProbe {
    pub is_function: bool,
    pub is_array: bool,
    /// The id of the object's class; zero where the host cannot tell it.
    pub class_id: u32,
    /// Whether the object is an instance of the `Date` constructor.
    pub is_date: bool,
}

/// How a guest object is read.
#[derive(Clone, Copy, Debug, PartialEq, Eq)]
pub enum ObjectKind {
    /// A callable, kept as a guest reference.
    Function,
    /// Read element by element, up to its `length`.
    Array,
    /// An embedded host resource, handed back by a new shared reference.
    Resource,
    /// Read back as a timestamp.
    Date,
    /// Kept unconverted as a guest reference.
    Plain,
}

/// The reading of an object: callable first, then array-like, then the
/// resource class (only once that class has an id, which is never zero), then
/// date instances; anything else stays a guest reference.
pub open spec fn object_kind(p: ObjectProbe, resource_class: u32) -> ObjectKind {
    if p.is_function {
        ObjectKind::Function
    } else if p.is_array {
        ObjectKind::Array
    } else if resource_class != 0 && p.class_id == resource_class {
        ObjectKind::Resource
    } else if p.is_date {
        ObjectKind::Date
    } else {
        ObjectKind::Plain
    }
}

/// Decides how to read a guest object, given the id of the resource class
/// (zero while that class is unregistered).
pub fn classify_object(p: ObjectProbe, resource_class: u32) -> (r: ObjectKind)
    ensures
        r == object_kind(p, resource_class),
{
    if p.is_function {
        ObjectKind::Function
    } else if p.is_array {
        ObjectKind::Array
    } else if resource_class != 0 && p.class_id == resource_class {
        ObjectKind::Resource
    } else if p.is_date {
        ObjectKind::Date
    } else {
        ObjectKind::Plain
    }
}

/// The number of elements to read from an array, given its converted
/// `length` property: a non-negative integer, else an internal error.
pub fn array_length<G, R>(len: &JsValue<G, R>) -> (r: Result<u32, ValueError>)
    ensures
        match *len {
            JsValue::Int(n) => n >= 0 ==> r == Ok::<u32, ValueError>(n as u32),
            _ => true,
        },
        r is Err <==> !(len is Int && len->Int_0 >= 0),
        r is Err ==> r->Err_0 is Internal,
{
    match len {
        JsValue::Int(n) => {
            if *n >= 0 {
                Ok(*n as u32)
            } else {
                Err(ValueError::Internal(String::from_str("Could not determine array length")))
            }
        },
        _ => Err(ValueError::Internal(String::from_str("Could not determine array length"))),
    }
}

/// Position of the first zero byte of `b` at or after `i`.
pub open spec fn zero_from(b: Seq<u8>, i: int) -> Option<nat>
    decreases b.len() - i,
{
    if i < 0 || i >= b.len() {
        None
    } else if b[i] == 0 {
        Some(i as nat)
    } else {
        zero_from(b, i + 1)
    }
}

/// Position of the first zero byte of `b`.
pub open spec fn first_zero(b: Seq<u8>) -> Option<nat> {
    zero_from(b, 0)
}

/// The UTF-8 bytes of a text.
pub open spec fn utf8_of(s: Seq<char>) -> Seq<u8> {
    vstd::utf8::encode_utf8(s)
}

/// Position of the first NUL byte of `value`'s UTF-8 encoding, if any.
pub fn nul_position(value: &str) -> (r: Option<usize>)
    ensures
        match first_zero(utf8_of(value@)) {
            None => r is None,
            Some(p) => r == Some(p as usize),
        },
{
    let bytes = value.as_bytes();
    let mut i: usize = 0;
    while i < bytes.len()
        invariant
            bytes@ == utf8_of(value@),
            0 <= i <= bytes@.len(),
            first_zero(bytes@) == zero_from(bytes@, i as int),
        decreases bytes@.len() - i,
    {
        if bytes[i] == 0 {
            return Some(i);
        }
        i = i + 1;
    }
    None
}

/// The bytes of `value` followed by a NUL terminator, as the runtime takes
/// names and source text; a NUL inside `value` is an error that gives its
/// position.
pub fn make_cstring(value: &str) -> (r: Result<Vec<u8>, ValueError>)
    ensures
        match first_zero(utf8_of(value@)) {
            None => r is Ok && r->Ok_0@ == utf8_of(value@).push(0u8),
            Some(p) => r == Err::<Vec<u8>, ValueError>(ValueError::StringWithZeroBytes(p as usize)),
        },
{
    match nul_position(value) {
        Some(p) => Err(ValueError::StringWithZeroBytes(p)),
        None => {
            let bytes = value.as_bytes();
            let mut out: Vec<u8> = Vec::new();
            let mut i: usize = 0;
            while i < bytes.len()
                invariant
                    bytes@ == utf8_of(value@),
                    0 <= i <= bytes@.len(),
                    out@ == bytes@.subrange(0, i as int),
                decreases bytes@.len() - i,
            {
                out.push(bytes[i]);
                i = i + 1;
            }
            out.push(0u8);
            assert(out@ =~= utf8_of(value@).push(0u8));
            Ok(out)
        },
    }
}

/// The properties after defining `key` as `value`: the value is replaced
/// where the key is present, else the property is added at the end.
pub open spec fn with_property<V>(props: Seq<(String, V)>, key: String, value: V) -> Seq<(String, V)> {
    if exists|i: int| 0 <= i < props.len() && props[i].0@ == key@ {
        let i = choose|i: int| 0 <= i < props.len() && props[i].0@ == key@;
        props.update(i, (props[i].0, value))
    } else {
        props.push((key, value))
    }
}

/// The key-to-value map of a property list, a later entry winning over an
/// earlier one with the same key.
pub open spec fn property_map<V>(props: Seq<(String, V)>) -> Map<Seq<char>, V>
    decreases props.len(),
{
    if props.len() == 0 {
        Map::empty()
    } else {
        property_map(props.drop_last()).insert(props.last().0@, props.last().1)
    }
}

/// The property list that recording `entries` in order builds from an empty
/// one, each entry recorded as `insert_property` records it.
pub open spec fn read_properties<V>(entries: Seq<(String, V)>) -> Seq<(String, V)>
    decreases entries.len(),
{
    if entries.len() == 0 {
        seq![]
    } else {
        with_property(read_properties(entries.drop_last()), entries.last().0, entries.last().1)
    }
}

proof fn lemma_property_map_unique<V>(p: Seq<(String, V)>)
    requires
        keys_unique(p),
    ensures
        forall|key: Seq<char>|
            property_map(p).contains_key(key) <==> exists|i: int| 0 <= i < p.len() && #[trigger] p[i].0@ == key,
        forall|i: int| 0 <= i < p.len() ==> property_map(p)[#[trigger] p[i].0@] == p[i].1,
    decreases p.len(),
{
    if p.len() > 0 {
        let q = p.drop_last();
        assert(keys_unique(q)) by {
            assert forall|i: int, j: int| 0 <= i < j < q.len() implies #[trigger] q[i].0@ != #[trigger] q[j].0@ by {
                assert(q[i] == p[i] && q[j] == p[j]);
            };
        };
        lemma_property_map_unique(q);
        assert forall|key: Seq<char>|
            property_map(p).contains_key(key) <==> exists|i: int| 0 <= i < p.len() && #[trigger] p[i].0@ == key by {
            if property_map(p).contains_key(key) && key != p.last().0@ {
                assert(property_map(q).contains_key(key));
                let i = choose|i: int| 0 <= i < q.len() && #[trigger] q[i].0@ == key;
                assert(p[i] == q[i]);
            }
            if property_map(p).contains_key(key) && key == p.last().0@ {
                assert(p[p.len() - 1].0@ == key);
            }
            if exists|i: int| 0 <= i < p.len() && #[trigger] p[i].0@ == key {
                let i = choose|i: int| 0 <= i < p.len() && #[trigger] p[i].0@ == key;
                if i < p.len() - 1 {
                    assert(q[i] == p[i]);
                }
            }
        };
        assert forall|i: int| 0 <= i < p.len() implies property_map(p)[#[trigger] p[i].0@] == p[i].1 by {
            if i < p.len() - 1 {
                assert(q[i] == p[i]);
                assert(p[i].0@ != p[p.len() - 1].0@);
            }
        };
    }
}

proof fn lemma_with_property<V>(p: Seq<(String, V)>, key: String, value: V)
    requires
        keys_unique(p),
    ensures
        keys_unique(with_property(p, key, value)),
        property_map(with_property(p, key, value)) == property_map(p).insert(key@, value),
{
    let q = with_property(p, key, value);
    if exists|i: int| 0 <= i < p.len() && p[i].0@ == key@ {
        let i = choose|i: int| 0 <= i < p.len() && p[i].0@ == key@;
        assert forall|a: int, b: int| 0 <= a < b < q.len() implies #[trigger] q[a].0@ != #[trigger] q[b].0@ by {
            assert(q[a].0@ == p[a].0@ && q[b].0@ == p[b].0@);
        };
    } else {
        assert forall|a: int, b: int| 0 <= a < b < q.len() implies #[trigger] q[a].0@ != #[trigger] q[b].0@ by {
            if b < p.len() {
                assert(q[a] == p[a] && q[b] == p[b]);
            } else {
                assert(q[a] == p[a]);
            }
        };
    }
    lemma_property_map_unique(p);
    lemma_property_map_unique(q);
    assert forall|k: Seq<char>| property_map(q).contains_key(k) <==> property_map(p).insert(key@, value).contains_key(k) by {
        if exists|i: int| 0 <= i < q.len() && #[trigger] q[i].0@ == k {
            let i = choose|i: int| 0 <= i < q.len() && #[trigger] q[i].0@ == k;
            if i < p.len() && q[i].0@ == p[i].0@ {
            }
        }
        if exists|i: int| 0 <= i < p.len() && #[trigger] p[i].0@ == k {
            let i = choose|i: int| 0 <= i < p.len() && #[trigger] p[i].0@ == k;
            assert(q[i].0@ == p[i].0@);
        }
        if k == key@ && !exists|i: int| 0 <= i < p.len() && p[i].0@ == key@ {
            assert(q[p.len() as int].0@ == key@);
        }
    };
    assert forall|k: Seq<char>| #[trigger] property_map(q).contains_key(k) implies property_map(q)[k] == property_map(p).insert(key@, value)[k] by {
        let i = choose|i: int| 0 <= i < q.len() && #[trigger] q[i].0@ == k;
        if i < p.len() {
            assert(q[i].0@ == p[i].0@);
        }
    };
    assert(property_map(q) =~= property_map(p).insert(key@, value));
}

/// Recording the enumerated properties of a guest object one by one, in
/// whatever order the runtime gives them, builds a list with each key once
/// that binds every key to the value last recorded for it.
pub proof fn lemma_read_properties<V>(entries: Seq<(String, V)>)
    ensures
        keys_unique(read_properties(entries)),
        property_map(read_properties(entries)) == property_map(entries),
    decreases entries.len(),
{
    if entries.len() > 0 {
        lemma_read_properties(entries.drop_last());
        lemma_with_property(read_properties(entries.drop_last()), entries.last().0, entries.last().1);
    }
}

/// Position of the property named `key`, if any.
fn find_key<V>(props: &Vec<(String, V)>, key: &String) -> (r: Option<usize>)
    requires
        keys_unique(props@),
    ensures
        match r {
            Some(i) => i < props@.len() && props@[i as int].0@ == key@,
            None => forall|j: int| 0 <= j < props@.len() ==> props@[j].0@ != key@,
        },
{
    let mut i: usize = 0;
    while i < props.len()
        invariant
            i <= props@.len(),
            forall|j: int| 0 <= j < i ==> props@[j].0@ != key@,
        decreases props@.len() - i,
    {
        if props[i].0 == *key {
            return Some(i);
        }
        i = i + 1;
    }
    None
}

proof fn lemma_properties_well_formed<G, R>(s: Seq<(String, JsValue<G, R>)>)
    ensures
        properties_well_formed(s) <==> forall|i: int| 0 <= i < s.len() ==> #[trigger] well_formed(s[i].1),
    decreases s.len(),
{
    if s.len() > 0 {
        let rest = s.subrange(1, s.len() as int);
        lemma_properties_well_formed(rest);
        if properties_well_formed(s) {
            assert forall|i: int| 0 <= i < s.len() implies #[trigger] well_formed(s[i].1) by {
                if i > 0 {
                    assert(s[i] == rest[i - 1]);
                }
            };
        }
        if forall|i: int| 0 <= i < s.len() ==> #[trigger] well_formed(s[i].1) {
            assert forall|i: int| 0 <= i < rest.len() implies #[trigger] well_formed(rest[i].1) by {
                assert(rest[i] == s[i + 1]);
                assert(well_formed(s[i + 1].1));
            };
            assert(properties_well_formed(rest));
            assert(well_formed(s[0].1));
            assert(properties_well_formed(s));
        }
    }
}

/// Records one enumerated property of a guest object, given its converted
/// name and value: the name must be a string, and a name seen before has its
/// value replaced.
pub fn insert_property<G, R>(
    props: &mut Vec<(String, JsValue<G, R>)>,
    key: JsValue<G, R>,
    value: JsValue<G, R>,
) -> (r: Result<(), ValueError>)
    requires
        keys_unique(old(props)@),
    ensures
        keys_unique(final(props)@),
        properties_well_formed(old(props)@) && well_formed(value) ==> properties_well_formed(final(props)@),
        match key {
            JsValue::String(k) => r is Ok && final(props)@ == with_property(old(props)@, k, value),
            _ => r is Err && r->Err_0 is Internal && final(props)@ == old(props)@,
        },
{
    proof {
        lemma_properties_well_formed(props@);
    }
    let ghost v = value;
    match key {
        JsValue::String(k) => {
            match find_key(props, &k) {
                Some(i) => {
                    let ghost old_props = props@;
                    let name = props[i].0.clone();
                    props.set(i, (name, value));
                    proof {
                        let j = choose|j: int| 0 <= j < old_props.len() && old_props[j].0@ == k@;
                        assert(j == i as int);
                    }
                },
                None => {
                    props.push((k, value));
                },
            }
            proof {
                lemma_properties_well_formed(props@);
                if properties_well_formed(old(props)@) && well_formed(v) {
                    assert forall|i: int| 0 <= i < props@.len() implies #[trigger] well_formed(props@[i].1) by {
                        if i < old(props)@.len() && props@[i].1 != v {
                            assert(props@[i] == old(props)@[i]);
                        }
                    };
                }
            }
            Ok(())
        },
        _ => Err(ValueError::Internal(String::from_str("Could not get property name"))),
    }
}

} // verus!
