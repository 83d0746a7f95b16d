//! Column data types and the ordered name-to-type schema.
//!
//! The lowering pass needs only a small slice of a full type system:
//! looking a column up in a schema, resolving the least common
//! supertype of two types, and taking the element type of a list.

use vstd::prelude::*;

verus! {

/// How much is known about a type that is not yet resolved.
///
/// A bare numeric literal starts out as `Unknown(Int)`: an integer of
/// undetermined width, pinned to a concrete type only when a
/// materializing context forces it.
#[derive(Clone, Copy, PartialEq, Eq, Structural, Debug)]
pub enum UnknownKind {
    /// An integer whose concrete width is not yet chosen.
    Int,
    /// Nothing is known.
    Any,
}

/// The closed set of column data types this crate reasons about.
#[derive(PartialEq, Eq, Debug)]
pub enum DataType {
    Null,
    Boolean,
    Int32,
    Int64,
    UInt32,
    Float32,
    Float64,
    Utf8,
    /// A list column; every element has the inner type.
    List(Box<DataType>),
    /// A type that is not resolved yet.
    Unknown(UnknownKind),
}

impl DataType {
    /// Structure-preserving copy, equal to `self` in every field.
    pub fn deep_clone(&self) -> (result: DataType)
        ensures
            result == *self,
        decreases *self,
    {
        match self {
            DataType::Null => DataType::Null,
            DataType::Boolean => DataType::Boolean,
            DataType::Int32 => DataType::Int32,
            DataType::Int64 => DataType::Int64,
            DataType::UInt32 => DataType::UInt32,
            DataType::Float32 => DataType::Float32,
            DataType::Float64 => DataType::Float64,
            DataType::Utf8 => DataType::Utf8,
            DataType::List(inner) => DataType::List(Box::new((**inner).deep_clone())),
            DataType::Unknown(k) => DataType::Unknown(*k),
        }
    }

    /// Structural equality test.
    pub fn eq_dtype(&self, other: &DataType) -> (result: bool)
        ensures
            result == (*self == *other),
        decreases *self,
    {
        match (self, other) {
            (DataType::Null, DataType::Null) => true,
            (DataType::Boolean, DataType::Boolean) => true,
            (DataType::Int32, DataType::Int32) => true,
            (DataType::Int64, DataType::Int64) => true,
            (DataType::UInt32, DataType::UInt32) => true,
            (DataType::Float32, DataType::Float32) => true,
            (DataType::Float64, DataType::Float64) => true,
            (DataType::Utf8, DataType::Utf8) => true,
            (DataType::List(a), DataType::List(b)) => (**a).eq_dtype(&**b),
            (DataType::Unknown(a), DataType::Unknown(b)) => a == b,
            _ => false,
        }
    }

    /// Whether this is one of the concrete integer types.
    pub open spec fn is_integer_spec(&self) -> bool {
        self matches DataType::Int32 || self matches DataType::Int64 || self
            matches DataType::UInt32
    }

    /// Whether this is one of the concrete floating-point types.
    pub open spec fn is_float_spec(&self) -> bool {
        self matches DataType::Float32 || self matches DataType::Float64
    }
}

/// The least common supertype of `a` and `b`, if the pair has one.
///
/// Equal types are their own supertype; an undetermined integer takes
/// the concrete numeric type it meets; integers widen to `Int64`;
/// floats dominate integers; booleans widen to the integer they meet.
pub open spec fn supertype_spec(a: DataType, b: DataType) -> Option<DataType>
    decreases a,
{
    if a == b {
        Some(a)
    } else {
        match (a, b) {
            (DataType::Unknown(UnknownKind::Int), t) => if t.is_integer_spec()
                || t.is_float_spec() {
                Some(t)
            } else {
                None
            },
            (t, DataType::Unknown(UnknownKind::Int)) => if t.is_integer_spec()
                || t.is_float_spec() {
                Some(t)
            } else {
                None
            },
            (DataType::Float64, t) => if t.is_integer_spec() || t.is_float_spec() {
                Some(DataType::Float64)
            } else {
                None
            },
            (t, DataType::Float64) => if t.is_integer_spec() || t.is_float_spec() {
                Some(DataType::Float64)
            } else {
                None
            },
            (DataType::Float32, t) => if t.is_integer_spec() {
                Some(DataType::Float64)
            } else {
                None
            },
            (t, DataType::Float32) => if t.is_integer_spec() {
                Some(DataType::Float64)
            } else {
                None
            },
            (DataType::Boolean, t) => if t.is_integer_spec() {
                Some(t)
            } else {
                None
            },
            (t, DataType::Boolean) => if t.is_integer_spec() {
                Some(t)
            } else {
                None
            },
            (t, u) => if t.is_integer_spec() && u.is_integer_spec() {
                Some(DataType::Int64)
            } else {
                None
            },
        }
    }
}

/// Executable form of [`supertype_spec`].
pub fn get_supertype(a: &DataType, b: &DataType) -> (result: Option<DataType>)
    ensures
        result == supertype_spec(*a, *b),
{
    if a.eq_dtype(b) {
        return Some(a.deep_clone());
    }
    let a_num = match a {
        DataType::Int32 | DataType::Int64 | DataType::UInt32 => true,
        _ => false,
    };
    let b_num = match b {
        DataType::Int32 | DataType::Int64 | DataType::UInt32 => true,
        _ => false,
    };
    let a_float = match a {
        DataType::Float32 | DataType::Float64 => true,
        _ => false,
    };
    let b_float = match b {
        DataType::Float32 | DataType::Float64 => true,
        _ => false,
    };
    match (a, b) {
        (DataType::Unknown(UnknownKind::Int), _) => if b_num || b_float {
            Some(b.deep_clone())
        } else {
            None
        },
        (_, DataType::Unknown(UnknownKind::Int)) => if a_num || a_float {
            Some(a.deep_clone())
        } else {
            None
        },
        (DataType::Float64, _) => if b_num || b_float {
            Some(DataType::Float64)
        } else {
            None
        },
        (_, DataType::Float64) => if a_num || a_float {
            Some(DataType::Float64)
        } else {
            None
        },
        (DataType::Float32, _) => if b_num {
            Some(DataType::Float64)
        } else {
            None
        },
        (_, DataType::Float32) => if a_num {
            Some(DataType::Float64)
        } else {
            None
        },
        (DataType::Boolean, _) => if b_num {
            Some(b.deep_clone())
        } else {
            None
        },
        (_, DataType::Boolean) => if a_num {
            Some(a.deep_clone())
        } else {
            None
        },
        (_, _) => if a_num && b_num {
            Some(DataType::Int64)
        } else {
            None
        },
    }
}

/// A schema viewed as the ordered sequence of (name, type) pairs.
pub type SchemaV = Seq<(Seq<char>, DataType)>;

/// First type bound to `name` in `fields`, scanning left to right.
pub open spec fn lookup_spec(fields: SchemaV, name: Seq<char>) -> Option<DataType>
    decreases fields.len(),
{
    if fields.len() == 0 {
        None
    } else if fields[0].0 == name {
        Some(fields[0].1)
    } else {
        lookup_spec(fields.drop_first(), name)
    }
}

/// Whether `fields` binds `name`.
pub open spec fn contains_name_spec(fields: SchemaV, name: Seq<char>) -> bool {
    lookup_spec(fields, name) is Some
}

/// An ordered mapping from column names to their types.
///
/// Field order is meaningful and preserved; names are unique.
#[derive(PartialEq, Eq, Debug)]
pub struct Schema {
    fields: Vec<(String, DataType)>,
}

impl View for Schema {
    type V = SchemaV;

    closed spec fn view(&self) -> SchemaV {
        self.fields@.map_values(|p: (String, DataType)| (p.0@, p.1))
    }
}

impl Schema {
    /// Unique names, the invariant every constructor keeps.
    pub open spec fn wf(&self) -> bool {
        forall|i: int, j: int|
            0 <= i < j < self@.len() ==> (#[trigger] self@[i]).0 != (#[trigger] self@[j]).0
    }

    /// Creates an empty schema.
    pub fn new() -> (result: Schema)
        ensures
            result@ == Seq::<(Seq<char>, DataType)>::empty(),
            result.wf(),
    {
        Schema { fields: Vec::new() }
    }

    /// Number of fields.
    pub fn len(&self) -> (result: usize)
        ensures
            result == self@.len(),
    {
        self.fields.len()
    }

    /// Appends a field; the name must not be bound yet.
    pub fn with_field(self, name: String, dtype: DataType) -> (result: Schema)
        requires
            !contains_name_spec(self@, name@),
        ensures
            result@ == self@.push((name@, dtype)),
            self.wf() ==> result.wf(),
    {
        let mut fields = self.fields;
        fields.push((name, dtype));
        let result = Schema { fields };
        proof {
            assert(result@ =~= self@.push((name@, dtype)));
            if self.wf() {
                lemma_lookup_some_when_present(self@, name@);
                assert forall|i: int, j: int|
                    0 <= i < j < result@.len() implies (#[trigger] result@[i]).0 != (
                #[trigger] result@[j]).0 by {
                    if j == result@.len() - 1 {
                        lemma_lookup_some_when_present(self@, result@[i].0);
                    }
                }
            }
        }
        result
    }

    /// The type bound to `name`, if the schema has such a field.
    pub fn get(&self, name: &String) -> (result: Option<&DataType>)
        ensures
            match result {
                Some(dt) => lookup_spec(self@, name@) == Some(*dt),
                None => lookup_spec(self@, name@) is None,
            },
    {
        proof {
            assert(self@.skip(0) =~= self@);
        }
        let mut i: usize = 0;
        while i < self.fields.len()
            invariant
                i <= self.fields@.len(),
                self@.len() == self.fields@.len(),
                forall|k: int|
                    0 <= k < self@.len() ==> #[trigger] self@[k] == (
                    self.fields@[k].0@,
                    self.fields@[k].1,
                ),
                lookup_spec(self@.skip(i as int), name@) == lookup_spec(self@, name@),
            decreases self.fields@.len() - i,
        {
            proof {
                assert(self@.skip(i as int)[0] == self@[i as int]);
                assert(self@.skip(i as int).drop_first() =~= self@.skip(i + 1));
            }
            if self.fields[i].0 == *name {
                return Some(&self.fields[i].1);
            }
            i = i + 1;
        }
        proof {
            assert(self@.skip(i as int) =~= Seq::<(Seq<char>, DataType)>::empty());
        }
        None
    }

    /// Whether the schema binds `name`.
    pub fn contains(&self, name: &String) -> (result: bool)
        ensures
            result == contains_name_spec(self@, name@),
    {
        match self.get(name) {
            Some(_) => true,
            None => false,
        }
    }

    /// The field at position `i`, as (name, type).
    pub fn field_at(&self, i: usize) -> (result: (&String, &DataType))
        requires
            i < self@.len(),
        ensures
            result.0@ == self@[i as int].0,
            *result.1 == self@[i as int].1,
    {
        (&self.fields[i].0, &self.fields[i].1)
    }

    /// Field-by-field copy whose view equals this schema's view.
    pub fn deep_clone(&self) -> (result: Schema)
        ensures
            result@ == self@,
            result.wf() == self.wf(),
    {
        let mut fields: Vec<(String, DataType)> = Vec::new();
        let mut i: usize = 0;
        while i < self.fields.len()
            invariant
                i <= self.fields@.len(),
                fields@.len() == i,
                self@.len() == self.fields@.len(),
                forall|k: int|
                    0 <= k < self@.len() ==> #[trigger] self@[k] == (
                    self.fields@[k].0@,
                    self.fields@[k].1,
                ),
                forall|k: int|
                    0 <= k < i ==> #[trigger] fields@[k] == self.fields@[k],
            decreases self.fields@.len() - i,
        {
            let name = self.fields[i].0.clone();
            let dtype = self.fields[i].1.deep_clone();
            fields.push((name, dtype));
            i = i + 1;
        }
        let result = Schema { fields };
        proof {
            assert(result@ =~= self@);
        }
        result
    }
}

/// If unique names hold and `lookup_spec` fails for `name`, no entry has it.
proof fn lemma_lookup_some_when_present(fields: SchemaV, name: Seq<char>)
    ensures
        (exists|i: int| 0 <= i < fields.len() && (#[trigger] fields[i]).0 == name)
            ==> contains_name_spec(fields, name),
    decreases fields.len(),
{
    if fields.len() > 0 {
        lemma_lookup_some_when_present(fields.drop_first(), name);
        if exists|i: int| 0 <= i < fields.len() && (#[trigger] fields[i]).0 == name {
            let i = choose|i: int| 0 <= i < fields.len() && (#[trigger] fields[i]).0 == name;
            if i > 0 {
                assert(fields.drop_first()[i - 1] == fields[i]);
            }
        }
    }
}

} // verus!
