//! Schemas: the declared shape of a mapping value, and the check of a value
//! against it.

use crate::error::{ErrorView, WindError};
use crate::text::{clone_text_opt, join, text_opt};
use crate::value::{kind_name, kind_text, ValueView, WindValue};
use vstd::hash_map::StringHashMap;
use vstd::prelude::*;
use vstd::string::StringExecFns;

verus! {

/// The declared type of a field.
#[derive(Debug)]
pub enum WindType {
    Bool,
    I32,
    I64,
    F32,
    F64,
    String,
    Bytes,
    Array(Box<WindType>),
    Mapping(Box<WindType>),
    /// A struct type, by name.
    Struct(String),
}

/// The model of a [`WindType`].
pub enum TypeView {
    Bool,
    I32,
    I64,
    F32,
    F64,
    String,
    Bytes,
    Array(Box<TypeView>),
    Mapping(Box<TypeView>),
    Struct(Seq<char>),
}

/// The model of a declared type.
pub open spec fn type_view(t: WindType) -> TypeView
    decreases t,
{
    match t {
        WindType::Bool => TypeView::Bool,
        WindType::I32 => TypeView::I32,
        WindType::I64 => TypeView::I64,
        WindType::F32 => TypeView::F32,
        WindType::F64 => TypeView::F64,
        WindType::String => TypeView::String,
        WindType::Bytes => TypeView::Bytes,
        WindType::Array(inner) => TypeView::Array(Box::new(type_view(*inner))),
        WindType::Mapping(inner) => TypeView::Mapping(Box::new(type_view(*inner))),
        WindType::Struct(name) => TypeView::Struct(name@),
    }
}

impl View for WindType {
    type V = TypeView;

    open spec fn view(&self) -> TypeView {
        type_view(*self)
    }
}

/// How a declared type is written in an error message.
pub open spec fn type_text(t: TypeView) -> Seq<char>
    decreases t,
{
    match t {
        TypeView::Bool => "Bool"@,
        TypeView::I32 => "I32"@,
        TypeView::I64 => "I64"@,
        TypeView::F32 => "F32"@,
        TypeView::F64 => "F64"@,
        TypeView::String => "String"@,
        TypeView::Bytes => "Bytes"@,
        TypeView::Array(inner) => "Array("@ + type_text(*inner) + ")"@,
        TypeView::Mapping(inner) => "Map("@ + type_text(*inner) + ")"@,
        TypeView::Struct(name) => "Struct("@ + name + ")"@,
    }
}

/// The first way in which a value fails to have a declared type, if any.
///
/// Scalars must be of the declared kind. Every element of an array must have
/// the declared element type; the first that does not gives the error. A
/// mapping has any declared mapping type. Nothing has a struct type.
pub open spec fn type_mismatch(v: ValueView, t: TypeView) -> Option<ErrorView>
    decreases v, 0nat,
{
    match (v, t) {
        (ValueView::Bool(_), TypeView::Bool) => None,
        (ValueView::I32(_), TypeView::I32) => None,
        (ValueView::I64(_), TypeView::I64) => None,
        (ValueView::F32(_), TypeView::F32) => None,
        (ValueView::F64(_), TypeView::F64) => None,
        (ValueView::String(_), TypeView::String) => None,
        (ValueView::Bytes(_), TypeView::Bytes) => None,
        (ValueView::Array(items), TypeView::Array(inner)) => first_mismatch(items, *inner, 0),
        (ValueView::Mapping(_), TypeView::Mapping(_)) => None,
        _ => Some(ErrorView::TypeMismatch { expected: type_text(t), actual: kind_text(v) }),
    }
}

/// The mismatch of the first element at or after `from` that has not type
/// `inner`.
pub open spec fn first_mismatch(items: Seq<ValueView>, inner: TypeView, from: int) -> Option<
    ErrorView,
>
    decreases items, items.len() - from,
{
    if from < 0 || from >= items.len() {
        None
    } else {
        match type_mismatch(items[from], inner) {
            Some(e) => Some(e),
            None => first_mismatch(items, inner, from + 1),
        }
    }
}

/// Writes a declared type as error messages show it.
pub fn write_type(t: &WindType) -> (r: String)
    ensures
        r@ == type_text(t@),
    decreases t,
{
    match t {
        WindType::Bool => String::from_str("Bool"),
        WindType::I32 => String::from_str("I32"),
        WindType::I64 => String::from_str("I64"),
        WindType::F32 => String::from_str("F32"),
        WindType::F64 => String::from_str("F64"),
        WindType::String => String::from_str("String"),
        WindType::Bytes => String::from_str("Bytes"),
        WindType::Array(inner) => {
            let body = write_type(inner);
            let head = join("Array(", body.as_str());
            join(head.as_str(), ")")
        },
        WindType::Mapping(inner) => {
            let body = write_type(inner);
            let head = join("Map(", body.as_str());
            join(head.as_str(), ")")
        },
        WindType::Struct(name) => {
            let head = join("Struct(", name.as_str());
            join(head.as_str(), ")")
        },
    }
}

/// Checks a value against a declared type.
#[verifier::loop_isolation(false)]
pub fn validate_type(value: &WindValue, expected: &WindType) -> (r: Result<(), WindError>)
    ensures
        match type_mismatch(value@, expected@) {
            None => r is Ok,
            Some(e) => r is Err && r->Err_0@ == e,
        },
    decreases value,
{
    match (value, expected) {
        (WindValue::Bool(_), WindType::Bool) => Ok(()),
        (WindValue::I32(_), WindType::I32) => Ok(()),
        (WindValue::I64(_), WindType::I64) => Ok(()),
        (WindValue::F32(_), WindType::F32) => Ok(()),
        (WindValue::F64(_), WindType::F64) => Ok(()),
        (WindValue::String(_), WindType::String) => Ok(()),
        (WindValue::Bytes(_), WindType::Bytes) => Ok(()),
        (WindValue::Array(items), WindType::Array(inner)) => {
            let ghost views = crate::value::items_view(items@);
            let mut i: usize = 0;
            while i < items.len()
                invariant
                    i <= items.len(),
                    views == crate::value::items_view(items@),
                    first_mismatch(views, inner@, 0) == first_mismatch(views, inner@, i as int),
                decreases items.len() - i,
            {
                assert(views[i as int] == items@[i as int]@);
                match validate_type(&items[i], inner) {
                    Ok(()) => {},
                    Err(e) => {
                        return Err(e);
                    },
                }
                i = i + 1;
            }
            Ok(())
        },
        (WindValue::Mapping(_), WindType::Mapping(_)) => Ok(()),
        _ => Err(
            WindError::TypeMismatch { expected: write_type(expected), actual: kind_name(value) },
        ),
    }
}

/// A named, versioned list of required fields with their types.
#[derive(Debug)]
pub struct Schema {
    pub id: String,
    pub version: u32,
    pub name: String,
    pub description: Option<String>,
    /// The required fields, in the order in which they are checked.
    pub fields: Vec<(String, WindType)>,
}

/// The model of a [`Schema`].
pub struct SchemaView {
    pub id: Seq<char>,
    pub version: u32,
    pub name: Seq<char>,
    pub description: Option<Seq<char>>,
    pub fields: Seq<(Seq<char>, TypeView)>,
}

/// The models of a list of fields, in order.
pub open spec fn fields_view(fields: Seq<(String, WindType)>) -> Seq<(Seq<char>, TypeView)> {
    Seq::new(fields.len(), |i: int| (fields[i].0@, fields[i].1@))
}

impl View for Schema {
    type V = SchemaView;

    open spec fn view(&self) -> SchemaView {
        SchemaView {
            id: self.id@,
            version: self.version,
            name: self.name@,
            description: text_opt(self.description),
            fields: fields_view(self.fields@),
        }
    }
}

/// The error for the first field at or after `from` that the mapping lacks
/// or holds with another type, if any.
pub open spec fn field_violation(
    fields: Seq<(Seq<char>, TypeView)>,
    m: Map<Seq<char>, ValueView>,
    from: int,
) -> Option<ErrorView>
    decreases fields.len() - from,
{
    if from < 0 || from >= fields.len() {
        None
    } else if !m.contains_key(fields[from].0) {
        Some(ErrorView::Schema("Missing required field: "@ + fields[from].0))
    } else {
        match type_mismatch(m[fields[from].0], fields[from].1) {
            Some(e) => Some(e),
            None => field_violation(fields, m, from + 1),
        }
    }
}

/// The error that validation of `v` against `s` reports, if any: `v` must be
/// a mapping that holds every field of `s` with its declared type.
pub open spec fn schema_violation(s: SchemaView, v: ValueView) -> Option<ErrorView> {
    match v {
        ValueView::Mapping(m) => field_violation(s.fields, m, 0),
        _ => Some(ErrorView::Schema("Schema validation requires a Map value"@)),
    }
}

impl Schema {
    /// Checks that `value` is a mapping with every required field, each of
    /// its declared type. Fields are checked in order and the first failure
    /// is reported.
    pub fn validate(&self, value: &WindValue) -> (r: Result<(), WindError>)
        ensures
            match schema_violation(self@, value@) {
                None => r is Ok,
                Some(e) => r is Err && r->Err_0@ == e,
            },
    {
        match value {
            WindValue::Mapping(_) => {
                let ghost m = value@->Mapping_0;
                let ghost fields = fields_view(self.fields@);
                let mut i: usize = 0;
                while i < self.fields.len()
                    invariant
                        i <= self.fields.len(),
                        fields == fields_view(self.fields@),
                        value@ == ValueView::Mapping(m),
                        field_violation(fields, m, 0) == field_violation(fields, m, i as int),
                    decreases self.fields.len() - i,
                {
                    match value.get(&self.fields[i].0) {
                        Some(field_value) => {
                            match validate_type(field_value, &self.fields[i].1) {
                                Ok(()) => {},
                                Err(e) => {
                                    return Err(e);
                                },
                            }
                        },
                        None => {
                            return Err(
                                WindError::Schema(
                                    join("Missing required field: ", self.fields[i].0.as_str()),
                                ),
                            );
                        },
                    }
                    i = i + 1;
                }
                Ok(())
            },
            _ => Err(WindError::Schema(String::from_str("Schema validation requires a Map value"))),
        }
    }
}

/// The schemas known by id.
pub struct SchemaRegistry {
    schemas: StringHashMap<Schema>,
}

impl View for SchemaRegistry {
    type V = Map<Seq<char>, SchemaView>;

    closed spec fn view(&self) -> Map<Seq<char>, SchemaView> {
        self.schemas@.map_values(|s: Schema| s@)
    }
}

/// The error that validation against an unknown or known schema reports, if
/// any.
pub open spec fn registry_violation(
    schemas: Map<Seq<char>, SchemaView>,
    schema_id: Seq<char>,
    v: ValueView,
) -> Option<ErrorView> {
    if schemas.contains_key(schema_id) {
        schema_violation(schemas[schema_id], v)
    } else {
        Some(ErrorView::Schema("Schema not found: "@ + schema_id))
    }
}

impl SchemaRegistry {
    /// A registry without schemas.
    pub fn new() -> (r: SchemaRegistry)
        ensures
            r@ == Map::<Seq<char>, SchemaView>::empty(),
    {
        let r = SchemaRegistry { schemas: StringHashMap::new() };
        assert(r@ =~= Map::<Seq<char>, SchemaView>::empty());
        r
    }

    /// Stores a schema under its id, in place of any schema that had it.
    pub fn register(&mut self, schema: Schema)
        ensures
            final(self)@ == old(self)@.insert(schema.id@, schema@),
    {
        let id = schema.id.clone();
        self.schemas.insert(id, schema);
        assert(self@ =~= old(self)@.insert(schema.id@, schema@));
    }

    /// The schema stored under `id`, if any.
    pub fn get(&self, id: &str) -> (r: Option<&Schema>)
        ensures
            match r {
                Some(s) => self@.contains_key(id@) && s@ == self@[id@],
                None => !self@.contains_key(id@),
            },
    {
        self.schemas.get(id)
    }

    /// Checks a value against the schema stored under `schema_id`.
    pub fn validate(&self, schema_id: &str, value: &WindValue) -> (r: Result<(), WindError>)
        ensures
            match registry_violation(self@, schema_id@, value@) {
                None => r is Ok,
                Some(e) => r is Err && r->Err_0@ == e,
            },
    {
        match self.get(schema_id) {
            Some(schema) => schema.validate(value),
            None => Err(WindError::Schema(join("Schema not found: ", schema_id))),
        }
    }
}

/// A deep copy of a declared type.
pub fn clone_type(t: &WindType) -> (r: WindType)
    ensures
        r@ == t@,
    decreases t,
{
    match t {
        WindType::Bool => WindType::Bool,
        WindType::I32 => WindType::I32,
        WindType::I64 => WindType::I64,
        WindType::F32 => WindType::F32,
        WindType::F64 => WindType::F64,
        WindType::String => WindType::String,
        WindType::Bytes => WindType::Bytes,
        WindType::Array(inner) => WindType::Array(Box::new(clone_type(inner))),
        WindType::Mapping(inner) => WindType::Mapping(Box::new(clone_type(inner))),
        WindType::Struct(name) => WindType::Struct(name.clone()),
    }
}

impl Clone for WindType {
    fn clone(&self) -> (r: WindType)
        ensures
            r@ == self@,
    {
        clone_type(self)
    }
}

impl Clone for Schema {
    fn clone(&self) -> (r: Schema)
        ensures
            r@ == self@,
    {
        let mut fields: Vec<(String, WindType)> = Vec::with_capacity(self.fields.len());
        let mut i: usize = 0;
        while i < self.fields.len()
            invariant
                i <= self.fields.len(),
                fields@.len() == i,
                forall|j: int|
                    0 <= j < i ==> (#[trigger] fields@[j]).0@ == self.fields@[j].0@ && fields@[j].1@
                        == self.fields@[j].1@,
            decreases self.fields.len() - i,
        {
            fields.push((self.fields[i].0.clone(), clone_type(&self.fields[i].1)));
            i = i + 1;
        }
        assert(fields_view(fields@) =~= fields_view(self.fields@));
        Schema {
            id: self.id.clone(),
            version: self.version,
            name: self.name.clone(),
            description: clone_text_opt(&self.description),
            fields,
        }
    }
}

} // verus!
