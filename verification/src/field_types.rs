//! The shape of a field, and the schema of a collection: its fields by name.

use vstd::prelude::*;
use crate::errors::TypeTag;
use crate::text::same_text;

verus! {

broadcast use vstd::std_specs::vec::axiom_vec_index_decreases;

/// The shape of one field of a collection.
#[allow(inconsistent_fields)]
#[derive(Debug, PartialEq, Eq)]
pub enum FieldType {
    /// A reference to an entity of another collection, with that
    /// collection's name, its schema and the name of its primary-key field.
    Nested { model_name: String, schema: Box<Schema>, primary_key_field: String },
    /// A map from strings to values of one type.
    Dict { value: Box<FieldType> },
    /// A sequence of values of one type, in order.
    List { items: Box<FieldType> },
    /// A sequence of fixed length with a type for each position.
    Tuple { items: Vec<FieldType> },
    Str,
    Int,
    Float,
    Bool,
    /// An instant, stored as a formatted UTC date and time.
    Datetime,
    /// A day, stored as a formatted date.
    Date,
    /// The type of the one value that stands for nothing.
    Null,
}

/// The fields of one collection, each with its name and type.
#[derive(Debug, PartialEq, Eq)]
pub struct Schema {
    pub mapping: Vec<(String, FieldType)>,
}

/// The mathematical content of a `FieldType`.
#[allow(inconsistent_fields)]
pub ghost enum FieldTypeView {
    Nested { model_name: Seq<char>, schema: SchemaView, primary_key_field: Seq<char> },
    Dict { value: Box<FieldTypeView> },
    List { items: Box<FieldTypeView> },
    Tuple { items: Seq<FieldTypeView> },
    Str,
    Int,
    Float,
    Bool,
    Datetime,
    Date,
    Null,
}

/// The mathematical content of a `Schema`: names and types, in order.
pub type SchemaView = Seq<(Seq<char>, FieldTypeView)>;

/// The mathematical content of the field type `t`.
pub open spec fn field_type_view(t: FieldType) -> FieldTypeView
    decreases t,
{
    match t {
        FieldType::Nested { model_name, schema, primary_key_field } => FieldTypeView::Nested {
            model_name: model_name@,
            schema: schema_view(*schema),
            primary_key_field: primary_key_field@,
        },
        FieldType::Dict { value } => FieldTypeView::Dict { value: Box::new(field_type_view(*value)) },
        FieldType::List { items } => FieldTypeView::List { items: Box::new(field_type_view(*items)) },
        FieldType::Tuple { items } => FieldTypeView::Tuple {
            items: Seq::new(
                items.len() as nat,
                |i: int|
                    if 0 <= i < items.len() {
                        field_type_view(items[i])
                    } else {
                        FieldTypeView::Null
                    },
            ),
        },
        FieldType::Str => FieldTypeView::Str,
        FieldType::Int => FieldTypeView::Int,
        FieldType::Float => FieldTypeView::Float,
        FieldType::Bool => FieldTypeView::Bool,
        FieldType::Datetime => FieldTypeView::Datetime,
        FieldType::Date => FieldTypeView::Date,
        FieldType::Null => FieldTypeView::Null,
    }
}

/// The mathematical content of the schema `s`.
pub open spec fn schema_view(s: Schema) -> SchemaView
    decreases s,
{
    Seq::new(
        s.mapping.len() as nat,
        |i: int|
            if 0 <= i < s.mapping.len() {
                (s.mapping[i].0@, field_type_view(s.mapping[i].1))
            } else {
                (Seq::empty(), FieldTypeView::Null)
            },
    )
}

impl View for FieldType {
    type V = FieldTypeView;

    open spec fn view(&self) -> FieldTypeView {
        field_type_view(*self)
    }
}

impl View for Schema {
    type V = SchemaView;

    open spec fn view(&self) -> SchemaView {
        schema_view(*self)
    }
}

/// The kind of the field type `t`.
pub open spec fn tag_of(t: FieldTypeView) -> TypeTag {
    match t {
        FieldTypeView::Nested { .. } => TypeTag::Nested,
        FieldTypeView::Dict { .. } => TypeTag::Dict,
        FieldTypeView::List { .. } => TypeTag::List,
        FieldTypeView::Tuple { .. } => TypeTag::Tuple,
        FieldTypeView::Str => TypeTag::Str,
        FieldTypeView::Int => TypeTag::Int,
        FieldTypeView::Float => TypeTag::Float,
        FieldTypeView::Bool => TypeTag::Bool,
        FieldTypeView::Datetime => TypeTag::Datetime,
        FieldTypeView::Date => TypeTag::Date,
        FieldTypeView::Null => TypeTag::Null,
    }
}

/// The first position at or after `from` at which `names` holds `name`.
pub open spec fn first_index(names: Seq<Seq<char>>, name: Seq<char>, from: int) -> Option<int>
    decreases names.len() - from,
{
    if from < 0 || from >= names.len() {
        None
    } else if names[from] == name {
        Some(from)
    } else {
        first_index(names, name, from + 1)
    }
}

/// Whether no name occurs twice in `names`.
pub open spec fn distinct_names(names: Seq<Seq<char>>) -> bool {
    forall|i: int, j: int| 0 <= i < j < names.len() ==> names[i] != names[j]
}

/// Whether the field type `t` is well formed: every schema in it is.
pub open spec fn type_wf(t: FieldTypeView) -> bool
    decreases t,
{
    match t {
        FieldTypeView::Nested { schema, .. } => schema_wf(schema),
        FieldTypeView::Dict { value } => type_wf(*value),
        FieldTypeView::List { items } => type_wf(*items),
        FieldTypeView::Tuple { items } => forall|i: int|
            0 <= i < items.len() ==> type_wf(#[trigger] items[i]),
        _ => true,
    }
}

/// Whether `schema` is well formed: no name occurs twice, and the type of
/// each field is well formed.
pub open spec fn schema_wf(schema: SchemaView) -> bool
    decreases schema,
{
    &&& distinct_names(schema_names(schema))
    &&& forall|i: int| 0 <= i < schema.len() ==> type_wf((#[trigger] schema[i]).1)
}

/// The names of the fields of `schema`, in order.
pub open spec fn schema_names(schema: SchemaView) -> Seq<Seq<char>> {
    Seq::new(schema.len(), |i: int| schema[i].0)
}

/// The type that `schema` declares for the field `name`: that of the first
/// field of that name.
pub open spec fn type_of_field(schema: SchemaView, name: Seq<char>) -> Option<FieldTypeView> {
    match first_index(schema_names(schema), name, 0) {
        Some(i) => Some(schema[i].1),
        None => None,
    }
}

/// The names of the fields of `schema` that refer to another collection, in
/// the schema's order.
pub open spec fn nested_fields_of(schema: SchemaView) -> Seq<Seq<char>>
    decreases schema.len(),
{
    if schema.len() == 0 {
        Seq::empty()
    } else if schema.last().1 is Nested {
        nested_fields_of(schema.drop_last()).push(schema.last().0)
    } else {
        nested_fields_of(schema.drop_last())
    }
}

/// What `first_index` finds is a position of the name, and the first one.
pub proof fn lemma_first_index(names: Seq<Seq<char>>, name: Seq<char>, from: int)
    requires
        0 <= from,
    ensures
        match first_index(names, name, from) {
            Some(i) => from <= i < names.len() && names[i] == name && forall|j: int|
                from <= j < i ==> names[j] != name,
            None => forall|j: int| from <= j < names.len() ==> names[j] != name,
        },
    decreases names.len() - from,
{
    if from < names.len() && names[from] != name {
        lemma_first_index(names, name, from + 1);
    }
}

impl FieldType {
    /// The kind of this field type.
    pub fn tag(&self) -> (tag: TypeTag)
        ensures
            tag == tag_of(self@),
    {
        match self {
            FieldType::Nested { .. } => TypeTag::Nested,
            FieldType::Dict { .. } => TypeTag::Dict,
            FieldType::List { .. } => TypeTag::List,
            FieldType::Tuple { .. } => TypeTag::Tuple,
            FieldType::Str => TypeTag::Str,
            FieldType::Int => TypeTag::Int,
            FieldType::Float => TypeTag::Float,
            FieldType::Bool => TypeTag::Bool,
            FieldType::Datetime => TypeTag::Datetime,
            FieldType::Date => TypeTag::Date,
            FieldType::Null => TypeTag::Null,
        }
    }

    /// A copy of this field type.
    pub fn duplicate(&self) -> (copy: FieldType)
        ensures
            copy@ == self@,
        decreases self,
    {
        match self {
            FieldType::Nested { model_name, schema, primary_key_field } => {
                let copy = FieldType::Nested {
                    model_name: model_name.clone(),
                    schema: Box::new(schema.duplicate()),
                    primary_key_field: primary_key_field.clone(),
                };
                copy
            },
            FieldType::Dict { value } => FieldType::Dict { value: Box::new(value.duplicate()) },
            FieldType::List { items } => FieldType::List { items: Box::new(items.duplicate()) },
            FieldType::Tuple { items } => {
                let mut copies: Vec<FieldType> = Vec::new();
                let mut i: usize = 0;
                while i < items.len()
                    invariant
                        i <= items.len(),
                        copies.len() == i,
                        forall|j: int| 0 <= j < i ==> (#[trigger] copies[j])@ == items[j]@,
                        forall|j: int| 0 <= j < items.len() ==> decreases_to!(self => items[j]),
                    decreases items.len() - i,
                {
                    copies.push(items[i].duplicate());
                    i += 1;
                }
                let copy = FieldType::Tuple { items: copies };
                assert(copy@->Tuple_items == self@->Tuple_items);
                copy
            },
            FieldType::Str => FieldType::Str,
            FieldType::Int => FieldType::Int,
            FieldType::Float => FieldType::Float,
            FieldType::Bool => FieldType::Bool,
            FieldType::Datetime => FieldType::Datetime,
            FieldType::Date => FieldType::Date,
            FieldType::Null => FieldType::Null,
        }
    }
}

impl Schema {
    /// A schema without fields.
    pub fn empty() -> (schema: Schema)
        ensures
            schema@ == Seq::<(Seq<char>, FieldTypeView)>::empty(),
    {
        Schema { mapping: Vec::new() }
    }

    /// The type of the field `field_name`, if the schema declares it.
    pub fn get_type(&self, field_name: &str) -> (found: Option<&FieldType>)
        ensures
            match found {
                Some(t) => type_of_field(self@, field_name@) == Some(t@),
                None => type_of_field(self@, field_name@) is None,
            },
    {
        let mut i: usize = 0;
        while i < self.mapping.len()
            invariant
                i <= self.mapping.len(),
                first_index(schema_names(self@), field_name@, 0) == first_index(
                    schema_names(self@),
                    field_name@,
                    i as int,
                ),
            decreases self.mapping.len() - i,
        {
            if same_text(self.mapping[i].0.as_str(), field_name) {
                return Some(&self.mapping[i].1);
            }
            i += 1;
        }
        None
    }

    /// The names of the fields that refer to another collection.
    pub fn extract_nested_fields(&self) -> (names: Vec<String>)
        ensures
            names.deep_view() == nested_fields_of(self@),
    {
        let mut names: Vec<String> = Vec::new();
        let mut i: usize = 0;
        while i < self.mapping.len()
            invariant
                i <= self.mapping.len(),
                names.deep_view() == nested_fields_of(self@.take(i as int)),
            decreases self.mapping.len() - i,
        {
            proof {
                assert(self@.take(i + 1).drop_last() == self@.take(i as int));
            }
            let ghost before = names.deep_view();
            if let FieldType::Nested { .. } = &self.mapping[i].1 {
                names.push(self.mapping[i].0.clone());
                assert(names.deep_view() == before.push(self.mapping[i as int].0@));
            }
            i += 1;
        }
        assert(self@.take(self.mapping.len() as int) == self@);
        names
    }

    /// A copy of this schema.
    pub fn duplicate(&self) -> (copy: Schema)
        ensures
            copy@ == self@,
        decreases self,
    {
        let mut mapping: Vec<(String, FieldType)> = Vec::new();
        let mut i: usize = 0;
        while i < self.mapping.len()
            invariant
                i <= self.mapping.len(),
                mapping.len() == i,
                forall|j: int|
                    0 <= j < i ==> (#[trigger] mapping[j]).0@ == self.mapping[j].0@ && mapping[j].1@
                        == self.mapping[j].1@,
                forall|j: int|
                    0 <= j < self.mapping.len() ==> decreases_to!(self => self.mapping[j].1),
            decreases self.mapping.len() - i,
        {
            mapping.push((self.mapping[i].0.clone(), self.mapping[i].1.duplicate()));
            i += 1;
        }
        let copy = Schema { mapping };
        assert(copy@ == self@);
        copy
    }
}

} // verus!
