//! Building a schema from the description of a collection: each declared
//! field is classified into exactly one field type.

use vstd::prelude::*;
use vstd::string::*;
use crate::collections::{CollectionMeta, CollectionMetaView};
use crate::errors::{Error, ErrorView};
use crate::field_types::{
    distinct_names, first_index, lemma_first_index, nested_fields_of, schema_names, schema_wf,
    type_wf, FieldType, FieldTypeView, Schema, SchemaView,
};
use crate::text::{chars_of, same_text, string_of};

verus! {

broadcast use vstd::std_specs::vec::axiom_vec_index_decreases;

/// How a collection declares one field: the name of its type, a format that
/// narrows a string, the types of the items of an array, or a reference to
/// another collection.
#[derive(Debug, PartialEq, Eq)]
pub struct Property {
    /// `null`, `boolean`, `string`, `number`, `integer`, `object` or `array`.
    pub declared_type: Option<String>,
    /// For a string: `date-time` or `date`.
    pub format: Option<String>,
    /// For an array: the type of its items.
    pub items: Option<Items>,
    /// A path whose last segment names another collection.
    pub reference: Option<String>,
}

/// The types of the items of an array.
#[derive(Debug, PartialEq, Eq)]
pub enum Items {
    /// One type for all items: a list.
    One(Box<Property>),
    /// A type for each position: a tuple.
    Many(Vec<Property>),
}

/// The description of a collection: its fields by name.
#[derive(Debug, PartialEq, Eq)]
pub struct SchemaDescriptor {
    pub properties: Option<Vec<(String, Property)>>,
}

/// The collections that are registered, by name.
pub type RegistryView = Seq<(Seq<char>, CollectionMetaView)>;

/// The mathematical content of the registered collections `registry`.
pub open spec fn registry_view(registry: Seq<(String, CollectionMeta)>) -> RegistryView {
    Seq::new(registry.len(), |i: int| (registry[i].0@, registry[i].1@))
}

/// The names of the registered collections, in order.
pub open spec fn registry_names(registry: RegistryView) -> Seq<Seq<char>> {
    Seq::new(registry.len(), |i: int| registry[i].0)
}

/// What is kept of the collection `name`, if it is registered.
pub open spec fn meta_of(registry: RegistryView, name: Seq<char>) -> Option<CollectionMetaView> {
    match first_index(registry_names(registry), name, 0) {
        Some(i) => Some(registry[i].1),
        None => None,
    }
}

/// Whether the registered collections `registry` are well formed: no name
/// is registered twice, each schema is well formed, and the referring fields
/// that are kept of a collection are those of its schema.
pub open spec fn registry_wf(registry: RegistryView) -> bool {
    &&& distinct_names(registry_names(registry))
    &&& forall|i: int|
        0 <= i < registry.len() ==> schema_wf((#[trigger] registry[i]).1.schema)
            && registry[i].1.nested_fields == nested_fields_of(registry[i].1.schema)
}

/// What stands in `path` behind its last slash; all of it where it holds no
/// slash.
pub open spec fn last_segment(path: Seq<char>) -> Seq<char>
    decreases path.len(),
{
    if path.len() == 0 || path.last() == '/' {
        Seq::empty()
    } else {
        last_segment(path.drop_last()).push(path.last())
    }
}

/// The field type that the declaration `prop` stands for.
///
/// A declaration with a type name is classified by it: `null`, `boolean`,
/// `number` and `integer` by themselves, `string` by its format, `object` as
/// a dictionary of texts, `array` as a tuple where it gives a type for each
/// position, as a list of its item type where it gives one, and as a list of
/// texts where it gives none; any other name is a text. A declaration
/// without a type name that refers to another collection is a reference to
/// that collection, which must be registered. Any other declaration is a
/// text.
pub open spec fn classify(prop: Property, registry: RegistryView) -> Result<
    FieldTypeView,
    ErrorView,
>
    decreases prop, 0nat,
{
    match prop.declared_type {
        Some(name) => {
            if name@ == "null"@ {
                Ok(FieldTypeView::Null)
            } else if name@ == "boolean"@ {
                Ok(FieldTypeView::Bool)
            } else if name@ == "string"@ {
                match prop.format {
                    Some(format) => if format@ == "date-time"@ {
                        Ok(FieldTypeView::Datetime)
                    } else if format@ == "date"@ {
                        Ok(FieldTypeView::Date)
                    } else {
                        Ok(FieldTypeView::Str)
                    },
                    None => Ok(FieldTypeView::Str),
                }
            } else if name@ == "number"@ {
                Ok(FieldTypeView::Float)
            } else if name@ == "integer"@ {
                Ok(FieldTypeView::Int)
            } else if name@ == "object"@ {
                Ok(FieldTypeView::Dict { value: Box::new(FieldTypeView::Str) })
            } else if name@ == "array"@ {
                match prop.items {
                    Some(Items::Many(list)) => match classify_all(list, registry, list.len() as nat) {
                        Ok(items) => Ok(FieldTypeView::Tuple { items }),
                        Err(e) => Err(e),
                    },
                    Some(Items::One(item)) => match classify(*item, registry) {
                        Ok(items) => Ok(FieldTypeView::List { items: Box::new(items) }),
                        Err(e) => Err(e),
                    },
                    None => Ok(FieldTypeView::List { items: Box::new(FieldTypeView::Str) }),
                }
            } else {
                Ok(FieldTypeView::Str)
            }
        },
        None => match prop.reference {
            Some(path) => {
                let model_name = last_segment(path@);
                match meta_of(registry, model_name) {
                    Some(meta) => Ok(
                        FieldTypeView::Nested {
                            model_name,
                            schema: meta.schema,
                            primary_key_field: meta.primary_key_field,
                        },
                    ),
                    None => Err(ErrorView::MissingCollection { name: model_name }),
                }
            },
            None => Ok(FieldTypeView::Str),
        },
    }
}

/// The field types that the first `n` declarations of `list` stand for, or
/// the error of the first that stands for none.
pub open spec fn classify_all(list: Vec<Property>, registry: RegistryView, n: nat) -> Result<
    Seq<FieldTypeView>,
    ErrorView,
>
    decreases list, n + 1,
{
    if n == 0 || n > list.len() {
        Ok(Seq::empty())
    } else {
        match classify_all(list, registry, (n - 1) as nat) {
            Err(e) => Err(e),
            Ok(types) => match classify(list[n - 1], registry) {
                Err(e) => Err(e),
                Ok(t) => Ok(types.push(t)),
            },
        }
    }
}

/// `schema` with the type `t` under `name`: in the place of the field of
/// that name if there is one, at the end if there is none.
pub open spec fn with_type(schema: SchemaView, name: Seq<char>, t: FieldTypeView) -> SchemaView {
    match first_index(schema_names(schema), name, 0) {
        Some(i) => schema.update(i, (name, t)),
        None => schema.push((name, t)),
    }
}

/// The schema that the first `n` of the declared fields `props` give, or the
/// error of the first field that cannot be classified. A name that is
/// declared again replaces the type of its first declaration.
pub open spec fn classify_fields(props: Seq<(String, Property)>, registry: RegistryView, n: nat)
    -> Result<SchemaView, ErrorView>
    decreases n,
{
    if n == 0 || n > props.len() {
        Ok(Seq::empty())
    } else {
        match classify_fields(props, registry, (n - 1) as nat) {
            Err(e) => Err(e),
            Ok(schema) => match classify(props[n - 1].1, registry) {
                Err(e) => Err(e),
                Ok(t) => Ok(with_type(schema, props[n - 1].0@, t)),
            },
        }
    }
}

/// The schema that the description `descriptor` gives. A description that
/// declares no fields at all is invalid.
pub open spec fn schema_of(descriptor: SchemaDescriptor, registry: RegistryView) -> Result<
    SchemaView,
    ErrorView,
> {
    match descriptor.properties {
        Some(props) => classify_fields(props@, registry, props.len() as nat),
        None => Err(ErrorView::InvalidSchema),
    }
}

/// Once a declaration fails to be classified, classifying more fails in the
/// same way.
pub proof fn lemma_classify_all_fails(list: Vec<Property>, registry: RegistryView, k: nat)
    requires
        k <= list.len(),
        classify_all(list, registry, k) is Err,
    ensures
        classify_all(list, registry, list.len() as nat) == classify_all(list, registry, k),
    decreases list.len() - k,
{
    if k < list.len() {
        assert(classify_all(list, registry, k + 1) == classify_all(list, registry, k));
        lemma_classify_all_fails(list, registry, k + 1);
    }
}

/// Once a field fails to be classified, classifying more fields fails in the
/// same way.
pub proof fn lemma_classify_fields_fails(
    props: Seq<(String, Property)>,
    registry: RegistryView,
    k: nat,
)
    requires
        k <= props.len(),
        classify_fields(props, registry, k) is Err,
    ensures
        classify_fields(props, registry, props.len()) == classify_fields(props, registry, k),
    decreases props.len() - k,
{
    if k < props.len() {
        assert(classify_fields(props, registry, k + 1) == classify_fields(props, registry, k));
        lemma_classify_fields_fails(props, registry, k + 1);
    }
}

/// Putting a well-formed type under a name keeps a schema well formed.
pub proof fn lemma_with_type_wf(schema: SchemaView, name: Seq<char>, t: FieldTypeView)
    requires
        schema_wf(schema),
        type_wf(t),
    ensures
        schema_wf(with_type(schema, name, t)),
{
    let names = schema_names(schema);
    lemma_first_index(names, name, 0);
    let after = with_type(schema, name, t);
    match first_index(names, name, 0) {
        Some(i) => {
            assert(schema_names(after) == names);
            assert forall|j: int| 0 <= j < after.len() implies type_wf((#[trigger] after[j]).1) by {
                if j != i {
                    assert(after[j] == schema[j]);
                }
            }
        },
        None => {
            assert(schema_names(after) == names.push(name));
            assert forall|j: int| 0 <= j < after.len() implies type_wf((#[trigger] after[j]).1) by {
                if j < schema.len() {
                    assert(after[j] == schema[j]);
                }
            }
        },
    }
}

/// The type that a declaration stands for is well formed.
pub proof fn lemma_classify_wf(prop: Property, registry: RegistryView)
    requires
        registry_wf(registry),
    ensures
        classify(prop, registry) matches Ok(t) ==> type_wf(t),
    decreases prop, 0nat,
{
    reveal_with_fuel(type_wf, 3);
    match prop.declared_type {
        Some(name) => {
            if name@ == "array"@ {
                match prop.items {
                    Some(Items::Many(list)) => {
                        lemma_classify_all_wf(list, registry, list.len() as nat);
                    },
                    Some(Items::One(item)) => {
                        lemma_classify_wf(*item, registry);
                    },
                    None => {},
                }
            }
        },
        None => match prop.reference {
            Some(path) => {
                lemma_first_index(registry_names(registry), last_segment(path@), 0);
            },
            None => {},
        },
    }
}

/// The types that declarations stand for are well formed.
pub proof fn lemma_classify_all_wf(list: Vec<Property>, registry: RegistryView, n: nat)
    requires
        registry_wf(registry),
    ensures
        classify_all(list, registry, n) matches Ok(types) ==> forall|i: int|
            0 <= i < types.len() ==> type_wf(#[trigger] types[i]),
    decreases list, n + 1,
{
    if !(n == 0 || n > list.len()) {
        lemma_classify_all_wf(list, registry, (n - 1) as nat);
        lemma_classify_wf(list[n - 1], registry);
    }
}

/// A schema that was built from declared fields is well formed.
pub proof fn lemma_classify_fields_wf(
    props: Seq<(String, Property)>,
    registry: RegistryView,
    n: nat,
)
    requires
        registry_wf(registry),
    ensures
        classify_fields(props, registry, n) matches Ok(schema) ==> schema_wf(schema),
    decreases n,
{
    if n == 0 || n > props.len() {
        assert(schema_names(Seq::empty()) == Seq::<Seq<char>>::empty());
    } else {
        lemma_classify_fields_wf(props, registry, (n - 1) as nat);
        lemma_classify_wf(props[n - 1].1, registry);
        match classify_fields(props, registry, (n - 1) as nat) {
            Ok(schema) => match classify(props[n - 1].1, registry) {
                Ok(t) => {
                    lemma_with_type_wf(schema, props[n - 1].0@, t);
                },
                Err(_) => {},
            },
            Err(_) => {},
        }
    }
}

/// What stands in `path` behind its last slash.
pub fn extract_nested_model_name(path: &str) -> (name: String)
    ensures
        name@ == last_segment(path@),
{
    let chars = chars_of(path);
    let mut start: usize = chars.len();
    proof {
        assert(chars@.take(start as int) == chars@);
        assert(chars@.skip(start as int) == Seq::<char>::empty());
        assert(last_segment(chars@) + Seq::<char>::empty() == last_segment(chars@));
    }
    while start > 0 && chars[start - 1] != '/'
        invariant
            start <= chars.len(),
            last_segment(chars@) == last_segment(chars@.take(start as int)) + chars@.skip(
                start as int,
            ),
        decreases start,
    {
        proof {
            let head = chars@.take(start as int);
            assert(head.drop_last() == chars@.take(start - 1));
            assert(last_segment(chars@.take(start - 1)).push(head.last()) + chars@.skip(
                start as int,
            ) == last_segment(chars@.take(start - 1)) + chars@.skip(start - 1));
        }
        start -= 1;
    }
    proof {
        assert(last_segment(chars@.take(start as int)) == Seq::<char>::empty());
        assert(chars@.skip(start as int) == chars@.subrange(start as int, chars.len() as int));
        assert(chars@.take(chars.len() as int) == chars@);
    }
    string_of(&chars, start, chars.len())
}

/// The position in `registry` of the collection `name`.
pub fn find_collection(registry: &Vec<(String, CollectionMeta)>, name: &str) -> (found: Option<
    usize,
>)
    ensures
        match found {
            Some(i) => first_index(registry_names(registry_view(registry@)), name@, 0) == Some(
                i as int,
            ) && i < registry.len(),
            None => first_index(registry_names(registry_view(registry@)), name@, 0) is None,
        },
{
    let mut i: usize = 0;
    while i < registry.len()
        invariant
            i <= registry.len(),
            first_index(registry_names(registry_view(registry@)), name@, 0) == first_index(
                registry_names(registry_view(registry@)),
                name@,
                i as int,
            ),
        decreases registry.len() - i,
    {
        if same_text(registry[i].0.as_str(), name) {
            return Some(i);
        }
        i += 1;
    }
    None
}

/// Puts the type `t` under `name` into `mapping`, in the place of the field
/// of that name if there is one.
fn put_type(mapping: &mut Vec<(String, FieldType)>, name: String, t: FieldType)
    ensures
        (Schema { mapping: *final(mapping) })@ == with_type(
            (Schema { mapping: *old(mapping) })@,
            name@,
            t@,
        ),
{
    let ghost before = (Schema { mapping: *mapping })@;
    let mut i: usize = 0;
    while i < mapping.len()
        invariant
            i <= mapping.len(),
            *mapping == *old(mapping),
            before == (Schema { mapping: *mapping })@,
            first_index(schema_names(before), name@, 0) == first_index(
                schema_names(before),
                name@,
                i as int,
            ),
        decreases mapping.len() - i,
    {
        if same_text(mapping[i].0.as_str(), name.as_str()) {
            mapping.set(i, (name, t));
            assert((Schema { mapping: *mapping })@ == before.update(i as int, (name@, t@)));
            return ;
        }
        i += 1;
    }
    mapping.push((name, t));
    assert((Schema { mapping: *mapping })@ == before.push((name@, t@)));
}

/// The mathematical content of the outcome of classifying one declaration.
pub open spec fn type_result(r: Result<FieldType, Error>) -> Result<FieldTypeView, ErrorView> {
    match r {
        Ok(t) => Ok(t@),
        Err(e) => Err(e@),
    }
}

/// The mathematical content of the outcome of building a schema.
pub open spec fn schema_result(r: Result<Schema, Error>) -> Result<SchemaView, ErrorView> {
    match r {
        Ok(s) => Ok(s@),
        Err(e) => Err(e@),
    }
}

impl FieldType {
    /// Extracts the field type that the declaration `prop` stands for. A
    /// reference to another collection is resolved in `registry`, where that
    /// collection must be registered already.
    #[verifier::loop_isolation(false)]
    #[verifier::rlimit(50)]
    pub fn from_property(prop: &Property, registry: &Vec<(String, CollectionMeta)>) -> (r:
        Result<FieldType, Error>)
        ensures
            type_result(r) == classify(*prop, registry_view(registry@)),
        decreases prop,
    {
        let ghost known = registry_view(registry@);
        match &prop.declared_type {
            Some(data_type) => {
                let data_type = data_type.as_str();
                if same_text(data_type, "null") {
                    Ok(FieldType::Null)
                } else if same_text(data_type, "boolean") {
                    Ok(FieldType::Bool)
                } else if same_text(data_type, "string") {
                    match &prop.format {
                        None => Ok(FieldType::Str),
                        Some(format) => {
                            if same_text(format.as_str(), "date-time") {
                                Ok(FieldType::Datetime)
                            } else if same_text(format.as_str(), "date") {
                                Ok(FieldType::Date)
                            } else {
                                Ok(FieldType::Str)
                            }
                        },
                    }
                } else if same_text(data_type, "number") {
                    Ok(FieldType::Float)
                } else if same_text(data_type, "integer") {
                    Ok(FieldType::Int)
                } else if same_text(data_type, "object") {
                    Ok(FieldType::Dict { value: Box::new(FieldType::Str) })
                } else if same_text(data_type, "array") {
                    match &prop.items {
                        Some(Items::Many(type_list)) => {
                            let mut items: Vec<FieldType> = Vec::new();
                            let ghost mut types: Seq<FieldTypeView> = Seq::empty();
                            let mut i: usize = 0;
                            while i < type_list.len()
                                invariant
                                    i <= type_list.len(),
                                    items.len() == i,
                                    types.len() == i,
                                    forall|j: int| 0 <= j < i ==> (#[trigger] items[j])@ == types[j],
                                    classify_all(*type_list, known, i as nat) == Ok::<
                                        Seq<FieldTypeView>,
                                        ErrorView,
                                    >(types),
                                decreases type_list.len() - i,
                            {
                                match FieldType::from_property(&type_list[i], registry) {
                                    Ok(t) => {
                                        proof {
                                            types = types.push(t@);
                                        }
                                        items.push(t);
                                    },
                                    Err(e) => {
                                        proof {
                                            assert(classify_all(*type_list, known, (i + 1) as nat)
                                                == Err::<Seq<FieldTypeView>, ErrorView>(e@));
                                            lemma_classify_all_fails(
                                                *type_list,
                                                known,
                                                (i + 1) as nat,
                                            );
                                        }
                                        return Err(e);
                                    },
                                }
                                i += 1;
                            }
                            let tuple = FieldType::Tuple { items };
                            assert(tuple@->Tuple_items == types);
                            Ok(tuple)
                        },
                        Some(Items::One(item)) => {
                            match FieldType::from_property(item, registry) {
                                Ok(t) => Ok(FieldType::List { items: Box::new(t) }),
                                Err(e) => Err(e),
                            }
                        },
                        None => Ok(FieldType::List { items: Box::new(FieldType::Str) }),
                    }
                } else {
                    Ok(FieldType::Str)
                }
            },
            None => match &prop.reference {
                Some(schema_ref) => {
                    let model_name = extract_nested_model_name(schema_ref.as_str());
                    match find_collection(registry, model_name.as_str()) {
                        Some(i) => {
                            assert(known[i as int].1 == registry[i as int].1@);
                            let meta = &registry[i].1;
                            Ok(
                                FieldType::Nested {
                                    model_name,
                                    schema: Box::new(meta.schema.duplicate()),
                                    primary_key_field: meta.primary_key_field.clone(),
                                },
                            )
                        },
                        None => Err(Error::MissingCollection { name: model_name }),
                    }
                },
                None => Ok(FieldType::Str),
            },
        }
    }
}

impl Schema {
    /// Builds the schema of the declared fields `props`.
    pub fn from_properties(props: &Vec<(String, Property)>, registry: &Vec<(String, CollectionMeta)>)
        -> (r: Result<Schema, Error>)
        ensures
            schema_result(r) == classify_fields(
                props@,
                registry_view(registry@),
                props.len() as nat,
            ),
            registry_wf(registry_view(registry@)) ==> (r matches Ok(schema) ==> schema_wf(
                schema@,
            )),
    {
        let ghost known = registry_view(registry@);
        let mut mapping: Vec<(String, FieldType)> = Vec::new();
        assert((Schema { mapping })@ == SchemaView::empty());
        let mut i: usize = 0;
        while i < props.len()
            invariant
                i <= props.len(),
                known == registry_view(registry@),
                classify_fields(props@, known, i as nat) == Ok::<SchemaView, ErrorView>(
                    (Schema { mapping })@,
                ),
            decreases props.len() - i,
        {
            match FieldType::from_property(&props[i].1, registry) {
                Ok(t) => {
                    put_type(&mut mapping, props[i].0.clone(), t);
                },
                Err(e) => {
                    proof {
                        assert(classify_fields(props@, known, (i + 1) as nat) == Err::<
                            SchemaView,
                            ErrorView,
                        >(e@));
                        lemma_classify_fields_fails(props@, known, (i + 1) as nat);
                    }
                    return Err(e);
                },
            }
            i += 1;
        }
        proof {
            if registry_wf(known) {
                lemma_classify_fields_wf(props@, known, props.len() as nat);
            }
        }
        Ok(Schema { mapping })
    }

    /// Builds the schema that the description `descriptor` of a collection
    /// gives.
    pub fn from_descriptor(descriptor: &SchemaDescriptor, registry: &Vec<(String, CollectionMeta)>)
        -> (r: Result<Schema, Error>)
        ensures
            schema_result(r) == schema_of(*descriptor, registry_view(registry@)),
            registry_wf(registry_view(registry@)) ==> (r matches Ok(schema) ==> schema_wf(
                schema@,
            )),
    {
        match &descriptor.properties {
            Some(props) => Schema::from_properties(props, registry),
            None => Err(Error::InvalidSchema),
        }
    }
}

} // verus!
