//! How tools are described to the model.

use vstd::prelude::*;

verus! {

/// The part of JSON Schema in which the arguments of tools are described.
#[derive(Debug)]
pub enum JsonSchema {
    /// A string.
    Text { description: Option<String> },
    Array { items: Box<JsonSchema>, description: Option<String> },
    Object {
        /// The properties by name, in the order of [`has_ascending_names`].
        properties: Vec<(String, JsonSchema)>,
        required: Option<Vec<String>>,
        additional_properties: Option<bool>,
    },
}

/// What a schema says.
#[verifier::ext_equal]
pub enum SchemaView {
    Text { description: Option<Seq<char>> },
    Array { items: Box<SchemaView>, description: Option<Seq<char>> },
    Object {
        properties: Seq<(Seq<char>, SchemaView)>,
        required: Option<Seq<Seq<char>>>,
        additional_properties: Option<bool>,
    },
}

/// An optional text, by its characters.
pub open spec fn text_view(text: Option<String>) -> Option<Seq<char>> {
    match text {
        Some(text) => Some(text@),
        None => None,
    }
}

/// An optional list of names, by their characters.
pub open spec fn names_view(names: Option<Vec<String>>) -> Option<Seq<Seq<char>>> {
    match names {
        Some(names) => Some(Seq::new(names@.len(), |i: int| names@[i]@)),
        None => None,
    }
}

/// What a schema says.
pub open spec fn schema_view(schema: JsonSchema) -> SchemaView
    decreases schema,
{
    match schema {
        JsonSchema::Text { description } => SchemaView::Text {
            description: text_view(description),
        },
        JsonSchema::Array { items, description } => SchemaView::Array {
            items: Box::new(schema_view(*items)),
            description: text_view(description),
        },
        JsonSchema::Object { properties, required, additional_properties } => SchemaView::Object {
            properties: properties_view(properties@),
            required: names_view(required),
            additional_properties,
        },
    }
}

/// What the properties of an object say, in their order.
pub open spec fn properties_view(properties: Seq<(String, JsonSchema)>) -> Seq<
    (Seq<char>, SchemaView),
>
    decreases properties,
{
    if properties.len() == 0 {
        Seq::empty()
    } else {
        properties_view(properties.drop_last()).push(
            (properties.last().0@, schema_view(properties.last().1)),
        )
    }
}

/// `a` comes before `b` in the order of strings.
pub open spec fn comes_before(a: Seq<char>, b: Seq<char>) -> bool {
    exists|n: int|
        0 <= n <= a.len() && n < b.len() && #[trigger] a.take(n) == b.take(n) && (n == a.len()
            || a[n] < b[n])
}

/// The names of the properties of each object ascend, so that none occurs twice.
pub open spec fn has_ascending_names(schema: SchemaView) -> bool
    decreases schema,
{
    match schema {
        SchemaView::Text { .. } => true,
        SchemaView::Array { items, .. } => has_ascending_names(*items),
        SchemaView::Object { properties, .. } => {
            &&& forall|i: int, j: int|
                0 <= i < j < properties.len() ==> comes_before(
                    (#[trigger] properties[i]).0,
                    (#[trigger] properties[j]).0,
                )
            &&& forall|i: int|
                0 <= i < properties.len() ==> has_ascending_names((#[trigger] properties[i]).1)
        },
    }
}

pub(crate) proof fn lemma_two_properties(properties: Seq<(String, JsonSchema)>)
    requires
        properties.len() == 2,
    ensures
        properties_view(properties) == seq![
            (properties[0].0@, schema_view(properties[0].1)),
            (properties[1].0@, schema_view(properties[1].1)),
        ],
{
    let first = properties.drop_last();
    assert(properties_view(first.drop_last()) =~= Seq::empty());
    assert(properties_view(first) =~= seq![(first[0].0@, schema_view(first[0].1))]);
    assert(properties_view(properties) =~= properties_view(first).push(
        (properties[1].0@, schema_view(properties[1].1)),
    ));
}

/// A tool that is a function.
#[derive(Debug)]
pub struct ResponsesApiTool {
    pub name: String,
    pub description: String,
    /// Whether the model has to follow the schema to the letter.
    pub strict: bool,
    pub parameters: JsonSchema,
}

/// A tool.
#[derive(Debug)]
pub enum OpenAiTool {
    Function(ResponsesApiTool),
}

/// A JSON value, as far as schemas tell values apart.
pub enum JsonView {
    Text(Seq<char>),
    List(Seq<JsonView>),
    Object(Map<Seq<char>, JsonView>),
    Other,
}

/// The value follows the schema.
pub open spec fn follows(value: JsonView, schema: SchemaView) -> bool
    decreases schema,
{
    match schema {
        SchemaView::Text { .. } => value is Text,
        SchemaView::Array { items, .. } => match value {
            JsonView::List(values) => forall|i: int|
                0 <= i < values.len() ==> follows(#[trigger] values[i], *items),
            _ => false,
        },
        SchemaView::Object { properties, required, additional_properties } => match value {
            JsonView::Object(fields) => {
                &&& forall|i: int|
                    0 <= i < properties.len() && fields.contains_key(
                        (#[trigger] properties[i]).0,
                    ) ==> follows(fields[properties[i].0], properties[i].1)
                &&& required matches Some(names) ==> forall|i: int|
                    0 <= i < names.len() ==> fields.contains_key(#[trigger] names[i])
                &&& additional_properties == Some(false) ==> forall|key: Seq<char>| #[trigger]
                    fields.contains_key(key) ==> exists|i: int|
                        0 <= i < properties.len() && (#[trigger] properties[i]).0 == key
            },
            _ => false,
        },
    }
}

/// The view of a schema holds all that the schema says, at every depth.
pub proof fn view_holds_all_of_a_schema(schema: JsonSchema)
    ensures
        match schema {
            JsonSchema::Text { description } => {
                &&& schema_view(schema) is Text
                &&& schema_view(schema)->Text_description is Some <==> description is Some
                &&& description is Some ==> schema_view(schema)->Text_description->0
                    == description->0@
            },
            JsonSchema::Array { items, description } => {
                &&& schema_view(schema) is Array
                &&& *schema_view(schema)->items == schema_view(*items)
                &&& schema_view(schema)->Array_description is Some <==> description is Some
                &&& description is Some ==> schema_view(schema)->Array_description->0
                    == description->0@
            },
            JsonSchema::Object { properties, required, additional_properties } => {
                &&& schema_view(schema) is Object
                &&& schema_view(schema)->properties.len() == properties@.len()
                &&& forall|i: int|
                    0 <= i < properties@.len() ==> #[trigger] schema_view(schema)->properties[i]
                        == (properties@[i].0@, schema_view(properties@[i].1))
                &&& schema_view(schema)->required is Some <==> required is Some
                &&& required is Some ==> schema_view(schema)->required->0.len()
                    == required->0@.len()
                &&& required is Some ==> forall|i: int|
                    0 <= i < required->0@.len() ==> #[trigger] schema_view(schema)->required->0[i]
                        == required->0@[i]@
                &&& schema_view(schema)->additional_properties == additional_properties
            },
        },
{
    if schema is Object {
        lemma_properties_view(schema->properties@);
    }
}

proof fn lemma_properties_view(properties: Seq<(String, JsonSchema)>)
    ensures
        properties_view(properties).len() == properties.len(),
        forall|i: int|
            0 <= i < properties.len() ==> #[trigger] properties_view(properties)[i] == (
                properties[i].0@,
                schema_view(properties[i].1),
            ),
    decreases properties.len(),
{
    if properties.len() > 0 {
        lemma_properties_view(properties.drop_last());
    }
}

} // verus!
