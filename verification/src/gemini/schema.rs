//! What a schema for Gemini is made of, decided from the shape of a Rust item:
//! the description taken from its doc comment, which fields are required, and
//! which types cannot be given a schema at all.
use crate::foreign::{
    entries_view, json_array, json_array_of, json_bool, json_bool_of, json_is_object, json_object, json_object_of, json_set,
    json_string, json_string_of, json_value_is_object, json_with_field,
};
use crate::text::{trim, trim_str};
use serde_json::Value;
use vstd::prelude::*;
use vstd::string::*;

verus! {

/// `lines` joined into one text, with a line feed between each two.
pub open spec fn join_lines(lines: Seq<Seq<char>>) -> Seq<char>
    decreases lines.len(),
{
    if lines.len() == 0 {
        Seq::empty()
    } else if lines.len() == 1 {
        lines[0]
    } else {
        join_lines(lines.drop_last()) + seq!['\n'] + lines.last()
    }
}

/// The description given by the lines of a doc comment: each line trimmed, and
/// the lines joined by line feeds.
pub open spec fn doc_text(lines: Seq<String>) -> Seq<char> {
    join_lines(lines.map_values(|l: String| trim(l@)))
}

/// The description in the lines of a doc comment.
pub fn extract_doc_comments(lines: &Vec<String>) -> (r: String)
    ensures
        r@ == doc_text(lines@),
{
    let ghost trimmed = lines@.map_values(|l: String| trim(l@));
    let newline = "\n";
    proof {
        reveal_strlit("\n");
    }
    let mut out = String::new();
    let mut i: usize = 0;
    while i < lines.len()
        invariant
            i <= lines@.len(),
            trimmed == lines@.map_values(|l: String| trim(l@)),
            newline@ == seq!['\n'],
            out@ == join_lines(trimmed.take(i as int)),
        decreases lines@.len() - i,
    {
        if i > 0 {
            out.append(newline);
        }
        out.append(trim_str(lines[i].as_str()));
        proof {
            assert(trimmed.take(i + 1).drop_last() =~= trimmed.take(i as int));
            assert(trimmed.take(i + 1).last() == trimmed[i as int]);
        }
        i = i + 1;
    }
    assert(trimmed.take(lines@.len() as int) =~= trimmed);
    out
}

/// The shape of a Rust type, as far as a schema needs it.
pub enum TypeShape {
    /// A reference, `&T` or `&mut T`.
    Reference,
    /// A path such as `std::vec::Vec<Option<String>>`: the name of its last
    /// segment, and the type arguments of all its segments, in order.
    Path { last: String, args: Vec<TypeShape> },
    /// Any other type: a tuple, an array, a slice, a function pointer, ...
    Other,
}

/// Whether a reference occurs in `t`, itself or inside the type arguments of a
/// path, at any depth.
pub open spec fn type_has_reference(t: TypeShape) -> bool
    decreases t,
{
    match t {
        TypeShape::Reference => true,
        TypeShape::Path { last, args } => {
            proof {
                assert(decreases_to!(args => args@));
            }
            any_has_reference(args@)
        },
        TypeShape::Other => false,
    }
}

/// Whether a reference occurs in one of `ts`.
pub open spec fn any_has_reference(ts: Seq<TypeShape>) -> bool
    decreases ts,
{
    if ts.len() == 0 {
        false
    } else {
        type_has_reference(ts[0]) || any_has_reference(ts.drop_first())
    }
}

proof fn lemma_any_has_reference(ts: Seq<TypeShape>)
    ensures
        any_has_reference(ts) <==> exists|j: int| 0 <= j < ts.len() && #[trigger] type_has_reference(ts[j]),
    decreases ts.len(),
{
    if ts.len() > 0 {
        assert(any_has_reference(ts) == (type_has_reference(ts[0]) || any_has_reference(
            ts.drop_first(),
        )));
        lemma_any_has_reference(ts.drop_first());
        if any_has_reference(ts.drop_first()) {
            let j = choose|j: int| 0 <= j < ts.drop_first().len() && #[trigger] type_has_reference(ts.drop_first()[j]);
            assert(type_has_reference(ts[j + 1]));
        }
        if exists|j: int| 0 <= j < ts.len() && #[trigger] type_has_reference(ts[j]) {
            let j = choose|j: int| 0 <= j < ts.len() && #[trigger] type_has_reference(ts[j]);
            if j > 0 {
                assert(type_has_reference(ts.drop_first()[j - 1]));
            }
        }
    }
}

/// Whether `t` is a path whose last segment is named `Option`.
pub open spec fn type_is_option(t: TypeShape) -> bool {
    t matches TypeShape::Path { last, .. } && last@ == seq!['O', 'p', 't', 'i', 'o', 'n']
}

/// Whether `ty` contains a reference (which a schema cannot describe).
pub fn has_reference(ty: &TypeShape) -> (r: bool)
    ensures
        r == type_has_reference(*ty),
    decreases ty,
{
    match ty {
        TypeShape::Reference => true,
        TypeShape::Path { last, args } => {
            let mut i: usize = 0;
            while i < args.len()
                invariant
                    *ty == (TypeShape::Path { last: *last, args: *args }),
                    i <= args@.len(),
                    forall|j: int| 0 <= j < i ==> !type_has_reference(#[trigger] args@[j]),
                decreases args@.len() - i,
            {
                proof {
                    assert(decreases_to!(*ty => (*ty)->args));
                    assert(decreases_to!(*args => args@));
                    assert(decreases_to!(args@ => args@[i as int]));
                }
                if has_reference(&args[i]) {
                    proof {
                        lemma_any_has_reference(args@);
                    }
                    return true;
                }
                i = i + 1;
            }
            proof {
                lemma_any_has_reference(args@);
            }
            false
        },
        TypeShape::Other => false,
    }
}

/// Whether `ty` is an `Option`, whose field a schema leaves out of `required`.
pub fn is_option(ty: &TypeShape) -> (r: bool)
    ensures
        r == type_is_option(*ty),
{
    match ty {
        TypeShape::Path { last, args } => {
            let option = "Option";
            proof {
                reveal_strlit("Option");
            }
            let s: &str = last.as_str();
            if s.unicode_len() != 6 {
                return false;
            }
            let mut i: usize = 0;
            while i < 6
                invariant
                    *ty == (TypeShape::Path { last: *last, args: *args }),
                    s@ == last@,
                    s@.len() == 6,
                    option@ == seq!['O', 'p', 't', 'i', 'o', 'n'],
                    i <= 6,
                    forall|j: int| 0 <= j < i ==> s@[j] == option@[j],
                decreases 6 - i,
            {
                if s.get_char(i) != option.get_char(i) {
                    assert(s@[i as int] != option@[i as int]);
                    return false;
                }
                i = i + 1;
            }
            assert(s@ =~= option@);
            true
        },
        _ => false,
    }
}

/// A named field of a struct, or a parameter of a function: the lines of its
/// doc comment and the shape of its type.
pub struct SchemaField {
    pub name: String,
    pub doc: Vec<String>,
    pub ty: TypeShape,
}

/// What the schema says of one field: its name and its description.
#[derive(Clone, Debug)]
pub struct PropertyPlan {
    pub name: String,
    pub description: String,
}

/// What an object schema is made of: its description, one property for each
/// field in order, and the names of the fields that are required.
#[derive(Clone, Debug)]
pub struct SchemaPlan {
    pub description: String,
    pub properties: Vec<PropertyPlan>,
    pub required: Vec<String>,
}

/// The names of the fields that a schema requires: those whose type is not an
/// `Option`, in order.
pub open spec fn required_names(fields: Seq<SchemaField>) -> Seq<Seq<char>>
    decreases fields.len(),
{
    if fields.len() == 0 {
        Seq::empty()
    } else {
        let rest = required_names(fields.drop_last());
        if type_is_option(fields.last().ty) {
            rest
        } else {
            rest.push(fields.last().name@)
        }
    }
}

/// Whether the type of some field contains a reference.
pub open spec fn some_field_has_reference(fields: Seq<SchemaField>) -> bool {
    exists|i: int| 0 <= i < fields.len() && type_has_reference(#[trigger] fields[i].ty)
}

/// The plan of an object schema for an item with doc comment `doc` and fields
/// `fields`. A field whose type contains a reference cannot be described: the
/// error is the index of the first such field.
pub fn plan_schema(doc: &Vec<String>, fields: &Vec<SchemaField>) -> (r: Result<SchemaPlan, usize>)
    ensures
        r is Ok <==> !some_field_has_reference(fields@),
        r matches Err(k) ==> {
            &&& k < fields@.len()
            &&& type_has_reference(fields@[k as int].ty)
            &&& forall|j: int| 0 <= j < k ==> !type_has_reference(#[trigger] fields@[j].ty)
        },
        r matches Ok(plan) ==> {
            &&& plan.description@ == doc_text(doc@)
            &&& plan.properties@.len() == fields@.len()
            &&& forall|i: int|
                0 <= i < fields@.len() ==> {
                    &&& (#[trigger] plan.properties@[i]).name@ == fields@[i].name@
                    &&& plan.properties@[i].description@ == doc_text(fields@[i].doc@)
                }
            &&& plan.required@.map_values(|n: String| n@) == required_names(fields@)
        },
{
    let mut properties: Vec<PropertyPlan> = Vec::new();
    let mut required: Vec<String> = Vec::new();
    let mut i: usize = 0;
    while i < fields.len()
        invariant
            i <= fields@.len(),
            forall|j: int| 0 <= j < i ==> !type_has_reference(#[trigger] fields@[j].ty),
            properties@.len() == i,
            forall|j: int|
                0 <= j < i ==> {
                    &&& (#[trigger] properties@[j]).name@ == fields@[j].name@
                    &&& properties@[j].description@ == doc_text(fields@[j].doc@)
                },
            required@.map_values(|n: String| n@) == required_names(fields@.take(i as int)),
        decreases fields@.len() - i,
    {
        let field = &fields[i];
        if has_reference(&field.ty) {
            return Err(i);
        }
        let description = extract_doc_comments(&field.doc);
        properties.push(PropertyPlan { name: field.name.clone(), description });
        let ghost before = required@;
        if !is_option(&field.ty) {
            required.push(field.name.clone());
        }
        proof {
            assert(fields@.take(i + 1).drop_last() =~= fields@.take(i as int));
            assert(fields@.take(i + 1).last() == fields@[i as int]);
            if !type_is_option(fields@[i as int].ty) {
                assert(required@ == before.push(fields@[i as int].name));
                assert(required@.map_values(|n: String| n@) =~= before.map_values(
                    |n: String| n@,
                ).push(fields@[i as int].name@));
            }
        }
        i = i + 1;
    }
    assert(fields@.take(fields@.len() as int) =~= fields@);
    Ok(SchemaPlan { description: extract_doc_comments(doc), properties, required })
}

/// `schema` with the description `desc` added, when the description is not
/// empty and the schema is a JSON object.
pub open spec fn described(schema: Value, desc: Seq<char>) -> Value {
    if desc.len() > 0 && json_value_is_object(schema) {
        json_with_field(schema, "description"@, json_string_of(desc))
    } else {
        schema
    }
}

fn describe(schema: Value, desc: &String) -> (r: Value)
    ensures
        r == described(schema, desc@),
{
    if !desc.as_str().is_empty() && json_is_object(&schema) {
        let mut s = schema;
        json_set(&mut s, "description", json_string(desc.as_str()));
        s
    } else {
        schema
    }
}

/// The `properties` object: each field's name with its type's schema, described
/// by the field's doc comment.
pub open spec fn properties_json(fields: Seq<SchemaField>, schemas: Seq<Value>) -> Value {
    json_object_of(
        Seq::new(
            fields.len(),
            |i: int| (fields[i].name@, described(schemas[i], doc_text(fields[i].doc@))),
        ),
    )
}

/// The JSON array of these texts.
pub open spec fn strings_json(texts: Seq<Seq<char>>) -> Value {
    json_array_of(texts.map_values(|t: Seq<char>| json_string_of(t)))
}

/// `{"type": "OBJECT", "properties": properties, "required": required}`.
pub open spec fn object_json(properties: Value, required: Value) -> Value {
    json_object_of(
        seq![
            ("type"@, json_string_of("OBJECT"@)),
            ("properties"@, properties),
            ("required"@, required),
        ],
    )
}

/// The schema of a struct with doc comment `doc`, fields `fields` and their
/// types' schemas `schemas`.
pub open spec fn struct_schema_json(doc: Seq<String>, fields: Seq<SchemaField>, schemas: Seq<Value>) -> Value {
    described(
        object_json(properties_json(fields, schemas), strings_json(required_names(fields))),
        doc_text(doc),
    )
}

/// The declaration of a function named `name` with doc comment `doc`,
/// parameters `params` and their types' schemas `schemas`.
pub open spec fn function_json(name: Seq<char>, doc: Seq<String>, params: Seq<SchemaField>, schemas: Seq<Value>) -> Value {
    json_object_of(
        seq![
            ("name"@, json_string_of(name)),
            ("description"@, json_string_of(doc_text(doc))),
            (
                "parameters"@,
                object_json(properties_json(params, schemas), strings_json(required_names(params))),
            ),
        ],
    )
}

/// The schema of an enum of unit variants named `variants`, with doc comment
/// `doc`: `{"type": "STRING", "enum": variants}`, described.
pub open spec fn enum_json(doc: Seq<String>, variants: Seq<String>) -> Value {
    described(
        json_object_of(
            seq![
                ("type"@, json_string_of("STRING"@)),
                ("enum"@, strings_json(variants.map_values(|v: String| v@))),
            ],
        ),
        doc_text(doc),
    )
}

fn strings(texts: &Vec<String>) -> (r: Value)
    ensures
        r == strings_json(texts@.map_values(|t: String| t@)),
{
    let mut items: Vec<Value> = Vec::new();
    let mut i: usize = 0;
    while i < texts.len()
        invariant
            i <= texts@.len(),
            items@.len() == i,
            forall|j: int| 0 <= j < i ==> items@[j] == json_string_of(#[trigger] texts@[j]@),
        decreases texts@.len() - i,
    {
        items.push(json_string(texts[i].as_str()));
        i = i + 1;
    }
    assert(items@ =~= texts@.map_values(|t: String| t@).map_values(|t: Seq<char>| json_string_of(t)));
    json_array(items)
}

fn properties(plan: &SchemaPlan, fields: &Vec<SchemaField>, schemas: &Vec<Value>) -> (r: Value)
    requires
        schemas@.len() == fields@.len(),
        plan.properties@.len() == fields@.len(),
        forall|i: int|
            0 <= i < fields@.len() ==> {
                &&& (#[trigger] plan.properties@[i]).name@ == fields@[i].name@
                &&& plan.properties@[i].description@ == doc_text(fields@[i].doc@)
            },
    ensures
        r == properties_json(fields@, schemas@),
{
    let ghost target = Seq::new(
        fields@.len(),
        |i: int| (fields@[i].name@, described(schemas@[i], doc_text(fields@[i].doc@))),
    );
    let mut entries: Vec<(String, Value)> = Vec::new();
    let mut i: usize = 0;
    while i < schemas.len()
        invariant
            i <= schemas@.len(),
            schemas@.len() == fields@.len(),
            plan.properties@.len() == fields@.len(),
            forall|j: int|
                0 <= j < fields@.len() ==> {
                    &&& (#[trigger] plan.properties@[j]).name@ == fields@[j].name@
                    &&& plan.properties@[j].description@ == doc_text(fields@[j].doc@)
                },
            target == Seq::new(
                fields@.len(),
                |i: int| (fields@[i].name@, described(schemas@[i], doc_text(fields@[i].doc@))),
            ),
            entries@.len() == i,
            forall|j: int| 0 <= j < i ==> entries_view(entries@)[j] == #[trigger] target[j],
        decreases schemas@.len() - i,
    {
        let property = &plan.properties[i];
        let schema = describe(schemas[i].clone(), &property.description);
        let ghost before = entries@;
        entries.push((property.name.clone(), schema));
        proof {
            assert forall|j: int| 0 <= j < i + 1 implies entries_view(entries@)[j] == #[trigger] target[j] by {
                if j < i {
                    assert(entries@[j] == before[j]);
                }
            }
        }
        i = i + 1;
    }
    assert(entries_view(entries@) =~= target);
    json_object(entries)
}

/// The schema of a struct, as `#[gemini_schema]` makes it: a JSON object with
/// its fields as properties, described by their doc comments, and the fields
/// that are not `Option` as required. `schemas` are the schemas of the fields'
/// types, in order. The error is the index of the first field whose type holds
/// a reference.
pub fn struct_schema(doc: &Vec<String>, fields: &Vec<SchemaField>, schemas: &Vec<Value>) -> (r: Result<Value, usize>)
    requires
        schemas@.len() == fields@.len(),
    ensures
        r is Ok <==> !some_field_has_reference(fields@),
        r matches Err(k) ==> {
            &&& k < fields@.len()
            &&& type_has_reference(fields@[k as int].ty)
            &&& forall|j: int| 0 <= j < k ==> !type_has_reference(#[trigger] fields@[j].ty)
        },
        r matches Ok(v) ==> v == struct_schema_json(doc@, fields@, schemas@),
{
    let plan = match plan_schema(doc, fields) {
        Ok(plan) => plan,
        Err(k) => {
            return Err(k);
        },
    };
    let props = properties(&plan, fields, schemas);
    let required = strings(&plan.required);
    let entries = vec![
        ("type".to_owned(), json_string("OBJECT")),
        ("properties".to_owned(), props),
        ("required".to_owned(), required),
    ];
    assert(entries_view(entries@) =~= seq![
        ("type"@, json_string_of("OBJECT"@)),
        ("properties"@, props),
        ("required"@, required),
    ]);
    let object = json_object(entries);
    Ok(describe(object, &plan.description))
}

/// The declaration of a function callable by Gemini, as `#[gemini_function]`
/// makes it: its name, its description (always present), and its parameters
/// as an object schema. The error is the index of the first parameter whose
/// type holds a reference.
pub fn function_declaration(name: &str, doc: &Vec<String>, params: &Vec<SchemaField>, schemas: &Vec<Value>) -> (r: Result<Value, usize>)
    requires
        schemas@.len() == params@.len(),
    ensures
        r is Ok <==> !some_field_has_reference(params@),
        r matches Err(k) ==> {
            &&& k < params@.len()
            &&& type_has_reference(params@[k as int].ty)
            &&& forall|j: int| 0 <= j < k ==> !type_has_reference(#[trigger] params@[j].ty)
        },
        r matches Ok(v) ==> v == function_json(name@, doc@, params@, schemas@),
{
    let plan = match plan_schema(doc, params) {
        Ok(plan) => plan,
        Err(k) => {
            return Err(k);
        },
    };
    let props = properties(&plan, params, schemas);
    let required = strings(&plan.required);
    let parameter_entries = vec![
        ("type".to_owned(), json_string("OBJECT")),
        ("properties".to_owned(), props),
        ("required".to_owned(), required),
    ];
    assert(entries_view(parameter_entries@) =~= seq![
        ("type"@, json_string_of("OBJECT"@)),
        ("properties"@, props),
        ("required"@, required),
    ]);
    let parameters = json_object(parameter_entries);
    let entries = vec![
        ("name".to_owned(), json_string(name)),
        ("description".to_owned(), json_string(plan.description.as_str())),
        ("parameters".to_owned(), parameters),
    ];
    assert(entries_view(entries@) =~= seq![
        ("name"@, json_string_of(name@)),
        ("description"@, json_string_of(doc_text(doc@))),
        ("parameters"@, parameters),
    ]);
    Ok(json_object(entries))
}

/// The schema of an enum of unit variants, as `#[gemini_schema]` makes it.
pub fn enum_schema(doc: &Vec<String>, variants: &Vec<String>) -> (r: Value)
    ensures
        r == enum_json(doc@, variants@),
{
    let values = strings(variants);
    let entries = vec![("type".to_owned(), json_string("STRING")), ("enum".to_owned(), values)];
    assert(entries_view(entries@) =~= seq![
        ("type"@, json_string_of("STRING"@)),
        ("enum"@, strings_json(variants@.map_values(|v: String| v@))),
    ]);
    let object = json_object(entries);
    let description = extract_doc_comments(doc);
    describe(object, &description)
}

/// The schema of a primitive type: `{"type": kind}`.
pub fn primitive_schema(kind: &str) -> (r: Value)
    ensures
        r == json_object_of(seq![("type"@, json_string_of(kind@))]),
{
    let entries = vec![("type".to_owned(), json_string(kind))];
    assert(entries_view(entries@) =~= seq![("type"@, json_string_of(kind@))]);
    json_object(entries)
}

/// The schema of a list whose items have schema `items`:
/// `{"type": "ARRAY", "items": items}`.
pub fn array_schema(items: Value) -> (r: Value)
    ensures
        r == json_object_of(seq![("type"@, json_string_of("ARRAY"@)), ("items"@, items)]),
{
    let ghost given = items;
    let entries = vec![("type".to_owned(), json_string("ARRAY")), ("items".to_owned(), items)];
    assert(entries_view(entries@) =~= seq![("type"@, json_string_of("ARRAY"@)), ("items"@, given)]);
    json_object(entries)
}

/// `schema` of an optional value: marked `"nullable": true` when it is a JSON
/// object, else unchanged.
pub fn nullable_schema(schema: Value) -> (r: Value)
    ensures
        r == if json_value_is_object(schema) {
            json_with_field(schema, "nullable"@, json_bool_of(true))
        } else {
            schema
        },
{
    if json_is_object(&schema) {
        let mut s = schema;
        json_set(&mut s, "nullable", json_bool(true));
        s
    } else {
        schema
    }
}

/// A reference is found wherever it stands: a reference type has one, any
/// other non-path type has none, and a path type has one exactly when one of
/// its type arguments (at any position) has one.
pub proof fn law_reference_in_any_argument(last: String, args: Vec<TypeShape>)
    ensures
        type_has_reference(TypeShape::Reference),
        !type_has_reference(TypeShape::Other),
        forall|k: int|
            0 <= k < args@.len() && type_has_reference(#[trigger] args@[k]) ==> type_has_reference(
                TypeShape::Path { last, args },
            ),
        type_has_reference(TypeShape::Path { last, args }) ==> exists|k: int|
            0 <= k < args@.len() && type_has_reference(#[trigger] args@[k]),
{
    lemma_any_has_reference(args@);
}

} // verus!
