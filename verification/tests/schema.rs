use llms_client::gemini::schema::{
    array_schema, enum_schema, nullable_schema, primitive_schema, extract_doc_comments, function_declaration, has_reference, is_option, plan_schema,
    struct_schema, SchemaField, TypeShape,
};
use serde_json::Value;

fn json(s: &str) -> Value {
    serde_json::from_str(s).unwrap()
}

fn path(last: &str, args: Vec<TypeShape>) -> TypeShape {
    TypeShape::Path { last: last.to_string(), args }
}

fn lines(ls: &[&str]) -> Vec<String> {
    ls.iter().map(|l| l.to_string()).collect()
}

#[test]
fn doc_comment_lines_are_trimmed_and_joined() {
    let doc = lines(&[" Returns the weather.", "   ", "\tIn Celsius. "]);
    assert_eq!(extract_doc_comments(&doc), "Returns the weather.\n\nIn Celsius.");
}

#[test]
fn doc_comment_of_nothing_is_empty() {
    assert_eq!(extract_doc_comments(&Vec::new()), "");
    assert_eq!(extract_doc_comments(&lines(&["  "])), "");
}

#[test]
fn option_is_found_by_last_segment() {
    assert!(is_option(&path("Option", vec![path("String", vec![])])));
    assert!(!is_option(&path("Vec", vec![path("Option", vec![])])));
    assert!(!is_option(&path("Options", vec![])));
    assert!(!is_option(&TypeShape::Reference));
    assert!(!is_option(&TypeShape::Other));
}

#[test]
fn references_are_found_at_any_depth() {
    assert!(has_reference(&TypeShape::Reference));
    assert!(!has_reference(&path("String", vec![])));
    assert!(!has_reference(&TypeShape::Other));
    let deep = path(
        "Vec",
        vec![path("Option", vec![path("Box", vec![TypeShape::Reference])])],
    );
    assert!(has_reference(&deep));
    let flat = path("HashMap", vec![path("String", vec![]), path("u32", vec![])]);
    assert!(!has_reference(&flat));
}

#[test]
fn plan_lists_properties_and_required_fields() {
    let fields = vec![
        SchemaField {
            name: "title".to_string(),
            doc: lines(&[" The title of the page."]),
            ty: path("String", vec![]),
        },
        SchemaField {
            name: "rank".to_string(),
            doc: vec![],
            ty: path("Option", vec![path("u32", vec![])]),
        },
        SchemaField {
            name: "url".to_string(),
            doc: lines(&[" The URL. "]),
            ty: path("String", vec![]),
        },
    ];
    let plan = plan_schema(&lines(&[" A search result."]), &fields).ok().unwrap();
    assert_eq!(plan.description, "A search result.");
    assert_eq!(plan.properties.len(), 3);
    assert_eq!(plan.properties[0].name, "title");
    assert_eq!(plan.properties[0].description, "The title of the page.");
    assert_eq!(plan.properties[1].name, "rank");
    assert_eq!(plan.properties[1].description, "");
    assert_eq!(plan.properties[2].description, "The URL.");
    assert_eq!(plan.required, vec!["title".to_string(), "url".to_string()]);
}

#[test]
fn plan_refuses_the_first_field_with_a_reference() {
    let fields = vec![
        SchemaField { name: "a".to_string(), doc: vec![], ty: path("String", vec![]) },
        SchemaField {
            name: "b".to_string(),
            doc: vec![],
            ty: path("Vec", vec![TypeShape::Reference]),
        },
        SchemaField { name: "c".to_string(), doc: vec![], ty: TypeShape::Reference },
    ];
    assert_eq!(plan_schema(&vec![], &fields).err(), Some(1));
}

fn search_fields() -> Vec<SchemaField> {
    vec![
        SchemaField {
            name: "title".to_string(),
            doc: lines(&[" The title."]),
            ty: path("String", vec![]),
        },
        SchemaField {
            name: "rank".to_string(),
            doc: vec![],
            ty: path("Option", vec![path("u32", vec![])]),
        },
    ]
}

#[test]
fn struct_schema_is_an_object_with_described_properties() {
    let schemas = vec![json("{\"type\":\"STRING\"}"), json("{\"type\":\"INTEGER\",\"nullable\":true}")];
    let v = struct_schema(&lines(&[" A result."]), &search_fields(), &schemas).unwrap();
    assert_eq!(
        v,
        json(
            "{\"type\":\"OBJECT\",\"description\":\"A result.\",\"required\":[\"title\"],\
             \"properties\":{\"title\":{\"type\":\"STRING\",\"description\":\"The title.\"},\
             \"rank\":{\"type\":\"INTEGER\",\"nullable\":true}}}"
        )
    );
    let no_doc = struct_schema(&vec![], &search_fields(), &schemas).unwrap();
    assert!(no_doc.get("description").is_none());
}

#[test]
fn struct_schema_refuses_references() {
    let fields = vec![SchemaField { name: "a".to_string(), doc: vec![], ty: TypeShape::Reference }];
    assert_eq!(struct_schema(&vec![], &fields, &vec![json("{}")]), Err(0));
}

#[test]
fn function_declaration_names_parameters() {
    let schemas = vec![json("{\"type\":\"STRING\"}"), json("{\"type\":\"INTEGER\"}")];
    let v = function_declaration("search", &vec![], &search_fields(), &schemas).unwrap();
    assert_eq!(
        v,
        json(
            "{\"name\":\"search\",\"description\":\"\",\"parameters\":{\"type\":\"OBJECT\",\
             \"required\":[\"title\"],\"properties\":{\"title\":{\"type\":\"STRING\",\
             \"description\":\"The title.\"},\"rank\":{\"type\":\"INTEGER\"}}}}"
        )
    );
}

#[test]
fn enum_schema_lists_variants() {
    let v = enum_schema(&lines(&[" A colour."]), &lines(&["Red", "Green"]));
    assert_eq!(
        v,
        json("{\"type\":\"STRING\",\"enum\":[\"Red\",\"Green\"],\"description\":\"A colour.\"}")
    );
}

#[test]
fn schemas_of_primitives_lists_and_options() {
    let s = primitive_schema("INTEGER");
    assert_eq!(s, json("{\"type\":\"INTEGER\"}"));
    assert_eq!(
        array_schema(s.clone()),
        json("{\"type\":\"ARRAY\",\"items\":{\"type\":\"INTEGER\"}}")
    );
    assert_eq!(nullable_schema(s), json("{\"type\":\"INTEGER\",\"nullable\":true}"));
    assert_eq!(nullable_schema(json("3")), json("3"));
}
