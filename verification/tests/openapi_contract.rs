use lattice::openapi::{
    cycle_body_with_schemas, cycle_content_type, cycle_method, cycle_status,
    parse_openapi_contract, render_openapi_contract, render_openapi_footer, render_openapi_schema,
    yaml_escape, OpenApiBody, OpenApiEditorMode, OpenApiEditorState, OpenApiEndpoint,
    OpenApiMethod, OpenApiPropType, OpenApiSchema, OpenApiSchemaProp, OpenApiStringFormat,
};

#[test]
fn blank_contract_gives_defaults() {
    let (t, v, u, eps) = parse_openapi_contract("");
    assert_eq!((t.as_str(), v.as_str(), u.as_str()), ("API Contract", "1.0.0", "https://api.example.com"));
    assert_eq!(eps, vec![OpenApiEndpoint::default_endpoint()]);
}

#[test]
fn contract_renders_grouped_by_sorted_path_and_reads_back() {
    let mut a = OpenApiEndpoint::default_endpoint();
    a.path = "/b".into();
    a.method = OpenApiMethod::Post;
    a.request_body = OpenApiBody::SchemaRef("User".into());
    a.response_status = 201;
    let mut b = OpenApiEndpoint::default_endpoint();
    b.path = "/a".into();
    let text = render_openapi_contract("T \"q\"", "2", "http://x", &vec![a.clone(), b.clone()], &vec![]);
    let expected = "openapi: \"3.1.0\"\ninfo:\n  title: \"T \\\"q\\\"\"\n  version: \"2\"\nservers:\n  - url: \"http://x\"\npaths:\n  /a:\n    get:\n      responses:\n        '200':\n          description: No response body\n  /b:\n    post:\n      requestBody:\n        required: true\n        content:\n          application/json:\n            schema:\n              $ref: \"#/components/schemas/User\"\n      responses:\n        '201':\n          description: No response body\n";
    assert_eq!(text, expected);
    let (t, v, u, eps) = parse_openapi_contract(&text);
    assert_eq!(t, "T \\\"q\\");
    assert_eq!(v, "2");
    assert_eq!(u, "http://x");
    assert_eq!(eps.len(), 2);
    assert_eq!(eps[0].path, "/a");
    assert_eq!(eps[1].method, OpenApiMethod::Post);
    assert_eq!(eps[1].response_status, 201);
    assert_eq!(eps[1].request_content_type, "application/json");
    assert_eq!(eps[1].request_body, OpenApiBody::Empty);
}

#[test]
fn schema_renders_required_and_constraints() {
    let s = OpenApiSchema {
        name: " User ".into(),
        additional_properties: false,
        properties: vec![
            OpenApiSchemaProp {
                name: "email".into(),
                kind: OpenApiPropType::String,
                required: true,
                nullable: false,
                format: OpenApiStringFormat::Email,
                min: Some(3),
                max: None,
                pattern: " a\"b ".into(),
                enum_values: vec![],
            },
            OpenApiSchemaProp {
                name: "age".into(),
                kind: OpenApiPropType::Integer,
                required: false,
                nullable: true,
                format: OpenApiStringFormat::Plain,
                min: Some(-1),
                max: Some(130),
                pattern: "".into(),
                enum_values: vec![" x ".into(), " ".into()],
            },
        ],
    };
    assert_eq!(
        render_openapi_schema(&s),
        "    User:\n      type: object\n      additionalProperties: false\n      required:\n        - email\n      properties:\n        email:\n          type: string\n          format: email\n          minLength: 3\n          pattern: \"a\\\"b\"\n        age:\n          type: integer\n          nullable: true\n          minimum: -1\n          maximum: 130\n          enum:\n            - x\n"
    );
}

#[test]
fn cycles_wrap_around() {
    assert_eq!(cycle_method(OpenApiMethod::Delete, 1), OpenApiMethod::Get);
    assert_eq!(cycle_method(OpenApiMethod::Get, -1), OpenApiMethod::Delete);
    assert_eq!(cycle_status(502, 1), 200);
    assert_eq!(cycle_status(999, 1), 201);
    assert_eq!(cycle_content_type("text/markdown", 1), "application/json");
    assert_eq!(cycle_content_type("weird", 2), "application/xml");
    let schemas = vec![OpenApiSchema { name: " S ".into(), additional_properties: false, properties: vec![] }];
    assert_eq!(cycle_body_with_schemas(OpenApiBody::Boolean, 1, &schemas), OpenApiBody::SchemaRef("S".into()));
    assert_eq!(cycle_body_with_schemas(OpenApiBody::SchemaRef("Gone".into()), 1, &schemas), OpenApiBody::String);
}

#[test]
fn yaml_escape_escapes_backslash_then_quote() {
    assert_eq!(yaml_escape("a\\b\"c"), "a\\\\b\\\"c");
}

#[test]
fn footer_describes_selection() {
    let ed = OpenApiEditorState {
        form_field_index: 0,
        title: "T".into(),
        version: "1".into(),
        base_url: "u".into(),
        endpoints: vec![OpenApiEndpoint::default_endpoint()],
        endpoint_cursor: 0,
        schemas: vec![],
        schema_cursor: 0,
        prop_cursor: 0,
        preview_scroll: 0,
        mode: OpenApiEditorMode::Browse,
    };
    assert_eq!(
        render_openapi_footer(&ed),
        "Selected: GET /\nreq: application/json none\nresp: 200 application/json none\n(edit: u path, m method, s status, c content-type, r req body, p resp body)"
    );
    let mut ed2 = ed.clone();
    ed2.mode = OpenApiEditorMode::EditPath { input: "/x".into() };
    assert_eq!(render_openapi_footer(&ed2), "Edit path:\n/x\n(Enter to confirm)");
    ed2.mode = OpenApiEditorMode::Schemas;
    assert_eq!(render_openapi_footer(&ed2), "Schemas: none. Press `n` to add one. (g toggles back to endpoints)");
}

#[test]
fn quoted_status_reads_back() {
    let mut ep = OpenApiEndpoint::default_endpoint();
    ep.method = OpenApiMethod::Post;
    ep.path = "/items".into();
    ep.response_status = 404;
    let y = render_openapi_contract("T", "1.0.0", "https://x", &vec![ep.clone()], &vec![]);
    let (t, v, u, eps) = parse_openapi_contract(&y);
    assert_eq!((t.as_str(), v.as_str(), u.as_str()), ("T", "1.0.0", "https://x"));
    assert_eq!(eps, vec![ep]);
}
