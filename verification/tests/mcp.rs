use multorum::mcp::args::{extract_sequence_filter, parse_perspective, parse_worker_id, unknown_tool};
use multorum::runtime::mailbox::{Sequence, SequenceFilter};
use multorum::mcp::error::ResourceErrorClass;
use multorum::mcp::schema::{input_schema, InputSchema, SchemaProperty};
use multorum::mcp::resource::route::{
    route_orchestrator_resource, route_worker_resource, OrchestratorResource, ResourceUriError,
    WorkerResource,
};
use multorum::runtime::worker_id::WorkerId;

fn wid(s: &str) -> WorkerId {
    WorkerId::new(s).unwrap()
}

#[test]
fn orchestrator_resources_are_routed_by_uri() {
    assert_eq!(
        route_orchestrator_resource("multorum://orchestrator/methodology"),
        Ok(OrchestratorResource::Methodology)
    );
    assert_eq!(route_orchestrator_resource("multorum://orchestrator/status"), Ok(OrchestratorResource::Status));
    assert_eq!(
        route_orchestrator_resource("multorum://orchestrator/perspectives"),
        Ok(OrchestratorResource::Perspectives)
    );
    assert_eq!(route_orchestrator_resource("multorum://orchestrator/workers"), Ok(OrchestratorResource::Workers));
    assert_eq!(
        route_orchestrator_resource("multorum://orchestrator/workers/auth-1"),
        Ok(OrchestratorResource::Worker(wid("auth-1")))
    );
    assert_eq!(
        route_orchestrator_resource("multorum://orchestrator/workers/auth-1/outbox"),
        Ok(OrchestratorResource::WorkerOutbox(wid("auth-1")))
    );
}

#[test]
fn unserved_orchestrator_resources_are_refused() {
    let reserved = route_orchestrator_resource("multorum://orchestrator/workers/auth-1/transcript").unwrap_err();
    assert_eq!(
        reserved.message(),
        "resource not yet implemented: multorum://orchestrator/workers/auth-1/transcript"
    );
    assert_eq!(reserved.class(), ResourceErrorClass::NotFound);

    let sub = route_orchestrator_resource("multorum://orchestrator/workers/auth-1/inbox").unwrap_err();
    assert_eq!(sub, ResourceUriError::UnknownSubResource("inbox".to_string()));
    assert_eq!(sub.message(), "unknown worker sub-resource: inbox");

    let bad = route_orchestrator_resource("multorum://orchestrator/workers/Auth/outbox").unwrap_err();
    assert_eq!(bad.message(), "invalid worker: worker id `Auth` must start with a lowercase ASCII letter");
    assert_eq!(bad.class(), ResourceErrorClass::InvalidParams);

    let empty = route_orchestrator_resource("multorum://orchestrator/workers/").unwrap_err();
    assert_eq!(empty.message(), "invalid worker: worker id is empty");

    let unknown = route_orchestrator_resource("multorum://orchestrator/nothing").unwrap_err();
    assert_eq!(unknown, ResourceUriError::Unknown("multorum://orchestrator/nothing".to_string()));
    assert_eq!(unknown.message(), "unknown resource: multorum://orchestrator/nothing");
}

#[test]
fn worker_resources_are_routed_by_uri() {
    assert_eq!(route_worker_resource("multorum://worker/methodology"), Ok(WorkerResource::Methodology));
    assert_eq!(route_worker_resource("multorum://worker/contract"), Ok(WorkerResource::Contract));
    assert_eq!(route_worker_resource("multorum://worker/inbox"), Ok(WorkerResource::Inbox));
    assert_eq!(route_worker_resource("multorum://worker/status"), Ok(WorkerResource::Status));
    assert_eq!(
        route_worker_resource("multorum://worker/write-set"),
        Err(ResourceUriError::NotImplemented("multorum://worker/write-set".to_string()))
    );
    assert_eq!(
        route_worker_resource("multorum://worker/elsewhere"),
        Err(ResourceUriError::Unknown("multorum://worker/elsewhere".to_string()))
    );
}

#[test]
fn tool_arguments_name_valid_workers_and_perspectives() {
    assert_eq!(parse_worker_id("auth-1").unwrap().as_str(), "auth-1");
    assert_eq!(parse_worker_id("").unwrap_err(), "invalid worker: worker id is empty");
    assert_eq!(parse_perspective("AuthImplementor").unwrap().as_str(), "AuthImplementor");
    assert_eq!(
        parse_perspective("auth").unwrap_err(),
        "invalid perspective name: perspective name `auth` must start with an uppercase ASCII letter"
    );
    assert_eq!(unknown_tool("launch"), "unknown tool: launch");
}

#[test]
fn sequence_filter_arguments_exclude_exact_with_range() {
    assert_eq!(extract_sequence_filter(None, None, Some(4)), Ok(SequenceFilter::Exact(Sequence(4))));
    assert_eq!(
        extract_sequence_filter(Some(2), None, None),
        Ok(SequenceFilter::Range { from: Some(Sequence(2)), to: None })
    );
    assert_eq!(
        extract_sequence_filter(Some(2), None, Some(4)),
        Err("exact is mutually exclusive with from/to".to_string())
    );
}

fn property<'a>(schema: &'a InputSchema, name: &str) -> &'a SchemaProperty {
    schema.properties.iter().find(|p| p.name == name).expect("schema should expose the property")
}

#[test]
fn orchestrator_tool_schema_uses_typed_fields() {
    let descriptor = multorum::mcp::tool::orchestrator::descriptors()
        .into_iter()
        .find(|descriptor| descriptor.name == "create_worker")
        .expect("create_worker descriptor should exist");

    let schema = input_schema(&descriptor.inputs);

    assert_eq!(property(&schema, "perspective").json_type, "string");
    assert_eq!(property(&schema, "overwriting_worktree").json_type, "boolean");
    assert_eq!(property(&schema, "artifacts").json_type, "array");
    assert_eq!(property(&schema, "artifacts").items, Some("string"));
    assert_eq!(schema.additional_properties, false);
}

#[test]
fn forward_perspective_tool_schema_uses_string_perspective() {
    let descriptor = multorum::mcp::tool::orchestrator::descriptors()
        .into_iter()
        .find(|descriptor| descriptor.name == "forward_perspective")
        .expect("forward_perspective descriptor should exist");

    let schema = input_schema(&descriptor.inputs);

    assert_eq!(property(&schema, "perspective").json_type, "string");
}

#[test]
fn worker_tool_schema_uses_integer_fields() {
    let descriptor = multorum::mcp::tool::worker::descriptors()
        .into_iter()
        .find(|descriptor| descriptor.name == "ack_inbox_message")
        .expect("ack_inbox_message descriptor should exist");

    let schema = input_schema(&descriptor.inputs);

    assert_eq!(property(&schema, "sequence").json_type, "integer");
}

#[test]
fn orchestrator_worker_detail_is_a_resource_template() {
    let resources = multorum::mcp::resource::orchestrator::descriptors();
    assert!(
        resources.iter().all(|descriptor| !descriptor.uri.contains("{worker}")),
        "parameterized URIs should not be listed as concrete resources"
    );

    let templates = multorum::mcp::resource::orchestrator::templates();
    assert_eq!(templates.len(), 2);
    assert_eq!(templates[0].uri_template, "multorum://orchestrator/workers/{worker}");
    assert_eq!(templates[1].uri_template, "multorum://orchestrator/workers/{worker}/outbox");
}

#[test]
fn required_inputs_are_listed_in_order() {
    let descriptor = multorum::mcp::tool::orchestrator::descriptors()
        .into_iter()
        .find(|descriptor| descriptor.name == "ack_worker_outbox_message")
        .expect("ack_worker_outbox_message descriptor should exist");
    let schema = input_schema(&descriptor.inputs);
    assert_eq!(schema.required, vec!["worker", "sequence"]);
    assert_eq!(schema.properties.len(), 2);
}
