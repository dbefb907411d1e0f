use suisei_core::project::{project_from_marker, project_id_for, Project, MARKER};

#[test]
fn the_marker_is_a_small_json_object() {
    let p = Project { schema: 1, project_id: "prj_abc".to_string(), name: "Comet".to_string() };
    assert_eq!(
        p.to_json(),
        "{\n  \"schema\": 1,\n  \"project_id\": \"prj_abc\",\n  \"name\": \"Comet\"\n}\n"
    );
    assert_eq!(MARKER, "project.suiseiprj");
}

#[test]
fn names_are_escaped_as_json() {
    let p = Project {
        schema: 12,
        project_id: String::new(),
        name: "say \"hi\"\\\n\t\u{1}ü".to_string(),
    };
    assert_eq!(
        p.to_json(),
        "{\n  \"schema\": 12,\n  \"project_id\": \"\",\n  \"name\": \"say \\\"hi\\\"\\\\\\n\\t\\u0001ü\"\n}\n"
    );
    let back: serde_json::Value = serde_json::from_str(&p.to_json()).unwrap();
    assert_eq!(back["name"], "say \"hi\"\\\n\t\u{1}ü");
}

#[test]
fn the_marker_carries_no_authority_of_its_own() {
    let p = Project { schema: 1, project_id: project_id_for(7, b"/work/comet"), name: "comet".to_string() };
    let text = p.to_json().to_lowercase();
    for forbidden in ["member", "role", "token", "admin", "owner", "email"] {
        assert!(!text.contains(forbidden), "{forbidden} in {text}");
    }
}

#[test]
fn ids_mix_the_clock_and_the_path() {
    assert_eq!(project_id_for(0, b""), "prj_00000000000005s8422jwwmwqc");
    assert_eq!(project_id_for(123456789, b"/tmp/a"), "prj_n8kqn3000000077v87sqvv9gs6");
    let a = project_id_for(42, b"/work/a");
    let b = project_id_for(42, b"/work/b");
    assert_ne!(a, b, "same instant, different folders");
    assert_ne!(project_id_for(1, b"/x"), project_id_for(2, b"/x"), "same folder, different instants");
    assert_eq!(a.len(), 30);
    assert!(a.starts_with("prj_"));
}

#[test]
fn a_marker_reads_back_with_defaults_for_what_is_missing() {
    let p = project_from_marker(r#"{"schema": 2, "project_id": "abc", "name": "Mine"}"#, "dir");
    assert_eq!(p.schema, 2);
    assert_eq!(p.project_id, "abc");
    assert_eq!(p.name, "Mine");
    let q = project_from_marker(r#"{"project_id": 7}"#, "dir");
    assert_eq!(q.schema, 1);
    assert_eq!(q.project_id, "");
    assert_eq!(q.name, "dir");
    let r = project_from_marker("not json", "folder");
    assert_eq!((r.schema, r.project_id.as_str(), r.name.as_str()), (1, "", "folder"));
}

#[test]
fn a_written_marker_reads_back_as_the_same_project() {
    let p = Project { schema: 1, project_id: "x\"y".to_string(), name: "Na\\me".to_string() };
    let q = project_from_marker(&p.to_json(), "other");
    assert_eq!(q, p);
}

#[test]
fn a_damaged_marker_still_names_a_project() {
    let p = project_from_marker("{ this is not json", "damaged");
    assert_eq!(p.name, "damaged");
}
