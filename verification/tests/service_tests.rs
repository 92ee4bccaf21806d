use todos::handlers::create_todo;
use todos::handlers::delete_todo;
use todos::handlers::get_todo_by_id;
use todos::handlers::get_todos;
use todos::handlers::update_todo;
use todos::store::Store;

#[test]
fn create_then_get_round_trip() {
    let mut store = Store::new();
    let created = store.create("buy milk");
    assert_eq!(created.task, "buy milk");
    assert!(!created.completed);
    let fetched = store.get(&created.id).expect("created todo must be retrievable");
    assert_eq!(fetched.id, created.id);
    assert_eq!(fetched.task, "buy milk");
    assert!(!fetched.completed);
}

#[test]
fn created_ids_are_pairwise_distinct() {
    let mut store = Store::new();
    let a = store.create("a");
    let b = store.create("b");
    let c = store.create("c");
    assert_ne!(a.id, b.id);
    assert_ne!(a.id, c.id);
    assert_ne!(b.id, c.id);
}

#[test]
fn update_is_idempotent() {
    let mut store = Store::new();
    let created = store.create("task");
    let first = store.update(&created.id, "done it", true).expect("id must resolve");
    let snapshot: Vec<(String, String, bool)> = store
        .list()
        .into_iter()
        .map(|t| (t.id, t.task, t.completed))
        .collect();
    let second = store.update(&created.id, "done it", true).expect("id must resolve");
    let again: Vec<(String, String, bool)> = store
        .list()
        .into_iter()
        .map(|t| (t.id, t.task, t.completed))
        .collect();
    assert_eq!(snapshot, again);
    assert_eq!(first.task, second.task);
    assert_eq!(first.completed, second.completed);
}

#[test]
fn delete_is_final() {
    let mut store = Store::new();
    let created = store.create("gone soon");
    assert!(store.delete(&created.id));
    assert!(store.get(&created.id).is_none());
    assert!(store.update(&created.id, "no", true).is_none());
    assert!(!store.delete(&created.id));
}

#[test]
fn list_is_complete_and_ordered() {
    let mut store = Store::new();
    let a = store.create("a");
    let b = store.create("b");
    let listed = store.list();
    assert_eq!(listed.len(), 2);
    assert_eq!(listed[0].id, a.id);
    assert_eq!(listed[0].task, "a");
    assert!(!listed[0].completed);
    assert_eq!(listed[1].id, b.id);
    assert_eq!(listed[1].task, "b");
    assert!(!listed[1].completed);
}

#[test]
fn full_http_scenario() {
    let mut store = Store::new();

    let created = create_todo(&mut store, "{\"task\":\"buy milk\"}");
    assert_eq!(created.status, 201);
    let id = store.list()[0].id.clone();
    let expected = format!(
        "{{\"todo\":{{\"id\":\"{}\",\"task\":\"buy milk\",\"completed\":false}}}}",
        id
    );
    assert_eq!(created.body, expected);

    let fetched = get_todo_by_id(&store, &id);
    assert_eq!(fetched.status, 200);
    assert_eq!(fetched.body, expected);

    let updated = update_todo(
        &mut store,
        &id,
        "{\"todo\":{\"task\":\"buy oat milk\",\"completed\":true}}",
    );
    assert_eq!(updated.status, 200);
    let expected_updated = format!(
        "{{\"todo\":{{\"id\":\"{}\",\"task\":\"buy oat milk\",\"completed\":true}}}}",
        id
    );
    assert_eq!(updated.body, expected_updated);

    let deleted = delete_todo(&mut store, &id);
    assert_eq!(deleted.status, 204);
    assert_eq!(deleted.body, "");

    let missing = get_todo_by_id(&store, &id);
    assert_eq!(missing.status, 404);
    assert_eq!(missing.body, "Todo not found");
}

#[test]
fn list_handler_renders_json() {
    let mut store = Store::new();
    let empty = get_todos(&store);
    assert_eq!(empty.status, 200);
    assert_eq!(empty.body, "{\"todos\":[]}");

    let a = store.create("first");
    let b = store.create("second");
    let listing = get_todos(&store);
    assert_eq!(listing.status, 200);
    let expected = format!(
        "{{\"todos\":[{{\"id\":\"{}\",\"task\":\"first\",\"completed\":false}},{{\"id\":\"{}\",\"task\":\"second\",\"completed\":false}}]}}",
        a.id, b.id
    );
    assert_eq!(listing.body, expected);
}

#[test]
fn rendering_escapes_special_characters() {
    let mut store = Store::new();
    let created = store.create("a\"b\\c\nd\re\tf\u{1}g");
    let reply = get_todo_by_id(&store, &created.id);
    assert_eq!(reply.status, 200);
    let expected = format!(
        "{{\"todo\":{{\"id\":\"{}\",\"task\":\"a\\\"b\\\\c\\nd\\re\\tf\\u0001g\",\"completed\":false}}}}",
        created.id
    );
    assert_eq!(reply.body, expected);
}

#[test]
fn create_accepts_whitespace_and_escapes() {
    let mut store = Store::new();
    let reply = create_todo(&mut store, "  {\n\t\"task\" : \"say \\\"hi\\\"\\/\\b\\f\"  }\r\n");
    assert_eq!(reply.status, 201);
    let listed = store.list();
    assert_eq!(listed.len(), 1);
    assert_eq!(listed[0].task, "say \"hi\"/\u{8}\u{c}");
}

#[test]
fn create_accepts_an_empty_task() {
    let mut store = Store::new();
    let reply = create_todo(&mut store, "{\"task\":\"\"}");
    assert_eq!(reply.status, 201);
    let id = store.list()[0].id.clone();
    let expected = format!("{{\"todo\":{{\"id\":\"{}\",\"task\":\"\",\"completed\":false}}}}", id);
    assert_eq!(reply.body, expected);
}

#[test]
fn create_accepts_unicode_escapes() {
    let mut store = Store::new();
    let reply = create_todo(&mut store, "{\"task\":\"\\u0041\\u00e9\\u2713\"}");
    assert_eq!(reply.status, 201);
    let listed = store.list();
    assert_eq!(listed.len(), 1);
    assert_eq!(listed[0].task, "A\u{e9}\u{2713}");
}

#[test]
fn create_rejects_bad_unicode_escapes() {
    let mut store = Store::new();
    for body in [
        "{\"task\":\"\\u12\"}",
        "{\"task\":\"\\uZZZZ\"}",
        "{\"task\":\"\\ud800\"}",
        "{\"task\":\"\\ud83d\\ude00\"}",
    ] {
        let reply = create_todo(&mut store, body);
        assert_eq!(reply.status, 400, "body {:?} must be rejected", body);
        assert_eq!(store.list().len(), 0);
    }
}

#[test]
fn create_rejects_malformed_bodies() {
    let mut store = Store::new();
    for body in [
        "",
        "{}",
        "{\"task\":}",
        "{\"task\":\"a\"",
        "{\"task\":\"a\"} trailing",
        "{\"Task\":\"a\"}",
        "{\"task\":\"unterminated}",
        "{\"task\":\"bad\\escape\"}",
        "{\"task\":\"ctrl\u{1}char\"}",
        "[\"task\"]",
        "{\"task\":\"a\",\"completed\":true}",
    ] {
        let reply = create_todo(&mut store, body);
        assert_eq!(reply.status, 400, "body {:?} must be rejected", body);
        assert_eq!(reply.body, "Invalid request body");
        assert_eq!(store.list().len(), 0);
    }
}

#[test]
fn update_accepts_either_field_order() {
    let mut store = Store::new();
    let created = store.create("x");
    let normal = update_todo(
        &mut store,
        &created.id,
        "{\"todo\":{\"task\":\"one\",\"completed\":true}}",
    );
    assert_eq!(normal.status, 200);
    let swapped = update_todo(
        &mut store,
        &created.id,
        "{\"todo\":{\"completed\":false,\"task\":\"two\"}}",
    );
    assert_eq!(swapped.status, 200);
    let current = store.get(&created.id).unwrap();
    assert_eq!(current.task, "two");
    assert!(!current.completed);
}

#[test]
fn update_rejects_malformed_bodies() {
    let mut store = Store::new();
    let created = store.create("x");
    for body in [
        "",
        "{\"task\":\"a\",\"completed\":true}",
        "{\"todo\":{\"task\":\"a\"}}",
        "{\"todo\":{\"completed\":true}}",
        "{\"todo\":{\"task\":\"a\",\"completed\":maybe}}",
        "{\"todo\":{\"task\":\"a\",\"completed\":true}",
        "{\"todo\":{\"task\":\"a\",\"completed\":true}}}",
    ] {
        let reply = update_todo(&mut store, &created.id, body);
        assert_eq!(reply.status, 400, "body {:?} must be rejected", body);
        assert_eq!(reply.body, "Invalid request body");
    }
    let current = store.get(&created.id).unwrap();
    assert_eq!(current.task, "x");
    assert!(!current.completed);
}

#[test]
fn handlers_answer_missing_ids_with_not_found() {
    let mut store = Store::new();
    store.create("present");

    let fetched = get_todo_by_id(&store, "no-such-id");
    assert_eq!(fetched.status, 404);
    assert_eq!(fetched.body, "Todo not found");

    let updated = update_todo(
        &mut store,
        "no-such-id",
        "{\"todo\":{\"task\":\"a\",\"completed\":true}}",
    );
    assert_eq!(updated.status, 404);
    assert_eq!(updated.body, "Todo not found");

    let deleted = delete_todo(&mut store, "no-such-id");
    assert_eq!(deleted.status, 404);
    assert_eq!(deleted.body, "Todo not found");

    assert_eq!(store.list().len(), 1);
}

#[test]
fn created_id_looks_like_a_uuid() {
    let mut store = Store::new();
    let created = store.create("x");
    assert_eq!(created.id.chars().count(), 36);
    let parsed = uuid::Uuid::parse_str(&created.id).expect("id must be a uuid");
    assert_eq!(parsed.get_version_num(), 4);
}
