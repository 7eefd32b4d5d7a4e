use event_registry::model::{
    EventTypeIn, EventTypeUpdate, ListFetchOptions, RegistryError,
};
use event_registry::patch::{EventTypePatch, FieldPatch};
use event_registry::registry::{generate_schema_example, Registry};
use event_registry::visibility::AllowedFeatureFlags;

fn b(s: &str) -> Vec<u8> {
    s.as_bytes().to_vec()
}

fn input(name: &str, description: &str) -> EventTypeIn {
    EventTypeIn {
        name: b(name),
        description: b(description),
        deleted: false,
        schemas: None,
        feature_flag: None,
    }
}

fn no_patch() -> EventTypePatch {
    EventTypePatch {
        description: FieldPatch::Absent,
        deleted: FieldPatch::Absent,
        schemas: FieldPatch::Absent,
        feature_flag: FieldPatch::Absent,
    }
}

fn default_options() -> ListFetchOptions {
    ListFetchOptions { include_archived: false, with_content: false }
}

#[test]
fn test_list_fetch_options_default() {
    let l = ListFetchOptions::default();
    assert!(!l.include_archived);
    assert!(!l.with_content);
}

#[test]
fn create_then_get_round_trip() {
    let mut reg = Registry::new();
    let tenant = b("org_1");
    let mut data = input("user.created", "a user was created");
    data.schemas = Some(b("{\"type\":\"object\"}"));
    data.feature_flag = Some(b("beta"));
    let created = reg.create_event_type(&tenant, &data, 100).unwrap();
    assert_eq!(created.name, b("user.created"));
    assert_eq!(created.created_at, 100);
    assert_eq!(created.updated_at, 100);

    let got = reg
        .get_event_type(&tenant, &b("user.created"), &AllowedFeatureFlags::All)
        .unwrap();
    assert_eq!(got.name, data.name);
    assert_eq!(got.description, data.description);
    assert_eq!(got.deleted, false);
    assert_eq!(got.schemas, data.schemas);
    assert_eq!(got.feature_flag, data.feature_flag);
    assert_eq!(got.created_at, 100);
    assert_eq!(got.updated_at, 100);
}

#[test]
fn list_strips_schema_unless_content_requested() {
    let mut reg = Registry::new();
    let tenant = b("org_1");
    let mut data = input("invoice.paid", "an invoice was paid");
    data.schemas = Some(b("{\"type\":\"object\"}"));
    reg.create_event_type(&tenant, &data, 1).unwrap();

    let stripped = reg.list_event_types(
        &tenant,
        &None,
        50,
        &default_options(),
        &AllowedFeatureFlags::All,
    );
    assert_eq!(stripped.data.len(), 1);
    assert_eq!(stripped.data[0].schemas, None);

    let with_content = ListFetchOptions { include_archived: false, with_content: true };
    let full = reg.list_event_types(&tenant, &None, 50, &with_content, &AllowedFeatureFlags::All);
    assert_eq!(full.data.len(), 1);
    assert_eq!(full.data[0].schemas, Some(b("{\"type\":\"object\"}")));
}

#[test]
fn patch_is_idempotent() {
    let mut reg = Registry::new();
    let tenant = b("org_1");
    let mut data = input("user.deleted", "first text");
    data.schemas = Some(b("{}"));
    reg.create_event_type(&tenant, &data, 1).unwrap();

    let patch = EventTypePatch {
        description: FieldPatch::Value(b("second text")),
        deleted: FieldPatch::Absent,
        schemas: FieldPatch::Null,
        feature_flag: FieldPatch::Value(b("gated")),
    };
    let first = reg.patch_event_type(&tenant, &b("user.deleted"), &patch, 7).unwrap();
    let second = reg.patch_event_type(&tenant, &b("user.deleted"), &patch, 7).unwrap();
    assert_eq!(first.description, second.description);
    assert_eq!(first.deleted, second.deleted);
    assert_eq!(first.schemas, second.schemas);
    assert_eq!(first.feature_flag, second.feature_flag);
    assert_eq!(first.created_at, second.created_at);
    assert_eq!(first.updated_at, second.updated_at);
    assert_eq!(second.description, b("second text"));
    assert_eq!(second.schemas, None);
    assert_eq!(second.feature_flag, Some(b("gated")));
}

#[test]
fn explicit_null_description_is_rejected_and_record_unchanged() {
    let mut reg = Registry::new();
    let tenant = b("org_1");
    reg.create_event_type(&tenant, &input("user.created", "keep me"), 1).unwrap();

    let mut patch = no_patch();
    patch.description = FieldPatch::Null;
    patch.schemas = FieldPatch::Value(b("{}"));
    let err = reg.patch_event_type(&tenant, &b("user.created"), &patch, 2).unwrap_err();
    assert_eq!(err, RegistryError::Validation);

    let got = reg
        .get_event_type(&tenant, &b("user.created"), &AllowedFeatureFlags::All)
        .unwrap();
    assert_eq!(got.description, b("keep me"));
    assert_eq!(got.schemas, None);
    assert_eq!(got.updated_at, 1);
}

#[test]
fn explicit_null_archived_is_rejected() {
    let mut reg = Registry::new();
    let tenant = b("org_1");
    reg.create_event_type(&tenant, &input("user.created", "d"), 1).unwrap();
    let mut patch = no_patch();
    patch.deleted = FieldPatch::Null;
    let err = reg.patch_event_type(&tenant, &b("user.created"), &patch, 2).unwrap_err();
    assert_eq!(err, RegistryError::Validation);
}

#[test]
fn explicit_null_schema_clears_it() {
    let mut reg = Registry::new();
    let tenant = b("org_1");
    let mut data = input("user.created", "d");
    data.schemas = Some(b("{\"a\":1}"));
    reg.create_event_type(&tenant, &data, 1).unwrap();

    let mut patch = no_patch();
    patch.schemas = FieldPatch::Null;
    let out = reg.patch_event_type(&tenant, &b("user.created"), &patch, 2).unwrap();
    assert_eq!(out.schemas, None);
    assert_eq!(out.description, b("d"));
    assert_eq!(out.updated_at, 2);
}

#[test]
fn omitted_patch_fields_change_nothing() {
    let mut reg = Registry::new();
    let tenant = b("org_1");
    let mut data = input("user.created", "d");
    data.schemas = Some(b("{}"));
    data.feature_flag = Some(b("flag_a"));
    reg.create_event_type(&tenant, &data, 1).unwrap();

    let out = reg.patch_event_type(&tenant, &b("user.created"), &no_patch(), 9).unwrap();
    assert_eq!(out.description, b("d"));
    assert_eq!(out.deleted, false);
    assert_eq!(out.schemas, Some(b("{}")));
    assert_eq!(out.feature_flag, Some(b("flag_a")));
    assert_eq!(out.created_at, 1);
    assert_eq!(out.updated_at, 9);
}

#[test]
fn patch_can_set_and_unset_archived() {
    let mut reg = Registry::new();
    let tenant = b("org_1");
    reg.create_event_type(&tenant, &input("user.created", "d"), 1).unwrap();
    let mut patch = no_patch();
    patch.deleted = FieldPatch::Value(true);
    let out = reg.patch_event_type(&tenant, &b("user.created"), &patch, 2).unwrap();
    assert!(out.deleted);
    let mut patch2 = no_patch();
    patch2.deleted = FieldPatch::Value(false);
    let out2 = reg.patch_event_type(&tenant, &b("user.created"), &patch2, 3).unwrap();
    assert!(!out2.deleted);
}

#[test]
fn pagination_walks_every_record_once_in_order() {
    let mut reg = Registry::new();
    let tenant = b("org_1");
    let names = ["alpha", "bravo", "charlie", "delta", "echo"];
    // insert out of order to exercise the sorted store
    for name in ["delta", "alpha", "echo", "charlie", "bravo"] {
        reg.create_event_type(&tenant, &input(name, "d"), 1).unwrap();
    }

    let mut seen: Vec<Vec<u8>> = Vec::new();
    let mut cursor: Option<Vec<u8>> = None;
    let mut pages = 0;
    loop {
        let page = reg.list_event_types(
            &tenant,
            &cursor,
            2,
            &default_options(),
            &AllowedFeatureFlags::All,
        );
        pages += 1;
        for out in &page.data {
            seen.push(out.name.clone());
        }
        if page.done {
            assert_eq!(page.iterator, None);
            break;
        }
        // the cursor is the name of the last record of the page
        assert_eq!(page.iterator.as_ref(), seen.last());
        cursor = page.iterator.clone();
        assert!(pages < 10);
    }
    assert_eq!(pages, 3);
    let expected: Vec<Vec<u8>> = names.iter().map(|n| b(n)).collect();
    assert_eq!(seen, expected);
}

#[test]
fn final_page_exactly_full_has_lookahead_cursor_then_empty_page() {
    let mut reg = Registry::new();
    let tenant = b("org_1");
    reg.create_event_type(&tenant, &input("a.one", "d"), 1).unwrap();
    reg.create_event_type(&tenant, &input("b.two", "d"), 1).unwrap();

    let page = reg.list_event_types(
        &tenant,
        &None,
        2,
        &default_options(),
        &AllowedFeatureFlags::All,
    );
    assert_eq!(page.data.len(), 2);
    assert!(page.done);
    assert_eq!(page.iterator, None);
}

#[test]
fn archive_policy_retains_then_replaces() {
    let mut reg = Registry::new();
    let tenant = b("org_1");
    let mut first = input("user.created", "d1");
    first.schemas = Some(b("{\"v\":1}"));
    reg.create_event_type(&tenant, &first, 10).unwrap();
    reg.delete_event_type(&tenant, &b("user.created"), 20).unwrap();

    let without = reg.list_event_types(
        &tenant,
        &None,
        50,
        &default_options(),
        &AllowedFeatureFlags::All,
    );
    assert_eq!(without.data.len(), 0);

    let with_archived = ListFetchOptions { include_archived: true, with_content: true };
    let with = reg.list_event_types(&tenant, &None, 50, &with_archived, &AllowedFeatureFlags::All);
    assert_eq!(with.data.len(), 1);
    assert!(with.data[0].deleted);
    assert_eq!(with.data[0].description, b("d1"));
    assert_eq!(with.data[0].schemas, Some(b("{\"v\":1}")));

    let mut second = input("user.created", "d2");
    second.schemas = Some(b("{\"v\":2}"));
    let revived = reg.create_event_type(&tenant, &second, 30).unwrap();
    assert_eq!(revived.description, b("d2"));
    assert_eq!(revived.schemas, Some(b("{\"v\":2}")));
    assert!(!revived.deleted);
    // reactivation replaces content but keeps the original creation time
    assert_eq!(revived.created_at, 10);
    assert_eq!(revived.updated_at, 30);

    let got = reg
        .get_event_type(&tenant, &b("user.created"), &AllowedFeatureFlags::All)
        .unwrap();
    assert_eq!(got.description, b("d2"));
    assert_eq!(got.schemas, Some(b("{\"v\":2}")));
}

#[test]
fn feature_flag_gates_visibility() {
    let mut reg = Registry::new();
    let tenant = b("org_1");
    let mut data = input("gated.event", "d");
    data.feature_flag = Some(b("flag_f"));
    reg.create_event_type(&tenant, &data, 1).unwrap();

    let other = AllowedFeatureFlags::Restricted(vec![b("flag_g")]);
    let err = reg.get_event_type(&tenant, &b("gated.event"), &other).unwrap_err();
    assert_eq!(err, RegistryError::NotFound);
    let page = reg.list_event_types(&tenant, &None, 50, &default_options(), &other);
    assert_eq!(page.data.len(), 0);

    let matching = AllowedFeatureFlags::Restricted(vec![b("flag_e"), b("flag_f")]);
    assert!(reg.get_event_type(&tenant, &b("gated.event"), &matching).is_ok());
    let page2 = reg.list_event_types(&tenant, &None, 50, &default_options(), &matching);
    assert_eq!(page2.data.len(), 1);

    assert!(reg
        .get_event_type(&tenant, &b("gated.event"), &AllowedFeatureFlags::All)
        .is_ok());

    // an unflagged record is visible to everyone
    reg.create_event_type(&tenant, &input("open.event", "d"), 1).unwrap();
    assert!(reg.get_event_type(&tenant, &b("open.event"), &other).is_ok());
}

#[test]
fn create_conflict_leaves_record_unmodified() {
    let mut reg = Registry::new();
    let tenant = b("org_1");
    reg.create_event_type(&tenant, &input("user.created", "original"), 1).unwrap();
    let err = reg
        .create_event_type(&tenant, &input("user.created", "intruder"), 2)
        .unwrap_err();
    assert_eq!(err, RegistryError::Conflict);
    let got = reg
        .get_event_type(&tenant, &b("user.created"), &AllowedFeatureFlags::All)
        .unwrap();
    assert_eq!(got.description, b("original"));
    assert_eq!(got.updated_at, 1);
}

#[test]
fn update_upserts_and_replaces() {
    let mut reg = Registry::new();
    let tenant = b("org_1");
    let update = EventTypeUpdate {
        description: b("via put"),
        deleted: false,
        schemas: Some(b("{}")),
        feature_flag: None,
    };
    let (created, out) = reg
        .update_event_type(&tenant, &b("fresh.name"), &update, 5)
        .unwrap();
    assert!(created);
    assert_eq!(out.description, b("via put"));
    assert_eq!(out.created_at, 5);

    let mut data = input("fresh.name", "ignored");
    data.feature_flag = Some(b("flag_x"));
    let err = reg.create_event_type(&tenant, &data, 6).unwrap_err();
    assert_eq!(err, RegistryError::Conflict);

    let update2 = EventTypeUpdate {
        description: b("replaced"),
        deleted: false,
        schemas: None,
        feature_flag: Some(b("flag_y")),
    };
    let (created2, out2) = reg
        .update_event_type(&tenant, &b("fresh.name"), &update2, 7)
        .unwrap();
    assert!(!created2);
    assert_eq!(out2.description, b("replaced"));
    assert_eq!(out2.schemas, None);
    assert_eq!(out2.feature_flag, Some(b("flag_y")));
    assert_eq!(out2.created_at, 5);
    assert_eq!(out2.updated_at, 7);
}

#[test]
fn archive_is_idempotent_and_missing_names_fail() {
    let mut reg = Registry::new();
    let tenant = b("org_1");
    assert_eq!(
        reg.delete_event_type(&tenant, &b("never.here"), 1).unwrap_err(),
        RegistryError::NotFound
    );
    assert_eq!(
        reg.patch_event_type(&tenant, &b("never.here"), &no_patch(), 1).unwrap_err(),
        RegistryError::NotFound
    );
    assert_eq!(
        reg.get_event_type(&tenant, &b("never.here"), &AllowedFeatureFlags::All)
            .unwrap_err(),
        RegistryError::NotFound
    );

    reg.create_event_type(&tenant, &input("user.created", "d"), 1).unwrap();
    reg.delete_event_type(&tenant, &b("user.created"), 2).unwrap();
    reg.delete_event_type(&tenant, &b("user.created"), 3).unwrap();
    let got = reg
        .get_event_type(&tenant, &b("user.created"), &AllowedFeatureFlags::All)
        .unwrap();
    assert!(got.deleted);
    assert_eq!(got.description, b("d"));
}

#[test]
fn validation_rejects_bad_input() {
    let mut reg = Registry::new();
    let tenant = b("org_1");
    assert_eq!(
        reg.create_event_type(&tenant, &input("", "d"), 1).unwrap_err(),
        RegistryError::Validation
    );
    assert_eq!(
        reg.create_event_type(&tenant, &input("bad name", "d"), 1).unwrap_err(),
        RegistryError::Validation
    );
    assert_eq!(
        reg.create_event_type(&tenant, &input("ok.name", "control\x07char"), 1)
            .unwrap_err(),
        RegistryError::Validation
    );
    let mut flagged = input("ok.name", "d");
    flagged.feature_flag = Some(b("bad flag"));
    assert_eq!(
        reg.create_event_type(&tenant, &flagged, 1).unwrap_err(),
        RegistryError::Validation
    );
    let long_name: String = "x".repeat(257);
    assert_eq!(
        reg.create_event_type(&tenant, &input(&long_name, "d"), 1).unwrap_err(),
        RegistryError::Validation
    );
    // nothing was stored
    let page = reg.list_event_types(
        &tenant,
        &None,
        50,
        &default_options(),
        &AllowedFeatureFlags::All,
    );
    assert_eq!(page.data.len(), 0);

    let mut patch = no_patch();
    patch.description = FieldPatch::Value(b("bad\x1fdescription"));
    reg.create_event_type(&tenant, &input("ok.name", "d"), 1).unwrap();
    assert_eq!(
        reg.patch_event_type(&tenant, &b("ok.name"), &patch, 2).unwrap_err(),
        RegistryError::Validation
    );
}

#[test]
fn tenants_are_isolated() {
    let mut reg = Registry::new();
    let org_a = b("org_a");
    let org_b = b("org_b");
    reg.create_event_type(&org_a, &input("shared.name", "from a"), 1).unwrap();
    // the same name under another tenant is no conflict
    reg.create_event_type(&org_b, &input("shared.name", "from b"), 2).unwrap();
    reg.create_event_type(&org_b, &input("only.b", "d"), 3).unwrap();

    let got_a = reg
        .get_event_type(&org_a, &b("shared.name"), &AllowedFeatureFlags::All)
        .unwrap();
    assert_eq!(got_a.description, b("from a"));
    assert_eq!(
        reg.get_event_type(&org_a, &b("only.b"), &AllowedFeatureFlags::All)
            .unwrap_err(),
        RegistryError::NotFound
    );

    let page_a = reg.list_event_types(
        &org_a,
        &None,
        50,
        &default_options(),
        &AllowedFeatureFlags::All,
    );
    assert_eq!(page_a.data.len(), 1);
    let page_b = reg.list_event_types(
        &org_b,
        &None,
        50,
        &default_options(),
        &AllowedFeatureFlags::All,
    );
    assert_eq!(page_b.data.len(), 2);
}

#[test]
fn schema_example_generation_is_not_implemented() {
    let err = generate_schema_example(&b("{\"type\":\"object\"}")).unwrap_err();
    assert_eq!(err, RegistryError::NotImplemented);
}

#[test]
fn create_honours_archived_field_of_input() {
    let mut reg = Registry::new();
    let tenant = b("org_1");
    let mut data = input("born.archived", "d");
    data.deleted = true;
    let out = reg.create_event_type(&tenant, &data, 1).unwrap();
    assert!(out.deleted);
    // archived from birth: invisible to a default list, present to get
    let page = reg.list_event_types(
        &tenant,
        &None,
        50,
        &default_options(),
        &AllowedFeatureFlags::All,
    );
    assert_eq!(page.data.len(), 0);
    assert!(reg
        .get_event_type(&tenant, &b("born.archived"), &AllowedFeatureFlags::All)
        .is_ok());
}
