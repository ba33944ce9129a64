use std::collections::HashSet;
use std::sync::{Arc, Mutex};

use printer_bridge::models::api::ApiPrinter;
use printer_bridge::models::{Config, Printer};
use printer_bridge::printer_storage::{
    merge_discovered, new_printer_ids, printers_have_changed, save_printers_if_changed, PrinterMap,
};
use printer_bridge::printer_sync::{
    created_printer_id, delete_outcome_is_success, filter_shadow_queues, is_shadow_queue_name,
    plan_sync, resolve_remote_identity, restore_failed_delete,
};

fn printer(stable_id: &str, display_name: &str, remote_id: Option<u32>) -> Printer {
    Printer {
        display_name: display_name.to_string(),
        stable_id: stable_id.to_string(),
        uri: format!("ipp://host/{}", stable_id),
        description: format!("{} queue", display_name),
        location: "office".to_string(),
        driver_info: "Generic Driver".to_string(),
        media_sizes: vec!["A4".to_string(), "Letter".to_string()],
        remote_id,
    }
}

fn remote_record(id: u32, name: &str, system_name: Option<&str>) -> ApiPrinter {
    ApiPrinter {
        id: Some(id),
        name: name.to_string(),
        system_name: system_name.map(|s| s.to_string()),
        uri: None,
        location: Some("office".to_string()),
        make_and_model: Some("Generic Driver".to_string()),
        media_sizes: vec!["A4".to_string()],
        spooler_name: "inst".to_string(),
        is_active: Some(true),
    }
}

fn map_of(printers: Vec<Printer>) -> PrinterMap {
    let mut m = PrinterMap::new();
    for p in printers {
        m.push_new(p);
    }
    m
}

#[test]
fn test_check_for_new_printers() {
    // In this simplified test, we're just checking that we can create the
    // required data structures, without actually calling the function
    let _printers_data = Arc::new(Mutex::new(HashSet::<String>::new()));
    let _config = Arc::new(Mutex::new(Config::default()));

    println!("Created printer data structures for testing");

    // Just verify we can get this far without errors
    assert!(true);
}

#[test]
fn test_idempotent_sync_second_pass_is_empty() {
    let local = map_of(vec![printer("q-a", "Printer A", None), printer("q-b", "Printer B", None)]);
    let synced = PrinterMap::new();
    let remote = vec![
        remote_record(11, "Printer A", Some("q-a")),
        remote_record(12, "Printer B", Some("q-b")),
    ];

    let first = plan_sync(&local, &synced, &remote);
    assert!(first.creates.is_empty());
    assert!(first.deletes.is_empty());
    assert_eq!(first.resolved.len(), 2);
    assert_eq!(first.resolved.get(&"q-a".to_string()).unwrap().remote_id, Some(11));
    assert_eq!(first.resolved.get(&"q-b".to_string()).unwrap().remote_id, Some(12));

    // The second pass starts from the map the first one produced.
    let second = plan_sync(&local, &first.resolved, &remote);
    assert!(second.creates.is_empty());
    assert!(second.updates.is_empty());
    assert!(second.deletes.is_empty());
    // The persisted write is skipped: nothing changed.
    assert!(!printers_have_changed(&second.resolved, &first.resolved));
    assert!(!save_printers_if_changed(&second.resolved, &first.resolved));
}

#[test]
fn test_stable_id_precedence_over_legacy_name() {
    // One record matches by stable id, a legacy record shares the display
    // name: the stable-id match wins and nothing is duplicated.
    let local = map_of(vec![printer("q-a", "Printer A", None)]);
    let synced = PrinterMap::new();
    let remote = vec![
        remote_record(77, "Printer A", None),
        remote_record(11, "Printer A", Some("q-a")),
    ];

    let (rid, legacy) = resolve_remote_identity(local.entry_at(0), &remote, &synced);
    assert_eq!(rid, Some(11));
    assert!(!legacy);

    let plan = plan_sync(&local, &synced, &remote);
    assert!(plan.creates.is_empty());
    assert!(plan.updates.is_empty());
    assert_eq!(plan.resolved.len(), 1);
    assert_eq!(plan.resolved.get(&"q-a".to_string()).unwrap().remote_id, Some(11));
}

#[test]
fn test_removal_correctness() {
    // Local printers {A, B}, synced map {A, B, C}: exactly C is deleted.
    let local = map_of(vec![printer("q-a", "Printer A", Some(1)), printer("q-b", "Printer B", Some(2))]);
    let synced = map_of(vec![
        printer("q-a", "Printer A", Some(1)),
        printer("q-b", "Printer B", Some(2)),
        printer("q-c", "Printer C", Some(3)),
    ]);
    let remote = vec![
        remote_record(1, "Printer A", Some("q-a")),
        remote_record(2, "Printer B", Some("q-b")),
        remote_record(3, "Printer C", Some("q-c")),
    ];

    let plan = plan_sync(&local, &synced, &remote);
    assert_eq!(plan.deletes.len(), 1);
    assert_eq!(plan.deletes[0].stable_id, "q-c");
    assert_eq!(plan.deletes[0].remote_id, Some(3));

    // A 404 on that delete is success: the record was already gone.
    assert!(delete_outcome_is_success(404));
    assert!(delete_outcome_is_success(200));
    assert!(delete_outcome_is_success(204));
    assert!(!delete_outcome_is_success(500));
    assert!(!delete_outcome_is_success(401));
}

#[test]
fn test_failed_delete_stays_a_removal_candidate() {
    let local = map_of(vec![printer("q-a", "Printer A", Some(1))]);
    let synced = map_of(vec![
        printer("q-a", "Printer A", Some(1)),
        printer("q-c", "Printer C", Some(3)),
    ]);
    let remote = vec![remote_record(1, "Printer A", Some("q-a"))];

    let plan = plan_sync(&local, &synced, &remote);
    assert_eq!(plan.deletes.len(), 1);

    // The delete came back 500: the entry is kept for the next pass.
    let mut resolved = plan.resolved;
    assert!(!delete_outcome_is_success(500));
    restore_failed_delete(&mut resolved, &plan.deletes[0]);
    assert_eq!(resolved.len(), 2);

    let next = plan_sync(&local, &resolved, &remote);
    assert_eq!(next.deletes.len(), 1);
    assert_eq!(next.deletes[0].stable_id, "q-c");
}

#[test]
fn test_legacy_match_forces_update() {
    // A remote record without a stable id, matched by display name, is
    // updated even though every comparable field is identical.
    let local = map_of(vec![printer("q-a", "Printer A", None)]);
    let synced = map_of(vec![printer("q-a", "Printer A", Some(40))]);
    let remote = vec![remote_record(40, "Printer A", None)];

    let (rid, legacy) = resolve_remote_identity(local.entry_at(0), &remote, &synced);
    assert_eq!(rid, Some(40));
    assert!(legacy);

    let plan = plan_sync(&local, &synced, &remote);
    assert!(plan.creates.is_empty());
    assert_eq!(plan.updates.len(), 1);
    assert_eq!(plan.updates[0].stable_id, "q-a");
}

#[test]
fn test_unmatched_printer_is_created_and_id_folded_in() {
    let local = map_of(vec![printer("q-new", "Fresh Printer", None)]);
    let synced = PrinterMap::new();
    let remote: Vec<ApiPrinter> = Vec::new();

    let plan = plan_sync(&local, &synced, &remote);
    assert_eq!(plan.creates.len(), 1);
    assert_eq!(plan.creates[0].stable_id, "q-new");
    assert_eq!(plan.creates[0].remote_id, None);

    // The create succeeded remotely and returned id 99.
    let mut resolved = plan.resolved;
    resolved.set_remote_id(&"q-new".to_string(), 99);
    assert_eq!(resolved.get(&"q-new".to_string()).unwrap().remote_id, Some(99));
}

#[test]
fn test_changed_fields_drive_update() {
    let mut changed = printer("q-a", "Printer A", None);
    changed.location = "upstairs".to_string();
    let local = map_of(vec![changed]);
    let synced = map_of(vec![printer("q-a", "Printer A", Some(5))]);
    let remote = vec![remote_record(5, "Printer A", Some("q-a"))];

    let plan = plan_sync(&local, &synced, &remote);
    assert!(plan.creates.is_empty());
    assert_eq!(plan.updates.len(), 1);
    assert_eq!(plan.updates[0].location, "upstairs");
    assert_eq!(plan.updates[0].remote_id, Some(5));
}

#[test]
fn test_shadow_queues_are_excluded() {
    assert!(is_shadow_queue_name("Laser @ printhost"));
    assert!(is_shadow_queue_name("queue@host"));
    assert!(!is_shadow_queue_name("plain-queue"));

    let discovered = vec![
        printer("real-queue", "Real", None),
        printer("copy@server", "Shadow", None),
    ];
    let kept = filter_shadow_queues(discovered);
    assert_eq!(kept.len(), 1);
    assert_eq!(kept[0].stable_id, "real-queue");
}

#[test]
fn test_merge_discovered_carries_remote_ids() {
    let saved = map_of(vec![printer("q-a", "Printer A", Some(7))]);
    let discovered = vec![printer("q-a", "Printer A", None), printer("q-b", "Printer B", None)];
    let merged = merge_discovered(&discovered, &saved);
    assert_eq!(merged.len(), 2);
    assert_eq!(merged.get(&"q-a".to_string()).unwrap().remote_id, Some(7));
    assert_eq!(merged.get(&"q-b".to_string()).unwrap().remote_id, None);

    let fresh = new_printer_ids(&merged, &saved);
    assert_eq!(fresh, vec!["q-b".to_string()]);
}

#[test]
fn test_printers_have_changed() {
    let a = map_of(vec![printer("q-a", "Printer A", Some(1))]);
    let same = map_of(vec![printer("q-a", "Printer A", Some(1))]);
    assert!(!printers_have_changed(&a, &same));

    let mut renamed_entry = printer("q-a", "Printer A", Some(1));
    renamed_entry.description = "other".to_string();
    let renamed = map_of(vec![renamed_entry]);
    assert!(printers_have_changed(&a, &renamed));

    let bigger = map_of(vec![printer("q-a", "Printer A", Some(1)), printer("q-b", "B", None)]);
    assert!(printers_have_changed(&bigger, &a));
    assert!(save_printers_if_changed(&bigger, &a));
}

#[test]
fn test_outgoing_record_substitutes_default_media_size() {
    let mut p = printer("q-a", "Printer A", Some(4));
    p.media_sizes = Vec::new();
    let record = p.to_api(&"my-instance".to_string());
    assert_eq!(record.media_sizes, vec!["A4".to_string()]);
    assert_eq!(record.spooler_name, "my-instance");
    assert_eq!(record.system_name, Some("q-a".to_string()));
    assert_eq!(record.id, Some(4));
    assert_eq!(record.is_active, Some(true));

    let q = printer("q-b", "Printer B", None);
    let full = q.to_api(&"my-instance".to_string());
    assert_eq!(full.media_sizes, vec!["A4".to_string(), "Letter".to_string()]);
    assert_eq!(full.id, None);
}

#[test]
fn test_incoming_record_falls_back_to_display_name() {
    let legacy = remote_record(3, "Old Printer", None);
    let p = legacy.to_printer();
    assert_eq!(p.stable_id, "Old Printer");
    assert_eq!(p.display_name, "Old Printer");
    assert_eq!(p.remote_id, Some(3));

    let modern = remote_record(4, "New Printer", Some("q-new"));
    let q = modern.to_printer();
    assert_eq!(q.stable_id, "q-new");
    assert_eq!(q.driver_info, "Generic Driver");
}

#[test]
fn test_created_printer_id_extraction() {
    assert_eq!(created_printer_id("{\"data\":{\"id\":99}}"), Some(99));
    assert_eq!(created_printer_id("{\"data\":{\"id\":\"99\"}}"), None);
    assert_eq!(created_printer_id("{\"data\":{}}"), None);
    assert_eq!(created_printer_id("no json here"), None);
    assert_eq!(created_printer_id("{\"data\":{\"id\":4294967296}}"), None);
}

#[test]
fn test_full_discovery_pass_pipeline() {
    // Discovery reports a real queue, a shadow copy, and a duplicate; the
    // saved map knows the real queue's remote identity.
    let discovered = vec![
        printer("q-a", "Printer A", None),
        printer("copy@host", "Shadow", None),
        printer("q-a", "Printer A", None),
        printer("q-b", "Printer B", None),
    ];
    let saved = map_of(vec![printer("q-a", "Printer A", Some(8))]);

    let kept = filter_shadow_queues(discovered);
    let local = merge_discovered(&kept, &saved);
    assert_eq!(local.len(), 2);
    assert_eq!(local.get(&"q-a".to_string()).unwrap().remote_id, Some(8));

    let remote = vec![remote_record(8, "Printer A", Some("q-a"))];
    let plan = plan_sync(&local, &saved, &remote);
    // Printer B is new everywhere: created. Printer A is unchanged.
    assert_eq!(plan.creates.len(), 1);
    assert_eq!(plan.creates[0].stable_id, "q-b");
    assert!(plan.updates.is_empty());
    assert!(plan.deletes.is_empty());
}

#[test]
fn test_resolution_falls_back_to_synced_map() {
    // No remote record matches, but the synced map remembers the identity.
    let local = map_of(vec![printer("q-a", "Printer A", None)]);
    let synced = map_of(vec![printer("q-a", "Printer A", Some(33))]);
    let remote: Vec<ApiPrinter> = Vec::new();

    let (rid, legacy) = resolve_remote_identity(local.entry_at(0), &remote, &synced);
    assert_eq!(rid, Some(33));
    assert!(!legacy);

    let plan = plan_sync(&local, &synced, &remote);
    assert!(plan.creates.is_empty());
    assert!(plan.updates.is_empty());
    assert_eq!(plan.resolved.get(&"q-a".to_string()).unwrap().remote_id, Some(33));
}
