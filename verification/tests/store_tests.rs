//! Behaviour of the store: the endpoint operations on customers and
//! their opportunities.

use basic_crm::data::ApiError;
use basic_crm::data::CustomerSortField;
use basic_crm::data::CustomersQueryParams;
use basic_crm::data::Id;
use basic_crm::data::Opportunity;
use basic_crm::data::SortDirection;
use basic_crm::store::CrmStore;

const TEST_EMAIL_DOMAIN: &str = "@test_email.com";

fn opportunity(name: &str, status: &str) -> Opportunity {
    Opportunity {
        id: Id::nil(),
        name: name.to_string(),
        status: status.to_string(),
        created: 0,
    }
}

fn store_with_customer(name: &str) -> (CrmStore, Id) {
    let mut store = CrmStore::new();
    let customer = store
        .add_customer(
            name.to_string(),
            format!("{}{}", name, TEST_EMAIL_DOMAIN),
            "Active".to_string(),
        )
        .expect("Failed to add");
    (store, customer.id)
}

#[test]
fn customers_should_return_result() {
    let mut store = CrmStore::new();
    for name in ["Ada", "Bert", "Cleo"] {
        store
            .add_customer(
                name.to_string(),
                format!("{}{}", name, TEST_EMAIL_DOMAIN),
                "Active".to_string(),
            )
            .expect("Failed to add");
    }
    let result = store.customers(&CustomersQueryParams {
        sort: CustomerSortField::Created,
        direction: SortDirection::Desc,
        offset: 0,
        limit: 2,
    });
    assert_eq!(result.len(), 2);
}

#[test]
fn add_and_remove_valid_customer_should_succeed() {
    let mut store = CrmStore::new();
    let random_string = "k3qzr8wdm2apv5tx";
    let customer = store
        .add_customer(
            format!("Test {}", random_string),
            format!("{}{}", random_string, TEST_EMAIL_DOMAIN),
            "Active".to_string(),
        )
        .expect("Failed to add");
    let remove = store.remove_customer(customer.id);
    assert_eq!(true, remove.is_ok());
}

#[test]
fn add_valid_opportunity_should_succeed() {
    let mut store = CrmStore::new();
    let random_string = "k3qzr8wdm2apv5tx";
    let customer = store
        .add_customer(
            format!("Test {}", random_string),
            format!("{}{}", random_string, TEST_EMAIL_DOMAIN),
            "Active".to_string(),
        )
        .expect("Failed to add");
    let response = store.add_opportunity(
        customer.id,
        opportunity(&format!("Opportunity {}", random_string), "New"),
    );
    assert!(response.is_ok());
    let results = store.opportunities(customer.id);
    assert_eq!(1, results.len());
    assert_eq!(
        format!("Opportunity {}", random_string),
        results.first().unwrap().name
    );
}

#[test]
fn add_invalid_opportunity_should_fail() {
    let mut store = CrmStore::new();
    let random_string = "k3qzr8wdm2apv5tx";
    let customer = store
        .add_customer(
            format!("Test {}", random_string),
            format!("{}{}", random_string, TEST_EMAIL_DOMAIN),
            "Active".to_string(),
        )
        .expect("Failed to add");
    let response = store.add_opportunity(
        customer.id,
        opportunity(&format!("Opportunity {}", random_string), "InvalidStatus"),
    );
    assert_eq!(response, Err(ApiError::ValidationError));
}

#[test]
fn short_name_is_rejected_and_not_listed() {
    let (mut store, id) = store_with_customer("Acme");
    let response = store.add_opportunity(id, opportunity("ab", "New"));
    assert_eq!(response, Err(ApiError::ValidationError));
    assert_eq!(store.opportunities(id).len(), 0);
}

#[test]
fn long_name_is_rejected_and_not_listed() {
    let (mut store, id) = store_with_customer("Acme");
    let response = store.add_opportunity(id, opportunity(&"a".repeat(301), "New"));
    assert_eq!(response, Err(ApiError::ValidationError));
    assert_eq!(store.opportunities(id).len(), 0);
}

#[test]
fn boundary_name_lengths_are_accepted() {
    let (mut store, id) = store_with_customer("Acme");
    assert!(store.add_opportunity(id, opportunity("abc", "New")).is_ok());
    assert!(store
        .add_opportunity(id, opportunity(&"a".repeat(300), "ClosedWon"))
        .is_ok());
    assert_eq!(store.opportunities(id).len(), 2);
}

#[test]
fn every_status_label_is_accepted() {
    let (mut store, id) = store_with_customer("Acme");
    for status in ["New", "ClosedWon", "ClosedLost"] {
        assert!(store
            .add_opportunity(id, opportunity("A fair deal", status))
            .is_ok());
    }
    assert_eq!(store.opportunities(id).len(), 3);
}

#[test]
fn unknown_status_is_rejected() {
    let (mut store, id) = store_with_customer("Acme");
    let response = store.add_opportunity(id, opportunity("A fair deal", "Open"));
    assert_eq!(response, Err(ApiError::ValidationError));
    assert_eq!(store.opportunities(id).len(), 0);
}

#[test]
fn add_opportunity_for_missing_customer_is_not_found() {
    let (mut store, _) = store_with_customer("Acme");
    let absent = Id { hi: 7, lo: 9 };
    let response = store.add_opportunity(absent, opportunity("A fair deal", "New"));
    assert_eq!(response, Err(ApiError::NotFoundError));
}

#[test]
fn update_with_mismatched_id_is_rejected_without_mutation() {
    let (mut store, id) = store_with_customer("Acme");
    store
        .add_opportunity(id, opportunity("First deal", "New"))
        .expect("Failed to add");
    let stored = store.opportunities(id);
    let oid = stored.first().unwrap().id;
    let mut payload = opportunity("Renamed deal", "ClosedWon");
    payload.id = Id { hi: 0, lo: 999 };
    let response = store.update_opportunity(id, oid, payload);
    assert_eq!(response, Err(ApiError::ValidationError));
    let after = store.opportunities(id);
    assert_eq!(after.len(), 1);
    assert_eq!(after.first().unwrap().name, "First deal");
    assert_eq!(after.first().unwrap().status, "New");
}

#[test]
fn update_changes_name_and_status_only() {
    let (mut store, id) = store_with_customer("Acme");
    store
        .add_opportunity(id, opportunity("First deal", "New"))
        .expect("Failed to add");
    let before = store.opportunities(id);
    let oid = before.first().unwrap().id;
    let created = before.first().unwrap().created;
    let mut payload = opportunity("Renamed deal", "ClosedWon");
    payload.id = oid;
    assert!(store.update_opportunity(id, oid, payload).is_ok());
    let after = store.opportunities(id);
    assert_eq!(after.len(), 1);
    assert_eq!(after.first().unwrap().name, "Renamed deal");
    assert_eq!(after.first().unwrap().status, "ClosedWon");
    assert_eq!(after.first().unwrap().id, oid);
    assert_eq!(after.first().unwrap().created, created);
}

#[test]
fn update_of_missing_opportunity_is_not_found() {
    let (mut store, id) = store_with_customer("Acme");
    let absent = Id { hi: 0, lo: 424242 };
    let mut payload = opportunity("Renamed deal", "ClosedWon");
    payload.id = absent;
    let response = store.update_opportunity(id, absent, payload);
    assert_eq!(response, Err(ApiError::NotFoundError));
}

#[test]
fn update_of_invalid_payload_is_rejected() {
    let (mut store, id) = store_with_customer("Acme");
    store
        .add_opportunity(id, opportunity("First deal", "New"))
        .expect("Failed to add");
    let oid = store.opportunities(id).first().unwrap().id;
    let mut payload = opportunity("ab", "New");
    payload.id = oid;
    assert_eq!(
        store.update_opportunity(id, oid, payload),
        Err(ApiError::ValidationError)
    );
    assert_eq!(store.opportunities(id).first().unwrap().name, "First deal");
}

#[test]
fn delete_of_missing_opportunity_succeeds() {
    let (mut store, id) = store_with_customer("Acme");
    store
        .add_opportunity(id, opportunity("First deal", "New"))
        .expect("Failed to add");
    let absent = Id { hi: 0, lo: 424242 };
    assert!(store.delete_opportunity(id, absent).is_ok());
    assert_eq!(store.opportunities(id).len(), 1);
}

#[test]
fn delete_removes_exactly_the_addressed_opportunity() {
    let (mut store, id) = store_with_customer("Acme");
    store
        .add_opportunity(id, opportunity("First deal", "New"))
        .expect("Failed to add");
    store
        .add_opportunity(id, opportunity("Second deal", "ClosedLost"))
        .expect("Failed to add");
    let listing = store.opportunities(id);
    let target = listing.last().unwrap().id;
    assert!(store.delete_opportunity(id, target).is_ok());
    let after = store.opportunities(id);
    assert_eq!(after.len(), 1);
    assert_eq!(after.first().unwrap().name, "Second deal");
    assert!(store.delete_opportunity(id, target).is_ok());
    assert_eq!(store.opportunities(id).len(), 1);
}

#[test]
fn missing_customer_is_not_found_never_default() {
    let (store, id) = store_with_customer("Acme");
    let absent = Id { hi: 3, lo: 14 };
    assert_eq!(store.customer(absent).err(), Some(ApiError::NotFoundError));
    let found = store.customer(id).expect("should exist");
    assert_eq!(found.name, "Acme");
    assert_eq!(found.id, id);
}

#[test]
fn opportunities_are_listed_newest_first() {
    let (mut store, id) = store_with_customer("Acme");
    for name in ["Oldest deal", "Middle deal", "Newest deal"] {
        store
            .add_opportunity(id, opportunity(name, "New"))
            .expect("Failed to add");
    }
    let listing = store.opportunities(id);
    let names: Vec<&str> = listing.iter().map(|o| o.name.as_str()).collect();
    assert_eq!(names, vec!["Newest deal", "Middle deal", "Oldest deal"]);
    for pair in listing.windows(2) {
        assert!(pair[0].created > pair[1].created);
    }
}

#[test]
fn listings_are_scoped_to_the_owning_customer() {
    let mut store = CrmStore::new();
    let first = store
        .add_customer("Acme".to_string(), "acme@test_email.com".to_string(), "Active".to_string())
        .expect("Failed to add");
    let second = store
        .add_customer("Borg".to_string(), "borg@test_email.com".to_string(), "Active".to_string())
        .expect("Failed to add");
    store
        .add_opportunity(first.id, opportunity("Acme deal", "New"))
        .expect("Failed to add");
    store
        .add_opportunity(second.id, opportunity("Borg deal", "New"))
        .expect("Failed to add");
    let listing = store.opportunities(first.id);
    assert_eq!(listing.len(), 1);
    assert_eq!(listing.first().unwrap().name, "Acme deal");
}

#[test]
fn customers_page_is_sorted_by_created_descending() {
    let mut store = CrmStore::new();
    for name in ["Ada", "Bert", "Cleo"] {
        store
            .add_customer(
                name.to_string(),
                format!("{}{}", name, TEST_EMAIL_DOMAIN),
                "Active".to_string(),
            )
            .expect("Failed to add");
    }
    let page = store.customers(&CustomersQueryParams {
        sort: CustomerSortField::Created,
        direction: SortDirection::Desc,
        offset: 0,
        limit: 2,
    });
    assert_eq!(page.len(), 2);
    assert!(page[0].created >= page[1].created);
    assert_eq!(page[0].name, "Cleo");
    assert_eq!(page[1].name, "Bert");
}

#[test]
fn customers_sort_by_name_in_both_directions() {
    let mut store = CrmStore::new();
    for name in ["Bert", "Ada", "Cleo"] {
        store
            .add_customer(
                name.to_string(),
                format!("{}{}", name, TEST_EMAIL_DOMAIN),
                "Active".to_string(),
            )
            .expect("Failed to add");
    }
    let asc = store.customers(&CustomersQueryParams {
        sort: CustomerSortField::Name,
        direction: SortDirection::Asc,
        offset: 0,
        limit: 10,
    });
    let names: Vec<&str> = asc.iter().map(|c| c.name.as_str()).collect();
    assert_eq!(names, vec!["Ada", "Bert", "Cleo"]);
    let desc = store.customers(&CustomersQueryParams {
        sort: CustomerSortField::Name,
        direction: SortDirection::Desc,
        offset: 0,
        limit: 10,
    });
    let names: Vec<&str> = desc.iter().map(|c| c.name.as_str()).collect();
    assert_eq!(names, vec!["Cleo", "Bert", "Ada"]);
}

#[test]
fn customers_offset_skips_the_start_of_the_page() {
    let mut store = CrmStore::new();
    for name in ["Ada", "Bert", "Cleo"] {
        store
            .add_customer(
                name.to_string(),
                format!("{}{}", name, TEST_EMAIL_DOMAIN),
                "Active".to_string(),
            )
            .expect("Failed to add");
    }
    let page = store.customers(&CustomersQueryParams {
        sort: CustomerSortField::Name,
        direction: SortDirection::Asc,
        offset: 2,
        limit: 5,
    });
    assert_eq!(page.len(), 1);
    assert_eq!(page[0].name, "Cleo");
    let beyond = store.customers(&CustomersQueryParams {
        sort: CustomerSortField::Name,
        direction: SortDirection::Asc,
        offset: 9,
        limit: 5,
    });
    assert_eq!(beyond.len(), 0);
}

#[test]
fn removing_a_customer_removes_its_opportunities() {
    let (mut store, id) = store_with_customer("Acme");
    store
        .add_opportunity(id, opportunity("First deal", "New"))
        .expect("Failed to add");
    assert!(store.remove_customer(id).is_ok());
    assert_eq!(store.customer(id).err(), Some(ApiError::NotFoundError));
    assert_eq!(store.opportunities(id).len(), 0);
    assert_eq!(store.remove_customer(id), Err(ApiError::NotFoundError));
}
