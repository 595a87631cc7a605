//! Text produced by the library: validation messages, query text, URLs,
//! and the small front-end decisions.

use basic_crm::client::contains_127;
use basic_crm::client::customer_opportunities_path;
use basic_crm::client::customer_opportunity_path;
use basic_crm::client::customer_path;
use basic_crm::client::customers_path;
use basic_crm::client::get_base_url;
use basic_crm::client::modal_label;
use basic_crm::client::modal_visible;
use basic_crm::client::save_request;
use basic_crm::client::selected_option;
use basic_crm::client::sort_direction;
use basic_crm::client::toggle_sort;
use basic_crm::client::SaveAction;
use basic_crm::data::CustomerSortField;
use basic_crm::data::CustomersQueryParams;
use basic_crm::data::Id;
use basic_crm::data::MultiError;
use basic_crm::data::Opportunity;
use basic_crm::data::OpportunityStatus;
use basic_crm::data::SortDirection;
use basic_crm::query::customers_query;
use basic_crm::query::usize_to_string;
use basic_crm::validate::is_valid;
use basic_crm::validate::submit_disabled;
use basic_crm::validate::valid_opportunity_status;
use basic_crm::validate::validation_message;

fn opportunity(name: &str, status: &str) -> Opportunity {
    Opportunity {
        id: Id::nil(),
        name: name.to_string(),
        status: status.to_string(),
        created: 0,
    }
}

#[test]
fn labels_match_the_wire_format() {
    assert_eq!(SortDirection::Asc.as_str(), "asc");
    assert_eq!(SortDirection::Desc.as_str(), "desc");
    assert_eq!(CustomerSortField::Name.as_str(), "name");
    assert_eq!(CustomerSortField::Email.as_str(), "email");
    assert_eq!(CustomerSortField::Status.as_str(), "status");
    assert_eq!(CustomerSortField::Created.as_str(), "created");
    assert_eq!(OpportunityStatus::New.as_str(), "New");
    assert_eq!(OpportunityStatus::ClosedWon.as_str(), "ClosedWon");
    assert_eq!(OpportunityStatus::ClosedLost.as_str(), "ClosedLost");
}

#[test]
fn status_strings_parse_against_the_closed_set() {
    assert!(valid_opportunity_status(&"New".to_string()));
    assert!(valid_opportunity_status(&"ClosedWon".to_string()));
    assert!(valid_opportunity_status(&"ClosedLost".to_string()));
    assert!(!valid_opportunity_status(&"new".to_string()));
    assert!(!valid_opportunity_status(&"InvalidStatus".to_string()));
}

#[test]
fn validation_messages_name_each_broken_rule() {
    let bad = opportunity("ab", "Nope");
    assert_eq!(
        validation_message("name", &bad),
        Some("Must be longer than 3 characters".to_string())
    );
    assert_eq!(
        validation_message("status", &bad),
        Some("Please enter a valid status".to_string())
    );
    assert_eq!(validation_message("created", &bad), None);
    let good = opportunity("A fair deal", "New");
    assert_eq!(validation_message("name", &good), None);
    assert_eq!(validation_message("status", &good), None);
}

#[test]
fn invalid_fields_are_flagged_with_the_danger_class() {
    let bad = opportunity("ab", "New");
    assert_eq!(is_valid("name", &bad), Some("is-danger".to_string()));
    assert_eq!(is_valid("status", &bad), None);
    assert!(submit_disabled(&bad));
    let good = opportunity("A fair deal", "New");
    assert_eq!(is_valid("name", &good), None);
    assert!(!submit_disabled(&good));
}

#[test]
fn numbers_render_in_decimal() {
    assert_eq!(usize_to_string(0), "0");
    assert_eq!(usize_to_string(7), "7");
    assert_eq!(usize_to_string(10), "10");
    assert_eq!(usize_to_string(12345), "12345");
}

#[test]
fn customers_query_interpolates_only_the_closed_labels() {
    let text = customers_query(&CustomersQueryParams {
        sort: CustomerSortField::Created,
        direction: SortDirection::Desc,
        offset: 0,
        limit: 20,
    });
    let expected = format!(
        "select <json>Customer {{
            id,
            name,
            email,
            status,
            created
        }} order by Customer.{} {} offset {} limit {}",
        "created", "desc", 0, 20
    );
    assert_eq!(text, expected);
}

#[test]
fn paths_render_ids_as_hyphenated_uuids() {
    let id = Id {
        hi: 0x0123456789abcdef,
        lo: 0xfedcba9876543210,
    };
    assert_eq!(
        customer_path(&id),
        "/customer/01234567-89ab-cdef-fedc-ba9876543210"
    );
    let expected_uuid = uuid::Uuid::from_u64_pair(id.hi, id.lo).to_string();
    assert_eq!(customer_path(&id), format!("/customer/{}", expected_uuid));
    assert_eq!(
        customer_opportunities_path(&id),
        "/customer/01234567-89ab-cdef-fedc-ba9876543210/opportunities"
    );
    let oid = Id { hi: 0, lo: 1 };
    assert_eq!(
        customer_opportunity_path(&id, &oid),
        "/customer/01234567-89ab-cdef-fedc-ba9876543210/opportunity/00000000-0000-0000-0000-000000000001"
    );
}

#[test]
fn customers_path_carries_the_pagination_query() {
    let path = customers_path(&CustomersQueryParams {
        sort: CustomerSortField::Email,
        direction: SortDirection::Asc,
        offset: 40,
        limit: 20,
    });
    assert_eq!(path, "/customers?sort=email&direction=asc&offset=40&limit=20");
}

#[test]
fn base_url_falls_back_on_loopback_origins() {
    assert_eq!(get_base_url(&None), "http://127.0.0.1:8080/api");
    assert_eq!(
        get_base_url(&Some("http://127.0.0.1:3000".to_string())),
        "http://127.0.0.1:8080/api"
    );
    assert_eq!(
        get_base_url(&Some("https://crm.example".to_string())),
        "https://crm.example/api"
    );
}

#[test]
fn contains_127_finds_the_digits_anywhere() {
    assert!(contains_127("http://127.0.0.1"));
    assert!(contains_127("x127"));
    assert!(!contains_127("12"));
    assert!(!contains_127("http://128.0.0.1"));
    assert!(!contains_127(""));
}

#[test]
fn toggling_a_column_flips_direction_and_rewinds() {
    let current = CustomersQueryParams {
        sort: CustomerSortField::Created,
        direction: SortDirection::Desc,
        offset: 40,
        limit: 20,
    };
    let next = toggle_sort(&current, CustomerSortField::Name);
    assert_eq!(next.sort, CustomerSortField::Name);
    assert_eq!(next.direction, SortDirection::Asc);
    assert_eq!(next.offset, 0);
    assert_eq!(next.limit, 20);
    let again = toggle_sort(&next, CustomerSortField::Name);
    assert_eq!(again.direction, SortDirection::Desc);
}

#[test]
fn sort_direction_marks_only_the_sorted_column() {
    let current = CustomersQueryParams {
        sort: CustomerSortField::Email,
        direction: SortDirection::Asc,
        offset: 0,
        limit: 20,
    };
    assert_eq!(
        sort_direction(&current, CustomerSortField::Email),
        Some(SortDirection::Asc)
    );
    assert_eq!(sort_direction(&current, CustomerSortField::Name), None);
}

#[test]
fn modal_text_follows_the_nil_id_sentinel() {
    assert_eq!(modal_label(&Id { hi: 0, lo: 0 }), "Create");
    assert_eq!(modal_label(&Id { hi: 0, lo: 5 }), "Edit");
    assert_eq!(modal_visible(true), Some("is-active".to_string()));
    assert_eq!(modal_visible(false), None);
}

#[test]
fn selected_option_compares_against_the_stored_status() {
    assert!(selected_option(
        OpportunityStatus::New,
        &"New".to_string()
    ));
    assert!(!selected_option(
        OpportunityStatus::ClosedWon,
        &"New".to_string()
    ));
}

#[test]
fn saving_a_draft_posts_and_saving_a_record_puts() {
    let customer = Id { hi: 0, lo: 2 };
    let draft = opportunity("A fair deal", "New");
    let (action, path) = save_request(&customer, &draft);
    assert_eq!(action, SaveAction::Create);
    assert_eq!(
        path,
        "/customer/00000000-0000-0000-0000-000000000002/opportunities"
    );
    let mut persisted = opportunity("A fair deal", "New");
    persisted.id = Id { hi: 0, lo: 3 };
    let (action, path) = save_request(&customer, &persisted);
    assert_eq!(action, SaveAction::Update);
    assert_eq!(
        path,
        "/customer/00000000-0000-0000-0000-000000000002/opportunity/00000000-0000-0000-0000-000000000003"
    );
}

#[test]
fn client_errors_distinguish_request_from_decoding() {
    assert_ne!(MultiError::RequestError, MultiError::DeserializeError);
    let failure: Result<bool, MultiError> = Err(MultiError::RequestError);
    assert_eq!(failure, Err(MultiError::RequestError));
}
