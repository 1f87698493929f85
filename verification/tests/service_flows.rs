use minidebet::auth::{AuthService, LoginRequest};
use minidebet::client::NewClient;
use minidebet::errors::CoreError;
use minidebet::invoice::{InvoiceStatus, NewInvoice, NewInvoiceItem};
use minidebet::service;
use minidebet::settings::UserSettings;
use minidebet::store::Database;
use minidebet::user::NewUser;

const NOW: u64 = 1_700_000_000;

fn auth() -> AuthService {
    AuthService::new("unit-test-secret".to_string(), 86_400, 4)
}

fn registration(email: &str, password: &str) -> NewUser {
    NewUser::new(
        email.to_string(),
        password.to_string(),
        Some("Max".to_string()),
        Some("Mustermann".to_string()),
        Some("My Company GmbH".to_string()),
        Some("DE123456789".to_string()),
    )
}

fn client_body(name: &str) -> NewClient {
    NewClient::new(
        String::new(),
        name.to_string(),
        Some("billing@client.example".to_string()),
        None,
        Some("Hauptstr. 1".to_string()),
        Some("Berlin".to_string()),
        Some("10115".to_string()),
        None,
        None,
    )
}

fn two_item_invoice(client_id: &str) -> NewInvoice {
    NewInvoice {
        user_id: String::new(),
        client_id: client_id.to_string(),
        issue_day: 19_700,
        due_day: 19_714,
        currency: None,
        tax_rate_bp: Some(1_900),
        notes: None,
        items: vec![
            NewInvoiceItem {
                description: "consulting".to_string(),
                quantity: 2,
                unit_price_milli: 10_000,
            },
            NewInvoiceItem {
                description: "travel".to_string(),
                quantity: 1,
                unit_price_milli: 5_000,
            },
        ],
    }
}

#[test]
fn register_then_login_recovers_identity() {
    let mut db = Database::new();
    let auth = auth();
    let idx = service::register_user(&mut db, &auth, &registration("a@x.com", "pw123"), NOW)
        .unwrap();
    assert_eq!(idx, 0);
    let resp = service::login(
        &db,
        &auth,
        &LoginRequest { email: "a@x.com".to_string(), password: "pw123".to_string() },
        NOW,
    )
    .unwrap();
    let claims = auth.verify_token(&resp.token, NOW + 10).unwrap();
    assert_eq!(claims.sub, db.users[0].id);
    assert_eq!(claims.email, "a@x.com");
    assert_eq!(claims.exp, NOW + 86_400);
    assert_eq!(resp.user.email, "a@x.com");
}

#[test]
fn login_with_wrong_password_fails() {
    let mut db = Database::new();
    let auth = auth();
    service::register_user(&mut db, &auth, &registration("a@x.com", "pw123"), NOW).unwrap();
    let r = service::login(
        &db,
        &auth,
        &LoginRequest { email: "a@x.com".to_string(), password: "pw124".to_string() },
        NOW,
    );
    assert_eq!(r.unwrap_err(), CoreError::Unauthenticated);
    let r = service::login(
        &db,
        &auth,
        &LoginRequest { email: "b@x.com".to_string(), password: "pw123".to_string() },
        NOW,
    );
    assert_eq!(r.unwrap_err(), CoreError::Unauthenticated);
}

#[test]
fn duplicate_email_conflicts_case_insensitively() {
    let mut db = Database::new();
    let auth = auth();
    service::register_user(&mut db, &auth, &registration("a@x.com", "pw123"), NOW).unwrap();
    let r = service::register_user(&mut db, &auth, &registration("A@X.com", "other"), NOW);
    assert_eq!(r.unwrap_err(), CoreError::Conflict);
    assert_eq!(db.users.len(), 1);
    // login still works without regard to case
    let resp = service::login(
        &db,
        &auth,
        &LoginRequest { email: "A@X.COM".to_string(), password: "pw123".to_string() },
        NOW,
    );
    assert!(resp.is_ok());
}

#[test]
fn fresh_account_gets_default_settings() {
    let mut db = Database::new();
    let auth = auth();
    service::register_user(&mut db, &auth, &registration("a@x.com", "pw123"), NOW).unwrap();
    let s: &UserSettings = &db.settings[0];
    assert_eq!(s.user_id, db.users[0].id);
    assert_eq!(s.default_tax_rate_bp, 1_900);
    assert_eq!(s.currency, "EUR");
    assert_eq!(s.invoice_prefix, "INV");
    assert_eq!(s.next_invoice_number, 1);
    assert_eq!(s.payment_terms_days, 14);
}

#[test]
fn allocations_are_distinct_and_gapless() {
    let mut db = Database::new();
    let auth = auth();
    service::register_user(&mut db, &auth, &registration("a@x.com", "pw123"), NOW).unwrap();
    let uid = db.users[0].id.clone();
    let mut values = Vec::new();
    let mut numbers = Vec::new();
    for _ in 0..5 {
        let (value, number) = db.allocate(&uid).unwrap();
        values.push(value);
        numbers.push(number);
    }
    assert_eq!(values, vec![1, 2, 3, 4, 5]);
    assert_eq!(numbers, vec!["INV-1", "INV-2", "INV-3", "INV-4", "INV-5"]);
    for i in 0..values.len() {
        for j in (i + 1)..values.len() {
            assert_ne!(values[i], values[j]);
            assert_ne!(numbers[i], numbers[j]);
        }
    }
    assert_eq!(db.allocate("no-such-account").unwrap_err(), CoreError::NotFound);
}

#[test]
fn allocations_for_different_accounts_are_independent() {
    let mut db = Database::new();
    let auth = auth();
    service::register_user(&mut db, &auth, &registration("a@x.com", "pw123"), NOW).unwrap();
    service::register_user(&mut db, &auth, &registration("b@x.com", "pw456"), NOW).unwrap();
    let a = db.users[0].id.clone();
    let b = db.users[1].id.clone();
    assert_eq!(db.allocate(&a).unwrap().0, 1);
    assert_eq!(db.allocate(&a).unwrap().0, 2);
    assert_eq!(db.allocate(&b).unwrap().0, 1);
    assert_eq!(db.allocate(&a).unwrap().0, 3);
    assert_eq!(db.allocate(&b).unwrap().0, 2);
}

#[test]
fn end_to_end_invoice_numbering_and_totals() {
    let mut db = Database::new();
    let auth = auth();
    service::register_user(&mut db, &auth, &registration("a@x.com", "pw123"), NOW).unwrap();
    let token = service::login(
        &db,
        &auth,
        &LoginRequest { email: "a@x.com".to_string(), password: "pw123".to_string() },
        NOW,
    )
    .unwrap()
    .token;
    let header = format!("Bearer {}", token);
    let header = Some(header.as_str());

    let k = service::create_client(&mut db, &auth, header, &client_body("ACME AG"), NOW).unwrap();
    let client_id = db.clients[k].id.clone();
    assert_eq!(db.clients[k].user_id, db.users[0].id);
    assert_eq!(db.clients[k].country, "DE");

    let m = service::create_invoice(&mut db, &auth, header, &two_item_invoice(&client_id), NOW)
        .unwrap();
    let inv = &db.invoices[m];
    assert_eq!(inv.invoice_number, "INV-1");
    assert_eq!(inv.subtotal_cents, 2_500);
    assert_eq!(inv.tax_amount_cents, 475);
    assert_eq!(inv.total_amount_cents, 2_975);
    assert_eq!(inv.status, InvoiceStatus::Draft);
    assert_eq!(inv.currency, "EUR");
    assert_eq!(inv.items.len(), 2);
    assert_eq!(inv.items[0].total_price_cents, 2_000);
    assert_eq!(inv.items[1].total_price_cents, 500);

    let m2 = service::create_invoice(&mut db, &auth, header, &two_item_invoice(&client_id), NOW)
        .unwrap();
    assert_eq!(db.invoices[m2].invoice_number, "INV-2");

    // listings come newest first
    let list = service::get_invoices(&db, &auth, header, NOW).unwrap();
    assert_eq!(list.len(), 2);
    assert_eq!(list[0].invoice_number, "INV-2");
    assert_eq!(list[1].invoice_number, "INV-1");

    let fetched = service::get_invoice(&db, &auth, header, &db.invoices[m].id.clone(), NOW)
        .unwrap();
    assert_eq!(fetched.invoice_number, "INV-1");
}

#[test]
fn invalid_items_reject_and_consume_no_sequence() {
    let mut db = Database::new();
    let auth = auth();
    service::register_user(&mut db, &auth, &registration("a@x.com", "pw123"), NOW).unwrap();
    let token = service::login(
        &db,
        &auth,
        &LoginRequest { email: "a@x.com".to_string(), password: "pw123".to_string() },
        NOW,
    )
    .unwrap()
    .token;
    let header = format!("Bearer {}", token);
    let header = Some(header.as_str());
    let k = service::create_client(&mut db, &auth, header, &client_body("ACME AG"), NOW).unwrap();
    let client_id = db.clients[k].id.clone();

    let mut bad = two_item_invoice(&client_id);
    bad.items[0].quantity = 0;
    let r = service::create_invoice(&mut db, &auth, header, &bad, NOW);
    assert_eq!(r.unwrap_err(), CoreError::Validation);
    assert_eq!(db.invoices.len(), 0);
    assert_eq!(db.settings[0].next_invoice_number, 1);

    let mut bad = two_item_invoice(&client_id);
    bad.items[1].unit_price_milli = -5;
    let r = service::create_invoice(&mut db, &auth, header, &bad, NOW);
    assert_eq!(r.unwrap_err(), CoreError::Validation);

    let mut bad = two_item_invoice(&client_id);
    bad.tax_rate_bp = Some(-1);
    let r = service::create_invoice(&mut db, &auth, header, &bad, NOW);
    assert_eq!(r.unwrap_err(), CoreError::Validation);

    let mut bad = two_item_invoice(&client_id);
    bad.due_day = bad.issue_day - 1;
    let r = service::create_invoice(&mut db, &auth, header, &bad, NOW);
    assert_eq!(r.unwrap_err(), CoreError::Validation);

    // after all the rejections the first accepted invoice is still number 1
    let m = service::create_invoice(&mut db, &auth, header, &two_item_invoice(&client_id), NOW)
        .unwrap();
    assert_eq!(db.invoices[m].invoice_number, "INV-1");
}

#[test]
fn missing_tax_rate_falls_back_to_the_account_default() {
    let mut db = Database::new();
    let auth = auth();
    service::register_user(&mut db, &auth, &registration("a@x.com", "pw123"), NOW).unwrap();
    let header = format!(
        "Bearer {}",
        service::login(
            &db,
            &auth,
            &LoginRequest { email: "a@x.com".to_string(), password: "pw123".to_string() },
            NOW,
        )
        .unwrap()
        .token
    );
    let k = service::create_client(&mut db, &auth, Some(header.as_str()), &client_body("ACME"), NOW)
        .unwrap();
    let client_id = db.clients[k].id.clone();
    let mut body = two_item_invoice(&client_id);
    body.tax_rate_bp = None;
    let m = service::create_invoice(&mut db, &auth, Some(header.as_str()), &body, NOW).unwrap();
    // the account default of 19 % applies
    assert_eq!(db.invoices[m].tax_rate_bp, 1_900);
    assert_eq!(db.invoices[m].tax_amount_cents, 475);
}

#[test]
fn cross_account_client_is_rejected() {
    let mut db = Database::new();
    let auth = auth();
    service::register_user(&mut db, &auth, &registration("a@x.com", "pw123"), NOW).unwrap();
    service::register_user(&mut db, &auth, &registration("b@x.com", "pw456"), NOW).unwrap();
    let token_a = service::login(
        &db,
        &auth,
        &LoginRequest { email: "a@x.com".to_string(), password: "pw123".to_string() },
        NOW,
    )
    .unwrap()
    .token;
    let token_b = service::login(
        &db,
        &auth,
        &LoginRequest { email: "b@x.com".to_string(), password: "pw456".to_string() },
        NOW,
    )
    .unwrap()
    .token;
    let header_a = format!("Bearer {}", token_a);
    let header_b = format!("Bearer {}", token_b);

    let k = service::create_client(&mut db, &auth, Some(header_a.as_str()), &client_body("ACME"), NOW)
        .unwrap();
    let client_of_a = db.clients[k].id.clone();

    let r = service::create_invoice(
        &mut db,
        &auth,
        Some(header_b.as_str()),
        &two_item_invoice(&client_of_a),
        NOW,
    );
    assert_eq!(r.unwrap_err(), CoreError::Validation);

    // and an unknown client is absent, not invalid
    let r = service::create_invoice(
        &mut db,
        &auth,
        Some(header_a.as_str()),
        &two_item_invoice("no-such-client"),
        NOW,
    );
    assert_eq!(r.unwrap_err(), CoreError::NotFound);

    // one account never sees another's invoice
    let m = service::create_invoice(
        &mut db,
        &auth,
        Some(header_a.as_str()),
        &two_item_invoice(&client_of_a),
        NOW,
    )
    .unwrap();
    let id = db.invoices[m].id.clone();
    let r = service::get_invoice(&db, &auth, Some(header_b.as_str()), &id, NOW);
    assert_eq!(r.unwrap_err(), CoreError::NotFound);
}

#[test]
fn gate_rejects_missing_and_bad_tokens() {
    let mut db = Database::new();
    let auth = auth();
    service::register_user(&mut db, &auth, &registration("a@x.com", "pw123"), NOW).unwrap();
    let r = service::get_clients(&db, &auth, None, NOW);
    assert_eq!(r.unwrap_err(), CoreError::Unauthenticated);
    let r = service::get_clients(&db, &auth, Some("Bearer nonsense"), NOW);
    assert_eq!(r.unwrap_err(), CoreError::Unauthenticated);
    let r = service::create_client(&mut db, &auth, Some("Basic abc"), &client_body("x"), NOW);
    assert_eq!(r.unwrap_err(), CoreError::Unauthenticated);
    assert_eq!(db.clients.len(), 0);

    // a credential past its expiry is rejected at the boundary
    let token = service::login(
        &db,
        &auth,
        &LoginRequest { email: "a@x.com".to_string(), password: "pw123".to_string() },
        NOW,
    )
    .unwrap()
    .token;
    let header = format!("Bearer {}", token);
    let r = service::get_clients(&db, &auth, Some(header.as_str()), NOW + 86_400);
    assert_eq!(r.unwrap_err(), CoreError::Unauthenticated);
}

#[test]
fn listed_clients_belong_to_the_account() {
    let mut db = Database::new();
    let auth = auth();
    service::register_user(&mut db, &auth, &registration("a@x.com", "pw123"), NOW).unwrap();
    service::register_user(&mut db, &auth, &registration("b@x.com", "pw456"), NOW).unwrap();
    let ha = format!(
        "Bearer {}",
        service::login(
            &db,
            &auth,
            &LoginRequest { email: "a@x.com".to_string(), password: "pw123".to_string() },
            NOW,
        )
        .unwrap()
        .token
    );
    let hb = format!(
        "Bearer {}",
        service::login(
            &db,
            &auth,
            &LoginRequest { email: "b@x.com".to_string(), password: "pw456".to_string() },
            NOW,
        )
        .unwrap()
        .token
    );
    service::create_client(&mut db, &auth, Some(ha.as_str()), &client_body("A one"), NOW).unwrap();
    service::create_client(&mut db, &auth, Some(hb.as_str()), &client_body("B one"), NOW).unwrap();
    service::create_client(&mut db, &auth, Some(ha.as_str()), &client_body("A two"), NOW).unwrap();
    // listings come newest first
    let of_a = service::get_clients(&db, &auth, Some(ha.as_str()), NOW).unwrap();
    assert_eq!(of_a.len(), 2);
    assert_eq!(of_a[0].name, "A two");
    assert_eq!(of_a[1].name, "A one");
    let of_b = service::get_clients(&db, &auth, Some(hb.as_str()), NOW).unwrap();
    assert_eq!(of_b.len(), 1);
    assert_eq!(of_b[0].name, "B one");
}

#[test]
fn status_only_moves_forward() {
    let mut db = Database::new();
    let auth = auth();
    service::register_user(&mut db, &auth, &registration("a@x.com", "pw123"), NOW).unwrap();
    let header = format!(
        "Bearer {}",
        service::login(
            &db,
            &auth,
            &LoginRequest { email: "a@x.com".to_string(), password: "pw123".to_string() },
            NOW,
        )
        .unwrap()
        .token
    );
    let k = service::create_client(&mut db, &auth, Some(header.as_str()), &client_body("ACME"), NOW)
        .unwrap();
    let client_id = db.clients[k].id.clone();
    let m = service::create_invoice(
        &mut db,
        &auth,
        Some(header.as_str()),
        &two_item_invoice(&client_id),
        NOW,
    )
    .unwrap();
    let inv = &mut db.invoices[m];
    assert_eq!(inv.status, InvoiceStatus::Draft);
    assert_eq!(
        inv.advance_status(InvoiceStatus::Draft, NOW + 1).unwrap_err(),
        CoreError::Validation
    );
    inv.advance_status(InvoiceStatus::Sent, NOW + 1).unwrap();
    assert_eq!(inv.status, InvoiceStatus::Sent);
    assert_eq!(inv.sent_at, Some(NOW + 1));
    assert_eq!(
        inv.advance_status(InvoiceStatus::Draft, NOW + 2).unwrap_err(),
        CoreError::Validation
    );
    inv.advance_status(InvoiceStatus::Paid, NOW + 2).unwrap();
    assert_eq!(inv.status, InvoiceStatus::Paid);
    assert_eq!(inv.paid_at, Some(NOW + 2));
    assert_eq!(
        inv.advance_status(InvoiceStatus::Sent, NOW + 3).unwrap_err(),
        CoreError::Validation
    );
}

#[test]
fn cors_preflight_headers() {
    let headers = service::handle_cors_preflight();
    assert_eq!(headers.len(), 5);
    assert_eq!(headers[0].0, "Access-Control-Allow-Origin");
    assert_eq!(headers[0].1, "https://minidebet.pages.dev");
    assert_eq!(headers[1].0, "Access-Control-Allow-Methods");
    assert_eq!(headers[2].0, "Access-Control-Allow-Headers");
    assert_eq!(headers[2].1, "Content-Type, Authorization");
    assert_eq!(headers[3].1, "86400");
    assert_eq!(headers[4].0, "Access-Control-Allow-Credentials");
    assert_eq!(headers[4].1, "true");
}

#[test]
fn create_user_endpoint_shapes_response() {
    let mut db = Database::new();
    let auth = auth();
    let req = service::CreateUserRequest {
        email: "a@x.com".to_string(),
        password: "pw123".to_string(),
        first_name: Some("Max".to_string()),
        last_name: None,
        company_name: Some("ACME".to_string()),
        tax_id: None,
    };
    let resp = service::create_user(&mut db, &auth, &req, NOW).unwrap();
    assert_eq!(resp.email, "a@x.com");
    assert_eq!(resp.first_name, Some("Max".to_string()));
    assert_eq!(resp.last_name, None);
    assert_eq!(resp.company_name, Some("ACME".to_string()));
    assert_eq!(resp.id, db.users[0].id);
    assert_eq!(db.users[0].created_at, NOW);
}

#[test]
fn new_client_country_defaults() {
    let c = client_body("ACME");
    assert_eq!(c.country, "DE");
    let c = NewClient::new(
        String::new(),
        "X".to_string(),
        None,
        None,
        None,
        None,
        None,
        Some("FR".to_string()),
        None,
    );
    assert_eq!(c.country, "FR");
}
