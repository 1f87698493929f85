//! The flows behind the service's endpoints, on plain values: registration,
//! login, and the authenticated client and invoice operations. The HTTP
//! layer only parses requests into these inputs and renders the results;
//! every decision is made here.

use vstd::prelude::*;
use crate::auth::{spec_bearer_token, verify_claim, AuthService, LoginRequest, LoginResponse};
use crate::client::{Client, NewClient};
use crate::errors::CoreError;
use crate::invoice::{
    calc_ok, spec_subtotal_cents, spec_total_cents, Invoice, InvoiceStatus, NewInvoice,
};
use crate::money::spec_tax_cents;
use crate::numfmt::spec_invoice_number;
use crate::password::{bcrypt_matches, is_bcrypt_digest};
use crate::store::{
    client_index, has_client_id, has_owned_invoice, has_user_id, lemma_invoice_id_determines,
    owned_clients, user_index, Database,
};
use crate::token::{jwt_token, token_claims};
use crate::user::{clone_opt_string, lower_of, NewUser};

verus! {

/// A registration request body.
#[derive(Debug)]
pub struct CreateUserRequest {
    pub email: String,
    pub password: String,
    pub first_name: Option<String>,
    pub last_name: Option<String>,
    pub company_name: Option<String>,
    pub tax_id: Option<String>,
}

/// What registration returns: the stored account without its password hash.
#[derive(Debug)]
pub struct CreateUserResponse {
    pub id: String,
    pub email: String,
    pub first_name: Option<String>,
    pub last_name: Option<String>,
    pub company_name: Option<String>,
}

/// Whether the store holds an account whose email matches `email` without
/// regard to case and whose digest matches `password`.
pub open spec fn credentials_ok(db: Database, email: Seq<char>, password: Seq<char>) -> bool {
    exists|i: int|
        0 <= i < db.users@.len() && lower_of((#[trigger] db.users@[i]).email@) == lower_of(email)
            && is_bcrypt_digest(db.users@[i].password_hash@) && bcrypt_matches(
            password,
            db.users@[i].password_hash@,
        )
}

/// Whether an authorization header passes the request guard at `now` under `auth`'s
/// secret: it carries a bearer credential with a valid signature and an
/// expiry instant that still lies ahead.
pub open spec fn gate_passes(auth: AuthService, header: Option<Seq<char>>, now: u64) -> bool {
    match spec_bearer_token(header) {
        Some(tok) => verify_claim(auth.secret@, tok, now) is Some,
        None => false,
    }
}

/// The account id a passing guard yields.
pub open spec fn gate_subject(auth: AuthService, header: Option<Seq<char>>, now: u64) -> Seq<
    char,
> {
    verify_claim(auth.secret@, spec_bearer_token(header).unwrap(), now).unwrap().0
}

/// The view of an optional header value.
pub open spec fn header_view(header: Option<&str>) -> Option<Seq<char>> {
    match header {
        Some(h) => Some(h@),
        None => None,
    }
}

/// Registers an account from a worker-style registration record: hashes the
/// password, then stores the account with fresh default settings. Fails
/// with `Conflict` exactly when the email is already registered without
/// regard to case; a hashing failure or an id collision surfaces as
/// `Internal`. On failure the store is unchanged.
pub fn register_user(db: &mut Database, auth: &AuthService, user_data: &NewUser, now: u64) -> (r:
    Result<usize, CoreError>)
    requires
        old(db).wf(),
        auth.wf(),
    ensures
        final(db).wf(),
        r == Err::<usize, CoreError>(CoreError::Conflict) <==> old(db).email_taken(
            user_data.email@,
        ),
        r is Err ==> *final(db) == *old(db),
        r matches Ok(i) ==> {
            &&& i == old(db).users@.len()
            &&& final(db).users@.len() == old(db).users@.len() + 1
            &&& forall|k: int|
                0 <= k < old(db).users@.len() ==> final(db).users@[k] == old(db).users@[k]
            &&& final(db).users@.last().email@ == user_data.email@
            &&& is_bcrypt_digest(final(db).users@.last().password_hash@)
            &&& bcrypt_matches(user_data.password@, final(db).users@.last().password_hash@)
            &&& final(db).users@.last().first_name == user_data.first_name
            &&& final(db).users@.last().last_name == user_data.last_name
            &&& final(db).users@.last().company_name == user_data.company_name
            &&& final(db).users@.last().tax_id == user_data.tax_id
            &&& final(db).users@.last().created_at == now
            &&& final(db).clients == old(db).clients
            &&& final(db).invoices == old(db).invoices
        },
{
    if let Some(_) = db.find_user_by_email(user_data.email.as_str()) {
        return Err(CoreError::Conflict);
    }
    let password_hash = match auth.hash_password(user_data.password.as_str()) {
        Ok(h) => h,
        Err(_) => {
            return Err(CoreError::Internal);
        },
    };
    match db.create_user(user_data, password_hash, now) {
        Ok(i) => Ok(i),
        Err(e) => Err(e),
    }
}

/// Registers an account from an endpoint-style request and shapes the
/// response: the stored account's id and profile, never the password or its
/// hash. Error behaviour is that of `register_user`.
pub fn create_user(db: &mut Database, auth: &AuthService, payload: &CreateUserRequest, now: u64) -> (r:
    Result<CreateUserResponse, CoreError>)
    requires
        old(db).wf(),
        auth.wf(),
    ensures
        final(db).wf(),
        r == Err::<CreateUserResponse, CoreError>(CoreError::Conflict) <==> old(db).email_taken(
            payload.email@,
        ),
        r is Err ==> *final(db) == *old(db),
        r matches Ok(resp) ==> {
            &&& final(db).users@.len() == old(db).users@.len() + 1
            &&& final(db).users@.last().email@ == payload.email@
            &&& is_bcrypt_digest(final(db).users@.last().password_hash@)
            &&& bcrypt_matches(payload.password@, final(db).users@.last().password_hash@)
            &&& resp.id@ == final(db).users@.last().id@
            &&& resp.email@ == payload.email@
            &&& resp.first_name == payload.first_name
            &&& resp.last_name == payload.last_name
            &&& resp.company_name == payload.company_name
        },
{
    let user_data = NewUser::new(
        payload.email.clone(),
        payload.password.clone(),
        clone_opt_string(&payload.first_name),
        clone_opt_string(&payload.last_name),
        clone_opt_string(&payload.company_name),
        clone_opt_string(&payload.tax_id),
    );
    let i = match register_user(db, auth, &user_data, now) {
        Ok(i) => i,
        Err(e) => {
            return Err(e);
        },
    };
    let stored = &db.users[i];
    Ok(CreateUserResponse {
        id: stored.id.clone(),
        email: payload.email.clone(),
        first_name: clone_opt_string(&payload.first_name),
        last_name: clone_opt_string(&payload.last_name),
        company_name: clone_opt_string(&payload.company_name),
    })
}

/// Logs an account in: looks the email up without regard to case, checks
/// the password against the stored digest, and issues a token for the
/// account. Succeeds exactly when some stored account matches the
/// credentials, and fails with `Unauthenticated` otherwise — a wrong email,
/// a malformed digest and a wrong password are deliberately
/// indistinguishable. The response carries the account's public profile,
/// never its password hash.
pub fn login(db: &Database, auth: &AuthService, payload: &LoginRequest, now: u64) -> (r: Result<
    LoginResponse,
    CoreError,
>)
    requires
        db.wf(),
        auth.wf(),
        now + auth.validity_secs <= u64::MAX,
    ensures
        r is Ok <==> credentials_ok(*db, payload.email@, payload.password@),
        r is Err ==> r == Err::<LoginResponse, CoreError>(CoreError::Unauthenticated),
        r matches Ok(resp) ==> {
            &&& exists|i: int|
                0 <= i < db.users@.len() && lower_of((#[trigger] db.users@[i]).email@) == lower_of(
                    payload.email@,
                ) && resp.user.id == db.users@[i].id && resp.user.email == db.users@[i].email
                    && resp.user.first_name == db.users@[i].first_name && resp.user.last_name
                    == db.users@[i].last_name && resp.user.company_name
                    == db.users@[i].company_name && resp.user.tax_id == db.users@[i].tax_id
            &&& resp.token@ == jwt_token(
                auth.secret@,
                resp.user.id@,
                resp.user.email@,
                (now + auth.validity_secs) as u64,
            )
            &&& token_claims(auth.secret@, resp.token@) == Some(
                (resp.user.id@, resp.user.email@, (now + auth.validity_secs) as u64),
            )
        },
{
    let user = match db.find_user_by_email(payload.email.as_str()) {
        Some(u) => u,
        None => {
            return Err(CoreError::Unauthenticated);
        },
    };
    proof {
        lemma_unique_email_match(*db, payload.email@, *user);
    }
    let is_valid = match auth.verify_password(payload.password.as_str(), user.password_hash.as_str()) {
        Ok(b) => b,
        Err(_) => {
            return Err(CoreError::Unauthenticated);
        },
    };
    if !is_valid {
        return Err(CoreError::Unauthenticated);
    }
    let token = match auth.generate_token(user.id.as_str(), user.email.as_str(), now) {
        Ok(t) => t,
        Err(e) => {
            return Err(e);
        },
    };
    let response = AuthService::create_auth_response(
        crate::auth::User::of_account(user),
        token,
    );
    Ok(response)
}

/// Logs in from a worker-style request; the same flow and the same
/// contract as `login`.
pub fn login_user(db: &Database, auth: &AuthService, login_data: &LoginRequest, now: u64) -> (r:
    Result<LoginResponse, CoreError>)
    requires
        db.wf(),
        auth.wf(),
        now + auth.validity_secs <= u64::MAX,
    ensures
        r is Ok <==> credentials_ok(*db, login_data.email@, login_data.password@),
        r is Err ==> r == Err::<LoginResponse, CoreError>(CoreError::Unauthenticated),
        r matches Ok(resp) ==> {
            &&& exists|i: int|
                0 <= i < db.users@.len() && lower_of((#[trigger] db.users@[i]).email@) == lower_of(
                    login_data.email@,
                ) && resp.user.id == db.users@[i].id && resp.user.email == db.users@[i].email
                    && resp.user.first_name == db.users@[i].first_name && resp.user.last_name
                    == db.users@[i].last_name && resp.user.company_name
                    == db.users@[i].company_name && resp.user.tax_id == db.users@[i].tax_id
            &&& resp.token@ == jwt_token(
                auth.secret@,
                resp.user.id@,
                resp.user.email@,
                (now + auth.validity_secs) as u64,
            )
            &&& token_claims(auth.secret@, resp.token@) == Some(
                (resp.user.id@, resp.user.email@, (now + auth.validity_secs) as u64),
            )
        },
{
    login(db, auth, login_data, now)
}

/// What a successful registration guarantees of its stored account — an
/// email matching the registered one and a well-formed digest matching the
/// registered password — is exactly what the login check asks for: the same
/// credentials pass it, so a login with them is never turned away as
/// unauthenticated.
pub proof fn lemma_registered_credentials_pass(db: Database, email: Seq<char>, password: Seq<char>)
    requires
        db.users@.len() > 0,
        db.users@.last().email@ == email,
        is_bcrypt_digest(db.users@.last().password_hash@),
        bcrypt_matches(password, db.users@.last().password_hash@),
    ensures
        credentials_ok(db, email, password),
{
    let i = db.users@.len() - 1;
    assert(db.users@[i] == db.users@.last());
}

/// In a well-formed store, any account whose case-folded email matches that
/// of `u` — itself a stored account — is `u`.
proof fn lemma_unique_email_match(db: Database, email: Seq<char>, u: crate::user::User)
    requires
        db.wf(),
        exists|i: int|
            0 <= i < db.users@.len() && u == #[trigger] db.users@[i] && lower_of(u.email@)
                == lower_of(email),
    ensures
        forall|j: int|
            0 <= j < db.users@.len() && lower_of((#[trigger] db.users@[j]).email@) == lower_of(
                email,
            ) ==> db.users@[j] == u,
{
    let i = choose|i: int|
        0 <= i < db.users@.len() && u == #[trigger] db.users@[i] && lower_of(u.email@) == lower_of(
            email,
        );
    assert forall|j: int|
        0 <= j < db.users@.len() && lower_of((#[trigger] db.users@[j]).email@) == lower_of(email)
        implies db.users@[j] == u by {
        if i != j {
            assert(lower_of(db.users@[i].email@) != lower_of(db.users@[j].email@));
        }
    }
}

/// Passes the request guard: pulls the bearer token out of the authorization
/// header and verifies it at `now`. Yields the verified account id; any
/// failure is `Unauthenticated`, and the wrapped operation is never reached.
pub fn authorize(auth: &AuthService, authorization: Option<&str>, now: u64) -> (r: Result<
    String,
    CoreError,
>)
    ensures
        r is Ok <==> gate_passes(*auth, header_view(authorization), now),
        r matches Ok(sub) ==> sub@ == gate_subject(*auth, header_view(authorization), now),
        r is Err ==> r == Err::<String, CoreError>(CoreError::Unauthenticated),
{
    let token = match AuthService::extract_token_from_header(authorization) {
        Some(t) => t,
        None => {
            return Err(CoreError::Unauthenticated);
        },
    };
    match auth.verify_token(token.as_str(), now) {
        Ok(claims) => Ok(claims.sub),
        Err(_) => Err(CoreError::Unauthenticated),
    }
}

/// Creates a client for the authenticated account: the request guard decides first,
/// and the stored owner is always the authenticated account id, whatever
/// owner the body named. On failure the store is unchanged.
pub fn create_client(
    db: &mut Database,
    auth: &AuthService,
    authorization: Option<&str>,
    client_data: &NewClient,
    now: u64,
) -> (r: Result<usize, CoreError>)
    requires
        old(db).wf(),
    ensures
        final(db).wf(),
        r == Err::<usize, CoreError>(CoreError::Unauthenticated) <==> !gate_passes(
            *auth,
            header_view(authorization),
            now,
        ),
        r == Err::<usize, CoreError>(CoreError::NotFound) <==> gate_passes(
            *auth,
            header_view(authorization),
            now,
        ) && !has_user_id(
            old(db).users@,
            gate_subject(*auth, header_view(authorization), now),
        ),
        r is Err ==> *final(db) == *old(db) && (r == Err::<usize, CoreError>(
            CoreError::Unauthenticated,
        ) || r == Err::<usize, CoreError>(CoreError::NotFound) || r == Err::<usize, CoreError>(
            CoreError::Internal,
        )),
        r matches Ok(k) ==> {
            &&& gate_passes(*auth, header_view(authorization), now)
            &&& k == old(db).clients@.len()
            &&& final(db).clients@.len() == old(db).clients@.len() + 1
            &&& forall|l: int|
                0 <= l < old(db).clients@.len() ==> final(db).clients@[l] == old(db).clients@[l]
            &&& final(db).clients@.last().user_id@ == gate_subject(
                *auth,
                header_view(authorization),
                now,
            )
            &&& final(db).clients@.last().name@ == client_data.name@
            &&& final(db).clients@.last().country@ == client_data.country@
            &&& final(db).clients@.last().created_at == now
            &&& final(db).users == old(db).users
            &&& final(db).settings == old(db).settings
            &&& final(db).invoices == old(db).invoices
        },
{
    let sub = match authorize(auth, authorization, now) {
        Ok(s) => s,
        Err(e) => {
            return Err(e);
        },
    };
    let fixed = NewClient {
        user_id: sub,
        name: client_data.name.clone(),
        email: clone_opt_string(&client_data.email),
        company: clone_opt_string(&client_data.company),
        street: clone_opt_string(&client_data.street),
        city: clone_opt_string(&client_data.city),
        postal_code: clone_opt_string(&client_data.postal_code),
        country: client_data.country.clone(),
        vat_number: clone_opt_string(&client_data.vat_number),
    };
    match db.create_client(&fixed, now) {
        Ok(k) => Ok(k),
        Err(e) => Err(e),
    }
}

/// Lists the authenticated account's clients, newest first.
pub fn get_clients(db: &Database, auth: &AuthService, authorization: Option<&str>, now: u64) -> (r:
    Result<Vec<Client>, CoreError>)
    ensures
        r is Ok <==> gate_passes(*auth, header_view(authorization), now),
        r is Err ==> r == Err::<Vec<Client>, CoreError>(CoreError::Unauthenticated),
        r matches Ok(v) ==> v@ == owned_clients(
            db.clients@,
            gate_subject(*auth, header_view(authorization), now),
        ),
{
    let sub = match authorize(auth, authorization, now) {
        Ok(s) => s,
        Err(e) => {
            return Err(e);
        },
    };
    Ok(db.get_clients_by_user(sub.as_str()))
}

/// Creates an invoice for the authenticated account: the guard decides
/// first, the stored owner is the authenticated account id, the referenced
/// client must exist and belong to that same account, and the number is
/// allocated atomically. On any failure nothing is stored and no sequence
/// value is consumed.
pub fn create_invoice(
    db: &mut Database,
    auth: &AuthService,
    authorization: Option<&str>,
    invoice_data: &NewInvoice,
    now: u64,
) -> (r: Result<usize, CoreError>)
    requires
        old(db).wf(),
    ensures
        final(db).wf(),
        r == Err::<usize, CoreError>(CoreError::Unauthenticated) <==> !gate_passes(
            *auth,
            header_view(authorization),
            now,
        ),
        r == Err::<usize, CoreError>(CoreError::NotFound) <==> ({
            let sub = gate_subject(*auth, header_view(authorization), now);
            &&& gate_passes(*auth, header_view(authorization), now)
            &&& (!has_user_id(old(db).users@, sub) || !has_client_id(
                old(db).clients@,
                invoice_data.client_id@,
            ))
        }),
        r == Err::<usize, CoreError>(CoreError::Validation) <==> ({
            let sub = gate_subject(*auth, header_view(authorization), now);
            let rate = (match invoice_data.tax_rate_bp {
                Some(t) => t as int,
                None => old(db).settings@[user_index(old(db).users@, sub)].default_tax_rate_bp
                    as int,
            });
            &&& gate_passes(*auth, header_view(authorization), now)
            &&& has_user_id(old(db).users@, sub)
            &&& has_client_id(old(db).clients@, invoice_data.client_id@)
            &&& (old(db).clients@[client_index(old(db).clients@, invoice_data.client_id@)].user_id@
                != sub || invoice_data.issue_day > invoice_data.due_day || !calc_ok(
                invoice_data.items@,
                rate,
            ))
        }),
        r is Err ==> *final(db) == *old(db) && (r == Err::<usize, CoreError>(
            CoreError::Unauthenticated,
        ) || r == Err::<usize, CoreError>(CoreError::NotFound) || r == Err::<usize, CoreError>(
            CoreError::Validation,
        ) || r == Err::<usize, CoreError>(CoreError::Internal)),
        r matches Ok(m) ==> ({
            let sub = gate_subject(*auth, header_view(authorization), now);
            let i = user_index(old(db).users@, sub);
            let rate = (match invoice_data.tax_rate_bp {
                Some(t) => t as int,
                None => old(db).settings@[user_index(old(db).users@, sub)].default_tax_rate_bp
                    as int,
            });
            let s = old(db).settings@[i].next_invoice_number;
            let inv = final(db).invoices@.last();
            &&& gate_passes(*auth, header_view(authorization), now)
            &&& m == old(db).invoices@.len()
            &&& final(db).invoices@.len() == old(db).invoices@.len() + 1
            &&& forall|k: int|
                0 <= k < old(db).invoices@.len() ==> final(db).invoices@[k] == old(
                    db,
                ).invoices@[k]
            &&& inv.user_id@ == sub
            &&& inv.client_id@ == invoice_data.client_id@
            &&& inv.sequence == s
            &&& inv.invoice_number@ == spec_invoice_number(
                old(db).settings@[i].invoice_prefix@,
                s as nat,
            )
            &&& inv.issue_day == invoice_data.issue_day
            &&& inv.due_day == invoice_data.due_day
            &&& inv.currency@ == match invoice_data.currency {
                Some(c) => c@,
                None => old(db).settings@[i].currency@,
            }
            &&& inv.tax_rate_bp == rate
            &&& inv.subtotal_cents == spec_subtotal_cents(invoice_data.items@)
            &&& inv.tax_amount_cents == spec_tax_cents(
                spec_subtotal_cents(invoice_data.items@),
                rate,
            )
            &&& inv.total_amount_cents == spec_total_cents(invoice_data.items@, rate)
            &&& inv.status == InvoiceStatus::Draft
            &&& inv.notes == invoice_data.notes
            &&& inv.created_at == now
            &&& inv.items@.len() == invoice_data.items@.len()
            &&& forall|k: int|
                0 <= k < invoice_data.items@.len() ==> {
                    &&& (#[trigger] inv.items@[k]).description@
                        == invoice_data.items@[k].description@
                    &&& inv.items@[k].quantity == invoice_data.items@[k].quantity
                    &&& inv.items@[k].unit_price_milli == invoice_data.items@[k].unit_price_milli
                }
            &&& final(db).users == old(db).users
            &&& final(db).clients == old(db).clients
            &&& final(db).settings@.len() == old(db).settings@.len()
            &&& forall|k: int|
                0 <= k < old(db).settings@.len() && k != i ==> final(db).settings@[k] == old(
                    db,
                ).settings@[k]
            &&& final(db).settings@[i].next_invoice_number == s + 1
            &&& final(db).settings@[i].invoice_prefix == old(db).settings@[i].invoice_prefix
            &&& final(db).settings@[i].currency == old(db).settings@[i].currency
            &&& final(db).settings@[i].default_tax_rate_bp == old(
                db,
            ).settings@[i].default_tax_rate_bp
            &&& final(db).settings@[i].user_id == old(db).settings@[i].user_id
        }),
{
    let sub = match authorize(auth, authorization, now) {
        Ok(s) => s,
        Err(e) => {
            return Err(e);
        },
    };
    let fixed = NewInvoice {
        user_id: sub,
        client_id: invoice_data.client_id.clone(),
        issue_day: invoice_data.issue_day,
        due_day: invoice_data.due_day,
        currency: clone_opt_string(&invoice_data.currency),
        tax_rate_bp: match invoice_data.tax_rate_bp {
            Some(r) => Some(r),
            None => None,
        },
        notes: clone_opt_string(&invoice_data.notes),
        items: duplicate_new_items(&invoice_data.items),
    };
    match db.create_invoice(&fixed, now) {
        Ok(m) => Ok(m),
        Err(e) => Err(e),
    }
}

/// Lists the authenticated account's invoices, newest first.
pub fn get_invoices<'a>(
    db: &'a Database,
    auth: &AuthService,
    authorization: Option<&str>,
    now: u64,
) -> (r: Result<Vec<&'a Invoice>, CoreError>)
    ensures
        r is Ok <==> gate_passes(*auth, header_view(authorization), now),
        r is Err ==> r == Err::<Vec<&'a Invoice>, CoreError>(CoreError::Unauthenticated),
        r matches Ok(v) ==> {
            let owned = crate::store::invoices_of(
                db.invoices@,
                gate_subject(*auth, header_view(authorization), now),
            );
            &&& v@.len() == owned.len()
            &&& forall|k: int| 0 <= k < v@.len() ==> *v@[k] == owned[k]
        },
{
    let sub = match authorize(auth, authorization, now) {
        Ok(s) => s,
        Err(e) => {
            return Err(e);
        },
    };
    Ok(db.get_invoices_by_user(sub.as_str()))
}

/// Fetches one invoice of the authenticated account by id. An invoice of
/// another account is reported absent, never revealed.
pub fn get_invoice<'a>(
    db: &'a Database,
    auth: &AuthService,
    authorization: Option<&str>,
    invoice_id: &str,
    now: u64,
) -> (r: Result<&'a Invoice, CoreError>)
    requires
        db.wf(),
    ensures
        r == Err::<&'a Invoice, CoreError>(CoreError::Unauthenticated) <==> !gate_passes(
            *auth,
            header_view(authorization),
            now,
        ),
        r == Err::<&'a Invoice, CoreError>(CoreError::NotFound) <==> gate_passes(
            *auth,
            header_view(authorization),
            now,
        ) && !has_owned_invoice(
            db.invoices@,
            invoice_id@,
            gate_subject(*auth, header_view(authorization), now),
        ),
        r is Ok <==> gate_passes(*auth, header_view(authorization), now) && has_owned_invoice(
            db.invoices@,
            invoice_id@,
            gate_subject(*auth, header_view(authorization), now),
        ),
        r matches Ok(inv) ==> {
            &&& inv.id@ == invoice_id@
            &&& inv.user_id@ == gate_subject(*auth, header_view(authorization), now)
            &&& exists|m: int| 0 <= m < db.invoices@.len() && *inv == #[trigger] db.invoices@[m]
        },
{
    let sub = match authorize(auth, authorization, now) {
        Ok(s) => s,
        Err(e) => {
            return Err(e);
        },
    };
    let inv = match db.get_invoice(invoice_id) {
        Some(inv) => inv,
        None => {
            return Err(CoreError::NotFound);
        },
    };
    if inv.user_id.eq(&sub) {
        Ok(inv)
    } else {
        proof {
            lemma_invoice_id_determines(db, *inv, invoice_id@);
        }
        Err(CoreError::NotFound)
    }
}

/// A copy of a list of submitted line items, equal to the original element
/// by element.
fn duplicate_new_items(items: &Vec<crate::invoice::NewInvoiceItem>) -> (r: Vec<
    crate::invoice::NewInvoiceItem,
>)
    ensures
        r@ == items@,
{
    let n = items.len();
    let mut out: Vec<crate::invoice::NewInvoiceItem> = Vec::new();
    let mut i: usize = 0;
    while i < n
        invariant
            n == items@.len(),
            0 <= i <= n,
            out@ == items@.take(i as int),
        decreases n - i,
    {
        out.push(
            crate::invoice::NewInvoiceItem {
                description: items[i].description.clone(),
                quantity: items[i].quantity,
                unit_price_milli: items[i].unit_price_milli,
            },
        );
        proof {
            assert(out@ =~= items@.take(i + 1));
        }
        i = i + 1;
    }
    proof {
        assert(items@.take(n as int) =~= items@);
    }
    out
}

/// The headers of a permissive preflight answer, as name and value pairs;
/// the answer itself carries status 204 and no body.
pub fn handle_cors_preflight() -> (r: Vec<(String, String)>)
    ensures
        r@.len() == 5,
        r@[0].0@ == "Access-Control-Allow-Origin"@ && r@[0].1@ == "https://minidebet.pages.dev"@,
        r@[1].0@ == "Access-Control-Allow-Methods"@ && r@[1].1@
            == "GET, POST, PUT, DELETE, OPTIONS"@,
        r@[2].0@ == "Access-Control-Allow-Headers"@ && r@[2].1@ == "Content-Type, Authorization"@,
        r@[3].0@ == "Access-Control-Max-Age"@ && r@[3].1@ == "86400"@,
        r@[4].0@ == "Access-Control-Allow-Credentials"@ && r@[4].1@ == "true"@,
{
    let mut out: Vec<(String, String)> = Vec::new();
    out.push(
        (
            String::from_str("Access-Control-Allow-Origin"),
            String::from_str("https://minidebet.pages.dev"),
        ),
    );
    out.push(
        (
            String::from_str("Access-Control-Allow-Methods"),
            String::from_str("GET, POST, PUT, DELETE, OPTIONS"),
        ),
    );
    out.push(
        (
            String::from_str("Access-Control-Allow-Headers"),
            String::from_str("Content-Type, Authorization"),
        ),
    );
    out.push((String::from_str("Access-Control-Max-Age"), String::from_str("86400")));
    out.push((String::from_str("Access-Control-Allow-Credentials"), String::from_str("true")));
    out
}

} // verus!
