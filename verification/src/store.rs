//! The persistence-backed records, held in memory: accounts with their
//! settings, clients, and invoices. Uniqueness that a database would enforce
//! through constraints is carried here as an invariant: account ids and
//! emails are unique (emails without regard to case), client and invoice ids
//! are unique, and invoice sequence values are unique per account and always
//! below the account's counter.

use vstd::prelude::*;
use crate::client::{Client, NewClient};
use crate::errors::CoreError;
use crate::invoice::{
    build_invoice_items, calc_ok, compute_invoice_totals, spec_subtotal_cents, spec_total_cents,
    wf_invoice, Invoice, InvoiceStatus, NewInvoice,
};
use crate::money::spec_tax_cents;
use crate::numfmt::{lemma_invoice_number_injective, render_invoice_number, spec_invoice_number};
use crate::settings::UserSettings;
use crate::user::{clone_opt_string, lower_of, lowercase, NewUser, User};

verus! {

/// Whether some account in `users` carries the id `uid`.
pub open spec fn has_user_id(users: Seq<User>, uid: Seq<char>) -> bool {
    exists|i: int| 0 <= i < users.len() && (#[trigger] users[i]).id@ == uid
}

/// The index of the account carrying `uid`; meaningful when ids are unique
/// and some account carries it.
pub open spec fn user_index(users: Seq<User>, uid: Seq<char>) -> int {
    choose|i: int| 0 <= i < users.len() && (#[trigger] users[i]).id@ == uid
}

/// Whether some client in `clients` carries the id `cid`.
pub open spec fn has_client_id(clients: Seq<Client>, cid: Seq<char>) -> bool {
    exists|k: int| 0 <= k < clients.len() && (#[trigger] clients[k]).id@ == cid
}

/// The index of the client carrying `cid`; meaningful when ids are unique
/// and some client carries it.
pub open spec fn client_index(clients: Seq<Client>, cid: Seq<char>) -> int {
    choose|k: int| 0 <= k < clients.len() && (#[trigger] clients[k]).id@ == cid
}

/// Whether some invoice in `invoices` carries the id `iid`.
pub open spec fn has_invoice_id(invoices: Seq<Invoice>, iid: Seq<char>) -> bool {
    exists|m: int| 0 <= m < invoices.len() && (#[trigger] invoices[m]).id@ == iid
}

/// Whether some invoice in `invoices` carries the id `iid` and belongs to
/// the account `uid`.
pub open spec fn has_owned_invoice(invoices: Seq<Invoice>, iid: Seq<char>, uid: Seq<char>) -> bool {
    exists|m: int|
        0 <= m < invoices.len() && (#[trigger] invoices[m]).id@ == iid && invoices[m].user_id@
            == uid
}

/// The stored records.
pub struct Database {
    pub users: Vec<User>,
    pub settings: Vec<UserSettings>,
    pub clients: Vec<Client>,
    pub invoices: Vec<Invoice>,
}

impl Database {
    /// Accounts: settings aligned one-to-one by index, counters at least 1,
    /// default tax rates non-negative, ids unique, emails unique without
    /// regard to case.
    pub open spec fn users_wf(&self) -> bool {
        &&& self.settings@.len() == self.users@.len()
        &&& forall|i: int|
            0 <= i < self.users@.len() ==> (#[trigger] self.settings@[i]).user_id@
                == self.users@[i].id@
        &&& forall|i: int|
            0 <= i < self.users@.len() ==> 1 <= (#[trigger] self.settings@[i]).next_invoice_number
        &&& forall|i: int|
            0 <= i < self.users@.len() ==> 0 <= (#[trigger] self.settings@[i]).default_tax_rate_bp
        &&& forall|i: int, j: int|
            #![trigger self.users@[i], self.users@[j]]
            0 <= i < j < self.users@.len() ==> self.users@[i].id@ != self.users@[j].id@
        &&& forall|i: int, j: int|
            #![trigger self.users@[i], self.users@[j]]
            0 <= i < j < self.users@.len() ==> lower_of(self.users@[i].email@) != lower_of(
                self.users@[j].email@,
            )
    }

    /// Clients: each owned by an existing account, ids unique.
    pub open spec fn clients_wf(&self) -> bool {
        &&& forall|k: int|
            0 <= k < self.clients@.len() ==> has_user_id(
                self.users@,
                (#[trigger] self.clients@[k]).user_id@,
            )
        &&& forall|k: int, l: int|
            #![trigger self.clients@[k], self.clients@[l]]
            0 <= k < l < self.clients@.len() ==> self.clients@[k].id@ != self.clients@[l].id@
    }

    /// One invoice record is coherent with the store: well formed in
    /// itself, owned by an existing account, referencing a client of that
    /// same account, and numbered with the account's prefix at a sequence
    /// value below the account's counter.
    pub open spec fn invoice_record_wf(&self, inv: Invoice) -> bool {
        &&& wf_invoice(inv)
        &&& has_user_id(self.users@, inv.user_id@)
        &&& inv.sequence < self.settings@[user_index(self.users@, inv.user_id@)].next_invoice_number
        &&& inv.invoice_number@ == spec_invoice_number(
            self.settings@[user_index(self.users@, inv.user_id@)].invoice_prefix@,
            inv.sequence as nat,
        )
        &&& has_client_id(self.clients@, inv.client_id@)
        &&& self.clients@[client_index(self.clients@, inv.client_id@)].user_id@ == inv.user_id@
    }

    /// Invoices: each coherent, ids unique, and sequence values unique per
    /// account.
    pub open spec fn invoices_wf(&self) -> bool {
        &&& forall|m: int|
            0 <= m < self.invoices@.len() ==> self.invoice_record_wf(#[trigger] self.invoices@[m])
        &&& forall|m: int, n: int|
            #![trigger self.invoices@[m], self.invoices@[n]]
            0 <= m < n < self.invoices@.len() ==> self.invoices@[m].id@ != self.invoices@[n].id@
        &&& forall|m: int, n: int|
            #![trigger self.invoices@[m], self.invoices@[n]]
            0 <= m < n < self.invoices@.len() && self.invoices@[m].user_id@
                == self.invoices@[n].user_id@ ==> self.invoices@[m].sequence
                != self.invoices@[n].sequence
    }

    /// The store's invariant.
    pub open spec fn wf(&self) -> bool {
        self.users_wf() && self.clients_wf() && self.invoices_wf()
    }

    /// Whether `email` is already registered, without regard to case.
    pub open spec fn email_taken(&self, email: Seq<char>) -> bool {
        exists|i: int|
            0 <= i < self.users@.len() && lower_of((#[trigger] self.users@[i]).email@) == lower_of(
                email,
            )
    }

    /// An empty store.
    pub fn new() -> (r: Database)
        ensures
            r.wf(),
            r.users@.len() == 0,
            r.settings@.len() == 0,
            r.clients@.len() == 0,
            r.invoices@.len() == 0,
    {
        Database { users: Vec::new(), settings: Vec::new(), clients: Vec::new(), invoices: Vec::new() }
    }

    /// The index of the account registered under `email`, without regard to
    /// case.
    fn find_user_index(&self, email: &str) -> (r: Option<usize>)
        ensures
            match r {
                Some(i) => i < self.users@.len() && lower_of(self.users@[i as int].email@)
                    == lower_of(email@),
                None => !self.email_taken(email@),
            },
    {
        let needle = lowercase(email);
        let n = self.users.len();
        let mut i: usize = 0;
        while i < n
            invariant
                n == self.users@.len(),
                0 <= i <= n,
                needle@ == lower_of(email@),
                forall|k: int|
                    0 <= k < i ==> lower_of((#[trigger] self.users@[k]).email@) != lower_of(
                        email@,
                    ),
            decreases n - i,
        {
            let cand = lowercase(self.users[i].email.as_str());
            if cand == needle {
                return Some(i);
            }
            i = i + 1;
        }
        None
    }

    /// Looks an account up by email; a miss is an absence, never a failure.
    pub fn find_user_by_email(&self, email: &str) -> (r: Option<&User>)
        ensures
            match r {
                Some(u) => exists|i: int|
                    0 <= i < self.users@.len() && *u == #[trigger] self.users@[i] && lower_of(
                        u.email@,
                    ) == lower_of(email@),
                None => !self.email_taken(email@),
            },
    {
        match self.find_user_index(email) {
            Some(i) => Some(&self.users[i]),
            None => None,
        }
    }

    /// Adds a fully built account together with fresh default settings.
    /// Fails with `Conflict` exactly when the email is already registered
    /// (without regard to case), and with `Internal` exactly when, the email
    /// being free, the id is already taken. On failure nothing changes.
    pub fn insert_user(&mut self, user: User) -> (r: Result<usize, CoreError>)
        requires
            old(self).wf(),
        ensures
            final(self).wf(),
            r == Err::<usize, CoreError>(CoreError::Conflict) <==> old(self).email_taken(
                user.email@,
            ),
            r == Err::<usize, CoreError>(CoreError::Internal) <==> !old(self).email_taken(
                user.email@,
            ) && has_user_id(old(self).users@, user.id@),
            r is Err ==> *final(self) == *old(self) && (r == Err::<usize, CoreError>(
                CoreError::Conflict,
            ) || r == Err::<usize, CoreError>(CoreError::Internal)),
            r matches Ok(i) ==> {
                &&& i == old(self).users@.len()
                &&& final(self).users@ == old(self).users@.push(user)
                &&& final(self).settings@.len() == old(self).settings@.len() + 1
                &&& forall|k: int|
                    0 <= k < old(self).settings@.len() ==> final(self).settings@[k] == old(
                        self,
                    ).settings@[k]
                &&& final(self).settings@.last().user_id@ == user.id@
                &&& final(self).settings@.last().default_tax_rate_bp == 1900int
                &&& final(self).settings@.last().currency@ == "EUR"@
                &&& final(self).settings@.last().invoice_prefix@ == "INV"@
                &&& final(self).settings@.last().next_invoice_number == 1
                &&& final(self).settings@.last().payment_terms_days == 14
                &&& final(self).clients == old(self).clients
                &&& final(self).invoices == old(self).invoices
            },
    {
        if let Some(_) = self.find_user_index(user.email.as_str()) {
            return Err(CoreError::Conflict);
        }
        let n = self.users.len();
        let mut i: usize = 0;
        while i < n
            invariant
                *self == *old(self),
                old(self).wf(),
                !old(self).email_taken(user.email@),
                n == self.users@.len(),
                0 <= i <= n,
                forall|k: int| 0 <= k < i ==> (#[trigger] self.users@[k]).id@ != user.id@,
            decreases n - i,
        {
            if self.users[i].id.eq(&user.id) {
                proof {
                    assert(has_user_id(self.users@, user.id@));
                }
                return Err(CoreError::Internal);
            }
            i = i + 1;
        }
        let created_at = user.created_at;
        let fresh = UserSettings::new(user.id.clone(), created_at);
        let ghost old_self = *self;
        let index = self.users.len();
        self.users.push(user);
        self.settings.push(fresh);
        proof {
            lemma_insert_user_preserves(old_self, *self, user);
        }
        Ok(index)
    }

    /// Registers an account: hashes nothing itself — it stores the given
    /// digest — draws a fresh id, and creates the default settings. Fails
    /// with `Conflict` exactly when the email is taken; an id collision
    /// surfaces as `Internal` and changes nothing.
    pub fn create_user(&mut self, user_data: &NewUser, password_hash: String, now: u64) -> (r:
        Result<usize, CoreError>)
        requires
            old(self).wf(),
        ensures
            final(self).wf(),
            r == Err::<usize, CoreError>(CoreError::Conflict) <==> old(self).email_taken(
                user_data.email@,
            ),
            r is Err ==> *final(self) == *old(self) && (r == Err::<usize, CoreError>(
                CoreError::Conflict,
            ) || r == Err::<usize, CoreError>(CoreError::Internal)),
            r matches Ok(i) ==> {
                &&& i == old(self).users@.len()
                &&& final(self).users@.len() == old(self).users@.len() + 1
                &&& forall|k: int|
                    0 <= k < old(self).users@.len() ==> final(self).users@[k] == old(
                        self,
                    ).users@[k]
                &&& final(self).users@.last().email@ == user_data.email@
                &&& final(self).users@.last().password_hash@ == password_hash@
                &&& final(self).users@.last().first_name == user_data.first_name
                &&& final(self).users@.last().last_name == user_data.last_name
                &&& final(self).users@.last().company_name == user_data.company_name
                &&& final(self).users@.last().tax_id == user_data.tax_id
                &&& final(self).users@.last().created_at == now
                &&& final(self).clients == old(self).clients
                &&& final(self).invoices == old(self).invoices
            },
    {
        let user = User::new(
            user_data.email.clone(),
            password_hash,
            crate::user::clone_opt_string(&user_data.first_name),
            crate::user::clone_opt_string(&user_data.last_name),
            crate::user::clone_opt_string(&user_data.company_name),
            crate::user::clone_opt_string(&user_data.tax_id),
            now,
        );
        self.insert_user(user)
    }

    /// The index of the account carrying the id `uid`.
    fn find_user_index_by_id(&self, uid: &str) -> (r: Option<usize>)
        ensures
            match r {
                Some(i) => i < self.users@.len() && self.users@[i as int].id@ == uid@,
                None => !has_user_id(self.users@, uid@),
            },
    {
        let needle = String::from_str(uid);
        let n = self.users.len();
        let mut i: usize = 0;
        while i < n
            invariant
                n == self.users@.len(),
                needle@ == uid@,
                0 <= i <= n,
                forall|k: int| 0 <= k < i ==> (#[trigger] self.users@[k]).id@ != uid@,
            decreases n - i,
        {
            if self.users[i].id.eq(&needle) {
                return Some(i);
            }
            i = i + 1;
        }
        None
    }

    /// The index of the client carrying the id `cid`.
    fn find_client_index_by_id(&self, cid: &str) -> (r: Option<usize>)
        ensures
            match r {
                Some(k) => k < self.clients@.len() && self.clients@[k as int].id@ == cid@,
                None => !has_client_id(self.clients@, cid@),
            },
    {
        let needle = String::from_str(cid);
        let n = self.clients.len();
        let mut k: usize = 0;
        while k < n
            invariant
                n == self.clients@.len(),
                needle@ == cid@,
                0 <= k <= n,
                forall|l: int| 0 <= l < k ==> (#[trigger] self.clients@[l]).id@ != cid@,
            decreases n - k,
        {
            if self.clients[k].id.eq(&needle) {
                return Some(k);
            }
            k = k + 1;
        }
        None
    }

    /// Adds a fully built client. Fails with `NotFound` exactly when no
    /// account carries the owner id, and with `Internal` exactly when, the
    /// owner existing, the client id is already taken. On failure nothing
    /// changes.
    pub fn insert_client(&mut self, client: Client) -> (r: Result<usize, CoreError>)
        requires
            old(self).wf(),
        ensures
            final(self).wf(),
            r == Err::<usize, CoreError>(CoreError::NotFound) <==> !has_user_id(
                old(self).users@,
                client.user_id@,
            ),
            r == Err::<usize, CoreError>(CoreError::Internal) <==> has_user_id(
                old(self).users@,
                client.user_id@,
            ) && has_client_id(old(self).clients@, client.id@),
            r is Err ==> *final(self) == *old(self) && (r == Err::<usize, CoreError>(
                CoreError::NotFound,
            ) || r == Err::<usize, CoreError>(CoreError::Internal)),
            r matches Ok(k) ==> {
                &&& k == old(self).clients@.len()
                &&& final(self).clients@ == old(self).clients@.push(client)
                &&& final(self).users == old(self).users
                &&& final(self).settings == old(self).settings
                &&& final(self).invoices == old(self).invoices
            },
    {
        if let None = self.find_user_index_by_id(client.user_id.as_str()) {
            return Err(CoreError::NotFound);
        }
        if let Some(_) = self.find_client_index_by_id(client.id.as_str()) {
            return Err(CoreError::Internal);
        }
        let ghost old_self = *self;
        let index = self.clients.len();
        self.clients.push(client);
        proof {
            lemma_insert_client_preserves(old_self, *self, client);
        }
        Ok(index)
    }

    /// Creates a client from submitted data under a freshly drawn id. Fails
    /// with `NotFound` exactly when no account carries the owner id; an id
    /// collision surfaces as `Internal` and changes nothing.
    pub fn create_client(&mut self, client_data: &NewClient, now: u64) -> (r: Result<
        usize,
        CoreError,
    >)
        requires
            old(self).wf(),
        ensures
            final(self).wf(),
            r == Err::<usize, CoreError>(CoreError::NotFound) <==> !has_user_id(
                old(self).users@,
                client_data.user_id@,
            ),
            r is Err ==> *final(self) == *old(self) && (r == Err::<usize, CoreError>(
                CoreError::NotFound,
            ) || r == Err::<usize, CoreError>(CoreError::Internal)),
            r matches Ok(k) ==> {
                &&& k == old(self).clients@.len()
                &&& final(self).clients@.len() == old(self).clients@.len() + 1
                &&& forall|l: int|
                    0 <= l < old(self).clients@.len() ==> final(self).clients@[l] == old(
                        self,
                    ).clients@[l]
                &&& final(self).clients@.last().user_id@ == client_data.user_id@
                &&& final(self).clients@.last().name@ == client_data.name@
                &&& final(self).clients@.last().email == client_data.email
                &&& final(self).clients@.last().company == client_data.company
                &&& final(self).clients@.last().street == client_data.street
                &&& final(self).clients@.last().city == client_data.city
                &&& final(self).clients@.last().postal_code == client_data.postal_code
                &&& final(self).clients@.last().country@ == client_data.country@
                &&& final(self).clients@.last().vat_number == client_data.vat_number
                &&& final(self).clients@.last().created_at == now
                &&& final(self).users == old(self).users
                &&& final(self).settings == old(self).settings
                &&& final(self).invoices == old(self).invoices
            },
    {
        let client = Client::new(
            client_data.user_id.clone(),
            client_data.name.clone(),
            clone_opt_string(&client_data.email),
            clone_opt_string(&client_data.company),
            clone_opt_string(&client_data.street),
            clone_opt_string(&client_data.city),
            clone_opt_string(&client_data.postal_code),
            client_data.country.clone(),
            clone_opt_string(&client_data.vat_number),
            now,
        );
        self.insert_client(client)
    }

    /// The clients owned by one account, newest first, as the listing
    /// endpoint returned them.
    pub fn get_clients_by_user(&self, user_id: &str) -> (r: Vec<Client>)
        ensures
            r@ == owned_clients(self.clients@, user_id@),
    {
        let needle = String::from_str(user_id);
        let n = self.clients.len();
        let mut out: Vec<Client> = Vec::new();
        let mut k: usize = n;
        while k > 0
            invariant
                n == self.clients@.len(),
                needle@ == user_id@,
                0 <= k <= n,
                out@ == owned_clients(self.clients@.skip(k as int), user_id@),
            decreases k,
        {
            k = k - 1;
            if self.clients[k].user_id.eq(&needle) {
                out.push(self.clients[k].duplicate());
            }
            proof {
                assert(self.clients@.skip(k as int).drop_first() =~= self.clients@.skip(k + 1));
            }
        }
        proof {
            assert(self.clients@.skip(0) =~= self.clients@);
        }
        out
    }

    /// The index of the invoice carrying the id `iid`.
    fn find_invoice_index_by_id(&self, iid: &str) -> (r: Option<usize>)
        ensures
            match r {
                Some(m) => m < self.invoices@.len() && self.invoices@[m as int].id@ == iid@,
                None => !has_invoice_id(self.invoices@, iid@),
            },
    {
        let needle = String::from_str(iid);
        let n = self.invoices.len();
        let mut m: usize = 0;
        while m < n
            invariant
                n == self.invoices@.len(),
                needle@ == iid@,
                0 <= m <= n,
                forall|l: int| 0 <= l < m ==> (#[trigger] self.invoices@[l]).id@ != iid@,
            decreases n - m,
        {
            if self.invoices[m].id.eq(&needle) {
                return Some(m);
            }
            m = m + 1;
        }
        None
    }

    /// Produces the next invoice number for an account, as the account's
    /// prefix followed by a dash and a strictly increasing sequence value
    /// starting at 1. The read-increment-write of the counter happens under
    /// the exclusive borrow, as one isolated unit, so no two callers can be
    /// handed the same value; the counter is never rolled back. Fails with
    /// `NotFound` exactly when the account is absent, and with `Internal`
    /// exactly when the counter is exhausted.
    pub fn allocate(&mut self, user_id: &str) -> (r: Result<(u64, String), CoreError>)
        requires
            old(self).wf(),
        ensures
            final(self).wf(),
            r == Err::<(u64, String), CoreError>(CoreError::NotFound) <==> !has_user_id(
                old(self).users@,
                user_id@,
            ),
            r == Err::<(u64, String), CoreError>(CoreError::Internal) <==> has_user_id(
                old(self).users@,
                user_id@,
            ) && old(self).settings@[user_index(old(self).users@, user_id@)].next_invoice_number
                == u64::MAX,
            r is Err ==> *final(self) == *old(self) && (r == Err::<(u64, String), CoreError>(
                CoreError::NotFound,
            ) || r == Err::<(u64, String), CoreError>(CoreError::Internal)),
            r matches Ok((s, num)) ==> ({
                let i = user_index(old(self).users@, user_id@);
                &&& has_user_id(old(self).users@, user_id@)
                &&& 0 <= i < old(self).settings@.len()
                &&& s == old(self).settings@[i].next_invoice_number
                &&& num@ == spec_invoice_number(old(self).settings@[i].invoice_prefix@, s as nat)
                &&& final(self).settings@.len() == old(self).settings@.len()
                &&& forall|k: int|
                    0 <= k < old(self).settings@.len() && k != i ==> final(self).settings@[k]
                        == old(self).settings@[k]
                &&& final(self).settings@[i].next_invoice_number == s + 1
                &&& final(self).settings@[i].user_id == old(self).settings@[i].user_id
                &&& final(self).settings@[i].default_tax_rate_bp == old(
                    self,
                ).settings@[i].default_tax_rate_bp
                &&& final(self).settings@[i].currency == old(self).settings@[i].currency
                &&& final(self).settings@[i].invoice_prefix == old(
                    self,
                ).settings@[i].invoice_prefix
                &&& final(self).settings@[i].payment_terms_days == old(
                    self,
                ).settings@[i].payment_terms_days
                &&& final(self).users == old(self).users
                &&& final(self).clients == old(self).clients
                &&& final(self).invoices == old(self).invoices
            }),
    {
        let i = match self.find_user_index_by_id(user_id) {
            Some(i) => i,
            None => {
                return Err(CoreError::NotFound);
            },
        };
        proof {
            lemma_user_index_unique(self.users@, user_id@, i as int);
        }
        let next = self.settings[i].next_invoice_number;
        if next == u64::MAX {
            return Err(CoreError::Internal);
        }
        let num = render_invoice_number(self.settings[i].invoice_prefix.as_str(), next);
        let ghost old_self = *self;
        let st = &mut self.settings[i];
        let s = st.allocate();
        proof {
            lemma_allocate_preserves(old_self, *self, i as int);
        }
        Ok((s, num))
    }

    /// Whether the owner account named by the submitted invoice is absent.
    pub open spec fn invoice_owner_missing(&self, data: NewInvoice) -> bool {
        !has_user_id(self.users@, data.user_id@)
    }

    /// Whether the referenced client is absent.
    pub open spec fn invoice_client_missing(&self, data: NewInvoice) -> bool {
        !has_client_id(self.clients@, data.client_id@)
    }

    /// Whether the referenced client exists but belongs to another account.
    pub open spec fn invoice_cross_account(&self, data: NewInvoice) -> bool {
        has_client_id(self.clients@, data.client_id@) && self.clients@[client_index(
            self.clients@,
            data.client_id@,
        )].user_id@ != data.user_id@
    }

    /// The tax rate an invoice will carry: the submitted one, or the owner
    /// account's default.
    pub open spec fn resolved_tax_rate(&self, data: NewInvoice) -> int {
        match data.tax_rate_bp {
            Some(r) => r as int,
            None => self.settings@[user_index(self.users@, data.user_id@)].default_tax_rate_bp
                as int,
        }
    }

    /// Whether the submitted invoice data itself is rejected: dates out of
    /// order, or line items and tax rate that the calculator refuses.
    pub open spec fn invoice_data_invalid(&self, data: NewInvoice) -> bool {
        data.issue_day > data.due_day || !calc_ok(data.items@, self.resolved_tax_rate(data))
    }

    /// Whether the owner account's sequence counter is exhausted.
    pub open spec fn invoice_counter_full(&self, data: NewInvoice) -> bool {
        self.settings@[user_index(self.users@, data.user_id@)].next_invoice_number == u64::MAX
    }

    /// Creates an invoice under the given id: validates the reference
    /// chain and the line items, allocates the next sequence value, and
    /// stores the invoice with its computed amounts. Errors are exact:
    /// `NotFound` for an absent owner or client, `Validation` for a
    /// cross-account client, dates out of order or rejected items,
    /// `Conflict` for a taken invoice id, `Internal` for an exhausted
    /// counter. On any failure nothing changes — in particular no sequence
    /// value is consumed.
    pub fn create_invoice_with_id(&mut self, invoice_id: &str, data: &NewInvoice, now: u64) -> (r:
        Result<usize, CoreError>)
        requires
            old(self).wf(),
        ensures
            final(self).wf(),
            r == Err::<usize, CoreError>(CoreError::NotFound) <==> old(self).invoice_owner_missing(
                *data,
            ) || old(self).invoice_client_missing(*data),
            r == Err::<usize, CoreError>(CoreError::Validation) <==> !old(
                self,
            ).invoice_owner_missing(*data) && !old(self).invoice_client_missing(*data) && (old(
                self,
            ).invoice_cross_account(*data) || old(self).invoice_data_invalid(*data)),
            r == Err::<usize, CoreError>(CoreError::Conflict) <==> !old(self).invoice_owner_missing(
                *data,
            ) && !old(self).invoice_client_missing(*data) && !old(self).invoice_cross_account(
                *data,
            ) && !old(self).invoice_data_invalid(*data) && has_invoice_id(
                old(self).invoices@,
                invoice_id@,
            ),
            r == Err::<usize, CoreError>(CoreError::Internal) <==> !old(self).invoice_owner_missing(
                *data,
            ) && !old(self).invoice_client_missing(*data) && !old(self).invoice_cross_account(
                *data,
            ) && !old(self).invoice_data_invalid(*data) && !has_invoice_id(
                old(self).invoices@,
                invoice_id@,
            ) && old(self).invoice_counter_full(*data),
            r is Err ==> *final(self) == *old(self) && (r == Err::<usize, CoreError>(
                CoreError::NotFound,
            ) || r == Err::<usize, CoreError>(CoreError::Validation) || r == Err::<
                usize,
                CoreError,
            >(CoreError::Conflict) || r == Err::<usize, CoreError>(CoreError::Internal)),
            r matches Ok(m) ==> ({
                let i = user_index(old(self).users@, data.user_id@);
                let rate = old(self).resolved_tax_rate(*data);
                let s = old(self).settings@[i].next_invoice_number;
                let inv = final(self).invoices@.last();
                &&& m == old(self).invoices@.len()
                &&& final(self).invoices@.len() == old(self).invoices@.len() + 1
                &&& forall|k: int|
                    0 <= k < old(self).invoices@.len() ==> final(self).invoices@[k] == old(
                        self,
                    ).invoices@[k]
                &&& inv.id@ == invoice_id@
                &&& inv.user_id@ == data.user_id@
                &&& inv.client_id@ == data.client_id@
                &&& inv.sequence == s
                &&& inv.invoice_number@ == spec_invoice_number(
                    old(self).settings@[i].invoice_prefix@,
                    s as nat,
                )
                &&& inv.issue_day == data.issue_day
                &&& inv.due_day == data.due_day
                &&& inv.currency@ == match data.currency {
                    Some(c) => c@,
                    None => old(self).settings@[i].currency@,
                }
                &&& inv.tax_rate_bp == rate
                &&& inv.subtotal_cents == spec_subtotal_cents(data.items@)
                &&& inv.tax_amount_cents == spec_tax_cents(spec_subtotal_cents(data.items@), rate)
                &&& inv.total_amount_cents == spec_total_cents(data.items@, rate)
                &&& inv.status == InvoiceStatus::Draft
                &&& inv.notes == data.notes
                &&& inv.created_at == now
                &&& inv.items@.len() == data.items@.len()
                &&& forall|k: int|
                    0 <= k < data.items@.len() ==> {
                        &&& (#[trigger] inv.items@[k]).description@ == data.items@[k].description@
                        &&& inv.items@[k].quantity == data.items@[k].quantity
                        &&& inv.items@[k].unit_price_milli == data.items@[k].unit_price_milli
                    }
                &&& final(self).users == old(self).users
                &&& final(self).clients == old(self).clients
                &&& final(self).settings@.len() == old(self).settings@.len()
                &&& forall|k: int|
                    0 <= k < old(self).settings@.len() && k != i ==> final(self).settings@[k]
                        == old(self).settings@[k]
                &&& final(self).settings@[i].next_invoice_number == s + 1
                &&& final(self).settings@[i].invoice_prefix == old(
                    self,
                ).settings@[i].invoice_prefix
                &&& final(self).settings@[i].currency == old(self).settings@[i].currency
                &&& final(self).settings@[i].default_tax_rate_bp == old(
                    self,
                ).settings@[i].default_tax_rate_bp
                &&& final(self).settings@[i].user_id == old(self).settings@[i].user_id
            }),
    {
        let i = match self.find_user_index_by_id(data.user_id.as_str()) {
            Some(i) => i,
            None => {
                return Err(CoreError::NotFound);
            },
        };
        proof {
            lemma_user_index_unique(self.users@, data.user_id@, i as int);
        }
        let c = match self.find_client_index_by_id(data.client_id.as_str()) {
            Some(c) => c,
            None => {
                return Err(CoreError::NotFound);
            },
        };
        proof {
            lemma_client_index_unique(self.clients@, data.client_id@, c as int);
        }
        if !self.clients[c].user_id.eq(&data.user_id) {
            return Err(CoreError::Validation);
        }
        if data.issue_day > data.due_day {
            return Err(CoreError::Validation);
        }
        let rate: i64 = match &data.tax_rate_bp {
            Some(r) => *r,
            None => self.settings[i].default_tax_rate_bp,
        };
        let totals = match compute_invoice_totals(&data.items, rate) {
            Ok(t) => t,
            Err(e) => {
                return Err(e.to_core());
            },
        };
        if let Some(_) = self.find_invoice_index_by_id(invoice_id) {
            return Err(CoreError::Conflict);
        }
        let currency: String = match &data.currency {
            Some(c) => c.clone(),
            None => self.settings[i].currency.clone(),
        };
        let ghost pre_alloc = *self;
        let (s, num) = match self.allocate(data.user_id.as_str()) {
            Ok(p) => p,
            Err(e) => {
                return Err(e);
            },
        };
        let id_string = String::from_str(invoice_id);
        let items = build_invoice_items(&id_string, &data.items, &totals.line_total_cents, now);
        let invoice = Invoice::new(
            id_string,
            data.user_id.clone(),
            data.client_id.clone(),
            num,
            s,
            data.issue_day,
            data.due_day,
            currency,
            rate,
            totals.subtotal_cents,
            totals.tax_amount_cents,
            totals.total_amount_cents,
            clone_opt_string(&data.notes),
            items,
            now,
        );
        let ghost pre_push = *self;
        let index = self.invoices.len();
        self.invoices.push(invoice);
        proof {
            lemma_insert_invoice_preserves(pre_push, *self, invoice, i as int);
        }
        Ok(index)
    }

    /// Creates an invoice under a freshly drawn id; see
    /// `create_invoice_with_id` for the exact error conditions. A random id
    /// collision surfaces as `Internal`. On any failure nothing changes —
    /// in particular no sequence value is consumed.
    pub fn create_invoice(&mut self, data: &NewInvoice, now: u64) -> (r: Result<usize, CoreError>)
        requires
            old(self).wf(),
        ensures
            final(self).wf(),
            r == Err::<usize, CoreError>(CoreError::NotFound) <==> old(self).invoice_owner_missing(
                *data,
            ) || old(self).invoice_client_missing(*data),
            r == Err::<usize, CoreError>(CoreError::Validation) <==> !old(
                self,
            ).invoice_owner_missing(*data) && !old(self).invoice_client_missing(*data) && (old(
                self,
            ).invoice_cross_account(*data) || old(self).invoice_data_invalid(*data)),
            r is Err ==> *final(self) == *old(self) && (r == Err::<usize, CoreError>(
                CoreError::NotFound,
            ) || r == Err::<usize, CoreError>(CoreError::Validation) || r == Err::<
                usize,
                CoreError,
            >(CoreError::Internal)),
            r matches Ok(m) ==> ({
                let i = user_index(old(self).users@, data.user_id@);
                let rate = old(self).resolved_tax_rate(*data);
                let s = old(self).settings@[i].next_invoice_number;
                let inv = final(self).invoices@.last();
                &&& m == old(self).invoices@.len()
                &&& final(self).invoices@.len() == old(self).invoices@.len() + 1
                &&& forall|k: int|
                    0 <= k < old(self).invoices@.len() ==> final(self).invoices@[k] == old(
                        self,
                    ).invoices@[k]
                &&& inv.user_id@ == data.user_id@
                &&& inv.client_id@ == data.client_id@
                &&& inv.sequence == s
                &&& inv.invoice_number@ == spec_invoice_number(
                    old(self).settings@[i].invoice_prefix@,
                    s as nat,
                )
                &&& inv.issue_day == data.issue_day
                &&& inv.due_day == data.due_day
                &&& inv.currency@ == match data.currency {
                    Some(c) => c@,
                    None => old(self).settings@[i].currency@,
                }
                &&& inv.tax_rate_bp == rate
                &&& inv.subtotal_cents == spec_subtotal_cents(data.items@)
                &&& inv.tax_amount_cents == spec_tax_cents(spec_subtotal_cents(data.items@), rate)
                &&& inv.total_amount_cents == spec_total_cents(data.items@, rate)
                &&& inv.status == InvoiceStatus::Draft
                &&& inv.notes == data.notes
                &&& inv.created_at == now
                &&& inv.items@.len() == data.items@.len()
                &&& forall|k: int|
                    0 <= k < data.items@.len() ==> {
                        &&& (#[trigger] inv.items@[k]).description@ == data.items@[k].description@
                        &&& inv.items@[k].quantity == data.items@[k].quantity
                        &&& inv.items@[k].unit_price_milli == data.items@[k].unit_price_milli
                    }
                &&& final(self).users == old(self).users
                &&& final(self).clients == old(self).clients
                &&& final(self).settings@.len() == old(self).settings@.len()
                &&& forall|k: int|
                    0 <= k < old(self).settings@.len() && k != i ==> final(self).settings@[k]
                        == old(self).settings@[k]
                &&& final(self).settings@[i].next_invoice_number == s + 1
                &&& final(self).settings@[i].invoice_prefix == old(
                    self,
                ).settings@[i].invoice_prefix
                &&& final(self).settings@[i].currency == old(self).settings@[i].currency
                &&& final(self).settings@[i].default_tax_rate_bp == old(
                    self,
                ).settings@[i].default_tax_rate_bp
                &&& final(self).settings@[i].user_id == old(self).settings@[i].user_id
            }),
    {
        let id = crate::ids::fresh_uuid();
        match self.create_invoice_with_id(id.as_str(), data, now) {
            Ok(m) => Ok(m),
            Err(CoreError::Conflict) => Err(CoreError::Internal),
            Err(e) => Err(e),
        }
    }

    /// The invoices owned by one account, newest first, as the listing
    /// endpoint returned them.
    pub fn get_invoices_by_user<'a>(&'a self, user_id: &str) -> (r: Vec<&'a Invoice>)
        ensures
            r@.len() == invoices_of(self.invoices@, user_id@).len(),
            forall|k: int|
                0 <= k < r@.len() ==> *r@[k] == invoices_of(self.invoices@, user_id@)[k],
    {
        let needle = String::from_str(user_id);
        let n = self.invoices.len();
        let mut out: Vec<&Invoice> = Vec::new();
        let mut m: usize = n;
        while m > 0
            invariant
                n == self.invoices@.len(),
                needle@ == user_id@,
                0 <= m <= n,
                out@.len() == invoices_of(self.invoices@.skip(m as int), user_id@).len(),
                forall|k: int|
                    0 <= k < out@.len() ==> *out@[k] == invoices_of(
                        self.invoices@.skip(m as int),
                        user_id@,
                    )[k],
            decreases m,
        {
            m = m - 1;
            if self.invoices[m].user_id.eq(&needle) {
                out.push(&self.invoices[m]);
            }
            proof {
                assert(self.invoices@.skip(m as int).drop_first() =~= self.invoices@.skip(m + 1));
            }
        }
        proof {
            assert(self.invoices@.skip(0) =~= self.invoices@);
        }
        out
    }

    /// Looks one invoice up by id; a miss is an absence, never a failure.
    pub fn get_invoice(&self, invoice_id: &str) -> (r: Option<&Invoice>)
        ensures
            match r {
                Some(inv) => exists|m: int|
                    0 <= m < self.invoices@.len() && *inv == #[trigger] self.invoices@[m]
                        && inv.id@ == invoice_id@,
                None => !has_invoice_id(self.invoices@, invoice_id@),
            },
    {
        match self.find_invoice_index_by_id(invoice_id) {
            Some(m) => Some(&self.invoices[m]),
            None => None,
        }
    }
}

/// The invoices among `invoices` owned by the account `uid`, newest first:
/// the original service listed them by creation instant, descending.
pub open spec fn invoices_of(invoices: Seq<Invoice>, uid: Seq<char>) -> Seq<Invoice>
    decreases invoices.len(),
{
    if invoices.len() == 0 {
        Seq::empty()
    } else {
        let rest = invoices_of(invoices.drop_first(), uid);
        if invoices.first().user_id@ == uid {
            rest.push(invoices.first())
        } else {
            rest
        }
    }
}

/// In a well-formed store, two distinct invoices of one account never carry
/// the same invoice number: they differ in their sequence values, and for a
/// fixed prefix the rendering of distinct sequence values differs.
pub proof fn lemma_invoice_numbers_unique_per_account(db: &Database, m: int, n: int)
    requires
        db.wf(),
        0 <= m < n < db.invoices@.len(),
        db.invoices@[m].user_id@ == db.invoices@[n].user_id@,
    ensures
        db.invoices@[m].invoice_number@ != db.invoices@[n].invoice_number@,
{
    let a = db.invoices@[m];
    let b = db.invoices@[n];
    let i = user_index(db.users@, a.user_id@);
    assert(db.invoice_record_wf(a));
    assert(db.invoice_record_wf(b));
    if a.invoice_number@ == b.invoice_number@ {
        lemma_invoice_number_injective(
            db.settings@[i].invoice_prefix@,
            a.sequence as nat,
            b.sequence as nat,
        );
        assert(false);
    }
}

/// In a well-formed store invoice ids are unique, so a stored invoice
/// carrying a given id is the only one that does.
pub proof fn lemma_invoice_id_determines(db: &Database, inv: Invoice, iid: Seq<char>)
    requires
        db.wf(),
        inv.id@ == iid,
        exists|m: int| 0 <= m < db.invoices@.len() && inv == #[trigger] db.invoices@[m],
    ensures
        forall|m: int|
            0 <= m < db.invoices@.len() && (#[trigger] db.invoices@[m]).id@ == iid
                ==> db.invoices@[m] == inv,
{
    let m0 = choose|m: int| 0 <= m < db.invoices@.len() && inv == #[trigger] db.invoices@[m];
    assert forall|m: int|
        0 <= m < db.invoices@.len() && (#[trigger] db.invoices@[m]).id@ == iid
        implies db.invoices@[m] == inv by {
        if m != m0 {
            assert(db.invoices@[m].id@ != db.invoices@[m0].id@);
        }
    }
}

/// If the account at `i` carries `uid` and ids are unique, the id lookup
/// lands exactly on `i`.
proof fn lemma_user_index_unique(users: Seq<User>, uid: Seq<char>, i: int)
    requires
        0 <= i < users.len(),
        users[i].id@ == uid,
        forall|k: int, l: int|
            #![trigger users[k], users[l]]
            0 <= k < l < users.len() ==> users[k].id@ != users[l].id@,
    ensures
        has_user_id(users, uid),
        user_index(users, uid) == i,
{
    assert(has_user_id(users, uid));
    let j = user_index(users, uid);
    assert(0 <= j < users.len() && users[j].id@ == uid);
    if i != j {
        assert(users[i].id@ != users[j].id@ || users[j].id@ != users[i].id@);
        assert(false);
    }
}

/// If the client at `k` carries `cid` and ids are unique, the id lookup
/// lands exactly on `k`.
proof fn lemma_client_index_unique(clients: Seq<Client>, cid: Seq<char>, k: int)
    requires
        0 <= k < clients.len(),
        clients[k].id@ == cid,
        forall|a: int, b: int|
            #![trigger clients[a], clients[b]]
            0 <= a < b < clients.len() ==> clients[a].id@ != clients[b].id@,
    ensures
        has_client_id(clients, cid),
        client_index(clients, cid) == k,
{
    assert(has_client_id(clients, cid));
    let l = client_index(clients, cid);
    assert(0 <= l < clients.len() && clients[l].id@ == cid);
    if k != l {
        assert(clients[k].id@ != clients[l].id@ || clients[l].id@ != clients[k].id@);
        assert(false);
    }
}

/// Bumping one account's sequence counter preserves the store invariant:
/// every stored invoice's sequence value stays below the counter, and the
/// prefix its number was rendered with is untouched.
proof fn lemma_allocate_preserves(pre: Database, post: Database, i: int)
    requires
        pre.wf(),
        0 <= i < pre.settings@.len(),
        post.users == pre.users,
        post.clients == pre.clients,
        post.invoices == pre.invoices,
        post.settings@.len() == pre.settings@.len(),
        forall|k: int|
            0 <= k < pre.settings@.len() && k != i ==> post.settings@[k] == pre.settings@[k],
        post.settings@[i].next_invoice_number == pre.settings@[i].next_invoice_number + 1,
        post.settings@[i].user_id == pre.settings@[i].user_id,
        post.settings@[i].default_tax_rate_bp == pre.settings@[i].default_tax_rate_bp,
        post.settings@[i].invoice_prefix == pre.settings@[i].invoice_prefix,
    ensures
        post.wf(),
{
    assert forall|m: int| 0 <= m < post.invoices@.len() implies post.invoice_record_wf(
        #[trigger] post.invoices@[m],
    ) by {
        let inv = post.invoices@[m];
        assert(pre.invoice_record_wf(inv));
        let w = user_index(pre.users@, inv.user_id@);
        if w != i {
            assert(post.settings@[w] == pre.settings@[w]);
        }
    }
}

/// Pushing an invoice whose id is fresh, whose owner and client exist and
/// agree, whose number was rendered from the owner's prefix at a sequence
/// value below the counter and above every stored sequence of that owner,
/// preserves the store invariant.
proof fn lemma_insert_invoice_preserves(pre: Database, post: Database, inv: Invoice, i: int)
    requires
        pre.wf(),
        post.invoices@ == pre.invoices@.push(inv),
        post.users == pre.users,
        post.settings == pre.settings,
        post.clients == pre.clients,
        wf_invoice(inv),
        has_user_id(pre.users@, inv.user_id@),
        user_index(pre.users@, inv.user_id@) == i,
        0 <= i < pre.settings@.len(),
        inv.sequence < pre.settings@[i].next_invoice_number,
        inv.invoice_number@ == spec_invoice_number(
            pre.settings@[i].invoice_prefix@,
            inv.sequence as nat,
        ),
        has_client_id(pre.clients@, inv.client_id@),
        pre.clients@[client_index(pre.clients@, inv.client_id@)].user_id@ == inv.user_id@,
        !has_invoice_id(pre.invoices@, inv.id@),
        forall|m: int|
            0 <= m < pre.invoices@.len() && (#[trigger] pre.invoices@[m]).user_id@ == inv.user_id@
                ==> pre.invoices@[m].sequence < inv.sequence,
    ensures
        post.wf(),
{
    let n = pre.invoices@.len() as int;
    assert forall|m: int| 0 <= m < post.invoices@.len() implies post.invoice_record_wf(
        #[trigger] post.invoices@[m],
    ) by {
        if m < n {
            assert(post.invoices@[m] == pre.invoices@[m]);
            assert(pre.invoice_record_wf(pre.invoices@[m]));
        } else {
            assert(post.invoices@[m] == inv);
        }
    }
    assert forall|m: int, l: int|
        #![trigger post.invoices@[m], post.invoices@[l]]
        0 <= m < l < post.invoices@.len() implies post.invoices@[m].id@
        != post.invoices@[l].id@ by {
        if l < n {
            assert(pre.invoices@[m].id@ != pre.invoices@[l].id@);
        } else {
            assert(post.invoices@[l] == inv);
            assert(post.invoices@[m] == pre.invoices@[m]);
        }
    }
    assert forall|m: int, l: int|
        #![trigger post.invoices@[m], post.invoices@[l]]
        0 <= m < l < post.invoices@.len() && post.invoices@[m].user_id@
        == post.invoices@[l].user_id@ implies post.invoices@[m].sequence
        != post.invoices@[l].sequence by {
        if l < n {
            assert(pre.invoices@[m] == post.invoices@[m]);
            assert(pre.invoices@[l] == post.invoices@[l]);
        } else {
            assert(post.invoices@[l] == inv);
            assert(post.invoices@[m] == pre.invoices@[m]);
        }
    }
}

/// The clients among `clients` owned by the account `uid`, newest first:
/// the original service listed them by creation instant, descending.
pub open spec fn owned_clients(clients: Seq<Client>, uid: Seq<char>) -> Seq<Client>
    decreases clients.len(),
{
    if clients.len() == 0 {
        Seq::empty()
    } else {
        let rest = owned_clients(clients.drop_first(), uid);
        if clients.first().user_id@ == uid {
            rest.push(clients.first())
        } else {
            rest
        }
    }
}

/// Pushing a client whose id is fresh and whose owner exists preserves the
/// store invariant.
proof fn lemma_insert_client_preserves(pre: Database, post: Database, client: Client)
    requires
        pre.wf(),
        has_user_id(pre.users@, client.user_id@),
        !has_client_id(pre.clients@, client.id@),
        post.clients@ == pre.clients@.push(client),
        post.users == pre.users,
        post.settings == pre.settings,
        post.invoices == pre.invoices,
    ensures
        post.wf(),
{
    let n = pre.clients@.len() as int;
    assert forall|k: int| 0 <= k < post.clients@.len() implies has_user_id(
        post.users@,
        (#[trigger] post.clients@[k]).user_id@,
    ) by {
        if k < n {
            assert(post.clients@[k] == pre.clients@[k]);
        }
    }
    assert forall|m: int| 0 <= m < post.invoices@.len() implies post.invoice_record_wf(
        #[trigger] post.invoices@[m],
    ) by {
        let inv = post.invoices@[m];
        assert(pre.invoice_record_wf(inv));
        lemma_client_index_push_stable(pre.clients@, client, inv.client_id@);
    }
}

/// When a client with a fresh id is appended, lookups of any id already
/// present land on the same index as before.
proof fn lemma_client_index_push_stable(clients: Seq<Client>, client: Client, cid: Seq<char>)
    requires
        has_client_id(clients, cid),
        client.id@ != cid,
        forall|k: int, l: int|
            #![trigger clients[k], clients[l]]
            0 <= k < l < clients.len() ==> clients[k].id@ != clients[l].id@,
    ensures
        has_client_id(clients.push(client), cid),
        client_index(clients.push(client), cid) == client_index(clients, cid),
        0 <= client_index(clients, cid) < clients.len(),
{
    let k = client_index(clients, cid);
    assert(0 <= k < clients.len() && clients[k].id@ == cid);
    let pushed = clients.push(client);
    assert(pushed[k] == clients[k]);
    assert(has_client_id(pushed, cid));
    let l = client_index(pushed, cid);
    assert(0 <= l < pushed.len() && pushed[l].id@ == cid);
    if l == clients.len() {
        assert(pushed[l] == client);
        assert(false);
    } else {
        assert(pushed[l] == clients[l]);
        if k != l {
            assert(clients[k].id@ != clients[l].id@);
            assert(false);
        }
    }
}

/// Pushing an account whose id and case-folded email are fresh, together
/// with its default settings, preserves the store invariant.
proof fn lemma_insert_user_preserves(pre: Database, post: Database, user: User)
    requires
        pre.wf(),
        !pre.email_taken(user.email@),
        !has_user_id(pre.users@, user.id@),
        post.users@ == pre.users@.push(user),
        post.settings@.len() == pre.settings@.len() + 1,
        forall|k: int| 0 <= k < pre.settings@.len() ==> post.settings@[k] == pre.settings@[k],
        post.settings@.last().user_id@ == user.id@,
        1 <= post.settings@.last().next_invoice_number,
        0 <= post.settings@.last().default_tax_rate_bp,
        post.clients == pre.clients,
        post.invoices == pre.invoices,
    ensures
        post.wf(),
{
    let n = pre.users@.len() as int;
    assert forall|i: int| 0 <= i < post.users@.len() implies (#[trigger] post.settings@[i]).user_id@
        == post.users@[i].id@ by {
        if i < n {
            assert(post.users@[i] == pre.users@[i]);
        }
    }
    assert forall|k: int| 0 <= k < post.clients@.len() implies has_user_id(
        post.users@,
        (#[trigger] post.clients@[k]).user_id@,
    ) by {
        assert(has_user_id(pre.users@, pre.clients@[k].user_id@));
        let w = user_index(pre.users@, pre.clients@[k].user_id@);
        assert(post.users@[w] == pre.users@[w]);
    }
    assert forall|m: int| 0 <= m < post.invoices@.len() implies post.invoice_record_wf(
        #[trigger] post.invoices@[m],
    ) by {
        let inv = post.invoices@[m];
        assert(pre.invoice_record_wf(inv));
        lemma_user_index_push_stable(pre.users@, user, inv.user_id@);
        let w = user_index(pre.users@, inv.user_id@);
        assert(post.settings@[w] == pre.settings@[w]);
    }
}

/// When an account with a fresh id is appended, lookups of any id already
/// present land on the same index as before.
proof fn lemma_user_index_push_stable(users: Seq<User>, user: User, uid: Seq<char>)
    requires
        has_user_id(users, uid),
        user.id@ != uid,
        forall|i: int, j: int|
            #![trigger users[i], users[j]]
            0 <= i < j < users.len() ==> users[i].id@ != users[j].id@,
    ensures
        has_user_id(users.push(user), uid),
        user_index(users.push(user), uid) == user_index(users, uid),
        0 <= user_index(users, uid) < users.len(),
{
    let i = user_index(users, uid);
    assert(0 <= i < users.len() && users[i].id@ == uid);
    let pushed = users.push(user);
    assert(pushed[i] == users[i]);
    assert(has_user_id(pushed, uid));
    let j = user_index(pushed, uid);
    assert(0 <= j < pushed.len() && pushed[j].id@ == uid);
    if j == users.len() {
        assert(pushed[j] == user);
        assert(false);
    } else {
        assert(pushed[j] == users[j]);
        if i != j {
            assert(users[i].id@ != users[j].id@);
            assert(false);
        }
    }
}

} // verus!
