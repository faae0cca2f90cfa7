//! The subscriber store: registration with idempotent token issuance, and
//! confirmation as a one-way transition from pending to confirmed.
use vstd::prelude::*;
use crate::domain::{NewSubscriber, SubscriberEmail};
use crate::errors::{error_chain_fmt, ConfirmError, StoreTokenError, SubscribeError};
use crate::domain::{valid_email, valid_name};
use crate::token::{generate_subscription_token, is_minted_token, parse_subscription_token, sanitized_token};

verus! {

#[derive(Clone, Copy, Debug, PartialEq, Eq, Structural)]
pub enum SubscriptionStatus {
    PendingConfirmation,
    Confirmed,
}

/// One subscriber record.
pub struct Subscriber {
    pub id: u128,
    pub email: String,
    pub name: String,
    pub status: SubscriptionStatus,
    pub subscribed_at: i64,
}

pub ghost struct SubscriberRow {
    pub id: u128,
    pub email: Seq<char>,
    pub name: Seq<char>,
    pub status: SubscriptionStatus,
    pub subscribed_at: i64,
}

impl View for Subscriber {
    type V = SubscriberRow;

    open spec fn view(&self) -> SubscriberRow {
        SubscriberRow {
            id: self.id,
            email: self.email@,
            name: self.name@,
            status: self.status,
            subscribed_at: self.subscribed_at,
        }
    }
}

/// One token record: the token and the subscriber it was issued to.
pub struct TokenRecord {
    pub token: String,
    pub subscriber_id: u128,
}

pub ghost struct TokenRow {
    pub token: Seq<char>,
    pub subscriber_id: u128,
}

impl View for TokenRecord {
    type V = TokenRow;

    open spec fn view(&self) -> TokenRow {
        TokenRow { token: self.token@, subscriber_id: self.subscriber_id }
    }
}

/// The abstract content of a store: its two tables.
pub ghost struct StoreState {
    pub subscribers: Seq<SubscriberRow>,
    pub tokens: Seq<TokenRow>,
}

pub open spec fn has_email(st: StoreState, e: Seq<char>) -> bool {
    exists|i: int| 0 <= i < st.subscribers.len() && (#[trigger] st.subscribers[i]).email == e
}

pub open spec fn has_id(st: StoreState, id: u128) -> bool {
    exists|i: int| 0 <= i < st.subscribers.len() && (#[trigger] st.subscribers[i]).id == id
}

pub open spec fn has_token(st: StoreState, t: Seq<char>) -> bool {
    exists|j: int| 0 <= j < st.tokens.len() && (#[trigger] st.tokens[j]).token == t
}

pub open spec fn has_token_for(st: StoreState, id: u128) -> bool {
    exists|j: int| 0 <= j < st.tokens.len() && (#[trigger] st.tokens[j]).subscriber_id == id
}

pub open spec fn email_index(st: StoreState, e: Seq<char>) -> int {
    choose|i: int| 0 <= i < st.subscribers.len() && (#[trigger] st.subscribers[i]).email == e
}

pub open spec fn id_index(st: StoreState, id: u128) -> int {
    choose|i: int| 0 <= i < st.subscribers.len() && (#[trigger] st.subscribers[i]).id == id
}

pub open spec fn token_index(st: StoreState, t: Seq<char>) -> int {
    choose|j: int| 0 <= j < st.tokens.len() && (#[trigger] st.tokens[j]).token == t
}

pub open spec fn token_index_for(st: StoreState, id: u128) -> int {
    choose|j: int| 0 <= j < st.tokens.len() && (#[trigger] st.tokens[j]).subscriber_id == id
}

/// The token issued to the subscriber `id`.
pub open spec fn token_of_id(st: StoreState, id: u128) -> Seq<char> {
    st.tokens[token_index_for(st, id)].token
}

/// The token issued to the subscriber with address `e`.
pub open spec fn token_of_email(st: StoreState, e: Seq<char>) -> Seq<char> {
    token_of_id(st, st.subscribers[email_index(st, e)].id)
}

/// The invariant of the store: ids, addresses and tokens are unique; every
/// subscriber holds exactly one token and every token belongs to a subscriber.
pub open spec fn store_wf(st: StoreState) -> bool {
    &&& rows_wf(st)
    &&& forall|i: int| 0 <= i < st.subscribers.len() ==> has_token_for(st, #[trigger] st.subscribers[i].id)
}

/// The invariant of the store inside a registration, where the newest
/// subscriber may not have its token yet.
pub open spec fn rows_wf(st: StoreState) -> bool {
    let s = st.subscribers;
    let t = st.tokens;
    &&& forall|i: int, j: int|
        0 <= i < s.len() && 0 <= j < s.len() && i != j ==> #[trigger] s[i].id != #[trigger] s[j].id
    &&& forall|i: int, j: int|
        0 <= i < s.len() && 0 <= j < s.len() && i != j ==> #[trigger] s[i].email
            != #[trigger] s[j].email
    &&& forall|i: int, j: int|
        0 <= i < t.len() && 0 <= j < t.len() && i != j ==> #[trigger] t[i].token
            != #[trigger] t[j].token
    &&& forall|i: int, j: int|
        0 <= i < t.len() && 0 <= j < t.len() && i != j ==> #[trigger] t[i].subscriber_id
            != #[trigger] t[j].subscriber_id
    &&& forall|j: int| 0 <= j < t.len() ==> has_id(st, #[trigger] t[j].subscriber_id)
}

/// The token that a registration handed back, if it succeeded.
pub open spec fn ok_token(r: Result<String, SubscribeError>) -> Option<Seq<char>> {
    match r {
        Ok(t) => Some(t@),
        Err(_) => None,
    }
}

/// The addresses of the confirmed subscribers, in the order of the records.
pub open spec fn confirmed_emails(rows: Seq<SubscriberRow>) -> Seq<Seq<char>>
    decreases rows.len(),
{
    if rows.len() == 0 {
        Seq::empty()
    } else {
        let prev = confirmed_emails(rows.drop_last());
        if rows.last().status == SubscriptionStatus::Confirmed {
            prev.push(rows.last().email)
        } else {
            prev
        }
    }
}

/// The result of registering `email` and `name`, where a new subscriber
/// would get the id `id`, the token `token` and the time `now`: the next
/// state, and the token handed back (`None` on failure, which leaves the
/// state as it was).
pub open spec fn register_spec(
    st: StoreState,
    email: Seq<char>,
    name: Seq<char>,
    id: u128,
    token: Seq<char>,
    now: i64,
) -> (StoreState, Option<Seq<char>>) {
    if has_email(st, email) {
        (st, Some(token_of_email(st, email)))
    } else if has_id(st, id) || has_token(st, token) {
        (st, None)
    } else {
        let row = SubscriberRow {
            id,
            email,
            name,
            status: SubscriptionStatus::PendingConfirmation,
            subscribed_at: now,
        };
        (
            StoreState {
                subscribers: st.subscribers.push(row),
                tokens: st.tokens.push(TokenRow { token, subscriber_id: id }),
            },
            Some(token),
        )
    }
}

/// What a confirmation request ends in.
#[derive(Clone, Copy, Debug, PartialEq, Eq, Structural)]
pub enum ConfirmOutcome {
    /// The subscriber was pending and is now confirmed.
    Confirmed,
    /// No token matches.
    UnknownToken,
    /// The token's subscriber was confirmed before.
    AlreadyConfirmed,
}

impl ConfirmOutcome {
    pub fn status_code(&self) -> (r: u16)
        ensures
            r == (match self {
                ConfirmOutcome::Confirmed => 200u16,
                ConfirmOutcome::UnknownToken => 401u16,
                ConfirmOutcome::AlreadyConfirmed => 400u16,
            }),
    {
        match self {
            ConfirmOutcome::Confirmed => 200,
            ConfirmOutcome::UnknownToken => 401,
            ConfirmOutcome::AlreadyConfirmed => 400,
        }
    }
}

/// The result of a confirmation request carrying `raw` on state `st`.
pub open spec fn confirm_spec(st: StoreState, raw: Seq<char>) -> (StoreState, ConfirmOutcome) {
    let t = sanitized_token(raw);
    if !has_token(st, t) {
        (st, ConfirmOutcome::UnknownToken)
    } else {
        let i = id_index(st, st.tokens[token_index(st, t)].subscriber_id);
        let row = st.subscribers[i];
        if row.status == SubscriptionStatus::PendingConfirmation {
            (
                StoreState {
                    subscribers: st.subscribers.update(
                        i,
                        SubscriberRow { status: SubscriptionStatus::Confirmed, ..row },
                    ),
                    tokens: st.tokens,
                },
                ConfirmOutcome::Confirmed,
            )
        } else {
            (st, ConfirmOutcome::AlreadyConfirmed)
        }
    }
}

pub struct SubscriptionStore {
    subscribers: Vec<Subscriber>,
    tokens: Vec<TokenRecord>,
}

impl View for SubscriptionStore {
    type V = StoreState;

    closed spec fn view(&self) -> StoreState {
        StoreState {
            subscribers: self.subscribers@.map_values(|s: Subscriber| s@),
            tokens: self.tokens@.map_values(|t: TokenRecord| t@),
        }
    }
}

impl SubscriptionStore {
    pub open spec fn wf(&self) -> bool {
        store_wf(self@)
    }

    proof fn lemma_view(&self)
        ensures
            self@.subscribers.len() == self.subscribers@.len(),
            self@.tokens.len() == self.tokens@.len(),
            forall|i: int|
                0 <= i < self.subscribers@.len() ==> #[trigger] self@.subscribers[i]
                    == self.subscribers@[i]@,
            forall|j: int|
                0 <= j < self.tokens@.len() ==> #[trigger] self@.tokens[j] == self.tokens@[j]@,
    {
    }

    pub fn new() -> (r: SubscriptionStore)
        ensures
            r.wf(),
            r@.subscribers.len() == 0,
            r@.tokens.len() == 0,
    {
        SubscriptionStore { subscribers: Vec::new(), tokens: Vec::new() }
    }

    /// Number of subscriber records.
    pub fn subscriber_count(&self) -> (r: usize)
        ensures
            r == self@.subscribers.len(),
    {
        self.subscribers.len()
    }

    /// The id of the subscriber with this address, if any.
    pub fn subscriber_exists(&self, email: &SubscriberEmail) -> (r: Option<u128>)
        requires
            self.wf(),
        ensures
            r is Some <==> has_email(self@, email@),
            r matches Some(id) ==> id == self@.subscribers[email_index(self@, email@)].id,
    {
        let e = String::from_str(email.as_str());
        proof {
            self.lemma_view();
        }
        let mut i: usize = 0;
        while i < self.subscribers.len()
            invariant
                self.wf(),
                i <= self.subscribers@.len(),
                e@ == email@,
                forall|k: int| 0 <= k < i ==> (#[trigger] self@.subscribers[k]).email != e@,
            decreases self.subscribers@.len() - i,
        {
            proof {
                self.lemma_view();
            }
            if self.subscribers[i].email == e {
                proof {
                    assert(self@.subscribers[i as int].email == e@);
                    let k = email_index(self@, e@);
                    assert(self@.subscribers[k].email == e@);
                }
                return Some(self.subscribers[i].id);
            }
            i = i + 1;
        }
        None
    }

    /// The token issued to the subscriber `id`, if one was.
    pub fn retrieve_token_from_database(&self, id: u128) -> (r: Option<String>)
        requires
            self.wf(),
        ensures
            r is Some <==> has_token_for(self@, id),
            r matches Some(t) ==> t@ == token_of_id(self@, id),
    {
        proof {
            self.lemma_view();
        }
        let mut j: usize = 0;
        while j < self.tokens.len()
            invariant
                self.wf(),
                j <= self.tokens@.len(),
                forall|k: int| 0 <= k < j ==> (#[trigger] self@.tokens[k]).subscriber_id != id,
            decreases self.tokens@.len() - j,
        {
            proof {
                self.lemma_view();
            }
            if self.tokens[j].subscriber_id == id {
                proof {
                    assert(self@.tokens[j as int].subscriber_id == id);
                    let k = token_index_for(self@, id);
                    assert(self@.tokens[k].subscriber_id == id);
                }
                return Some(self.tokens[j].token.clone());
            }
            j = j + 1;
        }
        None
    }

    /// The subscriber that `token` was issued to, if any.
    pub fn get_subscriber_id_from_token(&self, token: &str) -> (r: Option<u128>)
        requires
            self.wf(),
        ensures
            r is Some <==> has_token(self@, token@),
            r matches Some(id) ==> id == self@.tokens[token_index(self@, token@)].subscriber_id,
    {
        let wanted = String::from_str(token);
        proof {
            self.lemma_view();
        }
        let mut j: usize = 0;
        while j < self.tokens.len()
            invariant
                self.wf(),
                j <= self.tokens@.len(),
                wanted@ == token@,
                forall|k: int| 0 <= k < j ==> (#[trigger] self@.tokens[k]).token != token@,
            decreases self.tokens@.len() - j,
        {
            proof {
                self.lemma_view();
            }
            if self.tokens[j].token == wanted {
                proof {
                    assert(self@.tokens[j as int].token == token@);
                    let k = token_index(self@, token@);
                    assert(self@.tokens[k].token == token@);
                }
                return Some(self.tokens[j].subscriber_id);
            }
            j = j + 1;
        }
        None
    }

    /// Position of the subscriber `id`.
    fn find_id(&self, id: u128) -> (r: Option<usize>)
        requires
            self.wf(),
        ensures
            r is Some <==> has_id(self@, id),
            r matches Some(i) ==> i == id_index(self@, id) && i < self@.subscribers.len(),
    {
        proof {
            self.lemma_view();
        }
        let mut i: usize = 0;
        while i < self.subscribers.len()
            invariant
                self.wf(),
                i <= self.subscribers@.len(),
                forall|k: int| 0 <= k < i ==> (#[trigger] self@.subscribers[k]).id != id,
            decreases self.subscribers@.len() - i,
        {
            proof {
                self.lemma_view();
            }
            if self.subscribers[i].id == id {
                proof {
                    assert(self@.subscribers[i as int].id == id);
                    let k = id_index(self@, id);
                    assert(self@.subscribers[k].id == id);
                }
                return Some(i);
            }
            i = i + 1;
        }
        None
    }

    /// Whether the subscriber `id` awaits confirmation; `None` where there is
    /// no such subscriber.
    pub fn subscriber_is_pending(&self, id: u128) -> (r: Option<bool>)
        requires
            self.wf(),
        ensures
            r is Some <==> has_id(self@, id),
            r matches Some(p) ==> p == (self@.subscribers[id_index(self@, id)].status
                == SubscriptionStatus::PendingConfirmation),
    {
        match self.find_id(id) {
            Some(i) => Some(self.subscribers[i].status == SubscriptionStatus::PendingConfirmation),
            None => None,
        }
    }

    /// Adds a pending subscriber with the id `id`, unless that id or the
    /// address is taken already.
    pub fn insert_subscriber(&mut self, new: &NewSubscriber, id: u128, now: i64) -> (r: Option<u128>)
        requires
            rows_wf(old(self)@),
        ensures
            rows_wf(final(self)@),
            r is None <==> has_id(old(self)@, id) || has_email(old(self)@, new.email@),
            r is None ==> final(self)@ == old(self)@,
            r matches Some(x) ==> x == id && final(self)@ == (StoreState {
                subscribers: old(self)@.subscribers.push(
                    SubscriberRow {
                        id,
                        email: new.email@,
                        name: new.name@,
                        status: SubscriptionStatus::PendingConfirmation,
                        subscribed_at: now,
                    },
                ),
                tokens: old(self)@.tokens,
            }),
    {
        proof {
            self.lemma_view();
        }
        let e = String::from_str(new.email.as_str());
        let mut i: usize = 0;
        while i < self.subscribers.len()
            invariant
                rows_wf(self@),
                i <= self.subscribers@.len(),
                e@ == new.email@,
                self@.subscribers.len() == self.subscribers@.len(),
                forall|k: int|
                    0 <= k < self.subscribers@.len() ==> #[trigger] self@.subscribers[k]
                        == self.subscribers@[k]@,
                forall|k: int|
                    0 <= k < i ==> (#[trigger] self@.subscribers[k]).email != e@
                        && self@.subscribers[k].id != id,
            decreases self.subscribers@.len() - i,
        {
            if self.subscribers[i].email == e || self.subscribers[i].id == id {
                proof {
                    assert(self@.subscribers[i as int] == self.subscribers@[i as int]@);
                }
                return None;
            }
            i = i + 1;
        }
        let row = Subscriber {
            id,
            email: e,
            name: String::from_str(new.name.as_str()),
            status: SubscriptionStatus::PendingConfirmation,
            subscribed_at: now,
        };
        let ghost before = self@;
        self.subscribers.push(row);
        proof {
            self.lemma_view();
            assert(self@.subscribers =~= before.subscribers.push(row@));
            assert(self@.tokens =~= before.tokens);
            let n = before.subscribers.len() as int;
            assert forall|a: int, b: int|
                0 <= a < self@.subscribers.len() && 0 <= b < self@.subscribers.len() && a
                    != b implies #[trigger] self@.subscribers[a].id != #[trigger] self@.subscribers[b].id by {
                if a < n && b < n {
                    assert(self@.subscribers[a] == before.subscribers[a]);
                    assert(self@.subscribers[b] == before.subscribers[b]);
                } else if a < n {
                    assert(self@.subscribers[a] == before.subscribers[a]);
                } else {
                    assert(self@.subscribers[b] == before.subscribers[b]);
                }
            }
            assert forall|a: int, b: int|
                0 <= a < self@.subscribers.len() && 0 <= b < self@.subscribers.len() && a
                    != b implies #[trigger] self@.subscribers[a].email != #[trigger] self@.subscribers[b].email by {
                if a < n && b < n {
                    assert(self@.subscribers[a] == before.subscribers[a]);
                    assert(self@.subscribers[b] == before.subscribers[b]);
                } else if a < n {
                    assert(self@.subscribers[a] == before.subscribers[a]);
                } else {
                    assert(self@.subscribers[b] == before.subscribers[b]);
                }
            }
            assert forall|j: int| 0 <= j < self@.tokens.len() implies has_id(
                self@,
                #[trigger] self@.tokens[j].subscriber_id,
            ) by {
                let k = choose|k: int|
                    0 <= k < before.subscribers.len() && (#[trigger] before.subscribers[k]).id
                        == before.tokens[j].subscriber_id;
                assert(self@.subscribers[k] == before.subscribers[k]);
            }
        }
        Some(id)
    }

    /// Records `token` as issued to the subscriber `id`; refused where the
    /// token is taken, the subscriber is unknown or holds a token already.
    pub fn store_token(&mut self, id: u128, token: &str) -> (r: Result<(), StoreTokenError>)
        requires
            rows_wf(old(self)@),
        ensures
            rows_wf(final(self)@),
            r is Err <==> has_token(old(self)@, token@) || !has_id(old(self)@, id)
                || has_token_for(old(self)@, id),
            r is Err ==> final(self)@ == old(self)@,
            r is Ok ==> final(self)@ == (StoreState {
                subscribers: old(self)@.subscribers,
                tokens: old(self)@.tokens.push(TokenRow { token: token@, subscriber_id: id }),
            }),
    {
        proof {
            self.lemma_view();
        }
        let found = self.find_id_relaxed(id);
        if found.is_none() {
            return Err(StoreTokenError { cause: String::from_str("unknown subscriber") });
        }
        let t = String::from_str(token);
        let mut j: usize = 0;
        while j < self.tokens.len()
            invariant
                rows_wf(self@),
                has_id(self@, id),
                j <= self.tokens@.len(),
                t@ == token@,
                self@.tokens.len() == self.tokens@.len(),
                forall|k: int|
                    0 <= k < self.tokens@.len() ==> #[trigger] self@.tokens[k] == self.tokens@[k]@,
                forall|k: int|
                    0 <= k < j ==> (#[trigger] self@.tokens[k]).token != t@
                        && self@.tokens[k].subscriber_id != id,
            decreases self.tokens@.len() - j,
        {
            proof {
                assert(self@.tokens[j as int] == self.tokens@[j as int]@);
            }
            if self.tokens[j].token == t {
                return Err(StoreTokenError { cause: String::from_str("duplicate token") });
            }
            if self.tokens[j].subscriber_id == id {
                return Err(StoreTokenError { cause: String::from_str("subscriber already holds a token") });
            }
            j = j + 1;
        }
        let rec = TokenRecord { token: t, subscriber_id: id };
        let ghost before = self@;
        self.tokens.push(rec);
        proof {
            self.lemma_view();
            assert(self@.tokens =~= before.tokens.push(rec@));
            assert(self@.subscribers =~= before.subscribers);
            let n = before.tokens.len() as int;
            assert forall|a: int, b: int|
                0 <= a < self@.tokens.len() && 0 <= b < self@.tokens.len() && a
                    != b implies #[trigger] self@.tokens[a].token != #[trigger] self@.tokens[b].token by {
                if a < n && b < n {
                    assert(self@.tokens[a] == before.tokens[a]);
                    assert(self@.tokens[b] == before.tokens[b]);
                } else if a < n {
                    assert(self@.tokens[a] == before.tokens[a]);
                } else {
                    assert(self@.tokens[b] == before.tokens[b]);
                }
            }
            assert forall|a: int, b: int|
                0 <= a < self@.tokens.len() && 0 <= b < self@.tokens.len() && a
                    != b implies #[trigger] self@.tokens[a].subscriber_id != #[trigger] self@.tokens[b].subscriber_id by {
                if a < n && b < n {
                    assert(self@.tokens[a] == before.tokens[a]);
                    assert(self@.tokens[b] == before.tokens[b]);
                } else if a < n {
                    assert(self@.tokens[a] == before.tokens[a]);
                } else {
                    assert(self@.tokens[b] == before.tokens[b]);
                }
            }
            assert forall|k: int| 0 <= k < self@.tokens.len() implies has_id(
                self@,
                #[trigger] self@.tokens[k].subscriber_id,
            ) by {
                if k < before.tokens.len() {
                    assert(self@.tokens[k] == before.tokens[k]);
                }
            }
        }
        Ok(())
    }

    /// Position of the subscriber `id`, under the invariant of a registration.
    fn find_id_relaxed(&self, id: u128) -> (r: Option<usize>)
        requires
            rows_wf(self@),
        ensures
            r is Some <==> has_id(self@, id),
            r matches Some(i) ==> i < self@.subscribers.len() && self@.subscribers[i as int].id == id,
    {
        proof {
            self.lemma_view();
        }
        let mut i: usize = 0;
        while i < self.subscribers.len()
            invariant
                i <= self.subscribers@.len(),
                self@.subscribers.len() == self.subscribers@.len(),
                forall|k: int|
                    0 <= k < self.subscribers@.len() ==> #[trigger] self@.subscribers[k]
                        == self.subscribers@[k]@,
                forall|k: int| 0 <= k < i ==> (#[trigger] self@.subscribers[k]).id != id,
            decreases self.subscribers@.len() - i,
        {
            if self.subscribers[i].id == id {
                return Some(i);
            }
            i = i + 1;
        }
        None
    }

    /// Undoes the insertion of the newest subscriber.
    fn remove_last_subscriber(&mut self)
        requires
            old(self)@.subscribers.len() > 0,
        ensures
            final(self)@.subscribers == old(self)@.subscribers.drop_last(),
            final(self)@.tokens == old(self)@.tokens,
    {
        proof {
            self.lemma_view();
        }
        let ghost before = self@;
        self.subscribers.pop();
        proof {
            self.lemma_view();
            assert(self@.subscribers =~= before.subscribers.drop_last());
            assert(self@.tokens =~= before.tokens);
        }
    }

    /// Creates or reuses the subscriber with the address of `new`, as one
    /// atomic step. A new subscriber gets the id `id`, the token `token` and
    /// the time `now`; an existing one keeps its token. A failure leaves the
    /// store as it was.
    pub fn register(&mut self, new: &NewSubscriber, id: u128, token: String, now: i64) -> (r: Result<
        String,
        SubscribeError,
    >)
        requires
            old(self).wf(),
        ensures
            final(self).wf(),
            (final(self)@, ok_token(r)) == register_spec(
                old(self)@,
                new.email@,
                new.name@,
                id,
                token@,
                now,
            ),
            r matches Err(e) ==> e is UnexpectedError,
    {
        match self.subscriber_exists(&new.email) {
            Some(existing) => {
                match self.retrieve_token_from_database(existing) {
                    Some(t) => Ok(t),
                    None => Err(
                        SubscribeError::UnexpectedError(
                            String::from_str("Failed to retrieve subscriber token from the database."),
                        ),
                    ),
                }
            },
            None => {
                let ghost before = self@;
                match self.insert_subscriber(new, id, now) {
                    None => Err(
                        SubscribeError::UnexpectedError(
                            String::from_str("Failed to insert new subscriber in the database."),
                        ),
                    ),
                    Some(sid) => {
                        let ghost mid = self@;
                        proof {
                            assert(!has_token_for(mid, id)) by {
                                if has_token_for(mid, id) {
                                    let j = choose|j: int|
                                        0 <= j < mid.tokens.len()
                                            && (#[trigger] mid.tokens[j]).subscriber_id == id;
                                    let k = choose|k: int|
                                        0 <= k < before.subscribers.len()
                                            && (#[trigger] before.subscribers[k]).id
                                            == before.tokens[j].subscriber_id;
                                }
                            }
                            assert(mid.subscribers.last().id == id);
                            assert(has_id(mid, id));
                        }
                        match self.store_token(sid, token.as_str()) {
                            Err(e) => {
                                self.remove_last_subscriber();
                                proof {
                                    assert(self@.subscribers =~= before.subscribers);
                                    assert(self@ == before);
                                }
                                let mut causes: Vec<String> = Vec::new();
                                causes.push(e.message());
                                Err(
                                    SubscribeError::UnexpectedError(
                                        error_chain_fmt(
                                            "Failed to store the confirmation token for a new subscriber.",
                                            &causes,
                                        ),
                                    ),
                                )
                            },
                            Ok(()) => {
                                proof {
                                    let fin = self@;
                                    assert forall|i: int|
                                        0 <= i < fin.subscribers.len() implies has_token_for(
                                        fin,
                                        #[trigger] fin.subscribers[i].id,
                                    ) by {
                                        if i < before.subscribers.len() {
                                            assert(fin.subscribers[i] == before.subscribers[i]);
                                            let j = choose|j: int|
                                                0 <= j < before.tokens.len()
                                                    && (#[trigger] before.tokens[j]).subscriber_id
                                                    == before.subscribers[i].id;
                                            assert(fin.tokens[j] == before.tokens[j]);
                                        } else {
                                            assert(fin.tokens[before.tokens.len() as int].subscriber_id
                                                == id);
                                        }
                                    }
                                }
                                Ok(token)
                            },
                        }
                    },
                }
            },
        }
    }

    /// Handles a subscription request: validates the submitted fields, then
    /// registers them with a fresh id, a freshly minted token and the current
    /// time. Invalid input never reaches the store.
    pub fn subscribe(&mut self, email: String, name: String) -> (r: Result<String, SubscribeError>)
        requires
            old(self).wf(),
        ensures
            final(self).wf(),
            (r matches Err(SubscribeError::ValidationError(_))) <==> !(valid_name(name@)
                && valid_email(email@)),
            !(valid_name(name@) && valid_email(email@)) ==> final(self)@ == old(self)@,
            valid_name(name@) && valid_email(email@) ==> exists|id: u128, tok: Seq<char>, now: i64|
                is_minted_token(tok) && (final(self)@, ok_token(r)) == register_spec(
                    old(self)@,
                    email@,
                    name@,
                    id,
                    tok,
                    now,
                ),
    {
        let new_subscriber = match NewSubscriber::parse(email, name) {
            Ok(n) => n,
            Err(m) => return Err(SubscribeError::ValidationError(m)),
        };
        let id = new_subscriber_id();
        let token = generate_subscription_token();
        let now = now_timestamp();
        let ghost tok = token@;
        let r = self.register(&new_subscriber, id, token, now);
        proof {
            assert(is_minted_token(tok) && (self@, ok_token(r)) == register_spec(
                old(self)@,
                email@,
                name@,
                id,
                tok,
                now,
            ));
        }
        r
    }

    /// Marks the subscriber `id` as confirmed; no effect where there is none.
    pub fn confirm_subscriber(&mut self, id: u128)
        requires
            old(self).wf(),
        ensures
            final(self).wf(),
            final(self)@.tokens == old(self)@.tokens,
            !has_id(old(self)@, id) ==> final(self)@ == old(self)@,
            has_id(old(self)@, id) ==> final(self)@.subscribers == old(self)@.subscribers.update(
                id_index(old(self)@, id),
                SubscriberRow {
                    status: SubscriptionStatus::Confirmed,
                    ..old(self)@.subscribers[id_index(old(self)@, id)]
                },
            ),
    {
        match self.find_id(id) {
            None => {},
            Some(i) => {
                let ghost before = self@;
                let row = Subscriber {
                    id: self.subscribers[i].id,
                    email: self.subscribers[i].email.clone(),
                    name: self.subscribers[i].name.clone(),
                    status: SubscriptionStatus::Confirmed,
                    subscribed_at: self.subscribers[i].subscribed_at,
                };
                self.subscribers.set(i, row);
                proof {
                    self.lemma_view();
                    let upd = before.subscribers.update(
                        i as int,
                        SubscriberRow {
                            status: SubscriptionStatus::Confirmed,
                            ..before.subscribers[i as int]
                        },
                    );
                    assert(self@.subscribers =~= upd);
                    assert(self@.tokens =~= before.tokens);
                    assert forall|a: int, b: int|
                        0 <= a < upd.len() && 0 <= b < upd.len() && a != b implies #[trigger] upd[a].id
                        != #[trigger] upd[b].id by {
                        assert(before.subscribers[a].id == upd[a].id);
                        assert(before.subscribers[b].id == upd[b].id);
                    }
                    assert forall|a: int, b: int|
                        0 <= a < upd.len() && 0 <= b < upd.len() && a != b implies #[trigger] upd[a].email
                        != #[trigger] upd[b].email by {
                        assert(before.subscribers[a].email == upd[a].email);
                        assert(before.subscribers[b].email == upd[b].email);
                    }
                    assert forall|j: int| 0 <= j < self@.tokens.len() implies has_id(
                        self@,
                        #[trigger] self@.tokens[j].subscriber_id,
                    ) by {
                        let k = choose|k: int|
                            0 <= k < before.subscribers.len() && (#[trigger] before.subscribers[k]).id
                                == before.tokens[j].subscriber_id;
                        assert(upd[k].id == before.subscribers[k].id);
                    }
                    assert forall|a: int| 0 <= a < upd.len() implies has_token_for(
                        self@,
                        #[trigger] upd[a].id,
                    ) by {
                        assert(before.subscribers[a].id == upd[a].id);
                    }
                }
            },
        }
    }

    /// Handles a confirmation request: the token is sanitised, looked up, and
    /// a pending subscriber becomes confirmed. A confirmed one stays as it is.
    pub fn confirm(&mut self, subscription_token: &str) -> (r: Result<ConfirmOutcome, ConfirmError>)
        requires
            old(self).wf(),
        ensures
            final(self).wf(),
            r == Ok::<ConfirmOutcome, ConfirmError>(confirm_spec(old(self)@, subscription_token@).1),
            final(self)@ == confirm_spec(old(self)@, subscription_token@).0,
    {
        let token = parse_subscription_token(subscription_token);
        match self.get_subscriber_id_from_token(token.as_str()) {
            None => Ok(ConfirmOutcome::UnknownToken),
            Some(id) => {
                proof {
                    let j = token_index(self@, token@);
                    assert(has_id(self@, self@.tokens[j].subscriber_id));
                }
                match self.subscriber_is_pending(id) {
                    None => Err(ConfirmError::UnexpectedError(String::from_str("Failed to check subscriber's status."))),
                    Some(true) => {
                        self.confirm_subscriber(id);
                        Ok(ConfirmOutcome::Confirmed)
                    },
                    Some(false) => Ok(ConfirmOutcome::AlreadyConfirmed),
                }
            },
        }
    }

    /// The addresses of all confirmed subscribers, in record order.
    pub fn get_confirmed_subscribers(&self) -> (r: Vec<String>)
        ensures
            r@.map_values(|e: String| e@) == confirmed_emails(self@.subscribers),
    {
        proof {
            self.lemma_view();
        }
        let mut out: Vec<String> = Vec::new();
        let mut i: usize = 0;
        while i < self.subscribers.len()
            invariant
                i <= self.subscribers@.len(),
                self@.subscribers.len() == self.subscribers@.len(),
                forall|k: int|
                    0 <= k < self.subscribers@.len() ==> #[trigger] self@.subscribers[k]
                        == self.subscribers@[k]@,
                out@.map_values(|e: String| e@) == confirmed_emails(
                    self@.subscribers.subrange(0, i as int),
                ),
            decreases self.subscribers@.len() - i,
        {
            proof {
                assert(self@.subscribers.subrange(0, i + 1).drop_last() =~= self@.subscribers.subrange(
                    0,
                    i as int,
                ));
            }
            if self.subscribers[i].status == SubscriptionStatus::Confirmed {
                let ghost prev = out@;
                out.push(self.subscribers[i].email.clone());
                proof {
                    assert(out@.map_values(|e: String| e@) =~= prev.map_values(|e: String| e@).push(
                        self.subscribers@[i as int].email@,
                    ));
                }
            }
            i = i + 1;
        }
        proof {
            assert(self@.subscribers.subrange(0, i as int) =~= self@.subscribers);
        }
        out
    }

    /// The status of the subscriber with address `email`, if there is one.
    pub fn status_of_email(&self, email: &str) -> (r: Option<SubscriptionStatus>)
        requires
            self.wf(),
        ensures
            r is Some <==> has_email(self@, email@),
            r matches Some(s) ==> s == self@.subscribers[email_index(self@, email@)].status,
    {
        let e = String::from_str(email);
        proof {
            self.lemma_view();
        }
        let mut i: usize = 0;
        while i < self.subscribers.len()
            invariant
                self.wf(),
                i <= self.subscribers@.len(),
                e@ == email@,
                forall|k: int| 0 <= k < i ==> (#[trigger] self@.subscribers[k]).email != e@,
            decreases self.subscribers@.len() - i,
        {
            proof {
                self.lemma_view();
            }
            if self.subscribers[i].email == e {
                proof {
                    assert(self@.subscribers[i as int].email == e@);
                    let k = email_index(self@, e@);
                    assert(self@.subscribers[k].email == e@);
                }
                return Some(self.subscribers[i].status);
            }
            i = i + 1;
        }
        None
    }
}

/// Relies on uuid's `Uuid::new_v4`: a random id, handed over as its 128 bits.
#[verifier::external_body]
fn new_subscriber_id() -> (r: u128) {
    uuid::Uuid::new_v4().as_u128()
}

/// Relies on chrono's `Utc::now`: the current time, in seconds since the epoch.
#[verifier::external_body]
fn now_timestamp() -> (r: i64) {
    chrono::Utc::now().timestamp()
}

/// Subscribing is idempotent: registering an address a second time, whatever
/// the name and fresh values offered, hands back the token of the first
/// registration and leaves the store unchanged, which then holds exactly one
/// record with that address.
pub proof fn lemma_register_idempotent(
    st: StoreState,
    email: Seq<char>,
    name1: Seq<char>,
    id1: u128,
    tok1: Seq<char>,
    now1: i64,
    name2: Seq<char>,
    id2: u128,
    tok2: Seq<char>,
    now2: i64,
)
    requires
        store_wf(st),
        register_spec(st, email, name1, id1, tok1, now1).1 is Some,
    ensures
        ({
            let (st1, r1) = register_spec(st, email, name1, id1, tok1, now1);
            &&& register_spec(st1, email, name2, id2, tok2, now2) == (st1, r1)
            &&& exists|i: int|
                0 <= i < st1.subscribers.len() && (#[trigger] st1.subscribers[i]).email == email
                    && forall|j: int|
                    0 <= j < st1.subscribers.len() && (#[trigger] st1.subscribers[j]).email == email
                        ==> j == i
        }),
{
    let (st1, r1) = register_spec(st, email, name1, id1, tok1, now1);
    if has_email(st, email) {
        let i = email_index(st, email);
        assert(st1.subscribers[i].email == email);
    } else {
        let n = st.subscribers.len() as int;
        assert(st1.subscribers[n].email == email);
        assert(has_email(st1, email));
        assert forall|j: int|
            0 <= j < st1.subscribers.len() && (#[trigger] st1.subscribers[j]).email == email implies j
            == n by {
            if j < n {
                assert(st1.subscribers[j] == st.subscribers[j]);
            }
        }
        let k = email_index(st1, email);
        assert(k == n);
        let m = st.tokens.len() as int;
        assert(st1.tokens[m].subscriber_id == id1);
        assert(has_token_for(st1, id1));
        let j = token_index_for(st1, id1);
        if j < m {
            assert(st1.tokens[j] == st.tokens[j]);
            assert(has_id(st, st.tokens[j].subscriber_id));
        }
        assert(j == m);
    }
}

/// Confirmation is a one-way transition: an unknown token is refused and
/// changes nothing; a token that confirmed its subscriber is refused as
/// already used when it comes again; and no confirmed subscriber ever goes
/// back to pending.
pub proof fn lemma_confirm_one_way(st: StoreState, raw: Seq<char>)
    requires
        store_wf(st),
    ensures
        ({
            let (st1, o1) = confirm_spec(st, raw);
            &&& !has_token(st, sanitized_token(raw)) ==> o1 == ConfirmOutcome::UnknownToken && st1
                == st
            &&& o1 == ConfirmOutcome::Confirmed ==> confirm_spec(st1, raw) == (
                st1,
                ConfirmOutcome::AlreadyConfirmed,
            )
            &&& st1.subscribers.len() == st.subscribers.len()
            &&& st1.tokens == st.tokens
            &&& forall|i: int|
                0 <= i < st.subscribers.len() && st.subscribers[i].status
                    == SubscriptionStatus::Confirmed ==> (#[trigger] st1.subscribers[i]).status
                    == SubscriptionStatus::Confirmed
        }),
{
    let (st1, o1) = confirm_spec(st, raw);
    let t = sanitized_token(raw);
    if has_token(st, t) {
        let id = st.tokens[token_index(st, t)].subscriber_id;
        assert(has_id(st, id));
        let i = id_index(st, id);
        if o1 == ConfirmOutcome::Confirmed {
            assert(st1.tokens == st.tokens);
            assert(has_token(st1, t));
            assert(token_index(st1, t) == token_index(st, t));
            assert(st1.subscribers[i].id == id);
            assert(has_id(st1, id));
            let i1 = id_index(st1, id);
            if i1 != i {
                assert(st1.subscribers[i1].id == st.subscribers[i1].id);
            }
            assert(i1 == i);
        }
    }
}

} // verus!
