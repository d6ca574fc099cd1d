//! Per-request storage: the backend stashed when the request starts, and the
//! request's transaction, created on first demand and then memoised.
use vstd::prelude::*;
use crate::naming::{spec_transaction_name, transaction_name};
use crate::status::{is_success_status, spec_is_success, status_message, status_text_of};
use crate::transaction::{lemma_inert_wf, opt_view, text_is, uri_key, Attribute, ErrorNote, Transaction};

verus! {

/// What the request start left in the registry.
#[derive(Clone, Copy, Debug, PartialEq, Eq, Structural)]
pub enum AppWrapper {
    /// The backend is available to start a transaction.
    App,
    /// No backend was stashed: requests are not traced.
    Missing,
}

/// Priority given to the error annotation of a failed response.
pub const RESPONSE_ERROR_PRIORITY: i32 = 100;

/// What the backend is to be told once the response is ready.
pub struct ResponseAction {
    /// An error annotation to record first, if any.
    pub error: Option<ErrorNote>,
    /// Whether to finalise the transaction afterwards.
    pub finalize: bool,
}

/// The tracing state of one request.
pub struct RequestRegistry {
    app: Option<AppWrapper>,
    transaction: Option<Transaction>,
    start_calls: Ghost<nat>,
}

impl RequestRegistry {
    /// What was stashed for the backend; `None` while nothing was.
    pub closed spec fn backend(&self) -> Option<AppWrapper> {
        self.app
    }

    /// The memoised transaction; `None` while nobody asked for it.
    pub closed spec fn current(&self) -> Option<Transaction> {
        self.transaction
    }

    /// How many times the backend was asked to start a transaction.
    pub closed spec fn starts(&self) -> nat {
        self.start_calls@
    }

    /// The backend is asked at most once, and only for the memoised
    /// transaction; that transaction is well formed.
    pub closed spec fn wf(&self) -> bool {
        &&& self.start_calls@ <= 1
        &&& self.transaction is None ==> self.start_calls@ == 0
        &&& self.transaction is Some ==> self.transaction->0.wf()
        &&& self.transaction is Some ==> self.app is Some
        &&& (self.transaction is Some && self.transaction->0 is Running) ==> self.start_calls@ == 1
    }

    /// An empty registry, as a request starts.
    pub fn new() -> (r: RequestRegistry)
        ensures
            r.wf(),
            r.backend() is None,
            r.current() is None,
            r.starts() == 0,
    {
        RequestRegistry { app: None, transaction: None, start_calls: Ghost(0) }
    }

    /// Stash the backend for this request. The first thing stashed stays.
    pub fn on_request(&mut self)
        requires
            old(self).wf(),
        ensures
            final(self).wf(),
            final(self).backend() == (match old(self).backend() {
                None => Some(AppWrapper::App),
                Some(a) => Some(a),
            }),
            final(self).current() == old(self).current(),
            final(self).starts() == old(self).starts(),
    {
        if self.app.is_none() {
            self.app = Some(AppWrapper::App);
        }
    }

    /// The request's transaction, created on the first call and memoised.
    /// On that call, if the backend was stashed, `start` is called once with
    /// the transaction name and says whether the backend started it; the
    /// result is then the attribute to hand it at once (the request's URI).
    /// `base` is the matched route's base path (`None` when no route matched)
    /// and `handler` the handler's name.
    pub fn current_transaction<F: FnOnce(String) -> bool>(
        &mut self,
        base: Option<&str>,
        handler: Option<&str>,
        uri: &str,
        start: F,
    ) -> (r: Option<(String, Attribute)>)
        requires
            old(self).wf(),
            forall|n: String| start.requires((n,)),
        ensures
            final(self).wf(),
            final(self).current() is Some,
            final(self).starts() <= 1,
            old(self).current() is Some ==> *final(self) == *old(self) && r is None,
            old(self).current() is None && old(self).backend() != Some(AppWrapper::App) ==> {
                &&& final(self).backend() == Some(AppWrapper::Missing)
                &&& final(self).current() == Some(Transaction::Inert)
                &&& final(self).starts() == old(self).starts()
                &&& r is None
            },
            old(self).current() is None && old(self).backend() == Some(AppWrapper::App) ==> {
                let t = final(self).current()->0;
                let name = spec_transaction_name(opt_view(base), opt_view(handler));
                &&& final(self).backend() == old(self).backend()
                &&& final(self).starts() == old(self).starts() + 1
                &&& exists|n: String| n@ == name && start.ensures((n,), t is Running)
                &&& (t is Running) == (r is Some)
                &&& t is Running ==> {
                    &&& t.is_traced()
                    &&& t.name() == name
                    &&& t.errors().len() == 0
                    &&& t.attributes().dom() == set![uri_key()]
                    &&& text_is(t.attributes()[uri_key()], uri@)
                    &&& match r {
                        Some((k, v)) => k@ == uri_key() && text_is(v, uri@),
                        None => false,
                    }
                }
            },
    {
        if self.transaction.is_some() {
            return None;
        }
        if self.app.is_none() {
            self.app = Some(AppWrapper::Missing);
        }
        let stashed = self.app;
        match stashed {
            Some(AppWrapper::App) => {
                let name = transaction_name(base, handler);
                let started = start(name.clone());
                let t = Transaction::new(name, uri, started);
                self.transaction = Some(t);
                self.start_calls = Ghost(self.start_calls@ + 1);
                if started {
                    let key = "uri";
                    proof {
                        reveal_strlit("uri");
                        assert(key@ =~= uri_key());
                    }
                    Some((String::from_str(key), Attribute::Text(String::from_str(uri))))
                } else {
                    None
                }
            },
            _ => {
                proof {
                    lemma_inert_wf();
                }
                self.transaction = Some(Transaction::Inert);
                None
            },
        }
    }

    /// Attach an attribute to the memoised transaction (see
    /// `Transaction::add_attribute`); without one, nothing happens.
    pub fn add_attribute(&mut self, key: &str, attribute: Attribute) -> (forward: bool)
        requires
            old(self).wf(),
        ensures
            final(self).wf(),
            final(self).backend() == old(self).backend(),
            final(self).starts() == old(self).starts(),
            (final(self).current() is Some) == (old(self).current() is Some),
            old(self).current() is None ==> !forward,
            old(self).current() is Some ==> {
                let t0 = old(self).current()->0;
                let t1 = final(self).current()->0;
                &&& forward == t0.is_traced()
                &&& (t1 is Running) == (t0 is Running)
                &&& t1.is_traced() == t0.is_traced()
                &&& t1.is_ended() == t0.is_ended()
                &&& t1.name() == t0.name()
                &&& t1.errors() == t0.errors()
                &&& forward ==> t1.attributes() == t0.attributes().insert(key@, attribute)
                &&& !forward ==> t1.attributes() == t0.attributes()
            },
    {
        match &mut self.transaction {
            Some(t) => t.add_attribute(key, attribute),
            None => false,
        }
    }

    /// Finish the request once its response, with status `status`, is
    /// ready: a traced transaction records one error annotation when the
    /// status is not a success (priority 100, the status text as message, an
    /// empty class) and is then ended. Without a memoised transaction nothing
    /// happens.
    pub fn on_response(&mut self, status: u16) -> (r: ResponseAction)
        requires
            old(self).wf(),
        ensures
            final(self).wf(),
            final(self).backend() == old(self).backend(),
            final(self).starts() == old(self).starts(),
            old(self).current() is None ==> *final(self) == *old(self) && r.error is None
                && !r.finalize,
            old(self).current() is Some ==> {
                let t0 = old(self).current()->0;
                let t1 = final(self).current()->0;
                &&& final(self).current() is Some
                &&& r.finalize == t0.is_traced()
                &&& (t1 is Running) == (t0 is Running)
                &&& !t1.is_traced()
                &&& t1.is_ended() == (t0 is Running)
                &&& t1.name() == t0.name()
                &&& t1.attributes() == t0.attributes()
                &&& (t0.is_traced() && !spec_is_success(status)) ==> {
                    &&& r.error is Some
                    &&& r.error->0.priority == RESPONSE_ERROR_PRIORITY
                    &&& r.error->0.message@ == status_text_of(status)
                    &&& r.error->0.class@ == Seq::<char>::empty()
                    &&& t1.errors() == t0.errors().push(r.error->0)
                }
                &&& !(t0.is_traced() && !spec_is_success(status)) ==> {
                    &&& r.error is None
                    &&& t1.errors() == t0.errors()
                }
            },
    {
        match &mut self.transaction {
            Some(t) => {
                let mut error: Option<ErrorNote> = None;
                if t.traced() && !is_success_status(status) {
                    let message = status_message(status);
                    let class = String::new();
                    let note = ErrorNote {
                        priority: RESPONSE_ERROR_PRIORITY,
                        message: message.clone(),
                        class: class.clone(),
                    };
                    t.notice_error(RESPONSE_ERROR_PRIORITY, message, class);
                    error = Some(note);
                }
                let finalize = t.end();
                ResponseAction { error, finalize }
            },
            None => ResponseAction { error: None, finalize: false },
        }
    }

    /// The memoised transaction, if any.
    pub fn transaction(&self) -> (r: Option<&Transaction>)
        ensures
            match r {
                Some(t) => self.current() == Some(*t),
                None => self.current() is None,
            },
    {
        self.transaction.as_ref()
    }
}

/// At most one transaction per request: in every well-formed state of a
/// registry, however often the current transaction was asked for, the
/// backend has been asked to start a transaction at most once.
pub proof fn lemma_at_most_one_start(registry: &RequestRegistry)
    requires
        registry.wf(),
    ensures
        registry.starts() <= 1,
        registry.current() is None ==> registry.starts() == 0,
{
}

} // verus!
