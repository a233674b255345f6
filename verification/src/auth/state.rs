//! Login flows awaiting their callback, and the active session.

use vstd::prelude::*;
use super::discovery::{OidcConfiguration, RegisteredClient};
use super::dpop::DpopKey;
use super::pkce::PkcePair;
use super::session::TokenSet;
use crate::text::same_text;

verus! {

/// State of a login attempt that has handed off to the browser but has not
/// yet received the authorization-code callback.
pub struct PendingFlow {
    pub issuer: String,
    pub config: OidcConfiguration,
    pub client: RegisteredClient,
    pub pkce: PkcePair,
    pub dpop: DpopKey,
    pub redirect_uri: String,
}

/// A completed, authenticated session.
pub struct ActiveSession {
    pub webid: Option<String>,
    pub issuer: String,
    pub config: OidcConfiguration,
    pub client: RegisteredClient,
    pub dpop: DpopKey,
    pub tokens: TokenSet,
}

/// Whether no two entries share a key.
pub open spec fn keys_unique(s: Seq<(String, PendingFlow)>) -> bool {
    forall|i: int, j: int| 0 <= i < j < s.len() ==> (#[trigger] s[i]).0@ != (#[trigger] s[j]).0@
}

/// The flows of a list of entries, keyed by their `state` parameter.
pub open spec fn flows_of(s: Seq<(String, PendingFlow)>) -> Map<Seq<char>, PendingFlow>
    decreases s.len(),
{
    if s.len() == 0 {
        Map::empty()
    } else {
        flows_of(s.drop_last()).insert(s.last().0@, s.last().1)
    }
}

proof fn lemma_flows_of_domain(s: Seq<(String, PendingFlow)>, k: Seq<char>)
    ensures
        flows_of(s).dom().contains(k) <==> exists|i: int| 0 <= i < s.len() && (#[trigger] s[i]).0@ == k,
    decreases s.len(),
{
    if s.len() > 0 {
        lemma_flows_of_domain(s.drop_last(), k);
        if flows_of(s).dom().contains(k) && s.last().0@ != k {
            let i = choose|i: int| 0 <= i < s.drop_last().len() && (#[trigger] s.drop_last()[i]).0@ == k;
            assert(s[i].0@ == k);
        }
        if exists|i: int| 0 <= i < s.len() && (#[trigger] s[i]).0@ == k {
            let i = choose|i: int| 0 <= i < s.len() && (#[trigger] s[i]).0@ == k;
            if i < s.len() - 1 {
                assert(s.drop_last()[i].0@ == k);
            }
        }
    }
}

proof fn lemma_flows_of_entry(s: Seq<(String, PendingFlow)>, i: int)
    requires
        keys_unique(s),
        0 <= i < s.len(),
    ensures
        flows_of(s).dom().contains(s[i].0@),
        flows_of(s)[s[i].0@] == s[i].1,
    decreases s.len(),
{
    if i < s.len() - 1 {
        assert(keys_unique(s.drop_last()));
        assert(s.drop_last()[i] == s[i]);
        lemma_flows_of_entry(s.drop_last(), i);
        assert(s[i].0@ != s[s.len() - 1].0@);
    }
}

proof fn lemma_flows_of_remove(s: Seq<(String, PendingFlow)>, i: int)
    requires
        keys_unique(s),
        0 <= i < s.len(),
    ensures
        flows_of(s.remove(i)) == flows_of(s).remove(s[i].0@),
        keys_unique(s.remove(i)),
    decreases s.len(),
{
    let k = s[i].0@;
    let d = s.drop_last();
    assert(keys_unique(d));
    if i == s.len() - 1 {
        assert(s.remove(i) == d);
        lemma_flows_of_domain(d, k);
        assert(!flows_of(d).dom().contains(k));
        assert(flows_of(s).remove(k) =~= flows_of(d));
    } else {
        assert(d[i] == s[i]);
        lemma_flows_of_remove(d, i);
        assert(s.remove(i) == d.remove(i).push(s.last()));
        assert(s.remove(i).drop_last() == d.remove(i));
        assert(s.last().0@ != k);
        assert(flows_of(s.remove(i)) =~= flows_of(s).remove(k));
    }
}

/// A `state` works once: the flow recorded under it is what the first
/// callback carrying it takes, and afterwards nothing is recorded under it;
/// a `state` with nothing recorded leaves the flows as they were.
pub proof fn lemma_state_single_use(flows: Map<Seq<char>, PendingFlow>, state: Seq<char>, flow: PendingFlow)
    ensures
        flows.insert(state, flow).dom().contains(state),
        flows.insert(state, flow)[state] == flow,
        !flows.insert(state, flow).remove(state).dom().contains(state),
        forall|k: Seq<char>| k != state && flows.dom().contains(k) ==> #[trigger] flows.insert(state, flow).remove(state).dom().contains(k) && flows.insert(state, flow).remove(state)[k] == flows[k],
        !flows.dom().contains(state) ==> flows.remove(state) == flows,
{
    if !flows.dom().contains(state) {
        assert(flows.remove(state) =~= flows);
    }
}

proof fn lemma_flows_of_finite(s: Seq<(String, PendingFlow)>)
    ensures
        flows_of(s).dom().finite(),
    decreases s.len(),
{
    if s.len() > 0 {
        lemma_flows_of_finite(s.drop_last());
    }
}

/// The authentication state of the application.
pub struct AuthState {
    /// Pending flows with the OAuth `state` parameter (also the CSRF token) they are kept under.
    pending: Vec<(String, PendingFlow)>,
    active: Option<ActiveSession>,
}

impl AuthState {
    /// No two pending flows share a `state`.
    #[verifier::type_invariant]
    spec fn states_unique(self) -> bool {
        keys_unique(self.pending@)
    }

    /// The pending flows, keyed by their OAuth `state` parameter.
    pub closed spec fn pending_flows(self) -> Map<Seq<char>, PendingFlow> {
        flows_of(self.pending@)
    }

    /// Finitely many flows are pending at any time.
    pub proof fn lemma_pending_flows_finite(s: AuthState)
        ensures
            s.pending_flows().dom().finite(),
    {
        lemma_flows_of_finite(s.pending@);
    }

    /// The active session, if a login has completed.
    pub closed spec fn active_session(self) -> Option<ActiveSession> {
        self.active
    }

    /// No flow pending and no session.
    pub fn new() -> (s: AuthState)
        ensures
            s.pending_flows() == Map::<Seq<char>, PendingFlow>::empty(),
            s.active_session() is None,
    {
        AuthState { pending: Vec::new(), active: None }
    }

    /// The active session, if any.
    pub fn active(&self) -> (a: Option<&ActiveSession>)
        ensures
            match a {
                Some(x) => self.active_session() == Some(*x),
                None => self.active_session() is None,
            },
    {
        match &self.active {
            Some(x) => Some(x),
            None => None,
        }
    }

    /// Whether a flow waits under this `state`.
    pub fn has_pending(&self, state: &str) -> (b: bool)
        ensures
            b == self.pending_flows().dom().contains(state@),
    {
        proof {
            use_type_invariant(self);
            lemma_flows_of_domain(self.pending@, state@);
        }
        self.position(state).is_some()
    }

    fn position(&self, state: &str) -> (r: Option<usize>)
        ensures
            match r {
                Some(i) => i < self.pending@.len() && self.pending@[i as int].0@ == state@,
                None => forall|i: int| 0 <= i < self.pending@.len() ==> (#[trigger] self.pending@[i]).0@ != state@,
            },
    {
        let mut i: usize = 0;
        while i < self.pending.len()
            invariant
                i <= self.pending@.len(),
                forall|j: int| 0 <= j < i ==> (#[trigger] self.pending@[j]).0@ != state@,
            decreases self.pending.len() - i,
        {
            if same_text(self.pending[i].0.as_str(), state) {
                return Some(i);
            }
            i = i + 1;
        }
        None
    }

    /// Removes and returns the flow waiting under `state`: each flow can be
    /// completed once.
    pub fn take_pending(&mut self, state: &str) -> (r: Option<PendingFlow>)
        ensures
            match r {
                Some(f) => old(self).pending_flows().dom().contains(state@)
                    && old(self).pending_flows()[state@] == f,
                None => !old(self).pending_flows().dom().contains(state@),
            },
            final(self).pending_flows() == old(self).pending_flows().remove(state@),
            final(self).pending_flows().len() == if old(self).pending_flows().dom().contains(state@) {
                old(self).pending_flows().len() - 1
            } else {
                old(self).pending_flows().len() as int
            },
            final(self).active_session() == old(self).active_session(),
    {
        proof {
            use_type_invariant(&*self);
            lemma_flows_of_domain(self.pending@, state@);
            lemma_flows_of_finite(self.pending@);
        }
        match self.position(state) {
            Some(i) => {
                proof {
                    lemma_flows_of_entry(self.pending@, i as int);
                    lemma_flows_of_remove(self.pending@, i as int);
                }
                let mut pending: Vec<(String, PendingFlow)> = Vec::new();
                std::mem::swap(&mut pending, &mut self.pending);
                let (_, flow) = pending.remove(i);
                self.pending = pending;
                Some(flow)
            },
            None => {
                assert(old(self).pending_flows().remove(state@) =~= old(self).pending_flows());
                None
            },
        }
    }

    /// Records a flow under its `state`, replacing any flow already there.
    pub fn insert_pending(&mut self, state: String, flow: PendingFlow)
        ensures
            final(self).pending_flows() == old(self).pending_flows().insert(state@, flow),
            final(self).active_session() == old(self).active_session(),
    {
        let _ = self.take_pending(state.as_str());
        proof {
            use_type_invariant(&*self);
            lemma_flows_of_domain(self.pending@, state@);
        }
        let ghost before = self.pending@;
        let mut pending: Vec<(String, PendingFlow)> = Vec::new();
        std::mem::swap(&mut pending, &mut self.pending);
        pending.push((state, flow));
        self.pending = pending;
        proof {
            assert(self.pending@.drop_last() == before);
        }
        assert(final(self).pending_flows() =~= old(self).pending_flows().insert(state@, flow));
    }

    /// Makes `session` the active session.
    pub fn activate(&mut self, session: ActiveSession)
        ensures
            final(self).active_session() == Some(session),
            final(self).pending_flows() == old(self).pending_flows(),
    {
        proof {
            use_type_invariant(&*self);
        }
        self.active = Some(session);
    }

    /// Ends the session and forgets every pending flow.
    pub fn logout(&mut self)
        ensures
            final(self).active_session() is None,
            final(self).pending_flows() == Map::<Seq<char>, PendingFlow>::empty(),
    {
        proof {
            use_type_invariant(&*self);
        }
        self.active = None;
        self.pending = Vec::new();
    }
}

impl Default for AuthState {
    /// No flow pending and no session.
    fn default() -> (s: AuthState)
        ensures
            s.pending_flows() == Map::<Seq<char>, PendingFlow>::empty(),
            s.active_session() is None,
    {
        AuthState::new()
    }
}

} // verus!
