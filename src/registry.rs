//! The in-memory registry of live sessions, one per handle, with the health of
//! each and its last activity.
use vstd::prelude::*;

verus! {

/// Health of a live session.
#[derive(Debug, Clone, Copy, PartialEq, Eq, Structural)]
pub enum SessionHealth {
    /// Active and responsive.
    Healthy,
    /// Has issues but still works.
    Warning,
    /// Has critical errors.
    Error,
    /// Not connected.
    Disconnected,
}

/// What can happen to a live session.
#[derive(Debug, Clone, Copy, PartialEq, Eq, Structural)]
pub enum HealthEvent {
    /// A remote operation failed, but the connection stands.
    SoftFailure,
    /// A remote operation succeeded.
    Success,
    /// An explicit recovery action succeeded.
    Recovery,
    /// The network was lost.
    NetworkLoss,
    /// The connection was re-established.
    Reconnect,
}

impl SessionHealth {
    /// Healthy and Warning sessions count as connected.
    pub open spec fn connected(self) -> bool {
        self is Healthy || self is Warning
    }

    pub fn is_connected(&self) -> (r: bool)
        ensures
            r == self.connected(),
    {
        match self {
            SessionHealth::Healthy => true,
            SessionHealth::Warning => true,
            _ => false,
        }
    }

    /// The state machine: the health after `e`. An event that has no
    /// transition from a state leaves it as it is.
    pub open spec fn after(self, e: HealthEvent) -> SessionHealth {
        match e {
            HealthEvent::NetworkLoss => SessionHealth::Disconnected,
            HealthEvent::SoftFailure => match self {
                SessionHealth::Healthy => SessionHealth::Warning,
                SessionHealth::Warning => SessionHealth::Error,
                other => other,
            },
            HealthEvent::Success => match self {
                SessionHealth::Warning => SessionHealth::Healthy,
                other => other,
            },
            HealthEvent::Recovery => match self {
                SessionHealth::Error => SessionHealth::Healthy,
                other => other,
            },
            HealthEvent::Reconnect => match self {
                SessionHealth::Disconnected => SessionHealth::Healthy,
                other => other,
            },
        }
    }

    pub fn next(&self, e: HealthEvent) -> (r: SessionHealth)
        ensures
            r == self.after(e),
    {
        match e {
            HealthEvent::NetworkLoss => SessionHealth::Disconnected,
            HealthEvent::SoftFailure => match self {
                SessionHealth::Healthy => SessionHealth::Warning,
                SessionHealth::Warning => SessionHealth::Error,
                other => *other,
            },
            HealthEvent::Success => match self {
                SessionHealth::Warning => SessionHealth::Healthy,
                other => *other,
            },
            HealthEvent::Recovery => match self {
                SessionHealth::Error => SessionHealth::Healthy,
                other => *other,
            },
            HealthEvent::Reconnect => match self {
                SessionHealth::Disconnected => SessionHealth::Healthy,
                other => *other,
            },
        }
    }

    /// `t` follows from this health by one transition of the state machine:
    /// a soft failure, a success, a recovery, a reconnect, or a network loss,
    /// which leads to Disconnected from every state.
    pub open spec fn may_become(self, t: SessionHealth) -> bool {
        ||| t is Disconnected
        ||| (self is Healthy && t is Warning)
        ||| (self is Warning && t is Healthy)
        ||| (self is Warning && t is Error)
        ||| (self is Error && t is Healthy)
        ||| (self is Disconnected && t is Healthy)
    }

    pub fn can_become(&self, t: SessionHealth) -> (r: bool)
        ensures
            r == self.may_become(t),
    {
        match (self, t) {
            (_, SessionHealth::Disconnected) => true,
            (SessionHealth::Healthy, SessionHealth::Warning) => true,
            (SessionHealth::Warning, SessionHealth::Healthy) => true,
            (SessionHealth::Warning, SessionHealth::Error) => true,
            (SessionHealth::Error, SessionHealth::Healthy) => true,
            (SessionHealth::Disconnected, SessionHealth::Healthy) => true,
            _ => false,
        }
    }

    /// The health after each event of `es` in turn.
    pub open spec fn after_all(self, es: Seq<HealthEvent>) -> SessionHealth
        decreases es.len(),
    {
        if es.len() == 0 {
            self
        } else {
            self.after_all(es.drop_last()).after(es.last())
        }
    }
}

/// Three soft failures in a row take a healthy session to Error by way of
/// Warning, and not to Error before the second of them.
pub proof fn lemma_soft_failures_escalate()
    ensures
        SessionHealth::Healthy.after(HealthEvent::SoftFailure) == SessionHealth::Warning,
        SessionHealth::Healthy.after_all(seq![HealthEvent::SoftFailure, HealthEvent::SoftFailure])
            == SessionHealth::Error,
        SessionHealth::Healthy.after_all(
            seq![HealthEvent::SoftFailure, HealthEvent::SoftFailure, HealthEvent::SoftFailure],
        ) == SessionHealth::Error,
{
    let f = HealthEvent::SoftFailure;
    let h = SessionHealth::Healthy;
    assert(seq![f].drop_last() =~= Seq::<HealthEvent>::empty());
    assert(h.after_all(Seq::<HealthEvent>::empty()) == h);
    assert(seq![f].last() == f && seq![f, f].last() == f && seq![f, f, f].last() == f);
    assert(h.after_all(seq![f]) == SessionHealth::Warning);
    assert(seq![f, f].drop_last() =~= seq![f]);
    assert(h.after_all(seq![f, f]) == SessionHealth::Error);
    assert(seq![f, f, f].drop_last() =~= seq![f, f]);
    assert(h.after_all(seq![f, f, f]) == SessionHealth::Error);
}

/// No sequence of events without a network-loss signal takes a session that is
/// not disconnected to Disconnected.
pub proof fn lemma_disconnect_needs_signal(h: SessionHealth, es: Seq<HealthEvent>)
    requires
        h != SessionHealth::Disconnected,
        forall|k: int| 0 <= k < es.len() ==> es[k] != HealthEvent::NetworkLoss,
    ensures
        h.after_all(es) != SessionHealth::Disconnected,
    decreases es.len(),
{
    if es.len() > 0 {
        let rest = es.drop_last();
        assert forall|k: int| 0 <= k < rest.len() implies rest[k] != HealthEvent::NetworkLoss by {
            assert(rest[k] == es[k]);
        }
        lemma_disconnect_needs_signal(h, rest);
        assert(es.last() == es[es.len() - 1]);
    }
}

/// Status of one registered session, as reported to the interface.
#[derive(Debug, Clone)]
pub struct AccountSessionStatus {
    pub account_id: i64,
    pub handle: String,
    pub is_connected: bool,
    /// Unix seconds.
    pub last_activity: Option<i64>,
    pub session_health: SessionHealth,
}

/// A live session: the connection handle `C` of one account, with its health.
#[derive(Debug)]
pub struct ManagedAgent<C> {
    pub account_id: i64,
    pub handle: String,
    pub agent: C,
    /// Unix seconds.
    pub last_activity: Option<i64>,
    pub health: SessionHealth,
}

impl<C> ManagedAgent<C> {
    /// A session that starts healthy, active at `now`.
    pub fn new(account_id: i64, handle: String, agent: C, now: i64) -> (r: ManagedAgent<C>)
        ensures
            r.account_id == account_id,
            r.handle == handle,
            r.agent == agent,
            r.last_activity == Some(now),
            r.health == SessionHealth::Healthy,
    {
        ManagedAgent {
            account_id,
            handle,
            agent,
            last_activity: Some(now),
            health: SessionHealth::Healthy,
        }
    }

    /// Records a successful remote operation: active at `now`, and healthy.
    pub fn update_activity(&mut self, now: i64)
        ensures
            final(self).account_id == old(self).account_id,
            final(self).handle == old(self).handle,
            final(self).agent == old(self).agent,
            final(self).last_activity == Some(now),
            final(self).health == SessionHealth::Healthy,
    {
        self.last_activity = Some(now);
        self.health = SessionHealth::Healthy;
    }

    /// Moves to `health` when the state machine has that transition from
    /// the current health; otherwise the health stays as it is.
    pub fn set_health(&mut self, health: SessionHealth)
        ensures
            *final(self) == (ManagedAgent {
                health: if old(self).health.may_become(health) { health } else { old(self).health },
                ..*old(self)
            }),
    {
        if self.health.can_become(health) {
            self.health = health;
        }
    }
}

/// The handles of the connected sessions of `s`, in order.
pub open spec fn connected_handles<C>(s: Seq<ManagedAgent<C>>) -> Seq<Seq<char>>
    decreases s.len(),
{
    if s.len() == 0 {
        Seq::empty()
    } else {
        let rest = connected_handles(s.drop_last());
        if s.last().health.connected() {
            rest.push(s.last().handle@)
        } else {
            rest
        }
    }
}

/// The status that a registered session reports.
pub open spec fn status_of<C>(a: ManagedAgent<C>) -> AccountSessionStatus {
    AccountSessionStatus {
        account_id: a.account_id,
        handle: a.handle,
        is_connected: a.health.connected(),
        last_activity: a.last_activity,
        session_health: a.health,
    }
}

/// The views of a sequence of strings.
pub open spec fn texts(v: Seq<String>) -> Seq<Seq<char>> {
    v.map_values(|s: String| s@)
}

/// The registry of live sessions, at most one per handle.
pub struct SessionManager<C> {
    agents: Vec<ManagedAgent<C>>,
}

impl<C> View for SessionManager<C> {
    type V = Seq<ManagedAgent<C>>;

    closed spec fn view(&self) -> Seq<ManagedAgent<C>> {
        self.agents@
    }
}

impl<C> SessionManager<C> {
    /// No two entries share a handle.
    pub open spec fn wf(&self) -> bool {
        forall|i: int, j: int|
            0 <= i < j < self@.len() ==> #[trigger] self@[i].handle@ != #[trigger] self@[j].handle@
    }

    /// An entry is registered under `h`.
    pub open spec fn has(&self, h: Seq<char>) -> bool {
        exists|i: int| 0 <= i < self@.len() && #[trigger] self@[i].handle@ == h
    }

    pub fn new() -> (r: SessionManager<C>)
        ensures
            r.wf(),
            r@.len() == 0,
    {
        SessionManager { agents: Vec::new() }
    }

    /// Where the entry of `handle` stands.
    fn position(&self, handle: &str) -> (r: Option<usize>)
        ensures
            r matches Some(i) ==> i < self@.len() && self@[i as int].handle@ == handle@,
            r is None ==> !self.has(handle@),
    {
        let key = String::from_str(handle);
        let mut i: usize = 0;
        while i < self.agents.len()
            invariant
                i <= self.agents@.len(),
                key@ == handle@,
                forall|k: int| 0 <= k < i ==> self.agents@[k].handle@ != handle@,
            decreases self.agents@.len() - i,
        {
            if self.agents[i].handle == key {
                return Some(i);
            }
            i = i + 1;
        }
        None
    }

    /// Registers a healthy session for `handle`, replacing the one that stood
    /// there: a handle never has two entries.
    pub fn add_agent(&mut self, handle: String, account_id: i64, agent: C, now: i64)
        requires
            old(self).wf(),
        ensures
            final(self).wf(),
            final(self).has(handle@),
            final(self)@.len() == old(self)@.len() + if old(self).has(handle@) { 0int } else { 1int },
            forall|i: int|
                0 <= i < old(self)@.len() && old(self)@[i].handle@ != handle@ ==> final(self)@[i]
                    == old(self)@[i],
            forall|i: int|
                0 <= i < final(self)@.len() && #[trigger] final(self)@[i].handle@ == handle@ ==> {
                    &&& final(self)@[i].account_id == account_id
                    &&& final(self)@[i].agent == agent
                    &&& final(self)@[i].health == SessionHealth::Healthy
                    &&& final(self)@[i].last_activity == Some(now)
                },
    {
        let pos = self.position(handle.as_str());
        let ghost h = handle@;
        let managed = ManagedAgent::new(account_id, handle, agent, now);
        match pos {
            Some(i) => {
                self.agents.set(i, managed);
                assert(self@[i as int].handle@ == h);
                assert(forall|k: int| 0 <= k < old(self)@.len() && k != i ==> self@[k] == old(self)@[k]);
            },
            None => {
                self.agents.push(managed);
                assert(self@[old(self)@.len() as int].handle@ == h);
            },
        }
    }

    /// The entry of `handle`; absence is no error.
    pub fn get_agent(&self, handle: &str) -> (r: Option<&ManagedAgent<C>>)
        requires
            self.wf(),
        ensures
            r is None <==> !self.has(handle@),
            r matches Some(a) ==> a.handle@ == handle@ && exists|i: int|
                0 <= i < self@.len() && self@[i] == *a,
    {
        match self.position(handle) {
            Some(i) => Some(&self.agents[i]),
            None => None,
        }
    }

    /// Takes the entry of `handle` out of the registry and hands it back, so
    /// that its connection can be released.
    pub fn remove_agent(&mut self, handle: &str) -> (r: Option<ManagedAgent<C>>)
        requires
            old(self).wf(),
        ensures
            final(self).wf(),
            !final(self).has(handle@),
            r is None ==> !old(self).has(handle@) && final(self)@ == old(self)@,
            r matches Some(a) ==> exists|i: int|
                0 <= i < old(self)@.len() && old(self)@[i] == a && a.handle@ == handle@
                    && final(self)@ == old(self)@.remove(i),
    {
        match self.position(handle) {
            Some(i) => {
                let a = self.agents.remove(i);
                assert(old(self)@[i as int] == a);
                proof {
                    assert forall|k: int| 0 <= k < self@.len() implies self@[k].handle@ != handle@ by {
                        if k < i {
                            assert(self@[k] == old(self)@[k]);
                        } else {
                            assert(self@[k] == old(self)@[k + 1]);
                        }
                    }
                }
                Some(a)
            },
            None => None,
        }
    }

    /// Records a successful remote operation on `handle`; false when no session
    /// is registered there.
    pub fn mark_activity(&mut self, handle: &str, now: i64) -> (r: bool)
        requires
            old(self).wf(),
        ensures
            final(self).wf(),
            r == old(self).has(handle@),
            final(self)@.len() == old(self)@.len(),
            forall|i: int|
                0 <= i < old(self)@.len() ==> if old(self)@[i].handle@ == handle@ {
                    &&& final(self)@[i].health == SessionHealth::Healthy
                    &&& final(self)@[i].last_activity == Some(now)
                    &&& final(self)@[i].handle == old(self)@[i].handle
                    &&& final(self)@[i].account_id == old(self)@[i].account_id
                    &&& final(self)@[i].agent == old(self)@[i].agent
                } else {
                    final(self)@[i] == old(self)@[i]
                },
    {
        match self.position(handle) {
            Some(i) => {
                let mut a = self.agents.remove(i);
                a.update_activity(now);
                self.agents.insert(i, a);
                true
            },
            None => false,
        }
    }

    /// Moves the health of `handle` through the state machine; false when no
    /// session is registered there.
    pub fn apply_health_event(&mut self, handle: &str, event: HealthEvent) -> (r: bool)
        requires
            old(self).wf(),
        ensures
            final(self).wf(),
            r == old(self).has(handle@),
            final(self)@.len() == old(self)@.len(),
            forall|i: int|
                0 <= i < old(self)@.len() ==> final(self)@[i] == if old(self)@[i].handle@ == handle@ {
                    ManagedAgent { health: old(self)@[i].health.after(event), ..old(self)@[i] }
                } else {
                    old(self)@[i]
                },
    {
        match self.position(handle) {
            Some(i) => {
                let mut a = self.agents.remove(i);
                a.health = a.health.next(event);
                self.agents.insert(i, a);
                true
            },
            None => false,
        }
    }

    /// An explicit transition of the health of `handle` to `health`, taken
    /// only where the state machine has it; false when no session is
    /// registered there.
    pub fn mark_health(&mut self, handle: &str, health: SessionHealth) -> (r: bool)
        requires
            old(self).wf(),
        ensures
            final(self).wf(),
            r == old(self).has(handle@),
            final(self)@.len() == old(self)@.len(),
            forall|i: int|
                0 <= i < old(self)@.len() ==> final(self)@[i] == if old(self)@[i].handle@ == handle@ {
                    ManagedAgent {
                        health: if old(self)@[i].health.may_become(health) { health } else { old(self)@[i].health },
                        ..old(self)@[i]
                    }
                } else {
                    old(self)@[i]
                },
    {
        match self.position(handle) {
            Some(i) => {
                let mut a = self.agents.remove(i);
                a.set_health(health);
                self.agents.insert(i, a);
                true
            },
            None => false,
        }
    }

    /// The handles of the connected sessions (Healthy or Warning), each once.
    pub fn get_active_handles(&self) -> (r: Vec<String>)
        requires
            self.wf(),
        ensures
            texts(r@) == connected_handles(self@),
            texts(r@).no_duplicates(),
    {
        let mut out: Vec<String> = Vec::new();
        let mut i: usize = 0;
        while i < self.agents.len()
            invariant
                i <= self.agents@.len(),
                texts(out@) == connected_handles(self.agents@.subrange(0, i as int)),
            decreases self.agents@.len() - i,
        {
            let ghost before = out@;
            assert(self.agents@.subrange(0, i as int + 1).drop_last() =~= self.agents@.subrange(0, i as int));
            if self.agents[i].health.is_connected() {
                out.push(self.agents[i].handle.clone());
                assert(texts(out@) =~= texts(before).push(self.agents@[i as int].handle@));
            }
            i = i + 1;
        }
        assert(self.agents@.subrange(0, self.agents@.len() as int) =~= self.agents@);
        proof { lemma_connected_handles_unique(self@); }
        out
    }

    /// The status of every registered session, in registration order.
    pub fn get_session_statuses(&self) -> (r: Vec<AccountSessionStatus>)
        ensures
            r@.len() == self@.len(),
            forall|i: int| 0 <= i < r@.len() ==> r@[i] == status_of(self@[i]),
    {
        let mut out: Vec<AccountSessionStatus> = Vec::new();
        let mut i: usize = 0;
        while i < self.agents.len()
            invariant
                i <= self.agents@.len(),
                out@.len() == i,
                forall|k: int| 0 <= k < i ==> out@[k] == status_of(self.agents@[k]),
            decreases self.agents@.len() - i,
        {
            let a = &self.agents[i];
            out.push(AccountSessionStatus {
                account_id: a.account_id,
                handle: a.handle.clone(),
                is_connected: a.health.is_connected(),
                last_activity: a.last_activity,
                session_health: a.health,
            });
            i = i + 1;
        }
        out
    }
}

/// Every handle that `connected_handles` lists is the handle of an entry, and
/// where the entries' handles are distinct it lists none twice.
pub proof fn lemma_connected_handles_unique<C>(s: Seq<ManagedAgent<C>>)
    requires
        forall|i: int, j: int| 0 <= i < j < s.len() ==> #[trigger] s[i].handle@ != #[trigger] s[j].handle@,
    ensures
        forall|k: int| 0 <= k < connected_handles(s).len() ==> exists|i: int|
            0 <= i < s.len() && #[trigger] connected_handles(s)[k] == s[i].handle@,
        connected_handles(s).no_duplicates(),
    decreases s.len(),
{
    if s.len() > 0 {
        let rest = s.drop_last();
        assert forall|i: int, j: int| 0 <= i < j < rest.len() implies #[trigger] rest[i].handle@
            != #[trigger] rest[j].handle@ by {
            assert(rest[i] == s[i] && rest[j] == s[j]);
        }
        lemma_connected_handles_unique(rest);
        let c = connected_handles(rest);
        assert forall|k: int| 0 <= k < c.len() implies c[k] != s.last().handle@ by {
            let i = choose|i: int| 0 <= i < rest.len() && c[k] == rest[i].handle@;
            assert(rest[i] == s[i]);
            assert(s.last() == s[s.len() - 1]);
        }
        assert forall|k: int| 0 <= k < connected_handles(s).len() implies exists|i: int|
            0 <= i < s.len() && #[trigger] connected_handles(s)[k] == s[i].handle@ by {
            if k < c.len() {
                let i = choose|i: int| 0 <= i < rest.len() && c[k] == rest[i].handle@;
                assert(rest[i] == s[i]);
                assert(connected_handles(s)[k] == c[k]);
            } else {
                assert(connected_handles(s)[k] == s[s.len() - 1].handle@);
            }
        }
    }
}

} // verus!
