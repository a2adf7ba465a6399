//! The hub's bookkeeping of workshop sessions: which pod serves which
//! session, whether it is healthy, when a new one may be created, and which
//! sessions the garbage collector removes. The Kubernetes and HTTP calls
//! themselves are made by the caller, which hands their results back here.
use rand::Rng;
use vstd::prelude::*;
use vstd::string::*;
use crate::hub::config::{Config, Workshop};
use crate::hub::definition::{
    create_workshop_pod_spec, create_workshop_service_spec, is_pod_owner_reference, is_workshop_pod,
    is_workshop_service, pod_owner_reference, HUB_ID, LABEL_MANAGED_BY, LABEL_USER_ID,
    LABEL_WORKSHOP_NAME, TTL_ANNOTATION,
};
use crate::hub::error::HubError;
use crate::hub::manifest::{Pod, Service};
use crate::hub::pod::{whole_seconds, ManagedPod, ManagedPodView, PodInfo, PodInfoView, SidecarHealth};
use crate::text::{
    join, decimal, format_i32, is_ascii_alphanumeric, lemma_parse_decimal_roundtrip, parse_i64,
    parse_i64_spec, same_text, string_from_chars, to_lowercase, unicode_lowercase,
};
use crate::hub::manifest::text_view;
use crate::textmap::TextMap;

verus! {

/// What a health check of a session found.
pub enum PodStatus {
    /// The pod is serving; the string is the URL of its proxy.
    Healthy(PodInfo, String),
    /// The pod answered but has been idle too long.
    Old(ManagedPod),
    /// The pod did not answer its health check.
    Unhealthy(ManagedPod),
    /// The session's pod is gone from the cluster.
    PodMissing,
    /// There is no such session.
    Missing,
    /// The pod could not be reached.
    UnreachableError,
}

/// The first half of a health check: either settled from what is known, or a
/// probe of the sidecar is needed.
pub enum HealthStep {
    Resolved(PodStatus),
    /// Probe the sidecar of `pod` at `url`; without a URL the pod has no
    /// address and cannot be probed.
    Probe { pod: ManagedPod, url: Option<String> },
}

/// The hub's table of sessions, keyed by session key.
pub struct Orchestrator {
    pub config: Config,
    pub pods: TextMap<ManagedPod>,
}

/// The table of sessions, as abstract values.
pub open spec fn pods_view(pods: TextMap<ManagedPod>) -> Map<Seq<char>, ManagedPodView> {
    pods@.map_values(|mp: ManagedPod| mp@)
}

/// `x / 4` rounded toward zero.
pub open spec fn quarter(x: int) -> int {
    if x >= 0 {
        x / 4
    } else {
        -((-x) / 4)
    }
}

/// The URL of the proxy of a pod at `ip`.
pub open spec fn proxy_url(ip: Seq<char>, port: i32) -> Seq<char> {
    "http://"@ + ip + ":"@ + decimal(port as int)
}

/// The URL of the health endpoint of the sidecar of a pod at `ip`.
pub open spec fn health_url(ip: Seq<char>, port: i32) -> Seq<char> {
    "http://"@ + ip + ":"@ + decimal(port as int) + "/health"@
}

/// Whole seconds of Unix time in `ns` nanoseconds, rounded down.
pub open spec fn unix_seconds_spec(ns: i64) -> int {
    ns as int / 1_000_000_000
}

/// The pod is idle for longer than the configured limit at `now`.
pub open spec fn is_idle(mp: ManagedPodView, idle_limit: i64, now: i64) -> bool {
    mp.idle_at(now) > idle_limit
}

/// A session idles as its sidecar last reported: with a report of more idle
/// seconds than the limit, it is idle whatever its age; with no report, it is
/// idle when it is older than the limit.
pub proof fn lemma_idle_by_report_or_age(mp: ManagedPodView, idle_limit: i64, now: i64)
    ensures
        mp.health matches Some(h) ==> (is_idle(mp, idle_limit, now) <==> h.idle_seconds > idle_limit),
        mp.health is None ==> (is_idle(mp, idle_limit, now) <==> whole_seconds(now - mp.created)
            > idle_limit),
{
}

/// The pod carries a TTL annotation that parses as a Unix time earlier than
/// `now_secs`.
pub open spec fn ttl_expired(pod: PodInfoView, now_secs: int) -> bool {
    &&& pod.annotations.contains_key(TTL_ANNOTATION@)
    &&& parse_i64_spec(pod.annotations[TTL_ANNOTATION@]) matches Some(expires_at)
    &&& now_secs > expires_at
}

/// The session a pod listed by Kubernetes belongs to, read from its labels:
/// `<user>-<workshop>`, as `session_key` writes it, or the bare user id for
/// a pod that carries no workshop label.
pub open spec fn adopted_key(p: PodInfoView) -> Seq<char> {
    let u = p.labels[LABEL_USER_ID@];
    if p.labels.contains_key(LABEL_WORKSHOP_NAME@) {
        u + "-"@ + p.labels[LABEL_WORKSHOP_NAME@]
    } else {
        u
    }
}

/// Adopting one pod listed by Kubernetes: a pod labelled with a user id
/// replaces the pod of its session (see `adopted_key`), keeping its creation
/// time and health, or starts a new session at `now`; an unlabelled pod
/// changes nothing.
pub open spec fn adopt(m: Map<Seq<char>, ManagedPodView>, p: PodInfoView, now: i64) -> Map<
    Seq<char>,
    ManagedPodView,
> {
    if p.labels.contains_key(LABEL_USER_ID@) {
        let k = adopted_key(p);
        if m.contains_key(k) {
            m.insert(k, ManagedPodView { pod: p, updated: now, ..m[k] })
        } else {
            m.insert(k, ManagedPodView { pod: p, created: now, updated: now, health: None })
        }
    } else {
        m
    }
}

/// Adopting a list of pods, in order.
pub open spec fn adopt_all(m: Map<Seq<char>, ManagedPodView>, ps: Seq<PodInfoView>, now: i64) -> Map<
    Seq<char>,
    ManagedPodView,
>
    decreases ps.len(),
{
    if ps.len() == 0 {
        m
    } else {
        adopt(adopt_all(m, ps.drop_last(), now), ps.last(), now)
    }
}

/// The name Kubernetes knows a pod by: its name, else its generated name,
/// else the empty name.
pub open spec fn name_any(pod: PodInfoView) -> Seq<char> {
    match pod.name {
        Some(n) => n,
        None => match pod.generate_name {
            Some(g) => g,
            None => Seq::<char>::empty(),
        },
    }
}

/// Draws `n` characters uniformly from the ASCII letters and digits.
#[verifier::external_body]
fn random_alphanumeric(n: usize) -> (cs: Vec<char>)
    ensures
        cs@.len() == n,
        forall|i: int| 0 <= i < cs@.len() ==> is_ascii_alphanumeric(#[trigger] cs@[i]),
{
    rand::rng().sample_iter(&rand::distr::Alphanumeric).take(n).map(char::from).collect()
}

/// A random six-character suffix for pod names: ASCII letters and digits,
/// lowercased.
pub fn generate_suffix() -> (s: String)
    ensures
        exists|cs: Seq<char>|
            cs.len() == 6 && (forall|i: int| 0 <= i < 6 ==> is_ascii_alphanumeric(#[trigger] cs[i]))
                && s@ == unicode_lowercase(cs),
{
    let cs = random_alphanumeric(6);
    let raw = string_from_chars(&cs, 0, 6);
    proof {
        assert(cs@.subrange(0, 6) =~= cs@);
    }
    to_lowercase(raw.as_str())
}

/// A pod and its stable service name.
pub struct PodBinding {
    pub pod_name: String,
    pub service_name: String,
    /// The stable DNS name to connect to.
    pub cluster_dns_name: String,
}

/// The binding of the pod `pod_name` in `namespace`: its service has the
/// pod's name, reached at `<service>.<namespace>.svc.cluster.local`.
pub fn pod_binding(pod_name: &str, namespace: &str) -> (b: PodBinding)
    ensures
        b.pod_name@ == pod_name@,
        b.service_name@ == pod_name@,
        b.cluster_dns_name@ == pod_name@ + "."@ + namespace@ + ".svc.cluster.local"@,
{
    let a = join(pod_name, ".");
    let c = join(a.as_str(), namespace);
    let dns = join(c.as_str(), ".svc.cluster.local");
    PodBinding {
        pod_name: String::from_str(pod_name),
        service_name: String::from_str(pod_name),
        cluster_dns_name: dns,
    }
}

/// The binding of a pod found already running, if it has a non-empty name.
pub fn existing_binding(pod_name: &Option<String>, namespace: &str) -> (b: Option<PodBinding>)
    ensures
        match pod_name {
            Some(n) if n@.len() > 0 => b matches Some(x) && x.pod_name@ == n@ && x.service_name@
                == n@ && x.cluster_dns_name@ == n@ + "."@ + namespace@ + ".svc.cluster.local"@,
            _ => b is None,
        },
{
    match pod_name {
        Some(n) => {
            if n.as_str().is_empty() {
                None
            } else {
                Some(pod_binding(n.as_str(), namespace))
            }
        },
        None => None,
    }
}

/// The label selector of the objects this hub manages.
pub fn managed_pods_selector() -> (s: String)
    ensures
        s@ == LABEL_MANAGED_BY@ + "="@ + HUB_ID@,
{
    let a = join(LABEL_MANAGED_BY, "=");
    join(a.as_str(), HUB_ID)
}

/// The label selector of one user's pods of a workshop.
pub fn user_pods_selector(user_id: &str, workshop_name: &str) -> (s: String)
    ensures
        s@ == LABEL_USER_ID@ + "="@ + user_id@ + ","@ + LABEL_WORKSHOP_NAME@ + "="@ + workshop_name@
            + ","@ + LABEL_MANAGED_BY@ + "="@ + HUB_ID@,
{
    let a = join(LABEL_USER_ID, "=");
    let b = join(a.as_str(), user_id);
    let c = join(b.as_str(), ",");
    let d = join(c.as_str(), LABEL_WORKSHOP_NAME);
    let e = join(d.as_str(), "=");
    let f = join(e.as_str(), workshop_name);
    let g = join(f.as_str(), ",");
    let m = managed_pods_selector();
    join(g.as_str(), m.as_str())
}

/// The label selector of all of this hub's pods of a workshop.
pub fn workshop_pods_selector(workshop_name: &str) -> (s: String)
    ensures
        s@ == LABEL_MANAGED_BY@ + "="@ + HUB_ID@ + ","@ + LABEL_WORKSHOP_NAME@ + "="@ + workshop_name@,
{
    let m = managed_pods_selector();
    let a = join(m.as_str(), ",");
    let b = join(a.as_str(), LABEL_WORKSHOP_NAME);
    let c = join(b.as_str(), "=");
    join(c.as_str(), workshop_name)
}

/// The sessions that a list of pods labelled with a user id belong to.
pub open spec fn labelled_sessions(ps: Seq<PodInfoView>) -> Set<Seq<char>> {
    Set::new(
        |k: Seq<char>|
            exists|i: int|
                0 <= i < ps.len() && #[trigger] ps[i].labels.contains_key(LABEL_USER_ID@)
                    && adopted_key(ps[i]) == k,
    )
}

/// After adopting a list of pods, the sessions are exactly those known
/// before and those the labelled pods belong to; sessions not named by any
/// pod keep their state.
pub proof fn lemma_adopt_all_sessions(m: Map<Seq<char>, ManagedPodView>, ps: Seq<PodInfoView>, now: i64)
    ensures
        adopt_all(m, ps, now).dom() == m.dom().union(labelled_sessions(ps)),
        forall|k: Seq<char>|
            #[trigger] m.contains_key(k) && !labelled_sessions(ps).contains(k) ==> adopt_all(m, ps, now)[k]
                == m[k],
    decreases ps.len(),
{
    if ps.len() > 0 {
        let qs = ps.drop_last();
        lemma_adopt_all_sessions(m, qs, now);
        let p = ps.last();
        assert forall|k: Seq<char>| #[trigger] labelled_sessions(ps).contains(k) == (labelled_sessions(qs).contains(k) || (p.labels.contains_key(LABEL_USER_ID@) && adopted_key(p) == k)) by {
            if labelled_sessions(ps).contains(k) {
                let i = choose|i: int| 0 <= i < ps.len() && #[trigger] ps[i].labels.contains_key(LABEL_USER_ID@) && adopted_key(ps[i]) == k;
                if i < ps.len() - 1 {
                    assert(qs[i] == ps[i]);
                }
            }
            if labelled_sessions(qs).contains(k) {
                let i = choose|i: int| 0 <= i < qs.len() && #[trigger] qs[i].labels.contains_key(LABEL_USER_ID@) && adopted_key(qs[i]) == k;
                assert(ps[i] == qs[i]);
            }
            if p.labels.contains_key(LABEL_USER_ID@) && adopted_key(p) == k {
                assert(ps[ps.len() - 1] == p);
            }
        }
        assert(adopt_all(m, ps, now).dom() =~= m.dom().union(labelled_sessions(ps)));
    } else {
        assert(labelled_sessions(ps) =~= Set::empty());
        assert(m.dom().union(labelled_sessions(ps)) =~= m.dom());
    }
}

/// A pod that Kubernetes lists with a user id and a workshop name is, once
/// the list is adopted, the session that `session_key` names for that user
/// and workshop: the next health check of that session finds it.
pub proof fn lemma_populated_session_found(
    m: Map<Seq<char>, ManagedPodView>,
    ps: Seq<PodInfoView>,
    now: i64,
    i: int,
)
    requires
        0 <= i < ps.len(),
        ps[i].labels.contains_key(LABEL_USER_ID@),
        ps[i].labels.contains_key(LABEL_WORKSHOP_NAME@),
    ensures
        adopt_all(m, ps, now).contains_key(
            ps[i].labels[LABEL_USER_ID@] + "-"@ + ps[i].labels[LABEL_WORKSHOP_NAME@],
        ),
{
    lemma_adopt_all_sessions(m, ps, now);
    assert(labelled_sessions(ps).contains(adopted_key(ps[i])));
}

/// The pod is labelled as managed by this hub.
pub open spec fn is_managed(p: PodInfoView) -> bool {
    p.labels.contains_key(LABEL_MANAGED_BY@) && p.labels[LABEL_MANAGED_BY@] == HUB_ID@
}

/// Every session of the table holds a pod managed by this hub.
pub open spec fn all_managed(m: Map<Seq<char>, ManagedPodView>) -> bool {
    forall|k: Seq<char>| #[trigger] m.contains_key(k) ==> is_managed(m[k].pod)
}

/// Adopting pods that Kubernetes lists under the managed-by selector keeps
/// every session on a managed pod, so the garbage collector, which only
/// deletes sessions of the table (see `gc_candidates`), never reaches a pod
/// that this hub does not manage.
pub proof fn lemma_adopt_keeps_managed(m: Map<Seq<char>, ManagedPodView>, ps: Seq<PodInfoView>, now: i64)
    requires
        all_managed(m),
        forall|i: int| 0 <= i < ps.len() ==> is_managed(#[trigger] ps[i]),
    ensures
        all_managed(adopt_all(m, ps, now)),
    decreases ps.len(),
{
    if ps.len() > 0 {
        let qs = ps.drop_last();
        assert forall|i: int| 0 <= i < qs.len() implies is_managed(#[trigger] qs[i]) by {
            assert(qs[i] == ps[i]);
        }
        lemma_adopt_keeps_managed(m, qs, now);
        assert(is_managed(ps[ps.len() - 1]));
    }
}

/// The key under which a user's session of a workshop is kept.
pub fn session_key(user_id: &str, workshop_name: &str) -> (k: String)
    ensures
        k@ == user_id@ + "-"@ + workshop_name@,
{
    let a = join(user_id, "-");
    join(a.as_str(), workshop_name)
}

/// Whole seconds of Unix time in `ns` nanoseconds, rounded down.
pub fn unix_seconds(ns: i64) -> (s: i64)
    ensures
        s == unix_seconds_spec(ns),
{
    if ns >= 0 {
        ns / 1_000_000_000
    } else {
        let m: i128 = ns as i128;
        let q: i128 = (-m + 999_999_999) / 1_000_000_000;
        (-q) as i64
    }
}

/// Whether the garbage collector deletes a candidate session, given whether
/// its TTL expired and, for one that did not, what a fresh health check
/// found: expired sessions always go; of the others, those found healthy or
/// unreachable stay.
pub fn gc_should_delete(is_expired: bool, status: &PodStatus) -> (delete: bool)
    ensures
        delete == (is_expired || match status {
            PodStatus::Healthy(..) => false,
            PodStatus::UnreachableError => false,
            _ => true,
        }),
{
    if is_expired {
        return true;
    }
    match status {
        PodStatus::Healthy(..) => false,
        PodStatus::UnreachableError => false,
        _ => true,
    }
}

fn proxy_url_for(ip: &String, port: i32) -> (u: String)
    ensures
        u@ == proxy_url(ip@, port),
{
    let a = join("http://", ip.as_str());
    let b = join(a.as_str(), ":");
    join(b.as_str(), format_i32(port).as_str())
}

/// What garbage collection does next with one candidate session.
pub enum GcDecision {
    /// Ask the session's sidecar how it is, then decide again.
    Probe,
    Delete,
    Keep,
}

/// The garbage collector's decision on a candidate: an expired session is
/// deleted without a probe; any other is probed first, then deleted unless
/// the probe found it healthy or could not reach it (`gc_should_delete`).
pub fn gc_decide(is_expired: bool, status: &Option<PodStatus>) -> (d: GcDecision)
    ensures
        is_expired ==> d is Delete,
        !is_expired ==> match status {
            None => d is Probe,
            Some(st) => match st {
                PodStatus::Healthy(..) | PodStatus::UnreachableError => d is Keep,
                _ => d is Delete,
            },
        },
{
    if is_expired {
        return GcDecision::Delete;
    }
    match status {
        None => GcDecision::Probe,
        Some(st) => if gc_should_delete(false, st) {
            GcDecision::Delete
        } else {
            GcDecision::Keep
        },
    }
}

/// The count of sessions removed, after one more deletion attempt.
pub fn count_deleted(deleted: usize, removed: bool) -> (n: usize)
    requires
        deleted < usize::MAX,
    ensures
        n == if removed {
            deleted + 1
        } else {
            deleted as int
        },
{
    if removed {
        deleted + 1
    } else {
        deleted
    }
}

impl Orchestrator {
    /// A hub with the given configuration and no sessions.
    pub fn with_config(config: Config) -> (o: Self)
        ensures
            o.config == config,
            o.pods@ == Map::<Seq<char>, ManagedPod>::empty(),
    {
        Orchestrator { config, pods: TextMap::new() }
    }

    /// The session of a request by `user_id` for the workshop named
    /// `workshop_name`: its key `<user>-<workshop>`, or `WorkshopNotFound`
    /// where no workshop has that name.
    pub fn request_session(&self, user_id: &str, workshop_name: &str) -> (r: Result<String, HubError>)
        ensures
            match r {
                Ok(k) => k@ == user_id@ + "-"@ + workshop_name@ && exists|i: int|
                    0 <= i < self.config.workshops@.len() && #[trigger] self.config.workshops@[i].name@
                        == workshop_name@,
                Err(e) => e is WorkshopNotFound && forall|i: int|
                    0 <= i < self.config.workshops@.len() ==> #[trigger] self.config.workshops@[i].name@
                        != workshop_name@,
            },
    {
        match self.config.get_workshop(workshop_name) {
            Some(w) => Ok(session_key(user_id, w.name.as_str())),
            None => Err(HubError::WorkshopNotFound),
        }
    }

    /// Takes in the pods that Kubernetes lists as this hub's, in order (see
    /// `adopt`).
    pub fn populate(&mut self, k_pods: &Vec<PodInfo>, now: i64)
        ensures
            final(self).config == old(self).config,
            pods_view(final(self).pods) == adopt_all(
                pods_view(old(self).pods),
                k_pods@.map_values(|p: PodInfo| p@),
                now,
            ),
    {
        let ghost views = k_pods@.map_values(|p: PodInfo| p@);
        let ghost start = pods_view(self.pods);
        let n: usize = k_pods.len();
        let mut i: usize = 0;
        proof {
            assert(views.subrange(0, 0) =~= Seq::<PodInfoView>::empty());
        }
        while i < n
            invariant
                i <= n,
                n == k_pods@.len(),
                views == k_pods@.map_values(|p: PodInfo| p@),
                self.config == old(self).config,
                pods_view(self.pods) == adopt_all(start, views.subrange(0, i as int), now),
            decreases n - i,
        {
            let ghost before = pods_view(self.pods);
            let pod = k_pods[i].duplicate();
            let user = pod.labels.get(LABEL_USER_ID);
            match user {
                Some(u) => {
                    let key = match pod.labels.get(LABEL_WORKSHOP_NAME) {
                        Some(w) => session_key(u.as_str(), w.as_str()),
                        None => u.clone(),
                    };
                    let existing = self.pods.take(key.as_str());
                    match existing {
                        Some(mp) => {
                            let mut mp = mp;
                            mp.set_pod_at(pod, now);
                            self.pods.insert(key, mp);
                        },
                        None => {
                            self.pods.insert(key, ManagedPod::new_at(pod, now));
                        },
                    }
                },
                None => {},
            }
            proof {
                let sub = views.subrange(0, i + 1);
                assert(sub.drop_last() =~= views.subrange(0, i as int));
                assert(sub.last() == k_pods@[i as int]@);
                assert(pods_view(self.pods) =~= adopt(before, k_pods@[i as int]@, now));
            }
            i = i + 1;
        }
        proof {
            assert(views.subrange(0, n as int) =~= views);
        }
    }

    /// The URL of the proxy of a pod at `pod_ip`.
    pub fn build_proxy_url(&self, pod_ip: &String) -> (u: String)
        ensures
            u@ == proxy_url(pod_ip@, self.config.sidecar_proxy_port),
    {
        proxy_url_for(pod_ip, self.config.sidecar_proxy_port)
    }

    /// The URL of the health endpoint of the sidecar of `pod`, if it has an
    /// address.
    pub fn sidecar_health_url(&self, pod: &PodInfo) -> (u: Option<String>)
        ensures
            match pod@.pod_ip {
                Some(ip) => u matches Some(s) && s@ == health_url(
                    ip,
                    self.config.sidecar_health_port,
                ),
                None => u is None,
            },
    {
        match &pod.pod_ip {
            Some(ip) => {
                let a = join("http://", ip.as_str());
                let b = join(a.as_str(), ":");
                let c = join(b.as_str(), format_i32(self.config.sidecar_health_port).as_str());
                Some(join(c.as_str(), "/health"))
            },
            None => None,
        }
    }

    /// The fast path of a health check: a pod checked recently enough (idle
    /// for less than a quarter of the idle limit) that has an address is
    /// taken as healthy without asking its sidecar.
    pub fn check_cached_health(&self, mp: &ManagedPod, now: i64) -> (r: Option<PodStatus>)
        ensures
            match r {
                Some(PodStatus::Healthy(p, url)) => {
                    &&& mp@.idle_at(now) < quarter(self.config.workshop_idle_seconds as int)
                    &&& p@ == mp@.pod
                    &&& mp@.pod.pod_ip matches Some(ip) && url@ == proxy_url(
                        ip,
                        self.config.sidecar_proxy_port,
                    )
                },
                Some(_) => false,
                None => mp@.idle_at(now) >= quarter(self.config.workshop_idle_seconds as int)
                    || mp@.pod.pod_ip is None,
            },
    {
        let idle_limit: i64 = self.config.workshop_idle_seconds;
        let freshness_threshold: i64 = if idle_limit >= 0 {
            idle_limit / 4
        } else {
            -((-(idle_limit as i128)) / 4) as i64
        };
        if mp.idle_at(now) >= freshness_threshold {
            return None;
        }
        let pod = mp.pod();
        match &pod.pod_ip {
            Some(ip) => Some(PodStatus::Healthy(pod.duplicate(), self.build_proxy_url(ip))),
            None => None,
        }
    }

    /// The first half of a health check of the session `session_key`: no
    /// session is `Missing`, a fresh one is settled by `check_cached_health`,
    /// any other needs a probe of its sidecar.
    pub fn check_health(&self, session_key: &str, now: i64) -> (step: HealthStep)
        ensures
            !self.pods@.contains_key(session_key@) ==> step matches HealthStep::Resolved(
                PodStatus::Missing,
            ),
            self.pods@.contains_key(session_key@) ==> {
                let mp = self.pods@[session_key@]@;
                match step {
                    HealthStep::Resolved(PodStatus::Healthy(p, url)) => {
                        &&& mp.idle_at(now) < quarter(self.config.workshop_idle_seconds as int)
                        &&& p@ == mp.pod
                        &&& mp.pod.pod_ip matches Some(ip) && url@ == proxy_url(
                            ip,
                            self.config.sidecar_proxy_port,
                        )
                    },
                    HealthStep::Resolved(_) => false,
                    HealthStep::Probe { pod, url } => {
                        &&& pod@ == mp
                        &&& (mp.idle_at(now) >= quarter(self.config.workshop_idle_seconds as int)
                            || mp.pod.pod_ip is None)
                        &&& match mp.pod.pod_ip {
                            Some(ip) => url matches Some(u) && u@ == health_url(
                                ip,
                                self.config.sidecar_health_port,
                            ),
                            None => url is None,
                        }
                    },
                }
            },
    {
        match self.pods.get(session_key) {
            None => HealthStep::Resolved(PodStatus::Missing),
            Some(mp) => {
                match self.check_cached_health(mp, now) {
                    Some(status) => HealthStep::Resolved(status),
                    None => {
                        let url = self.sidecar_health_url(mp.pod());
                        HealthStep::Probe { pod: mp.duplicate(), url }
                    },
                }
            },
        }
    }

    /// The second half of a health check: takes in the sidecar's report on
    /// `mp` (`None` where it could not be had). A pod without a report, or
    /// without an address, is `Unhealthy`; otherwise the report is recorded
    /// under `session_key`, and the pod is `Old` if it has been idle for the
    /// idle limit or longer, `Healthy` otherwise.
    pub fn perform_health_check(
        &mut self,
        session_key: &str,
        mp: ManagedPod,
        report: Option<SidecarHealth>,
        now: i64,
    ) -> (status: PodStatus)
        ensures
            final(self).config == old(self).config,
            match (report, mp@.pod.pod_ip) {
                (Some(h), Some(ip)) => {
                    let updated = ManagedPodView { health: Some(h@), updated: now, ..mp@ };
                    &&& pods_view(final(self).pods) == pods_view(old(self).pods).insert(
                        session_key@,
                        updated,
                    )
                    &&& if updated.idle_at(now) >= old(self).config.workshop_idle_seconds {
                        status matches PodStatus::Old(o) && o@ == updated
                    } else {
                        status matches PodStatus::Healthy(p, url) && p@ == mp@.pod && url@
                            == proxy_url(ip, old(self).config.sidecar_proxy_port)
                    }
                },
                _ => {
                    &&& pods_view(final(self).pods) == pods_view(old(self).pods)
                    &&& status matches PodStatus::Unhealthy(u) && u@ == mp@
                },
            },
    {
        let ghost before = pods_view(self.pods);
        let health = match report {
            Some(h) => h,
            None => return PodStatus::Unhealthy(mp),
        };
        let ip = match &mp.pod().pod_ip {
            Some(ip) => ip.clone(),
            None => return PodStatus::Unhealthy(mp),
        };
        let mut updated = mp;
        updated.set_health_at(health, now);
        self.pods.insert(String::from_str(session_key), updated.duplicate());
        proof {
            assert(pods_view(self.pods) =~= before.insert(session_key@, updated@));
        }
        if updated.idle_at(now) >= self.config.workshop_idle_seconds {
            PodStatus::Old(updated)
        } else {
            let url = self.build_proxy_url(&ip);
            PodStatus::Healthy(updated.into_pod(), url)
        }
    }

    /// What a health check means for a request for a pod: a healthy pod, or
    /// an old one with an address, answers with its proxy URL; an unhealthy
    /// or unreachable one with `PodNotReady`. Otherwise (`None`) a new pod is
    /// to be created, and the entry under the bare `user_id` is dropped first.
    pub fn resolve_status(&mut self, user_id: &str, status: PodStatus) -> (r: Option<
        Result<String, HubError>,
    >)
        ensures
            final(self).config == old(self).config,
            match status {
                PodStatus::Healthy(_, url) => r matches Some(Ok(u)) && u == url
                    && final(self).pods@ == old(self).pods@,
                PodStatus::Old(mp) => match mp@.pod.pod_ip {
                    Some(ip) => r matches Some(Ok(u)) && u@ == proxy_url(
                        ip,
                        old(self).config.sidecar_proxy_port,
                    ) && final(self).pods@ == old(self).pods@,
                    None => r is None && final(self).pods@ == old(self).pods@.remove(user_id@),
                },
                PodStatus::Unhealthy(_) | PodStatus::UnreachableError => r matches Some(
                    Err(HubError::PodNotReady),
                ) && final(self).pods@ == old(self).pods@,
                PodStatus::Missing | PodStatus::PodMissing => r is None && final(self).pods@
                    == old(self).pods@.remove(user_id@),
            },
    {
        match status {
            PodStatus::Healthy(_, url) => Some(Ok(url)),
            PodStatus::Old(mp) => {
                match &mp.pod().pod_ip {
                    Some(ip) => Some(Ok(self.build_proxy_url(ip))),
                    None => {
                        self.pods.remove(user_id);
                        None
                    },
                }
            },
            PodStatus::Unhealthy(_) | PodStatus::UnreachableError => Some(
                Err(HubError::PodNotReady),
            ),
            PodStatus::Missing | PodStatus::PodMissing => {
                self.pods.remove(user_id);
                None
            },
        }
    }

    /// Records the pod just created for `session_key`, adopted at `now`.
    pub fn record_new_pod(&mut self, session_key: String, pod: PodInfo, now: i64)
        ensures
            final(self).config == old(self).config,
            pods_view(final(self).pods) == pods_view(old(self).pods).insert(
                session_key@,
                ManagedPodView { pod: pod@, created: now, updated: now, health: None },
            ),
    {
        let ghost before = pods_view(self.pods);
        let ghost k = session_key@;
        let mp = ManagedPod::new_at(pod, now);
        self.pods.insert(session_key, mp);
        proof {
            assert(pods_view(self.pods) =~= before.insert(
                k,
                ManagedPodView { pod: pod@, created: now, updated: now, health: None },
            ));
        }
    }

    /// The name of the pod (and service) to delete for the session
    /// `key`; `None` where there is no such session.
    pub fn pod_to_delete(&self, key: &str) -> (name: Option<String>)
        ensures
            match name {
                Some(n) => self.pods@.contains_key(key@) && n@ == name_any(
                    self.pods@[key@]@.pod,
                ),
                None => !self.pods@.contains_key(key@),
            },
    {
        match self.pods.get(key) {
            None => None,
            Some(mp) => {
                let pod = mp.pod();
                match &pod.name {
                    Some(n) => Some(n.clone()),
                    None => match &pod.generate_name {
                        Some(g) => Some(g.clone()),
                        None => Some(String::new()),
                    },
                }
            },
        }
    }

    /// Drops the session `key` from the table.
    pub fn forget(&mut self, key: &str)
        ensures
            final(self).config == old(self).config,
            final(self).pods@ == old(self).pods@.remove(key@),
    {
        self.pods.remove(key);
    }

    /// The service to create beside the pod `pod_name` that Kubernetes has
    /// just created as `created`, owned by that pod.
    pub fn prepare_service(
        &self,
        pod_name: &str,
        user_id: &str,
        workshop_name: &str,
        created: &PodInfo,
    ) -> (svc: Service)
        ensures
            svc.metadata.owner_references matches Some(refs) && refs@.len() == 1
                && is_pod_owner_reference(refs@[0], pod_name@, created@.uid) && is_workshop_service(
                svc,
                pod_name@,
                pod_name@,
                user_id@,
                workshop_name@,
                refs@[0],
                self.config,
            ),
    {
        let owner_ref = pod_owner_reference(pod_name, &created.uid);
        create_workshop_service_spec(
            pod_name,
            pod_name,
            user_id,
            workshop_name,
            owner_ref,
            &self.config,
        )
    }

    /// The sessions that the garbage collector considers, each once, with
    /// whether its TTL expired: those idle for longer than the idle limit at
    /// `now` (Unix nanoseconds) and those whose TTL expired.
    pub fn gc_candidates(&self, now: i64) -> (cands: Vec<(String, bool)>)
        ensures
            forall|i: int|
                0 <= i < cands@.len() ==> {
                    let k = #[trigger] cands@[i].0@;
                    let mp = pods_view(self.pods)[k];
                    &&& self.pods@.contains_key(k)
                    &&& (is_idle(mp, self.config.workshop_idle_seconds, now) || ttl_expired(
                        mp.pod,
                        unix_seconds_spec(now),
                    ))
                    &&& cands@[i].1 == ttl_expired(mp.pod, unix_seconds_spec(now))
                },
            forall|k: Seq<char>|
                #[trigger] self.pods@.contains_key(k) && (is_idle(
                    pods_view(self.pods)[k],
                    self.config.workshop_idle_seconds,
                    now,
                ) || ttl_expired(pods_view(self.pods)[k].pod, unix_seconds_spec(now)))
                    ==> exists|i: int| 0 <= i < cands@.len() && #[trigger] cands@[i].0@ == k,
            forall|i: int, j: int|
                0 <= i < j < cands@.len() ==> #[trigger] cands@[i].0@ != #[trigger] cands@[j].0@,
            forall|k: Seq<char>|
                #[trigger] self.pods@.contains_key(k) && match pods_view(self.pods)[k].health {
                    Some(h) => h.idle_seconds > self.config.workshop_idle_seconds,
                    None => whole_seconds(now - pods_view(self.pods)[k].created)
                        > self.config.workshop_idle_seconds,
                } ==> exists|i: int| 0 <= i < cands@.len() && #[trigger] cands@[i].0@ == k,
    {
        let now_secs: i64 = unix_seconds(now);
        let keys = self.pods.keys();
        let n: usize = keys.len();
        let mut cands: Vec<(String, bool)> = Vec::new();
        let ghost mut taken: Seq<int> = Seq::empty();
        let mut i: usize = 0;
        while i < n
            invariant
                i <= n,
                n == keys.len(),
                now_secs == unix_seconds_spec(now),
                forall|j: int| 0 <= j < keys.len() ==> self.pods@.contains_key(#[trigger] keys@[j]@),
                forall|a: int, b: int| 0 <= a < b < keys.len() ==> #[trigger] keys@[a]@ != #[trigger] keys@[b]@,
                taken.len() == cands@.len(),
                forall|a: int| 0 <= a < taken.len() ==> 0 <= #[trigger] taken[a] < i && cands@[a].0@ == keys@[taken[a]]@,
                forall|a: int, b: int| 0 <= a < b < taken.len() ==> #[trigger] taken[a] < #[trigger] taken[b],
                forall|a: int|
                    0 <= a < cands@.len() ==> {
                        let k = #[trigger] cands@[a].0@;
                        let mp = pods_view(self.pods)[k];
                        &&& self.pods@.contains_key(k)
                        &&& (is_idle(mp, self.config.workshop_idle_seconds, now) || ttl_expired(
                            mp.pod,
                            unix_seconds_spec(now),
                        ))
                        &&& cands@[a].1 == ttl_expired(mp.pod, unix_seconds_spec(now))
                    },
                forall|j: int|
                    0 <= j < i && (is_idle(
                        pods_view(self.pods)[#[trigger] keys@[j]@],
                        self.config.workshop_idle_seconds,
                        now,
                    ) || ttl_expired(pods_view(self.pods)[keys@[j]@].pod, unix_seconds_spec(now)))
                        ==> exists|a: int| 0 <= a < cands@.len() && #[trigger] cands@[a].0@ == keys@[j]@,
            decreases n - i,
        {
            let key = &keys[i];
            let ghost old_cands = cands@;
            match self.pods.get(key.as_str()) {
                Some(mp) => {
                    let ghost mpv = pods_view(self.pods)[key@];
                    let is_idle_now: bool = mp.idle_at(now) > self.config.workshop_idle_seconds;
                    let info = mp.pod();
                    let is_expired: bool = match info.annotations.get(TTL_ANNOTATION) {
                        Some(t) => match parse_i64(t.as_str()) {
                            Some(expires_at) => now_secs > expires_at,
                            None => false,
                        },
                        None => false,
                    };
                    proof {
                        assert(mpv == mp@);
                        assert(mp@.pod.annotations == text_view(info.annotations));
                        assert(is_expired == ttl_expired(mpv.pod, unix_seconds_spec(now)));
                    }
                    if is_idle_now || is_expired {
                        cands.push((key.clone(), is_expired));
                        proof {
                            taken = taken.push(i as int);
                        }
                    }
                },
                None => {},
            }
            proof {
                assert forall|j: int|
                    0 <= j < i + 1 && (is_idle(
                        pods_view(self.pods)[#[trigger] keys@[j]@],
                        self.config.workshop_idle_seconds,
                        now,
                    ) || ttl_expired(pods_view(self.pods)[keys@[j]@].pod, unix_seconds_spec(now)))
                        implies exists|a: int| 0 <= a < cands@.len() && #[trigger] cands@[a].0@ == keys@[j]@ by {
                    if j == i {
                        assert(cands@[cands@.len() - 1].0@ == keys@[j]@);
                    } else {
                        let a = choose|a: int| 0 <= a < old_cands.len() && #[trigger] old_cands[a].0@ == keys@[j]@;
                        assert(cands@[a] == old_cands[a]);
                    }
                }
            }
            i = i + 1;
        }
        proof {
            assert forall|k: Seq<char>|
                #[trigger] self.pods@.contains_key(k) && (is_idle(
                    pods_view(self.pods)[k],
                    self.config.workshop_idle_seconds,
                    now,
                ) || ttl_expired(pods_view(self.pods)[k].pod, unix_seconds_spec(now)))
                    implies exists|a: int| 0 <= a < cands@.len() && #[trigger] cands@[a].0@ == k by {
                let j = choose|j: int| 0 <= j < keys.len() && #[trigger] keys@[j]@ == k;
                assert(is_idle(pods_view(self.pods)[keys@[j]@], self.config.workshop_idle_seconds, now)
                    || ttl_expired(pods_view(self.pods)[keys@[j]@].pod, unix_seconds_spec(now)));
            }
            assert forall|a: int, b: int| 0 <= a < b < cands@.len() implies #[trigger] cands@[a].0@ != #[trigger] cands@[b].0@ by {
                assert(taken[a] < taken[b]);
                assert(keys@[taken[a]]@ != keys@[taken[b]]@);
            }
        }
        cands
    }

    /// The pod to create for `user_id`'s session of `workshop`, named
    /// `<workshop>-<user>-<suffix>` and expiring `workshop_ttl_seconds` after
    /// `now_secs`; refused with `PodLimitReached` when the table already
    /// holds `workshop_pod_limit` sessions or more.
    pub fn prepare_pod(
        &self,
        user_id: &str,
        workshop: &Workshop,
        suffix: &str,
        now_secs: i64,
    ) -> (r: Result<(String, Pod), HubError>)
        requires
            i64::MIN <= now_secs + self.config.workshop_ttl_seconds <= i64::MAX,
        ensures
            self.pods@.len() >= self.config.workshop_pod_limit ==> r matches Err(
                HubError::PodLimitReached,
            ),
            self.pods@.len() < self.config.workshop_pod_limit ==> (r matches Ok((name, pod)) && name@
                == workshop.name@ + "-"@ + user_id@ + "-"@ + suffix@ && is_workshop_pod(
                pod,
                name@,
                user_id@,
                *workshop,
                self.config,
                (now_secs + self.config.workshop_ttl_seconds) as i64,
            )),
    {
        if self.pods.len() >= self.config.workshop_pod_limit {
            return Err(HubError::PodLimitReached);
        }
        let a = join(workshop.name.as_str(), "-");
        let b = join(a.as_str(), user_id);
        let c = join(b.as_str(), "-");
        let pod_name = join(c.as_str(), suffix);
        let expires_at: i64 = now_secs + self.config.workshop_ttl_seconds;
        let pod = create_workshop_pod_spec(pod_name.as_str(), user_id, workshop, &self.config, expires_at);
        Ok((pod_name, pod))
    }
}

/// A session just recorded at `now` is in the table, and is not idle at
/// `now`: the next health check of its key finds it (see `check_health`),
/// so a second request for it creates no pod.
pub proof fn lemma_recorded_session_found(
    before: Map<Seq<char>, ManagedPodView>,
    key: Seq<char>,
    pod: PodInfoView,
    now: i64,
)
    ensures
        ({
            let after = before.insert(
                key,
                ManagedPodView { pod, created: now, updated: now, health: None },
            );
            after.contains_key(key) && after[key].idle_at(now) == 0
        }),
{
}

/// The decision of the standalone pod lookup.
pub enum StandaloneStep {
    /// A pod of the user is already running: use it.
    Bind(PodBinding),
    /// No pod may be created.
    Refuse(HubError),
    /// Create this pod (and its service, named like it).
    Create { pod_name: String, pod: Pod },
}

/// The standalone lookup of a user's pod of `workshop`: given the name of
/// the last pod listed for the user (if any) and how many of the hub's pods
/// of the workshop exist, an existing pod with a non-empty name is used;
/// otherwise a new pod `workshop-<user>-<suffix>`, expiring
/// `workshop_ttl_seconds` after `now_secs`, is created, unless the
/// workshop's pods already reach the pod limit.
pub fn standalone_step(
    user_id: &str,
    workshop: &Workshop,
    config: &Config,
    last_pod_name: &Option<String>,
    workshop_pods: usize,
    suffix: &str,
    now_secs: i64,
) -> (step: StandaloneStep)
    requires
        i64::MIN <= now_secs + config.workshop_ttl_seconds <= i64::MAX,
    ensures
        match last_pod_name {
            Some(n) if n@.len() > 0 => step matches StandaloneStep::Bind(b) && b.pod_name@ == n@
                && b.service_name@ == n@ && b.cluster_dns_name@ == n@ + "."@
                + config.workshop_namespace@ + ".svc.cluster.local"@,
            _ => if workshop_pods >= config.workshop_pod_limit {
                step matches StandaloneStep::Refuse(HubError::PodLimitReached)
            } else {
                step matches StandaloneStep::Create { pod_name, pod } && pod_name@ == "workshop-"@
                    + user_id@ + "-"@ + suffix@ && is_workshop_pod(
                    pod,
                    pod_name@,
                    user_id@,
                    *workshop,
                    *config,
                    (now_secs + config.workshop_ttl_seconds) as i64,
                )
            },
        },
{
    match existing_binding(last_pod_name, config.workshop_namespace.as_str()) {
        Some(b) => return StandaloneStep::Bind(b),
        None => {},
    }
    if workshop_pods >= config.workshop_pod_limit {
        return StandaloneStep::Refuse(HubError::PodLimitReached);
    }
    let a = join("workshop-", user_id);
    let b = join(a.as_str(), "-");
    let pod_name = join(b.as_str(), suffix);
    let expires_at: i64 = now_secs + config.workshop_ttl_seconds;
    let pod = create_workshop_pod_spec(pod_name.as_str(), user_id, workshop, config, expires_at);
    StandaloneStep::Create { pod_name, pod }
}

/// How long the standalone lookup waits for a new pod to run: three
/// minutes.
pub const READINESS_TIMEOUT_MS: u64 = 180_000;

/// Where the wait for a new pod stands.
pub enum Readiness {
    Running,
    Waiting,
    /// The pod did not run in time; it is deleted and the answer is
    /// `PodNotReady`.
    TimedOut,
}

/// The wait for a new pod, given its phase and the milliseconds waited so
/// far: done once the phase is `Running`; given up once the timeout has
/// passed; otherwise waiting.
pub fn readiness(phase: &Option<String>, waited_ms: u64) -> (r: Readiness)
    ensures
        match phase {
            Some(p) if p@ == "Running"@ => r is Running,
            _ => if waited_ms >= READINESS_TIMEOUT_MS {
                r is TimedOut
            } else {
                r is Waiting
            },
        },
{
    match phase {
        Some(p) => {
            if same_text(p.as_str(), "Running") {
                return Readiness::Running;
            }
        },
        None => {},
    }
    if waited_ms >= READINESS_TIMEOUT_MS {
        Readiness::TimedOut
    } else {
        Readiness::Waiting
    }
}

/// A pod that the hub created with expiry `expires_at` is, once adopted
/// with the same annotations, TTL-expired at `now_secs` exactly when
/// `now_secs` is past `expires_at`: the expiry written at creation is the one
/// read back by the garbage collector.
pub proof fn lemma_created_pod_expires_at_its_ttl(
    pod: Pod,
    adopted: PodInfoView,
    pod_name: Seq<char>,
    user_id: Seq<char>,
    workshop: Workshop,
    config: Config,
    expires_at: i64,
    now_secs: int,
)
    requires
        is_workshop_pod(pod, pod_name, user_id, workshop, config, expires_at),
        pod.metadata.annotations matches Some(ann) && adopted.annotations == text_view(ann),
    ensures
        ttl_expired(adopted, now_secs) <==> now_secs > expires_at,
{
    lemma_parse_decimal_roundtrip(expires_at);
}

} // verus!
