//! What the hub remembers of each workshop pod: the pod as Kubernetes last
//! reported it, when it was adopted, and the sidecar's last health report.
use vstd::prelude::*;
use crate::hub::manifest::text_view;
use crate::textmap::TextMap;
use crate::clock::{clock_now, since_unix_epoch, whole_nanos};

verus! {

/// The sidecar's health report.
pub struct SidecarHealth {
    pub status: String,
    pub last_activity_timestamp: i64,
    pub idle_seconds: i64,
}

pub ghost struct SidecarHealthView {
    pub status: Seq<char>,
    pub last_activity_timestamp: i64,
    pub idle_seconds: i64,
}

impl View for SidecarHealth {
    type V = SidecarHealthView;

    open spec fn view(&self) -> SidecarHealthView {
        SidecarHealthView {
            status: self.status@,
            last_activity_timestamp: self.last_activity_timestamp,
            idle_seconds: self.idle_seconds,
        }
    }
}

impl SidecarHealth {
    /// A copy of this report.
    pub fn duplicate(&self) -> (r: Self)
        ensures
            r@ == self@,
    {
        SidecarHealth {
            status: self.status.clone(),
            last_activity_timestamp: self.last_activity_timestamp,
            idle_seconds: self.idle_seconds,
        }
    }
}

/// The text an optional string holds.
pub open spec fn opt_text(o: Option<String>) -> Option<Seq<char>> {
    match o {
        Some(s) => Some(s@),
        None => None,
    }
}

pub fn duplicate_text(o: &Option<String>) -> (r: Option<String>)
    ensures
        opt_text(r) == opt_text(*o),
{
    match o {
        Some(s) => Some(s.clone()),
        None => None,
    }
}

/// What the hub reads of a Kubernetes pod.
pub struct PodInfo {
    /// `metadata.name`
    pub name: Option<String>,
    /// `metadata.generateName`
    pub generate_name: Option<String>,
    /// `metadata.uid`
    pub uid: Option<String>,
    /// `metadata.labels` (empty where the pod has none)
    pub labels: TextMap<String>,
    /// `metadata.annotations` (empty where the pod has none)
    pub annotations: TextMap<String>,
    /// `status.podIP`
    pub pod_ip: Option<String>,
}

pub ghost struct PodInfoView {
    pub name: Option<Seq<char>>,
    pub generate_name: Option<Seq<char>>,
    pub uid: Option<Seq<char>>,
    pub labels: Map<Seq<char>, Seq<char>>,
    pub annotations: Map<Seq<char>, Seq<char>>,
    pub pod_ip: Option<Seq<char>>,
}

impl View for PodInfo {
    type V = PodInfoView;

    open spec fn view(&self) -> PodInfoView {
        PodInfoView {
            name: opt_text(self.name),
            generate_name: opt_text(self.generate_name),
            uid: opt_text(self.uid),
            labels: text_view(self.labels),
            annotations: text_view(self.annotations),
            pod_ip: opt_text(self.pod_ip),
        }
    }
}

impl PodInfo {
    /// A copy of this pod.
    pub fn duplicate(&self) -> (r: Self)
        ensures
            r@ == self@,
    {
        PodInfo {
            name: duplicate_text(&self.name),
            generate_name: duplicate_text(&self.generate_name),
            uid: duplicate_text(&self.uid),
            labels: self.labels.duplicate(),
            annotations: self.annotations.duplicate(),
            pod_ip: duplicate_text(&self.pod_ip),
        }
    }
}

/// The whole seconds in a span of `ns` nanoseconds, rounded toward zero.
pub open spec fn whole_seconds(ns: int) -> int {
    if ns >= 0 {
        ns / 1_000_000_000
    } else {
        -((-ns) / 1_000_000_000)
    }
}

/// The abstract state of a managed pod; times are Unix nanoseconds, and the
/// epoch (0) marks a pod that is not alive.
pub ghost struct ManagedPodView {
    pub pod: PodInfoView,
    pub created: i64,
    pub updated: i64,
    pub health: Option<SidecarHealthView>,
}

impl ManagedPodView {
    /// Seconds since creation, at time `now`.
    pub open spec fn age_at(self, now: i64) -> int {
        whole_seconds(now - self.created)
    }

    /// Seconds idle at time `now`: as the sidecar last reported, or the age
    /// where it has not reported yet.
    pub open spec fn idle_at(self, now: i64) -> int {
        match self.health {
            Some(h) => h.idle_seconds as int,
            None => self.age_at(now),
        }
    }

    /// The pod has been created: its creation time is not the epoch.
    pub open spec fn alive(self) -> bool {
        self.created != 0
    }

    /// This pod with its timestamps reset to the epoch and no health report.
    pub open spec fn killed(self) -> ManagedPodView {
        ManagedPodView { created: 0, updated: 0, health: None, ..self }
    }

    /// This pod marked created (and updated) at `now`.
    pub open spec fn created_at(self, now: i64) -> ManagedPodView {
        ManagedPodView { created: now, updated: now, ..self }
    }
}

/// A workshop pod that the hub tracks.
pub struct ManagedPod {
    pod: PodInfo,
    created: i64,
    updated: i64,
    health: Option<SidecarHealth>,
}

impl View for ManagedPod {
    type V = ManagedPodView;

    closed spec fn view(&self) -> ManagedPodView {
        ManagedPodView {
            pod: self.pod@,
            created: self.created,
            updated: self.updated,
            health: match self.health {
                Some(h) => Some(h@),
                None => None,
            },
        }
    }
}

/// Reads the wall clock: Unix time in nanoseconds; a clock set before the
/// epoch reads as the epoch, and one past the `i64` range (the year 2262)
/// as `i64::MAX`.
pub fn now_nanos() -> i64 {
    let now = clock_now();
    match since_unix_epoch(&now) {
        Some(d) => {
            let ns: u128 = whole_nanos(&d);
            if ns > 9_223_372_036_854_775_807u128 {
                i64::MAX
            } else {
                ns as i64
            }
        },
        None => 0,
    }
}

impl ManagedPod {
    /// A managed pod adopted at time `now`, with no health report yet.
    pub fn new_at(pod: PodInfo, now: i64) -> (mp: Self)
        ensures
            mp@ == (ManagedPodView { pod: pod@, created: now, updated: now, health: None }),
    {
        ManagedPod { pod, created: now, updated: now, health: None }
    }

    /// A managed pod adopted now, with no health report yet.
    pub fn new(pod: PodInfo) -> (mp: Self)
        ensures
            mp@.pod == pod@,
            mp@.created == mp@.updated,
            mp@.health is None,
    {
        let now = now_nanos();
        Self::new_at(pod, now)
    }

    /// A copy of this managed pod.
    pub fn duplicate(&self) -> (r: Self)
        ensures
            r@ == self@,
    {
        ManagedPod {
            pod: self.pod.duplicate(),
            created: self.created,
            updated: self.updated,
            health: match &self.health {
                Some(h) => Some(h.duplicate()),
                None => None,
            },
        }
    }

    /// The pod, handing over ownership.
    pub fn into_pod(self) -> (p: PodInfo)
        ensures
            p@ == self@.pod,
    {
        self.pod
    }

    /// Whether the pod has been created, that is its creation time is not the
    /// epoch.
    pub fn is_alive(&self) -> (b: bool)
        ensures
            b == self@.alive(),
    {
        self.created != 0
    }

    /// Marks the pod created at time `now`.
    pub fn create_at(&mut self, now: i64)
        ensures
            final(self)@ == old(self)@.created_at(now),
    {
        self.created = now;
        self.updated = now;
    }

    /// Marks the pod created now.
    pub fn create(&mut self)
        ensures
            final(self)@.pod == old(self)@.pod,
            final(self)@.health == old(self)@.health,
            final(self)@.created == final(self)@.updated,
    {
        let now = now_nanos();
        self.create_at(now);
    }

    /// Seconds since creation, at time `now`.
    pub fn age_at(&self, now: i64) -> (a: i64)
        ensures
            a == self@.age_at(now),
    {
        let d: i128 = now as i128 - self.created as i128;
        if d >= 0 {
            (d / 1_000_000_000) as i64
        } else {
            (-((-d) / 1_000_000_000)) as i64
        }
    }

    /// Seconds since creation.
    pub fn age(&self) -> (a: i64)
        ensures
            exists|now: i64| a == self@.age_at(now),
    {
        let now = now_nanos();
        self.age_at(now)
    }

    /// Seconds idle at time `now`: the sidecar's report if there is one,
    /// otherwise the age.
    pub fn idle_at(&self, now: i64) -> (i: i64)
        ensures
            i == self@.idle_at(now),
    {
        match &self.health {
            Some(h) => h.idle_seconds,
            None => self.age_at(now),
        }
    }

    /// Seconds idle: the sidecar's report if there is one, otherwise the age.
    pub fn idle(&self) -> (i: i64)
        ensures
            exists|now: i64| i == self@.idle_at(now),
            self@.health matches Some(h) ==> i == h.idle_seconds,
    {
        let now = now_nanos();
        self.idle_at(now)
    }

    /// Whether the pod has been idle longer than `threshold_seconds` at `now`.
    pub fn is_expired_at(&self, threshold_seconds: i64, now: i64) -> (b: bool)
        ensures
            b == (self@.idle_at(now) > threshold_seconds),
    {
        self.idle_at(now) > threshold_seconds
    }

    /// Whether the pod has been idle longer than `threshold_seconds`.
    pub fn is_expired(&self, threshold_seconds: i64) -> (b: bool)
        ensures
            exists|now: i64| b == (self@.idle_at(now) > threshold_seconds),
    {
        self.idle() > threshold_seconds
    }

    /// Replaces the pod, recording `now` as the time of the update.
    pub fn set_pod_at(&mut self, pod: PodInfo, now: i64)
        ensures
            final(self)@ == (ManagedPodView { pod: pod@, updated: now, ..old(self)@ }),
    {
        self.pod = pod;
        self.updated = now;
    }

    /// Replaces the pod and refreshes the update time.
    pub fn set_pod(&mut self, pod: PodInfo)
        ensures
            final(self)@.pod == pod@,
            final(self)@.created == old(self)@.created,
            final(self)@.health == old(self)@.health,
    {
        let now = now_nanos();
        self.set_pod_at(pod, now);
    }

    /// Records a health report, with `now` as the time of the update.
    pub fn set_health_at(&mut self, health: SidecarHealth, now: i64)
        ensures
            final(self)@ == (ManagedPodView { health: Some(health@), updated: now, ..old(self)@ }),
    {
        self.health = Some(health);
        self.updated = now;
    }

    /// Records a health report and refreshes the update time.
    pub fn set_health(&mut self, health: SidecarHealth)
        ensures
            final(self)@.health == Some(health@),
            final(self)@.pod == old(self)@.pod,
            final(self)@.created == old(self)@.created,
    {
        let now = now_nanos();
        self.set_health_at(health, now);
    }

    /// Resets the timestamps to the epoch and forgets the health report.
    pub fn kill(&mut self)
        ensures
            final(self)@ == old(self)@.killed(),
    {
        self.created = 0;
        self.updated = 0;
        self.health = None;
    }

    /// The pod as last reported.
    pub fn pod(&self) -> (p: &PodInfo)
        ensures
            p@ == self@.pod,
    {
        &self.pod
    }

    /// The last health report, if any.
    pub fn health(&self) -> (h: Option<&SidecarHealth>)
        ensures
            match h {
                Some(x) => self@.health == Some(x@),
                None => self@.health is None,
            },
    {
        match &self.health {
            Some(h) => Some(h),
            None => None,
        }
    }
}

/// A killed pod is not alive; created again at any time other than the
/// epoch, it is alive, and still holds the same pod.
pub proof fn lemma_kill_then_create(before: ManagedPodView, now: i64)
    requires
        now != 0,
    ensures
        !before.killed().alive(),
        before.killed().created_at(now).alive(),
        before.killed().created_at(now).pod == before.pod,
{
}

} // verus!
