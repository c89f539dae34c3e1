//! Equipment, the periods it is booked for, and the tracker that books it.

use vstd::prelude::*;

use crate::text::same_text;
use crate::time::{period_from, DateTime, Duration, Period};

verus! {

/// Type of a particular resource.
#[derive(Debug)]
pub enum ResourceType {
    /// A unit for storage during fermentation.
    Fermentor,
    /// A resource for heating water and boiling sweet wort.
    Kettle,
    /// A place to convert raw grain into sweet wort.
    MashTun,
    /// A place for separating the liquid and solid components of a mash.
    LauterTun,
    /// A place for carbonating, aging, and serving beer.
    Keg,
    /// A place to put kegs in order to refrigerate.
    Kegerator,
    /// A tank for force-carbonating beer.
    GasTank,
    /// A category not among those above, holding its label as written.
    Other(String),
}

/// The known category that `label` names, if any.
pub open spec fn known_type_of(label: Seq<char>) -> Option<ResourceType> {
    if label == "fermentor"@ {
        Some(ResourceType::Fermentor)
    } else if label == "kettle"@ {
        Some(ResourceType::Kettle)
    } else if label == "mashtun"@ {
        Some(ResourceType::MashTun)
    } else if label == "lautertun"@ {
        Some(ResourceType::LauterTun)
    } else if label == "keg"@ {
        Some(ResourceType::Keg)
    } else if label == "kegerator"@ {
        Some(ResourceType::Kegerator)
    } else if label == "gastank"@ {
        Some(ResourceType::GasTank)
    } else {
        None
    }
}

/// Whether two resource types are the same category (and, for `Other`, the same label).
pub open spec fn same_type(a: ResourceType, b: ResourceType) -> bool {
    match a {
        ResourceType::Other(x) => b matches ResourceType::Other(y) && x@ == y@,
        _ => a == b,
    }
}

/// What `ResourceType::from` gives for `label`.
pub open spec fn is_type_of_label(t: ResourceType, label: Seq<char>) -> bool {
    match known_type_of(label) {
        Some(k) => t == k,
        None => t matches ResourceType::Other(x) && x@ == label,
    }
}

impl ResourceType {
    /// The category that `res` names; a label that is not one of the known ones gives `Other`.
    pub fn from_label(res: &str) -> (r: ResourceType)
        ensures
            is_type_of_label(r, res@),
    {
        if same_text(res, "fermentor") {
            ResourceType::Fermentor
        } else if same_text(res, "kettle") {
            ResourceType::Kettle
        } else if same_text(res, "mashtun") {
            ResourceType::MashTun
        } else if same_text(res, "lautertun") {
            ResourceType::LauterTun
        } else if same_text(res, "keg") {
            ResourceType::Keg
        } else if same_text(res, "kegerator") {
            ResourceType::Kegerator
        } else if same_text(res, "gastank") {
            ResourceType::GasTank
        } else {
            ResourceType::Other(res.to_owned())
        }
    }
}

impl From<&str> for ResourceType {
    fn from(res: &str) -> (r: Self)
        ensures
            is_type_of_label(r, res@),
    {
        ResourceType::from_label(res)
    }
}

impl vstd::std_specs::convert::FromSpecImpl<&str> for ResourceType {
    open spec fn obeys_from_spec() -> bool {
        false
    }

    open spec fn from_spec(v: &str) -> Self {
        vstd::pervasive::arbitrary()
    }
}

impl From<String> for ResourceType {
    fn from(res: String) -> (r: Self)
        ensures
            is_type_of_label(r, res@),
    {
        ResourceType::from_label(res.as_str())
    }
}

impl vstd::std_specs::convert::FromSpecImpl<String> for ResourceType {
    open spec fn obeys_from_spec() -> bool {
        false
    }

    open spec fn from_spec(v: String) -> Self {
        vstd::pervasive::arbitrary()
    }
}

impl PartialEq for ResourceType {
    fn eq(&self, other: &ResourceType) -> (r: bool) {
        match (self, other) {
            (ResourceType::Fermentor, ResourceType::Fermentor) => true,
            (ResourceType::Kettle, ResourceType::Kettle) => true,
            (ResourceType::MashTun, ResourceType::MashTun) => true,
            (ResourceType::LauterTun, ResourceType::LauterTun) => true,
            (ResourceType::Keg, ResourceType::Keg) => true,
            (ResourceType::Kegerator, ResourceType::Kegerator) => true,
            (ResourceType::GasTank, ResourceType::GasTank) => true,
            (ResourceType::Other(x), ResourceType::Other(y)) => String::eq(x, y),
            _ => false,
        }
    }
}

impl vstd::std_specs::cmp::PartialEqSpecImpl for ResourceType {
    open spec fn obeys_eq_spec() -> bool {
        true
    }

    open spec fn eq_spec(&self, other: &ResourceType) -> bool {
        same_type(*self, *other)
    }
}

impl Clone for ResourceType {
    fn clone(&self) -> (r: Self)
        ensures
            r == *self,
    {
        match self {
            ResourceType::Fermentor => ResourceType::Fermentor,
            ResourceType::Kettle => ResourceType::Kettle,
            ResourceType::MashTun => ResourceType::MashTun,
            ResourceType::LauterTun => ResourceType::LauterTun,
            ResourceType::Keg => ResourceType::Keg,
            ResourceType::Kegerator => ResourceType::Kegerator,
            ResourceType::GasTank => ResourceType::GasTank,
            ResourceType::Other(x) => ResourceType::Other(x.clone()),
        }
    }
}

/// The booked periods of one resource are well formed, and each ends before the next starts.
/// So they are sorted by start and no two share an instant.
pub open spec fn periods_wf(ps: Seq<Period>) -> bool {
    &&& forall|i: int| 0 <= i < ps.len() ==> (#[trigger] ps[i]).wf()
    &&& forall|i: int, j: int| 0 <= i < j < ps.len() ==> ps[i].end.secs < ps[j].start.secs
}

/// Some booked period shares an instant with `q`.
pub open spec fn allocated_over(ps: Seq<Period>, q: Period) -> bool {
    exists|i: int| 0 <= i < ps.len() && (#[trigger] ps[i]).spec_intersects(q)
}

/// `q` moved to start at `t`, keeping its length.
pub open spec fn shifted(q: Period, t: int) -> Period {
    Period {
        start: DateTime { secs: t as i64 },
        end: DateTime { secs: (t + (q.end.secs - q.start.secs)) as i64 },
    }
}

/// Booked period `k` does not end before `q` starts, and a period as long as `q` starting one
/// second after it ends is free.
pub open spec fn free_after(ps: Seq<Period>, q: Period, k: int) -> bool {
    &&& 0 <= k < ps.len()
    &&& ps[k].end.secs >= q.start.secs
    &&& !allocated_over(ps, shifted(q, ps[k].end.secs + 1))
}

/// `t` is the earliest start for a period like `q`: `q`'s own start where `q` is free, else the
/// smallest start one second after a booked period that leaves room for it.
pub open spec fn is_earliest_free(ps: Seq<Period>, q: Period, t: int) -> bool {
    if !allocated_over(ps, q) {
        t == q.start.secs
    } else {
        &&& exists|k: int| free_after(ps, q, k) && t == ps[k].end.secs + 1
        &&& forall|k: int| free_after(ps, q, k) ==> t <= ps[k].end.secs + 1
    }
}

pub open spec fn earliest_free(ps: Seq<Period>, q: Period) -> int {
    choose|t: int| is_earliest_free(ps, q, t)
}

proof fn lemma_earliest_free_unique(ps: Seq<Period>, q: Period, t: int)
    requires
        is_earliest_free(ps, q, t),
    ensures
        earliest_free(ps, q) == t,
{
    let u = earliest_free(ps, q);
    assert(is_earliest_free(ps, q, u));
    if allocated_over(ps, q) {
        let k = choose|k: int| free_after(ps, q, k) && t == ps[k].end.secs + 1;
        let m = choose|m: int| free_after(ps, q, m) && u == ps[m].end.secs + 1;
        assert(u <= ps[k].end.secs + 1);
        assert(t <= ps[m].end.secs + 1);
    }
}

/// A piece of equipment, with the periods it is booked for.
#[derive(Debug, PartialEq)]
pub struct Resource {
    pub id: usize,
    pub name: String,
    pub resource_type: ResourceType,
    /// Informational only.
    pub capacity_str: String,
    pub allocated_periods: Vec<Period>,
}

impl Resource {
    pub open spec fn wf(&self) -> bool {
        periods_wf(self.allocated_periods@)
    }

    /// A resource with the given id, name, type and capacity, booked for nothing.
    pub fn new(id: usize, name: &str, resource_type: ResourceType, capacity_str: &str) -> (r:
        Resource)
        ensures
            r.id == id,
            r.name@ == name@,
            r.resource_type == resource_type,
            r.capacity_str@ == capacity_str@,
            r.allocated_periods@ == Seq::<Period>::empty(),
            r.wf(),
    {
        Resource {
            id: id,
            name: name.to_owned(),
            resource_type: resource_type,
            capacity_str: capacity_str.to_owned(),
            allocated_periods: vec![],
        }
    }

    /// Whether some booked period shares an instant with `period`.
    pub fn is_allocated_over_period(&self, period: Period) -> (r: bool)
        ensures
            r == allocated_over(self.allocated_periods@, period),
    {
        let n = self.allocated_periods.len();
        let mut i: usize = 0;
        while i < n
            invariant
                n == self.allocated_periods@.len(),
                i <= n,
                forall|j: int| 0 <= j < i ==> !(#[trigger] self.allocated_periods@[j]).spec_intersects(period),
            decreases n - i,
        {
            if self.allocated_periods[i].intersects_with(period) {
                return true;
            }
            i = i + 1;
        }
        false
    }

    /// Whether some booked period shares an instant with the period from `start` through
    /// `start + duration`.
    pub fn is_allocated_over_start_duration(&self, start: DateTime, duration: Duration) -> (r:
        bool)
        requires
            i64::MIN <= start.secs + duration.secs <= i64::MAX,
        ensures
            r == allocated_over(
                self.allocated_periods@,
                period_from(start, duration),
            ),
    {
        self.is_allocated_over_period(Period::from_start_duration(start, duration))
    }

    /// Books `period` unless it shares an instant with a booked one. The booked periods stay
    /// sorted by start.
    pub fn allocate_over_period(&mut self, period: Period) -> (r: Option<&Resource>)
        requires
            old(self).wf(),
            period.wf(),
        ensures
            final(self).wf(),
            final(self).id == old(self).id,
            final(self).name == old(self).name,
            final(self).resource_type == old(self).resource_type,
            final(self).capacity_str == old(self).capacity_str,
            r is None <==> allocated_over(old(self).allocated_periods@, period),
            r is None ==> final(self).allocated_periods@ == old(self).allocated_periods@,
            r is Some ==> exists|pos: int|
                0 <= pos <= old(self).allocated_periods@.len()
                    && final(self).allocated_periods@ == old(self).allocated_periods@.insert(
                    pos,
                    period,
                ),
    {
        if self.is_allocated_over_period(period) {
            return None;
        }
        let n = self.allocated_periods.len();
        let mut i: usize = 0;
        while i < n && self.allocated_periods[i].start.secs <= period.start.secs
            invariant
                n == self.allocated_periods@.len(),
                i <= n,
                forall|j: int| 0 <= j < i ==> (#[trigger] self.allocated_periods@[j]).start.secs <= period.start.secs,
            decreases n - i,
        {
            i = i + 1;
        }
        let ghost before = self.allocated_periods@;
        proof {
            assert forall|j: int| 0 <= j < before.len() implies !(#[trigger] before[j]).spec_intersects(
                period,
            ) by {}
        }
        self.allocated_periods.insert(i, period);
        proof {
            let after = self.allocated_periods@;
            assert(after =~= before.insert(i as int, period));
            assert forall|a: int, b: int| 0 <= a < b < after.len() implies after[a].end.secs
                < after[b].start.secs by {
                if b < i {
                } else if b == i {
                    assert(!before[a].spec_intersects(period));
                } else if a < i {
                } else if a == i {
                    assert(!before[b - 1].spec_intersects(period));
                    if b - 1 > i {
                        assert(before[i as int].end.secs < before[b - 1].start.secs);
                        assert(!before[i as int].spec_intersects(period));
                    }
                } else {
                }
            }
            assert forall|a: int| 0 <= a < after.len() implies (#[trigger] after[a]).wf() by {
                if a < i {
                } else if a > i {
                    assert(after[a] == before[a - 1]);
                }
            }
        }
        Some(self)
    }

    /// Books the period from `start` through `start + duration`, as `allocate_over_period` does.
    pub fn allocate_over_start_duration(&mut self, start: DateTime, duration: Duration) -> (r:
        Option<&Resource>)
        requires
            old(self).wf(),
            period_from(start, duration).wf(),
            i64::MIN <= start.secs + duration.secs <= i64::MAX,
        ensures
            final(self).wf(),
            final(self).id == old(self).id,
            final(self).name == old(self).name,
            final(self).resource_type == old(self).resource_type,
            final(self).capacity_str == old(self).capacity_str,
            r is None <==> allocated_over(
                old(self).allocated_periods@,
                period_from(start, duration),
            ),
            r is None ==> final(self).allocated_periods@ == old(self).allocated_periods@,
            r is Some ==> exists|pos: int|
                0 <= pos <= old(self).allocated_periods@.len()
                    && final(self).allocated_periods@ == old(self).allocated_periods@.insert(
                    pos,
                    period_from(start, duration),
                ),
    {
        self.allocate_over_period(Period::from_start_duration(start, duration))
    }

    /// The earliest start for a period as long as `period`: its own start where the resource is
    /// free for it, else the smallest instant one second after a booked period (one that does
    /// not end before `period` starts) from which a period that long is free.
    pub fn get_earliest_free_date_for_period(&self, period: Period) -> (r: DateTime)
        requires
            self.wf(),
            period.wf(),
        ensures
            r.secs == earliest_free(self.allocated_periods@, period),
    {
        let ghost ps = self.allocated_periods@;
        if !self.is_allocated_over_period(period) {
            proof {
                lemma_earliest_free_unique(ps, period, period.start.secs as int);
            }
            return period.start;
        }
        let dur = period.end.secs - period.start.secs;
        let n = self.allocated_periods.len();
        let mut i: usize = 0;
        while i < n
            invariant
                n == ps.len(),
                ps == self.allocated_periods@,
                periods_wf(ps),
                period.wf(),
                dur == period.end.secs - period.start.secs,
                allocated_over(ps, period),
                i <= n,
                forall|j: int| 0 <= j < i ==> !free_after(ps, period, j),
            decreases n - i,
        {
            let p = self.allocated_periods[i];
            if p.end.secs >= period.start.secs {
                let cand = p.end.secs + 1;
                let q = Period { start: DateTime { secs: cand }, end: DateTime { secs: cand + dur } };
                assert(q == shifted(period, ps[i as int].end.secs + 1));
                if !self.is_allocated_over_period(q) {
                    proof {
                        assert(free_after(ps, period, i as int));
                        assert forall|k: int| free_after(ps, period, k) implies cand <= ps[k].end.secs
                            + 1 by {
                            if k < i {
                            } else if k > i {
                                assert(ps[i as int].end.secs < ps[k].start.secs);
                                assert(ps[k].wf());
                            }
                        }
                        assert(free_after(ps, period, i as int) && cand == ps[i as int].end.secs + 1);
                        lemma_earliest_free_unique(ps, period, cand as int);
                    }
                    return DateTime { secs: cand };
                }
            }
            i = i + 1;
        }
        proof {
            let m = choose|m: int| 0 <= m < ps.len() && (#[trigger] ps[m]).spec_intersects(period);
            let last = ps.len() - 1;
            assert(ps[m].end.secs >= period.start.secs);
            if m < last {
                assert(ps[m].end.secs < ps[last].start.secs);
                assert(ps[last].wf());
            }
            let c = ps[last].end.secs + 1;
            assert forall|j: int| 0 <= j < ps.len() implies !(#[trigger] ps[j]).spec_intersects(
                shifted(period, c),
            ) by {
                if j < last {
                    assert(ps[j].end.secs < ps[last].start.secs);
                    assert(ps[last].wf());
                }
            }
            assert(free_after(ps, period, last));
        }
        period.start
    }
}

/// A resource that may be booked, with the date from which it is free again.
#[derive(Debug)]
pub struct PossiblyAllocatedResource {
    pub resource: Resource,
    pub free_date: DateTime,
}

/// `b` holds the same resource as `a`: the same fields and the same booked periods.
pub open spec fn same_resource(a: Resource, b: Resource) -> bool {
    &&& a.id == b.id
    &&& a.name == b.name
    &&& a.resource_type == b.resource_type
    &&& a.capacity_str == b.capacity_str
    &&& a.allocated_periods@ == b.allocated_periods@
}

impl Clone for Resource {
    fn clone(&self) -> (r: Self)
        ensures
            same_resource(r, *self),
    {
        let allocated_periods = self.allocated_periods.clone();
        assert(allocated_periods@ =~= self.allocated_periods@);
        Resource {
            id: self.id,
            name: self.name.clone(),
            resource_type: self.resource_type.clone(),
            capacity_str: self.capacity_str.clone(),
            allocated_periods,
        }
    }
}

/// The tracked resources are sorted by id with no id twice, and each one's bookings are well
/// formed.
pub open spec fn tracker_wf(rs: Seq<Resource>) -> bool {
    &&& forall|i: int, j: int| 0 <= i < j < rs.len() ==> rs[i].id < rs[j].id
    &&& forall|i: int| 0 <= i < rs.len() ==> (#[trigger] rs[i]).wf()
}

/// Resource `k` is of type `ty` and free for all of `q`.
pub open spec fn free_of_type(rs: Seq<Resource>, ty: ResourceType, q: Period, k: int) -> bool {
    &&& 0 <= k < rs.len()
    &&& same_type(rs[k].resource_type, ty)
    &&& !allocated_over(rs[k].allocated_periods@, q)
}

/// Some resource of type `ty` is free for all of `q`.
pub open spec fn type_free(rs: Seq<Resource>, ty: ResourceType, q: Period) -> bool {
    exists|k: int| free_of_type(rs, ty, q, k)
}

/// Resource `k` is, among the resources of type `ty` that are free for `q`, the one with the
/// smallest id.
pub open spec fn chosen_for(rs: Seq<Resource>, ty: ResourceType, q: Period, k: int) -> bool {
    &&& free_of_type(rs, ty, q, k)
    &&& forall|j: int| free_of_type(rs, ty, q, j) ==> rs[k].id <= rs[j].id
}

/// `after` is `before` with `q` booked: the same fields, and `q` inserted among the bookings.
pub open spec fn booked_with(before: Resource, after: Resource, q: Period) -> bool {
    &&& after.id == before.id
    &&& after.name == before.name
    &&& after.resource_type == before.resource_type
    &&& after.capacity_str == before.capacity_str
    &&& after.wf()
    &&& exists|pos: int|
        0 <= pos <= before.allocated_periods@.len() && after.allocated_periods@
            == before.allocated_periods@.insert(pos, q)
}

/// Keeps track of resources and what they are booked for.
#[derive(Debug)]
pub struct ResourceTracker {
    resources: Vec<Resource>,
}

impl View for ResourceTracker {
    type V = Seq<Resource>;

    closed spec fn view(&self) -> Seq<Resource> {
        self.resources@
    }
}

impl ResourceTracker {
    pub open spec fn wf(&self) -> bool {
        tracker_wf(self@)
    }

    /// A tracker with no resources.
    pub fn new() -> (r: Self)
        ensures
            r@ == Seq::<Resource>::empty(),
            r.wf(),
    {
        ResourceTracker { resources: Vec::new() }
    }

    /// Tracks `res`, in place of a tracked resource with the same id if there is one.
    pub fn track_resource(&mut self, res: Resource)
        requires
            old(self).wf(),
            res.wf(),
        ensures
            final(self).wf(),
            (exists|i: int| 0 <= i < old(self)@.len() && old(self)@[i].id == res.id) ==> exists|i: int|
                0 <= i < old(self)@.len() && old(self)@[i].id == res.id && final(self)@ == old(
                    self,
                )@.update(i, res),
            !(exists|i: int| 0 <= i < old(self)@.len() && old(self)@[i].id == res.id) ==> exists|
                pos: int,
            |
                0 <= pos <= old(self)@.len() && final(self)@ == old(self)@.insert(pos, res),
    {
        let n = self.resources.len();
        let mut i: usize = 0;
        while i < n && self.resources[i].id < res.id
            invariant
                n == self.resources@.len(),
                i <= n,
                forall|j: int| 0 <= j < i ==> (#[trigger] self.resources@[j]).id < res.id,
            decreases n - i,
        {
            i = i + 1;
        }
        let ghost before = self.resources@;
        if i < n && self.resources[i].id == res.id {
            let _ = self.resources.remove(i);
            self.resources.insert(i, res);
            proof {
                assert(self.resources@ =~= before.update(i as int, res));
            }
        } else {
            self.resources.insert(i, res);
            proof {
                let after = self.resources@;
                assert(after =~= before.insert(i as int, res));
                assert forall|a: int, b: int| 0 <= a < b < after.len() implies after[a].id
                    < after[b].id by {
                    if b < i {
                    } else if b == i {
                    } else if a < i {
                    } else if a == i {
                        assert(before[b - 1].id >= res.id);
                        assert(before[b - 1].id != res.id || b - 1 == i);
                        if b - 1 > i {
                            assert(before[i as int].id < before[b - 1].id);
                        }
                    } else {
                    }
                }
                assert forall|k: int| 0 <= k < before.len() implies before[k].id != res.id by {
                    if k < i {
                    } else if k > i {
                        assert(before[i as int].id < before[k].id);
                    }
                }
                assert forall|a: int| 0 <= a < after.len() implies (#[trigger] after[a]).wf() by {
                    if a > i {
                        assert(after[a] == before[a - 1]);
                    }
                }
            }
        }
    }

    /// Whether some resource of type `resource_type` is free for all of `period`.
    pub fn is_resource_of_type_free_for_period(&self, resource_type: &ResourceType, period: Period) -> (r: bool)
        ensures
            r == type_free(self@, *resource_type, period),
    {
        let n = self.resources.len();
        let mut i: usize = 0;
        while i < n
            invariant
                n == self@.len(),
                i <= n,
                forall|j: int| 0 <= j < i ==> !free_of_type(self@, *resource_type, period, j),
            decreases n - i,
        {
            let res = &self.resources[i];
            if res.resource_type == *resource_type && !res.is_allocated_over_period(period) {
                assert(free_of_type(self@, *resource_type, period, i as int));
                return true;
            }
            i = i + 1;
        }
        false
    }

    /// The earliest date at which some resource of type `resource_type` is free for a period as
    /// long as `period`: the least of their earliest free dates, or `None` where no resource
    /// of that type is tracked.
    pub fn get_next_available_resource_date_for_type_over_period(
        &mut self,
        resource_type: &ResourceType,
        period: Period,
    ) -> (r: Option<DateTime>)
        requires
            old(self).wf(),
            period.wf(),
        ensures
            final(self)@ == old(self)@,
            r is None <==> !exists|k: int|
                0 <= k < old(self)@.len() && same_type(
                    (#[trigger] old(self)@[k]).resource_type,
                    *resource_type,
                ),
            r matches Some(t) ==> exists|k: int|
                0 <= k < old(self)@.len() && same_type(
                    (#[trigger] old(self)@[k]).resource_type,
                    *resource_type,
                ) && t.secs == earliest_free(old(self)@[k].allocated_periods@, period),
            r matches Some(t) ==> forall|k: int|
                0 <= k < old(self)@.len() && same_type(
                    (#[trigger] old(self)@[k]).resource_type,
                    *resource_type,
                ) ==> t.secs <= earliest_free(old(self)@[k].allocated_periods@, period),
    {
        let ghost rs = self@;
        let n = self.resources.len();
        let mut best: Option<DateTime> = None;
        let mut i: usize = 0;
        while i < n
            invariant
                rs == self@,
                tracker_wf(rs),
                period.wf(),
                n == rs.len(),
                i <= n,
                best is None <==> !exists|k: int|
                    0 <= k < i && same_type((#[trigger] rs[k]).resource_type, *resource_type),
                best matches Some(t) ==> exists|k: int|
                    0 <= k < i && same_type((#[trigger] rs[k]).resource_type, *resource_type)
                        && t.secs == earliest_free(rs[k].allocated_periods@, period),
                best matches Some(t) ==> forall|k: int|
                    0 <= k < i && same_type((#[trigger] rs[k]).resource_type, *resource_type)
                        ==> t.secs <= earliest_free(rs[k].allocated_periods@, period),
            decreases n - i,
        {
            let res = &self.resources[i];
            if res.resource_type == *resource_type {
                assert(rs[i as int].wf());
                let date = res.get_earliest_free_date_for_period(period);
                best = match best {
                    Some(b) => if date.secs < b.secs {
                        Some(date)
                    } else {
                        Some(b)
                    },
                    None => Some(date),
                };
            }
            i = i + 1;
        }
        best
    }

    /// Books `period` on the resource of type `resource_type` with the smallest id among those
    /// free for all of it, and hands that resource back; `None` where there is no such resource.
    pub fn allocate_resource_of_type_for_period(
        &mut self,
        resource_type: &ResourceType,
        period: Period,
    ) -> (r: Option<&Resource>)
        requires
            old(self).wf(),
            period.wf(),
        ensures
            final(self).wf(),
            r is None <==> !type_free(old(self)@, *resource_type, period),
            r is None ==> final(self)@ == old(self)@,
            r matches Some(res) ==> exists|k: int|
                chosen_for(old(self)@, *resource_type, period, k) && final(self)@ == old(
                    self,
                )@.update(k, final(self)@[k]) && booked_with(old(self)@[k], final(self)@[k], period)
                    && *res == final(self)@[k],
    {
        let ghost rs = self@;
        let n = self.resources.len();
        let mut found: Option<usize> = None;
        let mut i: usize = 0;
        while i < n && found.is_none()
            invariant
                rs == self@,
                n == rs.len(),
                i <= n,
                found matches Some(f) ==> f < n && free_of_type(rs, *resource_type, period, f as int),
                forall|j: int|
                    0 <= j < (if found is Some {
                        found->Some_0 as int
                    } else {
                        i as int
                    }) ==> !free_of_type(rs, *resource_type, period, j),
            decreases n - i,
        {
            let res = &self.resources[i];
            if res.resource_type == *resource_type && !res.is_allocated_over_period(period) {
                found = Some(i);
            }
            i = i + 1;
        }
        let k = match found {
            Some(k) => k,
            None => {
                return None;
            },
        };
        proof {
            assert forall|j: int| free_of_type(rs, *resource_type, period, j) implies rs[k as int].id
                <= rs[j].id by {
                if j > k {
                }
            }
        }
        let mut res = self.resources.remove(k);
        assert(res == rs[k as int]);
        let booked = res.allocate_over_period(period);
        assert(booked is Some);
        self.resources.insert(k, res);
        proof {
            let after = self.resources@;
            assert(after =~= rs.update(k as int, after[k as int]));
            assert forall|a: int| 0 <= a < after.len() implies (#[trigger] after[a]).wf() by {
                if a != k {
                    assert(after[a] == rs[a]);
                }
            }
        }
        Some(&self.resources[k])
    }

    /// Copies of all tracked resources, in order of id.
    pub fn get_all_tracked_resources(&self) -> (r: Vec<Resource>)
        ensures
            r@.len() == self@.len(),
            forall|k: int| 0 <= k < r@.len() ==> same_resource(#[trigger] r@[k], self@[k]),
    {
        let mut out: Vec<Resource> = Vec::new();
        let n = self.resources.len();
        let mut i: usize = 0;
        while i < n
            invariant
                n == self@.len(),
                i <= n,
                out@.len() == i,
                forall|k: int| 0 <= k < i ==> same_resource(#[trigger] out@[k], self@[k]),
            decreases n - i,
        {
            out.push(self.resources[i].clone());
            i = i + 1;
        }
        out
    }
}

/// Once a resource holds a booking for `q`, it is booked over every period `q2` that shares an
/// instant with `q`: so booking `q2` on it fails.
pub proof fn lemma_overlapping_rebooking_fails(before: Resource, after: Resource, q: Period, q2: Period)
    requires
        booked_with(before, after, q),
        q.spec_intersects(q2),
    ensures
        allocated_over(after.allocated_periods@, q2),
{
    let pos = choose|pos: int|
        0 <= pos <= before.allocated_periods@.len() && after.allocated_periods@
            == before.allocated_periods@.insert(pos, q);
    assert(after.allocated_periods@[pos] == q);
}

/// Booking `q1` on a resource of type `ty` leaves any other resource of that type untouched: if
/// a second resource of type `ty` was free for `q2`, some resource of type `ty` still is, so a
/// second request for `q2` succeeds too.
pub proof fn lemma_second_resource_still_free(
    before: Seq<Resource>,
    after: Seq<Resource>,
    ty: ResourceType,
    q1: Period,
    q2: Period,
    k: int,
    j: int,
)
    requires
        chosen_for(before, ty, q1, k),
        after == before.update(k, after[k]),
        booked_with(before[k], after[k], q1),
        j != k,
        free_of_type(before, ty, q2, j),
    ensures
        type_free(after, ty, q2),
{
    assert(after[j] == before[j]);
    assert(free_of_type(after, ty, q2, j));
}

} // verus!
