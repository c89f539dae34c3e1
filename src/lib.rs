//! Turns a declarative brewing production schedule into a dated, dependency-linked task graph
//! and tracks which pieces of equipment are booked over which periods of time.

pub mod expand;
pub mod phases;
pub mod recipes;
pub mod resources;
pub mod text;
pub mod time;
pub mod util;

use vstd::prelude::*;
use vstd::string::*;

use crate::expand::{
    dependency_chain, expand_recipe, find_template, phase_durations, phases_dated, template_index,
    IdCounter, ScheduleError,
};
use crate::phases::{same_template, PhaseInstance, ProductionPhaseTemplate};
use crate::recipes::{same_recipe, spec_start, Recipe, RecipeSpec};
use crate::resources::{same_resource, same_type, tracker_wf, Resource, ResourceTracker, ResourceType};
use crate::time::DateTime;
use crate::util::{date_time_of_text, get_naive_date_time_from_string, reading_of, DateParseError};

verus! {

/// The timeline of a production schedule: how it counts time, and the date it starts on.
#[derive(Debug)]
pub struct ProductionTimeline {
    pub configuration: String,
    pub start: String,
}

impl ProductionTimeline {
    /// The start of the schedule, read from its start text.
    pub fn start_date(&self) -> (r: Result<DateTime, DateParseError>)
        ensures
            reading_of(r) == date_time_of_text(self.start@),
            r matches Ok(t) ==> t.is_representable(),
    {
        get_naive_date_time_from_string(self.start.as_str())
    }
}

/// How many ids building the first `k` recipes of `specs` uses: one for each recipe and one for
/// each of its phases.
pub open spec fn ids_before(specs: Seq<RecipeSpec>, k: int) -> int
    decreases k,
{
    if k <= 0 {
        0
    } else {
        ids_before(specs, k - 1) + 1 + specs[k - 1].phase_specs@.len()
    }
}

/// How many ids building all of `specs` uses.
pub open spec fn id_demand(specs: Seq<RecipeSpec>) -> int {
    ids_before(specs, specs.len() as int)
}

proof fn lemma_ids_before_monotone(specs: Seq<RecipeSpec>, i: int, j: int)
    requires
        0 <= i <= j <= specs.len(),
    ensures
        ids_before(specs, i) <= ids_before(specs, j),
    decreases j - i,
{
    if i < j {
        lemma_ids_before_monotone(specs, i, j - 1);
    }
}

proof fn lemma_ids_before_same_lengths(a: Seq<RecipeSpec>, b: Seq<RecipeSpec>, k: int)
    requires
        0 <= k <= a.len(),
        a.len() == b.len(),
        forall|j: int| 0 <= j < a.len() ==> (#[trigger] a[j]).phase_specs@.len() == b[j].phase_specs@.len(),
    ensures
        ids_before(a, k) == ids_before(b, k),
    decreases k,
{
    if k > 0 {
        lemma_ids_before_same_lengths(a, b, k - 1);
    }
}

/// How many ids building all of `specs` uses, or `None` where that many do not fit in a `usize`.
pub fn count_ids(specs: &Vec<RecipeSpec>) -> (r: Option<usize>)
    ensures
        r matches Some(n) ==> n == id_demand(specs@),
        r is None ==> id_demand(specs@) > usize::MAX,
{
    let mut total: usize = 0;
    let mut i: usize = 0;
    while i < specs.len()
        invariant
            i <= specs@.len(),
            total == ids_before(specs@, i as int),
        decreases specs@.len() - i,
    {
        let needed = specs[i].phase_specs.len();
        if total > usize::MAX - 1 || total + 1 > usize::MAX - needed {
            proof {
                lemma_ids_before_monotone(specs@, i + 1, specs@.len() as int);
            }
            return None;
        }
        total = total + 1 + needed;
        i = i + 1;
    }
    Some(total)
}

proof fn lemma_built_recipes_renderable(
    rs: Seq<Recipe>,
    specs: Seq<RecipeSpec>,
    ts: Seq<ProductionPhaseTemplate>,
    first: int,
)
    requires
        recipes_built(rs, specs, ts, first),
    ensures
        renderable(rs),
{
    assert forall|k: int, j: int|
        0 <= k < rs.len() && 0 <= j < rs[k].phases@.len() implies (
        #[trigger] rs[k].phases@[j]).start_date.is_representable() by {
        assert(recipe_built(rs[k], specs[k], ts, first + ids_before(specs, k)));
    }
}

/// What building the recipe `spec` against the templates `ts` gives: success, or its first
/// failure.
pub open spec fn recipe_outcome(spec: RecipeSpec, ts: Seq<ProductionPhaseTemplate>) -> Result<
    (),
    ScheduleError,
> {
    match spec_start(spec.start_string) {
        Err(e) => Err(ScheduleError::DateParse(e)),
        Ok(st) => match phase_durations(spec.phase_specs@, ts, st) {
            Err(e) => Err(e),
            Ok(_) => Ok(()),
        },
    }
}

/// `r` is the recipe built from `spec` against `ts` with the ids after `last`: its own id
/// first, then one per phase in order.
pub open spec fn recipe_built(
    r: Recipe,
    spec: RecipeSpec,
    ts: Seq<ProductionPhaseTemplate>,
    last: int,
) -> bool {
    let st = spec_start(spec.start_string)->Ok_0;
    &&& r.id == last + 1
    &&& r.name@ == spec.name@
    &&& r.color@ == spec.color_hex@
    &&& r.start_date.secs == st
    &&& r.start_date.is_representable()
    &&& phases_dated(
        r.phases@,
        spec.phase_specs@,
        ts,
        spec.color_hex@,
        st,
        last + 1,
        phase_durations(spec.phase_specs@, ts, st)->Ok_0,
    )
    &&& dependency_chain(r.phases@)
}

/// What building the recipe `spec` gives when the schedule is loaded: as `recipe_outcome`, with
/// the start taken from `fallback` where the spec names none.
pub open spec fn load_outcome(
    spec: RecipeSpec,
    fallback: String,
    ts: Seq<ProductionPhaseTemplate>,
) -> Result<(), ScheduleError> {
    let start = match spec.start_string {
        Some(s) => s,
        None => fallback,
    };
    match date_time_of_text(start@) {
        Err(e) => Err(ScheduleError::DateParse(e)),
        Ok(st) => match phase_durations(spec.phase_specs@, ts, st) {
            Err(e) => Err(e),
            Ok(_) => Ok(()),
        },
    }
}

/// `rs` are the recipes built from all of `specs`, in order, with the ids after `first`.
pub open spec fn recipes_built(
    rs: Seq<Recipe>,
    specs: Seq<RecipeSpec>,
    ts: Seq<ProductionPhaseTemplate>,
    first: int,
) -> bool {
    &&& rs.len() == specs.len()
    &&& forall|k: int|
        0 <= k < rs.len() ==> recipe_built(#[trigger] rs[k], specs[k], ts, first + ids_before(specs, k))
}

/// `filled` is `spec` with its start filled in from `fallback` where it names none.
pub open spec fn start_filled(filled: RecipeSpec, spec: RecipeSpec, fallback: String) -> bool {
    &&& filled.name == spec.name
    &&& filled.color_hex == spec.color_hex
    &&& filled.phase_specs@ == spec.phase_specs@
    &&& filled.start_string == match spec.start_string {
        Some(s) => Some(s),
        None => Some(fallback),
    }
}

/// Each id among `rs`, mapped to the last resource in `rs` with that id.
pub open spec fn latest_by_id(rs: Seq<Resource>) -> Map<usize, Resource>
    decreases rs.len(),
{
    if rs.len() == 0 {
        Map::empty()
    } else {
        latest_by_id(rs.drop_last()).insert(rs.last().id, rs.last())
    }
}

/// `held` holds one resource for each id of `m`, the same as `m` maps it to.
pub open spec fn holds_map(held: Seq<Resource>, m: Map<usize, Resource>) -> bool {
    &&& forall|id: usize| #[trigger] m.dom().contains(id) ==> exists|k: int| 0 <= k < held.len() && held[k].id == id
    &&& forall|k: int|
        0 <= k < held.len() ==> m.dom().contains((#[trigger] held[k]).id) && same_resource(
            held[k],
            m[held[k].id],
        )
}

/// One step of registering resources: tracking `c`, a copy of `r`.
proof fn lemma_track_step(
    before: Seq<Resource>,
    after: Seq<Resource>,
    m: Map<usize, Resource>,
    r: Resource,
    c: Resource,
)
    requires
        same_resource(c, r),
        tracker_wf(before),
        holds_map(before, m),
        (exists|i: int| 0 <= i < before.len() && before[i].id == c.id) ==> exists|i: int|
            0 <= i < before.len() && before[i].id == c.id && after == before.update(i, c),
        !(exists|i: int| 0 <= i < before.len() && before[i].id == c.id) ==> exists|pos: int|
            0 <= pos <= before.len() && after == before.insert(pos, c),
    ensures
        holds_map(after, m.insert(r.id, r)),
{
    let present = exists|i: int| 0 <= i < before.len() && before[i].id == c.id;
    let at: int = if present {
        choose|i: int| 0 <= i < before.len() && before[i].id == c.id && after == before.update(i, c)
    } else {
        choose|pos: int| 0 <= pos <= before.len() && after == before.insert(pos, c)
    };
    let m2 = m.insert(r.id, r);
    assert(after[at] == c);
    assert forall|id: usize| #[trigger] m2.dom().contains(id) implies exists|k: int|
        0 <= k < after.len() && after[k].id == id by {
        if id == c.id {
            assert(after[at].id == id);
        } else {
            let k0 = choose|k: int| 0 <= k < before.len() && before[k].id == id;
            if present {
                assert(k0 != at);
                assert(after[k0] == before[k0]);
            } else if k0 < at {
                assert(after[k0] == before[k0]);
            } else {
                assert(after[k0 + 1] == before[k0]);
            }
        }
    }
    assert forall|k: int| 0 <= k < after.len() implies m2.dom().contains((#[trigger] after[k]).id)
        && same_resource(after[k], m2[after[k].id]) by {
        if k != at {
            let k0 = if present || k < at {
                k
            } else {
                k - 1
            };
            assert(after[k] == before[k0]);
            if present {
                assert(before[k0].id != before[at].id);
            } else {
                assert(before[k0].id != c.id);
            }
        }
    }
}

/// The phase blocks of `phases`, in order.
pub open spec fn phases_text(phases: Seq<PhaseInstance>, indent: nat) -> Seq<char>
    decreases phases.len(),
{
    if phases.len() == 0 {
        Seq::empty()
    } else {
        phases_text(phases.drop_last(), indent) + phases.last().text(indent)
    }
}

/// The whole task graph: for each recipe, its header block and then its phase blocks.
pub open spec fn schedule_text(recipes: Seq<Recipe>) -> Seq<char>
    decreases recipes.len(),
{
    if recipes.len() == 0 {
        Seq::empty()
    } else {
        schedule_text(recipes.drop_last()) + recipes.last().text(1) + phases_text(
            recipes.last().phases@,
            1,
        )
    }
}

/// `s` without its last character, if it has one.
pub open spec fn without_last(s: Seq<char>) -> Seq<char> {
    if s.len() > 0 {
        s.drop_last()
    } else {
        s
    }
}

/// Every phase of every recipe starts on a date the calendar can name.
pub open spec fn renderable(recipes: Seq<Recipe>) -> bool {
    forall|k: int, j: int|
        0 <= k < recipes.len() && 0 <= j < recipes[k].phases@.len()
            ==> (#[trigger] recipes[k].phases@[j]).start_date.is_representable()
}

/// A production schedule: phase templates, equipment, and recipe specs as declared, and the
/// recipes built from them.
#[derive(Debug)]
pub struct ProductionSchedule {
    pub name: String,
    pub id: usize,
    pub timeline: ProductionTimeline,
    pub phase_templates: Vec<ProductionPhaseTemplate>,
    pub resources: Vec<Resource>,
    pub recipes: Vec<Recipe>,
    pub recipe_specs: Vec<RecipeSpec>,
    pub ids: IdCounter,
    pub tracker: ResourceTracker,
}

impl ProductionSchedule {
    /// Fills in the start of each recipe spec that names none with the timeline's start.
    fn verify_recipe_start_dates(&mut self)
        ensures
            final(self).recipe_specs@.len() == old(self).recipe_specs@.len(),
            forall|k: int|
                0 <= k < final(self).recipe_specs@.len() ==> start_filled(
                    #[trigger] final(self).recipe_specs@[k],
                    old(self).recipe_specs@[k],
                    old(self).timeline.start,
                ),
            final(self).name == old(self).name,
            final(self).id == old(self).id,
            final(self).timeline == old(self).timeline,
            final(self).phase_templates == old(self).phase_templates,
            final(self).resources == old(self).resources,
            final(self).recipes == old(self).recipes,
            final(self).ids == old(self).ids,
            final(self).tracker == old(self).tracker,
    {
        let mut new_recipe_vec: Vec<RecipeSpec> = Vec::new();
        let n = self.recipe_specs.len();
        let mut i: usize = 0;
        while i < n
            invariant
                n == self.recipe_specs@.len(),
                i <= n,
                new_recipe_vec@.len() == i,
                forall|k: int|
                    0 <= k < i ==> start_filled(
                        #[trigger] new_recipe_vec@[k],
                        self.recipe_specs@[k],
                        self.timeline.start,
                    ),
            decreases n - i,
        {
            let mut recipe_spec = self.recipe_specs[i].clone();
            if recipe_spec.start_string.is_none() {
                recipe_spec.start_string = Some(self.timeline.start.clone());
            }
            new_recipe_vec.push(recipe_spec);
            i = i + 1;
        }
        self.recipe_specs = new_recipe_vec;
    }

    /// Builds a recipe from each spec in order, drawing ids from the schedule's counter as it
    /// stands: each recipe takes the next id, then its phases take one each. The counter is not
    /// reset, so building again from the same specs gives new ids.
    pub fn rebuild_recipes_from_specs(&mut self) -> (r: Result<(), ScheduleError>)
        requires
            old(self).ids.last + id_demand(old(self).recipe_specs@) <= usize::MAX,
        ensures
            final(self).name == old(self).name,
            final(self).id == old(self).id,
            final(self).timeline == old(self).timeline,
            final(self).phase_templates == old(self).phase_templates,
            final(self).resources == old(self).resources,
            final(self).recipe_specs == old(self).recipe_specs,
            final(self).tracker == old(self).tracker,
            r is Ok <==> forall|k: int|
                0 <= k < old(self).recipe_specs@.len() ==> (#[trigger] recipe_outcome(
                    old(self).recipe_specs@[k],
                    old(self).phase_templates@,
                )) is Ok,
            r matches Err(e) ==> exists|k: int|
                0 <= k < old(self).recipe_specs@.len() && recipe_outcome(
                    old(self).recipe_specs@[k],
                    old(self).phase_templates@,
                ) == Err::<(), ScheduleError>(e),
            r is Err ==> final(self).recipes == old(self).recipes,
            r is Ok ==> recipes_built(
                final(self).recipes@,
                old(self).recipe_specs@,
                old(self).phase_templates@,
                old(self).ids.last as int,
            ),
            r is Ok ==> final(self).ids.last == old(self).ids.last + id_demand(
                old(self).recipe_specs@,
            ),
    {
        let ghost specs = self.recipe_specs@;
        let ghost ts = self.phase_templates@;
        let ghost first = self.ids.last as int;
        let mut recipes_vec: Vec<Recipe> = Vec::new();
        let n = self.recipe_specs.len();
        let mut i: usize = 0;
        while i < n
            invariant
                specs == self.recipe_specs@,
                ts == self.phase_templates@,
                self.name == old(self).name,
                self.id == old(self).id,
                self.timeline == old(self).timeline,
                self.phase_templates == old(self).phase_templates,
                self.resources == old(self).resources,
                self.recipe_specs == old(self).recipe_specs,
                self.tracker == old(self).tracker,
                self.recipes == old(self).recipes,
                n == specs.len(),
                i <= n,
                self.ids.last == first + ids_before(specs, i as int),
                first + id_demand(specs) <= usize::MAX,
                recipes_vec@.len() == i,
                forall|k: int| 0 <= k < i ==> (#[trigger] recipe_outcome(specs[k], ts)) is Ok,
                forall|k: int|
                    0 <= k < i ==> recipe_built(
                        #[trigger] recipes_vec@[k],
                        specs[k],
                        ts,
                        first + ids_before(specs, k),
                    ),
            decreases n - i,
        {
            proof {
                lemma_ids_before_monotone(specs, i + 1, n as int);
            }
            let spec = &self.recipe_specs[i];
            let start = match spec.start_date() {
                Ok(t) => t,
                Err(e) => {
                    assert(recipe_outcome(specs[i as int], ts) == Err::<(), ScheduleError>(
                        ScheduleError::DateParse(e),
                    ));
                    return Err(ScheduleError::DateParse(e));
                },
            };
            let id = self.ids.next_id();
            let phases = match expand_recipe(&mut self.ids, spec, &self.phase_templates, start) {
                Ok(p) => p,
                Err(e) => {
                    assert(recipe_outcome(specs[i as int], ts) == Err::<(), ScheduleError>(e));
                    return Err(e);
                },
            };
            let recipe = Recipe {
                id: id,
                name: spec.name.clone(),
                color: spec.color_hex.clone(),
                phases: phases,
                start_date: start,
            };
            let ghost prev = recipes_vec@;
            recipes_vec.push(recipe);
            proof {
                assert(recipe_built(recipe, specs[i as int], ts, first + ids_before(specs, i as int)));
                assert forall|k: int| 0 <= k < i + 1 implies recipe_built(
                    #[trigger] recipes_vec@[k],
                    specs[k],
                    ts,
                    first + ids_before(specs, k),
                ) by {
                    if k < i {
                        assert(recipes_vec@[k] == prev[k]);
                    }
                }
            }
            i = i + 1;
        }
        self.recipes = recipes_vec;
        Ok(())
    }

    /// Registers a copy of each declared resource with a fresh tracker, in order; a later
    /// resource replaces an earlier one with the same id.
    fn track_resources(&mut self)
        requires
            forall|j: int| 0 <= j < old(self).resources@.len() ==> (#[trigger] old(self).resources@[j]).wf(),
        ensures
            final(self).tracker.wf(),
            holds_map(final(self).tracker@, latest_by_id(old(self).resources@)),
            final(self).name == old(self).name,
            final(self).id == old(self).id,
            final(self).timeline == old(self).timeline,
            final(self).phase_templates == old(self).phase_templates,
            final(self).resources == old(self).resources,
            final(self).recipe_specs == old(self).recipe_specs,
            final(self).recipes == old(self).recipes,
            final(self).ids == old(self).ids,
    {
        let ghost rs = self.resources@;
        self.tracker = ResourceTracker::new();
        let n = self.resources.len();
        let mut j: usize = 0;
        assert(latest_by_id(rs.subrange(0, 0)) =~= Map::<usize, Resource>::empty());
        while j < n
            invariant
                rs == self.resources@,
                n == rs.len(),
                j <= n,
                forall|x: int| 0 <= x < rs.len() ==> (#[trigger] rs[x]).wf(),
                self.tracker.wf(),
                holds_map(self.tracker@, latest_by_id(rs.subrange(0, j as int))),
                self.name == old(self).name,
                self.id == old(self).id,
                self.timeline == old(self).timeline,
                self.phase_templates == old(self).phase_templates,
                self.resources == old(self).resources,
                self.recipe_specs == old(self).recipe_specs,
                self.recipes == old(self).recipes,
                self.ids == old(self).ids,
            decreases n - j,
        {
            let c = self.resources[j].clone();
            assert(c.wf()) by {
                assert(rs[j as int].wf());
            }
            let ghost before = self.tracker@;
            self.tracker.track_resource(c);
            proof {
                lemma_track_step(
                    before,
                    self.tracker@,
                    latest_by_id(rs.subrange(0, j as int)),
                    rs[j as int],
                    c,
                );
                assert(rs.subrange(0, j + 1).drop_last() =~= rs.subrange(0, j as int));
            }
            j = j + 1;
        }
        assert(rs.subrange(0, n as int) =~= rs);
    }

    /// Loads the schedule afresh: fills in missing recipe starts from the timeline, restarts ids
    /// at 1, builds every recipe in order, then registers the declared resources with a fresh
    /// tracker.
    pub fn init(&mut self) -> (r: Result<(), ScheduleError>)
        requires
            id_demand(old(self).recipe_specs@) <= usize::MAX,
            forall|j: int| 0 <= j < old(self).resources@.len() ==> (#[trigger] old(self).resources@[j]).wf(),
        ensures
            final(self).name == old(self).name,
            final(self).id == old(self).id,
            final(self).timeline == old(self).timeline,
            final(self).phase_templates == old(self).phase_templates,
            final(self).resources == old(self).resources,
            final(self).recipe_specs@.len() == old(self).recipe_specs@.len(),
            forall|k: int|
                0 <= k < final(self).recipe_specs@.len() ==> start_filled(
                    #[trigger] final(self).recipe_specs@[k],
                    old(self).recipe_specs@[k],
                    old(self).timeline.start,
                ),
            r is Ok <==> forall|k: int|
                0 <= k < old(self).recipe_specs@.len() ==> (#[trigger] load_outcome(
                    old(self).recipe_specs@[k],
                    old(self).timeline.start,
                    old(self).phase_templates@,
                )) is Ok,
            r matches Err(e) ==> exists|k: int|
                0 <= k < old(self).recipe_specs@.len() && load_outcome(
                    old(self).recipe_specs@[k],
                    old(self).timeline.start,
                    old(self).phase_templates@,
                ) == Err::<(), ScheduleError>(e),
            r is Ok ==> recipes_built(
                final(self).recipes@,
                final(self).recipe_specs@,
                final(self).phase_templates@,
                0,
            ),
            r is Ok ==> final(self).ids.last == id_demand(final(self).recipe_specs@),
            r is Ok ==> renderable(final(self).recipes@),
            r is Ok ==> final(self).tracker.wf(),
            r is Ok ==> holds_map(final(self).tracker@, latest_by_id(final(self).resources@)),
    {
        let ghost old_specs = self.recipe_specs@;
        self.ids = IdCounter::new();
        self.verify_recipe_start_dates();
        let ghost specs = self.recipe_specs@;
        let ghost ts = self.phase_templates@;
        proof {
            lemma_ids_before_same_lengths(specs, old_specs, specs.len() as int);
            assert forall|k: int| 0 <= k < specs.len() implies recipe_outcome(#[trigger] specs[k], ts)
                == load_outcome(old_specs[k], self.timeline.start, ts) by {
                assert(start_filled(specs[k], old_specs[k], self.timeline.start));
            }
        }
        match self.rebuild_recipes_from_specs() {
            Ok(()) => {},
            Err(e) => {
                return Err(e);
            },
        }
        proof {
            lemma_built_recipes_renderable(self.recipes@, specs, ts, 0);
        }
        proof {
            assert forall|k: int| 0 <= k < old_specs.len() implies (#[trigger] load_outcome(
                old_specs[k],
                self.timeline.start,
                ts,
            )) is Ok by {
                assert(recipe_outcome(specs[k], ts) is Ok);
            }
        }
        self.track_resources();
        Ok(())
    }

    /// A schedule loaded from its declared parts, as `init` loads it.
    pub fn new(
        name: String,
        id: usize,
        timeline: ProductionTimeline,
        phase_templates: Vec<ProductionPhaseTemplate>,
        resources: Vec<Resource>,
        recipe_specs: Vec<RecipeSpec>,
    ) -> (r: Result<ProductionSchedule, ScheduleError>)
        requires
            id_demand(recipe_specs@) <= usize::MAX,
            forall|j: int| 0 <= j < resources@.len() ==> (#[trigger] resources@[j]).wf(),
        ensures
            r is Ok <==> forall|k: int|
                0 <= k < recipe_specs@.len() ==> (#[trigger] load_outcome(
                    recipe_specs@[k],
                    timeline.start,
                    phase_templates@,
                )) is Ok,
            r matches Err(e) ==> exists|k: int|
                0 <= k < recipe_specs@.len() && load_outcome(
                    recipe_specs@[k],
                    timeline.start,
                    phase_templates@,
                ) == Err::<(), ScheduleError>(e),
            r matches Ok(s) ==> {
                &&& s.name == name
                &&& s.id == id
                &&& s.timeline == timeline
                &&& s.phase_templates == phase_templates
                &&& s.resources == resources
                &&& s.recipe_specs@.len() == recipe_specs@.len()
                &&& forall|k: int|
                    0 <= k < s.recipe_specs@.len() ==> start_filled(
                        #[trigger] s.recipe_specs@[k],
                        recipe_specs@[k],
                        timeline.start,
                    )
                &&& recipes_built(s.recipes@, s.recipe_specs@, s.phase_templates@, 0)
                &&& s.ids.last == id_demand(s.recipe_specs@)
                &&& renderable(s.recipes@)
                &&& s.tracker.wf()
                &&& holds_map(s.tracker@, latest_by_id(s.resources@))
            },
    {
        let mut schedule = ProductionSchedule {
            name,
            id,
            timeline,
            phase_templates,
            resources,
            recipes: Vec::new(),
            recipe_specs,
            ids: IdCounter::new(),
            tracker: ResourceTracker::new(),
        };
        match schedule.init() {
            Ok(()) => Ok(schedule),
            Err(e) => Err(e),
        }
    }

    /// Copies of the resources registered with the tracker.
    pub fn resources(&self) -> (r: Vec<Resource>)
        ensures
            r@.len() == self.tracker@.len(),
            forall|k: int| 0 <= k < r@.len() ==> same_resource(#[trigger] r@[k], self.tracker@[k]),
    {
        self.tracker.get_all_tracked_resources()
    }

    /// A copy of the first phase template with id `id`.
    pub fn get_phase_by_id(&self, id: &str) -> (r: Option<ProductionPhaseTemplate>)
        ensures
            r is None <==> template_index(self.phase_templates@, id@) is None,
            r matches Some(t) ==> same_template(
                t,
                self.phase_templates@[template_index(self.phase_templates@, id@)->Some_0],
            ),
    {
        match find_template(&self.phase_templates, id) {
            Some(k) => Some(self.phase_templates[k].clone()),
            None => None,
        }
    }

    /// A copy of the first declared resource with id `id`.
    pub fn get_resource_by_id(&self, id: usize) -> (r: Option<Resource>)
        ensures
            r is None <==> forall|j: int| 0 <= j < self.resources@.len() ==> (#[trigger] self.resources@[j]).id != id,
            r matches Some(x) ==> exists|k: int|
                0 <= k < self.resources@.len() && self.resources@[k].id == id && (forall|j: int|
                    0 <= j < k ==> (#[trigger] self.resources@[j]).id != id) && same_resource(
                    x,
                    self.resources@[k],
                ),
    {
        let n = self.resources.len();
        let mut i: usize = 0;
        while i < n
            invariant
                n == self.resources@.len(),
                i <= n,
                forall|j: int| 0 <= j < i ==> (#[trigger] self.resources@[j]).id != id,
            decreases n - i,
        {
            if self.resources[i].id == id {
                return Some(self.resources[i].clone());
            }
            i = i + 1;
        }
        None
    }

    /// A copy of the first declared resource of type `resource_type`, whatever it is booked for.
    pub fn get_available_resource_by_type(&self, resource_type: ResourceType) -> (r: Option<
        Resource,
    >)
        ensures
            r is None <==> forall|j: int|
                0 <= j < self.resources@.len() ==> !same_type(
                    (#[trigger] self.resources@[j]).resource_type,
                    resource_type,
                ),
            r matches Some(x) ==> exists|k: int|
                0 <= k < self.resources@.len() && same_type(
                    self.resources@[k].resource_type,
                    resource_type,
                ) && (forall|j: int|
                    0 <= j < k ==> !same_type(
                        (#[trigger] self.resources@[j]).resource_type,
                        resource_type,
                    )) && same_resource(x, self.resources@[k]),
    {
        let n = self.resources.len();
        let mut i: usize = 0;
        while i < n
            invariant
                n == self.resources@.len(),
                i <= n,
                forall|j: int|
                    0 <= j < i ==> !same_type(
                        (#[trigger] self.resources@[j]).resource_type,
                        resource_type,
                    ),
            decreases n - i,
        {
            if self.resources[i].resource_type == resource_type {
                return Some(self.resources[i].clone());
            }
            i = i + 1;
        }
        None
    }

    /// A copy of the first built recipe named `name`.
    pub fn get_recipe_by_name(&self, name: &str) -> (r: Option<Recipe>)
        ensures
            r is None <==> forall|j: int| 0 <= j < self.recipes@.len() ==> (#[trigger] self.recipes@[j]).name@ != name@,
            r matches Some(x) ==> exists|k: int|
                0 <= k < self.recipes@.len() && self.recipes@[k].name@ == name@ && (forall|j: int|
                    0 <= j < k ==> (#[trigger] self.recipes@[j]).name@ != name@) && same_recipe(
                    x,
                    self.recipes@[k],
                ),
    {
        let n = self.recipes.len();
        let mut i: usize = 0;
        while i < n
            invariant
                n == self.recipes@.len(),
                i <= n,
                forall|j: int| 0 <= j < i ==> (#[trigger] self.recipes@[j]).name@ != name@,
            decreases n - i,
        {
            if crate::text::same_text(self.recipes[i].name.as_str(), name) {
                return Some(self.recipes[i].clone());
            }
            i = i + 1;
        }
        None
    }

    /// The whole task graph as text: each recipe's header block followed by its phase blocks,
    /// indented one level, without the final newline.
    pub fn get_string_in_pla_format(&self) -> (r: String)
        requires
            renderable(self.recipes@),
        ensures
            r@ == without_last(schedule_text(self.recipes@)),
    {
        let mut builder = crate::text::new_builder();
        let n = self.recipes.len();
        let mut i: usize = 0;
        while i < n
            invariant
                n == self.recipes@.len(),
                i <= n,
                renderable(self.recipes@),
                crate::text::built_text(builder) == schedule_text(self.recipes@.subrange(0, i as int)),
            decreases n - i,
        {
            let recipe = &self.recipes[i];
            let ghost prefix = self.recipes@.subrange(0, i as int);
            assert(self.recipes@.subrange(0, i + 1).drop_last() =~= prefix);
            crate::text::append_text(&mut builder, recipe.get_string_in_pla_format(1).as_str());
            let ghost head = crate::text::built_text(builder);
            let m = recipe.phases.len();
            let mut j: usize = 0;
            while j < m
                invariant
                    m == recipe.phases@.len(),
                    j <= m,
                    *recipe == self.recipes@[i as int],
                    renderable(self.recipes@),
                    i < n,
                    n == self.recipes@.len(),
                    crate::text::built_text(builder) == head + phases_text(
                        recipe.phases@.subrange(0, j as int),
                        1,
                    ),
                decreases m - j,
            {
                assert(recipe.phases@.subrange(0, j + 1).drop_last() =~= recipe.phases@.subrange(
                    0,
                    j as int,
                ));
                assert(recipe.phases@[j as int].start_date.is_representable());
                crate::text::append_text(
                    &mut builder,
                    recipe.phases[j].get_string_in_pla_format(1).as_str(),
                );
                j = j + 1;
                assert(crate::text::built_text(builder) =~= head + phases_text(
                    recipe.phases@.subrange(0, j as int),
                    1,
                ));
            }
            assert(recipe.phases@.subrange(0, j as int) =~= recipe.phases@);
            i = i + 1;
            assert(crate::text::built_text(builder) =~= schedule_text(
                self.recipes@.subrange(0, i as int),
            ));
        }
        assert(self.recipes@.subrange(0, i as int) =~= self.recipes@);
        let full = match crate::text::finish_text(builder) {
            Ok(s) => s,
            Err(_) => String::new(),
        };
        let len = full.as_str().unicode_len();
        if len > 0 {
            let r = full.as_str().substring_char(0, len - 1).to_owned();
            assert(r@ =~= without_last(schedule_text(self.recipes@)));
            r
        } else {
            full
        }
    }

    /// An iterator over the built recipes, in order.
    pub fn get_recipe_iterator(&self) -> (r: std::slice::Iter<'_, Recipe>)
        ensures
            vstd::std_specs::slice::into_iter_elts(r) == self.recipes@,
    {
        self.recipes.as_slice().iter()
    }
}

proof fn lemma_phase_ids_below_next(specs: Seq<RecipeSpec>, k: int)
    requires
        0 <= k < specs.len(),
    ensures
        ids_before(specs, k + 1) == ids_before(specs, k) + 1 + specs[k].phase_specs@.len(),
{
}

/// Ids follow construction order: a recipe's id is smaller than the ids of its phases, its
/// phases' ids rise in order, and every id of a recipe and its phases is smaller than the id of
/// any later recipe. So no id is used twice.
pub proof fn lemma_ids_follow_construction_order(
    rs: Seq<Recipe>,
    specs: Seq<RecipeSpec>,
    ts: Seq<ProductionPhaseTemplate>,
    first: int,
)
    requires
        recipes_built(rs, specs, ts, first),
    ensures
        forall|k: int, j: int|
            0 <= k < rs.len() && 0 <= j < rs[k].phases@.len() ==> rs[k].id < (#[trigger] rs[k].phases@[j]).id,
        forall|k: int, j: int, j2: int|
            0 <= k < rs.len() && 0 <= j < j2 < rs[k].phases@.len() ==> (#[trigger] rs[k].phases@[j]).id
                < (#[trigger] rs[k].phases@[j2]).id,
        forall|k: int, k2: int| 0 <= k < k2 < rs.len() ==> (#[trigger] rs[k]).id < (#[trigger] rs[k2]).id,
        forall|k: int, k2: int, j: int|
            0 <= k < k2 < rs.len() && 0 <= j < rs[k].phases@.len() ==> (#[trigger] rs[k].phases@[j]).id
                < (#[trigger] rs[k2]).id,
{
    assert forall|k: int, k2: int, j: int|
        0 <= k < k2 < rs.len() && 0 <= j < rs[k].phases@.len() implies (#[trigger] rs[k].phases@[j]).id
        < (#[trigger] rs[k2]).id by {
        assert(recipe_built(rs[k], specs[k], ts, first + ids_before(specs, k)));
        assert(recipe_built(rs[k2], specs[k2], ts, first + ids_before(specs, k2)));
        lemma_phase_ids_below_next(specs, k);
        lemma_ids_before_monotone(specs, k + 1, k2);
    }
    assert forall|k: int, k2: int| 0 <= k < k2 < rs.len() implies (#[trigger] rs[k]).id < (
    #[trigger] rs[k2]).id by {
        assert(recipe_built(rs[k], specs[k], ts, first + ids_before(specs, k)));
        assert(recipe_built(rs[k2], specs[k2], ts, first + ids_before(specs, k2)));
        lemma_phase_ids_below_next(specs, k);
        lemma_ids_before_monotone(specs, k + 1, k2);
    }
    assert forall|k: int, j: int|
        0 <= k < rs.len() && 0 <= j < rs[k].phases@.len() implies rs[k].id < (
        #[trigger] rs[k].phases@[j]).id by {
        assert(recipe_built(rs[k], specs[k], ts, first + ids_before(specs, k)));
    }
    assert forall|k: int, j: int, j2: int|
        0 <= k < rs.len() && 0 <= j < j2 < rs[k].phases@.len() implies (
        #[trigger] rs[k].phases@[j]).id < (#[trigger] rs[k].phases@[j2]).id by {
        assert(recipe_built(rs[k], specs[k], ts, first + ids_before(specs, k)));
    }
}

/// Building the same specs twice from a live counter, the second build starting where the
/// first left it, shifts every id by the number of ids one build uses; with at least one recipe
/// that number is positive, so the two builds give different ids.
pub proof fn lemma_rebuild_shifts_ids(
    first_build: Seq<Recipe>,
    second_build: Seq<Recipe>,
    specs: Seq<RecipeSpec>,
    ts: Seq<ProductionPhaseTemplate>,
    first: int,
)
    requires
        recipes_built(first_build, specs, ts, first),
        recipes_built(second_build, specs, ts, first + id_demand(specs)),
        specs.len() > 0,
    ensures
        id_demand(specs) > 0,
        forall|k: int|
            0 <= k < specs.len() ==> (#[trigger] second_build[k]).id == first_build[k].id + id_demand(
                specs,
            ),
        forall|k: int, j: int|
            0 <= k < specs.len() && 0 <= j < first_build[k].phases@.len() ==> (
            #[trigger] second_build[k].phases@[j]).id == first_build[k].phases@[j].id + id_demand(
                specs,
            ),
        first_build[0].id != second_build[0].id,
{
    lemma_ids_before_monotone(specs, 1, specs.len() as int);
    assert forall|k: int| 0 <= k < specs.len() implies (#[trigger] second_build[k]).id
        == first_build[k].id + id_demand(specs) by {
        assert(recipe_built(first_build[k], specs[k], ts, first + ids_before(specs, k)));
        assert(recipe_built(second_build[k], specs[k], ts, first + id_demand(specs) + ids_before(specs, k)));
    }
    assert forall|k: int, j: int|
        0 <= k < specs.len() && 0 <= j < first_build[k].phases@.len() implies (
        #[trigger] second_build[k].phases@[j]).id == first_build[k].phases@[j].id + id_demand(specs) by {
        assert(recipe_built(first_build[k], specs[k], ts, first + ids_before(specs, k)));
        assert(recipe_built(second_build[k], specs[k], ts, first + id_demand(specs) + ids_before(specs, k)));
    }
    assert(second_build[0].id == first_build[0].id + id_demand(specs));
}

} // verus!
