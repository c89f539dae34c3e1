//! Expansion of one recipe spec into dated, dependency-linked phase instances.

use vstd::prelude::*;

use crate::phases::{strictly_ascending, PhaseInstance, PhaseInstanceSpec, ProductionPhaseTemplate};
use crate::recipes::RecipeSpec;
use crate::text::same_text;
use crate::time::{representable, DateTime, Duration};
use crate::util::{duration_of_text, duration_text_sound, is_duration_string_sound, DateParseError};

verus! {

/// The ways building recipes from their specs can fail.
#[derive(Clone, Copy, Debug, PartialEq, Eq, Structural)]
pub enum ScheduleError {
    /// A start text could not be read as a date or date-time.
    DateParse(DateParseError),
    /// A phase names a template that does not exist.
    TemplateNotFound,
    /// A duration text has an amount that is not an integer, or names too long a span.
    MalformedDuration,
    /// A phase would start or end beyond the dates the calendar can name.
    DateOutOfRange,
}

/// The source of ids: each id handed out is one more than the last.
#[derive(Debug)]
pub struct IdCounter {
    pub last: usize,
}

impl IdCounter {
    /// A counter whose first id is 1.
    pub fn new() -> (r: IdCounter)
        ensures
            r.last == 0,
    {
        IdCounter { last: 0 }
    }

    pub fn next_id(&mut self) -> (r: usize)
        requires
            old(self).last < usize::MAX,
        ensures
            final(self).last == old(self).last + 1,
            r == final(self).last,
    {
        self.last = self.last + 1;
        self.last
    }
}

/// The index of the first template with id `id`.
pub open spec fn template_index(ts: Seq<ProductionPhaseTemplate>, id: Seq<char>) -> Option<int>
    decreases ts.len(),
{
    if ts.len() == 0 {
        None
    } else {
        match template_index(ts.drop_last(), id) {
            Some(k) => Some(k),
            None => if ts.last().id@ == id {
                Some(ts.len() - 1)
            } else {
                None
            },
        }
    }
}

proof fn lemma_template_index_found(ts: Seq<ProductionPhaseTemplate>, id: Seq<char>)
    ensures
        template_index(ts, id) matches Some(k) ==> 0 <= k < ts.len() && ts[k].id@ == id,
    decreases ts.len(),
{
    if ts.len() > 0 {
        lemma_template_index_found(ts.drop_last(), id);
    }
}

/// The index of the first template in `templates` with id `id`.
pub fn find_template(templates: &Vec<ProductionPhaseTemplate>, id: &str) -> (r: Option<usize>)
    ensures
        r matches Some(i) ==> template_index(templates@, id@) == Some(i as int),
        r matches Some(i) ==> i < templates@.len() && templates@[i as int].id@ == id@,
        r is None <==> template_index(templates@, id@) is None,
{
    let mut found: Option<usize> = None;
    let mut i: usize = 0;
    while i < templates.len()
        invariant
            i <= templates@.len(),
            found matches Some(f) ==> template_index(templates@.subrange(0, i as int), id@) == Some(
                f as int,
            ),
            found is None <==> template_index(templates@.subrange(0, i as int), id@) is None,
        decreases templates@.len() - i,
    {
        assert(templates@.subrange(0, i + 1).drop_last() =~= templates@.subrange(0, i as int));
        if found.is_none() && same_text(templates[i].id.as_str(), id) {
            found = Some(i);
        }
        i = i + 1;
    }
    assert(templates@.subrange(0, i as int) =~= templates@);
    proof {
        lemma_template_index_found(templates@, id@);
    }
    found
}

/// The duration, in seconds, that phase `p` gets from itself or its template `t`: its own, else
/// the template's default, else one day. `None` where the text consulted is unsound.
pub open spec fn resolved_duration(p: PhaseInstanceSpec, t: ProductionPhaseTemplate) -> Option<int> {
    match duration_of_text(p.duration_string@) {
        Some(d) => Some(d),
        None => if duration_text_sound(t.default_duration@) {
            match duration_of_text(t.default_duration@) {
                Some(d) => Some(d),
                None => Some(86400),
            }
        } else {
            None
        },
    }
}

/// The description that phase `p` gets: its own, else its template's.
pub open spec fn resolved_description(p: PhaseInstanceSpec, t: ProductionPhaseTemplate) -> Seq<char> {
    if p.description@.len() == 0 {
        t.description@
    } else {
        p.description@
    }
}

/// The duration of phase `p` starting at `cursor`, or why it cannot be built.
pub open spec fn phase_step(
    p: PhaseInstanceSpec,
    ts: Seq<ProductionPhaseTemplate>,
    cursor: int,
) -> Result<int, ScheduleError> {
    if !duration_text_sound(p.duration_string@) {
        Err(ScheduleError::MalformedDuration)
    } else {
        match template_index(ts, p.template@) {
            None => Err(ScheduleError::TemplateNotFound),
            Some(k) => match resolved_duration(p, ts[k]) {
                None => Err(ScheduleError::MalformedDuration),
                Some(d) => if representable(cursor + d) {
                    Ok(d)
                } else {
                    Err(ScheduleError::DateOutOfRange)
                },
            },
        }
    }
}

/// Resolves phase `p` against `templates`: the template it names, its duration, and when the
/// phase after it starts, or why the phase cannot be built from `cursor`.
pub fn resolve_phase(
    p: &PhaseInstanceSpec,
    templates: &Vec<ProductionPhaseTemplate>,
    cursor: DateTime,
) -> (r: Result<(usize, Duration, DateTime), ScheduleError>)
    ensures
        match phase_step(*p, templates@, cursor.secs as int) {
            Ok(d) => r matches Ok((k, dur, next)) && template_index(templates@, p.template@) == Some(
                k as int,
            ) && k < templates@.len() && dur.secs == d && next.secs == cursor.secs + d
                && next.is_representable(),
            Err(e) => r == Err::<(usize, Duration, DateTime), ScheduleError>(e),
        },
{
    if !is_duration_string_sound(p.duration_string.as_str()) {
        return Err(ScheduleError::MalformedDuration);
    }
    proof {
        lemma_template_index_found(templates@, p.template@);
    }
    let name = p.template.as_str();
    let found = find_template(templates, name);
    let k = match found {
        Some(k) => k,
        None => {
            return Err(ScheduleError::TemplateNotFound);
        },
    };
    let t = &templates[k];
    assert(*t == templates@[k as int]);
    let duration = match p.duration() {
        Some(d) => d,
        None => {
            if !is_duration_string_sound(t.default_duration.as_str()) {
                return Err(ScheduleError::MalformedDuration);
            }
            match t.default_duration() {
                Some(d) => d,
                None => Duration::days(1),
            }
        },
    };
    assert(resolved_duration(*p, templates@[k as int]) == Some(duration.secs as int));
    match cursor.checked_add(duration) {
        Some(next) => Ok((k, duration, next)),
        None => Err(ScheduleError::DateOutOfRange),
    }
}

/// The durations of the phases `ps` laid end to end from `cursor`, or the first failure.
pub open spec fn phase_durations(
    ps: Seq<PhaseInstanceSpec>,
    ts: Seq<ProductionPhaseTemplate>,
    cursor: int,
) -> Result<Seq<int>, ScheduleError>
    decreases ps.len(),
{
    if ps.len() == 0 {
        Ok(Seq::empty())
    } else {
        match phase_step(ps[0], ts, cursor) {
            Err(e) => Err(e),
            Ok(d) => match phase_durations(ps.drop_first(), ts, cursor + d) {
                Err(e) => Err(e),
                Ok(rest) => Ok(seq![d] + rest),
            },
        }
    }
}

pub open spec fn prepend_durations(
    done: Seq<int>,
    rest: Result<Seq<int>, ScheduleError>,
) -> Result<Seq<int>, ScheduleError> {
    match rest {
        Ok(s) => Ok(done + s),
        Err(e) => Err(e),
    }
}

/// `out` holds the phases of `ps` in order, with ids `last_id + 1` onwards, the durations `durs`,
/// descriptions resolved against `ts`, colour `color`, and start dates laid end to end from
/// `start`.
pub open spec fn phases_dated(
    out: Seq<PhaseInstance>,
    ps: Seq<PhaseInstanceSpec>,
    ts: Seq<ProductionPhaseTemplate>,
    color: Seq<char>,
    start: int,
    last_id: int,
    durs: Seq<int>,
) -> bool {
    &&& out.len() == ps.len()
    &&& durs.len() == ps.len()
    &&& forall|j: int|
        0 <= j < out.len() ==> {
            &&& (#[trigger] out[j]).id == last_id + 1 + j
            &&& out[j].duration.secs == durs[j]
            &&& template_index(ts, ps[j].template@) is Some
            &&& out[j].description@ == resolved_description(
                ps[j],
                ts[template_index(ts, ps[j].template@)->Some_0],
            )
            &&& out[j].color_hex@ == color
            &&& out[j].start_date.is_representable()
            &&& out[j].start_date.secs == (if j == 0 {
                start
            } else {
                out[j - 1].start_date.secs + out[j - 1].duration.secs
            })
        }
}

/// The forward pass: builds the phases of `spec` in order, each with the next id, its resolved
/// duration and description, and a start date where the previous phase ends. No phase has
/// dependencies yet.
pub fn build_dated_phases(
    counter: &mut IdCounter,
    spec: &RecipeSpec,
    templates: &Vec<ProductionPhaseTemplate>,
    start: DateTime,
) -> (r: Result<Vec<PhaseInstance>, ScheduleError>)
    requires
        old(counter).last + spec.phase_specs@.len() <= usize::MAX,
        start.is_representable(),
    ensures
        r is Ok <==> phase_durations(spec.phase_specs@, templates@, start.secs as int) is Ok,
        r matches Err(e) ==> phase_durations(spec.phase_specs@, templates@, start.secs as int)
            == Err::<Seq<int>, ScheduleError>(e),
        r matches Ok(out) ==> {
            &&& phases_dated(
                out@,
                spec.phase_specs@,
                templates@,
                spec.color_hex@,
                start.secs as int,
                old(counter).last as int,
                phase_durations(spec.phase_specs@, templates@, start.secs as int)->Ok_0,
            )
            &&& forall|j: int| 0 <= j < out@.len() ==> (#[trigger] out@[j]).dependencies@.len() == 0
            &&& final(counter).last == old(counter).last + spec.phase_specs@.len()
        },
{
    let ghost ps = spec.phase_specs@;
    let ghost ts = templates@;
    let ghost first = counter.last as int;
    let mut phases: Vec<PhaseInstance> = Vec::new();
    let mut cursor = start;
    let ghost mut durs: Seq<int> = Seq::empty();
    let n = spec.phase_specs.len();
    let mut i: usize = 0;
    assert(ps.skip(0) =~= ps);
    assert(ps.subrange(0, 0) =~= Seq::<PhaseInstanceSpec>::empty());
    assert(phase_durations(ps, ts, start.secs as int) == prepend_durations(
        durs,
        phase_durations(ps.skip(0), ts, cursor.secs as int),
    )) by {
        if phase_durations(ps, ts, start.secs as int) is Ok {
            assert(durs + phase_durations(ps, ts, start.secs as int)->Ok_0
                =~= phase_durations(ps, ts, start.secs as int)->Ok_0);
        }
    }
    while i < n
        invariant
            n == ps.len(),
            ps == spec.phase_specs@,
            ts == templates@,
            i <= n,
            counter.last == first + i,
            first + n <= usize::MAX,
            cursor.is_representable(),
            phases_dated(phases@, ps.subrange(0, i as int), ts, spec.color_hex@, start.secs as int, first, durs),
            i > 0 ==> cursor.secs == phases@[i - 1].start_date.secs + phases@[i - 1].duration.secs,
            i == 0 ==> cursor == start,
            forall|j: int| 0 <= j < phases@.len() ==> (#[trigger] phases@[j]).dependencies@.len() == 0,
            phase_durations(ps, ts, start.secs as int) == prepend_durations(
                durs,
                phase_durations(ps.skip(i as int), ts, cursor.secs as int),
            ),
        decreases n - i,
    {
        let ghost rest = ps.skip(i as int);
        assert(rest[0] == ps[i as int]);
        assert(rest.drop_first() =~= ps.skip(i + 1));
        let p = &spec.phase_specs[i];
        let (k, duration, next) = match resolve_phase(p, templates, cursor) {
            Ok(x) => x,
            Err(e) => {
                return Err(e);
            },
        };
        let t = &templates[k];
        let description = if p.description.as_str().is_empty() {
            t.description.clone()
        } else {
            p.description.clone()
        };
        let id = counter.next_id();
        let phase = PhaseInstance::new(id, description, spec.color_hex.clone(), duration, cursor);
        let ghost old_phases = phases@;
        phases.push(phase);
        proof {
            let d = duration.secs as int;
            assert(phase_step(ps[i as int], ts, cursor.secs as int) == Ok::<int, ScheduleError>(d));
            assert(prepend_durations(durs, phase_durations(rest, ts, cursor.secs as int))
                == prepend_durations(durs.push(d), phase_durations(ps.skip(i + 1), ts, cursor.secs + d)))
                by {
                assert(durs + (seq![d] + phase_durations(ps.skip(i + 1), ts, cursor.secs + d)->Ok_0)
                    =~= durs.push(d) + phase_durations(ps.skip(i + 1), ts, cursor.secs + d)->Ok_0);
            }
            durs = durs.push(d);
            assert(ps.subrange(0, i + 1).subrange(0, i as int) =~= ps.subrange(0, i as int));
            assert forall|j: int| 0 <= j < phases@.len() implies {
                &&& (#[trigger] phases@[j]).id == first + 1 + j
                &&& phases@[j].duration.secs == durs[j]
                &&& template_index(ts, ps.subrange(0, i + 1)[j].template@) is Some
                &&& phases@[j].description@ == resolved_description(
                    ps.subrange(0, i + 1)[j],
                    ts[template_index(ts, ps.subrange(0, i + 1)[j].template@)->Some_0],
                )
                &&& phases@[j].color_hex@ == spec.color_hex@
                &&& phases@[j].start_date.is_representable()
                &&& phases@[j].start_date.secs == (if j == 0 {
                    start.secs as int
                } else {
                    phases@[j - 1].start_date.secs + phases@[j - 1].duration.secs
                })
            } by {
                if j < i {
                    assert(phases@[j] == old_phases[j]);
                    assert(ps.subrange(0, i + 1)[j] == ps.subrange(0, i as int)[j]);
                    if j > 0 {
                        assert(phases@[j - 1] == old_phases[j - 1]);
                    }
                } else {
                    assert(ps.subrange(0, i + 1)[j] == ps[i as int]);
                    if j > 0 {
                        assert(phases@[j - 1] == old_phases[j - 1]);
                    }
                }
            }
        }
        cursor = next;
        i = i + 1;
    }
    assert(ps.subrange(0, i as int) =~= ps);
    assert(ps.skip(i as int) =~= Seq::<PhaseInstanceSpec>::empty());
    assert(durs + Seq::<int>::empty() =~= durs);
    Ok(phases)
}

/// `p` is phase `j` of `orig` after the backward pass: its fields are kept, and its
/// dependencies gain the id of the phase after it, if any.
pub open spec fn linked_phase(p: PhaseInstance, orig: Seq<PhaseInstance>, j: int) -> bool {
    &&& p.id == orig[j].id
    &&& p.description == orig[j].description
    &&& p.color_hex == orig[j].color_hex
    &&& p.duration == orig[j].duration
    &&& p.start_date == orig[j].start_date
    &&& strictly_ascending(p.dependencies@)
    &&& p.dependencies@.to_set() == (if j + 1 < orig.len() {
        orig[j].dependencies@.to_set().insert(orig[j + 1].id)
    } else {
        orig[j].dependencies@.to_set()
    })
}

/// The backward pass: walking from the last phase to the first, each phase gets the id of the
/// phase after it as a dependency. The last phase gains none.
pub fn link_dependencies(phases: Vec<PhaseInstance>) -> (r: Vec<PhaseInstance>)
    requires
        forall|j: int| 0 <= j < phases@.len() ==> strictly_ascending(#[trigger] phases@[j].dependencies@),
    ensures
        r@.len() == phases@.len(),
        forall|j: int| 0 <= j < r@.len() ==> linked_phase(#[trigger] r@[j], phases@, j),
{
    let ghost orig = phases@;
    let n = phases.len();
    let mut rest = phases;
    let mut reversed: Vec<PhaseInstance> = Vec::new();
    let mut prev: Option<usize> = None;
    while rest.len() > 0
        invariant
            n == orig.len(),
            rest@ == orig.subrange(0, rest@.len() as int),
            reversed@.len() + rest@.len() == n,
            forall|j: int| 0 <= j < orig.len() ==> strictly_ascending(#[trigger] orig[j].dependencies@),
            prev == (if reversed@.len() == 0 {
                None
            } else {
                Some(orig[rest@.len() as int].id)
            }),
            forall|m: int|
                0 <= m < reversed@.len() ==> linked_phase(#[trigger] reversed@[m], orig, n - 1 - m),
        decreases rest@.len(),
    {
        let ghost j = rest@.len() - 1;
        let mut phase = match rest.pop() {
            Some(p) => p,
            None => {
                return Vec::new();
            },
        };
        assert(phase == orig[j]);
        match prev {
            Some(id) => {
                phase.add_dependency(id);
            },
            None => {
                assert(phase.dependencies@.to_set() =~= orig[j].dependencies@.to_set());
            },
        }
        prev = Some(phase.id);
        reversed.push(phase);
    }
    let mut out: Vec<PhaseInstance> = Vec::new();
    while reversed.len() > 0
        invariant
            n == orig.len(),
            out@.len() + reversed@.len() == n,
            forall|m: int|
                0 <= m < reversed@.len() ==> linked_phase(#[trigger] reversed@[m], orig, n - 1 - m),
            forall|m: int| 0 <= m < out@.len() ==> linked_phase(#[trigger] out@[m], orig, m),
        decreases reversed@.len(),
    {
        let ghost last = reversed@.len() - 1;
        let phase = match reversed.pop() {
            Some(p) => p,
            None => {
                return out;
            },
        };
        assert(linked_phase(phase, orig, n - 1 - last));
        out.push(phase);
    }
    out
}

/// Each phase depends on exactly the phase after it; the last phase depends on none.
pub open spec fn dependency_chain(phases: Seq<PhaseInstance>) -> bool {
    forall|j: int|
        0 <= j < phases.len() ==> (#[trigger] phases[j]).dependencies@ == (if j + 1 < phases.len() {
            seq![phases[j + 1].id]
        } else {
            Seq::<usize>::empty()
        })
}

proof fn lemma_ascending_from_set(s: Seq<usize>, e: Set<usize>)
    requires
        strictly_ascending(s),
        s.to_set() == e,
        e.len() <= 1,
        e.finite(),
    ensures
        e == Set::<usize>::empty() ==> s == Seq::<usize>::empty(),
        forall|x: usize| e == set![x] ==> s == seq![x],
{
    if s.len() > 0 {
        assert(s.to_set().contains(s[0]));
    }
    if s.len() > 1 {
        assert(s.to_set().contains(s[1]));
        assert(s[0] < s[1]);
        assert(e.contains(s[0]) && e.contains(s[1]));
        assert(e.remove(s[0]).contains(s[1]));
        assert(e.remove(s[0]).len() == e.len() - 1);
    }
    assert forall|x: usize| e == set![x] implies s == seq![x] by {
        assert(e.contains(x));
        assert(s.len() > 0);
        assert(s =~= seq![x]);
    }
    if e == Set::<usize>::empty() {
        assert(s =~= Seq::<usize>::empty());
    }
}

/// Expands one recipe spec into its phases: a forward pass that dates them and a backward pass
/// that links each to the phase after it.
pub fn expand_recipe(
    counter: &mut IdCounter,
    spec: &RecipeSpec,
    templates: &Vec<ProductionPhaseTemplate>,
    start: DateTime,
) -> (r: Result<Vec<PhaseInstance>, ScheduleError>)
    requires
        old(counter).last + spec.phase_specs@.len() <= usize::MAX,
        start.is_representable(),
    ensures
        r is Ok <==> phase_durations(spec.phase_specs@, templates@, start.secs as int) is Ok,
        r matches Err(e) ==> phase_durations(spec.phase_specs@, templates@, start.secs as int)
            == Err::<Seq<int>, ScheduleError>(e),
        r matches Ok(out) ==> {
            &&& phases_dated(
                out@,
                spec.phase_specs@,
                templates@,
                spec.color_hex@,
                start.secs as int,
                old(counter).last as int,
                phase_durations(spec.phase_specs@, templates@, start.secs as int)->Ok_0,
            )
            &&& dependency_chain(out@)
            &&& final(counter).last == old(counter).last + spec.phase_specs@.len()
        },
{
    let dated = match build_dated_phases(counter, spec, templates, start) {
        Ok(d) => d,
        Err(e) => {
            return Err(e);
        },
    };
    let ghost orig = dated@;
    assert forall|j: int| 0 <= j < orig.len() implies strictly_ascending(
        #[trigger] orig[j].dependencies@,
    ) by {
        assert(orig[j].dependencies@.len() == 0);
    }
    let linked = link_dependencies(dated);
    proof {
        assert forall|j: int| 0 <= j < linked@.len() implies (#[trigger] linked@[j]).dependencies@ == (
        if j + 1 < linked@.len() {
            seq![linked@[j + 1].id]
        } else {
            Seq::<usize>::empty()
        }) by {
            assert(linked_phase(linked@[j], orig, j));
            assert(orig[j].dependencies@.len() == 0);
            assert(orig[j].dependencies@.to_set() =~= Set::<usize>::empty());
            if j + 1 < linked@.len() {
                assert(linked_phase(linked@[j + 1], orig, j + 1));
                assert(Set::<usize>::empty().insert(orig[j + 1].id) =~= set![orig[j + 1].id]);
                lemma_ascending_from_set(linked@[j].dependencies@, set![orig[j + 1].id]);
            } else {
                lemma_ascending_from_set(linked@[j].dependencies@, Set::<usize>::empty());
            }
        }
        let durs = phase_durations(spec.phase_specs@, templates@, start.secs as int)->Ok_0;
        assert forall|j: int| 0 <= j < linked@.len() implies {
            &&& (#[trigger] linked@[j]).id == old(counter).last + 1 + j
            &&& linked@[j].duration.secs == durs[j]
            &&& template_index(templates@, spec.phase_specs@[j].template@) is Some
            &&& linked@[j].description@ == resolved_description(
                spec.phase_specs@[j],
                templates@[template_index(templates@, spec.phase_specs@[j].template@)->Some_0],
            )
            &&& linked@[j].color_hex@ == spec.color_hex@
            &&& linked@[j].start_date.is_representable()
            &&& linked@[j].start_date.secs == (if j == 0 {
                start.secs as int
            } else {
                linked@[j - 1].start_date.secs + linked@[j - 1].duration.secs
            })
        } by {
            assert(linked_phase(linked@[j], orig, j));
            assert(orig[j] == orig[j]);
            if j > 0 {
                assert(linked_phase(linked@[j - 1], orig, j - 1));
            }
        }
    }
    Ok(linked)
}

} // verus!
