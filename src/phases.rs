//! Phase templates, the per-recipe specs that refer to them, and dated phase instances.

use vstd::prelude::*;

use crate::resources::ResourceType;
use crate::text::{
    append_text, date_hour_text, date_text, decimal_string, decimal_text, finish_text,
    format_date, format_date_hour, new_builder, signed_decimal_string, signed_decimal_text, spaces,
};
use crate::time::{whole_hours, DateTime, Duration, SECS_PER_DAY};
use crate::util::{
    convert_string_to_duration, duration_of_text, duration_text_sound, get_space_indent,
};

verus! {

/// A reusable production step, with the duration and description that instances inherit.
#[derive(Debug, PartialEq)]
pub struct ProductionPhaseTemplate {
    pub description: String,
    pub id: String,
    pub order: usize,
    pub resources_needed: Vec<ResourceType>,
    pub color_hex: String,
    pub default_duration: String,
}

impl ProductionPhaseTemplate {
    /// The template's default duration, read from its text.
    pub fn default_duration(&self) -> (r: Option<Duration>)
        requires
            duration_text_sound(self.default_duration@),
        ensures
            match duration_of_text(self.default_duration@) {
                Some(d) => r == Some(Duration { secs: d as i64 }),
                None => r is None,
            },
    {
        convert_string_to_duration(self.default_duration.as_str())
    }
}

/// `b` holds the same template as `a`.
pub open spec fn same_template(a: ProductionPhaseTemplate, b: ProductionPhaseTemplate) -> bool {
    &&& a.description == b.description
    &&& a.id == b.id
    &&& a.order == b.order
    &&& a.resources_needed@ == b.resources_needed@
    &&& a.color_hex == b.color_hex
    &&& a.default_duration == b.default_duration
}

impl Clone for ProductionPhaseTemplate {
    fn clone(&self) -> (r: Self)
        ensures
            same_template(r, *self),
    {
        let resources_needed = self.resources_needed.clone();
        assert(resources_needed@ =~= self.resources_needed@);
        ProductionPhaseTemplate {
            description: self.description.clone(),
            id: self.id.clone(),
            order: self.order,
            resources_needed,
            color_hex: self.color_hex.clone(),
            default_duration: self.default_duration.clone(),
        }
    }
}

/// One entry of a recipe's phase list: the template it refers to, and optional overrides of
/// the template's description and duration (an empty text means no override).
#[derive(Debug, PartialEq)]
pub struct PhaseInstanceSpec {
    pub description: String,
    pub template: String,
    pub duration_string: String,
}

impl PhaseInstanceSpec {
    /// The duration that this entry sets, if any.
    pub fn duration(&self) -> (r: Option<Duration>)
        requires
            duration_text_sound(self.duration_string@),
        ensures
            match duration_of_text(self.duration_string@) {
                Some(d) => r == Some(Duration { secs: d as i64 }),
                None => r is None,
            },
    {
        if self.duration_string.as_str().is_empty() {
            None
        } else {
            convert_string_to_duration(self.duration_string.as_str())
        }
    }
}

impl Clone for PhaseInstanceSpec {
    fn clone(&self) -> (r: Self)
        ensures
            r == *self,
    {
        PhaseInstanceSpec {
            description: self.description.clone(),
            template: self.template.clone(),
            duration_string: self.duration_string.clone(),
        }
    }
}

/// Each element is smaller than every later one.
pub open spec fn strictly_ascending(s: Seq<usize>) -> bool {
    forall|i: int, j: int| 0 <= i < j < s.len() ==> s[i] < s[j]
}

/// A dated step of one recipe.
#[derive(Debug, PartialEq)]
pub struct PhaseInstance {
    pub id: usize,
    pub description: String,
    pub color_hex: String,
    pub duration: Duration,
    pub dependencies: Vec<usize>,
    pub start_date: DateTime,
}

/// How a start date is written: the bare date at midnight, else the date and the hour.
pub open spec fn start_text(t: DateTime) -> Seq<char> {
    if t.secs % SECS_PER_DAY == 0 {
        date_text(t.secs as int)
    } else {
        date_hour_text(t.secs as int)
    }
}

/// One `dep` line for each dependency, in order.
pub open spec fn dependency_lines(deps: Seq<usize>) -> Seq<char>
    decreases deps.len(),
{
    if deps.len() == 0 {
        Seq::empty()
    } else {
        dependency_lines(deps.drop_last()) + spaces(4) + "dep "@ + decimal_text(
            deps.last() as nat,
        ) + "\n"@
    }
}

/// The block that describes one phase, its first line indented by `indent` levels and the
/// lines below it by one more; `dep` lines always stand at two levels.
pub open spec fn phase_text(
    id: usize,
    description: Seq<char>,
    start: DateTime,
    color: Seq<char>,
    duration: Duration,
    deps: Seq<usize>,
    indent: nat,
) -> Seq<char> {
    let inner = spaces(2 * (indent + 1));
    spaces(2 * indent) + "["@ + decimal_text(id as nat) + "] "@ + description + "\n"@ + inner
        + "start "@ + start_text(start) + "\n"@ + inner + "color "@ + color + "\n"@ + inner
        + "duration "@ + signed_decimal_text(whole_hours(duration.secs as int)) + "\n"@
        + dependency_lines(deps) + "\n"@
}

impl PhaseInstance {
    pub open spec fn text(&self, indent: nat) -> Seq<char> {
        phase_text(
            self.id,
            self.description@,
            self.start_date,
            self.color_hex@,
            self.duration,
            self.dependencies@,
            indent,
        )
    }

    /// A phase with the given fields and no dependencies.
    pub fn new(
        id: usize,
        description: String,
        color_hex: String,
        duration: Duration,
        start_date: DateTime,
    ) -> (r: Self)
        ensures
            r.id == id,
            r.description == description,
            r.color_hex == color_hex,
            r.duration == duration,
            r.dependencies@ == Seq::<usize>::empty(),
            r.start_date == start_date,
    {
        PhaseInstance {
            description: description,
            id: id,
            color_hex: color_hex,
            duration: duration,
            dependencies: vec![],
            start_date: start_date,
        }
    }

    /// Adds `dep` to the dependencies, which stay in ascending order without repeats.
    pub fn add_dependency(&mut self, dep: usize)
        requires
            strictly_ascending(old(self).dependencies@),
        ensures
            strictly_ascending(final(self).dependencies@),
            final(self).dependencies@.to_set() == old(self).dependencies@.to_set().insert(dep),
            final(self).id == old(self).id,
            final(self).description == old(self).description,
            final(self).color_hex == old(self).color_hex,
            final(self).duration == old(self).duration,
            final(self).start_date == old(self).start_date,
    {
        let n = self.dependencies.len();
        let mut i: usize = 0;
        while i < n && self.dependencies[i] < dep
            invariant
                n == self.dependencies@.len(),
                i <= n,
                forall|k: int| 0 <= k < i ==> self.dependencies@[k] < dep,
            decreases n - i,
        {
            i = i + 1;
        }
        if i < n && self.dependencies[i] == dep {
            assert(self.dependencies@.to_set() =~= self.dependencies@.to_set().insert(dep));
            return;
        }
        let ghost before = self.dependencies@;
        self.dependencies.insert(i, dep);
        proof {
            let after = self.dependencies@;
            assert(after =~= before.insert(i as int, dep));
            assert forall|a: int, b: int| 0 <= a < b < after.len() implies after[a] < after[b] by {
                if b < i {
                } else if b == i {
                } else if a < i {
                } else if a == i {
                    assert(before[b - 1] >= dep);
                    if b - 1 > i {
                        assert(before[i as int] < before[b - 1]);
                    }
                } else {
                }
            }
            assert forall|x: usize| after.to_set().contains(x) <==> before.to_set().insert(
                dep,
            ).contains(x) by {
                if after.to_set().contains(x) {
                    let k = choose|k: int| 0 <= k < after.len() && after[k] == x;
                    if k < i {
                        assert(before[k] == x);
                    } else if k > i {
                        assert(before[k - 1] == x);
                    }
                }
                if before.to_set().contains(x) {
                    let k = choose|k: int| 0 <= k < before.len() && before[k] == x;
                    if k < i {
                        assert(after[k] == x);
                    } else {
                        assert(after[k + 1] == x);
                    }
                }
                if x == dep {
                    assert(after[i as int] == dep);
                }
            }
            assert(after.to_set() =~= before.to_set().insert(dep));
        }
    }

    /// The block that describes this phase, its first line indented by `initial_indent` levels.
    pub fn get_string_in_pla_format(&self, initial_indent: usize) -> (r: String)
        requires
            initial_indent < usize::MAX / 2,
            self.start_date.is_representable(),
        ensures
            r@ == self.text(initial_indent as nat),
    {
        let start_date_as_string = if self.start_date.is_midnight() {
            format_date(self.start_date)
        } else {
            format_date_hour(self.start_date)
        };
        let outer = get_space_indent(initial_indent);
        let inner = get_space_indent(initial_indent + 1);
        let mut builder = new_builder();
        append_text(&mut builder, outer.as_str());
        append_text(&mut builder, "[");
        append_text(&mut builder, decimal_string(self.id as u64).as_str());
        append_text(&mut builder, "] ");
        append_text(&mut builder, self.description.as_str());
        append_text(&mut builder, "\n");
        append_text(&mut builder, inner.as_str());
        append_text(&mut builder, "start ");
        append_text(&mut builder, start_date_as_string.as_str());
        append_text(&mut builder, "\n");
        append_text(&mut builder, inner.as_str());
        append_text(&mut builder, "color ");
        append_text(&mut builder, self.color_hex.as_str());
        append_text(&mut builder, "\n");
        append_text(&mut builder, inner.as_str());
        append_text(&mut builder, "duration ");
        append_text(&mut builder, signed_decimal_string(self.duration.num_hours()).as_str());
        append_text(&mut builder, "\n");
        let ghost head = crate::text::built_text(builder);
        let deps_indent = get_space_indent(2);
        let mut i: usize = 0;
        while i < self.dependencies.len()
            invariant
                i <= self.dependencies@.len(),
                deps_indent@ == spaces(4),
                crate::text::built_text(builder) == head + dependency_lines(
                    self.dependencies@.subrange(0, i as int),
                ),
            decreases self.dependencies@.len() - i,
        {
            let ghost prev = self.dependencies@.subrange(0, i as int);
            append_text(&mut builder, deps_indent.as_str());
            append_text(&mut builder, "dep ");
            append_text(&mut builder, decimal_string(self.dependencies[i] as u64).as_str());
            append_text(&mut builder, "\n");
            assert(self.dependencies@.subrange(0, i + 1).drop_last() =~= prev);
            i = i + 1;
            assert(crate::text::built_text(builder) =~= head + dependency_lines(
                self.dependencies@.subrange(0, i as int),
            ));
        }
        append_text(&mut builder, "\n");
        assert(self.dependencies@.subrange(0, i as int) =~= self.dependencies@);
        let r = match finish_text(builder) {
            Ok(s) => s,
            Err(_) => String::new(),
        };
        assert(r@ =~= self.text(initial_indent as nat));
        r
    }
}

/// `b` holds the same phase as `a`.
pub open spec fn same_phase(a: PhaseInstance, b: PhaseInstance) -> bool {
    &&& a.id == b.id
    &&& a.description == b.description
    &&& a.color_hex == b.color_hex
    &&& a.duration == b.duration
    &&& a.dependencies@ == b.dependencies@
    &&& a.start_date == b.start_date
}

impl Clone for PhaseInstance {
    fn clone(&self) -> (r: Self)
        ensures
            same_phase(r, *self),
    {
        let dependencies = self.dependencies.clone();
        assert(dependencies@ =~= self.dependencies@);
        PhaseInstance {
            id: self.id,
            description: self.description.clone(),
            color_hex: self.color_hex.clone(),
            duration: self.duration,
            dependencies,
            start_date: self.start_date,
        }
    }
}

} // verus!
