//! Recipe specs as declared, and recipes built from them.

use vstd::prelude::*;

use crate::phases::{same_phase, PhaseInstance, PhaseInstanceSpec};
use crate::text::{append_text, decimal_string, decimal_text, finish_text, new_builder, spaces};
use crate::time::DateTime;
use crate::util::{date_time_of_text, get_naive_date_time_from_string, get_space_indent, reading_of, DateParseError};

verus! {

/// A declared recipe: its name, colour, optional start, and ordered phase list.
#[derive(Debug, PartialEq)]
pub struct RecipeSpec {
    pub name: String,
    pub color_hex: String,
    pub phase_specs: Vec<PhaseInstanceSpec>,
    pub start_string: Option<String>,
}

/// When a recipe spec starts, in seconds: its start text read as a date-time, or the epoch
/// where it names none.
pub open spec fn spec_start(start_string: Option<String>) -> Result<int, DateParseError> {
    match start_string {
        Some(s) => date_time_of_text(s@),
        None => Ok(0),
    }
}

impl RecipeSpec {
    /// The start of this recipe, read from its start text; 1970-01-01 00:00:00 where it has none.
    pub fn start_date(&self) -> (r: Result<DateTime, DateParseError>)
        ensures
            reading_of(r) == spec_start(self.start_string),
            r matches Ok(t) ==> t.is_representable(),
    {
        match &self.start_string {
            Some(x) => get_naive_date_time_from_string(x.as_str()),
            None => Ok(DateTime { secs: 0 }),
        }
    }
}

/// A recipe built from a spec: its own id and its dated phases.
#[derive(Debug, PartialEq)]
pub struct Recipe {
    pub id: usize,
    pub name: String,
    pub color: String,
    pub phases: Vec<PhaseInstance>,
    pub start_date: DateTime,
}

/// One `child` line for each phase, in order, indented by `indent` levels.
pub open spec fn child_lines(phases: Seq<PhaseInstance>, indent: nat) -> Seq<char>
    decreases phases.len(),
{
    if phases.len() == 0 {
        Seq::empty()
    } else {
        child_lines(phases.drop_last(), indent) + spaces(2 * indent) + "child "@ + decimal_text(
            phases.last().id as nat,
        ) + "\n"@
    }
}

impl Recipe {
    /// The header block of this recipe: its id and name, then one `child` line per phase.
    pub open spec fn text(&self, indent: nat) -> Seq<char> {
        "["@ + decimal_text(self.id as nat) + "] "@ + self.name@ + "\n"@ + child_lines(
            self.phases@,
            indent,
        ) + "\n"@
    }

    /// An iterator over the phases, in order.
    pub fn get_phase_iterator(&self) -> (r: std::slice::Iter<'_, PhaseInstance>)
        ensures
            vstd::std_specs::slice::into_iter_elts(r) == self.phases@,
    {
        self.phases.as_slice().iter()
    }

    /// The header block of this recipe, its `child` lines indented by `initial_indent` levels.
    pub fn get_string_in_pla_format(&self, initial_indent: usize) -> (r: String)
        requires
            initial_indent < usize::MAX / 2,
        ensures
            r@ == self.text(initial_indent as nat),
    {
        let mut builder = new_builder();
        append_text(&mut builder, "[");
        append_text(&mut builder, decimal_string(self.id as u64).as_str());
        append_text(&mut builder, "] ");
        append_text(&mut builder, self.name.as_str());
        append_text(&mut builder, "\n");
        let ghost head = crate::text::built_text(builder);
        let indent = get_space_indent(initial_indent);
        let mut i: usize = 0;
        while i < self.phases.len()
            invariant
                i <= self.phases@.len(),
                indent@ == spaces((initial_indent * 2) as nat),
                crate::text::built_text(builder) == head + child_lines(
                    self.phases@.subrange(0, i as int),
                    initial_indent as nat,
                ),
            decreases self.phases@.len() - i,
        {
            let ghost prev = self.phases@.subrange(0, i as int);
            append_text(&mut builder, indent.as_str());
            append_text(&mut builder, "child ");
            append_text(&mut builder, decimal_string(self.phases[i].id as u64).as_str());
            append_text(&mut builder, "\n");
            assert(self.phases@.subrange(0, i + 1).drop_last() =~= prev);
            i = i + 1;
            assert(crate::text::built_text(builder) =~= head + child_lines(
                self.phases@.subrange(0, i as int),
                initial_indent as nat,
            ));
        }
        append_text(&mut builder, "\n");
        assert(self.phases@.subrange(0, i as int) =~= self.phases@);
        let r = match finish_text(builder) {
            Ok(s) => s,
            Err(_) => String::new(),
        };
        assert(r@ =~= self.text(initial_indent as nat));
        r
    }
}

impl Clone for RecipeSpec {
    fn clone(&self) -> (r: Self)
        ensures
            r.name == self.name,
            r.color_hex == self.color_hex,
            r.phase_specs@ == self.phase_specs@,
            r.start_string == self.start_string,
    {
        let phase_specs = self.phase_specs.clone();
        assert(phase_specs@ =~= self.phase_specs@);
        let start_string = match &self.start_string {
            Some(s) => Some(s.clone()),
            None => None,
        };
        RecipeSpec {
            name: self.name.clone(),
            color_hex: self.color_hex.clone(),
            phase_specs,
            start_string,
        }
    }
}

/// `b` holds the same recipe as `a`, phase for phase.
pub open spec fn same_recipe(a: Recipe, b: Recipe) -> bool {
    &&& a.id == b.id
    &&& a.name == b.name
    &&& a.color == b.color
    &&& a.start_date == b.start_date
    &&& a.phases@.len() == b.phases@.len()
    &&& forall|j: int| 0 <= j < a.phases@.len() ==> same_phase(#[trigger] a.phases@[j], b.phases@[j])
}

impl Clone for Recipe {
    fn clone(&self) -> (r: Self)
        ensures
            same_recipe(r, *self),
    {
        let mut phases: Vec<PhaseInstance> = Vec::new();
        let mut i: usize = 0;
        while i < self.phases.len()
            invariant
                i <= self.phases@.len(),
                phases@.len() == i,
                forall|j: int| 0 <= j < i ==> same_phase(#[trigger] phases@[j], self.phases@[j]),
            decreases self.phases@.len() - i,
        {
            phases.push(self.phases[i].clone());
            i = i + 1;
        }
        Recipe {
            id: self.id,
            name: self.name.clone(),
            color: self.color.clone(),
            phases,
            start_date: self.start_date,
        }
    }
}

} // verus!
