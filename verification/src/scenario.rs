//! The benchmark scenarios: which stream to decode, and at which width.

use vstd::prelude::*;

verus! {

/// The integer width that a scenario decodes its records into.
#[derive(Debug, Clone, Copy, PartialEq, Eq)]
pub enum ScenarioKind {
    U8,
    U16,
}

/// One benchmark case. Its name labels the result and is the base name of
/// its data file.
#[derive(Debug, Clone, Copy)]
pub struct Scenario<'a> {
    pub name: &'a str,
    pub kind: ScenarioKind,
}

/// Number of scenarios in the table.
pub const SCENARIO_COUNT: usize = 3;

/// The scenario table as a sequence of names and kinds, in the order in
/// which the scenarios run.
pub open spec fn scenario_table() -> Seq<(Seq<char>, ScenarioKind)> {
    seq![
        ("u8_1b"@, ScenarioKind::U8),
        ("u8_2b"@, ScenarioKind::U8),
        ("u16_2b"@, ScenarioKind::U16),
    ]
}

/// The fixed scenarios, in the order in which they run.
pub fn scenarios() -> (table: [Scenario<'static>; 3])
    ensures
        table@.len() == SCENARIO_COUNT,
        forall|i: int|
            0 <= i < SCENARIO_COUNT ==> (#[trigger] table@[i]).name@ == scenario_table()[i].0
                && table@[i].kind == scenario_table()[i].1,
{
    [
        Scenario { name: "u8_1b", kind: ScenarioKind::U8 },
        Scenario { name: "u8_2b", kind: ScenarioKind::U8 },
        Scenario { name: "u16_2b", kind: ScenarioKind::U16 },
    ]
}

/// Name of the data file of the scenario called `name`: the name followed
/// by `.bin`.
pub fn data_file_name(name: &str) -> (file_name: String)
    ensures
        file_name@ == name@ + ".bin"@,
{
    String::from_str(name).concat(".bin")
}

} // verus!
