//! The vocabulary of the templates: the sheets of ready-made images and the
//! steps in which a template is drawn.

use crate::text::same_text;
use vstd::prelude::*;

verus! {

/// The sheets of ready-made images that are laid over a profile.
#[derive(Debug, Clone, Copy, PartialEq, Eq)]
pub enum Sheet {
    Races,
    Classes,
    GuildRanks,
    ItemTypes,
    Badges,
}

impl Sheet {
    /// The names of the images of the sheet.
    pub open spec fn names(self) -> Seq<Seq<char>> {
        match self {
            Sheet::Races => seq!["human"@, "elf"@, "dwarf"@, "orc"@, "jikill"@],
            Sheet::Classes => seq![
                "thief"@,
                "paragon"@,
                "ranger"@,
                "warrior"@,
                "mage"@,
                "raider"@,
                "ritualist"@,
            ],
            Sheet::GuildRanks => seq!["leader"@, "officer"@, "member"@],
            Sheet::ItemTypes => seq![
                "sword"@,
                "shield"@,
                "knife"@,
                "dagger"@,
                "spear"@,
                "hammer"@,
                "axe"@,
                "bow"@,
                "howlet"@,
                "scythe"@,
                "wand"@,
            ],
            Sheet::Badges => seq![
                "contributor"@,
                "designer"@,
                "developer"@,
                "gamedesigner"@,
                "gamemaster"@,
                "support"@,
                "tester"@,
                "veteran"@,
            ],
        }
    }

    /// The names of the images of the sheet, for loading them.
    pub fn list(self) -> (names: Vec<&'static str>)
        ensures
            names@.map_values(|n: &'static str| n@) == self.names(),
    {
        let names: Vec<&'static str> = match self {
            Sheet::Races => vec!["human", "elf", "dwarf", "orc", "jikill"],
            Sheet::Classes => vec![
                "thief",
                "paragon",
                "ranger",
                "warrior",
                "mage",
                "raider",
                "ritualist",
            ],
            Sheet::GuildRanks => vec!["leader", "officer", "member"],
            Sheet::ItemTypes => vec![
                "sword",
                "shield",
                "knife",
                "dagger",
                "spear",
                "hammer",
                "axe",
                "bow",
                "howlet",
                "scythe",
                "wand",
            ],
            Sheet::Badges => vec![
                "contributor",
                "designer",
                "developer",
                "gamedesigner",
                "gamemaster",
                "support",
                "tester",
                "veteran",
            ],
        };
        assert(names@.map_values(|n: &'static str| n@) =~= self.names());
        names
    }

    /// Whether the sheet holds an image of this name.
    pub fn holds(self, name: &str) -> (yes: bool)
        ensures
            yes == self.names().contains(name@),
    {
        let names: Vec<&'static str> = self.list();
        let ghost texts = names@.map_values(|n: &'static str| n@);
        let mut i: usize = 0;
        while i < names.len()
            invariant
                i <= names@.len(),
                texts == names@.map_values(|n: &'static str| n@),
                texts == self.names(),
                forall|j: int| 0 <= j < i ==> texts[j] != name@,
            decreases names@.len() - i,
        {
            if same_text(names[i], name) {
                assert(texts[i as int] == name@);
                return true;
            }
            i = i + 1;
        }
        false
    }
}

/// One step of drawing a template.
#[derive(Debug, Clone, PartialEq, Eq)]
pub enum Step {
    /// Lay the image `name` of `sheet` over the picture with its top left
    /// corner at `(x, y)`.
    Overlay { sheet: Sheet, name: String, x: i64, y: i64 },
    /// Write `text` in letters of `size` pixels from `(x, y)`, squeezed to
    /// end within `max_width` pixels.
    Text { x: u32, y: u32, size: u32, max_width: i32, text: String },
}

/// Mathematical model of a step.
pub enum Stroke {
    Overlay { sheet: Sheet, name: Seq<char>, x: i64, y: i64 },
    Text { x: u32, y: u32, size: u32, max_width: i32, text: Seq<char> },
}

impl View for Step {
    type V = Stroke;

    open spec fn view(&self) -> Stroke {
        match self {
            Step::Overlay { sheet, name, x, y } => Stroke::Overlay {
                sheet: *sheet,
                name: name@,
                x: *x,
                y: *y,
            },
            Step::Text { x, y, size, max_width, text } => Stroke::Text {
                x: *x,
                y: *y,
                size: *size,
                max_width: *max_width,
                text: text@,
            },
        }
    }
}

/// The strokes that a list of steps stands for.
pub open spec fn strokes(steps: Seq<Step>) -> Seq<Stroke> {
    steps.map_values(|s: Step| s@)
}

/// Adds an overlay to a list of steps.
pub fn add_overlay(steps: &mut Vec<Step>, sheet: Sheet, name: String, x: i64, y: i64)
    ensures
        strokes(final(steps)@) == strokes(old(steps)@).push(
            Stroke::Overlay { sheet, name: name@, x, y },
        ),
{
    let ghost before = steps@;
    steps.push(Step::Overlay { sheet, name, x, y });
    assert(strokes(steps@) =~= strokes(before).push(Stroke::Overlay { sheet, name: name@, x, y }));
}

/// Adds a text to a list of steps.
pub fn add_text(steps: &mut Vec<Step>, x: u32, y: u32, size: u32, max_width: i32, text: String)
    ensures
        strokes(final(steps)@) == strokes(old(steps)@).push(
            Stroke::Text { x, y, size, max_width, text: text@ },
        ),
{
    let ghost before = steps@;
    steps.push(Step::Text { x, y, size, max_width, text });
    assert(strokes(steps@) =~= strokes(before).push(
        Stroke::Text { x, y, size, max_width, text: text@ },
    ));
}

} // verus!
