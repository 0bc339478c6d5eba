//! The bodies of the rendering requests.

use crate::error::Error;
use crate::template::{add_text, strokes, Step, Stroke};
use crate::text::same_text;
use crate::token::{signed_decimal, signed_decimal_text};
use vstd::prelude::*;
use vstd::string::StringExecFns;

verus! {

/// Number of adventures, each with an image of its own.
pub const ADVENTURES: usize = 30;

/// Request for the adventure images: for each adventure the lowest and the
/// highest chance of success, in percent.
#[derive(Debug, Clone, PartialEq, Eq)]
pub struct AdventuresJson {
    percentages: Vec<Vec<i32>>,
}

/// The two lines written on the image of an adventure with chances from
/// `low` to `high`.
pub open spec fn chance_lines(low: i32, high: i32) -> (Seq<char>, Seq<char>) {
    (signed_decimal(low as int) + "% to"@, signed_decimal(high as int) + "%"@)
}

/// The two texts written on the image of an adventure with chances from
/// `low` to `high`.
pub open spec fn chance_strokes(low: i32, high: i32) -> Seq<Stroke> {
    seq![
        Stroke::Text { x: 314, y: 148, size: 20, max_width: 100, text: chance_lines(low, high).0 },
        Stroke::Text { x: 314, y: 168, size: 20, max_width: 100, text: chance_lines(low, high).1 },
    ]
}

impl AdventuresJson {
    pub fn new(percentages: Vec<Vec<i32>>) -> (body: AdventuresJson)
        ensures
            body.percentages() == percentages,
    {
        AdventuresJson { percentages }
    }

    pub closed spec fn percentages(&self) -> Vec<Vec<i32>> {
        self.percentages
    }

    /// The chances, adventure by adventure.
    pub fn chances(&self) -> (all: &Vec<Vec<i32>>)
        ensures
            *all == self.percentages(),
    {
        &self.percentages
    }

    /// Whether the request gives two chances for adventure `index`.
    pub open spec fn covers(&self, index: int) -> bool {
        0 <= index < self.percentages()@.len() && self.percentages()@[index]@.len() >= 2
    }

    /// Whether the request gives two chances for every adventure.
    pub fn is_complete(&self) -> (complete: bool)
        ensures
            complete == forall|index: int| 0 <= index < ADVENTURES ==> self.covers(index),
    {
        let mut index: usize = 0;
        while index < ADVENTURES
            invariant
                index <= ADVENTURES,
                forall|j: int| 0 <= j < index ==> self.covers(j),
            decreases ADVENTURES - index,
        {
            if index >= self.percentages.len() || self.percentages[index].len() < 2 {
                assert(!self.covers(index as int));
                return false;
            }
            index = index + 1;
        }
        true
    }

    /// The two lines for the image of adventure `index`, where the request
    /// gives its chances.
    pub fn lines(&self, index: usize) -> (lines: Option<(String, String)>)
        ensures
            lines is Some <==> self.covers(index as int),
            lines matches Some(l) ==> (l.0@, l.1@) == chance_lines(
                self.percentages()@[index as int]@[0],
                self.percentages()@[index as int]@[1],
            ),
    {
        if index >= self.percentages.len() {
            return None;
        }
        let chances: &Vec<i32> = &self.percentages[index];
        if chances.len() < 2 {
            return None;
        }
        let mut first: String = signed_decimal_text(chances[0]);
        first.append("% to");
        let mut second: String = signed_decimal_text(chances[1]);
        second.append("%");
        Some((first, second))
    }
}

impl AdventuresJson {
    /// What is written on the image of adventure `index`, where the request
    /// gives its chances.
    pub fn steps(&self, index: usize) -> (steps: Option<Vec<Step>>)
        ensures
            steps is Some <==> self.covers(index as int),
            steps matches Some(list) ==> strokes(list@) == chance_strokes(
                self.percentages()@[index as int]@[0],
                self.percentages()@[index as int]@[1],
            ),
    {
        match self.lines(index) {
            Some((first, second)) => {
                let mut steps: Vec<Step> = Vec::new();
                assert(strokes(steps@) =~= Seq::empty());
                add_text(&mut steps, 314, 148, 20, 100, first);
                add_text(&mut steps, 314, 168, 20, 100, second);
                assert(strokes(steps@) =~= chance_strokes(
                    self.percentages()@[index as int]@[0],
                    self.percentages()@[index as int]@[1],
                ));
                Some(steps)
            },
            None => None,
        }
    }

    /// What is written on the images of all adventures, in order. A request
    /// that lacks the chances of one of them is refused as malformed.
    pub fn genadventures(&self) -> (all: Result<Vec<Vec<Step>>, Error>)
        ensures
            all is Ok <==> forall|index: int| 0 <= index < ADVENTURES ==> self.covers(index),
            all matches Ok(lists) ==> lists@.len() == ADVENTURES && forall|index: int|
                0 <= index < ADVENTURES ==> strokes(#[trigger] lists@[index]@) == chance_strokes(
                    self.percentages()@[index]@[0],
                    self.percentages()@[index]@[1],
                ),
            all matches Err(e) ==> e is Json,
    {
        let mut all: Vec<Vec<Step>> = Vec::new();
        let mut index: usize = 0;
        while index < ADVENTURES
            invariant
                index <= ADVENTURES,
                all@.len() == index,
                forall|j: int| 0 <= j < index ==> self.covers(j),
                forall|j: int|
                    0 <= j < index ==> strokes(#[trigger] all@[j]@) == chance_strokes(
                        self.percentages()@[j]@[0],
                        self.percentages()@[j]@[1],
                    ),
            decreases ADVENTURES - index,
        {
            match self.steps(index) {
                Some(steps) => {
                    all.push(steps);
                },
                None => {
                    assert(!self.covers(index as int));
                    return Err(
                        Error::Json(
                            String::from_str("the request lacks the chances of an adventure"),
                        ),
                    );
                },
            }
            index = index + 1;
        }
        Ok(all)
    }
}

/// Request for a chess board image: the board as SVG text.
#[derive(Debug, Clone, PartialEq, Eq)]
pub struct ChessJson {
    xml: String,
}

impl ChessJson {
    pub fn new(xml: String) -> (body: ChessJson)
        ensures
            body.xml() == xml,
    {
        ChessJson { xml }
    }

    pub closed spec fn xml(&self) -> String {
        self.xml
    }

    /// The SVG text.
    pub fn svg(&self) -> (xml: &String)
        ensures
            *xml == self.xml(),
    {
        &self.xml
    }
}

/// Request for an image operation: the URL of the image to work on.
#[derive(Debug, Clone, PartialEq, Eq)]
pub struct ImageJson {
    image: String,
}

impl ImageJson {
    pub fn new(image: String) -> (body: ImageJson)
        ensures
            body.image() == image,
    {
        ImageJson { image }
    }

    pub closed spec fn image(&self) -> String {
        self.image
    }

    /// The URL of the image.
    pub fn url(&self) -> (url: &String)
        ensures
            *url == self.image(),
    {
        &self.image
    }
}

/// The overlays of the profile template.
#[derive(Debug, Clone, Copy, PartialEq, Eq)]
pub enum OverlayStyle {
    Dark,
    Light,
    /// No overlay: the background is only resized.
    Plain,
}

/// Request for a profile background: the URL of the image and the name of
/// the overlay to lay over it.
#[derive(Debug, Clone, PartialEq, Eq)]
pub struct OverlayJson {
    url: String,
    style: String,
}

/// The overlay that a style name selects.
pub open spec fn style_named(name: Seq<char>) -> OverlayStyle {
    if name == "dark"@ {
        OverlayStyle::Dark
    } else if name == "light"@ {
        OverlayStyle::Light
    } else {
        OverlayStyle::Plain
    }
}

impl OverlayJson {
    pub fn new(url: String, style: String) -> (body: OverlayJson)
        ensures
            body.url() == url,
            body.style() == style,
    {
        OverlayJson { url, style }
    }

    pub closed spec fn url(&self) -> String {
        self.url
    }

    pub closed spec fn style(&self) -> String {
        self.style
    }

    /// The URL of the background image.
    pub fn background(&self) -> (url: &String)
        ensures
            *url == self.url(),
    {
        &self.url
    }

    /// The name of the overlay, as the request gives it.
    pub fn style_name(&self) -> (style: &String)
        ensures
            *style == self.style(),
    {
        &self.style
    }

    /// The overlay to lay over the background.
    pub fn overlay(&self) -> (style: OverlayStyle)
        ensures
            style == style_named(self.style()@),
    {
        if same_text(self.style.as_str(), "dark") {
            OverlayStyle::Dark
        } else if same_text(self.style.as_str(), "light") {
            OverlayStyle::Light
        } else {
            OverlayStyle::Plain
        }
    }
}

/// Largest width and height of a custom background that is decoded.
pub const MAX_BACKGROUND_SIDE: u32 = 2000;

/// The URL that stands for the default profile background.
pub open spec fn default_background() -> Seq<char> {
    "0"@
}

/// Whether a profile asks for the default background rather than a custom
/// one.
pub fn wants_default_background(url: &str) -> (yes: bool)
    ensures
        yes == (url@ == default_background()),
{
    same_text(url, "0")
}

/// Width of the profile template.
pub const PROFILE_WIDTH: u32 = 800;

/// Height of the profile template.
pub const PROFILE_HEIGHT: u32 = 533;

/// Whether a custom background covers the profile template.
pub fn background_fits(width: u32, height: u32) -> (verdict: Result<(), Error>)
    ensures
        verdict is Ok <==> width >= PROFILE_WIDTH && height >= PROFILE_HEIGHT,
        verdict matches Err(e) ==> e == Error::ImageTooSmall,
{
    if height < PROFILE_HEIGHT || width < PROFILE_WIDTH {
        Err(Error::ImageTooSmall)
    } else {
        Ok(())
    }
}

} // verus!
