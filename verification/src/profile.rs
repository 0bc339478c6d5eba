//! The profile template: which images are laid over the background of a
//! profile and which texts are written on it, where and how large.

use crate::error::Error;
use crate::request::{
    background_fits, default_background, wants_default_background, PROFILE_HEIGHT, PROFILE_WIDTH,
};
use crate::template::{add_overlay, add_text, strokes, Sheet, Step, Stroke};
use crate::text::{same_text, text_of};
use vstd::prelude::*;
use vstd::string::StringExecFns;

verus! {

/// A colour with its opacity.
#[derive(Debug, Clone, Copy, PartialEq, Eq)]
pub struct Colour {
    pub red: u8,
    pub green: u8,
    pub blue: u8,
    pub alpha: u8,
}

/// Type, name and stat of an item.
#[derive(Debug, Clone, PartialEq, Eq)]
pub struct Item {
    pub kind: String,
    pub name: String,
    pub stat: String,
}

/// Request for a profile image.
#[derive(Debug, Clone, PartialEq, Eq)]
pub struct ProfileJson {
    pub name: String,
    /// URL of the background; `"0"` asks for the default one.
    pub image: String,
    pub race: String,
    /// Colour of the text.
    pub color: Colour,
    pub classes: Vec<String>,
    pub class_icons: Vec<String>,
    pub left_hand_item: Option<Item>,
    pub right_hand_item: Option<Item>,
    pub level: String,
    pub guild_rank: Option<String>,
    pub guild_name: Option<String>,
    pub marriage: Option<String>,
    pub money: String,
    pub pvp_wins: String,
    pub god: String,
    pub adventure_name: Option<String>,
    pub adventure_time: Option<String>,
    pub badges: Vec<String>,
}

/// The names under which the sheets hold the images of a profile: race,
/// guild rank and item types in lower case.
#[derive(Debug, Clone, PartialEq, Eq)]
pub struct ProfileKeys {
    pub race: String,
    pub guild_rank: Option<String>,
    pub right_hand: Option<String>,
    pub left_hand: Option<String>,
}

/// Mathematical model of the keys of a profile.
pub struct KeyTexts {
    pub race: Seq<char>,
    pub guild_rank: Option<Seq<char>>,
    pub right_hand: Option<Seq<char>>,
    pub left_hand: Option<Seq<char>>,
}

impl View for ProfileKeys {
    type V = KeyTexts;

    open spec fn view(&self) -> KeyTexts {
        KeyTexts {
            race: self.race@,
            guild_rank: text_of(self.guild_rank),
            right_hand: text_of(self.right_hand),
            left_hand: text_of(self.left_hand),
        }
    }
}

/// A text in lower case.
pub uninterp spec fn lowercase(text: Seq<char>) -> Seq<char>;

/// `str::to_lowercase`: the text with every character replaced by its lower
/// case form. The result depends on the text alone.
#[verifier::external_body]
fn to_lowercase(text: &str) -> (lower: String)
    ensures
        lower@ == lowercase(text@),
{
    text.to_lowercase()
}

/// The lower case form of an optional text.
pub open spec fn opt_lowercase(text: Option<Seq<char>>) -> Option<Seq<char>> {
    match text {
        Some(t) => Some(lowercase(t)),
        None => None,
    }
}

/// The type of an optional item.
pub open spec fn kind_of(item: Option<Item>) -> Option<Seq<char>> {
    match item {
        Some(i) => Some(i.kind@),
        None => None,
    }
}

/// Number of badges that the template has room for.
pub const BADGE_SLOTS: usize = 8;

/// Left edge of badge slot `index`.
pub open spec fn badge_left(index: int) -> i64 {
    if index == 0 {
        50
    } else if index == 1 {
        144
    } else if index == 2 {
        234
    } else if index == 3 {
        327
    } else if index == 4 {
        422
    } else if index == 5 {
        513
    } else if index == 6 {
        616
    } else {
        712
    }
}

fn badge_x(index: usize) -> (x: i64)
    ensures
        x == badge_left(index as int),
{
    if index == 0 {
        50
    } else if index == 1 {
        144
    } else if index == 2 {
        234
    } else if index == 3 {
        327
    } else if index == 4 {
        422
    } else if index == 5 {
        513
    } else if index == 6 {
        616
    } else {
        712
    }
}

/// The overlays of the first `n` badges.
pub open spec fn badge_strokes(badges: Seq<String>, n: int) -> Seq<Stroke>
    decreases n,
{
    if n <= 0 {
        Seq::empty()
    } else {
        badge_strokes(badges, n - 1).push(
            Stroke::Overlay {
                sheet: Sheet::Badges,
                name: badges[n - 1]@,
                x: badge_left(n - 1),
                y: 482,
            },
        )
    }
}

/// `strokes` and, if there is a name and it is not `skip`, the overlay of
/// that name.
pub open spec fn with_overlay(
    strokes: Seq<Stroke>,
    sheet: Sheet,
    name: Option<Seq<char>>,
    x: i64,
    y: i64,
) -> Seq<Stroke> {
    match name {
        Some(n) => strokes.push(Stroke::Overlay { sheet, name: n, x, y }),
        None => strokes,
    }
}

/// `strokes` and, if there is a text, that text.
pub open spec fn with_text(
    strokes: Seq<Stroke>,
    x: u32,
    y: u32,
    size: u32,
    max_width: i32,
    text: Option<Seq<char>>,
) -> Seq<Stroke> {
    match text {
        Some(t) => strokes.push(Stroke::Text { x, y, size, max_width, text: t }),
        None => strokes,
    }
}

/// The name of a class icon, unless it is the word for no icon.
pub open spec fn icon_named(icon: Seq<char>) -> Option<Seq<char>> {
    if icon == "none"@ {
        None
    } else {
        Some(icon)
    }
}

/// The name of a second class, unless it is the word for no class.
pub open spec fn class_named(class: Seq<char>) -> Option<Seq<char>> {
    if class == "No Class"@ {
        None
    } else {
        Some(class)
    }
}

/// Name and stat of an optional item, each on its own.
pub open spec fn item_name(item: Option<Item>) -> Option<Seq<char>> {
    match item {
        Some(i) => Some(i.name@),
        None => None,
    }
}

pub open spec fn item_stat(item: Option<Item>) -> Option<Seq<char>> {
    match item {
        Some(i) => Some(i.stat@),
        None => None,
    }
}

/// Whether every name that is there belongs to the sheet.
pub open spec fn known(sheet: Sheet, name: Option<Seq<char>>) -> bool {
    name matches Some(n) ==> sheet.names().contains(n)
}

impl ProfileJson {
    /// The name at the head of the profile: the character's, followed by the
    /// guild's where there is one.
    pub open spec fn title(&self) -> Seq<char> {
        match self.guild_name {
            Some(guild) => self.name@ + " of "@ + guild@,
            None => self.name@,
        }
    }

    /// The line on the marriage of the character, if it is married.
    pub open spec fn marriage_line(&self) -> Option<Seq<char>> {
        match self.marriage {
            Some(partner) => Some("married to "@ + partner@),
            None => None,
        }
    }

    /// The name of the adventure that the character is on.
    pub open spec fn adventure_line(&self) -> Seq<char> {
        match self.adventure_name {
            Some(adventure) => adventure@,
            None => "No Adventure"@,
        }
    }

    /// The keys of this profile.
    pub open spec fn key_texts(&self) -> KeyTexts {
        KeyTexts {
            race: lowercase(self.race@),
            guild_rank: opt_lowercase(text_of(self.guild_rank)),
            right_hand: opt_lowercase(kind_of(self.right_hand_item)),
            left_hand: opt_lowercase(kind_of(self.left_hand_item)),
        }
    }

    /// Whether the profile can be drawn with these keys: it names two classes
    /// and two class icons, at most eight badges, and every image it asks for
    /// is on its sheet.
    pub open spec fn drawable(&self, keys: KeyTexts) -> bool {
        &&& self.class_icons@.len() >= 2
        &&& self.classes@.len() >= 2
        &&& self.badges@.len() <= BADGE_SLOTS
        &&& (keys.guild_rank is Some <==> self.guild_rank is Some)
        &&& (keys.right_hand is Some <==> self.right_hand_item is Some)
        &&& (keys.left_hand is Some <==> self.left_hand_item is Some)
        &&& Sheet::Races.names().contains(keys.race)
        &&& known(Sheet::Classes, icon_named(self.class_icons@[0]@))
        &&& known(Sheet::Classes, icon_named(self.class_icons@[1]@))
        &&& known(Sheet::GuildRanks, keys.guild_rank)
        &&& known(Sheet::ItemTypes, keys.right_hand)
        &&& known(Sheet::ItemTypes, keys.left_hand)
        &&& forall|i: int|
            0 <= i < self.badges@.len() ==> Sheet::Badges.names().contains(
                #[trigger] self.badges@[i]@,
            )
    }

    /// The images that are laid over the background, in order.
    pub open spec fn overlays(&self, keys: KeyTexts) -> Seq<Stroke> {
        let s = seq![Stroke::Overlay { sheet: Sheet::Races, name: keys.race, x: 6, y: 150 }];
        let s = with_overlay(s, Sheet::Classes, icon_named(self.class_icons@[0]@), 6, 244);
        let s = with_overlay(s, Sheet::Classes, icon_named(self.class_icons@[1]@), 6, 300);
        let s = with_overlay(s, Sheet::GuildRanks, keys.guild_rank, 610, 3);
        let s = with_overlay(s, Sheet::ItemTypes, keys.right_hand, 262, 117);
        let s = with_overlay(s, Sheet::ItemTypes, keys.left_hand, 262, 188);
        s + badge_strokes(self.badges@, self.badges@.len() as int)
    }

    /// The texts that are written after `before`, in order.
    pub open spec fn texts(&self, before: Seq<Stroke>) -> Seq<Stroke> {
        let s = with_text(before, 12, 12, 52, 550, Some(self.title()));
        let s = with_text(s, 720, 16, 52, 70, Some(self.level@));
        let s = with_text(s, 180, 76, 22, 500, self.marriage_line());
        let s = with_text(s, 70, 168, 34, 160, Some(self.race@));
        let s = with_text(s, 70, 263, 34, 160, Some(self.classes@[0]@));
        let s = with_text(s, 70, 320, 34, 160, class_named(self.classes@[1]@));
        let s = with_text(s, 650, 283, 30, 140, Some(self.money@));
        let s = with_text(s, 650, 332, 30, 140, Some(self.pvp_wins@));
        let s = with_text(s, 650, 381, 30, 140, Some(self.god@));
        let s = with_text(s, 345, 298, 34, 210, Some(self.adventure_line()));
        let s = with_text(s, 345, 369, 34, 190, text_of(self.adventure_time));
        let s = with_text(s, 345, 135, 52, 325, item_name(self.right_hand_item));
        let s = with_text(s, 720, 135, 52, 85, item_stat(self.right_hand_item));
        let s = with_text(s, 345, 206, 52, 325, item_name(self.left_hand_item));
        with_text(s, 720, 206, 52, 85, item_stat(self.left_hand_item))
    }

    /// Everything that is drawn on the background, in order: the overlays,
    /// then the texts.
    pub open spec fn drawing(&self, keys: KeyTexts) -> Seq<Stroke> {
        self.texts(self.overlays(keys))
    }

    /// The names under which the sheets hold the images of this profile.
    pub fn keys(&self) -> (keys: ProfileKeys)
        ensures
            keys@ == self.key_texts(),
    {
        ProfileKeys {
            race: to_lowercase(self.race.as_str()),
            guild_rank: match &self.guild_rank {
                Some(rank) => Some(to_lowercase(rank.as_str())),
                None => None,
            },
            right_hand: match &self.right_hand_item {
                Some(item) => Some(to_lowercase(item.kind.as_str())),
                None => None,
            },
            left_hand: match &self.left_hand_item {
                Some(item) => Some(to_lowercase(item.kind.as_str())),
                None => None,
            },
        }
    }

    /// Decides whether the profile can be drawn with these keys.
    pub fn is_drawable(&self, keys: &ProfileKeys) -> (yes: bool)
        ensures
            yes == self.drawable(keys@),
    {
        if self.class_icons.len() < 2 || self.classes.len() < 2 || self.badges.len()
            > BADGE_SLOTS {
            return false;
        }
        if keys.guild_rank.is_some() != self.guild_rank.is_some() || keys.right_hand.is_some()
            != self.right_hand_item.is_some() || keys.left_hand.is_some()
            != self.left_hand_item.is_some() {
            return false;
        }
        if !Sheet::Races.holds(keys.race.as_str()) {
            return false;
        }
        if !same_text(self.class_icons[0].as_str(), "none") && !Sheet::Classes.holds(
            self.class_icons[0].as_str(),
        ) {
            return false;
        }
        if !same_text(self.class_icons[1].as_str(), "none") && !Sheet::Classes.holds(
            self.class_icons[1].as_str(),
        ) {
            return false;
        }
        match &keys.guild_rank {
            Some(rank) => {
                if !Sheet::GuildRanks.holds(rank.as_str()) {
                    return false;
                }
            },
            None => {},
        }
        match &keys.right_hand {
            Some(kind) => {
                if !Sheet::ItemTypes.holds(kind.as_str()) {
                    return false;
                }
            },
            None => {},
        }
        match &keys.left_hand {
            Some(kind) => {
                if !Sheet::ItemTypes.holds(kind.as_str()) {
                    return false;
                }
            },
            None => {},
        }
        let mut i: usize = 0;
        while i < self.badges.len()
            invariant
                i <= self.badges@.len(),
                forall|j: int|
                    0 <= j < i ==> Sheet::Badges.names().contains(#[trigger] self.badges@[j]@),
            decreases self.badges@.len() - i,
        {
            if !Sheet::Badges.holds(self.badges[i].as_str()) {
                return false;
            }
            i = i + 1;
        }
        true
    }

    /// Plans the drawing of the profile with the given keys: `None` where the
    /// profile cannot be drawn, else the steps in order.
    pub fn plan(&self, keys: &ProfileKeys) -> (steps: Option<Vec<Step>>)
        ensures
            steps is Some <==> self.drawable(keys@),
            steps matches Some(list) ==> strokes(list@) == self.drawing(keys@),
    {
        if !self.is_drawable(keys) {
            return None;
        }
        let mut steps: Vec<Step> = Vec::new();
        assert(strokes(steps@) =~= Seq::empty());
        add_overlay(&mut steps, Sheet::Races, keys.race.clone(), 6, 150);
        if !same_text(self.class_icons[0].as_str(), "none") {
            add_overlay(&mut steps, Sheet::Classes, self.class_icons[0].clone(), 6, 244);
        }
        if !same_text(self.class_icons[1].as_str(), "none") {
            add_overlay(&mut steps, Sheet::Classes, self.class_icons[1].clone(), 6, 300);
        }
        match &keys.guild_rank {
            Some(rank) => add_overlay(&mut steps, Sheet::GuildRanks, rank.clone(), 610, 3),
            None => {},
        }
        match &keys.right_hand {
            Some(kind) => add_overlay(&mut steps, Sheet::ItemTypes, kind.clone(), 262, 117),
            None => {},
        }
        match &keys.left_hand {
            Some(kind) => add_overlay(&mut steps, Sheet::ItemTypes, kind.clone(), 262, 188),
            None => {},
        }
        let ghost fixed = strokes(steps@);
        let mut i: usize = 0;
        while i < self.badges.len()
            invariant
                i <= self.badges@.len() <= BADGE_SLOTS,
                strokes(steps@) == fixed + badge_strokes(self.badges@, i as int),
            decreases self.badges@.len() - i,
        {
            add_overlay(&mut steps, Sheet::Badges, self.badges[i].clone(), badge_x(i), 482);
            i = i + 1;
            assert(strokes(steps@) =~= fixed + badge_strokes(self.badges@, i as int));
        }
        assert(strokes(steps@) == self.overlays(keys@));

        let title: String = match &self.guild_name {
            Some(guild) => {
                let mut title: String = self.name.clone();
                title.append(" of ");
                title.append(guild.as_str());
                title
            },
            None => self.name.clone(),
        };
        add_text(&mut steps, 12, 12, 52, 550, title);
        add_text(&mut steps, 720, 16, 52, 70, self.level.clone());
        match &self.marriage {
            Some(partner) => {
                let mut line: String = String::from_str("married to ");
                line.append(partner.as_str());
                add_text(&mut steps, 180, 76, 22, 500, line);
            },
            None => {},
        }
        add_text(&mut steps, 70, 168, 34, 160, self.race.clone());
        add_text(&mut steps, 70, 263, 34, 160, self.classes[0].clone());
        if !same_text(self.classes[1].as_str(), "No Class") {
            add_text(&mut steps, 70, 320, 34, 160, self.classes[1].clone());
        }
        add_text(&mut steps, 650, 283, 30, 140, self.money.clone());
        add_text(&mut steps, 650, 332, 30, 140, self.pvp_wins.clone());
        add_text(&mut steps, 650, 381, 30, 140, self.god.clone());
        let adventure: String = match &self.adventure_name {
            Some(name) => name.clone(),
            None => String::from_str("No Adventure"),
        };
        add_text(&mut steps, 345, 298, 34, 210, adventure);
        match &self.adventure_time {
            Some(time) => add_text(&mut steps, 345, 369, 34, 190, time.clone()),
            None => {},
        }
        match &self.right_hand_item {
            Some(item) => {
                add_text(&mut steps, 345, 135, 52, 325, item.name.clone());
                add_text(&mut steps, 720, 135, 52, 85, item.stat.clone());
            },
            None => {},
        }
        match &self.left_hand_item {
            Some(item) => {
                add_text(&mut steps, 345, 206, 52, 325, item.name.clone());
                add_text(&mut steps, 720, 206, 52, 85, item.stat.clone());
            },
            None => {},
        }
        Some(steps)
    }

    /// Whether the profile brings a background of its own rather than asking
    /// for the default one.
    pub open spec fn custom_background(&self) -> bool {
        self.image@ != default_background()
    }

    /// Whether a background of `width` by `height` pixels is refused for this
    /// profile: a background of the profile's own must cover the template.
    pub open spec fn too_small(&self, width: u32, height: u32) -> bool {
        self.custom_background() && !(width >= PROFILE_WIDTH && height >= PROFILE_HEIGHT)
    }

    /// Plans the drawing of the profile on a background of `width` by
    /// `height` pixels: the steps in order. A background of the profile's own
    /// that does not cover the template is refused as too small; after that,
    /// a profile that cannot be drawn is refused as a malformed request.
    pub fn genprofile(&self, width: u32, height: u32) -> (steps: Result<Vec<Step>, Error>)
        ensures
            self.too_small(width, height) ==> (steps matches Err(e) && e is ImageTooSmall),
            !self.too_small(width, height) ==> (steps is Ok <==> self.drawable(self.key_texts())),
            !self.too_small(width, height) ==> (steps matches Err(e) ==> e is Json),
            steps matches Ok(list) ==> strokes(list@) == self.drawing(self.key_texts()),
    {
        if !wants_default_background(self.image.as_str()) {
            match background_fits(width, height) {
                Ok(()) => {},
                Err(e) => {
                    return Err(e);
                },
            }
        }
        let keys: ProfileKeys = self.keys();
        match self.plan(&keys) {
            Some(list) => Ok(list),
            None => Err(
                Error::Json(
                    String::from_str(
                        "the profile asks for what the template does not hold",
                    ),
                ),
            ),
        }
    }
}

} // verus!
