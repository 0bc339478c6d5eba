use okapi::decoder::decode_image;
use okapi::error::Error;
use okapi::imageops::{genchess, BOARD_SIDE};
use okapi::profile::{Colour, Item, ProfileJson, ProfileKeys};
use okapi::request::AdventuresJson;
use okapi::template::{Sheet, Step};

fn overlay(sheet: Sheet, name: &str, x: i64, y: i64) -> Step {
    Step::Overlay {
        sheet,
        name: String::from(name),
        x,
        y,
    }
}

fn text(x: u32, y: u32, size: u32, max_width: i32, text: &str) -> Step {
    Step::Text {
        x,
        y,
        size,
        max_width,
        text: String::from(text),
    }
}

fn item(kind: &str, name: &str, stat: &str) -> Item {
    Item {
        kind: String::from(kind),
        name: String::from(name),
        stat: String::from(stat),
    }
}

fn plain() -> ProfileJson {
    ProfileJson {
        name: String::from("Adrian"),
        image: String::from("0"),
        race: String::from("Human"),
        color: Colour {
            red: 1,
            green: 2,
            blue: 3,
            alpha: 255,
        },
        classes: vec![String::from("Mage"), String::from("No Class")],
        class_icons: vec![String::from("mage"), String::from("none")],
        left_hand_item: None,
        right_hand_item: None,
        level: String::from("12"),
        guild_rank: None,
        guild_name: None,
        marriage: None,
        money: String::from("$100"),
        pvp_wins: String::from("3"),
        god: String::from("Guilt"),
        adventure_name: None,
        adventure_time: None,
        badges: Vec::new(),
    }
}

fn full() -> ProfileJson {
    ProfileJson {
        name: String::from("Adrian"),
        image: String::from("https://i.imgur.com/a.png"),
        race: String::from("JIKILL"),
        color: Colour {
            red: 1,
            green: 2,
            blue: 3,
            alpha: 128,
        },
        classes: vec![String::from("Mage"), String::from("Thief")],
        class_icons: vec![String::from("mage"), String::from("thief")],
        left_hand_item: Some(item("Shield", "Wooden Shield", "7")),
        right_hand_item: Some(item("SWORD", "Rusty Sword", "12")),
        level: String::from("30"),
        guild_rank: Some(String::from("Leader")),
        guild_name: Some(String::from("The Guild")),
        marriage: Some(String::from("Eve")),
        money: String::from("$5"),
        pvp_wins: String::from("0"),
        god: String::from("None"),
        adventure_name: Some(String::from("Dragon Hunt")),
        adventure_time: Some(String::from("1:30:00")),
        badges: vec![String::from("tester"), String::from("veteran")],
    }
}

#[test]
fn plain_profile() {
    assert_eq!(
        plain().genprofile(800, 533),
        Ok(vec![
            overlay(Sheet::Races, "human", 6, 150),
            overlay(Sheet::Classes, "mage", 6, 244),
            text(12, 12, 52, 550, "Adrian"),
            text(720, 16, 52, 70, "12"),
            text(70, 168, 34, 160, "Human"),
            text(70, 263, 34, 160, "Mage"),
            text(650, 283, 30, 140, "$100"),
            text(650, 332, 30, 140, "3"),
            text(650, 381, 30, 140, "Guilt"),
            text(345, 298, 34, 210, "No Adventure"),
        ])
    );
}

#[test]
fn full_profile() {
    assert_eq!(
        full().genprofile(800, 533),
        Ok(vec![
            overlay(Sheet::Races, "jikill", 6, 150),
            overlay(Sheet::Classes, "mage", 6, 244),
            overlay(Sheet::Classes, "thief", 6, 300),
            overlay(Sheet::GuildRanks, "leader", 610, 3),
            overlay(Sheet::ItemTypes, "sword", 262, 117),
            overlay(Sheet::ItemTypes, "shield", 262, 188),
            overlay(Sheet::Badges, "tester", 50, 482),
            overlay(Sheet::Badges, "veteran", 144, 482),
            text(12, 12, 52, 550, "Adrian of The Guild"),
            text(720, 16, 52, 70, "30"),
            text(180, 76, 22, 500, "married to Eve"),
            text(70, 168, 34, 160, "JIKILL"),
            text(70, 263, 34, 160, "Mage"),
            text(70, 320, 34, 160, "Thief"),
            text(650, 283, 30, 140, "$5"),
            text(650, 332, 30, 140, "0"),
            text(650, 381, 30, 140, "None"),
            text(345, 298, 34, 210, "Dragon Hunt"),
            text(345, 369, 34, 190, "1:30:00"),
            text(345, 135, 52, 325, "Rusty Sword"),
            text(720, 135, 52, 85, "12"),
            text(345, 206, 52, 325, "Wooden Shield"),
            text(720, 206, 52, 85, "7"),
        ])
    );
}

#[test]
fn keys_are_in_lower_case() {
    let keys = full().keys();
    assert_eq!(keys.race, "jikill");
    assert_eq!(keys.guild_rank, Some(String::from("leader")));
    assert_eq!(keys.right_hand, Some(String::from("sword")));
    assert_eq!(keys.left_hand, Some(String::from("shield")));
    let keys = plain().keys();
    assert_eq!(keys.race, "human");
    assert_eq!(keys.guild_rank, None);
    assert_eq!(keys.right_hand, None);
    assert_eq!(keys.left_hand, None);
}

#[test]
fn all_badge_slots() {
    let mut profile = plain();
    profile.badges = [
        "contributor",
        "designer",
        "developer",
        "gamedesigner",
        "gamemaster",
        "support",
        "tester",
        "veteran",
    ]
    .iter()
    .map(|b| b.to_string())
    .collect();
    let steps = profile.genprofile(800, 533).unwrap();
    let lefts: Vec<i64> = steps
        .iter()
        .filter_map(|s| match s {
            Step::Overlay {
                sheet: Sheet::Badges,
                x,
                y,
                ..
            } => {
                assert_eq!(*y, 482);
                Some(*x)
            }
            _ => None,
        })
        .collect();
    assert_eq!(lefts, vec![50, 144, 234, 327, 422, 513, 616, 712]);
    profile.badges.push(String::from("tester"));
    assert!(matches!(profile.genprofile(800, 533), Err(Error::Json(_))));
}

#[test]
fn profiles_that_cannot_be_drawn() {
    let broken = |change: fn(&mut ProfileJson)| {
        let mut profile = full();
        change(&mut profile);
        profile.genprofile(800, 533).ok()
    };
    assert!(broken(|_| {}).is_some());
    assert_eq!(broken(|p| p.race = String::from("troll")), None);
    assert_eq!(broken(|p| p.classes.truncate(1)), None);
    assert_eq!(broken(|p| p.class_icons.truncate(1)), None);
    assert_eq!(broken(|p| p.class_icons[0] = String::from("Mage")), None);
    assert_eq!(broken(|p| p.class_icons[1] = String::from("bard")), None);
    assert_eq!(broken(|p| p.guild_rank = Some(String::from("king"))), None);
    assert_eq!(
        broken(|p| p.right_hand_item.as_mut().unwrap().kind = String::from("gun")),
        None
    );
    assert_eq!(
        broken(|p| p.left_hand_item.as_mut().unwrap().kind = String::new()),
        None
    );
    assert_eq!(broken(|p| p.badges[1] = String::from("Tester")), None);
    assert!(broken(|p| p.class_icons[0] = String::from("none")).is_some());
}

#[test]
fn plan_takes_the_keys_it_is_given() {
    let profile = plain();
    let keys = ProfileKeys {
        race: String::from("orc"),
        guild_rank: None,
        right_hand: None,
        left_hand: None,
    };
    assert!(profile.is_drawable(&keys));
    let steps = profile.plan(&keys).unwrap();
    assert_eq!(steps[0], overlay(Sheet::Races, "orc", 6, 150));
    let keys = ProfileKeys {
        race: String::from("Orc"),
        guild_rank: None,
        right_hand: None,
        left_hand: None,
    };
    assert!(!profile.is_drawable(&keys));
    assert_eq!(profile.plan(&keys), None);
    let keys = ProfileKeys {
        race: String::from("orc"),
        guild_rank: Some(String::from("leader")),
        right_hand: None,
        left_hand: None,
    };
    assert_eq!(profile.plan(&keys), None);
}

#[test]
fn sheets_hold_their_names() {
    assert_eq!(
        Sheet::Races.list(),
        vec!["human", "elf", "dwarf", "orc", "jikill"]
    );
    assert_eq!(Sheet::Classes.list().len(), 7);
    assert_eq!(Sheet::GuildRanks.list(), vec!["leader", "officer", "member"]);
    assert_eq!(Sheet::ItemTypes.list().len(), 11);
    assert_eq!(Sheet::Badges.list().len(), 8);
    assert!(Sheet::Races.holds("elf"));
    assert!(!Sheet::Races.holds("Elf"));
    assert!(!Sheet::Races.holds("thief"));
    assert!(Sheet::Classes.holds("thief"));
    assert!(Sheet::ItemTypes.holds("howlet"));
    assert!(Sheet::Badges.holds("gamedesigner"));
    assert!(!Sheet::Badges.holds(""));
}

#[test]
fn adventure_steps() {
    let mut rows = Vec::new();
    for i in 0..30 {
        rows.push(vec![i, 100 - i]);
    }
    let body = AdventuresJson::new(rows);
    assert_eq!(
        body.steps(3),
        Some(vec![
            text(314, 148, 20, 100, "3% to"),
            text(314, 168, 20, 100, "97%"),
        ])
    );
    assert_eq!(body.steps(30), None);
    let all = body.genadventures().unwrap();
    assert_eq!(all.len(), 30);
    for (i, steps) in all.iter().enumerate() {
        assert_eq!(Some(steps.clone()), body.steps(i));
    }
    let refused = AdventuresJson::new(vec![vec![1, 2]; 29]).genadventures();
    assert!(matches!(refused, Err(Error::Json(_))));
    assert_eq!(refused.unwrap_err().into_response().status, 422);
}

#[test]
fn chess_board_is_encoded() {
    let side = BOARD_SIDE as usize;
    assert_eq!(side, 390);
    let samples = vec![200u8; side * side * 4];
    let file = genchess(samples.clone()).unwrap().unwrap();
    let board = decode_image(&file).unwrap();
    assert_eq!(board.width(), 390);
    assert_eq!(board.height(), 390);
    assert_eq!(board.samples(), &samples);
    assert_eq!(genchess(vec![0u8; side * side * 4 - 1]), None);
    assert_eq!(genchess(Vec::new()), None);
    let _: Option<Result<Vec<u8>, Error>> = genchess(vec![0u8; 4]);
}

#[test]
fn background_of_the_profiles_own_must_cover_the_template() {
    // `full` brings its own background, `plain` asks for the default one.
    assert_eq!(full().genprofile(799, 533), Err(Error::ImageTooSmall));
    assert_eq!(full().genprofile(800, 532), Err(Error::ImageTooSmall));
    assert_eq!(full().genprofile(0, 0), Err(Error::ImageTooSmall));
    assert!(full().genprofile(800, 533).is_ok());
    assert!(full().genprofile(2000, 2000).is_ok());
    assert!(plain().genprofile(1, 1).is_ok());
    assert!(plain().genprofile(0, 0).is_ok());
    // The size is tested before the rest of the request.
    let mut broken = full();
    broken.race = String::from("troll");
    assert_eq!(broken.genprofile(10, 10), Err(Error::ImageTooSmall));
    assert!(matches!(broken.genprofile(800, 533), Err(Error::Json(_))));
}
