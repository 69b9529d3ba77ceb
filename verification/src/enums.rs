//! The recognized categorical attributes of the catalog: genres, themes and
//! player perspectives. Each variant carries a fixed numeric id in the
//! catalog's id space; the ordered id lists of the three families make up
//! the default feature vocabulary.

use vstd::prelude::*;

verus! {

/// The recognized game genres.
#[derive(Debug, Clone, Copy, PartialEq, Eq, Structural)]
pub enum Genres {
    PointAndClick,
    Fighting,
    Shooter,
    Music,
    Platform,
    Puzzle,
    Racing,
    RTS,
    RPG,
    Simulator,
    Sport,
    Strategy,
    TBS,
    Tactical,
    HackNSlash,
    Trivia,
    Pinball,
    Adventure,
    Indie,
    Arcade,
    VisualNovel,
    CardAndBoardGame,
    MOBA,
}

/// The recognized game themes.
#[derive(Debug, Clone, Copy, PartialEq, Eq, Structural)]
pub enum Themes {
    Action,
    Fantasy,
    SciFi,
    Horror,
    Thriller,
    Survival,
    Historical,
    Stealth,
    Comedy,
    Business,
    Drama,
    NonFiction,
    Sandbox,
    Educational,
    Kids,
    OpenWorld,
    Warfare,
    Party,
    FourX,
    Erotic,
    Mystery,
    Romance,
}

/// The recognized player perspectives.
#[derive(Debug, Clone, Copy, PartialEq, Eq, Structural)]
pub enum PlayerPerspective {
    FirstPerson,
    ThirdPerson,
    Isometric,
    SideView,
    Text,
    Auditory,
    VR,
}

impl Genres {
    /// The catalog id of this genre.
    pub open spec fn spec_id(self) -> u64 {
        match self {
            Genres::PointAndClick => 2,
            Genres::Fighting => 4,
            Genres::Shooter => 5,
            Genres::Music => 7,
            Genres::Platform => 8,
            Genres::Puzzle => 9,
            Genres::Racing => 10,
            Genres::RTS => 11,
            Genres::RPG => 12,
            Genres::Simulator => 13,
            Genres::Sport => 14,
            Genres::Strategy => 15,
            Genres::TBS => 16,
            Genres::Tactical => 24,
            Genres::HackNSlash => 25,
            Genres::Trivia => 26,
            Genres::Pinball => 30,
            Genres::Adventure => 31,
            Genres::Indie => 32,
            Genres::Arcade => 33,
            Genres::VisualNovel => 34,
            Genres::CardAndBoardGame => 35,
            Genres::MOBA => 36,
        }
    }

    /// The catalog id of this genre.
    pub fn id(self) -> (r: u64)
        ensures
            r == self.spec_id(),
    {
        match self {
            Genres::PointAndClick => 2,
            Genres::Fighting => 4,
            Genres::Shooter => 5,
            Genres::Music => 7,
            Genres::Platform => 8,
            Genres::Puzzle => 9,
            Genres::Racing => 10,
            Genres::RTS => 11,
            Genres::RPG => 12,
            Genres::Simulator => 13,
            Genres::Sport => 14,
            Genres::Strategy => 15,
            Genres::TBS => 16,
            Genres::Tactical => 24,
            Genres::HackNSlash => 25,
            Genres::Trivia => 26,
            Genres::Pinball => 30,
            Genres::Adventure => 31,
            Genres::Indie => 32,
            Genres::Arcade => 33,
            Genres::VisualNovel => 34,
            Genres::CardAndBoardGame => 35,
            Genres::MOBA => 36,
        }
    }
}

impl Themes {
    /// The catalog id of this theme.
    pub open spec fn spec_id(self) -> u64 {
        match self {
            Themes::Action => 1,
            Themes::Fantasy => 17,
            Themes::SciFi => 18,
            Themes::Horror => 19,
            Themes::Thriller => 20,
            Themes::Survival => 21,
            Themes::Historical => 22,
            Themes::Stealth => 23,
            Themes::Comedy => 27,
            Themes::Business => 28,
            Themes::Drama => 31,
            Themes::NonFiction => 32,
            Themes::Sandbox => 33,
            Themes::Educational => 34,
            Themes::Kids => 35,
            Themes::OpenWorld => 38,
            Themes::Warfare => 39,
            Themes::Party => 40,
            Themes::FourX => 41,
            Themes::Erotic => 42,
            Themes::Mystery => 43,
            Themes::Romance => 44,
        }
    }

    /// The catalog id of this theme.
    pub fn id(self) -> (r: u64)
        ensures
            r == self.spec_id(),
    {
        match self {
            Themes::Action => 1,
            Themes::Fantasy => 17,
            Themes::SciFi => 18,
            Themes::Horror => 19,
            Themes::Thriller => 20,
            Themes::Survival => 21,
            Themes::Historical => 22,
            Themes::Stealth => 23,
            Themes::Comedy => 27,
            Themes::Business => 28,
            Themes::Drama => 31,
            Themes::NonFiction => 32,
            Themes::Sandbox => 33,
            Themes::Educational => 34,
            Themes::Kids => 35,
            Themes::OpenWorld => 38,
            Themes::Warfare => 39,
            Themes::Party => 40,
            Themes::FourX => 41,
            Themes::Erotic => 42,
            Themes::Mystery => 43,
            Themes::Romance => 44,
        }
    }
}

impl PlayerPerspective {
    /// The catalog id of this player perspective.
    pub open spec fn spec_id(self) -> u64 {
        match self {
            PlayerPerspective::FirstPerson => 1,
            PlayerPerspective::ThirdPerson => 2,
            PlayerPerspective::Isometric => 3,
            PlayerPerspective::SideView => 4,
            PlayerPerspective::Text => 5,
            PlayerPerspective::Auditory => 6,
            PlayerPerspective::VR => 7,
        }
    }

    /// The catalog id of this player perspective.
    pub fn id(self) -> (r: u64)
        ensures
            r == self.spec_id(),
    {
        match self {
            PlayerPerspective::FirstPerson => 1,
            PlayerPerspective::ThirdPerson => 2,
            PlayerPerspective::Isometric => 3,
            PlayerPerspective::SideView => 4,
            PlayerPerspective::Text => 5,
            PlayerPerspective::Auditory => 6,
            PlayerPerspective::VR => 7,
        }
    }
}

/// The ordered id list of every genre, in declaration order.
pub open spec fn genre_id_seq() -> Seq<u64> {
    seq![2u64, 4, 5, 7, 8, 9, 10, 11, 12, 13, 14, 15, 16, 24, 25, 26, 30, 31, 32, 33, 34, 35, 36]
}

/// The ordered id list of every theme, in declaration order.
pub open spec fn theme_id_seq() -> Seq<u64> {
    seq![1u64, 17, 18, 19, 20, 21, 22, 23, 27, 28, 31, 32, 33, 34, 35, 38, 39, 40, 41, 42, 43, 44]
}

/// The ordered id list of every player perspective, in declaration order.
pub open spec fn perspective_id_seq() -> Seq<u64> {
    seq![1u64, 2, 3, 4, 5, 6, 7]
}

/// The ids of all genres, in declaration order.
pub fn genre_ids() -> (r: Vec<u64>)
    ensures
        r@ == genre_id_seq(),
{
    let r = vec![
        Genres::PointAndClick.id(),
        Genres::Fighting.id(),
        Genres::Shooter.id(),
        Genres::Music.id(),
        Genres::Platform.id(),
        Genres::Puzzle.id(),
        Genres::Racing.id(),
        Genres::RTS.id(),
        Genres::RPG.id(),
        Genres::Simulator.id(),
        Genres::Sport.id(),
        Genres::Strategy.id(),
        Genres::TBS.id(),
        Genres::Tactical.id(),
        Genres::HackNSlash.id(),
        Genres::Trivia.id(),
        Genres::Pinball.id(),
        Genres::Adventure.id(),
        Genres::Indie.id(),
        Genres::Arcade.id(),
        Genres::VisualNovel.id(),
        Genres::CardAndBoardGame.id(),
        Genres::MOBA.id(),
    ];
    proof {
        assert(r@ =~= genre_id_seq());
    }
    r
}

/// The ids of all themes, in declaration order.
pub fn theme_ids() -> (r: Vec<u64>)
    ensures
        r@ == theme_id_seq(),
{
    let r = vec![
        Themes::Action.id(),
        Themes::Fantasy.id(),
        Themes::SciFi.id(),
        Themes::Horror.id(),
        Themes::Thriller.id(),
        Themes::Survival.id(),
        Themes::Historical.id(),
        Themes::Stealth.id(),
        Themes::Comedy.id(),
        Themes::Business.id(),
        Themes::Drama.id(),
        Themes::NonFiction.id(),
        Themes::Sandbox.id(),
        Themes::Educational.id(),
        Themes::Kids.id(),
        Themes::OpenWorld.id(),
        Themes::Warfare.id(),
        Themes::Party.id(),
        Themes::FourX.id(),
        Themes::Erotic.id(),
        Themes::Mystery.id(),
        Themes::Romance.id(),
    ];
    proof {
        assert(r@ =~= theme_id_seq());
    }
    r
}

/// The ids of all player perspectives, in declaration order.
pub fn perspective_ids() -> (r: Vec<u64>)
    ensures
        r@ == perspective_id_seq(),
{
    let r = vec![
        PlayerPerspective::FirstPerson.id(),
        PlayerPerspective::ThirdPerson.id(),
        PlayerPerspective::Isometric.id(),
        PlayerPerspective::SideView.id(),
        PlayerPerspective::Text.id(),
        PlayerPerspective::Auditory.id(),
        PlayerPerspective::VR.id(),
    ];
    proof {
        assert(r@ =~= perspective_id_seq());
    }
    r
}

} // verus!
