use vstd::prelude::*;
use vstd::string::*;

verus! {

/// Number of distinct `Character` variants, `Unknown` included.
pub const ROSTER_SIZE: usize = 34;

/// Closed roster of fighters and other playable entities; any id outside the
/// known range maps to `Unknown` rather than failing.
#[derive(Debug, Clone, Copy, PartialEq, Eq, Structural)]
pub enum Character {
    CaptainFalcon,
    DonkeyKong,
    Fox,
    MrGameAndWatch,
    Kirby,
    Bowser,
    Link,
    Luigi,
    Mario,
    Marth,
    Mewtwo,
    Ness,
    Peach,
    Pikachu,
    IceClimbers,
    Jigglypuff,
    Samus,
    Yoshi,
    Zelda,
    Sheik,
    Falco,
    YoungLink,
    DrMario,
    Roy,
    Pichu,
    Ganondorf,
    MasterHand,
    MaleWireframe,
    FemaleWireframe,
    GigaBowser,
    CrazyHand,
    Sandbag,
    Popo,
    Unknown,
}

impl Character {
    /// Total mapping from a raw character id to the roster: ids 0 through 32
    /// name a character, every other id is `Unknown`.
    pub open spec fn spec_from_id(id: u8) -> Character {
        match id {
            0u8 => Character::CaptainFalcon,
            1u8 => Character::DonkeyKong,
            2u8 => Character::Fox,
            3u8 => Character::MrGameAndWatch,
            4u8 => Character::Kirby,
            5u8 => Character::Bowser,
            6u8 => Character::Link,
            7u8 => Character::Luigi,
            8u8 => Character::Mario,
            9u8 => Character::Marth,
            10u8 => Character::Mewtwo,
            11u8 => Character::Ness,
            12u8 => Character::Peach,
            13u8 => Character::Pikachu,
            14u8 => Character::IceClimbers,
            15u8 => Character::Jigglypuff,
            16u8 => Character::Samus,
            17u8 => Character::Yoshi,
            18u8 => Character::Zelda,
            19u8 => Character::Sheik,
            20u8 => Character::Falco,
            21u8 => Character::YoungLink,
            22u8 => Character::DrMario,
            23u8 => Character::Roy,
            24u8 => Character::Pichu,
            25u8 => Character::Ganondorf,
            26u8 => Character::MasterHand,
            27u8 => Character::MaleWireframe,
            28u8 => Character::FemaleWireframe,
            29u8 => Character::GigaBowser,
            30u8 => Character::CrazyHand,
            31u8 => Character::Sandbag,
            32u8 => Character::Popo,
            _ => Character::Unknown,
        }
    }

    /// Display name of the character, as it appears in reports.
    pub open spec fn spec_name(self) -> Seq<char> {
        match self {
            Character::CaptainFalcon => "Captain Falcon"@,
            Character::DonkeyKong => "Donkey Kong"@,
            Character::Fox => "Fox"@,
            Character::MrGameAndWatch => "Mr. Game and Watch"@,
            Character::Kirby => "Kirby"@,
            Character::Bowser => "Bowser"@,
            Character::Link => "Link"@,
            Character::Luigi => "Luigi"@,
            Character::Mario => "Mario"@,
            Character::Marth => "Marth"@,
            Character::Mewtwo => "Mewtwo"@,
            Character::Ness => "Ness"@,
            Character::Peach => "Peach"@,
            Character::Pikachu => "Pikachu"@,
            Character::IceClimbers => "Ice Climbers"@,
            Character::Jigglypuff => "Jigglypuff"@,
            Character::Samus => "Samus"@,
            Character::Yoshi => "Yoshi"@,
            Character::Zelda => "Zelda"@,
            Character::Sheik => "Sheik"@,
            Character::Falco => "Falco"@,
            Character::YoungLink => "Young Link"@,
            Character::DrMario => "Dr. Mario"@,
            Character::Roy => "Roy"@,
            Character::Pichu => "Pichu"@,
            Character::Ganondorf => "Ganondorf"@,
            Character::MasterHand => "Master Hand"@,
            Character::MaleWireframe => "Male Wireframe"@,
            Character::FemaleWireframe => "Female Wireframe"@,
            Character::GigaBowser => "Giga Bowser"@,
            Character::CrazyHand => "Crazy Hand"@,
            Character::Sandbag => "Sandbag"@,
            Character::Popo => "Popo"@,
            Character::Unknown => "UNKNOWN"@,
        }
    }

    pub fn name(&self) -> (s: String)
        ensures
            s@ == self.spec_name(),
    {
        match self {
            Character::CaptainFalcon => String::from_str("Captain Falcon"),
            Character::DonkeyKong => String::from_str("Donkey Kong"),
            Character::Fox => String::from_str("Fox"),
            Character::MrGameAndWatch => String::from_str("Mr. Game and Watch"),
            Character::Kirby => String::from_str("Kirby"),
            Character::Bowser => String::from_str("Bowser"),
            Character::Link => String::from_str("Link"),
            Character::Luigi => String::from_str("Luigi"),
            Character::Mario => String::from_str("Mario"),
            Character::Marth => String::from_str("Marth"),
            Character::Mewtwo => String::from_str("Mewtwo"),
            Character::Ness => String::from_str("Ness"),
            Character::Peach => String::from_str("Peach"),
            Character::Pikachu => String::from_str("Pikachu"),
            Character::IceClimbers => String::from_str("Ice Climbers"),
            Character::Jigglypuff => String::from_str("Jigglypuff"),
            Character::Samus => String::from_str("Samus"),
            Character::Yoshi => String::from_str("Yoshi"),
            Character::Zelda => String::from_str("Zelda"),
            Character::Sheik => String::from_str("Sheik"),
            Character::Falco => String::from_str("Falco"),
            Character::YoungLink => String::from_str("Young Link"),
            Character::DrMario => String::from_str("Dr. Mario"),
            Character::Roy => String::from_str("Roy"),
            Character::Pichu => String::from_str("Pichu"),
            Character::Ganondorf => String::from_str("Ganondorf"),
            Character::MasterHand => String::from_str("Master Hand"),
            Character::MaleWireframe => String::from_str("Male Wireframe"),
            Character::FemaleWireframe => String::from_str("Female Wireframe"),
            Character::GigaBowser => String::from_str("Giga Bowser"),
            Character::CrazyHand => String::from_str("Crazy Hand"),
            Character::Sandbag => String::from_str("Sandbag"),
            Character::Popo => String::from_str("Popo"),
            Character::Unknown => String::from_str("UNKNOWN"),
        }
    }

    /// Position of the character in the fixed roster; used to key histograms
    /// and as the final, always-distinct tie-break when ranking.
    pub open spec fn spec_roster_index(self) -> int {
        match self {
            Character::CaptainFalcon => 0,
            Character::DonkeyKong => 1,
            Character::Fox => 2,
            Character::MrGameAndWatch => 3,
            Character::Kirby => 4,
            Character::Bowser => 5,
            Character::Link => 6,
            Character::Luigi => 7,
            Character::Mario => 8,
            Character::Marth => 9,
            Character::Mewtwo => 10,
            Character::Ness => 11,
            Character::Peach => 12,
            Character::Pikachu => 13,
            Character::IceClimbers => 14,
            Character::Jigglypuff => 15,
            Character::Samus => 16,
            Character::Yoshi => 17,
            Character::Zelda => 18,
            Character::Sheik => 19,
            Character::Falco => 20,
            Character::YoungLink => 21,
            Character::DrMario => 22,
            Character::Roy => 23,
            Character::Pichu => 24,
            Character::Ganondorf => 25,
            Character::MasterHand => 26,
            Character::MaleWireframe => 27,
            Character::FemaleWireframe => 28,
            Character::GigaBowser => 29,
            Character::CrazyHand => 30,
            Character::Sandbag => 31,
            Character::Popo => 32,
            Character::Unknown => 33,
        }
    }

    pub fn roster_index(&self) -> (i: usize)
        ensures
            i == self.spec_roster_index(),
            i < ROSTER_SIZE,
    {
        match self {
            Character::CaptainFalcon => 0,
            Character::DonkeyKong => 1,
            Character::Fox => 2,
            Character::MrGameAndWatch => 3,
            Character::Kirby => 4,
            Character::Bowser => 5,
            Character::Link => 6,
            Character::Luigi => 7,
            Character::Mario => 8,
            Character::Marth => 9,
            Character::Mewtwo => 10,
            Character::Ness => 11,
            Character::Peach => 12,
            Character::Pikachu => 13,
            Character::IceClimbers => 14,
            Character::Jigglypuff => 15,
            Character::Samus => 16,
            Character::Yoshi => 17,
            Character::Zelda => 18,
            Character::Sheik => 19,
            Character::Falco => 20,
            Character::YoungLink => 21,
            Character::DrMario => 22,
            Character::Roy => 23,
            Character::Pichu => 24,
            Character::Ganondorf => 25,
            Character::MasterHand => 26,
            Character::MaleWireframe => 27,
            Character::FemaleWireframe => 28,
            Character::GigaBowser => 29,
            Character::CrazyHand => 30,
            Character::Sandbag => 31,
            Character::Popo => 32,
            Character::Unknown => 33,
        }
    }

    /// Recovers the character standing at a given roster position.
    pub open spec fn spec_from_roster_index(i: int) -> Character {
        Character::spec_from_id(if 0 <= i < 33 { i as u8 } else { 33u8 })
    }

    pub fn from_roster_index(i: usize) -> (c: Character)
        requires
            i < ROSTER_SIZE,
        ensures
            c == Character::spec_from_roster_index(i as int),
            c.spec_roster_index() == i,
    {
        let c = if i < 33 {
            Character::from_id(i as u8)
        } else {
            Character::Unknown
        };
        proof {
            Character::lemma_roster_index_bijective();
        }
        c
    }

    /// The roster index determines the character: distinct characters stand
    /// at distinct positions, and every position below `ROSTER_SIZE` is taken.
    pub proof fn lemma_roster_index_bijective()
        ensures
            forall|c: Character| 0 <= #[trigger] c.spec_roster_index() < ROSTER_SIZE,
            forall|c1: Character, c2: Character|
                #[trigger] c1.spec_roster_index() == #[trigger] c2.spec_roster_index() ==> c1 == c2,
            forall|c: Character|
                #[trigger] Character::spec_from_roster_index(c.spec_roster_index()) == c,
    {
    }

    pub fn from_id(id: u8) -> (c: Character)
        ensures
            c == Character::spec_from_id(id),
            33 <= id ==> c == Character::Unknown,
    {
        match id {
            0 => Character::CaptainFalcon,
            1 => Character::DonkeyKong,
            2 => Character::Fox,
            3 => Character::MrGameAndWatch,
            4 => Character::Kirby,
            5 => Character::Bowser,
            6 => Character::Link,
            7 => Character::Luigi,
            8 => Character::Mario,
            9 => Character::Marth,
            10 => Character::Mewtwo,
            11 => Character::Ness,
            12 => Character::Peach,
            13 => Character::Pikachu,
            14 => Character::IceClimbers,
            15 => Character::Jigglypuff,
            16 => Character::Samus,
            17 => Character::Yoshi,
            18 => Character::Zelda,
            19 => Character::Sheik,
            20 => Character::Falco,
            21 => Character::YoungLink,
            22 => Character::DrMario,
            23 => Character::Roy,
            24 => Character::Pichu,
            25 => Character::Ganondorf,
            26 => Character::MasterHand,
            27 => Character::MaleWireframe,
            28 => Character::FemaleWireframe,
            29 => Character::GigaBowser,
            30 => Character::CrazyHand,
            31 => Character::Sandbag,
            32 => Character::Popo,
            _ => Character::Unknown,
        }
    }
}

/// Closed catalog of stages; any id outside the known range maps to
/// `NotStage` rather than failing.
#[derive(Debug, Clone, Copy, PartialEq, Eq, Structural)]
pub enum Stage {
    FountainOfDreams,
    PokemonStadium,
    PeachCastle,
    KongoJungle,
    Brinstar,
    Corneria,
    YoshisStory,
    Onett,
    MuteCity,
    RainbowCruise,
    JungleJapes,
    GreatBay,
    HyruleTemple,
    BrinstarDepths,
    YoshisIsland,
    GreenGreens,
    Fourside,
    MushroomKingdomI,
    MushroomKingdomII,
    Venom,
    PokeFloats,
    BigBlue,
    IcicleMountain,
    Icetop,
    FlatZone,
    DreamLandN64,
    YoshisIslandN64,
    KongoJungleN64,
    Battlefield,
    FinalDestination,
    NotStage,
}

impl Stage {
    /// Total mapping from a raw stage id to the catalog: ids 2 through 32
    /// except 21 name a stage, every other id is `NotStage`.
    pub open spec fn spec_from_id(id: usize) -> Stage {
        match id {
            2usize => Stage::FountainOfDreams,
            3usize => Stage::PokemonStadium,
            4usize => Stage::PeachCastle,
            5usize => Stage::KongoJungle,
            6usize => Stage::Brinstar,
            7usize => Stage::Corneria,
            8usize => Stage::YoshisStory,
            9usize => Stage::Onett,
            10usize => Stage::MuteCity,
            11usize => Stage::RainbowCruise,
            12usize => Stage::JungleJapes,
            13usize => Stage::GreatBay,
            14usize => Stage::HyruleTemple,
            15usize => Stage::BrinstarDepths,
            16usize => Stage::YoshisIsland,
            17usize => Stage::GreenGreens,
            18usize => Stage::Fourside,
            19usize => Stage::MushroomKingdomI,
            20usize => Stage::MushroomKingdomII,
            22usize => Stage::Venom,
            23usize => Stage::PokeFloats,
            24usize => Stage::BigBlue,
            25usize => Stage::IcicleMountain,
            26usize => Stage::Icetop,
            27usize => Stage::FlatZone,
            28usize => Stage::DreamLandN64,
            29usize => Stage::YoshisIslandN64,
            30usize => Stage::KongoJungleN64,
            31usize => Stage::Battlefield,
            32usize => Stage::FinalDestination,
            _ => Stage::NotStage,
        }
    }

    pub fn from_id(id: usize) -> (s: Stage)
        ensures
            s == Stage::spec_from_id(id),
    {
        match id {
            2 => Stage::FountainOfDreams,
            3 => Stage::PokemonStadium,
            4 => Stage::PeachCastle,
            5 => Stage::KongoJungle,
            6 => Stage::Brinstar,
            7 => Stage::Corneria,
            8 => Stage::YoshisStory,
            9 => Stage::Onett,
            10 => Stage::MuteCity,
            11 => Stage::RainbowCruise,
            12 => Stage::JungleJapes,
            13 => Stage::GreatBay,
            14 => Stage::HyruleTemple,
            15 => Stage::BrinstarDepths,
            16 => Stage::YoshisIsland,
            17 => Stage::GreenGreens,
            18 => Stage::Fourside,
            19 => Stage::MushroomKingdomI,
            20 => Stage::MushroomKingdomII,
            22 => Stage::Venom,
            23 => Stage::PokeFloats,
            24 => Stage::BigBlue,
            25 => Stage::IcicleMountain,
            26 => Stage::Icetop,
            27 => Stage::FlatZone,
            28 => Stage::DreamLandN64,
            29 => Stage::YoshisIslandN64,
            30 => Stage::KongoJungleN64,
            31 => Stage::Battlefield,
            32 => Stage::FinalDestination,
            _ => Stage::NotStage,
        }
    }
}

} // verus!
