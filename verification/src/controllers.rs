use vstd::prelude::*;

verus! {

/// The kind of scoreboard controller that feeds the gateway.
#[derive(Debug, Clone, Copy, PartialEq, Eq, Structural)]
pub enum ControllerType {
    Daktronics,
}

/// The sport whose data the gateway relays.
#[derive(Debug, Clone, Copy, PartialEq, Eq, Structural)]
pub enum ActiveSport {
    Baseball,
    Basketball,
    Football,
    Soccer,
    Volleyball,
    Wrestling,
    WaterPolo,
}

/// Every sport, in declaration order.
pub open spec fn all_sports() -> Seq<ActiveSport> {
    seq![
        ActiveSport::Baseball,
        ActiveSport::Basketball,
        ActiveSport::Football,
        ActiveSport::Soccer,
        ActiveSport::Volleyball,
        ActiveSport::Wrestling,
        ActiveSport::WaterPolo,
    ]
}

impl ControllerType {
    /// The sports that a controller of this type can report, in order.
    pub open spec fn spec_compatible_sports(self) -> Seq<ActiveSport> {
        match self {
            ControllerType::Daktronics => all_sports(),
        }
    }

    /// The sports that a controller of this type can report.
    pub fn compatible_sports(self) -> (sports: &'static [ActiveSport])
        ensures
            sports@ == self.spec_compatible_sports(),
    {
        match self {
            ControllerType::Daktronics => ActiveSport::all(),
        }
    }
}

impl ActiveSport {
    /// Every sport, in declaration order.
    pub fn all() -> (sports: &'static [ActiveSport])
        ensures
            sports@ == all_sports(),
    {
        let s: &'static [ActiveSport] = &[
            ActiveSport::Baseball,
            ActiveSport::Basketball,
            ActiveSport::Football,
            ActiveSport::Soccer,
            ActiveSport::Volleyball,
            ActiveSport::Wrestling,
            ActiveSport::WaterPolo,
        ];
        s
    }

    /// The name of the sport in configuration files, forms and status documents.
    pub open spec fn name(self) -> Seq<char> {
        match self {
            ActiveSport::Baseball => "baseball"@,
            ActiveSport::Basketball => "basketball"@,
            ActiveSport::Football => "football"@,
            ActiveSport::Soccer => "soccer"@,
            ActiveSport::Volleyball => "volleyball"@,
            ActiveSport::Wrestling => "wrestling"@,
            ActiveSport::WaterPolo => "water_polo"@,
        }
    }

    /// The name of the sport.
    pub fn as_str(self) -> (s: &'static str)
        ensures
            s@ == self.name(),
    {
        match self {
            ActiveSport::Baseball => "baseball",
            ActiveSport::Basketball => "basketball",
            ActiveSport::Football => "football",
            ActiveSport::Soccer => "soccer",
            ActiveSport::Volleyball => "volleyball",
            ActiveSport::Wrestling => "wrestling",
            ActiveSport::WaterPolo => "water_polo",
        }
    }
}

/// A Daktronics controller reports every sport.
pub proof fn daktronics_supports_every_sport(sport: ActiveSport)
    ensures
        ControllerType::Daktronics.spec_compatible_sports().contains(sport),
{
    let all = all_sports();
    match sport {
        ActiveSport::Baseball => assert(all[0] == sport),
        ActiveSport::Basketball => assert(all[1] == sport),
        ActiveSport::Football => assert(all[2] == sport),
        ActiveSport::Soccer => assert(all[3] == sport),
        ActiveSport::Volleyball => assert(all[4] == sport),
        ActiveSport::Wrestling => assert(all[5] == sport),
        ActiveSport::WaterPolo => assert(all[6] == sport),
    }
}

} // verus!
