use vstd::prelude::*;

verus! {

/// The state of a binary object.
#[derive(Debug, Clone, Copy, PartialEq, Eq, Structural)]
pub enum Binary {
    Off,
    On,
}

impl Binary {
    /// The code on the wire.
    pub open spec fn code(self) -> u32 {
        match self {
            Binary::Off => 0,
            Binary::On => 1,
        }
    }

    /// The value that a code stands for, if it stands for one.
    pub open spec fn of_code(code: u32) -> Option<Binary> {
        if code == 0 {
            Some(Binary::Off)
        } else if code == 1 {
            Some(Binary::On)
        } else {
            None
        }
    }

    /// The code on the wire.
    pub fn to_u32(self) -> (code: u32)
        ensures
            code == self.code(),
            Binary::of_code(code) == Some(self),
    {
        match self {
            Binary::Off => 0,
            Binary::On => 1,
        }
    }

    /// The value that a code stands for, if it stands for one.
    pub fn from_u32(code: u32) -> (value: Option<Binary>)
        ensures
            value == Binary::of_code(code),
            value matches Some(v) ==> v.code() == code,
    {
        match code {
            0 => Some(Binary::Off),
            1 => Some(Binary::On),
            _ => None,
        }
    }
}

/// The unit of measurement of a value: the units that the standard numbers
/// from 0 to 254 and from 47808 on. Any other number stays a raw code.
#[derive(Debug, Clone, Copy, PartialEq, Eq, Structural)]
pub enum EngineeringUnits {
    SquareMeters,
    SquareFeet,
    Milliamperes,
    Amperes,
    Ohms,
    Volts,
    Kilovolts,
    Megavolts,
    VoltAmperes,
    KilovoltAmperes,
    MegavoltAmperes,
    VoltAmperesReactive,
    KilovoltAmperesReactive,
    MegavoltAmperesReactive,
    DegreesPhase,
    PowerFactor,
    Joules,
    Kilojoules,
    WattHours,
    KilowattHours,
    Btus,
    Therms,
    TonHours,
    JoulesPerKilogramDryAir,
    BtusPerPoundDryAir,
    CyclesPerHour,
    CyclesPerMinute,
    Hertz,
    GramsOfWaterPerKilogramDryAir,
    PercentRelativeHumidity,
    Millimeters,
    Meters,
    Inches,
    Feet,
    WattsPerSquareFoot,
    WattsPerSquareMeter,
    Lumens,
    Luxes,
    FootCandles,
    Kilograms,
    PoundsMass,
    Tons,
    KilogramsPerSecond,
    KilogramsPerMinute,
    KilogramsPerHour,
    PoundsMassPerMinute,
    PoundsMassPerHour,
    Watts,
    Kilowatts,
    Megawatts,
    BtusPerHour,
    Horsepower,
    TonsRefrigeration,
    Pascals,
    Kilopascals,
    Bars,
    PoundsForcePerSquareInch,
    CentimetersOfWater,
    InchesOfWater,
    MillimetersOfMercury,
    CentimetersOfMercury,
    InchesOfMercury,
    DegreesCelsius,
    DegreesKelvin,
    DegreesFahrenheit,
    DegreeDaysCelsius,
    DegreeDaysFahrenheit,
    Years,
    Months,
    Weeks,
    Days,
    Hours,
    Minutes,
    Seconds,
    MetersPerSecond,
    KilometersPerHour,
    FeetPerSecond,
    FeetPerMinute,
    MilesPerHour,
    CubicFeet,
    CubicMeters,
    ImperialGallons,
    Liters,
    UsGallons,
    CubicFeetPerMinute,
    CubicMetersPerSecond,
    ImperialGallonsPerMinute,
    LitersPerSecond,
    LitersPerMinute,
    UsGallonsPerMinute,
    DegreesAngular,
    DegreesCelsiusPerHour,
    DegreesCelsiusPerMinute,
    DegreesFahrenheitPerHour,
    DegreesFahrenheitPerMinute,
    NoUnits,
    PartsPerMillion,
    PartsPerBillion,
    Percent,
    PercentPerSecond,
    PerMinute,
    PerSecond,
    PsiPerDegreeFahrenheit,
    Radians,
    RevolutionsPerMinute,
    Currency1,
    Currency2,
    Currency3,
    Currency4,
    Currency5,
    Currency6,
    Currency7,
    Currency8,
    Currency9,
    Currency10,
    SquareInches,
    SquareCentimeters,
    BtusPerPound,
    Centimeters,
    PoundsMassPerSecond,
    DeltaDegreesFahrenheit,
    DeltaDegreesKelvin,
    Kilohms,
    Megohms,
    Millivolts,
    KilojoulesPerKilogram,
    Megajoules,
    JoulesPerDegreeKelvin,
    JoulesPerKilogramDegreeKelvin,
    Kilohertz,
    Megahertz,
    PerHour,
    Milliwatts,
    Hectopascals,
    Millibars,
    CubicMetersPerHour,
    LitersPerHour,
    KilowattHoursPerSquareMeter,
    KilowattHoursPerSquareFoot,
    MegajoulesPerSquareMeter,
    MegajoulesPerSquareFoot,
    WattsPerSquareMeterDegreeKelvin,
    CubicFeetPerSecond,
    PercentObscurationPerFoot,
    PercentObscurationPerMeter,
    Milliohms,
    MegawattHours,
    KiloBtus,
    MegaBtus,
    KilojoulesPerKilogramDryAir,
    MegajoulesPerKilogramDryAir,
    KilojoulesPerDegreeKelvin,
    MegajoulesPerDegreeKelvin,
    Newton,
    GramsPerSecond,
    GramsPerMinute,
    TonsPerHour,
    KiloBtusPerHour,
    HundredthsSeconds,
    Milliseconds,
    NewtonMeters,
    MillimetersPerSecond,
    MillimetersPerMinute,
    MetersPerMinute,
    MetersPerHour,
    CubicMetersPerMinute,
    MetersPerSecondPerSecond,
    AmperesPerMeter,
    AmperesPerSquareMeter,
    AmpereSquareMeters,
    Farads,
    Henrys,
    OhmMeters,
    Siemens,
    SiemensPerMeter,
    Teslas,
    VoltsPerDegreeKelvin,
    VoltsPerMeter,
    Webers,
    Candelas,
    CandelasPerSquareMeter,
    DegreesKelvinPerHour,
    DegreesKelvinPerMinute,
    JouleSeconds,
    RadiansPerSecond,
    SquareMetersPerNewton,
    KilogramsPerCubicMeter,
    NewtonSeconds,
    NewtonsPerMeter,
    WattsPerMeterPerDegreeKelvin,
    Microsiemens,
    CubicFeetPerHour,
    UsGallonsPerHour,
    Kilometers,
    Micrometers,
    Grams,
    Milligrams,
    Milliliters,
    MillilitersPerSecond,
    Decibels,
    DecibelsMillivolt,
    DecibelsVolt,
    Millisiemens,
    WattHoursReactive,
    KilowattHoursReactive,
    MegawattHoursReactive,
    MillimetersOfWater,
    PerMille,
    GramsPerGram,
    KilogramsPerKilogram,
    GramsPerKilogram,
    MilligramsPerGram,
    MilligramsPerKilogram,
    GramsPerMilliliter,
    GramsPerLiter,
    MilligramsPerLiter,
    MicrogramsPerLiter,
    GramsPerCubicMeter,
    MilligramsPerCubicMeter,
    MicrogramsPerCubicMeter,
    NanogramsPerCubicMeter,
    GramsPerCubicCentimeter,
    Becquerels,
    Kilobecquerels,
    Megabecquerels,
    Gray,
    Milligray,
    Microgray,
    Sieverts,
    Millisieverts,
    Microsieverts,
    MicrosievertsPerHour,
    DecibelsA,
    NephelometricTurbidityUnit,
    Ph,
    GramsPerSquareMeter,
    MinutesPerDegreeKelvin,
    OhmMeterSquaredPerMeter,
    AmpereSeconds,
    VoltAmpereHours,
    KilovoltAmpereHours,
    MegavoltAmpereHours,
    VoltAmpereHoursReactive,
    KilovoltAmpereHoursReactive,
    MegavoltAmpereHoursReactive,
    VoltSquareHours,
    AmpereSquareHours,
    JoulePerHours,
    CubicFeetPerDay,
    CubicMetersPerDay,
    WattHoursPerCubicMeter,
    JoulesPerCubicMeter,
    MolePercent,
    PascalSeconds,
    MillionStandardCubicFeetPerMinute,
    StandardCubicFeetPerDay,
    MillionStandardCubicFeetPerDay,
    ThousandCubicFeetPerDay,
    ThousandStandardCubicFeetPerDay,
    PoundsMassPerDay,
    Millirems,
    MilliremsPerHour,
}

impl EngineeringUnits {
    /// The code on the wire.
    #[verifier::opaque]
    pub open spec fn code(self) -> u32 {
        match self {
            EngineeringUnits::SquareMeters => 0,
            EngineeringUnits::SquareFeet => 1,
            EngineeringUnits::Milliamperes => 2,
            EngineeringUnits::Amperes => 3,
            EngineeringUnits::Ohms => 4,
            EngineeringUnits::Volts => 5,
            EngineeringUnits::Kilovolts => 6,
            EngineeringUnits::Megavolts => 7,
            EngineeringUnits::VoltAmperes => 8,
            EngineeringUnits::KilovoltAmperes => 9,
            EngineeringUnits::MegavoltAmperes => 10,
            EngineeringUnits::VoltAmperesReactive => 11,
            EngineeringUnits::KilovoltAmperesReactive => 12,
            EngineeringUnits::MegavoltAmperesReactive => 13,
            EngineeringUnits::DegreesPhase => 14,
            EngineeringUnits::PowerFactor => 15,
            EngineeringUnits::Joules => 16,
            EngineeringUnits::Kilojoules => 17,
            EngineeringUnits::WattHours => 18,
            EngineeringUnits::KilowattHours => 19,
            EngineeringUnits::Btus => 20,
            EngineeringUnits::Therms => 21,
            EngineeringUnits::TonHours => 22,
            EngineeringUnits::JoulesPerKilogramDryAir => 23,
            EngineeringUnits::BtusPerPoundDryAir => 24,
            EngineeringUnits::CyclesPerHour => 25,
            EngineeringUnits::CyclesPerMinute => 26,
            EngineeringUnits::Hertz => 27,
            EngineeringUnits::GramsOfWaterPerKilogramDryAir => 28,
            EngineeringUnits::PercentRelativeHumidity => 29,
            EngineeringUnits::Millimeters => 30,
            EngineeringUnits::Meters => 31,
            EngineeringUnits::Inches => 32,
            EngineeringUnits::Feet => 33,
            EngineeringUnits::WattsPerSquareFoot => 34,
            EngineeringUnits::WattsPerSquareMeter => 35,
            EngineeringUnits::Lumens => 36,
            EngineeringUnits::Luxes => 37,
            EngineeringUnits::FootCandles => 38,
            EngineeringUnits::Kilograms => 39,
            EngineeringUnits::PoundsMass => 40,
            EngineeringUnits::Tons => 41,
            EngineeringUnits::KilogramsPerSecond => 42,
            EngineeringUnits::KilogramsPerMinute => 43,
            EngineeringUnits::KilogramsPerHour => 44,
            EngineeringUnits::PoundsMassPerMinute => 45,
            EngineeringUnits::PoundsMassPerHour => 46,
            EngineeringUnits::Watts => 47,
            EngineeringUnits::Kilowatts => 48,
            EngineeringUnits::Megawatts => 49,
            EngineeringUnits::BtusPerHour => 50,
            EngineeringUnits::Horsepower => 51,
            EngineeringUnits::TonsRefrigeration => 52,
            EngineeringUnits::Pascals => 53,
            EngineeringUnits::Kilopascals => 54,
            EngineeringUnits::Bars => 55,
            EngineeringUnits::PoundsForcePerSquareInch => 56,
            EngineeringUnits::CentimetersOfWater => 57,
            EngineeringUnits::InchesOfWater => 58,
            EngineeringUnits::MillimetersOfMercury => 59,
            EngineeringUnits::CentimetersOfMercury => 60,
            EngineeringUnits::InchesOfMercury => 61,
            EngineeringUnits::DegreesCelsius => 62,
            EngineeringUnits::DegreesKelvin => 63,
            EngineeringUnits::DegreesFahrenheit => 64,
            EngineeringUnits::DegreeDaysCelsius => 65,
            EngineeringUnits::DegreeDaysFahrenheit => 66,
            EngineeringUnits::Years => 67,
            EngineeringUnits::Months => 68,
            EngineeringUnits::Weeks => 69,
            EngineeringUnits::Days => 70,
            EngineeringUnits::Hours => 71,
            EngineeringUnits::Minutes => 72,
            EngineeringUnits::Seconds => 73,
            EngineeringUnits::MetersPerSecond => 74,
            EngineeringUnits::KilometersPerHour => 75,
            EngineeringUnits::FeetPerSecond => 76,
            EngineeringUnits::FeetPerMinute => 77,
            EngineeringUnits::MilesPerHour => 78,
            EngineeringUnits::CubicFeet => 79,
            EngineeringUnits::CubicMeters => 80,
            EngineeringUnits::ImperialGallons => 81,
            EngineeringUnits::Liters => 82,
            EngineeringUnits::UsGallons => 83,
            EngineeringUnits::CubicFeetPerMinute => 84,
            EngineeringUnits::CubicMetersPerSecond => 85,
            EngineeringUnits::ImperialGallonsPerMinute => 86,
            EngineeringUnits::LitersPerSecond => 87,
            EngineeringUnits::LitersPerMinute => 88,
            EngineeringUnits::UsGallonsPerMinute => 89,
            EngineeringUnits::DegreesAngular => 90,
            EngineeringUnits::DegreesCelsiusPerHour => 91,
            EngineeringUnits::DegreesCelsiusPerMinute => 92,
            EngineeringUnits::DegreesFahrenheitPerHour => 93,
            EngineeringUnits::DegreesFahrenheitPerMinute => 94,
            EngineeringUnits::NoUnits => 95,
            EngineeringUnits::PartsPerMillion => 96,
            EngineeringUnits::PartsPerBillion => 97,
            EngineeringUnits::Percent => 98,
            EngineeringUnits::PercentPerSecond => 99,
            EngineeringUnits::PerMinute => 100,
            EngineeringUnits::PerSecond => 101,
            EngineeringUnits::PsiPerDegreeFahrenheit => 102,
            EngineeringUnits::Radians => 103,
            EngineeringUnits::RevolutionsPerMinute => 104,
            EngineeringUnits::Currency1 => 105,
            EngineeringUnits::Currency2 => 106,
            EngineeringUnits::Currency3 => 107,
            EngineeringUnits::Currency4 => 108,
            EngineeringUnits::Currency5 => 109,
            EngineeringUnits::Currency6 => 110,
            EngineeringUnits::Currency7 => 111,
            EngineeringUnits::Currency8 => 112,
            EngineeringUnits::Currency9 => 113,
            EngineeringUnits::Currency10 => 114,
            EngineeringUnits::SquareInches => 115,
            EngineeringUnits::SquareCentimeters => 116,
            EngineeringUnits::BtusPerPound => 117,
            EngineeringUnits::Centimeters => 118,
            EngineeringUnits::PoundsMassPerSecond => 119,
            EngineeringUnits::DeltaDegreesFahrenheit => 120,
            EngineeringUnits::DeltaDegreesKelvin => 121,
            EngineeringUnits::Kilohms => 122,
            EngineeringUnits::Megohms => 123,
            EngineeringUnits::Millivolts => 124,
            EngineeringUnits::KilojoulesPerKilogram => 125,
            EngineeringUnits::Megajoules => 126,
            EngineeringUnits::JoulesPerDegreeKelvin => 127,
            EngineeringUnits::JoulesPerKilogramDegreeKelvin => 128,
            EngineeringUnits::Kilohertz => 129,
            EngineeringUnits::Megahertz => 130,
            EngineeringUnits::PerHour => 131,
            EngineeringUnits::Milliwatts => 132,
            EngineeringUnits::Hectopascals => 133,
            EngineeringUnits::Millibars => 134,
            EngineeringUnits::CubicMetersPerHour => 135,
            EngineeringUnits::LitersPerHour => 136,
            EngineeringUnits::KilowattHoursPerSquareMeter => 137,
            EngineeringUnits::KilowattHoursPerSquareFoot => 138,
            EngineeringUnits::MegajoulesPerSquareMeter => 139,
            EngineeringUnits::MegajoulesPerSquareFoot => 140,
            EngineeringUnits::WattsPerSquareMeterDegreeKelvin => 141,
            EngineeringUnits::CubicFeetPerSecond => 142,
            EngineeringUnits::PercentObscurationPerFoot => 143,
            EngineeringUnits::PercentObscurationPerMeter => 144,
            EngineeringUnits::Milliohms => 145,
            EngineeringUnits::MegawattHours => 146,
            EngineeringUnits::KiloBtus => 147,
            EngineeringUnits::MegaBtus => 148,
            EngineeringUnits::KilojoulesPerKilogramDryAir => 149,
            EngineeringUnits::MegajoulesPerKilogramDryAir => 150,
            EngineeringUnits::KilojoulesPerDegreeKelvin => 151,
            EngineeringUnits::MegajoulesPerDegreeKelvin => 152,
            EngineeringUnits::Newton => 153,
            EngineeringUnits::GramsPerSecond => 154,
            EngineeringUnits::GramsPerMinute => 155,
            EngineeringUnits::TonsPerHour => 156,
            EngineeringUnits::KiloBtusPerHour => 157,
            EngineeringUnits::HundredthsSeconds => 158,
            EngineeringUnits::Milliseconds => 159,
            EngineeringUnits::NewtonMeters => 160,
            EngineeringUnits::MillimetersPerSecond => 161,
            EngineeringUnits::MillimetersPerMinute => 162,
            EngineeringUnits::MetersPerMinute => 163,
            EngineeringUnits::MetersPerHour => 164,
            EngineeringUnits::CubicMetersPerMinute => 165,
            EngineeringUnits::MetersPerSecondPerSecond => 166,
            EngineeringUnits::AmperesPerMeter => 167,
            EngineeringUnits::AmperesPerSquareMeter => 168,
            EngineeringUnits::AmpereSquareMeters => 169,
            EngineeringUnits::Farads => 170,
            EngineeringUnits::Henrys => 171,
            EngineeringUnits::OhmMeters => 172,
            EngineeringUnits::Siemens => 173,
            EngineeringUnits::SiemensPerMeter => 174,
            EngineeringUnits::Teslas => 175,
            EngineeringUnits::VoltsPerDegreeKelvin => 176,
            EngineeringUnits::VoltsPerMeter => 177,
            EngineeringUnits::Webers => 178,
            EngineeringUnits::Candelas => 179,
            EngineeringUnits::CandelasPerSquareMeter => 180,
            EngineeringUnits::DegreesKelvinPerHour => 181,
            EngineeringUnits::DegreesKelvinPerMinute => 182,
            EngineeringUnits::JouleSeconds => 183,
            EngineeringUnits::RadiansPerSecond => 184,
            EngineeringUnits::SquareMetersPerNewton => 185,
            EngineeringUnits::KilogramsPerCubicMeter => 186,
            EngineeringUnits::NewtonSeconds => 187,
            EngineeringUnits::NewtonsPerMeter => 188,
            EngineeringUnits::WattsPerMeterPerDegreeKelvin => 189,
            EngineeringUnits::Microsiemens => 190,
            EngineeringUnits::CubicFeetPerHour => 191,
            EngineeringUnits::UsGallonsPerHour => 192,
            EngineeringUnits::Kilometers => 193,
            EngineeringUnits::Micrometers => 194,
            EngineeringUnits::Grams => 195,
            EngineeringUnits::Milligrams => 196,
            EngineeringUnits::Milliliters => 197,
            EngineeringUnits::MillilitersPerSecond => 198,
            EngineeringUnits::Decibels => 199,
            EngineeringUnits::DecibelsMillivolt => 200,
            EngineeringUnits::DecibelsVolt => 201,
            EngineeringUnits::Millisiemens => 202,
            EngineeringUnits::WattHoursReactive => 203,
            EngineeringUnits::KilowattHoursReactive => 204,
            EngineeringUnits::MegawattHoursReactive => 205,
            EngineeringUnits::MillimetersOfWater => 206,
            EngineeringUnits::PerMille => 207,
            EngineeringUnits::GramsPerGram => 208,
            EngineeringUnits::KilogramsPerKilogram => 209,
            EngineeringUnits::GramsPerKilogram => 210,
            EngineeringUnits::MilligramsPerGram => 211,
            EngineeringUnits::MilligramsPerKilogram => 212,
            EngineeringUnits::GramsPerMilliliter => 213,
            EngineeringUnits::GramsPerLiter => 214,
            EngineeringUnits::MilligramsPerLiter => 215,
            EngineeringUnits::MicrogramsPerLiter => 216,
            EngineeringUnits::GramsPerCubicMeter => 217,
            EngineeringUnits::MilligramsPerCubicMeter => 218,
            EngineeringUnits::MicrogramsPerCubicMeter => 219,
            EngineeringUnits::NanogramsPerCubicMeter => 220,
            EngineeringUnits::GramsPerCubicCentimeter => 221,
            EngineeringUnits::Becquerels => 222,
            EngineeringUnits::Kilobecquerels => 223,
            EngineeringUnits::Megabecquerels => 224,
            EngineeringUnits::Gray => 225,
            EngineeringUnits::Milligray => 226,
            EngineeringUnits::Microgray => 227,
            EngineeringUnits::Sieverts => 228,
            EngineeringUnits::Millisieverts => 229,
            EngineeringUnits::Microsieverts => 230,
            EngineeringUnits::MicrosievertsPerHour => 231,
            EngineeringUnits::DecibelsA => 232,
            EngineeringUnits::NephelometricTurbidityUnit => 233,
            EngineeringUnits::Ph => 234,
            EngineeringUnits::GramsPerSquareMeter => 235,
            EngineeringUnits::MinutesPerDegreeKelvin => 236,
            EngineeringUnits::OhmMeterSquaredPerMeter => 237,
            EngineeringUnits::AmpereSeconds => 238,
            EngineeringUnits::VoltAmpereHours => 239,
            EngineeringUnits::KilovoltAmpereHours => 240,
            EngineeringUnits::MegavoltAmpereHours => 241,
            EngineeringUnits::VoltAmpereHoursReactive => 242,
            EngineeringUnits::KilovoltAmpereHoursReactive => 243,
            EngineeringUnits::MegavoltAmpereHoursReactive => 244,
            EngineeringUnits::VoltSquareHours => 245,
            EngineeringUnits::AmpereSquareHours => 246,
            EngineeringUnits::JoulePerHours => 247,
            EngineeringUnits::CubicFeetPerDay => 248,
            EngineeringUnits::CubicMetersPerDay => 249,
            EngineeringUnits::WattHoursPerCubicMeter => 250,
            EngineeringUnits::JoulesPerCubicMeter => 251,
            EngineeringUnits::MolePercent => 252,
            EngineeringUnits::PascalSeconds => 253,
            EngineeringUnits::MillionStandardCubicFeetPerMinute => 254,
            EngineeringUnits::StandardCubicFeetPerDay => 47808,
            EngineeringUnits::MillionStandardCubicFeetPerDay => 47809,
            EngineeringUnits::ThousandCubicFeetPerDay => 47810,
            EngineeringUnits::ThousandStandardCubicFeetPerDay => 47811,
            EngineeringUnits::PoundsMassPerDay => 47812,
            EngineeringUnits::Millirems => 47814,
            EngineeringUnits::MilliremsPerHour => 47815,
        }
    }

    /// The unit that a code from 0 to 63 stands for, if it stands for one.
    pub open spec fn of_code_up_to_63(code: u32) -> Option<EngineeringUnits> {
        if code == 0 {
            Some(EngineeringUnits::SquareMeters)
        } else if code == 1 {
            Some(EngineeringUnits::SquareFeet)
        } else if code == 2 {
            Some(EngineeringUnits::Milliamperes)
        } else if code == 3 {
            Some(EngineeringUnits::Amperes)
        } else if code == 4 {
            Some(EngineeringUnits::Ohms)
        } else if code == 5 {
            Some(EngineeringUnits::Volts)
        } else if code == 6 {
            Some(EngineeringUnits::Kilovolts)
        } else if code == 7 {
            Some(EngineeringUnits::Megavolts)
        } else if code == 8 {
            Some(EngineeringUnits::VoltAmperes)
        } else if code == 9 {
            Some(EngineeringUnits::KilovoltAmperes)
        } else if code == 10 {
            Some(EngineeringUnits::MegavoltAmperes)
        } else if code == 11 {
            Some(EngineeringUnits::VoltAmperesReactive)
        } else if code == 12 {
            Some(EngineeringUnits::KilovoltAmperesReactive)
        } else if code == 13 {
            Some(EngineeringUnits::MegavoltAmperesReactive)
        } else if code == 14 {
            Some(EngineeringUnits::DegreesPhase)
        } else if code == 15 {
            Some(EngineeringUnits::PowerFactor)
        } else if code == 16 {
            Some(EngineeringUnits::Joules)
        } else if code == 17 {
            Some(EngineeringUnits::Kilojoules)
        } else if code == 18 {
            Some(EngineeringUnits::WattHours)
        } else if code == 19 {
            Some(EngineeringUnits::KilowattHours)
        } else if code == 20 {
            Some(EngineeringUnits::Btus)
        } else if code == 21 {
            Some(EngineeringUnits::Therms)
        } else if code == 22 {
            Some(EngineeringUnits::TonHours)
        } else if code == 23 {
            Some(EngineeringUnits::JoulesPerKilogramDryAir)
        } else if code == 24 {
            Some(EngineeringUnits::BtusPerPoundDryAir)
        } else if code == 25 {
            Some(EngineeringUnits::CyclesPerHour)
        } else if code == 26 {
            Some(EngineeringUnits::CyclesPerMinute)
        } else if code == 27 {
            Some(EngineeringUnits::Hertz)
        } else if code == 28 {
            Some(EngineeringUnits::GramsOfWaterPerKilogramDryAir)
        } else if code == 29 {
            Some(EngineeringUnits::PercentRelativeHumidity)
        } else if code == 30 {
            Some(EngineeringUnits::Millimeters)
        } else if code == 31 {
            Some(EngineeringUnits::Meters)
        } else if code == 32 {
            Some(EngineeringUnits::Inches)
        } else if code == 33 {
            Some(EngineeringUnits::Feet)
        } else if code == 34 {
            Some(EngineeringUnits::WattsPerSquareFoot)
        } else if code == 35 {
            Some(EngineeringUnits::WattsPerSquareMeter)
        } else if code == 36 {
            Some(EngineeringUnits::Lumens)
        } else if code == 37 {
            Some(EngineeringUnits::Luxes)
        } else if code == 38 {
            Some(EngineeringUnits::FootCandles)
        } else if code == 39 {
            Some(EngineeringUnits::Kilograms)
        } else if code == 40 {
            Some(EngineeringUnits::PoundsMass)
        } else if code == 41 {
            Some(EngineeringUnits::Tons)
        } else if code == 42 {
            Some(EngineeringUnits::KilogramsPerSecond)
        } else if code == 43 {
            Some(EngineeringUnits::KilogramsPerMinute)
        } else if code == 44 {
            Some(EngineeringUnits::KilogramsPerHour)
        } else if code == 45 {
            Some(EngineeringUnits::PoundsMassPerMinute)
        } else if code == 46 {
            Some(EngineeringUnits::PoundsMassPerHour)
        } else if code == 47 {
            Some(EngineeringUnits::Watts)
        } else if code == 48 {
            Some(EngineeringUnits::Kilowatts)
        } else if code == 49 {
            Some(EngineeringUnits::Megawatts)
        } else if code == 50 {
            Some(EngineeringUnits::BtusPerHour)
        } else if code == 51 {
            Some(EngineeringUnits::Horsepower)
        } else if code == 52 {
            Some(EngineeringUnits::TonsRefrigeration)
        } else if code == 53 {
            Some(EngineeringUnits::Pascals)
        } else if code == 54 {
            Some(EngineeringUnits::Kilopascals)
        } else if code == 55 {
            Some(EngineeringUnits::Bars)
        } else if code == 56 {
            Some(EngineeringUnits::PoundsForcePerSquareInch)
        } else if code == 57 {
            Some(EngineeringUnits::CentimetersOfWater)
        } else if code == 58 {
            Some(EngineeringUnits::InchesOfWater)
        } else if code == 59 {
            Some(EngineeringUnits::MillimetersOfMercury)
        } else if code == 60 {
            Some(EngineeringUnits::CentimetersOfMercury)
        } else if code == 61 {
            Some(EngineeringUnits::InchesOfMercury)
        } else if code == 62 {
            Some(EngineeringUnits::DegreesCelsius)
        } else if code == 63 {
            Some(EngineeringUnits::DegreesKelvin)
        } else {
            None
        }
    }

    /// The unit that a code from 64 to 127 stands for, if it stands for one.
    pub open spec fn of_code_up_to_127(code: u32) -> Option<EngineeringUnits> {
        if code == 64 {
            Some(EngineeringUnits::DegreesFahrenheit)
        } else if code == 65 {
            Some(EngineeringUnits::DegreeDaysCelsius)
        } else if code == 66 {
            Some(EngineeringUnits::DegreeDaysFahrenheit)
        } else if code == 67 {
            Some(EngineeringUnits::Years)
        } else if code == 68 {
            Some(EngineeringUnits::Months)
        } else if code == 69 {
            Some(EngineeringUnits::Weeks)
        } else if code == 70 {
            Some(EngineeringUnits::Days)
        } else if code == 71 {
            Some(EngineeringUnits::Hours)
        } else if code == 72 {
            Some(EngineeringUnits::Minutes)
        } else if code == 73 {
            Some(EngineeringUnits::Seconds)
        } else if code == 74 {
            Some(EngineeringUnits::MetersPerSecond)
        } else if code == 75 {
            Some(EngineeringUnits::KilometersPerHour)
        } else if code == 76 {
            Some(EngineeringUnits::FeetPerSecond)
        } else if code == 77 {
            Some(EngineeringUnits::FeetPerMinute)
        } else if code == 78 {
            Some(EngineeringUnits::MilesPerHour)
        } else if code == 79 {
            Some(EngineeringUnits::CubicFeet)
        } else if code == 80 {
            Some(EngineeringUnits::CubicMeters)
        } else if code == 81 {
            Some(EngineeringUnits::ImperialGallons)
        } else if code == 82 {
            Some(EngineeringUnits::Liters)
        } else if code == 83 {
            Some(EngineeringUnits::UsGallons)
        } else if code == 84 {
            Some(EngineeringUnits::CubicFeetPerMinute)
        } else if code == 85 {
            Some(EngineeringUnits::CubicMetersPerSecond)
        } else if code == 86 {
            Some(EngineeringUnits::ImperialGallonsPerMinute)
        } else if code == 87 {
            Some(EngineeringUnits::LitersPerSecond)
        } else if code == 88 {
            Some(EngineeringUnits::LitersPerMinute)
        } else if code == 89 {
            Some(EngineeringUnits::UsGallonsPerMinute)
        } else if code == 90 {
            Some(EngineeringUnits::DegreesAngular)
        } else if code == 91 {
            Some(EngineeringUnits::DegreesCelsiusPerHour)
        } else if code == 92 {
            Some(EngineeringUnits::DegreesCelsiusPerMinute)
        } else if code == 93 {
            Some(EngineeringUnits::DegreesFahrenheitPerHour)
        } else if code == 94 {
            Some(EngineeringUnits::DegreesFahrenheitPerMinute)
        } else if code == 95 {
            Some(EngineeringUnits::NoUnits)
        } else if code == 96 {
            Some(EngineeringUnits::PartsPerMillion)
        } else if code == 97 {
            Some(EngineeringUnits::PartsPerBillion)
        } else if code == 98 {
            Some(EngineeringUnits::Percent)
        } else if code == 99 {
            Some(EngineeringUnits::PercentPerSecond)
        } else if code == 100 {
            Some(EngineeringUnits::PerMinute)
        } else if code == 101 {
            Some(EngineeringUnits::PerSecond)
        } else if code == 102 {
            Some(EngineeringUnits::PsiPerDegreeFahrenheit)
        } else if code == 103 {
            Some(EngineeringUnits::Radians)
        } else if code == 104 {
            Some(EngineeringUnits::RevolutionsPerMinute)
        } else if code == 105 {
            Some(EngineeringUnits::Currency1)
        } else if code == 106 {
            Some(EngineeringUnits::Currency2)
        } else if code == 107 {
            Some(EngineeringUnits::Currency3)
        } else if code == 108 {
            Some(EngineeringUnits::Currency4)
        } else if code == 109 {
            Some(EngineeringUnits::Currency5)
        } else if code == 110 {
            Some(EngineeringUnits::Currency6)
        } else if code == 111 {
            Some(EngineeringUnits::Currency7)
        } else if code == 112 {
            Some(EngineeringUnits::Currency8)
        } else if code == 113 {
            Some(EngineeringUnits::Currency9)
        } else if code == 114 {
            Some(EngineeringUnits::Currency10)
        } else if code == 115 {
            Some(EngineeringUnits::SquareInches)
        } else if code == 116 {
            Some(EngineeringUnits::SquareCentimeters)
        } else if code == 117 {
            Some(EngineeringUnits::BtusPerPound)
        } else if code == 118 {
            Some(EngineeringUnits::Centimeters)
        } else if code == 119 {
            Some(EngineeringUnits::PoundsMassPerSecond)
        } else if code == 120 {
            Some(EngineeringUnits::DeltaDegreesFahrenheit)
        } else if code == 121 {
            Some(EngineeringUnits::DeltaDegreesKelvin)
        } else if code == 122 {
            Some(EngineeringUnits::Kilohms)
        } else if code == 123 {
            Some(EngineeringUnits::Megohms)
        } else if code == 124 {
            Some(EngineeringUnits::Millivolts)
        } else if code == 125 {
            Some(EngineeringUnits::KilojoulesPerKilogram)
        } else if code == 126 {
            Some(EngineeringUnits::Megajoules)
        } else if code == 127 {
            Some(EngineeringUnits::JoulesPerDegreeKelvin)
        } else {
            None
        }
    }

    /// The unit that a code from 128 to 191 stands for, if it stands for one.
    pub open spec fn of_code_up_to_191(code: u32) -> Option<EngineeringUnits> {
        if code == 128 {
            Some(EngineeringUnits::JoulesPerKilogramDegreeKelvin)
        } else if code == 129 {
            Some(EngineeringUnits::Kilohertz)
        } else if code == 130 {
            Some(EngineeringUnits::Megahertz)
        } else if code == 131 {
            Some(EngineeringUnits::PerHour)
        } else if code == 132 {
            Some(EngineeringUnits::Milliwatts)
        } else if code == 133 {
            Some(EngineeringUnits::Hectopascals)
        } else if code == 134 {
            Some(EngineeringUnits::Millibars)
        } else if code == 135 {
            Some(EngineeringUnits::CubicMetersPerHour)
        } else if code == 136 {
            Some(EngineeringUnits::LitersPerHour)
        } else if code == 137 {
            Some(EngineeringUnits::KilowattHoursPerSquareMeter)
        } else if code == 138 {
            Some(EngineeringUnits::KilowattHoursPerSquareFoot)
        } else if code == 139 {
            Some(EngineeringUnits::MegajoulesPerSquareMeter)
        } else if code == 140 {
            Some(EngineeringUnits::MegajoulesPerSquareFoot)
        } else if code == 141 {
            Some(EngineeringUnits::WattsPerSquareMeterDegreeKelvin)
        } else if code == 142 {
            Some(EngineeringUnits::CubicFeetPerSecond)
        } else if code == 143 {
            Some(EngineeringUnits::PercentObscurationPerFoot)
        } else if code == 144 {
            Some(EngineeringUnits::PercentObscurationPerMeter)
        } else if code == 145 {
            Some(EngineeringUnits::Milliohms)
        } else if code == 146 {
            Some(EngineeringUnits::MegawattHours)
        } else if code == 147 {
            Some(EngineeringUnits::KiloBtus)
        } else if code == 148 {
            Some(EngineeringUnits::MegaBtus)
        } else if code == 149 {
            Some(EngineeringUnits::KilojoulesPerKilogramDryAir)
        } else if code == 150 {
            Some(EngineeringUnits::MegajoulesPerKilogramDryAir)
        } else if code == 151 {
            Some(EngineeringUnits::KilojoulesPerDegreeKelvin)
        } else if code == 152 {
            Some(EngineeringUnits::MegajoulesPerDegreeKelvin)
        } else if code == 153 {
            Some(EngineeringUnits::Newton)
        } else if code == 154 {
            Some(EngineeringUnits::GramsPerSecond)
        } else if code == 155 {
            Some(EngineeringUnits::GramsPerMinute)
        } else if code == 156 {
            Some(EngineeringUnits::TonsPerHour)
        } else if code == 157 {
            Some(EngineeringUnits::KiloBtusPerHour)
        } else if code == 158 {
            Some(EngineeringUnits::HundredthsSeconds)
        } else if code == 159 {
            Some(EngineeringUnits::Milliseconds)
        } else if code == 160 {
            Some(EngineeringUnits::NewtonMeters)
        } else if code == 161 {
            Some(EngineeringUnits::MillimetersPerSecond)
        } else if code == 162 {
            Some(EngineeringUnits::MillimetersPerMinute)
        } else if code == 163 {
            Some(EngineeringUnits::MetersPerMinute)
        } else if code == 164 {
            Some(EngineeringUnits::MetersPerHour)
        } else if code == 165 {
            Some(EngineeringUnits::CubicMetersPerMinute)
        } else if code == 166 {
            Some(EngineeringUnits::MetersPerSecondPerSecond)
        } else if code == 167 {
            Some(EngineeringUnits::AmperesPerMeter)
        } else if code == 168 {
            Some(EngineeringUnits::AmperesPerSquareMeter)
        } else if code == 169 {
            Some(EngineeringUnits::AmpereSquareMeters)
        } else if code == 170 {
            Some(EngineeringUnits::Farads)
        } else if code == 171 {
            Some(EngineeringUnits::Henrys)
        } else if code == 172 {
            Some(EngineeringUnits::OhmMeters)
        } else if code == 173 {
            Some(EngineeringUnits::Siemens)
        } else if code == 174 {
            Some(EngineeringUnits::SiemensPerMeter)
        } else if code == 175 {
            Some(EngineeringUnits::Teslas)
        } else if code == 176 {
            Some(EngineeringUnits::VoltsPerDegreeKelvin)
        } else if code == 177 {
            Some(EngineeringUnits::VoltsPerMeter)
        } else if code == 178 {
            Some(EngineeringUnits::Webers)
        } else if code == 179 {
            Some(EngineeringUnits::Candelas)
        } else if code == 180 {
            Some(EngineeringUnits::CandelasPerSquareMeter)
        } else if code == 181 {
            Some(EngineeringUnits::DegreesKelvinPerHour)
        } else if code == 182 {
            Some(EngineeringUnits::DegreesKelvinPerMinute)
        } else if code == 183 {
            Some(EngineeringUnits::JouleSeconds)
        } else if code == 184 {
            Some(EngineeringUnits::RadiansPerSecond)
        } else if code == 185 {
            Some(EngineeringUnits::SquareMetersPerNewton)
        } else if code == 186 {
            Some(EngineeringUnits::KilogramsPerCubicMeter)
        } else if code == 187 {
            Some(EngineeringUnits::NewtonSeconds)
        } else if code == 188 {
            Some(EngineeringUnits::NewtonsPerMeter)
        } else if code == 189 {
            Some(EngineeringUnits::WattsPerMeterPerDegreeKelvin)
        } else if code == 190 {
            Some(EngineeringUnits::Microsiemens)
        } else if code == 191 {
            Some(EngineeringUnits::CubicFeetPerHour)
        } else {
            None
        }
    }

    /// The unit that a code from 192 to 254 stands for, if it stands for one.
    pub open spec fn of_code_up_to_254(code: u32) -> Option<EngineeringUnits> {
        if code == 192 {
            Some(EngineeringUnits::UsGallonsPerHour)
        } else if code == 193 {
            Some(EngineeringUnits::Kilometers)
        } else if code == 194 {
            Some(EngineeringUnits::Micrometers)
        } else if code == 195 {
            Some(EngineeringUnits::Grams)
        } else if code == 196 {
            Some(EngineeringUnits::Milligrams)
        } else if code == 197 {
            Some(EngineeringUnits::Milliliters)
        } else if code == 198 {
            Some(EngineeringUnits::MillilitersPerSecond)
        } else if code == 199 {
            Some(EngineeringUnits::Decibels)
        } else if code == 200 {
            Some(EngineeringUnits::DecibelsMillivolt)
        } else if code == 201 {
            Some(EngineeringUnits::DecibelsVolt)
        } else if code == 202 {
            Some(EngineeringUnits::Millisiemens)
        } else if code == 203 {
            Some(EngineeringUnits::WattHoursReactive)
        } else if code == 204 {
            Some(EngineeringUnits::KilowattHoursReactive)
        } else if code == 205 {
            Some(EngineeringUnits::MegawattHoursReactive)
        } else if code == 206 {
            Some(EngineeringUnits::MillimetersOfWater)
        } else if code == 207 {
            Some(EngineeringUnits::PerMille)
        } else if code == 208 {
            Some(EngineeringUnits::GramsPerGram)
        } else if code == 209 {
            Some(EngineeringUnits::KilogramsPerKilogram)
        } else if code == 210 {
            Some(EngineeringUnits::GramsPerKilogram)
        } else if code == 211 {
            Some(EngineeringUnits::MilligramsPerGram)
        } else if code == 212 {
            Some(EngineeringUnits::MilligramsPerKilogram)
        } else if code == 213 {
            Some(EngineeringUnits::GramsPerMilliliter)
        } else if code == 214 {
            Some(EngineeringUnits::GramsPerLiter)
        } else if code == 215 {
            Some(EngineeringUnits::MilligramsPerLiter)
        } else if code == 216 {
            Some(EngineeringUnits::MicrogramsPerLiter)
        } else if code == 217 {
            Some(EngineeringUnits::GramsPerCubicMeter)
        } else if code == 218 {
            Some(EngineeringUnits::MilligramsPerCubicMeter)
        } else if code == 219 {
            Some(EngineeringUnits::MicrogramsPerCubicMeter)
        } else if code == 220 {
            Some(EngineeringUnits::NanogramsPerCubicMeter)
        } else if code == 221 {
            Some(EngineeringUnits::GramsPerCubicCentimeter)
        } else if code == 222 {
            Some(EngineeringUnits::Becquerels)
        } else if code == 223 {
            Some(EngineeringUnits::Kilobecquerels)
        } else if code == 224 {
            Some(EngineeringUnits::Megabecquerels)
        } else if code == 225 {
            Some(EngineeringUnits::Gray)
        } else if code == 226 {
            Some(EngineeringUnits::Milligray)
        } else if code == 227 {
            Some(EngineeringUnits::Microgray)
        } else if code == 228 {
            Some(EngineeringUnits::Sieverts)
        } else if code == 229 {
            Some(EngineeringUnits::Millisieverts)
        } else if code == 230 {
            Some(EngineeringUnits::Microsieverts)
        } else if code == 231 {
            Some(EngineeringUnits::MicrosievertsPerHour)
        } else if code == 232 {
            Some(EngineeringUnits::DecibelsA)
        } else if code == 233 {
            Some(EngineeringUnits::NephelometricTurbidityUnit)
        } else if code == 234 {
            Some(EngineeringUnits::Ph)
        } else if code == 235 {
            Some(EngineeringUnits::GramsPerSquareMeter)
        } else if code == 236 {
            Some(EngineeringUnits::MinutesPerDegreeKelvin)
        } else if code == 237 {
            Some(EngineeringUnits::OhmMeterSquaredPerMeter)
        } else if code == 238 {
            Some(EngineeringUnits::AmpereSeconds)
        } else if code == 239 {
            Some(EngineeringUnits::VoltAmpereHours)
        } else if code == 240 {
            Some(EngineeringUnits::KilovoltAmpereHours)
        } else if code == 241 {
            Some(EngineeringUnits::MegavoltAmpereHours)
        } else if code == 242 {
            Some(EngineeringUnits::VoltAmpereHoursReactive)
        } else if code == 243 {
            Some(EngineeringUnits::KilovoltAmpereHoursReactive)
        } else if code == 244 {
            Some(EngineeringUnits::MegavoltAmpereHoursReactive)
        } else if code == 245 {
            Some(EngineeringUnits::VoltSquareHours)
        } else if code == 246 {
            Some(EngineeringUnits::AmpereSquareHours)
        } else if code == 247 {
            Some(EngineeringUnits::JoulePerHours)
        } else if code == 248 {
            Some(EngineeringUnits::CubicFeetPerDay)
        } else if code == 249 {
            Some(EngineeringUnits::CubicMetersPerDay)
        } else if code == 250 {
            Some(EngineeringUnits::WattHoursPerCubicMeter)
        } else if code == 251 {
            Some(EngineeringUnits::JoulesPerCubicMeter)
        } else if code == 252 {
            Some(EngineeringUnits::MolePercent)
        } else if code == 253 {
            Some(EngineeringUnits::PascalSeconds)
        } else if code == 254 {
            Some(EngineeringUnits::MillionStandardCubicFeetPerMinute)
        } else {
            None
        }
    }

    /// The unit that a code beyond 254 stands for, if it stands for one.
    pub open spec fn of_code_beyond(code: u32) -> Option<EngineeringUnits> {
        if code == 47808 {
            Some(EngineeringUnits::StandardCubicFeetPerDay)
        } else if code == 47809 {
            Some(EngineeringUnits::MillionStandardCubicFeetPerDay)
        } else if code == 47810 {
            Some(EngineeringUnits::ThousandCubicFeetPerDay)
        } else if code == 47811 {
            Some(EngineeringUnits::ThousandStandardCubicFeetPerDay)
        } else if code == 47812 {
            Some(EngineeringUnits::PoundsMassPerDay)
        } else if code == 47814 {
            Some(EngineeringUnits::Millirems)
        } else if code == 47815 {
            Some(EngineeringUnits::MilliremsPerHour)
        } else {
            None
        }
    }

    /// The value that a code stands for, if it stands for one.
    #[verifier::opaque]
    pub open spec fn of_code(code: u32) -> Option<EngineeringUnits> {
        if code < 64 {
            EngineeringUnits::of_code_up_to_63(code)
        } else if code < 128 {
            EngineeringUnits::of_code_up_to_127(code)
        } else if code < 192 {
            EngineeringUnits::of_code_up_to_191(code)
        } else if code < 255 {
            EngineeringUnits::of_code_up_to_254(code)
        } else {
            EngineeringUnits::of_code_beyond(code)
        }
    }

    /// The code on the wire.
    pub fn to_u32(self) -> (code: u32)
        ensures
            code == self.code(),
            EngineeringUnits::of_code(code) == Some(self),
    {
        proof {
            reveal(EngineeringUnits::code);
            reveal(EngineeringUnits::of_code);
        }
        match self {
            EngineeringUnits::SquareMeters => 0,
            EngineeringUnits::SquareFeet => 1,
            EngineeringUnits::Milliamperes => 2,
            EngineeringUnits::Amperes => 3,
            EngineeringUnits::Ohms => 4,
            EngineeringUnits::Volts => 5,
            EngineeringUnits::Kilovolts => 6,
            EngineeringUnits::Megavolts => 7,
            EngineeringUnits::VoltAmperes => 8,
            EngineeringUnits::KilovoltAmperes => 9,
            EngineeringUnits::MegavoltAmperes => 10,
            EngineeringUnits::VoltAmperesReactive => 11,
            EngineeringUnits::KilovoltAmperesReactive => 12,
            EngineeringUnits::MegavoltAmperesReactive => 13,
            EngineeringUnits::DegreesPhase => 14,
            EngineeringUnits::PowerFactor => 15,
            EngineeringUnits::Joules => 16,
            EngineeringUnits::Kilojoules => 17,
            EngineeringUnits::WattHours => 18,
            EngineeringUnits::KilowattHours => 19,
            EngineeringUnits::Btus => 20,
            EngineeringUnits::Therms => 21,
            EngineeringUnits::TonHours => 22,
            EngineeringUnits::JoulesPerKilogramDryAir => 23,
            EngineeringUnits::BtusPerPoundDryAir => 24,
            EngineeringUnits::CyclesPerHour => 25,
            EngineeringUnits::CyclesPerMinute => 26,
            EngineeringUnits::Hertz => 27,
            EngineeringUnits::GramsOfWaterPerKilogramDryAir => 28,
            EngineeringUnits::PercentRelativeHumidity => 29,
            EngineeringUnits::Millimeters => 30,
            EngineeringUnits::Meters => 31,
            EngineeringUnits::Inches => 32,
            EngineeringUnits::Feet => 33,
            EngineeringUnits::WattsPerSquareFoot => 34,
            EngineeringUnits::WattsPerSquareMeter => 35,
            EngineeringUnits::Lumens => 36,
            EngineeringUnits::Luxes => 37,
            EngineeringUnits::FootCandles => 38,
            EngineeringUnits::Kilograms => 39,
            EngineeringUnits::PoundsMass => 40,
            EngineeringUnits::Tons => 41,
            EngineeringUnits::KilogramsPerSecond => 42,
            EngineeringUnits::KilogramsPerMinute => 43,
            EngineeringUnits::KilogramsPerHour => 44,
            EngineeringUnits::PoundsMassPerMinute => 45,
            EngineeringUnits::PoundsMassPerHour => 46,
            EngineeringUnits::Watts => 47,
            EngineeringUnits::Kilowatts => 48,
            EngineeringUnits::Megawatts => 49,
            EngineeringUnits::BtusPerHour => 50,
            EngineeringUnits::Horsepower => 51,
            EngineeringUnits::TonsRefrigeration => 52,
            EngineeringUnits::Pascals => 53,
            EngineeringUnits::Kilopascals => 54,
            EngineeringUnits::Bars => 55,
            EngineeringUnits::PoundsForcePerSquareInch => 56,
            EngineeringUnits::CentimetersOfWater => 57,
            EngineeringUnits::InchesOfWater => 58,
            EngineeringUnits::MillimetersOfMercury => 59,
            EngineeringUnits::CentimetersOfMercury => 60,
            EngineeringUnits::InchesOfMercury => 61,
            EngineeringUnits::DegreesCelsius => 62,
            EngineeringUnits::DegreesKelvin => 63,
            EngineeringUnits::DegreesFahrenheit => 64,
            EngineeringUnits::DegreeDaysCelsius => 65,
            EngineeringUnits::DegreeDaysFahrenheit => 66,
            EngineeringUnits::Years => 67,
            EngineeringUnits::Months => 68,
            EngineeringUnits::Weeks => 69,
            EngineeringUnits::Days => 70,
            EngineeringUnits::Hours => 71,
            EngineeringUnits::Minutes => 72,
            EngineeringUnits::Seconds => 73,
            EngineeringUnits::MetersPerSecond => 74,
            EngineeringUnits::KilometersPerHour => 75,
            EngineeringUnits::FeetPerSecond => 76,
            EngineeringUnits::FeetPerMinute => 77,
            EngineeringUnits::MilesPerHour => 78,
            EngineeringUnits::CubicFeet => 79,
            EngineeringUnits::CubicMeters => 80,
            EngineeringUnits::ImperialGallons => 81,
            EngineeringUnits::Liters => 82,
            EngineeringUnits::UsGallons => 83,
            EngineeringUnits::CubicFeetPerMinute => 84,
            EngineeringUnits::CubicMetersPerSecond => 85,
            EngineeringUnits::ImperialGallonsPerMinute => 86,
            EngineeringUnits::LitersPerSecond => 87,
            EngineeringUnits::LitersPerMinute => 88,
            EngineeringUnits::UsGallonsPerMinute => 89,
            EngineeringUnits::DegreesAngular => 90,
            EngineeringUnits::DegreesCelsiusPerHour => 91,
            EngineeringUnits::DegreesCelsiusPerMinute => 92,
            EngineeringUnits::DegreesFahrenheitPerHour => 93,
            EngineeringUnits::DegreesFahrenheitPerMinute => 94,
            EngineeringUnits::NoUnits => 95,
            EngineeringUnits::PartsPerMillion => 96,
            EngineeringUnits::PartsPerBillion => 97,
            EngineeringUnits::Percent => 98,
            EngineeringUnits::PercentPerSecond => 99,
            EngineeringUnits::PerMinute => 100,
            EngineeringUnits::PerSecond => 101,
            EngineeringUnits::PsiPerDegreeFahrenheit => 102,
            EngineeringUnits::Radians => 103,
            EngineeringUnits::RevolutionsPerMinute => 104,
            EngineeringUnits::Currency1 => 105,
            EngineeringUnits::Currency2 => 106,
            EngineeringUnits::Currency3 => 107,
            EngineeringUnits::Currency4 => 108,
            EngineeringUnits::Currency5 => 109,
            EngineeringUnits::Currency6 => 110,
            EngineeringUnits::Currency7 => 111,
            EngineeringUnits::Currency8 => 112,
            EngineeringUnits::Currency9 => 113,
            EngineeringUnits::Currency10 => 114,
            EngineeringUnits::SquareInches => 115,
            EngineeringUnits::SquareCentimeters => 116,
            EngineeringUnits::BtusPerPound => 117,
            EngineeringUnits::Centimeters => 118,
            EngineeringUnits::PoundsMassPerSecond => 119,
            EngineeringUnits::DeltaDegreesFahrenheit => 120,
            EngineeringUnits::DeltaDegreesKelvin => 121,
            EngineeringUnits::Kilohms => 122,
            EngineeringUnits::Megohms => 123,
            EngineeringUnits::Millivolts => 124,
            EngineeringUnits::KilojoulesPerKilogram => 125,
            EngineeringUnits::Megajoules => 126,
            EngineeringUnits::JoulesPerDegreeKelvin => 127,
            EngineeringUnits::JoulesPerKilogramDegreeKelvin => 128,
            EngineeringUnits::Kilohertz => 129,
            EngineeringUnits::Megahertz => 130,
            EngineeringUnits::PerHour => 131,
            EngineeringUnits::Milliwatts => 132,
            EngineeringUnits::Hectopascals => 133,
            EngineeringUnits::Millibars => 134,
            EngineeringUnits::CubicMetersPerHour => 135,
            EngineeringUnits::LitersPerHour => 136,
            EngineeringUnits::KilowattHoursPerSquareMeter => 137,
            EngineeringUnits::KilowattHoursPerSquareFoot => 138,
            EngineeringUnits::MegajoulesPerSquareMeter => 139,
            EngineeringUnits::MegajoulesPerSquareFoot => 140,
            EngineeringUnits::WattsPerSquareMeterDegreeKelvin => 141,
            EngineeringUnits::CubicFeetPerSecond => 142,
            EngineeringUnits::PercentObscurationPerFoot => 143,
            EngineeringUnits::PercentObscurationPerMeter => 144,
            EngineeringUnits::Milliohms => 145,
            EngineeringUnits::MegawattHours => 146,
            EngineeringUnits::KiloBtus => 147,
            EngineeringUnits::MegaBtus => 148,
            EngineeringUnits::KilojoulesPerKilogramDryAir => 149,
            EngineeringUnits::MegajoulesPerKilogramDryAir => 150,
            EngineeringUnits::KilojoulesPerDegreeKelvin => 151,
            EngineeringUnits::MegajoulesPerDegreeKelvin => 152,
            EngineeringUnits::Newton => 153,
            EngineeringUnits::GramsPerSecond => 154,
            EngineeringUnits::GramsPerMinute => 155,
            EngineeringUnits::TonsPerHour => 156,
            EngineeringUnits::KiloBtusPerHour => 157,
            EngineeringUnits::HundredthsSeconds => 158,
            EngineeringUnits::Milliseconds => 159,
            EngineeringUnits::NewtonMeters => 160,
            EngineeringUnits::MillimetersPerSecond => 161,
            EngineeringUnits::MillimetersPerMinute => 162,
            EngineeringUnits::MetersPerMinute => 163,
            EngineeringUnits::MetersPerHour => 164,
            EngineeringUnits::CubicMetersPerMinute => 165,
            EngineeringUnits::MetersPerSecondPerSecond => 166,
            EngineeringUnits::AmperesPerMeter => 167,
            EngineeringUnits::AmperesPerSquareMeter => 168,
            EngineeringUnits::AmpereSquareMeters => 169,
            EngineeringUnits::Farads => 170,
            EngineeringUnits::Henrys => 171,
            EngineeringUnits::OhmMeters => 172,
            EngineeringUnits::Siemens => 173,
            EngineeringUnits::SiemensPerMeter => 174,
            EngineeringUnits::Teslas => 175,
            EngineeringUnits::VoltsPerDegreeKelvin => 176,
            EngineeringUnits::VoltsPerMeter => 177,
            EngineeringUnits::Webers => 178,
            EngineeringUnits::Candelas => 179,
            EngineeringUnits::CandelasPerSquareMeter => 180,
            EngineeringUnits::DegreesKelvinPerHour => 181,
            EngineeringUnits::DegreesKelvinPerMinute => 182,
            EngineeringUnits::JouleSeconds => 183,
            EngineeringUnits::RadiansPerSecond => 184,
            EngineeringUnits::SquareMetersPerNewton => 185,
            EngineeringUnits::KilogramsPerCubicMeter => 186,
            EngineeringUnits::NewtonSeconds => 187,
            EngineeringUnits::NewtonsPerMeter => 188,
            EngineeringUnits::WattsPerMeterPerDegreeKelvin => 189,
            EngineeringUnits::Microsiemens => 190,
            EngineeringUnits::CubicFeetPerHour => 191,
            EngineeringUnits::UsGallonsPerHour => 192,
            EngineeringUnits::Kilometers => 193,
            EngineeringUnits::Micrometers => 194,
            EngineeringUnits::Grams => 195,
            EngineeringUnits::Milligrams => 196,
            EngineeringUnits::Milliliters => 197,
            EngineeringUnits::MillilitersPerSecond => 198,
            EngineeringUnits::Decibels => 199,
            EngineeringUnits::DecibelsMillivolt => 200,
            EngineeringUnits::DecibelsVolt => 201,
            EngineeringUnits::Millisiemens => 202,
            EngineeringUnits::WattHoursReactive => 203,
            EngineeringUnits::KilowattHoursReactive => 204,
            EngineeringUnits::MegawattHoursReactive => 205,
            EngineeringUnits::MillimetersOfWater => 206,
            EngineeringUnits::PerMille => 207,
            EngineeringUnits::GramsPerGram => 208,
            EngineeringUnits::KilogramsPerKilogram => 209,
            EngineeringUnits::GramsPerKilogram => 210,
            EngineeringUnits::MilligramsPerGram => 211,
            EngineeringUnits::MilligramsPerKilogram => 212,
            EngineeringUnits::GramsPerMilliliter => 213,
            EngineeringUnits::GramsPerLiter => 214,
            EngineeringUnits::MilligramsPerLiter => 215,
            EngineeringUnits::MicrogramsPerLiter => 216,
            EngineeringUnits::GramsPerCubicMeter => 217,
            EngineeringUnits::MilligramsPerCubicMeter => 218,
            EngineeringUnits::MicrogramsPerCubicMeter => 219,
            EngineeringUnits::NanogramsPerCubicMeter => 220,
            EngineeringUnits::GramsPerCubicCentimeter => 221,
            EngineeringUnits::Becquerels => 222,
            EngineeringUnits::Kilobecquerels => 223,
            EngineeringUnits::Megabecquerels => 224,
            EngineeringUnits::Gray => 225,
            EngineeringUnits::Milligray => 226,
            EngineeringUnits::Microgray => 227,
            EngineeringUnits::Sieverts => 228,
            EngineeringUnits::Millisieverts => 229,
            EngineeringUnits::Microsieverts => 230,
            EngineeringUnits::MicrosievertsPerHour => 231,
            EngineeringUnits::DecibelsA => 232,
            EngineeringUnits::NephelometricTurbidityUnit => 233,
            EngineeringUnits::Ph => 234,
            EngineeringUnits::GramsPerSquareMeter => 235,
            EngineeringUnits::MinutesPerDegreeKelvin => 236,
            EngineeringUnits::OhmMeterSquaredPerMeter => 237,
            EngineeringUnits::AmpereSeconds => 238,
            EngineeringUnits::VoltAmpereHours => 239,
            EngineeringUnits::KilovoltAmpereHours => 240,
            EngineeringUnits::MegavoltAmpereHours => 241,
            EngineeringUnits::VoltAmpereHoursReactive => 242,
            EngineeringUnits::KilovoltAmpereHoursReactive => 243,
            EngineeringUnits::MegavoltAmpereHoursReactive => 244,
            EngineeringUnits::VoltSquareHours => 245,
            EngineeringUnits::AmpereSquareHours => 246,
            EngineeringUnits::JoulePerHours => 247,
            EngineeringUnits::CubicFeetPerDay => 248,
            EngineeringUnits::CubicMetersPerDay => 249,
            EngineeringUnits::WattHoursPerCubicMeter => 250,
            EngineeringUnits::JoulesPerCubicMeter => 251,
            EngineeringUnits::MolePercent => 252,
            EngineeringUnits::PascalSeconds => 253,
            EngineeringUnits::MillionStandardCubicFeetPerMinute => 254,
            EngineeringUnits::StandardCubicFeetPerDay => 47808,
            EngineeringUnits::MillionStandardCubicFeetPerDay => 47809,
            EngineeringUnits::ThousandCubicFeetPerDay => 47810,
            EngineeringUnits::ThousandStandardCubicFeetPerDay => 47811,
            EngineeringUnits::PoundsMassPerDay => 47812,
            EngineeringUnits::Millirems => 47814,
            EngineeringUnits::MilliremsPerHour => 47815,
        }
    }

    /// The unit that a code from 0 to 63 stands for, if it stands for one.
    fn from_u32_up_to_63(code: u32) -> (value: Option<EngineeringUnits>)
        ensures
            value == EngineeringUnits::of_code_up_to_63(code),
            value matches Some(v) ==> v.code() == code,
    {
        proof {
            reveal(EngineeringUnits::code);
        }
        match code {
            0 => Some(EngineeringUnits::SquareMeters),
            1 => Some(EngineeringUnits::SquareFeet),
            2 => Some(EngineeringUnits::Milliamperes),
            3 => Some(EngineeringUnits::Amperes),
            4 => Some(EngineeringUnits::Ohms),
            5 => Some(EngineeringUnits::Volts),
            6 => Some(EngineeringUnits::Kilovolts),
            7 => Some(EngineeringUnits::Megavolts),
            8 => Some(EngineeringUnits::VoltAmperes),
            9 => Some(EngineeringUnits::KilovoltAmperes),
            10 => Some(EngineeringUnits::MegavoltAmperes),
            11 => Some(EngineeringUnits::VoltAmperesReactive),
            12 => Some(EngineeringUnits::KilovoltAmperesReactive),
            13 => Some(EngineeringUnits::MegavoltAmperesReactive),
            14 => Some(EngineeringUnits::DegreesPhase),
            15 => Some(EngineeringUnits::PowerFactor),
            16 => Some(EngineeringUnits::Joules),
            17 => Some(EngineeringUnits::Kilojoules),
            18 => Some(EngineeringUnits::WattHours),
            19 => Some(EngineeringUnits::KilowattHours),
            20 => Some(EngineeringUnits::Btus),
            21 => Some(EngineeringUnits::Therms),
            22 => Some(EngineeringUnits::TonHours),
            23 => Some(EngineeringUnits::JoulesPerKilogramDryAir),
            24 => Some(EngineeringUnits::BtusPerPoundDryAir),
            25 => Some(EngineeringUnits::CyclesPerHour),
            26 => Some(EngineeringUnits::CyclesPerMinute),
            27 => Some(EngineeringUnits::Hertz),
            28 => Some(EngineeringUnits::GramsOfWaterPerKilogramDryAir),
            29 => Some(EngineeringUnits::PercentRelativeHumidity),
            30 => Some(EngineeringUnits::Millimeters),
            31 => Some(EngineeringUnits::Meters),
            32 => Some(EngineeringUnits::Inches),
            33 => Some(EngineeringUnits::Feet),
            34 => Some(EngineeringUnits::WattsPerSquareFoot),
            35 => Some(EngineeringUnits::WattsPerSquareMeter),
            36 => Some(EngineeringUnits::Lumens),
            37 => Some(EngineeringUnits::Luxes),
            38 => Some(EngineeringUnits::FootCandles),
            39 => Some(EngineeringUnits::Kilograms),
            40 => Some(EngineeringUnits::PoundsMass),
            41 => Some(EngineeringUnits::Tons),
            42 => Some(EngineeringUnits::KilogramsPerSecond),
            43 => Some(EngineeringUnits::KilogramsPerMinute),
            44 => Some(EngineeringUnits::KilogramsPerHour),
            45 => Some(EngineeringUnits::PoundsMassPerMinute),
            46 => Some(EngineeringUnits::PoundsMassPerHour),
            47 => Some(EngineeringUnits::Watts),
            48 => Some(EngineeringUnits::Kilowatts),
            49 => Some(EngineeringUnits::Megawatts),
            50 => Some(EngineeringUnits::BtusPerHour),
            51 => Some(EngineeringUnits::Horsepower),
            52 => Some(EngineeringUnits::TonsRefrigeration),
            53 => Some(EngineeringUnits::Pascals),
            54 => Some(EngineeringUnits::Kilopascals),
            55 => Some(EngineeringUnits::Bars),
            56 => Some(EngineeringUnits::PoundsForcePerSquareInch),
            57 => Some(EngineeringUnits::CentimetersOfWater),
            58 => Some(EngineeringUnits::InchesOfWater),
            59 => Some(EngineeringUnits::MillimetersOfMercury),
            60 => Some(EngineeringUnits::CentimetersOfMercury),
            61 => Some(EngineeringUnits::InchesOfMercury),
            62 => Some(EngineeringUnits::DegreesCelsius),
            63 => Some(EngineeringUnits::DegreesKelvin),
            _ => None,
        }
    }

    /// The unit that a code from 64 to 127 stands for, if it stands for one.
    fn from_u32_up_to_127(code: u32) -> (value: Option<EngineeringUnits>)
        ensures
            value == EngineeringUnits::of_code_up_to_127(code),
            value matches Some(v) ==> v.code() == code,
    {
        proof {
            reveal(EngineeringUnits::code);
        }
        match code {
            64 => Some(EngineeringUnits::DegreesFahrenheit),
            65 => Some(EngineeringUnits::DegreeDaysCelsius),
            66 => Some(EngineeringUnits::DegreeDaysFahrenheit),
            67 => Some(EngineeringUnits::Years),
            68 => Some(EngineeringUnits::Months),
            69 => Some(EngineeringUnits::Weeks),
            70 => Some(EngineeringUnits::Days),
            71 => Some(EngineeringUnits::Hours),
            72 => Some(EngineeringUnits::Minutes),
            73 => Some(EngineeringUnits::Seconds),
            74 => Some(EngineeringUnits::MetersPerSecond),
            75 => Some(EngineeringUnits::KilometersPerHour),
            76 => Some(EngineeringUnits::FeetPerSecond),
            77 => Some(EngineeringUnits::FeetPerMinute),
            78 => Some(EngineeringUnits::MilesPerHour),
            79 => Some(EngineeringUnits::CubicFeet),
            80 => Some(EngineeringUnits::CubicMeters),
            81 => Some(EngineeringUnits::ImperialGallons),
            82 => Some(EngineeringUnits::Liters),
            83 => Some(EngineeringUnits::UsGallons),
            84 => Some(EngineeringUnits::CubicFeetPerMinute),
            85 => Some(EngineeringUnits::CubicMetersPerSecond),
            86 => Some(EngineeringUnits::ImperialGallonsPerMinute),
            87 => Some(EngineeringUnits::LitersPerSecond),
            88 => Some(EngineeringUnits::LitersPerMinute),
            89 => Some(EngineeringUnits::UsGallonsPerMinute),
            90 => Some(EngineeringUnits::DegreesAngular),
            91 => Some(EngineeringUnits::DegreesCelsiusPerHour),
            92 => Some(EngineeringUnits::DegreesCelsiusPerMinute),
            93 => Some(EngineeringUnits::DegreesFahrenheitPerHour),
            94 => Some(EngineeringUnits::DegreesFahrenheitPerMinute),
            95 => Some(EngineeringUnits::NoUnits),
            96 => Some(EngineeringUnits::PartsPerMillion),
            97 => Some(EngineeringUnits::PartsPerBillion),
            98 => Some(EngineeringUnits::Percent),
            99 => Some(EngineeringUnits::PercentPerSecond),
            100 => Some(EngineeringUnits::PerMinute),
            101 => Some(EngineeringUnits::PerSecond),
            102 => Some(EngineeringUnits::PsiPerDegreeFahrenheit),
            103 => Some(EngineeringUnits::Radians),
            104 => Some(EngineeringUnits::RevolutionsPerMinute),
            105 => Some(EngineeringUnits::Currency1),
            106 => Some(EngineeringUnits::Currency2),
            107 => Some(EngineeringUnits::Currency3),
            108 => Some(EngineeringUnits::Currency4),
            109 => Some(EngineeringUnits::Currency5),
            110 => Some(EngineeringUnits::Currency6),
            111 => Some(EngineeringUnits::Currency7),
            112 => Some(EngineeringUnits::Currency8),
            113 => Some(EngineeringUnits::Currency9),
            114 => Some(EngineeringUnits::Currency10),
            115 => Some(EngineeringUnits::SquareInches),
            116 => Some(EngineeringUnits::SquareCentimeters),
            117 => Some(EngineeringUnits::BtusPerPound),
            118 => Some(EngineeringUnits::Centimeters),
            119 => Some(EngineeringUnits::PoundsMassPerSecond),
            120 => Some(EngineeringUnits::DeltaDegreesFahrenheit),
            121 => Some(EngineeringUnits::DeltaDegreesKelvin),
            122 => Some(EngineeringUnits::Kilohms),
            123 => Some(EngineeringUnits::Megohms),
            124 => Some(EngineeringUnits::Millivolts),
            125 => Some(EngineeringUnits::KilojoulesPerKilogram),
            126 => Some(EngineeringUnits::Megajoules),
            127 => Some(EngineeringUnits::JoulesPerDegreeKelvin),
            _ => None,
        }
    }

    /// The unit that a code from 128 to 191 stands for, if it stands for one.
    fn from_u32_up_to_191(code: u32) -> (value: Option<EngineeringUnits>)
        ensures
            value == EngineeringUnits::of_code_up_to_191(code),
            value matches Some(v) ==> v.code() == code,
    {
        proof {
            reveal(EngineeringUnits::code);
        }
        match code {
            128 => Some(EngineeringUnits::JoulesPerKilogramDegreeKelvin),
            129 => Some(EngineeringUnits::Kilohertz),
            130 => Some(EngineeringUnits::Megahertz),
            131 => Some(EngineeringUnits::PerHour),
            132 => Some(EngineeringUnits::Milliwatts),
            133 => Some(EngineeringUnits::Hectopascals),
            134 => Some(EngineeringUnits::Millibars),
            135 => Some(EngineeringUnits::CubicMetersPerHour),
            136 => Some(EngineeringUnits::LitersPerHour),
            137 => Some(EngineeringUnits::KilowattHoursPerSquareMeter),
            138 => Some(EngineeringUnits::KilowattHoursPerSquareFoot),
            139 => Some(EngineeringUnits::MegajoulesPerSquareMeter),
            140 => Some(EngineeringUnits::MegajoulesPerSquareFoot),
            141 => Some(EngineeringUnits::WattsPerSquareMeterDegreeKelvin),
            142 => Some(EngineeringUnits::CubicFeetPerSecond),
            143 => Some(EngineeringUnits::PercentObscurationPerFoot),
            144 => Some(EngineeringUnits::PercentObscurationPerMeter),
            145 => Some(EngineeringUnits::Milliohms),
            146 => Some(EngineeringUnits::MegawattHours),
            147 => Some(EngineeringUnits::KiloBtus),
            148 => Some(EngineeringUnits::MegaBtus),
            149 => Some(EngineeringUnits::KilojoulesPerKilogramDryAir),
            150 => Some(EngineeringUnits::MegajoulesPerKilogramDryAir),
            151 => Some(EngineeringUnits::KilojoulesPerDegreeKelvin),
            152 => Some(EngineeringUnits::MegajoulesPerDegreeKelvin),
            153 => Some(EngineeringUnits::Newton),
            154 => Some(EngineeringUnits::GramsPerSecond),
            155 => Some(EngineeringUnits::GramsPerMinute),
            156 => Some(EngineeringUnits::TonsPerHour),
            157 => Some(EngineeringUnits::KiloBtusPerHour),
            158 => Some(EngineeringUnits::HundredthsSeconds),
            159 => Some(EngineeringUnits::Milliseconds),
            160 => Some(EngineeringUnits::NewtonMeters),
            161 => Some(EngineeringUnits::MillimetersPerSecond),
            162 => Some(EngineeringUnits::MillimetersPerMinute),
            163 => Some(EngineeringUnits::MetersPerMinute),
            164 => Some(EngineeringUnits::MetersPerHour),
            165 => Some(EngineeringUnits::CubicMetersPerMinute),
            166 => Some(EngineeringUnits::MetersPerSecondPerSecond),
            167 => Some(EngineeringUnits::AmperesPerMeter),
            168 => Some(EngineeringUnits::AmperesPerSquareMeter),
            169 => Some(EngineeringUnits::AmpereSquareMeters),
            170 => Some(EngineeringUnits::Farads),
            171 => Some(EngineeringUnits::Henrys),
            172 => Some(EngineeringUnits::OhmMeters),
            173 => Some(EngineeringUnits::Siemens),
            174 => Some(EngineeringUnits::SiemensPerMeter),
            175 => Some(EngineeringUnits::Teslas),
            176 => Some(EngineeringUnits::VoltsPerDegreeKelvin),
            177 => Some(EngineeringUnits::VoltsPerMeter),
            178 => Some(EngineeringUnits::Webers),
            179 => Some(EngineeringUnits::Candelas),
            180 => Some(EngineeringUnits::CandelasPerSquareMeter),
            181 => Some(EngineeringUnits::DegreesKelvinPerHour),
            182 => Some(EngineeringUnits::DegreesKelvinPerMinute),
            183 => Some(EngineeringUnits::JouleSeconds),
            184 => Some(EngineeringUnits::RadiansPerSecond),
            185 => Some(EngineeringUnits::SquareMetersPerNewton),
            186 => Some(EngineeringUnits::KilogramsPerCubicMeter),
            187 => Some(EngineeringUnits::NewtonSeconds),
            188 => Some(EngineeringUnits::NewtonsPerMeter),
            189 => Some(EngineeringUnits::WattsPerMeterPerDegreeKelvin),
            190 => Some(EngineeringUnits::Microsiemens),
            191 => Some(EngineeringUnits::CubicFeetPerHour),
            _ => None,
        }
    }

    /// The unit that a code from 192 to 254 stands for, if it stands for one.
    fn from_u32_up_to_254(code: u32) -> (value: Option<EngineeringUnits>)
        ensures
            value == EngineeringUnits::of_code_up_to_254(code),
            value matches Some(v) ==> v.code() == code,
    {
        proof {
            reveal(EngineeringUnits::code);
        }
        match code {
            192 => Some(EngineeringUnits::UsGallonsPerHour),
            193 => Some(EngineeringUnits::Kilometers),
            194 => Some(EngineeringUnits::Micrometers),
            195 => Some(EngineeringUnits::Grams),
            196 => Some(EngineeringUnits::Milligrams),
            197 => Some(EngineeringUnits::Milliliters),
            198 => Some(EngineeringUnits::MillilitersPerSecond),
            199 => Some(EngineeringUnits::Decibels),
            200 => Some(EngineeringUnits::DecibelsMillivolt),
            201 => Some(EngineeringUnits::DecibelsVolt),
            202 => Some(EngineeringUnits::Millisiemens),
            203 => Some(EngineeringUnits::WattHoursReactive),
            204 => Some(EngineeringUnits::KilowattHoursReactive),
            205 => Some(EngineeringUnits::MegawattHoursReactive),
            206 => Some(EngineeringUnits::MillimetersOfWater),
            207 => Some(EngineeringUnits::PerMille),
            208 => Some(EngineeringUnits::GramsPerGram),
            209 => Some(EngineeringUnits::KilogramsPerKilogram),
            210 => Some(EngineeringUnits::GramsPerKilogram),
            211 => Some(EngineeringUnits::MilligramsPerGram),
            212 => Some(EngineeringUnits::MilligramsPerKilogram),
            213 => Some(EngineeringUnits::GramsPerMilliliter),
            214 => Some(EngineeringUnits::GramsPerLiter),
            215 => Some(EngineeringUnits::MilligramsPerLiter),
            216 => Some(EngineeringUnits::MicrogramsPerLiter),
            217 => Some(EngineeringUnits::GramsPerCubicMeter),
            218 => Some(EngineeringUnits::MilligramsPerCubicMeter),
            219 => Some(EngineeringUnits::MicrogramsPerCubicMeter),
            220 => Some(EngineeringUnits::NanogramsPerCubicMeter),
            221 => Some(EngineeringUnits::GramsPerCubicCentimeter),
            222 => Some(EngineeringUnits::Becquerels),
            223 => Some(EngineeringUnits::Kilobecquerels),
            224 => Some(EngineeringUnits::Megabecquerels),
            225 => Some(EngineeringUnits::Gray),
            226 => Some(EngineeringUnits::Milligray),
            227 => Some(EngineeringUnits::Microgray),
            228 => Some(EngineeringUnits::Sieverts),
            229 => Some(EngineeringUnits::Millisieverts),
            230 => Some(EngineeringUnits::Microsieverts),
            231 => Some(EngineeringUnits::MicrosievertsPerHour),
            232 => Some(EngineeringUnits::DecibelsA),
            233 => Some(EngineeringUnits::NephelometricTurbidityUnit),
            234 => Some(EngineeringUnits::Ph),
            235 => Some(EngineeringUnits::GramsPerSquareMeter),
            236 => Some(EngineeringUnits::MinutesPerDegreeKelvin),
            237 => Some(EngineeringUnits::OhmMeterSquaredPerMeter),
            238 => Some(EngineeringUnits::AmpereSeconds),
            239 => Some(EngineeringUnits::VoltAmpereHours),
            240 => Some(EngineeringUnits::KilovoltAmpereHours),
            241 => Some(EngineeringUnits::MegavoltAmpereHours),
            242 => Some(EngineeringUnits::VoltAmpereHoursReactive),
            243 => Some(EngineeringUnits::KilovoltAmpereHoursReactive),
            244 => Some(EngineeringUnits::MegavoltAmpereHoursReactive),
            245 => Some(EngineeringUnits::VoltSquareHours),
            246 => Some(EngineeringUnits::AmpereSquareHours),
            247 => Some(EngineeringUnits::JoulePerHours),
            248 => Some(EngineeringUnits::CubicFeetPerDay),
            249 => Some(EngineeringUnits::CubicMetersPerDay),
            250 => Some(EngineeringUnits::WattHoursPerCubicMeter),
            251 => Some(EngineeringUnits::JoulesPerCubicMeter),
            252 => Some(EngineeringUnits::MolePercent),
            253 => Some(EngineeringUnits::PascalSeconds),
            254 => Some(EngineeringUnits::MillionStandardCubicFeetPerMinute),
            _ => None,
        }
    }

    /// The unit that a code beyond 254 stands for, if it stands for one.
    fn from_u32_beyond(code: u32) -> (value: Option<EngineeringUnits>)
        ensures
            value == EngineeringUnits::of_code_beyond(code),
            value matches Some(v) ==> v.code() == code,
    {
        proof {
            reveal(EngineeringUnits::code);
        }
        match code {
            47808 => Some(EngineeringUnits::StandardCubicFeetPerDay),
            47809 => Some(EngineeringUnits::MillionStandardCubicFeetPerDay),
            47810 => Some(EngineeringUnits::ThousandCubicFeetPerDay),
            47811 => Some(EngineeringUnits::ThousandStandardCubicFeetPerDay),
            47812 => Some(EngineeringUnits::PoundsMassPerDay),
            47814 => Some(EngineeringUnits::Millirems),
            47815 => Some(EngineeringUnits::MilliremsPerHour),
            _ => None,
        }
    }

    /// The value that a code stands for, if it stands for one.
    pub fn from_u32(code: u32) -> (value: Option<EngineeringUnits>)
        ensures
            value == EngineeringUnits::of_code(code),
            value matches Some(v) ==> v.code() == code,
    {
        proof {
            reveal(EngineeringUnits::of_code);
        }
        if code < 64 {
            Self::from_u32_up_to_63(code)
        } else if code < 128 {
            Self::from_u32_up_to_127(code)
        } else if code < 192 {
            Self::from_u32_up_to_191(code)
        } else if code < 255 {
            Self::from_u32_up_to_254(code)
        } else {
            Self::from_u32_beyond(code)
        }
    }
}

/// Where an object stands in event reporting.
#[derive(Debug, Clone, Copy, PartialEq, Eq, Structural)]
pub enum EventState {
    Normal,
    Fault,
    OffNormal,
    HighLimit,
    LowLimit,
    LifeSafetyAlarm,
}

impl EventState {
    /// The code on the wire.
    pub open spec fn code(self) -> u32 {
        match self {
            EventState::Normal => 0,
            EventState::Fault => 1,
            EventState::OffNormal => 2,
            EventState::HighLimit => 3,
            EventState::LowLimit => 4,
            EventState::LifeSafetyAlarm => 5,
        }
    }

    /// The value that a code stands for, if it stands for one.
    pub open spec fn of_code(code: u32) -> Option<EventState> {
        if code == 0 {
            Some(EventState::Normal)
        } else if code == 1 {
            Some(EventState::Fault)
        } else if code == 2 {
            Some(EventState::OffNormal)
        } else if code == 3 {
            Some(EventState::HighLimit)
        } else if code == 4 {
            Some(EventState::LowLimit)
        } else if code == 5 {
            Some(EventState::LifeSafetyAlarm)
        } else {
            None
        }
    }

    /// The code on the wire.
    pub fn to_u32(self) -> (code: u32)
        ensures
            code == self.code(),
            EventState::of_code(code) == Some(self),
    {
        match self {
            EventState::Normal => 0,
            EventState::Fault => 1,
            EventState::OffNormal => 2,
            EventState::HighLimit => 3,
            EventState::LowLimit => 4,
            EventState::LifeSafetyAlarm => 5,
        }
    }

    /// The value that a code stands for, if it stands for one.
    pub fn from_u32(code: u32) -> (value: Option<EventState>)
        ensures
            value == EventState::of_code(code),
            value matches Some(v) ==> v.code() == code,
    {
        match code {
            0 => Some(EventState::Normal),
            1 => Some(EventState::Fault),
            2 => Some(EventState::OffNormal),
            3 => Some(EventState::HighLimit),
            4 => Some(EventState::LowLimit),
            5 => Some(EventState::LifeSafetyAlarm),
            _ => None,
        }
    }
}

/// What kind of notification an event gives rise to.
#[derive(Debug, Clone, Copy, PartialEq, Eq, Structural)]
pub enum NotifyType {
    Alarm,
    Event,
    AckNotification,
}

impl NotifyType {
    /// The code on the wire.
    pub open spec fn code(self) -> u32 {
        match self {
            NotifyType::Alarm => 0,
            NotifyType::Event => 1,
            NotifyType::AckNotification => 2,
        }
    }

    /// The value that a code stands for, if it stands for one.
    pub open spec fn of_code(code: u32) -> Option<NotifyType> {
        if code == 0 {
            Some(NotifyType::Alarm)
        } else if code == 1 {
            Some(NotifyType::Event)
        } else if code == 2 {
            Some(NotifyType::AckNotification)
        } else {
            None
        }
    }

    /// The code on the wire.
    pub fn to_u32(self) -> (code: u32)
        ensures
            code == self.code(),
            NotifyType::of_code(code) == Some(self),
    {
        match self {
            NotifyType::Alarm => 0,
            NotifyType::Event => 1,
            NotifyType::AckNotification => 2,
        }
    }

    /// The value that a code stands for, if it stands for one.
    pub fn from_u32(code: u32) -> (value: Option<NotifyType>)
        ensures
            value == NotifyType::of_code(code),
            value matches Some(v) ==> v.code() == code,
    {
        match code {
            0 => Some(NotifyType::Alarm),
            1 => Some(NotifyType::Event),
            2 => Some(NotifyType::AckNotification),
            _ => None,
        }
    }
}

/// How a log collects its records.
#[derive(Debug, Clone, Copy, PartialEq, Eq, Structural)]
pub enum LoggingType {
    Polled,
    Cov,
    Triggered,
}

impl LoggingType {
    /// The code on the wire.
    pub open spec fn code(self) -> u32 {
        match self {
            LoggingType::Polled => 0,
            LoggingType::Cov => 1,
            LoggingType::Triggered => 2,
        }
    }

    /// The value that a code stands for, if it stands for one.
    pub open spec fn of_code(code: u32) -> Option<LoggingType> {
        if code == 0 {
            Some(LoggingType::Polled)
        } else if code == 1 {
            Some(LoggingType::Cov)
        } else if code == 2 {
            Some(LoggingType::Triggered)
        } else {
            None
        }
    }

    /// The code on the wire.
    pub fn to_u32(self) -> (code: u32)
        ensures
            code == self.code(),
            LoggingType::of_code(code) == Some(self),
    {
        match self {
            LoggingType::Polled => 0,
            LoggingType::Cov => 1,
            LoggingType::Triggered => 2,
        }
    }

    /// The value that a code stands for, if it stands for one.
    pub fn from_u32(code: u32) -> (value: Option<LoggingType>)
        ensures
            value == LoggingType::of_code(code),
            value matches Some(v) ==> v.code() == code,
    {
        match code {
            0 => Some(LoggingType::Polled),
            1 => Some(LoggingType::Cov),
            2 => Some(LoggingType::Triggered),
            _ => None,
        }
    }
}

/// The four status flags of an object, each set or not.
#[derive(Debug, Clone, Copy, PartialEq, Eq, Structural)]
pub struct StatusFlags {
    pub in_alarm: bool,
    pub fault: bool,
    pub overridden: bool,
    pub out_of_service: bool,
}

/// One bit of a flag byte, by the weight of its place.
pub open spec fn bit(set: bool, weight: int) -> int {
    if set {
        weight
    } else {
        0
    }
}

impl StatusFlags {
    /// The flags as one byte, the first flag in the highest bit.
    pub open spec fn bits(self) -> u8 {
        (bit(self.in_alarm, 128) + bit(self.fault, 64) + bit(self.overridden, 32) + bit(
            self.out_of_service,
            16,
        )) as u8
    }

    /// The flags that a byte holds; none where a bit without a meaning is set.
    pub open spec fn of_bits(byte: u8) -> Option<StatusFlags> {
        if byte % 16 != 0 {
            None
        } else {
            Some(
                StatusFlags {
                    in_alarm: (byte / 128) % 2 == 1,
                    fault: (byte / 64) % 2 == 1,
                    overridden: (byte / 32) % 2 == 1,
                    out_of_service: (byte / 16) % 2 == 1,
                },
            )
        }
    }

    /// The flags as one byte, the first flag in the highest bit.
    pub fn to_bits(self) -> (byte: u8)
        ensures
            byte == self.bits(),
            StatusFlags::of_bits(byte) == Some(self),
    {
        let a: u8 = if self.in_alarm {
            128
        } else {
            0
        };
        let b: u8 = if self.fault {
            64
        } else {
            0
        };
        let c: u8 = if self.overridden {
            32
        } else {
            0
        };
        let d: u8 = if self.out_of_service {
            16
        } else {
            0
        };
        a + b + c + d
    }

    /// The flags that a byte holds; none where a bit without a meaning is set.
    pub fn from_bits(byte: u8) -> (flags: Option<StatusFlags>)
        ensures
            flags == StatusFlags::of_bits(byte),
            flags matches Some(f) ==> f.bits() == byte,
    {
        if byte % 16 != 0 {
            return None;
        }
        Some(
            StatusFlags {
                in_alarm: (byte / 128) % 2 == 1,
                fault: (byte / 64) % 2 == 1,
                overridden: (byte / 32) % 2 == 1,
                out_of_service: (byte / 16) % 2 == 1,
            },
        )
    }
}

/// The three flags that come with a record read from a log buffer.
#[derive(Debug, Clone, Copy, PartialEq, Eq, Structural)]
pub struct LogBufferResultFlags {
    pub first_item: bool,
    pub last_item: bool,
    pub more_items: bool,
}

impl LogBufferResultFlags {
    /// The flags as one byte, the first flag in the highest bit.
    pub open spec fn bits(self) -> u8 {
        (bit(self.first_item, 128) + bit(self.last_item, 64) + bit(self.more_items, 32)) as u8
    }

    /// The flags that a byte holds; none where a bit without a meaning is set.
    pub open spec fn of_bits(byte: u8) -> Option<LogBufferResultFlags> {
        if byte % 32 != 0 {
            None
        } else {
            Some(
                LogBufferResultFlags {
                    first_item: (byte / 128) % 2 == 1,
                    last_item: (byte / 64) % 2 == 1,
                    more_items: (byte / 32) % 2 == 1,
                },
            )
        }
    }

    /// The flags as one byte, the first flag in the highest bit.
    pub fn to_bits(self) -> (byte: u8)
        ensures
            byte == self.bits(),
            LogBufferResultFlags::of_bits(byte) == Some(self),
    {
        let a: u8 = if self.first_item {
            128
        } else {
            0
        };
        let b: u8 = if self.last_item {
            64
        } else {
            0
        };
        let c: u8 = if self.more_items {
            32
        } else {
            0
        };
        a + b + c
    }

    /// The flags that a byte holds; none where a bit without a meaning is set.
    pub fn from_bits(byte: u8) -> (flags: Option<LogBufferResultFlags>)
        ensures
            flags == LogBufferResultFlags::of_bits(byte),
            flags matches Some(f) ==> f.bits() == byte,
    {
        if byte % 32 != 0 {
            return None;
        }
        Some(
            LogBufferResultFlags {
                first_item: (byte / 128) % 2 == 1,
                last_item: (byte / 64) % 2 == 1,
                more_items: (byte / 32) % 2 == 1,
            },
        )
    }
}

} // verus!
