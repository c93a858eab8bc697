use vstd::prelude::*;

use crate::strutil::{ascii_lowercase, spec_lower, str_eq};

verus! {

/// The error of a currency code that is not in the ISO table.
#[derive(Debug, Clone)]
pub struct InvalidCurrencyCode {
    pub text: String,
}

/// The error of a currency display style keyword that is not recognized.
#[derive(Debug, Clone)]
pub struct InvalidCurrencyDisplayStyleError {
    pub text: String,
}

/// The error of a currency sign mode keyword that is not recognized.
#[derive(Debug, Clone)]
pub struct InvalidCurrencySignModeError {
    pub text: String,
}

/// The error of a unit identifier that is not in the table and is no
/// `-per-` joined rate of such units.
#[derive(Debug, Clone)]
pub struct InvalidUnitIdentifierError {
    pub text: String,
}

/// The error of a unit display style keyword that is not recognized.
#[derive(Debug, Clone)]
pub struct InvalidUnitDisplayStyleError {
    pub text: String,
}

/// The error of a grouping style keyword that is not recognized.
#[derive(Debug, Clone)]
pub struct InvalidGroupingStyleError {
    pub text: String,
}

/// An ISO 4217 currency code.
#[derive(Debug, Clone, Copy, PartialEq, Eq, Structural, Hash)]
pub enum CurrencyCode {
    AED,
    AFN,
    ALL,
    AMD,
    ANG,
    AOA,
    ARS,
    AUD,
    AWG,
    AZN,
    BAM,
    BBD,
    BDT,
    BGN,
    BHD,
    BIF,
    BMD,
    BND,
    BOB,
    BOV,
    BRL,
    BSD,
    BTN,
    BWP,
    BYN,
    BZD,
    CAD,
    CDF,
    CHE,
    CHF,
    CHW,
    CLF,
    CLP,
    CNY,
    COP,
    COU,
    CRC,
    CUP,
    CVE,
    CZK,
    DJF,
    DKK,
    DOP,
    DZD,
    EGP,
    ERN,
    ETB,
    EUR,
    FJD,
    FKP,
    GBP,
    GEL,
    GHS,
    GIP,
    GMD,
    GNF,
    GTQ,
    GYD,
    HKD,
    HNL,
    HTG,
    HUF,
    IDR,
    ILS,
    INR,
    IQD,
    IRR,
    ISK,
    JMD,
    JOD,
    JPY,
    KES,
    KGS,
    KHR,
    KMF,
    KPW,
    KRW,
    KWD,
    KYD,
    KZT,
    LAK,
    LBP,
    LKR,
    LRD,
    LSL,
    LYD,
    MAD,
    MDL,
    MGA,
    MKD,
    MMK,
    MNT,
    MOP,
    MRU,
    MUR,
    MVR,
    MWK,
    MXN,
    MXV,
    MYR,
    MZN,
    NAD,
    NGN,
    NIO,
    NOK,
    NPR,
    NZD,
    OMR,
    PAB,
    PEN,
    PGK,
    PHP,
    PKR,
    PLN,
    PYG,
    QAR,
    RON,
    RSD,
    RUB,
    RWF,
    SAR,
    SBD,
    SCR,
    SDG,
    SEK,
    SGD,
    SHP,
    SLE,
    SOS,
    SRD,
    SSP,
    STN,
    SVC,
    SYP,
    SZL,
    THB,
    TJS,
    TMT,
    TND,
    TOP,
    TRY,
    TTD,
    TWD,
    TZS,
    UAH,
    UGX,
    USD,
    USN,
    UYI,
    UYU,
    UYW,
    UZS,
    VED,
    VES,
    VND,
    VUV,
    WST,
    XAF,
    XAG,
    XAU,
    XBA,
    XBB,
    XBC,
    XBD,
    XCD,
    XDR,
    XOF,
    XPD,
    XPF,
    XPT,
    XSU,
    XTS,
    XUA,
    XXX,
    YER,
    ZAR,
    ZMW,
    ZWG,
}

/// The exact text of a currency code.
pub open spec fn spec_currency_str(c: CurrencyCode) -> Seq<char> {
    match c {
        CurrencyCode::AED => "AED"@,
        CurrencyCode::AFN => "AFN"@,
        CurrencyCode::ALL => "ALL"@,
        CurrencyCode::AMD => "AMD"@,
        CurrencyCode::ANG => "ANG"@,
        CurrencyCode::AOA => "AOA"@,
        CurrencyCode::ARS => "ARS"@,
        CurrencyCode::AUD => "AUD"@,
        CurrencyCode::AWG => "AWG"@,
        CurrencyCode::AZN => "AZN"@,
        CurrencyCode::BAM => "BAM"@,
        CurrencyCode::BBD => "BBD"@,
        CurrencyCode::BDT => "BDT"@,
        CurrencyCode::BGN => "BGN"@,
        CurrencyCode::BHD => "BHD"@,
        CurrencyCode::BIF => "BIF"@,
        CurrencyCode::BMD => "BMD"@,
        CurrencyCode::BND => "BND"@,
        CurrencyCode::BOB => "BOB"@,
        CurrencyCode::BOV => "BOV"@,
        CurrencyCode::BRL => "BRL"@,
        CurrencyCode::BSD => "BSD"@,
        CurrencyCode::BTN => "BTN"@,
        CurrencyCode::BWP => "BWP"@,
        CurrencyCode::BYN => "BYN"@,
        CurrencyCode::BZD => "BZD"@,
        CurrencyCode::CAD => "CAD"@,
        CurrencyCode::CDF => "CDF"@,
        CurrencyCode::CHE => "CHE"@,
        CurrencyCode::CHF => "CHF"@,
        CurrencyCode::CHW => "CHW"@,
        CurrencyCode::CLF => "CLF"@,
        CurrencyCode::CLP => "CLP"@,
        CurrencyCode::CNY => "CNY"@,
        CurrencyCode::COP => "COP"@,
        CurrencyCode::COU => "COU"@,
        CurrencyCode::CRC => "CRC"@,
        CurrencyCode::CUP => "CUP"@,
        CurrencyCode::CVE => "CVE"@,
        CurrencyCode::CZK => "CZK"@,
        CurrencyCode::DJF => "DJF"@,
        CurrencyCode::DKK => "DKK"@,
        CurrencyCode::DOP => "DOP"@,
        CurrencyCode::DZD => "DZD"@,
        CurrencyCode::EGP => "EGP"@,
        CurrencyCode::ERN => "ERN"@,
        CurrencyCode::ETB => "ETB"@,
        CurrencyCode::EUR => "EUR"@,
        CurrencyCode::FJD => "FJD"@,
        CurrencyCode::FKP => "FKP"@,
        CurrencyCode::GBP => "GBP"@,
        CurrencyCode::GEL => "GEL"@,
        CurrencyCode::GHS => "GHS"@,
        CurrencyCode::GIP => "GIP"@,
        CurrencyCode::GMD => "GMD"@,
        CurrencyCode::GNF => "GNF"@,
        CurrencyCode::GTQ => "GTQ"@,
        CurrencyCode::GYD => "GYD"@,
        CurrencyCode::HKD => "HKD"@,
        CurrencyCode::HNL => "HNL"@,
        CurrencyCode::HTG => "HTG"@,
        CurrencyCode::HUF => "HUF"@,
        CurrencyCode::IDR => "IDR"@,
        CurrencyCode::ILS => "ILS"@,
        CurrencyCode::INR => "INR"@,
        CurrencyCode::IQD => "IQD"@,
        CurrencyCode::IRR => "IRR"@,
        CurrencyCode::ISK => "ISK"@,
        CurrencyCode::JMD => "JMD"@,
        CurrencyCode::JOD => "JOD"@,
        CurrencyCode::JPY => "JPY"@,
        CurrencyCode::KES => "KES"@,
        CurrencyCode::KGS => "KGS"@,
        CurrencyCode::KHR => "KHR"@,
        CurrencyCode::KMF => "KMF"@,
        CurrencyCode::KPW => "KPW"@,
        CurrencyCode::KRW => "KRW"@,
        CurrencyCode::KWD => "KWD"@,
        CurrencyCode::KYD => "KYD"@,
        CurrencyCode::KZT => "KZT"@,
        CurrencyCode::LAK => "LAK"@,
        CurrencyCode::LBP => "LBP"@,
        CurrencyCode::LKR => "LKR"@,
        CurrencyCode::LRD => "LRD"@,
        CurrencyCode::LSL => "LSL"@,
        CurrencyCode::LYD => "LYD"@,
        CurrencyCode::MAD => "MAD"@,
        CurrencyCode::MDL => "MDL"@,
        CurrencyCode::MGA => "MGA"@,
        CurrencyCode::MKD => "MKD"@,
        CurrencyCode::MMK => "MMK"@,
        CurrencyCode::MNT => "MNT"@,
        CurrencyCode::MOP => "MOP"@,
        CurrencyCode::MRU => "MRU"@,
        CurrencyCode::MUR => "MUR"@,
        CurrencyCode::MVR => "MVR"@,
        CurrencyCode::MWK => "MWK"@,
        CurrencyCode::MXN => "MXN"@,
        CurrencyCode::MXV => "MXV"@,
        CurrencyCode::MYR => "MYR"@,
        CurrencyCode::MZN => "MZN"@,
        CurrencyCode::NAD => "NAD"@,
        CurrencyCode::NGN => "NGN"@,
        CurrencyCode::NIO => "NIO"@,
        CurrencyCode::NOK => "NOK"@,
        CurrencyCode::NPR => "NPR"@,
        CurrencyCode::NZD => "NZD"@,
        CurrencyCode::OMR => "OMR"@,
        CurrencyCode::PAB => "PAB"@,
        CurrencyCode::PEN => "PEN"@,
        CurrencyCode::PGK => "PGK"@,
        CurrencyCode::PHP => "PHP"@,
        CurrencyCode::PKR => "PKR"@,
        CurrencyCode::PLN => "PLN"@,
        CurrencyCode::PYG => "PYG"@,
        CurrencyCode::QAR => "QAR"@,
        CurrencyCode::RON => "RON"@,
        CurrencyCode::RSD => "RSD"@,
        CurrencyCode::RUB => "RUB"@,
        CurrencyCode::RWF => "RWF"@,
        CurrencyCode::SAR => "SAR"@,
        CurrencyCode::SBD => "SBD"@,
        CurrencyCode::SCR => "SCR"@,
        CurrencyCode::SDG => "SDG"@,
        CurrencyCode::SEK => "SEK"@,
        CurrencyCode::SGD => "SGD"@,
        CurrencyCode::SHP => "SHP"@,
        CurrencyCode::SLE => "SLE"@,
        CurrencyCode::SOS => "SOS"@,
        CurrencyCode::SRD => "SRD"@,
        CurrencyCode::SSP => "SSP"@,
        CurrencyCode::STN => "STN"@,
        CurrencyCode::SVC => "SVC"@,
        CurrencyCode::SYP => "SYP"@,
        CurrencyCode::SZL => "SZL"@,
        CurrencyCode::THB => "THB"@,
        CurrencyCode::TJS => "TJS"@,
        CurrencyCode::TMT => "TMT"@,
        CurrencyCode::TND => "TND"@,
        CurrencyCode::TOP => "TOP"@,
        CurrencyCode::TRY => "TRY"@,
        CurrencyCode::TTD => "TTD"@,
        CurrencyCode::TWD => "TWD"@,
        CurrencyCode::TZS => "TZS"@,
        CurrencyCode::UAH => "UAH"@,
        CurrencyCode::UGX => "UGX"@,
        CurrencyCode::USD => "USD"@,
        CurrencyCode::USN => "USN"@,
        CurrencyCode::UYI => "UYI"@,
        CurrencyCode::UYU => "UYU"@,
        CurrencyCode::UYW => "UYW"@,
        CurrencyCode::UZS => "UZS"@,
        CurrencyCode::VED => "VED"@,
        CurrencyCode::VES => "VES"@,
        CurrencyCode::VND => "VND"@,
        CurrencyCode::VUV => "VUV"@,
        CurrencyCode::WST => "WST"@,
        CurrencyCode::XAF => "XAF"@,
        CurrencyCode::XAG => "XAG"@,
        CurrencyCode::XAU => "XAU"@,
        CurrencyCode::XBA => "XBA"@,
        CurrencyCode::XBB => "XBB"@,
        CurrencyCode::XBC => "XBC"@,
        CurrencyCode::XBD => "XBD"@,
        CurrencyCode::XCD => "XCD"@,
        CurrencyCode::XDR => "XDR"@,
        CurrencyCode::XOF => "XOF"@,
        CurrencyCode::XPD => "XPD"@,
        CurrencyCode::XPF => "XPF"@,
        CurrencyCode::XPT => "XPT"@,
        CurrencyCode::XSU => "XSU"@,
        CurrencyCode::XTS => "XTS"@,
        CurrencyCode::XUA => "XUA"@,
        CurrencyCode::XXX => "XXX"@,
        CurrencyCode::YER => "YER"@,
        CurrencyCode::ZAR => "ZAR"@,
        CurrencyCode::ZMW => "ZMW"@,
        CurrencyCode::ZWG => "ZWG"@,
    }
}

/// The code, if any, whose text is `q`.
pub open spec fn spec_currency_from(q: Seq<char>) -> Option<CurrencyCode> {
    if q == "AED"@ {
        Some(CurrencyCode::AED)
    } else if q == "AFN"@ {
        Some(CurrencyCode::AFN)
    } else if q == "ALL"@ {
        Some(CurrencyCode::ALL)
    } else if q == "AMD"@ {
        Some(CurrencyCode::AMD)
    } else if q == "ANG"@ {
        Some(CurrencyCode::ANG)
    } else if q == "AOA"@ {
        Some(CurrencyCode::AOA)
    } else if q == "ARS"@ {
        Some(CurrencyCode::ARS)
    } else if q == "AUD"@ {
        Some(CurrencyCode::AUD)
    } else if q == "AWG"@ {
        Some(CurrencyCode::AWG)
    } else if q == "AZN"@ {
        Some(CurrencyCode::AZN)
    } else if q == "BAM"@ {
        Some(CurrencyCode::BAM)
    } else if q == "BBD"@ {
        Some(CurrencyCode::BBD)
    } else if q == "BDT"@ {
        Some(CurrencyCode::BDT)
    } else if q == "BGN"@ {
        Some(CurrencyCode::BGN)
    } else if q == "BHD"@ {
        Some(CurrencyCode::BHD)
    } else if q == "BIF"@ {
        Some(CurrencyCode::BIF)
    } else if q == "BMD"@ {
        Some(CurrencyCode::BMD)
    } else if q == "BND"@ {
        Some(CurrencyCode::BND)
    } else if q == "BOB"@ {
        Some(CurrencyCode::BOB)
    } else if q == "BOV"@ {
        Some(CurrencyCode::BOV)
    } else if q == "BRL"@ {
        Some(CurrencyCode::BRL)
    } else if q == "BSD"@ {
        Some(CurrencyCode::BSD)
    } else if q == "BTN"@ {
        Some(CurrencyCode::BTN)
    } else if q == "BWP"@ {
        Some(CurrencyCode::BWP)
    } else if q == "BYN"@ {
        Some(CurrencyCode::BYN)
    } else if q == "BZD"@ {
        Some(CurrencyCode::BZD)
    } else if q == "CAD"@ {
        Some(CurrencyCode::CAD)
    } else if q == "CDF"@ {
        Some(CurrencyCode::CDF)
    } else if q == "CHE"@ {
        Some(CurrencyCode::CHE)
    } else if q == "CHF"@ {
        Some(CurrencyCode::CHF)
    } else if q == "CHW"@ {
        Some(CurrencyCode::CHW)
    } else if q == "CLF"@ {
        Some(CurrencyCode::CLF)
    } else if q == "CLP"@ {
        Some(CurrencyCode::CLP)
    } else if q == "CNY"@ {
        Some(CurrencyCode::CNY)
    } else if q == "COP"@ {
        Some(CurrencyCode::COP)
    } else if q == "COU"@ {
        Some(CurrencyCode::COU)
    } else if q == "CRC"@ {
        Some(CurrencyCode::CRC)
    } else if q == "CUP"@ {
        Some(CurrencyCode::CUP)
    } else if q == "CVE"@ {
        Some(CurrencyCode::CVE)
    } else if q == "CZK"@ {
        Some(CurrencyCode::CZK)
    } else if q == "DJF"@ {
        Some(CurrencyCode::DJF)
    } else if q == "DKK"@ {
        Some(CurrencyCode::DKK)
    } else if q == "DOP"@ {
        Some(CurrencyCode::DOP)
    } else if q == "DZD"@ {
        Some(CurrencyCode::DZD)
    } else if q == "EGP"@ {
        Some(CurrencyCode::EGP)
    } else if q == "ERN"@ {
        Some(CurrencyCode::ERN)
    } else if q == "ETB"@ {
        Some(CurrencyCode::ETB)
    } else if q == "EUR"@ {
        Some(CurrencyCode::EUR)
    } else if q == "FJD"@ {
        Some(CurrencyCode::FJD)
    } else if q == "FKP"@ {
        Some(CurrencyCode::FKP)
    } else if q == "GBP"@ {
        Some(CurrencyCode::GBP)
    } else if q == "GEL"@ {
        Some(CurrencyCode::GEL)
    } else if q == "GHS"@ {
        Some(CurrencyCode::GHS)
    } else if q == "GIP"@ {
        Some(CurrencyCode::GIP)
    } else if q == "GMD"@ {
        Some(CurrencyCode::GMD)
    } else if q == "GNF"@ {
        Some(CurrencyCode::GNF)
    } else if q == "GTQ"@ {
        Some(CurrencyCode::GTQ)
    } else if q == "GYD"@ {
        Some(CurrencyCode::GYD)
    } else if q == "HKD"@ {
        Some(CurrencyCode::HKD)
    } else if q == "HNL"@ {
        Some(CurrencyCode::HNL)
    } else if q == "HTG"@ {
        Some(CurrencyCode::HTG)
    } else if q == "HUF"@ {
        Some(CurrencyCode::HUF)
    } else if q == "IDR"@ {
        Some(CurrencyCode::IDR)
    } else if q == "ILS"@ {
        Some(CurrencyCode::ILS)
    } else if q == "INR"@ {
        Some(CurrencyCode::INR)
    } else if q == "IQD"@ {
        Some(CurrencyCode::IQD)
    } else if q == "IRR"@ {
        Some(CurrencyCode::IRR)
    } else if q == "ISK"@ {
        Some(CurrencyCode::ISK)
    } else if q == "JMD"@ {
        Some(CurrencyCode::JMD)
    } else if q == "JOD"@ {
        Some(CurrencyCode::JOD)
    } else if q == "JPY"@ {
        Some(CurrencyCode::JPY)
    } else if q == "KES"@ {
        Some(CurrencyCode::KES)
    } else if q == "KGS"@ {
        Some(CurrencyCode::KGS)
    } else if q == "KHR"@ {
        Some(CurrencyCode::KHR)
    } else if q == "KMF"@ {
        Some(CurrencyCode::KMF)
    } else if q == "KPW"@ {
        Some(CurrencyCode::KPW)
    } else if q == "KRW"@ {
        Some(CurrencyCode::KRW)
    } else if q == "KWD"@ {
        Some(CurrencyCode::KWD)
    } else if q == "KYD"@ {
        Some(CurrencyCode::KYD)
    } else if q == "KZT"@ {
        Some(CurrencyCode::KZT)
    } else if q == "LAK"@ {
        Some(CurrencyCode::LAK)
    } else if q == "LBP"@ {
        Some(CurrencyCode::LBP)
    } else if q == "LKR"@ {
        Some(CurrencyCode::LKR)
    } else if q == "LRD"@ {
        Some(CurrencyCode::LRD)
    } else if q == "LSL"@ {
        Some(CurrencyCode::LSL)
    } else if q == "LYD"@ {
        Some(CurrencyCode::LYD)
    } else if q == "MAD"@ {
        Some(CurrencyCode::MAD)
    } else if q == "MDL"@ {
        Some(CurrencyCode::MDL)
    } else if q == "MGA"@ {
        Some(CurrencyCode::MGA)
    } else if q == "MKD"@ {
        Some(CurrencyCode::MKD)
    } else if q == "MMK"@ {
        Some(CurrencyCode::MMK)
    } else if q == "MNT"@ {
        Some(CurrencyCode::MNT)
    } else if q == "MOP"@ {
        Some(CurrencyCode::MOP)
    } else if q == "MRU"@ {
        Some(CurrencyCode::MRU)
    } else if q == "MUR"@ {
        Some(CurrencyCode::MUR)
    } else if q == "MVR"@ {
        Some(CurrencyCode::MVR)
    } else if q == "MWK"@ {
        Some(CurrencyCode::MWK)
    } else if q == "MXN"@ {
        Some(CurrencyCode::MXN)
    } else if q == "MXV"@ {
        Some(CurrencyCode::MXV)
    } else if q == "MYR"@ {
        Some(CurrencyCode::MYR)
    } else if q == "MZN"@ {
        Some(CurrencyCode::MZN)
    } else if q == "NAD"@ {
        Some(CurrencyCode::NAD)
    } else if q == "NGN"@ {
        Some(CurrencyCode::NGN)
    } else if q == "NIO"@ {
        Some(CurrencyCode::NIO)
    } else if q == "NOK"@ {
        Some(CurrencyCode::NOK)
    } else if q == "NPR"@ {
        Some(CurrencyCode::NPR)
    } else if q == "NZD"@ {
        Some(CurrencyCode::NZD)
    } else if q == "OMR"@ {
        Some(CurrencyCode::OMR)
    } else if q == "PAB"@ {
        Some(CurrencyCode::PAB)
    } else if q == "PEN"@ {
        Some(CurrencyCode::PEN)
    } else if q == "PGK"@ {
        Some(CurrencyCode::PGK)
    } else if q == "PHP"@ {
        Some(CurrencyCode::PHP)
    } else if q == "PKR"@ {
        Some(CurrencyCode::PKR)
    } else if q == "PLN"@ {
        Some(CurrencyCode::PLN)
    } else if q == "PYG"@ {
        Some(CurrencyCode::PYG)
    } else if q == "QAR"@ {
        Some(CurrencyCode::QAR)
    } else if q == "RON"@ {
        Some(CurrencyCode::RON)
    } else if q == "RSD"@ {
        Some(CurrencyCode::RSD)
    } else if q == "RUB"@ {
        Some(CurrencyCode::RUB)
    } else if q == "RWF"@ {
        Some(CurrencyCode::RWF)
    } else if q == "SAR"@ {
        Some(CurrencyCode::SAR)
    } else if q == "SBD"@ {
        Some(CurrencyCode::SBD)
    } else if q == "SCR"@ {
        Some(CurrencyCode::SCR)
    } else if q == "SDG"@ {
        Some(CurrencyCode::SDG)
    } else if q == "SEK"@ {
        Some(CurrencyCode::SEK)
    } else if q == "SGD"@ {
        Some(CurrencyCode::SGD)
    } else if q == "SHP"@ {
        Some(CurrencyCode::SHP)
    } else if q == "SLE"@ {
        Some(CurrencyCode::SLE)
    } else if q == "SOS"@ {
        Some(CurrencyCode::SOS)
    } else if q == "SRD"@ {
        Some(CurrencyCode::SRD)
    } else if q == "SSP"@ {
        Some(CurrencyCode::SSP)
    } else if q == "STN"@ {
        Some(CurrencyCode::STN)
    } else if q == "SVC"@ {
        Some(CurrencyCode::SVC)
    } else if q == "SYP"@ {
        Some(CurrencyCode::SYP)
    } else if q == "SZL"@ {
        Some(CurrencyCode::SZL)
    } else if q == "THB"@ {
        Some(CurrencyCode::THB)
    } else if q == "TJS"@ {
        Some(CurrencyCode::TJS)
    } else if q == "TMT"@ {
        Some(CurrencyCode::TMT)
    } else if q == "TND"@ {
        Some(CurrencyCode::TND)
    } else if q == "TOP"@ {
        Some(CurrencyCode::TOP)
    } else if q == "TRY"@ {
        Some(CurrencyCode::TRY)
    } else if q == "TTD"@ {
        Some(CurrencyCode::TTD)
    } else if q == "TWD"@ {
        Some(CurrencyCode::TWD)
    } else if q == "TZS"@ {
        Some(CurrencyCode::TZS)
    } else if q == "UAH"@ {
        Some(CurrencyCode::UAH)
    } else if q == "UGX"@ {
        Some(CurrencyCode::UGX)
    } else if q == "USD"@ {
        Some(CurrencyCode::USD)
    } else if q == "USN"@ {
        Some(CurrencyCode::USN)
    } else if q == "UYI"@ {
        Some(CurrencyCode::UYI)
    } else if q == "UYU"@ {
        Some(CurrencyCode::UYU)
    } else if q == "UYW"@ {
        Some(CurrencyCode::UYW)
    } else if q == "UZS"@ {
        Some(CurrencyCode::UZS)
    } else if q == "VED"@ {
        Some(CurrencyCode::VED)
    } else if q == "VES"@ {
        Some(CurrencyCode::VES)
    } else if q == "VND"@ {
        Some(CurrencyCode::VND)
    } else if q == "VUV"@ {
        Some(CurrencyCode::VUV)
    } else if q == "WST"@ {
        Some(CurrencyCode::WST)
    } else if q == "XAF"@ {
        Some(CurrencyCode::XAF)
    } else if q == "XAG"@ {
        Some(CurrencyCode::XAG)
    } else if q == "XAU"@ {
        Some(CurrencyCode::XAU)
    } else if q == "XBA"@ {
        Some(CurrencyCode::XBA)
    } else if q == "XBB"@ {
        Some(CurrencyCode::XBB)
    } else if q == "XBC"@ {
        Some(CurrencyCode::XBC)
    } else if q == "XBD"@ {
        Some(CurrencyCode::XBD)
    } else if q == "XCD"@ {
        Some(CurrencyCode::XCD)
    } else if q == "XDR"@ {
        Some(CurrencyCode::XDR)
    } else if q == "XOF"@ {
        Some(CurrencyCode::XOF)
    } else if q == "XPD"@ {
        Some(CurrencyCode::XPD)
    } else if q == "XPF"@ {
        Some(CurrencyCode::XPF)
    } else if q == "XPT"@ {
        Some(CurrencyCode::XPT)
    } else if q == "XSU"@ {
        Some(CurrencyCode::XSU)
    } else if q == "XTS"@ {
        Some(CurrencyCode::XTS)
    } else if q == "XUA"@ {
        Some(CurrencyCode::XUA)
    } else if q == "XXX"@ {
        Some(CurrencyCode::XXX)
    } else if q == "YER"@ {
        Some(CurrencyCode::YER)
    } else if q == "ZAR"@ {
        Some(CurrencyCode::ZAR)
    } else if q == "ZMW"@ {
        Some(CurrencyCode::ZMW)
    } else if q == "ZWG"@ {
        Some(CurrencyCode::ZWG)
    } else {
        None
    }
}

impl CurrencyCode {
    pub fn as_str(&self) -> (r: &str)
        ensures
            r@ == spec_currency_str(*self),
    {
        match self {
            CurrencyCode::AED => "AED",
            CurrencyCode::AFN => "AFN",
            CurrencyCode::ALL => "ALL",
            CurrencyCode::AMD => "AMD",
            CurrencyCode::ANG => "ANG",
            CurrencyCode::AOA => "AOA",
            CurrencyCode::ARS => "ARS",
            CurrencyCode::AUD => "AUD",
            CurrencyCode::AWG => "AWG",
            CurrencyCode::AZN => "AZN",
            CurrencyCode::BAM => "BAM",
            CurrencyCode::BBD => "BBD",
            CurrencyCode::BDT => "BDT",
            CurrencyCode::BGN => "BGN",
            CurrencyCode::BHD => "BHD",
            CurrencyCode::BIF => "BIF",
            CurrencyCode::BMD => "BMD",
            CurrencyCode::BND => "BND",
            CurrencyCode::BOB => "BOB",
            CurrencyCode::BOV => "BOV",
            CurrencyCode::BRL => "BRL",
            CurrencyCode::BSD => "BSD",
            CurrencyCode::BTN => "BTN",
            CurrencyCode::BWP => "BWP",
            CurrencyCode::BYN => "BYN",
            CurrencyCode::BZD => "BZD",
            CurrencyCode::CAD => "CAD",
            CurrencyCode::CDF => "CDF",
            CurrencyCode::CHE => "CHE",
            CurrencyCode::CHF => "CHF",
            CurrencyCode::CHW => "CHW",
            CurrencyCode::CLF => "CLF",
            CurrencyCode::CLP => "CLP",
            CurrencyCode::CNY => "CNY",
            CurrencyCode::COP => "COP",
            CurrencyCode::COU => "COU",
            CurrencyCode::CRC => "CRC",
            CurrencyCode::CUP => "CUP",
            CurrencyCode::CVE => "CVE",
            CurrencyCode::CZK => "CZK",
            CurrencyCode::DJF => "DJF",
            CurrencyCode::DKK => "DKK",
            CurrencyCode::DOP => "DOP",
            CurrencyCode::DZD => "DZD",
            CurrencyCode::EGP => "EGP",
            CurrencyCode::ERN => "ERN",
            CurrencyCode::ETB => "ETB",
            CurrencyCode::EUR => "EUR",
            CurrencyCode::FJD => "FJD",
            CurrencyCode::FKP => "FKP",
            CurrencyCode::GBP => "GBP",
            CurrencyCode::GEL => "GEL",
            CurrencyCode::GHS => "GHS",
            CurrencyCode::GIP => "GIP",
            CurrencyCode::GMD => "GMD",
            CurrencyCode::GNF => "GNF",
            CurrencyCode::GTQ => "GTQ",
            CurrencyCode::GYD => "GYD",
            CurrencyCode::HKD => "HKD",
            CurrencyCode::HNL => "HNL",
            CurrencyCode::HTG => "HTG",
            CurrencyCode::HUF => "HUF",
            CurrencyCode::IDR => "IDR",
            CurrencyCode::ILS => "ILS",
            CurrencyCode::INR => "INR",
            CurrencyCode::IQD => "IQD",
            CurrencyCode::IRR => "IRR",
            CurrencyCode::ISK => "ISK",
            CurrencyCode::JMD => "JMD",
            CurrencyCode::JOD => "JOD",
            CurrencyCode::JPY => "JPY",
            CurrencyCode::KES => "KES",
            CurrencyCode::KGS => "KGS",
            CurrencyCode::KHR => "KHR",
            CurrencyCode::KMF => "KMF",
            CurrencyCode::KPW => "KPW",
            CurrencyCode::KRW => "KRW",
            CurrencyCode::KWD => "KWD",
            CurrencyCode::KYD => "KYD",
            CurrencyCode::KZT => "KZT",
            CurrencyCode::LAK => "LAK",
            CurrencyCode::LBP => "LBP",
            CurrencyCode::LKR => "LKR",
            CurrencyCode::LRD => "LRD",
            CurrencyCode::LSL => "LSL",
            CurrencyCode::LYD => "LYD",
            CurrencyCode::MAD => "MAD",
            CurrencyCode::MDL => "MDL",
            CurrencyCode::MGA => "MGA",
            CurrencyCode::MKD => "MKD",
            CurrencyCode::MMK => "MMK",
            CurrencyCode::MNT => "MNT",
            CurrencyCode::MOP => "MOP",
            CurrencyCode::MRU => "MRU",
            CurrencyCode::MUR => "MUR",
            CurrencyCode::MVR => "MVR",
            CurrencyCode::MWK => "MWK",
            CurrencyCode::MXN => "MXN",
            CurrencyCode::MXV => "MXV",
            CurrencyCode::MYR => "MYR",
            CurrencyCode::MZN => "MZN",
            CurrencyCode::NAD => "NAD",
            CurrencyCode::NGN => "NGN",
            CurrencyCode::NIO => "NIO",
            CurrencyCode::NOK => "NOK",
            CurrencyCode::NPR => "NPR",
            CurrencyCode::NZD => "NZD",
            CurrencyCode::OMR => "OMR",
            CurrencyCode::PAB => "PAB",
            CurrencyCode::PEN => "PEN",
            CurrencyCode::PGK => "PGK",
            CurrencyCode::PHP => "PHP",
            CurrencyCode::PKR => "PKR",
            CurrencyCode::PLN => "PLN",
            CurrencyCode::PYG => "PYG",
            CurrencyCode::QAR => "QAR",
            CurrencyCode::RON => "RON",
            CurrencyCode::RSD => "RSD",
            CurrencyCode::RUB => "RUB",
            CurrencyCode::RWF => "RWF",
            CurrencyCode::SAR => "SAR",
            CurrencyCode::SBD => "SBD",
            CurrencyCode::SCR => "SCR",
            CurrencyCode::SDG => "SDG",
            CurrencyCode::SEK => "SEK",
            CurrencyCode::SGD => "SGD",
            CurrencyCode::SHP => "SHP",
            CurrencyCode::SLE => "SLE",
            CurrencyCode::SOS => "SOS",
            CurrencyCode::SRD => "SRD",
            CurrencyCode::SSP => "SSP",
            CurrencyCode::STN => "STN",
            CurrencyCode::SVC => "SVC",
            CurrencyCode::SYP => "SYP",
            CurrencyCode::SZL => "SZL",
            CurrencyCode::THB => "THB",
            CurrencyCode::TJS => "TJS",
            CurrencyCode::TMT => "TMT",
            CurrencyCode::TND => "TND",
            CurrencyCode::TOP => "TOP",
            CurrencyCode::TRY => "TRY",
            CurrencyCode::TTD => "TTD",
            CurrencyCode::TWD => "TWD",
            CurrencyCode::TZS => "TZS",
            CurrencyCode::UAH => "UAH",
            CurrencyCode::UGX => "UGX",
            CurrencyCode::USD => "USD",
            CurrencyCode::USN => "USN",
            CurrencyCode::UYI => "UYI",
            CurrencyCode::UYU => "UYU",
            CurrencyCode::UYW => "UYW",
            CurrencyCode::UZS => "UZS",
            CurrencyCode::VED => "VED",
            CurrencyCode::VES => "VES",
            CurrencyCode::VND => "VND",
            CurrencyCode::VUV => "VUV",
            CurrencyCode::WST => "WST",
            CurrencyCode::XAF => "XAF",
            CurrencyCode::XAG => "XAG",
            CurrencyCode::XAU => "XAU",
            CurrencyCode::XBA => "XBA",
            CurrencyCode::XBB => "XBB",
            CurrencyCode::XBC => "XBC",
            CurrencyCode::XBD => "XBD",
            CurrencyCode::XCD => "XCD",
            CurrencyCode::XDR => "XDR",
            CurrencyCode::XOF => "XOF",
            CurrencyCode::XPD => "XPD",
            CurrencyCode::XPF => "XPF",
            CurrencyCode::XPT => "XPT",
            CurrencyCode::XSU => "XSU",
            CurrencyCode::XTS => "XTS",
            CurrencyCode::XUA => "XUA",
            CurrencyCode::XXX => "XXX",
            CurrencyCode::YER => "YER",
            CurrencyCode::ZAR => "ZAR",
            CurrencyCode::ZMW => "ZMW",
            CurrencyCode::ZWG => "ZWG",
        }
    }

    /// Looks a code up by its exact text.
    #[verifier::rlimit(100)]
    pub fn from_str(s: &str) -> (r: Result<CurrencyCode, InvalidCurrencyCode>)
        ensures
            r matches Ok(c) ==> spec_currency_from(s@) == Some(c),
            r is Err ==> spec_currency_from(s@) is None,
            r is Err ==> (r matches Err(e) && e.text@ == s@),
    {
        if crate::strutil::str_eq(s, "AED") {
            Ok(CurrencyCode::AED)
        } else if crate::strutil::str_eq(s, "AFN") {
            Ok(CurrencyCode::AFN)
        } else if crate::strutil::str_eq(s, "ALL") {
            Ok(CurrencyCode::ALL)
        } else if crate::strutil::str_eq(s, "AMD") {
            Ok(CurrencyCode::AMD)
        } else if crate::strutil::str_eq(s, "ANG") {
            Ok(CurrencyCode::ANG)
        } else if crate::strutil::str_eq(s, "AOA") {
            Ok(CurrencyCode::AOA)
        } else if crate::strutil::str_eq(s, "ARS") {
            Ok(CurrencyCode::ARS)
        } else if crate::strutil::str_eq(s, "AUD") {
            Ok(CurrencyCode::AUD)
        } else if crate::strutil::str_eq(s, "AWG") {
            Ok(CurrencyCode::AWG)
        } else if crate::strutil::str_eq(s, "AZN") {
            Ok(CurrencyCode::AZN)
        } else if crate::strutil::str_eq(s, "BAM") {
            Ok(CurrencyCode::BAM)
        } else if crate::strutil::str_eq(s, "BBD") {
            Ok(CurrencyCode::BBD)
        } else if crate::strutil::str_eq(s, "BDT") {
            Ok(CurrencyCode::BDT)
        } else if crate::strutil::str_eq(s, "BGN") {
            Ok(CurrencyCode::BGN)
        } else if crate::strutil::str_eq(s, "BHD") {
            Ok(CurrencyCode::BHD)
        } else if crate::strutil::str_eq(s, "BIF") {
            Ok(CurrencyCode::BIF)
        } else if crate::strutil::str_eq(s, "BMD") {
            Ok(CurrencyCode::BMD)
        } else if crate::strutil::str_eq(s, "BND") {
            Ok(CurrencyCode::BND)
        } else if crate::strutil::str_eq(s, "BOB") {
            Ok(CurrencyCode::BOB)
        } else if crate::strutil::str_eq(s, "BOV") {
            Ok(CurrencyCode::BOV)
        } else if crate::strutil::str_eq(s, "BRL") {
            Ok(CurrencyCode::BRL)
        } else if crate::strutil::str_eq(s, "BSD") {
            Ok(CurrencyCode::BSD)
        } else if crate::strutil::str_eq(s, "BTN") {
            Ok(CurrencyCode::BTN)
        } else if crate::strutil::str_eq(s, "BWP") {
            Ok(CurrencyCode::BWP)
        } else if crate::strutil::str_eq(s, "BYN") {
            Ok(CurrencyCode::BYN)
        } else if crate::strutil::str_eq(s, "BZD") {
            Ok(CurrencyCode::BZD)
        } else if crate::strutil::str_eq(s, "CAD") {
            Ok(CurrencyCode::CAD)
        } else if crate::strutil::str_eq(s, "CDF") {
            Ok(CurrencyCode::CDF)
        } else if crate::strutil::str_eq(s, "CHE") {
            Ok(CurrencyCode::CHE)
        } else if crate::strutil::str_eq(s, "CHF") {
            Ok(CurrencyCode::CHF)
        } else if crate::strutil::str_eq(s, "CHW") {
            Ok(CurrencyCode::CHW)
        } else if crate::strutil::str_eq(s, "CLF") {
            Ok(CurrencyCode::CLF)
        } else if crate::strutil::str_eq(s, "CLP") {
            Ok(CurrencyCode::CLP)
        } else if crate::strutil::str_eq(s, "CNY") {
            Ok(CurrencyCode::CNY)
        } else if crate::strutil::str_eq(s, "COP") {
            Ok(CurrencyCode::COP)
        } else if crate::strutil::str_eq(s, "COU") {
            Ok(CurrencyCode::COU)
        } else if crate::strutil::str_eq(s, "CRC") {
            Ok(CurrencyCode::CRC)
        } else if crate::strutil::str_eq(s, "CUP") {
            Ok(CurrencyCode::CUP)
        } else if crate::strutil::str_eq(s, "CVE") {
            Ok(CurrencyCode::CVE)
        } else if crate::strutil::str_eq(s, "CZK") {
            Ok(CurrencyCode::CZK)
        } else if crate::strutil::str_eq(s, "DJF") {
            Ok(CurrencyCode::DJF)
        } else if crate::strutil::str_eq(s, "DKK") {
            Ok(CurrencyCode::DKK)
        } else if crate::strutil::str_eq(s, "DOP") {
            Ok(CurrencyCode::DOP)
        } else if crate::strutil::str_eq(s, "DZD") {
            Ok(CurrencyCode::DZD)
        } else if crate::strutil::str_eq(s, "EGP") {
            Ok(CurrencyCode::EGP)
        } else if crate::strutil::str_eq(s, "ERN") {
            Ok(CurrencyCode::ERN)
        } else if crate::strutil::str_eq(s, "ETB") {
            Ok(CurrencyCode::ETB)
        } else if crate::strutil::str_eq(s, "EUR") {
            Ok(CurrencyCode::EUR)
        } else if crate::strutil::str_eq(s, "FJD") {
            Ok(CurrencyCode::FJD)
        } else if crate::strutil::str_eq(s, "FKP") {
            Ok(CurrencyCode::FKP)
        } else if crate::strutil::str_eq(s, "GBP") {
            Ok(CurrencyCode::GBP)
        } else if crate::strutil::str_eq(s, "GEL") {
            Ok(CurrencyCode::GEL)
        } else if crate::strutil::str_eq(s, "GHS") {
            Ok(CurrencyCode::GHS)
        } else if crate::strutil::str_eq(s, "GIP") {
            Ok(CurrencyCode::GIP)
        } else if crate::strutil::str_eq(s, "GMD") {
            Ok(CurrencyCode::GMD)
        } else if crate::strutil::str_eq(s, "GNF") {
            Ok(CurrencyCode::GNF)
        } else if crate::strutil::str_eq(s, "GTQ") {
            Ok(CurrencyCode::GTQ)
        } else if crate::strutil::str_eq(s, "GYD") {
            Ok(CurrencyCode::GYD)
        } else if crate::strutil::str_eq(s, "HKD") {
            Ok(CurrencyCode::HKD)
        } else if crate::strutil::str_eq(s, "HNL") {
            Ok(CurrencyCode::HNL)
        } else if crate::strutil::str_eq(s, "HTG") {
            Ok(CurrencyCode::HTG)
        } else if crate::strutil::str_eq(s, "HUF") {
            Ok(CurrencyCode::HUF)
        } else if crate::strutil::str_eq(s, "IDR") {
            Ok(CurrencyCode::IDR)
        } else if crate::strutil::str_eq(s, "ILS") {
            Ok(CurrencyCode::ILS)
        } else if crate::strutil::str_eq(s, "INR") {
            Ok(CurrencyCode::INR)
        } else if crate::strutil::str_eq(s, "IQD") {
            Ok(CurrencyCode::IQD)
        } else if crate::strutil::str_eq(s, "IRR") {
            Ok(CurrencyCode::IRR)
        } else if crate::strutil::str_eq(s, "ISK") {
            Ok(CurrencyCode::ISK)
        } else if crate::strutil::str_eq(s, "JMD") {
            Ok(CurrencyCode::JMD)
        } else if crate::strutil::str_eq(s, "JOD") {
            Ok(CurrencyCode::JOD)
        } else if crate::strutil::str_eq(s, "JPY") {
            Ok(CurrencyCode::JPY)
        } else if crate::strutil::str_eq(s, "KES") {
            Ok(CurrencyCode::KES)
        } else if crate::strutil::str_eq(s, "KGS") {
            Ok(CurrencyCode::KGS)
        } else if crate::strutil::str_eq(s, "KHR") {
            Ok(CurrencyCode::KHR)
        } else if crate::strutil::str_eq(s, "KMF") {
            Ok(CurrencyCode::KMF)
        } else if crate::strutil::str_eq(s, "KPW") {
            Ok(CurrencyCode::KPW)
        } else if crate::strutil::str_eq(s, "KRW") {
            Ok(CurrencyCode::KRW)
        } else if crate::strutil::str_eq(s, "KWD") {
            Ok(CurrencyCode::KWD)
        } else if crate::strutil::str_eq(s, "KYD") {
            Ok(CurrencyCode::KYD)
        } else if crate::strutil::str_eq(s, "KZT") {
            Ok(CurrencyCode::KZT)
        } else if crate::strutil::str_eq(s, "LAK") {
            Ok(CurrencyCode::LAK)
        } else if crate::strutil::str_eq(s, "LBP") {
            Ok(CurrencyCode::LBP)
        } else if crate::strutil::str_eq(s, "LKR") {
            Ok(CurrencyCode::LKR)
        } else if crate::strutil::str_eq(s, "LRD") {
            Ok(CurrencyCode::LRD)
        } else if crate::strutil::str_eq(s, "LSL") {
            Ok(CurrencyCode::LSL)
        } else if crate::strutil::str_eq(s, "LYD") {
            Ok(CurrencyCode::LYD)
        } else if crate::strutil::str_eq(s, "MAD") {
            Ok(CurrencyCode::MAD)
        } else if crate::strutil::str_eq(s, "MDL") {
            Ok(CurrencyCode::MDL)
        } else if crate::strutil::str_eq(s, "MGA") {
            Ok(CurrencyCode::MGA)
        } else if crate::strutil::str_eq(s, "MKD") {
            Ok(CurrencyCode::MKD)
        } else if crate::strutil::str_eq(s, "MMK") {
            Ok(CurrencyCode::MMK)
        } else if crate::strutil::str_eq(s, "MNT") {
            Ok(CurrencyCode::MNT)
        } else if crate::strutil::str_eq(s, "MOP") {
            Ok(CurrencyCode::MOP)
        } else if crate::strutil::str_eq(s, "MRU") {
            Ok(CurrencyCode::MRU)
        } else if crate::strutil::str_eq(s, "MUR") {
            Ok(CurrencyCode::MUR)
        } else if crate::strutil::str_eq(s, "MVR") {
            Ok(CurrencyCode::MVR)
        } else if crate::strutil::str_eq(s, "MWK") {
            Ok(CurrencyCode::MWK)
        } else if crate::strutil::str_eq(s, "MXN") {
            Ok(CurrencyCode::MXN)
        } else if crate::strutil::str_eq(s, "MXV") {
            Ok(CurrencyCode::MXV)
        } else if crate::strutil::str_eq(s, "MYR") {
            Ok(CurrencyCode::MYR)
        } else if crate::strutil::str_eq(s, "MZN") {
            Ok(CurrencyCode::MZN)
        } else if crate::strutil::str_eq(s, "NAD") {
            Ok(CurrencyCode::NAD)
        } else if crate::strutil::str_eq(s, "NGN") {
            Ok(CurrencyCode::NGN)
        } else if crate::strutil::str_eq(s, "NIO") {
            Ok(CurrencyCode::NIO)
        } else if crate::strutil::str_eq(s, "NOK") {
            Ok(CurrencyCode::NOK)
        } else if crate::strutil::str_eq(s, "NPR") {
            Ok(CurrencyCode::NPR)
        } else if crate::strutil::str_eq(s, "NZD") {
            Ok(CurrencyCode::NZD)
        } else if crate::strutil::str_eq(s, "OMR") {
            Ok(CurrencyCode::OMR)
        } else if crate::strutil::str_eq(s, "PAB") {
            Ok(CurrencyCode::PAB)
        } else if crate::strutil::str_eq(s, "PEN") {
            Ok(CurrencyCode::PEN)
        } else if crate::strutil::str_eq(s, "PGK") {
            Ok(CurrencyCode::PGK)
        } else if crate::strutil::str_eq(s, "PHP") {
            Ok(CurrencyCode::PHP)
        } else if crate::strutil::str_eq(s, "PKR") {
            Ok(CurrencyCode::PKR)
        } else if crate::strutil::str_eq(s, "PLN") {
            Ok(CurrencyCode::PLN)
        } else if crate::strutil::str_eq(s, "PYG") {
            Ok(CurrencyCode::PYG)
        } else if crate::strutil::str_eq(s, "QAR") {
            Ok(CurrencyCode::QAR)
        } else if crate::strutil::str_eq(s, "RON") {
            Ok(CurrencyCode::RON)
        } else if crate::strutil::str_eq(s, "RSD") {
            Ok(CurrencyCode::RSD)
        } else if crate::strutil::str_eq(s, "RUB") {
            Ok(CurrencyCode::RUB)
        } else if crate::strutil::str_eq(s, "RWF") {
            Ok(CurrencyCode::RWF)
        } else if crate::strutil::str_eq(s, "SAR") {
            Ok(CurrencyCode::SAR)
        } else if crate::strutil::str_eq(s, "SBD") {
            Ok(CurrencyCode::SBD)
        } else if crate::strutil::str_eq(s, "SCR") {
            Ok(CurrencyCode::SCR)
        } else if crate::strutil::str_eq(s, "SDG") {
            Ok(CurrencyCode::SDG)
        } else if crate::strutil::str_eq(s, "SEK") {
            Ok(CurrencyCode::SEK)
        } else if crate::strutil::str_eq(s, "SGD") {
            Ok(CurrencyCode::SGD)
        } else if crate::strutil::str_eq(s, "SHP") {
            Ok(CurrencyCode::SHP)
        } else if crate::strutil::str_eq(s, "SLE") {
            Ok(CurrencyCode::SLE)
        } else if crate::strutil::str_eq(s, "SOS") {
            Ok(CurrencyCode::SOS)
        } else if crate::strutil::str_eq(s, "SRD") {
            Ok(CurrencyCode::SRD)
        } else if crate::strutil::str_eq(s, "SSP") {
            Ok(CurrencyCode::SSP)
        } else if crate::strutil::str_eq(s, "STN") {
            Ok(CurrencyCode::STN)
        } else if crate::strutil::str_eq(s, "SVC") {
            Ok(CurrencyCode::SVC)
        } else if crate::strutil::str_eq(s, "SYP") {
            Ok(CurrencyCode::SYP)
        } else if crate::strutil::str_eq(s, "SZL") {
            Ok(CurrencyCode::SZL)
        } else if crate::strutil::str_eq(s, "THB") {
            Ok(CurrencyCode::THB)
        } else if crate::strutil::str_eq(s, "TJS") {
            Ok(CurrencyCode::TJS)
        } else if crate::strutil::str_eq(s, "TMT") {
            Ok(CurrencyCode::TMT)
        } else if crate::strutil::str_eq(s, "TND") {
            Ok(CurrencyCode::TND)
        } else if crate::strutil::str_eq(s, "TOP") {
            Ok(CurrencyCode::TOP)
        } else if crate::strutil::str_eq(s, "TRY") {
            Ok(CurrencyCode::TRY)
        } else if crate::strutil::str_eq(s, "TTD") {
            Ok(CurrencyCode::TTD)
        } else if crate::strutil::str_eq(s, "TWD") {
            Ok(CurrencyCode::TWD)
        } else if crate::strutil::str_eq(s, "TZS") {
            Ok(CurrencyCode::TZS)
        } else if crate::strutil::str_eq(s, "UAH") {
            Ok(CurrencyCode::UAH)
        } else if crate::strutil::str_eq(s, "UGX") {
            Ok(CurrencyCode::UGX)
        } else if crate::strutil::str_eq(s, "USD") {
            Ok(CurrencyCode::USD)
        } else if crate::strutil::str_eq(s, "USN") {
            Ok(CurrencyCode::USN)
        } else if crate::strutil::str_eq(s, "UYI") {
            Ok(CurrencyCode::UYI)
        } else if crate::strutil::str_eq(s, "UYU") {
            Ok(CurrencyCode::UYU)
        } else if crate::strutil::str_eq(s, "UYW") {
            Ok(CurrencyCode::UYW)
        } else if crate::strutil::str_eq(s, "UZS") {
            Ok(CurrencyCode::UZS)
        } else if crate::strutil::str_eq(s, "VED") {
            Ok(CurrencyCode::VED)
        } else if crate::strutil::str_eq(s, "VES") {
            Ok(CurrencyCode::VES)
        } else if crate::strutil::str_eq(s, "VND") {
            Ok(CurrencyCode::VND)
        } else if crate::strutil::str_eq(s, "VUV") {
            Ok(CurrencyCode::VUV)
        } else if crate::strutil::str_eq(s, "WST") {
            Ok(CurrencyCode::WST)
        } else if crate::strutil::str_eq(s, "XAF") {
            Ok(CurrencyCode::XAF)
        } else if crate::strutil::str_eq(s, "XAG") {
            Ok(CurrencyCode::XAG)
        } else if crate::strutil::str_eq(s, "XAU") {
            Ok(CurrencyCode::XAU)
        } else if crate::strutil::str_eq(s, "XBA") {
            Ok(CurrencyCode::XBA)
        } else if crate::strutil::str_eq(s, "XBB") {
            Ok(CurrencyCode::XBB)
        } else if crate::strutil::str_eq(s, "XBC") {
            Ok(CurrencyCode::XBC)
        } else if crate::strutil::str_eq(s, "XBD") {
            Ok(CurrencyCode::XBD)
        } else if crate::strutil::str_eq(s, "XCD") {
            Ok(CurrencyCode::XCD)
        } else if crate::strutil::str_eq(s, "XDR") {
            Ok(CurrencyCode::XDR)
        } else if crate::strutil::str_eq(s, "XOF") {
            Ok(CurrencyCode::XOF)
        } else if crate::strutil::str_eq(s, "XPD") {
            Ok(CurrencyCode::XPD)
        } else if crate::strutil::str_eq(s, "XPF") {
            Ok(CurrencyCode::XPF)
        } else if crate::strutil::str_eq(s, "XPT") {
            Ok(CurrencyCode::XPT)
        } else if crate::strutil::str_eq(s, "XSU") {
            Ok(CurrencyCode::XSU)
        } else if crate::strutil::str_eq(s, "XTS") {
            Ok(CurrencyCode::XTS)
        } else if crate::strutil::str_eq(s, "XUA") {
            Ok(CurrencyCode::XUA)
        } else if crate::strutil::str_eq(s, "XXX") {
            Ok(CurrencyCode::XXX)
        } else if crate::strutil::str_eq(s, "YER") {
            Ok(CurrencyCode::YER)
        } else if crate::strutil::str_eq(s, "ZAR") {
            Ok(CurrencyCode::ZAR)
        } else if crate::strutil::str_eq(s, "ZMW") {
            Ok(CurrencyCode::ZMW)
        } else if crate::strutil::str_eq(s, "ZWG") {
            Ok(CurrencyCode::ZWG)
        } else {
            Err(InvalidCurrencyCode { text: s.to_owned() })
        }
    }
}

/// How a currency amount shows its currency.
#[derive(Debug, Clone, Copy, PartialEq, Eq, Structural, Hash)]
pub enum CurrencyDisplayStyle {
    Code,
    Symbol,
    NarrowSymbol,
    Name,
}

/// The display style, if any, named by the lowercased keyword `q`.
pub open spec fn spec_display_style_from(q: Seq<char>) -> Option<CurrencyDisplayStyle> {
    if q == "code"@ {
        Some(CurrencyDisplayStyle::Code)
    } else if q == "symbol"@ {
        Some(CurrencyDisplayStyle::Symbol)
    } else if q == "narrowsymbol"@ {
        Some(CurrencyDisplayStyle::NarrowSymbol)
    } else if q == "name"@ {
        Some(CurrencyDisplayStyle::Name)
    } else {
        None
    }
}

impl CurrencyDisplayStyle {
    /// Parses the keyword, ASCII case-insensitively.
    pub fn from_str(s: &str) -> (r: Result<CurrencyDisplayStyle, InvalidCurrencyDisplayStyleError>)
        ensures
            r matches Ok(v) ==> spec_display_style_from(spec_lower(s@)) == Some(v),
            r is Err ==> spec_display_style_from(spec_lower(s@)) is None,
    {
        let t = ascii_lowercase(s);
        if str_eq(t.as_str(), "code") {
            Ok(CurrencyDisplayStyle::Code)
        } else if str_eq(t.as_str(), "symbol") {
            Ok(CurrencyDisplayStyle::Symbol)
        } else if str_eq(t.as_str(), "narrowsymbol") {
            Ok(CurrencyDisplayStyle::NarrowSymbol)
        } else if str_eq(t.as_str(), "name") {
            Ok(CurrencyDisplayStyle::Name)
        } else {
            Err(InvalidCurrencyDisplayStyleError { text: s.to_owned() })
        }
    }
}

impl Default for CurrencyDisplayStyle {
    fn default() -> (r: Self)
        ensures
            r == CurrencyDisplayStyle::Symbol,
    {
        CurrencyDisplayStyle::Symbol
    }
}

/// Whether a negative currency amount uses a sign or accounting brackets.
#[derive(Debug, Clone, Copy, PartialEq, Eq, Structural, Hash)]
pub enum CurrencySignMode {
    Standard,
    Accounting,
}

/// The sign mode, if any, named by the lowercased keyword `q`.
pub open spec fn spec_sign_mode_from(q: Seq<char>) -> Option<CurrencySignMode> {
    if q == "standard"@ {
        Some(CurrencySignMode::Standard)
    } else if q == "accounting"@ {
        Some(CurrencySignMode::Accounting)
    } else {
        None
    }
}

impl CurrencySignMode {
    /// Parses the keyword, ASCII case-insensitively.
    pub fn from_str(s: &str) -> (r: Result<CurrencySignMode, InvalidCurrencySignModeError>)
        ensures
            r matches Ok(v) ==> spec_sign_mode_from(spec_lower(s@)) == Some(v),
            r is Err ==> spec_sign_mode_from(spec_lower(s@)) is None,
    {
        let t = ascii_lowercase(s);
        if str_eq(t.as_str(), "standard") {
            Ok(CurrencySignMode::Standard)
        } else if str_eq(t.as_str(), "accounting") {
            Ok(CurrencySignMode::Accounting)
        } else {
            Err(InvalidCurrencySignModeError { text: s.to_owned() })
        }
    }
}

impl Default for CurrencySignMode {
    fn default() -> (r: Self)
        ensures
            r == CurrencySignMode::Standard,
    {
        CurrencySignMode::Standard
    }
}

/// The index of the first `-per-` in `q`, or -1 when there is none.
pub open spec fn find_per(q: Seq<char>) -> int
    decreases q.len(),
{
    if q.len() < 5 {
        -1
    } else if q.subrange(0, 5) == "-per-"@ {
        0
    } else {
        let r = find_per(q.skip(1));
        if r < 0 {
            -1
        } else {
            r + 1
        }
    }
}

/// Where a scan stops is where `find_per` points.
proof fn lemma_find_per_at(q: Seq<char>, i: int)
    requires
        0 <= i,
        i + 5 <= q.len() || i == q.len(),
        forall|j: int| 0 <= j < i && j + 5 <= q.len() ==> #[trigger] q.subrange(j, j + 5) != "-per-"@,
        i + 5 <= q.len() ==> q.subrange(i, i + 5) == "-per-"@,
    ensures
        find_per(q) == if i + 5 <= q.len() {
            i
        } else {
            -1int
        },
    decreases q.len(),
{
    if q.len() < 5 {
    } else if i == 0 {
    } else {
        let t = q.skip(1);
        assert forall|j: int| 0 <= j < i - 1 && j + 5 <= t.len() implies #[trigger] t.subrange(
            j,
            j + 5,
        ) != "-per-"@ by {
            let k = j + 1;
            assert(t.subrange(j, j + 5) =~= q.subrange(k, k + 5));
        }
        if i + 5 <= q.len() {
            assert(t.subrange(i - 1, i + 4) =~= q.subrange(i, i + 5));
            lemma_find_per_at(t, i - 1);
        } else {
            lemma_find_per_at(t, t.len() as int);
        }
        let z: int = 0;
        assert(q.subrange(z, z + 5) != "-per-"@);
        assert(q.subrange(0, 5) == q.subrange(z, z + 5));
    }
}

/// Finds the first `-per-` in `s`.
fn find_per_in(s: &str) -> (r: Option<usize>)
    ensures
        r matches Some(i) ==> find_per(s@) == i && i + 5 <= s@.len(),
        r is None ==> find_per(s@) < 0,
{
    proof {
        reveal_strlit("-per-");
    }
    let len = s.unicode_len();
    if len < 5 {
        proof {
            lemma_find_per_at(s@, s@.len() as int);
        }
        return None;
    }
    let mut i: usize = 0;
    while i <= len - 5
        invariant
            len == s@.len(),
            5 <= len,
            0 <= i,
            i <= len - 4,
            forall|j: int| 0 <= j < i && j + 5 <= s@.len() ==> #[trigger] s@.subrange(j, j + 5) != "-per-"@,
        decreases len - i,
    {
        let ghost k = i as int;
        if s.get_char(i) == '-' && s.get_char(i + 1) == 'p' && s.get_char(i + 2) == 'e'
            && s.get_char(i + 3) == 'r' && s.get_char(i + 4) == '-' {
            proof {
                reveal_strlit("-per-");
                assert(s@.subrange(k, k + 5) =~= "-per-"@);
                lemma_find_per_at(s@, k);
            }
            return Some(i);
        }
        proof {
            reveal_strlit("-per-");
            assert(s@.subrange(k, k + 5) != "-per-"@) by {
                assert(s@.subrange(k, k + 5)[0] == s@[k]);
                assert(s@.subrange(k, k + 5)[1] == s@[k + 1]);
                assert(s@.subrange(k, k + 5)[2] == s@[k + 2]);
                assert(s@.subrange(k, k + 5)[3] == s@[k + 3]);
                assert(s@.subrange(k, k + 5)[4] == s@[k + 4]);
            }
        }
        i = i + 1;
    }
    proof {
        assert forall|j: int| 0 <= j < s@.len() && j + 5 <= s@.len() implies #[trigger] s@.subrange(
            j,
            j + 5,
        ) != "-per-"@ by {}
        lemma_find_per_at(s@, s@.len() as int);
    }
    None
}

/// A CLDR unit name, or a rate of one unit per another.
#[derive(Debug, PartialEq, Eq, Hash)]
pub enum UnitIdentifier {
    Derived(Box<UnitIdentifier>, Box<UnitIdentifier>),
    Acre,
    Bit,
    Byte,
    Celsius,
    Centimeter,
    Day,
    Degree,
    Fahrenheit,
    Foot,
    Gallon,
    Gigabit,
    Gigabyte,
    Gram,
    Hectare,
    Hour,
    Inch,
    Kilobit,
    Kilobyte,
    Kilogram,
    Kilometer,
    Liter,
    Megabit,
    Megabyte,
    Meter,
    Microsecond,
    Mile,
    Milliliter,
    Millimeter,
    Millisecond,
    Minute,
    Month,
    Nanosecond,
    Ounce,
    Percent,
    Petabyte,
    Pound,
    Second,
    Stone,
    Terabit,
    Terabyte,
    Week,
    Yard,
    Year,
}

/// The exact text of a unit identifier, rates joined with `-per-`.
pub open spec fn spec_unit_str(u: UnitIdentifier) -> Seq<char>
    decreases u,
{
    match u {
        UnitIdentifier::Derived(n, d) => spec_unit_str(*n) + "-per-"@ + spec_unit_str(*d),
        UnitIdentifier::Acre => "acre"@,
        UnitIdentifier::Bit => "bit"@,
        UnitIdentifier::Byte => "byte"@,
        UnitIdentifier::Celsius => "celsius"@,
        UnitIdentifier::Centimeter => "centimeter"@,
        UnitIdentifier::Day => "day"@,
        UnitIdentifier::Degree => "degree"@,
        UnitIdentifier::Fahrenheit => "fahrenheit"@,
        UnitIdentifier::Foot => "foot"@,
        UnitIdentifier::Gallon => "gallon"@,
        UnitIdentifier::Gigabit => "gigabit"@,
        UnitIdentifier::Gigabyte => "gigabyte"@,
        UnitIdentifier::Gram => "gram"@,
        UnitIdentifier::Hectare => "hectare"@,
        UnitIdentifier::Hour => "hour"@,
        UnitIdentifier::Inch => "inch"@,
        UnitIdentifier::Kilobit => "kilobit"@,
        UnitIdentifier::Kilobyte => "kilobyte"@,
        UnitIdentifier::Kilogram => "kilogram"@,
        UnitIdentifier::Kilometer => "kilometer"@,
        UnitIdentifier::Liter => "liter"@,
        UnitIdentifier::Megabit => "megabit"@,
        UnitIdentifier::Megabyte => "megabyte"@,
        UnitIdentifier::Meter => "meter"@,
        UnitIdentifier::Microsecond => "microsecond"@,
        UnitIdentifier::Mile => "mile"@,
        UnitIdentifier::Milliliter => "milliliter"@,
        UnitIdentifier::Millimeter => "millimeter"@,
        UnitIdentifier::Millisecond => "millisecond"@,
        UnitIdentifier::Minute => "minute"@,
        UnitIdentifier::Month => "month"@,
        UnitIdentifier::Nanosecond => "nanosecond"@,
        UnitIdentifier::Ounce => "ounce"@,
        UnitIdentifier::Percent => "percent"@,
        UnitIdentifier::Petabyte => "petabyte"@,
        UnitIdentifier::Pound => "pound"@,
        UnitIdentifier::Second => "second"@,
        UnitIdentifier::Stone => "stone"@,
        UnitIdentifier::Terabit => "terabit"@,
        UnitIdentifier::Terabyte => "terabyte"@,
        UnitIdentifier::Week => "week"@,
        UnitIdentifier::Yard => "yard"@,
        UnitIdentifier::Year => "year"@,
    }
}

/// The unit, if any, whose text is `q`: an exact name, or a first
/// `-per-` splitting a rate whose sides parse in turn.
pub open spec fn spec_unit_from(q: Seq<char>) -> Option<UnitIdentifier>
    decreases q.len(),
{
    if q == "acre"@ {
        Some(UnitIdentifier::Acre)
    } else if q == "bit"@ {
        Some(UnitIdentifier::Bit)
    } else if q == "byte"@ {
        Some(UnitIdentifier::Byte)
    } else if q == "celsius"@ {
        Some(UnitIdentifier::Celsius)
    } else if q == "centimeter"@ {
        Some(UnitIdentifier::Centimeter)
    } else if q == "day"@ {
        Some(UnitIdentifier::Day)
    } else if q == "degree"@ {
        Some(UnitIdentifier::Degree)
    } else if q == "fahrenheit"@ {
        Some(UnitIdentifier::Fahrenheit)
    } else if q == "foot"@ {
        Some(UnitIdentifier::Foot)
    } else if q == "gallon"@ {
        Some(UnitIdentifier::Gallon)
    } else if q == "gigabit"@ {
        Some(UnitIdentifier::Gigabit)
    } else if q == "gigabyte"@ {
        Some(UnitIdentifier::Gigabyte)
    } else if q == "gram"@ {
        Some(UnitIdentifier::Gram)
    } else if q == "hectare"@ {
        Some(UnitIdentifier::Hectare)
    } else if q == "hour"@ {
        Some(UnitIdentifier::Hour)
    } else if q == "inch"@ {
        Some(UnitIdentifier::Inch)
    } else if q == "kilobit"@ {
        Some(UnitIdentifier::Kilobit)
    } else if q == "kilobyte"@ {
        Some(UnitIdentifier::Kilobyte)
    } else if q == "kilogram"@ {
        Some(UnitIdentifier::Kilogram)
    } else if q == "kilometer"@ {
        Some(UnitIdentifier::Kilometer)
    } else if q == "liter"@ {
        Some(UnitIdentifier::Liter)
    } else if q == "megabit"@ {
        Some(UnitIdentifier::Megabit)
    } else if q == "megabyte"@ {
        Some(UnitIdentifier::Megabyte)
    } else if q == "meter"@ {
        Some(UnitIdentifier::Meter)
    } else if q == "microsecond"@ {
        Some(UnitIdentifier::Microsecond)
    } else if q == "mile"@ {
        Some(UnitIdentifier::Mile)
    } else if q == "milliliter"@ {
        Some(UnitIdentifier::Milliliter)
    } else if q == "millimeter"@ {
        Some(UnitIdentifier::Millimeter)
    } else if q == "millisecond"@ {
        Some(UnitIdentifier::Millisecond)
    } else if q == "minute"@ {
        Some(UnitIdentifier::Minute)
    } else if q == "month"@ {
        Some(UnitIdentifier::Month)
    } else if q == "nanosecond"@ {
        Some(UnitIdentifier::Nanosecond)
    } else if q == "ounce"@ {
        Some(UnitIdentifier::Ounce)
    } else if q == "percent"@ {
        Some(UnitIdentifier::Percent)
    } else if q == "petabyte"@ {
        Some(UnitIdentifier::Petabyte)
    } else if q == "pound"@ {
        Some(UnitIdentifier::Pound)
    } else if q == "second"@ {
        Some(UnitIdentifier::Second)
    } else if q == "stone"@ {
        Some(UnitIdentifier::Stone)
    } else if q == "terabit"@ {
        Some(UnitIdentifier::Terabit)
    } else if q == "terabyte"@ {
        Some(UnitIdentifier::Terabyte)
    } else if q == "week"@ {
        Some(UnitIdentifier::Week)
    } else if q == "yard"@ {
        Some(UnitIdentifier::Yard)
    } else if q == "year"@ {
        Some(UnitIdentifier::Year)
    } else {
        let i = find_per(q);
        if 0 <= i && i + 5 <= q.len() {
            match (spec_unit_from(q.take(i)), spec_unit_from(q.skip(i + 5))) {
                (Some(l), Some(r)) => Some(
                    UnitIdentifier::Derived(Box::new(l), Box::new(r)),
                ),
                _ => None,
            }
        } else {
            None
        }
    }
}

impl Clone for UnitIdentifier {
    fn clone(&self) -> (r: Self)
        ensures
            r == *self,
        decreases *self,
    {
        match self {
            UnitIdentifier::Derived(n, d) => UnitIdentifier::Derived(
                Box::new((**n).clone()),
                Box::new((**d).clone()),
            ),
            UnitIdentifier::Acre => UnitIdentifier::Acre,
            UnitIdentifier::Bit => UnitIdentifier::Bit,
            UnitIdentifier::Byte => UnitIdentifier::Byte,
            UnitIdentifier::Celsius => UnitIdentifier::Celsius,
            UnitIdentifier::Centimeter => UnitIdentifier::Centimeter,
            UnitIdentifier::Day => UnitIdentifier::Day,
            UnitIdentifier::Degree => UnitIdentifier::Degree,
            UnitIdentifier::Fahrenheit => UnitIdentifier::Fahrenheit,
            UnitIdentifier::Foot => UnitIdentifier::Foot,
            UnitIdentifier::Gallon => UnitIdentifier::Gallon,
            UnitIdentifier::Gigabit => UnitIdentifier::Gigabit,
            UnitIdentifier::Gigabyte => UnitIdentifier::Gigabyte,
            UnitIdentifier::Gram => UnitIdentifier::Gram,
            UnitIdentifier::Hectare => UnitIdentifier::Hectare,
            UnitIdentifier::Hour => UnitIdentifier::Hour,
            UnitIdentifier::Inch => UnitIdentifier::Inch,
            UnitIdentifier::Kilobit => UnitIdentifier::Kilobit,
            UnitIdentifier::Kilobyte => UnitIdentifier::Kilobyte,
            UnitIdentifier::Kilogram => UnitIdentifier::Kilogram,
            UnitIdentifier::Kilometer => UnitIdentifier::Kilometer,
            UnitIdentifier::Liter => UnitIdentifier::Liter,
            UnitIdentifier::Megabit => UnitIdentifier::Megabit,
            UnitIdentifier::Megabyte => UnitIdentifier::Megabyte,
            UnitIdentifier::Meter => UnitIdentifier::Meter,
            UnitIdentifier::Microsecond => UnitIdentifier::Microsecond,
            UnitIdentifier::Mile => UnitIdentifier::Mile,
            UnitIdentifier::Milliliter => UnitIdentifier::Milliliter,
            UnitIdentifier::Millimeter => UnitIdentifier::Millimeter,
            UnitIdentifier::Millisecond => UnitIdentifier::Millisecond,
            UnitIdentifier::Minute => UnitIdentifier::Minute,
            UnitIdentifier::Month => UnitIdentifier::Month,
            UnitIdentifier::Nanosecond => UnitIdentifier::Nanosecond,
            UnitIdentifier::Ounce => UnitIdentifier::Ounce,
            UnitIdentifier::Percent => UnitIdentifier::Percent,
            UnitIdentifier::Petabyte => UnitIdentifier::Petabyte,
            UnitIdentifier::Pound => UnitIdentifier::Pound,
            UnitIdentifier::Second => UnitIdentifier::Second,
            UnitIdentifier::Stone => UnitIdentifier::Stone,
            UnitIdentifier::Terabit => UnitIdentifier::Terabit,
            UnitIdentifier::Terabyte => UnitIdentifier::Terabyte,
            UnitIdentifier::Week => UnitIdentifier::Week,
            UnitIdentifier::Yard => UnitIdentifier::Yard,
            UnitIdentifier::Year => UnitIdentifier::Year,
        }
    }
}

impl UnitIdentifier {
    /// The rate of this unit per the given one.
    pub fn per(self, denominator: UnitIdentifier) -> (r: UnitIdentifier)
        ensures
            r == UnitIdentifier::Derived(Box::new(self), Box::new(denominator)),
    {
        UnitIdentifier::Derived(Box::new(self), Box::new(denominator))
    }

    /// Renders the unit text, rates joined with `-per-`.
    pub fn as_string(&self) -> (r: String)
        ensures
            r@ == spec_unit_str(*self),
        decreases *self,
    {
        match self {
            UnitIdentifier::Derived(n, d) => {
                let mut out = n.as_string();
                out.append("-per-");
                let tail = d.as_string();
                out.append(tail.as_str());
                proof {
                    assert(out@ =~= spec_unit_str(*self));
                }
                out
            },
            UnitIdentifier::Acre => "acre".to_owned(),
            UnitIdentifier::Bit => "bit".to_owned(),
            UnitIdentifier::Byte => "byte".to_owned(),
            UnitIdentifier::Celsius => "celsius".to_owned(),
            UnitIdentifier::Centimeter => "centimeter".to_owned(),
            UnitIdentifier::Day => "day".to_owned(),
            UnitIdentifier::Degree => "degree".to_owned(),
            UnitIdentifier::Fahrenheit => "fahrenheit".to_owned(),
            UnitIdentifier::Foot => "foot".to_owned(),
            UnitIdentifier::Gallon => "gallon".to_owned(),
            UnitIdentifier::Gigabit => "gigabit".to_owned(),
            UnitIdentifier::Gigabyte => "gigabyte".to_owned(),
            UnitIdentifier::Gram => "gram".to_owned(),
            UnitIdentifier::Hectare => "hectare".to_owned(),
            UnitIdentifier::Hour => "hour".to_owned(),
            UnitIdentifier::Inch => "inch".to_owned(),
            UnitIdentifier::Kilobit => "kilobit".to_owned(),
            UnitIdentifier::Kilobyte => "kilobyte".to_owned(),
            UnitIdentifier::Kilogram => "kilogram".to_owned(),
            UnitIdentifier::Kilometer => "kilometer".to_owned(),
            UnitIdentifier::Liter => "liter".to_owned(),
            UnitIdentifier::Megabit => "megabit".to_owned(),
            UnitIdentifier::Megabyte => "megabyte".to_owned(),
            UnitIdentifier::Meter => "meter".to_owned(),
            UnitIdentifier::Microsecond => "microsecond".to_owned(),
            UnitIdentifier::Mile => "mile".to_owned(),
            UnitIdentifier::Milliliter => "milliliter".to_owned(),
            UnitIdentifier::Millimeter => "millimeter".to_owned(),
            UnitIdentifier::Millisecond => "millisecond".to_owned(),
            UnitIdentifier::Minute => "minute".to_owned(),
            UnitIdentifier::Month => "month".to_owned(),
            UnitIdentifier::Nanosecond => "nanosecond".to_owned(),
            UnitIdentifier::Ounce => "ounce".to_owned(),
            UnitIdentifier::Percent => "percent".to_owned(),
            UnitIdentifier::Petabyte => "petabyte".to_owned(),
            UnitIdentifier::Pound => "pound".to_owned(),
            UnitIdentifier::Second => "second".to_owned(),
            UnitIdentifier::Stone => "stone".to_owned(),
            UnitIdentifier::Terabit => "terabit".to_owned(),
            UnitIdentifier::Terabyte => "terabyte".to_owned(),
            UnitIdentifier::Week => "week".to_owned(),
            UnitIdentifier::Yard => "yard".to_owned(),
            UnitIdentifier::Year => "year".to_owned(),
        }
    }

    /// Parses a unit name or a `-per-` joined rate.
    #[verifier::rlimit(100)]
    pub fn from_str(s: &str) -> (r: Result<UnitIdentifier, InvalidUnitIdentifierError>)
        ensures
            r matches Ok(u) ==> spec_unit_from(s@) == Some(u),
            r is Err ==> spec_unit_from(s@) is None,
        decreases s@.len(),
    {
        if crate::strutil::str_eq(s, "acre") {
            Ok(UnitIdentifier::Acre)
        } else if crate::strutil::str_eq(s, "bit") {
            Ok(UnitIdentifier::Bit)
        } else if crate::strutil::str_eq(s, "byte") {
            Ok(UnitIdentifier::Byte)
        } else if crate::strutil::str_eq(s, "celsius") {
            Ok(UnitIdentifier::Celsius)
        } else if crate::strutil::str_eq(s, "centimeter") {
            Ok(UnitIdentifier::Centimeter)
        } else if crate::strutil::str_eq(s, "day") {
            Ok(UnitIdentifier::Day)
        } else if crate::strutil::str_eq(s, "degree") {
            Ok(UnitIdentifier::Degree)
        } else if crate::strutil::str_eq(s, "fahrenheit") {
            Ok(UnitIdentifier::Fahrenheit)
        } else if crate::strutil::str_eq(s, "foot") {
            Ok(UnitIdentifier::Foot)
        } else if crate::strutil::str_eq(s, "gallon") {
            Ok(UnitIdentifier::Gallon)
        } else if crate::strutil::str_eq(s, "gigabit") {
            Ok(UnitIdentifier::Gigabit)
        } else if crate::strutil::str_eq(s, "gigabyte") {
            Ok(UnitIdentifier::Gigabyte)
        } else if crate::strutil::str_eq(s, "gram") {
            Ok(UnitIdentifier::Gram)
        } else if crate::strutil::str_eq(s, "hectare") {
            Ok(UnitIdentifier::Hectare)
        } else if crate::strutil::str_eq(s, "hour") {
            Ok(UnitIdentifier::Hour)
        } else if crate::strutil::str_eq(s, "inch") {
            Ok(UnitIdentifier::Inch)
        } else if crate::strutil::str_eq(s, "kilobit") {
            Ok(UnitIdentifier::Kilobit)
        } else if crate::strutil::str_eq(s, "kilobyte") {
            Ok(UnitIdentifier::Kilobyte)
        } else if crate::strutil::str_eq(s, "kilogram") {
            Ok(UnitIdentifier::Kilogram)
        } else if crate::strutil::str_eq(s, "kilometer") {
            Ok(UnitIdentifier::Kilometer)
        } else if crate::strutil::str_eq(s, "liter") {
            Ok(UnitIdentifier::Liter)
        } else if crate::strutil::str_eq(s, "megabit") {
            Ok(UnitIdentifier::Megabit)
        } else if crate::strutil::str_eq(s, "megabyte") {
            Ok(UnitIdentifier::Megabyte)
        } else if crate::strutil::str_eq(s, "meter") {
            Ok(UnitIdentifier::Meter)
        } else if crate::strutil::str_eq(s, "microsecond") {
            Ok(UnitIdentifier::Microsecond)
        } else if crate::strutil::str_eq(s, "mile") {
            Ok(UnitIdentifier::Mile)
        } else if crate::strutil::str_eq(s, "milliliter") {
            Ok(UnitIdentifier::Milliliter)
        } else if crate::strutil::str_eq(s, "millimeter") {
            Ok(UnitIdentifier::Millimeter)
        } else if crate::strutil::str_eq(s, "millisecond") {
            Ok(UnitIdentifier::Millisecond)
        } else if crate::strutil::str_eq(s, "minute") {
            Ok(UnitIdentifier::Minute)
        } else if crate::strutil::str_eq(s, "month") {
            Ok(UnitIdentifier::Month)
        } else if crate::strutil::str_eq(s, "nanosecond") {
            Ok(UnitIdentifier::Nanosecond)
        } else if crate::strutil::str_eq(s, "ounce") {
            Ok(UnitIdentifier::Ounce)
        } else if crate::strutil::str_eq(s, "percent") {
            Ok(UnitIdentifier::Percent)
        } else if crate::strutil::str_eq(s, "petabyte") {
            Ok(UnitIdentifier::Petabyte)
        } else if crate::strutil::str_eq(s, "pound") {
            Ok(UnitIdentifier::Pound)
        } else if crate::strutil::str_eq(s, "second") {
            Ok(UnitIdentifier::Second)
        } else if crate::strutil::str_eq(s, "stone") {
            Ok(UnitIdentifier::Stone)
        } else if crate::strutil::str_eq(s, "terabit") {
            Ok(UnitIdentifier::Terabit)
        } else if crate::strutil::str_eq(s, "terabyte") {
            Ok(UnitIdentifier::Terabyte)
        } else if crate::strutil::str_eq(s, "week") {
            Ok(UnitIdentifier::Week)
        } else if crate::strutil::str_eq(s, "yard") {
            Ok(UnitIdentifier::Yard)
        } else if crate::strutil::str_eq(s, "year") {
            Ok(UnitIdentifier::Year)
        } else {
            match find_per_in(s) {
                Some(i) => {
                    let len = s.unicode_len();
                    let left = s.substring_char(0, i);
                    let right = s.substring_char(i + 5, len);
                    proof {
                        assert(left@ =~= s@.take(i as int));
                        assert(right@ =~= s@.skip(i as int + 5));
                    }
                    let l = Self::from_str(left)?;
                    let r = Self::from_str(right)?;
                    Ok(UnitIdentifier::Derived(Box::new(l), Box::new(r)))
                },
                None => Err(InvalidUnitIdentifierError { text: s.to_owned() }),
            }
        }
    }
}

/// How a unit amount writes its unit out.
#[derive(Debug, Clone, Copy, PartialEq, Eq, Structural, Hash)]
pub enum UnitDisplayStyle {
    Short,
    Narrow,
    Long,
}

/// The unit display style, if any, named by the lowercased keyword `q`.
pub open spec fn spec_unit_style_from(q: Seq<char>) -> Option<UnitDisplayStyle> {
    if q == "short"@ {
        Some(UnitDisplayStyle::Short)
    } else if q == "narrow"@ {
        Some(UnitDisplayStyle::Narrow)
    } else if q == "long"@ {
        Some(UnitDisplayStyle::Long)
    } else {
        None
    }
}

impl UnitDisplayStyle {
    /// Parses the keyword, ASCII case-insensitively.
    pub fn from_str(s: &str) -> (r: Result<UnitDisplayStyle, InvalidUnitDisplayStyleError>)
        ensures
            r matches Ok(v) ==> spec_unit_style_from(spec_lower(s@)) == Some(v),
            r is Err ==> spec_unit_style_from(spec_lower(s@)) is None,
    {
        let t = ascii_lowercase(s);
        if str_eq(t.as_str(), "short") {
            Ok(UnitDisplayStyle::Short)
        } else if str_eq(t.as_str(), "narrow") {
            Ok(UnitDisplayStyle::Narrow)
        } else if str_eq(t.as_str(), "long") {
            Ok(UnitDisplayStyle::Long)
        } else {
            Err(InvalidUnitDisplayStyleError { text: s.to_owned() })
        }
    }
}

impl Default for UnitDisplayStyle {
    fn default() -> (r: Self)
        ensures
            r == UnitDisplayStyle::Short,
    {
        UnitDisplayStyle::Short
    }
}

/// How digit grouping separators are applied.
#[derive(Debug, Clone, Copy, PartialEq, Eq, Structural, Hash)]
pub enum GroupingStyle {
    Always,
    Auto,
    Min2,
    Off,
}

/// The grouping style, if any, named by the exact keyword `q`.
pub open spec fn spec_grouping_from(q: Seq<char>) -> Option<GroupingStyle> {
    if q == "auto"@ || q == "true"@ {
        Some(GroupingStyle::Auto)
    } else if q == "off"@ || q == "false"@ {
        Some(GroupingStyle::Off)
    } else if q == "always"@ {
        Some(GroupingStyle::Always)
    } else if q == "min2"@ {
        Some(GroupingStyle::Min2)
    } else {
        None
    }
}

impl GroupingStyle {
    /// Parses the exact keyword.
    pub fn from_str(s: &str) -> (r: Result<GroupingStyle, InvalidGroupingStyleError>)
        ensures
            r matches Ok(v) ==> spec_grouping_from(s@) == Some(v),
            r is Err ==> spec_grouping_from(s@) is None,
    {
        if str_eq(s, "auto") || str_eq(s, "true") {
            Ok(GroupingStyle::Auto)
        } else if str_eq(s, "off") || str_eq(s, "false") {
            Ok(GroupingStyle::Off)
        } else if str_eq(s, "always") {
            Ok(GroupingStyle::Always)
        } else if str_eq(s, "min2") {
            Ok(GroupingStyle::Min2)
        } else {
            Err(InvalidGroupingStyleError { text: s.to_owned() })
        }
    }
}

impl Default for GroupingStyle {
    fn default() -> (r: Self)
        ensures
            r == GroupingStyle::Auto,
    {
        GroupingStyle::Auto
    }
}

/// What kind of number is being written: a plain decimal, a currency
/// amount, a percentage, or a measure with a unit.
#[derive(Debug, PartialEq, Eq, Hash)]
pub enum NumberStyle {
    Decimal,
    Currency { code: CurrencyCode, style: CurrencyDisplayStyle, sign: CurrencySignMode },
    Percent,
    Unit { identifier: UnitIdentifier, style: UnitDisplayStyle },
}

impl Clone for NumberStyle {
    fn clone(&self) -> (r: Self)
        ensures
            r == *self,
    {
        match self {
            NumberStyle::Decimal => NumberStyle::Decimal,
            NumberStyle::Currency { code, style, sign } => NumberStyle::Currency {
                code: *code,
                style: *style,
                sign: *sign,
            },
            NumberStyle::Percent => NumberStyle::Percent,
            NumberStyle::Unit { identifier, style } => NumberStyle::Unit {
                identifier: identifier.clone(),
                style: *style,
            },
        }
    }
}

impl Default for NumberStyle {
    fn default() -> (r: Self)
        ensures
            r == NumberStyle::Decimal,
    {
        NumberStyle::Decimal
    }
}

/// The style with a currency's display style replaced, where it has one.
pub open spec fn spec_with_display_style(s: NumberStyle, st: CurrencyDisplayStyle) -> NumberStyle {
    match s {
        NumberStyle::Currency { code, sign, style } => NumberStyle::Currency {
            code,
            style: st,
            sign,
        },
        _ => s,
    }
}

/// The style with a currency's sign mode replaced, where it has one.
pub open spec fn spec_with_sign_mode(s: NumberStyle, sg: CurrencySignMode) -> NumberStyle {
    match s {
        NumberStyle::Currency { code, sign, style } => NumberStyle::Currency {
            code,
            style,
            sign: sg,
        },
        _ => s,
    }
}

/// The style with a unit's display style replaced, where it has one.
pub open spec fn spec_with_unit_style(s: NumberStyle, st: UnitDisplayStyle) -> NumberStyle {
    match s {
        NumberStyle::Unit { identifier, style } => NumberStyle::Unit {
            identifier,
            style: st,
        },
        _ => s,
    }
}

impl NumberStyle {
    pub fn is_currency(&self) -> (r: bool)
        ensures
            r == (*self matches NumberStyle::Currency { .. }),
    {
        match self {
            NumberStyle::Currency { .. } => true,
            _ => false,
        }
    }

    pub fn is_unit(&self) -> (r: bool)
        ensures
            r == (*self matches NumberStyle::Unit { .. }),
    {
        match self {
            NumberStyle::Unit { .. } => true,
            _ => false,
        }
    }

    pub fn is_decimal(&self) -> (r: bool)
        ensures
            r == (*self matches NumberStyle::Decimal),
    {
        match self {
            NumberStyle::Decimal => true,
            _ => false,
        }
    }

    pub fn is_percent(&self) -> (r: bool)
        ensures
            r == (*self matches NumberStyle::Percent),
    {
        match self {
            NumberStyle::Percent => true,
            _ => false,
        }
    }

    /// Replaces the display style of a currency; reports whether this was
    /// a currency at all.
    pub fn set_currency_display_style(&mut self, new_style: CurrencyDisplayStyle) -> (r: bool)
        ensures
            *final(self) == spec_with_display_style(*old(self), new_style),
            r == (old(self) matches NumberStyle::Currency { .. }),
    {
        if let NumberStyle::Currency { style, .. } = self {
            *style = new_style;
            true
        } else {
            false
        }
    }

    /// Replaces the sign mode of a currency; reports whether this was a
    /// currency at all.
    pub fn set_currency_sign_mode(&mut self, new_sign: CurrencySignMode) -> (r: bool)
        ensures
            *final(self) == spec_with_sign_mode(*old(self), new_sign),
            r == (old(self) matches NumberStyle::Currency { .. }),
    {
        if let NumberStyle::Currency { sign, .. } = self {
            *sign = new_sign;
            true
        } else {
            false
        }
    }

    /// Replaces the display style of a unit; reports whether this was a
    /// unit at all.
    pub fn set_unit_display_style(&mut self, new_style: UnitDisplayStyle) -> (r: bool)
        ensures
            *final(self) == spec_with_unit_style(*old(self), new_style),
            r == (old(self) matches NumberStyle::Unit { .. }),
    {
        if let NumberStyle::Unit { style, .. } = self {
            *style = new_style;
            true
        } else {
            false
        }
    }
}

/// A full format request for a number: the style and the digit options.
/// The compiler only threads this through; interpretation of the options
/// belongs to an external formatter.
#[derive(Debug, PartialEq, Eq, Hash)]
pub struct NumberFormat {
    pub style: NumberStyle,
    pub use_grouping: GroupingStyle,
    pub minimum_integer_digits: Option<usize>,
    pub minimum_fraction_digits: Option<usize>,
    pub maximum_fraction_digits: Option<usize>,
    pub minimum_significant_digits: Option<usize>,
    pub maximum_significant_digits: Option<usize>,
}

/// The format with decimal style, automatic grouping and no digit bounds.
pub open spec fn spec_default_format() -> NumberFormat {
    NumberFormat {
        style: NumberStyle::Decimal,
        use_grouping: GroupingStyle::Auto,
        minimum_integer_digits: None,
        minimum_fraction_digits: None,
        maximum_fraction_digits: None,
        minimum_significant_digits: None,
        maximum_significant_digits: None,
    }
}

impl Clone for NumberFormat {
    fn clone(&self) -> (r: Self)
        ensures
            r == *self,
    {
        NumberFormat {
            style: self.style.clone(),
            use_grouping: self.use_grouping,
            minimum_integer_digits: self.minimum_integer_digits,
            minimum_fraction_digits: self.minimum_fraction_digits,
            maximum_fraction_digits: self.maximum_fraction_digits,
            minimum_significant_digits: self.minimum_significant_digits,
            maximum_significant_digits: self.maximum_significant_digits,
        }
    }
}

impl Default for NumberFormat {
    fn default() -> (r: Self)
        ensures
            r == spec_default_format(),
    {
        NumberFormat {
            style: NumberStyle::Decimal,
            use_grouping: GroupingStyle::Auto,
            minimum_integer_digits: None,
            minimum_fraction_digits: None,
            maximum_fraction_digits: None,
            minimum_significant_digits: None,
            maximum_significant_digits: None,
        }
    }
}

impl NumberFormat {
    /// A default format for an amount of the given currency.
    pub fn currency(code: CurrencyCode) -> (r: Self)
        ensures
            r == (NumberFormat {
                style: NumberStyle::Currency {
                    code,
                    style: CurrencyDisplayStyle::Symbol,
                    sign: CurrencySignMode::Standard,
                },
                ..spec_default_format()
            }),
    {
        NumberFormat {
            style: NumberStyle::Currency {
                code,
                style: CurrencyDisplayStyle::Symbol,
                sign: CurrencySignMode::Standard,
            },
            use_grouping: GroupingStyle::Auto,
            minimum_integer_digits: None,
            minimum_fraction_digits: None,
            maximum_fraction_digits: None,
            minimum_significant_digits: None,
            maximum_significant_digits: None,
        }
    }

    /// A default format for a measure of the given unit.
    pub fn unit(unit_id: UnitIdentifier) -> (r: Self)
        ensures
            r == (NumberFormat {
                style: NumberStyle::Unit { identifier: unit_id, style: UnitDisplayStyle::Short },
                ..spec_default_format()
            }),
    {
        NumberFormat {
            style: NumberStyle::Unit { identifier: unit_id, style: UnitDisplayStyle::Short },
            use_grouping: GroupingStyle::Auto,
            minimum_integer_digits: None,
            minimum_fraction_digits: None,
            maximum_fraction_digits: None,
            minimum_significant_digits: None,
            maximum_significant_digits: None,
        }
    }

    /// A default format for a percentage.
    pub fn percent() -> (r: Self)
        ensures
            r == (NumberFormat { style: NumberStyle::Percent, ..spec_default_format() }),
    {
        NumberFormat {
            style: NumberStyle::Percent,
            use_grouping: GroupingStyle::Auto,
            minimum_integer_digits: None,
            minimum_fraction_digits: None,
            maximum_fraction_digits: None,
            minimum_significant_digits: None,
            maximum_significant_digits: None,
        }
    }
}


impl core::str::FromStr for CurrencyCode {
    type Err = InvalidCurrencyCode;

    fn from_str(s: &str) -> Result<CurrencyCode, InvalidCurrencyCode> {
        CurrencyCode::from_str(s)
    }
}

impl core::str::FromStr for CurrencyDisplayStyle {
    type Err = InvalidCurrencyDisplayStyleError;

    fn from_str(s: &str) -> Result<CurrencyDisplayStyle, InvalidCurrencyDisplayStyleError> {
        CurrencyDisplayStyle::from_str(s)
    }
}

impl core::str::FromStr for CurrencySignMode {
    type Err = InvalidCurrencySignModeError;

    fn from_str(s: &str) -> Result<CurrencySignMode, InvalidCurrencySignModeError> {
        CurrencySignMode::from_str(s)
    }
}

impl core::str::FromStr for UnitIdentifier {
    type Err = InvalidUnitIdentifierError;

    fn from_str(s: &str) -> Result<UnitIdentifier, InvalidUnitIdentifierError> {
        UnitIdentifier::from_str(s)
    }
}

impl core::str::FromStr for UnitDisplayStyle {
    type Err = InvalidUnitDisplayStyleError;

    fn from_str(s: &str) -> Result<UnitDisplayStyle, InvalidUnitDisplayStyleError> {
        UnitDisplayStyle::from_str(s)
    }
}

impl core::str::FromStr for GroupingStyle {
    type Err = InvalidGroupingStyleError;

    fn from_str(s: &str) -> Result<GroupingStyle, InvalidGroupingStyleError> {
        GroupingStyle::from_str(s)
    }
}

} // verus!
