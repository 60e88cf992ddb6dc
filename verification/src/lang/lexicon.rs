//! The Nepali vocabulary: dense word tables indexed by value, and the fixed
//! words of the phrase templates.
use vstd::prelude::*;

verus! {

/// The word of every value a group can hold, `0..=99`. Nepali names each
/// two-digit quantity atomically, so the table is dense and irregular.
pub const UNITS: [&'static str; 100] = [
    "शून्य",
    "एक",
    "दुई",
    "तीन",
    "चार",
    "पाँच",
    "छ",
    "सात",
    "आठ",
    "नौ",
    "दश",
    "एघार",
    "बाह्र",
    "तेह्र",
    "चौध",
    "पन्ध्र",
    "सोह्र",
    "सत्र",
    "अठार",
    "उन्नाइस",
    "बीस",
    "एक्काइस",
    "बाइस",
    "त्येइस",
    "चौबीस",
    "पच्चीस",
    "छब्बीस",
    "सत्ताइस",
    "अठ्ठाइस",
    "उनन्तीस",
    "तीस",
    "एक्तीस",
    "बत्तीस",
    "तेत्तिस",
    "चौंतीस",
    "पैंतीस",
    "छत्तीस",
    "सर्तीस",
    "अर्तीस",
    "उनन्चालीस",
    "चालीस",
    "एकचालीस",
    "बयालीस",
    "त्रिचालीस",
    "चवालीस",
    "पैंतालीस",
    "छयालीस",
    "सर्चालीस",
    "अर्चालीस",
    "उनन्चास",
    "पचास",
    "एकाउन्न",
    "बाउन्न",
    "त्रिपन्न",
    "चौवन्न",
    "पचपन्न",
    "छ्प्पन्न",
    "सन्ताउन्न",
    "अन्ठाउन्न",
    "उनान्साठ्ठी",
    "साठ्ठी",
    "एकसट्ठी",
    "बैसट्ठी",
    "त्रिसट्ठी",
    "चौंसठ्ठी",
    "पैंसठ्ठी",
    "छैंसठ्ठी",
    "सर्सठ्ठी",
    "अर्सठ्ठी",
    "उनन्सत्तरी",
    "सत्तरी",
    "एकत्तर",
    "बहत्तर",
    "त्रीहत्तर",
    "चौरत्तर",
    "पचहत्तर",
    "छयत्तर",
    "सतहत्तर",
    "अठहत्तर",
    "उनास्सी",
    "अस्सी",
    "एकास्सी",
    "बयास्सी",
    "त्रियास्सी",
    "चैरस्सी",
    "पचास्सी",
    "छायास्सी",
    "सत्तास्सी",
    "अठास्सी",
    "उनन्नाब्बे",
    "नब्बे",
    "एकान्नब्बे",
    "बयान्नब्बे",
    "त्रियान्नब्बे",
    "चौरान्नब्बे",
    "पन्चान्नब्बे",
    "छायान्नब्बे",
    "सन्तान्नब्बे",
    "अन्ठान्नब्बे",
    "उनन्सय",
];

/// The ordinal words. Entries `0..=98` are the ranks 1 to 99; the entries
/// after them are the round ordinals: hundredth, thousandth, lakh-th and
/// crore-th.
pub const NEPALI_ORDINALS: [&'static str; 103] = [
    "पहिलो",
    "दोस्रो",
    "तेस्रो",
    "चौथो",
    "पाँचौँ",
    "छैटौँ",
    "सातौँ",
    "आठौँ",
    "नवौँ",
    "दसौँ",
    "एघारौँ",
    "बाह्रौँ",
    "तेह्रौँ",
    "चौधौँ",
    "पन्ध्रौँ",
    "सोह्रौँ",
    "सत्रौँ",
    "अठारौँ",
    "उन्नाइसौँ",
    "बिसौँ",
    "एक्काइसौँ",
    "बाइसौँ",
    "तेइसौँ",
    "चौबिसौँ",
    "पच्चिसौँ",
    "छब्बिसौँ",
    "सत्ताइसौँ",
    "अट्ठाइसौँ",
    "उनन्तिसौँ",
    "तिसौँ",
    "एकतिसौँ",
    "बत्तिसौँ",
    "तेत्तिसौँ",
    "चौतिसौँ",
    "पैँतिसौँ",
    "छत्तिसौँ",
    "सैँतिसौँ",
    "अठतिसौँ",
    "उनन्चालिसौँ",
    "चालिसौँ",
    "एकचालिसौँ",
    "बयालिसौँ",
    "त्रिचालिसौँ",
    "चवालिसौँ",
    "पैँतालिसौँ",
    "छयालिसौँ",
    "सतचालिसौँ",
    "अठचालिसौँ",
    "उनन्चासौँ",
    "पचासौँ",
    "एकाउन्नौँ",
    "बाउन्नौँ",
    "त्रिपन्नौँ",
    "चवन्नौँ",
    "पचपन्नौँ",
    "छपन्नौँ",
    "सन्ताउन्नौँ",
    "अन्ठाउन्नौँ",
    "उनन्साठिऔँ",
    "साठिऔँ",
    "एकसट्ठिऔँ",
    "बयसट्ठिऔँ",
    "त्रिसट्ठिऔँ",
    "चौसट्ठिऔँ",
    "पैँसट्ठिऔँ",
    "छयसट्ठिऔँ",
    "सतसट्ठिऔँ",
    "अठसट्ठिऔँ",
    "उनन्सत्तरिऔँ",
    "सत्तरिऔँ",
    "एकहत्तरौँ",
    "बहत्तरौँ",
    "त्रिहत्तरौँ",
    "चौहत्तरौँ",
    "पचहत्तरौँ",
    "छयहत्तरौँ",
    "सतहत्तरौँ",
    "अठहत्तरौँ",
    "उनासिऔँ",
    "असिऔँ",
    "एकासिऔँ",
    "बयासिऔँ",
    "त्रियासिऔँ",
    "चौरासिऔँ",
    "पचासिऔँ",
    "छयासिऔँ",
    "सतासिऔँ",
    "अठासिऔँ",
    "उनान्नब्बेऔँ",
    "नब्बेऔँ",
    "एकान्नबेऔँ",
    "बयान्नब्बेऔँ",
    "त्रियानब्बेऔँ",
    "चौरान्नब्बेऔँ",
    "पन्चान्नब्बेऔँ",
    "छयान्नब्बेऔँ",
    "सन्तान्नब्बेऔँ",
    "अन्ठान्नब्बेऔँ",
    "उनान्सयौँ",
    "सयौँ",
    "हजारौँ",
    "लाखौँ",
    "करोडौँ",
];

/// The scale words; entry `i` names the multiplier of the group at position
/// `i + 1`: hundred, thousand, lakh, crore, arab, kharab.
pub const NP_SCALE: [&'static str; 6] = [
    "सय",
    "हजार",
    "लाख",
    "करोड",
    "अर्ब",
    "खर्ब",
];

/// The length of [`NEPALI_ORDINALS`].
pub const ORDINAL_COUNT: usize = 103;

/// How many entries of [`NEPALI_ORDINALS`] are plain ranks (1 to 99); the round
/// ordinals start at this index.
pub const PLAIN_ORDINALS: usize = 99;

/// The highest group position that has a scale word.
pub const MAX_POSITION: usize = 6;

/// The separator between two tokens of a phrase.
pub const SEPARATOR: &'static str = " ";

/// The sign token of a negative number.
pub const MINUS: &'static str = "-";

/// The token between the integer part and the fractional digits.
pub const POINT: &'static str = "दशमलव";

/// The phrase of positive infinity.
pub const INFINITY: &'static str = "अनन्त";

/// The phrase of negative infinity.
pub const NEGATIVE_INFINITY: &'static str = "-अनन्त";

/// The suffix token of a year.
pub const YEAR: &'static str = "साल";

/// The name of the major currency unit.
pub const RUPEE: &'static str = "रुपैयाँ";

/// The name of the minor currency unit, a hundredth of the major one.
pub const PAISA: &'static str = "पैसा";

/// The word of the group value `value`.
pub open spec fn unit_word(value: int) -> Seq<char>
    recommends
        0 <= value < 100,
{
    UNITS[value]@
}

/// The scale word of the group at `position`.
pub open spec fn scale_word(position: int) -> Seq<char>
    recommends
        1 <= position <= MAX_POSITION,
{
    NP_SCALE[position - 1]@
}

/// The ordinal word at `index` of the ordinal table.
pub open spec fn ordinal_word(index: int) -> Seq<char>
    recommends
        0 <= index < ORDINAL_COUNT,
{
    NEPALI_ORDINALS[index]@
}

} // verus!
