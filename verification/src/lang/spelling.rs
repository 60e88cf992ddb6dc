//! How the words of the vocabulary are spelled: what tells the words of one
//! table from those of another.
use vstd::prelude::*;
use crate::lang::lexicon::{
    ordinal_word, scale_word, unit_word, MAX_POSITION, MINUS, NEPALI_ORDINALS, NP_SCALE,
    ORDINAL_COUNT, PAISA, RUPEE, UNITS,
};

verus! {

/// Whether `word` begins with `first` and ends with `last`.
pub open spec fn spelled(word: Seq<char>, first: char, last: char) -> bool {
    word.len() > 0 && word[0] == first && word.last() == last
}

/// Whether `word` ends as the ordinal words do: in the vowel sign O or in a
/// candrabindu.
pub open spec fn ordinal_ending(word: Seq<char>) -> bool {
    word.len() > 0 && (word.last() == '\u{94b}' || word.last() == '\u{901}')
}

/// The first letter of the scale word of `position`.
pub open spec fn scale_first(position: int) -> char {
    if position == 1 {
        '\u{938}'
    } else if position == 2 {
        '\u{939}'
    } else if position == 3 {
        '\u{932}'
    } else if position == 4 {
        '\u{915}'
    } else if position == 5 {
        '\u{905}'
    } else {
        '\u{916}'
    }
}

/// The last letter of the scale word of `position`.
pub open spec fn scale_last(position: int) -> char {
    if position == 1 {
        '\u{92f}'
    } else if position == 2 {
        '\u{930}'
    } else if position == 3 {
        '\u{916}'
    } else if position == 4 {
        '\u{921}'
    } else {
        '\u{92c}'
    }
}

/// Whether `word` begins and ends as one of the scale words does.
pub open spec fn scale_spelling(word: Seq<char>) -> bool {
    exists|position: int|
        1 <= position <= MAX_POSITION && #[trigger] spelled(
            word,
            scale_first(position),
            scale_last(position),
        )
}

/// Whether `word` is spelled as the unit words are: it is not empty, does
/// not begin with the sign, does not end as an ordinal word or as the name of
/// the minor currency unit does, and does not begin and end as a scale word
/// does.
pub open spec fn unit_spelling(word: Seq<char>) -> bool {
    &&& word.len() > 0
    &&& word[0] != '-'
    &&& word.last() != '\u{93e}'
    &&& !ordinal_ending(word)
    &&& !scale_spelling(word)
}

/// The unit words from entry 0 to entry 9.
proof fn lemma_unit_from_0(index: int)
    requires
        0 <= index < 10,
    ensures
        unit_spelling(unit_word(index)),
{
    reveal_strlit("शून्य");
    reveal_strlit("एक");
    reveal_strlit("दुई");
    reveal_strlit("तीन");
    reveal_strlit("चार");
    reveal_strlit("पाँच");
    reveal_strlit("छ");
    reveal_strlit("सात");
    reveal_strlit("आठ");
    reveal_strlit("नौ");
    assert(UNITS[0]@ == "शून्य"@);
    assert(UNITS[1]@ == "एक"@);
    assert(UNITS[2]@ == "दुई"@);
    assert(UNITS[3]@ == "तीन"@);
    assert(UNITS[4]@ == "चार"@);
    assert(UNITS[5]@ == "पाँच"@);
    assert(UNITS[6]@ == "छ"@);
    assert(UNITS[7]@ == "सात"@);
    assert(UNITS[8]@ == "आठ"@);
    assert(UNITS[9]@ == "नौ"@);
}

/// The unit words from entry 10 to entry 19.
proof fn lemma_unit_from_10(index: int)
    requires
        10 <= index < 20,
    ensures
        unit_spelling(unit_word(index)),
{
    reveal_strlit("दश");
    reveal_strlit("एघार");
    reveal_strlit("बाह्र");
    reveal_strlit("तेह्र");
    reveal_strlit("चौध");
    reveal_strlit("पन्ध्र");
    reveal_strlit("सोह्र");
    reveal_strlit("सत्र");
    reveal_strlit("अठार");
    reveal_strlit("उन्नाइस");
    assert(UNITS[10]@ == "दश"@);
    assert(UNITS[11]@ == "एघार"@);
    assert(UNITS[12]@ == "बाह्र"@);
    assert(UNITS[13]@ == "तेह्र"@);
    assert(UNITS[14]@ == "चौध"@);
    assert(UNITS[15]@ == "पन्ध्र"@);
    assert(UNITS[16]@ == "सोह्र"@);
    assert(UNITS[17]@ == "सत्र"@);
    assert(UNITS[18]@ == "अठार"@);
    assert(UNITS[19]@ == "उन्नाइस"@);
}

/// The unit words from entry 20 to entry 29.
proof fn lemma_unit_from_20(index: int)
    requires
        20 <= index < 30,
    ensures
        unit_spelling(unit_word(index)),
{
    reveal_strlit("बीस");
    reveal_strlit("एक्काइस");
    reveal_strlit("बाइस");
    reveal_strlit("त्येइस");
    reveal_strlit("चौबीस");
    reveal_strlit("पच्चीस");
    reveal_strlit("छब्बीस");
    reveal_strlit("सत्ताइस");
    reveal_strlit("अठ्ठाइस");
    reveal_strlit("उनन्तीस");
    assert(UNITS[20]@ == "बीस"@);
    assert(UNITS[21]@ == "एक्काइस"@);
    assert(UNITS[22]@ == "बाइस"@);
    assert(UNITS[23]@ == "त्येइस"@);
    assert(UNITS[24]@ == "चौबीस"@);
    assert(UNITS[25]@ == "पच्चीस"@);
    assert(UNITS[26]@ == "छब्बीस"@);
    assert(UNITS[27]@ == "सत्ताइस"@);
    assert(UNITS[28]@ == "अठ्ठाइस"@);
    assert(UNITS[29]@ == "उनन्तीस"@);
}

/// The unit words from entry 30 to entry 39.
proof fn lemma_unit_from_30(index: int)
    requires
        30 <= index < 40,
    ensures
        unit_spelling(unit_word(index)),
{
    reveal_strlit("तीस");
    reveal_strlit("एक्तीस");
    reveal_strlit("बत्तीस");
    reveal_strlit("तेत्तिस");
    reveal_strlit("चौंतीस");
    reveal_strlit("पैंतीस");
    reveal_strlit("छत्तीस");
    reveal_strlit("सर्तीस");
    reveal_strlit("अर्तीस");
    reveal_strlit("उनन्चालीस");
    assert(UNITS[30]@ == "तीस"@);
    assert(UNITS[31]@ == "एक्तीस"@);
    assert(UNITS[32]@ == "बत्तीस"@);
    assert(UNITS[33]@ == "तेत्तिस"@);
    assert(UNITS[34]@ == "चौंतीस"@);
    assert(UNITS[35]@ == "पैंतीस"@);
    assert(UNITS[36]@ == "छत्तीस"@);
    assert(UNITS[37]@ == "सर्तीस"@);
    assert(UNITS[38]@ == "अर्तीस"@);
    assert(UNITS[39]@ == "उनन्चालीस"@);
}

/// The unit words from entry 40 to entry 49.
proof fn lemma_unit_from_40(index: int)
    requires
        40 <= index < 50,
    ensures
        unit_spelling(unit_word(index)),
{
    reveal_strlit("चालीस");
    reveal_strlit("एकचालीस");
    reveal_strlit("बयालीस");
    reveal_strlit("त्रिचालीस");
    reveal_strlit("चवालीस");
    reveal_strlit("पैंतालीस");
    reveal_strlit("छयालीस");
    reveal_strlit("सर्चालीस");
    reveal_strlit("अर्चालीस");
    reveal_strlit("उनन्चास");
    assert(UNITS[40]@ == "चालीस"@);
    assert(UNITS[41]@ == "एकचालीस"@);
    assert(UNITS[42]@ == "बयालीस"@);
    assert(UNITS[43]@ == "त्रिचालीस"@);
    assert(UNITS[44]@ == "चवालीस"@);
    assert(UNITS[45]@ == "पैंतालीस"@);
    assert(UNITS[46]@ == "छयालीस"@);
    assert(UNITS[47]@ == "सर्चालीस"@);
    assert(UNITS[48]@ == "अर्चालीस"@);
    assert(UNITS[49]@ == "उनन्चास"@);
}

/// The unit words from entry 50 to entry 59.
proof fn lemma_unit_from_50(index: int)
    requires
        50 <= index < 60,
    ensures
        unit_spelling(unit_word(index)),
{
    reveal_strlit("पचास");
    reveal_strlit("एकाउन्न");
    reveal_strlit("बाउन्न");
    reveal_strlit("त्रिपन्न");
    reveal_strlit("चौवन्न");
    reveal_strlit("पचपन्न");
    reveal_strlit("छ्प्पन्न");
    reveal_strlit("सन्ताउन्न");
    reveal_strlit("अन्ठाउन्न");
    reveal_strlit("उनान्साठ्ठी");
    assert(UNITS[50]@ == "पचास"@);
    assert(UNITS[51]@ == "एकाउन्न"@);
    assert(UNITS[52]@ == "बाउन्न"@);
    assert(UNITS[53]@ == "त्रिपन्न"@);
    assert(UNITS[54]@ == "चौवन्न"@);
    assert(UNITS[55]@ == "पचपन्न"@);
    assert(UNITS[56]@ == "छ्प्पन्न"@);
    assert(UNITS[57]@ == "सन्ताउन्न"@);
    assert(UNITS[58]@ == "अन्ठाउन्न"@);
    assert(UNITS[59]@ == "उनान्साठ्ठी"@);
}

/// The unit words from entry 60 to entry 69.
proof fn lemma_unit_from_60(index: int)
    requires
        60 <= index < 70,
    ensures
        unit_spelling(unit_word(index)),
{
    reveal_strlit("साठ्ठी");
    reveal_strlit("एकसट्ठी");
    reveal_strlit("बैसट्ठी");
    reveal_strlit("त्रिसट्ठी");
    reveal_strlit("चौंसठ्ठी");
    reveal_strlit("पैंसठ्ठी");
    reveal_strlit("छैंसठ्ठी");
    reveal_strlit("सर्सठ्ठी");
    reveal_strlit("अर्सठ्ठी");
    reveal_strlit("उनन्सत्तरी");
    assert(UNITS[60]@ == "साठ्ठी"@);
    assert(UNITS[61]@ == "एकसट्ठी"@);
    assert(UNITS[62]@ == "बैसट्ठी"@);
    assert(UNITS[63]@ == "त्रिसट्ठी"@);
    assert(UNITS[64]@ == "चौंसठ्ठी"@);
    assert(UNITS[65]@ == "पैंसठ्ठी"@);
    assert(UNITS[66]@ == "छैंसठ्ठी"@);
    assert(UNITS[67]@ == "सर्सठ्ठी"@);
    assert(UNITS[68]@ == "अर्सठ्ठी"@);
    assert(UNITS[69]@ == "उनन्सत्तरी"@);
}

/// The unit words from entry 70 to entry 79.
proof fn lemma_unit_from_70(index: int)
    requires
        70 <= index < 80,
    ensures
        unit_spelling(unit_word(index)),
{
    reveal_strlit("सत्तरी");
    reveal_strlit("एकत्तर");
    reveal_strlit("बहत्तर");
    reveal_strlit("त्रीहत्तर");
    reveal_strlit("चौरत्तर");
    reveal_strlit("पचहत्तर");
    reveal_strlit("छयत्तर");
    reveal_strlit("सतहत्तर");
    reveal_strlit("अठहत्तर");
    reveal_strlit("उनास्सी");
    assert(UNITS[70]@ == "सत्तरी"@);
    assert(UNITS[71]@ == "एकत्तर"@);
    assert(UNITS[72]@ == "बहत्तर"@);
    assert(UNITS[73]@ == "त्रीहत्तर"@);
    assert(UNITS[74]@ == "चौरत्तर"@);
    assert(UNITS[75]@ == "पचहत्तर"@);
    assert(UNITS[76]@ == "छयत्तर"@);
    assert(UNITS[77]@ == "सतहत्तर"@);
    assert(UNITS[78]@ == "अठहत्तर"@);
    assert(UNITS[79]@ == "उनास्सी"@);
}

/// The unit words from entry 80 to entry 89.
proof fn lemma_unit_from_80(index: int)
    requires
        80 <= index < 90,
    ensures
        unit_spelling(unit_word(index)),
{
    reveal_strlit("अस्सी");
    reveal_strlit("एकास्सी");
    reveal_strlit("बयास्सी");
    reveal_strlit("त्रियास्सी");
    reveal_strlit("चैरस्सी");
    reveal_strlit("पचास्सी");
    reveal_strlit("छायास्सी");
    reveal_strlit("सत्तास्सी");
    reveal_strlit("अठास्सी");
    reveal_strlit("उनन्नाब्बे");
    assert(UNITS[80]@ == "अस्सी"@);
    assert(UNITS[81]@ == "एकास्सी"@);
    assert(UNITS[82]@ == "बयास्सी"@);
    assert(UNITS[83]@ == "त्रियास्सी"@);
    assert(UNITS[84]@ == "चैरस्सी"@);
    assert(UNITS[85]@ == "पचास्सी"@);
    assert(UNITS[86]@ == "छायास्सी"@);
    assert(UNITS[87]@ == "सत्तास्सी"@);
    assert(UNITS[88]@ == "अठास्सी"@);
    assert(UNITS[89]@ == "उनन्नाब्बे"@);
}

/// The unit words from entry 90 to entry 99.
proof fn lemma_unit_from_90(index: int)
    requires
        90 <= index < 100,
    ensures
        unit_spelling(unit_word(index)),
{
    reveal_strlit("नब्बे");
    reveal_strlit("एकान्नब्बे");
    reveal_strlit("बयान्नब्बे");
    reveal_strlit("त्रियान्नब्बे");
    reveal_strlit("चौरान्नब्बे");
    reveal_strlit("पन्चान्नब्बे");
    reveal_strlit("छायान्नब्बे");
    reveal_strlit("सन्तान्नब्बे");
    reveal_strlit("अन्ठान्नब्बे");
    reveal_strlit("उनन्सय");
    assert(UNITS[90]@ == "नब्बे"@);
    assert(UNITS[91]@ == "एकान्नब्बे"@);
    assert(UNITS[92]@ == "बयान्नब्बे"@);
    assert(UNITS[93]@ == "त्रियान्नब्बे"@);
    assert(UNITS[94]@ == "चौरान्नब्बे"@);
    assert(UNITS[95]@ == "पन्चान्नब्बे"@);
    assert(UNITS[96]@ == "छायान्नब्बे"@);
    assert(UNITS[97]@ == "सन्तान्नब्बे"@);
    assert(UNITS[98]@ == "अन्ठान्नब्बे"@);
    assert(UNITS[99]@ == "उनन्सय"@);
}

/// Every unit word is spelled as a unit word.
pub proof fn lemma_unit_spelling(value: int)
    requires
        0 <= value < 100,
    ensures
        unit_spelling(unit_word(value)),
{
    if value < 10 {
        lemma_unit_from_0(value);
    } else if value < 20 {
        lemma_unit_from_10(value);
    } else if value < 30 {
        lemma_unit_from_20(value);
    } else if value < 40 {
        lemma_unit_from_30(value);
    } else if value < 50 {
        lemma_unit_from_40(value);
    } else if value < 60 {
        lemma_unit_from_50(value);
    } else if value < 70 {
        lemma_unit_from_60(value);
    } else if value < 80 {
        lemma_unit_from_70(value);
    } else if value < 90 {
        lemma_unit_from_80(value);
    } else {
        lemma_unit_from_90(value);
    }
}

/// The ordinal words from entry 0 to entry 9.
proof fn lemma_ordinal_from_0(index: int)
    requires
        0 <= index < 10,
    ensures
        ordinal_ending(ordinal_word(index)),
{
    reveal_strlit("पहिलो");
    reveal_strlit("दोस्रो");
    reveal_strlit("तेस्रो");
    reveal_strlit("चौथो");
    reveal_strlit("पाँचौँ");
    reveal_strlit("छैटौँ");
    reveal_strlit("सातौँ");
    reveal_strlit("आठौँ");
    reveal_strlit("नवौँ");
    reveal_strlit("दसौँ");
    assert(NEPALI_ORDINALS[0]@ == "पहिलो"@);
    assert(NEPALI_ORDINALS[1]@ == "दोस्रो"@);
    assert(NEPALI_ORDINALS[2]@ == "तेस्रो"@);
    assert(NEPALI_ORDINALS[3]@ == "चौथो"@);
    assert(NEPALI_ORDINALS[4]@ == "पाँचौँ"@);
    assert(NEPALI_ORDINALS[5]@ == "छैटौँ"@);
    assert(NEPALI_ORDINALS[6]@ == "सातौँ"@);
    assert(NEPALI_ORDINALS[7]@ == "आठौँ"@);
    assert(NEPALI_ORDINALS[8]@ == "नवौँ"@);
    assert(NEPALI_ORDINALS[9]@ == "दसौँ"@);
}

/// The ordinal words from entry 10 to entry 19.
proof fn lemma_ordinal_from_10(index: int)
    requires
        10 <= index < 20,
    ensures
        ordinal_ending(ordinal_word(index)),
{
    reveal_strlit("एघारौँ");
    reveal_strlit("बाह्रौँ");
    reveal_strlit("तेह्रौँ");
    reveal_strlit("चौधौँ");
    reveal_strlit("पन्ध्रौँ");
    reveal_strlit("सोह्रौँ");
    reveal_strlit("सत्रौँ");
    reveal_strlit("अठारौँ");
    reveal_strlit("उन्नाइसौँ");
    reveal_strlit("बिसौँ");
    assert(NEPALI_ORDINALS[10]@ == "एघारौँ"@);
    assert(NEPALI_ORDINALS[11]@ == "बाह्रौँ"@);
    assert(NEPALI_ORDINALS[12]@ == "तेह्रौँ"@);
    assert(NEPALI_ORDINALS[13]@ == "चौधौँ"@);
    assert(NEPALI_ORDINALS[14]@ == "पन्ध्रौँ"@);
    assert(NEPALI_ORDINALS[15]@ == "सोह्रौँ"@);
    assert(NEPALI_ORDINALS[16]@ == "सत्रौँ"@);
    assert(NEPALI_ORDINALS[17]@ == "अठारौँ"@);
    assert(NEPALI_ORDINALS[18]@ == "उन्नाइसौँ"@);
    assert(NEPALI_ORDINALS[19]@ == "बिसौँ"@);
}

/// The ordinal words from entry 20 to entry 29.
proof fn lemma_ordinal_from_20(index: int)
    requires
        20 <= index < 30,
    ensures
        ordinal_ending(ordinal_word(index)),
{
    reveal_strlit("एक्काइसौँ");
    reveal_strlit("बाइसौँ");
    reveal_strlit("तेइसौँ");
    reveal_strlit("चौबिसौँ");
    reveal_strlit("पच्चिसौँ");
    reveal_strlit("छब्बिसौँ");
    reveal_strlit("सत्ताइसौँ");
    reveal_strlit("अट्ठाइसौँ");
    reveal_strlit("उनन्तिसौँ");
    reveal_strlit("तिसौँ");
    assert(NEPALI_ORDINALS[20]@ == "एक्काइसौँ"@);
    assert(NEPALI_ORDINALS[21]@ == "बाइसौँ"@);
    assert(NEPALI_ORDINALS[22]@ == "तेइसौँ"@);
    assert(NEPALI_ORDINALS[23]@ == "चौबिसौँ"@);
    assert(NEPALI_ORDINALS[24]@ == "पच्चिसौँ"@);
    assert(NEPALI_ORDINALS[25]@ == "छब्बिसौँ"@);
    assert(NEPALI_ORDINALS[26]@ == "सत्ताइसौँ"@);
    assert(NEPALI_ORDINALS[27]@ == "अट्ठाइसौँ"@);
    assert(NEPALI_ORDINALS[28]@ == "उनन्तिसौँ"@);
    assert(NEPALI_ORDINALS[29]@ == "तिसौँ"@);
}

/// The ordinal words from entry 30 to entry 39.
proof fn lemma_ordinal_from_30(index: int)
    requires
        30 <= index < 40,
    ensures
        ordinal_ending(ordinal_word(index)),
{
    reveal_strlit("एकतिसौँ");
    reveal_strlit("बत्तिसौँ");
    reveal_strlit("तेत्तिसौँ");
    reveal_strlit("चौतिसौँ");
    reveal_strlit("पैँतिसौँ");
    reveal_strlit("छत्तिसौँ");
    reveal_strlit("सैँतिसौँ");
    reveal_strlit("अठतिसौँ");
    reveal_strlit("उनन्चालिसौँ");
    reveal_strlit("चालिसौँ");
    assert(NEPALI_ORDINALS[30]@ == "एकतिसौँ"@);
    assert(NEPALI_ORDINALS[31]@ == "बत्तिसौँ"@);
    assert(NEPALI_ORDINALS[32]@ == "तेत्तिसौँ"@);
    assert(NEPALI_ORDINALS[33]@ == "चौतिसौँ"@);
    assert(NEPALI_ORDINALS[34]@ == "पैँतिसौँ"@);
    assert(NEPALI_ORDINALS[35]@ == "छत्तिसौँ"@);
    assert(NEPALI_ORDINALS[36]@ == "सैँतिसौँ"@);
    assert(NEPALI_ORDINALS[37]@ == "अठतिसौँ"@);
    assert(NEPALI_ORDINALS[38]@ == "उनन्चालिसौँ"@);
    assert(NEPALI_ORDINALS[39]@ == "चालिसौँ"@);
}

/// The ordinal words from entry 40 to entry 49.
proof fn lemma_ordinal_from_40(index: int)
    requires
        40 <= index < 50,
    ensures
        ordinal_ending(ordinal_word(index)),
{
    reveal_strlit("एकचालिसौँ");
    reveal_strlit("बयालिसौँ");
    reveal_strlit("त्रिचालिसौँ");
    reveal_strlit("चवालिसौँ");
    reveal_strlit("पैँतालिसौँ");
    reveal_strlit("छयालिसौँ");
    reveal_strlit("सतचालिसौँ");
    reveal_strlit("अठचालिसौँ");
    reveal_strlit("उनन्चासौँ");
    reveal_strlit("पचासौँ");
    assert(NEPALI_ORDINALS[40]@ == "एकचालिसौँ"@);
    assert(NEPALI_ORDINALS[41]@ == "बयालिसौँ"@);
    assert(NEPALI_ORDINALS[42]@ == "त्रिचालिसौँ"@);
    assert(NEPALI_ORDINALS[43]@ == "चवालिसौँ"@);
    assert(NEPALI_ORDINALS[44]@ == "पैँतालिसौँ"@);
    assert(NEPALI_ORDINALS[45]@ == "छयालिसौँ"@);
    assert(NEPALI_ORDINALS[46]@ == "सतचालिसौँ"@);
    assert(NEPALI_ORDINALS[47]@ == "अठचालिसौँ"@);
    assert(NEPALI_ORDINALS[48]@ == "उनन्चासौँ"@);
    assert(NEPALI_ORDINALS[49]@ == "पचासौँ"@);
}

/// The ordinal words from entry 50 to entry 59.
proof fn lemma_ordinal_from_50(index: int)
    requires
        50 <= index < 60,
    ensures
        ordinal_ending(ordinal_word(index)),
{
    reveal_strlit("एकाउन्नौँ");
    reveal_strlit("बाउन्नौँ");
    reveal_strlit("त्रिपन्नौँ");
    reveal_strlit("चवन्नौँ");
    reveal_strlit("पचपन्नौँ");
    reveal_strlit("छपन्नौँ");
    reveal_strlit("सन्ताउन्नौँ");
    reveal_strlit("अन्ठाउन्नौँ");
    reveal_strlit("उनन्साठिऔँ");
    reveal_strlit("साठिऔँ");
    assert(NEPALI_ORDINALS[50]@ == "एकाउन्नौँ"@);
    assert(NEPALI_ORDINALS[51]@ == "बाउन्नौँ"@);
    assert(NEPALI_ORDINALS[52]@ == "त्रिपन्नौँ"@);
    assert(NEPALI_ORDINALS[53]@ == "चवन्नौँ"@);
    assert(NEPALI_ORDINALS[54]@ == "पचपन्नौँ"@);
    assert(NEPALI_ORDINALS[55]@ == "छपन्नौँ"@);
    assert(NEPALI_ORDINALS[56]@ == "सन्ताउन्नौँ"@);
    assert(NEPALI_ORDINALS[57]@ == "अन्ठाउन्नौँ"@);
    assert(NEPALI_ORDINALS[58]@ == "उनन्साठिऔँ"@);
    assert(NEPALI_ORDINALS[59]@ == "साठिऔँ"@);
}

/// The ordinal words from entry 60 to entry 69.
proof fn lemma_ordinal_from_60(index: int)
    requires
        60 <= index < 70,
    ensures
        ordinal_ending(ordinal_word(index)),
{
    reveal_strlit("एकसट्ठिऔँ");
    reveal_strlit("बयसट्ठिऔँ");
    reveal_strlit("त्रिसट्ठिऔँ");
    reveal_strlit("चौसट्ठिऔँ");
    reveal_strlit("पैँसट्ठिऔँ");
    reveal_strlit("छयसट्ठिऔँ");
    reveal_strlit("सतसट्ठिऔँ");
    reveal_strlit("अठसट्ठिऔँ");
    reveal_strlit("उनन्सत्तरिऔँ");
    reveal_strlit("सत्तरिऔँ");
    assert(NEPALI_ORDINALS[60]@ == "एकसट्ठिऔँ"@);
    assert(NEPALI_ORDINALS[61]@ == "बयसट्ठिऔँ"@);
    assert(NEPALI_ORDINALS[62]@ == "त्रिसट्ठिऔँ"@);
    assert(NEPALI_ORDINALS[63]@ == "चौसट्ठिऔँ"@);
    assert(NEPALI_ORDINALS[64]@ == "पैँसट्ठिऔँ"@);
    assert(NEPALI_ORDINALS[65]@ == "छयसट्ठिऔँ"@);
    assert(NEPALI_ORDINALS[66]@ == "सतसट्ठिऔँ"@);
    assert(NEPALI_ORDINALS[67]@ == "अठसट्ठिऔँ"@);
    assert(NEPALI_ORDINALS[68]@ == "उनन्सत्तरिऔँ"@);
    assert(NEPALI_ORDINALS[69]@ == "सत्तरिऔँ"@);
}

/// The ordinal words from entry 70 to entry 79.
proof fn lemma_ordinal_from_70(index: int)
    requires
        70 <= index < 80,
    ensures
        ordinal_ending(ordinal_word(index)),
{
    reveal_strlit("एकहत्तरौँ");
    reveal_strlit("बहत्तरौँ");
    reveal_strlit("त्रिहत्तरौँ");
    reveal_strlit("चौहत्तरौँ");
    reveal_strlit("पचहत्तरौँ");
    reveal_strlit("छयहत्तरौँ");
    reveal_strlit("सतहत्तरौँ");
    reveal_strlit("अठहत्तरौँ");
    reveal_strlit("उनासिऔँ");
    reveal_strlit("असिऔँ");
    assert(NEPALI_ORDINALS[70]@ == "एकहत्तरौँ"@);
    assert(NEPALI_ORDINALS[71]@ == "बहत्तरौँ"@);
    assert(NEPALI_ORDINALS[72]@ == "त्रिहत्तरौँ"@);
    assert(NEPALI_ORDINALS[73]@ == "चौहत्तरौँ"@);
    assert(NEPALI_ORDINALS[74]@ == "पचहत्तरौँ"@);
    assert(NEPALI_ORDINALS[75]@ == "छयहत्तरौँ"@);
    assert(NEPALI_ORDINALS[76]@ == "सतहत्तरौँ"@);
    assert(NEPALI_ORDINALS[77]@ == "अठहत्तरौँ"@);
    assert(NEPALI_ORDINALS[78]@ == "उनासिऔँ"@);
    assert(NEPALI_ORDINALS[79]@ == "असिऔँ"@);
}

/// The ordinal words from entry 80 to entry 89.
proof fn lemma_ordinal_from_80(index: int)
    requires
        80 <= index < 90,
    ensures
        ordinal_ending(ordinal_word(index)),
{
    reveal_strlit("एकासिऔँ");
    reveal_strlit("बयासिऔँ");
    reveal_strlit("त्रियासिऔँ");
    reveal_strlit("चौरासिऔँ");
    reveal_strlit("पचासिऔँ");
    reveal_strlit("छयासिऔँ");
    reveal_strlit("सतासिऔँ");
    reveal_strlit("अठासिऔँ");
    reveal_strlit("उनान्नब्बेऔँ");
    reveal_strlit("नब्बेऔँ");
    assert(NEPALI_ORDINALS[80]@ == "एकासिऔँ"@);
    assert(NEPALI_ORDINALS[81]@ == "बयासिऔँ"@);
    assert(NEPALI_ORDINALS[82]@ == "त्रियासिऔँ"@);
    assert(NEPALI_ORDINALS[83]@ == "चौरासिऔँ"@);
    assert(NEPALI_ORDINALS[84]@ == "पचासिऔँ"@);
    assert(NEPALI_ORDINALS[85]@ == "छयासिऔँ"@);
    assert(NEPALI_ORDINALS[86]@ == "सतासिऔँ"@);
    assert(NEPALI_ORDINALS[87]@ == "अठासिऔँ"@);
    assert(NEPALI_ORDINALS[88]@ == "उनान्नब्बेऔँ"@);
    assert(NEPALI_ORDINALS[89]@ == "नब्बेऔँ"@);
}

/// The ordinal words from entry 90 to entry 99.
proof fn lemma_ordinal_from_90(index: int)
    requires
        90 <= index < 100,
    ensures
        ordinal_ending(ordinal_word(index)),
{
    reveal_strlit("एकान्नबेऔँ");
    reveal_strlit("बयान्नब्बेऔँ");
    reveal_strlit("त्रियानब्बेऔँ");
    reveal_strlit("चौरान्नब्बेऔँ");
    reveal_strlit("पन्चान्नब्बेऔँ");
    reveal_strlit("छयान्नब्बेऔँ");
    reveal_strlit("सन्तान्नब्बेऔँ");
    reveal_strlit("अन्ठान्नब्बेऔँ");
    reveal_strlit("उनान्सयौँ");
    reveal_strlit("सयौँ");
    assert(NEPALI_ORDINALS[90]@ == "एकान्नबेऔँ"@);
    assert(NEPALI_ORDINALS[91]@ == "बयान्नब्बेऔँ"@);
    assert(NEPALI_ORDINALS[92]@ == "त्रियानब्बेऔँ"@);
    assert(NEPALI_ORDINALS[93]@ == "चौरान्नब्बेऔँ"@);
    assert(NEPALI_ORDINALS[94]@ == "पन्चान्नब्बेऔँ"@);
    assert(NEPALI_ORDINALS[95]@ == "छयान्नब्बेऔँ"@);
    assert(NEPALI_ORDINALS[96]@ == "सन्तान्नब्बेऔँ"@);
    assert(NEPALI_ORDINALS[97]@ == "अन्ठान्नब्बेऔँ"@);
    assert(NEPALI_ORDINALS[98]@ == "उनान्सयौँ"@);
    assert(NEPALI_ORDINALS[99]@ == "सयौँ"@);
}

/// The ordinal words from entry 100 to entry 102.
proof fn lemma_ordinal_from_100(index: int)
    requires
        100 <= index < 103,
    ensures
        ordinal_ending(ordinal_word(index)),
{
    reveal_strlit("हजारौँ");
    reveal_strlit("लाखौँ");
    reveal_strlit("करोडौँ");
    assert(NEPALI_ORDINALS[100]@ == "हजारौँ"@);
    assert(NEPALI_ORDINALS[101]@ == "लाखौँ"@);
    assert(NEPALI_ORDINALS[102]@ == "करोडौँ"@);
}

/// Every ordinal word ends as an ordinal word.
pub proof fn lemma_ordinal_spelling(index: int)
    requires
        0 <= index < ORDINAL_COUNT,
    ensures
        ordinal_ending(ordinal_word(index)),
{
    if index < 10 {
        lemma_ordinal_from_0(index);
    } else if index < 20 {
        lemma_ordinal_from_10(index);
    } else if index < 30 {
        lemma_ordinal_from_20(index);
    } else if index < 40 {
        lemma_ordinal_from_30(index);
    } else if index < 50 {
        lemma_ordinal_from_40(index);
    } else if index < 60 {
        lemma_ordinal_from_50(index);
    } else if index < 70 {
        lemma_ordinal_from_60(index);
    } else if index < 80 {
        lemma_ordinal_from_70(index);
    } else if index < 90 {
        lemma_ordinal_from_80(index);
    } else if index < 100 {
        lemma_ordinal_from_90(index);
    } else {
        lemma_ordinal_from_100(index);
    }
}

/// Each scale word begins and ends with the letters of its position, and
/// no two positions share both.
pub proof fn lemma_scale_spelling(position: int)
    requires
        1 <= position <= MAX_POSITION,
    ensures
        spelled(scale_word(position), scale_first(position), scale_last(position)),
        scale_spelling(scale_word(position)),
        forall|other: int|
            1 <= other <= MAX_POSITION && other != position ==> !spelled(
                scale_word(position),
                scale_first(other),
                scale_last(other),
            ),
{
    reveal_strlit("सय");
    reveal_strlit("हजार");
    reveal_strlit("लाख");
    reveal_strlit("करोड");
    reveal_strlit("अर्ब");
    reveal_strlit("खर्ब");
    assert(NP_SCALE[0]@ == "सय"@);
    assert(NP_SCALE[1]@ == "हजार"@);
    assert(NP_SCALE[2]@ == "लाख"@);
    assert(NP_SCALE[3]@ == "करोड"@);
    assert(NP_SCALE[4]@ == "अर्ब"@);
    assert(NP_SCALE[5]@ == "खर्ब"@);
    assert(spelled(scale_word(position), scale_first(position), scale_last(position)));
}

/// The fixed words: the sign is a lone hyphen, the major unit's name ends
/// as an ordinal word does, and the minor unit's name ends in the vowel sign
/// AA.
pub proof fn lemma_fixed_spelling()
    ensures
        MINUS@ == seq!['-'],
        ordinal_ending(RUPEE@),
        PAISA@.len() > 0,
        PAISA@.last() == '\u{93e}',
{
    reveal_strlit("-");
    reveal_strlit("पैसा");
    reveal_strlit("रुपैयाँ");
    assert(MINUS@ =~= seq!['-']);
}

} // verus!
