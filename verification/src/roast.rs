//! What is said to the roast generator: how a message is sized up and
//! which words set the tone for each roast level.

use vstd::prelude::*;
use vstd::string::StringExecFns;
use crate::text::{chars_of, strip_leading, strip_trailing, trim, trimmed, without_leading, without_trailing};

verus! {

/// The language a message is taken to be written in.
#[derive(Clone, Copy, Debug, PartialEq, Eq, Structural)]
pub enum Language {
    Kazakh,
    Russian,
    English,
}

/// What stands out about a message.
#[derive(Clone, Copy, Debug, PartialEq, Eq, Structural)]
pub enum Situation {
    /// More than 200 bytes.
    Long,
    /// Fewer than 5 bytes.
    Short,
    /// Written in capitals.
    Shouting,
    /// Holds emojis.
    Emojis,
    /// Nothing stands out.
    Plain,
}

/// The roast level in force: a level below 1 counts as 1, one above 5 as 5.
pub open spec fn clamped(level: u8) -> u8 {
    if level < 1 {
        1
    } else if level > 5 {
        5
    } else {
        level
    }
}

/// What stands out about a message of `length` bytes: length comes first,
/// capitals second, emojis third.
pub open spec fn situation(length: usize, has_emojis: bool, is_caps: bool) -> Situation {
    if length > 200 {
        Situation::Long
    } else if length < 5 {
        Situation::Short
    } else if is_caps {
        Situation::Shouting
    } else if has_emojis {
        Situation::Emojis
    } else {
        Situation::Plain
    }
}

/// One of three wordings, by language.
pub open spec fn in_language(
    language: Language,
    kazakh: Seq<char>,
    russian: Seq<char>,
    english: Seq<char>,
) -> Seq<char> {
    match language {
        Language::Kazakh => kazakh,
        Language::Russian => russian,
        Language::English => english,
    }
}

/// Whether a character is a letter, as the standard library's Unicode
/// tables have it.
pub uninterp spec fn alphabetic(c: char) -> bool;

/// Whether a character is an uppercase letter, as the standard library's
/// Unicode tables have it.
pub uninterp spec fn uppercase(c: char) -> bool;

/// The letters of the Russian alphabet: U+0410 to U+044F, and the two forms
/// of io.
pub open spec fn is_cyrillic(c: char) -> bool {
    let n = c as u32;
    0x0410 <= n <= 0x044F || n == 0x0451 || n == 0x0401
}

/// The letters that Kazakh has beyond the Russian alphabet, in both cases.
pub open spec fn is_kazakh(c: char) -> bool {
    let n = c as u32;
    ||| n == 0x04D9 || n == 0x04D8
    ||| n == 0x0493 || n == 0x0492
    ||| n == 0x049B || n == 0x049A
    ||| n == 0x04A3 || n == 0x04A2
    ||| n == 0x04E9 || n == 0x04E8
    ||| n == 0x04B1 || n == 0x04B0
    ||| n == 0x04AF || n == 0x04AE
    ||| n == 0x04BB || n == 0x04BA
    ||| n == 0x0456 || n == 0x0406
}

/// How many letters of the Russian alphabet a text holds.
pub open spec fn cyrillic_in(s: Seq<char>) -> nat
    decreases s.len(),
{
    if s.len() == 0 {
        0
    } else {
        cyrillic_in(s.drop_last()) + if is_cyrillic(s.last()) {
            1nat
        } else {
            0nat
        }
    }
}

/// How many of the letters particular to Kazakh a text holds.
pub open spec fn kazakh_in(s: Seq<char>) -> nat
    decreases s.len(),
{
    if s.len() == 0 {
        0
    } else {
        kazakh_in(s.drop_last()) + if is_kazakh(s.last()) {
            1nat
        } else {
            0nat
        }
    }
}

/// How many letters a text holds.
pub open spec fn letters_in(s: Seq<char>) -> nat
    decreases s.len(),
{
    if s.len() == 0 {
        0
    } else {
        letters_in(s.drop_last()) + if alphabetic(s.last()) {
            1nat
        } else {
            0nat
        }
    }
}

/// A message shouts when it is longer than 3 bytes and every letter of it
/// is an uppercase one.
pub open spec fn shouts(message: Seq<char>, length: usize) -> bool {
    &&& length > 3
    &&& forall|i: int|
        0 <= i < message.len() && alphabetic(#[trigger] message[i]) ==> uppercase(message[i])
}

/// The language of a message, from its letters: English where it has no
/// letters, Kazakh where it has a letter particular to Kazakh, Russian where
/// the share of Russian letters is high, English otherwise.
pub open spec fn language(counts: LetterCounts, cyrillic_share_is_high: bool) -> Language {
    if counts.letters == 0 {
        Language::English
    } else if counts.kazakh > 0 {
        Language::Kazakh
    } else if cyrillic_share_is_high {
        Language::Russian
    } else {
        Language::English
    }
}

/// The letters of a message, counted.
#[derive(Clone, Copy, Debug, PartialEq, Eq, Structural)]
pub struct LetterCounts {
    /// Letters of the Russian alphabet.
    pub cyrillic: usize,
    /// Letters particular to Kazakh.
    pub kazakh: usize,
    /// Letters of any alphabet.
    pub letters: usize,
}

/// Trusted: `char::is_alphabetic`. The result depends on the character
/// alone; the contract names it and states nothing else.
#[verifier::external_body]
pub(crate) fn is_alphabetic(c: char) -> (r: bool)
    ensures
        r == alphabetic(c),
{
    c.is_alphabetic()
}

/// Trusted: `char::is_uppercase`. The result depends on the character
/// alone; the contract names it and states nothing else.
#[verifier::external_body]
pub(crate) fn is_uppercase(c: char) -> (r: bool)
    ensures
        r == uppercase(c),
{
    c.is_uppercase()
}

/// A character counts as an emoji when it lies above U+1F600.
pub open spec fn is_emoji(c: char) -> bool {
    c as u32 > 0x1F600
}

/// The context line for a situation, in the language of the message and in
/// the tone of the level.
pub open spec fn context_text(situation: Situation, language: Language, level: u8) -> Seq<char> {
    match situation {
        Situation::Long => match level {
            1 => in_language(
                language,
                "Бұл адам көп жазды"@,
                "Этот человек много написал"@,
                "This person wrote a lot"@,
            ),
            2 => in_language(
                language,
                "Бұл адам эссе жазды"@,
                "Этот товарищ написал эссе"@,
                "This person wrote an essay"@,
            ),
            3 => in_language(
                language,
                "Бұл адам роман жазып жатыр"@,
                "Этот товарищ написал целую лекцию"@,
                "This person wrote a damn essay"@,
            ),
            4 => in_language(
                language,
                "Бұл мүрдардың романы жазып жатыр"@,
                "Этот болтун написал целый роман"@,
                "This chatterbox wrote a fucking novel"@,
            ),
            _ => in_language(
                language,
                "Бұл ақымақ романды жазып жатыр"@,
                "Этот долбоёб написал целый роман"@,
                "This moron wrote a fucking novel"@,
            ),
        },
        Situation::Short => match level {
            1 => in_language(
                language,
                "Бұл адам аз сөйледі"@,
                "Этот человек мало сказал"@,
                "This person said very little"@,
            ),
            2 => in_language(
                language,
                "Бұл адам сөз таба алмады"@,
                "Этот человек слов не нашёл"@,
                "This person couldn't find words"@,
            ),
            3 => in_language(
                language,
                "Бұл адам сөз табысты жоқ"@,
                "Этот гений слов не может связать"@,
                "This genius can barely form a sentence"@,
            ),
            4 => in_language(
                language,
                "Бұл ақылсыз сөйлей алмайды"@,
                "Этот тупой даже слова связать не может"@,
                "This dummy can't even string words together"@,
            ),
            _ => in_language(
                language,
                "Бұл ақылсыз ештеңе айта алмайды"@,
                "Этот тупой даже слова связать не может"@,
                "This idiot can barely string words together"@,
            ),
        },
        Situation::Shouting => match level {
            1 => in_language(
                language,
                "Бұл адам дауысты жазып жатыр"@,
                "Этот человек пишет громко"@,
                "This person is writing loudly"@,
            ),
            2 => in_language(
                language,
                "Бұл адам дауыстап жазып жатыр"@,
                "Этот человек кричит буквами"@,
                "This person is shouting in text"@,
            ),
            3 => in_language(
                language,
                "Бұл адам дауыстап жазып жатыр"@,
                "Этот крикун орёт заглавными"@,
                "This person is yelling like a maniac"@,
            ),
            4 => in_language(
                language,
                "Бұл дауыстап жазып жатыр, ақылын жоғалтты"@,
                "Этот псих орёт заглавными как ненормальный"@,
                "This psycho is screaming in caps like crazy"@,
            ),
            _ => in_language(
                language,
                "Бұл дауыстап жазып жатыр, ақылын жоғалтты"@,
                "Этот дебил орёт заглавными как психованный"@,
                "This fucking lunatic is screaming in caps"@,
            ),
        },
        Situation::Emojis => match level {
            1 => in_language(
                language,
                "Бұл адам эмодзи жақсы көреді"@,
                "Этот человек любит эмодзи"@,
                "This person likes emojis"@,
            ),
            2 => in_language(
                language,
                "Бұл эмодзиге ғашық адам"@,
                "Этот любитель эмодзи"@,
                "This emoji lover"@,
            ),
            3 => in_language(
                language,
                "Бұл эмодзиге ғашық адам"@,
                "Этот любитель эмодзи"@,
                "This emoji enthusiast"@,
            ),
            4 => in_language(
                language,
                "Бұл эмодзиге мас болған адам"@,
                "Этот помешанный на эмодзи"@,
                "This emoji-obsessed person"@,
            ),
            _ => in_language(
                language,
                "Бұл эмодзиге мас болған балапан"@,
                "Этот долбоёб обожает эмодзи как малолетка"@,
                "This emoji-obsessed manchild"@,
            ),
        },
        Situation::Plain => match level {
            1 => in_language(
                language,
                "Бұл адам айтты"@,
                "Этот человек сказал"@,
                "This person said"@,
            ),
            2 => in_language(
                language,
                "Бұл адам айтты"@,
                "Этот товарищ сказал"@,
                "This individual said"@,
            ),
            3 => in_language(
                language,
                "Бұл адам айтты"@,
                "Этот персонаж сказал"@,
                "This character said"@,
            ),
            4 => in_language(
                language,
                "Бұл жігіт айтты"@,
                "Этот товарищ заявил"@,
                "This guy declared"@,
            ),
            _ => in_language(
                language,
                "Бұл дурак айтты"@,
                "Этот дебил сказал"@,
                "This dumbass said"@,
            ),
        },
    }
}

/// The closing instruction for a level.
pub open spec fn instruction_text(level: u8) -> Seq<char> {
    match level {
        1 => "Make it playful and sweet but still teasingly roast them!"@,
        2 => "Make it mildly sarcastic and witty but friendly!"@,
        3 => "Make it moderately sarcastic and clever!"@,
        4 => "Make it sharp, edgy and quite harsh!"@,
        _ => "Make it brutal, savage and use profanity!"@,
    }
}

/// The system prompt for a level.
pub open spec fn system_text(level: u8) -> Seq<char> {
    match level {
        1 => "You are a gentle, playful roast bot for a Telegram chat where people speak Kazakh, Russian, and English. Generate kind but teasing roasts that are lighthearted and friendly. Always respond in the SAME LANGUAGE as the user's message. Be sweet and playful, like friendly banter between friends. Keep responses under 120 characters. DO NOT use any emojis or profanity. NEVER use quotes around your response - respond directly without any formatting."@,
        2 => "You are a mildly sarcastic roast bot for a Telegram chat where people speak Kazakh, Russian, and English. Generate gentle roasts with light sarcasm that are still friendly. Always respond in the SAME LANGUAGE as the user's message. Be witty but keep it light and harmless. Keep responses under 120 characters. DO NOT use any emojis or strong profanity. NEVER use quotes around your response - respond directly without any formatting."@,
        3 => "You are a moderately sarcastic roast bot for a Telegram chat where people speak Kazakh, Russian, and English. Generate witty, satirical roasts that are moderately sharp and clever. Always respond in the SAME LANGUAGE as the user's message. You can use mild edgy humor when appropriate. Keep responses under 120 characters. DO NOT use any emojis in your responses. NEVER use quotes around your response - respond directly without any formatting."@,
        4 => "You are a sharp, edgy roast bot for a Telegram chat where people speak Kazakh, Russian, and English. Generate cutting, satirical roasts that are quite harsh and sarcastic. Always respond in the SAME LANGUAGE as the user's message. You can use moderate profanity and sharp humor. Keep responses under 120 characters. DO NOT use any emojis in your responses. NEVER use quotes around your response - respond directly without any formatting."@,
        _ => "You are a savage, brutal roast bot for a Telegram chat where people speak Kazakh, Russian, and English. Generate extremely rude, satirical, and harsh roasts that are brutally honest and cutting. Always respond in the SAME LANGUAGE as the user's message. You can and should use profanity, swear words, and harsh language. Be merciless, sarcastic, and brutally satirical. Keep responses under 120 characters. DO NOT use any emojis in your responses. NEVER use quotes around your response - respond directly without any formatting."@,
    }
}

/// The request that asks for a roast of a message.
pub open spec fn prompt_text(
    username: Seq<char>,
    message: Seq<char>,
    context: Seq<char>,
    instruction: Seq<char>,
) -> Seq<char> {
    "Roast user "@ + username + " who just said: "@ + message + ". Context: "@ + context + ". "@
        + instruction
        + " Respond in the same language as the user's message. Do not use quotes around your response. Do not use any emojis."@
}

/// A roast as it is passed on: trimmed, freed of the double and then of the
/// single quotes around it, and trimmed again.
pub open spec fn cleaned(content: Seq<char>) -> Seq<char> {
    let unquoted = without_trailing(without_leading(trimmed(content), '"'), '"');
    trimmed(without_trailing(without_leading(unquoted, '\''), '\''))
}

/// The roast level in force.
pub fn clamp_level(level: u8) -> (r: u8)
    ensures
        r == clamped(level),
        1 <= r <= 5,
{
    if level < 1 {
        1
    } else if level > 5 {
        5
    } else {
        level
    }
}

/// Sizes a message up.
pub fn situation_of(length: usize, has_emojis: bool, is_caps: bool) -> (r: Situation)
    ensures
        r == situation(length, has_emojis, is_caps),
{
    if length > 200 {
        Situation::Long
    } else if length < 5 {
        Situation::Short
    } else if is_caps {
        Situation::Shouting
    } else if has_emojis {
        Situation::Emojis
    } else {
        Situation::Plain
    }
}

/// Whether a message holds an emoji.
pub fn has_emojis(message: &str) -> (r: bool)
    ensures
        r == exists|i: int| 0 <= i < message@.len() && is_emoji(#[trigger] message@[i]),
{
    let chars = chars_of(message);
    let n = chars.len();
    let mut i: usize = 0;
    while i < n
        invariant
            chars@ == message@,
            n == chars@.len(),
            i <= n,
            forall|j: int| 0 <= j < i ==> !is_emoji(#[trigger] message@[j]),
        decreases n - i,
    {
        if chars[i] as u32 > 0x1F600 {
            return true;
        }
        i = i + 1;
    }
    false
}

/// Whether a message shouts.
pub fn is_caps(message: &str) -> (r: bool)
    ensures
        r == shouts(message@, message.len()),
{
    if message.len() <= 3 {
        return false;
    }
    let chars = chars_of(message);
    let n = chars.len();
    let mut i: usize = 0;
    while i < n
        invariant
            chars@ == message@,
            n == chars@.len(),
            i <= n,
            message.len() > 3,
            forall|j: int|
                0 <= j < i && alphabetic(#[trigger] message@[j]) ==> uppercase(message@[j]),
        decreases n - i,
    {
        if is_alphabetic(chars[i]) && !is_uppercase(chars[i]) {
            assert(alphabetic(message@[i as int]) && !uppercase(message@[i as int]));
            return false;
        }
        i = i + 1;
    }
    true
}

/// Counts the letters of a message.
pub fn letter_counts(message: &str) -> (r: LetterCounts)
    ensures
        r.cyrillic == cyrillic_in(message@),
        r.kazakh == kazakh_in(message@),
        r.letters == letters_in(message@),
{
    let chars = chars_of(message);
    let n = chars.len();
    let mut counts = LetterCounts { cyrillic: 0, kazakh: 0, letters: 0 };
    let mut i: usize = 0;
    assert(message@.take(0) =~= Seq::<char>::empty());
    while i < n
        invariant
            chars@ == message@,
            n == chars@.len(),
            i <= n,
            counts.cyrillic == cyrillic_in(message@.take(i as int)),
            counts.kazakh == kazakh_in(message@.take(i as int)),
            counts.letters == letters_in(message@.take(i as int)),
            counts.cyrillic <= i,
            counts.kazakh <= i,
            counts.letters <= i,
        decreases n - i,
    {
        let c = chars[i];
        let code = c as u32;
        proof {
            assert(message@.take(i as int + 1).drop_last() =~= message@.take(i as int));
            assert(message@.take(i as int + 1).last() == c);
        }
        if (0x0410 <= code && code <= 0x044F) || code == 0x0451 || code == 0x0401 {
            counts.cyrillic = counts.cyrillic + 1;
        }
        if code == 0x04D9 || code == 0x04D8 || code == 0x0493 || code == 0x0492 || code == 0x049B
            || code == 0x049A || code == 0x04A3 || code == 0x04A2 || code == 0x04E9 || code
            == 0x04E8 || code == 0x04B1 || code == 0x04B0 || code == 0x04AF || code == 0x04AE
            || code == 0x04BB || code == 0x04BA || code == 0x0456 || code == 0x0406 {
            counts.kazakh = counts.kazakh + 1;
        }
        if is_alphabetic(c) {
            counts.letters = counts.letters + 1;
        }
        i = i + 1;
    }
    assert(message@.take(n as int) =~= message@);
    counts
}

/// The language of a message, from its letter counts and from whether the
/// share of Russian letters among the letters is high.
pub fn detect_language(counts: LetterCounts, cyrillic_share_is_high: bool) -> (r: Language)
    ensures
        r == language(counts, cyrillic_share_is_high),
{
    if counts.letters == 0 {
        Language::English
    } else if counts.kazakh > 0 {
        Language::Kazakh
    } else if cyrillic_share_is_high {
        Language::Russian
    } else {
        Language::English
    }
}

fn pick(
    language: Language,
    kazakh: &'static str,
    russian: &'static str,
    english: &'static str,
) -> (r: &'static str)
    ensures
        r@ == in_language(language, kazakh@, russian@, english@),
{
    match language {
        Language::Kazakh => kazakh,
        Language::Russian => russian,
        Language::English => english,
    }
}

/// The context line for a situation. The level is clamped first.
pub fn create_context_by_level(situation: Situation, language: Language, level: u8) -> (r:
    &'static str)
    ensures
        r@ == context_text(situation, language, clamped(level)),
{
    let level = clamp_level(level);
    match situation {
        Situation::Long => match level {
            1 => pick(
                language,
                "Бұл адам көп жазды",
                "Этот человек много написал",
                "This person wrote a lot",
            ),
            2 => pick(
                language,
                "Бұл адам эссе жазды",
                "Этот товарищ написал эссе",
                "This person wrote an essay",
            ),
            3 => pick(
                language,
                "Бұл адам роман жазып жатыр",
                "Этот товарищ написал целую лекцию",
                "This person wrote a damn essay",
            ),
            4 => pick(
                language,
                "Бұл мүрдардың романы жазып жатыр",
                "Этот болтун написал целый роман",
                "This chatterbox wrote a fucking novel",
            ),
            _ => pick(
                language,
                "Бұл ақымақ романды жазып жатыр",
                "Этот долбоёб написал целый роман",
                "This moron wrote a fucking novel",
            ),
        },
        Situation::Short => match level {
            1 => pick(
                language,
                "Бұл адам аз сөйледі",
                "Этот человек мало сказал",
                "This person said very little",
            ),
            2 => pick(
                language,
                "Бұл адам сөз таба алмады",
                "Этот человек слов не нашёл",
                "This person couldn't find words",
            ),
            3 => pick(
                language,
                "Бұл адам сөз табысты жоқ",
                "Этот гений слов не может связать",
                "This genius can barely form a sentence",
            ),
            4 => pick(
                language,
                "Бұл ақылсыз сөйлей алмайды",
                "Этот тупой даже слова связать не может",
                "This dummy can't even string words together",
            ),
            _ => pick(
                language,
                "Бұл ақылсыз ештеңе айта алмайды",
                "Этот тупой даже слова связать не может",
                "This idiot can barely string words together",
            ),
        },
        Situation::Shouting => match level {
            1 => pick(
                language,
                "Бұл адам дауысты жазып жатыр",
                "Этот человек пишет громко",
                "This person is writing loudly",
            ),
            2 => pick(
                language,
                "Бұл адам дауыстап жазып жатыр",
                "Этот человек кричит буквами",
                "This person is shouting in text",
            ),
            3 => pick(
                language,
                "Бұл адам дауыстап жазып жатыр",
                "Этот крикун орёт заглавными",
                "This person is yelling like a maniac",
            ),
            4 => pick(
                language,
                "Бұл дауыстап жазып жатыр, ақылын жоғалтты",
                "Этот псих орёт заглавными как ненормальный",
                "This psycho is screaming in caps like crazy",
            ),
            _ => pick(
                language,
                "Бұл дауыстап жазып жатыр, ақылын жоғалтты",
                "Этот дебил орёт заглавными как психованный",
                "This fucking lunatic is screaming in caps",
            ),
        },
        Situation::Emojis => match level {
            1 => pick(
                language,
                "Бұл адам эмодзи жақсы көреді",
                "Этот человек любит эмодзи",
                "This person likes emojis",
            ),
            2 => pick(
                language,
                "Бұл эмодзиге ғашық адам",
                "Этот любитель эмодзи",
                "This emoji lover",
            ),
            3 => pick(
                language,
                "Бұл эмодзиге ғашық адам",
                "Этот любитель эмодзи",
                "This emoji enthusiast",
            ),
            4 => pick(
                language,
                "Бұл эмодзиге мас болған адам",
                "Этот помешанный на эмодзи",
                "This emoji-obsessed person",
            ),
            _ => pick(
                language,
                "Бұл эмодзиге мас болған балапан",
                "Этот долбоёб обожает эмодзи как малолетка",
                "This emoji-obsessed manchild",
            ),
        },
        Situation::Plain => match level {
            1 => pick(
                language,
                "Бұл адам айтты",
                "Этот человек сказал",
                "This person said",
            ),
            2 => pick(
                language,
                "Бұл адам айтты",
                "Этот товарищ сказал",
                "This individual said",
            ),
            3 => pick(
                language,
                "Бұл адам айтты",
                "Этот персонаж сказал",
                "This character said",
            ),
            4 => pick(
                language,
                "Бұл жігіт айтты",
                "Этот товарищ заявил",
                "This guy declared",
            ),
            _ => pick(
                language,
                "Бұл дурак айтты",
                "Этот дебил сказал",
                "This dumbass said",
            ),
        },
    }
}

/// The closing instruction for a level. The level is clamped first.
pub fn level_instruction(level: u8) -> (r: &'static str)
    ensures
        r@ == instruction_text(clamped(level)),
{
    let level = clamp_level(level);
    match level {
        1 => "Make it playful and sweet but still teasingly roast them!",
        2 => "Make it mildly sarcastic and witty but friendly!",
        3 => "Make it moderately sarcastic and clever!",
        4 => "Make it sharp, edgy and quite harsh!",
        _ => "Make it brutal, savage and use profanity!",
    }
}

/// The system prompt for a level. The level is clamped first.
pub fn create_system_prompt(level: u8) -> (r: &'static str)
    ensures
        r@ == system_text(clamped(level)),
{
    let level = clamp_level(level);
    match level {
        1 => "You are a gentle, playful roast bot for a Telegram chat where people speak Kazakh, Russian, and English. Generate kind but teasing roasts that are lighthearted and friendly. Always respond in the SAME LANGUAGE as the user's message. Be sweet and playful, like friendly banter between friends. Keep responses under 120 characters. DO NOT use any emojis or profanity. NEVER use quotes around your response - respond directly without any formatting.",
        2 => "You are a mildly sarcastic roast bot for a Telegram chat where people speak Kazakh, Russian, and English. Generate gentle roasts with light sarcasm that are still friendly. Always respond in the SAME LANGUAGE as the user's message. Be witty but keep it light and harmless. Keep responses under 120 characters. DO NOT use any emojis or strong profanity. NEVER use quotes around your response - respond directly without any formatting.",
        3 => "You are a moderately sarcastic roast bot for a Telegram chat where people speak Kazakh, Russian, and English. Generate witty, satirical roasts that are moderately sharp and clever. Always respond in the SAME LANGUAGE as the user's message. You can use mild edgy humor when appropriate. Keep responses under 120 characters. DO NOT use any emojis in your responses. NEVER use quotes around your response - respond directly without any formatting.",
        4 => "You are a sharp, edgy roast bot for a Telegram chat where people speak Kazakh, Russian, and English. Generate cutting, satirical roasts that are quite harsh and sarcastic. Always respond in the SAME LANGUAGE as the user's message. You can use moderate profanity and sharp humor. Keep responses under 120 characters. DO NOT use any emojis in your responses. NEVER use quotes around your response - respond directly without any formatting.",
        _ => "You are a savage, brutal roast bot for a Telegram chat where people speak Kazakh, Russian, and English. Generate extremely rude, satirical, and harsh roasts that are brutally honest and cutting. Always respond in the SAME LANGUAGE as the user's message. You can and should use profanity, swear words, and harsh language. Be merciless, sarcastic, and brutally satirical. Keep responses under 120 characters. DO NOT use any emojis in your responses. NEVER use quotes around your response - respond directly without any formatting.",
    }
}

/// The request that asks for a roast of `message` by `username`, sized up
/// as `situation`, in the tone of `level`.
pub fn create_roast_prompt(
    message: &str,
    username: &str,
    situation: Situation,
    language: Language,
    level: u8,
) -> (r: String)
    ensures
        r@ == prompt_text(
            username@,
            message@,
            context_text(situation, language, clamped(level)),
            instruction_text(clamped(level)),
        ),
{
    let context = create_context_by_level(situation, language, level);
    let instruction = level_instruction(level);
    String::from_str("Roast user ").concat(username).concat(" who just said: ").concat(
        message,
    ).concat(". Context: ").concat(context).concat(". ").concat(instruction).concat(
        " Respond in the same language as the user's message. Do not use quotes around your response. Do not use any emojis.",
    )
}

/// Cleans the roast that came back.
pub fn clean_roast(content: &str) -> (r: String)
    ensures
        r@ == cleaned(content@),
{
    let unquoted = strip_trailing(strip_leading(trim(content), '"'), '"');
    trim(strip_trailing(strip_leading(unquoted, '\''), '\'')).to_owned()
}

} // verus!
