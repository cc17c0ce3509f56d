use trigger_dictionary::roast::{
    clamp_level, clean_roast, create_context_by_level, create_roast_prompt, create_system_prompt,
    detect_language, has_emojis, is_caps, letter_counts, level_instruction, situation_of, Language,
    LetterCounts, Situation,
};
use trigger_dictionary::text::strip_trailing;

#[test]
fn levels_are_clamped() {
    assert_eq!(clamp_level(0), 1);
    assert_eq!(clamp_level(1), 1);
    assert_eq!(clamp_level(3), 3);
    assert_eq!(clamp_level(5), 5);
    assert_eq!(clamp_level(6), 5);
    assert_eq!(clamp_level(255), 5);
}

#[test]
fn length_comes_before_capitals_and_emojis() {
    assert_eq!(situation_of(201, true, true), Situation::Long);
    assert_eq!(situation_of(200, true, true), Situation::Shouting);
    assert_eq!(situation_of(4, true, true), Situation::Short);
    assert_eq!(situation_of(5, true, false), Situation::Emojis);
    assert_eq!(situation_of(5, false, false), Situation::Plain);
    assert_eq!(situation_of(0, false, false), Situation::Short);
}

#[test]
fn context_lines() {
    assert_eq!(create_context_by_level(Situation::Long, Language::English, 1), "This person wrote a lot");
    assert_eq!(create_context_by_level(Situation::Long, Language::English, 2), "This person wrote an essay");
    assert_eq!(
        create_context_by_level(Situation::Short, Language::English, 3),
        "This genius can barely form a sentence"
    );
    assert_eq!(
        create_context_by_level(Situation::Shouting, Language::English, 2),
        "This person is shouting in text"
    );
    assert_eq!(create_context_by_level(Situation::Emojis, Language::English, 2), "This emoji lover");
    assert_eq!(create_context_by_level(Situation::Plain, Language::English, 4), "This guy declared");
    assert_eq!(create_context_by_level(Situation::Plain, Language::English, 0), "This person said");
    assert_eq!(
        create_context_by_level(Situation::Plain, Language::Russian, 1),
        "\u{42d}\u{442}\u{43e}\u{442} \u{447}\u{435}\u{43b}\u{43e}\u{432}\u{435}\u{43a} \u{441}\u{43a}\u{430}\u{437}\u{430}\u{43b}"
    );
    assert_eq!(
        create_context_by_level(Situation::Plain, Language::Kazakh, 1),
        "\u{411}\u{4b1}\u{43b} \u{430}\u{434}\u{430}\u{43c} \u{430}\u{439}\u{442}\u{442}\u{44b}"
    );
    assert_eq!(
        create_context_by_level(Situation::Emojis, Language::English, 9),
        create_context_by_level(Situation::Emojis, Language::English, 5)
    );
}

#[test]
fn instructions_and_system_prompts() {
    assert_eq!(level_instruction(1), "Make it playful and sweet but still teasingly roast them!");
    assert_eq!(level_instruction(3), "Make it moderately sarcastic and clever!");
    assert_eq!(level_instruction(7), level_instruction(5));
    assert!(create_system_prompt(1).starts_with("You are a gentle, playful roast bot"));
    assert!(create_system_prompt(3).starts_with("You are a moderately sarcastic roast bot"));
    assert!(create_system_prompt(0).starts_with("You are a gentle, playful roast bot"));
    assert!(create_system_prompt(2).ends_with("respond directly without any formatting."));
}

#[test]
fn prompt_is_put_together() {
    assert_eq!(
        create_roast_prompt("hello there", "alice", Situation::Plain, Language::English, 3),
        "Roast user alice who just said: hello there. Context: This character said. Make it \
         moderately sarcastic and clever! Respond in the same language as the user's message. Do \
         not use quotes around your response. Do not use any emojis."
    );
}

#[test]
fn roasts_are_cleaned() {
    assert_eq!(clean_roast("  \"'nice one'\"  "), "nice one");
    assert_eq!(clean_roast("\"\"quoted\"\""), "quoted");
    assert_eq!(clean_roast("\" spaced \""), "spaced");
    assert_eq!(clean_roast("plain"), "plain");
    assert_eq!(clean_roast("'\"inner\"'"), "\"inner\"");
    assert_eq!(clean_roast(""), "");
    assert_eq!(clean_roast("\"\""), "");
    assert_eq!(strip_trailing("abc!!", '!'), "abc");
    assert_eq!(strip_trailing("!!", '!'), "");
    assert_eq!(strip_trailing("!a", '!'), "!a");
}

#[test]
fn letters_are_counted() {
    assert_eq!(letter_counts("Hi 123!"), LetterCounts { cyrillic: 0, kazakh: 0, letters: 2 });
    assert_eq!(
        letter_counts("\u{43f}\u{440}\u{438}\u{432}\u{435}\u{442} ok"),
        LetterCounts { cyrillic: 6, kazakh: 0, letters: 8 }
    );
    assert_eq!(
        letter_counts("\u{49b}\u{430}\u{437}\u{430}\u{49b} \u{401}\u{451}"),
        LetterCounts { cyrillic: 5, kazakh: 2, letters: 7 }
    );
    assert_eq!(letter_counts(""), LetterCounts { cyrillic: 0, kazakh: 0, letters: 0 });
}

#[test]
fn language_follows_the_letters() {
    let none = LetterCounts { cyrillic: 0, kazakh: 0, letters: 0 };
    assert_eq!(detect_language(none, true), Language::English);
    let kazakh = LetterCounts { cyrillic: 3, kazakh: 1, letters: 4 };
    assert_eq!(detect_language(kazakh, false), Language::Kazakh);
    let russian = LetterCounts { cyrillic: 4, kazakh: 0, letters: 5 };
    assert_eq!(detect_language(russian, true), Language::Russian);
    assert_eq!(detect_language(russian, false), Language::English);
}

#[test]
fn shouting_and_emojis() {
    assert!(is_caps("HELLO THERE"));
    assert!(is_caps("1234"));
    assert!(!is_caps("ABC"));
    assert!(!is_caps("Hello"));
    assert!(is_caps("\u{41f}\u{420}\u{418}\u{412}\u{415}\u{422}"));
    assert!(has_emojis("nice \u{1f601}"));
    assert!(!has_emojis("nice \u{1f600}"));
    assert!(!has_emojis("nice"));
}
