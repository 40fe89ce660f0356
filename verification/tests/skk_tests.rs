use dim::skk::{Dictionary, SkkAction, SkkEngine, SkkState};
use dim::romaji::{hira_to_kata, try_convert_romaji};

#[test]
fn test_dictionary_lookup() {
    let dict = Dictionary::from_builtin();
    assert_eq!(dict.lookup("にほんご"), Some(&vec!["日本語".to_string()]));
    assert_eq!(dict.lookup("unknown"), None);
}

#[test]
fn test_dictionary_add() {
    let mut dict = Dictionary::new();
    dict.add("test", &["テスト", "試験"]);
    assert_eq!(dict.lookup("test"), Some(&vec!["テスト".to_string(), "試験".to_string()]));
}

#[test]
fn test_romaji_a() {
    assert_eq!(try_convert_romaji("a"), Some("あ".to_string()));
}

#[test]
fn test_romaji_ka() {
    assert_eq!(try_convert_romaji("ka"), Some("か".to_string()));
}

#[test]
fn test_romaji_n() {
    assert_eq!(try_convert_romaji("nn"), Some("ん".to_string()));
}

#[test]
fn test_romaji_unknown() {
    assert_eq!(try_convert_romaji("xyz"), None);
}

#[test]
fn test_hira_to_kata() {
    assert_eq!(hira_to_kata('あ'), 'ア');
    assert_eq!(hira_to_kata('ん'), 'ン');
    assert_eq!(hira_to_kata('a'), 'a');
}

#[test]
fn test_skk_toggle() {
    let mut skk = SkkEngine::new();
    assert_eq!(skk.state, SkkState::Direct);
    skk.toggle();
    assert_eq!(skk.state, SkkState::Hiragana);
    skk.toggle();
    assert_eq!(skk.state, SkkState::Direct);
}

#[test]
fn test_skk_hiragana_input() {
    let mut skk = SkkEngine::new();
    skk.state = SkkState::Hiragana;
    assert_eq!(skk.process_char('k'), SkkAction::Nothing);
    assert_eq!(skk.process_char('a'), SkkAction::Insert("か".to_string()));
}

#[test]
fn test_skk_hiragana_nihongo() {
    let mut skk = SkkEngine::new();
    skk.state = SkkState::Hiragana;
    let actions: Vec<_> = "nihongo".chars().map(|c| skk.process_char(c)).collect();
    assert_eq!(actions[0], SkkAction::Nothing); // n
    assert_eq!(actions[1], SkkAction::Insert("に".to_string())); // ni
    assert_eq!(actions[2], SkkAction::Nothing); // h
    assert_eq!(actions[3], SkkAction::Insert("ほ".to_string())); // ho
    assert_eq!(actions[4], SkkAction::Nothing); // n
    assert_eq!(actions[5], SkkAction::Nothing); // g
    assert_eq!(actions[6], SkkAction::Nothing); // o (ngo doesn't match)
}

#[test]
fn test_skk_katakana_input() {
    let mut skk = SkkEngine::new();
    skk.state = SkkState::Katakana;
    assert_eq!(skk.process_char('k'), SkkAction::Nothing);
    assert_eq!(skk.process_char('a'), SkkAction::Insert("カ".to_string()));
}

#[test]
fn test_skk_conversion() {
    let mut skk = SkkEngine::new();
    skk.state = SkkState::Hiragana;
    skk.process_char('n');
    skk.process_char('i');
    skk.process_char('h');
    skk.process_char('o');
    skk.process_char('n');
    skk.process_char('g');
    skk.process_char('o');
    // This will insert kana as we type, but let's manually set reading for test
    skk.reading = "にほんご".to_string();
    skk.preedit.clear();
    let action = skk.process_char(' ');
    assert_eq!(action, SkkAction::Nothing);
    assert_eq!(skk.state, SkkState::Converting);
    assert_eq!(skk.current_candidate(), Some("日本語"));
}

#[test]
fn test_skk_confirm_conversion() {
    let mut skk = SkkEngine::new();
    skk.state = SkkState::Hiragana;
    skk.reading = "にほんご".to_string();
    skk.start_conversion();
    assert_eq!(skk.state, SkkState::Converting);
    let action = skk.confirm();
    assert_eq!(
        action,
        SkkAction::Convert {
            reading: "にほんご".to_string(),
            candidate: "日本語".to_string()
        }
    );
    assert_eq!(skk.state, SkkState::Hiragana);
}

#[test]
fn test_skk_cancel_conversion() {
    let mut skk = SkkEngine::new();
    skk.state = SkkState::Converting;
    skk.reading = "にほんご".to_string();
    skk.candidates = vec!["日本語".to_string()];
    let action = skk.cancel();
    assert_eq!(action, SkkAction::Cancel);
    assert_eq!(skk.state, SkkState::Hiragana);
    assert!(skk.candidates.is_empty());
}

#[test]
fn test_skk_next_candidate() {
    let mut skk = SkkEngine::new();
    skk.state = SkkState::Hiragana;
    skk.reading = "てきすと".to_string();
    skk.start_conversion();
    assert_eq!(skk.current_candidate(), Some("テキスト"));
    skk.next_candidate();
    assert_eq!(skk.current_candidate(), Some("文章"));
    skk.next_candidate();
    assert_eq!(skk.current_candidate(), Some("テキスト"));
}

#[test]
fn test_skk_direct_mode_passes_through() {
    let mut skk = SkkEngine::new();
    assert_eq!(skk.process_char('a'), SkkAction::Insert("a".to_string()));
}

#[test]
fn test_skk_space_in_direct() {
    let mut skk = SkkEngine::new();
    assert_eq!(skk.process_char(' '), SkkAction::Insert(" ".to_string()));
}

#[test]
fn test_load_system_dictionary() {
    let contents = "にほんご /日本語/日本語の/\n";
    let mut skk = SkkEngine::new();
    skk.load_system_dictionary(contents);
    assert_eq!(skk.dict.lookup("にほんご"), Some(&vec!["日本語".to_string(), "日本語の".to_string()]));
}

#[test]
fn test_load_user_dictionary() {
    let contents = "てきすと /テキスト/文章/\n";
    let mut skk = SkkEngine::new();
    skk.load_user_dictionary(contents);
    assert_eq!(skk.dict.lookup("てきすと"), Some(&vec!["テキスト".to_string(), "文章".to_string()]));
}

#[test]
fn test_load_dictionary_merges_with_builtin() {
    let contents = "にほんご /日本語/\n";
    let mut skk = SkkEngine::new();
    // builtin has "にほんご" -> ["日本語"]
    skk.load_user_dictionary(contents);
    // Should still work after merge
    assert_eq!(skk.dict.lookup("にほんご"), Some(&vec!["日本語".to_string()]));
}

